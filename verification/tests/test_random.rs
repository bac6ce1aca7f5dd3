use cryptobox::cryptobox::{open, seal};
use cryptobox::error::Error;
use cryptobox::key::{format_key, from_env, from_random};
use rand::{Rng, RngCore};

/// A factor that determines the amount of test iterations to run
const TEST_FACTOR: usize = 24;
/// The maximum limit of the plaintext size to test, kept below the original
/// 32 MiB so that a full round of iterations fits the test harness's
/// per-test time budget
const TEST_PLAINTEXT_LIMIT: u32 = 4 * 1024 * 1024;

/// The header
const HEADER: &[u8] = b"de.KizzyCode.Cryptobox.v1.XChaCha20Poly1305Ietf_";

/// Generate `len` random bytes
fn random(len: usize) -> Vec<u8> {
    let mut buf = vec![0u8; len];
    rand::thread_rng().fill_bytes(&mut buf);
    buf
}

/// Generate a uniform random `u32` within `[0, upper_bound)`
fn random_u32(upper_bound: u32) -> u32 {
    rand::thread_rng().gen_range(0..upper_bound)
}

/// Encrypt data with a freshly generated key, returning the envelope and the
/// disclosed key representation
fn encrypt(data: &[u8]) -> (Vec<u8>, String) {
    let key = from_random().unwrap();
    let key_hex = String::from_utf8(format_key(&key)).unwrap();
    let envelope = seal(data.to_vec(), key).unwrap();
    (envelope, key_hex)
}

/// Decrypt data with a key supplied as hexadecimal text
fn decrypt(data: &[u8], key: &str) -> Result<Vec<u8>, Error> {
    let key = from_env(key.to_string())?;
    open(data.to_vec(), key)
}

/// Test stub to test `plaintext -> ciphertext -> plaintext` cycles
fn test_encrypt_decrypt() {
    // Generate random plaintext
    let len = random_u32(TEST_PLAINTEXT_LIMIT) as usize;
    let data = random(len);

    // Encrypt and decrypt data
    let (ciphertext, key) = encrypt(&data);
    let plaintext = decrypt(&ciphertext, &key).unwrap();

    // Validate header and plaintext
    assert!(ciphertext.starts_with(HEADER));
    assert_eq!(plaintext, data);
}

/// Test stub to test `plaintext -> ciphertext -> invalid-text -> error` cycles
fn test_error() {
    // Generate random plaintext
    let len = random_u32(TEST_PLAINTEXT_LIMIT) as usize;
    let data = random(len);

    // Encrypt data
    let (mut ciphertext, key) = encrypt(&data);

    // Introduce random fault
    let fault_index = random_u32(ciphertext.len() as u32) as usize;
    ciphertext[fault_index] ^= 0b0000_0100;

    // Decrypt data and validate the outcome
    let expected = match fault_index < HEADER.len() {
        true => Error::UnsupportedHeader,
        false => Error::AuthenticationFailed,
    };
    assert_eq!(decrypt(&ciphertext, &key).unwrap_err(), expected);
}

// El-cheapo multithreading for tests
#[test]
fn test_ok_0() {
    (0..TEST_FACTOR).for_each(|_| test_encrypt_decrypt());
}
#[test]
fn test_ok_1() {
    (0..TEST_FACTOR).for_each(|_| test_encrypt_decrypt());
}
#[test]
fn test_ok_2() {
    (0..TEST_FACTOR).for_each(|_| test_encrypt_decrypt());
}
#[test]
fn test_ok_3() {
    (0..TEST_FACTOR).for_each(|_| test_encrypt_decrypt());
}

// El-cheapo multithreading for failing tests
#[test]
fn test_err_0() {
    (0..TEST_FACTOR).for_each(|_| test_error());
}
#[test]
fn test_err_1() {
    (0..TEST_FACTOR).for_each(|_| test_error());
}
#[test]
fn test_err_2() {
    (0..TEST_FACTOR).for_each(|_| test_error());
}
#[test]
fn test_err_3() {
    (0..TEST_FACTOR).for_each(|_| test_error());
}
