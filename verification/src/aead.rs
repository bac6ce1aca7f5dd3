//! The trusted boundary around the XChaCha20-Poly1305 primitive and the
//! operating system's random source.
//!
//! Everything else in the crate is verified against the contracts stated
//! here; the bodies in this module only hand arguments to the outside crate
//! and convert what comes back.

use chacha20poly1305::aead::rand_core::RngCore;
use chacha20poly1305::aead::{Aead, OsRng};
use chacha20poly1305::{KeyInit, XChaCha20Poly1305, XNonce};
use vstd::prelude::*;

verus! {

/// The length of a key, in bytes.
pub const KEY_LEN: usize = 32;

/// The length of a nonce, in bytes.
pub const NONCE_LEN: usize = 24;

/// The length of an authentication tag, in bytes.
pub const TAG_LEN: usize = 16;

/// What XChaCha20-Poly1305 encryption returns for a key, a nonce and a
/// plaintext: the ciphertext with the authentication tag appended. The result
/// is a function of the three arguments alone.
pub uninterp spec fn xchacha_seal(key: Seq<u8>, nonce: Seq<u8>, plaintext: Seq<u8>) -> Seq<u8>;

/// The longest message the primitive handles: its ChaCha20 block counter is
/// 32 bits wide over 64-byte blocks, and the first block keys the Poly1305
/// authenticator, leaving `2^32 - 2` blocks for the message itself.
pub const MAX_MESSAGE_LEN: u64 = 64 * 0xffff_fffe;

/// Whether a message of this length stays within the primitive's block
/// counter.
pub open spec fn within_message_limit(len: nat) -> bool {
    len <= MAX_MESSAGE_LEN
}

/// Relies on `chacha20poly1305::XChaCha20Poly1305` encryption
/// (`aead::Aead::encrypt`): the result is determined by key, nonce and
/// plaintext alone, and is the ciphertext with the 16-byte tag appended.
/// Messages past the block counter are excluded here, because the primitive
/// does not refuse every such length cleanly: its guard passes lengths just
/// under one block beyond the keystream that is actually left.
#[verifier::external_body]
pub(crate) fn aead_seal(key: &Vec<u8>, nonce: &Vec<u8>, plaintext: &Vec<u8>) -> (r: Option<
    Vec<u8>,
>)
    requires
        key@.len() == KEY_LEN,
        nonce@.len() == NONCE_LEN,
        within_message_limit(plaintext@.len()),
    ensures
        r is Some,
        r matches Some(c) ==> c@ == xchacha_seal(key@, nonce@, plaintext@),
        r matches Some(c) ==> c@.len() == plaintext@.len() + TAG_LEN,
{
    let cipher = match XChaCha20Poly1305::new_from_slice(key.as_slice()) {
        Ok(c) => c,
        Err(_) => return None,
    };
    let nonce = XNonce::from_slice(nonce.as_slice());
    cipher.encrypt(nonce, plaintext.as_slice()).ok()
}

/// Relies on `chacha20poly1305::XChaCha20Poly1305` decryption
/// (`aead::Aead::decrypt`): it returns a plaintext exactly when the input is
/// the encryption of that plaintext under the given key and nonce, with the
/// tag at the end. Inputs shorter than a tag are refused cleanly; inputs
/// whose message part lies past the block counter are excluded here, for the
/// same keystream boundary as in `aead_seal`.
#[verifier::external_body]
pub(crate) fn aead_open(key: &Vec<u8>, nonce: &Vec<u8>, ciphertext: &Vec<u8>) -> (r: Option<
    Vec<u8>,
>)
    requires
        key@.len() == KEY_LEN,
        nonce@.len() == NONCE_LEN,
        ciphertext@.len() <= MAX_MESSAGE_LEN + TAG_LEN,
    ensures
        r matches Some(p) ==> ciphertext@ == xchacha_seal(key@, nonce@, p@) && p@.len() + TAG_LEN
            == ciphertext@.len() && within_message_limit(p@.len()),
        forall|p: Seq<u8>|
            ciphertext@ == xchacha_seal(key@, nonce@, p) && within_message_limit(p.len())
                ==> r is Some && (r->0)@ == p,
{
    let cipher = match XChaCha20Poly1305::new_from_slice(key.as_slice()) {
        Ok(c) => c,
        Err(_) => return None,
    };
    let nonce = XNonce::from_slice(nonce.as_slice());
    cipher.decrypt(nonce, ciphertext.as_slice()).ok()
}

/// Relies on `rand_core::OsRng` (re-exported by `chacha20poly1305::aead`):
/// `try_fill_bytes` fills the whole buffer from the operating system's random
/// source, or reports failure. Nothing is assumed of the values drawn.
#[verifier::external_body]
pub(crate) fn random_bytes(len: usize) -> (r: Option<Vec<u8>>)
    ensures
        r matches Some(b) ==> b@.len() == len,
{
    let mut buf = vec![0u8; len];
    match OsRng.try_fill_bytes(buf.as_mut_slice()) {
        Ok(()) => Some(buf),
        Err(_) => None,
    }
}

} // verus!
