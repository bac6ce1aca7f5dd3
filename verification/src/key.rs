//! The key provider: decoding and validating an externally supplied
//! hexadecimal key, generating a fresh random key, and formatting the key
//! for the disclosure line.

use crate::aead::{random_bytes, KEY_LEN};
use crate::error::Error;
use vstd::prelude::*;
use vstd::utf8::encode_utf8;

verus! {

/// Whether `b` is the ASCII code of a hexadecimal digit (`0-9`, `a-f`, `A-F`).
pub open spec fn is_hex_digit(b: u8) -> bool {
    (48 <= b <= 57) || (97 <= b <= 102) || (65 <= b <= 70)
}

/// The value of the hexadecimal digit with ASCII code `b`.
pub open spec fn hex_value(b: u8) -> u8 {
    if 48 <= b <= 57 {
        (b - 48) as u8
    } else if 97 <= b <= 102 {
        (b - 97 + 10) as u8
    } else {
        (b - 65 + 10) as u8
    }
}

/// The hexadecimal digits of `s`, in order; every other byte is discarded.
pub open spec fn hex_digits(s: Seq<u8>) -> Seq<u8>
    decreases s.len(),
{
    if s.len() == 0 {
        Seq::empty()
    } else if is_hex_digit(s.last()) {
        hex_digits(s.drop_last()).push(s.last())
    } else {
        hex_digits(s.drop_last())
    }
}

/// The values of the hexadecimal digits of `s`, in order.
pub open spec fn hex_nibbles(s: Seq<u8>) -> Seq<u8> {
    hex_digits(s).map_values(|b: u8| hex_value(b))
}

/// Combines an even-length sequence of nibble values into bytes, high
/// nibble first.
pub open spec fn nibbles_to_bytes(n: Seq<u8>) -> Seq<u8> {
    Seq::new(n.len() / 2, |i: int| (n[2 * i] * 16 + n[2 * i + 1]) as u8)
}

/// What decoding a hexadecimal key representation yields: the nibble values
/// of its hexadecimal digits combined into bytes, an encoding error when the
/// digit count is odd, and a length error when the byte count is not the
/// fixed key length.
pub open spec fn key_decode(s: Seq<u8>) -> Result<Seq<u8>, Error> {
    let n = hex_nibbles(s);
    if n.len() % 2 != 0 {
        Err(Error::InvalidKeyEncoding)
    } else if n.len() / 2 != KEY_LEN {
        Err(Error::InvalidKeyLength)
    } else {
        Ok(nibbles_to_bytes(n))
    }
}

/// Key decoding ignores separators: byte sequences that carry the same
/// hexadecimal digits decode to the same result, whatever else stands
/// between the digits.
pub proof fn lemma_decode_ignores_separators(a: Seq<u8>, b: Seq<u8>)
    requires
        hex_digits(a) == hex_digits(b),
    ensures
        key_decode(a) == key_decode(b),
{
}

/// The value of the hexadecimal digit with ASCII code `b`, or nothing when
/// `b` is no such code.
fn hex_digit_value(b: u8) -> (r: Option<u8>)
    ensures
        r is Some <==> is_hex_digit(b),
        r matches Some(v) ==> v == hex_value(b) && v < 16,
{
    if 48 <= b && b <= 57 {
        Some(b - 48)
    } else if 97 <= b && b <= 102 {
        Some(b - 97 + 10)
    } else if 65 <= b && b <= 70 {
        Some(b - 65 + 10)
    } else {
        None
    }
}

proof fn lemma_hex_nibbles_extend(s: Seq<u8>, b: u8)
    ensures
        is_hex_digit(b) ==> hex_nibbles(s.push(b)) == hex_nibbles(s).push(hex_value(b)),
        !is_hex_digit(b) ==> hex_nibbles(s.push(b)) == hex_nibbles(s),
{
    assert(s.push(b).drop_last() =~= s);
    if is_hex_digit(b) {
        assert(hex_digits(s.push(b)) == hex_digits(s).push(b));
        assert(hex_digits(s).push(b).map_values(|d: u8| hex_value(d)) =~= hex_digits(
            s,
        ).map_values(|d: u8| hex_value(d)).push(hex_value(b)));
    }
}

/// Decodes an externally supplied hexadecimal key. Bytes that are no
/// hexadecimal digits are separators and are discarded, not rejected; an odd
/// digit count and a wrong decoded length are rejected, in that order.
pub fn from_env(key_hex: String) -> (r: Result<Vec<u8>, Error>)
    ensures
        match r {
            Ok(k) => key_decode(encode_utf8(key_hex@)) == Ok::<Seq<u8>, Error>(k@) && k@.len()
                == KEY_LEN,
            Err(e) => key_decode(encode_utf8(key_hex@)) == Err::<Seq<u8>, Error>(e),
        },
{
    let bytes: &[u8] = key_hex.as_str().as_bytes();
    let n = bytes.len();
    let mut nibbles: Vec<u8> = Vec::new();
    let mut i: usize = 0;
    while i < n
        invariant
            i <= n == bytes@.len(),
            nibbles@ == hex_nibbles(bytes@.subrange(0, i as int)),
            forall|t: int| 0 <= t < nibbles@.len() ==> nibbles@[t] < 16,
        decreases n - i,
    {
        let b = bytes[i];
        match hex_digit_value(b) {
            Some(v) => nibbles.push(v),
            None => {},
        }
        i = i + 1;
        proof {
            assert(bytes@.subrange(0, i as int) =~= bytes@.subrange(0, i - 1).push(
                bytes@[i - 1],
            ));
            lemma_hex_nibbles_extend(bytes@.subrange(0, i - 1), bytes@[i - 1]);
        }
    }
    proof {
        assert(bytes@.subrange(0, n as int) =~= bytes@);
    }
    if nibbles.len() % 2 != 0 {
        return Err(Error::InvalidKeyEncoding);
    }
    if nibbles.len() / 2 != KEY_LEN {
        return Err(Error::InvalidKeyLength);
    }
    let mut key: Vec<u8> = Vec::new();
    let mut j: usize = 0;
    while j < KEY_LEN
        invariant
            j <= KEY_LEN,
            nibbles@.len() == 2 * KEY_LEN,
            forall|t: int| 0 <= t < nibbles@.len() ==> nibbles@[t] < 16,
            key@.len() == j,
            forall|t: int| 0 <= t < j ==> key@[t] == nibbles_to_bytes(nibbles@)[t],
        decreases KEY_LEN - j,
    {
        let hi = nibbles[2 * j];
        let lo = nibbles[2 * j + 1];
        key.push(hi * 16 + lo);
        j = j + 1;
    }
    proof {
        assert(key@ =~= nibbles_to_bytes(nibbles@));
    }
    Ok(key)
}

/// Generates a fresh key from the operating system's random source. A
/// failure of that source is an internal fault.
pub fn from_random() -> (r: Result<Vec<u8>, Error>)
    ensures
        r matches Ok(k) ==> k@.len() == KEY_LEN,
        r matches Err(e) ==> e == Error::InternalFailure,
{
    match random_bytes(KEY_LEN) {
        Some(k) => Ok(k),
        None => Err(Error::InternalFailure),
    }
}

/// The ASCII code of the lowercase hexadecimal digit for the nibble `n`.
pub open spec fn hex_digit_ascii(n: u8) -> u8 {
    if n < 10 {
        (48 + n) as u8
    } else {
        (97 + n - 10) as u8
    }
}

/// What the key-disclosure line shows for a byte sequence: lowercase
/// hexadecimal, two digits per byte, with a dash between every four bytes.
pub open spec fn key_display(s: Seq<u8>) -> Seq<u8>
    decreases s.len(),
{
    if s.len() == 0 {
        Seq::empty()
    } else {
        let sep: Seq<u8> = if s.len() > 1 && (s.len() - 1) % 4 == 0 {
            seq![45u8]
        } else {
            Seq::<u8>::empty()
        };
        key_display(s.drop_last()) + sep + seq![
            hex_digit_ascii(s.last() / 16),
            hex_digit_ascii(s.last() % 16),
        ]
    }
}

proof fn lemma_key_display_extend(s: Seq<u8>, b: u8)
    ensures
        key_display(s.push(b)) == key_display(s) + (if s.len() > 0 && s.len() % 4 == 0 {
            seq![45u8]
        } else {
            Seq::<u8>::empty()
        }) + seq![hex_digit_ascii(b / 16), hex_digit_ascii(b % 16)],
{
    assert(s.push(b).drop_last() =~= s);
}

/// The ASCII code of the lowercase hexadecimal digit for the nibble `n`.
fn hex_digit_char(n: u8) -> (r: u8)
    requires
        n < 16,
    ensures
        r == hex_digit_ascii(n),
{
    if n < 10 {
        48 + n
    } else {
        97 + n - 10
    }
}

/// Formats a key for the disclosure line: lowercase hexadecimal with a dash
/// between every four bytes, for human transcription.
pub fn format_key(key: &Vec<u8>) -> (r: Vec<u8>)
    ensures
        r@ == key_display(key@),
{
    let mut out: Vec<u8> = Vec::new();
    let mut i: usize = 0;
    while i < key.len()
        invariant
            i <= key@.len(),
            out@ == key_display(key@.subrange(0, i as int)),
        decreases key@.len() - i,
    {
        if i != 0 && i % 4 == 0 {
            out.push(45);
        }
        let b = key[i];
        out.push(hex_digit_char(b / 16));
        out.push(hex_digit_char(b % 16));
        i = i + 1;
        proof {
            assert(key@.subrange(0, i as int) =~= key@.subrange(0, i - 1).push(key@[i - 1]));
            lemma_key_display_extend(key@.subrange(0, i - 1), key@[i - 1]);
            assert(out@ =~= key_display(key@.subrange(0, i as int)));
        }
    }
    proof {
        assert(key@.subrange(0, key@.len() as int) =~= key@);
    }
    out
}

/// A key together with its provenance. The provenance determines the
/// operating mode: a supplied key opens envelopes, a generated key seals.
#[derive(Debug)]
pub enum Key {
    /// A key decoded from an externally supplied hexadecimal value.
    Env(Vec<u8>),
    /// A freshly generated random key.
    Random(Vec<u8>),
}

impl Key {
    /// The raw key bytes.
    pub open spec fn spec_bytes(&self) -> Seq<u8> {
        match self {
            Key::Env(k) => k@,
            Key::Random(k) => k@,
        }
    }

    /// Whether the key was supplied from outside rather than generated.
    pub open spec fn is_supplied(&self) -> bool {
        self matches Key::Env(_)
    }

    /// A key is well formed when it has exactly the fixed key length.
    pub open spec fn wf(&self) -> bool {
        self.spec_bytes().len() == KEY_LEN
    }

    /// Borrows the raw key bytes.
    pub fn bytes(&self) -> (r: &Vec<u8>)
        ensures
            r@ == self.spec_bytes(),
    {
        match self {
            Key::Env(k) => k,
            Key::Random(k) => k,
        }
    }

    /// Resolves the key and the mode for one invocation: a supplied non-empty
    /// hexadecimal value is decoded, validated and marks opening mode; an
    /// absent or empty value counts as no key and selects sealing with a
    /// freshly generated key.
    pub fn resolve(supplied: Option<String>) -> (r: Result<Key, Error>)
        ensures
            r matches Ok(k) ==> k.wf(),
            match supplied {
                Some(hex) => {
                    if hex@.len() == 0 {
                        match r {
                            Ok(k) => !k.is_supplied(),
                            Err(e) => e == Error::InternalFailure,
                        }
                    } else {
                        match r {
                            Ok(k) => k.is_supplied() && key_decode(encode_utf8(hex@)) == Ok::<
                                Seq<u8>,
                                Error,
                            >(k.spec_bytes()),
                            Err(e) => key_decode(encode_utf8(hex@)) == Err::<Seq<u8>, Error>(e),
                        }
                    }
                },
                None => match r {
                    Ok(k) => !k.is_supplied(),
                    Err(e) => e == Error::InternalFailure,
                },
            },
    {
        match supplied {
            Some(hex) => {
                if hex.as_str().is_empty() {
                    match from_random() {
                        Ok(k) => Ok(Key::Random(k)),
                        Err(e) => Err(e),
                    }
                } else {
                    match from_env(hex) {
                        Ok(k) => Ok(Key::Env(k)),
                        Err(e) => Err(e),
                    }
                }
            },
            None => match from_random() {
                Ok(k) => Ok(Key::Random(k)),
                Err(e) => Err(e),
            },
        }
    }
}

} // verus!
