//! The envelope codec: binary framing, nonce handling, and the seal/open
//! protocol around the AEAD primitive.
//!
//! An envelope is `header ++ nonce ++ ciphertext-and-tag`, contiguous and
//! without padding. The header is a format and version discriminator, not a
//! secret; `open` checks it before any cryptographic work.

use crate::aead::{
    aead_open, aead_seal, random_bytes, within_message_limit, xchacha_seal, KEY_LEN,
    MAX_MESSAGE_LEN, NONCE_LEN, TAG_LEN,
};
use crate::error::Error;
use vstd::prelude::*;

verus! {

/// The length of the envelope header, in bytes.
pub const HEADER_LEN: usize = 48;

/// The header constant: the ASCII bytes of
/// `de.KizzyCode.Cryptobox.v1.XChaCha20Poly1305Ietf_`.
pub open spec fn header_seq() -> Seq<u8> {
    seq![
        100u8, 101, 46, 75, 105, 122, 122, 121, 67, 111, 100, 101, 46, 67, 114, 121, 112, 116,
        111, 98, 111, 120, 46, 118, 49, 46, 88, 67, 104, 97, 67, 104, 97, 50, 48, 80, 111, 108,
        121, 49, 51, 48, 53, 73, 101, 116, 102, 95,
    ]
}

/// Returns the header constant as a buffer.
pub fn header_vec() -> (r: Vec<u8>)
    ensures
        r@ == header_seq(),
        r@.len() == HEADER_LEN,
{
    let mut v: Vec<u8> = Vec::new();
    v.push(100);
    v.push(101);
    v.push(46);
    v.push(75);
    v.push(105);
    v.push(122);
    v.push(122);
    v.push(121);
    v.push(67);
    v.push(111);
    v.push(100);
    v.push(101);
    v.push(46);
    v.push(67);
    v.push(114);
    v.push(121);
    v.push(112);
    v.push(116);
    v.push(111);
    v.push(98);
    v.push(111);
    v.push(120);
    v.push(46);
    v.push(118);
    v.push(49);
    v.push(46);
    v.push(88);
    v.push(67);
    v.push(104);
    v.push(97);
    v.push(67);
    v.push(104);
    v.push(97);
    v.push(50);
    v.push(48);
    v.push(80);
    v.push(111);
    v.push(108);
    v.push(121);
    v.push(49);
    v.push(51);
    v.push(48);
    v.push(53);
    v.push(73);
    v.push(101);
    v.push(116);
    v.push(102);
    v.push(95);
    proof {
        assert(v@ =~= header_seq());
    }
    v
}

/// The nonce field of an envelope.
pub open spec fn envelope_nonce(env: Seq<u8>) -> Seq<u8> {
    env.subrange(HEADER_LEN as int, (HEADER_LEN + NONCE_LEN) as int)
}

/// The AEAD payload (ciphertext and tag) of an envelope.
pub open spec fn envelope_payload(env: Seq<u8>) -> Seq<u8> {
    env.skip((HEADER_LEN + NONCE_LEN) as int)
}

/// Whether `env` begins with the expected header and is long enough to hold
/// the nonce and the authentication tag.
pub open spec fn framed(env: Seq<u8>) -> bool {
    &&& env.len() >= HEADER_LEN + NONCE_LEN + TAG_LEN
    &&& env.subrange(0, HEADER_LEN as int) == header_seq()
}

/// Whether `env` is a well-framed envelope whose payload is the seal of
/// plaintext `p` under `key` and the envelope's own nonce. `open` succeeds on
/// exactly these envelopes, and returns exactly `p`.
pub open spec fn open_accepts(env: Seq<u8>, key: Seq<u8>, p: Seq<u8>) -> bool {
    &&& framed(env)
    &&& within_message_limit(p.len())
    &&& p.len() + TAG_LEN == envelope_payload(env).len()
    &&& envelope_payload(env) == xchacha_seal(key, envelope_nonce(env), p)
}

/// Copies the bytes of `v` from `start` (inclusive) to `end` (exclusive)
/// into a fresh buffer.
fn copy_range(v: &Vec<u8>, start: usize, end: usize) -> (r: Vec<u8>)
    requires
        start <= end <= v@.len(),
    ensures
        r@ == v@.subrange(start as int, end as int),
{
    let mut r: Vec<u8> = Vec::new();
    let mut i: usize = start;
    while i < end
        invariant
            start <= i <= end <= v@.len(),
            r@ == v@.subrange(start as int, i as int),
        decreases end - i,
    {
        r.push(v[i]);
        i = i + 1;
        proof {
            assert(r@ =~= v@.subrange(start as int, i as int));
        }
    }
    r
}

/// Seals `data` using `key`: the header constant, then a fresh random nonce,
/// then the AEAD ciphertext with its tag.
///
/// On success the envelope is exactly `header_len + nonce_len + data_len +
/// tag_len` bytes long and is accepted by `open` under the same key, for
/// exactly the plaintext `data`. A failure of the random source or of the
/// primitive is an internal fault, not a data error; so is a plaintext past
/// the primitive's block counter.
pub fn seal(data: Vec<u8>, key: Vec<u8>) -> (r: Result<Vec<u8>, Error>)
    requires
        key@.len() == KEY_LEN,
    ensures
        r matches Ok(env) ==> {
            &&& env@.len() == HEADER_LEN + NONCE_LEN + data@.len() + TAG_LEN
            &&& open_accepts(env@, key@, data@)
        },
        r matches Err(e) ==> e == Error::InternalFailure,
        !within_message_limit(data@.len()) ==> r is Err,
{
    if data.len() as u64 > MAX_MESSAGE_LEN {
        return Err(Error::InternalFailure);
    }
    let mut buf = header_vec();
    let mut nonce = match random_bytes(NONCE_LEN) {
        Some(n) => n,
        None => {
            return Err(Error::InternalFailure);
        },
    };
    let mut sealed = match aead_seal(&key, &nonce, &data) {
        Some(s) => s,
        None => {
            return Err(Error::InternalFailure);
        },
    };
    let ghost nonce_snap = nonce@;
    let ghost sealed_snap = sealed@;
    buf.append(&mut nonce);
    buf.append(&mut sealed);
    proof {
        assert(buf@.subrange(0, HEADER_LEN as int) =~= header_seq());
        assert(envelope_nonce(buf@) =~= nonce_snap);
        assert(envelope_payload(buf@) =~= sealed_snap);
    }
    Ok(buf)
}

/// Opens the envelope `data` using `key`, recovering the sealed plaintext.
///
/// Validation order, cheapest first: overall length, header constant, room
/// for the tag, the primitive's message limit, and only then the
/// authenticated decryption. Success returns
/// the plaintext of every envelope that `open_accepts` relates to the key,
/// and nothing else; authentication failure deliberately does not say whether
/// the key was wrong or the data tampered with.
pub fn open(data: Vec<u8>, key: Vec<u8>) -> (r: Result<Vec<u8>, Error>)
    requires
        key@.len() == KEY_LEN,
    ensures
        r matches Ok(p) ==> open_accepts(data@, key@, p@) && p@.len() + HEADER_LEN + NONCE_LEN
            + TAG_LEN == data@.len(),
        forall|p: Seq<u8>| open_accepts(data@, key@, p) ==> r is Ok && (r->Ok_0)@ == p,
        data@.len() < HEADER_LEN + NONCE_LEN ==> r == Err::<Vec<u8>, Error>(
            Error::TruncatedHeader,
        ),
        data@.len() >= HEADER_LEN + NONCE_LEN && data@.subrange(0, HEADER_LEN as int)
            != header_seq() ==> r == Err::<Vec<u8>, Error>(Error::UnsupportedHeader),
        data@.len() >= HEADER_LEN + NONCE_LEN && data@.subrange(0, HEADER_LEN as int)
            == header_seq() && data@.len() < HEADER_LEN + NONCE_LEN + TAG_LEN ==> r == Err::<
            Vec<u8>,
            Error,
        >(Error::TruncatedCiphertext),
        framed(data@) && r is Err ==> r->Err_0 == Error::AuthenticationFailed,
{
    if data.len() < HEADER_LEN + NONCE_LEN {
        return Err(Error::TruncatedHeader);
    }
    let header = header_vec();
    let mut i: usize = 0;
    while i < HEADER_LEN
        invariant
            i <= HEADER_LEN,
            data@.len() >= HEADER_LEN + NONCE_LEN,
            header@ == header_seq(),
            data@.subrange(0, i as int) == header_seq().subrange(0, i as int),
        decreases HEADER_LEN - i,
    {
        if data[i] != header[i] {
            proof {
                assert(data@.subrange(0, HEADER_LEN as int)[i as int] != header_seq()[i as int]);
            }
            return Err(Error::UnsupportedHeader);
        }
        i = i + 1;
        proof {
            assert(data@.subrange(0, i as int) =~= header_seq().subrange(0, i as int));
        }
    }
    proof {
        assert(data@.subrange(0, HEADER_LEN as int) =~= header_seq());
    }
    if data.len() - (HEADER_LEN + NONCE_LEN) < TAG_LEN {
        return Err(Error::TruncatedCiphertext);
    }
    let nonce = copy_range(&data, HEADER_LEN, HEADER_LEN + NONCE_LEN);
    let payload = copy_range(&data, HEADER_LEN + NONCE_LEN, data.len());
    proof {
        assert(nonce@ =~= envelope_nonce(data@));
        assert(payload@ =~= envelope_payload(data@));
    }
    if payload.len() as u64 > MAX_MESSAGE_LEN + TAG_LEN as u64 {
        return Err(Error::AuthenticationFailed);
    }
    match aead_open(&key, &nonce, &payload) {
        Some(p) => Ok(p),
        None => Err(Error::AuthenticationFailed),
    }
}

/// Round trip: an envelope sealed from `data` is opened back to exactly
/// `data` by the key that sealed it — every success returns the original
/// bytes, and opening contributes no failure of its own. The composition
/// fails only as `seal` does: always on a plaintext past the primitive's
/// message limit, otherwise only when the random source or the primitive
/// fails, and then as an internal fault.
pub fn seal_open_round_trip(data: Vec<u8>, key: Vec<u8>) -> (r: Result<Vec<u8>, Error>)
    requires
        key@.len() == KEY_LEN,
    ensures
        r matches Ok(p) ==> p@ == data@,
        r matches Err(e) ==> e == Error::InternalFailure,
        !within_message_limit(data@.len()) ==> r is Err,
{
    let key_copy = copy_range(&key, 0, key.len());
    proof {
        assert(key_copy@ =~= key@);
    }
    let env = match seal(data, key) {
        Ok(env) => env,
        Err(e) => {
            return Err(e);
        },
    };
    proof {
        assert(open_accepts(env@, key_copy@, data@));
    }
    match open(env, key_copy) {
        Ok(p) => Ok(p),
        Err(_) => Err(Error::InternalFailure),
    }
}

/// Tampering changes the outcome: under one key, two envelopes that carry
/// the same nonce but different payloads are never opened to the same
/// plaintext, so altering the payload of an envelope can never yield the
/// plaintext that was sealed into it.
pub proof fn lemma_distinct_payloads_open_differently(
    env1: Seq<u8>,
    env2: Seq<u8>,
    key: Seq<u8>,
    p1: Seq<u8>,
    p2: Seq<u8>,
)
    requires
        open_accepts(env1, key, p1),
        open_accepts(env2, key, p2),
        envelope_nonce(env1) == envelope_nonce(env2),
        envelope_payload(env1) != envelope_payload(env2),
    ensures
        p1 != p2,
{
}

} // verus!
