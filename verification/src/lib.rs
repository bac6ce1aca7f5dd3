//! Authenticated-encryption envelopes under a symmetric key.
//!
//! The crate seals arbitrary byte sequences into self-describing envelopes
//! (header, fresh random nonce, AEAD ciphertext with tag) and opens such
//! envelopes back into the original bytes. A key is either decoded from a
//! hexadecimal representation supplied from outside, or generated freshly
//! from the operating system's random source; the provenance of the key
//! selects between sealing and opening.

pub mod aead;
pub mod cryptobox;
pub mod error;
pub mod key;
