//! The failure taxonomy: what can go wrong, and which process outcome
//! each failure maps to.

use vstd::prelude::*;

verus! {

/// Why an operation failed: key validation, envelope validation, or a fault
/// of an underlying primitive.
#[derive(Clone, Copy, Debug, PartialEq, Eq, Structural)]
pub enum Error {
    /// The supplied key held an odd number of hexadecimal digits.
    InvalidKeyEncoding,
    /// The supplied key decoded to the wrong number of bytes.
    InvalidKeyLength,
    /// The envelope is too short to hold the header and the nonce.
    TruncatedHeader,
    /// The envelope does not begin with the expected header constant.
    UnsupportedHeader,
    /// The envelope is too short to hold the authentication tag.
    TruncatedCiphertext,
    /// The payload was not sealed under the given key and nonce: the key is
    /// wrong or the envelope was tampered with. The two causes are deliberately
    /// not distinguished.
    AuthenticationFailed,
    /// The random source or the AEAD primitive failed.
    InternalFailure,
}

/// The three classes of failure. Each class is surfaced to callers as a
/// distinct process outcome.
#[derive(Clone, Copy, Debug, PartialEq, Eq, Structural)]
pub enum ErrorClass {
    /// The caller supplied a malformed key.
    Api,
    /// The input data is malformed or tampered.
    Data,
    /// The environment or an underlying primitive failed.
    Internal,
}

impl Error {
    /// The class an error belongs to.
    pub open spec fn spec_class(self) -> ErrorClass {
        match self {
            Error::InvalidKeyEncoding => ErrorClass::Api,
            Error::InvalidKeyLength => ErrorClass::Api,
            Error::TruncatedHeader => ErrorClass::Data,
            Error::UnsupportedHeader => ErrorClass::Data,
            Error::TruncatedCiphertext => ErrorClass::Data,
            Error::AuthenticationFailed => ErrorClass::Data,
            Error::InternalFailure => ErrorClass::Internal,
        }
    }

    /// Returns the class of this error.
    pub fn class(&self) -> (c: ErrorClass)
        ensures
            c == self.spec_class(),
    {
        match self {
            Error::InvalidKeyEncoding => ErrorClass::Api,
            Error::InvalidKeyLength => ErrorClass::Api,
            Error::TruncatedHeader => ErrorClass::Data,
            Error::UnsupportedHeader => ErrorClass::Data,
            Error::TruncatedCiphertext => ErrorClass::Data,
            Error::AuthenticationFailed => ErrorClass::Data,
            Error::InternalFailure => ErrorClass::Internal,
        }
    }

    /// The process exit code for this error. The mapping preserves the
    /// three-way classification: caller errors, data errors and internal
    /// faults each get their own code.
    pub fn exit_code(&self) -> (c: u8)
        ensures
            self.spec_class() == ErrorClass::Api ==> c == 0x01,
            self.spec_class() == ErrorClass::Data ==> c == 0x02,
            self.spec_class() == ErrorClass::Internal ==> c == 0x10,
    {
        match self.class() {
            ErrorClass::Api => 0x01,
            ErrorClass::Data => 0x02,
            ErrorClass::Internal => 0x10,
        }
    }

    /// A short human-readable description of the error.
    pub fn message(&self) -> (s: &'static str)
        ensures
            s@ == self.spec_message(),
    {
        match self {
            Error::InvalidKeyEncoding => "Invalid key (invalid hex length)",
            Error::InvalidKeyLength => "Invalid key (invalid key length)",
            Error::TruncatedHeader => "Truncated header",
            Error::UnsupportedHeader => "Unsupported header",
            Error::TruncatedCiphertext => "Truncated stream",
            Error::AuthenticationFailed => "Failed to open data",
            Error::InternalFailure => "Failed to seal data",
        }
    }

    /// What `message` returns for each error.
    pub open spec fn spec_message(self) -> Seq<char> {
        match self {
            Error::InvalidKeyEncoding => "Invalid key (invalid hex length)"@,
            Error::InvalidKeyLength => "Invalid key (invalid key length)"@,
            Error::TruncatedHeader => "Truncated header"@,
            Error::UnsupportedHeader => "Unsupported header"@,
            Error::TruncatedCiphertext => "Truncated stream"@,
            Error::AuthenticationFailed => "Failed to open data"@,
            Error::InternalFailure => "Failed to seal data"@,
        }
    }
}

} // verus!
