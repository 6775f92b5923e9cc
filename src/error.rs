//! The library's error type.

use vstd::prelude::*;

verus! {

/// Why an operation of the library failed.
#[derive(Debug, Clone, Copy, PartialEq, Eq, Structural)]
pub enum PassboltError {
    /// The stage-1 response carried no challenge header.
    MissingToken,
    /// The challenge was not a percent-encoded, escaped, single armored message.
    DecodeError,
    /// The message could not be decrypted with the session's key and passphrase,
    /// or its content could not be read as UTF-8 text.
    DecryptionError,
    /// A JSON document lacked a field of the expected type.
    SchemaError,
    /// Armored key material could not be parsed.
    KeyError,
}

} // verus!
