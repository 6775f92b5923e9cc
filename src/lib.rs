//! Client-side logic of a Passbolt session: the GPGAuth challenge-response
//! handshake, the transport codec and framing of the challenge, what the
//! outcome of decrypting it means, and the secret payload parser.

pub mod codec;
pub mod error;
pub mod fingerprint;
pub mod gpg;
pub mod handshake;
pub mod json;
pub mod secret;
pub mod session;
pub mod text;
pub mod urls;
pub mod util;
