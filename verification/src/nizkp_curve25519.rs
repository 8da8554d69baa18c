//! Tokens over Ristretto255.
//!
//! There is no pairing: the signer proves with a proof of equal discrete logarithms that it
//! signed with its key, and a token is verified with the private key.

pub mod backend;
pub mod scalar;
pub mod util;
pub mod keys;
pub mod tokens;
pub mod tokens_batched;
pub mod laws;
