//! Tokens over secp256k1.
//!
//! The construction is that over Ristretto255 with another group under it: the signer proves
//! with a proof of equal discrete logarithms that it signed with its key, and a token is
//! verified with the private key. Scalars are drawn and hashed by rejection, and a token is
//! hashed to its point by the simplified SWU map of the curve.

pub mod backend;
pub mod scalar;
pub mod util;
pub mod keys;
pub mod tokens;
pub mod tokens_batched;
pub mod laws;
