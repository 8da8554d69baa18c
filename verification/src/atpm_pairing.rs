//! Tokens over the pairing groups of BLS12-381.
//!
//! The signer holds a scalar, everyone else its multiple of the generator of G2. A signature is
//! a point of G1, and a pairing equation checks it against the public key alone.

pub mod backend;
pub mod scalar;
pub mod util;
pub mod keys;
pub mod tokens;
pub mod tokens_batched;
pub mod laws;
