//! Anonymous tokens with public metadata.
//!
//! A client obtains a signature over a token identifier that the signer never sees, bound to
//! public metadata that the signer does see. Two constructions share one protocol: one over the
//! pairing groups of BLS12-381, verified with the public key, and one with a proof of equal
//! discrete logarithms, verified with the private key, over Ristretto255 and over secp256k1.
//! Each signs one token at a time or `N` at once.
//!
//! Group elements and scalars are held in their canonical byte encodings. Contracts speak of
//! those encodings, of the numbers that scalars stand for, and of named group operations whose
//! results the arithmetic crates compute. Each construction has a module of laws: what follows
//! from the contracts alone, and what follows from them under the algebra of its group.

pub mod bytes;
pub mod hashing;
pub mod modular;
pub mod stream;
pub mod common;
pub mod atpm_nizkp;
pub mod atpm_pairing;
pub mod nizkp_curve25519;

pub use common::{RandomizedUnsignedToken, SignedToken, TokenEngine, UnsignedToken};
