//! An additive homomorphic encryption scheme over fixed-degree coefficient
//! vectors, together with a challenger protocol that lets the sole holder of
//! the private key confirm that an untrusted executor really performed
//! homomorphic additions over ciphertexts it could not decrypt.
//!
//! The scheme embeds a plaintext `m` in the first coefficient of a ciphertext
//! as `m * S + noise (mod Q)`, where `S = floor(Q / P)` is the scaling factor,
//! `P` the plaintext modulus and `Q` the ciphertext modulus; the remaining
//! coefficients carry independent uniform randomness. Component-wise addition
//! modulo `Q` of two ciphertexts adds their plaintexts, as long as the
//! accumulated noise stays below `S`.

pub mod challenger;
pub mod codec;
pub mod errors;
pub mod laws;
pub mod params;
pub mod scheme;
pub mod tally;
pub mod text;
pub mod votes;

mod clock;
mod hashing;
mod rng;
