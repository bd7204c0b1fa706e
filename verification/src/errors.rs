use vstd::prelude::*;

verus! {

/// Errors of the encryption scheme. Every failure is a returned value; no
/// operation of this library panics or aborts.
#[derive(Debug, Clone, Copy, PartialEq, Eq, Structural)]
pub enum FheError {
    /// The plaintext is not in `[0, P)` for the plaintext modulus `P`.
    InvalidPlaintext { value: i64, modulus: u64 },
    /// A serialized ciphertext does not hold exactly `16 n` bytes.
    LengthMismatch { expected: usize, actual: usize },
    /// A decrypted value fell outside the declared plaintext domain, which
    /// points at noise having overflowed the correctness bound.
    NoiseOverflowSuspected { observed: u64, limit: u64 },
}

} // verus!
