use vstd::prelude::*;

verus! {

/// Plaintext modulus `P` of the canonical parameter set (a prime).
pub const PLAINTEXT_MODULUS: u64 = 65537;

/// Ciphertext modulus `Q` of the canonical parameter set (2^58).
pub const CIPHERTEXT_MODULUS: u64 = 288230376151711744;

/// Polynomial degree `n` of the canonical parameter set; ciphertexts carry
/// `2n` coefficients.
pub const POLYNOMIAL_DEGREE: usize = 32;

/// Exclusive bound on the noise magnitude added to the signal coefficient by
/// encryption in the canonical parameter set (`P / 16`, far below `S / 2`).
pub const MAX_NOISE_BOUND: u64 = 4096;

/// The parameter set of the scheme. A single canonical set is exposed through
/// [`FheParameters::standard`]; every operation takes the set it works under,
/// so no second, incompatible set can creep in silently.
#[derive(Debug, Clone, Copy, PartialEq, Eq, Structural)]
pub struct FheParameters {
    /// Exclusive upper bound on representable plaintext values.
    pub plaintext_modulus: u64,
    /// Modulus for all ciphertext coefficient arithmetic; far above the
    /// plaintext modulus.
    pub ciphertext_modulus: u64,
    /// Number of key coefficients; ciphertexts have twice as many.
    pub polynomial_degree: usize,
    /// Exclusive bound on the noise magnitude added by encryption.
    pub noise_bound: u64,
}

/// The canonical parameter set.
pub open spec fn standard_parameters() -> FheParameters {
    FheParameters {
        plaintext_modulus: PLAINTEXT_MODULUS,
        ciphertext_modulus: CIPHERTEXT_MODULUS,
        polynomial_degree: POLYNOMIAL_DEGREE,
        noise_bound: MAX_NOISE_BOUND,
    }
}

impl FheParameters {
    /// The scaling factor `S = floor(Q / P)` that embeds a plaintext into the
    /// larger ciphertext ring.
    pub open spec fn scaling(self) -> int {
        self.ciphertext_modulus as int / self.plaintext_modulus as int
    }

    /// Well-formedness of a parameter set: the moduli are ordered, small
    /// enough that coefficient sums cannot overflow a `u64` and that `16 * n`
    /// fits in a `usize`, and the noise bound leaves room for one addition
    /// under the scaling factor.
    pub open spec fn wf(self) -> bool {
        &&& 2 <= self.plaintext_modulus
        &&& self.plaintext_modulus <= self.ciphertext_modulus
        &&& self.ciphertext_modulus <= 0x4000000000000000u64
        &&& 1 <= self.polynomial_degree
        &&& self.polynomial_degree <= 0x8000000usize
        &&& 1 <= self.noise_bound
        &&& 2 * self.noise_bound <= self.scaling()
    }

    /// The canonical parameter set.
    pub fn standard() -> (p: FheParameters)
        ensures
            p == standard_parameters(),
            p.wf(),
    {
        let p = FheParameters {
            plaintext_modulus: PLAINTEXT_MODULUS,
            ciphertext_modulus: CIPHERTEXT_MODULUS,
            polynomial_degree: POLYNOMIAL_DEGREE,
            noise_bound: MAX_NOISE_BOUND,
        };
        proof {
            assert((8192int * 65537) / 65537 == 8192) by {
                vstd::arithmetic::div_mod::lemma_div_by_multiple(8192, 65537);
            }
            assert((8192int * 65537) / 65537 <= p.scaling()) by {
                vstd::arithmetic::div_mod::lemma_div_is_ordered(
                    8192int * 65537,
                    p.ciphertext_modulus as int,
                    65537,
                );
            }
        }
        p
    }

    /// The scaling factor as a machine integer.
    pub fn scaling_factor(&self) -> (s: u64)
        requires
            self.wf(),
        ensures
            s as int == self.scaling(),
            2 <= s,
    {
        self.ciphertext_modulus / self.plaintext_modulus
    }
}

} // verus!
