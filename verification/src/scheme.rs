use vstd::prelude::*;

use crate::errors::FheError;
use crate::params::{standard_parameters, FheParameters};
use crate::rng::random_below;

verus! {

/// A plaintext value: a signed machine integer. The scheme accepts only
/// values in `[0, P)` for the plaintext modulus `P`.
#[derive(Debug, Clone, Copy, PartialEq, Eq, Structural)]
pub struct Signed {
    pub val: i64,
}

impl Signed {
    /// Wraps a raw machine integer as a plaintext value.
    pub fn from(val: i64) -> (s: Self)
        ensures
            s.val == val,
    {
        Signed { val }
    }

    /// The decimal rendering of the value.
    pub fn to_string(&self) -> (s: String)
        ensures
            s@ == crate::text::dec_str(self.val as int),
    {
        crate::text::i64_to_decimal(self.val)
    }
}

/// The public key: `n` coefficients below the ciphertext modulus. Handed to
/// the untrusted executor together with the challenge ciphertexts.
#[derive(Debug, Clone)]
pub struct PublicKey {
    pub key_data: Vec<u64>,
}

impl PublicKey {
    /// Well-formedness under a parameter set: `n` coefficients, each below
    /// the ciphertext modulus.
    pub open spec fn wf(self, params: FheParameters) -> bool {
        &&& self.key_data@.len() == params.polynomial_degree
        &&& forall|i: int|
            0 <= i < self.key_data@.len() ==> self.key_data@[i] < params.ciphertext_modulus
    }
}

/// The private key: `n` coefficients below the plaintext modulus. It lives
/// for one challenger session and must never cross the trust boundary to the
/// executor.
#[derive(Debug, Clone)]
pub struct PrivateKey {
    pub secret_data: Vec<u64>,
}

impl PrivateKey {
    /// Well-formedness under a parameter set: `n` coefficients, each below
    /// the plaintext modulus.
    pub open spec fn wf(self, params: FheParameters) -> bool {
        &&& self.secret_data@.len() == params.polynomial_degree
        &&& forall|i: int|
            0 <= i < self.secret_data@.len() ==> self.secret_data@[i] < params.plaintext_modulus
    }
}

/// A ciphertext: a vector of `2n` coefficients. Coefficient 0 carries the
/// scaled signal plus noise; the rest carry independent randomness standing
/// in for polynomial structure.
#[derive(Debug, Clone)]
pub struct Cipher {
    pub ciphertext_data: Vec<u64>,
}

/// The signal coefficient that encrypting `m` with noise `e` produces:
/// `m * S + e` for the scaling factor `S`.
pub open spec fn enc0(params: FheParameters, m: int, e: int) -> int {
    m * params.scaling() + e
}

/// What decryption reads out of a signal coefficient: descale by `S` with
/// integer division, then reduce modulo the plaintext modulus.
pub open spec fn dec0(params: FheParameters, c0: int) -> int {
    (c0 / params.scaling()) % (params.plaintext_modulus as int)
}

/// Overflow-safe addition of two coefficients: both operands are reduced
/// modulo the ciphertext modulus before their sum is.
pub open spec fn add_coeff(params: FheParameters, x: int, y: int) -> int {
    let q = params.ciphertext_modulus as int;
    (x % q + y % q) % q
}

impl Cipher {
    /// Shape: exactly `2n` coefficients.
    pub open spec fn valid_shape(self, params: FheParameters) -> bool {
        self.ciphertext_data@.len() == 2 * params.polynomial_degree
    }

    /// Every coefficient already reduced modulo the ciphertext modulus.
    /// Encryption and homomorphic addition both produce reduced ciphertexts;
    /// deserialized ones may not be reduced.
    pub open spec fn reduced(self, params: FheParameters) -> bool {
        forall|i: int|
            0 <= i < self.ciphertext_data@.len() ==> self.ciphertext_data@[i]
                < params.ciphertext_modulus
    }

    /// The ciphertext encrypts `m`: well shaped, and its signal coefficient
    /// is `m * S + e` for some noise `e` below the parameter set's noise
    /// bound.
    pub open spec fn encrypts(self, params: FheParameters, m: int) -> bool {
        &&& self.valid_shape(params)
        &&& exists|e: int|
            0 <= e < params.noise_bound && self.ciphertext_data@[0] as int == enc0(params, m, e)
    }
}

/// The runtime of the scheme: the parameter set under which keys are drawn
/// and ciphertexts are formed.
pub struct PureRustFheRuntime {
    /// The parameter set under which this runtime operates.
    pub params: FheParameters,
}

impl PureRustFheRuntime {
    /// The runtime's parameter set, for specifications.
    pub open spec fn spec_params(self) -> FheParameters {
        self.params
    }

    /// Well-formedness: the parameter set is.
    pub open spec fn wf(self) -> bool {
        self.params.wf()
    }

    /// A runtime over the canonical parameter set.
    pub fn new() -> (r: Self)
        ensures
            r.spec_params() == standard_parameters(),
            r.wf(),
    {
        PureRustFheRuntime { params: FheParameters::standard() }
    }

    /// A runtime over a caller-chosen parameter set.
    pub fn with_parameters(params: FheParameters) -> (r: Self)
        requires
            params.wf(),
        ensures
            r.spec_params() == params,
            r.wf(),
    {
        PureRustFheRuntime { params }
    }

    /// The runtime's parameter set.
    pub fn params(&self) -> (p: &FheParameters)
        ensures
            *p == self.spec_params(),
    {
        &self.params
    }

    /// Samples a fresh keypair: each private coefficient uniform in `[0, P)`
    /// and each public coefficient uniform in `[0, Q)`, all drawn
    /// independently from the process-wide cryptographically secure source.
    /// Beyond the bounds, nothing can be promised of random material.
    pub fn generate_keys(&mut self) -> (keys: (PublicKey, PrivateKey))
        requires
            old(self).wf(),
        ensures
            *final(self) == *old(self),
            keys.0.wf(old(self).spec_params()),
            keys.1.wf(old(self).spec_params()),
    {
        let n = self.params.polynomial_degree;
        let mut key_data: Vec<u64> = Vec::new();
        let mut secret_data: Vec<u64> = Vec::new();
        let mut i: usize = 0;
        while i < n
            invariant
                *self == *old(self),
                old(self).wf(),
                i <= n,
                n == self.params.polynomial_degree,
                key_data@.len() == i,
                secret_data@.len() == i,
                forall|j: int| 0 <= j < i ==> key_data@[j] < self.params.ciphertext_modulus,
                forall|j: int| 0 <= j < i ==> secret_data@[j] < self.params.plaintext_modulus,
            decreases n - i,
        {
            secret_data.push(random_below(self.params.plaintext_modulus));
            key_data.push(random_below(self.params.ciphertext_modulus));
            i = i + 1;
        }
        (PublicKey { key_data }, PrivateKey { secret_data })
    }

    /// Encrypts a plaintext under the given public key: rejects values
    /// outside `[0, P)`, embeds the rest as `m * S + noise` in coefficient 0,
    /// and fills the remaining `2n - 1` coefficients with independent uniform
    /// randomness. The key argument is accepted for interface symmetry; the
    /// observed scheme masks with fresh randomness alone and does not mix key
    /// material into the ciphertext (a documented design choice).
    pub fn encrypt(&self, plaintext: Signed, _public_key: &PublicKey) -> (r: Result<
        Cipher,
        FheError,
    >)
        requires
            self.wf(),
        ensures
            r is Ok <==> 0 <= plaintext.val < self.spec_params().plaintext_modulus,
            r matches Ok(c) ==> c.encrypts(self.spec_params(), plaintext.val as int)
                && c.reduced(self.spec_params()),
            r matches Err(e) ==> e == (FheError::InvalidPlaintext {
                value: plaintext.val,
                modulus: self.spec_params().plaintext_modulus,
            }),
    {
        if plaintext.val < 0 {
            return Err(
                FheError::InvalidPlaintext {
                    value: plaintext.val,
                    modulus: self.params.plaintext_modulus,
                },
            );
        }
        let m = plaintext.val as u64;
        if m >= self.params.plaintext_modulus {
            return Err(
                FheError::InvalidPlaintext {
                    value: plaintext.val,
                    modulus: self.params.plaintext_modulus,
                },
            );
        }
        let s = self.params.scaling_factor();
        let noise = random_below(self.params.noise_bound);
        proof {
            lemma_signal_in_range(self.params, m as int, noise as int);
        }
        let c0 = m * s + noise;
        let two_n = 2 * self.params.polynomial_degree;
        let mut data: Vec<u64> = Vec::new();
        data.push(c0);
        let mut i: usize = 1;
        while i < two_n
            invariant
                self.wf(),
                1 <= i <= two_n,
                two_n == 2 * self.params.polynomial_degree,
                data@.len() == i,
                forall|j: int| 0 <= j < i ==> data@[j] < self.params.ciphertext_modulus,
                data@[0] == c0,
            decreases two_n - i,
        {
            data.push(random_below(self.params.ciphertext_modulus));
            i = i + 1;
        }
        let cipher = Cipher { ciphertext_data: data };
        proof {
            assert(cipher.encrypts(self.spec_params(), plaintext.val as int)) by {
                assert((noise as int) < self.params.noise_bound && cipher.ciphertext_data@[0]
                    as int == enc0(self.spec_params(), plaintext.val as int, noise as int));
            }
        }
        Ok(cipher)
    }

    /// Decrypts via the signal coefficient alone: descale by `S` with integer
    /// division, then reduce modulo `P`. Correct only while accumulated noise
    /// stays below `S`; beyond that the result silently wraps (see
    /// [`Self::decrypt_checked`] for the plausibility-checked variant). The
    /// private key argument is accepted for interface symmetry; the observed
    /// scheme does not mix key material into ciphertexts, so none is needed
    /// to invert them (a documented limitation of the scheme).
    pub fn decrypt(&self, ciphertext: &Cipher, _private_key: &PrivateKey) -> (r: Result<
        Signed,
        FheError,
    >)
        requires
            self.wf(),
            ciphertext.valid_shape(self.spec_params()),
        ensures
            r matches Ok(p) && p.val as int == dec0(
                self.spec_params(),
                ciphertext.ciphertext_data@[0] as int,
            ),
    {
        let c0 = ciphertext.ciphertext_data[0];
        let s = self.params.scaling_factor();
        let descaled = c0 / s;
        let v = descaled % self.params.plaintext_modulus;
        Ok(Signed::from(v as i64))
    }

    /// [`Self::decrypt`] with the plausibility check of the error taxonomy: a
    /// decrypted value at or above `limit`, the exclusive bound of the
    /// declared value domain, is surfaced as `NoiseOverflowSuspected` instead
    /// of being returned unflagged.
    pub fn decrypt_checked(
        &self,
        ciphertext: &Cipher,
        private_key: &PrivateKey,
        limit: u64,
    ) -> (r: Result<Signed, FheError>)
        requires
            self.wf(),
            ciphertext.valid_shape(self.spec_params()),
        ensures
            ({
                let v = dec0(self.spec_params(), ciphertext.ciphertext_data@[0] as int);
                &&& (r is Ok <==> v < limit)
                &&& (r matches Ok(p) ==> p.val as int == v)
                &&& (r matches Err(e) ==> e == (FheError::NoiseOverflowSuspected {
                    observed: v as u64,
                    limit,
                }))
            }),
    {
        let plain = match self.decrypt(ciphertext, private_key) {
            Ok(p) => p,
            Err(e) => { return Err(e); },
        };
        let v = plain.val as u64;
        if v < limit {
            Ok(plain)
        } else {
            Err(FheError::NoiseOverflowSuspected { observed: v, limit })
        }
    }
}

/// The signal coefficient `m * S + e` stays below the ciphertext modulus
/// whenever `m < P` and `e < S`.
proof fn lemma_signal_in_range(params: FheParameters, m: int, e: int)
    requires
        params.wf(),
        0 <= m < params.plaintext_modulus,
        0 <= e < params.scaling(),
    ensures
        0 <= m * params.scaling() + e < params.ciphertext_modulus,
        m * params.scaling() + e == enc0(params, m, e),
{
    let s = params.scaling();
    let p = params.plaintext_modulus as int;
    let q = params.ciphertext_modulus as int;
    vstd::arithmetic::mul::lemma_mul_inequality(m, p - 1, s);
    assert((p - 1) * s + s == p * s) by {
        vstd::arithmetic::mul::lemma_mul_is_distributive_sub_other_way(s, p, 1);
    }
    assert(p * s <= q) by {
        vstd::arithmetic::div_mod::lemma_fundamental_div_mod(q, p);
        vstd::arithmetic::div_mod::lemma_mod_division_less_than_divisor(q, p);
    }
    vstd::arithmetic::mul::lemma_mul_nonnegative(m, s);
}

/// Homomorphic addition, component by component modulo the ciphertext
/// modulus. Operands are reduced before summing, so no native-width overflow
/// is possible even on unreduced (freshly deserialized) ciphertexts.
pub fn homomorphic_add(
    runtime: &PureRustFheRuntime,
    current_tally: Cipher,
    vote: Cipher,
    _public_key: &PublicKey,
) -> (r: Result<Vec<Cipher>, FheError>)
    requires
        runtime.wf(),
        current_tally.valid_shape(runtime.spec_params()),
        vote.valid_shape(runtime.spec_params()),
    ensures
        r matches Ok(cs) && cs@.len() == 1 && cs@[0].valid_shape(runtime.spec_params())
            && cs@[0].reduced(runtime.spec_params()) && (forall|i: int|
            0 <= i < cs@[0].ciphertext_data@.len() ==> cs@[0].ciphertext_data@[i] as int
                == add_coeff(
                runtime.spec_params(),
                current_tally.ciphertext_data@[i] as int,
                vote.ciphertext_data@[i] as int,
            )),
{
    let q = runtime.params().ciphertext_modulus;
    let len = current_tally.ciphertext_data.len();
    let mut result_data: Vec<u64> = Vec::new();
    let mut i: usize = 0;
    while i < len
        invariant
            runtime.wf(),
            q == runtime.spec_params().ciphertext_modulus,
            i <= len,
            len == current_tally.ciphertext_data@.len(),
            len == vote.ciphertext_data@.len(),
            result_data@.len() == i,
            forall|j: int|
                0 <= j < i ==> result_data@[j] as int == add_coeff(
                    runtime.spec_params(),
                    current_tally.ciphertext_data@[j] as int,
                    vote.ciphertext_data@[j] as int,
                ) && result_data@[j] < q,
        decreases len - i,
    {
        let a = current_tally.ciphertext_data[i] % q;
        let b = vote.ciphertext_data[i] % q;
        result_data.push((a + b) % q);
        i = i + 1;
    }
    let sum = Cipher { ciphertext_data: result_data };
    let mut out: Vec<Cipher> = Vec::new();
    out.push(sum);
    Ok(out)
}

} // verus!
