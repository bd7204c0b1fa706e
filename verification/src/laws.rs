use vstd::prelude::*;

use crate::params::FheParameters;
use crate::scheme::{add_coeff, dec0, enc0, Cipher};

verus! {

/// Additive homomorphism at the signal-coefficient level: encrypt `a` with
/// noise `ea`, encrypt `b` with noise `eb`, add the two coefficients modulo
/// `Q`, and decryption reads back exactly `a + b` — for any plaintexts with
/// `a + b < P` and any noise amounts whose sum stays below the scaling
/// factor. Beyond either bound the result wraps, which is the scheme's
/// documented correctness limit.
pub proof fn lemma_additive_homomorphism(
    params: FheParameters,
    a: int,
    b: int,
    ea: int,
    eb: int,
)
    requires
        params.wf(),
        0 <= a,
        0 <= b,
        a + b < params.plaintext_modulus,
        0 <= ea,
        0 <= eb,
        ea + eb < params.scaling(),
    ensures
        dec0(params, add_coeff(params, enc0(params, a, ea), enc0(params, b, eb))) == a + b,
{
    let s = params.scaling();
    let p = params.plaintext_modulus as int;
    let q = params.ciphertext_modulus as int;
    let x = enc0(params, a, ea);
    let y = enc0(params, b, eb);

    // The two signal coefficients and their exact sum all lie below `Q`.
    assert(p * s <= q) by {
        vstd::arithmetic::div_mod::lemma_fundamental_div_mod(q, p);
        vstd::arithmetic::div_mod::lemma_mod_division_less_than_divisor(q, p);
    }
    assert(x + y == (a + b) * s + (ea + eb)) by {
        vstd::arithmetic::mul::lemma_mul_is_distributive_add_other_way(s, a, b);
    }
    assert((a + b) * s <= (p - 1) * s) by {
        vstd::arithmetic::mul::lemma_mul_inequality(a + b, p - 1, s);
    }
    assert((p - 1) * s + s == p * s) by {
        vstd::arithmetic::mul::lemma_mul_is_distributive_sub_other_way(s, p, 1);
    }
    assert(0 <= x) by {
        vstd::arithmetic::mul::lemma_mul_nonnegative(a, s);
    }
    assert(0 <= y) by {
        vstd::arithmetic::mul::lemma_mul_nonnegative(b, s);
    }

    // Reduction modulo `Q` therefore changes nothing on the way in.
    assert(x % q == x) by {
        vstd::arithmetic::div_mod::lemma_small_mod(x as nat, q as nat);
    }
    assert(y % q == y) by {
        vstd::arithmetic::div_mod::lemma_small_mod(y as nat, q as nat);
    }
    assert((x + y) % q == x + y) by {
        vstd::arithmetic::div_mod::lemma_small_mod((x + y) as nat, q as nat);
    }
    assert(add_coeff(params, x, y) == (a + b) * s + (ea + eb));

    // Descaling strips the noise, and the result is already below `P`.
    assert(((a + b) * s + (ea + eb)) / s == a + b) by {
        vstd::arithmetic::div_mod::lemma_div_multiples_vanish_fancy(a + b, ea + eb, s);
        vstd::arithmetic::mul::lemma_mul_is_commutative(a + b, s);
    }
    assert((a + b) % p == a + b) by {
        vstd::arithmetic::div_mod::lemma_small_mod((a + b) as nat, p as nat);
    }
}

/// Decryption inverts encryption: a signal coefficient freshly formed from a
/// plaintext below the modulus and noise below the scaling factor reads back
/// exactly that plaintext.
pub proof fn lemma_decrypt_of_encrypt(params: FheParameters, m: int, e: int)
    requires
        params.wf(),
        0 <= m < params.plaintext_modulus,
        0 <= e < params.scaling(),
    ensures
        dec0(params, enc0(params, m, e)) == m,
{
    let s = params.scaling();
    let p = params.plaintext_modulus as int;
    assert((m * s + e) / s == m) by {
        vstd::arithmetic::div_mod::lemma_div_multiples_vanish_fancy(m, e, s);
        vstd::arithmetic::mul::lemma_mul_is_commutative(m, s);
    }
    assert(m % p == m) by {
        vstd::arithmetic::div_mod::lemma_small_mod(m as nat, p as nat);
    }
}

/// The same law at the ciphertext level, phrased over the predicates that
/// `encrypt` establishes and `homomorphic_add` preserves: whenever `c1`
/// encrypts `a` and `c2` encrypts `b` under a well-formed parameter set, and
/// `a + b` still fits below the plaintext modulus, the component-wise modular
/// sum of the two signal coefficients decrypts to exactly `a + b`. The noise
/// side-condition is discharged once and for all by the parameter set's
/// guarantee that twice the noise bound stays below the scaling factor.
pub proof fn lemma_homomorphic_add_decrypts(
    params: FheParameters,
    c1: Cipher,
    c2: Cipher,
    a: int,
    b: int,
)
    requires
        params.wf(),
        c1.encrypts(params, a),
        c2.encrypts(params, b),
        0 <= a,
        0 <= b,
        a + b < params.plaintext_modulus,
    ensures
        dec0(
            params,
            add_coeff(params, c1.ciphertext_data@[0] as int, c2.ciphertext_data@[0] as int),
        ) == a + b,
{
    let ea = choose|e: int|
        0 <= e < params.noise_bound && c1.ciphertext_data@[0] as int == enc0(params, a, e);
    let eb = choose|e: int|
        0 <= e < params.noise_bound && c2.ciphertext_data@[0] as int == enc0(params, b, e);
    lemma_additive_homomorphism(params, a, b, ea, eb);
}

} // verus!
