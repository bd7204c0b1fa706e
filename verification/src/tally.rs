use vstd::prelude::*;

use crate::challenger::payload_word0;
use crate::params::{standard_parameters, FheParameters};
use crate::scheme::{add_coeff, dec0, enc0, homomorphic_add, Cipher, PureRustFheRuntime, Signed};
use crate::text::{hex16, u64_to_hex16};
use crate::votes::{EncryptedVote, VoteTallyInput, VoteTallyOutput};

verus! {

/// The executor accepts a vote's component for option `j` when the vote
/// vector has exactly three entries, none of them oversized, and the
/// component itself is a payload of the canonical 512 bytes. Anything else
/// is skipped, never a reason to abort the tally.
pub open spec fn vote_counted(votes: Seq<EncryptedVote>, i: int, j: int) -> bool {
    &&& votes[i].encrypted_vote_vector@.len() == 3
    &&& (forall|k: int| 0 <= k < 3 ==> (#[trigger] votes[i].encrypted_vote_vector@[k])@.len()
        <= 1024)
    &&& votes[i].encrypted_vote_vector@[j]@.len() == 512
}

/// The signal coefficient carried by vote `i`'s component for option `j`.
pub open spec fn vote_word0(votes: Seq<EncryptedVote>, i: int, j: int) -> int {
    payload_word0(votes[i].encrypted_vote_vector@[j]@)
}

/// The signal coefficient of the running tally for option `j` after folding
/// the first `upto` votes into a starting coefficient: every accepted
/// component is added modulo the ciphertext modulus, skipped ones leave the
/// tally untouched.
pub open spec fn tally_coeff0(
    params: FheParameters,
    votes: Seq<EncryptedVote>,
    j: int,
    upto: int,
    start: int,
) -> int
    decreases upto,
{
    if upto <= 0 {
        start
    } else {
        let prev = tally_coeff0(params, votes, j, upto - 1, start);
        if vote_counted(votes, upto - 1, j) {
            add_coeff(params, prev, vote_word0(votes, upto - 1, j))
        } else {
            prev
        }
    }
}

/// The word hashed into the computation hash: the three counts packed into
/// one 64-bit value, diffused by a wrapping multiplication.
pub open spec fn hash_combine(c1: u32, c2: u32, c3: u32) -> u64 {
    vstd::wrapping::u64_specs::wrapping_mul(
        ((c1 as u64) << 32u64) | ((c2 as u64) << 16u64) | (c3 as u64),
        0x9e3779b97f4a7c15,
    )
}

/// A deterministic cross-check over the three counts, rendered as 16
/// hexadecimal digits. A diffusion step, not a cryptographic commitment.
pub fn create_computation_hash(count1: u32, count2: u32, count3: u32) -> (s: String)
    ensures
        s@ == hex16(hash_combine(count1, count2, count3)),
{
    let combined: u64 = ((count1 as u64) << 32u64) | ((count2 as u64) << 16u64) | (count3 as u64);
    let hash = combined.wrapping_mul(0x9e3779b97f4a7c15);
    u64_to_hex16(hash)
}

/// The executor's whole job: tally a batch of encrypted vote vectors without
/// ever seeing a clear choice. Generates a fresh session keypair, starts each
/// option's tally as an encryption of zero, folds every acceptable vote
/// component in by homomorphic addition, decrypts the three tallies, and
/// commits the counts with their cross-check hash.
///
/// The counts are pinned up to the three zero-encryptions' noise: for some
/// noise values below the parameter set's bound, each count is exactly the
/// decryption of the folded tally coefficient. With in-range inputs the noise
/// washes out under descaling, which is the homomorphism law.
pub fn tally_encrypted_votes_with_fhe(input: VoteTallyInput) -> (out: VoteTallyOutput)
    ensures
        ({
            let params = standard_parameters();
            let votes = input.encrypted_votes@;
            let n = votes.len() as int;
            &&& exists|e1: int|
                0 <= e1 < params.noise_bound && out.option1_count as int == dec0(
                    params,
                    tally_coeff0(params, votes, 0, n, e1),
                )
            &&& exists|e2: int|
                0 <= e2 < params.noise_bound && out.option2_count as int == dec0(
                    params,
                    tally_coeff0(params, votes, 1, n, e2),
                )
            &&& exists|e3: int|
                0 <= e3 < params.noise_bound && out.option3_count as int == dec0(
                    params,
                    tally_coeff0(params, votes, 2, n, e3),
                )
            &&& out.option1_count < params.plaintext_modulus
            &&& out.option2_count < params.plaintext_modulus
            &&& out.option3_count < params.plaintext_modulus
            &&& out.total_votes == out.option1_count + out.option2_count + out.option3_count
            &&& out.computation_hash@ == hex16(
                hash_combine(out.option1_count, out.option2_count, out.option3_count),
            )
        }),
{
    let mut fhe_runtime = PureRustFheRuntime::new();
    let (public_key, private_key) = fhe_runtime.generate_keys();
    let ghost params = standard_parameters();
    let ghost votes = input.encrypted_votes@;

    let zero_plaintext = Signed::from(0);
    let mut tally_option1 = match fhe_runtime.encrypt(zero_plaintext, &public_key) {
        Ok(cipher) => cipher,
        Err(_) => {
            proof {
                assert(false);
            }
            Cipher { ciphertext_data: Vec::new() }
        },
    };
    let mut tally_option2 = match fhe_runtime.encrypt(zero_plaintext, &public_key) {
        Ok(cipher) => cipher,
        Err(_) => {
            proof {
                assert(false);
            }
            Cipher { ciphertext_data: Vec::new() }
        },
    };
    let mut tally_option3 = match fhe_runtime.encrypt(zero_plaintext, &public_key) {
        Ok(cipher) => cipher,
        Err(_) => {
            proof {
                assert(false);
            }
            Cipher { ciphertext_data: Vec::new() }
        },
    };
    let ghost e1 = choose|e: int|
        0 <= e < params.noise_bound && tally_option1.ciphertext_data@[0] as int == enc0(
            params,
            0,
            e,
        );
    let ghost e2 = choose|e: int|
        0 <= e < params.noise_bound && tally_option2.ciphertext_data@[0] as int == enc0(
            params,
            0,
            e,
        );
    let ghost e3 = choose|e: int|
        0 <= e < params.noise_bound && tally_option3.ciphertext_data@[0] as int == enc0(
            params,
            0,
            e,
        );
    proof {
        assert(enc0(params, 0, e1) == e1) by {
            vstd::arithmetic::mul::lemma_mul_basics(params.scaling());
        }
        assert(enc0(params, 0, e2) == e2) by {
            vstd::arithmetic::mul::lemma_mul_basics(params.scaling());
        }
        assert(enc0(params, 0, e3) == e3) by {
            vstd::arithmetic::mul::lemma_mul_basics(params.scaling());
        }
    }

    let num_votes = input.encrypted_votes.len();
    let mut i: usize = 0;
    while i < num_votes
        invariant
            fhe_runtime.wf(),
            fhe_runtime.spec_params() == params,
            params == standard_parameters(),
            votes == input.encrypted_votes@,
            i <= num_votes,
            num_votes == votes.len(),
            tally_option1.valid_shape(params),
            tally_option2.valid_shape(params),
            tally_option3.valid_shape(params),
            0 <= e1 < params.noise_bound,
            0 <= e2 < params.noise_bound,
            0 <= e3 < params.noise_bound,
            tally_option1.ciphertext_data@[0] as int == tally_coeff0(
                params,
                votes,
                0,
                i as int,
                e1,
            ),
            tally_option2.ciphertext_data@[0] as int == tally_coeff0(
                params,
                votes,
                1,
                i as int,
                e2,
            ),
            tally_option3.ciphertext_data@[0] as int == tally_coeff0(
                params,
                votes,
                2,
                i as int,
                e3,
            ),
        decreases num_votes - i,
    {
        let encrypted_vote = &input.encrypted_votes[i];
        if encrypted_vote.encrypted_vote_vector.len() != 3 {
            proof {
                assert(!vote_counted(votes, i as int, 0));
                assert(!vote_counted(votes, i as int, 1));
                assert(!vote_counted(votes, i as int, 2));
            }
            i = i + 1;
            continue ;
        }
        let oversized = encrypted_vote.encrypted_vote_vector[0].len() > 1024
            || encrypted_vote.encrypted_vote_vector[1].len() > 1024
            || encrypted_vote.encrypted_vote_vector[2].len() > 1024;
        if oversized {
            proof {
                assert(!vote_counted(votes, i as int, 0));
                assert(!vote_counted(votes, i as int, 1));
                assert(!vote_counted(votes, i as int, 2));
            }
            i = i + 1;
            continue ;
        }
        tally_option1 = add_component(
            &fhe_runtime,
            tally_option1,
            &encrypted_vote.encrypted_vote_vector[0],
            &public_key,
            Ghost(votes),
            Ghost(i as int),
            Ghost(0),
            Ghost(e1),
        );
        tally_option2 = add_component(
            &fhe_runtime,
            tally_option2,
            &encrypted_vote.encrypted_vote_vector[1],
            &public_key,
            Ghost(votes),
            Ghost(i as int),
            Ghost(1),
            Ghost(e2),
        );
        tally_option3 = add_component(
            &fhe_runtime,
            tally_option3,
            &encrypted_vote.encrypted_vote_vector[2],
            &public_key,
            Ghost(votes),
            Ghost(i as int),
            Ghost(2),
            Ghost(e3),
        );
        i = i + 1;
    }

    let option1_plaintext = match fhe_runtime.decrypt(&tally_option1, &private_key) {
        Ok(plaintext) => plaintext,
        Err(_) => {
            proof {
                assert(false);
            }
            Signed::from(0)
        },
    };
    let option2_plaintext = match fhe_runtime.decrypt(&tally_option2, &private_key) {
        Ok(plaintext) => plaintext,
        Err(_) => {
            proof {
                assert(false);
            }
            Signed::from(0)
        },
    };
    let option3_plaintext = match fhe_runtime.decrypt(&tally_option3, &private_key) {
        Ok(plaintext) => plaintext,
        Err(_) => {
            proof {
                assert(false);
            }
            Signed::from(0)
        },
    };
    proof {
        lemma_dec0_in_range(params, tally_option1.ciphertext_data@[0] as int);
        lemma_dec0_in_range(params, tally_option2.ciphertext_data@[0] as int);
        lemma_dec0_in_range(params, tally_option3.ciphertext_data@[0] as int);
    }
    let option1_count = option1_plaintext.val as u32;
    let option2_count = option2_plaintext.val as u32;
    let option3_count = option3_plaintext.val as u32;
    let total_votes = option1_count + option2_count + option3_count;
    let computation_hash = create_computation_hash(option1_count, option2_count, option3_count);

    VoteTallyOutput { option1_count, option2_count, option3_count, total_votes, computation_hash }
}

/// What decryption reads out of any coefficient lies in `[0, P)`.
proof fn lemma_dec0_in_range(params: FheParameters, c0: int)
    requires
        params.wf(),
        0 <= c0,
    ensures
        0 <= dec0(params, c0) < params.plaintext_modulus,
{
    vstd::arithmetic::div_mod::lemma_mod_bound(
        c0 / params.scaling(),
        params.plaintext_modulus as int,
    );
}

/// Folds one vote component into one option's running tally: a 512-byte
/// payload is deserialized and added homomorphically; anything else leaves
/// the tally exactly as it was.
fn add_component(
    fhe_runtime: &PureRustFheRuntime,
    tally: Cipher,
    component: &Vec<u8>,
    public_key: &crate::scheme::PublicKey,
    Ghost(votes): Ghost<Seq<EncryptedVote>>,
    Ghost(i): Ghost<int>,
    Ghost(j): Ghost<int>,
    Ghost(e): Ghost<int>,
) -> (new_tally: Cipher)
    requires
        fhe_runtime.wf(),
        fhe_runtime.spec_params() == standard_parameters(),
        tally.valid_shape(fhe_runtime.spec_params()),
        0 <= i < votes.len(),
        0 <= j < 3,
        votes[i].encrypted_vote_vector@.len() == 3,
        forall|k: int| 0 <= k < 3 ==> (#[trigger] votes[i].encrypted_vote_vector@[k])@.len()
            <= 1024,
        component == votes[i].encrypted_vote_vector@[j],
        tally.ciphertext_data@[0] as int == tally_coeff0(
            fhe_runtime.spec_params(),
            votes,
            j,
            i,
            e,
        ),
    ensures
        new_tally.valid_shape(fhe_runtime.spec_params()),
        new_tally.ciphertext_data@[0] as int == tally_coeff0(
            fhe_runtime.spec_params(),
            votes,
            j,
            i + 1,
            e,
        ),
{
    let ghost params = fhe_runtime.spec_params();
    match fhe_runtime.deserialize_ciphertext(component.as_slice()) {
        Ok(vote_cipher) => {
            proof {
                assert(component@.subrange(8int * 0, 8int * 0 + 8) =~= component@.subrange(0, 8));
                assert(vote_cipher.ciphertext_data@[0] as int == vote_word0(votes, i, j));
                assert(vote_counted(votes, i, j));
            }
            let mut summed = match homomorphic_add(fhe_runtime, tally, vote_cipher, public_key) {
                Ok(cs) => cs,
                Err(_) => {
                    proof {
                        assert(false);
                    }
                    Vec::new()
                },
            };
            let new_tally = summed.remove(0);
            new_tally
        },
        Err(_) => {
            proof {
                assert(!vote_counted(votes, i, j));
            }
            tally
        },
    }
}

/// Vote `i`'s component for option `j` is a fresh encryption of `m`: its
/// signal coefficient is `m * S + e` for some noise below the bound.
pub open spec fn component_fresh(
    params: FheParameters,
    votes: Seq<EncryptedVote>,
    i: int,
    j: int,
    m: int,
) -> bool {
    exists|e: int| 0 <= e < params.noise_bound && vote_word0(votes, i, j) == enc0(params, m, e)
}

/// The plaintext sum a correct tally of option `j` over the first `upto`
/// votes should reach: the values of the accepted components, skipped ones
/// contributing nothing.
pub open spec fn counted_sum(
    votes: Seq<EncryptedVote>,
    values: Seq<int>,
    j: int,
    upto: int,
) -> int
    decreases upto,
{
    if upto <= 0 {
        0
    } else {
        counted_sum(votes, values, j, upto - 1) + if vote_counted(votes, upto - 1, j) {
            values[upto - 1]
        } else {
            0
        }
    }
}

/// How many components for option `j` the first `upto` votes contribute.
pub open spec fn counted_count(votes: Seq<EncryptedVote>, j: int, upto: int) -> int
    decreases upto,
{
    if upto <= 0 {
        0
    } else {
        counted_count(votes, j, upto - 1) + if vote_counted(votes, upto - 1, j) {
            1int
        } else {
            0int
        }
    }
}

/// A partial counted sum of nonnegative values never exceeds the full one,
/// and partial counts never exceed full counts.
proof fn lemma_counted_monotone(
    votes: Seq<EncryptedVote>,
    values: Seq<int>,
    j: int,
    upto: int,
    full: int,
)
    requires
        0 <= upto <= full <= votes.len(),
        values.len() == votes.len(),
        forall|i: int| 0 <= i < votes.len() ==> 0 <= #[trigger] values[i],
    ensures
        0 <= counted_sum(votes, values, j, upto) <= counted_sum(votes, values, j, full),
        0 <= counted_count(votes, j, upto) <= counted_count(votes, j, full),
    decreases full,
{
    if full > 0 {
        if upto == full {
            lemma_counted_monotone(votes, values, j, upto - 1, full - 1);
        } else {
            lemma_counted_monotone(votes, values, j, upto, full - 1);
        }
    }
}

/// The tally coefficient for option `j` after `upto` votes carries exactly
/// the counted sum, scaled, plus an accumulated noise of `noise`.
pub open spec fn tally_repr(
    params: FheParameters,
    votes: Seq<EncryptedVote>,
    values: Seq<int>,
    j: int,
    upto: int,
    start_noise: int,
    noise: int,
) -> bool {
    &&& 0 <= noise < (1 + counted_count(votes, j, upto)) * params.noise_bound
    &&& tally_coeff0(params, votes, j, upto, start_noise) == counted_sum(votes, values, j, upto)
        * params.scaling() + noise
}

/// The tally coefficient over fresh components is exactly the counted sum,
/// scaled, plus the accumulated noise — no modular wrap occurs while the
/// counted sum stays below the plaintext modulus and the noise below the
/// scaling factor.
proof fn lemma_tally_coeff0_representation(
    params: FheParameters,
    votes: Seq<EncryptedVote>,
    values: Seq<int>,
    j: int,
    upto: int,
    start_noise: int,
)
    requires
        params.wf(),
        values.len() == votes.len(),
        0 <= upto <= votes.len(),
        0 <= start_noise < params.noise_bound,
        forall|i: int| 0 <= i < votes.len() ==> 0 <= #[trigger] values[i],
        forall|i: int|
            0 <= i < votes.len() && vote_counted(votes, i, j) ==> component_fresh(
                params,
                votes,
                i,
                j,
                values[i],
            ),
        counted_sum(votes, values, j, votes.len() as int) < params.plaintext_modulus,
        (1 + counted_count(votes, j, votes.len() as int)) * params.noise_bound <= params.scaling(),
    ensures
        exists|noise: int| #[trigger] tally_repr(params, votes, values, j, upto, start_noise, noise),
    decreases upto,
{
    let s = params.scaling();
    let p = params.plaintext_modulus as int;
    let q = params.ciphertext_modulus as int;
    let nb = params.noise_bound as int;
    let n = votes.len() as int;
    assert(p * s <= q) by {
        vstd::arithmetic::div_mod::lemma_fundamental_div_mod(q, p);
        vstd::arithmetic::div_mod::lemma_mod_division_less_than_divisor(q, p);
    }
    if upto <= 0 {
        assert(counted_sum(votes, values, j, 0) * s == 0) by {
            vstd::arithmetic::mul::lemma_mul_basics(s);
        }
        assert((1 + counted_count(votes, j, 0)) * nb == nb) by {
            vstd::arithmetic::mul::lemma_mul_basics(nb);
        }
        assert(tally_repr(params, votes, values, j, 0, start_noise, start_noise));
    } else {
        lemma_tally_coeff0_representation(params, votes, values, j, upto - 1, start_noise);
        let prev = tally_coeff0(params, votes, j, upto - 1, start_noise);
        let prev_sum = counted_sum(votes, values, j, upto - 1);
        let prev_cnt = counted_count(votes, j, upto - 1);
        let prev_noise = choose|noise: int|
            #[trigger] tally_repr(params, votes, values, j, upto - 1, start_noise, noise);
        lemma_counted_monotone(votes, values, j, upto - 1, n);
        if vote_counted(votes, upto - 1, j) {
            let m = values[upto - 1];
            let e = choose|e: int|
                0 <= e < nb && vote_word0(votes, upto - 1, j) == enc0(params, m, e);
            let new_sum = counted_sum(votes, values, j, upto);
            let new_cnt = counted_count(votes, j, upto);
            let new_noise = prev_noise + e;
            assert(new_sum == prev_sum + m);
            assert(new_cnt == prev_cnt + 1);
            // Noise bound: one more component adds at most one more noise
            // share.
            assert((1 + prev_cnt) * nb + nb == (1 + new_cnt) * nb) by {
                vstd::arithmetic::mul::lemma_mul_is_distributive_add_other_way(nb, 1 + prev_cnt, 1);
                vstd::arithmetic::mul::lemma_mul_basics(nb);
            }
            // The exact sum stays below `Q`, so the modular addition is the
            // plain one.
            lemma_counted_monotone(votes, values, j, upto, n);
            assert(new_sum * s <= (p - 1) * s) by {
                vstd::arithmetic::mul::lemma_mul_inequality(new_sum, p - 1, s);
            }
            assert((1 + new_cnt) * nb <= s) by {
                lemma_counted_monotone(votes, values, j, upto, n);
                assert(new_cnt <= counted_count(votes, j, n));
                vstd::arithmetic::mul::lemma_mul_inequality(
                    1 + new_cnt,
                    1 + counted_count(votes, j, n),
                    nb,
                );
            }
            assert((p - 1) * s + s == p * s) by {
                vstd::arithmetic::mul::lemma_mul_is_distributive_sub_other_way(s, p, 1);
            }
            assert(new_sum * s + new_noise < q);
            assert(prev_sum * s + m * s == new_sum * s) by {
                vstd::arithmetic::mul::lemma_mul_is_distributive_add_other_way(s, prev_sum, m);
            }
            assert(0 <= prev) by {
                vstd::arithmetic::mul::lemma_mul_nonnegative(prev_sum, s);
            }
            assert(0 <= vote_word0(votes, upto - 1, j)) by {
                vstd::arithmetic::mul::lemma_mul_nonnegative(m, s);
            }
            assert(prev % q == prev) by {
                vstd::arithmetic::div_mod::lemma_small_mod(prev as nat, q as nat);
            }
            assert(vote_word0(votes, upto - 1, j) % q == vote_word0(votes, upto - 1, j)) by {
                vstd::arithmetic::div_mod::lemma_small_mod(
                    vote_word0(votes, upto - 1, j) as nat,
                    q as nat,
                );
            }
            assert((prev + vote_word0(votes, upto - 1, j)) % q == prev + vote_word0(
                votes,
                upto - 1,
                j,
            )) by {
                vstd::arithmetic::div_mod::lemma_small_mod(
                    (prev + vote_word0(votes, upto - 1, j)) as nat,
                    q as nat,
                );
            }
            assert(tally_coeff0(params, votes, j, upto, start_noise) == new_sum * s + new_noise);
            assert(tally_repr(params, votes, values, j, upto, start_noise, new_noise));
        } else {
            assert(counted_sum(votes, values, j, upto) == prev_sum);
            assert(counted_count(votes, j, upto) == prev_cnt);
            assert(tally_repr(params, votes, values, j, upto, start_noise, prev_noise));
        }
    }
}

/// Voting homomorphism over a whole batch: when every accepted component is a
/// fresh encryption of a nonnegative value, the values sum to less than the
/// plaintext modulus, and the batch is small enough that the accumulated
/// noise shares stay below the scaling factor, the folded tally for option
/// `j` decrypts to exactly the counted sum. This is what entitles the
/// executor's tally to be read as vote counts.
pub proof fn lemma_tally_decrypts_to_counted_sum(
    params: FheParameters,
    votes: Seq<EncryptedVote>,
    values: Seq<int>,
    j: int,
    start_noise: int,
)
    requires
        params.wf(),
        values.len() == votes.len(),
        0 <= start_noise < params.noise_bound,
        forall|i: int| 0 <= i < votes.len() ==> 0 <= #[trigger] values[i],
        forall|i: int|
            0 <= i < votes.len() && vote_counted(votes, i, j) ==> component_fresh(
                params,
                votes,
                i,
                j,
                values[i],
            ),
        counted_sum(votes, values, j, votes.len() as int) < params.plaintext_modulus,
        (1 + counted_count(votes, j, votes.len() as int)) * params.noise_bound <= params.scaling(),
    ensures
        dec0(params, tally_coeff0(params, votes, j, votes.len() as int, start_noise))
            == counted_sum(votes, values, j, votes.len() as int),
{
    let s = params.scaling();
    let p = params.plaintext_modulus as int;
    let nb = params.noise_bound as int;
    let n = votes.len() as int;
    lemma_tally_coeff0_representation(params, votes, values, j, n, start_noise);
    let total = counted_sum(votes, values, j, n);
    let noise = choose|noise: int|
        #[trigger] tally_repr(params, votes, values, j, n, start_noise, noise);
    assert(noise < s);
    lemma_counted_monotone(votes, values, j, n, n);
    assert((total * s + noise) / s == total) by {
        vstd::arithmetic::div_mod::lemma_div_multiples_vanish_fancy(total, noise, s);
        vstd::arithmetic::mul::lemma_mul_is_commutative(total, s);
    }
    assert(total % p == total) by {
        vstd::arithmetic::div_mod::lemma_small_mod(total as nat, p as nat);
    }
}

} // verus!
