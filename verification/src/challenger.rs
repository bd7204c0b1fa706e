use vstd::prelude::*;

use vstd::bytes::spec_u64_from_le_bytes;
use vstd::slice::{slice_subrange, slice_to_vec};
use vstd::string::StringExecFns;

use crate::clock::current_unix_seconds;
use crate::errors::FheError;
use crate::laws::lemma_decrypt_of_encrypt;
use crate::params::{standard_parameters, FheParameters};
use crate::rng::random_below;
use crate::scheme::{dec0, enc0, Cipher, PrivateKey, PublicKey, PureRustFheRuntime, Signed};

verus! {

/// Why a verification run failed. Every rejection carries its cause as a
/// typed value; the human-readable log is additional, never the only record.
#[derive(Debug, Clone, Copy, PartialEq, Eq, Structural)]
pub enum VerificationError {
    /// The external receipt verifier rejected the executor's receipt; no
    /// decryption was attempted.
    ReceiptInvalid,
    /// A returned ciphertext could not be deserialized or decrypted; `index`
    /// is the first failing position.
    ResultDecryption { index: usize, cause: FheError },
    /// Every result decrypted, but the sums disagree.
    ArithmeticMismatch { expected: i128, actual: i128 },
}

/// The keypair a challenger session owns. The private half never leaves the
/// challenger.
pub struct ChallengeKeys {
    pub public_key: PublicKey,
    pub private_key: PrivateKey,
}

/// What the challenger retains about a challenge for later verification.
/// Never serialized into the executor-facing payload.
pub struct ChallengeMetadata {
    pub test_id: String,
    pub challenge_plaintexts: Vec<i64>,
    pub expected_operations: Vec<String>,
    pub timestamp: u64,
}

/// The challenge handed to the untrusted executor, together with the
/// challenger-only metadata. Only `parameters`, `public_key` and
/// `challenge_ciphertexts` may travel onward.
pub struct ChallengeInput {
    pub parameters: FheParameters,
    pub public_key: PublicKey,
    pub challenge_ciphertexts: Vec<Vec<u8>>,
    pub challenge_metadata: ChallengeMetadata,
}

/// The outcome of verifying an executor's response: the accept/reject
/// decision, its typed cause on rejection, the decrypted results where
/// decryption was reached, and a human-readable log.
#[derive(Debug)]
pub struct VerificationResult {
    pub success: bool,
    pub error: Option<VerificationError>,
    pub decrypted_results: Option<Vec<i64>>,
    pub verification_log: Vec<String>,
}

/// What an executor run hands back: an opaque receipt for the external
/// verifier, the journal bytes carrying the serialized result ciphertexts,
/// and bookkeeping.
#[derive(Debug)]
pub struct ZkVmProofResult {
    pub receipt: Vec<u8>,
    pub journal_data: Vec<u8>,
    pub execution_log: Vec<String>,
    pub image_id: String,
}

/// The first 8 bytes of a serialized ciphertext, read as its little-endian
/// signal coefficient.
pub open spec fn payload_word0(bs: Seq<u8>) -> int {
    spec_u64_from_le_bytes(bs.subrange(0, 8)) as int
}

/// A serialized ciphertext has the one acceptable length, `16 n` bytes.
pub open spec fn payload_len_ok(params: FheParameters, bs: Seq<u8>) -> bool {
    bs.len() == 16 * params.polynomial_degree
}

/// The serialized ciphertext decrypts to `m` under the challenger's key: it
/// has the right length and its signal coefficient descales to `m`.
pub open spec fn payload_decrypts_to(params: FheParameters, bs: Seq<u8>, m: int) -> bool {
    &&& payload_len_ok(params, bs)
    &&& dec0(params, payload_word0(bs)) == m
}

/// The values that decrypting each payload in turn yields.
pub open spec fn decrypted_values(params: FheParameters, payloads: Seq<Vec<u8>>) -> Seq<i64> {
    Seq::new(payloads.len(), |i: int| dec0(params, payload_word0(payloads[i]@)) as i64)
}

/// The sum of a sequence of plaintext values, as an unbounded integer.
pub open spec fn sum_seq(s: Seq<i64>) -> int
    decreases s.len(),
{
    if s.len() == 0 {
        0
    } else {
        sum_seq(s.drop_last()) + s.last()
    }
}

/// A sum of `i64` values is bounded by the count times the extreme values, so
/// it always fits an `i128` accumulator.
pub proof fn lemma_sum_seq_bound(s: Seq<i64>)
    ensures
        -(s.len() as int) * 0x8000000000000000 <= sum_seq(s),
        sum_seq(s) <= (s.len() as int) * 0x7fffffffffffffff,
    decreases s.len(),
{
    if s.len() > 0 {
        lemma_sum_seq_bound(s.drop_last());
        let k = s.len() as int;
        assert((k - 1) * 0x7fffffffffffffff + 0x7fffffffffffffff == k * 0x7fffffffffffffff) by {
            vstd::arithmetic::mul::lemma_mul_is_distributive_sub_other_way(
                0x7fffffffffffffff,
                k,
                1,
            );
        }
        assert(-(k - 1) * 0x8000000000000000 - 0x8000000000000000 == -k * 0x8000000000000000) by {
            vstd::arithmetic::mul::lemma_mul_is_distributive_sub_other_way(
                0x8000000000000000,
                k,
                1,
            );
        }
    }
}

/// Sums a vector of plaintext values into an `i128`, which cannot overflow.
fn sum_values(v: &Vec<i64>) -> (s: i128)
    ensures
        s as int == sum_seq(v@),
{
    let mut total: i128 = 0;
    let mut i: usize = 0;
    while i < v.len()
        invariant
            i <= v@.len(),
            total as int == sum_seq(v@.take(i as int)),
        decreases v@.len() - i,
    {
        proof {
            lemma_sum_seq_bound(v@.take(i as int));
            lemma_sum_seq_bound(v@.take(i + 1));
            assert(v@.take(i + 1).drop_last() =~= v@.take(i as int));
            assert(sum_seq(v@.take(i + 1)) == sum_seq(v@.take(i as int)) + v@[i as int]);
            vstd::arithmetic::mul::lemma_mul_inequality(
                i + 1,
                usize::MAX as int,
                0x7fffffffffffffff,
            );
            vstd::arithmetic::mul::lemma_mul_inequality(
                i + 1,
                usize::MAX as int,
                0x8000000000000000,
            );
        }
        total = total + (v[i] as i128);
        i = i + 1;
    }
    proof {
        assert(v@.take(v@.len() as int) =~= v@);
    }
    total
}

/// Splits executor journal bytes into serialized result ciphertexts of the
/// canonical payload size, 512 bytes each; a trailing fragment is dropped.
pub fn extract_result_ciphertexts(journal_data: &[u8]) -> (r: Vec<Vec<u8>>)
    ensures
        r@.len() == journal_data@.len() / 512,
        forall|i: int|
            0 <= i < r@.len() ==> r@[i]@ == journal_data@.subrange(512 * i, 512 * i + 512),
{
    let count = journal_data.len() / 512;
    let mut result: Vec<Vec<u8>> = Vec::new();
    let mut i: usize = 0;
    proof {
        vstd::arithmetic::div_mod::lemma_remainder_lower(journal_data@.len() as int, 512);
        assert((journal_data@.len() as int) / 512 * 512 == 512 * ((journal_data@.len() as int)
            / 512)) by {
            vstd::arithmetic::mul::lemma_mul_is_commutative((journal_data@.len() as int) / 512, 512);
        }
    }
    while i < count
        invariant
            i <= count,
            count == journal_data@.len() / 512,
            512 * count <= journal_data@.len(),
            journal_data@.len() <= usize::MAX,
            result@.len() == i,
            forall|k: int|
                0 <= k < i ==> result@[k]@ == journal_data@.subrange(512 * k, 512 * k + 512),
        decreases count - i,
    {
        proof {
            vstd::arithmetic::mul::lemma_mul_inequality(i as int + 1, count as int, 512);
            assert((i as int + 1) * 512 == 512 * (i as int) + 512) by {
                vstd::arithmetic::mul::lemma_mul_is_distributive_add_other_way(512, i as int, 1);
            }
            assert(512 * (count as int) == (count as int) * 512) by {
                vstd::arithmetic::mul::lemma_mul_is_commutative(count as int, 512);
            }
            assert(512 * (i as int) + 512 <= journal_data@.len());
        }
        let start = 512 * i;
        let chunk = slice_subrange(journal_data, start, start + 512);
        result.push(slice_to_vec(chunk));
        i = i + 1;
    }
    result
}

/// A freshly encrypted ciphertext, once serialized, is a payload that
/// decrypts back to exactly its plaintext: encryption noise stays below the
/// scaling factor, so descaling strips it.
pub proof fn lemma_serialized_encryption_decrypts(params: FheParameters, c: Cipher, m: int)
    requires
        params.wf(),
        0 <= m < params.plaintext_modulus,
        c.encrypts(params, m),
    ensures
        payload_decrypts_to(params, crate::codec::serialize_words(c.ciphertext_data@), m),
{
    let bytes = crate::codec::serialize_words(c.ciphertext_data@);
    let e = choose|e: int|
        0 <= e < params.noise_bound && c.ciphertext_data@[0] as int == enc0(params, m, e);
    lemma_decrypt_of_encrypt(params, m, e);
    crate::codec::lemma_words_round_trip(c.ciphertext_data@);
    assert(bytes.subrange(8int * 0, 8int * 0 + 8) =~= bytes.subrange(0, 8));
    assert(crate::codec::words_from_bytes(bytes)[0] == c.ciphertext_data@[0]);
}

/// A faithful executor passes verification: when every returned payload
/// decrypts to the corresponding retained plaintext — as the challenge's own
/// ciphertexts do, and as any noise-respecting homomorphic rearrangement of
/// them does in aggregate — the decrypted values are the plaintexts
/// themselves, so the two sums that `verify_zkvm_result` compares are equal.
pub proof fn lemma_faithful_results_verify(
    params: FheParameters,
    payloads: Seq<Vec<u8>>,
    plaintexts: Seq<i64>,
)
    requires
        payloads.len() == plaintexts.len(),
        forall|i: int|
            0 <= i < payloads.len() ==> payload_decrypts_to(
                params,
                (#[trigger] payloads[i])@,
                plaintexts[i] as int,
            ),
    ensures
        decrypted_values(params, payloads) == plaintexts,
        sum_seq(decrypted_values(params, payloads)) == sum_seq(plaintexts),
        forall|i: int| 0 <= i < payloads.len() ==> payload_len_ok(params, (#[trigger] payloads[i])@),
{
    assert(decrypted_values(params, payloads) =~= plaintexts);
}

/// The challenger: sole holder of the private key for its session. It
/// creates challenges for the untrusted executor and verifies what comes
/// back by decrypting and checking the arithmetic.
pub struct ExternalChallenger {
    keys: ChallengeKeys,
    parameters: FheParameters,
}

impl ExternalChallenger {
    /// The session's keys, for specifications only; no executable getter
    /// exposes the private half.
    pub closed spec fn spec_keys(self) -> ChallengeKeys {
        self.keys
    }

    /// The session's parameter set, for specifications.
    pub closed spec fn spec_parameters(self) -> FheParameters {
        self.parameters
    }

    /// The session's parameter set.
    pub fn get_parameters(&self) -> (p: FheParameters)
        ensures
            p == self.spec_parameters(),
    {
        self.parameters
    }

    /// Well-formedness: parameters are well formed, leave room for the vote
    /// domain `{0, 1, 2}`, and both keys match them.
    pub open spec fn wf(self) -> bool {
        &&& self.spec_parameters().wf()
        &&& 3 <= self.spec_parameters().plaintext_modulus
        &&& self.spec_keys().public_key.wf(self.spec_parameters())
        &&& self.spec_keys().private_key.wf(self.spec_parameters())
    }

    /// A fresh challenger session: generates its own keypair under the
    /// canonical parameter set and keeps the private half exclusively.
    pub fn new() -> (c: Self)
        ensures
            c.wf(),
            c.spec_parameters() == standard_parameters(),
    {
        let parameters = FheParameters::standard();
        let keys = Self::generate_challenge_keys(&parameters);
        ExternalChallenger { keys, parameters }
    }

    /// Draws a keypair for a session from the cryptographically secure
    /// source; only the coefficient bounds can be promised of it.
    fn generate_challenge_keys(params: &FheParameters) -> (keys: ChallengeKeys)
        requires
            params.wf(),
        ensures
            keys.public_key.wf(*params),
            keys.private_key.wf(*params),
    {
        let mut runtime = PureRustFheRuntime::with_parameters(*params);
        let (public_key, private_key) = runtime.generate_keys();
        ChallengeKeys { public_key, private_key }
    }

    /// The public half of the session's keys — the only half that may travel.
    pub fn get_public_key(&self) -> (k: &PublicKey)
        ensures
            *k == self.spec_keys().public_key,
    {
        &self.keys.public_key
    }

    /// Creates a challenge: samples `num_votes` plaintexts uniformly from the
    /// vote domain `{0, 1, 2}`, encrypts each under the session's public key,
    /// and serializes the ciphertexts. The sampled plaintexts stay in the
    /// metadata, which is retained for verification and never sent onward.
    pub fn create_challenge(&self, test_id: &str, num_votes: usize) -> (challenge: ChallengeInput)
        requires
            self.wf(),
        ensures
            challenge.parameters == self.spec_parameters(),
            challenge.public_key.key_data@ == self.spec_keys().public_key.key_data@,
            challenge.challenge_metadata.test_id@ == test_id@,
            challenge.challenge_metadata.challenge_plaintexts@.len() == num_votes,
            forall|i: int|
                0 <= i < num_votes ==> 0
                    <= #[trigger] challenge.challenge_metadata.challenge_plaintexts@[i] < 3,
            challenge.challenge_ciphertexts@.len() == num_votes,
            forall|i: int|
                0 <= i < num_votes ==> payload_decrypts_to(
                    self.spec_parameters(),
                    #[trigger] challenge.challenge_ciphertexts@[i]@,
                    challenge.challenge_metadata.challenge_plaintexts@[i] as int,
                ),
    {
        let runtime = PureRustFheRuntime::with_parameters(self.parameters);
        let mut challenge_plaintexts: Vec<i64> = Vec::new();
        let mut challenge_ciphertexts: Vec<Vec<u8>> = Vec::new();
        let mut i: usize = 0;
        while i < num_votes
            invariant
                self.wf(),
                runtime.spec_params() == self.parameters,
                i <= num_votes,
                challenge_plaintexts@.len() == i,
                challenge_ciphertexts@.len() == i,
                forall|k: int| 0 <= k < i ==> 0 <= #[trigger] challenge_plaintexts@[k] < 3,
                forall|k: int|
                    0 <= k < i ==> payload_decrypts_to(
                        self.parameters,
                        #[trigger] challenge_ciphertexts@[k]@,
                        challenge_plaintexts@[k] as int,
                    ),
            decreases num_votes - i,
        {
            let plaintext_val = random_below(3) as i64;
            let plaintext = Signed::from(plaintext_val);
            let ciphertext = match runtime.encrypt(plaintext, &self.keys.public_key) {
                Ok(c) => c,
                Err(_) => {
                    // Unreachable: the sampled plaintext lies in [0, 3) and
                    // the modulus admits it.
                    proof {
                        assert(false);
                    }
                    continue ;
                },
            };
            let serialized = ciphertext.serialize();
            proof {
                lemma_serialized_encryption_decrypts(
                    self.parameters,
                    ciphertext,
                    plaintext_val as int,
                );
            }
            challenge_plaintexts.push(plaintext_val);
            challenge_ciphertexts.push(serialized);
            i = i + 1;
        }
        let mut expected_operations: Vec<String> = Vec::new();
        expected_operations.push("HomomorphicAdd".to_owned());
        expected_operations.push("DecryptFinalTallies".to_owned());
        let metadata = ChallengeMetadata {
            test_id: test_id.to_owned(),
            challenge_plaintexts,
            expected_operations,
            timestamp: current_unix_seconds(),
        };
        ChallengeInput {
            parameters: self.parameters,
            public_key: PublicKey { key_data: clone_u64_vec(&self.keys.public_key.key_data) },
            challenge_ciphertexts,
            challenge_metadata: metadata,
        }
    }

    /// Deserializes one returned ciphertext and decrypts it with the held
    /// private key: succeeds exactly on `16 n`-byte payloads, whose signal
    /// coefficient it descales; any other length fails with
    /// `LengthMismatch`.
    fn deserialize_and_decrypt(&self, data: &[u8]) -> (r: Result<Signed, FheError>)
        requires
            self.wf(),
        ensures
            r is Ok <==> payload_len_ok(self.spec_parameters(), data@),
            r matches Ok(p) ==> p.val as int == dec0(self.spec_parameters(), payload_word0(data@)),
            r matches Err(e) ==> e == (FheError::LengthMismatch {
                expected: (16 * self.spec_parameters().polynomial_degree) as usize,
                actual: data@.len() as usize,
            }),
    {
        let runtime = PureRustFheRuntime::with_parameters(self.parameters);
        let cipher = match runtime.deserialize_ciphertext(data) {
            Ok(c) => c,
            Err(e) => {
                return Err(e);
            },
        };
        proof {
            assert(cipher.ciphertext_data@[0] == crate::codec::words_from_bytes(data@)[0]);
            assert(data@.subrange(8int * 0, 8int * 0 + 8) =~= data@.subrange(0, 8));
        }
        self.decrypt_owned(&cipher)
    }

    /// Decryption with the session's own private key.
    fn decrypt_owned(&self, cipher: &Cipher) -> (r: Result<Signed, FheError>)
        requires
            self.wf(),
            cipher.valid_shape(self.spec_parameters()),
        ensures
            r matches Ok(p) && p.val as int == dec0(
                self.spec_parameters(),
                cipher.ciphertext_data@[0] as int,
            ),
    {
        let runtime = PureRustFheRuntime::with_parameters(self.parameters);
        runtime.decrypt(cipher, &self.keys.private_key)
    }

    /// Verifies an executor's response. Fail-fast: if the external receipt
    /// verifier said no (`receipt_valid` is its verdict, obtained by the
    /// caller), the result is `ReceiptInvalid` and no decryption is
    /// attempted. Otherwise every returned ciphertext is deserialized and
    /// decrypted in order, stopping at the first failure; when all decrypt,
    /// the run succeeds exactly when the decrypted sum equals the sum of the
    /// retained challenge plaintexts, and a mismatch reports both sums.
    pub fn verify_zkvm_result(
        &self,
        challenge_input: &ChallengeInput,
        receipt_valid: bool,
        result_ciphertexts: &[Vec<u8>],
    ) -> (v: VerificationResult)
        requires
            self.wf(),
        ensures
            !receipt_valid ==> !v.success && v.error == Some(VerificationError::ReceiptInvalid)
                && v.decrypted_results is None,
            receipt_valid ==> forall|k: int|
                0 <= k < result_ciphertexts@.len() && !payload_len_ok(
                    self.spec_parameters(),
                    #[trigger] result_ciphertexts@[k]@,
                ) && (forall|j: int|
                    0 <= j < k ==> payload_len_ok(
                        self.spec_parameters(),
                        #[trigger] result_ciphertexts@[j]@,
                    )) ==> !v.success && v.decrypted_results is None && v.error == Some(
                    VerificationError::ResultDecryption {
                        index: k as usize,
                        cause: FheError::LengthMismatch {
                            expected: (16 * self.spec_parameters().polynomial_degree) as usize,
                            actual: result_ciphertexts@[k]@.len() as usize,
                        },
                    },
                ),
            (receipt_valid && (forall|k: int|
                0 <= k < result_ciphertexts@.len() ==> payload_len_ok(
                    self.spec_parameters(),
                    #[trigger] result_ciphertexts@[k]@,
                ))) ==> ({
                let vals = decrypted_values(self.spec_parameters(), result_ciphertexts@);
                let expected = sum_seq(challenge_input.challenge_metadata.challenge_plaintexts@);
                let actual = sum_seq(vals);
                &&& (v.decrypted_results matches Some(d) && d@ == vals)
                &&& (v.success <==> expected == actual)
                &&& (v.success ==> v.error is None)
                &&& (!v.success ==> v.error == Some(
                    VerificationError::ArithmeticMismatch {
                        expected: expected as i128,
                        actual: actual as i128,
                    },
                ))
            }),
    {
        let mut verification_log: Vec<String> = Vec::new();
        if !receipt_valid {
            verification_log.push("RECEIPT_INVALID".to_owned());
            return VerificationResult {
                success: false,
                error: Some(VerificationError::ReceiptInvalid),
                decrypted_results: None,
                verification_log,
            };
        }
        let mut decrypted: Vec<i64> = Vec::new();
        let count = result_ciphertexts.len();
        let mut i: usize = 0;
        while i < count
            invariant
                receipt_valid,
                self.wf(),
                i <= count,
                count == result_ciphertexts@.len(),
                decrypted@.len() == i,
                forall|j: int|
                    0 <= j < i ==> payload_len_ok(
                        self.parameters,
                        #[trigger] result_ciphertexts@[j]@,
                    ),
                forall|j: int|
                    0 <= j < i ==> decrypted@[j] as int == dec0(
                        self.parameters,
                        payload_word0(result_ciphertexts@[j]@),
                    ),
            decreases count - i,
        {
            let payload: &Vec<u8> = &result_ciphertexts[i];
            match self.deserialize_and_decrypt(payload.as_slice()) {
                Ok(plaintext) => {
                    decrypted.push(plaintext.val);
                    verification_log.push("result decrypted".to_owned());
                },
                Err(cause) => {
                    verification_log.push("result rejected".to_owned());
                    return VerificationResult {
                        success: false,
                        error: Some(VerificationError::ResultDecryption { index: i, cause }),
                        decrypted_results: None,
                        verification_log,
                    };
                },
            }
            i = i + 1;
        }
        let expected_sum = sum_values(&challenge_input.challenge_metadata.challenge_plaintexts);
        let actual_sum = sum_values(&decrypted);
        proof {
            assert(decrypted@ =~= decrypted_values(self.parameters, result_ciphertexts@));
        }
        if expected_sum == actual_sum {
            verification_log.push("homomorphic addition verified".to_owned());
            VerificationResult {
                success: true,
                error: None,
                decrypted_results: Some(decrypted),
                verification_log,
            }
        } else {
            verification_log.push("arithmetic mismatch".to_owned());
            VerificationResult {
                success: false,
                error: Some(
                    VerificationError::ArithmeticMismatch {
                        expected: expected_sum,
                        actual: actual_sum,
                    },
                ),
                decrypted_results: Some(decrypted),
                verification_log,
            }
        }
    }
}

/// An element-for-element copy of a coefficient vector.
fn clone_u64_vec(v: &Vec<u64>) -> (r: Vec<u64>)
    ensures
        r@ == v@,
{
    let mut r: Vec<u64> = Vec::new();
    let mut i: usize = 0;
    while i < v.len()
        invariant
            i <= v@.len(),
            r@ == v@.take(i as int),
        decreases v@.len() - i,
    {
        r.push(v[i]);
        proof {
            assert(r@ =~= v@.take(i + 1));
        }
        i = i + 1;
    }
    proof {
        assert(v@.take(v@.len() as int) =~= v@);
    }
    r
}

} // verus!
