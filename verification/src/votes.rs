use vstd::prelude::*;

use vstd::slice::slice_subrange;
use vstd::string::{StringExecFns, StringSliceAdditionalSpecFns};

use crate::challenger::{lemma_serialized_encryption_decrypts, payload_decrypts_to};
use crate::hashing::{hex_encode, keccak256, keccak256_of};
use crate::params::{standard_parameters, FheParameters};
use crate::scheme::{PublicKey, PureRustFheRuntime, Signed};
use crate::text::hex_of;

verus! {

/// The three options of the vote.
#[derive(Debug, Clone, Copy, PartialEq, Eq, Hash, Structural)]
pub enum VoteOption {
    Option1,
    Option2,
    Option3,
}

impl VoteOption {
    /// The ballot text of the option, for specifications.
    pub open spec fn spec_description(self) -> Seq<char> {
        match self {
            VoteOption::Option1 => "Increase block size"@,
            VoteOption::Option2 => "Implement Layer 2 scaling"@,
            VoteOption::Option3 => "Maintain current parameters"@,
        }
    }

    /// The 1-based ballot number of the option.
    pub open spec fn spec_number(self) -> int {
        match self {
            VoteOption::Option1 => 1,
            VoteOption::Option2 => 2,
            VoteOption::Option3 => 3,
        }
    }

    /// The ballot text of the option.
    pub fn description(&self) -> (s: &'static str)
        ensures
            s@ == self.spec_description(),
    {
        match self {
            VoteOption::Option1 => "Increase block size",
            VoteOption::Option2 => "Implement Layer 2 scaling",
            VoteOption::Option3 => "Maintain current parameters",
        }
    }

    /// The 1-based ballot number of the option.
    pub fn number(&self) -> (n: u8)
        ensures
            n as int == self.spec_number(),
    {
        match self {
            VoteOption::Option1 => 1,
            VoteOption::Option2 => 2,
            VoteOption::Option3 => 3,
        }
    }
}

/// One voter's submission: the vote choice travels only inside the encrypted
/// vote vector — one ciphertext of 1 or 0 per option — never in the clear.
/// `actual_choice` is retained for verifying a tally against ground truth and
/// would not be transmitted.
pub struct EncryptedVote {
    pub voter_address: String,
    pub encrypted_vote_vector: Vec<Vec<u8>>,
    pub signature: String,
    pub actual_choice: VoteOption,
}

/// The batch of encrypted votes handed to the executor for tallying.
pub struct VoteTallyInput {
    pub encrypted_votes: Vec<EncryptedVote>,
}

/// The tally the executor commits to: one count per option, their total, and
/// a hash of the computation for cross-checking.
pub struct VoteTallyOutput {
    pub option1_count: u32,
    pub option2_count: u32,
    pub option3_count: u32,
    pub total_votes: u32,
    pub computation_hash: String,
}

/// Errors of the voting client.
#[derive(Debug)]
pub enum FheClientError {
    EncryptionFailed { reason: String },
    KeyGenerationFailed { reason: String },
    InvalidVoteOption { option: u8 },
}

/// The voting client: generates a keypair under the canonical parameter set,
/// keeps only the public half, and encrypts ballots as vote vectors under it.
pub struct FheClient {
    runtime: PureRustFheRuntime,
    public_key: PublicKey,
}

impl FheClient {
    /// The client's parameter set, for specifications.
    pub closed spec fn spec_params(self) -> FheParameters {
        self.runtime.spec_params()
    }

    /// The client's public key, for specifications.
    pub closed spec fn spec_public_key(self) -> PublicKey {
        self.public_key
    }

    /// Well-formedness: the canonical parameter set, and a key that matches
    /// it.
    pub open spec fn wf(self) -> bool {
        &&& self.spec_params() == standard_parameters()
        &&& self.spec_params().wf()
        &&& self.spec_public_key().wf(self.spec_params())
    }

    /// A fresh client: draws a keypair under the canonical parameter set and
    /// discards the private half — the client only ever encrypts.
    pub fn new() -> (c: Self)
        ensures
            c.wf(),
    {
        let mut runtime = PureRustFheRuntime::new();
        let (public_key, _private_key) = runtime.generate_keys();
        FheClient { runtime, public_key }
    }

    /// Encrypts a ballot as a vote vector: for each of the three options, in
    /// ballot order, a fresh encryption of 1 where the option is the chosen
    /// one and of 0 where it is not, each serialized on its own. The clear
    /// choice never leaves this function.
    pub fn encrypt_vote_vector(&self, vote_choice: VoteOption) -> (r: Result<
        Vec<Vec<u8>>,
        FheClientError,
    >)
        requires
            self.wf(),
        ensures
            r matches Ok(v) && v@.len() == 3 && (forall|i: int|
                0 <= i < 3 ==> payload_decrypts_to(
                    self.spec_params(),
                    #[trigger] v@[i]@,
                    if i + 1 == vote_choice.spec_number() {
                        1int
                    } else {
                        0int
                    },
                )),
    {
        let mut encrypted_vector: Vec<Vec<u8>> = Vec::new();
        let choice_index = (vote_choice.number() - 1) as usize;
        let mut candidate_idx: usize = 0;
        while candidate_idx < 3
            invariant
                self.wf(),
                candidate_idx <= 3,
                choice_index as int == vote_choice.spec_number() - 1,
                encrypted_vector@.len() == candidate_idx,
                forall|i: int|
                    0 <= i < candidate_idx ==> payload_decrypts_to(
                        self.spec_params(),
                        #[trigger] encrypted_vector@[i]@,
                        if i == choice_index {
                            1int
                        } else {
                            0int
                        },
                    ),
            decreases 3 - candidate_idx,
        {
            let vote_value: i64 = if candidate_idx == choice_index {
                1
            } else {
                0
            };
            let plaintext = Signed::from(vote_value);
            let ciphertext = match self.runtime.encrypt(plaintext, &self.public_key) {
                Ok(c) => c,
                Err(_) => {
                    // Unreachable: 0 and 1 both lie below the plaintext
                    // modulus.
                    proof {
                        assert(false);
                    }
                    continue ;
                },
            };
            let serialized = ciphertext.serialize();
            proof {
                lemma_serialized_encryption_decrypts(
                    self.spec_params(),
                    ciphertext,
                    vote_value as int,
                );
            }
            encrypted_vector.push(serialized);
            candidate_idx = candidate_idx + 1;
        }
        Ok(encrypted_vector)
    }

    /// The public half of the client's keys.
    pub fn get_public_key(&self) -> (k: &PublicKey)
        ensures
            *k == self.spec_public_key(),
    {
        &self.public_key
    }
}

/// The byte string whose digest signs a vote: the voter address bytes, the
/// option's ballot number, and a fixed tag.
pub open spec fn signature_preimage(addr: Seq<u8>, opt: VoteOption) -> Seq<u8> {
    addr + seq![opt.spec_number() as u8] + "vote_signature".spec_bytes()
}

/// A voter's address: the usual rendering of the first 20 bytes of the
/// Keccak-256 digest of a seed string, with the `0x` prefix.
pub fn generate_eth_address(seed: &str) -> (r: String)
    ensures
        r@ == seq!['0', 'x'] + hex_of(keccak256_of(seed.spec_bytes()).take(20)),
        r@.len() == 42,
{
    let digest = keccak256(seed.as_bytes());
    let first20 = slice_subrange(digest.as_slice(), 0, 20);
    let tail = hex_encode(first20);
    let mut out = String::new();
    proof {
        reveal_strlit("0x");
    }
    out.append("0x");
    out.append(tail.as_str());
    proof {
        assert(out@ =~= seq!['0', 'x'] + hex_of(keccak256_of(seed.spec_bytes()).take(20)));
    }
    out
}

/// A vote's signature: the hex rendering of the Keccak-256 digest of the
/// voter address bytes, the option's ballot number and a fixed tag. A stand-in
/// for a real signature scheme: it authenticates nothing, it only binds the
/// address to the choice for the demonstration.
pub fn create_signature(voter_address: &str, vote_option: &VoteOption) -> (r: String)
    ensures
        r@ == hex_of(keccak256_of(signature_preimage(voter_address.spec_bytes(), *vote_option))),
        r@.len() == 64,
{
    let mut message: Vec<u8> = Vec::new();
    message.extend_from_slice(voter_address.as_bytes());
    message.push(vote_option.number());
    message.extend_from_slice("vote_signature".as_bytes());
    proof {
        assert(message@ =~= signature_preimage(voter_address.spec_bytes(), *vote_option));
    }
    let digest = keccak256(message.as_slice());
    hex_encode(digest.as_slice())
}

/// The clear choices of the built-in test batch, in ballot order.
pub open spec fn test_vote_choices() -> Seq<VoteOption> {
    seq![
        VoteOption::Option1,
        VoteOption::Option2,
        VoteOption::Option1,
        VoteOption::Option3,
        VoteOption::Option2,
        VoteOption::Option1,
        VoteOption::Option2,
    ]
}

/// One test voter: a derived address, the stand-in signature over it, and a
/// vote vector encrypted by the client; the clear choice is retained for
/// checking the tally.
fn make_test_vote(client: &FheClient, name: &str, choice: VoteOption) -> (v: EncryptedVote)
    requires
        client.wf(),
    ensures
        v.actual_choice == choice,
        v.encrypted_vote_vector@.len() == 3,
        forall|j: int|
            0 <= j < 3 ==> payload_decrypts_to(
                client.spec_params(),
                #[trigger] v.encrypted_vote_vector@[j]@,
                if j + 1 == choice.spec_number() {
                    1int
                } else {
                    0int
                },
            ),
        v.voter_address@.len() == 42,
        v.signature@.len() == 64,
{
    let voter_address = generate_eth_address(name);
    let signature = create_signature(voter_address.as_str(), &choice);
    let encrypted_vote_vector = match client.encrypt_vote_vector(choice) {
        Ok(vector) => vector,
        Err(_) => {
            proof {
                assert(false);
            }
            Vec::new()
        },
    };
    EncryptedVote { voter_address, encrypted_vote_vector, signature, actual_choice: choice }
}

/// A built-in batch of seven test voters with fixed choices, each with a
/// derived address, a vote vector encrypted under one fresh client key, and
/// the stand-in signature.
pub fn create_test_votes() -> (r: VoteTallyInput)
    ensures
        r.encrypted_votes@.len() == 7,
        forall|i: int|
            0 <= i < 7 ==> (#[trigger] r.encrypted_votes@[i]).actual_choice
                == test_vote_choices()[i],
        forall|i: int|
            0 <= i < 7 ==> (#[trigger] r.encrypted_votes@[i]).encrypted_vote_vector@.len() == 3,
        forall|i: int, j: int|
            0 <= i < 7 && 0 <= j < 3 ==> payload_decrypts_to(
                standard_parameters(),
                (#[trigger] r.encrypted_votes@[i].encrypted_vote_vector@[j])@,
                if j + 1 == test_vote_choices()[i].spec_number() {
                    1int
                } else {
                    0int
                },
            ),
        forall|i: int|
            0 <= i < 7 ==> (#[trigger] r.encrypted_votes@[i]).voter_address@.len() == 42,
        forall|i: int| 0 <= i < 7 ==> (#[trigger] r.encrypted_votes@[i]).signature@.len() == 64,
{
    let client = FheClient::new();
    let v0 = make_test_vote(&client, "alice", VoteOption::Option1);
    let v1 = make_test_vote(&client, "bob", VoteOption::Option2);
    let v2 = make_test_vote(&client, "charlie", VoteOption::Option1);
    let v3 = make_test_vote(&client, "david", VoteOption::Option3);
    let v4 = make_test_vote(&client, "eve", VoteOption::Option2);
    let v5 = make_test_vote(&client, "frank", VoteOption::Option1);
    let v6 = make_test_vote(&client, "grace", VoteOption::Option2);
    let ghost expected = seq![v0, v1, v2, v3, v4, v5, v6];
    let mut encrypted_votes: Vec<EncryptedVote> = Vec::new();
    encrypted_votes.push(v0);
    encrypted_votes.push(v1);
    encrypted_votes.push(v2);
    encrypted_votes.push(v3);
    encrypted_votes.push(v4);
    encrypted_votes.push(v5);
    encrypted_votes.push(v6);
    proof {
        assert(encrypted_votes@ =~= expected);
    }
    VoteTallyInput { encrypted_votes }
}

/// How many of the votes carry the given clear choice.
pub open spec fn count_choice(votes: Seq<EncryptedVote>, opt: VoteOption) -> int
    decreases votes.len(),
{
    if votes.len() == 0 {
        0
    } else {
        count_choice(votes.drop_last(), opt) + if votes.last().actual_choice == opt {
            1int
        } else {
            0int
        }
    }
}

/// A choice count never exceeds the number of votes.
pub proof fn lemma_count_choice_bound(votes: Seq<EncryptedVote>, opt: VoteOption)
    ensures
        0 <= count_choice(votes, opt) <= votes.len(),
    decreases votes.len(),
{
    if votes.len() > 0 {
        lemma_count_choice_bound(votes.drop_last(), opt);
    }
}

/// Every vote carries exactly one choice, so the three counts partition the
/// batch: they always sum to the number of votes.
pub proof fn lemma_counts_partition(votes: Seq<EncryptedVote>)
    ensures
        count_choice(votes, VoteOption::Option1) + count_choice(votes, VoteOption::Option2)
            + count_choice(votes, VoteOption::Option3) == votes.len(),
    decreases votes.len(),
{
    if votes.len() > 0 {
        lemma_counts_partition(votes.drop_last());
    }
}

/// Which reference count a committed tally contradicts first, checked in
/// ballot order with the total last.
#[derive(Debug, Clone, Copy, PartialEq, Eq, Structural)]
pub enum VoteCountMismatch {
    Option1Count { expected: u32, actual: u32 },
    Option2Count { expected: u32, actual: u32 },
    Option3Count { expected: u32, actual: u32 },
    TotalCount { expected: u32, actual: u32 },
}

/// Checks a committed tally against the clear choices retained in the input:
/// accepts exactly when all three counts and the total match, and otherwise
/// reports the first mismatch in ballot order.
pub fn verify_results(input: &VoteTallyInput, output: &VoteTallyOutput) -> (r: Result<
    (),
    VoteCountMismatch,
>)
    requires
        input.encrypted_votes@.len() <= u32::MAX,
    ensures
        ({
            let votes = input.encrypted_votes@;
            let c1 = count_choice(votes, VoteOption::Option1);
            let c2 = count_choice(votes, VoteOption::Option2);
            let c3 = count_choice(votes, VoteOption::Option3);
            &&& (r is Ok <==> output.option1_count == c1 && output.option2_count == c2
                && output.option3_count == c3 && output.total_votes == c1 + c2 + c3)
            &&& (r matches Err(e) ==> e == (if output.option1_count != c1 {
                VoteCountMismatch::Option1Count {
                    expected: c1 as u32,
                    actual: output.option1_count,
                }
            } else if output.option2_count != c2 {
                VoteCountMismatch::Option2Count {
                    expected: c2 as u32,
                    actual: output.option2_count,
                }
            } else if output.option3_count != c3 {
                VoteCountMismatch::Option3Count {
                    expected: c3 as u32,
                    actual: output.option3_count,
                }
            } else {
                VoteCountMismatch::TotalCount {
                    expected: (c1 + c2 + c3) as u32,
                    actual: output.total_votes,
                }
            }))
        }),
{
    let votes = &input.encrypted_votes;
    let ghost vseq = votes@;
    let mut option1_count: u32 = 0;
    let mut option2_count: u32 = 0;
    let mut option3_count: u32 = 0;
    let mut i: usize = 0;
    while i < votes.len()
        invariant
            i <= vseq.len(),
            vseq == votes@,
            vseq.len() <= u32::MAX,
            option1_count as int == count_choice(vseq.take(i as int), VoteOption::Option1),
            option2_count as int == count_choice(vseq.take(i as int), VoteOption::Option2),
            option3_count as int == count_choice(vseq.take(i as int), VoteOption::Option3),
        decreases vseq.len() - i,
    {
        proof {
            assert(vseq.take(i + 1).drop_last() =~= vseq.take(i as int));
            lemma_count_choice_bound(vseq.take(i as int), VoteOption::Option1);
            lemma_count_choice_bound(vseq.take(i as int), VoteOption::Option2);
            lemma_count_choice_bound(vseq.take(i as int), VoteOption::Option3);
        }
        match votes[i].actual_choice {
            VoteOption::Option1 => {
                option1_count = option1_count + 1;
            },
            VoteOption::Option2 => {
                option2_count = option2_count + 1;
            },
            VoteOption::Option3 => {
                option3_count = option3_count + 1;
            },
        }
        i = i + 1;
    }
    proof {
        assert(vseq.take(vseq.len() as int) =~= vseq);
        lemma_counts_partition(vseq);
    }
    if output.option1_count != option1_count {
        return Err(
            VoteCountMismatch::Option1Count {
                expected: option1_count,
                actual: output.option1_count,
            },
        );
    }
    if output.option2_count != option2_count {
        return Err(
            VoteCountMismatch::Option2Count {
                expected: option2_count,
                actual: output.option2_count,
            },
        );
    }
    if output.option3_count != option3_count {
        return Err(
            VoteCountMismatch::Option3Count {
                expected: option3_count,
                actual: output.option3_count,
            },
        );
    }
    let expected_total = option1_count + option2_count + option3_count;
    if output.total_votes != expected_total {
        return Err(
            VoteCountMismatch::TotalCount { expected: expected_total, actual: output.total_votes },
        );
    }
    Ok(())
}

} // verus!
