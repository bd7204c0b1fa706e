use fhe_voting::challenger::{
    extract_result_ciphertexts, ChallengeInput, ChallengeMetadata, ExternalChallenger,
    VerificationError,
};
use fhe_voting::errors::FheError;
use fhe_voting::scheme::{PublicKey, PureRustFheRuntime, Signed};

fn encrypt_values(challenger: &ExternalChallenger, values: &[i64]) -> Vec<Vec<u8>> {
    let runtime = PureRustFheRuntime::new();
    let public_key = challenger.get_public_key();
    values
        .iter()
        .map(|&v| runtime.encrypt(Signed::from(v), public_key).unwrap().serialize())
        .collect()
}

fn challenge_with_plaintexts(
    challenger: &ExternalChallenger,
    plaintexts: Vec<i64>,
) -> ChallengeInput {
    let challenge_ciphertexts = encrypt_values(challenger, &plaintexts);
    ChallengeInput {
        parameters: challenger.get_parameters(),
        public_key: PublicKey { key_data: challenger.get_public_key().key_data.clone() },
        challenge_ciphertexts,
        challenge_metadata: ChallengeMetadata {
            test_id: "protocol_test".to_string(),
            challenge_plaintexts: plaintexts,
            expected_operations: vec![
                "HomomorphicAdd".to_string(),
                "DecryptFinalTallies".to_string(),
            ],
            timestamp: 0,
        },
    }
}

#[test]
fn verification_succeeds_on_matching_sum() {
    let challenger = ExternalChallenger::new();
    let challenge = challenge_with_plaintexts(&challenger, vec![1, 0, 0, 0, 1]);
    // Executor-returned results whose decrypted sum is 2.
    let results = encrypt_values(&challenger, &[1, 0, 0, 0, 1]);
    let verdict = challenger.verify_zkvm_result(&challenge, true, &results);
    assert!(verdict.success);
    assert_eq!(verdict.error, None);
    assert_eq!(verdict.decrypted_results, Some(vec![1, 0, 0, 0, 1]));
}

#[test]
fn verification_reports_arithmetic_mismatch() {
    let challenger = ExternalChallenger::new();
    let challenge = challenge_with_plaintexts(&challenger, vec![1, 0, 0, 0, 1]);
    // Executor-returned results whose decrypted sum is 3, not 2.
    let results = encrypt_values(&challenger, &[1, 0, 1, 0, 1]);
    let verdict = challenger.verify_zkvm_result(&challenge, true, &results);
    assert!(!verdict.success);
    assert_eq!(
        verdict.error,
        Some(VerificationError::ArithmeticMismatch { expected: 2, actual: 3 })
    );
    assert_eq!(verdict.decrypted_results, Some(vec![1, 0, 1, 0, 1]));
}

#[test]
fn invalid_receipt_fails_fast_without_decrypting() {
    let challenger = ExternalChallenger::new();
    let challenge = challenge_with_plaintexts(&challenger, vec![1, 0, 0, 0, 1]);
    // Results that would fail decryption loudly were it attempted.
    let results = vec![vec![0u8; 3]];
    let verdict = challenger.verify_zkvm_result(&challenge, false, &results);
    assert!(!verdict.success);
    assert_eq!(verdict.error, Some(VerificationError::ReceiptInvalid));
    assert_eq!(verdict.decrypted_results, None);
}

#[test]
fn verification_stops_at_first_undecodable_result() {
    let challenger = ExternalChallenger::new();
    let challenge = challenge_with_plaintexts(&challenger, vec![2]);
    let mut results = encrypt_values(&challenger, &[1, 1]);
    results.insert(1, vec![0u8; 5]);
    let verdict = challenger.verify_zkvm_result(&challenge, true, &results);
    assert!(!verdict.success);
    assert_eq!(
        verdict.error,
        Some(VerificationError::ResultDecryption {
            index: 1,
            cause: FheError::LengthMismatch { expected: 512, actual: 5 },
        })
    );
    assert_eq!(verdict.decrypted_results, None);
}

#[test]
fn created_challenges_verify_against_their_own_metadata() {
    let challenger = ExternalChallenger::new();
    let challenge = challenger.create_challenge("self_check", 5);
    assert_eq!(challenge.challenge_metadata.test_id, "self_check");
    assert_eq!(challenge.challenge_metadata.challenge_plaintexts.len(), 5);
    assert!(challenge
        .challenge_metadata
        .challenge_plaintexts
        .iter()
        .all(|&p| (0..3).contains(&p)));
    assert_eq!(challenge.challenge_ciphertexts.len(), 5);
    assert!(challenge.challenge_ciphertexts.iter().all(|c| c.len() == 512));
    // Decrypting the challenge's own ciphertexts reproduces the retained
    // plaintexts, so their sums agree.
    let results = challenge.challenge_ciphertexts.clone();
    let verdict = challenger.verify_zkvm_result(&challenge, true, &results);
    assert!(verdict.success);
    assert_eq!(
        verdict.decrypted_results,
        Some(challenge.challenge_metadata.challenge_plaintexts.clone())
    );
}

#[test]
fn journal_bytes_split_into_canonical_payloads() {
    let journal: Vec<u8> = (0..1034u32).map(|i| (i % 251) as u8).collect();
    let chunks = extract_result_ciphertexts(&journal);
    assert_eq!(chunks.len(), 2);
    assert_eq!(chunks[0], journal[0..512].to_vec());
    assert_eq!(chunks[1], journal[512..1024].to_vec());
}
