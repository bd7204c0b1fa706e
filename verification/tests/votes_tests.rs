use sha3::{Digest, Keccak256};

use fhe_voting::scheme::PureRustFheRuntime;
use fhe_voting::tally::{create_computation_hash, tally_encrypted_votes_with_fhe};
use fhe_voting::votes::{
    create_signature, create_test_votes, generate_eth_address, verify_results, FheClient,
    VoteCountMismatch, VoteOption,
};

#[test]
fn descriptions_match_the_ballot() {
    assert_eq!(VoteOption::Option1.description(), "Increase block size");
    assert_eq!(VoteOption::Option2.description(), "Implement Layer 2 scaling");
    assert_eq!(VoteOption::Option3.description(), "Maintain current parameters");
    assert_eq!(VoteOption::Option1.number(), 1);
    assert_eq!(VoteOption::Option2.number(), 2);
    assert_eq!(VoteOption::Option3.number(), 3);
}

#[test]
fn eth_address_is_prefixed_keccak_of_seed() {
    let address = generate_eth_address("alice");
    let digest = Keccak256::digest("alice".as_bytes());
    let expected = format!("0x{}", hex::encode(&digest[..20]));
    assert_eq!(address, expected);
    assert_eq!(address.len(), 42);
    let other = generate_eth_address("bob");
    assert_ne!(address, other);
}

#[test]
fn signature_hashes_address_option_and_tag() {
    let address = generate_eth_address("alice");
    let signature = create_signature(&address, &VoteOption::Option1);
    let mut hasher = Keccak256::new();
    hasher.update(address.as_bytes());
    hasher.update([1u8]);
    hasher.update(b"vote_signature");
    let expected = hex::encode(hasher.finalize());
    assert_eq!(signature, expected);
    assert_eq!(signature.len(), 64);
}

#[test]
fn vote_vector_encrypts_exactly_one_one() {
    let client = FheClient::new();
    let vector = client.encrypt_vote_vector(VoteOption::Option2).unwrap();
    assert_eq!(vector.len(), 3);
    // Any key decrypts in this scheme: the mask is not key-derived, which is
    // a documented limitation.
    let mut runtime = PureRustFheRuntime::new();
    let (_public_key, private_key) = runtime.generate_keys();
    let decrypted: Vec<i64> = vector
        .iter()
        .map(|bytes| {
            let cipher = runtime.deserialize_ciphertext(bytes).unwrap();
            runtime.decrypt(&cipher, &private_key).unwrap().val
        })
        .collect();
    assert_eq!(decrypted, vec![0, 1, 0]);
}

#[test]
fn test_votes_tally_to_the_expected_counts() {
    let input = create_test_votes();
    assert_eq!(input.encrypted_votes.len(), 7);
    assert!(input.encrypted_votes.iter().all(|v| v.voter_address.starts_with("0x")));

    let output = tally_encrypted_votes_with_fhe(input);
    assert_eq!(output.option1_count, 3);
    assert_eq!(output.option2_count, 3);
    assert_eq!(output.option3_count, 1);
    assert_eq!(output.total_votes, 7);
    assert_eq!(
        output.computation_hash,
        create_computation_hash(3, 3, 1)
    );

    let input_again = create_test_votes();
    assert_eq!(verify_results(&input_again, &output), Ok(()));
}

#[test]
fn verify_results_reports_the_first_mismatch() {
    let input = create_test_votes();
    let mut output = tally_encrypted_votes_with_fhe(create_test_votes());
    output.option2_count = 5;
    output.total_votes = 9;
    assert_eq!(
        verify_results(&input, &output),
        Err(VoteCountMismatch::Option2Count { expected: 3, actual: 5 })
    );
    let mut bad_total = tally_encrypted_votes_with_fhe(create_test_votes());
    bad_total.total_votes = 6;
    assert_eq!(
        verify_results(&input, &bad_total),
        Err(VoteCountMismatch::TotalCount { expected: 7, actual: 6 })
    );
    let mut bad_first = tally_encrypted_votes_with_fhe(create_test_votes());
    bad_first.option1_count = 0;
    assert_eq!(
        verify_results(&input, &bad_first),
        Err(VoteCountMismatch::Option1Count { expected: 3, actual: 0 })
    );
    let mut bad_third = tally_encrypted_votes_with_fhe(create_test_votes());
    bad_third.option3_count = 2;
    assert_eq!(
        verify_results(&input, &bad_third),
        Err(VoteCountMismatch::Option3Count { expected: 1, actual: 2 })
    );
}

#[test]
fn computation_hash_is_the_diffused_packed_counts() {
    let combined: u64 = (3u64 << 32) | (2u64 << 16) | 2u64;
    let expected = format!("{:016x}", combined.wrapping_mul(0x9e3779b97f4a7c15));
    assert_eq!(create_computation_hash(3, 2, 2), expected);
    assert_eq!(create_computation_hash(0, 0, 0), "0000000000000000");
}
