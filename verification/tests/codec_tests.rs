use fhe_voting::errors::FheError;
use fhe_voting::scheme::{Cipher, PureRustFheRuntime, Signed};

#[test]
fn test_serialization() -> Result<(), FheError> {
    let mut runtime = PureRustFheRuntime::new();
    let (public_key, _private_key) = runtime.generate_keys();

    let plaintext = Signed::from(42);
    let ciphertext = runtime.encrypt(plaintext, &public_key)?;

    let serialized = ciphertext.serialize();
    let deserialized = runtime.deserialize_ciphertext(&serialized)?;

    assert_eq!(ciphertext.ciphertext_data, deserialized.ciphertext_data);
    Ok(())
}

#[test]
fn serialization_is_little_endian_fixed_width() {
    let cipher = Cipher { ciphertext_data: vec![1, 0x0102030405060708] };
    let bytes = cipher.serialize();
    assert_eq!(bytes.len(), 16);
    assert_eq!(&bytes[0..8], &[1, 0, 0, 0, 0, 0, 0, 0]);
    assert_eq!(&bytes[8..16], &[8, 7, 6, 5, 4, 3, 2, 1]);
}

#[test]
fn round_trip_preserves_every_coefficient() {
    let runtime = PureRustFheRuntime::new();
    let words: Vec<u64> = (0..64u64).map(|i| i * 1234567 + u64::MAX / (i + 1)).collect();
    let cipher = Cipher { ciphertext_data: words.clone() };
    let bytes = cipher.serialize();
    let back = runtime.deserialize_ciphertext(&bytes).unwrap();
    assert_eq!(back.ciphertext_data, words);
}

#[test]
fn deserialize_rejects_every_wrong_length() {
    let runtime = PureRustFheRuntime::new();
    let expected = 16 * 32;
    for wrong in [0usize, 1, expected - 1, expected + 1, 2 * expected] {
        let buffer = vec![0u8; wrong];
        let result = runtime.deserialize_ciphertext(&buffer);
        assert_eq!(
            result.unwrap_err(),
            FheError::LengthMismatch { expected, actual: wrong }
        );
    }
    let exact = vec![0u8; expected];
    assert!(runtime.deserialize_ciphertext(&exact).is_ok());
}
