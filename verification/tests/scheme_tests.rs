use fhe_voting::errors::FheError;
use fhe_voting::params::{FheParameters, CIPHERTEXT_MODULUS, PLAINTEXT_MODULUS, POLYNOMIAL_DEGREE};
use fhe_voting::scheme::{homomorphic_add, PureRustFheRuntime, Signed};

fn add_once(
    runtime: &PureRustFheRuntime,
    a: i64,
    b: i64,
) -> Result<i64, FheError> {
    let mut keygen = PureRustFheRuntime::with_parameters(*runtime.params());
    let (public_key, private_key) = keygen.generate_keys();
    let c1 = runtime.encrypt(Signed::from(a), &public_key)?;
    let c2 = runtime.encrypt(Signed::from(b), &public_key)?;
    let mut summed = homomorphic_add(runtime, c1, c2, &public_key)?;
    let sum_cipher = summed.remove(0);
    Ok(runtime.decrypt(&sum_cipher, &private_key)?.val)
}

#[test]
fn test_basic_fhe_operations() -> Result<(), FheError> {
    let mut runtime = PureRustFheRuntime::new();
    let (public_key, private_key) = runtime.generate_keys();

    let plaintext1 = Signed::from(5);
    let plaintext2 = Signed::from(3);

    let ciphertext1 = runtime.encrypt(plaintext1, &public_key)?;
    let ciphertext2 = runtime.encrypt(plaintext2, &public_key)?;

    let mut result = homomorphic_add(&runtime, ciphertext1, ciphertext2, &public_key)?;
    let result_cipher = result.remove(0);

    let result_plain = runtime.decrypt(&result_cipher, &private_key)?;
    assert_eq!(result_plain.val, 8); // 5 + 3 = 8
    Ok(())
}

#[test]
fn homomorphic_addition_examples() {
    let runtime = PureRustFheRuntime::new();
    assert_eq!(add_once(&runtime, 5, 3).unwrap(), 8);
    assert_eq!(add_once(&runtime, 100, 200).unwrap(), 300);
    assert_eq!(add_once(&runtime, 0, 9).unwrap(), 9);
    assert_eq!(add_once(&runtime, 42, 13).unwrap(), 55);
}

#[test]
fn homomorphic_addition_small_modulus() {
    // The example parameter set with plaintext modulus 1024.
    let params = FheParameters {
        plaintext_modulus: 1024,
        ciphertext_modulus: 1099511627776, // 2^40
        polynomial_degree: 8,
        noise_bound: 128,
    };
    let runtime = PureRustFheRuntime::with_parameters(params);
    assert_eq!(add_once(&runtime, 5, 3).unwrap(), 8);
    assert_eq!(add_once(&runtime, 100, 200).unwrap(), 300);
}

#[test]
fn encrypt_rejects_out_of_range_plaintexts() {
    let mut runtime = PureRustFheRuntime::new();
    let (public_key, _private_key) = runtime.generate_keys();

    let negative = runtime.encrypt(Signed::from(-1), &public_key);
    assert_eq!(
        negative.unwrap_err(),
        FheError::InvalidPlaintext { value: -1, modulus: PLAINTEXT_MODULUS }
    );

    let too_big = runtime.encrypt(Signed::from(PLAINTEXT_MODULUS as i64), &public_key);
    assert_eq!(
        too_big.unwrap_err(),
        FheError::InvalidPlaintext {
            value: PLAINTEXT_MODULUS as i64,
            modulus: PLAINTEXT_MODULUS
        }
    );
}

#[test]
fn generated_keys_have_bounded_coefficients() {
    let mut runtime = PureRustFheRuntime::new();
    let (public_key, private_key) = runtime.generate_keys();
    assert_eq!(public_key.key_data.len(), POLYNOMIAL_DEGREE);
    assert_eq!(private_key.secret_data.len(), POLYNOMIAL_DEGREE);
    assert!(public_key.key_data.iter().all(|&c| c < CIPHERTEXT_MODULUS));
    assert!(private_key.secret_data.iter().all(|&c| c < PLAINTEXT_MODULUS));
}

#[test]
fn repeated_encryption_randomizes_mask() {
    let mut runtime = PureRustFheRuntime::new();
    let (public_key, private_key) = runtime.generate_keys();
    let c1 = runtime.encrypt(Signed::from(42), &public_key).unwrap();
    let c2 = runtime.encrypt(Signed::from(42), &public_key).unwrap();
    // 63 coefficients of fresh randomness each: a collision would mean the
    // secure source repeated itself.
    assert_ne!(c1.ciphertext_data, c2.ciphertext_data);
    assert_eq!(runtime.decrypt(&c1, &private_key).unwrap().val, 42);
    assert_eq!(runtime.decrypt(&c2, &private_key).unwrap().val, 42);
}

#[test]
fn decrypt_checked_flags_out_of_domain_values() {
    let mut runtime = PureRustFheRuntime::new();
    let (public_key, private_key) = runtime.generate_keys();
    let in_domain = runtime.encrypt(Signed::from(2), &public_key).unwrap();
    assert_eq!(
        runtime.decrypt_checked(&in_domain, &private_key, 3).unwrap().val,
        2
    );
    let out_of_domain = runtime.encrypt(Signed::from(5), &public_key).unwrap();
    assert_eq!(
        runtime.decrypt_checked(&out_of_domain, &private_key, 3).unwrap_err(),
        FheError::NoiseOverflowSuspected { observed: 5, limit: 3 }
    );
}

#[test]
fn signed_to_string_matches_decimal_rendering() {
    assert_eq!(Signed::from(0).to_string(), "0");
    assert_eq!(Signed::from(8).to_string(), "8");
    assert_eq!(Signed::from(65537).to_string(), "65537");
    assert_eq!(Signed::from(-123).to_string(), "-123");
    assert_eq!(Signed::from(i64::MIN).to_string(), i64::MIN.to_string());
    assert_eq!(Signed::from(i64::MAX).to_string(), i64::MAX.to_string());
}
