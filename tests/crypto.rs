use k256::ecdsa::SigningKey;
use k256::elliptic_curve::generic_array::typenum::U32;
use k256::elliptic_curve::generic_array::GenericArray;
use wasmlanche::crypto::{CryptoApi, CryptoError};

#[test]
fn test_secp256k1_success() {
    let api = CryptoApi::default();
    let msg = b"test message";
    let privkey = GenericArray::<u8, U32>::from_slice(&[1u8; 32]);

    // Test signing
    let sig = api.secp256k1_sign(msg, privkey.as_slice()).unwrap();

    // Get public key
    let signing_key = SigningKey::from_bytes(privkey).unwrap();
    let pubkey = signing_key.verifying_key().to_encoded_point(false).to_bytes();

    // Test verification
    assert!(api.secp256k1_verify(msg, &sig, &pubkey).unwrap());
}

#[test]
fn test_secp256k1_invalid_inputs() {
    let api = CryptoApi::default();
    let msg = b"test message";

    // Test invalid private key
    let invalid_privkey = vec![1u8; 31]; // Wrong length
    assert!(api.secp256k1_sign(msg, &invalid_privkey).is_err());

    // Test invalid signature
    let invalid_sig = vec![0u8; 63]; // Invalid signature bytes
    let valid_pubkey = vec![1u8; 65]; // Valid length public key
    assert!(api.secp256k1_verify(msg, &invalid_sig, &valid_pubkey).is_err());

    // Test invalid public key
    let valid_sig = vec![1u8; 64]; // Valid length signature
    let invalid_pubkey = vec![1u8; 64]; // Wrong length
    assert!(api.secp256k1_verify(msg, &valid_sig, &invalid_pubkey).is_err());
}

#[test]
fn test_ed25519_success() {
    let api = CryptoApi::default();
    let msg = b"test message";

    // Generate key pair
    let (privkey, pubkey) = api.ed25519_generate_key().unwrap();

    // Test signing
    let sig = api.ed25519_sign(msg, &privkey).unwrap();

    // Test verification
    assert!(api.ed25519_verify(msg, &sig, &pubkey).unwrap());

    // Test with different message
    let different_msg = b"different message";
    assert!(!api.ed25519_verify(different_msg, &sig, &pubkey).unwrap());
}

#[test]
fn test_ed25519_invalid_inputs() {
    let api = CryptoApi::default();
    let msg = b"test message";

    // Test invalid private key
    let invalid_privkey = vec![1u8; 31]; // Wrong length
    assert!(api.ed25519_sign(msg, &invalid_privkey).is_err());

    // Generate valid keypair for testing
    let (_, pubkey) = api.ed25519_generate_key().unwrap();

    // Test invalid signature
    let invalid_sig = vec![0u8; 63]; // Wrong length
    assert!(api.ed25519_verify(msg, &invalid_sig, &pubkey).is_err());

    // Test invalid public key
    let valid_sig = vec![1u8; 64]; // Valid length signature
    let invalid_pubkey = vec![1u8; 31]; // Wrong length
    assert!(api.ed25519_verify(msg, &valid_sig, &invalid_pubkey).is_err());
}

#[test]
fn secp256k1_error_kinds() {
    let api = CryptoApi::new();
    assert_eq!(api.secp256k1_verify(b"m", &[0u8; 63], &[1u8; 65]), Err(CryptoError::InvalidSignature));
    assert_eq!(api.secp256k1_verify(b"m", &[1u8; 64], &[1u8; 64]), Err(CryptoError::InvalidKey));
    assert_eq!(api.secp256k1_verify(b"m", &[1u8; 64], &[1u8; 33]), Err(CryptoError::InvalidKey));
    assert_eq!(api.secp256k1_sign(b"m", &[0u8; 32]), Err(CryptoError::InvalidKey));
}

#[test]
fn secp256k1_signature_rejects_other_message() {
    let api = CryptoApi::new();
    let sk = [3u8; 32];
    let sig = api.secp256k1_sign(b"one", &sk).unwrap();
    assert_eq!(sig.len(), 64);
    let pk = SigningKey::from_slice(&sk).unwrap().verifying_key().to_encoded_point(true).to_bytes();
    assert_eq!(api.secp256k1_verify(b"one", &sig, &pk), Ok(true));
    assert_eq!(api.secp256k1_verify(b"two", &sig, &pk), Ok(false));
}

#[test]
fn ed25519_signing_is_deterministic() {
    let api = CryptoApi::new();
    let a = api.ed25519_sign(b"x", &[9u8; 32]).unwrap();
    let b = api.ed25519_sign(b"x", &[9u8; 32]).unwrap();
    assert_eq!(a, b);
    assert_eq!(a.len(), 64);
    assert_eq!(api.ed25519_verify(b"x", &a, &[0u8; 3]), Err(CryptoError::InvalidKey));
}
