use ed25519_dalek::Signer;
use sha2::{Digest, Sha256};
use sha3::Keccak256;
use wasmlanche::error::Error;
use wasmlanche::hash::StateHasher;
use wasmlanche::host::{Host, HostState};
use wasmlanche::order::compare_bytes;
use wasmlanche::sim::{Address, SimpleState};

#[test]
fn test_state_hasher() {
    let mut hasher = StateHasher::new();

    // Test adding values
    hasher.record_change("key1".to_string(), Some(vec![1, 2, 3]));
    hasher.record_change("key2".to_string(), Some(vec![4, 5, 6]));

    let hash1 = hasher.calculate_hash();

    // Test deterministic ordering
    let mut hasher2 = StateHasher::new();
    hasher2.record_change("key2".to_string(), Some(vec![4, 5, 6]));
    hasher2.record_change("key1".to_string(), Some(vec![1, 2, 3]));

    let hash2 = hasher2.calculate_hash();

    assert_eq!(hash1, hash2, "Hashes should be equal regardless of insertion order");

    // Test deletions
    hasher.record_change("key1".to_string(), None);
    let hash3 = hasher.calculate_hash();
    assert_ne!(hash1, hash3, "Hash should change after deletion");
}

#[test]
fn state_hash_preimage_layout() {
    let mut hasher = StateHasher::new();
    hasher.record_change("b".to_string(), None);
    hasher.record_change("a".to_string(), Some(vec![9]));
    hasher.record_change("b".to_string(), Some(vec![]));
    let expected: Vec<u8> = Sha256::digest([b'a', 1, 9, b'b', 1]).to_vec();
    assert_eq!(hasher.calculate_hash(), expected);
    let empty: Vec<u8> = Sha256::digest([]).to_vec();
    assert_eq!(StateHasher::new().calculate_hash(), empty);
}

#[test]
fn byte_order_is_lexicographic() {
    assert!(compare_bytes(b"a", b"b") < 0);
    assert!(compare_bytes(b"ab", b"a") > 0);
    assert!(compare_bytes(b"", b"a") < 0);
    assert_eq!(compare_bytes(b"same", b"same"), 0);
    assert!(compare_bytes(&[0xff], &[0x00, 0x01]) > 0);
}

#[test]
fn host_digests() {
    let host = Host::new(HostState::default());
    let sha: [u8; 32] = Sha256::digest(b"abc").into();
    assert_eq!(host.sha256(b"abc").unwrap(), sha);
    let keccak: [u8; 32] = Keccak256::digest(b"abc").into();
    assert_eq!(host.keccak256(b"abc").unwrap(), keccak);
    assert_ne!(sha, keccak);
}

#[test]
fn host_ed25519_verify() {
    let host = Host::new(HostState::default());
    let key = ed25519_dalek::SigningKey::from_bytes(&[5u8; 32]);
    let sig = key.sign(b"hello").to_bytes();
    let pk = key.verifying_key().to_bytes();
    assert_eq!(host.ed25519_verify(&pk, b"hello", &sig), Ok(true));
    assert_eq!(host.ed25519_verify(&pk, b"bye", &sig), Ok(false));
    assert!(matches!(host.ed25519_verify(&pk[..31], b"hello", &sig), Err(Error::Crypto(_))));
}

#[test]
fn error_messages() {
    assert_eq!(Error::Gas("Out of gas".to_string()).message(), "Gas error: Out of gas");
    assert_eq!(
        Error::MaxDepthExceeded("deep".to_string()).message(),
        "Max depth exceeded error: deep"
    );
}

#[test]
fn simulated_chain_state() {
    let mut state = SimpleState::new();
    state.insert(b"k".to_vec(), b"v".to_vec());
    assert_eq!(state.get_value(b"k"), Some(&b"v"[..]));
    state.remove(b"k");
    assert_eq!(state.get_value(b"k"), None);
    let addr = Address::new(vec![1, 2]);
    assert_eq!(addr.as_bytes(), &[1, 2]);
    assert_eq!(addr.to_vec(), vec![1, 2]);
}
