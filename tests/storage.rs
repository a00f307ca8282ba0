use sha2::{Digest, Sha256};
use wasmlanche::storage::{CodeStorage, StorageError};
use wasmlanche::testing::{Order, ThreadSafeApi, ThreadSafeQuerier, ThreadSafeStorage};

#[test]
fn test_code_storage() {
    let mut storage = CodeStorage::new();

    // Store code
    let code = vec![1, 2, 3, 4];
    let id = storage.store_code(code.clone()).unwrap();

    // Get code
    let retrieved = storage.get_code(id).unwrap();
    assert_eq!(retrieved, code);

    // Verify code
    let mut hasher = Sha256::new();
    hasher.update(&code);
    let checksum: [u8; 32] = hasher.finalize().into();

    assert!(storage.verify_code(id, &checksum).unwrap());

    // Remove code
    storage.remove_code(id).unwrap();
    assert!(storage.get_code(id).is_err());
}

#[test]
fn code_ids_increase_and_checksums_differ() {
    let mut storage = CodeStorage::new();
    let a = storage.store_code(vec![1]).unwrap();
    let b = storage.store_code(vec![2]).unwrap();
    assert_eq!(a, 1);
    assert_eq!(b, 2);
    let checksum_a: [u8; 32] = Sha256::digest([1u8]).into();
    assert!(storage.verify_code(a, &checksum_a).unwrap());
    assert!(!storage.verify_code(b, &checksum_a).unwrap());
    assert_eq!(storage.get_code(9), Err(StorageError::CodeNotFound(9)));
    assert_eq!(storage.remove_code(9), Err(StorageError::CodeNotFound(9)));
    storage.remove_code(a).unwrap();
    assert_eq!(storage.store_code(vec![3]).unwrap(), 3);
}

#[test]
fn test_storage() {
    let mut storage = ThreadSafeStorage::new();

    // Test set and get
    let key = b"test_key".to_vec();
    let value = b"test_value".to_vec();
    storage.set(&key, &value);

    assert_eq!(storage.get(&key), Some(value.clone()));

    // Test remove
    storage.remove(&key);
    assert_eq!(storage.get(&key), None);

    // Test range
    let test_data = vec![
        (b"a".to_vec(), b"1".to_vec()),
        (b"b".to_vec(), b"2".to_vec()),
        (b"c".to_vec(), b"3".to_vec()),
    ];

    for (k, v) in &test_data {
        storage.set(k, v);
    }

    let range_result: Vec<(Vec<u8>, Vec<u8>)> = storage
        .range(Some(b"a"), Some(b"c"), Order::Ascending);

    assert_eq!(range_result.len(), 2);

    assert_eq!(&range_result[0].0, b"a");
    assert_eq!(&range_result[0].1, b"1");
    assert_eq!(&range_result[1].0, b"b");
    assert_eq!(&range_result[1].1, b"2");
}

#[test]
fn storage_range_orders_and_bounds() {
    let mut storage = ThreadSafeStorage::new();
    for k in [&b"d"[..], b"b", b"ab", b"a", b"c"] {
        storage.set(k, k);
    }
    let all: Vec<Vec<u8>> = storage.range(None, None, Order::Ascending).into_iter().map(|(k, _)| k).collect();
    assert_eq!(all, vec![b"a".to_vec(), b"ab".to_vec(), b"b".to_vec(), b"c".to_vec(), b"d".to_vec()]);
    let down: Vec<Vec<u8>> = storage.range(Some(b"ab"), None, Order::Descending).into_iter().map(|(k, _)| k).collect();
    assert_eq!(down, vec![b"d".to_vec(), b"c".to_vec(), b"b".to_vec(), b"ab".to_vec()]);
    assert!(storage.range(Some(b"x"), None, Order::Ascending).is_empty());
    assert!(storage.range(Some(b"c"), Some(b"c"), Order::Ascending).is_empty());
}

#[test]
fn collaborator_stubs() {
    let api = ThreadSafeApi::new();
    assert!(api.addr_validate("anyone"));
    assert_eq!(api.verify(b"m", b"s", b"k"), Ok(true));
    let querier = ThreadSafeQuerier::new();
    assert_eq!(querier.raw_query(b"q"), Ok(Vec::new()));
}
