use ed25519_dalek::Signer;
use k256::ecdsa::SigningKey;
use wasmlanche::error::ExecutorError;
use wasmlanche::executor::{finish_call, pack_result, prepare_call, unpack_result, ExportOutcome};
use wasmlanche::imports::{HostEnv, VERIFY_FAILED, VERIFY_MALFORMED, VERIFY_OK};
use wasmlanche::memory::HEAP_BASE;
use wasmlanche::testing::ThreadSafeStorage;

fn host() -> HostEnv {
    HostEnv::new(ThreadSafeStorage::new(), 1_000_000)
}

fn put(env: &mut HostEnv, data: &[u8]) -> u32 {
    env.write_args(data).unwrap()
}

#[test]
fn db_write_then_read_round_trips() {
    let mut env = host();
    let key = put(&mut env, b"counter");
    let value = put(&mut env, &[1, 2, 3, 4]);
    env.db_write(key, value).unwrap();
    let out = env.db_read(key).unwrap();
    assert_ne!(out, 0);
    assert_eq!(env.memory().decode(out, 4).unwrap(), vec![1, 2, 3, 4]);
}

#[test]
fn db_read_of_missing_key_is_zero() {
    let mut env = host();
    let key = put(&mut env, b"absent");
    assert_eq!(env.db_read(key).unwrap(), 0);
}

#[test]
fn db_remove_deletes() {
    let mut env = host();
    let key = put(&mut env, b"k");
    let value = put(&mut env, b"v");
    env.db_write(key, value).unwrap();
    env.db_remove(key).unwrap();
    assert_eq!(env.db_read(key).unwrap(), 0);
}

#[test]
fn malformed_region_is_a_memory_error() {
    let mut env = host();
    assert!(matches!(env.db_read(u32::MAX - 2), Err(ExecutorError::MemoryAccessError(_))));
    let big_key = put(&mut env, &vec![0u8; 2000]);
    assert!(matches!(env.db_read(big_key), Err(ExecutorError::MemoryAccessError(_))));
}

#[test]
fn imports_run_out_of_gas() {
    let mut env = HostEnv::new(ThreadSafeStorage::new(), 1_000_000);
    let key = put(&mut env, b"key");
    let value = put(&mut env, b"value");
    env.set_gas_limit(40);
    assert!(matches!(env.db_write(key, value), Err(ExecutorError::GasLimitExceeded)));
    assert!(matches!(env.charge_gas(1_000), Err(ExecutorError::GasLimitExceeded)));
}

#[test]
fn debug_and_abort_messages() {
    let mut env = host();
    let msg = put(&mut env, "héllo".as_bytes());
    assert_eq!(env.debug(msg).unwrap(), "héllo");
    match env.abort(msg) {
        Err(ExecutorError::ExecutionError(m)) => assert_eq!(m, "Contract aborted: héllo"),
        other => panic!("unexpected {:?}", other),
    }
    let bad = put(&mut env, &[0xff, 0xfe]);
    assert!(matches!(env.debug(bad), Err(ExecutorError::HostFunctionError(_))));
}

#[test]
fn balance_imports() {
    let mut env = host();
    let account = put(&mut env, b"alice");
    assert_eq!(env.get_balance(account).unwrap(), 0);
    env.set_balance(account, 77).unwrap();
    assert_eq!(env.get_balance(account).unwrap(), 77);
}

#[test]
fn allocate_and_deallocate_imports() {
    let mut env = host();
    let p = env.allocate(10).unwrap();
    assert_eq!(p, HEAP_BASE);
    assert!(env.allocate(0).is_err());
    assert!(env.deallocate(p).is_ok());
    assert!(env.deallocate(p).is_err());
}

#[test]
fn ed25519_verify_import_tri_state() {
    let mut env = host();
    let signing = ed25519_dalek::SigningKey::from_bytes(&[7u8; 32]);
    let public = signing.verifying_key().to_bytes();
    let sig = signing.sign(b"msg").to_bytes();
    let m = put(&mut env, b"msg");
    let other = put(&mut env, b"other");
    let s = put(&mut env, &sig);
    let k = put(&mut env, &public);
    let short = put(&mut env, &[1u8; 31]);
    assert_eq!(env.ed25519_verify(m, s, k).unwrap(), VERIFY_OK);
    assert_eq!(env.ed25519_verify(other, s, k).unwrap(), VERIFY_FAILED);
    assert_eq!(env.ed25519_verify(m, s, short).unwrap(), VERIFY_MALFORMED);
}

#[test]
fn secp256k1_verify_import_malformed() {
    let mut env = host();
    let m = put(&mut env, b"msg");
    let s = put(&mut env, &[0u8; 63]);
    let k = put(&mut env, &[1u8; 65]);
    assert_eq!(env.secp256k1_verify(m, s, k).unwrap(), VERIFY_MALFORMED);
}

#[test]
fn executor_packs_and_unpacks() {
    let v = pack_result(0x1234, 0x56);
    assert_eq!(v, (0x1234u64 << 32) | 0x56);
    assert_eq!(unpack_result(v), (0x1234, 0x56));
}

#[test]
fn executor_finishes_calls() {
    let mut env = host();
    let args = prepare_call(&mut env, b"input").unwrap();
    assert_eq!(env.memory().decode(args, 100).unwrap(), b"input".to_vec());
    let out = finish_call(env.memory(), "run", ExportOutcome::Returned(pack_result(args + 4, 5))).unwrap();
    assert_eq!(out, b"input".to_vec());
    assert!(matches!(
        finish_call(env.memory(), "run", ExportOutcome::Missing),
        Err(ExecutorError::EntryPointNotFound(_))
    ));
    assert!(matches!(
        finish_call(env.memory(), "run", ExportOutcome::WrongSignature),
        Err(ExecutorError::ExecutionError(_))
    ));
    assert!(matches!(
        finish_call(env.memory(), "run", ExportOutcome::Trapped("unreachable".to_string())),
        Err(ExecutorError::ExecutionError(_))
    ));
    assert!(finish_call(env.memory(), "run", ExportOutcome::Returned(pack_result(u32::MAX, 8))).is_err());
}

#[test]
fn host_nested_call_protocol() {
    let mut env = host();
    let target = put(&mut env, b"callee");
    let method = put(&mut env, b"run");
    let args = put(&mut env, b"xyz");
    let before = env.gas_remaining();
    let (frame, request) = env.begin_call(target, method, args, 1).unwrap();
    assert_eq!(request.target, b"callee".to_vec());
    assert_eq!(request.method, b"run".to_vec());
    assert_eq!(request.args, b"xyz".to_vec());
    assert_eq!(env.gas_remaining(), 1);
    // The callee cannot afford more than its budget.
    assert!(matches!(env.charge_gas(2), Err(ExecutorError::GasLimitExceeded)));
    env.end_call(frame);
    // Reading the three regions (12 bytes) and the base cost with three
    // argument bytes; the callee used nothing.
    assert_eq!(env.gas_remaining(), before - 12 - (100 + 3));
    assert_eq!(env.return_call_result(None).unwrap(), 0);
    let out = env.return_call_result(Some(b"done".to_vec())).unwrap();
    assert_eq!(env.memory().decode(out, 4).unwrap(), b"done".to_vec());
}

#[test]
fn host_nested_calls_are_depth_bounded() {
    let mut env = host();
    let target = put(&mut env, b"self");
    let method = put(&mut env, b"recurse");
    let args = put(&mut env, b"");
    let mut frames = Vec::new();
    let mut failed_at = None;
    for depth in 0..20 {
        match env.begin_call(target, method, args, 100_000) {
            Ok((frame, _)) => frames.push(frame),
            Err(e) => {
                failed_at = Some((depth, e));
                break;
            }
        }
    }
    let (depth, error) = failed_at.unwrap();
    assert_eq!(depth, wasmlanche::safety::MAX_CALL_DEPTH);
    assert!(matches!(error, ExecutorError::MaxDepthExceeded(_)));
    while let Some(frame) = frames.pop() {
        env.end_call(frame);
    }
    assert!(env.begin_call(target, method, args, 10).is_ok());
}

fn framed(items: &[&[u8]]) -> Vec<u8> {
    let mut out = Vec::new();
    for item in items {
        out.extend_from_slice(&(item.len() as u32).to_le_bytes());
        out.extend_from_slice(item);
    }
    out
}

#[test]
fn address_imports() {
    let mut env = host();
    let addr = put(&mut env, b"wasm1alice");
    assert_eq!(env.addr_validate(addr).unwrap(), 0);
    let canonical = env.addr_canonicalize(addr).unwrap();
    assert_eq!(env.memory().decode(canonical, 100).unwrap(), b"wasm1alice".to_vec());
    let human = env.addr_humanize(canonical).unwrap();
    assert_eq!(env.memory().decode(human, 100).unwrap(), b"wasm1alice".to_vec());
    let bad = put(&mut env, &[0xff, 0x00]);
    assert_eq!(env.addr_humanize(bad).unwrap(), 0);
    assert!(matches!(env.addr_validate(bad), Err(ExecutorError::HostFunctionError(_))));
}

#[test]
fn query_chain_import() {
    let mut env = host();
    let q = put(&mut env, b"{\"bank\":{}}");
    let answer = env.query_chain(q).unwrap();
    assert_ne!(answer, 0);
    assert_eq!(env.memory().decode(answer, 10).unwrap(), Vec::<u8>::new());
}

#[test]
fn recover_pubkey_import() {
    let key = SigningKey::from_slice(&[4u8; 32]).unwrap();
    let hash = [9u8; 32];
    let (sig, id) = key.sign_prehash_recoverable(&hash).unwrap();
    let expected = key.verifying_key().to_encoded_point(false).as_bytes().to_vec();
    let mut env = host();
    let h = put(&mut env, &hash);
    let s = put(&mut env, &sig.to_bytes());
    let packed = env.secp256k1_recover_pubkey(h, s, id.to_byte() as u32).unwrap();
    let (ptr, len) = unpack_result(packed);
    assert_eq!(len as usize, expected.len());
    assert_eq!(env.memory().decode(ptr, 100).unwrap(), expected);
    let short = put(&mut env, &[0u8; 10]);
    assert_eq!(env.secp256k1_recover_pubkey(h, short, 0).unwrap(), 0);
    assert_eq!(env.secp256k1_recover_pubkey(h, s, 7).unwrap(), 0);
}

#[test]
fn ed25519_batch_verify_import() {
    let a = ed25519_dalek::SigningKey::from_bytes(&[1u8; 32]);
    let b = ed25519_dalek::SigningKey::from_bytes(&[2u8; 32]);
    let sa = a.sign(b"one").to_bytes();
    let sb = b.sign(b"two").to_bytes();
    let ka = a.verifying_key().to_bytes();
    let kb = b.verifying_key().to_bytes();
    let mut env = host();
    let ms = put(&mut env, &framed(&[b"one", b"two"]));
    let ss = put(&mut env, &framed(&[&sa, &sb]));
    let ks = put(&mut env, &framed(&[&ka, &kb]));
    assert_eq!(env.ed25519_batch_verify(ms, ss, ks).unwrap(), VERIFY_OK);
    let swapped = put(&mut env, &framed(&[&kb, &ka]));
    assert_eq!(env.ed25519_batch_verify(ms, ss, swapped).unwrap(), VERIFY_FAILED);
    let short = put(&mut env, &framed(&[&ka]));
    assert_eq!(env.ed25519_batch_verify(ms, ss, short).unwrap(), VERIFY_MALFORMED);
    let broken = put(&mut env, &[5, 0, 0, 0, 1]);
    assert_eq!(env.ed25519_batch_verify(ms, ss, broken).unwrap(), VERIFY_MALFORMED);
}

#[test]
fn allocate_import_moves_mark_and_keeps_state_on_failure() {
    let mut env = host();
    let first = env.allocate(5).unwrap();
    let second = env.allocate(3).unwrap();
    assert_eq!(second, first + 8);
    assert!(env.allocate(0).is_err());
    assert_eq!(env.allocate(1).unwrap(), second + 8);
    assert!(env.deallocate(first).is_ok());
    assert!(env.deallocate(first).is_err());
    assert!(env.deallocate(second).is_ok());
}
