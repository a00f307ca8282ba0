use wasmlanche::error::Error;
use wasmlanche::safety::{SafetyContext, SafetyManager, MAX_CALL_DEPTH, PROTOCOL_VERSION};

#[test]
fn test_call_depth() {
    let mut context = SafetyContext::new();

    // Test successful calls within limit
    for _ in 0..MAX_CALL_DEPTH {
        assert!(context.enter_call().is_ok());
    }

    // Test exceeding max depth
    assert!(context.enter_call().is_err());

    // Test call exit
    context.exit_call();
    assert!(context.enter_call().is_ok());
}

#[test]
fn test_nonce_verification() {
    let mut context = SafetyContext::new();
    let actor = vec![1, 2, 3];

    // Test initial nonce
    assert_eq!(context.get_nonce(&actor), 0);

    // Test successful nonce verification and increment
    assert!(context.verify_and_increment_nonce(&actor, 0).is_ok());
    assert_eq!(context.get_nonce(&actor), 1);

    // Test invalid nonce
    assert!(context.verify_and_increment_nonce(&actor, 0).is_err());
    assert!(context.verify_and_increment_nonce(&actor, 2).is_err());
    assert_eq!(context.get_nonce(&actor), 1);

    // Test successful sequential nonces
    assert!(context.verify_and_increment_nonce(&actor, 1).is_ok());
    assert!(context.verify_and_increment_nonce(&actor, 2).is_ok());
    assert_eq!(context.get_nonce(&actor), 3);
}

#[test]
fn test_protocol_version() {
    let context = SafetyContext::new();

    // Test matching version
    assert!(context.check_protocol_version(PROTOCOL_VERSION).is_ok());

    // Test mismatched version
    assert!(context.check_protocol_version(PROTOCOL_VERSION + 1).is_err());
    assert!(context.check_protocol_version(PROTOCOL_VERSION - 1).is_err());
}

#[test]
fn test_safety_manager() {
    let mut manager = SafetyManager::new();
    let actor = vec![1, 2, 3];

    // Test operations through the manager
    assert!(manager.enter_call().is_ok());
    assert!(manager.verify_and_increment_nonce(&actor, 0).is_ok());
    assert_eq!(manager.get_nonce(&actor), 1);
    assert!(manager.check_protocol_version(PROTOCOL_VERSION).is_ok());
    manager.exit_call();
}

#[test]
fn nonce_sequence_from_fresh_actor() {
    let mut context = SafetyContext::new();
    let actor = b"actor-a".to_vec();
    assert!(context.verify_and_increment_nonce(&actor, 0).is_ok());
    assert!(matches!(context.verify_and_increment_nonce(&actor, 0), Err(Error::InvalidNonce(_))));
    assert!(matches!(context.verify_and_increment_nonce(&actor, 2), Err(Error::InvalidNonce(_))));
    assert!(context.verify_and_increment_nonce(&actor, 1).is_ok());
    assert_eq!(context.get_nonce(&actor), 2);
}

#[test]
fn nonces_are_kept_per_actor() {
    let mut context = SafetyContext::new();
    assert!(context.verify_and_increment_nonce(b"a", 0).is_ok());
    assert!(context.verify_and_increment_nonce(b"a", 1).is_ok());
    assert_eq!(context.get_nonce(b"a"), 2);
    assert_eq!(context.get_nonce(b"b"), 0);
    assert!(context.verify_and_increment_nonce(b"b", 1).is_err());
    assert!(context.verify_and_increment_nonce(b"b", 0).is_ok());
}

#[test]
fn call_depth_bound_and_recovery() {
    let mut context = SafetyContext::new();
    for _ in 0..MAX_CALL_DEPTH {
        assert!(context.enter_call().is_ok());
    }
    assert!(matches!(context.enter_call(), Err(Error::MaxDepthExceeded(_))));
    assert!(matches!(context.enter_call(), Err(Error::MaxDepthExceeded(_))));
    context.exit_call();
    assert!(context.enter_call().is_ok());
    assert!(context.enter_call().is_err());
}

#[test]
fn exit_call_never_goes_below_zero() {
    let mut context = SafetyContext::new();
    context.exit_call();
    context.exit_call();
    for _ in 0..MAX_CALL_DEPTH {
        assert!(context.enter_call().is_ok());
    }
    assert!(context.enter_call().is_err());
}

#[test]
fn protocol_version_mismatch_is_typed() {
    let manager = SafetyManager::default();
    assert!(matches!(
        manager.check_protocol_version(PROTOCOL_VERSION + 7),
        Err(Error::InvalidProtocolVersion(_))
    ));
}
