use borsh::{BorshDeserialize, BorshSerialize};
use wasmlanche::context::Context;
use wasmlanche::error::Error;
use wasmlanche::events::Event;
use wasmlanche::gas::{GasCounter, GAS_CONTRACT_CALL_BASE, MAX_GAS};
use wasmlanche::host::{Host, HostState};
use wasmlanche::safety::MAX_CALL_DEPTH;
use wasmlanche::types::WasmlAddress;

fn context_for(actor: WasmlAddress) -> Context {
    Context::new(actor, 1, 1000, Host::new(HostState::default()), None)
}

#[test]
fn test_context() {
    let host = Host::new(HostState::default());
    let mut context = Context::new(WasmlAddress::new(vec![1, 2, 3]), 0, 0, host, None);

    // Test event handling
    let event = Event::StateChange { key: b"key".to_vec(), value: b"value".to_vec() };
    context.add_event(event).unwrap();
    let events = context.get_events();
    assert_eq!(events.len(), 1);
}

#[test]
fn context_test_state_operations() {
    let mut context = context_for(WasmlAddress::new(vec![1; 32]));
    let key = b"test_state".to_vec();

    // Test state operations
    let state = 42u32.try_to_vec().unwrap();
    context.store_state(&key, &state).unwrap();

    let retrieved = context.get_state(&key).unwrap().map(|v| u32::try_from_slice(&v).unwrap());
    assert_eq!(retrieved.unwrap(), 42);

    let deleted = context.delete_state(&key).unwrap().map(|v| u32::try_from_slice(&v).unwrap());
    assert_eq!(deleted.unwrap(), 42);

    let empty = context.get_state(&key).unwrap();
    assert!(empty.is_none());
}

#[test]
fn test_safety_features() {
    let mut context = context_for(WasmlAddress::new(vec![1; 32]));

    // Test nonce verification
    let actor = WasmlAddress::new(vec![2; 32]);
    assert_eq!(context.get_nonce(&actor), 0);

    // Initialize balance
    context.set_balance(&actor, 1000);

    // Test transfer with nonce 0
    let result = context.transfer(&actor, &WasmlAddress::new(vec![3; 32]), 100, Some(0));
    assert!(result.is_ok());
    assert_eq!(context.get_nonce(&actor), 1);

    // Test transfer with wrong nonce (should be 1, but we use 0)
    let result = context.transfer(&actor, &WasmlAddress::new(vec![3; 32]), 100, Some(0));
    assert!(result.is_err());
    if let Err(Error::InvalidNonce(_)) = result {
        // Expected error
    } else {
        panic!("Expected InvalidNonce error");
    }

    // Test call depth by making nested calls up to MAX_CALL_DEPTH
    let mut frames = Vec::new();
    for _ in 0..8 {
        frames.push(context.begin_call(0, 1000).unwrap());
    }

    // Test exceeding max call depth
    let result = context.begin_call(0, 1000);
    assert!(result.is_err());
    if let Err(Error::MaxDepthExceeded(_)) = result {
        // Expected error
    } else {
        panic!("Expected MaxDepthExceeded error");
    }

    // Reset call depth
    while let Some(frame) = frames.pop() {
        context.end_call(frame);
    }

    // Test protocol version
    assert!(context.check_protocol_version(1).is_ok());
    assert!(context.check_protocol_version(2).is_err());
}

#[test]
fn test_host_state() {
    let mut host = Host::new(HostState::default());

    // Test store_state
    host.store_state(b"key", b"value").unwrap();

    // Test get_state
    let value = host.get_state(b"key").unwrap();
    assert_eq!(value, Some(b"value".to_vec()));

    // Test delete_state
    let deleted = host.delete_state(b"key").unwrap();
    assert_eq!(deleted, Some(b"value".to_vec()));

    // Verify state is deleted
    let value = host.get_state(b"key").unwrap();
    assert_eq!(value, None);
}

#[test]
fn test_gas_charging() {
    let mut host = Host::new(HostState::default());

    // Test charging gas
    host.charge_gas(100).unwrap();
    assert_eq!(host.remaining_gas(), Some(999900));

    // Test charging more than remaining
    assert!(host.charge_gas(1000000).is_err());
}

#[test]
fn test_balance_operations() {
    let mut host = Host::new(HostState::default());
    let account = WasmlAddress::new(vec![1, 2, 3]);

    // Test initial balance
    assert_eq!(host.get_balance(&account), 0);

    // Test setting balance
    host.set_balance(&account, 100);
    assert_eq!(host.get_balance(&account), 100);
}

#[test]
fn state_round_trip_then_delete() {
    let mut context = context_for(WasmlAddress::new(vec![7; 32]));
    let key = b"K".to_vec();
    context.store_state(&key, &42i64.try_to_vec().unwrap()).unwrap();
    let got = context.get_state(&key).unwrap().map(|v| i64::try_from_slice(&v).unwrap());
    assert_eq!(got, Some(42i64));
    context.delete_state(&key).unwrap();
    assert_eq!(context.get_state(&key).unwrap(), None);
}

#[test]
fn balance_transfer_and_insufficient_funds() {
    let x = WasmlAddress::new(b"X".to_vec());
    let y = WasmlAddress::new(b"Y".to_vec());
    let mut context = context_for(x.clone());
    context.set_balance(&x, 1000);
    assert!(context.send(&y, 100).is_ok());
    assert_eq!(context.get_balance(&x).unwrap(), 900);
    assert_eq!(context.get_balance(&y).unwrap(), 100);
    assert!(matches!(context.send(&y, 1000), Err(Error::State(_))));
    assert_eq!(context.get_balance(&x).unwrap(), 900);
    assert_eq!(context.get_balance(&y).unwrap(), 100);
    // The failed send consumed no nonce: the next one goes through.
    assert!(context.send(&y, 900).is_ok());
    assert_eq!(context.get_balance(&x).unwrap(), 0);
    assert_eq!(context.get_balance(&y).unwrap(), 1000);
}

#[test]
fn transfer_to_self_keeps_balance() {
    let x = WasmlAddress::new(b"X".to_vec());
    let mut context = context_for(x.clone());
    context.set_balance(&x, 50);
    assert!(context.transfer(&x, &x, 20, None).is_ok());
    assert_eq!(context.get_balance(&x).unwrap(), 50);
    assert_eq!(context.get_nonce(&x), 1);
}

#[test]
fn out_of_gas_sub_call_costs_only_the_base() {
    let mut context = context_for(WasmlAddress::new(vec![1; 32]));
    let before = context.remaining_gas();
    let frame = context.begin_call(0, 1).unwrap();
    assert_eq!(frame.budget_value(), 1);
    // The callee's cheapest operation, a state load of a one-byte key,
    // costs five.
    assert!(matches!(context.get_state(b"k"), Err(Error::Gas(_))));
    context.end_call(frame);
    assert_eq!(context.remaining_gas(), before - GAS_CONTRACT_CALL_BASE);
}

#[test]
fn sub_call_is_charged_what_it_used() {
    let mut context = context_for(WasmlAddress::new(vec![1; 32]));
    let before = context.remaining_gas();
    let frame = context.begin_call(4, 500).unwrap();
    context.store_state(b"ab", b"c").unwrap();
    context.end_call(frame);
    assert_eq!(context.remaining_gas(), before - (GAS_CONTRACT_CALL_BASE + 4) - 30);
}

#[test]
fn sub_budget_never_exceeds_callers_gas() {
    let host = Host::new(HostState::new(GasCounter::new(150)));
    let mut context = Context::new(WasmlAddress::new(vec![1]), 0, 0, host, None);
    let frame = context.begin_call(0, 1_000_000).unwrap();
    assert_eq!(frame.budget_value(), 50);
    assert_eq!(context.remaining_gas(), 50);
    context.end_call(frame);
    assert_eq!(context.remaining_gas(), 50);
}

#[test]
fn reentrant_calls_stop_at_max_depth_and_keep_effects() {
    let mut context = context_for(WasmlAddress::new(vec![9; 32]));
    let mut frames = Vec::new();
    let mut failure = None;
    for depth in 0..=MAX_CALL_DEPTH {
        match context.begin_call(0, 50_000) {
            Ok(frame) => {
                context.store_state(&[depth as u8], &[depth as u8]).unwrap();
                frames.push(frame);
            }
            Err(e) => {
                failure = Some((depth, e));
                break;
            }
        }
    }
    let (depth, error) = failure.unwrap();
    assert_eq!(depth, MAX_CALL_DEPTH);
    assert!(matches!(error, Error::MaxDepthExceeded(_)));
    while let Some(frame) = frames.pop() {
        context.end_call(frame);
    }
    for depth in 0..MAX_CALL_DEPTH {
        assert_eq!(context.get_state(&[depth as u8]).unwrap(), Some(vec![depth as u8]));
    }
    // Depth is back to zero: a fresh call goes through.
    let frame = context.begin_call(0, 10).unwrap();
    context.end_call(frame);
}

#[test]
fn call_contract_restores_depth_on_failure() {
    let mut context = context_for(WasmlAddress::new(vec![1; 32]));
    let before = context.remaining_gas();
    assert!(context.call_contract(b"target", "run", b"", MAX_GAS).is_err());
    assert_eq!(context.remaining_gas(), before - GAS_CONTRACT_CALL_BASE);
    for _ in 0..MAX_CALL_DEPTH {
        assert!(context.call_contract(b"target", "run", b"", 10).is_ok());
    }
}

#[test]
fn context_with_own_meter() {
    let context = Context::new(
        WasmlAddress::new(vec![1]),
        5,
        77,
        Host::new(HostState::default()),
        Some(GasCounter::new(10)),
    );
    assert_eq!(context.remaining_gas(), 10);
    assert_eq!(context.height(), 5);
    assert_eq!(context.timestamp(), 77);
    assert_eq!(context.actor().as_bytes(), &[1]);
}

#[test]
fn call_contract_gas_outcomes() {
    let mut context = context_for(WasmlAddress::new(vec![1; 32]));
    let before = context.remaining_gas();
    let out = context.call_contract(b"t", "m", b"ab", 40).unwrap();
    assert!(out.is_empty());
    assert_eq!(context.remaining_gas(), before - (GAS_CONTRACT_CALL_BASE + 2) - 40);
}

#[test]
fn add_event_is_metered() {
    let mut context = Context::new(
        WasmlAddress::new(vec![1]),
        0,
        0,
        Host::new(HostState::default()),
        Some(GasCounter::new(20)),
    );
    let event = Event::StateChange { key: b"k".to_vec(), value: vec![0; 5] };
    context.add_event(event).unwrap();
    assert_eq!(context.remaining_gas(), 20 - 15);
    let event = Event::StateChange { key: b"k".to_vec(), value: vec![0; 5] };
    assert!(matches!(context.add_event(event), Err(Error::Gas(_))));
    assert_eq!(context.get_events().len(), 1);
}
