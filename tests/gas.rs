use wasmlanche::error::Error;
use wasmlanche::gas::{
    GasCounter, GAS_CONTRACT_CALL_BASE, GAS_CRYPTO_BASE, GAS_EVENT_BASE, MAX_EVENT_DATA_SIZE,
    MAX_EVENT_NAME_LENGTH, MAX_GAS, MAX_STATE_KEY_SIZE, MAX_STATE_VALUE_SIZE,
};

#[test]
fn test_gas_counter() {
    let mut counter = GasCounter::default();
    assert_eq!(counter.gas_remaining(), MAX_GAS);

    // Test successful gas charge
    counter.charge_gas(100).unwrap();
    assert_eq!(counter.gas_remaining(), MAX_GAS - 100);

    // Test out of gas
    assert!(counter.charge_gas(MAX_GAS).is_err());
}

#[test]
fn crossing_the_ceiling_fails_without_partial_charge() {
    let mut counter = GasCounter::new(100);
    assert!(counter.charge_gas(40).is_ok());
    assert!(counter.charge_gas(50).is_ok());
    assert_eq!(counter.gas_remaining(), 10);
    assert!(matches!(counter.charge_gas(11), Err(Error::Gas(_))));
    assert_eq!(counter.gas_remaining(), 10);
    assert!(counter.charge_gas(10).is_ok());
    assert_eq!(counter.gas_remaining(), 0);
    assert!(counter.charge_gas(1).is_err());
    assert!(counter.charge_gas(0).is_ok());
}

#[test]
fn cost_formulas() {
    let mut counter = GasCounter::new(10_000);
    counter.charge_memory(7).unwrap();
    assert_eq!(counter.gas_remaining(), 10_000 - 7);
    let mut counter = GasCounter::new(10_000);
    counter.charge_state_store(3, 4).unwrap();
    assert_eq!(counter.gas_remaining(), 10_000 - 70);
    let mut counter = GasCounter::new(10_000);
    counter.charge_state_load(6).unwrap();
    assert_eq!(counter.gas_remaining(), 10_000 - 30);
    let mut counter = GasCounter::new(10_000);
    counter.charge_contract_call(5).unwrap();
    assert_eq!(counter.gas_remaining(), 10_000 - GAS_CONTRACT_CALL_BASE - 5);
    let mut counter = GasCounter::new(10_000);
    counter.charge_event(4, 9).unwrap();
    assert_eq!(counter.gas_remaining(), 10_000 - GAS_EVENT_BASE - 9);
    let mut counter = GasCounter::new(10_000);
    counter.charge_crypto(8).unwrap();
    assert_eq!(counter.gas_remaining(), 10_000 - GAS_CRYPTO_BASE - 16);
}

#[test]
fn size_limits_are_too_expensive() {
    let mut counter = GasCounter::new(u64::MAX);
    assert!(matches!(counter.charge_state_store(MAX_STATE_KEY_SIZE + 1, 0), Err(Error::TooExpensive(_))));
    assert!(matches!(counter.charge_state_store(0, MAX_STATE_VALUE_SIZE + 1), Err(Error::TooExpensive(_))));
    assert!(matches!(counter.charge_state_load(MAX_STATE_KEY_SIZE + 1), Err(Error::TooExpensive(_))));
    assert!(matches!(counter.charge_event(MAX_EVENT_NAME_LENGTH + 1, 0), Err(Error::TooExpensive(_))));
    assert!(matches!(counter.charge_event(0, MAX_EVENT_DATA_SIZE + 1), Err(Error::TooExpensive(_))));
    assert_eq!(counter.gas_remaining(), u64::MAX);
}

#[test]
fn failed_formula_charge_leaves_meter() {
    let mut counter = GasCounter::new(GAS_CONTRACT_CALL_BASE + 2);
    assert!(matches!(counter.charge_contract_call(3), Err(Error::Gas(_))));
    assert_eq!(counter.gas_remaining(), GAS_CONTRACT_CALL_BASE + 2);
    assert!(counter.charge_contract_call(2).is_ok());
    assert_eq!(counter.gas_remaining(), 0);
}
