use borsh::{BorshDeserialize, BorshSerialize};
use wasmlanche::error::EventError;
use wasmlanche::events::{Event, EventLog};
use wasmlanche::gas::{MAX_EVENTS_PER_CONTRACT, MAX_EVENT_DATA_SIZE, MAX_EVENT_NAME_LENGTH};
use wasmlanche::types::WasmlAddress;

#[test]
fn test_event_log() {
    let mut log = EventLog::new();
    let key = b"test_state".to_vec();

    // Test state operations
    let bytes = "test".to_string().try_to_vec().unwrap();
    log.store_state(&key, &bytes).unwrap();

    let retrieved = log.get_state(&key).map(|v| String::try_from_slice(v).unwrap());
    assert!(retrieved.is_some());
    assert_eq!(retrieved.unwrap(), "test");

    let deleted = log.delete_state(&key).unwrap().map(|v| String::try_from_slice(&v).unwrap());
    assert!(deleted.is_some());
    assert_eq!(deleted.unwrap(), "test");

    let retrieved = log.get_state(&key);
    assert!(retrieved.is_none());
}

#[test]
fn test_event_validation() {
    let contract_addr = WasmlAddress::new(vec![1, 2, 3]);

    // Test valid event
    let event = Event::Custom {
        contract_addr: contract_addr.clone(),
        name: "test_event".to_string(),
        data: vec![1, 2, 3],
        height: 1,
        timestamp: 1000,
    };
    let mut log = EventLog::new();
    assert!(log.add_event(event).is_ok());

    // Test name too long
    let long_name = "a".repeat(MAX_EVENT_NAME_LENGTH + 1);
    let event = Event::Custom {
        contract_addr: contract_addr.clone(),
        name: long_name,
        data: vec![1, 2, 3],
        height: 1,
        timestamp: 1000,
    };
    assert!(matches!(log.add_event(event), Err(EventError::NameTooLong(_))));

    // Test data too large
    let large_data = vec![0; MAX_EVENT_DATA_SIZE + 1];
    let event = Event::Custom {
        contract_addr: contract_addr.clone(),
        name: "test_event".to_string(),
        data: large_data,
        height: 1,
        timestamp: 1000,
    };
    assert!(matches!(log.add_event(event), Err(EventError::DataTooLarge(_))));

    // Test state change event
    let event = Event::StateChange {
        key: vec![1; MAX_EVENT_DATA_SIZE / 2],
        value: vec![2; MAX_EVENT_DATA_SIZE / 2 + 1],
    };
    assert!(matches!(log.add_event(event), Err(EventError::DataTooLarge(_))));

    // Test too many events
    let mut log = EventLog::new();
    for _ in 0..MAX_EVENTS_PER_CONTRACT {
        let event = Event::Custom {
            contract_addr: contract_addr.clone(),
            name: "test_event".to_string(),
            data: vec![1, 2, 3],
            height: 1,
            timestamp: 1000,
        };
        assert!(log.add_event(event).is_ok());
    }

    let event = Event::Custom {
        contract_addr: contract_addr.clone(),
        name: "test_event".to_string(),
        data: vec![1, 2, 3],
        height: 1,
        timestamp: 1000,
    };
    assert!(matches!(log.add_event(event), Err(EventError::TooManyEvents(_))));
}

#[test]
fn test_event_log_clear() {
    let mut log = EventLog::new();
    let contract_addr = WasmlAddress::new(vec![1, 2, 3]);

    // Add valid events
    for i in 0..MAX_EVENTS_PER_CONTRACT {
        let event = Event::Custom {
            contract_addr: contract_addr.clone(),
            name: format!("event_{}", i),
            data: vec![i as u8],
            height: 1,
            timestamp: 1000,
        };
        assert!(log.add_event(event).is_ok());
    }

    // Try to add one more event
    let event = Event::Custom {
        contract_addr: contract_addr,
        name: "one_more".to_string(),
        data: vec![0],
        height: 1,
        timestamp: 1000,
    };
    assert!(matches!(log.add_event(event), Err(EventError::TooManyEvents(_))));

    // Test clear
    log.clear();
    assert!(log.events().is_empty());
}

#[test]
fn state_change_event_writes_state() {
    let mut log = EventLog::new();
    let event = Event::StateChange { key: b"k".to_vec(), value: b"v".to_vec() };
    assert!(log.add_event(event).is_ok());
    assert_eq!(log.get_state(b"k"), Some(&b"v".to_vec()));
    assert_eq!(log.events().len(), 1);
}

#[test]
fn rejected_event_changes_nothing() {
    let mut log = EventLog::new();
    let event = Event::StateChange {
        key: vec![1; MAX_EVENT_DATA_SIZE],
        value: vec![2; 1],
    };
    assert!(matches!(log.add_event(event), Err(EventError::DataTooLarge(_))));
    assert!(log.events().is_empty());
    assert!(log.get_state(&vec![1; MAX_EVENT_DATA_SIZE]).is_none());
}

#[test]
fn event_name_limit_counts_bytes() {
    let mut log = EventLog::new();
    let at_limit = Event::Custom {
        contract_addr: WasmlAddress::default(),
        name: "a".repeat(MAX_EVENT_NAME_LENGTH),
        data: vec![],
        height: 0,
        timestamp: 0,
    };
    assert!(log.add_event(at_limit).is_ok());
    let multibyte = Event::Custom {
        contract_addr: WasmlAddress::default(),
        name: "é".repeat(MAX_EVENT_NAME_LENGTH / 2 + 1),
        data: vec![],
        height: 0,
        timestamp: 0,
    };
    assert!(matches!(log.add_event(multibyte), Err(EventError::NameTooLong(_))));
}
