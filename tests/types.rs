use wasmlanche::types::{Address, ContractId, Gas, Id, WasmlAddress, ID_LEN};

#[test]
fn wasml_address_hex() {
    let addr = WasmlAddress::new(vec![0x00, 0x0f, 0xab, 0xff]);
    assert_eq!(addr.to_hex_string(), "0x000fabff");
    assert_eq!(WasmlAddress::new(vec![]).to_hex_string(), "0x");
    assert_eq!(addr.copied(), addr);
}

#[test]
fn fixed_size_ids() {
    let id = Id::new([7u8; ID_LEN]);
    assert_eq!(id.as_bytes(), &[7u8; ID_LEN]);
    let cid = ContractId::new([9u8; 32]);
    assert_eq!(cid.as_bytes(), &[9u8; 32]);
    assert_eq!(Gas::new(5).value(), 5);
}

#[test]
fn contract_address() {
    let a = Address::new([3u8; 33]);
    assert_eq!(a.as_bytes(), &[3u8; 33][..]);
    assert_eq!(Address::default().as_bytes(), &[0u8; Address::LEN][..]);
    assert_eq!(Address::zero(), Address::default());
}

#[test]
fn conversions() {
    assert_eq!(u64::from(Gas::new(42)), 42);
    assert_eq!(Gas::from(7u64).value(), 7);
    assert_eq!(Address::from([5u8; 33]).as_bytes(), &[5u8; 33][..]);
    assert_eq!(WasmlAddress::from(vec![1, 2]).as_bytes(), &[1, 2]);
}
