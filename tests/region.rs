use wasmlanche::error::ExecutorError;
use wasmlanche::linear::LinearMemory;
use wasmlanche::memory::{GuestMemory, HEAP_BASE};
use wasmlanche::region::{decode_length, encode_length, read_region, split_framed, write_region};

fn guest_memory() -> GuestMemory {
    GuestMemory::new(LinearMemory::new(2, 10).unwrap(), HEAP_BASE).unwrap()
}

#[test]
fn test_memory_operations() {
    let mut mem = guest_memory();

    // Test small data
    let test_data = b"Hello, World!";
    let region = mem.encode(test_data).unwrap();
    assert_eq!(region.length as usize, test_data.len());
    let read_data = mem.decode(region.pointer, 1024).unwrap();
    assert_eq!(read_data, test_data);

    // Test larger data
    let large_data = vec![42u8; 1000];
    let region2 = mem.encode(&large_data).unwrap();
    assert_eq!(region2.length as usize, large_data.len());
    let read_data2 = mem.decode(region2.pointer, 2000).unwrap();
    assert_eq!(read_data2, large_data);

    // Test reading with too small max_length
    let result = mem.decode(region2.pointer, 500);
    assert!(result.is_err());
}

#[test]
fn length_prefix_is_little_endian() {
    assert_eq!(encode_length(0x0403_0201), [1, 2, 3, 4]);
    assert_eq!(decode_length(&[1, 2, 3, 4]), 0x0403_0201);
    assert_eq!(decode_length(&encode_length(u32::MAX)), u32::MAX);
    assert_eq!(decode_length(&encode_length(13)), 13);
}

#[test]
fn region_round_trip_various_lengths() {
    let mut mem = guest_memory();
    for len in [1usize, 2, 7, 8, 9, 100, 4096] {
        let data: Vec<u8> = (0..len).map(|i| (i * 31 % 251) as u8).collect();
        let region = mem.encode(&data).unwrap();
        assert_eq!(mem.decode(region.pointer, len as u64).unwrap(), data);
    }
}

#[test]
fn region_wire_layout() {
    let mut linear = LinearMemory::new(1, 1).unwrap();
    write_region(&mut linear, 16, b"abc").unwrap();
    assert_eq!(linear.read(16, 7).unwrap(), vec![3, 0, 0, 0, b'a', b'b', b'c']);
    assert_eq!(read_region(&linear, 16, 3).unwrap(), b"abc".to_vec());
}

#[test]
fn region_bounds_are_checked() {
    let mut linear = LinearMemory::new(1, 1).unwrap();
    let size = linear.data_size() as u32;
    assert!(matches!(write_region(&mut linear, size - 4, b"x"), Err(ExecutorError::MemoryAccessError(_))));
    assert!(write_region(&mut linear, size - 5, b"x").is_ok());
    assert!(matches!(read_region(&linear, size - 3, 100), Err(ExecutorError::MemoryAccessError(_))));
    // A crafted prefix larger than memory is refused before any copy.
    assert!(linear.write(0, &encode_length(u32::MAX)));
    assert!(matches!(read_region(&linear, 0, u64::MAX), Err(ExecutorError::MemoryAccessError(_))));
    assert!(matches!(read_region(&linear, 0, 10), Err(ExecutorError::MemoryAccessError(_))));
}

#[test]
fn empty_buffer_encodes_to_prefix_only() {
    let mut mem = guest_memory();
    let region = mem.encode(&[]).unwrap();
    assert_eq!(region.length, 0);
    assert_eq!(mem.decode(region.pointer, 0).unwrap(), Vec::<u8>::new());
}

#[test]
fn linear_memory_grow_and_limits() {
    assert!(LinearMemory::new(3, 2).is_none());
    let mut linear = LinearMemory::new(1, 3).unwrap();
    assert_eq!(linear.size(), 1);
    assert_eq!(linear.grow(2), Some(1));
    assert_eq!(linear.size(), 3);
    assert_eq!(linear.grow(1), None);
    assert_eq!(linear.size(), 3);
}

#[test]
fn earlier_region_survives_later_write() {
    let mut mem = guest_memory();
    let first = mem.encode(b"first").unwrap();
    let _ = mem.encode(&vec![7u8; 70_000]).unwrap();
    assert_eq!(mem.decode(first.pointer, 5).unwrap(), b"first".to_vec());
}

#[test]
fn framed_lists_split() {
    assert_eq!(split_framed(&[]), Some(vec![]));
    assert_eq!(split_framed(&[1, 0, 0, 0, 9, 0, 0, 0, 0]), Some(vec![vec![9], vec![]]));
    assert_eq!(split_framed(&[2, 0, 0, 0, 9]), None);
    assert_eq!(split_framed(&[1, 0]), None);
}
