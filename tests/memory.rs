use wasmlanche::error::ExecutorError;
use wasmlanche::linear::{LinearMemory, WASM_PAGE_SIZE};
use wasmlanche::memory::{GuestMemory, HostPtr, Memory, HEAP_BASE};

fn guest_memory() -> GuestMemory {
    GuestMemory::new(LinearMemory::new(1, 16).unwrap(), HEAP_BASE).unwrap()
}

#[test]
#[should_panic(expected = "attempted to deref invalid host pointer")]
fn deref_untracked_pointer() {
    let mem = guest_memory();
    let ptr = HostPtr::null();
    let _ = mem.deref(&ptr).expect("attempted to deref invalid host pointer");
}

#[test]
#[should_panic(expected = "attempted to drop invalid host pointer")]
fn drop_untracked_pointer() {
    let mut mem = guest_memory();
    let ptr = HostPtr::from_raw(HEAP_BASE + 8);
    mem.release(ptr).expect("attempted to drop invalid host pointer");
}

#[test]
fn deref_tracked_pointer() {
    let data = vec![0xff];
    let cloned = data.clone();
    let mut mem = guest_memory();
    let ptr = mem.allocate_ptr(data.len() as u32).unwrap();
    mem.write_bytes(ptr.as_ptr(), &data).unwrap();

    assert_eq!(&mem.deref(&ptr).unwrap(), &cloned);
}

#[test]
fn deref_is_borrow() {
    let data = vec![0xff];
    let cloned = data.clone();
    let mut mem = guest_memory();
    let ptr = mem.allocate_ptr(data.len() as u32).unwrap();
    mem.write_bytes(ptr.as_ptr(), &data).unwrap();

    let host_ptr = HostPtr::from_raw(ptr.as_ptr());
    assert_eq!(&mem.deref(&host_ptr).unwrap(), &cloned);
    let host_ptr = HostPtr::from_raw(ptr.as_ptr());
    assert_eq!(&mem.deref(&host_ptr).unwrap(), &cloned);
}

#[test]
fn host_pointer_to_vec_takes_bytes() {
    let data = vec![0xff];
    let cloned = data.clone();
    let mut mem = guest_memory();
    let ptr = mem.allocate_ptr(data.len() as u32).unwrap();
    let addr = ptr.as_ptr();
    mem.write_bytes(addr, &data).unwrap();

    assert_eq!(mem.into_vec(ptr).unwrap(), cloned);

    assert!(mem.deref(&HostPtr::from_raw(addr)).is_err());
}

#[test]
#[should_panic(expected = "attempted to convert invalid host pointer to a Vec")]
fn host_pointer_to_vec_panics_on_invalid_pointer() {
    let mut mem = guest_memory();
    let ptr = HostPtr::null();
    let _ = mem.into_vec(ptr).expect("attempted to convert invalid host pointer to a Vec");
}

#[test]
fn dropping_host_pointer_deallocates() {
    let data = vec![0xff];
    let mut mem = guest_memory();
    let ptr = mem.allocate_ptr(data.len() as u32).unwrap();
    let addr = ptr.as_ptr();
    mem.write_bytes(addr, &data).unwrap();

    mem.release(ptr).unwrap();

    assert!(mem.deref(&HostPtr::from_raw(addr)).is_err());
    assert!(mem.deallocate(addr).is_err());
}

#[test]
#[should_panic = "cannot allocate 0 sized data"]
fn zero_allocation_panics() {
    let mut mem = guest_memory();
    match mem.allocate_ptr(0) {
        Err(ExecutorError::MemoryError(message)) => panic!("{}", message),
        _ => {}
    }
}

#[test]
fn allocate_normal_length_data() {
    let len = 1024;
    let data: Vec<u8> = (u8::MIN..=u8::MAX).cycle().take(len).collect();
    let mut mem = guest_memory();
    let ptr = mem.allocate_ptr(len as u32).unwrap();

    mem.write_bytes(ptr.as_ptr(), &data).unwrap();

    assert_eq!(&*mem.deref(&ptr).unwrap(), &*data);
}

#[test]
fn allocations_are_bumped_and_aligned() {
    let mut mem = guest_memory();
    let first = mem.allocate(5).unwrap();
    let second = mem.allocate(3).unwrap();
    let third = mem.allocate(8).unwrap();
    assert_eq!(first, HEAP_BASE);
    assert_eq!(second, HEAP_BASE + 8);
    assert_eq!(third, HEAP_BASE + 16);
    assert!(second >= first + 5);
    assert_eq!(second % 8, 0);
}

#[test]
fn zero_size_allocation_is_rejected_and_changes_nothing() {
    let mut mem = guest_memory();
    assert!(matches!(mem.allocate(0), Err(ExecutorError::MemoryError(_))));
    assert_eq!(mem.allocate(1).unwrap(), HEAP_BASE);
}

#[test]
fn allocation_grows_memory_by_whole_pages() {
    let mut mem = guest_memory();
    let p = mem.allocate(WASM_PAGE_SIZE as u32 + 1).unwrap();
    assert_eq!(p, HEAP_BASE);
    let read = mem.read_bytes(p, WASM_PAGE_SIZE as u32 + 1).unwrap();
    assert_eq!(read.len(), WASM_PAGE_SIZE as usize + 1);
}

#[test]
fn allocation_past_page_limit_fails() {
    let mut mem = GuestMemory::new(LinearMemory::new(1, 2).unwrap(), HEAP_BASE).unwrap();
    assert!(mem.allocate(WASM_PAGE_SIZE as u32 + 1).is_err());
    assert!(mem.allocate(WASM_PAGE_SIZE as u32).is_ok());
    assert!(mem.allocate(1).is_err());
}

#[test]
fn double_free_and_use_after_free_fail() {
    let mut mem = guest_memory();
    let p = mem.allocate(16).unwrap();
    assert!(mem.deallocate(p).is_ok());
    assert!(matches!(mem.deallocate(p), Err(ExecutorError::MemoryError(_))));
    assert!(mem.deref(&HostPtr::from_raw(p)).is_err());
}

#[test]
fn null_handle_release_is_a_no_op() {
    let mut mem = guest_memory();
    assert!(HostPtr::null().is_null());
    assert!(mem.release(HostPtr::null()).is_ok());
}

#[test]
fn memory_span_accessors() {
    let mut m = Memory::from_raw_parts(64, 3);
    assert_eq!(m.as_ptr(), 64);
    assert_eq!(m.as_mut_ptr(), 64);
    assert_eq!(m.len(), 3);
    assert!(!m.is_empty());
    assert!(Memory::from_raw_parts(0, 0).is_empty());
}

#[test]
fn new_allocations_are_zeroed() {
    let mut mem = GuestMemory::new(LinearMemory::new(2, 16).unwrap(), HEAP_BASE).unwrap();
    mem.write_bytes(HEAP_BASE, &[9u8; 16]).unwrap();
    let p = mem.allocate(16).unwrap();
    assert_eq!(p, HEAP_BASE);
    assert_eq!(mem.read_bytes(p, 16).unwrap(), vec![0u8; 16]);
}
