use bump_alloc::{next_offset, place, AllocError, BumpAlloc, RegionSource, DEFAULT_CAPACITY};
use std::collections::HashSet;
use std::sync::atomic::{AtomicUsize, Ordering};

/// Hands out the same fixed address every time it is asked.
struct Fixed(usize);

impl RegionSource for Fixed {
    fn reserve(&self, _size: usize) -> usize {
        self.0
    }
}

/// Hands out a fixed address and counts how often it was asked.
struct Counting {
    base: usize,
    calls: AtomicUsize,
}

impl RegionSource for Counting {
    fn reserve(&self, _size: usize) -> usize {
        self.calls.fetch_add(1, Ordering::SeqCst);
        self.base
    }
}

/// Backs the arena with a real buffer of `u16` slots.
fn buffer_region(slots: usize) -> (Fixed, &'static mut [u16]) {
    let buf: &'static mut [u16] = Box::leak(vec![0u16; slots].into_boxed_slice());
    (Fixed(buf.as_ptr() as usize), buf)
}

fn write_and_read_u16(alloc: &BumpAlloc, slots: usize) {
    let (region, buf) = buffer_region(slots);
    let base = region.0;
    let addr = alloc.allocate(&region, 2, 2).unwrap();
    assert_eq!(addr % 2, 0);
    let idx = (addr - base) / 2;
    buf[idx] = 42;
    assert_eq!(buf[idx], 42);
    alloc.dealloc(addr, 2, 2);
}

#[test]
fn new_it_works() {
    let alloc = BumpAlloc::new();
    write_and_read_u16(&alloc, 16);
}

#[test]
fn with_size_it_works() {
    let alloc = BumpAlloc::with_size(1024 * 1024 * 4);
    write_and_read_u16(&alloc, 16);
}

#[test]
fn default_capacity_is_one_gibibyte() {
    assert_eq!(DEFAULT_CAPACITY, 1 << 30);
    assert_eq!(BumpAlloc::new().size(), 1 << 30);
    assert_eq!(BumpAlloc::with_size(16).size(), 16);
}

#[test]
fn sequential_requests_are_aligned_and_disjoint() {
    let alloc = BumpAlloc::with_size(4 * 1024 * 1024);
    let region = Fixed(4097);
    let a = alloc.allocate(&region, 2, 2).unwrap();
    let b = alloc.allocate(&region, 8, 8).unwrap();
    let c = alloc.allocate(&region, 1, 1).unwrap();
    assert_eq!((a, b, c), (4098, 4104, 4112));
    assert_eq!(a % 2, 0);
    assert_eq!(b % 8, 0);
    assert!(a + 2 <= b && b + 8 <= c);
    assert!(c + 1 <= 4097 + 4 * 1024 * 1024);
}

#[test]
fn request_beyond_capacity_fails_and_leaves_offset() {
    let alloc = BumpAlloc::with_size(16);
    let region = Fixed(4096);
    assert_eq!(alloc.allocate(&region, 20, 1), Err(AllocError::OutOfCapacity));
    assert_eq!(alloc.allocate(&region, 16, 1), Ok(4096));
    assert_eq!(alloc.allocate(&region, 1, 1), Err(AllocError::OutOfCapacity));
}

#[test]
fn zero_sized_request_succeeds() {
    let alloc = BumpAlloc::with_size(16);
    let region = Fixed(4096);
    let a = alloc.allocate(&region, 0, 1).unwrap();
    assert_ne!(a, 0);
    assert_eq!(a, 4096);
    let b = alloc.allocate(&region, 1, 1).unwrap();
    assert_eq!(b, 4097);
    let c = alloc.allocate(&region, 0, 1).unwrap();
    assert_eq!(c, 4098);
    assert!(a != b && b != c && a != c);
}

#[test]
fn failed_reservation_is_reported() {
    let alloc = BumpAlloc::with_size(16);
    assert_eq!(alloc.allocate(&Fixed(0), 1, 1), Err(AllocError::ReservationFailure));
    assert_eq!(alloc.allocate(&Fixed(4096), 1, 1), Err(AllocError::ReservationFailure));
}

#[test]
fn reservation_happens_once() {
    let alloc = BumpAlloc::with_size(64);
    let region = Counting { base: 8192, calls: AtomicUsize::new(0) };
    for _ in 0..10 {
        alloc.allocate(&region, 1, 1).unwrap();
    }
    assert_eq!(region.calls.load(Ordering::SeqCst), 1);
}

#[test]
fn release_changes_nothing() {
    let alloc = BumpAlloc::with_size(64);
    let region = Fixed(4096);
    let a = alloc.allocate(&region, 4, 4).unwrap();
    alloc.dealloc(a, 4, 4);
    alloc.dealloc(a, 4, 4);
    let b = alloc.allocate(&region, 4, 4).unwrap();
    assert_eq!((a, b), (4096, 4100));
}

#[test]
fn hundred_requests_get_unique_addresses() {
    let alloc = BumpAlloc::with_size(1024);
    let region = Counting { base: 65536, calls: AtomicUsize::new(0) };
    let seen: Vec<usize> = (0..100).map(|_| alloc.allocate(&region, 1, 1).unwrap()).collect();
    let unique: HashSet<usize> = seen.iter().copied().collect();
    assert_eq!(seen.len(), 100);
    assert_eq!(unique.len(), 100);
    assert!(seen.iter().all(|&a| (65536..65536 + 100).contains(&a)));
    assert_eq!(region.calls.load(Ordering::SeqCst), 1);
}

#[test]
fn place_rounds_up_to_alignment() {
    assert_eq!(place(4097, 0, 2, 2, 100), Ok((4098, 3)));
    assert_eq!(place(4096, 3, 8, 8, 100), Ok((4104, 16)));
    assert_eq!(place(4096, 16, 1, 1, 100), Ok((4112, 17)));
    assert_eq!(place(4096, 0, 0, 4096, 100), Ok((4096, 1)));
}

#[test]
fn place_gives_an_empty_request_one_byte() {
    assert_eq!(place(4096, 5, 0, 1, 100), Ok((4101, 6)));
    assert_eq!(place(4096, 5, 0, 4, 100), Ok((4104, 9)));
    assert_eq!(place(4096, 15, 0, 1, 16), Ok((4111, 16)));
    assert_eq!(place(4096, 16, 0, 1, 16), Err(AllocError::OutOfCapacity));
    assert_eq!(place(usize::MAX, 0, 0, 1, 16), Err(AllocError::Overflow));
    assert_eq!(next_offset(4096, 5, 0, 1, 100), Some(6));
}

#[test]
fn place_reports_each_failure() {
    assert_eq!(place(4096, 0, 20, 1, 16), Err(AllocError::OutOfCapacity));
    assert_eq!(place(4096, 10, 7, 1, 16), Err(AllocError::OutOfCapacity));
    assert_eq!(place(4096, 10, 6, 1, 16), Ok((4106, 16)));
    assert_eq!(place(usize::MAX, 1, 0, 1, 16), Err(AllocError::Overflow));
    assert_eq!(place(usize::MAX - 2, 0, 0, 8, 16), Err(AllocError::Overflow));
    assert_eq!(place(usize::MAX - 7, 0, 8, 8, 16), Err(AllocError::Overflow));
}

#[test]
fn next_offset_follows_place() {
    assert_eq!(next_offset(4097, 0, 2, 2, 100), Some(3));
    assert_eq!(next_offset(4096, 0, 20, 1, 16), None);
    assert_eq!(next_offset(usize::MAX, 1, 0, 1, 16), None);
}
