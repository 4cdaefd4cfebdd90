use tapasco::allocator::Error;
use tapasco::allocator::GenericAllocator;

fn region(base: u64, size: u64, alignment: u64) -> GenericAllocator {
    GenericAllocator::new(base, size, alignment).expect("valid region")
}

#[test]
fn first_fit_returns_lowest_aligned_address() {
    let mut a = region(0, 1024, 64);
    assert_eq!(a.allocate(100, 64, None), Ok(0));
    assert_eq!(a.allocate(50, 64, None), Ok(128));
    assert_eq!(a.allocate(1, 64, None), Ok(192));
}

#[test]
fn allocations_respect_region_base() {
    let mut a = region(1000, 100, 1);
    assert_eq!(a.allocate(10, 1, None), Ok(1000));
    assert_eq!(a.allocate(10, 1, None), Ok(1010));
}

#[test]
fn freed_range_is_allocatable_again() {
    let mut a = region(0, 1024, 64);
    assert_eq!(a.allocate(100, 64, None), Ok(0));
    assert_eq!(a.allocate(50, 64, None), Ok(128));
    assert_eq!(a.free(0), Ok(()));
    assert_eq!(a.allocate(100, 64, Some(0)), Ok(0));
}

#[test]
fn freed_neighbours_coalesce() {
    let mut a = region(0, 100, 1);
    assert_eq!(a.allocate(50, 1, None), Ok(0));
    assert_eq!(a.allocate(50, 1, None), Ok(50));
    assert_eq!(a.free(0), Ok(()));
    assert_eq!(a.free(50), Ok(()));
    assert_eq!(a.allocate(100, 1, None), Ok(0));
}

#[test]
fn free_of_unknown_address_is_an_error() {
    let mut a = region(0, 100, 1);
    assert_eq!(a.allocate(10, 1, None), Ok(0));
    assert_eq!(a.free(5), Err(Error::UnknownAddress { offset: 5 }));
}

#[test]
fn exhausted_region_reports_out_of_memory() {
    let mut a = region(0, 100, 1);
    assert_eq!(a.allocate(101, 1, None), Err(Error::OutOfMemory { size: 101 }));
    assert_eq!(a.allocate(60, 1, None), Ok(0));
    assert_eq!(a.allocate(60, 1, None), Err(Error::OutOfMemory { size: 60 }));
}

#[test]
fn fixed_address_must_be_aligned_free_and_in_range() {
    let mut a = region(0, 1024, 64);
    assert_eq!(a.allocate(10, 64, Some(3)), Err(Error::FixedUnavailable { offset: 3 }));
    assert_eq!(a.allocate(10, 1, Some(5)), Ok(5));
    assert_eq!(a.allocate(10, 1, Some(8)), Err(Error::FixedUnavailable { offset: 8 }));
    assert_eq!(a.allocate(10, 1, Some(1020)), Err(Error::FixedUnavailable { offset: 1020 }));
}

#[test]
fn zero_size_request_is_rejected() {
    let mut a = region(0, 100, 1);
    assert_eq!(a.allocate(0, 1, None), Err(Error::InvalidRequest { size: 0, alignment: 1 }));
    assert_eq!(a.allocate(1, 0, None), Err(Error::InvalidRequest { size: 1, alignment: 0 }));
}

#[test]
fn region_end_must_fit_into_an_address() {
    assert!(matches!(
        GenericAllocator::new(u64::MAX, 2, 1),
        Err(Error::InvalidRegion { base: u64::MAX, size: 2 })
    ));
    assert!(GenericAllocator::new(u64::MAX - 1, 1, 1).is_ok());
}
