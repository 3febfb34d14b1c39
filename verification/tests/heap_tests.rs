use plugin_interop::errors::Trap;
use plugin_interop::heap::{check_pow2, Allocator};

#[test]
fn pow2_check_agrees_with_arithmetic() {
    assert!(check_pow2(1));
    assert!(check_pow2(2));
    assert!(check_pow2(4));
    assert!(check_pow2(1024));
    assert!(check_pow2(1 << 30));
    assert!(!check_pow2(0));
    assert!(!check_pow2(3));
    assert!(!check_pow2(6));
    assert!(!check_pow2(usize::MAX));
}

#[test]
fn allocations_land_on_their_alignment() {
    let mut heap = Allocator::with_ceiling(1024);
    let p = heap.allocate(8, 4).unwrap();
    assert_eq!(p % 4, 0);
    let q = heap.allocate(3, 8).unwrap();
    assert_eq!(q % 8, 0);
    let r = heap.allocate(5, 4).unwrap();
    assert_eq!(r % 4, 0);
    // The bump allocator hands the ranges out in order, without overlap.
    assert_eq!(p, 0);
    assert_eq!(q, 8);
    assert_eq!(r, 12);
    assert_eq!(heap.frontier(), 17);
    assert_eq!(heap.live_count(), 3);
}

#[test]
fn alignment_must_be_a_power_of_two() {
    let mut heap = Allocator::with_ceiling(1024);
    assert_eq!(heap.allocate(8, 3), Err(Trap::BadLayout));
    assert_eq!(heap.allocate(8, 0), Err(Trap::BadLayout));
    assert_eq!(heap.allocate(8, 6), Err(Trap::BadLayout));
    assert_eq!(heap.live_count(), 0);
}

#[test]
fn the_ceiling_is_enforced() {
    let mut heap = Allocator::with_ceiling(16);
    assert_eq!(heap.allocate(8, 4), Ok(0));
    assert_eq!(heap.allocate(16, 4), Err(Trap::OutOfMemory));
    assert_eq!(heap.allocate(8, 4), Ok(8));
    assert_eq!(heap.allocate(1, 1), Err(Trap::OutOfMemory));
    // A huge alignment can never be honoured below the ceiling.
    let mut other = Allocator::with_ceiling(1024);
    assert_eq!(other.allocate(1, 1), Ok(0));
    assert_eq!(other.allocate(1, 2048), Err(Trap::OutOfMemory));
}

#[test]
fn zero_size_allocations_are_valid_distinct_and_freeable() {
    let mut heap = Allocator::with_ceiling(64);
    let p = heap.allocate(0, 1).unwrap();
    let q = heap.allocate(0, 1).unwrap();
    assert_ne!(p, q);
    assert_eq!(heap.deallocate(p, 0, 1), Ok(()));
    assert_eq!(heap.deallocate(q, 0, 1), Ok(()));
}

#[test]
fn a_double_free_is_flagged() {
    let mut heap = Allocator::with_ceiling(64);
    let p = heap.allocate(8, 4).unwrap();
    assert_eq!(heap.deallocate(p, 8, 4), Ok(()));
    assert_eq!(heap.deallocate(p, 8, 4), Err(Trap::InvalidFree));
}

#[test]
fn a_mismatched_free_is_flagged() {
    let mut heap = Allocator::with_ceiling(64);
    let p = heap.allocate(8, 4).unwrap();
    assert_eq!(heap.deallocate(p, 8, 8), Err(Trap::InvalidFree));
    assert_eq!(heap.deallocate(p, 4, 4), Err(Trap::InvalidFree));
    assert_eq!(heap.deallocate(p + 1, 8, 4), Err(Trap::InvalidFree));
    assert_eq!(heap.deallocate(p, 8, 4), Ok(()));
    assert_eq!(heap.live_count(), 0);
}

#[test]
fn a_fresh_allocation_after_a_free_is_aligned_again() {
    let mut heap = Allocator::with_ceiling(1024);
    let p = heap.allocate(8, 4).unwrap();
    assert_eq!(heap.deallocate(p, 8, 4), Ok(()));
    // Reuse of the released offset is implementation-defined; this allocator
    // retires released bytes, so a fresh range comes back instead.
    let q = heap.allocate(8, 4).unwrap();
    assert_eq!(q % 4, 0);
    assert_ne!(p, q);
    assert_eq!(heap.deallocate(q, 8, 4), Ok(()));
}
