use plugin_interop::errors::{LoadError, Trap};
use plugin_interop::host::load;
use plugin_interop::instance::Instance;
use plugin_interop::value::{new, record_from_bytes, record_to_bytes, Vec2, RECORD_ALIGN, RECORD_SIZE};

fn image() -> Vec<u8> {
    vec![0x00, 0x61, 0x73, 0x6D, 0x01, 0x00, 0x00, 0x00]
}

fn instance() -> Instance {
    load(&image(), 1 << 20).unwrap()
}

#[test]
fn a_valid_image_loads() {
    let inst = instance();
    assert_eq!(inst.memory_len(), 0);
    assert_eq!(inst.live_count(), 0);
}

#[test]
fn a_truncated_image_is_rejected() {
    assert!(matches!(load(&vec![0x00, 0x61, 0x73], 1 << 20), Err(LoadError::Truncated)));
    assert!(matches!(load(&vec![], 1 << 20), Err(LoadError::Truncated)));
}

#[test]
fn a_wrong_header_is_rejected() {
    let mut img = image();
    img[1] = 0x62;
    assert!(matches!(load(&img, 1 << 20), Err(LoadError::BadMagic)));
    let old_version = vec![0x00, 0x61, 0x73, 0x6D, 0x02, 0x00, 0x00, 0x00];
    assert!(matches!(load(&old_version, 1 << 20), Err(LoadError::BadMagic)));
}

#[test]
fn trailing_image_bytes_are_opaque_and_accepted() {
    let mut img = image();
    img.extend_from_slice(&[0xDE, 0xAD, 0xBE, 0xEF]);
    assert!(load(&img, 1 << 20).is_ok());
}

#[test]
fn construct_combine_read_end_to_end() {
    let mut inst = instance();
    let p_a = inst.allocate(RECORD_SIZE, RECORD_ALIGN).unwrap();
    let p_b = inst.allocate(RECORD_SIZE, RECORD_ALIGN).unwrap();
    inst.construct(p_a, 1, 2).unwrap();
    inst.construct(p_b, 3, 5).unwrap();
    let p_r = inst.allocate(RECORD_SIZE, RECORD_ALIGN).unwrap();
    inst.combine(p_r, p_a, p_b).unwrap();
    let bytes = inst.read(p_r, RECORD_SIZE).unwrap();
    assert_eq!(record_from_bytes(&bytes), Some(Vec2 { x: 4, y: 7 }));
    assert_eq!(bytes, record_to_bytes(&new(4, 7)));
    // The inputs are untouched.
    assert_eq!(record_from_bytes(&inst.read(p_a, 8).unwrap()), Some(Vec2 { x: 1, y: 2 }));
    assert_eq!(record_from_bytes(&inst.read(p_b, 8).unwrap()), Some(Vec2 { x: 3, y: 5 }));
    inst.deallocate(p_a, RECORD_SIZE, RECORD_ALIGN).unwrap();
    inst.deallocate(p_b, RECORD_SIZE, RECORD_ALIGN).unwrap();
    inst.deallocate(p_r, RECORD_SIZE, RECORD_ALIGN).unwrap();
    assert_eq!(inst.live_count(), 0);
}

#[test]
fn memory_grows_with_the_heap() {
    let mut inst = instance();
    inst.allocate(8, 4).unwrap();
    assert_eq!(inst.memory_len(), 8);
    inst.allocate(3, 8).unwrap();
    assert_eq!(inst.memory_len(), 11);
}

#[test]
fn construct_past_the_end_traps() {
    let mut inst = instance();
    let p = inst.allocate(8, 4).unwrap();
    assert_eq!(inst.construct(p + 1, 1, 2), Err(Trap::OutOfBounds));
    assert_eq!(inst.construct(usize::MAX - 4, 1, 2), Err(Trap::OutOfBounds));
}

#[test]
fn combine_past_the_end_traps() {
    let mut inst = instance();
    let p = inst.allocate(16, 4).unwrap();
    assert_eq!(inst.combine(p, p + 8, p + 9), Err(Trap::OutOfBounds));
    assert_eq!(inst.combine(p + 9, p, p + 8), Err(Trap::OutOfBounds));
}

#[test]
fn write_then_read_round_trips() {
    let mut inst = instance();
    let p = inst.allocate(8, 4).unwrap();
    let bytes = record_to_bytes(&new(-9, 77));
    inst.write(p, &bytes).unwrap();
    assert_eq!(inst.read(p, 8).unwrap(), bytes);
    assert_eq!(record_from_bytes(&inst.read(p, 8).unwrap()), Some(Vec2 { x: -9, y: 77 }));
}

#[test]
fn reads_and_writes_are_bounds_checked() {
    let mut inst = instance();
    let p = inst.allocate(8, 4).unwrap();
    assert_eq!(inst.read(p, 9), Err(Trap::OutOfBounds));
    assert_eq!(inst.read(p + 8, 1), Err(Trap::OutOfBounds));
    assert!(inst.read(p + 8, 0).is_ok());
    assert_eq!(inst.write(p + 1, &record_to_bytes(&new(0, 0))), Err(Trap::OutOfBounds));
}

#[test]
fn an_instance_double_free_is_flagged() {
    let mut inst = instance();
    let p = inst.allocate(8, 4).unwrap();
    assert_eq!(inst.deallocate(p, 8, 4), Ok(()));
    assert_eq!(inst.deallocate(p, 8, 4), Err(Trap::InvalidFree));
}

#[test]
fn zero_size_allocations_work_through_the_instance() {
    let mut inst = instance();
    let p = inst.allocate(0, 1).unwrap();
    let q = inst.allocate(0, 1).unwrap();
    assert_ne!(p, q);
    assert_eq!(inst.deallocate(p, 0, 1), Ok(()));
    assert_eq!(inst.deallocate(q, 0, 1), Ok(()));
}

#[test]
fn the_instance_ceiling_is_enforced() {
    let mut inst = load(&image(), 8).unwrap();
    assert_eq!(inst.allocate(8, 4), Ok(0));
    assert_eq!(inst.allocate(1, 1), Err(Trap::OutOfMemory));
    assert_eq!(inst.memory_len(), 8);
}
