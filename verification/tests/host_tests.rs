use plugin_interop::errors::{ResolveError, Trap};
use plugin_interop::host::{
    alloc_region, call, free_region, load, resolve, signature_of, str_eq, ExportId, PrimKind,
    Signature,
};
use plugin_interop::instance::Instance;
use plugin_interop::value::{record_from_bytes, Vec2};

fn image() -> Vec<u8> {
    vec![0x00, 0x61, 0x73, 0x6D, 0x01, 0x00, 0x00, 0x00]
}

fn instance() -> Instance {
    load(&image(), 1 << 20).unwrap()
}

#[test]
fn strings_compare_by_contents() {
    assert!(str_eq("construct", "construct"));
    assert!(!str_eq("construct", "combine"));
    assert!(!str_eq("alloc", "allocate"));
    assert!(str_eq("", ""));
}

#[test]
fn every_export_resolves_under_its_declared_signature() {
    let inst = instance();
    for id in [ExportId::Construct, ExportId::Combine, ExportId::Allocate, ExportId::Deallocate] {
        let name = match id {
            ExportId::Construct => "construct",
            ExportId::Combine => "combine",
            ExportId::Allocate => "allocate",
            ExportId::Deallocate => "deallocate",
        };
        let declared = signature_of(id);
        assert!(resolve(&inst, name, &declared).is_ok());
    }
}

#[test]
fn a_missing_export_fails_before_any_call_and_names_itself() {
    let inst = instance();
    let declared = signature_of(ExportId::Allocate);
    let r = resolve(&inst, "transmogrify", &declared);
    assert_eq!(
        r.err(),
        Some(ResolveError::MissingExport { name: String::from("transmogrify") })
    );
}

#[test]
fn a_signature_mismatch_is_a_descriptive_error() {
    let inst = instance();
    // Declare allocate's signature for construct: an interface version skew.
    let declared = signature_of(ExportId::Allocate);
    let r = resolve(&inst, "construct", &declared);
    assert_eq!(
        r.err(),
        Some(ResolveError::SignatureMismatch { name: String::from("construct") })
    );
    // A wrong result list alone is also a mismatch.
    let declared = Signature {
        params: vec![PrimKind::Size, PrimKind::Size],
        results: vec![],
    };
    let r = resolve(&inst, "allocate", &declared);
    assert_eq!(
        r.err(),
        Some(ResolveError::SignatureMismatch { name: String::from("allocate") })
    );
}

#[test]
fn the_dynamic_call_sequence_of_a_whole_session() {
    let mut inst = instance();
    let construct = resolve(&inst, "construct", &signature_of(ExportId::Construct)).unwrap();
    let combine = resolve(&inst, "combine", &signature_of(ExportId::Combine)).unwrap();
    let allocate = resolve(&inst, "allocate", &signature_of(ExportId::Allocate)).unwrap();
    let deallocate = resolve(&inst, "deallocate", &signature_of(ExportId::Deallocate)).unwrap();

    let p_a = match call(&mut inst, &allocate, &vec![8, 4]).unwrap() {
        Some(w) => w,
        None => panic!("allocate returned nothing"),
    };
    assert_eq!(call(&mut inst, &construct, &vec![p_a, 1, 2]), Ok(None));
    let p_b = call(&mut inst, &allocate, &vec![8, 4]).unwrap().unwrap();
    assert_eq!(call(&mut inst, &construct, &vec![p_b, 3, 5]), Ok(None));
    let p_r = call(&mut inst, &allocate, &vec![8, 4]).unwrap().unwrap();
    assert_eq!(call(&mut inst, &combine, &vec![p_r, p_a, p_b]), Ok(None));

    let bytes = inst.read(p_r as u32 as usize, 8).unwrap();
    assert_eq!(record_from_bytes(&bytes), Some(Vec2 { x: 4, y: 7 }));

    assert_eq!(call(&mut inst, &deallocate, &vec![p_a, 8, 4]), Ok(None));
    assert_eq!(call(&mut inst, &deallocate, &vec![p_b, 8, 4]), Ok(None));
    assert_eq!(call(&mut inst, &deallocate, &vec![p_r, 8, 4]), Ok(None));
    // Releasing one of them a second time is flagged.
    assert_eq!(call(&mut inst, &deallocate, &vec![p_a, 8, 4]), Err(Trap::InvalidFree));
}

#[test]
fn a_wrong_argument_count_traps_without_touching_the_instance() {
    let mut inst = instance();
    let construct = resolve(&inst, "construct", &signature_of(ExportId::Construct)).unwrap();
    let allocate = resolve(&inst, "allocate", &signature_of(ExportId::Allocate)).unwrap();
    assert_eq!(call(&mut inst, &construct, &vec![0, 1]), Err(Trap::BadCall));
    assert_eq!(call(&mut inst, &allocate, &vec![8, 4, 0]), Err(Trap::BadCall));
    assert_eq!(inst.memory_len(), 0);
    assert_eq!(inst.live_count(), 0);
}

#[test]
fn guest_traps_propagate_through_the_dynamic_call() {
    let mut inst = instance();
    let allocate = resolve(&inst, "allocate", &signature_of(ExportId::Allocate)).unwrap();
    let construct = resolve(&inst, "construct", &signature_of(ExportId::Construct)).unwrap();
    assert_eq!(call(&mut inst, &allocate, &vec![8, 3]), Err(Trap::BadLayout));
    assert_eq!(call(&mut inst, &construct, &vec![64, 1, 2]), Err(Trap::OutOfBounds));
    let mut tiny = load(&image(), 4).unwrap();
    let allocate2 = resolve(&tiny, "allocate", &signature_of(ExportId::Allocate)).unwrap();
    assert_eq!(call(&mut tiny, &allocate2, &vec![8, 4]), Err(Trap::OutOfMemory));
}

#[test]
fn zero_size_allocation_through_the_dynamic_call() {
    let mut inst = instance();
    let allocate = resolve(&inst, "allocate", &signature_of(ExportId::Allocate)).unwrap();
    let deallocate = resolve(&inst, "deallocate", &signature_of(ExportId::Deallocate)).unwrap();
    let p = call(&mut inst, &allocate, &vec![0, 1]).unwrap().unwrap();
    let q = call(&mut inst, &allocate, &vec![0, 1]).unwrap().unwrap();
    assert_ne!(p, q);
    assert_eq!(call(&mut inst, &deallocate, &vec![p, 0, 1]), Ok(None));
    assert_eq!(call(&mut inst, &deallocate, &vec![q, 0, 1]), Ok(None));
}

#[test]
fn region_handles_remember_their_layout() {
    let mut inst = instance();
    let region = alloc_region(&mut inst, 8, 4).unwrap();
    assert_eq!(region.offset(), 0);
    assert_eq!(region.size(), 8);
    assert_eq!(region.align(), 4);
    inst.construct(region.offset(), 10, 20).unwrap();
    let bytes = inst.read(region.offset(), 8).unwrap();
    assert_eq!(record_from_bytes(&bytes), Some(Vec2 { x: 10, y: 20 }));
    assert_eq!(free_region(&mut inst, region), Ok(()));
    assert_eq!(inst.live_count(), 0);
    // The handle is consumed by the release; a fresh mismatched release is
    // still flagged by the guest's own table.
    assert_eq!(inst.deallocate(0, 8, 4), Err(Trap::InvalidFree));
}

#[test]
fn region_allocation_errors_propagate() {
    let mut inst = instance();
    assert!(matches!(alloc_region(&mut inst, 8, 5), Err(Trap::BadLayout)));
    let mut tiny = load(&image(), 2).unwrap();
    assert!(matches!(alloc_region(&mut tiny, 8, 4), Err(Trap::OutOfMemory)));
}

#[test]
fn signatures_carry_the_declared_kinds() {
    let s = signature_of(ExportId::Construct);
    assert_eq!(s.params, vec![PrimKind::Ptr, PrimKind::I32, PrimKind::I32]);
    assert_eq!(s.results, vec![]);
    let s = signature_of(ExportId::Allocate);
    assert_eq!(s.params, vec![PrimKind::Size, PrimKind::Size]);
    assert_eq!(s.results, vec![PrimKind::Ptr]);
}
