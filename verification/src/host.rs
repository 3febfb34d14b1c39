//! The host runtime: loading a module image, resolving exported entry points
//! by name against a declared signature, driving dynamic calls with plain
//! scalar arguments, and owned handles for heap regions.

use crate::errors::{LoadError, ResolveError, Trap};
use crate::instance::Instance;
use crate::model::{
    instance_allocate, instance_combine, instance_construct, instance_deallocate, fresh_instance,
    Allocation,
};
use vstd::prelude::*;
use vstd::string::StrSliceExecFns;

verus! {

/// The primitive kinds a declared signature is made of. At the boundary every
/// scalar travels as a 32-bit word; the kinds record what the word means.
#[derive(Copy, Clone, Debug, PartialEq, Eq, Structural)]
pub enum PrimKind {
    /// A byte offset into the guest's linear memory.
    Ptr,
    /// A plain 32-bit signed value.
    I32,
    /// A size or alignment, interpreted unsigned.
    Size,
}

/// A declared signature: the ordered parameter kinds and result kinds the
/// caller expects an export to have.
#[derive(Debug)]
pub struct Signature {
    pub params: Vec<PrimKind>,
    pub results: Vec<PrimKind>,
}

/// The entry points the guest module exports.
#[derive(Copy, Clone, Debug, PartialEq, Eq, Structural)]
pub enum ExportId {
    Construct,
    Combine,
    Allocate,
    Deallocate,
}

/// The name under which an entry point is exported.
pub open spec fn export_name(id: ExportId) -> Seq<char> {
    match id {
        ExportId::Construct => "construct"@,
        ExportId::Combine => "combine"@,
        ExportId::Allocate => "allocate"@,
        ExportId::Deallocate => "deallocate"@,
    }
}

/// The parameter kinds of an entry point, in order.
pub open spec fn export_params(id: ExportId) -> Seq<PrimKind> {
    match id {
        ExportId::Construct => seq![PrimKind::Ptr, PrimKind::I32, PrimKind::I32],
        ExportId::Combine => seq![PrimKind::Ptr, PrimKind::Ptr, PrimKind::Ptr],
        ExportId::Allocate => seq![PrimKind::Size, PrimKind::Size],
        ExportId::Deallocate => seq![PrimKind::Ptr, PrimKind::Size, PrimKind::Size],
    }
}

/// The result kinds of an entry point, in order.
pub open spec fn export_results(id: ExportId) -> Seq<PrimKind> {
    match id {
        ExportId::Allocate => seq![PrimKind::Ptr],
        _ => Seq::<PrimKind>::empty(),
    }
}

/// The export, if any, that a name denotes.
pub open spec fn lookup_export(name: Seq<char>) -> Option<ExportId> {
    if name == export_name(ExportId::Construct) {
        Some(ExportId::Construct)
    } else if name == export_name(ExportId::Combine) {
        Some(ExportId::Combine)
    } else if name == export_name(ExportId::Allocate) {
        Some(ExportId::Allocate)
    } else if name == export_name(ExportId::Deallocate) {
        Some(ExportId::Deallocate)
    } else {
        None
    }
}

/// Whether a declared signature agrees with the actual signature of an
/// export.
pub open spec fn sig_matches(declared: Signature, id: ExportId) -> bool {
    declared.params@ == export_params(id) && declared.results@ == export_results(id)
}

/// A resolved entry point, ready to be called. Its view is the export it
/// denotes.
pub struct Callable {
    id: ExportId,
}

impl View for Callable {
    type V = ExportId;

    closed spec fn view(&self) -> ExportId {
        self.id
    }
}

/// Compares two strings character by character.
pub fn str_eq(a: &str, b: &str) -> (r: bool)
    ensures
        r == (a@ == b@),
{
    let la = a.unicode_len();
    let lb = b.unicode_len();
    if la != lb {
        return false;
    }
    let mut i: usize = 0;
    while i < la
        invariant
            la == a@.len(),
            la == b@.len(),
            i <= la,
            forall|k: int| 0 <= k < i ==> a@[k] == b@[k],
        decreases la - i,
    {
        if a.get_char(i) != b.get_char(i) {
            return false;
        }
        i = i + 1;
    }
    proof {
        assert(a@ =~= b@);
    }
    true
}

/// Builds the actual signature of an entry point.
pub fn signature_of(id: ExportId) -> (s: Signature)
    ensures
        s.params@ == export_params(id),
        s.results@ == export_results(id),
{
    let mut params: Vec<PrimKind> = Vec::new();
    let mut results: Vec<PrimKind> = Vec::new();
    match id {
        ExportId::Construct => {
            params.push(PrimKind::Ptr);
            params.push(PrimKind::I32);
            params.push(PrimKind::I32);
        },
        ExportId::Combine => {
            params.push(PrimKind::Ptr);
            params.push(PrimKind::Ptr);
            params.push(PrimKind::Ptr);
        },
        ExportId::Allocate => {
            params.push(PrimKind::Size);
            params.push(PrimKind::Size);
            results.push(PrimKind::Ptr);
        },
        ExportId::Deallocate => {
            params.push(PrimKind::Ptr);
            params.push(PrimKind::Size);
            params.push(PrimKind::Size);
        },
    }
    proof {
        assert(params@ =~= export_params(id));
        assert(results@ =~= export_results(id));
    }
    Signature { params, results }
}

/// Compares two kind lists element by element.
fn kinds_eq(a: &Vec<PrimKind>, b: &Vec<PrimKind>) -> (r: bool)
    ensures
        r == (a@ == b@),
{
    let la = a.len();
    let lb = b.len();
    if la != lb {
        return false;
    }
    let mut i: usize = 0;
    while i < la
        invariant
            la == a@.len(),
            la == b@.len(),
            i <= la,
            forall|k: int| 0 <= k < i ==> a@[k] == b@[k],
        decreases la - i,
    {
        if a[i] != b[i] {
            return false;
        }
        i = i + 1;
    }
    proof {
        assert(a@ =~= b@);
    }
    true
}

/// Checks a declared signature against the actual one of an export.
fn check_declared(id: ExportId, name: &str, declared: &Signature) -> (r: Result<
    Callable,
    ResolveError,
>)
    ensures
        sig_matches(*declared, id) ==> (r matches Ok(c) && c@ == id),
        !sig_matches(*declared, id) ==> (r matches Err(ResolveError::SignatureMismatch {
            name: n,
        }) && n@ == name@),
{
    let actual = signature_of(id);
    if kinds_eq(&declared.params, &actual.params) && kinds_eq(&declared.results, &actual.results) {
        Ok(Callable { id })
    } else {
        Err(ResolveError::SignatureMismatch { name: name.to_owned() })
    }
}

/// Looks up an exported entry point by name and checks the declared
/// signature against the actual one, before any call is attempted. A missing
/// name is reported with the name itself; a signature disagreement means a
/// version mismatch between host and guest and is reported likewise.
pub fn resolve(instance: &Instance, name: &str, declared: &Signature) -> (r: Result<
    Callable,
    ResolveError,
>)
    ensures
        match lookup_export(name@) {
            Some(id) => {
                &&& sig_matches(*declared, id) ==> (r matches Ok(c) && c@ == id)
                &&& !sig_matches(*declared, id) ==> (r matches Err(
                    ResolveError::SignatureMismatch { name: n },
                ) && n@ == name@)
            },
            None => r matches Err(ResolveError::MissingExport { name: n }) && n@ == name@,
        },
{
    let _ = instance;
    if str_eq(name, "construct") {
        check_declared(ExportId::Construct, name, declared)
    } else if str_eq(name, "combine") {
        check_declared(ExportId::Combine, name, declared)
    } else if str_eq(name, "allocate") {
        check_declared(ExportId::Allocate, name, declared)
    } else if str_eq(name, "deallocate") {
        check_declared(ExportId::Deallocate, name, declared)
    } else {
        Err(ResolveError::MissingExport { name: name.to_owned() })
    }
}

/// The guest-memory offset a boundary word denotes: the word reinterpreted
/// unsigned, as on a 32-bit target.
pub open spec fn word_as_offset(w: i32) -> usize {
    (w as u32) as usize
}

/// The boundary word denoting a guest-memory offset; the offset must fit the
/// guest's 32-bit address space.
pub open spec fn offset_as_word(p: usize) -> i32
    recommends
        p <= 0xFFFF_FFFF,
{
    (p as u32) as i32
}

/// Invokes a resolved entry point synchronously with plain scalar arguments;
/// guest work runs to completion before this returns. Offsets, sizes and
/// alignments travel as words reinterpreted unsigned. An argument count that
/// disagrees with the entry point's signature traps without touching the
/// instance; any other outcome is exactly that of the entry point itself,
/// with `allocate`'s offset handed back as a word.
pub fn call(instance: &mut Instance, c: &Callable, args: &Vec<i32>) -> (r: Result<
    Option<i32>,
    Trap,
>)
    ensures
        args@.len() != export_params(c@).len() ==> final(instance)@ == old(instance)@ && r == Err::<
            Option<i32>,
            Trap,
        >(Trap::BadCall),
        args@.len() == export_params(c@).len() ==> match c@ {
            ExportId::Construct => {
                let (m2, res) = instance_construct(
                    old(instance)@,
                    word_as_offset(args@[0]),
                    args@[1],
                    args@[2],
                );
                final(instance)@ == m2 && r == res_to_unit_outcome(res)
            },
            ExportId::Combine => {
                let (m2, res) = instance_combine(
                    old(instance)@,
                    word_as_offset(args@[0]),
                    word_as_offset(args@[1]),
                    word_as_offset(args@[2]),
                );
                final(instance)@ == m2 && r == res_to_unit_outcome(res)
            },
            ExportId::Allocate => {
                let (m2, res) = instance_allocate(
                    old(instance)@,
                    word_as_offset(args@[0]),
                    word_as_offset(args@[1]),
                );
                final(instance)@ == m2 && r == res_to_offset_outcome(res)
            },
            ExportId::Deallocate => {
                let (m2, res) = instance_deallocate(
                    old(instance)@,
                    word_as_offset(args@[0]),
                    word_as_offset(args@[1]),
                    word_as_offset(args@[2]),
                );
                final(instance)@ == m2 && r == res_to_unit_outcome(res)
            },
        },
{
    match c.id {
        ExportId::Construct => {
            if args.len() != 3 {
                return Err(Trap::BadCall);
            }
            let out = args[0] as u32 as usize;
            match instance.construct(out, args[1], args[2]) {
                Ok(u) => Ok(None),
                Err(t) => Err(t),
            }
        },
        ExportId::Combine => {
            if args.len() != 3 {
                return Err(Trap::BadCall);
            }
            let out = args[0] as u32 as usize;
            let a = args[1] as u32 as usize;
            let b = args[2] as u32 as usize;
            match instance.combine(out, a, b) {
                Ok(u) => Ok(None),
                Err(t) => Err(t),
            }
        },
        ExportId::Allocate => {
            if args.len() != 2 {
                return Err(Trap::BadCall);
            }
            let size = args[0] as u32 as usize;
            let align = args[1] as u32 as usize;
            instance.well_formed();
            match instance.allocate(size, align) {
                Ok(p) => Ok(Some(p as u32 as i32)),
                Err(t) => Err(t),
            }
        },
        ExportId::Deallocate => {
            if args.len() != 3 {
                return Err(Trap::BadCall);
            }
            let p = args[0] as u32 as usize;
            let size = args[1] as u32 as usize;
            let align = args[2] as u32 as usize;
            match instance.deallocate(p, size, align) {
                Ok(u) => Ok(None),
                Err(t) => Err(t),
            }
        },
    }
}

/// The dynamic-call outcome of an entry point without results.
pub open spec fn res_to_unit_outcome(res: Result<(), Trap>) -> Result<Option<i32>, Trap> {
    match res {
        Ok(u) => Ok(None),
        Err(t) => Err(t),
    }
}

/// The dynamic-call outcome of `allocate`: its offset as a boundary word.
pub open spec fn res_to_offset_outcome(res: Result<usize, Trap>) -> Result<Option<i32>, Trap> {
    match res {
        Ok(p) => Ok(Some(offset_as_word(p))),
        Err(t) => Err(t),
    }
}

/// The mandatory header of a module image: the magic bytes and version that
/// every compiled image of this design begins with.
pub open spec fn image_header() -> Seq<u8> {
    seq![0u8, 0x61u8, 0x73u8, 0x6du8, 1u8, 0u8, 0u8, 0u8]
}

/// Whether a byte sequence is a loadable module image: long enough to hold
/// the header and beginning with it. Anything past the header is the compiled
/// guest code, opaque to the host.
pub open spec fn valid_image(img: Seq<u8>) -> bool {
    img.len() >= 8 && img.subrange(0, 8) == image_header()
}

/// Validates a module image and instantiates it with an empty import set —
/// the guest of this design imports nothing from the host. The instance's
/// linear memory may grow up to `ceiling` bytes, which must fit the guest's
/// 32-bit address space. A malformed image is reported and no instance is
/// produced.
pub fn load(image: &Vec<u8>, ceiling: usize) -> (r: Result<Instance, LoadError>)
    requires
        ceiling <= 0xFFFF_FFFF,
    ensures
        match r {
            Ok(i) => valid_image(image@) && i@ == fresh_instance(ceiling),
            Err(LoadError::Truncated) => image@.len() < 8,
            Err(LoadError::BadMagic) => image@.len() >= 8 && !valid_image(image@),
        },
{
    if image.len() < 8 {
        return Err(LoadError::Truncated);
    }
    if image[0] == 0u8 && image[1] == 0x61u8 && image[2] == 0x73u8 && image[3] == 0x6du8
        && image[4] == 1u8 && image[5] == 0u8 && image[6] == 0u8 && image[7] == 0u8 {
        proof {
            assert(image@.subrange(0, 8) =~= image_header());
        }
        Ok(Instance::instantiate(ceiling))
    } else {
        proof {
            if image@.subrange(0, 8) == image_header() {
                assert(forall|k: int| 0 <= k < 8 ==> image@[k] == image_header()[k]) by {
                    assert(forall|k: int|
                        0 <= k < 8 ==> image@[k] == #[trigger] image@.subrange(0, 8)[k]);
                }
            }
        }
        Err(LoadError::BadMagic)
    }
}

/// An owned handle for one outstanding heap region: it records the size and
/// alignment the offset was allocated with, so the matching release cannot be
/// mismatched. The handle is deliberately not copyable: releasing consumes
/// it, so the same handle cannot be released twice.
pub struct Region {
    offset: usize,
    size: usize,
    align: usize,
}

impl View for Region {
    type V = Allocation;

    closed spec fn view(&self) -> Allocation {
        Allocation { offset: self.offset, size: self.size, align: self.align }
    }
}

impl Region {
    /// The offset of the region in guest memory.
    pub fn offset(&self) -> (o: usize)
        ensures
            o == self@.offset,
    {
        self.offset
    }

    /// The size the region was allocated with.
    pub fn size(&self) -> (s: usize)
        ensures
            s == self@.size,
    {
        self.size
    }

    /// The alignment the region was allocated with.
    pub fn align(&self) -> (a: usize)
        ensures
            a == self@.align,
    {
        self.align
    }
}

/// Allocates a region and wraps the outstanding offset in an owned handle
/// that remembers its size and alignment.
pub fn alloc_region(instance: &mut Instance, size: usize, align: usize) -> (r: Result<Region, Trap>)
    ensures
        ({
            let (m2, res) = instance_allocate(old(instance)@, size, align);
            final(instance)@ == m2 && match r {
                Ok(region) => res is Ok && region@ == (Allocation {
                    offset: res->Ok_0,
                    size,
                    align,
                }),
                Err(t) => res == Err::<usize, Trap>(t),
            }
        }),
{
    match instance.allocate(size, align) {
        Ok(p) => Ok(Region { offset: p, size, align }),
        Err(t) => Err(t),
    }
}

/// Releases the region a handle stands for, with exactly the size and
/// alignment it was allocated with, consuming the handle.
pub fn free_region(instance: &mut Instance, region: Region) -> (r: Result<(), Trap>)
    ensures
        ({
            let (m2, res) = instance_deallocate(
                old(instance)@,
                region@.offset,
                region@.size,
                region@.align,
            );
            final(instance)@ == m2 && r == res
        }),
{
    instance.deallocate(region.offset, region.size, region.align)
}

} // verus!
