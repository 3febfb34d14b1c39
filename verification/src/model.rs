//! The mathematical model of an instantiated guest module.
//!
//! Every executable operation of the crate is specified against the functions
//! here: a heap model (the live allocations, the bump frontier and the memory
//! ceiling), a memory model (the bytes of the linear memory), and one total,
//! deterministic transition function per guest entry point.

use crate::errors::Trap;
use crate::value::{add_spec, le_bytes_of_record, record_of_le_bytes, Vec2};
use vstd::arithmetic::div_mod::{
    lemma_fundamental_div_mod, lemma_mod_bound, lemma_mod_multiples_basic,
};
use vstd::prelude::*;

verus! {

/// One live heap region: the offset the guest allocator handed out together
/// with the size and alignment it was requested with. The caller must present
/// the same size and alignment to release it.
#[derive(Copy, Clone, Debug, PartialEq, Eq, Structural)]
pub struct Allocation {
    pub offset: usize,
    pub size: usize,
    pub align: usize,
}

/// Whether `n` is a power of two; alignments must satisfy this.
pub open spec fn is_pow2(n: nat) -> bool
    decreases n,
{
    if n == 0 {
        false
    } else if n == 1 {
        true
    } else {
        n % 2 == 0 && is_pow2(n / 2)
    }
}

/// The number of heap bytes a region of `size` requested bytes occupies: a
/// zero-size allocation still occupies one byte, so that every live region
/// has a distinct offset.
pub open spec fn span_of(size: int) -> int {
    if size == 0 {
        1
    } else {
        size
    }
}

/// The smallest multiple of `align` that is at least `n`.
pub open spec fn align_up(n: int, align: int) -> int
    recommends
        align >= 1,
{
    if n % align == 0 {
        n
    } else {
        n + align - n % align
    }
}

/// The first byte past a live region.
pub open spec fn alloc_end(a: Allocation) -> int {
    a.offset + span_of(a.size as int)
}

/// A live region is well formed below the heap frontier `next`: its alignment
/// is a power of two, its offset honours it, and it lies before the frontier.
pub open spec fn alloc_wf(a: Allocation, next: int) -> bool {
    &&& is_pow2(a.align as nat)
    &&& a.offset as int % a.align as int == 0
    &&& alloc_end(a) <= next
}

/// Two live regions occupy disjoint byte ranges.
pub open spec fn disjoint(a: Allocation, b: Allocation) -> bool {
    alloc_end(a) <= b.offset || alloc_end(b) <= a.offset
}

/// The state of the guest's allocator: the regions currently live, the bump
/// frontier below which all of them lie, and the ceiling the linear memory
/// may grow to.
pub struct HeapModel {
    pub live: Seq<Allocation>,
    pub next: usize,
    pub ceiling: usize,
}

/// Well-formedness of the allocator state: the frontier is below the ceiling,
/// the ceiling fits the guest's 32-bit address space, every live region is
/// well formed, and the live regions are pairwise disjoint.
pub open spec fn heap_wf(h: HeapModel) -> bool {
    &&& h.next <= h.ceiling <= 0xFFFF_FFFF
    &&& forall|i: int| 0 <= i < h.live.len() ==> alloc_wf(#[trigger] h.live[i], h.next as int)
    &&& forall|i: int, j: int|
        0 <= i < j < h.live.len() ==> disjoint(#[trigger] h.live[i], #[trigger] h.live[j])
}

/// The allocator's transition on an allocation request: reserve the first
/// aligned span at or past the frontier, or trap when the alignment is not a
/// power of two or the span would end past the ceiling. The state is
/// unchanged on a trap.
pub open spec fn heap_allocate(h: HeapModel, size: usize, align: usize) -> (HeapModel, Result<
    usize,
    Trap,
>) {
    if !is_pow2(align as nat) {
        (h, Err(Trap::BadLayout))
    } else {
        let p = align_up(h.next as int, align as int);
        if p + span_of(size as int) > h.ceiling {
            (h, Err(Trap::OutOfMemory))
        } else {
            let a = Allocation { offset: p as usize, size, align };
            (
                HeapModel {
                    live: h.live.push(a),
                    next: (p + span_of(size as int)) as usize,
                    ceiling: h.ceiling,
                },
                Ok(p as usize),
            )
        }
    }
}

/// The allocator's transition on a release: retire the live region recorded
/// with exactly this offset, size and alignment, or trap when none is — a
/// double free or a mismatched free. Released bytes are retired, not reused;
/// the frontier does not move.
pub open spec fn heap_deallocate(h: HeapModel, offset: usize, size: usize, align: usize) -> (
    HeapModel,
    Result<(), Trap>,
) {
    let a = Allocation { offset, size, align };
    if h.live.contains(a) {
        (HeapModel { live: h.live.remove_value(a), next: h.next, ceiling: h.ceiling }, Ok(()))
    } else {
        (h, Err(Trap::InvalidFree))
    }
}

/// The state of a whole module instance: its linear memory bytes and its
/// allocator.
pub struct InstanceModel {
    pub mem: Seq<u8>,
    pub heap: HeapModel,
}

/// Well-formedness of an instance: the allocator is well formed and the
/// linear memory covers the heap exactly up to the frontier.
pub open spec fn instance_wf(m: InstanceModel) -> bool {
    &&& heap_wf(m.heap)
    &&& m.mem.len() == m.heap.next
}

/// The freshly instantiated module: empty memory, no live allocations, a
/// frontier at zero and the given growth ceiling.
pub open spec fn fresh_instance(ceiling: usize) -> InstanceModel {
    InstanceModel {
        mem: Seq::empty(),
        heap: HeapModel { live: Seq::empty(), next: 0, ceiling },
    }
}

/// `s` with the `b.len()` bytes starting at `p` replaced by `b`.
pub open spec fn splice(s: Seq<u8>, p: int, b: Seq<u8>) -> Seq<u8>
    recommends
        0 <= p,
        p + b.len() <= s.len(),
{
    s.subrange(0, p).add(b).add(s.subrange(p + b.len(), s.len() as int))
}

/// `s` extended with zero bytes up to length `n` (unchanged when already that
/// long).
pub open spec fn zero_extend(s: Seq<u8>, n: int) -> Seq<u8> {
    if s.len() >= n {
        s
    } else {
        s.add(Seq::new((n - s.len()) as nat, |i: int| 0u8))
    }
}

/// The value record stored at offset `p` of memory `s`.
pub open spec fn record_at(s: Seq<u8>, p: int) -> Vec2
    recommends
        0 <= p,
        p + 8 <= s.len(),
{
    record_of_le_bytes(s.subrange(p, p + 8))
}

/// The instance transition of the guest's `allocate` entry point: the heap
/// transition, with the linear memory transparently grown to the new
/// frontier.
pub open spec fn instance_allocate(m: InstanceModel, size: usize, align: usize) -> (
    InstanceModel,
    Result<usize, Trap>,
) {
    let (h, r) = heap_allocate(m.heap, size, align);
    match r {
        Ok(p) => (InstanceModel { mem: zero_extend(m.mem, h.next as int), heap: h }, Ok(p)),
        Err(t) => (m, Err(t)),
    }
}

/// The instance transition of the guest's `deallocate` entry point: the heap
/// transition; the memory bytes are untouched.
pub open spec fn instance_deallocate(m: InstanceModel, offset: usize, size: usize, align: usize) -> (
    InstanceModel,
    Result<(), Trap>,
) {
    let (h, r) = heap_deallocate(m.heap, offset, size, align);
    match r {
        Ok(u) => (InstanceModel { mem: m.mem, heap: h }, Ok(u)),
        Err(t) => (m, Err(t)),
    }
}

/// The instance transition of the guest's `construct` entry point: write the
/// byte image of the record with fields `x`, `y` at `out`, or trap when the
/// eight bytes do not fit in the linear memory.
pub open spec fn instance_construct(m: InstanceModel, out: usize, x: i32, y: i32) -> (
    InstanceModel,
    Result<(), Trap>,
) {
    if out + 8 <= m.mem.len() {
        (
            InstanceModel {
                mem: splice(m.mem, out as int, le_bytes_of_record(Vec2 { x, y })),
                heap: m.heap,
            },
            Ok(()),
        )
    } else {
        (m, Err(Trap::OutOfBounds))
    }
}

/// The instance transition of the guest's `combine` entry point: read the
/// records at `a` and `b`, write the byte image of their field-wise
/// combination at `out`, or trap when any of the three regions reaches past
/// the end of the linear memory. Both inputs are read before the output is
/// written, so the result is defined even when `out` aliases an input.
pub open spec fn instance_combine(m: InstanceModel, out: usize, a: usize, b: usize) -> (
    InstanceModel,
    Result<(), Trap>,
) {
    if out + 8 <= m.mem.len() && a + 8 <= m.mem.len() && b + 8 <= m.mem.len() {
        let r = add_spec(record_at(m.mem, a as int), record_at(m.mem, b as int));
        (
            InstanceModel { mem: splice(m.mem, out as int, le_bytes_of_record(r)), heap: m.heap },
            Ok(()),
        )
    } else {
        (m, Err(Trap::OutOfBounds))
    }
}

/// The host's snapshot read of `len` bytes at `p`: a copy of the current
/// bytes, or an error when the range reaches past the end of the memory.
pub open spec fn instance_read(m: InstanceModel, p: usize, len: usize) -> Result<Seq<u8>, Trap> {
    if p + len <= m.mem.len() {
        Ok(m.mem.subrange(p as int, p + len))
    } else {
        Err(Trap::OutOfBounds)
    }
}

/// The host's write of `bytes` at `p`: the bytes replaced in place, or an
/// error when the range reaches past the end of the memory.
pub open spec fn instance_write(m: InstanceModel, p: usize, bytes: Seq<u8>) -> (
    InstanceModel,
    Result<(), Trap>,
) {
    if p + bytes.len() <= m.mem.len() {
        (InstanceModel { mem: splice(m.mem, p as int, bytes), heap: m.heap }, Ok(()))
    } else {
        (m, Err(Trap::OutOfBounds))
    }
}

/// Writing a record's byte image and reading a record back at the same
/// offset yields the record written.
pub proof fn lemma_record_at_splice(s: Seq<u8>, p: int, v: Vec2)
    requires
        0 <= p,
        p + 8 <= s.len(),
    ensures
        record_at(splice(s, p, le_bytes_of_record(v)), p) == v,
{
    crate::value::lemma_record_le_bytes_round_trip(v);
    assert(splice(s, p, le_bytes_of_record(v)).subrange(p, p + 8) =~= le_bytes_of_record(v));
}

/// A write leaves every byte range disjoint from it unchanged.
pub proof fn lemma_splice_frame(s: Seq<u8>, p: int, b: Seq<u8>, q: int, len: int)
    requires
        0 <= p,
        p + b.len() <= s.len(),
        0 <= q,
        0 <= len,
        q + len <= s.len(),
        q + len <= p || p + b.len() <= q,
    ensures
        splice(s, p, b).subrange(q, q + len) == s.subrange(q, q + len),
{
    assert(splice(s, p, b).subrange(q, q + len) =~= s.subrange(q, q + len));
}

/// Growing the memory leaves every byte range below the old length
/// unchanged.
pub proof fn lemma_zero_extend_frame(s: Seq<u8>, n: int, q: int, len: int)
    requires
        0 <= q,
        0 <= len,
        q + len <= s.len(),
    ensures
        zero_extend(s, n).subrange(q, q + len) == s.subrange(q, q + len),
{
    assert(zero_extend(s, n).subrange(q, q + len) =~= s.subrange(q, q + len));
}

/// Rounding up to an alignment stays within one alignment of the start and
/// lands on a multiple of the alignment.
pub proof fn lemma_align_up(n: int, align: int)
    requires
        n >= 0,
        align >= 1,
    ensures
        n <= align_up(n, align) < n + align,
        align_up(n, align) % align == 0,
{
    lemma_mod_bound(n, align);
    if n % align != 0 {
        lemma_fundamental_div_mod(n, align);
        assert(align_up(n, align) == align * (n / align) + align);
        assert(align * (n / align) + align == (n / align + 1) * align) by (nonlinear_arith);
        lemma_mod_multiples_basic(n / align + 1, align);
    }
}

/// A power of two is at least one.
pub proof fn lemma_pow2_pos(n: nat)
    requires
        is_pow2(n),
    ensures
        n >= 1,
{
}

/// Every successful allocation is valid: on a well-formed heap, `allocate`
/// returns an offset aligned to the requested power-of-two alignment, the new
/// region is disjoint from every region that was live before (and its offset
/// distinct from theirs), the heap stays well formed, and the new region is
/// live afterwards, so releasing it with the same size and alignment
/// succeeds.
pub proof fn lemma_allocate_valid(h: HeapModel, size: usize, align: usize)
    requires
        heap_wf(h),
        heap_allocate(h, size, align).1 is Ok,
    ensures
        ({
            let (h2, r) = heap_allocate(h, size, align);
            let p = r->Ok_0;
            let a = Allocation { offset: p, size, align };
            &&& is_pow2(align as nat)
            &&& p as int % align as int == 0
            &&& p + span_of(size as int) <= h2.next <= h2.ceiling
            &&& h2.live == h.live.push(a)
            &&& h2.ceiling == h.ceiling
            &&& h.next <= p
            &&& forall|i: int| 0 <= i < h.live.len() ==> disjoint(#[trigger] h.live[i], a)
            &&& forall|i: int| 0 <= i < h.live.len() ==> #[trigger] h.live[i].offset != p
            &&& heap_wf(h2)
            &&& heap_deallocate(h2, p, size, align).1 is Ok
        }),
{
    let (h2, r) = heap_allocate(h, size, align);
    let p = r->Ok_0;
    let a = Allocation { offset: p, size, align };
    lemma_pow2_pos(align as nat);
    lemma_align_up(h.next as int, align as int);
    assert forall|i: int| 0 <= i < h.live.len() implies disjoint(#[trigger] h.live[i], a) by {
        assert(alloc_wf(h.live[i], h.next as int));
    }
    assert forall|i: int| 0 <= i < h.live.len() implies #[trigger] h.live[i].offset != p by {
        assert(alloc_wf(h.live[i], h.next as int));
        assert(span_of(h.live[i].size as int) >= 1);
    }
    assert(heap_wf(h2)) by {
        assert(forall|i: int|
            0 <= i < h.live.len() ==> h2.live[i] == #[trigger] h.live[i]);
        assert(h2.live[h.live.len() as int] == a);
        assert(alloc_wf(a, h2.next as int));
    }
    assert(h2.live.contains(a)) by {
        assert(h2.live[h.live.len() as int] == a);
    }
}

/// Releasing a live region preserves well-formedness of the heap: the
/// remaining regions are still individually well formed and pairwise
/// disjoint, and the frontier and ceiling are unchanged.
pub proof fn lemma_deallocate_wf(h: HeapModel, offset: usize, size: usize, align: usize)
    requires
        heap_wf(h),
    ensures
        ({
            let (h2, r) = heap_deallocate(h, offset, size, align);
            &&& heap_wf(h2)
            &&& h2.next == h.next
            &&& h2.ceiling == h.ceiling
            &&& (r is Ok <==> h.live.contains(Allocation { offset, size, align }))
        }),
{
    let a = Allocation { offset, size, align };
    if h.live.contains(a) {
        h.live.index_of_first_ensures(a);
        let i = h.live.index_of_first(a)->Some_0;
        let rest = h.live.remove(i);
        assert forall|k: int| 0 <= k < rest.len() implies alloc_wf(
            #[trigger] rest[k],
            h.next as int,
        ) by {
            if k < i {
                assert(rest[k] == h.live[k]);
            } else {
                assert(rest[k] == h.live[k + 1]);
            }
        }
        assert forall|k: int, l: int| 0 <= k < l < rest.len() implies disjoint(
            #[trigger] rest[k],
            #[trigger] rest[l],
        ) by {
            let k0 = if k < i {
                k
            } else {
                k + 1
            };
            let l0 = if l < i {
                l
            } else {
                l + 1
            };
            assert(rest[k] == h.live[k0]);
            assert(rest[l] == h.live[l0]);
        }
    }
}

/// Every transition of the instance model preserves its well-formedness:
/// whatever a well-formed instance is asked to do, and whether it succeeds or
/// traps, the state it is left in is well formed again.
pub proof fn lemma_transitions_preserve_wf(
    m: InstanceModel,
    out: usize,
    x: i32,
    y: i32,
    a: usize,
    b: usize,
    p: usize,
    size: usize,
    align: usize,
    bytes: Seq<u8>,
)
    requires
        instance_wf(m),
    ensures
        instance_wf(instance_allocate(m, size, align).0),
        instance_wf(instance_deallocate(m, p, size, align).0),
        instance_wf(instance_construct(m, out, x, y).0),
        instance_wf(instance_combine(m, out, a, b).0),
        instance_wf(instance_write(m, p, bytes).0),
{
    if heap_allocate(m.heap, size, align).1 is Ok {
        lemma_allocate_valid(m.heap, size, align);
    }
    lemma_deallocate_wf(m.heap, p, size, align);
    crate::value::lemma_record_le_bytes_round_trip(Vec2 { x, y });
    crate::value::lemma_record_le_bytes_round_trip(
        add_spec(record_at(m.mem, a as int), record_at(m.mem, b as int)),
    );
}

/// Release, then allocate again with the same size and alignment: the fresh
/// offset — whether or not it reuses the released one — again lands on the
/// alignment and is disjoint from everything still live. Reuse itself is
/// implementation-defined and not promised.
pub proof fn lemma_allocate_after_free(
    h: HeapModel,
    offset: usize,
    size: usize,
    align: usize,
)
    requires
        heap_wf(h),
        heap_deallocate(h, offset, size, align).1 is Ok,
        heap_allocate(heap_deallocate(h, offset, size, align).0, size, align).1 is Ok,
    ensures
        ({
            let h1 = heap_deallocate(h, offset, size, align).0;
            let (h2, r) = heap_allocate(h1, size, align);
            let q = r->Ok_0;
            &&& q as int % align as int == 0
            &&& heap_wf(h2)
            &&& forall|i: int|
                0 <= i < h1.live.len() ==> disjoint(
                    #[trigger] h1.live[i],
                    Allocation { offset: q, size, align },
                )
        }),
{
    lemma_deallocate_wf(h, offset, size, align);
    let h1 = heap_deallocate(h, offset, size, align).0;
    lemma_allocate_valid(h1, size, align);
}

/// The guest's `combine` entry point is commutative in its two input
/// regions, byte for byte: swapping them yields the identical instance state
/// and the identical outcome.
pub proof fn lemma_combine_commutative(m: InstanceModel, out: usize, a: usize, b: usize)
    ensures
        instance_combine(m, out, a, b) == instance_combine(m, out, b, a),
{
    if out + 8 <= m.mem.len() && a + 8 <= m.mem.len() && b + 8 <= m.mem.len() {
        crate::value::lemma_add_commutative(record_at(m.mem, a as int), record_at(m.mem, b as int));
    }
}

} // verus!
