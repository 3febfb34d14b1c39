//! The guest's allocator, reframed as an explicit object owned by the module
//! instance: a bump allocator over the linear memory that records every live
//! region together with the size and alignment it was requested with.
//!
//! Released regions are retired rather than reused, and a release whose
//! offset, size or alignment does not match a live region is flagged instead
//! of silently corrupting the heap.

use crate::errors::Trap;
use crate::model::{
    heap_allocate, heap_deallocate, heap_wf, is_pow2, lemma_align_up, lemma_allocate_valid,
    lemma_deallocate_wf, lemma_pow2_pos, Allocation, HeapModel,
};
use vstd::prelude::*;

verus! {

/// Decides whether `n` is a power of two, by halving.
pub fn check_pow2(n: usize) -> (r: bool)
    ensures
        r == is_pow2(n as nat),
{
    if n == 0 {
        return false;
    }
    let mut v: usize = n;
    while v > 1
        invariant
            v >= 1,
            is_pow2(n as nat) == is_pow2(v as nat),
        decreases v,
    {
        if v % 2 == 1 {
            return false;
        }
        v = v / 2;
    }
    true
}

/// The guest allocator: the bump frontier, the growth ceiling and the table
/// of live regions.
pub struct Allocator {
    next: usize,
    ceiling: usize,
    live: Vec<Allocation>,
}

impl View for Allocator {
    type V = HeapModel;

    closed spec fn view(&self) -> HeapModel {
        HeapModel { live: self.live@, next: self.next, ceiling: self.ceiling }
    }
}

impl Allocator {
    #[verifier::type_invariant]
    spec fn type_inv(self) -> bool {
        heap_wf(self@)
    }

    /// A fresh allocator with nothing live, a frontier at zero and the given
    /// ceiling. The ceiling must fit the guest's 32-bit address space.
    pub fn with_ceiling(ceiling: usize) -> (a: Allocator)
        requires
            ceiling <= 0xFFFF_FFFF,
        ensures
            a@ == (HeapModel { live: Seq::<Allocation>::empty(), next: 0, ceiling }),
    {
        Allocator { next: 0, ceiling, live: Vec::new() }
    }

    /// Every reachable allocator state is well formed: live regions are
    /// aligned, lie below the frontier and are pairwise disjoint. Calling
    /// this does nothing at run time; it hands the fact to a verified caller.
    pub fn well_formed(&self)
        ensures
            heap_wf(self@),
    {
        proof {
            use_type_invariant(&*self);
        }
    }

    /// The current bump frontier: all live regions lie below it.
    pub fn frontier(&self) -> (n: usize)
        ensures
            n == self@.next,
    {
        self.next
    }

    /// The ceiling the heap may grow to.
    pub fn limit(&self) -> (n: usize)
        ensures
            n == self@.ceiling,
    {
        self.ceiling
    }

    /// How many regions are currently live.
    pub fn live_count(&self) -> (n: usize)
        ensures
            n == self@.live.len(),
    {
        self.live.len()
    }

    /// Reserves `size` bytes aligned to `align` and returns their offset, or
    /// traps: on an alignment that is not a power of two, or when the span
    /// would end past the ceiling. A zero-size request still reserves one
    /// byte, so the returned offset is distinct from every other live one.
    pub fn allocate(&mut self, size: usize, align: usize) -> (r: Result<usize, Trap>)
        ensures
            ({
                let (h2, res) = heap_allocate(old(self)@, size, align);
                final(self)@ == h2 && r == res
            }),
    {
        proof {
            use_type_invariant(&*self);
        }
        if !check_pow2(align) {
            return Err(Trap::BadLayout);
        }
        proof {
            lemma_pow2_pos(align as nat);
            lemma_align_up(self.next as int, align as int);
        }
        let rem = self.next % align;
        let pad = if rem == 0 {
            0
        } else {
            align - rem
        };
        if pad > self.ceiling - self.next {
            return Err(Trap::OutOfMemory);
        }
        let p = self.next + pad;
        let span = if size == 0 {
            1
        } else {
            size
        };
        if span > self.ceiling - p {
            return Err(Trap::OutOfMemory);
        }
        proof {
            lemma_allocate_valid(self@, size, align);
        }
        let mut live: Vec<Allocation> = Vec::new();
        core::mem::swap(&mut live, &mut self.live);
        live.push(Allocation { offset: p, size, align });
        self.next = p + span;
        self.live = live;
        Ok(p)
    }

    /// Releases the live region recorded with exactly this offset, size and
    /// alignment, or traps when none is: a double free or a mismatched free.
    pub fn deallocate(&mut self, offset: usize, size: usize, align: usize) -> (r: Result<
        (),
        Trap,
    >)
        ensures
            ({
                let (h2, res) = heap_deallocate(old(self)@, offset, size, align);
                final(self)@ == h2 && r == res
            }),
    {
        proof {
            use_type_invariant(&*self);
        }
        let a = Allocation { offset, size, align };
        let n = self.live.len();
        let mut i: usize = 0;
        while i < n
            invariant
                *self == *old(self),
                n == self.live@.len(),
                i <= n,
                a == (Allocation { offset, size, align }),
                forall|k: int| 0 <= k < i ==> self.live@[k] != a,
            decreases n - i,
        {
            if self.live[i] == a {
                proof {
                    use_type_invariant(&*self);
                    lemma_deallocate_wf(self@, offset, size, align);
                    self.live@.index_of_first_ensures(a);
                }
                let mut live: Vec<Allocation> = Vec::new();
                core::mem::swap(&mut live, &mut self.live);
                live.remove(i);
                self.live = live;
                return Ok(());
            }
            i = i + 1;
        }
        assert(!self@.live.contains(a));
        Err(Trap::InvalidFree)
    }
}

} // verus!
