//! A live module instance: the guest's linear memory together with its
//! allocator, and the guest entry points that operate on them.
//!
//! Each entry point is synchronous and runs to completion; its whole effect
//! on the instance is given by the corresponding transition function of the
//! model. A trap leaves the instance state unchanged here, but the host
//! should still treat a trapped instance as unusable and re-instantiate.

use crate::errors::Trap;
use crate::heap::Allocator;
use crate::memory::{grow_to, load_u32_le, read_bytes, store_u32_le, write_bytes};
use crate::model::{
    fresh_instance, instance_allocate, instance_combine, instance_construct, instance_deallocate,
    instance_read, instance_wf, instance_write, lemma_allocate_valid, record_at, splice,
    InstanceModel,
};
use crate::value::{le_bytes_of_record, Vec2};
use vstd::prelude::*;

verus! {

/// A live, instantiated guest module: a linear byte memory and the allocator
/// that manages which of its ranges are reserved.
pub struct Instance {
    mem: Vec<u8>,
    heap: Allocator,
}

impl View for Instance {
    type V = InstanceModel;

    closed spec fn view(&self) -> InstanceModel {
        InstanceModel { mem: self.mem@, heap: self.heap@ }
    }
}

impl Instance {
    #[verifier::type_invariant]
    spec fn type_inv(self) -> bool {
        self.mem@.len() == self.heap@.next
    }

    /// A fresh instance with an empty memory and the given growth ceiling.
    pub(crate) fn instantiate(ceiling: usize) -> (i: Instance)
        requires
            ceiling <= 0xFFFF_FFFF,
        ensures
            i@ == fresh_instance(ceiling),
    {
        Instance { mem: Vec::new(), heap: Allocator::with_ceiling(ceiling) }
    }

    /// An inert instance used to keep `self` whole while its parts are
    /// worked on.
    fn placeholder() -> (i: Instance)
        ensures
            i@ == fresh_instance(0),
    {
        Instance { mem: Vec::new(), heap: Allocator::with_ceiling(0) }
    }

    /// Every reachable instance satisfies the model's well-formedness: the
    /// allocator is well formed and the linear memory covers the heap exactly
    /// up to its frontier. Calling this does nothing at run time; it hands
    /// the fact to a verified caller.
    pub fn well_formed(&self)
        ensures
            instance_wf(self@),
    {
        proof {
            use_type_invariant(&*self);
        }
        self.heap.well_formed();
    }

    /// The current length of the linear memory.
    pub fn memory_len(&self) -> (n: usize)
        ensures
            n == self@.mem.len(),
    {
        self.mem.len()
    }

    /// How many heap regions are currently live.
    pub fn live_count(&self) -> (n: usize)
        ensures
            n == self@.heap.live.len(),
    {
        self.heap.live_count()
    }

    /// The guest's `allocate` entry point: reserves `size` bytes aligned to
    /// `align`, transparently growing the linear memory up to the ceiling,
    /// and returns their offset; traps on an alignment that is not a power of
    /// two or when the region would end past the ceiling.
    pub fn allocate(&mut self, size: usize, align: usize) -> (r: Result<usize, Trap>)
        ensures
            ({
                let (m2, res) = instance_allocate(old(self)@, size, align);
                final(self)@ == m2 && r == res
            }),
    {
        proof {
            use_type_invariant(&*self);
        }
        let mut tmp = Instance::placeholder();
        core::mem::swap(&mut tmp, self);
        let Instance { mut mem, mut heap } = tmp;
        let ghost h0 = heap@;
        heap.well_formed();
        let r = heap.allocate(size, align);
        if r.is_ok() {
            proof {
                lemma_allocate_valid(h0, size, align);
            }
            let n = heap.frontier();
            grow_to(&mut mem, n);
        }
        *self = Instance { mem, heap };
        r
    }

    /// The guest's `deallocate` entry point: releases the region previously
    /// returned by `allocate`, presented with the same size and alignment;
    /// traps on a double free or a mismatched size or alignment.
    pub fn deallocate(&mut self, offset: usize, size: usize, align: usize) -> (r: Result<
        (),
        Trap,
    >)
        ensures
            ({
                let (m2, res) = instance_deallocate(old(self)@, offset, size, align);
                final(self)@ == m2 && r == res
            }),
    {
        proof {
            use_type_invariant(&*self);
        }
        let mut tmp = Instance::placeholder();
        core::mem::swap(&mut tmp, self);
        let Instance { mem, mut heap } = tmp;
        let r = heap.deallocate(offset, size, align);
        *self = Instance { mem, heap };
        r
    }

    /// The guest's `construct` entry point: writes the byte image of the
    /// record with fields `x`, `y` into memory at `out`; traps when the eight
    /// bytes would reach past the end of the memory.
    pub fn construct(&mut self, out: usize, x: i32, y: i32) -> (r: Result<(), Trap>)
        ensures
            ({
                let (m2, res) = instance_construct(old(self)@, out, x, y);
                final(self)@ == m2 && r == res
            }),
    {
        proof {
            use_type_invariant(&*self);
        }
        let mut tmp = Instance::placeholder();
        core::mem::swap(&mut tmp, self);
        let Instance { mut mem, heap } = tmp;
        let ghost m0 = mem@;
        let len = mem.len();
        let r = if len >= 8 && out <= len - 8 {
            proof {
                vstd::bytes::lemma_auto_spec_u32_to_from_le_bytes();
            }
            store_u32_le(&mut mem, out, x as u32);
            store_u32_le(&mut mem, out + 4, y as u32);
            assert(mem@ =~= splice(m0, out as int, le_bytes_of_record(Vec2 { x, y })));
            Ok(())
        } else {
            Err(Trap::OutOfBounds)
        };
        *self = Instance { mem, heap };
        r
    }

    /// The guest's `combine` entry point: reads the records at `a` and `b`,
    /// writes the byte image of their field-wise combination at `out`; traps
    /// when any of the three eight-byte regions would reach past the end of
    /// the memory. Both inputs are read before the output is written.
    pub fn combine(&mut self, out: usize, a: usize, b: usize) -> (r: Result<(), Trap>)
        ensures
            ({
                let (m2, res) = instance_combine(old(self)@, out, a, b);
                final(self)@ == m2 && r == res
            }),
    {
        proof {
            use_type_invariant(&*self);
        }
        let mut tmp = Instance::placeholder();
        core::mem::swap(&mut tmp, self);
        let Instance { mut mem, heap } = tmp;
        let ghost m0 = mem@;
        let len = mem.len();
        let r = if len >= 8 && out <= len - 8 && a <= len - 8 && b <= len - 8 {
            proof {
                vstd::bytes::lemma_auto_spec_u32_to_from_le_bytes();
            }
            let ra = Vec2 { x: load_u32_le(&mem, a) as i32, y: load_u32_le(&mem, a + 4) as i32 };
            let rb = Vec2 { x: load_u32_le(&mem, b) as i32, y: load_u32_le(&mem, b + 4) as i32 };
            assert(m0.subrange(a as int, a + 8).subrange(0, 4) =~= m0.subrange(a as int, a + 4));
            assert(m0.subrange(a as int, a + 8).subrange(4, 8) =~= m0.subrange(a + 4, a + 8));
            assert(m0.subrange(b as int, b + 8).subrange(0, 4) =~= m0.subrange(b as int, b + 4));
            assert(m0.subrange(b as int, b + 8).subrange(4, 8) =~= m0.subrange(b + 4, b + 8));
            assert(ra == record_at(m0, a as int));
            assert(rb == record_at(m0, b as int));
            let rr = crate::value::add(&ra, &rb);
            store_u32_le(&mut mem, out, rr.x as u32);
            store_u32_le(&mut mem, out + 4, rr.y as u32);
            assert(mem@ =~= splice(m0, out as int, le_bytes_of_record(rr)));
            Ok(())
        } else {
            Err(Trap::OutOfBounds)
        };
        *self = Instance { mem, heap };
        r
    }

    /// The host's snapshot read: a copy of the `len` bytes of guest memory
    /// starting at `p`; traps when the range reaches past the end of the
    /// memory.
    pub fn read(&self, p: usize, len: usize) -> (r: Result<Vec<u8>, Trap>)
        ensures
            ({
                let res = instance_read(self@, p, len);
                match r {
                    Ok(v) => res == Ok::<Seq<u8>, Trap>(v@),
                    Err(t) => res == Err::<Seq<u8>, Trap>(t),
                }
            }),
    {
        let total = self.mem.len();
        if len <= total && p <= total - len {
            Ok(read_bytes(&self.mem, p, len))
        } else {
            Err(Trap::OutOfBounds)
        }
    }

    /// The host's write of raw bytes into guest memory at `p`; traps when the
    /// range reaches past the end of the memory. The caller must own the
    /// range, typically by having just allocated it.
    pub fn write(&mut self, p: usize, bytes: &[u8]) -> (r: Result<(), Trap>)
        ensures
            ({
                let (m2, res) = instance_write(old(self)@, p, bytes@);
                final(self)@ == m2 && r == res
            }),
    {
        proof {
            use_type_invariant(&*self);
        }
        let mut tmp = Instance::placeholder();
        core::mem::swap(&mut tmp, self);
        let Instance { mut mem, heap } = tmp;
        let n = bytes.len();
        let total = mem.len();
        let r = if n <= total && p <= total - n {
            write_bytes(&mut mem, p, bytes);
            Ok(())
        } else {
            Err(Trap::OutOfBounds)
        };
        *self = Instance { mem, heap };
        r
    }
}

} // verus!
