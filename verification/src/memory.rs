//! Byte-level helpers on the linear memory: zero growth, bounded writes and
//! snapshot reads, and little-endian stores and loads of 32-bit fields.

use crate::model::{splice, zero_extend};
use vstd::bytes::{spec_u32_from_le_bytes, spec_u32_to_le_bytes, u32_from_le_bytes, u32_to_le_bytes};
use vstd::prelude::*;
use vstd::slice::slice_subrange;

verus! {

/// Extends `mem` with zero bytes up to length `n`; leaves it unchanged when
/// it is already at least that long.
pub fn grow_to(mem: &mut Vec<u8>, n: usize)
    ensures
        final(mem)@ == zero_extend(old(mem)@, n as int),
{
    let ghost start = mem@;
    while mem.len() < n
        invariant
            start.len() <= mem@.len(),
            mem@.len() <= n || mem@.len() == start.len(),
            forall|k: int| 0 <= k < start.len() ==> mem@[k] == start[k],
            forall|k: int| start.len() <= k < mem@.len() ==> mem@[k] == 0u8,
        decreases n - mem@.len(),
    {
        mem.push(0u8);
    }
    assert(mem@ =~= zero_extend(start, n as int));
}

/// Copies `bytes` into `mem` at offset `p`; the destination range must lie
/// within the memory.
pub fn write_bytes(mem: &mut Vec<u8>, p: usize, bytes: &[u8])
    requires
        p + bytes@.len() <= old(mem)@.len(),
    ensures
        final(mem)@ == splice(old(mem)@, p as int, bytes@),
{
    let ghost start = mem@;
    let n = bytes.len();
    let total = mem.len();
    let mut i: usize = 0;
    while i < n
        invariant
            n == bytes@.len(),
            i <= n,
            p + n <= total,
            mem@.len() == total,
            mem@.len() == start.len(),
            forall|k: int| 0 <= k < p ==> mem@[k] == start[k],
            forall|k: int| 0 <= k < i ==> mem@[p + k] == bytes@[k],
            forall|k: int| p + n <= k < mem@.len() ==> mem@[k] == start[k],
        decreases n - i,
    {
        mem[p + i] = bytes[i];
        i = i + 1;
    }
    assert(mem@ =~= splice(start, p as int, bytes@));
}

/// Returns a snapshot copy of the `len` bytes of `mem` starting at `p`; the
/// range must lie within the memory.
pub fn read_bytes(mem: &Vec<u8>, p: usize, len: usize) -> (r: Vec<u8>)
    requires
        p + len <= mem@.len(),
    ensures
        r@ == mem@.subrange(p as int, p + len),
{
    let total = mem.len();
    let mut r: Vec<u8> = Vec::new();
    let mut i: usize = 0;
    while i < len
        invariant
            i <= len,
            p + len <= total,
            total == mem@.len(),
            r@.len() == i,
            forall|k: int| 0 <= k < i ==> r@[k] == mem@[p + k],
        decreases len - i,
    {
        r.push(mem[p + i]);
        i = i + 1;
    }
    assert(r@ =~= mem@.subrange(p as int, p + len));
    r
}

/// Stores the little-endian image of `v` at offset `p` of `mem`; the four
/// bytes must lie within the memory.
pub fn store_u32_le(mem: &mut Vec<u8>, p: usize, v: u32)
    requires
        p + 4 <= old(mem)@.len(),
    ensures
        final(mem)@ == splice(old(mem)@, p as int, spec_u32_to_le_bytes(v)),
{
    let b = u32_to_le_bytes(v);
    write_bytes(mem, p, b.as_slice());
}

/// Loads the 32-bit value stored little-endian at offset `p` of `mem`; the
/// four bytes must lie within the memory.
pub fn load_u32_le(mem: &Vec<u8>, p: usize) -> (v: u32)
    requires
        p + 4 <= mem@.len(),
    ensures
        v == spec_u32_from_le_bytes(mem@.subrange(p as int, p + 4)),
{
    let total = mem.len();
    assert(p + 4 <= total);
    let s = slice_subrange(mem.as_slice(), p, p + 4);
    u32_from_le_bytes(s)
}

} // verus!
