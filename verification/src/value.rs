//! The value record exchanged across the host/guest boundary: a fixed-layout
//! two-field integer point, eight bytes long with four-byte alignment, stored
//! in guest memory as two little-endian 32-bit integers.

use vstd::bytes::{spec_u32_from_le_bytes, spec_u32_to_le_bytes};
use vstd::prelude::*;

verus! {

/// A two-dimensional integer point: the value record of this interop design.
///
/// Both fields are inline primitives; no pointers are embedded, which is what
/// makes raw byte copying of a record across the boundary safe.
#[derive(Copy, Clone, Debug, PartialEq, Eq, Structural)]
pub struct Vec2 {
    pub x: i32,
    pub y: i32,
}

/// The record's size in bytes, as agreed by host and guest.
pub const RECORD_SIZE: usize = 8;

/// The record's alignment in bytes, as agreed by host and guest.
pub const RECORD_ALIGN: usize = 4;

/// The field-wise combination of two records: component-wise wrapping
/// addition, the arithmetic of the guest's 32-bit target.
pub open spec fn add_spec(a: Vec2, b: Vec2) -> Vec2 {
    Vec2 { x: a.x.wrapping_add(b.x), y: a.y.wrapping_add(b.y) }
}

/// Constructs a value record from its two fields.
pub fn new(x: i32, y: i32) -> (v: Vec2)
    ensures
        v == (Vec2 { x, y }),
{
    Vec2 { x, y }
}

/// Combines two value records field-wise with wrapping addition.
pub fn add(a: &Vec2, b: &Vec2) -> (r: Vec2)
    ensures
        r == add_spec(*a, *b),
{
    Vec2 { x: a.x.wrapping_add(b.x), y: a.y.wrapping_add(b.y) }
}

/// The little-endian byte image of a 32-bit signed field.
pub open spec fn le_bytes_of_i32(v: i32) -> Seq<u8> {
    spec_u32_to_le_bytes(v as u32)
}

/// The 32-bit signed field read back from its little-endian byte image.
pub open spec fn i32_of_le_bytes(b: Seq<u8>) -> i32
    recommends
        b.len() == 4,
{
    spec_u32_from_le_bytes(b) as i32
}

/// The eight-byte image of a value record: both fields little-endian, `x`
/// first.
pub open spec fn le_bytes_of_record(v: Vec2) -> Seq<u8> {
    le_bytes_of_i32(v.x) + le_bytes_of_i32(v.y)
}

/// The value record read back from its eight-byte image.
pub open spec fn record_of_le_bytes(b: Seq<u8>) -> Vec2
    recommends
        b.len() == 8,
{
    Vec2 { x: i32_of_le_bytes(b.subrange(0, 4)), y: i32_of_le_bytes(b.subrange(4, 8)) }
}

/// Encodes a value record into its eight-byte image, as the guest stores it
/// in memory.
pub fn record_to_bytes(v: &Vec2) -> (b: Vec<u8>)
    ensures
        b@ == le_bytes_of_record(*v),
{
    let mut b = vstd::bytes::u32_to_le_bytes(v.x as u32);
    let mut tail = vstd::bytes::u32_to_le_bytes(v.y as u32);
    b.append(&mut tail);
    b
}

/// Decodes a value record from its eight-byte image; any other length is
/// rejected.
pub fn record_from_bytes(b: &Vec<u8>) -> (r: Option<Vec2>)
    ensures
        b@.len() == 8 ==> r == Some(record_of_le_bytes(b@)),
        b@.len() != 8 ==> r is None,
{
    if b.len() == 8 {
        let x = crate::memory::load_u32_le(b, 0) as i32;
        let y = crate::memory::load_u32_le(b, 4) as i32;
        Some(Vec2 { x, y })
    } else {
        None
    }
}

/// A field survives the trip through its byte image unchanged, and a four-byte
/// image survives the trip through the field it denotes.
pub proof fn lemma_i32_le_bytes_round_trip()
    ensures
        forall|v: i32| #[trigger] le_bytes_of_i32(v).len() == 4,
        forall|v: i32| i32_of_le_bytes(#[trigger] le_bytes_of_i32(v)) == v,
        forall|b: Seq<u8>| b.len() == 4 ==> #[trigger] le_bytes_of_i32(i32_of_le_bytes(b)) == b,
{
    vstd::bytes::lemma_auto_spec_u32_to_from_le_bytes();
    assert forall|v: i32| #[trigger] le_bytes_of_i32(v).len() == 4 by {
        assert(spec_u32_to_le_bytes(v as u32).len() == 4);
    }
    assert forall|v: i32| i32_of_le_bytes(#[trigger] le_bytes_of_i32(v)) == v by {
        assert(spec_u32_to_le_bytes(v as u32).len() == 4);
        assert(spec_u32_from_le_bytes(spec_u32_to_le_bytes(v as u32)) == v as u32);
        assert(v as u32 as i32 == v) by (bit_vector);
    }
    assert forall|b: Seq<u8>| b.len() == 4 implies #[trigger] le_bytes_of_i32(i32_of_le_bytes(b))
        == b by {
        let w = spec_u32_from_le_bytes(b);
        assert(w as i32 as u32 == w) by (bit_vector);
        assert(spec_u32_to_le_bytes(spec_u32_from_le_bytes(b)) == b);
    }
}

/// A value record survives the trip through its eight-byte image unchanged,
/// and that image is always eight bytes long.
pub proof fn lemma_record_le_bytes_round_trip(v: Vec2)
    ensures
        le_bytes_of_record(v).len() == 8,
        record_of_le_bytes(le_bytes_of_record(v)) == v,
{
    lemma_i32_le_bytes_round_trip();
    let b = le_bytes_of_record(v);
    assert(b.subrange(0, 4) =~= le_bytes_of_i32(v.x));
    assert(b.subrange(4, 8) =~= le_bytes_of_i32(v.y));
}

/// The combination of two records does not depend on their order, down to the
/// byte image that the guest writes into memory.
pub proof fn lemma_add_commutative(a: Vec2, b: Vec2)
    ensures
        add_spec(a, b) == add_spec(b, a),
        le_bytes_of_record(add_spec(a, b)) == le_bytes_of_record(add_spec(b, a)),
{
}

/// The combination of three records does not depend on grouping.
pub proof fn lemma_add_associative(a: Vec2, b: Vec2, c: Vec2)
    ensures
        add_spec(add_spec(a, b), c) == add_spec(a, add_spec(b, c)),
{
}

} // verus!
