//! Byte layouts of 64-bit keys, as handed to filters that hash bytes.
use vstd::prelude::*;

verus! {

/// The big-endian bytes of `x`.
pub open spec fn be_bytes(x: u64) -> Seq<u8> {
    seq![
        (x >> 56u64) as u8,
        (x >> 48u64) as u8,
        (x >> 40u64) as u8,
        (x >> 32u64) as u8,
        (x >> 24u64) as u8,
        (x >> 16u64) as u8,
        (x >> 8u64) as u8,
        x as u8,
    ]
}

/// The little-endian bytes of `x`.
pub open spec fn le_bytes(x: u64) -> Seq<u8> {
    seq![
        x as u8,
        (x >> 8u64) as u8,
        (x >> 16u64) as u8,
        (x >> 24u64) as u8,
        (x >> 32u64) as u8,
        (x >> 40u64) as u8,
        (x >> 48u64) as u8,
        (x >> 56u64) as u8,
    ]
}

/// The big-endian bytes of `x`.
pub fn to_be_bytes(x: u64) -> (r: [u8; 8])
    ensures
        r@ == be_bytes(x),
{
    let r: [u8; 8] = [
        (x >> 56u64) as u8,
        (x >> 48u64) as u8,
        (x >> 40u64) as u8,
        (x >> 32u64) as u8,
        (x >> 24u64) as u8,
        (x >> 16u64) as u8,
        (x >> 8u64) as u8,
        x as u8,
    ];
    assert(r@ =~= be_bytes(x));
    r
}

/// A 32-byte key whose first eight bytes are the little-endian bytes of
/// `x` and whose other bytes are zero.
pub open spec fn wide_key(x: u64) -> Seq<u8> {
    le_bytes(x) + Seq::new(24, |i: int| 0u8)
}

/// Builds `wide_key(x)`.
pub fn to_wide_key(x: u64) -> (r: [u8; 32])
    ensures
        r@ == wide_key(x),
{
    let r: [u8; 32] = [
        x as u8,
        (x >> 8u64) as u8,
        (x >> 16u64) as u8,
        (x >> 24u64) as u8,
        (x >> 32u64) as u8,
        (x >> 40u64) as u8,
        (x >> 48u64) as u8,
        (x >> 56u64) as u8,
        0, 0, 0, 0, 0, 0, 0, 0,
        0, 0, 0, 0, 0, 0, 0, 0,
        0, 0, 0, 0, 0, 0, 0, 0,
    ];
    assert(r@ =~= wide_key(x));
    r
}

} // verus!
