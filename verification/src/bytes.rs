//! Little-endian byte encodings of fixed-width integers.
use vstd::prelude::*;

verus! {

/// The 16 little-endian bytes of `v`: byte `i` holds bits `8 * i .. 8 * i + 8`.
pub open spec fn spec_le_bytes_u128(v: u128) -> Seq<u8> {
    Seq::new(16, |i: int| (v >> ((8 * i) as u128)) as u8)
}

/// The 8 little-endian bytes of `v`: byte `i` holds bits `8 * i .. 8 * i + 8`.
pub open spec fn spec_le_bytes_u64(v: u64) -> Seq<u8> {
    Seq::new(8, |i: int| (v >> ((8 * i) as u64)) as u8)
}

/// The 16 little-endian bytes of a `u128`, as `u128::to_le_bytes` gives them.
pub(crate) fn u128_to_le_bytes(v: u128) -> (r: [u8; 16])
    ensures
        r@ == spec_le_bytes_u128(v),
{
    let mut r = [0u8; 16];
    let mut i: usize = 0;
    while i < 16
        invariant
            i <= 16,
            r@.len() == 16,
            forall|k: int| 0 <= k < i ==> r@[k] == (v >> ((8 * k) as u128)) as u8,
        decreases 16 - i,
    {
        r[i] = (v >> ((8 * i) as u128)) as u8;
        i = i + 1;
    }
    assert(r@ =~= spec_le_bytes_u128(v));
    r
}

/// The 16 little-endian bytes of an `i128`: those of its two's-complement bit
/// pattern, as `i128::to_le_bytes` gives them.
pub(crate) fn i128_to_le_bytes(v: i128) -> (r: [u8; 16])
    ensures
        r@ == spec_le_bytes_u128(v as u128),
{
    u128_to_le_bytes(v as u128)
}

/// The 8 little-endian bytes of a `u64`, as `u64::to_le_bytes` gives them.
pub(crate) fn u64_to_le_bytes(v: u64) -> (r: [u8; 8])
    ensures
        r@ == spec_le_bytes_u64(v),
{
    let mut r = [0u8; 8];
    let mut i: usize = 0;
    while i < 8
        invariant
            i <= 8,
            r@.len() == 8,
            forall|k: int| 0 <= k < i ==> r@[k] == (v >> ((8 * k) as u64)) as u8,
        decreases 8 - i,
    {
        r[i] = (v >> ((8 * i) as u64)) as u8;
        i = i + 1;
    }
    assert(r@ =~= spec_le_bytes_u64(v));
    r
}

} // verus!
