//! Bit packing: 4 six-bit values repacked into 3 contiguous bytes.
//!
//! For one group of four 6-bit values `a`, `b`, `c`, `d` (24 significant
//! bits), the output bytes take their bits MSB-first across the group:
//! byte 0 is all of `a` followed by the top 2 bits of `b`, byte 1 is the
//! low 4 bits of `b` followed by the top 4 bits of `c`, and byte 2 is
//! the low 2 bits of `c` followed by all of `d`.

use vstd::prelude::*;

verus! {

/// The first output byte of a group: the 6 bits of `a`, then the top 2
/// bits of `b`.
pub open spec fn pack0(a: u8, b: u8) -> u8 {
    (a << 2) | (b >> 4)
}

/// The second output byte of a group: the low 4 bits of `b`, then the
/// top 4 bits of `c`.
pub open spec fn pack1(b: u8, c: u8) -> u8 {
    (b << 4) | (c >> 2)
}

/// The third output byte of a group: the low 2 bits of `c`, then the 6
/// bits of `d`.
pub open spec fn pack2(c: u8, d: u8) -> u8 {
    (c << 6) | d
}

/// Repack one group of four 6-bit values into its 3 output bytes.
pub fn pack_group(a: u8, b: u8, c: u8, d: u8) -> (r: (u8, u8, u8))
    requires
        a < 64,
        b < 64,
        c < 64,
        d < 64,
    ensures
        r.0 == pack0(a, b),
        r.1 == pack1(b, c),
        r.2 == pack2(c, d),
{
    ((a << 2) | (b >> 4), (b << 4) | (c >> 2), (c << 6) | d)
}

} // verus!
