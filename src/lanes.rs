use vstd::prelude::*;

verus! {

/// One quadword of vector-unit storage as four 32-bit lanes (x, y, z, w).
/// Each lane holds the bit pattern of a single-precision float, or of an
/// integer where a fixed-point conversion stored one.
pub type Quad = [u32; 4];

/// Number of quadword slots in the vector unit's data memory.
pub const VU_MEM_QWS: usize = 1024;

const LANE_MASK: u128 = 0xFFFF_FFFF;

/// The four 32-bit lanes of a 128-bit quadword, lowest bits first.
pub open spec fn qw_lanes(qw: u128) -> Quad {
    [
        (qw & 0xFFFF_FFFF) as u32,
        ((qw >> 32) & 0xFFFF_FFFF) as u32,
        ((qw >> 64) & 0xFFFF_FFFF) as u32,
        ((qw >> 96) & 0xFFFF_FFFF) as u32,
    ]
}

/// Splits a quadword into its four little-endian 32-bit lanes.
pub fn split_lanes(qw: u128) -> (r: Quad)
    ensures
        r == qw_lanes(qw),
{
    [
        (qw & LANE_MASK) as u32,
        ((qw >> 32) & LANE_MASK) as u32,
        ((qw >> 64) & LANE_MASK) as u32,
        ((qw >> 96) & LANE_MASK) as u32,
    ]
}

} // verus!
