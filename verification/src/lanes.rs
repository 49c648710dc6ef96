//! The 128-bit needle register, seen as sixteen byte lanes.

use vstd::prelude::*;

verus! {

/// The number of byte lanes in the needle register.
pub const MAX_BYTES: u8 = 16;

/// Lane `k` of the register made of the words `lo` and `hi`. Lane 0 is the
/// lowest-order byte of `lo`, lane 8 the lowest-order byte of `hi`.
pub open spec fn lane_of(lo: u64, hi: u64, k: u64) -> u8 {
    if k < 8 {
        ((lo >> (8 * k) as u64) & 0xff) as u8
    } else {
        ((hi >> (8 * (k - 8)) as u64) & 0xff) as u8
    }
}

/// Reads lane `k` out of the register.
pub fn read_lane(lo: u64, hi: u64, k: u8) -> (byte: u8)
    requires
        k < MAX_BYTES,
    ensures
        byte == lane_of(lo, hi, k as u64),
{
    let k: u64 = k as u64;
    if k < 8 {
        let shifted: u64 = lo >> (8 * k);
        assert(shifted & 0xff <= 0xff) by (bit_vector);
        (shifted & 0xff) as u8
    } else {
        let shifted: u64 = hi >> (8 * (k - 8));
        assert(shifted & 0xff <= 0xff) by (bit_vector);
        (shifted & 0xff) as u8
    }
}

/// Shifting a byte into the register moves every lane up by one and puts
/// the byte into lane 0.
pub proof fn lemma_shift_in(lo: u64, hi: u64, byte: u8, k: u64)
    by (bit_vector)
    requires
        k < 16,
    ensures
        lane_of((lo << 8) | (byte as u64), (hi << 8) | (lo >> 56), k) == (if k == 0 {
            byte
        } else {
            lane_of(lo, hi, (k - 1) as u64)
        }),
{
}

} // verus!
