//! Random numbers from the hardware generator's 32-bit draws.
use vstd::prelude::*;

verus! {

/// A 64-bit random number from two draws: the first in the low half.
pub fn rand64(v0: u32, v1: u32) -> (r: u64)
    ensures
        r as int == v0 as int + v1 as int * 0x1_0000_0000,
{
    let a = v0 as u64;
    let b = v1 as u64;
    assert((a | b << 32u64) == a + b * 0x1_0000_0000) by (bit_vector)
        requires
            a < 0x1_0000_0000,
            b < 0x1_0000_0000,
    ;
    a | b << 32
}

/// A number from `min` up to, not including, `max`, from the draw `v`.
pub fn rand_min_max32(v: u32, min: u32, max: u32) -> (r: u32)
    requires
        min < max,
    ensures
        r as int == v as int % (max as int - min as int) + min as int,
        min <= r && r < max,
{
    v % (max - min) + min
}

/// A number from `min` up to, not including, `max`, from the draw `v`.
pub fn rand_min_max64(v: u64, min: u64, max: u64) -> (r: u64)
    requires
        min < max,
    ensures
        r as int == v as int % (max as int - min as int) + min as int,
        min <= r && r < max,
{
    v % (max - min) + min
}

} // verus!
