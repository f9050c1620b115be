//! Waiting on the system timer.
use vstd::prelude::*;

verus! {

/// Whether a wait of `n` microseconds that started at timer value `t` goes on when the
/// timer reads `now`. A timer that read zero at the start does not run, and then there is
/// no waiting.
pub fn wait_microsec_st(t: u64, n: u32, now: u64) -> (r: bool)
    requires
        t + n <= u64::MAX,
    ensures
        r == (t > 0 && now < t + n),
{
    t > 0 && now < t + n as u64
}

} // verus!
