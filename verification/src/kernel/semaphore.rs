//! The counting of a semaphore: what a post and a wait do to its count.
use vstd::prelude::*;

verus! {

/// How many of the `waiting` processes a post wakes when the count was `n`: the count
/// goes up by one, and then each waiting process, first come first, takes one while the
/// count is positive.
pub open spec fn post_wakes(n: int, waiting: int) -> int {
    if n + 1 > 0 {
        if n + 1 < waiting { n + 1 } else { waiting }
    } else {
        0
    }
}

/// A post on a semaphore whose count is `n` with `waiting` processes queued: the new count
/// and how many processes leave the queue for the ready queue.
pub fn post(n: isize, waiting: usize) -> (r: (isize, usize))
    requires
        n < isize::MAX,
    ensures
        r.1 == post_wakes(n as int, waiting as int),
        r.0 == n + 1 - r.1,
{
    let n1 = n + 1;
    let mut n = n1;
    let mut woken: usize = 0;
    while n > 0 && woken < waiting
        invariant
            0 <= woken <= waiting,
            n as int + woken as int == n1 as int,
            n1 > 0 ==> n >= 0,
            n1 <= 0 ==> woken == 0,
        decreases waiting - woken,
    {
        n = n - 1;
        woken = woken + 1;
    }
    (n, woken)
}

/// A wait on a semaphore whose count is `n`: the new count, and whether the waiting
/// process must block (the count went below zero).
pub fn wait(n: isize) -> (r: (isize, bool))
    requires
        n > isize::MIN,
    ensures
        r.0 == n - 1,
        r.1 == (n - 1 < 0),
{
    let m = n - 1;
    (m, m < 0)
}

} // verus!
