//! Handlers of the secure monitor's thread calls; the kernel accepts each with 0.
use vstd::prelude::*;

verus! {

/// The arguments of a fast call.
pub struct ThreadSmcArgs {
    pub a0: u64,
    pub a1: u64,
    pub a2: u64,
    pub a3: u64,
    pub a4: u64,
    pub a5: u64,
    pub a6: u64,
    pub a7: u64,
}

pub fn thread_handle_std_smc(_a0: u32, _a1: u32, _a2: u32, _a3: u32, _a4: u32, _a5: u32, _a6: u32, _a7: u32) -> (r: u32)
    ensures
        r == 0,
{
    0
}

/// Leaves the arguments as they are.
pub fn thread_handle_fast_smc(_args: &mut ThreadSmcArgs)
    ensures
        *final(_args) == *old(_args),
{
}

pub fn thread_cpu_off_handler(_a0: u32, _a1: u32) -> (r: u32)
    ensures
        r == 0,
{
    0
}

pub fn thread_cpu_resume_handler(_a0: u32, _a1: u32) -> (r: u32)
    ensures
        r == 0,
{
    0
}

pub fn thread_cpu_suspend_handler(_a0: u32, _a1: u32) -> (r: u32)
    ensures
        r == 0,
{
    0
}

pub fn thread_system_off_handler(_a0: u32, _a1: u32) -> (r: u32)
    ensures
        r == 0,
{
    0
}

pub fn thread_system_reset_handler(_a0: u32, _a1: u32) -> (r: u32)
    ensures
        r == 0,
{
    0
}

} // verus!
