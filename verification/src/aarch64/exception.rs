//! Exception handlers at EL3: what each reports.
use vstd::prelude::*;

verus! {

/// The registers saved on an exception.
pub struct Context {
    pub x0: u64,
    pub x1: u64,
    pub x2: u64,
    pub x3: u64,
    pub x4: u64,
    pub x5: u64,
    pub x6: u64,
    pub x7: u64,
    pub x8: u64,
    pub x9: u64,
    pub x10: u64,
    pub x11: u64,
    pub x12: u64,
    pub x13: u64,
    pub x14: u64,
    pub x15: u64,
    pub x16: u64,
    pub x17: u64,
    pub x18: u64,
    pub x19: u64,
    pub x20: u64,
    pub x21: u64,
    pub x22: u64,
    pub x23: u64,
    pub x24: u64,
    pub x25: u64,
    pub x26: u64,
    pub x27: u64,
    pub x28: u64,
    pub x29: u64,
    pub x30: u64,
    pub esr: u64,
    pub spsr: u32,
}

/// The message for this exception.
pub fn curr_el_sp0_sync_el3() -> (r: &'static str)
    ensures
        r@ == "exception: SP0 Sync\n"@,
{
    "exception: SP0 Sync\n"
}

/// The message for this exception.
pub fn curr_el_sp0_irq_el3() -> (r: &'static str)
    ensures
        r@ == "exception: SP0 IRQ\n"@,
{
    "exception: SP0 IRQ\n"
}

/// The message for this exception.
pub fn curr_el_sp0_fiq_el3() -> (r: &'static str)
    ensures
        r@ == "exception: SP0 FIQ\n"@,
{
    "exception: SP0 FIQ\n"
}

/// The message for this exception.
pub fn curr_el_sp0_serror_el3() -> (r: &'static str)
    ensures
        r@ == "exception: SP0 Error\n"@,
{
    "exception: SP0 Error\n"
}

/// The message for this exception.
pub fn curr_el_spx_irq_el3() -> (r: &'static str)
    ensures
        r@ == "exception: SPX IRQ\n"@,
{
    "exception: SPX IRQ\n"
}

/// The message for this exception.
pub fn curr_el_spx_fiq_el3() -> (r: &'static str)
    ensures
        r@ == "exception: SPX FIQ\n"@,
{
    "exception: SPX FIQ\n"
}

/// The message for this exception.
pub fn curr_el_spx_serror_el3() -> (r: &'static str)
    ensures
        r@ == "exception: SPX Error\n"@,
{
    "exception: SPX Error\n"
}

/// Exceptions from a lower level are ignored.
pub fn lower_el_aarch64_sync_el3(_ctx: &mut Context)
    ensures
        *final(_ctx) == *old(_ctx),
{
}

/// Exceptions from a lower level are ignored.
pub fn lower_el_aarch64_irq_el3(_ctx: &mut Context)
    ensures
        *final(_ctx) == *old(_ctx),
{
}

/// Exceptions from a lower level are ignored.
pub fn lower_el_aarch64_fiq_el3(_ctx: &mut Context)
    ensures
        *final(_ctx) == *old(_ctx),
{
}

/// Exceptions from a lower level are ignored.
pub fn lower_el_aarch64_serror_el3(_ctx: &mut Context)
    ensures
        *final(_ctx) == *old(_ctx),
{
}

/// Exceptions from a lower level are ignored.
pub fn lower_el_aarch32_sync_el3(_ctx: &mut Context)
    ensures
        *final(_ctx) == *old(_ctx),
{
}

/// Exceptions from a lower level are ignored.
pub fn lower_el_aarch32_irq_el3(_ctx: &mut Context)
    ensures
        *final(_ctx) == *old(_ctx),
{
}

/// Exceptions from a lower level are ignored.
pub fn lower_el_aarch32_fiq_el3(_ctx: &mut Context)
    ensures
        *final(_ctx) == *old(_ctx),
{
}

/// Exceptions from a lower level are ignored.
pub fn lower_el_aarch32_serror_el3(_ctx: &mut Context)
    ensures
        *final(_ctx) == *old(_ctx),
{
}

} // verus!
