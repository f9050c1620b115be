//! Entry point information for a CPU that is turned on.
use super::PsciResult;
use vstd::prelude::*;

verus! {

pub const EP_NON_SECURE: usize = 0x1;
pub const EP_EE_BIG: usize = 0x2;
pub const EP_ST_DISABLE: usize = 0x0;
pub const PARAM_EP: u8 = 0x01;
pub const PARAM_VERSION_1: u8 = 0x01;

#[derive(Debug, Clone, Copy, PartialEq, Eq, Structural)]
pub struct ParamHeader {
    pub htype: u8,
    pub version: u8,
    pub size: u16,
    pub attr: u32,
}

/// The arguments an entry point is called with.
#[derive(Debug, Clone, Copy, PartialEq, Eq, Structural)]
pub struct Aapcs64Params {
    pub arg0: u64,
    pub arg1: u64,
    pub arg2: u64,
    pub arg3: u64,
    pub arg4: u64,
    pub arg5: u64,
    pub arg6: u64,
    pub arg7: u64,
}

impl Aapcs64Params {
    pub fn new() -> (r: Aapcs64Params)
        ensures
            r == (Aapcs64Params { arg0: 0, arg1: 0, arg2: 0, arg3: 0, arg4: 0, arg5: 0, arg6: 0, arg7: 0 }),
    {
        Aapcs64Params { arg0: 0, arg1: 0, arg2: 0, arg3: 0, arg4: 0, arg5: 0, arg6: 0, arg7: 0 }
    }
}

/// Where and how a CPU starts.
#[derive(Debug, Clone, Copy, PartialEq, Eq, Structural)]
pub struct EntryPointInfo {
    pub h: ParamHeader,
    pub pc: usize,
    pub spsr: u32,
    pub args: Aapcs64Params,
}

/// Secure configuration: lower levels run AArch64.
pub const SCR_RW_BIT: u64 = 0x400;
/// Secure configuration: hypervisor calls enabled, so the non-secure world enters at EL2.
pub const SCR_HCE_BIT: u64 = 0x100;
/// System control: big-endian data at that level.
pub const SCTLR_EE_BIT: u64 = 0x200_0000;
/// Saved program status for AArch64 at EL2 on its own stack, all exceptions masked.
pub const SPSR64_EL2H_MASKED: u32 = 0x3c9;
/// Saved program status for AArch64 at EL1 on its own stack, all exceptions masked.
pub const SPSR64_EL1H_MASKED: u32 = 0x3c5;
/// AArch32 hypervisor mode.
pub const MODE32_HYP: u32 = 0xa;
/// AArch32 supervisor mode.
pub const MODE32_SVC: u32 = 0x3;

/// The saved program status for AArch32 in `mode`, with instruction set `isa`, data
/// endianness `ee`, and asynchronous aborts, IRQs and FIQs masked.
pub open spec fn spsr32(mode: u32, isa: u32, ee: u32) -> u32 {
    (0x10u32 | (mode & 0xf)) | ((isa & 1) << 5u32) | ((ee & 1) << 9u32) | (7u32 << 6u32)
}

/// How the non-secure world starts at `entrypoint` with `context_id` in its first
/// argument, given its secure configuration and system control registers.
pub open spec fn ns_ep_info(entrypoint: usize, context_id: usize, ns_scr_el3: u64, sctlr_el2: u64, sctlr_el1: u64) -> Result<EntryPointInfo, PsciResult> {
    let hyp = ns_scr_el3 & SCR_HCE_BIT != 0;
    let sctlr = if hyp { sctlr_el2 } else { sctlr_el1 };
    let big = sctlr & SCTLR_EE_BIT != 0;
    let attr: u32 = if big { (EP_NON_SECURE | EP_EE_BIG | EP_ST_DISABLE) as u32 } else { (EP_NON_SECURE | EP_ST_DISABLE) as u32 };
    let ee: u32 = if big { 1 } else { 0 };
    let aarch64 = ns_scr_el3 & SCR_RW_BIT != 0;
    if aarch64 && entrypoint % 2 != 0 {
        Err(PsciResult::PsciEInvalidAddress)
    } else {
        let spsr = if aarch64 {
            if hyp { SPSR64_EL2H_MASKED } else { SPSR64_EL1H_MASKED }
        } else {
            spsr32(if hyp { MODE32_HYP } else { MODE32_SVC }, (entrypoint % 2) as u32, ee)
        };
        Ok(EntryPointInfo {
            h: ParamHeader { htype: PARAM_EP, version: PARAM_VERSION_1, size: 8, attr: attr },
            pc: entrypoint,
            spsr: spsr,
            args: Aapcs64Params { arg0: context_id as u64, arg1: 0, arg2: 0, arg3: 0, arg4: 0, arg5: 0, arg6: 0, arg7: 0 },
        })
    }
}

/// The entry point information of the non-secure world.
pub fn get_ns_ep_info(entrypoint: usize, context_id: usize, ns_scr_el3: u64, sctlr_el2: u64, sctlr_el1: u64) -> (r: Result<EntryPointInfo, PsciResult>)
    ensures
        r == ns_ep_info(entrypoint, context_id, ns_scr_el3, sctlr_el2, sctlr_el1),
{
    let sctlr = if (ns_scr_el3 & SCR_HCE_BIT) != 0 { sctlr_el2 } else { sctlr_el1 };
    let ee: u32;
    let ep_attr: usize;
    if (sctlr & SCTLR_EE_BIT) != 0 {
        ep_attr = EP_NON_SECURE | EP_EE_BIG | EP_ST_DISABLE;
        ee = 1;
    } else {
        ep_attr = EP_NON_SECURE | EP_ST_DISABLE;
        ee = 0;
    }
    assert((entrypoint & 1) == entrypoint % 2) by (bit_vector);
    let spsr: u32 = if (ns_scr_el3 & SCR_RW_BIT) != 0 {
        if (entrypoint & 0x1) != 0 {
            return Err(PsciResult::PsciEInvalidAddress);
        }
        if (ns_scr_el3 & SCR_HCE_BIT) != 0 { SPSR64_EL2H_MASKED } else { SPSR64_EL1H_MASKED }
    } else {
        let mode = if (ns_scr_el3 & SCR_HCE_BIT) != 0 { MODE32_HYP } else { MODE32_SVC };
        let isa = (entrypoint & 1) as u32;
        (0x10u32 | (mode & 0xf)) | ((isa & 1) << 5u32) | ((ee & 1) << 9u32) | (7u32 << 6u32)
    };
    let headr = ParamHeader { htype: PARAM_EP, version: PARAM_VERSION_1, size: 8, attr: ep_attr as u32 };
    let mut args = Aapcs64Params::new();
    args.arg0 = context_id as u64;
    Ok(EntryPointInfo { h: headr, pc: entrypoint, spsr: spsr, args: args })
}

/// The entry point information of the non-secure world, when the platform accepts the
/// entry point (`ns_entry_valid`); an invalid address otherwise.
pub fn validate_entry_point(entrypoint: usize, context_id: usize, ns_entry_valid: bool, ns_scr_el3: u64, sctlr_el2: u64, sctlr_el1: u64) -> (r: Result<EntryPointInfo, PsciResult>)
    ensures
        !ns_entry_valid ==> r == Err::<EntryPointInfo, PsciResult>(PsciResult::PsciEInvalidAddress),
        ns_entry_valid ==> r == ns_ep_info(entrypoint, context_id, ns_scr_el3, sctlr_el2, sctlr_el1),
{
    if !ns_entry_valid {
        return Err(PsciResult::PsciEInvalidAddress);
    }
    get_ns_ep_info(entrypoint, context_id, ns_scr_el3, sctlr_el2, sctlr_el1)
}

} // verus!
