//! Power State Coordination Interface: function IDs, results, and how a call is answered.
pub mod common;
pub mod ep_info;
pub mod tree;

use vstd::prelude::*;

verus! {

pub const PSCI_VERSION: u32 = 0x84000000;
pub const PSCI_CPU_SUSPEND_AARCH32: u32 = 0x84000001;
pub const PSCI_CPU_SUSPEND_AARCH64: u32 = 0xc4000001;
pub const PSCI_CPU_OFF: u32 = 0x84000002;
pub const PSCI_CPU_ON_AARCH32: u32 = 0x84000003;
pub const PSCI_CPU_ON_AARCH64: u32 = 0xc4000003;
pub const PSCI_AFFINITY_INFO_AARCH32: u32 = 0x84000004;
pub const PSCI_AFFINITY_INFO_AARCH64: u32 = 0xc4000004;
pub const PSCI_SYSTEM_OFF: u32 = 0x84000008;
pub const PSCI_SYSTEM_RESET: u32 = 0x84000009;
pub const PSCI_FEATURES: u32 = 0x8400000A;

pub const PSCI_FID_MASK: u32 = 0xffe0;
pub const PSCI_FID_VALUE: u32 = 0;
pub const FUNCID_CC_SHIFT: u32 = 30;
pub const FUNCID_CC_MASK: u32 = 0x1;
pub const PSCI_MAJOR_VERSION: u64 = 0x10000;
pub const PSCI_MINOR_VERSION: u64 = 1;
pub const SMC_64: u32 = 1;
pub const SMC_32: u32 = 0;

/// The results of PSCI calls.
#[derive(Debug, Clone, Copy, PartialEq, Eq, Structural)]
pub enum PsciResult {
    PsciESuccess,
    PsciENotSupported,
    PsciEInvalidParams,
    PsciEDenied,
    PsciEAleadyOn,
    PsciEOnPending,
    PsciEInternFail,
    PsciENotPresent,
    PsciEDisabled,
    PsciEInvalidAddress,
}

/// The code of each result.
pub open spec fn result_code(r: PsciResult) -> i64 {
    match r {
        PsciResult::PsciESuccess => 0i64,
        PsciResult::PsciENotSupported => -1i64,
        PsciResult::PsciEInvalidParams => -2i64,
        PsciResult::PsciEDenied => -3i64,
        PsciResult::PsciEAleadyOn => -4i64,
        PsciResult::PsciEOnPending => -5i64,
        PsciResult::PsciEInternFail => -6i64,
        PsciResult::PsciENotPresent => -7i64,
        PsciResult::PsciEDisabled => -8i64,
        PsciResult::PsciEInvalidAddress => -9i64,
    }
}

impl PsciResult {
    /// The code of the result.
    pub fn code(&self) -> (r: i64)
        ensures
            r == result_code(*self),
    {
        match self {
            PsciResult::PsciESuccess => 0,
            PsciResult::PsciENotSupported => -1,
            PsciResult::PsciEInvalidParams => -2,
            PsciResult::PsciEDenied => -3,
            PsciResult::PsciEAleadyOn => -4,
            PsciResult::PsciEOnPending => -5,
            PsciResult::PsciEInternFail => -6,
            PsciResult::PsciENotPresent => -7,
            PsciResult::PsciEDisabled => -8,
            PsciResult::PsciEInvalidAddress => -9,
        }
    }

    /// The code as the register value that answers a call.
    pub fn reg(&self) -> (r: u64)
        ensures
            r == result_code(*self) as u64,
    {
        self.code() as u64
    }
}

/// Whether `fid` is a PSCI function ID.
pub fn is_psci_fid(fid: u32) -> (r: bool)
    ensures
        r == (fid & PSCI_FID_MASK == PSCI_FID_VALUE),
{
    (fid & PSCI_FID_MASK) == PSCI_FID_VALUE
}

/// How a PSCI call is answered.
#[derive(Debug, Clone, Copy, PartialEq, Eq, Structural)]
pub enum SmcAction {
    /// Put this value in `x0`.
    Reply(u64),
    /// Turn on the CPU in `x1` at the entry point in `x2` with the context ID in `x3`.
    CpuOn,
    /// Reset the system; if that returns, reply with an internal failure.
    SystemReset,
    /// Turn the system off; if that returns, reply with an internal failure.
    SystemOff,
}

/// The answer to PSCI call `smc_fid`: calls from the secure world are not supported; of
/// the 32-bit calls, `VERSION`, `CPU_ON`, `SYSTEM_RESET` and `SYSTEM_OFF` are; of the
/// 64-bit ones, `CPU_ON`.
pub open spec fn smc_action(smc_fid: u32, is_secure: bool) -> SmcAction {
    let not_supported = SmcAction::Reply(result_code(PsciResult::PsciENotSupported) as u64);
    if is_secure {
        not_supported
    } else if (smc_fid >> FUNCID_CC_SHIFT) & FUNCID_CC_MASK == SMC_32 {
        if smc_fid == PSCI_VERSION {
            SmcAction::Reply(PSCI_MAJOR_VERSION | PSCI_MINOR_VERSION)
        } else if smc_fid == PSCI_CPU_ON_AARCH32 {
            SmcAction::CpuOn
        } else if smc_fid == PSCI_SYSTEM_RESET {
            SmcAction::SystemReset
        } else if smc_fid == PSCI_SYSTEM_OFF {
            SmcAction::SystemOff
        } else {
            not_supported
        }
    } else if smc_fid == PSCI_CPU_ON_AARCH64 {
        SmcAction::CpuOn
    } else {
        not_supported
    }
}

/// The value that answers a PSCI call in `x0` once the work of `action` is done: the
/// reply itself; for `CpuOn`, the code of `cpu_on`, the result of turning the core on;
/// for a system reset or off that returned, an internal failure.
pub fn smc_reply(action: SmcAction, cpu_on: PsciResult) -> (r: u64)
    ensures
        r == match action {
            SmcAction::Reply(v) => v,
            SmcAction::CpuOn => result_code(cpu_on) as u64,
            SmcAction::SystemReset => result_code(PsciResult::PsciEInternFail) as u64,
            SmcAction::SystemOff => result_code(PsciResult::PsciEInternFail) as u64,
        },
{
    match action {
        SmcAction::Reply(v) => v,
        SmcAction::CpuOn => cpu_on.reg(),
        SmcAction::SystemReset => PsciResult::PsciEInternFail.reg(),
        SmcAction::SystemOff => PsciResult::PsciEInternFail.reg(),
    }
}

/// Law: a non-secure PSCI call is answered by its function ID: `VERSION` with the version
/// 1.1, `CPU_ON` (32 or 64 bits) by turning a core on, `SYSTEM_RESET` and `SYSTEM_OFF` by
/// the platform's reset and power off; every other call, and every secure one, is not
/// supported.
pub proof fn law_psci_calls(smc_fid: u32, is_secure: bool)
    ensures
        !is_secure && smc_fid == 0x8400_0000 ==> smc_action(smc_fid, is_secure) == SmcAction::Reply(0x1_0001),
        !is_secure && (smc_fid == 0x8400_0003 || smc_fid == 0xc400_0003) ==> smc_action(smc_fid, is_secure) == SmcAction::CpuOn,
        !is_secure && smc_fid == 0x8400_0009 ==> smc_action(smc_fid, is_secure) == SmcAction::SystemReset,
        !is_secure && smc_fid == 0x8400_0008 ==> smc_action(smc_fid, is_secure) == SmcAction::SystemOff,
        is_secure || !(smc_fid == 0x8400_0000 || smc_fid == 0x8400_0003 || smc_fid == 0xc400_0003 || smc_fid == 0x8400_0009
            || smc_fid == 0x8400_0008) ==> smc_action(smc_fid, is_secure) == SmcAction::Reply(0xffff_ffff_ffff_ffff),
{
    assert(((0xc400_0003u32 >> 30u32) & 1u32) == 1u32) by (bit_vector);
    assert((-1i64) as u64 == 0xffff_ffff_ffff_ffffu64) by (bit_vector);
    assert(0x10000u64 | 1u64 == 0x1_0001u64) by (bit_vector);
    assert(smc_fid == 0x8400_0003u32 ==> ((smc_fid >> 30u32) & 1u32) == 0u32) by (bit_vector);
    assert(smc_fid == 0x8400_0008u32 ==> ((smc_fid >> 30u32) & 1u32) == 0u32) by (bit_vector);
    assert(smc_fid == 0x8400_0009u32 ==> ((smc_fid >> 30u32) & 1u32) == 0u32) by (bit_vector);
    assert(smc_fid == 0x8400_0000u32 ==> ((smc_fid >> 30u32) & 1u32) == 0u32) by (bit_vector);
}

/// Decides how to answer PSCI call `smc_fid`.
pub fn smc_handler(smc_fid: u32, is_secure: bool) -> (r: SmcAction)
    ensures
        r == smc_action(smc_fid, is_secure),
        is_secure ==> r == SmcAction::Reply(0xffff_ffff_ffff_ffff),
        !is_secure && smc_fid == 0x8400_0000 ==> r == SmcAction::Reply(0x1_0001),
        !is_secure && (smc_fid == 0x8400_0003 || smc_fid == 0xc400_0003) ==> r == SmcAction::CpuOn,
        !is_secure && smc_fid == 0x8400_0009 ==> r == SmcAction::SystemReset,
        !is_secure && smc_fid == 0x8400_0008 ==> r == SmcAction::SystemOff,
        !(smc_fid == 0x8400_0000 || smc_fid == 0x8400_0003 || smc_fid == 0xc400_0003 || smc_fid == 0x8400_0009
            || smc_fid == 0x8400_0008) ==> r == SmcAction::Reply(0xffff_ffff_ffff_ffff),
{
    proof {
        assert(((0x8400_0000u32 >> 30u32) & 1u32) == 0u32) by (bit_vector);
        assert(((0xc400_0003u32 >> 30u32) & 1u32) == 1u32) by (bit_vector);
        assert((-1i64) as u64 == 0xffff_ffff_ffff_ffffu64) by (bit_vector);
        assert(0x10000u64 | 1u64 == 0x1_0001u64) by (bit_vector);
        assert(smc_fid == 0x8400_0003u32 ==> ((smc_fid >> 30u32) & 1u32) == 0u32) by (bit_vector);
        assert(smc_fid == 0x8400_0008u32 ==> ((smc_fid >> 30u32) & 1u32) == 0u32) by (bit_vector);
        assert(smc_fid == 0x8400_0009u32 ==> ((smc_fid >> 30u32) & 1u32) == 0u32) by (bit_vector);
        assert(smc_fid == 0x8400_0000u32 ==> ((smc_fid >> 30u32) & 1u32) == 0u32) by (bit_vector);
    }
    let not_supported = SmcAction::Reply(PsciResult::PsciENotSupported.reg());
    if is_secure {
        return not_supported;
    }
    if (smc_fid >> FUNCID_CC_SHIFT) & FUNCID_CC_MASK == SMC_32 {
        if smc_fid == PSCI_VERSION {
            SmcAction::Reply(PSCI_MAJOR_VERSION | PSCI_MINOR_VERSION)
        } else if smc_fid == PSCI_CPU_ON_AARCH32 {
            SmcAction::CpuOn
        } else if smc_fid == PSCI_SYSTEM_RESET {
            SmcAction::SystemReset
        } else if smc_fid == PSCI_SYSTEM_OFF {
            SmcAction::SystemOff
        } else {
            not_supported
        }
    } else if smc_fid == PSCI_CPU_ON_AARCH64 {
        SmcAction::CpuOn
    } else {
        not_supported
    }
}

} // verus!
