//! Local power states of power domains.
use super::tree::{MAX_OFF_STATE, MAX_PWR_LVL, MAX_RET_STATE, INVALID_PWR_LVL, PSCI_CPU_PWR_LVL, PSCI_LOCAL_STATE_RUN};
use vstd::prelude::*;

verus! {

/// The local state of each power level, from the CPU up.
pub type PsciPowerState = [u8; 3];

pub open spec fn spec_state_run(s: u8) -> bool {
    s == PSCI_LOCAL_STATE_RUN
}

pub open spec fn spec_state_off(s: u8) -> bool {
    s > MAX_RET_STATE && s <= MAX_OFF_STATE
}

pub open spec fn spec_state_retn(s: u8) -> bool {
    s > PSCI_LOCAL_STATE_RUN && s <= MAX_RET_STATE
}

/// Whether a local state is the running one.
pub fn is_local_state_run(plat_local_state: u8) -> (r: bool)
    ensures
        r == spec_state_run(plat_local_state),
{
    plat_local_state == PSCI_LOCAL_STATE_RUN
}

/// Whether a local state is an off state.
pub fn is_local_state_off(plat_local_state: u8) -> (r: bool)
    ensures
        r == spec_state_off(plat_local_state),
{
    (plat_local_state > MAX_RET_STATE) && (plat_local_state <= MAX_OFF_STATE)
}

/// Whether a local state is a retention state.
pub fn is_local_state_retn(plat_local_state: u8) -> (r: bool)
    ensures
        r == spec_state_retn(plat_local_state),
{
    (plat_local_state > PSCI_LOCAL_STATE_RUN) && (plat_local_state <= MAX_RET_STATE)
}

/// Law: no local state is two of running, retention and off.
pub proof fn lemma_states_exclusive(s: u8)
    ensures
        !(spec_state_run(s) && spec_state_retn(s)),
        !(spec_state_run(s) && spec_state_off(s)),
        !(spec_state_retn(s) && spec_state_off(s)),
{
}

/// The highest power level whose local state is an off state, or `INVALID_PWR_LVL` when
/// no level is off.
pub fn find_max_off_lvl(state_info: &PsciPowerState) -> (r: u8)
    ensures
        r == INVALID_PWR_LVL <==> forall|i: int| 0 <= i <= MAX_PWR_LVL ==> !spec_state_off(state_info@[i]),
        r != INVALID_PWR_LVL ==> r <= MAX_PWR_LVL && spec_state_off(state_info@[r as int])
            && forall|i: int| r < i <= MAX_PWR_LVL ==> !spec_state_off(state_info@[i]),
{
    let mut i: u8 = MAX_PWR_LVL + 1;
    while i > PSCI_CPU_PWR_LVL
        invariant
            i <= MAX_PWR_LVL + 1,
            forall|j: int| i <= j <= MAX_PWR_LVL ==> !spec_state_off(state_info@[j]),
        decreases i,
    {
        i -= 1;
        if is_local_state_off(state_info[i as usize]) {
            return i;
        }
    }
    INVALID_PWR_LVL
}

} // verus!
