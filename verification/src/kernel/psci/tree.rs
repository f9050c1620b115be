//! The power domain tree of the platform.
use super::ep_info::{ns_ep_info, validate_entry_point, EntryPointInfo};
use super::PsciResult;
use vstd::prelude::*;

verus! {

/// The highest power level of the platform.
pub const MAX_PWR_LVL: u8 = 2;
/// The deepest retention state.
pub const MAX_RET_STATE: u8 = 1;
/// The deepest off state.
pub const MAX_OFF_STATE: u8 = 2;
/// Above every power level.
pub const INVALID_PWR_LVL: u8 = 3;
/// The power level of a CPU.
pub const PSCI_CPU_PWR_LVL: u8 = 0;
/// The local state of a running domain.
pub const PSCI_LOCAL_STATE_RUN: u8 = 0;

/// The number of cores.
pub const CORE_COUNT: usize = 4;
/// The number of power domains above the cores.
pub const NUM_NON_CPU_PWR_DOMAINS: usize = 2;
/// Above every CPU's MPIDR.
pub const INVALID_MPIDR: u64 = 0xffff_ffff_ffff_ffff;

/// A power domain above the cores.
#[derive(Debug, Clone, Copy, PartialEq, Eq, Structural)]
pub struct NonCpuPwrDomainNode {
    pub cpu_start_idx: usize,
    pub ncpus: usize,
    pub parent_node: usize,
    pub local_state: u8,
    pub level: u8,
}

/// The power domain of a core.
#[derive(Debug, Clone, Copy, PartialEq, Eq, Structural)]
pub struct CpuPwrDomainNode {
    pub mpidr: u64,
    pub parent_node: usize,
}

#[derive(Debug, Clone, Copy, PartialEq, Eq, Structural)]
pub enum AffInfoState {
    StateOn,
    StateOff,
    StateOnPending,
}

/// What PSCI keeps of each core.
#[derive(Debug, Clone, Copy, PartialEq, Eq, Structural)]
pub struct PsciCpuData {
    pub aff_info_state: AffInfoState,
    pub target_pwrlvl: u8,
    pub local_state: u8,
}

/// The power domain tree, each core's data, and the local state each core requests at
/// each level above it.
pub struct PsciData {
    pub non_cpu: Vec<NonCpuPwrDomainNode>,
    pub cpus: Vec<CpuPwrDomainNode>,
    pub cpu_data: Vec<PsciCpuData>,
    pub req_local_pwr_states: Vec<u8>,
}

/// The sum of the first `p` entries of the topology descriptor `t`.
pub open spec fn tsum(t: Seq<u8>, p: int) -> int
    decreases p,
{
    if p <= 0 || p > t.len() { 0 } else { tsum(t, p - 1) + t[p - 1] }
}

/// The parent recorded for the children of topology entry `p`: the domain that entry
/// describes, entry `p - 1` of the domains; the roots, children of entry 0, get the
/// invalid entry (-1).
pub open spec fn entry_parent(p: int) -> usize {
    if p == 0 { usize::MAX } else { (p - 1) as usize }
}

/// The level of the children of entry `q` above the cores: the roots for entry 0, the
/// level below them otherwise.
pub open spec fn root_or_below(q: int) -> u8 {
    if q == 0 { MAX_PWR_LVL } else { 1u8 }
}

/// The request table `req` with the requests of core `cpu` at levels 1 to `l` set to the
/// states of `si` at those levels.
pub open spec fn req_after(req: Seq<u8>, cpu: int, si: Seq<u8>, l: int) -> Seq<u8> {
    Seq::new(req.len(), |i: int| if i % (CORE_COUNT as int) == cpu && 1 <= i / (CORE_COUNT as int) + 1 <= l {
        si[i / (CORE_COUNT as int) + 1]
    } else {
        req[i]
    })
}

/// The number of entries of the table of `level`.
pub open spec fn table_len(level: u8) -> int {
    if level > PSCI_CPU_PWR_LVL { NUM_NON_CPU_PWR_DOMAINS as int } else { CORE_COUNT as int }
}

/// The sums of the entries grow with their number.
pub proof fn lemma_tsum_mono(t: Seq<u8>, p: int, q: int)
    requires
        0 <= p <= q <= t.len(),
    ensures
        tsum(t, p) <= tsum(t, q),
        0 <= tsum(t, p),
    decreases q,
{
    if p < q {
        lemma_tsum_mono(t, p, q - 1);
    } else if p > 0 {
        lemma_tsum_mono(t, p - 1, p - 1);
    }
}

impl PsciData {
    /// Entry `idx` of the table of `level` is as `init_pwr_domain_node` leaves it, with
    /// parent `parent`, where `o` held the tables before.
    pub open spec fn node_init(&self, o: PsciData, idx: int, level: u8, parent: usize) -> bool {
        if level > PSCI_CPU_PWR_LVL {
            self.non_cpu@[idx] == (NonCpuPwrDomainNode { level: level, parent_node: parent, local_state: MAX_OFF_STATE, ..o.non_cpu@[idx] })
        } else {
            &&& self.cpus@[idx] == (CpuPwrDomainNode { parent_node: parent, mpidr: INVALID_MPIDR })
            &&& self.cpu_data@[idx] == (PsciCpuData { aff_info_state: AffInfoState::StateOff, target_pwrlvl: INVALID_PWR_LVL, local_state: MAX_OFF_STATE })
        }
    }

    /// Entry `idx` of the table of `level` is as in `o`.
    pub open spec fn node_same(&self, o: PsciData, idx: int, level: u8) -> bool {
        if level > PSCI_CPU_PWR_LVL {
            self.non_cpu@[idx] == o.non_cpu@[idx]
        } else {
            self.cpus@[idx] == o.cpus@[idx] && self.cpu_data@[idx] == o.cpu_data@[idx]
        }
    }

    /// The tables of the other levels are as in `o`.
    pub open spec fn others_same(&self, o: PsciData, level: u8) -> bool {
        &&& self.req_local_pwr_states == o.req_local_pwr_states
        &&& level > PSCI_CPU_PWR_LVL ==> self.cpus == o.cpus && self.cpu_data == o.cpu_data
        &&& level == PSCI_CPU_PWR_LVL ==> self.non_cpu == o.non_cpu
    }

    /// `t` is an answer that `coordinate` may give at level `l` for core `cpu`, whose
    /// requests before were those of `o` and whose requested states are `os`: asked with
    /// the level, the requests (those of `cpu` up to level `l` being the new ones) from the
    /// first core of the domain at level `l` above `cpu` to the end of the table, and the
    /// number of cores of that domain.
    pub open spec fn coordinated<F: Fn(usize, Vec<u8>, usize) -> u8>(o: PsciData, coordinate: F, cpu: int, os: Seq<u8>, l: int, t: u8) -> bool {
        let d = o.non_cpu@[o.parent_at(cpu, l) as int];
        exists|v: Vec<u8>| #[trigger] call_ensures(coordinate, (l as usize, v, d.ncpus), t)
            && v@ == req_after(o.req_local_pwr_states@, cpu, os, l).subrange(
                CORE_COUNT * (l - 1) + d.cpu_start_idx, o.req_local_pwr_states@.len() as int)
    }

    /// Every table has its size.
    pub open spec fn sized(&self) -> bool {
        &&& self.non_cpu@.len() == NUM_NON_CPU_PWR_DOMAINS
        &&& self.cpus@.len() == CORE_COUNT
        &&& self.cpu_data@.len() == CORE_COUNT
        &&& self.req_local_pwr_states@.len() == MAX_PWR_LVL as int * CORE_COUNT as int
    }

    /// Sized, and each core's parent and grandparent are domains of the tree.
    pub open spec fn wf(&self) -> bool {
        &&& self.sized()
        &&& forall|i: int| 0 <= i < CORE_COUNT ==> (#[trigger] self.cpus@[i]).parent_node < NUM_NON_CPU_PWR_DOMAINS
            && self.non_cpu@[self.cpus@[i].parent_node as int].parent_node < NUM_NON_CPU_PWR_DOMAINS
    }

    /// The domains above core `cpu`, from its parent up.
    pub open spec fn parents(&self, cpu: int) -> Seq<usize> {
        let p = self.cpus@[cpu].parent_node;
        seq![p, self.non_cpu@[p as int].parent_node]
    }

    /// The local state that core `cpu` requests at level `l`.
    pub open spec fn req_at(&self, l: int, cpu: int) -> u8 {
        self.req_local_pwr_states@[CORE_COUNT * (l - 1) + cpu]
    }

    /// The domain at level `l` above core `cpu`.
    pub open spec fn parent_at(&self, cpu: int, l: int) -> usize {
        self.parents(cpu)[l - 1]
    }

    /// Fresh tables: every domain and core off, no requests.
    pub fn new() -> (r: PsciData)
        ensures
            r.sized(),
    {
        let mut non_cpu: Vec<NonCpuPwrDomainNode> = Vec::new();
        let mut i: usize = 0;
        while i < NUM_NON_CPU_PWR_DOMAINS
            invariant
                0 <= i <= NUM_NON_CPU_PWR_DOMAINS,
                non_cpu@.len() == i,
            decreases NUM_NON_CPU_PWR_DOMAINS - i,
        {
            non_cpu.push(NonCpuPwrDomainNode { cpu_start_idx: 0, ncpus: 0, parent_node: 0, local_state: 0, level: 0 });
            i += 1;
        }
        let mut cpus: Vec<CpuPwrDomainNode> = Vec::new();
        let mut cpu_data: Vec<PsciCpuData> = Vec::new();
        let mut i: usize = 0;
        while i < CORE_COUNT
            invariant
                0 <= i <= CORE_COUNT,
                cpus@.len() == i,
                cpu_data@.len() == i,
            decreases CORE_COUNT - i,
        {
            cpus.push(CpuPwrDomainNode { mpidr: 0, parent_node: 0 });
            cpu_data.push(PsciCpuData { aff_info_state: AffInfoState::StateOff, target_pwrlvl: 0, local_state: 0 });
            i += 1;
        }
        let mut req: Vec<u8> = Vec::new();
        let mut i: usize = 0;
        while i < MAX_PWR_LVL as usize * CORE_COUNT
            invariant
                0 <= i <= MAX_PWR_LVL as usize * CORE_COUNT,
                req@.len() == i,
            decreases MAX_PWR_LVL as usize * CORE_COUNT - i,
        {
            req.push(0);
            i += 1;
        }
        PsciData { non_cpu: non_cpu, cpus: cpus, cpu_data: cpu_data, req_local_pwr_states: req }
    }

    /// Initializes node `node_idx` of `level`: a domain above the cores, or a core.
    pub fn init_pwr_domain_node(&mut self, node_idx: usize, parent_idx: usize, level: u8)
        requires
            old(self).sized(),
            level > PSCI_CPU_PWR_LVL ==> node_idx < NUM_NON_CPU_PWR_DOMAINS,
            level == PSCI_CPU_PWR_LVL ==> node_idx < CORE_COUNT,
        ensures
            final(self).sized(),
            final(self).req_local_pwr_states == old(self).req_local_pwr_states,
            level > PSCI_CPU_PWR_LVL ==> {
                &&& final(self).non_cpu@ == old(self).non_cpu@.update(node_idx as int, NonCpuPwrDomainNode {
                    level: level, parent_node: parent_idx, local_state: MAX_OFF_STATE, ..old(self).non_cpu@[node_idx as int] })
                &&& final(self).cpus == old(self).cpus
                &&& final(self).cpu_data == old(self).cpu_data
            },
            level == PSCI_CPU_PWR_LVL ==> {
                &&& final(self).cpus@ == old(self).cpus@.update(node_idx as int, CpuPwrDomainNode { parent_node: parent_idx, mpidr: INVALID_MPIDR })
                &&& final(self).cpu_data@ == old(self).cpu_data@.update(node_idx as int, PsciCpuData {
                    aff_info_state: AffInfoState::StateOff, target_pwrlvl: INVALID_PWR_LVL, local_state: MAX_OFF_STATE })
                &&& final(self).non_cpu == old(self).non_cpu
            },
    {
        if level > PSCI_CPU_PWR_LVL {
            let mut n = self.non_cpu[node_idx];
            n.level = level;
            n.parent_node = parent_idx;
            n.local_state = MAX_OFF_STATE;
            self.non_cpu.set(node_idx, n);
        } else {
            self.cpus.set(node_idx, CpuPwrDomainNode { parent_node: parent_idx, mpidr: INVALID_MPIDR });
            self.cpu_data.set(node_idx, PsciCpuData {
                aff_info_state: AffInfoState::StateOff,
                target_pwrlvl: INVALID_PWR_LVL,
                local_state: MAX_OFF_STATE,
            });
        }
    }

    /// Initializes, at `level`, the children of the `count` topology entries from `first`
    /// on: each entry's children take the next nodes from `node_start` on, with the
    /// domain that entry describes as their parent. The number of nodes initialized.
    fn init_children(&mut self, t: &[u8], first: usize, count: usize, node_start: usize, level: u8) -> (total: usize)
        requires
            old(self).sized(),
            level <= MAX_PWR_LVL,
            first + count <= t@.len(),
            node_start + tsum(t@, first + count) - tsum(t@, first as int) <= table_len(level),
        ensures
            final(self).sized(),
            final(self).others_same(*old(self), level),
            total == tsum(t@, first + count) - tsum(t@, first as int),
            forall|q: int, idx: int| first <= q < first + count
                && node_start + tsum(t@, q) - tsum(t@, first as int) <= idx < node_start + tsum(t@, q + 1) - tsum(t@, first as int)
                ==> #[trigger] final(self).node_init(*old(self), idx, level, entry_parent(q)),
            forall|idx: int| 0 <= idx < table_len(level) && !(node_start <= idx < node_start + total)
                ==> #[trigger] final(self).node_same(*old(self), idx, level),
    {
        let ghost o = *old(self);
        let ghost ts = t@;
        let tlen = t.len();
        let end = first + count;
        let mut node_index: usize = node_start;
        let mut p: usize = first;
        proof {
            lemma_tsum_mono(ts, first as int, first as int);
        }
        while p < end
            invariant
                o == *old(self),
                ts == t@,
                tlen == ts.len(),
                end == first + count,
                first <= p <= first + count,
                tsum(ts, first as int) <= tsum(ts, p as int),
                first + count <= ts.len(),
                level <= MAX_PWR_LVL,
                node_start + tsum(ts, first + count) - tsum(ts, first as int) <= table_len(level),
                node_index == node_start + tsum(ts, p as int) - tsum(ts, first as int),
                self.sized(),
                self.others_same(o, level),
                forall|q: int, idx: int| first <= q < p
                    && node_start + tsum(ts, q) - tsum(ts, first as int) <= idx < node_start + tsum(ts, q + 1) - tsum(ts, first as int)
                    ==> #[trigger] self.node_init(o, idx, level, entry_parent(q)),
                forall|idx: int| 0 <= idx < table_len(level) && !(node_start <= idx < node_index)
                    ==> #[trigger] self.node_same(o, idx, level),
            decreases first + count - p,
        {
            proof {
                lemma_tsum_mono(ts, p as int + 1, first as int + count as int);
                lemma_tsum_mono(ts, first as int, p as int + 1);
                assert(tsum(ts, p as int + 1) == tsum(ts, p as int) + ts[p as int]);
            }
            let num_children = t[p] as usize;
            let parent: usize = if p == 0 { usize::MAX } else { p - 1 };
            let mut j: usize = 0;
            while j < num_children
                invariant
                    o == *old(self),
                    ts == t@,
                    first <= p < first + count,
                    first + count <= ts.len(),
                    level <= MAX_PWR_LVL,
                    num_children == ts[p as int],
                    tsum(ts, first as int) <= tsum(ts, p as int),
                    parent == entry_parent(p as int),
                    node_index == node_start + tsum(ts, p as int) - tsum(ts, first as int),
                    node_index + num_children <= table_len(level),
                    0 <= j <= num_children,
                    self.sized(),
                    self.others_same(o, level),
                    forall|q: int, idx: int| first <= q < p
                        && node_start + tsum(ts, q) - tsum(ts, first as int) <= idx < node_start + tsum(ts, q + 1) - tsum(ts, first as int)
                        ==> #[trigger] self.node_init(o, idx, level, entry_parent(q)),
                    forall|idx: int| node_index <= idx < node_index + j ==> #[trigger] self.node_init(o, idx, level, parent),
                    forall|idx: int| 0 <= idx < table_len(level) && !(node_start <= idx < node_index + j)
                        ==> #[trigger] self.node_same(o, idx, level),
                decreases num_children - j,
            {
                let ghost before = *self;
                self.init_pwr_domain_node(node_index + j, parent, level);
                proof {
                    let k = node_index + j;
                    assert forall|q: int, idx: int| first <= q < p
                        && node_start + tsum(ts, q) - tsum(ts, first as int) <= idx < node_start + tsum(ts, q + 1) - tsum(ts, first as int)
                        implies #[trigger] self.node_init(o, idx, level, entry_parent(q)) by {
                        lemma_tsum_mono(ts, q + 1, p as int);
                        lemma_tsum_mono(ts, first as int, q);
                        assert(before.node_init(o, idx, level, entry_parent(q)));
                        assert(idx != k);
                    }
                    assert forall|idx: int| node_index <= idx < node_index + j + 1 implies #[trigger] self.node_init(o, idx, level, parent) by {
                        if idx < k {
                            assert(before.node_init(o, idx, level, parent));
                        } else {
                            assert(before.node_same(o, idx, level));
                        }
                    }
                    assert forall|idx: int| 0 <= idx < table_len(level) && !(node_start <= idx < node_index + j + 1)
                        implies #[trigger] self.node_same(o, idx, level) by {
                        assert(before.node_same(o, idx, level));
                        assert(idx != k);
                        if level > PSCI_CPU_PWR_LVL {
                            assert(self.non_cpu@[idx] == before.non_cpu@[idx]);
                        } else {
                            assert(self.cpus@[idx] == before.cpus@[idx]);
                            assert(self.cpu_data@[idx] == before.cpu_data@[idx]);
                        }
                    }
                }
                j += 1;
            }
            proof {
                assert forall|q: int, idx: int| first <= q < p + 1
                    && node_start + tsum(ts, q) - tsum(ts, first as int) <= idx < node_start + tsum(ts, q + 1) - tsum(ts, first as int)
                    implies #[trigger] self.node_init(o, idx, level, entry_parent(q)) by {
                    if q == p {
                        assert(node_index <= idx < node_index + j);
                    } else {
                        assert(self.node_init(o, idx, level, entry_parent(q)));
                    }
                }
            }
            node_index = node_index + num_children;
            p += 1;
        }
        node_index - node_start
    }

    /// Populates the power domain tree from the topology descriptor `topology`, breadth
    /// first: entry 0 is the number of root domains; each later entry, in order, the number
    /// of children of the next domain. The domains above the cores fill the domain table
    /// from its start, level by level; the cores fill the core table. Each child's parent
    /// is the domain its entry describes, the roots' parent the invalid entry (-1). The
    /// result is the number of nodes made at the last level that had a parent: the cores,
    /// or the roots when there is no domain below them.
    pub fn populate_power_domain_tree(&mut self, topology: &[u8]) -> (n: u32)
        requires
            old(self).sized(),
            topology@.len() > 0,
            1 + topology@[0] <= topology@.len(),
            1 + tsum(topology@, 1 + topology@[0] as int) <= topology@.len(),
            tsum(topology@, 1 + topology@[0] as int) <= NUM_NON_CPU_PWR_DOMAINS,
            tsum(topology@, 1 + tsum(topology@, 1 + topology@[0] as int)) - tsum(topology@, 1 + topology@[0] as int) <= CORE_COUNT,
        ensures
            final(self).sized(),
            final(self).req_local_pwr_states == old(self).req_local_pwr_states,
            ({
                let t = topology@;
                let r = t[0] as int;
                let d = tsum(t, 1 + r);
                let c = tsum(t, 1 + d) - d;
                &&& forall|q: int, idx: int| 0 <= q < 1 + r && tsum(t, q) <= idx < tsum(t, q + 1)
                    ==> #[trigger] final(self).node_init(*old(self), idx, root_or_below(q), entry_parent(q))
                &&& forall|q: int, idx: int| 1 + r <= q < 1 + d && tsum(t, q) - d <= idx < tsum(t, q + 1) - d
                    ==> #[trigger] final(self).node_init(*old(self), idx, PSCI_CPU_PWR_LVL, entry_parent(q))
                &&& forall|idx: int| d <= idx < NUM_NON_CPU_PWR_DOMAINS ==> #[trigger] final(self).non_cpu@[idx] == old(self).non_cpu@[idx]
                &&& forall|idx: int| c <= idx < CORE_COUNT ==> #[trigger] final(self).cpus@[idx] == old(self).cpus@[idx]
                    && final(self).cpu_data@[idx] == old(self).cpu_data@[idx]
                &&& n == (if d > r { c } else { r })
            }),
    {
        let ghost o = *old(self);
        let ghost t = topology@;
        proof {
            assert(tsum(t, 0) == 0);
            assert(tsum(t, 1) == t[0]);
            lemma_tsum_mono(t, 1, 1 + t[0] as int);
        }
        // the roots: children of entry 0
        let r = self.init_children(topology, 0, 1, 0, MAX_PWR_LVL);
        let ghost s1 = *self;
        // the domains below the roots
        let m = self.init_children(topology, 1, r, r, 1);
        let ghost s2 = *self;
        let d = r + m;
        proof {
            lemma_tsum_mono(t, 1 + d as int, 1 + d as int);
        }
        // the cores
        let c = self.init_children(topology, 1 + r, m, 0, PSCI_CPU_PWR_LVL);
        proof {
            assert forall|q: int, idx: int| 0 <= q < 1 + r && tsum(t, q) <= idx < tsum(t, q + 1)
                implies #[trigger] self.node_init(o, idx, root_or_below(q), entry_parent(q)) by {
                if q == 0 {
                    assert(s1.node_init(o, idx, MAX_PWR_LVL, entry_parent(q)));
                    assert(s2.node_same(s1, idx, 1));
                } else {
                    assert(s2.node_init(s1, idx, 1, entry_parent(q)));
                    assert(s1.node_same(o, idx, MAX_PWR_LVL)) by {
                        lemma_tsum_mono(t, 1, q);
                    }
                }
            }
            assert forall|idx: int| d <= idx < NUM_NON_CPU_PWR_DOMAINS implies #[trigger] self.non_cpu@[idx] == o.non_cpu@[idx] by {
                assert(s1.node_same(o, idx, MAX_PWR_LVL));
                assert(s2.node_same(s1, idx, 1));
            }
            assert forall|idx: int| c <= idx < CORE_COUNT implies #[trigger] self.cpus@[idx] == o.cpus@[idx]
                && self.cpu_data@[idx] == o.cpu_data@[idx] by {
                assert(self.node_same(s2, idx, PSCI_CPU_PWR_LVL));
            }
            assert forall|q: int, idx: int| 1 + r <= q < 1 + d && tsum(t, q) - d <= idx < tsum(t, q + 1) - d
                implies #[trigger] self.node_init(o, idx, PSCI_CPU_PWR_LVL, entry_parent(q)) by {
                assert(self.node_init(s2, idx, PSCI_CPU_PWR_LVL, entry_parent(q)));
            }
        }
        if m > 0 {
            c as u32
        } else {
            r as u32
        }
    }

    /// The requests from position `from` of the table to its end.
    fn req_tail(&self, from: usize) -> (v: Vec<u8>)
        requires
            from <= self.req_local_pwr_states@.len(),
        ensures
            v@ == self.req_local_pwr_states@.subrange(from as int, self.req_local_pwr_states@.len() as int),
    {
        let mut v: Vec<u8> = Vec::new();
        let mut i: usize = from;
        while i < self.req_local_pwr_states.len()
            invariant
                from <= i <= self.req_local_pwr_states@.len(),
                v@ == self.req_local_pwr_states@.subrange(from as int, i as int),
            decreases self.req_local_pwr_states@.len() - i,
        {
            v.push(self.req_local_pwr_states[i]);
            i += 1;
            assert(v@ =~= self.req_local_pwr_states@.subrange(from as int, i as int));
        }
        v
    }

    /// Coordinates the power states that core `cpu_idx` requests up to `end_pwrlvl`
    /// (`state_info`): from level 1 up, its request at each level is recorded and
    /// `coordinate`, the platform's coordination, picks the level's target state from the
    /// requests of the cores of the domain there; once a target is the running state, the
    /// levels above only record their requests and run. The targets are then the local
    /// states of the core and its domains.
    pub fn do_state_coordination<F: Fn(usize, Vec<u8>, usize) -> u8>(&mut self, cpu_idx: usize, end_pwrlvl: usize, state_info: &mut [u8; 3], coordinate: &F)
        requires
            old(self).wf(),
            cpu_idx < CORE_COUNT,
            end_pwrlvl <= MAX_PWR_LVL,
            forall|l: int| 1 <= l <= end_pwrlvl ==> old(self).non_cpu@[#[trigger] old(self).parent_at(cpu_idx as int, l) as int].cpu_start_idx < CORE_COUNT,
            forall|l: usize, v: Vec<u8>, n: usize| #[trigger] call_requires(*coordinate, (l, v, n)),
        ensures
            final(self).wf(),
            final(self).cpus == old(self).cpus,
            final(self).req_local_pwr_states@ == req_after(old(self).req_local_pwr_states@, cpu_idx as int, old(state_info)@, end_pwrlvl as int),
            final(state_info)@[0] == old(state_info)@[0],
            forall|l: int| end_pwrlvl < l <= MAX_PWR_LVL ==> #[trigger] final(state_info)@[l] == old(state_info)@[l],
            forall|l: int| 1 <= l <= end_pwrlvl && (forall|l2: int| 1 <= l2 < l ==> final(state_info)@[l2] != PSCI_LOCAL_STATE_RUN)
                ==> Self::coordinated(*old(self), *coordinate, cpu_idx as int, old(state_info)@, l, #[trigger] final(state_info)@[l]),
            forall|l: int| 1 <= l <= end_pwrlvl && (exists|l2: int| 1 <= l2 < l && final(state_info)@[l2] == PSCI_LOCAL_STATE_RUN)
                ==> #[trigger] final(state_info)@[l] == PSCI_LOCAL_STATE_RUN,
            final(self).cpu_data@ == old(self).cpu_data@.update(cpu_idx as int, PsciCpuData {
                local_state: final(state_info)@[0], ..old(self).cpu_data@[cpu_idx as int] }),
            forall|l: int| 1 <= l <= end_pwrlvl && (forall|l2: int| l < l2 <= end_pwrlvl ==> old(self).parent_at(cpu_idx as int, l2) != old(self).parent_at(cpu_idx as int, l))
                ==> final(self).non_cpu@[#[trigger] old(self).parent_at(cpu_idx as int, l) as int].local_state == final(state_info)@[l],
    {
        let ghost o = *old(self);
        let ghost os = state_info@;
        let parents = self.get_parent_pwr_domain_nodes(cpu_idx);
        let mut stopped = false;
        let mut n: usize = 1;
        let mut lvl: usize = 1;
        proof {
            assert(self.req_local_pwr_states@ =~= req_after(o.req_local_pwr_states@, cpu_idx as int, os, 0));
        }
        while lvl <= end_pwrlvl && !stopped
            invariant
                o == *old(self),
                os == old(state_info)@,
                self.wf(),
                self.cpus == o.cpus,
                self.cpu_data == o.cpu_data,
                self.non_cpu == o.non_cpu,
                cpu_idx < CORE_COUNT,
                end_pwrlvl <= MAX_PWR_LVL,
                parents@ == o.parents(cpu_idx as int),
                forall|l: int| 1 <= l <= end_pwrlvl ==> o.non_cpu@[#[trigger] o.parent_at(cpu_idx as int, l) as int].cpu_start_idx < CORE_COUNT,
                forall|l: usize, v: Vec<u8>, m: usize| #[trigger] call_requires(*coordinate, (l, v, m)),
                1 <= lvl <= end_pwrlvl + 1,
                n == (if lvl == 1 { 1 } else { lvl - 1 }),
                self.req_local_pwr_states@ == req_after(o.req_local_pwr_states@, cpu_idx as int, os, lvl - 1),
                state_info@[0] == os[0],
                forall|l: int| lvl <= l <= MAX_PWR_LVL ==> #[trigger] state_info@[l] == os[l],
                forall|l: int| 1 <= l < lvl - 1 ==> #[trigger] state_info@[l] != PSCI_LOCAL_STATE_RUN,
                forall|l: int| 1 <= l < lvl ==> Self::coordinated(o, *coordinate, cpu_idx as int, os, l, #[trigger] state_info@[l]),
                stopped <==> (lvl > 1 && state_info@[lvl - 1] == PSCI_LOCAL_STATE_RUN),
            decreases end_pwrlvl + 1 - lvl,
        {
            let ghost before = self.req_local_pwr_states@;
            self.set_req_local_pwr_state(lvl, cpu_idx, state_info[lvl]);
            proof {
                let l = lvl as int;
                assert(self.req_local_pwr_states@ =~= req_after(o.req_local_pwr_states@, cpu_idx as int, os, l)) by {
                    assert forall|i: int| 0 <= i < before.len() implies #[trigger] self.req_local_pwr_states@[i]
                        == req_after(o.req_local_pwr_states@, cpu_idx as int, os, l)[i] by {
                        if i == CORE_COUNT * (l - 1) + cpu_idx {
                            assert(i % (CORE_COUNT as int) == cpu_idx as int && i / (CORE_COUNT as int) + 1 == l);
                        } else {
                            assert(!(i % (CORE_COUNT as int) == cpu_idx as int && i / (CORE_COUNT as int) + 1 == l));
                        }
                    }
                }
            }
            let p = parents[lvl - 1];
            proof {
                assert(o.parent_at(cpu_idx as int, lvl as int) == p);
            }
            let start = self.non_cpu[p].cpu_start_idx;
            let ncpus = self.non_cpu[p].ncpus;
            let req_states = self.req_tail(CORE_COUNT * (lvl - 1) + start);
            let ghost rv = req_states;
            let target = coordinate(lvl, req_states, ncpus);
            proof {
                assert(call_ensures(*coordinate, (lvl, rv, ncpus), target));
                assert(Self::coordinated(o, *coordinate, cpu_idx as int, os, lvl as int, target));
            }
            state_info[lvl] = target;
            n = lvl;
            if target == PSCI_LOCAL_STATE_RUN {
                stopped = true;
            }
            lvl += 1;
        }
        let ghost stop_lvl = lvl;
        // the levels above a running target record their requests and run
        let mut l2: usize = n + 1;
        while l2 <= end_pwrlvl
            invariant
                o == *old(self),
                os == old(state_info)@,
                self.wf(),
                self.cpus == o.cpus,
                self.cpu_data == o.cpu_data,
                self.non_cpu == o.non_cpu,
                cpu_idx < CORE_COUNT,
                end_pwrlvl <= MAX_PWR_LVL,
                n + 1 <= l2 <= end_pwrlvl + 1 || (l2 == n + 1 && n + 1 > end_pwrlvl + 1),
                self.req_local_pwr_states@ == req_after(o.req_local_pwr_states@, cpu_idx as int, os,
                    if l2 - 1 <= end_pwrlvl { l2 - 1 } else { end_pwrlvl as int }),
                state_info@[0] == os[0],
                forall|l: int| l2 <= l <= MAX_PWR_LVL ==> #[trigger] state_info@[l] == os[l],
                forall|l: int| n < l < l2 ==> #[trigger] state_info@[l] == PSCI_LOCAL_STATE_RUN,
                forall|l: int| end_pwrlvl < l <= MAX_PWR_LVL ==> #[trigger] state_info@[l] == os[l],
                forall|l: int| 1 <= l < n ==> #[trigger] state_info@[l] != PSCI_LOCAL_STATE_RUN,
                forall|l: int| 1 <= l <= n && l <= end_pwrlvl ==> Self::coordinated(o, *coordinate, cpu_idx as int, os, l, #[trigger] state_info@[l]),
                n < end_pwrlvl ==> state_info@[n as int] == PSCI_LOCAL_STATE_RUN,
                1 <= n,
            decreases end_pwrlvl + 1 - l2,
        {
            let ghost before = self.req_local_pwr_states@;
            self.set_req_local_pwr_state(l2, cpu_idx, state_info[l2]);
            proof {
                let l = l2 as int;
                assert(self.req_local_pwr_states@ =~= req_after(o.req_local_pwr_states@, cpu_idx as int, os, l)) by {
                    assert forall|i: int| 0 <= i < before.len() implies #[trigger] self.req_local_pwr_states@[i]
                        == req_after(o.req_local_pwr_states@, cpu_idx as int, os, l)[i] by {
                        if i == CORE_COUNT * (l - 1) + cpu_idx {
                            assert(i % (CORE_COUNT as int) == cpu_idx as int && i / (CORE_COUNT as int) + 1 == l);
                        } else {
                            assert(!(i % (CORE_COUNT as int) == cpu_idx as int && i / (CORE_COUNT as int) + 1 == l));
                        }
                    }
                }
            }
            state_info[l2] = PSCI_LOCAL_STATE_RUN;
            l2 += 1;
        }
        let ghost s3 = *self;
        self.set_target_local_pwr_states(cpu_idx, end_pwrlvl as u8, state_info);
        proof {
            assert forall|l: int| 1 <= l <= end_pwrlvl && (forall|l3: int| l < l3 <= end_pwrlvl ==> o.parent_at(cpu_idx as int, l3) != o.parent_at(cpu_idx as int, l))
                implies self.non_cpu@[#[trigger] o.parent_at(cpu_idx as int, l) as int].local_state == state_info@[l] by {
                assert(s3.parent_at(cpu_idx as int, l) == o.parent_at(cpu_idx as int, l));
                assert forall|l3: int| l < l3 <= end_pwrlvl implies s3.parent_at(cpu_idx as int, l3) != s3.parent_at(cpu_idx as int, l) by {
                    assert(s3.parent_at(cpu_idx as int, l3) == o.parent_at(cpu_idx as int, l3));
                }
            }
        }
    }

    /// The domains above core `cpu_idx`, from its parent up.
    pub fn get_parent_pwr_domain_nodes(&self, cpu_idx: usize) -> (r: [usize; 2])
        requires
            self.wf(),
            cpu_idx < CORE_COUNT,
        ensures
            r@ == self.parents(cpu_idx as int),
    {
        let p1 = self.cpus[cpu_idx].parent_node;
        let p2 = self.non_cpu[p1].parent_node;
        proof {
            assert(self.cpus@[cpu_idx as int].parent_node < NUM_NON_CPU_PWR_DOMAINS);
        }
        let r = [p1, p2];
        assert(r@ =~= self.parents(cpu_idx as int));
        r
    }

    /// The domain at position `j` above core `c - 1`, or 0 before the first core: the
    /// domain that the count at position `j` stands at before core `c` is counted.
    pub open spec fn prev_parent(&self, c: int, j: int) -> usize {
        if c <= 0 { 0 } else { self.parents(c - 1)[j] }
    }

    /// Core `c` is the first of a run of cores under domain `k` at position `j`.
    pub open spec fn starts_at(&self, c: int, j: int, k: int) -> bool {
        self.parents(c)[j] == k && self.prev_parent(c, j) != k
    }

    /// How often domain `k` is among the domains above the first `n` cores.
    pub open spec fn hits(&self, k: int, n: int) -> nat
        decreases n,
    {
        if n <= 0 {
            0
        } else {
            self.hits(k, n - 1) + (if self.parents(n - 1)[0] == k { 1nat } else { 0nat })
                + (if self.parents(n - 1)[1] == k { 1nat } else { 0nat })
        }
    }

    /// The first core of the last run of cores under domain `k` among the first `n` cores,
    /// or `init` if none starts one.
    pub open spec fn start_after(&self, k: int, n: int, init: usize) -> usize
        decreases n,
    {
        if n <= 0 {
            init
        } else if self.starts_at(n - 1, 0, k) || self.starts_at(n - 1, 1, k) {
            (n - 1) as usize
        } else {
            self.start_after(k, n - 1, init)
        }
    }

    /// Counts core `cpu_idx` in domain `node`, and makes it the domain's first core when
    /// `starts`.
    fn add_cpu_to(&mut self, node: usize, cpu_idx: usize, starts: bool)
        requires
            old(self).sized(),
            node < NUM_NON_CPU_PWR_DOMAINS,
            old(self).non_cpu@[node as int].ncpus < usize::MAX,
        ensures
            final(self).sized(),
            final(self).cpus == old(self).cpus,
            final(self).cpu_data == old(self).cpu_data,
            final(self).req_local_pwr_states == old(self).req_local_pwr_states,
            final(self).non_cpu@ == old(self).non_cpu@.update(node as int, NonCpuPwrDomainNode {
                ncpus: (old(self).non_cpu@[node as int].ncpus + 1) as usize,
                cpu_start_idx: if starts { cpu_idx } else { old(self).non_cpu@[node as int].cpu_start_idx },
                ..old(self).non_cpu@[node as int] }),
    {
        let mut n = self.non_cpu[node];
        if starts {
            n.cpu_start_idx = cpu_idx;
        }
        n.ncpus = n.ncpus + 1;
        self.non_cpu.set(node, n);
    }

    /// Records, for each domain above the cores, how many cores lie below it and where
    /// the last run of them starts, going through the cores in order and assuming that
    /// the cores under one domain are adjacent. The count at each level starts at
    /// domain 0.
    pub fn update_pwrlvl_limits(&mut self)
        requires
            old(self).wf(),
            forall|k: int| 0 <= k < NUM_NON_CPU_PWR_DOMAINS ==> old(self).non_cpu@[k].ncpus <= usize::MAX - 2 * CORE_COUNT,
        ensures
            final(self).wf(),
            final(self).cpus == old(self).cpus,
            final(self).cpu_data == old(self).cpu_data,
            final(self).req_local_pwr_states == old(self).req_local_pwr_states,
            forall|k: int| 0 <= k < NUM_NON_CPU_PWR_DOMAINS ==> #[trigger] final(self).non_cpu@[k] == (NonCpuPwrDomainNode {
                ncpus: (old(self).non_cpu@[k].ncpus + old(self).hits(k, CORE_COUNT as int)) as usize,
                cpu_start_idx: old(self).start_after(k, CORE_COUNT as int, old(self).non_cpu@[k].cpu_start_idx),
                ..old(self).non_cpu@[k] }),
    {
        let ghost o = *old(self);
        let mut n0: usize = 0;
        let mut n1: usize = 0;
        let mut cpu: usize = 0;
        while cpu < CORE_COUNT
            invariant
                0 <= cpu <= CORE_COUNT,
                o == *old(self),
                o.wf(),
                self.sized(),
                self.cpus == o.cpus,
                self.cpu_data == o.cpu_data,
                self.req_local_pwr_states == o.req_local_pwr_states,
                n0 == o.prev_parent(cpu as int, 0),
                n1 == o.prev_parent(cpu as int, 1),
                forall|k: int| 0 <= k < NUM_NON_CPU_PWR_DOMAINS ==> o.non_cpu@[k].ncpus <= usize::MAX - 2 * CORE_COUNT,
                forall|k: int| 0 <= k < NUM_NON_CPU_PWR_DOMAINS ==> o.hits(k, cpu as int) <= 2 * cpu,
                forall|k: int| 0 <= k < NUM_NON_CPU_PWR_DOMAINS ==> #[trigger] self.non_cpu@[k] == (NonCpuPwrDomainNode {
                    ncpus: (o.non_cpu@[k].ncpus + o.hits(k, cpu as int)) as usize,
                    cpu_start_idx: o.start_after(k, cpu as int, o.non_cpu@[k].cpu_start_idx),
                    ..o.non_cpu@[k] }),
            decreases CORE_COUNT - cpu,
        {
            proof {
                assert(self.wf()) by {
                    assert forall|i: int| 0 <= i < CORE_COUNT implies (#[trigger] self.cpus@[i]).parent_node < NUM_NON_CPU_PWR_DOMAINS
                        && self.non_cpu@[self.cpus@[i].parent_node as int].parent_node < NUM_NON_CPU_PWR_DOMAINS by {
                        assert(o.cpus@[i].parent_node < NUM_NON_CPU_PWR_DOMAINS);
                        assert(self.non_cpu@[o.cpus@[i].parent_node as int].parent_node == o.non_cpu@[o.cpus@[i].parent_node as int].parent_node);
                    }
                }
            }
            let parents = self.get_parent_pwr_domain_nodes(cpu);
            let ghost c = cpu as int;
            proof {
                assert(self.parents(c) == o.parents(c)) by {
                    assert(o.cpus@[c].parent_node < NUM_NON_CPU_PWR_DOMAINS);
                    assert(self.non_cpu@[o.cpus@[c].parent_node as int].parent_node == o.non_cpu@[o.cpus@[c].parent_node as int].parent_node);
                }
                assert(o.parents(c)[0] < NUM_NON_CPU_PWR_DOMAINS);
                assert(o.parents(c)[1] < NUM_NON_CPU_PWR_DOMAINS);
            }
            let p1 = parents[1];
            let ch1 = p1 != n1;
            n1 = p1;
            self.add_cpu_to(n1, cpu, ch1);
            let p0 = parents[0];
            let ch0 = p0 != n0;
            n0 = p0;
            self.add_cpu_to(n0, cpu, ch0);
            proof {
                assert forall|k: int| 0 <= k < NUM_NON_CPU_PWR_DOMAINS implies #[trigger] o.hits(k, c + 1) <= 2 * (c + 1) by {
                    assert(o.hits(k, c) <= 2 * c);
                }
                assert forall|k: int| 0 <= k < NUM_NON_CPU_PWR_DOMAINS implies #[trigger] self.non_cpu@[k] == NonCpuPwrDomainNode {
                    ncpus: (o.non_cpu@[k].ncpus + o.hits(k, c + 1)) as usize,
                    cpu_start_idx: o.start_after(k, c + 1, o.non_cpu@[k].cpu_start_idx),
                    ..o.non_cpu@[k] } by {
                    assert(o.hits(k, c + 1) == o.hits(k, c) + (if o.parents(c)[0] == k { 1nat } else { 0nat })
                        + (if o.parents(c)[1] == k { 1nat } else { 0nat }));
                }
            }
            cpu += 1;
        }
        proof {
            assert forall|i: int| 0 <= i < CORE_COUNT implies (#[trigger] self.cpus@[i]).parent_node < NUM_NON_CPU_PWR_DOMAINS
                && self.non_cpu@[self.cpus@[i].parent_node as int].parent_node < NUM_NON_CPU_PWR_DOMAINS by {
                assert(o.cpus@[i].parent_node < NUM_NON_CPU_PWR_DOMAINS);
                assert(self.non_cpu@[o.cpus@[i].parent_node as int].parent_node == o.non_cpu@[o.cpus@[i].parent_node as int].parent_node);
            }
        }
    }

    /// Records the local state that core `core` requests at level `pwrlvl`; levels outside
    /// the tree and cores outside the platform are ignored.
    pub fn set_req_local_pwr_state(&mut self, pwrlvl: usize, core: usize, state: u8)
        requires
            old(self).sized(),
        ensures
            final(self).sized(),
            final(self).non_cpu == old(self).non_cpu,
            final(self).cpus == old(self).cpus,
            final(self).cpu_data == old(self).cpu_data,
            (pwrlvl > PSCI_CPU_PWR_LVL && pwrlvl <= MAX_PWR_LVL && core < CORE_COUNT) ==>
                final(self).req_local_pwr_states@ == old(self).req_local_pwr_states@.update(CORE_COUNT * (pwrlvl - 1) + core, state),
            !(pwrlvl > PSCI_CPU_PWR_LVL && pwrlvl <= MAX_PWR_LVL && core < CORE_COUNT) ==>
                final(self).req_local_pwr_states == old(self).req_local_pwr_states,
    {
        if pwrlvl > PSCI_CPU_PWR_LVL as usize && pwrlvl <= MAX_PWR_LVL as usize && core < CORE_COUNT {
            let idx = CORE_COUNT * (pwrlvl - 1) + core;
            self.req_local_pwr_states.set(idx, state);
        }
    }

    /// Every core requests the deepest off state at every level.
    pub fn init_req_local_pwr_states(&mut self)
        requires
            old(self).sized(),
        ensures
            final(self).sized(),
            final(self).non_cpu == old(self).non_cpu,
            final(self).cpus == old(self).cpus,
            final(self).cpu_data == old(self).cpu_data,
            forall|i: int| 0 <= i < MAX_PWR_LVL as int * CORE_COUNT as int ==> final(self).req_local_pwr_states@[i] == MAX_OFF_STATE,
    {
        let mut pwrlvl: usize = 1;
        while pwrlvl < MAX_PWR_LVL as usize + 1
            invariant
                1 <= pwrlvl <= MAX_PWR_LVL + 1,
                self.sized(),
                self.non_cpu == old(self).non_cpu,
                self.cpus == old(self).cpus,
                self.cpu_data == old(self).cpu_data,
                forall|i: int| 0 <= i < CORE_COUNT as int * (pwrlvl - 1) ==> self.req_local_pwr_states@[i] == MAX_OFF_STATE,
            decreases MAX_PWR_LVL + 1 - pwrlvl,
        {
            let mut core: usize = 0;
            while core < CORE_COUNT
                invariant
                    1 <= pwrlvl <= MAX_PWR_LVL,
                    0 <= core <= CORE_COUNT,
                    self.sized(),
                    self.non_cpu == old(self).non_cpu,
                    self.cpus == old(self).cpus,
                    self.cpu_data == old(self).cpu_data,
                    forall|i: int| 0 <= i < CORE_COUNT as int * (pwrlvl - 1) + core ==> self.req_local_pwr_states@[i] == MAX_OFF_STATE,
                decreases CORE_COUNT - core,
            {
                self.set_req_local_pwr_state(pwrlvl, core, MAX_OFF_STATE);
                core += 1;
            }
            pwrlvl += 1;
        }
    }

    /// The level that core `idx` is turned on up to: its target level, or the top level
    /// when it has none.
    pub fn get_power_on_target_pwrlvl(&self, idx: usize) -> (r: u8)
        requires
            self.sized(),
            idx < CORE_COUNT,
        ensures
            r == (if self.cpu_data@[idx as int].target_pwrlvl == INVALID_PWR_LVL { MAX_PWR_LVL } else { self.cpu_data@[idx as int].target_pwrlvl }),
    {
        let pwrlvl = self.cpu_data[idx].target_pwrlvl;
        if pwrlvl == INVALID_PWR_LVL {
            MAX_PWR_LVL
        } else {
            pwrlvl
        }
    }

    /// Core `cpu_idx` and the domains above it up to `end_pwrlvl` run: their local states,
    /// and the core's requests at those levels, become the running state, and the core is on.
    pub fn set_pwr_domains_to_run(&mut self, cpu_idx: usize, end_pwrlvl: u8)
        requires
            old(self).wf(),
            cpu_idx < CORE_COUNT,
            end_pwrlvl <= MAX_PWR_LVL,
        ensures
            final(self).wf(),
            final(self).cpus == old(self).cpus,
            final(self).cpu_data@ == old(self).cpu_data@.update(cpu_idx as int, PsciCpuData {
                aff_info_state: AffInfoState::StateOn, local_state: PSCI_LOCAL_STATE_RUN, ..old(self).cpu_data@[cpu_idx as int] }),
            forall|l: int| 1 <= l <= end_pwrlvl ==> final(self).non_cpu@[#[trigger] old(self).parent_at(cpu_idx as int, l) as int].local_state == PSCI_LOCAL_STATE_RUN,
            forall|l: int| 1 <= l <= end_pwrlvl ==> #[trigger] final(self).req_at(l, cpu_idx as int) == PSCI_LOCAL_STATE_RUN,
    {
        let parents = self.get_parent_pwr_domain_nodes(cpu_idx);
        let ghost ps = parents@;
        let mut lvl: u8 = PSCI_CPU_PWR_LVL + 1;
        while lvl < end_pwrlvl + 1
            invariant
                1 <= lvl <= end_pwrlvl + 1,
                end_pwrlvl <= MAX_PWR_LVL,
                cpu_idx < CORE_COUNT,
                self.wf(),
                ps == old(self).parents(cpu_idx as int),
                parents@ == ps,
                self.cpus == old(self).cpus,
                self.cpu_data == old(self).cpu_data,
                forall|j: int| 0 <= j < NUM_NON_CPU_PWR_DOMAINS ==> self.non_cpu@[j].parent_node == old(self).non_cpu@[j].parent_node,
                forall|l: int| 1 <= l < lvl ==> self.non_cpu@[#[trigger] old(self).parent_at(cpu_idx as int, l) as int].local_state == PSCI_LOCAL_STATE_RUN,
                forall|l: int| 1 <= l < lvl ==> #[trigger] self.req_at(l, cpu_idx as int) == PSCI_LOCAL_STATE_RUN,
            decreases end_pwrlvl + 1 - lvl,
        {
            let p = parents[(lvl - 1) as usize];
            let mut n = self.non_cpu[p];
            n.local_state = PSCI_LOCAL_STATE_RUN;
            let ghost d0 = *self;
            self.non_cpu.set(p, n);
            self.set_req_local_pwr_state(lvl as usize, cpu_idx, PSCI_LOCAL_STATE_RUN);
            proof {
                assert(CORE_COUNT == 4);
                assert forall|l: int| 1 <= l < lvl + 1 implies #[trigger] self.req_at(l, cpu_idx as int) == PSCI_LOCAL_STATE_RUN by {
                    if l < lvl {
                        let a = CORE_COUNT as int * (l - 1) + cpu_idx;
                        let b = CORE_COUNT as int * (lvl - 1) + cpu_idx;
                        assert(a != b) by (nonlinear_arith)
                            requires
                                l < lvl,
                                a == CORE_COUNT as int * (l - 1) + cpu_idx,
                                b == CORE_COUNT as int * (lvl - 1) + cpu_idx,
                                CORE_COUNT as int == 4,
                        ;
                        assert(d0.req_at(l, cpu_idx as int) == PSCI_LOCAL_STATE_RUN);
                        assert(self.req_local_pwr_states@[a] == d0.req_local_pwr_states@[a]);
                    } else {
                        assert(l == lvl);
                    }
                }
                assert(old(self).parent_at(cpu_idx as int, lvl as int) == p);
                assert forall|l: int| 1 <= l < lvl + 1 implies self.non_cpu@[#[trigger] old(self).parent_at(cpu_idx as int, l) as int].local_state == PSCI_LOCAL_STATE_RUN by {
                    if l < lvl {
                        assert(d0.non_cpu@[old(self).parent_at(cpu_idx as int, l) as int].local_state == PSCI_LOCAL_STATE_RUN);
                    }
                }
            }
            lvl += 1;
        }
        let ghost d1 = *self;
        let mut c = self.cpu_data[cpu_idx];
        c.aff_info_state = AffInfoState::StateOn;
        c.local_state = PSCI_LOCAL_STATE_RUN;
        self.cpu_data.set(cpu_idx, c);
        proof {
            assert forall|l: int| 1 <= l <= end_pwrlvl implies #[trigger] self.req_at(l, cpu_idx as int) == PSCI_LOCAL_STATE_RUN by {
                assert(d1.req_at(l, cpu_idx as int) == PSCI_LOCAL_STATE_RUN);
            }
        }
    }
}

impl PsciData {
    /// The local states of core `idx` and of the domains above it up to `end_pwrlvl`;
    /// the levels above `end_pwrlvl` count as running.
    pub fn get_target_local_pwr_states(&self, idx: usize, end_pwrlvl: u8) -> (r: [u8; 3])
        requires
            self.wf(),
            idx < CORE_COUNT,
            end_pwrlvl <= MAX_PWR_LVL,
        ensures
            r@[0] == self.cpu_data@[idx as int].local_state,
            forall|l: int| 1 <= l <= end_pwrlvl ==> r@[l] == self.non_cpu@[#[trigger] self.parent_at(idx as int, l) as int].local_state,
            forall|l: int| end_pwrlvl < l <= MAX_PWR_LVL ==> #[trigger] r@[l] == PSCI_LOCAL_STATE_RUN,
    {
        let parents = self.get_parent_pwr_domain_nodes(idx);
        let mut target: [u8; 3] = [0; 3];
        target[0] = self.cpu_data[idx].local_state;
        let mut lvl: u8 = PSCI_CPU_PWR_LVL + 1;
        while lvl < end_pwrlvl + 1
            invariant
                1 <= lvl <= end_pwrlvl + 1,
                end_pwrlvl <= MAX_PWR_LVL,
                idx < CORE_COUNT,
                self.wf(),
                parents@ == self.parents(idx as int),
                target@[0] == self.cpu_data@[idx as int].local_state,
                forall|l: int| 1 <= l < lvl ==> target@[l] == self.non_cpu@[#[trigger] self.parent_at(idx as int, l) as int].local_state,
            decreases end_pwrlvl + 1 - lvl,
        {
            let p = parents[(lvl - 1) as usize];
            proof {
                assert(self.parent_at(idx as int, lvl as int) == p);
            }
            target[lvl as usize] = self.non_cpu[p].local_state;
            lvl += 1;
        }
        let mut lvl: u8 = end_pwrlvl + 1;
        while lvl < MAX_PWR_LVL + 1
            invariant
                end_pwrlvl + 1 <= lvl <= MAX_PWR_LVL + 1,
                idx < CORE_COUNT,
                self.wf(),
                target@[0] == self.cpu_data@[idx as int].local_state,
                forall|l: int| 1 <= l <= end_pwrlvl ==> target@[l] == self.non_cpu@[#[trigger] self.parent_at(idx as int, l) as int].local_state,
                forall|l: int| end_pwrlvl < l < lvl ==> #[trigger] target@[l] == PSCI_LOCAL_STATE_RUN,
            decreases MAX_PWR_LVL + 1 - lvl,
        {
            target[lvl as usize] = PSCI_LOCAL_STATE_RUN;
            lvl += 1;
        }
        target
    }

    /// Sets the local states of core `idx` and of the domains above it up to `end_pwlvl`
    /// to those of `target_state`.
    pub fn set_target_local_pwr_states(&mut self, idx: usize, end_pwlvl: u8, target_state: &[u8; 3])
        requires
            old(self).wf(),
            idx < CORE_COUNT,
            end_pwlvl <= MAX_PWR_LVL,
        ensures
            final(self).wf(),
            final(self).cpus == old(self).cpus,
            final(self).req_local_pwr_states == old(self).req_local_pwr_states,
            final(self).cpu_data@ == old(self).cpu_data@.update(idx as int, PsciCpuData {
                local_state: target_state@[0], ..old(self).cpu_data@[idx as int] }),
            forall|l: int| 1 <= l <= end_pwlvl && (forall|l2: int| l < l2 <= end_pwlvl ==> old(self).parent_at(idx as int, l2) != old(self).parent_at(idx as int, l))
                ==> final(self).non_cpu@[#[trigger] old(self).parent_at(idx as int, l) as int].local_state == target_state@[l],
    {
        let mut c = self.cpu_data[idx];
        c.local_state = target_state[0];
        self.cpu_data.set(idx, c);
        let parents = self.get_parent_pwr_domain_nodes(idx);
        let mut lvl: u8 = 1;
        while lvl < end_pwlvl + 1
            invariant
                1 <= lvl <= end_pwlvl + 1,
                end_pwlvl <= MAX_PWR_LVL,
                idx < CORE_COUNT,
                self.wf(),
                parents@ == old(self).parents(idx as int),
                self.cpus == old(self).cpus,
                self.req_local_pwr_states == old(self).req_local_pwr_states,
                self.cpu_data@ == old(self).cpu_data@.update(idx as int, PsciCpuData { local_state: target_state@[0], ..old(self).cpu_data@[idx as int] }),
                forall|j: int| 0 <= j < NUM_NON_CPU_PWR_DOMAINS ==> self.non_cpu@[j].parent_node == old(self).non_cpu@[j].parent_node,
                forall|l: int| 1 <= l < lvl && (forall|l2: int| l < l2 < lvl ==> old(self).parent_at(idx as int, l2) != old(self).parent_at(idx as int, l))
                    ==> self.non_cpu@[#[trigger] old(self).parent_at(idx as int, l) as int].local_state == target_state@[l],
            decreases end_pwlvl + 1 - lvl,
        {
            let p = parents[(lvl - 1) as usize];
            let ghost d0 = *self;
            let mut n = self.non_cpu[p];
            n.local_state = target_state[lvl as usize];
            self.non_cpu.set(p, n);
            proof {
                assert(old(self).parent_at(idx as int, lvl as int) == p);
                assert forall|l: int| 1 <= l < lvl + 1 && (forall|l2: int| l < l2 < lvl + 1 ==> old(self).parent_at(idx as int, l2) != old(self).parent_at(idx as int, l))
                    implies self.non_cpu@[#[trigger] old(self).parent_at(idx as int, l) as int].local_state == target_state@[l] by {
                    if l < lvl {
                        assert(old(self).parent_at(idx as int, lvl as int) != old(self).parent_at(idx as int, l));
                        assert(d0.non_cpu@[old(self).parent_at(idx as int, l) as int].local_state == target_state@[l]);
                    }
                }
            }
            lvl += 1;
        }
    }
}

/// Whether a core in `aff_state` can be turned on: only a core that is off can.
pub fn validate_state(aff_state: &AffInfoState) -> (r: PsciResult)
    ensures
        r == match *aff_state {
            AffInfoState::StateOn => PsciResult::PsciEAleadyOn,
            AffInfoState::StateOnPending => PsciResult::PsciEOnPending,
            AffInfoState::StateOff => PsciResult::PsciESuccess,
        },
{
    match aff_state {
        AffInfoState::StateOn => PsciResult::PsciEAleadyOn,
        AffInfoState::StateOnPending => PsciResult::PsciEOnPending,
        AffInfoState::StateOff => PsciResult::PsciESuccess,
    }
}

impl PsciData {
    /// Starts turning core `idx` on: a core that is off becomes pending; otherwise the
    /// reason it cannot be turned on.
    pub fn start(&mut self, idx: usize) -> (r: PsciResult)
        requires
            old(self).sized(),
            idx < CORE_COUNT,
        ensures
            final(self).sized(),
            final(self).non_cpu == old(self).non_cpu,
            final(self).cpus == old(self).cpus,
            final(self).req_local_pwr_states == old(self).req_local_pwr_states,
            old(self).cpu_data@[idx as int].aff_info_state == AffInfoState::StateOff ==> r == PsciResult::PsciESuccess
                && final(self).cpu_data@ == old(self).cpu_data@.update(idx as int, PsciCpuData {
                    aff_info_state: AffInfoState::StateOnPending, ..old(self).cpu_data@[idx as int] }),
            old(self).cpu_data@[idx as int].aff_info_state == AffInfoState::StateOn ==> r == PsciResult::PsciEAleadyOn
                && final(self).cpu_data == old(self).cpu_data,
            old(self).cpu_data@[idx as int].aff_info_state == AffInfoState::StateOnPending ==> r == PsciResult::PsciEOnPending
                && final(self).cpu_data == old(self).cpu_data,
    {
        let state = self.cpu_data[idx].aff_info_state;
        match validate_state(&state) {
            PsciResult::PsciESuccess => {},
            err => {
                return err;
            },
        }
        let mut c = self.cpu_data[idx];
        c.aff_info_state = AffInfoState::StateOnPending;
        self.cpu_data.set(idx, c);
        PsciResult::PsciESuccess
    }

    /// PSCI `CPU_ON`. `target_idx` is the platform's position of the target MPIDR, `None`
    /// when no core has it; the other arguments are those of `validate_entry_point`. An
    /// unknown core is refused with invalid parameters; then the entry point is validated;
    /// then the core starts turning on. On success, the entry point it is to enter.
    pub fn psci_cpu_on(&mut self, target_idx: Option<usize>, entrypoint: usize, context_id: usize, ns_entry_valid: bool,
        ns_scr_el3: u64, sctlr_el2: u64, sctlr_el1: u64) -> (r: Result<EntryPointInfo, PsciResult>)
        requires
            old(self).sized(),
            target_idx matches Some(i) ==> i < CORE_COUNT,
        ensures
            final(self).sized(),
            final(self).non_cpu == old(self).non_cpu,
            final(self).cpus == old(self).cpus,
            final(self).req_local_pwr_states == old(self).req_local_pwr_states,
            target_idx is None ==> r == Err::<EntryPointInfo, PsciResult>(PsciResult::PsciEInvalidParams)
                && final(self).cpu_data == old(self).cpu_data,
            target_idx is Some && !ns_entry_valid ==> r == Err::<EntryPointInfo, PsciResult>(PsciResult::PsciEInvalidAddress)
                && final(self).cpu_data == old(self).cpu_data,
            target_idx is Some && ns_entry_valid && ns_ep_info(entrypoint, context_id, ns_scr_el3, sctlr_el2, sctlr_el1) is Err
                ==> r == ns_ep_info(entrypoint, context_id, ns_scr_el3, sctlr_el2, sctlr_el1)
                && final(self).cpu_data == old(self).cpu_data,
            target_idx is Some && ns_entry_valid && ns_ep_info(entrypoint, context_id, ns_scr_el3, sctlr_el2, sctlr_el1) is Ok ==> {
                let i = target_idx->Some_0;
                let st = old(self).cpu_data@[i as int].aff_info_state;
                &&& st == AffInfoState::StateOff ==> r == ns_ep_info(entrypoint, context_id, ns_scr_el3, sctlr_el2, sctlr_el1)
                    && final(self).cpu_data@ == old(self).cpu_data@.update(i as int, PsciCpuData {
                        aff_info_state: AffInfoState::StateOnPending, ..old(self).cpu_data@[i as int] })
                &&& st == AffInfoState::StateOn ==> r == Err::<EntryPointInfo, PsciResult>(PsciResult::PsciEAleadyOn)
                    && final(self).cpu_data == old(self).cpu_data
                &&& st == AffInfoState::StateOnPending ==> r == Err::<EntryPointInfo, PsciResult>(PsciResult::PsciEOnPending)
                    && final(self).cpu_data == old(self).cpu_data
            },
    {
        let idx = match target_idx {
            Some(i) => i,
            None => {
                return Err(PsciResult::PsciEInvalidParams);
            },
        };
        let ep = match validate_entry_point(entrypoint, context_id, ns_entry_valid, ns_scr_el3, sctlr_el2, sctlr_el1) {
            Ok(e) => e,
            Err(e) => {
                return Err(e);
            },
        };
        match self.start(idx) {
            PsciResult::PsciESuccess => Ok(ep),
            e => Err(e),
        }
    }

    /// The platform answered `rc` to turning core `idx` on: on a failure the core is off
    /// again. The answer is passed on.
    pub fn on_result(&mut self, idx: usize, rc: PsciResult) -> (r: PsciResult)
        requires
            old(self).sized(),
            idx < CORE_COUNT,
        ensures
            r == rc,
            final(self).sized(),
            final(self).non_cpu == old(self).non_cpu,
            final(self).cpus == old(self).cpus,
            final(self).req_local_pwr_states == old(self).req_local_pwr_states,
            rc == PsciResult::PsciESuccess ==> final(self).cpu_data == old(self).cpu_data,
            rc != PsciResult::PsciESuccess ==> final(self).cpu_data@ == old(self).cpu_data@.update(idx as int, PsciCpuData {
                aff_info_state: AffInfoState::StateOff, ..old(self).cpu_data@[idx as int] }),
    {
        if rc != PsciResult::PsciESuccess {
            let mut c = self.cpu_data[idx];
            c.aff_info_state = AffInfoState::StateOff;
            self.cpu_data.set(idx, c);
        }
        rc
    }

    /// Brings core `idx` up after a warm boot: the level it is turned on up to, the local
    /// states up there before, and whether it was pending; then the core and its domains
    /// up to that level run.
    pub fn init_warmboot(&mut self, idx: usize) -> (r: (u8, [u8; 3], bool))
        requires
            old(self).wf(),
            idx < CORE_COUNT,
            old(self).cpu_data@[idx as int].aff_info_state != AffInfoState::StateOff,
            old(self).cpu_data@[idx as int].target_pwrlvl <= MAX_PWR_LVL
                || old(self).cpu_data@[idx as int].target_pwrlvl == INVALID_PWR_LVL,
        ensures
            final(self).wf(),
            r.0 == (if old(self).cpu_data@[idx as int].target_pwrlvl == INVALID_PWR_LVL { MAX_PWR_LVL } else { old(self).cpu_data@[idx as int].target_pwrlvl }),
            r.1@[0] == old(self).cpu_data@[idx as int].local_state,
            forall|l: int| 1 <= l <= r.0 ==> r.1@[l] == old(self).non_cpu@[#[trigger] old(self).parent_at(idx as int, l) as int].local_state,
            forall|l: int| r.0 < l <= MAX_PWR_LVL ==> #[trigger] r.1@[l] == PSCI_LOCAL_STATE_RUN,
            r.2 == (old(self).cpu_data@[idx as int].aff_info_state == AffInfoState::StateOnPending),
            final(self).cpu_data@ == old(self).cpu_data@.update(idx as int, PsciCpuData {
                aff_info_state: AffInfoState::StateOn, local_state: PSCI_LOCAL_STATE_RUN, ..old(self).cpu_data@[idx as int] }),
            forall|l: int| 1 <= l <= r.0 ==> final(self).non_cpu@[#[trigger] old(self).parent_at(idx as int, l) as int].local_state == PSCI_LOCAL_STATE_RUN,
            forall|l: int| 1 <= l <= r.0 ==> #[trigger] final(self).req_at(l, idx as int) == PSCI_LOCAL_STATE_RUN,
    {
        let end_pwrlvl = self.get_power_on_target_pwrlvl(idx);
        let state_info = self.get_target_local_pwr_states(idx, end_pwrlvl);
        let pending = self.cpu_data[idx].aff_info_state == AffInfoState::StateOnPending;
        self.set_pwr_domains_to_run(idx, end_pwrlvl);
        (end_pwrlvl, state_info, pending)
    }
}

} // verus!
