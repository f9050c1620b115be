//! User processes: the process table, the ready queue threaded through it, process IDs,
//! the thread ID register's format, and the decisions of scheduling, exit and kill.
use super::syscall::Locator;
use vstd::prelude::*;

verus! {

/// The number of entries of the process table.
pub const PROCESS_MAX: usize = 256;

#[derive(Debug, Clone, Copy, PartialEq, Eq, Structural)]
pub enum State {
    Ready,
    Active,
    Recv,
    Killed,
    Zombie,
}

/// An entry of the process table: its state, the next process in the ready queue, and
/// its raw ID.
#[derive(Debug, Clone, Copy, PartialEq, Eq, Structural)]
pub struct Process {
    pub state: State,
    pub next: Option<u8>,
    pub id: u8,
}

/// The process ID made of a raw ID and the number of processes that have had it.
pub open spec fn pid_of(id: u8, cnt: u16) -> u32 {
    (cnt as int * 256 + id as int) as u32
}

impl Process {
    pub fn new(id: u8) -> (r: Process)
        ensures
            r.state == State::Ready,
            r.next is None,
            r.id == id,
    {
        Process { state: State::Ready, next: None, id: id }
    }

    /// The process ID: the count above the raw ID.
    pub fn get_pid(&self, cnt: u16) -> (r: u32)
        ensures
            r == pid_of(self.id, cnt),
            r as int == cnt as int * 256 + self.id as int,
    {
        let c = cnt as u32;
        let i = self.id as u32;
        let r = c << 8 | i;
        assert((c << 8 | i) == c * 256 + i) by (bit_vector)
            requires
                c < 0x10000,
                i < 0x100,
        ;
        r
    }

    /// The raw ID and the count of a process ID.
    pub fn pid_to_id_cnt(pid: u32) -> (r: (u8, u16))
        ensures
            r.0 as int == pid as int % 256,
            r.1 as int == (pid as int / 256) % 0x10000,
    {
        assert((pid & 0xff) == pid % 256) by (bit_vector);
        assert((pid >> 8) == pid / 256) by (bit_vector);
        assert(((pid >> 8) as u16) as u32 == (pid / 256) % 0x10000) by (bit_vector);
        let id = (pid & 0xff) as u8;
        let cnt = (pid >> 8) as u16;
        (id, cnt)
    }
}

/// Law: a process ID gives back the raw ID and the count it was made of.
pub proof fn lemma_pid_roundtrip(id: u8, cnt: u16)
    ensures
        pid_of(id, cnt) as int % 256 == id,
        pid_of(id, cnt) as int / 256 == cnt,
{
    assert(cnt as int * 256 + id as int <= u32::MAX);
}

/// `ids` are processes of `tbl`, each linked to the next, the last to none.
pub open spec fn linked(tbl: Seq<Option<Process>>, ids: Seq<u8>) -> bool {
    &&& ids.no_duplicates()
    &&& forall|i: int| 0 <= i < ids.len() ==> (#[trigger] ids[i] as int) < tbl.len() && (tbl[ids[i] as int] matches Some(p) && p.id == ids[i])
    &&& forall|i: int| 0 <= i < ids.len() - 1 ==> tbl[#[trigger] ids[i] as int]->Some_0.next == Some(ids[i + 1])
    &&& ids.len() > 0 ==> tbl[ids.last() as int]->Some_0.next is None
}

/// Unlinking the process after position `k` of a queue leaves a queue without it.
proof fn lemma_unlink(old_tbl: Seq<Option<Process>>, tbl: Seq<Option<Process>>, q: Seq<u8>, k: int, id: u8)
    requires
        linked(old_tbl, q),
        0 <= k < q.len() - 1,
        q[k + 1] == id,
        tbl.len() == old_tbl.len(),
        tbl[q[k] as int] matches Some(p) && p.id == q[k] && p.next == old_tbl[id as int]->Some_0.next,
        forall|j: int| 0 <= j < tbl.len() && j != q[k] ==> tbl[j] == old_tbl[j],
    ensures
        linked(tbl, q.remove(k + 1)),
{
    let nq = q.remove(k + 1);
    assert forall|i: int| 0 <= i < nq.len() implies (#[trigger] nq[i] as int) < tbl.len() && (tbl[nq[i] as int] matches Some(p) && p.id == nq[i]) by {
        if i <= k {
            assert(nq[i] == q[i]);
        } else {
            assert(nq[i] == q[i + 1]);
        }
    }
    assert forall|i: int| 0 <= i < nq.len() - 1 implies tbl[#[trigger] nq[i] as int]->Some_0.next == Some(nq[i + 1]) by {
        if i < k {
            assert(nq[i] == q[i] && nq[i + 1] == q[i + 1]);
            assert(q[i] != q[k]);
        } else if i == k {
            assert(nq[i + 1] == q[k + 2]);
            assert(old_tbl[q[k + 1] as int]->Some_0.next == Some(q[k + 2]));
        } else {
            assert(nq[i] == q[i + 1] && nq[i + 1] == q[i + 2]);
            assert(q[i + 1] != q[k]);
        }
    }
    if nq.len() > 0 {
        if k + 1 == q.len() - 1 {
            assert(nq.last() == q[k]);
            assert(q.last() == id);
        } else {
            assert(nq.last() == q.last());
            assert(q.last() != q[k]);
        }
    }
    assert(nq.no_duplicates()) by {
        assert forall|i: int, j: int| 0 <= i < nq.len() && 0 <= j < nq.len() && i != j implies nq[i] != nq[j] by {
            let a = if i <= k { i } else { i + 1 };
            let b = if j <= k { j } else { j + 1 };
            assert(nq[i] == q[a] && nq[j] == q[b]);
        }
    }
}

/// The ready queue: its first and last process; the processes in between follow the
/// links of the table.
pub struct ProcessQ {
    pub ends: Option<(u8, u8)>,
    pub ids: Ghost<Seq<u8>>,
}

impl View for ProcessQ {
    type V = Seq<u8>;

    /// The ids in queue order. `ends` adds nothing to it: in a well-formed queue it is the
    /// first and the last of these ids, or `None` when there is none (see `wf`).
    open spec fn view(&self) -> Seq<u8> {
        self.ids@
    }
}

/// `b` is `a` with only the link of entry `j` changed.
pub open spec fn relinked(a: Option<Process>, b: Option<Process>) -> bool {
    match a {
        Some(p) => (b matches Some(q) && q.state == p.state && q.id == p.id),
        None => b is None,
    }
}

impl ProcessQ {
    /// The queue holds the processes of its model, in order, linked through `tbl`.
    pub open spec fn wf(&self, tbl: Seq<Option<Process>>) -> bool {
        &&& linked(tbl, self@)
        &&& (self@.len() == 0 <==> self.ends is None)
        &&& self@.len() > 0 ==> self.ends == Some((self@[0], self@.last()))
    }

    pub fn new() -> (r: ProcessQ)
        ensures
            r@ == Seq::<u8>::empty(),
            forall|tbl: Seq<Option<Process>>| r.wf(tbl),
    {
        ProcessQ { ends: None, ids: Ghost(Seq::empty()) }
    }

    pub fn is_empty(&self) -> (r: bool)
        requires
            exists|tbl: Seq<Option<Process>>| self.wf(tbl),
        ensures
            r == (self@.len() == 0),
    {
        self.ends.is_none()
    }

    /// Appends process `id` to the queue.
    pub fn enque(&mut self, id: u8, tbl: &mut Vec<Option<Process>>)
        requires
            old(self).wf(old(tbl)@),
            (id as int) < old(tbl)@.len(),
            old(tbl)@[id as int] matches Some(p) && p.next is None && p.id == id,
            !old(self)@.contains(id),
        ensures
            final(self)@ == old(self)@.push(id),
            final(self).wf(final(tbl)@),
            final(tbl)@.len() == old(tbl)@.len(),
            forall|j: int| 0 <= j < old(tbl)@.len() ==> relinked(old(tbl)@[j], #[trigger] final(tbl)@[j]),
            forall|j: int| 0 <= j < old(tbl)@.len() && (old(self)@.len() == 0 || j != old(self)@.last()) ==> #[trigger] final(tbl)@[j] == old(tbl)@[j],
    {
        let ghost q = self@;
        match self.ends {
            Some((h, t)) => {
                if let Some(mut entry) = tbl[t as usize] {
                    entry.next = Some(id);
                    tbl.set(t as usize, Some(entry));
                    self.ends = Some((h, id));
                }
            },
            None => {
                self.ends = Some((id, id));
            },
        }
        self.ids = Ghost(q.push(id));
        proof {
            let n = q.push(id);
            assert forall|i: int| 0 <= i < n.len() - 1 implies tbl@[#[trigger] n[i] as int]->Some_0.next == Some(n[i + 1]) by {
                if i < q.len() - 1 {
                    assert(n[i] != q.last());
                }
            }
            assert(n.last() == id);
            assert forall|i: int| 0 <= i < n.len() implies (#[trigger] n[i] as int) < tbl@.len() && (tbl@[n[i] as int] matches Some(p) && p.id == n[i]) by {
                if i < q.len() {
                    assert(n[i] == q[i]);
                }
            }
        }
    }

    /// Takes process `id` out of the queue, wherever it stands; a process that is not
    /// queued leaves everything as it was.
    pub fn remove(&mut self, id: u8, tbl: &mut Vec<Option<Process>>)
        requires
            old(self).wf(old(tbl)@),
            (id as int) < old(tbl)@.len(),
            old(tbl)@[id as int] is Some,
        ensures
            final(self).wf(final(tbl)@),
            final(tbl)@.len() == old(tbl)@.len(),
            forall|j: int| 0 <= j < old(tbl)@.len() ==> relinked(old(tbl)@[j], #[trigger] final(tbl)@[j]),
            !old(self)@.contains(id) ==> final(self)@ == old(self)@ && final(tbl)@ == old(tbl)@,
            old(self)@.contains(id) ==> exists|k: int| 0 <= k < old(self)@.len() && old(self)@[k] == id && final(self)@ == old(self)@.remove(k),
    {
        let ghost q = self@;
        if let Some((h, t)) = self.ends {
            proof {
                assert(q[0] == h);
            }
            if h == id {
                if let Some(mut entry) = tbl[h as usize] {
                    if h == t {
                        self.ends = None;
                    } else {
                        proof {
                            assert(q.len() > 1) by {
                                if q.len() == 1 {
                                    assert(q.last() == q[0]);
                                }
                            }
                        }
                        self.ends = Some((entry.next.unwrap(), t));
                    }
                    entry.next = None;
                    tbl.set(h as usize, Some(entry));
                    self.ids = Ghost(q.drop_first());
                    proof {
                        let n = q.drop_first();
                        assert(n =~= q.remove(0));
                        assert forall|i: int| 0 <= i < n.len() implies (#[trigger] n[i] as int) < tbl@.len() && (tbl@[n[i] as int] matches Some(p) && p.id == n[i]) by {
                            assert(n[i] == q[i + 1]);
                        }
                        assert forall|i: int| 0 <= i < n.len() - 1 implies tbl@[#[trigger] n[i] as int]->Some_0.next == Some(n[i + 1]) by {
                            assert(n[i] == q[i + 1]);
                            assert(q[i + 1] != q[0]);
                        }
                        if n.len() > 0 {
                            assert(n.last() == q.last());
                            assert(q.last() != q[0]);
                        }
                    }
                    return;
                }
            }
            let id_next = tbl[id as usize].unwrap().next;
            let mut n = h;
            let ghost mut k: int = 0;
            let mut done = false;
            let mut found = false;
            while !done
                invariant
                    !done ==> 0 <= k < q.len() && n == q[k] && forall|j: int| 0 <= j <= k ==> q[j] != id,
                    !found ==> self@ == q && tbl@ == old(tbl)@ && self.ends == Some((h, t)),
                    found ==> 0 <= k < q.len() - 1 && q[k + 1] == id && self@ == q.remove(k + 1) && self.wf(tbl@),
                    found ==> forall|j: int| 0 <= j < old(tbl)@.len() ==> relinked(old(tbl)@[j], #[trigger] tbl@[j]),
                    done && !found ==> !q.contains(id),
                    tbl@.len() == old(tbl)@.len(),
                    q == old(self)@,
                    old(self).ends == Some((h, t)),
                    old(self).wf(old(tbl)@),
                    id_next == old(tbl)@[id as int]->Some_0.next,
                    self.ends is Some ==> self.ends->Some_0.0 == h,
                    !found ==> !done || !q.contains(id),
                    found ==> done,
                decreases q.len() - k + (if done { 0int } else { 1int }),
            {
                match tbl[n as usize] {
                    Some(mut entry) => {
                        match entry.next {
                            Some(next) => {
                                proof {
                                    assert(k < q.len() - 1) by {
                                        if k == q.len() - 1 {
                                            assert(q.last() == q[k]);
                                        }
                                    }
                                }
                                if next == id {
                                    entry.next = id_next;
                                    tbl.set(n as usize, Some(entry));
                                    if t == id {
                                        self.ends = Some((h, entry.id));
                                    }
                                    let ghost nq = q.remove(k + 1);
                                    self.ids = Ghost(nq);
                                    proof {
                                        lemma_unlink(old(tbl)@, tbl@, q, k, id);
                                        if t == id {
                                            assert(k + 1 == q.len() - 1) by {
                                                if k + 1 < q.len() - 1 {
                                                    assert(q[k + 1] == q[q.len() - 1]);
                                                }
                                            }
                                        } else {
                                            assert(k + 1 < q.len() - 1);
                                        }
                                    }
                                    found = true;
                                    done = true;
                                } else {
                                    n = next;
                                    proof {
                                        k = k + 1;
                                    }
                                }
                            },
                            None => {
                                proof {
                                    assert(k == q.len() - 1) by {
                                        if k < q.len() - 1 {
                                            assert(tbl@[q[k] as int]->Some_0.next == Some(q[k + 1]));
                                        }
                                    }
                                    assert(!q.contains(id)) by {
                                        if q.contains(id) {
                                            let j = choose|j: int| 0 <= j < q.len() && q[j] == id;
                                            assert(q[j] != id);
                                        }
                                    }
                                }
                                done = true;
                            },
                        }
                    },
                    None => {
                        proof {
                            assert(tbl@[q[k] as int] is Some);
                        }
                    },
                }
            }
            proof {
                if found {
                    assert(q[k + 1] == id);
                }
            }
        }
    }

    /// Takes the first process off the queue.
    pub fn deque(&mut self, tbl: &mut Vec<Option<Process>>) -> (r: Option<u8>)
        requires
            old(self).wf(old(tbl)@),
        ensures
            old(self)@.len() == 0 ==> r is None && final(self)@ == old(self)@ && final(tbl)@ == old(tbl)@,
            old(self)@.len() > 0 ==> r == Some(old(self)@[0]) && final(self)@ == old(self)@.drop_first(),
            final(self).wf(final(tbl)@),
            final(tbl)@.len() == old(tbl)@.len(),
            forall|j: int| 0 <= j < old(tbl)@.len() ==> relinked(old(tbl)@[j], #[trigger] final(tbl)@[j]),
            forall|j: int| 0 <= j < old(tbl)@.len() && (old(self)@.len() == 0 || j != old(self)@[0]) ==> #[trigger] final(tbl)@[j] == old(tbl)@[j],
            old(self)@.len() > 0 ==> (final(tbl)@[old(self)@[0] as int] matches Some(p) && p.next is None),
    {
        let ghost q = self@;
        match self.ends {
            Some((h, t)) => {
                let hidx = h as usize;
                proof {
                    assert(q[0] == h);
                }
                match tbl[hidx] {
                    Some(mut entry) => {
                        match entry.next {
                            Some(next) => {
                                self.ends = Some((next, t));
                            },
                            None => {
                                self.ends = None;
                            },
                        }
                        entry.next = None;
                        tbl.set(hidx, Some(entry));
                        self.ids = Ghost(q.drop_first());
                        proof {
                            let n = q.drop_first();
                            assert forall|i: int| 0 <= i < n.len() implies (#[trigger] n[i] as int) < tbl@.len() && (tbl@[n[i] as int] matches Some(p) && p.id == n[i]) by {
                                assert(n[i] == q[i + 1]);
                            }
                            assert forall|i: int| 0 <= i < n.len() - 1 implies tbl@[#[trigger] n[i] as int]->Some_0.next == Some(n[i + 1]) by {
                                assert(n[i] == q[i + 1]);
                                assert(q[i + 1] != q[0]);
                            }
                            if n.len() > 0 {
                                assert(n.last() == q.last());
                                assert(q.last() != q[0]);
                            }
                        }
                        Some(entry.id)
                    },
                    None => None,
                }
            },
            None => None,
        }
    }
}

} // verus!

verus! {

// ----- the table of processes -----

/// The first free slot of the table.
pub fn find_free_slot(tbl: &Vec<Option<Process>>) -> (r: Option<u8>)
    requires
        tbl@.len() == PROCESS_MAX,
    ensures
        r matches Some(i) ==> tbl@[i as int] is None && forall|j: int| 0 <= j < i ==> tbl@[j] is Some,
        r is None ==> forall|j: int| 0 <= j < tbl@.len() ==> tbl@[j] is Some,
{
    let mut i: usize = 0;
    while i < tbl.len()
        invariant
            tbl@.len() == PROCESS_MAX,
            0 <= i <= tbl@.len(),
            forall|j: int| 0 <= j < i ==> tbl@[j] is Some,
        decreases tbl@.len() - i,
    {
        if tbl[i].is_none() {
            return Some(i as u8);
        }
        i += 1;
    }
    None
}

/// Puts a fresh ready process in slot `id` and counts one more process there.
pub fn init_process(tbl: &mut Vec<Option<Process>>, cnt: &mut Vec<u16>, id: u8)
    requires
        (id as int) < old(tbl)@.len(),
        (id as int) < old(cnt)@.len(),
    ensures
        final(tbl)@ == old(tbl)@.update(id as int, Some(Process { state: State::Ready, next: None, id: id })),
        final(cnt)@ == old(cnt)@.update(id as int, vstd::wrapping::u16_specs::wrapping_add(old(cnt)@[id as int], 1)),
{
    let p = Process::new(id);
    tbl.set(id as usize, Some(p));
    let c = cnt[id as usize].wrapping_add(1);
    cnt.set(id as usize, c);
}

/// Creates a process in the first free slot and queues it: its raw ID and process ID,
/// or `None` when the table is full.
pub fn spawn(tbl: &mut Vec<Option<Process>>, cnt: &mut Vec<u16>, readyq: &mut ProcessQ) -> (r: Option<(u8, u32)>)
    requires
        old(tbl)@.len() == PROCESS_MAX,
        old(cnt)@.len() == PROCESS_MAX,
        old(readyq).wf(old(tbl)@),
    ensures
        final(readyq).wf(final(tbl)@),
        final(tbl)@.len() == PROCESS_MAX,
        final(cnt)@.len() == PROCESS_MAX,
        r is None <==> forall|j: int| 0 <= j < old(tbl)@.len() ==> old(tbl)@[j] is Some,
        r is None ==> final(tbl)@ == old(tbl)@ && final(cnt)@ == old(cnt)@ && final(readyq)@ == old(readyq)@,
        r matches Some((id, pid)) ==> {
            &&& old(tbl)@[id as int] is None
            &&& forall|j: int| 0 <= j < id ==> old(tbl)@[j] is Some
            &&& final(cnt)@ == old(cnt)@.update(id as int, vstd::wrapping::u16_specs::wrapping_add(old(cnt)@[id as int], 1))
            &&& final(tbl)@[id as int] == Some(Process { state: State::Ready, next: None, id: id })
            &&& final(readyq)@ == old(readyq)@.push(id)
            &&& pid == pid_of(id, final(cnt)@[id as int])
        },
{
    let id = match find_free_slot(tbl) {
        Some(i) => i,
        None => {
            return None;
        },
    };
    let ghost t0 = tbl@;
    init_process(tbl, cnt, id);
    proof {
        assert(!readyq@.contains(id)) by {
            if readyq@.contains(id) {
                let j = choose|j: int| 0 <= j < readyq@.len() && readyq@[j] == id;
                assert(t0[readyq@[j] as int] is Some);
            }
        }
        assert(readyq.wf(tbl@)) by {
            let q = readyq@;
            assert forall|i: int| 0 <= i < q.len() implies (#[trigger] q[i] as int) < tbl@.len() && (tbl@[q[i] as int] matches Some(p) && p.id == q[i]) by {
                assert(q[i] != id);
            }
            assert forall|i: int| 0 <= i < q.len() - 1 implies tbl@[#[trigger] q[i] as int]->Some_0.next == Some(q[i + 1]) by {
                assert(q[i] != id);
            }
            if q.len() > 0 {
                assert(q.last() != id);
            }
        }
    }
    readyq.enque(id, tbl);
    let p = tbl[id as usize].unwrap();
    let pid = p.get_pid(cnt[id as usize]);
    Some((id, pid))
}

/// What the core does after a scheduling decision.
#[derive(Debug, Clone, Copy, PartialEq, Eq, Structural)]
pub enum Sched {
    /// Save the context of the first process, if any, and switch to the second.
    Switch(Option<u8>, u8),
    /// The running process was killed: it exits.
    Exit,
    /// Nothing to run on this core.
    Done,
    /// Keep running what runs.
    Return,
}

/// The running process of core `aff` is not queued and, if it has an entry, is unlinked.
pub open spec fn current_ok(tbl: Seq<Option<Process>>, q: Seq<u8>, actives: Seq<Option<u8>>, aff: int) -> bool {
    actives[aff] matches Some(c) ==> (c as int) < tbl.len() && !q.contains(c)
        && (tbl[c as int] matches Some(p) ==> p.next is None && p.id == c)
}

/// Chooses what core `aff` runs next: the first ready process, putting the running one,
/// if active, back to the queue.
pub fn schedule2(tbl: &mut Vec<Option<Process>>, readyq: &mut ProcessQ, actives: &mut Vec<Option<u8>>, aff: usize) -> (r: Sched)
    requires
        old(readyq).wf(old(tbl)@),
        aff < old(actives)@.len(),
        current_ok(old(tbl)@, old(readyq)@, old(actives)@, aff as int),
    ensures
        final(readyq).wf(final(tbl)@),
        current_ok(final(tbl)@, final(readyq)@, final(actives)@, aff as int),
        final(tbl)@.len() == old(tbl)@.len(),
        final(actives)@.len() == old(actives)@.len(),
        old(readyq)@.len() == 0 ==> final(readyq)@ == old(readyq)@ && final(tbl)@ == old(tbl)@ && final(actives)@ == old(actives)@
            && r == (if old(actives)@[aff as int] is None { Sched::Done } else { Sched::Return }),
        old(readyq)@.len() > 0 ==> {
            let next = old(readyq)@[0];
            match old(actives)@[aff as int] {
                None => {
                    &&& r == Sched::Switch(None, next)
                    &&& final(readyq)@ == old(readyq)@.drop_first()
                    &&& final(actives)@ == old(actives)@.update(aff as int, Some(next))
                    &&& final(tbl)@[next as int] == Some(Process { state: State::Active, next: None, id: next })
                },
                Some(c) => match old(tbl)@[c as int] {
                    None => r == Sched::Return && final(readyq)@ == old(readyq)@.drop_first() && final(actives)@ == old(actives)@,
                    Some(p) => if p.state == State::Killed {
                        r == Sched::Exit && final(readyq)@ == old(readyq)@.drop_first() && final(actives)@ == old(actives)@
                    } else {
                        &&& r == Sched::Switch(Some(c), next)
                        &&& final(actives)@ == old(actives)@.update(aff as int, Some(next))
                        &&& final(tbl)@[next as int] == Some(Process { state: State::Active, next: None, id: next })
                        &&& p.state == State::Active ==> final(readyq)@ == old(readyq)@.drop_first().push(c)
                            && final(tbl)@[c as int] == Some(Process { state: State::Ready, ..p })
                        &&& p.state != State::Active ==> final(readyq)@ == old(readyq)@.drop_first()
                    },
                },
            }
        },
{
    let ghost t0 = tbl@;
    let ghost q0 = readyq@;
    let next = match readyq.deque(tbl) {
        Some(n) => n,
        None => {
            return if actives[aff].is_none() { Sched::Done } else { Sched::Return };
        },
    };
    proof {
        assert(t0[next as int] matches Some(p) && p.id == next);
        assert(q0[0] == next);
    }
    match actives[aff] {
        Some(current) => {
            proof {
                assert(current != next);
            }
            match tbl[current as usize] {
                Some(mut entry) => {
                    if entry.state == State::Active {
                        entry.state = State::Ready;
                        tbl.set(current as usize, Some(entry));
                        proof {
                            let q = readyq@;
                            assert(!q.contains(current)) by {
                                if q.contains(current) {
                                    let j = choose|j: int| 0 <= j < q.len() && q[j] == current;
                                    assert(q0[j + 1] == current);
                                }
                            }
                            assert forall|i: int| 0 <= i < q.len() implies (#[trigger] q[i] as int) < tbl@.len() && (tbl@[q[i] as int] matches Some(p) && p.id == q[i]) by {
                                assert(q[i] == q0[i + 1]);
                            }
                        }
                        readyq.enque(current, tbl);
                    } else if entry.state == State::Killed {
                        return Sched::Exit;
                    }
                },
                None => {
                    return Sched::Return;
                },
            }
            actives.set(aff, Some(next));
            let mut e = tbl[next as usize].unwrap();
            e.state = State::Active;
            tbl.set(next as usize, Some(e));
            Sched::Switch(Some(current), next)
        },
        None => {
            actives.set(aff, Some(next));
            let mut e = tbl[next as usize].unwrap();
            e.state = State::Active;
            tbl.set(next as usize, Some(e));
            Sched::Switch(None, next)
        },
    }
}

} // verus!

verus! {

/// Marks the process running on core `aff` a zombie, records it as freed on that core,
/// and leaves the core without a process; returns that process.
pub fn exit(tbl: &mut Vec<Option<Process>>, actives: &mut Vec<Option<u8>>, freed: &mut Vec<Option<u8>>, aff: usize) -> (r: Option<u8>)
    requires
        aff < old(actives)@.len(),
        aff < old(freed)@.len(),
        old(actives)@[aff as int] matches Some(c) ==> (c as int) < old(tbl)@.len(),
    ensures
        r == old(actives)@[aff as int],
        final(actives)@ == old(actives)@.update(aff as int, None),
        final(tbl)@.len() == old(tbl)@.len(),
        match r {
            Some(c) => {
                &&& final(freed)@ == old(freed)@.update(aff as int, Some(c))
                &&& match old(tbl)@[c as int] {
                    Some(p) => final(tbl)@ == old(tbl)@.update(c as int, Some(Process { state: State::Zombie, ..p })),
                    None => final(tbl)@ == old(tbl)@,
                }
            },
            None => final(freed)@ == old(freed)@ && final(tbl)@ == old(tbl)@,
        },
{
    let current = actives[aff];
    if let Some(c) = current {
        if let Some(mut entry) = tbl[c as usize] {
            entry.state = State::Zombie;
            tbl.set(c as usize, Some(entry));
        }
        freed.set(aff, Some(c));
    }
    actives.set(aff, None);
    current
}

/// What killing a process comes to.
#[derive(Debug, Clone, Copy, PartialEq, Eq, Structural)]
pub enum KillAction {
    /// The process is the caller: it exits.
    Suicide,
    /// The process was taken out of the table (and of the ready queue).
    Removed(u8),
    /// The process runs on another core: it is marked killed.
    Marked(u8),
    /// No such process, or nothing to do for its state.
    Nothing,
}

/// Kills the process `pid`, as seen from core `aff`.
pub fn kill(pid: u32, tbl: &mut Vec<Option<Process>>, cnt: &Vec<u16>, readyq: &mut ProcessQ, actives: &Vec<Option<u8>>, aff: usize) -> (r: KillAction)
    requires
        old(tbl)@.len() == PROCESS_MAX,
        cnt@.len() == PROCESS_MAX,
        old(readyq).wf(old(tbl)@),
        aff < actives@.len(),
        actives@[aff as int] matches Some(c) ==> (c as int) < PROCESS_MAX,
        forall|i: int| 0 <= i < old(readyq)@.len() ==> (old(tbl)@[#[trigger] old(readyq)@[i] as int] matches Some(p) && p.state == State::Ready),
    ensures
        final(readyq).wf(final(tbl)@),
        final(tbl)@.len() == PROCESS_MAX,
        ({
            let id = (pid as int % 256) as u8;
            let own = actives@[aff as int] matches Some(c) && (old(tbl)@[c as int] matches Some(p) && pid == pid_of(p.id, cnt@[c as int]));
            let target = old(tbl)@[id as int] matches Some(p) && pid == pid_of(p.id, cnt@[id as int]);
            if own {
                r == KillAction::Suicide && final(tbl)@ == old(tbl)@ && final(readyq)@ == old(readyq)@
            } else if target && (old(tbl)@[id as int]->Some_0.state == State::Ready || old(tbl)@[id as int]->Some_0.state == State::Recv) {
                &&& r == KillAction::Removed(id)
                &&& final(tbl)@[id as int] is None
                &&& !final(readyq)@.contains(id)
                &&& forall|x: u8| x != id ==> (final(readyq)@.contains(x) <==> old(readyq)@.contains(x))
            } else if target && old(tbl)@[id as int]->Some_0.state == State::Active {
                &&& r == KillAction::Marked(id)
                &&& final(tbl)@ == old(tbl)@.update(id as int, Some(Process { state: State::Killed, ..old(tbl)@[id as int]->Some_0 }))
                &&& final(readyq)@ == old(readyq)@
            } else {
                r == KillAction::Nothing && final(tbl)@ == old(tbl)@ && final(readyq)@ == old(readyq)@
            }
        }),
{
    if let Some(current) = actives[aff] {
        if let Some(p) = tbl[current as usize] {
            if pid == p.get_pid(cnt[current as usize]) {
                return KillAction::Suicide;
            }
        }
    }
    let id = (pid & 0xff) as u8;
    assert((pid & 0xff) == pid % 256) by (bit_vector);
    match tbl[id as usize] {
        Some(mut p) => {
            if pid == p.get_pid(cnt[id as usize]) {
                if p.state == State::Ready {
                    let ghost q0 = readyq@;
                    readyq.remove(id, tbl);
                    tbl.set(id as usize, None);
                    proof {
                        lemma_drop_unqueued(q0, readyq@, id);
                    }
                    KillAction::Removed(id)
                } else if p.state == State::Recv {
                    proof {
                        assert(!readyq@.contains(id)) by {
                            if readyq@.contains(id) {
                                let j = choose|j: int| 0 <= j < readyq@.len() && readyq@[j] == id;
                                assert(tbl@[readyq@[j] as int]->Some_0.state == State::Ready);
                            }
                        }
                    }
                    tbl.set(id as usize, None);
                    proof {
                        let q = readyq@;
                        assert forall|i: int| 0 <= i < q.len() implies (#[trigger] q[i] as int) < tbl@.len() && (tbl@[q[i] as int] matches Some(p) && p.id == q[i]) by {
                            assert(q[i] != id);
                        }
                        assert forall|i: int| 0 <= i < q.len() - 1 implies tbl@[#[trigger] q[i] as int]->Some_0.next == Some(q[i + 1]) by {
                            assert(q[i] != id);
                        }
                        if q.len() > 0 {
                            assert(q.last() != id);
                        }
                    }
                    KillAction::Removed(id)
                } else if p.state == State::Active {
                    proof {
                        assert(!readyq@.contains(id)) by {
                            if readyq@.contains(id) {
                                let j = choose|j: int| 0 <= j < readyq@.len() && readyq@[j] == id;
                                assert(tbl@[readyq@[j] as int]->Some_0.state == State::Ready);
                            }
                        }
                    }
                    p.state = State::Killed;
                    tbl.set(id as usize, Some(p));
                    proof {
                        let q = readyq@;
                        assert forall|i: int| 0 <= i < q.len() implies (#[trigger] q[i] as int) < tbl@.len() && (tbl@[q[i] as int] matches Some(p) && p.id == q[i]) by {
                            assert(q[i] != id);
                        }
                        assert forall|i: int| 0 <= i < q.len() - 1 implies tbl@[#[trigger] q[i] as int]->Some_0.next == Some(q[i + 1]) by {
                            assert(q[i] != id);
                        }
                        if q.len() > 0 {
                            assert(q.last() != id);
                        }
                    }
                    KillAction::Marked(id)
                } else {
                    KillAction::Nothing
                }
            } else {
                KillAction::Nothing
            }
        },
        None => KillAction::Nothing,
    }
}

/// After `id` is taken out of a queue, the queue no longer holds it, and holds the
/// others it held.
proof fn lemma_drop_unqueued(q0: Seq<u8>, q1: Seq<u8>, id: u8)
    requires
        q0.no_duplicates(),
        q0.contains(id) ==> exists|k: int| 0 <= k < q0.len() && q0[k] == id && q1 == q0.remove(k),
        !q0.contains(id) ==> q1 == q0,
    ensures
        !q1.contains(id),
        forall|x: u8| x != id ==> (q1.contains(x) <==> q0.contains(x)),
{
    if q0.contains(id) {
        let k = choose|k: int| 0 <= k < q0.len() && q0[k] == id && q1 == q0.remove(k);
        assert(!q1.contains(id)) by {
            if q1.contains(id) {
                let j = choose|j: int| 0 <= j < q1.len() && q1[j] == id;
                if j < k {
                    assert(q0[j] == id);
                } else {
                    assert(q0[j + 1] == id);
                }
            }
        }
        assert forall|x: u8| x != id implies (q1.contains(x) <==> q0.contains(x)) by {
            if q0.contains(x) {
                let j = choose|j: int| 0 <= j < q0.len() && q0[j] == x;
                if j < k {
                    assert(q1[j] == x);
                } else {
                    assert(j != k);
                    assert(q1[j - 1] == x);
                }
            }
            if q1.contains(x) {
                let j = choose|j: int| 0 <= j < q1.len() && q1[j] == x;
                if j < k {
                    assert(q0[j] == x);
                } else {
                    assert(q0[j + 1] == x);
                }
            }
        }
    }
}

/// The slot a message to `dst` goes to: a process whose count matches the address and
/// that is not a zombie.
pub fn send_target(dst: &Locator, tbl: &Vec<Option<Process>>, cnt: &Vec<u16>) -> (r: Option<u8>)
    requires
        tbl@.len() == PROCESS_MAX,
        cnt@.len() == PROCESS_MAX,
    ensures
        match *dst {
            Locator::Process(addr) => {
                let id = (addr as int % 256) as u8;
                if tbl@[id as int] matches Some(p) && cnt@[id as int] as int == (addr as int / 256) % 0x10000 && p.state != State::Zombie {
                    r == Some(id)
                } else {
                    r is None
                }
            },
            _ => r is None,
        },
{
    let addr = match dst {
        Locator::Process(a) => *a,
        _ => {
            return None;
        },
    };
    assert((addr & 0xff) == addr % 256) by (bit_vector);
    assert(((addr >> 8) as u16) as u32 == (addr / 256) % 0x10000) by (bit_vector);
    let id = (addr & 0xff) as u8;
    let count = (addr >> 8) as u16;
    match tbl[id as usize] {
        Some(p) => {
            if cnt[id as usize] != count || p.state == State::Zombie {
                None
            } else {
                Some(id)
            }
        },
        None => None,
    }
}

/// The raw ID of the process running on core `aff`.
pub fn get_raw_id(actives: &Vec<Option<u8>>, aff: usize) -> (r: Option<u8>)
    requires
        aff < actives@.len(),
    ensures
        r == actives@[aff as int],
{
    actives[aff]
}

/// The process ID of the process running on core `aff` (0 when its slot is empty).
pub fn get_pid(tbl: &Vec<Option<Process>>, cnt: &Vec<u16>, actives: &Vec<Option<u8>>, aff: usize) -> (r: u32)
    requires
        aff < actives@.len(),
        actives@[aff as int] is Some,
        tbl@.len() == PROCESS_MAX,
        cnt@.len() == PROCESS_MAX,
    ensures
        match tbl@[actives@[aff as int]->Some_0 as int] {
            Some(p) => r == pid_of(p.id, cnt@[actives@[aff as int]->Some_0 as int]),
            None => r == 0,
        },
{
    let id = actives[aff].unwrap();
    match &tbl[id as usize] {
        Some(p) => p.get_pid(cnt[id as usize]),
        None => 0,
    }
}

// ----- the thread ID register of user space -----

/// The thread ID register holds this in kernel space.
pub const TPID_KERNEL_FLAG: u64 = 0x8000_0000_0000_0000;

/// The thread ID register of a user process: raw ID in bits 0-7, count in bits 8-23,
/// CPU affinity in bits 24-31.
pub open spec fn tpid_of(id: u8, cnt: u16, aff: u64) -> u64 {
    ((aff & 0xff) << 24u64) | ((cnt as u64) << 8u64) | (id as u64)
}

/// The value of the thread ID register for process `id` with count `cnt` on core `aff`.
pub fn set_tpid_reg(id: u8, cnt: u16, aff: u64) -> (r: u64)
    ensures
        r == tpid_of(id, cnt, aff),
{
    let aff = aff & 0xff;
    let cnt = cnt as u64;
    (aff << 24) | (cnt << 8) | (id as u64)
}

/// The value of the thread ID register in kernel space.
pub fn set_tpid_kernel() -> (r: u64)
    ensures
        r == TPID_KERNEL_FLAG,
{
    TPID_KERNEL_FLAG
}

/// The raw ID in a thread ID register.
pub fn get_raw_id_user(tpid: u64) -> (r: u8)
    ensures
        r as u64 == tpid & 0xff,
{
    assert((tpid as u8) as u64 == tpid & 0xff) by (bit_vector);
    tpid as u8
}

/// The CPU affinity in a thread ID register.
pub fn get_affinity_user(tpid: u64) -> (r: u8)
    ensures
        r as u64 == (tpid >> 24u64) & 0xff,
{
    assert(((tpid >> 24u64) as u8) as u64 == (tpid >> 24u64) & 0xff) by (bit_vector);
    (tpid >> 24) as u8
}

/// Whether a thread ID register says kernel space.
pub fn is_kernel(tpid: u64) -> (r: bool)
    ensures
        r == (tpid & TPID_KERNEL_FLAG != 0),
{
    tpid & TPID_KERNEL_FLAG != 0
}

/// Law: the register of a user process gives back its raw ID and its core, and says
/// user space; the kernel's value says kernel space.
pub proof fn lemma_tpid_roundtrip(id: u8, cnt: u16, aff: u64)
    ensures
        tpid_of(id, cnt, aff) & 0xff == id as u64,
        (tpid_of(id, cnt, aff) >> 24u64) & 0xff == aff & 0xff,
        tpid_of(id, cnt, aff) & TPID_KERNEL_FLAG == 0,
        TPID_KERNEL_FLAG & TPID_KERNEL_FLAG != 0,
{
    let a = aff;
    let c = cnt as u64;
    let i = id as u64;
    assert(((((a & 0xff) << 24u64) | (c << 8u64) | i) & 0xff) == i) by (bit_vector)
        requires c < 0x10000, i < 0x100;
    assert((((((a & 0xff) << 24u64) | (c << 8u64) | i) >> 24u64) & 0xff) == a & 0xff) by (bit_vector)
        requires c < 0x10000, i < 0x100;
    assert(((((a & 0xff) << 24u64) | (c << 8u64) | i) & 0x8000_0000_0000_0000u64) == 0) by (bit_vector)
        requires c < 0x10000, i < 0x100;
    assert(0x8000_0000_0000_0000u64 & 0x8000_0000_0000_0000u64 != 0) by (bit_vector);
}

/// The thread ID register of user space, kept while the kernel runs and restored when
/// it is done.
pub struct EnterKernel {
    pub tpid: u64,
}

impl EnterKernel {
    /// Keeps `tpid`, the register's value on entry.
    pub fn new(tpid: u64) -> (r: Self)
        ensures
            r.tpid == tpid,
    {
        EnterKernel { tpid: tpid }
    }

    /// The value to put back on leaving the kernel.
    pub fn restore(&self) -> (r: u64)
        ensures
            r == self.tpid,
    {
        self.tpid
    }
}

} // verus!

verus! {

/// A message arrived for process `pid`: if it waits for one, it becomes ready and joins
/// the ready queue.
pub fn wake_receiver(pid: u8, tbl: &mut Vec<Option<Process>>, readyq: &mut ProcessQ)
    requires
        old(readyq).wf(old(tbl)@),
        (pid as int) < old(tbl)@.len(),
        (old(tbl)@[pid as int] matches Some(p) && p.state == State::Recv) ==> old(tbl)@[pid as int]->Some_0.next is None
            && old(tbl)@[pid as int]->Some_0.id == pid && !old(readyq)@.contains(pid),
    ensures
        final(readyq).wf(final(tbl)@),
        final(tbl)@.len() == old(tbl)@.len(),
        (old(tbl)@[pid as int] matches Some(p) && p.state == State::Recv) ==> final(readyq)@ == old(readyq)@.push(pid)
            && final(tbl)@[pid as int] == Some(Process { state: State::Ready, ..old(tbl)@[pid as int]->Some_0 }),
        !(old(tbl)@[pid as int] matches Some(p) && p.state == State::Recv) ==> final(readyq)@ == old(readyq)@ && final(tbl)@ == old(tbl)@,
{
    if let Some(mut entry) = tbl[pid as usize] {
        if entry.state == State::Recv {
            entry.state = State::Ready;
            tbl.set(pid as usize, Some(entry));
            proof {
                let q = readyq@;
                assert forall|i: int| 0 <= i < q.len() implies (#[trigger] q[i] as int) < tbl@.len() && (tbl@[q[i] as int] matches Some(p) && p.id == q[i]) by {
                    assert(q[i] != pid);
                }
                assert forall|i: int| 0 <= i < q.len() - 1 implies tbl@[#[trigger] q[i] as int]->Some_0.next == Some(q[i + 1]) by {
                    assert(q[i] != pid);
                }
                if q.len() > 0 {
                    assert(q.last() != pid);
                }
            }
            readyq.enque(pid, tbl);
        }
    }
}

/// No message is there for the process running on core `aff`: it waits for one and
/// leaves the core.
pub fn block_current(tbl: &mut Vec<Option<Process>>, actives: &mut Vec<Option<u8>>, aff: usize)
    requires
        aff < old(actives)@.len(),
        old(actives)@[aff as int] matches Some(c) && (c as int) < old(tbl)@.len() && old(tbl)@[c as int] is Some,
    ensures
        final(actives)@ == old(actives)@.update(aff as int, None),
        ({
            let c = old(actives)@[aff as int]->Some_0 as int;
            final(tbl)@ == old(tbl)@.update(c, Some(Process { state: State::Recv, ..old(tbl)@[c]->Some_0 }))
        }),
{
    let current = actives[aff].unwrap();
    let mut entry = tbl[current as usize].unwrap();
    entry.state = State::Recv;
    tbl.set(current as usize, Some(entry));
    actives.set(aff, None);
}

} // verus!
