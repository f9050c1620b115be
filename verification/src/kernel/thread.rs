//! Kernel threads: a fixed table, a ready queue threaded through the table, and the
//! choice of the next thread to run on a core.
use vstd::prelude::*;

verus! {

/// The number of entries of the thread table.
pub const THREAD_MAX: usize = 256;

#[derive(Debug, Clone, Copy, PartialEq, Eq, Structural)]
pub enum State {
    Ready,
    Active,
    Dead,
}

/// An entry of the thread table: its state, the next thread in the ready queue, and its ID.
#[derive(Debug, Clone, Copy, PartialEq, Eq, Structural)]
pub struct Thread {
    pub state: State,
    pub next: Option<u8>,
    pub id: u8,
}

impl Thread {
    pub fn new(id: u8) -> (r: Thread)
        ensures
            r.state == State::Dead,
            r.next is None,
            r.id == id,
    {
        Thread { state: State::Dead, next: None, id: id }
    }
}

/// `ids` are threads of `tbl`, each linked to the next, the last to none.
pub open spec fn linked(tbl: Seq<Thread>, ids: Seq<u8>) -> bool {
    &&& ids.no_duplicates()
    &&& forall|i: int| 0 <= i < ids.len() ==> (#[trigger] ids[i] as int) < tbl.len() && tbl[ids[i] as int].id == ids[i]
    &&& forall|i: int| 0 <= i < ids.len() - 1 ==> tbl[#[trigger] ids[i] as int].next == Some(ids[i + 1])
    &&& ids.len() > 0 ==> tbl[ids.last() as int].next is None
}

/// The ready queue: its first and last thread; the threads in between follow the links
/// of the table.
pub struct ThreadQ {
    pub ends: Option<(u8, u8)>,
    pub ids: Ghost<Seq<u8>>,
}

impl View for ThreadQ {
    type V = Seq<u8>;

    /// The ids in queue order. `ends` adds nothing to it: in a well-formed queue it is the
    /// first and the last of these ids, or `None` when there is none (see `wf`).
    open spec fn view(&self) -> Seq<u8> {
        self.ids@
    }
}

impl ThreadQ {
    /// The queue holds the threads of its model, in order, linked through `tbl`.
    pub open spec fn wf(&self, tbl: Seq<Thread>) -> bool {
        &&& linked(tbl, self@)
        &&& (self@.len() == 0 <==> self.ends is None)
        &&& self@.len() > 0 ==> self.ends == Some((self@[0], self@.last()))
    }

    pub fn new() -> (r: ThreadQ)
        ensures
            r@ == Seq::<u8>::empty(),
            forall|tbl: Seq<Thread>| r.wf(tbl),
    {
        ThreadQ { ends: None, ids: Ghost(Seq::empty()) }
    }

    /// Appends thread `id` to the queue.
    pub fn enqueue(&mut self, id: u8, tbl: &mut Vec<Thread>)
        requires
            old(self).wf(old(tbl)@),
            (id as int) < old(tbl)@.len(),
            old(tbl)@[id as int].next is None,
            old(tbl)@[id as int].id == id,
            !old(self)@.contains(id),
        ensures
            final(self)@ == old(self)@.push(id),
            final(self).wf(final(tbl)@),
            final(tbl)@.len() == old(tbl)@.len(),
            forall|j: int| 0 <= j < old(tbl)@.len() ==> (#[trigger] final(tbl)@[j]).state == old(tbl)@[j].state
                && final(tbl)@[j].id == old(tbl)@[j].id,
            forall|j: int| 0 <= j < old(tbl)@.len() && (old(self)@.len() == 0 || j != old(self)@.last()) ==> #[trigger] final(tbl)@[j] == old(tbl)@[j],
    {
        let ghost q = self@;
        match self.ends {
            Some((h, t)) => {
                let mut e = tbl[t as usize];
                e.next = Some(id);
                tbl.set(t as usize, e);
                self.ends = Some((h, id));
            },
            None => {
                self.ends = Some((id, id));
            },
        }
        self.ids = Ghost(q.push(id));
        proof {
            let n = q.push(id);
            assert forall|i: int| 0 <= i < n.len() - 1 implies tbl@[#[trigger] n[i] as int].next == Some(n[i + 1]) by {
                if i < q.len() - 1 {
                    assert(n[i] != q.last());
                }
            }
            assert(n.last() == id);
            assert forall|i: int| 0 <= i < n.len() implies (#[trigger] n[i] as int) < tbl@.len() && tbl@[n[i] as int].id == n[i] by {
                if i < q.len() {
                    assert(n[i] == q[i]);
                }
            }
        }
    }

    /// Takes the first thread off the queue.
    pub fn deque(&mut self, tbl: &mut Vec<Thread>) -> (r: Option<u8>)
        requires
            old(self).wf(old(tbl)@),
        ensures
            old(self)@.len() == 0 ==> r is None && final(self)@ == old(self)@ && final(tbl)@ == old(tbl)@,
            old(self)@.len() > 0 ==> r == Some(old(self)@[0]) && final(self)@ == old(self)@.drop_first(),
            final(self).wf(final(tbl)@),
            final(tbl)@.len() == old(tbl)@.len(),
            forall|j: int| 0 <= j < old(tbl)@.len() ==> (#[trigger] final(tbl)@[j]).state == old(tbl)@[j].state
                && final(tbl)@[j].id == old(tbl)@[j].id,
            forall|j: int| 0 <= j < old(tbl)@.len() && (old(self)@.len() == 0 || j != old(self)@[0]) ==> #[trigger] final(tbl)@[j] == old(tbl)@[j],
            old(self)@.len() > 0 ==> final(tbl)@[old(self)@[0] as int].next is None,
    {
        let ghost q = self@;
        match self.ends {
            Some((h, t)) => {
                let hidx = h as usize;
                proof {
                    assert(q[0] == h);
                }
                match tbl[hidx].next {
                    Some(next) => {
                        self.ends = Some((next, t));
                    },
                    None => {
                        self.ends = None;
                    },
                }
                let mut e = tbl[hidx];
                e.next = None;
                tbl.set(hidx, e);
                self.ids = Ghost(q.drop_first());
                proof {
                    let n = q.drop_first();
                    assert forall|i: int| 0 <= i < n.len() implies (#[trigger] n[i] as int) < tbl@.len() && tbl@[n[i] as int].id == n[i] by {
                        assert(n[i] == q[i + 1]);
                    }
                    assert forall|i: int| 0 <= i < n.len() - 1 implies tbl@[#[trigger] n[i] as int].next == Some(n[i + 1]) by {
                        assert(n[i] == q[i + 1]);
                        assert(q[i + 1] != q[0]);
                    }
                    if n.len() > 0 {
                        assert(n.last() == q.last());
                        assert(q.last() != q[0]);
                    }
                }
                Some(tbl[hidx].id)
            },
            None => None,
        }
    }
}

/// Puts the thread running on core `aff` back to the ready queue and makes the first
/// ready thread active there. Returns the thread to switch to, or `None` when no thread
/// is ready (the table, the queue and the core are then as they were).
pub fn schedule2(tbl: &mut Vec<Thread>, ready: &mut ThreadQ, actives: &mut Vec<Option<u8>>, aff: usize) -> (r: Option<u8>)
    requires
        old(ready).wf(old(tbl)@),
        aff < old(actives)@.len(),
        old(actives)@[aff as int] matches Some(c) ==> (c as int) < old(tbl)@.len() && old(tbl)@[c as int].next is None
            && old(tbl)@[c as int].id == c && !old(ready)@.contains(c),
    ensures
        final(ready).wf(final(tbl)@),
        final(tbl)@.len() == old(tbl)@.len(),
        final(actives)@.len() == old(actives)@.len(),
        old(ready)@.len() == 0 ==> r is None && final(ready)@ == old(ready)@ && final(tbl)@ == old(tbl)@ && final(actives)@ == old(actives)@,
        old(ready)@.len() > 0 ==> {
            let next = old(ready)@[0];
            &&& r == Some(next)
            &&& final(actives)@ == old(actives)@.update(aff as int, Some(next))
            &&& final(tbl)@[next as int].state == State::Active
            &&& final(tbl)@[next as int].next is None
            &&& match old(actives)@[aff as int] {
                Some(c) => final(ready)@ == old(ready)@.drop_first().push(c) && final(tbl)@[c as int].state == State::Ready,
                None => final(ready)@ == old(ready)@.drop_first(),
            }
        },
{
    let next = ready.deque(tbl);
    match next {
        Some(next) => {
            match actives[aff] {
                Some(current) => {
                    let mut e = tbl[current as usize];
                    e.state = State::Ready;
                    tbl.set(current as usize, e);
                    proof {
                        assert(ready.wf(tbl@)) by {
                            let q = ready@;
                            assert forall|i: int| 0 <= i < q.len() implies (#[trigger] q[i] as int) < tbl@.len() && tbl@[q[i] as int].id == q[i] by {}
                        }
                    }
                    ready.enqueue(current, tbl);
                },
                None => {},
            }
            actives.set(aff, Some(next));
            let mut e = tbl[next as usize];
            e.state = State::Active;
            tbl.set(next as usize, e);
            Some(next)
        },
        None => None,
    }
}

/// Marks the thread running on core `aff` dead and leaves the core without a thread.
pub fn exit(tbl: &mut Vec<Thread>, actives: &mut Vec<Option<u8>>, aff: usize)
    requires
        aff < old(actives)@.len(),
        old(actives)@[aff as int] matches Some(c) ==> (c as int) < old(tbl)@.len(),
    ensures
        final(actives)@ == old(actives)@.update(aff as int, None),
        final(tbl)@.len() == old(tbl)@.len(),
        match old(actives)@[aff as int] {
            Some(c) => final(tbl)@ == old(tbl)@.update(c as int, Thread { state: State::Dead, ..old(tbl)@[c as int] }),
            None => final(tbl)@ == old(tbl)@,
        },
{
    match actives[aff] {
        Some(current) => {
            let mut e = tbl[current as usize];
            e.state = State::Dead;
            tbl.set(current as usize, e);
        },
        None => {},
    }
    actives.set(aff, None);
}

} // verus!
