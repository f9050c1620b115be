//! Finite maps keyed by string slices, kept in key order.
use crate::strs::{lemma_seq_lt_total, seq_lt, str_eq, str_lt};
use vstd::prelude::*;

verus! {

/// A map from names to values whose entries stand in increasing key order.
#[derive(Debug)]
pub struct StrMap<'t, V> {
    entries: Vec<(&'t str, V)>,
}

/// In a well-formed map, the value of the key at position `q` is the value there.
pub proof fn lemma_value_at<'t, V>(m: &StrMap<'t, V>, q: int)
    requires
        m.wf(),
        0 <= q < m.keys().len(),
    ensures
        m.has(m.keys()[q]),
        m.value_of(m.keys()[q]) == m.values()[q],
{
    let k = m.keys()[q];
    assert(m.keys()[q] == k);
    let a = m.index_of(k);
    assert(a == q);
}

/// A map has finitely many keys.
pub proof fn lemma_key_set_finite<'t, V>(m: &StrMap<'t, V>)
    ensures
        m.key_set().finite(),
        m.key_set() == m.keys().to_set(),
{
    assert(m.key_set() =~= m.keys().to_set());
    vstd::seq_lib::seq_to_set_is_finite(m.keys());
}

/// Entries that come from `o` keep their values in `n`.
proof fn lemma_insert_keeps<'t, V>(o: &StrMap<'t, V>, n: &StrMap<'t, V>, k: Seq<char>, v: V)
    requires
        o.wf(),
        n.wf(),
        forall|q: Seq<char>| q != k ==> (n.has(q) <==> o.has(q)),
        forall|q: int| 0 <= q < n.keys().len() ==> ((#[trigger] n.keys()[q] == k && n.values()[q] == v)
            || exists|p: int| 0 <= p < o.keys().len() && o.keys()[p] == n.keys()[q] && o.values()[p] == n.values()[q]),
    ensures
        forall|q: Seq<char>| q != k && #[trigger] o.has(q) ==> n.value_of(q) == o.value_of(q),
{
    assert forall|q: Seq<char>| q != k && #[trigger] o.has(q) implies n.value_of(q) == o.value_of(q) by {
        assert(n.has(q));
        let a = n.index_of(q);
        assert(n.keys()[a] == q);
        let p = choose|p: int| 0 <= p < o.keys().len() && o.keys()[p] == n.keys()[a] && o.values()[p] == n.values()[a];
        lemma_value_at(o, p);
    }
}

impl<'t, V> StrMap<'t, V> {
    /// The keys, in the order in which iteration visits them.
    pub closed spec fn keys(&self) -> Seq<Seq<char>> {
        Seq::new(self.entries@.len(), |i: int| self.entries@[i].0@)
    }

    /// The values, in key order.
    pub closed spec fn values(&self) -> Seq<V> {
        Seq::new(self.entries@.len(), |i: int| self.entries@[i].1)
    }

    /// The key slices, in key order.
    pub closed spec fn key_strs(&self) -> Seq<&'t str> {
        Seq::new(self.entries@.len(), |i: int| self.entries@[i].0)
    }

    /// Keys are distinct and strictly increasing.
    pub open spec fn wf(&self) -> bool {
        &&& forall|i: int, j: int| 0 <= i < j < self.keys().len() ==> self.keys()[i] != self.keys()[j]
        &&& forall|i: int| 0 <= i < self.keys().len() - 1 ==> seq_lt(#[trigger] self.keys()[i], self.keys()[i + 1])
    }

    /// Whether `k` is a key.
    pub open spec fn has(&self, k: Seq<char>) -> bool {
        exists|i: int| 0 <= i < self.keys().len() && self.keys()[i] == k
    }

    /// The position of key `k`.
    pub open spec fn index_of(&self, k: Seq<char>) -> int {
        choose|i: int| 0 <= i < self.keys().len() && self.keys()[i] == k
    }

    /// The value of key `k`.
    pub open spec fn value_of(&self, k: Seq<char>) -> V {
        self.values()[self.index_of(k)]
    }

    /// The set of keys.
    pub open spec fn key_set(&self) -> Set<Seq<char>> {
        Set::new(|k: Seq<char>| self.has(k))
    }

    pub fn new() -> (r: Self)
        ensures
            r.wf(),
            r.keys().len() == 0,
    {
        StrMap { entries: Vec::new() }
    }

    pub fn len(&self) -> (r: usize)
        ensures
            r == self.keys().len(),
            r == self.values().len(),
            r == self.key_strs().len(),
    {
        self.entries.len()
    }

    /// The index of key `k`, if it is a key.
    pub fn find(&self, k: &str) -> (r: Option<usize>)
        ensures
            r matches Some(i) ==> i < self.keys().len() && self.keys()[i as int] == k@,
            r is None ==> !self.has(k@),
    {
        let mut i: usize = 0;
        while i < self.entries.len()
            invariant
                0 <= i <= self.entries@.len(),
                forall|j: int| 0 <= j < i ==> self.keys()[j] != k@,
            decreases self.entries@.len() - i,
        {
            if str_eq(self.entries[i].0, k) {
                return Some(i);
            }
            i += 1;
        }
        None
    }

    pub fn contains_key(&self, k: &str) -> (r: bool)
        ensures
            r == self.has(k@),
    {
        match self.find(k) {
            Some(_) => true,
            None => false,
        }
    }

    /// The value of key `k`, if it is a key.
    pub fn get(&self, k: &str) -> (r: Option<&V>)
        ensures
            r matches Some(v) ==> exists|i: int| 0 <= i < self.keys().len() && self.keys()[i] == k@ && self.values()[i] == *v,
            r matches Some(v) ==> self.has(k@),
            self.wf() ==> (r matches Some(v) ==> *v == self.value_of(k@)),
            r is None ==> !self.has(k@),
    {
        match self.find(k) {
            Some(i) => {
                proof {
                    if self.wf() {
                        let c = self.index_of(k@);
                        assert(self.keys()[i as int] == k@);
                        assert(c == i);
                    }
                }
                Some(&self.entries[i].1)
            },
            None => None,
        }
    }

    /// The key at position `i` of the key order.
    pub fn key_at(&self, i: usize) -> (r: &'t str)
        requires
            i < self.keys().len(),
        ensures
            r@ == self.keys()[i as int],
            r == self.key_strs()[i as int],
    {
        self.entries[i].0
    }

    /// The value at position `i` of the key order.
    pub fn value_at(&self, i: usize) -> (r: &V)
        requires
            i < self.keys().len(),
        ensures
            *r == self.values()[i as int],
    {
        &self.entries[i].1
    }

    /// Sets the value of `k` to `v`, adding `k` in key order if it is new.
    pub fn insert(&mut self, k: &'t str, v: V)
        requires
            old(self).wf(),
        ensures
            final(self).wf(),
            final(self).has(k@),
            forall|q: Seq<char>| q != k@ ==> (final(self).has(q) <==> old(self).has(q)),
            old(self).has(k@) ==> final(self).keys() == old(self).keys(),
            forall|q: int| 0 <= q < final(self).keys().len() ==> ((#[trigger] final(self).keys()[q] == k@ && final(self).values()[q] == v)
                || exists|p: int| 0 <= p < old(self).keys().len() && old(self).keys()[p] == final(self).keys()[q] && old(self).values()[p] == final(self).values()[q]),
            final(self).value_of(k@) == v,
            forall|q: Seq<char>| q != k@ && #[trigger] old(self).has(q) ==> final(self).value_of(q) == old(self).value_of(q),
    {
        let ghost ok = self.keys();
        let ghost ov = self.values();
        let ghost vv = v;
        assert(ok == old(self).keys() && ov == old(self).values());
        match self.find(k) {
            Some(i) => {
                self.entries.set(i, (k, v));
                assert(self.keys() =~= ok);
                assert forall|q: int| 0 <= q < self.keys().len() implies ((#[trigger] self.keys()[q] == k@ && self.values()[q] == vv)
                    || exists|p: int| 0 <= p < ok.len() && ok[p] == self.keys()[q] && ov[p] == self.values()[q]) by {
                    if q != i {
                        assert(ok[q] == self.keys()[q] && ov[q] == self.values()[q]);
                    }
                }
                proof { lemma_value_at(self, i as int); }
            },
            None => {
                let mut p: usize = 0;
                while p < self.entries.len() && str_lt(self.entries[p].0, k)
                    invariant
                        0 <= p <= self.entries@.len(),
                        ok == self.keys(),
                        forall|j: int| 0 <= j < p ==> seq_lt(#[trigger] ok[j], k@),
                    decreases self.entries@.len() - p,
                {
                    p += 1;
                }
                proof {
                    if p < ok.len() {
                        assert(ok[p as int] != k@);
                        lemma_seq_lt_total(ok[p as int], k@);
                    }
                }
                self.entries.insert(p, (k, v));
                assert(self.keys() =~= ok.insert(p as int, k@));
                assert(self.values() =~= ov.insert(p as int, vv));
                assert forall|q: int| 0 <= q < self.keys().len() implies ((#[trigger] self.keys()[q] == k@ && self.values()[q] == vv)
                    || exists|p2: int| 0 <= p2 < ok.len() && ok[p2] == self.keys()[q] && ov[p2] == self.values()[q]) by {
                    if q < p {
                        assert(ok[q] == self.keys()[q] && ov[q] == self.values()[q]);
                    } else if q > p {
                        assert(ok[q - 1] == self.keys()[q] && ov[q - 1] == self.values()[q]);
                    }
                }
                assert forall|q: Seq<char>| q != k@ implies (self.has(q) <==> old(self).has(q)) by {
                    if old(self).has(q) {
                        let j = choose|j: int| 0 <= j < ok.len() && ok[j] == q;
                        if j < p {
                            assert(self.keys()[j] == q);
                        } else {
                            assert(self.keys()[j + 1] == q);
                        }
                    }
                    if self.has(q) {
                        let j = choose|j: int| 0 <= j < self.keys().len() && self.keys()[j] == q;
                        if j < p {
                            assert(ok[j] == q);
                        } else {
                            assert(ok[j - 1] == q);
                        }
                    }
                }
                assert(self.keys()[p as int] == k@);
                proof { lemma_value_at(self, p as int); }
            },
        }
        proof { lemma_insert_keeps(old(self), self, k@, vv); }
    }
}

} // verus!
