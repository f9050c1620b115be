//! Comparisons of string slices by their characters.
use vstd::prelude::*;
use vstd::string::StrSliceExecFns;

verus! {

/// Whether `c` is an upper-case ASCII letter.
pub open spec fn is_upper(c: char) -> bool {
    'A' <= c && c <= 'Z'
}

/// Lexicographic order on character sequences, as `str` orders by code points.
pub open spec fn seq_lt(a: Seq<char>, b: Seq<char>) -> bool {
    exists|k: int|
        0 <= k <= a.len() && k <= b.len() && a.subrange(0, k) == b.subrange(0, k) && (
        (k == a.len() && k < b.len()) || (k < a.len() && k < b.len() && (a[k] as int) < (b[k] as int)))
}

/// Whether two strings hold the same characters.
pub fn str_eq(a: &str, b: &str) -> (r: bool)
    ensures
        r == (a@ == b@),
{
    let n = a.unicode_len();
    let m = b.unicode_len();
    if n != m {
        return false;
    }
    let mut i: usize = 0;
    while i < n
        invariant
            0 <= i <= n,
            n == a@.len(),
            m == b@.len(),
            n == m,
            a@.subrange(0, i as int) == b@.subrange(0, i as int),
        decreases n - i,
    {
        if a.get_char(i) != b.get_char(i) {
            return false;
        }
        assert(a@.subrange(0, i + 1) =~= a@.subrange(0, i as int).push(a@[i as int]));
        assert(b@.subrange(0, i + 1) =~= b@.subrange(0, i as int).push(b@[i as int]));
        i += 1;
    }
    assert(a@ =~= a@.subrange(0, n as int));
    assert(b@ =~= b@.subrange(0, n as int));
    true
}

/// Whether `a` comes before `b` in lexicographic order.
pub fn str_lt(a: &str, b: &str) -> (r: bool)
    ensures
        r == seq_lt(a@, b@),
{
    let n = a.unicode_len();
    let m = b.unicode_len();
    let mut i: usize = 0;
    while i < n && i < m
        invariant
            0 <= i <= n,
            i <= m,
            n == a@.len(),
            m == b@.len(),
            a@.subrange(0, i as int) == b@.subrange(0, i as int),
        decreases n - i,
    {
        let x = a.get_char(i);
        let y = b.get_char(i);
        if x != y {
            let r = (x as u32) < (y as u32);
            proof {
                if !r {
                    assert forall|k: int| 0 <= k <= a@.len() && k <= b@.len() && a@.subrange(0, k) == b@.subrange(0, k) implies !(
                        (k == a@.len() && k < b@.len()) || (k < a@.len() && k < b@.len() && (a@[k] as int) < (b@[k] as int))) by {
                        if k > i {
                            assert(a@.subrange(0, k)[i as int] == b@.subrange(0, k)[i as int]);
                        } else if k < i {
                            assert(a@.subrange(0, i as int)[k] == b@.subrange(0, i as int)[k]);
                        }
                    }
                } else {
                    assert(a@.subrange(0, i as int) == b@.subrange(0, i as int));
                }
            }
            return r;
        }
        assert(a@.subrange(0, i + 1) =~= a@.subrange(0, i as int).push(a@[i as int]));
        assert(b@.subrange(0, i + 1) =~= b@.subrange(0, i as int).push(b@[i as int]));
        i += 1;
    }
    let r = i == n && i < m;
    proof {
        if !r {
            assert forall|k: int| 0 <= k <= a@.len() && k <= b@.len() && a@.subrange(0, k) == b@.subrange(0, k) implies !(
                (k == a@.len() && k < b@.len()) || (k < a@.len() && k < b@.len() && (a@[k] as int) < (b@[k] as int))) by {
                if k < i {
                    assert(a@.subrange(0, i as int)[k] == b@.subrange(0, i as int)[k]);
                }
            }
        } else {
            assert(a@.subrange(0, i as int) == b@.subrange(0, i as int));
        }
    }
    r
}

/// The first character of `s`, if it has one.
pub fn first_char(s: &str) -> (r: Option<char>)
    ensures
        r == (if s@.len() > 0 { Some(s@[0]) } else { None::<char> }),
{
    if s.unicode_len() == 0 {
        None
    } else {
        Some(s.get_char(0))
    }
}

} // verus!

verus! {

/// Two sequences that agree up to `k` and differ are ordered one way or the other.
proof fn lemma_seq_lt_from(a: Seq<char>, b: Seq<char>, k: int)
    requires
        a != b,
        0 <= k <= a.len(),
        k <= b.len(),
        a.subrange(0, k) == b.subrange(0, k),
    ensures
        seq_lt(a, b) || seq_lt(b, a),
    decreases a.len() - k,
{
    if k == a.len() || k == b.len() {
        if a.len() < b.len() {
            assert(seq_lt(a, b));
        } else if b.len() < a.len() {
            assert(seq_lt(b, a));
        } else {
            assert(a =~= a.subrange(0, k));
            assert(b =~= b.subrange(0, k));
        }
    } else if a[k] != b[k] {
        if (a[k] as int) < (b[k] as int) {
            assert(seq_lt(a, b));
        } else {
            assert((b[k] as int) < (a[k] as int));
            assert(seq_lt(b, a));
        }
    } else {
        assert(a.subrange(0, k + 1) =~= a.subrange(0, k).push(a[k]));
        assert(b.subrange(0, k + 1) =~= b.subrange(0, k).push(b[k]));
        lemma_seq_lt_from(a, b, k + 1);
    }
}

/// Two different character sequences are ordered one way or the other.
pub proof fn lemma_seq_lt_total(a: Seq<char>, b: Seq<char>)
    requires
        a != b,
    ensures
        seq_lt(a, b) || seq_lt(b, a),
{
    assert(a.subrange(0, 0) =~= b.subrange(0, 0));
    lemma_seq_lt_from(a, b, 0);
}

} // verus!
