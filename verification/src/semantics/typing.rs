//! Checking data definitions and inferring the types of functions.
use super::ast::{
    string_from, texpr_type, wf_lang, DataType, DataTypeMem, Defun, ErrMsg, TypeExpr, TypingErr,
};
use super::conv::{expr2data, expr2defun, is_named, ok_data, ok_defun};
use super::strmap::StrMap;
use super::types::{views, SType, Type, ID};
use crate::parser::{ids_nonempty, Expr};
use crate::strs::str_eq;
use vstd::prelude::*;

verus! {

// ----- scopes of variables -----

/// Types of variables, in nested scopes; an inner scope shadows the outer ones.
#[derive(Debug)]
pub struct VarType {
    pub var_stack: Vec<Vec<(String, Vec<Type>)>>,
}

pub open spec fn frame_view(f: Vec<(String, Vec<Type>)>) -> Seq<(Seq<char>, Seq<SType>)> {
    Seq::new(f@.len(), |j: int| (f@[j].0@, views(f@[j].1@)))
}

/// The type of `k` in the innermost scope that binds it: the last type bound there.
pub open spec fn stack_get(st: Seq<Seq<(Seq<char>, Seq<SType>)>>, k: Seq<char>) -> Option<SType>
    decreases st.len(),
{
    if st.len() == 0 {
        None
    } else {
        let f = st.last();
        if exists|j: int| 0 <= j < f.len() && (#[trigger] f[j]).0 == k {
            let j = choose|j: int| 0 <= j < f.len() && (#[trigger] f[j]).0 == k;
            if f[j].1.len() > 0 {
                Some(f[j].1.last())
            } else {
                None
            }
        } else {
            stack_get(st.drop_last(), k)
        }
    }
}

impl View for VarType {
    type V = Seq<Seq<(Seq<char>, Seq<SType>)>>;

    open spec fn view(&self) -> Self::V {
        Seq::new(self.var_stack@.len(), |i: int| frame_view(self.var_stack@[i]))
    }
}

impl VarType {
    /// At least one scope, and no name twice in a scope.
    pub open spec fn wf(&self) -> bool {
        &&& self.var_stack@.len() > 0
        &&& forall|i: int, j: int, k: int|
            0 <= i < self.var_stack@.len() && 0 <= j < k < self.var_stack@[i]@.len() ==> (#[trigger] self.var_stack@[i]@[j]).0@
                != (#[trigger] self.var_stack@[i]@[k]).0@
    }

    pub fn new() -> (r: VarType)
        ensures
            r.wf(),
            r@ =~= seq![Seq::empty()],
    {
        let mut var_type = VarType { var_stack: Vec::new() };
        var_type.push();
        assert(var_type@[0] =~= Seq::empty());
        var_type
    }

    /// Opens a new innermost scope.
    pub fn push(&mut self)
        ensures
            final(self).var_stack@.len() == old(self).var_stack@.len() + 1,
            final(self).var_stack@.drop_last() == old(self).var_stack@,
            final(self).var_stack@.last()@.len() == 0,
            old(self).wf() ==> final(self).wf(),
    {
        self.var_stack.push(Vec::new());
    }

    /// Closes the innermost scope.
    pub fn pop(&mut self)
        ensures
            old(self).var_stack@.len() > 0 ==> final(self).var_stack@ == old(self).var_stack@.drop_last(),
            old(self).var_stack@.len() == 0 ==> final(self).var_stack@ == old(self).var_stack@,
    {
        self.var_stack.pop();
    }

    /// Binds `key` to `val` in the innermost scope.
    pub fn insert(&mut self, key: String, val: Type)
        requires
            old(self).wf(),
        ensures
            final(self).wf(),
            final(self).var_stack@.len() == old(self).var_stack@.len(),
            forall|i: int| 0 <= i < old(self).var_stack@.len() - 1 ==> final(self).var_stack@[i] == old(self).var_stack@[i],
            stack_get(final(self)@, key@) == Some(val@),
    {
        let mut frame = self.var_stack.pop().unwrap();
        let ghost old_frame = frame@;
        let ghost old_stack = self.var_stack@;
        let mut i: usize = 0;
        while i < frame.len() && !(frame[i].0 == key)
            invariant
                0 <= i <= frame@.len(),
                frame@ == old_frame,
                forall|j: int| 0 <= j < i ==> frame@[j].0@ != key@,
            decreases frame@.len() - i,
        {
            i += 1;
        }
        let found = i < frame.len();
        let ghost vval = val@;
        if found {
            let (k, mut list) = frame.remove(i);
            list.push(val);
            frame.insert(i, (k, list));
            assert(frame@[i as int].0@ == key@);
            assert(frame@[i as int].1@.last()@ == vval);
            assert forall|a: int| 0 <= a < frame@.len() && a != i implies frame@[a] == old_frame[a] by {}
        } else {
            let mut list: Vec<Type> = Vec::new();
            list.push(val);
            frame.push((key, list));
            assert(frame@[i as int].0@ == key@);
            assert(frame@[i as int].1@.last()@ == vval);
        }
        self.var_stack.push(frame);
        proof {
            let fv = frame_view(self.var_stack@.last());
            let n = self.var_stack@.len() - 1;
            assert(self.var_stack@[n] == frame);
            assert(self@.last() == fv);
            assert(fv[i as int].0 == key@);
            assert(fv[i as int].1.last() == vval);
            assert forall|a: int, b: int| 0 <= a < b < frame@.len() implies frame@[a].0@ != frame@[b].0@ by {
                if found {
                    assert(old_frame[a].0@ != old_frame[b].0@ || a == b);
                } else if b == i {
                } else {
                    assert(old_frame[a].0@ != old_frame[b].0@ || a == b);
                }
            }
            assert forall|a: int, b: int, c: int|
                0 <= a < self.var_stack@.len() && 0 <= b < c < self.var_stack@[a]@.len() implies (#[trigger] self.var_stack@[a]@[b]).0@
                    != (#[trigger] self.var_stack@[a]@[c]).0@ by {
                if a < n {
                    assert(self.var_stack@[a] == old(self).var_stack@[a]);
                }
            }
            let c = choose|c: int| 0 <= c < fv.len() && (#[trigger] fv[c]).0 == key@;
            assert(c == i);
        }
    }

    /// The type of `key` in the innermost scope that binds it.
    pub fn get(&self, key: &String) -> (r: Option<&Type>)
        requires
            self.wf(),
        ensures
            match r {
                Some(t) => stack_get(self@, key@) == Some(t@),
                None => stack_get(self@, key@) is None,
            },
    {
        let mut n = self.var_stack.len();
        assert(self@.take(n as int) =~= self@);
        while n > 0
            invariant
                0 <= n <= self.var_stack@.len(),
                self.wf(),
                stack_get(self@, key@) == stack_get(self@.take(n as int), key@),
            decreases n,
        {
            let m = &self.var_stack[n - 1];
            let mut j: usize = 0;
            while j < m.len()
                invariant
                    0 <= j <= m@.len(),
                    0 < n <= self.var_stack@.len(),
                    stack_get(self@, key@) == stack_get(self@.take(n as int), key@),
                    self.wf(),
                    m == self.var_stack@[n - 1],
                    forall|q: int| 0 <= q < j ==> m@[q].0@ != key@,
                decreases m@.len() - j,
            {
                if m[j].0 == *key {
                    let list = &m[j].1;
                    proof {
                        let st = self@.take(n as int);
                        let f = st.last();
                        assert(self@[n - 1] == frame_view(self.var_stack@[n - 1]));
                        assert(f == frame_view(*m));
                        assert(f[j as int].0 == key@);
                        let c = choose|c: int| 0 <= c < f.len() && (#[trigger] f[c]).0 == key@;
                        assert(m@[c].0@ == m@[j as int].0@);
                        assert(c == j);
                    }
                    if list.len() == 0 {
                        return None;
                    }
                    return Some(&list[list.len() - 1]);
                }
                j += 1;
            }
            proof {
                let st = self@.take(n as int);
                assert(self@[n - 1] == frame_view(self.var_stack@[n - 1]));
                assert(st.drop_last() =~= self@.take(n - 1));
                assert(!exists|q: int| 0 <= q < st.last().len() && (#[trigger] st.last()[q]).0 == key@);
            }
            n -= 1;
        }
        None
    }
}

// ----- the context: functions and data types of a program -----

#[derive(Debug)]
pub struct Context<'t> {
    pub funs: StrMap<'t, Defun<'t>>,
    pub data: StrMap<'t, DataType<'t>>,
    pub label2data: StrMap<'t, &'t str>,
    pub curr_id: ID,
}

impl<'t> Context<'t> {
    /// The maps are well formed, each entry is stored under its own name, and every
    /// `match` of every function has a case.
    pub open spec fn wf(&self) -> bool {
        &&& self.funs.wf()
        &&& self.data.wf()
        &&& self.label2data.wf()
        &&& forall|i: int| 0 <= i < self.funs.keys().len() ==> (#[trigger] self.funs.values()[i]).id.id@ == self.funs.keys()[i]
        &&& forall|i: int| 0 <= i < self.funs.keys().len() ==> wf_lang((#[trigger] self.funs.values()[i]).expr)
        &&& forall|i: int| 0 <= i < self.data.keys().len() ==> (#[trigger] self.data.values()[i]).name.id.id@ == self.data.keys()[i]
    }

    pub fn new(funs: StrMap<'t, Defun<'t>>, data: StrMap<'t, DataType<'t>>) -> (r: Context<'t>)
        ensures
            r.funs == funs,
            r.data == data,
            r.label2data.wf(),
            r.label2data.keys().len() == 0,
            r.curr_id == 0,
    {
        Context { funs: funs, data: data, label2data: StrMap::new(), curr_id: 0 }
    }
}

// ----- reading a whole program -----

/// A top-level form headed by `name`.
pub open spec fn head_is(e: Expr, name: Seq<char>) -> bool {
    match e {
        Expr::Apply(es) => es@.len() > 0 && is_named(es@[0], name),
        _ => false,
    }
}

pub open spec fn is_defun_form(e: Expr) -> bool {
    head_is(e, "defun"@) || head_is(e, "export"@)
}

pub open spec fn is_data_form(e: Expr) -> bool {
    head_is(e, "data"@)
}

/// A well-formed function definition or data definition.
pub open spec fn top_ok(e: Expr) -> bool {
    (is_defun_form(e) && ok_defun(e)) || (is_data_form(e) && ok_data(e))
}

/// The name that a function definition defines.
pub open spec fn fun_name(e: Expr) -> Seq<char> {
    e->Apply_0@[1]->ID_0@
}

/// The name that a data definition defines.
pub open spec fn data_name(e: Expr) -> Seq<char> {
    match e->Apply_0@[1] {
        Expr::Apply(xs) => xs@[0]->ID_0@,
        x => x->ID_0@,
    }
}

/// Every top-level form is well formed, and no function and no data type is defined twice.
pub open spec fn program_ok(es: Seq<Expr>) -> bool {
    &&& forall|i: int| 0 <= i < es.len() ==> top_ok(#[trigger] es[i])
    &&& forall|i: int, j: int|
        0 <= i < j < es.len() && is_defun_form(#[trigger] es[i]) && is_defun_form(#[trigger] es[j]) ==> fun_name(es[i]) != fun_name(es[j])
    &&& forall|i: int, j: int|
        0 <= i < j < es.len() && is_data_form(#[trigger] es[i]) && is_data_form(#[trigger] es[j]) ==> data_name(es[i]) != data_name(es[j])
}

pub fn exprs2context<'t>(exprs: &'t Vec<Expr>) -> (r: Result<Context<'t>, TypingErr<'t>>)
    requires
        forall|i: int| 0 <= i < exprs@.len() ==> ids_nonempty(#[trigger] exprs@[i]),
    ensures
        r is Ok <==> program_ok(exprs@),
        r matches Ok(ctx) ==> {
            &&& ctx.wf()
            &&& ctx.label2data.keys().len() == 0
            &&& ctx.curr_id == 0
            &&& forall|k: Seq<char>| ctx.funs.has(k) <==> exists|i: int| 0 <= i < exprs@.len() && is_defun_form(#[trigger] exprs@[i]) && fun_name(exprs@[i]) == k
            &&& forall|k: Seq<char>| ctx.data.has(k) <==> exists|i: int| 0 <= i < exprs@.len() && is_data_form(#[trigger] exprs@[i]) && data_name(exprs@[i]) == k
        },
{
    let mut funs: StrMap<'t, Defun<'t>> = StrMap::new();
    let mut data: StrMap<'t, DataType<'t>> = StrMap::new();
    let msg = "error: top expression must be data, defun, or export";
    let mut i: usize = 0;
    while i < exprs.len()
        invariant
            0 <= i <= exprs@.len(),
            forall|j: int| 0 <= j < exprs@.len() ==> ids_nonempty(#[trigger] exprs@[j]),
            program_ok(exprs@.take(i as int)),
            funs.wf(),
            data.wf(),
            forall|q: int| 0 <= q < funs.keys().len() ==> (#[trigger] funs.values()[q]).id.id@ == funs.keys()[q],
            forall|q: int| 0 <= q < funs.keys().len() ==> wf_lang((#[trigger] funs.values()[q]).expr),
            forall|q: int| 0 <= q < data.keys().len() ==> (#[trigger] data.values()[q]).name.id.id@ == data.keys()[q],
            forall|k: Seq<char>| funs.has(k) <==> exists|j: int| 0 <= j < i && is_defun_form(#[trigger] exprs@[j]) && fun_name(exprs@[j]) == k,
            forall|k: Seq<char>| data.has(k) <==> exists|j: int| 0 <= j < i && is_data_form(#[trigger] exprs@[j]) && data_name(exprs@[j]) == k,
        decreases exprs@.len() - i,
    {
        proof {
            reveal_strlit("defun");
            reveal_strlit("export");
            reveal_strlit("data");
            assert("defun"@.len() == 5);
            assert("data"@.len() == 4);
            assert("export"@.len() == 6);
            assert("defun"@ != "data"@);
            assert("export"@ != "data"@);
        }
        let e = &exprs[i];
        let ghost pre = exprs@.take(i as int);
        assert(exprs@.take(i + 1) =~= pre.push(*e));
        match e {
            Expr::Apply(es) => {
                if es.len() == 0 {
                    assert(!top_ok(exprs@[i as int]));
                    return Err(TypingErr::new(msg, e));
                }
                match &es[0] {
                    Expr::ID(id) => {
                        if str_eq(id.as_str(), "defun") || str_eq(id.as_str(), "export") {
                            let f = match expr2defun(e) {
                                Ok(f) => f,
                                Err(err) => {
                                    assert(es@[0] == Expr::ID(*id));
                                    assert(head_is(exprs@[i as int], "defun"@) || head_is(exprs@[i as int], "export"@));
                                    assert(!head_is(exprs@[i as int], "data"@));
                                    assert(!ok_defun(exprs@[i as int]));
                                    assert(!top_ok(exprs@[i as int]));
                                    return Err(err);
                                },
                            };
                            if funs.contains_key(f.id.id) {
                                proof {
                                    let j = choose|j: int| 0 <= j < i && is_defun_form(#[trigger] exprs@[j]) && fun_name(exprs@[j]) == f.id.id@;
                                    assert(exprs@.take(i + 1)[j] == exprs@[j]);
                                }
                                return Err(TypingErr { msg: ErrMsg::FunMultiplyDefined(super::ast::string_from(f.id.id)), ast: e });
                            }
                            let ghost old_funs = funs;
                            let name = f.id.id;
                            funs.insert(name, f);
                            proof {
                                assert forall|k: Seq<char>| funs.has(k) <==> exists|j: int| 0 <= j < i + 1 && is_defun_form(#[trigger] exprs@[j]) && fun_name(exprs@[j]) == k by {
                                    if k != name@ && funs.has(k) {
                                        assert(old_funs.has(k));
                                    }
                                    if exists|j: int| 0 <= j < i + 1 && is_defun_form(#[trigger] exprs@[j]) && fun_name(exprs@[j]) == k {
                                        let j = choose|j: int| 0 <= j < i + 1 && is_defun_form(#[trigger] exprs@[j]) && fun_name(exprs@[j]) == k;
                                        if j < i {
                                            assert(old_funs.has(k));
                                        }
                                    }
                                }
                                assert forall|k: Seq<char>| data.has(k) <==> exists|j: int| 0 <= j < i + 1 && is_data_form(#[trigger] exprs@[j]) && data_name(exprs@[j]) == k by {
                                    if exists|j: int| 0 <= j < i + 1 && is_data_form(#[trigger] exprs@[j]) && data_name(exprs@[j]) == k {
                                        let j = choose|j: int| 0 <= j < i + 1 && is_data_form(#[trigger] exprs@[j]) && data_name(exprs@[j]) == k;
                                        assert(j != i);
                                    }
                                }
                                assert forall|q: int| 0 <= q < funs.keys().len() implies (#[trigger] funs.values()[q]).id.id@ == funs.keys()[q]
                                    && wf_lang(funs.values()[q].expr) by {
                                    if !(funs.keys()[q] == name@ && funs.values()[q] == f) {
                                        let p = choose|p: int| 0 <= p < old_funs.keys().len() && old_funs.keys()[p] == funs.keys()[q] && old_funs.values()[p] == funs.values()[q];
                                        assert(old_funs.values()[p].id.id@ == old_funs.keys()[p]);
                                    }
                                }
                                let ep = exprs@.take(i + 1);
                                assert forall|a: int, b: int|
                                    0 <= a < b < ep.len() && is_defun_form(#[trigger] ep[a]) && is_defun_form(#[trigger] ep[b]) implies fun_name(ep[a]) != fun_name(ep[b]) by {
                                    if b == i {
                                        assert(ep[a] == exprs@[a]);
                                        if fun_name(ep[a]) == fun_name(ep[b]) {
                                            assert(old_funs.has(name@));
                                        }
                                    } else {
                                        assert(pre[a] == ep[a] && pre[b] == ep[b]);
                                    }
                                }
                                assert forall|a: int, b: int|
                                    0 <= a < b < ep.len() && is_data_form(#[trigger] ep[a]) && is_data_form(#[trigger] ep[b]) implies data_name(ep[a]) != data_name(ep[b]) by {
                                    assert(b != i);
                                    assert(pre[a] == ep[a] && pre[b] == ep[b]);
                                }
                                assert forall|a: int| 0 <= a < ep.len() implies top_ok(#[trigger] ep[a]) by {
                                    if a < i {
                                        assert(pre[a] == ep[a]);
                                    }
                                }
                            }
                        } else if str_eq(id.as_str(), "data") {
                            let d = match expr2data(e) {
                                Ok(d) => d,
                                Err(err) => {
                                    assert(!top_ok(exprs@[i as int]));
                                    return Err(err);
                                },
                            };
                            if data.contains_key(d.name.id.id) {
                                proof {
                                    let j = choose|j: int| 0 <= j < i && is_data_form(#[trigger] exprs@[j]) && data_name(exprs@[j]) == d.name.id.id@;
                                    assert(exprs@.take(i + 1)[j] == exprs@[j]);
                                }
                                return Err(TypingErr { msg: ErrMsg::DataMultiplyDefined(super::ast::string_from(d.name.id.id)), ast: e });
                            }
                            let ghost old_data = data;
                            let name = d.name.id.id;
                            data.insert(name, d);
                            proof {
                                assert forall|k: Seq<char>| data.has(k) <==> exists|j: int| 0 <= j < i + 1 && is_data_form(#[trigger] exprs@[j]) && data_name(exprs@[j]) == k by {
                                    if k != name@ && data.has(k) {
                                        assert(old_data.has(k));
                                    }
                                    if exists|j: int| 0 <= j < i + 1 && is_data_form(#[trigger] exprs@[j]) && data_name(exprs@[j]) == k {
                                        let j = choose|j: int| 0 <= j < i + 1 && is_data_form(#[trigger] exprs@[j]) && data_name(exprs@[j]) == k;
                                        if j < i {
                                            assert(old_data.has(k));
                                        }
                                    }
                                }
                                assert forall|k: Seq<char>| funs.has(k) <==> exists|j: int| 0 <= j < i + 1 && is_defun_form(#[trigger] exprs@[j]) && fun_name(exprs@[j]) == k by {
                                    if exists|j: int| 0 <= j < i + 1 && is_defun_form(#[trigger] exprs@[j]) && fun_name(exprs@[j]) == k {
                                        let j = choose|j: int| 0 <= j < i + 1 && is_defun_form(#[trigger] exprs@[j]) && fun_name(exprs@[j]) == k;
                                        assert(j != i);
                                    }
                                }
                                assert forall|q: int| 0 <= q < data.keys().len() implies (#[trigger] data.values()[q]).name.id.id@ == data.keys()[q] by {
                                    if !(data.keys()[q] == name@ && data.values()[q] == d) {
                                        let p = choose|p: int| 0 <= p < old_data.keys().len() && old_data.keys()[p] == data.keys()[q] && old_data.values()[p] == data.values()[q];
                                        assert(old_data.values()[p].name.id.id@ == old_data.keys()[p]);
                                    }
                                }
                                let ep = exprs@.take(i + 1);
                                assert forall|a: int, b: int|
                                    0 <= a < b < ep.len() && is_data_form(#[trigger] ep[a]) && is_data_form(#[trigger] ep[b]) implies data_name(ep[a]) != data_name(ep[b]) by {
                                    if b == i {
                                        assert(ep[a] == exprs@[a]);
                                        if data_name(ep[a]) == data_name(ep[b]) {
                                            assert(old_data.has(name@));
                                        }
                                    } else {
                                        assert(pre[a] == ep[a] && pre[b] == ep[b]);
                                    }
                                }
                                assert forall|a: int, b: int|
                                    0 <= a < b < ep.len() && is_defun_form(#[trigger] ep[a]) && is_defun_form(#[trigger] ep[b]) implies fun_name(ep[a]) != fun_name(ep[b]) by {
                                    assert(b != i);
                                    assert(pre[a] == ep[a] && pre[b] == ep[b]);
                                }
                                assert forall|a: int| 0 <= a < ep.len() implies top_ok(#[trigger] ep[a]) by {
                                    if a < i {
                                        assert(pre[a] == ep[a]);
                                    }
                                }
                            }
                        } else {
                            assert(!top_ok(exprs@[i as int]));
                            return Err(TypingErr::new(msg, e));
                        }
                    },
                    _ => {
                        assert(!top_ok(exprs@[i as int]));
                        return Err(TypingErr::new(msg, e));
                    },
                }
            },
            _ => {
                assert(!top_ok(exprs@[i as int]));
                return Err(TypingErr::new(msg, e));
            },
        }
        i += 1;
    }
    assert(exprs@.take(i as int) =~= exprs@);
    Ok(Context::new(funs, data))
}


// ----- labels of data types -----

/// The labels of the members of `d`, in order.
pub open spec fn member_labels(d: DataType) -> Seq<Seq<char>> {
    Seq::new(d.members@.len(), |i: int| d.members@[i].id.id@)
}

/// The labels of the first `n` data types, in order.
pub open spec fn labels_upto(ds: Seq<DataType>, n: nat) -> Seq<Seq<char>>
    decreases n,
{
    if n == 0 || n > ds.len() {
        Seq::empty()
    } else {
        labels_upto(ds, (n - 1) as nat) + member_labels(ds[n - 1])
    }
}

/// The label of the member `mem` of `d` is recorded with the name of `d`.
pub open spec fn label_maps_to<'t>(l2d: StrMap<'t, &'t str>, mem: DataTypeMem<'t>, d: DataType<'t>) -> bool {
    l2d.has(mem.id.id@) && l2d.value_of(mem.id.id@)@ == d.name.id.id@
}

/// The labels of all data types, in the order in which they are checked.
pub open spec fn all_labels<'t>(ctx: Context<'t>) -> Seq<Seq<char>> {
    labels_upto(ctx.data.values(), ctx.data.values().len())
}

proof fn lemma_labels_prefix(ds: Seq<DataType>, n: nat, m: nat)
    requires
        n <= m <= ds.len(),
    ensures
        labels_upto(ds, n).len() <= labels_upto(ds, m).len(),
        labels_upto(ds, m).take(labels_upto(ds, n).len() as int) == labels_upto(ds, n),
    decreases m,
{
    if n < m {
        lemma_labels_prefix(ds, n, (m - 1) as nat);
        let a = labels_upto(ds, (m - 1) as nat);
        let b = labels_upto(ds, m);
        assert(b == a + member_labels(ds[m - 1]));
        assert(b.take(labels_upto(ds, n).len() as int) =~= a.take(labels_upto(ds, n).len() as int));
    } else {
        assert(labels_upto(ds, m).take(labels_upto(ds, n).len() as int) =~= labels_upto(ds, n));
    }
}

impl<'t> Context<'t> {
    /// Records the data type of every label, refusing a label that two members share.
    pub fn check_label(&mut self) -> (r: Result<(), TypingErr<'t>>)
        requires
            old(self).label2data.wf(),
        ensures
            r is Ok <==> (all_labels(*old(self)).no_duplicates() && forall|l: Seq<char>|
                all_labels(*old(self)).contains(l) ==> !old(self).label2data.has(l)),
            final(self).label2data.wf(),
            final(self).funs == old(self).funs,
            final(self).data == old(self).data,
            final(self).curr_id == old(self).curr_id,
            r is Ok ==> forall|l: Seq<char>|
                final(self).label2data.has(l) <==> (old(self).label2data.has(l) || all_labels(*old(self)).contains(l)),
            r is Ok ==> forall|a: int, m: int| 0 <= a < old(self).data.values().len() && 0 <= m < old(self).data.values()[a].members@.len()
                ==> label_maps_to(final(self).label2data, #[trigger] old(self).data.values()[a].members@[m], old(self).data.values()[a]),
    {
        let ghost ds = self.data.values();
        let ghost all = all_labels(*self);
        let ghost old_l2d = self.label2data;
        let mut i: usize = 0;
        while i < self.data.len()
            invariant
                0 <= i <= ds.len(),
                ds == self.data.values(),
                all == labels_upto(ds, ds.len()),
                self.data == old(self).data,
                self.funs == old(self).funs,
                self.curr_id == old(self).curr_id,
                self.label2data.wf(),
                old_l2d == old(self).label2data,
                labels_upto(ds, i as nat).no_duplicates(),
                forall|l: Seq<char>| labels_upto(ds, i as nat).contains(l) ==> !old_l2d.has(l),
                forall|l: Seq<char>| #[trigger] self.label2data.has(l) <==> (old_l2d.has(l) || labels_upto(ds, i as nat).contains(l)),
                forall|a: int, m: int| 0 <= a < i && 0 <= m < ds[a].members@.len()
                    ==> label_maps_to(self.label2data, #[trigger] ds[a].members@[m], ds[a]),
            decreases ds.len() - i,
        {
            let dt = self.data.value_at(i);
            let ghost base = labels_upto(ds, i as nat);
            let ghost ml = member_labels(*dt);
            let mut j: usize = 0;
            while j < dt.members.len()
                invariant
                    0 <= i < ds.len(),
                    0 <= j <= dt.members@.len(),
                    ds == self.data.values(),
                    *dt == ds[i as int],
                    all == labels_upto(ds, ds.len()),
                    base == labels_upto(ds, i as nat),
                    ml == member_labels(*dt),
                    self.data == old(self).data,
                    self.funs == old(self).funs,
                    self.curr_id == old(self).curr_id,
                    self.label2data.wf(),
                    old_l2d == old(self).label2data,
                    (base + ml.take(j as int)).no_duplicates(),
                    forall|l: Seq<char>| #[trigger] (base + ml.take(j as int)).contains(l) ==> !old_l2d.has(l),
                    forall|l: Seq<char>| #[trigger] self.label2data.has(l) <==> (old_l2d.has(l) || (base + ml.take(j as int)).contains(l)),
                    forall|a: int, m: int| 0 <= a < i && 0 <= m < ds[a].members@.len()
                        ==> label_maps_to(self.label2data, #[trigger] ds[a].members@[m], ds[a]),
                    forall|m: int| 0 <= m < j ==> label_maps_to(self.label2data, #[trigger] dt.members@[m], *dt),
                decreases dt.members@.len() - j,
            {
                let mem = &dt.members[j];
                let ghost seen = base + ml.take(j as int);
                let ghost next = base + ml.take(j + 1);
                assert(next =~= seen.push(ml[j as int]));
                proof {
                    lemma_labels_prefix(ds, (i + 1) as nat, ds.len());
                    assert(labels_upto(ds, (i + 1) as nat) == base + ml);
                    assert((base + ml).take(next.len() as int) =~= next);
                    assert(all.take(next.len() as int) =~= next);
                }
                if self.label2data.contains_key(mem.id.id) {
                    proof {
                        let l = ml[j as int];
                        assert(next[seen.len() as int] == l);
                        if old_l2d.has(l) {
                            assert(all[seen.len() as int] == l);
                            assert(all.contains(l));
                        } else {
                            let k = choose|k: int| 0 <= k < seen.len() && seen[k] == l;
                            assert(next[k] == seen[k]);
                            assert(all[k] == next[k]);
                            assert(all[seen.len() as int] == next[seen.len() as int]);
                            assert(all[k] == all[seen.len() as int]);
                        }
                    }
                    return Err(TypingErr { msg: ErrMsg::LabelMultiplyDefined(string_from(mem.id.id)), ast: mem.id.ast });
                }
                assert(mem.id.id@ == ml[j as int]);
                assert(!self.label2data.has(ml[j as int]));
                assert(!seen.contains(ml[j as int]));
                assert(!old_l2d.has(ml[j as int]));
                let ghost before = self.label2data;
                self.label2data.insert(mem.id.id, dt.name.id.id);
                proof {
                    assert forall|a: int, m: int| 0 <= a < i && 0 <= m < ds[a].members@.len()
                        implies label_maps_to(self.label2data, #[trigger] ds[a].members@[m], ds[a]) by {
                        assert(label_maps_to(before, ds[a].members@[m], ds[a]));
                    }
                    assert forall|m: int| 0 <= m < j + 1 implies label_maps_to(self.label2data, #[trigger] dt.members@[m], *dt) by {
                        if m < j {
                            assert(label_maps_to(before, dt.members@[m], *dt));
                        }
                    }
                    assert forall|l: Seq<char>| self.label2data.has(l) <==> (old_l2d.has(l) || next.contains(l)) by {
                        if l != ml[j as int] {
                            assert(self.label2data.has(l) == before.has(l));
                        }
                        if next.contains(l) && l != ml[j as int] {
                            let k = choose|k: int| 0 <= k < next.len() && next[k] == l;
                            assert(seen[k] == l);
                        }
                        if seen.contains(l) {
                            let k = choose|k: int| 0 <= k < seen.len() && seen[k] == l;
                            assert(next[k] == l);
                        }
                        if l == ml[j as int] {
                            assert(next[seen.len() as int] == l);
                        }
                    }
                    assert forall|l: Seq<char>| next.contains(l) implies !old_l2d.has(l) by {
                        let k = choose|k: int| 0 <= k < next.len() && next[k] == l;
                        if k < seen.len() {
                            assert(seen[k] == l);
                            assert(seen.contains(l));
                        } else {
                            assert(l == ml[j as int]);
                        }
                    }
                    assert forall|a: int, b: int| 0 <= a < next.len() && 0 <= b < next.len() && a != b implies next[a] != next[b] by {
                        if a < seen.len() && b < seen.len() {
                            assert(seen[a] == next[a] && seen[b] == next[b]);
                        } else if a < seen.len() {
                            assert(seen[a] == next[a]);
                            if seen[a] == ml[j as int] {
                                assert(seen.contains(ml[j as int]));
                            }
                        } else if b < seen.len() {
                            assert(seen[b] == next[b]);
                            if seen[b] == ml[j as int] {
                                assert(seen.contains(ml[j as int]));
                            }
                        }
                    }
                }
                j += 1;
            }
            assert(ml.take(j as int) =~= ml);
            assert forall|a: int, m: int| 0 <= a < i + 1 && 0 <= m < ds[a].members@.len()
                implies label_maps_to(self.label2data, #[trigger] ds[a].members@[m], ds[a]) by {
                if a == i {
                    assert(label_maps_to(self.label2data, dt.members@[m], *dt));
                }
            }
            assert(labels_upto(ds, (i + 1) as nat) == base + ml);
            assert(base + ml.take(j as int) =~= labels_upto(ds, (i + 1) as nat));
            i += 1;
        }
        Ok(())
    }
}

// ----- well-formed type expressions -----

/// `te` names only type variables in `args` and only data types of `data`, each with
/// as many type arguments as it takes.
pub open spec fn def_type_ok<'t>(data: StrMap<'t, DataType<'t>>, te: TypeExpr<'t>, args: Set<Seq<char>>) -> bool
    decreases te,
{
    match te {
        TypeExpr::TEID(id) => args.contains(id.id@),
        TypeExpr::TEList(l) => def_type_ok(data, *l.ty, args),
        TypeExpr::TETuple(t) => forall|i: int| 0 <= i < t.ty@.len() ==> def_type_ok(data, #[trigger] t.ty@[i], args),
        TypeExpr::TEData(d) => {
            &&& data.has(d.id.id@)
            &&& data.value_of(d.id.id@).name.type_args@.len() == d.type_args@.len()
            &&& forall|i: int| 0 <= i < d.type_args@.len() ==> def_type_ok(data, #[trigger] d.type_args@[i], args)
        },
        TypeExpr::TEFun(f) => {
            &&& forall|i: int| 0 <= i < f.args@.len() ==> def_type_ok(data, #[trigger] f.args@[i], args)
            &&& def_type_ok(data, *f.ret, args)
        },
        _ => true,
    }
}

/// The names of the type arguments of `d`, in order.
pub open spec fn type_arg_names(d: DataType) -> Seq<Seq<char>> {
    Seq::new(d.name.type_args@.len(), |i: int| d.name.type_args@[i].id@)
}

/// No type argument of `d` occurs twice, and its members' types are well formed.
pub open spec fn data_def_ok<'t>(data: StrMap<'t, DataType<'t>>, d: DataType<'t>) -> bool {
    &&& type_arg_names(d).no_duplicates()
    &&& forall|m: int, t: int| 0 <= m < d.members@.len() && 0 <= t < d.members@[m].types@.len() ==>
        def_type_ok(data, #[trigger] d.members@[m].types@[t], type_arg_names(d).to_set())
}

impl<'t> Context<'t> {
    pub fn check_data_def(&self) -> (r: Result<(), TypingErr<'t>>)
        requires
            self.data.wf(),
        ensures
            r is Ok <==> forall|i: int| 0 <= i < self.data.values().len() ==> data_def_ok(self.data, #[trigger] self.data.values()[i]),
    {
        let mut i: usize = 0;
        while i < self.data.len()
            invariant
                0 <= i <= self.data.values().len(),
                self.data.wf(),
                forall|j: int| 0 <= j < i ==> data_def_ok(self.data, #[trigger] self.data.values()[j]),
            decreases self.data.values().len() - i,
        {
            self.check_data_def_data(self.data.value_at(i))?;
            i += 1;
        }
        Ok(())
    }

    pub fn check_data_def_data(&self, data: &DataType<'t>) -> (r: Result<(), TypingErr<'t>>)
        requires
            self.data.wf(),
        ensures
            r is Ok <==> data_def_ok(self.data, *data),
    {
        let mut args: StrMap<'t, ()> = StrMap::new();
        let ghost names = type_arg_names(*data);
        let mut i: usize = 0;
        while i < data.name.type_args.len()
            invariant
                0 <= i <= names.len(),
                names == type_arg_names(*data),
                args.wf(),
                names.take(i as int).no_duplicates(),
                forall|k: Seq<char>| args.has(k) <==> names.take(i as int).contains(k),
            decreases names.len() - i,
        {
            let arg = &data.name.type_args[i];
            assert(names.take(i + 1) =~= names.take(i as int).push(arg.id@));
            if args.contains_key(arg.id) {
                proof {
                    let k = choose|k: int| 0 <= k < i && names.take(i as int)[k] == arg.id@;
                    assert(names[k] == names[i as int]);
                }
                return Err(TypingErr { msg: ErrMsg::MultiplyUsed(string_from(arg.id)), ast: arg.ast });
            }
            args.insert(arg.id, ());
            proof {
                let nt0 = names.take(i as int);
                assert forall|k: Seq<char>| args.has(k) <==> names.take(i + 1).contains(k) by {
                    if nt0.contains(k) {
                        let q = choose|q: int| 0 <= q < nt0.len() && nt0[q] == k;
                        assert(names.take(i + 1)[q] == k);
                    }
                    if names.take(i + 1).contains(k) && k != arg.id@ {
                        let nt1 = names.take(i + 1);
                        let q = choose|q: int| 0 <= q < nt1.len() && nt1[q] == k;
                        assert(nt0[q] == k);
                    }
                    if k == arg.id@ {
                        assert(names.take(i + 1)[i as int] == k);
                    }
                }
                let nt = names.take(i + 1);
                assert forall|a: int, b: int| 0 <= a < nt.len() && 0 <= b < nt.len() && a != b implies nt[a] != nt[b] by {
                    if a < i && b < i {
                        assert(names.take(i as int)[a] == nt[a] && names.take(i as int)[b] == nt[b]);
                    } else if a < i {
                        assert(names.take(i as int)[a] == nt[a]);
                    } else if b < i {
                        assert(names.take(i as int)[b] == nt[b]);
                    }
                }
            }
            i += 1;
        }
        assert(names.take(i as int) =~= names);
        assert(args.key_set() =~= names.to_set());
        let mut m: usize = 0;
        while m < data.members.len()
            invariant
                0 <= m <= data.members@.len(),
                self.data.wf(),
                names == type_arg_names(*data),
                names.no_duplicates(),
                args.key_set() == names.to_set(),
                forall|a: int, t: int| 0 <= a < m && 0 <= t < data.members@[a].types@.len() ==>
                    def_type_ok(self.data, #[trigger] data.members@[a].types@[t], names.to_set()),
            decreases data.members@.len() - m,
        {
            self.check_data_def_mem(&data.members[m], &args)?;
            m += 1;
        }
        Ok(())
    }

    pub fn check_data_def_mem(&self, mem: &DataTypeMem<'t>, args: &StrMap<'t, ()>) -> (r: Result<(), TypingErr<'t>>)
        requires
            self.data.wf(),
        ensures
            r is Ok <==> forall|t: int| 0 <= t < mem.types@.len() ==> def_type_ok(self.data, #[trigger] mem.types@[t], args.key_set()),
    {
        let mut i: usize = 0;
        while i < mem.types.len()
            invariant
                0 <= i <= mem.types@.len(),
                self.data.wf(),
                forall|t: int| 0 <= t < i ==> def_type_ok(self.data, #[trigger] mem.types@[t], args.key_set()),
            decreases mem.types@.len() - i,
        {
            self.check_def_type(&mem.types[i], args)?;
            i += 1;
        }
        Ok(())
    }

    pub fn check_def_type(&self, ty: &TypeExpr<'t>, args: &StrMap<'t, ()>) -> (r: Result<(), TypingErr<'t>>)
        requires
            self.data.wf(),
        ensures
            r is Ok <==> def_type_ok(self.data, *ty, args.key_set()),
        decreases ty,
    {
        match ty {
            TypeExpr::TEID(id) => {
                if !args.contains_key(id.id) {
                    return Err(TypingErr { msg: ErrMsg::Undefined(string_from(id.id)), ast: id.ast });
                }
            },
            TypeExpr::TEList(list) => {
                proof {
                    assert(decreases_to!(*ty => ty->TEList_0));
                    assert(decreases_to!(ty->TEList_0 => *ty->TEList_0.ty));
                }
                self.check_def_type(&list.ty, args)?;
            },
            TypeExpr::TETuple(tuple) => {
                let mut i: usize = 0;
                while i < tuple.ty.len()
                    invariant
                        *ty == TypeExpr::TETuple(*tuple),
                        self.data.wf(),
                        0 <= i <= tuple.ty@.len(),
                        forall|j: int| 0 <= j < i ==> def_type_ok(self.data, #[trigger] tuple.ty@[j], args.key_set()),
                    decreases tuple.ty@.len() - i,
                {
                    proof {
                        assert(decreases_to!(*ty => ty->TETuple_0));
                        assert(decreases_to!(ty->TETuple_0 => ty->TETuple_0.ty));
                        assert(decreases_to!(ty->TETuple_0.ty => ty->TETuple_0.ty@));
                    }
                    self.check_def_type(&tuple.ty[i], args)?;
                    i += 1;
                }
            },
            TypeExpr::TEData(data) => {
                match self.data.get(data.id.id) {
                    Some(dt) => {
                        if dt.name.type_args.len() != data.type_args.len() {
                            return Err(TypingErr {
                                msg: ErrMsg::TypeArgCount(string_from(data.id.id), dt.name.type_args.len(), data.type_args.len()),
                                ast: data.ast,
                            });
                        }
                    },
                    None => {
                        return Err(TypingErr { msg: ErrMsg::UnknownType(string_from(data.id.id)), ast: data.id.ast });
                    },
                }
                let mut i: usize = 0;
                while i < data.type_args.len()
                    invariant
                        *ty == TypeExpr::TEData(*data),
                        self.data.wf(),
                        0 <= i <= data.type_args@.len(),
                        forall|j: int| 0 <= j < i ==> def_type_ok(self.data, #[trigger] data.type_args@[j], args.key_set()),
                    decreases data.type_args@.len() - i,
                {
                    proof {
                        assert(decreases_to!(*ty => ty->TEData_0));
                        assert(decreases_to!(ty->TEData_0 => ty->TEData_0.type_args));
                        assert(decreases_to!(ty->TEData_0.type_args => ty->TEData_0.type_args@));
                    }
                    self.check_def_type(&data.type_args[i], args)?;
                    i += 1;
                }
            },
            TypeExpr::TEFun(fun) => {
                let mut i: usize = 0;
                while i < fun.args.len()
                    invariant
                        *ty == TypeExpr::TEFun(*fun),
                        self.data.wf(),
                        0 <= i <= fun.args@.len(),
                        forall|j: int| 0 <= j < i ==> def_type_ok(self.data, #[trigger] fun.args@[j], args.key_set()),
                    decreases fun.args@.len() - i,
                {
                    proof {
                        assert(decreases_to!(*ty => ty->TEFun_0));
                        assert(decreases_to!(ty->TEFun_0 => ty->TEFun_0.args));
                        assert(decreases_to!(ty->TEFun_0.args => ty->TEFun_0.args@));
                    }
                    self.check_def_type(&fun.args[i], args)?;
                    i += 1;
                }
                proof {
                    assert(decreases_to!(*ty => ty->TEFun_0));
                    assert(decreases_to!(ty->TEFun_0 => *ty->TEFun_0.ret));
                }
                self.check_def_type(&fun.ret, args)?;
            },
            _ => {},
        }
        Ok(())
    }

    pub fn check_defun_type(&self) -> (r: Result<(), TypingErr<'t>>)
        requires
            self.data.wf(),
            self.funs.wf(),
        ensures
            r is Ok <==> forall|i: int| 0 <= i < self.funs.values().len() ==> def_type_ok(self.data, (#[trigger] self.funs.values()[i]).fun_type, Set::empty()),
    {
        let m: StrMap<'t, ()> = StrMap::new();
        assert(m.key_set() =~= Set::empty());
        let mut i: usize = 0;
        while i < self.funs.len()
            invariant
                0 <= i <= self.funs.values().len(),
                self.data.wf(),
                m.key_set() == Set::<Seq<char>>::empty(),
                forall|j: int| 0 <= j < i ==> def_type_ok(self.data, (#[trigger] self.funs.values()[j]).fun_type, Set::empty()),
            decreases self.funs.values().len() - i,
        {
            self.check_def_type(&self.funs.value_at(i).fun_type, &m)?;
            i += 1;
        }
        Ok(())
    }
}

} // verus!
