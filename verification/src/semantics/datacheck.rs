//! Instantiating data types and rejecting data types that can only be infinite.
use super::ast::{
    string_from, DataType, DataTypeMem, ErrMsg, TEDataNode, TEFunNode, TEListNode, TETupleNode, TypeExpr, TypingErr,
};
use super::copies::{copy_types, name_kept, te_kept};
use super::infer::{id_kept, last_index, lemma_last_index, tid_kept};
use super::typing::type_arg_names;
use crate::parser::Expr;
use super::strmap::{lemma_key_set_finite, StrMap};
use super::typing::Context;
use vstd::prelude::*;

verus! {

// ----- substituting type expressions for type variables -----

/// `b` is `a` with each type variable named in `m` replaced by a copy of its type expression.
pub open spec fn te_subst<'t>(a: TypeExpr<'t>, b: TypeExpr<'t>, m: StrMap<'t, TypeExpr<'t>>) -> bool
    decreases a,
{
    match a {
        TypeExpr::TEBool(_) => b == a,
        TypeExpr::TEInt(_) => b == a,
        TypeExpr::TEList(x) => b matches TypeExpr::TEList(y) && y.ast == x.ast && te_subst(*x.ty, *y.ty, m),
        TypeExpr::TETuple(x) => b matches TypeExpr::TETuple(y) && y.ast == x.ast && y.ty@.len() == x.ty@.len()
            && forall|i: int| 0 <= i < x.ty@.len() ==> te_subst(#[trigger] x.ty@[i], y.ty@[i], m),
        TypeExpr::TEFun(x) => b matches TypeExpr::TEFun(y) && y.ast == x.ast && y.effect == x.effect
            && te_subst(*x.ret, *y.ret, m) && y.args@.len() == x.args@.len()
            && forall|i: int| 0 <= i < x.args@.len() ==> te_subst(#[trigger] x.args@[i], y.args@[i], m),
        TypeExpr::TEData(x) => b matches TypeExpr::TEData(y) && y.ast == x.ast && tid_kept(x.id, y.id)
            && y.type_args@.len() == x.type_args@.len()
            && forall|i: int| 0 <= i < x.type_args@.len() ==> te_subst(#[trigger] x.type_args@[i], y.type_args@[i], m),
        TypeExpr::TEID(x) => if m.has(x.id@) {
            te_kept(m.value_of(x.id@), b)
        } else {
            b matches TypeExpr::TEID(y) && id_kept(x, y)
        },
    }
}

/// `b` is the member `a` with the substitution `m` applied to its types.
pub open spec fn mem_subst<'t>(a: DataTypeMem<'t>, b: DataTypeMem<'t>, m: StrMap<'t, TypeExpr<'t>>) -> bool {
    &&& tid_kept(a.id, b.id)
    &&& b.ast == a.ast
    &&& b.types@.len() == a.types@.len()
    &&& forall|i: int| 0 <= i < a.types@.len() ==> te_subst(#[trigger] a.types@[i], b.types@[i], m)
}

/// `b` is the data type `a` with the substitution `m` applied to the types of its members.
pub open spec fn data_subst<'t>(a: DataType<'t>, b: DataType<'t>, m: StrMap<'t, TypeExpr<'t>>) -> bool {
    &&& name_kept(a.name, b.name)
    &&& b.ast == a.ast
    &&& b.members@.len() == a.members@.len()
    &&& forall|i: int| 0 <= i < a.members@.len() ==> mem_subst(#[trigger] a.members@[i], b.members@[i], m)
}

// ----- what the recursion check sees of a type expression -----

/// A type expression as the recursion check sees it: data types with their arguments and
/// the sources of the node and of its name, tuples, type variables, and anything else.
pub enum TM<'t> {
    Data(Seq<char>, Seq<TM<'t>>, &'t Expr, &'t Expr),
    Tuple(Seq<TM<'t>>),
    Var(Seq<char>),
    Leaf,
}

/// The model of a type expression.
pub open spec fn te_model<'t>(te: TypeExpr<'t>) -> TM<'t>
    decreases te,
{
    match te {
        TypeExpr::TEData(d) => TM::Data(
            d.id.id@,
            Seq::new(d.type_args@.len(), |i: int| if 0 <= i < d.type_args@.len() { te_model(d.type_args@[i]) } else { TM::Leaf }),
            d.ast,
            d.id.ast,
        ),
        TypeExpr::TETuple(t) => TM::Tuple(
            Seq::new(t.ty@.len(), |i: int| if 0 <= i < t.ty@.len() { te_model(t.ty@[i]) } else { TM::Leaf }),
        ),
        TypeExpr::TEID(x) => TM::Var(x.id@),
        _ => TM::Leaf,
    }
}

/// The models of a sequence of type expressions.
pub open spec fn te_models<'t>(v: Seq<TypeExpr<'t>>) -> Seq<TM<'t>> {
    Seq::new(v.len(), |i: int| te_model(v[i]))
}

/// The model with each type variable in `m` replaced by its model there.
pub open spec fn tm_subst<'t>(tm: TM<'t>, m: Map<Seq<char>, TM<'t>>) -> TM<'t>
    decreases tm,
{
    match tm {
        TM::Data(n, args, a, b) => TM::Data(
            n,
            Seq::new(args.len(), |i: int| if 0 <= i < args.len() { tm_subst(args[i], m) } else { TM::Leaf }),
            a,
            b,
        ),
        TM::Tuple(args) => TM::Tuple(
            Seq::new(args.len(), |i: int| if 0 <= i < args.len() { tm_subst(args[i], m) } else { TM::Leaf }),
        ),
        TM::Var(x) => if m.contains_key(x) { m[x] } else { tm },
        TM::Leaf => TM::Leaf,
    }
}

/// The models of the type expressions of a substitution.
pub open spec fn map_model<'t>(m: StrMap<'t, TypeExpr<'t>>) -> Map<Seq<char>, TM<'t>> {
    Map::new(|k: Seq<char>| m.has(k), |k: Seq<char>| te_model(m.value_of(k)))
}

/// Each name stands for the argument at its last position.
pub open spec fn inst_map<'t>(names: Seq<Seq<char>>, args: Seq<TM<'t>>) -> Map<Seq<char>, TM<'t>> {
    Map::new(|k: Seq<char>| names.contains(k), |k: Seq<char>| args[last_index(names, k)])
}

/// The models of the types of the members of `d`.
pub open spec fn mems_model<'t>(d: DataType<'t>) -> Seq<Seq<TM<'t>>> {
    Seq::new(d.members@.len(), |m: int| te_models(d.members@[m].types@))
}

/// The models of the types of the members of `d` with its type arguments standing for `args`.
pub open spec fn inst_mems<'t>(d: DataType<'t>, args: Seq<TM<'t>>) -> Seq<Seq<TM<'t>>> {
    Seq::new(d.members@.len(), |m: int| Seq::new(d.members@[m].types@.len(),
        |t: int| tm_subst(te_model(d.members@[m].types@[t]), inst_map(type_arg_names(d), args))))
}

/// The sum of the entries of `s` from position `i` on.
pub open spec fn sum_from(s: Seq<nat>, i: int) -> nat
    decreases s.len() - i,
{
    if i < 0 || i >= s.len() {
        0
    } else {
        s[i] + sum_from(s, i + 1)
    }
}

/// The size of a model: its tuple nodes and leaves, each data node counted as a leaf.
pub open spec fn tm_size<'t>(tm: TM<'t>) -> nat
    decreases tm,
{
    match tm {
        TM::Tuple(args) => 1 + sum_from(tm_sizes(args), 0),
        _ => 1,
    }
}

/// One more than the size of each model of `args`.
pub open spec fn tm_sizes<'t>(args: Seq<TM<'t>>) -> Seq<nat>
    decreases args,
{
    Seq::new(args.len(), |i: int| if 0 <= i < args.len() { tm_size(args[i]) + 1 } else { 0 })
}

/// A copy has the model of its original.
pub proof fn lemma_kept_model<'t>(a: TypeExpr<'t>, b: TypeExpr<'t>)
    requires
        te_kept(a, b),
    ensures
        te_model(a) == te_model(b),
    decreases a,
{
    match a {
        TypeExpr::TETuple(x) => {
            let y = b->TETuple_0;
            assert forall|i: int| 0 <= i < x.ty@.len() implies te_model(x.ty@[i]) == te_model(y.ty@[i]) by {
                lemma_kept_model(x.ty@[i], y.ty@[i]);
            }
            assert(te_model(a)->Tuple_0 =~= te_model(b)->Tuple_0);
        },
        TypeExpr::TEData(x) => {
            let y = b->TEData_0;
            assert forall|i: int| 0 <= i < x.type_args@.len() implies te_model(x.type_args@[i]) == te_model(y.type_args@[i]) by {
                lemma_kept_model(x.type_args@[i], y.type_args@[i]);
            }
            assert(te_model(a)->Data_1 =~= te_model(b)->Data_1);
        },
        _ => {},
    }
}

/// Substituting type expressions substitutes their models.
pub proof fn lemma_subst_model<'t>(a: TypeExpr<'t>, b: TypeExpr<'t>, m: StrMap<'t, TypeExpr<'t>>)
    requires
        te_subst(a, b, m),
    ensures
        te_model(b) == tm_subst(te_model(a), map_model(m)),
    decreases a,
{
    match a {
        TypeExpr::TETuple(x) => {
            let y = b->TETuple_0;
            assert forall|i: int| 0 <= i < x.ty@.len() implies te_model(y.ty@[i]) == tm_subst(te_model(x.ty@[i]), map_model(m)) by {
                lemma_subst_model(x.ty@[i], y.ty@[i], m);
            }
            assert(te_model(b)->Tuple_0 =~= tm_subst(te_model(a), map_model(m))->Tuple_0);
        },
        TypeExpr::TEData(x) => {
            let y = b->TEData_0;
            assert forall|i: int| 0 <= i < x.type_args@.len() implies te_model(y.type_args@[i]) == tm_subst(te_model(x.type_args@[i]), map_model(m)) by {
                lemma_subst_model(x.type_args@[i], y.type_args@[i], m);
            }
            assert(te_model(b)->Data_1 =~= tm_subst(te_model(a), map_model(m))->Data_1);
        },
        TypeExpr::TEID(x) => {
            if m.has(x.id@) {
                lemma_kept_model(m.value_of(x.id@), b);
            }
        },
        _ => {},
    }
}

fn subst_types<'t>(v: &Vec<TypeExpr<'t>>, m: &StrMap<'t, TypeExpr<'t>>) -> (r: Vec<TypeExpr<'t>>)
    requires
        m.wf(),
    ensures
        r@.len() == v@.len(),
        forall|i: int| 0 <= i < v@.len() ==> te_subst(#[trigger] v@[i], r@[i], *m),
    decreases v@, 0nat,
{
    let mut r: Vec<TypeExpr<'t>> = Vec::new();
    let mut i: usize = 0;
    while i < v.len()
        invariant
            m.wf(),
            0 <= i <= v@.len(),
            r@.len() == i,
            forall|j: int| 0 <= j < i ==> te_subst(#[trigger] v@[j], r@[j], *m),
        decreases v@.len() - i,
    {
        proof {
            assert(decreases_to!(v@ => v@[i as int]));
        }
        r.push(subst_type(&v[i], m));
        i += 1;
    }
    r
}

fn subst_type<'t>(te: &TypeExpr<'t>, m: &StrMap<'t, TypeExpr<'t>>) -> (r: TypeExpr<'t>)
    requires
        m.wf(),
    ensures
        te_subst(*te, r, *m),
    decreases *te, 1nat,
{
    match te {
        TypeExpr::TEData(data) => TypeExpr::TEData(subst_data_node(data, m)),
        TypeExpr::TEList(list) => TypeExpr::TEList(subst_list_node(list, m)),
        TypeExpr::TETuple(tuple) => TypeExpr::TETuple(TETupleNode { ty: subst_types(&tuple.ty, m), ast: tuple.ast }),
        TypeExpr::TEFun(fun) => TypeExpr::TEFun(subst_fun_node(fun, m)),
        TypeExpr::TEID(id) => {
            match m.get(id.id) {
                Some(t) => t.clone(),
                None => TypeExpr::TEID(id.clone()),
            }
        },
        _ => te.clone(),
    }
}

fn subst_list_node<'t>(list: &TEListNode<'t>, m: &StrMap<'t, TypeExpr<'t>>) -> (r: TEListNode<'t>)
    requires
        m.wf(),
    ensures
        r.ast == list.ast,
        te_subst(*list.ty, *r.ty, *m),
    decreases *list, 0nat,
{
    TEListNode { ty: Box::new(subst_type(&list.ty, m)), ast: list.ast }
}

fn subst_fun_node<'t>(fun: &TEFunNode<'t>, m: &StrMap<'t, TypeExpr<'t>>) -> (r: TEFunNode<'t>)
    requires
        m.wf(),
    ensures
        r.ast == fun.ast,
        r.effect == fun.effect,
        te_subst(*fun.ret, *r.ret, *m),
        r.args@.len() == fun.args@.len(),
        forall|i: int| 0 <= i < fun.args@.len() ==> te_subst(#[trigger] fun.args@[i], r.args@[i], *m),
    decreases *fun, 0nat,
{
    let args = subst_types(&fun.args, m);
    let ret = subst_type(&fun.ret, m);
    TEFunNode { effect: fun.effect, args: args, ret: Box::new(ret), ast: fun.ast }
}

fn subst_data_node<'t>(data: &TEDataNode<'t>, m: &StrMap<'t, TypeExpr<'t>>) -> (r: TEDataNode<'t>)
    requires
        m.wf(),
    ensures
        r.ast == data.ast,
        tid_kept(data.id, r.id),
        r.type_args@.len() == data.type_args@.len(),
        forall|i: int| 0 <= i < data.type_args@.len() ==> te_subst(#[trigger] data.type_args@[i], r.type_args@[i], *m),
    decreases *data, 0nat,
{
    TEDataNode { id: data.id.clone(), type_args: subst_types(&data.type_args, m), ast: data.ast }
}

/// Replacing the type variables of a definition by type expressions.
pub trait TApp<'t>: Sized {
    fn apply(&self, ty: &StrMap<'t, TypeExpr<'t>>) -> (r: Result<Self, TypingErr<'t>>)
        requires
            ty.wf(),
    ;
}

impl<'t> TApp<'t> for DataType<'t> {
    fn apply(&self, ty: &StrMap<'t, TypeExpr<'t>>) -> (r: Result<DataType<'t>, TypingErr<'t>>)
        ensures
            r matches Ok(d) && data_subst(*self, d, *ty),
    {
        let mut mems: Vec<DataTypeMem<'t>> = Vec::new();
        let mut i: usize = 0;
        while i < self.members.len()
            invariant
                ty.wf(),
                0 <= i <= self.members@.len(),
                mems@.len() == i,
                forall|j: int| 0 <= j < i ==> mem_subst(#[trigger] self.members@[j], mems@[j], *ty),
            decreases self.members@.len() - i,
        {
            let m = self.members[i].apply(ty);
            match m {
                Ok(m) => mems.push(m),
                Err(e) => {
                    return Err(e);
                },
            }
            i += 1;
        }
        Ok(DataType { name: self.name.clone(), members: mems, ast: self.ast })
    }
}

impl<'t> TApp<'t> for DataTypeMem<'t> {
    fn apply(&self, ty: &StrMap<'t, TypeExpr<'t>>) -> (r: Result<DataTypeMem<'t>, TypingErr<'t>>)
        ensures
            r matches Ok(m) && mem_subst(*self, m, *ty),
    {
        Ok(DataTypeMem { id: self.id.clone(), types: subst_types(&self.types, ty), ast: self.ast })
    }
}

impl<'t> TApp<'t> for TypeExpr<'t> {
    fn apply(&self, ty: &StrMap<'t, TypeExpr<'t>>) -> (r: Result<TypeExpr<'t>, TypingErr<'t>>)
        ensures
            r matches Ok(t) && te_subst(*self, t, *ty),
    {
        Ok(subst_type(self, ty))
    }
}

impl<'t> TApp<'t> for TEListNode<'t> {
    fn apply(&self, ty: &StrMap<'t, TypeExpr<'t>>) -> (r: Result<TEListNode<'t>, TypingErr<'t>>)
        ensures
            r matches Ok(l) && l.ast == self.ast && te_subst(*self.ty, *l.ty, *ty),
    {
        Ok(subst_list_node(self, ty))
    }
}

impl<'t> TApp<'t> for TETupleNode<'t> {
    fn apply(&self, ty: &StrMap<'t, TypeExpr<'t>>) -> (r: Result<TETupleNode<'t>, TypingErr<'t>>)
        ensures
            r matches Ok(t) && te_subst(TypeExpr::TETuple(*self), TypeExpr::TETuple(t), *ty),
    {
        Ok(TETupleNode { ty: subst_types(&self.ty, ty), ast: self.ast })
    }
}

impl<'t> TApp<'t> for TEFunNode<'t> {
    fn apply(&self, ty: &StrMap<'t, TypeExpr<'t>>) -> (r: Result<TEFunNode<'t>, TypingErr<'t>>)
        ensures
            r matches Ok(f) && te_subst(TypeExpr::TEFun(*self), TypeExpr::TEFun(f), *ty),
    {
        Ok(subst_fun_node(self, ty))
    }
}

impl<'t> TApp<'t> for TEDataNode<'t> {
    fn apply(&self, ty: &StrMap<'t, TypeExpr<'t>>) -> (r: Result<TEDataNode<'t>, TypingErr<'t>>)
        ensures
            r matches Ok(d) && te_subst(TypeExpr::TEData(*self), TypeExpr::TEData(d), *ty),
    {
        Ok(subst_data_node(self, ty))
    }
}

// ----- data types that can only be infinite -----

pub open spec fn sum_nat(s: Seq<nat>) -> nat
    decreases s.len(),
{
    if s.len() == 0 {
        0
    } else {
        sum_nat(s.drop_last()) + s.last()
    }
}

proof fn lemma_sum_ge(s: Seq<nat>, i: int)
    requires
        0 <= i < s.len(),
    ensures
        s[i] <= sum_nat(s),
    decreases s.len(),
{
    if i < s.len() - 1 {
        lemma_sum_ge(s.drop_last(), i);
    }
}

/// The number of tuple nodes and leaves of a type expression, counting other nodes as leaves.
pub open spec fn tuple_size(te: TypeExpr) -> nat
    decreases te,
{
    match te {
        TypeExpr::TETuple(x) => 1 + sum_nat(child_sizes(x)),
        _ => 1,
    }
}

/// The sizes of the elements of a tuple type.
pub open spec fn child_sizes(x: TETupleNode) -> Seq<nat>
    decreases x,
{
    Seq::new(x.ty@.len(), |i: int| if 0 <= i < x.ty@.len() { tuple_size(x.ty@[i]) } else { 0 })
}

/// Adding a name of `d` that `v` lacks leaves fewer names of `d` outside.
pub proof fn lemma_unvisited_dec(d: Set<Seq<char>>, v: Set<Seq<char>>, n: Seq<char>)
    requires
        d.finite(),
        d.contains(n),
        !v.contains(n),
    ensures
        d.difference(v.insert(n)).len() < d.difference(v).len(),
{
    assert(d.difference(v.insert(n)) =~= d.difference(v).remove(n));
    vstd::set_lib::lemma_len_subset(d.difference(v).remove(n), d.difference(v));
    assert(d.difference(v).contains(n));
}

/// A larger set leaves no more names of `d` outside.
pub proof fn lemma_unvisited_mono(d: Set<Seq<char>>, v: Set<Seq<char>>, w: Set<Seq<char>>)
    requires
        d.finite(),
        v.subset_of(w),
    ensures
        d.difference(w).len() <= d.difference(v).len(),
{
    vstd::set_lib::lemma_len_subset(d.difference(w), d.difference(v));
}

/// Why the recursion check stops early: a data type that does not exist (with the source of
/// its name), or one given the wrong number of type arguments (its name, the numbers expected
/// and given, and the source of the node).
pub enum RecErr<'t> {
    NoType(&'t Expr),
    ArgCount(Seq<char>, nat, nat, &'t Expr),
}

/// `r` is the answer that `k` describes, each error with its message and source.
pub open spec fn res_matches<'t>(r: Result<bool, TypingErr<'t>>, k: Result<bool, RecErr<'t>>) -> bool {
    match k {
        Ok(b) => r == Ok::<bool, TypingErr<'t>>(b),
        Err(RecErr::NoType(ast)) => r matches Err(e) && e.ast == ast && e.msg == ErrMsg::Text("error: no such type"),
        Err(RecErr::ArgCount(n, x, y, ast)) => r matches Err(e) && e.ast == ast
            && (e.msg matches ErrMsg::TypeArgCount(s, a, b) && s@ == n && a == x && b == y),
    }
}

/// How many data types lie outside `v`.
pub open spec fn unvisited_of<'t>(data: StrMap<'t, DataType<'t>>, v: Set<Seq<char>>) -> nat {
    data.key_set().difference(v).len()
}

/// The recursion check of the data type `name` whose members have the type models `mems`,
/// with `v` the data types already on the way: its answer, and the data types on the way
/// after it. A data type already on the way answers `true`; otherwise the answer is
/// whether every member answers `true`.
pub open spec fn rec_data<'t>(data: StrMap<'t, DataType<'t>>, name: Seq<char>, mems: Seq<Seq<TM<'t>>>, v: Set<Seq<char>>)
    -> (Result<bool, RecErr<'t>>, Set<Seq<char>>)
    decreases unvisited_of(data, v), 0nat, 0int,
{
    if v.contains(name) || !data.has(name) {
        (Ok(true), v)
    } else {
        proof {
            lemma_key_set_finite(&data);
            lemma_unvisited_dec(data.key_set(), v, name);
        }
        rec_mems(data, mems, 0, true, v.insert(name))
    }
}

/// The check of the members `mems` from position `m` on, `acc` holding the answer so far
/// (each member answering whether some of its types does); the first error stops it.
pub open spec fn rec_mems<'t>(data: StrMap<'t, DataType<'t>>, mems: Seq<Seq<TM<'t>>>, m: int, acc: bool, v: Set<Seq<char>>)
    -> (Result<bool, RecErr<'t>>, Set<Seq<char>>)
    decreases unvisited_of(data, v), 2nat, mems.len() - m,
{
    if m < 0 || m >= mems.len() {
        (Ok(acc), v)
    } else {
        let p = rec_tys(data, mems[m], 0, false, v);
        let w = v.union(p.1);
        match p.0 {
            Err(e) => (Err(e), w),
            Ok(b) => {
                proof {
                    lemma_key_set_finite(&data);
                    lemma_unvisited_mono(data.key_set(), v, w);
                }
                rec_mems(data, mems, m + 1, b && acc, w)
            },
        }
    }
}

/// The check of the types `args` from position `i` on, `acc` holding whether one of the
/// earlier ones answered `true`; the first error stops it.
pub open spec fn rec_tys<'t>(data: StrMap<'t, DataType<'t>>, args: Seq<TM<'t>>, i: int, acc: bool, v: Set<Seq<char>>)
    -> (Result<bool, RecErr<'t>>, Set<Seq<char>>)
    decreases unvisited_of(data, v), 1nat, sum_from(tm_sizes(args), i),
{
    if i < 0 || i >= args.len() {
        (Ok(acc), v)
    } else {
        proof {
            assert(tm_sizes(args)[i] == tm_size(args[i]) + 1);
        }
        let p = rec_ty(data, args[i], v);
        let w = v.union(p.1);
        match p.0 {
            Err(e) => (Err(e), w),
            Ok(b) => {
                proof {
                    lemma_key_set_finite(&data);
                    lemma_unvisited_mono(data.key_set(), v, w);
                }
                rec_tys(data, args, i + 1, acc || b, w)
            },
        }
    }
}

/// The check of one type: a tuple through its elements, a data type through its
/// definition with the type arguments put in; anything else answers `false`.
pub open spec fn rec_ty<'t>(data: StrMap<'t, DataType<'t>>, tm: TM<'t>, v: Set<Seq<char>>) -> (Result<bool, RecErr<'t>>, Set<Seq<char>>)
    decreases unvisited_of(data, v), 1nat, tm_size(tm),
{
    match tm {
        TM::Tuple(args) => rec_tys(data, args, 0, false, v),
        TM::Data(n, args, ast, id_ast) => if !data.has(n) {
            (Err(RecErr::NoType(id_ast)), v)
        } else if data.value_of(n).name.type_args@.len() != args.len() {
            (Err(RecErr::ArgCount(n, data.value_of(n).name.type_args@.len(), args.len(), ast)), v)
        } else {
            rec_data(data, n, inst_mems(data.value_of(n), args), v)
        },
        _ => (Ok(false), v),
    }
}

/// The answer of the check for the data type at position `i`, starting with nothing on the way.
pub open spec fn rec_top<'t>(data: StrMap<'t, DataType<'t>>, i: int) -> Result<bool, RecErr<'t>> {
    rec_data(data, data.values()[i].name.id.id@, mems_model(data.values()[i]), Set::empty()).0
}

/// `e` is the error of the check for the data type at position `i`: that its definition
/// can only be infinite, or the error that stopped the check.
pub open spec fn rec_refused<'t>(data: StrMap<'t, DataType<'t>>, e: TypingErr<'t>, i: int) -> bool {
    match rec_top(data, i) {
        Ok(b) => b && e.ast == data.values()[i].ast
            && (e.msg matches ErrMsg::InfiniteRecursive(s) && s@ == data.values()[i].name.id.id@),
        Err(k) => res_matches(Err(e), Err(k)),
    }
}

/// The check of members from position `m` on answers `true` only if the answer so far is
/// `true` and no member from `m` on is without element types.
pub proof fn lemma_rec_mems_nullary<'t>(data: StrMap<'t, DataType<'t>>, mems: Seq<Seq<TM<'t>>>, m: int, acc: bool, v: Set<Seq<char>>)
    requires
        0 <= m,
        !acc || exists|j: int| m <= j < mems.len() && (#[trigger] mems[j]).len() == 0,
    ensures
        rec_mems(data, mems, m, acc, v).0 != Ok::<bool, RecErr<'t>>(true),
    decreases mems.len() - m,
{
    if m < mems.len() {
        let p = rec_tys(data, mems[m], 0, false, v);
        let w = v.union(p.1);
        if mems[m].len() == 0 {
            assert(p.0 == Ok::<bool, RecErr<'t>>(false));
        }
        if let Ok(b) = p.0 {
            lemma_key_set_finite(&data);
            lemma_unvisited_mono(data.key_set(), v, w);
            if b && acc {
                let j = choose|j: int| m <= j < mems.len() && (#[trigger] mems[j]).len() == 0;
                assert(j != m);
                assert(m + 1 <= j < mems.len() && mems[j].len() == 0);
            }
            lemma_rec_mems_nullary(data, mems, m + 1, b && acc, w);
        }
    }
}

/// Law: a data type with a member that holds no element (such as `Zero` in
/// `(data Nat Zero (Succ Nat))`) is never found infinitely recursive, wherever that member
/// stands among the others: some value of it is finite.
pub proof fn law_nullary_member_finite<'t>(data: StrMap<'t, DataType<'t>>, i: int, k: int)
    requires
        0 <= i < data.values().len(),
        data.has(data.values()[i].name.id.id@),
        0 <= k < data.values()[i].members@.len(),
        data.values()[i].members@[k].types@.len() == 0,
    ensures
        rec_top(data, i) != Ok::<bool, RecErr<'t>>(true),
{
    let d = data.values()[i];
    let mems = mems_model(d);
    assert(mems[k].len() == 0);
    let name = d.name.id.id@;
    let v = Set::<Seq<char>>::empty();
    assert(!v.contains(name));
    lemma_rec_mems_nullary(data, mems, 0, true, v.insert(name));
}

/// The model `tm` names the data type `name` with the number of type arguments that its
/// definition in `data` takes.
pub open spec fn names_data<'t>(data: StrMap<'t, DataType<'t>>, tm: TM<'t>, name: Seq<char>) -> bool {
    tm matches TM::Data(n, args, _, _) && n == name && data.has(name)
        && data.value_of(name).name.type_args@.len() == args.len()
}

/// Some of the types `mem` names the data type `name` (see `names_data`).
pub open spec fn holds_data<'t>(data: StrMap<'t, DataType<'t>>, mem: Seq<TM<'t>>, name: Seq<char>) -> bool {
    exists|t: int| 0 <= t < mem.len() && names_data(data, #[trigger] mem[t], name)
}

/// With `name` on the way, the check of the types `args` from position `j` on does not
/// answer `false` if the answer so far is `true` or one of those types is `name` itself.
pub proof fn lemma_rec_tys_self<'t>(data: StrMap<'t, DataType<'t>>, args: Seq<TM<'t>>, j: int, acc: bool, v: Set<Seq<char>>, name: Seq<char>)
    requires
        0 <= j,
        v.contains(name),
        acc || exists|k: int| j <= k < args.len() && names_data(data, #[trigger] args[k], name),
    ensures
        rec_tys(data, args, j, acc, v).0 != Ok::<bool, RecErr<'t>>(false),
        v.subset_of(rec_tys(data, args, j, acc, v).1),
    decreases sum_from(tm_sizes(args), j),
{
    if j < args.len() {
        assert(tm_sizes(args)[j] == tm_size(args[j]) + 1);
        let p = rec_ty(data, args[j], v);
        let w = v.union(p.1);
        if names_data(data, args[j], name) {
            assert(p.0 == Ok::<bool, RecErr<'t>>(true));
        }
        if let Ok(b) = p.0 {
            lemma_key_set_finite(&data);
            lemma_unvisited_mono(data.key_set(), v, w);
            if !(acc || b) {
                let k = choose|k: int| j <= k < args.len() && names_data(data, #[trigger] args[k], name);
                assert(k != j);
                assert(j + 1 <= k < args.len() && names_data(data, args[k], name));
            }
            lemma_rec_tys_self(data, args, j + 1, acc || b, w, name);
        }
    }
}

/// With `name` on the way, the check of the members `mems` from position `m` on does not
/// answer `false` if the answer so far is `true` and each of those members has `name`
/// itself among its types.
pub proof fn lemma_rec_mems_self<'t>(data: StrMap<'t, DataType<'t>>, mems: Seq<Seq<TM<'t>>>, m: int, acc: bool, v: Set<Seq<char>>, name: Seq<char>)
    requires
        0 <= m,
        acc,
        v.contains(name),
        forall|k: int| m <= k < mems.len() ==> holds_data(data, #[trigger] mems[k], name),
    ensures
        rec_mems(data, mems, m, acc, v).0 != Ok::<bool, RecErr<'t>>(false),
    decreases mems.len() - m,
{
    if m < mems.len() {
        let t = choose|t: int| 0 <= t < mems[m].len() && names_data(data, #[trigger] mems[m][t], name);
        assert(0 <= t < mems[m].len() && names_data(data, mems[m][t], name));
        lemma_rec_tys_self(data, mems[m], 0, false, v, name);
        let p = rec_tys(data, mems[m], 0, false, v);
        let w = v.union(p.1);
        if let Ok(b) = p.0 {
            lemma_key_set_finite(&data);
            lemma_unvisited_mono(data.key_set(), v, w);
            lemma_rec_mems_self(data, mems, m + 1, b && acc, w, name);
        }
    }
}

/// Law: a data type each of whose members holds the type itself (such as
/// `(data Num (Succ Num))`) is never found finite: the check refuses it or stops on an
/// error, whatever the order of its members.
pub proof fn law_self_referring_members_refused<'t>(data: StrMap<'t, DataType<'t>>, i: int)
    requires
        0 <= i < data.values().len(),
        data.has(data.values()[i].name.id.id@),
        forall|k: int| #![trigger data.values()[i].members@[k]] 0 <= k < data.values()[i].members@.len() ==> exists|t: int|
            0 <= t < data.values()[i].members@[k].types@.len()
            && names_data(data, te_model(#[trigger] data.values()[i].members@[k].types@[t]), data.values()[i].name.id.id@),
    ensures
        rec_top(data, i) != Ok::<bool, RecErr<'t>>(false),
{
    let d = data.values()[i];
    let mems = mems_model(d);
    let name = d.name.id.id@;
    let v = Set::<Seq<char>>::empty();
    assert forall|k: int| 0 <= k < mems.len() implies holds_data(data, #[trigger] mems[k], name) by {
        let t = choose|t: int| 0 <= t < d.members@[k].types@.len() && names_data(data, te_model(#[trigger] d.members@[k].types@[t]), name);
        assert(mems[k][t] == te_model(d.members@[k].types@[t]));
        assert(0 <= t < mems[k].len() && names_data(data, mems[k][t], name));
    }
    lemma_rec_mems_self(data, mems, 0, true, v.insert(name), name);
}

impl<'t> Context<'t> {
    /// How many data types `visited` has not reached yet.
    pub open spec fn unvisited(&self, visited: StrMap<'t, ()>) -> nat {
        self.data.key_set().difference(visited.key_set()).len()
    }

    /// The data type that `data` names, with its type arguments put in for its type variables.
    pub fn type_data_node2data_type(&self, data: &TEDataNode<'t>) -> (r: Result<DataType<'t>, TypingErr<'t>>)
        requires
            self.wf(),
        ensures
            !self.data.has(data.id.id@) ==> ((r matches Err(e) && e.ast == data.id.ast && e.msg == ErrMsg::Text("error: no such type"))),
            self.data.has(data.id.id@) && self.data.value_of(data.id.id@).name.type_args@.len() != data.type_args@.len() ==>
                ((r matches Err(e) && e.ast == data.ast && (e.msg matches ErrMsg::TypeArgCount(n, a, b) && n@ == data.id.id@
                && a == self.data.value_of(data.id.id@).name.type_args@.len() && b == data.type_args@.len()))),
            r is Ok <==> self.data.has(data.id.id@) && self.data.value_of(data.id.id@).name.type_args@.len() == data.type_args@.len(),
            r matches Ok(d) ==> d.name.id.id@ == data.id.id@ && exists|m: StrMap<'t, TypeExpr<'t>>| data_subst(self.data.value_of(data.id.id@), d, m),
            r matches Ok(d) ==> mems_model(d) == inst_mems(self.data.value_of(data.id.id@), te_models(data.type_args@)),
    {
        let dt = match self.data.get(data.id.id) {
            Some(t) => t,
            None => {
                return Err(TypingErr::new("error: no such type", data.id.ast));
            },
        };
        if data.type_args.len() != dt.name.type_args.len() {
            return Err(TypingErr {
                msg: ErrMsg::TypeArgCount(string_from(data.id.id), dt.name.type_args.len(), data.type_args.len()),
                ast: data.ast,
            });
        }
        let ghost names = type_arg_names(*dt);
        let ghost args = te_models(data.type_args@);
        let mut map: StrMap<'t, TypeExpr<'t>> = StrMap::new();
        let mut i: usize = 0;
        while i < data.type_args.len()
            invariant
                0 <= i <= data.type_args@.len(),
                data.type_args@.len() == dt.name.type_args@.len(),
                names == type_arg_names(*dt),
                args == te_models(data.type_args@),
                map.wf(),
                forall|k: Seq<char>| #[trigger] map.has(k) ==> exists|j: int| 0 <= j < i && names[j] == k
                    && (forall|j2: int| j < j2 < i ==> names[j2] != k) && te_model(map.value_of(k)) == args[j],
                forall|j: int| 0 <= j < i ==> map.has(#[trigger] names[j]),
            decreases data.type_args@.len() - i,
        {
            let ghost before = map;
            let v = data.type_args[i].clone();
            proof {
                lemma_kept_model(data.type_args@[i as int], v);
            }
            map.insert(dt.name.type_args[i].id, v);
            proof {
                assert(names[i as int] == dt.name.type_args@[i as int].id@);
                assert forall|k: Seq<char>| #[trigger] map.has(k) implies exists|j: int| 0 <= j < i + 1 && names[j] == k
                    && (forall|j2: int| j < j2 < i + 1 ==> names[j2] != k) && te_model(map.value_of(k)) == args[j] by {
                    if k == names[i as int] {
                        assert(0 <= i < i + 1 && names[i as int] == k);
                    } else {
                        assert(before.has(k));
                        let j = choose|j: int| 0 <= j < i && names[j] == k
                            && (forall|j2: int| j < j2 < i ==> names[j2] != k) && te_model(before.value_of(k)) == args[j];
                        assert(0 <= j < i + 1 && names[j] == k);
                    }
                }
                assert forall|j: int| 0 <= j < i + 1 implies map.has(#[trigger] names[j]) by {
                    if j < i && names[j] != names[i as int] {
                        assert(before.has(names[j]));
                    }
                }
            }
            i += 1;
        }
        proof {
            assert(map_model(map) =~= inst_map(names, args)) by {
                assert forall|k: Seq<char>| #[trigger] map.has(k) implies map_model(map)[k] == inst_map(names, args)[k] by {
                    let j = choose|j: int| 0 <= j < names.len() && names[j] == k
                        && (forall|j2: int| j < j2 < names.len() ==> names[j2] != k) && te_model(map.value_of(k)) == args[j];
                    lemma_last_index(names, k, j);
                    assert(names.contains(k));
                }
                assert forall|k: Seq<char>| names.contains(k) implies map.has(k) by {
                    let j = choose|j: int| 0 <= j < names.len() && names[j] == k;
                    assert(map.has(names[j]));
                }
            }
        }
        let r = dt.apply(&map);
        proof {
            let d = r->Ok_0;
            assert(data_subst(*dt, d, map));
            assert(self.data.keys()[self.data.index_of(data.id.id@)] == data.id.id@);
            assert forall|m: int| 0 <= m < d.members@.len() implies #[trigger] mems_model(d)[m] == inst_mems(*dt, args)[m] by {
                assert(mem_subst(dt.members@[m], d.members@[m], map));
                assert forall|t: int| 0 <= t < d.members@[m].types@.len() implies
                    te_model(d.members@[m].types@[t]) == tm_subst(te_model(dt.members@[m].types@[t]), inst_map(names, args)) by {
                    lemma_subst_model(dt.members@[m].types@[t], d.members@[m].types@[t], map);
                }
                assert(mems_model(d)[m] =~= inst_mems(*dt, args)[m]);
            }
            assert(mems_model(d) =~= inst_mems(*dt, args));
        }
        r
    }

    /// Checks each data type, in name order, for a definition that can only be infinite.
    pub fn check_data_rec(&self) -> (r: Result<(), TypingErr<'t>>)
        requires
            self.wf(),
        ensures
            r matches Err(e) ==> (e.msg is InfiniteRecursive || e.msg is TypeArgCount || e.msg == ErrMsg::Text("error: no such type")),
            r is Ok <==> forall|i: int| 0 <= i < self.data.values().len() ==> #[trigger] rec_top(self.data, i) == Ok::<bool, RecErr<'t>>(false),
            r matches Err(e) ==> exists|i: int| 0 <= i < self.data.values().len()
                && (forall|j: int| 0 <= j < i ==> #[trigger] rec_top(self.data, j) == Ok::<bool, RecErr<'t>>(false))
                && #[trigger] rec_refused(self.data, e, i),
            r is Err && r->Err_0.msg is InfiniteRecursive ==> exists|i: int| 0 <= i < self.data.values().len()
                && r->Err_0.ast == (#[trigger] self.data.values()[i]).ast
                && forall|k: int| 0 <= k < self.data.values()[i].members@.len() ==> self.data.values()[i].members@[k].types@.len() > 0,
    {
        let mut i: usize = 0;
        while i < self.data.len()
            invariant
                self.wf(),
                0 <= i <= self.data.keys().len(),
                forall|j: int| 0 <= j < i ==> #[trigger] rec_top(self.data, j) == Ok::<bool, RecErr<'t>>(false),
            decreases self.data.keys().len() - i,
        {
            let d = self.data.value_at(i);
            let mut visited: StrMap<'t, ()> = StrMap::new();
            proof {
                assert(self.data.values()[i as int].name.id.id@ == self.data.keys()[i as int]);
                assert(self.data.has(d.name.id.id@));
                assert(visited.key_set() =~= Set::<Seq<char>>::empty());
            }
            let res = self.check_data_rec_data(d, &mut visited);
            match res {
                Err(e) => {
                    proof {
                        assert(rec_refused(self.data, e, i as int));
                    }
                    return Err(e);
                },
                Ok(b) => {
                    if b {
                        let e = TypingErr { msg: ErrMsg::InfiniteRecursive(string_from(d.name.id.id)), ast: d.ast };
                        proof {
                            assert(rec_refused(self.data, e, i as int));
                            assert forall|k: int| 0 <= k < self.data.values()[i as int].members@.len()
                                implies self.data.values()[i as int].members@[k].types@.len() > 0 by {
                                if self.data.values()[i as int].members@[k].types@.len() == 0 {
                                    law_nullary_member_finite(self.data, i as int, k);
                                }
                            }
                        }
                        return Err(e);
                    }
                },
            }
            i += 1;
        }
        Ok(())
    }

    /// Whether every member of `data` leads back to a data type already on the way:
    /// `true` if the definition can only be infinite.
    pub fn check_data_rec_data(&self, data: &DataType<'t>, visited: &mut StrMap<'t, ()>) -> (r: Result<bool, TypingErr<'t>>)
        requires
            self.wf(),
            old(visited).wf(),
            self.data.has(data.name.id.id@),
        ensures
            final(visited).wf(),
            old(visited).key_set().subset_of(final(visited).key_set()),
            old(visited).has(data.name.id.id@) ==> r == Ok::<bool, TypingErr<'t>>(true),
            res_matches(r, rec_data(self.data, data.name.id.id@, mems_model(*data), old(visited).key_set()).0),
            final(visited).key_set() == rec_data(self.data, data.name.id.id@, mems_model(*data), old(visited).key_set()).1,
        decreases self.unvisited(*old(visited)), 0nat, 0nat,
    {
        if visited.contains_key(data.name.id.id) {
            return Ok(true);
        }
        let ghost v0 = *visited;
        proof {
            lemma_key_set_finite(&self.data);
        }
        visited.insert(data.name.id.id, ());
        proof {
            assert(visited.key_set() =~= v0.key_set().insert(data.name.id.id@));
            lemma_unvisited_dec(self.data.key_set(), v0.key_set(), data.name.id.id@);
        }
        let ghost v1 = *visited;
        let ghost mems = mems_model(*data);
        let mut ret = true;
        let mut i: usize = 0;
        while i < data.members.len()
            invariant
                self.wf(),
                visited.wf(),
                0 <= i <= data.members@.len(),
                v0 == *old(visited),
                !v0.has(data.name.id.id@),
                v0.key_set().subset_of(v1.key_set()),
                v1.key_set().subset_of(visited.key_set()),
                self.unvisited(v1) < self.unvisited(v0),
                self.data.key_set().finite(),
                mems == mems_model(*data),
                rec_data(self.data, data.name.id.id@, mems, v0.key_set()) == rec_mems(self.data, mems, i as int, ret, visited.key_set()),
            decreases data.members@.len() - i,
        {
            proof {
                lemma_unvisited_mono(self.data.key_set(), v1.key_set(), visited.key_set());
            }
            let ghost k = visited.key_set();
            let res = self.check_data_rec_mem(&data.members[i], visited);
            proof {
                assert(k.union(visited.key_set()) =~= visited.key_set());
                assert(mems[i as int] == te_models(data.members@[i as int].types@));
            }
            let result = match res {
                Err(e) => {
                    return Err(e);
                },
                Ok(b) => b,
            };
            ret = result && ret;
            i += 1;
        }
        Ok(ret)
    }

    /// Whether some type of the member leads back to a data type already on the way.
    pub fn check_data_rec_mem(&self, mem: &DataTypeMem<'t>, visited: &mut StrMap<'t, ()>) -> (r: Result<bool, TypingErr<'t>>)
        requires
            self.wf(),
            old(visited).wf(),
        ensures
            final(visited).wf(),
            old(visited).key_set().subset_of(final(visited).key_set()),
            res_matches(r, rec_tys(self.data, te_models(mem.types@), 0, false, old(visited).key_set()).0),
            final(visited).key_set() == rec_tys(self.data, te_models(mem.types@), 0, false, old(visited).key_set()).1,
        decreases self.unvisited(*old(visited)), 2nat, 0nat,
    {
        let ghost v0 = *visited;
        let ghost tms = te_models(mem.types@);
        proof {
            lemma_key_set_finite(&self.data);
        }
        let mut ret = false;
        let mut i: usize = 0;
        while i < mem.types.len()
            invariant
                self.wf(),
                visited.wf(),
                0 <= i <= mem.types@.len(),
                v0 == *old(visited),
                v0.key_set().subset_of(visited.key_set()),
                self.data.key_set().finite(),
                tms == te_models(mem.types@),
                rec_tys(self.data, tms, 0, false, v0.key_set()) == rec_tys(self.data, tms, i as int, ret, visited.key_set()),
            decreases mem.types@.len() - i,
        {
            proof {
                lemma_unvisited_mono(self.data.key_set(), v0.key_set(), visited.key_set());
            }
            let ghost k = visited.key_set();
            let res = self.check_data_rec_ty(&mem.types[i], visited);
            proof {
                assert(k.union(visited.key_set()) =~= visited.key_set());
                assert(tms[i as int] == te_model(mem.types@[i as int]));
            }
            match res {
                Err(e) => {
                    return Err(e);
                },
                Ok(b) => {
                    if b {
                        ret = true;
                    }
                },
            }
            i += 1;
        }
        Ok(ret)
    }

    /// Whether the type leads back to a data type already on the way: through the
    /// elements of a tuple or through a data type; lists and functions never do.
    pub fn check_data_rec_ty(&self, ty: &TypeExpr<'t>, visited: &mut StrMap<'t, ()>) -> (r: Result<bool, TypingErr<'t>>)
        requires
            self.wf(),
            old(visited).wf(),
        ensures
            final(visited).wf(),
            old(visited).key_set().subset_of(final(visited).key_set()),
            res_matches(r, rec_ty(self.data, te_model(*ty), old(visited).key_set()).0),
            final(visited).key_set() == rec_ty(self.data, te_model(*ty), old(visited).key_set()).1,
            !(*ty is TETuple || *ty is TEData) ==> r == Ok::<bool, TypingErr<'t>>(false) && *final(visited) == *old(visited),
        decreases self.unvisited(*old(visited)), 1nat, tuple_size(*ty),
    {
        match ty {
            TypeExpr::TETuple(tuple) => {
                let ghost v0 = *visited;
                let ghost tms = te_models(tuple.ty@);
                proof {
                    lemma_key_set_finite(&self.data);
                    assert(te_model(*ty)->Tuple_0 =~= tms);
                }
                let mut ret = false;
                let mut i: usize = 0;
                while i < tuple.ty.len()
                    invariant
                        self.wf(),
                        visited.wf(),
                        *ty == TypeExpr::TETuple(*tuple),
                        0 <= i <= tuple.ty@.len(),
                        v0 == *old(visited),
                        v0.key_set().subset_of(visited.key_set()),
                        self.data.key_set().finite(),
                        tms == te_models(tuple.ty@),
                        rec_ty(self.data, te_model(*ty), v0.key_set()) == rec_tys(self.data, tms, i as int, ret, visited.key_set()),
                    decreases tuple.ty@.len() - i,
                {
                    proof {
                        lemma_unvisited_mono(self.data.key_set(), v0.key_set(), visited.key_set());
                        let sizes = child_sizes(*tuple);
                        lemma_sum_ge(sizes, i as int);
                        assert(sizes[i as int] == tuple_size(tuple.ty@[i as int]));
                        assert(tuple_size(*ty) == 1 + sum_nat(sizes));
                        assert(tuple_size(tuple.ty@[i as int]) < tuple_size(*ty));
                    }
                    let ghost k = visited.key_set();
                    let res = self.check_data_rec_ty(&tuple.ty[i], visited);
                    proof {
                        assert(k.union(visited.key_set()) =~= visited.key_set());
                        assert(tms[i as int] == te_model(tuple.ty@[i as int]));
                    }
                    match res {
                        Err(e) => {
                            return Err(e);
                        },
                        Ok(b) => {
                            if b {
                                ret = true;
                            }
                        },
                    }
                    i += 1;
                }
                Ok(ret)
            },
            TypeExpr::TEData(data) => {
                proof {
                    assert(te_model(*ty)->Data_1 =~= te_models(data.type_args@));
                }
                let dt = self.type_data_node2data_type(data)?;
                self.check_data_rec_data(&dt, visited)
            },
            _ => Ok(false),
        }
    }

    /// Checks the data types, the labels, the recursion of data types and the declared
    /// types of the functions, then infers the types of the functions.
    pub fn typing(&mut self) -> (r: Result<(), TypingErr<'t>>)
        requires
            old(self).wf(),
        ensures
            r is Ok ==> forall|i: int| 0 <= i < old(self).data.values().len() ==> super::typing::data_def_ok(old(self).data, #[trigger] old(self).data.values()[i]),
            r is Ok ==> super::typing::all_labels(*old(self)).no_duplicates(),
            r is Ok ==> forall|i: int| 0 <= i < old(self).funs.values().len() ==>
                super::typing::def_type_ok(old(self).data, (#[trigger] old(self).funs.values()[i]).fun_type, Set::empty()),
            r is Ok ==> final(self).funs.key_set() == old(self).funs.key_set(),
            r is Ok ==> forall|k: Seq<char>| #[trigger] old(self).funs.has(k) ==>
                super::inference::defun_typed(old(self).funs.value_of(k), final(self).funs.value_of(k)),
            r is Ok ==> forall|k: Seq<char>| #[trigger] old(self).funs.has(k) ==>
                super::inference::body_checked(old(self).funs.value_of(k), final(self).funs.value_of(k)),
            !(forall|i: int| 0 <= i < old(self).data.values().len() ==> super::typing::data_def_ok(old(self).data, #[trigger] old(self).data.values()[i])) ==> r is Err,
            !(super::typing::all_labels(*old(self)).no_duplicates() && forall|l: Seq<char>|
                super::typing::all_labels(*old(self)).contains(l) ==> !old(self).label2data.has(l)) ==> r is Err,
            !(forall|i: int| 0 <= i < old(self).funs.values().len() ==>
                super::typing::def_type_ok(old(self).data, (#[trigger] old(self).funs.values()[i]).fun_type, Set::empty())) ==> r is Err,
            final(self).data == old(self).data,
            r is Ok ==> forall|i: int| 0 <= i < old(self).data.values().len() ==>
                #[trigger] rec_top(old(self).data, i) == Ok::<bool, RecErr<'t>>(false),
            r is Ok ==> forall|a: int, m: int| 0 <= a < old(self).data.values().len() && 0 <= m < old(self).data.values()[a].members@.len()
                ==> super::typing::label_maps_to(final(self).label2data, #[trigger] old(self).data.values()[a].members@[m], old(self).data.values()[a]),
    {
        self.check_data_def()?;
        self.check_label()?;
        self.check_data_rec()?;
        self.check_defun_type()?;
        self.typing_functions()?;
        Ok(())
    }
}

} // verus!
