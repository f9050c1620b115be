//! Applying substitutions to annotated expressions, and inferring types.
use super::ast::{
    string_from, DataType, DefVar, Effect, ErrMsg, IDNode, LangExpr, MatchCase, Pattern, TIDNode, TypeExpr,
};
use super::strmap::StrMap;
use super::types::{
    apply, con0, effect_type, sbst_view, spec_ty_fun, spec_ty_list, spec_ty_tuple, ty_bool, ty_fun_of, ty_int,
    ty_list, ty_tuple, ty_var, views, SType, Sbst, Tycon, Type, ID,
};
use super::typing::{type_arg_names, Context};
use crate::strs::str_eq;
use vstd::prelude::*;

verus! {

// ----- applying a substitution to the annotations of a tree -----

/// `b` is the annotation `a` with the substitution `s` applied.
pub open spec fn opt_applied(a: Option<Type>, b: Option<Type>, s: Map<ID, SType>) -> bool {
    match a {
        Some(x) => b matches Some(y) && y@ == apply(x@, s),
        None => b is None,
    }
}

/// `b` carries the name and the source of `a`, and a copy of its annotation.
pub open spec fn tid_kept(a: TIDNode, b: TIDNode) -> bool {
    b.id == a.id && b.ast == a.ast && opt_applied(a.ty, b.ty, Map::empty())
}

/// `b` carries the name and the source of `a`, and a copy of its annotation.
pub open spec fn id_kept(a: IDNode, b: IDNode) -> bool {
    b.id == a.id && b.ast == a.ast && opt_applied(a.ty, b.ty, Map::empty())
}

/// Applying the empty substitution changes nothing.
pub proof fn lemma_apply_empty(t: SType)
    ensures
        apply(t, Map::empty()) == t,
    decreases t,
{
    if let SType::Con(id, args) = t {
        assert forall|i: int| 0 <= i < args.len() implies apply(args[i], Map::empty()) == args[i] by {
            lemma_apply_empty(args[i]);
        }
        assert(apply(t, Map::empty())->Con_1 =~= args);
    }
}

/// An annotation is a copy of itself.
pub proof fn lemma_opt_kept(a: Option<Type>)
    ensures
        opt_applied(a, a, Map::empty()),
{
    if let Some(t) = a {
        lemma_apply_empty(t@);
    }
}

/// A copy of a copy is a copy.
pub proof fn lemma_opt_kept_trans(a: Option<Type>, b: Option<Type>, c: Option<Type>)
    requires
        opt_applied(a, b, Map::empty()),
        opt_applied(b, c, Map::empty()),
    ensures
        opt_applied(a, c, Map::empty()),
{
    if let Some(t) = a {
        lemma_apply_empty(t@);
        lemma_apply_empty(b->Some_0@);
        lemma_apply_empty(c->Some_0@);
    }
}

/// `b` is the pattern `a` with `s` applied to every type annotation in it.
pub open spec fn pat_applied(a: Pattern, b: Pattern, s: Map<ID, SType>) -> bool
    decreases a,
{
    match a {
        Pattern::PatNum(_) => b == a,
        Pattern::PatBool(_) => b == a,
        Pattern::PatID(x) => b matches Pattern::PatID(y) && y.id == x.id && y.ast == x.ast && opt_applied(x.ty, y.ty, s),
        Pattern::PatTuple(x) => b matches Pattern::PatTuple(y) && y.ast == x.ast && opt_applied(x.ty, y.ty, s)
            && y.pattern@.len() == x.pattern@.len()
            && forall|i: int| 0 <= i < x.pattern@.len() ==> pat_applied(#[trigger] x.pattern@[i], y.pattern@[i], s),
        Pattern::PatData(x) => b matches Pattern::PatData(y) && y.ast == x.ast && tid_kept(x.label, y.label)
            && opt_applied(x.ty, y.ty, s) && y.pattern@.len() == x.pattern@.len()
            && forall|i: int| 0 <= i < x.pattern@.len() ==> pat_applied(#[trigger] x.pattern@[i], y.pattern@[i], s),
        Pattern::PatNil(x) => b matches Pattern::PatNil(y) && y.ast == x.ast && opt_applied(x.ty, y.ty, s),
    }
}

/// `b` is the expression `a` with `s` applied to its type annotations: those of every
/// subexpression, pattern, binding and case, but not the one of a `match` node itself.
pub open spec fn lang_applied(a: LangExpr, b: LangExpr, s: Map<ID, SType>) -> bool
    decreases a,
{
    match a {
        LangExpr::IfExpr(x) => b matches LangExpr::IfExpr(y) && y.ast == x.ast && opt_applied(x.ty, y.ty, s)
            && lang_applied(x.cond_expr, y.cond_expr, s) && lang_applied(x.then_expr, y.then_expr, s)
            && lang_applied(x.else_expr, y.else_expr, s),
        LangExpr::LetExpr(x) => b matches LangExpr::LetExpr(y) && y.ast == x.ast && opt_applied(x.ty, y.ty, s)
            && lang_applied(x.expr, y.expr, s) && y.def_vars@.len() == x.def_vars@.len()
            && forall|i: int| 0 <= i < x.def_vars@.len() ==> {
                &&& pat_applied(#[trigger] x.def_vars@[i].pattern, y.def_vars@[i].pattern, s)
                &&& lang_applied(x.def_vars@[i].expr, y.def_vars@[i].expr, s)
                &&& y.def_vars@[i].ast == x.def_vars@[i].ast
                &&& opt_applied(x.def_vars@[i].ty, y.def_vars@[i].ty, s)
            },
        LangExpr::LitNum(_) => b == a,
        LangExpr::LitBool(_) => b == a,
        LangExpr::IDExpr(x) => b matches LangExpr::IDExpr(y) && y.id == x.id && y.ast == x.ast && opt_applied(x.ty, y.ty, s),
        LangExpr::DataExpr(x) => b matches LangExpr::DataExpr(y) && y.ast == x.ast && tid_kept(x.label, y.label)
            && opt_applied(x.ty, y.ty, s) && y.exprs@.len() == x.exprs@.len()
            && forall|i: int| 0 <= i < x.exprs@.len() ==> lang_applied(#[trigger] x.exprs@[i], y.exprs@[i], s),
        LangExpr::MatchExpr(x) => b matches LangExpr::MatchExpr(y) && y.ast == x.ast && opt_applied(x.ty, y.ty, Map::empty())
            && lang_applied(x.expr, y.expr, s) && y.cases@.len() == x.cases@.len()
            && forall|i: int| 0 <= i < x.cases@.len() ==> {
                &&& pat_applied(#[trigger] x.cases@[i].pattern, y.cases@[i].pattern, s)
                &&& lang_applied(x.cases@[i].expr, y.cases@[i].expr, s)
                &&& y.cases@[i].ast == x.cases@[i].ast
                &&& opt_applied(x.cases@[i].ty, y.cases@[i].ty, s)
            },
        LangExpr::ApplyExpr(x) => b matches LangExpr::ApplyExpr(y) && y.ast == x.ast && opt_applied(x.ty, y.ty, s)
            && y.exprs@.len() == x.exprs@.len()
            && forall|i: int| 0 <= i < x.exprs@.len() ==> lang_applied(#[trigger] x.exprs@[i], y.exprs@[i], s),
        LangExpr::ListExpr(x) => b matches LangExpr::ListExpr(y) && y.ast == x.ast && opt_applied(x.ty, y.ty, s)
            && y.exprs@.len() == x.exprs@.len()
            && forall|i: int| 0 <= i < x.exprs@.len() ==> lang_applied(#[trigger] x.exprs@[i], y.exprs@[i], s),
        LangExpr::TupleExpr(x) => b matches LangExpr::TupleExpr(y) && y.ast == x.ast && opt_applied(x.ty, y.ty, s)
            && y.exprs@.len() == x.exprs@.len()
            && forall|i: int| 0 <= i < x.exprs@.len() ==> lang_applied(#[trigger] x.exprs@[i], y.exprs@[i], s),
    }
}

/// The annotation with the substitution applied.
fn app_opt(opty: &Option<Type>, sbst: &Sbst) -> (r: Option<Type>)
    ensures
        opt_applied(*opty, r, sbst_view(sbst@)),
{
    match opty {
        Some(t) => Some(t.apply_sbst(sbst)),
        None => None,
    }
}

fn apply_pats<'t>(v: &mut Vec<Pattern<'t>>, sbst: &Sbst)
    ensures
        final(v)@.len() == old(v)@.len(),
        forall|i: int| 0 <= i < old(v)@.len() ==> pat_applied(#[trigger] old(v)@[i], final(v)@[i], sbst_view(sbst@)),
    decreases old(v)@, 0nat,
{
    let ghost orig = v@;
    let mut i: usize = 0;
    while i < v.len()
        invariant
            v@.len() == orig.len(),
            0 <= i <= orig.len(),
            orig == old(v)@,
            forall|j: int| 0 <= j < i ==> pat_applied(#[trigger] orig[j], v@[j], sbst_view(sbst@)),
            forall|j: int| i <= j < orig.len() ==> v@[j] == orig[j],
        decreases orig.len() - i,
    {
        proof {
            assert(v@[i as int] == orig[i as int]);
            assert(decreases_to!(orig => v@[i as int]));
        }
        v[i].apply_sbst(sbst);
        i += 1;
    }
}

impl<'t> Pattern<'t> {
    /// Applies the substitution to every type annotation of the pattern.
    pub fn apply_sbst(&mut self, sbst: &Sbst)
        ensures
            pat_applied(*old(self), *final(self), sbst_view(sbst@)),
        decreases *old(self), 1nat,
    {
        match self {
            Pattern::PatID(e) => {
                e.ty = app_opt(&e.ty, sbst);
            },
            Pattern::PatTuple(e) => {
                apply_pats(&mut e.pattern, sbst);
                e.ty = app_opt(&e.ty, sbst);
            },
            Pattern::PatData(e) => {
                proof { lemma_opt_kept(e.label.ty); }
                apply_pats(&mut e.pattern, sbst);
                e.ty = app_opt(&e.ty, sbst);
            },
            Pattern::PatNil(e) => {
                e.ty = app_opt(&e.ty, sbst);
            },
            _ => {},
        }
    }
}

fn apply_exprs<'t>(v: &mut Vec<LangExpr<'t>>, sbst: &Sbst)
    ensures
        final(v)@.len() == old(v)@.len(),
        forall|i: int| 0 <= i < old(v)@.len() ==> lang_applied(#[trigger] old(v)@[i], final(v)@[i], sbst_view(sbst@)),
    decreases old(v)@, 0nat,
{
    let ghost orig = v@;
    let mut i: usize = 0;
    while i < v.len()
        invariant
            v@.len() == orig.len(),
            0 <= i <= orig.len(),
            orig == old(v)@,
            forall|j: int| 0 <= j < i ==> lang_applied(#[trigger] orig[j], v@[j], sbst_view(sbst@)),
            forall|j: int| i <= j < orig.len() ==> v@[j] == orig[j],
        decreases orig.len() - i,
    {
        proof {
            assert(v@[i as int] == orig[i as int]);
            assert(decreases_to!(orig => v@[i as int]));
        }
        v[i].apply_sbst(sbst);
        i += 1;
    }
}

fn apply_def_vars<'t>(v: &mut Vec<DefVar<'t>>, sbst: &Sbst)
    ensures
        final(v)@.len() == old(v)@.len(),
        forall|i: int| 0 <= i < old(v)@.len() ==> {
            &&& pat_applied(#[trigger] old(v)@[i].pattern, final(v)@[i].pattern, sbst_view(sbst@))
            &&& lang_applied(old(v)@[i].expr, final(v)@[i].expr, sbst_view(sbst@))
            &&& final(v)@[i].ast == old(v)@[i].ast
            &&& opt_applied(old(v)@[i].ty, final(v)@[i].ty, sbst_view(sbst@))
        },
    decreases old(v)@, 0nat,
{
    let ghost orig = v@;
    let mut i: usize = 0;
    while i < v.len()
        invariant
            v@.len() == orig.len(),
            0 <= i <= orig.len(),
            orig == old(v)@,
            forall|j: int| 0 <= j < i ==> {
                &&& pat_applied(#[trigger] orig[j].pattern, v@[j].pattern, sbst_view(sbst@))
                &&& lang_applied(orig[j].expr, v@[j].expr, sbst_view(sbst@))
                &&& v@[j].ast == orig[j].ast
                &&& opt_applied(orig[j].ty, v@[j].ty, sbst_view(sbst@))
            },
            forall|j: int| i <= j < orig.len() ==> v@[j] == orig[j],
        decreases orig.len() - i,
    {
        proof {
            assert(v@[i as int] == orig[i as int]);
            assert(decreases_to!(orig => v@[i as int]));
            assert(decreases_to!(v@[i as int] => v@[i as int].expr));
        }
        let dv = &mut v[i];
        dv.pattern.apply_sbst(sbst);
        dv.expr.apply_sbst(sbst);
        dv.ty = app_opt(&dv.ty, sbst);
        i += 1;
    }
}

fn apply_cases<'t>(v: &mut Vec<MatchCase<'t>>, sbst: &Sbst)
    ensures
        final(v)@.len() == old(v)@.len(),
        forall|i: int| 0 <= i < old(v)@.len() ==> {
            &&& pat_applied(#[trigger] old(v)@[i].pattern, final(v)@[i].pattern, sbst_view(sbst@))
            &&& lang_applied(old(v)@[i].expr, final(v)@[i].expr, sbst_view(sbst@))
            &&& final(v)@[i].ast == old(v)@[i].ast
            &&& opt_applied(old(v)@[i].ty, final(v)@[i].ty, sbst_view(sbst@))
        },
    decreases old(v)@, 0nat,
{
    let ghost orig = v@;
    let mut i: usize = 0;
    while i < v.len()
        invariant
            v@.len() == orig.len(),
            0 <= i <= orig.len(),
            orig == old(v)@,
            forall|j: int| 0 <= j < i ==> {
                &&& pat_applied(#[trigger] orig[j].pattern, v@[j].pattern, sbst_view(sbst@))
                &&& lang_applied(orig[j].expr, v@[j].expr, sbst_view(sbst@))
                &&& v@[j].ast == orig[j].ast
                &&& opt_applied(orig[j].ty, v@[j].ty, sbst_view(sbst@))
            },
            forall|j: int| i <= j < orig.len() ==> v@[j] == orig[j],
        decreases orig.len() - i,
    {
        proof {
            assert(v@[i as int] == orig[i as int]);
            assert(decreases_to!(orig => v@[i as int]));
            assert(decreases_to!(v@[i as int] => v@[i as int].expr));
        }
        let cs = &mut v[i];
        cs.pattern.apply_sbst(sbst);
        cs.expr.apply_sbst(sbst);
        cs.ty = app_opt(&cs.ty, sbst);
        i += 1;
    }
}

impl<'t> LangExpr<'t> {
    /// Applies the substitution to the type annotations of the expression, its
    /// subexpressions, patterns, bindings and cases (a `match` node keeps its own).
    pub fn apply_sbst(&mut self, sbst: &Sbst)
        ensures
            lang_applied(*old(self), *final(self), sbst_view(sbst@)),
        decreases *old(self), 1nat,
    {
        match self {
            LangExpr::IfExpr(e) => {
                e.cond_expr.apply_sbst(sbst);
                e.then_expr.apply_sbst(sbst);
                e.else_expr.apply_sbst(sbst);
                e.ty = app_opt(&e.ty, sbst);
            },
            LangExpr::LetExpr(e) => {
                apply_def_vars(&mut e.def_vars, sbst);
                e.expr.apply_sbst(sbst);
                e.ty = app_opt(&e.ty, sbst);
            },
            LangExpr::LitNum(_) => {},
            LangExpr::LitBool(_) => {},
            LangExpr::IDExpr(e) => {
                e.ty = app_opt(&e.ty, sbst);
            },
            LangExpr::DataExpr(e) => {
                proof { lemma_opt_kept(e.label.ty); }
                apply_exprs(&mut e.exprs, sbst);
                e.ty = app_opt(&e.ty, sbst);
            },
            LangExpr::MatchExpr(e) => {
                proof { lemma_opt_kept(e.ty); }
                e.expr.apply_sbst(sbst);
                apply_cases(&mut e.cases, sbst);
            },
            LangExpr::ApplyExpr(e) => {
                apply_exprs(&mut e.exprs, sbst);
                e.ty = app_opt(&e.ty, sbst);
            },
            LangExpr::ListExpr(e) => {
                apply_exprs(&mut e.exprs, sbst);
                e.ty = app_opt(&e.ty, sbst);
            },
            LangExpr::TupleExpr(e) => {
                apply_exprs(&mut e.exprs, sbst);
                e.ty = app_opt(&e.ty, sbst);
            },
        }
    }
}


// ----- the types of data constructors -----

/// `n` advanced by `k` steps of wrapping increment.
pub open spec fn wrap_add(n: u64, k: int) -> u64 {
    ((n + k) % 0x1_0000_0000_0000_0000) as u64
}

proof fn lemma_wrap_step(n0: u64, a: int, b: int)
    requires
        0 <= a,
        0 <= b < 0x1_0000_0000_0000_0000,
    ensures
        vstd::wrapping::u64_specs::wrapping_add(b as u64, wrap_add(n0, a)) == wrap_add(n0, a + b),
{
    let m: int = 0x1_0000_0000_0000_0000;
    vstd::arithmetic::div_mod::lemma_add_mod_noop_right(b, n0 + a, m);
    vstd::arithmetic::div_mod::lemma_small_mod(b as nat, m as nat);
}

/// The model of a map from type variable names to types.
pub open spec fn tv_model<'t>(tv: StrMap<'t, Type>) -> Map<Seq<char>, SType> {
    Map::new(|k: Seq<char>| tv.has(k), |k: Seq<char>| tv.value_of(k)@)
}

/// `te` names no type variable outside `vs`.
pub open spec fn tv_ok(te: TypeExpr, vs: Set<Seq<char>>) -> bool
    decreases te,
{
    match te {
        TypeExpr::TEBool(_) => true,
        TypeExpr::TEInt(_) => true,
        TypeExpr::TEList(l) => tv_ok(*l.ty, vs),
        TypeExpr::TETuple(t) => forall|i: int| 0 <= i < t.ty@.len() ==> tv_ok(#[trigger] t.ty@[i], vs),
        TypeExpr::TEFun(f) => (forall|i: int| 0 <= i < f.args@.len() ==> tv_ok(#[trigger] f.args@[i], vs)) && tv_ok(*f.ret, vs),
        TypeExpr::TEData(d) => forall|i: int| 0 <= i < d.type_args@.len() ==> tv_ok(#[trigger] d.type_args@[i], vs),
        TypeExpr::TEID(id) => vs.contains(id.id@),
    }
}

/// The type that `te` denotes when each of its type variables stands for its type in `m`.
pub open spec fn tv_type(te: TypeExpr, m: Map<Seq<char>, SType>) -> SType
    decreases te,
{
    match te {
        TypeExpr::TEBool(_) => con0("Bool"@),
        TypeExpr::TEInt(_) => con0("Int"@),
        TypeExpr::TEList(l) => spec_ty_list(tv_type(*l.ty, m)),
        TypeExpr::TETuple(t) => spec_ty_tuple(
            Seq::new(t.ty@.len(), |i: int| if 0 <= i < t.ty@.len() { tv_type(t.ty@[i], m) } else { SType::Var(0) }),
        ),
        TypeExpr::TEFun(f) => spec_ty_fun(
            effect_type(f.effect == Effect::Pure),
            Seq::new(f.args@.len(), |i: int| if 0 <= i < f.args@.len() { tv_type(f.args@[i], m) } else { SType::Var(0) }),
            tv_type(*f.ret, m),
        ),
        TypeExpr::TEData(d) => SType::Con(
            d.id.id@,
            Seq::new(d.type_args@.len(), |i: int| if 0 <= i < d.type_args@.len() { tv_type(d.type_args@[i], m) } else { SType::Var(0) }),
        ),
        TypeExpr::TEID(id) => m[id.id@],
    }
}

/// The fresh type variables that stand for the type arguments of `d` when the counter
/// of type variables is at `n0`.
pub open spec fn fresh_vars(d: DataType, n0: u64) -> Seq<SType> {
    Seq::new(d.name.type_args@.len(), |i: int| SType::Var(wrap_add(n0, 2 * i)))
}

/// The last position of `k` in `names`.
pub open spec fn last_index(names: Seq<Seq<char>>, k: Seq<char>) -> int {
    choose|j: int| 0 <= j < names.len() && names[j] == k && forall|j2: int| j < j2 < names.len() ==> names[j2] != k
}

/// Each name stands for the variable at its last position.
pub open spec fn fresh_map(names: Seq<Seq<char>>, vars: Seq<SType>) -> Map<Seq<char>, SType> {
    Map::new(|k: Seq<char>| names.contains(k), |k: Seq<char>| vars[last_index(names, k)])
}

/// Whether `d` has a member named `label`.
pub open spec fn has_member(d: DataType, label: Seq<char>) -> bool {
    exists|m: int| 0 <= m < d.members@.len() && (#[trigger] d.members@[m]).id.id@ == label
}

/// The position of the first member of `d` named `label`.
pub open spec fn first_member(d: DataType, label: Seq<char>) -> int {
    choose|m: int| 0 <= m < d.members@.len() && (#[trigger] d.members@[m]).id.id@ == label
        && forall|m2: int| 0 <= m2 < m ==> d.members@[m2].id.id@ != label
}

/// The last position of a name is the one after which it does not occur.
pub proof fn lemma_last_index(names: Seq<Seq<char>>, k: Seq<char>, j: int)
    requires
        0 <= j < names.len(),
        names[j] == k,
        forall|j2: int| j < j2 < names.len() ==> names[j2] != k,
    ensures
        last_index(names, k) == j,
{
    let c = last_index(names, k);
    if c < j {
        assert(names[j] == k);
    } else if c > j {
        assert(names[c] == k);
    }
}

impl<'t> Context<'t> {
    /// The type of a type expression of a data definition, when the type variables of
    /// the definition stand for the types in `tv2type`.
    pub fn apply_tv2type_to_type_expr(&self, type_expr: &TypeExpr<'t>, tv2type: &StrMap<'t, Type>) -> (r: Result<Type, ErrMsg>)
        requires
            tv2type.wf(),
        ensures
            r is Ok <==> tv_ok(*type_expr, tv2type.key_set()),
            r matches Ok(t) ==> t@ == tv_type(*type_expr, tv_model(*tv2type)),
            r matches Err(e) ==> (e matches ErrMsg::TypeVarUndefined(n) && !tv2type.has(n@)),
        decreases type_expr,
    {
        match type_expr {
            TypeExpr::TEBool(_) => Ok(ty_bool()),
            TypeExpr::TEInt(_) => Ok(ty_int()),
            TypeExpr::TEList(list) => {
                proof {
                    assert(decreases_to!(*type_expr => type_expr->TEList_0));
                    assert(decreases_to!(type_expr->TEList_0 => *type_expr->TEList_0.ty));
                }
                let t = self.apply_tv2type_to_type_expr(&list.ty, tv2type)?;
                Ok(ty_list(t))
            },
            TypeExpr::TETuple(tuple) => {
                let mut v: Vec<Type> = Vec::new();
                let mut i: usize = 0;
                while i < tuple.ty.len()
                    invariant
                        *type_expr == TypeExpr::TETuple(*tuple),
                        tv2type.wf(),
                        0 <= i <= tuple.ty@.len(),
                        v@.len() == i,
                        forall|j: int| 0 <= j < i ==> tv_ok(#[trigger] tuple.ty@[j], tv2type.key_set()),
                        forall|j: int| 0 <= j < i ==> (#[trigger] v@[j])@ == tv_type(tuple.ty@[j], tv_model(*tv2type)),
                    decreases tuple.ty@.len() - i,
                {
                    proof {
                        assert(decreases_to!(*type_expr => type_expr->TETuple_0));
                        assert(decreases_to!(type_expr->TETuple_0 => type_expr->TETuple_0.ty));
                        assert(decreases_to!(type_expr->TETuple_0.ty => type_expr->TETuple_0.ty@));
                    }
                    let t = self.apply_tv2type_to_type_expr(&tuple.ty[i], tv2type)?;
                    v.push(t);
                    i += 1;
                }
                let ghost vv = v@;
                let r = ty_tuple(v);
                assert(views(vv) =~= tv_type(*type_expr, tv_model(*tv2type))->Con_1);
                Ok(r)
            },
            TypeExpr::TEFun(fun) => {
                let mut args: Vec<Type> = Vec::new();
                let mut i: usize = 0;
                while i < fun.args.len()
                    invariant
                        *type_expr == TypeExpr::TEFun(*fun),
                        tv2type.wf(),
                        0 <= i <= fun.args@.len(),
                        args@.len() == i,
                        forall|j: int| 0 <= j < i ==> tv_ok(#[trigger] fun.args@[j], tv2type.key_set()),
                        forall|j: int| 0 <= j < i ==> (#[trigger] args@[j])@ == tv_type(fun.args@[j], tv_model(*tv2type)),
                    decreases fun.args@.len() - i,
                {
                    proof {
                        assert(decreases_to!(*type_expr => type_expr->TEFun_0));
                        assert(decreases_to!(type_expr->TEFun_0 => type_expr->TEFun_0.args));
                        assert(decreases_to!(type_expr->TEFun_0.args => type_expr->TEFun_0.args@));
                    }
                    let t = self.apply_tv2type_to_type_expr(&fun.args[i], tv2type)?;
                    args.push(t);
                    i += 1;
                }
                proof {
                    assert(decreases_to!(*type_expr => type_expr->TEFun_0));
                    assert(decreases_to!(type_expr->TEFun_0 => *type_expr->TEFun_0.ret));
                }
                let ghost av = args@;
                let ret = self.apply_tv2type_to_type_expr(&fun.ret, tv2type)?;
                let r = ty_fun_of(fun.effect == Effect::Pure, args, ret);
                assert(views(av) =~= tv_type(*type_expr, tv_model(*tv2type))->Con_1[1]->Con_1);
                assert(r@->Con_1 =~= tv_type(*type_expr, tv_model(*tv2type))->Con_1);
                Ok(r)
            },
            TypeExpr::TEData(data) => {
                let mut v: Vec<Type> = Vec::new();
                let mut i: usize = 0;
                while i < data.type_args.len()
                    invariant
                        *type_expr == TypeExpr::TEData(*data),
                        tv2type.wf(),
                        0 <= i <= data.type_args@.len(),
                        v@.len() == i,
                        forall|j: int| 0 <= j < i ==> tv_ok(#[trigger] data.type_args@[j], tv2type.key_set()),
                        forall|j: int| 0 <= j < i ==> (#[trigger] v@[j])@ == tv_type(data.type_args@[j], tv_model(*tv2type)),
                    decreases data.type_args@.len() - i,
                {
                    proof {
                        assert(decreases_to!(*type_expr => type_expr->TEData_0));
                        assert(decreases_to!(type_expr->TEData_0 => type_expr->TEData_0.type_args));
                        assert(decreases_to!(type_expr->TEData_0.type_args => type_expr->TEData_0.type_args@));
                    }
                    let t = self.apply_tv2type_to_type_expr(&data.type_args[i], tv2type)?;
                    v.push(t);
                    i += 1;
                }
                let r = Type::TCon(Tycon { id: string_from(data.id.id), args: v });
                assert(r@->Con_1 =~= tv_type(*type_expr, tv_model(*tv2type))->Con_1);
                Ok(r)
            },
            TypeExpr::TEID(id) => {
                match tv2type.get(id.id) {
                    Some(t) => Ok(t.clone()),
                    None => Err(ErrMsg::TypeVarUndefined(string_from(id.id))),
                }
            },
        }
    }
}

/// What looking up the types of label `label` of data type `d`, named `dn`, gives when
/// the counter of type variables is at `n0`.
pub open spec fn label_typed(d: DataType, dn: Seq<char>, label: Seq<char>, n0: u64, r: Result<(Type, Vec<Type>), ErrMsg>) -> bool {
    if !has_member(d, label) {
        r matches Err(ErrMsg::NoLabel(n)) && n@ == label
    } else {
        let mem = d.members@[first_member(d, label)];
        let names = type_arg_names(d);
        if forall|t: int| 0 <= t < mem.types@.len() ==> tv_ok(#[trigger] mem.types@[t], names.to_set()) {
            &&& r matches Ok((dt, lts))
            &&& dt@ == SType::Con(dn, fresh_vars(d, n0))
            &&& lts@.len() == mem.types@.len()
            &&& forall|t: int| 0 <= t < mem.types@.len() ==> (#[trigger] lts@[t])@ == tv_type(mem.types@[t], fresh_map(names, fresh_vars(d, n0)))
        } else {
            r matches Err(ErrMsg::TypeVarUndefined(n)) && !names.contains(n@)
        }
    }
}

impl<'t> Context<'t> {
    /// The type of the data type that label `label` builds, with fresh type variables
    /// for its type arguments, and the types of the label's elements.
    #[verifier::loop_isolation(false)]
    pub fn get_type_of_label(&self, label: &'t str, num_tv: &mut ID) -> (r: Result<(Type, Vec<Type>), ErrMsg>)
        requires
            self.label2data.wf(),
            self.data.wf(),
        ensures
            !self.label2data.has(label@) ==> (r matches Err(ErrMsg::NotDefined(n)) && n@ == label@) && *final(num_tv) == *old(num_tv),
            self.label2data.has(label@) && !self.data.has(self.label2data.value_of(label@)@) ==>
                (r matches Err(ErrMsg::NoDataOfLabel(n)) && n@ == label@) && *final(num_tv) == *old(num_tv),
            self.label2data.has(label@) && self.data.has(self.label2data.value_of(label@)@) ==> {
                let dn = self.label2data.value_of(label@)@;
                let d = self.data.value_of(dn);
                &&& label_typed(d, dn, label@, *old(num_tv), r)
                &&& *final(num_tv) == wrap_add(*old(num_tv), d.name.type_args@.len() as int)
            },
    {
        let ghost n0 = *num_tv;
        let data_name: &'t str = match self.label2data.get(label) {
            Some(n) => *n,
            None => {
                return Err(ErrMsg::NotDefined(string_from(label)));
            },
        };
        let data_node = match self.data.get(data_name) {
            Some(n) => n,
            None => {
                return Err(ErrMsg::NoDataOfLabel(string_from(label)));
            },
        };
        let ghost d = *data_node;
        let ghost names = type_arg_names(d);
        let ghost vars = fresh_vars(d, n0);
        assert(d == self.data.value_of(data_name@));

        // fresh type variables for the type arguments
        let mut types: Vec<Type> = Vec::new();
        let mut i: usize = 0;
        while i < data_node.name.type_args.len()
            invariant
                0 <= i <= d.name.type_args@.len(),
                *data_node == d,
                types@.len() == i,
                *num_tv == wrap_add(n0, i as int),
                forall|j: int| 0 <= j < i ==> (#[trigger] types@[j])@ == SType::Var(wrap_add(n0, 2 * j)),
            decreases d.name.type_args@.len() - i,
        {
            proof {
                lemma_wrap_step(n0, i as int, i as int);
                lemma_wrap_step(n0, i as int, 1);
            }
            types.push(ty_var((i as u64).wrapping_add(*num_tv)));
            *num_tv = (*num_tv).wrapping_add(1);
            i += 1;
        }

        // the type that each type argument stands for
        let mut tv2type: StrMap<'t, Type> = StrMap::new();
        let mut i: usize = 0;
        while i < types.len()
            invariant
                0 <= i <= types@.len(),
                types@.len() == d.name.type_args@.len(),
                *data_node == d,
                names == type_arg_names(d),
                tv2type.wf(),
                forall|j: int| 0 <= j < types@.len() ==> (#[trigger] types@[j])@ == vars[j],
                forall|k: Seq<char>| #[trigger] tv2type.has(k) ==> exists|j: int| 0 <= j < i && names[j] == k
                    && (forall|j2: int| j < j2 < i ==> names[j2] != k) && tv2type.value_of(k)@ == vars[j],
                forall|j: int| 0 <= j < i ==> tv2type.has(#[trigger] names[j]),
            decreases types@.len() - i,
        {
            let ghost before = tv2type;
            tv2type.insert(data_node.name.type_args[i].id, types[i].clone());
            proof {
                assert(names[i as int] == d.name.type_args@[i as int].id@);
                assert forall|k: Seq<char>| #[trigger] tv2type.has(k) implies exists|j: int| 0 <= j < i + 1 && names[j] == k
                    && (forall|j2: int| j < j2 < i + 1 ==> names[j2] != k) && tv2type.value_of(k)@ == vars[j] by {
                    if k == names[i as int] {
                        assert(0 <= i < i + 1 && names[i as int] == k);
                    } else {
                        assert(before.has(k));
                        let j = choose|j: int| 0 <= j < i && names[j] == k
                            && (forall|j2: int| j < j2 < i ==> names[j2] != k) && before.value_of(k)@ == vars[j];
                        assert(0 <= j < i + 1 && names[j] == k);
                    }
                }
                assert forall|j: int| 0 <= j < i + 1 implies tv2type.has(#[trigger] names[j]) by {
                    if j < i && names[j] != names[i as int] {
                        assert(before.has(names[j]));
                    }
                }
            }
            i += 1;
        }
        proof {
            assert(tv2type.key_set() =~= names.to_set()) by {
                assert forall|k: Seq<char>| tv2type.key_set().contains(k) implies names.to_set().contains(k) by {
                    let j = choose|j: int| 0 <= j < types@.len() && names[j] == k
                        && (forall|j2: int| j < j2 < types@.len() ==> names[j2] != k) && tv2type.value_of(k)@ == vars[j];
                    assert(names.contains(k));
                }
                assert forall|k: Seq<char>| names.to_set().contains(k) implies tv2type.key_set().contains(k) by {
                    let j = choose|j: int| 0 <= j < names.len() && names[j] == k;
                    assert(tv2type.has(names[j]));
                }
            }
            assert(tv_model(tv2type) =~= fresh_map(names, vars)) by {
                assert forall|k: Seq<char>| #[trigger] tv2type.has(k) implies tv_model(tv2type)[k] == fresh_map(names, vars)[k] by {
                    let j = choose|j: int| 0 <= j < types@.len() && names[j] == k
                        && (forall|j2: int| j < j2 < types@.len() ==> names[j2] != k) && tv2type.value_of(k)@ == vars[j];
                    lemma_last_index(names, k, j);
                    assert(names.contains(k));
                }
                assert forall|k: Seq<char>| names.contains(k) implies tv2type.has(k) by {
                    let j = choose|j: int| 0 <= j < names.len() && names[j] == k;
                    assert(tv2type.has(names[j]));
                }
            }
        }

        // the member named `label`
        let mut found: Option<usize> = None;
        let mut m: usize = 0;
        while found.is_none() && m < data_node.members.len()
            invariant
                0 <= m <= d.members@.len(),
                *data_node == d,
                found is None ==> forall|m2: int| 0 <= m2 < m ==> d.members@[m2].id.id@ != label@,
                found matches Some(f) ==> f < d.members@.len() && d.members@[f as int].id.id@ == label@
                    && forall|m2: int| 0 <= m2 < f ==> d.members@[m2].id.id@ != label@,
            decreases d.members@.len() - m + (if found is None { 1int } else { 0int }),
        {
            if str_eq(data_node.members[m].id.id, label) {
                found = Some(m);
            } else {
                m += 1;
            }
        }
        match found {
            Some(f) => {
                let mem = &data_node.members[f];
                proof {
                    assert(f < d.members@.len());
                    assert(d.members@[f as int].id.id@ == label@);
                    assert(forall|m2: int| 0 <= m2 < f ==> d.members@[m2].id.id@ != label@);
                    assert(has_member(d, label@));
                    let c = first_member(d, label@);
                    if c < f as int {
                        assert(d.members@[c].id.id@ == label@);
                    } else if c > f as int {
                        assert(d.members@[f as int].id.id@ == label@);
                    }
                    assert(c == f);
                }
                let mut label_types: Vec<Type> = Vec::new();
                let mut t: usize = 0;
                while t < mem.types.len()
                    invariant
                        0 <= t <= mem.types@.len(),
                        tv2type.wf(),
                        tv2type.key_set() == names.to_set(),
                        tv_model(tv2type) == fresh_map(names, vars),
                        label_types@.len() == t,
                        forall|u: int| 0 <= u < t ==> tv_ok(#[trigger] mem.types@[u], names.to_set()),
                        forall|u: int| 0 <= u < t ==> (#[trigger] label_types@[u])@ == tv_type(mem.types@[u], fresh_map(names, vars)),
                    decreases mem.types@.len() - t,
                {
                    let lt = self.apply_tv2type_to_type_expr(&mem.types[t], &tv2type);
                    match lt {
                        Ok(ty) => {
                            label_types.push(ty);
                        },
                        Err(e) => {
                            assert(e matches ErrMsg::TypeVarUndefined(n) && !names.to_set().contains(n@));
                            return Err(e);
                        },
                    }
                    t += 1;
                }
                let ghost tv = types@;
                let data_type = Type::TCon(Tycon { id: string_from(data_name), args: types });
                assert(data_type@->Con_1 =~= vars);
                Ok((data_type, label_types))
            },
            None => {
                Err(ErrMsg::NoLabel(string_from(label)))
            },
        }
    }
}

} // verus!
