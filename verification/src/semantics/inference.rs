//! Inferring the types of expressions and patterns.
use super::ast::{
    string_from, texpr_type, wf_lang, DataNode, DefVar, Defun, Effect, ErrMsg, Exprs, IDNode, IfNode, LangExpr, LetNode, MatchCase, MatchNode,
    PatDataNode, PatNilNode, PatTupleNode, Pattern, TypeExpr, TypingErr,
};
use super::copies::{defun_kept, te_kept};
use super::infer::{fresh_vars, id_kept, label_typed, lang_applied, opt_applied, pat_applied, wrap_add};
use super::strmap::StrMap;
use super::types::{
    apply, composed, unifies, spec_ty_fun, effect_type, lemma_apply_compose, lemma_apply_untouched, con0, compose, sbst_view, spec_ty_list, spec_ty_tuple, ty_bool, ty_fun_gen_effect, ty_fun_of, ty_int,
    ty_list, ty_tuple, ty_var, unify, views, SType, Sbst, Type, ID,
};
use super::typing::{stack_get, Context, VarType};
use vstd::prelude::*;

verus! {

// ----- what a successful inference leaves behind -----

/// The type annotation of an expression node; literals carry none.
pub open spec fn lang_ty(e: LangExpr) -> Option<Type> {
    match e {
        LangExpr::IfExpr(x) => x.ty,
        LangExpr::LetExpr(x) => x.ty,
        LangExpr::LitNum(_) => None,
        LangExpr::LitBool(_) => None,
        LangExpr::IDExpr(x) => x.ty,
        LangExpr::DataExpr(x) => x.ty,
        LangExpr::MatchExpr(x) => x.ty,
        LangExpr::ApplyExpr(x) => x.ty,
        LangExpr::ListExpr(x) => x.ty,
        LangExpr::TupleExpr(x) => x.ty,
    }
}

/// `e` has type `t`: a literal by its kind, any other node by its annotation.
pub open spec fn annotated(e: LangExpr, t: SType) -> bool {
    match e {
        LangExpr::LitNum(_) => t == con0("Int"@),
        LangExpr::LitBool(_) => t == con0("Bool"@),
        _ => lang_ty(e) matches Some(x) && x@ == t,
    }
}

/// Some substitution makes `a` and `b` one type.
pub open spec fn unifiable(a: SType, b: SType) -> bool {
    exists|th: Map<ID, SType>| #[trigger] unifies(th, a, b)
}

/// The typing rule of `(if c e1 e2)` as the annotations show it: the condition has a type
/// that can be made `Bool`, the branches have types that can be made one, and the node's
/// type `t` is the type of the first branch under the substitution `s`.
pub open spec fn if_rule(x: IfNode, t: SType, s: Sbst) -> bool {
    exists|c: SType, a: SType, b: SType| #![trigger annotated(x.cond_expr, c), annotated(x.then_expr, a), annotated(x.else_expr, b)]
        annotated(x.cond_expr, c) && annotated(x.then_expr, a) && annotated(x.else_expr, b)
        && unifiable(con0("Bool"@), c) && unifiable(a, b) && t == apply(a, sbst_view(s@))
}

/// The typing rule of a binding `(p e)` as the annotations show it: the types of `e` and
/// of `p` can be made one.
pub open spec fn defvar_rule(d: DefVar) -> bool {
    exists|a: SType, b: SType| #![trigger annotated(d.expr, a), pat_annotated(d.pattern, b)]
        annotated(d.expr, a) && pat_annotated(d.pattern, b) && unifiable(a, b)
}

/// The typing rule of `(let ((p1 e1) ...) e)`: every binding obeys its rule.
pub open spec fn let_rule(x: LetNode) -> bool {
    forall|j: int| 0 <= j < x.def_vars@.len() ==> defvar_rule(#[trigger] x.def_vars@[j])
}

/// The typing rule of an application `(f a1 ... an)` as the annotations show it: the
/// type of `f` can be made a function type, of some effect, from the types of the
/// arguments to some result type, and the node's type `t` is that result type under `s`.
pub open spec fn app_rule(x: Exprs, t: SType, s: Sbst) -> bool {
    &&& x.exprs@.len() > 0
    &&& exists|f: SType, args: Seq<SType>, e: SType, r0: SType| #![trigger annotated(x.exprs@[0], f), spec_ty_fun(e, args, r0)]
        annotated(x.exprs@[0], f) && args.len() == x.exprs@.len() - 1
        && (forall|i: int| 0 <= i < args.len() ==> annotated(x.exprs@[i + 1], #[trigger] args[i]))
        && unifiable(f, spec_ty_fun(e, args, r0)) && t == apply(r0, sbst_view(s@))
}

/// `a` is an instance of `h`: some substitution turns `h` into `a`.
pub open spec fn instance_of_type(h: SType, a: SType) -> bool {
    exists|sg: Map<ID, SType>| #[trigger] apply(h, sg) == a
}

/// The typing rule of a case `(p e)` of a `match` whose head has type `h`, as the
/// annotations show it: the type of `p` can be made one with an instance of `h`.
pub open spec fn case_rule(c: MatchCase, h: SType) -> bool {
    exists|p: SType, a: SType| #![trigger pat_annotated(c.pattern, p), instance_of_type(h, a)]
        pat_annotated(c.pattern, p) && instance_of_type(h, a) && unifiable(a, p)
}

/// The typing rule of `(match e (p1 e1) ...)`: the head has a type `h` and every case
/// obeys its rule for `h`.
pub open spec fn match_rule(x: MatchNode) -> bool {
    exists|h: SType| #[trigger] annotated(x.expr, h)
        && forall|i: int| 0 <= i < x.cases@.len() ==> case_rule(#[trigger] x.cases@[i], h)
}

/// The typing rule of a non-empty list `'(e1 e2 ...)` as the annotations show it: the
/// list's type `t` is the list of the first element's type under `s`, and the type of each
/// later element can be made one with an instance of the first element's type.
pub open spec fn list_rule(x: Exprs, t: SType, s: Sbst) -> bool {
    x.exprs@.len() > 0 ==> exists|a: SType| #[trigger] annotated(x.exprs@[0], a)
        && t == spec_ty_list(apply(a, sbst_view(s@)))
        && forall|i: int| 1 <= i < x.exprs@.len() ==> elem_rule(#[trigger] x.exprs@[i], a)
}

/// A later element of a list whose first element has type `a`: its type can be made one
/// with an instance of `a`.
pub open spec fn elem_rule(e: LangExpr, a: SType) -> bool {
    exists|b: SType, c: SType| #![trigger annotated(e, b), instance_of_type(a, c)]
        annotated(e, b) && instance_of_type(a, c) && unifiable(c, b)
}

/// The typing rules that the annotations of `e` show at its root, `t` being its type
/// and `s` the substitution in force.
pub open spec fn expr_rule(e: LangExpr, t: SType, s: Sbst) -> bool {
    match e {
        LangExpr::IfExpr(x) => if_rule(*x, t, s),
        LangExpr::LetExpr(x) => let_rule(*x),
        LangExpr::MatchExpr(x) => match_rule(*x),
        LangExpr::ApplyExpr(x) => app_rule(x, t, s),
        LangExpr::ListExpr(x) => list_rule(x, t, s),
        _ => true,
    }
}

/// `p` has type `t`: a literal by its kind, any other pattern by its annotation.
pub open spec fn pat_annotated(p: Pattern, t: SType) -> bool {
    match p {
        Pattern::PatNum(_) => t == con0("Int"@),
        Pattern::PatBool(_) => t == con0("Bool"@),
        Pattern::PatID(x) => x.ty matches Some(y) && y@ == t,
        Pattern::PatTuple(x) => x.ty matches Some(y) && y@ == t,
        Pattern::PatData(x) => x.ty matches Some(y) && y@ == t,
        Pattern::PatNil(x) => x.ty matches Some(y) && y@ == t,
    }
}

/// `p` holds no label pattern: it is made of literals, variables, empty lists and tuples.
pub open spec fn pat_no_label(p: Pattern) -> bool
    decreases p,
{
    match p {
        Pattern::PatData(_) => false,
        Pattern::PatTuple(x) => forall|i: int| 0 <= i < x.pattern@.len() ==> pat_no_label(#[trigger] x.pattern@[i]),
        _ => true,
    }
}

/// Substitutions only ever grow: `b` replaces every variable that `a` replaces.
pub open spec fn grows(a: Sbst, b: Sbst) -> bool {
    a@.dom().subset_of(b@.dom())
}

/// Binding names in the innermost scope leaves the outer scopes as they were.
pub open spec fn inner_only(a: VarType, b: VarType) -> bool {
    &&& b.wf()
    &&& b.var_stack@.len() == a.var_stack@.len()
    &&& forall|i: int| 0 <= i < a.var_stack@.len() - 1 ==> #[trigger] b.var_stack@[i] == a.var_stack@[i]
}

proof fn lemma_compose_grows(s1: Sbst, s2: Sbst, r: Sbst)
    requires
        sbst_view(r@) == composed(sbst_view(s1@), sbst_view(s2@)),
    ensures
        grows(s2, r),
        grows(s1, r),
{
    assert forall|k: ID| s2@.dom().contains(k) implies r@.dom().contains(k) by {
        assert(sbst_view(s2@).contains_key(k));
        assert(sbst_view(r@).contains_key(k));
    }
    assert forall|k: ID| s1@.dom().contains(k) implies r@.dom().contains(k) by {
        assert(sbst_view(s1@).contains_key(k));
        assert(sbst_view(r@).contains_key(k));
    }
}

proof fn lemma_inner_only_trans(a: VarType, b: VarType, c: VarType)
    requires
        inner_only(a, b),
        inner_only(b, c),
    ensures
        inner_only(a, c),
{
    assert forall|i: int| 0 <= i < a.var_stack@.len() - 1 implies #[trigger] c.var_stack@[i] == a.var_stack@[i] by {
        assert(c.var_stack@[i] == b.var_stack@[i]);
    }
}

/// The next value of the counter of type variables.
fn next(n: ID) -> (r: ID)
    ensures
        r == wrap_add(n, 1),
{
    proof {
        if n < u64::MAX {
            vstd::arithmetic::div_mod::lemma_small_mod((n + 1) as nat, 0x1_0000_0000_0000_0000nat);
        } else {
            assert((n + 1) % 0x1_0000_0000_0000_0000 == 0);
        }
    }
    n.wrapping_add(1)
}

impl<'t> Context<'t> {
    /// The type of a variable: its type in the innermost scope that binds it, with the
    /// substitution applied, else the declared type of the function of that name.
    pub fn typing_var(&self, expr: &mut IDNode<'t>, sbst: Sbst, var_type: &VarType) -> (r: Result<(Type, Sbst), TypingErr<'t>>)
        requires
            self.wf(),
            var_type.wf(),
        ensures
            final(expr).id == old(expr).id,
            final(expr).ast == old(expr).ast,
            stack_get(var_type@, old(expr).id@) matches Some(vt) ==> ((r matches Ok((t, s)) && t@ == apply(vt, sbst_view(sbst@)) && s == sbst)),
            stack_get(var_type@, old(expr).id@) is None && self.funs.has(old(expr).id@) ==>
                ((r matches Ok((t, s)) && t@ == texpr_type(self.funs.value_of(old(expr).id@).fun_type) && s == sbst)),
            stack_get(var_type@, old(expr).id@) is None && !self.funs.has(old(expr).id@) ==>
                ((r matches Err(e) && e.ast == old(expr).ast && (e.msg matches ErrMsg::NotDefined(n) && n@ == old(expr).id@))),
            r matches Ok((t, s)) ==> (final(expr).ty matches Some(x) && x@ == t@),
    {
        let key = string_from(expr.id);
        let ty = match var_type.get(&key) {
            Some(t) => t.apply_sbst(&sbst),
            None => {
                match self.funs.get(expr.id) {
                    Some(defun) => defun.fun_type.to_type(),
                    None => {
                        return Err(TypingErr { msg: ErrMsg::NotDefined(string_from(expr.id)), ast: expr.ast });
                    },
                }
            },
        };
        expr.ty = Some(ty.clone());
        Ok((ty, sbst))
    }

    /// A fresh type variable for a variable pattern, bound to its name unless the name is `_`.
    pub fn typing_pat_id(&self, expr: &mut IDNode<'t>, sbst: Sbst, var_type: &mut VarType, num_tv: &mut ID) -> (r: Result<(Type, Sbst), TypingErr<'t>>)
        requires
            old(var_type).wf(),
        ensures
            r matches Ok((t, s)) && t@ == SType::Var(*old(num_tv)) && s == sbst,
            *final(num_tv) == wrap_add(*old(num_tv), 1),
            final(expr).id == old(expr).id,
            final(expr).ast == old(expr).ast,
            final(expr).ty matches Some(x) && x@ == SType::Var(*old(num_tv)),
            inner_only(*old(var_type), *final(var_type)),
            old(expr).id@ != "_"@ ==> stack_get(final(var_type)@, old(expr).id@) == Some(SType::Var(*old(num_tv))),
            old(expr).id@ == "_"@ ==> final(var_type).var_stack@ == old(var_type).var_stack@,
    {
        let ty = ty_var(*num_tv);
        *num_tv = next(*num_tv);
        expr.ty = Some(ty.clone());
        if !crate::strs::str_eq(expr.id, "_") {
            var_type.insert(string_from(expr.id), ty.clone());
        } else {
            proof {
                reveal_strlit("_");
            }
        }
        Ok((ty, sbst))
    }

    /// The empty list pattern: a list of a fresh type variable.
    pub fn typing_pat_nil(&self, expr: &mut PatNilNode<'t>, sbst: Sbst, num_tv: &mut ID) -> (r: Result<(Type, Sbst), TypingErr<'t>>)
        ensures
            r matches Ok((t, s)) && t@ == spec_ty_list(SType::Var(*old(num_tv))) && s == sbst,
            *final(num_tv) == wrap_add(*old(num_tv), 1),
            final(expr).ast == old(expr).ast,
            final(expr).ty matches Some(x) && x@ == spec_ty_list(SType::Var(*old(num_tv))),
    {
        let tv = ty_var(*num_tv);
        *num_tv = next(*num_tv);
        let ty = ty_list(tv);
        expr.ty = Some(ty.clone());
        Ok((ty, sbst))
    }
}

impl<'t> Context<'t> {
    /// The type of a pattern; variables it binds go to the innermost scope.
    pub fn typing_pat(&self, expr: &mut Pattern<'t>, sbst: Sbst, var_type: &mut VarType, num_tv: &mut ID) -> (r: Result<(Type, Sbst), TypingErr<'t>>)
        requires
            self.wf(),
            old(var_type).wf(),
        ensures
            final(expr).spec_ast() == old(expr).spec_ast(),
            r matches Ok((t, s)) ==> {
                &&& inner_only(*old(var_type), *final(var_type))
                &&& pat_annotated(*final(expr), t@)
                &&& grows(sbst, s)
            },
            *old(expr) matches Pattern::PatBool(_) ==> ((r matches Ok((t, s)) && t@ == con0("Bool"@) && s == sbst)),
            *old(expr) matches Pattern::PatNum(_) ==> ((r matches Ok((t, s)) && t@ == con0("Int"@) && s == sbst)),
            r is Err ==> !pat_no_label(*old(expr)),
        decreases *old(expr), 1nat,
    {
        match expr {
            Pattern::PatBool(_) => Ok((ty_bool(), sbst)),
            Pattern::PatNum(_) => Ok((ty_int(), sbst)),
            Pattern::PatID(e) => self.typing_pat_id(e, sbst, var_type, num_tv),
            Pattern::PatData(e) => self.typing_pat_data(e, sbst, var_type, num_tv),
            Pattern::PatTuple(e) => self.typing_pat_tuple(e, sbst, var_type, num_tv),
            Pattern::PatNil(e) => self.typing_pat_nil(e, sbst, num_tv),
        }
    }

    /// The type of a tuple pattern: the tuple of the types of its elements.
    pub fn typing_pat_tuple(&self, expr: &mut PatTupleNode<'t>, sbst: Sbst, var_type: &mut VarType, num_tv: &mut ID) -> (r: Result<(Type, Sbst), TypingErr<'t>>)
        requires
            self.wf(),
            old(var_type).wf(),
        ensures
            final(expr).ast == old(expr).ast,
            final(expr).pattern@.len() == old(expr).pattern@.len(),
            r matches Ok((t, s)) ==> {
                &&& inner_only(*old(var_type), *final(var_type))
                &&& final(expr).ty matches Some(x) && x@ == t@
                &&& t@ matches SType::Con(n, args) && n == "Tuple"@ && args.len() == old(expr).pattern@.len()
                    && forall|i: int| 0 <= i < args.len() ==> pat_annotated(#[trigger] final(expr).pattern@[i], args[i])
                &&& grows(sbst, s)
            },
            r is Err ==> exists|i: int| 0 <= i < old(expr).pattern@.len() && !pat_no_label(#[trigger] old(expr).pattern@[i]),
        decreases *old(expr), 0nat,
    {
        let ghost node0 = *expr;
        let ghost vt0 = *var_type;
        let ghost sbst0 = sbst;
        let mut sbst = sbst;
        let mut v: Vec<Type> = Vec::new();
        let mut i: usize = 0;
        while i < expr.pattern.len()
            invariant
                self.wf(),
                node0 == *old(expr),
                0 <= i <= node0.pattern@.len(),
                expr.ast == node0.ast,
                expr.pattern@.len() == node0.pattern@.len(),
                v@.len() == i,
                forall|j: int| 0 <= j < i ==> pat_annotated(#[trigger] expr.pattern@[j], v@[j]@),
                forall|j: int| i <= j < node0.pattern@.len() ==> expr.pattern@[j] == node0.pattern@[j],
                inner_only(vt0, *var_type),
                grows(sbst0, sbst),
            decreases node0.pattern@.len() - i,
        {
            proof {
                assert(decreases_to!(node0 => node0.pattern));
                assert(decreases_to!(node0.pattern => node0.pattern@));
                assert(decreases_to!(node0.pattern@ => node0.pattern@[i as int]));
                assert(expr.pattern@[i as int] == node0.pattern@[i as int]);
            }
            let ghost vt1 = *var_type;
            let (t, s) = self.typing_pat(&mut expr.pattern[i], sbst, var_type, num_tv)?;
            proof {
                lemma_inner_only_trans(vt0, vt1, *var_type);
            }
            sbst = s;
            v.push(t);
            i += 1;
        }
        let ghost vv = v@;
        let ty = ty_tuple(v);
        expr.ty = Some(ty.clone());
        proof {
            assert forall|j: int| 0 <= j < vv.len() implies pat_annotated(#[trigger] expr.pattern@[j], views(vv)[j]) by {
                assert(pat_annotated(expr.pattern@[j], vv[j]@));
            }
        }
        Ok((ty, sbst))
    }

    /// The type of a pattern built by a label: the data type of the label, whose elements
    /// must match the types of the label's elements.
    pub fn typing_pat_data(&self, expr: &mut PatDataNode<'t>, sbst: Sbst, var_type: &mut VarType, num_tv: &mut ID) -> (r: Result<(Type, Sbst), TypingErr<'t>>)
        requires
            self.wf(),
            old(var_type).wf(),
        ensures
            final(expr).ast == old(expr).ast,
            final(expr).label == old(expr).label,
            final(expr).pattern@.len() == old(expr).pattern@.len(),
            !self.label2data.has(old(expr).label.id@) ==> ((r matches Err(e) && e.ast == old(expr).ast
                && (e.msg matches ErrMsg::NotDefined(n) && n@ == old(expr).label.id@))),
            r matches Ok((t, s)) ==> {
                &&& inner_only(*old(var_type), *final(var_type))
                &&& final(expr).ty matches Some(x) && x@ == t@
                &&& self.label2data.has(old(expr).label.id@)
                &&& self.data.has(self.label2data.value_of(old(expr).label.id@)@)
                &&& t@ == SType::Con(
                    self.label2data.value_of(old(expr).label.id@)@,
                    fresh_vars(self.data.value_of(self.label2data.value_of(old(expr).label.id@)@), *old(num_tv)),
                )
                &&& grows(sbst, s)
            },
        decreases *old(expr), 0nat,
    {
        let ghost node0 = *expr;
        let ghost vt0 = *var_type;
        let ghost sbst0 = sbst;
        let ghost n0 = *num_tv;
        let (data_type, label_types) = match self.get_type_of_label(expr.label.id, num_tv) {
            Ok(x) => x,
            Err(msg) => {
                return Err(TypingErr { msg: msg, ast: expr.ast });
            },
        };
        if label_types.len() != expr.pattern.len() {
            return Err(TypingErr {
                msg: ErrMsg::ArgCount(string_from(expr.label.id), label_types.len(), expr.pattern.len()),
                ast: expr.ast,
            });
        }
        let mut sbst = sbst;
        let mut i: usize = 0;
        while i < expr.pattern.len()
            invariant
                self.wf(),
                node0 == *old(expr),
                0 <= i <= node0.pattern@.len(),
                expr.ast == node0.ast,
                expr.label == node0.label,
                self.label2data.has(node0.label.id@),
                expr.pattern@.len() == node0.pattern@.len(),
                label_types@.len() == node0.pattern@.len(),
                forall|j: int| i <= j < node0.pattern@.len() ==> expr.pattern@[j] == node0.pattern@[j],
                inner_only(vt0, *var_type),
                grows(sbst0, sbst),
            decreases node0.pattern@.len() - i,
        {
            proof {
                assert(decreases_to!(node0 => node0.pattern));
                assert(decreases_to!(node0.pattern => node0.pattern@));
                assert(decreases_to!(node0.pattern@ => node0.pattern@[i as int]));
                assert(expr.pattern@[i as int] == node0.pattern@[i as int]);
            }
            let ghost vt1 = *var_type;
            let (t, s) = self.typing_pat(&mut expr.pattern[i], sbst, var_type, num_tv)?;
            proof {
                lemma_inner_only_trans(vt0, vt1, *var_type);
            }
            sbst = s;
            let lt = label_types[i].apply_sbst(&sbst);
            match unify(&lt, &t) {
                Some(s1) => {
                    let s2 = compose(&s1, &sbst);
                    proof {
                        lemma_compose_grows(s1, sbst, s2);
                    }
                    sbst = s2;
                },
                None => {
                    return Err(TypingErr { msg: ErrMsg::Mismatch(lt, t), ast: expr.pattern[i].get_ast() });
                },
            }
            i += 1;
        }
        expr.ty = Some(data_type.clone());
        Ok((data_type, sbst))
    }
}

/// Substitutions compose into ones that replace at least the same variables.
fn compose_grows(s1: &Sbst, s2: Sbst) -> (r: Sbst)
    ensures
        sbst_view(r@) == composed(sbst_view(s1@), sbst_view(s2@)),
        grows(s2, r),
{
    let r = compose(s1, &s2);
    proof {
        lemma_compose_grows(*s1, s2, r);
    }
    r
}

impl<'t> Context<'t> {
    /// The type of an expression, with the substitution that inference has built so far.
    pub fn typing_expr(&self, expr: &mut LangExpr<'t>, sbst: Sbst, var_type: &mut VarType, num_tv: &mut ID) -> (r: Result<(Type, Sbst), TypingErr<'t>>)
        requires
            self.wf(),
            old(var_type).wf(),
            wf_lang(*old(expr)),
        ensures
            final(expr).spec_ast() == old(expr).spec_ast(),
            r matches Ok((t, s)) ==> {
                &&& final(var_type).var_stack@ == old(var_type).var_stack@
                &&& annotated(*final(expr), t@)
                &&& grows(sbst, s)
                &&& expr_rule(*final(expr), t@, s)
            },
            *old(expr) matches LangExpr::LitBool(_) ==> ((r matches Ok((t, s)) && t@ == con0("Bool"@) && s == sbst)),
            *old(expr) matches LangExpr::LitNum(_) ==> ((r matches Ok((t, s)) && t@ == con0("Int"@) && s == sbst)),
        decreases *old(expr), 1nat,
    {
        match expr {
            LangExpr::LitBool(_) => Ok((ty_bool(), sbst)),
            LangExpr::LitNum(_) => Ok((ty_int(), sbst)),
            LangExpr::IfExpr(e) => self.typing_if(e, sbst, var_type, num_tv),
            LangExpr::IDExpr(e) => self.typing_var(e, sbst, var_type),
            LangExpr::LetExpr(e) => self.typing_let(e, sbst, var_type, num_tv),
            LangExpr::MatchExpr(e) => self.typing_match(e, sbst, var_type, num_tv),
            LangExpr::TupleExpr(e) => self.typing_tuple(e, sbst, var_type, num_tv),
            LangExpr::ListExpr(e) => self.typing_list(e, sbst, var_type, num_tv),
            LangExpr::ApplyExpr(e) => self.typing_app(e, sbst, var_type, num_tv),
            LangExpr::DataExpr(e) => self.typing_data(e, sbst, var_type, num_tv),
        }
    }

    /// The type of `(if c e1 e2)`: `c` must be `Bool`, and `e1` and `e2` of one type.
    pub fn typing_if(&self, expr: &mut Box<IfNode<'t>>, sbst: Sbst, var_type: &mut VarType, num_tv: &mut ID) -> (r: Result<(Type, Sbst), TypingErr<'t>>)
        requires
            self.wf(),
            old(var_type).wf(),
            wf_lang(LangExpr::IfExpr(*old(expr))),
        ensures
            final(expr).ast == old(expr).ast,
            r matches Ok((t, s)) ==> {
                &&& final(var_type).var_stack@ == old(var_type).var_stack@
                &&& final(expr).ty matches Some(x) && x@ == t@
                &&& grows(sbst, s)
                &&& if_rule(**final(expr), t@, s)
            },
        decreases *old(expr), 0nat,
    {
        let ghost sbst0 = sbst;
        let (ty_cond, sbst) = self.typing_expr(&mut expr.cond_expr, sbst, var_type, num_tv)?;
        let s1 = match unify(&ty_bool(), &ty_cond) {
            Some(s) => s,
            None => {
                return Err(TypingErr { msg: ErrMsg::CondNotBool(ty_cond), ast: expr.cond_expr.get_ast() });
            },
        };
        let ghost u1 = sbst_view(s1@);
        let sbst = compose_grows(&s1, sbst);
        let (ty_then, sbst) = self.typing_expr(&mut expr.then_expr, sbst, var_type, num_tv)?;
        let (ty_else, sbst) = self.typing_expr(&mut expr.else_expr, sbst, var_type, num_tv)?;
        let s1 = match unify(&ty_then, &ty_else) {
            Some(s) => s,
            None => {
                return Err(TypingErr { msg: ErrMsg::IfBranches(ty_then, ty_else), ast: expr.cond_expr.get_ast() });
            },
        };
        let ghost u2 = sbst_view(s1@);
        let sbst = compose_grows(&s1, sbst);
        let ty = ty_then.apply_sbst(&sbst);
        expr.ty = Some(ty.clone());
        proof {
            assert(annotated(expr.cond_expr, ty_cond@));
            assert(annotated(expr.then_expr, ty_then@));
            assert(annotated(expr.else_expr, ty_else@));
            assert(unifies(u1, con0("Bool"@), ty_cond@));
            assert(unifies(u2, ty_then@, ty_else@));
        }
        Ok((ty, sbst))
    }

    /// The type of `(let ((p1 e1) ...) e)`: each pattern must match its expression; the
    /// bindings hold in `e` only.
    pub fn typing_let(&self, expr: &mut Box<LetNode<'t>>, sbst: Sbst, var_type: &mut VarType, num_tv: &mut ID) -> (r: Result<(Type, Sbst), TypingErr<'t>>)
        requires
            self.wf(),
            old(var_type).wf(),
            wf_lang(LangExpr::LetExpr(*old(expr))),
        ensures
            final(expr).ast == old(expr).ast,
            r matches Ok((t, s)) ==> {
                &&& final(var_type).var_stack@ == old(var_type).var_stack@
                &&& final(expr).ty matches Some(x) && x@ == t@
                &&& annotated(final(expr).expr, t@)
                &&& grows(sbst, s)
                &&& let_rule(**final(expr))
            },
        decreases *old(expr), 0nat,
    {
        let ghost node0 = *expr;
        let ghost vt0 = *var_type;
        let ghost sbst0 = sbst;
        var_type.push();
        let ghost vt1 = *var_type;
        let mut sbst = sbst;
        let mut i: usize = 0;
        while i < expr.def_vars.len()
            invariant
                self.wf(),
                node0 == *old(expr),
                wf_lang(LangExpr::LetExpr(node0)),
                0 <= i <= node0.def_vars@.len(),
                expr.ast == node0.ast,
                expr.expr == node0.expr,
                expr.def_vars@.len() == node0.def_vars@.len(),
                forall|j: int| i <= j < node0.def_vars@.len() ==> expr.def_vars@[j] == node0.def_vars@[j],
                forall|j: int| 0 <= j < i ==> defvar_rule(#[trigger] expr.def_vars@[j]),
                vt1.var_stack@.drop_last() == vt0.var_stack@,
                vt1.var_stack@.len() == vt0.var_stack@.len() + 1,
                inner_only(vt1, *var_type),
                grows(sbst0, sbst),
            decreases node0.def_vars@.len() - i,
        {
            proof {
                assert(decreases_to!(node0 => node0.def_vars));
                assert(decreases_to!(node0.def_vars => node0.def_vars@));
                assert(decreases_to!(node0.def_vars@ => node0.def_vars@[i as int]));
                assert(decreases_to!(node0.def_vars@[i as int] => node0.def_vars@[i as int].expr));
                assert(expr.def_vars@[i as int] == node0.def_vars@[i as int]);
                assert(wf_lang(node0.def_vars@[i as int].expr));
            }
            let ghost vt2 = *var_type;
            let dv = &mut expr.def_vars[i];
            let (t1, s) = self.typing_expr(&mut dv.expr, sbst, var_type, num_tv)?;
            let (t2, s) = self.typing_pat(&mut dv.pattern, s, var_type, num_tv)?;
            proof {
                lemma_inner_only_trans(vt1, vt2, *var_type);
            }
            sbst = s;
            let s1 = match unify(&t1, &t2) {
                Some(s) => s,
                None => {
                    return Err(TypingErr { msg: ErrMsg::LetMismatch(t2, t1), ast: dv.ast });
                },
            };
            sbst = compose_grows(&s1, sbst);
            dv.ty = Some(t1.apply_sbst(&sbst));
            proof {
                assert(annotated(dv.expr, t1@));
                assert(pat_annotated(dv.pattern, t2@));
                assert(unifies(sbst_view(s1@), t1@, t2@));
                assert(defvar_rule(*dv));
            }
            i += 1;
        }
        proof {
            assert(decreases_to!(node0 => node0.expr));
        }
        let ghost vt3 = *var_type;
        let r = self.typing_expr(&mut expr.expr, sbst, var_type, num_tv)?;
        var_type.pop();
        proof {
            assert(var_type.var_stack@ =~= vt0.var_stack@) by {
                assert forall|j: int| 0 <= j < vt0.var_stack@.len() implies var_type.var_stack@[j] == vt0.var_stack@[j] by {
                    assert(vt3.var_stack@[j] == vt1.var_stack@[j]);
                    assert(vt1.var_stack@.drop_last()[j] == vt1.var_stack@[j]);
                }
            }
        }
        expr.ty = Some(r.0.clone());
        assert(let_rule(**expr));
        Ok(r)
    }

    /// The type of `(match e (p1 e1) ...)`: each pattern must match `e`, and the cases
    /// must be of one type; each case's bindings hold in its expression only.
    pub fn typing_match(&self, expr: &mut Box<MatchNode<'t>>, sbst: Sbst, var_type: &mut VarType, num_tv: &mut ID) -> (r: Result<(Type, Sbst), TypingErr<'t>>)
        requires
            self.wf(),
            old(var_type).wf(),
            wf_lang(LangExpr::MatchExpr(*old(expr))),
        ensures
            final(expr).ast == old(expr).ast,
            r matches Ok((t, s)) ==> {
                &&& final(var_type).var_stack@ == old(var_type).var_stack@
                &&& final(expr).ty matches Some(x) && x@ == t@
                &&& final(expr).cases@.len() > 0
                &&& final(expr).cases@.last().ty matches Some(x) && x@ == t@
                &&& grows(sbst, s)
                &&& match_rule(**final(expr))
            },
        decreases *old(expr), 0nat,
    {
        let ghost node0 = *expr;
        let ghost vt0 = *var_type;
        let ghost sbst0 = sbst;
        proof {
            assert(decreases_to!(node0 => node0.expr));
        }
        let (type_head, sbst) = self.typing_expr(&mut expr.expr, sbst, var_type, num_tv)?;
        let ghost h = type_head@;
        proof {
            lemma_apply_untouched(h, Map::<ID, SType>::empty());
            assert(apply(h, Map::<ID, SType>::empty()) == h);
        }
        let mut type_head = type_head;
        let mut sbst = sbst;
        let mut e_ty: Option<Type> = None;
        let mut i: usize = 0;
        while i < expr.cases.len()
            invariant
                self.wf(),
                node0 == *old(expr),
                wf_lang(LangExpr::MatchExpr(node0)),
                0 <= i <= node0.cases@.len(),
                expr.ast == node0.ast,
                expr.cases@.len() == node0.cases@.len(),
                forall|j: int| i <= j < node0.cases@.len() ==> expr.cases@[j] == node0.cases@[j],
                var_type.var_stack@ == vt0.var_stack@,
                vt0.wf(),
                grows(sbst0, sbst),
                i == 0 <==> e_ty is None,
                annotated(expr.expr, h),
                instance_of_type(h, type_head@),
                forall|j: int| 0 <= j < i ==> case_rule(#[trigger] expr.cases@[j], h),
                i > 0 ==> (e_ty matches Some(et) && (expr.cases@[i - 1].ty matches Some(x) && x@ == et@)),
            decreases node0.cases@.len() - i,
        {
            proof {
                assert(decreases_to!(node0 => node0.cases));
                assert(decreases_to!(node0.cases => node0.cases@));
                assert(decreases_to!(node0.cases@ => node0.cases@[i as int]));
                assert(decreases_to!(node0.cases@[i as int] => node0.cases@[i as int].expr));
                assert(expr.cases@[i as int] == node0.cases@[i as int]);
                assert(wf_lang(node0.cases@[i as int].expr));
            }
            var_type.push();
            let ghost vt1 = *var_type;
            let cs = &mut expr.cases[i];
            let (pat_ty, s) = self.typing_pat(&mut cs.pattern, sbst, var_type, num_tv)?;
            sbst = s;
            let ghost th0 = type_head@;
            type_head = type_head.apply_sbst(&sbst);
            proof {
                let sg = choose|sg: Map<ID, SType>| #[trigger] apply(h, sg) == th0;
                lemma_apply_compose(h, sbst_view(sbst@), sg);
                assert(apply(h, composed(sbst_view(sbst@), sg)) == type_head@);
                assert(instance_of_type(h, type_head@));
            }
            let s1 = match unify(&type_head, &pat_ty) {
                Some(s) => s,
                None => {
                    return Err(TypingErr { msg: ErrMsg::Mismatch(type_head, pat_ty), ast: cs.pattern.get_ast() });
                },
            };
            proof {
                assert(unifies(sbst_view(s1@), type_head@, pat_ty@));
                assert(pat_annotated(cs.pattern, pat_ty@));
                assert(unifiable(type_head@, pat_ty@));
                assert(case_rule(*cs, h));
            }
            sbst = compose_grows(&s1, sbst);
            let ghost vt2 = *var_type;
            let (ty, s) = self.typing_expr(&mut cs.expr, sbst, var_type, num_tv)?;
            sbst = s;
            match e_ty {
                Some(t_prev) => {
                    let s1 = match unify(&t_prev, &ty) {
                        Some(s) => s,
                        None => {
                            return Err(TypingErr { msg: ErrMsg::Mismatch(t_prev, ty), ast: cs.expr.get_ast() });
                        },
                    };
                    sbst = compose_grows(&s1, sbst);
                },
                None => {},
            }
            let ty = ty.apply_sbst(&sbst);
            cs.ty = Some(ty.clone());
            e_ty = Some(ty);
            var_type.pop();
            proof {
                assert(var_type.var_stack@ =~= vt0.var_stack@) by {
                    assert forall|j: int| 0 <= j < vt0.var_stack@.len() implies var_type.var_stack@[j] == vt0.var_stack@[j] by {
                        assert(vt2.var_stack@[j] == vt1.var_stack@[j]);
                    }
                }
            }
            i += 1;
        }
        let ty = e_ty.unwrap();
        expr.ty = Some(ty.clone());
        assert(match_rule(**expr));
        Ok((ty, sbst))
    }
}

impl<'t> Context<'t> {
    /// The type of a tuple: the tuple of the types of its elements.
    pub fn typing_tuple(&self, expr: &mut Exprs<'t>, sbst: Sbst, var_type: &mut VarType, num_tv: &mut ID) -> (r: Result<(Type, Sbst), TypingErr<'t>>)
        requires
            self.wf(),
            old(var_type).wf(),
            forall|i: int| 0 <= i < old(expr).exprs@.len() ==> wf_lang(#[trigger] old(expr).exprs@[i]),
        ensures
            final(expr).ast == old(expr).ast,
            final(expr).exprs@.len() == old(expr).exprs@.len(),
            r matches Ok((t, s)) ==> {
                &&& final(var_type).var_stack@ == old(var_type).var_stack@
                &&& final(expr).ty matches Some(x) && x@ == t@
                &&& t@ matches SType::Con(n, args) && n == "Tuple"@ && args.len() == old(expr).exprs@.len()
                    && forall|i: int| 0 <= i < args.len() ==> annotated(#[trigger] final(expr).exprs@[i], args[i])
                &&& grows(sbst, s)
            },
        decreases *old(expr), 0nat,
    {
        let ghost node0 = *expr;
        let ghost vt0 = *var_type;
        let ghost sbst0 = sbst;
        let mut sbst = sbst;
        let mut v: Vec<Type> = Vec::new();
        let mut i: usize = 0;
        while i < expr.exprs.len()
            invariant
                self.wf(),
                node0 == *old(expr),
                forall|j: int| 0 <= j < node0.exprs@.len() ==> wf_lang(#[trigger] node0.exprs@[j]),
                0 <= i <= node0.exprs@.len(),
                expr.ast == node0.ast,
                expr.exprs@.len() == node0.exprs@.len(),
                v@.len() == i,
                forall|j: int| 0 <= j < i ==> annotated(#[trigger] expr.exprs@[j], v@[j]@),
                forall|j: int| i <= j < node0.exprs@.len() ==> expr.exprs@[j] == node0.exprs@[j],
                var_type.var_stack@ == vt0.var_stack@,
                vt0.wf(),
                grows(sbst0, sbst),
            decreases node0.exprs@.len() - i,
        {
            proof {
                assert(decreases_to!(node0 => node0.exprs));
                assert(decreases_to!(node0.exprs => node0.exprs@));
                assert(decreases_to!(node0.exprs@ => node0.exprs@[i as int]));
                assert(expr.exprs@[i as int] == node0.exprs@[i as int]);
                assert(wf_lang(node0.exprs@[i as int]));
            }
            let (t, s) = self.typing_expr(&mut expr.exprs[i], sbst, var_type, num_tv)?;
            sbst = s;
            v.push(t);
            i += 1;
        }
        let ghost vv = v@;
        let ty = ty_tuple(v);
        expr.ty = Some(ty.clone());
        proof {
            assert forall|j: int| 0 <= j < vv.len() implies annotated(#[trigger] expr.exprs@[j], views(vv)[j]) by {
                assert(annotated(expr.exprs@[j], vv[j]@));
            }
        }
        Ok((ty, sbst))
    }

    /// The type of a list: the list of the type of its first element, which every element
    /// must have; the empty list is a list of a fresh type variable.
    pub fn typing_list(&self, expr: &mut Exprs<'t>, sbst: Sbst, var_type: &mut VarType, num_tv: &mut ID) -> (r: Result<(Type, Sbst), TypingErr<'t>>)
        requires
            self.wf(),
            old(var_type).wf(),
            forall|i: int| 0 <= i < old(expr).exprs@.len() ==> wf_lang(#[trigger] old(expr).exprs@[i]),
        ensures
            final(expr).ast == old(expr).ast,
            final(expr).exprs@.len() == old(expr).exprs@.len(),
            old(expr).exprs@.len() == 0 ==> ((r matches Ok((t, s)) && t@ == spec_ty_list(SType::Var(*old(num_tv))) && s == sbst)),
            old(expr).exprs@.len() == 0 ==> *final(num_tv) == wrap_add(*old(num_tv), 1),
            r matches Ok((t, s)) ==> {
                &&& final(var_type).var_stack@ == old(var_type).var_stack@
                &&& final(expr).ty matches Some(x) && x@ == t@
                &&& t@ matches SType::Con(n, args) && n == "List"@ && args.len() == 1
                &&& grows(sbst, s)
                &&& list_rule(*final(expr), t@, s)
            },
        decreases *old(expr), 0nat,
    {
        let ghost node0 = *expr;
        let ghost vt0 = *var_type;
        let ghost sbst0 = sbst;
        let mut sbst = sbst;
        let mut ty: Option<Type> = None;
        let mut i: usize = 0;
        while i < expr.exprs.len()
            invariant
                self.wf(),
                node0 == *old(expr),
                forall|j: int| 0 <= j < node0.exprs@.len() ==> wf_lang(#[trigger] node0.exprs@[j]),
                0 <= i <= node0.exprs@.len(),
                expr.ast == node0.ast,
                expr.exprs@.len() == node0.exprs@.len(),
                forall|j: int| i <= j < node0.exprs@.len() ==> expr.exprs@[j] == node0.exprs@[j],
                var_type.var_stack@ == vt0.var_stack@,
                vt0.wf(),
                grows(sbst0, sbst),
                node0.exprs@.len() == 0 ==> sbst == sbst0 && *num_tv == *old(num_tv),
                i == 0 <==> ty is None,
                i > 0 ==> (ty matches Some(t0) && annotated(expr.exprs@[0], t0@)
                    && forall|j: int| 1 <= j < i ==> elem_rule(#[trigger] expr.exprs@[j], t0@)),
            decreases node0.exprs@.len() - i,
        {
            proof {
                assert(decreases_to!(node0 => node0.exprs));
                assert(decreases_to!(node0.exprs => node0.exprs@));
                assert(decreases_to!(node0.exprs@ => node0.exprs@[i as int]));
                assert(expr.exprs@[i as int] == node0.exprs@[i as int]);
                assert(wf_lang(node0.exprs@[i as int]));
            }
            let ghost before = expr.exprs@;
            let (t, s) = self.typing_expr(&mut expr.exprs[i], sbst, var_type, num_tv)?;
            proof {
                assert(annotated(expr.exprs@[i as int], t@));
                assert forall|j: int| 0 <= j < i implies expr.exprs@[j] == before[j] by {}
            }
            sbst = s;
            match &ty {
                None => {
                    ty = Some(t);
                },
                Some(t0) => {
                    let ghost a = t0@;
                    let t0 = t0.apply_sbst(&sbst);
                    match unify(&t0, &t) {
                        Some(s1) => {
                            proof {
                                assert(apply(a, sbst_view(sbst@)) == t0@);
                                assert(instance_of_type(a, t0@));
                                assert(unifies(sbst_view(s1@), t0@, t@));
                                assert(elem_rule(expr.exprs@[i as int], a));
                            }
                            sbst = compose_grows(&s1, sbst);
                        },
                        None => {
                            return Err(TypingErr { msg: ErrMsg::Mismatch(t0, t), ast: expr.exprs[i].get_ast() });
                        },
                    }
                },
            }
            i += 1;
        }
        match ty {
            Some(t0) => {
                let tyls = ty_list(t0.apply_sbst(&sbst));
                expr.ty = Some(tyls.clone());
                proof {
                    assert(annotated(expr.exprs@[0], t0@));
                    assert(list_rule(*expr, tyls@, sbst));
                }
                Ok((tyls, sbst))
            },
            None => {
                let t = ty_var(*num_tv);
                let tyls = ty_list(t);
                *num_tv = next(*num_tv);
                expr.ty = Some(tyls.clone());
                Ok((tyls, sbst))
            },
        }
    }

    /// The type of an application `(f e1 ...)`: `f` must be a function from the types of
    /// the arguments, with any effect; the result is its return type.
    pub fn typing_app(&self, expr: &mut Exprs<'t>, sbst: Sbst, var_type: &mut VarType, num_tv: &mut ID) -> (r: Result<(Type, Sbst), TypingErr<'t>>)
        requires
            self.wf(),
            old(var_type).wf(),
            forall|i: int| 0 <= i < old(expr).exprs@.len() ==> wf_lang(#[trigger] old(expr).exprs@[i]),
        ensures
            final(expr).ast == old(expr).ast,
            final(expr).exprs@.len() == old(expr).exprs@.len(),
            old(expr).exprs@.len() == 0 ==> ((r matches Err(e) && e.ast == old(expr).ast
                && e.msg == ErrMsg::Text("error: require function"))),
            r matches Ok((t, s)) ==> {
                &&& final(var_type).var_stack@ == old(var_type).var_stack@
                &&& final(expr).ty matches Some(x) && x@ == t@
                &&& grows(sbst, s)
                &&& app_rule(*final(expr), t@, s)
            },
        decreases *old(expr), 0nat,
    {
        let ghost node0 = *expr;
        let ghost vt0 = *var_type;
        let ghost sbst0 = sbst;
        if expr.exprs.len() == 0 {
            return Err(TypingErr::new("error: require function", expr.ast));
        }
        proof {
            assert(decreases_to!(node0 => node0.exprs));
            assert(decreases_to!(node0.exprs => node0.exprs@));
            assert(decreases_to!(node0.exprs@ => node0.exprs@[0]));
            assert(wf_lang(node0.exprs@[0]));
        }
        let (t1, sbst) = self.typing_expr(&mut expr.exprs[0], sbst, var_type, num_tv)?;
        let ghost e0 = expr.exprs@[0];
        let mut sbst = sbst;
        let mut v: Vec<Type> = Vec::new();
        let mut i: usize = 1;
        while i < expr.exprs.len()
            invariant
                self.wf(),
                node0 == *old(expr),
                expr.exprs@[0] == e0,
                annotated(e0, t1@),
                v@.len() == i - 1,
                forall|j: int| 0 <= j < i - 1 ==> annotated(expr.exprs@[j + 1], #[trigger] v@[j]@),
                forall|j: int| 0 <= j < node0.exprs@.len() ==> wf_lang(#[trigger] node0.exprs@[j]),
                1 <= i <= node0.exprs@.len(),
                expr.ast == node0.ast,
                expr.exprs@.len() == node0.exprs@.len(),
                forall|j: int| i <= j < node0.exprs@.len() ==> expr.exprs@[j] == node0.exprs@[j],
                var_type.var_stack@ == vt0.var_stack@,
                vt0.wf(),
                grows(sbst0, sbst),
            decreases node0.exprs@.len() - i,
        {
            proof {
                assert(decreases_to!(node0 => node0.exprs));
                assert(decreases_to!(node0.exprs => node0.exprs@));
                assert(decreases_to!(node0.exprs@ => node0.exprs@[i as int]));
                assert(expr.exprs@[i as int] == node0.exprs@[i as int]);
                assert(wf_lang(node0.exprs@[i as int]));
            }
            let (t, s) = self.typing_expr(&mut expr.exprs[i], sbst, var_type, num_tv)?;
            sbst = s;
            v.push(t);
            proof {
                assert forall|j: int| 0 <= j < i implies annotated(expr.exprs@[j + 1], #[trigger] v@[j]@) by {
                    if j < i - 1 {
                        assert(annotated(expr.exprs@[j + 1], v@[j]@));
                    }
                }
            }
            i += 1;
        }
        let ret = ty_var(*num_tv);
        *num_tv = next(*num_tv);
        let ghost en = *num_tv;
        let ghost vv = v@;
        let fun_ty = ty_fun_gen_effect(*num_tv, v, ret.clone());
        *num_tv = next(*num_tv);
        match unify(&t1, &fun_ty) {
            Some(s1) => {
                proof {
                    assert(unifies(sbst_view(s1@), t1@, fun_ty@));
                }
                sbst = compose_grows(&s1, sbst);
            },
            None => {
                return Err(TypingErr { msg: ErrMsg::Mismatch(fun_ty, t1), ast: expr.exprs[0].get_ast() });
            },
        }
        let t = ret.apply_sbst(&sbst);
        expr.ty = Some(t.clone());
        proof {
            let args = views(vv);
            assert forall|j: int| 0 <= j < args.len() implies annotated(expr.exprs@[j + 1], #[trigger] args[j]) by {
                assert(annotated(expr.exprs@[j + 1], vv[j]@));
            }
            assert(annotated(expr.exprs@[0], t1@));
            assert(fun_ty@ == spec_ty_fun(SType::Var(en), args, ret@));
        }
        Ok((t, sbst))
    }

    /// The type of a value built by a label: the data type of the label, whose arguments
    /// must match the types of the label's elements.
    pub fn typing_data(&self, expr: &mut DataNode<'t>, sbst: Sbst, var_type: &mut VarType, num_tv: &mut ID) -> (r: Result<(Type, Sbst), TypingErr<'t>>)
        requires
            self.wf(),
            old(var_type).wf(),
            forall|i: int| 0 <= i < old(expr).exprs@.len() ==> wf_lang(#[trigger] old(expr).exprs@[i]),
        ensures
            final(expr).ast == old(expr).ast,
            final(expr).label == old(expr).label,
            final(expr).exprs@.len() == old(expr).exprs@.len(),
            !self.label2data.has(old(expr).label.id@) ==> ((r matches Err(e) && e.ast == old(expr).ast
                && (e.msg matches ErrMsg::NotDefined(n) && n@ == old(expr).label.id@))),
            r matches Ok((t, s)) ==> {
                &&& final(var_type).var_stack@ == old(var_type).var_stack@
                &&& final(expr).ty matches Some(x) && x@ == t@
                &&& self.label2data.has(old(expr).label.id@)
                &&& self.data.has(self.label2data.value_of(old(expr).label.id@)@)
                &&& t@ == SType::Con(
                    self.label2data.value_of(old(expr).label.id@)@,
                    fresh_vars(self.data.value_of(self.label2data.value_of(old(expr).label.id@)@), *old(num_tv)),
                )
                &&& grows(sbst, s)
            },
        decreases *old(expr), 0nat,
    {
        let ghost node0 = *expr;
        let ghost vt0 = *var_type;
        let ghost sbst0 = sbst;
        let (data_type, label_types) = match self.get_type_of_label(expr.label.id, num_tv) {
            Ok(x) => x,
            Err(msg) => {
                return Err(TypingErr { msg: msg, ast: expr.ast });
            },
        };
        if label_types.len() != expr.exprs.len() {
            return Err(TypingErr {
                msg: ErrMsg::ArgCount(string_from(expr.label.id), label_types.len(), expr.exprs.len()),
                ast: expr.ast,
            });
        }
        let mut sbst = sbst;
        let mut i: usize = 0;
        while i < expr.exprs.len()
            invariant
                self.wf(),
                node0 == *old(expr),
                forall|j: int| 0 <= j < node0.exprs@.len() ==> wf_lang(#[trigger] node0.exprs@[j]),
                0 <= i <= node0.exprs@.len(),
                expr.ast == node0.ast,
                expr.label == node0.label,
                self.label2data.has(node0.label.id@),
                expr.exprs@.len() == node0.exprs@.len(),
                label_types@.len() == node0.exprs@.len(),
                forall|j: int| i <= j < node0.exprs@.len() ==> expr.exprs@[j] == node0.exprs@[j],
                var_type.var_stack@ == vt0.var_stack@,
                vt0.wf(),
                grows(sbst0, sbst),
            decreases node0.exprs@.len() - i,
        {
            proof {
                assert(decreases_to!(node0 => node0.exprs));
                assert(decreases_to!(node0.exprs => node0.exprs@));
                assert(decreases_to!(node0.exprs@ => node0.exprs@[i as int]));
                assert(expr.exprs@[i as int] == node0.exprs@[i as int]);
                assert(wf_lang(node0.exprs@[i as int]));
            }
            let (t, s) = self.typing_expr(&mut expr.exprs[i], sbst, var_type, num_tv)?;
            sbst = s;
            let lt = label_types[i].apply_sbst(&sbst);
            match unify(&lt, &t) {
                Some(s1) => {
                    sbst = compose_grows(&s1, sbst);
                },
                None => {
                    return Err(TypingErr { msg: ErrMsg::Mismatch(lt, t), ast: expr.exprs[i].get_ast() });
                },
            }
            i += 1;
        }
        expr.ty = Some(data_type.clone());
        Ok((data_type, sbst))
    }
}

// ----- whole function definitions -----

/// Copying or substituting keeps every `match` with a case.
pub proof fn lemma_applied_wf(a: LangExpr, b: LangExpr, s: Map<ID, SType>)
    requires
        lang_applied(a, b, s),
        wf_lang(a),
    ensures
        wf_lang(b),
    decreases a,
{
    match a {
        LangExpr::IfExpr(x) => {
            let y = b->IfExpr_0;
            lemma_applied_wf(x.cond_expr, y.cond_expr, s);
            lemma_applied_wf(x.then_expr, y.then_expr, s);
            lemma_applied_wf(x.else_expr, y.else_expr, s);
        },
        LangExpr::LetExpr(x) => {
            let y = b->LetExpr_0;
            lemma_applied_wf(x.expr, y.expr, s);
            assert forall|i: int| 0 <= i < y.def_vars@.len() implies wf_lang(#[trigger] y.def_vars@[i].expr) by {
                assert(pat_applied(x.def_vars@[i].pattern, y.def_vars@[i].pattern, s));
                lemma_applied_wf(x.def_vars@[i].expr, y.def_vars@[i].expr, s);
            }
        },
        LangExpr::MatchExpr(x) => {
            let y = b->MatchExpr_0;
            lemma_applied_wf(x.expr, y.expr, s);
            assert forall|i: int| 0 <= i < y.cases@.len() implies wf_lang(#[trigger] y.cases@[i].expr) by {
                assert(pat_applied(x.cases@[i].pattern, y.cases@[i].pattern, s));
                lemma_applied_wf(x.cases@[i].expr, y.cases@[i].expr, s);
            }
        },
        LangExpr::DataExpr(x) => {
            let y = b->DataExpr_0;
            assert forall|i: int| 0 <= i < y.exprs@.len() implies wf_lang(#[trigger] y.exprs@[i]) by {
                lemma_applied_wf(x.exprs@[i], y.exprs@[i], s);
            }
        },
        LangExpr::ApplyExpr(x) => {
            let y = b->ApplyExpr_0;
            assert forall|i: int| 0 <= i < y.exprs@.len() implies wf_lang(#[trigger] y.exprs@[i]) by {
                lemma_applied_wf(x.exprs@[i], y.exprs@[i], s);
            }
        },
        LangExpr::ListExpr(x) => {
            let y = b->ListExpr_0;
            assert forall|i: int| 0 <= i < y.exprs@.len() implies wf_lang(#[trigger] y.exprs@[i]) by {
                lemma_applied_wf(x.exprs@[i], y.exprs@[i], s);
            }
        },
        LangExpr::TupleExpr(x) => {
            let y = b->TupleExpr_0;
            assert forall|i: int| 0 <= i < y.exprs@.len() implies wf_lang(#[trigger] y.exprs@[i]) by {
                lemma_applied_wf(x.exprs@[i], y.exprs@[i], s);
            }
        },
        _ => {},
    }
}

/// A copy of a type expression denotes the same type.
pub proof fn lemma_kept_type(a: TypeExpr, b: TypeExpr)
    requires
        te_kept(a, b),
    ensures
        texpr_type(a) == texpr_type(b),
    decreases a,
{
    match a {
        TypeExpr::TEList(x) => {
            lemma_kept_type(*x.ty, *b->TEList_0.ty);
        },
        TypeExpr::TETuple(x) => {
            let y = b->TETuple_0;
            assert forall|i: int| 0 <= i < x.ty@.len() implies texpr_type(x.ty@[i]) == texpr_type(y.ty@[i]) by {
                lemma_kept_type(x.ty@[i], y.ty@[i]);
            }
            assert(texpr_type(a)->Con_1 =~= texpr_type(b)->Con_1);
        },
        TypeExpr::TEFun(x) => {
            let y = b->TEFun_0;
            assert forall|i: int| 0 <= i < x.args@.len() implies texpr_type(x.args@[i]) == texpr_type(y.args@[i]) by {
                lemma_kept_type(x.args@[i], y.args@[i]);
            }
            lemma_kept_type(*x.ret, *y.ret);
            assert(texpr_type(a)->Con_1[1]->Con_1 =~= texpr_type(b)->Con_1[1]->Con_1);
            assert(texpr_type(a)->Con_1 =~= texpr_type(b)->Con_1);
        },
        TypeExpr::TEData(x) => {
            let y = b->TEData_0;
            assert forall|i: int| 0 <= i < x.type_args@.len() implies texpr_type(x.type_args@[i]) == texpr_type(y.type_args@[i]) by {
                lemma_kept_type(x.type_args@[i], y.type_args@[i]);
            }
            assert(texpr_type(a)->Con_1 =~= texpr_type(b)->Con_1);
        },
        _ => {},
    }
}

/// `b` is the function definition `a` with its types inferred: some substitution turns
/// the declared type into the annotated one and gives the `i`-th argument the type
/// that variable `i` stands for, and the body carries its annotations.
pub open spec fn defun_typed(a: Defun, b: Defun) -> bool {
    &&& b.id.id == a.id.id
    &&& b.id.ast == a.id.ast
    &&& b.ast == a.ast
    &&& b.effect == a.effect
    &&& te_kept(a.fun_type, b.fun_type)
    &&& b.args@.len() == a.args@.len()
    &&& forall|i: int| 0 <= i < a.args@.len() ==> (#[trigger] b.args@[i]).id == a.args@[i].id && b.args@[i].ast == a.args@[i].ast
    &&& b.expr.spec_ast() == a.expr.spec_ast()
    &&& exists|s: Map<ID, SType>| #![trigger apply(texpr_type(a.fun_type), s)] {
        &&& b.ty matches Some(t) && t@ == apply(texpr_type(a.fun_type), s)
        &&& forall|i: int| 0 <= i < a.args@.len() ==> ((#[trigger] b.args@[i]).ty matches Some(t) && t@ == apply(SType::Var(i as ID), s))
    }
}

/// The types of the first `n` arguments under the substitution `s`: argument `i` stands
/// for the type variable `i`.
pub open spec fn arg_types(n: nat, s: Sbst) -> Seq<SType> {
    Seq::new(n, |i: int| apply(SType::Var(i as ID), sbst_view(s@)))
}

/// The body of `b` was typed against the declared type of `a`: there is an inferred body
/// `pre`, of type `ret` under the substitution `s0`, whose annotations obey the typing
/// rules at its root; `u` makes the declared type one with the function type from the
/// arguments' types under `s0` to `ret`; and the body of `b` is `pre` with the
/// composition of `u` and `s0` applied to its annotations.
pub open spec fn body_checked(a: Defun, b: Defun) -> bool {
    exists|pre: LangExpr, ret: SType, s0: Sbst, u: Map<ID, SType>|
        #![trigger lang_applied(pre, b.expr, composed(u, sbst_view(s0@))), annotated(pre, ret)]
        annotated(pre, ret) && expr_rule(pre, ret, s0)
        && unifies(u, texpr_type(a.fun_type), spec_ty_fun(effect_type(a.effect == Effect::Pure), arg_types(a.args@.len(), s0), ret))
        && lang_applied(pre, b.expr, composed(u, sbst_view(s0@)))
}

impl<'t> Context<'t> {
    /// Infers the types of a function definition and checks them against its declared type.
    pub fn typing_defun(&self, defun: Defun<'t>) -> (r: Result<Defun<'t>, TypingErr<'t>>)
        requires
            self.wf(),
            wf_lang(defun.expr),
        ensures
            r matches Ok(d) ==> defun_typed(defun, d),
            r matches Ok(d) ==> body_checked(defun, d),
    {
        let ghost d0 = defun;
        let mut defun = defun;
        let mut var_type = VarType::new();
        let mut num_tv: ID = 0;
        let mut args_orig: Vec<Type> = Vec::new();
        let mut i: usize = 0;
        while i < defun.args.len()
            invariant
                defun == d0,
                0 <= i <= d0.args@.len(),
                var_type.wf(),
                num_tv == i,
                args_orig@.len() == i,
                forall|j: int| 0 <= j < i ==> (#[trigger] args_orig@[j])@ == SType::Var(j as ID),
            decreases d0.args@.len() - i,
        {
            let tv = ty_var(num_tv);
            var_type.insert(string_from(defun.args[i].id), tv.clone());
            args_orig.push(tv);
            num_tv = num_tv + 1;
            i += 1;
        }
        let (ret, sbst) = self.typing_expr(&mut defun.expr, Sbst::new(), &mut var_type, &mut num_tv)?;
        let ghost pre = defun.expr;
        let ghost s0 = sbst;
        let mut args: Vec<Type> = Vec::new();
        let mut i: usize = 0;
        while i < args_orig.len()
            invariant
                0 <= i <= args_orig@.len(),
                args@.len() == i,
                args_orig@.len() == d0.args@.len(),
                forall|j: int| 0 <= j < args_orig@.len() ==> (#[trigger] args_orig@[j])@ == SType::Var(j as ID),
                forall|j: int| 0 <= j < i ==> (#[trigger] args@[j])@ == apply(SType::Var(j as ID), sbst_view(sbst@)),
            decreases args_orig@.len() - i,
        {
            args.push(args_orig[i].apply_sbst(&sbst));
            i += 1;
        }
        let fun_type1 = defun.fun_type.to_type();
        let fun_type2 = ty_fun_of(defun.effect == Effect::Pure, args, ret);
        let s1 = match unify(&fun_type1, &fun_type2) {
            Some(s) => s,
            None => {
                return Err(TypingErr { msg: ErrMsg::FunTypeMismatch(fun_type2, fun_type1), ast: defun.ast });
            },
        };
        proof {
            assert(views(args@) =~= arg_types(d0.args@.len(), s0));
            assert(unifies(sbst_view(s1@), fun_type1@, fun_type2@));
        }
        let ghost u = sbst_view(s1@);
        let sbst = compose(&s1, &sbst);
        defun.ty = Some(fun_type1.apply_sbst(&sbst));
        defun.expr.apply_sbst(&sbst);
        let ghost post = defun.expr;
        proof {
            assert(lang_applied(pre, post, composed(u, sbst_view(s0@))));
        }
        let mut i: usize = 0;
        while i < defun.args.len()
            invariant
                0 <= i <= d0.args@.len(),
                args_orig@.len() == d0.args@.len(),
                forall|j: int| 0 <= j < args_orig@.len() ==> (#[trigger] args_orig@[j])@ == SType::Var(j as ID),
                defun.args@.len() == d0.args@.len(),
                defun.id == d0.id,
                defun.ast == d0.ast,
                defun.effect == d0.effect,
                defun.fun_type == d0.fun_type,
                defun.expr.spec_ast() == d0.expr.spec_ast(),
                defun.expr == post,
                defun.ty matches Some(t) && t@ == apply(texpr_type(d0.fun_type), sbst_view(sbst@)),
                forall|j: int| 0 <= j < d0.args@.len() ==> (#[trigger] defun.args@[j]).id == d0.args@[j].id && defun.args@[j].ast == d0.args@[j].ast,
                forall|j: int| 0 <= j < i ==> ((#[trigger] defun.args@[j]).ty matches Some(t) && t@ == apply(SType::Var(j as ID), sbst_view(sbst@))),
            decreases d0.args@.len() - i,
        {
            defun.args[i].ty = Some(args_orig[i].apply_sbst(&sbst));
            i += 1;
        }
        proof {
            lemma_te_kept_refl(d0.fun_type);
            assert(annotated(pre, ret@) && expr_rule(pre, ret@, s0));
            assert(body_checked(d0, defun));
        }
        Ok(defun)
    }

    /// Infers the types of every function, in name order; on an error the functions stay
    /// as they were.
    pub fn typing_functions(&mut self) -> (r: Result<(), TypingErr<'t>>)
        requires
            old(self).wf(),
        ensures
            r is Err ==> *final(self) == *old(self),
            final(self).data == old(self).data,
            final(self).label2data == old(self).label2data,
            final(self).curr_id == old(self).curr_id,
            r is Ok ==> {
                &&& final(self).funs.wf()
                &&& final(self).funs.key_set() == old(self).funs.key_set()
                &&& forall|k: Seq<char>| #[trigger] old(self).funs.has(k) ==> defun_typed(old(self).funs.value_of(k), final(self).funs.value_of(k))
                &&& forall|k: Seq<char>| #[trigger] old(self).funs.has(k) ==> body_checked(old(self).funs.value_of(k), final(self).funs.value_of(k))
            },
    {
        let mut funs: StrMap<'t, Defun<'t>> = StrMap::new();
        let mut i: usize = 0;
        while i < self.funs.len()
            invariant
                self.wf(),
                0 <= i <= self.funs.keys().len(),
                funs.wf(),
                forall|k: Seq<char>| #[trigger] funs.has(k) <==> exists|j: int| 0 <= j < i && self.funs.keys()[j] == k,
                forall|j: int| 0 <= j < i ==> defun_typed(#[trigger] self.funs.values()[j], funs.value_of(self.funs.keys()[j])),
                forall|j: int| 0 <= j < i ==> body_checked(#[trigger] self.funs.values()[j], funs.value_of(self.funs.keys()[j])),
            decreases self.funs.keys().len() - i,
        {
            let orig = self.funs.value_at(i);
            let defun = orig.clone();
            proof {
                lemma_applied_wf(orig.expr, defun.expr, Map::empty());
            }
            let typed = self.typing_defun(defun)?;
            let ghost before = funs;
            proof {
                lemma_defun_typed_kept(*orig, defun, typed);
                lemma_body_checked_kept(*orig, defun, typed);
            }
            funs.insert(typed.id.id, typed);
            proof {
                assert forall|j: int| 0 <= j < i + 1 implies defun_typed(#[trigger] self.funs.values()[j], funs.value_of(self.funs.keys()[j])) by {
                    if j < i {
                        assert(self.funs.keys()[j] != self.funs.keys()[i as int]);
                        assert(before.has(self.funs.keys()[j]));
                    }
                }
                assert forall|j: int| 0 <= j < i + 1 implies body_checked(#[trigger] self.funs.values()[j], funs.value_of(self.funs.keys()[j])) by {
                    if j < i {
                        assert(self.funs.keys()[j] != self.funs.keys()[i as int]);
                        assert(before.has(self.funs.keys()[j]));
                    }
                }
                assert forall|k: Seq<char>| #[trigger] funs.has(k) <==> exists|j: int| 0 <= j < i + 1 && self.funs.keys()[j] == k by {
                    if funs.has(k) && k != self.funs.keys()[i as int] {
                        assert(before.has(k));
                    }
                    if exists|j: int| 0 <= j < i + 1 && self.funs.keys()[j] == k {
                        let j = choose|j: int| 0 <= j < i + 1 && self.funs.keys()[j] == k;
                        if j < i {
                            assert(before.has(k));
                        }
                    }
                }
            }
            i += 1;
        }
        proof {
            assert forall|k: Seq<char>| #[trigger] self.funs.has(k) implies defun_typed(self.funs.value_of(k), funs.value_of(k)) by {
                let j = self.funs.index_of(k);
                assert(defun_typed(self.funs.values()[j], funs.value_of(self.funs.keys()[j])));
            }
            assert forall|k: Seq<char>| #[trigger] self.funs.has(k) implies body_checked(self.funs.value_of(k), funs.value_of(k)) by {
                let j = self.funs.index_of(k);
                assert(body_checked(self.funs.values()[j], funs.value_of(self.funs.keys()[j])));
            }
            assert(funs.key_set() =~= self.funs.key_set());
        }
        self.funs = funs;
        Ok(())
    }
}

proof fn lemma_te_kept_refl(a: TypeExpr)
    ensures
        te_kept(a, a),
    decreases a,
{
    match a {
        TypeExpr::TEList(x) => {
            lemma_te_kept_refl(*x.ty);
        },
        TypeExpr::TETuple(x) => {
            assert forall|i: int| 0 <= i < x.ty@.len() implies te_kept(#[trigger] x.ty@[i], x.ty@[i]) by {
                lemma_te_kept_refl(x.ty@[i]);
            }
        },
        TypeExpr::TEFun(x) => {
            lemma_te_kept_refl(*x.ret);
            assert forall|i: int| 0 <= i < x.args@.len() implies te_kept(#[trigger] x.args@[i], x.args@[i]) by {
                lemma_te_kept_refl(x.args@[i]);
            }
        },
        TypeExpr::TEData(x) => {
            super::infer::lemma_opt_kept(x.id.ty);
            assert forall|i: int| 0 <= i < x.type_args@.len() implies te_kept(#[trigger] x.type_args@[i], x.type_args@[i]) by {
                lemma_te_kept_refl(x.type_args@[i]);
            }
        },
        TypeExpr::TEID(x) => {
            super::infer::lemma_opt_kept(x.ty);
        },
        _ => {},
    }
}

proof fn lemma_te_kept_trans(a: TypeExpr, b: TypeExpr, c: TypeExpr)
    requires
        te_kept(a, b),
        te_kept(b, c),
    ensures
        te_kept(a, c),
    decreases a,
{
    match a {
        TypeExpr::TEList(x) => {
            lemma_te_kept_trans(*x.ty, *b->TEList_0.ty, *c->TEList_0.ty);
        },
        TypeExpr::TETuple(x) => {
            assert forall|i: int| 0 <= i < x.ty@.len() implies te_kept(#[trigger] x.ty@[i], c->TETuple_0.ty@[i]) by {
                lemma_te_kept_trans(x.ty@[i], b->TETuple_0.ty@[i], c->TETuple_0.ty@[i]);
            }
        },
        TypeExpr::TEFun(x) => {
            lemma_te_kept_trans(*x.ret, *b->TEFun_0.ret, *c->TEFun_0.ret);
            assert forall|i: int| 0 <= i < x.args@.len() implies te_kept(#[trigger] x.args@[i], c->TEFun_0.args@[i]) by {
                lemma_te_kept_trans(x.args@[i], b->TEFun_0.args@[i], c->TEFun_0.args@[i]);
            }
        },
        TypeExpr::TEData(x) => {
            super::infer::lemma_opt_kept_trans(x.id.ty, b->TEData_0.id.ty, c->TEData_0.id.ty);
            assert forall|i: int| 0 <= i < x.type_args@.len() implies te_kept(#[trigger] x.type_args@[i], c->TEData_0.type_args@[i]) by {
                lemma_te_kept_trans(x.type_args@[i], b->TEData_0.type_args@[i], c->TEData_0.type_args@[i]);
            }
        },
        TypeExpr::TEID(x) => {
            super::infer::lemma_opt_kept_trans(x.ty, b->TEID_0.ty, c->TEID_0.ty);
        },
        _ => {},
    }
}

/// Law: a function whose typed body is a list whose first element is a number can only
/// be accepted if its declared result type can be made a list of `Int`: the list has the
/// type of its first element, whatever the other elements are.
pub proof fn law_list_body_type(a: Defun, b: Defun)
    requires
        body_checked(a, b),
        a.fun_type is TEFun,
        b.expr matches LangExpr::ListExpr(x) && x.exprs@.len() > 0 && x.exprs@[0] is LitNum,
    ensures
        unifiable(texpr_type(*a.fun_type->TEFun_0.ret), spec_ty_list(con0("Int"@))),
{
    let (pre, ret, s0, u) = choose|pre: LangExpr, ret: SType, s0: Sbst, u: Map<ID, SType>|
        #![trigger lang_applied(pre, b.expr, composed(u, sbst_view(s0@))), annotated(pre, ret)]
        annotated(pre, ret) && expr_rule(pre, ret, s0)
        && unifies(u, texpr_type(a.fun_type), spec_ty_fun(effect_type(a.effect == Effect::Pure), arg_types(a.args@.len(), s0), ret))
        && lang_applied(pre, b.expr, composed(u, sbst_view(s0@)));
    let sc = composed(u, sbst_view(s0@));
    let y = b.expr->ListExpr_0;
    assert(pre is ListExpr);
    let x = pre->ListExpr_0;
    assert(lang_applied(x.exprs@[0], y.exprs@[0], sc));
    assert(x.exprs@[0] is LitNum);
    let int_t = con0("Int"@);
    assert(list_rule(x, ret, s0));
    let e0 = choose|e0: SType| #[trigger] annotated(x.exprs@[0], e0) && ret == spec_ty_list(apply(e0, sbst_view(s0@)))
        && forall|i: int| 1 <= i < x.exprs@.len() ==> elem_rule(#[trigger] x.exprs@[i], e0);
    assert(e0 == int_t);
    assert(apply(int_t, sbst_view(s0@)) == int_t) by {
        assert(apply(int_t, sbst_view(s0@))->Con_1 =~= int_t->Con_1);
    }
    let lint = spec_ty_list(int_t);
    assert(ret == lint);
    let f = a.fun_type->TEFun_0;
    let d = texpr_type(a.fun_type);
    let g = spec_ty_fun(effect_type(a.effect == Effect::Pure), arg_types(a.args@.len(), s0), ret);
    assert(apply(d, u) == apply(g, u));
    assert(apply(d, u)->Con_1[2] == apply(texpr_type(*f.ret), u));
    assert(apply(g, u)->Con_1[2] == apply(lint, u));
    assert(apply(lint, u) == lint) by {
        assert(apply(int_t, u)->Con_1 =~= int_t->Con_1);
        assert(apply(lint, u)->Con_1 =~= lint->Con_1);
    }
    assert(unifies(u, texpr_type(*f.ret), lint));
}

/// Checking the body of a copy of a definition checks it against the definition itself.
proof fn lemma_body_checked_kept(a: Defun, b: Defun, c: Defun)
    requires
        defun_kept(a, b),
        body_checked(b, c),
    ensures
        body_checked(a, c),
{
    lemma_kept_type(a.fun_type, b.fun_type);
}

/// Typing a copy of a definition types the definition itself.
proof fn lemma_defun_typed_kept(a: Defun, b: Defun, c: Defun)
    requires
        defun_kept(a, b),
        defun_typed(b, c),
    ensures
        defun_typed(a, c),
{
    lemma_te_kept_trans(a.fun_type, b.fun_type, c.fun_type);
    lemma_kept_type(a.fun_type, b.fun_type);
    assert(b.expr.spec_ast() == a.expr.spec_ast());
    let s = choose|s: Map<ID, SType>| #![trigger apply(texpr_type(b.fun_type), s)] {
        &&& c.ty matches Some(t) && t@ == apply(texpr_type(b.fun_type), s)
        &&& forall|i: int| 0 <= i < b.args@.len() ==> ((#[trigger] c.args@[i]).ty matches Some(t) && t@ == apply(SType::Var(i as ID), s))
    };
    assert forall|i: int| 0 <= i < a.args@.len() implies (#[trigger] c.args@[i]).id == a.args@[i].id && c.args@[i].ast == a.args@[i].ast by {
        assert(id_kept(a.args@[i], b.args@[i]));
    }
}

} // verus!
