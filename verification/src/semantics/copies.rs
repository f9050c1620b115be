//! Deep copies of typed syntax trees.
use super::ast::{
    BoolNode, DataNode, DataType, DataTypeMem, DataTypeName, DefVar, Defun, Exprs, IDNode, IfNode, LangExpr,
    LetNode, MatchCase, MatchNode, NumNode, PatDataNode, PatNilNode, PatTupleNode, Pattern, TEBoolNode, TEDataNode,
    TEFunNode, TEIntNode, TEListNode, TETupleNode, TIDNode, TypeExpr,
};
use super::infer::{id_kept, lang_applied, lemma_apply_empty, opt_applied, pat_applied, tid_kept};
use super::types::Type;
use vstd::prelude::*;

verus! {

/// `b` is a copy of the type expression `a`: the same shape, names, effects and sources.
pub open spec fn te_kept(a: TypeExpr, b: TypeExpr) -> bool
    decreases a,
{
    match a {
        TypeExpr::TEBool(x) => b == a,
        TypeExpr::TEInt(x) => b == a,
        TypeExpr::TEList(x) => b matches TypeExpr::TEList(y) && y.ast == x.ast && te_kept(*x.ty, *y.ty),
        TypeExpr::TETuple(x) => b matches TypeExpr::TETuple(y) && y.ast == x.ast && y.ty@.len() == x.ty@.len()
            && forall|i: int| 0 <= i < x.ty@.len() ==> te_kept(#[trigger] x.ty@[i], y.ty@[i]),
        TypeExpr::TEFun(x) => b matches TypeExpr::TEFun(y) && y.ast == x.ast && y.effect == x.effect
            && te_kept(*x.ret, *y.ret) && y.args@.len() == x.args@.len()
            && forall|i: int| 0 <= i < x.args@.len() ==> te_kept(#[trigger] x.args@[i], y.args@[i]),
        TypeExpr::TEData(x) => b matches TypeExpr::TEData(y) && y.ast == x.ast && tid_kept(x.id, y.id)
            && y.type_args@.len() == x.type_args@.len()
            && forall|i: int| 0 <= i < x.type_args@.len() ==> te_kept(#[trigger] x.type_args@[i], y.type_args@[i]),
        TypeExpr::TEID(x) => b matches TypeExpr::TEID(y) && id_kept(x, y),
    }
}

/// A copy of an annotation.
pub fn copy_opt(o: &Option<Type>) -> (r: Option<Type>)
    ensures
        opt_applied(*o, r, Map::empty()),
{
    match o {
        Some(t) => {
            proof {
                lemma_apply_empty(t@);
            }
            Some(t.clone())
        },
        None => None,
    }
}

impl<'t> Clone for IDNode<'t> {
    fn clone(&self) -> (r: Self)
        ensures
            id_kept(*self, r),
    {
        IDNode { id: self.id, ast: self.ast, ty: copy_opt(&self.ty) }
    }
}

impl<'t> Clone for TIDNode<'t> {
    fn clone(&self) -> (r: Self)
        ensures
            tid_kept(*self, r),
    {
        TIDNode { id: self.id, ast: self.ast, ty: copy_opt(&self.ty) }
    }
}

/// Copies of the type expressions of `v`.
pub fn copy_types<'t>(v: &Vec<TypeExpr<'t>>) -> (r: Vec<TypeExpr<'t>>)
    ensures
        r@.len() == v@.len(),
        forall|i: int| 0 <= i < v@.len() ==> te_kept(#[trigger] v@[i], r@[i]),
    decreases v@, 0nat,
{
    let mut r: Vec<TypeExpr<'t>> = Vec::new();
    let mut i: usize = 0;
    while i < v.len()
        invariant
            0 <= i <= v@.len(),
            r@.len() == i,
            forall|j: int| 0 <= j < i ==> te_kept(#[trigger] v@[j], r@[j]),
        decreases v@.len() - i,
    {
        proof {
            assert(decreases_to!(v@ => v@[i as int]));
        }
        r.push(v[i].clone());
        i += 1;
    }
    r
}

impl<'t> Clone for TypeExpr<'t> {
    fn clone(&self) -> (r: Self)
        ensures
            te_kept(*self, r),
        decreases *self, 1nat,
    {
        match self {
            TypeExpr::TEBool(x) => TypeExpr::TEBool(TEBoolNode { ast: x.ast }),
            TypeExpr::TEInt(x) => TypeExpr::TEInt(TEIntNode { ast: x.ast }),
            TypeExpr::TEList(x) => {
                proof {
                    assert(decreases_to!(*self => self->TEList_0));
                    assert(decreases_to!(self->TEList_0 => *self->TEList_0.ty));
                }
                TypeExpr::TEList(TEListNode { ty: Box::new((*x.ty).clone()), ast: x.ast })
            },
            TypeExpr::TETuple(x) => TypeExpr::TETuple(TETupleNode { ty: copy_types(&x.ty), ast: x.ast }),
            TypeExpr::TEFun(x) => {
                proof {
                    assert(decreases_to!(*self => self->TEFun_0));
                    assert(decreases_to!(self->TEFun_0 => *self->TEFun_0.ret));
                }
                let args = copy_types(&x.args);
                let ret = (*x.ret).clone();
                TypeExpr::TEFun(TEFunNode { effect: x.effect, args: args, ret: Box::new(ret), ast: x.ast })
            },
            TypeExpr::TEData(x) => TypeExpr::TEData(
                TEDataNode { id: x.id.clone(), type_args: copy_types(&x.type_args), ast: x.ast },
            ),
            TypeExpr::TEID(x) => TypeExpr::TEID(x.clone()),
        }
    }
}

/// Copies of the patterns of `v`.
pub fn copy_pats<'t>(v: &Vec<Pattern<'t>>) -> (r: Vec<Pattern<'t>>)
    ensures
        r@.len() == v@.len(),
        forall|i: int| 0 <= i < v@.len() ==> pat_applied(#[trigger] v@[i], r@[i], Map::empty()),
    decreases v@, 0nat,
{
    let mut r: Vec<Pattern<'t>> = Vec::new();
    let mut i: usize = 0;
    while i < v.len()
        invariant
            0 <= i <= v@.len(),
            r@.len() == i,
            forall|j: int| 0 <= j < i ==> pat_applied(#[trigger] v@[j], r@[j], Map::empty()),
        decreases v@.len() - i,
    {
        proof {
            assert(decreases_to!(v@ => v@[i as int]));
        }
        r.push(v[i].clone());
        i += 1;
    }
    r
}

impl<'t> Clone for Pattern<'t> {
    fn clone(&self) -> (r: Self)
        ensures
            pat_applied(*self, r, Map::empty()),
        decreases *self, 1nat,
    {
        match self {
            Pattern::PatNum(x) => Pattern::PatNum(NumNode { num: x.num, ast: x.ast }),
            Pattern::PatBool(x) => Pattern::PatBool(BoolNode { val: x.val, ast: x.ast }),
            Pattern::PatID(x) => Pattern::PatID(x.clone()),
            Pattern::PatTuple(x) => Pattern::PatTuple(
                PatTupleNode { pattern: copy_pats(&x.pattern), ast: x.ast, ty: copy_opt(&x.ty) },
            ),
            Pattern::PatData(x) => Pattern::PatData(
                PatDataNode { label: x.label.clone(), pattern: copy_pats(&x.pattern), ast: x.ast, ty: copy_opt(&x.ty) },
            ),
            Pattern::PatNil(x) => Pattern::PatNil(PatNilNode { ast: x.ast, ty: copy_opt(&x.ty) }),
        }
    }
}

/// Copies of the expressions of `v`.
pub fn copy_exprs<'t>(v: &Vec<LangExpr<'t>>) -> (r: Vec<LangExpr<'t>>)
    ensures
        r@.len() == v@.len(),
        forall|i: int| 0 <= i < v@.len() ==> lang_applied(#[trigger] v@[i], r@[i], Map::empty()),
    decreases v@, 0nat,
{
    let mut r: Vec<LangExpr<'t>> = Vec::new();
    let mut i: usize = 0;
    while i < v.len()
        invariant
            0 <= i <= v@.len(),
            r@.len() == i,
            forall|j: int| 0 <= j < i ==> lang_applied(#[trigger] v@[j], r@[j], Map::empty()),
        decreases v@.len() - i,
    {
        proof {
            assert(decreases_to!(v@ => v@[i as int]));
        }
        r.push(v[i].clone());
        i += 1;
    }
    r
}

fn copy_def_vars<'t>(v: &Vec<DefVar<'t>>) -> (r: Vec<DefVar<'t>>)
    ensures
        r@.len() == v@.len(),
        forall|i: int| 0 <= i < v@.len() ==> {
            &&& pat_applied(#[trigger] v@[i].pattern, r@[i].pattern, Map::empty())
            &&& lang_applied(v@[i].expr, r@[i].expr, Map::empty())
            &&& r@[i].ast == v@[i].ast
            &&& opt_applied(v@[i].ty, r@[i].ty, Map::empty())
        },
    decreases v@, 0nat,
{
    let mut r: Vec<DefVar<'t>> = Vec::new();
    let mut i: usize = 0;
    while i < v.len()
        invariant
            0 <= i <= v@.len(),
            r@.len() == i,
            forall|j: int| 0 <= j < i ==> {
                &&& pat_applied(#[trigger] v@[j].pattern, r@[j].pattern, Map::empty())
                &&& lang_applied(v@[j].expr, r@[j].expr, Map::empty())
                &&& r@[j].ast == v@[j].ast
                &&& opt_applied(v@[j].ty, r@[j].ty, Map::empty())
            },
        decreases v@.len() - i,
    {
        proof {
            assert(decreases_to!(v@ => v@[i as int]));
            assert(decreases_to!(v@[i as int] => v@[i as int].expr));
        }
        let dv = &v[i];
        r.push(DefVar { pattern: dv.pattern.clone(), expr: dv.expr.clone(), ast: dv.ast, ty: copy_opt(&dv.ty) });
        i += 1;
    }
    r
}

fn copy_cases<'t>(v: &Vec<MatchCase<'t>>) -> (r: Vec<MatchCase<'t>>)
    ensures
        r@.len() == v@.len(),
        forall|i: int| 0 <= i < v@.len() ==> {
            &&& pat_applied(#[trigger] v@[i].pattern, r@[i].pattern, Map::empty())
            &&& lang_applied(v@[i].expr, r@[i].expr, Map::empty())
            &&& r@[i].ast == v@[i].ast
            &&& opt_applied(v@[i].ty, r@[i].ty, Map::empty())
        },
    decreases v@, 0nat,
{
    let mut r: Vec<MatchCase<'t>> = Vec::new();
    let mut i: usize = 0;
    while i < v.len()
        invariant
            0 <= i <= v@.len(),
            r@.len() == i,
            forall|j: int| 0 <= j < i ==> {
                &&& pat_applied(#[trigger] v@[j].pattern, r@[j].pattern, Map::empty())
                &&& lang_applied(v@[j].expr, r@[j].expr, Map::empty())
                &&& r@[j].ast == v@[j].ast
                &&& opt_applied(v@[j].ty, r@[j].ty, Map::empty())
            },
        decreases v@.len() - i,
    {
        proof {
            assert(decreases_to!(v@ => v@[i as int]));
            assert(decreases_to!(v@[i as int] => v@[i as int].expr));
        }
        let cs = &v[i];
        r.push(MatchCase { pattern: cs.pattern.clone(), expr: cs.expr.clone(), ast: cs.ast, ty: copy_opt(&cs.ty) });
        i += 1;
    }
    r
}

impl<'t> Clone for LangExpr<'t> {
    fn clone(&self) -> (r: Self)
        ensures
            lang_applied(*self, r, Map::empty()),
        decreases *self, 1nat,
    {
        match self {
            LangExpr::IfExpr(x) => {
                let c = x.cond_expr.clone();
                let t = x.then_expr.clone();
                let e = x.else_expr.clone();
                LangExpr::IfExpr(Box::new(IfNode { cond_expr: c, then_expr: t, else_expr: e, ast: x.ast, ty: copy_opt(&x.ty) }))
            },
            LangExpr::LetExpr(x) => {
                let dvs = copy_def_vars(&x.def_vars);
                let e = x.expr.clone();
                LangExpr::LetExpr(Box::new(LetNode { def_vars: dvs, expr: e, ast: x.ast, ty: copy_opt(&x.ty) }))
            },
            LangExpr::LitNum(x) => LangExpr::LitNum(NumNode { num: x.num, ast: x.ast }),
            LangExpr::LitBool(x) => LangExpr::LitBool(BoolNode { val: x.val, ast: x.ast }),
            LangExpr::IDExpr(x) => LangExpr::IDExpr(x.clone()),
            LangExpr::DataExpr(x) => LangExpr::DataExpr(
                DataNode { label: x.label.clone(), exprs: copy_exprs(&x.exprs), ast: x.ast, ty: copy_opt(&x.ty) },
            ),
            LangExpr::MatchExpr(x) => {
                let e = x.expr.clone();
                let cs = copy_cases(&x.cases);
                LangExpr::MatchExpr(Box::new(MatchNode { expr: e, cases: cs, ast: x.ast, ty: copy_opt(&x.ty) }))
            },
            LangExpr::ApplyExpr(x) => LangExpr::ApplyExpr(Exprs { exprs: copy_exprs(&x.exprs), ast: x.ast, ty: copy_opt(&x.ty) }),
            LangExpr::ListExpr(x) => LangExpr::ListExpr(Exprs { exprs: copy_exprs(&x.exprs), ast: x.ast, ty: copy_opt(&x.ty) }),
            LangExpr::TupleExpr(x) => LangExpr::TupleExpr(Exprs { exprs: copy_exprs(&x.exprs), ast: x.ast, ty: copy_opt(&x.ty) }),
        }
    }
}

/// Copies of the identifiers of `v`.
pub fn copy_ids<'t>(v: &Vec<IDNode<'t>>) -> (r: Vec<IDNode<'t>>)
    ensures
        r@.len() == v@.len(),
        forall|i: int| 0 <= i < v@.len() ==> id_kept(#[trigger] v@[i], r@[i]),
{
    let mut r: Vec<IDNode<'t>> = Vec::new();
    let mut i: usize = 0;
    while i < v.len()
        invariant
            0 <= i <= v@.len(),
            r@.len() == i,
            forall|j: int| 0 <= j < i ==> id_kept(#[trigger] v@[j], r@[j]),
        decreases v@.len() - i,
    {
        r.push(v[i].clone());
        i += 1;
    }
    r
}

/// `b` is a copy of the function definition `a`.
pub open spec fn defun_kept(a: Defun, b: Defun) -> bool {
    &&& id_kept(a.id, b.id)
    &&& b.args@.len() == a.args@.len()
    &&& forall|i: int| 0 <= i < a.args@.len() ==> id_kept(#[trigger] a.args@[i], b.args@[i])
    &&& te_kept(a.fun_type, b.fun_type)
    &&& b.effect == a.effect
    &&& lang_applied(a.expr, b.expr, Map::empty())
    &&& b.ast == a.ast
    &&& opt_applied(a.ty, b.ty, Map::empty())
}

impl<'t> Clone for Defun<'t> {
    fn clone(&self) -> (r: Self)
        ensures
            defun_kept(*self, r),
    {
        Defun {
            id: self.id.clone(),
            args: copy_ids(&self.args),
            fun_type: self.fun_type.clone(),
            effect: self.effect,
            expr: self.expr.clone(),
            ast: self.ast,
            ty: copy_opt(&self.ty),
        }
    }
}

/// `b` is a copy of the name of a data type `a`.
pub open spec fn name_kept(a: DataTypeName, b: DataTypeName) -> bool {
    &&& tid_kept(a.id, b.id)
    &&& b.type_args@.len() == a.type_args@.len()
    &&& forall|i: int| 0 <= i < a.type_args@.len() ==> id_kept(#[trigger] a.type_args@[i], b.type_args@[i])
    &&& b.ast == a.ast
}

impl<'t> Clone for DataTypeName<'t> {
    fn clone(&self) -> (r: Self)
        ensures
            name_kept(*self, r),
    {
        DataTypeName { id: self.id.clone(), type_args: copy_ids(&self.type_args), ast: self.ast }
    }
}

} // verus!
