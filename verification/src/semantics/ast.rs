//! Typed abstract syntax of programs, with links back to the S-expressions they come from.
use super::types::{
    con0, effect_type, spec_ty_fun, spec_ty_list, spec_ty_tuple, ty_bool, ty_fun_of, ty_int, ty_list, ty_tuple, views,
    SType, Tycon, Type, ID,
};
use crate::parser::Expr;
use vstd::prelude::*;

verus! {

/// What went wrong, with the values that the message reports.
#[derive(Debug)]
pub enum ErrMsg {
    /// A message with nothing to fill in.
    Text(&'static str),
    /// `{label} is multiply defined`
    LabelMultiplyDefined(String),
    /// `error: function {name} is multiply defined`
    FunMultiplyDefined(String),
    /// `error: data type {name} is multiply defined`
    DataMultiplyDefined(String),
    /// `error: function type was inferred as {inferred} but defined as {defined}`
    FunTypeMismatch(Type, Type),
    /// `error: {label} requires exactly {expected} arguments but actually passed {actual}`
    ArgCount(String, usize, usize),
    /// `error: mismatched type` with the expected and the actual type
    Mismatch(Type, Type),
    /// `error: mismatched type` with the left and the right side of a binding
    LetMismatch(Type, Type),
    /// `error: {name} is not defined`
    NotDefined(String),
    /// `error: could not find data of label {label}`
    NoDataOfLabel(String),
    /// `error: could not find label {label}`
    NoLabel(String),
    /// `type variable {name} is undefined`
    TypeVarUndefined(String),
    /// `error: {name} is multiply used`
    MultiplyUsed(String),
    /// `error: {name} is undefined`
    Undefined(String),
    /// `error: {name} takes {expected} type arguments but actually passed {actual}`
    TypeArgCount(String, usize, usize),
    /// `error: {name} is unkown type`
    UnknownType(String),
    /// `error: {name}'s definition is inifinete recursive`
    InfiniteRecursive(String),
    /// `error: condition of if expression must be Bool, but found {ty}`
    CondNotBool(Type),
    /// `error: when (if c e1 e2), the types of e1 and e2 must be same`
    IfBranches(Type, Type),
}

#[derive(Debug)]
pub struct TypingErr<'t> {
    pub msg: ErrMsg,
    pub ast: &'t Expr,
}

impl<'t> TypingErr<'t> {
    pub fn new(msg: &'static str, ast: &'t Expr) -> (r: TypingErr<'t>)
        ensures
            r.msg == ErrMsg::Text(msg),
            r.ast == ast,
    {
        TypingErr { msg: ErrMsg::Text(msg), ast: ast }
    }
}

#[derive(Debug)]
pub enum LangExpr<'t> {
    IfExpr(Box<IfNode<'t>>),
    LetExpr(Box<LetNode<'t>>),
    LitNum(NumNode<'t>),
    LitBool(BoolNode<'t>),
    IDExpr(IDNode<'t>),
    DataExpr(DataNode<'t>),
    MatchExpr(Box<MatchNode<'t>>),
    ApplyExpr(Exprs<'t>),
    ListExpr(Exprs<'t>),
    TupleExpr(Exprs<'t>),
}

#[derive(Debug)]
pub struct NumNode<'t> {
    pub num: i64,
    pub ast: &'t Expr,
}

#[derive(Debug)]
pub struct BoolNode<'t> {
    pub val: bool,
    pub ast: &'t Expr,
}

#[derive(Debug)]
pub struct IDNode<'t> {
    pub id: &'t str,
    pub ast: &'t Expr,
    pub ty: Option<Type>,
}

#[derive(Debug)]
pub struct IfNode<'t> {
    pub cond_expr: LangExpr<'t>,
    pub then_expr: LangExpr<'t>,
    pub else_expr: LangExpr<'t>,
    pub ast: &'t Expr,
    pub ty: Option<Type>,
}

#[derive(Debug)]
pub struct LetNode<'t> {
    pub def_vars: Vec<DefVar<'t>>,
    pub expr: LangExpr<'t>,
    pub ast: &'t Expr,
    pub ty: Option<Type>,
}

#[derive(Debug)]
pub struct DefVar<'t> {
    pub pattern: Pattern<'t>,
    pub expr: LangExpr<'t>,
    pub ast: &'t Expr,
    pub ty: Option<Type>,
}

#[derive(Debug)]
pub struct MatchNode<'t> {
    pub expr: LangExpr<'t>,
    pub cases: Vec<MatchCase<'t>>,
    pub ast: &'t Expr,
    pub ty: Option<Type>,
}

#[derive(Debug)]
pub struct DataNode<'t> {
    pub label: TIDNode<'t>,
    pub exprs: Vec<LangExpr<'t>>,
    pub ast: &'t Expr,
    pub ty: Option<Type>,
}

#[derive(Debug)]
pub enum Pattern<'t> {
    PatNum(NumNode<'t>),
    PatBool(BoolNode<'t>),
    PatID(IDNode<'t>),
    PatTuple(PatTupleNode<'t>),
    PatData(PatDataNode<'t>),
    PatNil(PatNilNode<'t>),
}

#[derive(Debug)]
pub struct PatTupleNode<'t> {
    pub pattern: Vec<Pattern<'t>>,
    pub ast: &'t Expr,
    pub ty: Option<Type>,
}

#[derive(Debug)]
pub struct PatDataNode<'t> {
    pub label: TIDNode<'t>,
    pub pattern: Vec<Pattern<'t>>,
    pub ast: &'t Expr,
    pub ty: Option<Type>,
}

#[derive(Debug)]
pub struct PatNilNode<'t> {
    pub ast: &'t Expr,
    pub ty: Option<Type>,
}

#[derive(Debug)]
pub struct MatchCase<'t> {
    pub pattern: Pattern<'t>,
    pub expr: LangExpr<'t>,
    pub ast: &'t Expr,
    pub ty: Option<Type>,
}

#[derive(Debug)]
pub struct Exprs<'t> {
    pub exprs: Vec<LangExpr<'t>>,
    pub ast: &'t Expr,
    pub ty: Option<Type>,
}

#[derive(Debug)]
pub struct TIDNode<'t> {
    pub id: &'t str,
    pub ast: &'t Expr,
    pub ty: Option<Type>,
}

#[derive(Debug)]
pub struct TEBoolNode<'t> {
    pub ast: &'t Expr,
}

#[derive(Debug)]
pub struct TEIntNode<'t> {
    pub ast: &'t Expr,
}

#[derive(Debug)]
pub struct DataType<'t> {
    pub name: DataTypeName<'t>,
    pub members: Vec<DataTypeMem<'t>>,
    pub ast: &'t Expr,
}

#[derive(Debug)]
pub struct DataTypeName<'t> {
    pub id: TIDNode<'t>,
    pub type_args: Vec<IDNode<'t>>,
    pub ast: &'t Expr,
}

#[derive(Debug)]
pub struct DataTypeMem<'t> {
    pub id: TIDNode<'t>,
    pub types: Vec<TypeExpr<'t>>,
    pub ast: &'t Expr,
}

#[derive(Debug)]
pub enum TypeExpr<'t> {
    TEBool(TEBoolNode<'t>),
    TEInt(TEIntNode<'t>),
    TEList(TEListNode<'t>),
    TETuple(TETupleNode<'t>),
    TEFun(TEFunNode<'t>),
    TEData(TEDataNode<'t>),
    TEID(IDNode<'t>),
}

#[derive(Debug)]
pub struct TEListNode<'t> {
    pub ty: Box<TypeExpr<'t>>,
    pub ast: &'t Expr,
}

#[derive(Debug)]
pub struct TETupleNode<'t> {
    pub ty: Vec<TypeExpr<'t>>,
    pub ast: &'t Expr,
}

#[derive(Debug, Clone, Copy, PartialEq, Eq, Structural)]
pub enum Effect {
    IO,
    Pure,
}

#[derive(Debug)]
pub struct TEFunNode<'t> {
    pub effect: Effect,
    pub args: Vec<TypeExpr<'t>>,
    pub ret: Box<TypeExpr<'t>>,
    pub ast: &'t Expr,
}

#[derive(Debug)]
pub struct TEDataNode<'t> {
    pub id: TIDNode<'t>,
    pub type_args: Vec<TypeExpr<'t>>,
    pub ast: &'t Expr,
}

#[derive(Debug)]
pub struct Defun<'t> {
    pub id: IDNode<'t>,
    pub args: Vec<IDNode<'t>>,
    pub fun_type: TypeExpr<'t>,
    pub effect: Effect,
    pub expr: LangExpr<'t>,
    pub ast: &'t Expr,
    pub ty: Option<Type>,
}

impl<'t> LangExpr<'t> {
    /// The S-expression this expression was read from.
    pub open spec fn spec_ast(&self) -> &'t Expr {
        match self {
            LangExpr::IfExpr(e) => e.ast,
            LangExpr::LetExpr(e) => e.ast,
            LangExpr::LitNum(e) => e.ast,
            LangExpr::LitBool(e) => e.ast,
            LangExpr::IDExpr(e) => e.ast,
            LangExpr::DataExpr(e) => e.ast,
            LangExpr::MatchExpr(e) => e.ast,
            LangExpr::ApplyExpr(e) => e.ast,
            LangExpr::ListExpr(e) => e.ast,
            LangExpr::TupleExpr(e) => e.ast,
        }
    }

    #[verifier::when_used_as_spec(spec_ast)]
    pub fn get_ast(&self) -> (r: &'t Expr)
        ensures
            r == self.spec_ast(),
    {
        match self {
            LangExpr::IfExpr(e) => e.ast,
            LangExpr::LetExpr(e) => e.ast,
            LangExpr::LitNum(e) => e.ast,
            LangExpr::LitBool(e) => e.ast,
            LangExpr::IDExpr(e) => e.ast,
            LangExpr::DataExpr(e) => e.ast,
            LangExpr::MatchExpr(e) => e.ast,
            LangExpr::ApplyExpr(e) => e.ast,
            LangExpr::ListExpr(e) => e.ast,
            LangExpr::TupleExpr(e) => e.ast,
        }
    }
}

impl<'t> Pattern<'t> {
    /// The S-expression this pattern was read from.
    pub open spec fn spec_ast(&self) -> &'t Expr {
        match self {
            Pattern::PatNum(e) => e.ast,
            Pattern::PatBool(e) => e.ast,
            Pattern::PatID(e) => e.ast,
            Pattern::PatTuple(e) => e.ast,
            Pattern::PatData(e) => e.ast,
            Pattern::PatNil(e) => e.ast,
        }
    }

    #[verifier::when_used_as_spec(spec_ast)]
    pub fn get_ast(&self) -> (r: &'t Expr)
        ensures
            r == self.spec_ast(),
    {
        match self {
            Pattern::PatNum(e) => e.ast,
            Pattern::PatBool(e) => e.ast,
            Pattern::PatID(e) => e.ast,
            Pattern::PatTuple(e) => e.ast,
            Pattern::PatData(e) => e.ast,
            Pattern::PatNil(e) => e.ast,
        }
    }
}

impl<'t> TypeExpr<'t> {
    /// The S-expression this type expression was read from.
    pub open spec fn spec_ast(&self) -> &'t Expr {
        match self {
            TypeExpr::TEBool(e) => e.ast,
            TypeExpr::TEInt(e) => e.ast,
            TypeExpr::TEList(e) => e.ast,
            TypeExpr::TETuple(e) => e.ast,
            TypeExpr::TEFun(e) => e.ast,
            TypeExpr::TEData(e) => e.ast,
            TypeExpr::TEID(e) => e.ast,
        }
    }
}


/// The type that a type expression denotes.
pub open spec fn texpr_type(te: TypeExpr) -> SType
    decreases te,
{
    match te {
        TypeExpr::TEBool(_) => con0("Bool"@),
        TypeExpr::TEInt(_) => con0("Int"@),
        TypeExpr::TEList(l) => spec_ty_list(texpr_type(*l.ty)),
        TypeExpr::TETuple(t) => spec_ty_tuple(
            Seq::new(t.ty@.len(), |i: int| if 0 <= i < t.ty@.len() { texpr_type(t.ty@[i]) } else { SType::Var(0) }),
        ),
        TypeExpr::TEFun(f) => spec_ty_fun(
            effect_type(f.effect == Effect::Pure),
            Seq::new(f.args@.len(), |i: int| if 0 <= i < f.args@.len() { texpr_type(f.args@[i]) } else { SType::Var(0) }),
            texpr_type(*f.ret),
        ),
        TypeExpr::TEData(d) => SType::Con(
            d.id.id@,
            Seq::new(d.type_args@.len(), |i: int| if 0 <= i < d.type_args@.len() { texpr_type(d.type_args@[i]) } else { SType::Var(0) }),
        ),
        TypeExpr::TEID(id) => con0(id.id@),
    }
}

impl<'t> TypeExpr<'t> {
    /// The type that this type expression denotes.
    pub fn to_type(&self) -> (r: Type)
        ensures
            r@ == texpr_type(*self),
        decreases self,
    {
        match self {
            TypeExpr::TEBool(_) => ty_bool(),
            TypeExpr::TEInt(_) => ty_int(),
            TypeExpr::TEList(list) => {
                proof {
                    assert(decreases_to!(*self => self->TEList_0));
                    assert(decreases_to!(self->TEList_0 => *self->TEList_0.ty));
                }
                ty_list(list.ty.to_type())
            },
            TypeExpr::TETuple(tuple) => {
                let mut v: Vec<Type> = Vec::new();
                let mut i: usize = 0;
                while i < tuple.ty.len()
                    invariant
                        *self == TypeExpr::TETuple(*tuple),
                        0 <= i <= tuple.ty@.len(),
                        v@.len() == i,
                        forall|j: int| 0 <= j < i ==> (#[trigger] v@[j])@ == texpr_type(tuple.ty@[j]),
                    decreases tuple.ty@.len() - i,
                {
                    proof {
                        assert(decreases_to!(*self => self->TETuple_0));
                        assert(decreases_to!(self->TETuple_0 => self->TETuple_0.ty));
                        assert(decreases_to!(self->TETuple_0.ty => self->TETuple_0.ty@));
                    }
                    v.push(tuple.ty[i].to_type());
                    i += 1;
                }
                let ghost vv = v@;
                let r = ty_tuple(v);
                assert(views(vv) =~= texpr_type(*self)->Con_1);
                r
            },
            TypeExpr::TEFun(fun) => {
                let mut targs: Vec<Type> = Vec::new();
                let mut i: usize = 0;
                while i < fun.args.len()
                    invariant
                        *self == TypeExpr::TEFun(*fun),
                        0 <= i <= fun.args@.len(),
                        targs@.len() == i,
                        forall|j: int| 0 <= j < i ==> (#[trigger] targs@[j])@ == texpr_type(fun.args@[j]),
                    decreases fun.args@.len() - i,
                {
                    proof {
                        assert(decreases_to!(*self => self->TEFun_0));
                        assert(decreases_to!(self->TEFun_0 => self->TEFun_0.args));
                        assert(decreases_to!(self->TEFun_0.args => self->TEFun_0.args@));
                    }
                    targs.push(fun.args[i].to_type());
                    i += 1;
                }
                proof {
                    assert(decreases_to!(*self => self->TEFun_0));
                    assert(decreases_to!(self->TEFun_0 => *self->TEFun_0.ret));
                }
                let ghost tv = targs@;
                let ret = fun.ret.to_type();
                let r = ty_fun_of(fun.effect == Effect::Pure, targs, ret);
                assert(views(tv) =~= texpr_type(*self)->Con_1[1]->Con_1);
                assert(r@->Con_1 =~= texpr_type(*self)->Con_1);
                r
            },
            TypeExpr::TEData(data) => {
                let mut v: Vec<Type> = Vec::new();
                let mut i: usize = 0;
                while i < data.type_args.len()
                    invariant
                        *self == TypeExpr::TEData(*data),
                        0 <= i <= data.type_args@.len(),
                        v@.len() == i,
                        forall|j: int| 0 <= j < i ==> (#[trigger] v@[j])@ == texpr_type(data.type_args@[j]),
                    decreases data.type_args@.len() - i,
                {
                    proof {
                        assert(decreases_to!(*self => self->TEData_0));
                        assert(decreases_to!(self->TEData_0 => self->TEData_0.type_args));
                        assert(decreases_to!(self->TEData_0.type_args => self->TEData_0.type_args@));
                    }
                    v.push(data.type_args[i].to_type());
                    i += 1;
                }
                let r = Type::TCon(Tycon { id: string_from(data.id.id), args: v });
                assert(r@->Con_1 =~= texpr_type(*self)->Con_1);
                r
            },
            TypeExpr::TEID(id) => {
                let r = Type::TCon(Tycon { id: string_from(id.id), args: Vec::new() });
                assert(r@->Con_1 =~= Seq::<SType>::empty());
                r
            },
        }
    }
}

/// An owned copy of a string slice.
pub fn string_from(s: &str) -> (r: String)
    ensures
        r@ == s@,
{
    <String as vstd::string::StringExecFns>::from_str(s)
}


/// Every `match` in `e` has at least one case.
pub open spec fn wf_lang(e: LangExpr) -> bool
    decreases e,
{
    match e {
        LangExpr::IfExpr(n) => wf_lang(n.cond_expr) && wf_lang(n.then_expr) && wf_lang(n.else_expr),
        LangExpr::LetExpr(n) => (forall|i: int| 0 <= i < n.def_vars@.len() ==> wf_lang(#[trigger] n.def_vars@[i].expr)) && wf_lang(n.expr),
        LangExpr::MatchExpr(n) => {
            &&& n.cases@.len() > 0
            &&& wf_lang(n.expr)
            &&& forall|i: int| 0 <= i < n.cases@.len() ==> wf_lang(#[trigger] n.cases@[i].expr)
        },
        LangExpr::DataExpr(n) => forall|i: int| 0 <= i < n.exprs@.len() ==> wf_lang(#[trigger] n.exprs@[i]),
        LangExpr::ApplyExpr(n) => forall|i: int| 0 <= i < n.exprs@.len() ==> wf_lang(#[trigger] n.exprs@[i]),
        LangExpr::ListExpr(n) => forall|i: int| 0 <= i < n.exprs@.len() ==> wf_lang(#[trigger] n.exprs@[i]),
        LangExpr::TupleExpr(n) => forall|i: int| 0 <= i < n.exprs@.len() ==> wf_lang(#[trigger] n.exprs@[i]),
        _ => true,
    }
}

} // verus!
