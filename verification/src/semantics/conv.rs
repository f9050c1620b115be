//! Reading programs: from S-expressions to the typed abstract syntax.
use super::ast::{
    wf_lang, BoolNode, DataNode, DefVar, Defun, Exprs, IfNode, LangExpr, LetNode, MatchCase, MatchNode, NumNode, PatDataNode,
    PatNilNode, PatTupleNode, Pattern, DataType, DataTypeMem, DataTypeName, Effect, IDNode, TEBoolNode, TEDataNode, TEFunNode, TEIntNode, TEListNode,
    TETupleNode, TIDNode, TypeExpr, TypingErr, texpr_type,
};
use crate::parser::{ids_nonempty, Expr};
use crate::strs::{first_char, is_upper, str_eq};
use vstd::prelude::*;

verus! {

// ----- the grammar, as predicates on S-expressions -----

/// `$TID`: an identifier that starts with a capital letter.
pub open spec fn is_type_id(e: Expr) -> bool {
    match e {
        Expr::ID(s) => s@.len() > 0 && is_upper(s@[0]),
        _ => false,
    }
}

/// `$ID`: an identifier that does not start with a capital letter.
pub open spec fn is_var_id(e: Expr) -> bool {
    match e {
        Expr::ID(s) => s@.len() > 0 && !is_upper(s@[0]),
        _ => false,
    }
}

/// The identifier `name`.
pub open spec fn is_named(e: Expr, name: Seq<char>) -> bool {
    match e {
        Expr::ID(s) => s@ == name,
        _ => false,
    }
}

/// `$TYPE := Int | Bool | $TYPE_LIST | $TYPE_TUPLE | $TYPE_FUN | $TYPE_DATA | $ID`
pub open spec fn ok_type(e: Expr) -> bool
    decreases e, 1nat,
{
    match e {
        Expr::ID(_) => true,
        Expr::List(l) => l@.len() == 1 && ok_type(l@[0]),
        Expr::Tuple(t) => forall|i: int| 0 <= i < t@.len() ==> ok_type(#[trigger] t@[i]),
        Expr::Apply(es) => {
            &&& es@.len() > 0
            &&& if is_named(es@[0], "Pure"@) || is_named(es@[0], "IO"@) {
                ok_type_fun(e)
            } else {
                &&& is_type_id(es@[0])
                &&& forall|i: int| 1 <= i < es@.len() ==> ok_type(#[trigger] es@[i])
            }
        },
        _ => false,
    }
}

/// `$TYPES := ( $TYPE* )`
pub open spec fn ok_types(e: Expr) -> bool
    decreases e, 0nat,
{
    match e {
        Expr::Apply(ts) => forall|i: int| 0 <= i < ts@.len() ==> ok_type(#[trigger] ts@[i]),
        _ => false,
    }
}

/// `$TYPE_FUN := ( $EFFECT ( -> $TYPES $TYPE ) )`
pub open spec fn ok_type_fun(e: Expr) -> bool
    decreases e, 0nat,
{
    match e {
        Expr::Apply(es) => {
            &&& es@.len() >= 2
            &&& (is_named(es@[0], "IO"@) || is_named(es@[0], "Pure"@))
            &&& match es@[1] {
                Expr::Apply(es2) => {
                    &&& es2@.len() >= 3
                    &&& is_named(es2@[0], "->"@)
                    &&& ok_types(es2@[1])
                    &&& ok_type(es2@[2])
                },
                _ => false,
            }
        },
        _ => false,
    }
}

/// `x` is the node that `expr2id` makes of the identifier `e`: its name, read from `e`,
/// and not annotated.
pub open spec fn id_node(x: IDNode, e: Expr) -> bool {
    x.id@ == e->ID_0@ && *x.ast == e && x.ty is None
}

/// `x` is the node that `expr2type_id` makes of the capital identifier `e`.
pub open spec fn tid_node(x: TIDNode, e: Expr) -> bool {
    x.id@ == e->ID_0@ && *x.ast == e && x.ty is None
}

/// `t` is the type expression that the S-expression `e` denotes: `Int`, `Bool`, a data
/// type (a capital name, with its type arguments), a type variable, a list, a tuple or a
/// function type.
pub open spec fn type_conv(e: Expr, t: TypeExpr) -> bool
    decreases e, 1nat,
{
    match e {
        Expr::ID(s) => if s@ == "Int"@ {
            t matches TypeExpr::TEInt(x) && *x.ast == e
        } else if s@ == "Bool"@ {
            t matches TypeExpr::TEBool(x) && *x.ast == e
        } else if s@.len() > 0 && is_upper(s@[0]) {
            t matches TypeExpr::TEData(d) && d.type_args@.len() == 0 && *d.ast == e && tid_node(d.id, e)
        } else {
            t matches TypeExpr::TEID(x) && id_node(x, e)
        },
        Expr::List(l) => l@.len() == 1 && (t matches TypeExpr::TEList(x) && *x.ast == l@[0] && type_conv(l@[0], *x.ty)),
        Expr::Tuple(ts) => t matches TypeExpr::TETuple(x) && *x.ast == e && x.ty@.len() == ts@.len()
            && forall|i: int| 0 <= i < ts@.len() ==> type_conv(ts@[i], #[trigger] x.ty@[i]),
        Expr::Apply(es) => es@.len() > 0 && if is_named(es@[0], "Pure"@) || is_named(es@[0], "IO"@) {
            fun_conv(e, t)
        } else {
            t matches TypeExpr::TEData(d) && *d.ast == e && tid_node(d.id, es@[0]) && d.type_args@.len() == es@.len() - 1
                && forall|i: int| 0 <= i < d.type_args@.len() ==> type_conv(es@[i + 1], #[trigger] d.type_args@[i])
        },
        _ => false,
    }
}

/// `t` is the function type that `( $EFFECT ( -> ( $TYPE* ) $TYPE ) )` denotes: its effect
/// (`IO` or else `Pure`), the types of its arguments and the type of its result.
pub open spec fn fun_conv(e: Expr, t: TypeExpr) -> bool
    decreases e, 0nat,
{
    match e {
        Expr::Apply(es) => es@.len() >= 2 && match es@[1] {
            Expr::Apply(es2) => es2@.len() >= 3 && match es2@[1] {
                Expr::Apply(args) => t matches TypeExpr::TEFun(f) && *f.ast == e
                    && f.effect == (if is_named(es@[0], "IO"@) { Effect::IO } else { Effect::Pure })
                    && f.args@.len() == args@.len()
                    && (forall|i: int| 0 <= i < args@.len() ==> type_conv(args@[i], #[trigger] f.args@[i]))
                    && type_conv(es2@[2], *f.ret),
                _ => false,
            },
            _ => false,
        },
        _ => false,
    }
}

/// `$DATA_NAME := $TID | ( $TID $ID* )`
pub open spec fn ok_data_name(e: Expr) -> bool {
    match e {
        Expr::ID(_) => is_type_id(e),
        Expr::Apply(xs) => xs@.len() > 0 && is_type_id(xs@[0]) && forall|i: int| 1 <= i < xs@.len() ==> is_var_id(#[trigger] xs@[i]),
        _ => false,
    }
}

/// `$MEMBER := $TID | ( $TID $TYPE* )`
pub open spec fn ok_data_mem(e: Expr) -> bool {
    match e {
        Expr::ID(_) => is_type_id(e),
        Expr::Apply(xs) => xs@.len() > 0 && is_type_id(xs@[0]) && forall|i: int| 1 <= i < xs@.len() ==> ok_type(#[trigger] xs@[i]),
        _ => false,
    }
}

/// `$DATA := ( data $DATA_NAME $MEMBER+ )`
pub open spec fn ok_data(e: Expr) -> bool {
    match e {
        Expr::Apply(es) => es@.len() >= 3 && ok_data_name(es@[1]) && forall|i: int| 2 <= i < es@.len() ==> ok_data_mem(#[trigger] es@[i]),
        _ => false,
    }
}

/// `n` is the name that `$DATA_NAME` denotes: the name and the names of its type arguments.
pub open spec fn data_name_conv(e: Expr, n: DataTypeName) -> bool {
    match e {
        Expr::ID(s) => *n.ast == e && tid_node(n.id, e) && n.type_args@.len() == 0,
        Expr::Apply(xs) => xs@.len() > 0 && *n.ast == e && tid_node(n.id, xs@[0]) && n.type_args@.len() == xs@.len() - 1
            && forall|i: int| 0 <= i < n.type_args@.len() ==> id_node(#[trigger] n.type_args@[i], xs@[i + 1]),
        _ => false,
    }
}

/// `m` is the member that `$MEMBER` denotes: its label and the types of its elements.
pub open spec fn data_mem_conv(e: Expr, m: DataTypeMem) -> bool {
    match e {
        Expr::ID(s) => *m.ast == e && tid_node(m.id, e) && m.types@.len() == 0,
        Expr::Apply(xs) => xs@.len() > 0 && *m.ast == e && tid_node(m.id, xs@[0]) && m.types@.len() == xs@.len() - 1
            && forall|i: int| 0 <= i < m.types@.len() ==> type_conv(xs@[i + 1], #[trigger] m.types@[i]),
        _ => false,
    }
}

/// `d` is the data type that `( data $DATA_NAME $MEMBER+ )` defines: its name and its
/// members in order.
pub open spec fn data_conv(e: Expr, d: DataType) -> bool {
    match e {
        Expr::Apply(es) => es@.len() >= 2 && *d.ast == e && data_name_conv(es@[1], d.name) && d.members@.len() == es@.len() - 2
            && forall|i: int| 0 <= i < d.members@.len() ==> data_mem_conv(es@[i + 2], #[trigger] d.members@[i]),
        _ => false,
    }
}

/// `$LETPAT := $ID | [ $LETPAT+ ] | ( $TID $LETPAT+ )`
pub open spec fn ok_letpat(e: Expr) -> bool
    decreases e,
{
    match e {
        Expr::ID(s) => !is_upper(s@[0]),
        Expr::Tuple(t) => t@.len() > 0 && forall|i: int| 0 <= i < t@.len() ==> ok_letpat(#[trigger] t@[i]),
        Expr::Apply(xs) => xs@.len() >= 2 && is_type_id(xs@[0]) && forall|i: int| 1 <= i < xs@.len() ==> ok_letpat(#[trigger] xs@[i]),
        _ => false,
    }
}

/// `$PATTERN := $LITERAL | $ID | $TID | [ $PATTERN* ] | ( $TID $PATTERN* ) | '()`
pub open spec fn ok_mpat(e: Expr) -> bool
    decreases e,
{
    match e {
        Expr::ID(_) => true,
        Expr::Bool(_) => true,
        Expr::Num(_) => true,
        Expr::Tuple(t) => forall|i: int| 0 <= i < t@.len() ==> ok_mpat(#[trigger] t@[i]),
        Expr::Apply(xs) => xs@.len() > 0 && is_type_id(xs@[0]) && forall|i: int| 1 <= i < xs@.len() ==> ok_mpat(#[trigger] xs@[i]),
        Expr::List(l) => l@.len() == 0,
    }
}

/// `$DEFVAR := ( $LETPAT $EXPR )`, given the verdict on the expression
pub open spec fn ok_def_var_with(dv: Expr, body_ok: bool) -> bool {
    match dv {
        Expr::Apply(xs) => xs@.len() == 2 && ok_letpat(xs@[0]) && body_ok,
        _ => false,
    }
}

/// `$CASE := ( $PATTERN $EXPR )`, given the verdict on the expression
pub open spec fn ok_case_with(c: Expr, body_ok: bool) -> bool {
    match c {
        Expr::Apply(xs) => xs@.len() == 2 && ok_mpat(xs@[0]) && body_ok,
        _ => false,
    }
}

/// The second element of an application, or the expression itself.
pub open spec fn second(e: Expr) -> Expr {
    match e {
        Expr::Apply(xs) => if xs@.len() == 2 { xs@[1] } else { e },
        _ => e,
    }
}

/// Whether `dv` has two elements and the second is a well-formed expression.
pub open spec fn body_ok(dv: Expr) -> bool
    decreases dv,
{
    match dv {
        Expr::Apply(xs) => xs@.len() == 2 && ok_expr(xs@[1]),
        _ => false,
    }
}

/// `$EXPR := $LITERAL | $ID | $TID | $LET | $IF | $MATCH | $LIST | $TUPLE | $APPLY`
pub open spec fn ok_expr(e: Expr) -> bool
    decreases e,
{
    match e {
        Expr::Num(_) => true,
        Expr::Bool(_) => true,
        Expr::ID(_) => true,
        Expr::List(l) => forall|i: int| 0 <= i < l@.len() ==> ok_expr(#[trigger] l@[i]),
        Expr::Tuple(t) => forall|i: int| 0 <= i < t@.len() ==> ok_expr(#[trigger] t@[i]),
        Expr::Apply(es) => {
            &&& es@.len() > 0
            &&& if is_type_id(es@[0]) {
                forall|i: int| 1 <= i < es@.len() ==> ok_expr(#[trigger] es@[i])
            } else if is_named(es@[0], "if"@) {
                es@.len() >= 4 && ok_expr(es@[1]) && ok_expr(es@[2]) && ok_expr(es@[3])
            } else if is_named(es@[0], "let"@) {
                &&& es@.len() >= 3
                &&& match es@[1] {
                    Expr::Apply(dvs) => dvs@.len() > 0 && forall|i: int| 0 <= i < dvs@.len() ==>
                        ok_def_var_with(#[trigger] dvs@[i], body_ok(dvs@[i])),
                    _ => false,
                }
                &&& ok_expr(es@[2])
            } else if is_named(es@[0], "match"@) {
                &&& es@.len() >= 3
                &&& ok_expr(es@[1])
                &&& forall|i: int| 2 <= i < es@.len() ==> ok_case_with(#[trigger] es@[i], body_ok(es@[i]))
            } else {
                forall|i: int| 0 <= i < es@.len() ==> ok_expr(#[trigger] es@[i])
            }
        },
    }
}

/// `$DEFUN := ( $HEAD_DEFUN $ID ( $ID* ) $TYPE_FUN $EXPR )`
pub open spec fn ok_defun(e: Expr) -> bool {
    match e {
        Expr::Apply(es) => {
            &&& es@.len() >= 5
            &&& is_var_id(es@[1])
            &&& match es@[2] {
                Expr::Apply(args) => forall|i: int| 0 <= i < args@.len() ==> is_var_id(#[trigger] args@[i]),
                _ => false,
            }
            &&& ok_type_fun(es@[3])
            &&& ok_expr(es@[4])
        },
        _ => false,
    }
}

/// `p` is the pattern that `$LETPAT` denotes.
pub open spec fn letpat_conv(e: Expr, p: Pattern) -> bool
    decreases e,
{
    match e {
        Expr::ID(s) => p matches Pattern::PatID(x) && id_node(x, e),
        Expr::Tuple(t) => p matches Pattern::PatTuple(x) && *x.ast == e && x.ty is None && x.pattern@.len() == t@.len()
            && forall|i: int| 0 <= i < t@.len() ==> letpat_conv(t@[i], #[trigger] x.pattern@[i]),
        Expr::Apply(xs) => xs@.len() > 0 && (p matches Pattern::PatData(x) && *x.ast == e && x.ty is None && tid_node(x.label, xs@[0])
            && x.pattern@.len() == xs@.len() - 1
            && forall|i: int| 0 <= i < x.pattern@.len() ==> letpat_conv(xs@[i + 1], #[trigger] x.pattern@[i])),
        _ => false,
    }
}

/// `p` is the pattern that `$PATTERN` denotes.
pub open spec fn mpat_conv(e: Expr, p: Pattern) -> bool
    decreases e,
{
    match e {
        Expr::ID(s) => if is_upper(s@[0]) {
            p matches Pattern::PatData(x) && *x.ast == e && x.ty is None && tid_node(x.label, e) && x.pattern@.len() == 0
        } else {
            p matches Pattern::PatID(x) && id_node(x, e)
        },
        Expr::Bool(b) => p matches Pattern::PatBool(x) && *x.ast == e && x.val == b,
        Expr::Num(n) => p matches Pattern::PatNum(x) && *x.ast == e && x.num == n,
        Expr::Tuple(t) => p matches Pattern::PatTuple(x) && *x.ast == e && x.ty is None && x.pattern@.len() == t@.len()
            && forall|i: int| 0 <= i < t@.len() ==> mpat_conv(t@[i], #[trigger] x.pattern@[i]),
        Expr::Apply(xs) => xs@.len() > 0 && (p matches Pattern::PatData(x) && *x.ast == e && x.ty is None && tid_node(x.label, xs@[0])
            && x.pattern@.len() == xs@.len() - 1
            && forall|i: int| 0 <= i < x.pattern@.len() ==> mpat_conv(xs@[i + 1], #[trigger] x.pattern@[i])),
        Expr::List(_) => p matches Pattern::PatNil(x) && *x.ast == e && x.ty is None,
    }
}

/// `x` is the expression that `$EXPR` denotes: literals keep their value, a capital name
/// is a data constructor without elements and any other name a variable; lists and tuples
/// convert their elements; an application is a data constructor, an `if`, a `let`, a
/// `match` or a function application by its head. Nothing is annotated yet.
pub open spec fn lang_conv(e: Expr, x: LangExpr) -> bool
    decreases e,
{
    *x.spec_ast() == e && match e {
        Expr::Num(n) => x matches LangExpr::LitNum(y) && y.num == n,
        Expr::Bool(b) => x matches LangExpr::LitBool(y) && y.val == b,
        Expr::ID(s) => if is_upper(s@[0]) {
            x matches LangExpr::DataExpr(y) && y.ty is None && tid_node(y.label, e) && y.exprs@.len() == 0
        } else {
            x matches LangExpr::IDExpr(y) && id_node(y, e)
        },
        Expr::List(l) => x matches LangExpr::ListExpr(y) && y.ty is None && y.exprs@.len() == l@.len()
            && forall|i: int| 0 <= i < l@.len() ==> lang_conv(l@[i], #[trigger] y.exprs@[i]),
        Expr::Tuple(t) => x matches LangExpr::TupleExpr(y) && y.ty is None && y.exprs@.len() == t@.len()
            && forall|i: int| 0 <= i < t@.len() ==> lang_conv(t@[i], #[trigger] y.exprs@[i]),
        Expr::Apply(es) => es@.len() > 0 && if is_type_id(es@[0]) {
            x matches LangExpr::DataExpr(y) && y.ty is None && tid_node(y.label, es@[0])
                && y.exprs@.len() == es@.len() - 1
                && forall|i: int| 0 <= i < y.exprs@.len() ==> lang_conv(es@[i + 1], #[trigger] y.exprs@[i])
        } else if is_named(es@[0], "if"@) {
            es@.len() >= 4 && (x matches LangExpr::IfExpr(y) && y.ty is None && lang_conv(es@[1], y.cond_expr)
                && lang_conv(es@[2], y.then_expr) && lang_conv(es@[3], y.else_expr))
        } else if is_named(es@[0], "let"@) {
            es@.len() >= 3 && (x matches LangExpr::LetExpr(y) && y.ty is None && lang_conv(es@[2], y.expr)
                && (es@[1] matches Expr::Apply(dvs) && y.def_vars@.len() == dvs@.len()
                && forall|i: int| 0 <= i < dvs@.len() ==> defvar_conv(dvs@[i], #[trigger] y.def_vars@[i])))
        } else if is_named(es@[0], "match"@) {
            es@.len() >= 3 && (x matches LangExpr::MatchExpr(y) && y.ty is None && lang_conv(es@[1], y.expr)
                && y.cases@.len() == es@.len() - 2
                && forall|i: int| 0 <= i < y.cases@.len() ==> case_conv(es@[i + 2], #[trigger] y.cases@[i]))
        } else {
            x matches LangExpr::ApplyExpr(y) && y.ty is None && y.exprs@.len() == es@.len()
                && forall|i: int| 0 <= i < es@.len() ==> lang_conv(es@[i], #[trigger] y.exprs@[i])
        },
    }
}

/// `d` is the binding that `( $LETPAT $EXPR )` denotes.
pub open spec fn defvar_conv(dv: Expr, d: DefVar) -> bool
    decreases dv,
{
    match dv {
        Expr::Apply(xs) => xs@.len() == 2 && *d.ast == dv && d.ty is None && letpat_conv(xs@[0], d.pattern) && lang_conv(xs@[1], d.expr),
        _ => false,
    }
}

/// `c` is the case that `( $PATTERN $EXPR )` denotes.
pub open spec fn case_conv(ce: Expr, c: MatchCase) -> bool
    decreases ce,
{
    match ce {
        Expr::Apply(xs) => xs@.len() == 2 && *c.ast == ce && c.ty is None && mpat_conv(xs@[0], c.pattern) && lang_conv(xs@[1], c.expr),
        _ => false,
    }
}

/// `d` is the function that `( $HEAD_DEFUN $ID ( $ID* ) $TYPE_FUN $EXPR )` defines: its
/// name, the names of its arguments in order, its declared type with that type's effect and
/// the type it denotes as its annotation, and its body.
pub open spec fn defun_conv(e: Expr, d: Defun) -> bool {
    match e {
        Expr::Apply(es) => {
            &&& es@.len() >= 5
            &&& *d.ast == e
            &&& id_node(d.id, es@[1])
            &&& es@[2] matches Expr::Apply(args) && d.args@.len() == args@.len()
                && forall|i: int| 0 <= i < args@.len() ==> id_node(#[trigger] d.args@[i], args@[i])
            &&& fun_conv(es@[3], d.fun_type)
            &&& *d.fun_type.spec_ast() == es@[3]
            &&& d.fun_type matches TypeExpr::TEFun(f) && d.effect == f.effect
            &&& d.ty matches Some(t) && t@ == texpr_type(d.fun_type)
            &&& lang_conv(es@[4], d.expr)
        },
        _ => false,
    }
}

// ----- termination helpers -----

pub proof fn lemma_apply_child(e: Expr, i: int)
    requires
        e is Apply,
        0 <= i < e->Apply_0@.len(),
    ensures
        decreases_to!(e => e->Apply_0@[i]),
        ids_nonempty(e) ==> ids_nonempty(e->Apply_0@[i]),
{
    assert(decreases_to!(e => e->Apply_0));
    assert(decreases_to!(e->Apply_0 => e->Apply_0@));
}

pub proof fn lemma_list_child(e: Expr, i: int)
    requires
        e is List,
        0 <= i < e->List_0@.len(),
    ensures
        decreases_to!(e => e->List_0@[i]),
        ids_nonempty(e) ==> ids_nonempty(e->List_0@[i]),
{
    assert(decreases_to!(e => e->List_0));
    assert(decreases_to!(e->List_0 => e->List_0@));
}

pub proof fn lemma_tuple_child(e: Expr, i: int)
    requires
        e is Tuple,
        0 <= i < e->Tuple_0@.len(),
    ensures
        decreases_to!(e => e->Tuple_0@[i]),
        ids_nonempty(e) ==> ids_nonempty(e->Tuple_0@[i]),
{
    assert(decreases_to!(e => e->Tuple_0));
    assert(decreases_to!(e->Tuple_0 => e->Tuple_0@));
}

// ----- identifiers -----

fn is_upper_char(c: char) -> (r: bool)
    ensures
        r == is_upper(c),
{
    'A' <= c && c <= 'Z'
}

/// `$TID`
pub fn expr2type_id<'t>(expr: &'t Expr) -> (r: Result<TIDNode<'t>, TypingErr<'t>>)
    ensures
        r is Ok <==> is_type_id(*expr),
        r matches Ok(t) ==> t.ast == expr && t.id@ == expr->ID_0@ && t.ty is None,
        r matches Err(e) ==> e.ast == expr,
{
    match expr {
        Expr::ID(id) => {
            match first_char(id.as_str()) {
                Some(c) => {
                    if is_upper_char(c) {
                        Ok(TIDNode { id: id.as_str(), ast: expr, ty: None })
                    } else {
                        Err(TypingErr::new("error: the first character must be captal", expr))
                    }
                },
                _ => Err(TypingErr::new("error", expr)),
            }
        },
        _ => Err(TypingErr::new("error: must be type identifier", expr)),
    }
}

/// `$ID`
pub fn expr2id<'t>(expr: &'t Expr) -> (r: Result<IDNode<'t>, TypingErr<'t>>)
    ensures
        r is Ok <==> is_var_id(*expr),
        r matches Ok(t) ==> t.ast == expr && t.id@ == expr->ID_0@ && t.ty is None,
        r matches Err(e) ==> e.ast == expr,
{
    match expr {
        Expr::ID(id) => {
            match first_char(id.as_str()) {
                Some(c) => {
                    if is_upper_char(c) {
                        Err(TypingErr::new("error: the first character must not be captal", expr))
                    } else {
                        Ok(IDNode { id: id.as_str(), ast: expr, ty: None })
                    }
                },
                _ => Err(TypingErr::new("error", expr)),
            }
        },
        _ => Err(TypingErr::new("error: must be identifier", expr)),
    }
}

/// Whether `expr` is the identifier `name`.
fn id_is(expr: &Expr, name: &str) -> (r: bool)
    ensures
        r == is_named(*expr, name@),
{
    match expr {
        Expr::ID(id) => str_eq(id.as_str(), name),
        _ => false,
    }
}

// ----- types -----

/// `$TYPE := Int | Bool | $TYPE_LIST | $TYPE_TUPLE | $TYPE_FUN | $TYPE_DATA | $ID`
pub fn expr2type<'t>(expr: &'t Expr) -> (r: Result<TypeExpr<'t>, TypingErr<'t>>)
    requires
        ids_nonempty(*expr),
    ensures
        r is Ok <==> ok_type(*expr),
        r matches Ok(t) ==> (t is TEList || t.spec_ast() == expr),
        r matches Ok(t) ==> type_conv(*expr, t),
    decreases expr, 1nat,
{
    match expr {
        Expr::ID(id) => {
            if str_eq(id.as_str(), "Int") {
                Ok(TypeExpr::TEInt(TEIntNode { ast: expr }))
            } else if str_eq(id.as_str(), "Bool") {
                Ok(TypeExpr::TEBool(TEBoolNode { ast: expr }))
            } else {
                let c = first_char(id.as_str()).unwrap();
                if is_upper_char(c) {
                    let tid = expr2type_id(expr)?;
                    Ok(TypeExpr::TEData(TEDataNode { id: tid, type_args: Vec::new(), ast: expr }))
                } else {
                    Ok(TypeExpr::TEID(expr2id(expr)?))
                }
            }
        },
        Expr::List(list) => {
            if list.len() != 1 {
                return Err(TypingErr::new("error: require exactly one type as a type argument for list type", expr));
            }
            proof {
                lemma_list_child(*expr, 0);
            }
            let e = &list[0];
            let ty = Box::new(expr2type(e)?);
            Ok(TypeExpr::TEList(TEListNode { ty: ty, ast: e }))
        },
        Expr::Tuple(tuple) => {
            let mut types: Vec<TypeExpr<'t>> = Vec::new();
            let mut i: usize = 0;
            while i < tuple.len()
                invariant
                    *expr == Expr::Tuple(*tuple),
                    ids_nonempty(*expr),
                    0 <= i <= tuple@.len(),
                    types@.len() == i,
                    forall|j: int| 0 <= j < i ==> ok_type(#[trigger] tuple@[j]),
                    forall|j: int| 0 <= j < i ==> type_conv(tuple@[j], #[trigger] types@[j]),
                decreases tuple@.len() - i,
            {
                proof {
                    lemma_tuple_child(*expr, i as int);
                }
                types.push(expr2type(&tuple[i])?);
                i += 1;
            }
            Ok(TypeExpr::TETuple(TETupleNode { ty: types, ast: expr }))
        },
        Expr::Apply(exprs) => {
            if exprs.len() == 0 {
                return Err(TypingErr::new("error: require type", expr));
            }
            proof {
                lemma_apply_child(*expr, 0);
            }
            let e = &exprs[0];
            let tid;
            match e {
                Expr::ID(id) => {
                    if str_eq(id.as_str(), "Pure") || str_eq(id.as_str(), "IO") {
                        // $TYPE_FUN
                        return expr2type_fun(expr);
                    }
                    tid = expr2type_id(e)?;
                },
                _ => {
                    return Err(TypingErr::new("error: require type", expr));
                },
            }
            let mut args: Vec<TypeExpr<'t>> = Vec::new();
            let mut i: usize = 1;
            while i < exprs.len()
                invariant
                    *expr == Expr::Apply(*exprs),
                    ids_nonempty(*expr),
                    1 <= i <= exprs@.len(),
                    !is_named(exprs@[0], "Pure"@) && !is_named(exprs@[0], "IO"@),
                    args@.len() == i - 1,
                    forall|j: int| 1 <= j < i ==> ok_type(#[trigger] exprs@[j]),
                    forall|j: int| 0 <= j < i - 1 ==> type_conv(exprs@[j + 1], #[trigger] args@[j]),
                decreases exprs@.len() - i,
            {
                proof {
                    lemma_apply_child(*expr, i as int);
                }
                args.push(expr2type(&exprs[i])?);
                i += 1;
            }
            Ok(TypeExpr::TEData(TEDataNode { id: tid, type_args: args, ast: expr }))
        },
        _ => Err(TypingErr::new("error: must be type", expr)),
    }
}

/// `$TYPE_FUN := ( $EFFECT ( -> ($TYPES) $TYPE ) )`
pub fn expr2type_fun<'t>(expr: &'t Expr) -> (r: Result<TypeExpr<'t>, TypingErr<'t>>)
    requires
        ids_nonempty(*expr),
    ensures
        r is Ok <==> ok_type_fun(*expr),
        r matches Ok(t) ==> t is TEFun && t.spec_ast() == expr,
        r matches Ok(t) ==> fun_conv(*expr, t),
    decreases expr, 0nat,
{
    match expr {
        Expr::Apply(exprs) => {
            // $EFFECT := Pure | IO
            if exprs.len() == 0 {
                return Err(TypingErr::new("error: invalid effect", expr));
            }
            proof {
                lemma_apply_child(*expr, 0);
            }
            let effect;
            match &exprs[0] {
                Expr::ID(eff) => {
                    if str_eq(eff.as_str(), "IO") {
                        effect = Effect::IO;
                    } else if str_eq(eff.as_str(), "Pure") {
                        effect = Effect::Pure;
                    } else {
                        return Err(TypingErr::new("error: effect must be \"Pure\" or \"IO\"", &exprs[0]));
                    }
                },
                _ => {
                    return Err(TypingErr::new("error: invalid effect", expr));
                },
            }
            // ( -> ($TYPES) $TYPE )
            if exprs.len() < 2 {
                return Err(TypingErr::new("error: require function type", expr));
            }
            proof {
                lemma_apply_child(*expr, 1);
            }
            let e1 = &exprs[1];
            match e1 {
                Expr::Apply(exprs2) => {
                    if exprs2.len() == 0 {
                        return Err(TypingErr::new("error: require \"->\"", e1));
                    }
                    match &exprs2[0] {
                        Expr::ID(arr) => {
                            if !str_eq(arr.as_str(), "->") {
                                return Err(TypingErr::new("error: must be \"->\"", &exprs2[0]));
                            }
                        },
                        _ => {
                            return Err(TypingErr::new("error: require \"->\"", e1));
                        },
                    }
                    if exprs2.len() < 2 {
                        return Err(TypingErr::new("error: require types for arguments", e1));
                    }
                    proof {
                        lemma_apply_child(*e1, 1);
                    }
                    let args = expr2types(&exprs2[1])?;
                    if exprs2.len() < 3 {
                        return Err(TypingErr::new("error: require type for return value", e1));
                    }
                    proof {
                        lemma_apply_child(*e1, 2);
                    }
                    let ret = expr2type(&exprs2[2])?;
                    Ok(TypeExpr::TEFun(TEFunNode { effect: effect, args: args, ret: Box::new(ret), ast: expr }))
                },
                _ => Err(TypingErr::new("error: require function type", expr)),
            }
        },
        _ => Err(TypingErr::new("error", expr)),
    }
}

/// `$TYPES := ( $TYPE* )`
pub fn expr2types<'t>(expr: &'t Expr) -> (r: Result<Vec<TypeExpr<'t>>, TypingErr<'t>>)
    requires
        ids_nonempty(*expr),
    ensures
        r is Ok <==> ok_types(*expr),
        r matches Ok(v) ==> v@.len() == expr->Apply_0@.len(),
        r matches Ok(v) ==> forall|i: int| 0 <= i < v@.len() ==> type_conv(expr->Apply_0@[i], #[trigger] v@[i]),
    decreases expr, 0nat,
{
    match expr {
        Expr::Apply(types) => {
            proof {
                assert forall|i: int| 0 <= i < types@.len() implies ids_nonempty(#[trigger] types@[i]) by {
                    lemma_apply_child(*expr, i);
                }
            }
            proof {
                assert(decreases_to!(*expr => (*expr)->Apply_0));
            }
            Ok(list_types2vec_types(types)?)
        },
        _ => Err(TypingErr::new("error: require types of arguments", expr)),
    }
}

/// Each expression of `exprs` as a type, in order.
pub fn list_types2vec_types<'t>(exprs: &'t Vec<Expr>) -> (r: Result<Vec<TypeExpr<'t>>, TypingErr<'t>>)
    requires
        forall|i: int| 0 <= i < exprs@.len() ==> ids_nonempty(#[trigger] exprs@[i]),
    ensures
        r is Ok <==> forall|i: int| 0 <= i < exprs@.len() ==> ok_type(#[trigger] exprs@[i]),
        r matches Ok(v) ==> v@.len() == exprs@.len(),
        r matches Ok(v) ==> forall|i: int| 0 <= i < v@.len() ==> type_conv(exprs@[i], #[trigger] v@[i]),
    decreases exprs, 0nat,
{
    let mut v: Vec<TypeExpr<'t>> = Vec::new();
    let mut i: usize = 0;
    while i < exprs.len()
        invariant
            0 <= i <= exprs@.len(),
            v@.len() == i,
            forall|j: int| 0 <= j < exprs@.len() ==> ids_nonempty(#[trigger] exprs@[j]),
            forall|j: int| 0 <= j < i ==> ok_type(#[trigger] exprs@[j]),
            forall|j: int| 0 <= j < i ==> type_conv(exprs@[j], #[trigger] v@[j]),
        decreases exprs@.len() - i,
    {
        proof {
            assert(decreases_to!(*exprs => exprs@));
        }
        let t = expr2type(&exprs[i])?;
        v.push(t);
        i += 1;
    }
    Ok(v)
}

// ----- data definitions -----

/// `$DATA := ( data $DATA_NAME $MEMBER+ )`
pub fn expr2data<'t>(expr: &'t Expr) -> (r: Result<DataType<'t>, TypingErr<'t>>)
    requires
        ids_nonempty(*expr),
    ensures
        r is Ok <==> ok_data(*expr),
        r matches Ok(d) ==> data_conv(*expr, d),
        r matches Ok(d) ==> d.ast == expr && d.name.id.id@ == match expr->Apply_0@[1] {
            Expr::Apply(xs) => xs@[0]->ID_0@,
            x => x->ID_0@,
        },
{
    match expr {
        Expr::Apply(exprs) => {
            // $DATA_NAME
            if exprs.len() < 2 {
                return Err(TypingErr::new("error: require data name", expr));
            }
            proof {
                lemma_apply_child(*expr, 1);
            }
            let data_name = expr2data_name(&exprs[1])?;
            // $MEMBER+
            if exprs.len() < 3 {
                return Err(TypingErr::new("error: require at least one member", expr));
            }
            let mut mems: Vec<DataTypeMem<'t>> = Vec::new();
            let mut i: usize = 2;
            while i < exprs.len()
                invariant
                    *expr == Expr::Apply(*exprs),
                    ids_nonempty(*expr),
                    2 <= i <= exprs@.len(),
                    mems@.len() == i - 2,
                    forall|j: int| 2 <= j < i ==> ok_data_mem(#[trigger] exprs@[j]),
                    forall|j: int| 0 <= j < i - 2 ==> data_mem_conv(exprs@[j + 2], #[trigger] mems@[j]),
                decreases exprs@.len() - i,
            {
                proof {
                    lemma_apply_child(*expr, i as int);
                }
                let data_mem = expr2data_mem(&exprs[i])?;
                mems.push(data_mem);
                i += 1;
            }
            Ok(DataType { name: data_name, members: mems, ast: expr })
        },
        _ => Err(TypingErr::new("error: syntax error on data definition", expr)),
    }
}

/// `$DATA_NAME := $TID | ( $TID $ID* )`
pub fn expr2data_name<'t>(expr: &'t Expr) -> (r: Result<DataTypeName<'t>, TypingErr<'t>>)
    requires
        ids_nonempty(*expr),
    ensures
        r is Ok <==> ok_data_name(*expr),
        r matches Ok(n) ==> data_name_conv(*expr, n),
        r matches Ok(n) ==> n.ast == expr && n.id.id@ == match *expr {
            Expr::Apply(xs) => xs@[0]->ID_0@,
            x => x->ID_0@,
        },
{
    match expr {
        Expr::ID(_) => {
            let tid = expr2type_id(expr)?;
            Ok(DataTypeName { id: tid, type_args: Vec::new(), ast: expr })
        },
        Expr::Apply(exprs) => {
            if exprs.len() == 0 {
                return Err(TypingErr::new("error: must type identifier (with type arguments)", expr));
            }
            let tid = expr2type_id(&exprs[0])?;
            let mut args: Vec<IDNode<'t>> = Vec::new();
            let mut i: usize = 1;
            while i < exprs.len()
                invariant
                    *expr == Expr::Apply(*exprs),
                    1 <= i <= exprs@.len(),
                    args@.len() == i - 1,
                    forall|j: int| 1 <= j < i ==> is_var_id(#[trigger] exprs@[j]),
                    forall|j: int| 0 <= j < i - 1 ==> id_node(#[trigger] args@[j], exprs@[j + 1]),
                decreases exprs@.len() - i,
            {
                let id = expr2id(&exprs[i])?;
                args.push(id);
                i += 1;
            }
            Ok(DataTypeName { id: tid, type_args: args, ast: expr })
        },
        _ => Err(TypingErr::new("error: must type identifier (with type arguments)", expr)),
    }
}

/// `$MEMBER := $TID | ( $TID $TYPE* )`
pub fn expr2data_mem<'t>(expr: &'t Expr) -> (r: Result<DataTypeMem<'t>, TypingErr<'t>>)
    requires
        ids_nonempty(*expr),
    ensures
        r is Ok <==> ok_data_mem(*expr),
        r matches Ok(m) ==> m.ast == expr && data_mem_conv(*expr, m),
{
    match expr {
        Expr::ID(_) => {
            let tid = expr2type_id(expr)?;
            Ok(DataTypeMem { id: tid, types: Vec::new(), ast: expr })
        },
        Expr::Apply(exprs) => {
            if exprs.len() == 0 {
                return Err(TypingErr::new("error: must type identifier", expr));
            }
            let tid = expr2type_id(&exprs[0])?;
            let mut types: Vec<TypeExpr<'t>> = Vec::new();
            let mut i: usize = 1;
            while i < exprs.len()
                invariant
                    *expr == Expr::Apply(*exprs),
                    ids_nonempty(*expr),
                    1 <= i <= exprs@.len(),
                    types@.len() == i - 1,
                    forall|j: int| 1 <= j < i ==> ok_type(#[trigger] exprs@[j]),
                    forall|j: int| 0 <= j < i - 1 ==> type_conv(exprs@[j + 1], #[trigger] types@[j]),
                decreases exprs@.len() - i,
            {
                proof {
                    lemma_apply_child(*expr, i as int);
                }
                let pt = expr2type(&exprs[i])?;
                types.push(pt);
                i += 1;
            }
            Ok(DataTypeMem { id: tid, types: types, ast: expr })
        },
        _ => Err(TypingErr::new("error: must be type identifier (with types)", expr)),
    }
}


// ----- expressions -----

/// `$EXPR := $LITERAL | $ID | $TID | $LET | $IF | $MATCH | $LIST | $TUPLE | $APPLY`
pub fn expr2typed_expr<'t>(expr: &'t Expr) -> (r: Result<LangExpr<'t>, TypingErr<'t>>)
    requires
        ids_nonempty(*expr),
    ensures
        r is Ok <==> ok_expr(*expr),
        r matches Ok(x) ==> x.spec_ast() == expr && wf_lang(x),
        r matches Ok(x) ==> lang_conv(*expr, x),
    decreases expr, 1nat,
{
    match expr {
        Expr::Num(num) => Ok(LangExpr::LitNum(NumNode { num: *num, ast: expr })),
        Expr::Bool(val) => Ok(LangExpr::LitBool(BoolNode { val: *val, ast: expr })),
        Expr::ID(id) => {
            let c = first_char(id.as_str()).unwrap();
            if is_upper_char(c) {
                // $TID
                let tid = expr2type_id(expr)?;
                Ok(LangExpr::DataExpr(DataNode { label: tid, exprs: Vec::new(), ast: expr, ty: None }))
            } else {
                Ok(LangExpr::IDExpr(IDNode { id: id.as_str(), ast: expr, ty: None }))
            }
        },
        Expr::List(list) => {
            let mut elms: Vec<LangExpr<'t>> = Vec::new();
            let mut i: usize = 0;
            while i < list.len()
                invariant
                    *expr == Expr::List(*list),
                    ids_nonempty(*expr),
                    0 <= i <= list@.len(),
                    forall|j: int| 0 <= j < i ==> ok_expr(#[trigger] list@[j]),
                    forall|j: int| 0 <= j < i ==> lang_conv(list@[j], #[trigger] elms@[j]),
                    elms@.len() == i,
                    forall|j: int| 0 <= j < i ==> wf_lang(#[trigger] elms@[j]),
                decreases list@.len() - i,
            {
                proof {
                    lemma_list_child(*expr, i as int);
                }
                elms.push(expr2typed_expr(&list[i])?);
                i += 1;
            }
            Ok(LangExpr::ListExpr(Exprs { exprs: elms, ast: expr, ty: None }))
        },
        Expr::Tuple(tuple) => {
            let mut elms: Vec<LangExpr<'t>> = Vec::new();
            let mut i: usize = 0;
            while i < tuple.len()
                invariant
                    *expr == Expr::Tuple(*tuple),
                    ids_nonempty(*expr),
                    0 <= i <= tuple@.len(),
                    forall|j: int| 0 <= j < i ==> ok_expr(#[trigger] tuple@[j]),
                    forall|j: int| 0 <= j < i ==> lang_conv(tuple@[j], #[trigger] elms@[j]),
                    elms@.len() == i,
                    forall|j: int| 0 <= j < i ==> wf_lang(#[trigger] elms@[j]),
                decreases tuple@.len() - i,
            {
                proof {
                    lemma_tuple_child(*expr, i as int);
                }
                elms.push(expr2typed_expr(&tuple[i])?);
                i += 1;
            }
            Ok(LangExpr::TupleExpr(Exprs { exprs: elms, ast: expr, ty: None }))
        },
        Expr::Apply(exprs) => {
            if exprs.len() == 0 {
                return Err(TypingErr::new("error: empty expression", expr));
            }
            proof {
                lemma_apply_child(*expr, 0);
            }
            match &exprs[0] {
                Expr::ID(id) => {
                    let c = first_char(id.as_str()).unwrap();
                    if is_upper_char(c) {
                        // $TID
                        return Ok(expr2data_expr(expr)?);
                    } else if str_eq(id.as_str(), "if") {
                        return Ok(expr2if(expr)?);
                    } else if str_eq(id.as_str(), "let") {
                        return Ok(expr2let(expr)?);
                    } else if str_eq(id.as_str(), "match") {
                        return Ok(expr2match(expr)?);
                    }
                },
                _ => {},
            }
            let mut elms: Vec<LangExpr<'t>> = Vec::new();
            let mut i: usize = 0;
            assert(ok_expr(*expr) <==> forall|j: int| 0 <= j < exprs@.len() ==> ok_expr(#[trigger] exprs@[j]));
            assert(!is_type_id(exprs@[0]) && !is_named(exprs@[0], "if"@) && !is_named(exprs@[0], "let"@)
                && !is_named(exprs@[0], "match"@));
            while i < exprs.len()
                invariant
                    *expr == Expr::Apply(*exprs),
                    ids_nonempty(*expr),
                    0 <= i <= exprs@.len(),
                    !is_type_id(exprs@[0]) && !is_named(exprs@[0], "if"@) && !is_named(exprs@[0], "let"@)
                        && !is_named(exprs@[0], "match"@),
                    forall|j: int| 0 <= j < i ==> lang_conv(exprs@[j], #[trigger] elms@[j]),
                    forall|j: int| 0 <= j < i ==> ok_expr(#[trigger] exprs@[j]),
                    ok_expr(*expr) <==> forall|j: int| 0 <= j < exprs@.len() ==> ok_expr(#[trigger] exprs@[j]),
                    elms@.len() == i,
                    forall|j: int| 0 <= j < i ==> wf_lang(#[trigger] elms@[j]),
                decreases exprs@.len() - i,
            {
                proof {
                    lemma_apply_child(*expr, i as int);
                }
                elms.push(expr2typed_expr(&exprs[i])?);
                i += 1;
            }
            Ok(LangExpr::ApplyExpr(Exprs { exprs: elms, ast: expr, ty: None }))
        },
    }
}

/// `( $TID $EXPR* )`
pub fn expr2data_expr<'t>(expr: &'t Expr) -> (r: Result<LangExpr<'t>, TypingErr<'t>>)
    requires
        ids_nonempty(*expr),
        expr is Apply,
        expr->Apply_0@.len() > 0,
        is_type_id(expr->Apply_0@[0]),
    ensures
        r is Ok <==> ok_expr(*expr),
        r matches Ok(x) ==> x.spec_ast() == expr && wf_lang(x),
        r matches Ok(x) ==> lang_conv(*expr, x),
    decreases expr, 0nat,
{
    let exprs;
    match expr {
        Expr::Apply(e) => {
            exprs = e;
        },
        _ => {
            return Err(TypingErr::new("error: data expression", expr));
        },
    }
    let tid = expr2type_id(&exprs[0])?;
    let mut v: Vec<LangExpr<'t>> = Vec::new();
    let mut i: usize = 1;
    while i < exprs.len()
        invariant
            *expr == Expr::Apply(*exprs),
            ids_nonempty(*expr),
            1 <= i <= exprs@.len(),
            forall|j: int| 1 <= j < i ==> ok_expr(#[trigger] exprs@[j]),
            ok_expr(*expr) <==> forall|j: int| 1 <= j < exprs@.len() ==> ok_expr(#[trigger] exprs@[j]),
            is_type_id(exprs@[0]),
            tid.id@ == exprs@[0]->ID_0@,
            forall|j: int| 0 <= j < i - 1 ==> lang_conv(exprs@[j + 1], #[trigger] v@[j]),
            v@.len() == i - 1,
            forall|j: int| 0 <= j < i - 1 ==> wf_lang(#[trigger] v@[j]),
        decreases exprs@.len() - i,
    {
        proof {
            lemma_apply_child(*expr, i as int);
        }
        v.push(expr2typed_expr(&exprs[i])?);
        i += 1;
    }
    Ok(LangExpr::DataExpr(DataNode { label: tid, exprs: v, ast: expr, ty: None }))
}

/// `$IF := ( if $EXPR $EXPR $EXPR )`
pub fn expr2if<'t>(expr: &'t Expr) -> (r: Result<LangExpr<'t>, TypingErr<'t>>)
    requires
        ids_nonempty(*expr),
        expr is Apply,
        expr->Apply_0@.len() > 0,
        is_named(expr->Apply_0@[0], "if"@),
        !is_type_id(expr->Apply_0@[0]),
    ensures
        r is Ok <==> ok_expr(*expr),
        r matches Ok(x) ==> x.spec_ast() == expr && wf_lang(x),
        r matches Ok(x) ==> lang_conv(*expr, x),
    decreases expr, 0nat,
{
    let exprs;
    match expr {
        Expr::Apply(e) => {
            exprs = e;
        },
        _ => {
            return Err(TypingErr::new("error: if expression", expr));
        },
    }
    if exprs.len() < 2 {
        return Err(TypingErr::new("error: if requires condition", expr));
    }
    proof {
        lemma_apply_child(*expr, 1);
    }
    let cond = expr2typed_expr(&exprs[1])?;
    if exprs.len() < 3 {
        return Err(TypingErr::new("error: if requires then expression", expr));
    }
    proof {
        lemma_apply_child(*expr, 2);
    }
    let then = expr2typed_expr(&exprs[2])?;
    if exprs.len() < 4 {
        return Err(TypingErr::new("error: if requires else expression", expr));
    }
    proof {
        lemma_apply_child(*expr, 3);
    }
    let else_expr = expr2typed_expr(&exprs[3])?;
    Ok(LangExpr::IfExpr(Box::new(IfNode { cond_expr: cond, then_expr: then, else_expr: else_expr, ast: expr, ty: None })))
}

/// `$LET := ( let ( $DEFVAR+ ) $EXPR )`
pub fn expr2let<'t>(expr: &'t Expr) -> (r: Result<LangExpr<'t>, TypingErr<'t>>)
    requires
        ids_nonempty(*expr),
        expr is Apply,
        expr->Apply_0@.len() > 0,
        is_named(expr->Apply_0@[0], "let"@),
        !is_type_id(expr->Apply_0@[0]),
        !is_named(expr->Apply_0@[0], "if"@),
    ensures
        r is Ok <==> ok_expr(*expr),
        r matches Ok(x) ==> x.spec_ast() == expr && wf_lang(x),
        r matches Ok(x) ==> lang_conv(*expr, x),
    decreases expr, 0nat,
{
    let exprs;
    match expr {
        Expr::Apply(e) => {
            exprs = e;
        },
        _ => {
            return Err(TypingErr::new("error: if expression", expr));
        },
    }
    // ( $DEFVAR+ )
    let mut def_vars: Vec<DefVar<'t>> = Vec::new();
    if exprs.len() < 2 {
        return Err(TypingErr::new("error: require variable binding", expr));
    }
    proof {
        lemma_apply_child(*expr, 1);
    }
    let e = &exprs[1];
    match e {
        Expr::Apply(dvs) => {
            if dvs.len() == 0 {
                return Err(TypingErr::new("error: require variable binding", e));
            }
            let mut i: usize = 0;
            while i < dvs.len()
                invariant
                    *e == Expr::Apply(*dvs),
                    *expr == Expr::Apply(*exprs),
                    exprs@.len() >= 2,
                    ids_nonempty(*expr),
                    e == expr->Apply_0@[1],
                    ids_nonempty(*e),
                    0 <= i <= dvs@.len(),
                    forall|j: int| 0 <= j < i ==> ok_def_var_with(#[trigger] dvs@[j], body_ok(dvs@[j])),
                    ok_expr(*expr) ==> forall|j: int| 0 <= j < dvs@.len() ==> ok_def_var_with(#[trigger] dvs@[j], body_ok(dvs@[j])),
                    def_vars@.len() == i,
                    forall|j: int| 0 <= j < i ==> defvar_conv(dvs@[j], #[trigger] def_vars@[j]),
                    forall|j: int| 0 <= j < i ==> wf_lang(#[trigger] def_vars@[j].expr),
                decreases dvs@.len() - i,
            {
                proof {
                    lemma_apply_child(*expr, 1);
                    lemma_apply_child(*e, i as int);
                }
                def_vars.push(expr2def_vars(&dvs[i])?);
                i += 1;
            }
        },
        _ => {
            return Err(TypingErr::new("error: require variable binding", expr));
        },
    }
    // $EXPR
    if exprs.len() < 3 {
        return Err(TypingErr::new("error: require body", expr));
    }
    proof {
        lemma_apply_child(*expr, 2);
    }
    let body = expr2typed_expr(&exprs[2])?;
    Ok(LangExpr::LetExpr(Box::new(LetNode { def_vars: def_vars, expr: body, ast: expr, ty: None })))
}

/// `$LETPAT := $ID | [ $LETPAT+ ] | ($TID $LETPAT+ )`
pub fn expr2letpat<'t>(expr: &'t Expr) -> (r: Result<Pattern<'t>, TypingErr<'t>>)
    requires
        ids_nonempty(*expr),
    ensures
        r is Ok <==> ok_letpat(*expr),
        r matches Ok(p) ==> p.spec_ast() == expr && letpat_conv(*expr, p),
    decreases expr,
{
    match expr {
        Expr::ID(id) => {
            // $ID
            let c = first_char(id.as_str()).unwrap();
            if is_upper_char(c) {
                Err(TypingErr::new("error: invalid pattern", expr))
            } else {
                Ok(Pattern::PatID(IDNode { id: id.as_str(), ast: expr, ty: None }))
            }
        },
        Expr::Tuple(tuple) => {
            // [ $LETPAT+ ]
            if tuple.len() == 0 {
                return Err(TypingErr::new("error: require at least one pattern", expr));
            }
            let mut pattern: Vec<Pattern<'t>> = Vec::new();
            let mut i: usize = 0;
            while i < tuple.len()
                invariant
                    *expr == Expr::Tuple(*tuple),
                    ids_nonempty(*expr),
                    0 <= i <= tuple@.len(),
                    forall|j: int| 0 <= j < i ==> ok_letpat(#[trigger] tuple@[j]),
                    pattern@.len() == i,
                    forall|j: int| 0 <= j < i ==> letpat_conv(tuple@[j], #[trigger] pattern@[j]),
                decreases tuple@.len() - i,
            {
                proof {
                    lemma_tuple_child(*expr, i as int);
                }
                pattern.push(expr2letpat(&tuple[i])?);
                i += 1;
            }
            Ok(Pattern::PatTuple(PatTupleNode { pattern: pattern, ast: expr, ty: None }))
        },
        Expr::Apply(exprs) => {
            // ($TID $LETPAT+ )
            if exprs.len() < 2 {
                return Err(TypingErr::new("error: require label and at least one pattern", expr));
            }
            let tid = expr2type_id(&exprs[0])?;
            let mut v: Vec<Pattern<'t>> = Vec::new();
            let mut i: usize = 1;
            while i < exprs.len()
                invariant
                    *expr == Expr::Apply(*exprs),
                    ids_nonempty(*expr),
                    1 <= i <= exprs@.len(),
                    forall|j: int| 1 <= j < i ==> ok_letpat(#[trigger] exprs@[j]),
                    v@.len() == i - 1,
                    forall|j: int| 0 <= j < i - 1 ==> letpat_conv(exprs@[j + 1], #[trigger] v@[j]),
                decreases exprs@.len() - i,
            {
                proof {
                    lemma_apply_child(*expr, i as int);
                }
                v.push(expr2letpat(&exprs[i])?);
                i += 1;
            }
            Ok(Pattern::PatData(PatDataNode { label: tid, pattern: v, ast: expr, ty: None }))
        },
        _ => Err(TypingErr::new("error: invalid pattern", expr)),
    }
}

/// `$DEFVAR := ( $LETPAT $EXPR )`
pub fn expr2def_vars<'t>(expr: &'t Expr) -> (r: Result<DefVar<'t>, TypingErr<'t>>)
    requires
        ids_nonempty(*expr),
    ensures
        r is Ok <==> ok_def_var_with(*expr, body_ok(*expr)),
        r matches Ok(d) ==> d.ast == expr && wf_lang(d.expr),
        r matches Ok(d) ==> defvar_conv(*expr, d),
    decreases expr, 0nat,
{
    match expr {
        Expr::Apply(exprs) => {
            if exprs.len() != 2 {
                return Err(TypingErr::new("invalid variable definition", expr));
            }
            proof {
                lemma_apply_child(*expr, 0);
                lemma_apply_child(*expr, 1);
            }
            let pattern = expr2letpat(&exprs[0])?;
            let body = expr2typed_expr(&exprs[1])?;
            Ok(DefVar { pattern: pattern, expr: body, ast: expr, ty: None })
        },
        _ => Err(TypingErr::new("must be variable definition(s)", expr)),
    }
}

/// `$PATTERN := $LITERAL | $ID | $TID | [ $PATTERN+ ] | ( $TID $PATTERN* ) | '()`
pub fn expr2mpat<'t>(expr: &'t Expr) -> (r: Result<Pattern<'t>, TypingErr<'t>>)
    requires
        ids_nonempty(*expr),
    ensures
        r is Ok <==> ok_mpat(*expr),
        r matches Ok(p) ==> p.spec_ast() == expr && mpat_conv(*expr, p),
    decreases expr,
{
    match expr {
        Expr::ID(id) => {
            let c = first_char(id.as_str()).unwrap();
            if is_upper_char(c) {
                // $TID
                let tid = expr2type_id(expr)?;
                Ok(Pattern::PatData(PatDataNode { label: tid, pattern: Vec::new(), ast: expr, ty: None }))
            } else {
                // $ID
                let id_node = expr2id(expr)?;
                Ok(Pattern::PatID(id_node))
            }
        },
        Expr::Bool(val) => Ok(Pattern::PatBool(BoolNode { val: *val, ast: expr })),
        Expr::Num(num) => Ok(Pattern::PatNum(NumNode { num: *num, ast: expr })),
        Expr::Tuple(exprs) => {
            // [ $PATTERN+ ]
            let mut pattern: Vec<Pattern<'t>> = Vec::new();
            let mut i: usize = 0;
            while i < exprs.len()
                invariant
                    *expr == Expr::Tuple(*exprs),
                    ids_nonempty(*expr),
                    0 <= i <= exprs@.len(),
                    forall|j: int| 0 <= j < i ==> ok_mpat(#[trigger] exprs@[j]),
                    pattern@.len() == i,
                    forall|j: int| 0 <= j < i ==> mpat_conv(exprs@[j], #[trigger] pattern@[j]),
                decreases exprs@.len() - i,
            {
                proof {
                    lemma_tuple_child(*expr, i as int);
                }
                pattern.push(expr2mpat(&exprs[i])?);
                i += 1;
            }
            Ok(Pattern::PatTuple(PatTupleNode { pattern: pattern, ast: expr, ty: None }))
        },
        Expr::Apply(exprs) => {
            // ( $TID $PATTERN* )
            if exprs.len() == 0 {
                return Err(TypingErr::new("error: invalid pattern", expr));
            }
            let tid = expr2type_id(&exprs[0])?;
            let mut pattern: Vec<Pattern<'t>> = Vec::new();
            let mut i: usize = 1;
            while i < exprs.len()
                invariant
                    *expr == Expr::Apply(*exprs),
                    ids_nonempty(*expr),
                    1 <= i <= exprs@.len(),
                    forall|j: int| 1 <= j < i ==> ok_mpat(#[trigger] exprs@[j]),
                    pattern@.len() == i - 1,
                    forall|j: int| 0 <= j < i - 1 ==> mpat_conv(exprs@[j + 1], #[trigger] pattern@[j]),
                decreases exprs@.len() - i,
            {
                proof {
                    lemma_apply_child(*expr, i as int);
                }
                pattern.push(expr2mpat(&exprs[i])?);
                i += 1;
            }
            Ok(Pattern::PatData(PatDataNode { label: tid, pattern: pattern, ast: expr, ty: None }))
        },
        Expr::List(list) => {
            if list.len() > 0 {
                return Err(TypingErr::new("error: list pattern is not supported", expr));
            }
            Ok(Pattern::PatNil(PatNilNode { ast: expr, ty: None }))
        },
    }
}

/// `$CASE := ( $PATTERN $EXPR )`
pub fn expr2case<'t>(expr: &'t Expr) -> (r: Result<MatchCase<'t>, TypingErr<'t>>)
    requires
        ids_nonempty(*expr),
    ensures
        r is Ok <==> ok_case_with(*expr, body_ok(*expr)),
        r matches Ok(c) ==> c.ast == expr && wf_lang(c.expr),
        r matches Ok(c) ==> case_conv(*expr, c),
    decreases expr, 0nat,
{
    match expr {
        Expr::Apply(exprs) => {
            if exprs.len() != 2 {
                return Err(TypingErr::new("error: case require exactly 2 expressions", expr));
            }
            proof {
                lemma_apply_child(*expr, 0);
                lemma_apply_child(*expr, 1);
            }
            let pattern = expr2mpat(&exprs[0])?;
            let body = expr2typed_expr(&exprs[1])?;
            Ok(MatchCase { pattern: pattern, expr: body, ast: expr, ty: None })
        },
        _ => Err(TypingErr::new("error: invalid case", expr)),
    }
}

/// `$MATCH := ( match $EXPR $CASE+ )`
pub fn expr2match<'t>(expr: &'t Expr) -> (r: Result<LangExpr<'t>, TypingErr<'t>>)
    requires
        ids_nonempty(*expr),
        expr is Apply,
        expr->Apply_0@.len() > 0,
        is_named(expr->Apply_0@[0], "match"@),
        !is_type_id(expr->Apply_0@[0]),
        !is_named(expr->Apply_0@[0], "if"@),
        !is_named(expr->Apply_0@[0], "let"@),
    ensures
        r is Ok <==> ok_expr(*expr),
        r matches Ok(x) ==> x.spec_ast() == expr && wf_lang(x),
        r matches Ok(x) ==> lang_conv(*expr, x),
    decreases expr, 0nat,
{
    match expr {
        Expr::Apply(exprs) => {
            if exprs.len() < 2 {
                return Err(TypingErr::new("error: no condition", expr));
            }
            proof {
                lemma_apply_child(*expr, 1);
            }
            let cond = expr2typed_expr(&exprs[1])?;
            let mut cases: Vec<MatchCase<'t>> = Vec::new();
            let mut i: usize = 2;
            while i < exprs.len()
                invariant
                    *expr == Expr::Apply(*exprs),
                    ids_nonempty(*expr),
                    2 <= i <= exprs@.len(),
                    cases@.len() == i - 2,
                    forall|j: int| 2 <= j < i ==> ok_case_with(#[trigger] exprs@[j], body_ok(exprs@[j])),
                    ok_expr(*expr) <==> (exprs@.len() >= 3 && ok_expr(exprs@[1]) && forall|j: int| 2 <= j < exprs@.len() ==> ok_case_with(#[trigger] exprs@[j], body_ok(exprs@[j]))),
                    ok_expr(exprs@[1]),
                    wf_lang(cond),
                    lang_conv(exprs@[1], cond),
                    forall|j: int| 0 <= j < i - 2 ==> case_conv(exprs@[j + 2], #[trigger] cases@[j]),
                    forall|j: int| 0 <= j < i - 2 ==> wf_lang(#[trigger] cases@[j].expr),
                decreases exprs@.len() - i,
            {
                proof {
                    lemma_apply_child(*expr, i as int);
                }
                cases.push(expr2case(&exprs[i])?);
                i += 1;
            }
            if cases.len() == 0 {
                return Err(TypingErr::new("error: require at least one case", expr));
            }
            let node = MatchNode { expr: cond, cases: cases, ast: expr, ty: None };
            Ok(LangExpr::MatchExpr(Box::new(node)))
        },
        _ => Err(TypingErr::new("error: invalid match", expr)),
    }
}

/// `$DEFUN := ( $HEAD_DEFUN $ID ( $ID* ) $TYPE_FUN $EXPR )`
pub fn expr2defun<'t>(expr: &'t Expr) -> (r: Result<Defun<'t>, TypingErr<'t>>)
    requires
        ids_nonempty(*expr),
    ensures
        r is Ok <==> ok_defun(*expr),
        r matches Ok(d) ==> d.ast == expr && d.id.id@ == expr->Apply_0@[1]->ID_0@ && d.fun_type is TEFun
            && d.args@.len() == expr->Apply_0@[2]->Apply_0@.len() && wf_lang(d.expr),
        r matches Ok(d) ==> defun_conv(*expr, d),
{
    match expr {
        Expr::Apply(exprs) => {
            // $HEAD_DEFUN := export | defun
            // $ID
            if exprs.len() < 2 {
                return Err(TypingErr::new("error: require function name", expr));
            }
            proof {
                lemma_apply_child(*expr, 1);
            }
            let id = expr2id(&exprs[1])?;
            // ( $ID* )
            let mut args: Vec<IDNode<'t>> = Vec::new();
            if exprs.len() < 3 {
                return Err(TypingErr::new("error: require arguments", expr));
            }
            proof {
                lemma_apply_child(*expr, 2);
            }
            match &exprs[2] {
                Expr::Apply(aexprs) => {
                    let mut i: usize = 0;
                    while i < aexprs.len()
                        invariant
                            *expr == Expr::Apply(*exprs),
                            exprs@.len() >= 3,
                            exprs@[2] == Expr::Apply(*aexprs),
                            0 <= i <= aexprs@.len(),
                            args@.len() == i,
                            forall|j: int| 0 <= j < i ==> is_var_id(#[trigger] aexprs@[j]),
                            forall|j: int| 0 <= j < i ==> id_node(#[trigger] args@[j], aexprs@[j]),
                        decreases aexprs@.len() - i,
                    {
                        let arg = match expr2id(&aexprs[i]) {
                            Ok(a) => a,
                            Err(e) => {
                                assert(!is_var_id(exprs@[2]->Apply_0@[i as int]));
                                return Err(e);
                            },
                        };
                        args.push(arg);
                        i += 1;
                    }
                },
                _ => {
                    return Err(TypingErr::new("error: require arguments", expr));
                },
            }
            // $TYPE_FUN
            if exprs.len() < 4 {
                return Err(TypingErr::new("error: require function type", expr));
            }
            proof {
                lemma_apply_child(*expr, 3);
            }
            let fun = expr2type_fun(&exprs[3])?;
            // $EXPR
            if exprs.len() < 5 {
                return Err(TypingErr::new("error: require expression", expr));
            }
            proof {
                lemma_apply_child(*expr, 4);
            }
            let body = expr2typed_expr(&exprs[4])?;
            let ty = fun.to_type();
            let effect;
            match &fun {
                TypeExpr::TEFun(e) => {
                    effect = e.effect;
                },
                _ => {
                    // expr2type_fun only builds function types
                    assert(false);
                    return Err(TypingErr::new("failed to get effect", expr));
                },
            }
            Ok(Defun { id: id, args: args, fun_type: fun, effect: effect, expr: body, ast: expr, ty: Some(ty) })
        },
        _ => Err(TypingErr::new("error: syntax error on function definition", expr)),
    }
}

} // verus!
