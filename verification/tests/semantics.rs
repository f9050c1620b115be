use baremetalisp::parser::Expr;
use baremetalisp::semantics::ast::{Effect, LangExpr, Pattern, TypeExpr};
use baremetalisp::semantics::conv::{expr2data, expr2defun, expr2mpat, expr2type, expr2type_fun, expr2typed_expr};
use baremetalisp::semantics::ast::ErrMsg;
use baremetalisp::semantics::types::{compose, ty_bool, ty_int, ty_list, ty_var, unify, Sbst, Type};
use baremetalisp::semantics::typing::exprs2context;
use baremetalisp::strs::{str_eq, str_lt};

fn id(s: &str) -> Expr {
    Expr::ID(s.to_string())
}

fn app(v: Vec<Expr>) -> Expr {
    Expr::Apply(v)
}

fn fun_type(args: Vec<Expr>, ret: Expr) -> Expr {
    app(vec![id("Pure"), app(vec![id("->"), app(args), ret])])
}

fn defun(name: &str, args: &[&str], ty: Expr, body: Expr) -> Expr {
    app(vec![id("defun"), id(name), app(args.iter().map(|a| id(a)).collect()), ty, body])
}

fn typing_result(prog: &Vec<Expr>) -> Result<(), String> {
    let mut ctx = exprs2context(prog).map_err(|e| format!("{:?}", e.msg))?;
    ctx.typing().map_err(|e| format!("{:?}", e.msg))
}

#[test]
fn typing_identity_function() {
    let prog = vec![defun("id", &["x"], fun_type(vec![id("Int")], id("Int")), id("x"))];
    let mut ctx = exprs2context(&prog).unwrap();
    assert!(ctx.typing().is_ok());
    let f = ctx.funs.get("id").unwrap();
    let ty = f.ty.as_ref().unwrap();
    let expected = baremetalisp::semantics::types::ty_fun_of(true, vec![ty_int()], ty_int());
    assert_eq!(format!("{:?}", ty), format!("{:?}", expected));
}

#[test]
fn typing_declared_type_mismatch() {
    let prog = vec![defun("f", &["x"], fun_type(vec![id("Int")], id("Bool")), id("x"))];
    let mut ctx = exprs2context(&prog).unwrap();
    let err = ctx.typing().unwrap_err();
    assert!(matches!(err.msg, ErrMsg::FunTypeMismatch(_, _)));
}

#[test]
fn typing_undefined_variable() {
    let prog = vec![defun("f", &["x"], fun_type(vec![id("Int")], id("Int")), id("y"))];
    let mut ctx = exprs2context(&prog).unwrap();
    let err = ctx.typing().unwrap_err();
    match err.msg {
        ErrMsg::NotDefined(n) => assert_eq!(n, "y"),
        m => panic!("unexpected {:?}", m),
    }
}

#[test]
fn typing_if_condition_must_be_bool() {
    let body = app(vec![id("if"), Expr::Num(0), Expr::Num(1), Expr::Num(2)]);
    let prog = vec![defun("f", &["x"], fun_type(vec![id("Int")], id("Int")), body)];
    let mut ctx = exprs2context(&prog).unwrap();
    let err = ctx.typing().unwrap_err();
    assert!(matches!(err.msg, ErrMsg::CondNotBool(_)));
}

#[test]
fn typing_argument_used_as_condition_conflicts_with_declaration() {
    // the argument is inferred to be Bool, which the declared Int contradicts
    let body = app(vec![id("if"), id("x"), Expr::Num(1), Expr::Num(2)]);
    let prog = vec![defun("f", &["x"], fun_type(vec![id("Int")], id("Int")), body)];
    let mut ctx = exprs2context(&prog).unwrap();
    let err = ctx.typing().unwrap_err();
    assert!(matches!(err.msg, ErrMsg::FunTypeMismatch(_, _)));
}

#[test]
fn typing_if_well_typed() {
    let body = app(vec![id("if"), id("b"), Expr::Num(1), Expr::Num(2)]);
    let prog = vec![defun("f", &["b"], fun_type(vec![id("Bool")], id("Int")), body)];
    assert_eq!(typing_result(&prog), Ok(()));
}

#[test]
fn typing_data_and_match() {
    let data = app(vec![
        id("data"),
        app(vec![id("MyList"), id("t")]),
        app(vec![id("Cons"), id("t"), app(vec![id("MyList"), id("t")])]),
        id("Nil"),
    ]);
    let body = app(vec![
        id("match"),
        id("l"),
        app(vec![app(vec![id("Cons"), id("h"), id("_")]), Expr::Bool(true)]),
        app(vec![id("Nil"), Expr::Bool(false)]),
    ]);
    let f = defun("nonempty", &["l"], fun_type(vec![app(vec![id("MyList"), id("Int")])], id("Bool")), body);
    let prog = vec![data, f];
    assert_eq!(typing_result(&prog), Ok(()));
}

#[test]
fn typing_infinite_data_refused() {
    let data = app(vec![id("data"), id("Num"), app(vec![id("Succ"), id("Num")])]);
    let prog = vec![data];
    let mut ctx = exprs2context(&prog).unwrap();
    let err = ctx.typing().unwrap_err();
    match err.msg {
        ErrMsg::InfiniteRecursive(n) => assert_eq!(n, "Num"),
        m => panic!("unexpected {:?}", m),
    }
}

#[test]
fn typing_finite_recursive_data_accepted() {
    let data = app(vec![id("data"), id("Num"), app(vec![id("Succ"), id("Num")]), id("Zero")]);
    assert_eq!(typing_result(&vec![data]), Ok(()));
}

#[test]
fn typing_label_defined_twice() {
    let a = app(vec![id("data"), id("A"), id("X")]);
    let b = app(vec![id("data"), id("B"), id("X")]);
    let mut prog = vec![a, b];
    let r = typing_result(&prog);
    assert!(r.unwrap_err().contains("LabelMultiplyDefined"));
    prog.clear();
}

#[test]
fn typing_list_of_mixed_types_refused() {
    let body = Expr::List(vec![Expr::Num(1), Expr::Bool(true)]);
    let prog = vec![defun("f", &[], fun_type(vec![], Expr::List(vec![id("Int")])), body)];
    let r = typing_result(&prog);
    assert!(r.unwrap_err().starts_with("Mismatch"));
}

#[test]
fn typing_application() {
    let g = defun("g", &["x"], fun_type(vec![id("Int")], id("Int")), id("x"));
    let f = defun("f", &["y"], fun_type(vec![id("Int")], id("Int")), app(vec![id("g"), id("y")]));
    assert_eq!(typing_result(&vec![g, f]), Ok(()));
}

#[test]
fn typing_let_binding() {
    let body = app(vec![id("let"), app(vec![app(vec![id("z"), id("x")])]), id("z")]);
    let prog = vec![defun("f", &["x"], fun_type(vec![id("Int")], id("Int")), body)];
    assert_eq!(typing_result(&prog), Ok(()));
}

#[test]
fn unify_variable_with_type() {
    let s = unify(&ty_var(0), &ty_int()).unwrap();
    let t = ty_var(0).apply_sbst(&s);
    assert_eq!(format!("{:?}", t), format!("{:?}", ty_int()));
}

#[test]
fn unify_distinct_constructors_fails() {
    assert!(unify(&ty_int(), &ty_bool()).is_none());
    assert!(unify(&ty_list(ty_int()), &ty_int()).is_none());
}

#[test]
fn unify_occurs_check_fails() {
    assert!(unify(&ty_var(1), &ty_list(ty_var(1))).is_none());
}

#[test]
fn unify_nested() {
    let s = unify(&ty_list(ty_var(2)), &ty_list(ty_bool())).unwrap();
    assert_eq!(format!("{:?}", ty_var(2).apply_sbst(&s)), format!("{:?}", ty_bool()));
}

#[test]
fn compose_applies_in_turn() {
    let mut s1: Sbst = Sbst::new();
    s1.insert(1, ty_int());
    let mut s2: Sbst = Sbst::new();
    s2.insert(0, ty_list(ty_var(1)));
    let c = compose(&s1, &s2);
    let t: Type = ty_var(0);
    let a = t.apply_sbst(&c);
    let b = t.apply_sbst(&s2).apply_sbst(&s1);
    assert_eq!(format!("{:?}", a), format!("{:?}", b));
    assert_eq!(format!("{:?}", a), format!("{:?}", ty_list(ty_int())));
}

#[test]
fn strings_compare() {
    assert!(str_eq("abc", "abc"));
    assert!(!str_eq("abc", "abd"));
    assert!(str_lt("ab", "abc"));
    assert!(str_lt("abc", "abd"));
    assert!(!str_lt("b", "a"));
}

#[test]
fn parser_test_identity() {
    assert_eq!(baremetalisp::parser::test(7), 7);
}

fn tree_data() -> Expr {
    let tree_t = || app(vec![id("Tree"), id("t")]);
    app(vec![id("data"), tree_t(), app(vec![id("Node"), tree_t(), tree_t()]), id("Leaf")])
}

#[test]
fn label_type_of_tree_node() {
    let prog = vec![tree_data()];
    let mut ctx = exprs2context(&prog).unwrap();
    assert!(ctx.check_label().is_ok());
    let mut num_tv = 2;
    let (ty, elems) = ctx.get_type_of_label("Node", &mut num_tv).unwrap();
    let tree2 = Type::TCon(baremetalisp::semantics::types::Tycon { id: "Tree".to_string(), args: vec![ty_var(2)] });
    assert_eq!(format!("{:?}", ty), format!("{:?}", tree2));
    assert_eq!(elems.len(), 2);
    assert_eq!(format!("{:?}", elems[0]), format!("{:?}", tree2));
    assert_eq!(format!("{:?}", elems[1]), format!("{:?}", tree2));
    assert_eq!(num_tv, 3);
    let (leaf, none) = ctx.get_type_of_label("Leaf", &mut num_tv).unwrap();
    assert!(none.is_empty());
    assert_eq!(format!("{:?}", leaf), format!("{:?}", Type::TCon(baremetalisp::semantics::types::Tycon { id: "Tree".to_string(), args: vec![ty_var(3)] })));
    assert!(matches!(ctx.get_type_of_label("Nope", &mut num_tv), Err(ErrMsg::NotDefined(_))));
}

#[test]
fn tree_type_with_int_argument() {
    use_tree_tv2type();
}

fn use_tree_tv2type() {
    let prog = vec![tree_data()];
    let ctx = exprs2context(&prog).unwrap();
    let tree = ctx.data.get("Tree").unwrap();
    let mut tv2type = baremetalisp::semantics::strmap::StrMap::new();
    tv2type.insert("t", ty_int());
    let t = ctx.apply_tv2type_to_type_expr(&tree.members[0].types[0], &tv2type).unwrap();
    let tree_int = Type::TCon(baremetalisp::semantics::types::Tycon { id: "Tree".to_string(), args: vec![ty_int()] });
    assert_eq!(format!("{:?}", t), format!("{:?}", tree_int));
    let empty = baremetalisp::semantics::strmap::StrMap::new();
    assert!(matches!(ctx.apply_tv2type_to_type_expr(&tree.members[0].types[0], &empty), Err(ErrMsg::TypeVarUndefined(_))));
}

#[test]
fn typing_limited_recursive_tree_accepted() {
    assert_eq!(typing_result(&vec![tree_data()]), Ok(()));
}

#[test]
fn substitution_is_applied_to_annotations() {
    let prog = vec![defun("id", &["x"], fun_type(vec![id("Int")], id("Int")), id("x"))];
    let mut ctx = exprs2context(&prog).unwrap();
    assert!(ctx.typing().is_ok());
    let f = ctx.funs.get("id").unwrap();
    let arg_ty = f.args[0].ty.as_ref().unwrap();
    assert_eq!(format!("{:?}", arg_ty), format!("{:?}", ty_int()));
}

#[test]
fn data_rec_through_tuple_refused() {
    // every value of A holds a tuple that holds an A
    let data = app(vec![id("data"), id("A"), app(vec![id("Mk"), Expr::Tuple(vec![id("A"), id("Int")])])]);
    let prog = vec![data];
    let ctx = exprs2context(&prog).unwrap();
    match ctx.check_data_rec().unwrap_err().msg {
        ErrMsg::InfiniteRecursive(n) => assert_eq!(n, "A"),
        m => panic!("unexpected {:?}", m),
    }
}

#[test]
fn data_rec_through_list_accepted() {
    let data = app(vec![id("data"), id("A"), app(vec![id("Mk"), Expr::List(vec![id("A")])])]);
    let prog = vec![data];
    let ctx = exprs2context(&prog).unwrap();
    assert!(ctx.check_data_rec().is_ok());
}

#[test]
fn data_rec_unknown_type() {
    let data = app(vec![id("data"), id("A"), app(vec![id("Mk"), id("B")])]);
    let prog = vec![data];
    let ctx = exprs2context(&prog).unwrap();
    let err = ctx.check_data_rec().unwrap_err();
    assert!(matches!(err.msg, ErrMsg::Text("error: no such type")));
}

#[test]
fn data_rec_type_argument_count() {
    let b = app(vec![id("data"), app(vec![id("B"), id("t")]), app(vec![id("MkB"), id("t")])]);
    let a = app(vec![id("data"), id("A"), app(vec![id("MkA"), app(vec![id("B"), id("Int"), id("Int")])])]);
    let prog = vec![b, a];
    let ctx = exprs2context(&prog).unwrap();
    match ctx.check_data_rec().unwrap_err().msg {
        ErrMsg::TypeArgCount(n, expected, actual) => {
            assert_eq!(n, "B");
            assert_eq!(expected, 1);
            assert_eq!(actual, 2);
        },
        m => panic!("unexpected {:?}", m),
    }
}

#[test]
fn data_rec_mutual_refused_at_first_name() {
    // A needs a B and B needs an A: A, first in name order, is reported
    let a = app(vec![id("data"), id("A"), app(vec![id("MkA"), id("B")])]);
    let b = app(vec![id("data"), id("B"), app(vec![id("MkB"), id("A")])]);
    let prog = vec![b, a];
    let ctx = exprs2context(&prog).unwrap();
    match ctx.check_data_rec().unwrap_err().msg {
        ErrMsg::InfiniteRecursive(n) => assert_eq!(n, "A"),
        m => panic!("unexpected {:?}", m),
    }
}

#[test]
fn typing_let_tuple_pattern() {
    // (let (([a b] [x true])) a) : the tuple pattern binds a to Int
    let binding = app(vec![Expr::Tuple(vec![id("a"), id("b")]), Expr::Tuple(vec![id("x"), Expr::Bool(true)])]);
    let body = app(vec![id("let"), app(vec![binding]), id("a")]);
    let prog = vec![defun("f", &["x"], fun_type(vec![id("Int")], id("Int")), body)];
    assert_eq!(typing_result(&prog), Ok(()));
}

#[test]
fn function_type_is_a_type() {
    let e = fun_type(vec![id("Int")], id("Bool"));
    match expr2type(&e).unwrap() {
        TypeExpr::TEFun(f) => {
            assert_eq!(f.effect, Effect::Pure);
            assert_eq!(f.args.len(), 1);
            assert!(matches!(f.args[0], TypeExpr::TEInt(_)));
            assert!(matches!(*f.ret, TypeExpr::TEBool(_)));
        },
        t => panic!("unexpected {:?}", t),
    }
    let t = expr2type(&e).unwrap().to_type();
    let expected = baremetalisp::semantics::types::ty_fun_of(true, vec![ty_int()], ty_bool());
    assert_eq!(format!("{:?}", t), format!("{:?}", expected));
}

#[test]
fn io_function_type_read() {
    let e = app(vec![id("IO"), app(vec![id("->"), app(vec![id("Int"), id("Bool")]), id("Int")])]);
    match expr2type_fun(&e).unwrap() {
        TypeExpr::TEFun(f) => {
            assert_eq!(f.effect, Effect::IO);
            assert!(matches!(f.args[0], TypeExpr::TEInt(_)));
            assert!(matches!(f.args[1], TypeExpr::TEBool(_)));
            assert!(matches!(*f.ret, TypeExpr::TEInt(_)));
        },
        t => panic!("unexpected {:?}", t),
    }
    let bad = app(vec![id("Impure"), app(vec![id("->"), app(vec![]), id("Int")])]);
    assert!(expr2type_fun(&bad).is_err());
    assert!(expr2type_fun(&id("Int")).is_err());
}

#[test]
fn data_without_member_refused() {
    let e = app(vec![id("data"), id("Foo")]);
    assert!(expr2data(&e).is_err());
    let ok = app(vec![id("data"), id("Foo"), id("Bar")]);
    let d = expr2data(&ok).unwrap();
    assert_eq!(d.members.len(), 1);
    assert_eq!(d.members[0].id.id, "Bar");
}

#[test]
fn expression_keeps_numbers_and_names() {
    let e = app(vec![id("f"), Expr::Num(7), id("x"), id("Nil")]);
    match expr2typed_expr(&e).unwrap() {
        LangExpr::ApplyExpr(a) => {
            assert_eq!(a.exprs.len(), 4);
            assert!(matches!(&a.exprs[0], LangExpr::IDExpr(n) if n.id == "f"));
            assert!(matches!(&a.exprs[1], LangExpr::LitNum(n) if n.num == 7));
            assert!(matches!(&a.exprs[3], LangExpr::DataExpr(d) if d.label.id == "Nil" && d.exprs.is_empty()));
        },
        x => panic!("unexpected {:?}", x),
    }
}

#[test]
fn pattern_keeps_numbers() {
    assert!(matches!(expr2mpat(&Expr::Num(5)).unwrap(), Pattern::PatNum(n) if n.num == 5));
}

#[test]
fn defun_read_with_io_effect() {
    let ty = app(vec![id("IO"), app(vec![id("->"), app(vec![id("Int")]), id("Int")])]);
    let e = defun("f", &["x"], ty, id("x"));
    let d = expr2defun(&e).unwrap();
    assert_eq!(d.id.id, "f");
    assert_eq!(d.args[0].id, "x");
    assert_eq!(d.effect, Effect::IO);
    assert!(d.ty.is_some());
}

#[test]
fn unify_equal_types_gives_empty_substitution() {
    let t = ty_list(ty_var(3));
    let s = unify(&t, &t).unwrap();
    assert!(s.is_empty());
}

#[test]
fn typing_accepts_branches_typed_apart_by_a_later_binding() {
    // (defun h (y) (Pure (-> (Int) Bool)) true)
    // (defun f (c x) (Pure (-> (Bool Int) Int)) (if c x (h x)))
    // The then branch is typed while x's type is still open; typing the else branch then
    // fixes it to Int, and the branches' unifier is computed on the stale then type, so
    // the Bool of the else branch is never compared with Int: the checker accepts it.
    let h = defun("h", &["y"], fun_type(vec![id("Int")], id("Bool")), Expr::Bool(true));
    let body = app(vec![id("if"), id("c"), id("x"), app(vec![id("h"), id("x")])]);
    let f = defun("f", &["c", "x"], fun_type(vec![id("Bool"), id("Int")], id("Int")), body);
    assert_eq!(typing_result(&vec![h, f]), Ok(()));
}
