use volentscript::ast::nodes::{BinaryOp, PostfixOp, UnaryOp};
use volentscript::diagnostics::{ErrorCode, NOT_IMPLEMENTED};
use volentscript::lower::check::lowerable;
use volentscript::lower::exec::lower;
use volentscript::mir;
use volentscript::sema::{
    BuiltinFn, Coercion, FnId, LocalId, TCase, TExpr, TExprKind, TFunction, TLocal, TProgram,
    TStmt, TStmtKind, Ty,
};
use volentscript::span::{SourceId, Span};

fn at(start: u32) -> Span {
    Span::new(SourceId(0), start, start + 1)
}

fn expr(ty: Ty, kind: TExprKind) -> TExpr {
    TExpr { ty, span: at(0), kind }
}

fn boxed(ty: Ty, kind: TExprKind) -> Box<TExpr> {
    Box::new(expr(ty, kind))
}

fn integer(v: i32) -> TExpr {
    expr(Ty::Int, TExprKind::Int(v))
}

fn text(s: &str) -> TExpr {
    expr(Ty::String, TExprKind::Str(s.to_string()))
}

fn stmt(kind: TStmtKind) -> TStmt {
    TStmt { kind, span: at(0) }
}

fn function(name: &str, locals: Vec<TLocal>, param_count: usize, body: Vec<TStmt>) -> TFunction {
    TFunction {
        name: name.to_string(),
        locals,
        param_count,
        return_ty: Ty::Void,
        body,
        span: at(0),
    }
}

fn local(ty: Ty, default: Option<TExpr>) -> TLocal {
    TLocal { ty, is_rest: false, default }
}

fn script(body: Vec<TStmt>) -> TProgram {
    TProgram { functions: vec![function("main", vec![], 0, body)] }
}

/// The one expression of a script, lowered.
fn lowered(e: TExpr) -> mir::Expr {
    let p = script(vec![stmt(TStmtKind::Expr(e))]);
    assert!(lowerable(&p, 1));
    let mut out = lower(&p).unwrap();
    match out.functions[0].body.remove(0) {
        mir::Stmt::Expr(e) => e,
        other => panic!("{other:?}"),
    }
}

/// The messages for a statement.
fn refused(s: TStmt) -> Vec<String> {
    let p = script(vec![s]);
    assert!(lowerable(&p, 1));
    let ds = lower(&p).unwrap_err();
    for d in &ds {
        assert_eq!(d.code, Some(ErrorCode(NOT_IMPLEMENTED)));
    }
    ds.into_iter().map(|d| d.message).collect()
}

#[test]
fn literals_and_operators_map_onto_the_backend() {
    let sum = expr(
        Ty::Int,
        TExprKind::Binary(BinaryOp::Add, Box::new(integer(1)), Box::new(integer(2))),
    );
    let out = lowered(sum);
    assert_eq!(out.ty, mir::Ty::Int);
    match out.kind {
        mir::ExprKind::Binary(mir::BinOp::Add, a, b) => {
            assert!(matches!(a.kind, mir::ExprKind::Int(1)));
            assert!(matches!(b.kind, mir::ExprKind::Int(2)));
        }
        other => panic!("{other:?}"),
    }
}

#[test]
fn null_is_a_string_and_plus_is_dropped() {
    assert_eq!(lowered(expr(Ty::Null, TExprKind::Null)).ty, mir::Ty::String);
    let plus = expr(Ty::Number, TExprKind::Unary(UnaryOp::Plus, boxed(Ty::Int, TExprKind::Int(7))));
    assert!(matches!(lowered(plus).kind, mir::ExprKind::Int(7)));
}

#[test]
fn void_evaluates_and_is_undefined() {
    let v = expr(Ty::Any, TExprKind::Unary(UnaryOp::Void, Box::new(integer(3))));
    match lowered(v).kind {
        mir::ExprKind::Comma(a, b) => {
            assert!(matches!(a.kind, mir::ExprKind::Int(3)));
            assert!(matches!(b.kind, mir::ExprKind::Undefined));
        }
        other => panic!("{other:?}"),
    }
}

#[test]
fn builtins_take_their_missing_arguments() {
    let call = expr(Ty::Number, TExprKind::CallBuiltin(BuiltinFn::ParseInt, vec![]));
    match lowered(call).kind {
        mir::ExprKind::CallBuiltin(mir::Builtin::ParseInt, args) => {
            assert_eq!(args.len(), 2);
            assert!(matches!(&args[0].kind, mir::ExprKind::Str(s) if s == "NaN"));
            assert!(matches!(args[1].kind, mir::ExprKind::Int(0)));
        }
        other => panic!("{other:?}"),
    }
    let call = expr(Ty::Boolean, TExprKind::CallBuiltin(BuiltinFn::IsNaN, vec![]));
    match lowered(call).kind {
        mir::ExprKind::CallBuiltin(mir::Builtin::IsNaN, args) => match args[0].kind {
            mir::ExprKind::Number(bits) => assert!(f64::from_bits(bits).is_nan()),
            _ => panic!(),
        },
        other => panic!("{other:?}"),
    }
}

#[test]
fn string_methods_take_their_missing_arguments() {
    let call = |name: &str, args: Vec<TExpr>| {
        expr(Ty::String, TExprKind::CallMethod(Box::new(text("abc")), name.to_string(), args))
    };
    match lowered(call("substr", vec![])).kind {
        mir::ExprKind::CallStrMethod(mir::StrMethod::Substr, _, args) => {
            assert!(matches!(args[0].kind, mir::ExprKind::Number(0)));
            match args[1].kind {
                mir::ExprKind::Number(bits) => assert_eq!(f64::from_bits(bits), 2147483647.0),
                _ => panic!(),
            }
        }
        other => panic!("{other:?}"),
    }
    match lowered(call("concat", vec![text("d"), integer(5)])).kind {
        mir::ExprKind::Binary(mir::BinOp::Add, left, right) => {
            assert!(matches!(left.kind, mir::ExprKind::Binary(mir::BinOp::Add, _, _)));
            assert!(matches!(right.kind, mir::ExprKind::Conv(mir::Conv::ToString, _)));
        }
        other => panic!("{other:?}"),
    }
    let ten = expr(
        Ty::String,
        TExprKind::CallMethod(Box::new(integer(9)), "toString".to_string(), vec![]),
    );
    match lowered(ten).kind {
        mir::ExprKind::CallNumMethod(mir::NumMethod::ToString, recv, args) => {
            assert!(matches!(recv.kind, mir::ExprKind::Conv(mir::Conv::ToNumber, _)));
            match args[0].kind {
                mir::ExprKind::Number(bits) => assert_eq!(f64::from_bits(bits), 10.0),
                _ => panic!(),
            }
        }
        other => panic!("{other:?}"),
    }
}

#[test]
fn defaulted_arguments_are_filled_in_at_the_call() {
    let g = function("g", vec![local(Ty::Int, Some(integer(4)))], 1, vec![]);
    let inner = expr(Ty::Int, TExprKind::CallFn(FnId(1), vec![]));
    let f = function("f", vec![local(Ty::Int, Some(inner))], 1, vec![]);
    let call = expr(Ty::Void, TExprKind::CallFn(FnId(2), vec![]));
    let main = function("main", vec![], 0, vec![stmt(TStmtKind::Expr(call))]);
    let p = TProgram { functions: vec![main, g, f] };
    assert!(!lowerable(&p, 1));
    assert!(lowerable(&p, 2));
    let out = lower(&p).unwrap();
    match &out.functions[0].body[0] {
        mir::Stmt::Expr(e) => match &e.kind {
            mir::ExprKind::CallFn(mir::FnId(2), args) => match &args[0].kind {
                mir::ExprKind::CallFn(mir::FnId(1), inner) => {
                    assert!(matches!(inner[0].kind, mir::ExprKind::Int(4)));
                }
                other => panic!("{other:?}"),
            },
            other => panic!("{other:?}"),
        },
        other => panic!("{other:?}"),
    }
}

#[test]
fn endless_defaults_and_erroneous_trees_are_not_lowerable() {
    let inner = expr(Ty::Int, TExprKind::CallFn(FnId(1), vec![]));
    let f = function("f", vec![local(Ty::Int, Some(inner))], 1, vec![]);
    let call = expr(Ty::Void, TExprKind::CallFn(FnId(1), vec![]));
    let main = function("main", vec![], 0, vec![stmt(TStmtKind::Expr(call))]);
    assert!(!lowerable(&TProgram { functions: vec![main, f] }, 20));
    assert!(!lowerable(&script(vec![stmt(TStmtKind::Expr(expr(Ty::Error, TExprKind::Null)))]), 5));
    let stray = expr(Ty::Void, TExprKind::CallFn(FnId(9), vec![]));
    assert!(!lowerable(&script(vec![stmt(TStmtKind::Expr(stray))]), 5));
}

#[test]
fn a_call_with_all_its_arguments_needs_no_locals_of_the_callee() {
    let f = function("f", vec![], 1, vec![]);
    let call = expr(Ty::Void, TExprKind::CallFn(FnId(1), vec![integer(3)]));
    let main = function("main", vec![], 0, vec![stmt(TStmtKind::Expr(call))]);
    let p = TProgram { functions: vec![main, f] };
    assert!(lowerable(&p, 3));
    let out = lower(&p).unwrap();
    assert!(format!("{:?}", out.functions[0].body[0]).contains("Int(3)"));
}

#[test]
fn labels_go_to_their_loops() {
    let body = Box::new(stmt(TStmtKind::Break { label: Some("a".to_string()) }));
    let inner = stmt(TStmtKind::While { cond: expr(Ty::Boolean, TExprKind::Bool(true)), body });
    let p = script(vec![stmt(TStmtKind::Labeled { label: "a".to_string(), body: Box::new(inner) })]);
    let out = lower(&p).unwrap();
    match &out.functions[0].body[0] {
        mir::Stmt::While { label, body, .. } => {
            assert_eq!(label.as_deref(), Some("a"));
            assert!(matches!(**body, mir::Stmt::Break { .. }));
        }
        other => panic!("{other:?}"),
    }
    let odd = stmt(TStmtKind::Labeled {
        label: "b".to_string(),
        body: Box::new(stmt(TStmtKind::Empty)),
    });
    assert_eq!(
        refused(odd),
        vec!["labels on non-loop statements — Phase 6 (not yet implemented)"]
    );
}

#[test]
fn what_no_backend_supports_is_reported() {
    let cases: Vec<(TExprKind, &str)> = vec![
        (TExprKind::Array(vec![]), "Array literals need the Array class — Phase 5"),
        (TExprKind::Object(vec![]), "object literals need the object model — Phase 4"),
        (TExprKind::FnRef(FnId(0)), "functions as values need closures — Phase 6"),
        (
            TExprKind::Binary(BinaryOp::In, Box::new(integer(1)), Box::new(integer(2))),
            "`in` needs the object model — Phase 4",
        ),
        (
            TExprKind::Postfix(PostfixOp::Inc, Box::new(integer(1))),
            "++/-- on non-local or non-numeric targets — Phase 4",
        ),
        (
            TExprKind::CallMethod(Box::new(text("a")), "split".to_string(), vec![]),
            "`split` returns Array — Phase 5",
        ),
    ];
    for (kind, message) in cases {
        let got = refused(stmt(TStmtKind::Expr(expr(Ty::Any, kind))));
        assert_eq!(got, vec![format!("{message} (not yet implemented)")]);
    }
    assert_eq!(
        refused(stmt(TStmtKind::Throw { value: integer(1) })),
        vec!["`throw`/`try` exceptions — Phase 6 (not yet implemented)"]
    );
}

#[test]
fn reports_come_in_source_order() {
    let mut late = expr(Ty::Any, TExprKind::Array(vec![]));
    late.span = at(20);
    let mut early = expr(Ty::Any, TExprKind::Object(vec![]));
    early.span = at(10);
    let p = script(vec![stmt(TStmtKind::Expr(late)), stmt(TStmtKind::Expr(early))]);
    let ds = lower(&p).unwrap_err();
    let starts: Vec<u32> = ds.iter().map(|d| d.span.unwrap().start).collect();
    assert_eq!(starts, vec![10, 20]);
}

#[test]
fn statements_keep_their_shape() {
    let set = expr(Ty::Int, TExprKind::LocalSet(LocalId(0), Box::new(integer(1))));
    let inc = expr(
        Ty::Int,
        TExprKind::Postfix(PostfixOp::Inc, boxed(Ty::Int, TExprKind::LocalGet(LocalId(0)))),
    );
    let to_text = expr(Ty::String, TExprKind::Coerce(Coercion::ToString, Box::new(integer(1))));
    let body = vec![
        stmt(TStmtKind::For {
            init: Some(Box::new(stmt(TStmtKind::Expr(set)))),
            cond: Some(expr(Ty::Boolean, TExprKind::Bool(true))),
            update: Some(inc),
            body: Box::new(stmt(TStmtKind::Empty)),
        }),
        stmt(TStmtKind::Switch {
            scrutinee: integer(1),
            cases: vec![TCase { test: None, body: vec![stmt(TStmtKind::Break { label: None })] }],
        }),
        stmt(TStmtKind::Return { value: Some(to_text) }),
    ];
    let p = TProgram { functions: vec![function("main", vec![local(Ty::Int, None)], 0, body)] };
    assert!(lowerable(&p, 0));
    let out = lower(&p).unwrap();
    let f = &out.functions[0];
    assert_eq!(f.locals, vec![mir::Ty::Int]);
    match &f.body[0] {
        mir::Stmt::For { update: Some(u), .. } => assert!(matches!(
            u.kind,
            mir::ExprKind::IncDec { target: mir::LocalId(0), is_inc: true, is_prefix: false }
        )),
        other => panic!("{other:?}"),
    }
    assert!(matches!(&f.body[1], mir::Stmt::Switch { cases, .. } if cases.len() == 1));
    assert!(matches!(&f.body[2], mir::Stmt::Return { value: Some(_) }));
}
