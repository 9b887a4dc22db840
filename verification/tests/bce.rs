use volentscript::bce::version::run;
use volentscript::mir::{
    BinOp, CapSrc, Catch, Conv, Expr, ExprKind, FnId, Function, LocalId, Program, Stmt, Ty,
};
use volentscript::span::{SourceId, Span};

const I: LocalId = LocalId(0);
const V: LocalId = LocalId(1);
const N: LocalId = LocalId(2);

fn span() -> Span {
    Span::new(SourceId(0), 5, 6)
}

fn expr(ty: Ty, kind: ExprKind) -> Expr {
    Expr { ty, span: span(), kind }
}

fn get(l: LocalId, ty: Ty) -> Expr {
    expr(ty, ExprKind::LocalGet(l))
}

fn number(e: Expr) -> Expr {
    expr(Ty::Number, ExprKind::Conv(Conv::ToNumber, Box::new(e)))
}

fn element() -> Expr {
    expr(
        Ty::Number,
        ExprKind::SeqGet(
            Box::new(get(V, Ty::Vector(0))),
            Box::new(number(get(I, Ty::Int))),
            false,
        ),
    )
}

fn length() -> Expr {
    expr(Ty::UInt, ExprKind::SeqLen(Box::new(get(V, Ty::Vector(0)))))
}

/// `for (i = 0; i < bound; i++) body`.
fn counted(op: BinOp, start: i32, bound: Expr, body: Vec<Stmt>) -> Stmt {
    Stmt::For {
        label: None,
        init: Some(Box::new(Stmt::Assign(I, expr(Ty::Int, ExprKind::Int(start))))),
        cond: Some(expr(
            Ty::Boolean,
            ExprKind::Binary(op, Box::new(number(get(I, Ty::Int))), Box::new(number(bound))),
        )),
        update: Some(expr(
            Ty::Int,
            ExprKind::IncDec { target: I, is_inc: true, is_prefix: false },
        )),
        body: Box::new(Stmt::Block(body)),
    }
}

fn program(s: Stmt, captured: Vec<bool>) -> Program {
    Program {
        functions: vec![Function {
            name: "f".to_string(),
            ret: Ty::Void,
            locals: vec![Ty::Int, Ty::Vector(0), Ty::Int],
            param_count: 0,
            param_defaults: vec![],
            body: vec![s],
            span: span(),
            captures: vec![],
            captured,
            this_class: None,
        }],
        classes: vec![],
        vectors: vec![Ty::Number],
        namespace_uris: vec![],
        error_classes: vec![],
    }
}

fn rewritten(s: Stmt) -> Stmt {
    let mut p = program(s, vec![]);
    run(&mut p, true);
    p.functions[0].body.remove(0)
}

fn is_checked(s: &Stmt) -> bool {
    let t = format!("{s:?}");
    !t.contains("true)")
}

#[test]
fn a_counted_loop_over_a_vector_gets_a_guarded_fast_path() {
    let before = counted(BinOp::Lt, 0, get(N, Ty::Int), vec![Stmt::Expr(element())]);
    let original = format!("{before:?}");
    match rewritten(before) {
        Stmt::If { cond, then_branch, else_branch: Some(slow) } => {
            // i < N reaches N - 1: the guard is N <= v.length.
            match cond.kind {
                ExprKind::Binary(BinOp::Le, bound, len) => {
                    assert!(format!("{bound:?}").contains("LocalGet(LocalId(2))"));
                    assert!(format!("{len:?}").contains("SeqLen"));
                }
                other => panic!("{other:?}"),
            }
            assert_eq!(format!("{slow:?}"), original);
            assert!(format!("{then_branch:?}").contains("SeqGet"));
            assert!(!is_checked(&then_branch));
            assert!(is_checked(&slow));
        }
        other => panic!("{other:?}"),
    }
}

#[test]
fn an_inclusive_bound_needs_a_strict_guard() {
    let s = counted(BinOp::Le, 0, get(N, Ty::Int), vec![Stmt::Expr(element())]);
    match rewritten(s) {
        Stmt::If { cond, .. } => assert!(matches!(cond.kind, ExprKind::Binary(BinOp::Lt, _, _))),
        other => panic!("{other:?}"),
    }
}

#[test]
fn the_length_of_the_vector_is_an_invariant_bound() {
    let s = counted(BinOp::Lt, 0, length(), vec![Stmt::Expr(element())]);
    assert!(matches!(rewritten(s), Stmt::If { .. }));
}

/// The loop is left as it is.
fn untouched(s: Stmt) {
    let original = format!("{s:?}");
    assert_eq!(format!("{:?}", rewritten(s)), original);
}

#[test]
fn unsafe_loops_stay_checked() {
    // A negative start.
    untouched(counted(BinOp::Lt, -1, get(N, Ty::Int), vec![Stmt::Expr(element())]));
    // The induction variable is written.
    untouched(counted(
        BinOp::Lt,
        0,
        get(N, Ty::Int),
        vec![Stmt::Expr(element()), Stmt::Assign(I, expr(Ty::Int, ExprKind::Int(0)))],
    ));
    // The bound is written.
    untouched(counted(
        BinOp::Lt,
        0,
        get(N, Ty::Int),
        vec![Stmt::Expr(element()), Stmt::Assign(N, expr(Ty::Int, ExprKind::Int(0)))],
    ));
    // The vector is reassigned.
    untouched(counted(
        BinOp::Lt,
        0,
        get(N, Ty::Int),
        vec![Stmt::Expr(element()), Stmt::Assign(V, get(V, Ty::Vector(0)))],
    ));
    // The vector escapes.
    untouched(counted(
        BinOp::Lt,
        0,
        get(N, Ty::Int),
        vec![Stmt::Expr(element()), Stmt::Expr(get(V, Ty::Vector(0)))],
    ));
    // The vector changes its length.
    let shrink = expr(
        Ty::Void,
        ExprKind::SeqSetLen(
            Box::new(get(V, Ty::Vector(0))),
            Box::new(expr(Ty::UInt, ExprKind::UInt(0))),
        ),
    );
    untouched(counted(
        BinOp::Lt,
        0,
        get(N, Ty::Int),
        vec![Stmt::Expr(element()), Stmt::Expr(shrink)],
    ));
    // Nothing is accessed.
    untouched(counted(BinOp::Lt, 0, get(N, Ty::Int), vec![]));
}

#[test]
fn captured_vectors_and_boxed_elements_stay_checked() {
    let make = || counted(BinOp::Lt, 0, get(N, Ty::Int), vec![Stmt::Expr(element())]);
    let mut p = program(make(), vec![false, true, false]);
    run(&mut p, true);
    assert!(matches!(p.functions[0].body[0], Stmt::For { .. }));
    let mut p = program(make(), vec![]);
    p.vectors = vec![Ty::String];
    run(&mut p, true);
    assert!(matches!(p.functions[0].body[0], Stmt::For { .. }));
}

#[test]
fn the_pass_can_be_switched_off() {
    let mut p = program(
        counted(BinOp::Lt, 0, get(N, Ty::Int), vec![Stmt::Expr(element())]),
        vec![],
    );
    let original = format!("{p:?}");
    run(&mut p, false);
    assert_eq!(format!("{p:?}"), original);
}

#[test]
fn nested_loops_are_found() {
    let inner = counted(BinOp::Lt, 0, get(N, Ty::Int), vec![Stmt::Expr(element())]);
    let outer = Stmt::While {
        label: None,
        cond: expr(Ty::Boolean, ExprKind::Bool(true)),
        body: Box::new(inner),
    };
    match rewritten(outer) {
        Stmt::While { body, .. } => assert!(matches!(*body, Stmt::If { .. })),
        other => panic!("{other:?}"),
    }
}

#[test]
fn each_unchecked_access_stands_behind_the_guard_of_its_own_loop() {
    // for (i = 0; i < n; i++) { v[i]; for (j = 0; j < n; j++) w[j]; }
    let j = LocalId(3);
    let w = LocalId(4);
    let at_j = expr(
        Ty::Number,
        ExprKind::SeqGet(
            Box::new(get(w, Ty::Vector(0))),
            Box::new(number(get(j, Ty::Int))),
            false,
        ),
    );
    let inner = Stmt::For {
        label: None,
        init: Some(Box::new(Stmt::Assign(j, expr(Ty::Int, ExprKind::Int(0))))),
        cond: Some(expr(
            Ty::Boolean,
            ExprKind::Binary(
                BinOp::Lt,
                Box::new(number(get(j, Ty::Int))),
                Box::new(number(get(N, Ty::Int))),
            ),
        )),
        update: Some(expr(
            Ty::Int,
            ExprKind::IncDec { target: j, is_inc: true, is_prefix: false },
        )),
        body: Box::new(Stmt::Expr(at_j)),
    };
    let outer = counted(BinOp::Lt, 0, get(N, Ty::Int), vec![Stmt::Expr(element()), inner]);
    let mut p = program(outer, vec![]);
    p.functions[0].locals.push(Ty::Int);
    p.functions[0].locals.push(Ty::Vector(0));
    run(&mut p, true);
    let (fast, slow) = match p.functions[0].body.remove(0) {
        Stmt::If { cond, then_branch, else_branch: Some(slow) } => {
            assert!(format!("{cond:?}").contains("LocalGet(LocalId(1))"));
            assert!(!format!("{cond:?}").contains("LocalGet(LocalId(4))"));
            (then_branch, slow)
        }
        other => panic!("{other:?}"),
    };
    for (copy, outer_checked) in [(*fast, false), (*slow, true)] {
        let stmts = match copy {
            Stmt::For { body, .. } => match *body {
                Stmt::Block(b) => b,
                other => panic!("{other:?}"),
            },
            other => panic!("{other:?}"),
        };
        assert_eq!(is_checked(&stmts[0]), outer_checked);
        match &stmts[1] {
            Stmt::If { cond, then_branch, else_branch: Some(inner_slow) } => {
                assert!(format!("{cond:?}").contains("LocalGet(LocalId(4))"));
                assert!(format!("{then_branch:?}").contains("true)"));
                assert!(is_checked(inner_slow));
            }
            other => panic!("{other:?}"),
        }
    }
}

/// A closure over the given cells that writes the one with the given number.
fn writer(captures: Vec<CapSrc>, slot: usize) -> Function {
    let value = Box::new(expr(Ty::Int, ExprKind::Int(9)));
    Function {
        name: "g".to_string(),
        ret: Ty::Void,
        locals: vec![],
        param_count: 0,
        param_defaults: vec![],
        body: vec![Stmt::Expr(expr(Ty::Int, ExprKind::CaptureSet(slot, value)))],
        span: span(),
        captures,
        captured: vec![],
        this_class: None,
    }
}

/// Whether the first loop of a function with these captured locals is versioned,
/// beside these closures.
fn versioned(s: Stmt, captured: Vec<bool>, closures: Vec<Function>) -> bool {
    let mut p = program(s, captured);
    p.functions.extend(closures);
    run(&mut p, true);
    matches!(p.functions[0].body[0], Stmt::If { .. })
}

#[test]
fn what_a_closure_can_write_is_not_trusted() {
    let call = || Stmt::Expr(expr(Ty::Void, ExprKind::CallFn(FnId(1), vec![])));
    let still = |bound: Expr| counted(BinOp::Lt, 0, bound, vec![Stmt::Expr(element())]);
    let calling = |bound: Expr| counted(BinOp::Lt, 0, bound, vec![Stmt::Expr(element()), call()]);
    let n = || get(N, Ty::Int);
    let writes = |l: LocalId| vec![writer(vec![CapSrc::ParentLocal(l)], 0)];
    assert!(versioned(calling(n()), vec![false, false, false], writes(I)));
    // The induction variable or the bound: captured, written, and a call between.
    assert!(!versioned(calling(n()), vec![true, false, false], writes(I)));
    assert!(!versioned(calling(n()), vec![false, false, true], writes(N)));
    let nested = || vec![writer(vec![CapSrc::ParentCapture(2)], 0)];
    assert!(!versioned(calling(n()), vec![false, false, true], nested()));
    // Without one of the three nothing else writes it.
    assert!(versioned(still(n()), vec![true, false, true], writes(I)));
    assert!(versioned(calling(n()), vec![true, false, true], vec![]));
    assert!(versioned(calling(n()), vec![true, false, false], writes(N)));
    // The vector whose length is the bound, within reach of the call.
    let w = LocalId(5);
    let other = || expr(Ty::UInt, ExprKind::SeqLen(Box::new(get(w, Ty::Vector(0)))));
    let held = || vec![false, false, false, false, false, true];
    assert!(versioned(still(other()), held(), vec![]));
    assert!(!versioned(calling(other()), held(), vec![]));
    assert!(versioned(calling(other()), vec![], vec![]));
}

#[test]
fn what_changes_with_the_loop_is_not_trusted() {
    let lp = |bound: Expr| counted(BinOp::Lt, 0, bound, vec![Stmt::Expr(element())]);
    // A bound that moves with the loop.
    assert!(!versioned(lp(get(I, Ty::Int)), vec![], vec![]));
    // An induction variable that a `catch` clause binds.
    let bound_by = |binding: LocalId| Stmt::Try {
        body: vec![],
        catches: vec![Catch { binding, body: vec![] }],
        finally: None,
    };
    let caught = |binding: LocalId| {
        counted(BinOp::Lt, 0, get(N, Ty::Int), vec![Stmt::Expr(element()), bound_by(binding)])
    };
    assert!(versioned(caught(LocalId(6)), vec![], vec![]));
    assert!(!versioned(caught(I), vec![], vec![]));
}

#[test]
fn a_capture_is_trusted_unless_other_code_can_write_it() {
    let cell = || expr(Ty::Int, ExprKind::CaptureGet(0));
    let over = |extra: Vec<Stmt>| {
        let mut body = vec![Stmt::Expr(element())];
        body.extend(extra);
        counted(BinOp::Lt, 0, cell(), body)
    };
    let call = || Stmt::Expr(expr(Ty::Void, ExprKind::CallFn(FnId(1), vec![])));
    let show = || {
        let value = Box::new(get(LocalId(7), Ty::Any));
        Stmt::Expr(expr(Ty::String, ExprKind::Conv(Conv::AnyToString, value)))
    };
    let writing = || vec![writer(vec![CapSrc::ParentLocal(N)], 0)];
    assert!(versioned(over(vec![]), vec![], writing()));
    assert!(versioned(over(vec![call()]), vec![], vec![]));
    assert!(!versioned(over(vec![call()]), vec![], writing()));
    assert!(!versioned(over(vec![show()]), vec![], writing()));
}
