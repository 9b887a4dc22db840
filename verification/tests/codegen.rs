use volentscript::codegen::code::WrapTarget;
use volentscript::codegen::layout::{fn_symbol, runtime_attrs, wrapper_symbol};
use volentscript::codegen::module::{compile, Module};
use volentscript::codegen::opts::{CodegenOpts, LlvmBackend, OptLevel};
use volentscript::codegen::value::{
    F64_2_31, F64_2_32, F64_BELOW_I32, F64_HALF, F64_MAX, F64_MINUS_ONE, F64_NAN, F64_ONE,
    F64_ZERO,
};
use volentscript::lower::rules::{MAX_INDEX, NAN, TEN};
use volentscript::mir::{
    BinOp, Builtin, Catch, Class, Conv, Expr, ExprKind, FnId, Function, LocalId, Program, Stmt,
    Ty,
};
use volentscript::span::{SourceId, Span};

fn span() -> Span {
    Span::new(SourceId(0), 0, 0)
}

fn expr(ty: Ty, kind: ExprKind) -> Expr {
    Expr { ty, span: span(), kind }
}

fn integer(v: i32) -> Expr {
    expr(Ty::Int, ExprKind::Int(v))
}

fn function(ret: Ty, locals: Vec<Ty>, param_count: usize, body: Vec<Stmt>) -> Function {
    Function {
        name: "f".to_string(),
        ret,
        locals,
        param_count,
        param_defaults: vec![],
        body,
        span: span(),
        captures: vec![],
        captured: vec![],
        this_class: None,
    }
}

fn program(functions: Vec<Function>) -> Program {
    Program {
        functions,
        classes: vec![],
        vectors: vec![],
        namespace_uris: vec![],
        error_classes: vec![],
    }
}

fn code(m: &Module, i: usize) -> Vec<String> {
    m.bodies[i].code.iter().map(|c| format!("{c:?}")).collect()
}

/// The code of a script made of the statements.
fn script_code(ret: Ty, locals: Vec<Ty>, body: Vec<Stmt>) -> Vec<String> {
    let p = program(vec![function(ret, locals, 0, body)]);
    let m = compile(&p, false).unwrap();
    code(&m, 0)
}

#[test]
fn constants_have_the_bits_of_their_values() {
    assert_eq!(F64_ZERO, 0f64.to_bits());
    assert_eq!(F64_HALF, 0.5f64.to_bits());
    assert_eq!(F64_ONE, 1f64.to_bits());
    assert_eq!(F64_MINUS_ONE, (-1f64).to_bits());
    assert_eq!(F64_2_31, 2147483648f64.to_bits());
    assert_eq!(F64_BELOW_I32, (-2147483649f64).to_bits());
    assert_eq!(F64_2_32, 4294967296f64.to_bits());
    assert_eq!(F64_MAX, f64::MAX.to_bits());
    assert!(f64::from_bits(F64_NAN).is_nan());
    assert!(f64::from_bits(NAN).is_nan());
    assert_eq!(TEN, 10f64.to_bits());
    assert_eq!(MAX_INDEX, 2147483647f64.to_bits());
}

#[test]
fn an_empty_script_returns() {
    assert_eq!(
        script_code(Ty::Void, vec![], vec![]),
        vec!["NewBlock", "NewBlock", "At(1)", "RetVoid", "At(0)", "Br(1)"]
    );
}

#[test]
fn a_value_is_returned() {
    assert_eq!(
        script_code(Ty::Int, vec![], vec![Stmt::Return { value: Some(integer(7)) }]),
        vec!["NewBlock", "NewBlock", "At(1)", "Ret(I32(7))", "At(0)", "Br(1)"]
    );
}

#[test]
fn locals_live_in_stack_slots_with_their_defaults() {
    let body = vec![
        Stmt::Assign(LocalId(0), integer(3)),
        Stmt::Return { value: Some(expr(Ty::Int, ExprKind::LocalGet(LocalId(0)))) },
    ];
    assert_eq!(
        script_code(Ty::Int, vec![Ty::Int], body),
        vec![
            "NewBlock",
            "NewBlock",
            "At(1)",
            "Alloca(I32, 1)",
            "Store(Val(3), I32(0))",
            "Store(Val(3), I32(3))",
            "Load(I32, Val(3))",
            "Ret(Val(6))",
            "At(0)",
            "Br(1)"
        ]
    );
}

#[test]
fn numbers_add_as_doubles() {
    let num = |v: f64| expr(Ty::Number, ExprKind::Number(v.to_bits()));
    let sum = expr(
        Ty::Number,
        ExprKind::Binary(BinOp::Add, Box::new(num(1.5)), Box::new(num(2.0))),
    );
    let c = script_code(Ty::Number, vec![], vec![Stmt::Return { value: Some(sum) }]);
    assert_eq!(
        c[3],
        format!("Float(Add_, F64({}), F64({}))", 1.5f64.to_bits(), 2f64.to_bits())
    );
    assert_eq!(c[4], "Ret(Val(3))");
}

#[test]
fn a_double_truncates_inline_only_within_the_bounds() {
    let x = expr(Ty::Number, ExprKind::LocalGet(LocalId(0)));
    let e = expr(Ty::Int, ExprKind::Conv(Conv::ToInt, Box::new(x)));
    let c = script_code(Ty::Int, vec![Ty::Number], vec![Stmt::Return { value: Some(e) }]);
    assert!(c.contains(&format!("FCmp(OGT, Val(5), F64({F64_BELOW_I32}))")), "{c:?}");
    assert!(c.contains(&format!("FCmp(OLT, Val(5), F64({F64_2_31}))")), "{c:?}");
    assert!(c.contains(&"Cast(FpToSi, Val(5))".to_string()), "{c:?}");
    assert!(c.contains(&"CallRt(\"vs_f64_to_int32\", Some(I32))".to_string()), "{c:?}");
}

#[test]
fn unreachable_statements_have_no_code() {
    let body = vec![
        Stmt::Return { value: Some(integer(1)) },
        Stmt::Return { value: Some(integer(2)) },
    ];
    assert_eq!(
        script_code(Ty::Int, vec![], body),
        vec!["NewBlock", "NewBlock", "At(1)", "Ret(I32(1))", "At(0)", "Br(1)"]
    );
}

#[test]
fn a_branch_joins_again() {
    let body = vec![Stmt::If {
        cond: expr(Ty::Boolean, ExprKind::Bool(true)),
        then_branch: Box::new(Stmt::Empty),
        else_branch: None,
    }];
    let c = script_code(Ty::Void, vec![], body);
    assert!(c.iter().any(|s| s.starts_with("CondBr(I1(true)")), "{c:?}");
    assert_eq!(c.iter().filter(|s| *s == "RetVoid").count(), 1);
}

#[test]
fn leaving_a_try_pops_its_handler_and_runs_finally() {
    let mark = |v: i32| {
        Stmt::Expr(expr(
            Ty::Void,
            ExprKind::CallBuiltin(
                Builtin::Trace,
                vec![expr(Ty::Any, ExprKind::Conv(Conv::ToAny, Box::new(integer(v))))],
            ),
        ))
    };
    let body = vec![Stmt::Try {
        body: vec![Stmt::Return { value: None }],
        catches: vec![],
        finally: Some(vec![mark(77)]),
    }];
    let p = program(vec![function(Ty::Void, vec![], 0, body)]);
    let m = compile(&p, false).unwrap();
    assert!(m.bodies[0].pinned);
    let c = code(&m, 0);
    let ret = c.iter().position(|s| s == "RetVoid").unwrap();
    let pop = c.iter().position(|s| s == "PopHandler").unwrap();
    let run = c.iter().position(|s| s.contains("I32(77)")).unwrap();
    assert!(pop < run && run < ret, "{c:?}");
    assert!(c.iter().any(|s| s.contains("CallTwice(\"_setjmp\"")), "{c:?}");
    let m = compile(&p, true).unwrap();
    assert!(code(&m, 0).iter().any(|s| s.contains("CallTwice(\"vs_setjmp\"")));
}

/// The paths through the code from its first block, without a second round of a
/// loop: the commands that each passes.
fn paths(code: &[String], at: usize, passed: &mut Vec<usize>, all: &mut Vec<Vec<usize>>) {
    if passed.contains(&at) {
        return;
    }
    passed.push(at);
    let numbers: Vec<usize> = code[at]
        .split(|c: char| !c.is_ascii_digit())
        .filter(|s| !s.is_empty())
        .map(|s| s.parse().unwrap())
        .collect();
    let enter = |b: usize| code.iter().position(|c| *c == format!("At({b})")).unwrap();
    if code[at].starts_with("Br(") {
        paths(code, enter(numbers[0]), passed, all);
    } else if code[at].starts_with("CondBr(") {
        let n = numbers.len();
        paths(code, enter(numbers[n - 2]), passed, all);
        paths(code, enter(numbers[n - 1]), passed, all);
    } else if code[at].starts_with("Ret") || code[at] == "Unreachable" {
        all.push(passed.clone());
    } else {
        paths(code, at + 1, passed, all);
    }
    passed.pop();
}

fn all_paths(code: &[String]) -> Vec<Vec<String>> {
    let mut all = vec![];
    let first = code.iter().position(|c| c == "At(0)").unwrap();
    paths(code, first, &mut vec![], &mut all);
    all.into_iter().map(|p| p.into_iter().map(|k| code[k].clone()).collect()).collect()
}

#[test]
fn every_path_leaves_its_handlers_and_runs_each_cleanup_once() {
    let flag = || expr(Ty::Boolean, ExprKind::Bool(true));
    let mark = |v: i32| Stmt::Assign(LocalId(0), integer(v));
    let leave = || Stmt::If {
        cond: flag(),
        then_branch: Box::new(Stmt::Return { value: None }),
        else_branch: Some(Box::new(Stmt::If {
            cond: flag(),
            then_branch: Box::new(Stmt::Break { label: None }),
            else_branch: None,
        })),
    };
    let inner = Stmt::Try {
        body: vec![leave()],
        catches: vec![Catch { binding: LocalId(1), body: vec![leave()] }],
        finally: Some(vec![mark(71)]),
    };
    let outer = Stmt::Try {
        body: vec![inner],
        catches: vec![],
        finally: Some(vec![mark(72)]),
    };
    let lp = Stmt::While { label: None, cond: flag(), body: Box::new(outer) };
    let c = script_code(Ty::Void, vec![Ty::Int, Ty::Any], vec![lp]);
    let mut returns = 0;
    for path in all_paths(&c) {
        let mut installed: i32 = 0;
        for cmd in &path {
            if cmd.starts_with("PushHandler(") {
                installed += 1;
            } else if cmd == "PopHandler" {
                installed -= 1;
                assert!(installed >= 0, "{path:?}");
            }
        }
        if path.last().unwrap() == "RetVoid" {
            returns += 1;
            assert_eq!(installed, 0, "{path:?}");
            let runs = |v: &str| path.iter().filter(|s| s.contains(v)).count();
            assert!(runs("I32(71)") <= 1 && runs("I32(71)") == runs("I32(72)"), "{path:?}");
        }
    }
    assert!(returns > 4);
}

#[test]
fn a_finally_that_returns_leaves_the_cleanups_below_it() {
    let mark = |v: i32| Stmt::Assign(LocalId(0), integer(v));
    let inner = Stmt::Try {
        body: vec![Stmt::Return { value: None }],
        catches: vec![],
        finally: Some(vec![mark(71), Stmt::Return { value: None }]),
    };
    let outer = Stmt::Try {
        body: vec![inner],
        catches: vec![],
        finally: Some(vec![mark(72)]),
    };
    let c = script_code(Ty::Void, vec![Ty::Int], vec![outer]);
    let first = c.iter().position(|s| s == "RetVoid").unwrap();
    let wanted = ["PushHandler", "PopHandler", "I32(71)", "I32(72)"];
    let seen: Vec<&str> = c[..first]
        .iter()
        .filter_map(|s| wanted.into_iter().find(|w| s.contains(w)))
        .collect();
    assert_eq!(
        seen,
        vec!["PushHandler", "PushHandler", "PopHandler", "I32(71)", "PopHandler", "I32(72)"]
    );
}

#[test]
fn a_finally_inside_a_loop_can_leave_the_loop() {
    let flag = || expr(Ty::Boolean, ExprKind::Bool(true));
    let guarded = |body: Stmt| Stmt::Try {
        body: vec![body],
        catches: vec![],
        finally: Some(vec![Stmt::Break { label: None }]),
    };
    let within = |body: Stmt| Stmt::While { label: None, cond: flag(), body: Box::new(body) };
    let compiles = |body: Stmt| {
        compile(&program(vec![function(Ty::Void, vec![], 0, vec![body])]), false).is_some()
    };
    assert!(compiles(within(guarded(Stmt::Return { value: None }))));
    // The jump would go to a loop that is being left.
    assert!(!compiles(within(guarded(within(Stmt::Return { value: None })))));
}

#[test]
fn safepoints_stand_only_where_something_is_allocated() {
    let quiet = script_code(Ty::Void, vec![], vec![]);
    assert!(!quiet.iter().any(|s| s.contains("vs_gc_safepoint")));
    let text = expr(Ty::String, ExprKind::Str("a".to_string()));
    let busy = script_code(Ty::Void, vec![], vec![Stmt::Expr(text)]);
    assert!(busy.iter().any(|s| s.contains("vs_gc_safepoint")));
}

#[test]
fn commands_refer_to_earlier_ones_only() {
    let text = |s: &str| expr(Ty::String, ExprKind::Str(s.to_string()));
    let body = vec![
        Stmt::While {
            label: None,
            cond: expr(
                Ty::Boolean,
                ExprKind::Binary(BinOp::Lt, Box::new(text("a")), Box::new(text("b"))),
            ),
            body: Box::new(Stmt::Expr(expr(
                Ty::String,
                ExprKind::Binary(BinOp::Add, Box::new(text("x")), Box::new(text("y"))),
            ))),
        },
        Stmt::Return { value: None },
    ];
    let c = script_code(Ty::Void, vec![], body);
    for (k, cmd) in c.iter().enumerate() {
        for part in cmd.split("Val(").skip(1) {
            let digits: String = part.chars().take_while(|c| c.is_ascii_digit()).collect();
            assert!(digits.parse::<usize>().unwrap() < k, "{k}: {cmd}");
        }
    }
}

#[test]
fn function_values_get_one_wrapper_each() {
    let value = || expr(Ty::Function, ExprKind::FnValue(FnId(1)));
    let body = vec![Stmt::Expr(value()), Stmt::Expr(value())];
    let p = program(vec![
        function(Ty::Void, vec![], 0, body),
        function(Ty::Int, vec![Ty::Int], 1, vec![]),
    ]);
    let m = compile(&p, false).unwrap();
    assert_eq!(m.wrappers.len(), 1);
    assert_eq!(m.wrappers[0].target, WrapTarget::Direct(FnId(1)));
    assert_eq!(m.decls.len(), 2);
    assert_eq!(m.decls[0].name, fn_symbol(0));
    assert!(!wrapper_symbol(WrapTarget::Direct(FnId(1))).is_empty());
}

#[test]
fn a_program_without_functions_is_an_empty_module() {
    let p = program(vec![]);
    let m = compile(&p, false).unwrap();
    assert!(m.decls.is_empty() && m.bodies.is_empty());
    assert!(m.classes.is_empty() && m.tables.is_empty() && m.wrappers.is_empty());
}

#[test]
fn impossible_programs_do_not_compile() {
    let stray = expr(Ty::Int, ExprKind::LocalGet(LocalId(9)));
    let p = program(vec![function(Ty::Void, vec![], 0, vec![Stmt::Expr(stray)])]);
    assert!(compile(&p, false).is_none());
    assert!(LlvmBackend::default().plan(&p, false).is_none());
}

#[test]
fn pipelines_name_their_level() {
    assert_eq!(OptLevel::O0.pipeline(), "default<O0>");
    assert_eq!(OptLevel::O1.pipeline(), "default<O1>");
    assert_eq!(OptLevel::O2.pipeline(), "default<O2>");
    assert_eq!(OptLevel::O3.pipeline(), "default<O3>");
    assert_eq!(OptLevel::default(), OptLevel::O2);
    let opts = CodegenOpts::default();
    assert!(opts.target_triple.is_none());
    assert_eq!(opts.opt, OptLevel::O2);
}

#[test]
fn levels_by_number() {
    let levels: Vec<OptLevel> = [0, 1, 2, 3, 9].iter().map(|n| OptLevel::numbered(*n)).collect();
    assert_eq!(
        levels,
        vec![OptLevel::O0, OptLevel::O1, OptLevel::O2, OptLevel::O3, OptLevel::O2]
    );
}

#[test]
fn runtime_functions_have_attributes_by_name() {
    assert!(!runtime_attrs(&"vs_gc_safepoint".to_string()).is_empty());
    assert!(runtime_attrs(&"vs_num_to_string".to_string()).is_empty());
}

/// Every block is entered once, after the one before it has ended.
fn in_order(code: &[String]) -> bool {
    let mut open = false;
    let mut entered: Vec<String> = vec![];
    for cmd in code {
        if cmd == "NewBlock" {
            continue;
        }
        if cmd.starts_with("At(") {
            if open || entered.contains(cmd) {
                return false;
            }
            entered.push(cmd.clone());
            open = true;
        } else if !open {
            return false;
        } else if ["Br(", "CondBr(", "Ret(", "RetVoid", "Unreachable"]
            .iter()
            .any(|t| cmd.starts_with(t))
        {
            open = false;
        }
    }
    let created = code.iter().filter(|c| *c == "NewBlock").count();
    !open && entered.len() == created
}

#[test]
fn each_block_is_filled_once_up_to_its_terminator() {
    let flag = || expr(Ty::Boolean, ExprKind::Bool(true));
    let leave = || Stmt::Try {
        body: vec![Stmt::If {
            cond: flag(),
            then_branch: Box::new(Stmt::Return { value: None }),
            else_branch: Some(Box::new(Stmt::Break { label: None })),
        }],
        catches: vec![],
        finally: Some(vec![Stmt::Expr(integer(1))]),
    };
    let body = vec![
        Stmt::While { label: None, cond: flag(), body: Box::new(leave()) },
        Stmt::Throw(integer(3)),
        Stmt::Expr(integer(4)),
    ];
    assert!(in_order(&script_code(Ty::Void, vec![], body)));
    // A `finally` that returns has the last word over a `return` that runs it.
    let twice = vec![Stmt::Try {
        body: vec![Stmt::Return { value: Some(integer(1)) }],
        catches: vec![],
        finally: Some(vec![Stmt::Return { value: Some(integer(2)) }]),
    }];
    let code = script_code(Ty::Int, vec![], twice);
    assert!(in_order(&code), "{code:?}");
    assert!(!code.contains(&"Ret(I32(1))".to_string()));
    assert!(code.contains(&"Ret(I32(2))".to_string()));
    // So has one that leaves a loop, over a `continue`.
    let jumps = vec![Stmt::While {
        label: None,
        cond: flag(),
        body: Box::new(Stmt::Try {
            body: vec![Stmt::Continue { label: None }],
            catches: vec![],
            finally: Some(vec![Stmt::Break { label: None }]),
        }),
    }];
    assert!(in_order(&script_code(Ty::Void, vec![], jumps)));
}

#[test]
fn classes_have_their_tables() {
    let f = || function(Ty::Void, vec![], 0, vec![]);
    let mut p = program(vec![f(), f(), f()]);
    p.classes.push(Class {
        name: "A".to_string(),
        parent: None,
        slots: vec![Ty::Int],
        statics: vec![],
        vtable: vec![FnId(2), FnId(1)],
        ifaces: vec![(4, vec![FnId(1)])],
        to_string: None,
        ctor: FnId(1),
        is_dynamic: false,
        ns_members: vec![],
    });
    let m = compile(&p, false).unwrap();
    assert_eq!(m.classes[0].vtable, vec![FnId(2), FnId(1)]);
    assert_eq!(m.classes[0].itabs.len(), 1);
    assert_eq!(m.classes[0].itabs[0].iface, 4);
    assert_eq!(m.classes[0].itabs[0].entries, vec![FnId(1)]);
}
