//! Laws of lowering.

use vstd::prelude::*;

use crate::ast::nodes::UnaryOp;
use crate::diagnostics::DiagView;
use crate::lower::rules::{
    arity, cases_ok, cases_to, cases_told, concat_to, defaults_told, expr_ok, expr_to, expr_told,
    exprs_ok, exprs_to, exprs_told, filled_to, fills_ok, fills_to, fills_told, function_ok,
    function_to, function_told, functions_told, kind_to, locals_told, method_of, num_fills,
    number_to, numbers_to, opt_expr_ok, opt_expr_to, opt_expr_told, opt_stmt_ok, opt_stmt_to,
    param_total, program_ok, program_to, program_told, refused, relabeled, stmt_ok, stmt_to,
    stmt_told, stmts_ok, stmts_to, stmts_told, str_fills, string_to, ty_gates, Fill, Method,
};
use crate::mir::{Case, Expr, ExprKind, Function, Program, Stmt};
use crate::sema::{TCase, TExpr, TExprKind, TFunction, TProgram, TStmt, TStmtKind};
use crate::span::Span;

verus! {

// What follows compares `n` levels of defaulted arguments with `m`.

// --- what is reported -----------------------------------------------------------------------

proof fn same_exprs_told(p: TProgram, n: nat, m: nat, ds: Seq<DiagView>, es: Seq<TExpr>, k: nat)
    requires
        exprs_ok(p, n, es),
        exprs_ok(p, m, es),
        k <= es.len(),
    ensures
        exprs_told(p, n, ds, es, k) == exprs_told(p, m, ds, es, k),
    decreases 2 * n, es, k,
{
    if k > 0 {
        same_exprs_told(p, n, m, ds, es, (k - 1) as nat);
        assert(decreases_to!(es => es[k - 1]));
        same_expr_told(p, n, m, exprs_told(p, n, ds, es, (k - 1) as nat), es[k - 1]);
    }
}

proof fn same_fills_told(
    p: TProgram,
    n: nat,
    m: nat,
    ds: Seq<DiagView>,
    f: TFunction,
    from: nat,
    to: nat,
)
    requires
        fills_ok(p, n, f, from, to),
        fills_ok(p, m, f, from, to),
    ensures
        fills_told(p, n, ds, f, from, to) == fills_told(p, m, ds, f, from, to),
    decreases 2 * n + 1, f, to,
{
    if from < to <= f.locals@.len() {
        same_fills_told(p, n, m, ds, f, from, (to - 1) as nat);
        if let Some(d) = f.locals@[to - 1].default {
            same_expr_told(p, n, m, fills_told(p, n, ds, f, from, (to - 1) as nat), d);
        }
    }
}

proof fn same_expr_told(p: TProgram, n: nat, m: nat, ds: Seq<DiagView>, e: TExpr)
    requires
        expr_ok(p, n, e),
        expr_ok(p, m, e),
    ensures
        expr_told(p, n, ds, e) == expr_told(p, m, ds, e),
    decreases 2 * n, e, 0nat,
{
    let ds1 = ty_gates(ds, e.ty, e.span);
    if refused(e) is None {
        match e.kind {
            TExprKind::LocalSet(_, v) => {
                same_expr_told(p, n, m, ds1, *v);
            },
            TExprKind::CallFn(f, args) => {
                let callee = p.functions@[f.0 as int];
                let from = args@.len();
                let to = callee.param_count as nat;
                same_exprs_told(p, n, m, ds1, args@, from);
                if from < to {
                    let ds2 = exprs_told(p, n, ds1, args@, from);
                    same_fills_told(p, (n - 1) as nat, (m - 1) as nat, ds2, callee, from, to);
                }
            },
            TExprKind::CallBuiltin(_, args) => {
                same_exprs_told(p, n, m, ds1, args@, args@.len());
            },
            TExprKind::CallMethod(recv, name, args) => {
                same_exprs_told(p, n, m, ds1, args@, args@.len());
                if !(method_of(recv.ty, name@) is Unsupported) {
                    same_expr_told(p, n, m, exprs_told(p, n, ds1, args@, args@.len()), *recv);
                }
            },
            TExprKind::Member(recv, _) => {
                same_expr_told(p, n, m, ds1, *recv);
            },
            TExprKind::Unary(UnaryOp::PreInc, _) | TExprKind::Unary(UnaryOp::PreDec, _) => {},
            TExprKind::Unary(_, v) => {
                same_expr_told(p, n, m, ds1, *v);
            },
            TExprKind::Binary(_, l, r) => {
                same_expr_told(p, n, m, ds1, *l);
                same_expr_told(p, n, m, expr_told(p, n, ds1, *l), *r);
            },
            TExprKind::Logical(_, l, r) => {
                same_expr_told(p, n, m, ds1, *l);
                same_expr_told(p, n, m, expr_told(p, n, ds1, *l), *r);
            },
            TExprKind::Comma(l, r) => {
                same_expr_told(p, n, m, ds1, *l);
                same_expr_told(p, n, m, expr_told(p, n, ds1, *l), *r);
            },
            TExprKind::Conditional(c, a, b) => {
                same_expr_told(p, n, m, ds1, *c);
                let ds2 = expr_told(p, n, ds1, *c);
                same_expr_told(p, n, m, ds2, *a);
                same_expr_told(p, n, m, expr_told(p, n, ds2, *a), *b);
            },
            TExprKind::Is(v, t) => {
                same_expr_told(p, n, m, ty_gates(ds1, t, e.span), *v);
            },
            TExprKind::As(v, t) => {
                same_expr_told(p, n, m, ty_gates(ds1, t, e.span), *v);
            },
            TExprKind::Coerce(_, v) => {
                same_expr_told(p, n, m, ds1, *v);
            },
            _ => {},
        }
    }
}

proof fn same_opt_told(p: TProgram, n: nat, m: nat, ds: Seq<DiagView>, e: Option<TExpr>)
    requires
        opt_expr_ok(p, n, e),
        opt_expr_ok(p, m, e),
    ensures
        opt_expr_told(p, n, ds, e) == opt_expr_told(p, m, ds, e),
{
    if let Some(x) = e {
        same_expr_told(p, n, m, ds, x);
    }
}

proof fn same_stmts_told(p: TProgram, n: nat, m: nat, ds: Seq<DiagView>, l: Seq<TStmt>, k: nat)
    requires
        stmts_ok(p, n, l),
        stmts_ok(p, m, l),
        k <= l.len(),
    ensures
        stmts_told(p, n, ds, l, k) == stmts_told(p, m, ds, l, k),
    decreases l, k,
{
    if k > 0 {
        same_stmts_told(p, n, m, ds, l, (k - 1) as nat);
        assert(decreases_to!(l => l[k - 1]));
        same_stmt_told(p, n, m, stmts_told(p, n, ds, l, (k - 1) as nat), l[k - 1]);
    }
}

proof fn same_cases_told(p: TProgram, n: nat, m: nat, ds: Seq<DiagView>, l: Seq<TCase>, k: nat)
    requires
        cases_ok(p, n, l),
        cases_ok(p, m, l),
        k <= l.len(),
    ensures
        cases_told(p, n, ds, l, k) == cases_told(p, m, ds, l, k),
    decreases l, k,
{
    if k > 0 {
        same_cases_told(p, n, m, ds, l, (k - 1) as nat);
        let c = l[k - 1];
        let ds1 = cases_told(p, n, ds, l, (k - 1) as nat);
        same_opt_told(p, n, m, ds1, c.test);
        assert(decreases_to!(l => l[k - 1]));
        same_stmts_told(p, n, m, opt_expr_told(p, n, ds1, c.test), c.body@, c.body@.len());
    }
}

proof fn same_stmt_told(p: TProgram, n: nat, m: nat, ds: Seq<DiagView>, s: TStmt)
    requires
        stmt_ok(p, n, s),
        stmt_ok(p, m, s),
    ensures
        stmt_told(p, n, ds, s) == stmt_told(p, m, ds, s),
    decreases s, 0nat,
{
    match s.kind {
        TStmtKind::Expr(e) => {
            same_expr_told(p, n, m, ds, e);
        },
        TStmtKind::Assign(_, e) => {
            same_expr_told(p, n, m, ds, e);
        },
        TStmtKind::Block(b) => {
            same_stmts_told(p, n, m, ds, b@, b@.len());
        },
        TStmtKind::If { cond, then_branch, else_branch } => {
            same_expr_told(p, n, m, ds, cond);
            let ds1 = expr_told(p, n, ds, cond);
            same_stmt_told(p, n, m, ds1, *then_branch);
            if let Some(e) = else_branch {
                assert(opt_stmt_ok(p, n, else_branch) && opt_stmt_ok(p, m, else_branch));
                same_stmt_told(p, n, m, stmt_told(p, n, ds1, *then_branch), *e);
            }
        },
        TStmtKind::While { cond, body } => {
            same_expr_told(p, n, m, ds, cond);
            same_stmt_told(p, n, m, expr_told(p, n, ds, cond), *body);
        },
        TStmtKind::DoWhile { body, cond } => {
            same_stmt_told(p, n, m, ds, *body);
            same_expr_told(p, n, m, stmt_told(p, n, ds, *body), cond);
        },
        TStmtKind::For { init, cond, update, body } => {
            if let Some(i) = init {
                assert(opt_stmt_ok(p, n, init) && opt_stmt_ok(p, m, init));
                same_stmt_told(p, n, m, ds, *i);
            }
            let ds1 = match init {
                Some(i) => stmt_told(p, n, ds, *i),
                None => ds,
            };
            same_opt_told(p, n, m, ds1, cond);
            let ds2 = opt_expr_told(p, n, ds1, cond);
            same_opt_told(p, n, m, ds2, update);
            same_stmt_told(p, n, m, opt_expr_told(p, n, ds2, update), *body);
        },
        TStmtKind::Switch { scrutinee, cases } => {
            same_expr_told(p, n, m, ds, scrutinee);
            same_cases_told(p, n, m, expr_told(p, n, ds, scrutinee), cases@, cases@.len());
        },
        TStmtKind::Return { value } => {
            same_opt_told(p, n, m, ds, value);
        },
        TStmtKind::Labeled { body, .. } => {
            same_stmt_told(p, n, m, ds, *body);
        },
        _ => {},
    }
}

// --- what comes out -------------------------------------------------------------------------

proof fn same_exprs_to(p: TProgram, n: nat, m: nat, es: Seq<TExpr>, outs: Seq<Expr>)
    requires
        exprs_ok(p, n, es),
        exprs_ok(p, m, es),
    ensures
        exprs_to(p, n, es, outs) == exprs_to(p, m, es, outs),
    decreases 2 * n, es, 0nat,
{
    if es.len() == outs.len() {
        assert forall|i: int| 0 <= i < es.len() implies expr_to(p, n, es[i], #[trigger] outs[i])
            == expr_to(p, m, es[i], outs[i]) by {
            assert(decreases_to!(es => es[i]));
            same_expr_to(p, n, m, es[i], outs[i]);
        }
        if exprs_to(p, n, es, outs) {
            assert forall|i: int|
                #![trigger es[i]]
                #![trigger outs[i]]
                0 <= i < es.len() implies expr_to(p, m, es[i], outs[i]) by {
                assert(expr_to(p, n, es[i], outs[i]));
            }
        }
        if exprs_to(p, m, es, outs) {
            assert forall|i: int|
                #![trigger es[i]]
                #![trigger outs[i]]
                0 <= i < es.len() implies expr_to(p, n, es[i], outs[i]) by {
                assert(expr_to(p, m, es[i], outs[i]));
            }
        }
    }
}

proof fn same_filled_to(
    p: TProgram,
    n: nat,
    m: nat,
    args: Seq<TExpr>,
    fills: Seq<Fill>,
    span: Span,
    outs: Seq<Expr>,
)
    requires
        exprs_ok(p, n, args),
        exprs_ok(p, m, args),
    ensures
        filled_to(p, n, args, fills, span, outs) == filled_to(p, m, args, fills, span, outs),
    decreases 2 * n, args, 1nat,
{
    same_exprs_to(p, n, m, args, outs.take(args.len() as int));
}

proof fn same_numbers_to(
    p: TProgram,
    n: nat,
    m: nat,
    args: Seq<TExpr>,
    fills: Seq<Fill>,
    span: Span,
    outs: Seq<Expr>,
)
    requires
        exprs_ok(p, n, args),
        exprs_ok(p, m, args),
    ensures
        numbers_to(p, n, args, fills, span, outs) == numbers_to(p, m, args, fills, span, outs),
    decreases 2 * n, args, 1nat,
{
    if args.len() <= outs.len() {
        assert forall|i: int| 0 <= i < args.len() implies number_to(
            p,
            n,
            args[i],
            span,
            #[trigger] outs[i],
        ) == number_to(p, m, args[i], span, outs[i]) by {
            assert(decreases_to!(args => args[i]));
            same_converted_to(p, n, m, args[i], span, outs[i]);
        }
        if numbers_to(p, n, args, fills, span, outs) {
            assert forall|i: int|
                #![trigger args[i]]
                #![trigger outs[i]]
                0 <= i < args.len() implies number_to(p, m, args[i], span, outs[i]) by {
                assert(number_to(p, n, args[i], span, outs[i]));
            }
        }
        if numbers_to(p, m, args, fills, span, outs) {
            assert forall|i: int|
                #![trigger args[i]]
                #![trigger outs[i]]
                0 <= i < args.len() implies number_to(p, n, args[i], span, outs[i]) by {
                assert(number_to(p, m, args[i], span, outs[i]));
            }
        }
    }
}

proof fn same_converted_to(p: TProgram, n: nat, m: nat, e: TExpr, span: Span, out: Expr)
    requires
        expr_ok(p, n, e),
        expr_ok(p, m, e),
    ensures
        number_to(p, n, e, span, out) == number_to(p, m, e, span, out),
        string_to(p, n, e, span, out) == string_to(p, m, e, span, out),
    decreases 2 * n, e, 3 + arity(e),
{
    same_expr_to(p, n, m, e, out);
    if let ExprKind::Conv(_, x) = out.kind {
        same_expr_to(p, n, m, e, *x);
    }
}

proof fn same_concat_to(p: TProgram, n: nat, m: nat, e: TExpr, k: nat, out: Expr)
    requires
        e.kind matches TExprKind::CallMethod(recv, _, args) && expr_ok(p, n, *recv) && expr_ok(
            p,
            m,
            *recv,
        ) && exprs_ok(p, n, args@) && exprs_ok(p, m, args@),
    ensures
        concat_to(p, n, e, k, out) == concat_to(p, m, e, k, out),
    decreases 2 * n, e, 1 + k,
{
    if let TExprKind::CallMethod(recv, _, args) = e.kind {
        if 0 < k <= args@.len() {
            if let ExprKind::Binary(_, a, b) = out.kind {
                same_concat_to(p, n, m, e, (k - 1) as nat, *a);
                assert(decreases_to!(args@ => args@[k - 1]));
                same_converted_to(p, n, m, args@[k - 1], e.span, *b);
            }
        } else {
            same_expr_to(p, n, m, *recv, out);
        }
    }
}

proof fn same_fills_to(
    p: TProgram,
    n: nat,
    m: nat,
    f: TFunction,
    from: nat,
    to: nat,
    outs: Seq<Expr>,
)
    requires
        fills_ok(p, n, f, from, to),
        fills_ok(p, m, f, from, to),
    ensures
        fills_to(p, n, f, from, to, outs) == fills_to(p, m, f, from, to, outs),
    decreases 2 * n + 1, f, to,
{
    if from < to <= f.locals@.len() {
        match f.locals@[to - 1].default {
            Some(d) => {
                same_fills_to(p, n, m, f, from, (to - 1) as nat, outs.drop_last());
                same_expr_to(p, n, m, d, outs.last());
            },
            None => {
                same_fills_to(p, n, m, f, from, (to - 1) as nat, outs);
            },
        }
    }
}

proof fn same_kind_to(p: TProgram, n: nat, m: nat, e: TExpr, out: ExprKind)
    requires
        expr_ok(p, n, e),
        expr_ok(p, m, e),
        refused(e) is None,
        !(e.kind is CallMethod),
    ensures
        kind_to(p, n, e, out) == kind_to(p, m, e, out),
    decreases 2 * n, e, 0nat,
{
    match (e.kind, out) {
        (TExprKind::LocalSet(_, v), ExprKind::LocalSet(_, x)) => {
            same_expr_to(p, n, m, *v, *x);
        },
        (TExprKind::CallFn(f, args), ExprKind::CallFn(_, outs)) => {
            let callee = p.functions@[f.0 as int];
            let from = args@.len();
            let to = callee.param_count as nat;
            same_exprs_to(p, n, m, args@, outs@.take(from as int));
            if from < to {
                same_fills_to(
                    p,
                    (n - 1) as nat,
                    (m - 1) as nat,
                    callee,
                    from,
                    to,
                    outs@.skip(from as int),
                );
            }
        },
        (TExprKind::CallBuiltin(b, args), ExprKind::CallBuiltin(_, outs)) => {
            same_filled_to(
                p,
                n,
                m,
                args@,
                crate::lower::rules::builtin_of(b).1,
                e.span,
                outs@,
            );
        },
        (TExprKind::Member(recv, _), ExprKind::StrLen(x)) => {
            same_expr_to(p, n, m, *recv, *x);
        },
        (TExprKind::Unary(op, v), ExprKind::Comma(x, _)) => {
            if op == UnaryOp::Void {
                same_expr_to(p, n, m, *v, *x);
            }
        },
        (TExprKind::Unary(op, v), ExprKind::Unary(_, x)) => {
            if op != UnaryOp::PreInc && op != UnaryOp::PreDec {
                same_expr_to(p, n, m, *v, *x);
            }
        },
        (TExprKind::Binary(_, l, r), ExprKind::Binary(_, a, b)) => {
            same_expr_to(p, n, m, *l, *a);
            same_expr_to(p, n, m, *r, *b);
        },
        (TExprKind::Logical(_, l, r), ExprKind::Logical { is_and: _, lhs, rhs }) => {
            same_expr_to(p, n, m, *l, *lhs);
            same_expr_to(p, n, m, *r, *rhs);
        },
        (TExprKind::Conditional(c, a, b), ExprKind::Conditional(x, y, z)) => {
            same_expr_to(p, n, m, *c, *x);
            same_expr_to(p, n, m, *a, *y);
            same_expr_to(p, n, m, *b, *z);
        },
        (TExprKind::Comma(l, r), ExprKind::Comma(a, b)) => {
            same_expr_to(p, n, m, *l, *a);
            same_expr_to(p, n, m, *r, *b);
        },
        (TExprKind::Is(v, _), ExprKind::Is(x, _)) => {
            same_expr_to(p, n, m, *v, *x);
        },
        (TExprKind::As(v, _), ExprKind::As(x, _)) => {
            same_expr_to(p, n, m, *v, *x);
        },
        (TExprKind::Coerce(_, v), ExprKind::Conv(_, x)) => {
            same_expr_to(p, n, m, *v, *x);
        },
        _ => {},
    }
}

proof fn same_expr_to(p: TProgram, n: nat, m: nat, e: TExpr, out: Expr)
    requires
        expr_ok(p, n, e),
        expr_ok(p, m, e),
    ensures
        expr_to(p, n, e, out) == expr_to(p, m, e, out),
    decreases 2 * n, e, 2 + arity(e),
{
    if refused(e) is None {
        match e.kind {
            TExprKind::Unary(UnaryOp::Plus, v) => {
                same_expr_to(p, n, m, *v, out);
            },
            TExprKind::CallMethod(recv, name, args) => {
                match method_of(recv.ty, name@) {
                    Method::Unsupported(_) => {},
                    Method::ValueOf => {
                        same_expr_to(p, n, m, *recv, out);
                    },
                    Method::Concat => {
                        same_concat_to(p, n, m, e, args@.len(), out);
                    },
                    Method::BoolText => {
                        if let ExprKind::Conv(_, x) = out.kind {
                            same_expr_to(p, n, m, *recv, *x);
                        }
                    },
                    Method::Str(_) => {
                        if let ExprKind::CallStrMethod(_, r, outs) = out.kind {
                            same_expr_to(p, n, m, *recv, *r);
                            same_filled_to(p, n, m, args@, str_fills(name@), e.span, outs@);
                        }
                    },
                    Method::Num(_) => {
                        if let ExprKind::CallNumMethod(_, r, outs) = out.kind {
                            same_converted_to(p, n, m, *recv, e.span, *r);
                            same_numbers_to(p, n, m, args@, num_fills(name@), e.span, outs@);
                        }
                    },
                }
            },
            _ => {
                same_kind_to(p, n, m, e, out.kind);
            },
        }
    }
}

proof fn same_opt_to(p: TProgram, n: nat, m: nat, e: Option<TExpr>, out: Option<Expr>)
    requires
        opt_expr_ok(p, n, e),
        opt_expr_ok(p, m, e),
    ensures
        opt_expr_to(p, n, e, out) == opt_expr_to(p, m, e, out),
{
    if let (Some(x), Some(y)) = (e, out) {
        same_expr_to(p, n, m, x, y);
    }
}

proof fn same_opt_stmt_to(
    p: TProgram,
    n: nat,
    m: nat,
    s: Option<Box<TStmt>>,
    out: Option<Box<Stmt>>,
)
    requires
        opt_stmt_ok(p, n, s),
        opt_stmt_ok(p, m, s),
    ensures
        opt_stmt_to(p, n, s, out) == opt_stmt_to(p, m, s, out),
    decreases s, 1nat,
{
    if let (Some(x), Some(y)) = (s, out) {
        same_stmt_to(p, n, m, *x, *y);
    }
}

proof fn same_stmts_to(p: TProgram, n: nat, m: nat, l: Seq<TStmt>, outs: Seq<Stmt>)
    requires
        stmts_ok(p, n, l),
        stmts_ok(p, m, l),
    ensures
        stmts_to(p, n, l, outs) == stmts_to(p, m, l, outs),
    decreases l, 1nat,
{
    if l.len() == outs.len() {
        assert forall|i: int| 0 <= i < l.len() implies stmt_to(p, n, l[i], #[trigger] outs[i])
            == stmt_to(p, m, l[i], outs[i]) by {
            assert(decreases_to!(l => l[i]));
            same_stmt_to(p, n, m, l[i], outs[i]);
        }
        if stmts_to(p, n, l, outs) {
            assert forall|i: int|
                #![trigger l[i]]
                #![trigger outs[i]]
                0 <= i < l.len() implies stmt_to(p, m, l[i], outs[i]) by {
                assert(stmt_to(p, n, l[i], outs[i]));
            }
        }
        if stmts_to(p, m, l, outs) {
            assert forall|i: int|
                #![trigger l[i]]
                #![trigger outs[i]]
                0 <= i < l.len() implies stmt_to(p, n, l[i], outs[i]) by {
                assert(stmt_to(p, m, l[i], outs[i]));
            }
        }
    }
}

proof fn same_cases_to(p: TProgram, n: nat, m: nat, l: Seq<TCase>, outs: Seq<Case>)
    requires
        cases_ok(p, n, l),
        cases_ok(p, m, l),
    ensures
        cases_to(p, n, l, outs) == cases_to(p, m, l, outs),
    decreases l, 1nat,
{
    if l.len() == outs.len() {
        assert forall|i: int| 0 <= i < l.len() implies (opt_expr_to(
            p,
            n,
            l[i].test,
            (#[trigger] outs[i]).test,
        ) == opt_expr_to(p, m, l[i].test, outs[i].test) && stmts_to(
            p,
            n,
            l[i].body@,
            outs[i].body@,
        ) == stmts_to(p, m, l[i].body@, outs[i].body@)) by {
            assert(decreases_to!(l => l[i]));
            same_opt_to(p, n, m, l[i].test, outs[i].test);
            same_stmts_to(p, n, m, l[i].body@, outs[i].body@);
        }
        if cases_to(p, n, l, outs) {
            assert forall|i: int|
                #![trigger l[i]]
                #![trigger outs[i]]
                0 <= i < l.len() implies opt_expr_to(p, m, l[i].test, outs[i].test) && stmts_to(
                p,
                m,
                l[i].body@,
                outs[i].body@,
            ) by {
                assert(stmts_to(p, n, l[i].body@, outs[i].body@));
            }
        }
        if cases_to(p, m, l, outs) {
            assert forall|i: int|
                #![trigger l[i]]
                #![trigger outs[i]]
                0 <= i < l.len() implies opt_expr_to(p, n, l[i].test, outs[i].test) && stmts_to(
                p,
                n,
                l[i].body@,
                outs[i].body@,
            ) by {
                assert(stmts_to(p, m, l[i].body@, outs[i].body@));
            }
        }
    }
}

proof fn same_labeled_to(
    p: TProgram,
    n: nat,
    m: nat,
    label: String,
    body: TStmt,
    s: TStmt,
    out: Stmt,
)
    requires
        s.kind == (TStmtKind::Labeled { label, body: Box::new(body) }),
        forall|mid: Stmt|
            stmt_to(p, n, body, mid) == stmt_to(p, m, body, mid),
    ensures
        stmt_to(p, n, s, out) == stmt_to(p, m, s, out),
{
    if stmt_to(p, n, s, out) {
        let mid = choose|mid: Stmt| stmt_to(p, n, body, mid) && #[trigger] relabeled(mid, label, out);
        assert(stmt_to(p, m, body, mid) && relabeled(mid, label, out));
    }
    if stmt_to(p, m, s, out) {
        let mid = choose|mid: Stmt| stmt_to(p, m, body, mid) && #[trigger] relabeled(mid, label, out);
        assert(stmt_to(p, n, body, mid) && relabeled(mid, label, out));
    }
}

proof fn same_stmt_to(p: TProgram, n: nat, m: nat, s: TStmt, out: Stmt)
    requires
        stmt_ok(p, n, s),
        stmt_ok(p, m, s),
    ensures
        stmt_to(p, n, s, out) == stmt_to(p, m, s, out),
    decreases s, 0nat,
{
    match (s.kind, out) {
        (TStmtKind::Expr(e), Stmt::Expr(x)) => {
            same_expr_to(p, n, m, e, x);
        },
        (TStmtKind::Assign(_, e), Stmt::Assign(_, x)) => {
            same_expr_to(p, n, m, e, x);
        },
        (TStmtKind::Block(b), Stmt::Block(x)) => {
            same_stmts_to(p, n, m, b@, x@);
        },
        (
            TStmtKind::If { cond, then_branch, else_branch },
            Stmt::If { cond: c, then_branch: a, else_branch: b },
        ) => {
            same_expr_to(p, n, m, cond, c);
            same_stmt_to(p, n, m, *then_branch, *a);
            same_opt_stmt_to(p, n, m, else_branch, b);
        },
        (TStmtKind::While { cond, body }, Stmt::While { label: _, cond: c, body: b }) => {
            same_expr_to(p, n, m, cond, c);
            same_stmt_to(p, n, m, *body, *b);
        },
        (TStmtKind::DoWhile { body, cond }, Stmt::DoWhile { label: _, body: b, cond: c }) => {
            same_stmt_to(p, n, m, *body, *b);
            same_expr_to(p, n, m, cond, c);
        },
        (
            TStmtKind::For { init, cond, update, body },
            Stmt::For { label: _, init: i, cond: c, update: u, body: b },
        ) => {
            same_opt_stmt_to(p, n, m, init, i);
            same_opt_to(p, n, m, cond, c);
            same_opt_to(p, n, m, update, u);
            same_stmt_to(p, n, m, *body, *b);
        },
        (TStmtKind::Switch { scrutinee, cases }, Stmt::Switch { scrutinee: x, cases: c }) => {
            same_expr_to(p, n, m, scrutinee, x);
            same_cases_to(p, n, m, cases@, c@);
        },
        (TStmtKind::Return { value }, Stmt::Return { value: v }) => {
            same_opt_to(p, n, m, value, v);
        },
        (TStmtKind::Labeled { label, body }, _) => {
            assert forall|mid: Stmt| stmt_to(p, n, *body, mid) == stmt_to(p, m, *body, mid) by {
                same_stmt_to(p, n, m, *body, mid);
            }
            same_labeled_to(p, n, m, label, *body, s, out);
        },
        _ => {},
    }
}

// --- programs -------------------------------------------------------------------------------

proof fn same_defaults_told(p: TProgram, n: nat, m: nat, ds: Seq<DiagView>, f: TFunction, k: nat)
    requires
        function_ok(p, n, f),
        function_ok(p, m, f),
        k <= param_total(f),
    ensures
        defaults_told(p, n, ds, f.locals@, f.span, k) == defaults_told(
            p,
            m,
            ds,
            f.locals@,
            f.span,
            k,
        ),
    decreases k,
{
    if k > 0 {
        same_defaults_told(p, n, m, ds, f, (k - 1) as nat);
        let l = f.locals@[k - 1];
        if !l.is_rest {
            let ds1 = defaults_told(p, n, ds, f.locals@, f.span, (k - 1) as nat);
            same_opt_told(p, n, m, ds1, l.default);
        }
    }
}

proof fn same_function_told(p: TProgram, n: nat, m: nat, ds: Seq<DiagView>, f: TFunction)
    requires
        function_ok(p, n, f),
        function_ok(p, m, f),
    ensures
        function_told(p, n, ds, f) == function_told(p, m, ds, f),
{
    let ds1 = locals_told(ds, f.locals@, f.span, f.locals@.len());
    same_defaults_told(p, n, m, ds1, f, param_total(f));
    let ds2 = defaults_told(p, n, ds1, f.locals@, f.span, param_total(f));
    let ds3 = ty_gates(ds2, f.return_ty, f.span);
    same_stmts_told(p, n, m, ds3, f.body@, f.body@.len());
}

proof fn same_function_to(p: TProgram, n: nat, m: nat, f: TFunction, out: Function)
    requires
        function_ok(p, n, f),
        function_ok(p, m, f),
        function_to(p, n, f, out),
    ensures
        function_to(p, m, f, out),
{
    same_stmts_to(p, n, m, f.body@, out.body@);
    assert forall|i: int| 0 <= i < param_total(f) && !f.locals@[i].is_rest implies opt_expr_to(
        p,
        m,
        f.locals@[i].default,
        #[trigger] out.param_defaults@[i],
    ) by {
        same_opt_to(p, n, m, f.locals@[i].default, out.param_defaults@[i]);
    }
}

proof fn same_functions_told(p: TProgram, n: nat, m: nat, k: nat)
    requires
        program_ok(p, n),
        program_ok(p, m),
        k <= p.functions@.len(),
    ensures
        functions_told(p, n, k) == functions_told(p, m, k),
    decreases k,
{
    if k > 0 {
        same_functions_told(p, n, m, (k - 1) as nat);
        same_function_told(p, n, m, functions_told(p, n, (k - 1) as nat), p.functions@[k - 1]);
    }
}

/// What a program is lowered to, and what is reported of it, does not depend on
/// how many levels of defaulted arguments are allowed for, once these suffice.
pub proof fn law_levels_do_not_matter(p: TProgram, n: nat, m: nat, out: Program)
    requires
        program_ok(p, n),
        program_ok(p, m),
    ensures
        program_told(p, n) == program_told(p, m),
        program_to(p, n, out) ==> program_to(p, m, out),
{
    same_functions_told(p, n, m, p.functions@.len());
    if program_to(p, n, out) {
        assert forall|i: int| 0 <= i < p.functions@.len() implies function_to(
            p,
            m,
            p.functions@[i],
            #[trigger] out.functions@[i],
        ) by {
            same_function_to(p, n, m, p.functions@[i], out.functions@[i]);
        }
    }
}

} // verus!
