//! Whether a typed tree can be lowered.

use vstd::prelude::*;

use crate::ast::nodes::UnaryOp;
use crate::lower::exec::{classify, map_bin_op, refuse};
use crate::lower::rules::{
    cases_ok, expr_ok, exprs_ok, fills_ok, function_ok, opt_expr_ok, opt_stmt_ok, param_total,
    program_ok, stmt_ok, stmts_ok, Method,
};
use crate::sema::{TCase, TExpr, TExprKind, TFunction, TProgram, TStmt, TStmtKind, Ty};

verus! {

fn exprs(p: &TProgram, n: usize, es: &Vec<TExpr>) -> (r: bool)
    ensures
        r == exprs_ok(*p, n as nat, es@),
    decreases 2 * n, es@, 1nat,
{
    let mut k: usize = 0;
    while k < es.len()
        invariant
            k <= es@.len(),
            forall|i: int| 0 <= i < k ==> expr_ok(*p, n as nat, #[trigger] es@[i]),
        decreases es@.len() - k,
    {
        assert(decreases_to!(es@ => es@[k as int]));
        if !expr(p, n, &es[k]) {
            return false;
        }
        k = k + 1;
    }
    true
}

fn fills(p: &TProgram, n: usize, f: &TFunction, from: usize, to: usize) -> (r: bool)
    ensures
        r == fills_ok(*p, n as nat, *f, from as nat, to as nat),
    decreases 2 * n + 1, f, to,
{
    if from < to && to <= f.locals.len() {
        fills(p, n, f, from, to - 1) && match &f.locals[to - 1].default {
            Some(d) => expr(p, n, d),
            None => true,
        }
    } else {
        true
    }
}

fn call(p: &TProgram, n: usize, f: crate::sema::FnId, args: &Vec<TExpr>) -> (r: bool)
    ensures
        r == ({
            &&& f.0 < p.functions@.len()
            &&& exprs_ok(*p, n as nat, args@)
            &&& args@.len() < p.functions@[f.0 as int].param_count ==> n > 0
                && p.functions@[f.0 as int].param_count <= p.functions@[f.0 as int].locals@.len()
                && fills_ok(
                *p,
                (n - 1) as nat,
                p.functions@[f.0 as int],
                args@.len(),
                p.functions@[f.0 as int].param_count as nat,
            )
        }),
    decreases 2 * n, args@, 2nat,
{
    let id: usize = f.0 as usize;
    if id >= p.functions.len() {
        return false;
    }
    let callee = &p.functions[id];
    if !exprs(p, n, args) {
        return false;
    }
    if args.len() < callee.param_count {
        n > 0 && callee.param_count <= callee.locals.len() && fills(p, n - 1, callee, args.len(), callee.param_count)
    } else {
        true
    }
}

fn expr(p: &TProgram, n: usize, e: &TExpr) -> (r: bool)
    ensures
        r == expr_ok(*p, n as nat, *e),
    decreases 2 * n, e, 0nat,
{
    if e.ty == Ty::Error {
        return false;
    }
    if refuse(e).is_some() {
        return true;
    }
    match &e.kind {
        TExprKind::LocalSet(_, v) => expr(p, n, v),
        TExprKind::CallFn(f, args) => call(p, n, *f, args),
        TExprKind::CallBuiltin(_, args) => exprs(p, n, args),
        TExprKind::CallMethod(recv, name, args) => exprs(p, n, args) && (match classify(
            recv.ty,
            name.as_str(),
        ).0 {
            Method::Unsupported(_) => true,
            _ => expr(p, n, recv),
        }),
        TExprKind::Member(recv, _) => expr(p, n, recv),
        TExprKind::Unary(op, v) => match op {
            UnaryOp::PreInc | UnaryOp::PreDec => true,
            _ => expr(p, n, v),
        },
        TExprKind::Binary(op, l, r) => map_bin_op(*op).is_some() && expr(p, n, l) && expr(p, n, r),
        TExprKind::Logical(_, l, r) => expr(p, n, l) && expr(p, n, r),
        TExprKind::Comma(l, r) => expr(p, n, l) && expr(p, n, r),
        TExprKind::Conditional(c, a, b) => expr(p, n, c) && expr(p, n, a) && expr(p, n, b),
        TExprKind::Is(v, t) => *t != Ty::Error && expr(p, n, v),
        TExprKind::As(v, t) => *t != Ty::Error && expr(p, n, v),
        TExprKind::Coerce(_, v) => expr(p, n, v),
        TExprKind::Error => false,
        _ => true,
    }
}

fn opt_expr(p: &TProgram, n: usize, e: &Option<TExpr>) -> (r: bool)
    ensures
        r == opt_expr_ok(*p, n as nat, *e),
{
    match e {
        Some(x) => expr(p, n, x),
        None => true,
    }
}

fn opt_stmt(p: &TProgram, n: usize, s: &Option<Box<TStmt>>) -> (r: bool)
    ensures
        r == opt_stmt_ok(*p, n as nat, *s),
    decreases s, 1nat,
{
    match s {
        Some(x) => stmt(p, n, x),
        None => true,
    }
}

fn stmts(p: &TProgram, n: usize, l: &Vec<TStmt>) -> (r: bool)
    ensures
        r == stmts_ok(*p, n as nat, l@),
    decreases l@, 1nat,
{
    let mut k: usize = 0;
    while k < l.len()
        invariant
            k <= l@.len(),
            forall|i: int| 0 <= i < k ==> stmt_ok(*p, n as nat, #[trigger] l@[i]),
        decreases l@.len() - k,
    {
        assert(decreases_to!(l@ => l@[k as int]));
        if !stmt(p, n, &l[k]) {
            return false;
        }
        k = k + 1;
    }
    true
}

fn cases(p: &TProgram, n: usize, l: &Vec<TCase>) -> (r: bool)
    ensures
        r == cases_ok(*p, n as nat, l@),
    decreases l@, 1nat,
{
    let mut k: usize = 0;
    while k < l.len()
        invariant
            k <= l@.len(),
            forall|i: int|
                #![trigger l@[i]]
                0 <= i < k ==> opt_expr_ok(*p, n as nat, l@[i].test) && stmts_ok(
                    *p,
                    n as nat,
                    l@[i].body@,
                ),
        decreases l@.len() - k,
    {
        assert(decreases_to!(l@ => l@[k as int]));
        let c = &l[k];
        if !opt_expr(p, n, &c.test) || !stmts(p, n, &c.body) {
            return false;
        }
        k = k + 1;
    }
    true
}

fn stmt(p: &TProgram, n: usize, s: &TStmt) -> (r: bool)
    ensures
        r == stmt_ok(*p, n as nat, *s),
    decreases s, 0nat,
{
    match &s.kind {
        TStmtKind::Expr(e) => expr(p, n, e),
        TStmtKind::Assign(_, e) => expr(p, n, e),
        TStmtKind::Block(b) => stmts(p, n, b),
        TStmtKind::If { cond, then_branch, else_branch } => expr(p, n, cond) && stmt(
            p,
            n,
            then_branch,
        ) && opt_stmt(p, n, else_branch),
        TStmtKind::While { cond, body } => expr(p, n, cond) && stmt(p, n, body),
        TStmtKind::DoWhile { body, cond } => expr(p, n, cond) && stmt(p, n, body),
        TStmtKind::For { init, cond, update, body } => opt_stmt(p, n, init) && opt_expr(p, n, cond)
            && opt_expr(p, n, update) && stmt(p, n, body),
        TStmtKind::Switch { scrutinee, cases: l } => expr(p, n, scrutinee) && cases(p, n, l),
        TStmtKind::Return { value } => opt_expr(p, n, value),
        TStmtKind::Labeled { body, .. } => stmt(p, n, body),
        _ => true,
    }
}

fn function(p: &TProgram, n: usize, f: &TFunction) -> (r: bool)
    ensures
        r == function_ok(*p, n as nat, *f),
{
    if f.return_ty == Ty::Error {
        return false;
    }
    let params: usize = if f.param_count <= f.locals.len() {
        f.param_count
    } else {
        f.locals.len()
    };
    let mut k: usize = 0;
    while k < f.locals.len()
        invariant
            k <= f.locals@.len(),
            params == param_total(*f),
            forall|i: int|
                #![trigger f.locals@[i]]
                0 <= i < k ==> f.locals@[i].ty != Ty::Error && (i < params && !f.locals@[i].is_rest
                    ==> opt_expr_ok(*p, n as nat, f.locals@[i].default)),
        decreases f.locals@.len() - k,
    {
        let l = &f.locals[k];
        if l.ty == Ty::Error {
            assert(f.locals@[k as int].ty == Ty::Error);
            return false;
        }
        if k < params && !l.is_rest && !opt_expr(p, n, &l.default) {
            assert(!opt_expr_ok(*p, n as nat, f.locals@[k as int].default));
            return false;
        }
        k = k + 1;
    }
    stmts(p, n, &f.body)
}

/// Whether a program is one that checking lets through, with at most `levels`
/// levels of defaulted arguments.
pub fn lowerable(program: &TProgram, levels: usize) -> (r: bool)
    ensures
        r == program_ok(*program, levels as nat),
{
    let mut k: usize = 0;
    while k < program.functions.len()
        invariant
            k <= program.functions@.len(),
            forall|i: int|
                #![trigger program.functions@[i]]
                0 <= i < k ==> function_ok(*program, levels as nat, program.functions@[i]),
        decreases program.functions@.len() - k,
    {
        if !function(program, levels, &program.functions[k]) {
            assert(!function_ok(*program, levels as nat, program.functions@[k as int]));
            return false;
        }
        k = k + 1;
    }
    true
}

} // verus!
