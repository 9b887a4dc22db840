//! Which code allocates directly, and which contains `try`.
//!
//! A garbage-collection safepoint is placed only where code can create
//! allocation debt itself. Calls of compiled functions do not count, since an
//! allocating callee has a safepoint of its own; runtime natives and string
//! or collection operations do, since the runtime has none.

use vstd::prelude::*;

use crate::mir::{Case, Catch, Conv, Expr, ExprKind, Stmt, Ty};

verus! {

// --- expressions ----------------------------------------------------------------

/// One of the first `n` expressions allocates.
pub open spec fn any_allocs(es: Seq<Expr>, n: nat) -> bool
    decreases es, n,
{
    0 < n <= es.len() && (any_allocs(es, (n - 1) as nat) || allocs(&es[n - 1]))
}

/// Evaluating the expression can allocate directly.
pub open spec fn allocs(e: &Expr) -> bool
    decreases e, 0nat,
{
    match &e.kind {
        // Pure leaves.
        ExprKind::Int(_)
        | ExprKind::UInt(_)
        | ExprKind::Number(_)
        | ExprKind::Bool(_)
        | ExprKind::Null
        | ExprKind::Undefined
        | ExprKind::LocalGet(_)
        | ExprKind::CaptureGet(_)
        | ExprKind::StaticGet(..)
        | ExprKind::This
        | ExprKind::IncDec { .. }
        | ExprKind::StaticIncDec { .. }
        | ExprKind::CaptureIncDec { .. } => false,
        // Calls of compiled functions: only the operands count.
        ExprKind::CallFn(_, args) => any_allocs(args@, args@.len()),
        ExprKind::CallVirtual { recv, args, .. } => allocs(&**recv) || any_allocs(
            args@,
            args@.len(),
        ),
        ExprKind::CallIface { recv, args, .. } => allocs(&**recv) || any_allocs(args@, args@.len()),
        ExprKind::CallDirect { recv, args, .. } => allocs(&**recv) || any_allocs(
            args@,
            args@.len(),
        ),
        ExprKind::CallFnValue { callee, this_arg, args, .. } => {
            ||| allocs(&**callee)
            ||| match this_arg {
                Some(t) => allocs(&**t),
                None => false,
            }
            ||| any_allocs(args@, args@.len())
        },
        // Concatenation and untyped arithmetic build their result.
        ExprKind::Binary(_, a, b) => e.ty == Ty::String || a.ty == Ty::Any || b.ty == Ty::Any
            || allocs(&**a) || allocs(&**b),
        ExprKind::Conv(c, v) => *c == Conv::ToString || *c == Conv::AnyToString || allocs(&**v),
        // Whatever the children do.
        ExprKind::LocalSet(_, v)
        | ExprKind::CaptureSet(_, v)
        | ExprKind::StaticSet(_, _, v)
        | ExprKind::Unary(_, v)
        | ExprKind::Is(v, _)
        | ExprKind::As(v, _)
        | ExprKind::StrLen(v)
        | ExprKind::SeqLen(v)
        | ExprKind::EnumLen(v)
        | ExprKind::FieldGet(v, _, _) => allocs(&**v),
        ExprKind::FieldIncDec { recv, .. } => allocs(&**recv),
        ExprKind::FieldSet(o, _, _, v) | ExprKind::SeqSetLen(o, v) | ExprKind::Comma(o, v)
        | ExprKind::SeqGet(o, v, _) => allocs(&**o) || allocs(&**v),
        ExprKind::Logical { lhs, rhs, .. } => allocs(&**lhs) || allocs(&**rhs),
        ExprKind::Conditional(a, b, c) | ExprKind::SeqSet(a, b, c, _) => allocs(&**a) || allocs(
            &**b,
        ) || allocs(&**c),
        // Everything else constructs or enters the runtime.
        _ => true,
    }
}

fn any_expr_allocs(es: &Vec<Expr>) -> (r: bool)
    ensures
        r == any_allocs(es@, es@.len()),
    decreases es, 0nat,
{
    let mut r = false;
    let mut k: usize = 0;
    while k < es.len()
        invariant
            k <= es@.len(),
            r == any_allocs(es@, k as nat),
        decreases es@.len() - k,
    {
        if expr_allocs(&es[k]) {
            r = true;
        }
        k = k + 1;
    }
    r
}

/// Whether evaluating the expression can allocate directly.
pub fn expr_allocs(e: &Expr) -> (r: bool)
    ensures
        r == allocs(e),
    decreases e, 0nat,
{
    match &e.kind {
        ExprKind::Int(_)
        | ExprKind::UInt(_)
        | ExprKind::Number(_)
        | ExprKind::Bool(_)
        | ExprKind::Null
        | ExprKind::Undefined
        | ExprKind::LocalGet(_)
        | ExprKind::CaptureGet(_)
        | ExprKind::StaticGet(..)
        | ExprKind::This
        | ExprKind::IncDec { .. }
        | ExprKind::StaticIncDec { .. }
        | ExprKind::CaptureIncDec { .. } => false,
        ExprKind::CallFn(_, args) => any_expr_allocs(args),
        ExprKind::CallVirtual { recv, args, .. }
        | ExprKind::CallIface { recv, args, .. }
        | ExprKind::CallDirect { recv, args, .. } => expr_allocs(recv) || any_expr_allocs(args),
        ExprKind::CallFnValue { callee, this_arg, args, .. } => {
            if expr_allocs(callee) {
                return true;
            }
            if let Some(t) = this_arg {
                if expr_allocs(t) {
                    return true;
                }
            }
            any_expr_allocs(args)
        },
        ExprKind::Binary(_, a, b) => e.ty == Ty::String || a.ty == Ty::Any || b.ty == Ty::Any
            || expr_allocs(a) || expr_allocs(b),
        ExprKind::Conv(c, v) => *c == Conv::ToString || *c == Conv::AnyToString || expr_allocs(v),
        ExprKind::LocalSet(_, v)
        | ExprKind::CaptureSet(_, v)
        | ExprKind::StaticSet(_, _, v)
        | ExprKind::Unary(_, v)
        | ExprKind::Is(v, _)
        | ExprKind::As(v, _)
        | ExprKind::StrLen(v)
        | ExprKind::SeqLen(v)
        | ExprKind::EnumLen(v)
        | ExprKind::FieldGet(v, _, _) => expr_allocs(v),
        ExprKind::FieldIncDec { recv, .. } => expr_allocs(recv),
        ExprKind::FieldSet(o, _, _, v)
        | ExprKind::SeqSetLen(o, v)
        | ExprKind::Comma(o, v)
        | ExprKind::SeqGet(o, v, _) => expr_allocs(o) || expr_allocs(v),
        ExprKind::Logical { lhs, rhs, .. } => expr_allocs(lhs) || expr_allocs(rhs),
        ExprKind::Conditional(a, b, c) | ExprKind::SeqSet(a, b, c, _) => expr_allocs(a)
            || expr_allocs(b) || expr_allocs(c),
        ExprKind::Str(_)
        | ExprKind::ArrayLit(_)
        | ExprKind::VectorLit(..)
        | ExprKind::ObjectLit(_)
        | ExprKind::RegExpLit(..)
        | ExprKind::NewRegExp(_)
        | ExprKind::NewDate(_)
        | ExprKind::NewNamespace(_)
        | ExprKind::NamespaceVal(_)
        | ExprKind::New(..)
        | ExprKind::Closure(_)
        | ExprKind::FnValue(_)
        | ExprKind::BuiltinValue(_)
        | ExprKind::BoundMethod(..)
        | ExprKind::CallBuiltin(..)
        | ExprKind::CallStrMethod(..)
        | ExprKind::CallNumMethod(..)
        | ExprKind::CallArr(..)
        | ExprKind::CallVec(..)
        | ExprKind::CallNative(..)
        | ExprKind::CallRegex(..)
        | ExprKind::CallDate(..)
        | ExprKind::CallSocket(..)
        | ExprKind::NsGet(..)
        | ExprKind::NsCall(..)
        | ExprKind::NsUri(_)
        | ExprKind::EnumKey(..)
        | ExprKind::EnumValue(..)
        | ExprKind::PropGet(..)
        | ExprKind::PropSet(..)
        | ExprKind::PropCall(..)
        | ExprKind::AnyIndexGet(..)
        | ExprKind::AnyIndexSet(..)
        | ExprKind::HasProp(..)
        | ExprKind::DeleteProp(..) => true,
    }
}

// --- statements -----------------------------------------------------------------

pub open spec fn opt_allocs(e: Option<Expr>) -> bool {
    match e {
        Some(x) => allocs(&x),
        None => false,
    }
}

fn opt_expr_allocs(e: &Option<Expr>) -> (r: bool)
    ensures
        r == opt_allocs(*e),
{
    match e {
        Some(x) => expr_allocs(x),
        None => false,
    }
}

/// One of the first `n` statements allocates.
pub open spec fn any_stmt_allocs(ss: Seq<Stmt>, n: nat) -> bool
    decreases ss, n,
{
    0 < n <= ss.len() && (any_stmt_allocs(ss, (n - 1) as nat) || stmt_allocs_directly(&ss[n - 1]))
}

/// One of the first `n` cases allocates, in its test or its body.
pub open spec fn any_case_allocs(cs: Seq<Case>, n: nat) -> bool
    decreases cs, n,
{
    0 < n <= cs.len() && (any_case_allocs(cs, (n - 1) as nat) || opt_allocs(cs[n - 1].test)
        || any_stmt_allocs(cs[n - 1].body@, cs[n - 1].body@.len()))
}

/// One of the first `n` catch bodies allocates.
pub open spec fn any_catch_allocs(cs: Seq<Catch>, n: nat) -> bool
    decreases cs, n,
{
    0 < n <= cs.len() && (any_catch_allocs(cs, (n - 1) as nat) || any_stmt_allocs(
        cs[n - 1].body@,
        cs[n - 1].body@.len(),
    ))
}

/// Running the statement can allocate directly, nested statements included.
pub open spec fn stmt_allocs_directly(s: &Stmt) -> bool
    decreases s, 0nat,
{
    match s {
        Stmt::Expr(e) => allocs(e),
        Stmt::Assign(_, e) => allocs(e),
        Stmt::Throw(e) => allocs(e),
        Stmt::Block(b) => any_stmt_allocs(b@, b@.len()),
        Stmt::If { cond, then_branch, else_branch } => {
            ||| allocs(cond)
            ||| stmt_allocs_directly(&**then_branch)
            ||| match else_branch {
                Some(x) => stmt_allocs_directly(&**x),
                None => false,
            }
        },
        Stmt::While { cond, body, .. } => allocs(cond) || stmt_allocs_directly(&**body),
        Stmt::DoWhile { cond, body, .. } => allocs(cond) || stmt_allocs_directly(&**body),
        Stmt::For { init, cond, update, body, .. } => {
            ||| match init {
                Some(x) => stmt_allocs_directly(&**x),
                None => false,
            }
            ||| opt_allocs(*cond)
            ||| opt_allocs(*update)
            ||| stmt_allocs_directly(&**body)
        },
        Stmt::Switch { scrutinee, cases } => allocs(scrutinee) || any_case_allocs(
            cases@,
            cases@.len(),
        ),
        Stmt::Return { value } => opt_allocs(*value),
        Stmt::Try { body, catches, finally } => {
            ||| any_stmt_allocs(body@, body@.len())
            ||| any_catch_allocs(catches@, catches@.len())
            ||| match finally {
                Some(f) => any_stmt_allocs(f@, f@.len()),
                None => false,
            }
        },
        Stmt::Break { .. } | Stmt::Continue { .. } | Stmt::Empty => false,
    }
}

/// Whether any of the statements allocates directly.
pub fn stmts_alloc(ss: &Vec<Stmt>) -> (r: bool)
    ensures
        r == any_stmt_allocs(ss@, ss@.len()),
    decreases ss, 0nat,
{
    let mut r = false;
    let mut k: usize = 0;
    while k < ss.len()
        invariant
            k <= ss@.len(),
            r == any_stmt_allocs(ss@, k as nat),
        decreases ss@.len() - k,
    {
        if stmt_allocs(&ss[k]) {
            r = true;
        }
        k = k + 1;
    }
    r
}

fn cases_alloc(cs: &Vec<Case>) -> (r: bool)
    ensures
        r == any_case_allocs(cs@, cs@.len()),
    decreases cs, 0nat,
{
    let mut r = false;
    let mut k: usize = 0;
    while k < cs.len()
        invariant
            k <= cs@.len(),
            r == any_case_allocs(cs@, k as nat),
        decreases cs@.len() - k,
    {
        let t = opt_expr_allocs(&cs[k].test);
        let b = stmts_alloc(&cs[k].body);
        if t || b {
            r = true;
        }
        k = k + 1;
    }
    r
}

fn catches_alloc(cs: &Vec<Catch>) -> (r: bool)
    ensures
        r == any_catch_allocs(cs@, cs@.len()),
    decreases cs, 0nat,
{
    let mut r = false;
    let mut k: usize = 0;
    while k < cs.len()
        invariant
            k <= cs@.len(),
            r == any_catch_allocs(cs@, k as nat),
        decreases cs@.len() - k,
    {
        if stmts_alloc(&cs[k].body) {
            r = true;
        }
        k = k + 1;
    }
    r
}

/// Whether running the statement can allocate directly.
pub fn stmt_allocs(s: &Stmt) -> (r: bool)
    ensures
        r == stmt_allocs_directly(s),
    decreases s, 0nat,
{
    match s {
        Stmt::Expr(e) | Stmt::Assign(_, e) | Stmt::Throw(e) => expr_allocs(e),
        Stmt::Block(b) => stmts_alloc(b),
        Stmt::If { cond, then_branch, else_branch } => {
            if expr_allocs(cond) || stmt_allocs(then_branch) {
                return true;
            }
            match else_branch {
                Some(x) => stmt_allocs(x),
                None => false,
            }
        },
        Stmt::While { cond, body, .. } | Stmt::DoWhile { cond, body, .. } => expr_allocs(cond)
            || stmt_allocs(body),
        Stmt::For { init, cond, update, body, .. } => {
            if let Some(x) = init {
                if stmt_allocs(x) {
                    return true;
                }
            }
            opt_expr_allocs(cond) || opt_expr_allocs(update) || stmt_allocs(body)
        },
        Stmt::Switch { scrutinee, cases } => expr_allocs(scrutinee) || cases_alloc(cases),
        Stmt::Return { value } => opt_expr_allocs(value),
        Stmt::Try { body, catches, finally } => {
            if stmts_alloc(body) || catches_alloc(catches) {
                return true;
            }
            match finally {
                Some(f) => stmts_alloc(f),
                None => false,
            }
        },
        Stmt::Break { .. } | Stmt::Continue { .. } | Stmt::Empty => false,
    }
}

// --- try ------------------------------------------------------------------------

/// One of the first `n` statements contains a `try`.
pub open spec fn any_try(ss: Seq<Stmt>, n: nat) -> bool
    decreases ss, n,
{
    0 < n <= ss.len() && (any_try(ss, (n - 1) as nat) || has_try(&ss[n - 1]))
}

/// One of the first `n` case bodies contains a `try`.
pub open spec fn any_case_try(cs: Seq<Case>, n: nat) -> bool
    decreases cs, n,
{
    0 < n <= cs.len() && (any_case_try(cs, (n - 1) as nat) || any_try(
        cs[n - 1].body@,
        cs[n - 1].body@.len(),
    ))
}

/// The statement is or contains a `try`.
pub open spec fn has_try(s: &Stmt) -> bool
    decreases s, 0nat,
{
    match s {
        Stmt::Try { .. } => true,
        Stmt::Block(b) => any_try(b@, b@.len()),
        Stmt::If { then_branch, else_branch, .. } => {
            ||| has_try(&**then_branch)
            ||| match else_branch {
                Some(x) => has_try(&**x),
                None => false,
            }
        },
        Stmt::While { body, .. } => has_try(&**body),
        Stmt::DoWhile { body, .. } => has_try(&**body),
        Stmt::For { init, body, .. } => {
            ||| match init {
                Some(x) => has_try(&**x),
                None => false,
            }
            ||| has_try(&**body)
        },
        Stmt::Switch { cases, .. } => any_case_try(cases@, cases@.len()),
        _ => false,
    }
}

fn cases_try(cs: &Vec<Case>) -> (r: bool)
    ensures
        r == any_case_try(cs@, cs@.len()),
    decreases cs, 0nat,
{
    let mut r = false;
    let mut k: usize = 0;
    while k < cs.len()
        invariant
            k <= cs@.len(),
            r == any_case_try(cs@, k as nat),
        decreases cs@.len() - k,
    {
        if contains_try(&cs[k].body) {
            r = true;
        }
        k = k + 1;
    }
    r
}

fn stmt_try(s: &Stmt) -> (r: bool)
    ensures
        r == has_try(s),
    decreases s, 0nat,
{
    match s {
        Stmt::Try { .. } => true,
        Stmt::Block(b) => contains_try(b),
        Stmt::If { then_branch, else_branch, .. } => {
            if stmt_try(then_branch) {
                return true;
            }
            match else_branch {
                Some(x) => stmt_try(x),
                None => false,
            }
        },
        Stmt::While { body, .. } | Stmt::DoWhile { body, .. } => stmt_try(body),
        Stmt::For { init, body, .. } => {
            if let Some(x) = init {
                if stmt_try(x) {
                    return true;
                }
            }
            stmt_try(body)
        },
        Stmt::Switch { cases, .. } => cases_try(cases),
        _ => false,
    }
}

/// Whether any of the statements contains a `try`.
pub fn contains_try(ss: &Vec<Stmt>) -> (r: bool)
    ensures
        r == any_try(ss@, ss@.len()),
    decreases ss, 0nat,
{
    let mut r = false;
    let mut k: usize = 0;
    while k < ss.len()
        invariant
            k <= ss@.len(),
            r == any_try(ss@, k as nat),
        decreases ss@.len() - k,
    {
        if stmt_try(&ss[k]) {
            r = true;
        }
        k = k + 1;
    }
    r
}

} // verus!
