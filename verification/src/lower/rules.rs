//! What lowering makes of a typed tree, and what it reports.

use vstd::prelude::*;

use crate::ast::nodes::{BinaryOp, PostfixOp, UnaryOp};
use crate::diagnostics::{error_at, DiagView, ErrorCode, NOT_IMPLEMENTED};
use crate::mir::{
    BinOp, Builtin, Case, Conv, Expr, ExprKind, FnId, Function, LocalId, NumMethod, Program, Stmt,
    StrMethod, Ty, UnOp,
};
use crate::sema::{
    BuiltinFn, Coercion, TCase, TExpr, TExprKind, TFunction, TLocal, TProgram, TStmt, TStmtKind,
};
use crate::span::Span;

verus! {

// --- tables -------------------------------------------------------------------------------

/// The type of the backend.
pub open spec fn ty_of(t: crate::sema::Ty) -> Ty {
    match t {
        crate::sema::Ty::Int => Ty::Int,
        crate::sema::Ty::UInt => Ty::UInt,
        crate::sema::Ty::Number => Ty::Number,
        crate::sema::Ty::Boolean => Ty::Boolean,
        // A bare `null` is the null String.
        crate::sema::Ty::String | crate::sema::Ty::Null => Ty::String,
        crate::sema::Ty::Void => Ty::Void,
        _ => Ty::Any,
    }
}

pub open spec fn bin_op_of(op: BinaryOp) -> Option<BinOp> {
    match op {
        BinaryOp::Add => Some(BinOp::Add),
        BinaryOp::Sub => Some(BinOp::Sub),
        BinaryOp::Mul => Some(BinOp::Mul),
        BinaryOp::Div => Some(BinOp::Div),
        BinaryOp::Rem => Some(BinOp::Rem),
        BinaryOp::Shl => Some(BinOp::Shl),
        BinaryOp::Shr => Some(BinOp::Shr),
        BinaryOp::Ushr => Some(BinOp::Ushr),
        BinaryOp::BitAnd => Some(BinOp::BitAnd),
        BinaryOp::BitOr => Some(BinOp::BitOr),
        BinaryOp::BitXor => Some(BinOp::BitXor),
        BinaryOp::Lt => Some(BinOp::Lt),
        BinaryOp::Gt => Some(BinOp::Gt),
        BinaryOp::Le => Some(BinOp::Le),
        BinaryOp::Ge => Some(BinOp::Ge),
        BinaryOp::Eq => Some(BinOp::Eq),
        BinaryOp::Ne => Some(BinOp::Ne),
        BinaryOp::StrictEq => Some(BinOp::StrictEq),
        BinaryOp::StrictNe => Some(BinOp::StrictNe),
        _ => None,
    }
}

pub open spec fn un_op_of(op: UnaryOp) -> Option<UnOp> {
    match op {
        UnaryOp::Not => Some(UnOp::Not),
        UnaryOp::BitNot => Some(UnOp::BitNot),
        UnaryOp::Minus => Some(UnOp::Neg),
        UnaryOp::Typeof => Some(UnOp::TypeOf),
        _ => None,
    }
}

/// The conversion of a coercion to the type; a checked one from `*` is only
/// supported to String.
pub open spec fn conv_of(c: Coercion, to: crate::sema::Ty) -> Option<Conv> {
    match c {
        Coercion::ToInt => Some(Conv::ToInt),
        Coercion::ToUInt => Some(Conv::ToUInt),
        Coercion::ToNumber => Some(Conv::ToNumber),
        Coercion::ToBoolean => Some(Conv::ToBoolean),
        Coercion::ToString => Some(Conv::ToString),
        Coercion::ToAny => Some(Conv::ToAny),
        Coercion::FromAny => if to == crate::sema::Ty::String {
            Some(Conv::AnyToString)
        } else {
            None
        },
    }
}

/// An argument that is filled in where it is missing.
pub enum Fill {
    /// The bits of a double.
    Num(u64),
    Int(i32),
    Str(&'static str),
}

/// The bits of 0x7FFFFFFF as a double.
pub const MAX_INDEX: u64 = 0x41DF_FFFF_FFC0_0000;

/// The bits of 10 as a double.
pub const TEN: u64 = 0x4024_0000_0000_0000;

/// The bits of NaN.
pub const NAN: u64 = 0x7FF8_0000_0000_0000;

/// The builtin with the arguments it takes where they are missing.
pub open spec fn builtin_of(b: BuiltinFn) -> (Builtin, Seq<Fill>) {
    match b {
        BuiltinFn::Trace => (Builtin::Trace, Seq::empty()),
        BuiltinFn::ParseInt => (Builtin::ParseInt, seq![Fill::Str("NaN"), Fill::Int(0)]),
        BuiltinFn::ParseFloat => (Builtin::ParseFloat, seq![Fill::Str("NaN")]),
        BuiltinFn::IsNaN => (Builtin::IsNaN, seq![Fill::Num(NAN)]),
        BuiltinFn::IsFinite => (Builtin::IsFinite, seq![Fill::Num(NAN)]),
    }
}

/// A String method with the arguments it takes where they are missing.
#[verifier::opaque]
pub open spec fn str_method_of(name: Seq<char>) -> Option<(StrMethod, Seq<Fill>)> {
    let zero = Fill::Num(0);
    let max = Fill::Num(MAX_INDEX);
    let undefined = Fill::Str("undefined");
    if name == "charAt"@ {
        Some((StrMethod::CharAt, seq![zero]))
    } else if name == "charCodeAt"@ {
        Some((StrMethod::CharCodeAt, seq![zero]))
    } else if name == "indexOf"@ {
        Some((StrMethod::IndexOf, seq![undefined, zero]))
    } else if name == "lastIndexOf"@ {
        Some((StrMethod::LastIndexOf, seq![undefined, max]))
    } else if name == "slice"@ {
        Some((StrMethod::Slice, seq![zero, max]))
    } else if name == "substring"@ {
        Some((StrMethod::Substring, seq![zero, max]))
    } else if name == "substr"@ {
        Some((StrMethod::Substr, seq![zero, max]))
    } else if name == "toLowerCase"@ {
        Some((StrMethod::ToLowerCase, Seq::empty()))
    } else if name == "toUpperCase"@ {
        Some((StrMethod::ToUpperCase, Seq::empty()))
    } else if name == "toString"@ {
        Some((StrMethod::ToString, Seq::empty()))
    } else {
        None
    }
}

/// A Number method with the arguments it takes where they are missing.
#[verifier::opaque]
pub open spec fn num_method_of(name: Seq<char>) -> Option<(NumMethod, Seq<Fill>)> {
    if name == "toString"@ {
        Some((NumMethod::ToString, seq![Fill::Num(TEN)]))
    } else if name == "toFixed"@ {
        Some((NumMethod::ToFixed, seq![Fill::Num(0)]))
    } else {
        None
    }
}

/// How a method call is lowered.
pub enum Method {
    Str(StrMethod),
    /// `a.concat(b, c)` is `a + b + c`.
    Concat,
    /// `x.valueOf()` is `x`.
    ValueOf,
    /// `b.toString()` on a Boolean.
    BoolText,
    Num(NumMethod),
    Unsupported(&'static str),
}

#[verifier::opaque]
pub open spec fn method_of(recv: crate::sema::Ty, name: Seq<char>) -> Method {
    match recv {
        crate::sema::Ty::String => if name == "concat"@ {
            Method::Concat
        } else if name == "split"@ {
            Method::Unsupported("`split` returns Array — Phase 5")
        } else {
            match str_method_of(name) {
                Some((m, _)) => Method::Str(m),
                None => Method::Unsupported("this String method — Phase 7"),
            }
        },
        crate::sema::Ty::Boolean => if name == "valueOf"@ {
            Method::ValueOf
        } else if name == "toString"@ {
            Method::BoolText
        } else {
            Method::Unsupported("this Boolean method — Phase 7")
        },
        crate::sema::Ty::Int | crate::sema::Ty::UInt | crate::sema::Ty::Number => if name
            == "valueOf"@ {
            Method::ValueOf
        } else {
            match num_method_of(name) {
                Some((m, _)) => Method::Num(m),
                None => Method::Unsupported("this Number method — Phase 7"),
            }
        },
        _ => Method::Unsupported("dynamic method calls need the object model — Phase 4"),
    }
}

// --- what is reported -----------------------------------------------------------------------

/// A construct that no backend supports.
#[verifier::opaque]
pub open spec fn gate(ds: Seq<DiagView>, span: Span, message: Seq<char>) -> Seq<DiagView> {
    ds.push(
        error_at(ErrorCode(NOT_IMPLEMENTED), message + " (not yet implemented)"@, span),
    )
}

pub open spec fn ty_gates(ds: Seq<DiagView>, t: crate::sema::Ty, span: Span) -> Seq<DiagView> {
    if t == crate::sema::Ty::Function {
        gate(ds, span, "Function values need closures — Phase 6"@)
    } else {
        ds
    }
}

/// Why an expression cannot be lowered, whatever its parts.
#[verifier::opaque]
pub open spec fn refused(e: TExpr) -> Option<&'static str> {
    match e.kind {
        TExprKind::Member(recv, name) => if recv.ty == crate::sema::Ty::String && name@
            == "length"@ {
            None
        } else {
            Some("dynamic property access needs the object model — Phase 4")
        },
        TExprKind::MemberSet(_, _, _) | TExprKind::IndexSet(_, _, _) | TExprKind::Index(_, _) =>
            Some("dynamic property access needs the object model — Phase 4"),
        TExprKind::Array(_) => Some("Array literals need the Array class — Phase 5"),
        TExprKind::Object(_) => Some("object literals need the object model — Phase 4"),
        TExprKind::FnRef(_) | TExprKind::BuiltinRef(_) => Some(
            "functions as values need closures — Phase 6",
        ),
        TExprKind::CallIndirect(_, _) => Some(
            "calls through Function/`*` values need closures — Phase 6",
        ),
        TExprKind::Unary(UnaryOp::Delete, _) => Some("`delete` needs the object model — Phase 4"),
        TExprKind::Unary(UnaryOp::PreInc, v) => step_refused(*v),
        TExprKind::Unary(UnaryOp::PreDec, v) => step_refused(*v),
        TExprKind::Postfix(_, v) => step_refused(*v),
        TExprKind::Binary(BinaryOp::In, _, _) => Some("`in` needs the object model — Phase 4"),
        TExprKind::Binary(BinaryOp::Instanceof, _, _) => Some(
            "`instanceof` needs prototype chains — Phase 4 (prefer `is`)",
        ),
        TExprKind::Coerce(c, _) => if conv_of(c, e.ty) is None {
            Some("checked `*` coercion to this type — Phase 4")
        } else {
            None
        },
        _ => None,
    }
}

/// `++` and `--` need a local variable.
pub open spec fn step_refused(v: TExpr) -> Option<&'static str> {
    match v.kind {
        TExprKind::LocalGet(_) => None,
        _ => Some("++/-- on non-local or non-numeric targets — Phase 4"),
    }
}

/// What is reported of an expression after `ds`. A call may fill in defaulted
/// arguments, whose calls may fill in others, at most `n` levels deep.
pub open spec fn expr_told(p: TProgram, n: nat, ds: Seq<DiagView>, e: TExpr) -> Seq<DiagView>
    decreases 2 * n, e, 0nat,
{
    let ds1 = ty_gates(ds, e.ty, e.span);
    match refused(e) {
        Some(m) => gate(ds1, e.span, m@),
        None => match e.kind {
            TExprKind::LocalSet(_, v) => expr_told(p, n, ds1, *v),
            TExprKind::CallFn(f, args) => {
                let ds2 = exprs_told(p, n, ds1, args@, args@.len());
                let callee = p.functions@[f.0 as int];
                if n > 0 && args@.len() < callee.param_count {
                    fills_told(p, (n - 1) as nat, ds2, callee, args@.len(), callee.param_count as nat)
                } else {
                    ds2
                }
            },
            TExprKind::CallBuiltin(_, args) => exprs_told(p, n, ds1, args@, args@.len()),
            TExprKind::CallMethod(recv, name, args) => {
                let ds2 = exprs_told(p, n, ds1, args@, args@.len());
                match method_of(recv.ty, name@) {
                    Method::Unsupported(m) => gate(ds2, e.span, m@),
                    _ => expr_told(p, n, ds2, *recv),
                }
            },
            TExprKind::Member(recv, _) => expr_told(p, n, ds1, *recv),
            TExprKind::Unary(UnaryOp::PreInc, _) | TExprKind::Unary(UnaryOp::PreDec, _)
            | TExprKind::Postfix(_, _) => ds1,
            TExprKind::Unary(_, v) => expr_told(p, n, ds1, *v),
            TExprKind::Binary(_, l, r) => expr_told(p, n, expr_told(p, n, ds1, *l), *r),
            TExprKind::Logical(_, l, r) => expr_told(p, n, expr_told(p, n, ds1, *l), *r),
            TExprKind::Comma(l, r) => expr_told(p, n, expr_told(p, n, ds1, *l), *r),
            TExprKind::Conditional(c, a, b) => expr_told(
                p,
                n,
                expr_told(p, n, expr_told(p, n, ds1, *c), *a),
                *b,
            ),
            TExprKind::Is(v, t) => expr_told(p, n, ty_gates(ds1, t, e.span), *v),
            TExprKind::As(v, t) => expr_told(p, n, ty_gates(ds1, t, e.span), *v),
            TExprKind::Coerce(_, v) => expr_told(p, n, ds1, *v),
            _ => ds1,
        },
    }
}

/// What is reported of the first `k` expressions.
pub open spec fn exprs_told(
    p: TProgram,
    n: nat,
    ds: Seq<DiagView>,
    es: Seq<TExpr>,
    k: nat,
) -> Seq<DiagView>
    decreases 2 * n, es, k,
{
    if 0 < k <= es.len() {
        expr_told(p, n, exprs_told(p, n, ds, es, (k - 1) as nat), es[k - 1])
    } else {
        ds
    }
}

/// What is reported of the defaults of the parameters from `from` to `to`.
pub open spec fn fills_told(
    p: TProgram,
    n: nat,
    ds: Seq<DiagView>,
    f: TFunction,
    from: nat,
    to: nat,
) -> Seq<DiagView>
    decreases 2 * n + 1, f, to,
{
    if from < to <= f.locals@.len() {
        let ds1 = fills_told(p, n, ds, f, from, (to - 1) as nat);
        match f.locals@[to - 1].default {
            Some(d) => expr_told(p, n, ds1, d),
            None => ds1,
        }
    } else {
        ds
    }
}

// --- what comes out -------------------------------------------------------------------------

/// A literal argument that was filled in.
pub open spec fn is_fill(f: Fill, span: Span, out: Expr) -> bool {
    out.span == span && match f {
        Fill::Num(v) => out.ty == Ty::Number && out.kind == ExprKind::Number(v),
        Fill::Int(v) => out.ty == Ty::Int && out.kind == ExprKind::Int(v),
        Fill::Str(t) => out.ty == Ty::String && match out.kind {
            ExprKind::Str(s) => s@ == t@,
            _ => false,
        },
    }
}

/// The type of the lowered expression.
pub open spec fn lowered_ty(e: TExpr) -> Ty
    decreases e,
{
    if refused(e) is Some {
        ty_of(e.ty)
    } else {
        match e.kind {
            TExprKind::Unary(UnaryOp::Plus, v) => lowered_ty(*v),
            TExprKind::CallMethod(recv, name, args) => match method_of(recv.ty, name@) {
                Method::ValueOf => lowered_ty(*recv),
                Method::BoolText => Ty::String,
                Method::Concat => if args@.len() == 0 {
                    lowered_ty(*recv)
                } else {
                    Ty::String
                },
                _ => ty_of(e.ty),
            },
            _ => ty_of(e.ty),
        }
    }
}

/// The expression that stands by itself: a literal or a variable.
#[verifier::opaque]
pub open spec fn leaf(k: TExprKind) -> Option<ExprKind> {
    match k {
        TExprKind::Int(v) => Some(ExprKind::Int(v)),
        TExprKind::UInt(v) => Some(ExprKind::UInt(v)),
        TExprKind::Number(v) => Some(ExprKind::Number(v)),
        TExprKind::Str(v) => Some(ExprKind::Str(v)),
        TExprKind::Bool(v) => Some(ExprKind::Bool(v)),
        TExprKind::Null => Some(ExprKind::Null),
        TExprKind::Undefined => Some(ExprKind::Undefined),
        TExprKind::LocalGet(l) => Some(ExprKind::LocalGet(LocalId(l.0))),
        _ => None,
    }
}

/// `++` or `--` on a local variable.
pub open spec fn step_of(v: TExpr, is_inc: bool, is_prefix: bool) -> ExprKind {
    match v.kind {
        TExprKind::LocalGet(l) => ExprKind::IncDec { target: LocalId(l.0), is_inc, is_prefix },
        _ => ExprKind::Undefined,
    }
}

/// `out` is what the expression is lowered to.
pub open spec fn expr_to(p: TProgram, n: nat, e: TExpr, out: Expr) -> bool
    decreases 2 * n, e, 2 + arity(e),
{
    if refused(e) is Some {
        out == (Expr { ty: ty_of(e.ty), span: e.span, kind: ExprKind::Undefined })
    } else {
        match e.kind {
            TExprKind::Unary(UnaryOp::Plus, v) => expr_to(p, n, *v, out),
            TExprKind::CallMethod(recv, name, args) => match method_of(recv.ty, name@) {
                Method::Unsupported(_) => out == (Expr {
                    ty: ty_of(e.ty),
                    span: e.span,
                    kind: ExprKind::Undefined,
                }),
                Method::ValueOf => expr_to(p, n, *recv, out),
                Method::Concat => concat_to(p, n, e, args@.len(), out),
                Method::BoolText => out.ty == Ty::String && out.span == e.span && match out.kind {
                    ExprKind::Conv(Conv::ToString, x) => expr_to(p, n, *recv, *x),
                    _ => false,
                },
                Method::Str(m) => out.ty == ty_of(e.ty) && out.span == e.span && match out.kind {
                    ExprKind::CallStrMethod(m2, r, outs) => m == m2 && expr_to(p, n, *recv, *r)
                        && filled_to(p, n, args@, str_fills(name@), e.span, outs@),
                    _ => false,
                },
                Method::Num(m) => out.ty == ty_of(e.ty) && out.span == e.span && match out.kind {
                    ExprKind::CallNumMethod(m2, r, outs) => m == m2 && number_to(
                        p,
                        n,
                        *recv,
                        e.span,
                        *r,
                    ) && numbers_to(p, n, args@, num_fills(name@), e.span, outs@),
                    _ => false,
                },
            },
            k => out.ty == ty_of(e.ty) && out.span == e.span && kind_to(p, n, e, out.kind),
        }
    }
}

/// `out` is the kind of the lowered expression.
pub open spec fn kind_to(p: TProgram, n: nat, e: TExpr, out: ExprKind) -> bool
    decreases 2 * n, e, 0nat,
{
    match e.kind {
        TExprKind::LocalSet(l, v) => {
            &&& out matches ExprKind::LocalSet(l2, v2)
            &&& l2 == LocalId(l.0)
            &&& expr_to(p, n, *v, *v2)
        },
        TExprKind::CallFn(f, args) => {
            &&& out matches ExprKind::CallFn(f2, outs)
            &&& f2 == FnId(f.0)
            &&& args@.len() <= outs@.len()
            &&& exprs_to(p, n, args@, outs@.take(args@.len() as int))
            &&& if n > 0 && args@.len() < p.functions@[f.0 as int].param_count {
                fills_to(
                    p,
                    (n - 1) as nat,
                    p.functions@[f.0 as int],
                    args@.len(),
                    p.functions@[f.0 as int].param_count as nat,
                    outs@.skip(args@.len() as int),
                )
            } else {
                outs@.len() == args@.len()
            }
        },
        TExprKind::CallBuiltin(b, args) => {
            &&& out matches ExprKind::CallBuiltin(b2, outs)
            &&& b2 == builtin_of(b).0
            &&& filled_to(p, n, args@, builtin_of(b).1, e.span, outs@)
        },
        TExprKind::Member(recv, _) => {
            &&& out matches ExprKind::StrLen(r)
            &&& expr_to(p, n, *recv, *r)
        },
        TExprKind::Unary(op, v) => match op {
            UnaryOp::PreInc => out == step_of(*v, true, true),
            UnaryOp::PreDec => out == step_of(*v, false, true),
            // `void e` evaluates `e` and is undefined.
            UnaryOp::Void => {
                &&& out matches ExprKind::Comma(a, b)
                &&& expr_to(p, n, *v, *a)
                &&& *b == (Expr { ty: Ty::Any, span: e.span, kind: ExprKind::Undefined })
            },
            _ => {
                &&& out matches ExprKind::Unary(op2, a)
                &&& un_op_of(op) == Some(op2)
                &&& expr_to(p, n, *v, *a)
            },
        },
        TExprKind::Postfix(op, v) => out == step_of(*v, op == PostfixOp::Inc, false),
        TExprKind::Binary(op, l, r) => {
            &&& out matches ExprKind::Binary(op2, a, b)
            &&& bin_op_of(op) == Some(op2)
            &&& expr_to(p, n, *l, *a)
            &&& expr_to(p, n, *r, *b)
        },
        TExprKind::Logical(op, l, r) => {
            &&& out matches ExprKind::Logical { is_and, lhs, rhs }
            &&& is_and == (op == BinaryOp::LogAnd)
            &&& expr_to(p, n, *l, *lhs)
            &&& expr_to(p, n, *r, *rhs)
        },
        TExprKind::Conditional(c, a, b) => {
            &&& out matches ExprKind::Conditional(x, y, z)
            &&& expr_to(p, n, *c, *x)
            &&& expr_to(p, n, *a, *y)
            &&& expr_to(p, n, *b, *z)
        },
        TExprKind::Comma(l, r) => {
            &&& out matches ExprKind::Comma(a, b)
            &&& expr_to(p, n, *l, *a)
            &&& expr_to(p, n, *r, *b)
        },
        TExprKind::Is(v, t) => {
            &&& out matches ExprKind::Is(a, t2)
            &&& t2 == ty_of(t)
            &&& expr_to(p, n, *v, *a)
        },
        TExprKind::As(v, t) => {
            &&& out matches ExprKind::As(a, t2)
            &&& t2 == ty_of(t)
            &&& expr_to(p, n, *v, *a)
        },
        TExprKind::Coerce(c, v) => {
            &&& out matches ExprKind::Conv(c2, a)
            &&& conv_of(c, e.ty) == Some(c2)
            &&& expr_to(p, n, *v, *a)
        },
        k => leaf(k) == Some(out),
    }
}

/// Each expression is lowered to the one at its place.
pub open spec fn exprs_to(p: TProgram, n: nat, es: Seq<TExpr>, outs: Seq<Expr>) -> bool
    decreases 2 * n, es, 0nat,
{
    es.len() == outs.len() && forall|i: int|
        #![trigger es[i]]
        #![trigger outs[i]]
        0 <= i < es.len() ==> expr_to(p, n, es[i], outs[i])
}

/// The defaults of the parameters from `from` to `to`, where there are any.
pub open spec fn fills_to(
    p: TProgram,
    n: nat,
    f: TFunction,
    from: nat,
    to: nat,
    outs: Seq<Expr>,
) -> bool
    decreases 2 * n + 1, f, to,
{
    if from < to <= f.locals@.len() {
        match f.locals@[to - 1].default {
            Some(d) => {
                &&& outs.len() > 0
                &&& fills_to(p, n, f, from, (to - 1) as nat, outs.drop_last())
                &&& expr_to(p, n, d, outs.last())
            },
            None => fills_to(p, n, f, from, (to - 1) as nat, outs),
        }
    } else {
        outs.len() == 0
    }
}

/// The arguments, and the literals for those that are missing.
pub open spec fn filled_to(
    p: TProgram,
    n: nat,
    args: Seq<TExpr>,
    fills: Seq<Fill>,
    span: Span,
    outs: Seq<Expr>,
) -> bool
    decreases 2 * n, args, 1nat,
{
    &&& args.len() <= outs.len()
    &&& exprs_to(p, n, args, outs.take(args.len() as int))
    &&& fills_at(args.len(), fills, span, outs)
}

/// From `from` on stand the literals for the missing arguments.
pub open spec fn fills_at(from: nat, fills: Seq<Fill>, span: Span, outs: Seq<Expr>) -> bool {
    &&& outs.len() == (if from < fills.len() {
        fills.len()
    } else {
        from
    })
    &&& forall|i: int|
        #![trigger outs[i]]
        from <= i < outs.len() ==> is_fill(fills[i], span, outs[i])
}

/// The expression lowered, and converted to Number.
pub open spec fn number_to(p: TProgram, n: nat, e: TExpr, span: Span, out: Expr) -> bool
    decreases 2 * n, e, 3 + arity(e),
{
    if lowered_ty(e) == Ty::Number {
        expr_to(p, n, e, out)
    } else {
        out.ty == Ty::Number && out.span == span && match out.kind {
            ExprKind::Conv(Conv::ToNumber, x) => expr_to(p, n, e, *x),
            _ => false,
        }
    }
}

/// The expression lowered, and converted to String.
pub open spec fn string_to(p: TProgram, n: nat, e: TExpr, span: Span, out: Expr) -> bool
    decreases 2 * n, e, 3 + arity(e),
{
    if lowered_ty(e) == Ty::String {
        expr_to(p, n, e, out)
    } else {
        out.ty == Ty::String && out.span == span && match out.kind {
            ExprKind::Conv(Conv::ToString, x) => expr_to(p, n, e, *x),
            _ => false,
        }
    }
}

/// The arguments, each converted to Number, and the literals for those that
/// are missing.
pub open spec fn numbers_to(
    p: TProgram,
    n: nat,
    args: Seq<TExpr>,
    fills: Seq<Fill>,
    span: Span,
    outs: Seq<Expr>,
) -> bool
    decreases 2 * n, args, 1nat,
{
    &&& args.len() <= outs.len()
    &&& forall|i: int|
        #![trigger args[i]]
        #![trigger outs[i]]
        0 <= i < args.len() ==> number_to(p, n, args[i], span, outs[i])
    &&& fills_at(args.len(), fills, span, outs)
}

/// The number of arguments of a method call.
pub open spec fn arity(e: TExpr) -> nat {
    match e.kind {
        TExprKind::CallMethod(_, _, args) => args@.len(),
        _ => 0,
    }
}

/// `recv + arg + arg` for the method call `e`, with the first `k` arguments.
pub open spec fn concat_to(p: TProgram, n: nat, e: TExpr, k: nat, out: Expr) -> bool
    decreases 2 * n, e, 1 + k,
{
    match e.kind {
        TExprKind::CallMethod(recv, _, args) => if 0 < k <= args@.len() {
            out.ty == Ty::String && out.span == e.span && match out.kind {
                ExprKind::Binary(BinOp::Add, a, b) => concat_to(p, n, e, (k - 1) as nat, *a)
                    && string_to(p, n, args@[k - 1], e.span, *b),
                _ => false,
            }
        } else {
            expr_to(p, n, *recv, out)
        },
        _ => false,
    }
}

pub open spec fn str_fills(name: Seq<char>) -> Seq<Fill> {
    match str_method_of(name) {
        Some((_, fills)) => fills,
        None => Seq::empty(),
    }
}

pub open spec fn num_fills(name: Seq<char>) -> Seq<Fill> {
    match num_method_of(name) {
        Some((_, fills)) => fills,
        None => Seq::empty(),
    }
}

// --- statements and functions ---------------------------------------------------------------

/// The statement is a loop, possibly with labels.
pub open spec fn is_loop(s: TStmt) -> bool
    decreases s,
{
    match s.kind {
        TStmtKind::While { .. } | TStmtKind::DoWhile { .. } | TStmtKind::For { .. } => true,
        TStmtKind::Labeled { body, .. } => is_loop(*body),
        _ => false,
    }
}

pub open spec fn opt_expr_told(
    p: TProgram,
    n: nat,
    ds: Seq<DiagView>,
    e: Option<TExpr>,
) -> Seq<DiagView> {
    match e {
        Some(x) => expr_told(p, n, ds, x),
        None => ds,
    }
}

/// What is reported of a statement after `ds`.
pub open spec fn stmt_told(p: TProgram, n: nat, ds: Seq<DiagView>, s: TStmt) -> Seq<DiagView>
    decreases s, 0nat,
{
    match s.kind {
        TStmtKind::Expr(e) => expr_told(p, n, ds, e),
        TStmtKind::Assign(_, e) => expr_told(p, n, ds, e),
        TStmtKind::Block(b) => stmts_told(p, n, ds, b@, b@.len()),
        TStmtKind::If { cond, then_branch, else_branch } => {
            let ds1 = stmt_told(p, n, expr_told(p, n, ds, cond), *then_branch);
            match else_branch {
                Some(e) => stmt_told(p, n, ds1, *e),
                None => ds1,
            }
        },
        TStmtKind::While { cond, body } => stmt_told(p, n, expr_told(p, n, ds, cond), *body),
        TStmtKind::DoWhile { body, cond } => expr_told(p, n, stmt_told(p, n, ds, *body), cond),
        TStmtKind::For { init, cond, update, body } => {
            let ds1 = match init {
                Some(i) => stmt_told(p, n, ds, *i),
                None => ds,
            };
            stmt_told(p, n, opt_expr_told(p, n, opt_expr_told(p, n, ds1, cond), update), *body)
        },
        TStmtKind::ForIn { object, .. } => gate(
            ds,
            object.span,
            "`for..in`/`for each..in` iteration — Phase 6"@,
        ),
        TStmtKind::Switch { scrutinee, cases } => cases_told(
            p,
            n,
            expr_told(p, n, ds, scrutinee),
            cases@,
            cases@.len(),
        ),
        TStmtKind::Return { value } => opt_expr_told(p, n, ds, value),
        TStmtKind::Throw { value } => gate(
            ds,
            value.span,
            "`throw`/`try` exceptions — Phase 6"@,
        ),
        TStmtKind::Try { .. } => gate(
            ds,
            s.span,
            "`try`/`catch`/`finally` exceptions — Phase 6"@,
        ),
        TStmtKind::Labeled { body, .. } => {
            let ds1 = stmt_told(p, n, ds, *body);
            if is_loop(*body) {
                ds1
            } else {
                gate(ds1, s.span, "labels on non-loop statements — Phase 6"@)
            }
        },
        _ => ds,
    }
}

/// What is reported of the first `k` statements.
pub open spec fn stmts_told(
    p: TProgram,
    n: nat,
    ds: Seq<DiagView>,
    l: Seq<TStmt>,
    k: nat,
) -> Seq<DiagView>
    decreases l, k,
{
    if 0 < k <= l.len() {
        stmt_told(p, n, stmts_told(p, n, ds, l, (k - 1) as nat), l[k - 1])
    } else {
        ds
    }
}

/// What is reported of the first `k` clauses of a `switch`.
pub open spec fn cases_told(
    p: TProgram,
    n: nat,
    ds: Seq<DiagView>,
    l: Seq<TCase>,
    k: nat,
) -> Seq<DiagView>
    decreases l, k,
{
    if 0 < k <= l.len() {
        let c = l[k - 1];
        stmts_told(
            p,
            n,
            opt_expr_told(p, n, cases_told(p, n, ds, l, (k - 1) as nat), c.test),
            c.body@,
            c.body@.len(),
        )
    } else {
        ds
    }
}

pub open spec fn opt_expr_to(p: TProgram, n: nat, e: Option<TExpr>, out: Option<Expr>) -> bool {
    match e {
        Some(x) => {
            &&& out matches Some(y)
            &&& expr_to(p, n, x, y)
        },
        None => out is None,
    }
}

/// A loop with the label, in place of any it has; another statement as it is.
pub open spec fn relabeled(s: Stmt, label: String, out: Stmt) -> bool {
    match s {
        Stmt::While { cond, body, .. } => out == (Stmt::While { label: Some(label), cond, body }),
        Stmt::DoWhile { body, cond, .. } => out == (Stmt::DoWhile {
            label: Some(label),
            body,
            cond,
        }),
        Stmt::For { init, cond, update, body, .. } => out == (Stmt::For {
            label: Some(label),
            init,
            cond,
            update,
            body,
        }),
        _ => out == s,
    }
}

/// `out` is what the statement is lowered to.
pub open spec fn stmt_to(p: TProgram, n: nat, s: TStmt, out: Stmt) -> bool
    decreases s, 0nat,
{
    match s.kind {
        TStmtKind::Expr(e) => {
            &&& out matches Stmt::Expr(x)
            &&& expr_to(p, n, e, x)
        },
        TStmtKind::Assign(l, e) => {
            &&& out matches Stmt::Assign(l2, x)
            &&& l2 == LocalId(l.0)
            &&& expr_to(p, n, e, x)
        },
        TStmtKind::Block(b) => {
            &&& out matches Stmt::Block(x)
            &&& stmts_to(p, n, b@, x@)
        },
        TStmtKind::If { cond, then_branch, else_branch } => {
            &&& out matches Stmt::If { cond: c, then_branch: a, else_branch: b }
            &&& expr_to(p, n, cond, c)
            &&& stmt_to(p, n, *then_branch, *a)
            &&& opt_stmt_to(p, n, else_branch, b)
        },
        TStmtKind::While { cond, body } => {
            &&& out matches Stmt::While { label: None, cond: c, body: b }
            &&& expr_to(p, n, cond, c)
            &&& stmt_to(p, n, *body, *b)
        },
        TStmtKind::DoWhile { body, cond } => {
            &&& out matches Stmt::DoWhile { label: None, body: b, cond: c }
            &&& stmt_to(p, n, *body, *b)
            &&& expr_to(p, n, cond, c)
        },
        TStmtKind::For { init, cond, update, body } => {
            &&& out matches Stmt::For { label: None, init: i, cond: c, update: u, body: b }
            &&& opt_stmt_to(p, n, init, i)
            &&& opt_expr_to(p, n, cond, c)
            &&& opt_expr_to(p, n, update, u)
            &&& stmt_to(p, n, *body, *b)
        },
        TStmtKind::Switch { scrutinee, cases } => {
            &&& out matches Stmt::Switch { scrutinee: x, cases: c }
            &&& expr_to(p, n, scrutinee, x)
            &&& cases_to(p, n, cases@, c@)
        },
        TStmtKind::Break { label } => out == (Stmt::Break { label }),
        TStmtKind::Continue { label } => out == (Stmt::Continue { label }),
        TStmtKind::Return { value } => {
            &&& out matches Stmt::Return { value: v }
            &&& opt_expr_to(p, n, value, v)
        },
        TStmtKind::Labeled { label, body } => exists|mid: Stmt|
            stmt_to(p, n, *body, mid) && #[trigger] relabeled(mid, label, out),
        _ => out == Stmt::Empty,
    }
}

pub open spec fn opt_stmt_to(
    p: TProgram,
    n: nat,
    s: Option<Box<TStmt>>,
    out: Option<Box<Stmt>>,
) -> bool
    decreases s, 1nat,
{
    match s {
        Some(x) => {
            &&& out matches Some(y)
            &&& stmt_to(p, n, *x, *y)
        },
        None => out is None,
    }
}

pub open spec fn stmts_to(p: TProgram, n: nat, l: Seq<TStmt>, outs: Seq<Stmt>) -> bool
    decreases l, 1nat,
{
    l.len() == outs.len() && forall|i: int|
        #![trigger l[i]]
        #![trigger outs[i]]
        0 <= i < l.len() ==> stmt_to(p, n, l[i], outs[i])
}

pub open spec fn cases_to(p: TProgram, n: nat, l: Seq<TCase>, outs: Seq<Case>) -> bool
    decreases l, 1nat,
{
    l.len() == outs.len() && forall|i: int|
        #![trigger l[i]]
        #![trigger outs[i]]
        0 <= i < l.len() ==> opt_expr_to(p, n, l[i].test, outs[i].test) && stmts_to(
            p,
            n,
            l[i].body@,
            outs[i].body@,
        )
}

/// What is reported of the types of the first `k` locals.
pub open spec fn locals_told(
    ds: Seq<DiagView>,
    l: Seq<TLocal>,
    span: Span,
    k: nat,
) -> Seq<DiagView>
    decreases k,
{
    if 0 < k <= l.len() {
        ty_gates(locals_told(ds, l, span, (k - 1) as nat), l[k - 1].ty, span)
    } else {
        ds
    }
}

/// What is reported of the defaults of the first `k` parameters.
pub open spec fn defaults_told(
    p: TProgram,
    n: nat,
    ds: Seq<DiagView>,
    l: Seq<TLocal>,
    span: Span,
    k: nat,
) -> Seq<DiagView>
    decreases k,
{
    if 0 < k <= l.len() {
        let ds1 = defaults_told(p, n, ds, l, span, (k - 1) as nat);
        if l[k - 1].is_rest {
            gate(ds1, span, "rest parameters need Array — Phase 5"@)
        } else {
            opt_expr_told(p, n, ds1, l[k - 1].default)
        }
    } else {
        ds
    }
}

/// The number of parameters that there are locals for.
pub open spec fn param_total(f: TFunction) -> nat {
    if f.param_count <= f.locals@.len() {
        f.param_count as nat
    } else {
        f.locals@.len()
    }
}

pub open spec fn function_told(p: TProgram, n: nat, ds: Seq<DiagView>, f: TFunction) -> Seq<
    DiagView,
> {
    let ds1 = locals_told(ds, f.locals@, f.span, f.locals@.len());
    let ds2 = defaults_told(p, n, ds1, f.locals@, f.span, param_total(f));
    stmts_told(p, n, ty_gates(ds2, f.return_ty, f.span), f.body@, f.body@.len())
}

/// `out` is what the function is lowered to.
pub open spec fn function_to(p: TProgram, n: nat, f: TFunction, out: Function) -> bool {
    &&& out.name == f.name
    &&& out.ret == ty_of(f.return_ty)
    &&& out.locals@.len() == f.locals@.len()
    &&& forall|i: int|
        #![trigger out.locals@[i]]
        0 <= i < f.locals@.len() ==> out.locals@[i] == ty_of(f.locals@[i].ty)
    &&& out.param_count == f.param_count
    &&& out.param_defaults@.len() == param_total(f)
    &&& forall|i: int|
        #![trigger out.param_defaults@[i]]
        0 <= i < param_total(f) ==> if f.locals@[i].is_rest {
            out.param_defaults@[i] is None
        } else {
            opt_expr_to(p, n, f.locals@[i].default, out.param_defaults@[i])
        }
    &&& stmts_to(p, n, f.body@, out.body@)
    &&& out.span == f.span
    &&& out.captures@.len() == 0
    &&& out.captured@.len() == 0
    &&& out.this_class is None
}

/// What is reported of the first `k` functions.
pub open spec fn functions_told(p: TProgram, n: nat, k: nat) -> Seq<DiagView>
    decreases k,
{
    if 0 < k <= p.functions@.len() {
        function_told(p, n, functions_told(p, n, (k - 1) as nat), p.functions@[k - 1])
    } else {
        Seq::empty()
    }
}

/// What is reported of a program.
pub open spec fn program_told(p: TProgram, n: nat) -> Seq<DiagView> {
    functions_told(p, n, p.functions@.len())
}

/// `out` is what the program is lowered to.
pub open spec fn program_to(p: TProgram, n: nat, out: Program) -> bool {
    &&& out.functions@.len() == p.functions@.len()
    &&& forall|i: int|
        #![trigger out.functions@[i]]
        0 <= i < p.functions@.len() ==> function_to(p, n, p.functions@[i], out.functions@[i])
    &&& out.classes@.len() == 0
    &&& out.vectors@.len() == 0
    &&& out.namespace_uris@.len() == 0
    &&& out.error_classes@.len() == 0
}

// --- what can be lowered ----------------------------------------------------------------------

/// The expression is one that checking lets through: nothing in it is
/// erroneous, each called function is there, and where arguments are missing it
/// has a local for each parameter and filling them in comes to an end within `n`
/// levels.
pub open spec fn expr_ok(p: TProgram, n: nat, e: TExpr) -> bool
    decreases 2 * n, e, 0nat,
{
    e.ty != crate::sema::Ty::Error && (refused(e) is Some || match e.kind {
        TExprKind::LocalSet(_, v) => expr_ok(p, n, *v),
        TExprKind::CallFn(f, args) => {
            &&& f.0 < p.functions@.len()
            &&& exprs_ok(p, n, args@)
            &&& args@.len() < p.functions@[f.0 as int].param_count ==> n > 0
                && p.functions@[f.0 as int].param_count <= p.functions@[f.0 as int].locals@.len()
                && fills_ok(
                p,
                (n - 1) as nat,
                p.functions@[f.0 as int],
                args@.len(),
                p.functions@[f.0 as int].param_count as nat,
            )
        },
        TExprKind::CallBuiltin(_, args) => exprs_ok(p, n, args@),
        TExprKind::CallMethod(recv, name, args) => exprs_ok(p, n, args@) && (method_of(
            recv.ty,
            name@,
        ) is Unsupported || expr_ok(p, n, *recv)),
        TExprKind::Member(recv, _) => expr_ok(p, n, *recv),
        TExprKind::Unary(UnaryOp::PreInc, _) | TExprKind::Unary(UnaryOp::PreDec, _)
        | TExprKind::Postfix(_, _) => true,
        TExprKind::Unary(_, v) => expr_ok(p, n, *v),
        TExprKind::Binary(op, l, r) => bin_op_of(op) is Some && expr_ok(p, n, *l) && expr_ok(
            p,
            n,
            *r,
        ),
        TExprKind::Logical(_, l, r) => expr_ok(p, n, *l) && expr_ok(p, n, *r),
        TExprKind::Comma(l, r) => expr_ok(p, n, *l) && expr_ok(p, n, *r),
        TExprKind::Conditional(c, a, b) => expr_ok(p, n, *c) && expr_ok(p, n, *a) && expr_ok(
            p,
            n,
            *b,
        ),
        TExprKind::Is(v, t) => t != crate::sema::Ty::Error && expr_ok(p, n, *v),
        TExprKind::As(v, t) => t != crate::sema::Ty::Error && expr_ok(p, n, *v),
        TExprKind::Coerce(_, v) => expr_ok(p, n, *v),
        TExprKind::Error => false,
        _ => true,
    })
}

pub open spec fn exprs_ok(p: TProgram, n: nat, es: Seq<TExpr>) -> bool
    decreases 2 * n, es, 0nat,
{
    forall|i: int| 0 <= i < es.len() ==> expr_ok(p, n, #[trigger] es[i])
}

pub open spec fn fills_ok(p: TProgram, n: nat, f: TFunction, from: nat, to: nat) -> bool
    decreases 2 * n + 1, f, to,
{
    from < to <= f.locals@.len() ==> {
        &&& fills_ok(p, n, f, from, (to - 1) as nat)
        &&& match f.locals@[to - 1].default {
            Some(d) => expr_ok(p, n, d),
            None => true,
        }
    }
}

pub open spec fn opt_expr_ok(p: TProgram, n: nat, e: Option<TExpr>) -> bool {
    match e {
        Some(x) => expr_ok(p, n, x),
        None => true,
    }
}

pub open spec fn stmt_ok(p: TProgram, n: nat, s: TStmt) -> bool
    decreases s, 0nat,
{
    match s.kind {
        TStmtKind::Expr(e) => expr_ok(p, n, e),
        TStmtKind::Assign(_, e) => expr_ok(p, n, e),
        TStmtKind::Block(b) => stmts_ok(p, n, b@),
        TStmtKind::If { cond, then_branch, else_branch } => expr_ok(p, n, cond) && stmt_ok(
            p,
            n,
            *then_branch,
        ) && opt_stmt_ok(p, n, else_branch),
        TStmtKind::While { cond, body } => expr_ok(p, n, cond) && stmt_ok(p, n, *body),
        TStmtKind::DoWhile { body, cond } => expr_ok(p, n, cond) && stmt_ok(p, n, *body),
        TStmtKind::For { init, cond, update, body } => opt_stmt_ok(p, n, init) && opt_expr_ok(
            p,
            n,
            cond,
        ) && opt_expr_ok(p, n, update) && stmt_ok(p, n, *body),
        TStmtKind::Switch { scrutinee, cases } => expr_ok(p, n, scrutinee) && cases_ok(
            p,
            n,
            cases@,
        ),
        TStmtKind::Return { value } => opt_expr_ok(p, n, value),
        TStmtKind::Labeled { body, .. } => stmt_ok(p, n, *body),
        _ => true,
    }
}

pub open spec fn opt_stmt_ok(p: TProgram, n: nat, s: Option<Box<TStmt>>) -> bool
    decreases s, 1nat,
{
    match s {
        Some(x) => stmt_ok(p, n, *x),
        None => true,
    }
}

pub open spec fn stmts_ok(p: TProgram, n: nat, l: Seq<TStmt>) -> bool
    decreases l, 1nat,
{
    forall|i: int| 0 <= i < l.len() ==> stmt_ok(p, n, #[trigger] l[i])
}

pub open spec fn cases_ok(p: TProgram, n: nat, l: Seq<TCase>) -> bool
    decreases l, 1nat,
{
    forall|i: int|
        #![trigger l[i]]
        0 <= i < l.len() ==> opt_expr_ok(p, n, l[i].test) && stmts_ok(p, n, l[i].body@)
}

pub open spec fn function_ok(p: TProgram, n: nat, f: TFunction) -> bool {
    &&& f.return_ty != crate::sema::Ty::Error
    &&& forall|i: int|
        #![trigger f.locals@[i]]
        0 <= i < f.locals@.len() ==> f.locals@[i].ty != crate::sema::Ty::Error
    &&& forall|i: int|
        #![trigger f.locals@[i]]
        0 <= i < param_total(f) && !f.locals@[i].is_rest ==> opt_expr_ok(
            p,
            n,
            f.locals@[i].default,
        )
    &&& stmts_ok(p, n, f.body@)
}

/// The program is one that checking lets through, and filling in defaulted
/// arguments comes to an end within `n` levels.
pub open spec fn program_ok(p: TProgram, n: nat) -> bool {
    forall|i: int|
        #![trigger p.functions@[i]]
        0 <= i < p.functions@.len() ==> function_ok(p, n, p.functions@[i])
}

} // verus!
