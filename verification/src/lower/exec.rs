//! The lowering.

use vstd::prelude::*;

use crate::ast::nodes::{BinaryOp, PostfixOp, UnaryOp};
use crate::diagnostics::{diag_views, DiagView, Diagnostic, ErrorCode, NOT_IMPLEMENTED};
use crate::lower::rules::{
    bin_op_of, builtin_of, cases_ok, cases_to, cases_told, concat_to, conv_of, defaults_told,
    expr_ok, expr_to, expr_told, exprs_ok, exprs_to, exprs_told, filled_to, fills_at, fills_ok,
    fills_to, fills_told, function_ok, function_to, function_told, functions_told, gate, is_fill,
    is_loop, kind_to, leaf, locals_told, lowered_ty, method_of, num_fills, num_method_of, number_to,
    numbers_to, opt_expr_ok, opt_expr_to, opt_expr_told, opt_stmt_ok, opt_stmt_to, param_total,
    program_ok, program_to, program_told, refused, relabeled, step_of, step_refused, stmt_ok,
    stmt_to, stmt_told, stmts_ok, stmts_to, stmts_told, str_fills, str_method_of, string_to,
    ty_gates, ty_of, Fill, Method, MAX_INDEX, NAN, TEN,
};
use crate::mir::{
    BinOp, Builtin, Case, Conv, Expr, ExprKind, FnId, Function, LocalId, NumMethod, Program, Stmt,
    StrMethod, Ty, UnOp,
};
use crate::parser::order::{sort_diagnostics, sorted};
use crate::sema::{
    BuiltinFn, Coercion, TCase, TExpr, TExprKind, TFunction, TLocal, TProgram, TStmt, TStmtKind,
};
use crate::span::Span;
use crate::text::{push_text, same_text};

verus! {

// --- tables -------------------------------------------------------------------------------

fn map_ty(t: crate::sema::Ty) -> (r: Ty)
    ensures
        r == ty_of(t),
{
    match t {
        crate::sema::Ty::Int => Ty::Int,
        crate::sema::Ty::UInt => Ty::UInt,
        crate::sema::Ty::Number => Ty::Number,
        crate::sema::Ty::Boolean => Ty::Boolean,
        crate::sema::Ty::String | crate::sema::Ty::Null => Ty::String,
        crate::sema::Ty::Void => Ty::Void,
        _ => Ty::Any,
    }
}

pub(crate) fn map_bin_op(op: BinaryOp) -> (r: Option<BinOp>)
    ensures
        r == bin_op_of(op),
{
    match op {
        BinaryOp::Add => Some(BinOp::Add),
        BinaryOp::Sub => Some(BinOp::Sub),
        BinaryOp::Mul => Some(BinOp::Mul),
        BinaryOp::Div => Some(BinOp::Div),
        BinaryOp::Rem => Some(BinOp::Rem),
        BinaryOp::Shl => Some(BinOp::Shl),
        BinaryOp::Shr => Some(BinOp::Shr),
        BinaryOp::Ushr => Some(BinOp::Ushr),
        BinaryOp::BitAnd => Some(BinOp::BitAnd),
        BinaryOp::BitOr => Some(BinOp::BitOr),
        BinaryOp::BitXor => Some(BinOp::BitXor),
        BinaryOp::Lt => Some(BinOp::Lt),
        BinaryOp::Gt => Some(BinOp::Gt),
        BinaryOp::Le => Some(BinOp::Le),
        BinaryOp::Ge => Some(BinOp::Ge),
        BinaryOp::Eq => Some(BinOp::Eq),
        BinaryOp::Ne => Some(BinOp::Ne),
        BinaryOp::StrictEq => Some(BinOp::StrictEq),
        BinaryOp::StrictNe => Some(BinOp::StrictNe),
        _ => None,
    }
}

fn map_conv(c: Coercion, to: crate::sema::Ty) -> (r: Option<Conv>)
    ensures
        r == conv_of(c, to),
{
    match c {
        Coercion::ToInt => Some(Conv::ToInt),
        Coercion::ToUInt => Some(Conv::ToUInt),
        Coercion::ToNumber => Some(Conv::ToNumber),
        Coercion::ToBoolean => Some(Conv::ToBoolean),
        Coercion::ToString => Some(Conv::ToString),
        Coercion::ToAny => Some(Conv::ToAny),
        Coercion::FromAny => if to == crate::sema::Ty::String {
            Some(Conv::AnyToString)
        } else {
            None
        },
    }
}

fn map_builtin(b: BuiltinFn) -> (r: (Builtin, Vec<Fill>))
    ensures
        r.0 == builtin_of(b).0,
        r.1@ == builtin_of(b).1,
{
    match b {
        BuiltinFn::Trace => (Builtin::Trace, vec![]),
        BuiltinFn::ParseInt => (Builtin::ParseInt, vec![Fill::Str("NaN"), Fill::Int(0)]),
        BuiltinFn::ParseFloat => (Builtin::ParseFloat, vec![Fill::Str("NaN")]),
        BuiltinFn::IsNaN => (Builtin::IsNaN, vec![Fill::Num(NAN)]),
        BuiltinFn::IsFinite => (Builtin::IsFinite, vec![Fill::Num(NAN)]),
    }
}

fn map_str_method(name: &str) -> (r: Option<(StrMethod, Vec<Fill>)>)
    ensures
        match r {
            Some((m, fills)) => str_method_of(name@) == Some((m, fills@)),
            None => str_method_of(name@) is None,
        },
{
    reveal(str_method_of);
    if same_text(name, "charAt") {
        Some((StrMethod::CharAt, vec![Fill::Num(0)]))
    } else if same_text(name, "charCodeAt") {
        Some((StrMethod::CharCodeAt, vec![Fill::Num(0)]))
    } else if same_text(name, "indexOf") {
        Some((StrMethod::IndexOf, vec![Fill::Str("undefined"), Fill::Num(0)]))
    } else if same_text(name, "lastIndexOf") {
        Some((StrMethod::LastIndexOf, vec![Fill::Str("undefined"), Fill::Num(MAX_INDEX)]))
    } else if same_text(name, "slice") {
        Some((StrMethod::Slice, vec![Fill::Num(0), Fill::Num(MAX_INDEX)]))
    } else if same_text(name, "substring") {
        Some((StrMethod::Substring, vec![Fill::Num(0), Fill::Num(MAX_INDEX)]))
    } else if same_text(name, "substr") {
        Some((StrMethod::Substr, vec![Fill::Num(0), Fill::Num(MAX_INDEX)]))
    } else if same_text(name, "toLowerCase") {
        Some((StrMethod::ToLowerCase, vec![]))
    } else if same_text(name, "toUpperCase") {
        Some((StrMethod::ToUpperCase, vec![]))
    } else if same_text(name, "toString") {
        Some((StrMethod::ToString, vec![]))
    } else {
        None
    }
}

fn map_num_method(name: &str) -> (r: Option<(NumMethod, Vec<Fill>)>)
    ensures
        match r {
            Some((m, fills)) => num_method_of(name@) == Some((m, fills@)),
            None => num_method_of(name@) is None,
        },
{
    reveal(num_method_of);
    if same_text(name, "toString") {
        Some((NumMethod::ToString, vec![Fill::Num(TEN)]))
    } else if same_text(name, "toFixed") {
        Some((NumMethod::ToFixed, vec![Fill::Num(0)]))
    } else {
        None
    }
}

/// How a method call is lowered, and the arguments it takes where they are
/// missing.
pub(crate) fn classify(recv: crate::sema::Ty, name: &str) -> (r: (Method, Vec<Fill>))
    ensures
        r.0 == method_of(recv, name@),
        r.0 is Str ==> r.1@ == str_fills(name@),
        r.0 is Num ==> r.1@ == num_fills(name@),
{
    reveal(method_of);
    match recv {
        crate::sema::Ty::String => {
            if same_text(name, "concat") {
                return (Method::Concat, vec![]);
            }
            if same_text(name, "split") {
                return (Method::Unsupported("`split` returns Array — Phase 5"), vec![]);
            }
            match map_str_method(name) {
                Some((m, fills)) => (Method::Str(m), fills),
                None => (Method::Unsupported("this String method — Phase 7"), vec![]),
            }
        },
        crate::sema::Ty::Boolean => {
            if same_text(name, "valueOf") {
                (Method::ValueOf, vec![])
            } else if same_text(name, "toString") {
                (Method::BoolText, vec![])
            } else {
                (Method::Unsupported("this Boolean method — Phase 7"), vec![])
            }
        },
        crate::sema::Ty::Int | crate::sema::Ty::UInt | crate::sema::Ty::Number => {
            if same_text(name, "valueOf") {
                return (Method::ValueOf, vec![]);
            }
            match map_num_method(name) {
                Some((m, fills)) => (Method::Num(m), fills),
                None => (Method::Unsupported("this Number method — Phase 7"), vec![]),
            }
        },
        _ => (
            Method::Unsupported("dynamic method calls need the object model — Phase 4"),
            vec![],
        ),
    }
}

fn refuse_step(v: &TExpr) -> (r: Option<&'static str>)
    ensures
        r == step_refused(*v),
{
    match v.kind {
        TExprKind::LocalGet(_) => None,
        _ => Some("++/-- on non-local or non-numeric targets — Phase 4"),
    }
}

/// Why an expression cannot be lowered, whatever its parts.
pub(crate) fn refuse(e: &TExpr) -> (r: Option<&'static str>)
    ensures
        r == refused(*e),
{
    reveal(refused);
    match &e.kind {
        TExprKind::Member(recv, name) => {
            if recv.ty == crate::sema::Ty::String && same_text(name.as_str(), "length") {
                None
            } else {
                Some("dynamic property access needs the object model — Phase 4")
            }
        },
        TExprKind::MemberSet(_, _, _) | TExprKind::IndexSet(_, _, _) | TExprKind::Index(_, _) =>
            Some("dynamic property access needs the object model — Phase 4"),
        TExprKind::Array(_) => Some("Array literals need the Array class — Phase 5"),
        TExprKind::Object(_) => Some("object literals need the object model — Phase 4"),
        TExprKind::FnRef(_) | TExprKind::BuiltinRef(_) => Some(
            "functions as values need closures — Phase 6",
        ),
        TExprKind::CallIndirect(_, _) => Some(
            "calls through Function/`*` values need closures — Phase 6",
        ),
        TExprKind::Unary(op, v) => match op {
            UnaryOp::Delete => Some("`delete` needs the object model — Phase 4"),
            UnaryOp::PreInc | UnaryOp::PreDec => refuse_step(v),
            _ => None,
        },
        TExprKind::Postfix(_, v) => refuse_step(v),
        TExprKind::Binary(op, _, _) => match op {
            BinaryOp::In => Some("`in` needs the object model — Phase 4"),
            BinaryOp::Instanceof => Some(
                "`instanceof` needs prototype chains — Phase 4 (prefer `is`)",
            ),
            _ => None,
        },
        TExprKind::Coerce(c, _) => match map_conv(*c, e.ty) {
            Some(_) => None,
            None => Some("checked `*` coercion to this type — Phase 4"),
        },
        _ => None,
    }
}

fn literal(f: &Fill, span: Span) -> (r: Expr)
    ensures
        is_fill(*f, span, r),
{
    match f {
        Fill::Num(v) => Expr { ty: Ty::Number, span, kind: ExprKind::Number(*v) },
        Fill::Int(v) => Expr { ty: Ty::Int, span, kind: ExprKind::Int(*v) },
        Fill::Str(t) => Expr { ty: Ty::String, span, kind: ExprKind::Str((*t).to_owned()) },
    }
}

/// Appends the literals for the missing arguments.
fn fill_missing(outs: &mut Vec<Expr>, fills: &Vec<Fill>, span: Span)
    ensures
        final(outs)@.len() >= old(outs)@.len(),
        final(outs)@.take(old(outs)@.len() as int) == old(outs)@,
        fills_at(old(outs)@.len(), fills@, span, final(outs)@),
{
    let ghost before = outs@;
    assert(outs@.take(before.len() as int) =~= before);
    while outs.len() < fills.len()
        invariant
            outs@.len() >= before.len(),
            outs@.len() > before.len() ==> outs@.len() <= fills@.len(),
            outs@.take(before.len() as int) == before,
            forall|i: int|
                #![trigger outs@[i]]
                before.len() <= i < outs@.len() ==> is_fill(fills@[i], span, outs@[i]),
        decreases fills@.len() - outs@.len(),
    {
        let k: usize = outs.len();
        let x = literal(&fills[k], span);
        outs.push(x);
        assert(outs@.take(before.len() as int) =~= before);
    }
}

fn step_kind(v: &TExpr, is_inc: bool, is_prefix: bool) -> (r: ExprKind)
    ensures
        r == step_of(*v, is_inc, is_prefix),
{
    match v.kind {
        TExprKind::LocalGet(l) => ExprKind::IncDec { target: LocalId(l.0), is_inc, is_prefix },
        _ => ExprKind::Undefined,
    }
}

fn copy_label(l: &Option<String>) -> (r: Option<String>)
    ensures
        r == *l,
{
    match l {
        Some(s) => Some(s.clone()),
        None => None,
    }
}

struct Lowerer<'a> {
    program: &'a TProgram,
    diagnostics: Vec<Diagnostic>,
}

impl<'a> Lowerer<'a> {
    spec fn p(&self) -> TProgram {
        *self.program
    }

    spec fn told(&self) -> Seq<DiagView> {
        diag_views(self.diagnostics@)
    }

    fn gate(&mut self, span: Span, message: &str)
        ensures
            final(self).program == old(self).program,
            final(self).told() == gate(old(self).told(), span, message@),
    {
        reveal(gate);
        let mut m = message.to_owned();
        push_text(&mut m, " (not yet implemented)");
        let d = Diagnostic::error(ErrorCode(NOT_IMPLEMENTED), m.as_str()).with_span(span);
        proof {
            assert(diag_views(self.diagnostics@.push(d)) =~= diag_views(self.diagnostics@).push(
                d@,
            ));
        }
        self.diagnostics.push(d);
    }

    fn ty(&mut self, t: crate::sema::Ty, span: Span) -> (r: Ty)
        ensures
            final(self).program == old(self).program,
            final(self).told() == ty_gates(old(self).told(), t, span),
            r == ty_of(t),
    {
        if t == crate::sema::Ty::Function {
            self.gate(span, "Function values need closures — Phase 6");
        }
        map_ty(t)
    }

    // --- expressions ----------------------------------------------------------------------

    fn expr(&mut self, e: &TExpr, Ghost(n): Ghost<nat>) -> (r: Expr)
        requires
            expr_ok(old(self).p(), n, *e),
        ensures
            final(self).program == old(self).program,
            final(self).told() == expr_told(old(self).p(), n, old(self).told(), *e),
            expr_to(old(self).p(), n, *e, r),
            r.ty == lowered_ty(*e),
        decreases 2 * n, e, 9nat,
    {
        let span = e.span;
        let ty = self.ty(e.ty, span);
        if let Some(m) = refuse(e) {
            self.gate(span, m);
            return Expr { ty, span, kind: ExprKind::Undefined };
        }
        match &e.kind {
            TExprKind::CallMethod(recv, name, args) => self.method_call(e, ty, Ghost(n)),
            TExprKind::Unary(UnaryOp::Plus, v) => self.expr(v, Ghost(n)),
            _ => {
                let kind = self.kind(e, Ghost(n));
                Expr { ty, span, kind }
            },
        }
    }

    /// The kind of the lowered expression, after its type was looked at.
    fn kind(&mut self, e: &TExpr, Ghost(n): Ghost<nat>) -> (r: ExprKind)
        requires
            expr_ok(old(self).p(), n, *e),
            refused(*e) is None,
            !(e.kind is CallMethod),
            !(e.kind matches TExprKind::Unary(UnaryOp::Plus, _)),
        ensures
            final(self).program == old(self).program,
            forall|ds: Seq<DiagView>|
                old(self).told() == ty_gates(ds, e.ty, e.span) ==> final(self).told()
                    == #[trigger] expr_told(old(self).p(), n, ds, *e),
            kind_to(old(self).p(), n, *e, r),
        decreases 2 * n, e, 8nat,
    {
        match &e.kind {
            TExprKind::CallFn(f, args) => self.call(e, Ghost(n)),
            TExprKind::CallBuiltin(b, args) => {
                let mut outs = self.exprs(args, Ghost(n));
                let (builtin, fills) = map_builtin(*b);
                fill_missing(&mut outs, &fills, e.span);
                ExprKind::CallBuiltin(builtin, outs)
            },
            TExprKind::LocalSet(l, v) => ExprKind::LocalSet(
                LocalId(l.0),
                Box::new(self.expr(v, Ghost(n))),
            ),
            TExprKind::Member(recv, _) => ExprKind::StrLen(Box::new(self.expr(recv, Ghost(n)))),
            TExprKind::Unary(op, v) => self.unary(*op, v, e, Ghost(n)),
            TExprKind::Postfix(op, v) => step_kind(v, *op == PostfixOp::Inc, false),
            TExprKind::Binary(op, l, r) => {
                let a = self.expr(l, Ghost(n));
                let b = self.expr(r, Ghost(n));
                match map_bin_op(*op) {
                    Some(op) => ExprKind::Binary(op, Box::new(a), Box::new(b)),
                    None => ExprKind::Undefined,
                }
            },
            TExprKind::Logical(op, l, r) => {
                let lhs = Box::new(self.expr(l, Ghost(n)));
                let rhs = Box::new(self.expr(r, Ghost(n)));
                ExprKind::Logical { is_and: *op == BinaryOp::LogAnd, lhs, rhs }
            },
            TExprKind::Conditional(c, t, f) => {
                let x = Box::new(self.expr(c, Ghost(n)));
                let y = Box::new(self.expr(t, Ghost(n)));
                let z = Box::new(self.expr(f, Ghost(n)));
                ExprKind::Conditional(x, y, z)
            },
            TExprKind::Comma(l, r) => {
                let a = Box::new(self.expr(l, Ghost(n)));
                let b = Box::new(self.expr(r, Ghost(n)));
                ExprKind::Comma(a, b)
            },
            TExprKind::Is(v, t) => {
                let t = self.ty(*t, e.span);
                ExprKind::Is(Box::new(self.expr(v, Ghost(n))), t)
            },
            TExprKind::As(v, t) => {
                let t = self.ty(*t, e.span);
                ExprKind::As(Box::new(self.expr(v, Ghost(n))), t)
            },
            TExprKind::Coerce(c, v) => {
                proof {
                    reveal(refused);
                }
                let x = Box::new(self.expr(v, Ghost(n)));
                match map_conv(*c, e.ty) {
                    Some(c) => ExprKind::Conv(c, x),
                    None => ExprKind::Undefined,
                }
            },
            _ => self.leaf_kind(e, Ghost(n)),
        }
    }

    fn leaf_kind(&mut self, e: &TExpr, Ghost(n): Ghost<nat>) -> (r: ExprKind)
        requires
            expr_ok(old(self).p(), n, *e),
            refused(*e) is None,
            match e.kind {
                TExprKind::LocalSet(_, _)
                | TExprKind::CallFn(_, _)
                | TExprKind::CallBuiltin(_, _)
                | TExprKind::CallMethod(_, _, _)
                | TExprKind::Member(_, _)
                | TExprKind::Unary(_, _)
                | TExprKind::Postfix(_, _)
                | TExprKind::Binary(_, _, _)
                | TExprKind::Logical(_, _, _)
                | TExprKind::Conditional(_, _, _)
                | TExprKind::Comma(_, _)
                | TExprKind::Is(_, _)
                | TExprKind::As(_, _)
                | TExprKind::Coerce(_, _) => false,
                _ => true,
            },
        ensures
            *final(self) == *old(self),
            leaf(e.kind) == Some(r),
    {
        reveal(refused);
        reveal(leaf);
        match &e.kind {
            TExprKind::Int(v) => ExprKind::Int(*v),
            TExprKind::UInt(v) => ExprKind::UInt(*v),
            TExprKind::Number(v) => ExprKind::Number(*v),
            TExprKind::Str(v) => ExprKind::Str(v.clone()),
            TExprKind::Bool(v) => ExprKind::Bool(*v),
            TExprKind::Null => ExprKind::Null,
            TExprKind::LocalGet(l) => ExprKind::LocalGet(LocalId(l.0)),
            _ => ExprKind::Undefined,
        }
    }

    fn unary(&mut self, op: UnaryOp, v: &TExpr, e: &TExpr, Ghost(n): Ghost<nat>) -> (r: ExprKind)
        requires
            e.kind matches TExprKind::Unary(o, x) && o == op && *x == *v,
            expr_ok(old(self).p(), n, *e),
            refused(*e) is None,
            op != UnaryOp::Plus,
        ensures
            final(self).program == old(self).program,
            forall|ds: Seq<DiagView>|
                old(self).told() == ty_gates(ds, e.ty, e.span) ==> final(self).told()
                    == #[trigger] expr_told(old(self).p(), n, ds, *e),
            kind_to(old(self).p(), n, *e, r),
        decreases 2 * n, e, 7nat,
    {
        match op {
            UnaryOp::Not => ExprKind::Unary(UnOp::Not, Box::new(self.expr(v, Ghost(n)))),
            UnaryOp::BitNot => ExprKind::Unary(UnOp::BitNot, Box::new(self.expr(v, Ghost(n)))),
            UnaryOp::Minus => ExprKind::Unary(UnOp::Neg, Box::new(self.expr(v, Ghost(n)))),
            UnaryOp::Typeof => ExprKind::Unary(UnOp::TypeOf, Box::new(self.expr(v, Ghost(n)))),
            UnaryOp::Void => {
                let a = self.expr(v, Ghost(n));
                let b = Expr { ty: Ty::Any, span: e.span, kind: ExprKind::Undefined };
                ExprKind::Comma(Box::new(a), Box::new(b))
            },
            UnaryOp::PreInc => step_kind(v, true, true),
            UnaryOp::PreDec => step_kind(v, false, true),
            _ => {
                proof {
                    reveal(refused);
                }
                ExprKind::Undefined
            },
        }
    }

    fn exprs(&mut self, es: &Vec<TExpr>, Ghost(n): Ghost<nat>) -> (r: Vec<Expr>)
        requires
            exprs_ok(old(self).p(), n, es@),
        ensures
            final(self).program == old(self).program,
            final(self).told() == exprs_told(
                old(self).p(),
                n,
                old(self).told(),
                es@,
                es@.len(),
            ),
            exprs_to(old(self).p(), n, es@, r@),
            forall|i: int|
                #![trigger r@[i]]
                0 <= i < r@.len() ==> r@[i].ty == lowered_ty(es@[i]),
        decreases 2 * n, es, 0nat,
    {
        let mut outs: Vec<Expr> = Vec::new();
        let mut k: usize = 0;
        while k < es.len()
            invariant
                k <= es@.len(),
                outs@.len() == k,
                self.program == old(self).program,
                exprs_ok(old(self).p(), n, es@),
                self.told() == exprs_told(old(self).p(), n, old(self).told(), es@, k as nat),
                forall|i: int|
                    #![trigger es@[i]]
                    #![trigger outs@[i]]
                    0 <= i < k ==> expr_to(old(self).p(), n, es@[i], outs@[i]) && outs@[i].ty
                        == lowered_ty(es@[i]),
            decreases es@.len() - k,
        {
            assert(decreases_to!(es => es@[k as int]));
            let x = self.expr(&es[k], Ghost(n));
            outs.push(x);
            k = k + 1;
        }
        outs
    }

    /// A call of a function, with defaulted arguments filled in.
    fn call(&mut self, e: &TExpr, Ghost(n): Ghost<nat>) -> (r: ExprKind)
        requires
            e.kind is CallFn,
            expr_ok(old(self).p(), n, *e),
            refused(*e) is None,
        ensures
            final(self).program == old(self).program,
            forall|ds: Seq<DiagView>|
                old(self).told() == ty_gates(ds, e.ty, e.span) ==> final(self).told()
                    == #[trigger] expr_told(old(self).p(), n, ds, *e),
            kind_to(old(self).p(), n, *e, r),
        decreases 2 * n, e, 7nat,
    {
        match &e.kind {
            TExprKind::CallFn(f, args) => {
                let mut outs = self.exprs(args, Ghost(n));
                let ghost given = outs@;
                let program = self.program;
                let callee = &program.functions[f.0 as usize];
                if args.len() < callee.param_count {
                    let mut more = self.defaults(callee, args.len(), Ghost((n - 1) as nat));
                    let ghost m = more@;
                    outs.append(&mut more);
                    assert(outs@.take(given.len() as int) =~= given);
                    assert(outs@.skip(given.len() as int) =~= m);
                } else {
                    assert(outs@.take(given.len() as int) =~= given);
                }
                ExprKind::CallFn(FnId(f.0), outs)
            },
            _ => ExprKind::Undefined,
        }
    }

    /// The defaults of the parameters from `from` on.
    fn defaults(&mut self, f: &TFunction, from: usize, Ghost(n): Ghost<nat>) -> (r: Vec<Expr>)
        requires
            from < f.param_count <= f.locals@.len(),
            fills_ok(old(self).p(), n, *f, from as nat, f.param_count as nat),
        ensures
            final(self).program == old(self).program,
            final(self).told() == fills_told(
                old(self).p(),
                n,
                old(self).told(),
                *f,
                from as nat,
                f.param_count as nat,
            ),
            fills_to(old(self).p(), n, *f, from as nat, f.param_count as nat, r@),
        decreases 2 * n + 1, f, 0nat,
    {
        let mut outs: Vec<Expr> = Vec::new();
        let mut k: usize = from;
        proof {
            assert forall|j: nat| from <= j <= f.param_count implies #[trigger] fills_ok(
                self.p(),
                n,
                *f,
                from as nat,
                j,
            ) by {
                lemma_fills_ok(self.p(), n, *f, from as nat, f.param_count as nat, j);
            }
        }
        while k < f.param_count
            invariant
                from <= k <= f.param_count <= f.locals@.len(),
                self.program == old(self).program,
                forall|j: nat|
                    from <= j <= f.param_count ==> #[trigger] fills_ok(
                        old(self).p(),
                        n,
                        *f,
                        from as nat,
                        j,
                    ),
                self.told() == fills_told(
                    old(self).p(),
                    n,
                    old(self).told(),
                    *f,
                    from as nat,
                    k as nat,
                ),
                fills_to(old(self).p(), n, *f, from as nat, k as nat, outs@),
            decreases f.param_count - k,
        {
            assert(fills_ok(old(self).p(), n, *f, from as nat, (k + 1) as nat));
            let ghost before = outs@;
            if let Some(d) = &f.locals[k].default {
                let x = self.expr(d, Ghost(n));
                outs.push(x);
                assert(outs@.drop_last() =~= before);
            }
            k = k + 1;
        }
        outs
    }

    fn method_call(&mut self, e: &TExpr, ty: Ty, Ghost(n): Ghost<nat>) -> (r: Expr)
        requires
            e.kind is CallMethod,
            ty == ty_of(e.ty),
            expr_ok(old(self).p(), n, *e),
            refused(*e) is None,
        ensures
            final(self).program == old(self).program,
            forall|ds: Seq<DiagView>|
                old(self).told() == ty_gates(ds, e.ty, e.span) ==> final(self).told()
                    == #[trigger] expr_told(old(self).p(), n, ds, *e),
            expr_to(old(self).p(), n, *e, r),
            r.ty == lowered_ty(*e),
        decreases 2 * n, e, 8nat,
    {
        match &e.kind {
            TExprKind::CallMethod(recv, name, args) => {
                let span = e.span;
                let mut outs = self.exprs(args, Ghost(n));
                let (method, fills) = classify(recv.ty, name.as_str());
                match method {
                    Method::Unsupported(m) => {
                        self.gate(span, m);
                        Expr { ty, span, kind: ExprKind::Undefined }
                    },
                    Method::ValueOf => self.expr(recv, Ghost(n)),
                    Method::BoolText => {
                        let x = self.expr(recv, Ghost(n));
                        Expr {
                            ty: Ty::String,
                            span,
                            kind: ExprKind::Conv(Conv::ToString, Box::new(x)),
                        }
                    },
                    Method::Concat => {
                        let first = self.expr(recv, Ghost(n));
                        let r = self.concat(e, first, outs, Ghost(n));
                        assert(expr_to(self.p(), n, *e, r));
                        r
                    },
                    Method::Str(m) => {
                        let ghost given = outs@;
                        fill_missing(&mut outs, &fills, span);
                        assert(filled_to(self.p(), n, args@, str_fills(name@), span, outs@));
                        let x = self.expr(recv, Ghost(n));
                        Expr {
                            ty,
                            span,
                            kind: ExprKind::CallStrMethod(m, Box::new(x), outs),
                        }
                    },
                    Method::Num(m) => {
                        let numbers = to_numbers(
                            outs,
                            &fills,
                            span,
                            Ghost(self.p()),
                            Ghost(n),
                            Ghost(args@),
                            Ghost(name@),
                        );
                        let x = self.expr(recv, Ghost(n));
                        let x = to_number(x, span);
                        assert(number_to(self.p(), n, **recv, span, x));
                        Expr {
                            ty,
                            span,
                            kind: ExprKind::CallNumMethod(m, Box::new(x), numbers),
                        }
                    },
                }
            },
            _ => Expr { ty, span: e.span, kind: ExprKind::Undefined },
        }
    }

    /// `first + arg + arg`.
    fn concat(&self, e: &TExpr, first: Expr, args: Vec<Expr>, Ghost(n): Ghost<nat>) -> (r: Expr)
        requires
            e.kind matches TExprKind::CallMethod(recv, _, es) && expr_to(
                self.p(),
                n,
                *recv,
                first,
            ) && exprs_to(self.p(), n, es@, args@) && first.ty == lowered_ty(*recv) && (forall|
                i: int,
            |
                #![trigger args@[i]]
                0 <= i < args@.len() ==> args@[i].ty == lowered_ty(es@[i])),
        ensures
            concat_to(self.p(), n, *e, args@.len(), r),
            r.ty == (if args@.len() == 0 {
                first.ty
            } else {
                Ty::String
            }),
    {
        let ghost all = args@;
        let mut rest = args;
        let total: usize = rest.len();
        let mut acc = first;
        let mut k: usize = 0;
        while k < total
            invariant
                k <= total == all.len(),
                rest@ == all.skip(k as int),
                e.kind matches TExprKind::CallMethod(recv, _, es) && exprs_to(
                    self.p(),
                    n,
                    es@,
                    all,
                ) && (forall|i: int|
                    #![trigger all[i]]
                    0 <= i < all.len() ==> all[i].ty == lowered_ty(es@[i])),
                concat_to(self.p(), n, *e, k as nat, acc),
                acc.ty == (if k == 0 {
                    first.ty
                } else {
                    Ty::String
                }),
            decreases total - k,
        {
            let arg = rest.remove(0);
            assert(arg == all[k as int]);
            assert(rest@ =~= all.skip(k as int + 1));
            let arg = to_text(arg, e.span);
            proof {
                if let TExprKind::CallMethod(_, _, es) = &e.kind {
                    assert(expr_to(self.p(), n, es@[k as int], all[k as int]));
                    assert(string_to(self.p(), n, es@[k as int], e.span, arg));
                }
            }
            acc = Expr {
                ty: Ty::String,
                span: e.span,
                kind: ExprKind::Binary(BinOp::Add, Box::new(acc), Box::new(arg)),
            };
            k = k + 1;
        }
        acc
    }
}

proof fn lemma_fills_ok(p: TProgram, n: nat, f: TFunction, from: nat, to: nat, j: nat)
    requires
        fills_ok(p, n, f, from, to),
        from <= j <= to <= f.locals@.len(),
    ensures
        fills_ok(p, n, f, from, j),
    decreases to,
{
    if j < to {
        lemma_fills_ok(p, n, f, from, (to - 1) as nat, j);
    }
}

/// The expression, converted to String unless it is one.
fn to_text(e: Expr, span: Span) -> (r: Expr)
    ensures
        e.ty == Ty::String ==> r == e,
        e.ty != Ty::String ==> r == (Expr {
            ty: Ty::String,
            span,
            kind: ExprKind::Conv(Conv::ToString, Box::new(e)),
        }),
{
    if e.ty == Ty::String {
        return e;
    }
    Expr { ty: Ty::String, span, kind: ExprKind::Conv(Conv::ToString, Box::new(e)) }
}

/// The expression, converted to Number unless it is one.
fn to_number(e: Expr, span: Span) -> (r: Expr)
    ensures
        e.ty == Ty::Number ==> r == e,
        e.ty != Ty::Number ==> r == (Expr {
            ty: Ty::Number,
            span,
            kind: ExprKind::Conv(Conv::ToNumber, Box::new(e)),
        }),
{
    if e.ty == Ty::Number {
        return e;
    }
    Expr { ty: Ty::Number, span, kind: ExprKind::Conv(Conv::ToNumber, Box::new(e)) }
}

/// The arguments converted to Number, and the literals for those that are
/// missing.
fn to_numbers(
    args: Vec<Expr>,
    fills: &Vec<Fill>,
    span: Span,
    Ghost(p): Ghost<TProgram>,
    Ghost(n): Ghost<nat>,
    Ghost(es): Ghost<Seq<TExpr>>,
    Ghost(name): Ghost<Seq<char>>,
) -> (r: Vec<Expr>)
    requires
        exprs_to(p, n, es, args@),
        forall|i: int|
            #![trigger args@[i]]
            0 <= i < args@.len() ==> args@[i].ty == lowered_ty(es[i]),
        fills@ == num_fills(name),
    ensures
        numbers_to(p, n, es, num_fills(name), span, r@),
{
    let ghost all = args@;
    let mut rest = args;
    let total: usize = rest.len();
    let mut out: Vec<Expr> = Vec::new();
    let mut k: usize = 0;
    while k < total
        invariant
            k <= total == all.len(),
            total == es.len(),
            rest@ == all.skip(k as int),
            exprs_to(p, n, es, all),
            forall|i: int|
                #![trigger all[i]]
                0 <= i < all.len() ==> all[i].ty == lowered_ty(es[i]),
            out@.len() == k,
            forall|i: int|
                #![trigger es[i]]
                #![trigger out@[i]]
                0 <= i < k ==> number_to(p, n, es[i], span, out@[i]),
        decreases total - k,
    {
        let arg = rest.remove(0);
        assert(arg == all[k as int]);
        assert(rest@ =~= all.skip(k as int + 1));
        let x = to_number(arg, span);
        assert(number_to(p, n, es[k as int], span, x));
        out.push(x);
        k = k + 1;
    }
    let ghost given = out@;
    fill_missing(&mut out, fills, span);
    assert forall|i: int|
        #![trigger es[i]]
        #![trigger out@[i]]
        0 <= i < es.len() implies number_to(p, n, es[i], span, out@[i]) by {
        assert(out@.take(given.len() as int)[i] == given[i]);
    }
    out
}

/// A loop with the label, in place of any it has; another statement as it is.
fn relabel(s: Stmt, label: &String) -> (r: (Stmt, bool))
    ensures
        relabeled(s, *label, r.0),
        r.1 == (s is While || s is DoWhile || s is For),
{
    match s {
        Stmt::While { cond, body, .. } => (
            Stmt::While { label: Some(label.clone()), cond, body },
            true,
        ),
        Stmt::DoWhile { body, cond, .. } => (
            Stmt::DoWhile { label: Some(label.clone()), body, cond },
            true,
        ),
        Stmt::For { init, cond, update, body, .. } => (
            Stmt::For { label: Some(label.clone()), init, cond, update, body },
            true,
        ),
        other => (other, false),
    }
}

impl<'a> Lowerer<'a> {
    // --- statements -----------------------------------------------------------------------

    fn opt_expr(&mut self, e: &Option<TExpr>, Ghost(n): Ghost<nat>) -> (r: Option<Expr>)
        requires
            opt_expr_ok(old(self).p(), n, *e),
        ensures
            final(self).program == old(self).program,
            final(self).told() == opt_expr_told(old(self).p(), n, old(self).told(), *e),
            opt_expr_to(old(self).p(), n, *e, r),
    {
        match e {
            Some(x) => Some(self.expr(x, Ghost(n))),
            None => None,
        }
    }

    fn opt_stmt(&mut self, s: &Option<Box<TStmt>>, Ghost(n): Ghost<nat>) -> (r: Option<
        Box<Stmt>,
    >)
        requires
            opt_stmt_ok(old(self).p(), n, *s),
        ensures
            final(self).program == old(self).program,
            final(self).told() == (match *s {
                Some(x) => stmt_told(old(self).p(), n, old(self).told(), *x),
                None => old(self).told(),
            }),
            opt_stmt_to(old(self).p(), n, *s, r),
        decreases s, 1nat,
    {
        match s {
            Some(x) => Some(Box::new(self.stmt(x, Ghost(n)))),
            None => None,
        }
    }

    fn stmt(&mut self, s: &TStmt, Ghost(n): Ghost<nat>) -> (r: Stmt)
        requires
            stmt_ok(old(self).p(), n, *s),
        ensures
            final(self).program == old(self).program,
            final(self).told() == stmt_told(old(self).p(), n, old(self).told(), *s),
            stmt_to(old(self).p(), n, *s, r),
            (r is While || r is DoWhile || r is For) == is_loop(*s),
        decreases s, 0nat,
    {
        match &s.kind {
            TStmtKind::Expr(e) => Stmt::Expr(self.expr(e, Ghost(n))),
            TStmtKind::Assign(l, e) => Stmt::Assign(LocalId(l.0), self.expr(e, Ghost(n))),
            TStmtKind::Block(b) => Stmt::Block(self.stmts(b, Ghost(n))),
            TStmtKind::If { cond, then_branch, else_branch } => {
                let cond = self.expr(cond, Ghost(n));
                let then_branch = Box::new(self.stmt(then_branch, Ghost(n)));
                let else_branch = self.opt_stmt(else_branch, Ghost(n));
                Stmt::If { cond, then_branch, else_branch }
            },
            TStmtKind::While { cond, body } => {
                let cond = self.expr(cond, Ghost(n));
                let body = Box::new(self.stmt(body, Ghost(n)));
                Stmt::While { label: None, cond, body }
            },
            TStmtKind::DoWhile { body, cond } => {
                let body = Box::new(self.stmt(body, Ghost(n)));
                let cond = self.expr(cond, Ghost(n));
                Stmt::DoWhile { label: None, body, cond }
            },
            TStmtKind::For { init, cond, update, body } => {
                let init = self.opt_stmt(init, Ghost(n));
                let cond = self.opt_expr(cond, Ghost(n));
                let update = self.opt_expr(update, Ghost(n));
                let body = Box::new(self.stmt(body, Ghost(n)));
                Stmt::For { label: None, init, cond, update, body }
            },
            TStmtKind::ForIn { object, .. } => {
                self.gate(object.span, "`for..in`/`for each..in` iteration — Phase 6");
                Stmt::Empty
            },
            TStmtKind::Switch { scrutinee, cases } => {
                let scrutinee = self.expr(scrutinee, Ghost(n));
                let cases = self.cases(cases, Ghost(n));
                Stmt::Switch { scrutinee, cases }
            },
            TStmtKind::Break { label } => Stmt::Break { label: copy_label(label) },
            TStmtKind::Continue { label } => Stmt::Continue { label: copy_label(label) },
            TStmtKind::Return { value } => Stmt::Return { value: self.opt_expr(value, Ghost(n)) },
            TStmtKind::Throw { value } => {
                self.gate(value.span, "`throw`/`try` exceptions — Phase 6");
                Stmt::Empty
            },
            TStmtKind::Try { .. } => {
                self.gate(s.span, "`try`/`catch`/`finally` exceptions — Phase 6");
                Stmt::Empty
            },
            TStmtKind::Labeled { label, body } => {
                let inner = self.stmt(body, Ghost(n));
                let ghost mid = inner;
                let (out, found) = relabel(inner, label);
                if !found {
                    self.gate(s.span, "labels on non-loop statements — Phase 6");
                }
                assert(stmt_to(old(self).p(), n, **body, mid));
                assert(relabeled(mid, *label, out));
                out
            },
            TStmtKind::Empty => Stmt::Empty,
        }
    }

    fn stmts(&mut self, l: &Vec<TStmt>, Ghost(n): Ghost<nat>) -> (r: Vec<Stmt>)
        requires
            stmts_ok(old(self).p(), n, l@),
        ensures
            final(self).program == old(self).program,
            final(self).told() == stmts_told(old(self).p(), n, old(self).told(), l@, l@.len()),
            stmts_to(old(self).p(), n, l@, r@),
        decreases l, 1nat,
    {
        let mut outs: Vec<Stmt> = Vec::new();
        let mut k: usize = 0;
        while k < l.len()
            invariant
                k <= l@.len(),
                outs@.len() == k,
                self.program == old(self).program,
                stmts_ok(old(self).p(), n, l@),
                self.told() == stmts_told(old(self).p(), n, old(self).told(), l@, k as nat),
                forall|i: int|
                    #![trigger l@[i]]
                    #![trigger outs@[i]]
                    0 <= i < k ==> stmt_to(old(self).p(), n, l@[i], outs@[i]),
            decreases l@.len() - k,
        {
            assert(decreases_to!(l => l@[k as int]));
            let x = self.stmt(&l[k], Ghost(n));
            outs.push(x);
            k = k + 1;
        }
        outs
    }

    fn cases(&mut self, l: &Vec<TCase>, Ghost(n): Ghost<nat>) -> (r: Vec<Case>)
        requires
            cases_ok(old(self).p(), n, l@),
        ensures
            final(self).program == old(self).program,
            final(self).told() == cases_told(old(self).p(), n, old(self).told(), l@, l@.len()),
            cases_to(old(self).p(), n, l@, r@),
        decreases l, 1nat,
    {
        let mut outs: Vec<Case> = Vec::new();
        let mut k: usize = 0;
        while k < l.len()
            invariant
                k <= l@.len(),
                outs@.len() == k,
                self.program == old(self).program,
                cases_ok(old(self).p(), n, l@),
                self.told() == cases_told(old(self).p(), n, old(self).told(), l@, k as nat),
                forall|i: int|
                    #![trigger l@[i]]
                    #![trigger outs@[i]]
                    0 <= i < k ==> opt_expr_to(old(self).p(), n, l@[i].test, outs@[i].test)
                        && stmts_to(old(self).p(), n, l@[i].body@, outs@[i].body@),
            decreases l@.len() - k,
        {
            assert(decreases_to!(l => l@[k as int].body));
            let test = self.opt_expr(&l[k].test, Ghost(n));
            let body = self.stmts(&l[k].body, Ghost(n));
            outs.push(Case { test, body });
            k = k + 1;
        }
        outs
    }

    // --- functions ------------------------------------------------------------------------

    fn locals(&mut self, l: &Vec<TLocal>, span: Span) -> (r: Vec<Ty>)
        ensures
            final(self).program == old(self).program,
            final(self).told() == locals_told(old(self).told(), l@, span, l@.len()),
            r@.len() == l@.len(),
            forall|i: int| 0 <= i < l@.len() ==> #[trigger] r@[i] == ty_of(l@[i].ty),
    {
        let mut outs: Vec<Ty> = Vec::new();
        let mut k: usize = 0;
        while k < l.len()
            invariant
                k <= l@.len(),
                outs@.len() == k,
                self.program == old(self).program,
                self.told() == locals_told(old(self).told(), l@, span, k as nat),
                forall|i: int| 0 <= i < k ==> #[trigger] outs@[i] == ty_of(l@[i].ty),
            decreases l@.len() - k,
        {
            let t = self.ty(l[k].ty, span);
            outs.push(t);
            k = k + 1;
        }
        outs
    }

    fn param_defaults(&mut self, f: &TFunction, Ghost(n): Ghost<nat>) -> (r: Vec<Option<Expr>>)
        requires
            function_ok(old(self).p(), n, *f),
        ensures
            final(self).program == old(self).program,
            final(self).told() == defaults_told(
                old(self).p(),
                n,
                old(self).told(),
                f.locals@,
                f.span,
                param_total(*f),
            ),
            r@.len() == param_total(*f),
            forall|i: int|
                #![trigger r@[i]]
                0 <= i < param_total(*f) ==> if f.locals@[i].is_rest {
                    r@[i] is None
                } else {
                    opt_expr_to(old(self).p(), n, f.locals@[i].default, r@[i])
                },
    {
        let total: usize = if f.param_count <= f.locals.len() {
            f.param_count
        } else {
            f.locals.len()
        };
        let mut outs: Vec<Option<Expr>> = Vec::new();
        let mut k: usize = 0;
        while k < total
            invariant
                k <= total == param_total(*f),
                outs@.len() == k,
                self.program == old(self).program,
                function_ok(old(self).p(), n, *f),
                self.told() == defaults_told(
                    old(self).p(),
                    n,
                    old(self).told(),
                    f.locals@,
                    f.span,
                    k as nat,
                ),
                forall|i: int|
                    #![trigger outs@[i]]
                    0 <= i < k ==> if f.locals@[i].is_rest {
                        outs@[i] is None
                    } else {
                        opt_expr_to(old(self).p(), n, f.locals@[i].default, outs@[i])
                    },
            decreases total - k,
        {
            let ghost l = f.locals@[k as int];
            if f.locals[k].is_rest {
                self.gate(f.span, "rest parameters need Array — Phase 5");
                outs.push(None);
            } else {
                let d = self.opt_expr(&f.locals[k].default, Ghost(n));
                outs.push(d);
            }
            k = k + 1;
        }
        outs
    }

    fn function(&mut self, f: &TFunction, Ghost(n): Ghost<nat>) -> (r: Function)
        requires
            function_ok(old(self).p(), n, *f),
        ensures
            final(self).program == old(self).program,
            final(self).told() == function_told(old(self).p(), n, old(self).told(), *f),
            function_to(old(self).p(), n, *f, r),
    {
        let locals = self.locals(&f.locals, f.span);
        let param_defaults = self.param_defaults(f, Ghost(n));
        let ret = self.ty(f.return_ty, f.span);
        let body = self.stmts(&f.body, Ghost(n));
        Function {
            name: f.name.clone(),
            ret,
            locals,
            param_count: f.param_count,
            param_defaults,
            body,
            span: f.span,
            captures: Vec::new(),
            captured: Vec::new(),
            this_class: None,
        }
    }
}

/// Lowers a checked program. The errors are constructs that checking accepts
/// but no backend supports, in source order.
pub fn lower(program: &TProgram) -> (r: Result<Program, Vec<Diagnostic>>)
    requires
        exists|n: nat| program_ok(*program, n),
    ensures
        exists|n: nat| #[trigger]
            program_ok(*program, n) && match r {
                Ok(out) => program_told(*program, n).len() == 0 && program_to(*program, n, out),
                Err(ds) => program_told(*program, n).len() > 0 && diag_views(ds@) == sorted(
                    program_told(*program, n),
                ),
            },
{
    let ghost n = choose|n: nat| program_ok(*program, n);
    let mut lo = Lowerer { program, diagnostics: Vec::new() };
    assert(lo.told() =~= Seq::<DiagView>::empty());
    let mut functions: Vec<Function> = Vec::new();
    let mut k: usize = 0;
    while k < program.functions.len()
        invariant
            k <= program.functions@.len(),
            functions@.len() == k,
            lo.program == program,
            program_ok(*program, n),
            lo.told() == functions_told(*program, n, k as nat),
            forall|i: int|
                #![trigger functions@[i]]
                0 <= i < k ==> function_to(*program, n, program.functions@[i], functions@[i]),
        decreases program.functions@.len() - k,
    {
        let f = lo.function(&program.functions[k], Ghost(n));
        functions.push(f);
        k = k + 1;
    }
    assert(lo.told().len() == lo.diagnostics@.len());
    if lo.diagnostics.len() == 0 {
        Ok(
            Program {
                functions,
                classes: Vec::new(),
                vectors: Vec::new(),
                namespace_uris: Vec::new(),
                error_classes: Vec::new(),
            },
        )
    } else {
        Err(sort_diagnostics(lo.diagnostics))
    }
}

} // verus!
