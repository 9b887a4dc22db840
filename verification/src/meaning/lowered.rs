//! Lowering keeps the meaning.

use vstd::prelude::*;

use crate::ast::nodes::{BinaryOp, UnaryOp};
use crate::lower::rules::{
    bin_op_of, builtin_of, cases_to, concat_to, conv_of, expr_to, exprs_to, filled_to, fills_at,
    fills_to, is_fill, kind_to, leaf, lowered_ty, method_of, num_fills, num_method_of, number_to,
    numbers_to, opt_expr_to, opt_stmt_to, refused, relabeled, stmt_to, stmts_to, str_fills,
    str_method_of, string_to, ty_of, un_op_of, Fill, MAX_INDEX, Method, TEN,
};
use crate::meaning::run::{
    bin_name, bodies, builtin_name, chosen, conv_name, default_of, done, eval, eval_all, exec,
    exec_all, is_primitive, label_of, matching, next_round, num_method_name, rounds,
    str_method_name, tested, ty_name, un_name, Store, Val, World,
};
use crate::meaning::tree::{
    absent_arg, act, act_all, all_meant, cases_meant, clauses, coercion_name, completed,
    completed_builtin, converted, decided, defaults, defaults_meant, fallback, function_name,
    joined, meant, number_method, numbers, opt_meant, picked, prefix, primitive, repeat, sign,
    stmt_meant, stmts_meant, text_method, turns, type_word, value, values,
};
use crate::mir::{BinOp, Case, Expr, Stmt, Ty};
use crate::sema::{
    BuiltinFn, Coercion, TCase, TExpr, TExprKind, TFunction, TProgram, TStmt, TStmtKind,
};
use crate::span::Span;

verus! {

// --- names --------------------------------------------------------------------------------

/// Lowering takes each operator, each type and each builtin to the one of the same
/// name.
pub proof fn law_names_are_kept(
    b: BinaryOp,
    u: UnaryOp,
    t: crate::sema::Ty,
    c: Coercion,
    f: BuiltinFn,
)
    ensures
        bin_op_of(b) matches Some(m) ==> bin_name(m) == sign(b),
        bin_op_of(b) is None <==> b == BinaryOp::In || b == BinaryOp::Instanceof || b
            == BinaryOp::Is || b == BinaryOp::As || b == BinaryOp::LogAnd || b == BinaryOp::LogOr,
        un_op_of(u) matches Some(m) ==> un_name(m) == prefix(u),
        un_op_of(u) is Some <==> u == UnaryOp::Not || u == UnaryOp::BitNot || u == UnaryOp::Minus
            || u == UnaryOp::Typeof,
        ty_name(ty_of(t)) == type_word(t),
        is_primitive(ty_of(t)) == primitive(t),
        conv_of(c, t) matches Some(m) ==> conv_name(m) == coercion_name(c, t),
        conv_of(c, t) is Some <==> (c == Coercion::FromAny ==> t == crate::sema::Ty::String),
        builtin_name(builtin_of(f).0) == function_name(f),
{
    if c == Coercion::FromAny && t == crate::sema::Ty::String {
        reveal_strlit("* as ");
        reveal_strlit("String");
        reveal_strlit("* as String");
        assert("* as "@ + "String"@ =~= "* as String"@);
    }
}

/// Two operators of the tree that are lowered to one are the same.
pub proof fn law_operators_stay_apart(a: BinaryOp, b: BinaryOp)
    requires
        bin_op_of(a) is Some,
        bin_op_of(a) == bin_op_of(b),
    ensures
        a == b,
{
}

/// What an operator makes of two whole numbers, where that is a whole number or a
/// truth value.
pub open spec fn on_integers(op: BinaryOp, x: int, y: int) -> Option<Val> {
    match op {
        BinaryOp::Add => Some(Val::Int(x + y)),
        BinaryOp::Sub => Some(Val::Int(x - y)),
        BinaryOp::Mul => Some(Val::Int(x * y)),
        BinaryOp::Lt => Some(Val::Bool(x < y)),
        BinaryOp::Gt => Some(Val::Bool(x > y)),
        BinaryOp::Le => Some(Val::Bool(x <= y)),
        BinaryOp::Ge => Some(Val::Bool(x >= y)),
        BinaryOp::Eq | BinaryOp::StrictEq => Some(Val::Bool(x == y)),
        BinaryOp::Ne | BinaryOp::StrictNe => Some(Val::Bool(x != y)),
        _ => None,
    }
}

/// What an operator of the IR makes of two whole numbers.
pub open spec fn on_lowered_integers(op: BinOp, x: int, y: int) -> Option<Val> {
    match op {
        BinOp::Lt => Some(Val::Bool(x < y)),
        BinOp::Le => Some(Val::Bool(x < y || x == y)),
        BinOp::Gt => Some(Val::Bool(y < x)),
        BinOp::Ge => Some(Val::Bool(y < x || x == y)),
        BinOp::Eq | BinOp::StrictEq => Some(Val::Bool(x == y)),
        BinOp::Ne | BinOp::StrictNe => Some(Val::Bool(!(x == y))),
        BinOp::Add => Some(Val::Int(y + x)),
        BinOp::Sub => Some(Val::Int(-y + x)),
        BinOp::Mul => Some(Val::Int(y * x)),
        _ => None,
    }
}

/// On whole numbers an operator and the one that it is lowered to agree.
pub proof fn law_integer_operators_are_kept(op: BinaryOp, x: int, y: int)
    requires
        bin_op_of(op) is Some,
    ensures
        on_lowered_integers(bin_op_of(op)->0, x, y) == on_integers(op, x, y),
{
    assert(y * x == x * y) by (nonlinear_arith);
}

/// The double with the bits is the whole number: its fraction, with the leading one,
/// is the number times a power of two, and its exponent says which.
pub open spec fn is_whole(bits: u64, n: int, power: int) -> bool {
    let exponent = bits as int / 0x10_0000_0000_0000;
    let fraction = bits as int % 0x10_0000_0000_0000;
    0x10_0000_0000_0000 + fraction == n * power && pow2(1075 - exponent) == power
}

pub open spec fn pow2(k: int) -> int
    decreases k,
{
    if k <= 0 {
        1
    } else {
        2 * pow2(k - 1)
    }
}

proof fn lemma_pow2()
    ensures
        pow2(22) == 0x40_0000,
        pow2(49) == 0x2_0000_0000_0000,
{
    reveal_with_fuel(pow2, 50);
}

/// The literals for missing arguments are the numbers that they are named for: the
/// largest position is the largest 32-bit integer, and the radix is ten.
pub proof fn law_filled_numbers_are_exact()
    ensures
        is_whole(MAX_INDEX, 0x7FFF_FFFF, 0x40_0000),
        is_whole(TEN, 10, 0x2_0000_0000_0000),
{
    lemma_pow2();
}

// --- expressions --------------------------------------------------------------------------

/// The lowered expression is of the type and has the value of the one of the tree,
/// in every state, with every effect.
pub open spec fn agrees(w: World, p: TProgram, n: nat, e: TExpr, out: Expr) -> bool {
    &&& out.ty == ty_of(e.ty)
    &&& forall|s: Store| #[trigger] eval(w, out, s) == value(w, p, n, e, s)
}

/// What has a meaning is not refused.
proof fn lemma_not_refused(p: TProgram, n: nat, e: TExpr)
    requires
        meant(p, n, e),
    ensures
        refused(e) is None,
        lowered_ty(e) == ty_of(e.ty),
    decreases e,
{
    reveal(refused);
    match e.kind {
        TExprKind::Unary(UnaryOp::Plus, v) => lemma_not_refused(p, n, *v),
        TExprKind::CallMethod(v, name, args) => {
            reveal(method_of);
            reveal(str_method_of);
            reveal(num_method_of);
            lemma_not_refused(p, n, *v);
        },
        _ => {},
    }
}

proof fn lemma_expr(w: World, p: TProgram, n: nat, e: TExpr, out: Expr)
    requires
        meant(p, n, e),
        expr_to(p, n, e, out),
    ensures
        agrees(w, p, n, e, out),
    decreases 2 * n, e, 2nat,
{
    lemma_not_refused(p, n, e);
    match e.kind {
        TExprKind::Unary(UnaryOp::Plus, v) => {
            lemma_expr(w, p, n, *v, out);
            assert forall|s: Store| #[trigger] eval(w, out, s) == value(w, p, n, e, s) by {}
        },
        TExprKind::CallMethod(..) => lemma_method(w, p, n, e, out),
        TExprKind::CallFn(..) => lemma_call(w, p, n, e, out),
        TExprKind::CallBuiltin(..) => lemma_builtin(w, p, n, e, out),
        _ => lemma_plain(w, p, n, e, out),
    }
}

proof fn lemma_plain(w: World, p: TProgram, n: nat, e: TExpr, out: Expr)
    requires
        meant(p, n, e),
        expr_to(p, n, e, out),
        !(e.kind is CallMethod) && !(e.kind is CallFn) && !(e.kind is CallBuiltin),
        !(e.kind matches TExprKind::Unary(UnaryOp::Plus, _)),
    ensures
        agrees(w, p, n, e, out),
    decreases 2 * n, e, 1nat,
{
    lemma_not_refused(p, n, e);
    assert(out.ty == ty_of(e.ty) && kind_to(p, n, e, out.kind));
    law_names_are_kept(BinaryOp::Add, UnaryOp::Not, e.ty, Coercion::ToInt, BuiltinFn::Trace);
    match e.kind {
        TExprKind::LocalSet(_, v) => {
            lemma_expr(w, p, n, *v, *out.kind->LocalSet_1);
            assert forall|s: Store| #[trigger] eval(w, out, s) == value(w, p, n, e, s) by {
                assert(eval(w, *out.kind->LocalSet_1, s) == value(w, p, n, *v, s));
            }
        },
        TExprKind::Unary(op, v) => {
            law_names_are_kept(BinaryOp::Add, op, v.ty, Coercion::ToInt, BuiltinFn::Trace);
            match op {
                UnaryOp::PreInc | UnaryOp::PreDec => {
                    assert forall|s: Store| #[trigger] eval(w, out, s) == value(
                        w,
                        p,
                        n,
                        e,
                        s,
                    ) by {}
                },
                UnaryOp::Void => {
                    let (a, b) = (*out.kind->Comma_0, *out.kind->Comma_1);
                    lemma_expr(w, p, n, *v, a);
                    assert forall|s: Store| #[trigger] eval(w, out, s) == value(
                        w,
                        p,
                        n,
                        e,
                        s,
                    ) by {
                        let s1 = eval(w, a, s).0;
                        assert(eval(w, b, s1) == (s1, Val::Undefined));
                    }
                },
                _ => {
                    let a = *out.kind->Unary_1;
                    lemma_expr(w, p, n, *v, a);
                    assert forall|s: Store| #[trigger] eval(w, out, s) == value(
                        w,
                        p,
                        n,
                        e,
                        s,
                    ) by {
                        assert(eval(w, a, s) == value(w, p, n, *v, s));
                    }
                },
            }
        },
        TExprKind::Binary(op, l, r) => {
            law_names_are_kept(op, UnaryOp::Not, l.ty, Coercion::ToInt, BuiltinFn::Trace);
            law_names_are_kept(op, UnaryOp::Not, r.ty, Coercion::ToInt, BuiltinFn::Trace);
            let (a, b) = (*out.kind->Binary_1, *out.kind->Binary_2);
            lemma_expr(w, p, n, *l, a);
            lemma_expr(w, p, n, *r, b);
            assert forall|s: Store| #[trigger] eval(w, out, s) == value(w, p, n, e, s) by {
                let s1 = eval(w, a, s).0;
                assert(eval(w, b, s1) == value(w, p, n, *r, s1));
            }
        },
        TExprKind::Logical(_, l, r) => {
            let (a, b) = (*out.kind->Logical_lhs, *out.kind->Logical_rhs);
            lemma_expr(w, p, n, *l, a);
            lemma_expr(w, p, n, *r, b);
            assert forall|s: Store| #[trigger] eval(w, out, s) == value(w, p, n, e, s) by {
                let s1 = eval(w, a, s).0;
                assert(eval(w, b, s1) == value(w, p, n, *r, s1));
            }
        },
        TExprKind::Conditional(x, y, z) => {
            let (a, b, c) = (
                *out.kind->Conditional_0,
                *out.kind->Conditional_1,
                *out.kind->Conditional_2,
            );
            lemma_expr(w, p, n, *x, a);
            lemma_expr(w, p, n, *y, b);
            lemma_expr(w, p, n, *z, c);
            assert forall|s: Store| #[trigger] eval(w, out, s) == value(w, p, n, e, s) by {
                let s1 = eval(w, a, s).0;
                assert(eval(w, b, s1) == value(w, p, n, *y, s1));
                assert(eval(w, c, s1) == value(w, p, n, *z, s1));
            }
        },
        TExprKind::Comma(l, r) => {
            let (a, b) = (*out.kind->Comma_0, *out.kind->Comma_1);
            lemma_expr(w, p, n, *l, a);
            lemma_expr(w, p, n, *r, b);
            assert forall|s: Store| #[trigger] eval(w, out, s) == value(w, p, n, e, s) by {
                let s1 = eval(w, a, s).0;
                assert(eval(w, b, s1) == value(w, p, n, *r, s1));
            }
        },
        TExprKind::Is(v, t) => {
            law_names_are_kept(BinaryOp::Add, UnaryOp::Not, t, Coercion::ToInt, BuiltinFn::Trace);
            let a = *out.kind->Is_0;
            lemma_expr(w, p, n, *v, a);
            assert forall|s: Store| #[trigger] eval(w, out, s) == value(w, p, n, e, s) by {
                assert(eval(w, a, s) == value(w, p, n, *v, s));
            }
        },
        TExprKind::As(v, t) => {
            law_names_are_kept(BinaryOp::Add, UnaryOp::Not, t, Coercion::ToInt, BuiltinFn::Trace);
            let a = *out.kind->As_0;
            lemma_expr(w, p, n, *v, a);
            assert forall|s: Store| #[trigger] eval(w, out, s) == value(w, p, n, e, s) by {
                assert(eval(w, a, s) == value(w, p, n, *v, s));
            }
        },
        TExprKind::Coerce(c, v) => {
            law_names_are_kept(BinaryOp::Add, UnaryOp::Not, e.ty, c, BuiltinFn::Trace);
            law_names_are_kept(BinaryOp::Add, UnaryOp::Not, v.ty, c, BuiltinFn::Trace);
            let a = *out.kind->Conv_1;
            lemma_expr(w, p, n, *v, a);
            assert forall|s: Store| #[trigger] eval(w, out, s) == value(w, p, n, e, s) by {
                assert(eval(w, a, s) == value(w, p, n, *v, s));
            }
        },
        TExprKind::Member(v, _) => {
            let a = *out.kind->StrLen_0;
            lemma_expr(w, p, n, *v, a);
            assert forall|s: Store| #[trigger] eval(w, out, s) == value(w, p, n, e, s) by {
                assert(eval(w, a, s) == value(w, p, n, *v, s));
            }
        },
        TExprKind::Postfix(..) => {
            assert forall|s: Store| #[trigger] eval(w, out, s) == value(w, p, n, e, s) by {}
        },
        _ => {
            reveal(leaf);
            assert forall|s: Store| #[trigger] eval(w, out, s) == value(w, p, n, e, s) by {}
        },
    }
}

// --- lists --------------------------------------------------------------------------------

proof fn lemma_values(
    w: World,
    p: TProgram,
    n: nat,
    es: Seq<TExpr>,
    outs: Seq<Expr>,
    k: nat,
    s: Store,
)
    requires
        k <= es.len() <= outs.len(),
        all_meant(p, n, es),
        forall|i: int| 0 <= i < es.len() ==> expr_to(p, n, #[trigger] es[i], outs[i]),
    ensures
        eval_all(w, outs, k, s) == values(w, p, n, es, k, s),
        values(w, p, n, es, k, s).1.len() == k,
    decreases 2 * n, es, k,
{
    if k > 0 {
        lemma_values(w, p, n, es, outs, (k - 1) as nat, s);
        assert(meant(p, n, es[k - 1]));
        assert(expr_to(p, n, es[k - 1], outs[k - 1]));
        lemma_expr(w, p, n, es[k - 1], outs[k - 1]);
        let s1 = values(w, p, n, es, (k - 1) as nat, s).0;
        assert(eval(w, outs[k - 1], s1) == value(w, p, n, es[k - 1], s1));
    }
}

/// The literal that a fill stands for.
spec fn filled_val(f: Fill) -> Val {
    match f {
        Fill::Num(v) => Val::Double(v),
        Fill::Int(v) => Val::Int(v as int),
        Fill::Str(t) => Val::Text(t@),
    }
}

/// Behind the arguments come the literals for the missing ones.
proof fn lemma_fills(
    w: World,
    outs: Seq<Expr>,
    fills: Seq<Fill>,
    span: Span,
    from: nat,
    k: nat,
    s: Store,
)
    requires
        from <= k <= outs.len(),
        fills_at(from, fills, span, outs),
        eval_all(w, outs, from, s).1.len() == from,
        eval_all(w, outs, from, s).0.runs(),
    ensures
        eval_all(w, outs, k, s).0 == eval_all(w, outs, from, s).0,
        eval_all(w, outs, k, s).1 == eval_all(w, outs, from, s).1 + Seq::new(
            (k - from) as nat,
            |i: int| filled_val(fills[from + i]),
        ),
    decreases k,
{
    let all = eval_all(w, outs, k, s).1;
    let front = eval_all(w, outs, from, s).1;
    if k > from {
        lemma_fills(w, outs, fills, span, from, (k - 1) as nat, s);
        assert(is_fill(fills[k - 1], span, outs[k - 1]));
        let s1 = eval_all(w, outs, (k - 1) as nat, s).0;
        assert(eval(w, outs[k - 1], s1) == (s1, filled_val(fills[k - 1])));
    }
    assert(all =~= front + Seq::new((k - from) as nat, |i: int| filled_val(fills[from + i])));
}

/// After a list control is where it was after its front, once it has left.
proof fn lemma_gone(w: World, outs: Seq<Expr>, from: nat, k: nat, s: Store)
    requires
        from <= k <= outs.len(),
        !eval_all(w, outs, from, s).0.runs(),
    ensures
        eval_all(w, outs, k, s).0 == eval_all(w, outs, from, s).0,
    decreases k,
{
    if k > from {
        lemma_gone(w, outs, from, (k - 1) as nat, s);
        let s1 = eval_all(w, outs, (k - 1) as nat, s).0;
        assert(eval(w, outs[k - 1], s1) == (s1, Val::Undefined));
        assert(eval_all(w, outs, k, s).0 == eval(w, outs[k - 1], s1).0);
    }
}

proof fn lemma_builtin(w: World, p: TProgram, n: nat, e: TExpr, out: Expr)
    requires
        meant(p, n, e),
        expr_to(p, n, e, out),
        e.kind is CallBuiltin,
    ensures
        agrees(w, p, n, e, out),
    decreases 2 * n, e, 1nat,
{
    lemma_not_refused(p, n, e);
    let (b, args) = (e.kind->CallBuiltin_0, e.kind->CallBuiltin_1);
    assert(out.ty == ty_of(e.ty) && kind_to(p, n, e, out.kind));
    let outs = out.kind->CallBuiltin_1@;
    let m = args@.len();
    let fills = builtin_of(b).1;
    law_names_are_kept(BinaryOp::Add, UnaryOp::Not, e.ty, Coercion::ToInt, b);
    assert(filled_to(p, n, args@, fills, e.span, outs));
    lemma_front(p, n, args@, outs);
    assert forall|s: Store| #[trigger] eval(w, out, s) == value(w, p, n, e, s) by {
        if s.runs() {
            lemma_values(w, p, n, args@, outs, m, s);
            let (s1, xs) = values(w, p, n, args@, m, s);
            let (s2, ys) = eval_all(w, outs, outs.len(), s);
            if s1.runs() {
                lemma_fills(w, outs, fills, e.span, m, outs.len(), s);
                assert(ys =~= completed_builtin(b, xs));
            } else {
                lemma_gone(w, outs, m, outs.len(), s);
            }
        }
    }
}

proof fn lemma_front(p: TProgram, n: nat, es: Seq<TExpr>, outs: Seq<Expr>)
    requires
        es.len() <= outs.len(),
        exprs_to(p, n, es, outs.take(es.len() as int)),
    ensures
        forall|i: int| 0 <= i < es.len() ==> expr_to(p, n, #[trigger] es[i], outs[i]),
{
    let front = outs.take(es.len() as int);
    assert forall|i: int| 0 <= i < es.len() implies expr_to(p, n, #[trigger] es[i], outs[i]) by {
        assert(expr_to(p, n, es[i], front[i]));
    }
}

// --- calls --------------------------------------------------------------------------------

/// The list from `from` on, evaluated after its front.
proof fn lemma_cut(w: World, outs: Seq<Expr>, from: nat, k: nat, s: Store)
    requires
        from <= k <= outs.len(),
        eval_all(w, outs, from, s).1.len() == from,
    ensures
        ({
            let (s1, xs) = eval_all(w, outs, from, s);
            let (s2, ys) = eval_all(w, outs.skip(from as int), (k - from) as nat, s1);
            eval_all(w, outs, k, s) == (s2, xs + ys)
        }),
    decreases k,
{
    let (s1, xs) = eval_all(w, outs, from, s);
    let rest = outs.skip(from as int);
    if k > from {
        lemma_cut(w, outs, from, (k - 1) as nat, s);
        let (s2, ys) = eval_all(w, rest, (k - from) as nat, s1);
        let (s3, zs) = eval_all(w, rest, (k - from - 1) as nat, s1);
        assert(rest[k - from - 1] == outs[k - 1]);
        let x = eval(w, outs[k - 1], s3).1;
        assert((xs + zs).push(x) =~= xs + zs.push(x));
    } else {
        assert(xs + Seq::<Val>::empty() =~= xs);
    }
}

proof fn lemma_defaults(
    w: World,
    p: TProgram,
    n: nat,
    f: TFunction,
    from: nat,
    to: nat,
    outs: Seq<Expr>,
    s: Store,
)
    requires
        defaults_meant(p, n, f, from, to),
        fills_to(p, n, f, from, to, outs),
    ensures
        eval_all(w, outs, outs.len(), s) == defaults(w, p, n, f, from, to, s),
    decreases 2 * n + 1, f, to,
{
    if from < to <= f.locals@.len() {
        match f.locals@[to - 1].default {
            Some(d) => {
                let front = outs.drop_last();
                lemma_defaults(w, p, n, f, from, (to - 1) as nat, front, s);
                lemma_same_front(w, front, outs, front.len(), s);
                lemma_expr(w, p, n, d, outs.last());
                let s1 = eval_all(w, front, front.len(), s).0;
                assert(eval(w, outs.last(), s1) == value(w, p, n, d, s1));
            },
            None => lemma_defaults(w, p, n, f, from, (to - 1) as nat, outs, s),
        }
    }
}

proof fn lemma_same_front(w: World, a: Seq<Expr>, b: Seq<Expr>, k: nat, s: Store)
    requires
        k <= a.len() <= b.len(),
        forall|i: int| 0 <= i < k ==> a[i] == b[i],
    ensures
        eval_all(w, a, k, s) == eval_all(w, b, k, s),
    decreases k,
{
    if k > 0 {
        lemma_same_front(w, a, b, (k - 1) as nat, s);
    }
}

proof fn lemma_call(w: World, p: TProgram, n: nat, e: TExpr, out: Expr)
    requires
        meant(p, n, e),
        expr_to(p, n, e, out),
        e.kind is CallFn,
    ensures
        agrees(w, p, n, e, out),
    decreases 2 * n, e, 1nat,
{
    lemma_not_refused(p, n, e);
    let (f, args) = (e.kind->CallFn_0, e.kind->CallFn_1);
    assert(out.ty == ty_of(e.ty) && kind_to(p, n, e, out.kind));
    let outs = out.kind->CallFn_1@;
    let m = args@.len();
    let callee = p.functions@[f.0 as int];
    lemma_front(p, n, args@, outs);
    assert forall|s: Store| #[trigger] eval(w, out, s) == value(w, p, n, e, s) by {
        if s.runs() {
            lemma_values(w, p, n, args@, outs, m, s);
            let (s1, xs) = values(w, p, n, args@, m, s);
            if n > 0 && m < callee.param_count {
                lemma_cut(w, outs, m, outs.len(), s);
                lemma_defaults(
                    w,
                    p,
                    (n - 1) as nat,
                    callee,
                    m,
                    callee.param_count as nat,
                    outs.skip(m as int),
                    s1,
                );
            } else {
                assert(xs + Seq::<Val>::empty() =~= xs);
            }
        }
    }
}

// --- methods ------------------------------------------------------------------------------

/// A String method is lowered to the one of its name, and the literals for its
/// missing arguments are those that stand for them.
proof fn lemma_text_method(name: Seq<char>)
    requires
        text_method(name) is Some,
    ensures
        str_method_of(name) matches Some((m, fills)) && str_method_name(m) == name && fills.len()
            == (text_method(name)->0).len() && forall|i: int|
            0 <= i < fills.len() ==> filled_val(#[trigger] fills[i]) == absent_arg(
                (text_method(name)->0)[i],
            ),
{
    reveal(str_method_of);
}

proof fn lemma_number_method(name: Seq<char>)
    requires
        number_method(name) is Some,
    ensures
        num_method_of(name) matches Some((m, fills)) && num_method_name(m) == name && fills.len()
            == (number_method(name)->0).len() && forall|i: int|
            0 <= i < fills.len() ==> filled_val(#[trigger] fills[i]) == absent_arg(
                (number_method(name)->0)[i],
            ),
{
    reveal(num_method_of);
}

/// The expression converted to Number or String, where it is not one already.
proof fn lemma_converted(
    w: World,
    p: TProgram,
    n: nat,
    e: TExpr,
    span: Span,
    out: Expr,
    number: bool,
)
    requires
        meant(p, n, e),
        number ==> number_to(p, n, e, span, out),
        !number ==> string_to(p, n, e, span, out),
    ensures
        out.ty == (if number {
            Ty::Number
        } else {
            Ty::String
        }),
        forall|s: Store|
            #![trigger eval(w, out, s)]
            ({
                let (s1, x) = value(w, p, n, e, s);
                let to = if number {
                    crate::sema::Ty::Number
                } else {
                    crate::sema::Ty::String
                };
                eval(w, out, s) == converted(w, x, e.ty, to, s1)
            }),
    decreases 2 * n, e, 3nat,
{
    lemma_not_refused(p, n, e);
    law_names_are_kept(BinaryOp::Add, UnaryOp::Not, e.ty, Coercion::ToInt, BuiltinFn::Trace);
    if lowered_ty(e) == (if number {
        Ty::Number
    } else {
        Ty::String
    }) {
        lemma_expr(w, p, n, e, out);
    } else {
        let a = *out.kind->Conv_1;
        lemma_expr(w, p, n, e, a);
        assert forall|s: Store|
            #![trigger eval(w, out, s)]
            ({
                let (s1, x) = value(w, p, n, e, s);
                let to = if number {
                    crate::sema::Ty::Number
                } else {
                    crate::sema::Ty::String
                };
                eval(w, out, s) == converted(w, x, e.ty, to, s1)
            }) by {
            assert(eval(w, a, s) == value(w, p, n, e, s));
        }
    }
}

proof fn lemma_numbers(
    w: World,
    p: TProgram,
    n: nat,
    es: Seq<TExpr>,
    outs: Seq<Expr>,
    span: Span,
    k: nat,
    s: Store,
)
    requires
        k <= es.len() <= outs.len(),
        all_meant(p, n, es),
        forall|i: int| 0 <= i < es.len() ==> number_to(p, n, #[trigger] es[i], span, outs[i]),
    ensures
        eval_all(w, outs, k, s) == numbers(w, p, n, es, k, s),
        numbers(w, p, n, es, k, s).1.len() == k,
    decreases 2 * n, es, k,
{
    if k > 0 {
        lemma_numbers(w, p, n, es, outs, span, (k - 1) as nat, s);
        assert(meant(p, n, es[k - 1]));
        assert(number_to(p, n, es[k - 1], span, outs[k - 1]));
        lemma_converted(w, p, n, es[k - 1], span, outs[k - 1], true);
        let s1 = numbers(w, p, n, es, (k - 1) as nat, s).0;
        let r = eval(w, outs[k - 1], s1);
    }
}

proof fn lemma_concat(w: World, p: TProgram, n: nat, e: TExpr, k: nat, out: Expr, s: Store)
    requires
        e.kind matches TExprKind::CallMethod(v, _, args) && v.ty == crate::sema::Ty::String
            && meant(p, n, *v) && all_meant(p, n, args@) && k <= args@.len(),
        concat_to(p, n, e, k, out),
    ensures
        out.ty == Ty::String,
        eval(w, out, s) == joined(w, p, n, e, k, s),
    decreases 2 * n, e, 0nat, k,
{
    let (v, args) = (e.kind->CallMethod_0, e.kind->CallMethod_2);
    if k > 0 {
        let (a, b) = (*out.kind->Binary_1, *out.kind->Binary_2);
        lemma_concat(w, p, n, e, (k - 1) as nat, a, s);
        assert(meant(p, n, args@[k - 1]));
        lemma_converted(w, p, n, args@[k - 1], e.span, b, false);
        let s1 = joined(w, p, n, e, (k - 1) as nat, s).0;
        let r = eval(w, b, s1);
        if !s.runs() {
            lemma_joined_gone(w, p, n, e, k, s);
        }
    } else {
        lemma_expr(w, p, n, *v, out);
    }
}

proof fn lemma_joined_gone(w: World, p: TProgram, n: nat, e: TExpr, k: nat, s: Store)
    requires
        !s.runs(),
    ensures
        joined(w, p, n, e, k, s) == (s, Val::Undefined),
    decreases k,
{
    match e.kind {
        TExprKind::CallMethod(v, _, args) => if 0 < k <= args@.len() {
            lemma_joined_gone(w, p, n, e, (k - 1) as nat, s);
            assert(value(w, p, n, args@[k - 1], s) == (s, Val::Undefined));
        } else {
            assert(value(w, p, n, *v, s) == (s, Val::Undefined));
        },
        _ => {},
    }
}

proof fn lemma_method(w: World, p: TProgram, n: nat, e: TExpr, out: Expr)
    requires
        meant(p, n, e),
        expr_to(p, n, e, out),
        e.kind is CallMethod,
    ensures
        agrees(w, p, n, e, out),
    decreases 2 * n, e, 1nat,
{
    lemma_not_refused(p, n, e);
    reveal(method_of);
    let (v, name, args) = (e.kind->CallMethod_0, e.kind->CallMethod_1, e.kind->CallMethod_2);
    let m = args@.len();
    law_names_are_kept(BinaryOp::Add, UnaryOp::Not, v.ty, Coercion::ToInt, BuiltinFn::Trace);
    match method_of(v.ty, name@) {
        Method::Concat => {
            assert forall|s: Store| #[trigger] eval(w, out, s) == value(w, p, n, e, s) by {
                lemma_concat(w, p, n, e, m, out, s);
            }
            lemma_concat(w, p, n, e, m, out, arbitrary());
        },
        Method::ValueOf => {
            lemma_expr(w, p, n, *v, out);
            assert forall|s: Store| #[trigger] eval(w, out, s) == value(w, p, n, e, s) by {}
        },
        Method::BoolText => {
            let a = *out.kind->Conv_1;
            lemma_expr(w, p, n, *v, a);
            assert forall|s: Store| #[trigger] eval(w, out, s) == value(w, p, n, e, s) by {
                assert(eval(w, a, s) == value(w, p, n, *v, s));
            }
        },
        Method::Str(_) => {
            lemma_text_method(name@);
            let a = *out.kind->CallStrMethod_1;
            let outs = out.kind->CallStrMethod_2@;
            let fills = str_fills(name@);
            assert(filled_to(p, n, args@, fills, e.span, outs));
            lemma_expr(w, p, n, *v, a);
            lemma_front(p, n, args@, outs);
            assert forall|s: Store| #[trigger] eval(w, out, s) == value(w, p, n, e, s) by {
                if s.runs() {
                    let (s1, x) = eval(w, a, s);
                    lemma_values(w, p, n, args@, outs, m, s1);
                    let (s2, xs) = values(w, p, n, args@, m, s1);
                    let ys = eval_all(w, outs, outs.len(), s1).1;
                    if s2.runs() {
                        lemma_fills(w, outs, fills, e.span, m, outs.len(), s1);
                        assert(ys =~= completed(xs, text_method(name@)->0));
                    } else {
                        lemma_gone(w, outs, m, outs.len(), s1);
                    }
                }
            }
        },
        Method::Num(_) => {
            lemma_number_method(name@);
            let a = *out.kind->CallNumMethod_1;
            let outs = out.kind->CallNumMethod_2@;
            let fills = num_fills(name@);
            assert(number_to(p, n, *v, e.span, a));
            assert(numbers_to(p, n, args@, fills, e.span, outs));
            lemma_converted(w, p, n, *v, e.span, a, true);
            assert forall|s: Store| #[trigger] eval(w, out, s) == value(w, p, n, e, s) by {
                if s.runs() {
                    let (s1, x) = eval(w, a, s);
                    lemma_numbers(w, p, n, args@, outs, e.span, m, s1);
                    let (s2, xs) = numbers(w, p, n, args@, m, s1);
                    let ys = eval_all(w, outs, outs.len(), s1).1;
                    if s2.runs() {
                        lemma_fills(w, outs, fills, e.span, m, outs.len(), s1);
                        assert(ys =~= completed(xs, number_method(name@)->0));
                    } else {
                        lemma_gone(w, outs, m, outs.len(), s1);
                    }
                }
            }
        },
        Method::Unsupported(_) => {
            reveal(str_method_of);
            reveal(num_method_of);
        },
    }
}

/// A lowered expression means what the one of the tree does: in every state it has
/// the same value and the same effects, whatever the operations yield and whatever
/// other code does.
pub proof fn law_lowered_expressions_mean_the_same(
    w: World,
    p: TProgram,
    n: nat,
    e: TExpr,
    out: Expr,
    s: Store,
)
    requires
        meant(p, n, e),
        expr_to(p, n, e, out),
    ensures
        out.ty == ty_of(e.ty),
        eval(w, out, s) == value(w, p, n, e, s),
{
    lemma_expr(w, p, n, e, out);
}

// --- statements ---------------------------------------------------------------------------

/// The loop is lowered to the one with the label.
spec fn loop_to(p: TProgram, n: nat, st: TStmt, label: Option<Seq<char>>, out: Stmt) -> bool {
    match st.kind {
        TStmtKind::While { cond, body } => {
            &&& out matches Stmt::While { label: l, cond: c, body: b }
            &&& label_of(l) == label
            &&& expr_to(p, n, cond, c)
            &&& stmt_to(p, n, *body, *b)
        },
        TStmtKind::DoWhile { body, cond } => {
            &&& out matches Stmt::DoWhile { label: l, cond: c, body: b }
            &&& label_of(l) == label
            &&& expr_to(p, n, cond, c)
            &&& stmt_to(p, n, *body, *b)
        },
        TStmtKind::For { init, cond, update, body } => {
            &&& out matches Stmt::For { label: l, init: i, cond: c, update: u, body: b }
            &&& label_of(l) == label
            &&& opt_stmt_to(p, n, init, i)
            &&& opt_expr_to(p, n, cond, c)
            &&& opt_expr_to(p, n, update, u)
            &&& stmt_to(p, n, *body, *b)
        },
        _ => false,
    }
}

proof fn lemma_opt_expr(w: World, p: TProgram, n: nat, e: Option<TExpr>, out: Option<Expr>)
    requires
        opt_meant(p, n, e),
        opt_expr_to(p, n, e, out),
    ensures
        out is Some <==> e is Some,
        e is Some ==> agrees(w, p, n, e->0, out->0),
        forall|s: Store| #[trigger] tested(w, out, s) == decided(w, p, n, e, s),
        forall|s: Store| #[trigger]
            done(w, out, s) == (match e {
                Some(x) => value(w, p, n, x, s).0,
                None => s,
            }),
{
    if let Some(x) = e {
        lemma_expr(w, p, n, x, out->0);
        assert forall|s: Store| #[trigger] tested(w, out, s) == decided(w, p, n, e, s) by {
            assert(eval(w, out->0, s) == value(w, p, n, x, s));
        }
        assert forall|s: Store| #[trigger]
            done(w, out, s) == (match e {
                Some(x) => value(w, p, n, x, s).0,
                None => s,
            }) by {
            assert(eval(w, out->0, s) == value(w, p, n, x, s));
        }
    }
}

proof fn lemma_stmt(w: World, p: TProgram, n: nat, st: TStmt, out: Stmt, k: nat, s: Store)
    requires
        stmt_meant(p, n, st),
        stmt_to(p, n, st, out),
    ensures
        exec(w, out, k, s) == act(w, p, n, st, k, s),
    decreases st, k, 3nat,
{
    match st.kind {
        TStmtKind::Expr(e) => {
            lemma_expr(w, p, n, e, out->Expr_0);
            assert(eval(w, out->Expr_0, s) == value(w, p, n, e, s));
        },
        TStmtKind::Assign(_, e) => {
            lemma_expr(w, p, n, e, out->Assign_1);
            assert(eval(w, out->Assign_1, s) == value(w, p, n, e, s));
        },
        TStmtKind::Block(b) => {
            let o = out->Block_0;
            lemma_stmts(w, p, n, b@, o@, b@.len(), k, s);
            assert(stmts_to(p, n, b@, o@));
            assert(o@.len() == b@.len());
            assert(exec(w, out, k, s) == act(w, p, n, st, k, s));
        },
        TStmtKind::If { cond, then_branch, else_branch } => {
            let c = out->If_cond;
            lemma_opt_expr(w, p, n, Some(cond), Some(c));
            assert(tested(w, Some(c), s) == decided(w, p, n, Some(cond), s));
            let s1 = tested(w, Some(c), s).0;
            lemma_stmt(w, p, n, *then_branch, *out->then_branch, k, s1);
            if let Some(x) = else_branch {
                assert(opt_stmt_to(p, n, else_branch, out->else_branch));
                lemma_stmt(w, p, n, *x, *(out->else_branch->0), k, s1);
            } else {
                assert(opt_stmt_to(p, n, else_branch, out->else_branch));
            }
        },
        TStmtKind::While { .. } | TStmtKind::DoWhile { .. } | TStmtKind::For { .. } => {
            assert(loop_to(p, n, st, None, out));
            lemma_repeat(w, p, n, st, None, out, k, s);
        },
        TStmtKind::Labeled { label, body } => {
            let mid = choose|mid: Stmt|
                stmt_to(p, n, *body, mid) && #[trigger] relabeled(mid, label, out);
            assert(stmt_to(p, n, *body, mid));
            assert(loop_to(p, n, *body, Some(label@), out));
            lemma_repeat(w, p, n, *body, Some(label@), out, k, s);
        },
        TStmtKind::Switch { scrutinee, cases } => {
            let o = out->cases;
            lemma_expr(w, p, n, scrutinee, out->scrutinee);
            assert(eval(w, out->scrutinee, s) == value(w, p, n, scrutinee, s));
            let (s1, x) = value(w, p, n, scrutinee, s);
            assert(cases_to(p, n, cases@, o@));
            assert(cases_meant(p, n, cases@));
            lemma_picked(w, p, n, cases@, o@, cases@.len(), x, s1);
            let (s2, hit) = chosen(w, o@, o@.len(), x, s1);
            if let Some(i) = hit {
                lemma_clauses(w, p, n, cases@, o@, i, cases@.len(), k, s2);
            }
            assert(o@.len() == cases@.len());
            assert(exec(w, out, k, s) == act(w, p, n, st, k, s));
        },
        TStmtKind::Return { value: Some(e) } => {
            let o = out->Return_value->0;
            lemma_expr(w, p, n, e, o);
            assert(eval(w, o, s) == value(w, p, n, e, s));
            assert(exec(w, out, k, s) == act(w, p, n, st, k, s));
        },
        TStmtKind::Return { value: None } => {
            assert(exec(w, out, k, s) == act(w, p, n, st, k, s));
        },
        _ => {
            assert(exec(w, out, k, s) == act(w, p, n, st, k, s));
        },
    }
}

proof fn lemma_stmts(
    w: World,
    p: TProgram,
    n: nat,
    l: Seq<TStmt>,
    outs: Seq<Stmt>,
    j: nat,
    k: nat,
    s: Store,
)
    requires
        stmts_meant(p, n, l),
        stmts_to(p, n, l, outs),
    ensures
        exec_all(w, outs, j, k, s) == act_all(w, p, n, l, j, k, s),
    decreases l, k, j,
{
    if 0 < j <= l.len() {
        lemma_stmts(w, p, n, l, outs, (j - 1) as nat, k, s);
        assert(stmt_to(p, n, l[j - 1], outs[j - 1]));
        assert(stmt_meant(p, n, l[j - 1]));
        lemma_stmt(
            w,
            p,
            n,
            l[j - 1],
            outs[j - 1],
            k,
            act_all(w, p, n, l, (j - 1) as nat, k, s),
        );
    }
}

proof fn lemma_repeat(
    w: World,
    p: TProgram,
    n: nat,
    st: TStmt,
    label: Option<Seq<char>>,
    out: Stmt,
    k: nat,
    s: Store,
)
    requires
        stmt_meant(p, n, st),
        loop_to(p, n, st, label, out),
    ensures
        s.runs() ==> exec(w, out, k, s) == repeat(w, p, n, st, label, k, s),
    decreases st, k, 2nat,
{
    let s1 = match st.kind {
        TStmtKind::For { init: Some(x), .. } => {
            assert(opt_stmt_to(p, n, st.kind->init, out->init));
            lemma_stmt(w, p, n, *x, *(out->init->0), k, s);
            act(w, p, n, *x, k, s)
        },
        _ => s,
    };
    if st.kind is For {
        assert(opt_stmt_to(p, n, st.kind->init, out->init));
    }
    lemma_turns(w, p, n, st, label, out, k, s1);
}

proof fn lemma_turns(
    w: World,
    p: TProgram,
    n: nat,
    st: TStmt,
    label: Option<Seq<char>>,
    out: Stmt,
    k: nat,
    s: Store,
)
    requires
        stmt_meant(p, n, st),
        loop_to(p, n, st, label, out),
    ensures
        rounds(w, out, k, s) == turns(w, p, n, st, label, k, s),
    decreases st, k, 1nat,
{
    if s.runs() && k > 0 {
        let m = (k - 1) as nat;
        match st.kind {
            TStmtKind::While { cond, body } => {
                let (c, b) = (out->While_cond, *out->While_body);
                lemma_opt_expr(w, p, n, Some(cond), Some(c));
                assert(tested(w, Some(c), s) == decided(w, p, n, Some(cond), s));
                let s1 = tested(w, Some(c), s).0;
                lemma_stmt(w, p, n, *body, b, m, s1);
                let s2 = next_round(exec(w, b, m, s1), label);
                lemma_turns(w, p, n, st, label, out, m, s2);
            },
            TStmtKind::DoWhile { body, cond } => {
                let (c, b) = (out->DoWhile_cond, *out->DoWhile_body);
                lemma_stmt(w, p, n, *body, b, m, s);
                let s1 = next_round(exec(w, b, m, s), label);
                lemma_opt_expr(w, p, n, Some(cond), Some(c));
                assert(tested(w, Some(c), s1) == decided(w, p, n, Some(cond), s1));
                lemma_turns(w, p, n, st, label, out, m, tested(w, Some(c), s1).0);
            },
            TStmtKind::For { cond, update, body, .. } => {
                let (c, u, b) = (out->For_cond, out->update, *out->For_body);
                lemma_opt_expr(w, p, n, cond, c);
                assert(tested(w, c, s) == decided(w, p, n, cond, s));
                let s1 = tested(w, c, s).0;
                lemma_stmt(w, p, n, *body, b, m, s1);
                let s2 = next_round(exec(w, b, m, s1), label);
                lemma_opt_expr(w, p, n, update, u);
                let s3 = done(w, u, s2);
                lemma_turns(w, p, n, st, label, out, m, s3);
            },
            _ => {},
        }
    }
}

proof fn lemma_picked(
    w: World,
    p: TProgram,
    n: nat,
    cs: Seq<TCase>,
    outs: Seq<Case>,
    j: nat,
    x: Val,
    s: Store,
)
    requires
        j <= cs.len(),
        cases_meant(p, n, cs),
        cases_to(p, n, cs, outs),
    ensures
        matching(w, outs, j, x, s) == picked(w, p, n, cs, j, x, s),
        default_of(outs, j) == fallback(cs, j),
    decreases j,
{
    if j > 0 {
        lemma_picked(w, p, n, cs, outs, (j - 1) as nat, x, s);
        let (a, b) = (cs[j - 1], outs[j - 1]);
        assert(opt_expr_to(p, n, a.test, b.test));
        assert(opt_meant(p, n, a.test));
        if let Some(t) = a.test {
            lemma_expr(w, p, n, t, b.test->0);
            let s1 = picked(w, p, n, cs, (j - 1) as nat, x, s).0;
            assert(eval(w, b.test->0, s1) == value(w, p, n, t, s1));
        }
    }
}

proof fn lemma_clauses(
    w: World,
    p: TProgram,
    n: nat,
    cs: Seq<TCase>,
    outs: Seq<Case>,
    i: int,
    j: nat,
    k: nat,
    s: Store,
)
    requires
        j <= cs.len(),
        cases_meant(p, n, cs),
        cases_to(p, n, cs, outs),
    ensures
        bodies(w, outs, i, j, k, s) == clauses(w, p, n, cs, i, j, k, s),
    decreases cs, k, j,
{
    if i < j && 0 < j {
        lemma_clauses(w, p, n, cs, outs, i, (j - 1) as nat, k, s);
        let (a, b) = (cs[j - 1].body@, outs[j - 1].body@);
        assert(stmts_to(p, n, cs[j - 1].body@, outs[j - 1].body@));
        assert(stmts_meant(p, n, cs[j - 1].body@));
        assert(decreases_to!(cs => cs[j - 1]));
        lemma_stmts(w, p, n, a, b, a.len(), k, clauses(w, p, n, cs, i, (j - 1) as nat, k, s));
    }
}

/// A lowered statement runs as the one of the tree does: with the same effects and
/// the same way out, for any number of rounds.
pub proof fn law_lowered_statements_run_the_same(
    w: World,
    p: TProgram,
    n: nat,
    st: TStmt,
    out: Stmt,
    k: nat,
    s: Store,
)
    requires
        stmt_meant(p, n, st),
        stmt_to(p, n, st, out),
    ensures
        exec(w, out, k, s) == act(w, p, n, st, k, s),
{
    lemma_stmt(w, p, n, st, out, k, s);
}

} // verus!
