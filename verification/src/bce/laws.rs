//! An unchecked access only ever stands behind a guard that covers it.

use vstd::prelude::*;

use crate::bce::facts::{stmt_fact, Fact};
use crate::bce::mark::{hits, local_of, marked, marked_opt, marked_stmt, peeled};
use crate::bce::pairs::{
    kids_marked, opened, peeled_marked, same_hits, same_local, same_stmt_facts, stmt_exprs_marked,
    stmt_kids_marked,
};
use crate::bce::version::{
    as_number, counted, finished, function_rewritten, guard_of, guard_term_of, header_of,
    increments, init_of, inside_rewritten, is_invariant, is_safe, is_version, rewritten,
    rewritten_all, rewritten_cases, rewritten_catches, rewritten_opt, span_hint_of, versions, Ctx,
};
use crate::bce::walk::{
    case_stmts, case_tests, catch_stmts, kids, lemma_kids_smaller, lemma_stmt_kids_smaller,
    opt_stmt, stmt_exprs, stmt_kids,
};
use crate::mir::{BinOp, CapSrc, Case, Catch, Expr, ExprKind, Function, LocalId, Stmt, Ty};
use crate::span::Span;

verus! {

// --- guards and what they cover -------------------------------------------------------------

/// The vector and the index of an unchecked access.
pub open spec fn unchecked(e: &Expr) -> Option<(Expr, Expr)> {
    match &e.kind {
        ExprKind::SeqGet(recv, idx, true) => Some((**recv, **idx)),
        ExprKind::SeqSet(recv, idx, _, true) => Some((**recv, **idx)),
        _ => None,
    }
}

/// A guard that has been passed: the induction variable of the loop behind it,
/// and the vectors whose length it has compared with the bound of the loop.
pub ghost struct Pass {
    pub iv: LocalId,
    pub safe: Seq<LocalId>,
}

/// The access is one at the induction variable, of a vector that a passed
/// guard speaks of.
pub open spec fn covered(recv: &Expr, idx: &Expr, passed: Set<Pass>) -> bool {
    exists|p: Pass| #[trigger] passed.contains(p) && hits(recv, idx, p.iv, p.safe)
}

/// Every unchecked access in the expression is covered.
pub open spec fn shielded_expr(e: &Expr, passed: Set<Pass>) -> bool
    decreases e,
{
    proof {
        lemma_kids_smaller(e);
    }
    &&& unchecked(e) matches Some((recv, idx)) ==> covered(&recv, &idx, passed)
    &&& forall|i: int| 0 <= i < kids(e).len() ==> shielded_expr(&#[trigger] kids(e)[i], passed)
}

/// The statement is a counted loop behind the guard that lets it go without
/// checks: the loop qualifies, and the condition is its guard.
pub open spec fn is_guarded(cx: Ctx, s: &Stmt, p: Pass) -> bool {
    match s {
        Stmt::If { cond, then_branch, else_branch: Some(_) } => {
            &&& versions(cx, &**then_branch, p.safe)
            &&& header_of(&**then_branch) matches Some((iv, op, bound, _)) && iv == p.iv
                && exists|span: Span| *cond == #[trigger] guard_of(op, bound, p.safe, span, p.safe.len())
        },
        _ => false,
    }
}

/// Every unchecked access in the statement is covered, by a guard passed
/// before or by one in the statement.
pub open spec fn shielded(cx: Ctx, s: &Stmt, passed: Set<Pass>) -> bool
    decreases s,
{
    proof {
        lemma_stmt_kids_smaller(s);
    }
    &&& forall|i: int|
        0 <= i < stmt_exprs(s).len() ==> shielded_expr(&#[trigger] stmt_exprs(s)[i], passed)
    &&& forall|i: int|
        0 <= i < stmt_kids(s).len() ==> shielded(cx, &#[trigger] stmt_kids(s)[i], passed) || (i == 0
            && exists|p: Pass| #[trigger]
            is_guarded(cx, s, p) && shielded(cx, &stmt_kids(s)[i], passed.insert(p)))
}

/// The statement holds no unchecked access.
pub open spec fn checked(s: &Stmt) -> bool
    decreases s,
{
    proof {
        lemma_stmt_kids_smaller(s);
    }
    &&& forall|i: int|
        0 <= i < stmt_exprs(s).len() ==> shielded_expr(&#[trigger] stmt_exprs(s)[i], Set::empty())
    &&& forall|i: int| 0 <= i < stmt_kids(s).len() ==> checked(&#[trigger] stmt_kids(s)[i])
}

// --- marking keeps guards -------------------------------------------------------------------

proof fn bound_kept(
    cx: Ctx,
    a: &Expr,
    b: &Expr,
    iv: LocalId,
    safe: Seq<LocalId>,
    body: &Stmt,
    i: LocalId,
)
    requires
        is_invariant(cx, a, body, i),
        marked(a, b, iv, safe),
    ensures
        *a == *b,
    decreases a,
{
    opened(a, b, iv, safe);
    match (&a.kind, &b.kind) {
        (ExprKind::Conv(_, x), ExprKind::Conv(_, y)) => {
            bound_kept(cx, &**x, &**y, iv, safe, body, i);
        },
        (ExprKind::Binary(_, x, z), ExprKind::Binary(_, y, w)) => {
            bound_kept(cx, &**x, &**y, iv, safe, body, i);
            bound_kept(cx, &**z, &**w, iv, safe, body, i);
        },
        (ExprKind::SeqLen(x), ExprKind::SeqLen(y)) => {
            opened(&**x, &**y, iv, safe);
        },
        _ => {},
    }
}

proof fn number_kept(
    cx: Ctx,
    e: Expr,
    b: &Expr,
    iv: LocalId,
    safe: Seq<LocalId>,
    body: &Stmt,
    i: LocalId,
)
    requires
        is_invariant(cx, &e, body, i),
        marked(&as_number(e), b, iv, safe),
    ensures
        as_number(e) == *b,
{
    let a = as_number(e);
    opened(&a, b, iv, safe);
    if e.ty == Ty::Number {
        bound_kept(cx, &e, b, iv, safe, body, i);
    } else if let ExprKind::Conv(_, y) = &b.kind {
        bound_kept(cx, &e, &**y, iv, safe, body, i);
    }
}

proof fn term_kept(
    cx: Ctx,
    op: BinOp,
    bound: Expr,
    v: LocalId,
    span: Span,
    b: &Expr,
    iv: LocalId,
    safe: Seq<LocalId>,
    body: &Stmt,
    i: LocalId,
)
    requires
        is_invariant(cx, &bound, body, i),
        marked(&guard_term_of(op, bound, v, span), b, iv, safe),
    ensures
        guard_term_of(op, bound, v, span) == *b,
{
    let a = guard_term_of(op, bound, v, span);
    opened(&a, b, iv, safe);
    if let (ExprKind::Binary(_, x, z), ExprKind::Binary(_, y, w)) = (&a.kind, &b.kind) {
        number_kept(cx, bound, &**y, iv, safe, body, i);
        opened(&**z, &**w, iv, safe);
        if let (ExprKind::Conv(_, l), ExprKind::Conv(_, m)) = (&z.kind, &w.kind) {
            opened(&**l, &**m, iv, safe);
            if let (ExprKind::SeqLen(r), ExprKind::SeqLen(t)) = (&l.kind, &m.kind) {
                opened(&**r, &**t, iv, safe);
            }
        }
    }
}

proof fn guard_kept(
    cx: Ctx,
    op: BinOp,
    bound: Expr,
    vs: Seq<LocalId>,
    span: Span,
    n: nat,
    b: &Expr,
    iv: LocalId,
    safe: Seq<LocalId>,
    body: &Stmt,
    i: LocalId,
)
    requires
        is_invariant(cx, &bound, body, i),
        marked(&guard_of(op, bound, vs, span, n), b, iv, safe),
    ensures
        guard_of(op, bound, vs, span, n) == *b,
    decreases n,
{
    let a = guard_of(op, bound, vs, span, n);
    if n <= 1 {
        term_kept(cx, op, bound, vs[0], span, b, iv, safe, body, i);
    } else {
        opened(&a, b, iv, safe);
        if let ExprKind::Logical { lhs, rhs, .. } = &b.kind {
            guard_kept(cx, op, bound, vs, span, (n - 1) as nat, &**lhs, iv, safe, body, i);
            term_kept(cx, op, bound, vs[n - 1], span, &**rhs, iv, safe, body, i);
        }
    }
}

proof fn init_kept(a: &Stmt, b: &Stmt, iv: LocalId, safe: Seq<LocalId>)
    requires
        marked_stmt(a, b, iv, safe),
        init_of(a) is Some,
    ensures
        init_of(a) == init_of(b),
{
    match (a, b) {
        (Stmt::Assign(_, x), Stmt::Assign(_, y)) => {
            opened(x, y, iv, safe);
        },
        (Stmt::Expr(x), Stmt::Expr(y)) => {
            opened(x, y, iv, safe);
            if let (ExprKind::LocalSet(_, p), ExprKind::LocalSet(_, q)) = (&x.kind, &y.kind) {
                opened(&**p, &**q, iv, safe);
            }
        },
        _ => {},
    }
}

proof fn cond_kept(
    cx: Ctx,
    a: &Expr,
    b: &Expr,
    iv: LocalId,
    safe: Seq<LocalId>,
    body: &Stmt,
    i: LocalId,
)
    requires
        marked(a, b, iv, safe),
        counted(a, i) matches Some((op, bound)) && is_invariant(cx, &bound, body, i),
    ensures
        counted(a, i) == counted(b, i),
{
    opened(a, b, iv, safe);
    if let (ExprKind::Binary(_, l, r), ExprKind::Binary(_, m, t)) = (&a.kind, &b.kind) {
        peeled_marked(&**l, &**m, iv, safe);
        same_local(peeled(&**l), peeled(&**m), iv, safe);
        peeled_marked(&**r, &**t, iv, safe);
        bound_kept(cx, peeled(&**r), peeled(&**t), iv, safe, body, i);
    }
}

/// A marked copy of a loop that qualifies is a loop that qualifies, with the
/// same header.
proof fn versions_kept(
    cx: Ctx,
    a: &Stmt,
    b: &Stmt,
    iv: LocalId,
    safe: Seq<LocalId>,
    vs: Seq<LocalId>,
)
    requires
        marked_stmt(a, b, iv, safe),
        versions(cx, a, vs),
    ensures
        versions(cx, b, vs),
        ({
            let (i, op, bound, body) = header_of(a)->0;
            let (i2, op2, bound2, body2) = header_of(b)->0;
            i == i2 && op == op2 && bound == bound2
        }),
{
    let (i, op, bound, body) = header_of(a)->0;
    if let (
        Stmt::For { init: Some(i1), cond: Some(c1), update: Some(u1), body: b1, .. },
        Stmt::For { init: Some(i2), cond: Some(c2), update: Some(u2), body: b2, .. },
    ) = (a, b) {
        init_kept(&**i1, &**i2, iv, safe);
        assert(marked_opt(Some(*c1), Some(*c2), iv, safe));
        assert(marked_opt(Some(*u1), Some(*u2), iv, safe));
        cond_kept(cx, c1, c2, iv, safe, &body, i);
        opened(u1, u2, iv, safe);
        assert(increments(u2, i));
        assert(header_of(b) == Some((i, op, bound, **b2)));
        assert forall|f: Fact| #[trigger] stmt_fact(&body, i, f) == stmt_fact(&**b2, i, f) by {
            same_stmt_facts(&body, &**b2, iv, safe, i, f);
        }
        invariant_kept(cx, &bound, &body, &**b2, i);
        assert forall|v: LocalId| #[trigger] vs.contains(v) <==> is_safe(cx, &**b2, i, v) by {
            assert(vs.contains(v) <==> is_safe(cx, &body, i, v));
            assert(stmt_fact(&body, i, Fact::Indexes(v)) == stmt_fact(&**b2, i, Fact::Indexes(v)));
            assert(stmt_fact(&body, i, Fact::Writes(v)) == stmt_fact(&**b2, i, Fact::Writes(v)));
            assert(stmt_fact(&body, i, Fact::Misuses(v)) == stmt_fact(&**b2, i, Fact::Misuses(v)));
        }
        assert(stmt_fact(&body, i, Fact::Writes(i)) == stmt_fact(&**b2, i, Fact::Writes(i)));
    }
}

proof fn invariant_kept(cx: Ctx, e: &Expr, a: &Stmt, b: &Stmt, i: LocalId)
    requires
        is_invariant(cx, e, a, i),
        forall|f: Fact| #[trigger] stmt_fact(a, i, f) == stmt_fact(b, i, f),
    ensures
        is_invariant(cx, e, b, i),
    decreases e,
{
    match &e.kind {
        ExprKind::LocalGet(l) => {
            assert(stmt_fact(a, i, Fact::Writes(*l)) == stmt_fact(b, i, Fact::Writes(*l)));
        },
        ExprKind::CaptureGet(k) => {
            assert(stmt_fact(a, i, Fact::WritesCapture(*k)) == stmt_fact(
                b,
                i,
                Fact::WritesCapture(*k),
            ));
            assert(stmt_fact(a, i, Fact::Calls) == stmt_fact(b, i, Fact::Calls));
        },
        ExprKind::Conv(_, x) => {
            invariant_kept(cx, &**x, a, b, i);
        },
        ExprKind::SeqLen(recv) => {
            if let Some(w) = local_of(&**recv) {
                assert(stmt_fact(a, i, Fact::Writes(w)) == stmt_fact(b, i, Fact::Writes(w)));
                assert(stmt_fact(a, i, Fact::Misuses(w)) == stmt_fact(b, i, Fact::Misuses(w)));
            }
        },
        ExprKind::Binary(_, x, y) => {
            invariant_kept(cx, &**x, a, b, i);
            invariant_kept(cx, &**y, a, b, i);
        },
        _ => {},
    }
}

proof fn guarded_kept(cx: Ctx, a: &Stmt, b: &Stmt, iv: LocalId, safe: Seq<LocalId>, p: Pass)
    requires
        marked_stmt(a, b, iv, safe),
        is_guarded(cx, a, p),
    ensures
        is_guarded(cx, b, p),
{
    if let (
        Stmt::If { cond: c1, then_branch: t1, else_branch: Some(_) },
        Stmt::If { cond: c2, then_branch: t2, else_branch: _ },
    ) = (a, b) {
        let (i, op, bound, body) = header_of(&**t1)->0;
        let span = choose|span: Span| *c1 == #[trigger] guard_of(op, bound, p.safe, span, p.safe.len());
        versions_kept(cx, &**t1, &**t2, iv, safe, p.safe);
        guard_kept(cx, op, bound, p.safe, span, p.safe.len(), c2, iv, safe, &body, i);
        assert(*c2 == guard_of(op, bound, p.safe, span, p.safe.len()));
    }
}

proof fn bound_is_checked(cx: Ctx, e: &Expr, body: &Stmt, i: LocalId)
    requires
        is_invariant(cx, e, body, i),
    ensures
        shielded_expr(e, Set::empty()),
    decreases e,
{
    match &e.kind {
        ExprKind::Conv(_, x) => {
            bound_is_checked(cx, &**x, body, i);
            assert(kids(e) =~= seq![**x]);
        },
        ExprKind::SeqLen(x) => {
            leaf_is_checked(&**x);
            assert(kids(e) =~= seq![**x]);
        },
        ExprKind::Binary(_, x, y) => {
            bound_is_checked(cx, &**x, body, i);
            bound_is_checked(cx, &**y, body, i);
            assert(kids(e) =~= seq![**x, **y]);
        },
        _ => {},
    }
}

proof fn leaf_is_checked(e: &Expr)
    requires
        kids(e).len() == 0,
        unchecked(e) is None,
    ensures
        shielded_expr(e, Set::empty()),
{
}

proof fn number_is_checked(e: Expr)
    requires
        shielded_expr(&e, Set::empty()),
    ensures
        shielded_expr(&as_number(e), Set::empty()),
{
    if e.ty != Ty::Number {
        assert(kids(&as_number(e)) =~= seq![e]);
    }
}

proof fn term_is_checked(cx: Ctx, op: BinOp, bound: Expr, v: LocalId, span: Span, body: &Stmt, i: LocalId)
    requires
        is_invariant(cx, &bound, body, i),
    ensures
        shielded_expr(&guard_term_of(op, bound, v, span), Set::empty()),
{
    bound_is_checked(cx, &bound, body, i);
    number_is_checked(bound);
    let vget = Expr { ty: Ty::Vector(0), span, kind: ExprKind::LocalGet(v) };
    let len = Expr { ty: Ty::UInt, span, kind: ExprKind::SeqLen(Box::new(vget)) };
    leaf_is_checked(&vget);
    assert(kids(&len) =~= seq![vget]);
    assert(shielded_expr(&len, Set::empty()));
    number_is_checked(len);
    assert(kids(&guard_term_of(op, bound, v, span)) =~= seq![as_number(bound), as_number(len)]);
}

proof fn guard_is_checked(
    cx: Ctx,
    op: BinOp,
    bound: Expr,
    vs: Seq<LocalId>,
    span: Span,
    n: nat,
    body: &Stmt,
    i: LocalId,
)
    requires
        is_invariant(cx, &bound, body, i),
    ensures
        shielded_expr(&guard_of(op, bound, vs, span, n), Set::empty()),
    decreases n,
{
    if n <= 1 {
        term_is_checked(cx, op, bound, vs[0], span, body, i);
    } else {
        let m = (n - 1) as nat;
        guard_is_checked(cx, op, bound, vs, span, m, body, i);
        term_is_checked(cx, op, bound, vs[n - 1], span, body, i);
        assert(kids(&guard_of(op, bound, vs, span, n)) =~= seq![
            guard_of(op, bound, vs, span, m),
            guard_term_of(op, bound, vs[n - 1], span),
        ]);
    }
}

// --- marking adds covered accesses only -----------------------------------------------------

proof fn marking_shields_expr(a: &Expr, b: &Expr, p: Pass, passed: Set<Pass>)
    requires
        marked(a, b, p.iv, p.safe),
        shielded_expr(a, passed),
    ensures
        shielded_expr(b, passed.insert(p)),
    decreases a,
{
    opened(a, b, p.iv, p.safe);
    kids_marked(a, b, p.iv, p.safe);
    lemma_kids_smaller(a);
    let more = passed.insert(p);
    if let Some((recv, idx)) = unchecked(b) {
        let (r, x) = match &a.kind {
            ExprKind::SeqGet(r, x, _) => (**r, **x),
            ExprKind::SeqSet(r, x, _, _) => (**r, **x),
            _ => (recv, idx),
        };
        if unchecked(a) is Some {
            let q = choose|q: Pass| #[trigger] passed.contains(q) && hits(&r, &x, q.iv, q.safe);
            same_hits(&r, &x, &recv, &idx, p.iv, p.safe, q.iv, q.safe);
            assert(more.contains(q));
        } else {
            same_hits(&r, &x, &recv, &idx, p.iv, p.safe, p.iv, p.safe);
            assert(more.contains(p));
        }
    }
    assert forall|i: int| 0 <= i < kids(b).len() implies shielded_expr(&#[trigger] kids(b)[i], more) by {
        assert(shielded_expr(&kids(a)[i], passed));
        assert(marked(&kids(a)[i], &kids(b)[i], p.iv, p.safe));
        marking_shields_expr(&kids(a)[i], &kids(b)[i], p, passed);
    }
}

proof fn marking_shields(cx: Ctx, a: &Stmt, b: &Stmt, p: Pass, passed: Set<Pass>)
    requires
        marked_stmt(a, b, p.iv, p.safe),
        shielded(cx, a, passed),
    ensures
        shielded(cx, b, passed.insert(p)),
    decreases a,
{
    stmt_exprs_marked(a, b, p.iv, p.safe);
    stmt_kids_marked(a, b, p.iv, p.safe);
    lemma_stmt_kids_smaller(a);
    let more = passed.insert(p);
    assert forall|i: int| 0 <= i < stmt_exprs(b).len() implies shielded_expr(
        &#[trigger] stmt_exprs(b)[i],
        more,
    ) by {
        assert(shielded_expr(&stmt_exprs(a)[i], passed));
        assert(marked(&stmt_exprs(a)[i], &stmt_exprs(b)[i], p.iv, p.safe));
        marking_shields_expr(&stmt_exprs(a)[i], &stmt_exprs(b)[i], p, passed);
    }
    assert forall|i: int| 0 <= i < stmt_kids(b).len() implies shielded(
        cx,
        &#[trigger] stmt_kids(b)[i],
        more,
    ) || (i == 0 && exists|q: Pass| #[trigger]
        is_guarded(cx, b, q) && shielded(cx, &stmt_kids(b)[i], more.insert(q))) by {
        let x = stmt_kids(a)[i];
        let y = stmt_kids(b)[i];
        assert(marked_stmt(&x, &y, p.iv, p.safe));
        if shielded(cx, &x, passed) {
            marking_shields(cx, &x, &y, p, passed);
        } else {
            let q = choose|q: Pass| #[trigger]
                is_guarded(cx, a, q) && shielded(cx, &x, passed.insert(q));
            guarded_kept(cx, a, b, p.iv, p.safe, q);
            marking_shields(cx, &x, &y, p, passed.insert(q));
            assert(passed.insert(q).insert(p) =~= more.insert(q));
        }
    }
}

// --- rewriting ------------------------------------------------------------------------------

pub open spec fn all_checked(l: Seq<Stmt>) -> bool {
    forall|i: int| 0 <= i < l.len() ==> checked(&#[trigger] l[i])
}

pub open spec fn all_shielded(cx: Ctx, l: Seq<Stmt>) -> bool {
    forall|i: int| 0 <= i < l.len() ==> shielded(cx, &#[trigger] l[i], Set::empty())
}

proof fn checked_is_shielded(cx: Ctx, s: &Stmt)
    requires
        checked(s),
    ensures
        shielded(cx, s, Set::empty()),
    decreases s,
{
    lemma_stmt_kids_smaller(s);
    assert forall|i: int| 0 <= i < stmt_kids(s).len() implies shielded(
        cx,
        &#[trigger] stmt_kids(s)[i],
        Set::empty(),
    ) by {
        checked_is_shielded(cx, &stmt_kids(s)[i]);
    }
}

proof fn cat_shielded(cx: Ctx, a: Seq<Stmt>, b: Seq<Stmt>)
    requires
        all_shielded(cx, a),
        all_shielded(cx, b),
    ensures
        all_shielded(cx, a + b),
{
    assert forall|i: int| 0 <= i < (a + b).len() implies shielded(
        cx,
        &#[trigger] (a + b)[i],
        Set::empty(),
    ) by {
        if i < a.len() {
            assert((a + b)[i] == a[i]);
        } else {
            assert((a + b)[i] == b[i - a.len()]);
        }
    }
}

proof fn cat_checked(a: Seq<Stmt>, b: Seq<Stmt>)
    requires
        all_checked(a + b),
    ensures
        all_checked(a),
        all_checked(b),
{
    assert forall|i: int| 0 <= i < a.len() implies checked(&#[trigger] a[i]) by {
        assert((a + b)[i] == a[i]);
    }
    assert forall|i: int| 0 <= i < b.len() implies checked(&#[trigger] b[i]) by {
        assert((a + b)[a.len() + i] == b[i]);
    }
}

proof fn all_rewritten_shielded(cx: Ctx, a: Seq<Stmt>, b: Seq<Stmt>)
    requires
        rewritten_all(cx, a, b),
        all_checked(a),
    ensures
        all_shielded(cx, b),
    decreases a, 2nat,
{
    assert forall|i: int| 0 <= i < b.len() implies shielded(
        cx,
        &#[trigger] b[i],
        Set::empty(),
    ) by {
        assert(rewritten(cx, a[i], b[i]));
        assert(decreases_to!(a => a[i]));
        rewritten_shielded(cx, a[i], b[i]);
    }
}

proof fn cases_rewritten_shielded(cx: Ctx, a: Seq<Case>, b: Seq<Case>, n: nat)
    requires
        rewritten_cases(cx, a, b),
        n <= a.len(),
        all_checked(case_stmts(a, n)),
    ensures
        a.len() == b.len(),
        case_tests(a, n) == case_tests(b, n),
        all_shielded(cx, case_stmts(b, n)),
    decreases a, 3 + n,
{
    if n > 0 {
        let m = (n - 1) as nat;
        cat_checked(case_stmts(a, m), a[n - 1].body@);
        cases_rewritten_shielded(cx, a, b, m);
        assert(rewritten_all(cx, a[n - 1].body@, b[n - 1].body@));
        assert(decreases_to!(a => a[n - 1]));
        assert(decreases_to!(a[n - 1] => a[n - 1].body));
        assert(decreases_to!(a[n - 1].body => a[n - 1].body@));
        all_rewritten_shielded(cx, a[n - 1].body@, b[n - 1].body@);
        cat_shielded(cx, case_stmts(b, m), b[n - 1].body@);
    }
}

proof fn catches_rewritten_shielded(cx: Ctx, a: Seq<Catch>, b: Seq<Catch>, n: nat)
    requires
        rewritten_catches(cx, a, b),
        n <= a.len(),
        all_checked(catch_stmts(a, n)),
    ensures
        a.len() == b.len(),
        all_shielded(cx, catch_stmts(b, n)),
    decreases a, 3 + n,
{
    if n > 0 {
        let m = (n - 1) as nat;
        cat_checked(catch_stmts(a, m), a[n - 1].body@);
        catches_rewritten_shielded(cx, a, b, m);
        assert(rewritten_all(cx, a[n - 1].body@, b[n - 1].body@));
        assert(decreases_to!(a => a[n - 1]));
        assert(decreases_to!(a[n - 1] => a[n - 1].body));
        assert(decreases_to!(a[n - 1].body => a[n - 1].body@));
        all_rewritten_shielded(cx, a[n - 1].body@, b[n - 1].body@);
        cat_shielded(cx, catch_stmts(b, m), b[n - 1].body@);
    }
}

proof fn inside_shielded(cx: Ctx, a: Stmt, b: Stmt)
    requires
        inside_rewritten(cx, a, b),
        checked(&a),
    ensures
        shielded(cx, &b, Set::empty()),
    decreases a, 0nat,
{
    assert(all_checked(stmt_kids(&a)));
    match (a, b) {
        (Stmt::Block(x), Stmt::Block(y)) => {
            all_rewritten_shielded(cx, x@, y@);
        },
        (Stmt::If { then_branch: t1, else_branch: e1, .. }, Stmt::If {
            then_branch: t2,
            else_branch: e2,
            ..
        }) => {
            cat_checked(seq![*t1], opt_stmt(e1));
            assert(checked(&seq![*t1][0]));
            rewritten_shielded(cx, *t1, *t2);
            assert(rewritten_opt(cx, e1, e2));
            if let (Some(x), Some(y)) = (e1, e2) {
                assert(checked(&opt_stmt(e1)[0]));
                rewritten_shielded(cx, *x, *y);
            }
            cat_shielded(cx, seq![*t2], opt_stmt(e2));
        },
        (Stmt::While { body: b1, .. }, Stmt::While { body: b2, .. }) => {
            assert(checked(&stmt_kids(&a)[0]));
            rewritten_shielded(cx, *b1, *b2);
        },
        (Stmt::DoWhile { body: b1, .. }, Stmt::DoWhile { body: b2, .. }) => {
            assert(checked(&stmt_kids(&a)[0]));
            rewritten_shielded(cx, *b1, *b2);
        },
        (Stmt::For { init: i1, body: b1, .. }, Stmt::For { init: i2, body: b2, .. }) => {
            cat_checked(opt_stmt(i1), seq![*b1]);
            assert(checked(&seq![*b1][0]));
            rewritten_shielded(cx, *b1, *b2);
            if let Some(x) = i1 {
                assert(checked(&opt_stmt(i1)[0]));
                checked_is_shielded(cx, &*x);
            }
            cat_shielded(cx, opt_stmt(i2), seq![*b2]);
        },
        (Stmt::Switch { cases: k1, .. }, Stmt::Switch { cases: k2, .. }) => {
            cases_rewritten_shielded(cx, k1@, k2@, k1@.len());
        },
        (
            Stmt::Try { body: b1, catches: c1, finally: f1 },
            Stmt::Try { body: b2, catches: c2, finally: f2 },
        ) => {
            let x = catch_stmts(c1@, c1@.len());
            let y = catch_stmts(c2@, c2@.len());
            let z = match f1 {
                Some(f) => f@,
                None => Seq::empty(),
            };
            let w = match f2 {
                Some(f) => f@,
                None => Seq::empty(),
            };
            cat_checked(b1@ + x, z);
            cat_checked(b1@, x);
            all_rewritten_shielded(cx, b1@, b2@);
            catches_rewritten_shielded(cx, c1@, c2@, c1@.len());
            if let (Some(p), Some(q)) = (f1, f2) {
                all_rewritten_shielded(cx, p@, q@);
            }
            cat_shielded(cx, b2@, y);
            cat_shielded(cx, b2@ + y, w);
        },
        _ => {
            checked_is_shielded(cx, &a);
        },
    }
    assert(all_shielded(cx, stmt_kids(&b)));
    assert(stmt_exprs(&a) =~= stmt_exprs(&b));
}

proof fn finished_shielded(cx: Ctx, s: Stmt, out: Stmt)
    requires
        finished(cx, s, out),
        shielded(cx, &s, Set::empty()),
    ensures
        shielded(cx, &out, Set::empty()),
{
    if exists|safe: Seq<LocalId>| versions(cx, &s, safe) {
        let safe = choose|safe: Seq<LocalId>| #[trigger]
            versions(cx, &s, safe) && is_version(s, out, safe);
        let (iv, op, bound, body) = header_of(&s)->0;
        let p = Pass { iv, safe };
        if let Stmt::If { cond, then_branch, else_branch: Some(slow) } = out {
            marking_shields(cx, &s, &*then_branch, p, Set::empty());
            versions_kept(cx, &s, &*then_branch, iv, safe, safe);
            assert(is_guarded(cx, &out, p));
            guard_is_checked(cx, op, bound, safe, span_hint_of(&body), safe.len(), &body, iv);
            assert(stmt_kids(&out)[0] == *then_branch);
            assert(stmt_kids(&out)[1] == *slow);
            assert(stmt_exprs(&out)[0] == cond);
        }
    }
}

proof fn rewritten_shielded(cx: Ctx, a: Stmt, b: Stmt)
    requires
        rewritten(cx, a, b),
        checked(&a),
    ensures
        shielded(cx, &b, Set::empty()),
    decreases a, 1nat,
{
    let mid = choose|mid: Stmt| inside_rewritten(cx, a, mid) && #[trigger] finished(cx, mid, b);
    assert(inside_rewritten(cx, a, mid));
    inside_shielded(cx, a, mid);
    finished_shielded(cx, mid, b);
}

/// A function without unchecked accesses gets them only behind guards: in its
/// rewritten body every unchecked access is `v[i]`, where `i` is the induction
/// variable of a counted loop around it that qualifies, and that loop stands
/// behind the guard that compares its bound with the length of `v`.
pub proof fn law_unchecked_accesses_stand_behind_guards(
    vectors: &Vec<Ty>,
    shared: &Vec<CapSrc>,
    a: Function,
    b: Function,
)
    requires
        function_rewritten(vectors, shared, a, b),
        all_checked(a.body@),
    ensures
        all_shielded(Ctx { vectors, locals: &a.locals, captured: &a.captured, shared }, b.body@),
{
    all_rewritten_shielded(
        Ctx { vectors, locals: &a.locals, captured: &a.captured, shared },
        a.body@,
        b.body@,
    );
}

} // verus!
