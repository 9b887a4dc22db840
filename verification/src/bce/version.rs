//! The versioning of counted loops.

use vstd::prelude::*;

use crate::bce::facts::{collect_stmt, known, stmt_fact, Fact};
use crate::bce::mark::{as_local, hits, local_of, mark_stmt, marked_stmt, peel, peeled};
use crate::mir::{
    BinOp, CapSrc, Case, Catch, Conv, Expr, ExprKind, Function, LocalId, Program, Stmt, Ty,
};
use crate::span::{SourceId, Span};

verus! {

/// What the analysis knows of the enclosing function.
pub struct Ctx<'a> {
    /// Element types of the vector instantiations.
    pub vectors: &'a Vec<Ty>,
    /// Slot types.
    pub locals: &'a Vec<Ty>,
    /// Slots that a closure captures.
    pub captured: &'a Vec<bool>,
    /// Where the captured cells come from that some function writes.
    pub shared: &'a Vec<CapSrc>,
}

/// The local is a plain one: no closure can reach it.
pub open spec fn is_plain(cx: Ctx, l: LocalId) -> bool {
    !(l.0 < cx.captured@.len() && cx.captured@[l.0 as int])
}

/// Some closure may write the local: it is captured, and a captured cell that can
/// be that of the local is written.
pub open spec fn is_open(cx: Ctx, l: LocalId) -> bool {
    !is_plain(cx, l) && exists|i: int|
        0 <= i < cx.shared@.len() && match #[trigger] cx.shared@[i] {
            CapSrc::ParentLocal(m) => m == l,
            CapSrc::ParentCapture(_) => true,
        }
}

/// No other code writes the local while the body runs.
pub open spec fn is_steady(cx: Ctx, body: &Stmt, iv: LocalId, l: LocalId) -> bool {
    is_open(cx, l) ==> !stmt_fact(body, iv, Fact::Calls)
}

/// The local holds an unboxed numeric vector.
pub open spec fn is_numeric_vec(cx: Ctx, l: LocalId) -> bool {
    l.0 < cx.locals@.len() && match cx.locals@[l.0 as int] {
        Ty::Vector(inst) => inst < cx.vectors@.len() && match cx.vectors@[inst as int] {
            Ty::Number | Ty::Int | Ty::UInt => true,
            _ => false,
        },
        _ => false,
    }
}

// --- the loop header --------------------------------------------------------------------

/// `i = <integer literal>`.
pub open spec fn init_of(s: &Stmt) -> Option<(LocalId, int)> {
    let p = match s {
        Stmt::Assign(l, e) => Some((*l, *e)),
        Stmt::Expr(x) => match x.kind {
            ExprKind::LocalSet(l, e) => Some((l, *e)),
            _ => None,
        },
        _ => None,
    };
    match p {
        Some((l, e)) => match e.kind {
            ExprKind::Int(v) => Some((l, v as int)),
            ExprKind::UInt(v) => Some((l, v as int)),
            _ => None,
        },
        None => None,
    }
}

/// `i++` or `++i`.
pub open spec fn increments(e: &Expr, iv: LocalId) -> bool {
    match e.kind {
        ExprKind::IncDec { target, is_inc, .. } => is_inc && target == iv,
        _ => false,
    }
}

/// `i < B` or `i <= B`, conversions to Number aside.
pub open spec fn counted(e: &Expr, iv: LocalId) -> Option<(BinOp, Expr)> {
    match &e.kind {
        ExprKind::Binary(op, l, r) => if (*op == BinOp::Lt || *op == BinOp::Le) && local_of(
            peeled(&**l),
        ) == Some(iv) {
            Some((*op, *peeled(&**r)))
        } else {
            None
        },
        _ => None,
    }
}

/// A counted loop: induction variable, comparison, bound and body.
pub open spec fn header_of(s: &Stmt) -> Option<(LocalId, BinOp, Expr, Stmt)> {
    match s {
        Stmt::For { init: Some(init), cond: Some(cond), update: Some(update), body, .. } =>
            match init_of(&**init) {
                Some((iv, c)) => if c >= 0 && increments(update, iv) {
                    match counted(cond, iv) {
                        Some((op, bound)) => Some((iv, op, bound, **body)),
                        None => None,
                    }
                } else {
                    None
                },
                None => None,
            },
        _ => None,
    }
}

// --- the bound --------------------------------------------------------------------------

/// The expression has the same value throughout the loop: it is made of literals,
/// of locals other than the induction variable that neither the body nor other code
/// writes, of captures of which the same holds, and of the lengths of vectors in
/// locals that the body does not write and only uses as `v[i]` and `v.length`, and
/// that no other code reaches while it runs.
pub open spec fn is_invariant(cx: Ctx, e: &Expr, body: &Stmt, iv: LocalId) -> bool
    decreases e,
{
    match &e.kind {
        ExprKind::Int(_) | ExprKind::UInt(_) | ExprKind::Number(_) => true,
        ExprKind::LocalGet(l) => *l != iv && is_steady(cx, body, iv, *l) && !stmt_fact(
            body,
            iv,
            Fact::Writes(*l),
        ),
        ExprKind::CaptureGet(k) => !stmt_fact(body, iv, Fact::WritesCapture(*k)) && (
        cx.shared@.len() > 0 ==> !stmt_fact(body, iv, Fact::Calls)),
        ExprKind::Conv(_, inner) => is_invariant(cx, &**inner, body, iv),
        ExprKind::SeqLen(recv) => match local_of(&**recv) {
            Some(w) => (is_plain(cx, w) || !stmt_fact(body, iv, Fact::Calls)) && !stmt_fact(
                body,
                iv,
                Fact::Writes(w),
            ) && !stmt_fact(body, iv, Fact::Misuses(w)),
            None => false,
        },
        ExprKind::Binary(_, a, b) => is_invariant(cx, &**a, body, iv) && is_invariant(
            cx,
            &**b,
            body,
            iv,
        ),
        _ => false,
    }
}

// --- the guard --------------------------------------------------------------------------

/// The expression converted to Number.
pub open spec fn as_number(e: Expr) -> Expr {
    if e.ty == Ty::Number {
        e
    } else {
        Expr { ty: Ty::Number, span: e.span, kind: ExprKind::Conv(Conv::ToNumber, Box::new(e)) }
    }
}

/// The comparison that the guard makes: `i < B` reaches `B - 1`, so it needs
/// `B <= length`; `i <= B` reaches `B`, so it needs `B < length`.
pub open spec fn guard_op_of(op: BinOp) -> BinOp {
    if op == BinOp::Le {
        BinOp::Lt
    } else {
        BinOp::Le
    }
}

/// One conjunct of the guard.
pub open spec fn guard_term_of(op: BinOp, bound: Expr, v: LocalId, span: Span) -> Expr {
    let vget = Expr { ty: Ty::Vector(0), span, kind: ExprKind::LocalGet(v) };
    let len = as_number(Expr { ty: Ty::UInt, span, kind: ExprKind::SeqLen(Box::new(vget)) });
    Expr {
        ty: Ty::Boolean,
        span,
        kind: ExprKind::Binary(guard_op_of(op), Box::new(as_number(bound)), Box::new(len)),
    }
}

/// The conjunction of the first `n` terms, from the left.
pub open spec fn guard_of(op: BinOp, bound: Expr, safe: Seq<LocalId>, span: Span, n: nat) -> Expr
    decreases n,
{
    if n <= 1 {
        guard_term_of(op, bound, safe[0], span)
    } else {
        Expr {
            ty: Ty::Boolean,
            span,
            kind: ExprKind::Logical {
                is_and: true,
                lhs: Box::new(guard_of(op, bound, safe, span, (n - 1) as nat)),
                rhs: Box::new(guard_term_of(op, bound, safe[n - 1], span)),
            },
        }
    }
}

/// A span near the statement.
pub open spec fn span_hint_of(s: &Stmt) -> Span
    decreases s,
{
    let none = Span { source: SourceId(0), start: 0, end: 0 };
    match s {
        Stmt::Expr(e) => e.span,
        Stmt::Assign(_, e) => e.span,
        Stmt::Block(b) => if b@.len() > 0 {
            span_hint_of(&b@[0])
        } else {
            none
        },
        Stmt::If { cond, .. } => cond.span,
        Stmt::While { cond, .. } => cond.span,
        Stmt::DoWhile { cond, .. } => cond.span,
        Stmt::For { body, .. } => span_hint_of(&**body),
        _ => none,
    }
}

/// Whether a guard holds, given what each Number expression is worth.
pub open spec fn guard_true(g: &Expr, worth: spec_fn(Expr) -> int) -> bool
    decreases g,
{
    match &g.kind {
        ExprKind::Logical { is_and: true, lhs, rhs } => guard_true(&**lhs, worth) && guard_true(
            &**rhs,
            worth,
        ),
        ExprKind::Binary(BinOp::Lt, a, b) => worth(**a) < worth(**b),
        ExprKind::Binary(BinOp::Le, a, b) => worth(**a) <= worth(**b),
        _ => false,
    }
}

/// The length of a vector as the guard reads it.
pub open spec fn guard_len(v: LocalId, span: Span) -> Expr {
    let vget = Expr { ty: Ty::Vector(0), span, kind: ExprKind::LocalGet(v) };
    as_number(Expr { ty: Ty::UInt, span, kind: ExprKind::SeqLen(Box::new(vget)) })
}

/// The loop condition lets the index through.
pub open spec fn lets_through(op: BinOp, index: int, bound: int) -> bool {
    if op == BinOp::Le {
        index <= bound
    } else {
        index < bound
    }
}

/// Where the guard of a counted loop holds, every index that the loop
/// condition lets through is below the length of every unchecked vector,
/// whatever the bound is worth. Values are counted in units of one `unit`-th,
/// so the bound need not be whole.
pub proof fn law_guard_covers_indices(
    op: BinOp,
    bound: Expr,
    safe: Seq<LocalId>,
    span: Span,
    worth: spec_fn(Expr) -> int,
    unit: int,
    index: int,
    v: LocalId,
)
    requires
        unit > 0,
        safe.contains(v),
        guard_true(&guard_of(op, bound, safe, span, safe.len()), worth),
        lets_through(op, index * unit, worth(as_number(bound))),
    ensures
        index * unit < worth(guard_len(v, span)),
{
    let k = choose|k: int| 0 <= k < safe.len() && safe[k] == v;
    lemma_guard_term_true(op, bound, safe, span, worth, safe.len(), k);
}

proof fn lemma_guard_term_true(
    op: BinOp,
    bound: Expr,
    safe: Seq<LocalId>,
    span: Span,
    worth: spec_fn(Expr) -> int,
    n: nat,
    k: int,
)
    requires
        0 <= k < n,
        guard_true(&guard_of(op, bound, safe, span, n), worth),
    ensures
        guard_true(&guard_term_of(op, bound, safe[k], span), worth),
    decreases n,
{
    if n > 1 && k < n - 1 {
        lemma_guard_term_true(op, bound, safe, span, worth, (n - 1) as nat, k);
    }
}

// --- the decision -----------------------------------------------------------------------

/// The vector can be accessed without checks once the guard holds.
pub open spec fn is_safe(cx: Ctx, body: &Stmt, iv: LocalId, v: LocalId) -> bool {
    &&& stmt_fact(body, iv, Fact::Indexes(v))
    &&& v != iv
    &&& is_numeric_vec(cx, v)
    &&& is_plain(cx, v)
    &&& !stmt_fact(body, iv, Fact::Writes(v))
    &&& !stmt_fact(body, iv, Fact::Misuses(v))
}

pub open spec fn ascending(ls: Seq<LocalId>) -> bool {
    forall|i: int, j: int| 0 <= i < j < ls.len() ==> ls[i].0 < ls[j].0
}

/// The safe vectors, each once, in the order of their slots.
pub open spec fn is_safe_list(cx: Ctx, body: &Stmt, iv: LocalId, safe: Seq<LocalId>) -> bool {
    &&& ascending(safe)
    &&& forall|v: LocalId| #[trigger] safe.contains(v) <==> is_safe(cx, body, iv, v)
}

/// The loop is versioned, with these vectors unchecked.
pub open spec fn versions(cx: Ctx, s: &Stmt, safe: Seq<LocalId>) -> bool {
    match header_of(s) {
        Some((iv, op, bound, body)) => {
            &&& is_steady(cx, &body, iv, iv)
            &&& !stmt_fact(&body, iv, Fact::Writes(iv))
            &&& is_invariant(cx, &bound, &body, iv)
            &&& is_safe_list(cx, &body, iv, safe)
            &&& safe.len() > 0
        },
        None => false,
    }
}

/// `out` is the statement with the guard in front: a marked copy where it
/// holds, the statement itself where it does not.
pub open spec fn is_version(s: Stmt, out: Stmt, safe: Seq<LocalId>) -> bool {
    match (header_of(&s), out) {
        (
            Some((iv, op, bound, body)),
            Stmt::If { cond, then_branch, else_branch: Some(slow) },
        ) => {
            &&& cond == guard_of(op, bound, safe, span_hint_of(&body), safe.len())
            &&& marked_stmt(&s, &*then_branch, iv, safe)
            &&& *slow == s
        },
        _ => false,
    }
}

/// What becomes of a statement whose nested statements are done.
pub open spec fn finished(cx: Ctx, s: Stmt, out: Stmt) -> bool {
    if exists|safe: Seq<LocalId>| versions(cx, &s, safe) {
        exists|safe: Seq<LocalId>| #[trigger] versions(cx, &s, safe) && is_version(s, out, safe)
    } else {
        out == s
    }
}

/// Which vectors a versioned loop accesses unchecked is determined: two lists
/// that qualify are equal.
pub proof fn law_safe_list_is_unique(
    cx: Ctx,
    body: &Stmt,
    iv: LocalId,
    a: Seq<LocalId>,
    b: Seq<LocalId>,
)
    requires
        is_safe_list(cx, body, iv, a),
        is_safe_list(cx, body, iv, b),
    ensures
        a == b,
    decreases a.len() + b.len(),
{
    lemma_same_members(a, b);
}

proof fn lemma_same_members(a: Seq<LocalId>, b: Seq<LocalId>)
    requires
        ascending(a),
        ascending(b),
        forall|v: LocalId| a.contains(v) <==> b.contains(v),
    ensures
        a == b,
    decreases a.len() + b.len(),
{
    if a.len() == 0 || b.len() == 0 {
        if a.len() > 0 {
            assert(a.contains(a[0]));
        }
        if b.len() > 0 {
            assert(b.contains(b[0]));
        }
        assert(a =~= b);
    } else {
        assert(a.contains(a.last()));
        assert(b.contains(b.last()));
        assert(a.last() == b.last());
        let x = a.drop_last();
        let y = b.drop_last();
        assert forall|v: LocalId| x.contains(v) <==> y.contains(v) by {
            if x.contains(v) {
                let i = choose|i: int| 0 <= i < x.len() && x[i] == v;
                assert(a[i] == v);
                assert(a.contains(v));
                let j = choose|j: int| 0 <= j < b.len() && b[j] == v;
                assert(y[j] == v);
            }
            if y.contains(v) {
                let i = choose|i: int| 0 <= i < y.len() && y[i] == v;
                assert(b[i] == v);
                assert(b.contains(v));
                let j = choose|j: int| 0 <= j < a.len() && a[j] == v;
                assert(x[j] == v);
            }
        }
        lemma_same_members(x, y);
        assert(a =~= x.push(a.last()));
        assert(b =~= y.push(b.last()));
    }
}

/// An access that a versioned loop marks unchecked is one of an unboxed numeric
/// vector in a plain local, at the bare induction variable, which no other code
/// writes; neither is written in the body, and the vector is only ever used as
/// `v[i]` and `v.length`.
pub proof fn law_only_safe_accesses_are_marked(
    cx: Ctx,
    s: Stmt,
    safe: Seq<LocalId>,
    recv: Expr,
    idx: Expr,
)
    requires
        versions(cx, &s, safe),
        hits(&recv, &idx, (header_of(&s)->0).0, safe),
    ensures
        ({
            let (iv, op, bound, body) = header_of(&s)->0;
            &&& local_of(peeled(&idx)) == Some(iv)
            &&& is_steady(cx, &body, iv, iv)
            &&& !stmt_fact(&body, iv, Fact::Writes(iv))
            &&& local_of(&recv) matches Some(v) && is_numeric_vec(cx, v) && is_plain(cx, v)
                && !stmt_fact(&body, iv, Fact::Writes(v)) && !stmt_fact(&body, iv, Fact::Misuses(v))
        }),
{
    let (iv, op, bound, body) = header_of(&s)->0;
    let v = local_of(&recv)->0;
    assert(safe.contains(v));
}

/// A loop in which no vector qualifies stays as it is, and one in which some
/// does keeps the loop as it is for where the guard fails.
pub proof fn law_the_slow_path_is_the_loop(cx: Ctx, s: Stmt, out: Stmt)
    requires
        finished(cx, s, out),
    ensures
        out == s || (out matches Stmt::If { else_branch: Some(slow), .. } && *slow == s),
{
}

// --- the rewriting of a tree --------------------------------------------------------------

pub open spec fn rewritten_all(cx: Ctx, a: Seq<Stmt>, b: Seq<Stmt>) -> bool
    decreases a, 2nat,
{
    a.len() == b.len() && forall|i: int|
        #![trigger a[i]]
        #![trigger b[i]]
        0 <= i < a.len() ==> rewritten(cx, a[i], b[i])
}

pub open spec fn rewritten_opt(cx: Ctx, a: Option<Box<Stmt>>, b: Option<Box<Stmt>>) -> bool
    decreases a, 2nat,
{
    match (a, b) {
        (Some(x), Some(y)) => rewritten(cx, *x, *y),
        (None, None) => true,
        _ => false,
    }
}

pub open spec fn rewritten_cases(cx: Ctx, a: Seq<Case>, b: Seq<Case>) -> bool
    decreases a, 2nat,
{
    a.len() == b.len() && forall|i: int|
        #![trigger a[i]]
        #![trigger b[i]]
        0 <= i < a.len() ==> a[i].test == b[i].test && rewritten_all(cx, a[i].body@, b[i].body@)
}

pub open spec fn rewritten_catches(cx: Ctx, a: Seq<Catch>, b: Seq<Catch>) -> bool
    decreases a, 2nat,
{
    a.len() == b.len() && forall|i: int|
        #![trigger a[i]]
        #![trigger b[i]]
        0 <= i < a.len() ==> a[i].binding == b[i].binding && rewritten_all(
            cx,
            a[i].body@,
            b[i].body@,
        )
}

/// `b` is `a` with its nested statements rewritten.
pub open spec fn inside_rewritten(cx: Ctx, a: Stmt, b: Stmt) -> bool
    decreases a, 0nat,
{
    match a {
        Stmt::Block(x) => {
            &&& b matches Stmt::Block(y)
            &&& rewritten_all(cx, x@, y@)
        },
        Stmt::If { cond: c1, then_branch: t1, else_branch: e1 } => {
            &&& b matches Stmt::If { cond: c2, then_branch: t2, else_branch: e2 }
            &&& c1 == c2
            &&& rewritten(cx, *t1, *t2)
            &&& rewritten_opt(cx, e1, e2)
        },
        Stmt::While { label: l1, cond: c1, body: b1 } => {
            &&& b matches Stmt::While { label: l2, cond: c2, body: b2 }
            &&& l1 == l2
            &&& c1 == c2
            &&& rewritten(cx, *b1, *b2)
        },
        Stmt::DoWhile { label: l1, body: b1, cond: c1 } => {
            &&& b matches Stmt::DoWhile { label: l2, body: b2, cond: c2 }
            &&& l1 == l2
            &&& c1 == c2
            &&& rewritten(cx, *b1, *b2)
        },
        Stmt::For { label: l1, init: i1, cond: c1, update: u1, body: b1 } => {
            &&& b matches Stmt::For { label: l2, init: i2, cond: c2, update: u2, body: b2 }
            &&& l1 == l2
            &&& i1 == i2
            &&& c1 == c2
            &&& u1 == u2
            &&& rewritten(cx, *b1, *b2)
        },
        Stmt::Switch { scrutinee: s1, cases: k1 } => {
            &&& b matches Stmt::Switch { scrutinee: s2, cases: k2 }
            &&& s1 == s2
            &&& rewritten_cases(cx, k1@, k2@)
        },
        Stmt::Try { body: b1, catches: c1, finally: f1 } => {
            &&& b matches Stmt::Try { body: b2, catches: c2, finally: f2 }
            &&& rewritten_all(cx, b1@, b2@)
            &&& rewritten_catches(cx, c1@, c2@)
            &&& match (f1, f2) {
                (Some(x), Some(y)) => rewritten_all(cx, x@, y@),
                (None, None) => true,
                _ => false,
            }
        },
        _ => b == a,
    }
}

/// `b` is `a` rewritten: nested statements first, then the statement itself.
pub open spec fn rewritten(cx: Ctx, a: Stmt, b: Stmt) -> bool
    decreases a, 1nat,
{
    exists|mid: Stmt| inside_rewritten(cx, a, mid) && #[trigger] finished(cx, mid, b)
}

// --- execution ----------------------------------------------------------------------------

fn init_var(s: &Stmt) -> (r: Option<(LocalId, i64)>)
    ensures
        match r {
            Some((l, c)) => init_of(s) == Some((l, c as int)),
            None => init_of(s) is None,
        },
{
    let (l, e) = match s {
        Stmt::Assign(l, e) => (*l, e),
        Stmt::Expr(x) => match &x.kind {
            ExprKind::LocalSet(l, e) => (*l, &**e),
            _ => {
                return None;
            },
        },
        _ => {
            return None;
        },
    };
    match e.kind {
        ExprKind::Int(v) => Some((l, v as i64)),
        ExprKind::UInt(v) => Some((l, v as i64)),
        _ => None,
    }
}

fn is_inc_of(e: &Expr, iv: LocalId) -> (r: bool)
    ensures
        r == increments(e, iv),
{
    match e.kind {
        ExprKind::IncDec { target, is_inc, .. } => is_inc && target == iv,
        _ => false,
    }
}

fn counted_cond<'e>(e: &'e Expr, iv: LocalId) -> (r: Option<(BinOp, &'e Expr)>)
    ensures
        match r {
            Some((op, b)) => counted(e, iv) == Some((op, *b)),
            None => counted(e, iv) is None,
        },
{
    match &e.kind {
        ExprKind::Binary(op, l, rhs) => {
            if *op != BinOp::Lt && *op != BinOp::Le {
                return None;
            }
            match as_local(peel(l)) {
                Some(i) => if i == iv {
                    Some((*op, peel(rhs)))
                } else {
                    None
                },
                None => None,
            }
        },
        _ => None,
    }
}

/// The facts of a loop body.
pub open spec fn facts_of(fs: Seq<Fact>, body: &Stmt, iv: LocalId) -> bool {
    forall|f: Fact| #[trigger] fs.contains(f) <==> stmt_fact(body, iv, f)
}

fn num(e: Expr) -> (r: Expr)
    ensures
        r == as_number(e),
{
    if e.ty == Ty::Number {
        return e;
    }
    Expr { ty: Ty::Number, span: e.span, kind: ExprKind::Conv(Conv::ToNumber, Box::new(e)) }
}

fn span_hint(s: &Stmt) -> (r: Span)
    ensures
        r == span_hint_of(s),
    decreases s,
{
    match s {
        Stmt::Expr(e) | Stmt::Assign(_, e) => e.span,
        Stmt::Block(b) => if b.len() > 0 {
            span_hint(&b[0])
        } else {
            Span::new(SourceId(0), 0, 0)
        },
        Stmt::If { cond, .. } => cond.span,
        Stmt::While { cond, .. } | Stmt::DoWhile { cond, .. } => cond.span,
        Stmt::For { body, .. } => span_hint(body),
        _ => Span::new(SourceId(0), 0, 0),
    }
}

/// Inserts a local into an ascending list, unless it is there.
fn insert_sorted(ls: &mut Vec<LocalId>, l: LocalId)
    requires
        ascending(old(ls)@),
    ensures
        ascending(final(ls)@),
        forall|m: LocalId| #[trigger] final(ls)@.contains(m) <==> old(ls)@.contains(m) || m == l,
{
    let ghost before = ls@;
    let mut k: usize = 0;
    while k < ls.len() && ls[k].0 < l.0
        invariant
            ls@ == before,
            k <= before.len(),
            forall|i: int| 0 <= i < k ==> before[i].0 < l.0,
        decreases before.len() - k,
    {
        k = k + 1;
    }
    if k < ls.len() && ls[k].0 == l.0 {
        assert(before[k as int] == l);
        return;
    }
    ls.insert(k, l);
    assert(ls@ == before.insert(k as int, l));
    assert forall|m: LocalId| #[trigger] ls@.contains(m) <==> before.contains(m) || m == l by {
        if before.contains(m) {
            let i = choose|i: int| 0 <= i < before.len() && before[i] == m;
            if i < k {
                assert(ls@[i] == m);
            } else {
                assert(ls@[i + 1] == m);
            }
        }
        if m == l {
            assert(ls@[k as int] == l);
        }
        if ls@.contains(m) {
            let i = choose|i: int| 0 <= i < ls@.len() && ls@[i] == m;
            if i < k {
                assert(before[i] == m);
            } else if i > k {
                assert(before[i - 1] == m);
            }
        }
    }
    assert forall|i: int, j: int| 0 <= i < j < ls@.len() implies ls@[i].0 < ls@[j].0 by {
        if k < before.len() {
            assert(before[k as int].0 > l.0);
            if j > k + 1 {
                assert(before[k as int].0 < before[j - 1].0);
            }
        }
    }
}

impl<'a> Ctx<'a> {
    /// Whether the local holds an unboxed numeric vector.
    pub fn numeric_vec_local(&self, l: LocalId) -> (r: bool)
        ensures
            r == is_numeric_vec(*self, l),
    {
        if l.0 as usize >= self.locals.len() {
            return false;
        }
        match self.locals[l.0 as usize] {
            Ty::Vector(inst) => {
                if inst as usize >= self.vectors.len() {
                    return false;
                }
                match self.vectors[inst as usize] {
                    Ty::Number | Ty::Int | Ty::UInt => true,
                    _ => false,
                }
            },
            _ => false,
        }
    }

    fn plain_local(&self, l: LocalId) -> (r: bool)
        ensures
            r == is_plain(*self, l),
    {
        !((l.0 as usize) < self.captured.len() && self.captured[l.0 as usize])
    }

    fn open_local(&self, l: LocalId) -> (r: bool)
        ensures
            r == is_open(*self, l),
    {
        if self.plain_local(l) {
            return false;
        }
        let mut k: usize = 0;
        while k < self.shared.len()
            invariant
                k <= self.shared@.len(),
                !is_plain(*self, l),
                forall|i: int|
                    0 <= i < k ==> !(match #[trigger] self.shared@[i] {
                        CapSrc::ParentLocal(m) => m == l,
                        CapSrc::ParentCapture(_) => true,
                    }),
            decreases self.shared@.len() - k,
        {
            let hit = match self.shared[k] {
                CapSrc::ParentLocal(m) => m == l,
                CapSrc::ParentCapture(_) => true,
            };
            if hit {
                return true;
            }
            k = k + 1;
        }
        false
    }

    fn steady_local(&self, l: LocalId, fs: &Vec<Fact>, iv: LocalId, Ghost(body): Ghost<Stmt>) -> (r:
        bool)
        requires
            facts_of(fs@, &body, iv),
        ensures
            r == is_steady(*self, &body, iv, l),
    {
        !self.open_local(l) || !known(fs, Fact::Calls)
    }

    /// Whether a bound is invariant, given the facts of the body.
    fn invariant_bound(
        &self,
        e: &Expr,
        fs: &Vec<Fact>,
        iv: LocalId,
        Ghost(body): Ghost<Stmt>,
    ) -> (r: bool)
        requires
            facts_of(fs@, &body, iv),
        ensures
            r == is_invariant(*self, e, &body, iv),
        decreases e,
    {
        match &e.kind {
            ExprKind::Int(_) | ExprKind::UInt(_) | ExprKind::Number(_) => true,
            ExprKind::LocalGet(l) => *l != iv && self.steady_local(*l, fs, iv, Ghost(body)) && !known(
                fs,
                Fact::Writes(*l),
            ),
            ExprKind::CaptureGet(k) => !known(fs, Fact::WritesCapture(*k)) && (self.shared.len()
                == 0 || !known(fs, Fact::Calls)),
            ExprKind::Conv(_, inner) => self.invariant_bound(inner, fs, iv, Ghost(body)),
            ExprKind::SeqLen(recv) => match as_local(recv) {
                Some(w) => (self.plain_local(w) || !known(fs, Fact::Calls)) && !known(
                    fs,
                    Fact::Writes(w),
                ) && !known(fs, Fact::Misuses(w)),
                None => false,
            },
            ExprKind::Binary(_, a, b) => self.invariant_bound(a, fs, iv, Ghost(body))
                && self.invariant_bound(b, fs, iv, Ghost(body)),
            _ => false,
        }
    }

    /// A copy of an invariant expression.
    fn copy_bound(&self, e: &Expr, Ghost(body): Ghost<Stmt>, Ghost(iv): Ghost<LocalId>) -> (r: Expr)
        requires
            is_invariant(*self, e, &body, iv),
        ensures
            r == *e,
        decreases e,
    {
        let kind = match &e.kind {
            ExprKind::Int(v) => ExprKind::Int(*v),
            ExprKind::UInt(v) => ExprKind::UInt(*v),
            ExprKind::Number(v) => ExprKind::Number(*v),
            ExprKind::LocalGet(l) => ExprKind::LocalGet(*l),
            ExprKind::CaptureGet(k) => ExprKind::CaptureGet(*k),
            ExprKind::Conv(c, inner) => ExprKind::Conv(
                *c,
                Box::new(self.copy_bound(inner, Ghost(body), Ghost(iv))),
            ),
            ExprKind::SeqLen(recv) => {
                let w = match recv.kind {
                    ExprKind::LocalGet(l) => l,
                    _ => LocalId(0),
                };
                ExprKind::SeqLen(
                    Box::new(Expr { ty: recv.ty, span: recv.span, kind: ExprKind::LocalGet(w) }),
                )
            },
            ExprKind::Binary(op, a, b) => ExprKind::Binary(
                *op,
                Box::new(self.copy_bound(a, Ghost(body), Ghost(iv))),
                Box::new(self.copy_bound(b, Ghost(body), Ghost(iv))),
            ),
            _ => ExprKind::Null,
        };
        Expr { ty: e.ty, span: e.span, kind }
    }

    fn guard_term(
        &self,
        op: BinOp,
        bound: &Expr,
        v: LocalId,
        span: Span,
        Ghost(body): Ghost<Stmt>,
        Ghost(iv): Ghost<LocalId>,
    ) -> (r: Expr)
        requires
            is_invariant(*self, bound, &body, iv),
        ensures
            r == guard_term_of(op, *bound, v, span),
    {
        let by = if op == BinOp::Le {
            BinOp::Lt
        } else {
            BinOp::Le
        };
        let vget = Expr { ty: Ty::Vector(0), span, kind: ExprKind::LocalGet(v) };
        let len = num(Expr { ty: Ty::UInt, span, kind: ExprKind::SeqLen(Box::new(vget)) });
        let b = num(self.copy_bound(bound, Ghost(body), Ghost(iv)));
        Expr { ty: Ty::Boolean, span, kind: ExprKind::Binary(by, Box::new(b), Box::new(len)) }
    }

    fn guard(
        &self,
        op: BinOp,
        bound: &Expr,
        safe: &Vec<LocalId>,
        span: Span,
        Ghost(body): Ghost<Stmt>,
        Ghost(iv): Ghost<LocalId>,
    ) -> (r: Expr)
        requires
            safe@.len() > 0,
            is_invariant(*self, bound, &body, iv),
        ensures
            r == guard_of(op, *bound, safe@, span, safe@.len()),
    {
        let mut acc = self.guard_term(op, bound, safe[0], span, Ghost(body), Ghost(iv));
        let mut k: usize = 1;
        while k < safe.len()
            invariant
                1 <= k <= safe@.len(),
                is_invariant(*self, bound, &body, iv),
                acc == guard_of(op, *bound, safe@, span, k as nat),
            decreases safe@.len() - k,
        {
            let t = self.guard_term(op, bound, safe[k], span, Ghost(body), Ghost(iv));
            acc = Expr {
                ty: Ty::Boolean,
                span,
                kind: ExprKind::Logical { is_and: true, lhs: Box::new(acc), rhs: Box::new(t) },
            };
            k = k + 1;
        }
        acc
    }

    /// The safe vectors among the indexed ones.
    fn safe_locals(&self, fs: &Vec<Fact>, iv: LocalId, Ghost(body): Ghost<Stmt>) -> (r: Vec<LocalId>)
        requires
            facts_of(fs@, &body, iv),
        ensures
            is_safe_list(*self, &body, iv, r@),
    {
        let mut safe: Vec<LocalId> = Vec::new();
        let mut k: usize = 0;
        while k < fs.len()
            invariant
                k <= fs@.len(),
                facts_of(fs@, &body, iv),
                ascending(safe@),
                forall|v: LocalId| #[trigger]
                    safe@.contains(v) ==> is_safe(*self, &body, iv, v),
                forall|v: LocalId, i: int|
                    0 <= i < k && #[trigger] fs@[i] == Fact::Indexes(v) && #[trigger] is_safe(
                        *self,
                        &body,
                        iv,
                        v,
                    ) ==> safe@.contains(v),
            decreases fs@.len() - k,
        {
            if let Fact::Indexes(v) = fs[k] {
                assert(fs@.contains(Fact::Indexes(v))) by {
                    assert(fs@[k as int] == Fact::Indexes(v));
                }
                if v != iv && self.numeric_vec_local(v) && self.plain_local(v) && !known(
                    fs,
                    Fact::Writes(v),
                ) && !known(fs, Fact::Misuses(v)) {
                    insert_sorted(&mut safe, v);
                }
            }
            k = k + 1;
        }
        assert forall|v: LocalId| #[trigger] safe@.contains(v) <==> is_safe(
            *self,
            &body,
            iv,
            v,
        ) by {
            if is_safe(*self, &body, iv, v) {
                assert(fs@.contains(Fact::Indexes(v)));
                let i = choose|i: int| 0 <= i < fs@.len() && fs@[i] == Fact::Indexes(v);
                assert(fs@[i] == Fact::Indexes(v));
            }
        }
        safe
    }

    /// The guard, the induction variable and the safe vectors of a loop that
    /// can be versioned.
    fn try_version(&self, s: &Stmt) -> (r: Option<(Expr, LocalId, Vec<LocalId>)>)
        ensures
            match r {
                Some((g, iv, safe)) => {
                    &&& versions(*self, s, safe@)
                    &&& header_of(s) matches Some((i, op, bound, body))
                    &&& i == iv
                    &&& g == guard_of(op, bound, safe@, span_hint_of(&body), safe@.len())
                },
                None => forall|safe: Seq<LocalId>| !versions(*self, s, safe),
            },
    {
        match s {
            Stmt::For { init: Some(init), cond: Some(cond), update: Some(update), body, .. } => {
                let (iv, c0): (LocalId, i64) = match init_var(init) {
                    Some(x) => x,
                    None => {
                        return None;
                    },
                };
                if c0 < 0 || !is_inc_of(update, iv) {
                    return None;
                }
                let (op, bound) = match counted_cond(cond, iv) {
                    Some(x) => x,
                    None => {
                        return None;
                    },
                };
                let ghost b = **body;
                let mut fs: Vec<Fact> = Vec::new();
                collect_stmt(body, iv, &mut fs);
                assert(facts_of(fs@, &b, iv));
                if !self.steady_local(iv, &fs, iv, Ghost(b)) || known(&fs, Fact::Writes(iv)) {
                    return None;
                }
                if !self.invariant_bound(bound, &fs, iv, Ghost(b)) {
                    return None;
                }
                let safe = self.safe_locals(&fs, iv, Ghost(b));
                if safe.len() == 0 {
                    assert forall|other: Seq<LocalId>| !versions(*self, s, other) by {
                        if other.len() > 0 && is_safe_list(*self, &b, iv, other) {
                            assert(other.contains(other[0]));
                            assert(safe@.contains(other[0]));
                        }
                    }
                    return None;
                }
                let g = self.guard(op, bound, &safe, span_hint(body), Ghost(b), Ghost(iv));
                Some((g, iv, safe))
            },
            _ => None,
        }
    }

    fn finish(&self, s: Stmt) -> (r: Stmt)
        ensures
            finished(*self, s, r),
    {
        match self.try_version(&s) {
            Some((cond, iv, safe)) => {
                let fast = mark_stmt(&s, iv, &safe);
                let out = Stmt::If {
                    cond,
                    then_branch: Box::new(fast),
                    else_branch: Some(Box::new(s)),
                };
                assert(is_version(s, out, safe@));
                out
            },
            None => s,
        }
    }

    fn rewrite_all(&self, list: Vec<Stmt>) -> (r: Vec<Stmt>)
        ensures
            rewritten_all(*self, list@, r@),
        decreases list, 2nat,
    {
        let mut ss = list;
        let ghost orig = ss@;
        let mut k: usize = 0;
        while k < ss.len()
            invariant
                k <= ss@.len(),
                ss@.len() == orig.len(),
                forall|i: int| 0 <= i < orig.len() ==> decreases_to!(list => #[trigger] orig[i]),
                forall|i: int| k <= i < orig.len() ==> ss@[i] == #[trigger] orig[i],
                forall|i: int|
                    #![trigger orig[i]]
                    #![trigger ss@[i]]
                    0 <= i < k ==> rewritten(*self, orig[i], ss@[i]),
            decreases ss@.len() - k,
        {
            let mut s = Stmt::Empty;
            std::mem::swap(&mut ss[k], &mut s);
            assert(s == orig[k as int]);
            let done = self.rewrite(s);
            ss[k] = done;
            k = k + 1;
        }
        ss
    }

    fn rewrite_cases(&self, list: Vec<Case>) -> (r: Vec<Case>)
        ensures
            rewritten_cases(*self, list@, r@),
        decreases list, 2nat,
    {
        let mut cs = list;
        let ghost orig = cs@;
        let mut k: usize = 0;
        while k < cs.len()
            invariant
                k <= cs@.len(),
                cs@.len() == orig.len(),
                forall|i: int|
                    0 <= i < orig.len() ==> decreases_to!(list => (#[trigger] orig[i]).body),
                forall|i: int| k <= i < orig.len() ==> cs@[i] == #[trigger] orig[i],
                forall|i: int|
                    #![trigger orig[i]]
                    #![trigger cs@[i]]
                    0 <= i < k ==> orig[i].test == cs@[i].test && rewritten_all(
                        *self,
                        orig[i].body@,
                        cs@[i].body@,
                    ),
            decreases cs@.len() - k,
        {
            let mut c = Case { test: None, body: Vec::new() };
            std::mem::swap(&mut cs[k], &mut c);
            assert(c == orig[k as int]);
            let Case { test, body } = c;
            let body = self.rewrite_all(body);
            cs[k] = Case { test, body };
            k = k + 1;
        }
        cs
    }

    fn rewrite_catches(&self, list: Vec<Catch>) -> (r: Vec<Catch>)
        ensures
            rewritten_catches(*self, list@, r@),
        decreases list, 2nat,
    {
        let mut cs = list;
        let ghost orig = cs@;
        let mut k: usize = 0;
        while k < cs.len()
            invariant
                k <= cs@.len(),
                cs@.len() == orig.len(),
                forall|i: int|
                    0 <= i < orig.len() ==> decreases_to!(list => (#[trigger] orig[i]).body),
                forall|i: int| k <= i < orig.len() ==> cs@[i] == #[trigger] orig[i],
                forall|i: int|
                    #![trigger orig[i]]
                    #![trigger cs@[i]]
                    0 <= i < k ==> orig[i].binding == cs@[i].binding && rewritten_all(
                        *self,
                        orig[i].body@,
                        cs@[i].body@,
                    ),
            decreases cs@.len() - k,
        {
            let mut c = Catch { binding: LocalId(0), body: Vec::new() };
            std::mem::swap(&mut cs[k], &mut c);
            assert(c == orig[k as int]);
            let Catch { binding, body } = c;
            let body = self.rewrite_all(body);
            cs[k] = Catch { binding, body };
            k = k + 1;
        }
        cs
    }

    fn rewrite_opt(&self, s: Option<Box<Stmt>>) -> (r: Option<Box<Stmt>>)
        ensures
            rewritten_opt(*self, s, r),
        decreases s, 2nat,
    {
        match s {
            Some(x) => Some(Box::new(self.rewrite(*x))),
            None => None,
        }
    }

    /// Rewrites nested loops first, then the statement itself.
    pub fn rewrite(&self, s: Stmt) -> (r: Stmt)
        ensures
            rewritten(*self, s, r),
        decreases s, 1nat,
    {
        let ghost before = s;
        let mid = match s {
            Stmt::Block(b) => Stmt::Block(self.rewrite_all(b)),
            Stmt::If { cond, then_branch, else_branch } => Stmt::If {
                cond,
                then_branch: Box::new(self.rewrite(*then_branch)),
                else_branch: self.rewrite_opt(else_branch),
            },
            Stmt::While { label, cond, body } => Stmt::While {
                label,
                cond,
                body: Box::new(self.rewrite(*body)),
            },
            Stmt::DoWhile { label, body, cond } => Stmt::DoWhile {
                label,
                body: Box::new(self.rewrite(*body)),
                cond,
            },
            Stmt::For { label, init, cond, update, body } => Stmt::For {
                label,
                init,
                cond,
                update,
                body: Box::new(self.rewrite(*body)),
            },
            Stmt::Switch { scrutinee, cases } => Stmt::Switch {
                scrutinee,
                cases: self.rewrite_cases(cases),
            },
            Stmt::Try { body, catches, finally } => Stmt::Try {
                body: self.rewrite_all(body),
                catches: self.rewrite_catches(catches),
                finally: match finally {
                    Some(f) => Some(self.rewrite_all(f)),
                    None => None,
                },
            },
            other => other,
        };
        assert(inside_rewritten(*self, before, mid));
        self.finish(mid)
    }
}

/// The function writes its captured cell `k`.
pub open spec fn writes_cell(f: Function, k: usize) -> bool {
    exists|i: int|
        0 <= i < f.body@.len() && stmt_fact(
            &#[trigger] f.body@[i],
            LocalId(0),
            Fact::WritesCapture(k),
        )
}

/// A function writes a captured cell that comes from there.
pub open spec fn writes_from(f: Function, s: CapSrc) -> bool {
    exists|k: usize| #[trigger] writes_cell(f, k) && k < f.captures@.len() && f.captures@[k as int] == s
}

/// The list holds where the captured cells come from that some function writes.
pub open spec fn is_shared_list(functions: Seq<Function>, shared: Seq<CapSrc>) -> bool {
    forall|s: CapSrc| #[trigger]
        shared.contains(s) <==> exists|i: int|
            0 <= i < functions.len() && writes_from(#[trigger] functions[i], s)
}

/// Adds where the captured cells come from that the function writes.
fn note_shared(f: &Function, out: &mut Vec<CapSrc>)
    ensures
        forall|s: CapSrc| #[trigger]
            final(out)@.contains(s) <==> old(out)@.contains(s) || writes_from(*f, s),
{
    let mut fs: Vec<Fact> = Vec::new();
    let mut k: usize = 0;
    while k < f.body.len()
        invariant
            k <= f.body@.len(),
            forall|g: Fact| #[trigger]
                fs@.contains(g) <==> exists|i: int|
                    0 <= i < k && stmt_fact(&#[trigger] f.body@[i], LocalId(0), g),
        decreases f.body@.len() - k,
    {
        let ghost before = fs@;
        collect_stmt(&f.body[k], LocalId(0), &mut fs);
        assert forall|g: Fact| #[trigger] fs@.contains(g) <==> exists|i: int|
            0 <= i < k + 1 && stmt_fact(&#[trigger] f.body@[i], LocalId(0), g) by {
            assert(fs@.contains(g) <==> before.contains(g) || stmt_fact(
                &f.body@[k as int],
                LocalId(0),
                g,
            ));
        }
        k = k + 1;
    }
    assert(forall|c: usize| #[trigger]
        writes_cell(*f, c) <==> fs@.contains(Fact::WritesCapture(c)));
    let ghost out0 = out@;
    let mut j: usize = 0;
    while j < fs.len()
        invariant
            j <= fs@.len(),
            forall|c: usize| #[trigger]
                writes_cell(*f, c) <==> fs@.contains(Fact::WritesCapture(c)),
            forall|s: CapSrc| #[trigger]
                out@.contains(s) ==> out0.contains(s) || writes_from(*f, s),
            forall|s: CapSrc| out0.contains(s) ==> #[trigger] out@.contains(s),
            forall|c: usize, i: int|
                0 <= i < j && #[trigger] fs@[i] == Fact::WritesCapture(c) && c < f.captures@.len()
                    ==> out@.contains(#[trigger] f.captures@[c as int]),
        decreases fs@.len() - j,
    {
        if let Fact::WritesCapture(c) = fs[j] {
            assert(fs@.contains(Fact::WritesCapture(c))) by {
                assert(fs@[j as int] == Fact::WritesCapture(c));
            }
            if c < f.captures.len() {
                let ghost before = out@;
                let s = f.captures[c];
                assert(writes_cell(*f, c));
                assert(writes_from(*f, s));
                out.push(s);
                assert(out@[before.len() as int] == s);
                assert forall|x: CapSrc| #[trigger] out@.contains(x) implies before.contains(x) || x
                    == s by {
                    let i = choose|i: int| 0 <= i < out@.len() && out@[i] == x;
                    if i < before.len() {
                        assert(before[i] == x);
                    }
                }
                assert forall|x: CapSrc| before.contains(x) implies #[trigger] out@.contains(x) by {
                    let i = choose|i: int| 0 <= i < before.len() && before[i] == x;
                    assert(out@[i] == x);
                }
            }
        }
        j = j + 1;
    }
    assert forall|s: CapSrc| #[trigger] out@.contains(s) <==> out0.contains(s) || writes_from(
        *f,
        s,
    ) by {
        if writes_from(*f, s) {
            let c = choose|c: usize| #[trigger]
                writes_cell(*f, c) && c < f.captures@.len() && f.captures@[c as int] == s;
            assert(fs@.contains(Fact::WritesCapture(c)));
            let i = choose|i: int| 0 <= i < fs@.len() && fs@[i] == Fact::WritesCapture(c);
            assert(fs@[i] == Fact::WritesCapture(c));
            assert(out@.contains(f.captures@[c as int]));
        }
    }
}

fn shared_cells(functions: &Vec<Function>) -> (r: Vec<CapSrc>)
    ensures
        is_shared_list(functions@, r@),
{
    let mut out: Vec<CapSrc> = Vec::new();
    let mut k: usize = 0;
    while k < functions.len()
        invariant
            k <= functions@.len(),
            forall|s: CapSrc| #[trigger]
                out@.contains(s) <==> exists|i: int|
                    0 <= i < k && writes_from(#[trigger] functions@[i], s),
        decreases functions@.len() - k,
    {
        let ghost before = out@;
        note_shared(&functions[k], &mut out);
        assert forall|s: CapSrc| #[trigger] out@.contains(s) <==> exists|i: int|
            0 <= i < k + 1 && writes_from(#[trigger] functions@[i], s) by {
            assert(out@.contains(s) <==> before.contains(s) || writes_from(functions@[k as int], s));
        }
        k = k + 1;
    }
    out
}

/// The function with its body rewritten.
pub open spec fn function_rewritten(
    vectors: &Vec<Ty>,
    shared: &Vec<CapSrc>,
    a: Function,
    b: Function,
) -> bool {
    &&& rewritten_all(
        Ctx { vectors, locals: &a.locals, captured: &a.captured, shared },
        a.body@,
        b.body@,
    )
    &&& b == (Function { body: b.body, ..a })
}

/// Every function of the program is rewritten, and nothing else.
pub open spec fn program_rewritten(a: Program, b: Program, shared: &Vec<CapSrc>) -> bool {
    &&& b == (Program { functions: b.functions, ..a })
    &&& b.functions@.len() == a.functions@.len()
    &&& forall|i: int|
        #![trigger b.functions@[i]]
        0 <= i < a.functions@.len() ==> function_rewritten(
            &a.vectors,
            shared,
            a.functions@[i],
            b.functions@[i],
        )
}

/// Runs bounds-check elimination over every function body, if it is enabled.
pub fn run(program: &mut Program, enabled: bool)
    ensures
        !enabled ==> *final(program) == *old(program),
        enabled ==> exists|shared: Vec<CapSrc>| #[trigger]
            is_shared_list(old(program).functions@, shared@) && program_rewritten(
                *old(program),
                *final(program),
                &shared,
            ),
{
    if !enabled {
        return;
    }
    let ghost before = *program;
    let shared = shared_cells(&program.functions);
    let mut k: usize = 0;
    while k < program.functions.len()
        invariant
            k <= program.functions@.len(),
            *program == (Program { functions: program.functions, ..before }),
            program.functions@.len() == before.functions@.len(),
            forall|i: int|
                k <= i < before.functions@.len() ==> program.functions@[i]
                    == #[trigger] before.functions@[i],
            forall|i: int|
                #![trigger program.functions@[i]]
                0 <= i < k ==> function_rewritten(
                    &before.vectors,
                    &shared,
                    before.functions@[i],
                    program.functions@[i],
                ),
        decreases program.functions@.len() - k,
    {
        let mut body: Vec<Stmt> = Vec::new();
        std::mem::swap(&mut program.functions[k].body, &mut body);
        let cx = Ctx {
            vectors: &program.vectors,
            locals: &program.functions[k].locals,
            captured: &program.functions[k].captured,
            shared: &shared,
        };
        let done = cx.rewrite_all(body);
        program.functions[k].body = done;
        k = k + 1;
    }
    assert(is_shared_list(before.functions@, shared@));
    assert(program_rewritten(before, *program, &shared));
}

} // verus!
