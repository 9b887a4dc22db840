//! A marked copy has the parts of what it was copied from, marked, and does
//! the same to the locals.

use vstd::prelude::*;

use crate::bce::facts::{binds, counts, does, expr_fact, stmt_does, stmt_fact, Fact};
use crate::bce::mark::{
    hits, is_call, is_leaf, is_member, is_method, is_operator, is_sequence, is_storage, local_of, marked, marked_all, marked_box, marked_call, marked_cases, marked_catches,
    marked_kind, marked_leaf, marked_member, marked_method, marked_operator, marked_opt,
    marked_opts, marked_props, marked_sequence, marked_stmt, marked_stmts, marked_storage, peeled,
};
use crate::bce::walk::{
    case_stmts, case_tests, catch_stmts, kids, lemma_kids_smaller, lemma_stmt_kids_smaller,
    opt_seq, opt_stmt, present, prop_values, stmt_exprs, stmt_kids,
};
use crate::mir::{Case, Catch, Conv, Expr, ExprKind, LocalId, Stmt};

verus! {

// --- the parts of an expression -----------------------------------------------------------

proof fn cat_marked(
    a: Seq<Expr>,
    b: Seq<Expr>,
    c: Seq<Expr>,
    d: Seq<Expr>,
    iv: LocalId,
    safe: Seq<LocalId>,
)
    requires
        marked_all(a, b, iv, safe),
        marked_all(c, d, iv, safe),
    ensures
        marked_all(a + c, b + d, iv, safe),
{
    let x = a + c;
    let y = b + d;
    assert forall|i: int| #![trigger x[i]] #![trigger y[i]] 0 <= i < x.len() implies marked(
        &x[i],
        &y[i],
        iv,
        safe,
    ) by {
        if i < a.len() {
            assert(x[i] == a[i] && y[i] == b[i]);
        } else {
            assert(x[i] == c[i - a.len()] && y[i] == d[i - a.len()]);
        }
    }
}

proof fn one_marked(a: Expr, b: Expr, iv: LocalId, safe: Seq<LocalId>)
    requires
        marked(&a, &b, iv, safe),
    ensures
        marked_all(seq![a], seq![b], iv, safe),
{
}

proof fn two_marked(a: Expr, b: Expr, c: Expr, d: Expr, iv: LocalId, safe: Seq<LocalId>)
    requires
        marked(&a, &b, iv, safe),
        marked(&c, &d, iv, safe),
    ensures
        marked_all(seq![a, c], seq![b, d], iv, safe),
{
}

proof fn three_marked(
    a: Expr,
    b: Expr,
    c: Expr,
    d: Expr,
    e: Expr,
    f: Expr,
    iv: LocalId,
    safe: Seq<LocalId>,
)
    requires
        marked(&a, &b, iv, safe),
        marked(&c, &d, iv, safe),
        marked(&e, &f, iv, safe),
    ensures
        marked_all(seq![a, c, e], seq![b, d, f], iv, safe),
{
}

proof fn present_marked(
    a: Seq<Option<Expr>>,
    b: Seq<Option<Expr>>,
    n: nat,
    iv: LocalId,
    safe: Seq<LocalId>,
)
    requires
        marked_opts(a, b, iv, safe),
        n <= a.len(),
    ensures
        marked_all(present(a, n), present(b, n), iv, safe),
    decreases n,
{
    if n > 0 {
        present_marked(a, b, (n - 1) as nat, iv, safe);
        assert(marked_opt(a[n - 1], b[n - 1], iv, safe));
        let x = present(a, (n - 1) as nat);
        let y = present(b, (n - 1) as nat);
        if let (Some(e), Some(f)) = (a[n - 1], b[n - 1]) {
            one_marked(e, f, iv, safe);
            cat_marked(x, y, seq![e], seq![f], iv, safe);
            assert(present(a, n) =~= x + seq![e]);
            assert(present(b, n) =~= y + seq![f]);
        }
    }
}

proof fn props_marked(
    a: Seq<(String, Expr)>,
    b: Seq<(String, Expr)>,
    iv: LocalId,
    safe: Seq<LocalId>,
)
    requires
        marked_props(a, b, iv, safe),
    ensures
        marked_all(prop_values(a), prop_values(b), iv, safe),
{
    let x = prop_values(a);
    let y = prop_values(b);
    assert forall|i: int| #![trigger x[i]] #![trigger y[i]] 0 <= i < x.len() implies marked(
        &x[i],
        &y[i],
        iv,
        safe,
    ) by {
        assert(x[i] == a[i].1 && y[i] == b[i].1);
    }
}

proof fn storage_kids_marked(a: &Expr, b: &Expr, iv: LocalId, safe: Seq<LocalId>)
    requires
        marked_storage(&a.kind, b.kind, iv, safe),
    ensures
        marked_all(kids(a), kids(b), iv, safe),
{
    match (&a.kind, &b.kind) {
        (ExprKind::LocalSet(_, a1), ExprKind::LocalSet(_, b1)) => {
            one_marked(**a1, **b1, iv, safe);
        },
        (ExprKind::CaptureSet(_, a1), ExprKind::CaptureSet(_, b1)) => {
            one_marked(**a1, **b1, iv, safe);
        },
        (ExprKind::StaticSet(_, _, a2), ExprKind::StaticSet(_, _, b2)) => {
            one_marked(**a2, **b2, iv, safe);
        },
        (ExprKind::FieldGet(a0, _, _), ExprKind::FieldGet(b0, _, _)) => {
            one_marked(**a0, **b0, iv, safe);
        },
        (ExprKind::FieldSet(a0, _, _, a3), ExprKind::FieldSet(b0, _, _, b3)) => {
            two_marked(**a0, **b0, **a3, **b3, iv, safe);
        },
        (ExprKind::FieldIncDec { recv: a0, .. }, ExprKind::FieldIncDec { recv: b0, .. }) => {
            one_marked(**a0, **b0, iv, safe);
        },
        (ExprKind::BoundMethod(a0, _, _), ExprKind::BoundMethod(b0, _, _)) => {
            one_marked(**a0, **b0, iv, safe);
        },
        _ => {},
    }
}

proof fn operator_kids_marked(a: &Expr, b: &Expr, iv: LocalId, safe: Seq<LocalId>)
    requires
        marked_operator(&a.kind, b.kind, iv, safe),
    ensures
        marked_all(kids(a), kids(b), iv, safe),
{
    match (&a.kind, &b.kind) {
        (ExprKind::Unary(_, a1), ExprKind::Unary(_, b1)) => {
            one_marked(**a1, **b1, iv, safe);
        },
        (ExprKind::Binary(_, a1, a2), ExprKind::Binary(_, b1, b2)) => {
            two_marked(**a1, **b1, **a2, **b2, iv, safe);
        },
        (ExprKind::Logical { lhs: a1, rhs: a2, .. }, ExprKind::Logical { lhs: b1, rhs: b2, .. }) => {
            two_marked(**a1, **b1, **a2, **b2, iv, safe);
        },
        (ExprKind::Conditional(a0, a1, a2), ExprKind::Conditional(b0, b1, b2)) => {
            three_marked(**a0, **b0, **a1, **b1, **a2, **b2, iv, safe);
        },
        (ExprKind::Comma(a0, a1), ExprKind::Comma(b0, b1)) => {
            two_marked(**a0, **b0, **a1, **b1, iv, safe);
        },
        (ExprKind::Is(a0, _), ExprKind::Is(b0, _)) => {
            one_marked(**a0, **b0, iv, safe);
        },
        (ExprKind::As(a0, _), ExprKind::As(b0, _)) => {
            one_marked(**a0, **b0, iv, safe);
        },
        (ExprKind::Conv(_, a1), ExprKind::Conv(_, b1)) => {
            one_marked(**a1, **b1, iv, safe);
        },
        _ => {},
    }
}

proof fn call_kids_marked(a: &Expr, b: &Expr, iv: LocalId, safe: Seq<LocalId>)
    requires
        marked_call(&a.kind, b.kind, iv, safe),
    ensures
        marked_all(kids(a), kids(b), iv, safe),
{
    match (&a.kind, &b.kind) {
        (ExprKind::CallVirtual { recv: a0, args: a3, .. }, ExprKind::CallVirtual { recv: b0, args: b3, .. }) => {
            one_marked(**a0, **b0, iv, safe);
            cat_marked(seq![**a0], seq![**b0], a3@, b3@, iv, safe);
        },
        (ExprKind::CallIface { recv: a0, args: a4, .. }, ExprKind::CallIface { recv: b0, args: b4, .. }) => {
            one_marked(**a0, **b0, iv, safe);
            cat_marked(seq![**a0], seq![**b0], a4@, b4@, iv, safe);
        },
        (ExprKind::CallDirect { recv: a1, args: a2, .. }, ExprKind::CallDirect { recv: b1, args: b2, .. }) => {
            one_marked(**a1, **b1, iv, safe);
            cat_marked(seq![**a1], seq![**b1], a2@, b2@, iv, safe);
        },
        (ExprKind::CallFnValue { callee: a0, this_arg: a1, args: a2, .. }, ExprKind::CallFnValue { callee: b0, this_arg: b1, args: b2, .. }) => {
            assert(marked_box(*a1, *b1, iv, safe));
            match (a1, b1) {
                (Some(s), Some(t)) => {
                    two_marked(**a0, **b0, **s, **t, iv, safe);
                    cat_marked(seq![**a0, **s], seq![**b0, **t], a2@, b2@, iv, safe);
                },
                _ => {
                    one_marked(**a0, **b0, iv, safe);
                    cat_marked(seq![**a0], seq![**b0], a2@, b2@, iv, safe);
                },
            }
        },
        _ => {},
    }
}

proof fn method_kids_marked(a: &Expr, b: &Expr, iv: LocalId, safe: Seq<LocalId>)
    requires
        marked_method(&a.kind, b.kind, iv, safe),
    ensures
        marked_all(kids(a), kids(b), iv, safe),
{
    match (&a.kind, &b.kind) {
        (ExprKind::CallStrMethod(_, a1, a2), ExprKind::CallStrMethod(_, b1, b2)) => {
            one_marked(**a1, **b1, iv, safe);
            cat_marked(seq![**a1], seq![**b1], a2@, b2@, iv, safe);
        },
        (ExprKind::CallNumMethod(_, a1, a2), ExprKind::CallNumMethod(_, b1, b2)) => {
            one_marked(**a1, **b1, iv, safe);
            cat_marked(seq![**a1], seq![**b1], a2@, b2@, iv, safe);
        },
        (ExprKind::CallArr(_, a1, a2), ExprKind::CallArr(_, b1, b2)) => {
            one_marked(**a1, **b1, iv, safe);
            cat_marked(seq![**a1], seq![**b1], a2@, b2@, iv, safe);
        },
        (ExprKind::CallVec(_, a1, a2), ExprKind::CallVec(_, b1, b2)) => {
            one_marked(**a1, **b1, iv, safe);
            cat_marked(seq![**a1], seq![**b1], a2@, b2@, iv, safe);
        },
        _ => {},
    }
}

proof fn member_kids_marked(a: &Expr, b: &Expr, iv: LocalId, safe: Seq<LocalId>)
    requires
        marked_member(&a.kind, b.kind, iv, safe),
    ensures
        marked_all(kids(a), kids(b), iv, safe),
{
    match (&a.kind, &b.kind) {
        (ExprKind::NewNamespace(a0), ExprKind::NewNamespace(b0)) => {
            one_marked(**a0, **b0, iv, safe);
        },
        (ExprKind::NsUri(a0), ExprKind::NsUri(b0)) => {
            one_marked(**a0, **b0, iv, safe);
        },
        (ExprKind::NsGet(a0, a1, _), ExprKind::NsGet(b0, b1, _)) => {
            two_marked(**a0, **b0, **a1, **b1, iv, safe);
        },
        (ExprKind::NsCall(a0, a1, _, a3), ExprKind::NsCall(b0, b1, _, b3)) => {
            two_marked(**a0, **b0, **a1, **b1, iv, safe);
            cat_marked(seq![**a0, **a1], seq![**b0, **b1], a3@, b3@, iv, safe);
        },
        (ExprKind::PropGet(a0, _), ExprKind::PropGet(b0, _)) => {
            one_marked(**a0, **b0, iv, safe);
        },
        (ExprKind::PropSet(a0, _, a2), ExprKind::PropSet(b0, _, b2)) => {
            two_marked(**a0, **b0, **a2, **b2, iv, safe);
        },
        (ExprKind::PropCall(a0, _, a2), ExprKind::PropCall(b0, _, b2)) => {
            one_marked(**a0, **b0, iv, safe);
            cat_marked(seq![**a0], seq![**b0], a2@, b2@, iv, safe);
        },
        (ExprKind::AnyIndexGet(a0, a1), ExprKind::AnyIndexGet(b0, b1)) => {
            two_marked(**a0, **b0, **a1, **b1, iv, safe);
        },
        (ExprKind::AnyIndexSet(a0, a1, a2), ExprKind::AnyIndexSet(b0, b1, b2)) => {
            three_marked(**a0, **b0, **a1, **b1, **a2, **b2, iv, safe);
        },
        (ExprKind::HasProp(a0, a1), ExprKind::HasProp(b0, b1)) => {
            two_marked(**a0, **b0, **a1, **b1, iv, safe);
        },
        (ExprKind::DeleteProp(a0, _), ExprKind::DeleteProp(b0, _)) => {
            one_marked(**a0, **b0, iv, safe);
        },
        _ => {},
    }
}

proof fn sequence_kids_marked(a: &Expr, b: &Expr, iv: LocalId, safe: Seq<LocalId>)
    requires
        marked_sequence(&a.kind, b.kind, iv, safe),
    ensures
        marked_all(kids(a), kids(b), iv, safe),
{
    match (&a.kind, &b.kind) {
        (ExprKind::StrLen(a0), ExprKind::StrLen(b0)) => {
            one_marked(**a0, **b0, iv, safe);
        },
        (ExprKind::SeqLen(a0), ExprKind::SeqLen(b0)) => {
            one_marked(**a0, **b0, iv, safe);
        },
        (ExprKind::SeqSetLen(a0, a1), ExprKind::SeqSetLen(b0, b1)) => {
            two_marked(**a0, **b0, **a1, **b1, iv, safe);
        },
        (ExprKind::SeqGet(a0, a1, _), ExprKind::SeqGet(b0, b1, _)) => {
            two_marked(**a0, **b0, **a1, **b1, iv, safe);
        },
        (ExprKind::SeqSet(a0, a1, a2, _), ExprKind::SeqSet(b0, b1, b2, _)) => {
            three_marked(**a0, **b0, **a1, **b1, **a2, **b2, iv, safe);
        },
        (ExprKind::EnumLen(a0), ExprKind::EnumLen(b0)) => {
            one_marked(**a0, **b0, iv, safe);
        },
        (ExprKind::EnumKey(a0, a1), ExprKind::EnumKey(b0, b1)) => {
            two_marked(**a0, **b0, **a1, **b1, iv, safe);
        },
        (ExprKind::EnumValue(a0, a1), ExprKind::EnumValue(b0, b1)) => {
            two_marked(**a0, **b0, **a1, **b1, iv, safe);
        },
        (ExprKind::ArrayLit(a0), ExprKind::ArrayLit(b0)) => {
            present_marked(a0@, b0@, a0@.len(), iv, safe);
        },
        (ExprKind::ObjectLit(a0), ExprKind::ObjectLit(b0)) => {
            props_marked(a0@, b0@, iv, safe);
        },
        _ => {},
    }
}

pub proof fn opened(a: &Expr, b: &Expr, iv: LocalId, safe: Seq<LocalId>)
    requires
        marked(a, b, iv, safe),
    ensures
        is_leaf(&a.kind) ==> marked_leaf(&a.kind, b.kind, iv, safe),
        is_storage(&a.kind) ==> marked_storage(&a.kind, b.kind, iv, safe),
        is_operator(&a.kind) ==> marked_operator(&a.kind, b.kind, iv, safe),
        is_call(&a.kind) ==> marked_call(&a.kind, b.kind, iv, safe),
        is_method(&a.kind) ==> marked_method(&a.kind, b.kind, iv, safe),
        is_member(&a.kind) ==> marked_member(&a.kind, b.kind, iv, safe),
        is_sequence(&a.kind) ==> marked_sequence(&a.kind, b.kind, iv, safe),
{
    assert(marked_kind(&a.kind, b.kind, iv, safe));
}

/// The subexpressions of a marked copy are marked copies of the subexpressions.
pub proof fn kids_marked(a: &Expr, b: &Expr, iv: LocalId, safe: Seq<LocalId>)
    requires
        marked(a, b, iv, safe),
    ensures
        marked_all(kids(a), kids(b), iv, safe),
{
    opened(a, b, iv, safe);
    if is_storage(&a.kind) {
        storage_kids_marked(a, b, iv, safe);
    } else if is_operator(&a.kind) {
        operator_kids_marked(a, b, iv, safe);
    } else if is_call(&a.kind) {
        call_kids_marked(a, b, iv, safe);
    } else if is_method(&a.kind) {
        method_kids_marked(a, b, iv, safe);
    } else if is_member(&a.kind) {
        member_kids_marked(a, b, iv, safe);
    } else if is_sequence(&a.kind) {
        sequence_kids_marked(a, b, iv, safe);
    } else {
        assert(is_leaf(&a.kind));
    }
}

// --- what an expression does --------------------------------------------------------------

/// A copy of a local is that local.
pub proof fn same_local(a: &Expr, b: &Expr, iv: LocalId, safe: Seq<LocalId>)
    requires
        marked(a, b, iv, safe),
    ensures
        local_of(a) == local_of(b),
{
    opened(a, b, iv, safe);
}

/// What stands below the conversions to Number is copied.
pub proof fn peeled_marked(a: &Expr, b: &Expr, iv: LocalId, safe: Seq<LocalId>)
    requires
        marked(a, b, iv, safe),
    ensures
        marked(peeled(a), peeled(b), iv, safe),
    decreases a,
{
    opened(a, b, iv, safe);
    if let (ExprKind::Conv(Conv::ToNumber, x), ExprKind::Conv(_, y)) = (&a.kind, &b.kind) {
        peeled_marked(&**x, &**y, iv, safe);
    }
}

/// A copy of an access hits what the access hits.
pub proof fn same_hits(
    recv: &Expr,
    idx: &Expr,
    recv2: &Expr,
    idx2: &Expr,
    iv: LocalId,
    safe: Seq<LocalId>,
    i: LocalId,
    vs: Seq<LocalId>,
)
    requires
        marked(recv, recv2, iv, safe),
        marked(idx, idx2, iv, safe),
    ensures
        hits(recv, idx, i, vs) == hits(recv2, idx2, i, vs),
{
    same_local(recv, recv2, iv, safe);
    peeled_marked(idx, idx2, iv, safe);
    same_local(peeled(idx), peeled(idx2), iv, safe);
}

proof fn same_node(a: &Expr, b: &Expr, iv: LocalId, safe: Seq<LocalId>, i: LocalId, f: Fact)
    requires
        marked(a, b, iv, safe),
    ensures
        does(a, i, f) == does(b, i, f),
        forall|k: int| #[trigger] counts(a, i, f, k) == counts(b, i, f, k),
{
    opened(a, b, iv, safe);
    match (&a.kind, &b.kind) {
        (ExprKind::SeqLen(r), ExprKind::SeqLen(r2)) => {
            same_local(&**r, &**r2, iv, safe);
        },
        (ExprKind::SeqGet(r, x, _), ExprKind::SeqGet(r2, x2, _)) => {
            same_local(&**r, &**r2, iv, safe);
            peeled_marked(&**x, &**x2, iv, safe);
            same_local(peeled(&**x), peeled(&**x2), iv, safe);
        },
        (ExprKind::SeqSet(r, x, _, _), ExprKind::SeqSet(r2, x2, _, _)) => {
            same_local(&**r, &**r2, iv, safe);
            peeled_marked(&**x, &**x2, iv, safe);
            same_local(peeled(&**x), peeled(&**x2), iv, safe);
        },
        _ => {},
    }
}

/// A marked copy does what the expression does.
pub proof fn same_facts(a: &Expr, b: &Expr, iv: LocalId, safe: Seq<LocalId>, i: LocalId, f: Fact)
    requires
        marked(a, b, iv, safe),
    ensures
        expr_fact(a, i, f) == expr_fact(b, i, f),
    decreases a,
{
    kids_marked(a, b, iv, safe);
    same_node(a, b, iv, safe, i, f);
    lemma_kids_smaller(a);
    assert forall|k: int| 0 <= k < kids(a).len() implies expr_fact(&#[trigger] kids(a)[k], i, f)
        == expr_fact(&kids(b)[k], i, f) by {
        assert(marked(&kids(a)[k], &kids(b)[k], iv, safe));
        same_facts(&kids(a)[k], &kids(b)[k], iv, safe, i, f);
    }
    if expr_fact(a, i, f) && !does(a, i, f) {
        let k = choose|k: int|
            0 <= k < kids(a).len() && counts(a, i, f, k) && expr_fact(&#[trigger] kids(a)[k], i, f);
        assert(counts(b, i, f, k) && expr_fact(&kids(b)[k], i, f));
    }
    if expr_fact(b, i, f) && !does(b, i, f) {
        let k = choose|k: int|
            0 <= k < kids(b).len() && counts(b, i, f, k) && expr_fact(&#[trigger] kids(b)[k], i, f);
        assert(counts(a, i, f, k) && expr_fact(&kids(a)[k], i, f));
    }
}

// --- statements ---------------------------------------------------------------------------

proof fn cat_stmts_marked(
    a: Seq<Stmt>,
    b: Seq<Stmt>,
    c: Seq<Stmt>,
    d: Seq<Stmt>,
    iv: LocalId,
    safe: Seq<LocalId>,
)
    requires
        marked_stmts(a, b, iv, safe),
        marked_stmts(c, d, iv, safe),
    ensures
        marked_stmts(a + c, b + d, iv, safe),
{
    let x = a + c;
    let y = b + d;
    assert forall|i: int| #![trigger x[i]] #![trigger y[i]] 0 <= i < x.len() implies marked_stmt(
        &x[i],
        &y[i],
        iv,
        safe,
    ) by {
        if i < a.len() {
            assert(x[i] == a[i] && y[i] == b[i]);
        } else {
            assert(x[i] == c[i - a.len()] && y[i] == d[i - a.len()]);
        }
    }
}

proof fn no_stmts_marked(iv: LocalId, safe: Seq<LocalId>)
    ensures
        marked_stmts(Seq::empty(), Seq::empty(), iv, safe),
{
}

proof fn one_stmt_marked(a: Stmt, b: Stmt, iv: LocalId, safe: Seq<LocalId>)
    requires
        marked_stmt(&a, &b, iv, safe),
    ensures
        marked_stmts(seq![a], seq![b], iv, safe),
{
}

proof fn opt_marked(a: Option<Expr>, b: Option<Expr>, iv: LocalId, safe: Seq<LocalId>)
    requires
        marked_opt(a, b, iv, safe),
    ensures
        marked_all(opt_seq(a), opt_seq(b), iv, safe),
{
}

proof fn tests_marked(a: Seq<Case>, b: Seq<Case>, n: nat, iv: LocalId, safe: Seq<LocalId>)
    requires
        marked_cases(a, b, iv, safe),
        n <= a.len(),
    ensures
        a.len() == b.len(),
        marked_all(case_tests(a, n), case_tests(b, n), iv, safe),
        marked_stmts(case_stmts(a, n), case_stmts(b, n), iv, safe),
    decreases n,
{
    if n > 0 {
        let m = (n - 1) as nat;
        tests_marked(a, b, m, iv, safe);
        assert(marked_opt(a[n - 1].test, b[n - 1].test, iv, safe));
        if let (Some(e), Some(f)) = (a[n - 1].test, b[n - 1].test) {
            one_marked(e, f, iv, safe);
            cat_marked(case_tests(a, m), case_tests(b, m), seq![e], seq![f], iv, safe);
            assert(case_tests(a, n) =~= case_tests(a, m) + seq![e]);
            assert(case_tests(b, n) =~= case_tests(b, m) + seq![f]);
        }
        cat_stmts_marked(
            case_stmts(a, m),
            case_stmts(b, m),
            a[n - 1].body@,
            b[n - 1].body@,
            iv,
            safe,
        );
    } else {
        no_stmts_marked(iv, safe);
    }
}

proof fn catches_marked(a: Seq<Catch>, b: Seq<Catch>, n: nat, iv: LocalId, safe: Seq<LocalId>)
    requires
        marked_catches(a, b, iv, safe),
        n <= a.len(),
    ensures
        a.len() == b.len(),
        marked_stmts(catch_stmts(a, n), catch_stmts(b, n), iv, safe),
    decreases n,
{
    if n > 0 {
        let m = (n - 1) as nat;
        catches_marked(a, b, m, iv, safe);
        assert(a[n - 1].binding == b[n - 1].binding);
        cat_stmts_marked(
            catch_stmts(a, m),
            catch_stmts(b, m),
            a[n - 1].body@,
            b[n - 1].body@,
            iv,
            safe,
        );
    } else {
        no_stmts_marked(iv, safe);
    }
}

/// The expressions in a marked copy are marked copies of those in the statement.
pub proof fn stmt_exprs_marked(a: &Stmt, b: &Stmt, iv: LocalId, safe: Seq<LocalId>)
    requires
        marked_stmt(a, b, iv, safe),
    ensures
        marked_all(stmt_exprs(a), stmt_exprs(b), iv, safe),
{
    match (a, b) {
        (
            Stmt::For { cond: c1, update: u1, .. },
            Stmt::For { cond: c2, update: u2, .. },
        ) => {
            opt_marked(*c1, *c2, iv, safe);
            opt_marked(*u1, *u2, iv, safe);
            cat_marked(opt_seq(*c1), opt_seq(*c2), opt_seq(*u1), opt_seq(*u2), iv, safe);
        },
        (
            Stmt::Switch { scrutinee: s1, cases: k1 },
            Stmt::Switch { scrutinee: s2, cases: k2 },
        ) => {
            one_marked(*s1, *s2, iv, safe);
            tests_marked(k1@, k2@, k1@.len(), iv, safe);
            cat_marked(
                seq![*s1],
                seq![*s2],
                case_tests(k1@, k1@.len()),
                case_tests(k2@, k2@.len()),
                iv,
                safe,
            );
        },
        (Stmt::Return { value: v1 }, Stmt::Return { value: v2 }) => {
            opt_marked(*v1, *v2, iv, safe);
        },
        _ => {},
    }
}

/// The statements in a marked copy are marked copies of those in the statement.
pub proof fn stmt_kids_marked(a: &Stmt, b: &Stmt, iv: LocalId, safe: Seq<LocalId>)
    requires
        marked_stmt(a, b, iv, safe),
    ensures
        marked_stmts(stmt_kids(a), stmt_kids(b), iv, safe),
{
    no_stmts_marked(iv, safe);
    match (a, b) {
        (Stmt::If { then_branch: t1, else_branch: e1, .. }, Stmt::If {
            then_branch: t2,
            else_branch: e2,
            ..
        }) => {
            one_stmt_marked(**t1, **t2, iv, safe);
            if let (Some(x), Some(y)) = (e1, e2) {
                one_stmt_marked(**x, **y, iv, safe);
            }
            cat_stmts_marked(seq![**t1], seq![**t2], opt_stmt(*e1), opt_stmt(*e2), iv, safe);
        },
        (Stmt::While { body: b1, .. }, Stmt::While { body: b2, .. }) => {
            one_stmt_marked(**b1, **b2, iv, safe);
        },
        (Stmt::DoWhile { body: b1, .. }, Stmt::DoWhile { body: b2, .. }) => {
            one_stmt_marked(**b1, **b2, iv, safe);
        },
        (Stmt::For { init: i1, body: b1, .. }, Stmt::For { init: i2, body: b2, .. }) => {
            one_stmt_marked(**b1, **b2, iv, safe);
            if let (Some(x), Some(y)) = (i1, i2) {
                one_stmt_marked(**x, **y, iv, safe);
            }
            cat_stmts_marked(opt_stmt(*i1), opt_stmt(*i2), seq![**b1], seq![**b2], iv, safe);
        },
        (Stmt::Switch { cases: k1, .. }, Stmt::Switch { cases: k2, .. }) => {
            tests_marked(k1@, k2@, k1@.len(), iv, safe);
        },
        (
            Stmt::Try { body: b1, catches: c1, finally: f1 },
            Stmt::Try { body: b2, catches: c2, finally: f2 },
        ) => {
            catches_marked(c1@, c2@, c1@.len(), iv, safe);
            let x = catch_stmts(c1@, c1@.len());
            let y = catch_stmts(c2@, c2@.len());
            cat_stmts_marked(b1@, b2@, x, y, iv, safe);
            match (f1, f2) {
                (Some(p), Some(q)) => {
                    cat_stmts_marked(b1@ + x, b2@ + y, p@, q@, iv, safe);
                },
                _ => {
                    cat_stmts_marked(b1@ + x, b2@ + y, Seq::empty(), Seq::empty(), iv, safe);
                },
            }
        },
        _ => {},
    }
}

proof fn same_binds(a: Seq<Catch>, b: Seq<Catch>, n: nat, iv: LocalId, safe: Seq<LocalId>, l: LocalId)
    requires
        marked_catches(a, b, iv, safe),
        n <= a.len(),
    ensures
        a.len() == b.len(),
        binds(a, n, l) == binds(b, n, l),
    decreases n,
{
    if n > 0 {
        same_binds(a, b, (n - 1) as nat, iv, safe, l);
        assert(a[n - 1].binding == b[n - 1].binding);
    }
}

/// A marked copy does what the statement does.
pub proof fn same_stmt_facts(
    a: &Stmt,
    b: &Stmt,
    iv: LocalId,
    safe: Seq<LocalId>,
    i: LocalId,
    f: Fact,
)
    requires
        marked_stmt(a, b, iv, safe),
    ensures
        stmt_fact(a, i, f) == stmt_fact(b, i, f),
    decreases a,
{
    assert(stmt_does(a, f) == stmt_does(b, f)) by {
        if let (Stmt::Try { catches: c1, .. }, Stmt::Try { catches: c2, .. }) = (a, b) {
            if let Fact::Writes(l) = f {
                same_binds(c1@, c2@, c1@.len(), iv, safe, l);
            }
        }
    }
    stmt_exprs_marked(a, b, iv, safe);
    stmt_kids_marked(a, b, iv, safe);
    lemma_stmt_kids_smaller(a);
    let x = stmt_exprs(a);
    let y = stmt_exprs(b);
    let p = stmt_kids(a);
    let q = stmt_kids(b);
    assert forall|k: int| 0 <= k < x.len() implies expr_fact(&#[trigger] x[k], i, f) == expr_fact(
        &y[k],
        i,
        f,
    ) by {
        assert(marked(&x[k], &y[k], iv, safe));
        same_facts(&x[k], &y[k], iv, safe, i, f);
    }
    assert forall|k: int| 0 <= k < p.len() implies stmt_fact(&#[trigger] p[k], i, f) == stmt_fact(
        &q[k],
        i,
        f,
    ) by {
        assert(marked_stmt(&p[k], &q[k], iv, safe));
        same_stmt_facts(&p[k], &q[k], iv, safe, i, f);
    }
    if exists|k: int| 0 <= k < x.len() && expr_fact(&#[trigger] x[k], i, f) {
        let k = choose|k: int| 0 <= k < x.len() && expr_fact(&#[trigger] x[k], i, f);
        assert(expr_fact(&y[k], i, f));
    }
    if exists|k: int| 0 <= k < y.len() && expr_fact(&#[trigger] y[k], i, f) {
        let k = choose|k: int| 0 <= k < y.len() && expr_fact(&#[trigger] y[k], i, f);
        assert(expr_fact(&x[k], i, f));
    }
    if exists|k: int| 0 <= k < p.len() && stmt_fact(&#[trigger] p[k], i, f) {
        let k = choose|k: int| 0 <= k < p.len() && stmt_fact(&#[trigger] p[k], i, f);
        assert(stmt_fact(&q[k], i, f));
    }
    if exists|k: int| 0 <= k < q.len() && stmt_fact(&#[trigger] q[k], i, f) {
        let k = choose|k: int| 0 <= k < q.len() && stmt_fact(&#[trigger] q[k], i, f);
        assert(stmt_fact(&p[k], i, f));
    }
}

} // verus!
