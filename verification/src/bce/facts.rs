//! What a loop body does to the locals: which it writes, which it indexes by
//! the induction variable, and which occur in any other way.

use vstd::prelude::*;

use crate::bce::mark::{as_local, is_call, is_member, is_method, local_of, peel, peeled};
use crate::bce::walk::{
    children, direct_exprs, direct_stmts, kids, lemma_kids_smaller, lemma_stmt_kids_smaller,
    refers_to, refers_to_stmts, stmt_exprs, stmt_kids,
};
use crate::mir::{Catch, Expr, ExprKind, LocalId, Stmt, Ty};

verus! {

/// Something that a piece of code can do.
#[derive(Clone, Copy, Debug, PartialEq, Eq, Structural)]
pub enum Fact {
    /// Writes the local.
    Writes(LocalId),
    /// Writes the capture.
    WritesCapture(usize),
    /// Accesses `l[i]` with the bare induction variable.
    Indexes(LocalId),
    /// Uses the local in some way other than `l[i]` and `l.length`.
    Misuses(LocalId),
    /// Can run other code of the program.
    Calls,
}

/// A value of the type is not an object, so that no method of one runs when it is
/// converted.
pub open spec fn is_scalar(t: Ty) -> bool {
    match t {
        Ty::Int | Ty::UInt | Ty::Number | Ty::Boolean | Ty::String => true,
        _ => false,
    }
}

/// The node can run other code of the program: it is a call, an untyped member
/// access, or an operator that can convert an object.
pub open spec fn can_call(e: &Expr) -> bool {
    match &e.kind {
        ExprKind::Unary(_, a) => !is_scalar(a.ty),
        ExprKind::Conv(_, a) => !is_scalar(a.ty),
        ExprKind::Binary(_, a, b) => !is_scalar(a.ty) || !is_scalar(b.ty),
        k => is_call(k) || is_method(k) || is_member(k),
    }
}

/// The access is `l[i]` with the bare induction variable.
pub open spec fn is_access(recv: &Expr, idx: &Expr, iv: LocalId, l: LocalId) -> bool {
    local_of(recv) == Some(l) && local_of(peeled(idx)) == Some(iv)
}

/// The first child is a local whose use by this node is a good one.
pub open spec fn good_use(e: &Expr, iv: LocalId, l: LocalId) -> bool {
    match &e.kind {
        ExprKind::SeqLen(recv) => local_of(&**recv) == Some(l),
        ExprKind::SeqGet(recv, idx, _) => is_access(&**recv, &**idx, iv, l),
        ExprKind::SeqSet(recv, idx, _, _) => is_access(&**recv, &**idx, iv, l),
        _ => false,
    }
}

/// What the node itself does, its children aside.
pub open spec fn does(e: &Expr, iv: LocalId, f: Fact) -> bool {
    match (&e.kind, f) {
        (ExprKind::LocalSet(m, _), Fact::Writes(l)) => *m == l,
        (ExprKind::IncDec { target, .. }, Fact::Writes(l)) => *target == l,
        (ExprKind::CaptureSet(k, _), Fact::WritesCapture(slot)) => *k == slot,
        (ExprKind::CaptureIncDec { slot: k, .. }, Fact::WritesCapture(slot)) => *k == slot,
        (ExprKind::SeqGet(recv, idx, _), Fact::Indexes(l)) => is_access(&**recv, &**idx, iv, l),
        (ExprKind::SeqSet(recv, idx, _, _), Fact::Indexes(l)) => is_access(&**recv, &**idx, iv, l),
        (ExprKind::LocalGet(m), Fact::Misuses(l)) => *m == l,
        (_, Fact::Calls) => can_call(e),
        _ => false,
    }
}

/// Child `i` counts towards the fact.
pub open spec fn counts(e: &Expr, iv: LocalId, f: Fact, i: int) -> bool {
    match f {
        Fact::Misuses(l) => !(i == 0 && good_use(e, iv, l)),
        _ => true,
    }
}

/// The fact holds of the expression: of the node or of a child that counts.
pub open spec fn expr_fact(e: &Expr, iv: LocalId, f: Fact) -> bool
    decreases e,
{
    proof {
        lemma_kids_smaller(e);
    }
    ||| does(e, iv, f)
    ||| exists|i: int|
        0 <= i < kids(e).len() && counts(e, iv, f, i) && expr_fact(&#[trigger] kids(e)[i], iv, f)
}

/// What the statement itself does: an assignment writes its local, and a `catch`
/// clause the one that it binds.
pub open spec fn stmt_does(s: &Stmt, f: Fact) -> bool {
    match (s, f) {
        (Stmt::Assign(m, _), Fact::Writes(l)) => *m == l,
        (Stmt::Try { catches, .. }, Fact::Writes(l)) => binds(catches@, catches@.len(), l),
        _ => false,
    }
}

/// One of the first `n` `catch` clauses binds the local.
pub open spec fn binds(cs: Seq<Catch>, n: nat, l: LocalId) -> bool
    decreases n,
{
    0 < n <= cs.len() && (binds(cs, (n - 1) as nat, l) || cs[n - 1].binding == l)
}

/// The fact holds of the statement: of the node, of an expression in it or of
/// a nested statement.
pub open spec fn stmt_fact(s: &Stmt, iv: LocalId, f: Fact) -> bool
    decreases s,
{
    proof {
        lemma_stmt_kids_smaller(s);
    }
    ||| stmt_does(s, f)
    ||| exists|i: int|
        0 <= i < stmt_exprs(s).len() && expr_fact(&#[trigger] stmt_exprs(s)[i], iv, f)
    ||| exists|i: int| 0 <= i < stmt_kids(s).len() && stmt_fact(&#[trigger] stmt_kids(s)[i], iv, f)
}

// --- collection -------------------------------------------------------------------------

/// Whether the list holds the fact.
pub fn known(fs: &Vec<Fact>, f: Fact) -> (r: bool)
    ensures
        r == fs@.contains(f),
{
    let mut k: usize = 0;
    while k < fs.len()
        invariant
            k <= fs@.len(),
            forall|i: int| 0 <= i < k ==> fs@[i] != f,
        decreases fs@.len() - k,
    {
        if fs[k] == f {
            return true;
        }
        k = k + 1;
    }
    false
}

fn add_fact(fs: &mut Vec<Fact>, f: Fact)
    ensures
        forall|g: Fact| #[trigger] final(fs)@.contains(g) <==> old(fs)@.contains(g) || g == f,
{
    if !known(fs, f) {
        let ghost before = fs@;
        fs.push(f);
        assert(fs@[before.len() as int] == f);
        assert forall|g: Fact| before.contains(g) implies fs@.contains(g) by {
            let i = choose|i: int| 0 <= i < before.len() && before[i] == g;
            assert(fs@[i] == g);
        }
    }
}

/// The local that the access `v[i]` goes to.
pub fn access_local(recv: &Expr, idx: &Expr, iv: LocalId) -> (r: Option<LocalId>)
    ensures
        match r {
            Some(v) => is_access(recv, idx, iv, v),
            None => forall|l: LocalId| !is_access(recv, idx, iv, l),
        },
{
    match as_local(recv) {
        Some(l) => match as_local(peel(idx)) {
            Some(i) => if i == iv {
                Some(l)
            } else {
                None
            },
            None => None,
        },
        None => None,
    }
}

fn scalar(t: Ty) -> (r: bool)
    ensures
        r == is_scalar(t),
{
    match t {
        Ty::Int | Ty::UInt | Ty::Number | Ty::Boolean | Ty::String => true,
        _ => false,
    }
}

/// Whether the node can run other code of the program.
fn may_call(e: &Expr) -> (r: bool)
    ensures
        r == can_call(e),
{
    match &e.kind {
        ExprKind::Unary(_, a) | ExprKind::Conv(_, a) => !scalar(a.ty),
        ExprKind::Binary(_, a, b) => !scalar(a.ty) || !scalar(b.ty),
        ExprKind::CallFn(..)
        | ExprKind::CallVirtual { .. }
        | ExprKind::CallIface { .. }
        | ExprKind::CallDirect { .. }
        | ExprKind::CallFnValue { .. }
        | ExprKind::New(..)
        | ExprKind::CallBuiltin(..)
        | ExprKind::CallNative(..)
        | ExprKind::CallStrMethod(..)
        | ExprKind::CallNumMethod(..)
        | ExprKind::CallArr(..)
        | ExprKind::CallVec(..)
        | ExprKind::CallRegex(..)
        | ExprKind::CallDate(..)
        | ExprKind::CallSocket(..)
        | ExprKind::NewRegExp(..)
        | ExprKind::NewDate(..)
        | ExprKind::NewNamespace(..)
        | ExprKind::NsUri(..)
        | ExprKind::NsGet(..)
        | ExprKind::NsCall(..)
        | ExprKind::PropGet(..)
        | ExprKind::PropSet(..)
        | ExprKind::PropCall(..)
        | ExprKind::AnyIndexGet(..)
        | ExprKind::AnyIndexSet(..)
        | ExprKind::HasProp(..)
        | ExprKind::DeleteProp(..) => true,
        _ => false,
    }
}

/// Adds the facts of an expression.
pub fn collect_expr(e: &Expr, iv: LocalId, fs: &mut Vec<Fact>)
    ensures
        forall|f: Fact| #[trigger]
            final(fs)@.contains(f) <==> old(fs)@.contains(f) || expr_fact(e, iv, f),
    decreases e,
{
    proof {
        lemma_kids_smaller(e);
    }
    let ghost fs0 = fs@;
    let mut skip_first = false;
    match &e.kind {
        ExprKind::LocalSet(m, _) => add_fact(fs, Fact::Writes(*m)),
        ExprKind::IncDec { target, .. } => add_fact(fs, Fact::Writes(*target)),
        ExprKind::CaptureSet(k, _) => add_fact(fs, Fact::WritesCapture(*k)),
        ExprKind::CaptureIncDec { slot, .. } => add_fact(fs, Fact::WritesCapture(*slot)),
        ExprKind::LocalGet(m) => add_fact(fs, Fact::Misuses(*m)),
        ExprKind::SeqGet(recv, idx, _) | ExprKind::SeqSet(recv, idx, _, _) => {
            if let Some(l) = access_local(recv, idx, iv) {
                add_fact(fs, Fact::Indexes(l));
                skip_first = true;
            }
        },
        ExprKind::SeqLen(recv) => {
            skip_first = as_local(recv).is_some();
        },
        _ => {},
    }
    if may_call(e) {
        add_fact(fs, Fact::Calls);
    }
    assert(forall|f: Fact| #[trigger] fs@.contains(f) <==> fs0.contains(f) || does(e, iv, f));
    let ks = children(e);
    let mut k: usize = if skip_first {
        1
    } else {
        0
    };
    assert forall|f: Fact| skip_first implies !counts(e, iv, f, 0) || !expr_fact(
        &#[trigger] kids(e)[0],
        iv,
        f,
    ) by {
        if skip_first {
            assert(local_of(&kids(e)[0]) is Some);
            assert(kids(&kids(e)[0]).len() == 0);
        }
    }
    while k < ks.len()
        invariant
            skip_first ==> 1 <= k,
            k <= ks@.len(),
            refers_to(ks@, kids(e)),
            skip_first ==> forall|f: Fact|
                !counts(e, iv, f, 0) || !expr_fact(&#[trigger] kids(e)[0], iv, f),
            !skip_first ==> forall|f: Fact, i: int|
                0 <= i < kids(e).len() ==> #[trigger] counts(e, iv, f, i),
            forall|f: Fact, i: int| 1 <= i < kids(e).len() ==> #[trigger] counts(e, iv, f, i),
            forall|i: int| 0 <= i < kids(e).len() ==> decreases_to!(e => #[trigger] kids(e)[i]),
            forall|f: Fact| #[trigger]
                fs@.contains(f) <==> fs0.contains(f) || does(e, iv, f) || exists|i: int|
                    0 <= i < k && counts(e, iv, f, i) && expr_fact(&#[trigger] kids(e)[i], iv, f),
        decreases ks@.len() - k,
    {
        let ghost before = fs@;
        assert(*ks@[k as int] == kids(e)[k as int]);
        collect_expr(ks[k], iv, fs);
        assert forall|f: Fact| #[trigger] fs@.contains(f) <==> fs0.contains(f) || does(e, iv, f)
            || exists|i: int|
            0 <= i < k + 1 && counts(e, iv, f, i) && expr_fact(&#[trigger] kids(e)[i], iv, f) by {
            assert(fs@.contains(f) <==> before.contains(f) || expr_fact(&kids(e)[k as int], iv, f));
            assert(counts(e, iv, f, k as int));
        }
        k = k + 1;
    }
}

/// Adds the locals that `catch` clauses bind.
fn collect_bindings(cs: &Vec<Catch>, fs: &mut Vec<Fact>)
    ensures
        forall|f: Fact| #[trigger]
            final(fs)@.contains(f) <==> old(fs)@.contains(f) || (f matches Fact::Writes(l) && binds(
                cs@,
                cs@.len(),
                l,
            )),
{
    let ghost fs0 = fs@;
    let mut k: usize = 0;
    while k < cs.len()
        invariant
            k <= cs@.len(),
            forall|f: Fact| #[trigger]
                fs@.contains(f) <==> fs0.contains(f) || (f matches Fact::Writes(l) && binds(
                    cs@,
                    k as nat,
                    l,
                )),
        decreases cs@.len() - k,
    {
        add_fact(fs, Fact::Writes(cs[k].binding));
        k = k + 1;
    }
}

/// Adds the facts of a statement.
pub fn collect_stmt(s: &Stmt, iv: LocalId, fs: &mut Vec<Fact>)
    ensures
        forall|f: Fact| #[trigger]
            final(fs)@.contains(f) <==> old(fs)@.contains(f) || stmt_fact(s, iv, f),
    decreases s,
{
    proof {
        lemma_stmt_kids_smaller(s);
    }
    let ghost fs0 = fs@;
    match s {
        Stmt::Assign(m, _) => add_fact(fs, Fact::Writes(*m)),
        Stmt::Try { catches, .. } => collect_bindings(catches, fs),
        _ => {},
    }
    assert(forall|f: Fact| #[trigger] fs@.contains(f) <==> fs0.contains(f) || stmt_does(s, f));
    let ghost fs1 = fs@;
    let es = direct_exprs(s);
    let mut k: usize = 0;
    while k < es.len()
        invariant
            k <= es@.len(),
            refers_to(es@, stmt_exprs(s)),
            forall|f: Fact| #[trigger]
                fs@.contains(f) <==> fs1.contains(f) || exists|i: int|
                    0 <= i < k && expr_fact(&#[trigger] stmt_exprs(s)[i], iv, f),
        decreases es@.len() - k,
    {
        let ghost before = fs@;
        assert(*es@[k as int] == stmt_exprs(s)[k as int]);
        collect_expr(es[k], iv, fs);
        assert forall|f: Fact| #[trigger] fs@.contains(f) <==> fs1.contains(f) || exists|i: int|
            0 <= i < k + 1 && expr_fact(&#[trigger] stmt_exprs(s)[i], iv, f) by {
            assert(fs@.contains(f) <==> before.contains(f) || expr_fact(
                &stmt_exprs(s)[k as int],
                iv,
                f,
            ));
        }
        k = k + 1;
    }
    let ghost fs2 = fs@;
    let ss = direct_stmts(s);
    let mut j: usize = 0;
    while j < ss.len()
        invariant
            j <= ss@.len(),
            refers_to_stmts(ss@, stmt_kids(s)),
            forall|i: int| 0 <= i < stmt_kids(s).len() ==> decreases_to!(s => #[trigger] stmt_kids(s)[i]),
            forall|f: Fact| #[trigger]
                fs@.contains(f) <==> fs2.contains(f) || exists|i: int|
                    0 <= i < j && stmt_fact(&#[trigger] stmt_kids(s)[i], iv, f),
        decreases ss@.len() - j,
    {
        let ghost before = fs@;
        assert(*ss@[j as int] == stmt_kids(s)[j as int]);
        collect_stmt(ss[j], iv, fs);
        assert forall|f: Fact| #[trigger] fs@.contains(f) <==> fs2.contains(f) || exists|i: int|
            0 <= i < j + 1 && stmt_fact(&#[trigger] stmt_kids(s)[i], iv, f) by {
            assert(fs@.contains(f) <==> before.contains(f) || stmt_fact(
                &stmt_kids(s)[j as int],
                iv,
                f,
            ));
        }
        j = j + 1;
    }
    assert forall|f: Fact| #[trigger] fs@.contains(f) <==> fs0.contains(f) || stmt_fact(s, iv, f) by {
        assert(fs@.contains(f) <==> fs2.contains(f) || exists|i: int|
            0 <= i < stmt_kids(s).len() && stmt_fact(&#[trigger] stmt_kids(s)[i], iv, f));
        assert(fs2.contains(f) <==> fs1.contains(f) || exists|i: int|
            0 <= i < stmt_exprs(s).len() && expr_fact(&#[trigger] stmt_exprs(s)[i], iv, f));
    }
}

} // verus!
