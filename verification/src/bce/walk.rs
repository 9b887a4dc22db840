//! The direct children of expressions and statements.

use vstd::prelude::*;

use crate::mir::{Case, Catch, Expr, ExprKind, Stmt};

verus! {

/// The elements that are there among the first `n`.
pub open spec fn present(els: Seq<Option<Expr>>, n: nat) -> Seq<Expr>
    decreases n,
{
    if 0 < n <= els.len() {
        match els[n - 1] {
            Some(e) => present(els, (n - 1) as nat).push(e),
            None => present(els, (n - 1) as nat),
        }
    } else {
        Seq::empty()
    }
}

/// The values of an object literal.
pub open spec fn prop_values(props: Seq<(String, Expr)>) -> Seq<Expr> {
    Seq::new(props.len(), |i: int| props[i].1)
}

/// The direct subexpressions, in order.
pub open spec fn kids(e: &Expr) -> Seq<Expr> {
    match &e.kind {
        ExprKind::Int(_)
        | ExprKind::UInt(_)
        | ExprKind::Number(_)
        | ExprKind::Str(_)
        | ExprKind::Bool(_)
        | ExprKind::Null
        | ExprKind::Undefined
        | ExprKind::This
        | ExprKind::LocalGet(_)
        | ExprKind::StaticGet(..)
        | ExprKind::CaptureGet(_)
        | ExprKind::Closure(_)
        | ExprKind::FnValue(_)
        | ExprKind::BuiltinValue(_)
        | ExprKind::NamespaceVal(_)
        | ExprKind::IncDec { .. }
        | ExprKind::StaticIncDec { .. }
        | ExprKind::CaptureIncDec { .. }
        | ExprKind::RegExpLit(..) => Seq::empty(),
        ExprKind::LocalSet(_, a)
        | ExprKind::StrLen(a)
        | ExprKind::Unary(_, a)
        | ExprKind::Is(a, _)
        | ExprKind::As(a, _)
        | ExprKind::Conv(_, a)
        | ExprKind::StaticSet(_, _, a)
        | ExprKind::CaptureSet(_, a)
        | ExprKind::EnumLen(a)
        | ExprKind::SeqLen(a)
        | ExprKind::PropGet(a, _)
        | ExprKind::DeleteProp(a, _)
        | ExprKind::NewNamespace(a)
        | ExprKind::NsUri(a)
        | ExprKind::FieldGet(a, _, _)
        | ExprKind::BoundMethod(a, _, _)
        | ExprKind::FieldIncDec { recv: a, .. } => seq![**a],
        ExprKind::Binary(_, a, b)
        | ExprKind::Comma(a, b)
        | ExprKind::EnumKey(a, b)
        | ExprKind::EnumValue(a, b)
        | ExprKind::AnyIndexGet(a, b)
        | ExprKind::HasProp(a, b)
        | ExprKind::PropSet(a, _, b)
        | ExprKind::FieldSet(a, _, _, b)
        | ExprKind::NsGet(a, b, _)
        | ExprKind::SeqSetLen(a, b)
        | ExprKind::SeqGet(a, b, _)
        | ExprKind::Logical { lhs: a, rhs: b, .. } => seq![**a, **b],
        ExprKind::Conditional(a, b, c)
        | ExprKind::AnyIndexSet(a, b, c)
        | ExprKind::SeqSet(a, b, c, _) => seq![**a, **b, **c],
        ExprKind::CallStrMethod(_, recv, args)
        | ExprKind::CallNumMethod(_, recv, args)
        | ExprKind::CallArr(_, recv, args)
        | ExprKind::CallVec(_, recv, args)
        | ExprKind::PropCall(recv, _, args)
        | ExprKind::CallVirtual { recv, args, .. }
        | ExprKind::CallIface { recv, args, .. }
        | ExprKind::CallDirect { recv, args, .. } => seq![**recv] + args@,
        ExprKind::NsCall(recv, q, _, args) => seq![**recv, **q] + args@,
        ExprKind::CallFn(_, args)
        | ExprKind::CallBuiltin(_, args)
        | ExprKind::New(_, args)
        | ExprKind::VectorLit(_, args)
        | ExprKind::CallNative(_, args)
        | ExprKind::NewRegExp(args)
        | ExprKind::CallRegex(_, args)
        | ExprKind::NewDate(args)
        | ExprKind::CallDate(_, args)
        | ExprKind::CallSocket(_, args) => args@,
        ExprKind::CallFnValue { callee, this_arg, args, .. } => match this_arg {
            Some(t) => seq![**callee, **t] + args@,
            None => seq![**callee] + args@,
        },
        ExprKind::ArrayLit(els) => present(els@, els@.len()),
        ExprKind::ObjectLit(props) => prop_values(props@),
    }
}

proof fn lemma_present_smaller(els: Seq<Option<Expr>>, n: nat)
    ensures
        forall|i: int|
            0 <= i < present(els, n).len() ==> decreases_to!(els => #[trigger] present(els, n)[i]),
    decreases n,
{
    if 0 < n <= els.len() {
        lemma_present_smaller(els, (n - 1) as nat);
        let earlier = present(els, (n - 1) as nat);
        assert forall|i: int| 0 <= i < present(els, n).len() implies decreases_to!(els => #[trigger] present(els, n)[i]) by {
            if i < earlier.len() {
                assert(present(els, n)[i] == earlier[i]);
            } else {
                assert(decreases_to!(els => els[n - 1]));
                assert(decreases_to!(els[n - 1] => els[n - 1]->0));
                assert(present(els, n)[i] == els[n - 1]->0);
            }
        }
    }
}

/// Every child is a smaller tree.
pub proof fn lemma_kids_smaller(e: &Expr)
    ensures
        forall|i: int| 0 <= i < kids(e).len() ==> decreases_to!(e => #[trigger] kids(e)[i]),
{
    match &e.kind {
        ExprKind::ArrayLit(els) => {
            lemma_present_smaller(els@, els@.len());
        },
        ExprKind::ObjectLit(props) => {
            assert forall|i: int| 0 <= i < kids(e).len() implies decreases_to!(e => #[trigger] kids(e)[i]) by {
                assert(decreases_to!(props@ => props@[i]));
                assert(decreases_to!(props@[i] => props@[i].1));
            }
        },
        ExprKind::CallStrMethod(_, recv, args)
        | ExprKind::CallNumMethod(_, recv, args)
        | ExprKind::CallArr(_, recv, args)
        | ExprKind::CallVec(_, recv, args)
        | ExprKind::PropCall(recv, _, args)
        | ExprKind::CallVirtual { recv, args, .. }
        | ExprKind::CallIface { recv, args, .. }
        | ExprKind::CallDirect { recv, args, .. }
        | ExprKind::NsCall(recv, _, _, args) => {
            lemma_list_smaller(e, args@);
        },
        ExprKind::CallFn(_, args)
        | ExprKind::CallBuiltin(_, args)
        | ExprKind::New(_, args)
        | ExprKind::VectorLit(_, args)
        | ExprKind::CallNative(_, args)
        | ExprKind::NewRegExp(args)
        | ExprKind::CallRegex(_, args)
        | ExprKind::NewDate(args)
        | ExprKind::CallDate(_, args)
        | ExprKind::CallSocket(_, args) => {
            lemma_list_smaller(e, args@);
        },
        ExprKind::CallFnValue { callee, this_arg, args, .. } => {
            lemma_list_smaller(e, args@);
        },
        _ => {},
    }
}

proof fn lemma_list_smaller(e: &Expr, args: Seq<Expr>)
    requires
        decreases_to!(e => args),
    ensures
        forall|i: int| 0 <= i < args.len() ==> decreases_to!(e => #[trigger] args[i]),
{
    assert forall|i: int| 0 <= i < args.len() implies decreases_to!(e => #[trigger] args[i]) by {
        assert(decreases_to!(args => args[i]));
    }
}

fn push_all<'e>(out: &mut Vec<&'e Expr>, args: &'e Vec<Expr>)
    ensures
        final(out)@.len() == old(out)@.len() + args@.len(),
        forall|i: int| 0 <= i < old(out)@.len() ==> final(out)@[i] == old(out)@[i],
        forall|i: int|
            0 <= i < args@.len() ==> *#[trigger] final(out)@[old(out)@.len() + i] == args@[i],
{
    let ghost base = out@;
    let mut k: usize = 0;
    while k < args.len()
        invariant
            k <= args@.len(),
            out@.len() == base.len() + k,
            forall|i: int| 0 <= i < base.len() ==> out@[i] == base[i],
            forall|i: int| 0 <= i < k ==> *#[trigger] out@[base.len() + i] == args@[i],
        decreases args@.len() - k,
    {
        out.push(&args[k]);
        k = k + 1;
    }
}

/// The list refers to the expressions of `s`, in order.
pub open spec fn refers_to(out: Seq<&Expr>, s: Seq<Expr>) -> bool {
    out.len() == s.len() && forall|i: int| 0 <= i < s.len() ==> *#[trigger] out[i] == s[i]
}

/// The direct subexpressions, in order.
pub fn children<'e>(e: &'e Expr) -> (r: Vec<&'e Expr>)
    ensures
        refers_to(r@, kids(e)),
{
    let mut out: Vec<&'e Expr> = Vec::new();
    match &e.kind {
        ExprKind::Int(_)
        | ExprKind::UInt(_)
        | ExprKind::Number(_)
        | ExprKind::Str(_)
        | ExprKind::Bool(_)
        | ExprKind::Null
        | ExprKind::Undefined
        | ExprKind::This
        | ExprKind::LocalGet(_)
        | ExprKind::StaticGet(..)
        | ExprKind::CaptureGet(_)
        | ExprKind::Closure(_)
        | ExprKind::FnValue(_)
        | ExprKind::BuiltinValue(_)
        | ExprKind::NamespaceVal(_)
        | ExprKind::IncDec { .. }
        | ExprKind::StaticIncDec { .. }
        | ExprKind::CaptureIncDec { .. }
        | ExprKind::RegExpLit(..) => {},
        ExprKind::LocalSet(_, a)
        | ExprKind::StrLen(a)
        | ExprKind::Unary(_, a)
        | ExprKind::Is(a, _)
        | ExprKind::As(a, _)
        | ExprKind::Conv(_, a)
        | ExprKind::StaticSet(_, _, a)
        | ExprKind::CaptureSet(_, a)
        | ExprKind::EnumLen(a)
        | ExprKind::SeqLen(a)
        | ExprKind::PropGet(a, _)
        | ExprKind::DeleteProp(a, _)
        | ExprKind::NewNamespace(a)
        | ExprKind::NsUri(a)
        | ExprKind::FieldGet(a, _, _)
        | ExprKind::BoundMethod(a, _, _)
        | ExprKind::FieldIncDec { recv: a, .. } => {
            out.push(a);
        },
        ExprKind::Binary(_, a, b)
        | ExprKind::Comma(a, b)
        | ExprKind::EnumKey(a, b)
        | ExprKind::EnumValue(a, b)
        | ExprKind::AnyIndexGet(a, b)
        | ExprKind::HasProp(a, b)
        | ExprKind::PropSet(a, _, b)
        | ExprKind::FieldSet(a, _, _, b)
        | ExprKind::NsGet(a, b, _)
        | ExprKind::SeqSetLen(a, b)
        | ExprKind::SeqGet(a, b, _)
        | ExprKind::Logical { lhs: a, rhs: b, .. } => {
            out.push(a);
            out.push(b);
        },
        ExprKind::Conditional(a, b, c)
        | ExprKind::AnyIndexSet(a, b, c)
        | ExprKind::SeqSet(a, b, c, _) => {
            out.push(a);
            out.push(b);
            out.push(c);
        },
        ExprKind::CallStrMethod(_, recv, args)
        | ExprKind::CallNumMethod(_, recv, args)
        | ExprKind::CallArr(_, recv, args)
        | ExprKind::CallVec(_, recv, args)
        | ExprKind::PropCall(recv, _, args)
        | ExprKind::CallVirtual { recv, args, .. }
        | ExprKind::CallIface { recv, args, .. }
        | ExprKind::CallDirect { recv, args, .. } => {
            out.push(recv);
            push_all(&mut out, args);
            assert forall|i: int| 0 <= i < kids(e).len() implies *#[trigger] out@[i] == kids(e)[i] by {
                if i > 0 {
                    assert(*out@[1 + (i - 1)] == args@[i - 1]);
                }
            }
        },
        ExprKind::NsCall(recv, q, _, args) => {
            out.push(recv);
            out.push(q);
            push_all(&mut out, args);
            assert forall|i: int| 0 <= i < kids(e).len() implies *#[trigger] out@[i] == kids(e)[i] by {
                if i > 1 {
                    assert(*out@[2 + (i - 2)] == args@[i - 2]);
                }
            }
        },
        ExprKind::CallFn(_, args)
        | ExprKind::CallBuiltin(_, args)
        | ExprKind::New(_, args)
        | ExprKind::VectorLit(_, args)
        | ExprKind::CallNative(_, args)
        | ExprKind::NewRegExp(args)
        | ExprKind::CallRegex(_, args)
        | ExprKind::NewDate(args)
        | ExprKind::CallDate(_, args)
        | ExprKind::CallSocket(_, args) => {
            push_all(&mut out, args);
            assert forall|i: int| 0 <= i < kids(e).len() implies *#[trigger] out@[i] == kids(e)[i] by {
                assert(*out@[0 + i] == args@[i]);
            }
        },
        ExprKind::CallFnValue { callee, this_arg, args, .. } => {
            out.push(callee);
            if let Some(t) = this_arg {
                out.push(t);
            }
            let ghost n = out@.len();
            push_all(&mut out, args);
            assert forall|i: int| 0 <= i < kids(e).len() implies *#[trigger] out@[i] == kids(e)[i] by {
                if i >= n {
                    assert(*out@[n + (i - n)] == args@[i - n]);
                }
            }
        },
        ExprKind::ArrayLit(els) => {
            let mut k: usize = 0;
            while k < els.len()
                invariant
                    k <= els@.len(),
                    refers_to(out@, present(els@, k as nat)),
                decreases els@.len() - k,
            {
                if let Some(x) = &els[k] {
                    out.push(x);
                }
                k = k + 1;
            }
        },
        ExprKind::ObjectLit(props) => {
            let mut k: usize = 0;
            while k < props.len()
                invariant
                    k <= props@.len(),
                    out@.len() == k,
                    forall|i: int| 0 <= i < k ==> *#[trigger] out@[i] == props@[i].1,
                decreases props@.len() - k,
            {
                out.push(&props[k].1);
                k = k + 1;
            }
        },
    }
    out
}

// --- statements -----------------------------------------------------------------------

/// The tests of the first `n` cases.
pub open spec fn case_tests(cs: Seq<Case>, n: nat) -> Seq<Expr>
    decreases n,
{
    if 0 < n <= cs.len() {
        match cs[n - 1].test {
            Some(e) => case_tests(cs, (n - 1) as nat).push(e),
            None => case_tests(cs, (n - 1) as nat),
        }
    } else {
        Seq::empty()
    }
}

pub open spec fn opt_seq(e: Option<Expr>) -> Seq<Expr> {
    match e {
        Some(x) => seq![x],
        None => Seq::empty(),
    }
}

/// The expressions that stand directly in a statement.
pub open spec fn stmt_exprs(s: &Stmt) -> Seq<Expr> {
    match s {
        Stmt::Expr(e) => seq![*e],
        Stmt::Throw(e) => seq![*e],
        Stmt::Assign(_, e) => seq![*e],
        Stmt::If { cond, .. } => seq![*cond],
        Stmt::While { cond, .. } => seq![*cond],
        Stmt::DoWhile { cond, .. } => seq![*cond],
        Stmt::For { cond, update, .. } => opt_seq(*cond) + opt_seq(*update),
        Stmt::Switch { scrutinee, cases } => seq![*scrutinee] + case_tests(cases@, cases@.len()),
        Stmt::Return { value } => opt_seq(*value),
        _ => Seq::empty(),
    }
}

/// The bodies of the first `n` cases.
pub open spec fn case_stmts(cs: Seq<Case>, n: nat) -> Seq<Stmt>
    decreases n,
{
    if 0 < n <= cs.len() {
        case_stmts(cs, (n - 1) as nat) + cs[n - 1].body@
    } else {
        Seq::empty()
    }
}

/// The bodies of the first `n` catch clauses.
pub open spec fn catch_stmts(cs: Seq<Catch>, n: nat) -> Seq<Stmt>
    decreases n,
{
    if 0 < n <= cs.len() {
        catch_stmts(cs, (n - 1) as nat) + cs[n - 1].body@
    } else {
        Seq::empty()
    }
}

pub open spec fn opt_stmt(s: Option<Box<Stmt>>) -> Seq<Stmt> {
    match s {
        Some(x) => seq![*x],
        None => Seq::empty(),
    }
}

/// The statements that stand directly in a statement.
pub open spec fn stmt_kids(s: &Stmt) -> Seq<Stmt> {
    match s {
        Stmt::Block(b) => b@,
        Stmt::If { then_branch, else_branch, .. } => seq![**then_branch] + opt_stmt(*else_branch),
        Stmt::While { body, .. } => seq![**body],
        Stmt::DoWhile { body, .. } => seq![**body],
        Stmt::For { init, body, .. } => opt_stmt(*init) + seq![**body],
        Stmt::Switch { cases, .. } => case_stmts(cases@, cases@.len()),
        Stmt::Try { body, catches, finally } => body@ + catch_stmts(catches@, catches@.len())
            + match finally {
            Some(f) => f@,
            None => Seq::empty(),
        },
        _ => Seq::empty(),
    }
}

proof fn lemma_case_stmts_smaller(cs: Seq<Case>, n: nat)
    ensures
        forall|i: int|
            0 <= i < case_stmts(cs, n).len() ==> decreases_to!(cs => #[trigger] case_stmts(cs, n)[i]),
    decreases n,
{
    if 0 < n <= cs.len() {
        lemma_case_stmts_smaller(cs, (n - 1) as nat);
        let earlier = case_stmts(cs, (n - 1) as nat);
        assert forall|i: int| 0 <= i < case_stmts(cs, n).len() implies decreases_to!(cs => #[trigger] case_stmts(cs, n)[i]) by {
            if i < earlier.len() {
                assert(case_stmts(cs, n)[i] == earlier[i]);
            } else {
                let b = cs[n - 1].body@;
                assert(case_stmts(cs, n)[i] == b[i - earlier.len()]);
                assert(decreases_to!(cs => cs[n - 1]));
                assert(decreases_to!(cs[n - 1] => cs[n - 1].body));
                assert(decreases_to!(b => b[i - earlier.len()]));
            }
        }
    }
}

proof fn lemma_catch_stmts_smaller(cs: Seq<Catch>, n: nat)
    ensures
        forall|i: int|
            0 <= i < catch_stmts(cs, n).len() ==> decreases_to!(cs => #[trigger] catch_stmts(cs, n)[i]),
    decreases n,
{
    if 0 < n <= cs.len() {
        lemma_catch_stmts_smaller(cs, (n - 1) as nat);
        let earlier = catch_stmts(cs, (n - 1) as nat);
        assert forall|i: int| 0 <= i < catch_stmts(cs, n).len() implies decreases_to!(cs => #[trigger] catch_stmts(cs, n)[i]) by {
            if i < earlier.len() {
                assert(catch_stmts(cs, n)[i] == earlier[i]);
            } else {
                let b = cs[n - 1].body@;
                assert(catch_stmts(cs, n)[i] == b[i - earlier.len()]);
                assert(decreases_to!(cs => cs[n - 1]));
                assert(decreases_to!(cs[n - 1] => cs[n - 1].body));
                assert(decreases_to!(b => b[i - earlier.len()]));
            }
        }
    }
}

proof fn lemma_stmts_smaller(s: &Stmt, b: Seq<Stmt>)
    requires
        decreases_to!(s => b),
    ensures
        forall|i: int| 0 <= i < b.len() ==> decreases_to!(s => #[trigger] b[i]),
{
    assert forall|i: int| 0 <= i < b.len() implies decreases_to!(s => #[trigger] b[i]) by {
        assert(decreases_to!(b => b[i]));
    }
}

/// Every nested statement is a smaller tree.
pub proof fn lemma_stmt_kids_smaller(s: &Stmt)
    ensures
        forall|i: int| 0 <= i < stmt_kids(s).len() ==> decreases_to!(s => #[trigger] stmt_kids(s)[i]),
{
    match s {
        Stmt::Block(b) => {
            lemma_stmts_smaller(s, b@);
        },
        Stmt::If { then_branch, else_branch, .. } => {
            if let Some(x) = else_branch {
                assert(decreases_to!(s => **x));
            }
        },
        Stmt::For { init, body, .. } => {
            if let Some(x) = init {
                assert(decreases_to!(s => **x));
            }
        },
        Stmt::Switch { cases, .. } => {
            lemma_case_stmts_smaller(cases@, cases@.len());
        },
        Stmt::Try { body, catches, finally } => {
            lemma_stmts_smaller(s, body@);
            lemma_catch_stmts_smaller(catches@, catches@.len());
            if let Some(f) = finally {
                lemma_stmts_smaller(s, f@);
            }
            let c = catch_stmts(catches@, catches@.len());
            assert forall|i: int| 0 <= i < stmt_kids(s).len() implies decreases_to!(s => #[trigger] stmt_kids(s)[i]) by {
                if i < body@.len() {
                    assert(stmt_kids(s)[i] == body@[i]);
                } else if i < body@.len() + c.len() {
                    assert(stmt_kids(s)[i] == c[i - body@.len()]);
                } else {
                    assert(finally is Some);
                    assert(stmt_kids(s)[i] == finally->0@[i - body@.len() - c.len()]);
                }
            }
        },
        _ => {},
    }
}

fn push_opt<'e>(out: &mut Vec<&'e Expr>, e: &'e Option<Expr>, Ghost(s): Ghost<Seq<Expr>>)
    requires
        refers_to(old(out)@, s),
    ensures
        refers_to(final(out)@, s + opt_seq(*e)),
{
    if let Some(x) = e {
        out.push(x);
    }
}

/// The expressions that stand directly in a statement.
pub fn direct_exprs<'e>(s: &'e Stmt) -> (r: Vec<&'e Expr>)
    ensures
        refers_to(r@, stmt_exprs(s)),
{
    let mut out: Vec<&'e Expr> = Vec::new();
    match s {
        Stmt::Expr(e) | Stmt::Throw(e) | Stmt::Assign(_, e) => out.push(e),
        Stmt::If { cond, .. } | Stmt::While { cond, .. } | Stmt::DoWhile { cond, .. } => out.push(
            cond,
        ),
        Stmt::For { cond, update, .. } => {
            push_opt(&mut out, cond, Ghost(Seq::empty()));
            assert(Seq::empty() + opt_seq(*cond) =~= opt_seq(*cond));
            push_opt(&mut out, update, Ghost(opt_seq(*cond)));
        },
        Stmt::Switch { scrutinee, cases } => {
            out.push(scrutinee);
            let mut k: usize = 0;
            while k < cases.len()
                invariant
                    k <= cases@.len(),
                    refers_to(out@, seq![*scrutinee] + case_tests(cases@, k as nat)),
                decreases cases@.len() - k,
            {
                if let Some(t) = &cases[k].test {
                    out.push(t);
                }
                k = k + 1;
            }
        },
        Stmt::Return { value } => {
            push_opt(&mut out, value, Ghost(Seq::empty()));
            assert(Seq::empty() + opt_seq(*value) =~= opt_seq(*value));
        },
        Stmt::Block(_)
        | Stmt::Break { .. }
        | Stmt::Continue { .. }
        | Stmt::Try { .. }
        | Stmt::Empty => {},
    }
    out
}

/// The list refers to the statements of `s`, in order.
pub open spec fn refers_to_stmts(out: Seq<&Stmt>, s: Seq<Stmt>) -> bool {
    out.len() == s.len() && forall|i: int| 0 <= i < s.len() ==> *#[trigger] out[i] == s[i]
}

fn push_stmts<'e>(out: &mut Vec<&'e Stmt>, b: &'e Vec<Stmt>, Ghost(s): Ghost<Seq<Stmt>>)
    requires
        refers_to_stmts(old(out)@, s),
    ensures
        refers_to_stmts(final(out)@, s + b@),
{
    let mut k: usize = 0;
    assert(s + b@.take(0) =~= s);
    while k < b.len()
        invariant
            k <= b@.len(),
            refers_to_stmts(out@, s + b@.take(k as int)),
        decreases b@.len() - k,
    {
        out.push(&b[k]);
        assert(s + b@.take(k as int + 1) =~= (s + b@.take(k as int)).push(b@[k as int]));
        k = k + 1;
    }
    assert(b@.take(k as int) =~= b@);
}

/// The statements that stand directly in a statement.
pub fn direct_stmts<'e>(s: &'e Stmt) -> (r: Vec<&'e Stmt>)
    ensures
        refers_to_stmts(r@, stmt_kids(s)),
{
    let mut out: Vec<&'e Stmt> = Vec::new();
    match s {
        Stmt::Block(b) => {
            push_stmts(&mut out, b, Ghost(Seq::empty()));
            assert(Seq::empty() + b@ =~= b@);
        },
        Stmt::If { then_branch, else_branch, .. } => {
            out.push(then_branch);
            if let Some(x) = else_branch {
                out.push(x);
            }
        },
        Stmt::While { body, .. } | Stmt::DoWhile { body, .. } => out.push(body),
        Stmt::For { init, body, .. } => {
            if let Some(x) = init {
                out.push(x);
            }
            out.push(body);
        },
        Stmt::Switch { cases, .. } => {
            let mut k: usize = 0;
            while k < cases.len()
                invariant
                    k <= cases@.len(),
                    refers_to_stmts(out@, case_stmts(cases@, k as nat)),
                decreases cases@.len() - k,
            {
                push_stmts(&mut out, &cases[k].body, Ghost(case_stmts(cases@, k as nat)));
                k = k + 1;
            }
        },
        Stmt::Try { body, catches, finally } => {
            push_stmts(&mut out, body, Ghost(Seq::empty()));
            assert(Seq::empty() + body@ =~= body@);
            let mut k: usize = 0;
            assert(body@ + catch_stmts(catches@, 0) =~= body@);
            while k < catches.len()
                invariant
                    k <= catches@.len(),
                    refers_to_stmts(out@, body@ + catch_stmts(catches@, k as nat)),
                decreases catches@.len() - k,
            {
                let ghost before = body@ + catch_stmts(catches@, k as nat);
                push_stmts(&mut out, &catches[k].body, Ghost(before));
                assert(before + catches@[k as int].body@ =~= body@ + catch_stmts(
                    catches@,
                    (k + 1) as nat,
                ));
                k = k + 1;
            }
            if let Some(f) = finally {
                push_stmts(
                    &mut out,
                    f,
                    Ghost(body@ + catch_stmts(catches@, catches@.len())),
                );
            } else {
                assert(stmt_kids(s) =~= body@ + catch_stmts(catches@, catches@.len()));
            }
        },
        Stmt::Expr(_)
        | Stmt::Throw(_)
        | Stmt::Assign(..)
        | Stmt::Return { .. }
        | Stmt::Break { .. }
        | Stmt::Continue { .. }
        | Stmt::Empty => {},
    }
    out
}

} // verus!
