//! The code of a statement follows the way that the statement runs.
//!
//! Code is walked from place to place. The code of an expression is passed in one
//! step, which evaluates it; a conditional jump goes where the value of the
//! expression in front of it sends it.

use vstd::prelude::*;

use crate::codegen::code::{Cmd, Env, Frame, Op, St};
use crate::codegen::ops::store_local;
use crate::codegen::scheme::expr;
use crate::codegen::sound::{grows, lemma_grows_flags, neat};
use crate::codegen::value::{materialize, truthy};
use crate::meaning::run::{
    done, eval, eval_all, eval_props, eval_some, exec, exec_all, label_of, left, means, next_round,
    rounds, tested, Jump, Store, World,
};
use crate::meaning::switches::sends;
use crate::mir::{Case, Expr, ExprKind, LocalId, Stmt, Ty};

verus! {

// --- walking ------------------------------------------------------------------------------

pub ghost enum Place {
    /// Before the command.
    Before(int),
    /// On the way into the block.
    Into(usize),
    /// Out of the function.
    Out,
}

/// The code starts with that of the state.
#[verifier::opaque]
pub open spec fn starts_with(code: Seq<Cmd>, st: St) -> bool {
    &&& st.code.len() <= code.len()
    &&& forall|k: int| 0 <= k < st.code.len() ==> code[k] == #[trigger] st.code[k]
}

/// From `i` to `j` stands the code of the expression.
pub open spec fn is_code(code: Seq<Cmd>, i: int, j: int, e: &Expr) -> bool {
    exists|env: Env, st: St| #[trigger]
        starts_with(code, expr(env, st, e).0) && starts_with(code, st) && st.code.len() == i && expr(
            env,
            st,
            e,
        ).0.code.len() == j
}

/// From `i` to `j` stands the code that assigns the expression to the local.
pub open spec fn is_assignment(code: Seq<Cmd>, i: int, j: int, l: LocalId, e: &Expr) -> bool {
    exists|env: Env, st: St|
        #![trigger expr(env, st, e)]
        ({
            let (st1, v) = expr(env, st, e);
            let st2 = store_local(env, st1, l, v);
            starts_with(code, st2) && starts_with(code, st) && st.code.len() == i
                && st2.code.len() == j
        })
}

/// At `i` stands the code that evaluates the expression and jumps to `t` if it is
/// true, and to `f` if not. Blocks may be created before the jump.
pub open spec fn is_test(code: Seq<Cmd>, i: int, e: &Expr, t: usize, f: usize) -> bool {
    exists|env: Env, st: St, j: int|
        #![trigger expr(env, st, e), code[j]]
        ({
            let (st1, v) = expr(env, st, e);
            let (st2, c) = truthy(st1, v);
            starts_with(code, st2) && starts_with(code, st) && st.code.len() == i
                && st2.code.len() <= j < code.len() && code[j] == Cmd::CondBr(c, t, f) && (forall|
                k: int,
            |
                st2.code.len() <= k < j ==> #[trigger] code[k] is NewBlock)
        })
}

/// At `i` stands the code that returns the value of the expression.
pub open spec fn is_return(code: Seq<Cmd>, i: int, e: &Expr) -> bool {
    exists|env: Env, st: St|
        #![trigger expr(env, st, e)]
        ({
            let (st1, v) = expr(env, st, e);
            let (st2, x) = materialize(st1, v);
            starts_with(code, st2) && starts_with(code, st) && st.code.len() == i
                && st2.code.len() < code.len() && code[st2.code.len() as int] == Cmd::Ret(x)
        })
}

/// One step through the code: a plain one, or the choice of a clause of a `switch`.
pub open spec fn hop(w: World, code: Seq<Cmd>, a: Place, s: Store, b: Place, t: Store) -> bool {
    ||| plain_hop(w, code, a, s, b, t)
    ||| match (a, b) {
        (Place::Before(i), Place::Into(x)) => sends(w, code, i, s, x, t),
        _ => false,
    }
}

/// One plain step through the code.
pub open spec fn plain_hop(w: World, code: Seq<Cmd>, a: Place, s: Store, b: Place, t: Store) -> bool {
    match (a, b) {
        (Place::Before(i), Place::Before(j)) => {
            ||| 0 <= i < code.len() && j == i + 1 && t == s && (code[i] is NewBlock || code[i]
                == Cmd::CallRt("vs_gc_safepoint", None))
            ||| exists|e: Expr|
                #![trigger is_code(code, i, j, &e)]
                is_code(code, i, j, &e) && t == eval(w, e, s).0 && t.runs()
            ||| exists|l: LocalId, e: Expr|
                #![trigger is_assignment(code, i, j, l, &e)]
                is_assignment(code, i, j, l, &e) && t.runs() && ({
                    let (s1, x) = eval(w, e, s);
                    t == s1.set(l, x)
                })
        },
        (Place::Before(i), Place::Into(x)) => {
            ||| 0 <= i < code.len() && code[i] == Cmd::Br(x) && t == s
            ||| exists|e: Expr, p: usize, q: usize|
                #![trigger is_test(code, i, &e, p, q)]
                is_test(code, i, &e, p, q) && t.runs() && ({
                    let (s1, v) = eval(w, e, s);
                    t == s1 && x == (if (w.truth)(v) {
                        p
                    } else {
                        q
                    })
                })
        },
        (Place::Into(x), Place::Before(j)) => 0 < j <= code.len() && code[j - 1] == Cmd::At(x) && t
            == s,
        (Place::Before(i), Place::Out) => {
            ||| 0 <= i < code.len() && (code[i] is Ret || code[i] is RetVoid) && t == s.go(
                Jump::Return(None),
            )
            ||| exists|e: Expr|
                #![trigger is_return(code, i, &e)]
                is_return(code, i, &e) && ({
                    let (s1, x) = eval(w, e, s);
                    t == s1.go(Jump::Return(Some(x))) && s1.runs()
                })
        },
        _ => false,
    }
}

pub open spec fn walks(
    w: World,
    code: Seq<Cmd>,
    n: nat,
    a: Place,
    s: Store,
    b: Place,
    t: Store,
) -> bool
    decreases n,
{
    if n == 0 {
        a == b && s == t
    } else {
        exists|c: Place, u: Store| #[trigger]
            hop(w, code, a, s, c, u) && walks(w, code, (n - 1) as nat, c, u, b, t)
    }
}

/// From one place and state the code leads to the other.
#[verifier::opaque]
pub open spec fn leads(w: World, code: Seq<Cmd>, a: Place, s: Store, b: Place, t: Store) -> bool {
    exists|n: nat| walks(w, code, n, a, s, b, t)
}

pub proof fn lemma_stay(w: World, code: Seq<Cmd>, a: Place, s: Store)
    ensures
        leads(w, code, a, s, a, s),
{
    reveal(leads);
    assert(walks(w, code, 0, a, s, a, s));
}

pub proof fn lemma_hop(w: World, code: Seq<Cmd>, a: Place, s: Store, b: Place, t: Store)
    requires
        hop(w, code, a, s, b, t),
    ensures
        leads(w, code, a, s, b, t),
{
    reveal(leads);
    assert(walks(w, code, 0, b, t, b, t));
    assert(walks(w, code, 1, a, s, b, t));
}

proof fn lemma_walks_on(
    w: World,
    code: Seq<Cmd>,
    n: nat,
    m: nat,
    a: Place,
    s: Store,
    b: Place,
    t: Store,
    c: Place,
    u: Store,
)
    requires
        walks(w, code, n, a, s, b, t),
        walks(w, code, m, b, t, c, u),
    ensures
        walks(w, code, n + m, a, s, c, u),
    decreases n,
{
    if n > 0 {
        let (d, v) = choose|d: Place, v: Store| #[trigger]
            hop(w, code, a, s, d, v) && walks(w, code, (n - 1) as nat, d, v, b, t);
        lemma_walks_on(w, code, (n - 1) as nat, m, d, v, b, t, c, u);
        assert((n + m - 1) as nat == (n - 1) as nat + m);
    }
}

pub proof fn lemma_then(
    w: World,
    code: Seq<Cmd>,
    a: Place,
    s: Store,
    b: Place,
    t: Store,
    c: Place,
    u: Store,
)
    requires
        leads(w, code, a, s, b, t),
        leads(w, code, b, t, c, u),
    ensures
        leads(w, code, a, s, c, u),
{
    reveal(leads);
    let n = choose|n: nat| walks(w, code, n, a, s, b, t);
    let m = choose|m: nat| walks(w, code, m, b, t, c, u);
    lemma_walks_on(w, code, n, m, a, s, b, t, c, u);
}

pub broadcast proof fn lemma_starts_earlier(code: Seq<Cmd>, a: St, b: St)
    requires
        #[trigger] grows(a, b),
        #[trigger] starts_with(code, b),
    ensures
        starts_with(code, a),
{
    reveal(grows);
    reveal(starts_with);
    assert forall|k: int| 0 <= k < a.code.len() implies code[k] == #[trigger] a.code[k] by {
        assert(b.code[k] == a.code[k]);
    }
}

/// A command that was pushed stands in the code.
pub proof fn lemma_pushed<'a>(code: Seq<Cmd<'a>>, a: St<'a>, b: St<'a>, c: Cmd<'a>)
    requires
        starts_with(code, b),
        b.code == a.code.push(c),
    ensures
        starts_with(code, a),
        a.code.len() < code.len(),
        code[a.code.len() as int] == c,
        b.code.len() == a.code.len() + 1,
{
    reveal(starts_with);
    assert(code[a.code.len() as int] == b.code[a.code.len() as int]);
    assert forall|k: int| 0 <= k < a.code.len() implies code[k] == #[trigger] a.code[k] by {
        assert(code[k] == b.code[k]);
    }
}

// --- following ----------------------------------------------------------------------------

/// The block that a `break` or `continue` with the label goes to: that of the
/// innermost of the first `n` frames that it means; a `switch` has no next round.
pub open spec fn goal(frames: Seq<Frame>, n: nat, l: Option<Seq<char>>, next: bool) -> Option<usize>
    decreases n,
{
    if 0 < n <= frames.len() {
        let f = frames[n - 1];
        let label = match f.label {
            Some(x) => Some(x@),
            None => None,
        };
        if means(l, label) && (next ==> f.continue_bb is Some) {
            if next {
                f.continue_bb
            } else {
                Some(f.break_bb)
            }
        } else {
            goal(frames, (n - 1) as nat, l, next)
        }
    } else {
        None
    }
}

/// The statement has no exceptions in it.
pub open spec fn is_basic(st: Stmt) -> bool
    decreases st, 1nat,
{
    match st {
        Stmt::Block(b) => all_basic(b@),
        Stmt::If { then_branch, else_branch, .. } => is_basic(*then_branch) && match else_branch {
            Some(x) => is_basic(*x),
            None => true,
        },
        Stmt::While { body, .. } => is_basic(*body),
        Stmt::DoWhile { body, .. } => is_basic(*body),
        Stmt::For { init, body, .. } => is_basic(*body) && match init {
            Some(x) => is_basic(*x),
            None => true,
        },
        Stmt::Switch { cases, .. } => cases_basic(cases@),
        Stmt::Throw(_) | Stmt::Try { .. } => false,
        _ => true,
    }
}

pub open spec fn all_basic(l: Seq<Stmt>) -> bool
    decreases l, 0nat,
{
    forall|i: int| 0 <= i < l.len() ==> is_basic(#[trigger] l[i])
}

pub open spec fn cases_basic(cs: Seq<Case>) -> bool
    decreases cs, 0nat,
{
    forall|i: int| 0 <= i < cs.len() ==> all_basic((#[trigger] cs[i]).body@)
}

/// The code from `a` to `b` leads to where the run came out, in the state that it
/// came out with.
pub open spec fn comes_out(
    w: World,
    code: Seq<Cmd>,
    env: Env,
    a: Place,
    s: Store,
    b: St,
    t: Store,
) -> bool {
    let n = env.frames.len();
    match t.jump {
        Jump::Go => b.open && leads(w, code, a, s, Place::Before(b.code.len() as int), t),
        Jump::Break(l) => goal(env.frames, n, l, false) matches Some(x) && leads(
            w,
            code,
            a,
            s,
            Place::Into(x),
            t.go(Jump::Go),
        ),
        Jump::Continue(l) => goal(env.frames, n, l, true) matches Some(x) && leads(
            w,
            code,
            a,
            s,
            Place::Into(x),
            t.go(Jump::Go),
        ),
        Jump::Return(_) => leads(w, code, a, s, Place::Out, t),
        _ => true,
    }
}

/// Where the code is compiled from a state that is open, with nothing to clean up,
/// and all that it met was possible, it follows the run of the statement, wherever it
/// is put in.
#[verifier::opaque]
pub open spec fn follows(env: Env, a: St, b: St, st: Stmt) -> bool {
    forall|w: World, code: Seq<Cmd>, n: nat, s: Store|
        neat(a) && a.open && b.ok && env.exits.len() == 0 && is_basic(st) && starts_with(code, b)
            && s.runs()
            ==> #[trigger] comes_out(
            w,
            code,
            env,
            Place::Before(a.code.len() as int),
            s,
            b,
            exec(w, st, n, s),
        )
}

/// As [`follows`], for the first `k` statements of a list.
#[verifier::opaque]
pub open spec fn follows_all(env: Env, a: St, b: St, l: Seq<Stmt>, k: nat) -> bool {
    forall|w: World, code: Seq<Cmd>, n: nat, s: Store|
        neat(a) && a.open && b.ok && env.exits.len() == 0 && all_basic(l) && starts_with(code, b)
            && s.runs()
            ==> #[trigger] comes_out(
            w,
            code,
            env,
            Place::Before(a.code.len() as int),
            s,
            b,
            exec_all(w, l, k, n, s),
        )
}

pub proof fn lemma_follows(
    env: Env,
    a: St,
    b: St,
    st: Stmt,
    w: World,
    code: Seq<Cmd>,
    n: nat,
    s: Store,
)
    requires
        follows(env, a, b, st),
        neat(a),
        a.open,
        b.ok,
        env.exits.len() == 0,
        is_basic(st),
        starts_with(code, b),
        s.runs(),
    ensures
        comes_out(
            w,
            code,
            env,
            Place::Before(a.code.len() as int),
            s,
            b,
            exec(w, st, n, s),
        ),
{
    reveal(follows);
}

/// What came out goes on from an earlier place.
pub proof fn lemma_comes_later(
    w: World,
    code: Seq<Cmd>,
    env: Env,
    a: Place,
    s: Store,
    b: Place,
    t: Store,
    c: St,
    u: Store,
)
    requires
        leads(w, code, a, s, b, t),
        comes_out(w, code, env, b, t, c, u),
    ensures
        comes_out(w, code, env, a, s, c, u),
{
    match u.jump {
        Jump::Go => lemma_then(w, code, a, s, b, t, Place::Before(c.code.len() as int), u),
        Jump::Break(l) => {
            let x = goal(env.frames, env.frames.len(), l, false)->0;
            lemma_then(w, code, a, s, b, t, Place::Into(x), u.go(Jump::Go));
        },
        Jump::Continue(l) => {
            let x = goal(env.frames, env.frames.len(), l, true)->0;
            lemma_then(w, code, a, s, b, t, Place::Into(x), u.go(Jump::Go));
        },
        Jump::Return(_) => lemma_then(w, code, a, s, b, t, Place::Out, u),
        _ => {},
    }
}

// --- single statements --------------------------------------------------------------------

/// Code that was not reached follows anything.
pub proof fn lemma_unreached(env: Env, a: St, b: St, st: Stmt)
    requires
        !a.open || !is_basic(st) || st is Empty && a == b,
    ensures
        follows(env, a, b, st),
{
    reveal(follows);
    if st is Empty && a == b {
        assert forall|w: World, code: Seq<Cmd>, n: nat, s: Store|
            neat(a) && a.open && b.ok && env.exits.len() == 0 && is_basic(st)
                && starts_with(code, b) && s.runs() implies #[trigger] comes_out(
            w,
            code,
            env,
            Place::Before(a.code.len() as int),
            s,
            b,
            exec(w, st, n, s),
        ) by {
            lemma_stay(w, code, Place::Before(a.code.len() as int), s);
        }
    }
}

pub proof fn lemma_expr_follows<'a>(env: Env<'a>, a: St<'a>, b: St<'a>, e: &'a Expr, st: Stmt)
    requires
        st == Stmt::Expr(*e),
        b == expr(env, a, e).0,
        grows(a, b),
        neat(a) && a.open ==> b.open,
    ensures
        follows(env, a, b, st),
{
    broadcast use lemma_starts_earlier;

    reveal(follows);
    assert forall|w: World, code: Seq<Cmd>, n: nat, s: Store|
        neat(a) && a.open && b.ok && env.exits.len() == 0 && is_basic(st) && starts_with(code, b)
            && s.runs()
            implies #[trigger] comes_out(
        w,
        code,
        env,
        Place::Before(a.code.len() as int),
        s,
        b,
        exec(w, st, n, s),
    ) by {
        lemma_eval_jump(w, *e, s);
        let t = exec(w, st, n, s);
        if t.runs() {
            assert(is_code(code, a.code.len() as int, b.code.len() as int, e));
            lemma_hop(
                w,
                code,
                Place::Before(a.code.len() as int),
                s,
                Place::Before(b.code.len() as int),
                t,
            );
        }
    }
}

pub proof fn lemma_assign_follows<'a>(
    env: Env<'a>,
    a: St<'a>,
    b: St<'a>,
    l: LocalId,
    e: &'a Expr,
    st: Stmt,
)
    requires
        st == Stmt::Assign(l, *e),
        ({
            let (st1, v) = expr(env, a, e);
            b == store_local(env, st1, l, v)
        }),
        grows(a, b),
        neat(a) && a.open ==> b.open,
    ensures
        follows(env, a, b, st),
{
    broadcast use lemma_starts_earlier;

    reveal(follows);
    assert forall|w: World, code: Seq<Cmd>, n: nat, s: Store|
        neat(a) && a.open && b.ok && env.exits.len() == 0 && is_basic(st) && starts_with(code, b)
            && s.runs()
            implies #[trigger] comes_out(
        w,
        code,
        env,
        Place::Before(a.code.len() as int),
        s,
        b,
        exec(w, st, n, s),
    ) by {
        lemma_eval_jump(w, *e, s);
        let t = exec(w, st, n, s);
        if t.runs() {
            let r = expr(env, a, e);
            assert(is_assignment(code, a.code.len() as int, b.code.len() as int, l, e));
            lemma_hop(
                w,
                code,
                Place::Before(a.code.len() as int),
                s,
                Place::Before(b.code.len() as int),
                t,
            );
        }
    }
}

/// A `break` or `continue` is a jump to its goal.
pub proof fn lemma_jump_follows<'a>(env: Env<'a>, a: St<'a>, b: St<'a>, st: Stmt)
    requires
        neat(a) && a.open && b.ok && env.exits.len() == 0 ==> ({
            let n = env.frames.len();
            let x = match st {
                Stmt::Break { label } => goal(env.frames, n, label_of(label), false),
                Stmt::Continue { label } => goal(env.frames, n, label_of(label), true),
                _ => None,
            };
            x is Some && b.code == a.code.push(Cmd::Br(x->0))
        }),
        st is Break || st is Continue,
    ensures
        follows(env, a, b, st),
{
    reveal(follows);
    assert forall|w: World, code: Seq<Cmd>, n: nat, s: Store|
        neat(a) && a.open && b.ok && env.exits.len() == 0 && is_basic(st) && starts_with(code, b)
            && s.runs()
            implies #[trigger] comes_out(
        w,
        code,
        env,
        Place::Before(a.code.len() as int),
        s,
        b,
        exec(w, st, n, s),
    ) by {
        let x = match st {
            Stmt::Break { label } => goal(env.frames, env.frames.len(), label_of(label), false),
            Stmt::Continue { label } => goal(env.frames, env.frames.len(), label_of(label), true),
            _ => None,
        }->0;
        lemma_pushed(code, a, b, Cmd::Br(x));
        lemma_hop(w, code, Place::Before(a.code.len() as int), s, Place::Into(x), s);
        assert(exec(w, st, n, s).go(Jump::Go) == s);
    }
}

/// A `return` evaluates its value and leaves with it.
pub proof fn lemma_return_follows<'a>(
    env: Env<'a>,
    a: St<'a>,
    b: St<'a>,
    value: &'a Option<Expr>,
    st: Stmt,
)
    requires
        st == (Stmt::Return { value: *value }),
        grows(a, b),
        env.exits.len() == 0 ==> match value {
            Some(e) => {
                let (st1, v) = expr(env, a, e);
                let (st2, x) = materialize(st1, v);
                st1.open ==> grows(st2, b) && b.code == st2.code.push(Cmd::Ret(x))
            },
            None => a.open ==> b.code.len() == a.code.len() + 1 && (b.code.last() is Ret
                || b.code.last() is RetVoid),
        },
        neat(a) && a.open && value is Some ==> expr(env, a, &value->0).0.open,
    ensures
        follows(env, a, b, st),
{
    broadcast use lemma_starts_earlier;

    reveal(follows);
    assert forall|w: World, code: Seq<Cmd>, n: nat, s: Store|
        neat(a) && a.open && b.ok && env.exits.len() == 0 && is_basic(st) && starts_with(code, b)
            && s.runs()
            implies #[trigger] comes_out(
        w,
        code,
        env,
        Place::Before(a.code.len() as int),
        s,
        b,
        exec(w, st, n, s),
    ) by {
        let t = exec(w, st, n, s);
        let i = a.code.len() as int;
        match value {
            Some(e) => {
                lemma_eval_jump(w, *e, s);
                let (st1, v) = expr(env, a, e);
                let (st2, x) = materialize(st1, v);
                lemma_pushed(code, st2, b, Cmd::Ret(x));
                assert(is_return(code, i, e));
                if eval(w, *e, s).0.runs() {
                    lemma_hop(w, code, Place::Before(i), s, Place::Out, t);
                }
            },
            None => {
                reveal(starts_with);
                assert(code[i] == b.code[i]);
                lemma_hop(w, code, Place::Before(i), s, Place::Out, t);
            },
        }
    }
}

// --- lists and branches -------------------------------------------------------------------

pub proof fn lemma_list_starts(env: Env, a: St, l: Seq<Stmt>)
    ensures
        follows_all(env, a, a, l, 0),
{
    reveal(follows_all);
    assert forall|w: World, code: Seq<Cmd>, n: nat, s: Store|
        neat(a) && a.open && a.ok && env.exits.len() == 0 && all_basic(l) && starts_with(code, a)
            && s.runs() implies #[trigger] comes_out(
        w,
        code,
        env,
        Place::Before(a.code.len() as int),
        s,
        a,
        exec_all(w, l, 0, n, s),
    ) by {
        lemma_stay(w, code, Place::Before(a.code.len() as int), s);
    }
}

/// One statement more.
pub proof fn lemma_list_follows(env: Env, a: St, m: St, b: St, l: Seq<Stmt>, k: nat)
    requires
        0 < k <= l.len(),
        follows_all(env, a, m, l, (k - 1) as nat),
        follows(env, m, b, l[k - 1]),
        grows(m, b),
        neat(a) ==> neat(m),
    ensures
        follows_all(env, a, b, l, k),
{
    broadcast use {lemma_starts_earlier, lemma_grows_flags};

    reveal(follows_all);
    assert forall|w: World, code: Seq<Cmd>, n: nat, s: Store|
        neat(a) && a.open && b.ok && env.exits.len() == 0 && all_basic(l) && starts_with(code, b)
            && s.runs() implies #[trigger] comes_out(
        w,
        code,
        env,
        Place::Before(a.code.len() as int),
        s,
        b,
        exec_all(w, l, k, n, s),
    ) by {
        let i = Place::Before(a.code.len() as int);
        let t = exec_all(w, l, (k - 1) as nat, n, s);
        assert(comes_out(w, code, env, i, s, m, t));
        if t.runs() {
            assert(is_basic(l[k - 1]));
            lemma_follows(env, m, b, l[k - 1], w, code, n, t);
            lemma_comes_later(
                w,
                code,
                env,
                i,
                s,
                Place::Before(m.code.len() as int),
                t,
                b,
                exec(w, l[k - 1], n, t),
            );
        }
    }
}

pub proof fn lemma_block_follows(env: Env, a: St, b: St, l: Vec<Stmt>)
    requires
        follows_all(env, a, b, l@, l@.len()),
    ensures
        follows(env, a, b, Stmt::Block(l)),
{
    reveal(follows);
    reveal(follows_all);
    assert forall|w: World, code: Seq<Cmd>, n: nat, s: Store|
        neat(a) && a.open && b.ok && env.exits.len() == 0 && is_basic(Stmt::Block(l))
            && starts_with(code, b) && s.runs() implies #[trigger] comes_out(
        w,
        code,
        env,
        Place::Before(a.code.len() as int),
        s,
        b,
        exec(w, Stmt::Block(l), n, s),
    ) by {
        assert(comes_out(
            w,
            code,
            env,
            Place::Before(a.code.len() as int),
            s,
            b,
            exec_all(w, l@, l@.len(), n, s),
        ));
    }
}

/// From one place to the other nothing happens.
pub open spec fn way(w: World, code: Seq<Cmd>, a: Place, b: Place) -> bool {
    forall|s: Store| #[trigger] leads(w, code, a, s, b, s)
}

/// From the place the condition sends control into one of the blocks.
pub open spec fn fork(
    w: World,
    code: Seq<Cmd>,
    a: Place,
    cond: Option<Expr>,
    p: usize,
    q: usize,
) -> bool {
    forall|s: Store|
        s.runs() && (#[trigger] tested(w, cond, s)).0.runs() ==> leads(
            w,
            code,
            a,
            s,
            Place::Into(
                if tested(w, cond, s).1 {
                    p
                } else {
                    q
                },
            ),
            tested(w, cond, s).0,
        )
}

/// From one place to the other the expression is evaluated, once.
pub open spec fn pass(w: World, code: Seq<Cmd>, a: Place, e: Option<Expr>, b: Place) -> bool {
    forall|s: Store|
        s.runs() && (#[trigger] done(w, e, s)).runs() ==> leads(w, code, a, s, b, done(w, e, s))
}

pub proof fn lemma_way_jump(w: World, code: Seq<Cmd>, i: int, x: usize)
    requires
        0 <= i < code.len(),
        code[i] == Cmd::Br(x),
    ensures
        way(w, code, Place::Before(i), Place::Into(x)),
{
    assert forall|s: Store| #[trigger]
        leads(w, code, Place::Before(i), s, Place::Into(x), s) by {
        lemma_hop(w, code, Place::Before(i), s, Place::Into(x), s);
    }
}

pub proof fn lemma_way_in(w: World, code: Seq<Cmd>, x: usize, j: int)
    requires
        0 < j <= code.len(),
        code[j - 1] == Cmd::At(x),
    ensures
        way(w, code, Place::Into(x), Place::Before(j)),
{
    assert forall|s: Store| #[trigger]
        leads(w, code, Place::Into(x), s, Place::Before(j), s) by {
        lemma_hop(w, code, Place::Into(x), s, Place::Before(j), s);
    }
}

pub proof fn lemma_way_next(w: World, code: Seq<Cmd>, i: int)
    requires
        0 <= i < code.len(),
        code[i] is NewBlock || code[i] == Cmd::CallRt("vs_gc_safepoint", None),
    ensures
        way(w, code, Place::Before(i), Place::Before(i + 1)),
{
    assert forall|s: Store| #[trigger]
        leads(w, code, Place::Before(i), s, Place::Before(i + 1), s) by {
        lemma_hop(w, code, Place::Before(i), s, Place::Before(i + 1), s);
    }
}

pub proof fn lemma_way_on(w: World, code: Seq<Cmd>, a: Place, b: Place, c: Place)
    requires
        way(w, code, a, b),
        way(w, code, b, c),
    ensures
        way(w, code, a, c),
{
    assert forall|s: Store| #[trigger] leads(w, code, a, s, c, s) by {
        lemma_then(w, code, a, s, b, s, c, s);
    }
}

/// A test in the code is a fork.
proof fn lemma_fork<'a>(
    w: World,
    code: Seq<Cmd<'a>>,
    env: Env<'a>,
    a: St<'a>,
    e: &'a Expr,
    j: int,
    p: usize,
    q: usize,
)
    requires
        ({
            let (st1, v) = expr(env, a, e);
            let (st2, c) = truthy(st1, v);
            starts_with(code, st2) && starts_with(code, a) && st2.code.len() <= j < code.len()
                && code[j] == Cmd::CondBr(c, p, q) && forall|k: int|
                st2.code.len() <= k < j ==> #[trigger] code[k] is NewBlock
        }),
    ensures
        fork(w, code, Place::Before(a.code.len() as int), Some(*e), p, q),
{
    let i = a.code.len() as int;
    assert(is_test(code, i, e, p, q)) by {
        let r = expr(env, a, e);
        let c = code[j];
    }
    assert forall|s: Store|
        s.runs() && (#[trigger] tested(w, Some(*e), s)).0.runs() implies leads(
        w,
        code,
        Place::Before(i),
        s,
        Place::Into(
            if tested(w, Some(*e), s).1 {
                p
            } else {
                q
            },
        ),
        tested(w, Some(*e), s).0,
    ) by {
        let (s1, c) = tested(w, Some(*e), s);
        lemma_hop(
            w,
            code,
            Place::Before(i),
            s,
            Place::Into(
                if c {
                    p
                } else {
                    q
                },
            ),
            s1,
        );
    }
}

/// The code of an expression is passed once.
proof fn lemma_pass<'a>(w: World, code: Seq<Cmd<'a>>, env: Env<'a>, a: St<'a>, e: &'a Expr)
    requires
        starts_with(code, expr(env, a, e).0),
        starts_with(code, a),
    ensures
        pass(
            w,
            code,
            Place::Before(a.code.len() as int),
            Some(*e),
            Place::Before(expr(env, a, e).0.code.len() as int),
        ),
{
    let i = a.code.len() as int;
    let j = expr(env, a, e).0.code.len() as int;
    assert(is_code(code, i, j, e));
    assert forall|s: Store| s.runs() && (#[trigger] done(w, Some(*e), s)).runs() implies leads(
        w,
        code,
        Place::Before(i),
        s,
        Place::Before(j),
        done(w, Some(*e), s),
    ) by {
        lemma_hop(w, code, Place::Before(i), s, Place::Before(j), done(w, Some(*e), s));
    }
}

/// `if`: the state before the branch, in each branch and behind it.
pub ghost struct IfLayout<'a> {
    /// Behind the truth value of the condition.
    pub tested: St<'a>,
    /// Behind the creation of the blocks.
    pub made: St<'a>,
    pub yes: St<'a>,
    pub yes_end: St<'a>,
    pub no: St<'a>,
    pub no_end: St<'a>,
    pub then_bb: usize,
    pub else_bb: usize,
    pub end_bb: usize,
    pub op: Op,
}

/// An `if` is laid out so.
pub open spec fn if_laid<'a>(
    env: Env<'a>,
    a: St<'a>,
    b: St<'a>,
    cond: &'a Expr,
    other: bool,
    x: IfLayout<'a>,
) -> bool {
    let (st1, v) = expr(env, a, cond);
    &&& (x.tested, x.op) == truthy(st1, v)
    &&& grows(a, x.tested)
    &&& grows(x.tested, x.made)
    &&& forall|k: int|
        x.tested.code.len() <= k < x.made.code.len() ==> #[trigger] x.made.code[k] is NewBlock
    &&& x.yes.code == x.made.code.push(Cmd::CondBr(x.op, x.then_bb, x.else_bb)).push(
        Cmd::At(x.then_bb),
    )
    &&& x.yes.open
    &&& grows(x.yes, x.yes_end)
    &&& grows(x.yes_end, b)
    &&& x.yes_end.open ==> b.code[x.yes_end.code.len() as int] == Cmd::Br(x.end_bb)
        && x.yes_end.code.len() < b.code.len()
    &&& other ==> {
        &&& x.no.code.len() > 0
        &&& x.no.code.last() == Cmd::At(x.else_bb)
        &&& x.no.open
        &&& grows(x.no, x.no_end)
        &&& grows(x.no_end, b)
        &&& x.no_end.open ==> b.code[x.no_end.code.len() as int] == Cmd::Br(x.end_bb)
            && x.no_end.code.len() < b.code.len()
    }
    &&& !other ==> x.else_bb == x.end_bb
    &&& b.code.len() > 0
    &&& b.code.last() == Cmd::At(x.end_bb)
    &&& b.open
}

/// A branch of an `if`, from where it is entered.
proof fn lemma_branch(
    w: World,
    code: Seq<Cmd>,
    env: Env,
    a: Place,
    s: Store,
    bb: usize,
    p: St,
    q: St,
    b: St,
    end: usize,
    st: Stmt,
    n: nat,
    t: Store,
)
    requires
        leads(w, code, a, s, Place::Into(bb), t),
        t.runs(),
        p.code.len() > 0,
        p.code.last() == Cmd::At(bb),
        p.open,
        neat(p),
        starts_with(code, p),
        starts_with(code, q),
        starts_with(code, b),
        follows(env, p, q, st),
        q.ok,
        env.exits.len() == 0,
        is_basic(st),
        q.open ==> q.code.len() < code.len() && code[q.code.len() as int] == Cmd::Br(end),
        b.code.len() > 0,
        b.code.last() == Cmd::At(end),
        b.open,
    ensures
        comes_out(w, code, env, a, s, b, exec(w, st, n, t)),
{
    reveal(starts_with);
    let i = p.code.len() as int;
    assert(code[i - 1] == p.code[i - 1]);
    lemma_way_in(w, code, bb, i);
    assert(leads(w, code, Place::Into(bb), t, Place::Before(i), t));
    lemma_then(w, code, a, s, Place::Into(bb), t, Place::Before(i), t);
    lemma_follows(env, p, q, st, w, code, n, t);
    let u = exec(w, st, n, t);
    lemma_comes_later(w, code, env, a, s, Place::Before(i), t, q, u);
    if u.runs() {
        let m = q.code.len() as int;
        let e = b.code.len() as int;
        lemma_way_jump(w, code, m, end);
        assert(code[e - 1] == b.code[e - 1]);
        lemma_way_in(w, code, end, e);
        lemma_way_on(w, code, Place::Before(m), Place::Into(end), Place::Before(e));
        assert(leads(w, code, Place::Before(m), u, Place::Before(e), u));
        lemma_then(w, code, a, s, Place::Before(m), u, Place::Before(e), u);
    }
}

pub proof fn lemma_if_follows<'a>(
    env: Env<'a>,
    a: St<'a>,
    b: St<'a>,
    cond: &'a Expr,
    st: Stmt,
    x: IfLayout<'a>,
)
    requires
        st matches Stmt::If { cond: c, then_branch, else_branch } && c == *cond && if_laid(
            env,
            a,
            b,
            cond,
            else_branch is Some,
            x,
        ) && follows(env, x.yes, x.yes_end, *then_branch) && (else_branch is Some ==> follows(
            env,
            x.no,
            x.no_end,
            *(else_branch->0),
        )),
        neat(a) && a.open ==> neat(x.yes) && (st->else_branch is Some ==> neat(x.no)),
    ensures
        follows(env, a, b, st),
{
    broadcast use {lemma_starts_earlier, lemma_grows_flags};

    reveal(follows);
    assert forall|w: World, code: Seq<Cmd>, n: nat, s: Store|
        neat(a) && a.open && b.ok && env.exits.len() == 0 && is_basic(st) && starts_with(code, b)
            && s.runs() implies #[trigger] comes_out(
        w,
        code,
        env,
        Place::Before(a.code.len() as int),
        s,
        b,
        exec(w, st, n, s),
    ) by {
        let i = Place::Before(a.code.len() as int);
        let j = x.made.code.len() as int;
        assert(starts_with(code, x.yes_end));
        assert(starts_with(code, x.yes));
        let mid = St { code: x.made.code.push(Cmd::CondBr(x.op, x.then_bb, x.else_bb)), ..x.made };
        lemma_pushed(code, mid, x.yes, Cmd::At(x.then_bb));
        lemma_pushed(code, x.made, mid, Cmd::CondBr(x.op, x.then_bb, x.else_bb));
        assert(starts_with(code, x.tested));
        assert forall|k: int| x.tested.code.len() <= k < j implies #[trigger] code[k] is NewBlock by {
            reveal(starts_with);
            assert(code[k] == x.made.code[k]);
        }
        assert(x.tested.code.len() <= j) by {
            reveal(grows);
        }
        lemma_fork(w, code, env, a, cond, j, x.then_bb, x.else_bb);
        lemma_eval_jump(w, *cond, s);
        let (s1, c) = tested(w, Some(*cond), s);
        let yes = *st->then_branch;
        let t = exec(w, st, n, s);
        assert(t == if c {
            exec(w, yes, n, s1)
        } else {
            match st->else_branch {
                Some(no) => exec(w, *no, n, s1),
                None => s1,
            }
        });
        if !s1.runs() {
            assert(exec(w, yes, n, s1) == s1);
            if st->else_branch is Some {
                assert(exec(w, *(st->else_branch->0), n, s1) == s1);
            }
            assert(t.jump is Throw);
        } else {
            assert(code[x.yes_end.code.len() as int] == b.code[x.yes_end.code.len() as int]
                || !x.yes_end.open) by {
                reveal(starts_with);
            }
            assert(b.code.len() <= code.len()) by {
                reveal(starts_with);
            }
            if c {
                lemma_branch(
                    w,
                    code,
                    env,
                    i,
                    s,
                    x.then_bb,
                    x.yes,
                    x.yes_end,
                    b,
                    x.end_bb,
                    yes,
                    n,
                    s1,
                );
            } else if st->else_branch is Some {
                let no = *(st->else_branch->0);
                assert(code[x.no_end.code.len() as int] == b.code[x.no_end.code.len() as int]
                    || !x.no_end.open) by {
                    reveal(starts_with);
                }
                lemma_branch(
                    w,
                    code,
                    env,
                    i,
                    s,
                    x.else_bb,
                    x.no,
                    x.no_end,
                    b,
                    x.end_bb,
                    no,
                    n,
                    s1,
                );
            } else {
                let e = b.code.len() as int;
                assert(code[e - 1] == b.code[e - 1]) by {
                    reveal(starts_with);
                }
                lemma_way_in(w, code, x.end_bb, e);
                assert(leads(w, code, Place::Into(x.end_bb), s1, Place::Before(e), s1));
                lemma_then(w, code, i, s, Place::Into(x.end_bb), s1, Place::Before(e), s1);
            }
        }
    }
}

// --- loops --------------------------------------------------------------------------------

/// The label of a loop.
pub open spec fn loop_label(st: Stmt) -> Option<Seq<char>> {
    match st {
        Stmt::While { label, .. } => label_of(label),
        Stmt::DoWhile { label, .. } => label_of(label),
        Stmt::For { label, .. } => label_of(label),
        _ => None,
    }
}

pub open spec fn loop_body(st: Stmt) -> Stmt {
    match st {
        Stmt::While { body, .. } => *body,
        Stmt::DoWhile { body, .. } => *body,
        Stmt::For { body, .. } => *body,
        _ => st,
    }
}

pub open spec fn loop_cond(st: Stmt) -> Option<Expr> {
    match st {
        Stmt::While { cond, .. } => Some(cond),
        Stmt::DoWhile { cond, .. } => Some(cond),
        Stmt::For { cond, .. } => cond,
        _ => None,
    }
}

pub open spec fn loop_update(st: Stmt) -> Option<Expr> {
    match st {
        Stmt::For { update, .. } => update,
        _ => None,
    }
}

/// The frame is that of the loop: `break` goes to `end`, `continue` to `next`.
pub open spec fn frame_of(f: Frame, st: Stmt, end: usize, next: usize) -> bool {
    &&& f.break_bb == end
    &&& f.continue_bb == Some(next)
    &&& match f.label {
        Some(x) => Some(x@),
        None => None,
    } == loop_label(st)
}

/// Where control goes in a loop.
pub ghost struct Ways {
    /// Where a round starts.
    pub head: Place,
    /// Where its body starts.
    pub body: Place,
    /// Where a `continue` goes.
    pub next: usize,
    pub inside: usize,
    pub end: usize,
}

/// How a jump out of the body comes out of the loop.
proof fn lemma_out_of_body<'a>(
    w: World,
    code: Seq<Cmd>,
    env: Env<'a>,
    f: Frame<'a>,
    st: Stmt,
    y: Ways,
    a: Place,
    s: Store,
    q: St,
    b: St,
    u: Store,
)
    requires
        frame_of(f, st, y.end, y.next),
        way(w, code, Place::Into(y.end), Place::Before(b.code.len() as int)),
        b.open,
        comes_out(w, code, env.in_frame(f), a, s, q, u),
        q.open ==> way(w, code, Place::Before(q.code.len() as int), Place::Into(y.next)),
    ensures
        next_round(u, loop_label(st)).runs() ==> leads(
            w,
            code,
            a,
            s,
            Place::Into(y.next),
            next_round(u, loop_label(st)),
        ),
        !next_round(u, loop_label(st)).runs() ==> comes_out(
            w,
            code,
            env,
            a,
            s,
            b,
            left(next_round(u, loop_label(st)), loop_label(st)),
        ),
{
    let inner = env.in_frame(f);
    let m = inner.frames.len();
    assert(inner.frames[m - 1] == f);
    assert(inner.frames.take(m - 1) =~= env.frames);
    let label = loop_label(st);
    match u.jump {
        Jump::Go => {
            let z = Place::Before(q.code.len() as int);
            assert(leads(w, code, z, u, Place::Into(y.next), u));
            lemma_then(w, code, a, s, z, u, Place::Into(y.next), u);
        },
        Jump::Continue(l) => {
            lemma_goal(env, f, l, true);
        },
        Jump::Break(l) => {
            lemma_goal(env, f, l, false);
            if means(l, label) {
                let t = u.go(Jump::Go);
                let z = Place::Before(b.code.len() as int);
                assert(leads(w, code, Place::Into(y.end), t, z, t));
                lemma_then(w, code, a, s, Place::Into(y.end), t, z, t);
            }
        },
        _ => {},
    }
}

/// The goal of a jump in one frame more.
pub proof fn lemma_goal<'a>(env: Env<'a>, f: Frame<'a>, l: Option<Seq<char>>, next: bool)
    ensures
        ({
            let label = match f.label {
                Some(x) => Some(x@),
                None => None,
            };
            let g = goal(env.in_frame(f).frames, env.in_frame(f).frames.len(), l, next);
            if means(l, label) && (next ==> f.continue_bb is Some) {
                g == if next {
                    f.continue_bb
                } else {
                    Some(f.break_bb)
                }
            } else {
                g == goal(env.frames, env.frames.len(), l, next)
            }
        }),
{
    lemma_goal_front(env.frames, env.in_frame(f).frames, env.frames.len(), l, next);
}

proof fn lemma_goal_front(a: Seq<Frame>, b: Seq<Frame>, n: nat, l: Option<Seq<char>>, next: bool)
    requires
        n <= a.len() <= b.len(),
        forall|i: int| 0 <= i < n ==> a[i] == b[i],
    ensures
        goal(a, n, l, next) == goal(b, n, l, next),
    decreases n,
{
    if n > 0 {
        lemma_goal_front(a, b, (n - 1) as nat, l, next);
    }
}

/// The rounds of a `while` or `for`: where the condition holds the body runs, then,
/// after a `continue` too, the update, once, and the condition is tested again.
proof fn lemma_rounds_follow<'a>(
    w: World,
    code: Seq<Cmd<'a>>,
    env: Env<'a>,
    f: Frame<'a>,
    st: Stmt,
    y: Ways,
    p: St<'a>,
    q: St<'a>,
    b: St<'a>,
    n: nat,
    s: Store,
)
    requires
        st is While || st is For,
        is_basic(loop_body(st)),
        frame_of(f, st, y.end, y.next),
        fork(w, code, y.head, loop_cond(st), y.inside, y.end),
        way(w, code, Place::Into(y.inside), y.body),
        y.body == Place::Before(p.code.len() as int),
        follows(env.in_frame(f), p, q, loop_body(st)),
        neat(p),
        p.open,
        q.ok,
        env.exits.len() == 0,
        starts_with(code, q),
        q.open ==> way(w, code, Place::Before(q.code.len() as int), Place::Into(y.next)),
        pass(w, code, Place::Into(y.next), loop_update(st), y.head),
        way(w, code, Place::Into(y.end), Place::Before(b.code.len() as int)),
        b.open,
        s.runs(),
    ensures
        comes_out(w, code, env, y.head, s, b, left(rounds(w, st, n, s), loop_label(st))),
    decreases n,
{
    if n > 0 {
        let m = (n - 1) as nat;
        let cond = loop_cond(st);
        let body = loop_body(st);
        let label = loop_label(st);
        let (s1, c) = tested(w, cond, s);
        if let Some(e) = cond {
            lemma_eval_jump(w, e, s);
        }
        if s1.runs() {
            if !c {
                let z = Place::Before(b.code.len() as int);
                assert(leads(w, code, Place::Into(y.end), s1, z, s1));
                lemma_then(w, code, y.head, s, Place::Into(y.end), s1, z, s1);
                assert(left(rounds(w, st, n, s), label) == s1);
            } else {
                assert(leads(w, code, Place::Into(y.inside), s1, y.body, s1));
                lemma_then(w, code, y.head, s, Place::Into(y.inside), s1, y.body, s1);
                lemma_follows(env.in_frame(f), p, q, body, w, code, m, s1);
                let u = exec(w, body, m, s1);
                lemma_comes_later(w, code, env.in_frame(f), y.head, s, y.body, s1, q, u);
                lemma_out_of_body(w, code, env, f, st, y, y.head, s, q, b, u);
                let v = next_round(u, label);
                let z = done(w, loop_update(st), v);
                assert(rounds(w, st, n, s) == rounds(w, st, m, z));
                if v.runs() {
                    if let Some(e) = loop_update(st) {
                        lemma_eval_jump(w, e, v);
                    }
                    if z.runs() {
                        lemma_then(w, code, y.head, s, Place::Into(y.next), v, y.head, z);
                        lemma_rounds_follow(w, code, env, f, st, y, p, q, b, m, z);
                        lemma_comes_later(
                            w,
                            code,
                            env,
                            y.head,
                            s,
                            y.head,
                            z,
                            b,
                            left(rounds(w, st, m, z), label),
                        );
                    } else {
                        assert(rounds(w, st, m, z) == z);
                    }
                } else {
                    assert(z == v) by {
                        if let Some(e) = loop_update(st) {
                            assert(eval(w, e, v).0 == v);
                        }
                    }
                    assert(rounds(w, st, m, z) == v);
                }
            }
        }
    }
}

/// The rounds of a `do`: the body runs, then, after a `continue` too, the condition
/// decides whether it runs again.
proof fn lemma_do_rounds_follow<'a>(
    w: World,
    code: Seq<Cmd<'a>>,
    env: Env<'a>,
    f: Frame<'a>,
    st: Stmt,
    y: Ways,
    p: St<'a>,
    q: St<'a>,
    b: St<'a>,
    n: nat,
    s: Store,
)
    requires
        st is DoWhile,
        is_basic(loop_body(st)),
        frame_of(f, st, y.end, y.next),
        fork(w, code, Place::Into(y.next), loop_cond(st), y.inside, y.end),
        way(w, code, Place::Into(y.inside), y.body),
        y.body == Place::Before(p.code.len() as int),
        follows(env.in_frame(f), p, q, loop_body(st)),
        neat(p),
        p.open,
        q.ok,
        env.exits.len() == 0,
        starts_with(code, q),
        q.open ==> way(w, code, Place::Before(q.code.len() as int), Place::Into(y.next)),
        way(w, code, Place::Into(y.end), Place::Before(b.code.len() as int)),
        b.open,
        s.runs(),
    ensures
        comes_out(w, code, env, y.body, s, b, left(rounds(w, st, n, s), loop_label(st))),
    decreases n,
{
    if n > 0 {
        let m = (n - 1) as nat;
        let cond = loop_cond(st);
        let body = loop_body(st);
        let label = loop_label(st);
        lemma_follows(env.in_frame(f), p, q, body, w, code, m, s);
        let u = exec(w, body, m, s);
        lemma_out_of_body(w, code, env, f, st, y, y.body, s, q, b, u);
        let v = next_round(u, label);
        let (z, c) = tested(w, cond, v);
        if v.runs() {
            lemma_eval_jump(w, cond->0, v);
            if z.runs() {
                if c {
                    assert(leads(w, code, Place::Into(y.inside), z, y.body, z));
                    lemma_then(w, code, Place::Into(y.next), v, Place::Into(y.inside), z, y.body, z);
                    lemma_then(w, code, y.body, s, Place::Into(y.next), v, y.body, z);
                    lemma_do_rounds_follow(w, code, env, f, st, y, p, q, b, m, z);
                    lemma_comes_later(
                        w,
                        code,
                        env,
                        y.body,
                        s,
                        y.body,
                        z,
                        b,
                        left(rounds(w, st, m, z), label),
                    );
                    assert(rounds(w, st, n, s) == rounds(w, st, m, z));
                } else {
                    let e = Place::Before(b.code.len() as int);
                    assert(leads(w, code, Place::Into(y.end), z, e, z));
                    lemma_then(w, code, Place::Into(y.next), v, Place::Into(y.end), z, e, z);
                    lemma_then(w, code, y.body, s, Place::Into(y.next), v, e, z);
                    assert(rounds(w, st, n, s) == z);
                }
            } else {
                assert(rounds(w, st, n, s) == z);
            }
        } else {
            assert(eval(w, cond->0, v).0 == v);
            assert(rounds(w, st, n, s) == v);
        }
    }
}

/// How a loop is laid out: the states at its places.
pub ghost struct LoopLayout<'a> {
    /// Behind the creation of the blocks.
    pub made: St<'a>,
    /// Behind the initialisation of a `for`.
    pub begun: St<'a>,
    /// Where the block of the condition starts.
    pub head: St<'a>,
    /// Behind the truth value of the condition.
    pub tested: St<'a>,
    pub op: Op,
    /// Where the block of the body starts.
    pub inside: St<'a>,
    /// Where the body starts.
    pub start: St<'a>,
    pub finish: St<'a>,
    /// Where the block of the update starts.
    pub next: St<'a>,
    /// Behind the update.
    pub stepped: St<'a>,
    pub rest: St<'a>,
    pub cond_bb: usize,
    pub body_bb: usize,
    pub update_bb: usize,
    pub end_bb: usize,
}

/// Blocks are created, and nothing else.
pub open spec fn only_blocks(a: St, b: St) -> bool {
    &&& grows(a, b)
    &&& a.code.len() <= b.code.len()
    &&& forall|k: int| a.code.len() <= k < b.code.len() ==> #[trigger] b.code[k] is NewBlock
}

/// The state with a jump to the block, if it is open.
pub open spec fn jumped<'a>(a: St<'a>, b: St<'a>, x: usize) -> bool {
    if a.open {
        b.code == a.code.push(Cmd::Br(x))
    } else {
        b.code == a.code
    }
}

/// The body starts where its block does, or behind a safepoint.
pub open spec fn is_start(a: St, b: St) -> bool {
    b.code == a.code || b.code == a.code.push(Cmd::CallRt("vs_gc_safepoint", None))
}

pub proof fn lemma_way_blocks(w: World, code: Seq<Cmd>, a: St, b: St)
    requires
        only_blocks(a, b),
        starts_with(code, b),
    ensures
        way(w, code, Place::Before(a.code.len() as int), Place::Before(b.code.len() as int)),
{
    lemma_way_blocks_to(w, code, a, b, b.code.len());
}

proof fn lemma_way_blocks_to(w: World, code: Seq<Cmd>, a: St, b: St, k: nat)
    requires
        only_blocks(a, b),
        starts_with(code, b),
        a.code.len() <= k <= b.code.len(),
    ensures
        way(w, code, Place::Before(a.code.len() as int), Place::Before(k as int)),
    decreases k,
{
    let i = Place::Before(a.code.len() as int);
    if k == a.code.len() {
        assert forall|s: Store| #[trigger] leads(w, code, i, s, i, s) by {
            lemma_stay(w, code, i, s);
        }
    } else {
        lemma_way_blocks_to(w, code, a, b, (k - 1) as nat);
        reveal(starts_with);
        assert(code[k - 1] == b.code[k - 1]);
        lemma_way_next(w, code, k - 1);
        lemma_way_on(w, code, i, Place::Before(k - 1), Place::Before(k as int));
    }
}

/// From where the block of the body is entered to where the body starts.
proof fn lemma_way_start<'a>(w: World, code: Seq<Cmd<'a>>, a: St<'a>, b: St<'a>, x: usize)
    requires
        is_start(a, b),
        starts_with(code, b),
        a.code.len() > 0,
        a.code.last() == Cmd::At(x),
    ensures
        way(w, code, Place::Into(x), Place::Before(b.code.len() as int)),
{
    reveal(starts_with);
    let i = a.code.len() as int;
    assert(code[i - 1] == b.code[i - 1]);
    lemma_way_in(w, code, x, i);
    if b.code != a.code {
        assert(code[i] == b.code[i]);
        lemma_way_next(w, code, i);
        lemma_way_on(w, code, Place::Into(x), Place::Before(i), Place::Before(i + 1));
    }
}

/// The code that ends with the entry of a block leads into it.
pub proof fn lemma_way_end<'a>(w: World, code: Seq<Cmd<'a>>, b: St<'a>, x: usize)
    requires
        starts_with(code, b),
        b.code.len() > 0,
        b.code.last() == Cmd::At(x),
    ensures
        way(w, code, Place::Into(x), Place::Before(b.code.len() as int)),
{
    reveal(starts_with);
    let i = b.code.len() as int;
    assert(code[i - 1] == b.code[i - 1]);
    lemma_way_in(w, code, x, i);
}

pub proof fn lemma_way_jumped<'a>(w: World, code: Seq<Cmd<'a>>, a: St<'a>, b: St<'a>, x: usize)
    requires
        jumped(a, b, x),
        starts_with(code, b),
    ensures
        starts_with(code, a),
        a.open ==> way(w, code, Place::Before(a.code.len() as int), Place::Into(x)),
{
    if a.open {
        lemma_pushed(code, a, b, Cmd::Br(x));
        lemma_way_jump(w, code, a.code.len() as int, x);
    } else {
        reveal(starts_with);
    }
}

/// Jump, and entry of a block.
pub open spec fn hopped<'a>(a: St<'a>, c: Cmd<'a>, b: St<'a>, x: usize) -> bool {
    b.code == a.code.push(c).push(Cmd::At(x))
}

pub proof fn lemma_hopped<'a>(code: Seq<Cmd<'a>>, a: St<'a>, c: Cmd<'a>, b: St<'a>, x: usize)
    requires
        hopped(a, c, b, x),
        starts_with(code, b),
    ensures
        starts_with(code, a),
        a.code.len() < code.len(),
        code[a.code.len() as int] == c,
        b.code.len() > 0,
        b.code.last() == Cmd::At(x),
{
    let mid = St { code: a.code.push(c), ..a };
    lemma_pushed(code, mid, b, Cmd::At(x));
    lemma_pushed(code, a, mid, c);
}

/// A `while` is laid out so.
pub open spec fn while_laid<'a>(
    env: Env<'a>,
    a: St<'a>,
    b: St<'a>,
    cond: &'a Expr,
    x: LoopLayout<'a>,
) -> bool {
    let (st1, v) = expr(env, x.head, cond);
    &&& only_blocks(a, x.made)
    &&& x.head.code == x.made.code.push(Cmd::Br(x.cond_bb)).push(Cmd::At(x.cond_bb))
    &&& (x.tested, x.op) == truthy(st1, v)
    &&& grows(x.head, x.tested)
    &&& x.inside.code == x.tested.code.push(Cmd::CondBr(x.op, x.body_bb, x.end_bb)).push(
        Cmd::At(x.body_bb),
    )
    &&& is_start(x.inside, x.start)
    &&& x.start.open
    &&& grows(x.start, x.finish)
    &&& grows(x.finish, b)
    &&& jumped(x.finish, x.rest, x.cond_bb)
    &&& b.code == x.rest.code.push(Cmd::At(x.end_bb))
    &&& b.open
}

pub proof fn lemma_while_follows<'a>(
    env: Env<'a>,
    f: Frame<'a>,
    a: St<'a>,
    b: St<'a>,
    cond: &'a Expr,
    st: Stmt,
    x: LoopLayout<'a>,
)
    requires
        st is While,
        loop_cond(st) == Some(*cond),
        while_laid(env, a, b, cond, x),
        frame_of(f, st, x.end_bb, x.cond_bb),
        follows(env.in_frame(f), x.start, x.finish, loop_body(st)),
        neat(a) && a.open ==> neat(x.start),
    ensures
        follows(env, a, b, st),
{
    broadcast use {lemma_starts_earlier, lemma_grows_flags};

    reveal(follows);
    assert forall|w: World, code: Seq<Cmd>, n: nat, s: Store|
        neat(a) && a.open && b.ok && env.exits.len() == 0 && is_basic(st) && starts_with(code, b)
            && s.runs() implies #[trigger] comes_out(
        w,
        code,
        env,
        Place::Before(a.code.len() as int),
        s,
        b,
        exec(w, st, n, s),
    ) by {
        let head = Place::Before(x.head.code.len() as int);
        lemma_pushed(code, x.rest, b, Cmd::At(x.end_bb));
        lemma_way_jumped(w, code, x.finish, x.rest, x.cond_bb);
        lemma_way_end(w, code, b, x.end_bb);
        assert(starts_with(code, x.start));
        lemma_inside(code, x);
        lemma_way_start(w, code, x.inside, x.start, x.body_bb);
        lemma_hopped(
            code,
            x.tested,
            Cmd::CondBr(x.op, x.body_bb, x.end_bb),
            x.inside,
            x.body_bb,
        );
        lemma_fork(
            w,
            code,
            env,
            x.head,
            cond,
            x.tested.code.len() as int,
            x.body_bb,
            x.end_bb,
        );
        lemma_hopped(code, x.made, Cmd::Br(x.cond_bb), x.head, x.cond_bb);
        lemma_way_end(w, code, x.head, x.cond_bb);
        let y = Ways {
            head,
            body: Place::Before(x.start.code.len() as int),
            next: x.cond_bb,
            inside: x.body_bb,
            end: x.end_bb,
        };
        assert forall|s: Store| s.runs() && (#[trigger] done(w, loop_update(st), s)).runs() implies leads(
            w,
            code,
            Place::Into(y.next),
            s,
            y.head,
            done(w, loop_update(st), s),
        ) by {
            assert(leads(w, code, Place::Into(y.next), s, y.head, s));
        }
        lemma_rounds_follow(w, code, env, f, st, y, x.start, x.finish, b, n, s);
        lemma_way_blocks(w, code, a, x.made);
        let i = Place::Before(a.code.len() as int);
        let m = Place::Before(x.made.code.len() as int);
        lemma_way_jump(w, code, x.made.code.len() as int, x.cond_bb);
        lemma_way_on(w, code, i, m, Place::Into(x.cond_bb));
        lemma_way_on(w, code, i, Place::Into(x.cond_bb), head);
        assert(leads(w, code, i, s, head, s));
        lemma_comes_later(w, code, env, i, s, head, s, b, exec(w, st, n, s));
    }
}

/// The start of the body's block stands in the code, where the body's start does.
proof fn lemma_inside<'a>(code: Seq<Cmd<'a>>, x: LoopLayout<'a>)
    requires
        is_start(x.inside, x.start),
        starts_with(code, x.start),
    ensures
        starts_with(code, x.inside),
{
    if x.start.code != x.inside.code {
        lemma_pushed(code, x.inside, x.start, Cmd::CallRt("vs_gc_safepoint", None));
    } else {
        reveal(starts_with);
    }
}

/// A `do` is laid out so.
pub open spec fn do_laid<'a>(
    env: Env<'a>,
    a: St<'a>,
    b: St<'a>,
    cond: &'a Expr,
    x: LoopLayout<'a>,
) -> bool {
    let (st1, v) = expr(env, x.head, cond);
    &&& only_blocks(a, x.made)
    &&& x.inside.code == x.made.code.push(Cmd::Br(x.body_bb)).push(Cmd::At(x.body_bb))
    &&& is_start(x.inside, x.start)
    &&& x.start.open
    &&& grows(x.start, x.finish)
    &&& grows(x.finish, b)
    &&& jumped(x.finish, x.rest, x.cond_bb)
    &&& x.head.code == x.rest.code.push(Cmd::At(x.cond_bb))
    &&& (x.tested, x.op) == truthy(st1, v)
    &&& grows(x.head, x.tested)
    &&& b.code == x.tested.code.push(Cmd::CondBr(x.op, x.body_bb, x.end_bb)).push(
        Cmd::At(x.end_bb),
    )
    &&& b.open
}

pub proof fn lemma_do_follows<'a>(
    env: Env<'a>,
    f: Frame<'a>,
    a: St<'a>,
    b: St<'a>,
    cond: &'a Expr,
    st: Stmt,
    x: LoopLayout<'a>,
)
    requires
        st is DoWhile,
        loop_cond(st) == Some(*cond),
        do_laid(env, a, b, cond, x),
        frame_of(f, st, x.end_bb, x.cond_bb),
        follows(env.in_frame(f), x.start, x.finish, loop_body(st)),
        neat(a) && a.open ==> neat(x.start),
    ensures
        follows(env, a, b, st),
{
    broadcast use {lemma_starts_earlier, lemma_grows_flags};

    reveal(follows);
    assert forall|w: World, code: Seq<Cmd>, n: nat, s: Store|
        neat(a) && a.open && b.ok && env.exits.len() == 0 && is_basic(st) && starts_with(code, b)
            && s.runs() implies #[trigger] comes_out(
        w,
        code,
        env,
        Place::Before(a.code.len() as int),
        s,
        b,
        exec(w, st, n, s),
    ) by {
        let head = Place::Before(x.head.code.len() as int);
        lemma_hopped(code, x.tested, Cmd::CondBr(x.op, x.body_bb, x.end_bb), b, x.end_bb);
        lemma_way_end(w, code, b, x.end_bb);
        lemma_fork(
            w,
            code,
            env,
            x.head,
            cond,
            x.tested.code.len() as int,
            x.body_bb,
            x.end_bb,
        );
        lemma_way_end(w, code, x.head, x.cond_bb);
        lemma_pushed(code, x.rest, x.head, Cmd::At(x.cond_bb));
        lemma_way_jumped(w, code, x.finish, x.rest, x.cond_bb);
        assert(starts_with(code, x.start));
        lemma_inside(code, x);
        lemma_hopped(code, x.made, Cmd::Br(x.body_bb), x.inside, x.body_bb);
        lemma_way_start(w, code, x.inside, x.start, x.body_bb);
        let y = Ways {
            head,
            body: Place::Before(x.start.code.len() as int),
            next: x.cond_bb,
            inside: x.body_bb,
            end: x.end_bb,
        };
        assert forall|s: Store|
            s.runs() && (#[trigger] tested(w, loop_cond(st), s)).0.runs() implies leads(
            w,
            code,
            Place::Into(y.next),
            s,
            Place::Into(
                if tested(w, loop_cond(st), s).1 {
                    y.inside
                } else {
                    y.end
                },
            ),
            tested(w, loop_cond(st), s).0,
        ) by {
            let (s1, c) = tested(w, loop_cond(st), s);
            let to = Place::Into(
                if c {
                    y.inside
                } else {
                    y.end
                },
            );
            assert(leads(w, code, Place::Into(y.next), s, head, s));
            lemma_then(w, code, Place::Into(y.next), s, head, s, to, s1);
        }
        lemma_do_rounds_follow(w, code, env, f, st, y, x.start, x.finish, b, n, s);
        lemma_way_blocks(w, code, a, x.made);
        let i = Place::Before(a.code.len() as int);
        let m = Place::Before(x.made.code.len() as int);
        lemma_way_jump(w, code, x.made.code.len() as int, x.body_bb);
        lemma_way_on(w, code, i, m, Place::Into(x.body_bb));
        lemma_way_on(w, code, i, Place::Into(x.body_bb), y.body);
        assert(leads(w, code, i, s, y.body, s));
        lemma_comes_later(w, code, env, i, s, y.body, s, b, exec(w, st, n, s));
    }
}

/// A `for` is laid out so, from behind its initialisation on.
pub open spec fn for_laid<'a>(
    env: Env<'a>,
    a: St<'a>,
    b: St<'a>,
    cond: &'a Option<Expr>,
    update: &'a Option<Expr>,
    x: LoopLayout<'a>,
) -> bool {
    &&& only_blocks(a, x.made)
    &&& grows(x.made, x.begun)
    &&& grows(x.begun, b)
    &&& jumped(x.begun, x.rest, x.cond_bb)
    &&& x.head.code == x.rest.code.push(Cmd::At(x.cond_bb))
    &&& match cond {
        Some(c) => {
            let (st1, v) = expr(env, x.head, c);
            &&& (x.tested, x.op) == truthy(st1, v)
            &&& grows(x.head, x.tested)
            &&& x.inside.code == x.tested.code.push(
                Cmd::CondBr(x.op, x.body_bb, x.end_bb),
            ).push(Cmd::At(x.body_bb))
        },
        None => x.inside.code == x.head.code.push(Cmd::Br(x.body_bb)).push(Cmd::At(x.body_bb)),
    }
    &&& is_start(x.inside, x.start)
    &&& x.start.open
    &&& grows(x.start, x.finish)
    &&& grows(x.finish, x.next)
    &&& x.finish.open ==> x.next.code == x.finish.code.push(Cmd::Br(x.update_bb)).push(
        Cmd::At(x.update_bb),
    )
    &&& x.next.code.len() > 0
    &&& x.next.code.last() == Cmd::At(x.update_bb)
    &&& x.stepped == match update {
        Some(u) => expr(env, x.next, u).0,
        None => x.next,
    }
    &&& grows(x.next, x.stepped)
    &&& x.stepped.open
    &&& b.code == x.stepped.code.push(Cmd::Br(x.cond_bb)).push(Cmd::At(x.end_bb))
    &&& grows(x.stepped, b)
    &&& b.open
}

/// The places of a `for`.
spec fn for_ways(x: LoopLayout) -> Ways {
    Ways {
        head: Place::Before(x.head.code.len() as int),
        body: Place::Before(x.start.code.len() as int),
        next: x.update_bb,
        inside: x.body_bb,
        end: x.end_bb,
    }
}

/// The ways through a `for`, but for the update.
proof fn lemma_for_ways<'a>(
    w: World,
    code: Seq<Cmd<'a>>,
    env: Env<'a>,
    a: St<'a>,
    b: St<'a>,
    cond: &'a Option<Expr>,
    update: &'a Option<Expr>,
    x: LoopLayout<'a>,
)
    requires
        for_laid(env, a, b, cond, update, x),
        starts_with(code, b),
    ensures
        starts_with(code, x.finish),
        starts_with(code, x.next),
        starts_with(code, x.stepped),
        starts_with(code, x.begun),
        starts_with(code, x.made),
        fork(w, code, for_ways(x).head, *cond, x.body_bb, x.end_bb),
        way(w, code, Place::Into(x.body_bb), for_ways(x).body),
        way(w, code, Place::Into(x.end_bb), Place::Before(b.code.len() as int)),
        way(w, code, Place::Into(x.cond_bb), for_ways(x).head),
        way(w, code, Place::Into(x.update_bb), Place::Before(x.next.code.len() as int)),
        way(w, code, Place::Before(x.stepped.code.len() as int), Place::Into(x.cond_bb)),
        x.finish.open ==> way(
            w,
            code,
            Place::Before(x.finish.code.len() as int),
            Place::Into(x.update_bb),
        ),
        x.begun.open ==> way(
            w,
            code,
            Place::Before(x.begun.code.len() as int),
            Place::Into(x.cond_bb),
        ),
{
    broadcast use lemma_starts_earlier;

    let head = Place::Before(x.head.code.len() as int);
    lemma_hopped(code, x.stepped, Cmd::Br(x.cond_bb), b, x.end_bb);
    lemma_way_end(w, code, b, x.end_bb);
    lemma_way_jump(w, code, x.stepped.code.len() as int, x.cond_bb);
    assert(starts_with(code, x.next));
    lemma_way_end(w, code, x.next, x.update_bb);
    if x.finish.open {
        lemma_hopped(code, x.finish, Cmd::Br(x.update_bb), x.next, x.update_bb);
        lemma_way_jump(w, code, x.finish.code.len() as int, x.update_bb);
    }
    assert(starts_with(code, x.finish));
    assert(starts_with(code, x.start));
    lemma_inside(code, x);
    match cond {
        Some(c) => {
            lemma_hopped(
                code,
                x.tested,
                Cmd::CondBr(x.op, x.body_bb, x.end_bb),
                x.inside,
                x.body_bb,
            );
            lemma_fork(
                w,
                code,
                env,
                x.head,
                c,
                x.tested.code.len() as int,
                x.body_bb,
                x.end_bb,
            );
        },
        None => {
            lemma_hopped(code, x.head, Cmd::Br(x.body_bb), x.inside, x.body_bb);
            lemma_way_jump(w, code, x.head.code.len() as int, x.body_bb);
            assert forall|s: Store|
                s.runs() && (#[trigger] tested(w, *cond, s)).0.runs() implies leads(
                w,
                code,
                head,
                s,
                Place::Into(
                    if tested(w, *cond, s).1 {
                        x.body_bb
                    } else {
                        x.end_bb
                    },
                ),
                tested(w, *cond, s).0,
            ) by {
                assert(leads(w, code, head, s, Place::Into(x.body_bb), s));
            }
        },
    }
    lemma_way_start(w, code, x.inside, x.start, x.body_bb);
    assert(starts_with(code, x.head));
    lemma_way_end(w, code, x.head, x.cond_bb);
    lemma_pushed(code, x.rest, x.head, Cmd::At(x.cond_bb));
    lemma_way_jumped(w, code, x.begun, x.rest, x.cond_bb);
}

/// After a round, and after a `continue`, the update is passed, once, on the way to
/// the condition.
proof fn lemma_for_update<'a>(
    w: World,
    code: Seq<Cmd<'a>>,
    env: Env<'a>,
    a: St<'a>,
    b: St<'a>,
    cond: &'a Option<Expr>,
    update: &'a Option<Expr>,
    x: LoopLayout<'a>,
)
    requires
        for_laid(env, a, b, cond, update, x),
        starts_with(code, b),
    ensures
        pass(w, code, Place::Into(x.update_bb), *update, for_ways(x).head),
{
    lemma_for_ways(w, code, env, a, b, cond, update, x);
    let y = for_ways(x);
    let head = y.head;
    let next = Place::Before(x.next.code.len() as int);
    let last = Place::Before(x.stepped.code.len() as int);
    lemma_way_on(w, code, last, Place::Into(x.cond_bb), head);
    if let Some(u) = update {
        lemma_pass(w, code, env, x.next, u);
    }
    assert forall|s: Store| s.runs() && (#[trigger] done(w, *update, s)).runs() implies leads(
        w,
        code,
        Place::Into(y.next),
        s,
        y.head,
        done(w, *update, s),
    ) by {
        let t = done(w, *update, s);
        assert(leads(w, code, Place::Into(y.next), s, next, s));
        if update is Some {
            assert(leads(w, code, next, s, last, t));
            lemma_then(w, code, Place::Into(y.next), s, next, s, last, t);
        }
        assert(leads(w, code, last, t, head, t));
        lemma_then(w, code, Place::Into(y.next), s, last, t, head, t);
    }
}

/// A `for` up to its first test.
proof fn lemma_for_begin<'a>(
    env: Env<'a>,
    a: St<'a>,
    b: St<'a>,
    cond: &'a Option<Expr>,
    update: &'a Option<Expr>,
    init: Option<Box<Stmt>>,
    x: LoopLayout<'a>,
    w: World,
    code: Seq<Cmd<'a>>,
    n: nat,
    s: Store,
)
    requires
        match init {
            Some(i) => follows(env, x.made, x.begun, *i) && is_basic(*i),
            None => x.begun == x.made,
        },
        for_laid(env, a, b, cond, update, x),
        neat(x.made),
        x.made.open,
        x.begun.ok,
        env.exits.len() == 0,
        starts_with(code, b),
        s.runs(),
    ensures
        ({
            let i = Place::Before(a.code.len() as int);
            let s1 = match init {
                Some(e) => exec(w, *e, n, s),
                None => s,
            };
            if s1.runs() {
                leads(w, code, i, s, for_ways(x).head, s1)
            } else {
                comes_out(w, code, env, i, s, b, s1)
            }
        }),
{
    lemma_for_ways(w, code, env, a, b, cond, update, x);
    let head = for_ways(x).head;
    let i = Place::Before(a.code.len() as int);
    let m = Place::Before(x.made.code.len() as int);
    let g = Place::Before(x.begun.code.len() as int);
    lemma_way_blocks(w, code, a, x.made);
    assert(leads(w, code, i, s, m, s));
    let s1 = match init {
        Some(e) => exec(w, *e, n, s),
        None => s,
    };
    if let Some(e) = init {
        lemma_follows(env, x.made, x.begun, *e, w, code, n, s);
        lemma_comes_later(w, code, env, i, s, m, s, x.begun, s1);
    }
    if s1.runs() {
        assert(leads(w, code, i, s, g, s1));
        assert(x.begun.open);
        lemma_way_on(w, code, g, Place::Into(x.cond_bb), head);
        assert(leads(w, code, g, s1, head, s1));
        lemma_then(w, code, i, s, g, s1, head, s1);
    }
}

proof fn lemma_for_rounds<'a>(
    env: Env<'a>,
    f: Frame<'a>,
    a: St<'a>,
    b: St<'a>,
    cond: &'a Option<Expr>,
    update: &'a Option<Expr>,
    st: Stmt,
    x: LoopLayout<'a>,
    w: World,
    code: Seq<Cmd<'a>>,
    n: nat,
    s: Store,
)
    requires
        st is For,
        loop_cond(st) == *cond,
        loop_update(st) == *update,
        for_laid(env, a, b, cond, update, x),
        frame_of(f, st, x.end_bb, x.update_bb),
        follows(env.in_frame(f), x.start, x.finish, loop_body(st)),
        neat(x.start),
        b.ok,
        env.exits.len() == 0,
        is_basic(st),
        starts_with(code, b),
        s.runs(),
    ensures
        comes_out(w, code, env, for_ways(x).head, s, b, left(rounds(w, st, n, s), loop_label(st))),
{
    broadcast use lemma_grows_flags;

    lemma_for_ways(w, code, env, a, b, cond, update, x);
    lemma_for_update(w, code, env, a, b, cond, update, x);
    lemma_rounds_follow(w, code, env, f, st, for_ways(x), x.start, x.finish, b, n, s);
}

proof fn lemma_for_run<'a>(
    env: Env<'a>,
    f: Frame<'a>,
    a: St<'a>,
    b: St<'a>,
    cond: &'a Option<Expr>,
    update: &'a Option<Expr>,
    st: Stmt,
    x: LoopLayout<'a>,
    w: World,
    code: Seq<Cmd<'a>>,
    n: nat,
    s: Store,
)
    requires
        st matches Stmt::For { init, .. } && match init {
            Some(i) => follows(env, x.made, x.begun, *i),
            None => x.begun == x.made,
        },
        loop_cond(st) == *cond,
        loop_update(st) == *update,
        for_laid(env, a, b, cond, update, x),
        frame_of(f, st, x.end_bb, x.update_bb),
        follows(env.in_frame(f), x.start, x.finish, loop_body(st)),
        neat(x.start),
        neat(x.made),
        x.made.open,
        b.ok,
        env.exits.len() == 0,
        is_basic(st),
        starts_with(code, b),
        s.runs(),
    ensures
        comes_out(
            w,
            code,
            env,
            Place::Before(a.code.len() as int),
            s,
            b,
            exec(w, st, n, s),
        ),
{
    broadcast use lemma_grows_flags;

    let y = for_ways(x);
    lemma_for_begin(env, a, b, cond, update, st->init, x, w, code, n, s);
    let i = Place::Before(a.code.len() as int);
    let s1 = match st->init {
        Some(e) => exec(w, *e, n, s),
        None => s,
    };
    if s1.runs() {
        lemma_for_rounds(env, f, a, b, cond, update, st, x, w, code, n, s1);
        lemma_comes_later(
            w,
            code,
            env,
            i,
            s,
            y.head,
            s1,
            b,
            left(rounds(w, st, n, s1), loop_label(st)),
        );
    }
}

pub proof fn lemma_for_follows<'a>(
    env: Env<'a>,
    f: Frame<'a>,
    a: St<'a>,
    b: St<'a>,
    cond: &'a Option<Expr>,
    update: &'a Option<Expr>,
    st: Stmt,
    x: LoopLayout<'a>,
)
    requires
        st matches Stmt::For { init, .. } && match init {
            Some(i) => follows(env, x.made, x.begun, *i),
            None => x.begun == x.made,
        },
        loop_cond(st) == *cond,
        loop_update(st) == *update,
        neat(a) && a.open ==> for_laid(env, a, b, cond, update, x),
        frame_of(f, st, x.end_bb, x.update_bb),
        follows(env.in_frame(f), x.start, x.finish, loop_body(st)),
        neat(a) && a.open ==> neat(x.start) && neat(x.made) && x.made.open,
    ensures
        follows(env, a, b, st),
{
    reveal(follows);
    assert forall|w: World, code: Seq<Cmd>, n: nat, s: Store|
        neat(a) && a.open && b.ok && env.exits.len() == 0 && is_basic(st) && starts_with(code, b)
            && s.runs() implies #[trigger] comes_out(
        w,
        code,
        env,
        Place::Before(a.code.len() as int),
        s,
        b,
        exec(w, st, n, s),
    ) by {
        lemma_for_run(env, f, a, b, cond, update, st, x, w, code, n, s);
    }
}

// --- choices in expressions -----------------------------------------------------------------

/// How an expression that chooses is laid out: `first` decides between two ways,
/// which meet again.
pub ghost struct Choice<'a> {
    /// Behind the truth value that decides.
    pub tested: St<'a>,
    pub op: Op,
    pub made: St<'a>,
    /// Where the one way starts and ends, with the operand that it yields.
    pub one: St<'a>,
    pub one_end: St<'a>,
    pub one_op: Op,
    /// Where the other way starts and ends.
    pub other: St<'a>,
    pub other_end: St<'a>,
    pub other_op: Op,
    pub join: St<'a>,
    pub one_bb: usize,
    pub other_bb: usize,
    pub end_bb: usize,
}

/// The code of an expression on one of the ways, up to where the ways meet.
pub open spec fn is_way<'a>(
    env: Env<'a>,
    a: St<'a>,
    e: &'a Expr,
    b: St<'a>,
    op: Op,
    end: usize,
    next: usize,
    c: St<'a>,
) -> bool {
    let (st, v) = expr(env, a, e);
    &&& (b, op) == materialize(st, v)
    &&& grows(a, st)
    &&& grows(st, b)
    &&& c.code == b.code.push(Cmd::Br(end)).push(Cmd::At(next))
}

/// `c ? t : f` is laid out so: where `c` holds, only `t` is evaluated and yields the
/// value, and where not, only `f`.
pub open spec fn conditional_laid<'a>(
    env: Env<'a>,
    a: St<'a>,
    b: St<'a>,
    c: &'a Expr,
    t: &'a Expr,
    f: &'a Expr,
    ty: Ty,
    x: Choice<'a>,
) -> bool {
    let (st, v) = expr(env, a, c);
    &&& (x.tested, x.op) == truthy(st, v)
    &&& grows(a, x.tested)
    &&& only_blocks(x.tested, x.made)
    &&& x.one.code == x.made.code.push(Cmd::CondBr(x.op, x.one_bb, x.other_bb)).push(
        Cmd::At(x.one_bb),
    )
    &&& is_way(env, x.one, t, x.one_end, x.one_op, x.end_bb, x.other_bb, x.other)
    &&& is_way(env, x.other, f, x.other_end, x.other_op, x.end_bb, x.end_bb, x.join)
    &&& grows(x.join, b)
    &&& ty != Ty::Void ==> x.join.code.len() < b.code.len() && (b.code[x.join.code.len() as int] matches
        Cmd::Phi(_, p, from_p, q, from_q) && p == x.one_op && from_p == x.one_end.block && q
        == x.other_op && from_q == x.other_end.block)
}

/// `l && r` and `l || r` are laid out so: `r` is evaluated, and yields the value, where
/// `l` holds for `&&`, and where it does not for `||`; else `l` yields it.
pub open spec fn logical_laid<'a>(
    env: Env<'a>,
    a: St<'a>,
    b: St<'a>,
    is_and: bool,
    l: &'a Expr,
    r: &'a Expr,
    x: Choice<'a>,
) -> bool {
    let (st, v) = expr(env, a, l);
    let (st1, y) = materialize(st, v);
    &&& y == x.other_op
    &&& (x.tested, x.op) == truthy(st1, v)
    &&& grows(a, x.tested)
    &&& only_blocks(x.tested, x.made)
    &&& x.one.code == x.made.code.push(
        if is_and {
            Cmd::CondBr(x.op, x.one_bb, x.end_bb)
        } else {
            Cmd::CondBr(x.op, x.end_bb, x.one_bb)
        },
    ).push(Cmd::At(x.one_bb))
    &&& is_way(env, x.one, r, x.one_end, x.one_op, x.end_bb, x.end_bb, x.join)
    &&& grows(x.join, b)
    &&& x.join.code.len() < b.code.len()
    &&& b.code[x.join.code.len() as int] matches Cmd::Phi(_, p, from_p, q, from_q) && p
        == x.other_op && from_p == x.tested.block && q == x.one_op && from_q == x.one_end.block
}

/// The expression, if it chooses, is laid out as it says.
#[verifier::opaque]
pub open spec fn chooses<'a>(env: Env<'a>, a: St<'a>, b: St<'a>, e: &'a Expr) -> bool {
    match &e.kind {
        ExprKind::Conditional(c, t, f) => exists|x: Choice<'a>| #[trigger]
            conditional_laid(env, a, b, &**c, &**t, &**f, e.ty, x),
        ExprKind::Logical { is_and, lhs, rhs } => exists|x: Choice<'a>| #[trigger]
            logical_laid(env, a, b, *is_and, &**lhs, &**rhs, x),
        _ => true,
    }
}

/// In the code of `c ? t : f` control goes from the test of `c` to the code of `t` if
/// `c` holds, and to that of `f` if not, and passes only that one; so the value of the
/// whole, which is taken from the way that was gone, is that of the operand chosen.
pub proof fn law_conditionals_choose<'a>(
    w: World,
    code: Seq<Cmd<'a>>,
    env: Env<'a>,
    a: St<'a>,
    b: St<'a>,
    e: &'a Expr,
) -> (x: Choice<'a>)
    requires
        chooses(env, a, b, e),
        starts_with(code, b),
        e.kind is Conditional,
    ensures
        ({
            let (c, t, f) = (
                &*e.kind->Conditional_0,
                &*e.kind->Conditional_1,
                &*e.kind->Conditional_2,
            );
            let (p, q) = (expr(env, x.one, t).0, expr(env, x.other, f).0);
            &&& fork(
                w,
                code,
                Place::Before(a.code.len() as int),
                Some(*c),
                x.one_bb,
                x.other_bb,
            )
            &&& way(w, code, Place::Into(x.one_bb), Place::Before(x.one.code.len() as int))
            &&& way(w, code, Place::Into(x.other_bb), Place::Before(x.other.code.len() as int))
            &&& pass(
                w,
                code,
                Place::Before(x.one.code.len() as int),
                Some(*t),
                Place::Before(p.code.len() as int),
            )
            &&& pass(
                w,
                code,
                Place::Before(x.other.code.len() as int),
                Some(*f),
                Place::Before(q.code.len() as int),
            )
        }),
{
    broadcast use lemma_starts_earlier;

    reveal(chooses);
    let (c, t, f) = (&*e.kind->Conditional_0, &*e.kind->Conditional_1, &*e.kind->Conditional_2);
    let x = choose|x: Choice<'a>| #[trigger]
        conditional_laid(env, a, b, c, t, f, e.ty, x);
    lemma_hopped(code, x.other_end, Cmd::Br(x.end_bb), x.join, x.end_bb);
    let q = expr(env, x.other, f).0;
    assert(starts_with(code, q));
    assert(starts_with(code, x.other));
    lemma_pass(w, code, env, x.other, f);
    lemma_way_end(w, code, x.other, x.other_bb);
    lemma_hopped(code, x.one_end, Cmd::Br(x.end_bb), x.other, x.other_bb);
    let p = expr(env, x.one, t).0;
    assert(starts_with(code, p));
    assert(starts_with(code, x.one));
    lemma_pass(w, code, env, x.one, t);
    lemma_way_end(w, code, x.one, x.one_bb);
    let jump = Cmd::CondBr(x.op, x.one_bb, x.other_bb);
    lemma_hopped(code, x.made, jump, x.one, x.one_bb);
    assert(starts_with(code, x.tested));
    assert forall|k: int| x.tested.code.len() <= k < x.made.code.len() implies #[trigger] code[k]
        is NewBlock by {
        reveal(starts_with);
        assert(code[k] == x.made.code[k]);
    }
    lemma_fork(w, code, env, a, c, x.made.code.len() as int, x.one_bb, x.other_bb);
    x
}

// --- functions ----------------------------------------------------------------------------

/// The code from `i` on leads out of the function as the run of its body came out: with
/// the value that was returned, or with none.
pub open spec fn leaves(w: World, code: Seq<Cmd>, i: int, s: Store, t: Store) -> bool {
    match t.jump {
        Jump::Go => leads(w, code, Place::Before(i), s, Place::Out, t.go(Jump::Return(None))),
        Jump::Return(_) => leads(w, code, Place::Before(i), s, Place::Out, t),
        // Every jump has a loop that it means.
        Jump::Break(_) | Jump::Continue(_) => false,
        Jump::Throw(_) | Jump::Over => true,
    }
}

/// The code of the statements starts at `i`.
pub open spec fn body_at(code: Seq<Cmd>, l: Seq<Stmt>, i: int) -> bool {
    forall|w: World, n: nat, s: Store|
        s.runs() && all_basic(l) ==> #[trigger] leaves(
            w,
            code,
            i,
            s,
            exec_all(w, l, l.len(), n, s),
        )
}

/// The code follows the run of the statements.
pub open spec fn is_followed(code: Seq<Cmd>, l: Seq<Stmt>) -> bool {
    exists|i: int| #[trigger] body_at(code, l, i)
}

pub proof fn lemma_body_follows(env: Env, a: St, b: St, code: Seq<Cmd>, l: Seq<Stmt>)
    requires
        follows_all(env, a, b, l, l.len()),
        neat(a),
        a.open,
        b.ok,
        env.exits.len() == 0,
        env.frames.len() == 0,
        starts_with(code, b),
        b.open ==> b.code.len() < code.len() && (code[b.code.len() as int] is Ret
            || code[b.code.len() as int] is RetVoid),
    ensures
        is_followed(code, l),
{
    reveal(follows_all);
    let i = a.code.len() as int;
    assert forall|w: World, n: nat, s: Store|
        s.runs() && all_basic(l) implies #[trigger] leaves(
        w,
        code,
        i,
        s,
        exec_all(w, l, l.len(), n, s),
    ) by {
        let t = exec_all(w, l, l.len(), n, s);
        assert(comes_out(w, code, env, Place::Before(i), s, b, t));
        if t.runs() {
            let e = Place::Before(b.code.len() as int);
            lemma_hop(w, code, e, t, Place::Out, t.go(Jump::Return(None)));
            lemma_then(
                w,
                code,
                Place::Before(i),
                s,
                e,
                t,
                Place::Out,
                t.go(Jump::Return(None)),
            );
        }
    }
    assert(body_at(code, l, i));
}

/// The code of a function does what its body says, in the order that it says it:
/// there is a place from which, whatever the operations yield and whatever the
/// conditions turn out to be, the code leads out of the function with the effects
/// and the result of running the statements. In particular a `continue` of a `for`
/// evaluates the update before the condition, and one of a `while` does not.
pub proof fn law_code_follows_the_statements(code: Seq<Cmd>, l: Seq<Stmt>) -> (i: int)
    requires
        is_followed(code, l),
        all_basic(l),
    ensures
        forall|w: World, n: nat, s: Store|
            s.runs() ==> #[trigger] leaves(w, code, i, s, exec_all(w, l, l.len(), n, s)),
{
    let i = choose|i: int| #[trigger] body_at(code, l, i);
    assert(body_at(code, l, i));
    i
}

/// A `for` evaluates its update once after each round of its body that comes to its
/// end or to a `continue` that means the loop, and before the condition is tested
/// again; a `break` or `return` evaluates it no more.
pub proof fn law_update_runs_after_each_round(w: World, st: Stmt, n: nat, s: Store)
    requires
        st is For,
        n > 0,
        s.runs(),
        tested(w, loop_cond(st), s).0.runs(),
        tested(w, loop_cond(st), s).1,
    ensures
        ({
            let m = (n - 1) as nat;
            let u = exec(w, loop_body(st), m, tested(w, loop_cond(st), s).0);
            match u.jump {
                Jump::Go => rounds(w, st, n, s) == rounds(w, st, m, done(w, loop_update(st), u)),
                Jump::Continue(l) => means(l, loop_label(st)) ==> rounds(w, st, n, s) == rounds(
                    w,
                    st,
                    m,
                    done(w, loop_update(st), u.go(Jump::Go)),
                ),
                _ => rounds(w, st, n, s) == u,
            }
        }),
{
    let m = (n - 1) as nat;
    let u = exec(w, loop_body(st), m, tested(w, loop_cond(st), s).0);
    let z = done(w, loop_update(st), next_round(u, loop_label(st)));
    assert(rounds(w, st, n, s) == rounds(w, st, m, z));
    if !(u.jump is Go) && !(u.jump is Continue) {
        assert(z == u) by {
            if let Some(e) = loop_update(st) {
                assert(eval(w, e, u).0 == u);
            }
        }
        assert(rounds(w, st, m, z) == u);
    }
}

// --- expressions --------------------------------------------------------------------------

/// Control goes on, or something was thrown.
spec fn is_within(s: Store) -> bool {
    s.jump is Go || s.jump is Throw
}

proof fn lemma_all_within(w: World, es: Seq<Expr>, n: nat, s: Store)
    requires
        is_within(s),
    ensures
        is_within(eval_all(w, es, n, s).0),
    decreases es, n,
{
    if 0 < n <= es.len() {
        lemma_all_within(w, es, (n - 1) as nat, s);
        lemma_within(w, es[n - 1], eval_all(w, es, (n - 1) as nat, s).0);
    }
}

proof fn lemma_some_within(w: World, es: Seq<Option<Expr>>, n: nat, s: Store)
    requires
        is_within(s),
    ensures
        is_within(eval_some(w, es, n, s).0),
    decreases es, n,
{
    if 0 < n <= es.len() {
        lemma_some_within(w, es, (n - 1) as nat, s);
        if let Some(e) = es[n - 1] {
            lemma_within(w, e, eval_some(w, es, (n - 1) as nat, s).0);
        }
    }
}

proof fn lemma_props_within(w: World, ps: Seq<(String, Expr)>, n: nat, s: Store)
    requires
        is_within(s),
    ensures
        is_within(eval_props(w, ps, n, s).0),
    decreases ps, n,
{
    if 0 < n <= ps.len() {
        lemma_props_within(w, ps, (n - 1) as nat, s);
        lemma_within(w, ps[n - 1].1, eval_props(w, ps, (n - 1) as nat, s).0);
    }
}

proof fn lemma_within(w: World, e: Expr, s: Store)
    requires
        is_within(s),
    ensures
        is_within(eval(w, e, s).0),
    decreases e, 0nat,
{
    if s.runs() {
        match e.kind {
            ExprKind::LocalSet(_, a) | ExprKind::CaptureSet(_, a) | ExprKind::Unary(_, a)
            | ExprKind::Conv(_, a) | ExprKind::Is(a, _) | ExprKind::As(a, _)
            | ExprKind::StrLen(a) | ExprKind::SeqLen(a) | ExprKind::PropGet(a, _)
            | ExprKind::DeleteProp(a, _) | ExprKind::NewNamespace(a) | ExprKind::NsUri(a)
            | ExprKind::StaticSet(_, _, a) | ExprKind::EnumLen(a) | ExprKind::FieldGet(a, _, _)
            | ExprKind::BoundMethod(a, _, _) | ExprKind::FieldIncDec { recv: a, .. } => {
                lemma_within(w, *a, s);
            },
            ExprKind::Binary(_, a, b) | ExprKind::Logical { lhs: a, rhs: b, .. }
            | ExprKind::Comma(a, b) | ExprKind::SeqGet(a, b, _) | ExprKind::AnyIndexGet(a, b)
            | ExprKind::HasProp(a, b) | ExprKind::PropSet(a, _, b) | ExprKind::NsGet(a, b, _)
            | ExprKind::EnumKey(a, b) | ExprKind::EnumValue(a, b)
            | ExprKind::FieldSet(a, _, _, b) | ExprKind::SeqSetLen(a, b) => {
                lemma_within(w, *a, s);
                lemma_within(w, *b, eval(w, *a, s).0);
            },
            ExprKind::Conditional(a, b, c) => {
                lemma_within(w, *a, s);
                lemma_within(w, *b, eval(w, *a, s).0);
                lemma_within(w, *c, eval(w, *a, s).0);
            },
            ExprKind::SeqSet(a, b, c, _) | ExprKind::AnyIndexSet(a, b, c) => {
                lemma_within(w, *a, s);
                let s1 = eval(w, *a, s).0;
                lemma_within(w, *b, s1);
                lemma_within(w, *c, eval(w, *b, s1).0);
            },
            ExprKind::CallFn(_, args) | ExprKind::CallBuiltin(_, args) | ExprKind::New(_, args)
            | ExprKind::CallNative(_, args) | ExprKind::NewRegExp(args)
            | ExprKind::CallRegex(_, args) | ExprKind::NewDate(args)
            | ExprKind::CallDate(_, args) | ExprKind::CallSocket(_, args)
            | ExprKind::VectorLit(_, args) => {
                lemma_all_within(w, args@, args@.len(), s);
            },
            ExprKind::CallStrMethod(_, a, args) | ExprKind::CallNumMethod(_, a, args)
            | ExprKind::CallArr(_, a, args) | ExprKind::CallVec(_, a, args)
            | ExprKind::PropCall(a, _, args) | ExprKind::CallVirtual { recv: a, args, .. }
            | ExprKind::CallIface { recv: a, args, .. }
            | ExprKind::CallDirect { recv: a, args, .. }
            | ExprKind::CallFnValue { callee: a, this_arg: None, args, .. } => {
                lemma_within(w, *a, s);
                lemma_all_within(w, args@, args@.len(), eval(w, *a, s).0);
            },
            ExprKind::NsCall(a, b, _, args)
            | ExprKind::CallFnValue { callee: a, this_arg: Some(b), args, .. } => {
                lemma_within(w, *a, s);
                let s1 = eval(w, *a, s).0;
                lemma_within(w, *b, s1);
                lemma_all_within(w, args@, args@.len(), eval(w, *b, s1).0);
            },
            ExprKind::ArrayLit(els) => lemma_some_within(w, els@, els@.len(), s),
            ExprKind::ObjectLit(props) => lemma_props_within(w, props@, props@.len(), s),
            _ => {},
        }
    }
}

/// An expression does not break out of loops or return: control goes on after it,
/// or something was thrown.
pub proof fn lemma_eval_jump(w: World, e: Expr, s: Store)
    requires
        s.runs(),
    ensures
        eval(w, e, s).0.jump is Go || eval(w, e, s).0.jump is Throw,
{
    lemma_within(w, e, s);
}

} // verus!
