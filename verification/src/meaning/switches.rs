//! The code of a `switch` follows the way that it runs.

use vstd::prelude::*;

use crate::codegen::code::{Cmd, Env, Frame, St, Val as Operand};
use crate::codegen::ops::strict_equals;
use crate::codegen::scheme::expr;
use crate::codegen::sound::{grows, lemma_grows_flags, neat};
use crate::codegen::stmt::default_index;
use crate::meaning::code::{
    all_basic, cases_basic, comes_out, follows, follows_all, goal, hopped, is_basic, jumped, leads,
    lemma_comes_later, lemma_eval_jump, lemma_goal, lemma_hop, lemma_hopped, lemma_pushed,
    lemma_starts_earlier, lemma_then, lemma_way_end, lemma_way_jumped, only_blocks, plain_hop,
    starts_with, Place,
};
use crate::meaning::run::{
    bodies, chosen, default_of, eval, exec, exec_all, left, matching, Jump, Store, Val, World,
};
use crate::mir::{Case, Expr, Stmt};

verus! {

// --- the choice of a clause -----------------------------------------------------------------

/// From `i` to `j` stands the code of the expression, which yields the operand.
pub open spec fn is_scrutinee(code: Seq<Cmd>, i: int, j: int, e: &Expr, v: Operand) -> bool {
    exists|env: Env, st: St|
        #![trigger expr(env, st, e)]
        starts_with(code, expr(env, st, e).0) && starts_with(code, st) && st.code.len() == i && expr(
            env,
            st,
            e,
        ).0.code.len() == j && expr(env, st, e).1 == v
}

/// At `i` stands the code that evaluates the test and jumps to `p` if it is strictly
/// equal to the operand, and to `q` if not.
pub open spec fn is_case_test(
    code: Seq<Cmd>,
    i: int,
    v: Operand,
    e: &Expr,
    p: usize,
    q: usize,
) -> bool {
    exists|env: Env, st: St|
        #![trigger expr(env, st, e)]
        ({
            let (st1, y) = expr(env, st, e);
            let (st2, c) = strict_equals(st1, v, y);
            starts_with(code, st2) && starts_with(code, st) && st.code.len() == i
                && st2.code.len() < code.len() && code[st2.code.len() as int] == Cmd::CondBr(
                c,
                p,
                q,
            )
        })
}

/// One step while the clause for the value `x`, in the operand `v`, is looked for.
pub open spec fn case_hop(
    w: World,
    code: Seq<Cmd>,
    v: Operand,
    x: Val,
    a: Place,
    s: Store,
    b: Place,
    t: Store,
) -> bool {
    ||| plain_hop(w, code, a, s, b, t)
    ||| match (a, b) {
        (Place::Before(i), Place::Into(bb)) => exists|e: Expr, p: usize, q: usize|
            #![trigger is_case_test(code, i, v, &e, p, q)]
            is_case_test(code, i, v, &e, p, q) && t.runs() && ({
                let (s1, y) = eval(w, e, s);
                t == s1 && bb == (if (w.apply)("==="@, seq![x, y], 0) == Val::Bool(true) {
                    p
                } else {
                    q
                })
            }),
        _ => false,
    }
}

pub open spec fn case_walks(
    w: World,
    code: Seq<Cmd>,
    v: Operand,
    x: Val,
    n: nat,
    a: Place,
    s: Store,
    b: Place,
    t: Store,
) -> bool
    decreases n,
{
    if n == 0 {
        a == b && s == t
    } else {
        exists|c: Place, u: Store| #[trigger]
            case_hop(w, code, v, x, a, s, c, u) && case_walks(
                w,
                code,
                v,
                x,
                (n - 1) as nat,
                c,
                u,
                b,
                t,
            )
    }
}

#[verifier::opaque]
pub open spec fn case_leads(
    w: World,
    code: Seq<Cmd>,
    v: Operand,
    x: Val,
    a: Place,
    s: Store,
    b: Place,
    t: Store,
) -> bool {
    exists|n: nat| case_walks(w, code, v, x, n, a, s, b, t)
}

/// From `i` on the value of an expression is computed and the clauses of a `switch` are
/// tried for it, up to the block that control is sent to.
#[verifier::opaque]
pub open spec fn sends(w: World, code: Seq<Cmd>, i: int, s: Store, b: usize, t: Store) -> bool {
    exists|e: Expr, v: Operand, j: int|
        #![trigger is_scrutinee(code, i, j, &e, v)]
        is_scrutinee(code, i, j, &e, v) && t.runs() && ({
            let (s1, x) = eval(w, e, s);
            s1.runs() && case_leads(w, code, v, x, Place::Before(j), s1, Place::Into(b), t)
        })
}

proof fn lemma_case_stay(w: World, code: Seq<Cmd>, v: Operand, x: Val, a: Place, s: Store)
    ensures
        case_leads(w, code, v, x, a, s, a, s),
{
    reveal(case_leads);
    assert(case_walks(w, code, v, x, 0, a, s, a, s));
}

proof fn lemma_case_hop(
    w: World,
    code: Seq<Cmd>,
    v: Operand,
    x: Val,
    a: Place,
    s: Store,
    b: Place,
    t: Store,
)
    requires
        case_hop(w, code, v, x, a, s, b, t),
    ensures
        case_leads(w, code, v, x, a, s, b, t),
{
    reveal(case_leads);
    assert(case_walks(w, code, v, x, 0, b, t, b, t));
    assert(case_walks(w, code, v, x, 1, a, s, b, t));
}

proof fn lemma_case_walks_on(
    w: World,
    code: Seq<Cmd>,
    v: Operand,
    x: Val,
    n: nat,
    m: nat,
    a: Place,
    s: Store,
    b: Place,
    t: Store,
    c: Place,
    u: Store,
)
    requires
        case_walks(w, code, v, x, n, a, s, b, t),
        case_walks(w, code, v, x, m, b, t, c, u),
    ensures
        case_walks(w, code, v, x, n + m, a, s, c, u),
    decreases n,
{
    if n > 0 {
        let (d, z) = choose|d: Place, z: Store| #[trigger]
            case_hop(w, code, v, x, a, s, d, z) && case_walks(
                w,
                code,
                v,
                x,
                (n - 1) as nat,
                d,
                z,
                b,
                t,
            );
        lemma_case_walks_on(w, code, v, x, (n - 1) as nat, m, d, z, b, t, c, u);
        assert((n + m - 1) as nat == (n - 1) as nat + m);
    }
}

proof fn lemma_case_then(
    w: World,
    code: Seq<Cmd>,
    v: Operand,
    x: Val,
    a: Place,
    s: Store,
    b: Place,
    t: Store,
    c: Place,
    u: Store,
)
    requires
        case_leads(w, code, v, x, a, s, b, t),
        case_leads(w, code, v, x, b, t, c, u),
    ensures
        case_leads(w, code, v, x, a, s, c, u),
{
    reveal(case_leads);
    let n = choose|n: nat| case_walks(w, code, v, x, n, a, s, b, t);
    let m = choose|m: nat| case_walks(w, code, v, x, m, b, t, c, u);
    lemma_case_walks_on(w, code, v, x, n, m, a, s, b, t, c, u);
}

/// The code from `a` to `m` tries the first `k` clauses: it leads to the body of the
/// first one that matches, or behind them.
#[verifier::opaque]
pub open spec fn tries(a: St, m: St, v: Operand, cs: Seq<Case>, bbs: Seq<usize>, k: nat) -> bool {
    forall|w: World, code: Seq<Cmd>, x: Val, s: Store|
        starts_with(code, m) && s.runs() ==> #[trigger] tried(w, code, a, m, v, cs, bbs, k, x, s)
}

pub open spec fn tried(
    w: World,
    code: Seq<Cmd>,
    a: St,
    m: St,
    v: Operand,
    cs: Seq<Case>,
    bbs: Seq<usize>,
    k: nat,
    x: Val,
    s: Store,
) -> bool {
    let (t, hit) = matching(w, cs, k, x, s);
    let i = Place::Before(a.code.len() as int);
    t.runs() ==> match hit {
        Some(h) => 0 <= h < k && case_leads(w, code, v, x, i, s, Place::Into(bbs[h]), t),
        None => case_leads(w, code, v, x, i, s, Place::Before(m.code.len() as int), t),
    }
}

pub proof fn lemma_tries_none(a: St, v: Operand, cs: Seq<Case>, bbs: Seq<usize>)
    ensures
        tries(a, a, v, cs, bbs, 0),
{
    reveal(tries);
    assert forall|w: World, code: Seq<Cmd>, x: Val, s: Store|
        starts_with(code, a) && s.runs() implies #[trigger] tried(
        w,
        code,
        a,
        a,
        v,
        cs,
        bbs,
        0,
        x,
        s,
    ) by {
        lemma_case_stay(w, code, v, x, Place::Before(a.code.len() as int), s);
    }
}

/// One clause more.
pub proof fn lemma_tries_more<'a>(
    env: Env<'a>,
    a: St<'a>,
    m: St<'a>,
    b: St<'a>,
    v: Operand,
    cs: Seq<Case>,
    bbs: Seq<usize>,
    k: nat,
    e: Option<&'a Expr>,
)
    requires
        k < cs.len(),
        tries(a, m, v, cs, bbs, k),
        match e {
            Some(t) => {
                let made = m.push(Cmd::NewBlock);
                let (st1, y) = expr(env, made, t);
                let (st2, c) = strict_equals(st1, v, y);
                let next = m.code.len() as usize;
                &&& cs[k as int].test == Some(*t)
                &&& grows(made, st2)
                &&& hopped(st2, Cmd::CondBr(c, bbs[k as int], next), b, next)
            },
            None => cs[k as int].test is None && b == m,
        },
        grows(m, b),
    ensures
        tries(a, b, v, cs, bbs, k + 1),
{
    broadcast use lemma_starts_earlier;

    reveal(tries);
    assert forall|w: World, code: Seq<Cmd>, x: Val, s: Store|
        starts_with(code, b) && s.runs() implies #[trigger] tried(
        w,
        code,
        a,
        b,
        v,
        cs,
        bbs,
        k + 1,
        x,
        s,
    ) by {
        assert(starts_with(code, m));
        assert(tried(w, code, a, m, v, cs, bbs, k, x, s));
        let (t, hit) = matching(w, cs, k, x, s);
        let i = Place::Before(a.code.len() as int);
        let p = Place::Before(m.code.len() as int);
        if let Some(d) = e {
            let made = m.push(Cmd::NewBlock);
            let (st1, y) = expr(env, made, d);
            let (st2, c) = strict_equals(st1, v, y);
            let next = m.code.len() as usize;
            let (u, z) = eval(w, *d, t);
            assert(matching(w, cs, k + 1, x, s) == match hit {
                None => if u.runs() && (w.apply)("==="@, seq![x, z], 0) == Val::Bool(true) {
                    (u, Some(k as int))
                } else {
                    (u, None)
                },
                Some(h) => (t, hit),
            });
            if !t.runs() {
                assert(u == t);
            } else if hit is None && u.runs() {
                lemma_hopped(code, st2, Cmd::CondBr(c, bbs[k as int], next), b, next);
                assert(starts_with(code, made));
                lemma_pushed(code, m, made, Cmd::NewBlock);
                let q = Place::Before(made.code.len() as int);
                lemma_case_hop(w, code, v, x, p, t, q, t);
                assert(is_case_test(
                    code,
                    made.code.len() as int,
                    v,
                    d,
                    bbs[k as int],
                    next,
                )) by {
                    let r = expr(env, made, d);
                }
                let to = if (w.apply)("==="@, seq![x, z], 0) == Val::Bool(true) {
                    bbs[k as int]
                } else {
                    next
                };
                lemma_case_hop(w, code, v, x, q, t, Place::Into(to), u);
                lemma_case_then(w, code, v, x, i, s, p, t, q, t);
                lemma_case_then(w, code, v, x, i, s, q, t, Place::Into(to), u);
                if to == next && (w.apply)("==="@, seq![x, z], 0) != Val::Bool(true) {
                    let r = Place::Before(b.code.len() as int);
                    assert(code[b.code.len() - 1] == b.code[b.code.len() - 1]
                        && b.code.len() <= code.len()) by {
                        reveal(starts_with);
                    }
                    lemma_case_hop(w, code, v, x, Place::Into(next), u, r, u);
                    lemma_case_then(w, code, v, x, i, s, Place::Into(next), u, r, u);
                }
            }
        } else {
            assert(matching(w, cs, k + 1, x, s) == (t, hit));
        }
    }
}

// --- the bodies -----------------------------------------------------------------------------

/// The block behind the first `k` bodies.
pub open spec fn block_after(bbs: Seq<usize>, end: usize, k: nat) -> usize {
    if k < bbs.len() {
        bbs[k as int]
    } else {
        end
    }
}

/// How the run of the bodies from `i` to `k` came out.
pub open spec fn falls_through(
    w: World,
    code: Seq<Cmd>,
    env: Env,
    m: St,
    bbs: Seq<usize>,
    end: usize,
    i: int,
    k: nat,
    s: Store,
    t: Store,
) -> bool {
    if t.runs() {
        leads(w, code, Place::Into(bbs[i]), s, Place::Into(block_after(bbs, end, k)), t)
    } else {
        comes_out(w, code, env, Place::Into(bbs[i]), s, m, t)
    }
}

/// The code up to `m` holds the first `k` bodies, one leading into the next.
#[verifier::opaque]
pub open spec fn bodies_follow(
    env: Env,
    m: St,
    cs: Seq<Case>,
    bbs: Seq<usize>,
    end: usize,
    k: nat,
) -> bool {
    forall|w: World, code: Seq<Cmd>, n: nat, i: int, s: Store|
        0 <= i < k && m.ok && env.exits.len() == 0 && cases_basic(cs) && starts_with(code, m)
            && s.runs() ==> #[trigger] falls_through(
            w,
            code,
            env,
            m,
            bbs,
            end,
            i,
            k,
            s,
            bodies(w, cs, i, k, n, s),
        )
}

pub proof fn lemma_no_bodies(env: Env, m: St, cs: Seq<Case>, bbs: Seq<usize>, end: usize)
    ensures
        bodies_follow(env, m, cs, bbs, end, 0),
{
    reveal(bodies_follow);
}

proof fn lemma_exec_gone(w: World, l: Seq<Stmt>, k: nat, n: nat, s: Store)
    requires
        !s.runs(),
    ensures
        exec_all(w, l, k, n, s) == s,
    decreases k,
{
    if 0 < k <= l.len() {
        lemma_exec_gone(w, l, (k - 1) as nat, n, s);
        assert(exec(w, l[k - 1], n, s) == s);
    }
}

/// One body more.
pub proof fn lemma_more_bodies<'a>(
    env: Env<'a>,
    m: St<'a>,
    p: St<'a>,
    q: St<'a>,
    b: St<'a>,
    cs: Seq<Case>,
    bbs: Seq<usize>,
    end: usize,
    k: nat,
)
    requires
        k < cs.len(),
        bbs.len() == cs.len(),
        bodies_follow(env, m, cs, bbs, end, k),
        p.code == m.code.push(Cmd::At(bbs[k as int])),
        p.open,
        neat(p),
        grows(m, b),
        grows(p, q),
        grows(q, b),
        follows_all(env, p, q, cs[k as int].body@, cs[k as int].body@.len()),
        jumped(q, b, block_after(bbs, end, k + 1)),
    ensures
        bodies_follow(env, b, cs, bbs, end, k + 1),
{
    broadcast use {lemma_starts_earlier, lemma_grows_flags};

    reveal(bodies_follow);
    assert forall|w: World, code: Seq<Cmd>, n: nat, i: int, s: Store|
        0 <= i < k + 1 && b.ok && env.exits.len() == 0 && cases_basic(cs) && starts_with(code, b)
            && s.runs() implies #[trigger] falls_through(
        w,
        code,
        env,
        b,
        bbs,
        end,
        i,
        k + 1,
        s,
        bodies(w, cs, i, k + 1, n, s),
    ) by {
        let body = cs[k as int].body@;
        let a = Place::Into(bbs[i]);
        let t = bodies(w, cs, i, k, n, s);
        let u = exec_all(w, body, body.len(), n, t);
        assert(bodies(w, cs, i, k + 1, n, s) == u);
        assert(starts_with(code, m));
        if i < k {
            assert(falls_through(w, code, env, m, bbs, end, i, k, s, t));
        } else {
            assert(t == s);
            crate::meaning::code::lemma_stay(w, code, a, s);
        }
        if t.runs() {
            assert(leads(w, code, a, s, Place::Into(bbs[k as int]), t));
            assert(all_basic(cs[k as int].body@));
            assert(starts_with(code, q));
            assert(starts_with(code, p));
            lemma_pushed(code, m, p, Cmd::At(bbs[k as int]));
            lemma_body_run(w, code, env, m, p, q, b, body, n, t, bbs[k as int]);
            lemma_comes_later(w, code, env, a, s, Place::Into(bbs[k as int]), t, q, u);
            if u.runs() {
                let to = block_after(bbs, end, k + 1);
                let z = Place::Before(q.code.len() as int);
                lemma_way_jumped(w, code, q, b, to);
                assert(leads(w, code, z, u, Place::Into(to), u));
                lemma_then(w, code, a, s, z, u, Place::Into(to), u);
            }
        } else {
            lemma_exec_gone(w, body, body.len(), n, t);
        }
    }
}

proof fn lemma_body_run<'a>(
    w: World,
    code: Seq<Cmd<'a>>,
    env: Env<'a>,
    m: St<'a>,
    p: St<'a>,
    q: St<'a>,
    b: St<'a>,
    body: Seq<Stmt>,
    n: nat,
    t: Store,
    bb: usize,
)
    requires
        p.code == m.code.push(Cmd::At(bb)),
        p.open,
        neat(p),
        follows_all(env, p, q, body, body.len()),
        q.ok,
        env.exits.len() == 0,
        all_basic(body),
        starts_with(code, q),
        starts_with(code, b),
        0 < p.code.len() <= code.len(),
        code[p.code.len() - 1] == Cmd::At(bb),
        t.runs(),
    ensures
        comes_out(
            w,
            code,
            env,
            Place::Into(bb),
            t,
            q,
            exec_all(w, body, body.len(), n, t),
        ),
{
    reveal(follows_all);
    let i = Place::Before(p.code.len() as int);
    lemma_hop(w, code, Place::Into(bb), t, i, t);
    assert(comes_out(w, code, env, i, t, q, exec_all(w, body, body.len(), n, t)));
    lemma_comes_later(
        w,
        code,
        env,
        Place::Into(bb),
        t,
        i,
        t,
        q,
        exec_all(w, body, body.len(), n, t),
    );
}

// --- the whole ------------------------------------------------------------------------------

proof fn lemma_same_default(cs: Seq<Case>, k: nat)
    requires
        k <= cs.len(),
    ensures
        match default_index(cs, k) {
            Some(i) => default_of(cs, k) == Some(i as int) && i < k,
            None => default_of(cs, k) is None,
        },
    decreases k,
{
    if k > 0 {
        lemma_same_default(cs, (k - 1) as nat);
    }
}

/// How a `switch` is laid out.
pub ghost struct SwitchLayout<'a> {
    /// Behind the value.
    pub valued: St<'a>,
    /// Behind the creation of the blocks.
    pub made: St<'a>,
    /// Behind the tests.
    pub tested: St<'a>,
    /// Behind the jump that no test took.
    pub jumped: St<'a>,
    /// Behind the bodies.
    pub ended: St<'a>,
    pub value: Operand,
    pub target: usize,
    pub end_bb: usize,
}

pub proof fn lemma_switch_follows<'a>(
    env: Env<'a>,
    f: Frame<'a>,
    a: St<'a>,
    b: St<'a>,
    e: &'a Expr,
    cs: Vec<Case>,
    bbs: Seq<usize>,
    x: SwitchLayout<'a>,
)
    requires
        neat(a) && a.open ==> {
            &&& (x.valued, x.value) == expr(env, a, e)
            &&& grows(a, x.valued)
            &&& only_blocks(x.valued, x.made)
            &&& grows(x.made, x.tested)
            &&& tries(x.made, x.tested, x.value, cs@, bbs, cs@.len())
            &&& x.jumped.code == x.tested.code.push(Cmd::Br(x.target))
            &&& x.target == (match default_index(cs@, cs@.len()) {
                Some(i) => bbs[i as int],
                None => x.end_bb,
            })
            &&& grows(x.jumped, x.ended)
            &&& bodies_follow(env.in_frame(f), x.ended, cs@, bbs, x.end_bb, cs@.len())
            &&& b.code == x.ended.code.push(Cmd::At(x.end_bb))
            &&& grows(x.ended, b)
            &&& b.open
            &&& bbs.len() == cs@.len()
        },
        f.label is None,
        f.break_bb == x.end_bb,
        f.continue_bb is None,
    ensures
        follows(env, a, b, Stmt::Switch { scrutinee: *e, cases: cs }),
{
    let st = Stmt::Switch { scrutinee: *e, cases: cs };
    reveal(follows);
    assert forall|w: World, code: Seq<Cmd>, n: nat, s: Store|
        neat(a) && a.open && b.ok && env.exits.len() == 0 && is_basic(st) && starts_with(code, b)
            && s.runs() implies #[trigger] comes_out(
        w,
        code,
        env,
        Place::Before(a.code.len() as int),
        s,
        b,
        exec(w, st, n, s),
    ) by {
        lemma_switch_run(env, f, a, b, e, cs, bbs, x, w, code, n, s);
    }
}

proof fn lemma_switch_sends<'a>(
    env: Env<'a>,
    a: St<'a>,
    e: &'a Expr,
    cs: Seq<Case>,
    bbs: Seq<usize>,
    x: SwitchLayout<'a>,
    w: World,
    code: Seq<Cmd<'a>>,
    s: Store,
)
    requires
        (x.valued, x.value) == expr(env, a, e),
        grows(a, x.valued),
        only_blocks(x.valued, x.made),
        grows(x.made, x.tested),
        tries(x.made, x.tested, x.value, cs, bbs, cs.len()),
        x.jumped.code == x.tested.code.push(Cmd::Br(x.target)),
        starts_with(code, x.jumped),
        s.runs(),
    ensures
        ({
            let (s1, y) = eval(w, *e, s);
            let (t, hit) = matching(w, cs, cs.len(), y, s1);
            s1.runs() && t.runs() ==> leads(
                w,
                code,
                Place::Before(a.code.len() as int),
                s,
                Place::Into(
                    match hit {
                        Some(h) => bbs[h],
                        None => x.target,
                    },
                ),
                t,
            )
        }),
{
    broadcast use lemma_starts_earlier;

    let (s1, y) = eval(w, *e, s);
    let (t, hit) = matching(w, cs, cs.len(), y, s1);
    let i = a.code.len() as int;
    lemma_pushed(code, x.tested, x.jumped, Cmd::Br(x.target));
    if s1.runs() && t.runs() {
        reveal(tries);
        assert(starts_with(code, x.made));
        assert(starts_with(code, x.valued));
        assert(starts_with(code, a));
        assert(tried(w, code, x.made, x.tested, x.value, cs, bbs, cs.len(), y, s1));
        let j = Place::Before(x.valued.code.len() as int);
        let m = Place::Before(x.made.code.len() as int);
        let z = Place::Before(x.tested.code.len() as int);
        lemma_case_blocks(w, code, x.value, y, x.valued, x.made, x.made.code.len(), s1);
        let to = match hit {
            Some(h) => bbs[h],
            None => x.target,
        };
        if hit is None {
            lemma_case_hop(w, code, x.value, y, z, t, Place::Into(x.target), t);
            lemma_case_then(w, code, x.value, y, m, s1, z, t, Place::Into(to), t);
        }
        lemma_case_then(w, code, x.value, y, j, s1, m, s1, Place::Into(to), t);
        assert(is_scrutinee(code, i, x.valued.code.len() as int, e, x.value)) by {
            let r = expr(env, a, e);
        }
        assert(sends(w, code, i, s, to, t)) by {
            reveal(sends);
        }
        lemma_hop(w, code, Place::Before(i), s, Place::Into(to), t);
    }
}

proof fn lemma_case_blocks(
    w: World,
    code: Seq<Cmd>,
    v: Operand,
    x: Val,
    a: St,
    b: St,
    k: nat,
    s: Store,
)
    requires
        only_blocks(a, b),
        starts_with(code, b),
        a.code.len() <= k <= b.code.len(),
    ensures
        case_leads(
            w,
            code,
            v,
            x,
            Place::Before(a.code.len() as int),
            s,
            Place::Before(k as int),
            s,
        ),
    decreases k,
{
    let i = Place::Before(a.code.len() as int);
    if k == a.code.len() {
        lemma_case_stay(w, code, v, x, i, s);
    } else {
        lemma_case_blocks(w, code, v, x, a, b, (k - 1) as nat, s);
        reveal(starts_with);
        assert(code[k - 1] == b.code[k - 1]);
        lemma_case_hop(w, code, v, x, Place::Before(k - 1), s, Place::Before(k as int), s);
        lemma_case_then(
            w,
            code,
            v,
            x,
            i,
            s,
            Place::Before(k - 1),
            s,
            Place::Before(k as int),
            s,
        );
    }
}

proof fn lemma_matching_within(w: World, cs: Seq<Case>, k: nat, x: Val, s: Store)
    requires
        s.runs(),
    ensures
        matching(w, cs, k, x, s).0.jump is Go || matching(w, cs, k, x, s).0.jump is Throw,
        matching(w, cs, k, x, s).1 matches Some(h) ==> 0 <= h < k && h < cs.len() && matching(
            w,
            cs,
            k,
            x,
            s,
        ).0.runs(),
    decreases k,
{
    if 0 < k <= cs.len() {
        lemma_matching_within(w, cs, (k - 1) as nat, x, s);
        let t = matching(w, cs, (k - 1) as nat, x, s).0;
        if let Some(e) = cs[k - 1].test {
            if t.runs() {
                lemma_eval_jump(w, e, t);
            } else {
                assert(eval(w, e, t).0 == t);
            }
        }
    }
}

proof fn lemma_bodies_gone(w: World, cs: Seq<Case>, i: int, k: nat, n: nat, s: Store)
    requires
        !s.runs(),
    ensures
        bodies(w, cs, i, k, n, s) == s,
    decreases k,
{
    if i < k <= cs.len() && 0 < k {
        lemma_bodies_gone(w, cs, i, (k - 1) as nat, n, s);
        lemma_exec_gone(w, cs[k - 1].body@, cs[k - 1].body@.len(), n, s);
    }
}

proof fn lemma_switch_run<'a>(
    env: Env<'a>,
    f: Frame<'a>,
    a: St<'a>,
    b: St<'a>,
    e: &'a Expr,
    cs: Vec<Case>,
    bbs: Seq<usize>,
    x: SwitchLayout<'a>,
    w: World,
    code: Seq<Cmd<'a>>,
    n: nat,
    s: Store,
)
    requires
        (x.valued, x.value) == expr(env, a, e),
        grows(a, x.valued),
        only_blocks(x.valued, x.made),
        grows(x.made, x.tested),
        tries(x.made, x.tested, x.value, cs@, bbs, cs@.len()),
        x.jumped.code == x.tested.code.push(Cmd::Br(x.target)),
        x.target == (match default_index(cs@, cs@.len()) {
            Some(i) => bbs[i as int],
            None => x.end_bb,
        }),
        grows(x.jumped, x.ended),
        bodies_follow(env.in_frame(f), x.ended, cs@, bbs, x.end_bb, cs@.len()),
        b.code == x.ended.code.push(Cmd::At(x.end_bb)),
        grows(x.ended, b),
        b.open,
        bbs.len() == cs@.len(),
        f.label is None,
        f.break_bb == x.end_bb,
        f.continue_bb is None,
        b.ok,
        env.exits.len() == 0,
        cases_basic(cs@),
        starts_with(code, b),
        s.runs(),
    ensures
        comes_out(
            w,
            code,
            env,
            Place::Before(a.code.len() as int),
            s,
            b,
            exec(w, Stmt::Switch { scrutinee: *e, cases: cs }, n, s),
        ),
{
    broadcast use {lemma_starts_earlier, lemma_grows_flags};

    let st = Stmt::Switch { scrutinee: *e, cases: cs };
    let i = Place::Before(a.code.len() as int);
    let last = Place::Before(b.code.len() as int);
    let k = cs@.len();
    let (s1, y) = eval(w, *e, s);
    let (t, hit) = matching(w, cs@, k, y, s1);
    lemma_eval_jump(w, *e, s);
    lemma_same_default(cs@, k);
    lemma_way_end(w, code, b, x.end_bb);
    assert(starts_with(code, x.ended));
    assert(starts_with(code, x.jumped));
    let start = match hit {
        Some(h) => Some(h),
        None => default_of(cs@, k),
    };
    assert(chosen(w, cs@, k, y, s1) == (t, start));
    let u = match start {
        Some(h) => left(bodies(w, cs@, h, k, n, t), None),
        None => t,
    };
    assert(exec(w, st, n, s) == u);
    if !s1.runs() {
        lemma_matching_gone(w, cs@, k, y, s1);
        if let Some(h) = start {
            lemma_bodies_gone(w, cs@, h, k, n, t);
        }
    } else {
        lemma_matching_within(w, cs@, k, y, s1);
        if !t.runs() {
            if let Some(h) = start {
                lemma_bodies_gone(w, cs@, h, k, n, t);
            }
        } else {
            lemma_switch_sends(env, a, e, cs@, bbs, x, w, code, s);
            match start {
                None => {
                    assert(leads(w, code, Place::Into(x.end_bb), t, last, t));
                    lemma_then(w, code, i, s, Place::Into(x.end_bb), t, last, t);
                },
                Some(h) => {
                    let r = bodies(w, cs@, h, k, n, t);
                    let bb = Place::Into(bbs[h]);
                    assert(falls_through(
                        w,
                        code,
                        env.in_frame(f),
                        x.ended,
                        bbs,
                        x.end_bb,
                        h,
                        k,
                        t,
                        r,
                    )) by {
                        reveal(bodies_follow);
                    }
                    match r.jump {
                        Jump::Go => {
                            lemma_then(w, code, i, s, bb, t, Place::Into(x.end_bb), r);
                            assert(leads(w, code, Place::Into(x.end_bb), r, last, r));
                            lemma_then(w, code, i, s, Place::Into(x.end_bb), r, last, r);
                        },
                        Jump::Break(l) => {
                            lemma_goal(env, f, l, false);
                            let z = r.go(Jump::Go);
                            if l is None {
                                lemma_then(w, code, i, s, bb, t, Place::Into(x.end_bb), z);
                                assert(leads(w, code, Place::Into(x.end_bb), z, last, z));
                                lemma_then(w, code, i, s, Place::Into(x.end_bb), z, last, z);
                            } else {
                                let g = goal(env.frames, env.frames.len(), l, false)->0;
                                lemma_then(w, code, i, s, bb, t, Place::Into(g), z);
                            }
                        },
                        Jump::Continue(l) => {
                            lemma_goal(env, f, l, true);
                            let g = goal(env.frames, env.frames.len(), l, true)->0;
                            lemma_then(w, code, i, s, bb, t, Place::Into(g), r.go(Jump::Go));
                        },
                        Jump::Return(_) => {
                            lemma_then(w, code, i, s, bb, t, Place::Out, r);
                        },
                        _ => {},
                    }
                },
            }
        }
    }
}

proof fn lemma_matching_gone(w: World, cs: Seq<Case>, k: nat, x: Val, s: Store)
    requires
        !s.runs(),
    ensures
        matching(w, cs, k, x, s) == (s, None::<int>),
    decreases k,
{
    if 0 < k <= cs.len() {
        lemma_matching_gone(w, cs, (k - 1) as nat, x, s);
        if let Some(e) = cs[k - 1].test {
            assert(eval(w, e, s) == (s, Val::Undefined));
        }
    }
}

} // verus!
