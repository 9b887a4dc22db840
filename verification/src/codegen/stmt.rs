//! Statements: the compilation scheme, and its emission.

use vstd::prelude::*;

use crate::codegen::code::{Cmd, Env, ExitAction, FnCx, Frame, IntPred, LTy, Op, St, Val};
use crate::codegen::ops::{is_test, slot_at, store_local, strict_equals};
use crate::codegen::safepoint::{
    allocs, expr_allocs, opt_allocs, stmt_allocs, stmt_allocs_directly,
};
use crate::codegen::scheme::expr;
use crate::codegen::value::{
    box_value, default_op, default_op_of, materialize, ptr, truthy, unbox,
};
use crate::mir::{Case, Catch, Expr, Stmt, Ty};
use crate::codegen::handlers::{
    keeps, lemma_cut, lemma_in_frame, lemma_placed_later, lemma_target, lemma_with_exit,
    level_start, live, strays_in,
};
use crate::codegen::sound::{
    entry, env_has, even, group_sound, grows, has, has_block, has_blocks, has_val, height,
    level_with, neat, own, part, step, unentered,
};
use crate::meaning::switches::{
    bodies_follow, lemma_more_bodies, lemma_no_bodies, lemma_switch_follows, lemma_tries_more,
    lemma_tries_none, tries, SwitchLayout,
};
use crate::meaning::code::{
    do_laid, follows, follows_all, for_laid, goal, if_laid, lemma_assign_follows,
    lemma_block_follows, lemma_do_follows, lemma_expr_follows, lemma_for_follows, lemma_if_follows,
    lemma_jump_follows, lemma_list_follows, lemma_list_starts, lemma_return_follows,
    lemma_unreached, lemma_while_follows, only_blocks, while_laid, IfLayout, LoopLayout,
};

verus! {

broadcast use {group_sound, lemma_placed_later};

// --- sizes, by which the recursion is well founded ----------------------------------

pub open spec fn sizes(ss: Seq<Stmt>, n: nat) -> nat
    decreases ss, n,
{
    if 0 < n <= ss.len() {
        sizes(ss, (n - 1) as nat) + size(&ss[n - 1])
    } else {
        0
    }
}

pub open spec fn case_sizes(cs: Seq<Case>, n: nat) -> nat
    decreases cs, n,
{
    if 0 < n <= cs.len() {
        case_sizes(cs, (n - 1) as nat) + 1 + sizes(cs[n - 1].body@, cs[n - 1].body@.len())
    } else {
        0
    }
}

pub open spec fn catch_sizes(cs: Seq<Catch>, n: nat) -> nat
    decreases cs, n,
{
    if 0 < n <= cs.len() {
        catch_sizes(cs, (n - 1) as nat) + sizes(cs[n - 1].body@, cs[n - 1].body@.len())
    } else {
        0
    }
}

pub open spec fn block_size(ss: Option<Vec<Stmt>>) -> nat
    decreases ss, 0nat,
{
    match ss {
        Some(f) => 1 + sizes(f@, f@.len()),
        None => 0,
    }
}

/// A positive bound on the number of nested statements.
pub open spec fn size(s: &Stmt) -> nat
    decreases s, 0nat,
{
    match s {
        Stmt::Block(b) => 1 + sizes(b@, b@.len()),
        Stmt::If { then_branch, else_branch, .. } => 1 + size(&**then_branch) + match else_branch {
            Some(x) => size(&**x),
            None => 0,
        },
        Stmt::While { body, .. } => 1 + size(&**body),
        Stmt::DoWhile { body, .. } => 1 + size(&**body),
        Stmt::For { init, body, .. } => 1 + size(&**body) + match init {
            Some(x) => size(&**x),
            None => 0,
        },
        Stmt::Switch { cases, .. } => 1 + case_sizes(cases@, cases@.len()),
        Stmt::Try { body, catches, finally } => 3 + sizes(body@, body@.len()) + catch_sizes(
            catches@,
            catches@.len(),
        ) + block_size(*finally),
        _ => 1,
    }
}

pub open spec fn exit_size(x: ExitAction) -> nat {
    match x.finally {
        Some(f) => 1 + sizes(f@, f@.len()),
        None => 1,
    }
}

/// The size of the first `n` pending cleanups.
pub open spec fn weight(xs: Seq<ExitAction>, n: nat) -> nat
    decreases n,
{
    if 0 < n <= xs.len() {
        weight(xs, (n - 1) as nat) + exit_size(xs[n - 1])
    } else {
        0
    }
}

pub proof fn lemma_weight_prefix(xs: Seq<ExitAction>, ys: Seq<ExitAction>, n: nat)
    requires
        n <= xs.len(),
        n <= ys.len(),
        forall|i: int| 0 <= i < n ==> xs[i] == ys[i],
    ensures
        weight(xs, n) == weight(ys, n),
    decreases n,
{
    if n > 0 {
        lemma_weight_prefix(xs, ys, (n - 1) as nat);
    }
}

pub proof fn lemma_weight_monotone(xs: Seq<ExitAction>, m: nat, n: nat)
    requires
        m <= n <= xs.len(),
    ensures
        weight(xs, m) <= weight(xs, n),
    decreases n,
{
    if m < n {
        lemma_weight_monotone(xs, m, (n - 1) as nat);
    }
}

/// A cleanup and those below it weigh no more than all that is pending.
pub proof fn lemma_weight_cut(xs: Seq<ExitAction>, k: nat)
    requires
        0 < k <= xs.len(),
    ensures
        weight(xs.take(k - 1), (k - 1) as nat) + exit_size(xs[k - 1]) <= weight(xs, xs.len()),
{
    lemma_weight_prefix(xs, xs.take(k - 1), (k - 1) as nat);
    lemma_weight_monotone(xs, k, xs.len());
}

pub proof fn lemma_weight_push(xs: Seq<ExitAction>, x: ExitAction)
    ensures
        weight(xs.push(x), xs.push(x).len()) == weight(xs, xs.len()) + exit_size(x),
{
    lemma_weight_prefix(xs, xs.push(x), xs.len());
}

// --- jump targets ---------------------------------------------------------------------

pub open spec fn label_matches(frame: Frame, label: Option<&String>) -> bool {
    match label {
        Some(l) => match frame.label {
            Some(m) => m@ == l@,
            None => false,
        },
        None => true,
    }
}

/// The innermost of the first `n` frames that the jump can leave to: its
/// block. An unlabelled `continue` skips `switch`.
pub open spec fn find_frame_in(
    frames: Seq<Frame>,
    n: nat,
    label: Option<&String>,
    for_continue: bool,
) -> Option<usize>
    decreases n,
{
    if 0 < n <= frames.len() {
        let f = frames[n - 1];
        let outer = find_frame_in(frames, (n - 1) as nat, label, for_continue);
        if !label_matches(f, label) {
            outer
        } else if for_continue {
            match f.continue_bb {
                Some(c) => Some(c),
                None => outer,
            }
        } else {
            Some(f.break_bb)
        }
    } else {
        None
    }
}

/// The block that a jump goes to is that of a frame.
proof fn lemma_found_frame(
    env: Env,
    st: St,
    n: nat,
    label: Option<&String>,
    for_continue: bool,
)
    requires
        env_has(env, st),
        n <= env.frames.len(),
    ensures
        find_frame_in(env.frames, n, label, for_continue) matches Some(b) ==> has_block(st, b),
    decreases n,
{
    if n > 0 {
        lemma_found_frame(env, st, (n - 1) as nat, label, for_continue);
        assert(has_block(st, env.frames[n - 1].break_bb));
    }
}

/// The depth of the cleanup stack that the jump leaves to; 0 without a target.
pub open spec fn frame_exit_depth_in(
    frames: Seq<Frame>,
    n: nat,
    label: Option<&String>,
    for_continue: bool,
) -> usize
    decreases n,
{
    if 0 < n <= frames.len() {
        let f = frames[n - 1];
        if !label_matches(f, label) || (for_continue && f.continue_bb is None && label is None) {
            frame_exit_depth_in(frames, (n - 1) as nat, label, for_continue)
        } else {
            f.exit_depth
        }
    } else {
        0
    }
}

impl<'a> Env<'a> {
    pub open spec fn in_frame(self, f: Frame<'a>) -> Env<'a> {
        Env { frames: self.frames.push(f), left: self.left.push(false), ..self }
    }

    pub open spec fn with_exit(self, x: ExitAction<'a>) -> Env<'a> {
        Env { exits: self.exits.push(x), ..self }
    }

    /// With the cleanups above depth `d` taken off, on the way out of the frames
    /// that were made above it.
    pub open spec fn cut(self, d: int) -> Env<'a> {
        Env {
            left: Seq::new(
                self.left.len(),
                |i: int| self.left[i] || self.frames[i].exit_depth > d,
            ),
            exits: self.exits.take(d),
            ..self
        }
    }

    pub open spec fn weight(self) -> nat {
        weight(self.exits, self.exits.len())
    }
}

// --- the scheme -----------------------------------------------------------------------

pub open spec fn opt_label<'a>(label: &'a Option<String>) -> Option<&'a String> {
    match label {
        Some(l) => Some(l),
        None => None,
    }
}

/// A loop's frame.
pub open spec fn loop_frame<'a>(
    env: Env<'a>,
    label: &'a Option<String>,
    break_bb: usize,
    continue_bb: usize,
) -> Frame<'a> {
    Frame {
        label: opt_label(label),
        break_bb,
        continue_bb: Some(continue_bb),
        exit_depth: env.exits.len() as usize,
    }
}

/// A collection happens only at safepoints.
pub open spec fn safepoint<'a>(st: St<'a>) -> St<'a> {
    st.rt0("vs_gc_safepoint", None).0
}

pub open spec fn safepoint_if<'a>(st: St<'a>, b: bool) -> St<'a> {
    if b {
        safepoint(st)
    } else {
        st
    }
}

/// Returns the default of the result type.
pub open spec fn default_return<'a>(env: Env<'a>, st: St<'a>) -> St<'a> {
    match default_op_of(env.func.ret) {
        Some(x) => st.term(Cmd::Ret(x)),
        None => st.term(Cmd::RetVoid),
    }
}

pub open spec fn pop_handler<'a>(st: St<'a>) -> St<'a> {
    st.push(Cmd::PopHandler)
}

pub open spec fn throw_box<'a>(st: St<'a>, p: Op) -> St<'a> {
    st.rt1("vs_throw", None, ptr(p)).0.term(Cmd::Unreachable)
}

pub open spec fn setjmp_name(windows: bool) -> &'static str {
    if windows {
        "vs_setjmp"
    } else {
        "_setjmp"
    }
}

/// Evaluates a condition and branches on it.
pub open spec fn branch_on<'a>(env: Env<'a>, st: St<'a>, cond: &'a Expr, t: usize, f: usize) -> St<'a> {
    let (st, v) = expr(env, st, cond);
    let (st, c) = truthy(st, v);
    st.term(Cmd::CondBr(c, t, f))
}

/// Statements `0..n` in order.
pub open spec fn stmts<'a>(env: Env<'a>, st: St<'a>, ss: Seq<Stmt>, n: nat) -> St<'a>
    decreases env.weight() + sizes(ss, n), 2 + n,
{
    if 0 < n <= ss.len() {
        stmt(env, stmts(env, st, ss, (n - 1) as nat), &ss[n - 1])
    } else {
        st
    }
}

/// Runs the cleanup at depth `i`: uninstalls its handler if that is live, then
/// inlines its `finally` block, which sees the cleanups below it only. Where a
/// block has ended with a jump of its own, nothing follows it.
pub open spec fn clean<'a>(env: Env<'a>, st: St<'a>, i: nat) -> St<'a>
    decreases env.weight(), 1 + 2 * i,
{
    if i < env.exits.len() {
        proof {
            lemma_weight_cut(env.exits, i + 1);
        }
        let x = env.exits[i as int];
        let st = if x.pop_handler && st.open {
            pop_handler(st)
        } else {
            st
        };
        match x.finally {
            Some(f) => stmts(env.cut(i as int), st, f@, f@.len()),
            None => st,
        }
    } else {
        st
    }
}

/// Runs the cleanups `d..k`, each once, from the innermost.
pub open spec fn run_exits<'a>(env: Env<'a>, st: St<'a>, d: nat, k: nat) -> St<'a>
    decreases env.weight(), 2 * k,
{
    if d < k <= env.exits.len() {
        run_exits(env, clean(env, st, (k - 1) as nat), d, (k - 1) as nat)
    } else {
        st
    }
}

/// Leaves to depth `d` of the cleanup stack.
pub open spec fn leave<'a>(env: Env<'a>, st: St<'a>, d: nat) -> St<'a>
    decreases env.weight(), 2 * env.exits.len() + 1,
{
    if d <= env.exits.len() {
        run_exits(env, st, d, env.exits.len())
    } else {
        st.fail()
    }
}

pub open spec fn jump<'a>(
    env: Env<'a>,
    st: St<'a>,
    label: &'a Option<String>,
    for_continue: bool,
) -> St<'a>
    decreases env.weight(), 2 * env.exits.len() + 2,
{
    let label = opt_label(label);
    let strays = strays_in(env.frames, env.left, env.frames.len(), label, for_continue);
    let st = leave(
        env,
        st.stray(strays),
        frame_exit_depth_in(env.frames, env.frames.len(), label, for_continue) as nat,
    );
    match find_frame_in(env.frames, env.frames.len(), label, for_continue) {
        Some(target) => st.branch_if_open(target),
        None => st.fail(),
    }
}

pub open spec fn if_stmt<'a>(env: Env<'a>, st: St<'a>, s: &'a Stmt) -> St<'a>
    decreases env.weight() + size(s), 0nat,
{
    match s {
        Stmt::If { cond, then_branch, else_branch } => {
            let (st, cv) = expr(env, st, cond);
            let (st, c) = truthy(st, cv);
            let (st, then_bb) = st.new_block();
            let (st, end_bb) = st.new_block();
            let (st, else_bb) = if else_branch is Some {
                st.new_block()
            } else {
                (st, end_bb)
            };
            let st = st.term(Cmd::CondBr(c, then_bb, else_bb)).at(then_bb);
            let st = stmt(env, st, &**then_branch).branch_if_open(end_bb);
            let st = match else_branch {
                Some(x) => stmt(env, st.at(else_bb), &**x).branch_if_open(end_bb),
                None => st,
            };
            st.at(end_bb)
        },
        _ => st,
    }
}

pub open spec fn while_stmt<'a>(env: Env<'a>, st: St<'a>, s: &'a Stmt) -> St<'a>
    decreases env.weight() + size(s), 0nat,
{
    match s {
        Stmt::While { label, cond, body } => {
            let (st, cond_bb) = st.new_block();
            let (st, body_bb) = st.new_block();
            let (st, end_bb) = st.new_block();
            let st = st.term(Cmd::Br(cond_bb)).at(cond_bb);
            let st = branch_on(env, st, cond, body_bb, end_bb).at(body_bb);
            let st = safepoint_if(st, allocs(cond) || stmt_allocs_directly(&**body));
            let st = stmt(env.in_frame(loop_frame(env, label, end_bb, cond_bb)), st, &**body);
            st.branch_if_open(cond_bb).at(end_bb)
        },
        Stmt::DoWhile { label, body, cond } => {
            let (st, body_bb) = st.new_block();
            let (st, cond_bb) = st.new_block();
            let (st, end_bb) = st.new_block();
            let st = st.term(Cmd::Br(body_bb)).at(body_bb);
            let st = safepoint_if(st, allocs(cond) || stmt_allocs_directly(&**body));
            let st = stmt(env.in_frame(loop_frame(env, label, end_bb, cond_bb)), st, &**body);
            let st = st.branch_if_open(cond_bb).at(cond_bb);
            branch_on(env, st, cond, body_bb, end_bb).at(end_bb)
        },
        _ => st,
    }
}

pub open spec fn for_stmt<'a>(env: Env<'a>, st: St<'a>, s: &'a Stmt) -> St<'a>
    decreases env.weight() + size(s), 0nat,
{
    match s {
        Stmt::For { label, init, cond, update, body } => {
            let (st, cond_bb) = st.new_block();
            let (st, body_bb) = st.new_block();
            let (st, update_bb) = st.new_block();
            let (st, end_bb) = st.new_block();
            let st = match init {
                Some(x) => stmt(env, st, &**x),
                None => st,
            };
            let st = st.branch_if_open(cond_bb).at(cond_bb);
            let st = match cond {
                Some(c) => branch_on(env, st, c, body_bb, end_bb),
                None => st.term(Cmd::Br(body_bb)),
            };
            let st = st.at(body_bb);
            let st = safepoint_if(
                st,
                opt_allocs(*cond) || opt_allocs(*update) || stmt_allocs_directly(&**body),
            );
            let st = stmt(env.in_frame(loop_frame(env, label, end_bb, update_bb)), st, &**body);
            let st = st.branch_if_open(update_bb).at(update_bb);
            let st = match update {
                Some(u) => expr(env, st, u).0,
                None => st,
            };
            st.branch_if_open(cond_bb).at(end_bb)
        },
        _ => st,
    }
}

/// Blocks for the first `n` case bodies.
pub open spec fn case_blocks<'a>(st: St<'a>, n: nat) -> (St<'a>, Seq<usize>)
    decreases n,
{
    if n == 0 {
        (st, Seq::empty())
    } else {
        let (st, bbs) = case_blocks(st, (n - 1) as nat);
        let (st, b) = st.new_block();
        (st, bbs.push(b))
    }
}

/// The first `default` among the first `n` cases.
pub open spec fn default_index(cases: Seq<Case>, n: nat) -> Option<nat>
    decreases n,
{
    if 0 < n <= cases.len() {
        match default_index(cases, (n - 1) as nat) {
            Some(i) => Some(i),
            None => if cases[n - 1].test is None {
                Some((n - 1) as nat)
            } else {
                None
            },
        }
    } else {
        None
    }
}

/// Where the tests fall through to: the first `default` body, else the end.
pub open spec fn default_target(cases: Seq<Case>, bbs: Seq<usize>, end_bb: usize) -> usize {
    match default_index(cases, cases.len()) {
        Some(i) => bbs[i as int],
        None => end_bb,
    }
}

/// The tests of the first `n` cases, in source order, by strict equality.
pub open spec fn case_tests<'a>(
    env: Env<'a>,
    st: St<'a>,
    scrut: Val,
    cases: Seq<Case>,
    bbs: Seq<usize>,
    n: nat,
) -> St<'a>
    decreases n,
{
    if 0 < n <= cases.len() {
        let st = case_tests(env, st, scrut, cases, bbs, (n - 1) as nat);
        match &cases[n - 1].test {
            Some(t) => {
                let (st, next) = st.new_block();
                let (st, v) = expr(env, st, t);
                let (st, eq) = strict_equals(st, scrut, v);
                st.term(Cmd::CondBr(eq, bbs[n - 1], next)).at(next)
            },
            None => st,
        }
    } else {
        st
    }
}

/// The first `n` case bodies; each falls through into the next.
pub open spec fn case_bodies<'a>(
    env: Env<'a>,
    st: St<'a>,
    cases: Seq<Case>,
    bbs: Seq<usize>,
    end_bb: usize,
    n: nat,
) -> St<'a>
    decreases env.weight() + case_sizes(cases, n), 2 + n,
{
    if 0 < n <= cases.len() {
        let st = case_bodies(env, st, cases, bbs, end_bb, (n - 1) as nat).at(bbs[n - 1]);
        let st = stmts(env, st, cases[n - 1].body@, cases[n - 1].body@.len());
        st.branch_if_open(
            if n < bbs.len() {
                bbs[n as int]
            } else {
                end_bb
            },
        )
    } else {
        st
    }
}

pub open spec fn switch_frame<'a>(env: Env<'a>, end_bb: usize) -> Frame<'a> {
    Frame {
        label: None,
        break_bb: end_bb,
        continue_bb: None,
        exit_depth: env.exits.len() as usize,
    }
}

pub open spec fn switch_stmt<'a>(env: Env<'a>, st: St<'a>, s: &'a Stmt) -> St<'a>
    decreases env.weight() + size(s), 0nat,
{
    match s {
        Stmt::Switch { scrutinee, cases } => {
            let (st, scrut) = expr(env, st, scrutinee);
            let (st, end_bb) = st.new_block();
            let (st, bbs) = case_blocks(st, cases@.len());
            let target = default_target(cases@, bbs, end_bb);
            let st = case_tests(env, st, scrut, cases@, bbs, cases@.len());
            let st = st.term(Cmd::Br(target));
            let st = case_bodies(
                env.in_frame(switch_frame(env, end_bb)),
                st,
                cases@,
                bbs,
                end_bb,
                cases@.len(),
            );
            st.at(end_bb)
        },
        _ => st,
    }
}

/// The `finally` block, inlined.
pub open spec fn finally_block<'a>(env: Env<'a>, st: St<'a>, finally: &'a Option<Vec<Stmt>>) -> St<'a>
    decreases env.weight() + block_size(*finally), 2nat,
{
    match finally {
        Some(f) => stmts(env, st, f@, f@.len()),
        None => st,
    }
}

pub open spec fn opt_block<'a>(finally: &'a Option<Vec<Stmt>>) -> Option<&'a Vec<Stmt>> {
    match finally {
        Some(f) => Some(f),
        None => None,
    }
}

/// The first `n` catch clauses up to a catch-all; and whether one was met.
pub open spec fn catch_clauses<'a>(
    env: Env<'a>,
    st: St<'a>,
    exc: Op,
    end_bb: usize,
    catches: Seq<Catch>,
    finally: &'a Option<Vec<Stmt>>,
    n: nat,
) -> (St<'a>, bool)
    decreases env.weight() + 2 + catch_sizes(catches, n) + block_size(*finally), n,
{
    if 0 < n <= catches.len() {
        proof {
            lemma_weight_push(
                env.exits,
                ExitAction { pop_handler: false, finally: opt_block(finally) },
            );
        }
        let (st, done) = catch_clauses(env, st, exc, end_bb, catches, finally, (n - 1) as nat);
        let c = catches[n - 1];
        if done {
            (st, true)
        } else {
            match slot_at(env.locals, c.binding) {
                None => (st.fail(), false),
                Some(slot) => {
                    let all = slot.ty == Ty::Any;
                    let (st, body_bb) = st.new_block();
                    let (st, next_bb) = st.new_block();
                    let st = if all {
                        st.term(Cmd::Br(body_bb))
                    } else {
                        let (st, m) = is_test(st, exc, slot.ty);
                        st.term(Cmd::CondBr(m, body_bb, next_bb))
                    };
                    let (st, bound) = unbox(st.at(body_bb), exc, slot.ty);
                    let st = store_local(env, st, c.binding, bound);
                    let st = stmts(
                        env.with_exit(
                            ExitAction { pop_handler: false, finally: opt_block(finally) },
                        ),
                        st,
                        c.body@,
                        c.body@.len(),
                    );
                    let st = if st.open {
                        finally_block(env, st, finally).branch_if_open(end_bb)
                    } else {
                        st
                    };
                    (st.at(next_bb), all)
                },
            }
        }
    } else {
        (st, false)
    }
}

/// `try`: a handler is installed around the body; a throw comes back to the
/// dispatch block, where the catch clauses are tried in order and `finally`
/// runs before the exception goes on.
pub open spec fn try_stmt<'a>(env: Env<'a>, st: St<'a>, s: &'a Stmt) -> St<'a>
    decreases env.weight() + size(s), 0nat,
{
    match s {
        Stmt::Try { body, catches, finally } => {
            proof {
                let action = ExitAction { pop_handler: true, finally: opt_block(finally) };
                lemma_weight_push(env.exits, action);
                assert(exit_size(action) <= 1 + block_size(*finally));
                assert(size(s) == 3 + sizes(body@, body@.len()) + catch_sizes(
                    catches@,
                    catches@.len(),
                ) + block_size(*finally));
            }
            let (st, buf) = st.val(Cmd::Alloca(LTy::I8, 512));
            let (st, r) = st.arg(ptr(buf)).val(
                Cmd::CallTwice(setjmp_name(env.windows), Some(LTy::I32)),
            );
            let (st, body_bb) = st.new_block();
            let (st, dispatch_bb) = st.new_block();
            let (st, end_bb) = st.new_block();
            let (st, first) = st.val(Cmd::ICmp(IntPred::EQ, r, Op::I32(0)));
            let st = st.term(Cmd::CondBr(first, body_bb, dispatch_bb)).at(body_bb);
            let st = st.push(Cmd::PushHandler(buf));
            let st = stmts(
                env.with_exit(ExitAction { pop_handler: true, finally: opt_block(finally) }),
                st,
                body@,
                body@.len(),
            );
            let st = if st.open {
                finally_block(env, pop_handler(st), finally).branch_if_open(end_bb)
            } else {
                st
            };
            let st = st.at(dispatch_bb);
            let (st, exc) = st.val(Cmd::Alloca(LTy::Any, 1));
            let (st, _) = st.rt1("vs_take_exception", None, ptr(exc));
            let (st, all) = catch_clauses(env, st, exc, end_bb, catches@, finally, catches@.len());
            let st = if !all {
                let st = finally_block(env, st, finally);
                if st.open {
                    throw_box(st, exc)
                } else {
                    st
                }
            } else if st.open {
                st.term(Cmd::Unreachable)
            } else {
                st
            };
            st.at(end_bb)
        },
        _ => st,
    }
}

pub open spec fn return_stmt<'a>(env: Env<'a>, st: St<'a>, value: &'a Option<Expr>) -> St<'a>
    decreases env.weight(), 2 * env.exits.len() + 2,
{
    match value {
        // The value is computed before the cleanups run.
        Some(e) => {
            let (st, v) = expr(env, st, e);
            let st = leave(env, st, 0);
            if st.open {
                let (st, x) = materialize(st, v);
                st.term(Cmd::Ret(x))
            } else {
                st
            }
        },
        None => {
            let st = leave(env, st, 0);
            if st.open {
                default_return(env, st)
            } else {
                st
            }
        },
    }
}

/// The code of a statement; a statement that cannot be reached has none.
pub open spec fn stmt<'a>(env: Env<'a>, st: St<'a>, s: &'a Stmt) -> St<'a>
    decreases env.weight() + size(s), 1nat,
{
    if !st.open {
        st
    } else {
        match s {
            Stmt::Expr(e) => expr(env, st, e).0,
            Stmt::Assign(local, e) => {
                let (st, v) = expr(env, st, e);
                store_local(env, st, *local, v)
            },
            Stmt::Block(b) => stmts(env, st, b@, b@.len()),
            Stmt::If { .. } => if_stmt(env, st, s),
            Stmt::While { .. } | Stmt::DoWhile { .. } => while_stmt(env, st, s),
            Stmt::For { .. } => for_stmt(env, st, s),
            Stmt::Switch { .. } => switch_stmt(env, st, s),
            Stmt::Break { label } => jump(env, st, label, false),
            Stmt::Continue { label } => jump(env, st, label, true),
            Stmt::Return { value } => return_stmt(env, st, value),
            Stmt::Throw(e) => {
                let (st, v) = expr(env, st, e);
                let (st, p) = box_value(st, v);
                let st = throw_box(st, p);
                let (st, dead) = st.new_block();
                st.at(dead)
            },
            Stmt::Try { .. } => try_stmt(env, st, s),
            Stmt::Empty => st,
        }
    }
}

// --- order of the code -------------------------------------------------------------------

/// What a statement does to the order of the code: it enters blocks of its own
/// only, and where it is `given` what it needs, it keeps the order.
pub open spec fn runs(a: St, b: St, given: bool) -> bool {
    own(a, b) && (given && neat(a) ==> neat(b))
}

pub open spec fn all_unentered(st: St, bbs: Seq<usize>) -> bool {
    forall|i: int| 0 <= i < bbs.len() ==> unentered(st, #[trigger] bbs[i])
}

/// The blocks are entered with `n` handlers.
pub open spec fn all_entry(st: St, bbs: Seq<usize>, n: int) -> bool {
    forall|i: int| 0 <= i < bbs.len() ==> entry(st, #[trigger] bbs[i], n)
}

// --- emission --------------------------------------------------------------------------

fn some_label<'a>(label: &'a Option<String>) -> (r: Option<&'a String>)
    ensures
        r == opt_label(label),
{
    match label {
        Some(l) => Some(l),
        None => None,
    }
}

fn some_block<'a>(finally: &'a Option<Vec<Stmt>>) -> (r: Option<&'a Vec<Stmt>>)
    ensures
        r == opt_block(finally),
{
    match finally {
        Some(f) => Some(f),
        None => None,
    }
}

fn frame_matches<'a>(frame: &Frame<'a>, label: Option<&'a String>) -> (r: bool)
    ensures
        r == label_matches(*frame, label),
{
    match label {
        Some(l) => match frame.label {
            Some(m) => *m == *l,
            None => false,
        },
        None => true,
    }
}

/// The index of the first `default`.
fn first_default(cases: &Vec<Case>) -> (r: Option<usize>)
    ensures
        match r {
            Some(i) => default_index(cases@, cases@.len()) == Some(i as nat) && i < cases@.len(),
            None => default_index(cases@, cases@.len()) is None,
        },
{
    let mut r: Option<usize> = None;
    let mut k: usize = 0;
    while k < cases.len()
        invariant
            k <= cases@.len(),
            match r {
                Some(i) => default_index(cases@, k as nat) == Some(i as nat) && i < cases@.len(),
                None => default_index(cases@, k as nat) is None,
            },
        decreases cases@.len() - k,
    {
        if r.is_none() && cases[k].test.is_none() {
            r = Some(k);
        }
        k = k + 1;
    }
    r
}

impl<'a> FnCx<'a> {
    /// The block that a jump goes to.
    fn find_frame(&self, label: Option<&'a String>, for_continue: bool) -> (r: Option<usize>)
        ensures
            r == find_frame_in(self.frames@, self.frames@.len(), label, for_continue),
    {
        let mut k: usize = self.frames.len();
        while k > 0
            invariant
                k <= self.frames@.len(),
                find_frame_in(self.frames@, self.frames@.len(), label, for_continue)
                    == find_frame_in(self.frames@, k as nat, label, for_continue),
            decreases k,
        {
            k = k - 1;
            let f = &self.frames[k];
            if frame_matches(f, label) {
                if for_continue {
                    if let Some(c) = f.continue_bb {
                        return Some(c);
                    }
                } else {
                    return Some(f.break_bb);
                }
            }
        }
        None
    }

    /// The depth of the cleanup stack that a jump leaves to.
    fn frame_exit_depth(&self, label: Option<&'a String>, for_continue: bool) -> (r: usize)
        ensures
            r == frame_exit_depth_in(self.frames@, self.frames@.len(), label, for_continue),
    {
        let mut k: usize = self.frames.len();
        while k > 0
            invariant
                k <= self.frames@.len(),
                frame_exit_depth_in(self.frames@, self.frames@.len(), label, for_continue)
                    == frame_exit_depth_in(self.frames@, k as nat, label, for_continue),
            decreases k,
        {
            k = k - 1;
            let f = &self.frames[k];
            if frame_matches(f, label) && !(for_continue && f.continue_bb.is_none()
                && label.is_none()) {
                return f.exit_depth;
            }
        }
        0
    }

    fn emit_safepoint(&mut self)
        ensures
            final(self).env() == old(self).env(),
            final(self).st() == safepoint(old(self).st()),
            step(
                old(self).st(),
                final(self).st(),
                true,
                true,
            ),
    {
        self.rt0("vs_gc_safepoint", None);
    }

    fn default_return(&mut self)
        ensures
            final(self).env() == old(self).env(),
            final(self).st() == default_return(old(self).env(), old(self).st()),
            part(
                old(self).st(),
                final(self).st(),
                true,
                true,
            ),
            runs(old(self).st(), final(self).st(), old(self).st().open),
            even(old(self).st()) && height(old(self).st()) == 0 ==> even(final(self).st()),
    {
        match default_op(self.func.ret) {
            Some(x) => self.term(Cmd::Ret(x)),
            None => self.term(Cmd::RetVoid),
        }
    }

    fn pop_handler(&mut self)
        ensures
            final(self).env() == old(self).env(),
            final(self).st() == pop_handler(old(self).st()),
            part(
                old(self).st(),
                final(self).st(),
                true,
                true,
            ),
            runs(old(self).st(), final(self).st(), old(self).st().open),
            height(final(self).st()) == height(old(self).st()) - 1,
            even(old(self).st()) && height(old(self).st()) > 0 ==> even(final(self).st()),
    {
        self.emit(Cmd::PopHandler);
    }

    fn throw_box(&mut self, p: Op)
        ensures
            final(self).env() == old(self).env(),
            final(self).st() == throw_box(old(self).st(), p),
            part(
                old(self).st(),
                final(self).st(),
                has(old(self).st(), p),
                true,
            ),
            runs(old(self).st(), final(self).st(), old(self).st().open),
            level_with(old(self).st(), final(self).st()),
    {
        self.rt1("vs_throw", None, (LTy::Ptr, p));
        self.term(Cmd::Unreachable);
    }

    fn branch_on(&mut self, cond: &'a Expr, t: usize, f: usize)
        ensures
            final(self).env() == old(self).env(),
            final(self).st() == branch_on(old(self).env(), old(self).st(), cond, t, f),
            part(
                old(self).st(),
                final(self).st(),
                env_has(old(self).env(), old(self).st()) && has_block(old(self).st(), t) && has_block(old(self).st(), f),
                true,
            ),
            runs(old(self).st(), final(self).st(), old(self).st().open),
            height(final(self).st()) == height(old(self).st()),
            even(old(self).st()) && entry(old(self).st(), t, height(old(self).st())) && entry(
                old(self).st(),
                f,
                height(old(self).st()),
            ) ==> even(final(self).st()),
            ({
                let (c1, v) = expr(old(self).env(), old(self).st(), cond);
                let (c2, c) = truthy(c1, v);
                grows(old(self).st(), c2) && final(self).st().code == c2.code.push(
                    Cmd::CondBr(c, t, f),
                )
            }),
    {
        let v = self.expr(cond);
        let c = self.truthy(v);
        self.term(Cmd::CondBr(c, t, f));
    }

    fn push_loop(&mut self, label: &'a Option<String>, break_bb: usize, continue_bb: usize)
        ensures
            final(self).env() == old(self).env().in_frame(
                loop_frame(old(self).env(), label, break_bb, continue_bb),
            ),
            final(self).st() == old(self).st(),
            old(self).env().exits.len() <= usize::MAX,
    {
        let depth: usize = self.exits.len();
        self.frames.push(
            Frame {
                label: some_label(label),
                break_bb,
                continue_bb: Some(continue_bb),
                exit_depth: depth,
            },
        );
        self.left = Ghost(self.left@.push(false));
    }

    fn pop_frame(&mut self, Ghost(outer): Ghost<Env<'a>>, Ghost(f): Ghost<Frame<'a>>)
        requires
            old(self).env() == outer.in_frame(f),
        ensures
            final(self).env() == outer,
            final(self).st() == old(self).st(),
    {
        self.frames.pop();
        self.left = Ghost(outer.left);
        assert(self.frames@ =~= outer.frames);
    }

    fn pop_exit(&mut self, Ghost(outer): Ghost<Env<'a>>, Ghost(x): Ghost<ExitAction<'a>>)
        requires
            old(self).env() == outer.with_exit(x),
        ensures
            final(self).env() == outer,
            final(self).st() == old(self).st(),
    {
        self.exits.pop();
        assert(self.exits@ =~= outer.exits);
    }

    /// Emits the statements in order.
    pub fn stmts(&mut self, ss: &'a Vec<Stmt>)
        ensures
            final(self).env() == old(self).env(),
            final(self).st() == stmts(old(self).env(), old(self).st(), ss@, ss@.len()),
            part(
                old(self).st(),
                final(self).st(),
                env_has(old(self).env(), old(self).st()),
                true,
            ),
            runs(old(self).st(), final(self).st(), true),
            keeps(old(self).env(), old(self).st(), final(self).st(), true),
            follows_all(old(self).env(), old(self).st(), final(self).st(), ss@, ss@.len()),
        decreases old(self).env().weight() + sizes(ss@, ss@.len()), 2 + ss@.len(),
    {
        let ghost env0 = self.env();
        let ghost st0 = self.st();
        let mut k: usize = 0;
        proof {
            lemma_list_starts(env0, st0, ss@);
        }
        while k < ss.len()
            invariant
                k <= ss@.len(),
                self.env() == env0,
                env0 == old(self).env(),
                self.st() == stmts(env0, st0, ss@, k as nat),
                env0 == old(self).env(),
                part(old(self).st(), self.st(), env_has(old(self).env(), old(self).st()), true),
                runs(old(self).st(), self.st(), true),
                keeps(env0, old(self).st(), self.st(), true),
                follows_all(env0, old(self).st(), self.st(), ss@, k as nat),
            decreases ss@.len() - k,
        {
            proof {
                lemma_sizes_bound(ss@, k as nat, ss@.len());
            }
            let ghost before = self.st();
            self.stmt(&ss[k]);
            proof {
                lemma_list_follows(env0, old(self).st(), before, self.st(), ss@, (k + 1) as nat);
            }
            k = k + 1;
        }
    }

    fn leave(&mut self, d: usize)
        ensures
            final(self).env() == old(self).env(),
            final(self).st() == leave(old(self).env(), old(self).st(), d as nat),
            part(
                old(self).st(),
                final(self).st(),
                env_has(old(self).env(), old(self).st()),
                true,
            ),
            runs(old(self).st(), final(self).st(), old(self).st().open),
            level_start(old(self).env(), old(self).st()) && final(self).st().ok
                && !final(self).st().astray ==> even(final(self).st()) && (final(self).st().open
                ==> height(final(self).st()) == live(old(self).env().exits, d as nat)),
        decreases old(self).env().weight(), 2 * old(self).env().exits.len() + 1,
    {
        let ghost env0 = self.env();
        let ghost st0 = self.st();
        let total: usize = self.exits.len();
        if d > total {
            self.fail();
            return;
        }
        assert(env0.exits.take(total as int) =~= env0.exits);
        let ghost fits = level_start(env0, st0);
        let mut taken: Vec<ExitAction<'a>> = Vec::new();
        while self.exits.len() > d
            invariant
                d <= self.exits@.len() <= total,
                total == env0.exits.len(),
                env0 == old(self).env(),
                self.env() == (Env { exits: env0.exits.take(self.exits@.len() as int), ..env0 }),
                taken@.len() == total - self.exits@.len(),
                forall|i: int|
                    0 <= i < taken@.len() ==> #[trigger] taken@[i] == env0.exits[total - 1 - i],
                run_exits(env0, st0, d as nat, total as nat) == run_exits(
                    env0,
                    self.st(),
                    d as nat,
                    self.exits@.len(),
                ),
                part(old(self).st(), self.st(), env_has(old(self).env(), old(self).st()), true),
                runs(old(self).st(), self.st(), old(self).st().open),
                st0 == old(self).st(),
                fits == level_start(env0, st0),
                fits && self.st().ok && !self.st().astray ==> even(self.st()) && (self.st().open
                    ==> height(self.st()) == live(env0.exits, self.exits@.len())),
            decreases self.exits@.len(),
        {
            proof {
                lemma_weight_cut(env0.exits, self.exits@.len());
            }
            let ghost k = self.exits@.len();
            let ghost before = self.st();
            if let Some(x) = self.exits.pop() {
                assert(x == env0.exits[k - 1]);
                assert(self.exits@ =~= env0.exits.take(k - 1));
                let ghost below = env0.cut(k - 1);
                self.left = Ghost(below.left);
                if x.pop_handler && self.open {
                    self.pop_handler();
                }
                proof {
                    if fits {
                        lemma_cut(env0, self.st(), (k - 1) as nat);
                    }
                }
                if let Some(f) = x.finally {
                    self.stmts(f);
                }
                self.left = Ghost(env0.left);
                assert(self.st() == clean(env0, before, (k - 1) as nat));
                taken.push(x);
            }
        }
        while taken.len() > 0
            invariant
                self.exits@.len() + taken@.len() == total,
                total == env0.exits.len(),
                self.env() == (Env { exits: env0.exits.take(self.exits@.len() as int), ..env0 }),
                forall|i: int|
                    0 <= i < taken@.len() ==> #[trigger] taken@[i] == env0.exits[total - 1 - i],
                self.st() == run_exits(env0, st0, d as nat, total as nat),
                part(old(self).st(), self.st(), env_has(old(self).env(), old(self).st()), true),
                runs(old(self).st(), self.st(), old(self).st().open),
                fits && self.st().ok && !self.st().astray ==> even(self.st()) && (self.st().open
                    ==> height(self.st()) == live(env0.exits, d as nat)),
            decreases taken@.len(),
        {
            let ghost n = self.exits@.len() as int;
            if let Some(x) = taken.pop() {
                assert(x == env0.exits[n]);
                self.exits.push(x);
                assert(self.exits@ =~= env0.exits.take(n + 1));
            }
        }
        assert(self.exits@ =~= env0.exits);
    }

    fn jump(&mut self, label: &'a Option<String>, for_continue: bool)
        ensures
            final(self).env() == old(self).env(),
            final(self).st() == jump(old(self).env(), old(self).st(), label, for_continue),
            part(
                old(self).st(),
                final(self).st(),
                env_has(old(self).env(), old(self).st()),
                true,
            ),
            runs(old(self).st(), final(self).st(), old(self).st().open),
            keeps(old(self).env(), old(self).st(), final(self).st(), old(self).st().open),
            follows(
                old(self).env(),
                old(self).st(),
                final(self).st(),
                if for_continue {
                    Stmt::Continue { label: *label }
                } else {
                    Stmt::Break { label: *label }
                },
            ),
        decreases old(self).env().weight(), 2 * old(self).env().exits.len() + 2,
    {
        let ghost wanted = label;
        let label = some_label(label);
        let ghost strays = strays_in(
            self.frames@,
            self.left@,
            self.frames@.len(),
            label,
            for_continue,
        );
        self.stray(Ghost(strays));
        let depth: usize = self.frame_exit_depth(label, for_continue);
        self.leave(depth);
        proof {
            if env_has(self.env(), self.st()) {
                lemma_found_frame(
                    self.env(),
                    self.st(),
                    self.frames@.len(),
                    label,
                    for_continue,
                );
            }
        }
        proof {
            if level_start(old(self).env(), old(self).st()) && !strays {
                lemma_target(self.env(), self.st(), self.frames@.len(), label, for_continue);
            }
        }
        match self.find_frame(label, for_continue) {
            Some(target) => self.branch_if_open(target),
            None => self.fail(),
        }
        proof {
            let a = old(self).st();
            lemma_goal_found(self.frames@, self.frames@.len(), label, for_continue);
            lemma_jump_follows(
                old(self).env(),
                a,
                self.st(),
                if for_continue {
                    Stmt::Continue { label: *wanted }
                } else {
                    Stmt::Break { label: *wanted }
                },
            );
        }
    }

    fn if_stmt(&mut self, s: &'a Stmt)
        ensures
            final(self).env() == old(self).env(),
            final(self).st() == if_stmt(old(self).env(), old(self).st(), s),
            part(
                old(self).st(),
                final(self).st(),
                env_has(old(self).env(), old(self).st()),
                true,
            ),
            runs(old(self).st(), final(self).st(), old(self).st().open),
            keeps(old(self).env(), old(self).st(), final(self).st(), old(self).st().open),
            s is If ==> follows(old(self).env(), old(self).st(), final(self).st(), *s),
        decreases old(self).env().weight() + size(s), 0nat,
    {
        let ghost env0 = self.env();
        let ghost st0 = self.st();
        match s {
            Stmt::If { cond, then_branch, else_branch } => {
                let cv = self.expr(cond);
                let c = self.truthy(cv);
                let ghost tested = self.st();
                let then_bb: usize = self.new_block();
                let end_bb: usize = self.new_block();
                let else_bb: usize = match else_branch {
                    Some(_) => self.new_block(),
                    None => end_bb,
                };
                let ghost made = self.st();
                self.term(Cmd::CondBr(c, then_bb, else_bb));
                self.at(then_bb);
                let ghost yes = self.st();
                self.stmt(then_branch);
                let ghost yes_end = self.st();
                let ghost mut no = yes;
                let ghost mut no_end = yes;
                self.branch_if_open(end_bb);
                let ghost rest = self.st();
                if let Some(x) = else_branch {
                    self.at(else_bb);
                    proof {
                        no = self.st();
                    }
                    self.stmt(x);
                    proof {
                        no_end = self.st();
                    }
                    self.branch_if_open(end_bb);
                }
                self.at(end_bb);
                proof {
                    let x = IfLayout {
                        tested,
                        made,
                        yes,
                        yes_end,
                        no,
                        no_end,
                        then_bb,
                        else_bb,
                        end_bb,
                        op: c,
                    };
                    let b = self.st();
                    assert forall|k: int| tested.code.len() <= k < made.code.len() implies
                        #[trigger] made.code[k] is NewBlock by {}
                    if yes_end.open {
                        lemma_grown(rest, b, yes_end.code.len() as int);
                    }
                    if else_branch is Some && no_end.open {
                        assert(b.code[no_end.code.len() as int] == Cmd::Br(end_bb));
                    }
                    assert(if_laid(env0, st0, b, cond, else_branch is Some, x));
                    lemma_if_follows(env0, st0, self.st(), cond, *s, x);
                }
            },
            _ => {},
        }
    }

    fn while_stmt(&mut self, s: &'a Stmt)
        ensures
            final(self).env() == old(self).env(),
            final(self).st() == while_stmt(old(self).env(), old(self).st(), s),
            part(
                old(self).st(),
                final(self).st(),
                env_has(old(self).env(), old(self).st()),
                true,
            ),
            runs(old(self).st(), final(self).st(), old(self).st().open),
            keeps(old(self).env(), old(self).st(), final(self).st(), old(self).st().open),
            s is While || s is DoWhile ==> follows(
                old(self).env(),
                old(self).st(),
                final(self).st(),
                *s,
            ),
        decreases old(self).env().weight() + size(s), 0nat,
    {
        let ghost env0 = self.env();
        let ghost st0 = self.st();
        match s {
            Stmt::While { label, cond, body } => {
                let cond_bb: usize = self.new_block();
                let body_bb: usize = self.new_block();
                let end_bb: usize = self.new_block();
                let ghost made = self.st();
                self.term(Cmd::Br(cond_bb));
                self.at(cond_bb);
                let ghost head = self.st();
                self.branch_on(cond, body_bb, end_bb);
                self.at(body_bb);
                let ghost inside = self.st();
                if expr_allocs(cond) || stmt_allocs(body) {
                    self.emit_safepoint();
                }
                self.push_loop(label, end_bb, cond_bb);
                proof {
                    if level_start(env0, st0) && st0.open {
                        lemma_in_frame(
                            env0,
                            self.st(),
                            loop_frame(env0, label, end_bb, cond_bb),
                        );
                    }
                }
                let ghost start = self.st();
                self.stmt(body);
                let ghost finish = self.st();
                self.pop_frame(Ghost(env0), Ghost(loop_frame(env0, label, end_bb, cond_bb)));
                self.branch_if_open(cond_bb);
                let ghost rest = self.st();
                self.at(end_bb);
                proof {
                    let (c1, v) = expr(env0, head, cond);
                    let (tested, op) = truthy(c1, v);
                    let x = LoopLayout {
                        made,
                        begun: made,
                        head,
                        tested,
                        op,
                        inside,
                        start,
                        finish,
                        next: head,
                        stepped: head,
                        rest,
                        cond_bb,
                        body_bb,
                        update_bb: cond_bb,
                        end_bb,
                    };
                    assert(only_blocks(st0, made)) by {
                        reveal(grows);
                    }
                    assert(while_laid(env0, st0, self.st(), cond, x));
                    let f = loop_frame(env0, label, end_bb, cond_bb);
                    lemma_while_follows(env0, f, st0, self.st(), cond, *s, x);
                }
            },
            Stmt::DoWhile { label, body, cond } => {
                let body_bb: usize = self.new_block();
                let cond_bb: usize = self.new_block();
                let end_bb: usize = self.new_block();
                let ghost made = self.st();
                self.term(Cmd::Br(body_bb));
                self.at(body_bb);
                let ghost inside = self.st();
                if expr_allocs(cond) || stmt_allocs(body) {
                    self.emit_safepoint();
                }
                self.push_loop(label, end_bb, cond_bb);
                proof {
                    if level_start(env0, st0) && st0.open {
                        lemma_in_frame(
                            env0,
                            self.st(),
                            loop_frame(env0, label, end_bb, cond_bb),
                        );
                    }
                }
                let ghost start = self.st();
                self.stmt(body);
                let ghost finish = self.st();
                self.pop_frame(Ghost(env0), Ghost(loop_frame(env0, label, end_bb, cond_bb)));
                self.branch_if_open(cond_bb);
                let ghost rest = self.st();
                self.at(cond_bb);
                let ghost head = self.st();
                self.branch_on(cond, body_bb, end_bb);
                self.at(end_bb);
                proof {
                    let (c1, v) = expr(env0, head, cond);
                    let (tested, op) = truthy(c1, v);
                    let x = LoopLayout {
                        made,
                        begun: made,
                        head,
                        tested,
                        op,
                        inside,
                        start,
                        finish,
                        next: head,
                        stepped: head,
                        rest,
                        cond_bb,
                        body_bb,
                        update_bb: cond_bb,
                        end_bb,
                    };
                    assert(only_blocks(st0, made)) by {
                        reveal(grows);
                    }
                    assert(do_laid(env0, st0, self.st(), cond, x));
                    let f = loop_frame(env0, label, end_bb, cond_bb);
                    lemma_do_follows(env0, f, st0, self.st(), cond, *s, x);
                }
            },
            _ => {},
        }
    }

    fn for_stmt(&mut self, s: &'a Stmt)
        ensures
            final(self).env() == old(self).env(),
            final(self).st() == for_stmt(old(self).env(), old(self).st(), s),
            part(
                old(self).st(),
                final(self).st(),
                env_has(old(self).env(), old(self).st()),
                true,
            ),
            runs(old(self).st(), final(self).st(), old(self).st().open),
            keeps(old(self).env(), old(self).st(), final(self).st(), old(self).st().open),
            s is For ==> follows(old(self).env(), old(self).st(), final(self).st(), *s),
        decreases old(self).env().weight() + size(s), 0nat,
    {
        let ghost env0 = self.env();
        let ghost st0 = self.st();
        match s {
            Stmt::For { label, init, cond, update, body } => {
                let cond_bb: usize = self.new_block();
                let body_bb: usize = self.new_block();
                let update_bb: usize = self.new_block();
                let end_bb: usize = self.new_block();
                let ghost made = self.st();
                if let Some(x) = init {
                    self.stmt(x);
                }
                let ghost begun = self.st();
                self.branch_if_open(cond_bb);
                let ghost rest = self.st();
                self.at(cond_bb);
                let ghost head = self.st();
                let mut debt = false;
                match cond {
                    Some(c) => {
                        self.branch_on(c, body_bb, end_bb);
                        debt = expr_allocs(c);
                    },
                    None => self.term(Cmd::Br(body_bb)),
                }
                self.at(body_bb);
                let ghost inside = self.st();
                if let Some(u) = update {
                    debt = debt || expr_allocs(u);
                }
                if debt || stmt_allocs(body) {
                    self.emit_safepoint();
                }
                self.push_loop(label, end_bb, update_bb);
                proof {
                    if level_start(env0, st0) && st0.open {
                        lemma_in_frame(
                            env0,
                            self.st(),
                            loop_frame(env0, label, end_bb, update_bb),
                        );
                    }
                }
                let ghost start = self.st();
                self.stmt(body);
                let ghost finish = self.st();
                self.pop_frame(Ghost(env0), Ghost(loop_frame(env0, label, end_bb, update_bb)));
                self.branch_if_open(update_bb);
                self.at(update_bb);
                let ghost next = self.st();
                if let Some(u) = update {
                    self.expr(u);
                }
                let ghost stepped = self.st();
                self.branch_if_open(cond_bb);
                self.at(end_bb);
                proof {
                    let (tested, op) = match cond {
                        Some(c) => {
                            let (c1, v) = expr(env0, head, c);
                            truthy(c1, v)
                        },
                        None => (head, Op::Null),
                    };
                    let x = LoopLayout {
                        made,
                        begun,
                        head,
                        tested,
                        op,
                        inside,
                        start,
                        finish,
                        next,
                        stepped,
                        rest,
                        cond_bb,
                        body_bb,
                        update_bb,
                        end_bb,
                    };
                    assert(only_blocks(st0, made)) by {
                        reveal(grows);
                    }
                    if neat(st0) && st0.open {
                        assert(for_laid(env0, st0, self.st(), cond, update, x));
                    }
                    let f = loop_frame(env0, label, end_bb, update_bb);
                    lemma_for_follows(env0, f, st0, self.st(), cond, update, *s, x);
                }
            },
            _ => {},
        }
    }

    fn case_blocks(&mut self, n: usize) -> (r: Vec<usize>)
        ensures
            final(self).env() == old(self).env(),
            (final(self).st(), r@) == case_blocks(old(self).st(), n as nat),
            r@.len() == n,
            step(
                old(self).st(),
                final(self).st(),
                true,
                has_blocks(final(self).st(), r@),
            ),
            forall|i: int| 0 <= i < n ==> #[trigger] r@[i] == old(self).st().code.len() + i,
            neat(old(self).st()) && old(self).st().open ==> all_unentered(final(self).st(), r@),
            all_entry(final(self).st(), r@, height(old(self).st())),
    {
        let ghost env0 = self.env();
        let ghost st0 = self.st();
        let mut bbs: Vec<usize> = Vec::new();
        let mut k: usize = 0;
        while k < n
            invariant
                k <= n,
                bbs@.len() == k,
                self.env() == env0,
                (self.st(), bbs@) == case_blocks(st0, k as nat),
                env0 == old(self).env(),
                step(old(self).st(), self.st(), true, has_blocks(self.st(), bbs@)),
                self.st().code.len() == st0.code.len() + k,
                forall|i: int| 0 <= i < k ==> #[trigger] bbs@[i] == st0.code.len() + i,
                st0 == old(self).st(),
                neat(st0) && st0.open ==> all_unentered(self.st(), bbs@),
                all_entry(self.st(), bbs@, height(st0)),
            decreases n - k,
        {
            let b: usize = self.new_block();
            bbs.push(b);
            k = k + 1;
        }
        bbs
    }

    fn case_tests(&mut self, scrut: Val, cases: &'a Vec<Case>, bbs: &Vec<usize>)
        requires
            bbs@.len() == cases@.len(),
        ensures
            final(self).env() == old(self).env(),
            final(self).st() == case_tests(
                old(self).env(),
                old(self).st(),
                scrut,
                cases@,
                bbs@,
                cases@.len(),
            ),
            part(
                old(self).st(),
                final(self).st(),
                env_has(old(self).env(), old(self).st()) && has_val(old(self).st(), scrut) && has_blocks(old(self).st(), bbs@),
                true,
            ),
            runs(old(self).st(), final(self).st(), old(self).st().open),
            old(self).st().open ==> final(self).st().open,
            height(final(self).st()) == height(old(self).st()),
            even(old(self).st()) && all_entry(old(self).st(), bbs@, height(old(self).st())) ==> even(
                final(self).st(),
            ),
            tries(old(self).st(), final(self).st(), scrut, cases@, bbs@, cases@.len()),
    {
        let ghost env0 = self.env();
        let ghost st0 = self.st();
        let mut k: usize = 0;
        proof {
            lemma_tries_none(st0, scrut, cases@, bbs@);
        }
        while k < cases.len()
            invariant
                k <= cases@.len(),
                bbs@.len() == cases@.len(),
                self.env() == env0,
                self.st() == case_tests(env0, st0, scrut, cases@, bbs@, k as nat),
                env0 == old(self).env(),
                part(old(self).st(), self.st(), env_has(old(self).env(), old(self).st()) && has_val(old(self).st(), scrut) && has_blocks(old(self).st(), bbs@), true),
                runs(old(self).st(), self.st(), old(self).st().open),
                old(self).st().open ==> self.st().open,
                height(self.st()) == height(old(self).st()),
                even(old(self).st()) && all_entry(old(self).st(), bbs@, height(old(self).st()))
                    ==> even(self.st()),
                st0 == old(self).st(),
                tries(st0, self.st(), scrut, cases@, bbs@, k as nat),
            decreases cases@.len() - k,
        {
            let ghost before = self.st();
            if let Some(t) = &cases[k].test {
                let next: usize = self.new_block();
                let v = self.expr(t);
                let eq = self.strict_equals(scrut, v);
                self.term(Cmd::CondBr(eq, bbs[k], next));
                self.at(next);
            }
            proof {
                let test = match &cases@[k as int].test {
                    Some(t) => Some(t),
                    None => None,
                };
                lemma_tries_more(
                    env0,
                    st0,
                    before,
                    self.st(),
                    scrut,
                    cases@,
                    bbs@,
                    k as nat,
                    test,
                );
            }
            k = k + 1;
        }
    }

    fn case_bodies(&mut self, cases: &'a Vec<Case>, bbs: &Vec<usize>, end_bb: usize)
        requires
            bbs@.len() == cases@.len(),
        ensures
            final(self).env() == old(self).env(),
            final(self).st() == case_bodies(
                old(self).env(),
                old(self).st(),
                cases@,
                bbs@,
                end_bb,
                cases@.len(),
            ),
            part(
                old(self).st(),
                final(self).st(),
                env_has(old(self).env(), old(self).st()) && has_blocks(old(self).st(), bbs@) && has_block(old(self).st(), end_bb),
                true,
            ),
            forall|s: St| #[trigger]
                own(s, old(self).st()) && (forall|i: int|
                    0 <= i < bbs@.len() ==> #[trigger] bbs@[i] >= s.code.len()) ==> own(
                    s,
                    final(self).st(),
                ),
            forall|x: usize| #[trigger]
                unentered(old(self).st(), x) && !bbs@.contains(x) ==> unentered(final(self).st(), x),
            neat(old(self).st()) && !old(self).st().open
                && bbs@.no_duplicates() && all_unentered(old(self).st(), bbs@) ==> neat(final(self).st())
                && !final(self).st().open,
            keeps(
                old(self).env(),
                old(self).st(),
                final(self).st(),
                !old(self).st().open && all_entry(
                    old(self).st(),
                    bbs@,
                    old(self).env().installed(),
                ) && entry(old(self).st(), end_bb, old(self).env().installed()),
            ),
            neat(old(self).st()) && !old(self).st().open && bbs@.no_duplicates() && all_unentered(
                old(self).st(),
                bbs@,
            ) ==> bodies_follow(
                old(self).env(),
                final(self).st(),
                cases@,
                bbs@,
                end_bb,
                cases@.len(),
            ),
        decreases
                old(self).env().weight() + case_sizes(cases@, cases@.len()),
                2 + cases@.len(),
    {
        let ghost env0 = self.env();
        let ghost st0 = self.st();
        let mut k: usize = 0;
        proof {
            lemma_no_bodies(env0, st0, cases@, bbs@, end_bb);
        }
        while k < cases.len()
            invariant
                k <= cases@.len(),
                bbs@.len() == cases@.len(),
                self.env() == env0,
                env0 == old(self).env(),
                self.st() == case_bodies(env0, st0, cases@, bbs@, end_bb, k as nat),
                env0 == old(self).env(),
                part(old(self).st(), self.st(), env_has(old(self).env(), old(self).st()) && has_blocks(old(self).st(), bbs@) && has_block(old(self).st(), end_bb), true),
                st0 == old(self).st(),
                forall|s: St| #[trigger]
                    own(s, st0) && (forall|i: int|
                        0 <= i < bbs@.len() ==> #[trigger] bbs@[i] >= s.code.len()) ==> own(
                        s,
                        self.st(),
                    ),
                forall|x: usize| #[trigger]
                    unentered(st0, x) && !bbs@.take(k as int).contains(x) ==> unentered(self.st(), x),
                neat(st0) && !st0.open
                    && bbs@.no_duplicates() && all_unentered(st0, bbs@) ==> neat(self.st())
                    && !self.st().open,
                keeps(
                    env0,
                    st0,
                    self.st(),
                    !st0.open && all_entry(st0, bbs@, env0.installed()) && entry(
                        st0,
                        end_bb,
                        env0.installed(),
                    ),
                ),
                neat(st0) && !st0.open && bbs@.no_duplicates() && all_unentered(st0, bbs@)
                    ==> bodies_follow(env0, self.st(), cases@, bbs@, end_bb, k as nat),
            decreases cases@.len() - k,
        {
            proof {
                lemma_case_sizes_bound(cases@, k as nat, cases@.len());
                let done = bbs@.take(k as int);
                let more = bbs@.take(k + 1);
                assert forall|x: usize| #[trigger] done.contains(x) implies more.contains(x) by {
                    let i = choose|i: int| 0 <= i < done.len() && done[i] == x;
                    assert(more[i] == x);
                }
                assert(more[k as int] == bbs@[k as int]);
                assert(more.contains(bbs@[k as int]));
            }
            let ghost m = self.st();
            self.at(bbs[k]);
            let ghost p = self.st();
            self.stmts(&cases[k].body);
            let ghost q = self.st();
            let next: usize = if k + 1 < bbs.len() {
                bbs[k + 1]
            } else {
                end_bb
            };
            self.branch_if_open(next);
            proof {
                if neat(st0) && !st0.open && bbs@.no_duplicates() && all_unentered(st0, bbs@) {
                    lemma_more_bodies(
                        env0,
                        m,
                        p,
                        q,
                        self.st(),
                        cases@,
                        bbs@,
                        end_bb,
                        k as nat,
                    );
                }
            }
            k = k + 1;
        }
    }

    fn switch_stmt(&mut self, s: &'a Stmt)
        ensures
            final(self).env() == old(self).env(),
            final(self).st() == switch_stmt(old(self).env(), old(self).st(), s),
            part(
                old(self).st(),
                final(self).st(),
                env_has(old(self).env(), old(self).st()),
                true,
            ),
            runs(old(self).st(), final(self).st(), old(self).st().open),
            keeps(old(self).env(), old(self).st(), final(self).st(), old(self).st().open),
            s is Switch ==> follows(old(self).env(), old(self).st(), final(self).st(), *s),
        decreases old(self).env().weight() + size(s), 0nat,
    {
        let ghost env0 = self.env();
        let ghost st0 = self.st();
        match s {
            Stmt::Switch { scrutinee, cases } => {
                let scrut = self.expr(scrutinee);
                let ghost valued = self.st();
                let end_bb: usize = self.new_block();
                let bbs: Vec<usize> = self.case_blocks(cases.len());
                let target: usize = match first_default(cases) {
                    Some(k) => bbs[k],
                    None => end_bb,
                };
                let ghost made = self.st();
                self.case_tests(scrut, cases, &bbs);
                let ghost tested = self.st();
                self.term(Cmd::Br(target));
                let ghost gone = self.st();
                let depth: usize = self.exits.len();
                self.frames.push(
                    Frame { label: None, break_bb: end_bb, continue_bb: None, exit_depth: depth },
                );
                self.left = Ghost(self.left@.push(false));
                assert(self.env() == env0.in_frame(switch_frame(env0, end_bb)));
                proof {
                    if level_start(env0, st0) && st0.open {
                        lemma_in_frame(env0, self.st(), switch_frame(env0, end_bb));
                    }
                }
                self.case_bodies(cases, &bbs, end_bb);
                let ghost ended = self.st();
                self.pop_frame(Ghost(env0), Ghost(switch_frame(env0, end_bb)));
                self.at(end_bb);
                proof {
                    let x = SwitchLayout {
                        valued,
                        made,
                        tested,
                        jumped: gone,
                        ended,
                        value: scrut,
                        target,
                        end_bb,
                    };
                    let f = switch_frame(env0, end_bb);
                    lemma_only_blocks(valued, cases@.len());
                    lemma_switch_follows(
                        env0,
                        f,
                        st0,
                        self.st(),
                        scrutinee,
                        *cases,
                        bbs@,
                        x,
                    );
                }
            },
            _ => {},
        }
    }

    fn finally_block(&mut self, finally: &'a Option<Vec<Stmt>>)
        ensures
            final(self).env() == old(self).env(),
            final(self).st() == finally_block(old(self).env(), old(self).st(), finally),
            part(
                old(self).st(),
                final(self).st(),
                env_has(old(self).env(), old(self).st()),
                true,
            ),
            runs(old(self).st(), final(self).st(), true),
            keeps(old(self).env(), old(self).st(), final(self).st(), true),
        decreases old(self).env().weight() + block_size(*finally), 2nat,
    {
        match finally {
            Some(f) => self.stmts(f),
            None => {},
        }
    }

    fn catch_clauses(
        &mut self,
        exc: Op,
        end_bb: usize,
        catches: &'a Vec<Catch>,
        finally: &'a Option<Vec<Stmt>>,
    ) -> (all: bool)
        ensures
            final(self).env() == old(self).env(),
            (final(self).st(), all) == catch_clauses(
                old(self).env(),
                old(self).st(),
                exc,
                end_bb,
                catches@,
                finally,
                catches@.len(),
            ),
            part(
                old(self).st(),
                final(self).st(),
                env_has(old(self).env(), old(self).st()) && has(old(self).st(), exc) && has_block(old(self).st(), end_bb),
                true,
            ),
            runs(old(self).st(), final(self).st(), old(self).st().open),
            keeps(
                old(self).env(),
                old(self).st(),
                final(self).st(),
                old(self).st().open && entry(old(self).st(), end_bb, old(self).env().installed()),
            ),
            old(self).st().open ==> final(self).st().open,
        decreases
                old(self).env().weight() + 2 + catch_sizes(catches@, catches@.len()) + block_size(
                    *finally,
                ),
                catches@.len(),
    {
        let ghost env0 = self.env();
        let ghost st0 = self.st();
        let ghost action = ExitAction { pop_handler: false, finally: opt_block(finally) };
        let mut all = false;
        let mut k: usize = 0;
        while k < catches.len()
            invariant
                k <= catches@.len(),
                self.env() == env0,
                env0 == old(self).env(),
                action == (ExitAction { pop_handler: false, finally: opt_block(finally) }),
                (self.st(), all) == catch_clauses(
                    env0,
                    st0,
                    exc,
                    end_bb,
                    catches@,
                    finally,
                    k as nat,
                ),
                env0 == old(self).env(),
                part(old(self).st(), self.st(), env_has(old(self).env(), old(self).st()) && has(old(self).st(), exc) && has_block(old(self).st(), end_bb), true),
                runs(old(self).st(), self.st(), old(self).st().open),
                old(self).st().open ==> self.st().open,
                st0 == old(self).st(),
                keeps(
                    env0,
                    st0,
                    self.st(),
                    st0.open && entry(st0, end_bb, env0.installed()),
                ),
            decreases catches@.len() - k,
        {
            proof {
                lemma_catch_sizes_bound(catches@, k as nat, catches@.len());
                lemma_weight_push(env0.exits, action);
            }
            if !all {
                let c: &'a Catch = &catches[k];
                if (c.binding.0 as usize) < self.locals.len() {
                    let slot = self.locals[c.binding.0 as usize];
                    let body_bb: usize = self.new_block();
                    let next_bb: usize = self.new_block();
                    if slot.ty == Ty::Any {
                        all = true;
                        self.term(Cmd::Br(body_bb));
                    } else {
                        let m = self.is_test(exc, slot.ty);
                        self.term(Cmd::CondBr(m, body_bb, next_bb));
                    }
                    self.at(body_bb);
                    let bound = self.unbox_any_ptr(exc, slot.ty);
                    self.store_local(c.binding, bound);
                    self.exits.push(
                        ExitAction { pop_handler: false, finally: some_block(finally) },
                    );
                    assert(self.env() == env0.with_exit(action));
                    proof {
                        if level_start(env0, st0) {
                            lemma_with_exit(env0, self.st(), action);
                        }
                    }
                    self.stmts(&c.body);
                    self.pop_exit(Ghost(env0), Ghost(action));
                    if self.open {
                        self.finally_block(finally);
                        self.branch_if_open(end_bb);
                    }
                    self.at(next_bb);
                } else {
                    self.fail();
                }
            }
            k = k + 1;
        }
        all
    }

    #[verifier::spinoff_prover]
    #[verifier::rlimit(40)]
    fn try_stmt(&mut self, s: &'a Stmt)
        ensures
            final(self).env() == old(self).env(),
            final(self).st() == try_stmt(old(self).env(), old(self).st(), s),
            part(
                old(self).st(),
                final(self).st(),
                env_has(old(self).env(), old(self).st()),
                true,
            ),
            runs(old(self).st(), final(self).st(), old(self).st().open),
            keeps(old(self).env(), old(self).st(), final(self).st(), old(self).st().open),
        decreases old(self).env().weight() + size(s), 0nat,
    {
        let ghost env0 = self.env();
        let ghost st0 = self.st();
        match s {
            Stmt::Try { body, catches, finally } => {
                let ghost action = ExitAction { pop_handler: true, finally: opt_block(finally) };
                proof {
                    lemma_weight_push(env0.exits, action);
                }
                let buf = self.val(Cmd::Alloca(LTy::I8, 512));
                let name = if self.windows {
                    "vs_setjmp"
                } else {
                    "_setjmp"
                };
                self.arg((LTy::Ptr, buf));
                let r = self.val(Cmd::CallTwice(name, Some(LTy::I32)));
                let body_bb: usize = self.new_block();
                let dispatch_bb: usize = self.new_block();
                let end_bb: usize = self.new_block();
                let first = self.val(Cmd::ICmp(IntPred::EQ, r, Op::I32(0)));
                self.term(Cmd::CondBr(first, body_bb, dispatch_bb));
                self.at(body_bb);
                self.emit(Cmd::PushHandler(buf));
                self.exits.push(ExitAction { pop_handler: true, finally: some_block(finally) });
                assert(self.env() == env0.with_exit(action));
                proof {
                    if level_start(env0, st0) {
                        lemma_with_exit(env0, self.st(), action);
                    }
                }
                assert(exit_size(action) <= 1 + block_size(*finally));
                assert(size(s) == 3 + sizes(body@, body@.len()) + catch_sizes(
                    catches@,
                    catches@.len(),
                ) + block_size(*finally));
                self.stmts(body);
                self.pop_exit(Ghost(env0), Ghost(action));
                if self.open {
                    self.pop_handler();
                    self.finally_block(finally);
                    self.branch_if_open(end_bb);
                }
                self.at(dispatch_bb);
                let exc = self.val(Cmd::Alloca(LTy::Any, 1));
                self.rt1("vs_take_exception", None, (LTy::Ptr, exc));
                let all = self.catch_clauses(exc, end_bb, catches, finally);
                if !all {
                    self.finally_block(finally);
                    if self.open {
                        self.throw_box(exc);
                    }
                } else if self.open {
                    self.term(Cmd::Unreachable);
                }
                self.at(end_bb);
            },
            _ => {},
        }
    }

    fn return_stmt(&mut self, value: &'a Option<Expr>)
        ensures
            final(self).env() == old(self).env(),
            final(self).st() == return_stmt(old(self).env(), old(self).st(), value),
            part(
                old(self).st(),
                final(self).st(),
                env_has(old(self).env(), old(self).st()),
                true,
            ),
            runs(old(self).st(), final(self).st(), old(self).st().open),
            keeps(old(self).env(), old(self).st(), final(self).st(), old(self).st().open),
            follows(old(self).env(), old(self).st(), final(self).st(), Stmt::Return { value: *value }),
        decreases old(self).env().weight(), 2 * old(self).env().exits.len() + 2,
    {
        match value {
            Some(e) => {
                let v = self.expr(e);
                self.leave(0);
                if self.open {
                    let x = self.materialize(v);
                    self.term(Cmd::Ret(x));
                }
            },
            None => {
                self.leave(0);
                if self.open {
                    self.default_return();
                }
            },
        }
        proof {
            let a = old(self).st();
            lemma_return_follows(
                old(self).env(),
                a,
                self.st(),
                value,
                Stmt::Return { value: *value },
            );
        }
    }

    /// Emits a statement.
    pub fn stmt(&mut self, s: &'a Stmt)
        ensures
            final(self).env() == old(self).env(),
            final(self).st() == stmt(old(self).env(), old(self).st(), s),
            part(
                old(self).st(),
                final(self).st(),
                env_has(old(self).env(), old(self).st()),
                true,
            ),
            runs(old(self).st(), final(self).st(), true),
            keeps(old(self).env(), old(self).st(), final(self).st(), true),
            follows(old(self).env(), old(self).st(), final(self).st(), *s),
        decreases old(self).env().weight() + size(s), 1nat,
    {
        let ghost env0 = self.env();
        let ghost st0 = self.st();
        if !self.open {
            proof {
                lemma_unreached(env0, st0, st0, *s);
            }
            return;
        }
        match s {
            Stmt::Expr(e) => {
                self.expr(e);
                proof {
                    lemma_expr_follows(env0, st0, self.st(), e, *s);
                }
            },
            Stmt::Assign(local, e) => {
                let v = self.expr(e);
                self.store_local(*local, v);
                proof {
                    lemma_assign_follows(env0, st0, self.st(), *local, e, *s);
                }
            },
            Stmt::Block(b) => {
                self.stmts(b);
                proof {
                    lemma_block_follows(env0, st0, self.st(), *b);
                }
            },
            Stmt::If { .. } => self.if_stmt(s),
            Stmt::While { .. } | Stmt::DoWhile { .. } => self.while_stmt(s),
            Stmt::For { .. } => self.for_stmt(s),
            Stmt::Switch { .. } => self.switch_stmt(s),
            Stmt::Break { label } => self.jump(label, false),
            Stmt::Continue { label } => self.jump(label, true),
            Stmt::Return { value } => self.return_stmt(value),
            Stmt::Throw(e) => {
                let v = self.expr(e);
                let p = self.box_value(v);
                self.throw_box(p);
                let dead: usize = self.new_block();
                self.at(dead);
                proof {
                    lemma_unreached(env0, st0, self.st(), *s);
                }
            },
            Stmt::Try { .. } => {
                self.try_stmt(s);
                proof {
                    lemma_unreached(env0, st0, self.st(), *s);
                }
            },
            Stmt::Empty => {
                proof {
                    lemma_unreached(env0, st0, st0, *s);
                }
            },
        }
    }
}

/// The end of a `switch` and its clauses get their blocks, and nothing else happens.
proof fn lemma_only_blocks(st: St, n: nat)
    ensures
        only_blocks(st, case_blocks(st.new_block().0, n).0),
        case_blocks(st.new_block().0, n).0.code.len() == st.code.len() + 1 + n,
        case_blocks(st.new_block().0, n).0.ok == st.ok,
        case_blocks(st.new_block().0, n).0.astray == st.astray,
    decreases n,
{
    reveal(grows);
    if n > 0 {
        lemma_only_blocks(st, (n - 1) as nat);
    }
}

/// What stands in the code stays there.
proof fn lemma_grown(a: St, b: St, k: int)
    requires
        grows(a, b),
        0 <= k < a.code.len(),
    ensures
        k < b.code.len(),
        b.code[k] == a.code[k],
{
    reveal(grows);
}

/// The block that a jump goes to is its goal.
proof fn lemma_goal_found(frames: Seq<Frame>, n: nat, label: Option<&String>, for_continue: bool)
    ensures
        find_frame_in(frames, n, label, for_continue) == goal(
            frames,
            n,
            match label {
                Some(l) => Some(l@),
                None => None,
            },
            for_continue,
        ),
    decreases n,
{
    if n > 0 {
        lemma_goal_found(frames, (n - 1) as nat, label, for_continue);
    }
}

proof fn lemma_sizes_bound(ss: Seq<Stmt>, k: nat, n: nat)
    requires
        k < n <= ss.len(),
    ensures
        size(&ss[k as int]) <= sizes(ss, n),
    decreases n,
{
    if k + 1 < n {
        lemma_sizes_bound(ss, k, (n - 1) as nat);
    }
}

proof fn lemma_case_sizes_bound(cs: Seq<Case>, k: nat, n: nat)
    requires
        k < n <= cs.len(),
    ensures
        sizes(cs[k as int].body@, cs[k as int].body@.len()) < case_sizes(cs, n),
    decreases n,
{
    if k + 1 < n {
        lemma_case_sizes_bound(cs, k, (n - 1) as nat);
    }
}

proof fn lemma_catch_sizes_bound(cs: Seq<Catch>, k: nat, n: nat)
    requires
        k < n <= cs.len(),
    ensures
        sizes(cs[k as int].body@, cs[k as int].body@.len()) <= catch_sizes(cs, n),
    decreases n,
{
    if k + 1 < n {
        lemma_catch_sizes_bound(cs, k, (n - 1) as nat);
    }
}

} // verus!
