//! The handlers that are installed while a statement is compiled.

use vstd::prelude::*;

use crate::codegen::code::{Env, ExitAction, Frame, St};
use crate::codegen::sound::{entry, even, grows, height, lemma_entry_later};
use crate::codegen::stmt::{find_frame_in, frame_exit_depth_in, label_matches};

verus! {

/// The number of handlers that the first `n` pending cleanups uninstall.
pub open spec fn live(xs: Seq<ExitAction>, n: nat) -> nat
    decreases n,
{
    if 0 < n <= xs.len() {
        live(xs, (n - 1) as nat) + if xs[n - 1].pop_handler {
            1nat
        } else {
            0
        }
    } else {
        0
    }
}

impl<'a> Env<'a> {
    /// The number of handlers that the pending cleanups uninstall.
    pub open spec fn installed(self) -> int {
        live(self.exits, self.exits.len()) as int
    }
}

/// Unless control is on its way out of it, the blocks of frame `i` are entered
/// with the handlers of the cleanups that were pending when it was made.
pub open spec fn frame_placed(env: Env, st: St, i: int) -> bool {
    let f = env.frames[i];
    let n = live(env.exits, f.exit_depth as nat) as int;
    &&& f.continue_bb is None ==> f.label is None
    &&& !env.left[i] ==> {
        &&& f.exit_depth <= env.exits.len()
        &&& entry(st, f.break_bb, n)
        &&& f.continue_bb matches Some(b) ==> entry(st, b, n)
    }
}

/// Each frame is placed.
#[verifier::opaque]
pub open spec fn placed(env: Env, st: St) -> bool {
    &&& env.left.len() == env.frames.len()
    &&& forall|i: int| 0 <= i < env.frames.len() ==> #[trigger] frame_placed(env, st, i)
}

/// From a state with the handlers of the pending cleanups installed.
pub open spec fn level_start(env: Env, a: St) -> bool {
    placed(env, a) && even(a) && (a.open ==> height(a) == env.installed())
}

/// What a statement does to the handlers: where all that it met was possible and
/// no jump went astray, its code is balanced and ends with the handlers that it
/// started with.
pub open spec fn keeps(env: Env, a: St, b: St, given: bool) -> bool {
    given && level_start(env, a) && b.ok && !b.astray ==> even(b) && (b.open ==> height(b)
        == env.installed())
}

pub broadcast proof fn lemma_placed_later(env: Env, a: St, b: St)
    requires
        #[trigger] grows(a, b),
        #[trigger] placed(env, a),
    ensures
        placed(env, b),
{
    reveal(placed);
    assert forall|i: int| 0 <= i < env.frames.len() implies #[trigger] frame_placed(
        env,
        b,
        i,
    ) by {
        let f = env.frames[i];
        assert(frame_placed(env, a, i));
        if !env.left[i] {
            let n = live(env.exits, f.exit_depth as nat) as int;
            lemma_entry_later(a, b, f.break_bb, n);
            if let Some(c) = f.continue_bb {
                lemma_entry_later(a, b, c, n);
            }
        }
    }
}

pub proof fn lemma_live_prefix(xs: Seq<ExitAction>, ys: Seq<ExitAction>, n: nat)
    requires
        n <= xs.len(),
        n <= ys.len(),
        forall|i: int| 0 <= i < n ==> xs[i] == ys[i],
    ensures
        live(xs, n) == live(ys, n),
    decreases n,
{
    if n > 0 {
        lemma_live_prefix(xs, ys, (n - 1) as nat);
    }
}

/// In one frame more.
pub proof fn lemma_in_frame<'a>(env: Env<'a>, st: St<'a>, f: Frame<'a>)
    requires
        placed(env, st),
        f.exit_depth == env.exits.len(),
        entry(st, f.break_bb, env.installed()),
        f.continue_bb matches Some(b) ==> entry(st, b, env.installed()),
        f.continue_bb is None ==> f.label is None,
    ensures
        placed(env.in_frame(f), st),
        env.in_frame(f).installed() == env.installed(),
{
    reveal(placed);
    let e = env.in_frame(f);
    assert forall|i: int| 0 <= i < e.frames.len() implies #[trigger] frame_placed(e, st, i) by {
        if i < env.frames.len() {
            assert(frame_placed(env, st, i));
        }
    }
}

/// With one cleanup more.
pub proof fn lemma_with_exit<'a>(env: Env<'a>, st: St<'a>, x: ExitAction<'a>)
    requires
        placed(env, st),
    ensures
        placed(env.with_exit(x), st),
        env.with_exit(x).installed() == env.installed() + if x.pop_handler {
            1int
        } else {
            0
        },
{
    reveal(placed);
    let e = env.with_exit(x);
    lemma_live_prefix(env.exits, e.exits, env.exits.len());
    assert forall|i: int| 0 <= i < e.frames.len() implies #[trigger] frame_placed(e, st, i) by {
        assert(frame_placed(env, st, i));
        if !env.left[i] {
            lemma_live_prefix(env.exits, e.exits, env.frames[i].exit_depth as nat);
        }
    }
}

/// With the cleanups above depth `d` taken off.
pub proof fn lemma_cut<'a>(env: Env<'a>, st: St<'a>, d: nat)
    requires
        placed(env, st),
        d <= env.exits.len(),
    ensures
        placed(env.cut(d as int), st),
        env.cut(d as int).installed() == live(env.exits, d),
{
    reveal(placed);
    let e = env.cut(d as int);
    lemma_live_prefix(env.exits, e.exits, d);
    assert forall|i: int| 0 <= i < e.frames.len() implies #[trigger] frame_placed(e, st, i) by {
        assert(frame_placed(env, st, i));
        if !e.left[i] {
            lemma_live_prefix(env.exits, e.exits, env.frames[i].exit_depth as nat);
        }
    }
}

/// Whether the frame that a jump goes to, among the first `n`, is one that control
/// is on its way out of.
pub open spec fn strays_in(
    frames: Seq<Frame>,
    left: Seq<bool>,
    n: nat,
    label: Option<&String>,
    for_continue: bool,
) -> bool
    decreases n,
{
    if 0 < n <= frames.len() {
        let f = frames[n - 1];
        if !label_matches(f, label) || (for_continue && f.continue_bb is None) {
            strays_in(frames, left, (n - 1) as nat, label, for_continue)
        } else {
            left[n - 1]
        }
    } else {
        false
    }
}

/// A jump that does not go astray goes to a block that is entered with the
/// handlers of the depth that it leaves to.
pub proof fn lemma_target(env: Env, st: St, n: nat, label: Option<&String>, for_continue: bool)
    requires
        placed(env, st),
        n <= env.frames.len(),
        !strays_in(env.frames, env.left, n, label, for_continue),
    ensures
        find_frame_in(env.frames, n, label, for_continue) matches Some(b) ==> {
            let d = frame_exit_depth_in(env.frames, n, label, for_continue);
            d <= env.exits.len() && entry(st, b, live(env.exits, d as nat) as int)
        },
    decreases n,
{
    if n > 0 {
        assert(frame_placed(env, st, n - 1)) by {
            reveal(placed);
        }
        let f = env.frames[n - 1];
        if !label_matches(f, label) || (for_continue && f.continue_bb is None) {
            lemma_target(env, st, (n - 1) as nat, label, for_continue);
        }
    }
}

/// At the start of a function no frame and no cleanup is there.
pub proof fn lemma_at_top(env: Env, st: St)
    requires
        env.frames.len() == 0,
        env.left.len() == 0,
        env.exits.len() == 0,
    ensures
        placed(env, st),
        env.installed() == 0,
{
    reveal(placed);
}

} // verus!
