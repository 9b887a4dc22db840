//! What holds of the code of a function as a whole.

use vstd::prelude::*;

use crate::codegen::code::{Cmd, Env, St};
use crate::codegen::sound::{agrees, allowed, backward, balanced, has_block, level};
use crate::codegen::stmt::{clean, leave, run_exits};

verus! {

// --- handlers ----------------------------------------------------------------------------

/// From the command at `i` control can go on to that at `j`: from a jump to where
/// its target is entered, from a return or a dead end nowhere, and from any other
/// command to the next one.
pub open spec fn goes_to(code: Seq<Cmd>, i: int, j: int) -> bool {
    &&& 0 <= i < code.len()
    &&& 0 <= j < code.len()
    &&& match code[i] {
        Cmd::Br(t) => code[j] == Cmd::At(t),
        Cmd::CondBr(_, t, f) => code[j] == Cmd::At(t) || code[j] == Cmd::At(f),
        Cmd::Ret(_) | Cmd::RetVoid | Cmd::Unreachable => false,
        _ => j == i + 1 && !(code[j] is At),
    }
}

/// The commands that control passes, from where the first block is entered.
pub open spec fn is_path(code: Seq<Cmd>, path: Seq<int>) -> bool {
    &&& path.len() > 0
    &&& 0 <= path[0] < code.len()
    &&& code[path[0]] == Cmd::At(0)
    &&& forall|k: int| 0 <= k < path.len() - 1 ==> goes_to(code, #[trigger] path[k], path[k + 1])
}

/// The handlers that are installed after the first `n` commands of the path.
pub open spec fn handlers(code: Seq<Cmd>, path: Seq<int>, n: nat) -> int
    decreases n,
{
    if 0 < n <= path.len() {
        handlers(code, path, (n - 1) as nat) + match code[path[n - 1]] {
            Cmd::PushHandler(_) => 1int,
            Cmd::PopHandler => -1,
            _ => 0,
        }
    } else {
        0
    }
}

/// The handlers that are installed when control comes to the command at `i`.
spec fn before(code: Seq<Cmd>, i: int) -> int {
    match code[i] {
        Cmd::At(b) => level(code.take(b as int)),
        _ => level(code.take(i)),
    }
}

/// A block that the command at `i` enters or jumps to was created before it.
proof fn lemma_refers(code: Seq<Cmd>, i: int, b: usize)
    requires
        backward(code),
        0 <= i < code.len(),
        match code[i] {
            Cmd::At(x) | Cmd::Br(x) => x == b,
            Cmd::CondBr(_, x, y) => x == b || y == b,
            _ => false,
        },
    ensures
        b < i,
{
    reveal(has_block);
    let here = St { code: code.take(i), block: 0, open: true, ok: true, astray: false };
    assert(allowed(here, code[i]));
}

/// On the way through the code the number of handlers is that of the place.
proof fn lemma_path(code: Seq<Cmd>, path: Seq<int>, n: nat)
    requires
        backward(code),
        balanced(code),
        is_path(code, path),
        n < path.len(),
    ensures
        0 <= path[n as int] < code.len(),
        handlers(code, path, n) == before(code, path[n as int]),
    decreases n,
{
    if n > 0 {
        let m = (n - 1) as nat;
        lemma_path(code, path, m);
        let i = path[m as int];
        let j = path[n as int];
        assert(goes_to(code, path[n - 1], path[n - 1 + 1]));
        assert(agrees(code.take(i), level(code.take(i)), code[i]));
        assert(code.take(i + 1).drop_last() =~= code.take(i));
        assert(code.take(i + 1).last() == code[i]);
        match code[i] {
            Cmd::At(b) => {
                lemma_refers(code, i, b);
                assert(code.take(i + 1).take(b as int) =~= code.take(b as int));
            },
            Cmd::Br(t) => {
                lemma_refers(code, i, t);
                assert(code.take(i).take(t as int) =~= code.take(t as int));
            },
            Cmd::CondBr(_, t, f) => {
                lemma_refers(code, i, t);
                lemma_refers(code, i, f);
                assert(code.take(i).take(t as int) =~= code.take(t as int));
                assert(code.take(i).take(f as int) =~= code.take(f as int));
            },
            _ => {},
        }
    } else {
        assert(code.take(0) =~= Seq::<Cmd>::empty());
        assert(level(Seq::<Cmd>::empty()) == 0);
    }
}

proof fn lemma_never_below(code: Seq<Cmd>, path: Seq<int>, n: nat)
    requires
        backward(code),
        balanced(code),
        is_path(code, path),
        n <= path.len(),
    ensures
        handlers(code, path, n) >= 0,
    decreases n,
{
    if n > 0 {
        let m = (n - 1) as nat;
        lemma_never_below(code, path, m);
        lemma_path(code, path, m);
        let i = path[m as int];
        assert(agrees(code.take(i), level(code.take(i)), code[i]));
    }
}

/// Every path through the code of a function uninstalls each handler that it
/// installs once: it never uninstalls one that is not there, and where it returns
/// none is left. (A `throw` ends the path; the runtime takes off the handler that
/// it comes back to.)
pub proof fn law_every_path_leaves_its_handlers(code: Seq<Cmd>, path: Seq<int>)
    requires
        backward(code),
        balanced(code),
        is_path(code, path),
    ensures
        forall|n: nat| n <= path.len() ==> #[trigger] handlers(code, path, n) >= 0,
        code[path.last()] is Ret || code[path.last()] is RetVoid ==> handlers(
            code,
            path,
            path.len(),
        ) == 0,
{
    assert forall|n: nat| n <= path.len() implies #[trigger] handlers(code, path, n) >= 0 by {
        lemma_never_below(code, path, n);
    }
    let last = (path.len() - 1) as nat;
    lemma_path(code, path, last);
    let i = path.last();
    assert(agrees(code.take(i), level(code.take(i)), code[i]));
}

// --- cleanups ----------------------------------------------------------------------------

/// Taking cleanups off in two steps is taking them off in one.
proof fn lemma_cut_cut(env: Env, m: int, i: int)
    requires
        0 <= i <= m <= env.exits.len(),
    ensures
        env.cut(m).cut(i) == env.cut(i),
{
    assert(env.cut(m).cut(i).exits =~= env.cut(i).exits);
    assert(env.cut(m).cut(i).left =~= env.cut(i).left);
}

proof fn lemma_clean_cut<'a>(env: Env<'a>, st: St<'a>, m: nat, i: nat)
    requires
        i < m <= env.exits.len(),
    ensures
        clean(env.cut(m as int), st, i) == clean(env, st, i),
{
    lemma_cut_cut(env, m as int, i as int);
}

proof fn lemma_exits_cut<'a>(env: Env<'a>, st: St<'a>, d: nat, m: nat, k: nat)
    requires
        k <= m <= env.exits.len(),
    ensures
        run_exits(env.cut(m as int), st, d, k) == run_exits(env, st, d, k),
    decreases k,
{
    if d < k {
        let i = (k - 1) as nat;
        lemma_clean_cut(env, st, m, i);
        lemma_exits_cut(env, clean(env, st, i), d, m, i);
    }
}

proof fn lemma_exits_split<'a>(env: Env<'a>, st: St<'a>, d: nat, m: nat, k: nat)
    requires
        d <= m <= k <= env.exits.len(),
    ensures
        run_exits(env, st, d, k) == run_exits(env, run_exits(env, st, m, k), d, m),
    decreases k,
{
    if m < k {
        let i = (k - 1) as nat;
        lemma_exits_split(env, clean(env, st, i), d, m, i);
    }
}

/// An early exit runs each pending cleanup once: to leave to depth `d` is to leave
/// to any depth above it, and from there, where the cleanups that have run are no
/// longer pending, on to `d`.
pub proof fn law_cleanups_run_once<'a>(env: Env<'a>, st: St<'a>, d: nat, m: nat)
    requires
        d <= m <= env.exits.len(),
    ensures
        leave(env, st, d) == leave(env.cut(m as int), leave(env, st, m), d),
        leave(env, st, env.exits.len()) == st,
        m < env.exits.len() ==> leave(env, st, m) == clean(env, leave(env, st, m + 1), m),
{
    lemma_exits_split(env, st, d, m, env.exits.len());
    lemma_exits_cut(env, leave(env, st, m), d, m, m);
    if m < env.exits.len() {
        lemma_exits_split(env, st, m, m + 1, env.exits.len());
        let s = leave(env, st, m + 1);
        assert(run_exits(env, clean(env, s, m), m, m) == clean(env, s, m));
    }
}

} // verus!
