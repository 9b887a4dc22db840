//! What every step of emission keeps: code only grows, a failure is never
//! forgotten, commands refer to earlier commands only, each block is filled once,
//! up to its terminator, and all paths to a block agree on the handlers that are
//! installed.

use vstd::prelude::*;

use crate::codegen::code::{Cmd, Env, LTy, Op, Slot, St, Val};

verus! {

/// The command yields a value. A call of a compiled function or method counts
/// as one that does.
pub open spec fn yields(c: Cmd) -> bool {
    match c {
        Cmd::NewBlock
        | Cmd::At(_)
        | Cmd::Br(_)
        | Cmd::CondBr(..)
        | Cmd::Ret(_)
        | Cmd::RetVoid
        | Cmd::Unreachable
        | Cmd::Store(..)
        | Cmd::Arg(..)
        | Cmd::PushHandler(_)
        | Cmd::PopHandler => false,
        Cmd::CallRt(_, ret) | Cmd::CallTwice(_, ret) | Cmd::CallPtr(_, ret) => ret is Some,
        _ => true,
    }
}

/// The operand is a constant, a parameter, or the value of a command that is
/// there and yields one.
#[verifier::opaque]
pub open spec fn has(st: St, op: Op) -> bool {
    op matches Op::Val(i) ==> i < st.code.len() && yields(st.code[i as int])
}

/// The block was created by a command that is there.
#[verifier::opaque]
pub open spec fn has_block(st: St, b: usize) -> bool {
    b < st.code.len() && st.code[b as int] is NewBlock
}

pub open spec fn has_val(st: St, v: Val) -> bool {
    match v {
        Val::Int(x)
        | Val::UInt(x)
        | Val::Num(x)
        | Val::Bool(x)
        | Val::Str(x)
        | Val::Obj(x)
        | Val::Arr(x)
        | Val::VecP(x)
        | Val::Fun(x)
        | Val::Reg(x)
        | Val::Dat(x)
        | Val::Sock(x)
        | Val::Ns(x)
        | Val::Any(x) => has(st, x),
        Val::Void => true,
    }
}

pub open spec fn has_opt(st: St, a: Option<(LTy, Op)>) -> bool {
    match a {
        Some(x) => has(st, x.1),
        None => true,
    }
}

pub open spec fn has_all(st: St, xs: Seq<(Val, Op)>) -> bool {
    forall|i: int|
        #![trigger xs[i]]
        0 <= i < xs.len() ==> has_val(st, xs[i].0) && has(st, xs[i].1)
}

pub open spec fn has_blocks(st: St, bbs: Seq<usize>) -> bool {
    forall|i: int| 0 <= i < bbs.len() ==> has_block(st, #[trigger] bbs[i])
}

pub open spec fn has_slots(st: St, slots: Seq<Slot>) -> bool {
    forall|i: int| 0 <= i < slots.len() ==> has(st, (#[trigger] slots[i]).ptr)
}

/// What the command refers to is there.
pub open spec fn allowed(st: St, c: Cmd) -> bool {
    match c {
        Cmd::At(b) | Cmd::Br(b) => has_block(st, b),
        Cmd::CondBr(x, t, f) => has(st, x) && has_block(st, t) && has_block(st, f),
        Cmd::Ret(x)
        | Cmd::Load(_, x)
        | Cmd::FNeg(x)
        | Cmd::INeg(x)
        | Cmd::Not(x)
        | Cmd::IsNull(x)
        | Cmd::IsNotNull(x)
        | Cmd::Cast(_, x)
        | Cmd::BoxField(x, _)
        | Cmd::InstanceField(_, x, _)
        | Cmd::Vtable(_, x)
        | Cmd::Arg(_, x)
        | Cmd::PushHandler(x)
        | Cmd::CallMethod(x, _)
        | Cmd::CallPtr(x, _) => has(st, x),
        Cmd::Store(x, y)
        | Cmd::Int(_, x, y)
        | Cmd::Float(_, x, y)
        | Cmd::ICmp(_, x, y)
        | Cmd::FCmp(_, x, y)
        | Cmd::Elem(_, x, y) => has(st, x) && has(st, y),
        Cmd::Select(x, y, z) => has(st, x) && has(st, y) && has(st, z),
        Cmd::Phi(_, x, from_x, y, from_y) => has(st, x) && has_block(st, from_x) && has(st, y)
            && has_block(st, from_y),
        Cmd::NewBlock
        | Cmd::RetVoid
        | Cmd::Unreachable
        | Cmd::PopHandler
        | Cmd::Alloca(..)
        | Cmd::Text(_)
        | Cmd::Lit(_)
        | Cmd::CallRt(..)
        | Cmd::CallTwice(..)
        | Cmd::CallFn(_) => true,
    }
}

/// The state before the command at `k`.
pub open spec fn upto<'a>(st: St<'a>, k: int) -> St<'a> {
    St { code: st.code.take(k), ..st }
}

/// Every command refers to earlier commands only, and the block being filled is
/// there.
#[verifier::opaque]
pub open spec fn fine(st: St) -> bool {
    &&& has_block(st, st.block)
    &&& forall|k: int| 0 <= k < st.code.len() ==> allowed(upto(st, k), #[trigger] st.code[k])
}

/// Each command refers to earlier commands only: by an operand to one that
/// yields a value, by a jump to one that creates a block.
pub open spec fn backward(code: Seq<Cmd>) -> bool {
    forall|k: int|
        0 <= k < code.len() ==> allowed(
            St { code: code.take(k), block: 0, open: true, ok: true, astray: false },
            #[trigger] code[k],
        )
}

/// The code of `b` starts with that of `a`, and a failure or a jump astray in `a`
/// is one in `b`.
#[verifier::opaque]
pub open spec fn grows(a: St, b: St) -> bool {
    &&& a.code.len() <= b.code.len()
    &&& forall|k: int| 0 <= k < a.code.len() ==> b.code[k] == #[trigger] a.code[k]
    &&& b.ok ==> a.ok
    &&& a.astray ==> b.astray
}

/// A part of a step of emission: code grows, and if what the part is given is
/// there and the code is fine, it stays so and what the part yields is there.
pub open spec fn part(a: St, b: St, given: bool, got: bool) -> bool {
    grows(a, b) && (given && fine(a) ==> fine(b) && got)
}

/// The command ends a block.
pub open spec fn ends(c: Cmd) -> bool {
    match c {
        Cmd::Br(_) | Cmd::CondBr(..) | Cmd::Ret(_) | Cmd::RetVoid | Cmd::Unreachable => true,
        _ => false,
    }
}

/// The command neither enters nor ends a block, nor touches the handlers.
pub open spec fn plain(c: Cmd) -> bool {
    !(c is At) && !ends(c) && !handles(c)
}

/// The command installs or uninstalls a handler.
pub open spec fn handles(c: Cmd) -> bool {
    c is PushHandler || c is PopHandler
}

/// A command enters the block.
pub open spec fn entered(code: Seq<Cmd>, b: usize) -> bool {
    exists|k: int| 0 <= k < code.len() && (#[trigger] code[k] matches Cmd::At(x) && x == b)
}

/// Whether a block is being filled after the code. `None` if the code is not in
/// order: a block is entered while another one has no terminator yet, a block is
/// entered twice or before it is there, or a command stands behind a terminator.
pub open spec fn filling(code: Seq<Cmd>) -> Option<bool>
    decreases code.len(),
{
    if code.len() == 0 {
        Some(false)
    } else {
        match filling(code.drop_last()) {
            None => None,
            Some(open) => match code.last() {
                Cmd::NewBlock => Some(open),
                Cmd::At(b) => if open || b >= code.drop_last().len() || entered(
                    code.drop_last(),
                    b,
                ) {
                    None
                } else {
                    Some(true)
                },
                c => if open {
                    Some(!ends(c))
                } else {
                    None
                },
            },
        }
    }
}

/// Each block is filled at most once, from the command that enters it to one
/// terminator, and no command stands outside a block.
pub open spec fn in_order(code: Seq<Cmd>) -> bool {
    filling(code) == Some(false)
}

/// The code is in order, and `open` says whether a block is being filled.
#[verifier::opaque]
pub open spec fn neat(st: St) -> bool {
    filling(st.code) == Some(st.open)
}

/// The block has not been entered.
#[verifier::opaque]
pub open spec fn unentered(st: St, b: usize) -> bool {
    b < st.code.len() && !entered(st.code, b)
}

/// The code that `b` adds to that of `a` enters blocks of its own only.
#[verifier::opaque]
pub open spec fn own(a: St, b: St) -> bool {
    &&& a.code.len() <= b.code.len()
    &&& forall|k: int|
        a.code.len() <= k < b.code.len() ==> (#[trigger] b.code[k] matches Cmd::At(x) ==> x
            >= a.code.len())
}

/// The number of handlers that are installed after the code. A block is entered
/// with those that were installed where it was created.
pub open spec fn level(code: Seq<Cmd>) -> int
    decreases code.len(),
{
    if code.len() == 0 {
        0
    } else {
        match code.last() {
            Cmd::At(b) => if b < code.len() - 1 {
                level(code.take(b as int))
            } else {
                level(code.drop_last())
            },
            Cmd::PushHandler(_) => level(code.drop_last()) + 1,
            Cmd::PopHandler => level(code.drop_last()) - 1,
            _ => level(code.drop_last()),
        }
    }
}

/// With `n` handlers installed the command agrees with the code before it: a jump
/// goes to a block that is entered with as many, a function returns with none, and
/// a handler that is uninstalled is there.
pub open spec fn agrees(code: Seq<Cmd>, n: int, c: Cmd) -> bool {
    match c {
        Cmd::Br(t) => level(code.take(t as int)) == n,
        Cmd::CondBr(_, t, f) => level(code.take(t as int)) == n && level(code.take(f as int)) == n,
        Cmd::Ret(_) | Cmd::RetVoid => n == 0,
        Cmd::PopHandler => n > 0,
        _ => true,
    }
}

/// On every path through the code each handler that is installed is uninstalled
/// once: all jumps to a block come with the same number of handlers, the function
/// returns with none, and none is uninstalled that is not there.
pub open spec fn balanced(code: Seq<Cmd>) -> bool {
    forall|k: int|
        0 <= k < code.len() ==> agrees(code.take(k), level(code.take(k)), #[trigger] code[k])
}

/// The number of handlers that are installed.
#[verifier::opaque]
pub open spec fn height(st: St) -> int {
    level(st.code)
}

/// The code so far is balanced.
#[verifier::opaque]
pub open spec fn even(st: St) -> bool {
    balanced(st.code)
}

/// The block is there, and is entered with `n` handlers.
#[verifier::opaque]
pub open spec fn entry(st: St, b: usize, n: int) -> bool {
    b < st.code.len() && level(st.code.take(b as int)) == n
}

/// The command, at the end of the block being filled, agrees with the code.
pub open spec fn fits(st: St, c: Cmd) -> bool {
    match c {
        Cmd::Br(t) => entry(st, t, height(st)),
        Cmd::CondBr(_, t, f) => entry(st, t, height(st)) && entry(st, f, height(st)),
        Cmd::Ret(_) | Cmd::RetVoid => height(st) == 0,
        Cmd::PopHandler => height(st) > 0,
        _ => true,
    }
}

/// The same handlers are installed, and the code in between is balanced.
pub open spec fn level_with(a: St, b: St) -> bool {
    height(b) == height(a) && (even(a) ==> even(b))
}

/// From one block that is being filled to another: the code in between is in
/// order and balanced.
pub open spec fn carries(a: St, b: St) -> bool {
    own(a, b) && (neat(a) && a.open ==> neat(b) && b.open) && level_with(a, b)
}

/// A step of emission, within a block or from one to another.
pub open spec fn step(a: St, b: St, given: bool, got: bool) -> bool {
    part(a, b, given, got) && carries(a, b)
}

/// The storage of the locals and the targets of the frames are there.
pub open spec fn env_has(env: Env, st: St) -> bool {
    &&& has_slots(st, env.locals)
    &&& forall|i: int|
        #![trigger env.frames[i]]
        0 <= i < env.frames.len() ==> has_block(st, env.frames[i].break_bb) && (
        env.frames[i].continue_bb matches Some(b) ==> has_block(st, b))
}

// --- ambient facts ------------------------------------------------------------------------

pub broadcast proof fn lemma_has_constant(st: St, op: Op)
    requires
        !(op is Val),
    ensures
        #[trigger] has(st, op),
{
    reveal(has);
}

pub broadcast proof fn lemma_grows_same(a: St)
    ensures
        #[trigger] grows(a, a),
{
    reveal(grows);
}

pub broadcast proof fn lemma_grows_on(a: St, b: St, c: St)
    requires
        #[trigger] grows(a, b),
        #[trigger] grows(b, c),
    ensures
        grows(a, c),
{
    reveal(grows);
    assert forall|k: int| 0 <= k < a.code.len() implies c.code[k] == #[trigger] a.code[k] by {
        assert(b.code[k] == a.code[k]);
    }
}

pub broadcast proof fn lemma_has_later(a: St, b: St, op: Op)
    requires
        #[trigger] grows(a, b),
        #[trigger] has(a, op),
    ensures
        has(b, op),
{
    reveal(has);
    reveal(grows);
    if let Op::Val(i) = op {
        assert(b.code[i as int] == a.code[i as int]);
    }
}

pub broadcast proof fn lemma_block_later(a: St, b: St, bb: usize)
    requires
        #[trigger] grows(a, b),
        #[trigger] has_block(a, bb),
    ensures
        has_block(b, bb),
{
    reveal(has_block);
    reveal(grows);
    assert(b.code[bb as int] == a.code[bb as int]);
}

pub broadcast proof fn lemma_current_block(st: St)
    requires
        #[trigger] fine(st),
    ensures
        has_block(st, st.block),
{
    reveal(fine);
}

pub broadcast proof fn lemma_own_same(a: St)
    ensures
        #[trigger] own(a, a),
{
    reveal(own);
}

pub broadcast proof fn lemma_own_on(a: St, b: St, c: St)
    requires
        #[trigger] own(a, b),
        #[trigger] own(b, c),
        grows(b, c),
    ensures
        own(a, c),
{
    reveal(own);
    reveal(grows);
    assert forall|k: int| a.code.len() <= k < c.code.len() implies (
    #[trigger] c.code[k] matches Cmd::At(x) ==> x >= a.code.len()) by {
        if k < b.code.len() {
            assert(c.code[k] == b.code[k]);
        }
    }
}

pub broadcast proof fn lemma_own_len(a: St, b: St)
    requires
        #[trigger] own(a, b),
    ensures
        a.code.len() <= b.code.len(),
{
    reveal(own);
}

pub broadcast proof fn lemma_unentered_later(a: St, b: St, x: usize)
    requires
        #[trigger] own(a, b),
        #[trigger] unentered(a, x),
        grows(a, b),
    ensures
        unentered(b, x),
{
    reveal(own);
    reveal(grows);
    reveal(unentered);
    assert forall|k: int| 0 <= k < b.code.len() implies !(#[trigger] b.code[k] matches Cmd::At(y)
        && y == x) by {
        if k < a.code.len() {
            assert(b.code[k] == a.code[k]);
        }
    }
}

pub broadcast proof fn lemma_grows_flags(a: St, b: St)
    requires
        #[trigger] grows(a, b),
    ensures
        b.ok ==> a.ok,
        a.astray ==> b.astray,
{
    reveal(grows);
}

pub broadcast proof fn lemma_entry_later(a: St, b: St, x: usize, n: int)
    requires
        #[trigger] grows(a, b),
        #[trigger] entry(a, x, n),
    ensures
        entry(b, x, n),
{
    reveal(grows);
    reveal(entry);
    assert(b.code.take(x as int) =~= a.code.take(x as int));
}

pub broadcast group group_sound {
    lemma_grows_flags,
    lemma_entry_later,
    lemma_own_same,
    lemma_own_on,
    lemma_own_len,
    lemma_unentered_later,
    lemma_has_constant,
    lemma_grows_same,
    lemma_grows_on,
    lemma_has_later,
    lemma_block_later,
    lemma_current_block,
}

// --- the steps of a builder -----------------------------------------------------------------

/// One command more, and the block being filled is there.
proof fn lemma_appended<'a>(st: St<'a>, c: Cmd<'a>, t: St<'a>)
    requires
        t.code == st.code.push(c),
        t.ok == st.ok,
        t.astray == st.astray,
        allowed(st, c) && fine(st) ==> has_block(t, t.block),
    ensures
        part(st, t, allowed(st, c), true),
{
    reveal(grows);
    reveal(fine);
    if allowed(st, c) && fine(st) {
        assert forall|k: int| 0 <= k < t.code.len() implies allowed(
            upto(t, k),
            #[trigger] t.code[k],
        ) by {
            if k < st.code.len() {
                assert(t.code[k] == st.code[k]);
                assert(t.code.take(k) =~= st.code.take(k));
                lemma_allowed_same(upto(st, k), upto(t, k), st.code[k]);
            } else {
                assert(t.code.take(k) =~= st.code);
                lemma_allowed_same(st, upto(t, k), c);
            }
        }
    }
}

proof fn lemma_allowed_same(a: St, b: St, c: Cmd)
    requires
        a.code == b.code,
    ensures
        allowed(a, c) == allowed(b, c),
{
    reveal(has);
    reveal(has_block);
}

pub proof fn lemma_backward(st: St)
    requires
        fine(st),
    ensures
        backward(st.code),
{
    reveal(fine);
    assert forall|k: int| 0 <= k < st.code.len() implies allowed(
        St { code: st.code.take(k), block: 0, open: true, ok: true, astray: false },
        #[trigger] st.code[k],
    ) by {
        let t = St { code: st.code.take(k), block: 0, open: true, ok: true, astray: false };
        lemma_allowed_same(upto(st, k), t, st.code[k]);
    }
}

/// What one command more does to the handlers.
proof fn lemma_leveled<'a>(st: St<'a>, c: Cmd<'a>, t: St<'a>)
    requires
        t.code == st.code.push(c),
    ensures
        plain(c) || ends(c) ==> height(t) == height(st),
        c is PushHandler ==> height(t) == height(st) + 1,
        c is PopHandler ==> height(t) == height(st) - 1,
        c matches Cmd::At(b) ==> forall|n: int| entry(st, b, n) ==> height(t) == n,
        even(st) && fits(st, c) ==> even(t),
        st.code.len() <= usize::MAX ==> entry(t, st.code.len() as usize, height(st)),
{
    reveal(height);
    reveal(even);
    reveal(entry);
    assert(t.code.drop_last() =~= st.code);
    assert(t.code.take(st.code.len() as int) =~= st.code);
    if let Cmd::At(b) = c {
        if b < st.code.len() {
            assert(t.code.take(b as int) =~= st.code.take(b as int));
        }
    }
    if even(st) && fits(st, c) {
        assert forall|k: int| 0 <= k < t.code.len() implies agrees(
            t.code.take(k),
            level(t.code.take(k)),
            #[trigger] t.code[k],
        ) by {
            if k < st.code.len() {
                assert(t.code[k] == st.code[k]);
                assert(t.code.take(k) =~= st.code.take(k));
            }
        }
    }
}

pub proof fn lemma_balanced(st: St)
    requires
        even(st),
    ensures
        balanced(st.code),
{
    reveal(even);
}

/// Code starts in order: two blocks, of which the second is entered.
pub proof fn lemma_start(st: St)
    requires
        st.code == seq![Cmd::NewBlock, Cmd::NewBlock, Cmd::At(1)],
        st.open,
    ensures
        neat(st),
        unentered(st, 0),
        height(st) == 0,
        even(st),
        entry(st, 0, 0),
        entry(st, 1, 0),
{
    reveal(neat);
    reveal(unentered);
    reveal(height);
    reveal(even);
    reveal(entry);
    let one: Seq<Cmd> = seq![Cmd::NewBlock];
    let two: Seq<Cmd> = seq![Cmd::NewBlock, Cmd::NewBlock];
    assert(one.drop_last() =~= Seq::<Cmd>::empty());
    assert(filling(Seq::<Cmd>::empty()) == Some(false));
    assert(filling(one) == Some(false));
    assert(two.drop_last() =~= one);
    assert(filling(two) == Some(false));
    assert(st.code.drop_last() =~= two);
    assert(st.code.take(0) =~= Seq::<Cmd>::empty());
    assert(st.code.take(1) =~= one);
    assert(level(Seq::<Cmd>::empty()) == 0);
    assert(level(one) == 0);
    assert(level(st.code) == 0);
}

pub proof fn lemma_in_order(st: St)
    requires
        neat(st),
        !st.open,
    ensures
        in_order(st.code),
{
    reveal(neat);
}

pub proof fn lemma_push<'a>(st: St<'a>, c: Cmd<'a>)
    requires
        st.code.len() <= usize::MAX,
    ensures
        part(st, st.push(c), allowed(st, c), yields(c) ==> has(st.push(c), st.next())),
        plain(c) ==> carries(st, st.push(c)),
        c is NewBlock ==> has_block(st.push(c), st.code.len() as usize),
        c is NewBlock ==> own(st, st.push(c)) && (neat(st) ==> neat(st.push(c)) && unentered(
            st.push(c),
            st.code.len() as usize,
        )),
        entry(st.push(c), st.code.len() as usize, height(st)),
        even(st) && fits(st, c) ==> even(st.push(c)),
{
    reveal(has);
    reveal(has_block);
    reveal(fine);
    lemma_appended(st, c, st.push(c));
    lemma_filled(st, c, st.push(c));
    lemma_leveled(st, c, st.push(c));
}

/// What one command more does to the order of the code.
proof fn lemma_filled<'a>(st: St<'a>, c: Cmd<'a>, t: St<'a>)
    requires
        t.code == st.code.push(c),
    ensures
        !(c is At) ==> own(st, t),
        neat(st) && c is NewBlock && t.open == st.open ==> neat(t),
        neat(st) && st.open && (plain(c) || handles(c)) && t.open ==> neat(t),
        neat(st) && st.open && ends(c) && !t.open ==> neat(t),
        neat(st) && !st.open && t.open && (c matches Cmd::At(b) && unentered(st, b)) ==> neat(t),
        st.code.len() <= usize::MAX && neat(st) && c is NewBlock ==> unentered(
            t,
            st.code.len() as usize,
        ),
        forall|s: St|
            #[trigger] own(s, st) && (c matches Cmd::At(b) && b >= s.code.len()) ==> own(s, t),
{
    reveal(own);
    reveal(neat);
    reveal(unentered);
    assert(t.code.drop_last() =~= st.code);
    assert(t.code.last() == c);
    if neat(st) && c is NewBlock {
        lemma_entered_earlier(st.code);
    }
}

/// Code that is in order enters blocks that are there.
proof fn lemma_entered_earlier(code: Seq<Cmd>)
    requires
        filling(code) is Some,
    ensures
        forall|k: int|
            0 <= k < code.len() ==> (#[trigger] code[k] matches Cmd::At(b) ==> b < code.len()),
    decreases code.len(),
{
    if code.len() > 0 {
        let d = code.drop_last();
        lemma_entered_earlier(d);
        assert forall|k: int| 0 <= k < code.len() implies (
        #[trigger] code[k] matches Cmd::At(b) ==> b < code.len()) by {
            if k < d.len() {
                assert(code[k] == d[k]);
            }
        }
    }
}

pub proof fn lemma_emit<'a>(st: St<'a>, c: Cmd<'a>)
    ensures
        part(st, st.push(c), allowed(st, c), true),
        plain(c) ==> carries(st, st.push(c)),
        handles(c) ==> own(st, st.push(c)) && (neat(st) && st.open ==> neat(st.push(c))),
        c is PushHandler ==> height(st.push(c)) == height(st) + 1,
        c is PopHandler ==> height(st.push(c)) == height(st) - 1,
        even(st) && fits(st, c) ==> even(st.push(c)),
{
    reveal(has_block);
    reveal(fine);
    lemma_appended(st, c, st.push(c));
    lemma_filled(st, c, st.push(c));
    lemma_leveled(st, c, st.push(c));
}

pub proof fn lemma_term<'a>(st: St<'a>, c: Cmd<'a>)
    ensures
        part(st, st.term(c), allowed(st, c), true),
        ends(c) ==> own(st, st.term(c)),
        neat(st) && st.open && ends(c) ==> neat(st.term(c)),
        ends(c) ==> height(st.term(c)) == height(st),
        even(st) && fits(st, c) ==> even(st.term(c)),
{
    reveal(has_block);
    reveal(fine);
    lemma_appended(st, c, st.term(c));
    lemma_filled(st, c, st.term(c));
    lemma_leveled(st, c, st.term(c));
}

pub proof fn lemma_at<'a>(st: St<'a>, b: usize)
    ensures
        part(st, st.at(b), has_block(st, b), true),
        neat(st) && !st.open && unentered(st, b) ==> neat(st.at(b)),
        forall|s: St| #[trigger] own(s, st) && b >= s.code.len() ==> own(s, st.at(b)),
        forall|x: usize| #[trigger] unentered(st, x) && x != b ==> unentered(st.at(b), x),
        forall|n: int| #[trigger] entry(st, b, n) ==> height(st.at(b)) == n,
        even(st) ==> even(st.at(b)),
{
    reveal(has_block);
    reveal(unentered);
    let t = st.at(b);
    assert forall|x: usize| #[trigger] unentered(st, x) && x != b implies unentered(t, x) by {
        assert forall|k: int| 0 <= k < t.code.len() implies !(
        #[trigger] t.code[k] matches Cmd::At(y) && y == x) by {
            if k < st.code.len() {
                assert(t.code[k] == st.code[k]);
            }
        }
    }
    lemma_appended(st, Cmd::At(b), st.at(b));
    lemma_filled(st, Cmd::At(b), st.at(b));
    lemma_leveled(st, Cmd::At(b), st.at(b));
}

/// A state with the same code.
proof fn lemma_same_code(st: St, t: St)
    requires
        t.code == st.code,
        t.block == st.block,
        t.open == st.open,
        t.ok ==> st.ok,
        st.astray ==> t.astray,
    ensures
        step(st, t, true, true),
        neat(st) ==> neat(t),
{
    reveal(grows);
    reveal(fine);
    reveal(has_block);
    reveal(own);
    reveal(neat);
    reveal(height);
    reveal(even);
    if fine(st) {
        assert forall|k: int| 0 <= k < t.code.len() implies allowed(
            upto(t, k),
            #[trigger] t.code[k],
        ) by {
            lemma_allowed_same(upto(st, k), upto(t, k), st.code[k]);
        }
    }
}

pub proof fn lemma_fail(st: St)
    ensures
        step(st, st.fail(), true, true),
        neat(st) ==> neat(st.fail()),
{
    lemma_same_code(st, st.fail());
}

pub proof fn lemma_stray(st: St, b: bool)
    ensures
        step(st, st.stray(b), true, true),
        neat(st) ==> neat(st.stray(b)),
{
    lemma_same_code(st, st.stray(b));
}

} // verus!
