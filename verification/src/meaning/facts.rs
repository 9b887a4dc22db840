//! The facts about a piece of code hold of its runs.

use vstd::prelude::*;

use crate::bce::facts::{binds, counts, does, expr_fact, good_use, stmt_does, stmt_fact, Fact};
use crate::bce::mark::{local_of, peeled};
use crate::bce::version::{header_of, is_invariant, is_open, is_safe, versions, Ctx};
use crate::bce::walk::{
    case_stmts, case_tests, catch_stmts, kids, opt_seq, opt_stmt, present, stmt_exprs, stmt_kids,
};
use crate::meaning::run::{
    bodies, chosen, done, eval, eval_all, eval_props, eval_some, exec, exec_all, handled, is_among,
    is_primitive, label_of, matching, may_throw, next_round, object_op, operator, outer_op, rounds,
    stepped, tested, Jump, Store, Val, World,
};
use crate::mir::{BinOp, Case, Catch, Conv, Expr, ExprKind, LocalId, Stmt};

verus! {

// --- what is kept -------------------------------------------------------------------------

/// Something that code can leave as it is.
pub ghost enum Thing {
    /// The value of a local.
    Local(LocalId),
    /// The value of a captured cell.
    Cell(usize),
    /// The length of the vector with the number, which the local alone holds.
    Length(LocalId, int),
}

/// No local but `v` holds the vector, nor does a cell, nor is it being thrown.
pub open spec fn held_by(s: Store, v: LocalId, r: int) -> bool {
    &&& forall|u: int| u != v.0 ==> #[trigger] (s.locals)(u) != Val::Ref(r)
    &&& forall|c: int| #[trigger] (s.cells)(c) != Val::Ref(r)
    &&& s.jump != Jump::Throw(Val::Ref(r))
}

/// The thing is the same in both states.
#[verifier::opaque]
pub open spec fn same(t: Thing, a: Store, b: Store) -> bool {
    match t {
        Thing::Local(l) => (a.locals)(l.0 as int) == (b.locals)(l.0 as int),
        Thing::Cell(c) => (a.cells)(c as int) == (b.cells)(c as int),
        Thing::Length(v, r) => held_by(a, v, r) ==> held_by(b, v, r) && (a.lens)(r) == (b.lens)(r),
    }
}

/// The value is not the thing itself.
#[verifier::opaque]
pub open spec fn apart(t: Thing, a: Store, x: Val) -> bool {
    match t {
        Thing::Length(v, r) => held_by(a, v, r) ==> x != Val::Ref(r),
        _ => true,
    }
}

/// The rest of the world does not know the vector.
pub open spec fn out_of_reach(w: World, t: Thing) -> bool {
    match t {
        Thing::Length(v, r) => {
            &&& !(w.reached)(r)
            &&& forall|name: Seq<char>, xs: Seq<Val>, k: nat| #[trigger]
                (w.apply)(name, xs, k) != Val::Ref(r)
            &&& forall|l: int, k: nat| #[trigger] (w.meddle)(l, k) != Val::Ref(r)
            &&& forall|c: int, k: nat| #[trigger] (w.meddle_cell)(c, k) != Val::Ref(r)
            &&& forall|k: nat| #[trigger] (w.throws)(k) != Some(Val::Ref(r))
        },
        _ => true,
    }
}

/// The facts by which the expression leaves the thing as it is.
#[verifier::opaque]
pub open spec fn spares(w: World, e: Expr, iv: LocalId, t: Thing) -> bool {
    match t {
        Thing::Local(l) => !expr_fact(&e, iv, Fact::Writes(l)) && ((w.meddles)(l.0 as int)
            ==> !expr_fact(&e, iv, Fact::Calls)),
        Thing::Cell(c) => !expr_fact(&e, iv, Fact::WritesCapture(c)) && ((w.meddles_cell)(c as int)
            ==> !expr_fact(&e, iv, Fact::Calls)),
        Thing::Length(v, _) => !expr_fact(&e, iv, Fact::Writes(v)) && !expr_fact(
            &e,
            iv,
            Fact::Misuses(v),
        ),
    }
}

/// As [`spares`], for a statement.
#[verifier::opaque]
pub open spec fn spared(w: World, st: Stmt, iv: LocalId, t: Thing) -> bool {
    match t {
        Thing::Local(l) => !stmt_fact(&st, iv, Fact::Writes(l)) && ((w.meddles)(l.0 as int)
            ==> !stmt_fact(&st, iv, Fact::Calls)),
        Thing::Cell(c) => !stmt_fact(&st, iv, Fact::WritesCapture(c)) && ((w.meddles_cell)(
            c as int,
        ) ==> !stmt_fact(&st, iv, Fact::Calls)),
        Thing::Length(v, _) => !stmt_fact(&st, iv, Fact::Writes(v)) && !stmt_fact(
            &st,
            iv,
            Fact::Misuses(v),
        ),
    }
}

// --- expressions --------------------------------------------------------------------------

proof fn lemma_kid_fact(e: Expr, iv: LocalId, f: Fact, i: int)
    requires
        !expr_fact(&e, iv, f),
        0 <= i < kids(&e).len(),
        counts(&e, iv, f, i),
    ensures
        !expr_fact(&kids(&e)[i], iv, f),
{
}

proof fn lemma_own_fact(e: Expr, iv: LocalId, f: Fact)
    requires
        !expr_fact(&e, iv, f),
    ensures
        !does(&e, iv, f),
{
}

/// A part of an expression spares what the whole does.
proof fn lemma_kid(w: World, e: Expr, iv: LocalId, t: Thing, i: int)
    requires
        spares(w, e, iv, t),
        0 <= i < kids(&e).len(),
        t matches Thing::Length(v, _) ==> !(i == 0 && good_use(&e, iv, v)),
    ensures
        spares(w, kids(&e)[i], iv, t),
{
    reveal(spares);
    match t {
        Thing::Local(l) => {
            lemma_kid_fact(e, iv, Fact::Writes(l), i);
            if (w.meddles)(l.0 as int) {
                lemma_kid_fact(e, iv, Fact::Calls, i);
            }
        },
        Thing::Cell(c) => {
            lemma_kid_fact(e, iv, Fact::WritesCapture(c), i);
            if (w.meddles_cell)(c as int) {
                lemma_kid_fact(e, iv, Fact::Calls, i);
            }
        },
        Thing::Length(v, _) => {
            lemma_kid_fact(e, iv, Fact::Writes(v), i);
            lemma_kid_fact(e, iv, Fact::Misuses(v), i);
        },
    }
}

/// What the node itself does to the thing.
proof fn lemma_node(w: World, e: Expr, iv: LocalId, t: Thing)
    requires
        spares(w, e, iv, t),
    ensures
        match t {
            Thing::Local(l) => !does(&e, iv, Fact::Writes(l)) && ((w.meddles)(l.0 as int)
                ==> !does(&e, iv, Fact::Calls)),
            Thing::Cell(c) => !does(&e, iv, Fact::WritesCapture(c)) && ((w.meddles_cell)(c as int)
                ==> !does(&e, iv, Fact::Calls)),
            Thing::Length(v, _) => !does(&e, iv, Fact::Writes(v)) && !does(
                &e,
                iv,
                Fact::Misuses(v),
            ),
        },
{
    reveal(spares);
    match t {
        Thing::Local(l) => {
            lemma_own_fact(e, iv, Fact::Writes(l));
            if (w.meddles)(l.0 as int) {
                lemma_own_fact(e, iv, Fact::Calls);
            }
        },
        Thing::Cell(c) => {
            lemma_own_fact(e, iv, Fact::WritesCapture(c));
            if (w.meddles_cell)(c as int) {
                lemma_own_fact(e, iv, Fact::Calls);
            }
        },
        Thing::Length(v, _) => {
            lemma_own_fact(e, iv, Fact::Writes(v));
            lemma_own_fact(e, iv, Fact::Misuses(v));
        },
    }
}

/// No value of the list is the thing itself.
pub open spec fn all_apart(t: Thing, a: Store, xs: Seq<Val>) -> bool {
    forall|i: int| 0 <= i < xs.len() ==> apart(t, a, #[trigger] xs[i])
}

/// Other code cannot change the thing.
spec fn safe_from_others(w: World, t: Thing) -> bool {
    match t {
        Thing::Local(l) => !(w.meddles)(l.0 as int),
        Thing::Cell(c) => !(w.meddles_cell)(c as int),
        Thing::Length(..) => true,
    }
}

proof fn lemma_object_op(w: World, name: Seq<char>, xs: Seq<Val>, a: Store, s: Store, t: Thing)
    requires
        out_of_reach(w, t),
        same(t, a, s),
        all_apart(t, a, xs),
    ensures
        same(t, a, object_op(w, name, xs, s).0),
        apart(t, a, object_op(w, name, xs, s).1),
{
    reveal(same);
    reveal(apart);
    if let Thing::Length(v, r) = t {
        if held_by(a, v, r) && is_among(xs, r) {
            let i = choose|i: int| 0 <= i < xs.len() && #[trigger] xs[i] == Val::Ref(r);
            assert(apart(t, a, xs[i]));
        }
    }
}

proof fn lemma_outer_op(w: World, name: Seq<char>, xs: Seq<Val>, a: Store, s: Store, t: Thing)
    requires
        out_of_reach(w, t),
        same(t, a, s),
        all_apart(t, a, xs),
        safe_from_others(w, t),
    ensures
        same(t, a, outer_op(w, name, xs, s).0),
        apart(t, a, outer_op(w, name, xs, s).1),
{
    reveal(same);
    reveal(apart);
    lemma_object_op(w, name, xs, a, s, t);
}

proof fn lemma_set(t: Thing, a: Store, s: Store, l: LocalId, x: Val)
    requires
        same(t, a, s),
        is_other(t, l),
        apart(t, a, x),
    ensures
        same(t, a, s.set(l, x)),
{
    reveal(same);
    reveal(apart);
}

proof fn lemma_set_cell(t: Thing, a: Store, s: Store, c: usize, x: Val)
    requires
        same(t, a, s),
        t != Thing::Cell(c),
        apart(t, a, x),
    ensures
        same(t, a, s.set_cell(c, x)),
{
    reveal(same);
    reveal(apart);
}

/// Values that are no objects, and those that operations yield.
proof fn lemma_apart(w: World, t: Thing, a: Store, x: Val)
    requires
        out_of_reach(w, t),
        !(x is Ref) || exists|name: Seq<char>, xs: Seq<Val>, k: nat| x == #[trigger] (w.apply)(
            name,
            xs,
            k,
        ),
    ensures
        apart(t, a, x),
{
    reveal(apart);
}

/// What another local or a cell holds.
proof fn lemma_read(t: Thing, a: Store, s: Store)
    requires
        same(t, a, s),
    ensures
        forall|l: int|
            #![trigger (s.locals)(l)]
            (t matches Thing::Length(v, _) ==> v.0 != l) ==> apart(t, a, (s.locals)(l)),
        forall|c: int| apart(t, a, #[trigger] (s.cells)(c)),
{
    reveal(same);
    reveal(apart);
}

proof fn lemma_throw(w: World, t: Thing, a: Store, s: Store, k: nat, tick: nat)
    requires
        out_of_reach(w, t),
        same(t, a, s),
    ensures
        same(t, a, may_throw(w, s, k)),
        same(t, a, Store { tick, ..may_throw(w, s, k) }),
        same(t, a, Store { tick, ..s }),
{
    reveal(same);
}

/// Evaluating an expression leaves what it spares as it is.
proof fn lemma_eval(w: World, e: Expr, a: Store, s: Store, iv: LocalId, t: Thing)
    requires
        out_of_reach(w, t),
        spares(w, e, iv, t),
        same(t, a, s),
    ensures
        same(t, a, eval(w, e, s).0),
        apart(t, a, eval(w, e, s).1),
    decreases e, 2nat,
{
    if !s.runs() {
        lemma_apart(w, t, a, Val::Undefined);
    } else {
        match e.kind {
            ExprKind::Int(..) | ExprKind::UInt(..) | ExprKind::Number(..) | ExprKind::Str(..)
            | ExprKind::Bool(..) | ExprKind::Null | ExprKind::Undefined => {
                lemma_eval_literal(w, e, a, s, iv, t);
            },
            ExprKind::LocalGet(..) | ExprKind::CaptureGet(..) => {
                lemma_eval_read(w, e, a, s, iv, t);
            },
            ExprKind::IncDec { .. } => {
                lemma_eval_step(w, e, a, s, iv, t);
            },
            ExprKind::CaptureIncDec { .. } => {
                lemma_eval_cell_step(w, e, a, s, iv, t);
            },
            ExprKind::LocalSet(..) => {
                lemma_eval_write(w, e, a, s, iv, t);
            },
            ExprKind::CaptureSet(..) => {
                lemma_eval_cell_write(w, e, a, s, iv, t);
            },
            ExprKind::Unary(..) | ExprKind::Conv(..) => {
                lemma_eval_unary(w, e, a, s, iv, t);
            },
            ExprKind::Is(..) | ExprKind::As(..) | ExprKind::StaticSet(..) | ExprKind::EnumLen(..)
            | ExprKind::FieldGet(..) | ExprKind::BoundMethod(..)
            | ExprKind::FieldIncDec { .. } => {
                lemma_eval_unary_object(w, e, a, s, iv, t);
            },
            ExprKind::StrLen(..) => {
                lemma_eval_text_length(w, e, a, s, iv, t);
            },
            ExprKind::SeqLen(..) => {
                lemma_eval_length(w, e, a, s, iv, t);
            },
            ExprKind::SeqGet(..) => {
                lemma_eval_element(w, e, a, s, iv, t);
            },
            ExprKind::SeqSet(..) => {
                lemma_eval_element_write(w, e, a, s, iv, t);
            },
            ExprKind::Binary(..) => {
                lemma_eval_binary(w, e, a, s, iv, t);
            },
            ExprKind::Logical { .. } => {
                lemma_eval_logical(w, e, a, s, iv, t);
            },
            ExprKind::Comma(..) => {
                lemma_eval_comma(w, e, a, s, iv, t);
            },
            ExprKind::Conditional(..) => {
                lemma_eval_conditional(w, e, a, s, iv, t);
            },
            ExprKind::EnumKey(..) | ExprKind::EnumValue(..) | ExprKind::FieldSet(..)
            | ExprKind::SeqSetLen(..) => {
                lemma_eval_binary_object(w, e, a, s, iv, t);
            },
            ExprKind::AnyIndexGet(..) | ExprKind::HasProp(..) | ExprKind::PropSet(..)
            | ExprKind::NsGet(..) => {
                lemma_eval_binary_member(w, e, a, s, iv, t);
            },
            ExprKind::AnyIndexSet(..) => {
                lemma_eval_index_write(w, e, a, s, iv, t);
            },
            ExprKind::PropGet(..) | ExprKind::DeleteProp(..) | ExprKind::NewNamespace(..)
            | ExprKind::NsUri(..) => {
                lemma_eval_unary_member(w, e, a, s, iv, t);
            },
            ExprKind::CallFn(..) => {
                lemma_eval_call(w, e, a, s, iv, t);
            },
            ExprKind::New(..) | ExprKind::CallNative(..) | ExprKind::NewRegExp(..)
            | ExprKind::CallRegex(..) | ExprKind::NewDate(..) | ExprKind::CallDate(..)
            | ExprKind::CallSocket(..) | ExprKind::CallBuiltin(..) => {
                lemma_eval_other_call(w, e, a, s, iv, t);
            },
            ExprKind::VectorLit(..) => {
                lemma_eval_vector(w, e, a, s, iv, t);
            },
            ExprKind::CallStrMethod(..) | ExprKind::CallNumMethod(..) | ExprKind::CallArr(..)
            | ExprKind::CallVec(..) | ExprKind::PropCall(..) | ExprKind::CallVirtual { .. }
            | ExprKind::CallIface { .. } | ExprKind::CallDirect { .. } => {
                lemma_eval_method(w, e, a, s, iv, t);
            },
            ExprKind::NsCall(..) => {
                lemma_eval_qualified_call(w, e, a, s, iv, t);
            },
            ExprKind::CallFnValue { .. } => {
                lemma_eval_value_call(w, e, a, s, iv, t);
            },
            ExprKind::ArrayLit(..) => {
                lemma_eval_array(w, e, a, s, iv, t);
            },
            ExprKind::ObjectLit(..) => {
                lemma_eval_object(w, e, a, s, iv, t);
            },
            _ => {
                lemma_any_object_op(w, Seq::empty(), a, s, t);
            },
        }
    }
}

proof fn lemma_eval_literal(w: World, e: Expr, a: Store, s: Store, iv: LocalId, t: Thing)
    requires
        out_of_reach(w, t),
        spares(w, e, iv, t),
        same(t, a, s),
        s.runs(),
        e.kind is Int || e.kind is UInt || e.kind is Number || e.kind is Str || e.kind is Bool
        || e.kind is Null || e.kind is Undefined,
    ensures
        same(t, a, eval(w, e, s).0),
        apart(t, a, eval(w, e, s).1),
    decreases e, 1nat,
{
    lemma_node(w, e, iv, t);
    match e.kind {
        ExprKind::Int(_) | ExprKind::UInt(_) | ExprKind::Number(_) | ExprKind::Str(_)
        | ExprKind::Bool(_) | ExprKind::Null | ExprKind::Undefined => {
            lemma_apart(w, t, a, eval(w, e, s).1);
        },
        _ => {},
    }
}

proof fn lemma_eval_read(w: World, e: Expr, a: Store, s: Store, iv: LocalId, t: Thing)
    requires
        out_of_reach(w, t),
        spares(w, e, iv, t),
        same(t, a, s),
        s.runs(),
        e.kind is LocalGet || e.kind is CaptureGet,
    ensures
        same(t, a, eval(w, e, s).0),
        apart(t, a, eval(w, e, s).1),
    decreases e, 1nat,
{
    lemma_node(w, e, iv, t);
    match e.kind {
        ExprKind::LocalGet(_) | ExprKind::CaptureGet(_) => {
            lemma_read(t, a, s);
        },
        _ => {},
    }
}

proof fn lemma_eval_step(w: World, e: Expr, a: Store, s: Store, iv: LocalId, t: Thing)
    requires
        out_of_reach(w, t),
        spares(w, e, iv, t),
        same(t, a, s),
        s.runs(),
        e.kind is IncDec,
    ensures
        same(t, a, eval(w, e, s).0),
        apart(t, a, eval(w, e, s).1),
    decreases e, 1nat,
{
    lemma_node(w, e, iv, t);
    match e.kind {
        ExprKind::IncDec { target, is_inc, .. } => {
            lemma_read(t, a, s);
            let new = stepped(w, (s.locals)(target.0 as int), is_inc);
            lemma_apart(w, t, a, new);
            lemma_set(t, a, s, target, new);
        },
        _ => {},
    }
}

proof fn lemma_eval_cell_step(w: World, e: Expr, a: Store, s: Store, iv: LocalId, t: Thing)
    requires
        out_of_reach(w, t),
        spares(w, e, iv, t),
        same(t, a, s),
        s.runs(),
        e.kind is CaptureIncDec,
    ensures
        same(t, a, eval(w, e, s).0),
        apart(t, a, eval(w, e, s).1),
    decreases e, 1nat,
{
    lemma_node(w, e, iv, t);
    match e.kind {
        ExprKind::CaptureIncDec { slot, is_inc, .. } => {
            lemma_read(t, a, s);
            let new = stepped(w, (s.cells)(slot as int), is_inc);
            lemma_apart(w, t, a, new);
            lemma_set_cell(t, a, s, slot, new);
        },
        _ => {},
    }
}

proof fn lemma_eval_write(w: World, e: Expr, a: Store, s: Store, iv: LocalId, t: Thing)
    requires
        out_of_reach(w, t),
        spares(w, e, iv, t),
        same(t, a, s),
        s.runs(),
        e.kind is LocalSet,
    ensures
        same(t, a, eval(w, e, s).0),
        apart(t, a, eval(w, e, s).1),
    decreases e, 1nat,
{
    lemma_node(w, e, iv, t);
    match e.kind {
        ExprKind::LocalSet(l, x) => {
            assert(kids(&e)[0] == *x);
            lemma_kid(w, e, iv, t, 0);
            lemma_eval(w, *x, a, s, iv, t);
            let (s1, v) = eval(w, *x, s);
            lemma_set(t, a, s1, l, v);
        },
        _ => {},
    }
}

proof fn lemma_eval_cell_write(w: World, e: Expr, a: Store, s: Store, iv: LocalId, t: Thing)
    requires
        out_of_reach(w, t),
        spares(w, e, iv, t),
        same(t, a, s),
        s.runs(),
        e.kind is CaptureSet,
    ensures
        same(t, a, eval(w, e, s).0),
        apart(t, a, eval(w, e, s).1),
    decreases e, 1nat,
{
    lemma_node(w, e, iv, t);
    match e.kind {
        ExprKind::CaptureSet(c, x) => {
            assert(kids(&e)[0] == *x);
            lemma_kid(w, e, iv, t, 0);
            lemma_eval(w, *x, a, s, iv, t);
            let (s1, v) = eval(w, *x, s);
            lemma_set_cell(t, a, s1, c, v);
        },
        _ => {},
    }
}

proof fn lemma_eval_unary(w: World, e: Expr, a: Store, s: Store, iv: LocalId, t: Thing)
    requires
        out_of_reach(w, t),
        spares(w, e, iv, t),
        same(t, a, s),
        s.runs(),
        e.kind is Unary || e.kind is Conv,
    ensures
        same(t, a, eval(w, e, s).0),
        apart(t, a, eval(w, e, s).1),
    decreases e, 1nat,
{
    lemma_node(w, e, iv, t);
    match e.kind {
        ExprKind::Unary(_, x) | ExprKind::Conv(_, x) => {
            assert(kids(&e)[0] == *x);
            lemma_kid(w, e, iv, t, 0);
            lemma_eval(w, *x, a, s, iv, t);
            let (s1, v) = eval(w, *x, s);
            lemma_operator(w, e, seq![v], a, s1, iv, t);
        },
        _ => {},
    }
}

proof fn lemma_eval_unary_object(w: World, e: Expr, a: Store, s: Store, iv: LocalId, t: Thing)
    requires
        out_of_reach(w, t),
        spares(w, e, iv, t),
        same(t, a, s),
        s.runs(),
        e.kind is Is || e.kind is As || e.kind is StaticSet || e.kind is EnumLen
        || e.kind is FieldGet || e.kind is BoundMethod || e.kind is FieldIncDec,
    ensures
        same(t, a, eval(w, e, s).0),
        apart(t, a, eval(w, e, s).1),
    decreases e, 1nat,
{
    lemma_node(w, e, iv, t);
    match e.kind {
        ExprKind::Is(x, _) | ExprKind::As(x, _) | ExprKind::StaticSet(_, _, x)
        | ExprKind::EnumLen(x) | ExprKind::FieldGet(x, _, _)
        | ExprKind::BoundMethod(x, _, _) | ExprKind::FieldIncDec { recv: x, .. } => {
            assert(kids(&e)[0] == *x);
            lemma_kid(w, e, iv, t, 0);
            lemma_eval(w, *x, a, s, iv, t);
            let (s1, v) = eval(w, *x, s);
            lemma_any_object_op(w, seq![v], a, s1, t);
        },
        _ => {},
    }
}

proof fn lemma_eval_text_length(w: World, e: Expr, a: Store, s: Store, iv: LocalId, t: Thing)
    requires
        out_of_reach(w, t),
        spares(w, e, iv, t),
        same(t, a, s),
        s.runs(),
        e.kind is StrLen,
    ensures
        same(t, a, eval(w, e, s).0),
        apart(t, a, eval(w, e, s).1),
    decreases e, 1nat,
{
    lemma_node(w, e, iv, t);
    match e.kind {
        ExprKind::StrLen(x) => {
            assert(kids(&e)[0] == *x);
            lemma_kid(w, e, iv, t, 0);
            lemma_eval(w, *x, a, s, iv, t);
            lemma_apart(w, t, a, eval(w, e, s).1);
        },
        _ => {},
    }
}

proof fn lemma_eval_length(w: World, e: Expr, a: Store, s: Store, iv: LocalId, t: Thing)
    requires
        out_of_reach(w, t),
        spares(w, e, iv, t),
        same(t, a, s),
        s.runs(),
        e.kind is SeqLen,
    ensures
        same(t, a, eval(w, e, s).0),
        apart(t, a, eval(w, e, s).1),
    decreases e, 1nat,
{
    lemma_node(w, e, iv, t);
    match e.kind {
        ExprKind::SeqLen(x) => {
            assert(kids(&e)[0] == *x);
            if t matches Thing::Length(v, _) && local_of(&*x) == Some(v) {
                assert(eval(w, *x, s).0 == s);
            } else {
                lemma_kid(w, e, iv, t, 0);
                lemma_eval(w, *x, a, s, iv, t);
            }
            lemma_apart(w, t, a, eval(w, e, s).1);
        },
        _ => {},
    }
}

proof fn lemma_eval_element(w: World, e: Expr, a: Store, s: Store, iv: LocalId, t: Thing)
    requires
        out_of_reach(w, t),
        spares(w, e, iv, t),
        same(t, a, s),
        s.runs(),
        e.kind is SeqGet,
    ensures
        same(t, a, eval(w, e, s).0),
        apart(t, a, eval(w, e, s).1),
    decreases e, 1nat,
{
    lemma_node(w, e, iv, t);
    match e.kind {
        ExprKind::SeqGet(x, i, _) => {
            assert(kids(&e)[0] == *x && kids(&e)[1] == *i);
            if t matches Thing::Length(v, _) && good_use(&e, iv, v) {
                assert(eval(w, *x, s).0 == s);
            } else {
                lemma_kid(w, e, iv, t, 0);
                lemma_eval(w, *x, a, s, iv, t);
            }
            let (s1, y) = eval(w, *x, s);
            lemma_kid(w, e, iv, t, 1);
            lemma_eval(w, *i, a, s1, iv, t);
            let (s2, z) = eval(w, *i, s1);
            lemma_throw(w, t, a, s2, s2.tick, s2.tick + 1);
            lemma_apart(w, t, a, (w.apply)("element"@, seq![y, z], s2.tick));
        },
        _ => {},
    }
}

proof fn lemma_eval_element_write(w: World, e: Expr, a: Store, s: Store, iv: LocalId, t: Thing)
    requires
        out_of_reach(w, t),
        spares(w, e, iv, t),
        same(t, a, s),
        s.runs(),
        e.kind is SeqSet,
    ensures
        same(t, a, eval(w, e, s).0),
        apart(t, a, eval(w, e, s).1),
    decreases e, 1nat,
{
    lemma_node(w, e, iv, t);
    match e.kind {
        ExprKind::SeqSet(x, i, v, _) => {
            assert(kids(&e)[0] == *x && kids(&e)[1] == *i && kids(&e)[2] == *v);
            if t matches Thing::Length(v, _) && good_use(&e, iv, v) {
                assert(eval(w, *x, s).0 == s);
            } else {
                lemma_kid(w, e, iv, t, 0);
                lemma_eval(w, *x, a, s, iv, t);
            }
            let (s1, y) = eval(w, *x, s);
            lemma_kid(w, e, iv, t, 1);
            lemma_eval(w, *i, a, s1, iv, t);
            let (s2, z) = eval(w, *i, s1);
            lemma_kid(w, e, iv, t, 2);
            lemma_eval(w, *v, a, s2, iv, t);
            let (s3, q) = eval(w, *v, s2);
            lemma_throw(w, t, a, s3, s3.tick, s3.tick + 1);
        },
        _ => {},
    }
}

proof fn lemma_eval_binary(w: World, e: Expr, a: Store, s: Store, iv: LocalId, t: Thing)
    requires
        out_of_reach(w, t),
        spares(w, e, iv, t),
        same(t, a, s),
        s.runs(),
        e.kind is Binary,
    ensures
        same(t, a, eval(w, e, s).0),
        apart(t, a, eval(w, e, s).1),
    decreases e, 1nat,
{
    lemma_node(w, e, iv, t);
    match e.kind {
        ExprKind::Binary(_, x, y) => {
            lemma_two(w, e, *x, *y, a, s, iv, t);
            let (s1, u) = eval(w, *x, s);
            let (s2, v) = eval(w, *y, s1);
            lemma_operator(w, e, seq![u, v], a, s2, iv, t);
        },
        _ => {},
    }
}

proof fn lemma_eval_logical(w: World, e: Expr, a: Store, s: Store, iv: LocalId, t: Thing)
    requires
        out_of_reach(w, t),
        spares(w, e, iv, t),
        same(t, a, s),
        s.runs(),
        e.kind is Logical,
    ensures
        same(t, a, eval(w, e, s).0),
        apart(t, a, eval(w, e, s).1),
    decreases e, 1nat,
{
    lemma_node(w, e, iv, t);
    match e.kind {
        ExprKind::Logical { lhs: x, rhs: y, .. } => {
            lemma_two(w, e, *x, *y, a, s, iv, t);
        },
        _ => {},
    }
}

proof fn lemma_eval_comma(w: World, e: Expr, a: Store, s: Store, iv: LocalId, t: Thing)
    requires
        out_of_reach(w, t),
        spares(w, e, iv, t),
        same(t, a, s),
        s.runs(),
        e.kind is Comma,
    ensures
        same(t, a, eval(w, e, s).0),
        apart(t, a, eval(w, e, s).1),
    decreases e, 1nat,
{
    lemma_node(w, e, iv, t);
    match e.kind {
        ExprKind::Comma(x, y) => {
            lemma_two(w, e, *x, *y, a, s, iv, t);
        },
        _ => {},
    }
}

proof fn lemma_eval_conditional(w: World, e: Expr, a: Store, s: Store, iv: LocalId, t: Thing)
    requires
        out_of_reach(w, t),
        spares(w, e, iv, t),
        same(t, a, s),
        s.runs(),
        e.kind is Conditional,
    ensures
        same(t, a, eval(w, e, s).0),
        apart(t, a, eval(w, e, s).1),
    decreases e, 1nat,
{
    lemma_node(w, e, iv, t);
    match e.kind {
        ExprKind::Conditional(x, y, z) => {
            lemma_two(w, e, *x, *y, a, s, iv, t);
            assert(kids(&e)[2] == *z);
            lemma_kid(w, e, iv, t, 2);
            lemma_eval(w, *z, a, eval(w, *x, s).0, iv, t);
        },
        _ => {},
    }
}

proof fn lemma_eval_binary_object(w: World, e: Expr, a: Store, s: Store, iv: LocalId, t: Thing)
    requires
        out_of_reach(w, t),
        spares(w, e, iv, t),
        same(t, a, s),
        s.runs(),
        e.kind is EnumKey || e.kind is EnumValue || e.kind is FieldSet || e.kind is SeqSetLen,
    ensures
        same(t, a, eval(w, e, s).0),
        apart(t, a, eval(w, e, s).1),
    decreases e, 1nat,
{
    lemma_node(w, e, iv, t);
    match e.kind {
        ExprKind::EnumKey(x, y) | ExprKind::EnumValue(x, y) | ExprKind::FieldSet(x, _, _, y)
        | ExprKind::SeqSetLen(x, y) => {
            lemma_two(w, e, *x, *y, a, s, iv, t);
            let (s1, u) = eval(w, *x, s);
            let (s2, v) = eval(w, *y, s1);
            lemma_any_object_op(w, seq![u, v], a, s2, t);
        },
        _ => {},
    }
}

proof fn lemma_eval_binary_member(w: World, e: Expr, a: Store, s: Store, iv: LocalId, t: Thing)
    requires
        out_of_reach(w, t),
        spares(w, e, iv, t),
        same(t, a, s),
        s.runs(),
        e.kind is AnyIndexGet || e.kind is HasProp || e.kind is PropSet || e.kind is NsGet,
    ensures
        same(t, a, eval(w, e, s).0),
        apart(t, a, eval(w, e, s).1),
    decreases e, 1nat,
{
    lemma_node(w, e, iv, t);
    match e.kind {
        ExprKind::AnyIndexGet(x, y) | ExprKind::HasProp(x, y) | ExprKind::PropSet(x, _, y)
        | ExprKind::NsGet(x, y, _) => {
            lemma_two(w, e, *x, *y, a, s, iv, t);
            let (s1, u) = eval(w, *x, s);
            let (s2, v) = eval(w, *y, s1);
            lemma_any_outer_op(w, seq![u, v], a, s2, t);
        },
        _ => {},
    }
}

proof fn lemma_eval_index_write(w: World, e: Expr, a: Store, s: Store, iv: LocalId, t: Thing)
    requires
        out_of_reach(w, t),
        spares(w, e, iv, t),
        same(t, a, s),
        s.runs(),
        e.kind is AnyIndexSet,
    ensures
        same(t, a, eval(w, e, s).0),
        apart(t, a, eval(w, e, s).1),
    decreases e, 1nat,
{
    lemma_node(w, e, iv, t);
    match e.kind {
        ExprKind::AnyIndexSet(x, y, z) => {
            lemma_two(w, e, *x, *y, a, s, iv, t);
            let (s1, u) = eval(w, *x, s);
            let (s2, v) = eval(w, *y, s1);
            assert(kids(&e)[2] == *z);
            lemma_kid(w, e, iv, t, 2);
            lemma_eval(w, *z, a, s2, iv, t);
            let (s3, q) = eval(w, *z, s2);
            lemma_any_outer_op(w, seq![u, v, q], a, s3, t);
        },
        _ => {},
    }
}

proof fn lemma_eval_unary_member(w: World, e: Expr, a: Store, s: Store, iv: LocalId, t: Thing)
    requires
        out_of_reach(w, t),
        spares(w, e, iv, t),
        same(t, a, s),
        s.runs(),
        e.kind is PropGet || e.kind is DeleteProp || e.kind is NewNamespace || e.kind is NsUri,
    ensures
        same(t, a, eval(w, e, s).0),
        apart(t, a, eval(w, e, s).1),
    decreases e, 1nat,
{
    lemma_node(w, e, iv, t);
    match e.kind {
        ExprKind::PropGet(x, _) | ExprKind::DeleteProp(x, _) | ExprKind::NewNamespace(x)
        | ExprKind::NsUri(x) => {
            assert(kids(&e)[0] == *x);
            lemma_kid(w, e, iv, t, 0);
            lemma_eval(w, *x, a, s, iv, t);
            let (s1, v) = eval(w, *x, s);
            lemma_any_outer_op(w, seq![v], a, s1, t);
        },
        _ => {},
    }
}

proof fn lemma_eval_call(w: World, e: Expr, a: Store, s: Store, iv: LocalId, t: Thing)
    requires
        out_of_reach(w, t),
        spares(w, e, iv, t),
        same(t, a, s),
        s.runs(),
        e.kind is CallFn,
    ensures
        same(t, a, eval(w, e, s).0),
        apart(t, a, eval(w, e, s).1),
    decreases e, 1nat,
{
    lemma_node(w, e, iv, t);
    match e.kind {
        ExprKind::CallFn(f, args) => {
            lemma_args(w, e, args@, 0, iv, t);
            lemma_eval_all(w, args@, args@.len(), a, s, iv, t);
            let (s1, xs) = eval_all(w, args@, args@.len(), s);
            lemma_apart(w, t, a, Val::Int(f.0 as int));
            lemma_any_outer_op(w, seq![Val::Int(f.0 as int)] + xs, a, s1, t);
        },
        _ => {},
    }
}

proof fn lemma_eval_other_call(w: World, e: Expr, a: Store, s: Store, iv: LocalId, t: Thing)
    requires
        out_of_reach(w, t),
        spares(w, e, iv, t),
        same(t, a, s),
        s.runs(),
        e.kind is New || e.kind is CallNative || e.kind is NewRegExp || e.kind is CallRegex
        || e.kind is NewDate || e.kind is CallDate || e.kind is CallSocket
        || e.kind is CallBuiltin,
    ensures
        same(t, a, eval(w, e, s).0),
        apart(t, a, eval(w, e, s).1),
    decreases e, 1nat,
{
    lemma_node(w, e, iv, t);
    match e.kind {
        ExprKind::New(_, args) | ExprKind::CallNative(_, args) | ExprKind::NewRegExp(args)
        | ExprKind::CallRegex(_, args) | ExprKind::NewDate(args)
        | ExprKind::CallDate(_, args) | ExprKind::CallSocket(_, args)
        | ExprKind::CallBuiltin(_, args) => {
            lemma_args(w, e, args@, 0, iv, t);
            lemma_eval_all(w, args@, args@.len(), a, s, iv, t);
            let (s1, xs) = eval_all(w, args@, args@.len(), s);
            lemma_any_outer_op(w, xs, a, s1, t);
        },
        _ => {},
    }
}

proof fn lemma_eval_vector(w: World, e: Expr, a: Store, s: Store, iv: LocalId, t: Thing)
    requires
        out_of_reach(w, t),
        spares(w, e, iv, t),
        same(t, a, s),
        s.runs(),
        e.kind is VectorLit,
    ensures
        same(t, a, eval(w, e, s).0),
        apart(t, a, eval(w, e, s).1),
    decreases e, 1nat,
{
    lemma_node(w, e, iv, t);
    match e.kind {
        ExprKind::VectorLit(_, args) => {
            lemma_args(w, e, args@, 0, iv, t);
            lemma_eval_all(w, args@, args@.len(), a, s, iv, t);
            let (s1, xs) = eval_all(w, args@, args@.len(), s);
            lemma_any_object_op(w, xs, a, s1, t);
        },
        _ => {},
    }
}

proof fn lemma_eval_method(w: World, e: Expr, a: Store, s: Store, iv: LocalId, t: Thing)
    requires
        out_of_reach(w, t),
        spares(w, e, iv, t),
        same(t, a, s),
        s.runs(),
        e.kind is CallStrMethod || e.kind is CallNumMethod || e.kind is CallArr
        || e.kind is CallVec || e.kind is PropCall || e.kind is CallVirtual || e.kind is CallIface
        || e.kind is CallDirect,
    ensures
        same(t, a, eval(w, e, s).0),
        apart(t, a, eval(w, e, s).1),
    decreases e, 1nat,
{
    lemma_node(w, e, iv, t);
    match e.kind {
        ExprKind::CallStrMethod(_, x, args) | ExprKind::CallNumMethod(_, x, args)
        | ExprKind::CallArr(_, x, args) | ExprKind::CallVec(_, x, args)
        | ExprKind::PropCall(x, _, args) | ExprKind::CallVirtual { recv: x, args, .. }
        | ExprKind::CallIface { recv: x, args, .. }
        | ExprKind::CallDirect { recv: x, args, .. } => {
            assert(kids(&e)[0] == *x);
            lemma_kid(w, e, iv, t, 0);
            lemma_eval(w, *x, a, s, iv, t);
            let (s1, v) = eval(w, *x, s);
            lemma_args(w, e, args@, 1, iv, t);
            lemma_eval_all(w, args@, args@.len(), a, s1, iv, t);
            let (s2, xs) = eval_all(w, args@, args@.len(), s1);
            lemma_any_outer_op(w, seq![v] + xs, a, s2, t);
        },
        _ => {},
    }
}

proof fn lemma_eval_qualified_call(w: World, e: Expr, a: Store, s: Store, iv: LocalId, t: Thing)
    requires
        out_of_reach(w, t),
        spares(w, e, iv, t),
        same(t, a, s),
        s.runs(),
        e.kind is NsCall,
    ensures
        same(t, a, eval(w, e, s).0),
        apart(t, a, eval(w, e, s).1),
    decreases e, 1nat,
{
    lemma_node(w, e, iv, t);
    match e.kind {
        ExprKind::NsCall(x, y, _, args) => {
            lemma_two(w, e, *x, *y, a, s, iv, t);
            let (s1, u) = eval(w, *x, s);
            let (s2, v) = eval(w, *y, s1);
            lemma_args(w, e, args@, 2, iv, t);
            lemma_eval_all(w, args@, args@.len(), a, s2, iv, t);
            let (s3, xs) = eval_all(w, args@, args@.len(), s2);
            lemma_any_outer_op(w, seq![u, v] + xs, a, s3, t);
        },
        _ => {},
    }
}

proof fn lemma_eval_value_call(w: World, e: Expr, a: Store, s: Store, iv: LocalId, t: Thing)
    requires
        out_of_reach(w, t),
        spares(w, e, iv, t),
        same(t, a, s),
        s.runs(),
        e.kind is CallFnValue,
    ensures
        same(t, a, eval(w, e, s).0),
        apart(t, a, eval(w, e, s).1),
    decreases e, 1nat,
{
    lemma_node(w, e, iv, t);
    match e.kind {
        ExprKind::CallFnValue { callee: x, this_arg: Some(y), args, .. } => {
            lemma_two(w, e, *x, *y, a, s, iv, t);
            let (s1, u) = eval(w, *x, s);
            let (s2, v) = eval(w, *y, s1);
            lemma_args(w, e, args@, 2, iv, t);
            lemma_eval_all(w, args@, args@.len(), a, s2, iv, t);
            let (s3, xs) = eval_all(w, args@, args@.len(), s2);
            lemma_any_outer_op(w, seq![u, v] + xs, a, s3, t);
        },
        ExprKind::CallFnValue { callee: x, this_arg: None, args, .. } => {
            assert(kids(&e)[0] == *x);
            lemma_kid(w, e, iv, t, 0);
            lemma_eval(w, *x, a, s, iv, t);
            let (s1, v) = eval(w, *x, s);
            lemma_args(w, e, args@, 1, iv, t);
            lemma_eval_all(w, args@, args@.len(), a, s1, iv, t);
            let (s2, xs) = eval_all(w, args@, args@.len(), s1);
            lemma_any_outer_op(w, seq![v] + xs, a, s2, t);
        },
        _ => {},
    }
}

proof fn lemma_eval_array(w: World, e: Expr, a: Store, s: Store, iv: LocalId, t: Thing)
    requires
        out_of_reach(w, t),
        spares(w, e, iv, t),
        same(t, a, s),
        s.runs(),
        e.kind is ArrayLit,
    ensures
        same(t, a, eval(w, e, s).0),
        apart(t, a, eval(w, e, s).1),
    decreases e, 1nat,
{
    lemma_node(w, e, iv, t);
    match e.kind {
        ExprKind::ArrayLit(els) => {
            assert forall|i: int| 0 <= i < kids(&e).len() implies spares(
                w,
                #[trigger] present(els@, els@.len())[i],
                iv,
                t,
            ) by {
                lemma_kid(w, e, iv, t, i);
            }
            lemma_eval_some(w, els@, els@.len(), a, s, iv, t);
            let (s1, xs) = eval_some(w, els@, els@.len(), s);
            lemma_any_object_op(w, xs, a, s1, t);
        },
        _ => {},
    }
}

proof fn lemma_eval_object(w: World, e: Expr, a: Store, s: Store, iv: LocalId, t: Thing)
    requires
        out_of_reach(w, t),
        spares(w, e, iv, t),
        same(t, a, s),
        s.runs(),
        e.kind is ObjectLit,
    ensures
        same(t, a, eval(w, e, s).0),
        apart(t, a, eval(w, e, s).1),
    decreases e, 1nat,
{
    lemma_node(w, e, iv, t);
    match e.kind {
        ExprKind::ObjectLit(props) => {
            assert forall|i: int| 0 <= i < props@.len() implies spares(
                w,
                (#[trigger] props@[i]).1,
                iv,
                t,
            ) by {
                lemma_kid(w, e, iv, t, i);
                assert(kids(&e)[i] == props@[i].1);
            }
            lemma_eval_props(w, props@, props@.len(), a, s, iv, t);
            let (s1, xs) = eval_props(w, props@, props@.len(), s);
            lemma_any_object_op(w, xs, a, s1, t);
        },
        _ => {},
    }
}

proof fn lemma_any_object_op(w: World, xs: Seq<Val>, a: Store, s: Store, t: Thing)
    requires
        out_of_reach(w, t),
        same(t, a, s),
        all_apart(t, a, xs),
    ensures
        forall|name: Seq<char>|
            #![trigger object_op(w, name, xs, s)]
            same(t, a, object_op(w, name, xs, s).0) && apart(t, a, object_op(w, name, xs, s).1),
{
    assert forall|name: Seq<char>|
        #![trigger object_op(w, name, xs, s)]
        same(t, a, object_op(w, name, xs, s).0) && apart(t, a, object_op(w, name, xs, s).1) by {
        lemma_object_op(w, name, xs, a, s, t);
    }
}

proof fn lemma_any_outer_op(w: World, xs: Seq<Val>, a: Store, s: Store, t: Thing)
    requires
        out_of_reach(w, t),
        same(t, a, s),
        all_apart(t, a, xs),
        safe_from_others(w, t),
    ensures
        forall|name: Seq<char>|
            #![trigger outer_op(w, name, xs, s)]
            same(t, a, outer_op(w, name, xs, s).0) && apart(t, a, outer_op(w, name, xs, s).1),
{
    assert forall|name: Seq<char>|
        #![trigger outer_op(w, name, xs, s)]
        same(t, a, outer_op(w, name, xs, s).0) && apart(t, a, outer_op(w, name, xs, s).1) by {
        lemma_outer_op(w, name, xs, a, s, t);
    }
}

/// An operator either has primitive operands or can run other code.
proof fn lemma_operator(w: World, e: Expr, xs: Seq<Val>, a: Store, s: Store, iv: LocalId, t: Thing)
    requires
        out_of_reach(w, t),
        spares(w, e, iv, t),
        same(t, a, s),
        all_apart(t, a, xs),
        e.kind is Unary || e.kind is Conv || e.kind is Binary,
    ensures
        forall|name: Seq<char>, p: bool|
            #![trigger operator(w, name, xs, p, s)]
            p || does(&e, iv, Fact::Calls) ==> same(t, a, operator(w, name, xs, p, s).0) && apart(
                t,
                a,
                operator(w, name, xs, p, s).1,
            ),
{
    lemma_node(w, e, iv, t);
    if does(&e, iv, Fact::Calls) {
        lemma_any_outer_op(w, xs, a, s, t);
    }
    assert forall|name: Seq<char>, p: bool|
        #![trigger operator(w, name, xs, p, s)]
        p || does(&e, iv, Fact::Calls) implies same(t, a, operator(w, name, xs, p, s).0) && apart(
        t,
        a,
        operator(w, name, xs, p, s).1,
    ) by {
        if p {
            lemma_apart(w, t, a, operator(w, name, xs, p, s).1);
        }
    }
}

/// The first two parts, one after the other.
proof fn lemma_two(w: World, e: Expr, x: Expr, y: Expr, a: Store, s: Store, iv: LocalId, t: Thing)
    requires
        out_of_reach(w, t),
        spares(w, e, iv, t),
        same(t, a, s),
        kids(&e).len() >= 2,
        kids(&e)[0] == x,
        kids(&e)[1] == y,
        !(e.kind is SeqGet) && !(e.kind is SeqSet),
        decreases_to!(e => x),
        decreases_to!(e => y),
    ensures
        same(t, a, eval(w, x, s).0),
        apart(t, a, eval(w, x, s).1),
        same(t, a, eval(w, y, eval(w, x, s).0).0),
        apart(t, a, eval(w, y, eval(w, x, s).0).1),
    decreases e, 0nat,
{
    lemma_kid(w, e, iv, t, 0);
    lemma_kid(w, e, iv, t, 1);
    lemma_eval(w, x, a, s, iv, t);
    lemma_eval(w, y, a, eval(w, x, s).0, iv, t);
}

/// The arguments, which are the parts from `from` on.
proof fn lemma_args(w: World, e: Expr, args: Seq<Expr>, from: int, iv: LocalId, t: Thing)
    requires
        spares(w, e, iv, t),
        0 <= from,
        kids(&e).len() == from + args.len(),
        forall|i: int| 0 <= i < args.len() ==> kids(&e)[from + i] == #[trigger] args[i],
        forall|v: LocalId| !good_use(&e, iv, v),
    ensures
        forall|i: int| 0 <= i < args.len() ==> spares(w, #[trigger] args[i], iv, t),
{
    assert forall|i: int| 0 <= i < args.len() implies spares(w, #[trigger] args[i], iv, t) by {
        lemma_kid(w, e, iv, t, from + i);
    }
}

proof fn lemma_eval_all(
    w: World,
    es: Seq<Expr>,
    n: nat,
    a: Store,
    s: Store,
    iv: LocalId,
    t: Thing,
)
    requires
        out_of_reach(w, t),
        forall|i: int| 0 <= i < es.len() ==> spares(w, #[trigger] es[i], iv, t),
        same(t, a, s),
    ensures
        same(t, a, eval_all(w, es, n, s).0),
        all_apart(t, a, eval_all(w, es, n, s).1),
    decreases es, n,
{
    if 0 < n <= es.len() {
        lemma_eval_all(w, es, (n - 1) as nat, a, s, iv, t);
        assert(spares(w, es[n - 1], iv, t));
        lemma_eval(w, es[n - 1], a, eval_all(w, es, (n - 1) as nat, s).0, iv, t);
    }
}

proof fn lemma_eval_some(
    w: World,
    es: Seq<Option<Expr>>,
    n: nat,
    a: Store,
    s: Store,
    iv: LocalId,
    t: Thing,
)
    requires
        out_of_reach(w, t),
        forall|i: int|
            0 <= i < present(es, n).len() ==> spares(w, #[trigger] present(es, n)[i], iv, t),
        same(t, a, s),
    ensures
        same(t, a, eval_some(w, es, n, s).0),
        all_apart(t, a, eval_some(w, es, n, s).1),
    decreases es, n,
{
    if 0 < n <= es.len() {
        let m = (n - 1) as nat;
        assert forall|i: int| 0 <= i < present(es, m).len() implies spares(
            w,
            #[trigger] present(es, m)[i],
            iv,
            t,
        ) by {
            assert(present(es, n)[i] == present(es, m)[i]);
        }
        lemma_eval_some(w, es, m, a, s, iv, t);
        if let Some(e) = es[n - 1] {
            assert(present(es, n)[present(es, m).len() as int] == e);
            lemma_eval(w, e, a, eval_some(w, es, m, s).0, iv, t);
        } else {
            lemma_apart(w, t, a, Val::Undefined);
        }
    }
}

proof fn lemma_eval_props(
    w: World,
    ps: Seq<(String, Expr)>,
    n: nat,
    a: Store,
    s: Store,
    iv: LocalId,
    t: Thing,
)
    requires
        out_of_reach(w, t),
        forall|i: int| 0 <= i < ps.len() ==> spares(w, (#[trigger] ps[i]).1, iv, t),
        same(t, a, s),
    ensures
        same(t, a, eval_props(w, ps, n, s).0),
        all_apart(t, a, eval_props(w, ps, n, s).1),
    decreases ps, n,
{
    if 0 < n <= ps.len() {
        lemma_eval_props(w, ps, (n - 1) as nat, a, s, iv, t);
        assert(spares(w, ps[n - 1].1, iv, t));
        lemma_eval(w, ps[n - 1].1, a, eval_props(w, ps, (n - 1) as nat, s).0, iv, t);
    }
}

// --- statements ---------------------------------------------------------------------------

proof fn lemma_stmt_expr_fact(st: Stmt, iv: LocalId, f: Fact, i: int)
    requires
        !stmt_fact(&st, iv, f),
        0 <= i < stmt_exprs(&st).len(),
    ensures
        !expr_fact(&stmt_exprs(&st)[i], iv, f),
{
}

proof fn lemma_stmt_kid_fact(st: Stmt, iv: LocalId, f: Fact, i: int)
    requires
        !stmt_fact(&st, iv, f),
        0 <= i < stmt_kids(&st).len(),
    ensures
        !stmt_fact(&stmt_kids(&st)[i], iv, f),
{
}

proof fn lemma_stmt_own_fact(st: Stmt, iv: LocalId, f: Fact)
    requires
        !stmt_fact(&st, iv, f),
    ensures
        !stmt_does(&st, f),
{
}

/// The expressions of a statement spare what it does.
proof fn lemma_exprs_spare(w: World, st: Stmt, iv: LocalId, t: Thing)
    requires
        spared(w, st, iv, t),
    ensures
        forall|i: int|
            0 <= i < stmt_exprs(&st).len() ==> spares(w, #[trigger] stmt_exprs(&st)[i], iv, t),
{
    reveal(spares);
    reveal(spared);
    assert forall|i: int| 0 <= i < stmt_exprs(&st).len() implies spares(
        w,
        #[trigger] stmt_exprs(&st)[i],
        iv,
        t,
    ) by {
        match t {
            Thing::Local(l) => {
                lemma_stmt_expr_fact(st, iv, Fact::Writes(l), i);
                if (w.meddles)(l.0 as int) {
                    lemma_stmt_expr_fact(st, iv, Fact::Calls, i);
                }
            },
            Thing::Cell(c) => {
                lemma_stmt_expr_fact(st, iv, Fact::WritesCapture(c), i);
                if (w.meddles_cell)(c as int) {
                    lemma_stmt_expr_fact(st, iv, Fact::Calls, i);
                }
            },
            Thing::Length(v, _) => {
                lemma_stmt_expr_fact(st, iv, Fact::Writes(v), i);
                lemma_stmt_expr_fact(st, iv, Fact::Misuses(v), i);
            },
        }
    }
}

/// The statements in a statement spare what it does.
proof fn lemma_stmts_spare(w: World, st: Stmt, iv: LocalId, t: Thing)
    requires
        spared(w, st, iv, t),
    ensures
        forall|i: int|
            0 <= i < stmt_kids(&st).len() ==> spared(w, #[trigger] stmt_kids(&st)[i], iv, t),
{
    reveal(spared);
    assert forall|i: int| 0 <= i < stmt_kids(&st).len() implies spared(
        w,
        #[trigger] stmt_kids(&st)[i],
        iv,
        t,
    ) by {
        match t {
            Thing::Local(l) => {
                lemma_stmt_kid_fact(st, iv, Fact::Writes(l), i);
                if (w.meddles)(l.0 as int) {
                    lemma_stmt_kid_fact(st, iv, Fact::Calls, i);
                }
            },
            Thing::Cell(c) => {
                lemma_stmt_kid_fact(st, iv, Fact::WritesCapture(c), i);
                if (w.meddles_cell)(c as int) {
                    lemma_stmt_kid_fact(st, iv, Fact::Calls, i);
                }
            },
            Thing::Length(v, _) => {
                lemma_stmt_kid_fact(st, iv, Fact::Writes(v), i);
                lemma_stmt_kid_fact(st, iv, Fact::Misuses(v), i);
            },
        }
    }
}

/// The local is not the thing, nor the one that holds it.
spec fn is_other(t: Thing, l: LocalId) -> bool {
    match t {
        Thing::Local(m) => m != l,
        Thing::Length(v, _) => v != l,
        Thing::Cell(_) => true,
    }
}

/// What the statement itself writes is another local.
proof fn lemma_stmt_node(w: World, st: Stmt, iv: LocalId, t: Thing)
    requires
        spared(w, st, iv, t),
    ensures
        st matches Stmt::Assign(l, _) ==> is_other(t, l),
        st matches Stmt::Try { catches, .. } ==> forall|i: int|
            0 <= i < catches@.len() ==> is_other(t, (#[trigger] catches@[i]).binding),
{
    reveal(spared);
    match t {
        Thing::Local(l) => lemma_stmt_own_fact(st, iv, Fact::Writes(l)),
        Thing::Length(v, _) => lemma_stmt_own_fact(st, iv, Fact::Writes(v)),
        Thing::Cell(_) => {},
    }
    if let Stmt::Try { catches, .. } = st {
        assert forall|i: int| 0 <= i < catches@.len() implies is_other(
            t,
            (#[trigger] catches@[i]).binding,
        ) by {
            lemma_binds(catches@, catches@.len(), i);
        }
    }
}

proof fn lemma_binds(cs: Seq<Catch>, n: nat, i: int)
    requires
        0 <= i < n <= cs.len(),
    ensures
        binds(cs, n, cs[i].binding),
    decreases n,
{
    if i < n - 1 {
        lemma_binds(cs, (n - 1) as nat, i);
    }
}

/// Where control is does not matter, unless the thing itself is thrown.
proof fn lemma_go(t: Thing, a: Store, s: Store, j: Jump)
    requires
        same(t, a, s),
        j matches Jump::Throw(x) ==> apart(t, a, x),
    ensures
        same(t, a, s.go(j)),
        same(t, a, s.jumps(j)),
{
    reveal(same);
    reveal(apart);
}

proof fn lemma_thrown(t: Thing, a: Store, s: Store)
    requires
        same(t, a, s),
    ensures
        s.jump matches Jump::Throw(x) ==> apart(t, a, x),
{
    reveal(same);
    reveal(apart);
}

/// Running a statement leaves what it spares as it is.
proof fn lemma_exec(w: World, st: Stmt, n: nat, a: Store, s: Store, iv: LocalId, t: Thing)
    requires
        out_of_reach(w, t),
        spared(w, st, iv, t),
        same(t, a, s),
    ensures
        same(t, a, exec(w, st, n, s)),
    decreases st, n, 2nat,
{
    if s.runs() {
        lemma_exprs_spare(w, st, iv, t);
        lemma_stmts_spare(w, st, iv, t);
        lemma_stmt_node(w, st, iv, t);
        match st {
            Stmt::Expr(e) => {
                assert(stmt_exprs(&st)[0] == e);
                lemma_eval(w, e, a, s, iv, t);
            },
            Stmt::Assign(l, e) => {
                assert(stmt_exprs(&st)[0] == e);
                lemma_eval(w, e, a, s, iv, t);
                let (s1, x) = eval(w, e, s);
                lemma_set(t, a, s1, l, x);
            },
            Stmt::Block(b) => {
                assert(stmt_kids(&st) == b@);
                lemma_exec_all(w, b@, b@.len(), n, a, s, iv, t);
            },
            Stmt::If { cond, then_branch, else_branch } => {
                assert(stmt_exprs(&st)[0] == cond);
                lemma_eval(w, cond, a, s, iv, t);
                let s1 = tested(w, Some(cond), s).0;
                assert(stmt_kids(&st)[0] == *then_branch);
                lemma_exec(w, *then_branch, n, a, s1, iv, t);
                if let Some(x) = else_branch {
                    assert(stmt_kids(&st)[1] == *x);
                    lemma_exec(w, *x, n, a, s1, iv, t);
                }
            },
            Stmt::While { .. } | Stmt::DoWhile { .. } => {
                lemma_rounds(w, st, n, a, s, iv, t);
                lemma_go(t, a, rounds(w, st, n, s), Jump::Go);
            },
            Stmt::For { init, .. } => {
                if let Some(x) = init {
                    assert(stmt_kids(&st)[0] == *x);
                    lemma_exec(w, *x, n, a, s, iv, t);
                    let s1 = exec(w, *x, n, s);
                    lemma_rounds(w, st, n, a, s1, iv, t);
                    lemma_go(t, a, rounds(w, st, n, s1), Jump::Go);
                } else {
                    lemma_rounds(w, st, n, a, s, iv, t);
                    lemma_go(t, a, rounds(w, st, n, s), Jump::Go);
                }
            },
            Stmt::Switch { scrutinee, cases } => {
                assert(stmt_exprs(&st)[0] == scrutinee);
                lemma_eval(w, scrutinee, a, s, iv, t);
                let (s1, x) = eval(w, scrutinee, s);
                assert forall|i: int| 0 <= i < case_tests(cases@, cases@.len()).len() implies spares(
                    w,
                    #[trigger] case_tests(cases@, cases@.len())[i],
                    iv,
                    t,
                ) by {
                    assert(stmt_exprs(&st)[i + 1] == case_tests(cases@, cases@.len())[i]);
                }
                lemma_matching(w, cases@, cases@.len(), x, a, s1, iv, t);
                let (s2, k) = chosen(w, cases@, cases@.len(), x, s1);
                if let Some(k) = k {
                    assert(stmt_kids(&st) == case_stmts(cases@, cases@.len()));
                    lemma_bodies(w, cases@, k, cases@.len(), n, a, s2, iv, t);
                    lemma_go(t, a, bodies(w, cases@, k, cases@.len(), n, s2), Jump::Go);
                }
            },
            Stmt::Return { value: Some(e) } => {
                assert(stmt_exprs(&st)[0] == e);
                lemma_eval(w, e, a, s, iv, t);
                let (s1, x) = eval(w, e, s);
                lemma_go(t, a, s1, Jump::Return(Some(x)));
            },
            Stmt::Throw(e) => {
                assert(stmt_exprs(&st)[0] == e);
                lemma_eval(w, e, a, s, iv, t);
                let (s1, x) = eval(w, e, s);
                lemma_go(t, a, s1, Jump::Throw(x));
            },
            Stmt::Try { .. } => {
                lemma_exec_try(w, st, n, a, s, iv, t);
            },
            Stmt::Break { label } => {
                lemma_go(t, a, s, Jump::Break(label_of(label)));
            },
            Stmt::Continue { label } => {
                lemma_go(t, a, s, Jump::Continue(label_of(label)));
            },
            Stmt::Return { value: None } => {
                lemma_go(t, a, s, Jump::Return(None));
            },
            Stmt::Empty => {},
        }
    }
}

proof fn lemma_exec_try(w: World, st: Stmt, n: nat, a: Store, s: Store, iv: LocalId, t: Thing)
    requires
        out_of_reach(w, t),
        spared(w, st, iv, t),
        same(t, a, s),
        st is Try,
        s.runs(),
    ensures
        same(t, a, exec(w, st, n, s)),
    decreases st, n, 1nat,
{
    lemma_stmts_spare(w, st, iv, t);
    lemma_stmt_node(w, st, iv, t);
    match st {
        Stmt::Try { body, catches, finally } => {
            let cs = catch_stmts(catches@, catches@.len());
            assert forall|i: int| 0 <= i < body@.len() implies spared(
                w,
                #[trigger] body@[i],
                iv,
                t,
            ) by {
                assert(stmt_kids(&st)[i] == body@[i]);
            }
            lemma_exec_all(w, body@, body@.len(), n, a, s, iv, t);
            let s1 = exec_all(w, body@, body@.len(), n, s);
            assert forall|i: int| 0 <= i < cs.len() implies spared(
                w,
                #[trigger] cs[i],
                iv,
                t,
            ) by {
                assert(stmt_kids(&st)[body@.len() + i] == cs[i]);
            }
            let s2 = match s1.jump {
                Jump::Throw(x) => {
                    lemma_handled(w, catches@, 0, x, n, a, s1, iv, t);
                    handled(w, catches@, 0, x, n, s1)
                },
                _ => s1,
            };
            if let Some(f) = finally {
                assert forall|i: int| 0 <= i < f@.len() implies spared(
                    w,
                    #[trigger] f@[i],
                    iv,
                    t,
                ) by {
                    assert(stmt_kids(&st)[body@.len() + cs.len() + i] == f@[i]);
                }
                lemma_go(t, a, s2, Jump::Go);
                lemma_exec_all(w, f@, f@.len(), n, a, s2.go(Jump::Go), iv, t);
                lemma_thrown(t, a, s2);
                lemma_go(t, a, exec_all(w, f@, f@.len(), n, s2.go(Jump::Go)), s2.jump);
            }
        },
        _ => {},
    }
}

proof fn lemma_exec_all(
    w: World,
    l: Seq<Stmt>,
    k: nat,
    n: nat,
    a: Store,
    s: Store,
    iv: LocalId,
    t: Thing,
)
    requires
        out_of_reach(w, t),
        forall|i: int| 0 <= i < l.len() ==> spared(w, #[trigger] l[i], iv, t),
        same(t, a, s),
    ensures
        same(t, a, exec_all(w, l, k, n, s)),
    decreases l, n, k,
{
    if 0 < k <= l.len() {
        lemma_exec_all(w, l, (k - 1) as nat, n, a, s, iv, t);
        assert(spared(w, l[k - 1], iv, t));
        lemma_exec(w, l[k - 1], n, a, exec_all(w, l, (k - 1) as nat, n, s), iv, t);
    }
}

proof fn lemma_rounds(w: World, st: Stmt, n: nat, a: Store, s: Store, iv: LocalId, t: Thing)
    requires
        out_of_reach(w, t),
        spared(w, st, iv, t),
        same(t, a, s),
    ensures
        same(t, a, rounds(w, st, n, s)),
    decreases st, n, 0nat,
{
    lemma_go(t, a, s, Jump::Over);
    if s.runs() && n > 0 {
        let m = (n - 1) as nat;
        lemma_exprs_spare(w, st, iv, t);
        lemma_stmts_spare(w, st, iv, t);
        match st {
            Stmt::While { label, cond, body } => {
                assert(stmt_exprs(&st)[0] == cond);
                lemma_eval(w, cond, a, s, iv, t);
                let s1 = tested(w, Some(cond), s).0;
                assert(stmt_kids(&st)[0] == *body);
                lemma_exec(w, *body, m, a, s1, iv, t);
                lemma_go(t, a, exec(w, *body, m, s1), Jump::Go);
                lemma_rounds(
                    w,
                    st,
                    m,
                    a,
                    next_round(
                        exec(w, *body, m, s1),
                        label_of(label),
                    ),
                    iv,
                    t,
                );
            },
            Stmt::DoWhile { label, body, cond } => {
                assert(stmt_kids(&st)[0] == *body);
                lemma_exec(w, *body, m, a, s, iv, t);
                lemma_go(t, a, exec(w, *body, m, s), Jump::Go);
                let s1 = next_round(
                    exec(w, *body, m, s),
                    label_of(label),
                );
                assert(stmt_exprs(&st)[0] == cond);
                lemma_eval(w, cond, a, s1, iv, t);
                lemma_rounds(w, st, m, a, tested(w, Some(cond), s1).0, iv, t);
            },
            Stmt::For { label, init, cond, update, body } => {
                if let Some(c) = cond {
                    assert(stmt_exprs(&st)[0] == c);
                    lemma_eval(w, c, a, s, iv, t);
                }
                let s1 = tested(w, cond, s).0;
                assert(stmt_kids(&st)[opt_stmt(init).len() as int] == *body);
                lemma_exec(w, *body, m, a, s1, iv, t);
                lemma_go(t, a, exec(w, *body, m, s1), Jump::Go);
                let s2 = next_round(
                    exec(w, *body, m, s1),
                    label_of(label),
                );
                if let Some(u) = update {
                    assert(stmt_exprs(&st)[opt_seq(cond).len() as int] == u);
                    lemma_eval(w, u, a, s2, iv, t);
                }
                lemma_rounds(w, st, m, a, done(w, update, s2), iv, t);
            },
            _ => {},
        }
    }
}

proof fn lemma_matching(
    w: World,
    cs: Seq<Case>,
    k: nat,
    x: Val,
    a: Store,
    s: Store,
    iv: LocalId,
    t: Thing,
)
    requires
        out_of_reach(w, t),
        k <= cs.len(),
        forall|i: int|
            0 <= i < case_tests(cs, k).len() ==> spares(w, #[trigger] case_tests(cs, k)[i], iv, t),
        same(t, a, s),
    ensures
        same(t, a, matching(w, cs, k, x, s).0),
    decreases k,
{
    if k > 0 {
        let m = (k - 1) as nat;
        assert forall|i: int| 0 <= i < case_tests(cs, m).len() implies spares(
            w,
            #[trigger] case_tests(cs, m)[i],
            iv,
            t,
        ) by {
            assert(case_tests(cs, k)[i] == case_tests(cs, m)[i]);
        }
        lemma_matching(w, cs, m, x, a, s, iv, t);
        if let Some(e) = cs[k - 1].test {
            assert(case_tests(cs, k)[case_tests(cs, m).len() as int] == e);
            lemma_eval(w, e, a, matching(w, cs, m, x, s).0, iv, t);
        }
    }
}

proof fn lemma_bodies(
    w: World,
    cs: Seq<Case>,
    i: int,
    k: nat,
    n: nat,
    a: Store,
    s: Store,
    iv: LocalId,
    t: Thing,
)
    requires
        out_of_reach(w, t),
        k <= cs.len(),
        forall|j: int|
            0 <= j < case_stmts(cs, k).len() ==> spared(w, #[trigger] case_stmts(cs, k)[j], iv, t),
        same(t, a, s),
    ensures
        same(t, a, bodies(w, cs, i, k, n, s)),
    decreases cs, n, k,
{
    if i < k && 0 < k {
        let m = (k - 1) as nat;
        let before = case_stmts(cs, m);
        let body = cs[k - 1].body@;
        assert forall|j: int| 0 <= j < before.len() implies spared(
            w,
            #[trigger] before[j],
            iv,
            t,
        ) by {
            assert(case_stmts(cs, k)[j] == before[j]);
        }
        assert forall|j: int| 0 <= j < body.len() implies spared(w, #[trigger] body[j], iv, t) by {
            assert(case_stmts(cs, k)[before.len() + j] == body[j]);
        }
        lemma_bodies(w, cs, i, m, n, a, s, iv, t);
        assert(decreases_to!(cs => cs[k - 1]));
        lemma_exec_all(w, body, body.len(), n, a, bodies(w, cs, i, m, n, s), iv, t);
    }
}

proof fn lemma_catch_at(cs: Seq<Catch>, n: nat, i: int, j: int) -> (p: int)
    requires
        0 <= i < n <= cs.len(),
        0 <= j < cs[i].body@.len(),
    ensures
        0 <= p < catch_stmts(cs, n).len(),
        catch_stmts(cs, n)[p] == cs[i].body@[j],
    decreases n,
{
    let before = catch_stmts(cs, (n - 1) as nat);
    if i < n - 1 {
        let p = lemma_catch_at(cs, (n - 1) as nat, i, j);
        assert(catch_stmts(cs, n)[p] == before[p]);
        p
    } else {
        assert(catch_stmts(cs, n)[before.len() + j] == cs[i].body@[j]);
        before.len() + j
    }
}

proof fn lemma_handled(
    w: World,
    cs: Seq<Catch>,
    i: int,
    x: Val,
    n: nat,
    a: Store,
    s: Store,
    iv: LocalId,
    t: Thing,
)
    requires
        out_of_reach(w, t),
        0 <= i,
        forall|j: int|
            0 <= j < catch_stmts(cs, cs.len()).len() ==> spared(
                w,
                #[trigger] catch_stmts(cs, cs.len())[j],
                iv,
                t,
            ),
        forall|j: int| 0 <= j < cs.len() ==> is_other(t, (#[trigger] cs[j]).binding),
        same(t, a, s),
        s.jump == Jump::Throw(x),
    ensures
        same(t, a, handled(w, cs, i, x, n, s)),
    decreases cs, n, cs.len() - i,
{
    if i < cs.len() {
        let l = cs[i].binding;
        if (w.caught)(l.0 as int, x) {
            let body = cs[i].body@;
            assert forall|j: int| 0 <= j < body.len() implies spared(
                w,
                #[trigger] body[j],
                iv,
                t,
            ) by {
                let p = lemma_catch_at(cs, cs.len(), i, j);
            }
            assert(is_other(t, cs[i].binding));
            lemma_thrown(t, a, s);
            lemma_go(t, a, s, Jump::Go);
            lemma_set(t, a, s.go(Jump::Go), l, x);
            assert(decreases_to!(cs => cs[i]));
            lemma_exec_all(w, body, body.len(), n, a, s.go(Jump::Go).set(l, x), iv, t);
        } else {
            lemma_handled(w, cs, i + 1, x, n, a, s, iv, t);
        }
    }
}

// --- the laws -----------------------------------------------------------------------------

/// A local that a run of the code changes is one that the facts say it writes, or
/// one that other code can write, which the facts say it can run.
pub proof fn law_changed_locals_are_written(
    w: World,
    e: Expr,
    st: Stmt,
    n: nat,
    s: Store,
    iv: LocalId,
    l: LocalId,
)
    ensures
        (eval(w, e, s).0.locals)(l.0 as int) != (s.locals)(l.0 as int) ==> expr_fact(
            &e,
            iv,
            Fact::Writes(l),
        ) || (w.meddles)(l.0 as int) && expr_fact(&e, iv, Fact::Calls),
        (exec(w, st, n, s).locals)(l.0 as int) != (s.locals)(l.0 as int) ==> stmt_fact(
            &st,
            iv,
            Fact::Writes(l),
        ) || (w.meddles)(l.0 as int) && stmt_fact(&st, iv, Fact::Calls),
{
    reveal(same);
    reveal(apart);
    reveal(spares);
    reveal(spared);
    let t = Thing::Local(l);
    if spares(w, e, iv, t) {
        lemma_eval(w, e, s, s, iv, t);
    }
    if spared(w, st, iv, t) {
        lemma_exec(w, st, n, s, s, iv, t);
    }
}

/// So it is with captured cells.
pub proof fn law_changed_cells_are_written(
    w: World,
    st: Stmt,
    n: nat,
    s: Store,
    iv: LocalId,
    c: usize,
)
    ensures
        (exec(w, st, n, s).cells)(c as int) != (s.cells)(c as int) ==> stmt_fact(
            &st,
            iv,
            Fact::WritesCapture(c),
        ) || (w.meddles_cell)(c as int) && stmt_fact(&st, iv, Fact::Calls),
{
    reveal(same);
    reveal(apart);
    reveal(spared);
    let t = Thing::Cell(c);
    if spared(w, st, iv, t) {
        lemma_exec(w, st, n, s, s, iv, t);
    }
}

/// A vector that one local alone holds, and that the rest of the world does not
/// know, changes its length only in code that writes the local or uses it in some
/// other way than `v[i]` and `v.length`.
pub proof fn law_changed_lengths_are_misuses(
    w: World,
    st: Stmt,
    n: nat,
    s: Store,
    iv: LocalId,
    v: LocalId,
    r: int,
)
    requires
        out_of_reach(w, Thing::Length(v, r)),
        held_by(s, v, r),
    ensures
        (exec(w, st, n, s).lens)(r) != (s.lens)(r) ==> stmt_fact(&st, iv, Fact::Writes(v))
            || stmt_fact(&st, iv, Fact::Misuses(v)),
{
    reveal(same);
    reveal(apart);
    reveal(spared);
    let t = Thing::Length(v, r);
    if spared(w, st, iv, t) {
        lemma_exec(w, st, n, s, s, iv, t);
    }
}

/// The expression reads the local.
pub open spec fn mentions(e: Expr, l: LocalId) -> bool
    decreases e,
{
    match e.kind {
        ExprKind::LocalGet(m) => m == l,
        ExprKind::Conv(_, a) => mentions(*a, l),
        ExprKind::SeqLen(a) => mentions(*a, l),
        ExprKind::Binary(_, a, b) => mentions(*a, l) || mentions(*b, l),
        _ => false,
    }
}

/// The expression reads the captured cell.
pub open spec fn mentions_cell(e: Expr, c: usize) -> bool
    decreases e,
{
    match e.kind {
        ExprKind::CaptureGet(d) => d == c,
        ExprKind::Conv(_, a) => mentions_cell(*a, c),
        ExprKind::SeqLen(a) => mentions_cell(*a, c),
        ExprKind::Binary(_, a, b) => mentions_cell(*a, c) || mentions_cell(*b, c),
        _ => false,
    }
}

/// The expression reads the length of the vector in the local.
pub open spec fn measures(e: Expr, v: LocalId) -> bool
    decreases e,
{
    match e.kind {
        ExprKind::SeqLen(a) => mentions(*a, v),
        ExprKind::Conv(_, a) => measures(*a, v),
        ExprKind::Binary(_, a, b) => measures(*a, v) || measures(*b, v),
        _ => false,
    }
}

/// Other code writes only what closures capture and write.
pub open spec fn keeps_out(w: World, cx: Ctx) -> bool {
    &&& forall|l: LocalId| (w.meddles)(#[trigger] l.0 as int) ==> is_open(cx, l)
    &&& forall|c: int| #[trigger] (w.meddles_cell)(c) ==> cx.shared@.len() > 0
}

proof fn lemma_bound_stays(
    w: World,
    cx: Ctx,
    e: Expr,
    body: Stmt,
    iv: LocalId,
    l: LocalId,
    c: usize,
    r: int,
)
    requires
        keeps_out(w, cx),
        is_invariant(cx, &e, &body, iv),
    ensures
        mentions(e, l) ==> l != iv || measures(e, l),
        mentions(e, l) ==> spared(w, body, iv, Thing::Local(l)),
        mentions_cell(e, c) ==> spared(w, body, iv, Thing::Cell(c)),
        measures(e, l) ==> spared(w, body, iv, Thing::Length(l, r)),
    decreases e,
{
    reveal(spared);
    match e.kind {
        ExprKind::Conv(_, a) => lemma_bound_stays(w, cx, *a, body, iv, l, c, r),
        ExprKind::Binary(_, a, b) => {
            lemma_bound_stays(w, cx, *a, body, iv, l, c, r);
            lemma_bound_stays(w, cx, *b, body, iv, l, c, r);
        },
        ExprKind::SeqLen(a) => {
            assert(local_of(&*a) is Some);
            assert(mentions(*a, l) == (local_of(&*a) == Some(l)));
            assert(!mentions_cell(*a, c));
            if (w.meddles)(l.0 as int) {
                assert(is_open(cx, l));
            }
        },
        ExprKind::LocalGet(m) => {
            if (w.meddles)(m.0 as int) {
                assert(is_open(cx, m));
            }
        },
        _ => {},
    }
}

/// While the body of a versioned loop runs, everything that the loop relies on stays
/// as it is: the induction variable, so that each unchecked index is one that the
/// condition let through; the vectors that are accessed unchecked, and the locals
/// and cells that the bound reads, so that the guard still holds; and the length of
/// a vector that its local alone holds.
pub proof fn law_versioned_loops_keep_what_they_rely_on(
    w: World,
    cx: Ctx,
    loop_: Stmt,
    safe: Seq<LocalId>,
    n: nat,
    s: Store,
    l: LocalId,
    c: usize,
    r: int,
)
    requires
        versions(cx, &loop_, safe),
        keeps_out(w, cx),
    ensures
        ({
            let (iv, op, bound, body) = header_of(&loop_)->0;
            let after = exec(w, body, n, s);
            &&& l == iv || safe.contains(l) || mentions(bound, l) ==> (after.locals)(l.0 as int)
                == (s.locals)(l.0 as int)
            &&& mentions_cell(bound, c) ==> (after.cells)(c as int) == (s.cells)(c as int)
            &&& (safe.contains(l) || measures(bound, l)) && held_by(s, l, r) && out_of_reach(
                w,
                Thing::Length(l, r),
            ) ==> (after.lens)(r) == (s.lens)(r)
        }),
{
    let (iv, op, bound, body) = header_of(&loop_)->0;
    lemma_bound_stays(w, cx, bound, body, iv, l, c, r);
    reveal(spared);
    reveal(same);
    if safe.contains(l) {
        assert(is_safe(cx, &body, iv, l));
    }
    if (w.meddles)(l.0 as int) {
        assert(is_open(cx, l));
    }
    if l == iv || safe.contains(l) || mentions(bound, l) {
        lemma_exec(w, body, n, s, s, iv, Thing::Local(l));
    }
    if mentions_cell(bound, c) {
        lemma_exec(w, body, n, s, s, iv, Thing::Cell(c));
    }
    if (safe.contains(l) || measures(bound, l)) && out_of_reach(w, Thing::Length(l, r)) {
        lemma_exec(w, body, n, s, s, iv, Thing::Length(l, r));
    }
}

/// Whole numbers are added and compared as such, and are Numbers.
pub open spec fn counts_whole(w: World) -> bool {
    &&& forall|xs: Seq<Val>|
        xs.len() == 2 && xs[0] is Int && xs[1] is Int ==> #[trigger] (w.apply)("+"@, xs, 0)
            == Val::Int(xs[0]->Int_0 + xs[1]->Int_0)
    &&& forall|xs: Seq<Val>|
        xs.len() == 2 && xs[0] is Int && xs[1] is Int ==> #[trigger] (w.apply)("<"@, xs, 0)
            == Val::Bool(xs[0]->Int_0 < xs[1]->Int_0)
    &&& forall|xs: Seq<Val>|
        xs.len() == 2 && xs[0] is Int && xs[1] is Int ==> #[trigger] (w.apply)("<="@, xs, 0)
            == Val::Bool(xs[0]->Int_0 <= xs[1]->Int_0)
    &&& forall|xs: Seq<Val>|
        xs.len() == 1 && xs[0] is Int ==> #[trigger] (w.apply)("Number"@, xs, 0) == xs[0]
    &&& forall|b: bool| #[trigger] (w.truth)(Val::Bool(b)) == b
}

proof fn lemma_peeled(w: World, e: Expr, s: Store, l: LocalId, i: int)
    requires
        counts_whole(w),
        s.runs(),
        (s.locals)(l.0 as int) == Val::Int(i),
        local_of(peeled(&e)) == Some(l),
        is_number_chain(e),
    ensures
        eval(w, e, s) == (s, Val::Int(i)),
    decreases e,
{
    if let ExprKind::Conv(Conv::ToNumber, a) = e.kind {
        lemma_peeled(w, *a, s, l, i);
    }
}

/// Under conversions to Number, operands are of primitive types.
pub open spec fn is_number_chain(e: Expr) -> bool
    decreases e,
{
    match e.kind {
        ExprKind::Conv(Conv::ToNumber, a) => is_primitive(a.ty) && is_number_chain(*a),
        _ => true,
    }
}

/// A counted loop counts up from a number that is not negative, by one after each
/// round, while its variable is below the bound (or at it, with `<=`): so in each round
/// the variable is an index that is not negative and that the condition let through.
pub proof fn law_counted_loops_count_up(w: World, loop_: Stmt, n: nat, s: Store, i: int, b: int)
    requires
        counts_whole(w),
        header_of(&loop_) is Some,
        s.runs(),
    ensures
        ({
            let (iv, op, bound, body) = header_of(&loop_)->0;
            let at = iv.0 as int;
            match loop_ {
                Stmt::For { init: Some(init), cond: Some(cond), update: Some(update), .. } => {
                    &&& (exec(w, *init, n, s).locals)(at) matches Val::Int(c) && c >= 0
                    &&& (s.locals)(at) == Val::Int(i) ==> (eval(w, update, s).0.locals)(at)
                        == Val::Int(i + 1)
                    &&& match cond.kind {
                        ExprKind::Binary(_, l, r) => (s.locals)(at) == Val::Int(i) && is_number_chain(
                            *l,
                        ) && is_primitive(l.ty) && is_primitive(r.ty) && eval(w, *r, s) == (
                            s,
                            Val::Int(b),
                        ) ==> tested(w, Some(cond), s) == (
                            s,
                            if op == BinOp::Le {
                                i <= b
                            } else {
                                i < b
                            },
                        ),
                        _ => false,
                    }
                },
                _ => false,
            }
        }),
{
    let (iv, op, bound, body) = header_of(&loop_)->0;
    match loop_ {
        Stmt::For { init: Some(init), cond: Some(cond), update: Some(update), .. } => {
            match *init {
                Stmt::Assign(l, e) => {
                    assert(eval(w, e, s).0 == s);
                },
                Stmt::Expr(x) => {
                    if let ExprKind::LocalSet(l, e) = x.kind {
                        assert(eval(w, *e, s).0 == s);
                        assert(eval(w, x, s).0 == s.set(l, eval(w, *e, s).1));
                    }
                },
                _ => {},
            }
            if let ExprKind::Binary(_, l, r) = cond.kind {
                if (s.locals)(iv.0 as int) == Val::Int(i) && is_number_chain(*l) {
                    lemma_peeled(w, *l, s, iv, i);
                }
            }
        },
        _ => {},
    }
}

} // verus!
