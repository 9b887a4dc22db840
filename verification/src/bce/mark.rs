//! Copies of a tree in which some element accesses are marked unchecked.

use vstd::prelude::*;

use crate::mir::{Case, Catch, Conv, Expr, ExprKind, LocalId, Stmt};

verus! {

// --- the shape of an access -----------------------------------------------------------

/// The expression below any conversions to Number.
pub open spec fn peeled(e: &Expr) -> &Expr
    decreases e,
{
    match &e.kind {
        ExprKind::Conv(Conv::ToNumber, inner) => peeled(&**inner),
        _ => e,
    }
}

pub open spec fn local_of(e: &Expr) -> Option<LocalId> {
    match e.kind {
        ExprKind::LocalGet(l) => Some(l),
        _ => None,
    }
}

/// The access is `v[i]` for a safe local `v` and the bare induction variable.
pub open spec fn hits(recv: &Expr, idx: &Expr, iv: LocalId, safe: Seq<LocalId>) -> bool {
    match local_of(recv) {
        Some(l) => safe.contains(l) && local_of(peeled(idx)) == Some(iv),
        None => false,
    }
}

/// Strips conversions to Number.
pub fn peel(e: &Expr) -> (r: &Expr)
    ensures
        r == peeled(e),
    decreases e,
{
    match &e.kind {
        ExprKind::Conv(Conv::ToNumber, inner) => peel(inner),
        _ => e,
    }
}

pub fn as_local(e: &Expr) -> (r: Option<LocalId>)
    ensures
        r == local_of(e),
{
    match e.kind {
        ExprKind::LocalGet(l) => Some(l),
        _ => None,
    }
}

/// Whether the list holds the local.
pub fn holds(ls: &Vec<LocalId>, l: LocalId) -> (r: bool)
    ensures
        r == ls@.contains(l),
{
    let mut k: usize = 0;
    while k < ls.len()
        invariant
            k <= ls@.len(),
            forall|i: int| 0 <= i < k ==> ls@[i] != l,
        decreases ls@.len() - k,
    {
        if ls[k] == l {
            return true;
        }
        k = k + 1;
    }
    false
}

fn is_hit(recv: &Expr, idx: &Expr, iv: LocalId, safe: &Vec<LocalId>) -> (r: bool)
    ensures
        r == hits(recv, idx, iv, safe@),
{
    match as_local(recv) {
        Some(l) => if holds(safe, l) {
            match as_local(peel(idx)) {
                Some(i) => i == iv,
                None => false,
            }
        } else {
            false
        },
        None => false,
    }
}

// --- marked copies --------------------------------------------------------------------

pub open spec fn marked_all(a: Seq<Expr>, b: Seq<Expr>, iv: LocalId, safe: Seq<LocalId>) -> bool
    decreases a, 1nat,
{
    a.len() == b.len() && forall|i: int|
        #![trigger a[i]]
        #![trigger b[i]]
        0 <= i < a.len() ==> marked(&a[i], &b[i], iv, safe)
}

pub open spec fn marked_opt(a: Option<Expr>, b: Option<Expr>, iv: LocalId, safe: Seq<LocalId>) -> bool
    decreases a, 1nat,
{
    match (a, b) {
        (Some(x), Some(y)) => marked(&x, &y, iv, safe),
        (None, None) => true,
        _ => false,
    }
}

pub open spec fn marked_opts(
    a: Seq<Option<Expr>>,
    b: Seq<Option<Expr>>,
    iv: LocalId,
    safe: Seq<LocalId>,
) -> bool
    decreases a, 2nat,
{
    a.len() == b.len() && forall|i: int|
        #![trigger a[i]]
        #![trigger b[i]]
        0 <= i < a.len() ==> marked_opt(a[i], b[i], iv, safe)
}

pub open spec fn marked_props(
    a: Seq<(String, Expr)>,
    b: Seq<(String, Expr)>,
    iv: LocalId,
    safe: Seq<LocalId>,
) -> bool
    decreases a, 2nat,
{
    a.len() == b.len() && forall|i: int|
        #![trigger a[i]]
        #![trigger b[i]]
        0 <= i < a.len() ==> a[i].0@ == b[i].0@ && marked(&a[i].1, &b[i].1, iv, safe)
}

pub open spec fn marked_box(
    a: Option<Box<Expr>>,
    b: Option<Box<Expr>>,
    iv: LocalId,
    safe: Seq<LocalId>,
) -> bool
    decreases a, 1nat,
{
    match (a, b) {
        (Some(x), Some(y)) => marked(&*x, &*y, iv, safe),
        (None, None) => true,
        _ => false,
    }
}

pub open spec fn is_leaf(k: &ExprKind) -> bool {
    match k {
        ExprKind::Int(..)
        | ExprKind::UInt(..)
        | ExprKind::Number(..)
        | ExprKind::Str(..)
        | ExprKind::Bool(..)
        | ExprKind::Null
        | ExprKind::Undefined
        | ExprKind::This
        | ExprKind::LocalGet(..)
        | ExprKind::IncDec { .. }
        | ExprKind::CaptureGet(..)
        | ExprKind::CaptureIncDec { .. }
        | ExprKind::StaticGet(..)
        | ExprKind::StaticIncDec { .. }
        | ExprKind::NamespaceVal(..)
        | ExprKind::RegExpLit(..)
        | ExprKind::Closure(..)
        | ExprKind::FnValue(..)
        | ExprKind::BuiltinValue(..) => true,
        _ => false,
    }
}

pub open spec fn is_storage(k: &ExprKind) -> bool {
    match k {
        ExprKind::LocalSet(..)
        | ExprKind::CaptureSet(..)
        | ExprKind::StaticSet(..)
        | ExprKind::FieldGet(..)
        | ExprKind::FieldSet(..)
        | ExprKind::FieldIncDec { .. }
        | ExprKind::BoundMethod(..) => true,
        _ => false,
    }
}

pub open spec fn is_operator(k: &ExprKind) -> bool {
    match k {
        ExprKind::Unary(..)
        | ExprKind::Binary(..)
        | ExprKind::Logical { .. }
        | ExprKind::Conditional(..)
        | ExprKind::Comma(..)
        | ExprKind::Is(..)
        | ExprKind::As(..)
        | ExprKind::Conv(..) => true,
        _ => false,
    }
}

pub open spec fn is_call(k: &ExprKind) -> bool {
    match k {
        ExprKind::CallFn(..)
        | ExprKind::CallVirtual { .. }
        | ExprKind::CallIface { .. }
        | ExprKind::CallDirect { .. }
        | ExprKind::CallFnValue { .. }
        | ExprKind::New(..)
        | ExprKind::CallBuiltin(..)
        | ExprKind::CallNative(..) => true,
        _ => false,
    }
}

pub open spec fn is_method(k: &ExprKind) -> bool {
    match k {
        ExprKind::CallStrMethod(..)
        | ExprKind::CallNumMethod(..)
        | ExprKind::CallArr(..)
        | ExprKind::CallVec(..)
        | ExprKind::CallRegex(..)
        | ExprKind::CallDate(..)
        | ExprKind::CallSocket(..)
        | ExprKind::NewRegExp(..)
        | ExprKind::NewDate(..) => true,
        _ => false,
    }
}

pub open spec fn is_member(k: &ExprKind) -> bool {
    match k {
        ExprKind::NewNamespace(..)
        | ExprKind::NsUri(..)
        | ExprKind::NsGet(..)
        | ExprKind::NsCall(..)
        | ExprKind::PropGet(..)
        | ExprKind::PropSet(..)
        | ExprKind::PropCall(..)
        | ExprKind::AnyIndexGet(..)
        | ExprKind::AnyIndexSet(..)
        | ExprKind::HasProp(..)
        | ExprKind::DeleteProp(..) => true,
        _ => false,
    }
}

pub open spec fn is_sequence(k: &ExprKind) -> bool {
    match k {
        ExprKind::StrLen(..)
        | ExprKind::SeqLen(..)
        | ExprKind::SeqSetLen(..)
        | ExprKind::SeqGet(..)
        | ExprKind::SeqSet(..)
        | ExprKind::EnumLen(..)
        | ExprKind::EnumKey(..)
        | ExprKind::EnumValue(..)
        | ExprKind::ArrayLit(..)
        | ExprKind::VectorLit(..)
        | ExprKind::ObjectLit(..) => true,
        _ => false,
    }
}

/// Leaves.
pub open spec fn marked_leaf(a: &ExprKind, b: ExprKind, iv: LocalId, safe: Seq<LocalId>) -> bool
    decreases a, 0nat,
{
    match a {
        ExprKind::Int(a0) => {
            &&& b matches ExprKind::Int(b0)
            &&& *a0 == b0
        },
        ExprKind::UInt(a0) => {
            &&& b matches ExprKind::UInt(b0)
            &&& *a0 == b0
        },
        ExprKind::Number(a0) => {
            &&& b matches ExprKind::Number(b0)
            &&& *a0 == b0
        },
        ExprKind::Str(a0) => {
            &&& b matches ExprKind::Str(b0)
            &&& a0@ == b0@
        },
        ExprKind::Bool(a0) => {
            &&& b matches ExprKind::Bool(b0)
            &&& *a0 == b0
        },
        ExprKind::Null => b is Null,
        ExprKind::Undefined => b is Undefined,
        ExprKind::This => b is This,
        ExprKind::LocalGet(a0) => {
            &&& b matches ExprKind::LocalGet(b0)
            &&& *a0 == b0
        },
        ExprKind::IncDec { target: a0, is_inc: a1, is_prefix: a2 } => {
            &&& b matches ExprKind::IncDec { target: b0, is_inc: b1, is_prefix: b2 }
            &&& *a0 == b0
            &&& *a1 == b1
            &&& *a2 == b2
        },
        ExprKind::CaptureGet(a0) => {
            &&& b matches ExprKind::CaptureGet(b0)
            &&& *a0 == b0
        },
        ExprKind::CaptureIncDec { slot: a0, is_inc: a1, is_prefix: a2 } => {
            &&& b matches ExprKind::CaptureIncDec { slot: b0, is_inc: b1, is_prefix: b2 }
            &&& *a0 == b0
            &&& *a1 == b1
            &&& *a2 == b2
        },
        ExprKind::StaticGet(a0, a1) => {
            &&& b matches ExprKind::StaticGet(b0, b1)
            &&& *a0 == b0
            &&& *a1 == b1
        },
        ExprKind::StaticIncDec { class: a0, index: a1, is_inc: a2, is_prefix: a3 } => {
            &&& b matches ExprKind::StaticIncDec { class: b0, index: b1, is_inc: b2, is_prefix: b3 }
            &&& *a0 == b0
            &&& *a1 == b1
            &&& *a2 == b2
            &&& *a3 == b3
        },
        ExprKind::NamespaceVal(a0) => {
            &&& b matches ExprKind::NamespaceVal(b0)
            &&& *a0 == b0
        },
        ExprKind::RegExpLit(a0, a1) => {
            &&& b matches ExprKind::RegExpLit(b0, b1)
            &&& a0@ == b0@
            &&& a1@ == b1@
        },
        ExprKind::Closure(a0) => {
            &&& b matches ExprKind::Closure(b0)
            &&& *a0 == b0
        },
        ExprKind::FnValue(a0) => {
            &&& b matches ExprKind::FnValue(b0)
            &&& *a0 == b0
        },
        ExprKind::BuiltinValue(a0) => {
            &&& b matches ExprKind::BuiltinValue(b0)
            &&& *a0 == b0
        },
        _ => false,
    }
}

/// Writes and instance fields.
pub open spec fn marked_storage(a: &ExprKind, b: ExprKind, iv: LocalId, safe: Seq<LocalId>) -> bool
    decreases a, 0nat,
{
    match a {
        ExprKind::LocalSet(a0, a1) => {
            &&& b matches ExprKind::LocalSet(b0, b1)
            &&& *a0 == b0
            &&& marked(&**a1, &*b1, iv, safe)
        },
        ExprKind::CaptureSet(a0, a1) => {
            &&& b matches ExprKind::CaptureSet(b0, b1)
            &&& *a0 == b0
            &&& marked(&**a1, &*b1, iv, safe)
        },
        ExprKind::StaticSet(a0, a1, a2) => {
            &&& b matches ExprKind::StaticSet(b0, b1, b2)
            &&& *a0 == b0
            &&& *a1 == b1
            &&& marked(&**a2, &*b2, iv, safe)
        },
        ExprKind::FieldGet(a0, a1, a2) => {
            &&& b matches ExprKind::FieldGet(b0, b1, b2)
            &&& marked(&**a0, &*b0, iv, safe)
            &&& *a1 == b1
            &&& *a2 == b2
        },
        ExprKind::FieldSet(a0, a1, a2, a3) => {
            &&& b matches ExprKind::FieldSet(b0, b1, b2, b3)
            &&& marked(&**a0, &*b0, iv, safe)
            &&& *a1 == b1
            &&& *a2 == b2
            &&& marked(&**a3, &*b3, iv, safe)
        },
        ExprKind::FieldIncDec { recv: a0, class: a1, slot: a2, is_inc: a3, is_prefix: a4 } => {
            &&& b matches ExprKind::FieldIncDec { recv: b0, class: b1, slot: b2, is_inc: b3, is_prefix: b4 }
            &&& marked(&**a0, &*b0, iv, safe)
            &&& *a1 == b1
            &&& *a2 == b2
            &&& *a3 == b3
            &&& *a4 == b4
        },
        ExprKind::BoundMethod(a0, a1, a2) => {
            &&& b matches ExprKind::BoundMethod(b0, b1, b2)
            &&& marked(&**a0, &*b0, iv, safe)
            &&& *a1 == b1
            &&& *a2 == b2
        },
        _ => false,
    }
}

/// Operators.
pub open spec fn marked_operator(a: &ExprKind, b: ExprKind, iv: LocalId, safe: Seq<LocalId>) -> bool
    decreases a, 0nat,
{
    match a {
        ExprKind::Unary(a0, a1) => {
            &&& b matches ExprKind::Unary(b0, b1)
            &&& *a0 == b0
            &&& marked(&**a1, &*b1, iv, safe)
        },
        ExprKind::Binary(a0, a1, a2) => {
            &&& b matches ExprKind::Binary(b0, b1, b2)
            &&& *a0 == b0
            &&& marked(&**a1, &*b1, iv, safe)
            &&& marked(&**a2, &*b2, iv, safe)
        },
        ExprKind::Logical { is_and: a0, lhs: a1, rhs: a2 } => {
            &&& b matches ExprKind::Logical { is_and: b0, lhs: b1, rhs: b2 }
            &&& *a0 == b0
            &&& marked(&**a1, &*b1, iv, safe)
            &&& marked(&**a2, &*b2, iv, safe)
        },
        ExprKind::Conditional(a0, a1, a2) => {
            &&& b matches ExprKind::Conditional(b0, b1, b2)
            &&& marked(&**a0, &*b0, iv, safe)
            &&& marked(&**a1, &*b1, iv, safe)
            &&& marked(&**a2, &*b2, iv, safe)
        },
        ExprKind::Comma(a0, a1) => {
            &&& b matches ExprKind::Comma(b0, b1)
            &&& marked(&**a0, &*b0, iv, safe)
            &&& marked(&**a1, &*b1, iv, safe)
        },
        ExprKind::Is(a0, a1) => {
            &&& b matches ExprKind::Is(b0, b1)
            &&& marked(&**a0, &*b0, iv, safe)
            &&& *a1 == b1
        },
        ExprKind::As(a0, a1) => {
            &&& b matches ExprKind::As(b0, b1)
            &&& marked(&**a0, &*b0, iv, safe)
            &&& *a1 == b1
        },
        ExprKind::Conv(a0, a1) => {
            &&& b matches ExprKind::Conv(b0, b1)
            &&& *a0 == b0
            &&& marked(&**a1, &*b1, iv, safe)
        },
        _ => false,
    }
}

/// Calls.
pub open spec fn marked_call(a: &ExprKind, b: ExprKind, iv: LocalId, safe: Seq<LocalId>) -> bool
    decreases a, 0nat,
{
    match a {
        ExprKind::CallFn(a0, a1) => {
            &&& b matches ExprKind::CallFn(b0, b1)
            &&& *a0 == b0
            &&& marked_all(a1@, b1@, iv, safe)
        },
        ExprKind::CallVirtual { recv: a0, class: a1, vslot: a2, args: a3 } => {
            &&& b matches ExprKind::CallVirtual { recv: b0, class: b1, vslot: b2, args: b3 }
            &&& marked(&**a0, &*b0, iv, safe)
            &&& *a1 == b1
            &&& *a2 == b2
            &&& marked_all(a3@, b3@, iv, safe)
        },
        ExprKind::CallIface { recv: a0, iface: a1, islot: a2, ret: a3, args: a4 } => {
            &&& b matches ExprKind::CallIface { recv: b0, iface: b1, islot: b2, ret: b3, args: b4 }
            &&& marked(&**a0, &*b0, iv, safe)
            &&& *a1 == b1
            &&& *a2 == b2
            &&& *a3 == b3
            &&& marked_all(a4@, b4@, iv, safe)
        },
        ExprKind::CallDirect { fn_id: a0, recv: a1, args: a2 } => {
            &&& b matches ExprKind::CallDirect { fn_id: b0, recv: b1, args: b2 }
            &&& *a0 == b0
            &&& marked(&**a1, &*b1, iv, safe)
            &&& marked_all(a2@, b2@, iv, safe)
        },
        ExprKind::CallFnValue { callee: a0, this_arg: a1, args: a2, is_apply: a3 } => {
            &&& b matches ExprKind::CallFnValue { callee: b0, this_arg: b1, args: b2, is_apply: b3 }
            &&& marked(&**a0, &*b0, iv, safe)
            &&& marked_box(*a1, b1, iv, safe)
            &&& marked_all(a2@, b2@, iv, safe)
            &&& *a3 == b3
        },
        ExprKind::New(a0, a1) => {
            &&& b matches ExprKind::New(b0, b1)
            &&& *a0 == b0
            &&& marked_all(a1@, b1@, iv, safe)
        },
        ExprKind::CallBuiltin(a0, a1) => {
            &&& b matches ExprKind::CallBuiltin(b0, b1)
            &&& *a0 == b0
            &&& marked_all(a1@, b1@, iv, safe)
        },
        ExprKind::CallNative(a0, a1) => {
            &&& b matches ExprKind::CallNative(b0, b1)
            &&& *a0 == b0
            &&& marked_all(a1@, b1@, iv, safe)
        },
        _ => false,
    }
}

/// Calls of methods of the runtime's types.
pub open spec fn marked_method(a: &ExprKind, b: ExprKind, iv: LocalId, safe: Seq<LocalId>) -> bool
    decreases a, 0nat,
{
    match a {
        ExprKind::CallStrMethod(a0, a1, a2) => {
            &&& b matches ExprKind::CallStrMethod(b0, b1, b2)
            &&& *a0 == b0
            &&& marked(&**a1, &*b1, iv, safe)
            &&& marked_all(a2@, b2@, iv, safe)
        },
        ExprKind::CallNumMethod(a0, a1, a2) => {
            &&& b matches ExprKind::CallNumMethod(b0, b1, b2)
            &&& *a0 == b0
            &&& marked(&**a1, &*b1, iv, safe)
            &&& marked_all(a2@, b2@, iv, safe)
        },
        ExprKind::CallArr(a0, a1, a2) => {
            &&& b matches ExprKind::CallArr(b0, b1, b2)
            &&& *a0 == b0
            &&& marked(&**a1, &*b1, iv, safe)
            &&& marked_all(a2@, b2@, iv, safe)
        },
        ExprKind::CallVec(a0, a1, a2) => {
            &&& b matches ExprKind::CallVec(b0, b1, b2)
            &&& *a0 == b0
            &&& marked(&**a1, &*b1, iv, safe)
            &&& marked_all(a2@, b2@, iv, safe)
        },
        ExprKind::CallRegex(a0, a1) => {
            &&& b matches ExprKind::CallRegex(b0, b1)
            &&& *a0 == b0
            &&& marked_all(a1@, b1@, iv, safe)
        },
        ExprKind::CallDate(a0, a1) => {
            &&& b matches ExprKind::CallDate(b0, b1)
            &&& *a0 == b0
            &&& marked_all(a1@, b1@, iv, safe)
        },
        ExprKind::CallSocket(a0, a1) => {
            &&& b matches ExprKind::CallSocket(b0, b1)
            &&& *a0 == b0
            &&& marked_all(a1@, b1@, iv, safe)
        },
        ExprKind::NewRegExp(a0) => {
            &&& b matches ExprKind::NewRegExp(b0)
            &&& marked_all(a0@, b0@, iv, safe)
        },
        ExprKind::NewDate(a0) => {
            &&& b matches ExprKind::NewDate(b0)
            &&& marked_all(a0@, b0@, iv, safe)
        },
        _ => false,
    }
}

/// Namespaces and untyped members.
pub open spec fn marked_member(a: &ExprKind, b: ExprKind, iv: LocalId, safe: Seq<LocalId>) -> bool
    decreases a, 0nat,
{
    match a {
        ExprKind::NewNamespace(a0) => {
            &&& b matches ExprKind::NewNamespace(b0)
            &&& marked(&**a0, &*b0, iv, safe)
        },
        ExprKind::NsUri(a0) => {
            &&& b matches ExprKind::NsUri(b0)
            &&& marked(&**a0, &*b0, iv, safe)
        },
        ExprKind::NsGet(a0, a1, a2) => {
            &&& b matches ExprKind::NsGet(b0, b1, b2)
            &&& marked(&**a0, &*b0, iv, safe)
            &&& marked(&**a1, &*b1, iv, safe)
            &&& a2@ == b2@
        },
        ExprKind::NsCall(a0, a1, a2, a3) => {
            &&& b matches ExprKind::NsCall(b0, b1, b2, b3)
            &&& marked(&**a0, &*b0, iv, safe)
            &&& marked(&**a1, &*b1, iv, safe)
            &&& a2@ == b2@
            &&& marked_all(a3@, b3@, iv, safe)
        },
        ExprKind::PropGet(a0, a1) => {
            &&& b matches ExprKind::PropGet(b0, b1)
            &&& marked(&**a0, &*b0, iv, safe)
            &&& a1@ == b1@
        },
        ExprKind::PropSet(a0, a1, a2) => {
            &&& b matches ExprKind::PropSet(b0, b1, b2)
            &&& marked(&**a0, &*b0, iv, safe)
            &&& a1@ == b1@
            &&& marked(&**a2, &*b2, iv, safe)
        },
        ExprKind::PropCall(a0, a1, a2) => {
            &&& b matches ExprKind::PropCall(b0, b1, b2)
            &&& marked(&**a0, &*b0, iv, safe)
            &&& a1@ == b1@
            &&& marked_all(a2@, b2@, iv, safe)
        },
        ExprKind::AnyIndexGet(a0, a1) => {
            &&& b matches ExprKind::AnyIndexGet(b0, b1)
            &&& marked(&**a0, &*b0, iv, safe)
            &&& marked(&**a1, &*b1, iv, safe)
        },
        ExprKind::AnyIndexSet(a0, a1, a2) => {
            &&& b matches ExprKind::AnyIndexSet(b0, b1, b2)
            &&& marked(&**a0, &*b0, iv, safe)
            &&& marked(&**a1, &*b1, iv, safe)
            &&& marked(&**a2, &*b2, iv, safe)
        },
        ExprKind::HasProp(a0, a1) => {
            &&& b matches ExprKind::HasProp(b0, b1)
            &&& marked(&**a0, &*b0, iv, safe)
            &&& marked(&**a1, &*b1, iv, safe)
        },
        ExprKind::DeleteProp(a0, a1) => {
            &&& b matches ExprKind::DeleteProp(b0, b1)
            &&& marked(&**a0, &*b0, iv, safe)
            &&& a1@ == b1@
        },
        _ => false,
    }
}

/// Sequences.
pub open spec fn marked_sequence(a: &ExprKind, b: ExprKind, iv: LocalId, safe: Seq<LocalId>) -> bool
    decreases a, 0nat,
{
    match a {
        ExprKind::StrLen(a0) => {
            &&& b matches ExprKind::StrLen(b0)
            &&& marked(&**a0, &*b0, iv, safe)
        },
        ExprKind::SeqLen(a0) => {
            &&& b matches ExprKind::SeqLen(b0)
            &&& marked(&**a0, &*b0, iv, safe)
        },
        ExprKind::SeqSetLen(a0, a1) => {
            &&& b matches ExprKind::SeqSetLen(b0, b1)
            &&& marked(&**a0, &*b0, iv, safe)
            &&& marked(&**a1, &*b1, iv, safe)
        },
        ExprKind::SeqGet(a0, a1, a2) => {
            &&& b matches ExprKind::SeqGet(b0, b1, b2)
            &&& marked(&**a0, &*b0, iv, safe)
            &&& marked(&**a1, &*b1, iv, safe)
            &&& b2 == (*a2 || hits(&**a0, &**a1, iv, safe))
        },
        ExprKind::SeqSet(a0, a1, a2, a3) => {
            &&& b matches ExprKind::SeqSet(b0, b1, b2, b3)
            &&& marked(&**a0, &*b0, iv, safe)
            &&& marked(&**a1, &*b1, iv, safe)
            &&& marked(&**a2, &*b2, iv, safe)
            &&& b3 == (*a3 || hits(&**a0, &**a1, iv, safe))
        },
        ExprKind::EnumLen(a0) => {
            &&& b matches ExprKind::EnumLen(b0)
            &&& marked(&**a0, &*b0, iv, safe)
        },
        ExprKind::EnumKey(a0, a1) => {
            &&& b matches ExprKind::EnumKey(b0, b1)
            &&& marked(&**a0, &*b0, iv, safe)
            &&& marked(&**a1, &*b1, iv, safe)
        },
        ExprKind::EnumValue(a0, a1) => {
            &&& b matches ExprKind::EnumValue(b0, b1)
            &&& marked(&**a0, &*b0, iv, safe)
            &&& marked(&**a1, &*b1, iv, safe)
        },
        ExprKind::ArrayLit(a0) => {
            &&& b matches ExprKind::ArrayLit(b0)
            &&& marked_opts(a0@, b0@, iv, safe)
        },
        ExprKind::VectorLit(a0, a1) => {
            &&& b matches ExprKind::VectorLit(b0, b1)
            &&& *a0 == b0
            &&& marked_all(a1@, b1@, iv, safe)
        },
        ExprKind::ObjectLit(a0) => {
            &&& b matches ExprKind::ObjectLit(b0)
            &&& marked_props(a0@, b0@, iv, safe)
        },
        _ => false,
    }
}

pub open spec fn marked_kind(a: &ExprKind, b: ExprKind, iv: LocalId, safe: Seq<LocalId>) -> bool
    decreases a, 1nat,
{
    match a {
        ExprKind::LocalSet(..)
        | ExprKind::CaptureSet(..)
        | ExprKind::StaticSet(..)
        | ExprKind::FieldGet(..)
        | ExprKind::FieldSet(..)
        | ExprKind::FieldIncDec { .. }
        | ExprKind::BoundMethod(..) => marked_storage(a, b, iv, safe),
        ExprKind::Unary(..)
        | ExprKind::Binary(..)
        | ExprKind::Logical { .. }
        | ExprKind::Conditional(..)
        | ExprKind::Comma(..)
        | ExprKind::Is(..)
        | ExprKind::As(..)
        | ExprKind::Conv(..) => marked_operator(a, b, iv, safe),
        ExprKind::CallFn(..)
        | ExprKind::CallVirtual { .. }
        | ExprKind::CallIface { .. }
        | ExprKind::CallDirect { .. }
        | ExprKind::CallFnValue { .. }
        | ExprKind::New(..)
        | ExprKind::CallBuiltin(..)
        | ExprKind::CallNative(..) => marked_call(a, b, iv, safe),
        ExprKind::CallStrMethod(..)
        | ExprKind::CallNumMethod(..)
        | ExprKind::CallArr(..)
        | ExprKind::CallVec(..)
        | ExprKind::CallRegex(..)
        | ExprKind::CallDate(..)
        | ExprKind::CallSocket(..)
        | ExprKind::NewRegExp(..)
        | ExprKind::NewDate(..) => marked_method(a, b, iv, safe),
        ExprKind::NewNamespace(..)
        | ExprKind::NsUri(..)
        | ExprKind::NsGet(..)
        | ExprKind::NsCall(..)
        | ExprKind::PropGet(..)
        | ExprKind::PropSet(..)
        | ExprKind::PropCall(..)
        | ExprKind::AnyIndexGet(..)
        | ExprKind::AnyIndexSet(..)
        | ExprKind::HasProp(..)
        | ExprKind::DeleteProp(..) => marked_member(a, b, iv, safe),
        ExprKind::StrLen(..)
        | ExprKind::SeqLen(..)
        | ExprKind::SeqSetLen(..)
        | ExprKind::SeqGet(..)
        | ExprKind::SeqSet(..)
        | ExprKind::EnumLen(..)
        | ExprKind::EnumKey(..)
        | ExprKind::EnumValue(..)
        | ExprKind::ArrayLit(..)
        | ExprKind::VectorLit(..)
        | ExprKind::ObjectLit(..) => marked_sequence(a, b, iv, safe),
        _ => marked_leaf(a, b, iv, safe),
    }
}

/// `b` is `a` with the accesses `v[i]` of safe locals marked unchecked, and
/// nothing else changed.
pub open spec fn marked(a: &Expr, b: &Expr, iv: LocalId, safe: Seq<LocalId>) -> bool
    decreases a, 0nat,
{
    a.ty == b.ty && a.span == b.span && marked_kind(&a.kind, b.kind, iv, safe)
}

fn mark_all(es: &Vec<Expr>, iv: LocalId, safe: &Vec<LocalId>) -> (r: Vec<Expr>)
    ensures
        marked_all(es@, r@, iv, safe@),
    decreases es, 1nat,
{
    let mut out: Vec<Expr> = Vec::new();
    let mut k: usize = 0;
    while k < es.len()
        invariant
            k <= es@.len(),
            out@.len() == k,
            forall|i: int|
                #![trigger es@[i]]
                #![trigger out@[i]]
                0 <= i < k ==> marked(&es@[i], &out@[i], iv, safe@),
        decreases es@.len() - k,
    {
        let x = mark_expr(&es[k], iv, safe);
        out.push(x);
        k = k + 1;
    }
    out
}

fn mark_opt(e: &Option<Expr>, iv: LocalId, safe: &Vec<LocalId>) -> (r: Option<Expr>)
    ensures
        marked_opt(*e, r, iv, safe@),
    decreases e, 1nat,
{
    match e {
        Some(x) => Some(mark_expr(x, iv, safe)),
        None => None,
    }
}

fn mark_opts(es: &Vec<Option<Expr>>, iv: LocalId, safe: &Vec<LocalId>) -> (r: Vec<Option<Expr>>)
    ensures
        marked_opts(es@, r@, iv, safe@),
    decreases es, 2nat,
{
    let mut out: Vec<Option<Expr>> = Vec::new();
    let mut k: usize = 0;
    while k < es.len()
        invariant
            k <= es@.len(),
            out@.len() == k,
            forall|i: int|
                #![trigger es@[i]]
                #![trigger out@[i]]
                0 <= i < k ==> marked_opt(es@[i], out@[i], iv, safe@),
        decreases es@.len() - k,
    {
        let x = mark_opt(&es[k], iv, safe);
        out.push(x);
        k = k + 1;
    }
    out
}

fn mark_props(es: &Vec<(String, Expr)>, iv: LocalId, safe: &Vec<LocalId>) -> (r: Vec<
    (String, Expr),
>)
    ensures
        marked_props(es@, r@, iv, safe@),
    decreases es, 2nat,
{
    let mut out: Vec<(String, Expr)> = Vec::new();
    let mut k: usize = 0;
    while k < es.len()
        invariant
            k <= es@.len(),
            out@.len() == k,
            forall|i: int|
                #![trigger es@[i]]
                #![trigger out@[i]]
                0 <= i < k ==> es@[i].0@ == out@[i].0@ && marked(
                    &es@[i].1,
                    &out@[i].1,
                    iv,
                    safe@,
                ),
        decreases es@.len() - k,
    {
        let e = &es[k];
        let x = mark_expr(&e.1, iv, safe);
        out.push((e.0.clone(), x));
        k = k + 1;
    }
    out
}

fn mark_box(e: &Option<Box<Expr>>, iv: LocalId, safe: &Vec<LocalId>) -> (r: Option<Box<Expr>>)
    ensures
        marked_box(*e, r, iv, safe@),
    decreases e, 1nat,
{
    match e {
        Some(x) => Some(Box::new(mark_expr(x, iv, safe))),
        None => None,
    }
}

fn mark_leaf(k: &ExprKind, iv: LocalId, safe: &Vec<LocalId>) -> (r: ExprKind)
    requires
        is_leaf(k),
    ensures
        marked_leaf(k, r, iv, safe@),
    decreases k, 0nat,
{
    match k {
        ExprKind::Int(a0) => ExprKind::Int(*a0),
        ExprKind::UInt(a0) => ExprKind::UInt(*a0),
        ExprKind::Number(a0) => ExprKind::Number(*a0),
        ExprKind::Str(a0) => ExprKind::Str(a0.clone()),
        ExprKind::Bool(a0) => ExprKind::Bool(*a0),
        ExprKind::Null => ExprKind::Null,
        ExprKind::Undefined => ExprKind::Undefined,
        ExprKind::This => ExprKind::This,
        ExprKind::LocalGet(a0) => ExprKind::LocalGet(*a0),
        ExprKind::IncDec { target: a0, is_inc: a1, is_prefix: a2 } => ExprKind::IncDec {
            target: *a0,
            is_inc: *a1,
            is_prefix: *a2,
        },
        ExprKind::CaptureGet(a0) => ExprKind::CaptureGet(*a0),
        ExprKind::CaptureIncDec { slot: a0, is_inc: a1, is_prefix: a2 } => ExprKind::CaptureIncDec {
            slot: *a0,
            is_inc: *a1,
            is_prefix: *a2,
        },
        ExprKind::StaticGet(a0, a1) => ExprKind::StaticGet(*a0, *a1),
        ExprKind::StaticIncDec { class: a0, index: a1, is_inc: a2, is_prefix: a3 } => ExprKind::StaticIncDec {
            class: *a0,
            index: *a1,
            is_inc: *a2,
            is_prefix: *a3,
        },
        ExprKind::NamespaceVal(a0) => ExprKind::NamespaceVal(*a0),
        ExprKind::RegExpLit(a0, a1) => ExprKind::RegExpLit(a0.clone(), a1.clone()),
        ExprKind::Closure(a0) => ExprKind::Closure(*a0),
        ExprKind::FnValue(a0) => ExprKind::FnValue(*a0),
        ExprKind::BuiltinValue(a0) => ExprKind::BuiltinValue(*a0),
        _ => ExprKind::Null,
    }
}

fn mark_storage(k: &ExprKind, iv: LocalId, safe: &Vec<LocalId>) -> (r: ExprKind)
    requires
        is_storage(k),
    ensures
        marked_storage(k, r, iv, safe@),
    decreases k, 0nat,
{
    match k {
        ExprKind::LocalSet(a0, a1) => ExprKind::LocalSet(*a0, Box::new(mark_expr(a1, iv, safe))),
        ExprKind::CaptureSet(a0, a1) => ExprKind::CaptureSet(
            *a0,
            Box::new(mark_expr(a1, iv, safe)),
        ),
        ExprKind::StaticSet(a0, a1, a2) => ExprKind::StaticSet(
            *a0,
            *a1,
            Box::new(mark_expr(a2, iv, safe)),
        ),
        ExprKind::FieldGet(a0, a1, a2) => ExprKind::FieldGet(
            Box::new(mark_expr(a0, iv, safe)),
            *a1,
            *a2,
        ),
        ExprKind::FieldSet(a0, a1, a2, a3) => ExprKind::FieldSet(
            Box::new(mark_expr(a0, iv, safe)),
            *a1,
            *a2,
            Box::new(mark_expr(a3, iv, safe)),
        ),
        ExprKind::FieldIncDec { recv: a0, class: a1, slot: a2, is_inc: a3, is_prefix: a4 } => ExprKind::FieldIncDec {
            recv: Box::new(mark_expr(a0, iv, safe)),
            class: *a1,
            slot: *a2,
            is_inc: *a3,
            is_prefix: *a4,
        },
        ExprKind::BoundMethod(a0, a1, a2) => ExprKind::BoundMethod(
            Box::new(mark_expr(a0, iv, safe)),
            *a1,
            *a2,
        ),
        _ => ExprKind::Null,
    }
}

fn mark_operator(k: &ExprKind, iv: LocalId, safe: &Vec<LocalId>) -> (r: ExprKind)
    requires
        is_operator(k),
    ensures
        marked_operator(k, r, iv, safe@),
    decreases k, 0nat,
{
    match k {
        ExprKind::Unary(a0, a1) => ExprKind::Unary(*a0, Box::new(mark_expr(a1, iv, safe))),
        ExprKind::Binary(a0, a1, a2) => ExprKind::Binary(
            *a0,
            Box::new(mark_expr(a1, iv, safe)),
            Box::new(mark_expr(a2, iv, safe)),
        ),
        ExprKind::Logical { is_and: a0, lhs: a1, rhs: a2 } => ExprKind::Logical {
            is_and: *a0,
            lhs: Box::new(mark_expr(a1, iv, safe)),
            rhs: Box::new(mark_expr(a2, iv, safe)),
        },
        ExprKind::Conditional(a0, a1, a2) => ExprKind::Conditional(
            Box::new(mark_expr(a0, iv, safe)),
            Box::new(mark_expr(a1, iv, safe)),
            Box::new(mark_expr(a2, iv, safe)),
        ),
        ExprKind::Comma(a0, a1) => ExprKind::Comma(
            Box::new(mark_expr(a0, iv, safe)),
            Box::new(mark_expr(a1, iv, safe)),
        ),
        ExprKind::Is(a0, a1) => ExprKind::Is(Box::new(mark_expr(a0, iv, safe)), *a1),
        ExprKind::As(a0, a1) => ExprKind::As(Box::new(mark_expr(a0, iv, safe)), *a1),
        ExprKind::Conv(a0, a1) => ExprKind::Conv(*a0, Box::new(mark_expr(a1, iv, safe))),
        _ => ExprKind::Null,
    }
}

fn mark_call(k: &ExprKind, iv: LocalId, safe: &Vec<LocalId>) -> (r: ExprKind)
    requires
        is_call(k),
    ensures
        marked_call(k, r, iv, safe@),
    decreases k, 0nat,
{
    match k {
        ExprKind::CallFn(a0, a1) => ExprKind::CallFn(*a0, mark_all(a1, iv, safe)),
        ExprKind::CallVirtual { recv: a0, class: a1, vslot: a2, args: a3 } => ExprKind::CallVirtual {
            recv: Box::new(mark_expr(a0, iv, safe)),
            class: *a1,
            vslot: *a2,
            args: mark_all(a3, iv, safe),
        },
        ExprKind::CallIface { recv: a0, iface: a1, islot: a2, ret: a3, args: a4 } => ExprKind::CallIface {
            recv: Box::new(mark_expr(a0, iv, safe)),
            iface: *a1,
            islot: *a2,
            ret: *a3,
            args: mark_all(a4, iv, safe),
        },
        ExprKind::CallDirect { fn_id: a0, recv: a1, args: a2 } => ExprKind::CallDirect {
            fn_id: *a0,
            recv: Box::new(mark_expr(a1, iv, safe)),
            args: mark_all(a2, iv, safe),
        },
        ExprKind::CallFnValue { callee: a0, this_arg: a1, args: a2, is_apply: a3 } => ExprKind::CallFnValue {
            callee: Box::new(mark_expr(a0, iv, safe)),
            this_arg: mark_box(a1, iv, safe),
            args: mark_all(a2, iv, safe),
            is_apply: *a3,
        },
        ExprKind::New(a0, a1) => ExprKind::New(*a0, mark_all(a1, iv, safe)),
        ExprKind::CallBuiltin(a0, a1) => ExprKind::CallBuiltin(*a0, mark_all(a1, iv, safe)),
        ExprKind::CallNative(a0, a1) => ExprKind::CallNative(*a0, mark_all(a1, iv, safe)),
        _ => ExprKind::Null,
    }
}

fn mark_method(k: &ExprKind, iv: LocalId, safe: &Vec<LocalId>) -> (r: ExprKind)
    requires
        is_method(k),
    ensures
        marked_method(k, r, iv, safe@),
    decreases k, 0nat,
{
    match k {
        ExprKind::CallStrMethod(a0, a1, a2) => ExprKind::CallStrMethod(
            *a0,
            Box::new(mark_expr(a1, iv, safe)),
            mark_all(a2, iv, safe),
        ),
        ExprKind::CallNumMethod(a0, a1, a2) => ExprKind::CallNumMethod(
            *a0,
            Box::new(mark_expr(a1, iv, safe)),
            mark_all(a2, iv, safe),
        ),
        ExprKind::CallArr(a0, a1, a2) => ExprKind::CallArr(
            *a0,
            Box::new(mark_expr(a1, iv, safe)),
            mark_all(a2, iv, safe),
        ),
        ExprKind::CallVec(a0, a1, a2) => ExprKind::CallVec(
            *a0,
            Box::new(mark_expr(a1, iv, safe)),
            mark_all(a2, iv, safe),
        ),
        ExprKind::CallRegex(a0, a1) => ExprKind::CallRegex(*a0, mark_all(a1, iv, safe)),
        ExprKind::CallDate(a0, a1) => ExprKind::CallDate(*a0, mark_all(a1, iv, safe)),
        ExprKind::CallSocket(a0, a1) => ExprKind::CallSocket(*a0, mark_all(a1, iv, safe)),
        ExprKind::NewRegExp(a0) => ExprKind::NewRegExp(mark_all(a0, iv, safe)),
        ExprKind::NewDate(a0) => ExprKind::NewDate(mark_all(a0, iv, safe)),
        _ => ExprKind::Null,
    }
}

fn mark_member(k: &ExprKind, iv: LocalId, safe: &Vec<LocalId>) -> (r: ExprKind)
    requires
        is_member(k),
    ensures
        marked_member(k, r, iv, safe@),
    decreases k, 0nat,
{
    match k {
        ExprKind::NewNamespace(a0) => ExprKind::NewNamespace(Box::new(mark_expr(a0, iv, safe))),
        ExprKind::NsUri(a0) => ExprKind::NsUri(Box::new(mark_expr(a0, iv, safe))),
        ExprKind::NsGet(a0, a1, a2) => ExprKind::NsGet(
            Box::new(mark_expr(a0, iv, safe)),
            Box::new(mark_expr(a1, iv, safe)),
            a2.clone(),
        ),
        ExprKind::NsCall(a0, a1, a2, a3) => ExprKind::NsCall(
            Box::new(mark_expr(a0, iv, safe)),
            Box::new(mark_expr(a1, iv, safe)),
            a2.clone(),
            mark_all(a3, iv, safe),
        ),
        ExprKind::PropGet(a0, a1) => ExprKind::PropGet(
            Box::new(mark_expr(a0, iv, safe)),
            a1.clone(),
        ),
        ExprKind::PropSet(a0, a1, a2) => ExprKind::PropSet(
            Box::new(mark_expr(a0, iv, safe)),
            a1.clone(),
            Box::new(mark_expr(a2, iv, safe)),
        ),
        ExprKind::PropCall(a0, a1, a2) => ExprKind::PropCall(
            Box::new(mark_expr(a0, iv, safe)),
            a1.clone(),
            mark_all(a2, iv, safe),
        ),
        ExprKind::AnyIndexGet(a0, a1) => ExprKind::AnyIndexGet(
            Box::new(mark_expr(a0, iv, safe)),
            Box::new(mark_expr(a1, iv, safe)),
        ),
        ExprKind::AnyIndexSet(a0, a1, a2) => ExprKind::AnyIndexSet(
            Box::new(mark_expr(a0, iv, safe)),
            Box::new(mark_expr(a1, iv, safe)),
            Box::new(mark_expr(a2, iv, safe)),
        ),
        ExprKind::HasProp(a0, a1) => ExprKind::HasProp(
            Box::new(mark_expr(a0, iv, safe)),
            Box::new(mark_expr(a1, iv, safe)),
        ),
        ExprKind::DeleteProp(a0, a1) => ExprKind::DeleteProp(
            Box::new(mark_expr(a0, iv, safe)),
            a1.clone(),
        ),
        _ => ExprKind::Null,
    }
}

fn mark_sequence(k: &ExprKind, iv: LocalId, safe: &Vec<LocalId>) -> (r: ExprKind)
    requires
        is_sequence(k),
    ensures
        marked_sequence(k, r, iv, safe@),
    decreases k, 0nat,
{
    match k {
        ExprKind::StrLen(a0) => ExprKind::StrLen(Box::new(mark_expr(a0, iv, safe))),
        ExprKind::SeqLen(a0) => ExprKind::SeqLen(Box::new(mark_expr(a0, iv, safe))),
        ExprKind::SeqSetLen(a0, a1) => ExprKind::SeqSetLen(
            Box::new(mark_expr(a0, iv, safe)),
            Box::new(mark_expr(a1, iv, safe)),
        ),
        ExprKind::SeqGet(a0, a1, a2) => ExprKind::SeqGet(
            Box::new(mark_expr(a0, iv, safe)),
            Box::new(mark_expr(a1, iv, safe)),
            *a2 || is_hit(a0, a1, iv, safe),
        ),
        ExprKind::SeqSet(a0, a1, a2, a3) => ExprKind::SeqSet(
            Box::new(mark_expr(a0, iv, safe)),
            Box::new(mark_expr(a1, iv, safe)),
            Box::new(mark_expr(a2, iv, safe)),
            *a3 || is_hit(a0, a1, iv, safe),
        ),
        ExprKind::EnumLen(a0) => ExprKind::EnumLen(Box::new(mark_expr(a0, iv, safe))),
        ExprKind::EnumKey(a0, a1) => ExprKind::EnumKey(
            Box::new(mark_expr(a0, iv, safe)),
            Box::new(mark_expr(a1, iv, safe)),
        ),
        ExprKind::EnumValue(a0, a1) => ExprKind::EnumValue(
            Box::new(mark_expr(a0, iv, safe)),
            Box::new(mark_expr(a1, iv, safe)),
        ),
        ExprKind::ArrayLit(a0) => ExprKind::ArrayLit(mark_opts(a0, iv, safe)),
        ExprKind::VectorLit(a0, a1) => ExprKind::VectorLit(*a0, mark_all(a1, iv, safe)),
        ExprKind::ObjectLit(a0) => ExprKind::ObjectLit(mark_props(a0, iv, safe)),
        _ => ExprKind::Null,
    }
}

/// A copy with the accesses `v[i]` of safe locals marked unchecked.
pub fn mark_expr(e: &Expr, iv: LocalId, safe: &Vec<LocalId>) -> (r: Expr)
    ensures
        marked(e, &r, iv, safe@),
    decreases e, 0nat,
{
    let kind = match &e.kind {
        ExprKind::LocalSet(..)
        | ExprKind::CaptureSet(..)
        | ExprKind::StaticSet(..)
        | ExprKind::FieldGet(..)
        | ExprKind::FieldSet(..)
        | ExprKind::FieldIncDec { .. }
        | ExprKind::BoundMethod(..) => mark_storage(&e.kind, iv, safe),
        ExprKind::Unary(..)
        | ExprKind::Binary(..)
        | ExprKind::Logical { .. }
        | ExprKind::Conditional(..)
        | ExprKind::Comma(..)
        | ExprKind::Is(..)
        | ExprKind::As(..)
        | ExprKind::Conv(..) => mark_operator(&e.kind, iv, safe),
        ExprKind::CallFn(..)
        | ExprKind::CallVirtual { .. }
        | ExprKind::CallIface { .. }
        | ExprKind::CallDirect { .. }
        | ExprKind::CallFnValue { .. }
        | ExprKind::New(..)
        | ExprKind::CallBuiltin(..)
        | ExprKind::CallNative(..) => mark_call(&e.kind, iv, safe),
        ExprKind::CallStrMethod(..)
        | ExprKind::CallNumMethod(..)
        | ExprKind::CallArr(..)
        | ExprKind::CallVec(..)
        | ExprKind::CallRegex(..)
        | ExprKind::CallDate(..)
        | ExprKind::CallSocket(..)
        | ExprKind::NewRegExp(..)
        | ExprKind::NewDate(..) => mark_method(&e.kind, iv, safe),
        ExprKind::NewNamespace(..)
        | ExprKind::NsUri(..)
        | ExprKind::NsGet(..)
        | ExprKind::NsCall(..)
        | ExprKind::PropGet(..)
        | ExprKind::PropSet(..)
        | ExprKind::PropCall(..)
        | ExprKind::AnyIndexGet(..)
        | ExprKind::AnyIndexSet(..)
        | ExprKind::HasProp(..)
        | ExprKind::DeleteProp(..) => mark_member(&e.kind, iv, safe),
        ExprKind::StrLen(..)
        | ExprKind::SeqLen(..)
        | ExprKind::SeqSetLen(..)
        | ExprKind::SeqGet(..)
        | ExprKind::SeqSet(..)
        | ExprKind::EnumLen(..)
        | ExprKind::EnumKey(..)
        | ExprKind::EnumValue(..)
        | ExprKind::ArrayLit(..)
        | ExprKind::VectorLit(..)
        | ExprKind::ObjectLit(..) => mark_sequence(&e.kind, iv, safe),
        _ => mark_leaf(&e.kind, iv, safe),
    };
    Expr { ty: e.ty, span: e.span, kind }
}

// --- statements -----------------------------------------------------------------------

pub open spec fn same_label(a: Option<String>, b: Option<String>) -> bool {
    match (a, b) {
        (Some(x), Some(y)) => x@ == y@,
        (None, None) => true,
        _ => false,
    }
}

pub open spec fn marked_stmts(a: Seq<Stmt>, b: Seq<Stmt>, iv: LocalId, safe: Seq<LocalId>) -> bool
    decreases a, 1nat,
{
    a.len() == b.len() && forall|i: int|
        #![trigger a[i]]
        #![trigger b[i]]
        0 <= i < a.len() ==> marked_stmt(&a[i], &b[i], iv, safe)
}

pub open spec fn marked_cases(a: Seq<Case>, b: Seq<Case>, iv: LocalId, safe: Seq<LocalId>) -> bool
    decreases a, 2nat,
{
    a.len() == b.len() && forall|i: int|
        #![trigger a[i]]
        #![trigger b[i]]
        0 <= i < a.len() ==> marked_opt(a[i].test, b[i].test, iv, safe) && marked_stmts(
            a[i].body@,
            b[i].body@,
            iv,
            safe,
        )
}

pub open spec fn marked_catches(a: Seq<Catch>, b: Seq<Catch>, iv: LocalId, safe: Seq<LocalId>) -> bool
    decreases a, 2nat,
{
    a.len() == b.len() && forall|i: int|
        #![trigger a[i]]
        #![trigger b[i]]
        0 <= i < a.len() ==> a[i].binding == b[i].binding && marked_stmts(
            a[i].body@,
            b[i].body@,
            iv,
            safe,
        )
}

/// As [`marked`], throughout a statement.
pub open spec fn marked_stmt(a: &Stmt, b: &Stmt, iv: LocalId, safe: Seq<LocalId>) -> bool
    decreases a, 0nat,
{
    match (a, b) {
        (Stmt::Expr(x), Stmt::Expr(y)) => marked(x, y, iv, safe),
        (Stmt::Throw(x), Stmt::Throw(y)) => marked(x, y, iv, safe),
        (Stmt::Assign(l, x), Stmt::Assign(m, y)) => *l == *m && marked(x, y, iv, safe),
        (Stmt::Block(x), Stmt::Block(y)) => marked_stmts(x@, y@, iv, safe),
        (
            Stmt::If { cond: c1, then_branch: t1, else_branch: e1 },
            Stmt::If { cond: c2, then_branch: t2, else_branch: e2 },
        ) => {
            &&& marked(c1, c2, iv, safe)
            &&& marked_stmt(&**t1, &**t2, iv, safe)
            &&& match (e1, e2) {
                (Some(x), Some(y)) => marked_stmt(&**x, &**y, iv, safe),
                (None, None) => true,
                _ => false,
            }
        },
        (
            Stmt::While { label: l1, cond: c1, body: b1 },
            Stmt::While { label: l2, cond: c2, body: b2 },
        ) => same_label(*l1, *l2) && marked(c1, c2, iv, safe) && marked_stmt(&**b1, &**b2, iv, safe),
        (
            Stmt::DoWhile { label: l1, body: b1, cond: c1 },
            Stmt::DoWhile { label: l2, body: b2, cond: c2 },
        ) => same_label(*l1, *l2) && marked(c1, c2, iv, safe) && marked_stmt(&**b1, &**b2, iv, safe),
        (
            Stmt::For { label: l1, init: i1, cond: c1, update: u1, body: b1 },
            Stmt::For { label: l2, init: i2, cond: c2, update: u2, body: b2 },
        ) => {
            &&& same_label(*l1, *l2)
            &&& match (i1, i2) {
                (Some(x), Some(y)) => marked_stmt(&**x, &**y, iv, safe),
                (None, None) => true,
                _ => false,
            }
            &&& marked_opt(*c1, *c2, iv, safe)
            &&& marked_opt(*u1, *u2, iv, safe)
            &&& marked_stmt(&**b1, &**b2, iv, safe)
        },
        (
            Stmt::Switch { scrutinee: s1, cases: k1 },
            Stmt::Switch { scrutinee: s2, cases: k2 },
        ) => marked(s1, s2, iv, safe) && marked_cases(k1@, k2@, iv, safe),
        (Stmt::Break { label: l1 }, Stmt::Break { label: l2 }) => same_label(*l1, *l2),
        (Stmt::Continue { label: l1 }, Stmt::Continue { label: l2 }) => same_label(*l1, *l2),
        (Stmt::Return { value: v1 }, Stmt::Return { value: v2 }) => marked_opt(*v1, *v2, iv, safe),
        (
            Stmt::Try { body: b1, catches: c1, finally: f1 },
            Stmt::Try { body: b2, catches: c2, finally: f2 },
        ) => {
            &&& marked_stmts(b1@, b2@, iv, safe)
            &&& marked_catches(c1@, c2@, iv, safe)
            &&& match (f1, f2) {
                (Some(x), Some(y)) => marked_stmts(x@, y@, iv, safe),
                (None, None) => true,
                _ => false,
            }
        },
        (Stmt::Empty, Stmt::Empty) => true,
        _ => false,
    }
}

fn copy_label(l: &Option<String>) -> (r: Option<String>)
    ensures
        same_label(*l, r),
{
    match l {
        Some(x) => Some(x.clone()),
        None => None,
    }
}

fn mark_stmts(ss: &Vec<Stmt>, iv: LocalId, safe: &Vec<LocalId>) -> (r: Vec<Stmt>)
    ensures
        marked_stmts(ss@, r@, iv, safe@),
    decreases ss, 1nat,
{
    let mut out: Vec<Stmt> = Vec::new();
    let mut k: usize = 0;
    while k < ss.len()
        invariant
            k <= ss@.len(),
            out@.len() == k,
            forall|i: int|
                #![trigger ss@[i]]
                #![trigger out@[i]]
                0 <= i < k ==> marked_stmt(&ss@[i], &out@[i], iv, safe@),
        decreases ss@.len() - k,
    {
        let x = mark_stmt(&ss[k], iv, safe);
        out.push(x);
        k = k + 1;
    }
    out
}

fn mark_cases(cs: &Vec<Case>, iv: LocalId, safe: &Vec<LocalId>) -> (r: Vec<Case>)
    ensures
        marked_cases(cs@, r@, iv, safe@),
    decreases cs, 2nat,
{
    let mut out: Vec<Case> = Vec::new();
    let mut k: usize = 0;
    while k < cs.len()
        invariant
            k <= cs@.len(),
            out@.len() == k,
            forall|i: int|
                #![trigger cs@[i]]
                #![trigger out@[i]]
                0 <= i < k ==> marked_opt(cs@[i].test, out@[i].test, iv, safe@) && marked_stmts(
                    cs@[i].body@,
                    out@[i].body@,
                    iv,
                    safe@,
                ),
        decreases cs@.len() - k,
    {
        let test = mark_opt(&cs[k].test, iv, safe);
        let body = mark_stmts(&cs[k].body, iv, safe);
        out.push(Case { test, body });
        k = k + 1;
    }
    out
}

fn mark_catches(cs: &Vec<Catch>, iv: LocalId, safe: &Vec<LocalId>) -> (r: Vec<Catch>)
    ensures
        marked_catches(cs@, r@, iv, safe@),
    decreases cs, 2nat,
{
    let mut out: Vec<Catch> = Vec::new();
    let mut k: usize = 0;
    while k < cs.len()
        invariant
            k <= cs@.len(),
            out@.len() == k,
            forall|i: int|
                #![trigger cs@[i]]
                #![trigger out@[i]]
                0 <= i < k ==> cs@[i].binding == out@[i].binding && marked_stmts(
                    cs@[i].body@,
                    out@[i].body@,
                    iv,
                    safe@,
                ),
        decreases cs@.len() - k,
    {
        let body = mark_stmts(&cs[k].body, iv, safe);
        out.push(Catch { binding: cs[k].binding, body });
        k = k + 1;
    }
    out
}

fn mark_boxed(s: &Option<Box<Stmt>>, iv: LocalId, safe: &Vec<LocalId>) -> (r: Option<Box<Stmt>>)
    ensures
        match (*s, r) {
            (Some(x), Some(y)) => marked_stmt(&*x, &*y, iv, safe@),
            (None, None) => true,
            _ => false,
        },
    decreases s, 1nat,
{
    match s {
        Some(x) => Some(Box::new(mark_stmt(x, iv, safe))),
        None => None,
    }
}

/// A copy of a statement with the accesses `v[i]` of safe locals marked
/// unchecked.
pub fn mark_stmt(s: &Stmt, iv: LocalId, safe: &Vec<LocalId>) -> (r: Stmt)
    ensures
        marked_stmt(s, &r, iv, safe@),
    decreases s, 0nat,
{
    match s {
        Stmt::Expr(e) => Stmt::Expr(mark_expr(e, iv, safe)),
        Stmt::Throw(e) => Stmt::Throw(mark_expr(e, iv, safe)),
        Stmt::Assign(l, e) => Stmt::Assign(*l, mark_expr(e, iv, safe)),
        Stmt::Block(b) => Stmt::Block(mark_stmts(b, iv, safe)),
        Stmt::If { cond, then_branch, else_branch } => Stmt::If {
            cond: mark_expr(cond, iv, safe),
            then_branch: Box::new(mark_stmt(then_branch, iv, safe)),
            else_branch: mark_boxed(else_branch, iv, safe),
        },
        Stmt::While { label, cond, body } => Stmt::While {
            label: copy_label(label),
            cond: mark_expr(cond, iv, safe),
            body: Box::new(mark_stmt(body, iv, safe)),
        },
        Stmt::DoWhile { label, body, cond } => Stmt::DoWhile {
            label: copy_label(label),
            body: Box::new(mark_stmt(body, iv, safe)),
            cond: mark_expr(cond, iv, safe),
        },
        Stmt::For { label, init, cond, update, body } => Stmt::For {
            label: copy_label(label),
            init: mark_boxed(init, iv, safe),
            cond: mark_opt(cond, iv, safe),
            update: mark_opt(update, iv, safe),
            body: Box::new(mark_stmt(body, iv, safe)),
        },
        Stmt::Switch { scrutinee, cases } => Stmt::Switch {
            scrutinee: mark_expr(scrutinee, iv, safe),
            cases: mark_cases(cases, iv, safe),
        },
        Stmt::Break { label } => Stmt::Break { label: copy_label(label) },
        Stmt::Continue { label } => Stmt::Continue { label: copy_label(label) },
        Stmt::Return { value } => Stmt::Return { value: mark_opt(value, iv, safe) },
        Stmt::Try { body, catches, finally } => Stmt::Try {
            body: mark_stmts(body, iv, safe),
            catches: mark_catches(catches, iv, safe),
            finally: match finally {
                Some(f) => Some(mark_stmts(f, iv, safe)),
                None => None,
            },
        },
        Stmt::Empty => Stmt::Empty,
    }
}

} // verus!
