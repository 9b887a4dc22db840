//! The compilation scheme of expressions: which commands each expression
//! extends the code by, and what its value is afterwards.

use vstd::prelude::*;

use crate::codegen::code::{Cast, Cmd, Env, FloatOp, LTy, Op, St, Val, WrapTarget};
use crate::codegen::ops::{
    as_cast, binary_vals, capture_cell, const_string, convert_val, copy_box, elem_val, field_ptr,
    fun_of, idx_in_bounds, inc_dec, inc_dec_at, int_operand, intern_namespace, is_test, load_local,
    load_typed, make_closure, ns_of, null_check, num_of, obj_of, seq_of, slot_at, static_ty,
    step_val, store_local, this_param, to_num, unary_val, unboxed_of, utf8_lit, vec_elem,
    vec_header, vec_kind_of, vec_scalar,
};
use crate::codegen::plan::{builtin_plan_of, native_plan_of, operand, plan_call, Kind, Plan};
use crate::codegen::value::{
    basic_ty, box_value, i32v, materialize, nonzero, ptr, storage_of, stringify, truthy, unbox,
    wrap_basic, F64_HALF, F64_MAX, F64_NAN, F64_ZERO,
};
use crate::mir::{
    ArrMethod, Builtin, CapSrc, DateFn, Expr, ExprKind, NativeFn, NumMethod, RegexOp, SocketOp,
    StrMethod, Ty, VecMethod,
};

verus! {

// --- combinators on computed values ----------------------------------------------

pub open spec fn boxed<'a>(p: (St<'a>, Val)) -> (St<'a>, Op) {
    box_value(p.0, p.1)
}

pub open spec fn strung<'a>(p: (St<'a>, Val)) -> (St<'a>, Op) {
    stringify(p.0, p.1)
}

pub open spec fn numbered<'a>(p: (St<'a>, Val)) -> (St<'a>, Op) {
    to_num(p.0, p.1)
}

pub open spec fn inted<'a>(p: (St<'a>, Val)) -> (St<'a>, Op) {
    int_operand(p.0, p.1)
}

pub open spec fn objected<'a>(p: (St<'a>, Val)) -> (St<'a>, Op) {
    obj_of(p.0, p.1)
}

pub open spec fn sequenced<'a>(p: (St<'a>, Val)) -> (St<'a>, Op) {
    seq_of(p.0, p.1)
}

pub open spec fn named<'a>(p: (St<'a>, Val)) -> (St<'a>, Op) {
    ns_of(p.0, p.1)
}

pub open spec fn functioned<'a>(p: (St<'a>, Val)) -> (St<'a>, Op) {
    fun_of(p.0, p.1)
}

pub open spec fn num_val<'a>(p: (St<'a>, Op)) -> (St<'a>, Val) {
    (p.0, Val::Num(p.1))
}

pub open spec fn int_val<'a>(p: (St<'a>, Op)) -> (St<'a>, Val) {
    (p.0, Val::Int(p.1))
}

pub open spec fn uint_val<'a>(p: (St<'a>, Op)) -> (St<'a>, Val) {
    (p.0, Val::UInt(p.1))
}

pub open spec fn str_val<'a>(p: (St<'a>, Op)) -> (St<'a>, Val) {
    (p.0, Val::Str(p.1))
}

pub open spec fn arr_val<'a>(p: (St<'a>, Op)) -> (St<'a>, Val) {
    (p.0, Val::Arr(p.1))
}

pub open spec fn vec_val<'a>(p: (St<'a>, Op)) -> (St<'a>, Val) {
    (p.0, Val::VecP(p.1))
}

pub open spec fn reg_val<'a>(p: (St<'a>, Op)) -> (St<'a>, Val) {
    (p.0, Val::Reg(p.1))
}

pub open spec fn dat_val<'a>(p: (St<'a>, Op)) -> (St<'a>, Val) {
    (p.0, Val::Dat(p.1))
}

pub open spec fn ns_val<'a>(p: (St<'a>, Op)) -> (St<'a>, Val) {
    (p.0, Val::Ns(p.1))
}

/// An `i32` result taken as a boolean.
pub open spec fn flag_val<'a>(p: (St<'a>, Op)) -> (St<'a>, Val) {
    let (st, b) = nonzero(p.0, p.1);
    (st, Val::Bool(b))
}

/// An `i32` result of which the low bit is the boolean.
pub open spec fn low_bit_val<'a>(p: (St<'a>, Op)) -> (St<'a>, Val) {
    let (st, b) = p.0.val(Cmd::Cast(Cast::Trunc1, p.1));
    (st, Val::Bool(b))
}

pub open spec fn bad<'a>(st: St<'a>) -> (St<'a>, Val) {
    (st.fail(), Val::Void)
}

/// The storage type of a value as it is passed.
pub open spec fn val_lty(v: Val) -> LTy {
    match v {
        Val::Int(_) | Val::UInt(_) => LTy::I32,
        Val::Num(_) => LTy::F64,
        Val::Bool(_) => LTy::I1,
        Val::Any(_) => LTy::Any,
        Val::Void => LTy::I1,
        _ => LTy::Ptr,
    }
}

/// Room for at least one element.
pub open spec fn at_least_one(n: u32) -> u32 {
    if n == 0 {
        1
    } else {
        n
    }
}

/// Passes the arguments by their kinds.
pub open spec fn pass_vals<'a>(st: St<'a>, xs: Seq<(Val, Op)>, n: nat) -> St<'a>
    decreases n,
{
    if n == 0 {
        st
    } else {
        pass_vals(st, xs, (n - 1) as nat).arg((val_lty(xs[n - 1].0), xs[n - 1].1))
    }
}

/// Passes the arguments by their static types.
pub open spec fn pass_typed<'a>(st: St<'a>, xs: Seq<(Val, Op)>, args: Seq<Expr>, n: nat) -> St<'a>
    decreases n,
{
    if n == 0 {
        st
    } else {
        let st = pass_typed(st, xs, args, (n - 1) as nat);
        let (st, t) = basic_ty(st, args[n - 1].ty);
        st.arg((t, xs[n - 1].1))
    }
}

/// The value of a call: the result, or for a setter in value position the
/// assigned operand.
pub open spec fn call_result<'a>(st: St<'a>, r: Op, ret: Ty, want: Ty, xs: Seq<(Val, Op)>) -> (
    St<'a>,
    Val,
) {
    if ret == Ty::Void {
        (
            st,
            if want != Ty::Void && xs.len() > 0 {
                xs[0].0
            } else {
                Val::Void
            },
        )
    } else {
        wrap_basic(st, r, ret)
    }
}

// --- leaves ------------------------------------------------------------------------

/// Stores the first `n` captured cells into the environment array.
pub open spec fn env_cells<'a>(env: Env<'a>, st: St<'a>, arr: Op, caps: Seq<CapSrc>, n: nat) -> St<'a>
    decreases n,
{
    if n == 0 {
        st
    } else {
        let st = env_cells(env, st, arr, caps, (n - 1) as nat);
        let (st, cell) = match caps[n - 1] {
            CapSrc::ParentLocal(id) => match slot_at(env.locals, id) {
                Some(s) => st.val(Cmd::Load(LTy::Ptr, s.ptr)),
                None => (st.fail(), Op::Null),
            },
            CapSrc::ParentCapture(j) => capture_cell(env, st, j),
        };
        let (st, slot) = st.val(Cmd::Elem(LTy::Ptr, arr, Op::I32((n - 1) as u32)));
        st.push(Cmd::Store(slot, cell))
    }
}

pub open spec fn closure<'a>(env: Env<'a>, st: St<'a>, f: crate::mir::FnId) -> (St<'a>, Val) {
    if f.0 < env.program.functions@.len() {
        let caps = env.program.functions@[f.0 as int].captures@;
        let n = caps.len() as u32;
        let (st, arr) = st.val(Cmd::Alloca(LTy::Ptr, at_least_one(n)));
        let st = env_cells(env, st, arr, caps, caps.len());
        make_closure(st, WrapTarget::Direct(f), n, arr, Op::Null)
    } else {
        bad(st)
    }
}

pub open spec fn capture_inc_dec<'a>(
    env: Env<'a>,
    st: St<'a>,
    slot: usize,
    ty: Ty,
    is_inc: bool,
    is_prefix: bool,
) -> (St<'a>, Val) {
    let (st, cell) = capture_cell(env, st, slot);
    let (st, copy) = copy_box(st, cell);
    let (st, old) = unbox(st, copy, ty);
    let (st, new) = step_val(st, old, is_inc);
    let (st, b) = box_value(st, new);
    let (st, x) = st.val(Cmd::Load(LTy::Any, b));
    (
        st.push(Cmd::Store(cell, x)),
        if is_prefix {
            new
        } else {
            old
        },
    )
}

pub open spec fn regexp_lit<'a>(st: St<'a>, pat: &'a String, flags: &'a String) -> (St<'a>, Val) {
    let (st, p, pn) = utf8_lit(st, pat);
    let (st, f, fnn) = utf8_lit(st, flags);
    reg_val(st.rt4("vs_regexp_lit", Some(LTy::Ptr), ptr(p), i32v(pn), ptr(f), i32v(fnn)))
}

/// Expressions without subexpressions.
#[verifier::opaque]
pub open spec fn leaf<'a>(env: Env<'a>, st: St<'a>, e: &'a Expr) -> (St<'a>, Val) {
    match &e.kind {
        ExprKind::Int(v) => (st, Val::Int(Op::I32(*v as u32))),
        ExprKind::UInt(v) => (st, Val::UInt(Op::I32(*v))),
        ExprKind::Number(bits) => (st, Val::Num(Op::F64(*bits))),
        ExprKind::Bool(v) => (st, Val::Bool(Op::I1(*v))),
        ExprKind::Str(s) => str_val(const_string(st, s)),
        ExprKind::Null => (st, Val::Str(Op::Null)),
        ExprKind::Undefined => wrap_basic(st, Op::Undefined, Ty::Any),
        ExprKind::This => (st, Val::Obj(this_param(env))),
        ExprKind::LocalGet(id) => load_local(env, st, *id),
        ExprKind::IncDec { target, is_inc, is_prefix } => inc_dec(
            env,
            st,
            *target,
            *is_inc,
            *is_prefix,
        ),
        ExprKind::CaptureGet(i) => {
            let (st, cell) = capture_cell(env, st, *i);
            let (st, copy) = copy_box(st, cell);
            unbox(st, copy, e.ty)
        },
        ExprKind::CaptureIncDec { slot, is_inc, is_prefix } => capture_inc_dec(
            env,
            st,
            *slot,
            e.ty,
            *is_inc,
            *is_prefix,
        ),
        ExprKind::StaticGet(class, index) => match static_ty(env, *class, *index) {
            Some(ty) => load_typed(st, Op::Static(*class, *index), ty),
            None => bad(st),
        },
        ExprKind::StaticIncDec { class, index, is_inc, is_prefix } => match static_ty(
            env,
            *class,
            *index,
        ) {
            Some(ty) => inc_dec_at(st, Op::Static(*class, *index), ty, *is_inc, *is_prefix),
            None => bad(st),
        },
        ExprKind::NamespaceVal(id) => if *id < env.program.namespace_uris@.len() {
            intern_namespace(st, &env.program.namespace_uris@[*id as int])
        } else {
            bad(st)
        },
        ExprKind::RegExpLit(pat, flags) => regexp_lit(st, pat, flags),
        ExprKind::Closure(f) => closure(env, st, *f),
        ExprKind::FnValue(f) => make_closure(st, WrapTarget::Direct(*f), 0, Op::Null, Op::Null),
        ExprKind::BuiltinValue(b) => make_closure(
            st,
            WrapTarget::Builtin(*b),
            0,
            Op::Null,
            Op::Null,
        ),
        _ => bad(st),
    }
}

// --- lists -------------------------------------------------------------------------

/// Argument `i`.
pub open spec fn nth<'a>(env: Env<'a>, st: St<'a>, args: Seq<Expr>, i: int) -> (St<'a>, Val)
    decreases args, 0nat,
{
    if 0 <= i < args.len() {
        expr(env, st, &args[i])
    } else {
        bad(st)
    }
}

/// The double of argument `i`, or a default if it is missing.
pub open spec fn num_or<'a>(env: Env<'a>, st: St<'a>, args: Seq<Expr>, i: int, default: u64) -> (
    St<'a>,
    Op,
)
    decreases args, 0nat,
{
    if 0 <= i < args.len() {
        numbered(expr(env, st, &args[i]))
    } else {
        (st, Op::F64(default))
    }
}

/// The operand of a planned call.
pub open spec fn plan_arg<'a>(env: Env<'a>, st: St<'a>, kind: Kind, args: Seq<Expr>, i: int) -> (
    St<'a>,
    Option<(LTy, Op)>,
)
    decreases args, 1nat,
{
    if kind == Kind::Absent {
        (st, None)
    } else {
        let (st, v) = nth(env, st, args, i);
        let (st, x) = operand(st, kind, v);
        (st, Some(x))
    }
}

pub open spec fn planned<'a>(env: Env<'a>, st: St<'a>, p: Plan, args: Seq<Expr>) -> (St<'a>, Val)
    decreases args, 2nat,
{
    let (st, a) = plan_arg(env, st, p.a, args, 0);
    let (st, b) = plan_arg(env, st, p.b, args, 1);
    plan_call(st, p, a, b)
}

/// The first `n` arguments in order, each with the operand it is passed as.
pub open spec fn exprs<'a>(env: Env<'a>, st: St<'a>, args: Seq<Expr>, n: nat) -> (
    St<'a>,
    Seq<(Val, Op)>,
)
    decreases args, n,
{
    if n == 0 || n > args.len() {
        (st, Seq::empty())
    } else {
        let (st, xs) = exprs(env, st, args, (n - 1) as nat);
        let (st, v) = expr(env, st, &args[n - 1]);
        let (st, x) = materialize(st, v);
        (st, xs.push((v, x)))
    }
}

/// Stores the boxes of the first `n` arguments into the array at `arr`.
pub open spec fn stage<'a>(env: Env<'a>, st: St<'a>, arr: Op, args: Seq<Expr>, n: nat) -> St<'a>
    decreases args, n,
{
    if n == 0 || n > args.len() {
        st
    } else {
        let st = stage(env, st, arr, args, (n - 1) as nat);
        let (st, p) = boxed(expr(env, st, &args[n - 1]));
        let (st, x) = st.val(Cmd::Load(LTy::Any, p));
        let (st, slot) = st.val(Cmd::Elem(LTy::Any, arr, Op::I32((n - 1) as u32)));
        st.push(Cmd::Store(slot, x))
    }
}

/// A stack array of the boxed arguments.
pub open spec fn staged<'a>(env: Env<'a>, st: St<'a>, args: Seq<Expr>) -> (St<'a>, Op)
    decreases args, args.len() + 1,
{
    let (st, arr) = st.val(Cmd::Alloca(LTy::Any, at_least_one(args.len() as u32)));
    (stage(env, st, arr, args, args.len()), arr)
}

/// As [`stage`], with holes that become `undefined`.
pub open spec fn stage_opt<'a>(
    env: Env<'a>,
    st: St<'a>,
    arr: Op,
    els: Seq<Option<Expr>>,
    n: nat,
) -> St<'a>
    decreases els, n,
{
    if n == 0 || n > els.len() {
        st
    } else {
        let st = stage_opt(env, st, arr, els, (n - 1) as nat);
        let (st, x) = match &els[n - 1] {
            Some(e) => {
                let (st, p) = boxed(expr(env, st, e));
                st.val(Cmd::Load(LTy::Any, p))
            },
            None => (st, Op::Undefined),
        };
        let (st, slot) = st.val(Cmd::Elem(LTy::Any, arr, Op::I32((n - 1) as u32)));
        st.push(Cmd::Store(slot, x))
    }
}

/// Stores the first `n` Number arguments into the array at `arr`.
pub open spec fn stage_f64<'a>(env: Env<'a>, st: St<'a>, arr: Op, args: Seq<Expr>, n: nat) -> St<'a>
    decreases args, n,
{
    if n == 0 || n > args.len() {
        st
    } else {
        let st = stage_f64(env, st, arr, args, (n - 1) as nat);
        let (st, v) = expr(env, st, &args[n - 1]);
        let (st, x) = num_of(st, v);
        let (st, slot) = st.val(Cmd::Elem(LTy::F64, arr, Op::I32((n - 1) as u32)));
        st.push(Cmd::Store(slot, x))
    }
}

/// A stack array of the Number arguments.
pub open spec fn staged_f64<'a>(env: Env<'a>, st: St<'a>, args: Seq<Expr>) -> (St<'a>, Op)
    decreases args, args.len() + 1,
{
    let (st, arr) = st.val(Cmd::Alloca(LTy::F64, at_least_one(args.len() as u32)));
    (stage_f64(env, st, arr, args, args.len()), arr)
}

/// Folds the first `n` arguments pairwise from the left.
pub open spec fn fold_pairs<'a>(
    env: Env<'a>,
    st: St<'a>,
    name: &'static str,
    args: Seq<Expr>,
    n: nat,
) -> (St<'a>, Op)
    decreases args, n,
{
    if n == 0 || n > args.len() {
        (st.fail(), Op::Null)
    } else if n == 1 {
        numbered(expr(env, st, &args[0]))
    } else {
        let (st, acc) = fold_pairs(env, st, name, args, (n - 1) as nat);
        let (st, b) = numbered(expr(env, st, &args[n - 1]));
        st.rt2(name, Some(LTy::F64), (LTy::F64, acc), (LTy::F64, b))
    }
}

/// Sets the first `n` properties of the object in the box at `obj`.
pub open spec fn set_props<'a>(
    env: Env<'a>,
    st: St<'a>,
    obj: Op,
    props: Seq<(String, Expr)>,
    n: nat,
) -> St<'a>
    decreases props, n,
{
    if n == 0 || n > props.len() {
        st
    } else {
        let st = set_props(env, st, obj, props, (n - 1) as nat);
        let (st, key) = const_string(st, &props[n - 1].0);
        let (st, v) = boxed(expr(env, st, &props[n - 1].1));
        st.rt3("vs_any_set_prop", None, ptr(obj), ptr(key), ptr(v)).0
    }
}

// --- groups of expressions -----------------------------------------------------------

/// Writes, and reads of instance fields.
pub open spec fn storage_expr<'a>(env: Env<'a>, st: St<'a>, e: &'a Expr) -> (St<'a>, Val)
    decreases e, 0nat,
{
    match &e.kind {
        ExprKind::LocalSet(id, v) => {
            let (st, x) = expr(env, st, &**v);
            let st = store_local(env, st, *id, x);
            // Read back, so that the value is the stored one.
            load_local(env, st, *id)
        },
        ExprKind::CaptureSet(i, v) => {
            let (st, x) = expr(env, st, &**v);
            let (st, b) = box_value(st, x);
            let (st, cell) = capture_cell(env, st, *i);
            let (st, y) = st.val(Cmd::Load(LTy::Any, b));
            (st.push(Cmd::Store(cell, y)), x)
        },
        ExprKind::StaticSet(class, index, v) => match static_ty(env, *class, *index) {
            Some(ty) => {
                let (st, x) = expr(env, st, &**v);
                let (st, y) = materialize(st, x);
                wrap_basic(st.push(Cmd::Store(Op::Static(*class, *index), y)), y, ty)
            },
            None => bad(st),
        },
        ExprKind::FieldGet(recv, class, slot) => {
            let (st, obj) = objected(expr(env, st, &**recv));
            let st = null_check(st, obj);
            let (st, p, ty) = field_ptr(env, st, obj, *class, *slot);
            load_typed(st, p, ty)
        },
        ExprKind::FieldSet(recv, class, slot, v) => {
            let (st, obj) = objected(expr(env, st, &**recv));
            let st = null_check(st, obj);
            let (st, x) = expr(env, st, &**v);
            let (st, p, ty) = field_ptr(env, st, obj, *class, *slot);
            let (st, y) = materialize(st, x);
            wrap_basic(st.push(Cmd::Store(p, y)), y, ty)
        },
        ExprKind::FieldIncDec { recv, class, slot, is_inc, is_prefix } => {
            let (st, obj) = objected(expr(env, st, &**recv));
            let st = null_check(st, obj);
            let (st, p, ty) = field_ptr(env, st, obj, *class, *slot);
            inc_dec_at(st, p, ty, *is_inc, *is_prefix)
        },
        _ => bad(st),
    }
}

/// `&&` and `||`: the value of the left side if it decides, else of the right.
pub open spec fn logical<'a>(env: Env<'a>, st: St<'a>, e: &'a Expr) -> (St<'a>, Val)
    decreases e, 0nat,
{
    match &e.kind {
        ExprKind::Logical { is_and, lhs, rhs } => {
            let (st, l) = expr(env, st, &**lhs);
            let (st, lx) = materialize(st, l);
            let (st, test) = truthy(st, l);
            let lhs_bb = st.block;
            let (st, rhs_bb) = st.new_block();
            let (st, end_bb) = st.new_block();
            let st = if *is_and {
                st.term(Cmd::CondBr(test, rhs_bb, end_bb))
            } else {
                st.term(Cmd::CondBr(test, end_bb, rhs_bb))
            };
            let st = st.at(rhs_bb);
            let (st, r) = expr(env, st, &**rhs);
            let (st, rx) = materialize(st, r);
            let rhs_end = st.block;
            let st = st.term(Cmd::Br(end_bb)).at(end_bb);
            let (st, x) = st.val(Cmd::Phi(val_lty(l), lx, lhs_bb, rx, rhs_end));
            wrap_basic(st, x, e.ty)
        },
        _ => bad(st),
    }
}

pub open spec fn conditional<'a>(env: Env<'a>, st: St<'a>, e: &'a Expr) -> (St<'a>, Val)
    decreases e, 0nat,
{
    match &e.kind {
        ExprKind::Conditional(c, t, f) => {
            let (st, cv) = expr(env, st, &**c);
            let (st, cond) = truthy(st, cv);
            let (st, then_bb) = st.new_block();
            let (st, else_bb) = st.new_block();
            let (st, end_bb) = st.new_block();
            let st = st.term(Cmd::CondBr(cond, then_bb, else_bb)).at(then_bb);
            let (st, tv) = expr(env, st, &**t);
            let (st, tx) = materialize(st, tv);
            let t_end = st.block;
            let st = st.term(Cmd::Br(end_bb)).at(else_bb);
            let (st, fv) = expr(env, st, &**f);
            let (st, fx) = materialize(st, fv);
            let f_end = st.block;
            let st = st.term(Cmd::Br(end_bb)).at(end_bb);
            if e.ty == Ty::Void {
                (st, Val::Void)
            } else {
                let (st, x) = st.val(Cmd::Phi(val_lty(tv), tx, t_end, fx, f_end));
                wrap_basic(st, x, e.ty)
            }
        },
        _ => bad(st),
    }
}

pub open spec fn operator<'a>(env: Env<'a>, st: St<'a>, e: &'a Expr) -> (St<'a>, Val)
    decreases e, 1nat,
{
    match &e.kind {
        ExprKind::Unary(op, v) => {
            let (st, x) = expr(env, st, &**v);
            unary_val(st, *op, x)
        },
        ExprKind::Binary(op, l, r) => {
            let (st, x) = expr(env, st, &**l);
            let (st, y) = expr(env, st, &**r);
            binary_vals(st, *op, x, y)
        },
        ExprKind::Logical { .. } => logical(env, st, e),
        ExprKind::Conditional(..) => conditional(env, st, e),
        ExprKind::Comma(l, r) => {
            let (st, _) = expr(env, st, &**l);
            expr(env, st, &**r)
        },
        ExprKind::Is(v, ty) => {
            let (st, p) = boxed(expr(env, st, &**v));
            let (st, b) = is_test(st, p, *ty);
            (st, Val::Bool(b))
        },
        ExprKind::As(v, ty) => {
            let (st, p) = boxed(expr(env, st, &**v));
            as_cast(st, p, *ty)
        },
        ExprKind::Conv(conv, v) => {
            let (st, x) = expr(env, st, &**v);
            convert_val(st, *conv, x)
        },
        _ => bad(st),
    }
}

/// Sets every Number slot among the first `n` to NaN: fresh memory is zeroed,
/// which is the default of every other type.
pub open spec fn nan_slots<'a>(st: St<'a>, class: u32, obj: Op, slots: Seq<Ty>, n: nat) -> St<'a>
    decreases n,
{
    if n == 0 {
        st
    } else {
        let st = nan_slots(st, class, obj, slots, (n - 1) as nat);
        if slots[n - 1] == Ty::Number {
            let (st, p) = st.val(Cmd::InstanceField(class, obj, n as u32));
            st.push(Cmd::Store(p, Op::F64(F64_NAN)))
        } else {
            st
        }
    }
}

pub open spec fn alloc_object<'a>(st: St<'a>, class: u32) -> (St<'a>, Op) {
    st.rt2("vs_alloc_object", Some(LTy::Ptr), ptr(Op::Rtti(class)), (LTy::I64, Op::SizeOf(class)))
}

/// Calls of compiled functions.
pub open spec fn call<'a>(env: Env<'a>, st: St<'a>, e: &'a Expr) -> (St<'a>, Val)
    decreases e, 0nat,
{
    match &e.kind {
        ExprKind::CallFn(f, args) => {
            let (st, xs) = exprs(env, st, args@, args@.len());
            let (st, r) = pass_vals(st, xs, xs.len()).val(Cmd::CallFn(*f));
            wrap_basic(st, r, e.ty)
        },
        ExprKind::CallDirect { fn_id, recv, args } => {
            let (st, obj) = objected(expr(env, st, &**recv));
            let (st, xs) = exprs(env, st, args@, args@.len());
            let (st, r) = pass_vals(st.arg(ptr(obj)), xs, xs.len()).val(Cmd::CallFn(*fn_id));
            if fn_id.0 < env.program.functions@.len() {
                wrap_basic(st, r, env.program.functions@[fn_id.0 as int].ret)
            } else {
                bad(st)
            }
        },
        ExprKind::New(class, args) => if *class < env.program.classes@.len() {
            let c = env.program.classes@[*class as int];
            let (st, obj) = alloc_object(st, *class);
            let st = nan_slots(st, *class, obj, c.slots@, c.slots@.len());
            let (st, xs) = exprs(env, st, args@, args@.len());
            let (st, _) = pass_vals(st.arg(ptr(obj)), xs, xs.len()).val(Cmd::CallFn(c.ctor));
            (st, Val::Obj(obj))
        } else {
            bad(st)
        },
        ExprKind::BoundMethod(recv, class, vslot) => {
            let (st, obj) = objected(expr(env, st, &**recv));
            let st = null_check(st, obj);
            make_closure(
                st,
                WrapTarget::Virtual { class: *class, vslot: *vslot },
                0,
                Op::Null,
                obj,
            )
        },
        _ => bad(st),
    }
}

/// The method in a vtable slot.
pub open spec fn method_at(env: Env, class: u32, vslot: usize) -> Option<crate::mir::FnId> {
    if class < env.program.classes@.len() && vslot < env.program.classes@[class as int].vtable@.len()
        && env.program.classes@[class as int].vtable@[vslot as int].0
        < env.program.functions@.len() {
        Some(env.program.classes@[class as int].vtable@[vslot as int])
    } else {
        None
    }
}

/// The code pointer in a vtable slot of the object's class.
pub open spec fn load_method<'a>(st: St<'a>, obj: Op, class: u32, vslot: usize) -> (St<'a>, Op) {
    let (st, desc) = st.val(Cmd::Load(LTy::Ptr, obj));
    let (st, vt) = st.val(Cmd::Vtable(class, desc));
    let (st, p) = st.val(Cmd::Elem(LTy::Ptr, vt, Op::I32(vslot as u32)));
    st.val(Cmd::Load(LTy::Ptr, p))
}

/// Calls that are dispatched at run time.
pub open spec fn dispatch<'a>(env: Env<'a>, st: St<'a>, e: &'a Expr) -> (St<'a>, Val)
    decreases e, 0nat,
{
    match &e.kind {
        ExprKind::CallVirtual { recv, class, vslot, args } => {
            let (st, obj) = objected(expr(env, st, &**recv));
            let st = null_check(st, obj);
            let (st, f) = load_method(st, obj, *class, *vslot);
            match method_at(env, *class, *vslot) {
                Some(m) => {
                    let (st, xs) = exprs(env, st, args@, args@.len());
                    let (st, r) = pass_vals(st.arg(ptr(obj)), xs, xs.len()).val(
                        Cmd::CallMethod(f, m),
                    );
                    call_result(st, r, env.program.functions@[m.0 as int].ret, e.ty, xs)
                },
                None => bad(st),
            }
        },
        ExprKind::CallIface { recv, iface, islot, ret, args } => {
            let (st, obj) = objected(expr(env, st, &**recv));
            let (st, table) = st.rt2("vs_iface_table", Some(LTy::Ptr), ptr(obj), i32v(*iface));
            let (st, p) = st.val(Cmd::Elem(LTy::Ptr, table, Op::I32(*islot as u32)));
            let (st, f) = st.val(Cmd::Load(LTy::Ptr, p));
            let (st, xs) = exprs(env, st, args@, args@.len());
            let (st, r) = pass_typed(st.arg(ptr(obj)), xs, args@, xs.len()).val(
                Cmd::CallPtr(f, storage_of(*ret)),
            );
            call_result(st, r, *ret, e.ty, xs)
        },
        _ => bad(st),
    }
}

/// The receiver of an indirect call: only objects bind, everything else is
/// null.
pub open spec fn bound_this<'a>(st: St<'a>, v: Val) -> (St<'a>, Op) {
    match v {
        Val::Obj(p) => (st, p),
        Val::Any(p) => st.rt2("vs_any_as_class", Some(LTy::Ptr), ptr(p), ptr(Op::Rtti(0))),
        _ => (st, Op::Null),
    }
}

/// Calls of function values.
pub open spec fn call_fn_value<'a>(env: Env<'a>, st: St<'a>, e: &'a Expr) -> (St<'a>, Val)
    decreases e, 0nat,
{
    match &e.kind {
        ExprKind::CallFnValue { callee, this_arg, args, is_apply } => {
            let (st, c) = functioned(expr(env, st, &**callee));
            let (st, this) = match this_arg {
                Some(t) => {
                    let (st, v) = expr(env, st, &**t);
                    bound_this(st, v)
                },
                None => (st, Op::Null),
            };
            let (st, out) = st.val(Cmd::Alloca(LTy::Any, 1));
            let st = if *is_apply {
                let (st, arr) = if args@.len() > 0 {
                    let (st, v) = nth(env, st, args@, 0);
                    match v {
                        Val::Arr(a) | Val::Str(a) => (st, a),
                        _ => (st, Op::Null),
                    }
                } else {
                    (st, Op::Null)
                };
                st.rt4("vs_closure_apply", None, ptr(c), ptr(this), ptr(arr), ptr(out)).0
            } else {
                let (st, buf) = staged(env, st, args@);
                st.rt5(
                    "vs_closure_call",
                    None,
                    ptr(c),
                    ptr(this),
                    i32v(args@.len() as u32),
                    ptr(buf),
                    ptr(out),
                ).0
            };
            unbox(st, out, e.ty)
        },
        _ => bad(st),
    }
}

/// Global builtin functions.
pub open spec fn builtin<'a>(env: Env<'a>, st: St<'a>, e: &'a Expr) -> (St<'a>, Val)
    decreases e, 0nat,
{
    match &e.kind {
        ExprKind::CallBuiltin(b, args) => match *b {
            Builtin::Trace => {
                let (st, arr) = staged(env, st, args@);
                let (st, _) = st.rt2("vs_trace", None, i32v(args@.len() as u32), ptr(arr));
                (st, Val::Void)
            },
            Builtin::IsNaN => {
                let (st, v) = numbered(nth(env, st, args@, 0));
                let (st, r) = is_nan(st, v);
                (st, Val::Bool(r))
            },
            Builtin::IsFinite => {
                let (st, v) = numbered(nth(env, st, args@, 0));
                let (st, r) = is_finite(st, v);
                (st, Val::Bool(r))
            },
            _ => match builtin_plan_of(*b) {
                Some(p) => planned(env, st, p, args@),
                None => bad(st),
            },
        },
        _ => bad(st),
    }
}

/// NaN is the only value unordered with itself.
pub open spec fn is_nan<'a>(st: St<'a>, v: Op) -> (St<'a>, Op) {
    st.val(Cmd::FCmp(crate::codegen::code::FloatPred::UNO, v, v))
}

/// `x - x` is zero only for finite `x`.
pub open spec fn is_finite<'a>(st: St<'a>, v: Op) -> (St<'a>, Op) {
    let (st, d) = st.val(Cmd::Float(FloatOp::Sub_, v, v));
    st.val(Cmd::FCmp(crate::codegen::code::FloatPred::OEQ, d, Op::F64(F64_ZERO)))
}

/// The runtime function of a string method, the kinds of its arguments and
/// the type of its result.
pub open spec fn str_sig(m: StrMethod) -> (&'static str, Kind, Kind, LTy) {
    match m {
        StrMethod::CharAt => ("vs_str_char_at", Kind::Num, Kind::Absent, LTy::Ptr),
        StrMethod::CharCodeAt => ("vs_str_char_code_at", Kind::Num, Kind::Absent, LTy::F64),
        StrMethod::IndexOf => ("vs_str_index_of", Kind::Str, Kind::Num, LTy::I32),
        StrMethod::LastIndexOf => ("vs_str_last_index_of", Kind::Str, Kind::Num, LTy::I32),
        StrMethod::Slice => ("vs_str_slice", Kind::Num, Kind::Num, LTy::Ptr),
        StrMethod::Substring => ("vs_str_substring", Kind::Num, Kind::Num, LTy::Ptr),
        StrMethod::Substr => ("vs_str_substr", Kind::Num, Kind::Num, LTy::Ptr),
        StrMethod::ToLowerCase => ("vs_str_to_lower", Kind::Absent, Kind::Absent, LTy::Ptr),
        StrMethod::ToUpperCase => ("vs_str_to_upper", Kind::Absent, Kind::Absent, LTy::Ptr),
        StrMethod::ToString => ("vs_str_to_string", Kind::Absent, Kind::Absent, LTy::Ptr),
        StrMethod::Split => ("vs_str_split", Kind::Str, Kind::Num, LTy::Ptr),
        StrMethod::Replace => ("vs_str_replace", Kind::Str, Kind::Str, LTy::Ptr),
    }
}

/// An argument of a string method; a missing one is not passed.
pub open spec fn opt_arg<'a>(env: Env<'a>, st: St<'a>, kind: Kind, args: Seq<Expr>, i: int) -> (
    St<'a>,
    Option<(LTy, Op)>,
)
    decreases args, 2nat,
{
    if 0 <= i < args.len() {
        plan_arg(env, st, kind, args, i)
    } else {
        (st, None)
    }
}

pub open spec fn pass_opt<'a>(st: St<'a>, a: Option<(LTy, Op)>) -> St<'a> {
    match a {
        Some(x) => st.arg(x),
        None => st,
    }
}

pub open spec fn str_method<'a>(env: Env<'a>, st: St<'a>, e: &'a Expr) -> (St<'a>, Val)
    decreases e, 0nat,
{
    match &e.kind {
        ExprKind::CallStrMethod(m, recv, args) => {
            let (st, this) = strung(expr(env, st, &**recv));
            let (name, ka, kb, ret) = str_sig(*m);
            match *m {
                // The receiver of these two is evaluated once more.
                StrMethod::Replace => {
                    let (st, this) = strung(expr(env, st, &**recv));
                    let (st, a) = strung(nth(env, st, args@, 0));
                    let (st, b) = strung(nth(env, st, args@, 1));
                    str_val(st.rt3(name, Some(ret), ptr(this), ptr(a), ptr(b)))
                },
                StrMethod::Split => {
                    let (st, this) = strung(expr(env, st, &**recv));
                    let (st, a) = strung(nth(env, st, args@, 0));
                    let (st, b) = numbered(nth(env, st, args@, 1));
                    arr_val(st.rt3(name, Some(ret), ptr(this), ptr(a), (LTy::F64, b)))
                },
                _ => {
                    let (st, a) = opt_arg(env, st, ka, args@, 0);
                    let (st, b) = opt_arg(env, st, kb, args@, 1);
                    let st = pass_opt(pass_opt(st.arg(ptr(this)), a), b);
                    let p = st.rt0(name, Some(ret));
                    match ret {
                        LTy::Ptr => str_val(p),
                        LTy::F64 => num_val(p),
                        _ => int_val(p),
                    }
                },
            }
        },
        ExprKind::CallNumMethod(m, recv, args) => {
            let (st, this) = numbered(expr(env, st, &**recv));
            let (st, a) = numbered(nth(env, st, args@, 0));
            let name = match *m {
                NumMethod::ToString => "vs_num_to_string_radix",
                NumMethod::ToFixed => "vs_num_to_fixed",
            };
            str_val(st.rt2(name, Some(LTy::Ptr), (LTy::F64, this), (LTy::F64, a)))
        },
        _ => bad(st),
    }
}

/// Native static functions.
pub open spec fn native<'a>(env: Env<'a>, st: St<'a>, e: &'a Expr) -> (St<'a>, Val)
    decreases e, 0nat,
{
    match &e.kind {
        ExprKind::CallNative(nf, args) => match *nf {
            // Rounding is the floor of `x + 0.5`.
            NativeFn::MathRound => {
                let (st, x) = numbered(nth(env, st, args@, 0));
                let (st, sum) = st.val(Cmd::Float(FloatOp::Add_, x, Op::F64(F64_HALF)));
                num_val(st.rt1("floor", Some(LTy::F64), (LTy::F64, sum)))
            },
            NativeFn::MathMin => num_val(
                fold_pairs(env, st, "vs_math_min2", args@, args@.len()),
            ),
            NativeFn::MathMax => num_val(
                fold_pairs(env, st, "vs_math_max2", args@, args@.len()),
            ),
            NativeFn::SystemExit => {
                let (st, code) = inted(nth(env, st, args@, 0));
                let (st, _) = st.rt1("vs_system_exit", None, (LTy::I32, code));
                let st = st.term(Cmd::Unreachable);
                let (st, dead) = st.new_block();
                (st.at(dead), Val::Void)
            },
            NativeFn::DateUTC => {
                let (st, arr) = staged_f64(env, st, args@);
                num_val(st.rt2("vs_date_utc", Some(LTy::F64), i32v(args@.len() as u32), ptr(arr)))
            },
            NativeFn::JsonParse => {
                let (st, text) = strung(nth(env, st, args@, 0));
                let (st, out) = st.val(Cmd::Alloca(LTy::Any, 1));
                let (st, _) = st.rt4(
                    "vs_json_parse",
                    None,
                    ptr(text),
                    ptr(Op::Rtti(0)),
                    (LTy::I64, Op::SizeOf(0)),
                    ptr(out),
                );
                (st, Val::Any(out))
            },
            _ => match native_plan_of(*nf) {
                Some(p) => planned(env, st, p, args@),
                None => bad(st),
            },
        },
        _ => bad(st),
    }
}

/// A regular expression or string operand as it is.
pub open spec fn regexed<'a>(p: (St<'a>, Val)) -> (St<'a>, Op) {
    match p.1 {
        Val::Reg(x) | Val::Str(x) => (p.0, x),
        _ => (p.0.fail(), Op::Null),
    }
}

pub open spec fn regex_flag(op: RegexOp) -> u32 {
    match op {
        RegexOp::Global => 1,
        RegexOp::IgnoreCase => 2,
        _ => 4,
    }
}

pub open spec fn regex<'a>(env: Env<'a>, st: St<'a>, e: &'a Expr) -> (St<'a>, Val)
    decreases e, 0nat,
{
    match &e.kind {
        ExprKind::NewRegExp(args) => {
            let (st, pat) = strung(nth(env, st, args@, 0));
            let (st, flags) = if args@.len() > 1 {
                strung(nth(env, st, args@, 1))
            } else {
                (st, Op::Null)
            };
            reg_val(st.rt2("vs_regexp_new", Some(LTy::Ptr), ptr(pat), ptr(flags)))
        },
        ExprKind::CallRegex(op, args) => match *op {
            RegexOp::Test => {
                let (st, re) = regexed(nth(env, st, args@, 0));
                let (st, s) = strung(nth(env, st, args@, 1));
                low_bit_val(st.rt2("vs_regexp_test", Some(LTy::I32), ptr(re), ptr(s)))
            },
            RegexOp::Exec => {
                let (st, re) = regexed(nth(env, st, args@, 0));
                let (st, s) = strung(nth(env, st, args@, 1));
                arr_val(st.rt2("vs_regexp_exec", Some(LTy::Ptr), ptr(re), ptr(s)))
            },
            RegexOp::Match => {
                let (st, re) = regexed(nth(env, st, args@, 1));
                let (st, s) = strung(nth(env, st, args@, 0));
                arr_val(st.rt2("vs_str_match_re", Some(LTy::Ptr), ptr(s), ptr(re)))
            },
            RegexOp::Search => {
                let (st, s) = strung(nth(env, st, args@, 0));
                let (st, re) = regexed(nth(env, st, args@, 1));
                int_val(st.rt2("vs_str_search_re", Some(LTy::I32), ptr(s), ptr(re)))
            },
            RegexOp::Replace => {
                let (st, s) = strung(nth(env, st, args@, 0));
                let (st, re) = regexed(nth(env, st, args@, 1));
                let (st, with) = strung(nth(env, st, args@, 2));
                str_val(st.rt3("vs_str_replace_re", Some(LTy::Ptr), ptr(s), ptr(re), ptr(with)))
            },
            RegexOp::ToString => {
                let (st, re) = regexed(nth(env, st, args@, 0));
                str_val(st.rt1("vs_regexp_display", Some(LTy::Ptr), ptr(re)))
            },
            RegexOp::Source => {
                let (st, re) = regexed(nth(env, st, args@, 0));
                str_val(st.rt1("vs_regexp_source", Some(LTy::Ptr), ptr(re)))
            },
            RegexOp::Global | RegexOp::IgnoreCase | RegexOp::Multiline => {
                let (st, re) = regexed(nth(env, st, args@, 0));
                low_bit_val(
                    st.rt2("vs_regexp_flag", Some(LTy::I32), ptr(re), i32v(regex_flag(*op))),
                )
            },
            RegexOp::LastIndex => {
                let (st, re) = regexed(nth(env, st, args@, 0));
                int_val(st.rt1("vs_regexp_last_index", Some(LTy::I32), ptr(re)))
            },
        },
        _ => bad(st),
    }
}

pub open spec fn date_of<'a>(p: (St<'a>, Val)) -> (St<'a>, Op) {
    match p.1 {
        Val::Dat(x) => (p.0, x),
        _ => (p.0.fail(), Op::Null),
    }
}

pub open spec fn sock_of<'a>(p: (St<'a>, Val)) -> (St<'a>, Op) {
    match p.1 {
        Val::Sock(x) => (p.0, x),
        _ => (p.0.fail(), Op::Null),
    }
}

pub open spec fn num_only<'a>(p: (St<'a>, Val)) -> (St<'a>, Op) {
    num_of(p.0, p.1)
}

/// Dates and sockets.
pub open spec fn date_socket<'a>(env: Env<'a>, st: St<'a>, e: &'a Expr) -> (St<'a>, Val)
    decreases e, 0nat,
{
    match &e.kind {
        ExprKind::NewDate(args) => {
            let (st, arr) = staged_f64(env, st, args@);
            dat_val(st.rt2("vs_date_new", Some(LTy::Ptr), i32v(args@.len() as u32), ptr(arr)))
        },
        ExprKind::CallDate(f, args) => {
            let (st, d) = date_of(nth(env, st, args@, 0));
            match *f {
                DateFn::Get(i) => num_val(
                    st.rt2("vs_date_get", Some(LTy::F64), ptr(d), i32v(i)),
                ),
                DateFn::SetTime => {
                    let (st, t) = num_only(nth(env, st, args@, 1));
                    num_val(st.rt2("vs_date_set_time", Some(LTy::F64), ptr(d), (LTy::F64, t)))
                },
                DateFn::Format(i) => str_val(
                    st.rt2("vs_date_to_string", Some(LTy::Ptr), ptr(d), i32v(i)),
                ),
            }
        },
        ExprKind::CallSocket(op, args) => {
            let (st, s) = sock_of(nth(env, st, args@, 0));
            match *op {
                SocketOp::Write => {
                    let (st, data) = strung(nth(env, st, args@, 1));
                    let (st, _) = st.rt2("vs_socket_write", None, ptr(s), ptr(data));
                    (st, Val::Void)
                },
                SocketOp::ReadLine => str_val(
                    st.rt1("vs_socket_read_line", Some(LTy::Ptr), ptr(s)),
                ),
                SocketOp::Read => {
                    let (st, max) = inted(nth(env, st, args@, 1));
                    str_val(st.rt2("vs_socket_read", Some(LTy::Ptr), ptr(s), (LTy::I32, max)))
                },
                SocketOp::Close => {
                    let (st, _) = st.rt1("vs_socket_close", None, ptr(s));
                    (st, Val::Void)
                },
                SocketOp::Accept => {
                    let (st, c) = st.rt1("vs_socket_accept", Some(LTy::Ptr), ptr(s));
                    (st, Val::Sock(c))
                },
                SocketOp::LocalPort => int_val(
                    st.rt1("vs_socket_local_port", Some(LTy::I32), ptr(s)),
                ),
            }
        },
        _ => bad(st),
    }
}

/// Namespace values and qualified access.
pub open spec fn namespace<'a>(env: Env<'a>, st: St<'a>, e: &'a Expr) -> (St<'a>, Val)
    decreases e, 0nat,
{
    match &e.kind {
        ExprKind::NewNamespace(uri) => {
            let (st, u) = strung(expr(env, st, &**uri));
            ns_val(st.rt1("vs_namespace_new", Some(LTy::Ptr), ptr(u)))
        },
        ExprKind::NsUri(q) => {
            let (st, p) = named(expr(env, st, &**q));
            str_val(st.rt1("vs_namespace_uri", Some(LTy::Ptr), ptr(p)))
        },
        ExprKind::NsGet(recv, q, name) => {
            let (st, r) = boxed(expr(env, st, &**recv));
            let (st, n) = named(expr(env, st, &**q));
            let (st, g, len) = utf8_lit(st, name);
            let (st, out) = st.val(Cmd::Alloca(LTy::Any, 1));
            let (st, _) = st.rt5("vs_ns_get", None, ptr(r), ptr(n), ptr(g), i32v(len), ptr(out));
            (st, Val::Any(out))
        },
        ExprKind::NsCall(recv, q, name, args) => {
            let (st, r) = boxed(expr(env, st, &**recv));
            let (st, n) = named(expr(env, st, &**q));
            let (st, g, len) = utf8_lit(st, name);
            let (st, arr) = staged(env, st, args@);
            let (st, out) = st.val(Cmd::Alloca(LTy::Any, 1));
            let (st, _) = st.arg(ptr(r)).arg(ptr(n)).rt5(
                "vs_ns_call",
                None,
                ptr(g),
                i32v(len),
                i32v(args@.len() as u32),
                ptr(arr),
                ptr(out),
            );
            (st, Val::Any(out))
        },
        _ => bad(st),
    }
}

pub open spec fn arr_method<'a>(env: Env<'a>, st: St<'a>, e: &'a Expr) -> (St<'a>, Val)
    decreases e, 0nat,
{
    match &e.kind {
        ExprKind::CallArr(m, recv, args) => {
            let (st, p) = sequenced(expr(env, st, &**recv));
            let n = i32v(args@.len() as u32);
            match *m {
                ArrMethod::Push => {
                    let (st, buf) = staged(env, st, args@);
                    uint_val(st.rt3("vs_arr_push", Some(LTy::I32), ptr(p), n, ptr(buf)))
                },
                ArrMethod::Unshift => {
                    let (st, buf) = staged(env, st, args@);
                    uint_val(st.rt3("vs_arr_unshift", Some(LTy::I32), ptr(p), n, ptr(buf)))
                },
                ArrMethod::Pop => {
                    let (st, out) = st.val(Cmd::Alloca(LTy::Any, 1));
                    let (st, _) = st.rt2("vs_arr_pop", None, ptr(p), ptr(out));
                    (st, Val::Any(out))
                },
                ArrMethod::Shift => {
                    let (st, out) = st.val(Cmd::Alloca(LTy::Any, 1));
                    let (st, _) = st.rt2("vs_arr_shift", None, ptr(p), ptr(out));
                    (st, Val::Any(out))
                },
                ArrMethod::Slice => {
                    let (st, a) = num_or(env, st, args@, 0, F64_ZERO);
                    let (st, b) = num_or(env, st, args@, 1, F64_MAX);
                    arr_val(
                        st.rt3("vs_arr_slice", Some(LTy::Ptr), ptr(p), (LTy::F64, a), (LTy::F64, b)),
                    )
                },
                ArrMethod::Splice => {
                    let (st, a) = num_or(env, st, args@, 0, F64_ZERO);
                    let (st, b) = num_or(env, st, args@, 1, F64_MAX);
                    let (st, buf) = staged_tail(env, st, args@);
                    arr_val(
                        st.rt5(
                            "vs_arr_splice",
                            Some(LTy::Ptr),
                            ptr(p),
                            (LTy::F64, a),
                            (LTy::F64, b),
                            i32v(tail_len(args@) as u32),
                            ptr(buf),
                        ),
                    )
                },
                ArrMethod::IndexOf => {
                    let (st, x) = boxed(nth(env, st, args@, 0));
                    let (st, from) = num_or(env, st, args@, 1, F64_ZERO);
                    int_val(
                        st.rt3("vs_arr_index_of", Some(LTy::I32), ptr(p), ptr(x), (LTy::F64, from)),
                    )
                },
                ArrMethod::Concat => {
                    let (st, buf) = staged(env, st, args@);
                    arr_val(st.rt3("vs_arr_concat", Some(LTy::Ptr), ptr(p), n, ptr(buf)))
                },
                ArrMethod::Join => {
                    let (st, sep) = if args@.len() == 0 {
                        (st, Op::Null)
                    } else {
                        strung(nth(env, st, args@, 0))
                    };
                    str_val(st.rt2("vs_arr_join", Some(LTy::Ptr), ptr(p), ptr(sep)))
                },
                ArrMethod::ForEach | ArrMethod::MapM | ArrMethod::Filter | ArrMethod::SomeM
                | ArrMethod::Every => {
                    let (st, cb) = functioned(nth(env, st, args@, 0));
                    let (st, out) = st.val(Cmd::Alloca(LTy::Any, 1));
                    let (st, _) = st.rt4(
                        "vs_arr_iterate",
                        None,
                        ptr(p),
                        ptr(cb),
                        i32v(iterate_mode(*m)),
                        ptr(out),
                    );
                    match *m {
                        ArrMethod::ForEach => (st, Val::Void),
                        ArrMethod::MapM | ArrMethod::Filter => unbox(st, out, Ty::Array),
                        _ => unbox(st, out, Ty::Boolean),
                    }
                },
                ArrMethod::Sort => if args@.len() > 0 {
                    let (st, by) = functioned(nth(env, st, args@, 0));
                    arr_val(st.rt2("vs_arr_sort_with", Some(LTy::Ptr), ptr(p), ptr(by)))
                } else {
                    arr_val(st.rt1("vs_arr_sort", Some(LTy::Ptr), ptr(p)))
                },
                ArrMethod::Reverse => arr_val(st.rt1("vs_arr_reverse", Some(LTy::Ptr), ptr(p))),
            }
        },
        _ => bad(st),
    }
}

/// The code by which the runtime knows an iteration method.
pub open spec fn iterate_mode(m: ArrMethod) -> u32 {
    match m {
        ArrMethod::ForEach => 0,
        ArrMethod::MapM => 1,
        ArrMethod::Filter => 2,
        ArrMethod::SomeM => 3,
        _ => 4,
    }
}

/// How many arguments follow the first two.
pub open spec fn tail_len(args: Seq<Expr>) -> nat {
    if args.len() > 2 {
        (args.len() - 2) as nat
    } else {
        0
    }
}

/// Stores the boxes of the first `n` arguments after the first two.
pub open spec fn stage_tail<'a>(env: Env<'a>, st: St<'a>, arr: Op, args: Seq<Expr>, n: nat) -> St<'a>
    decreases args, n,
{
    if n == 0 || n + 2 > args.len() {
        st
    } else {
        let st = stage_tail(env, st, arr, args, (n - 1) as nat);
        let (st, p) = boxed(expr(env, st, &args[n as int + 1]));
        let (st, x) = st.val(Cmd::Load(LTy::Any, p));
        let (st, slot) = st.val(Cmd::Elem(LTy::Any, arr, Op::I32((n - 1) as u32)));
        st.push(Cmd::Store(slot, x))
    }
}

/// A stack array of the boxed arguments after the first two.
pub open spec fn staged_tail<'a>(env: Env<'a>, st: St<'a>, args: Seq<Expr>) -> (St<'a>, Op)
    decreases args, args.len() + 1,
{
    let (st, arr) = st.val(Cmd::Alloca(LTy::Any, at_least_one(tail_len(args) as u32)));
    (stage_tail(env, st, arr, args, tail_len(args)), arr)
}

pub open spec fn vec_method<'a>(env: Env<'a>, st: St<'a>, e: &'a Expr) -> (St<'a>, Val)
    decreases e, 0nat,
{
    match &e.kind {
        ExprKind::CallVec(m, recv, args) => {
            let (st, p) = sequenced(expr(env, st, &**recv));
            let n = i32v(args@.len() as u32);
            match *m {
                VecMethod::Push => {
                    let (st, buf) = staged(env, st, args@);
                    uint_val(st.rt3("vs_vec_push", Some(LTy::I32), ptr(p), n, ptr(buf)))
                },
                VecMethod::Unshift => {
                    let (st, buf) = staged(env, st, args@);
                    uint_val(st.rt3("vs_vec_unshift", Some(LTy::I32), ptr(p), n, ptr(buf)))
                },
                VecMethod::Pop => {
                    let (st, out) = st.val(Cmd::Alloca(LTy::Any, 1));
                    let (st, _) = st.rt2("vs_vec_pop", None, ptr(p), ptr(out));
                    unbox(st, out, e.ty)
                },
                VecMethod::Shift => {
                    let (st, out) = st.val(Cmd::Alloca(LTy::Any, 1));
                    let (st, _) = st.rt2("vs_vec_shift", None, ptr(p), ptr(out));
                    unbox(st, out, e.ty)
                },
                VecMethod::Slice => {
                    let (st, a) = num_or(env, st, args@, 0, F64_ZERO);
                    let (st, b) = num_or(env, st, args@, 1, F64_MAX);
                    vec_val(
                        st.rt3("vs_vec_slice", Some(LTy::Ptr), ptr(p), (LTy::F64, a), (LTy::F64, b)),
                    )
                },
                VecMethod::IndexOf => {
                    let (st, x) = boxed(nth(env, st, args@, 0));
                    let (st, from) = num_or(env, st, args@, 1, F64_ZERO);
                    int_val(
                        st.rt3("vs_vec_index_of", Some(LTy::I32), ptr(p), ptr(x), (LTy::F64, from)),
                    )
                },
                VecMethod::Join => {
                    let (st, sep) = if args@.len() == 0 {
                        (st, Op::Null)
                    } else {
                        strung(nth(env, st, args@, 0))
                    };
                    str_val(st.rt2("vs_vec_join", Some(LTy::Ptr), ptr(p), ptr(sep)))
                },
                VecMethod::Reverse => vec_val(st.rt1("vs_vec_reverse", Some(LTy::Ptr), ptr(p))),
            }
        },
        _ => bad(st),
    }
}

pub open spec fn is_vec(ty: Ty) -> bool {
    ty is Vector
}

/// An element read.
pub open spec fn seq_get<'a>(env: Env<'a>, st: St<'a>, e: &'a Expr) -> (St<'a>, Val)
    decreases e, 0nat,
{
    match &e.kind {
        ExprKind::SeqGet(recv, idx, unchecked) => {
            let (st, p) = sequenced(expr(env, st, &**recv));
            let (st, i) = numbered(expr(env, st, &**idx));
            match unboxed_of(env, recv.ty) {
                Some((_, ety)) => if *unchecked {
                    let (st, _, data) = vec_header(st, p);
                    let (st, ep) = vec_elem(st, ety, data, i);
                    let (st, x) = st.val(Cmd::Load(ety, ep));
                    elem_val(st, x, e.ty)
                } else {
                    let (st, len, data) = vec_header(st, p);
                    let (st, len_f) = st.val(Cmd::Cast(Cast::UiToFp, len));
                    let (st, inb) = idx_in_bounds(st, i, len_f);
                    let (st, fast) = st.new_block();
                    let (st, slow) = st.new_block();
                    let st = st.term(Cmd::CondBr(inb, fast, slow)).at(slow);
                    // Out of range: the runtime raises an error.
                    let (st, out) = st.val(Cmd::Alloca(LTy::Any, 1));
                    let (st, _) = st.rt3("vs_vec_get", None, ptr(p), (LTy::F64, i), ptr(out));
                    let st = st.term(Cmd::Unreachable).at(fast);
                    let (st, ep) = vec_elem(st, ety, data, i);
                    let (st, x) = st.val(Cmd::Load(ety, ep));
                    elem_val(st, x, e.ty)
                },
                None => {
                    let (st, out) = st.val(Cmd::Alloca(LTy::Any, 1));
                    let name = if is_vec(recv.ty) {
                        "vs_vec_get"
                    } else {
                        "vs_arr_get"
                    };
                    let (st, _) = st.rt3(name, None, ptr(p), (LTy::F64, i), ptr(out));
                    unbox(st, out, e.ty)
                },
            }
        },
        _ => bad(st),
    }
}

/// An element write; the value of the expression is the assigned one.
pub open spec fn seq_set<'a>(env: Env<'a>, st: St<'a>, e: &'a Expr) -> (St<'a>, Val)
    decreases e, 0nat,
{
    match &e.kind {
        ExprKind::SeqSet(recv, idx, v, unchecked) => match unboxed_of(env, recv.ty) {
            Some((kind, ety)) => {
                let (st, value) = expr(env, st, &**v);
                let (st, scalar) = vec_scalar(st, value, kind);
                let (st, p) = sequenced(expr(env, st, &**recv));
                let (st, i) = numbered(expr(env, st, &**idx));
                let (st, len, data) = vec_header(st, p);
                if *unchecked {
                    let (st, ep) = vec_elem(st, ety, data, i);
                    (st.push(Cmd::Store(ep, scalar)), value)
                } else {
                    let (st, len_f) = st.val(Cmd::Cast(Cast::UiToFp, len));
                    let (st, inb) = idx_in_bounds(st, i, len_f);
                    let (st, fast) = st.new_block();
                    let (st, slow) = st.new_block();
                    let (st, cont) = st.new_block();
                    let st = st.term(Cmd::CondBr(inb, fast, slow)).at(fast);
                    let (st, ep) = vec_elem(st, ety, data, i);
                    let st = st.push(Cmd::Store(ep, scalar)).term(Cmd::Br(cont)).at(slow);
                    // Append or out of range: the runtime grows or raises.
                    let (st, b) = box_value(st, value);
                    let (st, _) = st.rt3("vs_vec_set", None, ptr(p), (LTy::F64, i), ptr(b));
                    (st.term(Cmd::Br(cont)).at(cont), value)
                }
            },
            None => {
                let (st, p) = sequenced(expr(env, st, &**recv));
                let (st, i) = numbered(expr(env, st, &**idx));
                let (st, value) = expr(env, st, &**v);
                let (st, b) = box_value(st, value);
                let name = if is_vec(recv.ty) {
                    "vs_vec_set"
                } else {
                    "vs_arr_set"
                };
                let (st, _) = st.rt3(name, None, ptr(p), (LTy::F64, i), ptr(b));
                (st, value)
            },
        },
        _ => bad(st),
    }
}

/// Lengths, literals and enumeration of sequences.
pub open spec fn sequence<'a>(env: Env<'a>, st: St<'a>, e: &'a Expr) -> (St<'a>, Val)
    decreases e, 0nat,
{
    match &e.kind {
        ExprKind::StrLen(recv) => {
            let (st, v) = expr(env, st, &**recv);
            match v {
                Val::Str(p) => int_val(st.rt1("vs_string_length", Some(LTy::I32), ptr(p))),
                _ => bad(st),
            }
        },
        ExprKind::SeqLen(recv) => {
            let (st, p) = sequenced(expr(env, st, &**recv));
            let name = if is_vec(recv.ty) {
                "vs_vec_len"
            } else {
                "vs_arr_len"
            };
            uint_val(st.rt1(name, Some(LTy::I32), ptr(p)))
        },
        ExprKind::SeqSetLen(recv, v) => {
            let (st, p) = sequenced(expr(env, st, &**recv));
            let (st, n) = inted(expr(env, st, &**v));
            let name = if is_vec(recv.ty) {
                "vs_vec_set_len"
            } else {
                "vs_arr_set_len"
            };
            let (st, _) = st.rt2(name, None, ptr(p), (LTy::I32, n));
            (st, Val::UInt(n))
        },
        ExprKind::EnumLen(v) => {
            let (st, p) = boxed(expr(env, st, &**v));
            int_val(st.rt1("vs_enum_len2", Some(LTy::I32), ptr(p)))
        },
        ExprKind::EnumKey(v, i) => {
            let (st, p) = boxed(expr(env, st, &**v));
            let (st, x) = inted(expr(env, st, &**i));
            let (st, out) = st.val(Cmd::Alloca(LTy::Any, 1));
            let (st, _) = st.rt3("vs_enum_key2", None, ptr(p), (LTy::I32, x), ptr(out));
            (st, Val::Any(out))
        },
        ExprKind::EnumValue(v, i) => {
            let (st, p) = boxed(expr(env, st, &**v));
            let (st, x) = inted(expr(env, st, &**i));
            let (st, out) = st.val(Cmd::Alloca(LTy::Any, 1));
            let (st, _) = st.rt3("vs_enum_value2", None, ptr(p), (LTy::I32, x), ptr(out));
            (st, Val::Any(out))
        },
        ExprKind::ArrayLit(els) => {
            let (st, arr) = st.val(Cmd::Alloca(LTy::Any, at_least_one(els@.len() as u32)));
            let st = stage_opt(env, st, arr, els@, els@.len());
            arr_val(st.rt2("vs_array_new", Some(LTy::Ptr), i32v(els@.len() as u32), ptr(arr)))
        },
        ExprKind::VectorLit(inst, els) => {
            let (st, buf) = staged(env, st, els@);
            match vec_kind_of(env, *inst) {
                Some(kind) => vec_val(
                    st.rt4(
                        "vs_vector_new",
                        Some(LTy::Ptr),
                        i32v(*inst),
                        i32v(kind),
                        i32v(els@.len() as u32),
                        ptr(buf),
                    ),
                ),
                None => bad(st),
            }
        },
        _ => bad(st),
    }
}

/// Untyped property access.
pub open spec fn dynamic<'a>(env: Env<'a>, st: St<'a>, e: &'a Expr) -> (St<'a>, Val)
    decreases e, 0nat,
{
    match &e.kind {
        ExprKind::ObjectLit(props) => {
            let (st, obj) = alloc_object(st, 0);
            let (st, b) = box_value(st, Val::Obj(obj));
            (set_props(env, st, b, props@, props@.len()), Val::Any(b))
        },
        ExprKind::PropGet(recv, name) => {
            let (st, p) = boxed(expr(env, st, &**recv));
            let (st, key) = const_string(st, name);
            let (st, out) = st.val(Cmd::Alloca(LTy::Any, 1));
            let (st, _) = st.rt3("vs_any_get_prop", None, ptr(p), ptr(key), ptr(out));
            unbox(st, out, e.ty)
        },
        ExprKind::PropSet(recv, name, v) => {
            let (st, p) = boxed(expr(env, st, &**recv));
            let (st, key) = const_string(st, name);
            let (st, x) = expr(env, st, &**v);
            let (st, b) = box_value(st, x);
            let (st, _) = st.rt3("vs_any_set_prop", None, ptr(p), ptr(key), ptr(b));
            (st, x)
        },
        ExprKind::PropCall(recv, name, args) => {
            let (st, p) = boxed(expr(env, st, &**recv));
            let (st, key) = const_string(st, name);
            let (st, buf) = staged(env, st, args@);
            let (st, out) = st.val(Cmd::Alloca(LTy::Any, 1));
            let (st, _) = st.rt5(
                "vs_any_call_prop",
                None,
                ptr(p),
                ptr(key),
                i32v(args@.len() as u32),
                ptr(buf),
                ptr(out),
            );
            unbox(st, out, e.ty)
        },
        ExprKind::AnyIndexGet(recv, key) => {
            let (st, p) = boxed(expr(env, st, &**recv));
            let (st, k) = boxed(expr(env, st, &**key));
            let (st, out) = st.val(Cmd::Alloca(LTy::Any, 1));
            let (st, _) = st.rt3("vs_any_index_get", None, ptr(p), ptr(k), ptr(out));
            unbox(st, out, e.ty)
        },
        ExprKind::AnyIndexSet(recv, key, v) => {
            let (st, p) = boxed(expr(env, st, &**recv));
            let (st, k) = boxed(expr(env, st, &**key));
            let (st, x) = expr(env, st, &**v);
            let (st, b) = box_value(st, x);
            let (st, _) = st.rt3("vs_any_index_set", None, ptr(p), ptr(k), ptr(b));
            (st, x)
        },
        ExprKind::HasProp(key, obj) => {
            let (st, k) = boxed(expr(env, st, &**key));
            let (st, o) = boxed(expr(env, st, &**obj));
            flag_val(st.rt2("vs_any_has_prop", Some(LTy::I32), ptr(k), ptr(o)))
        },
        ExprKind::DeleteProp(obj, name) => {
            let (st, o) = boxed(expr(env, st, &**obj));
            let (st, key) = const_string(st, name);
            flag_val(st.rt2("vs_any_delete_prop", Some(LTy::I32), ptr(o), ptr(key)))
        },
        _ => bad(st),
    }
}

/// The code and the value of an expression.
pub open spec fn expr<'a>(env: Env<'a>, st: St<'a>, e: &'a Expr) -> (St<'a>, Val)
    decreases e, 2nat,
{
    match &e.kind {
        ExprKind::LocalSet(..) | ExprKind::CaptureSet(..) | ExprKind::StaticSet(..)
        | ExprKind::FieldGet(..) | ExprKind::FieldSet(..) | ExprKind::FieldIncDec { .. } =>
            storage_expr(env, st, e),
        ExprKind::Unary(..) | ExprKind::Binary(..) | ExprKind::Logical { .. }
        | ExprKind::Conditional(..) | ExprKind::Comma(..) | ExprKind::Is(..) | ExprKind::As(..)
        | ExprKind::Conv(..) => operator(env, st, e),
        ExprKind::CallFn(..) | ExprKind::CallDirect { .. } | ExprKind::New(..)
        | ExprKind::BoundMethod(..) => call(env, st, e),
        ExprKind::CallVirtual { .. } | ExprKind::CallIface { .. } => dispatch(env, st, e),
        ExprKind::CallFnValue { .. } => call_fn_value(env, st, e),
        ExprKind::CallBuiltin(..) => builtin(env, st, e),
        ExprKind::CallStrMethod(..) | ExprKind::CallNumMethod(..) => str_method(env, st, e),
        ExprKind::CallNative(..) => native(env, st, e),
        ExprKind::NewRegExp(..) | ExprKind::CallRegex(..) => regex(env, st, e),
        ExprKind::NewDate(..) | ExprKind::CallDate(..) | ExprKind::CallSocket(..) => date_socket(
            env,
            st,
            e,
        ),
        ExprKind::NewNamespace(..) | ExprKind::NsUri(..) | ExprKind::NsGet(..)
        | ExprKind::NsCall(..) => namespace(env, st, e),
        ExprKind::CallArr(..) => arr_method(env, st, e),
        ExprKind::CallVec(..) => vec_method(env, st, e),
        ExprKind::SeqGet(..) => seq_get(env, st, e),
        ExprKind::SeqSet(..) => seq_set(env, st, e),
        ExprKind::StrLen(..) | ExprKind::SeqLen(..) | ExprKind::SeqSetLen(..)
        | ExprKind::EnumLen(..) | ExprKind::EnumKey(..) | ExprKind::EnumValue(..)
        | ExprKind::ArrayLit(..) | ExprKind::VectorLit(..) => sequence(env, st, e),
        ExprKind::ObjectLit(..) | ExprKind::PropGet(..) | ExprKind::PropSet(..)
        | ExprKind::PropCall(..) | ExprKind::AnyIndexGet(..) | ExprKind::AnyIndexSet(..)
        | ExprKind::HasProp(..) | ExprKind::DeleteProp(..) => dynamic(env, st, e),
        _ => leaf(env, st, e),
    }
}

} // verus!
