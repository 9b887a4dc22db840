//! Operators, type tests, conversions and storage access on computed values.

use vstd::prelude::*;

use crate::codegen::code::{
    Cast, Cmd, Env, FloatOp, FloatPred, FnCx, IntOp, IntPred, LTy, Op, Slot, St, Val, WrapTarget,
};
use crate::codegen::value::{
    any_to_number, box_value, convert_num_to_int, i32v, materialize, nonzero, numeric_of, ptr,
    storage_of, stringify, truthy, ty_tag, ty_tag_of, unbox, wrap_basic, F64_ONE, F64_ZERO,
};
use crate::mir::{BinOp, Conv, LocalId, Ty, UnOp};
use crate::codegen::sound::{env_has, group_sound, has, has_val, step};

verus! {

broadcast use group_sound;

// --- strings -------------------------------------------------------------------

/// The length in bytes of the UTF-8 form.
pub open spec fn byte_len(s: Seq<char>) -> usize {
    vstd::utf8::encode_utf8(s).len() as usize
}

/// The length in bytes of the UTF-8 form.
pub fn text_len(s: &String) -> (r: usize)
    ensures
        r == byte_len(s@),
{
    s.as_str().len()
}

/// The address and the length of a literal.
pub open spec fn utf8_lit<'a>(st: St<'a>, text: &'a String) -> (St<'a>, Op, u32) {
    let (st, g) = st.val(Cmd::Text(text));
    (st, g, byte_len(text@) as u32)
}

/// A literal of the program as a runtime string.
pub open spec fn const_string<'a>(st: St<'a>, text: &'a String) -> (St<'a>, Op) {
    let (st, g, len) = utf8_lit(st, text);
    st.rt2("vs_string_from_utf8", Some(LTy::Ptr), ptr(g), i32v(len))
}

/// The namespace of a URI; the runtime keeps one value per URI.
pub open spec fn intern_namespace<'a>(st: St<'a>, uri: &'a String) -> (St<'a>, Val) {
    let (st, g, len) = utf8_lit(st, uri);
    let (st, n) = st.rt2("vs_namespace_intern", Some(LTy::Ptr), ptr(g), i32v(len));
    (st, Val::Ns(n))
}

// --- operands ------------------------------------------------------------------

pub open spec fn int_operand(st: St, v: Val) -> (St, Op) {
    match v {
        Val::Int(i) | Val::UInt(i) => (st, i),
        _ => (st.fail(), Op::Null),
    }
}

/// An object operand; the null literal arrives as a string.
pub open spec fn obj_of(st: St, v: Val) -> (St, Op) {
    match v {
        Val::Obj(p) | Val::Str(p) => (st, p),
        _ => (st.fail(), Op::Null),
    }
}

/// A sequence operand.
pub open spec fn seq_of(st: St, v: Val) -> (St, Op) {
    match v {
        Val::Arr(p) | Val::VecP(p) | Val::Str(p) | Val::Obj(p) => (st, p),
        _ => (st.fail(), Op::Null),
    }
}

pub open spec fn num_of(st: St, v: Val) -> (St, Op) {
    match v {
        Val::Num(x) => (st, x),
        _ => (st.fail(), Op::Null),
    }
}

pub open spec fn ns_of(st: St, v: Val) -> (St, Op) {
    match v {
        Val::Ns(p) => (st, p),
        _ => (st.fail(), Op::Null),
    }
}

/// A function operand; an untyped one is coerced.
pub open spec fn fun_of(st: St, v: Val) -> (St, Op) {
    match v {
        Val::Fun(p) => (st, p),
        Val::Any(p) => st.rt1("vs_any_coerce_function", Some(LTy::Ptr), ptr(p)),
        _ => (st.fail(), Op::Null),
    }
}

/// The double of a numeric or untyped operand.
pub open spec fn to_num(st: St, v: Val) -> (St, Op) {
    let (st, n) = numeric_of(st, v);
    match n {
        Some(x) => (st, x),
        None => match v {
            Val::Any(p) => any_to_number(st, p),
            _ => (st.fail(), Op::Null),
        },
    }
}

// --- operators -----------------------------------------------------------------

#[verifier::opaque]
pub open spec fn unary_val(st: St, op: UnOp, v: Val) -> (St, Val) {
    match op {
        UnOp::Not => {
            let (st, b) = truthy(st, v);
            let (st, r) = st.val(Cmd::Not(b));
            (st, Val::Bool(r))
        },
        UnOp::BitNot => match v {
            Val::Int(i) => {
                let (st, r) = st.val(Cmd::Not(i));
                (st, Val::Int(r))
            },
            _ => (st.fail(), Val::Void),
        },
        UnOp::Neg => match v {
            Val::Num(f) => {
                let (st, r) = st.val(Cmd::FNeg(f));
                (st, Val::Num(r))
            },
            Val::Int(i) => {
                let (st, r) = st.val(Cmd::INeg(i));
                (st, Val::Int(r))
            },
            _ => (st.fail(), Val::Void),
        },
        UnOp::TypeOf => {
            let (st, p) = box_value(st, v);
            let (st, r) = st.rt1("vs_any_typeof", Some(LTy::Ptr), ptr(p));
            (st, Val::Str(r))
        },
    }
}

/// The code by which the runtime knows an order comparison.
pub open spec fn order_code(op: BinOp) -> u32 {
    match op {
        BinOp::Lt => 0,
        BinOp::Gt => 1,
        BinOp::Le => 2,
        _ => 3,
    }
}

pub open spec fn order_pred(op: BinOp) -> FloatPred {
    match op {
        BinOp::Lt => FloatPred::OLT,
        BinOp::Gt => FloatPred::OGT,
        BinOp::Le => FloatPred::OLE,
        _ => FloatPred::OGE,
    }
}

#[verifier::opaque]
pub open spec fn relational(st: St, op: BinOp, l: Val, r: Val) -> (St, Val) {
    match (l, r) {
        (Val::Num(a), Val::Num(b)) => {
            let (st, c) = st.val(Cmd::FCmp(order_pred(op), a, b));
            (st, Val::Bool(c))
        },
        (Val::Str(a), Val::Str(b)) => {
            let (st, c) = st.rt3("vs_string_cmp", Some(LTy::I32), ptr(a), ptr(b), i32v(order_code(op)));
            let (st, c) = nonzero(st, c);
            (st, Val::Bool(c))
        },
        _ => {
            let (st, a) = box_value(st, l);
            let (st, b) = box_value(st, r);
            let (st, c) = st.rt3("vs_any_cmp", Some(LTy::I32), ptr(a), ptr(b), i32v(order_code(op)));
            let (st, c) = nonzero(st, c);
            (st, Val::Bool(c))
        },
    }
}

/// Object, array and vector values compare by reference.
pub open spec fn by_ref(v: Val) -> Option<Op> {
    match v {
        Val::Obj(p) | Val::Arr(p) | Val::VecP(p) => Some(p),
        _ => None,
    }
}

/// The two references to compare: of two by-reference values, or of one and a
/// string (which can only be the null literal).
pub open spec fn ref_pair(l: Val, r: Val) -> Option<(Op, Op)> {
    match (by_ref(l), by_ref(r)) {
        (Some(a), Some(b)) => Some((a, b)),
        (Some(a), None) => match r {
            Val::Str(b) => Some((a, b)),
            _ => None,
        },
        (None, Some(b)) => match l {
            Val::Str(a) => Some((a, b)),
            _ => None,
        },
        _ => None,
    }
}

/// Equality. All numeric kinds compare as doubles; values that no typed rule
/// covers are boxed and compared by `fallback`.
#[verifier::opaque]
pub open spec fn equality<'a>(st: St<'a>, l: Val, r: Val, fallback: &'static str) -> (St<'a>, Op) {
    let (st, ln) = numeric_of(st, l);
    let (st, rn) = numeric_of(st, r);
    if ln is Some && rn is Some {
        st.val(Cmd::FCmp(FloatPred::OEQ, ln->0, rn->0))
    } else if let (Val::Bool(a), Val::Bool(b)) = (l, r) {
        st.val(Cmd::ICmp(IntPred::EQ, a, b))
    } else if let Some((a, b)) = ref_pair(l, r) {
        let (st, x) = st.val(Cmd::Cast(Cast::PtrToI64, a));
        let (st, y) = st.val(Cmd::Cast(Cast::PtrToI64, b));
        st.val(Cmd::ICmp(IntPred::EQ, x, y))
    } else if let (Val::Str(a), Val::Str(b)) = (l, r) {
        let (st, c) = st.rt2("vs_string_equals", Some(LTy::I32), ptr(a), ptr(b));
        nonzero(st, c)
    } else {
        let (st, a) = box_value(st, l);
        let (st, b) = box_value(st, r);
        let (st, c) = st.rt2(fallback, Some(LTy::I32), ptr(a), ptr(b));
        nonzero(st, c)
    }
}

pub open spec fn strict_equals(st: St, l: Val, r: Val) -> (St, Op) {
    equality(st, l, r, "vs_any_strict_equals")
}

pub open spec fn loose_equals(st: St, l: Val, r: Val) -> (St, Op) {
    equality(st, l, r, "vs_any_equals")
}

#[verifier::opaque]
pub open spec fn add_vals(st: St, l: Val, r: Val) -> (St, Val) {
    match (l, r) {
        (Val::Num(a), Val::Num(b)) => {
            let (st, x) = st.val(Cmd::Float(FloatOp::Add_, a, b));
            (st, Val::Num(x))
        },
        _ => if l is Str || r is Str {
            let (st, a) = stringify(st, l);
            let (st, b) = stringify(st, r);
            let (st, x) = st.rt2("vs_string_concat", Some(LTy::Ptr), ptr(a), ptr(b));
            (st, Val::Str(x))
        } else {
            let (st, a) = box_value(st, l);
            let (st, b) = box_value(st, r);
            let (st, out) = st.val(Cmd::Alloca(LTy::Any, 1));
            let (st, _) = st.rt3("vs_any_add", None, ptr(a), ptr(b), ptr(out));
            (st, Val::Any(out))
        },
    }
}

pub open spec fn float_vals(st: St, op: FloatOp, l: Val, r: Val) -> (St, Val) {
    match (l, r) {
        (Val::Num(a), Val::Num(b)) => {
            let (st, x) = st.val(Cmd::Float(op, a, b));
            (st, Val::Num(x))
        },
        _ => (st.fail(), Val::Void),
    }
}

pub open spec fn int_vals(st: St, op: IntOp, l: Val, r: Val) -> (St, Op) {
    let (st, a) = int_operand(st, l);
    let (st, b) = int_operand(st, r);
    st.val(Cmd::Int(op, a, b))
}

/// Shift counts are taken modulo 32.
pub open spec fn shift_vals(st: St, op: IntOp, l: Val, r: Val) -> (St, Op) {
    let (st, a) = int_operand(st, l);
    let (st, b) = int_operand(st, r);
    let (st, m) = st.val(Cmd::Int(IntOp::And, b, Op::I32(31)));
    st.val(Cmd::Int(op, a, m))
}

pub open spec fn as_int(p: (St, Op)) -> (St, Val) {
    (p.0, Val::Int(p.1))
}

#[verifier::opaque]
pub open spec fn binary_vals(st: St, op: BinOp, l: Val, r: Val) -> (St, Val) {
    match op {
        BinOp::Add => add_vals(st, l, r),
        BinOp::Sub => float_vals(st, FloatOp::Sub_, l, r),
        BinOp::Mul => float_vals(st, FloatOp::Mul_, l, r),
        BinOp::Div => float_vals(st, FloatOp::Div, l, r),
        BinOp::Rem => float_vals(st, FloatOp::Rem, l, r),
        BinOp::Shl => as_int(shift_vals(st, IntOp::Shl, l, r)),
        BinOp::Shr => as_int(shift_vals(st, IntOp::AShr, l, r)),
        BinOp::Ushr => {
            let (st, x) = shift_vals(st, IntOp::LShr, l, r);
            (st, Val::UInt(x))
        },
        BinOp::BitAnd => as_int(int_vals(st, IntOp::And, l, r)),
        BinOp::BitOr => as_int(int_vals(st, IntOp::Or, l, r)),
        BinOp::BitXor => as_int(int_vals(st, IntOp::Xor, l, r)),
        BinOp::Lt | BinOp::Gt | BinOp::Le | BinOp::Ge => relational(st, op, l, r),
        BinOp::Eq => {
            let (st, x) = loose_equals(st, l, r);
            (st, Val::Bool(x))
        },
        BinOp::Ne => {
            let (st, x) = loose_equals(st, l, r);
            let (st, x) = st.val(Cmd::Not(x));
            (st, Val::Bool(x))
        },
        BinOp::StrictEq => {
            let (st, x) = strict_equals(st, l, r);
            (st, Val::Bool(x))
        },
        BinOp::StrictNe => {
            let (st, x) = strict_equals(st, l, r);
            let (st, x) = st.val(Cmd::Not(x));
            (st, Val::Bool(x))
        },
    }
}

/// The value one above or below.
pub open spec fn step_val(st: St, old: Val, is_inc: bool) -> (St, Val) {
    let iop = if is_inc {
        IntOp::Add_
    } else {
        IntOp::Sub_
    };
    let fop = if is_inc {
        FloatOp::Add_
    } else {
        FloatOp::Sub_
    };
    match old {
        Val::Int(i) => {
            let (st, n) = st.val(Cmd::Int(iop, i, Op::I32(1)));
            (st, Val::Int(n))
        },
        Val::UInt(i) => {
            let (st, n) = st.val(Cmd::Int(iop, i, Op::I32(1)));
            (st, Val::UInt(n))
        },
        Val::Num(f) => {
            let (st, n) = st.val(Cmd::Float(fop, f, Op::F64(F64_ONE)));
            (st, Val::Num(n))
        },
        _ => (st.fail(), Val::Void),
    }
}

// --- conversions ---------------------------------------------------------------

pub open spec fn any_conv(st: St, v: Val, ty: Ty) -> (St, Val) {
    match v {
        Val::Any(p) => unbox(st, p, ty),
        _ => (st.fail(), Val::Void),
    }
}

pub open spec fn to_int_val(st: St, v: Val, signed: bool) -> (St, Val) {
    match v {
        // int and uint share their 32 bits.
        Val::Int(i) | Val::UInt(i) => (
            st,
            if signed {
                Val::Int(i)
            } else {
                Val::UInt(i)
            },
        ),
        Val::Num(f) => convert_num_to_int(st, f, signed),
        Val::Any(p) => {
            let (st, n) = any_to_number(st, p);
            convert_num_to_int(st, n, signed)
        },
        _ => (st.fail(), Val::Void),
    }
}

pub open spec fn to_number_val(st: St, v: Val) -> (St, Val) {
    match v {
        Val::Str(p) => {
            let (st, f) = st.rt1("vs_string_to_number", Some(LTy::F64), ptr(p));
            (st, Val::Num(f))
        },
        _ => {
            let (st, f) = to_num(st, v);
            (st, Val::Num(f))
        },
    }
}

#[verifier::opaque]
pub open spec fn convert_val(st: St, conv: Conv, v: Val) -> (St, Val) {
    match conv {
        Conv::ToInt => to_int_val(st, v, true),
        Conv::ToUInt => to_int_val(st, v, false),
        Conv::ToNumber => to_number_val(st, v),
        Conv::ToBoolean => {
            let (st, b) = truthy(st, v);
            (st, Val::Bool(b))
        },
        Conv::ToString => {
            let (st, s) = stringify(st, v);
            (st, Val::Str(s))
        },
        Conv::ToAny => {
            let (st, p) = box_value(st, v);
            (st, Val::Any(p))
        },
        Conv::AnyToString => any_conv(st, v, Ty::String),
        Conv::AnyToObject(class) => any_conv(st, v, Ty::Object(class)),
        Conv::AnyToArray => any_conv(st, v, Ty::Array),
        Conv::AnyToVector(inst) => any_conv(st, v, Ty::Vector(inst)),
        Conv::AnyToRegExp => any_conv(st, v, Ty::RegExp),
        Conv::AnyToSocket => any_conv(st, v, Ty::Socket),
        Conv::AnyToDate => any_conv(st, v, Ty::Date),
        Conv::AnyToIface(iface) => any_conv(st, v, Ty::Iface(iface)),
    }
}

// --- type tests ----------------------------------------------------------------

/// Whether the box at `p` holds a value of `ty`.
#[verifier::opaque]
pub open spec fn is_test(st: St, p: Op, ty: Ty) -> (St, Op) {
    let (st, r) = match ty {
        Ty::Object(class) => st.rt2("vs_any_is_class", Some(LTy::I32), ptr(p), ptr(Op::Rtti(class))),
        Ty::Iface(iface) => st.rt2("vs_any_is_iface", Some(LTy::I32), ptr(p), i32v(iface)),
        Ty::Array => st.rt1("vs_any_is_array", Some(LTy::I32), ptr(p)),
        Ty::Vector(inst) => st.rt2("vs_any_is_vector", Some(LTy::I32), ptr(p), i32v(inst)),
        _ => st.rt2("vs_any_is", Some(LTy::I32), ptr(p), i32v(ty_tag_of(ty))),
    };
    nonzero(st, r)
}

/// The value in the box at `p` if it is a `ty`, else null.
#[verifier::opaque]
pub open spec fn as_cast(st: St, p: Op, ty: Ty) -> (St, Val) {
    match ty {
        Ty::Array => {
            let (st, r) = st.rt1("vs_any_as_array", Some(LTy::Ptr), ptr(p));
            (st, Val::Arr(r))
        },
        Ty::Vector(inst) => {
            let (st, r) = st.rt2("vs_any_as_vector", Some(LTy::Ptr), ptr(p), i32v(inst));
            (st, Val::VecP(r))
        },
        Ty::Object(class) => {
            let (st, r) = st.rt2("vs_any_as_class", Some(LTy::Ptr), ptr(p), ptr(Op::Rtti(class)));
            (st, Val::Obj(r))
        },
        Ty::Date => {
            let (st, r) = st.rt1("vs_any_as_date", Some(LTy::Ptr), ptr(p));
            (st, Val::Dat(r))
        },
        Ty::RegExp => {
            let (st, r) = st.rt1("vs_any_as_regexp", Some(LTy::Ptr), ptr(p));
            (st, Val::Reg(r))
        },
        Ty::Iface(iface) => {
            let (st, r) = st.rt2("vs_any_as_iface", Some(LTy::Ptr), ptr(p), i32v(iface));
            (st, Val::Obj(r))
        },
        Ty::String => {
            let (st, r) = st.rt1("vs_any_as_string", Some(LTy::Ptr), ptr(p));
            (st, Val::Str(r))
        },
        _ => {
            let (st, out) = st.val(Cmd::Alloca(LTy::Any, 1));
            let (st, _) = st.rt3("vs_any_as", None, ptr(p), i32v(ty_tag_of(ty)), ptr(out));
            (st, Val::Any(out))
        },
    }
}

// --- storage -------------------------------------------------------------------

/// A copy of the box at `p`, so that later writes do not reach it.
pub open spec fn copy_box(st: St, p: Op) -> (St, Op) {
    let (st, copy) = st.val(Cmd::Alloca(LTy::Any, 1));
    let (st, v) = st.val(Cmd::Load(LTy::Any, p));
    (st.push(Cmd::Store(copy, v)), copy)
}

pub open spec fn slot_at(locals: Seq<Slot>, id: LocalId) -> Option<Slot> {
    if id.0 < locals.len() {
        Some(locals[id.0 as int])
    } else {
        None
    }
}

/// A value of type `ty` from its storage at `p`.
pub open spec fn load_typed(st: St, p: Op, ty: Ty) -> (St, Val) {
    match storage_of(ty) {
        Some(t) => {
            let (st, x) = st.val(Cmd::Load(t, p));
            wrap_basic(st, x, ty)
        },
        None => (st.fail(), Val::Void),
    }
}

#[verifier::opaque]
pub open spec fn load_local<'a>(env: Env<'a>, st: St<'a>, id: LocalId) -> (St<'a>, Val) {
    match slot_at(env.locals, id) {
        None => (st.fail(), Val::Void),
        Some(s) => if s.is_cell {
            let (st, cell) = st.val(Cmd::Load(LTy::Ptr, s.ptr));
            let (st, copy) = copy_box(st, cell);
            unbox(st, copy, s.ty)
        } else if s.ty == Ty::Any {
            let (st, copy) = copy_box(st, s.ptr);
            (st, Val::Any(copy))
        } else {
            load_typed(st, s.ptr, s.ty)
        },
    }
}

#[verifier::opaque]
pub open spec fn store_local<'a>(env: Env<'a>, st: St<'a>, id: LocalId, v: Val) -> St<'a> {
    match slot_at(env.locals, id) {
        None => st.fail(),
        Some(s) => if s.is_cell {
            let (st, b) = box_value(st, v);
            let (st, cell) = st.val(Cmd::Load(LTy::Ptr, s.ptr));
            let (st, x) = st.val(Cmd::Load(LTy::Any, b));
            st.push(Cmd::Store(cell, x))
        } else {
            let (st, x) = materialize(st, v);
            st.push(Cmd::Store(s.ptr, x))
        },
    }
}

/// Steps the local; yields the new value (prefix) or the old one.
#[verifier::opaque]
pub open spec fn inc_dec<'a>(env: Env<'a>, st: St<'a>, id: LocalId, is_inc: bool, is_prefix: bool) -> (St<'a>, Val) {
    let (st, old) = load_local(env, st, id);
    let (st, new) = step_val(st, old, is_inc);
    let st = store_local(env, st, id, new);
    (
        st,
        if is_prefix {
            new
        } else {
            old
        },
    )
}

/// Steps the number stored at `p`.
#[verifier::opaque]
pub open spec fn inc_dec_at(st: St, p: Op, ty: Ty, is_inc: bool, is_prefix: bool) -> (St, Val) {
    let (st, old) = load_typed(st, p, ty);
    let (st, new) = step_val(st, old, is_inc);
    let (st, x) = materialize(st, new);
    (
        st.push(Cmd::Store(p, x)),
        if is_prefix {
            new
        } else {
            old
        },
    )
}

/// The cell of capture `i`; the environment is the first parameter of a
/// capturing function.
pub open spec fn capture_cell<'a>(env: Env<'a>, st: St<'a>, i: usize) -> (St<'a>, Op) {
    if env.func.captures@.len() == 0 {
        (st.fail(), Op::Null)
    } else {
        let (st, p) = st.val(Cmd::Elem(LTy::Ptr, Op::Param(0), Op::I32(i as u32)));
        st.val(Cmd::Load(LTy::Ptr, p))
    }
}

/// `this` follows the environment parameter, where there is one.
pub open spec fn this_param(env: Env) -> Op {
    if env.func.captures@.len() == 0 {
        Op::Param(0)
    } else {
        Op::Param(1)
    }
}

/// Throws if the object is null; goes on in a block where it is not.
#[verifier::opaque]
pub open spec fn null_check(st: St, obj: Op) -> St {
    let (st, is_null) = st.val(Cmd::IsNull(obj));
    let (st, npe) = st.new_block();
    let (st, ok) = st.new_block();
    let st = st.term(Cmd::CondBr(is_null, npe, ok)).at(npe);
    let (st, _) = st.rt0("vs_null_throw", None);
    st.term(Cmd::Unreachable).at(ok)
}

pub open spec fn slot_ty(env: Env, class: u32, slot: usize) -> Option<Ty> {
    if class < env.program.classes@.len() && slot < env.program.classes@[class as int].slots@.len() {
        Some(env.program.classes@[class as int].slots@[slot as int])
    } else {
        None
    }
}

pub open spec fn static_ty(env: Env, class: u32, index: usize) -> Option<Ty> {
    if class < env.program.classes@.len() && index < env.program.classes@[class as int].statics@.len() {
        Some(env.program.classes@[class as int].statics@[index as int])
    } else {
        None
    }
}

/// The address and the type of an instance slot; struct field 0 is the
/// descriptor.
pub open spec fn field_ptr<'a>(env: Env<'a>, st: St<'a>, obj: Op, class: u32, slot: usize) -> (St<'a>, Op, Ty) {
    match slot_ty(env, class, slot) {
        Some(ty) => {
            let (st, p) = st.val(Cmd::InstanceField(class, obj, (slot + 1) as u32));
            (st, p, ty)
        },
        None => (st.fail(), Op::Null, Ty::Void),
    }
}

/// A closure object.
pub open spec fn make_closure(st: St, target: WrapTarget, envc: u32, envp: Op, this: Op) -> (St, Val) {
    let (st, c) = st.rt4(
        "vs_closure_new",
        Some(LTy::Ptr),
        ptr(Op::Wrapper(target)),
        i32v(envc),
        ptr(envp),
        ptr(this),
    );
    (st, Val::Fun(c))
}

// --- unboxed vectors -----------------------------------------------------------

/// How a `Vector.<T>` instantiation stores its elements: 1 as doubles, 2 as
/// signed and 3 as unsigned words, 0 boxed.
pub open spec fn vec_kind_of(env: Env, inst: u32) -> Option<u32> {
    if inst < env.program.vectors@.len() {
        Some(
            match env.program.vectors@[inst as int] {
                Ty::Number => 1u32,
                Ty::Int => 2u32,
                Ty::UInt => 3u32,
                _ => 0u32,
            },
        )
    } else {
        None
    }
}

/// The storage kind and the element type of an unboxed numeric vector.
pub open spec fn unboxed_of(env: Env, ty: Ty) -> Option<(u32, LTy)> {
    match ty {
        Ty::Vector(inst) => match vec_kind_of(env, inst) {
            Some(1) => Some((1u32, LTy::F64)),
            Some(2) => Some((2u32, LTy::I32)),
            Some(3) => Some((3u32, LTy::I32)),
            _ => None,
        },
        _ => None,
    }
}

/// The length and the data pointer in a vector header: bytes 8 and 16.
pub open spec fn vec_header(st: St, p: Op) -> (St, Op, Op) {
    let (st, len_p) = st.val(Cmd::Elem(LTy::I32, p, Op::I32(2)));
    let (st, len) = st.val(Cmd::Load(LTy::I32, len_p));
    let (st, data_pp) = st.val(Cmd::Elem(LTy::I8, p, Op::I32(16)));
    let (st, data) = st.val(Cmd::Load(LTy::Ptr, data_pp));
    (st, len, data)
}

/// The address of element `idx`, a double in range.
pub open spec fn vec_elem(st: St, ety: LTy, data: Op, idx: Op) -> (St, Op) {
    let (st, i) = st.val(Cmd::Cast(Cast::FpToU64, idx));
    st.val(Cmd::Elem(ety, data, i))
}

/// `0 <= idx < len`, both as doubles.
pub open spec fn idx_in_bounds(st: St, idx: Op, len: Op) -> (St, Op) {
    let (st, ge0) = st.val(Cmd::FCmp(FloatPred::OGE, idx, Op::F64(F64_ZERO)));
    let (st, lt) = st.val(Cmd::FCmp(FloatPred::OLT, idx, len));
    st.val(Cmd::Int(IntOp::And, ge0, lt))
}

/// The scalar to store into an unboxed vector of the given kind.
#[verifier::opaque]
pub open spec fn vec_scalar(st: St, v: Val, kind: u32) -> (St, Op) {
    if kind == 1 {
        let (st, f) = numeric_of(st, v);
        match f {
            Some(x) => (st, x),
            None => (st.fail(), Op::Null),
        }
    } else {
        match v {
            Val::Int(i) | Val::UInt(i) => (st, i),
            Val::Num(f) => {
                let (st, r) = convert_num_to_int(st, f, kind == 2);
                int_operand(st, r)
            },
            _ => (st.fail(), Op::Null),
        }
    }
}

/// An element of an unboxed vector as a value of the expression's type.
pub open spec fn elem_val(st: St, x: Op, ty: Ty) -> (St, Val) {
    match ty {
        Ty::Number => (st, Val::Num(x)),
        Ty::Int => (st, Val::Int(x)),
        Ty::UInt => (st, Val::UInt(x)),
        _ => (st.fail(), Val::Void),
    }
}

impl<'a> FnCx<'a> {
    pub fn utf8_lit(&mut self, text: &'a String) -> (r: (Op, u32))
        ensures
            final(self).env() == old(self).env(),
            (final(self).st(), r.0, r.1) == utf8_lit(old(self).st(), text),
            step(
                old(self).st(),
                final(self).st(),
                true,
                has(final(self).st(), r.0),
            ),
    {
        let g = self.val(Cmd::Text(text));
        (g, text_len(text) as u32)
    }

    /// A runtime string from a literal of the program.
    pub fn const_string(&mut self, text: &'a String) -> (r: Op)
        ensures
            final(self).env() == old(self).env(),
            (final(self).st(), r) == const_string(old(self).st(), text),
            step(
                old(self).st(),
                final(self).st(),
                true,
                has(final(self).st(), r),
            ),
    {
        let (g, len): (Op, u32) = self.utf8_lit(text);
        self.rt2("vs_string_from_utf8", Some(LTy::Ptr), (LTy::Ptr, g), (LTy::I32, Op::I32(len)))
    }

    /// Interns a namespace by its URI.
    pub fn intern_namespace(&mut self, uri: &'a String) -> (r: Val)
        ensures
            final(self).env() == old(self).env(),
            (final(self).st(), r) == intern_namespace(old(self).st(), uri),
            step(
                old(self).st(),
                final(self).st(),
                true,
                has_val(final(self).st(), r),
            ),
    {
        let (g, len): (Op, u32) = self.utf8_lit(uri);
        Val::Ns(
            self.rt2(
                "vs_namespace_intern",
                Some(LTy::Ptr),
                (LTy::Ptr, g),
                (LTy::I32, Op::I32(len)),
            ),
        )
    }

    pub fn int_operand(&mut self, v: Val) -> (r: Op)
        ensures
            final(self).env() == old(self).env(),
            (final(self).st(), r) == int_operand(old(self).st(), v),
            step(
                old(self).st(),
                final(self).st(),
                has_val(old(self).st(), v),
                has(final(self).st(), r),
            ),
    {
        match v {
            Val::Int(i) | Val::UInt(i) => i,
            _ => {
                self.fail();
                Op::Null
            },
        }
    }

    pub fn obj_of(&mut self, v: Val) -> (r: Op)
        ensures
            final(self).env() == old(self).env(),
            (final(self).st(), r) == obj_of(old(self).st(), v),
            step(
                old(self).st(),
                final(self).st(),
                has_val(old(self).st(), v),
                has(final(self).st(), r),
            ),
    {
        match v {
            Val::Obj(p) | Val::Str(p) => p,
            _ => {
                self.fail();
                Op::Null
            },
        }
    }

    pub fn seq_of(&mut self, v: Val) -> (r: Op)
        ensures
            final(self).env() == old(self).env(),
            (final(self).st(), r) == seq_of(old(self).st(), v),
            step(
                old(self).st(),
                final(self).st(),
                has_val(old(self).st(), v),
                has(final(self).st(), r),
            ),
    {
        match v {
            Val::Arr(p) | Val::VecP(p) | Val::Str(p) | Val::Obj(p) => p,
            _ => {
                self.fail();
                Op::Null
            },
        }
    }

    pub fn num_of(&mut self, v: Val) -> (r: Op)
        ensures
            final(self).env() == old(self).env(),
            (final(self).st(), r) == num_of(old(self).st(), v),
            step(
                old(self).st(),
                final(self).st(),
                has_val(old(self).st(), v),
                has(final(self).st(), r),
            ),
    {
        match v {
            Val::Num(x) => x,
            _ => {
                self.fail();
                Op::Null
            },
        }
    }

    pub fn ns_of(&mut self, v: Val) -> (r: Op)
        ensures
            final(self).env() == old(self).env(),
            (final(self).st(), r) == ns_of(old(self).st(), v),
            step(
                old(self).st(),
                final(self).st(),
                has_val(old(self).st(), v),
                has(final(self).st(), r),
            ),
    {
        match v {
            Val::Ns(p) => p,
            _ => {
                self.fail();
                Op::Null
            },
        }
    }

    pub fn fun_of(&mut self, v: Val) -> (r: Op)
        ensures
            final(self).env() == old(self).env(),
            (final(self).st(), r) == fun_of(old(self).st(), v),
            step(
                old(self).st(),
                final(self).st(),
                has_val(old(self).st(), v),
                has(final(self).st(), r),
            ),
    {
        match v {
            Val::Fun(p) => p,
            Val::Any(p) => self.rt1("vs_any_coerce_function", Some(LTy::Ptr), (LTy::Ptr, p)),
            _ => {
                self.fail();
                Op::Null
            },
        }
    }

    pub fn to_num(&mut self, v: Val) -> (r: Op)
        ensures
            final(self).env() == old(self).env(),
            (final(self).st(), r) == to_num(old(self).st(), v),
            step(
                old(self).st(),
                final(self).st(),
                has_val(old(self).st(), v),
                has(final(self).st(), r),
            ),
    {
        match self.numeric_of(v) {
            Some(x) => x,
            None => match v {
                Val::Any(p) => self.any_to_number(p),
                _ => {
                    self.fail();
                    Op::Null
                },
            },
        }
    }

    pub fn unary_val(&mut self, op: UnOp, v: Val) -> (r: Val)
        ensures
            final(self).env() == old(self).env(),
            (final(self).st(), r) == unary_val(old(self).st(), op, v),
            step(
                old(self).st(),
                final(self).st(),
                has_val(old(self).st(), v),
                has_val(final(self).st(), r),
            ),
    {
        reveal(unary_val);
        match op {
            UnOp::Not => {
                let b = self.truthy(v);
                Val::Bool(self.val(Cmd::Not(b)))
            },
            UnOp::BitNot => match v {
                Val::Int(i) => Val::Int(self.val(Cmd::Not(i))),
                _ => {
                    self.fail();
                    Val::Void
                },
            },
            UnOp::Neg => match v {
                Val::Num(f) => Val::Num(self.val(Cmd::FNeg(f))),
                Val::Int(i) => Val::Int(self.val(Cmd::INeg(i))),
                _ => {
                    self.fail();
                    Val::Void
                },
            },
            UnOp::TypeOf => {
                let p = self.box_value(v);
                Val::Str(self.rt1("vs_any_typeof", Some(LTy::Ptr), (LTy::Ptr, p)))
            },
        }
    }

    pub fn relational(&mut self, op: BinOp, l: Val, r: Val) -> (res: Val)
        ensures
            final(self).env() == old(self).env(),
            (final(self).st(), res) == relational(old(self).st(), op, l, r),
            step(
                old(self).st(),
                final(self).st(),
                has_val(old(self).st(), l) && has_val(old(self).st(), r),
                has_val(final(self).st(), res),
            ),
    {
        reveal(relational);
        let (code, pred): (u32, FloatPred) = match op {
            BinOp::Lt => (0, FloatPred::OLT),
            BinOp::Gt => (1, FloatPred::OGT),
            BinOp::Le => (2, FloatPred::OLE),
            _ => (3, FloatPred::OGE),
        };
        match (l, r) {
            (Val::Num(a), Val::Num(b)) => Val::Bool(self.val(Cmd::FCmp(pred, a, b))),
            (Val::Str(a), Val::Str(b)) => {
                let c = self.rt3(
                    "vs_string_cmp",
                    Some(LTy::I32),
                    (LTy::Ptr, a),
                    (LTy::Ptr, b),
                    (LTy::I32, Op::I32(code)),
                );
                Val::Bool(self.nonzero(c))
            },
            _ => {
                let a = self.box_value(l);
                let b = self.box_value(r);
                let c = self.rt3(
                    "vs_any_cmp",
                    Some(LTy::I32),
                    (LTy::Ptr, a),
                    (LTy::Ptr, b),
                    (LTy::I32, Op::I32(code)),
                );
                Val::Bool(self.nonzero(c))
            },
        }
    }

    pub fn equality(&mut self, l: Val, r: Val, fallback: &'static str) -> (res: Op)
        ensures
            final(self).env() == old(self).env(),
            (final(self).st(), res) == equality(old(self).st(), l, r, fallback),
            step(
                old(self).st(),
                final(self).st(),
                has_val(old(self).st(), l) && has_val(old(self).st(), r),
                has(final(self).st(), res),
            ),
    {
        reveal(equality);
        let ln = self.numeric_of(l);
        let rn = self.numeric_of(r);
        if let (Some(a), Some(b)) = (ln, rn) {
            return self.val(Cmd::FCmp(FloatPred::OEQ, a, b));
        }
        match (l, r) {
            (Val::Bool(a), Val::Bool(b)) => self.val(Cmd::ICmp(IntPred::EQ, a, b)),
            (
                Val::Obj(a) | Val::Arr(a) | Val::VecP(a),
                Val::Obj(b) | Val::Arr(b) | Val::VecP(b) | Val::Str(b),
            )
            | (Val::Str(a), Val::Obj(b) | Val::Arr(b) | Val::VecP(b)) => {
                let x = self.val(Cmd::Cast(Cast::PtrToI64, a));
                let y = self.val(Cmd::Cast(Cast::PtrToI64, b));
                self.val(Cmd::ICmp(IntPred::EQ, x, y))
            },
            (Val::Str(a), Val::Str(b)) => {
                let c = self.rt2(
                    "vs_string_equals",
                    Some(LTy::I32),
                    (LTy::Ptr, a),
                    (LTy::Ptr, b),
                );
                self.nonzero(c)
            },
            _ => {
                let a = self.box_value(l);
                let b = self.box_value(r);
                let c = self.rt2(fallback, Some(LTy::I32), (LTy::Ptr, a), (LTy::Ptr, b));
                self.nonzero(c)
            },
        }
    }

    pub fn loose_equals(&mut self, l: Val, r: Val) -> (res: Op)
        ensures
            final(self).env() == old(self).env(),
            (final(self).st(), res) == loose_equals(old(self).st(), l, r),
            step(
                old(self).st(),
                final(self).st(),
                has_val(old(self).st(), l) && has_val(old(self).st(), r),
                has(final(self).st(), res),
            ),
    {
        self.equality(l, r, "vs_any_equals")
    }

    pub fn strict_equals(&mut self, l: Val, r: Val) -> (res: Op)
        ensures
            final(self).env() == old(self).env(),
            (final(self).st(), res) == strict_equals(old(self).st(), l, r),
            step(
                old(self).st(),
                final(self).st(),
                has_val(old(self).st(), l) && has_val(old(self).st(), r),
                has(final(self).st(), res),
            ),
    {
        self.equality(l, r, "vs_any_strict_equals")
    }

    fn add_vals(&mut self, l: Val, r: Val) -> (res: Val)
        ensures
            final(self).env() == old(self).env(),
            (final(self).st(), res) == add_vals(old(self).st(), l, r),
            step(
                old(self).st(),
                final(self).st(),
                has_val(old(self).st(), l) && has_val(old(self).st(), r),
                has_val(final(self).st(), res),
            ),
    {
        reveal(add_vals);
        match (l, r) {
            (Val::Num(a), Val::Num(b)) => Val::Num(self.val(Cmd::Float(FloatOp::Add_, a, b))),
            (Val::Str(_), _) | (_, Val::Str(_)) => {
                let a = self.stringify(l);
                let b = self.stringify(r);
                Val::Str(
                    self.rt2("vs_string_concat", Some(LTy::Ptr), (LTy::Ptr, a), (LTy::Ptr, b)),
                )
            },
            _ => {
                let a = self.box_value(l);
                let b = self.box_value(r);
                let out = self.val(Cmd::Alloca(LTy::Any, 1));
                self.rt3("vs_any_add", None, (LTy::Ptr, a), (LTy::Ptr, b), (LTy::Ptr, out));
                Val::Any(out)
            },
        }
    }

    fn float_vals(&mut self, op: FloatOp, l: Val, r: Val) -> (res: Val)
        ensures
            final(self).env() == old(self).env(),
            (final(self).st(), res) == float_vals(old(self).st(), op, l, r),
            step(
                old(self).st(),
                final(self).st(),
                has_val(old(self).st(), l) && has_val(old(self).st(), r),
                has_val(final(self).st(), res),
            ),
    {
        match (l, r) {
            (Val::Num(a), Val::Num(b)) => Val::Num(self.val(Cmd::Float(op, a, b))),
            _ => {
                self.fail();
                Val::Void
            },
        }
    }

    fn int_vals(&mut self, op: IntOp, l: Val, r: Val) -> (res: Op)
        ensures
            final(self).env() == old(self).env(),
            (final(self).st(), res) == int_vals(old(self).st(), op, l, r),
            step(
                old(self).st(),
                final(self).st(),
                has_val(old(self).st(), l) && has_val(old(self).st(), r),
                has(final(self).st(), res),
            ),
    {
        let a = self.int_operand(l);
        let b = self.int_operand(r);
        self.val(Cmd::Int(op, a, b))
    }

    fn shift_vals(&mut self, op: IntOp, l: Val, r: Val) -> (res: Op)
        ensures
            final(self).env() == old(self).env(),
            (final(self).st(), res) == shift_vals(old(self).st(), op, l, r),
            step(
                old(self).st(),
                final(self).st(),
                has_val(old(self).st(), l) && has_val(old(self).st(), r),
                has(final(self).st(), res),
            ),
    {
        let a = self.int_operand(l);
        let b = self.int_operand(r);
        let m = self.val(Cmd::Int(IntOp::And, b, Op::I32(31)));
        self.val(Cmd::Int(op, a, m))
    }

    /// Applies a binary operator to two computed values.
    pub fn binary_vals(&mut self, op: BinOp, l: Val, r: Val) -> (res: Val)
        ensures
            final(self).env() == old(self).env(),
            (final(self).st(), res) == binary_vals(old(self).st(), op, l, r),
            step(
                old(self).st(),
                final(self).st(),
                has_val(old(self).st(), l) && has_val(old(self).st(), r),
                has_val(final(self).st(), res),
            ),
    {
        reveal(binary_vals);
        match op {
            BinOp::Add => self.add_vals(l, r),
            BinOp::Sub => self.float_vals(FloatOp::Sub_, l, r),
            BinOp::Mul => self.float_vals(FloatOp::Mul_, l, r),
            BinOp::Div => self.float_vals(FloatOp::Div, l, r),
            BinOp::Rem => self.float_vals(FloatOp::Rem, l, r),
            BinOp::Shl => Val::Int(self.shift_vals(IntOp::Shl, l, r)),
            BinOp::Shr => Val::Int(self.shift_vals(IntOp::AShr, l, r)),
            BinOp::Ushr => Val::UInt(self.shift_vals(IntOp::LShr, l, r)),
            BinOp::BitAnd => Val::Int(self.int_vals(IntOp::And, l, r)),
            BinOp::BitOr => Val::Int(self.int_vals(IntOp::Or, l, r)),
            BinOp::BitXor => Val::Int(self.int_vals(IntOp::Xor, l, r)),
            BinOp::Lt | BinOp::Gt | BinOp::Le | BinOp::Ge => self.relational(op, l, r),
            BinOp::Eq => Val::Bool(self.loose_equals(l, r)),
            BinOp::Ne => {
                let x = self.loose_equals(l, r);
                Val::Bool(self.val(Cmd::Not(x)))
            },
            BinOp::StrictEq => Val::Bool(self.strict_equals(l, r)),
            BinOp::StrictNe => {
                let x = self.strict_equals(l, r);
                Val::Bool(self.val(Cmd::Not(x)))
            },
        }
    }

    pub fn step_val(&mut self, old_val: Val, is_inc: bool) -> (res: Val)
        ensures
            final(self).env() == old(self).env(),
            (final(self).st(), res) == step_val(old(self).st(), old_val, is_inc),
            step(
                old(self).st(),
                final(self).st(),
                has_val(old(self).st(), old_val),
                has_val(final(self).st(), res),
            ),
    {
        let (iop, fop) = if is_inc {
            (IntOp::Add_, FloatOp::Add_)
        } else {
            (IntOp::Sub_, FloatOp::Sub_)
        };
        match old_val {
            Val::Int(i) => Val::Int(self.val(Cmd::Int(iop, i, Op::I32(1)))),
            Val::UInt(i) => Val::UInt(self.val(Cmd::Int(iop, i, Op::I32(1)))),
            Val::Num(f) => Val::Num(self.val(Cmd::Float(fop, f, Op::F64(F64_ONE)))),
            _ => {
                self.fail();
                Val::Void
            },
        }
    }

    fn any_conv(&mut self, v: Val, ty: Ty) -> (res: Val)
        ensures
            final(self).env() == old(self).env(),
            (final(self).st(), res) == any_conv(old(self).st(), v, ty),
            step(
                old(self).st(),
                final(self).st(),
                has_val(old(self).st(), v),
                has_val(final(self).st(), res),
            ),
    {
        match v {
            Val::Any(p) => self.unbox_any_ptr(p, ty),
            _ => {
                self.fail();
                Val::Void
            },
        }
    }

    fn to_int_val(&mut self, v: Val, signed: bool) -> (res: Val)
        ensures
            final(self).env() == old(self).env(),
            (final(self).st(), res) == to_int_val(old(self).st(), v, signed),
            step(
                old(self).st(),
                final(self).st(),
                has_val(old(self).st(), v),
                has_val(final(self).st(), res),
            ),
    {
        match v {
            Val::Int(i) | Val::UInt(i) => if signed {
                Val::Int(i)
            } else {
                Val::UInt(i)
            },
            Val::Num(f) => self.convert_num_to_int(f, signed),
            Val::Any(p) => {
                let n = self.any_to_number(p);
                self.convert_num_to_int(n, signed)
            },
            _ => {
                self.fail();
                Val::Void
            },
        }
    }

    fn to_number_val(&mut self, v: Val) -> (res: Val)
        ensures
            final(self).env() == old(self).env(),
            (final(self).st(), res) == to_number_val(old(self).st(), v),
            step(
                old(self).st(),
                final(self).st(),
                has_val(old(self).st(), v),
                has_val(final(self).st(), res),
            ),
    {
        match v {
            Val::Str(p) => Val::Num(
                self.rt1("vs_string_to_number", Some(LTy::F64), (LTy::Ptr, p)),
            ),
            _ => Val::Num(self.to_num(v)),
        }
    }

    /// Applies a conversion to a computed value.
    pub fn convert_val(&mut self, conv: Conv, v: Val) -> (res: Val)
        ensures
            final(self).env() == old(self).env(),
            (final(self).st(), res) == convert_val(old(self).st(), conv, v),
            step(
                old(self).st(),
                final(self).st(),
                has_val(old(self).st(), v),
                has_val(final(self).st(), res),
            ),
    {
        reveal(convert_val);
        match conv {
            Conv::ToInt => self.to_int_val(v, true),
            Conv::ToUInt => self.to_int_val(v, false),
            Conv::ToNumber => self.to_number_val(v),
            Conv::ToBoolean => Val::Bool(self.truthy(v)),
            Conv::ToString => Val::Str(self.stringify(v)),
            Conv::ToAny => Val::Any(self.box_value(v)),
            Conv::AnyToString => self.any_conv(v, Ty::String),
            Conv::AnyToObject(class) => self.any_conv(v, Ty::Object(class)),
            Conv::AnyToArray => self.any_conv(v, Ty::Array),
            Conv::AnyToVector(inst) => self.any_conv(v, Ty::Vector(inst)),
            Conv::AnyToRegExp => self.any_conv(v, Ty::RegExp),
            Conv::AnyToSocket => self.any_conv(v, Ty::Socket),
            Conv::AnyToDate => self.any_conv(v, Ty::Date),
            Conv::AnyToIface(iface) => self.any_conv(v, Ty::Iface(iface)),
        }
    }

    /// `is` against the box at `p`.
    pub fn is_test(&mut self, p: Op, ty: Ty) -> (res: Op)
        ensures
            final(self).env() == old(self).env(),
            (final(self).st(), res) == is_test(old(self).st(), p, ty),
            step(
                old(self).st(),
                final(self).st(),
                has(old(self).st(), p),
                has(final(self).st(), res),
            ),
    {
        reveal(is_test);
        let a = (LTy::Ptr, p);
        let r = match ty {
            Ty::Object(class) => self.rt2(
                "vs_any_is_class",
                Some(LTy::I32),
                a,
                (LTy::Ptr, Op::Rtti(class)),
            ),
            Ty::Iface(iface) => self.rt2(
                "vs_any_is_iface",
                Some(LTy::I32),
                a,
                (LTy::I32, Op::I32(iface)),
            ),
            Ty::Array => self.rt1("vs_any_is_array", Some(LTy::I32), a),
            Ty::Vector(inst) => self.rt2(
                "vs_any_is_vector",
                Some(LTy::I32),
                a,
                (LTy::I32, Op::I32(inst)),
            ),
            _ => self.rt2("vs_any_is", Some(LTy::I32), a, (LTy::I32, Op::I32(ty_tag(ty)))),
        };
        self.nonzero(r)
    }

    /// `as` on the box at `p`.
    pub fn as_cast(&mut self, p: Op, ty: Ty) -> (res: Val)
        ensures
            final(self).env() == old(self).env(),
            (final(self).st(), res) == as_cast(old(self).st(), p, ty),
            step(
                old(self).st(),
                final(self).st(),
                has(old(self).st(), p),
                has_val(final(self).st(), res),
            ),
    {
        reveal(as_cast);
        let a = (LTy::Ptr, p);
        match ty {
            Ty::Array => Val::Arr(self.rt1("vs_any_as_array", Some(LTy::Ptr), a)),
            Ty::Vector(inst) => Val::VecP(
                self.rt2("vs_any_as_vector", Some(LTy::Ptr), a, (LTy::I32, Op::I32(inst))),
            ),
            Ty::Object(class) => Val::Obj(
                self.rt2("vs_any_as_class", Some(LTy::Ptr), a, (LTy::Ptr, Op::Rtti(class))),
            ),
            Ty::Date => Val::Dat(self.rt1("vs_any_as_date", Some(LTy::Ptr), a)),
            Ty::RegExp => Val::Reg(self.rt1("vs_any_as_regexp", Some(LTy::Ptr), a)),
            Ty::Iface(iface) => Val::Obj(
                self.rt2("vs_any_as_iface", Some(LTy::Ptr), a, (LTy::I32, Op::I32(iface))),
            ),
            Ty::String => Val::Str(self.rt1("vs_any_as_string", Some(LTy::Ptr), a)),
            _ => {
                let out = self.val(Cmd::Alloca(LTy::Any, 1));
                self.rt3(
                    "vs_any_as",
                    None,
                    a,
                    (LTy::I32, Op::I32(ty_tag(ty))),
                    (LTy::Ptr, out),
                );
                Val::Any(out)
            },
        }
    }

    pub fn copy_box(&mut self, p: Op) -> (res: Op)
        ensures
            final(self).env() == old(self).env(),
            (final(self).st(), res) == copy_box(old(self).st(), p),
            step(
                old(self).st(),
                final(self).st(),
                has(old(self).st(), p),
                has(final(self).st(), res),
            ),
    {
        let copy = self.val(Cmd::Alloca(LTy::Any, 1));
        let v = self.val(Cmd::Load(LTy::Any, p));
        self.emit(Cmd::Store(copy, v));
        copy
    }

    fn slot_of(&self, id: LocalId) -> (res: Option<Slot>)
        ensures
            res == slot_at(self.locals@, id),
    {
        if (id.0 as usize) < self.locals.len() {
            Some(self.locals[id.0 as usize])
        } else {
            None
        }
    }

    pub fn load_typed(&mut self, p: Op, ty: Ty) -> (res: Val)
        ensures
            final(self).env() == old(self).env(),
            (final(self).st(), res) == load_typed(old(self).st(), p, ty),
            step(
                old(self).st(),
                final(self).st(),
                has(old(self).st(), p),
                has_val(final(self).st(), res),
            ),
    {
        match crate::codegen::value::storage(ty) {
            Some(t) => {
                let x = self.val(Cmd::Load(t, p));
                self.wrap_basic(x, ty)
            },
            None => {
                self.fail();
                Val::Void
            },
        }
    }

    pub fn load_local(&mut self, id: LocalId) -> (res: Val)
        ensures
            final(self).env() == old(self).env(),
            (final(self).st(), res) == load_local(old(self).env(), old(self).st(), id),
            step(
                old(self).st(),
                final(self).st(),
                env_has(old(self).env(), old(self).st()),
                has_val(final(self).st(), res),
            ),
    {
        reveal(load_local);
        match self.slot_of(id) {
            None => {
                self.fail();
                Val::Void
            },
            Some(s) => if s.is_cell {
                let cell = self.val(Cmd::Load(LTy::Ptr, s.ptr));
                let copy = self.copy_box(cell);
                self.unbox_any_ptr(copy, s.ty)
            } else if s.ty == Ty::Any {
                Val::Any(self.copy_box(s.ptr))
            } else {
                self.load_typed(s.ptr, s.ty)
            },
        }
    }

    pub fn store_local(&mut self, id: LocalId, v: Val)
        ensures
            final(self).env() == old(self).env(),
            final(self).st() == store_local(old(self).env(), old(self).st(), id, v),
            step(
                old(self).st(),
                final(self).st(),
                env_has(old(self).env(), old(self).st()) && has_val(old(self).st(), v),
                true,
            ),
    {
        reveal(store_local);
        match self.slot_of(id) {
            None => {
                self.fail();
            },
            Some(s) => if s.is_cell {
                let b = self.box_value(v);
                let cell = self.val(Cmd::Load(LTy::Ptr, s.ptr));
                let x = self.val(Cmd::Load(LTy::Any, b));
                self.emit(Cmd::Store(cell, x));
            } else {
                let x = self.materialize(v);
                self.emit(Cmd::Store(s.ptr, x));
            },
        }
    }

    pub fn inc_dec(&mut self, id: LocalId, is_inc: bool, is_prefix: bool) -> (res: Val)
        ensures
            final(self).env() == old(self).env(),
            (final(self).st(), res) == inc_dec(
                old(self).env(),
                old(self).st(),
                id,
                is_inc,
                is_prefix,
            ),
            step(
                old(self).st(),
                final(self).st(),
                env_has(old(self).env(), old(self).st()),
                has_val(final(self).st(), res),
            ),
    {
        reveal(inc_dec);
        let old_val = self.load_local(id);
        let new_val = self.step_val(old_val, is_inc);
        self.store_local(id, new_val);
        if is_prefix {
            new_val
        } else {
            old_val
        }
    }

    pub fn inc_dec_at(&mut self, p: Op, ty: Ty, is_inc: bool, is_prefix: bool) -> (res: Val)
        ensures
            final(self).env() == old(self).env(),
            (final(self).st(), res) == inc_dec_at(old(self).st(), p, ty, is_inc, is_prefix),
            step(
                old(self).st(),
                final(self).st(),
                has(old(self).st(), p),
                has_val(final(self).st(), res),
            ),
    {
        reveal(inc_dec_at);
        let old_val = self.load_typed(p, ty);
        let new_val = self.step_val(old_val, is_inc);
        let x = self.materialize(new_val);
        self.emit(Cmd::Store(p, x));
        if is_prefix {
            new_val
        } else {
            old_val
        }
    }

    pub fn capture_cell(&mut self, i: usize) -> (res: Op)
        ensures
            final(self).env() == old(self).env(),
            (final(self).st(), res) == capture_cell(old(self).env(), old(self).st(), i),
            step(
                old(self).st(),
                final(self).st(),
                env_has(old(self).env(), old(self).st()),
                has(final(self).st(), res),
            ),
    {
        if self.func.captures.len() == 0 {
            self.fail();
            Op::Null
        } else {
            let p = self.val(Cmd::Elem(LTy::Ptr, Op::Param(0), Op::I32(i as u32)));
            self.val(Cmd::Load(LTy::Ptr, p))
        }
    }

    pub fn this_param(&self) -> (res: Op)
        ensures
            res == this_param(self.env()),
    {
        if self.func.captures.len() == 0 {
            Op::Param(0)
        } else {
            Op::Param(1)
        }
    }

    pub fn null_check(&mut self, obj: Op)
        ensures
            final(self).env() == old(self).env(),
            final(self).st() == null_check(old(self).st(), obj),
            step(
                old(self).st(),
                final(self).st(),
                has(old(self).st(), obj),
                true,
            ),
    {
        reveal(null_check);
        let is_null = self.val(Cmd::IsNull(obj));
        let npe: usize = self.new_block();
        let ok: usize = self.new_block();
        self.term(Cmd::CondBr(is_null, npe, ok));
        self.at(npe);
        self.rt0("vs_null_throw", None);
        self.term(Cmd::Unreachable);
        self.at(ok);
    }

    pub fn slot_ty(&self, class: u32, slot: usize) -> (res: Option<Ty>)
        ensures
            res == slot_ty(self.env(), class, slot),
            res is Some ==> slot < usize::MAX,
    {
        if (class as usize) < self.program.classes.len() && slot < self.program.classes[class as usize].slots.len() {
            Some(self.program.classes[class as usize].slots[slot])
        } else {
            None
        }
    }

    pub fn static_ty(&self, class: u32, index: usize) -> (res: Option<Ty>)
        ensures
            res == static_ty(self.env(), class, index),
    {
        if (class as usize) < self.program.classes.len() && index < self.program.classes[class as usize].statics.len() {
            Some(self.program.classes[class as usize].statics[index])
        } else {
            None
        }
    }

    pub fn field_ptr(&mut self, obj: Op, class: u32, slot: usize) -> (res: (Op, Ty))
        ensures
            final(self).env() == old(self).env(),
            (final(self).st(), res.0, res.1) == field_ptr(
                old(self).env(),
                old(self).st(),
                obj,
                class,
                slot,
            ),
            step(
                old(self).st(),
                final(self).st(),
                env_has(old(self).env(), old(self).st()) && has(old(self).st(), obj),
                has(final(self).st(), res.0),
            ),
    {
        match self.slot_ty(class, slot) {
            Some(ty) => {
                let i: u32 = (slot + 1) as u32;
                let p = self.val(Cmd::InstanceField(class, obj, i));
                (p, ty)
            },
            None => {
                self.fail();
                (Op::Null, Ty::Void)
            },
        }
    }

    pub fn make_closure(&mut self, target: WrapTarget, envc: u32, envp: Op, this: Op) -> (res: Val)
        ensures
            final(self).env() == old(self).env(),
            (final(self).st(), res) == make_closure(old(self).st(), target, envc, envp, this),
            step(
                old(self).st(),
                final(self).st(),
                has(old(self).st(), envp) && has(old(self).st(), this),
                has_val(final(self).st(), res),
            ),
    {
        Val::Fun(
            self.rt4(
                "vs_closure_new",
                Some(LTy::Ptr),
                (LTy::Ptr, Op::Wrapper(target)),
                (LTy::I32, Op::I32(envc)),
                (LTy::Ptr, envp),
                (LTy::Ptr, this),
            ),
        )
    }

    pub fn vec_kind(&self, inst: u32) -> (res: Option<u32>)
        ensures
            res == vec_kind_of(self.env(), inst),
    {
        if (inst as usize) < self.program.vectors.len() {
            let k: u32 = match self.program.vectors[inst as usize] {
                Ty::Number => 1,
                Ty::Int => 2,
                Ty::UInt => 3,
                _ => 0,
            };
            Some(k)
        } else {
            None
        }
    }

    pub fn unboxed_vec(&self, ty: Ty) -> (res: Option<(u32, LTy)>)
        ensures
            res == unboxed_of(self.env(), ty),
    {
        match ty {
            Ty::Vector(inst) => match self.vec_kind(inst) {
                Some(1) => Some((1, LTy::F64)),
                Some(2) => Some((2, LTy::I32)),
                Some(3) => Some((3, LTy::I32)),
                _ => None,
            },
            _ => None,
        }
    }

    pub fn vec_header(&mut self, p: Op) -> (res: (Op, Op))
        ensures
            final(self).env() == old(self).env(),
            (final(self).st(), res.0, res.1) == vec_header(old(self).st(), p),
            step(
                old(self).st(),
                final(self).st(),
                has(old(self).st(), p),
                has(final(self).st(), res.0) && has(final(self).st(), res.1),
            ),
    {
        let len_p = self.val(Cmd::Elem(LTy::I32, p, Op::I32(2)));
        let len = self.val(Cmd::Load(LTy::I32, len_p));
        let data_pp = self.val(Cmd::Elem(LTy::I8, p, Op::I32(16)));
        let data = self.val(Cmd::Load(LTy::Ptr, data_pp));
        (len, data)
    }

    pub fn vec_elem(&mut self, ety: LTy, data: Op, idx: Op) -> (res: Op)
        ensures
            final(self).env() == old(self).env(),
            (final(self).st(), res) == vec_elem(old(self).st(), ety, data, idx),
            step(
                old(self).st(),
                final(self).st(),
                has(old(self).st(), data) && has(old(self).st(), idx),
                has(final(self).st(), res),
            ),
    {
        let i = self.val(Cmd::Cast(Cast::FpToU64, idx));
        self.val(Cmd::Elem(ety, data, i))
    }

    pub fn idx_in_bounds(&mut self, idx: Op, len: Op) -> (res: Op)
        ensures
            final(self).env() == old(self).env(),
            (final(self).st(), res) == idx_in_bounds(old(self).st(), idx, len),
            step(
                old(self).st(),
                final(self).st(),
                has(old(self).st(), idx) && has(old(self).st(), len),
                has(final(self).st(), res),
            ),
    {
        let ge0 = self.val(Cmd::FCmp(FloatPred::OGE, idx, Op::F64(F64_ZERO)));
        let lt = self.val(Cmd::FCmp(FloatPred::OLT, idx, len));
        self.val(Cmd::Int(IntOp::And, ge0, lt))
    }

    pub fn vec_scalar(&mut self, v: Val, kind: u32) -> (res: Op)
        ensures
            final(self).env() == old(self).env(),
            (final(self).st(), res) == vec_scalar(old(self).st(), v, kind),
            step(
                old(self).st(),
                final(self).st(),
                has_val(old(self).st(), v),
                has(final(self).st(), res),
            ),
    {
        reveal(vec_scalar);
        if kind == 1 {
            match self.numeric_of(v) {
                Some(x) => x,
                None => {
                    self.fail();
                    Op::Null
                },
            }
        } else {
            match v {
                Val::Int(i) | Val::UInt(i) => i,
                Val::Num(f) => {
                    let r = self.convert_num_to_int(f, kind == 2);
                    self.int_operand(r)
                },
                _ => {
                    self.fail();
                    Op::Null
                },
            }
        }
    }

    pub fn elem_val(&mut self, x: Op, ty: Ty) -> (res: Val)
        ensures
            final(self).env() == old(self).env(),
            (final(self).st(), res) == elem_val(old(self).st(), x, ty),
            step(
                old(self).st(),
                final(self).st(),
                has(old(self).st(), x),
                has_val(final(self).st(), res),
            ),
    {
        match ty {
            Ty::Number => Val::Num(x),
            Ty::Int => Val::Int(x),
            Ty::UInt => Val::UInt(x),
            _ => {
                self.fail();
                Val::Void
            },
        }
    }
}

} // verus!
