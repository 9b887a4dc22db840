//! Values: boxing, unboxing, conversions, and calls of runtime functions.

use vstd::prelude::*;

use crate::codegen::code::{Cast, Cmd, FloatPred, FnCx, IntPred, LTy, Op, St, Val};
use crate::mir::Ty;
use crate::codegen::sound::{group_sound, has, has_val, step};

verus! {

broadcast use group_sound;

// Runtime type tags.
pub const TAG_NULL: u32 = 1;

pub const TAG_BOOLEAN: u32 = 2;

pub const TAG_INT: u32 = 3;

pub const TAG_UINT: u32 = 4;

pub const TAG_NUMBER: u32 = 5;

pub const TAG_STRING: u32 = 6;

pub const TAG_OBJECT: u32 = 7;

pub const TAG_ARRAY: u32 = 8;

pub const TAG_VECTOR: u32 = 9;

pub const TAG_FUNCTION: u32 = 10;

pub const TAG_REGEXP: u32 = 11;

pub const TAG_DATE: u32 = 12;

pub const TAG_SOCKET: u32 = 13;

pub const TAG_NAMESPACE: u32 = 14;

// Doubles by their bit patterns.
pub const F64_ZERO: u64 = 0;

pub const F64_HALF: u64 = 0x3FE0_0000_0000_0000;

pub const F64_ONE: u64 = 0x3FF0_0000_0000_0000;

pub const F64_MINUS_ONE: u64 = 0xBFF0_0000_0000_0000;

/// 2147483648.
pub const F64_2_31: u64 = 0x41E0_0000_0000_0000;

/// -2147483649.
pub const F64_BELOW_I32: u64 = 0xC1E0_0000_0020_0000;

/// 4294967296.
pub const F64_2_32: u64 = 0x41F0_0000_0000_0000;

pub const F64_NAN: u64 = 0x7FF8_0000_0000_0000;

/// The largest finite double.
pub const F64_MAX: u64 = 0x7FEF_FFFF_FFFF_FFFF;

/// The tag that a type is tested by; `TAG_NULL` for the types that have
/// runtime tests of their own.
pub open spec fn ty_tag_of(ty: Ty) -> u32 {
    match ty {
        Ty::Int => TAG_INT,
        Ty::UInt => TAG_UINT,
        Ty::Number => TAG_NUMBER,
        Ty::Boolean => TAG_BOOLEAN,
        Ty::String => TAG_STRING,
        Ty::RegExp => TAG_REGEXP,
        Ty::Date => TAG_DATE,
        Ty::Socket => TAG_SOCKET,
        Ty::Namespace => TAG_NAMESPACE,
        _ => TAG_NULL,
    }
}

/// The tag by which `is`, `as` and `catch` test for a type.
///
/// Class, interface and sequence targets have runtime tests of their own and
/// never go by a tag.
pub fn ty_tag(ty: Ty) -> (r: u32)
    ensures
        r == ty_tag_of(ty),
{
    match ty {
        Ty::Int => TAG_INT,
        Ty::UInt => TAG_UINT,
        Ty::Number => TAG_NUMBER,
        Ty::Boolean => TAG_BOOLEAN,
        Ty::String => TAG_STRING,
        Ty::RegExp => TAG_REGEXP,
        Ty::Date => TAG_DATE,
        Ty::Socket => TAG_SOCKET,
        Ty::Namespace => TAG_NAMESPACE,
        Ty::Any | Ty::Void | Ty::Object(_) | Ty::Iface(_) | Ty::Array | Ty::Vector(_)
        | Ty::Function => TAG_NULL,
    }
}

/// The tag that a field slot boxes to; 0 for an untyped slot.
pub open spec fn ty_tag_reflect_of(ty: Ty) -> u32 {
    match ty {
        Ty::Any | Ty::Void => 0,
        Ty::Boolean => TAG_BOOLEAN,
        Ty::Int => TAG_INT,
        Ty::UInt => TAG_UINT,
        Ty::Number => TAG_NUMBER,
        Ty::String => TAG_STRING,
        Ty::Object(_) | Ty::Iface(_) => TAG_OBJECT,
        Ty::Array => TAG_ARRAY,
        Ty::Vector(_) => TAG_VECTOR,
        Ty::Function => TAG_FUNCTION,
        Ty::RegExp => TAG_REGEXP,
        Ty::Date => TAG_DATE,
        Ty::Socket => TAG_SOCKET,
        Ty::Namespace => TAG_NAMESPACE,
    }
}

/// The tag that a field slot boxes to in reflection tables; 0 for an untyped
/// slot.
pub fn ty_tag_reflect(ty: Ty) -> (r: u32)
    ensures
        r == ty_tag_reflect_of(ty),
{
    match ty {
        Ty::Any | Ty::Void => 0,
        Ty::Boolean => TAG_BOOLEAN,
        Ty::Int => TAG_INT,
        Ty::UInt => TAG_UINT,
        Ty::Number => TAG_NUMBER,
        Ty::String => TAG_STRING,
        Ty::Object(_) | Ty::Iface(_) => TAG_OBJECT,
        Ty::Array => TAG_ARRAY,
        Ty::Vector(_) => TAG_VECTOR,
        Ty::Function => TAG_FUNCTION,
        Ty::RegExp => TAG_REGEXP,
        Ty::Date => TAG_DATE,
        Ty::Socket => TAG_SOCKET,
        Ty::Namespace => TAG_NAMESPACE,
    }
}

/// The storage type of a value type; `void` has none.
pub open spec fn storage_of(ty: Ty) -> Option<LTy> {
    match ty {
        Ty::Int | Ty::UInt => Some(LTy::I32),
        Ty::Number => Some(LTy::F64),
        Ty::Boolean => Some(LTy::I1),
        Ty::Any => Some(LTy::Any),
        Ty::Void => None,
        _ => Some(LTy::Ptr),
    }
}

/// The storage type of a value type; `void` has none.
pub fn storage(ty: Ty) -> (r: Option<LTy>)
    ensures
        r == storage_of(ty),
{
    match ty {
        Ty::Int | Ty::UInt => Some(LTy::I32),
        Ty::Number => Some(LTy::F64),
        Ty::Boolean => Some(LTy::I1),
        Ty::Any => Some(LTy::Any),
        Ty::Void => None,
        _ => Some(LTy::Ptr),
    }
}

/// The pointer of a reference value.
pub open spec fn ref_of(v: Val) -> Option<Op> {
    match v {
        Val::Str(p) | Val::Obj(p) | Val::Arr(p) | Val::VecP(p) | Val::Fun(p) | Val::Reg(p)
        | Val::Dat(p) | Val::Sock(p) | Val::Ns(p) => Some(p),
        _ => None,
    }
}

/// The tag of a non-null reference value.
pub open spec fn ref_tag_of(v: Val) -> u32 {
    match v {
        Val::Str(_) => TAG_STRING,
        Val::Obj(_) => TAG_OBJECT,
        Val::Arr(_) => TAG_ARRAY,
        Val::Fun(_) => TAG_FUNCTION,
        Val::Reg(_) => TAG_REGEXP,
        Val::Dat(_) => TAG_DATE,
        Val::Sock(_) => TAG_SOCKET,
        Val::Ns(_) => TAG_NAMESPACE,
        _ => TAG_VECTOR,
    }
}

/// The tag of a non-null reference value.
pub fn ref_tag(v: Val) -> (r: u32)
    ensures
        r == ref_tag_of(v),
{
    match v {
        Val::Str(_) => TAG_STRING,
        Val::Obj(_) => TAG_OBJECT,
        Val::Arr(_) => TAG_ARRAY,
        Val::Fun(_) => TAG_FUNCTION,
        Val::Reg(_) => TAG_REGEXP,
        Val::Dat(_) => TAG_DATE,
        Val::Sock(_) => TAG_SOCKET,
        Val::Ns(_) => TAG_NAMESPACE,
        _ => TAG_VECTOR,
    }
}

pub open spec fn ptr(p: Op) -> (LTy, Op) {
    (LTy::Ptr, p)
}

pub open spec fn i32v(v: u32) -> (LTy, Op) {
    (LTy::I32, Op::I32(v))
}

// --- calls of runtime functions ---------------------------------------------

impl<'a> St<'a> {
    pub open spec fn arg(self, a: (LTy, Op)) -> St<'a> {
        self.push(Cmd::Arg(a.0, a.1))
    }

    pub open spec fn rt0(self, name: &'static str, ret: Option<LTy>) -> (St<'a>, Op) {
        self.val(Cmd::CallRt(name, ret))
    }

    pub open spec fn rt1(self, name: &'static str, ret: Option<LTy>, a: (LTy, Op)) -> (St<'a>, Op) {
        self.arg(a).val(Cmd::CallRt(name, ret))
    }

    pub open spec fn rt2(
        self,
        name: &'static str,
        ret: Option<LTy>,
        a: (LTy, Op),
        b: (LTy, Op),
    ) -> (St<'a>, Op) {
        self.arg(a).arg(b).val(Cmd::CallRt(name, ret))
    }

    pub open spec fn rt3(
        self,
        name: &'static str,
        ret: Option<LTy>,
        a: (LTy, Op),
        b: (LTy, Op),
        c: (LTy, Op),
    ) -> (St<'a>, Op) {
        self.arg(a).arg(b).arg(c).val(Cmd::CallRt(name, ret))
    }

    pub open spec fn rt4(
        self,
        name: &'static str,
        ret: Option<LTy>,
        a: (LTy, Op),
        b: (LTy, Op),
        c: (LTy, Op),
        d: (LTy, Op),
    ) -> (St<'a>, Op) {
        self.arg(a).arg(b).arg(c).arg(d).val(Cmd::CallRt(name, ret))
    }

    pub open spec fn rt5(
        self,
        name: &'static str,
        ret: Option<LTy>,
        a: (LTy, Op),
        b: (LTy, Op),
        c: (LTy, Op),
        d: (LTy, Op),
        e: (LTy, Op),
    ) -> (St<'a>, Op) {
        self.arg(a).arg(b).arg(c).arg(d).arg(e).val(Cmd::CallRt(name, ret))
    }
}

pub open spec fn nonzero(st: St, v: Op) -> (St, Op) {
    st.val(Cmd::ICmp(IntPred::NE, v, Op::I32(0)))
}

// --- storage -----------------------------------------------------------------

/// The storage type; `void` is an impossible operand.
pub open spec fn basic_ty(st: St, ty: Ty) -> (St, LTy) {
    match storage_of(ty) {
        Some(t) => (st, t),
        None => (st.fail(), LTy::I1),
    }
}

/// The operand that a value is stored, passed and returned as.
pub open spec fn materialize(st: St, v: Val) -> (St, Op) {
    match v {
        Val::Int(x) | Val::UInt(x) | Val::Bool(x) | Val::Num(x) => (st, x),
        Val::Any(p) => st.val(Cmd::Load(LTy::Any, p)),
        Val::Void => (st.fail(), Op::Null),
        _ => (st, ref_of(v)->0),
    }
}

/// A value of type `ty` from its stored form.
pub open spec fn wrap_basic(st: St, x: Op, ty: Ty) -> (St, Val) {
    match ty {
        Ty::Int => (st, Val::Int(x)),
        Ty::UInt => (st, Val::UInt(x)),
        Ty::Number => (st, Val::Num(x)),
        Ty::Boolean => (st, Val::Bool(x)),
        Ty::String => (st, Val::Str(x)),
        Ty::Object(_) | Ty::Iface(_) => (st, Val::Obj(x)),
        Ty::Array => (st, Val::Arr(x)),
        Ty::Vector(_) => (st, Val::VecP(x)),
        Ty::Function => (st, Val::Fun(x)),
        Ty::RegExp => (st, Val::Reg(x)),
        Ty::Date => (st, Val::Dat(x)),
        Ty::Socket => (st, Val::Sock(x)),
        Ty::Namespace => (st, Val::Ns(x)),
        Ty::Any => {
            let (st, slot) = st.val(Cmd::Alloca(LTy::Any, 1));
            (st.push(Cmd::Store(slot, x)), Val::Any(slot))
        },
        Ty::Void => (st, Val::Void),
    }
}

/// The default constant of a type as stored; `void` has none.
pub open spec fn default_op_of(ty: Ty) -> Option<Op> {
    match ty {
        Ty::Int | Ty::UInt => Some(Op::I32(0)),
        Ty::Number => Some(Op::F64(F64_NAN)),
        Ty::Boolean => Some(Op::I1(false)),
        Ty::Any => Some(Op::Undefined),
        Ty::Void => None,
        _ => Some(Op::Null),
    }
}

/// The default constant of a type as stored; `void` has none.
pub fn default_op(ty: Ty) -> (r: Option<Op>)
    ensures
        r == default_op_of(ty),
{
    match ty {
        Ty::Int | Ty::UInt => Some(Op::I32(0)),
        Ty::Number => Some(Op::F64(F64_NAN)),
        Ty::Boolean => Some(Op::I1(false)),
        Ty::Any => Some(Op::Undefined),
        Ty::Void => None,
        _ => Some(Op::Null),
    }
}

/// The default of a type as a value.
pub open spec fn default_val(st: St, ty: Ty) -> (St, Val) {
    match default_op_of(ty) {
        Some(x) => wrap_basic(st, x, ty),
        None => (st, Val::Void),
    }
}

// --- boxing ------------------------------------------------------------------

pub open spec fn fill_box(st: St, slot: Op, tag: Op, payload: Op) -> (St, Op) {
    let (st, tag_p) = st.val(Cmd::BoxField(slot, 0));
    let st = st.push(Cmd::Store(tag_p, tag));
    let (st, data_p) = st.val(Cmd::BoxField(slot, 1));
    (st.push(Cmd::Store(data_p, payload)), slot)
}

/// The address of a box that holds `v`. A null reference boxes as the null
/// value, whatever its kind.
#[verifier::opaque]
pub open spec fn box_value(st: St, v: Val) -> (St, Op) {
    match v {
        Val::Any(p) => (st, p),
        Val::Void => (st.fail(), Op::Null),
        Val::Int(i) => {
            let (st, slot) = st.val(Cmd::Alloca(LTy::Any, 1));
            let (st, x) = st.val(Cmd::Cast(Cast::SExt64, i));
            fill_box(st, slot, Op::I32(TAG_INT), x)
        },
        Val::UInt(i) => {
            let (st, slot) = st.val(Cmd::Alloca(LTy::Any, 1));
            let (st, x) = st.val(Cmd::Cast(Cast::ZExt64, i));
            fill_box(st, slot, Op::I32(TAG_UINT), x)
        },
        Val::Num(f) => {
            let (st, slot) = st.val(Cmd::Alloca(LTy::Any, 1));
            let (st, x) = st.val(Cmd::Cast(Cast::Bits, f));
            fill_box(st, slot, Op::I32(TAG_NUMBER), x)
        },
        Val::Bool(b) => {
            let (st, slot) = st.val(Cmd::Alloca(LTy::Any, 1));
            let (st, x) = st.val(Cmd::Cast(Cast::ZExt64, b));
            fill_box(st, slot, Op::I32(TAG_BOOLEAN), x)
        },
        _ => {
            let p = ref_of(v)->0;
            let (st, slot) = st.val(Cmd::Alloca(LTy::Any, 1));
            let (st, is_null) = st.val(Cmd::IsNull(p));
            let (st, tag) = st.val(
                Cmd::Select(is_null, Op::I32(TAG_NULL), Op::I32(ref_tag_of(v))),
            );
            let (st, x) = st.val(Cmd::Cast(Cast::PtrToI64, p));
            fill_box(st, slot, tag, x)
        },
    }
}

// --- conversions -------------------------------------------------------------

pub open spec fn any_to_number(st: St, p: Op) -> (St, Op) {
    st.rt1("vs_any_to_number", Some(LTy::F64), ptr(p))
}

/// ToInt32 (`signed`) or ToUint32. A double strictly between the two bounds
/// truncates inline; every other one, NaN included, goes to the runtime.
#[verifier::opaque]
pub open spec fn convert_num_to_int(st: St, f: Op, signed: bool) -> (St, Val) {
    let lo = if signed {
        F64_BELOW_I32
    } else {
        F64_MINUS_ONE
    };
    let hi = if signed {
        F64_2_31
    } else {
        F64_2_32
    };
    let (st, gt) = st.val(Cmd::FCmp(FloatPred::OGT, f, Op::F64(lo)));
    let (st, lt) = st.val(Cmd::FCmp(FloatPred::OLT, f, Op::F64(hi)));
    let (st, in_range) = st.val(Cmd::Int(crate::codegen::code::IntOp::And, gt, lt));
    let (st, fast_bb) = st.new_block();
    let (st, slow_bb) = st.new_block();
    let (st, end_bb) = st.new_block();
    let st = st.term(Cmd::CondBr(in_range, fast_bb, slow_bb)).at(fast_bb);
    let (st, fast) = st.val(
        Cmd::Cast(
            if signed {
                Cast::FpToSi
            } else {
                Cast::FpToUi
            },
            f,
        ),
    );
    let st = st.term(Cmd::Br(end_bb)).at(slow_bb);
    let (st, slow) = st.rt1(
        if signed {
            "vs_f64_to_int32"
        } else {
            "vs_f64_to_uint32"
        },
        Some(LTy::I32),
        (LTy::F64, f),
    );
    let st = st.term(Cmd::Br(end_bb)).at(end_bb);
    let (st, iv) = st.val(Cmd::Phi(LTy::I32, fast, fast_bb, slow, slow_bb));
    (
        st,
        if signed {
            Val::Int(iv)
        } else {
            Val::UInt(iv)
        },
    )
}

/// The double of a statically numeric value.
pub open spec fn numeric_of(st: St, v: Val) -> (St, Option<Op>) {
    match v {
        Val::Num(f) => (st, Some(f)),
        Val::Int(i) => {
            let (st, f) = st.val(Cmd::Cast(Cast::SiToFp, i));
            (st, Some(f))
        },
        Val::UInt(i) => {
            let (st, f) = st.val(Cmd::Cast(Cast::UiToFp, i));
            (st, Some(f))
        },
        _ => (st, None),
    }
}

/// A string of the compiler as a runtime string.
pub open spec fn lit_string<'a>(st: St<'a>, text: &'static str, len: u32) -> (St<'a>, Op) {
    let (st, g) = st.val(Cmd::Lit(text));
    st.rt2("vs_string_from_utf8", Some(LTy::Ptr), ptr(g), i32v(len))
}

/// ToString of every kind of value.
#[verifier::opaque]
pub open spec fn stringify(st: St, v: Val) -> (St, Op) {
    match v {
        Val::Str(p) => (st, p),
        Val::Obj(p) => st.rt1("vs_object_to_string", Some(LTy::Ptr), ptr(p)),
        Val::Arr(p) => st.rt1("vs_arr_to_string", Some(LTy::Ptr), ptr(p)),
        Val::VecP(p) => st.rt1("vs_vec_to_string", Some(LTy::Ptr), ptr(p)),
        Val::Reg(p) => st.rt1("vs_regexp_display", Some(LTy::Ptr), ptr(p)),
        Val::Ns(p) => st.rt1("vs_namespace_uri", Some(LTy::Ptr), ptr(p)),
        Val::Sock(_) => lit_string(st, "[object Socket]", 15),
        Val::Fun(_) => lit_string(st, "function Function() {}", 22),
        Val::Dat(p) => st.rt2("vs_date_to_string", Some(LTy::Ptr), ptr(p), i32v(0)),
        Val::Num(f) => st.rt1("vs_num_to_string", Some(LTy::Ptr), (LTy::F64, f)),
        Val::Int(_) | Val::UInt(_) => {
            let (st, f) = numeric_of(st, v);
            st.rt1("vs_num_to_string", Some(LTy::Ptr), (LTy::F64, f->0))
        },
        Val::Bool(b) => {
            let (st, z) = st.val(Cmd::Cast(Cast::ZExt32, b));
            st.rt1("vs_bool_to_string", Some(LTy::Ptr), (LTy::I32, z))
        },
        Val::Any(p) => st.rt1("vs_any_to_string", Some(LTy::Ptr), ptr(p)),
        Val::Void => (st.fail(), Op::Null),
    }
}

/// Truthiness of every kind of value, as an `i1`.
#[verifier::opaque]
pub open spec fn truthy(st: St, v: Val) -> (St, Op) {
    match v {
        Val::Bool(b) => (st, b),
        Val::Int(i) | Val::UInt(i) => nonzero(st, i),
        // ONE is false for NaN and for both zeros.
        Val::Num(f) => st.val(Cmd::FCmp(FloatPred::ONE, f, Op::F64(F64_ZERO))),
        Val::Str(_) | Val::Any(_) => {
            let (st, p) = box_value(st, v);
            let (st, r) = st.rt1("vs_any_truthy", Some(LTy::I32), ptr(p));
            nonzero(st, r)
        },
        Val::Void => (st.fail(), Op::Null),
        _ => st.val(Cmd::IsNotNull(ref_of(v)->0)),
    }
}

/// A value of type `ty` out of the box at `p`.
#[verifier::opaque]
pub open spec fn unbox(st: St, p: Op, ty: Ty) -> (St, Val) {

    match ty {
        Ty::Any => (st, Val::Any(p)),
        Ty::Int | Ty::UInt => {
            let (st, n) = any_to_number(st, p);
            convert_num_to_int(st, n, ty == Ty::Int)
        },
        Ty::Number => {
            let (st, n) = any_to_number(st, p);
            (st, Val::Num(n))
        },
        Ty::Boolean => {
            let (st, b) = truthy(st, Val::Any(p));
            (st, Val::Bool(b))
        },
        Ty::String => {
            let (st, s) = st.rt1("vs_any_coerce_string", Some(LTy::Ptr), ptr(p));
            (st, Val::Str(s))
        },
        Ty::Object(class) => {
            let (st, o) = st.rt2("vs_any_coerce_class", Some(LTy::Ptr), ptr(p), ptr(Op::Rtti(class)));
            (st, Val::Obj(o))
        },
        Ty::Iface(iface) => {
            let (st, o) = st.rt2("vs_any_coerce_iface", Some(LTy::Ptr), ptr(p), i32v(iface));
            (st, Val::Obj(o))
        },
        Ty::Array => {
            let (st, a) = st.rt1("vs_any_coerce_array", Some(LTy::Ptr), ptr(p));
            (st, Val::Arr(a))
        },
        Ty::Vector(inst) => {
            let (st, a) = st.rt2("vs_any_coerce_vector", Some(LTy::Ptr), ptr(p), i32v(inst));
            (st, Val::VecP(a))
        },
        Ty::Namespace => {
            let (st, n) = st.rt2("vs_any_as_ptr", Some(LTy::Ptr), ptr(p), i32v(TAG_NAMESPACE));
            (st, Val::Ns(n))
        },
        Ty::Socket => {
            let (st, s) = st.rt1("vs_any_to_socket", Some(LTy::Ptr), ptr(p));
            (st, Val::Sock(s))
        },
        Ty::Date => {
            let (st, d) = st.rt1("vs_any_to_date", Some(LTy::Ptr), ptr(p));
            (st, Val::Dat(d))
        },
        Ty::RegExp => {
            let (st, r) = st.rt1("vs_any_to_regexp", Some(LTy::Ptr), ptr(p));
            (st, Val::Reg(r))
        },
        Ty::Function => {
            let (st, f) = st.rt1("vs_any_coerce_function", Some(LTy::Ptr), ptr(p));
            (st, Val::Fun(f))
        },
        Ty::Void => (st, Val::Void),
    }
}

impl<'a> FnCx<'a> {
    pub fn arg(&mut self, a: (LTy, Op))
        ensures
            final(self).env() == old(self).env(),
            final(self).st() == old(self).st().arg(a),
            step(
                old(self).st(),
                final(self).st(),
                has(old(self).st(), a.1),
                true,
            ),
    {
        self.emit(Cmd::Arg(a.0, a.1));
    }

    pub fn rt0(&mut self, name: &'static str, ret: Option<LTy>) -> (r: Op)
        ensures
            final(self).env() == old(self).env(),
            (final(self).st(), r) == old(self).st().rt0(name, ret),
            step(
                old(self).st(),
                final(self).st(),
                true,
                ret is Some ==> has(final(self).st(), r),
            ),
    {
        self.val(Cmd::CallRt(name, ret))
    }

    pub fn rt1(&mut self, name: &'static str, ret: Option<LTy>, a: (LTy, Op)) -> (r: Op)
        ensures
            final(self).env() == old(self).env(),
            (final(self).st(), r) == old(self).st().rt1(name, ret, a),
            step(
                old(self).st(),
                final(self).st(),
                has(old(self).st(), a.1),
                ret is Some ==> has(final(self).st(), r),
            ),
    {
        self.arg(a);
        self.val(Cmd::CallRt(name, ret))
    }

    pub fn rt2(&mut self, name: &'static str, ret: Option<LTy>, a: (LTy, Op), b: (LTy, Op)) -> (r:
        Op)
        ensures
            final(self).env() == old(self).env(),
            (final(self).st(), r) == old(self).st().rt2(name, ret, a, b),
            step(
                old(self).st(),
                final(self).st(),
                has(old(self).st(), a.1) && has(old(self).st(), b.1),
                ret is Some ==> has(final(self).st(), r),
            ),
    {
        self.arg(a);
        self.arg(b);
        self.val(Cmd::CallRt(name, ret))
    }

    pub fn rt3(
        &mut self,
        name: &'static str,
        ret: Option<LTy>,
        a: (LTy, Op),
        b: (LTy, Op),
        c: (LTy, Op),
    ) -> (r: Op)
        ensures
            final(self).env() == old(self).env(),
            (final(self).st(), r) == old(self).st().rt3(name, ret, a, b, c),
            step(
                old(self).st(),
                final(self).st(),
                has(old(self).st(), a.1) && has(old(self).st(), b.1) && has(old(self).st(), c.1),
                ret is Some ==> has(final(self).st(), r),
            ),
    {
        self.arg(a);
        self.arg(b);
        self.arg(c);
        self.val(Cmd::CallRt(name, ret))
    }

    pub fn rt4(
        &mut self,
        name: &'static str,
        ret: Option<LTy>,
        a: (LTy, Op),
        b: (LTy, Op),
        c: (LTy, Op),
        d: (LTy, Op),
    ) -> (r: Op)
        ensures
            final(self).env() == old(self).env(),
            (final(self).st(), r) == old(self).st().rt4(name, ret, a, b, c, d),
            step(
                old(self).st(),
                final(self).st(),
                has(old(self).st(), a.1) && has(old(self).st(), b.1) && has(old(self).st(), c.1) && has(old(self).st(), d.1),
                ret is Some ==> has(final(self).st(), r),
            ),
    {
        self.arg(a);
        self.arg(b);
        self.arg(c);
        self.arg(d);
        self.val(Cmd::CallRt(name, ret))
    }

    pub fn rt5(
        &mut self,
        name: &'static str,
        ret: Option<LTy>,
        a: (LTy, Op),
        b: (LTy, Op),
        c: (LTy, Op),
        d: (LTy, Op),
        e: (LTy, Op),
    ) -> (r: Op)
        ensures
            final(self).env() == old(self).env(),
            (final(self).st(), r) == old(self).st().rt5(name, ret, a, b, c, d, e),
            step(
                old(self).st(),
                final(self).st(),
                has(old(self).st(), a.1) && has(old(self).st(), b.1) && has(old(self).st(), c.1) && has(old(self).st(), d.1) && has(old(self).st(), e.1),
                ret is Some ==> has(final(self).st(), r),
            ),
    {
        self.arg(a);
        self.arg(b);
        self.arg(c);
        self.arg(d);
        self.arg(e);
        self.val(Cmd::CallRt(name, ret))
    }

    pub fn nonzero(&mut self, v: Op) -> (r: Op)
        ensures
            final(self).env() == old(self).env(),
            (final(self).st(), r) == nonzero(old(self).st(), v),
            step(
                old(self).st(),
                final(self).st(),
                has(old(self).st(), v),
                has(final(self).st(), r),
            ),
    {
        self.val(Cmd::ICmp(IntPred::NE, v, Op::I32(0)))
    }

    pub fn basic_ty(&mut self, ty: Ty) -> (r: LTy)
        ensures
            final(self).env() == old(self).env(),
            (final(self).st(), r) == basic_ty(old(self).st(), ty),
            step(
                old(self).st(),
                final(self).st(),
                true,
                true,
            ),
    {
        match storage(ty) {
            Some(t) => t,
            None => {
                self.fail();
                LTy::I1
            },
        }
    }

    pub fn materialize(&mut self, v: Val) -> (r: Op)
        ensures
            final(self).env() == old(self).env(),
            (final(self).st(), r) == materialize(old(self).st(), v),
            step(
                old(self).st(),
                final(self).st(),
                has_val(old(self).st(), v),
                has(final(self).st(), r),
            ),
    {
        match v {
            Val::Int(x) | Val::UInt(x) | Val::Bool(x) | Val::Num(x) => x,
            Val::Any(p) => self.val(Cmd::Load(LTy::Any, p)),
            Val::Str(p) | Val::Obj(p) | Val::Arr(p) | Val::VecP(p) | Val::Fun(p) | Val::Reg(p)
            | Val::Dat(p) | Val::Sock(p) | Val::Ns(p) => p,
            Val::Void => {
                self.fail();
                Op::Null
            },
        }
    }

    pub fn wrap_basic(&mut self, x: Op, ty: Ty) -> (r: Val)
        ensures
            final(self).env() == old(self).env(),
            (final(self).st(), r) == wrap_basic(old(self).st(), x, ty),
            step(
                old(self).st(),
                final(self).st(),
                has(old(self).st(), x),
                has_val(final(self).st(), r),
            ),
    {
        match ty {
            Ty::Int => Val::Int(x),
            Ty::UInt => Val::UInt(x),
            Ty::Number => Val::Num(x),
            Ty::Boolean => Val::Bool(x),
            Ty::String => Val::Str(x),
            Ty::Object(_) | Ty::Iface(_) => Val::Obj(x),
            Ty::Array => Val::Arr(x),
            Ty::Vector(_) => Val::VecP(x),
            Ty::Function => Val::Fun(x),
            Ty::RegExp => Val::Reg(x),
            Ty::Date => Val::Dat(x),
            Ty::Socket => Val::Sock(x),
            Ty::Namespace => Val::Ns(x),
            Ty::Any => {
                let slot = self.val(Cmd::Alloca(LTy::Any, 1));
                self.emit(Cmd::Store(slot, x));
                Val::Any(slot)
            },
            Ty::Void => Val::Void,
        }
    }

    pub fn default_val(&mut self, ty: Ty) -> (r: Val)
        ensures
            final(self).env() == old(self).env(),
            (final(self).st(), r) == default_val(old(self).st(), ty),
            step(
                old(self).st(),
                final(self).st(),
                true,
                has_val(final(self).st(), r),
            ),
    {
        match default_op(ty) {
            Some(x) => self.wrap_basic(x, ty),
            None => Val::Void,
        }
    }

    fn fill_box(&mut self, slot: Op, tag: Op, payload: Op) -> (r: Op)
        ensures
            final(self).env() == old(self).env(),
            (final(self).st(), r) == fill_box(old(self).st(), slot, tag, payload),
            step(
                old(self).st(),
                final(self).st(),
                has(old(self).st(), slot) && has(old(self).st(), tag) && has(old(self).st(), payload),
                has(final(self).st(), r),
            ),
    {
        let tag_p = self.val(Cmd::BoxField(slot, 0));
        self.emit(Cmd::Store(tag_p, tag));
        let data_p = self.val(Cmd::BoxField(slot, 1));
        self.emit(Cmd::Store(data_p, payload));
        slot
    }

    /// Boxes a value into a fresh box; a boxed value stays where it is.
    pub fn box_value(&mut self, v: Val) -> (r: Op)
        ensures
            final(self).env() == old(self).env(),
            (final(self).st(), r) == box_value(old(self).st(), v),
            step(
                old(self).st(),
                final(self).st(),
                has_val(old(self).st(), v),
                has(final(self).st(), r),
            ),
    {
        reveal(box_value);
        if let Val::Any(p) = v {
            return p;
        }
        if let Val::Void = v {
            self.fail();
            return Op::Null;
        }
        let slot = self.val(Cmd::Alloca(LTy::Any, 1));
        match v {
            Val::Int(i) => {
                let x = self.val(Cmd::Cast(Cast::SExt64, i));
                self.fill_box(slot, Op::I32(TAG_INT), x)
            },
            Val::UInt(i) => {
                let x = self.val(Cmd::Cast(Cast::ZExt64, i));
                self.fill_box(slot, Op::I32(TAG_UINT), x)
            },
            Val::Num(f) => {
                let x = self.val(Cmd::Cast(Cast::Bits, f));
                self.fill_box(slot, Op::I32(TAG_NUMBER), x)
            },
            Val::Bool(b) => {
                let x = self.val(Cmd::Cast(Cast::ZExt64, b));
                self.fill_box(slot, Op::I32(TAG_BOOLEAN), x)
            },
            Val::Str(p) | Val::Obj(p) | Val::Arr(p) | Val::VecP(p) | Val::Fun(p) | Val::Reg(p)
            | Val::Dat(p) | Val::Sock(p) | Val::Ns(p) => {
                let is_null = self.val(Cmd::IsNull(p));
                let tag = self.val(
                    Cmd::Select(is_null, Op::I32(TAG_NULL), Op::I32(ref_tag(v))),
                );
                let x = self.val(Cmd::Cast(Cast::PtrToI64, p));
                self.fill_box(slot, tag, x)
            },
            Val::Any(_) | Val::Void => slot,
        }
    }

    pub fn any_to_number(&mut self, p: Op) -> (r: Op)
        ensures
            final(self).env() == old(self).env(),
            (final(self).st(), r) == any_to_number(old(self).st(), p),
            step(
                old(self).st(),
                final(self).st(),
                has(old(self).st(), p),
                has(final(self).st(), r),
            ),
    {
        self.rt1("vs_any_to_number", Some(LTy::F64), (LTy::Ptr, p))
    }

    pub fn convert_num_to_int(&mut self, f: Op, signed: bool) -> (r: Val)
        ensures
            final(self).env() == old(self).env(),
            (final(self).st(), r) == convert_num_to_int(old(self).st(), f, signed),
            step(
                old(self).st(),
                final(self).st(),
                has(old(self).st(), f),
                has_val(final(self).st(), r),
            ),
    {
        reveal(convert_num_to_int);
        let (name, lo, hi): (&'static str, u64, u64) = if signed {
            ("vs_f64_to_int32", F64_BELOW_I32, F64_2_31)
        } else {
            ("vs_f64_to_uint32", F64_MINUS_ONE, F64_2_32)
        };
        let gt = self.val(Cmd::FCmp(FloatPred::OGT, f, Op::F64(lo)));
        let lt = self.val(Cmd::FCmp(FloatPred::OLT, f, Op::F64(hi)));
        let in_range = self.val(Cmd::Int(crate::codegen::code::IntOp::And, gt, lt));
        let fast_bb: usize = self.new_block();
        let slow_bb: usize = self.new_block();
        let end_bb: usize = self.new_block();
        self.term(Cmd::CondBr(in_range, fast_bb, slow_bb));
        self.at(fast_bb);
        let fast = self.val(
            Cmd::Cast(
                if signed {
                    Cast::FpToSi
                } else {
                    Cast::FpToUi
                },
                f,
            ),
        );
        self.term(Cmd::Br(end_bb));
        self.at(slow_bb);
        let slow = self.rt1(name, Some(LTy::I32), (LTy::F64, f));
        self.term(Cmd::Br(end_bb));
        self.at(end_bb);
        let iv = self.val(Cmd::Phi(LTy::I32, fast, fast_bb, slow, slow_bb));
        if signed {
            Val::Int(iv)
        } else {
            Val::UInt(iv)
        }
    }

    pub fn numeric_of(&mut self, v: Val) -> (r: Option<Op>)
        ensures
            final(self).env() == old(self).env(),
            (final(self).st(), r) == numeric_of(old(self).st(), v),
            step(
                old(self).st(),
                final(self).st(),
                has_val(old(self).st(), v),
                (r matches Some(x) ==> has(final(self).st(), x)),
            ),
    {
        match v {
            Val::Num(f) => Some(f),
            Val::Int(i) => Some(self.val(Cmd::Cast(Cast::SiToFp, i))),
            Val::UInt(i) => Some(self.val(Cmd::Cast(Cast::UiToFp, i))),
            _ => None,
        }
    }

    fn lit_string(&mut self, text: &'static str, len: u32) -> (r: Op)
        ensures
            final(self).env() == old(self).env(),
            (final(self).st(), r) == lit_string(old(self).st(), text, len),
            step(
                old(self).st(),
                final(self).st(),
                true,
                has(final(self).st(), r),
            ),
    {
        let g = self.val(Cmd::Lit(text));
        self.rt2("vs_string_from_utf8", Some(LTy::Ptr), (LTy::Ptr, g), (LTy::I32, Op::I32(len)))
    }

    pub fn stringify(&mut self, v: Val) -> (r: Op)
        ensures
            final(self).env() == old(self).env(),
            (final(self).st(), r) == stringify(old(self).st(), v),
            step(
                old(self).st(),
                final(self).st(),
                has_val(old(self).st(), v),
                has(final(self).st(), r),
            ),
    {
        reveal(stringify);
        match v {
            Val::Str(p) => p,
            Val::Obj(p) => self.rt1("vs_object_to_string", Some(LTy::Ptr), (LTy::Ptr, p)),
            Val::Arr(p) => self.rt1("vs_arr_to_string", Some(LTy::Ptr), (LTy::Ptr, p)),
            Val::VecP(p) => self.rt1("vs_vec_to_string", Some(LTy::Ptr), (LTy::Ptr, p)),
            Val::Reg(p) => self.rt1("vs_regexp_display", Some(LTy::Ptr), (LTy::Ptr, p)),
            Val::Ns(p) => self.rt1("vs_namespace_uri", Some(LTy::Ptr), (LTy::Ptr, p)),
            Val::Sock(_) => self.lit_string("[object Socket]", 15),
            Val::Fun(_) => self.lit_string("function Function() {}", 22),
            Val::Dat(p) => self.rt2(
                "vs_date_to_string",
                Some(LTy::Ptr),
                (LTy::Ptr, p),
                (LTy::I32, Op::I32(0)),
            ),
            Val::Num(f) => self.rt1("vs_num_to_string", Some(LTy::Ptr), (LTy::F64, f)),
            Val::Int(i) => {
                let f = self.val(Cmd::Cast(Cast::SiToFp, i));
                self.rt1("vs_num_to_string", Some(LTy::Ptr), (LTy::F64, f))
            },
            Val::UInt(i) => {
                let f = self.val(Cmd::Cast(Cast::UiToFp, i));
                self.rt1("vs_num_to_string", Some(LTy::Ptr), (LTy::F64, f))
            },
            Val::Bool(b) => {
                let z = self.val(Cmd::Cast(Cast::ZExt32, b));
                self.rt1("vs_bool_to_string", Some(LTy::Ptr), (LTy::I32, z))
            },
            Val::Any(p) => self.rt1("vs_any_to_string", Some(LTy::Ptr), (LTy::Ptr, p)),
            Val::Void => {
                self.fail();
                Op::Null
            },
        }
    }

    pub fn truthy(&mut self, v: Val) -> (r: Op)
        ensures
            final(self).env() == old(self).env(),
            (final(self).st(), r) == truthy(old(self).st(), v),
            step(
                old(self).st(),
                final(self).st(),
                has_val(old(self).st(), v),
                has(final(self).st(), r),
            ),
    {
        reveal(truthy);
        match v {
            Val::Bool(b) => b,
            Val::Int(i) | Val::UInt(i) => self.nonzero(i),
            Val::Num(f) => self.val(Cmd::FCmp(FloatPred::ONE, f, Op::F64(F64_ZERO))),
            Val::Str(_) | Val::Any(_) => {
                let p = self.box_value(v);
                let r = self.rt1("vs_any_truthy", Some(LTy::I32), (LTy::Ptr, p));
                self.nonzero(r)
            },
            Val::Void => {
                self.fail();
                Op::Null
            },
            Val::Obj(p) | Val::Arr(p) | Val::VecP(p) | Val::Fun(p) | Val::Reg(p) | Val::Dat(p)
            | Val::Sock(p) | Val::Ns(p) => self.val(Cmd::IsNotNull(p)),
        }
    }

    /// Takes a value of type `ty` out of the box at `p`.
    pub fn unbox_any_ptr(&mut self, p: Op, ty: Ty) -> (r: Val)
        ensures
            final(self).env() == old(self).env(),
            (final(self).st(), r) == unbox(old(self).st(), p, ty),
            step(
                old(self).st(),
                final(self).st(),
                has(old(self).st(), p),
                has_val(final(self).st(), r),
            ),
    {
        reveal(unbox);
        let a = (LTy::Ptr, p);
        match ty {
            Ty::Any => Val::Any(p),
            Ty::Int | Ty::UInt => {
                let n = self.any_to_number(p);
                self.convert_num_to_int(n, ty == Ty::Int)
            },
            Ty::Number => Val::Num(self.any_to_number(p)),
            Ty::Boolean => Val::Bool(self.truthy(Val::Any(p))),
            Ty::String => Val::Str(self.rt1("vs_any_coerce_string", Some(LTy::Ptr), a)),
            Ty::Object(class) => Val::Obj(
                self.rt2("vs_any_coerce_class", Some(LTy::Ptr), a, (LTy::Ptr, Op::Rtti(class))),
            ),
            Ty::Iface(iface) => Val::Obj(
                self.rt2("vs_any_coerce_iface", Some(LTy::Ptr), a, (LTy::I32, Op::I32(iface))),
            ),
            Ty::Array => Val::Arr(self.rt1("vs_any_coerce_array", Some(LTy::Ptr), a)),
            Ty::Vector(inst) => Val::VecP(
                self.rt2("vs_any_coerce_vector", Some(LTy::Ptr), a, (LTy::I32, Op::I32(inst))),
            ),
            Ty::Namespace => Val::Ns(
                self.rt2("vs_any_as_ptr", Some(LTy::Ptr), a, (LTy::I32, Op::I32(TAG_NAMESPACE))),
            ),
            Ty::Socket => Val::Sock(self.rt1("vs_any_to_socket", Some(LTy::Ptr), a)),
            Ty::Date => Val::Dat(self.rt1("vs_any_to_date", Some(LTy::Ptr), a)),
            Ty::RegExp => Val::Reg(self.rt1("vs_any_to_regexp", Some(LTy::Ptr), a)),
            Ty::Function => Val::Fun(self.rt1("vs_any_coerce_function", Some(LTy::Ptr), a)),
            Ty::Void => Val::Void,
        }
    }
}

} // verus!
