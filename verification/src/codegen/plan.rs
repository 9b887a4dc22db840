//! Calls of runtime functions that follow one pattern: evaluate up to two
//! operands, call, and take the result as a value.

use vstd::prelude::*;

use crate::codegen::code::{FnCx, LTy, Op, St, Val};
use crate::codegen::ops::{int_operand, to_num};
use crate::codegen::value::{box_value, nonzero, stringify};
use crate::mir::{Builtin, NativeFn};
use crate::codegen::sound::{group_sound, has, has_opt, has_val, step};

verus! {

broadcast use group_sound;

/// How an operand is passed.
#[derive(Clone, Copy, Debug, PartialEq, Eq, Structural)]
pub enum Kind {
    /// No operand.
    Absent,
    /// As a double.
    Num,
    /// As a string.
    Str,
    /// As a 32-bit integer.
    Int,
    /// As the address of a box.
    Any,
}

/// What a result is taken as.
#[derive(Clone, Copy, Debug, PartialEq, Eq, Structural)]
pub enum Ret {
    Void,
    Num,
    Str,
    Arr,
    Sock,
    /// An `i32` that is true if it is not zero.
    Bool,
}

#[derive(Clone, Copy, Debug)]
pub struct Plan {
    pub name: &'static str,
    pub a: Kind,
    pub b: Kind,
    pub ret: Ret,
}

pub open spec fn plan(name: &'static str, a: Kind, b: Kind, ret: Ret) -> Plan {
    Plan { name, a, b, ret }
}

/// The native functions that follow the pattern.
pub open spec fn native_plan_of(nf: NativeFn) -> Option<Plan> {
    match nf {
        NativeFn::MathAbs => Some(plan("fabs", Kind::Num, Kind::Absent, Ret::Num)),
        NativeFn::MathCeil => Some(plan("ceil", Kind::Num, Kind::Absent, Ret::Num)),
        NativeFn::MathFloor => Some(plan("floor", Kind::Num, Kind::Absent, Ret::Num)),
        NativeFn::MathSqrt => Some(plan("sqrt", Kind::Num, Kind::Absent, Ret::Num)),
        NativeFn::MathExp => Some(plan("exp", Kind::Num, Kind::Absent, Ret::Num)),
        NativeFn::MathLog => Some(plan("log", Kind::Num, Kind::Absent, Ret::Num)),
        NativeFn::MathSin => Some(plan("sin", Kind::Num, Kind::Absent, Ret::Num)),
        NativeFn::MathCos => Some(plan("cos", Kind::Num, Kind::Absent, Ret::Num)),
        NativeFn::MathTan => Some(plan("tan", Kind::Num, Kind::Absent, Ret::Num)),
        NativeFn::MathAsin => Some(plan("asin", Kind::Num, Kind::Absent, Ret::Num)),
        NativeFn::MathAcos => Some(plan("acos", Kind::Num, Kind::Absent, Ret::Num)),
        NativeFn::MathAtan => Some(plan("atan", Kind::Num, Kind::Absent, Ret::Num)),
        NativeFn::MathPow => Some(plan("pow", Kind::Num, Kind::Num, Ret::Num)),
        NativeFn::MathAtan2 => Some(plan("atan2", Kind::Num, Kind::Num, Ret::Num)),
        NativeFn::MathRandom => Some(plan("vs_math_random", Kind::Absent, Kind::Absent, Ret::Num)),
        NativeFn::SystemArgs => Some(plan("vs_system_args", Kind::Absent, Kind::Absent, Ret::Arr)),
        NativeFn::SystemGc => Some(plan("vs_gc_collect", Kind::Absent, Kind::Absent, Ret::Void)),
        NativeFn::SystemGcLiveBytes => Some(
            plan("vs_gc_live_bytes", Kind::Absent, Kind::Absent, Ret::Num),
        ),
        NativeFn::SystemGetenv => Some(plan("vs_system_getenv", Kind::Str, Kind::Absent, Ret::Str)),
        NativeFn::SystemTime | NativeFn::DateNow => Some(
            plan("vs_system_time", Kind::Absent, Kind::Absent, Ret::Num),
        ),
        NativeFn::SystemReadLine => Some(
            plan("vs_system_read_line", Kind::Absent, Kind::Absent, Ret::Str),
        ),
        NativeFn::SocketConnect => Some(plan("vs_socket_connect", Kind::Str, Kind::Int, Ret::Sock)),
        NativeFn::ServerSocketBind => Some(
            plan("vs_socket_bind", Kind::Int, Kind::Absent, Ret::Sock),
        ),
        NativeFn::FileRead => Some(plan("vs_file_read", Kind::Str, Kind::Absent, Ret::Str)),
        NativeFn::FileWrite => Some(plan("vs_file_write", Kind::Str, Kind::Str, Ret::Bool)),
        NativeFn::FileRemove => Some(plan("vs_file_remove", Kind::Str, Kind::Absent, Ret::Bool)),
        NativeFn::FileMkdir => Some(plan("vs_file_mkdir", Kind::Str, Kind::Absent, Ret::Bool)),
        NativeFn::FileRmdir => Some(plan("vs_file_rmdir", Kind::Str, Kind::Absent, Ret::Bool)),
        NativeFn::FileIsDirectory => Some(
            plan("vs_file_is_directory", Kind::Str, Kind::Absent, Ret::Bool),
        ),
        NativeFn::FileExists => Some(plan("vs_file_exists", Kind::Str, Kind::Absent, Ret::Bool)),
        NativeFn::FileAppend => Some(plan("vs_file_append", Kind::Str, Kind::Str, Ret::Bool)),
        NativeFn::FileCopy => Some(plan("vs_file_copy", Kind::Str, Kind::Str, Ret::Bool)),
        NativeFn::FileRename => Some(plan("vs_file_rename", Kind::Str, Kind::Str, Ret::Bool)),
        NativeFn::FileList => Some(plan("vs_file_list", Kind::Str, Kind::Absent, Ret::Arr)),
        NativeFn::FileSize => Some(plan("vs_file_size", Kind::Str, Kind::Absent, Ret::Num)),
        NativeFn::FileMtime => Some(plan("vs_file_mtime", Kind::Str, Kind::Absent, Ret::Num)),
        NativeFn::JsonStringify => Some(
            plan("vs_json_stringify", Kind::Any, Kind::Absent, Ret::Str),
        ),
        _ => None,
    }
}

/// The builtin functions that follow the pattern.
pub open spec fn builtin_plan_of(b: Builtin) -> Option<Plan> {
    match b {
        Builtin::ParseInt => Some(plan("vs_parse_int", Kind::Str, Kind::Int, Ret::Num)),
        Builtin::ParseFloat => Some(plan("vs_parse_float", Kind::Str, Kind::Absent, Ret::Num)),
        Builtin::EncodeUriComponent => Some(
            plan("vs_encode_uri_component", Kind::Str, Kind::Absent, Ret::Str),
        ),
        Builtin::DecodeUriComponent => Some(
            plan("vs_decode_uri_component", Kind::Str, Kind::Absent, Ret::Str),
        ),
        Builtin::Escape => Some(plan("vs_escape", Kind::Str, Kind::Absent, Ret::Str)),
        Builtin::Unescape => Some(plan("vs_unescape", Kind::Str, Kind::Absent, Ret::Str)),
        _ => None,
    }
}

fn mk(name: &'static str, a: Kind, b: Kind, ret: Ret) -> (r: Option<Plan>)
    ensures
        r == Some(plan(name, a, b, ret)),
{
    Some(Plan { name, a, b, ret })
}

pub fn native_plan(nf: NativeFn) -> (r: Option<Plan>)
    ensures
        r == native_plan_of(nf),
{
    match nf {
        NativeFn::MathAbs => mk("fabs", Kind::Num, Kind::Absent, Ret::Num),
        NativeFn::MathCeil => mk("ceil", Kind::Num, Kind::Absent, Ret::Num),
        NativeFn::MathFloor => mk("floor", Kind::Num, Kind::Absent, Ret::Num),
        NativeFn::MathSqrt => mk("sqrt", Kind::Num, Kind::Absent, Ret::Num),
        NativeFn::MathExp => mk("exp", Kind::Num, Kind::Absent, Ret::Num),
        NativeFn::MathLog => mk("log", Kind::Num, Kind::Absent, Ret::Num),
        NativeFn::MathSin => mk("sin", Kind::Num, Kind::Absent, Ret::Num),
        NativeFn::MathCos => mk("cos", Kind::Num, Kind::Absent, Ret::Num),
        NativeFn::MathTan => mk("tan", Kind::Num, Kind::Absent, Ret::Num),
        NativeFn::MathAsin => mk("asin", Kind::Num, Kind::Absent, Ret::Num),
        NativeFn::MathAcos => mk("acos", Kind::Num, Kind::Absent, Ret::Num),
        NativeFn::MathAtan => mk("atan", Kind::Num, Kind::Absent, Ret::Num),
        NativeFn::MathPow => mk("pow", Kind::Num, Kind::Num, Ret::Num),
        NativeFn::MathAtan2 => mk("atan2", Kind::Num, Kind::Num, Ret::Num),
        NativeFn::MathRandom => mk("vs_math_random", Kind::Absent, Kind::Absent, Ret::Num),
        NativeFn::SystemArgs => mk("vs_system_args", Kind::Absent, Kind::Absent, Ret::Arr),
        NativeFn::SystemGc => mk("vs_gc_collect", Kind::Absent, Kind::Absent, Ret::Void),
        NativeFn::SystemGcLiveBytes => mk(
            "vs_gc_live_bytes",
            Kind::Absent,
            Kind::Absent,
            Ret::Num,
        ),
        NativeFn::SystemGetenv => mk("vs_system_getenv", Kind::Str, Kind::Absent, Ret::Str),
        NativeFn::SystemTime | NativeFn::DateNow => mk(
            "vs_system_time",
            Kind::Absent,
            Kind::Absent,
            Ret::Num,
        ),
        NativeFn::SystemReadLine => mk(
            "vs_system_read_line",
            Kind::Absent,
            Kind::Absent,
            Ret::Str,
        ),
        NativeFn::SocketConnect => mk("vs_socket_connect", Kind::Str, Kind::Int, Ret::Sock),
        NativeFn::ServerSocketBind => mk("vs_socket_bind", Kind::Int, Kind::Absent, Ret::Sock),
        NativeFn::FileRead => mk("vs_file_read", Kind::Str, Kind::Absent, Ret::Str),
        NativeFn::FileWrite => mk("vs_file_write", Kind::Str, Kind::Str, Ret::Bool),
        NativeFn::FileRemove => mk("vs_file_remove", Kind::Str, Kind::Absent, Ret::Bool),
        NativeFn::FileMkdir => mk("vs_file_mkdir", Kind::Str, Kind::Absent, Ret::Bool),
        NativeFn::FileRmdir => mk("vs_file_rmdir", Kind::Str, Kind::Absent, Ret::Bool),
        NativeFn::FileIsDirectory => mk(
            "vs_file_is_directory",
            Kind::Str,
            Kind::Absent,
            Ret::Bool,
        ),
        NativeFn::FileExists => mk("vs_file_exists", Kind::Str, Kind::Absent, Ret::Bool),
        NativeFn::FileAppend => mk("vs_file_append", Kind::Str, Kind::Str, Ret::Bool),
        NativeFn::FileCopy => mk("vs_file_copy", Kind::Str, Kind::Str, Ret::Bool),
        NativeFn::FileRename => mk("vs_file_rename", Kind::Str, Kind::Str, Ret::Bool),
        NativeFn::FileList => mk("vs_file_list", Kind::Str, Kind::Absent, Ret::Arr),
        NativeFn::FileSize => mk("vs_file_size", Kind::Str, Kind::Absent, Ret::Num),
        NativeFn::FileMtime => mk("vs_file_mtime", Kind::Str, Kind::Absent, Ret::Num),
        NativeFn::JsonStringify => mk("vs_json_stringify", Kind::Any, Kind::Absent, Ret::Str),
        _ => None,
    }
}

pub fn builtin_plan(b: Builtin) -> (r: Option<Plan>)
    ensures
        r == builtin_plan_of(b),
{
    match b {
        Builtin::ParseInt => mk("vs_parse_int", Kind::Str, Kind::Int, Ret::Num),
        Builtin::ParseFloat => mk("vs_parse_float", Kind::Str, Kind::Absent, Ret::Num),
        Builtin::EncodeUriComponent => mk(
            "vs_encode_uri_component",
            Kind::Str,
            Kind::Absent,
            Ret::Str,
        ),
        Builtin::DecodeUriComponent => mk(
            "vs_decode_uri_component",
            Kind::Str,
            Kind::Absent,
            Ret::Str,
        ),
        Builtin::Escape => mk("vs_escape", Kind::Str, Kind::Absent, Ret::Str),
        Builtin::Unescape => mk("vs_unescape", Kind::Str, Kind::Absent, Ret::Str),
        _ => None,
    }
}

/// The operand to pass for a computed value.
pub open spec fn operand(st: St, kind: Kind, v: Val) -> (St, (LTy, Op)) {
    match kind {
        Kind::Num => {
            let (st, x) = to_num(st, v);
            (st, (LTy::F64, x))
        },
        Kind::Str => {
            let (st, x) = stringify(st, v);
            (st, (LTy::Ptr, x))
        },
        Kind::Int => {
            let (st, x) = int_operand(st, v);
            (st, (LTy::I32, x))
        },
        Kind::Any | Kind::Absent => {
            let (st, x) = box_value(st, v);
            (st, (LTy::Ptr, x))
        },
    }
}

pub open spec fn ret_lty(ret: Ret) -> Option<LTy> {
    match ret {
        Ret::Void => None,
        Ret::Num => Some(LTy::F64),
        Ret::Bool => Some(LTy::I32),
        _ => Some(LTy::Ptr),
    }
}

pub open spec fn ret_val(st: St, ret: Ret, x: Op) -> (St, Val) {
    match ret {
        Ret::Void => (st, Val::Void),
        Ret::Num => (st, Val::Num(x)),
        Ret::Str => (st, Val::Str(x)),
        Ret::Arr => (st, Val::Arr(x)),
        Ret::Sock => (st, Val::Sock(x)),
        Ret::Bool => {
            let (st, b) = nonzero(st, x);
            (st, Val::Bool(b))
        },
    }
}

/// The call of a plan on its operands.
pub open spec fn plan_call(st: St, p: Plan, a: Option<(LTy, Op)>, b: Option<(LTy, Op)>) -> (St, Val) {
    let st = match a {
        Some(x) => st.arg(x),
        None => st,
    };
    let st = match b {
        Some(x) => st.arg(x),
        None => st,
    };
    let (st, r) = st.rt0(p.name, ret_lty(p.ret));
    ret_val(st, p.ret, r)
}

impl<'a> FnCx<'a> {
    pub fn operand(&mut self, kind: Kind, v: Val) -> (r: (LTy, Op))
        ensures
            final(self).env() == old(self).env(),
            (final(self).st(), r) == operand(old(self).st(), kind, v),
            step(
                old(self).st(),
                final(self).st(),
                has_val(old(self).st(), v),
                has(final(self).st(), r.1),
            ),
    {
        match kind {
            Kind::Num => (LTy::F64, self.to_num(v)),
            Kind::Str => (LTy::Ptr, self.stringify(v)),
            Kind::Int => (LTy::I32, self.int_operand(v)),
            Kind::Any | Kind::Absent => (LTy::Ptr, self.box_value(v)),
        }
    }

    pub fn plan_call(&mut self, p: Plan, a: Option<(LTy, Op)>, b: Option<(LTy, Op)>) -> (r: Val)
        ensures
            final(self).env() == old(self).env(),
            (final(self).st(), r) == plan_call(old(self).st(), p, a, b),
            step(
                old(self).st(),
                final(self).st(),
                has_opt(old(self).st(), a) && has_opt(old(self).st(), b),
                has_val(final(self).st(), r),
            ),
    {
        if let Some(x) = a {
            self.arg(x);
        }
        if let Some(x) = b {
            self.arg(x);
        }
        let ret = match p.ret {
            Ret::Void => None,
            Ret::Num => Some(LTy::F64),
            Ret::Bool => Some(LTy::I32),
            _ => Some(LTy::Ptr),
        };
        let x = self.rt0(p.name, ret);
        match p.ret {
            Ret::Void => Val::Void,
            Ret::Num => Val::Num(x),
            Ret::Str => Val::Str(x),
            Ret::Arr => Val::Arr(x),
            Ret::Sock => Val::Sock(x),
            Ret::Bool => Val::Bool(self.nonzero(x)),
        }
    }
}

} // verus!
