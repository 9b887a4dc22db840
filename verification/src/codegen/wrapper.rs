//! Wrappers: functions of the boxed calling convention that forward to a
//! compiled function, a method of the bound receiver, or a builtin.
//!
//! A wrapper has the parameters environment, receiver, argument count,
//! argument array and result address.

use vstd::prelude::*;

use crate::codegen::code::{Cmd, Env, FnCx, IntPred, LTy, Op, St, Val, WrapTarget};
use crate::codegen::function::{close_entry, fresh, top_env};
use crate::codegen::ops::int_operand;
use crate::codegen::plan::{builtin_plan, builtin_plan_of, plan_call};
use crate::codegen::scheme::{
    is_finite, is_nan, load_method, method_at, pass_vals,
};
use crate::codegen::value::{any_to_number, box_value, materialize, ptr, unbox, wrap_basic};
use crate::mir::{Builtin, FnId, Function, Program, Ty};
use crate::codegen::sound::{
    backward, balanced, group_sound, has, has_all, has_val, in_order, lemma_backward,
    lemma_balanced, lemma_in_order, step,
};

verus! {

broadcast use group_sound;

pub open spec fn env_param() -> Op {
    Op::Param(0)
}

pub open spec fn recv_param() -> Op {
    Op::Param(1)
}

pub open spec fn argc_param() -> Op {
    Op::Param(2)
}

pub open spec fn args_param() -> Op {
    Op::Param(3)
}

pub open spec fn out_param() -> Op {
    Op::Param(4)
}

/// Parameter `i`: unboxed from the arguments if it is there, else from
/// `undefined`.
pub open spec fn wrapper_param<'a>(st: St<'a>, i: u32, ty: Ty) -> (St<'a>, Val) {
    let (st, have) = st.val(Cmd::ICmp(IntPred::UGT, argc_param(), Op::I32(i)));
    let (st, slot) = st.val(Cmd::Alloca(LTy::Any, 1));
    let (st, then_bb) = st.new_block();
    let (st, else_bb) = st.new_block();
    let (st, end_bb) = st.new_block();
    let st = st.term(Cmd::CondBr(have, then_bb, else_bb)).at(then_bb);
    let (st, src) = st.val(Cmd::Elem(LTy::Any, args_param(), Op::I32(i)));
    let (st, v) = st.val(Cmd::Load(LTy::Any, src));
    let st = st.push(Cmd::Store(slot, v)).term(Cmd::Br(end_bb)).at(else_bb);
    let st = st.push(Cmd::Store(slot, Op::Undefined)).term(Cmd::Br(end_bb)).at(end_bb);
    unbox(st, slot, ty)
}

/// The first `n` declared parameters.
pub open spec fn wrapper_params<'a>(st: St<'a>, f: &Function, n: nat) -> (St<'a>, Seq<(Val, Op)>)
    decreases n,
{
    if n == 0 {
        (st, Seq::empty())
    } else {
        let (st, xs) = wrapper_params(st, f, (n - 1) as nat);
        if n <= f.locals@.len() {
            let (st, v) = wrapper_param(st, (n - 1) as u32, f.locals@[n - 1]);
            let (st, x) = materialize(st, v);
            (st, xs.push((v, x)))
        } else {
            (st.fail(), xs)
        }
    }
}

/// Stores a boxed copy of the value as the result.
pub open spec fn store_result<'a>(st: St<'a>, v: Val) -> St<'a> {
    let (st, b) = box_value(st, v);
    let (st, x) = st.val(Cmd::Load(LTy::Any, b));
    st.push(Cmd::Store(out_param(), x))
}

/// Stores the result of a call; `void` gives `undefined`.
pub open spec fn store_call_result<'a>(st: St<'a>, r: Op, ret: Ty) -> St<'a> {
    if ret == Ty::Void {
        st.push(Cmd::Store(out_param(), Op::Undefined))
    } else {
        let (st, v) = wrap_basic(st, r, ret);
        store_result(st, v)
    }
}

/// The body of a builtin's wrapper.
pub open spec fn builtin_body<'a>(st: St<'a>, b: Builtin) -> St<'a> {
    if b == Builtin::Trace {
        st.rt2("vs_trace", None, (LTy::I32, argc_param()), ptr(args_param())).0
    } else {
        let (st, a0) = st.val(Cmd::Alloca(LTy::Any, 1));
        let (st, l0) = st.val(Cmd::Load(LTy::Any, args_param()));
        let st = st.push(Cmd::Store(a0, l0));
        match builtin_plan_of(b) {
            Some(p) => {
                let (st, s) = unbox(st, a0, Ty::String);
                let (st, sp) = match s {
                    Val::Str(x) => (st, x),
                    _ => (st.fail(), Op::Null),
                };
                let (st, radix) = if b == Builtin::ParseInt {
                    let (st, v) = wrapper_param(st, 1, Ty::Int);
                    let (st, x) = int_operand(st, v);
                    (st, Some((LTy::I32, x)))
                } else {
                    (st, None)
                };
                let (st, v) = plan_call(st, p, Some(ptr(sp)), radix);
                store_result(st, v)
            },
            None => {
                let (st, n) = any_to_number(st, a0);
                let (st, f) = if b == Builtin::IsNaN {
                    is_nan(st, n)
                } else {
                    is_finite(st, n)
                };
                store_result(st, Val::Bool(f))
            },
        }
    }
}

pub open spec fn direct_body<'a>(program: &Program, st: St<'a>, id: FnId) -> St<'a> {
    if id.0 < program.functions@.len() {
        let f = &program.functions@[id.0 as int];
        let (st, xs) = wrapper_params(st, f, f.param_count as nat);
        let st = if f.captures@.len() > 0 {
            st.arg(ptr(env_param()))
        } else {
            st
        };
        let st = if f.this_class is Some {
            st.arg(ptr(recv_param()))
        } else {
            st
        };
        let (st, r) = pass_vals(st, xs, xs.len()).val(Cmd::CallFn(id));
        store_call_result(st, r, f.ret)
    } else {
        st.fail()
    }
}

pub open spec fn virtual_body<'a>(env: Env<'a>, st: St<'a>, class: u32, vslot: usize) -> St<'a> {
    match method_at(env, class, vslot) {
        Some(m) => {
            let f = &env.program.functions@[m.0 as int];
            let (st, p) = load_method(st, recv_param(), class, vslot);
            let (st, xs) = wrapper_params(st, f, f.param_count as nat);
            let (st, r) = pass_vals(st.arg(ptr(recv_param())), xs, xs.len()).val(
                Cmd::CallMethod(p, m),
            );
            store_call_result(st, r, f.ret)
        },
        None => st.fail(),
    }
}

/// The code of a wrapper.
pub open spec fn wrapper_code<'a>(program: &'a Program, target: WrapTarget) -> St<'a> {
    let st = fresh();
    let env = top_env(program, &program.functions@[0], false, Seq::empty());
    let st = match target {
        WrapTarget::Builtin(b) => builtin_body(st, b),
        WrapTarget::Direct(id) => direct_body(program, st, id),
        WrapTarget::Virtual { class, vslot } => virtual_body(env, st, class, vslot),
    };
    close_entry(st.term(Cmd::RetVoid))
}

impl<'a> FnCx<'a> {
    fn wrapper_param(&mut self, i: u32, ty: Ty) -> (r: Val)
        ensures
            final(self).env() == old(self).env(),
            (final(self).st(), r) == wrapper_param(old(self).st(), i, ty),
            step(
                old(self).st(),
                final(self).st(),
                true,
                has_val(final(self).st(), r),
            ),
    {
        let have = self.val(Cmd::ICmp(IntPred::UGT, Op::Param(2), Op::I32(i)));
        let slot = self.val(Cmd::Alloca(LTy::Any, 1));
        let then_bb: usize = self.new_block();
        let else_bb: usize = self.new_block();
        let end_bb: usize = self.new_block();
        self.term(Cmd::CondBr(have, then_bb, else_bb));
        self.at(then_bb);
        let src = self.val(Cmd::Elem(LTy::Any, Op::Param(3), Op::I32(i)));
        let v = self.val(Cmd::Load(LTy::Any, src));
        self.emit(Cmd::Store(slot, v));
        self.term(Cmd::Br(end_bb));
        self.at(else_bb);
        self.emit(Cmd::Store(slot, Op::Undefined));
        self.term(Cmd::Br(end_bb));
        self.at(end_bb);
        self.unbox_any_ptr(slot, ty)
    }

    fn wrapper_params(&mut self, f: &Function) -> (r: Vec<(Val, Op)>)
        ensures
            final(self).env() == old(self).env(),
            (final(self).st(), r@) == wrapper_params(old(self).st(), f, f.param_count as nat),
            step(
                old(self).st(),
                final(self).st(),
                true,
                has_all(final(self).st(), r@),
            ),
    {
        let ghost env0 = self.env();
        let ghost st0 = self.st();
        let mut xs: Vec<(Val, Op)> = Vec::new();
        let mut k: usize = 0;
        while k < f.param_count
            invariant
                k <= f.param_count,
                self.env() == env0,
                (self.st(), xs@) == wrapper_params(st0, f, k as nat),
                env0 == old(self).env(),
                step(old(self).st(), self.st(), true, has_all(self.st(), xs@)),
            decreases f.param_count - k,
        {
            if k < f.locals.len() {
                let v = self.wrapper_param(k as u32, f.locals[k]);
                let x = self.materialize(v);
                xs.push((v, x));
            } else {
                self.fail();
            }
            k = k + 1;
        }
        xs
    }

    fn store_result(&mut self, v: Val)
        ensures
            final(self).env() == old(self).env(),
            final(self).st() == store_result(old(self).st(), v),
            step(
                old(self).st(),
                final(self).st(),
                has_val(old(self).st(), v),
                true,
            ),
    {
        let b = self.box_value(v);
        let x = self.val(Cmd::Load(LTy::Any, b));
        self.emit(Cmd::Store(Op::Param(4), x));
    }

    fn store_call_result(&mut self, r: Op, ret: Ty)
        ensures
            final(self).env() == old(self).env(),
            final(self).st() == store_call_result(old(self).st(), r, ret),
            step(
                old(self).st(),
                final(self).st(),
                has(old(self).st(), r),
                true,
            ),
    {
        if ret == Ty::Void {
            self.emit(Cmd::Store(Op::Param(4), Op::Undefined));
        } else {
            let v = self.wrap_basic(r, ret);
            self.store_result(v);
        }
    }

    fn builtin_body(&mut self, b: Builtin)
        ensures
            final(self).env() == old(self).env(),
            final(self).st() == builtin_body(old(self).st(), b),
            step(
                old(self).st(),
                final(self).st(),
                true,
                true,
            ),
    {
        if b == Builtin::Trace {
            self.rt2("vs_trace", None, (LTy::I32, Op::Param(2)), (LTy::Ptr, Op::Param(3)));
            return;
        }
        let a0 = self.val(Cmd::Alloca(LTy::Any, 1));
        let l0 = self.val(Cmd::Load(LTy::Any, Op::Param(3)));
        self.emit(Cmd::Store(a0, l0));
        match builtin_plan(b) {
            Some(p) => {
                let sp = match self.unbox_any_ptr(a0, Ty::String) {
                    Val::Str(x) => x,
                    _ => {
                        self.fail();
                        Op::Null
                    },
                };
                let radix = if b == Builtin::ParseInt {
                    let v = self.wrapper_param(1, Ty::Int);
                    Some((LTy::I32, self.int_operand(v)))
                } else {
                    None
                };
                let v = self.plan_call(p, Some((LTy::Ptr, sp)), radix);
                self.store_result(v);
            },
            None => {
                let n = self.any_to_number(a0);
                let f = if b == Builtin::IsNaN {
                    self.is_nan(n)
                } else {
                    self.is_finite(n)
                };
                self.store_result(Val::Bool(f));
            },
        }
    }

    fn direct_body(&mut self, id: FnId)
        ensures
            final(self).env() == old(self).env(),
            final(self).st() == direct_body(old(self).program, old(self).st(), id),
            step(
                old(self).st(),
                final(self).st(),
                true,
                true,
            ),
    {
        let program = self.program;
        if (id.0 as usize) < program.functions.len() {
            let f = &program.functions[id.0 as usize];
            let xs = self.wrapper_params(f);
            if f.captures.len() > 0 {
                self.arg((LTy::Ptr, Op::Param(0)));
            }
            if f.this_class.is_some() {
                self.arg((LTy::Ptr, Op::Param(1)));
            }
            self.pass_vals(&xs);
            let r = self.val(Cmd::CallFn(id));
            self.store_call_result(r, f.ret);
        } else {
            self.fail();
        }
    }

    fn virtual_body(&mut self, class: u32, vslot: usize)
        ensures
            final(self).env() == old(self).env(),
            final(self).st() == virtual_body(old(self).env(), old(self).st(), class, vslot),
            step(
                old(self).st(),
                final(self).st(),
                true,
                true,
            ),
    {
        match self.method_at(class, vslot) {
            Some(m) => {
                let program = self.program;
                let f = &program.functions[m.0 as usize];
                let p = self.load_method(Op::Param(1), class, vslot);
                let xs = self.wrapper_params(f);
                self.arg((LTy::Ptr, Op::Param(1)));
                self.pass_vals(&xs);
                let r = self.val(Cmd::CallMethod(p, m));
                self.store_call_result(r, f.ret);
            },
            None => self.fail(),
        }
    }

    /// Compiles a wrapper; `None` if the target is not in the program.
    pub fn build_wrapper(program: &'a Program, target: WrapTarget) -> (r: Option<Vec<Cmd<'a>>>)
        requires
            program.functions@.len() > 0,
        ensures
            r is Some <==> wrapper_code(program, target).ok,
            r matches Some(code) ==> code@ == wrapper_code(program, target).code && backward(code@)
                && in_order(code@) && balanced(code@),
    {
        let mut cx = FnCx::fresh(program, &program.functions[0], false);
        match target {
            WrapTarget::Builtin(b) => cx.builtin_body(b),
            WrapTarget::Direct(id) => cx.direct_body(id),
            WrapTarget::Virtual { class, vslot } => cx.virtual_body(class, vslot),
        }
        cx.term(Cmd::RetVoid);
        cx.close_entry();
        proof {
            lemma_backward(cx.st());
            lemma_in_order(cx.st());
            lemma_balanced(cx.st());
        }
        if cx.ok {
            Some(cx.code)
        } else {
            None
        }
    }
}

} // verus!
