//! Emission of expressions.

use vstd::prelude::*;

use crate::codegen::code::{Cast, Cmd, FloatOp, FloatPred, FnCx, LTy, Op, Val, WrapTarget};
use crate::codegen::plan::{builtin_plan, native_plan, Kind, Plan};
use crate::codegen::value::{storage, F64_HALF, F64_MAX, F64_NAN, F64_ZERO};
use crate::codegen::scheme;
use crate::mir::{
    ArrMethod, Builtin, CapSrc, DateFn, Expr, ExprKind, FnId, NativeFn, NumMethod, RegexOp,
    SocketOp, StrMethod, Ty, VecMethod,
};
use crate::codegen::sound::{env_has, group_sound, grows, has, has_all, has_opt, has_val, step};
use crate::meaning::code::{chooses, conditional_laid, logical_laid, Choice};

verus! {

broadcast use group_sound;

fn at_least_one(n: u32) -> (r: u32)
    ensures
        r == scheme::at_least_one(n),
{
    if n == 0 {
        1
    } else {
        n
    }
}

fn val_lty(v: Val) -> (r: LTy)
    ensures
        r == scheme::val_lty(v),
{
    match v {
        Val::Int(_) | Val::UInt(_) => LTy::I32,
        Val::Num(_) => LTy::F64,
        Val::Bool(_) => LTy::I1,
        Val::Any(_) => LTy::Any,
        Val::Void => LTy::I1,
        _ => LTy::Ptr,
    }
}

fn is_vec(ty: Ty) -> (r: bool)
    ensures
        r == scheme::is_vec(ty),
{
    match ty {
        Ty::Vector(_) => true,
        _ => false,
    }
}

fn p(x: Op) -> (r: (LTy, Op))
    ensures
        r == crate::codegen::value::ptr(x),
{
    (LTy::Ptr, x)
}

fn i(v: u32) -> (r: (LTy, Op))
    ensures
        r == crate::codegen::value::i32v(v),
{
    (LTy::I32, Op::I32(v))
}

impl<'a> FnCx<'a> {
    fn bad(&mut self) -> (r: Val)
        ensures
            final(self).env() == old(self).env(),
            (final(self).st(), r) == scheme::bad(old(self).st()),
            step(
                old(self).st(),
                final(self).st(),
                true,
                has_val(final(self).st(), r),
            ),
    {
        self.fail();
        Val::Void
    }

    pub fn pass_vals(&mut self, xs: &Vec<(Val, Op)>)
        ensures
            final(self).env() == old(self).env(),
            final(self).st() == scheme::pass_vals(old(self).st(), xs@, xs@.len()),
            step(
                old(self).st(),
                final(self).st(),
                has_all(old(self).st(), xs@),
                true,
            ),
    {
        let ghost env0 = self.env();
        let ghost st0 = self.st();
        let mut k: usize = 0;
        while k < xs.len()
            invariant
                k <= xs@.len(),
                self.env() == env0,
                self.st() == scheme::pass_vals(st0, xs@, k as nat),
                env0 == old(self).env(),
                step(old(self).st(), self.st(), has_all(old(self).st(), xs@), true),
            decreases xs@.len() - k,
        {
            let x = xs[k];
            self.arg((val_lty(x.0), x.1));
            k = k + 1;
        }
    }

    fn pass_typed(&mut self, xs: &Vec<(Val, Op)>, args: &'a Vec<Expr>)
        requires
            xs@.len() == args@.len(),
        ensures
            final(self).env() == old(self).env(),
            final(self).st() == scheme::pass_typed(old(self).st(), xs@, args@, xs@.len()),
            step(
                old(self).st(),
                final(self).st(),
                has_all(old(self).st(), xs@),
                true,
            ),
    {
        let ghost env0 = self.env();
        let ghost st0 = self.st();
        let mut k: usize = 0;
        while k < xs.len()
            invariant
                k <= xs@.len(),
                xs@.len() == args@.len(),
                self.env() == env0,
                self.st() == scheme::pass_typed(st0, xs@, args@, k as nat),
                env0 == old(self).env(),
                step(old(self).st(), self.st(), has_all(old(self).st(), xs@), true),
            decreases xs@.len() - k,
        {
            let x = xs[k];
            let t = self.basic_ty(args[k].ty);
            self.arg((t, x.1));
            k = k + 1;
        }
    }

    fn call_result(&mut self, r: Op, ret: Ty, want: Ty, xs: &Vec<(Val, Op)>) -> (res: Val)
        ensures
            final(self).env() == old(self).env(),
            (final(self).st(), res) == scheme::call_result(old(self).st(), r, ret, want, xs@),
            step(
                old(self).st(),
                final(self).st(),
                has(old(self).st(), r) && has_all(old(self).st(), xs@),
                has_val(final(self).st(), res),
            ),
    {
        if ret == Ty::Void {
            if want != Ty::Void && xs.len() > 0 {
                xs[0].0
            } else {
                Val::Void
            }
        } else {
            self.wrap_basic(r, ret)
        }
    }

    fn closure(&mut self, f: FnId) -> (r: Val)
        ensures
            final(self).env() == old(self).env(),
            (final(self).st(), r) == scheme::closure(old(self).env(), old(self).st(), f),
            step(
                old(self).st(),
                final(self).st(),
                env_has(old(self).env(), old(self).st()),
                has_val(final(self).st(), r),
            ),
    {
        if (f.0 as usize) < self.program.functions.len() {
            let program = self.program;
            let caps: &'a Vec<CapSrc> = &program.functions[f.0 as usize].captures;
            let n: u32 = caps.len() as u32;
            let arr = self.val(Cmd::Alloca(LTy::Ptr, at_least_one(n)));
            let ghost env0 = self.env();
            let ghost st0 = self.st();
            let mut k: usize = 0;
            while k < caps.len()
                invariant
                    k <= caps@.len(),
                    self.env() == env0,
                    self.st() == scheme::env_cells(env0, st0, arr, caps@, k as nat),
                    env0 == old(self).env(),
                    step(old(self).st(), self.st(), env_has(old(self).env(), old(self).st()), has(self.st(), arr)),
                decreases caps@.len() - k,
            {
                let cell = match caps[k] {
                    CapSrc::ParentLocal(id) => if (id.0 as usize) < self.locals.len() {
                        let s = self.locals[id.0 as usize];
                        self.val(Cmd::Load(LTy::Ptr, s.ptr))
                    } else {
                        self.fail();
                        Op::Null
                    },
                    CapSrc::ParentCapture(j) => self.capture_cell(j),
                };
                let slot = self.val(Cmd::Elem(LTy::Ptr, arr, Op::I32(k as u32)));
                self.emit(Cmd::Store(slot, cell));
                k = k + 1;
            }
            self.make_closure(WrapTarget::Direct(f), n, arr, Op::Null)
        } else {
            self.bad()
        }
    }

    fn capture_inc_dec(&mut self, slot: usize, ty: Ty, is_inc: bool, is_prefix: bool) -> (r: Val)
        ensures
            final(self).env() == old(self).env(),
            (final(self).st(), r) == scheme::capture_inc_dec(
                old(self).env(),
                old(self).st(),
                slot,
                ty,
                is_inc,
                is_prefix,
            ),
            step(
                old(self).st(),
                final(self).st(),
                env_has(old(self).env(), old(self).st()),
                has_val(final(self).st(), r),
            ),
    {
        let cell = self.capture_cell(slot);
        let copy = self.copy_box(cell);
        let old_val = self.unbox_any_ptr(copy, ty);
        let new_val = self.step_val(old_val, is_inc);
        let b = self.box_value(new_val);
        let x = self.val(Cmd::Load(LTy::Any, b));
        self.emit(Cmd::Store(cell, x));
        if is_prefix {
            new_val
        } else {
            old_val
        }
    }

    fn regexp_lit(&mut self, pat: &'a String, flags: &'a String) -> (r: Val)
        ensures
            final(self).env() == old(self).env(),
            (final(self).st(), r) == scheme::regexp_lit(old(self).st(), pat, flags),
            step(
                old(self).st(),
                final(self).st(),
                true,
                has_val(final(self).st(), r),
            ),
    {
        let (pp, pn): (Op, u32) = self.utf8_lit(pat);
        let (f, flen): (Op, u32) = self.utf8_lit(flags);
        Val::Reg(self.rt4("vs_regexp_lit", Some(LTy::Ptr), p(pp), i(pn), p(f), i(flen)))
    }

    fn leaf(&mut self, e: &'a Expr) -> (r: Val)
        ensures
            final(self).env() == old(self).env(),
            (final(self).st(), r) == scheme::leaf(old(self).env(), old(self).st(), e),
            step(
                old(self).st(),
                final(self).st(),
                env_has(old(self).env(), old(self).st()),
                has_val(final(self).st(), r),
            ),
    {
        reveal(scheme::leaf);
        match &e.kind {
            ExprKind::Int(v) => Val::Int(Op::I32(*v as u32)),
            ExprKind::UInt(v) => Val::UInt(Op::I32(*v)),
            ExprKind::Number(bits) => Val::Num(Op::F64(*bits)),
            ExprKind::Bool(v) => Val::Bool(Op::I1(*v)),
            ExprKind::Str(s) => Val::Str(self.const_string(s)),
            ExprKind::Null => Val::Str(Op::Null),
            ExprKind::Undefined => self.wrap_basic(Op::Undefined, Ty::Any),
            ExprKind::This => Val::Obj(self.this_param()),
            ExprKind::LocalGet(id) => self.load_local(*id),
            ExprKind::IncDec { target, is_inc, is_prefix } => self.inc_dec(
                *target,
                *is_inc,
                *is_prefix,
            ),
            ExprKind::CaptureGet(k) => {
                let cell = self.capture_cell(*k);
                let copy = self.copy_box(cell);
                self.unbox_any_ptr(copy, e.ty)
            },
            ExprKind::CaptureIncDec { slot, is_inc, is_prefix } => self.capture_inc_dec(
                *slot,
                e.ty,
                *is_inc,
                *is_prefix,
            ),
            ExprKind::StaticGet(class, index) => match self.static_ty(*class, *index) {
                Some(ty) => self.load_typed(Op::Static(*class, *index), ty),
                None => self.bad(),
            },
            ExprKind::StaticIncDec { class, index, is_inc, is_prefix } => match self.static_ty(
                *class,
                *index,
            ) {
                Some(ty) => self.inc_dec_at(Op::Static(*class, *index), ty, *is_inc, *is_prefix),
                None => self.bad(),
            },
            ExprKind::NamespaceVal(id) => {
                let program = self.program;
                if (*id as usize) < program.namespace_uris.len() {
                    let uri: &'a String = &program.namespace_uris[*id as usize];
                    self.intern_namespace(uri)
                } else {
                    self.bad()
                }
            },
            ExprKind::RegExpLit(pat, flags) => self.regexp_lit(pat, flags),
            ExprKind::Closure(f) => self.closure(*f),
            ExprKind::FnValue(f) => self.make_closure(
                WrapTarget::Direct(*f),
                0,
                Op::Null,
                Op::Null,
            ),
            ExprKind::BuiltinValue(b) => self.make_closure(
                WrapTarget::Builtin(*b),
                0,
                Op::Null,
                Op::Null,
            ),
            _ => self.bad(),
        }
    }

    fn nth(&mut self, args: &'a Vec<Expr>, k: usize) -> (r: Val)
        ensures
            final(self).env() == old(self).env(),
            (final(self).st(), r) == scheme::nth(old(self).env(), old(self).st(), args@, k as int),
            step(
                old(self).st(),
                final(self).st(),
                env_has(old(self).env(), old(self).st()),
                has_val(final(self).st(), r),
            ),
        decreases args, 0nat,
    {
        if k < args.len() {
            self.expr(&args[k])
        } else {
            self.bad()
        }
    }

    fn nth_str(&mut self, args: &'a Vec<Expr>, k: usize) -> (r: Op)
        ensures
            final(self).env() == old(self).env(),
            (final(self).st(), r) == scheme::strung(
                scheme::nth(old(self).env(), old(self).st(), args@, k as int),
            ),
            step(
                old(self).st(),
                final(self).st(),
                env_has(old(self).env(), old(self).st()),
                has(final(self).st(), r),
            ),
        decreases args, 1nat,
    {
        let v = self.nth(args, k);
        self.stringify(v)
    }

    fn nth_num(&mut self, args: &'a Vec<Expr>, k: usize) -> (r: Op)
        ensures
            final(self).env() == old(self).env(),
            (final(self).st(), r) == scheme::numbered(
                scheme::nth(old(self).env(), old(self).st(), args@, k as int),
            ),
            step(
                old(self).st(),
                final(self).st(),
                env_has(old(self).env(), old(self).st()),
                has(final(self).st(), r),
            ),
        decreases args, 1nat,
    {
        let v = self.nth(args, k);
        self.to_num(v)
    }

    fn nth_int(&mut self, args: &'a Vec<Expr>, k: usize) -> (r: Op)
        ensures
            final(self).env() == old(self).env(),
            (final(self).st(), r) == scheme::inted(
                scheme::nth(old(self).env(), old(self).st(), args@, k as int),
            ),
            step(
                old(self).st(),
                final(self).st(),
                env_has(old(self).env(), old(self).st()),
                has(final(self).st(), r),
            ),
        decreases args, 1nat,
    {
        let v = self.nth(args, k);
        self.int_operand(v)
    }

    fn nth_box(&mut self, args: &'a Vec<Expr>, k: usize) -> (r: Op)
        ensures
            final(self).env() == old(self).env(),
            (final(self).st(), r) == scheme::boxed(
                scheme::nth(old(self).env(), old(self).st(), args@, k as int),
            ),
            step(
                old(self).st(),
                final(self).st(),
                env_has(old(self).env(), old(self).st()),
                has(final(self).st(), r),
            ),
        decreases args, 1nat,
    {
        let v = self.nth(args, k);
        self.box_value(v)
    }

    fn nth_fun(&mut self, args: &'a Vec<Expr>, k: usize) -> (r: Op)
        ensures
            final(self).env() == old(self).env(),
            (final(self).st(), r) == scheme::functioned(
                scheme::nth(old(self).env(), old(self).st(), args@, k as int),
            ),
            step(
                old(self).st(),
                final(self).st(),
                env_has(old(self).env(), old(self).st()),
                has(final(self).st(), r),
            ),
        decreases args, 1nat,
    {
        let v = self.nth(args, k);
        self.fun_of(v)
    }

    fn nth_regex(&mut self, args: &'a Vec<Expr>, k: usize) -> (r: Op)
        ensures
            final(self).env() == old(self).env(),
            (final(self).st(), r) == scheme::regexed(
                scheme::nth(old(self).env(), old(self).st(), args@, k as int),
            ),
            step(
                old(self).st(),
                final(self).st(),
                env_has(old(self).env(), old(self).st()),
                has(final(self).st(), r),
            ),
        decreases args, 1nat,
    {
        match self.nth(args, k) {
            Val::Reg(x) | Val::Str(x) => x,
            _ => {
                self.fail();
                Op::Null
            },
        }
    }

    fn num_or(&mut self, args: &'a Vec<Expr>, k: usize, default: u64) -> (r: Op)
        ensures
            final(self).env() == old(self).env(),
            (final(self).st(), r) == scheme::num_or(
                old(self).env(),
                old(self).st(),
                args@,
                k as int,
                default,
            ),
            step(
                old(self).st(),
                final(self).st(),
                env_has(old(self).env(), old(self).st()),
                has(final(self).st(), r),
            ),
        decreases args, 0nat,
    {
        if k < args.len() {
            let v = self.expr(&args[k]);
            self.to_num(v)
        } else {
            Op::F64(default)
        }
    }

    fn plan_arg(&mut self, kind: Kind, args: &'a Vec<Expr>, k: usize) -> (r: Option<(LTy, Op)>)
        ensures
            final(self).env() == old(self).env(),
            (final(self).st(), r) == scheme::plan_arg(
                old(self).env(),
                old(self).st(),
                kind,
                args@,
                k as int,
            ),
            step(
                old(self).st(),
                final(self).st(),
                env_has(old(self).env(), old(self).st()),
                has_opt(final(self).st(), r),
            ),
        decreases args, 1nat,
    {
        if kind == Kind::Absent {
            None
        } else {
            let v = self.nth(args, k);
            Some(self.operand(kind, v))
        }
    }

    fn planned(&mut self, plan: Plan, args: &'a Vec<Expr>) -> (r: Val)
        ensures
            final(self).env() == old(self).env(),
            (final(self).st(), r) == scheme::planned(old(self).env(), old(self).st(), plan, args@),
            step(
                old(self).st(),
                final(self).st(),
                env_has(old(self).env(), old(self).st()),
                has_val(final(self).st(), r),
            ),
        decreases args, 2nat,
    {
        let a = self.plan_arg(plan.a, args, 0);
        let b = self.plan_arg(plan.b, args, 1);
        self.plan_call(plan, a, b)
    }

    fn exprs(&mut self, args: &'a Vec<Expr>) -> (r: Vec<(Val, Op)>)
        ensures
            final(self).env() == old(self).env(),
            (final(self).st(), r@) == scheme::exprs(
                old(self).env(),
                old(self).st(),
                args@,
                args@.len(),
            ),
            r@.len() == args@.len(),
            step(
                old(self).st(),
                final(self).st(),
                env_has(old(self).env(), old(self).st()),
                has_all(final(self).st(), r@),
            ),
        decreases args, 0nat,
    {
        let ghost env0 = self.env();
        let ghost st0 = self.st();
        let mut xs: Vec<(Val, Op)> = Vec::new();
        let mut k: usize = 0;
        while k < args.len()
            invariant
                k <= args@.len(),
                xs@.len() == k,
                self.env() == env0,
                (self.st(), xs@) == scheme::exprs(env0, st0, args@, k as nat),
                env0 == old(self).env(),
                step(old(self).st(), self.st(), env_has(old(self).env(), old(self).st()), has_all(self.st(), xs@)),
            decreases args@.len() - k,
        {
            let v = self.expr(&args[k]);
            let x = self.materialize(v);
            xs.push((v, x));
            k = k + 1;
        }
        xs
    }

    fn staged(&mut self, args: &'a Vec<Expr>) -> (r: Op)
        ensures
            final(self).env() == old(self).env(),
            (final(self).st(), r) == scheme::staged(old(self).env(), old(self).st(), args@),
            step(
                old(self).st(),
                final(self).st(),
                env_has(old(self).env(), old(self).st()),
                has(final(self).st(), r),
            ),
        decreases args, 0nat,
    {
        let arr = self.val(Cmd::Alloca(LTy::Any, at_least_one(args.len() as u32)));
        let ghost env0 = self.env();
        let ghost st0 = self.st();
        let mut k: usize = 0;
        while k < args.len()
            invariant
                k <= args@.len(),
                self.env() == env0,
                self.st() == scheme::stage(env0, st0, arr, args@, k as nat),
                env0 == old(self).env(),
                step(old(self).st(), self.st(), env_has(old(self).env(), old(self).st()), has(self.st(), arr)),
            decreases args@.len() - k,
        {
            let v = self.expr(&args[k]);
            let b = self.box_value(v);
            let x = self.val(Cmd::Load(LTy::Any, b));
            let slot = self.val(Cmd::Elem(LTy::Any, arr, Op::I32(k as u32)));
            self.emit(Cmd::Store(slot, x));
            k = k + 1;
        }
        arr
    }

    fn staged_tail(&mut self, args: &'a Vec<Expr>) -> (r: Op)
        ensures
            final(self).env() == old(self).env(),
            (final(self).st(), r) == scheme::staged_tail(old(self).env(), old(self).st(), args@),
            step(
                old(self).st(),
                final(self).st(),
                env_has(old(self).env(), old(self).st()),
                has(final(self).st(), r),
            ),
        decreases args, 0nat,
    {
        let n: usize = if args.len() > 2 {
            args.len() - 2
        } else {
            0
        };
        let arr = self.val(Cmd::Alloca(LTy::Any, at_least_one(n as u32)));
        let ghost env0 = self.env();
        let ghost st0 = self.st();
        let mut k: usize = 0;
        while k < n
            invariant
                k <= n,
                n == scheme::tail_len(args@),
                args@.len() <= usize::MAX,
                self.env() == env0,
                self.st() == scheme::stage_tail(env0, st0, arr, args@, k as nat),
                env0 == old(self).env(),
                step(old(self).st(), self.st(), env_has(old(self).env(), old(self).st()), has(self.st(), arr)),
            decreases n - k,
        {
            let v = self.expr(&args[k + 2]);
            let b = self.box_value(v);
            let x = self.val(Cmd::Load(LTy::Any, b));
            let slot = self.val(Cmd::Elem(LTy::Any, arr, Op::I32(k as u32)));
            self.emit(Cmd::Store(slot, x));
            k = k + 1;
        }
        arr
    }

    fn stage_opt(&mut self, arr: Op, els: &'a Vec<Option<Expr>>)
        ensures
            final(self).env() == old(self).env(),
            final(self).st() == scheme::stage_opt(
                old(self).env(),
                old(self).st(),
                arr,
                els@,
                els@.len(),
            ),
            step(
                old(self).st(),
                final(self).st(),
                env_has(old(self).env(), old(self).st()) && has(old(self).st(), arr),
                true,
            ),
        decreases els, 0nat,
    {
        let ghost env0 = self.env();
        let ghost st0 = self.st();
        let mut k: usize = 0;
        while k < els.len()
            invariant
                k <= els@.len(),
                self.env() == env0,
                self.st() == scheme::stage_opt(env0, st0, arr, els@, k as nat),
                env0 == old(self).env(),
                step(old(self).st(), self.st(), env_has(old(self).env(), old(self).st()) && has(old(self).st(), arr), true),
            decreases els@.len() - k,
        {
            let x = match &els[k] {
                Some(e) => {
                    let v = self.expr(e);
                    let b = self.box_value(v);
                    self.val(Cmd::Load(LTy::Any, b))
                },
                None => Op::Undefined,
            };
            let slot = self.val(Cmd::Elem(LTy::Any, arr, Op::I32(k as u32)));
            self.emit(Cmd::Store(slot, x));
            k = k + 1;
        }
    }

    fn staged_f64(&mut self, args: &'a Vec<Expr>) -> (r: Op)
        ensures
            final(self).env() == old(self).env(),
            (final(self).st(), r) == scheme::staged_f64(old(self).env(), old(self).st(), args@),
            step(
                old(self).st(),
                final(self).st(),
                env_has(old(self).env(), old(self).st()),
                has(final(self).st(), r),
            ),
        decreases args, 0nat,
    {
        let arr = self.val(Cmd::Alloca(LTy::F64, at_least_one(args.len() as u32)));
        let ghost env0 = self.env();
        let ghost st0 = self.st();
        let mut k: usize = 0;
        while k < args.len()
            invariant
                k <= args@.len(),
                self.env() == env0,
                self.st() == scheme::stage_f64(env0, st0, arr, args@, k as nat),
                env0 == old(self).env(),
                step(old(self).st(), self.st(), env_has(old(self).env(), old(self).st()), has(self.st(), arr)),
            decreases args@.len() - k,
        {
            let v = self.expr(&args[k]);
            let x = self.num_of(v);
            let slot = self.val(Cmd::Elem(LTy::F64, arr, Op::I32(k as u32)));
            self.emit(Cmd::Store(slot, x));
            k = k + 1;
        }
        arr
    }

    fn fold_pairs(&mut self, name: &'static str, args: &'a Vec<Expr>) -> (r: Op)
        ensures
            final(self).env() == old(self).env(),
            (final(self).st(), r) == scheme::fold_pairs(
                old(self).env(),
                old(self).st(),
                name,
                args@,
                args@.len(),
            ),
            step(
                old(self).st(),
                final(self).st(),
                env_has(old(self).env(), old(self).st()),
                has(final(self).st(), r),
            ),
        decreases args, 0nat,
    {
        if args.len() == 0 {
            self.fail();
            return Op::Null;
        }
        let ghost env0 = self.env();
        let ghost st0 = self.st();
        let v = self.expr(&args[0]);
        let mut acc = self.to_num(v);
        let mut k: usize = 1;
        while k < args.len()
            invariant
                1 <= k <= args@.len(),
                self.env() == env0,
                (self.st(), acc) == scheme::fold_pairs(env0, st0, name, args@, k as nat),
                env0 == old(self).env(),
                step(old(self).st(), self.st(), env_has(old(self).env(), old(self).st()), has(self.st(), acc)),
            decreases args@.len() - k,
        {
            let v = self.expr(&args[k]);
            let b = self.to_num(v);
            acc = self.rt2(name, Some(LTy::F64), (LTy::F64, acc), (LTy::F64, b));
            k = k + 1;
        }
        acc
    }

    fn set_props(&mut self, obj: Op, props: &'a Vec<(String, Expr)>)
        ensures
            final(self).env() == old(self).env(),
            final(self).st() == scheme::set_props(
                old(self).env(),
                old(self).st(),
                obj,
                props@,
                props@.len(),
            ),
            step(
                old(self).st(),
                final(self).st(),
                env_has(old(self).env(), old(self).st()) && has(old(self).st(), obj),
                true,
            ),
        decreases props, 0nat,
    {
        let ghost env0 = self.env();
        let ghost st0 = self.st();
        let mut k: usize = 0;
        while k < props.len()
            invariant
                k <= props@.len(),
                self.env() == env0,
                self.st() == scheme::set_props(env0, st0, obj, props@, k as nat),
                env0 == old(self).env(),
                step(old(self).st(), self.st(), env_has(old(self).env(), old(self).st()) && has(old(self).st(), obj), true),
            decreases props@.len() - k,
        {
            let prop = &props[k];
            let key = self.const_string(&prop.0);
            let v = self.expr(&prop.1);
            let b = self.box_value(v);
            self.rt3("vs_any_set_prop", None, p(obj), p(key), p(b));
            k = k + 1;
        }
    }

    fn expr_box(&mut self, e: &'a Expr) -> (r: Op)
        ensures
            final(self).env() == old(self).env(),
            (final(self).st(), r) == scheme::boxed(
                scheme::expr(old(self).env(), old(self).st(), e),
            ),
            step(
                old(self).st(),
                final(self).st(),
                env_has(old(self).env(), old(self).st()),
                has(final(self).st(), r),
            ),
        decreases e, 3nat,
    {
        let v = self.expr(e);
        self.box_value(v)
    }

    fn expr_obj(&mut self, e: &'a Expr) -> (r: Op)
        ensures
            final(self).env() == old(self).env(),
            (final(self).st(), r) == scheme::objected(
                scheme::expr(old(self).env(), old(self).st(), e),
            ),
            step(
                old(self).st(),
                final(self).st(),
                env_has(old(self).env(), old(self).st()),
                has(final(self).st(), r),
            ),
        decreases e, 3nat,
    {
        let v = self.expr(e);
        self.obj_of(v)
    }

    fn expr_seq(&mut self, e: &'a Expr) -> (r: Op)
        ensures
            final(self).env() == old(self).env(),
            (final(self).st(), r) == scheme::sequenced(
                scheme::expr(old(self).env(), old(self).st(), e),
            ),
            step(
                old(self).st(),
                final(self).st(),
                env_has(old(self).env(), old(self).st()),
                has(final(self).st(), r),
            ),
        decreases e, 3nat,
    {
        let v = self.expr(e);
        self.seq_of(v)
    }

    fn expr_str(&mut self, e: &'a Expr) -> (r: Op)
        ensures
            final(self).env() == old(self).env(),
            (final(self).st(), r) == scheme::strung(
                scheme::expr(old(self).env(), old(self).st(), e),
            ),
            step(
                old(self).st(),
                final(self).st(),
                env_has(old(self).env(), old(self).st()),
                has(final(self).st(), r),
            ),
        decreases e, 3nat,
    {
        let v = self.expr(e);
        self.stringify(v)
    }

    fn expr_num(&mut self, e: &'a Expr) -> (r: Op)
        ensures
            final(self).env() == old(self).env(),
            (final(self).st(), r) == scheme::numbered(
                scheme::expr(old(self).env(), old(self).st(), e),
            ),
            step(
                old(self).st(),
                final(self).st(),
                env_has(old(self).env(), old(self).st()),
                has(final(self).st(), r),
            ),
        decreases e, 3nat,
    {
        let v = self.expr(e);
        self.to_num(v)
    }

    fn expr_int(&mut self, e: &'a Expr) -> (r: Op)
        ensures
            final(self).env() == old(self).env(),
            (final(self).st(), r) == scheme::inted(
                scheme::expr(old(self).env(), old(self).st(), e),
            ),
            step(
                old(self).st(),
                final(self).st(),
                env_has(old(self).env(), old(self).st()),
                has(final(self).st(), r),
            ),
        decreases e, 3nat,
    {
        let v = self.expr(e);
        self.int_operand(v)
    }

    fn expr_ns(&mut self, e: &'a Expr) -> (r: Op)
        ensures
            final(self).env() == old(self).env(),
            (final(self).st(), r) == scheme::named(
                scheme::expr(old(self).env(), old(self).st(), e),
            ),
            step(
                old(self).st(),
                final(self).st(),
                env_has(old(self).env(), old(self).st()),
                has(final(self).st(), r),
            ),
        decreases e, 3nat,
    {
        let v = self.expr(e);
        self.ns_of(v)
    }

    fn storage_expr(&mut self, e: &'a Expr) -> (r: Val)
        ensures
            final(self).env() == old(self).env(),
            (final(self).st(), r) == scheme::storage_expr(old(self).env(), old(self).st(), e),
            step(
                old(self).st(),
                final(self).st(),
                env_has(old(self).env(), old(self).st()),
                has_val(final(self).st(), r),
            ),
        decreases e, 0nat,
    {
        match &e.kind {
            ExprKind::LocalSet(id, v) => {
                let x = self.expr(v);
                self.store_local(*id, x);
                self.load_local(*id)
            },
            ExprKind::CaptureSet(k, v) => {
                let x = self.expr(v);
                let b = self.box_value(x);
                let cell = self.capture_cell(*k);
                let y = self.val(Cmd::Load(LTy::Any, b));
                self.emit(Cmd::Store(cell, y));
                x
            },
            ExprKind::StaticSet(class, index, v) => match self.static_ty(*class, *index) {
                Some(ty) => {
                    let x = self.expr(v);
                    let y = self.materialize(x);
                    self.emit(Cmd::Store(Op::Static(*class, *index), y));
                    self.wrap_basic(y, ty)
                },
                None => self.bad(),
            },
            ExprKind::FieldGet(recv, class, slot) => {
                let obj = self.expr_obj(recv);
                self.null_check(obj);
                let (fp, ty) = self.field_ptr(obj, *class, *slot);
                self.load_typed(fp, ty)
            },
            ExprKind::FieldSet(recv, class, slot, v) => {
                let obj = self.expr_obj(recv);
                self.null_check(obj);
                let x = self.expr(v);
                let (fp, ty) = self.field_ptr(obj, *class, *slot);
                let y = self.materialize(x);
                self.emit(Cmd::Store(fp, y));
                self.wrap_basic(y, ty)
            },
            ExprKind::FieldIncDec { recv, class, slot, is_inc, is_prefix } => {
                let obj = self.expr_obj(recv);
                self.null_check(obj);
                let (fp, ty) = self.field_ptr(obj, *class, *slot);
                self.inc_dec_at(fp, ty, *is_inc, *is_prefix)
            },
            _ => self.bad(),
        }
    }

    fn logical(&mut self, e: &'a Expr) -> (res: Val)
        ensures
            final(self).env() == old(self).env(),
            (final(self).st(), res) == scheme::logical(old(self).env(), old(self).st(), e),
            step(
                old(self).st(),
                final(self).st(),
                env_has(old(self).env(), old(self).st()),
                has_val(final(self).st(), res),
            ),
            e.kind is Logical ==> chooses(old(self).env(), old(self).st(), final(self).st(), e),
        decreases e, 0nat,
    {
        match &e.kind {
            ExprKind::Logical { is_and, lhs, rhs } => {
                let ghost env0 = self.env();
                let ghost st0 = self.st();
                let l = self.expr(lhs);
                let lx = self.materialize(l);
                let test = self.truthy(l);
                let ghost tested = self.st();
                let lhs_bb: usize = self.block;
                let rhs_bb: usize = self.new_block();
                let end_bb: usize = self.new_block();
                let ghost made = self.st();
                if *is_and {
                    self.term(Cmd::CondBr(test, rhs_bb, end_bb));
                } else {
                    self.term(Cmd::CondBr(test, end_bb, rhs_bb));
                }
                self.at(rhs_bb);
                let ghost one = self.st();
                let r = self.expr(rhs);
                let rx = self.materialize(r);
                let ghost one_end = self.st();
                let rhs_end: usize = self.block;
                self.term(Cmd::Br(end_bb));
                self.at(end_bb);
                let ghost join = self.st();
                let x = self.val(Cmd::Phi(val_lty(l), lx, lhs_bb, rx, rhs_end));
                let ghost last = self.st();
                let res = self.wrap_basic(x, e.ty);
                proof {
                    let y = Choice {
                        tested,
                        op: test,
                        made,
                        one,
                        one_end,
                        one_op: rx,
                        other: tested,
                        other_end: tested,
                        other_op: lx,
                        join,
                        one_bb: rhs_bb,
                        other_bb: end_bb,
                        end_bb,
                    };
                    let b = self.st();
                    assert(b.code[join.code.len() as int] == last.code[join.code.len() as int]
                        && join.code.len() < b.code.len()) by {
                        reveal(grows);
                    }
                    assert(logical_laid(env0, st0, b, *is_and, &**lhs, &**rhs, y));
                    reveal(chooses);
                }
                res
            },
            _ => self.bad(),
        }
    }

    fn conditional(&mut self, e: &'a Expr) -> (res: Val)
        ensures
            final(self).env() == old(self).env(),
            (final(self).st(), res) == scheme::conditional(old(self).env(), old(self).st(), e),
            step(
                old(self).st(),
                final(self).st(),
                env_has(old(self).env(), old(self).st()),
                has_val(final(self).st(), res),
            ),
            e.kind is Conditional ==> chooses(old(self).env(), old(self).st(), final(self).st(), e),
        decreases e, 0nat,
    {
        match &e.kind {
            ExprKind::Conditional(c, t, f) => {
                let ghost env0 = self.env();
                let ghost st0 = self.st();
                let cv = self.expr(c);
                let cond = self.truthy(cv);
                let ghost tested = self.st();
                let then_bb: usize = self.new_block();
                let else_bb: usize = self.new_block();
                let end_bb: usize = self.new_block();
                let ghost made = self.st();
                self.term(Cmd::CondBr(cond, then_bb, else_bb));
                self.at(then_bb);
                let ghost one = self.st();
                let tv = self.expr(t);
                let tx = self.materialize(tv);
                let ghost one_end = self.st();
                let t_end: usize = self.block;
                self.term(Cmd::Br(end_bb));
                self.at(else_bb);
                let ghost other = self.st();
                let fv = self.expr(f);
                let fx = self.materialize(fv);
                let ghost other_end = self.st();
                let f_end: usize = self.block;
                self.term(Cmd::Br(end_bb));
                self.at(end_bb);
                let ghost join = self.st();
                let res = if e.ty == Ty::Void {
                    Val::Void
                } else {
                    let x = self.val(Cmd::Phi(val_lty(tv), tx, t_end, fx, f_end));
                    let ghost last = self.st();
                    let res = self.wrap_basic(x, e.ty);
                    assert(self.st().code[join.code.len() as int]
                        == last.code[join.code.len() as int] && join.code.len()
                        < self.st().code.len()) by {
                        reveal(grows);
                    }
                    res
                };
                proof {
                    let y = Choice {
                        tested,
                        op: cond,
                        made,
                        one,
                        one_end,
                        one_op: tx,
                        other,
                        other_end,
                        other_op: fx,
                        join,
                        one_bb: then_bb,
                        other_bb: else_bb,
                        end_bb,
                    };
                    assert(conditional_laid(
                        env0,
                        st0,
                        self.st(),
                        &**c,
                        &**t,
                        &**f,
                        e.ty,
                        y,
                    ));
                    reveal(chooses);
                }
                res
            },
            _ => self.bad(),
        }
    }

    fn operator(&mut self, e: &'a Expr) -> (res: Val)
        ensures
            final(self).env() == old(self).env(),
            (final(self).st(), res) == scheme::operator(old(self).env(), old(self).st(), e),
            step(
                old(self).st(),
                final(self).st(),
                env_has(old(self).env(), old(self).st()),
                has_val(final(self).st(), res),
            ),
            chooses(old(self).env(), old(self).st(), final(self).st(), e),
        decreases e, 1nat,
    {
        reveal(chooses);
        match &e.kind {
            ExprKind::Unary(op, v) => {
                let x = self.expr(v);
                self.unary_val(*op, x)
            },
            ExprKind::Binary(op, l, r) => {
                let x = self.expr(l);
                let y = self.expr(r);
                self.binary_vals(*op, x, y)
            },
            ExprKind::Logical { .. } => self.logical(e),
            ExprKind::Conditional(..) => self.conditional(e),
            ExprKind::Comma(l, r) => {
                self.expr(l);
                self.expr(r)
            },
            ExprKind::Is(v, ty) => {
                let b = self.expr_box(v);
                Val::Bool(self.is_test(b, *ty))
            },
            ExprKind::As(v, ty) => {
                let b = self.expr_box(v);
                self.as_cast(b, *ty)
            },
            ExprKind::Conv(conv, v) => {
                let x = self.expr(v);
                self.convert_val(*conv, x)
            },
            _ => self.bad(),
        }
    }

    fn nan_slots(&mut self, class: u32, obj: Op, slots: &Vec<Ty>)
        ensures
            final(self).env() == old(self).env(),
            final(self).st() == scheme::nan_slots(
                old(self).st(),
                class,
                obj,
                slots@,
                slots@.len(),
            ),
            step(
                old(self).st(),
                final(self).st(),
                has(old(self).st(), obj),
                true,
            ),
    {
        let ghost env0 = self.env();
        let ghost st0 = self.st();
        let mut k: usize = 0;
        while k < slots.len()
            invariant
                k <= slots@.len(),
                self.env() == env0,
                self.st() == scheme::nan_slots(st0, class, obj, slots@, k as nat),
                env0 == old(self).env(),
                step(old(self).st(), self.st(), has(old(self).st(), obj), true),
            decreases slots@.len() - k,
        {
            if slots[k] == Ty::Number {
                let fp = self.val(Cmd::InstanceField(class, obj, (k + 1) as u32));
                self.emit(Cmd::Store(fp, Op::F64(F64_NAN)));
            }
            k = k + 1;
        }
    }

    fn alloc_object(&mut self, class: u32) -> (r: Op)
        ensures
            final(self).env() == old(self).env(),
            (final(self).st(), r) == scheme::alloc_object(old(self).st(), class),
            step(
                old(self).st(),
                final(self).st(),
                true,
                has(final(self).st(), r),
            ),
    {
        self.rt2(
            "vs_alloc_object",
            Some(LTy::Ptr),
            p(Op::Rtti(class)),
            (LTy::I64, Op::SizeOf(class)),
        )
    }

    fn call(&mut self, e: &'a Expr) -> (res: Val)
        ensures
            final(self).env() == old(self).env(),
            (final(self).st(), res) == scheme::call(old(self).env(), old(self).st(), e),
            step(
                old(self).st(),
                final(self).st(),
                env_has(old(self).env(), old(self).st()),
                has_val(final(self).st(), res),
            ),
        decreases e, 0nat,
    {
        match &e.kind {
            ExprKind::CallFn(f, args) => {
                let xs = self.exprs(args);
                self.pass_vals(&xs);
                let r = self.val(Cmd::CallFn(*f));
                self.wrap_basic(r, e.ty)
            },
            ExprKind::CallDirect { fn_id, recv, args } => {
                let obj = self.expr_obj(recv);
                let xs = self.exprs(args);
                self.arg(p(obj));
                self.pass_vals(&xs);
                let r = self.val(Cmd::CallFn(*fn_id));
                if (fn_id.0 as usize) < self.program.functions.len() {
                    let ret = self.program.functions[fn_id.0 as usize].ret;
                    self.wrap_basic(r, ret)
                } else {
                    self.bad()
                }
            },
            ExprKind::New(class, args) => if (*class as usize) < self.program.classes.len() {
                let program = self.program;
                let c: &'a crate::mir::Class = &program.classes[*class as usize];
                let obj = self.alloc_object(*class);
                self.nan_slots(*class, obj, &c.slots);
                let xs = self.exprs(args);
                self.arg(p(obj));
                self.pass_vals(&xs);
                self.emit(Cmd::CallFn(c.ctor));
                Val::Obj(obj)
            } else {
                self.bad()
            },
            ExprKind::BoundMethod(recv, class, vslot) => {
                let obj = self.expr_obj(recv);
                self.null_check(obj);
                self.make_closure(
                    WrapTarget::Virtual { class: *class, vslot: *vslot },
                    0,
                    Op::Null,
                    obj,
                )
            },
            _ => self.bad(),
        }
    }

    pub fn method_at(&self, class: u32, vslot: usize) -> (r: Option<FnId>)
        ensures
            r == scheme::method_at(self.env(), class, vslot),
    {
        if (class as usize) < self.program.classes.len() {
            let c = &self.program.classes[class as usize];
            if vslot < c.vtable.len() && (c.vtable[vslot].0 as usize)
                < self.program.functions.len() {
                return Some(c.vtable[vslot]);
            }
        }
        None
    }

    pub fn load_method(&mut self, obj: Op, class: u32, vslot: usize) -> (r: Op)
        ensures
            final(self).env() == old(self).env(),
            (final(self).st(), r) == scheme::load_method(old(self).st(), obj, class, vslot),
            step(
                old(self).st(),
                final(self).st(),
                has(old(self).st(), obj),
                has(final(self).st(), r),
            ),
    {
        let desc = self.val(Cmd::Load(LTy::Ptr, obj));
        let vt = self.val(Cmd::Vtable(class, desc));
        let mp = self.val(Cmd::Elem(LTy::Ptr, vt, Op::I32(vslot as u32)));
        self.val(Cmd::Load(LTy::Ptr, mp))
    }

    fn dispatch(&mut self, e: &'a Expr) -> (res: Val)
        ensures
            final(self).env() == old(self).env(),
            (final(self).st(), res) == scheme::dispatch(old(self).env(), old(self).st(), e),
            step(
                old(self).st(),
                final(self).st(),
                env_has(old(self).env(), old(self).st()),
                has_val(final(self).st(), res),
            ),
        decreases e, 0nat,
    {
        match &e.kind {
            ExprKind::CallVirtual { recv, class, vslot, args } => {
                let obj = self.expr_obj(recv);
                self.null_check(obj);
                let f = self.load_method(obj, *class, *vslot);
                match self.method_at(*class, *vslot) {
                    Some(m) => {
                        let xs = self.exprs(args);
                        self.arg(p(obj));
                        self.pass_vals(&xs);
                        let r = self.val(Cmd::CallMethod(f, m));
                        let ret = self.program.functions[m.0 as usize].ret;
                        self.call_result(r, ret, e.ty, &xs)
                    },
                    None => self.bad(),
                }
            },
            ExprKind::CallIface { recv, iface, islot, ret, args } => {
                let obj = self.expr_obj(recv);
                let table = self.rt2("vs_iface_table", Some(LTy::Ptr), p(obj), i(*iface));
                let mp = self.val(Cmd::Elem(LTy::Ptr, table, Op::I32(*islot as u32)));
                let f = self.val(Cmd::Load(LTy::Ptr, mp));
                let xs = self.exprs(args);
                self.arg(p(obj));
                self.pass_typed(&xs, args);
                let r = self.val(Cmd::CallPtr(f, storage(*ret)));
                self.call_result(r, *ret, e.ty, &xs)
            },
            _ => self.bad(),
        }
    }

    fn bound_this(&mut self, v: Val) -> (r: Op)
        ensures
            final(self).env() == old(self).env(),
            (final(self).st(), r) == scheme::bound_this(old(self).st(), v),
            step(
                old(self).st(),
                final(self).st(),
                has_val(old(self).st(), v),
                has(final(self).st(), r),
            ),
    {
        match v {
            Val::Obj(x) => x,
            Val::Any(x) => self.rt2("vs_any_as_class", Some(LTy::Ptr), p(x), p(Op::Rtti(0))),
            _ => Op::Null,
        }
    }

    fn call_fn_value(&mut self, e: &'a Expr) -> (res: Val)
        ensures
            final(self).env() == old(self).env(),
            (final(self).st(), res) == scheme::call_fn_value(old(self).env(), old(self).st(), e),
            step(
                old(self).st(),
                final(self).st(),
                env_has(old(self).env(), old(self).st()),
                has_val(final(self).st(), res),
            ),
        decreases e, 0nat,
    {
        match &e.kind {
            ExprKind::CallFnValue { callee, this_arg, args, is_apply } => {
                let cv = self.expr(callee);
                let c = self.fun_of(cv);
                let this = match this_arg {
                    Some(t) => {
                        let v = self.expr(t);
                        self.bound_this(v)
                    },
                    None => Op::Null,
                };
                let out = self.val(Cmd::Alloca(LTy::Any, 1));
                if *is_apply {
                    let arr = if args.len() > 0 {
                        match self.nth(args, 0) {
                            Val::Arr(a) | Val::Str(a) => a,
                            _ => Op::Null,
                        }
                    } else {
                        Op::Null
                    };
                    self.rt4("vs_closure_apply", None, p(c), p(this), p(arr), p(out));
                } else {
                    let buf = self.staged(args);
                    self.rt5(
                        "vs_closure_call",
                        None,
                        p(c),
                        p(this),
                        i(args.len() as u32),
                        p(buf),
                        p(out),
                    );
                }
                self.unbox_any_ptr(out, e.ty)
            },
            _ => self.bad(),
        }
    }

    pub fn is_nan(&mut self, v: Op) -> (r: Op)
        ensures
            final(self).env() == old(self).env(),
            (final(self).st(), r) == scheme::is_nan(old(self).st(), v),
            step(
                old(self).st(),
                final(self).st(),
                has(old(self).st(), v),
                has(final(self).st(), r),
            ),
    {
        self.val(Cmd::FCmp(FloatPred::UNO, v, v))
    }

    pub fn is_finite(&mut self, v: Op) -> (r: Op)
        ensures
            final(self).env() == old(self).env(),
            (final(self).st(), r) == scheme::is_finite(old(self).st(), v),
            step(
                old(self).st(),
                final(self).st(),
                has(old(self).st(), v),
                has(final(self).st(), r),
            ),
    {
        let d = self.val(Cmd::Float(FloatOp::Sub_, v, v));
        self.val(Cmd::FCmp(FloatPred::OEQ, d, Op::F64(F64_ZERO)))
    }

    fn builtin(&mut self, e: &'a Expr) -> (res: Val)
        ensures
            final(self).env() == old(self).env(),
            (final(self).st(), res) == scheme::builtin(old(self).env(), old(self).st(), e),
            step(
                old(self).st(),
                final(self).st(),
                env_has(old(self).env(), old(self).st()),
                has_val(final(self).st(), res),
            ),
        decreases e, 0nat,
    {
        match &e.kind {
            ExprKind::CallBuiltin(b, args) => match *b {
                Builtin::Trace => {
                    let arr = self.staged(args);
                    self.rt2("vs_trace", None, i(args.len() as u32), p(arr));
                    Val::Void
                },
                Builtin::IsNaN => {
                    let v = self.nth_num(args, 0);
                    Val::Bool(self.is_nan(v))
                },
                Builtin::IsFinite => {
                    let v = self.nth_num(args, 0);
                    Val::Bool(self.is_finite(v))
                },
                _ => match builtin_plan(*b) {
                    Some(plan) => self.planned(plan, args),
                    None => self.bad(),
                },
            },
            _ => self.bad(),
        }
    }

    fn opt_arg(&mut self, kind: Kind, args: &'a Vec<Expr>, k: usize) -> (r: Option<(LTy, Op)>)
        ensures
            final(self).env() == old(self).env(),
            (final(self).st(), r) == scheme::opt_arg(
                old(self).env(),
                old(self).st(),
                kind,
                args@,
                k as int,
            ),
            step(
                old(self).st(),
                final(self).st(),
                env_has(old(self).env(), old(self).st()),
                has_opt(final(self).st(), r),
            ),
        decreases args, 2nat,
    {
        if k < args.len() {
            self.plan_arg(kind, args, k)
        } else {
            None
        }
    }

    fn pass_opt(&mut self, a: Option<(LTy, Op)>)
        ensures
            final(self).env() == old(self).env(),
            final(self).st() == scheme::pass_opt(old(self).st(), a),
            step(
                old(self).st(),
                final(self).st(),
                has_opt(old(self).st(), a),
                true,
            ),
    {
        if let Some(x) = a {
            self.arg(x);
        }
    }

    fn str_method(&mut self, e: &'a Expr) -> (res: Val)
        ensures
            final(self).env() == old(self).env(),
            (final(self).st(), res) == scheme::str_method(old(self).env(), old(self).st(), e),
            step(
                old(self).st(),
                final(self).st(),
                env_has(old(self).env(), old(self).st()),
                has_val(final(self).st(), res),
            ),
        decreases e, 0nat,
    {
        match &e.kind {
            ExprKind::CallStrMethod(m, recv, args) => {
                let this = self.expr_str(recv);
                let (name, ka, kb, ret): (&'static str, Kind, Kind, LTy) = str_sig(*m);
                match *m {
                    StrMethod::Replace => {
                        let this = self.expr_str(recv);
                        let a = self.nth_str(args, 0);
                        let b = self.nth_str(args, 1);
                        Val::Str(self.rt3(name, Some(ret), p(this), p(a), p(b)))
                    },
                    StrMethod::Split => {
                        let this = self.expr_str(recv);
                        let a = self.nth_str(args, 0);
                        let b = self.nth_num(args, 1);
                        Val::Arr(self.rt3(name, Some(ret), p(this), p(a), (LTy::F64, b)))
                    },
                    _ => {
                        let a = self.opt_arg(ka, args, 0);
                        let b = self.opt_arg(kb, args, 1);
                        self.arg(p(this));
                        self.pass_opt(a);
                        self.pass_opt(b);
                        let r = self.rt0(name, Some(ret));
                        match ret {
                            LTy::Ptr => Val::Str(r),
                            LTy::F64 => Val::Num(r),
                            _ => Val::Int(r),
                        }
                    },
                }
            },
            ExprKind::CallNumMethod(m, recv, args) => {
                let this = self.expr_num(recv);
                let a = self.nth_num(args, 0);
                let name = match *m {
                    NumMethod::ToString => "vs_num_to_string_radix",
                    NumMethod::ToFixed => "vs_num_to_fixed",
                };
                Val::Str(self.rt2(name, Some(LTy::Ptr), (LTy::F64, this), (LTy::F64, a)))
            },
            _ => self.bad(),
        }
    }

    fn native(&mut self, e: &'a Expr) -> (res: Val)
        ensures
            final(self).env() == old(self).env(),
            (final(self).st(), res) == scheme::native(old(self).env(), old(self).st(), e),
            step(
                old(self).st(),
                final(self).st(),
                env_has(old(self).env(), old(self).st()),
                has_val(final(self).st(), res),
            ),
        decreases e, 0nat,
    {
        match &e.kind {
            ExprKind::CallNative(nf, args) => match *nf {
                NativeFn::MathRound => {
                    let x = self.nth_num(args, 0);
                    let sum = self.val(Cmd::Float(FloatOp::Add_, x, Op::F64(F64_HALF)));
                    Val::Num(self.rt1("floor", Some(LTy::F64), (LTy::F64, sum)))
                },
                NativeFn::MathMin => Val::Num(self.fold_pairs("vs_math_min2", args)),
                NativeFn::MathMax => Val::Num(self.fold_pairs("vs_math_max2", args)),
                NativeFn::SystemExit => {
                    let code = self.nth_int(args, 0);
                    self.rt1("vs_system_exit", None, (LTy::I32, code));
                    self.term(Cmd::Unreachable);
                    let dead: usize = self.new_block();
                    self.at(dead);
                    Val::Void
                },
                NativeFn::DateUTC => {
                    let arr = self.staged_f64(args);
                    Val::Num(
                        self.rt2("vs_date_utc", Some(LTy::F64), i(args.len() as u32), p(arr)),
                    )
                },
                NativeFn::JsonParse => {
                    let text = self.nth_str(args, 0);
                    let out = self.val(Cmd::Alloca(LTy::Any, 1));
                    self.rt4(
                        "vs_json_parse",
                        None,
                        p(text),
                        p(Op::Rtti(0)),
                        (LTy::I64, Op::SizeOf(0)),
                        p(out),
                    );
                    Val::Any(out)
                },
                _ => match native_plan(*nf) {
                    Some(plan) => self.planned(plan, args),
                    None => self.bad(),
                },
            },
            _ => self.bad(),
        }
    }

    fn regex(&mut self, e: &'a Expr) -> (res: Val)
        ensures
            final(self).env() == old(self).env(),
            (final(self).st(), res) == scheme::regex(old(self).env(), old(self).st(), e),
            step(
                old(self).st(),
                final(self).st(),
                env_has(old(self).env(), old(self).st()),
                has_val(final(self).st(), res),
            ),
        decreases e, 0nat,
    {
        match &e.kind {
            ExprKind::NewRegExp(args) => {
                let pat = self.nth_str(args, 0);
                let flags = if args.len() > 1 {
                    self.nth_str(args, 1)
                } else {
                    Op::Null
                };
                Val::Reg(self.rt2("vs_regexp_new", Some(LTy::Ptr), p(pat), p(flags)))
            },
            ExprKind::CallRegex(op, args) => match *op {
                RegexOp::Test => {
                    let re = self.nth_regex(args, 0);
                    let s = self.nth_str(args, 1);
                    let r = self.rt2("vs_regexp_test", Some(LTy::I32), p(re), p(s));
                    Val::Bool(self.val(Cmd::Cast(Cast::Trunc1, r)))
                },
                RegexOp::Exec => {
                    let re = self.nth_regex(args, 0);
                    let s = self.nth_str(args, 1);
                    Val::Arr(self.rt2("vs_regexp_exec", Some(LTy::Ptr), p(re), p(s)))
                },
                RegexOp::Match => {
                    let re = self.nth_regex(args, 1);
                    let s = self.nth_str(args, 0);
                    Val::Arr(self.rt2("vs_str_match_re", Some(LTy::Ptr), p(s), p(re)))
                },
                RegexOp::Search => {
                    let s = self.nth_str(args, 0);
                    let re = self.nth_regex(args, 1);
                    Val::Int(self.rt2("vs_str_search_re", Some(LTy::I32), p(s), p(re)))
                },
                RegexOp::Replace => {
                    let s = self.nth_str(args, 0);
                    let re = self.nth_regex(args, 1);
                    let with = self.nth_str(args, 2);
                    Val::Str(
                        self.rt3("vs_str_replace_re", Some(LTy::Ptr), p(s), p(re), p(with)),
                    )
                },
                RegexOp::ToString => {
                    let re = self.nth_regex(args, 0);
                    Val::Str(self.rt1("vs_regexp_display", Some(LTy::Ptr), p(re)))
                },
                RegexOp::Source => {
                    let re = self.nth_regex(args, 0);
                    Val::Str(self.rt1("vs_regexp_source", Some(LTy::Ptr), p(re)))
                },
                RegexOp::Global | RegexOp::IgnoreCase | RegexOp::Multiline => {
                    let re = self.nth_regex(args, 0);
                    let mask: u32 = match *op {
                        RegexOp::Global => 1,
                        RegexOp::IgnoreCase => 2,
                        _ => 4,
                    };
                    let r = self.rt2("vs_regexp_flag", Some(LTy::I32), p(re), i(mask));
                    Val::Bool(self.val(Cmd::Cast(Cast::Trunc1, r)))
                },
                RegexOp::LastIndex => {
                    let re = self.nth_regex(args, 0);
                    Val::Int(self.rt1("vs_regexp_last_index", Some(LTy::I32), p(re)))
                },
            },
            _ => self.bad(),
        }
    }

    fn date_socket(&mut self, e: &'a Expr) -> (res: Val)
        ensures
            final(self).env() == old(self).env(),
            (final(self).st(), res) == scheme::date_socket(old(self).env(), old(self).st(), e),
            step(
                old(self).st(),
                final(self).st(),
                env_has(old(self).env(), old(self).st()),
                has_val(final(self).st(), res),
            ),
        decreases e, 0nat,
    {
        match &e.kind {
            ExprKind::NewDate(args) => {
                let arr = self.staged_f64(args);
                Val::Dat(self.rt2("vs_date_new", Some(LTy::Ptr), i(args.len() as u32), p(arr)))
            },
            ExprKind::CallDate(f, args) => {
                let d = match self.nth(args, 0) {
                    Val::Dat(x) => x,
                    _ => {
                        self.fail();
                        Op::Null
                    },
                };
                match *f {
                    DateFn::Get(k) => Val::Num(
                        self.rt2("vs_date_get", Some(LTy::F64), p(d), i(k)),
                    ),
                    DateFn::SetTime => {
                        let tv = self.nth(args, 1);
                        let t = self.num_of(tv);
                        Val::Num(self.rt2("vs_date_set_time", Some(LTy::F64), p(d), (LTy::F64, t)))
                    },
                    DateFn::Format(k) => Val::Str(
                        self.rt2("vs_date_to_string", Some(LTy::Ptr), p(d), i(k)),
                    ),
                }
            },
            ExprKind::CallSocket(op, args) => {
                let s = match self.nth(args, 0) {
                    Val::Sock(x) => x,
                    _ => {
                        self.fail();
                        Op::Null
                    },
                };
                match *op {
                    SocketOp::Write => {
                        let data = self.nth_str(args, 1);
                        self.rt2("vs_socket_write", None, p(s), p(data));
                        Val::Void
                    },
                    SocketOp::ReadLine => Val::Str(
                        self.rt1("vs_socket_read_line", Some(LTy::Ptr), p(s)),
                    ),
                    SocketOp::Read => {
                        let max = self.nth_int(args, 1);
                        Val::Str(self.rt2("vs_socket_read", Some(LTy::Ptr), p(s), (LTy::I32, max)))
                    },
                    SocketOp::Close => {
                        self.rt1("vs_socket_close", None, p(s));
                        Val::Void
                    },
                    SocketOp::Accept => Val::Sock(
                        self.rt1("vs_socket_accept", Some(LTy::Ptr), p(s)),
                    ),
                    SocketOp::LocalPort => Val::Int(
                        self.rt1("vs_socket_local_port", Some(LTy::I32), p(s)),
                    ),
                }
            },
            _ => self.bad(),
        }
    }

    fn namespace(&mut self, e: &'a Expr) -> (res: Val)
        ensures
            final(self).env() == old(self).env(),
            (final(self).st(), res) == scheme::namespace(old(self).env(), old(self).st(), e),
            step(
                old(self).st(),
                final(self).st(),
                env_has(old(self).env(), old(self).st()),
                has_val(final(self).st(), res),
            ),
        decreases e, 0nat,
    {
        match &e.kind {
            ExprKind::NewNamespace(uri) => {
                let u = self.expr_str(uri);
                Val::Ns(self.rt1("vs_namespace_new", Some(LTy::Ptr), p(u)))
            },
            ExprKind::NsUri(q) => {
                let n = self.expr_ns(q);
                Val::Str(self.rt1("vs_namespace_uri", Some(LTy::Ptr), p(n)))
            },
            ExprKind::NsGet(recv, q, name) => {
                let r = self.expr_box(recv);
                let n = self.expr_ns(q);
                let (g, len): (Op, u32) = self.utf8_lit(name);
                let out = self.val(Cmd::Alloca(LTy::Any, 1));
                self.rt5("vs_ns_get", None, p(r), p(n), p(g), i(len), p(out));
                Val::Any(out)
            },
            ExprKind::NsCall(recv, q, name, args) => {
                let r = self.expr_box(recv);
                let n = self.expr_ns(q);
                let (g, len): (Op, u32) = self.utf8_lit(name);
                let arr = self.staged(args);
                let out = self.val(Cmd::Alloca(LTy::Any, 1));
                self.arg(p(r));
                self.arg(p(n));
                self.rt5(
                    "vs_ns_call",
                    None,
                    p(g),
                    i(len),
                    i(args.len() as u32),
                    p(arr),
                    p(out),
                );
                Val::Any(out)
            },
            _ => self.bad(),
        }
    }

    fn arr_method(&mut self, e: &'a Expr) -> (res: Val)
        ensures
            final(self).env() == old(self).env(),
            (final(self).st(), res) == scheme::arr_method(old(self).env(), old(self).st(), e),
            step(
                old(self).st(),
                final(self).st(),
                env_has(old(self).env(), old(self).st()),
                has_val(final(self).st(), res),
            ),
        decreases e, 0nat,
    {
        match &e.kind {
            ExprKind::CallArr(m, recv, args) => {
                let s = self.expr_seq(recv);
                let n = i(args.len() as u32);
                match *m {
                    ArrMethod::Push => {
                        let buf = self.staged(args);
                        Val::UInt(self.rt3("vs_arr_push", Some(LTy::I32), p(s), n, p(buf)))
                    },
                    ArrMethod::Unshift => {
                        let buf = self.staged(args);
                        Val::UInt(self.rt3("vs_arr_unshift", Some(LTy::I32), p(s), n, p(buf)))
                    },
                    ArrMethod::Pop => {
                        let out = self.val(Cmd::Alloca(LTy::Any, 1));
                        self.rt2("vs_arr_pop", None, p(s), p(out));
                        Val::Any(out)
                    },
                    ArrMethod::Shift => {
                        let out = self.val(Cmd::Alloca(LTy::Any, 1));
                        self.rt2("vs_arr_shift", None, p(s), p(out));
                        Val::Any(out)
                    },
                    ArrMethod::Slice => {
                        let a = self.num_or(args, 0, F64_ZERO);
                        let b = self.num_or(args, 1, F64_MAX);
                        Val::Arr(
                            self.rt3(
                                "vs_arr_slice",
                                Some(LTy::Ptr),
                                p(s),
                                (LTy::F64, a),
                                (LTy::F64, b),
                            ),
                        )
                    },
                    ArrMethod::Splice => {
                        let a = self.num_or(args, 0, F64_ZERO);
                        let b = self.num_or(args, 1, F64_MAX);
                        let buf = self.staged_tail(args);
                        let rest: usize = if args.len() > 2 {
                            args.len() - 2
                        } else {
                            0
                        };
                        Val::Arr(
                            self.rt5(
                                "vs_arr_splice",
                                Some(LTy::Ptr),
                                p(s),
                                (LTy::F64, a),
                                (LTy::F64, b),
                                i(rest as u32),
                                p(buf),
                            ),
                        )
                    },
                    ArrMethod::IndexOf => {
                        let x = self.nth_box(args, 0);
                        let from = self.num_or(args, 1, F64_ZERO);
                        Val::Int(
                            self.rt3(
                                "vs_arr_index_of",
                                Some(LTy::I32),
                                p(s),
                                p(x),
                                (LTy::F64, from),
                            ),
                        )
                    },
                    ArrMethod::Concat => {
                        let buf = self.staged(args);
                        Val::Arr(self.rt3("vs_arr_concat", Some(LTy::Ptr), p(s), n, p(buf)))
                    },
                    ArrMethod::Join => {
                        let sep = if args.len() == 0 {
                            Op::Null
                        } else {
                            self.nth_str(args, 0)
                        };
                        Val::Str(self.rt2("vs_arr_join", Some(LTy::Ptr), p(s), p(sep)))
                    },
                    ArrMethod::ForEach
                    | ArrMethod::MapM
                    | ArrMethod::Filter
                    | ArrMethod::SomeM
                    | ArrMethod::Every => {
                        let cb = self.nth_fun(args, 0);
                        let mode: u32 = match *m {
                            ArrMethod::ForEach => 0,
                            ArrMethod::MapM => 1,
                            ArrMethod::Filter => 2,
                            ArrMethod::SomeM => 3,
                            _ => 4,
                        };
                        let out = self.val(Cmd::Alloca(LTy::Any, 1));
                        self.rt4("vs_arr_iterate", None, p(s), p(cb), i(mode), p(out));
                        match *m {
                            ArrMethod::ForEach => Val::Void,
                            ArrMethod::MapM | ArrMethod::Filter => self.unbox_any_ptr(
                                out,
                                Ty::Array,
                            ),
                            _ => self.unbox_any_ptr(out, Ty::Boolean),
                        }
                    },
                    ArrMethod::Sort => if args.len() > 0 {
                        let by = self.nth_fun(args, 0);
                        Val::Arr(self.rt2("vs_arr_sort_with", Some(LTy::Ptr), p(s), p(by)))
                    } else {
                        Val::Arr(self.rt1("vs_arr_sort", Some(LTy::Ptr), p(s)))
                    },
                    ArrMethod::Reverse => Val::Arr(
                        self.rt1("vs_arr_reverse", Some(LTy::Ptr), p(s)),
                    ),
                }
            },
            _ => self.bad(),
        }
    }

    fn vec_method(&mut self, e: &'a Expr) -> (res: Val)
        ensures
            final(self).env() == old(self).env(),
            (final(self).st(), res) == scheme::vec_method(old(self).env(), old(self).st(), e),
            step(
                old(self).st(),
                final(self).st(),
                env_has(old(self).env(), old(self).st()),
                has_val(final(self).st(), res),
            ),
        decreases e, 0nat,
    {
        match &e.kind {
            ExprKind::CallVec(m, recv, args) => {
                let s = self.expr_seq(recv);
                let n = i(args.len() as u32);
                match *m {
                    VecMethod::Push => {
                        let buf = self.staged(args);
                        Val::UInt(self.rt3("vs_vec_push", Some(LTy::I32), p(s), n, p(buf)))
                    },
                    VecMethod::Unshift => {
                        let buf = self.staged(args);
                        Val::UInt(self.rt3("vs_vec_unshift", Some(LTy::I32), p(s), n, p(buf)))
                    },
                    VecMethod::Pop => {
                        let out = self.val(Cmd::Alloca(LTy::Any, 1));
                        self.rt2("vs_vec_pop", None, p(s), p(out));
                        self.unbox_any_ptr(out, e.ty)
                    },
                    VecMethod::Shift => {
                        let out = self.val(Cmd::Alloca(LTy::Any, 1));
                        self.rt2("vs_vec_shift", None, p(s), p(out));
                        self.unbox_any_ptr(out, e.ty)
                    },
                    VecMethod::Slice => {
                        let a = self.num_or(args, 0, F64_ZERO);
                        let b = self.num_or(args, 1, F64_MAX);
                        Val::VecP(
                            self.rt3(
                                "vs_vec_slice",
                                Some(LTy::Ptr),
                                p(s),
                                (LTy::F64, a),
                                (LTy::F64, b),
                            ),
                        )
                    },
                    VecMethod::IndexOf => {
                        let x = self.nth_box(args, 0);
                        let from = self.num_or(args, 1, F64_ZERO);
                        Val::Int(
                            self.rt3(
                                "vs_vec_index_of",
                                Some(LTy::I32),
                                p(s),
                                p(x),
                                (LTy::F64, from),
                            ),
                        )
                    },
                    VecMethod::Join => {
                        let sep = if args.len() == 0 {
                            Op::Null
                        } else {
                            self.nth_str(args, 0)
                        };
                        Val::Str(self.rt2("vs_vec_join", Some(LTy::Ptr), p(s), p(sep)))
                    },
                    VecMethod::Reverse => Val::VecP(
                        self.rt1("vs_vec_reverse", Some(LTy::Ptr), p(s)),
                    ),
                }
            },
            _ => self.bad(),
        }
    }

    fn seq_get(&mut self, e: &'a Expr) -> (res: Val)
        ensures
            final(self).env() == old(self).env(),
            (final(self).st(), res) == scheme::seq_get(old(self).env(), old(self).st(), e),
            step(
                old(self).st(),
                final(self).st(),
                env_has(old(self).env(), old(self).st()),
                has_val(final(self).st(), res),
            ),
        decreases e, 0nat,
    {
        match &e.kind {
            ExprKind::SeqGet(recv, idx, unchecked) => {
                let s = self.expr_seq(recv);
                let k = self.expr_num(idx);
                match self.unboxed_vec(recv.ty) {
                    Some((_, ety)) => if *unchecked {
                        let (_len, data) = self.vec_header(s);
                        let ep = self.vec_elem(ety, data, k);
                        let x = self.val(Cmd::Load(ety, ep));
                        self.elem_val(x, e.ty)
                    } else {
                        let (len, data) = self.vec_header(s);
                        let len_f = self.val(Cmd::Cast(Cast::UiToFp, len));
                        let inb = self.idx_in_bounds(k, len_f);
                        let fast: usize = self.new_block();
                        let slow: usize = self.new_block();
                        self.term(Cmd::CondBr(inb, fast, slow));
                        self.at(slow);
                        let out = self.val(Cmd::Alloca(LTy::Any, 1));
                        self.rt3("vs_vec_get", None, p(s), (LTy::F64, k), p(out));
                        self.term(Cmd::Unreachable);
                        self.at(fast);
                        let ep = self.vec_elem(ety, data, k);
                        let x = self.val(Cmd::Load(ety, ep));
                        self.elem_val(x, e.ty)
                    },
                    None => {
                        let out = self.val(Cmd::Alloca(LTy::Any, 1));
                        let name = if is_vec(recv.ty) {
                            "vs_vec_get"
                        } else {
                            "vs_arr_get"
                        };
                        self.rt3(name, None, p(s), (LTy::F64, k), p(out));
                        self.unbox_any_ptr(out, e.ty)
                    },
                }
            },
            _ => self.bad(),
        }
    }

    fn seq_set(&mut self, e: &'a Expr) -> (res: Val)
        ensures
            final(self).env() == old(self).env(),
            (final(self).st(), res) == scheme::seq_set(old(self).env(), old(self).st(), e),
            step(
                old(self).st(),
                final(self).st(),
                env_has(old(self).env(), old(self).st()),
                has_val(final(self).st(), res),
            ),
        decreases e, 0nat,
    {
        match &e.kind {
            ExprKind::SeqSet(recv, idx, v, unchecked) => match self.unboxed_vec(recv.ty) {
                Some((kind, ety)) => {
                    let value = self.expr(v);
                    let scalar = self.vec_scalar(value, kind);
                    let s = self.expr_seq(recv);
                    let k = self.expr_num(idx);
                    let (len, data) = self.vec_header(s);
                    if *unchecked {
                        let ep = self.vec_elem(ety, data, k);
                        self.emit(Cmd::Store(ep, scalar));
                        value
                    } else {
                        let len_f = self.val(Cmd::Cast(Cast::UiToFp, len));
                        let inb = self.idx_in_bounds(k, len_f);
                        let fast: usize = self.new_block();
                        let slow: usize = self.new_block();
                        let cont: usize = self.new_block();
                        self.term(Cmd::CondBr(inb, fast, slow));
                        self.at(fast);
                        let ep = self.vec_elem(ety, data, k);
                        self.emit(Cmd::Store(ep, scalar));
                        self.term(Cmd::Br(cont));
                        self.at(slow);
                        let b = self.box_value(value);
                        self.rt3("vs_vec_set", None, p(s), (LTy::F64, k), p(b));
                        self.term(Cmd::Br(cont));
                        self.at(cont);
                        value
                    }
                },
                None => {
                    let s = self.expr_seq(recv);
                    let k = self.expr_num(idx);
                    let value = self.expr(v);
                    let b = self.box_value(value);
                    let name = if is_vec(recv.ty) {
                        "vs_vec_set"
                    } else {
                        "vs_arr_set"
                    };
                    self.rt3(name, None, p(s), (LTy::F64, k), p(b));
                    value
                },
            },
            _ => self.bad(),
        }
    }

    fn sequence(&mut self, e: &'a Expr) -> (res: Val)
        ensures
            final(self).env() == old(self).env(),
            (final(self).st(), res) == scheme::sequence(old(self).env(), old(self).st(), e),
            step(
                old(self).st(),
                final(self).st(),
                env_has(old(self).env(), old(self).st()),
                has_val(final(self).st(), res),
            ),
        decreases e, 0nat,
    {
        match &e.kind {
            ExprKind::StrLen(recv) => match self.expr(recv) {
                Val::Str(x) => Val::Int(self.rt1("vs_string_length", Some(LTy::I32), p(x))),
                _ => self.bad(),
            },
            ExprKind::SeqLen(recv) => {
                let s = self.expr_seq(recv);
                let name = if is_vec(recv.ty) {
                    "vs_vec_len"
                } else {
                    "vs_arr_len"
                };
                Val::UInt(self.rt1(name, Some(LTy::I32), p(s)))
            },
            ExprKind::SeqSetLen(recv, v) => {
                let s = self.expr_seq(recv);
                let n = self.expr_int(v);
                let name = if is_vec(recv.ty) {
                    "vs_vec_set_len"
                } else {
                    "vs_arr_set_len"
                };
                self.rt2(name, None, p(s), (LTy::I32, n));
                Val::UInt(n)
            },
            ExprKind::EnumLen(v) => {
                let b = self.expr_box(v);
                Val::Int(self.rt1("vs_enum_len2", Some(LTy::I32), p(b)))
            },
            ExprKind::EnumKey(v, k) => {
                let b = self.expr_box(v);
                let x = self.expr_int(k);
                let out = self.val(Cmd::Alloca(LTy::Any, 1));
                self.rt3("vs_enum_key2", None, p(b), (LTy::I32, x), p(out));
                Val::Any(out)
            },
            ExprKind::EnumValue(v, k) => {
                let b = self.expr_box(v);
                let x = self.expr_int(k);
                let out = self.val(Cmd::Alloca(LTy::Any, 1));
                self.rt3("vs_enum_value2", None, p(b), (LTy::I32, x), p(out));
                Val::Any(out)
            },
            ExprKind::ArrayLit(els) => {
                let arr = self.val(Cmd::Alloca(LTy::Any, at_least_one(els.len() as u32)));
                self.stage_opt(arr, els);
                Val::Arr(self.rt2("vs_array_new", Some(LTy::Ptr), i(els.len() as u32), p(arr)))
            },
            ExprKind::VectorLit(inst, els) => {
                let buf = self.staged(els);
                match self.vec_kind(*inst) {
                    Some(kind) => Val::VecP(
                        self.rt4(
                            "vs_vector_new",
                            Some(LTy::Ptr),
                            i(*inst),
                            i(kind),
                            i(els.len() as u32),
                            p(buf),
                        ),
                    ),
                    None => self.bad(),
                }
            },
            _ => self.bad(),
        }
    }

    fn dynamic(&mut self, e: &'a Expr) -> (res: Val)
        ensures
            final(self).env() == old(self).env(),
            (final(self).st(), res) == scheme::dynamic(old(self).env(), old(self).st(), e),
            step(
                old(self).st(),
                final(self).st(),
                env_has(old(self).env(), old(self).st()),
                has_val(final(self).st(), res),
            ),
        decreases e, 0nat,
    {
        match &e.kind {
            ExprKind::ObjectLit(props) => {
                let obj = self.alloc_object(0);
                let b = self.box_value(Val::Obj(obj));
                self.set_props(b, props);
                Val::Any(b)
            },
            ExprKind::PropGet(recv, name) => {
                let b = self.expr_box(recv);
                let key = self.const_string(name);
                let out = self.val(Cmd::Alloca(LTy::Any, 1));
                self.rt3("vs_any_get_prop", None, p(b), p(key), p(out));
                self.unbox_any_ptr(out, e.ty)
            },
            ExprKind::PropSet(recv, name, v) => {
                let b = self.expr_box(recv);
                let key = self.const_string(name);
                let x = self.expr(v);
                let y = self.box_value(x);
                self.rt3("vs_any_set_prop", None, p(b), p(key), p(y));
                x
            },
            ExprKind::PropCall(recv, name, args) => {
                let b = self.expr_box(recv);
                let key = self.const_string(name);
                let buf = self.staged(args);
                let out = self.val(Cmd::Alloca(LTy::Any, 1));
                self.rt5(
                    "vs_any_call_prop",
                    None,
                    p(b),
                    p(key),
                    i(args.len() as u32),
                    p(buf),
                    p(out),
                );
                self.unbox_any_ptr(out, e.ty)
            },
            ExprKind::AnyIndexGet(recv, key) => {
                let b = self.expr_box(recv);
                let k = self.expr_box(key);
                let out = self.val(Cmd::Alloca(LTy::Any, 1));
                self.rt3("vs_any_index_get", None, p(b), p(k), p(out));
                self.unbox_any_ptr(out, e.ty)
            },
            ExprKind::AnyIndexSet(recv, key, v) => {
                let b = self.expr_box(recv);
                let k = self.expr_box(key);
                let x = self.expr(v);
                let y = self.box_value(x);
                self.rt3("vs_any_index_set", None, p(b), p(k), p(y));
                x
            },
            ExprKind::HasProp(key, obj) => {
                let k = self.expr_box(key);
                let o = self.expr_box(obj);
                let r = self.rt2("vs_any_has_prop", Some(LTy::I32), p(k), p(o));
                Val::Bool(self.nonzero(r))
            },
            ExprKind::DeleteProp(obj, name) => {
                let o = self.expr_box(obj);
                let key = self.const_string(name);
                let r = self.rt2("vs_any_delete_prop", Some(LTy::I32), p(o), p(key));
                Val::Bool(self.nonzero(r))
            },
            _ => self.bad(),
        }
    }

    /// Emits an expression and yields its value.
    pub fn expr(&mut self, e: &'a Expr) -> (res: Val)
        ensures
            final(self).env() == old(self).env(),
            (final(self).st(), res) == scheme::expr(old(self).env(), old(self).st(), e),
            step(
                old(self).st(),
                final(self).st(),
                env_has(old(self).env(), old(self).st()),
                has_val(final(self).st(), res),
            ),
            chooses(old(self).env(), old(self).st(), final(self).st(), e),
        decreases e, 2nat,
    {
        reveal(chooses);
        match &e.kind {
            ExprKind::LocalSet(..)
            | ExprKind::CaptureSet(..)
            | ExprKind::StaticSet(..)
            | ExprKind::FieldGet(..)
            | ExprKind::FieldSet(..)
            | ExprKind::FieldIncDec { .. } => self.storage_expr(e),
            ExprKind::Unary(..)
            | ExprKind::Binary(..)
            | ExprKind::Logical { .. }
            | ExprKind::Conditional(..)
            | ExprKind::Comma(..)
            | ExprKind::Is(..)
            | ExprKind::As(..)
            | ExprKind::Conv(..) => self.operator(e),
            ExprKind::CallFn(..)
            | ExprKind::CallDirect { .. }
            | ExprKind::New(..)
            | ExprKind::BoundMethod(..) => self.call(e),
            ExprKind::CallVirtual { .. } | ExprKind::CallIface { .. } => self.dispatch(e),
            ExprKind::CallFnValue { .. } => self.call_fn_value(e),
            ExprKind::CallBuiltin(..) => self.builtin(e),
            ExprKind::CallStrMethod(..) | ExprKind::CallNumMethod(..) => self.str_method(e),
            ExprKind::CallNative(..) => self.native(e),
            ExprKind::NewRegExp(..) | ExprKind::CallRegex(..) => self.regex(e),
            ExprKind::NewDate(..) | ExprKind::CallDate(..) | ExprKind::CallSocket(..) =>
                self.date_socket(e),
            ExprKind::NewNamespace(..)
            | ExprKind::NsUri(..)
            | ExprKind::NsGet(..)
            | ExprKind::NsCall(..) => self.namespace(e),
            ExprKind::CallArr(..) => self.arr_method(e),
            ExprKind::CallVec(..) => self.vec_method(e),
            ExprKind::SeqGet(..) => self.seq_get(e),
            ExprKind::SeqSet(..) => self.seq_set(e),
            ExprKind::StrLen(..)
            | ExprKind::SeqLen(..)
            | ExprKind::SeqSetLen(..)
            | ExprKind::EnumLen(..)
            | ExprKind::EnumKey(..)
            | ExprKind::EnumValue(..)
            | ExprKind::ArrayLit(..)
            | ExprKind::VectorLit(..) => self.sequence(e),
            ExprKind::ObjectLit(..)
            | ExprKind::PropGet(..)
            | ExprKind::PropSet(..)
            | ExprKind::PropCall(..)
            | ExprKind::AnyIndexGet(..)
            | ExprKind::AnyIndexSet(..)
            | ExprKind::HasProp(..)
            | ExprKind::DeleteProp(..) => self.dynamic(e),
            _ => self.leaf(e),
        }
    }
}

fn str_sig(m: StrMethod) -> (r: (&'static str, Kind, Kind, LTy))
    ensures
        r == scheme::str_sig(m),
{
    match m {
        StrMethod::CharAt => ("vs_str_char_at", Kind::Num, Kind::Absent, LTy::Ptr),
        StrMethod::CharCodeAt => ("vs_str_char_code_at", Kind::Num, Kind::Absent, LTy::F64),
        StrMethod::IndexOf => ("vs_str_index_of", Kind::Str, Kind::Num, LTy::I32),
        StrMethod::LastIndexOf => ("vs_str_last_index_of", Kind::Str, Kind::Num, LTy::I32),
        StrMethod::Slice => ("vs_str_slice", Kind::Num, Kind::Num, LTy::Ptr),
        StrMethod::Substring => ("vs_str_substring", Kind::Num, Kind::Num, LTy::Ptr),
        StrMethod::Substr => ("vs_str_substr", Kind::Num, Kind::Num, LTy::Ptr),
        StrMethod::ToLowerCase => ("vs_str_to_lower", Kind::Absent, Kind::Absent, LTy::Ptr),
        StrMethod::ToUpperCase => ("vs_str_to_upper", Kind::Absent, Kind::Absent, LTy::Ptr),
        StrMethod::ToString => ("vs_str_to_string", Kind::Absent, Kind::Absent, LTy::Ptr),
        StrMethod::Split => ("vs_str_split", Kind::Str, Kind::Num, LTy::Ptr),
        StrMethod::Replace => ("vs_str_replace", Kind::Str, Kind::Str, LTy::Ptr),
    }
}

} // verus!
