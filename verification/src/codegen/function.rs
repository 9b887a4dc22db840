//! Whole functions: slots, prologue, body, and the final return.

use vstd::prelude::*;

use crate::codegen::code::{Cmd, Env, FnCx, LTy, Op, Slot, St};
use crate::codegen::safepoint::{any_stmt_allocs, any_try, contains_try, stmts_alloc};
use crate::codegen::stmt::{default_return, safepoint, stmts};
use crate::codegen::value::{
    basic_ty, box_value, default_op, default_op_of, default_val, i32v, ptr, wrap_basic,
};
use crate::mir::{Function, Program, Ty};
use crate::codegen::handlers::lemma_at_top;
use crate::meaning::code::{is_followed, lemma_body_follows, starts_with};
use crate::codegen::sound::{
    backward, balanced, entry, even, fine, group_sound, grows, has, has_block, has_slots, height,
    in_order, lemma_backward, lemma_balanced, lemma_in_order, lemma_start, neat, part, step,
    unentered,
};

verus! {

broadcast use group_sound;

/// The code of one function.
#[derive(Debug)]
pub struct Body<'a> {
    pub code: Vec<Cmd<'a>>,
    /// The function contains a `try`: its locals must stay in memory, so it
    /// is neither optimised nor inlined.
    pub pinned: bool,
}

/// Whether local `i` lives in a heap cell.
pub open spec fn is_cell_at(f: &Function, i: int) -> bool {
    0 <= i < f.captured@.len() && f.captured@[i]
}

/// How many parameters come before the declared ones: the environment of a
/// capturing function, then `this`.
pub open spec fn implicit_of(f: &Function) -> u32 {
    let env: u32 = if f.captures@.len() > 0 {
        1
    } else {
        0
    };
    let this: u32 = if f.this_class is Some {
        1
    } else {
        0
    };
    (env + this) as u32
}

pub open spec fn param_op(f: &Function, i: int) -> Op {
    Op::Param((i as u32).wrapping_add(implicit_of(f)))
}

/// The slot of local `i`, initialised from its parameter or the default of
/// its type.
pub open spec fn local_slot<'a>(f: &Function, st: St<'a>, i: int) -> (St<'a>, Slot) {
    let ty = f.locals@[i];
    if is_cell_at(f, i) {
        let (st, slot) = st.val(Cmd::Alloca(LTy::Ptr, 1));
        let (st, init) = if i < f.param_count {
            wrap_basic(st, param_op(f, i), ty)
        } else {
            default_val(st, ty)
        };
        let (st, b) = box_value(st, init);
        let (st, cell) = st.rt1("vs_cell_new", Some(LTy::Ptr), ptr(b));
        (st.push(Cmd::Store(slot, cell)), Slot { ptr: slot, ty, is_cell: true })
    } else {
        let (st, t) = basic_ty(st, ty);
        let (st, slot) = st.val(Cmd::Alloca(t, 1));
        let init = if i < f.param_count {
            param_op(f, i)
        } else {
            match default_op_of(ty) {
                Some(x) => x,
                None => Op::Null,
            }
        };
        (st.push(Cmd::Store(slot, init)), Slot { ptr: slot, ty, is_cell: false })
    }
}

/// The slots of the first `n` locals.
pub open spec fn local_slots<'a>(f: &Function, st: St<'a>, n: nat) -> (St<'a>, Seq<Slot>)
    decreases n,
{
    if n == 0 {
        (st, Seq::empty())
    } else {
        let (st, slots) = local_slots(f, st, (n - 1) as nat);
        let (st, s) = local_slot(f, st, n - 1);
        (st, slots.push(s))
    }
}

/// Stores the first `n` error descriptors and instance sizes.
pub open spec fn error_rows<'a>(st: St<'a>, descs: Op, sizes: Op, classes: Seq<u32>, n: nat) -> St<'a>
    decreases n,
{
    if 0 < n <= classes.len() {
        let st = error_rows(st, descs, sizes, classes, (n - 1) as nat);
        let i = Op::I32((n - 1) as u32);
        let (st, d) = st.val(Cmd::Elem(LTy::Ptr, descs, i));
        let st = st.push(Cmd::Store(d, Op::Rtti(classes[n - 1])));
        let (st, s) = st.val(Cmd::Elem(LTy::I64, sizes, i));
        st.push(Cmd::Store(s, Op::SizeOf(classes[n - 1])))
    } else {
        st
    }
}

/// Hands the error classes to the runtime, so that its own faults are thrown
/// as objects.
pub open spec fn register_errors<'a>(st: St<'a>, classes: Seq<u32>) -> St<'a> {
    let n = classes.len() as u32;
    let (st, descs) = st.val(Cmd::Alloca(LTy::Ptr, n));
    let (st, sizes) = st.val(Cmd::Alloca(LTy::I64, n));
    let st = error_rows(st, descs, sizes, classes, classes.len());
    st.rt3("vs_register_errors", None, i32v(n), ptr(descs), ptr(sizes)).0
}

/// How many words of a static can hold references: two for a box, one for a
/// reference, none for a number.
pub open spec fn root_words_of(ty: Ty) -> u32 {
    match ty {
        Ty::Any => 2,
        Ty::Int | Ty::UInt | Ty::Number | Ty::Boolean | Ty::Void => 0,
        _ => 1,
    }
}

pub fn root_words(ty: Ty) -> (r: u32)
    ensures
        r == root_words_of(ty),
{
    match ty {
        Ty::Any => 2,
        Ty::Int | Ty::UInt | Ty::Number | Ty::Boolean | Ty::Void => 0,
        _ => 1,
    }
}

/// Registers the reference-holding statics among the first `n` of a class.
pub open spec fn static_roots<'a>(st: St<'a>, class: u32, statics: Seq<Ty>, n: nat) -> St<'a>
    decreases n,
{
    if 0 < n <= statics.len() {
        let st = static_roots(st, class, statics, (n - 1) as nat);
        let words = root_words_of(statics[n - 1]);
        if words > 0 {
            st.rt2(
                "vs_gc_add_root",
                None,
                ptr(Op::Static(class, (n - 1) as usize)),
                i32v(words),
            ).0
        } else {
            st
        }
    } else {
        st
    }
}

/// Registers the reference-holding statics of the first `n` classes.
pub open spec fn class_roots<'a>(st: St<'a>, program: &Program, n: nat) -> St<'a>
    decreases n,
{
    if 0 < n <= program.classes@.len() {
        let c = program.classes@[n - 1];
        static_roots(
            class_roots(st, program, (n - 1) as nat),
            (n - 1) as u32,
            c.statics@,
            c.statics@.len(),
        )
    } else {
        st
    }
}

pub open spec fn any_captured(f: &Function) -> bool {
    exists|i: int| 0 <= i < f.captured@.len() && #[trigger] f.captured@[i]
}

/// An empty function: block 0 holds the stack storage, block 1 the body.
pub open spec fn fresh<'a>() -> St<'a> {
    St {
        code: seq![Cmd::NewBlock, Cmd::NewBlock, Cmd::At(1)],
        block: 1,
        open: true,
        ok: true,
        astray: false,
    }
}

/// Ends the storage block by a jump to the body.
pub open spec fn close_entry<'a>(st: St<'a>) -> St<'a> {
    st.at(0).term(Cmd::Br(1))
}

pub open spec fn top_env<'a>(
    program: &'a Program,
    f: &'a Function,
    windows: bool,
    locals: Seq<Slot>,
) -> Env<'a> {
    Env {
        program,
        func: f,
        windows,
        locals,
        frames: Seq::empty(),
        left: Seq::empty(),
        exits: Seq::empty(),
    }
}

/// The code of a function. The script body also registers the error classes
/// and the static roots.
pub open spec fn function_code<'a>(
    program: &'a Program,
    f: &'a Function,
    windows: bool,
    is_script: bool,
) -> St<'a> {
    let (st, locals) = local_slots(f, fresh(), f.locals@.len());
    let env = top_env(program, f, windows, locals);
    let st = if is_script {
        let st = if program.error_classes@.len() == 6 {
            register_errors(st, program.error_classes@)
        } else {
            st
        };
        class_roots(st, program, program.classes@.len())
    } else {
        st
    };
    let st = if any_stmt_allocs(f.body@, f.body@.len()) || any_captured(f) {
        safepoint(st)
    } else {
        st
    };
    let st = stmts(env, st, f.body@, f.body@.len());
    let st = if st.open {
        default_return(env, st)
    } else {
        st
    };
    close_entry(st)
}

fn implicit(f: &Function) -> (r: u32)
    ensures
        r == implicit_of(f),
{
    let env: u32 = if f.captures.len() > 0 {
        1
    } else {
        0
    };
    let this: u32 = match f.this_class {
        Some(_) => 1,
        None => 0,
    };
    env + this
}

fn captures_any(f: &Function) -> (r: bool)
    ensures
        r == any_captured(f),
{
    let mut k: usize = 0;
    while k < f.captured.len()
        invariant
            k <= f.captured@.len(),
            forall|i: int| 0 <= i < k ==> !#[trigger] f.captured@[i],
        decreases f.captured@.len() - k,
    {
        if f.captured[k] {
            return true;
        }
        k = k + 1;
    }
    false
}

impl<'a> FnCx<'a> {
    /// An empty function.
    pub fn fresh(program: &'a Program, func: &'a Function, windows: bool) -> (r: FnCx<'a>)
        ensures
            r.env() == top_env(program, func, windows, Seq::empty()),
            r.st() == fresh(),
            r.locals@.len() == 0,
            fine(r.st()),
            has_block(r.st(), 0),
            has_block(r.st(), 1),
            neat(r.st()),
            unentered(r.st(), 0),
            height(r.st()) == 0,
            even(r.st()),
            entry(r.st(), 0, 0),
            entry(r.st(), 1, 0),
    {
        reveal(fine);
        reveal(has_block);
        let mut code: Vec<Cmd<'a>> = Vec::new();
        code.push(Cmd::NewBlock);
        code.push(Cmd::NewBlock);
        code.push(Cmd::At(1));
        let r = FnCx {
            program,
            func,
            windows,
            locals: Vec::new(),
            frames: Vec::new(),
            exits: Vec::new(),
            code,
            block: 1,
            open: true,
            ok: true,
            left: Ghost(Seq::empty()),
            astray: Ghost(false),
        };
        assert(r.code@ =~= fresh().code);
        proof {
            lemma_start(r.st());
        }
        r
    }

    pub fn close_entry(&mut self)
        ensures
            final(self).env() == old(self).env(),
            final(self).st() == close_entry(old(self).st()),
            part(
                old(self).st(),
                final(self).st(),
                has_block(old(self).st(), 0) && has_block(old(self).st(), 1),
                true,
            ),
            neat(old(self).st()) && !old(self).st().open && unentered(old(self).st(), 0) ==> neat(
                final(self).st(),
            ),
            even(old(self).st()) && entry(old(self).st(), 0, 0) && entry(old(self).st(), 1, 0)
                ==> even(final(self).st()),
    {
        self.at(0);
        self.term(Cmd::Br(1));
    }

    fn local_slot(&mut self, i: usize) -> (r: Slot)
        requires
            i < old(self).func.locals@.len(),
        ensures
            final(self).env() == old(self).env(),
            (final(self).st(), r) == local_slot(old(self).func, old(self).st(), i as int),
            step(
                old(self).st(),
                final(self).st(),
                true,
                has(final(self).st(), r.ptr),
            ),
    {
        let f: &'a Function = self.func;
        let ty = f.locals[i];
        let param = Op::Param((i as u32).wrapping_add(implicit(f)));
        if i < f.captured.len() && f.captured[i] {
            let slot = self.val(Cmd::Alloca(LTy::Ptr, 1));
            let init = if i < f.param_count {
                self.wrap_basic(param, ty)
            } else {
                self.default_val(ty)
            };
            let b = self.box_value(init);
            let cell = self.rt1("vs_cell_new", Some(LTy::Ptr), (LTy::Ptr, b));
            self.emit(Cmd::Store(slot, cell));
            Slot { ptr: slot, ty, is_cell: true }
        } else {
            let t = self.basic_ty(ty);
            let slot = self.val(Cmd::Alloca(t, 1));
            let init = if i < f.param_count {
                param
            } else {
                match default_op(ty) {
                    Some(x) => x,
                    None => Op::Null,
                }
            };
            self.emit(Cmd::Store(slot, init));
            Slot { ptr: slot, ty, is_cell: false }
        }
    }

    fn local_slots(&mut self) -> (r: Vec<Slot>)
        ensures
            final(self).env() == old(self).env(),
            (final(self).st(), r@) == local_slots(
                old(self).func,
                old(self).st(),
                old(self).func.locals@.len(),
            ),
            step(
                old(self).st(),
                final(self).st(),
                true,
                has_slots(final(self).st(), r@),
            ),
    {
        let ghost env0 = self.env();
        let ghost st0 = self.st();
        let f: &'a Function = self.func;
        let mut slots: Vec<Slot> = Vec::new();
        let mut k: usize = 0;
        while k < f.locals.len()
            invariant
                k <= f.locals@.len(),
                self.env() == env0,
                f == env0.func,
                (self.st(), slots@) == local_slots(f, st0, k as nat),
                env0 == old(self).env(),
                step(old(self).st(), self.st(), true, has_slots(self.st(), slots@)),
            decreases f.locals@.len() - k,
        {
            let s = self.local_slot(k);
            slots.push(s);
            k = k + 1;
        }
        slots
    }

    fn register_errors(&mut self)
        ensures
            final(self).env() == old(self).env(),
            final(self).st() == register_errors(
                old(self).st(),
                old(self).program.error_classes@,
            ),
            step(
                old(self).st(),
                final(self).st(),
                true,
                true,
            ),
    {
        let program = self.program;
        let classes: &'a Vec<u32> = &program.error_classes;
        let n: u32 = classes.len() as u32;
        let descs = self.val(Cmd::Alloca(LTy::Ptr, n));
        let sizes = self.val(Cmd::Alloca(LTy::I64, n));
        let ghost env0 = self.env();
        let ghost st0 = self.st();
        let mut k: usize = 0;
        while k < classes.len()
            invariant
                k <= classes@.len(),
                self.env() == env0,
                self.st() == error_rows(st0, descs, sizes, classes@, k as nat),
                env0 == old(self).env(),
                step(old(self).st(), self.st(), true, has(self.st(), descs) && has(self.st(), sizes)),
            decreases classes@.len() - k,
        {
            let i = Op::I32(k as u32);
            let d = self.val(Cmd::Elem(LTy::Ptr, descs, i));
            self.emit(Cmd::Store(d, Op::Rtti(classes[k])));
            let s = self.val(Cmd::Elem(LTy::I64, sizes, i));
            self.emit(Cmd::Store(s, Op::SizeOf(classes[k])));
            k = k + 1;
        }
        self.rt3(
            "vs_register_errors",
            None,
            (LTy::I32, Op::I32(n)),
            (LTy::Ptr, descs),
            (LTy::Ptr, sizes),
        );
    }

    fn static_roots(&mut self, class: u32, statics: &Vec<Ty>)
        ensures
            final(self).env() == old(self).env(),
            final(self).st() == static_roots(old(self).st(), class, statics@, statics@.len()),
            step(
                old(self).st(),
                final(self).st(),
                true,
                true,
            ),
    {
        let ghost env0 = self.env();
        let ghost st0 = self.st();
        let mut k: usize = 0;
        while k < statics.len()
            invariant
                k <= statics@.len(),
                self.env() == env0,
                self.st() == static_roots(st0, class, statics@, k as nat),
                env0 == old(self).env(),
                step(old(self).st(), self.st(), true, true),
            decreases statics@.len() - k,
        {
            let words: u32 = root_words(statics[k]);
            if words > 0 {
                self.rt2(
                    "vs_gc_add_root",
                    None,
                    (LTy::Ptr, Op::Static(class, k)),
                    (LTy::I32, Op::I32(words)),
                );
            }
            k = k + 1;
        }
    }

    fn class_roots(&mut self)
        ensures
            final(self).env() == old(self).env(),
            final(self).st() == class_roots(
                old(self).st(),
                old(self).program,
                old(self).program.classes@.len(),
            ),
            step(
                old(self).st(),
                final(self).st(),
                true,
                true,
            ),
    {
        let ghost env0 = self.env();
        let ghost st0 = self.st();
        let program = self.program;
        let mut k: usize = 0;
        while k < program.classes.len()
            invariant
                k <= program.classes@.len(),
                program == env0.program,
                self.env() == env0,
                self.st() == class_roots(st0, program, k as nat),
                env0 == old(self).env(),
                step(old(self).st(), self.st(), true, true),
            decreases program.classes@.len() - k,
        {
            self.static_roots(k as u32, &program.classes[k].statics);
            k = k + 1;
        }
    }

    /// Compiles a function; `None` if the program breaks a rule that the type
    /// checker guarantees.
    pub fn function(program: &'a Program, func: &'a Function, windows: bool, is_script: bool) -> (r:
        Option<Body<'a>>)
        ensures
            r is Some <==> function_code(program, func, windows, is_script).ok,
            r matches Some(b) ==> b.code@ == function_code(program, func, windows, is_script).code
                && b.pinned == any_try(func.body@, func.body@.len()) && backward(b.code@)
                && in_order(b.code@) && (!function_code(program, func, windows, is_script).astray
                ==> balanced(b.code@)) && is_followed(b.code@, func.body@),
    {
        let mut cx = FnCx::fresh(program, func, windows);
        let slots = cx.local_slots();
        cx.locals = slots;
        assert(cx.env() == top_env(program, func, windows, slots@));
        if is_script {
            if program.error_classes.len() == 6 {
                cx.register_errors();
            }
            cx.class_roots();
        }
        if stmts_alloc(&func.body) || captures_any(func) {
            cx.rt0("vs_gc_safepoint", None);
        }
        proof {
            lemma_at_top(cx.env(), cx.st());
        }
        let ghost env0 = cx.env();
        let ghost before = cx.st();
        cx.stmts(&func.body);
        let ghost after = cx.st();
        if cx.open {
            match default_op(func.ret) {
                Some(x) => cx.term(Cmd::Ret(x)),
                None => cx.term(Cmd::RetVoid),
            }
        }
        let ghost closed = cx.st();
        cx.close_entry();
        proof {
            if cx.ok {
                assert(grows(closed, cx.st()));
                assert(starts_with(cx.st().code, after)) by {
                    reveal(starts_with);
                    reveal(grows);
                }
                if after.open {
                    assert(cx.st().code[after.code.len() as int]
                        == closed.code[after.code.len() as int]) by {
                        reveal(grows);
                    }
                }
                lemma_body_follows(env0, before, after, cx.st().code, func.body@);
            }
            lemma_backward(cx.st());
            lemma_in_order(cx.st());
            if cx.ok && !cx.astray@ {
                lemma_balanced(cx.st());
            }
        }
        if cx.ok {
            Some(Body { code: cx.code, pinned: contains_try(&func.body) })
        } else {
            None
        }
    }
}

} // verus!
