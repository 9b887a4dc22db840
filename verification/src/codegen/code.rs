//! The command sequence that a function body compiles to.
//!
//! A body is a list of builder commands. A command that yields a value is
//! named by its index in the list; a block is named by the index of the
//! command that created it. Values and blocks carry no names of their own.

use vstd::prelude::*;

use crate::mir::{Builtin, FnId, Function, Program, Stmt, Ty};
use crate::codegen::sound::{
    allowed, carries, ends, entry, even, fits, group_sound, handles, has, has_block, height,
    lemma_at, lemma_emit, lemma_fail, lemma_push, lemma_stray, lemma_term, level_with, neat, own, part, plain,
    step, unentered, yields,
};

verus! {

broadcast use group_sound;

/// A storage type.
#[derive(Clone, Copy, Debug, PartialEq, Eq, Structural)]
pub enum LTy {
    I1,
    I8,
    I32,
    I64,
    F64,
    Ptr,
    /// The box `{ i32 tag, i64 payload }` of an untyped value.
    Any,
}

/// What a boxed-convention wrapper forwards to.
#[derive(Clone, Copy, Debug, PartialEq, Eq, Structural)]
pub enum WrapTarget {
    Direct(FnId),
    Virtual { class: u32, vslot: usize },
    Builtin(Builtin),
}

/// An operand.
#[derive(Clone, Copy, Debug, PartialEq, Eq, Structural)]
pub enum Op {
    /// The value that the command at this index yields.
    Val(usize),
    I1(bool),
    I32(u32),
    I64(u64),
    /// A double by its bit pattern.
    F64(u64),
    /// The null pointer.
    Null,
    /// The all-zero box, which is `undefined`.
    Undefined,
    /// A parameter of the function.
    Param(u32),
    /// The descriptor of a class.
    Rtti(u32),
    /// The storage of a static field.
    Static(u32, usize),
    /// The instance size of a class in bytes, as an `i64`.
    SizeOf(u32),
    /// The address of a wrapper.
    Wrapper(WrapTarget),
}

#[derive(Clone, Copy, Debug, PartialEq, Eq, Structural)]
pub enum IntOp {
    Add_,
    Sub_,
    And,
    Or,
    Xor,
    Shl,
    /// Arithmetic shift right.
    AShr,
    /// Logical shift right.
    LShr,
}

#[derive(Clone, Copy, Debug, PartialEq, Eq, Structural)]
pub enum FloatOp {
    Add_,
    Sub_,
    Mul_,
    Div,
    Rem,
}

#[derive(Clone, Copy, Debug, PartialEq, Eq, Structural)]
pub enum IntPred {
    EQ,
    NE,
    /// Unsigned greater-than.
    UGT,
}

/// Float predicates; all but `UNO` are ordered (false on NaN).
#[derive(Clone, Copy, Debug, PartialEq, Eq, Structural)]
pub enum FloatPred {
    OEQ,
    ONE,
    OLT,
    OGT,
    OLE,
    OGE,
    /// True if either side is NaN.
    UNO,
}

#[derive(Clone, Copy, Debug, PartialEq, Eq, Structural)]
pub enum Cast {
    /// Signed `i32` to double.
    SiToFp,
    /// Unsigned `i32` to double.
    UiToFp,
    /// Double to signed `i32`.
    FpToSi,
    /// Double to unsigned `i32`.
    FpToUi,
    /// Double to unsigned `i64`.
    FpToU64,
    ZExt32,
    ZExt64,
    SExt64,
    /// To `i1`.
    Trunc1,
    /// Double to its bits as `i64`.
    Bits,
    PtrToI64,
}

/// One builder command.
#[derive(Clone, Copy, Debug)]
pub enum Cmd<'a> {
    /// Creates a block, without entering it.
    NewBlock,
    /// Continues at the end of a block.
    At(usize),
    Br(usize),
    CondBr(Op, usize, usize),
    Ret(Op),
    RetVoid,
    Unreachable,
    /// Stack storage in the entry block: element type and count.
    Alloca(LTy, u32),
    Load(LTy, Op),
    /// Address, value.
    Store(Op, Op),
    Int(IntOp, Op, Op),
    Float(FloatOp, Op, Op),
    FNeg(Op),
    INeg(Op),
    Not(Op),
    ICmp(IntPred, Op, Op),
    FCmp(FloatPred, Op, Op),
    IsNull(Op),
    IsNotNull(Op),
    Select(Op, Op, Op),
    Cast(Cast, Op),
    /// Address of the tag (0) or the payload (1) of a box.
    BoxField(Op, u32),
    /// Address of an instance slot: class, object, struct field.
    InstanceField(u32, Op, u32),
    /// Address of the vtable of a descriptor of a class.
    Vtable(u32, Op),
    /// Address of element `index` from `base`.
    Elem(LTy, Op, Op),
    /// A UTF-8 literal of the program.
    Text(&'a String),
    /// A UTF-8 literal of the compiler.
    Lit(&'static str),
    /// Appends an argument to the pending call.
    Arg(LTy, Op),
    /// Calls a runtime function with the pending arguments.
    CallRt(&'static str, Option<LTy>),
    /// As `CallRt`, of a function that can return twice.
    CallTwice(&'static str, Option<LTy>),
    /// Calls a compiled function with the pending arguments.
    CallFn(FnId),
    /// Calls through a pointer with the pending arguments, by the signature
    /// of a method of the program.
    CallMethod(Op, FnId),
    /// Calls through a pointer with the pending arguments, by their types and
    /// the given result type.
    CallPtr(Op, Option<LTy>),
    /// Type, then each incoming value with its block.
    Phi(LTy, Op, usize, Op, usize),
    /// Installs the handler whose buffer is at the address.
    PushHandler(Op),
    /// Uninstalls the handler that was installed last.
    PopHandler,
}

/// A computed value: its kind and its operand.
#[derive(Clone, Copy, Debug, PartialEq, Eq, Structural)]
pub enum Val {
    Int(Op),
    UInt(Op),
    Num(Op),
    Bool(Op),
    /// String pointer (possibly null).
    Str(Op),
    /// Class instance pointer (possibly null).
    Obj(Op),
    Arr(Op),
    VecP(Op),
    Fun(Op),
    Reg(Op),
    Dat(Op),
    Sock(Op),
    Ns(Op),
    /// Address of a box.
    Any(Op),
    Void,
}

/// The storage of a local.
#[derive(Clone, Copy, Debug, PartialEq, Eq, Structural)]
pub struct Slot {
    pub ptr: Op,
    pub ty: Ty,
    /// The slot holds a heap cell with a boxed value.
    pub is_cell: bool,
}

/// A loop or `switch` that `break` and `continue` can leave.
#[derive(Debug)]
pub struct Frame<'a> {
    pub label: Option<&'a String>,
    pub break_bb: usize,
    /// `None` for `switch`.
    pub continue_bb: Option<usize>,
    /// Depth of the cleanup stack at creation.
    pub exit_depth: usize,
}

/// One pending cleanup on an early exit that crosses a `try` region.
#[derive(Debug)]
pub struct ExitAction<'a> {
    /// The handler of the region is still installed.
    pub pop_handler: bool,
    /// The `finally` block to inline.
    pub finally: Option<&'a Vec<Stmt>>,
}

/// What stays fixed while one statement or expression is compiled.
pub ghost struct Env<'a> {
    pub program: &'a Program,
    pub func: &'a Function,
    pub windows: bool,
    pub locals: Seq<Slot>,
    pub frames: Seq<Frame<'a>>,
    /// For each frame, whether control is on its way out of it: while a pending
    /// `finally` block is inlined, that holds of the frames inside its `try`.
    pub left: Seq<bool>,
    pub exits: Seq<ExitAction<'a>>,
}

/// What the compilation of a construct extends.
pub ghost struct St<'a> {
    pub code: Seq<Cmd<'a>>,
    /// The block being filled.
    pub block: usize,
    /// That block has no terminator yet.
    pub open: bool,
    /// No operand of an impossible kind was met so far.
    pub ok: bool,
    /// A jump went to a frame that control was on its way out of.
    pub astray: bool,
}

impl<'a> St<'a> {
    /// The operand that the next command will yield.
    pub open spec fn next(self) -> Op {
        Op::Val(self.code.len() as usize)
    }

    pub open spec fn push(self, c: Cmd<'a>) -> St<'a> {
        St { code: self.code.push(c), ..self }
    }

    /// A command that ends the current block.
    pub open spec fn term(self, c: Cmd<'a>) -> St<'a> {
        St { code: self.code.push(c), open: false, ..self }
    }

    pub open spec fn at(self, block: usize) -> St<'a> {
        St { code: self.code.push(Cmd::At(block)), block, open: true, ..self }
    }

    pub open spec fn fail(self) -> St<'a> {
        St { ok: false, ..self }
    }

    /// Notes whether a jump goes astray.
    pub open spec fn stray(self, b: bool) -> St<'a> {
        St { astray: self.astray || b, ..self }
    }

    pub open spec fn val(self, c: Cmd<'a>) -> (St<'a>, Op) {
        (self.push(c), self.next())
    }

    /// Creates a block; it is named by the index of the command.
    pub open spec fn new_block(self) -> (St<'a>, usize) {
        (self.push(Cmd::NewBlock), self.code.len() as usize)
    }

    pub open spec fn branch_if_open(self, target: usize) -> St<'a> {
        if self.open {
            self.term(Cmd::Br(target))
        } else {
            self
        }
    }
}

/// Emission state of one function.
pub struct FnCx<'a> {
    pub program: &'a Program,
    pub func: &'a Function,
    pub windows: bool,
    pub locals: Vec<Slot>,
    pub frames: Vec<Frame<'a>>,
    pub exits: Vec<ExitAction<'a>>,
    pub code: Vec<Cmd<'a>>,
    pub block: usize,
    pub open: bool,
    pub ok: bool,
    pub left: Ghost<Seq<bool>>,
    pub astray: Ghost<bool>,
}

impl<'a> FnCx<'a> {
    pub open spec fn env(&self) -> Env<'a> {
        Env {
            program: self.program,
            func: self.func,
            windows: self.windows,
            locals: self.locals@,
            frames: self.frames@,
            left: self.left@,
            exits: self.exits@,
        }
    }

    pub open spec fn st(&self) -> St<'a> {
        St {
            code: self.code@,
            block: self.block,
            open: self.open,
            ok: self.ok,
            astray: self.astray@,
        }
    }

    /// Emits a command that yields a value.
    pub fn val(&mut self, c: Cmd<'a>) -> (r: Op)
        ensures
            final(self).env() == old(self).env(),
            (final(self).st(), r) == old(self).st().val(c),
            part(
                old(self).st(),
                final(self).st(),
                allowed(old(self).st(), c),
                yields(c) ==> has(final(self).st(), r),
            ),
            plain(c) ==> carries(old(self).st(), final(self).st()),
    {
        let id: usize = self.code.len();
        proof {
            lemma_push(old(self).st(), c);
        }
        self.code.push(c);
        Op::Val(id)
    }

    /// Emits a command.
    pub fn emit(&mut self, c: Cmd<'a>)
        ensures
            final(self).env() == old(self).env(),
            final(self).st() == old(self).st().push(c),
            part(
                old(self).st(),
                final(self).st(),
                allowed(old(self).st(), c),
                true,
            ),
            plain(c) ==> carries(old(self).st(), final(self).st()),
            handles(c) ==> own(old(self).st(), final(self).st()) && (neat(old(self).st())
                && old(self).st().open ==> neat(final(self).st())),
            c is PushHandler ==> height(final(self).st()) == height(old(self).st()) + 1,
            c is PopHandler ==> height(final(self).st()) == height(old(self).st()) - 1,
            even(old(self).st()) && fits(old(self).st(), c) ==> even(final(self).st()),
    {
        proof {
            lemma_emit(old(self).st(), c);
        }
        self.code.push(c);
    }

    /// Emits a command that ends the current block.
    pub fn term(&mut self, c: Cmd<'a>)
        ensures
            final(self).env() == old(self).env(),
            final(self).st() == old(self).st().term(c),
            part(
                old(self).st(),
                final(self).st(),
                allowed(old(self).st(), c),
                true,
            ),
            ends(c) ==> own(old(self).st(), final(self).st()),
            neat(old(self).st()) && old(self).st().open && ends(c) ==> neat(final(self).st()),
            ends(c) ==> height(final(self).st()) == height(old(self).st()),
            even(old(self).st()) && fits(old(self).st(), c) ==> even(final(self).st()),
    {
        proof {
            lemma_term(old(self).st(), c);
        }
        self.code.push(c);
        self.open = false;
    }

    /// Continues at the end of `block`.
    pub fn at(&mut self, block: usize)
        ensures
            final(self).env() == old(self).env(),
            final(self).st() == old(self).st().at(block),
            part(
                old(self).st(),
                final(self).st(),
                has_block(old(self).st(), block),
                true,
            ),
            neat(old(self).st()) && !old(self).st().open && unentered(old(self).st(), block) ==> neat(
                final(self).st(),
            ),
            forall|s: St| #[trigger]
                own(s, old(self).st()) && block >= s.code.len() ==> own(s, final(self).st()),
            forall|x: usize| #[trigger]
                unentered(old(self).st(), x) && x != block ==> unentered(final(self).st(), x),
            forall|n: int| #[trigger]
                entry(old(self).st(), block, n) ==> height(final(self).st()) == n,
            even(old(self).st()) ==> even(final(self).st()),
    {
        proof {
            lemma_at(old(self).st(), block);
        }
        self.code.push(Cmd::At(block));
        self.block = block;
        self.open = true;
    }

    /// Records that an operand of an impossible kind was met.
    pub fn fail(&mut self)
        ensures
            final(self).env() == old(self).env(),
            final(self).st() == old(self).st().fail(),
            step(
                old(self).st(),
                final(self).st(),
                true,
                true,
            ),
            neat(old(self).st()) ==> neat(final(self).st()),
    {
        proof {
            lemma_fail(old(self).st());
        }
        self.ok = false;
    }

    /// Notes whether a jump goes astray.
    pub fn stray(&mut self, Ghost(b): Ghost<bool>)
        ensures
            final(self).env() == old(self).env(),
            final(self).st() == old(self).st().stray(b),
            step(
                old(self).st(),
                final(self).st(),
                true,
                true,
            ),
            neat(old(self).st()) ==> neat(final(self).st()),
    {
        proof {
            lemma_stray(old(self).st(), b);
        }
        let ghost now = self.astray@ || b;
        self.astray = Ghost(now);
    }

    pub fn new_block(&mut self) -> (r: usize)
        ensures
            final(self).env() == old(self).env(),
            (final(self).st(), r) == old(self).st().new_block(),
            part(
                old(self).st(),
                final(self).st(),
                true,
                has_block(final(self).st(), r),
            ),
            r == old(self).st().code.len(),
            own(old(self).st(), final(self).st()),
            neat(old(self).st()) ==> neat(final(self).st()) && unentered(final(self).st(), r),
            entry(final(self).st(), r, height(old(self).st())),
            level_with(old(self).st(), final(self).st()),
    {
        let id: usize = self.code.len();
        proof {
            lemma_push(old(self).st(), Cmd::NewBlock);
        }
        self.code.push(Cmd::NewBlock);
        id
    }

    pub fn branch_if_open(&mut self, target: usize)
        ensures
            final(self).env() == old(self).env(),
            final(self).st() == old(self).st().branch_if_open(target),
            part(
                old(self).st(),
                final(self).st(),
                has_block(old(self).st(), target),
                true,
            ),
            own(old(self).st(), final(self).st()),
            neat(old(self).st()) ==> neat(final(self).st()),
            height(final(self).st()) == height(old(self).st()),
            even(old(self).st()) && (old(self).st().open ==> entry(
                old(self).st(),
                target,
                height(old(self).st()),
            )) ==> even(final(self).st()),
    {
        if self.open {
            self.term(Cmd::Br(target));
        }
    }
}

} // verus!
