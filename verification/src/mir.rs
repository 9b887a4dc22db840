//! The mid-level IR: typed, desugared and backend-agnostic.
//!
//! Number literals are held as IEEE-754 bit patterns.

use vstd::prelude::*;

use crate::span::Span;

verus! {

/// A value type as the backend sees it.
#[derive(Clone, Copy, Debug, PartialEq, Eq, Structural)]
pub enum Ty {
    Int,
    UInt,
    Number,
    Boolean,
    String,
    /// Instance of a class (payload: class index).
    Object(u32),
    /// Value seen through an interface (payload: interface index).
    Iface(u32),
    Array,
    /// `Vector.<T>` (payload: index into [`Program::vectors`]).
    Vector(u32),
    Function,
    RegExp,
    Date,
    Socket,
    Namespace,
    /// The untyped type `*`.
    Any,
    Void,
}

/// A local slot of a function.
#[derive(Clone, Copy, Debug, PartialEq, Eq, Structural)]
pub struct LocalId(pub u32);

/// A function of the program.
#[derive(Clone, Copy, Debug, PartialEq, Eq, Structural)]
pub struct FnId(pub u32);

#[derive(Clone, Copy, Debug, PartialEq, Eq, Structural)]
pub enum UnOp {
    Not,
    BitNot,
    Neg,
    TypeOf,
}

#[derive(Clone, Copy, Debug, PartialEq, Eq, Structural)]
pub enum BinOp {
    Add,
    Sub,
    Mul,
    Div,
    Rem,
    Shl,
    Shr,
    Ushr,
    BitAnd,
    BitOr,
    BitXor,
    Lt,
    Gt,
    Le,
    Ge,
    Eq,
    Ne,
    StrictEq,
    StrictNe,
}

/// An explicit conversion.
#[derive(Clone, Copy, Debug, PartialEq, Eq, Structural)]
pub enum Conv {
    ToInt,
    ToUInt,
    ToNumber,
    ToBoolean,
    ToString,
    ToAny,
    AnyToString,
    AnyToObject(u32),
    AnyToArray,
    AnyToVector(u32),
    AnyToRegExp,
    AnyToSocket,
    AnyToDate,
    AnyToIface(u32),
}

/// A global builtin function.
#[derive(Clone, Copy, Debug, PartialEq, Eq, Structural)]
pub enum Builtin {
    Trace,
    ParseInt,
    ParseFloat,
    IsNaN,
    IsFinite,
    EncodeUriComponent,
    DecodeUriComponent,
    Escape,
    Unescape,
}

#[derive(Clone, Copy, Debug, PartialEq, Eq, Structural)]
pub enum StrMethod {
    CharAt,
    CharCodeAt,
    IndexOf,
    LastIndexOf,
    Slice,
    Substring,
    Substr,
    ToLowerCase,
    ToUpperCase,
    ToString,
    Split,
    Replace,
}

#[derive(Clone, Copy, Debug, PartialEq, Eq, Structural)]
pub enum NumMethod {
    ToString,
    ToFixed,
}

#[derive(Clone, Copy, Debug, PartialEq, Eq, Structural)]
pub enum ArrMethod {
    Push,
    Unshift,
    Pop,
    Shift,
    Slice,
    Splice,
    IndexOf,
    Concat,
    Join,
    ForEach,
    MapM,
    Filter,
    SomeM,
    Every,
    Sort,
    Reverse,
}

#[derive(Clone, Copy, Debug, PartialEq, Eq, Structural)]
pub enum VecMethod {
    Push,
    Unshift,
    Pop,
    Shift,
    Slice,
    IndexOf,
    Join,
    Reverse,
}

#[derive(Clone, Copy, Debug, PartialEq, Eq, Structural)]
pub enum RegexOp {
    Test,
    Exec,
    Match,
    Search,
    Replace,
    ToString,
    Source,
    Global,
    IgnoreCase,
    Multiline,
    LastIndex,
}

#[derive(Clone, Copy, Debug, PartialEq, Eq, Structural)]
pub enum SocketOp {
    Write,
    ReadLine,
    Read,
    Close,
    Accept,
    LocalPort,
}

/// A `Date` instance operation.
#[derive(Clone, Copy, Debug, PartialEq, Eq, Structural)]
pub enum DateFn {
    /// A component getter by index.
    Get(u32),
    SetTime,
    /// A string form by index.
    Format(u32),
}

/// A native static function.
#[derive(Clone, Copy, Debug, PartialEq, Eq, Structural)]
pub enum NativeFn {
    MathAbs,
    MathCeil,
    MathFloor,
    MathSqrt,
    MathExp,
    MathLog,
    MathSin,
    MathCos,
    MathTan,
    MathAsin,
    MathAcos,
    MathAtan,
    MathPow,
    MathAtan2,
    MathRound,
    MathMin,
    MathMax,
    MathRandom,
    SystemArgs,
    SystemExit,
    SystemGc,
    SystemGcLiveBytes,
    SystemGetenv,
    SystemTime,
    SystemReadLine,
    SocketConnect,
    ServerSocketBind,
    DateUTC,
    DateNow,
    FileRead,
    FileWrite,
    FileRemove,
    FileMkdir,
    FileRmdir,
    FileIsDirectory,
    FileAppend,
    FileCopy,
    FileRename,
    FileList,
    FileSize,
    FileMtime,
    FileExists,
    JsonStringify,
    JsonParse,
}

/// Where a closure takes a captured cell from.
#[derive(Clone, Copy, Debug, PartialEq, Eq, Structural)]
pub enum CapSrc {
    ParentLocal(LocalId),
    ParentCapture(usize),
}

/// A typed expression.
#[derive(Debug)]
pub struct Expr {
    pub ty: Ty,
    pub span: Span,
    pub kind: ExprKind,
}

#[derive(Debug)]
pub enum ExprKind {
    Int(i32),
    UInt(u32),
    Number(u64),
    Str(String),
    Bool(bool),
    Null,
    Undefined,
    This,
    LocalGet(LocalId),
    LocalSet(LocalId, Box<Expr>),
    IncDec { target: LocalId, is_inc: bool, is_prefix: bool },
    CaptureGet(usize),
    CaptureSet(usize, Box<Expr>),
    CaptureIncDec { slot: usize, is_inc: bool, is_prefix: bool },
    StaticGet(u32, usize),
    StaticSet(u32, usize, Box<Expr>),
    StaticIncDec { class: u32, index: usize, is_inc: bool, is_prefix: bool },
    FieldGet(Box<Expr>, u32, usize),
    FieldSet(Box<Expr>, u32, usize, Box<Expr>),
    FieldIncDec { recv: Box<Expr>, class: u32, slot: usize, is_inc: bool, is_prefix: bool },
    Unary(UnOp, Box<Expr>),
    Binary(BinOp, Box<Expr>, Box<Expr>),
    Logical { is_and: bool, lhs: Box<Expr>, rhs: Box<Expr> },
    Conditional(Box<Expr>, Box<Expr>, Box<Expr>),
    Comma(Box<Expr>, Box<Expr>),
    Is(Box<Expr>, Ty),
    As(Box<Expr>, Ty),
    Conv(Conv, Box<Expr>),
    CallFn(FnId, Vec<Expr>),
    CallBuiltin(Builtin, Vec<Expr>),
    CallStrMethod(StrMethod, Box<Expr>, Vec<Expr>),
    CallNumMethod(NumMethod, Box<Expr>, Vec<Expr>),
    CallArr(ArrMethod, Box<Expr>, Vec<Expr>),
    CallVec(VecMethod, Box<Expr>, Vec<Expr>),
    CallNative(NativeFn, Vec<Expr>),
    CallRegex(RegexOp, Vec<Expr>),
    CallDate(DateFn, Vec<Expr>),
    CallSocket(SocketOp, Vec<Expr>),
    CallVirtual { recv: Box<Expr>, class: u32, vslot: usize, args: Vec<Expr> },
    CallIface { recv: Box<Expr>, iface: u32, islot: usize, ret: Ty, args: Vec<Expr> },
    CallDirect { fn_id: FnId, recv: Box<Expr>, args: Vec<Expr> },
    CallFnValue { callee: Box<Expr>, this_arg: Option<Box<Expr>>, args: Vec<Expr>, is_apply: bool },
    New(u32, Vec<Expr>),
    NewRegExp(Vec<Expr>),
    NewDate(Vec<Expr>),
    NewNamespace(Box<Expr>),
    NamespaceVal(u32),
    NsUri(Box<Expr>),
    /// Receiver, qualifier, member name.
    NsGet(Box<Expr>, Box<Expr>, String),
    /// Receiver, qualifier, member name, arguments.
    NsCall(Box<Expr>, Box<Expr>, String, Vec<Expr>),
    StrLen(Box<Expr>),
    SeqLen(Box<Expr>),
    SeqSetLen(Box<Expr>, Box<Expr>),
    /// Receiver, index, and whether the bounds check is proved redundant.
    SeqGet(Box<Expr>, Box<Expr>, bool),
    /// Receiver, index, value, and whether the bounds check is proved redundant.
    SeqSet(Box<Expr>, Box<Expr>, Box<Expr>, bool),
    EnumLen(Box<Expr>),
    EnumKey(Box<Expr>, Box<Expr>),
    EnumValue(Box<Expr>, Box<Expr>),
    PropGet(Box<Expr>, String),
    PropSet(Box<Expr>, String, Box<Expr>),
    PropCall(Box<Expr>, String, Vec<Expr>),
    AnyIndexGet(Box<Expr>, Box<Expr>),
    AnyIndexSet(Box<Expr>, Box<Expr>, Box<Expr>),
    /// Key, object.
    HasProp(Box<Expr>, Box<Expr>),
    DeleteProp(Box<Expr>, String),
    /// Elements; `None` is a hole.
    ArrayLit(Vec<Option<Expr>>),
    VectorLit(u32, Vec<Expr>),
    ObjectLit(Vec<(String, Expr)>),
    /// Pattern, flags.
    RegExpLit(String, String),
    Closure(FnId),
    FnValue(FnId),
    BuiltinValue(Builtin),
    /// Receiver, class, vtable slot.
    BoundMethod(Box<Expr>, u32, usize),
}

#[derive(Debug)]
pub struct Case {
    /// `None` for `default`.
    pub test: Option<Expr>,
    pub body: Vec<Stmt>,
}

#[derive(Debug)]
pub struct Catch {
    pub binding: LocalId,
    pub body: Vec<Stmt>,
}

#[allow(inconsistent_fields)]
#[derive(Debug)]
pub enum Stmt {
    Expr(Expr),
    Assign(LocalId, Expr),
    Block(Vec<Stmt>),
    If { cond: Expr, then_branch: Box<Stmt>, else_branch: Option<Box<Stmt>> },
    While { label: Option<String>, cond: Expr, body: Box<Stmt> },
    DoWhile { label: Option<String>, body: Box<Stmt>, cond: Expr },
    For {
        label: Option<String>,
        init: Option<Box<Stmt>>,
        cond: Option<Expr>,
        update: Option<Expr>,
        body: Box<Stmt>,
    },
    Switch { scrutinee: Expr, cases: Vec<Case> },
    Break { label: Option<String> },
    Continue { label: Option<String> },
    Return { value: Option<Expr> },
    Throw(Expr),
    Try { body: Vec<Stmt>, catches: Vec<Catch>, finally: Option<Vec<Stmt>> },
    Empty,
}

#[derive(Debug)]
pub struct Function {
    pub name: String,
    pub ret: Ty,
    /// Slot types; the first `param_count` are the parameters.
    pub locals: Vec<Ty>,
    pub param_count: usize,
    pub param_defaults: Vec<Option<Expr>>,
    pub body: Vec<Stmt>,
    pub span: Span,
    /// Captured cells, in environment order.
    pub captures: Vec<CapSrc>,
    /// Which locals are captured by an inner closure (missing = no).
    pub captured: Vec<bool>,
    /// The class whose instance is `this`, for methods and constructors.
    pub this_class: Option<u32>,
}

/// A namespaced member, visible to runtime qualification.
#[derive(Debug)]
pub struct NsMember {
    /// Index into [`Program::namespace_uris`].
    pub ns: u32,
    pub name: String,
    pub field_slot: Option<u32>,
    pub field_ty: Option<Ty>,
    pub vslot: Option<u32>,
}

#[derive(Debug)]
pub struct Class {
    pub name: String,
    pub parent: Option<u32>,
    pub slots: Vec<Ty>,
    pub statics: Vec<Ty>,
    pub vtable: Vec<FnId>,
    /// Interface index with its method table.
    pub ifaces: Vec<(u32, Vec<FnId>)>,
    pub to_string: Option<FnId>,
    pub ctor: FnId,
    pub is_dynamic: bool,
    pub ns_members: Vec<NsMember>,
}

/// A whole program; function 0 is the script body.
#[derive(Debug)]
pub struct Program {
    pub functions: Vec<Function>,
    pub classes: Vec<Class>,
    /// Element types of the `Vector.<T>` instantiations.
    pub vectors: Vec<Ty>,
    pub namespace_uris: Vec<String>,
    /// The prelude's error classes.
    pub error_classes: Vec<u32>,
}

} // verus!
