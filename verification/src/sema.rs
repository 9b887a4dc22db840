//! The typed syntax tree: what checking makes of a program.
//!
//! Coercions are explicit and compound assignment is desugared. Number literals
//! are held as IEEE-754 bit patterns.

use vstd::prelude::*;

use crate::ast::nodes::{BinaryOp, PostfixOp, UnaryOp};
use crate::span::Span;

verus! {

/// A static type.
#[derive(Clone, Copy, Debug, PartialEq, Eq, Structural)]
pub enum Ty {
    Int,
    UInt,
    Number,
    Boolean,
    String,
    /// The type of `null`.
    Null,
    Void,
    /// `*`.
    Any,
    Function,
    /// The type of an erroneous expression; none is left after checking.
    Error,
}

#[derive(Clone, Copy, Debug, PartialEq, Eq, Structural)]
pub struct LocalId(pub u32);

#[derive(Clone, Copy, Debug, PartialEq, Eq, Structural)]
pub struct FnId(pub u32);

#[derive(Clone, Copy, Debug, PartialEq, Eq, Structural)]
pub enum BuiltinFn {
    Trace,
    ParseInt,
    ParseFloat,
    IsNaN,
    IsFinite,
}

#[derive(Clone, Copy, Debug, PartialEq, Eq, Structural)]
pub enum Coercion {
    ToInt,
    ToUInt,
    ToNumber,
    ToBoolean,
    ToString,
    ToAny,
    FromAny,
}

#[derive(Debug)]
pub struct TProgram {
    pub functions: Vec<TFunction>,
}

#[derive(Debug)]
pub struct TFunction {
    pub name: String,
    /// The first `param_count` are the parameters.
    pub locals: Vec<TLocal>,
    pub param_count: usize,
    pub return_ty: Ty,
    pub body: Vec<TStmt>,
    pub span: Span,
}

#[derive(Debug)]
pub struct TLocal {
    pub ty: Ty,
    pub is_rest: bool,
    pub default: Option<TExpr>,
}

#[derive(Debug)]
pub struct TStmt {
    pub kind: TStmtKind,
    pub span: Span,
}

#[allow(inconsistent_fields)]
#[derive(Debug)]
pub enum TStmtKind {
    Expr(TExpr),
    Assign(LocalId, TExpr),
    Block(Vec<TStmt>),
    If { cond: TExpr, then_branch: Box<TStmt>, else_branch: Option<Box<TStmt>> },
    While { cond: TExpr, body: Box<TStmt> },
    DoWhile { body: Box<TStmt>, cond: TExpr },
    For {
        init: Option<Box<TStmt>>,
        cond: Option<TExpr>,
        update: Option<TExpr>,
        body: Box<TStmt>,
    },
    ForIn { is_each: bool, target: LocalId, object: TExpr, body: Box<TStmt> },
    Switch { scrutinee: TExpr, cases: Vec<TCase> },
    Break { label: Option<String> },
    Continue { label: Option<String> },
    Return { value: Option<TExpr> },
    Throw { value: TExpr },
    Try { body: Vec<TStmt>, catches: Vec<TCatch>, finally: Option<Vec<TStmt>> },
    Labeled { label: String, body: Box<TStmt> },
    Empty,
}

#[derive(Debug)]
pub struct TCase {
    /// `None` for `default`.
    pub test: Option<TExpr>,
    pub body: Vec<TStmt>,
}

#[derive(Debug)]
pub struct TCatch {
    pub local: LocalId,
    pub body: Vec<TStmt>,
}

#[derive(Debug)]
pub struct TExpr {
    pub ty: Ty,
    pub span: Span,
    pub kind: TExprKind,
}

#[derive(Debug)]
pub enum TExprKind {
    Int(i32),
    UInt(u32),
    Number(u64),
    Str(String),
    Bool(bool),
    Null,
    Undefined,
    LocalGet(LocalId),
    LocalSet(LocalId, Box<TExpr>),
    CallFn(FnId, Vec<TExpr>),
    CallBuiltin(BuiltinFn, Vec<TExpr>),
    CallMethod(Box<TExpr>, String, Vec<TExpr>),
    CallIndirect(Box<TExpr>, Vec<TExpr>),
    Member(Box<TExpr>, String),
    MemberSet(Box<TExpr>, String, Box<TExpr>),
    Index(Box<TExpr>, Box<TExpr>),
    IndexSet(Box<TExpr>, Box<TExpr>, Box<TExpr>),
    Array(Vec<Option<TExpr>>),
    Object(Vec<(String, TExpr)>),
    FnRef(FnId),
    BuiltinRef(BuiltinFn),
    Unary(UnaryOp, Box<TExpr>),
    Postfix(PostfixOp, Box<TExpr>),
    Binary(BinaryOp, Box<TExpr>, Box<TExpr>),
    /// `&&` or `||`.
    Logical(BinaryOp, Box<TExpr>, Box<TExpr>),
    Conditional(Box<TExpr>, Box<TExpr>, Box<TExpr>),
    Is(Box<TExpr>, Ty),
    As(Box<TExpr>, Ty),
    Coerce(Coercion, Box<TExpr>),
    Comma(Box<TExpr>, Box<TExpr>),
    /// An erroneous expression; none is left after checking.
    Error,
}

} // verus!
