//! The nodes of the syntax tree.

use vstd::prelude::*;

use crate::lexer::token::NumLit;
use crate::span::Span;

verus! {

/// A parsed source text: its top-level directives.
#[derive(Debug)]
pub struct Program {
    pub directives: Vec<Stmt>,
    pub span: Span,
}

// --- statements ---------------------------------------------------------------------------

#[derive(Debug)]
pub struct Stmt {
    pub kind: StmtKind,
    pub span: Span,
}

#[allow(inconsistent_fields)]
#[derive(Debug)]
pub enum StmtKind {
    Expr(Expr),
    VarDecl(VarDecl),
    Function(Box<FunctionDecl>),
    Block(Block),
    If { cond: Expr, then_branch: Box<Stmt>, else_branch: Option<Box<Stmt>> },
    While { cond: Expr, body: Box<Stmt> },
    DoWhile { body: Box<Stmt>, cond: Expr },
    For { init: Option<Box<ForInit>>, cond: Option<Expr>, update: Option<Expr>, body: Box<Stmt> },
    /// `for..in` (keys) and `for each..in` (values, `is_each`).
    ForIn { is_each: bool, target: ForInTarget, object: Expr, body: Box<Stmt> },
    Switch { scrutinee: Expr, cases: Vec<SwitchCase> },
    Break { label: Option<String> },
    Continue { label: Option<String> },
    Return { value: Option<Expr> },
    Throw { value: Expr },
    /// There may be several `catch` clauses, told apart by type.
    Try { block: Block, catches: Vec<CatchClause>, finally: Option<Block> },
    Labeled { label: String, body: Box<Stmt> },
    Empty,
    Package { path: Vec<String>, body: Vec<Stmt> },
    Import { path: Vec<String>, wildcard: bool },
    NamespaceDecl { name: String, uri: Option<String> },
    UseNamespace(String),
    Class(Box<ClassDecl>),
    Interface(Box<InterfaceDecl>),
}

/// `{ ... }`; the span includes the braces.
#[derive(Debug)]
pub struct Block {
    pub stmts: Vec<Stmt>,
    pub span: Span,
}

/// The `init` part of a C-style `for`.
#[derive(Debug)]
pub enum ForInit {
    VarDecl(VarDecl),
    Expr(Expr),
}

/// The loop variable of a `for..in` or `for each..in`.
#[derive(Debug)]
pub enum ForInTarget {
    VarDecl(VarDecl),
    Expr(Expr),
}

/// One clause of a `switch`; `test` is `None` for `default`.
#[derive(Debug)]
pub struct SwitchCase {
    pub test: Option<Expr>,
    pub body: Vec<Stmt>,
    pub span: Span,
}

/// One `catch (name:Type) { ... }`; without a type it catches everything.
#[derive(Debug)]
pub struct CatchClause {
    pub name: String,
    pub ty: Option<TypeRef>,
    pub body: Block,
    pub span: Span,
}

/// `var` or `const` with one or more bindings.
#[derive(Debug)]
pub struct VarDecl {
    pub is_const: bool,
    pub bindings: Vec<Binding>,
    pub span: Span,
}

/// One `name:Type = init`.
#[derive(Debug)]
pub struct Binding {
    pub name: String,
    pub ty: Option<TypeRef>,
    pub init: Option<Expr>,
    pub span: Span,
}

// --- functions ----------------------------------------------------------------------------

/// `function name(params):T { ... }`, declaration or expression.
#[derive(Debug)]
pub struct FunctionDecl {
    /// `None` for an anonymous function expression.
    pub name: Option<String>,
    pub type_params: Vec<String>,
    pub params: Vec<Param>,
    pub return_type: Option<TypeRef>,
    pub body: Block,
    pub span: Span,
}

#[derive(Debug)]
pub struct Param {
    pub name: String,
    pub ty: Option<TypeRef>,
    pub default: Option<Expr>,
    /// `...rest`.
    pub rest: bool,
    pub span: Span,
}

// --- classes and interfaces -----------------------------------------------------------------

#[derive(Clone, Copy, Debug, PartialEq, Eq, Structural)]
pub enum Visibility {
    Public,
    Private,
    Protected,
    Internal,
}

/// The modifiers before a declaration.
#[derive(Debug)]
pub struct Attributes {
    pub visibility: Option<Visibility>,
    pub is_static: bool,
    pub is_final: bool,
    pub is_override: bool,
    pub is_dynamic: bool,
    pub is_native: bool,
    /// The namespace that qualifies a member.
    pub namespace_: Option<String>,
}

#[derive(Debug)]
pub struct ClassDecl {
    pub attrs: Attributes,
    pub name: String,
    pub type_params: Vec<String>,
    pub extends: Option<TypeRef>,
    pub implements: Vec<TypeRef>,
    pub members: Vec<Member>,
    pub span: Span,
}

#[derive(Debug)]
pub struct Member {
    pub attrs: Attributes,
    pub kind: MemberKind,
    pub span: Span,
}

#[derive(Debug)]
pub enum MemberKind {
    Field(VarDecl),
    Method(Box<FunctionDecl>),
    Getter(Box<FunctionDecl>),
    Setter(Box<FunctionDecl>),
}

#[derive(Debug)]
pub struct InterfaceDecl {
    pub attrs: Attributes,
    pub name: String,
    pub extends: Vec<TypeRef>,
    pub members: Vec<InterfaceMember>,
    pub span: Span,
}

#[derive(Clone, Copy, Debug, PartialEq, Eq, Structural)]
pub enum SigKind {
    Method,
    Getter,
    Setter,
}

#[derive(Debug)]
pub struct InterfaceMember {
    pub kind: SigKind,
    pub name: String,
    pub params: Vec<Param>,
    pub return_type: Option<TypeRef>,
    pub span: Span,
}

// --- types --------------------------------------------------------------------------------

/// A type as it is written.
#[derive(Debug)]
pub struct TypeRef {
    pub kind: TypeRefKind,
    /// Trailing `?`.
    pub nullable: bool,
    pub span: Span,
}

#[derive(Debug)]
pub enum TypeRefKind {
    /// `*`.
    Any,
    Void,
    /// A dotted name with the arguments of `.<...>`.
    Name { path: Vec<String>, type_args: Vec<TypeRef> },
}

// --- expressions --------------------------------------------------------------------------

#[derive(Debug)]
pub struct Expr {
    pub kind: ExprKind,
    pub span: Span,
}

#[derive(Debug)]
pub enum ExprKind {
    Int(i32),
    UInt(u32),
    Number(NumLit),
    Str(String),
    Bool(bool),
    Null,
    This,
    Super,
    Ident(String),
    /// `[a, , b]`; `None` elements are elisions.
    Array(Vec<Option<Expr>>),
    /// `{a: 1, "b": 2, 3: x}`.
    Object(Vec<(PropName, Expr)>),
    Function(Box<FunctionDecl>),
    Unary(UnaryOp, Box<Expr>),
    Postfix(PostfixOp, Box<Expr>),
    Binary(BinaryOp, Box<Expr>, Box<Expr>),
    Assign(AssignOp, Box<Expr>, Box<Expr>),
    Conditional(Box<Expr>, Box<Expr>, Box<Expr>),
    Call(Box<Expr>, Vec<Expr>),
    New(Box<Expr>, Vec<Expr>),
    /// `a.b`.
    Member(Box<Expr>, String),
    /// `a[b]`.
    Index(Box<Expr>, Box<Expr>),
    /// `a.<T>`.
    ApplyType(Box<Expr>, Vec<TypeRef>),
    /// `new <T>[...]`.
    VectorLit { elem: TypeRef, elements: Vec<Expr> },
    Comma(Box<Expr>, Box<Expr>),
}

#[derive(Debug)]
pub enum PropName {
    Ident(String),
    Str(String),
    Number(NumLit),
}

/// Prefix operators.
#[derive(Clone, Copy, Debug, PartialEq, Eq, Structural)]
pub enum UnaryOp {
    Delete,
    Void,
    Typeof,
    PreInc,
    PreDec,
    Plus,
    Minus,
    BitNot,
    Not,
}

#[derive(Clone, Copy, Debug, PartialEq, Eq, Structural)]
pub enum PostfixOp {
    Inc,
    Dec,
}

/// Binary operators, tightest tier first. `is`, `as`, `in` and `instanceof`
/// are relational.
#[derive(Clone, Copy, Debug, PartialEq, Eq, Structural)]
pub enum BinaryOp {
    Mul,
    Div,
    Rem,
    Add,
    Sub,
    Shl,
    Shr,
    Ushr,
    Lt,
    Gt,
    Le,
    Ge,
    In,
    Instanceof,
    Is,
    As,
    Eq,
    Ne,
    StrictEq,
    StrictNe,
    BitAnd,
    BitXor,
    BitOr,
    LogAnd,
    LogOr,
}

/// `=` and its compounds.
#[derive(Clone, Copy, Debug, PartialEq, Eq, Structural)]
pub enum AssignOp {
    Assign,
    Add,
    Sub,
    Mul,
    Div,
    Rem,
    Shl,
    Shr,
    Ushr,
    BitAnd,
    BitOr,
    BitXor,
    LogAnd,
    LogOr,
}

} // verus!
