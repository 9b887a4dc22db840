//! What a syntax tree says: the same tree over mathematical sequences.

use vstd::prelude::*;

use crate::ast::nodes::{
    AssignOp, Attributes, BinaryOp, Binding, Block, CatchClause, ClassDecl, Expr, ExprKind, ForInTarget,
    ForInit, FunctionDecl, InterfaceDecl, InterfaceMember, Member, MemberKind, Param, PostfixOp, Program,
    PropName, SigKind, Stmt, StmtKind, SwitchCase, TypeRef, TypeRefKind, UnaryOp, VarDecl, Visibility,
};
use crate::lexer::token::NumView;
use crate::span::Span;

verus! {

pub ghost struct ProgramView {
    pub directives: Seq<StmtView>,
    pub span: Span,
}

pub ghost struct BlockView {
    pub stmts: Seq<StmtView>,
    pub span: Span,
}

pub ghost struct SwitchCaseView {
    pub test: Option<ExprView>,
    pub body: Seq<StmtView>,
    pub span: Span,
}

pub ghost struct CatchClauseView {
    pub name: Seq<char>,
    pub ty: Option<TypeRefView>,
    pub body: BlockView,
    pub span: Span,
}

pub ghost struct VarDeclView {
    pub is_const: bool,
    pub bindings: Seq<BindingView>,
    pub span: Span,
}

pub ghost struct BindingView {
    pub name: Seq<char>,
    pub ty: Option<TypeRefView>,
    pub init: Option<ExprView>,
    pub span: Span,
}

pub ghost struct FunctionDeclView {
    pub name: Option<Seq<char>>,
    pub type_params: Seq<Seq<char>>,
    pub params: Seq<ParamView>,
    pub return_type: Option<TypeRefView>,
    pub body: BlockView,
    pub span: Span,
}

pub ghost struct ParamView {
    pub name: Seq<char>,
    pub ty: Option<TypeRefView>,
    pub default: Option<ExprView>,
    pub rest: bool,
    pub span: Span,
}

pub ghost struct AttributesView {
    pub visibility: Option<Visibility>,
    pub is_static: bool,
    pub is_final: bool,
    pub is_override: bool,
    pub is_dynamic: bool,
    pub is_native: bool,
    pub namespace_: Option<Seq<char>>,
}

pub ghost struct ClassDeclView {
    pub attrs: AttributesView,
    pub name: Seq<char>,
    pub type_params: Seq<Seq<char>>,
    pub extends: Option<TypeRefView>,
    pub implements: Seq<TypeRefView>,
    pub members: Seq<MemberView>,
    pub span: Span,
}

pub ghost struct InterfaceDeclView {
    pub attrs: AttributesView,
    pub name: Seq<char>,
    pub extends: Seq<TypeRefView>,
    pub members: Seq<InterfaceMemberView>,
    pub span: Span,
}

pub ghost struct InterfaceMemberView {
    pub kind: SigKind,
    pub name: Seq<char>,
    pub params: Seq<ParamView>,
    pub return_type: Option<TypeRefView>,
    pub span: Span,
}

pub ghost struct StmtView {
    pub kind: StmtKindView,
    pub span: Span,
}

pub ghost struct ExprView {
    pub kind: ExprKindView,
    pub span: Span,
}

pub ghost struct TypeRefView {
    pub kind: TypeRefKindView,
    pub nullable: bool,
    pub span: Span,
}

pub ghost struct MemberView {
    pub kind: MemberKindView,
    pub attrs: AttributesView,
    pub span: Span,
}

#[allow(inconsistent_fields)]
pub ghost enum StmtKindView {
    Expr(ExprView),
    VarDecl(VarDeclView),
    Function(Box<FunctionDeclView>),
    Block(BlockView),
    If { cond: ExprView, then_branch: Box<StmtView>, else_branch: Option<Box<StmtView>> },
    While { cond: ExprView, body: Box<StmtView> },
    DoWhile { body: Box<StmtView>, cond: ExprView },
    For { init: Option<Box<ForInitView>>, cond: Option<ExprView>, update: Option<ExprView>, body: Box<StmtView> },
    ForIn { is_each: bool, target: ForInTargetView, object: ExprView, body: Box<StmtView> },
    Switch { scrutinee: ExprView, cases: Seq<SwitchCaseView> },
    Break { label: Option<Seq<char>> },
    Continue { label: Option<Seq<char>> },
    Return { value: Option<ExprView> },
    Throw { value: ExprView },
    Try { block: BlockView, catches: Seq<CatchClauseView>, finally: Option<BlockView> },
    Labeled { label: Seq<char>, body: Box<StmtView> },
    Empty,
    Package { path: Seq<Seq<char>>, body: Seq<StmtView> },
    Import { path: Seq<Seq<char>>, wildcard: bool },
    NamespaceDecl { name: Seq<char>, uri: Option<Seq<char>> },
    UseNamespace(Seq<char>),
    Class(Box<ClassDeclView>),
    Interface(Box<InterfaceDeclView>),
}

#[allow(inconsistent_fields)]
pub ghost enum ForInitView {
    VarDecl(VarDeclView),
    Expr(ExprView),
}

#[allow(inconsistent_fields)]
pub ghost enum ForInTargetView {
    VarDecl(VarDeclView),
    Expr(ExprView),
}

#[allow(inconsistent_fields)]
pub ghost enum MemberKindView {
    Field(VarDeclView),
    Method(Box<FunctionDeclView>),
    Getter(Box<FunctionDeclView>),
    Setter(Box<FunctionDeclView>),
}

#[allow(inconsistent_fields)]
pub ghost enum TypeRefKindView {
    Any,
    Void,
    Name { path: Seq<Seq<char>>, type_args: Seq<TypeRefView> },
}

#[allow(inconsistent_fields)]
pub ghost enum ExprKindView {
    Int(i32),
    UInt(u32),
    Number(NumView),
    Str(Seq<char>),
    Bool(bool),
    Null,
    This,
    Super,
    Ident(Seq<char>),
    Array(Seq<Option<ExprView>>),
    Object(Seq<(PropNameView, ExprView)>),
    Function(Box<FunctionDeclView>),
    Unary(UnaryOp, Box<ExprView>),
    Postfix(PostfixOp, Box<ExprView>),
    Binary(BinaryOp, Box<ExprView>, Box<ExprView>),
    Assign(AssignOp, Box<ExprView>, Box<ExprView>),
    Conditional(Box<ExprView>, Box<ExprView>, Box<ExprView>),
    Call(Box<ExprView>, Seq<ExprView>),
    New(Box<ExprView>, Seq<ExprView>),
    Member(Box<ExprView>, Seq<char>),
    Index(Box<ExprView>, Box<ExprView>),
    ApplyType(Box<ExprView>, Seq<TypeRefView>),
    VectorLit { elem: TypeRefView, elements: Seq<ExprView> },
    Comma(Box<ExprView>, Box<ExprView>),
}

#[allow(inconsistent_fields)]
pub ghost enum PropNameView {
    Ident(Seq<char>),
    Str(Seq<char>),
    Number(NumView),
}

// --- from the tree to what it says --------------------------------------------------------

pub open spec fn texts(l: Seq<String>) -> Seq<Seq<char>> {
    l.map_values(|s: String| s@)
}

pub open spec fn program_view(n: Program) -> ProgramView
{
    ProgramView {
        directives: stmts_view(n.directives@),
        span: n.span,
    }
}

pub closed spec fn block_view(n: Block) -> BlockView
    decreases n,
{
    BlockView {
        stmts: stmts_view(n.stmts@),
        span: n.span,
    }
}

pub closed spec fn switch_case_view(n: SwitchCase) -> SwitchCaseView
    decreases n,
{
    SwitchCaseView {
        test: match n.test { Some(x) => Some(expr_view(x)), None => None },
        body: stmts_view(n.body@),
        span: n.span,
    }
}

pub closed spec fn catch_clause_view(n: CatchClause) -> CatchClauseView
    decreases n,
{
    CatchClauseView {
        name: n.name@,
        ty: match n.ty { Some(x) => Some(type_ref_view(x)), None => None },
        body: block_view(n.body),
        span: n.span,
    }
}

pub closed spec fn var_decl_view(n: VarDecl) -> VarDeclView
    decreases n,
{
    VarDeclView {
        is_const: n.is_const,
        bindings: bindings_view(n.bindings@),
        span: n.span,
    }
}

pub closed spec fn binding_view(n: Binding) -> BindingView
    decreases n,
{
    BindingView {
        name: n.name@,
        ty: match n.ty { Some(x) => Some(type_ref_view(x)), None => None },
        init: match n.init { Some(x) => Some(expr_view(x)), None => None },
        span: n.span,
    }
}

pub closed spec fn function_decl_view(n: FunctionDecl) -> FunctionDeclView
    decreases n,
{
    FunctionDeclView {
        name: match n.name { Some(x) => Some(x@), None => None },
        type_params: texts(n.type_params@),
        params: params_view(n.params@),
        return_type: match n.return_type { Some(x) => Some(type_ref_view(x)), None => None },
        body: block_view(n.body),
        span: n.span,
    }
}

pub closed spec fn param_view(n: Param) -> ParamView
    decreases n,
{
    ParamView {
        name: n.name@,
        ty: match n.ty { Some(x) => Some(type_ref_view(x)), None => None },
        default: match n.default { Some(x) => Some(expr_view(x)), None => None },
        rest: n.rest,
        span: n.span,
    }
}

pub open spec fn attributes_view(n: Attributes) -> AttributesView
{
    AttributesView {
        visibility: n.visibility,
        is_static: n.is_static,
        is_final: n.is_final,
        is_override: n.is_override,
        is_dynamic: n.is_dynamic,
        is_native: n.is_native,
        namespace_: match n.namespace_ { Some(x) => Some(x@), None => None },
    }
}

pub closed spec fn class_decl_view(n: ClassDecl) -> ClassDeclView
    decreases n,
{
    ClassDeclView {
        attrs: attributes_view(n.attrs),
        name: n.name@,
        type_params: texts(n.type_params@),
        extends: match n.extends { Some(x) => Some(type_ref_view(x)), None => None },
        implements: type_refs_view(n.implements@),
        members: members_view(n.members@),
        span: n.span,
    }
}

pub closed spec fn interface_decl_view(n: InterfaceDecl) -> InterfaceDeclView
    decreases n,
{
    InterfaceDeclView {
        attrs: attributes_view(n.attrs),
        name: n.name@,
        extends: type_refs_view(n.extends@),
        members: sigs_view(n.members@),
        span: n.span,
    }
}

pub closed spec fn interface_member_view(n: InterfaceMember) -> InterfaceMemberView
    decreases n,
{
    InterfaceMemberView {
        kind: n.kind,
        name: n.name@,
        params: params_view(n.params@),
        return_type: match n.return_type { Some(x) => Some(type_ref_view(x)), None => None },
        span: n.span,
    }
}

pub closed spec fn stmt_view(n: Stmt) -> StmtView
    decreases n,
{
    StmtView {
        kind: match n.kind {
            StmtKind::Expr(a) => StmtKindView::Expr(expr_view(a)),
            StmtKind::VarDecl(a) => StmtKindView::VarDecl(var_decl_view(a)),
            StmtKind::Function(a) => StmtKindView::Function(Box::new(function_decl_view(*a))),
            StmtKind::Block(a) => StmtKindView::Block(block_view(a)),
            StmtKind::If { cond, then_branch, else_branch } => StmtKindView::If { cond: expr_view(cond), then_branch: Box::new(stmt_view(*then_branch)), else_branch: match else_branch { Some(x) => Some(Box::new(stmt_view(*x))), None => None } },
            StmtKind::While { cond, body } => StmtKindView::While { cond: expr_view(cond), body: Box::new(stmt_view(*body)) },
            StmtKind::DoWhile { body, cond } => StmtKindView::DoWhile { body: Box::new(stmt_view(*body)), cond: expr_view(cond) },
            StmtKind::For { init, cond, update, body } => StmtKindView::For { init: match init { Some(x) => Some(Box::new(for_init_view(*x))), None => None }, cond: match cond { Some(x) => Some(expr_view(x)), None => None }, update: match update { Some(x) => Some(expr_view(x)), None => None }, body: Box::new(stmt_view(*body)) },
            StmtKind::ForIn { is_each, target, object, body } => StmtKindView::ForIn { is_each, target: for_in_target_view(target), object: expr_view(object), body: Box::new(stmt_view(*body)) },
            StmtKind::Switch { scrutinee, cases } => StmtKindView::Switch { scrutinee: expr_view(scrutinee), cases: cases_view(cases@) },
            StmtKind::Break { label } => StmtKindView::Break { label: match label { Some(x) => Some(x@), None => None } },
            StmtKind::Continue { label } => StmtKindView::Continue { label: match label { Some(x) => Some(x@), None => None } },
            StmtKind::Return { value } => StmtKindView::Return { value: match value { Some(x) => Some(expr_view(x)), None => None } },
            StmtKind::Throw { value } => StmtKindView::Throw { value: expr_view(value) },
            StmtKind::Try { block, catches, finally } => StmtKindView::Try { block: block_view(block), catches: catches_view(catches@), finally: match finally { Some(x) => Some(block_view(x)), None => None } },
            StmtKind::Labeled { label, body } => StmtKindView::Labeled { label: label@, body: Box::new(stmt_view(*body)) },
            StmtKind::Empty => StmtKindView::Empty,
            StmtKind::Package { path, body } => StmtKindView::Package { path: texts(path@), body: stmts_view(body@) },
            StmtKind::Import { path, wildcard } => StmtKindView::Import { path: texts(path@), wildcard },
            StmtKind::NamespaceDecl { name, uri } => StmtKindView::NamespaceDecl { name: name@, uri: match uri { Some(x) => Some(x@), None => None } },
            StmtKind::UseNamespace(a) => StmtKindView::UseNamespace(a@),
            StmtKind::Class(a) => StmtKindView::Class(Box::new(class_decl_view(*a))),
            StmtKind::Interface(a) => StmtKindView::Interface(Box::new(interface_decl_view(*a))),
        },
        span: n.span,
    }
}

pub closed spec fn expr_view(n: Expr) -> ExprView
    decreases n,
{
    ExprView {
        kind: match n.kind {
            ExprKind::Int(a) => ExprKindView::Int(a),
            ExprKind::UInt(a) => ExprKindView::UInt(a),
            ExprKind::Number(a) => ExprKindView::Number(a@),
            ExprKind::Str(a) => ExprKindView::Str(a@),
            ExprKind::Bool(a) => ExprKindView::Bool(a),
            ExprKind::Null => ExprKindView::Null,
            ExprKind::This => ExprKindView::This,
            ExprKind::Super => ExprKindView::Super,
            ExprKind::Ident(a) => ExprKindView::Ident(a@),
            ExprKind::Array(a) => ExprKindView::Array(elements_view(a@)),
            ExprKind::Object(a) => ExprKindView::Object(props_view(a@)),
            ExprKind::Function(a) => ExprKindView::Function(Box::new(function_decl_view(*a))),
            ExprKind::Unary(a, b) => ExprKindView::Unary(a, Box::new(expr_view(*b))),
            ExprKind::Postfix(a, b) => ExprKindView::Postfix(a, Box::new(expr_view(*b))),
            ExprKind::Binary(a, b, c) => ExprKindView::Binary(a, Box::new(expr_view(*b)), Box::new(expr_view(*c))),
            ExprKind::Assign(a, b, c) => ExprKindView::Assign(a, Box::new(expr_view(*b)), Box::new(expr_view(*c))),
            ExprKind::Conditional(a, b, c) => ExprKindView::Conditional(Box::new(expr_view(*a)), Box::new(expr_view(*b)), Box::new(expr_view(*c))),
            ExprKind::Call(a, b) => ExprKindView::Call(Box::new(expr_view(*a)), exprs_view(b@)),
            ExprKind::New(a, b) => ExprKindView::New(Box::new(expr_view(*a)), exprs_view(b@)),
            ExprKind::Member(a, b) => ExprKindView::Member(Box::new(expr_view(*a)), b@),
            ExprKind::Index(a, b) => ExprKindView::Index(Box::new(expr_view(*a)), Box::new(expr_view(*b))),
            ExprKind::ApplyType(a, b) => ExprKindView::ApplyType(Box::new(expr_view(*a)), type_refs_view(b@)),
            ExprKind::VectorLit { elem, elements } => ExprKindView::VectorLit { elem: type_ref_view(elem), elements: exprs_view(elements@) },
            ExprKind::Comma(a, b) => ExprKindView::Comma(Box::new(expr_view(*a)), Box::new(expr_view(*b))),
        },
        span: n.span,
    }
}

pub closed spec fn type_ref_view(n: TypeRef) -> TypeRefView
    decreases n,
{
    TypeRefView {
        kind: match n.kind {
            TypeRefKind::Any => TypeRefKindView::Any,
            TypeRefKind::Void => TypeRefKindView::Void,
            TypeRefKind::Name { path, type_args } => TypeRefKindView::Name { path: texts(path@), type_args: type_refs_view(type_args@) },
        },
        nullable: n.nullable,
        span: n.span,
    }
}

pub closed spec fn member_view(n: Member) -> MemberView
    decreases n,
{
    MemberView {
        kind: match n.kind {
            MemberKind::Field(a) => MemberKindView::Field(var_decl_view(a)),
            MemberKind::Method(a) => MemberKindView::Method(Box::new(function_decl_view(*a))),
            MemberKind::Getter(a) => MemberKindView::Getter(Box::new(function_decl_view(*a))),
            MemberKind::Setter(a) => MemberKindView::Setter(Box::new(function_decl_view(*a))),
        },
        attrs: attributes_view(n.attrs),
        span: n.span,
    }
}

pub closed spec fn for_init_view(n: ForInit) -> ForInitView
    decreases n,
{
    match n {
        ForInit::VarDecl(a) => ForInitView::VarDecl(var_decl_view(a)),
        ForInit::Expr(a) => ForInitView::Expr(expr_view(a)),
    }
}

pub closed spec fn for_in_target_view(n: ForInTarget) -> ForInTargetView
    decreases n,
{
    match n {
        ForInTarget::VarDecl(a) => ForInTargetView::VarDecl(var_decl_view(a)),
        ForInTarget::Expr(a) => ForInTargetView::Expr(expr_view(a)),
    }
}

pub open spec fn prop_name_view(n: PropName) -> PropNameView
{
    match n {
        PropName::Ident(a) => PropNameView::Ident(a@),
        PropName::Str(a) => PropNameView::Str(a@),
        PropName::Number(a) => PropNameView::Number(a@),
    }
}

pub closed spec fn stmts_view(l: Seq<Stmt>) -> Seq<StmtView>
    decreases l,
{
    Seq::new(
        l.len(),
        |i: int|
            if 0 <= i < l.len() {
                stmt_view(l[i])
            } else {
                arbitrary()
            },
    )
}

pub closed spec fn exprs_view(l: Seq<Expr>) -> Seq<ExprView>
    decreases l,
{
    Seq::new(
        l.len(),
        |i: int|
            if 0 <= i < l.len() {
                expr_view(l[i])
            } else {
                arbitrary()
            },
    )
}

pub closed spec fn type_refs_view(l: Seq<TypeRef>) -> Seq<TypeRefView>
    decreases l,
{
    Seq::new(
        l.len(),
        |i: int|
            if 0 <= i < l.len() {
                type_ref_view(l[i])
            } else {
                arbitrary()
            },
    )
}

pub closed spec fn cases_view(l: Seq<SwitchCase>) -> Seq<SwitchCaseView>
    decreases l,
{
    Seq::new(
        l.len(),
        |i: int|
            if 0 <= i < l.len() {
                switch_case_view(l[i])
            } else {
                arbitrary()
            },
    )
}

pub closed spec fn catches_view(l: Seq<CatchClause>) -> Seq<CatchClauseView>
    decreases l,
{
    Seq::new(
        l.len(),
        |i: int|
            if 0 <= i < l.len() {
                catch_clause_view(l[i])
            } else {
                arbitrary()
            },
    )
}

pub closed spec fn bindings_view(l: Seq<Binding>) -> Seq<BindingView>
    decreases l,
{
    Seq::new(
        l.len(),
        |i: int|
            if 0 <= i < l.len() {
                binding_view(l[i])
            } else {
                arbitrary()
            },
    )
}

pub closed spec fn params_view(l: Seq<Param>) -> Seq<ParamView>
    decreases l,
{
    Seq::new(
        l.len(),
        |i: int|
            if 0 <= i < l.len() {
                param_view(l[i])
            } else {
                arbitrary()
            },
    )
}

pub closed spec fn members_view(l: Seq<Member>) -> Seq<MemberView>
    decreases l,
{
    Seq::new(
        l.len(),
        |i: int|
            if 0 <= i < l.len() {
                member_view(l[i])
            } else {
                arbitrary()
            },
    )
}

pub closed spec fn sigs_view(l: Seq<InterfaceMember>) -> Seq<InterfaceMemberView>
    decreases l,
{
    Seq::new(
        l.len(),
        |i: int|
            if 0 <= i < l.len() {
                interface_member_view(l[i])
            } else {
                arbitrary()
            },
    )
}

pub closed spec fn elements_view(l: Seq<Option<Expr>>) -> Seq<Option<ExprView>>
    decreases l,
{
    Seq::new(
        l.len(),
        |i: int|
            if 0 <= i < l.len() {
                match l[i] {
                    Some(e) => Some(expr_view(e)),
                    None => None,
                }
            } else {
                arbitrary()
            },
    )
}

pub closed spec fn props_view(l: Seq<(PropName, Expr)>) -> Seq<(PropNameView, ExprView)>
    decreases l,
{
    Seq::new(
        l.len(),
        |i: int|
            if 0 <= i < l.len() {
                (prop_name_view(l[i].0), expr_view(l[i].1))
            } else {
                arbitrary()
            },
    )
}

pub open spec fn opt_expr_view(e: Option<Expr>) -> Option<ExprView> {
    match e {
        Some(x) => Some(expr_view(x)),
        None => None,
    }
}

pub open spec fn opt_type_view(t: Option<TypeRef>) -> Option<TypeRefView> {
    match t {
        Some(x) => Some(type_ref_view(x)),
        None => None,
    }
}

pub open spec fn opt_text(s: Option<String>) -> Option<Seq<char>> {
    match s {
        Some(x) => Some(x@),
        None => None,
    }
}

// --- one level of a tree ------------------------------------------------------------------

/// The kind of a node, with what its parts say.
pub open spec fn stmt_kind_view(k: StmtKind) -> StmtKindView {
    match k {
        StmtKind::Expr(a) => StmtKindView::Expr(expr_view(a)),
        StmtKind::VarDecl(a) => StmtKindView::VarDecl(var_decl_view(a)),
        StmtKind::Function(a) => StmtKindView::Function(Box::new(function_decl_view(*a))),
        StmtKind::Block(a) => StmtKindView::Block(block_view(a)),
        StmtKind::If { cond, then_branch, else_branch } => StmtKindView::If { cond: expr_view(cond), then_branch: Box::new(stmt_view(*then_branch)), else_branch: match else_branch { Some(x) => Some(Box::new(stmt_view(*x))), None => None } },
        StmtKind::While { cond, body } => StmtKindView::While { cond: expr_view(cond), body: Box::new(stmt_view(*body)) },
        StmtKind::DoWhile { body, cond } => StmtKindView::DoWhile { body: Box::new(stmt_view(*body)), cond: expr_view(cond) },
        StmtKind::For { init, cond, update, body } => StmtKindView::For { init: match init { Some(x) => Some(Box::new(for_init_view(*x))), None => None }, cond: match cond { Some(x) => Some(expr_view(x)), None => None }, update: match update { Some(x) => Some(expr_view(x)), None => None }, body: Box::new(stmt_view(*body)) },
        StmtKind::ForIn { is_each, target, object, body } => StmtKindView::ForIn { is_each, target: for_in_target_view(target), object: expr_view(object), body: Box::new(stmt_view(*body)) },
        StmtKind::Switch { scrutinee, cases } => StmtKindView::Switch { scrutinee: expr_view(scrutinee), cases: cases_view(cases@) },
        StmtKind::Break { label } => StmtKindView::Break { label: match label { Some(x) => Some(x@), None => None } },
        StmtKind::Continue { label } => StmtKindView::Continue { label: match label { Some(x) => Some(x@), None => None } },
        StmtKind::Return { value } => StmtKindView::Return { value: match value { Some(x) => Some(expr_view(x)), None => None } },
        StmtKind::Throw { value } => StmtKindView::Throw { value: expr_view(value) },
        StmtKind::Try { block, catches, finally } => StmtKindView::Try { block: block_view(block), catches: catches_view(catches@), finally: match finally { Some(x) => Some(block_view(x)), None => None } },
        StmtKind::Labeled { label, body } => StmtKindView::Labeled { label: label@, body: Box::new(stmt_view(*body)) },
        StmtKind::Empty => StmtKindView::Empty,
        StmtKind::Package { path, body } => StmtKindView::Package { path: texts(path@), body: stmts_view(body@) },
        StmtKind::Import { path, wildcard } => StmtKindView::Import { path: texts(path@), wildcard },
        StmtKind::NamespaceDecl { name, uri } => StmtKindView::NamespaceDecl { name: name@, uri: match uri { Some(x) => Some(x@), None => None } },
        StmtKind::UseNamespace(a) => StmtKindView::UseNamespace(a@),
        StmtKind::Class(a) => StmtKindView::Class(Box::new(class_decl_view(*a))),
        StmtKind::Interface(a) => StmtKindView::Interface(Box::new(interface_decl_view(*a))),
    }
}

/// The kind of a node, with what its parts say.
pub open spec fn expr_kind_view(k: ExprKind) -> ExprKindView {
    match k {
        ExprKind::Int(a) => ExprKindView::Int(a),
        ExprKind::UInt(a) => ExprKindView::UInt(a),
        ExprKind::Number(a) => ExprKindView::Number(a@),
        ExprKind::Str(a) => ExprKindView::Str(a@),
        ExprKind::Bool(a) => ExprKindView::Bool(a),
        ExprKind::Null => ExprKindView::Null,
        ExprKind::This => ExprKindView::This,
        ExprKind::Super => ExprKindView::Super,
        ExprKind::Ident(a) => ExprKindView::Ident(a@),
        ExprKind::Array(a) => ExprKindView::Array(elements_view(a@)),
        ExprKind::Object(a) => ExprKindView::Object(props_view(a@)),
        ExprKind::Function(a) => ExprKindView::Function(Box::new(function_decl_view(*a))),
        ExprKind::Unary(a, b) => ExprKindView::Unary(a, Box::new(expr_view(*b))),
        ExprKind::Postfix(a, b) => ExprKindView::Postfix(a, Box::new(expr_view(*b))),
        ExprKind::Binary(a, b, c) => ExprKindView::Binary(a, Box::new(expr_view(*b)), Box::new(expr_view(*c))),
        ExprKind::Assign(a, b, c) => ExprKindView::Assign(a, Box::new(expr_view(*b)), Box::new(expr_view(*c))),
        ExprKind::Conditional(a, b, c) => ExprKindView::Conditional(Box::new(expr_view(*a)), Box::new(expr_view(*b)), Box::new(expr_view(*c))),
        ExprKind::Call(a, b) => ExprKindView::Call(Box::new(expr_view(*a)), exprs_view(b@)),
        ExprKind::New(a, b) => ExprKindView::New(Box::new(expr_view(*a)), exprs_view(b@)),
        ExprKind::Member(a, b) => ExprKindView::Member(Box::new(expr_view(*a)), b@),
        ExprKind::Index(a, b) => ExprKindView::Index(Box::new(expr_view(*a)), Box::new(expr_view(*b))),
        ExprKind::ApplyType(a, b) => ExprKindView::ApplyType(Box::new(expr_view(*a)), type_refs_view(b@)),
        ExprKind::VectorLit { elem, elements } => ExprKindView::VectorLit { elem: type_ref_view(elem), elements: exprs_view(elements@) },
        ExprKind::Comma(a, b) => ExprKindView::Comma(Box::new(expr_view(*a)), Box::new(expr_view(*b))),
    }
}

/// The kind of a node, with what its parts say.
pub open spec fn type_ref_kind_view(k: TypeRefKind) -> TypeRefKindView {
    match k {
        TypeRefKind::Any => TypeRefKindView::Any,
        TypeRefKind::Void => TypeRefKindView::Void,
        TypeRefKind::Name { path, type_args } => TypeRefKindView::Name { path: texts(path@), type_args: type_refs_view(type_args@) },
    }
}

/// The kind of a node, with what its parts say.
pub open spec fn member_kind_view(k: MemberKind) -> MemberKindView {
    match k {
        MemberKind::Field(a) => MemberKindView::Field(var_decl_view(a)),
        MemberKind::Method(a) => MemberKindView::Method(Box::new(function_decl_view(*a))),
        MemberKind::Getter(a) => MemberKindView::Getter(Box::new(function_decl_view(*a))),
        MemberKind::Setter(a) => MemberKindView::Setter(Box::new(function_decl_view(*a))),
    }
}

pub proof fn block_unfold(n: Block)
    ensures
        block_view(n) == (BlockView {
            stmts: stmts_view(n.stmts@),
            span: n.span,
        }),
{
}

pub fn block_node(
    stmts: Vec<Stmt>,
    span: Span,
) -> (r: Block)
    ensures
        r == (Block { stmts, span }),
        block_view(r) == (BlockView {
            stmts: stmts_view(stmts@),
            span,
        }),
{
    Block { stmts, span }
}

pub proof fn switch_case_unfold(n: SwitchCase)
    ensures
        switch_case_view(n).test == opt_expr_view(n.test),
        switch_case_view(n).body == stmts_view(n.body@),
        switch_case_view(n).span == n.span,
{
}

pub fn switch_case_node(
    test: Option<Expr>,
    body: Vec<Stmt>,
    span: Span,
) -> (r: SwitchCase)
    ensures
        r == (SwitchCase { test, body, span }),
        switch_case_view(r) == (SwitchCaseView {
            test: match test { Some(x) => Some(expr_view(x)), None => None },
            body: stmts_view(body@),
            span,
        }),
{
    SwitchCase { test, body, span }
}

pub proof fn catch_clause_unfold(n: CatchClause)
    ensures
        catch_clause_view(n).name == n.name@,
        catch_clause_view(n).ty == opt_type_view(n.ty),
        catch_clause_view(n).body == block_view(n.body),
        catch_clause_view(n).span == n.span,
{
}

pub fn catch_clause_node(
    name: String,
    ty: Option<TypeRef>,
    body: Block,
    span: Span,
) -> (r: CatchClause)
    ensures
        r == (CatchClause { name, ty, body, span }),
        catch_clause_view(r) == (CatchClauseView {
            name: name@,
            ty: match ty { Some(x) => Some(type_ref_view(x)), None => None },
            body: block_view(body),
            span,
        }),
{
    CatchClause { name, ty, body, span }
}

pub proof fn var_decl_unfold(n: VarDecl)
    ensures
        var_decl_view(n) == (VarDeclView {
            is_const: n.is_const,
            bindings: bindings_view(n.bindings@),
            span: n.span,
        }),
{
}

pub fn var_decl_node(
    is_const: bool,
    bindings: Vec<Binding>,
    span: Span,
) -> (r: VarDecl)
    ensures
        r == (VarDecl { is_const, bindings, span }),
        var_decl_view(r) == (VarDeclView {
            is_const,
            bindings: bindings_view(bindings@),
            span,
        }),
{
    VarDecl { is_const, bindings, span }
}

pub proof fn binding_unfold(name: String, ty: Option<TypeRef>, init: Option<Expr>, span: Span)
    ensures
        binding_view(Binding { name, ty, init, span }) == (BindingView {
            name: name@,
            ty: match ty { Some(x) => Some(type_ref_view(x)), None => None },
            init: match init { Some(x) => Some(expr_view(x)), None => None },
            span,
        }),
{
}

pub fn binding_node(
    name: String,
    ty: Option<TypeRef>,
    init: Option<Expr>,
    span: Span,
) -> (r: Binding)
    ensures
        r == (Binding { name, ty, init, span }),
        binding_view(r) == (BindingView {
            name: name@,
            ty: match ty { Some(x) => Some(type_ref_view(x)), None => None },
            init: match init { Some(x) => Some(expr_view(x)), None => None },
            span,
        }),
{
    Binding { name, ty, init, span }
}

pub proof fn function_decl_unfold(n: FunctionDecl)
    ensures
        function_decl_view(n).name == opt_text(n.name),
        function_decl_view(n).type_params == texts(n.type_params@),
        function_decl_view(n).params == params_view(n.params@),
        function_decl_view(n).return_type == opt_type_view(n.return_type),
        function_decl_view(n).body == block_view(n.body),
        function_decl_view(n).span == n.span,
{
}

pub fn function_decl_node(
    name: Option<String>,
    type_params: Vec<String>,
    params: Vec<Param>,
    return_type: Option<TypeRef>,
    body: Block,
    span: Span,
) -> (r: FunctionDecl)
    ensures
        r == (FunctionDecl { name, type_params, params, return_type, body, span }),
        function_decl_view(r) == (FunctionDeclView {
            name: match name { Some(x) => Some(x@), None => None },
            type_params: texts(type_params@),
            params: params_view(params@),
            return_type: match return_type { Some(x) => Some(type_ref_view(x)), None => None },
            body: block_view(body),
            span,
        }),
{
    FunctionDecl { name, type_params, params, return_type, body, span }
}

pub proof fn param_unfold(n: Param)
    ensures
        param_view(n).name == n.name@,
        param_view(n).ty == opt_type_view(n.ty),
        param_view(n).default == opt_expr_view(n.default),
        param_view(n).rest == n.rest,
        param_view(n).span == n.span,
{
}

pub fn param_node(
    name: String,
    ty: Option<TypeRef>,
    default: Option<Expr>,
    rest: bool,
    span: Span,
) -> (r: Param)
    ensures
        r == (Param { name, ty, default, rest, span }),
        param_view(r) == (ParamView {
            name: name@,
            ty: match ty { Some(x) => Some(type_ref_view(x)), None => None },
            default: match default { Some(x) => Some(expr_view(x)), None => None },
            rest,
            span,
        }),
{
    Param { name, ty, default, rest, span }
}

pub proof fn class_decl_unfold(n: ClassDecl)
    ensures
        class_decl_view(n).attrs == attributes_view(n.attrs),
        class_decl_view(n).name == n.name@,
        class_decl_view(n).type_params == texts(n.type_params@),
        class_decl_view(n).extends == opt_type_view(n.extends),
        class_decl_view(n).implements == type_refs_view(n.implements@),
        class_decl_view(n).members == members_view(n.members@),
        class_decl_view(n).span == n.span,
{
}

pub fn class_decl_node(
    attrs: Attributes,
    name: String,
    type_params: Vec<String>,
    extends: Option<TypeRef>,
    implements: Vec<TypeRef>,
    members: Vec<Member>,
    span: Span,
) -> (r: ClassDecl)
    ensures
        r == (ClassDecl { attrs, name, type_params, extends, implements, members, span }),
        class_decl_view(r) == (ClassDeclView {
            attrs: attributes_view(attrs),
            name: name@,
            type_params: texts(type_params@),
            extends: match extends { Some(x) => Some(type_ref_view(x)), None => None },
            implements: type_refs_view(implements@),
            members: members_view(members@),
            span,
        }),
{
    ClassDecl { attrs, name, type_params, extends, implements, members, span }
}

pub proof fn interface_decl_unfold(n: InterfaceDecl)
    ensures
        interface_decl_view(n).attrs == attributes_view(n.attrs),
        interface_decl_view(n).name == n.name@,
        interface_decl_view(n).extends == type_refs_view(n.extends@),
        interface_decl_view(n).members == sigs_view(n.members@),
        interface_decl_view(n).span == n.span,
{
}

pub fn interface_decl_node(
    attrs: Attributes,
    name: String,
    extends: Vec<TypeRef>,
    members: Vec<InterfaceMember>,
    span: Span,
) -> (r: InterfaceDecl)
    ensures
        r == (InterfaceDecl { attrs, name, extends, members, span }),
        interface_decl_view(r) == (InterfaceDeclView {
            attrs: attributes_view(attrs),
            name: name@,
            extends: type_refs_view(extends@),
            members: sigs_view(members@),
            span,
        }),
{
    InterfaceDecl { attrs, name, extends, members, span }
}

pub proof fn interface_member_unfold(n: InterfaceMember)
    ensures
        interface_member_view(n).kind == n.kind,
        interface_member_view(n).name == n.name@,
        interface_member_view(n).params == params_view(n.params@),
        interface_member_view(n).return_type == opt_type_view(n.return_type),
        interface_member_view(n).span == n.span,
{
}

pub fn interface_member_node(
    kind: SigKind,
    name: String,
    params: Vec<Param>,
    return_type: Option<TypeRef>,
    span: Span,
) -> (r: InterfaceMember)
    ensures
        r == (InterfaceMember { kind, name, params, return_type, span }),
        interface_member_view(r) == (InterfaceMemberView {
            kind,
            name: name@,
            params: params_view(params@),
            return_type: match return_type { Some(x) => Some(type_ref_view(x)), None => None },
            span,
        }),
{
    InterfaceMember { kind, name, params, return_type, span }
}

pub proof fn stmt_unfold(n: Stmt)
    ensures
        stmt_view(n) == (StmtView {
            kind: stmt_kind_view(n.kind),
            span: n.span,
        }),
{
}

pub fn stmt_node(kind: StmtKind, span: Span) -> (r: Stmt)
    ensures
        r == (Stmt { kind, span }),
        stmt_view(r) == (StmtView {
            kind: stmt_kind_view(kind),
            span,
        }),
{
    Stmt { kind, span }
}

pub proof fn expr_unfold(n: Expr)
    ensures
        expr_view(n) == (ExprView {
            kind: expr_kind_view(n.kind),
            span: n.span,
        }),
{
}

pub fn expr_node(kind: ExprKind, span: Span) -> (r: Expr)
    ensures
        r == (Expr { kind, span }),
        expr_view(r) == (ExprView {
            kind: expr_kind_view(kind),
            span,
        }),
{
    Expr { kind, span }
}

pub proof fn type_ref_unfold(n: TypeRef)
    ensures
        type_ref_view(n) == (TypeRefView {
            kind: type_ref_kind_view(n.kind),
            nullable: n.nullable,
            span: n.span,
        }),
{
}

pub fn type_ref_node(kind: TypeRefKind, nullable: bool, span: Span) -> (r: TypeRef)
    ensures
        r == (TypeRef { kind, nullable, span }),
        type_ref_view(r) == (TypeRefView {
            kind: type_ref_kind_view(kind),
            nullable,
            span,
        }),
{
    TypeRef { kind, nullable, span }
}

pub proof fn member_unfold(n: Member)
    ensures
        member_view(n) == (MemberView {
            kind: member_kind_view(n.kind),
            attrs: attributes_view(n.attrs),
            span: n.span,
        }),
{
}

pub fn member_node(kind: MemberKind, attrs: Attributes, span: Span) -> (r: Member)
    ensures
        r == (Member { kind, attrs, span }),
        member_view(r) == (MemberView {
            kind: member_kind_view(kind),
            attrs: attributes_view(attrs),
            span,
        }),
{
    Member { kind, attrs, span }
}

/// The node at another place.
pub fn expr_moved(n: Expr, span: Span) -> (r: Expr)
    ensures
        r == (Expr { kind: n.kind, span }),
        expr_view(r) == (ExprView { kind: expr_view(n).kind, span }),
{
    Expr { kind: n.kind, span }
}

/// The node at another place.
pub fn stmt_moved(n: Stmt, span: Span) -> (r: Stmt)
    ensures
        r == (Stmt { kind: n.kind, span }),
        stmt_view(r) == (StmtView { kind: stmt_view(n).kind, span }),
{
    Stmt { kind: n.kind, span }
}

pub fn for_init_var_decl(n: VarDecl) -> (r: ForInit)
    ensures
        for_init_view(r) == ForInitView::VarDecl(var_decl_view(n)),
{
    ForInit::VarDecl(n)
}

pub fn for_init_expr(n: Expr) -> (r: ForInit)
    ensures
        for_init_view(r) == ForInitView::Expr(expr_view(n)),
{
    ForInit::Expr(n)
}

pub fn for_in_target_var_decl(n: VarDecl) -> (r: ForInTarget)
    ensures
        for_in_target_view(r) == ForInTargetView::VarDecl(var_decl_view(n)),
{
    ForInTarget::VarDecl(n)
}

pub fn for_in_target_expr(n: Expr) -> (r: ForInTarget)
    ensures
        for_in_target_view(r) == ForInTargetView::Expr(expr_view(n)),
{
    ForInTarget::Expr(n)
}

pub broadcast proof fn stmt_span(n: Stmt)
    ensures
        (#[trigger] stmt_view(n)).span == n.span,
{
}

pub broadcast proof fn expr_span(n: Expr)
    ensures
        (#[trigger] expr_view(n)).span == n.span,
{
}

pub broadcast proof fn type_ref_span(n: TypeRef)
    ensures
        (#[trigger] type_ref_view(n)).span == n.span,
{
}

pub broadcast proof fn member_span(n: Member)
    ensures
        (#[trigger] member_view(n)).span == n.span,
{
}

pub broadcast proof fn block_span(n: Block)
    ensures
        (#[trigger] block_view(n)).span == n.span,
{
}

pub broadcast proof fn switch_case_span(n: SwitchCase)
    ensures
        (#[trigger] switch_case_view(n)).span == n.span,
{
}

pub broadcast proof fn catch_clause_span(n: CatchClause)
    ensures
        (#[trigger] catch_clause_view(n)).span == n.span,
{
}

pub broadcast proof fn var_decl_span(n: VarDecl)
    ensures
        (#[trigger] var_decl_view(n)).span == n.span,
{
}

pub broadcast proof fn binding_span(n: Binding)
    ensures
        (#[trigger] binding_view(n)).span == n.span,
{
}

pub broadcast proof fn function_decl_span(n: FunctionDecl)
    ensures
        (#[trigger] function_decl_view(n)).span == n.span,
{
}

pub broadcast proof fn param_span(n: Param)
    ensures
        (#[trigger] param_view(n)).span == n.span,
{
}

pub broadcast proof fn class_decl_span(n: ClassDecl)
    ensures
        (#[trigger] class_decl_view(n)).span == n.span,
{
}

pub broadcast proof fn interface_decl_span(n: InterfaceDecl)
    ensures
        (#[trigger] interface_decl_view(n)).span == n.span,
{
}

pub broadcast proof fn interface_member_span(n: InterfaceMember)
    ensures
        (#[trigger] interface_member_view(n)).span == n.span,
{
}

/// What a node says names the place of the node.
pub broadcast group group_spans {
    stmt_span,
    expr_span,
    type_ref_span,
    member_span,
    block_span,
    switch_case_span,
    catch_clause_span,
    var_decl_span,
    binding_span,
    function_decl_span,
    param_span,
    class_decl_span,
    interface_decl_span,
    interface_member_span,
}

// Lists.

pub proof fn stmts_unfold(l: Seq<Stmt>)
    ensures
        stmts_view(l).len() == l.len(),
        forall|i: int|
            0 <= i < l.len() ==> #[trigger] stmts_view(l)[i] == stmt_view(l[i]),
{
}

pub proof fn stmts_none()
    ensures
        stmts_view(Seq::empty()) == Seq::<StmtView>::empty(),
{
    assert(stmts_view(Seq::empty()) =~= Seq::<StmtView>::empty());
}

pub proof fn stmts_push(l: Seq<Stmt>, n: Stmt)
    ensures
        stmts_view(l.push(n)) == stmts_view(l).push(stmt_view(n)),
{
    assert(stmts_view(l.push(n)) =~= stmts_view(l).push(stmt_view(n)));
}

pub proof fn exprs_unfold(l: Seq<Expr>)
    ensures
        exprs_view(l).len() == l.len(),
        forall|i: int|
            0 <= i < l.len() ==> #[trigger] exprs_view(l)[i] == expr_view(l[i]),
{
}

pub proof fn exprs_none()
    ensures
        exprs_view(Seq::empty()) == Seq::<ExprView>::empty(),
{
    assert(exprs_view(Seq::empty()) =~= Seq::<ExprView>::empty());
}

pub proof fn exprs_push(l: Seq<Expr>, n: Expr)
    ensures
        exprs_view(l.push(n)) == exprs_view(l).push(expr_view(n)),
{
    assert(exprs_view(l.push(n)) =~= exprs_view(l).push(expr_view(n)));
}

pub proof fn type_refs_unfold(l: Seq<TypeRef>)
    ensures
        type_refs_view(l).len() == l.len(),
        forall|i: int|
            0 <= i < l.len() ==> #[trigger] type_refs_view(l)[i] == type_ref_view(l[i]),
{
}

pub proof fn type_refs_none()
    ensures
        type_refs_view(Seq::empty()) == Seq::<TypeRefView>::empty(),
{
    assert(type_refs_view(Seq::empty()) =~= Seq::<TypeRefView>::empty());
}

pub proof fn type_refs_push(l: Seq<TypeRef>, n: TypeRef)
    ensures
        type_refs_view(l.push(n)) == type_refs_view(l).push(type_ref_view(n)),
{
    assert(type_refs_view(l.push(n)) =~= type_refs_view(l).push(type_ref_view(n)));
}

pub proof fn cases_unfold(l: Seq<SwitchCase>)
    ensures
        cases_view(l).len() == l.len(),
        forall|i: int|
            0 <= i < l.len() ==> #[trigger] cases_view(l)[i] == switch_case_view(l[i]),
{
}

pub proof fn cases_none()
    ensures
        cases_view(Seq::empty()) == Seq::<SwitchCaseView>::empty(),
{
    assert(cases_view(Seq::empty()) =~= Seq::<SwitchCaseView>::empty());
}

pub proof fn cases_push(l: Seq<SwitchCase>, n: SwitchCase)
    ensures
        cases_view(l.push(n)) == cases_view(l).push(switch_case_view(n)),
{
    assert(cases_view(l.push(n)) =~= cases_view(l).push(switch_case_view(n)));
}

pub proof fn catches_unfold(l: Seq<CatchClause>)
    ensures
        catches_view(l).len() == l.len(),
        forall|i: int|
            0 <= i < l.len() ==> #[trigger] catches_view(l)[i] == catch_clause_view(l[i]),
{
}

pub proof fn catches_none()
    ensures
        catches_view(Seq::empty()) == Seq::<CatchClauseView>::empty(),
{
    assert(catches_view(Seq::empty()) =~= Seq::<CatchClauseView>::empty());
}

pub proof fn catches_push(l: Seq<CatchClause>, n: CatchClause)
    ensures
        catches_view(l.push(n)) == catches_view(l).push(catch_clause_view(n)),
{
    assert(catches_view(l.push(n)) =~= catches_view(l).push(catch_clause_view(n)));
}

pub proof fn bindings_unfold(l: Seq<Binding>)
    ensures
        bindings_view(l).len() == l.len(),
        forall|i: int|
            0 <= i < l.len() ==> #[trigger] bindings_view(l)[i] == binding_view(l[i]),
{
}

pub proof fn bindings_none()
    ensures
        bindings_view(Seq::empty()) == Seq::<BindingView>::empty(),
{
    assert(bindings_view(Seq::empty()) =~= Seq::<BindingView>::empty());
}

pub proof fn bindings_push(l: Seq<Binding>, n: Binding)
    ensures
        bindings_view(l.push(n)) == bindings_view(l).push(binding_view(n)),
{
    assert(bindings_view(l.push(n)) =~= bindings_view(l).push(binding_view(n)));
}

pub proof fn params_unfold(l: Seq<Param>)
    ensures
        params_view(l).len() == l.len(),
        forall|i: int|
            0 <= i < l.len() ==> #[trigger] params_view(l)[i] == param_view(l[i]),
{
}

pub proof fn params_none()
    ensures
        params_view(Seq::empty()) == Seq::<ParamView>::empty(),
{
    assert(params_view(Seq::empty()) =~= Seq::<ParamView>::empty());
}

pub proof fn params_push(l: Seq<Param>, n: Param)
    ensures
        params_view(l.push(n)) == params_view(l).push(param_view(n)),
{
    assert(params_view(l.push(n)) =~= params_view(l).push(param_view(n)));
}

pub proof fn members_unfold(l: Seq<Member>)
    ensures
        members_view(l).len() == l.len(),
        forall|i: int|
            0 <= i < l.len() ==> #[trigger] members_view(l)[i] == member_view(l[i]),
{
}

pub proof fn members_none()
    ensures
        members_view(Seq::empty()) == Seq::<MemberView>::empty(),
{
    assert(members_view(Seq::empty()) =~= Seq::<MemberView>::empty());
}

pub proof fn members_push(l: Seq<Member>, n: Member)
    ensures
        members_view(l.push(n)) == members_view(l).push(member_view(n)),
{
    assert(members_view(l.push(n)) =~= members_view(l).push(member_view(n)));
}

pub proof fn sigs_unfold(l: Seq<InterfaceMember>)
    ensures
        sigs_view(l).len() == l.len(),
        forall|i: int|
            0 <= i < l.len() ==> #[trigger] sigs_view(l)[i] == interface_member_view(l[i]),
{
}

pub proof fn sigs_none()
    ensures
        sigs_view(Seq::empty()) == Seq::<InterfaceMemberView>::empty(),
{
    assert(sigs_view(Seq::empty()) =~= Seq::<InterfaceMemberView>::empty());
}

pub proof fn sigs_push(l: Seq<InterfaceMember>, n: InterfaceMember)
    ensures
        sigs_view(l.push(n)) == sigs_view(l).push(interface_member_view(n)),
{
    assert(sigs_view(l.push(n)) =~= sigs_view(l).push(interface_member_view(n)));
}

pub proof fn elements_unfold(l: Seq<Option<Expr>>)
    ensures
        elements_view(l).len() == l.len(),
        forall|i: int|
            0 <= i < l.len() ==> #[trigger] elements_view(l)[i] == opt_expr_view(l[i]),
{
}

pub proof fn elements_none()
    ensures
        elements_view(Seq::empty()) == Seq::<Option<ExprView>>::empty(),
{
    assert(elements_view(Seq::empty()) =~= Seq::<Option<ExprView>>::empty());
}

pub proof fn elements_push(l: Seq<Option<Expr>>, n: Option<Expr>)
    ensures
        elements_view(l.push(n)) == elements_view(l).push(opt_expr_view(n)),
{
    assert(elements_view(l.push(n)) =~= elements_view(l).push(opt_expr_view(n)));
}

pub proof fn props_unfold(l: Seq<(PropName, Expr)>)
    ensures
        props_view(l).len() == l.len(),
        forall|i: int|
            0 <= i < l.len() ==> #[trigger] props_view(l)[i] == (prop_name_view(l[i].0), expr_view(l[i].1)),
{
}

pub proof fn props_none()
    ensures
        props_view(Seq::empty()) == Seq::<(PropNameView, ExprView)>::empty(),
{
    assert(props_view(Seq::empty()) =~= Seq::<(PropNameView, ExprView)>::empty());
}

pub proof fn props_push(l: Seq<(PropName, Expr)>, n: (PropName, Expr))
    ensures
        props_view(l.push(n)) == props_view(l).push((prop_name_view(n.0), expr_view(n.1))),
{
    assert(props_view(l.push(n)) =~= props_view(l).push((prop_name_view(n.0), expr_view(n.1))));
}

pub proof fn for_init_unfold(n: ForInit)
    ensures
        for_init_view(n) == (match n {
            ForInit::VarDecl(a) => ForInitView::VarDecl(var_decl_view(a)),
            ForInit::Expr(a) => ForInitView::Expr(expr_view(a)),
        }),
{
}

pub proof fn for_in_target_unfold(n: ForInTarget)
    ensures
        for_in_target_view(n) == (match n {
            ForInTarget::VarDecl(a) => ForInTargetView::VarDecl(var_decl_view(a)),
            ForInTarget::Expr(a) => ForInTargetView::Expr(expr_view(a)),
        }),
{
}

pub proof fn stmts_append(a: Seq<Stmt>, b: Seq<Stmt>)
    ensures
        stmts_view(a + b) == stmts_view(a) + stmts_view(b),
{
    assert(stmts_view(a + b) =~= stmts_view(a) + stmts_view(b));
}

} // verus!
