//! A compact, stable dump of a syntax tree, one node per line.
//!
//! How a Number literal is shown depends on its value as a double, so a dump is
//! text with the literals left in it.

use vstd::prelude::*;

use crate::ast::nodes::{
    AssignOp, Attributes, BinaryOp, Binding, Block, CatchClause, ClassDecl, Expr, ExprKind,
    ForInTarget, ForInit, FunctionDecl, InterfaceDecl, InterfaceMember, Member, MemberKind, Param,
    PostfixOp, Program, PropName, SigKind, Stmt, StmtKind, SwitchCase, TypeRef, TypeRefKind,
    UnaryOp, VarDecl, Visibility,
};
use crate::lexer::token::{NumLit, NumView};
use crate::parser::expr::copy_num;
use crate::text::{push_signed, push_text, signed_decimal};

verus! {

// --- what a dump is -----------------------------------------------------------------------

/// A character of a dump, or a Number literal in it.
pub ghost enum Bit {
    Char(char),
    Number(NumView),
}

/// A part of a dump.
#[derive(Debug)]
pub enum Piece {
    Text(String),
    Number(NumLit),
}

pub open spec fn char_bit(c: char) -> Bit {
    Bit::Char(c)
}

/// A text as a part of a dump.
pub open spec fn bits(t: Seq<char>) -> Seq<Bit> {
    Seq::new(t.len(), |i: int| char_bit(t[i]))
}

pub open spec fn piece_bits(p: Piece) -> Seq<Bit> {
    match p {
        Piece::Text(s) => bits(s@),
        Piece::Number(n) => seq![Bit::Number(n@)],
    }
}

/// What the first `n` pieces say.
pub open spec fn said(ps: Seq<Piece>, n: nat) -> Seq<Bit>
    decreases n,
{
    if 0 < n <= ps.len() {
        said(ps, (n - 1) as nat) + piece_bits(ps[n - 1])
    } else {
        Seq::empty()
    }
}

pub open spec fn deeper(pad: Seq<char>) -> Seq<char> {
    pad + "  "@
}

/// A line after what stands already.
#[verifier::opaque]
pub open spec fn line(out: Seq<Bit>, pad: Seq<char>, text: Seq<char>) -> Seq<Bit> {
    out + bits(pad + text + "\n"@)
}

/// A line with a Number literal between two texts.
#[verifier::opaque]
pub open spec fn number_line(
    out: Seq<Bit>,
    pad: Seq<char>,
    before: Seq<char>,
    n: NumView,
    after: Seq<char>,
) -> Seq<Bit> {
    (out + bits(pad + before)).push(Bit::Number(n)) + bits(after + "\n"@)
}

// --- names --------------------------------------------------------------------------------

pub open spec fn unary_name(op: UnaryOp) -> &'static str {
    match op {
        UnaryOp::Delete => "Delete",
        UnaryOp::Void => "Void",
        UnaryOp::Typeof => "Typeof",
        UnaryOp::PreInc => "PreInc",
        UnaryOp::PreDec => "PreDec",
        UnaryOp::Plus => "Plus",
        UnaryOp::Minus => "Minus",
        UnaryOp::BitNot => "BitNot",
        UnaryOp::Not => "Not",
    }
}

fn unary_text(op: UnaryOp) -> (r: &'static str)
    ensures
        r == unary_name(op),
{
    match op {
        UnaryOp::Delete => "Delete",
        UnaryOp::Void => "Void",
        UnaryOp::Typeof => "Typeof",
        UnaryOp::PreInc => "PreInc",
        UnaryOp::PreDec => "PreDec",
        UnaryOp::Plus => "Plus",
        UnaryOp::Minus => "Minus",
        UnaryOp::BitNot => "BitNot",
        UnaryOp::Not => "Not",
    }
}

pub open spec fn postfix_name(op: PostfixOp) -> &'static str {
    match op {
        PostfixOp::Inc => "Inc",
        PostfixOp::Dec => "Dec",
    }
}

fn postfix_text(op: PostfixOp) -> (r: &'static str)
    ensures
        r == postfix_name(op),
{
    match op {
        PostfixOp::Inc => "Inc",
        PostfixOp::Dec => "Dec",
    }
}

pub open spec fn binary_name(op: BinaryOp) -> &'static str {
    match op {
        BinaryOp::Mul => "Mul",
        BinaryOp::Div => "Div",
        BinaryOp::Rem => "Rem",
        BinaryOp::Add => "Add",
        BinaryOp::Sub => "Sub",
        BinaryOp::Shl => "Shl",
        BinaryOp::Shr => "Shr",
        BinaryOp::Ushr => "Ushr",
        BinaryOp::Lt => "Lt",
        BinaryOp::Gt => "Gt",
        BinaryOp::Le => "Le",
        BinaryOp::Ge => "Ge",
        BinaryOp::In => "In",
        BinaryOp::Instanceof => "Instanceof",
        BinaryOp::Is => "Is",
        BinaryOp::As => "As",
        BinaryOp::Eq => "Eq",
        BinaryOp::Ne => "Ne",
        BinaryOp::StrictEq => "StrictEq",
        BinaryOp::StrictNe => "StrictNe",
        BinaryOp::BitAnd => "BitAnd",
        BinaryOp::BitXor => "BitXor",
        BinaryOp::BitOr => "BitOr",
        BinaryOp::LogAnd => "LogAnd",
        BinaryOp::LogOr => "LogOr",
    }
}

fn binary_text(op: BinaryOp) -> (r: &'static str)
    ensures
        r == binary_name(op),
{
    match op {
        BinaryOp::Mul => "Mul",
        BinaryOp::Div => "Div",
        BinaryOp::Rem => "Rem",
        BinaryOp::Add => "Add",
        BinaryOp::Sub => "Sub",
        BinaryOp::Shl => "Shl",
        BinaryOp::Shr => "Shr",
        BinaryOp::Ushr => "Ushr",
        BinaryOp::Lt => "Lt",
        BinaryOp::Gt => "Gt",
        BinaryOp::Le => "Le",
        BinaryOp::Ge => "Ge",
        BinaryOp::In => "In",
        BinaryOp::Instanceof => "Instanceof",
        BinaryOp::Is => "Is",
        BinaryOp::As => "As",
        BinaryOp::Eq => "Eq",
        BinaryOp::Ne => "Ne",
        BinaryOp::StrictEq => "StrictEq",
        BinaryOp::StrictNe => "StrictNe",
        BinaryOp::BitAnd => "BitAnd",
        BinaryOp::BitXor => "BitXor",
        BinaryOp::BitOr => "BitOr",
        BinaryOp::LogAnd => "LogAnd",
        BinaryOp::LogOr => "LogOr",
    }
}

pub open spec fn assign_name(op: AssignOp) -> &'static str {
    match op {
        AssignOp::Assign => "Assign",
        AssignOp::Add => "Add",
        AssignOp::Sub => "Sub",
        AssignOp::Mul => "Mul",
        AssignOp::Div => "Div",
        AssignOp::Rem => "Rem",
        AssignOp::Shl => "Shl",
        AssignOp::Shr => "Shr",
        AssignOp::Ushr => "Ushr",
        AssignOp::BitAnd => "BitAnd",
        AssignOp::BitOr => "BitOr",
        AssignOp::BitXor => "BitXor",
        AssignOp::LogAnd => "LogAnd",
        AssignOp::LogOr => "LogOr",
    }
}

fn assign_text(op: AssignOp) -> (r: &'static str)
    ensures
        r == assign_name(op),
{
    match op {
        AssignOp::Assign => "Assign",
        AssignOp::Add => "Add",
        AssignOp::Sub => "Sub",
        AssignOp::Mul => "Mul",
        AssignOp::Div => "Div",
        AssignOp::Rem => "Rem",
        AssignOp::Shl => "Shl",
        AssignOp::Shr => "Shr",
        AssignOp::Ushr => "Ushr",
        AssignOp::BitAnd => "BitAnd",
        AssignOp::BitOr => "BitOr",
        AssignOp::BitXor => "BitXor",
        AssignOp::LogAnd => "LogAnd",
        AssignOp::LogOr => "LogOr",
    }
}

/// The text holds no line break.
#[verifier::opaque]
pub open spec fn one_line(t: Seq<char>) -> bool {
    forall|i: int| 0 <= i < t.len() ==> #[trigger] t[i] != '\n'
}

/// What `{:?}` writes for a text: quoted, with escapes.
pub uninterp spec fn debug_text(t: Seq<char>) -> Seq<char>;

/// `format!` with `{:?}` on a text quotes it and escapes what Unicode's tables
/// call unprintable; which characters those are is not stated, but that a line
/// break is one of them: the result is one line.
#[verifier::external_body]
fn debug(t: &str) -> (r: String)
    ensures
        r@ == debug_text(t@),
        one_line(r@),
{
    format!("{t:?}")
}

/// A text in quotes, as it stands in a dump: what `{:?}` writes, as far as that is
/// one line, which it always is.
pub open spec fn quote(t: Seq<char>) -> Seq<char> {
    if one_line(debug_text(t)) {
        debug_text(t)
    } else {
        Seq::empty()
    }
}

fn quoted(t: &str) -> (r: String)
    ensures
        r@ == quote(t@),
{
    debug(t)
}

// --- types --------------------------------------------------------------------------------

/// The first `n` names with dots between them.
pub open spec fn dotted(path: Seq<String>, n: nat) -> Seq<char>
    decreases n,
{
    if 0 < n <= path.len() {
        if n == 1 {
            path[0]@
        } else {
            dotted(path, (n - 1) as nat) + "."@ + path[n - 1]@
        }
    } else {
        Seq::empty()
    }
}

/// A type reference as it is written, e.g. `Vector.<int>?`.
pub open spec fn type_text_of(t: TypeRef) -> Seq<char>
    decreases t, 0nat,
{
    (match t.kind {
        TypeRefKind::Any => "*"@,
        TypeRefKind::Void => "void"@,
        TypeRefKind::Name { path, type_args } => if type_args@.len() == 0 {
            dotted(path@, path@.len())
        } else {
            dotted(path@, path@.len()) + ".<"@ + types_text(type_args@, type_args@.len()) + ">"@
        },
    }) + (if t.nullable {
        "?"@
    } else {
        ""@
    })
}

/// The first `n` types with commas between them.
pub open spec fn types_text(ts: Seq<TypeRef>, n: nat) -> Seq<char>
    decreases ts, n,
{
    if 0 < n <= ts.len() {
        if n == 1 {
            type_text_of(ts[0])
        } else {
            types_text(ts, (n - 1) as nat) + ","@ + type_text_of(ts[n - 1])
        }
    } else {
        Seq::empty()
    }
}

/// ` type=T`, if there is a type.
#[verifier::opaque]
pub open spec fn typed(label: Seq<char>, t: Option<TypeRef>) -> Seq<char> {
    match t {
        Some(t) => label + type_text_of(t),
        None => ""@,
    }
}

fn join_names(path: &Vec<String>) -> (r: String)
    ensures
        r@ == dotted(path@, path@.len()),
{
    let mut s = String::new();
    assert(s@ =~= dotted(path@, 0));
    let mut k: usize = 0;
    while k < path.len()
        invariant
            k <= path@.len(),
            s@ == dotted(path@, k as nat),
        decreases path@.len() - k,
    {
        if k > 0 {
            push_text(&mut s, ".");
        }
        push_text(&mut s, path[k].as_str());
        k = k + 1;
        assert(s@ =~= dotted(path@, k as nat));
    }
    s
}

/// A type reference on one line, e.g. `Vector.<int>?`.
pub fn type_text(ty: &TypeRef) -> (r: String)
    ensures
        r@ == type_text_of(*ty),
    decreases ty, 1nat,
{
    let mut s = match &ty.kind {
        TypeRefKind::Any => "*".to_owned(),
        TypeRefKind::Void => "void".to_owned(),
        TypeRefKind::Name { path, type_args } => {
            let mut s = join_names(path);
            if type_args.len() > 0 {
                push_text(&mut s, ".<");
                let args = join_types(type_args);
                push_text(&mut s, args.as_str());
                push_text(&mut s, ">");
            }
            s
        },
    };
    if ty.nullable {
        push_text(&mut s, "?");
    } else {
        push_text(&mut s, "");
    }
    s
}

fn join_types(ts: &Vec<TypeRef>) -> (r: String)
    ensures
        r@ == types_text(ts@, ts@.len()),
    decreases ts, 0nat,
{
    let mut s = String::new();
    assert(s@ =~= types_text(ts@, 0));
    let mut k: usize = 0;
    while k < ts.len()
        invariant
            k <= ts@.len(),
            s@ == types_text(ts@, k as nat),
        decreases ts@.len() - k,
    {
        if k > 0 {
            push_text(&mut s, ",");
        }
        assert(decreases_to!(ts => ts@[k as int]));
        let t = type_text(&ts[k]);
        push_text(&mut s, t.as_str());
        k = k + 1;
        assert(s@ =~= types_text(ts@, k as nat));
    }
    s
}

fn push_typed(s: &mut String, label: &str, t: &Option<TypeRef>)
    ensures
        final(s)@ == old(s)@ + typed(label@, *t),
{
    reveal(typed);
    let ghost before = s@;
    if let Some(t) = t {
        push_text(s, label);
        let x = type_text(t);
        push_text(s, x.as_str());
        assert(s@ =~= before + (label@ + type_text_of(*t)));
    } else {
        push_text(s, "");
    }
}

// --- what a tree dumps as -------------------------------------------------------------------

/// The line of an expression without parts.
#[verifier::opaque]
pub open spec fn atom_line(k: ExprKind) -> Seq<char> {
    match k {
        ExprKind::Int(v) => "Int "@ + signed_decimal(v as int),
        ExprKind::UInt(v) => "UInt "@ + signed_decimal(v as int),
        ExprKind::Str(v) => "Str "@ + quote(v@),
        ExprKind::Bool(true) => "Bool true"@,
        ExprKind::Bool(false) => "Bool false"@,
        ExprKind::Null => "Null"@,
        ExprKind::This => "This"@,
        ExprKind::Super => "Super"@,
        ExprKind::Ident(name) => "Ident "@ + name@,
        _ => ""@,
    }
}

pub open spec fn expr_dump(out: Seq<Bit>, e: Expr, pad: Seq<char>) -> Seq<Bit>
    decreases e, 0nat,
{
    let inner = deeper(pad);
    match e.kind {
        ExprKind::Number(v) => number_line(out, pad, "Number "@, v@, ""@),
        ExprKind::Array(l) => elements_dump(line(out, pad, "Array"@), l@, l@.len(), inner),
        ExprKind::Object(l) => props_dump(line(out, pad, "Object"@), l@, l@.len(), inner),
        ExprKind::Function(f) => function_dump(out, *f, pad),
        ExprKind::Unary(op, a) => expr_dump(
            line(out, pad, "Unary "@ + unary_name(op)@),
            *a,
            inner,
        ),
        ExprKind::Postfix(op, a) => expr_dump(
            line(out, pad, "Postfix "@ + postfix_name(op)@),
            *a,
            inner,
        ),
        ExprKind::Binary(op, a, b) => expr_dump(
            expr_dump(line(out, pad, "Binary "@ + binary_name(op)@), *a, inner),
            *b,
            inner,
        ),
        ExprKind::Assign(op, a, b) => expr_dump(
            expr_dump(line(out, pad, "Assign "@ + assign_name(op)@), *a, inner),
            *b,
            inner,
        ),
        ExprKind::Conditional(c, a, b) => expr_dump(
            expr_dump(expr_dump(line(out, pad, "Conditional"@), *c, inner), *a, inner),
            *b,
            inner,
        ),
        ExprKind::Call(c, args) => args_dump(
            expr_dump(line(out, pad, "Call"@), *c, inner),
            args@,
            args@.len(),
            inner,
        ),
        ExprKind::New(c, args) => args_dump(
            expr_dump(line(out, pad, "New"@), *c, inner),
            args@,
            args@.len(),
            inner,
        ),
        ExprKind::Member(a, name) => expr_dump(line(out, pad, "Member ."@ + name@), *a, inner),
        ExprKind::Index(a, b) => expr_dump(
            expr_dump(line(out, pad, "Index"@), *a, inner),
            *b,
            inner,
        ),
        ExprKind::ApplyType(a, ts) => expr_dump(
            line(out, pad, "ApplyType "@ + types_text(ts@, ts@.len())),
            *a,
            inner,
        ),
        ExprKind::VectorLit { elem, elements } => args_dump(
            line(out, pad, "VectorLit "@ + type_text_of(elem)),
            elements@,
            elements@.len(),
            inner,
        ),
        ExprKind::Comma(a, b) => expr_dump(
            expr_dump(line(out, pad, "Comma"@), *a, inner),
            *b,
            inner,
        ),
        k => line(out, pad, atom_line(k)),
    }
}

/// The first `n` arguments.
pub open spec fn args_dump(out: Seq<Bit>, l: Seq<Expr>, n: nat, pad: Seq<char>) -> Seq<Bit>
    decreases l, n,
{
    if 0 < n <= l.len() {
        expr_dump(
            line(args_dump(out, l, (n - 1) as nat, pad), pad, "arg:"@),
            l[n - 1],
            deeper(pad),
        )
    } else {
        out
    }
}

/// The first `n` elements of an array literal.
pub open spec fn elements_dump(
    out: Seq<Bit>,
    l: Seq<Option<Expr>>,
    n: nat,
    pad: Seq<char>,
) -> Seq<Bit>
    decreases l, n,
{
    if 0 < n <= l.len() {
        let o = elements_dump(out, l, (n - 1) as nat, pad);
        match l[n - 1] {
            Some(e) => expr_dump(o, e, pad),
            None => line(o, pad, "Hole"@),
        }
    } else {
        out
    }
}

/// The line of a property name.
#[verifier::opaque]
pub open spec fn prop_line(out: Seq<Bit>, name: PropName, pad: Seq<char>) -> Seq<Bit> {
    match name {
        PropName::Ident(s) => line(out, pad, "prop "@ + s@ + ":"@),
        PropName::Str(s) => line(out, pad, "prop "@ + quote(s@) + ":"@),
        PropName::Number(v) => number_line(out, pad, "prop "@, v@, ":"@),
    }
}

/// The first `n` properties of an object literal.
pub open spec fn props_dump(
    out: Seq<Bit>,
    l: Seq<(PropName, Expr)>,
    n: nat,
    pad: Seq<char>,
) -> Seq<Bit>
    decreases l, n,
{
    if 0 < n <= l.len() {
        expr_dump(
            prop_line(props_dump(out, l, (n - 1) as nat, pad), l[n - 1].0, pad),
            l[n - 1].1,
            deeper(pad),
        )
    } else {
        out
    }
}

/// A labelled expression.
pub open spec fn labeled_expr(out: Seq<Bit>, label: Seq<char>, e: Expr, pad: Seq<char>) -> Seq<Bit>
    decreases e, 1nat,
{
    expr_dump(line(out, pad, label), e, deeper(pad))
}

/// A labelled expression, if it is there.
pub open spec fn labeled_opt(
    out: Seq<Bit>,
    label: Seq<char>,
    e: Option<Expr>,
    pad: Seq<char>,
) -> Seq<Bit>
    decreases e, 1nat,
{
    match e {
        Some(x) => expr_dump(line(out, pad, label), x, deeper(pad)),
        None => out,
    }
}

/// A labelled statement.
pub open spec fn labeled_stmt(out: Seq<Bit>, label: Seq<char>, s: Stmt, pad: Seq<char>) -> Seq<Bit>
    decreases s, 1nat,
{
    stmt_dump(line(out, pad, label), s, deeper(pad))
}

/// The line of a function.
#[verifier::opaque]
pub open spec fn function_line(f: FunctionDecl) -> Seq<char> {
    "Function"@ + (match f.name {
        Some(s) => " name="@ + s@,
        None => ""@,
    }) + typed(" returns="@, f.return_type)
}

#[verifier::opaque]
pub open spec fn param_line(p: Param) -> Seq<char> {
    "Param "@ + (if p.rest {
        "..."@
    } else {
        ""@
    }) + p.name@ + typed(" type="@, p.ty)
}

#[verifier::opaque]
pub open spec fn binding_line(b: Binding) -> Seq<char> {
    "Binding name="@ + b.name@ + typed(" type="@, b.ty)
}

#[verifier::opaque]
pub open spec fn catch_line(c: CatchClause) -> Seq<char> {
    "Catch name="@ + c.name@ + typed(" type="@, c.ty)
}

pub open spec fn function_dump(out: Seq<Bit>, f: FunctionDecl, pad: Seq<char>) -> Seq<Bit>
    decreases f, 0nat,
{
    block_dump(
        params_dump(line(out, pad, function_line(f)), f.params@, f.params@.len(), deeper(pad)),
        f.body,
        deeper(pad),
    )
}

/// The first `n` parameters.
pub open spec fn params_dump(out: Seq<Bit>, l: Seq<Param>, n: nat, pad: Seq<char>) -> Seq<Bit>
    decreases l, n,
{
    if 0 < n <= l.len() {
        labeled_opt(
            line(params_dump(out, l, (n - 1) as nat, pad), pad, param_line(l[n - 1])),
            "default:"@,
            l[n - 1].default,
            deeper(pad),
        )
    } else {
        out
    }
}

pub open spec fn block_dump(out: Seq<Bit>, b: Block, pad: Seq<char>) -> Seq<Bit>
    decreases b, 0nat,
{
    stmts_dump(line(out, pad, "Block"@), b.stmts@, b.stmts@.len(), deeper(pad))
}

/// The first `n` statements.
pub open spec fn stmts_dump(out: Seq<Bit>, l: Seq<Stmt>, n: nat, pad: Seq<char>) -> Seq<Bit>
    decreases l, n,
{
    if 0 < n <= l.len() {
        stmt_dump(stmts_dump(out, l, (n - 1) as nat, pad), l[n - 1], pad)
    } else {
        out
    }
}

pub open spec fn var_decl_dump(out: Seq<Bit>, d: VarDecl, pad: Seq<char>) -> Seq<Bit>
    decreases d, 0nat,
{
    bindings_dump(
        line(
            out,
            pad,
            if d.is_const {
                "ConstDecl"@
            } else {
                "VarDecl"@
            },
        ),
        d.bindings@,
        d.bindings@.len(),
        deeper(pad),
    )
}

/// The first `n` bindings.
pub open spec fn bindings_dump(out: Seq<Bit>, l: Seq<Binding>, n: nat, pad: Seq<char>) -> Seq<Bit>
    decreases l, n,
{
    if 0 < n <= l.len() {
        labeled_opt(
            line(bindings_dump(out, l, (n - 1) as nat, pad), pad, binding_line(l[n - 1])),
            "init:"@,
            l[n - 1].init,
            deeper(pad),
        )
    } else {
        out
    }
}

/// The first `n` clauses of a `switch`.
pub open spec fn cases_dump(out: Seq<Bit>, l: Seq<SwitchCase>, n: nat, pad: Seq<char>) -> Seq<Bit>
    decreases l, n,
{
    if 0 < n <= l.len() {
        let o = cases_dump(out, l, (n - 1) as nat, pad);
        let c = l[n - 1];
        let o1 = match c.test {
            Some(t) => labeled_expr(line(o, pad, "Case"@), "test:"@, t, deeper(pad)),
            None => line(o, pad, "Default"@),
        };
        stmts_dump(o1, c.body@, c.body@.len(), deeper(pad))
    } else {
        out
    }
}

/// The first `n` `catch` clauses.
pub open spec fn catches_dump(
    out: Seq<Bit>,
    l: Seq<CatchClause>,
    n: nat,
    pad: Seq<char>,
) -> Seq<Bit>
    decreases l, n,
{
    if 0 < n <= l.len() {
        block_dump(
            line(catches_dump(out, l, (n - 1) as nat, pad), pad, catch_line(l[n - 1])),
            l[n - 1].body,
            deeper(pad),
        )
    } else {
        out
    }
}

pub open spec fn init_dump(out: Seq<Bit>, i: ForInit, pad: Seq<char>) -> Seq<Bit>
    decreases i, 0nat,
{
    match i {
        ForInit::VarDecl(d) => var_decl_dump(out, d, pad),
        ForInit::Expr(e) => expr_dump(out, e, pad),
    }
}

pub open spec fn target_dump(out: Seq<Bit>, t: ForInTarget, pad: Seq<char>) -> Seq<Bit>
    decreases t, 0nat,
{
    match t {
        ForInTarget::VarDecl(d) => var_decl_dump(out, d, pad),
        ForInTarget::Expr(e) => expr_dump(out, e, pad),
    }
}

/// The line of a statement without parts.
#[verifier::opaque]
pub open spec fn plain_line(k: StmtKind) -> Seq<char> {
    match k {
        StmtKind::Break { label: Some(l) } => "Break label="@ + l@,
        StmtKind::Break { label: None } => "Break"@,
        StmtKind::Continue { label: Some(l) } => "Continue label="@ + l@,
        StmtKind::Continue { label: None } => "Continue"@,
        StmtKind::Empty => "Empty"@,
        StmtKind::Import { path, wildcard } => "Import "@ + dotted(path@, path@.len()) + (
        if wildcard {
            ".*"@
        } else {
            ""@
        }),
        StmtKind::NamespaceDecl { name, uri: Some(u) } => "Namespace "@ + name@ + " uri="@
            + quote(u@),
        StmtKind::NamespaceDecl { name, uri: None } => "Namespace "@ + name@,
        StmtKind::UseNamespace(name) => "UseNamespace "@ + name@,
        _ => ""@,
    }
}

pub open spec fn stmt_dump(out: Seq<Bit>, s: Stmt, pad: Seq<char>) -> Seq<Bit>
    decreases s, 0nat,
{
    let inner = deeper(pad);
    match s.kind {
        StmtKind::Expr(e) => expr_dump(line(out, pad, "ExprStmt"@), e, inner),
        StmtKind::VarDecl(d) => var_decl_dump(out, d, pad),
        StmtKind::Function(f) => function_dump(out, *f, pad),
        StmtKind::Block(b) => block_dump(out, b, pad),
        StmtKind::If { cond, then_branch, else_branch } => {
            let o = labeled_stmt(
                labeled_expr(line(out, pad, "If"@), "cond:"@, cond, inner),
                "then:"@,
                *then_branch,
                inner,
            );
            match else_branch {
                Some(e) => labeled_stmt(o, "else:"@, *e, inner),
                None => o,
            }
        },
        StmtKind::While { cond, body } => labeled_stmt(
            labeled_expr(line(out, pad, "While"@), "cond:"@, cond, inner),
            "body:"@,
            *body,
            inner,
        ),
        StmtKind::DoWhile { body, cond } => labeled_expr(
            labeled_stmt(line(out, pad, "DoWhile"@), "body:"@, *body, inner),
            "cond:"@,
            cond,
            inner,
        ),
        StmtKind::For { init, cond, update, body } => {
            let o = line(out, pad, "For"@);
            let o1 = match init {
                Some(i) => init_dump(line(o, inner, "init:"@), *i, deeper(inner)),
                None => o,
            };
            labeled_stmt(
                labeled_opt(
                    labeled_opt(o1, "cond:"@, cond, inner),
                    "update:"@,
                    update,
                    inner,
                ),
                "body:"@,
                *body,
                inner,
            )
        },
        StmtKind::ForIn { is_each, target, object, body } => {
            let o = line(
                out,
                pad,
                if is_each {
                    "ForEachIn"@
                } else {
                    "ForIn"@
                },
            );
            let o1 = target_dump(line(o, inner, "target:"@), target, deeper(inner));
            labeled_stmt(
                labeled_expr(o1, "object:"@, object, inner),
                "body:"@,
                *body,
                inner,
            )
        },
        StmtKind::Switch { scrutinee, cases } => cases_dump(
            labeled_expr(line(out, pad, "Switch"@), "scrutinee:"@, scrutinee, inner),
            cases@,
            cases@.len(),
            inner,
        ),
        StmtKind::Return { value } => match value {
            Some(v) => expr_dump(line(out, pad, "Return"@), v, inner),
            None => line(out, pad, "Return"@),
        },
        StmtKind::Throw { value } => expr_dump(line(out, pad, "Throw"@), value, inner),
        StmtKind::Try { block, catches, finally } => {
            let o = catches_dump(
                block_dump(line(out, pad, "Try"@), block, inner),
                catches@,
                catches@.len(),
                inner,
            );
            match finally {
                Some(f) => block_dump(line(o, inner, "Finally"@), f, deeper(inner)),
                None => o,
            }
        },
        StmtKind::Labeled { label, body } => stmt_dump(
            line(out, pad, "Labeled label="@ + label@),
            *body,
            inner,
        ),
        StmtKind::Package { path, body } => stmts_dump(
            line(out, pad, "Package "@ + dotted(path@, path@.len())),
            body@,
            body@.len(),
            inner,
        ),
        StmtKind::Class(c) => class_dump(out, *c, pad),
        StmtKind::Interface(i) => sigs_dump(
            line(out, pad, interface_line(*i)),
            i.members@,
            i.members@.len(),
            inner,
        ),
        k => line(out, pad, plain_line(k)),
    }
}

// Classes and interfaces.

/// The modifiers, each with a space after it.
#[verifier::opaque]
pub open spec fn attrs_text(a: Attributes) -> Seq<char> {
    (match a.visibility {
        Some(Visibility::Public) => "public "@,
        Some(Visibility::Private) => "private "@,
        Some(Visibility::Protected) => "protected "@,
        Some(Visibility::Internal) => "internal "@,
        None => ""@,
    }) + flag(a.is_static, "static "@) + flag(a.is_final, "final "@) + flag(
        a.is_override,
        "override "@,
    ) + flag(a.is_dynamic, "dynamic "@) + flag(a.is_native, "native "@) + (match a.namespace_ {
        Some(n) => n@ + " "@,
        None => ""@,
    })
}

pub open spec fn flag(on: bool, t: Seq<char>) -> Seq<char> {
    if on {
        t
    } else {
        ""@
    }
}

#[verifier::opaque]
pub open spec fn class_line(c: ClassDecl) -> Seq<char> {
    attrs_text(c.attrs) + "Class name="@ + c.name@ + typed(" extends="@, c.extends) + (
    if c.implements@.len() > 0 {
        " implements="@ + types_text(c.implements@, c.implements@.len())
    } else {
        ""@
    })
}

#[verifier::opaque]
pub open spec fn interface_line(i: InterfaceDecl) -> Seq<char> {
    attrs_text(i.attrs) + "Interface name="@ + i.name@ + (if i.extends@.len() > 0 {
        " extends="@ + types_text(i.extends@, i.extends@.len())
    } else {
        ""@
    })
}

#[verifier::opaque]
pub open spec fn member_line(m: Member) -> Seq<char> {
    attrs_text(m.attrs) + (match m.kind {
        MemberKind::Field(_) => "Field"@,
        MemberKind::Method(_) => "Method"@,
        MemberKind::Getter(_) => "Getter"@,
        MemberKind::Setter(_) => "Setter"@,
    })
}

#[verifier::opaque]
pub open spec fn sig_line(m: InterfaceMember) -> Seq<char> {
    (match m.kind {
        SigKind::Method => "Method name="@,
        SigKind::Getter => "Getter name="@,
        SigKind::Setter => "Setter name="@,
    }) + m.name@ + typed(" returns="@, m.return_type)
}

pub open spec fn class_dump(out: Seq<Bit>, c: ClassDecl, pad: Seq<char>) -> Seq<Bit>
    decreases c, 0nat,
{
    members_dump(
        line(out, pad, class_line(c)),
        c.members@,
        c.members@.len(),
        deeper(pad),
    )
}

/// The first `n` members of a class.
pub open spec fn members_dump(out: Seq<Bit>, l: Seq<Member>, n: nat, pad: Seq<char>) -> Seq<Bit>
    decreases l, n,
{
    if 0 < n <= l.len() {
        let o = line(members_dump(out, l, (n - 1) as nat, pad), pad, member_line(l[n - 1]));
        match l[n - 1].kind {
            MemberKind::Field(d) => var_decl_dump(o, d, deeper(pad)),
            MemberKind::Method(f) => function_dump(o, *f, deeper(pad)),
            MemberKind::Getter(f) => function_dump(o, *f, deeper(pad)),
            MemberKind::Setter(f) => function_dump(o, *f, deeper(pad)),
        }
    } else {
        out
    }
}

/// The first `n` members of an interface.
pub open spec fn sigs_dump(
    out: Seq<Bit>,
    l: Seq<InterfaceMember>,
    n: nat,
    pad: Seq<char>,
) -> Seq<Bit>
    decreases l, n,
{
    if 0 < n <= l.len() {
        params_dump(
            line(sigs_dump(out, l, (n - 1) as nat, pad), pad, sig_line(l[n - 1])),
            l[n - 1].params@,
            l[n - 1].params@.len(),
            deeper(pad),
        )
    } else {
        out
    }
}

/// The dump of a program.
pub open spec fn dumped(p: Program) -> Seq<Bit> {
    stmts_dump(
        line(Seq::empty(), ""@, "Program"@),
        p.directives@,
        p.directives@.len(),
        deeper(""@),
    )
}

// --- the dumper ---------------------------------------------------------------------------

fn deepen(pad: &str) -> (r: String)
    ensures
        r@ == deeper(pad@),
{
    let mut s = pad.to_owned();
    push_text(&mut s, "  ");
    s
}

fn joined(a: &str, b: &str) -> (r: String)
    ensures
        r@ == a@ + b@,
{
    let mut s = a.to_owned();
    push_text(&mut s, b);
    s
}

proof fn lemma_said_push(ps: Seq<Piece>, p: Piece, n: nat)
    requires
        n <= ps.len(),
    ensures
        said(ps.push(p), n) == said(ps, n),
    decreases n,
{
    if n > 0 {
        lemma_said_push(ps, p, (n - 1) as nat);
    }
}

/// Collects the parts of a dump.
pub struct Dumper {
    pub pieces: Vec<Piece>,
}

impl View for Dumper {
    type V = Seq<Bit>;

    open spec fn view(&self) -> Seq<Bit> {
        said(self.pieces@, self.pieces@.len())
    }
}

impl Dumper {
    fn piece(&mut self, p: Piece)
        ensures
            final(self)@ == old(self)@ + piece_bits(p),
    {
        proof {
            lemma_said_push(self.pieces@, p, self.pieces@.len());
        }
        self.pieces.push(p);
    }

    /// Writes a line.
    pub fn line(&mut self, pad: &str, text: &str)
        ensures
            final(self)@ == line(old(self)@, pad@, text@),
    {
        reveal(line);
        let mut s = pad.to_owned();
        push_text(&mut s, text);
        push_text(&mut s, "\n");
        self.piece(Piece::Text(s));
    }

    fn number_line(&mut self, pad: &str, before: &str, n: &NumLit, after: &str)
        ensures
            final(self)@ == number_line(old(self)@, pad@, before@, n@, after@),
    {
        reveal(number_line);
        let ghost o = self@;
        self.piece(Piece::Text(joined(pad, before)));
        self.piece(Piece::Number(copy_num(n)));
        self.piece(Piece::Text(joined(after, "\n")));
        assert((o + bits(pad@ + before@)) + seq![Bit::Number(n@)] =~= (o + bits(
            pad@ + before@,
        )).push(Bit::Number(n@)));
    }

    // --- expressions ----------------------------------------------------------------------

    fn atom(&mut self, k: &ExprKind, pad: &str)
        ensures
            final(self)@ == line(old(self)@, pad@, atom_line(*k)),
    {
        reveal(atom_line);
        let mut s = String::new();
        match k {
            ExprKind::Int(v) => {
                push_text(&mut s, "Int ");
                push_signed(&mut s, *v as i64);
            },
            ExprKind::UInt(v) => {
                push_text(&mut s, "UInt ");
                push_signed(&mut s, *v as i64);
            },
            ExprKind::Str(v) => {
                push_text(&mut s, "Str ");
                let q = quoted(v.as_str());
                push_text(&mut s, q.as_str());
            },
            ExprKind::Bool(v) => {
                push_text(
                    &mut s,
                    if *v {
                        "Bool true"
                    } else {
                        "Bool false"
                    },
                );
            },
            ExprKind::Null => push_text(&mut s, "Null"),
            ExprKind::This => push_text(&mut s, "This"),
            ExprKind::Super => push_text(&mut s, "Super"),
            ExprKind::Ident(name) => {
                push_text(&mut s, "Ident ");
                push_text(&mut s, name.as_str());
            },
            _ => push_text(&mut s, ""),
        }
        assert(s@ =~= atom_line(*k));
        self.line(pad, s.as_str());
    }

    pub fn expr(&mut self, e: &Expr, pad: &str)
        ensures
            final(self)@ == expr_dump(old(self)@, *e, pad@),
        decreases e, 0nat,
    {
        match &e.kind {
            ExprKind::Number(v) => self.number_line(pad, "Number ", v, ""),
            ExprKind::Array(l) => {
                self.line(pad, "Array");
                self.elements(l, deepen(pad).as_str());
            },
            ExprKind::Object(l) => {
                self.line(pad, "Object");
                self.props(l, deepen(pad).as_str());
            },
            ExprKind::Function(f) => self.function(f, pad),
            ExprKind::Call(c, args) => {
                self.line(pad, "Call");
                let inner = deepen(pad);
                self.expr(c, inner.as_str());
                self.args(args, inner.as_str());
            },
            ExprKind::New(c, args) => {
                self.line(pad, "New");
                let inner = deepen(pad);
                self.expr(c, inner.as_str());
                self.args(args, inner.as_str());
            },
            ExprKind::VectorLit { elem, elements } => {
                let t = type_text(elem);
                self.line(pad, joined("VectorLit ", t.as_str()).as_str());
                self.args(elements, deepen(pad).as_str());
            },
            ExprKind::Unary(op, a) => {
                self.line(pad, joined("Unary ", unary_text(*op)).as_str());
                self.expr(a, deepen(pad).as_str());
            },
            ExprKind::Postfix(op, a) => {
                self.line(pad, joined("Postfix ", postfix_text(*op)).as_str());
                self.expr(a, deepen(pad).as_str());
            },
            ExprKind::Member(a, name) => {
                self.line(pad, joined("Member .", name.as_str()).as_str());
                self.expr(a, deepen(pad).as_str());
            },
            ExprKind::ApplyType(a, ts) => {
                let t = join_types(ts);
                self.line(pad, joined("ApplyType ", t.as_str()).as_str());
                self.expr(a, deepen(pad).as_str());
            },
            ExprKind::Binary(op, a, b) => {
                self.line(pad, joined("Binary ", binary_text(*op)).as_str());
                let inner = deepen(pad);
                self.expr(a, inner.as_str());
                self.expr(b, inner.as_str());
            },
            ExprKind::Assign(op, a, b) => {
                self.line(pad, joined("Assign ", assign_text(*op)).as_str());
                let inner = deepen(pad);
                self.expr(a, inner.as_str());
                self.expr(b, inner.as_str());
            },
            ExprKind::Index(a, b) => {
                self.line(pad, "Index");
                let inner = deepen(pad);
                self.expr(a, inner.as_str());
                self.expr(b, inner.as_str());
            },
            ExprKind::Comma(a, b) => {
                self.line(pad, "Comma");
                let inner = deepen(pad);
                self.expr(a, inner.as_str());
                self.expr(b, inner.as_str());
            },
            ExprKind::Conditional(c, a, b) => {
                self.line(pad, "Conditional");
                let inner = deepen(pad);
                self.expr(c, inner.as_str());
                self.expr(a, inner.as_str());
                self.expr(b, inner.as_str());
            },
            k => self.atom(k, pad),
        }
    }

    fn args(&mut self, l: &Vec<Expr>, pad: &str)
        ensures
            final(self)@ == args_dump(old(self)@, l@, l@.len(), pad@),
        decreases l, 0nat,
    {
        let inner = deepen(pad);
        let mut k: usize = 0;
        while k < l.len()
            invariant
                k <= l@.len(),
                inner@ == deeper(pad@),
                self@ == args_dump(old(self)@, l@, k as nat, pad@),
            decreases l@.len() - k,
        {
            self.line(pad, "arg:");
            assert(decreases_to!(l => l@[k as int]));
            self.expr(&l[k], inner.as_str());
            k = k + 1;
        }
    }

    fn elements(&mut self, l: &Vec<Option<Expr>>, pad: &str)
        ensures
            final(self)@ == elements_dump(old(self)@, l@, l@.len(), pad@),
        decreases l, 0nat,
    {
        let mut k: usize = 0;
        while k < l.len()
            invariant
                k <= l@.len(),
                self@ == elements_dump(old(self)@, l@, k as nat, pad@),
            decreases l@.len() - k,
        {
            assert(decreases_to!(l => l@[k as int]));
            match &l[k] {
                Some(e) => self.expr(e, pad),
                None => self.line(pad, "Hole"),
            }
            k = k + 1;
        }
    }

    fn prop_line(&mut self, name: &PropName, pad: &str)
        ensures
            final(self)@ == prop_line(old(self)@, *name, pad@),
    {
        reveal(prop_line);
        match name {
            PropName::Ident(s) => {
                let mut t = joined("prop ", s.as_str());
                push_text(&mut t, ":");
                self.line(pad, t.as_str());
            },
            PropName::Str(s) => {
                let mut t = joined("prop ", quoted(s.as_str()).as_str());
                push_text(&mut t, ":");
                self.line(pad, t.as_str());
            },
            PropName::Number(v) => self.number_line(pad, "prop ", v, ":"),
        }
    }

    fn props(&mut self, l: &Vec<(PropName, Expr)>, pad: &str)
        ensures
            final(self)@ == props_dump(old(self)@, l@, l@.len(), pad@),
        decreases l, 0nat,
    {
        let inner = deepen(pad);
        let mut k: usize = 0;
        while k < l.len()
            invariant
                k <= l@.len(),
                inner@ == deeper(pad@),
                self@ == props_dump(old(self)@, l@, k as nat, pad@),
            decreases l@.len() - k,
        {
            self.prop_line(&l[k].0, pad);
            assert(decreases_to!(l => l@[k as int]));
            self.expr(&l[k].1, inner.as_str());
            k = k + 1;
        }
    }

    // --- functions ------------------------------------------------------------------------

    fn labeled_expr(&mut self, label: &str, e: &Expr, pad: &str)
        ensures
            final(self)@ == labeled_expr(old(self)@, label@, *e, pad@),
        decreases e, 1nat,
    {
        self.line(pad, label);
        self.expr(e, deepen(pad).as_str());
    }

    fn labeled_opt(&mut self, label: &str, e: &Option<Expr>, pad: &str)
        ensures
            final(self)@ == labeled_opt(old(self)@, label@, *e, pad@),
        decreases e, 1nat,
    {
        if let Some(x) = e {
            self.line(pad, label);
            self.expr(x, deepen(pad).as_str());
        }
    }

    fn labeled_stmt(&mut self, label: &str, s: &Stmt, pad: &str)
        ensures
            final(self)@ == labeled_stmt(old(self)@, label@, *s, pad@),
        decreases s, 1nat,
    {
        self.line(pad, label);
        self.stmt(s, deepen(pad).as_str());
    }

    fn function_head(&mut self, f: &FunctionDecl, pad: &str)
        ensures
            final(self)@ == line(old(self)@, pad@, function_line(*f)),
    {
        reveal(function_line);
        let mut t = "Function".to_owned();
        match &f.name {
            Some(s) => {
                let n = joined(" name=", s.as_str());
                push_text(&mut t, n.as_str());
            },
            None => push_text(&mut t, ""),
        }
        push_typed(&mut t, " returns=", &f.return_type);
        self.line(pad, t.as_str());
    }

    fn function(&mut self, f: &FunctionDecl, pad: &str)
        ensures
            final(self)@ == function_dump(old(self)@, *f, pad@),
        decreases f, 0nat,
    {
        self.function_head(f, pad);
        let inner = deepen(pad);
        self.params(&f.params, inner.as_str());
        self.block(&f.body, inner.as_str());
    }

    fn param_head(&mut self, p: &Param, pad: &str)
        ensures
            final(self)@ == line(old(self)@, pad@, param_line(*p)),
    {
        reveal(param_line);
        let mut t = "Param ".to_owned();
        push_text(
            &mut t,
            if p.rest {
                "..."
            } else {
                ""
            },
        );
        push_text(&mut t, p.name.as_str());
        push_typed(&mut t, " type=", &p.ty);
        self.line(pad, t.as_str());
    }

    fn params(&mut self, l: &Vec<Param>, pad: &str)
        ensures
            final(self)@ == params_dump(old(self)@, l@, l@.len(), pad@),
        decreases l, 0nat,
    {
        let inner = deepen(pad);
        let mut k: usize = 0;
        while k < l.len()
            invariant
                k <= l@.len(),
                inner@ == deeper(pad@),
                self@ == params_dump(old(self)@, l@, k as nat, pad@),
            decreases l@.len() - k,
        {
            self.param_head(&l[k], pad);
            assert(decreases_to!(l => l@[k as int]));
            self.labeled_opt("default:", &l[k].default, inner.as_str());
            k = k + 1;
        }
    }

    // --- statements -----------------------------------------------------------------------

    fn block(&mut self, b: &Block, pad: &str)
        ensures
            final(self)@ == block_dump(old(self)@, *b, pad@),
        decreases b, 0nat,
    {
        self.line(pad, "Block");
        self.stmts(&b.stmts, deepen(pad).as_str());
    }

    fn stmts(&mut self, l: &Vec<Stmt>, pad: &str)
        ensures
            final(self)@ == stmts_dump(old(self)@, l@, l@.len(), pad@),
        decreases l, 0nat,
    {
        let mut k: usize = 0;
        while k < l.len()
            invariant
                k <= l@.len(),
                self@ == stmts_dump(old(self)@, l@, k as nat, pad@),
            decreases l@.len() - k,
        {
            assert(decreases_to!(l => l@[k as int]));
            self.stmt(&l[k], pad);
            k = k + 1;
        }
    }

    fn binding_head(&mut self, b: &Binding, pad: &str)
        ensures
            final(self)@ == line(old(self)@, pad@, binding_line(*b)),
    {
        reveal(binding_line);
        let mut t = joined("Binding name=", b.name.as_str());
        push_typed(&mut t, " type=", &b.ty);
        self.line(pad, t.as_str());
    }

    fn var_decl(&mut self, d: &VarDecl, pad: &str)
        ensures
            final(self)@ == var_decl_dump(old(self)@, *d, pad@),
        decreases d, 0nat,
    {
        self.line(
            pad,
            if d.is_const {
                "ConstDecl"
            } else {
                "VarDecl"
            },
        );
        self.bindings(&d.bindings, deepen(pad).as_str());
    }

    fn bindings(&mut self, l: &Vec<Binding>, pad: &str)
        ensures
            final(self)@ == bindings_dump(old(self)@, l@, l@.len(), pad@),
        decreases l, 0nat,
    {
        let inner = deepen(pad);
        let mut k: usize = 0;
        while k < l.len()
            invariant
                k <= l@.len(),
                inner@ == deeper(pad@),
                self@ == bindings_dump(old(self)@, l@, k as nat, pad@),
            decreases l@.len() - k,
        {
            self.binding_head(&l[k], pad);
            assert(decreases_to!(l => l@[k as int]));
            self.labeled_opt("init:", &l[k].init, inner.as_str());
            k = k + 1;
        }
    }

    fn cases(&mut self, l: &Vec<SwitchCase>, pad: &str)
        ensures
            final(self)@ == cases_dump(old(self)@, l@, l@.len(), pad@),
        decreases l, 0nat,
    {
        let inner = deepen(pad);
        let mut k: usize = 0;
        while k < l.len()
            invariant
                k <= l@.len(),
                inner@ == deeper(pad@),
                self@ == cases_dump(old(self)@, l@, k as nat, pad@),
            decreases l@.len() - k,
        {
            assert(decreases_to!(l => l@[k as int]));
            match &l[k].test {
                Some(t) => {
                    self.line(pad, "Case");
                    self.labeled_expr("test:", t, inner.as_str());
                },
                None => self.line(pad, "Default"),
            }
            self.stmts(&l[k].body, inner.as_str());
            k = k + 1;
        }
    }

    fn catch_head(&mut self, c: &CatchClause, pad: &str)
        ensures
            final(self)@ == line(old(self)@, pad@, catch_line(*c)),
    {
        reveal(catch_line);
        let mut t = joined("Catch name=", c.name.as_str());
        push_typed(&mut t, " type=", &c.ty);
        self.line(pad, t.as_str());
    }

    fn catches(&mut self, l: &Vec<CatchClause>, pad: &str)
        ensures
            final(self)@ == catches_dump(old(self)@, l@, l@.len(), pad@),
        decreases l, 0nat,
    {
        let inner = deepen(pad);
        let mut k: usize = 0;
        while k < l.len()
            invariant
                k <= l@.len(),
                inner@ == deeper(pad@),
                self@ == catches_dump(old(self)@, l@, k as nat, pad@),
            decreases l@.len() - k,
        {
            self.catch_head(&l[k], pad);
            assert(decreases_to!(l => l@[k as int]));
            self.block(&l[k].body, inner.as_str());
            k = k + 1;
        }
    }

    fn init(&mut self, i: &ForInit, pad: &str)
        ensures
            final(self)@ == init_dump(old(self)@, *i, pad@),
        decreases i, 0nat,
    {
        match i {
            ForInit::VarDecl(d) => self.var_decl(d, pad),
            ForInit::Expr(e) => self.expr(e, pad),
        }
    }

    fn target(&mut self, t: &ForInTarget, pad: &str)
        ensures
            final(self)@ == target_dump(old(self)@, *t, pad@),
        decreases t, 0nat,
    {
        match t {
            ForInTarget::VarDecl(d) => self.var_decl(d, pad),
            ForInTarget::Expr(e) => self.expr(e, pad),
        }
    }

    fn plain(&mut self, k: &StmtKind, pad: &str)
        ensures
            final(self)@ == line(old(self)@, pad@, plain_line(*k)),
    {
        reveal(plain_line);
        let mut s = String::new();
        match k {
            StmtKind::Break { label: Some(l) } => {
                push_text(&mut s, "Break label=");
                push_text(&mut s, l.as_str());
            },
            StmtKind::Break { label: None } => push_text(&mut s, "Break"),
            StmtKind::Continue { label: Some(l) } => {
                push_text(&mut s, "Continue label=");
                push_text(&mut s, l.as_str());
            },
            StmtKind::Continue { label: None } => push_text(&mut s, "Continue"),
            StmtKind::Empty => push_text(&mut s, "Empty"),
            StmtKind::Import { path, wildcard } => {
                push_text(&mut s, "Import ");
                let p = join_names(path);
                push_text(&mut s, p.as_str());
                push_text(
                    &mut s,
                    if *wildcard {
                        ".*"
                    } else {
                        ""
                    },
                );
            },
            StmtKind::NamespaceDecl { name, uri } => {
                push_text(&mut s, "Namespace ");
                push_text(&mut s, name.as_str());
                if let Some(u) = uri {
                    push_text(&mut s, " uri=");
                    let q = quoted(u.as_str());
                    push_text(&mut s, q.as_str());
                }
            },
            StmtKind::UseNamespace(name) => {
                push_text(&mut s, "UseNamespace ");
                push_text(&mut s, name.as_str());
            },
            _ => push_text(&mut s, ""),
        }
        assert(s@ =~= plain_line(*k));
        self.line(pad, s.as_str());
    }

    pub fn stmt(&mut self, s: &Stmt, pad: &str)
        ensures
            final(self)@ == stmt_dump(old(self)@, *s, pad@),
        decreases s, 0nat,
    {
        let inner = deepen(pad);
        match &s.kind {
            StmtKind::Expr(e) => {
                self.line(pad, "ExprStmt");
                self.expr(e, inner.as_str());
            },
            StmtKind::VarDecl(d) => self.var_decl(d, pad),
            StmtKind::Function(f) => self.function(f, pad),
            StmtKind::Block(b) => self.block(b, pad),
            StmtKind::If { cond, then_branch, else_branch } => {
                self.line(pad, "If");
                self.labeled_expr("cond:", cond, inner.as_str());
                self.labeled_stmt("then:", then_branch, inner.as_str());
                if let Some(e) = else_branch {
                    self.labeled_stmt("else:", e, inner.as_str());
                }
            },
            StmtKind::While { cond, body } => {
                self.line(pad, "While");
                self.labeled_expr("cond:", cond, inner.as_str());
                self.labeled_stmt("body:", body, inner.as_str());
            },
            StmtKind::DoWhile { body, cond } => {
                self.line(pad, "DoWhile");
                self.labeled_stmt("body:", body, inner.as_str());
                self.labeled_expr("cond:", cond, inner.as_str());
            },
            StmtKind::For { init, cond, update, body } => {
                self.line(pad, "For");
                if let Some(i) = init {
                    self.line(inner.as_str(), "init:");
                    self.init(i, deepen(inner.as_str()).as_str());
                }
                self.labeled_opt("cond:", cond, inner.as_str());
                self.labeled_opt("update:", update, inner.as_str());
                self.labeled_stmt("body:", body, inner.as_str());
            },
            StmtKind::ForIn { is_each, target, object, body } => {
                self.line(
                    pad,
                    if *is_each {
                        "ForEachIn"
                    } else {
                        "ForIn"
                    },
                );
                self.line(inner.as_str(), "target:");
                self.target(target, deepen(inner.as_str()).as_str());
                self.labeled_expr("object:", object, inner.as_str());
                self.labeled_stmt("body:", body, inner.as_str());
            },
            StmtKind::Switch { scrutinee, cases } => {
                self.line(pad, "Switch");
                self.labeled_expr("scrutinee:", scrutinee, inner.as_str());
                self.cases(cases, inner.as_str());
            },
            StmtKind::Return { value } => {
                self.line(pad, "Return");
                if let Some(v) = value {
                    self.expr(v, inner.as_str());
                }
            },
            StmtKind::Throw { value } => {
                self.line(pad, "Throw");
                self.expr(value, inner.as_str());
            },
            StmtKind::Try { block, catches, finally } => {
                self.line(pad, "Try");
                self.block(block, inner.as_str());
                self.catches(catches, inner.as_str());
                if let Some(f) = finally {
                    self.line(inner.as_str(), "Finally");
                    self.block(f, deepen(inner.as_str()).as_str());
                }
            },
            StmtKind::Labeled { label, body } => {
                self.line(pad, joined("Labeled label=", label.as_str()).as_str());
                self.stmt(body, inner.as_str());
            },
            StmtKind::Package { path, body } => {
                let p = join_names(path);
                self.line(pad, joined("Package ", p.as_str()).as_str());
                self.stmts(body, inner.as_str());
            },
            StmtKind::Class(c) => self.class(c, pad),
            StmtKind::Interface(i) => {
                self.interface_head(i, pad);
                self.sigs(&i.members, inner.as_str());
            },
            k => self.plain(k, pad),
        }
    }

    // --- classes and interfaces -------------------------------------------------------------

    fn class_head(&mut self, c: &ClassDecl, pad: &str)
        ensures
            final(self)@ == line(old(self)@, pad@, class_line(*c)),
    {
        reveal(class_line);
        let mut t = attrs_string(&c.attrs);
        push_text(&mut t, "Class name=");
        push_text(&mut t, c.name.as_str());
        push_typed(&mut t, " extends=", &c.extends);
        let ghost before = t@;
        if c.implements.len() > 0 {
            let l = join_types(&c.implements);
            let x = joined(" implements=", l.as_str());
            push_text(&mut t, x.as_str());
        } else {
            push_text(&mut t, "");
        }
        self.line(pad, t.as_str());
    }

    fn interface_head(&mut self, i: &InterfaceDecl, pad: &str)
        ensures
            final(self)@ == line(old(self)@, pad@, interface_line(*i)),
    {
        reveal(interface_line);
        let mut t = attrs_string(&i.attrs);
        push_text(&mut t, "Interface name=");
        push_text(&mut t, i.name.as_str());
        if i.extends.len() > 0 {
            let l = join_types(&i.extends);
            let x = joined(" extends=", l.as_str());
            push_text(&mut t, x.as_str());
        } else {
            push_text(&mut t, "");
        }
        self.line(pad, t.as_str());
    }

    fn class(&mut self, c: &ClassDecl, pad: &str)
        ensures
            final(self)@ == class_dump(old(self)@, *c, pad@),
        decreases c, 0nat,
    {
        self.class_head(c, pad);
        self.members(&c.members, deepen(pad).as_str());
    }

    fn member_head(&mut self, m: &Member, pad: &str)
        ensures
            final(self)@ == line(old(self)@, pad@, member_line(*m)),
    {
        reveal(member_line);
        let mut t = attrs_string(&m.attrs);
        push_text(
            &mut t,
            match m.kind {
                MemberKind::Field(_) => "Field",
                MemberKind::Method(_) => "Method",
                MemberKind::Getter(_) => "Getter",
                MemberKind::Setter(_) => "Setter",
            },
        );
        self.line(pad, t.as_str());
    }

    fn members(&mut self, l: &Vec<Member>, pad: &str)
        ensures
            final(self)@ == members_dump(old(self)@, l@, l@.len(), pad@),
        decreases l, 0nat,
    {
        let inner = deepen(pad);
        let mut k: usize = 0;
        while k < l.len()
            invariant
                k <= l@.len(),
                inner@ == deeper(pad@),
                self@ == members_dump(old(self)@, l@, k as nat, pad@),
            decreases l@.len() - k,
        {
            self.member_head(&l[k], pad);
            assert(decreases_to!(l => l@[k as int]));
            match &l[k].kind {
                MemberKind::Field(d) => self.var_decl(d, inner.as_str()),
                MemberKind::Method(f) | MemberKind::Getter(f) | MemberKind::Setter(f) => {
                    self.function(f, inner.as_str())
                },
            }
            k = k + 1;
        }
    }

    fn sig_head(&mut self, m: &InterfaceMember, pad: &str)
        ensures
            final(self)@ == line(old(self)@, pad@, sig_line(*m)),
    {
        reveal(sig_line);
        let head = match m.kind {
            SigKind::Method => "Method name=",
            SigKind::Getter => "Getter name=",
            SigKind::Setter => "Setter name=",
        };
        let mut t = joined(head, m.name.as_str());
        push_typed(&mut t, " returns=", &m.return_type);
        self.line(pad, t.as_str());
    }

    fn sigs(&mut self, l: &Vec<InterfaceMember>, pad: &str)
        ensures
            final(self)@ == sigs_dump(old(self)@, l@, l@.len(), pad@),
        decreases l, 0nat,
    {
        let inner = deepen(pad);
        let mut k: usize = 0;
        while k < l.len()
            invariant
                k <= l@.len(),
                inner@ == deeper(pad@),
                self@ == sigs_dump(old(self)@, l@, k as nat, pad@),
            decreases l@.len() - k,
        {
            self.sig_head(&l[k], pad);
            assert(decreases_to!(l => l@[k as int]));
            self.params(&l[k].params, inner.as_str());
            k = k + 1;
        }
    }
}

fn push_flag(s: &mut String, on: bool, t: &str)
    ensures
        final(s)@ == old(s)@ + flag(on, t@),
{
    if on {
        push_text(s, t);
    } else {
        push_text(s, "");
    }
}

fn attrs_string(a: &Attributes) -> (r: String)
    ensures
        r@ == attrs_text(*a),
{
    reveal(attrs_text);
    let mut s = match a.visibility {
        Some(Visibility::Public) => "public ".to_owned(),
        Some(Visibility::Private) => "private ".to_owned(),
        Some(Visibility::Protected) => "protected ".to_owned(),
        Some(Visibility::Internal) => "internal ".to_owned(),
        None => "".to_owned(),
    };
    push_flag(&mut s, a.is_static, "static ");
    push_flag(&mut s, a.is_final, "final ");
    push_flag(&mut s, a.is_override, "override ");
    push_flag(&mut s, a.is_dynamic, "dynamic ");
    push_flag(&mut s, a.is_native, "native ");
    match &a.namespace_ {
        Some(n) => {
            let x = joined(n.as_str(), " ");
            push_text(&mut s, x.as_str());
        },
        None => push_text(&mut s, ""),
    }
    s
}

/// Dumps a program as an indented tree.
pub fn dump(program: &Program) -> (r: Vec<Piece>)
    ensures
        said(r@, r@.len()) == dumped(*program),
{
    let mut d = Dumper { pieces: Vec::new() };
    d.line("", "Program");
    d.stmts(&program.directives, deepen("").as_str());
    d.pieces
}

} // verus!
