//! How expressions are written, and that the parser reads them so.
//!
//! A [`Tree`] is an expression with its parentheses. `written` says that tokens
//! write a tree, `well` that it needs no further parentheses by the precedence of
//! the operators, and `reads` that a parsed expression says what the tree does. The
//! laws say that the parser gets the tree back.

use vstd::prelude::*;

use crate::ast::nodes::{AssignOp, BinaryOp, PostfixOp, UnaryOp};
use crate::ast::view::{ExprKindView, ExprView};
use crate::lexer::token::{keyword_text, punctuator_text, KindView, TokenKind, TokenView};
use crate::parser::grammar::{
    argument_list, arguments, assign_op_of, assignable, assignment, atom, binary, binary_op_of,
    binary_rest, call, call_rest, check_target, comma_rest, conditional, element, expression,
    grammar, head, lemma_rules, postfix, primary, unary, unary_op_of,
};
use crate::parser::state::PState;
use crate::span::Span;

verus! {

// --- operators ----------------------------------------------------------------------------

/// The binary operators from the loosest to the tightest: `||`, `&&`, `|`, `^`,
/// `&`, equality, relations, shifts, sums, products.
pub open spec fn tier(op: BinaryOp) -> int {
    match op {
        BinaryOp::LogOr => 0,
        BinaryOp::LogAnd => 1,
        BinaryOp::BitOr => 2,
        BinaryOp::BitXor => 3,
        BinaryOp::BitAnd => 4,
        BinaryOp::Eq | BinaryOp::Ne | BinaryOp::StrictEq | BinaryOp::StrictNe => 5,
        BinaryOp::Lt | BinaryOp::Gt | BinaryOp::Le | BinaryOp::Ge => 6,
        BinaryOp::In | BinaryOp::Instanceof | BinaryOp::Is | BinaryOp::As => 6,
        BinaryOp::Shl | BinaryOp::Shr | BinaryOp::Ushr => 7,
        BinaryOp::Add | BinaryOp::Sub => 8,
        BinaryOp::Mul | BinaryOp::Div | BinaryOp::Rem => 9,
    }
}

/// How a binary operator is written.
pub open spec fn binary_sign(op: BinaryOp) -> &'static str {
    match op {
        BinaryOp::LogOr => "||",
        BinaryOp::LogAnd => "&&",
        BinaryOp::BitOr => "|",
        BinaryOp::BitXor => "^",
        BinaryOp::BitAnd => "&",
        BinaryOp::Eq => "==",
        BinaryOp::Ne => "!=",
        BinaryOp::StrictEq => "===",
        BinaryOp::StrictNe => "!==",
        BinaryOp::Lt => "<",
        BinaryOp::Gt => ">",
        BinaryOp::Le => "<=",
        BinaryOp::Ge => ">=",
        BinaryOp::In => "in",
        BinaryOp::Instanceof => "instanceof",
        BinaryOp::Is => "is",
        BinaryOp::As => "as",
        BinaryOp::Shl => "<<",
        BinaryOp::Shr => ">>",
        BinaryOp::Ushr => ">>>",
        BinaryOp::Add => "+",
        BinaryOp::Sub => "-",
        BinaryOp::Mul => "*",
        BinaryOp::Div => "/",
        BinaryOp::Rem => "%",
    }
}

/// How a prefix operator is written.
pub open spec fn prefix_sign(op: UnaryOp) -> &'static str {
    match op {
        UnaryOp::Delete => "delete",
        UnaryOp::Void => "void",
        UnaryOp::Typeof => "typeof",
        UnaryOp::PreInc => "++",
        UnaryOp::PreDec => "--",
        UnaryOp::Plus => "+",
        UnaryOp::Minus => "-",
        UnaryOp::BitNot => "~",
        UnaryOp::Not => "!",
    }
}

/// How an assignment is written.
pub open spec fn assign_sign(op: AssignOp) -> &'static str {
    match op {
        AssignOp::Assign => "=",
        AssignOp::Add => "+=",
        AssignOp::Sub => "-=",
        AssignOp::Mul => "*=",
        AssignOp::Div => "/=",
        AssignOp::Rem => "%=",
        AssignOp::Shl => "<<=",
        AssignOp::Shr => ">>=",
        AssignOp::Ushr => ">>>=",
        AssignOp::BitAnd => "&=",
        AssignOp::BitOr => "|=",
        AssignOp::BitXor => "^=",
        AssignOp::LogAnd => "&&=",
        AssignOp::LogOr => "||=",
    }
}

/// The token is written so.
pub open spec fn is_written(k: KindView, w: &'static str) -> bool {
    k matches KindView::Plain(p) && (punctuator_text(p) == Some(w) || keyword_text(p) == Some(w))
}

/// The token of a binary operator.
pub open spec fn binary_token(op: BinaryOp) -> TokenKind {
    match op {
        BinaryOp::LogOr => TokenKind::LogOr,
        BinaryOp::LogAnd => TokenKind::LogAnd,
        BinaryOp::BitOr => TokenKind::BitOr,
        BinaryOp::BitXor => TokenKind::BitXor,
        BinaryOp::BitAnd => TokenKind::BitAnd,
        BinaryOp::Eq => TokenKind::Eq,
        BinaryOp::Ne => TokenKind::Ne,
        BinaryOp::StrictEq => TokenKind::StrictEq,
        BinaryOp::StrictNe => TokenKind::StrictNe,
        BinaryOp::Lt => TokenKind::Lt,
        BinaryOp::Gt => TokenKind::Gt,
        BinaryOp::Le => TokenKind::Le,
        BinaryOp::Ge => TokenKind::Ge,
        BinaryOp::In => TokenKind::In,
        BinaryOp::Instanceof => TokenKind::Instanceof,
        BinaryOp::Is => TokenKind::Is,
        BinaryOp::As => TokenKind::As,
        BinaryOp::Shl => TokenKind::Shl,
        BinaryOp::Shr => TokenKind::Shr,
        BinaryOp::Ushr => TokenKind::Ushr,
        BinaryOp::Add => TokenKind::Plus,
        BinaryOp::Sub => TokenKind::Minus,
        BinaryOp::Mul => TokenKind::Star,
        BinaryOp::Div => TokenKind::Slash,
        BinaryOp::Rem => TokenKind::Percent,
    }
}

/// The token of a prefix operator.
pub open spec fn prefix_token(op: UnaryOp) -> TokenKind {
    match op {
        UnaryOp::Delete => TokenKind::Delete,
        UnaryOp::Void => TokenKind::Void,
        UnaryOp::Typeof => TokenKind::Typeof,
        UnaryOp::PreInc => TokenKind::PlusPlus,
        UnaryOp::PreDec => TokenKind::MinusMinus,
        UnaryOp::Plus => TokenKind::Plus,
        UnaryOp::Minus => TokenKind::Minus,
        UnaryOp::BitNot => TokenKind::BitNot,
        UnaryOp::Not => TokenKind::Not,
    }
}

/// The token of an assignment.
pub open spec fn assign_token(op: AssignOp) -> TokenKind {
    match op {
        AssignOp::Assign => TokenKind::Assign,
        AssignOp::Add => TokenKind::PlusAssign,
        AssignOp::Sub => TokenKind::MinusAssign,
        AssignOp::Mul => TokenKind::StarAssign,
        AssignOp::Div => TokenKind::SlashAssign,
        AssignOp::Rem => TokenKind::PercentAssign,
        AssignOp::Shl => TokenKind::ShlAssign,
        AssignOp::Shr => TokenKind::ShrAssign,
        AssignOp::Ushr => TokenKind::UshrAssign,
        AssignOp::BitAnd => TokenKind::BitAndAssign,
        AssignOp::BitOr => TokenKind::BitOrAssign,
        AssignOp::BitXor => TokenKind::BitXorAssign,
        AssignOp::LogAnd => TokenKind::LogAndAssign,
        AssignOp::LogOr => TokenKind::LogOrAssign,
    }
}

/// The token of each operator is written as the operator is.
pub proof fn law_operators_are_written_so(b: BinaryOp, u: UnaryOp, a: AssignOp)
    ensures
        is_written(KindView::Plain(binary_token(b)), binary_sign(b)),
        is_written(KindView::Plain(prefix_token(u)), prefix_sign(u)),
        is_written(KindView::Plain(assign_token(a)), assign_sign(a)),
{
    reveal(punctuator_text);
    reveal(keyword_text);
}

/// The token is the binary operator.
pub open spec fn is_binary(k: KindView, op: BinaryOp) -> bool {
    k == KindView::Plain(binary_token(op))
}

/// The token is the prefix operator.
pub open spec fn is_prefix(k: KindView, op: UnaryOp) -> bool {
    k == KindView::Plain(prefix_token(op))
}

/// The token is the assignment.
pub open spec fn is_assign(k: KindView, op: AssignOp) -> bool {
    k == KindView::Plain(assign_token(op))
}

/// The tokens of the operators, and no others, are taken for them.
pub proof fn lemma_tokens(k: KindView)
    ensures
        forall|op: BinaryOp| #[trigger] is_binary(k, op) ==> binary_op_of(k) == Some((op, tier(op))),
        forall|op: UnaryOp| #[trigger] is_prefix(k, op) ==> unary_op_of(k) == Some(op),
        forall|op: AssignOp| #[trigger] is_assign(k, op) ==> assign_op_of(k) == Some(op),
        binary_op_of(k) matches Some(o) ==> is_binary(k, o.0) && o.1 == tier(o.0),
        unary_op_of(k) matches Some(op) ==> is_prefix(k, op),
        assign_op_of(k) matches Some(op) ==> is_assign(k, op),
{
    reveal(binary_op_of);
    reveal(unary_op_of);
    reveal(assign_op_of);
}

// --- trees --------------------------------------------------------------------------------

/// An expression as it is written.
pub ghost enum Tree {
    /// A literal or a name.
    Atom(KindView),
    Paren(Box<Tree>),
    Member(Box<Tree>, Seq<char>),
    Index(Box<Tree>, Box<Tree>),
    Call(Box<Tree>, Seq<Tree>),
    Prefix(UnaryOp, Box<Tree>),
    Postfix(PostfixOp, Box<Tree>),
    Binary(BinaryOp, Box<Tree>, Box<Tree>),
    Conditional(Box<Tree>, Box<Tree>, Box<Tree>),
    Assign(AssignOp, Box<Tree>, Box<Tree>),
    Comma(Box<Tree>, Box<Tree>),
}

/// The number of tokens.
pub open spec fn width(t: Tree) -> nat
    decreases t, 0nat,
{
    match t {
        Tree::Atom(_) => 1,
        Tree::Paren(a) => width(*a) + 2,
        Tree::Member(a, _) => width(*a) + 2,
        Tree::Index(a, i) => width(*a) + width(*i) + 2,
        Tree::Call(a, args) => width(*a) + 1 + widths(args, args.len()) + if args.len() == 0 {
            1nat
        } else {
            0
        },
        Tree::Prefix(_, a) => width(*a) + 1,
        Tree::Postfix(_, a) => width(*a) + 1,
        Tree::Binary(_, l, r) => width(*l) + 1 + width(*r),
        Tree::Conditional(c, a, b) => width(*c) + 1 + width(*a) + 1 + width(*b),
        Tree::Assign(_, l, r) => width(*l) + 1 + width(*r),
        Tree::Comma(l, r) => width(*l) + 1 + width(*r),
    }
}

/// The number of tokens of the first `n` arguments, each with the comma or the
/// bracket behind it.
pub open spec fn widths(ts: Seq<Tree>, n: nat) -> nat
    decreases ts, n,
{
    if 0 < n <= ts.len() {
        widths(ts, (n - 1) as nat) + width(ts[n - 1]) + 1
    } else {
        0
    }
}

/// The number of nodes.
pub open spec fn size(t: Tree) -> nat
    decreases t, 0nat,
{
    match t {
        Tree::Atom(_) => 1,
        Tree::Paren(a) => size(*a) + 1,
        Tree::Member(a, _) => size(*a) + 1,
        Tree::Index(a, i) => size(*a) + size(*i) + 1,
        Tree::Call(a, args) => size(*a) + sizes(args, args.len()) + 1,
        Tree::Prefix(_, a) => size(*a) + 1,
        Tree::Postfix(_, a) => size(*a) + 1,
        Tree::Binary(_, l, r) => size(*l) + size(*r) + 1,
        Tree::Conditional(c, a, b) => size(*c) + size(*a) + size(*b) + 1,
        Tree::Assign(_, l, r) => size(*l) + size(*r) + 1,
        Tree::Comma(l, r) => size(*l) + size(*r) + 1,
    }
}

pub open spec fn sizes(ts: Seq<Tree>, n: nat) -> nat
    decreases ts, n,
{
    if 0 < n <= ts.len() {
        sizes(ts, (n - 1) as nat) + size(ts[n - 1]) + 1
    } else {
        0
    }
}

/// How tight the tree holds together: the comma is the loosest, then assignment,
/// the conditional, the tiers of the binary operators, prefix and postfix
/// operators, and members, elements, calls and what stands by itself.
pub open spec fn rank(t: Tree) -> int {
    match t {
        Tree::Comma(..) => 0,
        Tree::Assign(..) => 1,
        Tree::Conditional(..) => 2,
        Tree::Binary(op, _, _) => 3 + tier(op),
        Tree::Prefix(..) => 13,
        Tree::Postfix(..) => 14,
        _ => 15,
    }
}

/// The tree is a variable, a property or an element.
pub open spec fn is_target(t: Tree) -> bool
    decreases t,
{
    match t {
        Tree::Atom(k) => k is Ident,
        Tree::Paren(a) => is_target(*a),
        Tree::Member(..) | Tree::Index(..) => true,
        _ => false,
    }
}

/// The token is a literal or a name.
pub open spec fn is_atom(k: KindView) -> bool {
    match k {
        KindView::Number(_) | KindView::Str(_) | KindView::Ident(_) => true,
        KindView::RegExp(..) => false,
        KindView::Plain(p) => match p {
            TokenKind::Int(_) | TokenKind::UInt(_) | TokenKind::True | TokenKind::False
            | TokenKind::Null | TokenKind::This | TokenKind::Super => true,
            _ => false,
        },
    }
}

/// Each operand holds together at least as tight as the operator, and on the right
/// of a binary operator tighter: no further parentheses are needed. With `no_in`
/// the word `in` is no operator.
pub open spec fn well(t: Tree, no_in: bool) -> bool
    decreases t, 0nat,
{
    match t {
        Tree::Atom(k) => is_atom(k),
        Tree::Paren(a) => well(*a, no_in),
        Tree::Member(a, _) => rank(*a) == 15 && well(*a, no_in),
        Tree::Index(a, i) => rank(*a) == 15 && well(*a, no_in) && well(*i, no_in),
        Tree::Call(a, args) => rank(*a) == 15 && well(*a, no_in) && all_well(
            args,
            args.len(),
            no_in,
        ),
        Tree::Prefix(op, a) => rank(*a) >= 13 && well(*a, no_in) && (op == UnaryOp::PreInc || op
            == UnaryOp::PreDec ==> is_target(*a)),
        Tree::Postfix(_, a) => rank(*a) == 15 && is_target(*a) && well(*a, no_in),
        Tree::Binary(op, l, r) => rank(*l) >= 3 + tier(op) && rank(*r) > 3 + tier(op) && !(no_in
            && op == BinaryOp::In) && well(*l, no_in) && well(*r, no_in),
        Tree::Conditional(c, a, b) => rank(*c) >= 3 && rank(*a) >= 1 && rank(*b) >= 1 && well(
            *c,
            no_in,
        ) && well(*a, no_in) && well(*b, no_in),
        Tree::Assign(_, l, r) => rank(*l) == 15 && is_target(*l) && rank(*r) >= 1 && well(
            *l,
            no_in,
        ) && well(*r, no_in),
        Tree::Comma(l, r) => rank(*r) >= 1 && well(*l, no_in) && well(*r, no_in),
    }
}

pub open spec fn all_well(ts: Seq<Tree>, n: nat, no_in: bool) -> bool
    decreases ts, n,
{
    0 < n <= ts.len() ==> rank(ts[n - 1]) >= 1 && well(ts[n - 1], no_in) && all_well(
        ts,
        (n - 1) as nat,
        no_in,
    )
}

pub open spec fn plain_at(toks: Seq<TokenView>, i: int, k: TokenKind) -> bool {
    toks[i].kind == KindView::Plain(k)
}

/// The tokens from `i` on write the tree.
pub open spec fn written(toks: Seq<TokenView>, i: int, t: Tree) -> bool
    decreases t, 0nat,
{
    match t {
        Tree::Atom(k) => toks[i].kind == k,
        Tree::Paren(a) => plain_at(toks, i, TokenKind::LParen) && written(toks, i + 1, *a)
            && plain_at(toks, i + 1 + width(*a), TokenKind::RParen),
        Tree::Member(a, name) => written(toks, i, *a) && plain_at(
            toks,
            i + width(*a),
            TokenKind::Dot,
        ) && toks[i + width(*a) + 1].kind == KindView::Ident(name),
        Tree::Index(a, x) => written(toks, i, *a) && plain_at(
            toks,
            i + width(*a),
            TokenKind::LBracket,
        ) && written(toks, i + width(*a) + 1, *x) && plain_at(
            toks,
            i + width(*a) + 1 + width(*x),
            TokenKind::RBracket,
        ),
        Tree::Call(a, args) => written(toks, i, *a) && plain_at(
            toks,
            i + width(*a),
            TokenKind::LParen,
        ) && all_written(toks, i + width(*a) + 1, args, args.len()) && plain_at(
            toks,
            i + width(t) - 1,
            TokenKind::RParen,
        ),
        Tree::Prefix(op, a) => is_prefix(toks[i].kind, op) && written(toks, i + 1, *a),
        Tree::Postfix(op, a) => written(toks, i, *a) && plain_at(
            toks,
            i + width(*a),
            match op {
                PostfixOp::Inc => TokenKind::PlusPlus,
                PostfixOp::Dec => TokenKind::MinusMinus,
            },
        ) && !toks[i + width(*a)].newline_before,
        Tree::Binary(op, l, r) => written(toks, i, *l) && is_binary(
            toks[i + width(*l)].kind,
            op,
        ) && written(toks, i + width(*l) + 1, *r),
        Tree::Conditional(c, a, b) => written(toks, i, *c) && plain_at(
            toks,
            i + width(*c),
            TokenKind::Question,
        ) && written(toks, i + width(*c) + 1, *a) && plain_at(
            toks,
            i + width(*c) + 1 + width(*a),
            TokenKind::Colon,
        ) && written(toks, i + width(*c) + 1 + width(*a) + 1, *b),
        Tree::Assign(op, l, r) => written(toks, i, *l) && is_assign(
            toks[i + width(*l)].kind,
            op,
        ) && written(toks, i + width(*l) + 1, *r),
        Tree::Comma(l, r) => written(toks, i, *l) && plain_at(
            toks,
            i + width(*l),
            TokenKind::Comma,
        ) && written(toks, i + width(*l) + 1, *r),
    }
}

/// The first `n` arguments stand from `i` on, with commas between them.
pub open spec fn all_written(toks: Seq<TokenView>, i: int, ts: Seq<Tree>, n: nat) -> bool
    decreases ts, n,
{
    0 < n <= ts.len() ==> all_written(toks, i, ts, (n - 1) as nat) && written(
        toks,
        i + widths(ts, (n - 1) as nat),
        ts[n - 1],
    ) && (n < ts.len() ==> plain_at(toks, i + widths(ts, n) - 1, TokenKind::Comma))
}

/// From the first to the last of `n` tokens.
pub open spec fn extent(toks: Seq<TokenView>, i: int, n: nat) -> Span {
    toks[i].span.through(toks[i + n - 1].span)
}

/// The expression says what the tree at `i` does, and extends over its tokens.
pub open spec fn reads(toks: Seq<TokenView>, i: int, e: ExprView, t: Tree) -> bool
    decreases t, 0nat,
{
    e.span == extent(toks, i, width(t)) && match t {
        Tree::Atom(k) => match k {
            KindView::Number(v) => e.kind == ExprKindView::Number(v),
            KindView::Str(v) => e.kind == ExprKindView::Str(v),
            KindView::Ident(v) => e.kind == ExprKindView::Ident(v),
            KindView::RegExp(..) => false,
            KindView::Plain(TokenKind::Int(v)) => e.kind == ExprKindView::Int(v),
            KindView::Plain(TokenKind::UInt(v)) => e.kind == ExprKindView::UInt(v),
            KindView::Plain(p) => match e.kind {
                ExprKindView::Bool(b) => is_written(
                    k,
                    if b {
                        "true"
                    } else {
                        "false"
                    },
                ),
                ExprKindView::Null => is_written(k, "null"),
                ExprKindView::This => is_written(k, "this"),
                ExprKindView::Super => is_written(k, "super"),
                _ => false,
            },
        },
        Tree::Paren(a) => reads(
            toks,
            i + 1,
            ExprView { kind: e.kind, span: extent(toks, i + 1, width(*a)) },
            *a,
        ),
        Tree::Member(a, name) => e.kind matches ExprKindView::Member(x, n) && n == name && reads(
            toks,
            i,
            *x,
            *a,
        ),
        Tree::Index(a, b) => e.kind matches ExprKindView::Index(x, y) && reads(toks, i, *x, *a)
            && reads(toks, i + width(*a) + 1, *y, *b),
        Tree::Call(a, args) => e.kind matches ExprKindView::Call(x, ys) && reads(toks, i, *x, *a)
            && ys.len() == args.len() && all_read(toks, i + width(*a) + 1, ys, args, args.len()),
        Tree::Prefix(op, a) => e.kind matches ExprKindView::Unary(o, x) && o == op && reads(
            toks,
            i + 1,
            *x,
            *a,
        ),
        Tree::Postfix(op, a) => e.kind matches ExprKindView::Postfix(o, x) && o == op && reads(
            toks,
            i,
            *x,
            *a,
        ),
        Tree::Binary(op, l, r) => e.kind matches ExprKindView::Binary(o, x, y) && o == op && reads(
            toks,
            i,
            *x,
            *l,
        ) && reads(toks, i + width(*l) + 1, *y, *r),
        Tree::Conditional(c, a, b) => e.kind matches ExprKindView::Conditional(x, y, z) && reads(
            toks,
            i,
            *x,
            *c,
        ) && reads(toks, i + width(*c) + 1, *y, *a) && reads(
            toks,
            i + width(*c) + 1 + width(*a) + 1,
            *z,
            *b,
        ),
        Tree::Assign(op, l, r) => e.kind matches ExprKindView::Assign(o, x, y) && o == op && reads(
            toks,
            i,
            *x,
            *l,
        ) && reads(toks, i + width(*l) + 1, *y, *r),
        Tree::Comma(l, r) => e.kind matches ExprKindView::Comma(x, y) && reads(toks, i, *x, *l)
            && reads(toks, i + width(*l) + 1, *y, *r),
    }
}

pub open spec fn all_read(
    toks: Seq<TokenView>,
    i: int,
    es: Seq<ExprView>,
    ts: Seq<Tree>,
    n: nat,
) -> bool
    decreases ts, n,
{
    0 < n <= ts.len() ==> reads(toks, i + widths(ts, (n - 1) as nat), es[n - 1], ts[n - 1])
        && all_read(toks, i, es, ts, (n - 1) as nat)
}

// --- what follows -------------------------------------------------------------------------

/// The token goes on with a member, an element, a call or type arguments.
pub open spec fn goes_on(k: KindView) -> bool {
    k == KindView::Plain(TokenKind::Dot) || k == KindView::Plain(TokenKind::LBracket) || k
        == KindView::Plain(TokenKind::LParen) || k == KindView::Plain(TokenKind::LeftDotAngle) || k
        == KindView::Plain(TokenKind::DotDot)
}

/// The token steps what stands before it.
pub open spec fn steps(k: TokenView) -> bool {
    (k.kind == KindView::Plain(TokenKind::PlusPlus) || k.kind == KindView::Plain(
        TokenKind::MinusMinus,
    )) && !k.newline_before
}

/// The token ends a unary expression.
pub open spec fn ends_unary(s: PState) -> bool {
    !goes_on(s.cur().kind) && !steps(s.cur())
}

/// The binary operator at the state, by its tier.
pub open spec fn tier_at(s: PState) -> Option<int> {
    match binary_op_of(s.cur().kind) {
        Some((op, _)) => if op == BinaryOp::In && s.no_in {
            None
        } else {
            Some(tier(op))
        },
        None => None,
    }
}

/// The token ends an expression with the binary operators from the tier on.
pub open spec fn ends_binary(s: PState, min: int) -> bool {
    ends_unary(s) && (tier_at(s) matches Some(t) ==> t < min)
}

/// The token ends an assignment.
pub open spec fn ends_assignment(s: PState) -> bool {
    ends_binary(s, 0) && !s.at(TokenKind::Question) && assign_op_of(s.cur().kind) is None
}

pub open spec fn after(s: PState, t: Tree) -> PState {
    PState { pos: s.pos + width(t), ..s }
}

/// The tree stands here, with a token behind it.
pub open spec fn stands(s: PState, t: Tree) -> bool {
    &&& 0 <= s.pos
    &&& s.pos + width(t) < s.toks.len()
    &&& written(s.toks, s.pos, t)
    &&& well(t, s.no_in)
}

// --- proofs -------------------------------------------------------------------------------

/// How many rules a chain of members, elements and calls takes.
pub open spec fn links(t: Tree) -> nat
    decreases t,
{
    match t {
        Tree::Member(a, _) | Tree::Index(a, _) | Tree::Call(a, _) => links(*a) + 1,
        _ => 1,
    }
}

pub open spec fn terms(t: Tree) -> nat
    decreases t,
{
    match t {
        Tree::Binary(_, l, _) => terms(*l) + 1,
        _ => 1,
    }
}

pub open spec fn commas(t: Tree) -> nat
    decreases t,
{
    match t {
        Tree::Comma(l, _) => commas(*l) + 1,
        _ => 1,
    }
}

pub proof fn lemma_counts(t: Tree)
    ensures
        1 <= width(t),
        1 <= links(t) <= size(t),
        1 <= terms(t) <= size(t),
        1 <= commas(t) <= size(t),
    decreases t,
{
    match t {
        Tree::Paren(a) => lemma_counts(*a),
        Tree::Member(a, _) => lemma_counts(*a),
        Tree::Index(a, _) => lemma_counts(*a),
        Tree::Call(a, _) => lemma_counts(*a),
        Tree::Prefix(_, a) => lemma_counts(*a),
        Tree::Postfix(_, a) => lemma_counts(*a),
        Tree::Binary(_, l, r) => {
            lemma_counts(*l);
            lemma_counts(*r);
        },
        Tree::Conditional(c, a, b) => {
            lemma_counts(*c);
            lemma_counts(*a);
            lemma_counts(*b);
        },
        Tree::Assign(_, l, r) => {
            lemma_counts(*l);
            lemma_counts(*r);
        },
        Tree::Comma(l, r) => {
            lemma_counts(*l);
            lemma_counts(*r);
        },
        _ => {},
    }
}

/// The first token of a tree without an operator in front.
proof fn lemma_first(toks: Seq<TokenView>, i: int, t: Tree, no_in: bool)
    requires
        written(toks, i, t),
        well(t, no_in),
        rank(t) == 15,
    ensures
        is_atom(toks[i].kind) || plain_at(toks, i, TokenKind::LParen),
        unary_op_of(toks[i].kind) is None,
    decreases t,
{
    reveal(unary_op_of);
    match t {
        Tree::Member(a, _) => lemma_first(toks, i, *a, no_in),
        Tree::Index(a, _) => lemma_first(toks, i, *a, no_in),
        Tree::Call(a, _) => lemma_first(toks, i, *a, no_in),
        _ => {},
    }
}

/// The first token of an expression ends no list.
pub proof fn lemma_start(toks: Seq<TokenView>, i: int, t: Tree, no_in: bool)
    requires
        written(toks, i, t),
        well(t, no_in),
    ensures
        !plain_at(toks, i, TokenKind::RParen),
        !plain_at(toks, i, TokenKind::RBracket),
        !plain_at(toks, i, TokenKind::Semicolon),
        !plain_at(toks, i, TokenKind::RBrace),
        !plain_at(toks, i, TokenKind::Eof),
        is_atom(toks[i].kind) || plain_at(toks, i, TokenKind::LParen) || unary_op_of(
            toks[i].kind,
        ) is Some,
    decreases t,
{
    lemma_tokens(toks[i].kind);
    match t {
        Tree::Member(a, _) => lemma_start(toks, i, *a, no_in),
        Tree::Index(a, _) => lemma_start(toks, i, *a, no_in),
        Tree::Call(a, _) => lemma_start(toks, i, *a, no_in),
        Tree::Postfix(_, a) => lemma_start(toks, i, *a, no_in),
        Tree::Binary(_, l, _) => lemma_start(toks, i, *l, no_in),
        Tree::Conditional(c, _, _) => lemma_start(toks, i, *c, no_in),
        Tree::Assign(_, l, _) => lemma_start(toks, i, *l, no_in),
        Tree::Comma(l, _) => lemma_start(toks, i, *l, no_in),
        _ => {},
    }
}

/// A variable, a property or an element is read as one.
proof fn lemma_target(toks: Seq<TokenView>, i: int, e: ExprView, t: Tree)
    requires
        is_target(t),
        reads(toks, i, e, t),
    ensures
        assignable(e),
    decreases t,
{
    if let Tree::Paren(a) = t {
        lemma_target(
            toks,
            i + 1,
            ExprView { kind: e.kind, span: extent(toks, i + 1, width(*a)) },
            *a,
        );
    }
}

/// The token of an operator is of no other use.
pub proof fn lemma_operator(k: KindView)
    ensures
        binary_op_of(k) is Some ==> !goes_on(k) && k != KindView::Plain(TokenKind::PlusPlus) && k
            != KindView::Plain(TokenKind::MinusMinus),
        assign_op_of(k) is Some ==> !goes_on(k) && k != KindView::Plain(TokenKind::PlusPlus) && k
            != KindView::Plain(TokenKind::MinusMinus) && k != KindView::Plain(TokenKind::Question)
            && binary_op_of(k) is None,
        k == KindView::Plain(TokenKind::Question) || k == KindView::Plain(TokenKind::Colon) || k
            == KindView::Plain(TokenKind::Comma) || k == KindView::Plain(TokenKind::RParen) || k
            == KindView::Plain(TokenKind::RBracket) || k == KindView::Plain(TokenKind::PlusPlus)
            || k == KindView::Plain(TokenKind::MinusMinus) || k == KindView::Plain(TokenKind::Dot)
            || k == KindView::Plain(TokenKind::Semicolon) || k == KindView::Plain(
            TokenKind::RBrace,
        ) || k == KindView::Plain(TokenKind::Eof) || k == KindView::Plain(
            TokenKind::LBrace,
        ) ==> binary_op_of(k) is None && assign_op_of(k) is None,
{
    reveal(binary_op_of);
    reveal(assign_op_of);
}

/// A token that does not go on ends a chain.
proof fn lemma_chain_ends(n: nat, s: PState, e: ExprView)
    requires
        n > 0,
        !goes_on(s.cur().kind),
    ensures
        (grammar(n).call_rest)(s, e) == (s, e),
{
    lemma_rules(n);
    reveal(call_rest);
}

/// An operator of a looser tier, or none, ends a binary expression.
proof fn lemma_tiers_end(n: nat, s: PState, e: ExprView, min: int)
    requires
        n > 0,
        tier_at(s) matches Some(t) ==> t < min,
    ensures
        (grammar(n).binary_rest)(s, e, min) == (s, e),
{
    lemma_rules(n);
    reveal(binary_rest);
    lemma_tokens(s.cur().kind);
}

proof fn parse_atom(n: nat, s: PState, t: Tree) -> (e: ExprView)
    requires
        stands(s, t),
        t is Atom,
        n >= 3,
    ensures
        reads(s.toks, s.pos, e, t),
        (grammar(n).call)(s) == (grammar((n - 1) as nat).call_rest)(after(s, t), e),
{
    lemma_rules(n);
    lemma_rules((n - 1) as nat);
    lemma_rules((n - 2) as nat);
    reveal(call);
    reveal(head);
    reveal(primary);
    reveal(atom);
    reveal(keyword_text);
    let k = t->Atom_0;
    let e = ExprView { kind: atom(k)->0, span: s.cur().span };
    assert((grammar((n - 1) as nat).head)(s) == (s.next(), e));
    e
}

proof fn parse_call(n: nat, s: PState, t: Tree) -> (e: ExprView)
    requires
        stands(s, t),
        rank(t) == 15,
        n >= 16 * size(t) + 3,
    ensures
        reads(s.toks, s.pos, e, t),
        (grammar(n).call)(s) == (grammar((n - links(t)) as nat).call_rest)(after(s, t), e),
    decreases size(t), 0nat,
{
    lemma_counts(t);
    match t {
        Tree::Paren(a) => {
            lemma_rules(n);
            lemma_rules((n - 1) as nat);
            lemma_rules((n - 2) as nat);
            reveal(call);
            reveal(head);
            reveal(primary);
            reveal(atom);
            reveal(PState::expect);
            lemma_operator(KindView::Plain(TokenKind::RParen));
            let e = parse_whole((n - 3) as nat, s.next(), *a);
            let r = ExprView { kind: e.kind, span: extent(s.toks, s.pos, width(t)) };
            assert(after(s.next(), *a).next() == after(s, t));
            assert(after(s, t).prev_span() == s.toks[s.pos + width(t) - 1].span);
            assert((grammar((n - 2) as nat).primary)(s) == (after(s, t), r));
            assert((grammar((n - 1) as nat).head)(s) == (after(s, t), r));
            assert(reads(s.toks, s.pos + 1, ExprView { kind: r.kind, span: e.span }, *a));
            r
        },
        Tree::Member(a, name) => {
            lemma_counts(*a);
            let x = parse_call(n, s, *a);
            let s1 = after(s, *a);
            let m = (n - links(*a)) as nat;
            lemma_rules(m);
            reveal(call_rest);
            reveal(PState::ident);
            let e = ExprView {
                kind: ExprKindView::Member(Box::new(x), name),
                span: extent(s.toks, s.pos, width(t)),
            };
            assert(s1.next().ident() == after(s, t));
            assert((grammar(m).call_rest)(s1, x) == (grammar((m - 1) as nat).call_rest)(
                after(s, t),
                e,
            ));
            e
        },
        Tree::Index(a, b) => {
            lemma_counts(*a);
            lemma_counts(*b);
            let x = parse_call(n, s, *a);
            let s1 = after(s, *a);
            let m = (n - links(*a)) as nat;
            lemma_rules(m);
            lemma_rules((m - 1) as nat);
            reveal(call_rest);
            reveal(element);
            reveal(PState::expect);
            lemma_operator(KindView::Plain(TokenKind::RBracket));
            let y = parse_whole((m - 2) as nat, s1.next(), *b);
            let e = ExprView {
                kind: ExprKindView::Index(Box::new(x), Box::new(y)),
                span: extent(s.toks, s.pos, width(t)),
            };
            assert(after(s1.next(), *b).next() == after(s, t));
            assert((grammar((m - 1) as nat).element)(s1, x) == (after(s, t), e));
            e
        },
        Tree::Call(a, args) => {
            lemma_counts(*a);
            let x = parse_call(n, s, *a);
            let s1 = after(s, *a);
            let m = (n - links(*a)) as nat;
            lemma_rules(m);
            lemma_rules((m - 1) as nat);
            reveal(call_rest);
            reveal(arguments);
            reveal(PState::expect);
            let s2 = s1.next();
            let ys = if args.len() == 0 {
                Seq::empty()
            } else {
                lemma_all(s2.toks, s2.pos, args, 1, s.no_in);
                lemma_start(s2.toks, s2.pos, args[0], s.no_in);
                assert(!s2.at(TokenKind::RParen));
                parse_args((m - 2) as nat, s2, args, 0, Seq::empty())
            };
            let e = ExprView {
                kind: ExprKindView::Call(Box::new(x), ys),
                span: extent(s.toks, s.pos, width(t)),
            };
            let last = PState { pos: s.pos + width(t) - 1, ..s };
            assert(last.next() == after(s, t));
            assert((grammar((m - 1) as nat).arguments)(s1) == (after(s, t), ys, last.cur().span));
            assert(all_read(s.toks, s.pos + width(*a) + 1, ys, args, args.len()));
            e
        },
        _ => parse_atom(n, s, t),
    }
}

/// Each of the first `n` arguments stands at its place.
proof fn lemma_all(toks: Seq<TokenView>, i: int, ts: Seq<Tree>, n: nat, no_in: bool)
    requires
        0 < n <= ts.len(),
        all_written(toks, i, ts, ts.len()),
        all_well(ts, ts.len(), no_in),
    ensures
        written(toks, i + widths(ts, (n - 1) as nat), ts[n - 1]),
        well(ts[n - 1], no_in),
        rank(ts[n - 1]) >= 1,
        n < ts.len() ==> plain_at(toks, i + widths(ts, n) - 1, TokenKind::Comma),
        widths(ts, n) <= widths(ts, ts.len()),
        sizes(ts, n) <= sizes(ts, ts.len()),
        n == 1 ==> widths(ts, 0) == 0,
{
    lemma_all_from(toks, i, ts, n, ts.len(), no_in);
}

proof fn lemma_all_from(toks: Seq<TokenView>, i: int, ts: Seq<Tree>, n: nat, m: nat, no_in: bool)
    requires
        0 < n <= m <= ts.len(),
        all_written(toks, i, ts, m),
        all_well(ts, m, no_in),
    ensures
        written(toks, i + widths(ts, (n - 1) as nat), ts[n - 1]),
        well(ts[n - 1], no_in),
        rank(ts[n - 1]) >= 1,
        n < ts.len() ==> plain_at(toks, i + widths(ts, n) - 1, TokenKind::Comma),
        widths(ts, n) <= widths(ts, m),
        sizes(ts, n) <= sizes(ts, m),
    decreases m,
{
    if n < m {
        lemma_all_from(toks, i, ts, n, (m - 1) as nat, no_in);
    }
}

/// The arguments from the `k`-th on are read; `acc` holds those before it.
proof fn parse_args(n: nat, s: PState, ts: Seq<Tree>, k: nat, acc: Seq<ExprView>) -> (ys: Seq<
    ExprView,
>)
    requires
        k < ts.len(),
        acc.len() == k,
        0 <= s.pos,
        s.pos + widths(ts, ts.len()) < s.toks.len(),
        all_written(s.toks, s.pos, ts, ts.len()),
        all_well(ts, ts.len(), s.no_in),
        plain_at(s.toks, s.pos + widths(ts, ts.len()) - 1, TokenKind::RParen),
        all_read(s.toks, s.pos, acc, ts, k),
        n >= 16 * (sizes(ts, ts.len()) - sizes(ts, k)) + 1,
    ensures
        ys.len() == ts.len(),
        all_read(s.toks, s.pos, ys, ts, ts.len()),
        (grammar(n).argument_list)(PState { pos: s.pos + widths(ts, k), ..s }, acc) == (
            PState { pos: s.pos + widths(ts, ts.len()) - 1, ..s },
            ys,
        ),
    decreases sizes(ts, ts.len()) + 1, ts.len() - k,
{
    let m = k + 1;
    lemma_all(s.toks, s.pos, ts, m, s.no_in);
    lemma_rules(n);
    reveal(argument_list);
    let t = ts[k as int];
    let here = PState { pos: s.pos + widths(ts, k), ..s };
    assert(ts[m - 1] == t);
    assert(widths(ts, m) == widths(ts, k) + width(t) + 1);
    lemma_operator(KindView::Plain(TokenKind::Comma));
    lemma_operator(KindView::Plain(TokenKind::RParen));
    if m == ts.len() {
        assert(after(here, t).at(TokenKind::RParen));
    } else {
        assert(after(here, t).at(TokenKind::Comma));
    }
    lemma_sizes(ts, m);
    let e = parse_assignment((n - 1) as nat, here, t);
    let next = acc.push(e);
    lemma_all_read_push(s.toks, s.pos, acc, e, ts, k);
    if m == ts.len() {
        next
    } else {
        assert(after(here, t).next() == (PState { pos: s.pos + widths(ts, m), ..s }));
        parse_args((n - 1) as nat, s, ts, m, next)
    }
}

proof fn lemma_sizes(ts: Seq<Tree>, m: nat)
    requires
        0 < m <= ts.len(),
    ensures
        sizes(ts, m) == sizes(ts, (m - 1) as nat) + size(ts[m - 1]) + 1,
        sizes(ts, m) <= sizes(ts, ts.len()),
    decreases ts.len() - m,
{
    if m < ts.len() {
        lemma_sizes(ts, m + 1);
    }
}

proof fn lemma_all_read_push(
    toks: Seq<TokenView>,
    i: int,
    acc: Seq<ExprView>,
    e: ExprView,
    ts: Seq<Tree>,
    k: nat,
)
    requires
        acc.len() == k < ts.len(),
        all_read(toks, i, acc, ts, k),
        reads(toks, i + widths(ts, k), e, ts[k as int]),
    ensures
        all_read(toks, i, acc.push(e), ts, k + 1),
{
    lemma_all_read_same(toks, i, acc, acc.push(e), ts, k);
    assert(acc.push(e)[(k + 1) - 1] == e);
}

proof fn lemma_all_read_same(
    toks: Seq<TokenView>,
    i: int,
    a: Seq<ExprView>,
    b: Seq<ExprView>,
    ts: Seq<Tree>,
    k: nat,
)
    requires
        k <= a.len() <= b.len(),
        forall|j: int| 0 <= j < k ==> a[j] == b[j],
        all_read(toks, i, a, ts, k),
    ensures
        all_read(toks, i, b, ts, k),
    decreases k,
{
    if 0 < k <= ts.len() {
        lemma_all_read_same(toks, i, a, b, ts, (k - 1) as nat);
    }
}

proof fn parse_postfix(n: nat, s: PState, t: Tree) -> (e: ExprView)
    requires
        stands(s, t),
        rank(t) >= 14,
        ends_unary(after(s, t)),
        n >= 16 * size(t) + 4,
    ensures
        reads(s.toks, s.pos, e, t),
        (grammar(n).postfix)(s) == (after(s, t), e),
    decreases size(t), 1nat,
{
    lemma_counts(t);
    lemma_rules(n);
    reveal(postfix);
    reveal(check_target);
    if let Tree::Postfix(op, a) = t {
        lemma_counts(*a);
        let x = parse_call((n - 1) as nat, s, *a);
        lemma_chain_ends((n - 1 - links(*a)) as nat, after(s, *a), x);
        lemma_target(s.toks, s.pos, x, *a);
        let e = ExprView {
            kind: ExprKindView::Postfix(op, Box::new(x)),
            span: extent(s.toks, s.pos, width(t)),
        };
        assert(after(s, *a).next() == after(s, t));
        e
    } else {
        let e = parse_call((n - 1) as nat, s, t);
        lemma_chain_ends((n - 1 - links(t)) as nat, after(s, t), e);
        e
    }
}

proof fn parse_unary(n: nat, s: PState, t: Tree) -> (e: ExprView)
    requires
        stands(s, t),
        rank(t) >= 13,
        ends_unary(after(s, t)),
        n >= 16 * size(t) + 5,
    ensures
        reads(s.toks, s.pos, e, t),
        (grammar(n).unary)(s) == (after(s, t), e),
    decreases size(t), 2nat,
{
    lemma_counts(t);
    lemma_rules(n);
    reveal(unary);
    reveal(check_target);
    match t {
        Tree::Prefix(op, a) => {
            lemma_counts(*a);
            lemma_tokens(s.cur().kind);
            let x = parse_unary((n - 1) as nat, s.next(), *a);
            if is_target(*a) {
                lemma_target(s.toks, s.pos + 1, x, *a);
            }
            let e = ExprView {
                kind: ExprKindView::Unary(op, Box::new(x)),
                span: extent(s.toks, s.pos, width(t)),
            };
            assert(after(s.next(), *a) == after(s, t));
            e
        },
        Tree::Postfix(_, a) => {
            lemma_first(s.toks, s.pos, *a, s.no_in);
            parse_postfix((n - 1) as nat, s, t)
        },
        _ => {
            lemma_first(s.toks, s.pos, t, s.no_in);
            parse_postfix((n - 1) as nat, s, t)
        },
    }
}

proof fn parse_binary(n: nat, s: PState, t: Tree, min: int) -> (e: ExprView)
    requires
        stands(s, t),
        0 <= min <= 10,
        rank(t) >= 3 + min,
        ends_unary(after(s, t)),
        t matches Tree::Binary(op, _, _) ==> ends_binary(after(s, t), tier(op) + 1),
        n >= 16 * size(t) + 6,
    ensures
        reads(s.toks, s.pos, e, t),
        (grammar(n).binary)(s, min) == (grammar((n - terms(t)) as nat).binary_rest)(
            after(s, t),
            e,
            min,
        ),
    decreases size(t), 3nat,
{
    lemma_counts(t);
    lemma_rules(n);
    reveal(binary);
    if let Tree::Binary(op, l, r) = t {
        lemma_counts(*l);
        lemma_counts(*r);
        let s1 = after(s, *l);
        lemma_tokens(s1.cur().kind);
        lemma_operator(s1.cur().kind);
        let x = parse_binary(n, s, *l, min);
        let m = (n - terms(*l)) as nat;
        lemma_rules(m);
        reveal(binary_rest);
        let y = parse_binary((m - 1) as nat, s1.next(), *r, tier(op) + 1);
        assert(after(s1.next(), *r) == after(s, t));
        lemma_tiers_end((m - 1 - terms(*r)) as nat, after(s, t), y, tier(op) + 1);
        let e = ExprView {
            kind: ExprKindView::Binary(op, Box::new(x), Box::new(y)),
            span: extent(s.toks, s.pos, width(t)),
        };
        assert((grammar(m).binary_rest)(s1, x, min) == (grammar((m - 1) as nat).binary_rest)(
            after(s, t),
            e,
            min,
        ));
        e
    } else {
        parse_unary((n - 1) as nat, s, t)
    }
}

proof fn parse_conditional(n: nat, s: PState, t: Tree) -> (e: ExprView)
    requires
        stands(s, t),
        rank(t) >= 2,
        ends_assignment(after(s, t)) || (ends_binary(after(s, t), 0) && rank(t) >= 3 && !after(
            s,
            t,
        ).at(TokenKind::Question)),
        n >= 16 * size(t) + 8,
    ensures
        reads(s.toks, s.pos, e, t),
        (grammar(n).conditional)(s) == (after(s, t), e),
    decreases size(t), 4nat,
{
    lemma_counts(t);
    lemma_rules(n);
    reveal(conditional);
    reveal(PState::expect);
    if let Tree::Conditional(c, a, b) = t {
        lemma_counts(*c);
        lemma_counts(*a);
        lemma_counts(*b);
        let s1 = after(s, *c);
        lemma_operator(s1.cur().kind);
        let x = parse_binary((n - 1) as nat, s, *c, 0);
        lemma_tiers_end((n - 1 - terms(*c)) as nat, s1, x, 0);
        let s2 = after(s1.next(), *a);
        lemma_operator(s2.cur().kind);
        let y = parse_assignment((n - 1) as nat, s1.next(), *a);
        let z = parse_assignment((n - 1) as nat, s2.next(), *b);
        assert(after(s2.next(), *b) == after(s, t));
        ExprView {
            kind: ExprKindView::Conditional(Box::new(x), Box::new(y), Box::new(z)),
            span: extent(s.toks, s.pos, width(t)),
        }
    } else {
        let e = parse_binary((n - 1) as nat, s, t, 0);
        lemma_tiers_end((n - 1 - terms(t)) as nat, after(s, t), e, 0);
        e
    }
}

pub proof fn parse_assignment(n: nat, s: PState, t: Tree) -> (e: ExprView)
    requires
        stands(s, t),
        rank(t) >= 1,
        ends_assignment(after(s, t)),
        n >= 16 * size(t) + 9,
    ensures
        reads(s.toks, s.pos, e, t),
        (grammar(n).assignment)(s) == (after(s, t), e),
    decreases size(t), 5nat,
{
    lemma_counts(t);
    lemma_rules(n);
    reveal(assignment);
    reveal(check_target);
    if let Tree::Assign(op, l, r) = t {
        lemma_counts(*l);
        lemma_counts(*r);
        let s1 = after(s, *l);
        lemma_operator(s1.cur().kind);
        lemma_tokens(s1.cur().kind);
        lemma_operator(s1.cur().kind);
        let x = parse_conditional((n - 1) as nat, s, *l);
        lemma_target(s.toks, s.pos, x, *l);
        let y = parse_assignment((n - 1) as nat, s1.next(), *r);
        assert(after(s1.next(), *r) == after(s, t));
        ExprView {
            kind: ExprKindView::Assign(op, Box::new(x), Box::new(y)),
            span: extent(s.toks, s.pos, width(t)),
        }
    } else {
        parse_conditional((n - 1) as nat, s, t)
    }
}

proof fn parse_list(n: nat, s: PState, t: Tree) -> (e: ExprView)
    requires
        stands(s, t),
        ends_assignment(after(s, t)),
        n >= 16 * size(t) + 11,
    ensures
        reads(s.toks, s.pos, e, t),
        (grammar(n).expression)(s) == (grammar((n - commas(t)) as nat).comma_rest)(after(s, t), e),
    decreases size(t), 6nat,
{
    lemma_counts(t);
    lemma_rules(n);
    reveal(expression);
    if let Tree::Comma(l, r) = t {
        lemma_counts(*l);
        lemma_counts(*r);
        let s1 = after(s, *l);
        lemma_operator(s1.cur().kind);
        let x = parse_list(n, s, *l);
        let m = (n - commas(*l)) as nat;
        lemma_rules(m);
        reveal(comma_rest);
        let y = parse_assignment((m - 1) as nat, s1.next(), *r);
        assert(after(s1.next(), *r) == after(s, t));
        ExprView {
            kind: ExprKindView::Comma(Box::new(x), Box::new(y)),
            span: extent(s.toks, s.pos, width(t)),
        }
    } else {
        parse_assignment((n - 1) as nat, s, t)
    }
}

pub proof fn parse_whole(n: nat, s: PState, t: Tree) -> (e: ExprView)
    requires
        stands(s, t),
        ends_assignment(after(s, t)),
        !after(s, t).at(TokenKind::Comma),
        n >= 16 * size(t) + 11,
    ensures
        reads(s.toks, s.pos, e, t),
        (grammar(n).expression)(s) == (after(s, t), e),
    decreases size(t), 7nat,
{
    lemma_counts(t);
    let e = parse_list(n, s, t);
    lemma_rules((n - commas(t)) as nat);
    reveal(comma_rest);
    e
}

/// An expression is read as it is written: operators by their precedence, those of
/// one tier from the left, assignments and conditionals from the right, and
/// parentheses as they stand. Nothing else is consumed, and nothing reported.
pub proof fn law_expressions_are_read_as_written(n: nat, s: PState, t: Tree)
    requires
        stands(s, t),
        ends_assignment(after(s, t)),
        !after(s, t).at(TokenKind::Comma),
        n >= 16 * size(t) + 11,
    ensures
        ({
            let (s1, e) = (grammar(n).expression)(s);
            s1 == after(s, t) && reads(s.toks, s.pos, e, t)
        }),
{
    let e = parse_whole(n, s, t);
}

} // verus!
