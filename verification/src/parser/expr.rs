//! Expressions.
//!
//! The tiers, from tightest to loosest: primary, postfix, unary,
//! multiplicative, additive, shift, relational, equality, `&`, `^`, `|`, `&&`,
//! `||`, `?:`, assignment, comma.

use vstd::prelude::*;

use crate::ast::nodes::{
    AssignOp, BinaryOp, Expr, ExprKind, PostfixOp, PropName, UnaryOp,
};
use crate::ast::view::{
    elements_none, elements_push, elements_view, expr_moved, expr_node, expr_unfold, expr_view,
    exprs_none, exprs_push, exprs_view, group_spans, prop_name_view, props_none, props_push,
    props_view,
};
use crate::diagnostics::{INVALID_ASSIGN_TARGET, UNSUPPORTED_SYNTAX};
use crate::lexer::token::{KindView, NumLit, TokenKind};
use crate::parser::grammar::{
    application, argument_list, arguments, array_elements, assign_op_of, assignment, atom, binary,
    binary_op_of, binary_rest, call, call_rest, check_target, comma_rest, conditional, element,
    expression, grammar, head, lemma_rules, member, new_expr, new_rest, object_props, postfix,
    primary, prop_name, type_list, unary, unary_op_of, vector_elements, vector_literal,
};
use crate::parser::state::{PState, Parser};
use crate::span::Span;

verus! {

broadcast use group_spans;

/// The depth suffices to parse the state by a rule of the rank. A rule that
/// calls another one before it consumes a token has the higher rank.
pub open spec fn enough(n: nat, s: PState, rank: nat) -> bool {
    n >= 64 * s.left() + rank
}

/// The assignment operator that a token is, if it is one.
pub fn assign_op(kind: &TokenKind) -> (r: Option<AssignOp>)
    ensures
        r == assign_op_of(kind@),
        r is Some ==> kind@ != KindView::Plain(TokenKind::Eof),
{
    reveal(assign_op_of);
    match kind {
        TokenKind::Assign => Some(AssignOp::Assign),
        TokenKind::PlusAssign => Some(AssignOp::Add),
        TokenKind::MinusAssign => Some(AssignOp::Sub),
        TokenKind::StarAssign => Some(AssignOp::Mul),
        TokenKind::SlashAssign => Some(AssignOp::Div),
        TokenKind::PercentAssign => Some(AssignOp::Rem),
        TokenKind::ShlAssign => Some(AssignOp::Shl),
        TokenKind::ShrAssign => Some(AssignOp::Shr),
        TokenKind::UshrAssign => Some(AssignOp::Ushr),
        TokenKind::BitAndAssign => Some(AssignOp::BitAnd),
        TokenKind::BitOrAssign => Some(AssignOp::BitOr),
        TokenKind::BitXorAssign => Some(AssignOp::BitXor),
        TokenKind::LogAndAssign => Some(AssignOp::LogAnd),
        TokenKind::LogOrAssign => Some(AssignOp::LogOr),
        _ => None,
    }
}

/// The binary operator that a token is, with its tier: loosest 0 (`||`),
/// tightest 9 (`* / %`).
pub fn binary_op(kind: &TokenKind) -> (r: Option<(BinaryOp, u8)>)
    ensures
        match r {
            Some((op, level)) => level <= 9 && binary_op_of(kind@) == Some((op, level as int)),
            None => binary_op_of(kind@) is None,
        },
        r is Some ==> kind@ != KindView::Plain(TokenKind::Eof),
{
    reveal(binary_op_of);
    match kind {
        TokenKind::LogOr => Some((BinaryOp::LogOr, 0)),
        TokenKind::LogAnd => Some((BinaryOp::LogAnd, 1)),
        TokenKind::BitOr => Some((BinaryOp::BitOr, 2)),
        TokenKind::BitXor => Some((BinaryOp::BitXor, 3)),
        TokenKind::BitAnd => Some((BinaryOp::BitAnd, 4)),
        TokenKind::Eq => Some((BinaryOp::Eq, 5)),
        TokenKind::Ne => Some((BinaryOp::Ne, 5)),
        TokenKind::StrictEq => Some((BinaryOp::StrictEq, 5)),
        TokenKind::StrictNe => Some((BinaryOp::StrictNe, 5)),
        TokenKind::Lt => Some((BinaryOp::Lt, 6)),
        TokenKind::Gt => Some((BinaryOp::Gt, 6)),
        TokenKind::Le => Some((BinaryOp::Le, 6)),
        TokenKind::Ge => Some((BinaryOp::Ge, 6)),
        TokenKind::In => Some((BinaryOp::In, 6)),
        TokenKind::Instanceof => Some((BinaryOp::Instanceof, 6)),
        TokenKind::Is => Some((BinaryOp::Is, 6)),
        TokenKind::As => Some((BinaryOp::As, 6)),
        TokenKind::Shl => Some((BinaryOp::Shl, 7)),
        TokenKind::Shr => Some((BinaryOp::Shr, 7)),
        TokenKind::Ushr => Some((BinaryOp::Ushr, 7)),
        TokenKind::Plus => Some((BinaryOp::Add, 8)),
        TokenKind::Minus => Some((BinaryOp::Sub, 8)),
        TokenKind::Star => Some((BinaryOp::Mul, 9)),
        TokenKind::Slash => Some((BinaryOp::Div, 9)),
        TokenKind::Percent => Some((BinaryOp::Rem, 9)),
        _ => None,
    }
}

fn unary_op(kind: &TokenKind) -> (r: Option<UnaryOp>)
    ensures
        r == unary_op_of(kind@),
        r is Some ==> kind@ != KindView::Plain(TokenKind::Eof),
{
    reveal(unary_op_of);
    match kind {
        TokenKind::Delete => Some(UnaryOp::Delete),
        TokenKind::Void => Some(UnaryOp::Void),
        TokenKind::Typeof => Some(UnaryOp::Typeof),
        TokenKind::PlusPlus => Some(UnaryOp::PreInc),
        TokenKind::MinusMinus => Some(UnaryOp::PreDec),
        TokenKind::Plus => Some(UnaryOp::Plus),
        TokenKind::Minus => Some(UnaryOp::Minus),
        TokenKind::BitNot => Some(UnaryOp::BitNot),
        TokenKind::Not => Some(UnaryOp::Not),
        _ => None,
    }
}

pub fn copy_num(n: &NumLit) -> (r: NumLit)
    ensures
        r@ == n@,
{
    match n {
        NumLit::Decimal(s) => NumLit::Decimal(s.clone()),
        NumLit::Whole(v) => NumLit::Whole(*v),
        NumLit::NotANumber => NumLit::NotANumber,
    }
}

/// The expression that a token is by itself.
fn atom_of(kind: &TokenKind, span: Span) -> (r: Option<Expr>)
    ensures
        match r {
            Some(e) => atom(kind@) == Some(expr_view(e).kind) && e.span == span,
            None => atom(kind@) is None,
        },
        kind@ == KindView::Plain(TokenKind::Eof) ==> r is None,
{
    reveal(atom);
    let k = match kind {
        TokenKind::Number(v) => ExprKind::Number(copy_num(v)),
        TokenKind::Str(v) => ExprKind::Str(v.clone()),
        TokenKind::Ident(v) => ExprKind::Ident(v.clone()),
        TokenKind::Int(v) => ExprKind::Int(*v),
        TokenKind::UInt(v) => ExprKind::UInt(*v),
        TokenKind::True => ExprKind::Bool(true),
        TokenKind::False => ExprKind::Bool(false),
        TokenKind::Null => ExprKind::Null,
        TokenKind::This => ExprKind::This,
        TokenKind::Super => ExprKind::Super,
        _ => {
            return None;
        },
    };
    Some(expr_node(k, span))
}

/// The property name that a token is.
fn prop_name_of(kind: &TokenKind) -> (r: Option<PropName>)
    ensures
        match r {
            Some(p) => prop_name(kind@) == Some(prop_name_view(p)),
            None => prop_name(kind@) is None,
        },
        r is Some ==> kind@ != KindView::Plain(TokenKind::Eof),
{
    reveal(prop_name);
    match kind {
        TokenKind::Ident(v) => Some(PropName::Ident(v.clone())),
        TokenKind::Str(v) => Some(PropName::Str(v.clone())),
        TokenKind::Number(v) => Some(PropName::Number(copy_num(v))),
        TokenKind::Int(v) => Some(PropName::Number(NumLit::Whole(*v as u64))),
        TokenKind::UInt(v) => Some(PropName::Number(NumLit::Whole(*v as u64))),
        _ => None,
    }
}

impl Parser {
    /// An expression with the comma operator.
    pub fn expression(&mut self, Ghost(n): Ghost<nat>) -> (r: Expr)
        requires
            old(self).ok(),
            enough(n, old(self).st(), 13),
        ensures
            (final(self).st(), expr_view(r)) == (grammar(n).expression)(old(self).st()),
            old(self).st().to(final(self).st()),
        decreases n, 1nat,
    {
        proof {
            lemma_rules(n);
        }
        reveal(expression);
        reveal(comma_rest);
        let mut expr = self.assignment_expression(Ghost((n - 1) as nat));
        let ghost mut m = (n - 1) as nat;
        while self.at(&TokenKind::Comma)
            invariant
                self.ok(),
                m < n,
                enough(m, self.st(), 12),
                old(self).st().to(self.st()),
                (grammar(n).expression)(old(self).st()) == (grammar(m).comma_rest)(self.st(), expr_view(expr)),
            decreases m,
        {
            proof {
                lemma_rules(m);
            }
            reveal(comma_rest);
            self.advance();
            let rhs = self.assignment_expression(Ghost((m - 1) as nat));
            let span = expr.span.to(rhs.span);
            expr = expr_node(ExprKind::Comma(Box::new(expr), Box::new(rhs)), span);
            proof {
                m = (m - 1) as nat;
            }
        }
        proof {
            lemma_rules(m);
        }
        expr
    }

    /// Assignment: right-associative, with a check of the target.
    pub fn assignment_expression(&mut self, Ghost(n): Ghost<nat>) -> (r: Expr)
        requires
            old(self).ok(),
            enough(n, old(self).st(), 11),
        ensures
            (final(self).st(), expr_view(r)) == (grammar(n).assignment)(old(self).st()),
            old(self).st().to(final(self).st()),
        decreases n, 1nat,
    {
        proof {
            lemma_rules(n);
        }
        reveal(assignment);
        let lhs = self.conditional_expression(Ghost((n - 1) as nat));
        let op = match assign_op(self.kind()) {
            Some(op) => op,
            None => {
                return lhs;
            },
        };
        self.advance();
        self.check_assign_target(&lhs);
        let rhs = self.assignment_expression(Ghost((n - 1) as nat));
        let span = lhs.span.to(rhs.span);
        expr_node(ExprKind::Assign(op, Box::new(lhs), Box::new(rhs)), span)
    }

    pub fn check_assign_target(&mut self, target: &Expr)
        requires
            old(self).ok(),
        ensures
            final(self).st() == check_target(old(self).st(), expr_view(*target)),
            old(self).st().to(final(self).st()),
    {
        reveal(check_target);
        proof {
            expr_unfold(*target);
        }
        match target.kind {
            ExprKind::Ident(_) | ExprKind::Member(_, _) | ExprKind::Index(_, _) => {},
            _ => self.error(
                INVALID_ASSIGN_TARGET,
                "left side of assignment must be a variable, property, or index",
                target.span,
            ),
        }
    }

    fn conditional_expression(&mut self, Ghost(n): Ghost<nat>) -> (r: Expr)
        requires
            old(self).ok(),
            enough(n, old(self).st(), 10),
        ensures
            (final(self).st(), expr_view(r)) == (grammar(n).conditional)(old(self).st()),
            old(self).st().to(final(self).st()),
        decreases n, 1nat,
    {
        proof {
            lemma_rules(n);
        }
        reveal(conditional);
        let cond = self.binary_expression(0, Ghost((n - 1) as nat));
        if !self.eat(&TokenKind::Question) {
            return cond;
        }
        let then_value = self.assignment_expression(Ghost((n - 1) as nat));
        self.expect(&TokenKind::Colon);
        let else_value = self.assignment_expression(Ghost((n - 1) as nat));
        let span = cond.span.to(else_value.span);
        expr_node(ExprKind::Conditional(
                Box::new(cond),
                Box::new(then_value),
                Box::new(else_value),
            ), span)
    }

    /// Precedence climbing over the binary tiers.
    fn binary_expression(&mut self, min_level: u8, Ghost(n): Ghost<nat>) -> (r: Expr)
        requires
            old(self).ok(),
            min_level <= 10,
            enough(n, old(self).st(), 9),
        ensures
            (final(self).st(), expr_view(r)) == (grammar(n).binary)(old(self).st(), min_level as int),
            old(self).st().to(final(self).st()),
        decreases n, 1nat,
    {
        proof {
            lemma_rules(n);
        }
        reveal(binary);
        let mut lhs = self.unary_expression(Ghost((n - 1) as nat));
        let ghost mut m = (n - 1) as nat;
        loop
            invariant
                self.ok(),
                m < n,
                enough(m, self.st(), 8),
                old(self).st().to(self.st()),
                (grammar(n).binary)(old(self).st(), min_level as int) == (grammar(m).binary_rest)(
                    self.st(),
                    expr_view(lhs),
                    min_level as int,
                ),
            decreases m,
        {
            proof {
                lemma_rules(m);
            }
            reveal(binary_rest);
            let (op, level): (BinaryOp, u8) = match binary_op(self.kind()) {
                Some(x) => x,
                None => {
                    return lhs;
                },
            };
            if op == BinaryOp::In && self.no_in {
                return lhs;
            }
            if level < min_level {
                return lhs;
            }
            self.advance();
            let rhs = self.binary_expression(level + 1, Ghost((m - 1) as nat));
            let span = lhs.span.to(rhs.span);
            lhs = expr_node(ExprKind::Binary(op, Box::new(lhs), Box::new(rhs)), span);
            proof {
                m = (m - 1) as nat;
            }
        }
    }

    fn unary_expression(&mut self, Ghost(n): Ghost<nat>) -> (r: Expr)
        requires
            old(self).ok(),
            enough(n, old(self).st(), 7),
        ensures
            (final(self).st(), expr_view(r)) == (grammar(n).unary)(old(self).st()),
            old(self).st().to(final(self).st()),
        decreases n, 1nat,
    {
        proof {
            lemma_rules(n);
        }
        reveal(unary);
        let start = self.span();
        if let Some(op) = unary_op(self.kind()) {
            self.advance();
            let operand = self.unary_expression(Ghost((n - 1) as nat));
            if op == UnaryOp::PreInc || op == UnaryOp::PreDec {
                self.check_assign_target(&operand);
            }
            let span = start.to(operand.span);
            return expr_node(ExprKind::Unary(op, Box::new(operand)), span);
        }
        self.postfix_expression(Ghost((n - 1) as nat))
    }

    fn postfix_expression(&mut self, Ghost(n): Ghost<nat>) -> (r: Expr)
        requires
            old(self).ok(),
            enough(n, old(self).st(), 6),
        ensures
            (final(self).st(), expr_view(r)) == (grammar(n).postfix)(old(self).st()),
            old(self).st().to(final(self).st()),
        decreases n, 1nat,
    {
        proof {
            lemma_rules(n);
        }
        reveal(postfix);
        reveal(check_target);
        reveal(PState::complain);
        let expr = self.call_expression(Ghost((n - 1) as nat));
        if self.current().newline_before {
            return expr;
        }
        let op = match self.kind() {
            TokenKind::PlusPlus => PostfixOp::Inc,
            TokenKind::MinusMinus => PostfixOp::Dec,
            _ => {
                return expr;
            },
        };
        self.check_assign_target(&expr);
        let end = self.advance();
        let span = expr.span.to(end);
        expr_node(ExprKind::Postfix(op, Box::new(expr)), span)
    }

    /// `new` or a primary expression.
    fn head_expression(&mut self, Ghost(n): Ghost<nat>) -> (r: Expr)
        requires
            old(self).ok(),
            enough(n, old(self).st(), 4),
        ensures
            (final(self).st(), expr_view(r)) == (grammar(n).head)(old(self).st()),
            old(self).st().to(final(self).st()),
        decreases n, 1nat,
    {
        proof {
            lemma_rules(n);
        }
        reveal(head);
        if self.at(&TokenKind::New) {
            self.new_expression(Ghost((n - 1) as nat))
        } else {
            self.primary_expression(Ghost((n - 1) as nat))
        }
    }

    /// A chain of members, elements, calls and type applications.
    fn call_expression(&mut self, Ghost(n): Ghost<nat>) -> (r: Expr)
        requires
            old(self).ok(),
            enough(n, old(self).st(), 5),
        ensures
            (final(self).st(), expr_view(r)) == (grammar(n).call)(old(self).st()),
            old(self).st().to(final(self).st()),
        decreases n, 1nat,
    {
        proof {
            lemma_rules(n);
        }
        reveal(call);
        let mut expr = self.head_expression(Ghost((n - 1) as nat));
        let ghost mut m = (n - 1) as nat;
        loop
            invariant
                self.ok(),
                m < n,
                enough(m, self.st(), 3),
                old(self).st().to(self.st()),
                (grammar(n).call)(old(self).st()) == (grammar(m).call_rest)(self.st(), expr_view(expr)),
            decreases m,
        {
            proof {
                lemma_rules(m);
            }
            reveal(call_rest);
            match self.kind() {
                TokenKind::Dot => {
                    expr = self.member_access(expr);
                },
                TokenKind::LBracket => {
                    expr = self.element_access(expr, Ghost((m - 1) as nat));
                },
                TokenKind::LParen => {
                    let (args, end) = self.arguments(Ghost((m - 1) as nat));
                    let span = expr.span.to(end);
                    expr = expr_node(ExprKind::Call(Box::new(expr), args), span);
                },
                TokenKind::LeftDotAngle => {
                    expr = self.type_application(expr, Ghost((m - 1) as nat));
                },
                TokenKind::DotDot => {
                    let span = self.advance();
                    self.error(
                        UNSUPPORTED_SYNTAX,
                        "`..` is the E4X descendant operator, which is not part of this language (SPECS §5)",
                        span,
                    );
                },
                _ => {
                    return expr;
                },
            }
            proof {
                m = (m - 1) as nat;
            }
        }
    }

    fn member_access(&mut self, expr: Expr) -> (r: Expr)
        requires
            old(self).ok(),
            old(self).st().at(TokenKind::Dot),
        ensures
            (final(self).st(), expr_view(r)) == member(old(self).st(), expr_view(expr)),
            old(self).st().to(final(self).st()),
            final(self).st().left() < old(self).st().left(),
    {
        self.advance();
        let (name, name_span) = self.expect_ident();
        let span = expr.span.to(name_span);
        expr_node(ExprKind::Member(Box::new(expr), name), span)
    }

    fn element_access(&mut self, expr: Expr, Ghost(n): Ghost<nat>) -> (r: Expr)
        requires
            old(self).ok(),
            old(self).st().at(TokenKind::LBracket),
            enough(n, old(self).st(), 2),
        ensures
            (final(self).st(), expr_view(r)) == (grammar(n).element)(old(self).st(), expr_view(expr)),
            old(self).st().to(final(self).st()),
            final(self).st().left() < old(self).st().left(),
        decreases n, 1nat,
    {
        proof {
            lemma_rules(n);
        }
        reveal(element);
        self.advance();
        let index = self.expression(Ghost((n - 1) as nat));
        let end = self.expect(&TokenKind::RBracket);
        let span = expr.span.to(end);
        expr_node(ExprKind::Index(Box::new(expr), Box::new(index)), span)
    }

    fn type_application(&mut self, expr: Expr, Ghost(n): Ghost<nat>) -> (r: Expr)
        requires
            old(self).ok(),
            old(self).st().at(TokenKind::LeftDotAngle),
            enough(n, old(self).st(), 2),
        ensures
            (final(self).st(), expr_view(r)) == (grammar(n).application)(old(self).st(), expr_view(expr)),
            old(self).st().to(final(self).st()),
            final(self).st().left() < old(self).st().left(),
        decreases n, 1nat,
    {
        proof {
            lemma_rules(n);
        }
        reveal(application);
        self.advance();
        let args = self.type_list(Ghost((n - 1) as nat));
        self.expect_type_close();
        let span = expr.span.to(self.prev_span());
        expr_node(ExprKind::ApplyType(Box::new(expr), args), span)
    }

    /// `new Callee(args)`, where members bind tighter than the call, or the
    /// Vector literal `new <T>[...]`.
    fn new_expression(&mut self, Ghost(n): Ghost<nat>) -> (r: Expr)
        requires
            old(self).ok(),
            old(self).st().at(TokenKind::New),
            enough(n, old(self).st(), 3),
        ensures
            (final(self).st(), expr_view(r)) == (grammar(n).new_expr)(old(self).st()),
            old(self).st().to(final(self).st()),
        decreases n, 1nat,
    {
        proof {
            lemma_rules(n);
        }
        reveal(new_expr);
        let start = self.advance();
        if self.at(&TokenKind::Lt) {
            return self.vector_literal(start, Ghost((n - 1) as nat));
        }
        let mut callee = self.head_expression(Ghost((n - 1) as nat));
        let ghost s1 = self.st();
        let ghost c = expr_view(callee);
        let ghost mut m = (n - 1) as nat;
        loop
            invariant_except_break
                self.ok(),
                m < n,
                enough(m, self.st(), 3),
                old(self).st().to(self.st()),
                old(self).st().left() > self.st().left(),
                (grammar((n - 1) as nat).new_rest)(s1, c) == (grammar(m).new_rest)(self.st(), expr_view(callee)),
            ensures
                self.ok(),
                old(self).st().to(self.st()),
                old(self).st().left() > self.st().left(),
                (grammar((n - 1) as nat).new_rest)(s1, c) == (self.st(), expr_view(callee)),
            decreases m,
        {
            proof {
                lemma_rules(m);
            }
            reveal(new_rest);
            match self.kind() {
                TokenKind::LeftDotAngle => {
                    callee = self.type_application(callee, Ghost((m - 1) as nat));
                },
                TokenKind::Dot => {
                    callee = self.member_access(callee);
                },
                TokenKind::LBracket => {
                    callee = self.element_access(callee, Ghost((m - 1) as nat));
                },
                _ => {
                    break;
                },
            }
            proof {
                m = (m - 1) as nat;
            }
        }
        let (args, end): (Vec<Expr>, Span) = if self.at(&TokenKind::LParen) {
            self.arguments(Ghost((n - 1) as nat))
        } else {
            let none: Vec<Expr> = Vec::new();
            proof { exprs_none(); }
            (none, callee.span)
        };
        let span = start.to(end);
        expr_node(ExprKind::New(Box::new(callee), args), span)
    }

    fn vector_literal(&mut self, start: Span, Ghost(n): Ghost<nat>) -> (r: Expr)
        requires
            old(self).ok(),
            old(self).st().at(TokenKind::Lt),
            enough(n, old(self).st(), 2),
        ensures
            (final(self).st(), expr_view(r)) == (grammar(n).vector_literal)(old(self).st(), start),
            old(self).st().to(final(self).st()),
        decreases n, 1nat,
    {
        proof {
            lemma_rules(n);
        }
        reveal(vector_literal);
        self.advance();
        let elem = self.type_ref(Ghost((n - 1) as nat));
        self.expect_type_close();
        self.expect(&TokenKind::LBracket);
        let ghost s2 = self.st();
        let mut elements: Vec<Expr> = Vec::new();
        proof { exprs_none(); }
        if !self.at(&TokenKind::RBracket) {
            let ghost mut m = (n - 1) as nat;
            loop
                invariant_except_break
                    self.ok(),
                    m < n,
                    enough(m, self.st(), 12),
                    old(self).st().to(self.st()),
                    (grammar((n - 1) as nat).vector_elements)(s2, Seq::empty()) == (grammar(m).vector_elements)(
                        self.st(),
                        exprs_view(elements@),
                    ),
                ensures
                    self.ok(),
                    old(self).st().to(self.st()),
                    (grammar((n - 1) as nat).vector_elements)(s2, Seq::empty()) == (
                        self.st(),
                        exprs_view(elements@),
                    ),
                decreases m,
            {
                proof {
                    lemma_rules(m);
                }
                reveal(vector_elements);
                let e = self.assignment_expression(Ghost((m - 1) as nat));
                proof { exprs_push(elements@, e); }
                elements.push(e);
                if !self.eat(&TokenKind::Comma) {
                    break;
                }
                if self.at(&TokenKind::RBracket) {
                    break;
                }
                proof {
                    m = (m - 1) as nat;
                }
            }
        }
        let end = self.expect(&TokenKind::RBracket);
        expr_node(ExprKind::VectorLit { elem, elements }, start.to(end))
    }

    /// `(args)`, and the span of its last token.
    fn arguments(&mut self, Ghost(n): Ghost<nat>) -> (r: (Vec<Expr>, Span))
        requires
            old(self).ok(),
            old(self).st().at(TokenKind::LParen),
            enough(n, old(self).st(), 2),
        ensures
            (final(self).st(), exprs_view(r.0@), r.1) == (grammar(n).arguments)(old(self).st()),
            old(self).st().to(final(self).st()),
            final(self).st().left() < old(self).st().left(),
        decreases n, 1nat,
    {
        proof {
            lemma_rules(n);
        }
        reveal(arguments);
        self.expect(&TokenKind::LParen);
        let ghost s1 = self.st();
        let mut args: Vec<Expr> = Vec::new();
        proof { exprs_none(); }
        if !self.at(&TokenKind::RParen) {
            let ghost mut m = (n - 1) as nat;
            loop
                invariant_except_break
                    self.ok(),
                    m < n,
                    enough(m, self.st(), 12),
                    s1.to(self.st()),
                    (grammar((n - 1) as nat).argument_list)(s1, Seq::empty()) == (grammar(m).argument_list)(
                        self.st(),
                        exprs_view(args@),
                    ),
                ensures
                    self.ok(),
                    s1.to(self.st()),
                    (grammar((n - 1) as nat).argument_list)(s1, Seq::empty()) == (
                        self.st(),
                        exprs_view(args@),
                    ),
                decreases m,
            {
                proof {
                    lemma_rules(m);
                }
                reveal(argument_list);
                let e = self.assignment_expression(Ghost((m - 1) as nat));
                proof { exprs_push(args@, e); }
                args.push(e);
                if !self.eat(&TokenKind::Comma) {
                    break;
                }
                proof {
                    m = (m - 1) as nat;
                }
            }
        }
        let end = self.expect(&TokenKind::RParen);
        (args, end)
    }

    /// Literals, names, brackets and functions.
    fn primary_expression(&mut self, Ghost(n): Ghost<nat>) -> (r: Expr)
        requires
            old(self).ok(),
            enough(n, old(self).st(), 3),
        ensures
            (final(self).st(), expr_view(r)) == (grammar(n).primary)(old(self).st()),
            old(self).st().to(final(self).st()),
        decreases n, 1nat,
    {
        proof {
            lemma_rules(n);
        }
        reveal(primary);
        let span = self.span();
        if let Some(e) = atom_of(self.kind(), span) {
            self.advance();
            return e;
        }
        match self.kind() {
            TokenKind::LParen => {
                self.advance();
                let inner = self.expression(Ghost((n - 1) as nat));
                self.expect(&TokenKind::RParen);
                let end = self.prev_span();
                expr_moved(inner, span.to(end))
            },
            TokenKind::LBracket => self.array_literal(Ghost(n)),
            TokenKind::LBrace => self.object_literal(Ghost(n)),
            TokenKind::Function => {
                let start = self.advance();
                let f = self.function_after_keyword(start, false, Ghost((n - 1) as nat));
                let span = f.span;
                expr_node(ExprKind::Function(Box::new(f)), span)
            },
            _ => {
                self.error_found("expected expression, found ");
                expr_node(ExprKind::Ident("<error>".to_owned()), span)
            },
        }
    }

    fn array_literal(&mut self, Ghost(n): Ghost<nat>) -> (r: Expr)
        requires
            old(self).ok(),
            old(self).st().at(TokenKind::LBracket),
            enough(n, old(self).st(), 3),
        ensures
            (final(self).st(), expr_view(r)) == (grammar(n).primary)(old(self).st()),
            old(self).st().to(final(self).st()),
        decreases n, 0nat,
    {
        proof {
            lemma_rules(n);
        }
        reveal(primary);
        reveal(atom);
        let start = self.advance();
        let ghost s1 = self.st();
        let mut elements: Vec<Option<Expr>> = Vec::new();
        proof { elements_none(); }
        let ghost mut m = (n - 1) as nat;
        loop
            invariant_except_break
                self.ok(),
                m < n,
                enough(m, self.st(), 12),
                s1.to(self.st()),
                (grammar((n - 1) as nat).array_elements)(s1, Seq::empty()) == (grammar(m).array_elements)(
                    self.st(),
                    elements_view(elements@),
                ),
            ensures
                self.ok(),
                s1.to(self.st()),
                (grammar((n - 1) as nat).array_elements)(s1, Seq::empty()) == (
                    self.st(),
                    elements_view(elements@),
                ),
            decreases m,
        {
            proof {
                lemma_rules(m);
            }
            reveal(array_elements);
            if self.at(&TokenKind::RBracket) {
                break;
            }
            if self.eat(&TokenKind::Comma) {
                let hole: Option<Expr> = None;
                proof { elements_push(elements@, hole); }
                elements.push(hole);
            } else {
                let e = Some(self.assignment_expression(Ghost((m - 1) as nat)));
                proof { elements_push(elements@, e); }
                elements.push(e);
                if !self.eat(&TokenKind::Comma) {
                    break;
                }
            }
            proof {
                m = (m - 1) as nat;
            }
        }
        let end = self.expect(&TokenKind::RBracket);
        expr_node(ExprKind::Array(elements), start.to(end))
    }

    fn object_literal(&mut self, Ghost(n): Ghost<nat>) -> (r: Expr)
        requires
            old(self).ok(),
            old(self).st().at(TokenKind::LBrace),
            enough(n, old(self).st(), 3),
        ensures
            (final(self).st(), expr_view(r)) == (grammar(n).primary)(old(self).st()),
            old(self).st().to(final(self).st()),
        decreases n, 0nat,
    {
        proof {
            lemma_rules(n);
        }
        reveal(primary);
        reveal(atom);
        let start = self.advance();
        let ghost s1 = self.st();
        let mut props: Vec<(PropName, Expr)> = Vec::new();
        proof { props_none(); }
        if !self.at(&TokenKind::RBrace) {
            let ghost mut m = (n - 1) as nat;
            loop
                invariant_except_break
                    self.ok(),
                    m < n,
                    enough(m, self.st(), 12),
                    s1.to(self.st()),
                    (grammar((n - 1) as nat).object_props)(s1, Seq::empty()) == (grammar(m).object_props)(
                        self.st(),
                        props_view(props@),
                    ),
                ensures
                    self.ok(),
                    s1.to(self.st()),
                    (grammar((n - 1) as nat).object_props)(s1, Seq::empty()) == (
                        self.st(),
                        props_view(props@),
                    ),
                decreases m,
            {
                proof {
                    lemma_rules(m);
                }
                reveal(object_props);
                let name = match prop_name_of(self.kind()) {
                    Some(name) => name,
                    None => {
                        self.error_found("expected property name, found ");
                        break;
                    },
                };
                self.advance();
                self.expect(&TokenKind::Colon);
                let value = self.assignment_expression(Ghost((m - 1) as nat));
                let prop = (name, value);
                proof { props_push(props@, prop); }
                props.push(prop);
                if !self.eat(&TokenKind::Comma) {
                    break;
                }
                if self.at(&TokenKind::RBrace) {
                    break;
                }
                proof {
                    m = (m - 1) as nat;
                }
            }
        }
        let end = self.expect(&TokenKind::RBrace);
        expr_node(ExprKind::Object(props), start.to(end))
    }
}

} // verus!
