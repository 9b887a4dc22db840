//! How statements are written, and that the parser reads them so.
//!
//! A [`Form`] is a statement as it is written, with its semicolons. The law says that
//! the parser gets the form back.

use vstd::prelude::*;

use crate::ast::view::{ExprView, ForInitView, StmtKindView, StmtView};
use crate::lexer::token::{KindView, TokenKind, TokenView};
use crate::parser::grammar::{
    annotation, binding, binding_list, block_rest, control, do_while_statement,
    expression_statement, for_expr_rest, for_statement, for_tail, grammar, if_statement,
    initializer, lemma_rules, optional_expression, paren_expression, return_statement, statement,
    stmt_list, throw_statement, var_declaration, var_statement, while_statement,
};
use crate::parser::state::PState;
use crate::parser::writing::{
    after, ends_assignment, lemma_counts, lemma_operator, lemma_start, lemma_tokens,
    parse_assignment, parse_whole, plain_at, rank, reads, size, well, width, written, Tree,
};

verus! {

/// A statement as it is written.
pub ghost enum Form {
    Empty,
    Expr(Tree),
    Block(Seq<Form>),
    If(Tree, Box<Form>, Option<Box<Form>>),
    While(Tree, Box<Form>),
    Do(Box<Form>, Tree),
    For(Option<Tree>, Option<Tree>, Option<Tree>, Box<Form>),
    Return(Option<Tree>),
    Throw(Tree),
    Break(Option<Seq<char>>),
    Continue(Option<Seq<char>>),
    Labeled(Seq<char>, Box<Form>),
    /// `var` or `const`, with one variable.
    Var(bool, Seq<char>, Option<Tree>),
}

pub open spec fn opt_width(t: Option<Tree>) -> nat {
    match t {
        Some(x) => width(x),
        None => 0,
    }
}

pub open spec fn opt_size(t: Option<Tree>) -> nat {
    match t {
        Some(x) => size(x),
        None => 0,
    }
}

/// The number of tokens.
pub open spec fn span_of(f: Form) -> nat
    decreases f, 0nat,
{
    match f {
        Form::Empty => 1,
        Form::Expr(t) => width(t) + 1,
        Form::Block(fs) => spans_of(fs, fs.len()) + 2,
        Form::If(c, a, None) => 3 + width(c) + span_of(*a),
        Form::If(c, a, Some(b)) => 4 + width(c) + span_of(*a) + span_of(*b),
        Form::While(c, a) => 3 + width(c) + span_of(*a),
        Form::Do(a, c) => 5 + span_of(*a) + width(c),
        Form::For(i, c, u, a) => 5 + opt_width(i) + opt_width(c) + opt_width(u) + span_of(*a),
        Form::Return(v) => 2 + opt_width(v),
        Form::Throw(v) => 2 + width(v),
        Form::Break(l) | Form::Continue(l) => if l is Some {
            3
        } else {
            2
        },
        Form::Labeled(_, a) => 2 + span_of(*a),
        Form::Var(_, _, v) => match v {
            Some(x) => 4 + width(x),
            None => 3,
        },
    }
}

pub open spec fn spans_of(fs: Seq<Form>, n: nat) -> nat
    decreases fs, n,
{
    if 0 < n <= fs.len() {
        spans_of(fs, (n - 1) as nat) + span_of(fs[n - 1])
    } else {
        0
    }
}

/// The number of nodes.
pub open spec fn bulk(f: Form) -> nat
    decreases f, 0nat,
{
    match f {
        Form::Expr(t) => size(t) + 1,
        Form::Block(fs) => bulks(fs, fs.len()) + 1,
        Form::If(c, a, None) => size(c) + bulk(*a) + 1,
        Form::If(c, a, Some(b)) => size(c) + bulk(*a) + bulk(*b) + 1,
        Form::While(c, a) => size(c) + bulk(*a) + 1,
        Form::Do(a, c) => size(c) + bulk(*a) + 1,
        Form::For(i, c, u, a) => opt_size(i) + opt_size(c) + opt_size(u) + bulk(*a) + 1,
        Form::Return(v) => opt_size(v) + 1,
        Form::Throw(v) => size(v) + 1,
        Form::Labeled(_, a) => bulk(*a) + 1,
        Form::Var(_, _, v) => opt_size(v) + 1,
        _ => 1,
    }
}

pub open spec fn bulks(fs: Seq<Form>, n: nat) -> nat
    decreases fs, n,
{
    if 0 < n <= fs.len() {
        bulks(fs, (n - 1) as nat) + bulk(fs[n - 1]) + 1
    } else {
        0
    }
}

/// An `else` behind the statement would belong to an `if` in it.
pub open spec fn wants_else(f: Form) -> bool
    decreases f,
{
    match f {
        Form::If(_, _, None) => true,
        Form::If(_, _, Some(b)) => wants_else(*b),
        Form::While(_, a) => wants_else(*a),
        Form::For(_, _, _, a) => wants_else(*a),
        Form::Labeled(_, a) => wants_else(*a),
        _ => false,
    }
}

pub open spec fn opt_well(t: Option<Tree>, no_in: bool) -> bool {
    match t {
        Some(x) => well(x, no_in),
        None => true,
    }
}

/// The expressions need no further parentheses, and an `else` belongs to the `if` that
/// it is written with.
pub open spec fn good(f: Form) -> bool
    decreases f, 0nat,
{
    match f {
        Form::Expr(t) => well(t, false),
        Form::Block(fs) => all_good(fs, fs.len()),
        Form::If(c, a, None) => well(c, false) && good(*a),
        Form::If(c, a, Some(b)) => well(c, false) && good(*a) && !wants_else(*a) && good(*b),
        Form::While(c, a) => well(c, false) && good(*a),
        Form::Do(a, c) => well(c, false) && good(*a),
        Form::For(i, c, u, a) => opt_well(i, true) && opt_well(c, false) && opt_well(u, false)
            && good(*a),
        Form::Return(v) => opt_well(v, false),
        Form::Throw(v) => well(v, false),
        Form::Labeled(_, a) => good(*a),
        Form::Var(_, _, v) => opt_well(v, false) && match v {
            Some(x) => rank(x) >= 1,
            None => true,
        },
        _ => true,
    }
}

pub open spec fn all_good(fs: Seq<Form>, n: nat) -> bool
    decreases fs, n,
{
    0 < n <= fs.len() ==> good(fs[n - 1]) && all_good(fs, (n - 1) as nat)
}

pub open spec fn opt_written(toks: Seq<TokenView>, i: int, t: Option<Tree>) -> bool {
    match t {
        Some(x) => written(toks, i, x),
        None => true,
    }
}

/// The tokens from `i` on write the statement.
pub open spec fn spelt(toks: Seq<TokenView>, i: int, f: Form) -> bool
    decreases f, 0nat,
{
    let semi = plain_at(toks, i + span_of(f) - 1, TokenKind::Semicolon);
    match f {
        Form::Empty => semi,
        Form::Expr(t) => written(toks, i, t) && semi,
        Form::Block(fs) => plain_at(toks, i, TokenKind::LBrace) && all_spelt(
            toks,
            i + 1,
            fs,
            fs.len(),
        ) && plain_at(toks, i + span_of(f) - 1, TokenKind::RBrace),
        Form::If(c, a, None) => plain_at(toks, i, TokenKind::If) && parens(toks, i + 1, c) && spelt(
            toks,
            i + 3 + width(c),
            *a,
        ),
        Form::If(c, a, Some(b)) => plain_at(toks, i, TokenKind::If) && parens(toks, i + 1, c)
            && spelt(toks, i + 3 + width(c), *a) && plain_at(
            toks,
            i + 3 + width(c) + span_of(*a),
            TokenKind::Else,
        ) && spelt(toks, i + 4 + width(c) + span_of(*a), *b),
        Form::While(c, a) => plain_at(toks, i, TokenKind::While) && parens(toks, i + 1, c) && spelt(
            toks,
            i + 3 + width(c),
            *a,
        ),
        Form::Do(a, c) => plain_at(toks, i, TokenKind::Do) && spelt(toks, i + 1, *a) && plain_at(
            toks,
            i + 1 + span_of(*a),
            TokenKind::While,
        ) && parens(toks, i + 2 + span_of(*a), c) && semi,
        Form::For(x, c, u, a) => {
            let j = i + 2 + opt_width(x);
            let k = j + 1 + opt_width(c);
            let l = k + 1 + opt_width(u);
            &&& plain_at(toks, i, TokenKind::For)
            &&& plain_at(toks, i + 1, TokenKind::LParen)
            &&& opt_written(toks, i + 2, x)
            &&& plain_at(toks, j, TokenKind::Semicolon)
            &&& opt_written(toks, j + 1, c)
            &&& plain_at(toks, k, TokenKind::Semicolon)
            &&& opt_written(toks, k + 1, u)
            &&& plain_at(toks, l, TokenKind::RParen)
            &&& spelt(toks, l + 1, *a)
        },
        Form::Return(v) => plain_at(toks, i, TokenKind::Return) && opt_written(toks, i + 1, v)
            && (v is Some ==> !toks[i + 1].newline_before) && semi,
        Form::Throw(v) => plain_at(toks, i, TokenKind::Throw) && written(toks, i + 1, v) && semi,
        Form::Break(l) => plain_at(toks, i, TokenKind::Break) && (l matches Some(x) ==> toks[i
            + 1].kind == KindView::Ident(x) && !toks[i + 1].newline_before) && semi,
        Form::Continue(l) => plain_at(toks, i, TokenKind::Continue) && (l matches Some(x)
            ==> toks[i + 1].kind == KindView::Ident(x) && !toks[i + 1].newline_before) && semi,
        Form::Labeled(l, a) => toks[i].kind == KindView::Ident(l) && plain_at(
            toks,
            i + 1,
            TokenKind::Colon,
        ) && spelt(toks, i + 2, *a),
        Form::Var(constant, name, v) => plain_at(
            toks,
            i,
            if constant {
                TokenKind::Const
            } else {
                TokenKind::Var
            },
        ) && toks[i + 1].kind == KindView::Ident(name) && match v {
            Some(x) => plain_at(toks, i + 2, TokenKind::Assign) && written(toks, i + 3, x),
            None => true,
        } && semi,
    }
}

/// The expression in parentheses.
pub open spec fn parens(toks: Seq<TokenView>, i: int, t: Tree) -> bool {
    plain_at(toks, i, TokenKind::LParen) && written(toks, i + 1, t) && plain_at(
        toks,
        i + 1 + width(t),
        TokenKind::RParen,
    )
}

pub open spec fn all_spelt(toks: Seq<TokenView>, i: int, fs: Seq<Form>, n: nat) -> bool
    decreases fs, n,
{
    0 < n <= fs.len() ==> all_spelt(toks, i, fs, (n - 1) as nat) && spelt(
        toks,
        i + spans_of(fs, (n - 1) as nat),
        fs[n - 1],
    )
}

pub open spec fn opt_reads(toks: Seq<TokenView>, i: int, e: Option<ExprView>, t: Option<Tree>) -> bool {
    match t {
        Some(x) => e matches Some(y) && reads(toks, i, y, x),
        None => e is None,
    }
}

/// The statement says what the form at `i` does.
pub open spec fn says(toks: Seq<TokenView>, i: int, x: StmtView, f: Form) -> bool
    decreases f, 0nat,
{
    match f {
        Form::Empty => x.kind is Empty,
        Form::Expr(t) => x.kind matches StmtKindView::Expr(e) && reads(toks, i, e, t),
        Form::Block(fs) => x.kind matches StmtKindView::Block(b) && b.stmts.len() == fs.len()
            && all_say(toks, i + 1, b.stmts, fs, fs.len()),
        Form::If(c, a, None) => x.kind matches StmtKindView::If {
            cond,
            then_branch,
            else_branch: None,
        } && reads(toks, i + 2, cond, c) && says(toks, i + 3 + width(c), *then_branch, *a),
        Form::If(c, a, Some(b)) => x.kind matches StmtKindView::If {
            cond,
            then_branch,
            else_branch: Some(other),
        } && reads(toks, i + 2, cond, c) && says(toks, i + 3 + width(c), *then_branch, *a) && says(
            toks,
            i + 4 + width(c) + span_of(*a),
            *other,
            *b,
        ),
        Form::While(c, a) => x.kind matches StmtKindView::While { cond, body } && reads(
            toks,
            i + 2,
            cond,
            c,
        ) && says(toks, i + 3 + width(c), *body, *a),
        Form::Do(a, c) => x.kind matches StmtKindView::DoWhile { body, cond } && says(
            toks,
            i + 1,
            *body,
            *a,
        ) && reads(toks, i + 3 + span_of(*a), cond, c),
        Form::For(v, c, u, a) => {
            let j = i + 2 + opt_width(v);
            let k = j + 1 + opt_width(c);
            let l = k + 1 + opt_width(u);
            &&& x.kind matches StmtKindView::For { init, cond, update, body }
            &&& match v {
                Some(t) => init matches Some(b) && (*b matches ForInitView::Expr(e) && reads(
                    toks,
                    i + 2,
                    e,
                    t,
                )),
                None => init is None,
            }
            &&& opt_reads(toks, j + 1, cond, c)
            &&& opt_reads(toks, k + 1, update, u)
            &&& says(toks, l + 1, *body, *a)
        },
        Form::Return(v) => x.kind matches StmtKindView::Return { value } && opt_reads(
            toks,
            i + 1,
            value,
            v,
        ),
        Form::Throw(v) => x.kind matches StmtKindView::Throw { value } && reads(
            toks,
            i + 1,
            value,
            v,
        ),
        Form::Break(l) => x.kind == (StmtKindView::Break { label: l }),
        Form::Continue(l) => x.kind == (StmtKindView::Continue { label: l }),
        Form::Labeled(l, a) => x.kind matches StmtKindView::Labeled { label, body } && label == l
            && says(toks, i + 2, *body, *a),
        Form::Var(constant, name, v) => x.kind matches StmtKindView::VarDecl(d) && d.is_const
            == constant && d.bindings.len() == 1 && d.bindings[0].name == name
            && d.bindings[0].ty is None && opt_reads(toks, i + 3, d.bindings[0].init, v),
    }
}

pub open spec fn all_say(
    toks: Seq<TokenView>,
    i: int,
    xs: Seq<StmtView>,
    fs: Seq<Form>,
    n: nat,
) -> bool
    decreases fs, n,
{
    0 < n <= fs.len() ==> says(toks, i + spans_of(fs, (n - 1) as nat), xs[n - 1], fs[n - 1])
        && all_say(toks, i, xs, fs, (n - 1) as nat)
}

pub open spec fn past(s: PState, f: Form) -> PState {
    PState { pos: s.pos + span_of(f), ..s }
}

/// The statement stands here, with a token behind it that is no `else` of it.
pub open spec fn placed(s: PState, f: Form) -> bool {
    &&& 0 <= s.pos
    &&& s.pos + span_of(f) < s.toks.len()
    &&& !s.no_in
    &&& spelt(s.toks, s.pos, f)
    &&& good(f)
    &&& wants_else(f) ==> !past(s, f).at(TokenKind::Else)
}

// --- proofs -------------------------------------------------------------------------------

/// A name at the start of an expression is no label.
proof fn lemma_no_label(toks: Seq<TokenView>, i: int, t: Tree, no_in: bool)
    requires
        written(toks, i, t),
        well(t, no_in),
        !plain_at(toks, i + width(t), TokenKind::Colon),
    ensures
        toks[i].kind is Ident ==> !plain_at(toks, i + 1, TokenKind::Colon),
    decreases t,
{
    lemma_counts(t);
    match t {
        Tree::Member(a, _) => lemma_no_label(toks, i, *a, no_in),
        Tree::Index(a, _) => lemma_no_label(toks, i, *a, no_in),
        Tree::Call(a, _) => lemma_no_label(toks, i, *a, no_in),
        Tree::Postfix(_, a) => lemma_no_label(toks, i, *a, no_in),
        Tree::Binary(_, l, _) => lemma_no_label(toks, i, *l, no_in),
        Tree::Conditional(c, _, _) => lemma_no_label(toks, i, *c, no_in),
        Tree::Assign(_, l, _) => lemma_no_label(toks, i, *l, no_in),
        Tree::Comma(l, _) => lemma_no_label(toks, i, *l, no_in),
        _ => {},
    }
}

/// A token that ends an expression and is no comma.
proof fn lemma_ends(s: PState)
    requires
        s.at(TokenKind::Semicolon) || s.at(TokenKind::RParen),
    ensures
        ends_assignment(s),
        !s.at(TokenKind::Comma),
{
    lemma_operator(s.cur().kind);
}

proof fn parse_parens(n: nat, s: PState, t: Tree) -> (e: ExprView)
    requires
        0 <= s.pos,
        s.pos + width(t) + 2 < s.toks.len(),
        parens(s.toks, s.pos, t),
        well(t, s.no_in),
        n >= 16 * size(t) + 12,
    ensures
        reads(s.toks, s.pos + 1, e, t),
        (grammar(n).paren_expression)(s) == (PState { pos: s.pos + width(t) + 2, ..s }, e),
{
    lemma_rules(n);
    reveal(paren_expression);
    reveal(PState::expect);
    let s1 = s.next();
    lemma_ends(after(s1, t));
    let e = parse_whole((n - 1) as nat, s1, t);
    assert(after(s1, t).next() == (PState { pos: s.pos + width(t) + 2, ..s }));
    e
}

proof fn parse_optional(n: nat, s: PState, t: Option<Tree>, end: TokenKind) -> (e: Option<ExprView>)
    requires
        end == TokenKind::Semicolon || end == TokenKind::RParen,
        0 <= s.pos,
        s.pos + opt_width(t) < s.toks.len(),
        opt_written(s.toks, s.pos, t),
        opt_well(t, s.no_in),
        plain_at(s.toks, s.pos + opt_width(t), end),
        n >= 16 * opt_size(t) + 12,
    ensures
        opt_reads(s.toks, s.pos, e, t),
        (grammar(n).optional_expression)(s, end) == (
            PState { pos: s.pos + opt_width(t), ..s },
            e,
        ),
{
    lemma_rules(n);
    reveal(optional_expression);
    match t {
        Some(x) => {
            lemma_start(s.toks, s.pos, x, s.no_in);
            lemma_ends(after(s, x));
            Some(parse_whole((n - 1) as nat, s, x))
        },
        None => None,
    }
}

proof fn parse_expr_stmt(n: nat, s: PState, t: Tree) -> (x: StmtView)
    requires
        placed(s, Form::Expr(t)),
        n >= 16 * size(t) + 14,
    ensures
        says(s.toks, s.pos, x, Form::Expr(t)),
        (grammar(n).statement)(s) == (past(s, Form::Expr(t)), x),
{
    lemma_rules(n);
    lemma_rules((n - 1) as nat);
    reveal(statement);
    reveal(expression_statement);
    reveal(PState::semicolon);
    lemma_start(s.toks, s.pos, t, false);
    lemma_no_label(s.toks, s.pos, t, false);
    lemma_tokens(s.cur().kind);
    lemma_ends(after(s, t));
    let e = parse_whole((n - 2) as nat, s, t);
    assert(after(s, t).next() == past(s, Form::Expr(t)));
    let x = StmtView { kind: StmtKindView::Expr(e), span: e.span };
    assert((grammar((n - 1) as nat).expression_statement)(s) == (past(s, Form::Expr(t)), x));
    x
}

proof fn parse_simple(n: nat, s: PState, f: Form) -> (x: StmtView)
    requires
        placed(s, f),
        f is Return || f is Throw || f is Break || f is Continue || f is Empty || f is Var,
        n >= 16 * bulk(f) + 14,
    ensures
        says(s.toks, s.pos, x, f),
        (grammar(n).statement)(s) == (past(s, f), x),
{
    lemma_rules(n);
    lemma_rules((n - 1) as nat);
    lemma_rules((n - 2) as nat);
    reveal(statement);
    reveal(control);
    reveal(PState::semicolon);
    let last = PState { pos: s.pos + span_of(f) - 1, ..s };
    assert(last.next() == past(s, f));
    match f {
        Form::Return(Some(v)) => {
            reveal(return_statement);
            let s1 = s.next();
            lemma_start(s.toks, s1.pos, v, false);
            lemma_ends(after(s1, v));
            let e = parse_whole((n - 3) as nat, s1, v);
            (grammar(n).statement)(s).1
        },
        Form::Return(None) => {
            reveal(return_statement);
            (grammar(n).statement)(s).1
        },
        Form::Throw(v) => {
            reveal(throw_statement);
            let s1 = s.next();
            lemma_ends(after(s1, v));
            let e = parse_whole((n - 3) as nat, s1, v);
            (grammar(n).statement)(s).1
        },
        Form::Var(constant, name, v) => {
            lemma_rules((n - 3) as nat);
            lemma_rules((n - 4) as nat);
            lemma_rules((n - 5) as nat);
            reveal(var_statement);
            reveal(var_declaration);
            reveal(binding_list);
            reveal(binding);
            reveal(annotation);
            reveal(initializer);
            reveal(PState::ident);
            let s1 = s.next();
            let s2 = s1.next();
            if let Some(e) = v {
                let s3 = s2.next();
                lemma_ends(after(s3, e));
                let y = parse_assignment((n - 6) as nat, s3, e);
                assert((grammar((n - 5) as nat).initializer)(s2) == (last, Some(y)));
            } else {
                assert((grammar((n - 5) as nat).initializer)(s2) == (last, None::<ExprView>));
            }
            assert(s1.ident() == s2);
            assert((grammar((n - 5) as nat).annotation)(s2).0 == s2);
            let b = (grammar((n - 4) as nat).binding)(s1);
            assert(b.0 == last);
            let l = (grammar((n - 3) as nat).binding_list)(s1, Seq::empty());
            assert(l == (last, Seq::empty().push(b.1)));
            (grammar(n).statement)(s).1
        },
        _ => (grammar(n).statement)(s).1,
    }
}

proof fn parse_form(n: nat, s: PState, f: Form) -> (x: StmtView)
    requires
        placed(s, f),
        n >= 16 * bulk(f) + 14,
    ensures
        says(s.toks, s.pos, x, f),
        (grammar(n).statement)(s) == (past(s, f), x),
    decreases bulk(f), 1nat,
{
    match f {
        Form::Expr(t) => parse_expr_stmt(n, s, t),
        Form::Block(fs) => {
            lemma_rules(n);
            lemma_rules((n - 1) as nat);
            reveal(statement);
            reveal(block_rest);
            reveal(PState::expect);
            let s1 = s.next();
            let xs = parse_forms((n - 2) as nat, s1, fs, 0, Seq::empty());
            let last = PState { pos: s.pos + span_of(f) - 1, ..s };
            assert(last.next() == past(s, f));
            (grammar(n).statement)(s).1
        },
        Form::If(c, a, b) => {
            lemma_counts(c);
            lemma_rules(n);
            lemma_rules((n - 1) as nat);
            lemma_rules((n - 2) as nat);
            reveal(statement);
            reveal(control);
            reveal(if_statement);
            let e = parse_parens((n - 3) as nat, s.next(), c);
            let s1 = PState { pos: s.pos + 3 + width(c), ..s };
            let y = parse_form((n - 3) as nat, s1, *a);
            if let Some(z) = b {
                let s2 = past(s1, *a).next();
                let w = parse_form((n - 3) as nat, s2, *z);
            }
            (grammar(n).statement)(s).1
        },
        Form::While(c, a) => {
            lemma_counts(c);
            lemma_rules(n);
            lemma_rules((n - 1) as nat);
            lemma_rules((n - 2) as nat);
            reveal(statement);
            reveal(control);
            reveal(while_statement);
            let e = parse_parens((n - 3) as nat, s.next(), c);
            let s1 = PState { pos: s.pos + 3 + width(c), ..s };
            let y = parse_form((n - 3) as nat, s1, *a);
            (grammar(n).statement)(s).1
        },
        Form::Do(a, c) => {
            lemma_counts(c);
            lemma_rules(n);
            lemma_rules((n - 1) as nat);
            lemma_rules((n - 2) as nat);
            reveal(statement);
            reveal(control);
            reveal(do_while_statement);
            reveal(PState::expect);
            reveal(PState::semicolon);
            let s1 = s.next();
            let y = parse_form((n - 3) as nat, s1, *a);
            let s2 = past(s1, *a).next();
            let e = parse_parens((n - 3) as nat, s2, c);
            let last = PState { pos: s.pos + span_of(f) - 1, ..s };
            assert(last.next() == past(s, f));
            (grammar(n).statement)(s).1
        },
        Form::For(v, c, u, a) => parse_for(n, s, f),
        Form::Labeled(l, a) => {
            lemma_rules(n);
            reveal(statement);
            let s1 = s.next().next();
            let y = parse_form((n - 1) as nat, s1, *a);
            (grammar(n).statement)(s).1
        },
        _ => parse_simple(n, s, f),
    }
}

proof fn parse_for(n: nat, s: PState, f: Form) -> (x: StmtView)
    requires
        placed(s, f),
        f is For,
        n >= 16 * bulk(f) + 14,
    ensures
        says(s.toks, s.pos, x, f),
        (grammar(n).statement)(s) == (past(s, f), x),
    decreases bulk(f), 0nat,
{
    let (v, c, u, a) = (f->For_0, f->For_1, f->For_2, f->For_3);
    lemma_rules(n);
    lemma_rules((n - 1) as nat);
    lemma_rules((n - 2) as nat);
    lemma_rules((n - 3) as nat);
    reveal(statement);
    reveal(control);
    reveal(for_statement);
    reveal(for_expr_rest);
    reveal(for_tail);
    reveal(PState::expect);
    let j = s.pos + 2 + opt_width(v);
    let k = j + 1 + opt_width(c);
    let l = k + 1 + opt_width(u);
    let s1 = s.next().next();
    let s2 = PState { pos: j + 1, ..s };
    let s3 = PState { pos: k + 1, ..s };
    let s4 = PState { pos: l + 1, ..s };
    let cond = parse_optional((n - 4) as nat, s2, c, TokenKind::Semicolon);
    let update = parse_optional((n - 4) as nat, s3, u, TokenKind::RParen);
    let body = parse_form((n - 4) as nat, s4, *a);
    assert((PState { pos: k, ..s }).next() == s3);
    assert((PState { pos: l, ..s }).next() == s4);
    assert((grammar((n - 3) as nat).for_tail)(s2) == (past(s, f), cond, update, body));
    if let Some(t) = v {
        lemma_start(s.toks, s1.pos, t, true);
        let h = PState { no_in: true, ..s1 };
        lemma_ends(after(h, t));
        let e = parse_whole((n - 3) as nat, h, t);
        lemma_tokens(s1.cur().kind);
        lemma_operator(KindView::Plain(TokenKind::Semicolon));
        assert((PState { no_in: s1.no_in, ..after(h, t) }) == (PState { pos: j, ..s }));
        assert((PState { pos: j, ..s }).next() == s2);
    } else {
        assert(s1.next() == s2);
    }
    (grammar(n).statement)(s).1
}

/// The statements from the `k`-th on are read; `acc` holds those before it.
proof fn parse_forms(n: nat, s: PState, fs: Seq<Form>, k: nat, acc: Seq<StmtView>) -> (xs: Seq<
    StmtView,
>)
    requires
        k <= fs.len(),
        acc.len() == k,
        0 <= s.pos,
        !s.no_in,
        s.pos + spans_of(fs, fs.len()) + 1 < s.toks.len(),
        all_spelt(s.toks, s.pos, fs, fs.len()),
        all_good(fs, fs.len()),
        plain_at(s.toks, s.pos + spans_of(fs, fs.len()), TokenKind::RBrace),
        all_say(s.toks, s.pos, acc, fs, k),
        n >= 16 * (bulks(fs, fs.len()) - bulks(fs, k)) + 15,
    ensures
        xs.len() == fs.len(),
        all_say(s.toks, s.pos, xs, fs, fs.len()),
        (grammar(n).stmt_list)(PState { pos: s.pos + spans_of(fs, k), ..s }, false, acc) == (
            PState { pos: s.pos + spans_of(fs, fs.len()), ..s },
            xs,
        ),
    decreases bulks(fs, fs.len()), fs.len() - k,
{
    lemma_bulks(fs, k, fs.len());
    lemma_rules(n);
    reveal(stmt_list);
    let here = PState { pos: s.pos + spans_of(fs, k), ..s };
    if k == fs.len() {
        acc
    } else {
        let m = k + 1;
        lemma_form_at(s.toks, s.pos, fs, m, fs.len());
        let f = fs[k as int];
        assert(fs[m - 1] == f);
        assert(spans_of(fs, m) == spans_of(fs, k) + span_of(f));
        assert(bulks(fs, m) == bulks(fs, k) + bulk(f) + 1);
        lemma_first_of(s.toks, here.pos, f);
        if m < fs.len() {
            lemma_form_at(s.toks, s.pos, fs, m + 1, fs.len());
            lemma_first_of(s.toks, past(here, f).pos, fs[m as int]);
        }
        let x = parse_form((n - 1) as nat, here, f);
        let next = acc.push(x);
        lemma_all_say_same(s.toks, s.pos, acc, next, fs, k);
        assert(next[m - 1] == x);
        parse_forms((n - 1) as nat, s, fs, m, next)
    }
}

proof fn lemma_bulks(fs: Seq<Form>, k: nat, n: nat)
    requires
        k <= n <= fs.len(),
    ensures
        bulks(fs, k) <= bulks(fs, n),
    decreases n,
{
    if k < n {
        lemma_bulks(fs, k, (n - 1) as nat);
    }
}

proof fn lemma_all_say_same(
    toks: Seq<TokenView>,
    i: int,
    a: Seq<StmtView>,
    b: Seq<StmtView>,
    fs: Seq<Form>,
    k: nat,
)
    requires
        k <= a.len() <= b.len(),
        forall|j: int| 0 <= j < k ==> a[j] == b[j],
        all_say(toks, i, a, fs, k),
    ensures
        all_say(toks, i, b, fs, k),
    decreases k,
{
    if 0 < k <= fs.len() {
        lemma_all_say_same(toks, i, a, b, fs, (k - 1) as nat);
    }
}

proof fn lemma_form_at(toks: Seq<TokenView>, i: int, fs: Seq<Form>, n: nat, m: nat)
    requires
        0 < n <= m <= fs.len(),
        all_spelt(toks, i, fs, m),
        all_good(fs, m),
    ensures
        spelt(toks, i + spans_of(fs, (n - 1) as nat), fs[n - 1]),
        good(fs[n - 1]),
        spans_of(fs, n) <= spans_of(fs, m),
        bulks(fs, n) <= bulks(fs, m),
    decreases m,
{
    if n < m {
        lemma_form_at(toks, i, fs, n, (m - 1) as nat);
    }
}

/// A statement is not empty, and its first token neither ends a list of statements
/// nor is an `else`.
proof fn lemma_first_of(toks: Seq<TokenView>, i: int, f: Form)
    requires
        spelt(toks, i, f),
        good(f),
    ensures
        !plain_at(toks, i, TokenKind::RBrace),
        !plain_at(toks, i, TokenKind::Eof),
        !plain_at(toks, i, TokenKind::Else),
        span_of(f) > 0,
{
    if let Form::Expr(t) = f {
        lemma_start(toks, i, t, false);
        lemma_tokens(toks[i].kind);
    }
}

/// A statement is read as it is written: the parts of its head in their order, its
/// body, and an `else` with the `if` that it is written with. Nothing else is
/// consumed, and nothing reported.
pub proof fn law_statements_are_read_as_written(n: nat, s: PState, f: Form)
    requires
        placed(s, f),
        n >= 16 * bulk(f) + 14,
    ensures
        ({
            let (s1, x) = (grammar(n).statement)(s);
            s1 == past(s, f) && says(s.toks, s.pos, x, f)
        }),
{
    let x = parse_form(n, s, f);
}

} // verus!
