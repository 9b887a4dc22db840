//! Control flow.

use vstd::prelude::*;

use crate::ast::nodes::{CatchClause, Expr, Stmt, StmtKind, SwitchCase, VarDecl};
use crate::ast::view::{
    bindings_unfold, cases_none, cases_push, cases_view, catch_clause_node, catches_none,
    catches_push, catches_unfold, catches_view, expr_view, for_in_target_expr,
    for_in_target_var_decl, for_init_expr, for_init_var_decl, group_spans, opt_expr_view, stmt_node,
    stmt_view, stmts_unfold, switch_case_node, switch_case_view, var_decl_unfold, var_decl_view,
};
use crate::diagnostics::{FOR_EACH_REQUIRES_IN, UNEXPECTED_TOKEN};
use crate::lexer::token::{kind_number, TokenKind};
use crate::parser::expr::enough;
use crate::parser::grammar::{
    break_or_continue, case_body, case_list, catch_list, control, do_while_statement, each_needs_in,
    for_expr_rest, for_in_tail, for_statement, for_tail, for_var_rest, grammar, if_statement,
    lemma_rules, optional_expression, return_statement, switch_statement, throw_statement,
    try_statement, unstick, while_statement,
};
use crate::parser::state::{PState, Parser};
use crate::span::Span;

verus! {

broadcast use group_spans;

impl Parser {
    pub fn control_statement(&mut self, Ghost(n): Ghost<nat>) -> (r: Stmt)
        requires
            old(self).ok(),
            ({
                let s = old(self).st();
                s.at(TokenKind::If) || s.at(TokenKind::While) || s.at(TokenKind::Do) || s.at(
                    TokenKind::For,
                ) || s.at(TokenKind::Switch) || s.at(TokenKind::Break) || s.at(
                    TokenKind::Continue,
                ) || s.at(TokenKind::Return) || s.at(TokenKind::Throw) || s.at(TokenKind::Try)
            }),
            enough(n, old(self).st(), 35),
        ensures
            (final(self).st(), stmt_view(r)) == (grammar(n).control)(old(self).st()),
            old(self).st().to(final(self).st()),
        decreases n, 1nat,
    {
        proof {
            lemma_rules(n);
        }
        reveal(control);
        match self.kind() {
            TokenKind::If => self.if_statement(Ghost((n - 1) as nat)),
            TokenKind::While => self.while_statement(Ghost((n - 1) as nat)),
            TokenKind::Do => self.do_while_statement(Ghost((n - 1) as nat)),
            TokenKind::For => self.for_statement(Ghost((n - 1) as nat)),
            TokenKind::Switch => self.switch_statement(Ghost((n - 1) as nat)),
            TokenKind::Break | TokenKind::Continue => self.break_or_continue(),
            TokenKind::Return => self.return_statement(Ghost((n - 1) as nat)),
            TokenKind::Throw => self.throw_statement(Ghost((n - 1) as nat)),
            _ => self.try_statement(Ghost((n - 1) as nat)),
        }
    }

    fn if_statement(&mut self, Ghost(n): Ghost<nat>) -> (r: Stmt)
        requires
            old(self).ok(),
            old(self).st().at(TokenKind::If),
            enough(n, old(self).st(), 3),
        ensures
            (final(self).st(), stmt_view(r)) == (grammar(n).if_statement)(old(self).st()),
            old(self).st().to(final(self).st()),
        decreases n, 1nat,
    {
        proof {
            lemma_rules(n);
        }
        reveal(if_statement);
        let start = self.advance();
        let cond = self.paren_expression(Ghost((n - 1) as nat));
        let then_branch = self.statement(Ghost((n - 1) as nat));
        if self.eat(&TokenKind::Else) {
            let other = self.statement(Ghost((n - 1) as nat));
            let span = start.to(other.span);
            stmt_node(StmtKind::If {
                    cond,
                    then_branch: Box::new(then_branch),
                    else_branch: Some(Box::new(other)),
                }, span)
        } else {
            let span = start.to(then_branch.span);
            stmt_node(StmtKind::If {
                    cond,
                    then_branch: Box::new(then_branch),
                    else_branch: None,
                }, span)
        }
    }

    fn while_statement(&mut self, Ghost(n): Ghost<nat>) -> (r: Stmt)
        requires
            old(self).ok(),
            old(self).st().at(TokenKind::While),
            enough(n, old(self).st(), 3),
        ensures
            (final(self).st(), stmt_view(r)) == (grammar(n).while_statement)(old(self).st()),
            old(self).st().to(final(self).st()),
        decreases n, 1nat,
    {
        proof {
            lemma_rules(n);
        }
        reveal(while_statement);
        let start = self.advance();
        let cond = self.paren_expression(Ghost((n - 1) as nat));
        let body = self.statement(Ghost((n - 1) as nat));
        let span = start.to(body.span);
        stmt_node(StmtKind::While { cond, body: Box::new(body) }, span)
    }

    fn do_while_statement(&mut self, Ghost(n): Ghost<nat>) -> (r: Stmt)
        requires
            old(self).ok(),
            old(self).st().at(TokenKind::Do),
            enough(n, old(self).st(), 3),
        ensures
            (final(self).st(), stmt_view(r)) == (grammar(n).do_while_statement)(old(self).st()),
            old(self).st().to(final(self).st()),
        decreases n, 1nat,
    {
        proof {
            lemma_rules(n);
        }
        reveal(do_while_statement);
        let start = self.advance();
        let body = self.statement(Ghost((n - 1) as nat));
        self.expect(&TokenKind::While);
        let cond = self.paren_expression(Ghost((n - 1) as nat));
        self.semicolon();
        let span = start.to(cond.span);
        stmt_node(StmtKind::DoWhile { body: Box::new(body), cond }, span)
    }

    /// `for (init; cond; update)`, `for (x in obj)` and `for each (x in obj)`.
    fn for_statement(&mut self, Ghost(n): Ghost<nat>) -> (r: Stmt)
        requires
            old(self).ok(),
            old(self).st().at(TokenKind::For),
            enough(n, old(self).st(), 3),
        ensures
            (final(self).st(), stmt_view(r)) == (grammar(n).for_statement)(old(self).st()),
            old(self).st().to(final(self).st()),
        decreases n, 1nat,
    {
        proof {
            lemma_rules(n);
        }
        reveal(for_statement);
        let start = self.advance();
        let is_each = self.at_contextual("each");
        if is_each {
            self.advance();
        }
        self.expect(&TokenKind::LParen);
        if !is_each && self.at(&TokenKind::Semicolon) {
            self.advance();
            let (cond, update, body) = self.c_style_for_tail(Ghost((n - 1) as nat));
            let span = start.to(body.span);
            return stmt_node(
                StmtKind::For { init: None, cond, update, body: Box::new(body) },
                span,
            );
        }
        // In the head `in` separates the variable from the object.
        let saved = self.no_in;
        self.set_no_in(true);
        if self.at(&TokenKind::Var) || self.at(&TokenKind::Const) {
            let decl = self.var_declaration(Ghost((n - 1) as nat));
            self.set_no_in(saved);
            self.for_var_rest(decl, start, is_each, Ghost((n - 1) as nat))
        } else {
            let expr = self.expression(Ghost((n - 1) as nat));
            self.set_no_in(saved);
            self.for_expr_rest(expr, start, is_each, Ghost((n - 1) as nat))
        }
    }

    fn set_no_in(&mut self, no_in: bool)
        requires
            old(self).ok(),
        ensures
            final(self).st() == (PState { no_in, ..old(self).st() }),
            old(self).st().to(final(self).st()),
    {
        self.no_in = no_in;
    }

    fn for_var_rest(
        &mut self,
        decl: VarDecl,
        start: Span,
        is_each: bool,
        Ghost(n): Ghost<nat>,
    ) -> (r: Stmt)
        requires
            old(self).ok(),
            enough(n, old(self).st(), 42),
        ensures
            (final(self).st(), stmt_view(r)) == for_var_rest(
                grammar(n),
                old(self).st(),
                var_decl_view(decl),
                start,
                is_each,
            ),
            old(self).st().to(final(self).st()),
        decreases n, 2nat,
    {
        reveal(for_var_rest);
        if self.eat(&TokenKind::In) {
            proof {
                var_decl_unfold(decl);
                bindings_unfold(decl.bindings@);
            }
            if decl.bindings.len() > 1 {
                self.error(
                    UNEXPECTED_TOKEN,
                    "`for..in` allows exactly one loop variable",
                    decl.span,
                );
            }
            let (object, body) = self.for_in_tail(Ghost(n));
            let span = start.to(body.span);
            let target = for_in_target_var_decl(decl);
            stmt_node(StmtKind::ForIn { is_each, target, object, body: Box::new(body) }, span)
        } else {
            self.each_needs_in(is_each, start);
            self.expect(&TokenKind::Semicolon);
            let (cond, update, body) = self.c_style_for_tail(Ghost(n));
            let span = start.to(body.span);
            let init = Some(Box::new(for_init_var_decl(decl)));
            stmt_node(StmtKind::For { init, cond, update, body: Box::new(body) }, span)
        }
    }

    fn for_expr_rest(
        &mut self,
        expr: Expr,
        start: Span,
        is_each: bool,
        Ghost(n): Ghost<nat>,
    ) -> (r: Stmt)
        requires
            old(self).ok(),
            enough(n, old(self).st(), 42),
        ensures
            (final(self).st(), stmt_view(r)) == for_expr_rest(
                grammar(n),
                old(self).st(),
                expr_view(expr),
                start,
                is_each,
            ),
            old(self).st().to(final(self).st()),
        decreases n, 2nat,
    {
        reveal(for_expr_rest);
        if self.eat(&TokenKind::In) {
            self.check_assign_target(&expr);
            let (object, body) = self.for_in_tail(Ghost(n));
            let span = start.to(body.span);
            let target = for_in_target_expr(expr);
            stmt_node(StmtKind::ForIn { is_each, target, object, body: Box::new(body) }, span)
        } else {
            self.each_needs_in(is_each, start);
            self.expect(&TokenKind::Semicolon);
            let (cond, update, body) = self.c_style_for_tail(Ghost(n));
            let span = start.to(body.span);
            let init = Some(Box::new(for_init_expr(expr)));
            stmt_node(StmtKind::For { init, cond, update, body: Box::new(body) }, span)
        }
    }

    fn each_needs_in(&mut self, is_each: bool, start: Span)
        requires
            old(self).ok(),
        ensures
            final(self).st() == each_needs_in(old(self).st(), is_each, start),
            old(self).st().to(final(self).st()),
    {
        if is_each {
            self.error(FOR_EACH_REQUIRES_IN, "`for each` requires an `in` loop", start);
        }
    }

    /// An expression, unless the token that ends it stands here already.
    fn optional_expression(&mut self, end: &TokenKind, Ghost(n): Ghost<nat>) -> (r: Option<Expr>)
        requires
            old(self).ok(),
            kind_number(*end) != 0,
            enough(n, old(self).st(), 14),
        ensures
            (final(self).st(), opt_expr_view(r)) == (grammar(n).optional_expression)(
                old(self).st(),
                *end,
            ),
            old(self).st().to(final(self).st()),
        decreases n, 1nat,
    {
        proof {
            lemma_rules(n);
        }
        reveal(optional_expression);
        if self.at(end) {
            None
        } else {
            Some(self.expression(Ghost((n - 1) as nat)))
        }
    }

    /// `cond; update) body`.
    fn c_style_for_tail(&mut self, Ghost(n): Ghost<nat>) -> (r: (
        Option<Expr>,
        Option<Expr>,
        Stmt,
    ))
        requires
            old(self).ok(),
            enough(n, old(self).st(), 40),
        ensures
            (final(self).st(), opt_expr_view(r.0), opt_expr_view(r.1), stmt_view(r.2)) == (
            grammar(n).for_tail)(old(self).st()),
            old(self).st().to(final(self).st()),
        decreases n, 1nat,
    {
        proof {
            lemma_rules(n);
        }
        reveal(for_tail);
        let cond = self.optional_expression(&TokenKind::Semicolon, Ghost((n - 1) as nat));
        self.expect(&TokenKind::Semicolon);
        let update = self.optional_expression(&TokenKind::RParen, Ghost((n - 1) as nat));
        self.expect(&TokenKind::RParen);
        let body = self.statement(Ghost((n - 1) as nat));
        (cond, update, body)
    }

    /// `object) body`.
    fn for_in_tail(&mut self, Ghost(n): Ghost<nat>) -> (r: (Expr, Stmt))
        requires
            old(self).ok(),
            enough(n, old(self).st(), 40),
        ensures
            (final(self).st(), expr_view(r.0), stmt_view(r.1)) == (grammar(n).for_in_tail)(
                old(self).st(),
            ),
            old(self).st().to(final(self).st()),
        decreases n, 1nat,
    {
        proof {
            lemma_rules(n);
        }
        reveal(for_in_tail);
        let object = self.expression(Ghost((n - 1) as nat));
        self.expect(&TokenKind::RParen);
        let body = self.statement(Ghost((n - 1) as nat));
        (object, body)
    }

    fn switch_statement(&mut self, Ghost(n): Ghost<nat>) -> (r: Stmt)
        requires
            old(self).ok(),
            old(self).st().at(TokenKind::Switch),
            enough(n, old(self).st(), 3),
        ensures
            (final(self).st(), stmt_view(r)) == (grammar(n).switch_statement)(old(self).st()),
            old(self).st().to(final(self).st()),
        decreases n, 1nat,
    {
        proof {
            lemma_rules(n);
        }
        reveal(switch_statement);
        let start = self.advance();
        let scrutinee = self.paren_expression(Ghost((n - 1) as nat));
        self.expect(&TokenKind::LBrace);
        let cases = self.case_list(Ghost((n - 1) as nat));
        let end = self.expect(&TokenKind::RBrace);
        stmt_node(StmtKind::Switch { scrutinee, cases }, start.to(end))
    }

    /// The clauses of a `switch`.
    fn case_list(&mut self, Ghost(n): Ghost<nat>) -> (r: Vec<SwitchCase>)
        requires
            old(self).ok(),
            enough(n, old(self).st(), 40),
        ensures
            (final(self).st(), cases_view(r@)) == (grammar(n).case_list)(
                old(self).st(),
                false,
                Seq::empty(),
            ),
            old(self).st().to(final(self).st()),
        decreases n, 1nat,
    {
        let mut cases: Vec<SwitchCase> = Vec::new();
        proof { cases_none(); }
        let mut seen_default = false;
        let ghost mut m = n;
        loop
            invariant
                self.ok(),
                0 < m <= n,
                enough(m, self.st(), 40),
                old(self).st().to(self.st()),
                (grammar(n).case_list)(old(self).st(), false, Seq::empty()) == (
                grammar(m).case_list)(self.st(), seen_default, cases_view(cases@)),
            decreases m,
        {
            proof {
                lemma_rules(m);
            }
            reveal(case_list);
            if self.at(&TokenKind::RBrace) || self.at(&TokenKind::Eof) {
                return cases;
            }
            let case_start = self.span();
            if self.eat(&TokenKind::Case) {
                let test = self.expression(Ghost((m - 1) as nat));
                self.expect(&TokenKind::Colon);
                let c = self.case_body(case_start, Some(test), Ghost((m - 1) as nat));
                proof { cases_push(cases@, c); }
                cases.push(c);
            } else if self.at(&TokenKind::Default) {
                let span = self.advance();
                self.expect(&TokenKind::Colon);
                if seen_default {
                    self.error(
                        UNEXPECTED_TOKEN,
                        "duplicate `default` clause in `switch`",
                        span,
                    );
                }
                seen_default = true;
                let c = self.case_body(case_start, None, Ghost((m - 1) as nat));
                proof { cases_push(cases@, c); }
                cases.push(c);
            } else {
                let before: usize = self.pos;
                let ghost b = self.st();
                self.error_found("expected `case` or `default`, found ");
                self.recover_to_statement_boundary();
                self.unstick(before, Ghost(b));
            }
            proof {
                m = (m - 1) as nat;
            }
        }
    }

    fn case_body(&mut self, start: Span, test: Option<Expr>, Ghost(n): Ghost<nat>) -> (r:
        SwitchCase)
        requires
            old(self).ok(),
            enough(n, old(self).st(), 38),
        ensures
            (final(self).st(), switch_case_view(r)) == (grammar(n).case_body)(
                old(self).st(),
                start,
                opt_expr_view(test),
            ),
            old(self).st().to(final(self).st()),
        decreases n, 1nat,
    {
        proof {
            lemma_rules(n);
        }
        reveal(case_body);
        let body = self.stmt_list(true, Ghost((n - 1) as nat));
        proof {
            stmts_unfold(body@);
        }
        let end = if body.len() > 0 {
            body[body.len() - 1].span
        } else {
            start
        };
        switch_case_node(test, body, start.to(end))
    }

    fn break_or_continue(&mut self) -> (r: Stmt)
        requires
            old(self).ok(),
            old(self).st().at(TokenKind::Break) || old(self).st().at(TokenKind::Continue),
        ensures
            (final(self).st(), stmt_view(r)) == break_or_continue(old(self).st()),
            old(self).st().to(final(self).st()),
    {
        reveal(PState::ident);
        let is_break = self.at(&TokenKind::Break);
        let span = self.advance();
        let label = if self.no_newline() && self.at_ident() {
            let (name, _) = self.expect_ident();
            Some(name)
        } else {
            None
        };
        self.semicolon();
        let kind = if is_break {
            StmtKind::Break { label }
        } else {
            StmtKind::Continue { label }
        };
        stmt_node(kind, span)
    }

    fn return_statement(&mut self, Ghost(n): Ghost<nat>) -> (r: Stmt)
        requires
            old(self).ok(),
            old(self).st().at(TokenKind::Return),
            enough(n, old(self).st(), 3),
        ensures
            (final(self).st(), stmt_view(r)) == (grammar(n).return_statement)(old(self).st()),
            old(self).st().to(final(self).st()),
        decreases n, 1nat,
    {
        proof {
            lemma_rules(n);
        }
        reveal(return_statement);
        let start = self.advance();
        if self.no_newline() {
            let value = self.expression(Ghost((n - 1) as nat));
            self.semicolon();
            let span = start.to(value.span);
            stmt_node(StmtKind::Return { value: Some(value) }, span)
        } else {
            self.semicolon();
            stmt_node(StmtKind::Return { value: None }, start.to(start))
        }
    }

    fn throw_statement(&mut self, Ghost(n): Ghost<nat>) -> (r: Stmt)
        requires
            old(self).ok(),
            old(self).st().at(TokenKind::Throw),
            enough(n, old(self).st(), 3),
        ensures
            (final(self).st(), stmt_view(r)) == (grammar(n).throw_statement)(old(self).st()),
            old(self).st().to(final(self).st()),
        decreases n, 1nat,
    {
        proof {
            lemma_rules(n);
        }
        reveal(throw_statement);
        let start = self.advance();
        let value = self.expression(Ghost((n - 1) as nat));
        self.semicolon();
        let span = start.to(value.span);
        stmt_node(StmtKind::Throw { value }, span)
    }

    fn catch_list(&mut self, Ghost(n): Ghost<nat>) -> (r: Vec<CatchClause>)
        requires
            old(self).ok(),
            enough(n, old(self).st(), 3),
        ensures
            (final(self).st(), catches_view(r@)) == (grammar(n).catch_list)(
                old(self).st(),
                Seq::empty(),
            ),
            old(self).st().to(final(self).st()),
        decreases n, 1nat,
    {
        let mut catches: Vec<CatchClause> = Vec::new();
        proof { catches_none(); }
        let ghost mut m = n;
        loop
            invariant
                self.ok(),
                0 < m <= n,
                enough(m, self.st(), 3),
                old(self).st().to(self.st()),
                (grammar(n).catch_list)(old(self).st(), Seq::empty()) == (grammar(m).catch_list)(
                    self.st(),
                    catches_view(catches@),
                ),
            decreases m,
        {
            proof {
                lemma_rules(m);
            }
            reveal(catch_list);
            if !self.at(&TokenKind::Catch) {
                return catches;
            }
            let start = self.advance();
            self.expect(&TokenKind::LParen);
            let (name, _) = self.expect_ident();
            let ty = self.annotation(Ghost((m - 1) as nat));
            self.expect(&TokenKind::RParen);
            let body = self.block(Ghost((m - 1) as nat));
            let span = start.to(body.span);
            let c = catch_clause_node(name, ty, body, span);
            proof { catches_push(catches@, c); }
            catches.push(c);
            proof {
                m = (m - 1) as nat;
            }
        }
    }

    fn try_statement(&mut self, Ghost(n): Ghost<nat>) -> (r: Stmt)
        requires
            old(self).ok(),
            old(self).st().at(TokenKind::Try),
            enough(n, old(self).st(), 3),
        ensures
            (final(self).st(), stmt_view(r)) == (grammar(n).try_statement)(old(self).st()),
            old(self).st().to(final(self).st()),
        decreases n, 1nat,
    {
        proof {
            lemma_rules(n);
        }
        reveal(try_statement);
        let start = self.advance();
        let block = self.block(Ghost((n - 1) as nat));
        let catches = self.catch_list(Ghost((n - 1) as nat));
        proof {
            catches_unfold(catches@);
        }
        if self.eat(&TokenKind::Finally) {
            let f = self.block(Ghost((n - 1) as nat));
            let span = start.to(f.span);
            return stmt_node(StmtKind::Try { block, catches, finally: Some(f) }, span);
        }
        let end = if catches.len() == 0 {
            self.error(
                UNEXPECTED_TOKEN,
                "`try` needs at least one `catch` or a `finally`",
                start,
            );
            block.span
        } else {
            catches[catches.len() - 1].span
        };
        stmt_node(StmtKind::Try { block, catches, finally: None }, start.to(end))
    }
}

} // verus!
