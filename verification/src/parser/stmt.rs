//! Statements.

use vstd::prelude::*;

use crate::ast::nodes::{Binding, Block, Expr, Stmt, StmtKind, VarDecl};
use crate::ast::view::{
    binding_node, binding_view, bindings_none, bindings_push, bindings_unfold, bindings_view,
    block_node, block_view, expr_view, group_spans, stmt_node, stmt_view, stmts_none, stmts_push,
    stmts_view, var_decl_node, var_decl_view,
};
use crate::diagnostics::UNSUPPORTED_SYNTAX;
use crate::lexer::token::{KindView, TokenKind};
use crate::parser::expr::enough;
use crate::parser::func::end_of;
use crate::parser::grammar::{
    binding, binding_list, block, block_rest, ends_stmts, expression_statement, function_statement,
    grammar, lemma_rules, paren_expression, recover, restarts, statement, stmt_list, unstick,
    var_declaration, var_statement,
};
use crate::parser::state::{lemma_next, PState, Parser};
use crate::span::Span;

verus! {

broadcast use group_spans;

impl Parser {
    fn restarts_here(&self) -> (r: bool)
        requires
            self.ok(),
        ensures
            r == restarts(self.st().cur().kind),
    {
        reveal(restarts);
        match self.kind() {
            TokenKind::Var
            | TokenKind::Const
            | TokenKind::Function
            | TokenKind::If
            | TokenKind::While
            | TokenKind::Do
            | TokenKind::For
            | TokenKind::Switch
            | TokenKind::Break
            | TokenKind::Continue
            | TokenKind::Return
            | TokenKind::Throw
            | TokenKind::Try
            | TokenKind::LBrace => true,
            _ => false,
        }
    }

    /// Skips to the next place where a statement may start.
    pub fn recover_to_statement_boundary(&mut self)
        requires
            old(self).ok(),
        ensures
            final(self).st() == recover(old(self).st()),
            old(self).st().to(final(self).st()),
    {
        loop
            invariant
                self.ok(),
                old(self).st().to(self.st()),
                recover(old(self).st()) == recover(self.st()),
            decreases self.st().left(),
        {
            if self.at(&TokenKind::Eof) || self.at(&TokenKind::Semicolon) || self.at(
                &TokenKind::RBrace,
            ) {
                self.eat(&TokenKind::Semicolon);
                return;
            }
            if self.restarts_here() {
                return;
            }
            proof {
                lemma_next(self.st());
            }
            self.advance();
        }
    }

    fn at_stmts_end(&self, in_case: bool) -> (r: bool)
        requires
            self.ok(),
        ensures
            r == ends_stmts(self.st(), in_case),
    {
        self.at(&TokenKind::RBrace) || self.at(&TokenKind::Eof) || (in_case && (self.at(
            &TokenKind::Case,
        ) || self.at(&TokenKind::Default)))
    }

    /// Statements up to the end of the block or clause.
    pub fn stmt_list(&mut self, in_case: bool, Ghost(n): Ghost<nat>) -> (r: Vec<Stmt>)
        requires
            old(self).ok(),
            enough(n, old(self).st(), 37),
        ensures
            (final(self).st(), stmts_view(r@)) == (grammar(n).stmt_list)(
                old(self).st(),
                in_case,
                Seq::empty(),
            ),
            old(self).st().to(final(self).st()),
        decreases n, 1nat,
    {
        let mut stmts: Vec<Stmt> = Vec::new();
        proof { stmts_none(); }
        let ghost mut m = n;
        loop
            invariant
                self.ok(),
                0 < m <= n,
                enough(m, self.st(), 37),
                old(self).st().to(self.st()),
                (grammar(n).stmt_list)(old(self).st(), in_case, Seq::empty()) == (
                grammar(m).stmt_list)(self.st(), in_case, stmts_view(stmts@)),
            decreases m,
        {
            proof {
                lemma_rules(m);
            }
            reveal(stmt_list);
            if self.at_stmts_end(in_case) {
                return stmts;
            }
            let before: usize = self.pos;
            let ghost b = self.st();
            let s = self.statement(Ghost((m - 1) as nat));
            proof { stmts_push(stmts@, s); }
            stmts.push(s);
            self.unstick(before, Ghost(b));
            proof {
                m = (m - 1) as nat;
            }
        }
    }

    /// Skips a token if nothing was consumed since `before`.
    pub fn unstick(&mut self, before: usize, Ghost(b): Ghost<PState>)
        requires
            old(self).ok(),
            b.ok(),
            !b.at(TokenKind::Eof),
            b.pos == before,
            b.to(old(self).st()),
        ensures
            final(self).st() == unstick(b, old(self).st()),
            b.to(final(self).st()),
            final(self).st().left() < b.left(),
    {
        if self.pos == before {
            proof {
                lemma_next(self.st());
                if self.st().at(TokenKind::Eof) {
                    assert(b.pos < b.toks.len() - 1) by {
                        if b.pos == b.toks.len() - 1 {
                            assert(b.toks[b.pos] == b.toks.last());
                        }
                    }
                    assert(self.st().toks.drop_last()[self.st().pos] == self.st().cur());
                }
            }
            self.advance();
        }
    }

    /// A block after its opening brace.
    fn block_rest(&mut self, start: Span, Ghost(n): Ghost<nat>) -> (r: Block)
        requires
            old(self).ok(),
            enough(n, old(self).st(), 38),
        ensures
            (final(self).st(), block_view(r)) == (grammar(n).block_rest)(old(self).st(), start),
            old(self).st().to(final(self).st()),
        decreases n, 1nat,
    {
        proof {
            lemma_rules(n);
        }
        reveal(block_rest);
        let stmts = self.stmt_list(false, Ghost((n - 1) as nat));
        let end = self.expect(&TokenKind::RBrace);
        block_node(stmts, start.to(end))
    }

    pub fn block(&mut self, Ghost(n): Ghost<nat>) -> (r: Block)
        requires
            old(self).ok(),
            enough(n, old(self).st(), 39),
        ensures
            (final(self).st(), block_view(r)) == (grammar(n).block)(old(self).st()),
            old(self).st().to(final(self).st()),
        decreases n, 1nat,
    {
        proof {
            lemma_rules(n);
        }
        reveal(block);
        let start = self.expect(&TokenKind::LBrace);
        self.block_rest(start, Ghost((n - 1) as nat))
    }

    pub fn paren_expression(&mut self, Ghost(n): Ghost<nat>) -> (r: Expr)
        requires
            old(self).ok(),
            enough(n, old(self).st(), 14),
        ensures
            (final(self).st(), expr_view(r)) == (grammar(n).paren_expression)(old(self).st()),
            old(self).st().to(final(self).st()),
        decreases n, 1nat,
    {
        proof {
            lemma_rules(n);
        }
        reveal(paren_expression);
        self.expect(&TokenKind::LParen);
        let expr = self.expression(Ghost((n - 1) as nat));
        self.expect(&TokenKind::RParen);
        expr
    }

    pub fn statement(&mut self, Ghost(n): Ghost<nat>) -> (r: Stmt)
        requires
            old(self).ok(),
            enough(n, old(self).st(), 36),
        ensures
            (final(self).st(), stmt_view(r)) == (grammar(n).statement)(old(self).st()),
            old(self).st().to(final(self).st()),
        decreases n, 1nat,
    {
        proof {
            lemma_rules(n);
        }
        reveal(statement);
        reveal(PState::ident);
        match self.kind() {
            TokenKind::LBrace => {
                let start = self.advance();
                let block = self.block_rest(start, Ghost((n - 1) as nat));
                let span = block.span;
                stmt_node(StmtKind::Block(block), span)
            },
            TokenKind::Semicolon => {
                let span = self.advance();
                stmt_node(StmtKind::Empty, span)
            },
            TokenKind::Var | TokenKind::Const => self.var_statement(Ghost((n - 1) as nat)),
            TokenKind::Function => self.function_declaration(Ghost((n - 1) as nat)),
            TokenKind::Package
            | TokenKind::Import
            | TokenKind::Namespace
            | TokenKind::Use
            | TokenKind::Class
            | TokenKind::Interface
            | TokenKind::Public
            | TokenKind::Private
            | TokenKind::Protected
            | TokenKind::Internal
            | TokenKind::Final
            | TokenKind::Dynamic
            | TokenKind::Native
            | TokenKind::Override
            | TokenKind::Static => self.declaration(Ghost((n - 1) as nat)),
            TokenKind::If
            | TokenKind::While
            | TokenKind::Do
            | TokenKind::For
            | TokenKind::Switch
            | TokenKind::Break
            | TokenKind::Continue
            | TokenKind::Return
            | TokenKind::Throw
            | TokenKind::Try => self.control_statement(Ghost((n - 1) as nat)),
            TokenKind::Goto => {
                let span = self.advance();
                self.error(
                    UNSUPPORTED_SYNTAX,
                    "`goto` is a reserved word with no meaning in AS3",
                    span,
                );
                self.recover_to_statement_boundary();
                stmt_node(StmtKind::Empty, span)
            },
            TokenKind::Ident(_) => {
                if self.next_is_colon() {
                    self.labeled_statement(Ghost(n))
                } else {
                    self.expression_statement(Ghost((n - 1) as nat))
                }
            },
            _ => self.expression_statement(Ghost((n - 1) as nat)),
        }
    }

    fn next_is_colon(&self) -> (r: bool)
        requires
            self.ok(),
        ensures
            r == (self.st().ahead(1) == KindView::Plain(TokenKind::Colon)),
    {
        self.peek_kind().is_kind(&TokenKind::Colon)
    }

    fn labeled_statement(&mut self, Ghost(n): Ghost<nat>) -> (r: Stmt)
        requires
            old(self).ok(),
            old(self).st().at_ident(),
            old(self).st().ahead(1) == KindView::Plain(TokenKind::Colon),
            enough(n, old(self).st(), 36),
        ensures
            (final(self).st(), stmt_view(r)) == (grammar(n).statement)(old(self).st()),
            old(self).st().to(final(self).st()),
        decreases n, 0nat,
    {
        proof {
            lemma_rules(n);
        }
        reveal(statement);
        reveal(PState::ident);
        let (label, label_span) = self.expect_ident();
        self.advance();
        let body = self.statement(Ghost((n - 1) as nat));
        let span = label_span.to(body.span);
        stmt_node(StmtKind::Labeled { label, body: Box::new(body) }, span)
    }

    fn expression_statement(&mut self, Ghost(n): Ghost<nat>) -> (r: Stmt)
        requires
            old(self).ok(),
            enough(n, old(self).st(), 35),
        ensures
            (final(self).st(), stmt_view(r)) == (grammar(n).expression_statement)(old(self).st()),
            old(self).st().to(final(self).st()),
        decreases n, 1nat,
    {
        proof {
            lemma_rules(n);
        }
        reveal(expression_statement);
        let expr = self.expression(Ghost((n - 1) as nat));
        self.semicolon();
        let span = expr.span;
        stmt_node(StmtKind::Expr(expr), span)
    }

    // --- variables ------------------------------------------------------------------------

    fn binding(&mut self, Ghost(n): Ghost<nat>) -> (r: Binding)
        requires
            old(self).ok(),
            enough(n, old(self).st(), 30),
        ensures
            (final(self).st(), binding_view(r)) == (grammar(n).binding)(old(self).st()),
            old(self).st().to(final(self).st()),
        decreases n, 1nat,
    {
        proof {
            lemma_rules(n);
        }
        reveal(binding);
        let (name, name_span) = self.expect_ident();
        let ty = self.annotation(Ghost((n - 1) as nat));
        let init = self.initializer(Ghost((n - 1) as nat));
        let end = end_of(&init, &ty, name_span);
        binding_node(name, ty, init, name_span.to(end))
    }

    fn binding_list(&mut self, Ghost(n): Ghost<nat>) -> (r: Vec<Binding>)
        requires
            old(self).ok(),
            enough(n, old(self).st(), 31),
        ensures
            (final(self).st(), bindings_view(r@)) == (grammar(n).binding_list)(
                old(self).st(),
                Seq::empty(),
            ),
            r@.len() > 0,
            old(self).st().to(final(self).st()),
        decreases n, 1nat,
    {
        let mut list: Vec<Binding> = Vec::new();
        proof { bindings_none(); }
        let ghost mut m = n;
        loop
            invariant
                self.ok(),
                0 < m <= n,
                enough(m, self.st(), 31),
                old(self).st().to(self.st()),
                (grammar(n).binding_list)(old(self).st(), Seq::empty()) == (
                grammar(m).binding_list)(self.st(), bindings_view(list@)),
            decreases m,
        {
            proof {
                lemma_rules(m);
            }
            reveal(binding_list);
            let b = self.binding(Ghost((m - 1) as nat));
            proof { bindings_push(list@, b); }
            list.push(b);
            if !self.eat(&TokenKind::Comma) {
                return list;
            }
            proof {
                m = (m - 1) as nat;
            }
        }
    }

    /// `var` or `const` and its bindings, without the semicolon.
    pub fn var_declaration(&mut self, Ghost(n): Ghost<nat>) -> (r: VarDecl)
        requires
            old(self).ok(),
            old(self).st().at(TokenKind::Var) || old(self).st().at(TokenKind::Const),
            enough(n, old(self).st(), 3),
        ensures
            (final(self).st(), var_decl_view(r)) == (grammar(n).var_declaration)(old(self).st()),
            old(self).st().to(final(self).st()),
            final(self).st().left() < old(self).st().left(),
        decreases n, 1nat,
    {
        proof {
            lemma_rules(n);
        }
        reveal(var_declaration);
        let is_const = self.at(&TokenKind::Const);
        let keyword = self.advance();
        let bindings = self.binding_list(Ghost((n - 1) as nat));
        proof {
            bindings_unfold(bindings@);
        }
        let span = keyword.to(bindings[bindings.len() - 1].span);
        var_decl_node(is_const, bindings, span)
    }

    pub fn var_statement(&mut self, Ghost(n): Ghost<nat>) -> (r: Stmt)
        requires
            old(self).ok(),
            old(self).st().at(TokenKind::Var) || old(self).st().at(TokenKind::Const),
            enough(n, old(self).st(), 4),
        ensures
            (final(self).st(), stmt_view(r)) == (grammar(n).var_statement)(old(self).st()),
            old(self).st().to(final(self).st()),
        decreases n, 1nat,
    {
        proof {
            lemma_rules(n);
        }
        reveal(var_statement);
        let decl = self.var_declaration(Ghost((n - 1) as nat));
        self.semicolon();
        let span = decl.span;
        stmt_node(StmtKind::VarDecl(decl), span)
    }

    pub fn function_declaration(&mut self, Ghost(n): Ghost<nat>) -> (r: Stmt)
        requires
            old(self).ok(),
            old(self).st().at(TokenKind::Function),
            enough(n, old(self).st(), 3),
        ensures
            (final(self).st(), stmt_view(r)) == (grammar(n).function_statement)(old(self).st()),
            old(self).st().to(final(self).st()),
        decreases n, 1nat,
    {
        proof {
            lemma_rules(n);
        }
        reveal(function_statement);
        let keyword = self.advance();
        let decl = self.function_after_keyword(keyword, true, Ghost((n - 1) as nat));
        let span = decl.span;
        stmt_node(StmtKind::Function(Box::new(decl)), span)
    }
}

} // verus!
