//! Functions.

use vstd::prelude::*;

use crate::ast::nodes::{Expr, FunctionDecl, Param, TypeRef};
use crate::ast::view::{
    function_decl_node, function_decl_view, group_spans, opt_expr_view, opt_type_view, param_node,
    param_view, params_none, params_push, params_view, texts,
};
use crate::diagnostics::UNEXPECTED_TOKEN;
use crate::lexer::token::TokenKind;
use crate::parser::expr::enough;
use crate::parser::grammar::{
    declared_end, function, grammar, initializer, lemma_rules, name_list, parameter,
    parameter_list, signature, type_params,
};
use crate::parser::state::{PState, Parser};
use crate::span::Span;

verus! {

broadcast use group_spans;

/// Where a declaration ends: with its initializer, else its type, else its
/// name.
pub fn end_of(init: &Option<Expr>, ty: &Option<TypeRef>, name_span: Span) -> (r: Span)
    ensures
        r == declared_end(opt_expr_view(*init), opt_type_view(*ty), name_span),
{
    match init {
        Some(e) => e.span,
        None => match ty {
            Some(t) => t.span,
            None => name_span,
        },
    }
}

impl Parser {
    /// Names with commas between them.
    fn name_list(&mut self) -> (r: Vec<String>)
        requires
            old(self).ok(),
        ensures
            (final(self).st(), texts(r@)) == name_list(old(self).st(), Seq::empty()),
            old(self).st().to(final(self).st()),
    {
        let mut names: Vec<String> = Vec::new();
        assert(texts(names@) =~= Seq::<Seq<char>>::empty());
        loop
            invariant
                self.ok(),
                old(self).st().to(self.st()),
                name_list(old(self).st(), Seq::empty()) == name_list(self.st(), texts(names@)),
            decreases self.st().left(),
        {
            reveal(PState::ident);
            reveal(PState::complain_found);
            reveal(PState::complain);
            let (name, _) = self.expect_ident();
            assert(texts(names@.push(name)) =~= texts(names@).push(name@));
            names.push(name);
            if !self.eat(&TokenKind::Comma) {
                return names;
            }
        }
    }

    /// `.<names>`, if it is there.
    pub fn type_params(&mut self) -> (r: Vec<String>)
        requires
            old(self).ok(),
        ensures
            (final(self).st(), texts(r@)) == type_params(old(self).st()),
            old(self).st().to(final(self).st()),
    {
        if self.eat(&TokenKind::LeftDotAngle) {
            let names = self.name_list();
            self.expect_type_close();
            names
        } else {
            let none: Vec<String> = Vec::new();
            assert(texts(none@) =~= Seq::<Seq<char>>::empty());
            none
        }
    }

    /// `= expression`, if there is a `=`.
    pub fn initializer(&mut self, Ghost(n): Ghost<nat>) -> (r: Option<Expr>)
        requires
            old(self).ok(),
            enough(n, old(self).st(), 3),
        ensures
            (final(self).st(), opt_expr_view(r)) == (grammar(n).initializer)(old(self).st()),
            old(self).st().to(final(self).st()),
        decreases n, 1nat,
    {
        proof {
            lemma_rules(n);
        }
        reveal(initializer);
        if self.eat(&TokenKind::Assign) {
            Some(self.assignment_expression(Ghost((n - 1) as nat)))
        } else {
            None
        }
    }

    fn parameter(&mut self, Ghost(n): Ghost<nat>) -> (r: Param)
        requires
            old(self).ok(),
            enough(n, old(self).st(), 30),
        ensures
            (final(self).st(), param_view(r)) == (grammar(n).parameter)(old(self).st()),
            old(self).st().to(final(self).st()),
        decreases n, 1nat,
    {
        proof {
            lemma_rules(n);
        }
        reveal(parameter);
        let start = self.span();
        let rest = self.eat(&TokenKind::Ellipsis);
        let (name, name_span) = self.expect_ident();
        let ty = self.annotation(Ghost((n - 1) as nat));
        let default = self.initializer(Ghost((n - 1) as nat));
        let end = end_of(&default, &ty, name_span);
        param_node(name, ty, default, rest, start.to(end))
    }

    fn parameter_list(&mut self, Ghost(n): Ghost<nat>) -> (r: Vec<Param>)
        requires
            old(self).ok(),
            enough(n, old(self).st(), 31),
        ensures
            (final(self).st(), params_view(r@)) == (grammar(n).parameter_list)(
                old(self).st(),
                Seq::empty(),
            ),
            old(self).st().to(final(self).st()),
        decreases n, 1nat,
    {
        let mut list: Vec<Param> = Vec::new();
        proof { params_none(); }
        let ghost mut m = n;
        loop
            invariant
                self.ok(),
                0 < m <= n,
                enough(m, self.st(), 31),
                old(self).st().to(self.st()),
                (grammar(n).parameter_list)(old(self).st(), Seq::empty()) == (
                grammar(m).parameter_list)(self.st(), params_view(list@)),
            decreases m,
        {
            proof {
                lemma_rules(m);
            }
            reveal(parameter_list);
            let p = self.parameter(Ghost((m - 1) as nat));
            proof { params_push(list@, p); }
            list.push(p);
            if !self.eat(&TokenKind::Comma) {
                return list;
            }
            proof {
                m = (m - 1) as nat;
            }
        }
    }

    /// `(params):T`.
    pub fn signature(&mut self, Ghost(n): Ghost<nat>) -> (r: (Vec<Param>, Option<TypeRef>))
        requires
            old(self).ok(),
            enough(n, old(self).st(), 33),
        ensures
            (final(self).st(), params_view(r.0@), opt_type_view(r.1)) == (grammar(n).signature)(
                old(self).st(),
            ),
            old(self).st().to(final(self).st()),
        decreases n, 1nat,
    {
        proof {
            lemma_rules(n);
        }
        reveal(signature);
        self.expect(&TokenKind::LParen);
        let params = if self.at(&TokenKind::RParen) {
            let none: Vec<Param> = Vec::new();
            proof { params_none(); }
            none
        } else {
            self.parameter_list(Ghost((n - 1) as nat))
        };
        self.expect(&TokenKind::RParen);
        let return_type = self.annotation(Ghost((n - 1) as nat));
        (params, return_type)
    }

    /// Everything after the `function` keyword. A declaration needs a name, an
    /// expression does not.
    pub fn function_after_keyword(
        &mut self,
        keyword_span: Span,
        require_name: bool,
        Ghost(n): Ghost<nat>,
    ) -> (r: FunctionDecl)
        requires
            old(self).ok(),
            enough(n, old(self).st(), 41),
        ensures
            (final(self).st(), function_decl_view(r)) == (grammar(n).function)(
                old(self).st(),
                keyword_span,
                require_name,
            ),
            old(self).st().to(final(self).st()),
        decreases n, 1nat,
    {
        proof {
            lemma_rules(n);
        }
        reveal(function);
        reveal(PState::ident);
        let name = if self.at_ident() {
            let (name, _) = self.expect_ident();
            Some(name)
        } else {
            if require_name {
                let span = self.span();
                self.error(UNEXPECTED_TOKEN, "function declaration needs a name", span);
            }
            None
        };
        let type_params = self.type_params();
        let (params, return_type) = self.signature(Ghost((n - 1) as nat));
        let body = self.block(Ghost((n - 1) as nat));
        let span = keyword_span.to(body.span);
        function_decl_node(name, type_params, params, return_type, body, span)
    }
}

} // verus!
