//! Types.

use vstd::prelude::*;

use crate::ast::nodes::{TypeRef, TypeRefKind};
use crate::ast::view::{
    group_spans, opt_type_view, texts, type_ref_node, type_ref_view, type_refs_none, type_refs_push,
    type_refs_view,
};
use crate::lexer::token::TokenKind;
use crate::parser::expr::enough;
use crate::parser::grammar::{annotation, grammar, lemma_rules, path_rest, type_list, type_ref};
use crate::parser::state::{lemma_next, PState, Parser};

verus! {

broadcast use group_spans;

impl Parser {
    /// `*`, `void`, or a dotted name with the arguments of `.<...>`; then `?`.
    pub fn type_ref(&mut self, Ghost(n): Ghost<nat>) -> (r: TypeRef)
        requires
            old(self).ok(),
            enough(n, old(self).st(), 2),
        ensures
            (final(self).st(), type_ref_view(r)) == (grammar(n).type_ref)(old(self).st()),
            old(self).st().to(final(self).st()),
        decreases n,
    {
        proof {
            lemma_rules(n);
        }
        reveal(type_ref);
        let start = self.span();
        let ghost s = self.st();
        let kind = if self.eat(&TokenKind::Star) {
            TypeRefKind::Any
        } else if self.eat(&TokenKind::Void) {
            TypeRefKind::Void
        } else {
            let (first, _) = self.expect_ident();
            let ghost p0 = self.st();
            let mut path: Vec<String> = Vec::new();
            path.push(first);
            assert(texts(path@) =~= seq![s.name()]);
            while self.at(&TokenKind::Dot) && self.next_is_ident()
                invariant
                    self.ok(),
                    s.to(self.st()),
                    path_rest(p0, seq![s.name()]) == path_rest(self.st(), texts(path@)),
                decreases self.st().left(),
            {
                reveal(PState::ident);
                proof {
                    lemma_next(self.st());
                }
                self.advance();
                let (name, _) = self.expect_ident();
                assert(texts(path@.push(name)) =~= texts(path@).push(name@));
                path.push(name);
            }
            let mut type_args: Vec<TypeRef> = Vec::new();
            proof { type_refs_none(); }
            if self.eat(&TokenKind::LeftDotAngle) {
                type_args = self.type_list(Ghost((n - 1) as nat));
                self.expect_type_close();
            }
            TypeRefKind::Name { path, type_args }
        };
        let nullable = self.eat(&TokenKind::Question);
        let end = self.prev_span();
        type_ref_node(kind, nullable, start.to(end))
    }

    /// Whether the next token is an identifier.
    pub fn next_is_ident(&self) -> (r: bool)
        requires
            self.ok(),
        ensures
            r == (self.st().ahead(1) is Ident),
    {
        match self.peek_kind() {
            TokenKind::Ident(_) => true,
            _ => false,
        }
    }

    /// Types with commas between them.
    pub fn type_list(&mut self, Ghost(n): Ghost<nat>) -> (r: Vec<TypeRef>)
        requires
            old(self).ok(),
            enough(n, old(self).st(), 3),
        ensures
            (final(self).st(), type_refs_view(r@)) == (grammar(n).type_list)(old(self).st(), Seq::empty()),
            old(self).st().to(final(self).st()),
        decreases n,
    {
        proof {
            lemma_rules(n);
        }
        let mut list: Vec<TypeRef> = Vec::new();
        proof { type_refs_none(); }
        let ghost mut m = n;
        loop
            invariant
                self.ok(),
                0 < m <= n,
                enough(m, self.st(), 3),
                old(self).st().to(self.st()),
                (grammar(n).type_list)(old(self).st(), Seq::empty()) == (grammar(m).type_list)(
                    self.st(),
                    type_refs_view(list@),
                ),
            decreases m,
        {
            proof {
                lemma_rules(m);
            }
            reveal(type_list);
            let t = self.type_ref(Ghost((m - 1) as nat));
            proof { type_refs_push(list@, t); }
            list.push(t);
            if !self.eat(&TokenKind::Comma) {
                return list;
            }
            proof {
                m = (m - 1) as nat;
            }
        }
    }

    /// `:Type`, if there is a colon.
    pub fn annotation(&mut self, Ghost(n): Ghost<nat>) -> (r: Option<TypeRef>)
        requires
            old(self).ok(),
            enough(n, old(self).st(), 3),
        ensures
            (final(self).st(), opt_type_view(r)) == (grammar(n).annotation)(old(self).st()),
            old(self).st().to(final(self).st()),
    {
        proof {
            lemma_rules(n);
        }
        reveal(annotation);
        if self.eat(&TokenKind::Colon) {
            Some(self.type_ref(Ghost((n - 1) as nat)))
        } else {
            None
        }
    }
}

} // verus!
