//! Declarations: packages, namespaces, classes and interfaces.

use vstd::prelude::*;

use crate::ast::nodes::{
    Attributes, InterfaceMember, Member, MemberKind, SigKind, Stmt, StmtKind, TypeRef, Visibility,
};
use crate::ast::view::{
    attributes_view, class_decl_node, group_spans, interface_decl_node, interface_member_node,
    interface_member_view, member_node, member_view, members_none, members_push, members_view,
    sigs_none, sigs_push, sigs_view, stmt_moved, stmt_node, stmt_view, texts, type_refs_none,
    type_refs_view,
};
use crate::diagnostics::UNEXPECTED_TOKEN;
use crate::lexer::token::{KindView, TokenKind};
use crate::parser::expr::enough;
use crate::parser::grammar::{
    accessor, after_accessor, attributed, class, class_member, declaration, dotted_rest,
    follows_namespace, grammar, import, import_rest, interface, interface_member, lemma_rules,
    member_list, member_modifiers, modified, modifiers, namespace, no_attributes, package,
    sig_list, unstick, use_namespace, visibility_of,
};
use crate::parser::state::{lemma_next, PState, Parser};
use crate::span::Span;

verus! {

broadcast use group_spans;

fn fresh_attributes() -> (r: Attributes)
    ensures
        attributes_view(r) == no_attributes(),
{
    Attributes {
        visibility: None,
        is_static: false,
        is_final: false,
        is_override: false,
        is_dynamic: false,
        is_native: false,
        namespace_: None,
    }
}

fn visibility(kind: &TokenKind) -> (r: Option<Visibility>)
    ensures
        r == visibility_of(kind@),
        r is Some ==> kind@ != KindView::Plain(TokenKind::Eof),
{
    reveal(visibility_of);
    match kind {
        TokenKind::Public => Some(Visibility::Public),
        TokenKind::Private => Some(Visibility::Private),
        TokenKind::Protected => Some(Visibility::Protected),
        TokenKind::Internal => Some(Visibility::Internal),
        _ => None,
    }
}

/// Sets the modifier that the token is, if it is one other than an access
/// modifier.
fn modify(kind: &TokenKind, attrs: &mut Attributes) -> (r: bool)
    ensures
        r == (modified(kind@, attributes_view(*old(attrs))) is Some),
        r ==> modified(kind@, attributes_view(*old(attrs))) == Some(
            attributes_view(*final(attrs)),
        ),
        !r ==> *final(attrs) == *old(attrs),
        r ==> kind@ != KindView::Plain(TokenKind::Eof),
{
    reveal(modified);
    match kind {
        TokenKind::Static => {
            attrs.is_static = true;
        },
        TokenKind::Final => {
            attrs.is_final = true;
        },
        TokenKind::Override => {
            attrs.is_override = true;
        },
        TokenKind::Dynamic => {
            attrs.is_dynamic = true;
        },
        TokenKind::Native => {
            attrs.is_native = true;
        },
        _ => {
            return false;
        },
    }
    true
}

fn can_follow_namespace(kind: &TokenKind) -> (r: bool)
    ensures
        r == follows_namespace(kind@),
{
    reveal(follows_namespace);
    match kind {
        TokenKind::Var
        | TokenKind::Const
        | TokenKind::Function
        | TokenKind::Static
        | TokenKind::Final
        | TokenKind::Override
        | TokenKind::Native => true,
        _ => false,
    }
}

impl Parser {
    pub fn declaration(&mut self, Ghost(n): Ghost<nat>) -> (r: Stmt)
        requires
            old(self).ok(),
            enough(n, old(self).st(), 35),
        ensures
            (final(self).st(), stmt_view(r)) == (grammar(n).declaration)(old(self).st()),
            old(self).st().to(final(self).st()),
        decreases n, 1nat,
    {
        proof {
            lemma_rules(n);
        }
        reveal(declaration);
        match self.kind() {
            TokenKind::Package => self.package_decl(Ghost((n - 1) as nat)),
            TokenKind::Import => self.import_decl(),
            TokenKind::Namespace => self.namespace_decl(),
            TokenKind::Use => self.use_namespace(),
            _ => self.attributed_declaration(Ghost((n - 1) as nat)),
        }
    }

    /// `.name` for each dot.
    fn dotted_rest(&mut self, first: String) -> (r: Vec<String>)
        requires
            old(self).ok(),
        ensures
            (final(self).st(), texts(r@)) == dotted_rest(old(self).st(), seq![first@]),
            old(self).st().to(final(self).st()),
    {
        let ghost f = first@;
        let mut path: Vec<String> = Vec::new();
        path.push(first);
        assert(texts(path@) =~= seq![f]);
        while self.at(&TokenKind::Dot)
            invariant
                self.ok(),
                old(self).st().to(self.st()),
                dotted_rest(old(self).st(), seq![f]) == dotted_rest(self.st(), texts(path@)),
            decreases self.st().left(),
        {
            reveal(PState::ident);
            reveal(PState::complain_found);
            reveal(PState::complain);
            proof {
                lemma_next(self.st());
            }
            self.advance();
            let (name, _) = self.expect_ident();
            assert(texts(path@.push(name)) =~= texts(path@).push(name@));
            path.push(name);
        }
        path
    }

    /// `package a.b { directives }`.
    fn package_decl(&mut self, Ghost(n): Ghost<nat>) -> (r: Stmt)
        requires
            old(self).ok(),
            old(self).st().at(TokenKind::Package),
            enough(n, old(self).st(), 3),
        ensures
            (final(self).st(), stmt_view(r)) == (grammar(n).package)(old(self).st()),
            old(self).st().to(final(self).st()),
        decreases n, 1nat,
    {
        proof {
            lemma_rules(n);
        }
        reveal(package);
        reveal(PState::ident);
        let start = self.advance();
        let path = if self.at_ident() {
            let (first, _) = self.expect_ident();
            self.dotted_rest(first)
        } else {
            let none: Vec<String> = Vec::new();
            assert(texts(none@) =~= Seq::<Seq<char>>::empty());
            none
        };
        self.expect(&TokenKind::LBrace);
        let body = self.stmt_list(false, Ghost((n - 1) as nat));
        let end = self.expect(&TokenKind::RBrace);
        stmt_node(StmtKind::Package { path, body }, start.to(end))
    }

    fn import_decl(&mut self) -> (r: Stmt)
        requires
            old(self).ok(),
            old(self).st().at(TokenKind::Import),
        ensures
            (final(self).st(), stmt_view(r)) == import(old(self).st()),
            old(self).st().to(final(self).st()),
    {
        let start = self.advance();
        let ghost s1 = self.st();
        let (first, _) = self.expect_ident();
        let ghost s2 = self.st();
        let mut path: Vec<String> = Vec::new();
        path.push(first);
        assert(texts(path@) =~= seq![s1.name()]);
        let mut wildcard = false;
        while self.at(&TokenKind::Dot)
            invariant_except_break
                self.ok(),
                old(self).st().to(self.st()),
                !wildcard,
                import_rest(s2, seq![s1.name()]) == import_rest(self.st(), texts(path@)),
            ensures
                self.ok(),
                old(self).st().to(self.st()),
                import_rest(s2, seq![s1.name()]) == (self.st(), texts(path@), wildcard),
            decreases self.st().left(),
        {
            reveal(PState::ident);
            reveal(PState::complain_found);
            reveal(PState::complain);
            proof {
                lemma_next(self.st());
            }
            self.advance();
            if self.eat(&TokenKind::Star) {
                wildcard = true;
                break;
            }
            let (name, _) = self.expect_ident();
            assert(texts(path@.push(name)) =~= texts(path@).push(name@));
            path.push(name);
        }
        self.semicolon();
        stmt_node(StmtKind::Import { path, wildcard }, start)
    }

    /// `namespace n` or `namespace n = "uri"`.
    fn namespace_decl(&mut self) -> (r: Stmt)
        requires
            old(self).ok(),
            old(self).st().at(TokenKind::Namespace),
        ensures
            (final(self).st(), stmt_view(r)) == namespace(old(self).st()),
            old(self).st().to(final(self).st()),
    {
        let start = self.advance();
        let (name, _) = self.expect_ident();
        let mut uri: Option<String> = None;
        if self.eat(&TokenKind::Assign) {
            let text = match self.kind() {
                TokenKind::Str(v) => Some(v.clone()),
                _ => None,
            };
            match text {
                Some(v) => {
                    self.advance();
                    uri = Some(v);
                },
                None => {
                    let span = self.span();
                    self.error(
                        UNEXPECTED_TOKEN,
                        "a namespace initializer must be a string literal",
                        span,
                    );
                    self.recover_to_statement_boundary();
                },
            }
        }
        self.semicolon();
        stmt_node(StmtKind::NamespaceDecl { name, uri }, start)
    }

    /// `use namespace n`.
    fn use_namespace(&mut self) -> (r: Stmt)
        requires
            old(self).ok(),
            old(self).st().at(TokenKind::Use),
        ensures
            (final(self).st(), stmt_view(r)) == use_namespace(old(self).st()),
            old(self).st().to(final(self).st()),
    {
        let start = self.advance();
        if !self.eat(&TokenKind::Namespace) {
            let span = self.span();
            self.error(
                UNEXPECTED_TOKEN,
                "`use` must be followed by `namespace` (SYNTAXERR_ILLEGAL_USE)",
                span,
            );
        }
        let (name, _) = self.expect_ident();
        self.semicolon();
        stmt_node(StmtKind::UseNamespace(name), start)
    }

    /// The modifiers before a declaration.
    fn modifiers(&mut self) -> (r: Attributes)
        requires
            old(self).ok(),
        ensures
            (final(self).st(), attributes_view(r)) == modifiers(old(self).st(), no_attributes()),
            old(self).st().to(final(self).st()),
    {
        let mut attrs = fresh_attributes();
        loop
            invariant
                self.ok(),
                old(self).st().to(self.st()),
                modifiers(old(self).st(), no_attributes()) == modifiers(
                    self.st(),
                    attributes_view(attrs),
                ),
            decreases self.st().left(),
        {
            reveal(PState::complain);
            proof {
                lemma_next(self.st());
            }
            if let Some(v) = visibility(self.kind()) {
                if attrs.visibility.is_some() {
                    let span = self.span();
                    self.error(UNEXPECTED_TOKEN, "only one access modifier is allowed", span);
                }
                attrs.visibility = Some(v);
                self.advance();
            } else if modify(self.kind(), &mut attrs) {
                self.advance();
            } else {
                return attrs;
            }
        }
    }

    /// A declaration with the modifiers before it.
    fn attributed_declaration(&mut self, Ghost(n): Ghost<nat>) -> (r: Stmt)
        requires
            old(self).ok(),
            enough(n, old(self).st(), 34),
        ensures
            (final(self).st(), stmt_view(r)) == (grammar(n).attributed)(old(self).st()),
            old(self).st().to(final(self).st()),
        decreases n, 1nat,
    {
        proof {
            lemma_rules(n);
        }
        reveal(attributed);
        let start = self.span();
        let attrs = self.modifiers();
        match self.kind() {
            TokenKind::Class => self.class_decl(start, attrs, Ghost((n - 1) as nat)),
            TokenKind::Interface => self.interface_decl(start, attrs, Ghost((n - 1) as nat)),
            TokenKind::Function => {
                let f = self.function_declaration(Ghost((n - 1) as nat));
                let span = start.to(f.span);
                stmt_moved(f, span)
            },
            TokenKind::Var | TokenKind::Const => self.var_statement(Ghost((n - 1) as nat)),
            _ => {
                let span = self.span();
                self.error_found("expected a declaration after modifiers, found ");
                self.recover_to_statement_boundary();
                stmt_node(StmtKind::Empty, span)
            },
        }
    }

    /// `class C.<T> extends B implements I, J { members }`.
    fn class_decl(&mut self, start: Span, attrs: Attributes, Ghost(n): Ghost<nat>) -> (r: Stmt)
        requires
            old(self).ok(),
            old(self).st().at(TokenKind::Class),
            enough(n, old(self).st(), 3),
        ensures
            (final(self).st(), stmt_view(r)) == (grammar(n).class)(
                old(self).st(),
                start,
                attributes_view(attrs),
            ),
            old(self).st().to(final(self).st()),
        decreases n, 1nat,
    {
        proof {
            lemma_rules(n);
        }
        reveal(class);
        self.advance();
        let (name, _) = self.expect_ident();
        let type_params = self.type_params();
        let extends = if self.eat(&TokenKind::Extends) {
            Some(self.type_ref(Ghost((n - 1) as nat)))
        } else {
            None
        };
        let implements = self.types_after(&TokenKind::Implements, Ghost((n - 1) as nat));
        self.expect(&TokenKind::LBrace);
        let members = self.member_list(Ghost((n - 1) as nat));
        let end = self.expect(&TokenKind::RBrace);
        let span = start.to(end);
        let decl = class_decl_node(attrs, name, type_params, extends, implements, members, span);
        stmt_node(StmtKind::Class(Box::new(decl)), span)
    }

    /// Types with commas between them after the keyword, if it is there.
    fn types_after(&mut self, keyword: &TokenKind, Ghost(n): Ghost<nat>) -> (r: Vec<TypeRef>)
        requires
            old(self).ok(),
            *keyword == TokenKind::Implements || *keyword == TokenKind::Extends,
            enough(n, old(self).st(), 3),
        ensures
            (final(self).st(), type_refs_view(r@)) == (if old(self).st().at(*keyword) {
                (grammar(n).type_list)(old(self).st().next(), Seq::empty())
            } else {
                (old(self).st(), Seq::empty())
            }),
            old(self).st().to(final(self).st()),
    {
        if self.eat(keyword) {
            self.type_list(Ghost(n))
        } else {
            proof {
                type_refs_none();
            }
            Vec::new()
        }
    }

    fn member_list(&mut self, Ghost(n): Ghost<nat>) -> (r: Vec<Member>)
        requires
            old(self).ok(),
            enough(n, old(self).st(), 38),
        ensures
            (final(self).st(), members_view(r@)) == (grammar(n).member_list)(
                old(self).st(),
                Seq::empty(),
            ),
            old(self).st().to(final(self).st()),
        decreases n, 1nat,
    {
        let mut members: Vec<Member> = Vec::new();
        proof {
            members_none();
        }
        let ghost mut m = n;
        loop
            invariant
                self.ok(),
                0 < m <= n,
                enough(m, self.st(), 38),
                old(self).st().to(self.st()),
                (grammar(n).member_list)(old(self).st(), Seq::empty()) == (
                grammar(m).member_list)(self.st(), members_view(members@)),
            decreases m,
        {
            proof {
                lemma_rules(m);
            }
            reveal(member_list);
            if self.at(&TokenKind::RBrace) || self.at(&TokenKind::Eof) {
                return members;
            }
            let before: usize = self.pos;
            let ghost b = self.st();
            if let Some(x) = self.class_member(Ghost((m - 1) as nat)) {
                proof {
                    members_push(members@, x);
                }
                members.push(x);
            }
            self.unstick(before, Ghost(b));
            proof {
                m = (m - 1) as nat;
            }
        }
    }

    /// The modifiers before a member.
    fn member_modifiers(&mut self) -> (r: Attributes)
        requires
            old(self).ok(),
        ensures
            (final(self).st(), attributes_view(r)) == member_modifiers(
                old(self).st(),
                no_attributes(),
            ),
            old(self).st().to(final(self).st()),
    {
        let mut attrs = fresh_attributes();
        loop
            invariant
                self.ok(),
                old(self).st().to(self.st()),
                member_modifiers(old(self).st(), no_attributes()) == member_modifiers(
                    self.st(),
                    attributes_view(attrs),
                ),
            decreases self.st().left(),
        {
            reveal(PState::complain);
            reveal(PState::ident);
            reveal(visibility_of);
            reveal(modified);
            proof {
                lemma_next(self.st());
            }
            if let Some(v) = visibility(self.kind()) {
                attrs.visibility = Some(v);
                self.advance();
            } else if self.at_ident() {
                if !can_follow_namespace(self.peek_kind()) {
                    return attrs;
                }
                let (name, span) = self.expect_ident();
                if attrs.visibility.is_some() {
                    self.error(
                        UNEXPECTED_TOKEN,
                        "a namespace qualifier cannot be combined with an access modifier",
                        span,
                    );
                }
                attrs.namespace_ = Some(name);
            } else if self.at(&TokenKind::Dynamic) {
                return attrs;
            } else if modify(self.kind(), &mut attrs) {
                self.advance();
            } else {
                return attrs;
            }
        }
    }

    /// Consumes `get` or `set` before another name.
    fn accessor(&mut self) -> (r: Option<SigKind>)
        requires
            old(self).ok(),
        ensures
            r == accessor(old(self).st()),
            final(self).st() == after_accessor(old(self).st()),
            old(self).st().to(final(self).st()),
    {
        if !self.next_is_ident() {
            return None;
        }
        if self.at_contextual("get") {
            self.advance();
            Some(SigKind::Getter)
        } else if self.at_contextual("set") {
            self.advance();
            Some(SigKind::Setter)
        } else {
            None
        }
    }

    /// A field, method, getter or setter; `None` for a stray `;` or an error.
    fn class_member(&mut self, Ghost(n): Ghost<nat>) -> (r: Option<Member>)
        requires
            old(self).ok(),
            enough(n, old(self).st(), 37),
        ensures
            final(self).st() == (grammar(n).class_member)(old(self).st()).0,
            match r {
                Some(m) => (grammar(n).class_member)(old(self).st()).1 == Some(member_view(m)),
                None => (grammar(n).class_member)(old(self).st()).1 is None,
            },
            old(self).st().to(final(self).st()),
        decreases n, 1nat,
    {
        proof {
            lemma_rules(n);
        }
        reveal(class_member);
        if self.eat(&TokenKind::Semicolon) {
            return None;
        }
        let start = self.span();
        let attrs = self.member_modifiers();
        let kind = match self.kind() {
            TokenKind::Var | TokenKind::Const => {
                let decl = self.var_declaration(Ghost((n - 1) as nat));
                self.semicolon();
                MemberKind::Field(decl)
            },
            TokenKind::Function => {
                let keyword = self.advance();
                let accessor = self.accessor();
                let f = self.function_after_keyword(keyword, true, Ghost((n - 1) as nat));
                match accessor {
                    Some(SigKind::Getter) => MemberKind::Getter(Box::new(f)),
                    Some(_) => MemberKind::Setter(Box::new(f)),
                    None => MemberKind::Method(Box::new(f)),
                }
            },
            _ => {
                self.error_found("expected a class member, found ");
                self.recover_to_statement_boundary();
                return None;
            },
        };
        let end = self.prev_span();
        Some(member_node(kind, attrs, start.to(end)))
    }

    /// `interface I extends J, K { signatures }`.
    fn interface_decl(&mut self, start: Span, attrs: Attributes, Ghost(n): Ghost<nat>) -> (r:
        Stmt)
        requires
            old(self).ok(),
            old(self).st().at(TokenKind::Interface),
            enough(n, old(self).st(), 3),
        ensures
            (final(self).st(), stmt_view(r)) == (grammar(n).interface)(
                old(self).st(),
                start,
                attributes_view(attrs),
            ),
            old(self).st().to(final(self).st()),
        decreases n, 1nat,
    {
        proof {
            lemma_rules(n);
        }
        reveal(interface);
        self.advance();
        let (name, _) = self.expect_ident();
        let extends = self.types_after(&TokenKind::Extends, Ghost((n - 1) as nat));
        self.expect(&TokenKind::LBrace);
        let members = self.sig_list(Ghost((n - 1) as nat));
        let end = self.expect(&TokenKind::RBrace);
        let span = start.to(end);
        let decl = interface_decl_node(attrs, name, extends, members, span);
        stmt_node(StmtKind::Interface(Box::new(decl)), span)
    }

    fn sig_list(&mut self, Ghost(n): Ghost<nat>) -> (r: Vec<InterfaceMember>)
        requires
            old(self).ok(),
            enough(n, old(self).st(), 38),
        ensures
            (final(self).st(), sigs_view(r@)) == (grammar(n).sig_list)(
                old(self).st(),
                Seq::empty(),
            ),
            old(self).st().to(final(self).st()),
        decreases n, 1nat,
    {
        let mut sigs: Vec<InterfaceMember> = Vec::new();
        proof {
            sigs_none();
        }
        let ghost mut m = n;
        loop
            invariant
                self.ok(),
                0 < m <= n,
                enough(m, self.st(), 38),
                old(self).st().to(self.st()),
                (grammar(n).sig_list)(old(self).st(), Seq::empty()) == (grammar(m).sig_list)(
                    self.st(),
                    sigs_view(sigs@),
                ),
            decreases m,
        {
            proof {
                lemma_rules(m);
            }
            reveal(sig_list);
            if self.at(&TokenKind::RBrace) || self.at(&TokenKind::Eof) {
                return sigs;
            }
            if !self.eat(&TokenKind::Semicolon) {
                let before: usize = self.pos;
                let ghost b = self.st();
                let x = self.interface_member(Ghost((m - 1) as nat));
                proof {
                    sigs_push(sigs@, x);
                }
                sigs.push(x);
                self.unstick(before, Ghost(b));
            }
            proof {
                m = (m - 1) as nat;
            }
        }
    }

    /// `function name(params):T;`.
    fn interface_member(&mut self, Ghost(n): Ghost<nat>) -> (r: InterfaceMember)
        requires
            old(self).ok(),
            enough(n, old(self).st(), 37),
        ensures
            (final(self).st(), interface_member_view(r)) == (grammar(n).interface_member)(
                old(self).st(),
            ),
            old(self).st().to(final(self).st()),
        decreases n, 1nat,
    {
        proof {
            lemma_rules(n);
        }
        reveal(interface_member);
        let start = self.expect(&TokenKind::Function);
        let kind = match self.accessor() {
            Some(k) => k,
            None => SigKind::Method,
        };
        let (name, _) = self.expect_ident();
        let (params, return_type) = self.signature(Ghost((n - 1) as nat));
        self.semicolon();
        let end = self.prev_span();
        interface_member_node(kind, name, params, return_type, start.to(end))
    }
}

} // verus!
