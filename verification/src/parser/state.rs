//! The token stream under the parser: looking, consuming, complaining.

use vstd::prelude::*;

use crate::diagnostics::{
    diag_views, error_at, DiagView, Diagnostic, ErrorCode, EXPECTED_SEMICOLON, UNEXPECTED_TOKEN,
};
use crate::lexer::laws::{no_eof, roomy, weight};
use crate::lexer::token::{
    described, kind_number, token_views, KindView, Token, TokenKind, TokenView,
};
use crate::span::Span;
use crate::text::{push_text, same_text};

verus! {

// --- the state ----------------------------------------------------------------------------

/// How far a token stream was parsed.
pub ghost struct PState {
    pub toks: Seq<TokenView>,
    pub pos: int,
    pub diags: Seq<DiagView>,
    /// `in` is no operator: the head of a `for` is being parsed.
    pub no_in: bool,
}

/// The weight of the tokens from `i` on, but for the last one.
pub open spec fn rest_weight(toks: Seq<TokenView>, i: int) -> nat
    decreases toks.len() - i,
{
    if i + 1 >= toks.len() {
        0
    } else {
        weight(toks[i].kind) + rest_weight(toks, i + 1)
    }
}

/// The stream ends with the end-of-input token, which stands nowhere else, and
/// each token is as long as its weight.
pub open spec fn stream_ok(toks: Seq<TokenView>) -> bool {
    &&& toks.len() > 0
    &&& toks.last().kind == KindView::Plain(TokenKind::Eof)
    &&& no_eof(toks.drop_last())
    &&& roomy(toks)
}

impl PState {
    pub open spec fn ok(self) -> bool {
        stream_ok(self.toks) && 0 <= self.pos < self.toks.len()
    }

    /// What is left to parse.
    pub open spec fn left(self) -> nat {
        rest_weight(self.toks, self.pos)
    }

    pub open spec fn cur(self) -> TokenView {
        self.toks[self.pos]
    }

    /// The kind of the token `d` places ahead, at most the last one.
    pub open spec fn ahead(self, d: int) -> KindView {
        self.toks[if self.pos + d < self.toks.len() {
            self.pos + d
        } else {
            self.toks.len() - 1
        }].kind
    }

    pub open spec fn at(self, k: TokenKind) -> bool {
        self.cur().kind == KindView::Plain(k)
    }

    pub open spec fn at_ident(self) -> bool {
        self.cur().kind is Ident
    }

    /// The current token is the contextual word `w`.
    pub open spec fn at_word(self, w: &'static str) -> bool {
        self.cur().kind == KindView::Ident(w@)
    }

    /// The span of the token before the current one.
    pub open spec fn prev_span(self) -> Span {
        self.toks[if self.pos > 0 {
            self.pos - 1
        } else {
            0
        }].span
    }

    /// The current token consumed; the last one stays.
    pub open spec fn next(self) -> PState {
        if self.pos + 1 < self.toks.len() {
            PState { pos: self.pos + 1, ..self }
        } else {
            self
        }
    }

    #[verifier::opaque]
    pub open spec fn complain(self, code: u16, message: Seq<char>, span: Span) -> PState {
        PState { diags: self.diags.push(error_at(ErrorCode(code), message, span)), ..self }
    }

    /// The token consumed if it is the current one.
    pub open spec fn eat(self, k: TokenKind) -> PState {
        if self.at(k) {
            self.next()
        } else {
            self
        }
    }

    /// As [`PState::eat`], with an error if it is not the current one.
    #[verifier::opaque]
    pub open spec fn expect(self, k: TokenKind) -> PState {
        if self.at(k) {
            self.next()
        } else {
            self.complain(
                UNEXPECTED_TOKEN,
                "expected "@ + described(KindView::Plain(k)) + ", found "@ + described(
                    self.cur().kind,
                ),
                self.cur().span,
            )
        }
    }

    /// "expected (what), found (the current token)".
    #[verifier::opaque]
    pub open spec fn complain_found(self, what: Seq<char>) -> PState {
        self.complain(UNEXPECTED_TOKEN, what + described(self.cur().kind), self.cur().span)
    }

    /// An identifier consumed.
    #[verifier::opaque]
    pub open spec fn ident(self) -> PState {
        if self.at_ident() {
            self.next()
        } else {
            self.complain_found("expected identifier, found "@)
        }
    }

    /// The name that [`PState::ident`] gives.
    pub open spec fn name(self) -> Seq<char> {
        match self.cur().kind {
            KindView::Ident(s) => s,
            _ => "<error>"@,
        }
    }

    /// One `>` consumed, from the front of a longer token if need be.
    #[verifier::opaque]
    pub open spec fn close_type(self) -> PState {
        let rest = match self.cur().kind {
            KindView::Plain(TokenKind::Ge) => Some(TokenKind::Assign),
            KindView::Plain(TokenKind::Shr) => Some(TokenKind::Gt),
            KindView::Plain(TokenKind::ShrAssign) => Some(TokenKind::Ge),
            KindView::Plain(TokenKind::Ushr) => Some(TokenKind::Shr),
            KindView::Plain(TokenKind::UshrAssign) => Some(TokenKind::ShrAssign),
            _ => None,
        };
        match rest {
            Some(k) => {
                let span = self.cur().span;
                PState {
                    toks: self.toks.update(
                        self.pos,
                        TokenView {
                            kind: KindView::Plain(k),
                            span: Span { start: (span.start + 1) as u32, ..span },
                            newline_before: false,
                        },
                    ),
                    ..self
                }
            },
            None => if self.at(TokenKind::Gt) {
                self.next()
            } else {
                self.complain_found("expected `>`, found "@)
            },
        }
    }

    /// The end of a statement: `;`, or nothing before `}`, the end of input or
    /// a line break.
    #[verifier::opaque]
    pub open spec fn semicolon(self) -> PState {
        if self.at(TokenKind::Semicolon) {
            self.next()
        } else if self.at(TokenKind::RBrace) || self.at(TokenKind::Eof)
            || self.cur().newline_before {
            self
        } else {
            self.complain(
                EXPECTED_SEMICOLON,
                "expected `;` or a line break before "@ + described(self.cur().kind),
                self.cur().span,
            )
        }
    }

    /// A restricted production may go on with the current token.
    pub open spec fn same_line(self) -> bool {
        !self.cur().newline_before && !self.at(TokenKind::Semicolon) && !self.at(
            TokenKind::RBrace,
        ) && !self.at(TokenKind::Eof)
    }

    /// `later` is what parsing can make of the state.
    pub open spec fn to(self, later: PState) -> bool {
        &&& later.ok()
        &&& later.toks.len() == self.toks.len()
        &&& self.pos <= later.pos
        &&& later.left() <= self.left()
        &&& self.pos < later.pos ==> later.left() < self.left()
    }
}

proof fn lemma_weight_after_split(toks: Seq<TokenView>, i: int, j: int, k: TokenView)
    requires
        0 <= i < toks.len() - 1,
        0 <= j,
    ensures
        j > i ==> rest_weight(toks.update(i, k), j) == rest_weight(toks, j),
        j <= i ==> rest_weight(toks.update(i, k), j) + weight(toks[i].kind) == rest_weight(toks, j)
            + weight(k.kind),
    decreases toks.len() - j,
{
    if j + 1 < toks.len() {
        lemma_weight_after_split(toks, i, j + 1, k);
    }
}

pub proof fn lemma_next(s: PState)
    requires
        s.ok(),
    ensures
        s.to(s.next()),
        !s.at(TokenKind::Eof) ==> s.next().pos == s.pos + 1 && s.next().left() < s.left(),
        s.next().diags == s.diags,
        s.next().toks == s.toks,
{
    if s.pos + 1 >= s.toks.len() {
        assert(s.toks[s.pos] == s.toks.last());
    }
}

pub proof fn lemma_close_type(s: PState)
    requires
        s.ok(),
    ensures
        s.to(s.close_type()),
{
    reveal(PState::close_type);
    reveal(PState::complain_found);
    reveal(PState::complain);
    lemma_next(s);
    if weight(s.cur().kind) > 1 {
        let t = s.close_type();
        assert(s.pos < s.toks.len() - 1) by {
            if s.pos == s.toks.len() - 1 {
                assert(s.toks[s.pos] == s.toks.last());
            }
        }
        lemma_weight_after_split(s.toks, s.pos, s.pos, t.toks[s.pos]);
        assert(t.toks.last() == s.toks.last());
        assert forall|i: int|
            #![trigger t.toks.drop_last()[i]]
            0 <= i < t.toks.drop_last().len() implies t.toks.drop_last()[i].kind
            != KindView::Plain(TokenKind::Eof) by {
            assert(s.toks.drop_last()[i] == s.toks[i]);
        }
        assert forall|i: int|
            #![trigger t.toks[i]]
            0 <= i < t.toks.len() && weight(t.toks[i].kind) > 1 implies t.toks[i].span.start
            + weight(t.toks[i].kind) <= t.toks[i].span.end by {
            if i != s.pos {
                assert(t.toks[i] == s.toks[i]);
            } else {
                assert(s.toks[i].span.start + weight(s.toks[i].kind) <= s.toks[i].span.end);
            }
        }
    }
}

// --- execution ----------------------------------------------------------------------------

pub struct Parser {
    pub tokens: Vec<Token>,
    pub pos: usize,
    pub diagnostics: Vec<Diagnostic>,
    /// `in` is no operator: the head of a `for` is being parsed.
    pub no_in: bool,
}

impl Parser {
    pub open spec fn st(&self) -> PState {
        PState {
            toks: token_views(self.tokens@),
            pos: self.pos as int,
            diags: diag_views(self.diagnostics@),
            no_in: self.no_in,
        }
    }

    pub open spec fn ok(&self) -> bool {
        self.st().ok()
    }

    pub fn current(&self) -> (r: &Token)
        requires
            self.ok(),
        ensures
            r@ == self.st().cur(),
    {
        &self.tokens[self.pos]
    }

    pub fn span(&self) -> (r: Span)
        requires
            self.ok(),
        ensures
            r == self.st().cur().span,
    {
        self.tokens[self.pos].span
    }

    pub fn kind(&self) -> (r: &TokenKind)
        requires
            self.ok(),
        ensures
            r@ == self.st().cur().kind,
    {
        &self.tokens[self.pos].kind
    }

    /// The kind of the next token.
    pub fn peek_kind(&self) -> (r: &TokenKind)
        requires
            self.ok(),
        ensures
            r@ == self.st().ahead(1),
    {
        let last: usize = self.tokens.len() - 1;
        let i: usize = if self.pos < last {
            self.pos + 1
        } else {
            last
        };
        &self.tokens[i].kind
    }

    pub fn prev_span(&self) -> (r: Span)
        requires
            self.ok(),
        ensures
            r == self.st().prev_span(),
    {
        let i: usize = if self.pos > 0 {
            self.pos - 1
        } else {
            0
        };
        self.tokens[i].span
    }

    pub fn at(&self, kind: &TokenKind) -> (r: bool)
        requires
            self.ok(),
            kind_number(*kind) != 0,
        ensures
            r == self.st().at(*kind),
    {
        self.kind().is_kind(kind)
    }

    pub fn at_ident(&self) -> (r: bool)
        requires
            self.ok(),
        ensures
            r == self.st().at_ident(),
    {
        match self.kind() {
            TokenKind::Ident(_) => true,
            _ => false,
        }
    }

    /// Whether the current token is the contextual identifier `word`.
    pub fn at_contextual(&self, word: &'static str) -> (r: bool)
        requires
            self.ok(),
        ensures
            r == self.st().at_word(word),
    {
        match self.kind() {
            TokenKind::Ident(name) => same_text(name.as_str(), word),
            _ => false,
        }
    }

    /// Consumes the current token and gives its span.
    pub fn advance(&mut self) -> (r: Span)
        requires
            old(self).ok(),
        ensures
            final(self).st() == old(self).st().next(),
            old(self).st().to(final(self).st()),
            !old(self).st().at(TokenKind::Eof) ==> final(self).pos == old(self).pos + 1
                && final(self).st().left() < old(self).st().left(),
            r == old(self).st().cur().span,
    {
        proof {
            lemma_next(self.st());
        }
        let span = self.tokens[self.pos].span;
        if self.tokens.len() - self.pos > 1 {
            self.pos = self.pos + 1;
        }
        span
    }

    pub fn eat(&mut self, kind: &TokenKind) -> (r: bool)
        requires
            old(self).ok(),
            kind_number(*kind) != 0,
            *kind != TokenKind::Eof,
        ensures
            final(self).st() == old(self).st().eat(*kind),
            old(self).st().to(final(self).st()),
            r == old(self).st().at(*kind),
            r ==> final(self).st().left() < old(self).st().left() && final(self).pos
                == old(self).pos + 1,
    {
        if self.at(kind) {
            self.advance();
            true
        } else {
            false
        }
    }

    pub fn error(&mut self, code: u16, message: &str, span: Span)
        requires
            old(self).ok(),
        ensures
            final(self).st() == old(self).st().complain(code, message@, span),
            old(self).st().to(final(self).st()),
    {
        reveal(PState::complain);
        let d = Diagnostic::error(ErrorCode(code), message).with_span(span);
        proof {
            assert(diag_views(self.diagnostics@.push(d)) =~= diag_views(self.diagnostics@).push(
                d@,
            ));
        }
        self.diagnostics.push(d);
    }

    /// Reports `what` followed by the current token.
    pub fn error_found(&mut self, what: &str)
        requires
            old(self).ok(),
        ensures
            final(self).st() == old(self).st().complain_found(what@),
            old(self).st().to(final(self).st()),
    {
        reveal(PState::complain_found);
        let mut m = String::new();
        push_text(&mut m, what);
        let found = self.kind().describe();
        push_text(&mut m, found.as_str());
        let span = self.span();
        self.error(UNEXPECTED_TOKEN, m.as_str(), span);
    }

    /// Consumes the token, or reports that it is missing; gives the span of the
    /// current token either way.
    pub fn expect(&mut self, kind: &TokenKind) -> (r: Span)
        requires
            old(self).ok(),
            kind_number(*kind) != 0,
            *kind != TokenKind::Eof,
        ensures
            final(self).st() == old(self).st().expect(*kind),
            old(self).st().to(final(self).st()),
            old(self).st().at(*kind) ==> final(self).st().left() < old(self).st().left()
                && final(self).pos == old(self).pos + 1,
            r == old(self).st().cur().span,
    {
        reveal(PState::expect);
        if self.at(kind) {
            return self.advance();
        }
        let span = self.span();
        let mut m = String::new();
        push_text(&mut m, "expected ");
        let want = kind.describe();
        push_text(&mut m, want.as_str());
        push_text(&mut m, ", found ");
        let found = self.kind().describe();
        push_text(&mut m, found.as_str());
        assert(kind@ == KindView::Plain(*kind));
        assert(m@ =~= "expected "@ + described(KindView::Plain(*kind)) + ", found "@ + described(
            self.st().cur().kind,
        ));
        self.error(UNEXPECTED_TOKEN, m.as_str(), span);
        span
    }

    /// Consumes an identifier and gives its name and span.
    pub fn expect_ident(&mut self) -> (r: (String, Span))
        requires
            old(self).ok(),
        ensures
            final(self).st() == old(self).st().ident(),
            old(self).st().to(final(self).st()),
            old(self).st().at_ident() ==> final(self).st().left() < old(self).st().left()
                && final(self).pos == old(self).pos + 1,
            r.0@ == old(self).st().name(),
            r.1 == old(self).st().cur().span,
    {
        reveal(PState::ident);
        if let TokenKind::Ident(name) = self.kind() {
            let name = name.clone();
            let span = self.advance();
            (name, span)
        } else {
            let span = self.span();
            self.error_found("expected identifier, found ");
            ("<error>".to_owned(), span)
        }
    }

    /// Consumes a `>` that closes a type application, splitting a longer token
    /// that starts with it, so that nested applications close.
    pub fn expect_type_close(&mut self)
        requires
            old(self).ok(),
        ensures
            final(self).st() == old(self).st().close_type(),
            old(self).st().to(final(self).st()),
    {
        reveal(PState::close_type);
        proof {
            lemma_close_type(self.st());
        }
        let rest = match self.kind() {
            TokenKind::Gt => {
                self.advance();
                return;
            },
            TokenKind::Ge => TokenKind::Assign,
            TokenKind::Shr => TokenKind::Gt,
            TokenKind::ShrAssign => TokenKind::Ge,
            TokenKind::Ushr => TokenKind::Shr,
            TokenKind::UshrAssign => TokenKind::ShrAssign,
            _ => {
                self.error_found("expected `>`, found ");
                return;
            },
        };
        let span = self.span();
        let token = Token {
            kind: rest,
            span: Span::new(span.source, span.start + 1, span.end),
            newline_before: false,
        };
        proof {
            assert(token_views(self.tokens@.update(self.pos as int, token)) =~= token_views(
                self.tokens@,
            ).update(self.pos as int, token@));
        }
        self.tokens[self.pos] = token;
    }

    /// Ends a statement: consumes `;`, or needs none before `}`, the end of
    /// input or a line break.
    pub fn semicolon(&mut self)
        requires
            old(self).ok(),
        ensures
            final(self).st() == old(self).st().semicolon(),
            old(self).st().to(final(self).st()),
    {
        reveal(PState::semicolon);
        if self.eat(&TokenKind::Semicolon) {
            return;
        }
        if self.at(&TokenKind::RBrace) || self.at(&TokenKind::Eof)
            || self.current().newline_before {
            return;
        }
        let span = self.span();
        let mut m = String::new();
        push_text(&mut m, "expected `;` or a line break before ");
        let found = self.kind().describe();
        push_text(&mut m, found.as_str());
        self.error(EXPECTED_SEMICOLON, m.as_str(), span);
    }

    /// Whether a restricted production may go on with the current token.
    pub fn no_newline(&self) -> (r: bool)
        requires
            self.ok(),
        ensures
            r == self.st().same_line(),
    {
        !self.current().newline_before && !self.at(&TokenKind::Semicolon) && !self.at(
            &TokenKind::RBrace,
        ) && !self.at(&TokenKind::Eof)
    }
}

} // verus!
