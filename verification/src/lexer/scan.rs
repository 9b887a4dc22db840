//! The scanner.

use vstd::prelude::*;

use crate::diagnostics::{
    diag_views, error_at, DiagView, Diagnostic, ErrorCode, MALFORMED_NUMBER, UNEXPECTED_CHAR,
    UNTERMINATED_COMMENT, UNTERMINATED_REGEX, UNTERMINATED_STRING,
};
use crate::lexer::chars::{
    blank, byte_at, byte_len, byte_offsets, ident_start, is_digit, is_ident_start,
    is_line_terminator, is_whitespace, lemma_run_end, line_end, run_end, skip_run, Class,
};
use crate::lexer::literal::{
    class_at, find_pattern_end, is_at, looks_at, looks_at_class, number_scan, pattern_end,
    read_number, read_string, string_scan, substring,
};
use crate::lexer::token::{keyword_of, token_views, KindView, Token, TokenKind, TokenView};
use crate::span::{SourceId, Span};
use crate::text::{chars_of, push_text};

verus! {

// --- what is scanned ----------------------------------------------------------------------

/// How far a text was scanned.
pub ghost struct Scan {
    pub pos: int,
    /// A line terminator was crossed since the last token.
    pub newline: bool,
    pub tokens: Seq<TokenView>,
    pub diags: Seq<DiagView>,
}

/// The bytes of the characters from `i` to `j`.
pub open spec fn span_of(src: SourceId, t: Seq<char>, i: int, j: int) -> Span {
    Span { source: src, start: byte_at(t, i) as u32, end: byte_at(t, j) as u32 }
}

/// A token from the current position to `end`.
pub open spec fn put(src: SourceId, t: Seq<char>, s: Scan, kind: KindView, end: int) -> Scan {
    Scan {
        pos: end,
        newline: false,
        tokens: s.tokens.push(
            TokenView { kind, span: span_of(src, t, s.pos, end), newline_before: s.newline },
        ),
        diags: s.diags,
    }
}

/// An error from the current position to `end`; the position stays.
pub open spec fn fault(
    src: SourceId,
    t: Seq<char>,
    s: Scan,
    code: u16,
    message: Seq<char>,
    end: int,
) -> Scan {
    Scan {
        diags: s.diags.push(error_at(ErrorCode(code), message, span_of(src, t, s.pos, end))),
        ..s
    }
}

// Trivia.

/// The end of the block comment whose text goes on at `i`; `None` if it is not
/// closed.
pub open spec fn comment_end(t: Seq<char>, i: int) -> Option<int>
    decreases t.len() - i,
{
    if i >= t.len() {
        None
    } else if is_at(t, i, '*') && is_at(t, i + 1, '/') {
        Some(i + 2)
    } else {
        comment_end(t, i + 1)
    }
}

/// A line terminator stands between `i` and `j`.
pub open spec fn line_end_within(t: Seq<char>, i: int, j: int) -> bool {
    exists|k: int| i <= k < j && line_end(#[trigger] t[k])
}

/// A block comment counts as a line terminator if one stands in it.
pub open spec fn comment_step(src: SourceId, t: Seq<char>, s: Scan) -> Scan {
    match comment_end(t, s.pos + 2) {
        Some(e) => Scan {
            pos: e,
            newline: s.newline || line_end_within(t, s.pos + 2, e - 2),
            ..s
        },
        None => {
            let end = t.len() as int;
            Scan {
                pos: end,
                newline: s.newline || line_end_within(t, s.pos + 2, end),
                ..fault(src, t, s, UNTERMINATED_COMMENT, "unterminated block comment"@, end)
            }
        },
    }
}

/// Whitespace, line terminators and comments are skipped.
pub open spec fn trivia(src: SourceId, t: Seq<char>, s: Scan) -> Scan
    decreases t.len() - s.pos,
{
    if !(0 <= s.pos < t.len()) {
        s
    } else if line_end(t[s.pos]) {
        trivia(src, t, Scan { pos: s.pos + 1, newline: true, ..s })
    } else if blank(t[s.pos]) {
        trivia(src, t, Scan { pos: s.pos + 1, ..s })
    } else if is_at(t, s.pos, '/') && is_at(t, s.pos + 1, '/') {
        let e = run_end(t, s.pos, Class::SameLine);
        if s.pos < e <= t.len() {
            trivia(src, t, Scan { pos: e, ..s })
        } else {
            arbitrary()
        }
    } else if is_at(t, s.pos, '/') && is_at(t, s.pos + 1, '*') {
        let s1 = comment_step(src, t, s);
        if s.pos < s1.pos <= t.len() {
            trivia(src, t, s1)
        } else {
            arbitrary()
        }
    } else {
        s
    }
}

// Punctuators.

/// The operator, bracket or separator at `i`, and its length.
pub open spec fn punctuator_at(t: Seq<char>, i: int) -> Option<(TokenKind, int)> {
    if !(0 <= i < t.len()) {
        None
    } else if t[i] == '(' {
        Some((TokenKind::LParen, 1))
    } else if t[i] == ')' {
        Some((TokenKind::RParen, 1))
    } else if t[i] == '[' {
        Some((TokenKind::LBracket, 1))
    } else if t[i] == ']' {
        Some((TokenKind::RBracket, 1))
    } else if t[i] == '{' {
        Some((TokenKind::LBrace, 1))
    } else if t[i] == '}' {
        Some((TokenKind::RBrace, 1))
    } else if t[i] == ';' {
        Some((TokenKind::Semicolon, 1))
    } else if t[i] == ',' {
        Some((TokenKind::Comma, 1))
    } else if t[i] == '~' {
        Some((TokenKind::BitNot, 1))
    } else if t[i] == '?' {
        Some((TokenKind::Question, 1))
    } else {
        operator_at(t, i)
    }
}

/// The operators that share a first character: the longest one is meant.
pub open spec fn operator_at(t: Seq<char>, i: int) -> Option<(TokenKind, int)> {
    let c = t[i];
    let eq = is_at(t, i + 1, '=');
    if c == '.' {
        if is_at(t, i + 1, '.') && is_at(t, i + 2, '.') {
            Some((TokenKind::Ellipsis, 3))
        } else if is_at(t, i + 1, '.') {
            Some((TokenKind::DotDot, 2))
        } else if is_at(t, i + 1, '<') {
            Some((TokenKind::LeftDotAngle, 2))
        } else {
            Some((TokenKind::Dot, 1))
        }
    } else if c == ':' {
        if is_at(t, i + 1, ':') {
            Some((TokenKind::ColonColon, 2))
        } else {
            Some((TokenKind::Colon, 1))
        }
    } else if c == '=' {
        if eq && is_at(t, i + 2, '=') {
            Some((TokenKind::StrictEq, 3))
        } else if eq {
            Some((TokenKind::Eq, 2))
        } else {
            Some((TokenKind::Assign, 1))
        }
    } else if c == '!' {
        if eq && is_at(t, i + 2, '=') {
            Some((TokenKind::StrictNe, 3))
        } else if eq {
            Some((TokenKind::Ne, 2))
        } else {
            Some((TokenKind::Not, 1))
        }
    } else if c == '+' {
        if is_at(t, i + 1, '+') {
            Some((TokenKind::PlusPlus, 2))
        } else if eq {
            Some((TokenKind::PlusAssign, 2))
        } else {
            Some((TokenKind::Plus, 1))
        }
    } else if c == '-' {
        if is_at(t, i + 1, '-') {
            Some((TokenKind::MinusMinus, 2))
        } else if eq {
            Some((TokenKind::MinusAssign, 2))
        } else {
            Some((TokenKind::Minus, 1))
        }
    } else if c == '*' {
        if eq {
            Some((TokenKind::StarAssign, 2))
        } else {
            Some((TokenKind::Star, 1))
        }
    } else if c == '%' {
        if eq {
            Some((TokenKind::PercentAssign, 2))
        } else {
            Some((TokenKind::Percent, 1))
        }
    } else if c == '^' {
        if eq {
            Some((TokenKind::BitXorAssign, 2))
        } else {
            Some((TokenKind::BitXor, 1))
        }
    } else if c == '/' {
        if eq {
            Some((TokenKind::SlashAssign, 2))
        } else {
            Some((TokenKind::Slash, 1))
        }
    } else {
        paired_operator_at(t, i)
    }
}

/// The operators on `&`, `|`, `<` and `>`.
pub open spec fn paired_operator_at(t: Seq<char>, i: int) -> Option<(TokenKind, int)> {
    let c = t[i];
    let eq = is_at(t, i + 1, '=');
    let twice = is_at(t, i + 1, c);
    if c == '&' {
        if twice && is_at(t, i + 2, '=') {
            Some((TokenKind::LogAndAssign, 3))
        } else if twice {
            Some((TokenKind::LogAnd, 2))
        } else if eq {
            Some((TokenKind::BitAndAssign, 2))
        } else {
            Some((TokenKind::BitAnd, 1))
        }
    } else if c == '|' {
        if twice && is_at(t, i + 2, '=') {
            Some((TokenKind::LogOrAssign, 3))
        } else if twice {
            Some((TokenKind::LogOr, 2))
        } else if eq {
            Some((TokenKind::BitOrAssign, 2))
        } else {
            Some((TokenKind::BitOr, 1))
        }
    } else if c == '<' {
        if twice && is_at(t, i + 2, '=') {
            Some((TokenKind::ShlAssign, 3))
        } else if twice {
            Some((TokenKind::Shl, 2))
        } else if eq {
            Some((TokenKind::Le, 2))
        } else {
            Some((TokenKind::Lt, 1))
        }
    } else if c == '>' {
        let thrice = twice && is_at(t, i + 2, '>');
        if thrice && is_at(t, i + 3, '=') {
            Some((TokenKind::UshrAssign, 4))
        } else if thrice {
            Some((TokenKind::Ushr, 3))
        } else if twice && is_at(t, i + 2, '=') {
            Some((TokenKind::ShrAssign, 3))
        } else if twice {
            Some((TokenKind::Shr, 2))
        } else if eq {
            Some((TokenKind::Ge, 2))
        } else {
            Some((TokenKind::Gt, 1))
        }
    } else {
        None
    }
}

// Tokens.

/// The token can be the last one of an expression.
pub open spec fn ends_expression(k: KindView) -> bool {
    match k {
        KindView::Plain(p) => match p {
            TokenKind::Int(_) | TokenKind::UInt(_) | TokenKind::RParen | TokenKind::RBracket
            | TokenKind::This | TokenKind::Super | TokenKind::True | TokenKind::False
            | TokenKind::Null | TokenKind::PlusPlus | TokenKind::MinusMinus => true,
            _ => false,
        },
        _ => true,
    }
}

/// A `/` starts a regular expression where the previous token cannot end an
/// expression.
pub open spec fn regex_allowed_after(tokens: Seq<TokenView>) -> bool {
    tokens.len() == 0 || !ends_expression(tokens.last().kind)
}

pub open spec fn regex_step(src: SourceId, t: Seq<char>, s: Scan) -> Scan {
    let (e, closed) = pattern_end(t, s.pos + 1, false);
    if closed {
        let f = run_end(t, e + 1, Class::Letter);
        put(
            src,
            t,
            s,
            KindView::RegExp(t.subrange(s.pos + 1, e), t.subrange(e + 1, f)),
            f,
        )
    } else {
        Scan {
            pos: e,
            ..fault(
                src,
                t,
                s,
                UNTERMINATED_REGEX,
                "unterminated regular expression literal"@,
                e,
            )
        }
    }
}

pub open spec fn string_step(src: SourceId, t: Seq<char>, s: Scan) -> Scan {
    let x = string_scan(t, s.pos + 1, t[s.pos], Seq::empty(), false);
    let s1 = Scan { newline: s.newline || x.newline, ..s };
    let s2 = match x.fault {
        Some(m) => fault(src, t, s1, UNTERMINATED_STRING, m, x.end),
        None => s1,
    };
    put(src, t, s2, KindView::Str(x.value), x.end)
}

pub open spec fn number_step(src: SourceId, t: Seq<char>, s: Scan) -> Scan {
    let x = number_scan(t, s.pos);
    let s1 = match x.fault {
        Some((m, e)) => fault(src, t, s, MALFORMED_NUMBER, m, e),
        None => s,
    };
    put(src, t, s1, x.kind, x.end)
}

pub open spec fn word_step(src: SourceId, t: Seq<char>, s: Scan) -> Scan {
    let e = run_end(t, s.pos, Class::IdentPart);
    let w = t.subrange(s.pos, e);
    put(
        src,
        t,
        s,
        match keyword_of(w) {
            Some(k) => KindView::Plain(k),
            None => KindView::Ident(w),
        },
        e,
    )
}

pub open spec fn unexpected_step(src: SourceId, t: Seq<char>, s: Scan) -> Scan {
    Scan {
        pos: s.pos + 1,
        ..fault(
            src,
            t,
            s,
            UNEXPECTED_CHAR,
            "unexpected character `"@ + seq![t[s.pos]] + "`"@,
            s.pos + 1,
        )
    }
}

/// A number starts at `i`.
pub open spec fn number_starts(t: Seq<char>, i: int) -> bool {
    class_at(t, i, Class::Digit) || (is_at(t, i, '.') && class_at(t, i + 1, Class::Digit))
}

/// One token, or one error, at the current position.
pub open spec fn token_step(src: SourceId, t: Seq<char>, s: Scan) -> Scan {
    if t[s.pos] == '"' || t[s.pos] == '\'' {
        string_step(src, t, s)
    } else if number_starts(t, s.pos) {
        number_step(src, t, s)
    } else if t[s.pos] == '/' && regex_allowed_after(s.tokens) {
        regex_step(src, t, s)
    } else {
        match punctuator_at(t, s.pos) {
            Some((k, n)) => put(src, t, s, KindView::Plain(k), s.pos + n),
            None => if ident_start(t[s.pos]) {
                word_step(src, t, s)
            } else {
                unexpected_step(src, t, s)
            },
        }
    }
}

/// The rest of the text.
pub open spec fn scan_rest(src: SourceId, t: Seq<char>, s: Scan) -> Scan
    decreases t.len() - s.pos,
{
    let s1 = trivia(src, t, s);
    if s1.pos >= t.len() {
        put(src, t, s1, KindView::Plain(TokenKind::Eof), s1.pos)
    } else {
        let s2 = token_step(src, t, s1);
        if s.pos < s2.pos <= t.len() {
            scan_rest(src, t, s2)
        } else {
            arbitrary()
        }
    }
}

/// The tokens and the errors of a text.
pub open spec fn lexed(src: SourceId, t: Seq<char>) -> Scan {
    scan_rest(
        src,
        t,
        Scan { pos: 0, newline: false, tokens: Seq::empty(), diags: Seq::empty() },
    )
}

// --- the scanner --------------------------------------------------------------------------

struct Scanner<'a> {
    source: SourceId,
    text: &'a Vec<char>,
    offsets: &'a Vec<u32>,
    pos: usize,
    newline_before: bool,
    tokens: Vec<Token>,
    diagnostics: Vec<Diagnostic>,
}

impl<'a> Scanner<'a> {
    spec fn wf(&self) -> bool {
        &&& self.pos <= self.text@.len()
        &&& byte_len(self.text@) <= u32::MAX
        &&& self.offsets@.len() == self.text@.len() + 1
        &&& forall|i: int|
            0 <= i <= self.text@.len() ==> #[trigger] self.offsets@[i] == byte_at(self.text@, i)
    }

    spec fn same_text(&self, other: &Self) -> bool {
        self.source == other.source && self.text == other.text && self.offsets == other.offsets
    }

    spec fn scan(&self) -> Scan {
        Scan {
            pos: self.pos as int,
            newline: self.newline_before,
            tokens: token_views(self.tokens@),
            diags: diag_views(self.diagnostics@),
        }
    }

    /// Pushes the token from the current position to `end`.
    fn push(&mut self, kind: TokenKind, end: usize)
        requires
            old(self).wf(),
            old(self).pos <= end <= old(self).text@.len(),
        ensures
            final(self).wf(),
            final(self).same_text(old(self)),
            final(self).scan() == put(
                old(self).source,
                old(self).text@,
                old(self).scan(),
                kind@,
                end as int,
            ),
    {
        let span = Span::new(self.source, self.offsets[self.pos], self.offsets[end]);
        let token = Token { kind, span, newline_before: self.newline_before };
        proof {
            assert(token_views(self.tokens@.push(token)) =~= token_views(self.tokens@).push(
                token@,
            ));
        }
        self.tokens.push(token);
        self.newline_before = false;
        self.pos = end;
    }

    /// Reports an error from the current position to `end`.
    fn error(&mut self, code: u16, message: &str, end: usize)
        requires
            old(self).wf(),
            old(self).pos <= end <= old(self).text@.len(),
        ensures
            final(self).wf(),
            final(self).same_text(old(self)),
            final(self).scan() == fault(
                old(self).source,
                old(self).text@,
                old(self).scan(),
                code,
                message@,
                end as int,
            ),
    {
        let span = Span::new(self.source, self.offsets[self.pos], self.offsets[end]);
        let d = Diagnostic::error(ErrorCode(code), message).with_span(span);
        proof {
            assert(diag_views(self.diagnostics@.push(d)) =~= diag_views(self.diagnostics@).push(
                d@,
            ));
        }
        self.diagnostics.push(d);
    }

    fn block_comment(&mut self)
        requires
            old(self).wf(),
            is_at(old(self).text@, old(self).pos as int, '/'),
            is_at(old(self).text@, old(self).pos + 1, '*'),
        ensures
            final(self).wf(),
            final(self).same_text(old(self)),
            final(self).scan() == comment_step(old(self).source, old(self).text@, old(self).scan()),
            final(self).pos > old(self).pos,
    {
        let ghost t = self.text@;
        let len: usize = self.text.len();
        let first: usize = self.pos + 2;
        let mut k: usize = first;
        let mut crossed = false;
        while k < len && !(looks_at(self.text, k, 0, '*') && looks_at(self.text, k, 1, '/'))
            invariant
                first <= k <= len == t.len(),
                self.text@ == t,
                comment_end(t, first as int) == comment_end(t, k as int),
                crossed == line_end_within(t, first as int, k as int),
            decreases len - k,
        {
            if is_line_terminator(self.text[k]) {
                crossed = true;
                assert(line_end(t[k as int]));
            }
            assert(line_end_within(t, first as int, k + 1) == (line_end_within(
                t,
                first as int,
                k as int,
            ) || line_end(t[k as int]))) by {
                if line_end_within(t, first as int, k as int) {
                    let j = choose|j: int| first <= j < k && line_end(#[trigger] t[j]);
                    assert(line_end(t[j]));
                }
            }
            k = k + 1;
        }
        if k >= len {
            self.error(UNTERMINATED_COMMENT, "unterminated block comment", len);
            self.pos = len;
        } else {
            self.pos = k + 2;
        }
        self.newline_before = self.newline_before || crossed;
    }

    fn skip_trivia(&mut self)
        requires
            old(self).wf(),
        ensures
            final(self).wf(),
            final(self).same_text(old(self)),
            final(self).scan() == trivia(old(self).source, old(self).text@, old(self).scan()),
            final(self).pos >= old(self).pos,
    {
        while self.pos < self.text.len()
            invariant
                self.wf(),
                self.same_text(old(self)),
                trivia(self.source, self.text@, old(self).scan()) == trivia(
                    self.source,
                    self.text@,
                    self.scan(),
                ),
                self.pos >= old(self).pos,
            decreases self.text@.len() - self.pos,
        {
            let c = self.text[self.pos];
            if is_line_terminator(c) {
                self.pos = self.pos + 1;
                self.newline_before = true;
            } else if is_whitespace(c) {
                self.pos = self.pos + 1;
            } else if c == '/' && looks_at(self.text, self.pos, 1, '/') {
                proof {
                    lemma_run_end(self.text@, self.pos as int + 1, Class::SameLine);
                }
                self.pos = skip_run(self.text, self.pos, Class::SameLine);
            } else if c == '/' && looks_at(self.text, self.pos, 1, '*') {
                self.block_comment();
            } else {
                return;
            }
        }
    }

    fn regex_allowed(&self) -> (r: bool)
        ensures
            r == regex_allowed_after(self.scan().tokens),
    {
        if self.tokens.len() == 0 {
            return true;
        }
        assert(self.scan().tokens.last() == self.tokens@.last()@);
        match self.tokens[self.tokens.len() - 1].kind {
            TokenKind::Int(_)
            | TokenKind::UInt(_)
            | TokenKind::Number(_)
            | TokenKind::Str(_)
            | TokenKind::Ident(_)
            | TokenKind::RegExp(_, _)
            | TokenKind::RParen
            | TokenKind::RBracket
            | TokenKind::This
            | TokenKind::Super
            | TokenKind::True
            | TokenKind::False
            | TokenKind::Null
            | TokenKind::PlusPlus
            | TokenKind::MinusMinus => false,
            _ => true,
        }
    }

    /// Scans `/pattern/flags`.
    fn regex(&mut self)
        requires
            old(self).wf(),
            old(self).pos < old(self).text@.len(),
        ensures
            final(self).wf(),
            final(self).same_text(old(self)),
            final(self).scan() == regex_step(old(self).source, old(self).text@, old(self).scan()),
            final(self).pos > old(self).pos,
    {
        let len: usize = self.text.len();
        let first: usize = self.pos + 1;
        let (e, closed): (usize, bool) = find_pattern_end(self.text, first);
        if !closed {
            self.error(UNTERMINATED_REGEX, "unterminated regular expression literal", e);
            self.pos = e;
            return;
        }
        let f: usize = skip_run(self.text, e + 1, Class::Letter);
        let pattern = substring(self.text, first, e);
        let flags = substring(self.text, e + 1, f);
        self.push(TokenKind::RegExp(pattern, flags), f);
    }

    fn string_literal(&mut self)
        requires
            old(self).wf(),
            old(self).pos < old(self).text@.len(),
        ensures
            final(self).wf(),
            final(self).same_text(old(self)),
            final(self).scan() == string_step(old(self).source, old(self).text@, old(self).scan()),
            final(self).pos > old(self).pos,
    {
        let len: usize = self.text.len();
        let x = read_string(self.text, self.pos + 1, self.text[self.pos]);
        self.newline_before = self.newline_before || x.newline;
        if let Some(m) = x.fault {
            self.error(UNTERMINATED_STRING, m, x.end);
        }
        self.push(TokenKind::Str(x.value), x.end);
    }

    fn number(&mut self)
        requires
            old(self).wf(),
            old(self).pos < old(self).text@.len(),
            number_starts(old(self).text@, old(self).pos as int),
        ensures
            final(self).wf(),
            final(self).same_text(old(self)),
            final(self).scan() == number_step(old(self).source, old(self).text@, old(self).scan()),
            final(self).pos > old(self).pos,
    {
        let x = read_number(self.text, self.pos);
        if let Some((m, e)) = x.fault {
            self.error(MALFORMED_NUMBER, m, e);
        }
        self.push(x.kind, x.end);
    }

    fn identifier(&mut self)
        requires
            old(self).wf(),
            old(self).pos < old(self).text@.len(),
            ident_start(old(self).text@[old(self).pos as int]),
        ensures
            final(self).wf(),
            final(self).same_text(old(self)),
            final(self).scan() == word_step(old(self).source, old(self).text@, old(self).scan()),
            final(self).pos > old(self).pos,
    {
        proof {
            lemma_run_end(self.text@, self.pos as int + 1, Class::IdentPart);
        }
        let e: usize = skip_run(self.text, self.pos, Class::IdentPart);
        let word = substring(self.text, self.pos, e);
        let kind = match TokenKind::keyword(word.as_str()) {
            Some(k) => {
                assert(k@ == KindView::Plain(k)) by {
                    lemma_keyword_plain(word@);
                }
                k
            },
            None => TokenKind::Ident(word),
        };
        self.push(kind, e);
    }

    fn unexpected(&mut self)
        requires
            old(self).wf(),
            old(self).pos < old(self).text@.len(),
        ensures
            final(self).wf(),
            final(self).same_text(old(self)),
            final(self).scan() == unexpected_step(
                old(self).source,
                old(self).text@,
                old(self).scan(),
            ),
            final(self).pos > old(self).pos,
    {
        let mut m = String::new();
        push_text(&mut m, "unexpected character `");
        m.push(self.text[self.pos]);
        push_text(&mut m, "`");
        assert(m@ =~= "unexpected character `"@ + seq![self.text@[self.pos as int]] + "`"@);
        let len: usize = self.text.len();
        let end: usize = self.pos + 1;
        self.error(UNEXPECTED_CHAR, m.as_str(), end);
        self.pos = end;
    }

    fn token(&mut self)
        requires
            old(self).wf(),
            old(self).pos < old(self).text@.len(),
        ensures
            final(self).wf(),
            final(self).same_text(old(self)),
            final(self).scan() == token_step(old(self).source, old(self).text@, old(self).scan()),
            final(self).pos > old(self).pos,
    {
        let c = self.text[self.pos];
        if c == '"' || c == '\'' {
            self.string_literal();
        } else if is_digit(c) || (c == '.' && looks_at_class(
            self.text,
            self.pos,
            1,
            Class::Digit,
        )) {
            self.number();
        } else if c == '/' && self.regex_allowed() {
            self.regex();
        } else {
            let len: usize = self.text.len();
            match punctuator(self.text, self.pos) {
                Some((k, n)) => {
                    let end: usize = self.pos + n;
                    self.push(k, end);
                },
                None => {
                    if is_ident_start(c) {
                        self.identifier();
                    } else {
                        self.unexpected();
                    }
                },
            }
        }
    }

    fn run(&mut self)
        requires
            old(self).wf(),
        ensures
            final(self).scan() == scan_rest(old(self).source, old(self).text@, old(self).scan()),
    {
        loop
            invariant
                self.wf(),
                self.same_text(old(self)),
                scan_rest(self.source, self.text@, old(self).scan()) == scan_rest(
                    self.source,
                    self.text@,
                    self.scan(),
                ),
            decreases self.text@.len() - self.pos,
        {
            self.skip_trivia();
            if self.pos >= self.text.len() {
                let end: usize = self.pos;
                self.push(TokenKind::Eof, end);
                return;
            }
            self.token();
        }
    }
}

proof fn lemma_keyword_plain(w: Seq<char>)
    ensures
        keyword_of(w) matches Some(k) ==> k@ == KindView::Plain(k),
{
    reveal(keyword_of);
}

/// The operator, bracket or separator at `i`, and its length.
fn punctuator(t: &Vec<char>, i: usize) -> (r: Option<(TokenKind, usize)>)
    requires
        i < t@.len(),
    ensures
        match r {
            Some((k, n)) => {
                &&& punctuator_at(t@, i as int) == Some((k, n as int))
                &&& k@ == KindView::Plain(k)
                &&& 0 < n <= t@.len() - i
            },
            None => punctuator_at(t@, i as int) is None,
        },
{
    match t[i] {
        '(' => Some((TokenKind::LParen, 1)),
        ')' => Some((TokenKind::RParen, 1)),
        '[' => Some((TokenKind::LBracket, 1)),
        ']' => Some((TokenKind::RBracket, 1)),
        '{' => Some((TokenKind::LBrace, 1)),
        '}' => Some((TokenKind::RBrace, 1)),
        ';' => Some((TokenKind::Semicolon, 1)),
        ',' => Some((TokenKind::Comma, 1)),
        '~' => Some((TokenKind::BitNot, 1)),
        '?' => Some((TokenKind::Question, 1)),
        _ => operator(t, i),
    }
}

fn operator(t: &Vec<char>, i: usize) -> (r: Option<(TokenKind, usize)>)
    requires
        i < t@.len(),
    ensures
        match r {
            Some((k, n)) => {
                &&& operator_at(t@, i as int) == Some((k, n as int))
                &&& k@ == KindView::Plain(k)
                &&& 0 < n <= t@.len() - i
            },
            None => operator_at(t@, i as int) is None,
        },
{
    let eq = looks_at(t, i, 1, '=');
    match t[i] {
        '.' => if looks_at(t, i, 1, '.') && looks_at(t, i, 2, '.') {
            Some((TokenKind::Ellipsis, 3))
        } else if looks_at(t, i, 1, '.') {
            Some((TokenKind::DotDot, 2))
        } else if looks_at(t, i, 1, '<') {
            Some((TokenKind::LeftDotAngle, 2))
        } else {
            Some((TokenKind::Dot, 1))
        },
        ':' => if looks_at(t, i, 1, ':') {
            Some((TokenKind::ColonColon, 2))
        } else {
            Some((TokenKind::Colon, 1))
        },
        '=' => if eq && looks_at(t, i, 2, '=') {
            Some((TokenKind::StrictEq, 3))
        } else if eq {
            Some((TokenKind::Eq, 2))
        } else {
            Some((TokenKind::Assign, 1))
        },
        '!' => if eq && looks_at(t, i, 2, '=') {
            Some((TokenKind::StrictNe, 3))
        } else if eq {
            Some((TokenKind::Ne, 2))
        } else {
            Some((TokenKind::Not, 1))
        },
        '+' => if looks_at(t, i, 1, '+') {
            Some((TokenKind::PlusPlus, 2))
        } else if eq {
            Some((TokenKind::PlusAssign, 2))
        } else {
            Some((TokenKind::Plus, 1))
        },
        '-' => if looks_at(t, i, 1, '-') {
            Some((TokenKind::MinusMinus, 2))
        } else if eq {
            Some((TokenKind::MinusAssign, 2))
        } else {
            Some((TokenKind::Minus, 1))
        },
        '*' => if eq {
            Some((TokenKind::StarAssign, 2))
        } else {
            Some((TokenKind::Star, 1))
        },
        '%' => if eq {
            Some((TokenKind::PercentAssign, 2))
        } else {
            Some((TokenKind::Percent, 1))
        },
        '^' => if eq {
            Some((TokenKind::BitXorAssign, 2))
        } else {
            Some((TokenKind::BitXor, 1))
        },
        '/' => if eq {
            Some((TokenKind::SlashAssign, 2))
        } else {
            Some((TokenKind::Slash, 1))
        },
        _ => paired_operator(t, i),
    }
}

fn paired_operator(t: &Vec<char>, i: usize) -> (r: Option<(TokenKind, usize)>)
    requires
        i < t@.len(),
    ensures
        match r {
            Some((k, n)) => {
                &&& paired_operator_at(t@, i as int) == Some((k, n as int))
                &&& k@ == KindView::Plain(k)
                &&& 0 < n <= t@.len() - i
            },
            None => paired_operator_at(t@, i as int) is None,
        },
{
    let c = t[i];
    let eq = looks_at(t, i, 1, '=');
    let twice = looks_at(t, i, 1, c);
    match c {
        '&' => if twice && looks_at(t, i, 2, '=') {
            Some((TokenKind::LogAndAssign, 3))
        } else if twice {
            Some((TokenKind::LogAnd, 2))
        } else if eq {
            Some((TokenKind::BitAndAssign, 2))
        } else {
            Some((TokenKind::BitAnd, 1))
        },
        '|' => if twice && looks_at(t, i, 2, '=') {
            Some((TokenKind::LogOrAssign, 3))
        } else if twice {
            Some((TokenKind::LogOr, 2))
        } else if eq {
            Some((TokenKind::BitOrAssign, 2))
        } else {
            Some((TokenKind::BitOr, 1))
        },
        '<' => if twice && looks_at(t, i, 2, '=') {
            Some((TokenKind::ShlAssign, 3))
        } else if twice {
            Some((TokenKind::Shl, 2))
        } else if eq {
            Some((TokenKind::Le, 2))
        } else {
            Some((TokenKind::Lt, 1))
        },
        '>' => {
            let thrice = twice && looks_at(t, i, 2, '>');
            if thrice && looks_at(t, i, 3, '=') {
                Some((TokenKind::UshrAssign, 4))
            } else if thrice {
                Some((TokenKind::Ushr, 3))
            } else if twice && looks_at(t, i, 2, '=') {
                Some((TokenKind::ShrAssign, 3))
            } else if twice {
                Some((TokenKind::Shr, 2))
            } else if eq {
                Some((TokenKind::Ge, 2))
            } else {
                Some((TokenKind::Gt, 1))
            }
        },
        _ => None,
    }
}

/// Lexes a source text into a token stream ending with [`TokenKind::Eof`].
///
/// Errors are collected, not fatal: the scanner skips the offending character
/// or ends the literal, so that the parser still gets a stream.
pub fn lex(source: SourceId, text: &str) -> (r: (Vec<Token>, Vec<Diagnostic>))
    requires
        byte_len(text@) <= u32::MAX,
    ensures
        token_views(r.0@) == lexed(source, text@).tokens,
        diag_views(r.1@) == lexed(source, text@).diags,
{
    let chars = chars_of(text);
    let offsets = byte_offsets(&chars);
    let mut scanner = Scanner {
        source,
        text: &chars,
        offsets: &offsets,
        pos: 0,
        newline_before: false,
        tokens: Vec::new(),
        diagnostics: Vec::new(),
    };
    proof {
        assert(scanner.scan().tokens =~= Seq::<TokenView>::empty());
        assert(scanner.scan().diags =~= Seq::<DiagView>::empty());
    }
    scanner.run();
    (scanner.tokens, scanner.diagnostics)
}

} // verus!
