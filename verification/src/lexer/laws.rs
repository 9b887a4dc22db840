//! Laws of the lexer.

use vstd::prelude::*;

use crate::lexer::chars::{
    blank, byte_at, byte_len, ident_continue, ident_start, lemma_byte_at_mono, lemma_run_end,
    line_end, run_end, Class,
};
use crate::lexer::literal::{
    class_at, decimal_end, escape_scan, exponent_digits, is_at, mantissa_end, number_scan,
    pattern_end, string_scan,
};
use crate::lexer::scan::{
    comment_end, comment_step, lexed, number_starts, punctuator_at, scan_rest, span_of,
    token_step, trivia, Scan,
};
use crate::lexer::token::{keyword_of, keyword_text, punctuator_text, KindView, TokenKind, TokenView};
use crate::span::SourceId;

verus! {

// --- each step stays within the text ------------------------------------------------------

proof fn lemma_comment_end(t: Seq<char>, i: int)
    requires
        0 <= i <= t.len(),
    ensures
        comment_end(t, i) matches Some(e) ==> i + 2 <= e <= t.len(),
    decreases t.len() - i,
{
    if i < t.len() && !(is_at(t, i, '*') && is_at(t, i + 1, '/')) {
        lemma_comment_end(t, i + 1);
    }
}

proof fn lemma_pattern_end(t: Seq<char>, i: int, in_set: bool)
    requires
        0 <= i <= t.len(),
    ensures
        i <= pattern_end(t, i, in_set).0 <= t.len(),
        pattern_end(t, i, in_set).1 ==> pattern_end(t, i, in_set).0 < t.len(),
    decreases t.len() - i,
{
    if i < t.len() {
        lemma_pattern_end(t, i + 1, in_set);
        lemma_pattern_end(t, i + 1, true);
        lemma_pattern_end(t, i + 1, false);
        if i + 1 < t.len() {
            lemma_pattern_end(t, i + 2, in_set);
        }
    }
}

proof fn lemma_escape_end(t: Seq<char>, i: int)
    requires
        0 <= i <= t.len(),
    ensures
        i <= escape_scan(t, i).end <= t.len(),
{
    if i + 1 < t.len() {
        lemma_run_end(t, i + 2, Class::Hex);
    }
    if i < t.len() {
        if forall|k: int| i + 1 <= k < i + 1 + 2 ==> #[trigger] class_at(t, k, Class::Hex) {
            assert(class_at(t, i + 2, Class::Hex));
        }
        if forall|k: int| i + 1 <= k < i + 1 + 4 ==> #[trigger] class_at(t, k, Class::Hex) {
            assert(class_at(t, i + 4, Class::Hex));
        }
    }
}

proof fn lemma_string_end(t: Seq<char>, i: int, quote: char, value: Seq<char>, newline: bool)
    requires
        0 <= i <= t.len(),
    ensures
        i <= string_scan(t, i, quote, value, newline).end <= t.len(),
    decreases t.len() - i,
{
    if i < t.len() {
        lemma_escape_end(t, i + 1);
        let x = escape_scan(t, i + 1);
        let v = match x.out {
            Some(o) => value.push(o),
            None => value,
        };
        lemma_string_end(t, x.end, quote, v, newline || x.newline);
        lemma_string_end(t, i + 1, quote, value.push(t[i]), newline);
    }
}

proof fn lemma_number_end(t: Seq<char>, i: int)
    requires
        0 <= i < t.len(),
        number_starts(t, i),
    ensures
        i < number_scan(t, i).end <= t.len(),
        number_scan(t, i).fault matches Some((_, e)) ==> i <= e <= t.len(),
        number_scan(t, i).kind != KindView::Plain(TokenKind::Eof),
        weight(number_scan(t, i).kind) == 1,
{
    lemma_run_end(t, i, Class::Digit);
    if i + 1 < t.len() {
        lemma_run_end(t, i + 2, Class::Hex);
        let e = run_end(t, i + 2, Class::Hex);
        lemma_run_end(t, e, Class::IdentPart);
    }
    let d = run_end(t, i, Class::Digit);
    if d < t.len() {
        lemma_run_end(t, d + 1, Class::Digit);
    }
    let m = mantissa_end(t, i);
    let x = exponent_digits(t, m);
    if class_at(t, x, Class::Digit) {
        lemma_run_end(t, x, Class::Digit);
    }
    let e = decimal_end(t, i);
    lemma_run_end(t, e, Class::IdentPart);
    if t[i] == '.' {
        assert(d == i);
    }
}

proof fn lemma_trivia(src: SourceId, t: Seq<char>, s: Scan)
    requires
        0 <= s.pos <= t.len(),
    ensures
        s.pos <= trivia(src, t, s).pos <= t.len(),
        trivia(src, t, s).tokens == s.tokens,
    decreases t.len() - s.pos,
{
    if s.pos < t.len() {
        lemma_run_end(t, s.pos, Class::SameLine);
        lemma_run_end(t, s.pos + 1, Class::SameLine);
        lemma_trivia(src, t, Scan { pos: s.pos + 1, newline: true, ..s });
        lemma_trivia(src, t, Scan { pos: s.pos + 1, ..s });
        if is_at(t, s.pos, '/') && is_at(t, s.pos + 1, '/') {
            let e = run_end(t, s.pos, Class::SameLine);
            lemma_trivia(src, t, Scan { pos: e, ..s });
        }
        if is_at(t, s.pos, '/') && is_at(t, s.pos + 1, '*') {
            lemma_comment_end(t, s.pos + 2);
            lemma_trivia(src, t, comment_step(src, t, s));
        }
    }
}

proof fn lemma_punctuator(t: Seq<char>, i: int)
    requires
        0 <= i < t.len(),
    ensures
        punctuator_at(t, i) matches Some((k, n)) ==> {
            &&& 1 <= n <= t.len() - i
            &&& k != TokenKind::Eof
            &&& weight(KindView::Plain(k)) <= n
        },
{
}

/// How many `>` can be taken off the front of a token, the token included.
pub open spec fn weight(k: KindView) -> nat {
    match k {
        KindView::Plain(TokenKind::Ge) | KindView::Plain(TokenKind::Shr) => 2,
        KindView::Plain(TokenKind::ShrAssign) | KindView::Plain(TokenKind::Ushr) => 3,
        KindView::Plain(TokenKind::UshrAssign) => 4,
        _ => 1,
    }
}

/// A token that starts with several `>` is as long as it has parts.
pub open spec fn roomy(ts: Seq<TokenView>) -> bool {
    forall|i: int|
        #![trigger ts[i]]
        0 <= i < ts.len() && weight(ts[i].kind) > 1 ==> ts[i].span.start + weight(ts[i].kind)
            <= ts[i].span.end
}

/// One step adds at most one token, which starts where the step starts and
/// ends where it ends.
proof fn lemma_token_step(src: SourceId, t: Seq<char>, s: Scan)
    requires
        0 <= s.pos < t.len(),
    ensures
        s.pos < token_step(src, t, s).pos <= t.len(),
        token_step(src, t, s).tokens == s.tokens || exists|k: TokenView| #[trigger]
            s.tokens.push(k) == token_step(src, t, s).tokens && k.kind != KindView::Plain(
                TokenKind::Eof,
            ) && k.span == span_of(src, t, s.pos, token_step(src, t, s).pos) && weight(k.kind)
                <= token_step(src, t, s).pos - s.pos,
{
    lemma_pattern_end(t, s.pos + 1, false);
    lemma_string_end(t, s.pos + 1, t[s.pos], Seq::empty(), false);
    lemma_run_end(t, s.pos, Class::IdentPart);
    lemma_run_end(t, s.pos + 1, Class::IdentPart);
    lemma_punctuator(t, s.pos);
    let e = pattern_end(t, s.pos + 1, false).0;
    if pattern_end(t, s.pos + 1, false).1 {
        lemma_run_end(t, e + 1, Class::Letter);
    }
    if number_starts(t, s.pos) {
        lemma_number_end(t, s.pos);
    }
    let r = token_step(src, t, s);
    if r.tokens != s.tokens {
        assert(s.tokens.push(r.tokens.last()) =~= r.tokens);
        let w = t.subrange(s.pos, run_end(t, s.pos, Class::IdentPart));
        assert(keyword_of(w) matches Some(k) ==> k != TokenKind::Eof && weight(KindView::Plain(k))
            == 1) by {
            reveal(keyword_of);
        }
    }
}

// --- the stream ---------------------------------------------------------------------------

/// The tokens lie one after the other in the bytes up to `end`.
pub open spec fn in_order(src: SourceId, ts: Seq<TokenView>, end: nat) -> bool {
    &&& forall|i: int|
        #![trigger ts[i]]
        0 <= i < ts.len() ==> ts[i].span.source == src && ts[i].span.start <= ts[i].span.end
            && ts[i].span.end <= end
    &&& forall|i: int, j: int|
        #![trigger ts[i], ts[j]]
        0 <= i < j < ts.len() ==> ts[i].span.end <= ts[j].span.start
}

/// No token ends the input.
pub open spec fn no_eof(ts: Seq<TokenView>) -> bool {
    forall|i: int|
        #![trigger ts[i]]
        0 <= i < ts.len() ==> ts[i].kind != KindView::Plain(TokenKind::Eof)
}

proof fn lemma_scan_rest(src: SourceId, t: Seq<char>, s: Scan)
    requires
        0 <= s.pos <= t.len(),
        byte_len(t) <= u32::MAX,
        no_eof(s.tokens),
        roomy(s.tokens),
        in_order(src, s.tokens, byte_at(t, s.pos)),
    ensures
        ({
            let r = scan_rest(src, t, s);
            &&& r.pos == t.len()
            &&& r.tokens.len() > 0
            &&& r.tokens.last().kind == KindView::Plain(TokenKind::Eof)
            &&& no_eof(r.tokens.drop_last())
            &&& in_order(src, r.tokens, byte_len(t))
            &&& roomy(r.tokens)
        }),
    decreases t.len() - s.pos,
{
    lemma_trivia(src, t, s);
    let s1 = trivia(src, t, s);
    lemma_byte_at_mono(t, s.pos, s1.pos);
    lemma_byte_at_mono(t, s1.pos, t.len() as int);
    if s1.pos >= t.len() {
        let r = scan_rest(src, t, s);
        assert(r.tokens.drop_last() =~= s.tokens);
    } else {
        lemma_token_step(src, t, s1);
        let s2 = token_step(src, t, s1);
        lemma_byte_at_mono(t, s1.pos, s2.pos);
        lemma_byte_at_mono(t, s2.pos, t.len() as int);
        if s2.tokens != s.tokens {
            let k = choose|k: TokenView| #[trigger]
                s1.tokens.push(k) == s2.tokens && k.kind != KindView::Plain(TokenKind::Eof)
                    && k.span == span_of(src, t, s1.pos, s2.pos) && weight(k.kind) <= s2.pos
                    - s1.pos;
            assert(s2.tokens == s.tokens.push(k));
        }
        assert(in_order(src, s2.tokens, byte_at(t, s2.pos)));
        lemma_scan_rest(src, t, s2);
    }
}

/// The whole text is scanned, whatever it is: the stream ends with the
/// end-of-input token, which stands nowhere else in it.
pub proof fn law_stream_ends_with_eof(src: SourceId, t: Seq<char>)
    requires
        byte_len(t) <= u32::MAX,
    ensures
        lexed(src, t).pos == t.len(),
        lexed(src, t).tokens.len() > 0,
        lexed(src, t).tokens.last().kind == KindView::Plain(TokenKind::Eof),
        no_eof(lexed(src, t).tokens.drop_last()),
{
    lemma_scan_rest(
        src,
        t,
        Scan { pos: 0, newline: false, tokens: Seq::empty(), diags: Seq::empty() },
    );
}

/// A token that starts with several `>` spans at least as many bytes, so that
/// one `>` can be taken off its front.
pub proof fn law_tokens_roomy(src: SourceId, t: Seq<char>)
    requires
        byte_len(t) <= u32::MAX,
    ensures
        roomy(lexed(src, t).tokens),
{
    lemma_scan_rest(
        src,
        t,
        Scan { pos: 0, newline: false, tokens: Seq::empty(), diags: Seq::empty() },
    );
}

/// The tokens lie in the text one after the other, without overlap.
pub proof fn law_tokens_in_order(src: SourceId, t: Seq<char>)
    requires
        byte_len(t) <= u32::MAX,
    ensures
        in_order(src, lexed(src, t).tokens, byte_len(t)),
{
    lemma_scan_rest(
        src,
        t,
        Scan { pos: 0, newline: false, tokens: Seq::empty(), diags: Seq::empty() },
    );
}

// --- spelling -----------------------------------------------------------------------------

/// `w` stands in the text at `i`.
pub open spec fn stands_at(t: Seq<char>, i: int, w: Seq<char>) -> bool {
    0 <= i && i + w.len() <= t.len() && t.subrange(i, i + w.len()) == w
}

/// What the scanner takes for an operator, a bracket or a separator is written
/// in the text, and no longer one is: `>>>=` is never read as `>>` and `>=`.
pub proof fn law_longest_punctuator(t: Seq<char>, i: int, other: TokenKind, w: &'static str)
    requires
        punctuator_text(other) == Some(w),
        stands_at(t, i, w@),
    ensures
        match punctuator_at(t, i) {
            Some((k, n)) => n >= w@.len() && match punctuator_text(k) {
                Some(v) => v@.len() == n && stands_at(t, i, v@),
                None => false,
            },
            None => false,
        },
{
    reveal(punctuator_text);
    reveal_strlit("(");
    reveal_strlit(")");
    reveal_strlit("[");
    reveal_strlit("]");
    reveal_strlit("{");
    reveal_strlit("}");
    reveal_strlit(";");
    reveal_strlit(",");
    reveal_strlit("~");
    reveal_strlit("?");
    reveal_strlit(".");
    reveal_strlit("..");
    reveal_strlit("...");
    reveal_strlit(".<");
    reveal_strlit(":");
    reveal_strlit("::");
    reveal_strlit("=");
    reveal_strlit("==");
    reveal_strlit("===");
    reveal_strlit("!");
    reveal_strlit("!=");
    reveal_strlit("!==");
    reveal_strlit("+");
    reveal_strlit("++");
    reveal_strlit("+=");
    reveal_strlit("-");
    reveal_strlit("--");
    reveal_strlit("-=");
    reveal_strlit("*");
    reveal_strlit("*=");
    reveal_strlit("%");
    reveal_strlit("%=");
    reveal_strlit("^");
    reveal_strlit("^=");
    reveal_strlit("/");
    reveal_strlit("/=");
    reveal_strlit("&");
    reveal_strlit("&&");
    reveal_strlit("&=");
    reveal_strlit("&&=");
    reveal_strlit("|");
    reveal_strlit("||");
    reveal_strlit("|=");
    reveal_strlit("||=");
    reveal_strlit("<");
    reveal_strlit("<=");
    reveal_strlit("<<");
    reveal_strlit("<<=");
    reveal_strlit(">");
    reveal_strlit(">=");
    reveal_strlit(">>");
    reveal_strlit(">>=");
    reveal_strlit(">>>");
    reveal_strlit(">>>=");
    assert(w@.len() >= 1);
    assert forall|j: int| 0 <= j < w@.len() implies t[i + j] == w@[j] by {
        assert(t.subrange(i, i + w@.len())[j] == w@[j]);
    }
    assert(t[i + 0] == w@[0]);
    if w@.len() >= 2 {
        assert(t[i + 1] == w@[1]);
    }
    if w@.len() >= 3 {
        assert(t[i + 2] == w@[2]);
    }
    if w@.len() >= 4 {
        assert(t[i + 3] == w@[3]);
    }
    let (k, n) = punctuator_at(t, i)->0;
    let v = punctuator_text(k)->0;
    assert(t.subrange(i, i + v@.len()) =~= v@);
}

/// Every keyword is recognised by its own spelling.
pub proof fn law_keywords_recognised(k: TokenKind, w: &'static str)
    requires
        keyword_text(k) == Some(w),
    ensures
        keyword_of(w@) == Some(k),
{
    reveal(keyword_text);
    reveal(keyword_of);
    reveal_strlit("var");
    assert("var"@.len() == 3 && "var"@[0] == 'v' && "var"@[1] == 'a' && "var"@[2] == 'r');
    reveal_strlit("const");
    assert("const"@.len() == 5 && "const"@[0] == 'c' && "const"@[1] == 'o' && "const"@[2] == 'n' && "const"@[3] == 's');
    reveal_strlit("function");
    assert("function"@.len() == 8 && "function"@[0] == 'f' && "function"@[1] == 'u' && "function"@[2] == 'n' && "function"@[3] == 'c');
    reveal_strlit("if");
    assert("if"@.len() == 2 && "if"@[0] == 'i' && "if"@[1] == 'f');
    reveal_strlit("else");
    assert("else"@.len() == 4 && "else"@[0] == 'e' && "else"@[1] == 'l' && "else"@[2] == 's' && "else"@[3] == 'e');
    reveal_strlit("while");
    assert("while"@.len() == 5 && "while"@[0] == 'w' && "while"@[1] == 'h' && "while"@[2] == 'i' && "while"@[3] == 'l');
    reveal_strlit("do");
    assert("do"@.len() == 2 && "do"@[0] == 'd' && "do"@[1] == 'o');
    reveal_strlit("for");
    assert("for"@.len() == 3 && "for"@[0] == 'f' && "for"@[1] == 'o' && "for"@[2] == 'r');
    reveal_strlit("switch");
    assert("switch"@.len() == 6 && "switch"@[0] == 's' && "switch"@[1] == 'w' && "switch"@[2] == 'i' && "switch"@[3] == 't');
    reveal_strlit("case");
    assert("case"@.len() == 4 && "case"@[0] == 'c' && "case"@[1] == 'a' && "case"@[2] == 's' && "case"@[3] == 'e');
    reveal_strlit("default");
    assert("default"@.len() == 7 && "default"@[0] == 'd' && "default"@[1] == 'e' && "default"@[2] == 'f' && "default"@[3] == 'a');
    reveal_strlit("break");
    assert("break"@.len() == 5 && "break"@[0] == 'b' && "break"@[1] == 'r' && "break"@[2] == 'e' && "break"@[3] == 'a');
    reveal_strlit("continue");
    assert("continue"@.len() == 8 && "continue"@[0] == 'c' && "continue"@[1] == 'o' && "continue"@[2] == 'n' && "continue"@[3] == 't');
    reveal_strlit("return");
    assert("return"@.len() == 6 && "return"@[0] == 'r' && "return"@[1] == 'e' && "return"@[2] == 't' && "return"@[3] == 'u');
    reveal_strlit("throw");
    assert("throw"@.len() == 5 && "throw"@[0] == 't' && "throw"@[1] == 'h' && "throw"@[2] == 'r' && "throw"@[3] == 'o');
    reveal_strlit("try");
    assert("try"@.len() == 3 && "try"@[0] == 't' && "try"@[1] == 'r' && "try"@[2] == 'y');
    reveal_strlit("catch");
    assert("catch"@.len() == 5 && "catch"@[0] == 'c' && "catch"@[1] == 'a' && "catch"@[2] == 't' && "catch"@[3] == 'c');
    reveal_strlit("finally");
    assert("finally"@.len() == 7 && "finally"@[0] == 'f' && "finally"@[1] == 'i' && "finally"@[2] == 'n' && "finally"@[3] == 'a');
    reveal_strlit("package");
    assert("package"@.len() == 7 && "package"@[0] == 'p' && "package"@[1] == 'a' && "package"@[2] == 'c' && "package"@[3] == 'k');
    reveal_strlit("import");
    assert("import"@.len() == 6 && "import"@[0] == 'i' && "import"@[1] == 'm' && "import"@[2] == 'p' && "import"@[3] == 'o');
    reveal_strlit("namespace");
    assert("namespace"@.len() == 9 && "namespace"@[0] == 'n' && "namespace"@[1] == 'a' && "namespace"@[2] == 'm' && "namespace"@[3] == 'e');
    reveal_strlit("use");
    assert("use"@.len() == 3 && "use"@[0] == 'u' && "use"@[1] == 's' && "use"@[2] == 'e');
    reveal_strlit("class");
    assert("class"@.len() == 5 && "class"@[0] == 'c' && "class"@[1] == 'l' && "class"@[2] == 'a' && "class"@[3] == 's');
    reveal_strlit("interface");
    assert("interface"@.len() == 9 && "interface"@[0] == 'i' && "interface"@[1] == 'n' && "interface"@[2] == 't' && "interface"@[3] == 'e');
    reveal_strlit("extends");
    assert("extends"@.len() == 7 && "extends"@[0] == 'e' && "extends"@[1] == 'x' && "extends"@[2] == 't' && "extends"@[3] == 'e');
    reveal_strlit("implements");
    assert("implements"@.len() == 10 && "implements"@[0] == 'i' && "implements"@[1] == 'm' && "implements"@[2] == 'p' && "implements"@[3] == 'l');
    reveal_strlit("public");
    assert("public"@.len() == 6 && "public"@[0] == 'p' && "public"@[1] == 'u' && "public"@[2] == 'b' && "public"@[3] == 'l');
    reveal_strlit("private");
    assert("private"@.len() == 7 && "private"@[0] == 'p' && "private"@[1] == 'r' && "private"@[2] == 'i' && "private"@[3] == 'v');
    reveal_strlit("protected");
    assert("protected"@.len() == 9 && "protected"@[0] == 'p' && "protected"@[1] == 'r' && "protected"@[2] == 'o' && "protected"@[3] == 't');
    reveal_strlit("internal");
    assert("internal"@.len() == 8 && "internal"@[0] == 'i' && "internal"@[1] == 'n' && "internal"@[2] == 't' && "internal"@[3] == 'e');
    reveal_strlit("final");
    assert("final"@.len() == 5 && "final"@[0] == 'f' && "final"@[1] == 'i' && "final"@[2] == 'n' && "final"@[3] == 'a');
    reveal_strlit("dynamic");
    assert("dynamic"@.len() == 7 && "dynamic"@[0] == 'd' && "dynamic"@[1] == 'y' && "dynamic"@[2] == 'n' && "dynamic"@[3] == 'a');
    reveal_strlit("native");
    assert("native"@.len() == 6 && "native"@[0] == 'n' && "native"@[1] == 'a' && "native"@[2] == 't' && "native"@[3] == 'i');
    reveal_strlit("override");
    assert("override"@.len() == 8 && "override"@[0] == 'o' && "override"@[1] == 'v' && "override"@[2] == 'e' && "override"@[3] == 'r');
    reveal_strlit("static");
    assert("static"@.len() == 6 && "static"@[0] == 's' && "static"@[1] == 't' && "static"@[2] == 'a' && "static"@[3] == 't');
    reveal_strlit("goto");
    assert("goto"@.len() == 4 && "goto"@[0] == 'g' && "goto"@[1] == 'o' && "goto"@[2] == 't' && "goto"@[3] == 'o');
    reveal_strlit("new");
    assert("new"@.len() == 3 && "new"@[0] == 'n' && "new"@[1] == 'e' && "new"@[2] == 'w');
    reveal_strlit("delete");
    assert("delete"@.len() == 6 && "delete"@[0] == 'd' && "delete"@[1] == 'e' && "delete"@[2] == 'l' && "delete"@[3] == 'e');
    reveal_strlit("void");
    assert("void"@.len() == 4 && "void"@[0] == 'v' && "void"@[1] == 'o' && "void"@[2] == 'i' && "void"@[3] == 'd');
    reveal_strlit("typeof");
    assert("typeof"@.len() == 6 && "typeof"@[0] == 't' && "typeof"@[1] == 'y' && "typeof"@[2] == 'p' && "typeof"@[3] == 'e');
    reveal_strlit("in");
    assert("in"@.len() == 2 && "in"@[0] == 'i' && "in"@[1] == 'n');
    reveal_strlit("instanceof");
    assert("instanceof"@.len() == 10 && "instanceof"@[0] == 'i' && "instanceof"@[1] == 'n' && "instanceof"@[2] == 's' && "instanceof"@[3] == 't');
    reveal_strlit("is");
    assert("is"@.len() == 2 && "is"@[0] == 'i' && "is"@[1] == 's');
    reveal_strlit("as");
    assert("as"@.len() == 2 && "as"@[0] == 'a' && "as"@[1] == 's');
    reveal_strlit("this");
    assert("this"@.len() == 4 && "this"@[0] == 't' && "this"@[1] == 'h' && "this"@[2] == 'i' && "this"@[3] == 's');
    reveal_strlit("super");
    assert("super"@.len() == 5 && "super"@[0] == 's' && "super"@[1] == 'u' && "super"@[2] == 'p' && "super"@[3] == 'e');
    reveal_strlit("true");
    assert("true"@.len() == 4 && "true"@[0] == 't' && "true"@[1] == 'r' && "true"@[2] == 'u' && "true"@[3] == 'e');
    reveal_strlit("false");
    assert("false"@.len() == 5 && "false"@[0] == 'f' && "false"@[1] == 'a' && "false"@[2] == 'l' && "false"@[3] == 's');
    reveal_strlit("null");
    assert("null"@.len() == 4 && "null"@[0] == 'n' && "null"@[1] == 'u' && "null"@[2] == 'l' && "null"@[3] == 'l');
}

/// The classes of characters: line terminators are LF, CR, U+2028 and U+2029; no
/// character is of two of the classes blank, line terminator and identifier part;
/// and what can start an identifier can continue it.
pub proof fn law_character_classes(c: char)
    ensures
        line_end(c) <==> c == '\n' || c == '\r' || c == '\u{2028}' || c == '\u{2029}',
        !(blank(c) && line_end(c)),
        !(blank(c) && ident_continue(c)),
        !(line_end(c) && ident_continue(c)),
        ident_start(c) ==> ident_continue(c),
{
}

} // verus!
