use volentscript::diagnostics::{
    Diagnostic, ErrorCode, MALFORMED_NUMBER, NOT_IMPLEMENTED, UNEXPECTED_CHAR,
    UNTERMINATED_COMMENT, UNTERMINATED_REGEX, UNTERMINATED_STRING,
};
use volentscript::lexer::chars::{
    is_ident_continue, is_ident_start, is_line_terminator, is_whitespace,
};
use volentscript::lexer::scan::lex;
use volentscript::lexer::token::{NumLit, TokenKind};
use volentscript::span::{SourceId, Span};

fn kinds(text: &str) -> Vec<TokenKind> {
    let (tokens, diags) = lex(SourceId(0), text);
    assert!(diags.is_empty(), "unexpected diagnostics: {diags:?}");
    tokens.into_iter().map(|t| t.kind).collect()
}

fn ident(s: &str) -> TokenKind {
    TokenKind::Ident(s.into())
}

fn worth(n: &NumLit) -> f64 {
    match n {
        NumLit::Decimal(t) => t.parse().unwrap(),
        NumLit::Whole(v) => *v as f64,
        NumLit::NotANumber => f64::NAN,
    }
}

/// A token as text, with Number literals by their value.
fn shown(k: &TokenKind) -> String {
    match k {
        TokenKind::Number(n) => format!("Number({:?})", worth(n)),
        other => format!("{other:?}"),
    }
}

fn all_shown(text: &str) -> Vec<String> {
    kinds(text).iter().map(shown).collect()
}

#[test]
fn renders_code_and_message() {
    let d = Diagnostic::error(ErrorCode(NOT_IMPLEMENTED), "not implemented");
    assert_eq!(d.render(), "error[E0001]: not implemented");
}

#[test]
fn keywords_and_identifiers() {
    assert_eq!(
        kinds("var x is as foo each"),
        vec![
            TokenKind::Var,
            ident("x"),
            TokenKind::Is,
            TokenKind::As,
            ident("foo"),
            // contextual, not a keyword
            ident("each"),
            TokenKind::Eof
        ]
    );
}

#[test]
fn compound_operators_including_logical_assign() {
    assert_eq!(
        kinds("a &&= b ||= c >>>= d !== e"),
        vec![
            ident("a"),
            TokenKind::LogAndAssign,
            ident("b"),
            TokenKind::LogOrAssign,
            ident("c"),
            TokenKind::UshrAssign,
            ident("d"),
            TokenKind::StrictNe,
            ident("e"),
            TokenKind::Eof
        ]
    );
}

#[test]
fn dot_family() {
    assert_eq!(
        all_shown("a.b ... .. Vector.<int> .5"),
        vec![
            "Ident(\"a\")",
            "Dot",
            "Ident(\"b\")",
            "Ellipsis",
            "DotDot",
            "Ident(\"Vector\")",
            "LeftDotAngle",
            "Ident(\"int\")",
            "Gt",
            "Number(0.5)",
            "Eof"
        ]
    );
}

#[test]
fn numbers_classify_by_magnitude() {
    assert_eq!(
        all_shown("42 2147483647 2147483648 4294967295 4294967296 1.5 1e3 0xFF"),
        vec![
            "Int(42)",
            "Int(2147483647)",
            "UInt(2147483648)",
            "UInt(4294967295)",
            "Number(4294967296.0)",
            "Number(1.5)",
            "Number(1000.0)",
            "Int(255)",
            "Eof"
        ]
    );
}

#[test]
fn string_escapes_and_line_continuation() {
    assert_eq!(
        kinds("\"a\\tb\\u0041\\x41\\\n c\""),
        vec![TokenKind::Str("a\tbAA c".into()), TokenKind::Eof]
    );
    // invalid \x degrades to literal x
    assert_eq!(kinds("\"\\xZZ\""), vec![TokenKind::Str("xZZ".into()), TokenKind::Eof]);
}

#[test]
fn newline_before_flag() {
    let (tokens, _) = lex(SourceId(0), "a\nb /* \n */ c d");
    let flags: Vec<bool> = tokens.iter().map(|t| t.newline_before).collect();
    // b: after newline; c: block comment containing newline counts
    assert_eq!(flags, vec![false, true, true, false, false]);
}

#[test]
fn string_errors_recover() {
    let (tokens, diags) = lex(SourceId(0), "\"abc\nvar");
    assert_eq!(diags.len(), 1);
    assert_eq!(diags[0].code, Some(ErrorCode(UNTERMINATED_STRING)));
    assert_eq!(tokens.last().unwrap().kind, TokenKind::Eof);
    assert!(tokens.iter().any(|t| t.kind == TokenKind::Var), "scanner must recover");
}

/// The codes and places of the errors of a text.
fn errors(text: &str) -> Vec<(u16, u32, u32)> {
    let (_, diags) = lex(SourceId(0), text);
    diags
        .iter()
        .map(|d| {
            let s = d.span.unwrap();
            (d.code.unwrap().0, s.start, s.end)
        })
        .collect()
}

#[test]
fn each_lexical_error_is_reported() {
    assert_eq!(errors("a # b")[0].0, UNEXPECTED_CHAR);
    assert_eq!(errors("a /* b")[0].0, UNTERMINATED_COMMENT);
    assert_eq!(errors("'a")[0].0, UNTERMINATED_STRING);
    assert_eq!(errors("0x")[0].0, MALFORMED_NUMBER);
    assert_eq!(errors("1e+")[0].0, MALFORMED_NUMBER);
    assert_eq!(errors("= /ab\n")[0].0, UNTERMINATED_REGEX);
    assert_eq!(errors("/a\u{2028}b/")[0].0, UNTERMINATED_REGEX);
    assert_eq!(errors("= /a\u{2029}b/")[0].0, UNTERMINATED_REGEX);
    assert_eq!(errors("= /a\\\u{2028}b/")[0].0, UNTERMINATED_REGEX);
    assert_eq!(errors("= /ab")[0].0, UNTERMINATED_REGEX);
    assert_eq!(errors("a = b"), vec![]);
}

#[test]
fn a_letter_after_a_number_is_malformed_whatever_its_width() {
    assert_eq!(errors("12ab")[0].0, MALFORMED_NUMBER);
    assert_eq!(errors("1é")[0].0, MALFORMED_NUMBER);
}

#[test]
fn slashes_divide_after_an_operand_and_open_a_regex_elsewhere() {
    assert_eq!(
        kinds("a / b"),
        vec![ident("a"), TokenKind::Slash, ident("b"), TokenKind::Eof]
    );
    assert_eq!(
        kinds("x = /a[/]b\\/c/gi;"),
        vec![
            ident("x"),
            TokenKind::Assign,
            TokenKind::RegExp("a[/]b\\/c".into(), "gi".into()),
            TokenKind::Semicolon,
            TokenKind::Eof
        ]
    );
}

#[test]
fn spans_count_bytes() {
    let (tokens, _) = lex(SourceId(3), "é = \"ü\" ;");
    let places: Vec<(u32, u32)> = tokens.iter().map(|t| (t.span.start, t.span.end)).collect();
    assert_eq!(places, vec![(0, 2), (3, 4), (5, 9), (10, 11), (11, 11)]);
    assert_eq!(tokens[0].span, Span::new(SourceId(3), 0, 2));
}

#[test]
fn unicode_letters_and_spaces() {
    assert_eq!(
        kinds("naïve\u{a0}\u{3000}_$9"),
        vec![ident("naïve"), ident("_$9"), TokenKind::Eof]
    );
    assert_eq!(kinds("a٣"), vec![ident("a٣"), TokenKind::Eof]);
}

#[test]
fn the_stream_ends_with_eof_and_is_in_order() {
    for text in ["", "a", "a + \"b", "/* x", "# #", "1.5.2", "a.<b>>>c"] {
        let (tokens, _) = lex(SourceId(0), text);
        assert_eq!(tokens.last().unwrap().kind, TokenKind::Eof);
        let eofs = tokens.iter().filter(|t| t.kind == TokenKind::Eof).count();
        assert_eq!(eofs, 1);
        for w in tokens.windows(2) {
            assert!(w[0].span.start <= w[0].span.end);
            assert!(w[0].span.end <= w[1].span.start);
        }
        assert_eq!(tokens.last().unwrap().span.end as usize, text.len());
    }
}

#[test]
fn the_longest_punctuator_wins() {
    assert_eq!(
        kinds(">>>= >>> >>= >> >= > === == = !== != !"),
        vec![
            TokenKind::UshrAssign,
            TokenKind::Ushr,
            TokenKind::ShrAssign,
            TokenKind::Shr,
            TokenKind::Ge,
            TokenKind::Gt,
            TokenKind::StrictEq,
            TokenKind::Eq,
            TokenKind::Assign,
            TokenKind::StrictNe,
            TokenKind::Ne,
            TokenKind::Not,
            TokenKind::Eof
        ]
    );
}

#[test]
fn keywords_are_recognised_by_their_word() {
    assert_eq!(TokenKind::keyword("instanceof"), Some(TokenKind::Instanceof));
    assert_eq!(TokenKind::keyword("each"), None);
    assert_eq!(TokenKind::keyword(""), None);
    assert!(TokenKind::Null.is_kind(&TokenKind::Null));
    assert!(!TokenKind::Null.is_kind(&TokenKind::True));
}

#[test]
fn big_hexadecimal_literals_are_whole_numbers() {
    assert_eq!(
        all_shown("0x80000000 0x100000000"),
        vec!["UInt(2147483648)", "Number(4294967296.0)", "Eof"]
    );
}

#[test]
fn no_character_is_of_two_classes() {
    for c in (0..=0x10FFFF).filter_map(char::from_u32) {
        let classes = [is_whitespace(c), is_line_terminator(c), is_ident_continue(c)];
        assert!(classes.iter().filter(|b| **b).count() <= 1, "{c:?}");
        assert!(!is_ident_start(c) || is_ident_continue(c), "{c:?}");
        assert_eq!(is_line_terminator(c), "\n\r\u{2028}\u{2029}".contains(c), "{c:?}");
    }
}

#[test]
fn identifiers_are_made_of_what_unicode_calls_alphabetic_and_numeric() {
    for c in (0..=0x10FFFF).filter_map(char::from_u32) {
        let start = c == '_'
            || c == '$'
            || c.is_ascii_alphabetic()
            || (!c.is_ascii() && c.is_alphabetic());
        let part = start || c.is_ascii_digit() || (!c.is_ascii() && c.is_numeric());
        assert_eq!(is_ident_start(c), start, "{c:?}");
        assert_eq!(is_ident_continue(c), part, "{c:?}");
    }
}
