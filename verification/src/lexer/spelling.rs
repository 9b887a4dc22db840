//! How the values of literals are written, and that the lexer reads them so.
//!
//! What a text means is said here by the writing: a relation between a value and
//! the texts that stand for it. The laws say that the lexer gets the value back.

use vstd::prelude::*;

use crate::lexer::chars::{
    blank, hex_digit, ident_continue, ident_start, in_class, line_end, run_end, Class,
};
use crate::lexer::laws::law_keywords_recognised;
use crate::lexer::literal::{
    char_for, class_at, decimal_end, digit_value, digits_value, escape_scan, hex_number,
    mantissa_end, number_scan, pattern_end, string_scan,
};
use crate::lexer::scan::{
    comment_end, comment_step, lexed, line_end_within, punctuator_at, scan_rest, token_step, trivia,
    Scan,
};
use crate::lexer::token::{keyword_of, keyword_text, KindView, NumView, TokenKind};
use crate::span::SourceId;

verus! {

// --- digits and numbers -------------------------------------------------------------------

/// The character is the digit worth `n`, in lower or upper case.
pub open spec fn is_digit_worth(c: char, n: int) -> bool {
    0 <= n < 16 && ("0123456789abcdef"@[n] == c || "0123456789ABCDEF"@[n] == c)
}

/// The digits are those of `n` in the base, with any number of zeros in front.
pub open spec fn spells(w: Seq<char>, base: int, n: int) -> bool
    decreases w.len(),
{
    if w.len() == 0 {
        n == 0
    } else {
        n >= 0 && is_digit_worth(w.last(), n % base) && spells(w.drop_last(), base, n / base)
    }
}

proof fn lemma_digit(c: char, n: int)
    requires
        is_digit_worth(c, n),
    ensures
        hex_digit(c),
        digit_value(c) == n,
        n < 10 ==> '0' <= c <= '9',
{
    reveal_strlit("0123456789abcdef");
    reveal_strlit("0123456789ABCDEF");
    let a = "0123456789abcdef"@;
    let b = "0123456789ABCDEF"@;
    assert(a.len() == 16 && b.len() == 16);
    assert(n == 0 || n == 1 || n == 2 || n == 3 || n == 4 || n == 5 || n == 6 || n == 7 || n == 8
        || n == 9 || n == 10 || n == 11 || n == 12 || n == 13 || n == 14 || n == 15);
}

/// Digits that stand in a text are worth what they spell.
proof fn lemma_digits(t: Seq<char>, i: int, w: Seq<char>, base: nat, n: int)
    requires
        base == 10 || base == 16,
        spells(w, base as int, n),
        0 <= i,
        i + w.len() <= t.len(),
        forall|k: int| 0 <= k < w.len() ==> t[i + k] == #[trigger] w[k],
    ensures
        digits_value(t, i, i + w.len(), base) == n,
        forall|k: int| i <= k < i + w.len() ==> hex_digit(#[trigger] t[k]),
        base == 10 ==> forall|k: int| i <= k < i + w.len() ==> '0' <= #[trigger] t[k] <= '9',
    decreases w.len(),
{
    if w.len() > 0 {
        let v = w.drop_last();
        let b = base as int;
        lemma_digit(w.last(), n % b);
        assert forall|k: int| 0 <= k < v.len() implies t[i + k] == #[trigger] v[k] by {
            assert(t[i + k] == w[k]);
        }
        lemma_digits(t, i, v, base, n / b);
        let last = i + w.len() - 1;
        assert(t[i + (w.len() - 1)] == w[w.len() - 1]);
        assert(t[last] == w.last());
        assert(n == b * (n / b) + n % b) by (nonlinear_arith)
            requires
                b > 0,
        ;
        assert(digits_value(t, i, i + w.len(), base) == base * digits_value(t, i, last, base)
            + digit_value(t[last]));
        assert forall|k: int| i <= k < i + w.len() implies hex_digit(#[trigger] t[k]) by {
            if k == last {
            }
        }
        if base == 10 {
            assert forall|k: int| i <= k < i + w.len() implies '0' <= #[trigger] t[k] <= '9' by {
                if k == last {
                }
            }
        }
    }
}

/// A run that is followed by something else, or by the end, ends there.
proof fn lemma_run_to(t: Seq<char>, i: int, j: int, k: Class)
    requires
        0 <= i <= j <= t.len(),
        forall|m: int| i <= m < j ==> in_class(k, #[trigger] t[m]),
        j < t.len() ==> !in_class(k, t[j]),
    ensures
        run_end(t, i, k) == j,
    decreases j - i,
{
    if i < j {
        lemma_run_to(t, i + 1, j, k);
    }
}

// --- strings ------------------------------------------------------------------------------

/// LF, CR, LS or PS.
pub open spec fn breaks_line(c: char) -> bool {
    c as u32 == 0x0A || c as u32 == 0x0D || c as u32 == 0x2028 || c as u32 == 0x2029
}

/// These are the line terminators, none of which is a blank.
proof fn lemma_break(c: char)
    ensures
        breaks_line(c) == line_end(c),
        breaks_line(c) ==> !blank(c),
{
}

/// The letter stands for the control character: `b`, `t`, `n`, `v`, `f` and `r`
/// for those from backspace on, in the order of their codes, and `0` for NUL.
pub open spec fn names_control(l: char, c: char) -> bool {
    ||| exists|k: int| 0 <= k < 6 && #[trigger] "btnvfr"@[k] == l && c as u32 == 8 + k
    ||| l == '0' && c as u32 == 0
}

/// The character stands for itself after a backslash.
pub open spec fn is_literal_escape(c: char) -> bool {
    !breaks_line(c) && !"btnvfr0xu"@.contains(c)
}

/// `w` is a way to write the character in a string between the quotes `q`.
pub open spec fn writes(w: Seq<char>, q: char, c: char) -> bool {
    ||| w == seq![c] && c != q && c != '\\' && !breaks_line(c)
    ||| w.len() == 2 && w[0] == '\\' && names_control(w[1], c)
    ||| w == seq!['\\', c] && is_literal_escape(c)
    ||| w.len() == 4 && w[0] == '\\' && w[1] == 'x' && spells(w.skip(2), 16, c as int)
    ||| w.len() == 6 && w[0] == '\\' && w[1] == 'u' && spells(w.skip(2), 16, c as int)
    ||| w.len() > 4 && w[0] == '\\' && w[1] == 'u' && w[2] == '{' && w.last() == '}' && spells(
        w.subrange(3, w.len() - 1),
        16,
        c as int,
    )
}

/// A backslash at the end of a line: it stands for nothing, and the string goes
/// on in the next line.
pub open spec fn continues_line(w: Seq<char>) -> bool {
    ||| w.len() == 2 && w[0] == '\\' && breaks_line(w[1])
    ||| w == seq!['\\', '\r', '\n']
}

/// `w` is a part of a string between the quotes `q`: it writes the character, or
/// nothing.
pub open spec fn writes_part(w: Seq<char>, q: char, v: Option<char>) -> bool {
    match v {
        Some(c) => writes(w, q, c),
        None => continues_line(w),
    }
}

/// The texts one after the other.
pub open spec fn joined(ws: Seq<Seq<char>>) -> Seq<char>
    decreases ws.len(),
{
    if ws.len() == 0 {
        Seq::empty()
    } else {
        joined(ws.drop_last()) + ws.last()
    }
}

/// The characters that are there.
pub open spec fn present(vs: Seq<Option<char>>) -> Seq<char>
    decreases vs.len(),
{
    if vs.len() == 0 {
        Seq::empty()
    } else {
        match vs.last() {
            Some(c) => present(vs.drop_last()).push(c),
            None => present(vs.drop_last()),
        }
    }
}

/// Each text is a part with the value at its place.
pub open spec fn writes_parts(ws: Seq<Seq<char>>, q: char, vs: Seq<Option<char>>) -> bool {
    ws.len() == vs.len() && forall|i: int|
        #![trigger ws[i]]
        #![trigger vs[i]]
        0 <= i < ws.len() ==> writes_part(ws[i], q, vs[i])
}

proof fn lemma_char_code(c: char)
    ensures
        char_for(c as nat) == c,
        c as u32 <= 0x10FFFF,
{
}

/// The escape at `i` is read as what it writes.
proof fn lemma_escape(t: Seq<char>, i: int, w: Seq<char>, q: char, c: char)
    requires
        0 <= i,
        i + w.len() <= t.len(),
        t.subrange(i, i + w.len()) == w,
        writes(w, q, c),
        w.len() > 1,
    ensures
        w[0] == '\\',
        escape_scan(t, i + 1).end == i + w.len(),
        escape_scan(t, i + 1).out == Some(c),
        !escape_scan(t, i + 1).newline,
{
    assert forall|k: int| 0 <= k < w.len() implies t[i + k] == #[trigger] w[k] by {
        assert(t.subrange(i, i + w.len())[k] == w[k]);
    }
    assert(t[i + 1] == w[1]);
    lemma_char_code(c);
    let l = w[1];
    reveal_strlit("btnvfr");
    reveal_strlit("btnvfr0xu");
    let letters = "btnvfr0xu"@;
    if w.len() == 2 && names_control(l, c) {
        if exists|k: int| 0 <= k < 6 && #[trigger] "btnvfr"@[k] == l && c as u32 == 8 + k {
            let k = choose|k: int| 0 <= k < 6 && #[trigger] "btnvfr"@[k] == l && c as u32 == 8 + k;
            assert(k == 0 || k == 1 || k == 2 || k == 3 || k == 4 || k == 5);
        }
    } else if w == seq!['\\', c] && is_literal_escape(c) {
        assert(letters[0] == 'b' && letters[1] == 't' && letters[2] == 'n' && letters[3] == 'v'
            && letters[4] == 'f' && letters[5] == 'r' && letters[6] == '0' && letters[7] == 'x'
            && letters[8] == 'u');
    } else if w.len() == 4 && l == 'x' && spells(w.skip(2), 16, c as int) {
        let h = w.skip(2);
        assert forall|k: int| 0 <= k < h.len() implies t[i + 2 + k] == #[trigger] h[k] by {
            assert(t[i + (k + 2)] == w[k + 2]);
        }
        lemma_digits(t, i + 2, h, 16, c as int);
        assert forall|k: int| i + 2 <= k < i + 4 implies #[trigger] class_at(t, k, Class::Hex) by {
            assert(hex_digit(t[k]));
        }
        assert(hex_number(t, i + 2, 2) == Some(c as nat));
    } else if w.len() == 6 && l == 'u' && spells(w.skip(2), 16, c as int) {
        let h = w.skip(2);
        assert forall|k: int| 0 <= k < h.len() implies t[i + 2 + k] == #[trigger] h[k] by {
            assert(t[i + (k + 2)] == w[k + 2]);
        }
        lemma_digits(t, i + 2, h, 16, c as int);
        assert forall|k: int| i + 2 <= k < i + 6 implies #[trigger] class_at(t, k, Class::Hex) by {
            assert(hex_digit(t[k]));
        }
        assert(hex_number(t, i + 2, 4) == Some(c as nat));
        assert(hex_digit(t[i + 2]));
    } else {
        let e = i + w.len() - 1;
        let h = w.subrange(3, w.len() - 1);
        assert forall|k: int| 0 <= k < h.len() implies t[i + 3 + k] == #[trigger] h[k] by {
            assert(t[i + (k + 3)] == w[k + 3]);
        }
        lemma_digits(t, i + 3, h, 16, c as int);
        assert(t[i + 2] == w[2]);
        assert(t[i + (w.len() - 1)] == w[w.len() - 1]);
        assert(t[e] == '}');
        lemma_run_to(t, i + 3, e, Class::Hex);
    }
}

/// One part of a literal is read as its value.
proof fn lemma_string_part(
    t: Seq<char>,
    i: int,
    w: Seq<char>,
    q: char,
    c: Option<char>,
    v: Seq<char>,
    newline: bool,
)
    requires
        q == '"' || q == '\'',
        0 <= i,
        i + w.len() <= t.len(),
        t.subrange(i, i + w.len()) == w,
        writes_part(w, q, c),
        i + w.len() < t.len() ==> t[i + w.len()] != '\n',
    ensures
        w.len() > 0,
        !breaks_line(w[0]),
        string_scan(t, i, q, v, newline) == string_scan(
            t,
            i + w.len(),
            q,
            match c {
                Some(x) => v.push(x),
                None => v,
            },
            newline || c is None,
        ),
{
    assert forall|k: int| 0 <= k < w.len() implies t[i + k] == #[trigger] w[k] by {
        assert(t.subrange(i, i + w.len())[k] == w[k]);
    }
    assert(t[i + 0] == w[0]);
    match c {
        Some(x) => {
            if w.len() > 1 {
                lemma_escape(t, i, w, q, x);
            }
        },
        None => {
            assert(t[i + 1] == w[1]);
            if w.len() == 3 {
                assert(t[i + 2] == w[2]);
            }
            let x = escape_scan(t, i + 1);
            assert(x.end == i + w.len() && x.out is None && x.newline);
        },
    }
}

/// The parts of a literal are read as their values.
proof fn lemma_string_parts(
    t: Seq<char>,
    i: int,
    ws: Seq<Seq<char>>,
    q: char,
    vs: Seq<Option<char>>,
)
    requires
        q == '"' || q == '\'',
        0 <= i,
        i + joined(ws).len() <= t.len(),
        t.subrange(i, i + joined(ws).len()) == joined(ws),
        writes_parts(ws, q, vs),
        i + joined(ws).len() < t.len() ==> t[i + joined(ws).len()] != '\n',
    ensures
        string_scan(t, i, q, Seq::empty(), false) == string_scan(
            t,
            i + joined(ws).len(),
            q,
            present(vs),
            vs.contains(None),
        ),
    decreases ws.len(),
{
    if ws.len() > 0 {
        let a = ws.drop_last();
        let b = vs.drop_last();
        let w = ws.last();
        let n = joined(a).len();
        assert(t.subrange(i, i + n) =~= t.subrange(i, i + joined(ws).len()).take(n as int));
        assert(t.subrange(i, i + n) =~= joined(a));
        assert(t.subrange(i + n, i + n + w.len()) =~= t.subrange(i, i + joined(ws).len()).skip(
            n as int,
        ));
        assert(t.subrange(i + n, i + n + w.len()) =~= w);
        assert forall|k: int| 0 <= k < a.len() implies writes_part(#[trigger] a[k], q, b[k]) by {
            assert(ws[k] == a[k] && vs[k] == b[k]);
        }
        assert(writes_part(ws[ws.len() - 1], q, vs[vs.len() - 1]));
        lemma_string_part(t, i + n, w, q, vs.last(), present(b), b.contains(None));
        assert(t.subrange(i + n, i + n + w.len())[0] == t[i + n]);
        lemma_string_parts(t, i, a, q, b);
        assert(vs.contains(None) == (b.contains(None) || vs.last() is None)) by {
            if b.contains(None) {
                let k = choose|k: int| 0 <= k < b.len() && b[k] == None::<char>;
                assert(vs[k] == None::<char>);
            }
            if vs.contains(None) {
                let k = choose|k: int| 0 <= k < vs.len() && vs[k] == None::<char>;
                if k < b.len() {
                    assert(b[k] == None::<char>);
                }
            }
            if vs.last() is None {
                assert(vs[vs.len() - 1] == None::<char>);
            }
        }
    } else {
        assert(!vs.contains(None));
    }
}

/// Where a text starts with a token, the token comes first; at the end of the
/// text there are no others.
proof fn lemma_only_token(src: SourceId, t: Seq<char>, k: KindView, newline: bool)
    requires
        t.len() > 0,
        token_may_start(t, 0),
        ({
            let s = Scan { pos: 0, newline: false, tokens: Seq::empty(), diags: Seq::empty() };
            let r = token_step(src, t, s);
            r.pos == t.len() && r.tokens.len() == 1 && r.tokens[0].kind == k
                && r.tokens[0].newline_before == newline
        }),
    ensures
        lexed(src, t).tokens.len() == 2,
        lexed(src, t).tokens[0].kind == k,
        lexed(src, t).tokens[0].newline_before == newline,
        lexed(src, t).tokens[1].kind == KindView::Plain(TokenKind::Eof),
        lexed(src, t).diags == token_step(
            src,
            t,
            Scan { pos: 0, newline: false, tokens: Seq::empty(), diags: Seq::empty() },
        ).diags,
{
    let s = Scan { pos: 0, newline: false, tokens: Seq::empty(), diags: Seq::empty() };
    reveal_with_fuel(trivia, 2);
    assert(trivia(src, t, s) == s);
    let r = token_step(src, t, s);
    assert(trivia(src, t, r) == r);
    reveal_with_fuel(scan_rest, 3);
}

/// A string literal is read as the text that it writes, however that is written:
/// characters as they are, `\b \t \n \v \f \r \0`, `\xHH`, `\uHHHH`, `\u{H...}`, other
/// characters after a backslash, and lines that go on after one. Without the
/// closing quote the text is the same, with one error.
pub proof fn law_string_literals(
    src: SourceId,
    q: char,
    ws: Seq<Seq<char>>,
    vs: Seq<Option<char>>,
)
    requires
        q == '"' || q == '\'',
        writes_parts(ws, q, vs),
    ensures
        ({
            let r = lexed(src, seq![q] + joined(ws) + seq![q]);
            &&& r.tokens.len() == 2
            &&& r.tokens[0].kind == KindView::Str(present(vs))
            &&& r.tokens[0].newline_before == vs.contains(None)
            &&& r.diags.len() == 0
        }),
        ({
            let r = lexed(src, seq![q] + joined(ws));
            &&& r.tokens.len() == 2
            &&& r.tokens[0].kind == KindView::Str(present(vs))
            &&& r.diags.len() == 1
        }),
{
    let w = joined(ws);
    let more = vs.contains(None);
    let t = seq![q] + w + seq![q];
    assert(t.subrange(1, 1 + w.len() as int) =~= w);
    lemma_string_parts(t, 1, ws, q, vs);
    assert(t[w.len() as int + 1] == q);
    assert(t[0] == q);
    lemma_only_token(src, t, KindView::Str(present(vs)), more);
    let u = seq![q] + w;
    assert(u.subrange(1, 1 + w.len() as int) =~= w);
    lemma_string_parts(u, 1, ws, q, vs);
    assert(u[0] == q);
    lemma_only_token(src, u, KindView::Str(present(vs)), more);
}

// --- numbers and words --------------------------------------------------------------------

proof fn lemma_whole_run(t: Seq<char>, i: int, k: Class)
    requires
        0 <= i <= t.len(),
        forall|m: int| i <= m < t.len() ==> in_class(k, #[trigger] t[m]),
    ensures
        run_end(t, i, k) == t.len(),
{
    lemma_run_to(t, i, t.len() as int, k);
}

/// The token for a whole number: an `int` if it is one, else a `uint` if it is
/// one, else a Number.
pub open spec fn whole_token(n: int, k: KindView) -> bool {
    match k {
        KindView::Plain(TokenKind::Int(v)) => v == n,
        KindView::Plain(TokenKind::UInt(v)) => v == n && n > i32::MAX,
        KindView::Number(_) => n > u32::MAX,
        _ => false,
    }
}

/// Decimal digits are read as the number that they spell; one that is no `uint`
/// is left as it is written.
pub proof fn law_decimal_integers(src: SourceId, w: Seq<char>, n: int)
    requires
        w.len() > 0,
        spells(w, 10, n),
    ensures
        lexed(src, w).tokens.len() == 2,
        lexed(src, w).diags.len() == 0,
        whole_token(n, lexed(src, w).tokens[0].kind),
        n > u32::MAX ==> lexed(src, w).tokens[0].kind == KindView::Number(NumView::Decimal(w)),
{
    lemma_digits(w, 0, w, 10, n);
    assert('0' <= w[0] <= '9');
    lemma_whole_run(w, 0, Class::Digit);
    assert(w.len() > 1 ==> '0' <= w[1] <= '9');
    assert(w.subrange(0, w.len() as int) =~= w);
    let x = number_scan(w, 0);
    lemma_only_token(src, w, x.kind, false);
}

/// Hexadecimal digits after `0x` or `0X` are read as the number that they spell,
/// up to the largest of 64 bits.
pub proof fn law_hex_integers(src: SourceId, x: char, w: Seq<char>, n: int)
    requires
        x == 'x' || x == 'X',
        w.len() > 0,
        spells(w, 16, n),
    ensures
        ({
            let r = lexed(src, seq!['0', x] + w);
            &&& r.tokens.len() == 2
            &&& r.diags.len() == 0
            &&& whole_token(n, r.tokens[0].kind)
            &&& u32::MAX < n <= u64::MAX ==> r.tokens[0].kind == KindView::Number(
                NumView::Whole(n as u64),
            )
            &&& n > u64::MAX ==> r.tokens[0].kind == KindView::Number(NumView::Whole(u64::MAX))
        }),
{
    let t = seq!['0', x] + w;
    lemma_digits(t, 2, w, 16, n);
    assert forall|m: int| 2 <= m < t.len() implies in_class(Class::Hex, #[trigger] t[m]) by {}
    lemma_whole_run(t, 2, Class::Hex);
    lemma_only_token(src, t, number_scan(t, 0).kind, false);
}

/// Decimal digits.
pub open spec fn all_digits(w: Seq<char>) -> bool {
    forall|i: int| 0 <= i < w.len() ==> '0' <= #[trigger] w[i] <= '9'
}

/// A number with a point, with digits before it or behind it, is a Number as it
/// is written, exponent included.
pub proof fn law_fractions(
    src: SourceId,
    a: Seq<char>,
    b: Seq<char>,
    exp: Seq<char>,
)
    requires
        all_digits(a),
        all_digits(b),
        a.len() + b.len() > 0,
        exp.len() == 0 || exp.len() > 1 && (exp[0] == 'e' || exp[0] == 'E') && all_digits(
            exp.skip(1),
        ) || exp.len() > 2 && (exp[0] == 'e' || exp[0] == 'E') && (exp[1] == '+' || exp[1] == '-')
            && all_digits(exp.skip(2)),
    ensures
        ({
            let t = a + seq!['.'] + b + exp;
            &&& lexed(src, t).tokens.len() == 2
            &&& lexed(src, t).diags.len() == 0
            &&& lexed(src, t).tokens[0].kind == KindView::Number(NumView::Decimal(t))
        }),
{
    let t = a + seq!['.'] + b + exp;
    let d = a.len() as int;
    let m = d + 1 + b.len();
    assert forall|k: int| 0 <= k < d implies '0' <= #[trigger] t[k] <= '9' by {
        assert(t[k] == a[k]);
    }
    assert(t[d] == '.');
    assert forall|k: int| d + 1 <= k < m implies '0' <= #[trigger] t[k] <= '9' by {
        assert(t[k] == b[k - d - 1]);
    }
    assert forall|k: int| m <= k < t.len() implies #[trigger] t[k] == exp[k - m] by {}
    lemma_run_to(t, 0, d, Class::Digit);
    lemma_run_to(t, d + 1, m, Class::Digit);
    assert(mantissa_end(t, 0) == m);
    if exp.len() > 0 {
        let x = if exp[1] == '+' || exp[1] == '-' {
            2int
        } else {
            1
        };
        assert(t[m] == exp[0] && t[m + 1] == exp[1]);
        assert(exp.skip(1)[0] == exp[1]);
        assert(all_digits(exp.skip(x)));
        assert(exp.skip(x)[0] == exp[x]);
        assert(t[m + x] == exp[x]);
        assert forall|k: int| m + x <= k < t.len() implies '0' <= #[trigger] t[k] <= '9' by {
            assert(t[k] == exp.skip(x)[k - m - x]);
        }
        lemma_whole_run(t, m + x, Class::Digit);
    }
    assert(decimal_end(t, 0) == t.len());
    assert(t.subrange(0, t.len() as int) =~= t);
    if d > 0 {
        assert(t[0] == a[0]);
        if d > 1 {
            assert(t[1] == a[1]);
        }
    } else {
        assert(t[1] == b[0]);
    }
    lemma_only_token(src, t, KindView::Number(NumView::Decimal(t)), false);
}

/// A word is read as the keyword that is written so, if there is one, else as
/// itself.
pub proof fn law_words(src: SourceId, w: Seq<char>)
    requires
        w.len() > 0,
        ident_start(w[0]),
        forall|i: int| 0 <= i < w.len() ==> ident_continue(#[trigger] w[i]),
    ensures
        lexed(src, w).tokens.len() == 2,
        lexed(src, w).diags.len() == 0,
        match lexed(src, w).tokens[0].kind {
            KindView::Plain(k) => keyword_text(k) matches Some(t) && t@ == w,
            KindView::Ident(v) => v == w && forall|k: TokenKind|
                #[trigger] keyword_text(k) matches Some(t) ==> t@ != w,
            _ => false,
        },
{
    lemma_whole_run(w, 0, Class::IdentPart);
    assert(w.subrange(0, w.len() as int) =~= w);
    let kind = match keyword_of(w) {
        Some(k) => KindView::Plain(k),
        None => KindView::Ident(w),
    };
    assert(punctuator_at(w, 0) is None);
    lemma_break(w[0]);
    lemma_only_token(src, w, kind, false);
    match keyword_of(w) {
        Some(k) => {
            reveal(keyword_of);
            reveal(keyword_text);
        },
        None => {
            assert forall|k: TokenKind| #[trigger] keyword_text(k) matches Some(t) ==> t@
                != w by {
                if let Some(t) = keyword_text(k) {
                    law_keywords_recognised(k, t);
                }
            }
        },
    }
}

// --- between tokens -----------------------------------------------------------------------

/// A line break stands in the text.
pub open spec fn has_break(t: Seq<char>) -> bool {
    exists|i: int| 0 <= i < t.len() && breaks_line(#[trigger] t[i])
}

/// What can stand between tokens: a blank, a line break, a comment that ends with
/// its line, or one between `/*` and the first `*/` behind it.
pub open spec fn is_separator(w: Seq<char>) -> bool {
    ||| w.len() == 1 && (blank(w[0]) || breaks_line(w[0]))
    ||| w.len() > 2 && w[0] == '/' && w[1] == '/' && breaks_line(w.last()) && !has_break(
        w.drop_last(),
    )
    ||| w.len() >= 4 && w[0] == '/' && w[1] == '*' && w[w.len() - 2] == '*' && w.last() == '/'
        && forall|i: int| 2 <= i < w.len() - 2 ==> !(#[trigger] w[i] == '*' && w[i + 1] == '/')
}

/// A token can start at `i`, or the text ends there.
pub open spec fn token_may_start(t: Seq<char>, i: int) -> bool {
    i >= t.len() || (!blank(t[i]) && !breaks_line(t[i]) && !(t[i] == '/' && i + 1 < t.len() && (
    t[i + 1] == '/' || t[i + 1] == '*')))
}

proof fn lemma_comment_to(t: Seq<char>, i: int, e: int)
    requires
        0 <= i <= e,
        e + 2 <= t.len(),
        t[e] == '*',
        t[e + 1] == '/',
        forall|k: int| i <= k < e ==> !(#[trigger] t[k] == '*' && t[k + 1] == '/'),
    ensures
        comment_end(t, i) == Some(e + 2),
    decreases e - i,
{
    if i < e {
        assert(!(t[i] == '*' && t[i + 1] == '/'));
        lemma_comment_to(t, i + 1, e);
    }
}

proof fn lemma_separator(src: SourceId, t: Seq<char>, w: Seq<char>, s: Scan)
    requires
        is_separator(w),
        0 <= s.pos,
        s.pos + w.len() <= t.len(),
        t.subrange(s.pos, s.pos + w.len()) == w,
    ensures
        trivia(src, t, s) == trivia(
            src,
            t,
            Scan { pos: s.pos + w.len(), newline: s.newline || has_break(w), ..s },
        ),
{
    let i = s.pos;
    let n = w.len() as int;
    assert forall|k: int| 0 <= k < w.len() implies t[i + k] == #[trigger] w[k] by {
        assert(t.subrange(i, i + w.len())[k] == w[k]);
    }
    assert(t[i + 0] == w[0]);
    lemma_break(w[0]);
    if n == 1 {
        if breaks_line(w[0]) {
            assert(has_break(w));
        } else {
            assert(!has_break(w));
        }
    } else if w[1] == '/' {
        assert(t[i + 1] == w[1]);
        assert(t[i + (n - 1)] == w[n - 1]);
        assert forall|m: int| i <= m < i + n - 1 implies in_class(
            Class::SameLine,
            #[trigger] t[m],
        ) by {
            assert(t[i + (m - i)] == w[m - i]);
            assert(w.drop_last()[m - i] == w[m - i]);
            lemma_break(w[m - i]);
        }
        lemma_break(w[n - 1]);
        lemma_run_to(t, i, i + n - 1, Class::SameLine);
        let s1 = Scan { pos: i + n - 1, ..s };
        assert(trivia(src, t, s) == trivia(src, t, s1));
        assert(breaks_line(w[n - 1]));
        assert(trivia(src, t, s1) == trivia(src, t, Scan { pos: i + n, newline: true, ..s }));
    } else {
        assert(t[i + 1] == w[1]);
        assert(t[i + (n - 1)] == w[n - 1]);
        assert(t[i + (n - 2)] == w[n - 2]);
        assert forall|k: int| i + 2 <= k < i + n - 2 implies !(#[trigger] t[k] == '*' && t[k + 1]
            == '/') by {
            assert(t[i + (k - i)] == w[k - i]);
            assert(t[i + (k - i + 1)] == w[k - i + 1]);
            assert(!(w[k - i] == '*' && w[k - i + 1] == '/'));
        }
        lemma_comment_to(t, i + 2, i + n - 2);
        assert(line_end_within(t, i + 2, i + n - 2) == has_break(w)) by {
            if has_break(w) {
                let k = choose|k: int| 0 <= k < w.len() && breaks_line(#[trigger] w[k]);
                assert(t[i + k] == w[k]);
                lemma_break(w[k]);
                assert(k != 0 && k != 1 && k != n - 1 && k != n - 2);
            }
            if line_end_within(t, i + 2, i + n - 2) {
                let k = choose|k: int| i + 2 <= k < i + n - 2 && line_end(#[trigger] t[k]);
                assert(t[i + (k - i)] == w[k - i]);
                lemma_break(w[k - i]);
            }
        }
        let s1 = comment_step(src, t, s);
        assert(s1.pos == i + n);
    }
}

/// Some of the texts holds a line break.
pub open spec fn any_break(ws: Seq<Seq<char>>) -> bool {
    exists|i: int| 0 <= i < ws.len() && has_break(#[trigger] ws[i])
}

/// Between tokens, blanks, line breaks and comments are skipped, all of them and
/// nothing else, and a line break counts wherever it stands in them, in a comment
/// too.
pub proof fn law_separators_are_skipped(src: SourceId, t: Seq<char>, ws: Seq<Seq<char>>, s: Scan)
    requires
        forall|i: int| 0 <= i < ws.len() ==> is_separator(#[trigger] ws[i]),
        0 <= s.pos,
        s.pos + joined(ws).len() <= t.len(),
        t.subrange(s.pos, s.pos + joined(ws).len()) == joined(ws),
        token_may_start(t, s.pos + joined(ws).len()),
    ensures
        trivia(src, t, s) == (Scan {
            pos: s.pos + joined(ws).len(),
            newline: s.newline || any_break(ws),
            ..s
        }),
{
    lemma_separators(src, t, ws, s);
    let e = Scan { pos: s.pos + joined(ws).len(), newline: s.newline || any_break(ws), ..s };
    assert(trivia(src, t, e) == e);
}

proof fn lemma_separators(src: SourceId, t: Seq<char>, ws: Seq<Seq<char>>, s: Scan)
    requires
        forall|i: int| 0 <= i < ws.len() ==> is_separator(#[trigger] ws[i]),
        0 <= s.pos,
        s.pos + joined(ws).len() <= t.len(),
        t.subrange(s.pos, s.pos + joined(ws).len()) == joined(ws),
    ensures
        trivia(src, t, s) == trivia(
            src,
            t,
            Scan { pos: s.pos + joined(ws).len(), newline: s.newline || any_break(ws), ..s },
        ),
    decreases ws.len(),
{
    if ws.len() > 0 {
        let a = ws.drop_last();
        let w = ws.last();
        let i = s.pos;
        let n = joined(a).len();
        assert(t.subrange(i, i + n) =~= t.subrange(i, i + joined(ws).len()).take(n as int));
        assert(t.subrange(i, i + n) =~= joined(a));
        assert(t.subrange(i + n, i + n + w.len()) =~= t.subrange(i, i + joined(ws).len()).skip(
            n as int,
        ));
        assert(t.subrange(i + n, i + n + w.len()) =~= w);
        assert forall|k: int| 0 <= k < a.len() implies is_separator(#[trigger] a[k]) by {
            assert(ws[k] == a[k]);
        }
        assert(is_separator(ws[ws.len() - 1]));
        lemma_separators(src, t, a, s);
        let mid = Scan { pos: i + n, newline: s.newline || any_break(a), ..s };
        lemma_separator(src, t, w, mid);
        assert(any_break(ws) == (any_break(a) || has_break(w))) by {
            if any_break(ws) {
                let k = choose|k: int| 0 <= k < ws.len() && has_break(#[trigger] ws[k]);
                if k < a.len() {
                    assert(a[k] == ws[k]);
                }
            }
            if any_break(a) {
                let k = choose|k: int| 0 <= k < a.len() && has_break(#[trigger] a[k]);
                assert(ws[k] == a[k]);
            }
            if has_break(w) {
                assert(ws[ws.len() - 1] == w);
            }
        }
    } else {
        assert(!any_break(ws));
    }
}

/// A token takes the note of a line break with it: it is marked as following one if
/// one was crossed since the token before it, or, in a string, if its own text goes
/// over more than one line; the next token starts afresh. What is no token leaves the
/// note as it is.
pub proof fn law_tokens_take_the_line_break(src: SourceId, t: Seq<char>, s: Scan)
    requires
        0 <= s.pos < t.len(),
    ensures
        ({
            let r = token_step(src, t, s);
            if r.tokens.len() > s.tokens.len() {
                &&& r.tokens.len() == s.tokens.len() + 1
                &&& r.tokens.take(s.tokens.len() as int) == s.tokens
                &&& !r.newline
                &&& !(r.tokens.last().kind is Str) ==> r.tokens.last().newline_before == s.newline
                &&& s.newline ==> r.tokens.last().newline_before
            } else {
                r.tokens == s.tokens && r.newline == s.newline
            }
        }),
{
    let r = token_step(src, t, s);
    if r.tokens.len() > s.tokens.len() {
        assert(r.tokens.take(s.tokens.len() as int) =~= s.tokens);
    }
}

// --- patterns -----------------------------------------------------------------------------

/// One part of a pattern outside of a class: a character, one after a backslash,
/// or a class between brackets, in which a `/` does not end the pattern.
pub open spec fn is_pattern_part(w: Seq<char>) -> bool {
    ||| w.len() == 1 && !breaks_line(w[0]) && w[0] != '/' && w[0] != '\\' && w[0] != '['
    ||| w.len() == 2 && w[0] == '\\' && !breaks_line(w[1])
    ||| w.len() >= 2 && w[0] == '[' && w.last() == ']' && forall|i: int|
        1 <= i < w.len() - 1 ==> !breaks_line(#[trigger] w[i]) && w[i] != ']' && w[i] != '\\'
}

proof fn lemma_class(t: Seq<char>, i: int, e: int)
    requires
        0 <= i <= e < t.len(),
        t[e] == ']',
        forall|k: int| i <= k < e ==> !breaks_line(#[trigger] t[k]) && t[k] != ']' && t[k] != '\\',
    ensures
        pattern_end(t, i, true) == pattern_end(t, e + 1, false),
    decreases e - i,
{
    if i < e {
        assert(!breaks_line(t[i]));
        lemma_class(t, i + 1, e);
    }
}

proof fn lemma_pattern_parts(t: Seq<char>, i: int, ws: Seq<Seq<char>>)
    requires
        forall|k: int| 0 <= k < ws.len() ==> is_pattern_part(#[trigger] ws[k]),
        0 <= i,
        i + joined(ws).len() <= t.len(),
        t.subrange(i, i + joined(ws).len()) == joined(ws),
    ensures
        pattern_end(t, i, false) == pattern_end(t, i + joined(ws).len(), false),
        ws.len() > 0 ==> joined(ws).len() > 0 && joined(ws)[0] == ws[0][0],
    decreases ws.len(),
{
    if ws.len() > 0 {
        let a = ws.drop_last();
        let w = ws.last();
        let n = joined(a).len();
        let p = i + n;
        assert(t.subrange(i, i + n) =~= t.subrange(i, i + joined(ws).len()).take(n as int));
        assert(t.subrange(i, i + n) =~= joined(a));
        assert(t.subrange(p, p + w.len()) =~= t.subrange(i, i + joined(ws).len()).skip(n as int));
        assert(t.subrange(p, p + w.len()) =~= w);
        assert forall|k: int| 0 <= k < a.len() implies is_pattern_part(#[trigger] a[k]) by {
            assert(ws[k] == a[k]);
        }
        assert(is_pattern_part(ws[ws.len() - 1]));
        lemma_pattern_parts(t, i, a);
        assert forall|k: int| 0 <= k < w.len() implies t[p + k] == #[trigger] w[k] by {
            assert(t.subrange(p, p + w.len())[k] == w[k]);
        }
        assert(t[p + 0] == w[0]);
        if w.len() >= 2 {
            assert(t[p + 1] == w[1]);
        }
        if w.len() >= 2 && w[0] == '[' {
            let e = p + w.len() - 1;
            assert(t[p + (w.len() - 1)] == w[w.len() - 1]);
            assert forall|k: int| p + 1 <= k < e implies !breaks_line(#[trigger] t[k]) && t[k]
                != ']' && t[k] != '\\' by {
                assert(t[p + (k - p)] == w[k - p]);
                assert(!breaks_line(w[k - p]));
            }
            lemma_class(t, p + 1, e);
        }
    }
}

/// Where an expression can start, a pattern between slashes is read as it is
/// written, with the letters behind it as its flags.
pub proof fn law_regular_expressions(src: SourceId, ws: Seq<Seq<char>>, flags: Seq<char>)
    requires
        ws.len() > 0,
        forall|k: int| 0 <= k < ws.len() ==> is_pattern_part(#[trigger] ws[k]),
        ws[0][0] != '*',
        forall|k: int|
            0 <= k < flags.len() ==> ('a' <= #[trigger] flags[k] <= 'z' || 'A' <= flags[k] <= 'Z'),
    ensures
        ({
            let r = lexed(src, seq!['/'] + joined(ws) + seq!['/'] + flags);
            &&& r.tokens.len() == 2
            &&& r.tokens[0].kind == KindView::RegExp(joined(ws), flags)
            &&& r.diags.len() == 0
        }),
{
    let p = joined(ws);
    let t = seq!['/'] + p + seq!['/'] + flags;
    let e = 1 + p.len() as int;
    assert(t.subrange(1, e) =~= p);
    lemma_pattern_parts(t, 1, ws);
    assert(t[e] == '/');
    assert(pattern_end(t, 1, false) == (e, true));
    assert forall|m: int| e + 1 <= m < t.len() implies in_class(Class::Letter, #[trigger] t[m]) by {
        assert(t[m] == flags[m - e - 1]);
    }
    lemma_whole_run(t, e + 1, Class::Letter);
    assert(t.subrange(e + 1, t.len() as int) =~= flags);
    assert(t[1] == p[0]);
    assert(is_pattern_part(ws[0]));
    assert(t[0] == '/');
    lemma_only_token(src, t, KindView::RegExp(p, flags), false);
}

} // verus!
