//! Literals: numbers, strings and regular expressions.

use vstd::prelude::*;

use crate::lexer::chars::{
    ascii_digit, hex_digit, ident_start, in_class, is_ident_start, is_in_class, is_line_terminator,
    lemma_run_end, line_end, run_end, skip_run, Class,
};
use crate::lexer::token::{KindView, NumLit, NumView, TokenKind};

verus! {

/// The character at `i`, if there is one.
pub open spec fn at(t: Seq<char>, i: int) -> Option<char> {
    if 0 <= i < t.len() {
        Some(t[i])
    } else {
        None
    }
}

/// Whether the character at `i` is `c`.
pub open spec fn is_at(t: Seq<char>, i: int, c: char) -> bool {
    0 <= i < t.len() && t[i] == c
}

/// Whether the character `d` places after `i` is `c`.
pub fn looks_at(t: &Vec<char>, i: usize, d: usize, c: char) -> (r: bool)
    requires
        i <= t@.len(),
    ensures
        r == is_at(t@, i + d, c),
{
    t.len() - i > d && t[i + d] == c
}

/// Whether there is a character of the class at `i`.
pub open spec fn class_at(t: Seq<char>, i: int, k: Class) -> bool {
    0 <= i < t.len() && in_class(k, t[i])
}

/// Whether there is a character of the class `d` places after `i`.
pub fn looks_at_class(t: &Vec<char>, i: usize, d: usize, k: Class) -> (r: bool)
    requires
        i <= t@.len(),
    ensures
        r == class_at(t@, i + d, k),
{
    t.len() - i > d && is_in_class(k, t[i + d])
}

/// The text from `i` to `j`.
pub fn substring(t: &Vec<char>, i: usize, j: usize) -> (r: String)
    requires
        i <= j <= t@.len(),
    ensures
        r@ == t@.subrange(i as int, j as int),
{
    let mut s = String::new();
    let mut k: usize = i;
    while k < j
        invariant
            i <= k <= j <= t@.len(),
            s@ == t@.subrange(i as int, k as int),
        decreases j - k,
    {
        s.push(t[k]);
        k = k + 1;
        assert(s@ =~= t@.subrange(i as int, k as int));
    }
    s
}

// --- the value of digits ----------------------------------------------------------------

pub open spec fn digit_value(c: char) -> nat {
    if '0' <= c <= '9' {
        (c as u32 - '0' as u32) as nat
    } else if 'a' <= c <= 'f' {
        (c as u32 - 'a' as u32 + 10) as nat
    } else {
        (c as u32 - 'A' as u32 + 10) as nat
    }
}

/// What the digits from `i` to `j` are worth in the base.
pub open spec fn digits_value(t: Seq<char>, i: int, j: int, base: nat) -> nat
    decreases j - i,
{
    if j <= i {
        0
    } else {
        base * digits_value(t, i, j - 1, base) + digit_value(t[j - 1])
    }
}

proof fn lemma_digits_value_grows(t: Seq<char>, i: int, k: int, j: int, base: nat)
    requires
        i <= k <= j,
        base >= 1,
    ensures
        digits_value(t, i, k, base) <= digits_value(t, i, j, base),
    decreases j - k,
{
    if k < j {
        lemma_digits_value_grows(t, i, k, j - 1, base);
        let v = digits_value(t, i, j - 1, base);
        assert(v <= base * v) by (nonlinear_arith)
            requires
                base >= 1,
                v >= 0,
        ;
    }
}

fn digit_of(c: char) -> (r: u64)
    requires
        hex_digit(c),
    ensures
        r == digit_value(c),
        r < 16,
{
    if '0' <= c && c <= '9' {
        (c as u32 - 48) as u64
    } else if 'a' <= c && c <= 'f' {
        (c as u32 - 87) as u64
    } else {
        (c as u32 - 55) as u64
    }
}

/// What the digits are worth, if it fits.
fn value_of(t: &Vec<char>, i: usize, j: usize, base: u64) -> (r: Option<u64>)
    requires
        i <= j <= t@.len(),
        1 <= base <= 16,
        forall|k: int| i <= k < j ==> hex_digit(#[trigger] t@[k]),
    ensures
        match r {
            Some(v) => v == digits_value(t@, i as int, j as int, base as nat),
            None => digits_value(t@, i as int, j as int, base as nat) > u64::MAX,
        },
{
    let mut v: u64 = 0;
    let mut k: usize = i;
    while k < j
        invariant
            i <= k <= j <= t@.len(),
            1 <= base <= 16,
            v == digits_value(t@, i as int, k as int, base as nat),
            forall|m: int| i <= m < j ==> hex_digit(#[trigger] t@[m]),
        decreases j - k,
    {
        let d: u64 = digit_of(t[k]);
        assert(0 <= base * v <= 16 * 0xffff_ffff_ffff_ffff) by (nonlinear_arith)
            requires
                base <= 16,
                v <= 0xffff_ffff_ffff_ffff,
        ;
        let next: u128 = base as u128 * v as u128 + d as u128;
        if next > u64::MAX as u128 {
            proof {
                lemma_digits_value_grows(t@, i as int, k as int + 1, j as int, base as nat);
            }
            return None;
        }
        v = next as u64;
        k = k + 1;
    }
    Some(v)
}

// --- numbers ------------------------------------------------------------------------------

/// A number that was read: where it ends, its token, and the message and end
/// of the error in it.
pub ghost struct NumScan {
    pub end: int,
    pub kind: KindView,
    pub fault: Option<(Seq<char>, int)>,
}

pub open spec fn hex_prefix(t: Seq<char>, i: int) -> bool {
    is_at(t, i, '0') && (is_at(t, i + 1, 'x') || is_at(t, i + 1, 'X'))
}

/// Whole numbers classify by magnitude into int, uint and Number.
pub open spec fn classified(v: nat, big: NumView) -> KindView {
    if v <= i32::MAX {
        KindView::Plain(TokenKind::Int(v as i32))
    } else if v <= u32::MAX {
        KindView::Plain(TokenKind::UInt(v as u32))
    } else {
        KindView::Number(big)
    }
}

/// A hexadecimal literal. One that is too large, or that runs into an
/// identifier, is worth the largest 64-bit number.
pub open spec fn hex_scan(t: Seq<char>, start: int) -> NumScan {
    let e = run_end(t, start + 2, Class::Hex);
    let v = digits_value(t, start + 2, e, 16);
    if e == start + 2 {
        NumScan {
            end: e,
            kind: KindView::Plain(TokenKind::Int(0)),
            fault: Some(("hex literal needs at least one digit"@, e)),
        }
    } else if e < t.len() && ident_start(t[e]) {
        NumScan {
            end: run_end(t, e, Class::IdentPart),
            kind: KindView::Number(NumView::Whole(u64::MAX)),
            fault: Some(("identifier characters cannot directly follow a number"@, e)),
        }
    } else {
        NumScan {
            end: e,
            kind: classified(
                v,
                NumView::Whole(if v <= u64::MAX {
                    v as u64
                } else {
                    u64::MAX
                }),
            ),
            fault: None,
        }
    }
}

/// The end of the digits and of the fraction: a point is not part of the
/// number where another point follows it.
pub open spec fn mantissa_end(t: Seq<char>, start: int) -> int {
    let d = run_end(t, start, Class::Digit);
    if is_at(t, d, '.') && !is_at(t, d + 1, '.') {
        run_end(t, d + 1, Class::Digit)
    } else {
        d
    }
}

/// Where the digits of an exponent that starts at `m` begin.
pub open spec fn exponent_digits(t: Seq<char>, m: int) -> int {
    if is_at(t, m + 1, '+') || is_at(t, m + 1, '-') {
        m + 2
    } else {
        m + 1
    }
}

pub open spec fn has_exponent(t: Seq<char>, m: int) -> bool {
    (is_at(t, m, 'e') || is_at(t, m, 'E')) && class_at(t, exponent_digits(t, m), Class::Digit)
}

/// The end of a decimal literal: digits, fraction, exponent.
pub open spec fn decimal_end(t: Seq<char>, start: int) -> int {
    let m = mantissa_end(t, start);
    if has_exponent(t, m) {
        run_end(t, exponent_digits(t, m), Class::Digit)
    } else {
        m
    }
}

/// A decimal literal: one of digits alone is classified by magnitude, one that
/// runs into an identifier is not a number.
pub open spec fn decimal_scan(t: Seq<char>, start: int) -> NumScan {
    let d = run_end(t, start, Class::Digit);
    let e = decimal_end(t, start);
    if e < t.len() && ident_start(t[e]) {
        NumScan {
            end: run_end(t, e, Class::IdentPart),
            kind: KindView::Number(NumView::NotANumber),
            fault: Some(("identifier characters cannot directly follow a number"@, e)),
        }
    } else {
        let text = NumView::Decimal(t.subrange(start, e));
        NumScan {
            end: e,
            kind: if e == d {
                classified(digits_value(t, start, d, 10), text)
            } else {
                KindView::Number(text)
            },
            fault: None,
        }
    }
}

pub open spec fn number_scan(t: Seq<char>, start: int) -> NumScan {
    if hex_prefix(t, start) {
        hex_scan(t, start)
    } else {
        decimal_scan(t, start)
    }
}

/// A number that was read.
pub struct NumRead {
    pub end: usize,
    pub kind: TokenKind,
    pub fault: Option<(&'static str, usize)>,
}

impl View for NumRead {
    type V = NumScan;

    open spec fn view(&self) -> NumScan {
        NumScan {
            end: self.end as int,
            kind: self.kind@,
            fault: match self.fault {
                Some((m, e)) => Some((m@, e as int)),
                None => None,
            },
        }
    }
}

fn classify_integer(v: u64) -> (r: Option<TokenKind>)
    ensures
        match r {
            Some(k) => v <= u32::MAX && forall|big: NumView| k@ == classified(v as nat, big),
            None => v > u32::MAX,
        },
{
    if v <= i32::MAX as u64 {
        Some(TokenKind::Int(v as i32))
    } else if v <= u32::MAX as u64 {
        Some(TokenKind::UInt(v as u32))
    } else {
        None
    }
}

fn read_hex(t: &Vec<char>, start: usize) -> (r: NumRead)
    requires
        hex_prefix(t@, start as int),
    ensures
        r@ == hex_scan(t@, start as int),
        start < r.end <= t@.len(),
        r.fault matches Some((_, e)) ==> start <= e <= t@.len(),
{
    let len: usize = t.len();
    let first: usize = start + 2;
    let e: usize = skip_run(t, first, Class::Hex);
    proof {
        lemma_run_end(t@, first as int, Class::Hex);
    }
    if e == first {
        return NumRead {
            end: e,
            kind: TokenKind::Int(0),
            fault: Some(("hex literal needs at least one digit", e)),
        };
    }
    if e < t.len() && is_ident_start(t[e]) {
        let end: usize = skip_run(t, e, Class::IdentPart);
        return NumRead {
            end,
            kind: TokenKind::Number(NumLit::Whole(u64::MAX)),
            fault: Some(("identifier characters cannot directly follow a number", e)),
        };
    }
    let v: u64 = match value_of(t, first, e, 16) {
        Some(v) => v,
        None => u64::MAX,
    };
    let kind = match classify_integer(v) {
        Some(k) => k,
        None => TokenKind::Number(NumLit::Whole(v)),
    };
    NumRead { end: e, kind, fault: None }
}

fn read_decimal(t: &Vec<char>, start: usize) -> (r: NumRead)
    requires
        start < t@.len(),
        ascii_digit(t@[start as int]) || (t@[start as int] == '.' && class_at(
            t@,
            start as int + 1,
            Class::Digit,
        )),
    ensures
        r@ == decimal_scan(t@, start as int),
        start < r.end <= t@.len(),
        r.fault matches Some((_, e)) ==> start <= e <= t@.len(),
{
    let len: usize = t.len();
    let d: usize = skip_run(t, start, Class::Digit);
    proof {
        lemma_run_end(t@, start as int, Class::Digit);
    }
    let mut m: usize = d;
    if looks_at(t, d, 0, '.') && !looks_at(t, d, 1, '.') {
        m = skip_run(t, d + 1, Class::Digit);
    }
    assert(m == mantissa_end(t@, start as int));
    assert(m > start) by {
        if t@[start as int] == '.' {
            assert(d == start);
        }
    }
    let mut e: usize = m;
    if looks_at(t, m, 0, 'e') || looks_at(t, m, 0, 'E') {
        let x: usize = if looks_at(t, m, 1, '+') || looks_at(t, m, 1, '-') {
            2
        } else {
            1
        };
        if looks_at_class(t, m, x, Class::Digit) {
            e = skip_run(t, m + x, Class::Digit);
        }
    }
    assert(e == decimal_end(t@, start as int));
    if e < t.len() && is_ident_start(t[e]) {
        let end: usize = skip_run(t, e, Class::IdentPart);
        return NumRead {
            end,
            kind: TokenKind::Number(NumLit::NotANumber),
            fault: Some(("identifier characters cannot directly follow a number", e)),
        };
    }
    if e == d {
        if let Some(v) = value_of(t, start, d, 10) {
            if let Some(kind) = classify_integer(v) {
                return NumRead { end: e, kind, fault: None };
            }
        }
    }
    let text = substring(t, start, e);
    NumRead { end: e, kind: TokenKind::Number(NumLit::Decimal(text)), fault: None }
}

/// Reads the number at `start`.
pub fn read_number(t: &Vec<char>, start: usize) -> (r: NumRead)
    requires
        start < t@.len(),
        ascii_digit(t@[start as int]) || (t@[start as int] == '.' && class_at(
            t@,
            start as int + 1,
            Class::Digit,
        )),
    ensures
        r@ == number_scan(t@, start as int),
        start < r.end <= t@.len(),
        r.fault matches Some((_, e)) ==> start <= e <= t@.len(),
{
    if looks_at(t, start, 0, '0') && (looks_at(t, start, 1, 'x') || looks_at(t, start, 1, 'X')) {
        read_hex(t, start)
    } else {
        read_decimal(t, start)
    }
}

// --- strings ------------------------------------------------------------------------------

/// An escape sequence that was read: where it ends, the character it stands
/// for, and whether it continues the string on the next line.
pub ghost struct EscapeScan {
    pub end: int,
    pub out: Option<char>,
    pub newline: bool,
}

/// The character with a code point; U+FFFD where there is none.
pub open spec fn char_for(code: nat) -> char {
    if code < 0xD800 || 0xE000 <= code <= 0x10FFFF {
        code as char
    } else {
        '\u{FFFD}'
    }
}

/// The number that exactly `n` hexadecimal digits at `i` are worth.
pub open spec fn hex_number(t: Seq<char>, i: int, n: int) -> Option<nat> {
    if forall|k: int| i <= k < i + n ==> #[trigger] class_at(t, k, Class::Hex) {
        Some(digits_value(t, i, i + n, 16))
    } else {
        None
    }
}

/// `\xHH` or `\uHHHH`; without the digits it stands for the letter.
pub open spec fn fixed_escape(t: Seq<char>, i: int, n: int, letter: char) -> EscapeScan {
    match hex_number(t, i + 1, n) {
        Some(v) => EscapeScan { end: i + 1 + n, out: Some(char_for(v)), newline: false },
        None => EscapeScan { end: i + 1, out: Some(letter), newline: false },
    }
}

/// `\u{...}`; it stands for the letter if there are no digits, or if they are
/// worth more than 32 bits hold.
pub open spec fn braced_escape(t: Seq<char>, i: int) -> EscapeScan {
    let e = run_end(t, i + 2, Class::Hex);
    let v = digits_value(t, i + 2, e, 16);
    EscapeScan {
        end: if is_at(t, e, '}') {
            e + 1
        } else {
            e
        },
        out: Some(
            if e == i + 2 || v > u32::MAX {
                'u'
            } else {
                char_for(v)
            },
        ),
        newline: false,
    }
}

/// The escape sequence whose character after the backslash is at `i`.
pub open spec fn escape_scan(t: Seq<char>, i: int) -> EscapeScan {
    match at(t, i) {
        None => EscapeScan { end: i, out: None, newline: false },
        Some(c) => if line_end(c) {
            EscapeScan {
                end: if c == '\r' && is_at(t, i + 1, '\n') {
                    i + 2
                } else {
                    i + 1
                },
                out: None,
                newline: true,
            }
        } else if c == 'x' {
            fixed_escape(t, i, 2, 'x')
        } else if c == 'u' {
            if is_at(t, i + 1, '{') {
                braced_escape(t, i)
            } else {
                fixed_escape(t, i, 4, 'u')
            }
        } else {
            EscapeScan { end: i + 1, out: Some(escaped(c)), newline: false }
        },
    }
}

/// What a letter stands for after a backslash.
pub open spec fn escaped(c: char) -> char {
    match c {
        'b' => '\u{0008}',
        't' => '\t',
        'n' => '\n',
        'v' => '\u{000B}',
        'f' => '\u{000C}',
        'r' => '\r',
        '0' => '\0',
        _ => c,
    }
}

/// A string literal that was read: where it ends, its value, whether a line
/// continuation stands in it, and the message of the error in it.
pub ghost struct StrScan {
    pub end: int,
    pub value: Seq<char>,
    pub newline: bool,
    pub fault: Option<Seq<char>>,
}

/// The rest of a string literal from `i` on, after what was read of it.
pub open spec fn string_scan(
    t: Seq<char>,
    i: int,
    quote: char,
    value: Seq<char>,
    newline: bool,
) -> StrScan
    decreases t.len() - i,
{
    match at(t, i) {
        None => StrScan {
            end: i,
            value,
            newline,
            fault: Some("unterminated string literal"@),
        },
        Some(c) => if c == quote {
            StrScan { end: i + 1, value, newline, fault: None }
        } else if line_end(c) {
            StrScan {
                end: i,
                value,
                newline,
                fault: Some(
                    "string literal must not contain a raw line break (use \\n or a \\ line continuation)"@,
                ),
            }
        } else if c == '\\' {
            let x = escape_scan(t, i + 1);
            let v = match x.out {
                Some(o) => value.push(o),
                None => value,
            };
            if i < x.end <= t.len() {
                string_scan(t, x.end, quote, v, newline || x.newline)
            } else {
                arbitrary()
            }
        } else {
            string_scan(t, i + 1, quote, value.push(c), newline)
        },
    }
}

pub struct EscapeRead {
    pub end: usize,
    pub out: Option<char>,
    pub newline: bool,
}

impl View for EscapeRead {
    type V = EscapeScan;

    open spec fn view(&self) -> EscapeScan {
        EscapeScan { end: self.end as int, out: self.out, newline: self.newline }
    }
}

fn char_of(code: u64) -> (r: char)
    requires
        code <= u32::MAX,
    ensures
        r == char_for(code as nat),
{
    match char::from_u32(code as u32) {
        Some(c) => c,
        None => '\u{FFFD}',
    }
}

fn read_fixed(t: &Vec<char>, i: usize, n: usize, letter: char) -> (r: EscapeRead)
    requires
        i < t@.len(),
        n <= 4,
    ensures
        r@ == fixed_escape(t@, i as int, n as int, letter),
        i < r.end <= t@.len(),
{
    let len: usize = t.len();
    let mut k: usize = 0;
    while k < n
        invariant
            k <= n,
            i < len == t@.len(),
            i + k < t@.len(),
            forall|j: int| i + 1 <= j < i + 1 + k ==> #[trigger] class_at(t@, j, Class::Hex),
        decreases n - k,
    {
        if !looks_at_class(t, i + 1, k, Class::Hex) {
            assert(!class_at(t@, i + 1 + k, Class::Hex));
            return EscapeRead { end: i + 1, out: Some(letter), newline: false };
        }
        k = k + 1;
    }
    assert forall|j: int| i + 1 <= j < i + 1 + n implies hex_digit(#[trigger] t@[j]) by {
        assert(class_at(t@, j, Class::Hex));
    }
    proof {
        lemma_small_value(t@, i + 1, n as int);
    }
    match value_of(t, i + 1, i + 1 + n, 16) {
        Some(v) => EscapeRead { end: i + 1 + n, out: Some(char_of(v)), newline: false },
        None => EscapeRead { end: i + 1, out: Some(letter), newline: false },
    }
}

proof fn lemma_small_value(t: Seq<char>, i: int, n: int)
    requires
        0 <= n <= 4,
        forall|j: int| i <= j < i + n ==> hex_digit(#[trigger] t[j]),
    ensures
        digits_value(t, i, i + n, 16) <= 0xFFFF,
{
    reveal_with_fuel(digits_value, 5);
    assert forall|j: int| i <= j < i + n implies digit_value(#[trigger] t[j]) < 16 by {}
}

fn read_braced(t: &Vec<char>, i: usize) -> (r: EscapeRead)
    requires
        i < t@.len(),
        is_at(t@, i as int + 1, '{'),
    ensures
        r@ == braced_escape(t@, i as int),
        i < r.end <= t@.len(),
{
    let len: usize = t.len();
    let first: usize = i + 2;
    let e: usize = skip_run(t, first, Class::Hex);
    proof {
        lemma_run_end(t@, first as int, Class::Hex);
    }
    let end: usize = if looks_at(t, e, 0, '}') {
        e + 1
    } else {
        e
    };
    let mut out = 'u';
    if e != first {
        if let Some(v) = value_of(t, first, e, 16) {
            if v <= u32::MAX as u64 {
                out = char_of(v);
            }
        }
    }
    EscapeRead { end, out: Some(out), newline: false }
}

fn read_escape(t: &Vec<char>, i: usize) -> (r: EscapeRead)
    requires
        i <= t@.len(),
    ensures
        r@ == escape_scan(t@, i as int),
        i <= r.end <= t@.len(),
{
    if i >= t.len() {
        return EscapeRead { end: i, out: None, newline: false };
    }
    let c = t[i];
    if is_line_terminator(c) {
        let end: usize = if c == '\r' && looks_at(t, i, 1, '\n') {
            i + 2
        } else {
            i + 1
        };
        return EscapeRead { end, out: None, newline: true };
    }
    if c == 'x' {
        return read_fixed(t, i, 2, 'x');
    }
    if c == 'u' {
        if looks_at(t, i, 1, '{') {
            return read_braced(t, i);
        }
        return read_fixed(t, i, 4, 'u');
    }
    let out = match c {
        'b' => '\u{0008}',
        't' => '\t',
        'n' => '\n',
        'v' => '\u{000B}',
        'f' => '\u{000C}',
        'r' => '\r',
        '0' => '\0',
        _ => c,
    };
    EscapeRead { end: i + 1, out: Some(out), newline: false }
}

pub struct StrRead {
    pub end: usize,
    pub value: String,
    pub newline: bool,
    pub fault: Option<&'static str>,
}

impl View for StrRead {
    type V = StrScan;

    open spec fn view(&self) -> StrScan {
        StrScan {
            end: self.end as int,
            value: self.value@,
            newline: self.newline,
            fault: match self.fault {
                Some(m) => Some(m@),
                None => None,
            },
        }
    }
}

/// Reads the string literal whose first character after the quote is at `i`.
pub fn read_string(t: &Vec<char>, i: usize, quote: char) -> (r: StrRead)
    requires
        i <= t@.len(),
    ensures
        r@ == string_scan(t@, i as int, quote, Seq::empty(), false),
        i <= r.end <= t@.len(),
{
    let mut value = String::new();
    let mut newline = false;
    let mut k: usize = i;
    assert(value@ =~= Seq::<char>::empty());
    while k < t.len()
        invariant
            i <= k <= t@.len(),
            string_scan(t@, i as int, quote, Seq::empty(), false) == string_scan(
                t@,
                k as int,
                quote,
                value@,
                newline,
            ),
        decreases t@.len() - k,
    {
        let c = t[k];
        if c == quote {
            return StrRead { end: k + 1, value, newline, fault: None };
        }
        if is_line_terminator(c) {
            return StrRead {
                end: k,
                value,
                newline,
                fault: Some(
                    "string literal must not contain a raw line break (use \\n or a \\ line continuation)",
                ),
            };
        }
        if c == '\\' {
            let x = read_escape(t, k + 1);
            if let Some(o) = x.out {
                value.push(o);
            }
            newline = newline || x.newline;
            k = x.end;
        } else {
            value.push(c);
            k = k + 1;
        }
    }
    StrRead { end: k, value, newline, fault: Some("unterminated string literal") }
}

// --- regular expressions --------------------------------------------------------------------

/// Where the pattern from `i` on stops, and whether a `/` closes it there. A
/// `/` in a character class does not close it, a backslash keeps the next
/// character from doing so, and it cannot leave the line.
pub open spec fn pattern_end(t: Seq<char>, i: int, in_set: bool) -> (int, bool)
    decreases t.len() - i,
{
    match at(t, i) {
        None => (i, false),
        Some(c) => if line_end(c) {
            (i, false)
        } else if c == '\\' {
            match at(t, i + 1) {
                Some(n) => if !line_end(n) {
                    pattern_end(t, i + 2, in_set)
                } else {
                    pattern_end(t, i + 1, in_set)
                },
                None => pattern_end(t, i + 1, in_set),
            }
        } else if c == '[' {
            pattern_end(t, i + 1, true)
        } else if c == ']' {
            pattern_end(t, i + 1, false)
        } else if c == '/' && !in_set {
            (i, true)
        } else {
            pattern_end(t, i + 1, in_set)
        },
    }
}

/// Where the pattern from `i` on stops, and whether a `/` closes it there.
pub fn find_pattern_end(t: &Vec<char>, i: usize) -> (r: (usize, bool))
    requires
        i <= t@.len(),
    ensures
        (r.0 as int, r.1) == pattern_end(t@, i as int, false),
        i <= r.0 <= t@.len(),
        r.1 ==> r.0 < t@.len(),
{
    let mut in_set = false;
    let mut k: usize = i;
    while k < t.len()
        invariant
            i <= k <= t@.len(),
            pattern_end(t@, i as int, false) == pattern_end(t@, k as int, in_set),
        decreases t@.len() - k,
    {
        let c = t[k];
        if is_line_terminator(c) {
            return (k, false);
        }
        if c == '\\' {
            if k + 1 < t.len() && !is_line_terminator(t[k + 1]) {
                k = k + 2;
            } else {
                k = k + 1;
            }
        } else if c == '[' {
            in_set = true;
            k = k + 1;
        } else if c == ']' {
            in_set = false;
            k = k + 1;
        } else if c == '/' && !in_set {
            return (k, true);
        } else {
            k = k + 1;
        }
    }
    (k, false)
}

} // verus!
