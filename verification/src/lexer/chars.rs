//! Character classes and runs of characters.

use vstd::prelude::*;

use crate::text::chars_of;

verus! {

/// What `char::is_alphabetic` says of a character.
pub uninterp spec fn unicode_alphabetic(c: char) -> bool;

/// What `char::is_numeric` says of a character.
pub uninterp spec fn unicode_numeric(c: char) -> bool;

/// What `char::is_whitespace` says of a character.
pub uninterp spec fn unicode_whitespace(c: char) -> bool;

/// `char::is_alphabetic` looks the character up in fixed Unicode tables; which
/// characters those hold is not stated.
pub assume_specification[ char::is_alphabetic ](c: char) -> (r: bool)
    ensures
        r == unicode_alphabetic(c),
;

/// `char::is_numeric` looks the character up in fixed Unicode tables; which
/// characters those hold is not stated.
pub assume_specification[ char::is_numeric ](c: char) -> (r: bool)
    ensures
        r == unicode_numeric(c),
;

/// `char::is_whitespace` looks the character up in fixed Unicode tables; which
/// characters those hold is not stated.
#[verifier::external_body]
fn in_whitespace_table(c: char) -> (r: bool)
    ensures
        r == unicode_whitespace(c),
{
    c.is_whitespace()
}

/// `char::from_u32` gives the character with a code point, and `None` for
/// what is no code point of a character.
pub assume_specification[ char::from_u32 ](i: u32) -> (r: Option<char>)
    ensures
        r == (if i < 0xD800 || 0xE000 <= i <= 0x10FFFF {
            Some(i as char)
        } else {
            None
        }),
;

pub open spec fn ascii(c: char) -> bool {
    (c as u32) < 0x80
}

pub open spec fn ascii_letter(c: char) -> bool {
    'a' <= c <= 'z' || 'A' <= c <= 'Z'
}

pub open spec fn ascii_digit(c: char) -> bool {
    '0' <= c <= '9'
}

pub open spec fn hex_digit(c: char) -> bool {
    '0' <= c <= '9' || 'a' <= c <= 'f' || 'A' <= c <= 'F'
}

/// Line terminators: LF, CR, LS, PS.
pub open spec fn line_end(c: char) -> bool {
    c == '\n' || c == '\r' || c == '\u{2028}' || c == '\u{2029}'
}

pub open spec fn blank(c: char) -> bool {
    ||| c == ' '
    ||| c == '\t'
    ||| c == '\u{000B}'
    ||| c == '\u{000C}'
    ||| c == '\u{00A0}'
    ||| c == '\u{FEFF}'
    ||| !ascii(c) && unicode_whitespace(c) && !line_end(c)
}

/// The character stands between tokens: a blank or a line terminator.
pub open spec fn gap(c: char) -> bool {
    blank(c) || line_end(c)
}

/// A letter, `_` or `$`. Beyond ASCII Unicode says what is alphabetic; a gap is
/// never a letter.
pub open spec fn ident_start(c: char) -> bool {
    c == '_' || c == '$' || ascii_letter(c) || (!ascii(c) && unicode_alphabetic(c) && !gap(c))
}

/// What can start an identifier, or a digit. Beyond ASCII Unicode says what is
/// numeric; a gap is never a digit.
pub open spec fn ident_continue(c: char) -> bool {
    ident_start(c) || ascii_digit(c) || (!ascii(c) && unicode_numeric(c) && !gap(c))
}

fn is_ascii(c: char) -> (r: bool)
    ensures
        r == ascii(c),
{
    (c as u32) < 0x80
}

fn is_letter(c: char) -> (r: bool)
    ensures
        r == ascii_letter(c),
{
    ('a' <= c && c <= 'z') || ('A' <= c && c <= 'Z')
}

pub fn is_digit(c: char) -> (r: bool)
    ensures
        r == ascii_digit(c),
{
    '0' <= c && c <= '9'
}

fn is_hex(c: char) -> (r: bool)
    ensures
        r == hex_digit(c),
{
    ('0' <= c && c <= '9') || ('a' <= c && c <= 'f') || ('A' <= c && c <= 'F')
}

/// Whether an identifier can start with the character.
pub fn is_ident_start(c: char) -> (r: bool)
    ensures
        r == ident_start(c),
{
    c == '_' || c == '$' || is_letter(c) || (!is_ascii(c) && c.is_alphabetic() && !is_gap(c))
}

/// Whether an identifier can go on with the character.
pub fn is_ident_continue(c: char) -> (r: bool)
    ensures
        r == ident_continue(c),
{
    is_ident_start(c) || is_digit(c) || (!is_ascii(c) && c.is_numeric() && !is_gap(c))
}

pub fn is_whitespace(c: char) -> (r: bool)
    ensures
        r == blank(c),
{
    c == ' ' || c == '\t' || c == '\u{000B}' || c == '\u{000C}' || c == '\u{00A0}' || c
        == '\u{FEFF}' || (!is_ascii(c) && in_whitespace_table(c) && !is_line_terminator(c))
}

fn is_gap(c: char) -> (r: bool)
    ensures
        r == gap(c),
{
    is_whitespace(c) || is_line_terminator(c)
}

/// Line terminators: LF, CR, LS, PS.
pub fn is_line_terminator(c: char) -> (r: bool)
    ensures
        r == line_end(c),
{
    c == '\n' || c == '\r' || c == '\u{2028}' || c == '\u{2029}'
}

// --- runs ---------------------------------------------------------------------------------

/// The classes of which the lexer reads runs.
#[derive(Clone, Copy, PartialEq, Eq, Structural)]
pub enum Class {
    Digit,
    Hex,
    Letter,
    IdentPart,
    /// Anything but a line terminator.
    SameLine,
}

pub open spec fn in_class(k: Class, c: char) -> bool {
    match k {
        Class::Digit => ascii_digit(c),
        Class::Hex => hex_digit(c),
        Class::Letter => ascii_letter(c),
        Class::IdentPart => ident_continue(c),
        Class::SameLine => !line_end(c),
    }
}

/// The end of the longest run of the class that starts at `i`.
pub open spec fn run_end(t: Seq<char>, i: int, k: Class) -> int
    decreases t.len() - i,
{
    if 0 <= i < t.len() && in_class(k, t[i]) {
        run_end(t, i + 1, k)
    } else {
        i
    }
}

pub proof fn lemma_run_end(t: Seq<char>, i: int, k: Class)
    requires
        0 <= i <= t.len(),
    ensures
        i <= run_end(t, i, k) <= t.len(),
        forall|j: int| i <= j < run_end(t, i, k) ==> in_class(k, #[trigger] t[j]),
        run_end(t, i, k) < t.len() ==> !in_class(k, t[run_end(t, i, k)]),
    decreases t.len() - i,
{
    if i < t.len() && in_class(k, t[i]) {
        lemma_run_end(t, i + 1, k);
    }
}

pub fn is_in_class(k: Class, c: char) -> (r: bool)
    ensures
        r == in_class(k, c),
{
    match k {
        Class::Digit => is_digit(c),
        Class::Hex => is_hex(c),
        Class::Letter => is_letter(c),
        Class::IdentPart => is_ident_continue(c),
        Class::SameLine => !is_line_terminator(c),
    }
}

/// The end of the longest run of the class that starts at `i`.
pub fn skip_run(t: &Vec<char>, i: usize, k: Class) -> (r: usize)
    requires
        i <= t@.len(),
    ensures
        r == run_end(t@, i as int, k),
        i <= r <= t@.len(),
{
    let mut j: usize = i;
    while j < t.len() && is_in_class(k, t[j])
        invariant
            i <= j <= t@.len(),
            run_end(t@, i as int, k) == run_end(t@, j as int, k),
        decreases t@.len() - j,
    {
        j = j + 1;
    }
    j
}

// --- bytes ----------------------------------------------------------------------------------

/// The length of a character in UTF-8.
pub open spec fn utf8_len(c: char) -> nat {
    let v = c as u32;
    if v < 0x80 {
        1
    } else if v < 0x800 {
        2
    } else if v < 0x10000 {
        3
    } else {
        4
    }
}

/// The byte offset of the character at `i`.
pub open spec fn byte_at(t: Seq<char>, i: int) -> nat
    decreases i,
{
    if i <= 0 {
        0
    } else {
        byte_at(t, i - 1) + utf8_len(t[i - 1])
    }
}

/// The length of a text in UTF-8.
pub open spec fn byte_len(t: Seq<char>) -> nat {
    byte_at(t, t.len() as int)
}

pub proof fn lemma_byte_at_mono(t: Seq<char>, i: int, j: int)
    requires
        0 <= i <= j,
    ensures
        byte_at(t, i) + (j - i) <= byte_at(t, j),
    decreases j - i,
{
    if i < j {
        lemma_byte_at_mono(t, i, j - 1);
    }
}

/// The byte offset of each character, and that of the end.
pub fn byte_offsets(t: &Vec<char>) -> (r: Vec<u32>)
    requires
        byte_len(t@) <= u32::MAX,
    ensures
        r@.len() == t@.len() + 1,
        forall|i: int| 0 <= i <= t@.len() ==> #[trigger] r@[i] == byte_at(t@, i),
{
    let mut out: Vec<u32> = Vec::new();
    out.push(0);
    let mut at: u32 = 0;
    let mut k: usize = 0;
    while k < t.len()
        invariant
            k <= t@.len(),
            byte_len(t@) <= u32::MAX,
            at == byte_at(t@, k as int),
            out@.len() == k + 1,
            forall|i: int| 0 <= i <= k ==> #[trigger] out@[i] == byte_at(t@, i),
        decreases t@.len() - k,
    {
        let v: u32 = t[k] as u32;
        proof {
            lemma_byte_at_mono(t@, k as int + 1, t@.len() as int);
        }
        let n: u32 = if v < 0x80 {
            1
        } else if v < 0x800 {
            2
        } else if v < 0x10000 {
            3
        } else {
            4
        };
        at = at + n;
        out.push(at);
        k = k + 1;
    }
    out
}

/// The length of a text in UTF-8.
pub fn text_len(text: &str) -> (r: u32)
    requires
        byte_len(text@) <= u32::MAX,
    ensures
        r == byte_len(text@),
{
    let t = chars_of(text);
    let offsets = byte_offsets(&t);
    offsets[t.len()]
}

} // verus!
