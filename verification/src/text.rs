//! Text: decimal numbers, concatenation and UTF-16.

use vstd::prelude::*;
use vstd::string::StringExecFns;

verus! {

/// `String::push` appends one character to the end.
pub assume_specification[ std::string::String::push ](s: &mut std::string::String, c: char)
    ensures
        final(s)@ == old(s)@.push(c),
;

/// The digit `d < 10` as a character.
pub open spec fn digit_char(d: nat) -> char {
    ('0' as u32 + d) as char
}

/// The decimal digits of `n`, without leading zeros.
pub open spec fn decimal(n: nat) -> Seq<char>
    decreases n,
{
    if n < 10 {
        seq![digit_char(n)]
    } else {
        decimal(n / 10).push(digit_char(n % 10))
    }
}

/// As [`decimal`], with a sign for negative numbers.
pub open spec fn signed_decimal(n: int) -> Seq<char> {
    if n < 0 {
        seq!['-'] + decimal((-n) as nat)
    } else {
        decimal(n as nat)
    }
}

fn digit(d: u64) -> (r: char)
    requires
        d < 10,
    ensures
        r == digit_char(d as nat),
{
    (48 + d as u8) as char
}

/// Appends a text.
pub fn push_text(s: &mut String, t: &str)
    ensures
        final(s)@ == old(s)@ + t@,
{
    s.append(t);
}

/// Appends the decimal digits of `n`.
pub fn push_decimal(s: &mut String, n: u64)
    ensures
        final(s)@ == old(s)@ + decimal(n as nat),
    decreases n,
{
    let ghost before = s@;
    if n >= 10 {
        push_decimal(s, n / 10);
    }
    s.push(digit(n % 10));
    assert(s@ =~= before + decimal(n as nat));
}

/// Appends `n` in decimal, with its sign if it is negative.
pub fn push_signed(s: &mut String, n: i64)
    ensures
        final(s)@ == old(s)@ + signed_decimal(n as int),
{
    let ghost before = s@;
    if n < 0 {
        s.push('-');
        let m: u64 = if n == i64::MIN {
            0x8000_0000_0000_0000
        } else {
            (-n) as u64
        };
        push_decimal(s, m);
        assert(s@ =~= before + signed_decimal(n as int));
    } else {
        push_decimal(s, n as u64);
    }
}

/// `prefix` followed by a number.
pub fn numbered(prefix: &str, i: u64) -> (r: String)
    ensures
        r@ == prefix@ + decimal(i as nat),
{
    let mut s = String::new();
    push_text(&mut s, prefix);
    push_decimal(&mut s, i);
    assert(s@ =~= prefix@ + decimal(i as nat));
    s
}

/// `prefix` followed by two numbers with an underscore between them.
pub fn numbered_pair(prefix: &str, i: u64, j: u64) -> (r: String)
    ensures
        r@ == prefix@ + decimal(i as nat) + seq!['_'] + decimal(j as nat),
{
    let mut s = numbered(prefix, i);
    s.push('_');
    push_decimal(&mut s, j);
    assert(s@ =~= prefix@ + decimal(i as nat) + seq!['_'] + decimal(j as nat));
    s
}

// --- UTF-16 ---------------------------------------------------------------------------

/// The UTF-16 code units of a character.
pub open spec fn utf16_units(c: char) -> Seq<u16> {
    let v = c as u32;
    if v < 0x10000 {
        seq![v as u16]
    } else {
        seq![
            (0xD800 + (v - 0x10000) / 0x400) as u16,
            (0xDC00 + (v - 0x10000) % 0x400) as u16,
        ]
    }
}

/// The UTF-16 code units of the first `n` characters.
pub open spec fn utf16_of(s: Seq<char>, n: nat) -> Seq<u16>
    decreases n,
{
    if 0 < n <= s.len() {
        utf16_of(s, (n - 1) as nat) + utf16_units(s[n - 1])
    } else {
        Seq::empty()
    }
}

/// The UTF-16 code units of a text.
pub open spec fn utf16(s: Seq<char>) -> Seq<u16> {
    utf16_of(s, s.len())
}

/// Appends the UTF-16 code units of a character.
pub fn push_units(out: &mut Vec<u16>, c: char)
    ensures
        final(out)@ == old(out)@ + utf16_units(c),
{
    let v: u32 = c as u32;
    if v < 0x10000 {
        out.push(v as u16);
        assert(out@ =~= old(out)@ + utf16_units(c));
    } else {
        let hi: u32 = 0xD800 + (v - 0x10000) / 0x400;
        let lo: u32 = 0xDC00 + (v - 0x10000) % 0x400;
        out.push(hi as u16);
        out.push(lo as u16);
        assert(out@ =~= old(out)@ + utf16_units(c));
    }
}

/// The characters of a text.
pub fn chars_of(s: &str) -> (r: Vec<char>)
    ensures
        r@ == s@,
{
    let mut out: Vec<char> = Vec::new();
    for c in it: s.chars()
        invariant
            out@ == it.seq().take(it.index() as int),
    {
        out.push(c);
        assert(out@ =~= it.seq().take(it.index() as int + 1));
    }
    assert(out@ =~= s@);
    out
}

/// Whether two texts are the same.
pub fn same_text(a: &str, b: &str) -> (r: bool)
    ensures
        r == (a@ == b@),
{
    let x = chars_of(a);
    let y = chars_of(b);
    if x.len() != y.len() {
        return false;
    }
    let mut k: usize = 0;
    while k < x.len()
        invariant
            k <= x@.len(),
            x@ == a@,
            y@ == b@,
            x@.len() == y@.len(),
            x@.take(k as int) == y@.take(k as int),
        decreases x@.len() - k,
    {
        if x[k] != y[k] {
            return false;
        }
        assert(x@.take(k as int + 1) =~= x@.take(k as int).push(x@[k as int]));
        assert(y@.take(k as int + 1) =~= y@.take(k as int).push(y@[k as int]));
        k = k + 1;
    }
    assert(x@.take(k as int) =~= x@);
    assert(y@.take(k as int) =~= y@);
    true
}

/// Encodes a text as UTF-16.
pub fn encode_utf16(s: &str) -> (r: Vec<u16>)
    ensures
        r@ == utf16(s@),
{
    let cs = chars_of(s);
    let mut out: Vec<u16> = Vec::new();
    let mut k: usize = 0;
    while k < cs.len()
        invariant
            k <= cs@.len(),
            cs@ == s@,
            out@ == utf16_of(s@, k as nat),
        decreases cs@.len() - k,
    {
        push_units(&mut out, cs[k]);
        k = k + 1;
    }
    out
}

} // verus!
