//! Diagnostics rendered against the source text.

use vstd::prelude::*;

use crate::diagnostics::{rendered, DiagView, Diagnostic};
use crate::lexer::chars::{byte_at, byte_len, byte_offsets};
use crate::lexer::literal::substring;
use crate::source::{SourceFile, SourceMap};
use crate::text::{chars_of, decimal, push_decimal, push_text};

verus! {

/// The first character from `i` on that starts at the byte or later.
pub open spec fn char_from(t: Seq<char>, byte: nat, i: int) -> int
    decreases t.len() - i,
{
    if i < t.len() && byte_at(t, i) < byte {
        char_from(t, byte, i + 1)
    } else {
        i
    }
}

/// Where the line of the character at `i` starts.
pub open spec fn line_start(t: Seq<char>, i: int) -> int
    decreases i,
{
    if i <= 0 || t[i - 1] == '\n' {
        i
    } else {
        line_start(t, i - 1)
    }
}

/// Where the line of the character at `i` ends.
pub open spec fn line_stop(t: Seq<char>, i: int) -> int
    decreases t.len() - i,
{
    if i >= t.len() || t[i] == '\n' {
        i
    } else {
        line_stop(t, i + 1)
    }
}

/// The number of the line of the character at `i`, from 1.
pub open spec fn line_number(t: Seq<char>, i: int) -> nat
    decreases i,
{
    if i <= 0 {
        1
    } else if t[i - 1] == '\n' {
        line_number(t, i - 1) + 1
    } else {
        line_number(t, i - 1)
    }
}

pub open spec fn repeated(c: char, n: int) -> Seq<char> {
    Seq::new(
        if n > 0 {
            n as nat
        } else {
            0
        },
        |i: int| c,
    )
}

/// How many carets mark the characters from `i` to `j` on the first line of
/// them: at least one.
pub open spec fn caret_count(t: Seq<char>, i: int, j: int) -> int {
    let stop = line_stop(t, i);
    let end = if j < stop {
        j
    } else {
        stop
    };
    if end > i {
        end - i
    } else {
        1
    }
}

/// A text followed by the place of the bytes from `start` to `end`: the name,
/// line and column, then the line with carets below it.
#[verifier::opaque]
pub open spec fn placed(
    out: Seq<char>,
    name: Seq<char>,
    t: Seq<char>,
    start: nat,
    end: nat,
) -> Seq<char> {
    let i = char_from(t, start, 0);
    let j = char_from(t, end, 0);
    let first = line_start(t, i);
    out + "\n --> "@ + name + ":"@ + decimal(line_number(t, i)) + ":"@ + decimal(
        (i - first + 1) as nat,
    ) + "\n"@ + t.subrange(first, line_stop(t, i)) + "\n"@ + repeated(' ', i - first) + repeated(
        '^',
        caret_count(t, i, j),
    )
}

/// A diagnostic with its place in the source, if it has one.
pub open spec fn rendered_full(d: DiagView, files: Seq<SourceFile>) -> Seq<char> {
    match d.span {
        Some(s) => if s.source.0 < files.len() {
            let f = files[s.source.0 as int];
            placed(rendered(d), f.name@, f.text@, s.start as nat, s.end as nat)
        } else {
            rendered(d)
        },
        None => rendered(d),
    }
}

fn find_char(t: &Vec<char>, offsets: &Vec<u32>, byte: u32) -> (r: usize)
    requires
        offsets@.len() == t@.len() + 1,
        forall|i: int| 0 <= i <= t@.len() ==> #[trigger] offsets@[i] == byte_at(t@, i),
    ensures
        r == char_from(t@, byte as nat, 0),
        r <= t@.len(),
{
    let mut k: usize = 0;
    while k < t.len() && offsets[k] < byte
        invariant
            k <= t@.len(),
            offsets@.len() == t@.len() + 1,
            forall|i: int| 0 <= i <= t@.len() ==> #[trigger] offsets@[i] == byte_at(t@, i),
            char_from(t@, byte as nat, 0) == char_from(t@, byte as nat, k as int),
        decreases t@.len() - k,
    {
        k = k + 1;
    }
    k
}

fn find_start(t: &Vec<char>, i: usize) -> (r: usize)
    requires
        i <= t@.len(),
    ensures
        r == line_start(t@, i as int),
        r <= i,
{
    let mut k: usize = i;
    while k > 0 && t[k - 1] != '\n'
        invariant
            k <= i <= t@.len(),
            line_start(t@, i as int) == line_start(t@, k as int),
        decreases k,
    {
        k = k - 1;
    }
    k
}

fn find_stop(t: &Vec<char>, i: usize) -> (r: usize)
    requires
        i <= t@.len(),
    ensures
        r == line_stop(t@, i as int),
        i <= r <= t@.len(),
{
    let mut k: usize = i;
    while k < t.len() && t[k] != '\n'
        invariant
            i <= k <= t@.len(),
            line_stop(t@, i as int) == line_stop(t@, k as int),
        decreases t@.len() - k,
    {
        k = k + 1;
    }
    k
}

fn count_lines(t: &Vec<char>, i: usize) -> (r: u64)
    requires
        i <= t@.len(),
        t@.len() < u64::MAX,
    ensures
        r == line_number(t@, i as int),
{
    let mut n: u64 = 1;
    let mut k: usize = 0;
    while k < i
        invariant
            k <= i <= t@.len(),
            t@.len() < u64::MAX,
            n == line_number(t@, k as int),
            n <= k + 1,
        decreases i - k,
    {
        if t[k] == '\n' {
            n = n + 1;
        }
        k = k + 1;
    }
    n
}

fn push_repeated(s: &mut String, c: char, n: usize)
    ensures
        final(s)@ == old(s)@ + repeated(c, n as int),
{
    let ghost before = s@;
    let mut k: usize = 0;
    assert(s@ =~= before + repeated(c, 0));
    while k < n
        invariant
            k <= n,
            s@ == before + repeated(c, k as int),
        decreases n - k,
    {
        s.push(c);
        assert(s@ =~= before + repeated(c, k + 1));
        k = k + 1;
    }
}

fn push_place(s: &mut String, file: &SourceFile, start: u32, end: u32)
    requires
        byte_len(file.text@) <= u32::MAX,
    ensures
        final(s)@ == placed(old(s)@, file.name@, file.text@, start as nat, end as nat),
{
    let t = chars_of(file.text.as_str());
    let offsets = byte_offsets(&t);
    let len: usize = t.len();
    proof {
        crate::lexer::chars::lemma_byte_at_mono(t@, 0, t@.len() as int);
    }
    let i: usize = find_char(&t, &offsets, start);
    let j: usize = find_char(&t, &offsets, end);
    let first: usize = find_start(&t, i);
    let stop: usize = find_stop(&t, i);
    push_text(s, "\n --> ");
    push_text(s, file.name.as_str());
    push_text(s, ":");
    push_decimal(s, count_lines(&t, i));
    push_text(s, ":");
    push_decimal(s, (i - first) as u64 + 1);
    push_text(s, "\n");
    let line = substring(&t, first, stop);
    push_text(s, line.as_str());
    push_text(s, "\n");
    push_repeated(s, ' ', i - first);
    let last: usize = if j < stop {
        j
    } else {
        stop
    };
    let carets: usize = if last > i {
        last - i
    } else {
        1
    };
    push_repeated(s, '^', carets);
    proof {
        reveal(placed);
    }
}

/// Every source text is short enough for its spans.
pub open spec fn texts_fit(files: Seq<SourceFile>) -> bool {
    forall|i: int| 0 <= i < files.len() ==> byte_len((#[trigger] files[i]).text@) <= u32::MAX
}

impl Diagnostic {
    /// Renders the diagnostic with its place in the source.
    pub fn render_full(&self, sources: &SourceMap) -> (r: String)
        requires
            texts_fit(sources.files@),
        ensures
            r@ == rendered_full(self@, sources.files@),
    {
        let mut s = self.render();
        if let Some(span) = self.span {
            if (span.source.0 as usize) < sources.files.len() {
                push_place(&mut s, sources.get(span.source), span.start, span.end);
            }
        }
        s
    }
}

} // verus!
