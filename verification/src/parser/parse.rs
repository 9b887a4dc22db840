//! From a source text to its syntax tree.

use vstd::prelude::*;

use crate::ast::nodes::{Program, Stmt};
use crate::ast::view::{
    group_spans, program_view, stmts_none, stmts_push, stmts_view, ProgramView, StmtView,
};
use crate::diagnostics::{diag_views, DiagView, Diagnostic};
use crate::lexer::chars::{byte_len, text_len};
use crate::lexer::laws::{law_stream_ends_with_eof, law_tokens_roomy};
use crate::lexer::scan::{lex, lexed};
use crate::lexer::token::TokenKind;
use crate::parser::expr::enough;
use crate::parser::grammar::{directives, grammar, lemma_rules, unstick};
use crate::parser::order::{law_sorted, sort_diagnostics, sorted};
use crate::parser::state::{PState, Parser};
use crate::source::SourceMap;
use crate::span::{SourceId, Span};

verus! {

broadcast use group_spans;

/// The start of a token stream.
pub open spec fn opening(src: SourceId, t: Seq<char>) -> PState {
    PState { toks: lexed(src, t).tokens, pos: 0, diags: Seq::empty(), no_in: false }
}

/// A depth that suffices to parse the state.
pub open spec fn depth(s: PState) -> nat {
    64 * s.left() + 64
}

/// Where parsing a text ends, and its directives.
pub open spec fn parsed(src: SourceId, t: Seq<char>) -> (PState, Seq<StmtView>) {
    let s = opening(src, t);
    (grammar(depth(s)).directives)(s, Seq::empty())
}

/// The program that a text is.
pub open spec fn program_of(src: SourceId, t: Seq<char>) -> ProgramView {
    ProgramView {
        directives: parsed(src, t).1,
        span: Span { source: src, start: 0, end: byte_len(t) as u32 },
    }
}

/// The lexical and syntax errors of a text, in source order.
pub open spec fn errors_of(src: SourceId, t: Seq<char>) -> Seq<DiagView> {
    sorted(lexed(src, t).diags + parsed(src, t).0.diags)
}

impl Parser {
    /// The directives up to the end of input.
    fn directives(&mut self, Ghost(n): Ghost<nat>) -> (r: Vec<Stmt>)
        requires
            old(self).ok(),
            enough(n, old(self).st(), 37),
        ensures
            (final(self).st(), stmts_view(r@)) == (grammar(n).directives)(
                old(self).st(),
                Seq::empty(),
            ),
    {
        let mut list: Vec<Stmt> = Vec::new();
        proof {
            stmts_none();
        }
        let ghost mut m = n;
        loop
            invariant
                self.ok(),
                0 < m <= n,
                enough(m, self.st(), 37),
                old(self).st().to(self.st()),
                (grammar(n).directives)(old(self).st(), Seq::empty()) == (grammar(m).directives)(
                    self.st(),
                    stmts_view(list@),
                ),
            decreases m,
        {
            proof {
                lemma_rules(m);
            }
            reveal(directives);
            if self.at(&TokenKind::Eof) {
                return list;
            }
            let before: usize = self.pos;
            let ghost b = self.st();
            let s = self.statement(Ghost((m - 1) as nat));
            proof {
                stmts_push(list@, s);
            }
            list.push(s);
            self.unstick(before, Ghost(b));
            proof {
                m = (m - 1) as nat;
            }
        }
    }
}

/// Parses a text into a [`Program`].
///
/// All lexical and syntax errors are returned together: the parser recovers at
/// statement boundaries, so that one error does not mask the rest of the text.
pub fn parse_text(source: SourceId, text: &str) -> (r: Result<Program, Vec<Diagnostic>>)
    requires
        byte_len(text@) <= u32::MAX,
    ensures
        match r {
            Ok(p) => errors_of(source, text@).len() == 0 && program_view(p) == program_of(
                source,
                text@,
            ),
            Err(ds) => errors_of(source, text@).len() > 0 && diag_views(ds@) == errors_of(
                source,
                text@,
            ),
        },
{
    let (tokens, lexical) = lex(source, text);
    proof {
        law_stream_ends_with_eof(source, text@);
        law_tokens_roomy(source, text@);
    }
    let mut parser = Parser { tokens, pos: 0, diagnostics: Vec::new(), no_in: false };
    assert(parser.st().diags =~= Seq::<DiagView>::empty());
    let ghost s = opening(source, text@);
    assert(parser.st() == s);
    let directives = parser.directives(Ghost(depth(s)));
    let mut all = lexical;
    let mut found = parser.diagnostics;
    let ghost both = lexed(source, text@).diags + parsed(source, text@).0.diags;
    assert(diag_views(all@ + found@) =~= both);
    all.append(&mut found);
    let all = sort_diagnostics(all);
    proof {
        law_sorted(both);
    }
    assert(diag_views(all@).len() == all@.len());
    if all.len() == 0 {
        let end: u32 = text_len(text);
        Ok(Program { directives, span: Span::new(source, 0, end) })
    } else {
        Err(all)
    }
}

/// Parses one registered source text.
pub fn parse(sources: &SourceMap, file: SourceId) -> (r: Result<Program, Vec<Diagnostic>>)
    requires
        file.0 < sources.files@.len(),
        byte_len(sources.files@[file.0 as int].text@) <= u32::MAX,
    ensures
        ({
            let t = sources.files@[file.0 as int].text@;
            match r {
                Ok(p) => errors_of(file, t).len() == 0 && program_view(p) == program_of(file, t),
                Err(ds) => errors_of(file, t).len() > 0 && diag_views(ds@) == errors_of(file, t),
            }
        }),
{
    parse_text(file, sources.get(file).text.as_str())
}

} // verus!
