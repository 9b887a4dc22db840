//! Diagnostics: severities, stable error codes, and rendering.
//!
//! Errors of a user's program are always reported as [`Diagnostic`] values.

use vstd::prelude::*;

use crate::span::Span;
use crate::text::{decimal, push_decimal, push_text};

verus! {

/// How severe a diagnostic is.
#[derive(Clone, Copy, Debug, PartialEq, Eq, Structural)]
pub enum Severity {
    /// Compilation cannot succeed.
    Error,
    /// Suspicious but not fatal.
    Warning,
    /// Attached explanatory note.
    Note,
}

/// A stable error code, rendered as e.g. `error[E0001]`.
///
/// Codes are never reused or renumbered.
#[derive(Clone, Copy, Debug, PartialEq, Eq, Structural)]
pub struct ErrorCode(pub u16);

// The numbers of the codes.

/// The feature is not implemented.
pub const NOT_IMPLEMENTED: u16 = 1;

pub const UNEXPECTED_CHAR: u16 = 2;

pub const UNTERMINATED_COMMENT: u16 = 3;

pub const UNTERMINATED_STRING: u16 = 4;

pub const MALFORMED_NUMBER: u16 = 5;

pub const UNEXPECTED_TOKEN: u16 = 6;

pub const EXPECTED_SEMICOLON: u16 = 7;

pub const INVALID_ASSIGN_TARGET: u16 = 8;

pub const UNSUPPORTED_SYNTAX: u16 = 9;

pub const FOR_EACH_REQUIRES_IN: u16 = 10;

pub const UNTERMINATED_REGEX: u16 = 11;

/// One message for the user, possibly anchored to source.
#[derive(Debug)]
pub struct Diagnostic {
    pub severity: Severity,
    pub code: Option<ErrorCode>,
    pub message: String,
    pub span: Option<Span>,
}

/// What a [`Diagnostic`] says.
pub ghost struct DiagView {
    pub severity: Severity,
    pub code: Option<ErrorCode>,
    pub message: Seq<char>,
    pub span: Option<Span>,
}

impl View for Diagnostic {
    type V = DiagView;

    open spec fn view(&self) -> DiagView {
        DiagView {
            severity: self.severity,
            code: self.code,
            message: self.message@,
            span: self.span,
        }
    }
}

/// What a list of diagnostics says.
pub open spec fn diag_views(ds: Seq<Diagnostic>) -> Seq<DiagView> {
    ds.map_values(|d: Diagnostic| d@)
}

/// An error with a code, a message and a place.
pub open spec fn error_at(code: ErrorCode, message: Seq<char>, span: Span) -> DiagView {
    DiagView { severity: Severity::Error, code: Some(code), message, span: Some(span) }
}

pub open spec fn label_of(s: Severity) -> Seq<char> {
    match s {
        Severity::Error => "error"@,
        Severity::Warning => "warning"@,
        Severity::Note => "note"@,
    }
}

/// A number with leading zeros up to four digits.
pub open spec fn four_digits(n: nat) -> Seq<char> {
    (if n < 10 {
        "000"@
    } else if n < 100 {
        "00"@
    } else if n < 1000 {
        "0"@
    } else {
        ""@
    }) + decimal(n)
}

/// A diagnostic as a single line.
pub open spec fn rendered(d: DiagView) -> Seq<char> {
    match d.code {
        Some(c) => label_of(d.severity) + "[E"@ + four_digits(c.0 as nat) + "]: "@ + d.message,
        None => label_of(d.severity) + ": "@ + d.message,
    }
}

impl Diagnostic {
    /// Creates an error diagnostic with a stable code.
    pub fn error(code: ErrorCode, message: &str) -> (r: Diagnostic)
        ensures
            r@ == (DiagView {
                severity: Severity::Error,
                code: Some(code),
                message: message@,
                span: None,
            }),
    {
        Diagnostic {
            severity: Severity::Error,
            code: Some(code),
            message: message.to_owned(),
            span: None,
        }
    }

    /// Attaches a primary span.
    pub fn with_span(self, span: Span) -> (r: Diagnostic)
        ensures
            r@ == (DiagView { span: Some(span), ..self@ }),
    {
        Diagnostic {
            severity: self.severity,
            code: self.code,
            message: self.message,
            span: Some(span),
        }
    }

    /// Renders the diagnostic as a single line.
    pub fn render(&self) -> (r: String)
        ensures
            r@ == rendered(self@),
    {
        let mut out = String::new();
        match self.severity {
            Severity::Error => push_text(&mut out, "error"),
            Severity::Warning => push_text(&mut out, "warning"),
            Severity::Note => push_text(&mut out, "note"),
        }
        assert(out@ =~= label_of(self.severity));
        if let Some(ErrorCode(n)) = self.code {
            push_text(&mut out, "[E");
            let ghost before = out@;
            if n < 10 {
                push_text(&mut out, "000");
            } else if n < 100 {
                push_text(&mut out, "00");
            } else if n < 1000 {
                push_text(&mut out, "0");
            } else {
                push_text(&mut out, "");
            }
            push_decimal(&mut out, n as u64);
            assert(out@ =~= before + four_digits(n as nat));
            push_text(&mut out, "]: ");
        } else {
            push_text(&mut out, ": ");
        }
        push_text(&mut out, self.message.as_str());
        out
    }
}

} // verus!
