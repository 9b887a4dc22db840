//! Tokens.

use vstd::prelude::*;

use crate::span::Span;
use crate::text::{push_text, same_text};

verus! {

/// A Number literal. What it is worth as a double is left to the caller.
#[derive(Debug, PartialEq, Eq)]
pub enum NumLit {
    /// A decimal literal: digits, at most one point, at most one exponent.
    Decimal(String),
    /// A whole number.
    Whole(u64),
    NotANumber,
}

/// What kind of token was lexed.
#[derive(Debug, PartialEq, Eq)]
pub enum TokenKind {
    Int(i32),
    UInt(u32),
    Number(NumLit),
    Str(String),
    Ident(String),
    /// Pattern and flags.
    RegExp(String, String),
    /// End of input. Always the final token of a stream, and only there.
    Eof,
    LParen,
    RParen,
    LBracket,
    RBracket,
    LBrace,
    RBrace,
    Semicolon,
    Comma,
    BitNot,
    Question,
    Dot,
    DotDot,
    Ellipsis,
    LeftDotAngle,
    Colon,
    ColonColon,
    Assign,
    Eq,
    StrictEq,
    Not,
    Ne,
    StrictNe,
    Plus,
    PlusPlus,
    PlusAssign,
    Minus,
    MinusMinus,
    MinusAssign,
    Star,
    StarAssign,
    Percent,
    PercentAssign,
    BitXor,
    BitXorAssign,
    Slash,
    SlashAssign,
    BitAnd,
    LogAnd,
    BitAndAssign,
    LogAndAssign,
    BitOr,
    LogOr,
    BitOrAssign,
    LogOrAssign,
    Lt,
    Le,
    Shl,
    ShlAssign,
    Gt,
    Ge,
    Shr,
    ShrAssign,
    Ushr,
    UshrAssign,
    Var,
    Const,
    Function,
    If,
    Else,
    While,
    Do,
    For,
    Switch,
    Case,
    Default,
    Break,
    Continue,
    Return,
    Throw,
    Try,
    Catch,
    Finally,
    Package,
    Import,
    Namespace,
    Use,
    Class,
    Interface,
    Extends,
    Implements,
    Public,
    Private,
    Protected,
    Internal,
    Final,
    Dynamic,
    Native,
    Override,
    Static,
    Goto,
    New,
    Delete,
    Void,
    Typeof,
    In,
    Instanceof,
    Is,
    As,
    This,
    Super,
    True,
    False,
    Null,
}

/// One lexed token.
#[derive(Debug)]
pub struct Token {
    pub kind: TokenKind,
    pub span: Span,
    /// A line terminator stands between the previous token and this one, or the
    /// token is a string with a line continuation in it.
    pub newline_before: bool,
}

// --- views ------------------------------------------------------------------------------

pub ghost enum NumView {
    Decimal(Seq<char>),
    Whole(u64),
    NotANumber,
}

impl View for NumLit {
    type V = NumView;

    open spec fn view(&self) -> NumView {
        match *self {
            NumLit::Decimal(s) => NumView::Decimal(s@),
            NumLit::Whole(v) => NumView::Whole(v),
            NumLit::NotANumber => NumView::NotANumber,
        }
    }
}

/// What a [`TokenKind`] says: texts are sequences of characters, every other
/// kind is itself.
pub ghost enum KindView {
    Number(NumView),
    Str(Seq<char>),
    Ident(Seq<char>),
    RegExp(Seq<char>, Seq<char>),
    Plain(TokenKind),
}

impl View for TokenKind {
    type V = KindView;

    open spec fn view(&self) -> KindView {
        match *self {
            TokenKind::Number(n) => KindView::Number(n@),
            TokenKind::Str(s) => KindView::Str(s@),
            TokenKind::Ident(s) => KindView::Ident(s@),
            TokenKind::RegExp(p, f) => KindView::RegExp(p@, f@),
            k => KindView::Plain(k),
        }
    }
}

pub ghost struct TokenView {
    pub kind: KindView,
    pub span: Span,
    pub newline_before: bool,
}

impl View for Token {
    type V = TokenView;

    open spec fn view(&self) -> TokenView {
        TokenView { kind: self.kind@, span: self.span, newline_before: self.newline_before }
    }
}

pub open spec fn token_views(ts: Seq<Token>) -> Seq<TokenView> {
    ts.map_values(|t: Token| t@)
}

// --- spelling -----------------------------------------------------------------------------

/// How an operator, a bracket or a separator is written.
#[verifier::opaque]
pub open spec fn punctuator_text(k: TokenKind) -> Option<&'static str> {
    match k {
        TokenKind::LParen => Some("("),
        TokenKind::RParen => Some(")"),
        TokenKind::LBracket => Some("["),
        TokenKind::RBracket => Some("]"),
        TokenKind::LBrace => Some("{"),
        TokenKind::RBrace => Some("}"),
        TokenKind::Semicolon => Some(";"),
        TokenKind::Comma => Some(","),
        TokenKind::BitNot => Some("~"),
        TokenKind::Question => Some("?"),
        TokenKind::Dot => Some("."),
        TokenKind::DotDot => Some(".."),
        TokenKind::Ellipsis => Some("..."),
        TokenKind::LeftDotAngle => Some(".<"),
        TokenKind::Colon => Some(":"),
        TokenKind::ColonColon => Some("::"),
        TokenKind::Assign => Some("="),
        TokenKind::Eq => Some("=="),
        TokenKind::StrictEq => Some("==="),
        TokenKind::Not => Some("!"),
        TokenKind::Ne => Some("!="),
        TokenKind::StrictNe => Some("!=="),
        TokenKind::Plus => Some("+"),
        TokenKind::PlusPlus => Some("++"),
        TokenKind::PlusAssign => Some("+="),
        TokenKind::Minus => Some("-"),
        TokenKind::MinusMinus => Some("--"),
        TokenKind::MinusAssign => Some("-="),
        TokenKind::Star => Some("*"),
        TokenKind::StarAssign => Some("*="),
        TokenKind::Percent => Some("%"),
        TokenKind::PercentAssign => Some("%="),
        TokenKind::BitXor => Some("^"),
        TokenKind::BitXorAssign => Some("^="),
        TokenKind::Slash => Some("/"),
        TokenKind::SlashAssign => Some("/="),
        TokenKind::BitAnd => Some("&"),
        TokenKind::LogAnd => Some("&&"),
        TokenKind::BitAndAssign => Some("&="),
        TokenKind::LogAndAssign => Some("&&="),
        TokenKind::BitOr => Some("|"),
        TokenKind::LogOr => Some("||"),
        TokenKind::BitOrAssign => Some("|="),
        TokenKind::LogOrAssign => Some("||="),
        TokenKind::Lt => Some("<"),
        TokenKind::Le => Some("<="),
        TokenKind::Shl => Some("<<"),
        TokenKind::ShlAssign => Some("<<="),
        TokenKind::Gt => Some(">"),
        TokenKind::Ge => Some(">="),
        TokenKind::Shr => Some(">>"),
        TokenKind::ShrAssign => Some(">>="),
        TokenKind::Ushr => Some(">>>"),
        TokenKind::UshrAssign => Some(">>>="),
        _ => None,
    }
}

/// How a keyword is written.
#[verifier::opaque]
pub open spec fn keyword_text(k: TokenKind) -> Option<&'static str> {
    match k {
        TokenKind::Var => Some("var"),
        TokenKind::Const => Some("const"),
        TokenKind::Function => Some("function"),
        TokenKind::If => Some("if"),
        TokenKind::Else => Some("else"),
        TokenKind::While => Some("while"),
        TokenKind::Do => Some("do"),
        TokenKind::For => Some("for"),
        TokenKind::Switch => Some("switch"),
        TokenKind::Case => Some("case"),
        TokenKind::Default => Some("default"),
        TokenKind::Break => Some("break"),
        TokenKind::Continue => Some("continue"),
        TokenKind::Return => Some("return"),
        TokenKind::Throw => Some("throw"),
        TokenKind::Try => Some("try"),
        TokenKind::Catch => Some("catch"),
        TokenKind::Finally => Some("finally"),
        TokenKind::Package => Some("package"),
        TokenKind::Import => Some("import"),
        TokenKind::Namespace => Some("namespace"),
        TokenKind::Use => Some("use"),
        TokenKind::Class => Some("class"),
        TokenKind::Interface => Some("interface"),
        TokenKind::Extends => Some("extends"),
        TokenKind::Implements => Some("implements"),
        TokenKind::Public => Some("public"),
        TokenKind::Private => Some("private"),
        TokenKind::Protected => Some("protected"),
        TokenKind::Internal => Some("internal"),
        TokenKind::Final => Some("final"),
        TokenKind::Dynamic => Some("dynamic"),
        TokenKind::Native => Some("native"),
        TokenKind::Override => Some("override"),
        TokenKind::Static => Some("static"),
        TokenKind::Goto => Some("goto"),
        TokenKind::New => Some("new"),
        TokenKind::Delete => Some("delete"),
        TokenKind::Void => Some("void"),
        TokenKind::Typeof => Some("typeof"),
        TokenKind::In => Some("in"),
        TokenKind::Instanceof => Some("instanceof"),
        TokenKind::Is => Some("is"),
        TokenKind::As => Some("as"),
        TokenKind::This => Some("this"),
        TokenKind::Super => Some("super"),
        TokenKind::True => Some("true"),
        TokenKind::False => Some("false"),
        TokenKind::Null => Some("null"),
        _ => None,
    }
}

/// The keyword that a word is, if it is one.
#[verifier::opaque]
pub open spec fn keyword_of(w: Seq<char>) -> Option<TokenKind> {
    if w == "var"@ {
        Some(TokenKind::Var)
    } else if w == "const"@ {
        Some(TokenKind::Const)
    } else if w == "function"@ {
        Some(TokenKind::Function)
    } else if w == "if"@ {
        Some(TokenKind::If)
    } else if w == "else"@ {
        Some(TokenKind::Else)
    } else if w == "while"@ {
        Some(TokenKind::While)
    } else if w == "do"@ {
        Some(TokenKind::Do)
    } else if w == "for"@ {
        Some(TokenKind::For)
    } else if w == "switch"@ {
        Some(TokenKind::Switch)
    } else if w == "case"@ {
        Some(TokenKind::Case)
    } else if w == "default"@ {
        Some(TokenKind::Default)
    } else if w == "break"@ {
        Some(TokenKind::Break)
    } else if w == "continue"@ {
        Some(TokenKind::Continue)
    } else if w == "return"@ {
        Some(TokenKind::Return)
    } else if w == "throw"@ {
        Some(TokenKind::Throw)
    } else if w == "try"@ {
        Some(TokenKind::Try)
    } else if w == "catch"@ {
        Some(TokenKind::Catch)
    } else if w == "finally"@ {
        Some(TokenKind::Finally)
    } else if w == "package"@ {
        Some(TokenKind::Package)
    } else if w == "import"@ {
        Some(TokenKind::Import)
    } else if w == "namespace"@ {
        Some(TokenKind::Namespace)
    } else if w == "use"@ {
        Some(TokenKind::Use)
    } else if w == "class"@ {
        Some(TokenKind::Class)
    } else if w == "interface"@ {
        Some(TokenKind::Interface)
    } else if w == "extends"@ {
        Some(TokenKind::Extends)
    } else if w == "implements"@ {
        Some(TokenKind::Implements)
    } else if w == "public"@ {
        Some(TokenKind::Public)
    } else if w == "private"@ {
        Some(TokenKind::Private)
    } else if w == "protected"@ {
        Some(TokenKind::Protected)
    } else if w == "internal"@ {
        Some(TokenKind::Internal)
    } else if w == "final"@ {
        Some(TokenKind::Final)
    } else if w == "dynamic"@ {
        Some(TokenKind::Dynamic)
    } else if w == "native"@ {
        Some(TokenKind::Native)
    } else if w == "override"@ {
        Some(TokenKind::Override)
    } else if w == "static"@ {
        Some(TokenKind::Static)
    } else if w == "goto"@ {
        Some(TokenKind::Goto)
    } else if w == "new"@ {
        Some(TokenKind::New)
    } else if w == "delete"@ {
        Some(TokenKind::Delete)
    } else if w == "void"@ {
        Some(TokenKind::Void)
    } else if w == "typeof"@ {
        Some(TokenKind::Typeof)
    } else if w == "in"@ {
        Some(TokenKind::In)
    } else if w == "instanceof"@ {
        Some(TokenKind::Instanceof)
    } else if w == "is"@ {
        Some(TokenKind::Is)
    } else if w == "as"@ {
        Some(TokenKind::As)
    } else if w == "this"@ {
        Some(TokenKind::This)
    } else if w == "super"@ {
        Some(TokenKind::Super)
    } else if w == "true"@ {
        Some(TokenKind::True)
    } else if w == "false"@ {
        Some(TokenKind::False)
    } else if w == "null"@ {
        Some(TokenKind::Null)
    } else {
        None
    }
}

/// How an error message names a token.
#[verifier::opaque]
pub open spec fn described(k: KindView) -> Seq<char> {
    match k {
        KindView::Ident(s) => "identifier `"@ + s + "`"@,
        KindView::Number(_) => "number"@,
        KindView::Str(_) => "string"@,
        KindView::RegExp(_, _) => "regular expression"@,
        KindView::Plain(p) => match (punctuator_text(p), keyword_text(p)) {
            (Some(t), _) => "`"@ + t@ + "`"@,
            (None, Some(t)) => "`"@ + t@ + "`"@,
            (None, None) => match p {
                TokenKind::Eof => "end of file"@,
                _ => "number"@,
            },
        },
    }
}

/// A number for each kind without a text or a value; 0 for the others.
pub open spec fn kind_number(k: TokenKind) -> u8 {
    match k {
        TokenKind::Eof => 1,
        TokenKind::LParen => 2,
        TokenKind::RParen => 3,
        TokenKind::LBracket => 4,
        TokenKind::RBracket => 5,
        TokenKind::LBrace => 6,
        TokenKind::RBrace => 7,
        TokenKind::Semicolon => 8,
        TokenKind::Comma => 9,
        TokenKind::BitNot => 10,
        TokenKind::Question => 11,
        TokenKind::Dot => 12,
        TokenKind::DotDot => 13,
        TokenKind::Ellipsis => 14,
        TokenKind::LeftDotAngle => 15,
        TokenKind::Colon => 16,
        TokenKind::ColonColon => 17,
        TokenKind::Assign => 18,
        TokenKind::Eq => 19,
        TokenKind::StrictEq => 20,
        TokenKind::Not => 21,
        TokenKind::Ne => 22,
        TokenKind::StrictNe => 23,
        TokenKind::Plus => 24,
        TokenKind::PlusPlus => 25,
        TokenKind::PlusAssign => 26,
        TokenKind::Minus => 27,
        TokenKind::MinusMinus => 28,
        TokenKind::MinusAssign => 29,
        TokenKind::Star => 30,
        TokenKind::StarAssign => 31,
        TokenKind::Percent => 32,
        TokenKind::PercentAssign => 33,
        TokenKind::BitXor => 34,
        TokenKind::BitXorAssign => 35,
        TokenKind::Slash => 36,
        TokenKind::SlashAssign => 37,
        TokenKind::BitAnd => 38,
        TokenKind::LogAnd => 39,
        TokenKind::BitAndAssign => 40,
        TokenKind::LogAndAssign => 41,
        TokenKind::BitOr => 42,
        TokenKind::LogOr => 43,
        TokenKind::BitOrAssign => 44,
        TokenKind::LogOrAssign => 45,
        TokenKind::Lt => 46,
        TokenKind::Le => 47,
        TokenKind::Shl => 48,
        TokenKind::ShlAssign => 49,
        TokenKind::Gt => 50,
        TokenKind::Ge => 51,
        TokenKind::Shr => 52,
        TokenKind::ShrAssign => 53,
        TokenKind::Ushr => 54,
        TokenKind::UshrAssign => 55,
        TokenKind::Var => 56,
        TokenKind::Const => 57,
        TokenKind::Function => 58,
        TokenKind::If => 59,
        TokenKind::Else => 60,
        TokenKind::While => 61,
        TokenKind::Do => 62,
        TokenKind::For => 63,
        TokenKind::Switch => 64,
        TokenKind::Case => 65,
        TokenKind::Default => 66,
        TokenKind::Break => 67,
        TokenKind::Continue => 68,
        TokenKind::Return => 69,
        TokenKind::Throw => 70,
        TokenKind::Try => 71,
        TokenKind::Catch => 72,
        TokenKind::Finally => 73,
        TokenKind::Package => 74,
        TokenKind::Import => 75,
        TokenKind::Namespace => 76,
        TokenKind::Use => 77,
        TokenKind::Class => 78,
        TokenKind::Interface => 79,
        TokenKind::Extends => 80,
        TokenKind::Implements => 81,
        TokenKind::Public => 82,
        TokenKind::Private => 83,
        TokenKind::Protected => 84,
        TokenKind::Internal => 85,
        TokenKind::Final => 86,
        TokenKind::Dynamic => 87,
        TokenKind::Native => 88,
        TokenKind::Override => 89,
        TokenKind::Static => 90,
        TokenKind::Goto => 91,
        TokenKind::New => 92,
        TokenKind::Delete => 93,
        TokenKind::Void => 94,
        TokenKind::Typeof => 95,
        TokenKind::In => 96,
        TokenKind::Instanceof => 97,
        TokenKind::Is => 98,
        TokenKind::As => 99,
        TokenKind::This => 100,
        TokenKind::Super => 101,
        TokenKind::True => 102,
        TokenKind::False => 103,
        TokenKind::Null => 104,
        _ => 0,
    }
}

proof fn lemma_kind_number(a: TokenKind, b: TokenKind)
    requires
        kind_number(a) == kind_number(b),
        kind_number(a) != 0,
    ensures
        a == b,
{
}

impl TokenKind {
    /// The keyword that a word is, if it is one.
    pub fn keyword(word: &str) -> (r: Option<TokenKind>)
        ensures
            r == keyword_of(word@),
    {
        reveal(keyword_of);
        if same_text(word, "var") {
            Some(TokenKind::Var)
        } else if same_text(word, "const") {
            Some(TokenKind::Const)
        } else if same_text(word, "function") {
            Some(TokenKind::Function)
        } else if same_text(word, "if") {
            Some(TokenKind::If)
        } else if same_text(word, "else") {
            Some(TokenKind::Else)
        } else if same_text(word, "while") {
            Some(TokenKind::While)
        } else if same_text(word, "do") {
            Some(TokenKind::Do)
        } else if same_text(word, "for") {
            Some(TokenKind::For)
        } else if same_text(word, "switch") {
            Some(TokenKind::Switch)
        } else if same_text(word, "case") {
            Some(TokenKind::Case)
        } else if same_text(word, "default") {
            Some(TokenKind::Default)
        } else if same_text(word, "break") {
            Some(TokenKind::Break)
        } else if same_text(word, "continue") {
            Some(TokenKind::Continue)
        } else if same_text(word, "return") {
            Some(TokenKind::Return)
        } else if same_text(word, "throw") {
            Some(TokenKind::Throw)
        } else if same_text(word, "try") {
            Some(TokenKind::Try)
        } else if same_text(word, "catch") {
            Some(TokenKind::Catch)
        } else if same_text(word, "finally") {
            Some(TokenKind::Finally)
        } else if same_text(word, "package") {
            Some(TokenKind::Package)
        } else if same_text(word, "import") {
            Some(TokenKind::Import)
        } else if same_text(word, "namespace") {
            Some(TokenKind::Namespace)
        } else if same_text(word, "use") {
            Some(TokenKind::Use)
        } else if same_text(word, "class") {
            Some(TokenKind::Class)
        } else if same_text(word, "interface") {
            Some(TokenKind::Interface)
        } else if same_text(word, "extends") {
            Some(TokenKind::Extends)
        } else if same_text(word, "implements") {
            Some(TokenKind::Implements)
        } else if same_text(word, "public") {
            Some(TokenKind::Public)
        } else if same_text(word, "private") {
            Some(TokenKind::Private)
        } else if same_text(word, "protected") {
            Some(TokenKind::Protected)
        } else if same_text(word, "internal") {
            Some(TokenKind::Internal)
        } else if same_text(word, "final") {
            Some(TokenKind::Final)
        } else if same_text(word, "dynamic") {
            Some(TokenKind::Dynamic)
        } else if same_text(word, "native") {
            Some(TokenKind::Native)
        } else if same_text(word, "override") {
            Some(TokenKind::Override)
        } else if same_text(word, "static") {
            Some(TokenKind::Static)
        } else if same_text(word, "goto") {
            Some(TokenKind::Goto)
        } else if same_text(word, "new") {
            Some(TokenKind::New)
        } else if same_text(word, "delete") {
            Some(TokenKind::Delete)
        } else if same_text(word, "void") {
            Some(TokenKind::Void)
        } else if same_text(word, "typeof") {
            Some(TokenKind::Typeof)
        } else if same_text(word, "in") {
            Some(TokenKind::In)
        } else if same_text(word, "instanceof") {
            Some(TokenKind::Instanceof)
        } else if same_text(word, "is") {
            Some(TokenKind::Is)
        } else if same_text(word, "as") {
            Some(TokenKind::As)
        } else if same_text(word, "this") {
            Some(TokenKind::This)
        } else if same_text(word, "super") {
            Some(TokenKind::Super)
        } else if same_text(word, "true") {
            Some(TokenKind::True)
        } else if same_text(word, "false") {
            Some(TokenKind::False)
        } else if same_text(word, "null") {
            Some(TokenKind::Null)
        } else {
            None
        }
    }

    fn number(&self) -> (r: u8)
        ensures
            r == kind_number(*self),
    {
        match self {
            TokenKind::Eof => 1,
            TokenKind::LParen => 2,
            TokenKind::RParen => 3,
            TokenKind::LBracket => 4,
            TokenKind::RBracket => 5,
            TokenKind::LBrace => 6,
            TokenKind::RBrace => 7,
            TokenKind::Semicolon => 8,
            TokenKind::Comma => 9,
            TokenKind::BitNot => 10,
            TokenKind::Question => 11,
            TokenKind::Dot => 12,
            TokenKind::DotDot => 13,
            TokenKind::Ellipsis => 14,
            TokenKind::LeftDotAngle => 15,
            TokenKind::Colon => 16,
            TokenKind::ColonColon => 17,
            TokenKind::Assign => 18,
            TokenKind::Eq => 19,
            TokenKind::StrictEq => 20,
            TokenKind::Not => 21,
            TokenKind::Ne => 22,
            TokenKind::StrictNe => 23,
            TokenKind::Plus => 24,
            TokenKind::PlusPlus => 25,
            TokenKind::PlusAssign => 26,
            TokenKind::Minus => 27,
            TokenKind::MinusMinus => 28,
            TokenKind::MinusAssign => 29,
            TokenKind::Star => 30,
            TokenKind::StarAssign => 31,
            TokenKind::Percent => 32,
            TokenKind::PercentAssign => 33,
            TokenKind::BitXor => 34,
            TokenKind::BitXorAssign => 35,
            TokenKind::Slash => 36,
            TokenKind::SlashAssign => 37,
            TokenKind::BitAnd => 38,
            TokenKind::LogAnd => 39,
            TokenKind::BitAndAssign => 40,
            TokenKind::LogAndAssign => 41,
            TokenKind::BitOr => 42,
            TokenKind::LogOr => 43,
            TokenKind::BitOrAssign => 44,
            TokenKind::LogOrAssign => 45,
            TokenKind::Lt => 46,
            TokenKind::Le => 47,
            TokenKind::Shl => 48,
            TokenKind::ShlAssign => 49,
            TokenKind::Gt => 50,
            TokenKind::Ge => 51,
            TokenKind::Shr => 52,
            TokenKind::ShrAssign => 53,
            TokenKind::Ushr => 54,
            TokenKind::UshrAssign => 55,
            TokenKind::Var => 56,
            TokenKind::Const => 57,
            TokenKind::Function => 58,
            TokenKind::If => 59,
            TokenKind::Else => 60,
            TokenKind::While => 61,
            TokenKind::Do => 62,
            TokenKind::For => 63,
            TokenKind::Switch => 64,
            TokenKind::Case => 65,
            TokenKind::Default => 66,
            TokenKind::Break => 67,
            TokenKind::Continue => 68,
            TokenKind::Return => 69,
            TokenKind::Throw => 70,
            TokenKind::Try => 71,
            TokenKind::Catch => 72,
            TokenKind::Finally => 73,
            TokenKind::Package => 74,
            TokenKind::Import => 75,
            TokenKind::Namespace => 76,
            TokenKind::Use => 77,
            TokenKind::Class => 78,
            TokenKind::Interface => 79,
            TokenKind::Extends => 80,
            TokenKind::Implements => 81,
            TokenKind::Public => 82,
            TokenKind::Private => 83,
            TokenKind::Protected => 84,
            TokenKind::Internal => 85,
            TokenKind::Final => 86,
            TokenKind::Dynamic => 87,
            TokenKind::Native => 88,
            TokenKind::Override => 89,
            TokenKind::Static => 90,
            TokenKind::Goto => 91,
            TokenKind::New => 92,
            TokenKind::Delete => 93,
            TokenKind::Void => 94,
            TokenKind::Typeof => 95,
            TokenKind::In => 96,
            TokenKind::Instanceof => 97,
            TokenKind::Is => 98,
            TokenKind::As => 99,
            TokenKind::This => 100,
            TokenKind::Super => 101,
            TokenKind::True => 102,
            TokenKind::False => 103,
            TokenKind::Null => 104,
            _ => 0,
        }
    }

    /// Whether this is the kind `k`, which carries neither text nor value.
    pub fn is_kind(&self, k: &TokenKind) -> (r: bool)
        requires
            kind_number(*k) != 0,
        ensures
            r == (self@ == KindView::Plain(*k)),
    {
        let r = self.number() == k.number();
        if r {
            proof {
                lemma_kind_number(*self, *k);
            }
        }
        r
    }

    fn punctuator(&self) -> (r: Option<&'static str>)
        ensures
            r == punctuator_text(*self),
    {
        reveal(punctuator_text);
        match self {
            TokenKind::LParen => Some("("),
            TokenKind::RParen => Some(")"),
            TokenKind::LBracket => Some("["),
            TokenKind::RBracket => Some("]"),
            TokenKind::LBrace => Some("{"),
            TokenKind::RBrace => Some("}"),
            TokenKind::Semicolon => Some(";"),
            TokenKind::Comma => Some(","),
            TokenKind::BitNot => Some("~"),
            TokenKind::Question => Some("?"),
            TokenKind::Dot => Some("."),
            TokenKind::DotDot => Some(".."),
            TokenKind::Ellipsis => Some("..."),
            TokenKind::LeftDotAngle => Some(".<"),
            TokenKind::Colon => Some(":"),
            TokenKind::ColonColon => Some("::"),
            TokenKind::Assign => Some("="),
            TokenKind::Eq => Some("=="),
            TokenKind::StrictEq => Some("==="),
            TokenKind::Not => Some("!"),
            TokenKind::Ne => Some("!="),
            TokenKind::StrictNe => Some("!=="),
            TokenKind::Plus => Some("+"),
            TokenKind::PlusPlus => Some("++"),
            TokenKind::PlusAssign => Some("+="),
            TokenKind::Minus => Some("-"),
            TokenKind::MinusMinus => Some("--"),
            TokenKind::MinusAssign => Some("-="),
            TokenKind::Star => Some("*"),
            TokenKind::StarAssign => Some("*="),
            TokenKind::Percent => Some("%"),
            TokenKind::PercentAssign => Some("%="),
            TokenKind::BitXor => Some("^"),
            TokenKind::BitXorAssign => Some("^="),
            TokenKind::Slash => Some("/"),
            TokenKind::SlashAssign => Some("/="),
            TokenKind::BitAnd => Some("&"),
            TokenKind::LogAnd => Some("&&"),
            TokenKind::BitAndAssign => Some("&="),
            TokenKind::LogAndAssign => Some("&&="),
            TokenKind::BitOr => Some("|"),
            TokenKind::LogOr => Some("||"),
            TokenKind::BitOrAssign => Some("|="),
            TokenKind::LogOrAssign => Some("||="),
            TokenKind::Lt => Some("<"),
            TokenKind::Le => Some("<="),
            TokenKind::Shl => Some("<<"),
            TokenKind::ShlAssign => Some("<<="),
            TokenKind::Gt => Some(">"),
            TokenKind::Ge => Some(">="),
            TokenKind::Shr => Some(">>"),
            TokenKind::ShrAssign => Some(">>="),
            TokenKind::Ushr => Some(">>>"),
            TokenKind::UshrAssign => Some(">>>="),
            _ => None,
        }
    }

    fn keyword_word(&self) -> (r: Option<&'static str>)
        ensures
            r == keyword_text(*self),
    {
        reveal(keyword_text);
        match self {
            TokenKind::Var => Some("var"),
            TokenKind::Const => Some("const"),
            TokenKind::Function => Some("function"),
            TokenKind::If => Some("if"),
            TokenKind::Else => Some("else"),
            TokenKind::While => Some("while"),
            TokenKind::Do => Some("do"),
            TokenKind::For => Some("for"),
            TokenKind::Switch => Some("switch"),
            TokenKind::Case => Some("case"),
            TokenKind::Default => Some("default"),
            TokenKind::Break => Some("break"),
            TokenKind::Continue => Some("continue"),
            TokenKind::Return => Some("return"),
            TokenKind::Throw => Some("throw"),
            TokenKind::Try => Some("try"),
            TokenKind::Catch => Some("catch"),
            TokenKind::Finally => Some("finally"),
            TokenKind::Package => Some("package"),
            TokenKind::Import => Some("import"),
            TokenKind::Namespace => Some("namespace"),
            TokenKind::Use => Some("use"),
            TokenKind::Class => Some("class"),
            TokenKind::Interface => Some("interface"),
            TokenKind::Extends => Some("extends"),
            TokenKind::Implements => Some("implements"),
            TokenKind::Public => Some("public"),
            TokenKind::Private => Some("private"),
            TokenKind::Protected => Some("protected"),
            TokenKind::Internal => Some("internal"),
            TokenKind::Final => Some("final"),
            TokenKind::Dynamic => Some("dynamic"),
            TokenKind::Native => Some("native"),
            TokenKind::Override => Some("override"),
            TokenKind::Static => Some("static"),
            TokenKind::Goto => Some("goto"),
            TokenKind::New => Some("new"),
            TokenKind::Delete => Some("delete"),
            TokenKind::Void => Some("void"),
            TokenKind::Typeof => Some("typeof"),
            TokenKind::In => Some("in"),
            TokenKind::Instanceof => Some("instanceof"),
            TokenKind::Is => Some("is"),
            TokenKind::As => Some("as"),
            TokenKind::This => Some("this"),
            TokenKind::Super => Some("super"),
            TokenKind::True => Some("true"),
            TokenKind::False => Some("false"),
            TokenKind::Null => Some("null"),
            _ => None,
        }
    }

    /// How an error message names the token.
    pub fn describe(&self) -> (r: String)
        ensures
            r@ == described(self@),
    {
        reveal(described);
        reveal(punctuator_text);
        reveal(keyword_text);
        let mut out = String::new();
        match self {
            TokenKind::Ident(s) => {
                push_text(&mut out, "identifier `");
                push_text(&mut out, s.as_str());
                push_text(&mut out, "`");
            },
            TokenKind::Number(_) | TokenKind::Int(_) | TokenKind::UInt(_) => {
                push_text(&mut out, "number");
            },
            TokenKind::Str(_) => {
                push_text(&mut out, "string");
            },
            TokenKind::RegExp(_, _) => {
                push_text(&mut out, "regular expression");
            },
            TokenKind::Eof => {
                push_text(&mut out, "end of file");
            },
            _ => {
                push_text(&mut out, "`");
                match self.punctuator() {
                    Some(t) => push_text(&mut out, t),
                    None => match self.keyword_word() {
                        Some(t) => push_text(&mut out, t),
                        None => {},
                    },
                }
                push_text(&mut out, "`");
            },
        }
        assert(out@ =~= described(self@));
        out
    }
}

} // verus!
