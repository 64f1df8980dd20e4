//! Tokens produced by the lexer.

use crate::text::{int_text, push_int_text};
use vstd::prelude::*;
use vstd::string::StringExecFns;

verus! {

/// The kind of a token. Its text payloads have type `S`: `String` in
/// tokens that the lexer hands out (see [`TokenKind`]), `Seq<char>` in the
/// specification of the lexer (see [`SpecTokenKind`]).
///
/// A float literal carries its source text (digits, a dot, digits); the
/// interpreter turns that text into a number.
#[derive(Debug, Clone, PartialEq)]
pub enum TokenKindOf<S> {
    IntLiteral(i64),
    FloatLiteral(S),
    StringLiteral(S),
    Identifier(S),
    // Keywords: primitive types
    Int,
    Float,
    Bool,
    Str,
    Void,
    // Keywords: control flow and declarations
    If,
    Else,
    While,
    For,
    Return,
    True,
    False,
    Null,
    New,
    // Operators
    Plus,
    Minus,
    Star,
    Slash,
    Percent,
    EqEq,
    NotEq,
    Lt,
    LtEq,
    Gt,
    GtEq,
    AndAnd,
    OrOr,
    Bang,
    Eq,
    // Bitwise and shift operators; `UShr` is `>>>`, the zero-filling right shift
    Amp,
    Pipe,
    Caret,
    Tilde,
    Shl,
    Shr,
    UShr,
    // Ternary
    Question,
    Colon,
    // Compound assignment
    PlusEq,
    MinusEq,
    StarEq,
    SlashEq,
    PercentEq,
    AmpEq,
    PipeEq,
    CaretEq,
    ShlEq,
    ShrEq,
    UShrEq,
    // Increment and decrement
    PlusPlus,
    MinusMinus,
    // Punctuation
    LParen,
    RParen,
    LBrace,
    RBrace,
    LBracket,
    RBracket,
    Comma,
    Semicolon,
    Dot,
    // End of input
    Eof,
}

/// A token as the lexer hands it out.
pub type TokenKind = TokenKindOf<String>;

/// A token kind as the specification of the lexer speaks of it.
pub type SpecTokenKind = TokenKindOf<Seq<char>>;

impl View for TokenKindOf<String> {
    type V = SpecTokenKind;

    open spec fn view(&self) -> SpecTokenKind {
        match self {
            TokenKindOf::IntLiteral(v) => TokenKindOf::IntLiteral(*v),
            TokenKindOf::FloatLiteral(s) => TokenKindOf::FloatLiteral(s@),
            TokenKindOf::StringLiteral(s) => TokenKindOf::StringLiteral(s@),
            TokenKindOf::Identifier(s) => TokenKindOf::Identifier(s@),
            TokenKindOf::Int => TokenKindOf::Int,
            TokenKindOf::Float => TokenKindOf::Float,
            TokenKindOf::Bool => TokenKindOf::Bool,
            TokenKindOf::Str => TokenKindOf::Str,
            TokenKindOf::Void => TokenKindOf::Void,
            TokenKindOf::If => TokenKindOf::If,
            TokenKindOf::Else => TokenKindOf::Else,
            TokenKindOf::While => TokenKindOf::While,
            TokenKindOf::For => TokenKindOf::For,
            TokenKindOf::Return => TokenKindOf::Return,
            TokenKindOf::True => TokenKindOf::True,
            TokenKindOf::False => TokenKindOf::False,
            TokenKindOf::Null => TokenKindOf::Null,
            TokenKindOf::New => TokenKindOf::New,
            TokenKindOf::Plus => TokenKindOf::Plus,
            TokenKindOf::Minus => TokenKindOf::Minus,
            TokenKindOf::Star => TokenKindOf::Star,
            TokenKindOf::Slash => TokenKindOf::Slash,
            TokenKindOf::Percent => TokenKindOf::Percent,
            TokenKindOf::EqEq => TokenKindOf::EqEq,
            TokenKindOf::NotEq => TokenKindOf::NotEq,
            TokenKindOf::Lt => TokenKindOf::Lt,
            TokenKindOf::LtEq => TokenKindOf::LtEq,
            TokenKindOf::Gt => TokenKindOf::Gt,
            TokenKindOf::GtEq => TokenKindOf::GtEq,
            TokenKindOf::AndAnd => TokenKindOf::AndAnd,
            TokenKindOf::OrOr => TokenKindOf::OrOr,
            TokenKindOf::Bang => TokenKindOf::Bang,
            TokenKindOf::Eq => TokenKindOf::Eq,
            TokenKindOf::Amp => TokenKindOf::Amp,
            TokenKindOf::Pipe => TokenKindOf::Pipe,
            TokenKindOf::Caret => TokenKindOf::Caret,
            TokenKindOf::Tilde => TokenKindOf::Tilde,
            TokenKindOf::Shl => TokenKindOf::Shl,
            TokenKindOf::Shr => TokenKindOf::Shr,
            TokenKindOf::UShr => TokenKindOf::UShr,
            TokenKindOf::Question => TokenKindOf::Question,
            TokenKindOf::Colon => TokenKindOf::Colon,
            TokenKindOf::PlusEq => TokenKindOf::PlusEq,
            TokenKindOf::MinusEq => TokenKindOf::MinusEq,
            TokenKindOf::StarEq => TokenKindOf::StarEq,
            TokenKindOf::SlashEq => TokenKindOf::SlashEq,
            TokenKindOf::PercentEq => TokenKindOf::PercentEq,
            TokenKindOf::AmpEq => TokenKindOf::AmpEq,
            TokenKindOf::PipeEq => TokenKindOf::PipeEq,
            TokenKindOf::CaretEq => TokenKindOf::CaretEq,
            TokenKindOf::ShlEq => TokenKindOf::ShlEq,
            TokenKindOf::ShrEq => TokenKindOf::ShrEq,
            TokenKindOf::UShrEq => TokenKindOf::UShrEq,
            TokenKindOf::PlusPlus => TokenKindOf::PlusPlus,
            TokenKindOf::MinusMinus => TokenKindOf::MinusMinus,
            TokenKindOf::LParen => TokenKindOf::LParen,
            TokenKindOf::RParen => TokenKindOf::RParen,
            TokenKindOf::LBrace => TokenKindOf::LBrace,
            TokenKindOf::RBrace => TokenKindOf::RBrace,
            TokenKindOf::LBracket => TokenKindOf::LBracket,
            TokenKindOf::RBracket => TokenKindOf::RBracket,
            TokenKindOf::Comma => TokenKindOf::Comma,
            TokenKindOf::Semicolon => TokenKindOf::Semicolon,
            TokenKindOf::Dot => TokenKindOf::Dot,
            TokenKindOf::Eof => TokenKindOf::Eof,
        }
    }
}

/// A token with the line and column (both counted from 1) of its first
/// character.
#[derive(Debug, Clone, PartialEq)]
pub struct Token {
    pub kind: TokenKind,
    pub line: usize,
    pub col: usize,
}

/// What the specification of the lexer says of a token.
pub struct SpecToken {
    pub kind: SpecTokenKind,
    pub line: int,
    pub col: int,
}

impl View for Token {
    type V = SpecToken;

    open spec fn view(&self) -> SpecToken {
        SpecToken { kind: self.kind@, line: self.line as int, col: self.col as int }
    }
}

impl Token {
    pub fn new(kind: TokenKind, line: usize, col: usize) -> (tok: Self)
        ensures
            tok.kind == kind,
            tok.line == line,
            tok.col == col,
    {
        Token { kind, line, col }
    }
}

/// A number for each variant of a token kind; two kinds have the same
/// variant exactly when their numbers agree.
pub open spec fn kind_code(k: SpecTokenKind) -> int {
    match k {
        TokenKindOf::IntLiteral(_) => 0,
        TokenKindOf::FloatLiteral(_) => 1,
        TokenKindOf::StringLiteral(_) => 2,
        TokenKindOf::Identifier(_) => 3,
        TokenKindOf::Int => 4,
        TokenKindOf::Float => 5,
        TokenKindOf::Bool => 6,
        TokenKindOf::Str => 7,
        TokenKindOf::Void => 8,
        TokenKindOf::If => 9,
        TokenKindOf::Else => 10,
        TokenKindOf::While => 11,
        TokenKindOf::For => 12,
        TokenKindOf::Return => 13,
        TokenKindOf::True => 14,
        TokenKindOf::False => 15,
        TokenKindOf::Null => 16,
        TokenKindOf::New => 17,
        TokenKindOf::Plus => 18,
        TokenKindOf::Minus => 19,
        TokenKindOf::Star => 20,
        TokenKindOf::Slash => 21,
        TokenKindOf::Percent => 22,
        TokenKindOf::EqEq => 23,
        TokenKindOf::NotEq => 24,
        TokenKindOf::Lt => 25,
        TokenKindOf::LtEq => 26,
        TokenKindOf::Gt => 27,
        TokenKindOf::GtEq => 28,
        TokenKindOf::AndAnd => 29,
        TokenKindOf::OrOr => 30,
        TokenKindOf::Bang => 31,
        TokenKindOf::Eq => 32,
        TokenKindOf::Amp => 33,
        TokenKindOf::Pipe => 34,
        TokenKindOf::Caret => 35,
        TokenKindOf::Tilde => 36,
        TokenKindOf::Shl => 37,
        TokenKindOf::Shr => 38,
        TokenKindOf::UShr => 39,
        TokenKindOf::Question => 40,
        TokenKindOf::Colon => 41,
        TokenKindOf::PlusEq => 42,
        TokenKindOf::MinusEq => 43,
        TokenKindOf::StarEq => 44,
        TokenKindOf::SlashEq => 45,
        TokenKindOf::PercentEq => 46,
        TokenKindOf::AmpEq => 47,
        TokenKindOf::PipeEq => 48,
        TokenKindOf::CaretEq => 49,
        TokenKindOf::ShlEq => 50,
        TokenKindOf::ShrEq => 51,
        TokenKindOf::UShrEq => 52,
        TokenKindOf::PlusPlus => 53,
        TokenKindOf::MinusMinus => 54,
        TokenKindOf::LParen => 55,
        TokenKindOf::RParen => 56,
        TokenKindOf::LBrace => 57,
        TokenKindOf::RBrace => 58,
        TokenKindOf::LBracket => 59,
        TokenKindOf::RBracket => 60,
        TokenKindOf::Comma => 61,
        TokenKindOf::Semicolon => 62,
        TokenKindOf::Dot => 63,
        TokenKindOf::Eof => 64,
    }
}

/// What std's `Debug` writes for a `str` with this text: the text in double
/// quotes, with quotes, backslashes, control characters and some other
/// characters escaped.
pub uninterp spec fn debug_quoted(text: Seq<char>) -> Seq<char>;

/// Formats `text` with std's `Debug` for `str` (`format!("{:?}", text)`).
/// The result is taken to be `debug_quoted` of the text: it depends on the
/// text alone; which characters are escaped, and how, is left unsaid here.
#[verifier::external_body]
fn debug_quoted_text(text: &str) -> (r: String)
    ensures
        r@ == debug_quoted(text@),
{
    format!("{:?}", text)
}

/// How a token kind reads in messages: its variant's name, and its payload
/// in parentheses (an identifier's or string's text as `Debug` quotes it; a
/// float literal's source text as written).
pub open spec fn kind_text(k: SpecTokenKind) -> Seq<char> {
    match k {
        TokenKindOf::IntLiteral(v) => "IntLiteral("@ + int_text(v as int) + ")"@,
        TokenKindOf::FloatLiteral(t) => "FloatLiteral("@ + t + ")"@,
        TokenKindOf::StringLiteral(t) => "StringLiteral("@ + debug_quoted(t) + ")"@,
        TokenKindOf::Identifier(t) => "Identifier("@ + debug_quoted(t) + ")"@,
        TokenKindOf::Int => "Int"@,
        TokenKindOf::Float => "Float"@,
        TokenKindOf::Bool => "Bool"@,
        TokenKindOf::Str => "Str"@,
        TokenKindOf::Void => "Void"@,
        TokenKindOf::If => "If"@,
        TokenKindOf::Else => "Else"@,
        TokenKindOf::While => "While"@,
        TokenKindOf::For => "For"@,
        TokenKindOf::Return => "Return"@,
        TokenKindOf::True => "True"@,
        TokenKindOf::False => "False"@,
        TokenKindOf::Null => "Null"@,
        TokenKindOf::New => "New"@,
        TokenKindOf::Plus => "Plus"@,
        TokenKindOf::Minus => "Minus"@,
        TokenKindOf::Star => "Star"@,
        TokenKindOf::Slash => "Slash"@,
        TokenKindOf::Percent => "Percent"@,
        TokenKindOf::EqEq => "EqEq"@,
        TokenKindOf::NotEq => "NotEq"@,
        TokenKindOf::Lt => "Lt"@,
        TokenKindOf::LtEq => "LtEq"@,
        TokenKindOf::Gt => "Gt"@,
        TokenKindOf::GtEq => "GtEq"@,
        TokenKindOf::AndAnd => "AndAnd"@,
        TokenKindOf::OrOr => "OrOr"@,
        TokenKindOf::Bang => "Bang"@,
        TokenKindOf::Eq => "Eq"@,
        TokenKindOf::Amp => "Amp"@,
        TokenKindOf::Pipe => "Pipe"@,
        TokenKindOf::Caret => "Caret"@,
        TokenKindOf::Tilde => "Tilde"@,
        TokenKindOf::Shl => "Shl"@,
        TokenKindOf::Shr => "Shr"@,
        TokenKindOf::UShr => "UShr"@,
        TokenKindOf::Question => "Question"@,
        TokenKindOf::Colon => "Colon"@,
        TokenKindOf::PlusEq => "PlusEq"@,
        TokenKindOf::MinusEq => "MinusEq"@,
        TokenKindOf::StarEq => "StarEq"@,
        TokenKindOf::SlashEq => "SlashEq"@,
        TokenKindOf::PercentEq => "PercentEq"@,
        TokenKindOf::AmpEq => "AmpEq"@,
        TokenKindOf::PipeEq => "PipeEq"@,
        TokenKindOf::CaretEq => "CaretEq"@,
        TokenKindOf::ShlEq => "ShlEq"@,
        TokenKindOf::ShrEq => "ShrEq"@,
        TokenKindOf::UShrEq => "UShrEq"@,
        TokenKindOf::PlusPlus => "PlusPlus"@,
        TokenKindOf::MinusMinus => "MinusMinus"@,
        TokenKindOf::LParen => "LParen"@,
        TokenKindOf::RParen => "RParen"@,
        TokenKindOf::LBrace => "LBrace"@,
        TokenKindOf::RBrace => "RBrace"@,
        TokenKindOf::LBracket => "LBracket"@,
        TokenKindOf::RBracket => "RBracket"@,
        TokenKindOf::Comma => "Comma"@,
        TokenKindOf::Semicolon => "Semicolon"@,
        TokenKindOf::Dot => "Dot"@,
        TokenKindOf::Eof => "Eof"@,
    }
}

impl TokenKindOf<String> {
    /// The number of this kind's variant (see `kind_code`).
    pub fn code(&self) -> (c: u8)
        ensures
            c as int == kind_code(self@),
    {
        match self {
            TokenKindOf::IntLiteral(_) => 0,
            TokenKindOf::FloatLiteral(_) => 1,
            TokenKindOf::StringLiteral(_) => 2,
            TokenKindOf::Identifier(_) => 3,
            TokenKindOf::Int => 4,
            TokenKindOf::Float => 5,
            TokenKindOf::Bool => 6,
            TokenKindOf::Str => 7,
            TokenKindOf::Void => 8,
            TokenKindOf::If => 9,
            TokenKindOf::Else => 10,
            TokenKindOf::While => 11,
            TokenKindOf::For => 12,
            TokenKindOf::Return => 13,
            TokenKindOf::True => 14,
            TokenKindOf::False => 15,
            TokenKindOf::Null => 16,
            TokenKindOf::New => 17,
            TokenKindOf::Plus => 18,
            TokenKindOf::Minus => 19,
            TokenKindOf::Star => 20,
            TokenKindOf::Slash => 21,
            TokenKindOf::Percent => 22,
            TokenKindOf::EqEq => 23,
            TokenKindOf::NotEq => 24,
            TokenKindOf::Lt => 25,
            TokenKindOf::LtEq => 26,
            TokenKindOf::Gt => 27,
            TokenKindOf::GtEq => 28,
            TokenKindOf::AndAnd => 29,
            TokenKindOf::OrOr => 30,
            TokenKindOf::Bang => 31,
            TokenKindOf::Eq => 32,
            TokenKindOf::Amp => 33,
            TokenKindOf::Pipe => 34,
            TokenKindOf::Caret => 35,
            TokenKindOf::Tilde => 36,
            TokenKindOf::Shl => 37,
            TokenKindOf::Shr => 38,
            TokenKindOf::UShr => 39,
            TokenKindOf::Question => 40,
            TokenKindOf::Colon => 41,
            TokenKindOf::PlusEq => 42,
            TokenKindOf::MinusEq => 43,
            TokenKindOf::StarEq => 44,
            TokenKindOf::SlashEq => 45,
            TokenKindOf::PercentEq => 46,
            TokenKindOf::AmpEq => 47,
            TokenKindOf::PipeEq => 48,
            TokenKindOf::CaretEq => 49,
            TokenKindOf::ShlEq => 50,
            TokenKindOf::ShrEq => 51,
            TokenKindOf::UShrEq => 52,
            TokenKindOf::PlusPlus => 53,
            TokenKindOf::MinusMinus => 54,
            TokenKindOf::LParen => 55,
            TokenKindOf::RParen => 56,
            TokenKindOf::LBrace => 57,
            TokenKindOf::RBrace => 58,
            TokenKindOf::LBracket => 59,
            TokenKindOf::RBracket => 60,
            TokenKindOf::Comma => 61,
            TokenKindOf::Semicolon => 62,
            TokenKindOf::Dot => 63,
            TokenKindOf::Eof => 64,
        }
    }

    /// How this kind reads in messages (see `kind_text`).
    pub fn describe(&self) -> (text: String)
        ensures
            text@ == kind_text(self@),
    {
        match self {
            TokenKindOf::IntLiteral(v) => {
                let mut t = String::from_str("IntLiteral(");
                push_int_text(&mut t, *v);
                t.append(")");
                t
            },
            TokenKindOf::FloatLiteral(x) => {
                let mut t = String::from_str("FloatLiteral(");
                t.append(x.as_str());
                t.append(")");
                t
            },
            TokenKindOf::StringLiteral(x) => {
                let mut t = String::from_str("StringLiteral(");
                t.append(debug_quoted_text(x.as_str()).as_str());
                t.append(")");
                t
            },
            TokenKindOf::Identifier(x) => {
                let mut t = String::from_str("Identifier(");
                t.append(debug_quoted_text(x.as_str()).as_str());
                t.append(")");
                t
            },
            TokenKindOf::Int => String::from_str("Int"),
            TokenKindOf::Float => String::from_str("Float"),
            TokenKindOf::Bool => String::from_str("Bool"),
            TokenKindOf::Str => String::from_str("Str"),
            TokenKindOf::Void => String::from_str("Void"),
            TokenKindOf::If => String::from_str("If"),
            TokenKindOf::Else => String::from_str("Else"),
            TokenKindOf::While => String::from_str("While"),
            TokenKindOf::For => String::from_str("For"),
            TokenKindOf::Return => String::from_str("Return"),
            TokenKindOf::True => String::from_str("True"),
            TokenKindOf::False => String::from_str("False"),
            TokenKindOf::Null => String::from_str("Null"),
            TokenKindOf::New => String::from_str("New"),
            TokenKindOf::Plus => String::from_str("Plus"),
            TokenKindOf::Minus => String::from_str("Minus"),
            TokenKindOf::Star => String::from_str("Star"),
            TokenKindOf::Slash => String::from_str("Slash"),
            TokenKindOf::Percent => String::from_str("Percent"),
            TokenKindOf::EqEq => String::from_str("EqEq"),
            TokenKindOf::NotEq => String::from_str("NotEq"),
            TokenKindOf::Lt => String::from_str("Lt"),
            TokenKindOf::LtEq => String::from_str("LtEq"),
            TokenKindOf::Gt => String::from_str("Gt"),
            TokenKindOf::GtEq => String::from_str("GtEq"),
            TokenKindOf::AndAnd => String::from_str("AndAnd"),
            TokenKindOf::OrOr => String::from_str("OrOr"),
            TokenKindOf::Bang => String::from_str("Bang"),
            TokenKindOf::Eq => String::from_str("Eq"),
            TokenKindOf::Amp => String::from_str("Amp"),
            TokenKindOf::Pipe => String::from_str("Pipe"),
            TokenKindOf::Caret => String::from_str("Caret"),
            TokenKindOf::Tilde => String::from_str("Tilde"),
            TokenKindOf::Shl => String::from_str("Shl"),
            TokenKindOf::Shr => String::from_str("Shr"),
            TokenKindOf::UShr => String::from_str("UShr"),
            TokenKindOf::Question => String::from_str("Question"),
            TokenKindOf::Colon => String::from_str("Colon"),
            TokenKindOf::PlusEq => String::from_str("PlusEq"),
            TokenKindOf::MinusEq => String::from_str("MinusEq"),
            TokenKindOf::StarEq => String::from_str("StarEq"),
            TokenKindOf::SlashEq => String::from_str("SlashEq"),
            TokenKindOf::PercentEq => String::from_str("PercentEq"),
            TokenKindOf::AmpEq => String::from_str("AmpEq"),
            TokenKindOf::PipeEq => String::from_str("PipeEq"),
            TokenKindOf::CaretEq => String::from_str("CaretEq"),
            TokenKindOf::ShlEq => String::from_str("ShlEq"),
            TokenKindOf::ShrEq => String::from_str("ShrEq"),
            TokenKindOf::UShrEq => String::from_str("UShrEq"),
            TokenKindOf::PlusPlus => String::from_str("PlusPlus"),
            TokenKindOf::MinusMinus => String::from_str("MinusMinus"),
            TokenKindOf::LParen => String::from_str("LParen"),
            TokenKindOf::RParen => String::from_str("RParen"),
            TokenKindOf::LBrace => String::from_str("LBrace"),
            TokenKindOf::RBrace => String::from_str("RBrace"),
            TokenKindOf::LBracket => String::from_str("LBracket"),
            TokenKindOf::RBracket => String::from_str("RBracket"),
            TokenKindOf::Comma => String::from_str("Comma"),
            TokenKindOf::Semicolon => String::from_str("Semicolon"),
            TokenKindOf::Dot => String::from_str("Dot"),
            TokenKindOf::Eof => String::from_str("Eof"),
        }
    }
}

} // verus!
