//! The lexer: source text to tokens.
//!
//! `spec_lex` states what the lexer computes, as a function of the source's
//! characters; `lex` is proved to compute exactly that.

pub mod token;

use crate::text::push_char;
use token::{SpecToken, SpecTokenKind, Token, TokenKind, TokenKindOf};
use vstd::prelude::*;

verus! {

broadcast use vstd::string::group_string_axioms;

/// Errors the lexer reports. Lexing stops at the first one.
#[derive(Debug, PartialEq)]
pub enum LexError {
    UnexpectedChar { ch: char, line: usize, col: usize },
    UnterminatedString { line: usize },
    UnterminatedBlockComment { line: usize },
    InvalidNumber { lexeme: String, line: usize, col: usize },
}

/// What the specification of the lexer says of an error.
pub enum SpecLexError {
    UnexpectedChar { ch: char, line: int, col: int },
    UnterminatedString { line: int },
    UnterminatedBlockComment { line: int },
    InvalidNumber { lexeme: Seq<char>, line: int, col: int },
}

impl View for LexError {
    type V = SpecLexError;

    open spec fn view(&self) -> SpecLexError {
        match self {
            LexError::UnexpectedChar { ch, line, col } => SpecLexError::UnexpectedChar {
                ch: *ch,
                line: *line as int,
                col: *col as int,
            },
            LexError::UnterminatedString { line } => SpecLexError::UnterminatedString {
                line: *line as int,
            },
            LexError::UnterminatedBlockComment { line } => SpecLexError::UnterminatedBlockComment {
                line: *line as int,
            },
            LexError::InvalidNumber { lexeme, line, col } => SpecLexError::InvalidNumber {
                lexeme: lexeme@,
                line: *line as int,
                col: *col as int,
            },
        }
    }
}

// ---- character classes ----

/// Whether `c` has the Unicode `White_Space` property, which is what
/// `char::is_whitespace` tests: tab, line feed, vertical tab, form feed,
/// carriage return, space, next line, no-break space, ogham space mark, the
/// spaces from en quad to hair space, line and paragraph separators, narrow
/// no-break space, medium mathematical space and ideographic space.
pub open spec fn is_whitespace_char(c: char) -> bool {
    ||| '\t' <= c <= '\r'
    ||| c == ' '
    ||| c == '\u{85}'
    ||| c == '\u{a0}'
    ||| c == '\u{1680}'
    ||| '\u{2000}' <= c <= '\u{200a}'
    ||| c == '\u{2028}'
    ||| c == '\u{2029}'
    ||| c == '\u{202f}'
    ||| c == '\u{205f}'
    ||| c == '\u{3000}'
}

/// Whether `char::is_alphabetic` holds of `c` (Unicode `Alphabetic`).
pub uninterp spec fn is_alphabetic_char(c: char) -> bool;

/// Whether `char::is_numeric` holds of `c` (Unicode general categories
/// `Nd`, `Nl`, `No`).
pub uninterp spec fn is_numeric_char(c: char) -> bool;

/// Whether `c` is white space, as `char::is_whitespace` decides it.
fn char_is_whitespace(c: char) -> (res: bool)
    ensures
        res == is_whitespace_char(c),
{
    ('\t' <= c && c <= '\r') || c == ' ' || c == '\u{85}' || c == '\u{a0}' || c == '\u{1680}'
        || ('\u{2000}' <= c && c <= '\u{200a}') || c == '\u{2028}' || c == '\u{2029}'
        || c == '\u{202f}' || c == '\u{205f}' || c == '\u{3000}'
}

/// Calls `char::is_alphabetic`; its result is named `is_alphabetic_char`.
/// Of the ASCII characters, exactly the letters are alphabetic; beyond ASCII
/// the Unicode tables decide, and nothing more is said of them here.
#[verifier::external_body]
fn char_is_alphabetic(c: char) -> (res: bool)
    ensures
        res == is_alphabetic_char(c),
        c <= '\x7f' ==> (res <==> ('a' <= c <= 'z' || 'A' <= c <= 'Z')),
{
    c.is_alphabetic()
}

/// Calls `char::is_numeric`; its result is named `is_numeric_char`.
/// Of the ASCII characters, exactly the decimal digits are numeric; beyond
/// ASCII the Unicode tables decide, and nothing more is said of them here.
#[verifier::external_body]
fn char_is_numeric(c: char) -> (res: bool)
    ensures
        res == is_numeric_char(c),
        c <= '\x7f' ==> (res <==> ('0' <= c <= '9')),
{
    c.is_numeric()
}

pub open spec fn is_digit(c: char) -> bool {
    '0' <= c && c <= '9'
}

/// Whether `char::is_alphabetic` holds of `c`: among ASCII characters the
/// letters, beyond ASCII what the Unicode tables say.
pub open spec fn is_letter(c: char) -> bool {
    if c <= '\x7f' {
        ('a' <= c && c <= 'z') || ('A' <= c && c <= 'Z')
    } else {
        is_alphabetic_char(c)
    }
}

/// Whether `char::is_numeric` holds of `c`: among ASCII characters the
/// decimal digits, beyond ASCII what the Unicode tables say.
pub open spec fn is_number_char(c: char) -> bool {
    if c <= '\x7f' {
        is_digit(c)
    } else {
        is_numeric_char(c)
    }
}

/// A character that may continue an identifier: alphanumeric (alphabetic
/// or numeric, as `char::is_alphanumeric` defines it) or `_`.
pub open spec fn is_ident_continue(c: char) -> bool {
    is_letter(c) || is_number_char(c) || c == '_'
}

pub open spec fn is_ident_start(c: char) -> bool {
    is_letter(c) || c == '_'
}

// ---- positions ----

pub open spec fn at(s: Seq<char>, k: int) -> Option<char> {
    if 0 <= k < s.len() {
        Some(s[k])
    } else {
        None
    }
}

/// The line (from 1) of the character at index `k`: one more than the
/// number of newlines before it.
pub open spec fn line_at(s: Seq<char>, k: nat) -> nat
    decreases k,
{
    if k == 0 {
        1
    } else if s[k - 1] == '\n' {
        line_at(s, (k - 1) as nat) + 1
    } else {
        line_at(s, (k - 1) as nat)
    }
}

/// The column (from 1) of the character at index `k`.
pub open spec fn col_at(s: Seq<char>, k: nat) -> nat
    decreases k,
{
    if k == 0 {
        1
    } else if s[k - 1] == '\n' {
        1
    } else {
        col_at(s, (k - 1) as nat) + 1
    }
}

pub proof fn lemma_position_bounds(s: Seq<char>, k: nat)
    ensures
        1 <= line_at(s, k) <= k + 1,
        1 <= col_at(s, k) <= k + 1,
    decreases k,
{
    if k > 0 {
        lemma_position_bounds(s, (k - 1) as nat);
    }
}

// ---- whitespace and comments ----

/// The index of the first character from `k` on that is neither whitespace
/// nor part of a comment, or the error for a block comment left open.
pub open spec fn skip_from(s: Seq<char>, k: nat) -> Result<nat, SpecLexError>
    decreases s.len() - k, 0int,
{
    if k >= s.len() {
        Ok(k)
    } else if is_whitespace_char(s[k as int]) {
        skip_from(s, k + 1)
    } else if s[k as int] == '/' && at(s, k + 1int) == Some('/') {
        skip_line_comment(s, k + 2)
    } else if s[k as int] == '/' && at(s, k + 1int) == Some('*') {
        skip_block_comment(s, k + 2, line_at(s, k))
    } else {
        Ok(k)
    }
}

/// Inside a `//` comment: it ends before the next newline.
pub open spec fn skip_line_comment(s: Seq<char>, k: nat) -> Result<nat, SpecLexError>
    decreases s.len() - k, 1int,
{
    if k >= s.len() {
        Ok(k)
    } else if s[k as int] == '\n' {
        skip_from(s, k)
    } else {
        skip_line_comment(s, k + 1)
    }
}

/// Inside a `/* */` comment opened on line `start_line`.
pub open spec fn skip_block_comment(s: Seq<char>, k: nat, start_line: nat) -> Result<
    nat,
    SpecLexError,
>
    decreases s.len() - k, 1int,
{
    if k >= s.len() {
        Err(SpecLexError::UnterminatedBlockComment { line: start_line as int })
    } else if s[k as int] == '*' && at(s, k + 1int) == Some('/') {
        skip_from(s, k + 2)
    } else {
        skip_block_comment(s, k + 1, start_line)
    }
}

pub proof fn lemma_skip_from_bounds(s: Seq<char>, k: nat)
    requires
        k <= s.len(),
    ensures
        skip_from(s, k) matches Ok(j) ==> k <= j <= s.len(),
    decreases s.len() - k, 0int,
{
    if k < s.len() {
        if is_whitespace_char(s[k as int]) {
            lemma_skip_from_bounds(s, k + 1);
        } else if s[k as int] == '/' && at(s, k + 1int) == Some('/') {
            lemma_skip_line_bounds(s, k + 2);
        } else if s[k as int] == '/' && at(s, k + 1int) == Some('*') {
            lemma_skip_block_bounds(s, k + 2, line_at(s, k));
        }
    }
}

pub proof fn lemma_skip_line_bounds(s: Seq<char>, k: nat)
    requires
        k <= s.len(),
    ensures
        skip_line_comment(s, k) matches Ok(j) ==> k <= j <= s.len(),
    decreases s.len() - k, 1int,
{
    if k < s.len() {
        if s[k as int] == '\n' {
            lemma_skip_from_bounds(s, k);
        } else {
            lemma_skip_line_bounds(s, k + 1);
        }
    }
}

pub proof fn lemma_skip_block_bounds(s: Seq<char>, k: nat, start_line: nat)
    requires
        k <= s.len(),
    ensures
        skip_block_comment(s, k, start_line) matches Ok(j) ==> k <= j <= s.len(),
    decreases s.len() - k, 1int,
{
    if k < s.len() {
        if s[k as int] == '*' && at(s, k + 1int) == Some('/') {
            lemma_skip_from_bounds(s, k + 2);
        } else {
            lemma_skip_block_bounds(s, k + 1, start_line);
        }
    }
}

// ---- numbers ----

pub open spec fn digit_value(c: char) -> nat {
    (c as int - '0' as int) as nat
}

/// The value of a string of decimal digits.
pub open spec fn digits_value(d: Seq<char>) -> nat
    decreases d.len(),
{
    if d.len() == 0 {
        0
    } else {
        digits_value(d.drop_last()) * 10 + digit_value(d.last())
    }
}

/// The end of the run of decimal digits that starts at `k`.
pub open spec fn digit_run_end(s: Seq<char>, k: nat) -> nat
    decreases s.len() - k,
{
    if k < s.len() && is_digit(s[k as int]) {
        digit_run_end(s, k + 1)
    } else {
        k
    }
}

pub proof fn lemma_digit_run_end(s: Seq<char>, k: nat)
    requires
        k <= s.len(),
    ensures
        k <= digit_run_end(s, k) <= s.len(),
        forall|i: int| k <= i < digit_run_end(s, k) ==> is_digit(#[trigger] s[i]),
        digit_run_end(s, k) < s.len() ==> !is_digit(s[digit_run_end(s, k) as int]),
    decreases s.len() - k,
{
    if k < s.len() && is_digit(s[k as int]) {
        lemma_digit_run_end(s, k + 1);
    }
}

/// A number literal at `j`: digits, then optionally a dot followed by at
/// least one digit and more digits (a float). An integer literal must fit
/// in `i64`.
pub open spec fn number_token(s: Seq<char>, j: nat) -> Result<(SpecTokenKind, nat), SpecLexError> {
    let e1 = digit_run_end(s, j);
    if at(s, e1 as int) == Some('.') && e1 + 1 < s.len() && is_digit(s[e1 + 1int]) {
        let e2 = digit_run_end(s, e1 + 1);
        Ok((TokenKindOf::FloatLiteral(s.subrange(j as int, e2 as int)), e2))
    } else {
        let text = s.subrange(j as int, e1 as int);
        if digits_value(text) <= i64::MAX {
            Ok((TokenKindOf::IntLiteral(digits_value(text) as i64), e1))
        } else {
            Err(
                SpecLexError::InvalidNumber {
                    lexeme: text,
                    line: line_at(s, j) as int,
                    col: col_at(s, j) as int,
                },
            )
        }
    }
}

// ---- strings ----

/// The character that the escape `\c` stands for.
pub open spec fn escaped(c: char) -> char {
    if c == 'n' {
        '\n'
    } else if c == 't' {
        '\t'
    } else {
        c
    }
}

/// The decoded rest of a string literal from `k` on and the index after its
/// closing quote, or `None` where the input ends first.
pub open spec fn string_rest(s: Seq<char>, k: nat) -> Option<(Seq<char>, nat)>
    decreases s.len() - k,
{
    if k >= s.len() {
        None
    } else if s[k as int] == '"' {
        Some((Seq::empty(), k + 1))
    } else if s[k as int] == '\\' {
        if k + 1 >= s.len() {
            None
        } else {
            match string_rest(s, k + 2) {
                Some((r, e)) => Some((seq![escaped(s[k + 1int])] + r, e)),
                None => None,
            }
        }
    } else {
        match string_rest(s, k + 1) {
            Some((r, e)) => Some((seq![s[k as int]] + r, e)),
            None => None,
        }
    }
}

pub proof fn lemma_string_rest_bounds(s: Seq<char>, k: nat)
    ensures
        string_rest(s, k) matches Some((r, e)) ==> k < e <= s.len(),
    decreases s.len() - k,
{
    if k < s.len() && s[k as int] != '"' {
        if s[k as int] == '\\' {
            if k + 1 < s.len() {
                lemma_string_rest_bounds(s, k + 2);
            }
        } else {
            lemma_string_rest_bounds(s, k + 1);
        }
    }
}

/// A string literal whose opening quote is at `j`.
pub open spec fn string_token(s: Seq<char>, j: nat) -> Result<(SpecTokenKind, nat), SpecLexError> {
    match string_rest(s, j + 1) {
        Some((text, e)) => Ok((TokenKindOf::StringLiteral(text), e)),
        None => Err(SpecLexError::UnterminatedString { line: line_at(s, j) as int }),
    }
}

// ---- identifiers and keywords ----

pub open spec fn ident_end(s: Seq<char>, k: nat) -> nat
    decreases s.len() - k,
{
    if k < s.len() && is_ident_continue(s[k as int]) {
        ident_end(s, k + 1)
    } else {
        k
    }
}

pub proof fn lemma_ident_end(s: Seq<char>, k: nat)
    requires
        k <= s.len(),
    ensures
        k <= ident_end(s, k) <= s.len(),
        forall|i: int| k <= i < ident_end(s, k) ==> is_ident_continue(#[trigger] s[i]),
        ident_end(s, k) < s.len() ==> !is_ident_continue(s[ident_end(s, k) as int]),
    decreases s.len() - k,
{
    if k < s.len() && is_ident_continue(s[k as int]) {
        lemma_ident_end(s, k + 1);
    }
}

/// The keyword that the word `w` spells, if any.
pub open spec fn keyword_kind(w: Seq<char>) -> Option<SpecTokenKind> {
    if w == "int"@ {
        Some(TokenKindOf::Int)
    } else if w == "float"@ {
        Some(TokenKindOf::Float)
    } else if w == "bool"@ {
        Some(TokenKindOf::Bool)
    } else if w == "string"@ {
        Some(TokenKindOf::Str)
    } else if w == "void"@ {
        Some(TokenKindOf::Void)
    } else if w == "if"@ {
        Some(TokenKindOf::If)
    } else if w == "else"@ {
        Some(TokenKindOf::Else)
    } else if w == "while"@ {
        Some(TokenKindOf::While)
    } else if w == "for"@ {
        Some(TokenKindOf::For)
    } else if w == "return"@ {
        Some(TokenKindOf::Return)
    } else if w == "true"@ {
        Some(TokenKindOf::True)
    } else if w == "false"@ {
        Some(TokenKindOf::False)
    } else if w == "null"@ {
        Some(TokenKindOf::Null)
    } else if w == "new"@ {
        Some(TokenKindOf::New)
    } else {
        None
    }
}

/// An identifier or keyword starting at `j`.
pub open spec fn word_token(s: Seq<char>, j: nat) -> (SpecTokenKind, nat) {
    let e = ident_end(s, j);
    let w = s.subrange(j as int, e as int);
    match keyword_kind(w) {
        Some(k) => (k, e),
        None => (TokenKindOf::Identifier(w), e),
    }
}

// ---- operators and punctuation ----

/// An operator or punctuation token at `j`; the longest match wins.
pub open spec fn op_token(s: Seq<char>, j: nat) -> Result<(SpecTokenKind, nat), SpecLexError> {
    let c = s[j as int];
    let p1 = at(s, j + 1int);
    let p2 = at(s, j + 2int);
    let p3 = at(s, j + 3int);
    if c == '+' {
        if p1 == Some('=') {
            Ok((TokenKindOf::PlusEq, j + 2))
        } else if p1 == Some('+') {
            Ok((TokenKindOf::PlusPlus, j + 2))
        } else {
            Ok((TokenKindOf::Plus, j + 1))
        }
    } else if c == '-' {
        if p1 == Some('=') {
            Ok((TokenKindOf::MinusEq, j + 2))
        } else if p1 == Some('-') {
            Ok((TokenKindOf::MinusMinus, j + 2))
        } else {
            Ok((TokenKindOf::Minus, j + 1))
        }
    } else if c == '*' {
        if p1 == Some('=') {
            Ok((TokenKindOf::StarEq, j + 2))
        } else {
            Ok((TokenKindOf::Star, j + 1))
        }
    } else if c == '/' {
        if p1 == Some('=') {
            Ok((TokenKindOf::SlashEq, j + 2))
        } else {
            Ok((TokenKindOf::Slash, j + 1))
        }
    } else if c == '%' {
        if p1 == Some('=') {
            Ok((TokenKindOf::PercentEq, j + 2))
        } else {
            Ok((TokenKindOf::Percent, j + 1))
        }
    } else if c == '=' {
        if p1 == Some('=') {
            Ok((TokenKindOf::EqEq, j + 2))
        } else {
            Ok((TokenKindOf::Eq, j + 1))
        }
    } else if c == '!' {
        if p1 == Some('=') {
            Ok((TokenKindOf::NotEq, j + 2))
        } else {
            Ok((TokenKindOf::Bang, j + 1))
        }
    } else if c == '<' {
        if p1 == Some('<') {
            if p2 == Some('=') {
                Ok((TokenKindOf::ShlEq, j + 3))
            } else {
                Ok((TokenKindOf::Shl, j + 2))
            }
        } else if p1 == Some('=') {
            Ok((TokenKindOf::LtEq, j + 2))
        } else {
            Ok((TokenKindOf::Lt, j + 1))
        }
    } else if c == '>' {
        if p1 == Some('>') {
            if p2 == Some('>') {
                if p3 == Some('=') {
                    Ok((TokenKindOf::UShrEq, j + 4))
                } else {
                    Ok((TokenKindOf::UShr, j + 3))
                }
            } else if p2 == Some('=') {
                Ok((TokenKindOf::ShrEq, j + 3))
            } else {
                Ok((TokenKindOf::Shr, j + 2))
            }
        } else if p1 == Some('=') {
            Ok((TokenKindOf::GtEq, j + 2))
        } else {
            Ok((TokenKindOf::Gt, j + 1))
        }
    } else if c == '&' {
        if p1 == Some('&') {
            Ok((TokenKindOf::AndAnd, j + 2))
        } else if p1 == Some('=') {
            Ok((TokenKindOf::AmpEq, j + 2))
        } else {
            Ok((TokenKindOf::Amp, j + 1))
        }
    } else if c == '|' {
        if p1 == Some('|') {
            Ok((TokenKindOf::OrOr, j + 2))
        } else if p1 == Some('=') {
            Ok((TokenKindOf::PipeEq, j + 2))
        } else {
            Ok((TokenKindOf::Pipe, j + 1))
        }
    } else if c == '^' {
        if p1 == Some('=') {
            Ok((TokenKindOf::CaretEq, j + 2))
        } else {
            Ok((TokenKindOf::Caret, j + 1))
        }
    } else {
        match single_char_kind(c) {
            Some(k) => Ok((k, j + 1)),
            None => Err(
                SpecLexError::UnexpectedChar {
                    ch: c,
                    line: line_at(s, j) as int,
                    col: col_at(s, j) as int,
                },
            ),
        }
    }
}

/// The punctuation and operators that are always a single character.
pub open spec fn single_char_kind(c: char) -> Option<SpecTokenKind> {
    if c == '~' {
        Some(TokenKindOf::Tilde)
    } else if c == '?' {
        Some(TokenKindOf::Question)
    } else if c == ':' {
        Some(TokenKindOf::Colon)
    } else if c == '(' {
        Some(TokenKindOf::LParen)
    } else if c == ')' {
        Some(TokenKindOf::RParen)
    } else if c == '{' {
        Some(TokenKindOf::LBrace)
    } else if c == '}' {
        Some(TokenKindOf::RBrace)
    } else if c == '[' {
        Some(TokenKindOf::LBracket)
    } else if c == ']' {
        Some(TokenKindOf::RBracket)
    } else if c == ',' {
        Some(TokenKindOf::Comma)
    } else if c == ';' {
        Some(TokenKindOf::Semicolon)
    } else if c == '.' {
        Some(TokenKindOf::Dot)
    } else {
        None
    }
}

// ---- tokens ----

/// The token that starts at `j` (which is not whitespace or a comment) and
/// the index just after it.
pub open spec fn token_at(s: Seq<char>, j: nat) -> Result<(SpecTokenKind, nat), SpecLexError> {
    let c = s[j as int];
    if is_digit(c) {
        number_token(s, j)
    } else if c == '"' {
        string_token(s, j)
    } else if is_ident_start(c) {
        Ok(word_token(s, j))
    } else {
        op_token(s, j)
    }
}

pub proof fn lemma_token_at_advances(s: Seq<char>, j: nat)
    requires
        j < s.len(),
    ensures
        token_at(s, j) matches Ok((k, e)) ==> j < e <= s.len(),
{
    let c = s[j as int];
    if is_digit(c) {
        lemma_digit_run_end(s, j);
        let e1 = digit_run_end(s, j);
        if at(s, e1 as int) == Some('.') && e1 + 1 < s.len() && is_digit(s[e1 + 1int]) {
            lemma_digit_run_end(s, e1 + 1);
        }
    } else if c == '"' {
        lemma_string_rest_bounds(s, j + 1);
    } else if is_ident_start(c) {
        lemma_ident_end(s, j + 1);
    }
}

pub open spec fn spec_token(kind: SpecTokenKind, s: Seq<char>, j: nat) -> SpecToken {
    SpecToken { kind, line: line_at(s, j) as int, col: col_at(s, j) as int }
}

/// The tokens of `s` from index `k` on, ending with `Eof`, or the first error.
pub open spec fn lex_from(s: Seq<char>, k: nat) -> Result<Seq<SpecToken>, SpecLexError>
    decreases s.len() - k,
{
    if k > s.len() {
        Err(SpecLexError::UnterminatedString { line: 0 })
    } else {
        match skip_from(s, k) {
            Err(e) => Err(e),
            Ok(j) => {
                proof {
                    lemma_skip_from_bounds(s, k);
                }
                if j >= s.len() {
                    Ok(seq![spec_token(TokenKindOf::Eof, s, j)])
                } else {
                    proof {
                        lemma_token_at_advances(s, j);
                    }
                    match token_at(s, j) {
                        Err(e) => Err(e),
                        Ok((kind, e)) => match lex_from(s, e) {
                            Ok(rest) => Ok(seq![spec_token(kind, s, j)] + rest),
                            Err(err) => Err(err),
                        },
                    }
                }
            },
        }
    }
}

/// The tokens of the whole source `s`, or the first error.
pub open spec fn spec_lex(s: Seq<char>) -> Result<Seq<SpecToken>, SpecLexError> {
    lex_from(s, 0)
}

pub open spec fn token_views(ts: Seq<Token>) -> Seq<SpecToken> {
    ts.map_values(|t: Token| t@)
}

/// Lexes `source` into tokens; the last token is `Eof`.
pub fn lex(source: &str) -> (res: Result<Vec<Token>, LexError>)
    requires
        source@.len() < usize::MAX,
    ensures
        match res {
            Ok(tokens) => spec_lex(source@) == Ok::<Seq<SpecToken>, SpecLexError>(
                token_views(tokens@),
            ),
            Err(e) => spec_lex(source@) == Err::<Seq<SpecToken>, SpecLexError>(e@),
        },
{
    let mut lexer = Lexer::new(source);
    lexer.tokenize()
}

struct Lexer {
    chars: Vec<char>,
    pos: usize,
    line: usize,
    col: usize,
}

impl Lexer {
    spec fn wf(&self) -> bool {
        &&& self.chars@.len() < usize::MAX
        &&& self.pos <= self.chars@.len()
        &&& self.line == line_at(self.chars@, self.pos as nat)
        &&& self.col == col_at(self.chars@, self.pos as nat)
    }

    fn new(source: &str) -> (lx: Self)
        requires
            source@.len() < usize::MAX,
        ensures
            lx.wf(),
            lx.chars@ == source@,
            lx.pos == 0,
    {
        let mut chars: Vec<char> = Vec::new();
        for c in it: source.chars()
            invariant
                chars@ == it.seq().take(it.index() as int),
        {
            chars.push(c);
        }
        assert(chars@ =~= source@);
        Lexer { chars, pos: 0, line: 1, col: 1 }
    }

    fn advance(&mut self) -> (c: Option<char>)
        requires
            old(self).wf(),
        ensures
            final(self).wf(),
            final(self).chars@ == old(self).chars@,
            c == at(old(self).chars@, old(self).pos as int),
            final(self).pos == if old(self).pos < old(self).chars@.len() {
                old(self).pos + 1
            } else {
                old(self).pos as int
            },
    {
        if self.pos < self.chars.len() {
            let ch = self.chars[self.pos];
            proof {
                lemma_position_bounds(self.chars@, (self.pos + 1) as nat);
            }
            if ch == '\n' {
                self.line = self.line + 1;
                self.col = 1;
            } else {
                self.col = self.col + 1;
            }
            self.pos = self.pos + 1;
            Some(ch)
        } else {
            None
        }
    }

    fn peek(&self) -> (c: Option<char>)
        requires
            self.wf(),
        ensures
            c == at(self.chars@, self.pos as int),
    {
        if self.pos < self.chars.len() {
            Some(self.chars[self.pos])
        } else {
            None
        }
    }

    fn peek_is(&self, expected: char) -> (b: bool)
        requires
            self.wf(),
        ensures
            b == (at(self.chars@, self.pos as int) == Some(expected)),
    {
        match self.peek() {
            Some(c) => c == expected,
            None => false,
        }
    }

    /// The character after the current one.
    fn peek_next(&self) -> (c: Option<char>)
        requires
            self.wf(),
        ensures
            c == at(self.chars@, self.pos + 1),
    {
        if self.pos + 1 < self.chars.len() {
            Some(self.chars[self.pos + 1])
        } else {
            None
        }
    }

    #[verifier::loop_isolation(false)]
    fn tokenize(&mut self) -> (res: Result<Vec<Token>, LexError>)
        requires
            old(self).wf(),
            old(self).pos == 0,
        ensures
            match res {
                Ok(tokens) => spec_lex(old(self).chars@) == Ok::<Seq<SpecToken>, SpecLexError>(
                    token_views(tokens@),
                ),
                Err(e) => spec_lex(old(self).chars@) == Err::<Seq<SpecToken>, SpecLexError>(e@),
            },
    {
        let ghost s = self.chars@;
        let mut tokens: Vec<Token> = Vec::new();
        loop
            invariant
                self.wf(),
                self.chars@ == s,
                spec_lex(s) == match lex_from(s, self.pos as nat) {
                    Ok(rest) => Ok::<Seq<SpecToken>, SpecLexError>(token_views(tokens@) + rest),
                    Err(e) => Err(e),
                },
            decreases s.len() - self.pos,
        {
            let ghost k = self.pos as nat;
            proof {
                lemma_skip_from_bounds(s, k);
            }
            match self.skip_whitespace_and_comments() {
                Err(e) => {
                    return Err(e);
                },
                Ok(()) => {},
            }
            let line = self.line;
            let col = self.col;
            let ghost j = self.pos as nat;
            proof {
                if j < s.len() {
                    lemma_token_at_advances(s, j);
                }
            }
            match self.peek() {
                None => {
                    let ghost before = tokens@;
                    tokens.push(Token::new(TokenKind::Eof, line, col));
                    assert(token_views(tokens@) =~= token_views(before) + seq![
                        spec_token(TokenKindOf::Eof, s, j),
                    ]);
                    return Ok(tokens);
                },
                Some(ch) => {
                    let kind = if '0' <= ch && ch <= '9' {
                        match self.lex_number(line, col) {
                            Ok(k) => k,
                            Err(e) => {
                                return Err(e);
                            },
                        }
                    } else if ch == '"' {
                        match self.lex_string(line) {
                            Ok(k) => k,
                            Err(e) => {
                                return Err(e);
                            },
                        }
                    } else if char_is_alphabetic(ch) || ch == '_' {
                        self.lex_identifier_or_keyword()
                    } else {
                        match self.lex_operator_or_punct(line, col) {
                            Ok(k) => k,
                            Err(e) => {
                                return Err(e);
                            },
                        }
                    };
                    let ghost before = tokens@;
                    let ghost e = self.pos as nat;
                    assert(token_at(s, j) == Ok::<(SpecTokenKind, nat), SpecLexError>((kind@, e)));
                    tokens.push(Token::new(kind, line, col));
                    assert(token_views(tokens@) =~= token_views(before) + seq![
                        spec_token(kind@, s, j),
                    ]);
                    assert(lex_from(s, k) == match lex_from(s, e) {
                        Ok(rest) => Ok::<Seq<SpecToken>, SpecLexError>(
                            seq![spec_token(kind@, s, j)] + rest,
                        ),
                        Err(err) => Err(err),
                    });
                    proof {
                        match lex_from(s, e) {
                            Ok(rest) => {
                                assert(token_views(tokens@) + rest =~= token_views(before) + (seq![
                                    spec_token(kind@, s, j),
                                ] + rest));
                            },
                            Err(_) => {},
                        }
                    }
                },
            }
        }
    }

    #[verifier::loop_isolation(false)]
    fn skip_whitespace_and_comments(&mut self) -> (res: Result<(), LexError>)
        requires
            old(self).wf(),
        ensures
            final(self).wf(),
            final(self).chars@ == old(self).chars@,
            match skip_from(old(self).chars@, old(self).pos as nat) {
                Ok(j) => res is Ok && final(self).pos == j,
                Err(e) => res matches Err(err) && err@ == e,
            },
    {
        let ghost s = self.chars@;
        let ghost start = self.pos as nat;
        loop
            invariant
                self.wf(),
                self.chars@ == s,
                start <= self.pos,
                skip_from(s, start) == skip_from(s, self.pos as nat),
            decreases s.len() - self.pos,
        {
            match self.peek() {
                Some(c) => {
                    if char_is_whitespace(c) {
                        self.advance();
                    } else if c == '/' && self.peek_next() == Some('/') {
                        let ghost iter_start = self.pos;
                        self.advance();
                        self.advance();
                        loop
                            invariant
                                self.wf(),
                                self.chars@ == s,
                                start <= self.pos,
                                skip_from(s, start) == skip_line_comment(s, self.pos as nat),
                                self.pos >= iter_start + 2,
                            decreases s.len() - self.pos,
                        {
                            match self.peek() {
                                Some(c) => {
                                    if c == '\n' {
                                        break ;
                                    }
                                    self.advance();
                                },
                                None => {
                                    break ;
                                },
                            }
                        }
                    } else if c == '/' && self.peek_next() == Some('*') {
                        let start_line = self.line;
                        let ghost bstart = self.pos as nat;
                        self.advance();
                        self.advance();
                        let mut closed = false;
                        loop
                            invariant
                                self.wf(),
                                self.chars@ == s,
                                start <= self.pos,
                                start_line == line_at(s, bstart),
                                self.pos >= bstart + 2,
                                !closed ==> skip_from(s, start) == skip_block_comment(
                                    s,
                                    self.pos as nat,
                                    start_line as nat,
                                ),
                                closed ==> skip_from(s, start) == skip_from(s, self.pos as nat),
                            decreases s.len() - self.pos,
                        {
                            if closed {
                                break ;
                            }
                            match self.advance() {
                                Some(c) => {
                                    if c == '*' && self.peek_is('/') {
                                        self.advance();
                                        closed = true;
                                    }
                                },
                                None => {
                                    break ;
                                },
                            }
                        }
                        if !closed {
                            return Err(LexError::UnterminatedBlockComment { line: start_line });
                        }
                    } else {
                        return Ok(());
                    }
                },
                None => {
                    return Ok(());
                },
            }
        }
    }

    #[verifier::loop_isolation(false)]
    fn lex_number(&mut self, line: usize, col: usize) -> (res: Result<TokenKind, LexError>)
        requires
            old(self).wf(),
            old(self).pos < old(self).chars@.len(),
            is_digit(old(self).chars@[old(self).pos as int]),
            line == line_at(old(self).chars@, old(self).pos as nat),
            col == col_at(old(self).chars@, old(self).pos as nat),
        ensures
            final(self).wf(),
            final(self).chars@ == old(self).chars@,
            match number_token(old(self).chars@, old(self).pos as nat) {
                Ok((k, e)) => res matches Ok(kind) && kind@ == k && final(self).pos == e,
                Err(e) => res matches Err(err) && err@ == e,
            },
    {
        let ghost s = self.chars@;
        let ghost j = self.pos as nat;
        proof {
            lemma_digit_run_end(s, j);
        }
        let mut lexeme = String::new();
        let mut value: i64 = 0;
        let mut overflow = false;
        loop
            invariant
                self.wf(),
                self.chars@ == s,
                j <= self.pos <= s.len(),
                digit_run_end(s, j) == digit_run_end(s, self.pos as nat),
                lexeme@ == s.subrange(j as int, self.pos as int),
                !overflow ==> value == digits_value(lexeme@),
                overflow ==> digits_value(lexeme@) > i64::MAX,
            decreases s.len() - self.pos,
        {
            match self.peek() {
                Some(c) => {
                    if '0' <= c && c <= '9' {
                        let ghost before = lexeme@;
                        proof {
                            lemma_digit_run_end(s, self.pos as nat);
                        }
                        push_char(&mut lexeme, c);
                        self.advance();
                        assert(lexeme@ =~= s.subrange(j as int, self.pos as int));
                        assert(lexeme@.drop_last() =~= before);
                        let d = (c as u32 - '0' as u32) as i64;
                        assert(digits_value(lexeme@) == digits_value(before) * 10 + d);
                        if !overflow {
                            if value > (i64::MAX - d) / 10 {
                                overflow = true;
                                assert(digits_value(lexeme@) > i64::MAX) by (nonlinear_arith)
                                    requires
                                        value > (i64::MAX - d) / 10,
                                        0 <= d <= 9,
                                        digits_value(lexeme@) == value * 10 + d,
                                ;
                            } else {
                                assert(value * 10 + d <= i64::MAX) by (nonlinear_arith)
                                    requires
                                        value <= (i64::MAX - d) / 10,
                                        0 <= d <= 9,
                                ;
                                value = value * 10 + d;
                            }
                        } else {
                            assert(digits_value(lexeme@) > i64::MAX) by (nonlinear_arith)
                                requires
                                    digits_value(before) > i64::MAX,
                                    digits_value(lexeme@) == digits_value(before) * 10 + d,
                                    0 <= d,
                            ;
                        }
                    } else {
                        break ;
                    }
                },
                None => {
                    break ;
                },
            }
        }
        assert(self.pos == digit_run_end(s, j));
        let mut is_float = false;
        let is_dot = self.peek_is('.');
        let next = self.peek_next();
        if is_dot && match next {
            Some(c) => '0' <= c && c <= '9',
            None => false,
        } {
            is_float = true;
            push_char(&mut lexeme, '.');
            self.advance();
            let ghost e1 = self.pos as nat;
            proof {
                lemma_digit_run_end(s, e1);
            }
            loop
                invariant
                    self.wf(),
                    self.chars@ == s,
                    e1 <= self.pos <= s.len(),
                    digit_run_end(s, e1) == digit_run_end(s, self.pos as nat),
                    lexeme@ == s.subrange(j as int, self.pos as int),
                decreases s.len() - self.pos,
            {
                match self.peek() {
                    Some(c) => {
                        if '0' <= c && c <= '9' {
                            proof {
                                lemma_digit_run_end(s, self.pos as nat);
                            }
                            push_char(&mut lexeme, c);
                            self.advance();
                            assert(lexeme@ =~= s.subrange(j as int, self.pos as int));
                        } else {
                            break ;
                        }
                    },
                    None => {
                        break ;
                    },
                }
            }
            assert(lexeme@ =~= s.subrange(j as int, self.pos as int));
        }
        if is_float {
            Ok(TokenKind::FloatLiteral(lexeme))
        } else if overflow {
            Err(LexError::InvalidNumber { lexeme, line, col })
        } else {
            Ok(TokenKind::IntLiteral(value))
        }
    }

    #[verifier::loop_isolation(false)]
    fn lex_string(&mut self, line: usize) -> (res: Result<TokenKind, LexError>)
        requires
            old(self).wf(),
            old(self).pos < old(self).chars@.len(),
            old(self).chars@[old(self).pos as int] == '"',
            line == line_at(old(self).chars@, old(self).pos as nat),
        ensures
            final(self).wf(),
            final(self).chars@ == old(self).chars@,
            match string_token(old(self).chars@, old(self).pos as nat) {
                Ok((k, e)) => res matches Ok(kind) && kind@ == k && final(self).pos == e,
                Err(e) => res matches Err(err) && err@ == e,
            },
    {
        let ghost s = self.chars@;
        let ghost j = self.pos as nat;
        self.advance();
        let mut text = String::new();
        loop
            invariant
                self.wf(),
                self.chars@ == s,
                j < self.pos,
                string_rest(s, j + 1) == match string_rest(s, self.pos as nat) {
                    Some((r, e)) => Some((text@ + r, e)),
                    None => None,
                },
            decreases s.len() - self.pos,
        {
            let ghost k = self.pos as nat;
            let ghost before = text@;
            match self.advance() {
                Some(c) => {
                    if c == '"' {
                        assert(text@ + Seq::<char>::empty() =~= text@);
                        return Ok(TokenKind::StringLiteral(text));
                    } else if c == '\\' {
                        match self.advance() {
                            Some(e) => {
                                let decoded = if e == 'n' {
                                    '\n'
                                } else if e == 't' {
                                    '\t'
                                } else {
                                    e
                                };
                                push_char(&mut text, decoded);
                                proof {
                                    match string_rest(s, k + 2) {
                                        Some((r, e2)) => {
                                            assert(before + (seq![decoded] + r) =~= text@ + r);
                                        },
                                        None => {},
                                    }
                                }
                            },
                            None => {
                                return Err(LexError::UnterminatedString { line });
                            },
                        }
                    } else {
                        push_char(&mut text, c);
                        proof {
                            match string_rest(s, k + 1) {
                                Some((r, e2)) => {
                                    assert(before + (seq![c] + r) =~= text@ + r);
                                },
                                None => {},
                            }
                        }
                    }
                },
                None => {
                    return Err(LexError::UnterminatedString { line });
                },
            }
        }
    }

    #[verifier::loop_isolation(false)]
    fn lex_identifier_or_keyword(&mut self) -> (kind: TokenKind)
        requires
            old(self).wf(),
            old(self).pos < old(self).chars@.len(),
            is_ident_start(old(self).chars@[old(self).pos as int]),
        ensures
            final(self).wf(),
            final(self).chars@ == old(self).chars@,
            word_token(old(self).chars@, old(self).pos as nat) == (kind@, final(self).pos as nat),
    {
        let ghost s = self.chars@;
        let ghost j = self.pos as nat;
        proof {
            lemma_ident_end(s, j);
        }
        let mut ident = String::new();
        loop
            invariant
                self.wf(),
                self.chars@ == s,
                j <= self.pos <= s.len(),
                ident_end(s, j) == ident_end(s, self.pos as nat),
                ident@ == s.subrange(j as int, self.pos as int),
            decreases s.len() - self.pos,
        {
            match self.peek() {
                Some(c) => {
                    if char_is_alphabetic(c) || char_is_numeric(c) || c == '_' {
                        proof {
                            lemma_ident_end(s, self.pos as nat);
                        }
                        push_char(&mut ident, c);
                        self.advance();
                        assert(ident@ =~= s.subrange(j as int, self.pos as int));
                    } else {
                        break ;
                    }
                },
                None => {
                    break ;
                },
            }
        }
        keyword_or_identifier(ident)
    }

    fn lex_operator_or_punct(&mut self, line: usize, col: usize) -> (res: Result<TokenKind, LexError>)
        requires
            old(self).wf(),
            old(self).pos < old(self).chars@.len(),
            line == line_at(old(self).chars@, old(self).pos as nat),
            col == col_at(old(self).chars@, old(self).pos as nat),
        ensures
            final(self).wf(),
            final(self).chars@ == old(self).chars@,
            match op_token(old(self).chars@, old(self).pos as nat) {
                Ok((k, e)) => res matches Ok(kind) && kind@ == k && final(self).pos == e,
                Err(e) => res matches Err(err) && err@ == e && final(self).pos == old(self).pos + 1,
            },
    {
        let c = match self.advance() {
            Some(c) => c,
            None => {
                return Err(LexError::UnexpectedChar { ch: ' ', line, col });
            },
        };
        let kind = if c == '+' {
            if self.peek_is('=') {
                self.advance();
                TokenKind::PlusEq
            } else if self.peek_is('+') {
                self.advance();
                TokenKind::PlusPlus
            } else {
                TokenKind::Plus
            }
        } else if c == '-' {
            if self.peek_is('=') {
                self.advance();
                TokenKind::MinusEq
            } else if self.peek_is('-') {
                self.advance();
                TokenKind::MinusMinus
            } else {
                TokenKind::Minus
            }
        } else if c == '*' {
            if self.peek_is('=') {
                self.advance();
                TokenKind::StarEq
            } else {
                TokenKind::Star
            }
        } else if c == '/' {
            if self.peek_is('=') {
                self.advance();
                TokenKind::SlashEq
            } else {
                TokenKind::Slash
            }
        } else if c == '%' {
            if self.peek_is('=') {
                self.advance();
                TokenKind::PercentEq
            } else {
                TokenKind::Percent
            }
        } else if c == '=' {
            if self.peek_is('=') {
                self.advance();
                TokenKind::EqEq
            } else {
                TokenKind::Eq
            }
        } else if c == '!' {
            if self.peek_is('=') {
                self.advance();
                TokenKind::NotEq
            } else {
                TokenKind::Bang
            }
        } else if c == '<' {
            if self.peek_is('<') {
                if self.peek_next() == Some('=') {
                    self.advance();
                    self.advance();
                    TokenKind::ShlEq
                } else {
                    self.advance();
                    TokenKind::Shl
                }
            } else if self.peek_is('=') {
                self.advance();
                TokenKind::LtEq
            } else {
                TokenKind::Lt
            }
        } else if c == '>' {
            if self.peek_is('>') {
                if self.peek_next() == Some('>') {
                    self.advance();
                    self.advance();
                    if self.peek_is('=') {
                        self.advance();
                        TokenKind::UShrEq
                    } else {
                        TokenKind::UShr
                    }
                } else if self.peek_next() == Some('=') {
                    self.advance();
                    self.advance();
                    TokenKind::ShrEq
                } else {
                    self.advance();
                    TokenKind::Shr
                }
            } else if self.peek_is('=') {
                self.advance();
                TokenKind::GtEq
            } else {
                TokenKind::Gt
            }
        } else if c == '&' {
            if self.peek_is('&') {
                self.advance();
                TokenKind::AndAnd
            } else if self.peek_is('=') {
                self.advance();
                TokenKind::AmpEq
            } else {
                TokenKind::Amp
            }
        } else if c == '|' {
            if self.peek_is('|') {
                self.advance();
                TokenKind::OrOr
            } else if self.peek_is('=') {
                self.advance();
                TokenKind::PipeEq
            } else {
                TokenKind::Pipe
            }
        } else if c == '^' {
            if self.peek_is('=') {
                self.advance();
                TokenKind::CaretEq
            } else {
                TokenKind::Caret
            }
        } else if c == '~' {
            TokenKind::Tilde
        } else if c == '?' {
            TokenKind::Question
        } else if c == ':' {
            TokenKind::Colon
        } else if c == '(' {
            TokenKind::LParen
        } else if c == ')' {
            TokenKind::RParen
        } else if c == '{' {
            TokenKind::LBrace
        } else if c == '}' {
            TokenKind::RBrace
        } else if c == '[' {
            TokenKind::LBracket
        } else if c == ']' {
            TokenKind::RBracket
        } else if c == ',' {
            TokenKind::Comma
        } else if c == ';' {
            TokenKind::Semicolon
        } else if c == '.' {
            TokenKind::Dot
        } else {
            return Err(LexError::UnexpectedChar { ch: c, line, col });
        };
        Ok(kind)
    }
}

/// The keyword that `word` spells, or an identifier token holding it.
fn keyword_or_identifier(word: String) -> (kind: TokenKind)
    ensures
        kind@ == match keyword_kind(word@) {
            Some(k) => k,
            None => TokenKindOf::Identifier(word@),
        },
{
    if word.eq(&String::from_str("int")) {
        TokenKind::Int
    } else if word.eq(&String::from_str("float")) {
        TokenKind::Float
    } else if word.eq(&String::from_str("bool")) {
        TokenKind::Bool
    } else if word.eq(&String::from_str("string")) {
        TokenKind::Str
    } else if word.eq(&String::from_str("void")) {
        TokenKind::Void
    } else if word.eq(&String::from_str("if")) {
        TokenKind::If
    } else if word.eq(&String::from_str("else")) {
        TokenKind::Else
    } else if word.eq(&String::from_str("while")) {
        TokenKind::While
    } else if word.eq(&String::from_str("for")) {
        TokenKind::For
    } else if word.eq(&String::from_str("return")) {
        TokenKind::Return
    } else if word.eq(&String::from_str("true")) {
        TokenKind::True
    } else if word.eq(&String::from_str("false")) {
        TokenKind::False
    } else if word.eq(&String::from_str("null")) {
        TokenKind::Null
    } else if word.eq(&String::from_str("new")) {
        TokenKind::New
    } else {
        TokenKind::Identifier(word)
    }
}

// ---- laws ----

proof fn lemma_lex_from_shape(s: Seq<char>, k: nat)
    requires
        k <= s.len(),
    ensures
        lex_from(s, k) matches Ok(ts) ==> {
            &&& ts.len() >= 1
            &&& ts.last().kind == TokenKindOf::<Seq<char>>::Eof
            &&& forall|i: int| 0 <= i < ts.len() - 1 ==> ts[i].kind != TokenKindOf::<Seq<char>>::Eof
            &&& forall|i: int|
                0 <= i < ts.len() ==> (#[trigger] ts[i].kind matches TokenKindOf::Identifier(w)
                    ==> keyword_kind(w) is None)
        },
    decreases s.len() - k,
{
    lemma_skip_from_bounds(s, k);
    if let Ok(j) = skip_from(s, k) {
        if j < s.len() {
            lemma_token_at_advances(s, j);
            if let Ok((kind, e)) = token_at(s, j) {
                lemma_lex_from_shape(s, e);
                if let Ok(rest) = lex_from(s, e) {
                    let ts = seq![spec_token(kind, s, j)] + rest;
                    assert(kind != TokenKindOf::<Seq<char>>::Eof && (kind matches TokenKindOf::Identifier(
                        w,
                    ) ==> keyword_kind(w) is None)) by {
                        let c = s[j as int];
                        if is_digit(c) {
                        } else if c == '"' {
                        } else if is_ident_start(c) {
                        } else {
                        }
                    }
                    assert forall|i: int| 0 <= i < ts.len() - 1 implies ts[i].kind
                        != TokenKindOf::<Seq<char>>::Eof by {
                        if i > 0 {
                            assert(ts[i] == rest[i - 1]);
                        }
                    }
                    assert forall|i: int| 0 <= i < ts.len() implies (#[trigger] ts[i].kind matches TokenKindOf::Identifier(
                        w,
                    ) ==> keyword_kind(w) is None) by {
                        if i > 0 {
                            assert(ts[i] == rest[i - 1]);
                        }
                    }
                }
            }
        }
    }
}

/// A successful lex ends with `Eof`, and with no other `Eof` before it.
pub proof fn law_lex_ends_with_single_eof(s: Seq<char>)
    ensures
        spec_lex(s) matches Ok(ts) ==> {
            &&& ts.len() >= 1
            &&& ts.last().kind == TokenKindOf::<Seq<char>>::Eof
            &&& forall|i: int| 0 <= i < ts.len() - 1 ==> ts[i].kind != TokenKindOf::<Seq<char>>::Eof
        },
{
    lemma_lex_from_shape(s, 0);
}

/// Keywords are reserved: no identifier token spells a keyword.
pub proof fn law_identifiers_are_not_keywords(s: Seq<char>)
    ensures
        spec_lex(s) matches Ok(ts) ==> forall|i: int|
            0 <= i < ts.len() ==> (#[trigger] ts[i].kind matches TokenKindOf::Identifier(w)
                ==> keyword_kind(w) is None),
{
    lemma_lex_from_shape(s, 0);
}


/// Whether the position (line, column) `a` comes before `b` in the source.
pub open spec fn comes_before(a_line: int, a_col: int, b_line: int, b_col: int) -> bool {
    a_line < b_line || (a_line == b_line && a_col < b_col)
}

proof fn lemma_positions_increase(s: Seq<char>, j: nat, k: nat)
    requires
        j < k <= s.len(),
    ensures
        comes_before(line_at(s, j) as int, col_at(s, j) as int, line_at(s, k) as int, col_at(s, k) as int),
    decreases k,
{
    if j + 1 < k {
        lemma_positions_increase(s, j, (k - 1) as nat);
    }
}

proof fn lemma_lex_from_in_order(s: Seq<char>, k: nat)
    requires
        k <= s.len(),
    ensures
        lex_from(s, k) matches Ok(ts) ==> {
            &&& forall|i: int| 0 <= i < ts.len() ==> (line_at(s, k) as int, col_at(s, k) as int) == (
            #[trigger] ts[i].line, ts[i].col) || comes_before(
                line_at(s, k) as int,
                col_at(s, k) as int,
                ts[i].line,
                ts[i].col,
            )
            &&& forall|i: int, m: int|
                0 <= i < m < ts.len() ==> comes_before(
                    #[trigger] ts[i].line,
                    ts[i].col,
                    #[trigger] ts[m].line,
                    ts[m].col,
                )
        },
    decreases s.len() - k,
{
    lemma_skip_from_bounds(s, k);
    if let Ok(j) = skip_from(s, k) {
        if k < j {
            lemma_positions_increase(s, k, j);
        }
        if j < s.len() {
            lemma_token_at_advances(s, j);
            if let Ok((kind, e)) = token_at(s, j) {
                lemma_lex_from_in_order(s, e);
                lemma_positions_increase(s, j, e);
                if let Ok(rest) = lex_from(s, e) {
                    let ts = seq![spec_token(kind, s, j)] + rest;
                    assert forall|i: int, m: int| 0 <= i < m < ts.len() implies comes_before(
                        #[trigger] ts[i].line,
                        ts[i].col,
                        #[trigger] ts[m].line,
                        ts[m].col,
                    ) by {
                        assert(ts[m] == rest[m - 1]);
                        if i > 0 {
                            assert(ts[i] == rest[i - 1]);
                        }
                    }
                    assert forall|i: int| 0 <= i < ts.len() implies (line_at(s, k) as int, col_at(
                        s,
                        k,
                    ) as int) == (#[trigger] ts[i].line, ts[i].col) || comes_before(
                        line_at(s, k) as int,
                        col_at(s, k) as int,
                        ts[i].line,
                        ts[i].col,
                    ) by {
                        if i > 0 {
                            assert(ts[i] == rest[i - 1]);
                        }
                    }
                }
            }
        }
    }
}

/// Tokens come in source order: each token starts after the one before
/// it, on a later line or further along the same line.
pub proof fn law_tokens_in_source_order(s: Seq<char>)
    ensures
        spec_lex(s) matches Ok(ts) ==> forall|i: int, m: int|
            0 <= i < m < ts.len() ==> comes_before(
                #[trigger] ts[i].line,
                ts[i].col,
                #[trigger] ts[m].line,
                ts[m].col,
            ),
{
    lemma_lex_from_in_order(s, 0);
}


/// Whether a `*/` starts at or after index `i`.
pub open spec fn closes_after(s: Seq<char>, i: int) -> bool {
    exists|j: int| i <= j && j + 1 < s.len() && #[trigger] s[j] == '*' && s[j + 1] == '/'
}

/// Whether a `/*` starts at index `i` with no `*/` after it.
pub open spec fn opens_unclosed(s: Seq<char>, i: int) -> bool {
    &&& 0 <= i && i + 1 < s.len()
    &&& s[i] == '/' && s[i + 1] == '*'
    &&& !closes_after(s, i + 2)
}

/// Whether skipping may stop at index `j`: the end, or a character that is
/// neither white space nor the start of a comment.
pub open spec fn stops_at(s: Seq<char>, j: nat) -> bool {
    j < s.len() ==> !is_whitespace_char(s[j as int]) && !(s[j as int] == '/' && (at(s, j + 1int)
        == Some('/') || at(s, j + 1int) == Some('*')))
}

proof fn lemma_skip_shape(s: Seq<char>, k: nat)
    ensures
        skip_from(s, k) matches Ok(j) ==> stops_at(s, j),
        skip_from(s, k) matches Err(e) ==> e is UnterminatedBlockComment && exists|i: int|
            k <= i && #[trigger] opens_unclosed(s, i),
    decreases s.len() - k, 0int,
{
    if k < s.len() {
        if is_whitespace_char(s[k as int]) {
            lemma_skip_shape(s, k + 1);
        } else if s[k as int] == '/' && at(s, k + 1int) == Some('/') {
            lemma_line_shape(s, k + 2);
        } else if s[k as int] == '/' && at(s, k + 1int) == Some('*') {
            lemma_block_shape(s, k + 2, line_at(s, k));
            if let Err(e) = skip_block_comment(s, k + 2, line_at(s, k)) {
                if !closes_after(s, k + 2int) {
                    assert(opens_unclosed(s, k as int));
                }
            }
        }
    }
}

proof fn lemma_line_shape(s: Seq<char>, k: nat)
    ensures
        skip_line_comment(s, k) matches Ok(j) ==> stops_at(s, j),
        skip_line_comment(s, k) matches Err(e) ==> e is UnterminatedBlockComment && exists|i: int|
            k <= i && #[trigger] opens_unclosed(s, i),
    decreases s.len() - k, 1int,
{
    if k < s.len() {
        if s[k as int] == '\n' {
            lemma_skip_shape(s, k);
        } else {
            lemma_line_shape(s, k + 1);
        }
    }
}

proof fn lemma_block_shape(s: Seq<char>, k: nat, start_line: nat)
    ensures
        skip_block_comment(s, k, start_line) matches Ok(j) ==> stops_at(s, j),
        skip_block_comment(s, k, start_line) matches Err(e) ==> e is UnterminatedBlockComment && (
        !closes_after(s, k as int) || exists|i: int| k <= i && #[trigger] opens_unclosed(s, i)),
    decreases s.len() - k, 1int,
{
    if k < s.len() {
        if s[k as int] == '*' && at(s, k + 1int) == Some('/') {
            lemma_skip_shape(s, k + 2);
        } else {
            lemma_block_shape(s, k + 1, start_line);
            if !closes_after(s, k + 1int) {
                assert(!closes_after(s, k as int)) by {
                    if closes_after(s, k as int) {
                        let j = choose|j: int| k <= j && j + 1 < s.len() && #[trigger] s[j] == '*'
                            && s[j + 1] == '/';
                        if j > k {
                            assert(closes_after(s, k + 1int));
                        }
                    }
                }
            }
        }
    }
}

/// Skipping white space and comments stops at the end of the source or at
/// a character that is neither white space nor the start of a comment; it
/// fails only on a block comment: a `/*`, at or after where skipping began,
/// with no `*/` after it.
pub proof fn law_skip_stops_before_a_token(s: Seq<char>, k: nat)
    ensures
        skip_from(s, k) matches Ok(j) ==> stops_at(s, j),
        skip_from(s, k) matches Err(e) ==> e is UnterminatedBlockComment && exists|i: int|
            k <= i && #[trigger] opens_unclosed(s, i),
{
    lemma_skip_shape(s, k);
}

/// Moving past one character moves to the next line, first column, after a
/// newline, and one column to the right after any other character.
pub proof fn law_position_after_a_character(s: Seq<char>, k: nat)
    requires
        k < s.len(),
    ensures
        s[k as int] == '\n' ==> line_at(s, k + 1) == line_at(s, k) + 1 && col_at(s, k + 1) == 1,
        s[k as int] != '\n' ==> line_at(s, k + 1) == line_at(s, k) && col_at(s, k + 1) == col_at(
            s,
            k,
        ) + 1,
{
}


/// Decoding a string literal's text, one step at a time: a `"` ends it; a
/// backslash and the character after it stand for one character, `\n`
/// for a newline, `\t` for a tab, and `\"` or `\\` (or a backslash before
/// any other character) for that character itself; any other character
/// stands for itself.
pub proof fn law_string_escapes(s: Seq<char>, k: nat)
    ensures
        k < s.len() && s[k as int] == '"' ==> string_rest(s, k) == Some((Seq::<char>::empty(), k + 1)),
        k < s.len() && s[k as int] != '"' && s[k as int] != '\\' ==> string_rest(s, k) == match string_rest(
            s,
            k + 1,
        ) {
            Some((r, e)) => Some((seq![s[k as int]] + r, e)),
            None => None,
        },
        k + 1 < s.len() && s[k as int] == '\\' ==> {
            let c = s[k + 1int];
            let decoded = string_rest(s, k) matches Some((r, e)) && r.len() > 0 && string_rest(s, k + 2)
                == Some((r.drop_first(), e));
            &&& string_rest(s, k) is Some <==> string_rest(s, k + 2) is Some
            &&& string_rest(s, k) is Some ==> decoded
            &&& c == 't' ==> (string_rest(s, k) matches Some((r, e)) ==> r[0] == '\t')
            &&& c == 'n' ==> (string_rest(s, k) matches Some((r, e)) ==> r[0] == '\n')
            &&& (c == '"' || c == '\\') ==> (string_rest(s, k) matches Some((r, e)) ==> r[0] == c)
            &&& (c != 't' && c != 'n') ==> (string_rest(s, k) matches Some((r, e)) ==> r[0] == c)
        },
{
    if k + 1 < s.len() && s[k as int] == '\\' {
        if let Some((r, e)) = string_rest(s, k + 2) {
            assert((seq![escaped(s[k + 1int])] + r).drop_first() =~= r);
        }
    }
}

/// A string literal without backslashes has as its text exactly the
/// characters between its quotes, and the token ends after the closing
/// quote.
pub proof fn law_plain_string_literal(s: Seq<char>, j: nat, e: nat)
    requires
        j < e < s.len(),
        s[j as int] == '"',
        s[e as int] == '"',
        forall|i: int| j < i < e ==> s[i] != '"' && s[i] != '\\',
    ensures
        token_at(s, j) == Ok::<(SpecTokenKind, nat), SpecLexError>(
            (TokenKindOf::StringLiteral(s.subrange(j + 1int, e as int)), e + 1),
        ),
    decreases e - j,
{
    lemma_plain_rest(s, j + 1, e);
}

proof fn lemma_plain_rest(s: Seq<char>, k: nat, e: nat)
    requires
        k <= e < s.len(),
        s[e as int] == '"',
        forall|i: int| k <= i < e ==> s[i] != '"' && s[i] != '\\',
    ensures
        string_rest(s, k) == Some((s.subrange(k as int, e as int), e + 1)),
    decreases e - k,
{
    if k < e {
        lemma_plain_rest(s, k + 1, e);
        assert(seq![s[k as int]] + s.subrange(k + 1int, e as int) =~= s.subrange(k as int, e as int));
    } else {
        assert(s.subrange(k as int, e as int) =~= Seq::<char>::empty());
    }
}

} // verus!
