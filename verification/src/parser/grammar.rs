//! The grammar of ANX as spec functions over token views: what `parse`
//! computes.
//!
//! Every function takes the tokens `t`, a position `p` and the next fresh
//! node id, and returns the parsed value with the position and fresh id
//! after it. Node ids are handed out in the order the nodes are completed.
//! Precedence, loosest first: assignment (right-associative), ternary
//! (right-associative), `||`, `&&`, `|`, `^`, `&`, `==`/`!=`, comparisons,
//! shifts, `+`/`-`, `*`/`/`/`%`, prefix operators, postfix `[]`, `.`,
//! `++`/`--`.
//!
//! `stuck` is what a function gives where a sub-parse would have moved the
//! position backwards or past the end; `parse` never does so (it is proved
//! from its contracts), and these branches only make the recursion's
//! termination evident.

use crate::ast::{BinOp, IncDecOp, SpecDecl, SpecExpr, SpecFuncDecl, SpecParam, SpecStmt, SpecVarDecl, Type, UnOp};
use crate::lexer::token::{kind_code, kind_text, SpecToken, SpecTokenKind, TokenKindOf};
use vstd::prelude::*;

verus! {

/// What the specification says of a parse error.
pub struct SpecParseError {
    pub expected: Seq<char>,
    pub found: Seq<char>,
    pub line: int,
}

pub type Parsed<T> = Result<(T, nat, nat), SpecParseError>;

pub open spec fn stuck() -> SpecParseError {
    SpecParseError { expected: Seq::empty(), found: Seq::empty(), line: -1 }
}

pub open spec fn kind_at(t: Seq<SpecToken>, p: nat) -> SpecTokenKind {
    t[p as int].kind
}

pub open spec fn line_at(t: Seq<SpecToken>, p: nat) -> int {
    t[p as int].line
}

pub open spec fn at_end(t: Seq<SpecToken>, p: nat) -> bool {
    t[p as int].kind matches TokenKindOf::Eof
}

/// The position after consuming the token at `p`; `Eof` is never consumed.
pub open spec fn next_pos(t: Seq<SpecToken>, p: nat) -> nat {
    if p >= t.len() || at_end(t, p) {
        p
    } else {
        p + 1
    }
}

/// Whether the token at `p` has the same variant as `k`.
pub open spec fn is_kind(t: Seq<SpecToken>, p: nat, k: SpecTokenKind) -> bool {
    kind_code(kind_at(t, p)) == kind_code(k)
}

pub open spec fn unexpected(t: Seq<SpecToken>, p: nat, expected: Seq<char>) -> SpecParseError {
    SpecParseError { expected, found: kind_text(kind_at(t, p)), line: line_at(t, p) }
}

/// A sub-parse moved from `from` to `to`, forwards and within the tokens.
pub open spec fn moved(t: Seq<SpecToken>, from: nat, to: nat) -> bool {
    from <= to < t.len()
}

pub open spec fn sp_expect(t: Seq<SpecToken>, p: nat, k: SpecTokenKind) -> Result<
    nat,
    SpecParseError,
> {
    if is_kind(t, p, k) {
        Ok(next_pos(t, p))
    } else {
        Err(SpecParseError { expected: kind_text(k), found: kind_text(kind_at(t, p)), line: line_at(t, p) })
    }
}

pub open spec fn sp_identifier(t: Seq<SpecToken>, p: nat) -> Result<(Seq<char>, nat), SpecParseError> {
    match kind_at(t, p) {
        TokenKindOf::Identifier(name) => Ok((name, next_pos(t, p))),
        _ => Err(unexpected(t, p, "identifier"@)),
    }
}

// ---- types ----

pub open spec fn type_keyword(k: SpecTokenKind) -> Option<Type> {
    match k {
        TokenKindOf::Int => Some(Type::Int),
        TokenKindOf::Float => Some(Type::Float),
        TokenKindOf::Bool => Some(Type::Bool),
        TokenKindOf::Str => Some(Type::Str),
        TokenKindOf::Void => Some(Type::Void),
        _ => None,
    }
}

pub open spec fn sp_base_type(t: Seq<SpecToken>, p: nat) -> Result<(Type, nat), SpecParseError> {
    match type_keyword(kind_at(t, p)) {
        Some(ty) => Ok((ty, next_pos(t, p))),
        None => Err(unexpected(t, p, "type"@)),
    }
}

/// A base type, optionally followed by `[]`.
pub open spec fn sp_type(t: Seq<SpecToken>, p: nat) -> Result<(Type, nat), SpecParseError> {
    match sp_base_type(t, p) {
        Err(e) => Err(e),
        Ok((base, p1)) => if is_kind(t, p1, TokenKindOf::LBracket) {
            match sp_expect(t, next_pos(t, p1), TokenKindOf::RBracket) {
                Err(e) => Err(e),
                Ok(p2) => Ok((Type::Array(Box::new(base)), p2)),
            }
        } else {
            Ok((base, p1))
        },
    }
}

// ---- expressions ----

pub open spec fn compound_op(k: SpecTokenKind) -> Option<BinOp> {
    match k {
        TokenKindOf::PlusEq => Some(BinOp::Add),
        TokenKindOf::MinusEq => Some(BinOp::Sub),
        TokenKindOf::StarEq => Some(BinOp::Mul),
        TokenKindOf::SlashEq => Some(BinOp::Div),
        TokenKindOf::PercentEq => Some(BinOp::Mod),
        TokenKindOf::AmpEq => Some(BinOp::BitAnd),
        TokenKindOf::PipeEq => Some(BinOp::BitOr),
        TokenKindOf::CaretEq => Some(BinOp::BitXor),
        TokenKindOf::ShlEq => Some(BinOp::Shl),
        TokenKindOf::ShrEq => Some(BinOp::Shr),
        TokenKindOf::UShrEq => Some(BinOp::UShr),
        _ => None,
    }
}

/// The left-associative binary levels, from the tightest (1: `*` `/` `%`)
/// to the loosest (10: `||`), and the operator a token stands for at each.
pub open spec fn level_op(level: nat, k: SpecTokenKind) -> Option<BinOp> {
    if level == 10 {
        match k {
            TokenKindOf::OrOr => Some(BinOp::Or),
            _ => None,
        }
    } else if level == 9 {
        match k {
            TokenKindOf::AndAnd => Some(BinOp::And),
            _ => None,
        }
    } else if level == 8 {
        match k {
            TokenKindOf::Pipe => Some(BinOp::BitOr),
            _ => None,
        }
    } else if level == 7 {
        match k {
            TokenKindOf::Caret => Some(BinOp::BitXor),
            _ => None,
        }
    } else if level == 6 {
        match k {
            TokenKindOf::Amp => Some(BinOp::BitAnd),
            _ => None,
        }
    } else if level == 5 {
        match k {
            TokenKindOf::EqEq => Some(BinOp::Eq),
            TokenKindOf::NotEq => Some(BinOp::NotEq),
            _ => None,
        }
    } else if level == 4 {
        match k {
            TokenKindOf::Lt => Some(BinOp::Lt),
            TokenKindOf::LtEq => Some(BinOp::LtEq),
            TokenKindOf::Gt => Some(BinOp::Gt),
            TokenKindOf::GtEq => Some(BinOp::GtEq),
            _ => None,
        }
    } else if level == 3 {
        match k {
            TokenKindOf::Shl => Some(BinOp::Shl),
            TokenKindOf::Shr => Some(BinOp::Shr),
            TokenKindOf::UShr => Some(BinOp::UShr),
            _ => None,
        }
    } else if level == 2 {
        match k {
            TokenKindOf::Plus => Some(BinOp::Add),
            TokenKindOf::Minus => Some(BinOp::Sub),
            _ => None,
        }
    } else if level == 1 {
        match k {
            TokenKindOf::Star => Some(BinOp::Mul),
            TokenKindOf::Slash => Some(BinOp::Div),
            TokenKindOf::Percent => Some(BinOp::Mod),
            _ => None,
        }
    } else {
        None
    }
}

pub open spec fn sp_expr(t: Seq<SpecToken>, p: nat, id: nat) -> Parsed<SpecExpr>
    decreases t.len() - p, 40int,
{
    sp_assignment(t, p, id)
}

/// A ternary, optionally followed by `=` or a compound assignment operator
/// and (right-associatively) another assignment.
pub open spec fn sp_assignment(t: Seq<SpecToken>, p: nat, id: nat) -> Parsed<SpecExpr>
    decreases t.len() - p, 39int,
{
    if p >= t.len() {
        Err(stuck())
    } else {
        match sp_ternary(t, p, id) {
            Err(e) => Err(e),
            Ok((target, p1, id1)) => if !moved(t, p, p1) {
                Err(stuck())
            } else if next_pos(t, p1) <= p1 && (is_kind(t, p1, TokenKindOf::Eq) || compound_op(
                kind_at(t, p1),
            ) is Some) {
                Err(stuck())
            } else if is_kind(t, p1, TokenKindOf::Eq) {
                match sp_assignment(t, next_pos(t, p1), id1) {
                    Err(e) => Err(e),
                    Ok((value, p2, id2)) => Ok(
                        (
                            SpecExpr::Assign {
                                id: id2 as int,
                                target: Box::new(target),
                                value: Box::new(value),
                                line: line_at(t, p1),
                            },
                            p2,
                            id2 + 1,
                        ),
                    ),
                }
            } else {
                match compound_op(kind_at(t, p1)) {
                    Some(op) => match sp_assignment(t, next_pos(t, p1), id1) {
                        Err(e) => Err(e),
                        Ok((value, p2, id2)) => Ok(
                            (
                                SpecExpr::CompoundAssign {
                                    id: id2 as int,
                                    op,
                                    target: Box::new(target),
                                    value: Box::new(value),
                                    line: line_at(t, p1),
                                },
                                p2,
                                id2 + 1,
                            ),
                        ),
                    },
                    None => Ok((target, p1, id1)),
                }
            },
        }
    }
}

/// `cond ? then : else`, with `else` itself a ternary.
pub open spec fn sp_ternary(t: Seq<SpecToken>, p: nat, id: nat) -> Parsed<SpecExpr>
    decreases t.len() - p, 38int,
{
    if p >= t.len() {
        Err(stuck())
    } else {
        match sp_level(t, p, id, 10) {
            Err(e) => Err(e),
            Ok((cond, p1, id1)) => if !moved(t, p, p1) {
                Err(stuck())
            } else if is_kind(t, p1, TokenKindOf::Question) {
                if next_pos(t, p1) <= p1 {
                    Err(stuck())
                } else {
                match sp_expr(t, next_pos(t, p1), id1) {
                    Err(e) => Err(e),
                    Ok((then_branch, p2, id2)) => if !moved(t, next_pos(t, p1), p2) {
                        Err(stuck())
                    } else {
                        match sp_expect(t, p2, TokenKindOf::Colon) {
                            Err(e) => Err(e),
                            Ok(p3) => match sp_ternary(t, p3, id2) {
                                Err(e) => Err(e),
                                Ok((else_branch, p4, id3)) => Ok(
                                    (
                                        SpecExpr::Ternary {
                                            id: id3 as int,
                                            cond: Box::new(cond),
                                            then_branch: Box::new(then_branch),
                                            else_branch: Box::new(else_branch),
                                            line: line_at(t, p1),
                                        },
                                        p4,
                                        id3 + 1,
                                    ),
                                ),
                            },
                        }
                    },
                }
                }
            } else {
                Ok((cond, p1, id1))
            },
        }
    }
}

/// The operand of a binary level: the next tighter level, or a prefix
/// expression below level 1.
pub open spec fn sp_operand(t: Seq<SpecToken>, p: nat, id: nat, level: nat) -> Parsed<SpecExpr>
    decreases t.len() - p, 10 + 2 * level,
{
    if level <= 1 {
        sp_unary(t, p, id)
    } else {
        sp_level(t, p, id, (level - 1) as nat)
    }
}

/// One left-associative binary level: operands separated by its operators.
pub open spec fn sp_level(t: Seq<SpecToken>, p: nat, id: nat, level: nat) -> Parsed<SpecExpr>
    decreases t.len() - p, 11 + 2 * level,
{
    if p >= t.len() {
        Err(stuck())
    } else {
        match sp_operand(t, p, id, level) {
            Err(e) => Err(e),
            Ok((left, p1, id1)) => if !moved(t, p, p1) {
                Err(stuck())
            } else {
                sp_level_rest(t, p1, id1, level, left)
            },
        }
    }
}

/// The rest of a binary level after its first operand `left`.
pub open spec fn sp_level_rest(
    t: Seq<SpecToken>,
    p: nat,
    id: nat,
    level: nat,
    left: SpecExpr,
) -> Parsed<SpecExpr>
    decreases t.len() - p, 10 + 2 * level,
{
    if p >= t.len() {
        Err(stuck())
    } else {
        match level_op(level, kind_at(t, p)) {
            None => Ok((left, p, id)),
            Some(op) => {
                let p1 = next_pos(t, p);
                if p1 <= p {
                    Err(stuck())
                } else {
                    match sp_operand(t, p1, id, level) {
                        Err(e) => Err(e),
                        Ok((right, p2, id2)) => if !moved(t, p1, p2) {
                            Err(stuck())
                        } else {
                            sp_level_rest(
                                t,
                                p2,
                                id2 + 1,
                                level,
                                SpecExpr::Binary {
                                    id: id2 as int,
                                    op,
                                    left: Box::new(left),
                                    right: Box::new(right),
                                    line: line_at(t, p),
                                },
                            )
                        },
                    }
                }
            },
        }
    }
}

/// Prefix `++`/`--` (increment or decrement of the operand) and `!`, `-`,
/// `~`, each applied to a prefix expression; else a postfix expression.
pub open spec fn sp_unary(t: Seq<SpecToken>, p: nat, id: nat) -> Parsed<SpecExpr>
    decreases t.len() - p, 9int,
{
    if p >= t.len() {
        Err(stuck())
    } else {
        if is_kind(t, p, TokenKindOf::PlusPlus) || is_kind(t, p, TokenKindOf::MinusMinus) {
            let p1 = next_pos(t, p);
            if p1 <= p {
                Err(stuck())
            } else {
                match sp_unary(t, p1, id) {
                    Err(e) => Err(e),
                    Ok((target, p2, id2)) => Ok(
                        (
                            SpecExpr::IncDec {
                                id: id2 as int,
                                op: if is_kind(t, p, TokenKindOf::PlusPlus) {
                                    IncDecOp::Inc
                                } else {
                                    IncDecOp::Dec
                                },
                                target: Box::new(target),
                                is_prefix: true,
                                line: line_at(t, p),
                            },
                            p2,
                            id2 + 1,
                        ),
                    ),
                }
            }
        } else if is_kind(t, p, TokenKindOf::Bang) || is_kind(t, p, TokenKindOf::Minus) || is_kind(
            t,
            p,
            TokenKindOf::Tilde,
        ) {
            let p1 = next_pos(t, p);
            if p1 <= p {
                Err(stuck())
            } else {
                match sp_unary(t, p1, id) {
                    Err(e) => Err(e),
                    Ok((operand, p2, id2)) => Ok(
                        (
                            SpecExpr::Unary {
                                id: id2 as int,
                                op: if is_kind(t, p, TokenKindOf::Bang) {
                                    UnOp::Not
                                } else if is_kind(t, p, TokenKindOf::Tilde) {
                                    UnOp::BitNot
                                } else {
                                    UnOp::Neg
                                },
                                operand: Box::new(operand),
                                line: line_at(t, p),
                            },
                            p2,
                            id2 + 1,
                        ),
                    ),
                }
            }
        } else {
            sp_postfix(t, p, id)
        }
    }
}

/// A primary expression, a chain of `[index]` and `.field`, then at most
/// one postfix `++` or `--`.
pub open spec fn sp_postfix(t: Seq<SpecToken>, p: nat, id: nat) -> Parsed<SpecExpr>
    decreases t.len() - p, 8int,
{
    if p >= t.len() {
        Err(stuck())
    } else {
        match sp_primary(t, p, id) {
            Err(e) => Err(e),
            Ok((e0, p1, id1)) => if !moved(t, p, p1) {
                Err(stuck())
            } else {
                match sp_postfix_chain(t, p1, id1, e0) {
                    Err(e) => Err(e),
                    Ok((e1, p2, id2)) => {
                        if is_kind(t, p2, TokenKindOf::PlusPlus) || is_kind(
                            t,
                            p2,
                            TokenKindOf::MinusMinus,
                        ) {
                            Ok(
                                (
                                    SpecExpr::IncDec {
                                        id: id2 as int,
                                        op: if is_kind(t, p2, TokenKindOf::PlusPlus) {
                                            IncDecOp::Inc
                                        } else {
                                            IncDecOp::Dec
                                        },
                                        target: Box::new(e1),
                                        is_prefix: false,
                                        line: line_at(t, p2),
                                    },
                                    next_pos(t, p2),
                                    id2 + 1,
                                ),
                            )
                        } else {
                            Ok((e1, p2, id2))
                        }
                    },
                }
            },
        }
    }
}

/// The `[index]` and `.field` suffixes after `e`.
pub open spec fn sp_postfix_chain(t: Seq<SpecToken>, p: nat, id: nat, e: SpecExpr) -> Parsed<
    SpecExpr,
>
    decreases t.len() - p, 7int,
{
    if p >= t.len() {
        Err(stuck())
    } else if is_kind(t, p, TokenKindOf::LBracket) {
        let p1 = next_pos(t, p);
        if p1 <= p {
            Err(stuck())
        } else {
            match sp_expr(t, p1, id) {
                Err(err) => Err(err),
                Ok((index, p2, id2)) => match sp_expect(t, p2, TokenKindOf::RBracket) {
                    Err(err) => Err(err),
                    Ok(p3) => if !moved(t, p1, p3) {
                        Err(stuck())
                    } else {
                        sp_postfix_chain(
                            t,
                            p3,
                            id2 + 1,
                            SpecExpr::Index {
                                id: id2 as int,
                                array: Box::new(e),
                                index: Box::new(index),
                                line: line_at(t, p),
                            },
                        )
                    },
                },
            }
        }
    } else if is_kind(t, p, TokenKindOf::Dot) {
        let p1 = next_pos(t, p);
        if p1 <= p {
            Err(stuck())
        } else {
            match sp_identifier(t, p1) {
                Err(err) => Err(err),
                Ok((field, p2)) => if !moved(t, p1, p2) {
                    Err(stuck())
                } else {
                    sp_postfix_chain(
                        t,
                        p2,
                        id + 1,
                        SpecExpr::FieldAccess {
                            id: id as int,
                            object: Box::new(e),
                            field,
                            line: line_at(t, p),
                        },
                    )
                },
            }
        }
    } else {
        Ok((e, p, id))
    }
}

/// Literals, `null`, array creation and literals, calls, identifiers and
/// parenthesized expressions.
pub open spec fn sp_primary(t: Seq<SpecToken>, p: nat, id: nat) -> Parsed<SpecExpr>
    decreases t.len() - p, 6int,
{
    if p >= t.len() {
        Err(stuck())
    } else {
        let line = line_at(t, p);
        let p1 = next_pos(t, p);
        match kind_at(t, p) {
            TokenKindOf::IntLiteral(value) => Ok(
                (SpecExpr::IntLiteral { id: id as int, value, line }, p1, id + 1),
            ),
            TokenKindOf::FloatLiteral(value) => Ok(
                (SpecExpr::FloatLiteral { id: id as int, value, line }, p1, id + 1),
            ),
            TokenKindOf::StringLiteral(value) => Ok(
                (SpecExpr::StringLiteral { id: id as int, value, line }, p1, id + 1),
            ),
            TokenKindOf::True => Ok(
                (SpecExpr::BoolLiteral { id: id as int, value: true, line }, p1, id + 1),
            ),
            TokenKindOf::False => Ok(
                (SpecExpr::BoolLiteral { id: id as int, value: false, line }, p1, id + 1),
            ),
            TokenKindOf::Null => Ok((SpecExpr::Null { id: id as int, line }, p1, id + 1)),
            TokenKindOf::New => sp_array_creation(t, p, id),
            TokenKindOf::LBracket => sp_array_literal(t, p, id),
            TokenKindOf::Identifier(name) => if p1 <= p {
                Err(stuck())
            } else if is_kind(t, p1, TokenKindOf::LParen) {
                sp_call_rest(t, p1, id, name, line)
            } else {
                Ok((SpecExpr::Ident { id: id as int, name, line }, p1, id + 1))
            },
            TokenKindOf::LParen => if p1 <= p {
                Err(stuck())
            } else {
                match sp_expr(t, p1, id) {
                    Err(e) => Err(e),
                    Ok((e, p2, id2)) => match sp_expect(t, p2, TokenKindOf::RParen) {
                        Err(err) => Err(err),
                        Ok(p3) => Ok((e, p3, id2)),
                    },
                }
            },
            _ => Err(unexpected(t, p, "expression"@)),
        }
    }
}

/// `new type[size]`.
pub open spec fn sp_array_creation(t: Seq<SpecToken>, p: nat, id: nat) -> Parsed<SpecExpr>
    decreases t.len() - p, 5int,
{
    if p >= t.len() {
        Err(stuck())
    } else {
        match sp_expect(t, p, TokenKindOf::New) {
            Err(e) => Err(e),
            Ok(p1) => match sp_base_type(t, p1) {
                Err(e) => Err(e),
                Ok((elem_ty, p2)) => match sp_expect(t, p2, TokenKindOf::LBracket) {
                    Err(e) => Err(e),
                    Ok(p3) => if !moved(t, p + 1, p3) {
                        Err(stuck())
                    } else {
                        match sp_expr(t, p3, id) {
                            Err(e) => Err(e),
                            Ok((size, p4, id4)) => match sp_expect(t, p4, TokenKindOf::RBracket) {
                                Err(e) => Err(e),
                                Ok(p5) => Ok(
                                    (
                                        SpecExpr::ArrayCreation {
                                            id: id4 as int,
                                            elem_ty,
                                            size: Box::new(size),
                                            line: line_at(t, p),
                                        },
                                        p5,
                                        id4 + 1,
                                    ),
                                ),
                            },
                        }
                    },
                },
            },
        }
    }
}

/// One or more expressions separated by commas, appended to `acc`.
pub open spec fn sp_expr_list(t: Seq<SpecToken>, p: nat, id: nat, acc: Seq<SpecExpr>) -> Parsed<
    Seq<SpecExpr>,
>
    decreases t.len() - p, 45int,
{
    if p >= t.len() {
        Err(stuck())
    } else {
        match sp_expr(t, p, id) {
            Err(e) => Err(e),
            Ok((e, p1, id1)) => if !moved(t, p, p1) {
                Err(stuck())
            } else if is_kind(t, p1, TokenKindOf::Comma) {
                if next_pos(t, p1) <= p1 {
                    Err(stuck())
                } else {
                    sp_expr_list(t, next_pos(t, p1), id1, acc.push(e))
                }
            } else {
                Ok((acc.push(e), p1, id1))
            },
        }
    }
}

/// `[e, ...]`, possibly empty.
pub open spec fn sp_array_literal(t: Seq<SpecToken>, p: nat, id: nat) -> Parsed<SpecExpr>
    decreases t.len() - p, 5int,
{
    if p >= t.len() {
        Err(stuck())
    } else {
        match sp_expect(t, p, TokenKindOf::LBracket) {
            Err(e) => Err(e),
            Ok(p1) => if p1 <= p {
                Err(stuck())
            } else {
                let elements = if is_kind(t, p1, TokenKindOf::RBracket) {
                    Ok((Seq::empty(), p1, id))
                } else {
                    sp_expr_list(t, p1, id, Seq::empty())
                };
                match elements {
                    Err(e) => Err(e),
                    Ok((elements, p2, id2)) => match sp_expect(t, p2, TokenKindOf::RBracket) {
                        Err(e) => Err(e),
                        Ok(p3) => Ok(
                            (
                                SpecExpr::ArrayLiteral {
                                    id: id2 as int,
                                    elements,
                                    line: line_at(t, p),
                                },
                                p3,
                                id2 + 1,
                            ),
                        ),
                    },
                }
            },
        }
    }
}

/// The arguments of a call to `callee`, from its `(`.
pub open spec fn sp_call_rest(
    t: Seq<SpecToken>,
    p: nat,
    id: nat,
    callee: Seq<char>,
    line: int,
) -> Parsed<SpecExpr>
    decreases t.len() - p, 5int,
{
    if p >= t.len() {
        Err(stuck())
    } else {
        match sp_expect(t, p, TokenKindOf::LParen) {
            Err(e) => Err(e),
            Ok(p1) => if p1 <= p {
                Err(stuck())
            } else {
                let args = if is_kind(t, p1, TokenKindOf::RParen) {
                    Ok((Seq::empty(), p1, id))
                } else {
                    sp_expr_list(t, p1, id, Seq::empty())
                };
                match args {
                    Err(e) => Err(e),
                    Ok((args, p2, id2)) => match sp_expect(t, p2, TokenKindOf::RParen) {
                        Err(e) => Err(e),
                        Ok(p3) => Ok(
                            (SpecExpr::Call { id: id2 as int, callee, args, line }, p3, id2 + 1),
                        ),
                    },
                }
            },
        }
    }
}

// ---- statements ----

/// `= init` (optional) and `;` after a variable's type and name.
pub open spec fn sp_var_decl_rest(
    t: Seq<SpecToken>,
    p: nat,
    id: nat,
    ty: Type,
    name: Seq<char>,
    line: int,
) -> Parsed<SpecVarDecl>
    decreases t.len() - p, 46int,
{
    if p >= t.len() {
        Err(stuck())
    } else {
        let init = if is_kind(t, p, TokenKindOf::Eq) {
            if next_pos(t, p) <= p {
                Err(stuck())
            } else {
                match sp_expr(t, next_pos(t, p), id) {
                    Err(e) => Err(e),
                    Ok((e, p1, id1)) => Ok((Some(e), p1, id1)),
                }
            }
        } else {
            Ok((None, p, id))
        };
        match init {
            Err(e) => Err(e),
            Ok((init, p1, id1)) => match sp_expect(t, p1, TokenKindOf::Semicolon) {
                Err(e) => Err(e),
                Ok(p2) => Ok((SpecVarDecl { id: id1 as int, ty, name, init, line }, p2, id1 + 1)),
            },
        }
    }
}

/// `type name [= init];` as a statement.
pub open spec fn sp_var_decl_stmt(t: Seq<SpecToken>, p: nat, id: nat) -> Parsed<SpecStmt>
    decreases t.len() - p, 49int,
{
    if p >= t.len() {
        Err(stuck())
    } else {
        match sp_type(t, p) {
            Err(e) => Err(e),
            Ok((ty, p1)) => match sp_identifier(t, p1) {
                Err(e) => Err(e),
                Ok((name, p2)) => if !moved(t, p + 1, p2) {
                    Err(stuck())
                } else {
                    match sp_var_decl_rest(t, p2, id, ty, name, line_at(t, p)) {
                        Err(e) => Err(e),
                        Ok((vd, p3, id3)) => Ok((SpecStmt::VarDecl(vd), p3, id3)),
                    }
                },
            },
        }
    }
}

/// `{ statements }`.
pub open spec fn sp_block(t: Seq<SpecToken>, p: nat, id: nat) -> Parsed<Seq<SpecStmt>>
    decreases t.len() - p, 48int,
{
    if p >= t.len() {
        Err(stuck())
    } else {
        match sp_expect(t, p, TokenKindOf::LBrace) {
            Err(e) => Err(e),
            Ok(p1) => if p1 <= p {
                Err(stuck())
            } else {
                match sp_stmts(t, p1, id, Seq::empty()) {
                    Err(e) => Err(e),
                    Ok((stmts, p2, id2)) => match sp_expect(t, p2, TokenKindOf::RBrace) {
                        Err(e) => Err(e),
                        Ok(p3) => Ok((stmts, p3, id2)),
                    },
                }
            },
        }
    }
}

/// Statements up to a `}` or the end, appended to `acc`.
pub open spec fn sp_stmts(t: Seq<SpecToken>, p: nat, id: nat, acc: Seq<SpecStmt>) -> Parsed<
    Seq<SpecStmt>,
>
    decreases t.len() - p, 52int,
{
    if p >= t.len() {
        Err(stuck())
    } else if is_kind(t, p, TokenKindOf::RBrace) || at_end(t, p) {
        Ok((acc, p, id))
    } else {
        match sp_stmt(t, p, id) {
            Err(e) => Err(e),
            Ok((s, p1, id1)) => if !moved(t, p + 1, p1) {
                Err(stuck())
            } else {
                sp_stmts(t, p1, id1, acc.push(s))
            },
        }
    }
}

pub open spec fn sp_stmt(t: Seq<SpecToken>, p: nat, id: nat) -> Parsed<SpecStmt>
    decreases t.len() - p, 50int,
{
    if p >= t.len() {
        Err(stuck())
    } else {
        match kind_at(t, p) {
            TokenKindOf::LBrace => match sp_block(t, p, id) {
                Err(e) => Err(e),
                Ok((stmts, p1, id1)) => Ok((SpecStmt::Block(stmts), p1, id1)),
            },
            TokenKindOf::If => sp_if(t, p, id),
            TokenKindOf::While => sp_while(t, p, id),
            TokenKindOf::For => sp_for(t, p, id),
            TokenKindOf::Return => sp_return(t, p, id),
            TokenKindOf::Int => sp_var_decl_stmt(t, p, id),
            TokenKindOf::Float => sp_var_decl_stmt(t, p, id),
            TokenKindOf::Bool => sp_var_decl_stmt(t, p, id),
            TokenKindOf::Str => sp_var_decl_stmt(t, p, id),
            TokenKindOf::Void => sp_var_decl_stmt(t, p, id),
            _ => sp_expr_stmt(t, p, id),
        }
    }
}

/// `( cond )` after a keyword at `p`: the condition and the position
/// after `)`.
pub open spec fn sp_paren_cond(t: Seq<SpecToken>, p: nat, id: nat) -> Parsed<SpecExpr>
    decreases t.len() - p, 47int,
{
    if p >= t.len() {
        Err(stuck())
    } else {
        match sp_expect(t, p, TokenKindOf::LParen) {
            Err(e) => Err(e),
            Ok(p1) => if p1 <= p {
                Err(stuck())
            } else {
                match sp_expr(t, p1, id) {
                    Err(e) => Err(e),
                    Ok((cond, p2, id2)) => match sp_expect(t, p2, TokenKindOf::RParen) {
                        Err(e) => Err(e),
                        Ok(p3) => Ok((cond, p3, id2)),
                    },
                }
            },
        }
    }
}

/// `if ( cond ) stmt [else stmt]`.
pub open spec fn sp_if(t: Seq<SpecToken>, p: nat, id: nat) -> Parsed<SpecStmt>
    decreases t.len() - p, 49int,
{
    if p >= t.len() {
        Err(stuck())
    } else {
        match sp_expect(t, p, TokenKindOf::If) {
            Err(e) => Err(e),
            Ok(p1) => if p1 <= p {
                Err(stuck())
            } else {
                match sp_paren_cond(t, p1, id) {
                    Err(e) => Err(e),
                    Ok((cond, p2, id2)) => if !moved(t, p1, p2) {
                        Err(stuck())
                    } else {
                        match sp_stmt(t, p2, id2) {
                            Err(e) => Err(e),
                            Ok((then_branch, p3, id3)) => if !moved(t, p2, p3) {
                                Err(stuck())
                            } else if is_kind(t, p3, TokenKindOf::Else) {
                                if next_pos(t, p3) <= p3 {
                                    Err(stuck())
                                } else {
                                    match sp_stmt(t, next_pos(t, p3), id3) {
                                        Err(e) => Err(e),
                                        Ok((else_branch, p4, id4)) => Ok(
                                            (
                                                SpecStmt::If {
                                                    id: id4 as int,
                                                    cond,
                                                    then_branch: Box::new(then_branch),
                                                    else_branch: Some(Box::new(else_branch)),
                                                    line: line_at(t, p),
                                                },
                                                p4,
                                                id4 + 1,
                                            ),
                                        ),
                                    }
                                }
                            } else {
                                Ok(
                                    (
                                        SpecStmt::If {
                                            id: id3 as int,
                                            cond,
                                            then_branch: Box::new(then_branch),
                                            else_branch: None,
                                            line: line_at(t, p),
                                        },
                                        p3,
                                        id3 + 1,
                                    ),
                                )
                            },
                        }
                    },
                }
            },
        }
    }
}

/// `while ( cond ) stmt`.
pub open spec fn sp_while(t: Seq<SpecToken>, p: nat, id: nat) -> Parsed<SpecStmt>
    decreases t.len() - p, 49int,
{
    if p >= t.len() {
        Err(stuck())
    } else {
        match sp_expect(t, p, TokenKindOf::While) {
            Err(e) => Err(e),
            Ok(p1) => if p1 <= p {
                Err(stuck())
            } else {
                match sp_paren_cond(t, p1, id) {
                    Err(e) => Err(e),
                    Ok((cond, p2, id2)) => if !moved(t, p1, p2) {
                        Err(stuck())
                    } else {
                        match sp_stmt(t, p2, id2) {
                            Err(e) => Err(e),
                            Ok((body, p3, id3)) => Ok(
                                (
                                    SpecStmt::While {
                                        id: id3 as int,
                                        cond,
                                        body: Box::new(body),
                                        line: line_at(t, p),
                                    },
                                    p3,
                                    id3 + 1,
                                ),
                            ),
                        }
                    },
                }
            },
        }
    }
}

/// `for ( var-decl cond ; update ) stmt`.
pub open spec fn sp_for(t: Seq<SpecToken>, p: nat, id: nat) -> Parsed<SpecStmt>
    decreases t.len() - p, 49int,
{
    if p >= t.len() {
        Err(stuck())
    } else {
        match sp_expect(t, p, TokenKindOf::For) {
            Err(e) => Err(e),
            Ok(p1) => match sp_expect(t, p1, TokenKindOf::LParen) {
                Err(e) => Err(e),
                Ok(p2) => if !moved(t, p + 1, p2) {
                    Err(stuck())
                } else {
                    match sp_var_decl_stmt(t, p2, id) {
                        Err(e) => Err(e),
                        Ok((init, p3, id3)) => if !moved(t, p2, p3) {
                            Err(stuck())
                        } else {
                            match sp_expr(t, p3, id3) {
                                Err(e) => Err(e),
                                Ok((cond, p4, id4)) => match sp_expect(t, p4, TokenKindOf::Semicolon) {
                                    Err(e) => Err(e),
                                    Ok(p5) => if !moved(t, p3, p5) {
                                        Err(stuck())
                                    } else {
                                        match sp_expr(t, p5, id4) {
                                            Err(e) => Err(e),
                                            Ok((update, p6, id6)) => match sp_expect(
                                                t,
                                                p6,
                                                TokenKindOf::RParen,
                                            ) {
                                                Err(e) => Err(e),
                                                Ok(p7) => if !moved(t, p5, p7) {
                                                    Err(stuck())
                                                } else {
                                                    match sp_stmt(t, p7, id6) {
                                                        Err(e) => Err(e),
                                                        Ok((body, p8, id8)) => Ok(
                                                            (
                                                                SpecStmt::For {
                                                                    id: id8 as int,
                                                                    init: Box::new(init),
                                                                    cond,
                                                                    update,
                                                                    body: Box::new(body),
                                                                    line: line_at(t, p),
                                                                },
                                                                p8,
                                                                id8 + 1,
                                                            ),
                                                        ),
                                                    }
                                                },
                                            },
                                        }
                                    },
                                },
                            }
                        },
                    }
                },
            },
        }
    }
}

/// `return [value];`.
pub open spec fn sp_return(t: Seq<SpecToken>, p: nat, id: nat) -> Parsed<SpecStmt>
    decreases t.len() - p, 49int,
{
    if p >= t.len() {
        Err(stuck())
    } else {
        match sp_expect(t, p, TokenKindOf::Return) {
            Err(e) => Err(e),
            Ok(p1) => if p1 <= p {
                Err(stuck())
            } else {
                let value = if is_kind(t, p1, TokenKindOf::Semicolon) {
                    Ok((None, p1, id))
                } else {
                    match sp_expr(t, p1, id) {
                        Err(e) => Err(e),
                        Ok((v, p2, id2)) => Ok((Some(v), p2, id2)),
                    }
                };
                match value {
                    Err(e) => Err(e),
                    Ok((value, p2, id2)) => match sp_expect(t, p2, TokenKindOf::Semicolon) {
                        Err(e) => Err(e),
                        Ok(p3) => Ok(
                            (SpecStmt::Return { id: id2 as int, value, line: line_at(t, p) }, p3, id2 + 1),
                        ),
                    },
                }
            },
        }
    }
}

/// An expression followed by `;`.
pub open spec fn sp_expr_stmt(t: Seq<SpecToken>, p: nat, id: nat) -> Parsed<SpecStmt>
    decreases t.len() - p, 49int,
{
    if p >= t.len() {
        Err(stuck())
    } else {
        match sp_expr(t, p, id) {
            Err(e) => Err(e),
            Ok((e, p1, id1)) => match sp_expect(t, p1, TokenKindOf::Semicolon) {
                Err(err) => Err(err),
                Ok(p2) => Ok((SpecStmt::Expr(e), p2, id1)),
            },
        }
    }
}

// ---- declarations ----

/// Comma-separated `type name` parameters, appended to `acc`.
pub open spec fn sp_params(t: Seq<SpecToken>, p: nat, acc: Seq<SpecParam>) -> Result<
    (Seq<SpecParam>, nat),
    SpecParseError,
>
    decreases t.len() - p,
{
    if p >= t.len() {
        Err(stuck())
    } else {
        match sp_type(t, p) {
            Err(e) => Err(e),
            Ok((ty, p1)) => match sp_identifier(t, p1) {
                Err(e) => Err(e),
                Ok((name, p2)) => if !moved(t, p, p2) {
                    Err(stuck())
                } else {
                    let acc2 = acc.push(SpecParam { ty, name });
                    if is_kind(t, p2, TokenKindOf::Comma) {
                        if next_pos(t, p2) <= p2 {
                            Err(stuck())
                        } else {
                            sp_params(t, next_pos(t, p2), acc2)
                        }
                    } else {
                        Ok((acc2, p2))
                    }
                },
            },
        }
    }
}

/// The parameters and body of a function, from its `(`.
pub open spec fn sp_func_decl_rest(
    t: Seq<SpecToken>,
    p: nat,
    id: nat,
    return_ty: Type,
    name: Seq<char>,
    line: int,
) -> Parsed<SpecFuncDecl>
    decreases t.len() - p, 55int,
{
    if p >= t.len() {
        Err(stuck())
    } else {
        match sp_expect(t, p, TokenKindOf::LParen) {
            Err(e) => Err(e),
            Ok(p1) => {
                let params = if is_kind(t, p1, TokenKindOf::RParen) {
                    Ok((Seq::empty(), p1))
                } else {
                    sp_params(t, p1, Seq::empty())
                };
                match params {
                    Err(e) => Err(e),
                    Ok((params, p2)) => match sp_expect(t, p2, TokenKindOf::RParen) {
                        Err(e) => Err(e),
                        Ok(p3) => if !moved(t, p, p3) {
                            Err(stuck())
                        } else {
                            match sp_block(t, p3, id) {
                                Err(e) => Err(e),
                                Ok((body, p4, id4)) => Ok(
                                    (
                                        SpecFuncDecl {
                                            id: id4 as int,
                                            name,
                                            params,
                                            return_ty,
                                            body,
                                            line,
                                        },
                                        p4,
                                        id4 + 1,
                                    ),
                                ),
                            }
                        },
                    },
                }
            },
        }
    }
}

/// A top-level declaration: `type name` then a function or a variable.
pub open spec fn sp_decl(t: Seq<SpecToken>, p: nat, id: nat) -> Parsed<SpecDecl>
    decreases t.len() - p, 60int,
{
    if p >= t.len() {
        Err(stuck())
    } else {
        match sp_type(t, p) {
            Err(e) => Err(e),
            Ok((ty, p1)) => match sp_identifier(t, p1) {
                Err(e) => Err(e),
                Ok((name, p2)) => if !moved(t, p + 1, p2) {
                    Err(stuck())
                } else if is_kind(t, p2, TokenKindOf::LParen) {
                    match sp_func_decl_rest(t, p2, id, ty, name, line_at(t, p)) {
                        Err(e) => Err(e),
                        Ok((f, p3, id3)) => Ok((SpecDecl::Func(f), p3, id3)),
                    }
                } else {
                    match sp_var_decl_rest(t, p2, id, ty, name, line_at(t, p)) {
                        Err(e) => Err(e),
                        Ok((v, p3, id3)) => Ok((SpecDecl::Var(v), p3, id3)),
                    }
                },
            },
        }
    }
}

/// Declarations up to `Eof`, appended to `acc`.
pub open spec fn sp_decls(t: Seq<SpecToken>, p: nat, id: nat, acc: Seq<SpecDecl>) -> Result<
    Seq<SpecDecl>,
    SpecParseError,
>
    decreases t.len() - p,
{
    if p >= t.len() {
        Err(stuck())
    } else if at_end(t, p) {
        Ok(acc)
    } else {
        match sp_decl(t, p, id) {
            Err(e) => Err(e),
            Ok((d, p1, id1)) => if !moved(t, p + 1, p1) {
                Err(stuck())
            } else {
                sp_decls(t, p1, id1, acc.push(d))
            },
        }
    }
}

/// The declarations of a whole token sequence.
pub open spec fn spec_parse(t: Seq<SpecToken>) -> Result<Seq<SpecDecl>, SpecParseError> {
    sp_decls(t, 0, 0, Seq::empty())
}


/// How tightly a binary operator token binds, loosest first, as the
/// language documents it: `||`; `&&`; `|`; `^`; `&`; `==` `!=`; `<` `<=`
/// `>` `>=`; `<<` `>>` `>>>`; `+` `-`; `*` `/` `%`.
pub open spec fn binding_rank(k: SpecTokenKind) -> Option<int> {
    match k {
        TokenKindOf::OrOr => Some(0),
        TokenKindOf::AndAnd => Some(1),
        TokenKindOf::Pipe => Some(2),
        TokenKindOf::Caret => Some(3),
        TokenKindOf::Amp => Some(4),
        TokenKindOf::EqEq | TokenKindOf::NotEq => Some(5),
        TokenKindOf::Lt | TokenKindOf::LtEq | TokenKindOf::Gt | TokenKindOf::GtEq => Some(6),
        TokenKindOf::Shl | TokenKindOf::Shr | TokenKindOf::UShr => Some(7),
        TokenKindOf::Plus | TokenKindOf::Minus => Some(8),
        TokenKindOf::Star | TokenKindOf::Slash | TokenKindOf::Percent => Some(9),
        _ => None,
    }
}

/// Binary operators are parsed by precedence. A level's operands are parsed
/// at the next lower level, so an operator recognised at a higher level
/// binds more loosely. Each binary operator token is recognised at exactly
/// one level, and of two operators, the one the language documents as
/// binding more tightly (such as `&&` against `||`, or `*` against `+`) is
/// recognised at a lower level; operators of equal rank share a level.
/// Tokens that are no binary operator are recognised at no level.
pub proof fn law_binary_precedence(l1: nat, k1: SpecTokenKind, l2: nat, k2: SpecTokenKind)
    ensures
        binding_rank(k1) is Some ==> level_op((10 - binding_rank(k1)->0) as nat, k1) is Some,
        binding_rank(k1) is None ==> level_op(l1, k1) is None,
        level_op(l1, k1) is Some && level_op(l2, k2) is Some ==> {
            &&& binding_rank(k1)->0 < binding_rank(k2)->0 <==> l1 > l2
            &&& binding_rank(k1)->0 == binding_rank(k2)->0 <==> l1 == l2
        },
{
}

} // verus!
