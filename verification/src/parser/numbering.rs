//! Node ids: every node of a parsed program gets an id of its own.
//!
//! The parser hands out ids from a counter as it completes nodes. Each
//! lemma here follows one grammar function and shows that the ids of what
//! it builds are pairwise distinct and lie between the counter's value
//! before and after the call.

use crate::ast::{SpecDecl, SpecExpr, SpecFuncDecl, SpecStmt, SpecVarDecl};
use crate::lexer::token::{SpecToken, TokenKindOf};
use crate::parser::grammar::{
    Parsed, stuck,
    at_end, is_kind, moved, next_pos, sp_array_creation, sp_array_literal, sp_assignment, sp_block,
    sp_call_rest, sp_decl, sp_decls, sp_expect, sp_expr, sp_expr_list, sp_expr_stmt, sp_for,
    sp_func_decl_rest, sp_identifier, sp_if, sp_level, sp_level_rest, sp_operand, sp_paren_cond,
    sp_postfix, sp_postfix_chain, sp_primary, sp_return, sp_stmt, sp_stmts, sp_ternary, sp_type,
    sp_unary, sp_var_decl_rest, sp_var_decl_stmt, sp_while, spec_parse, compound_op, kind_at, level_op,
    sp_params, sp_base_type, line_at,
};
use vstd::prelude::*;

verus! {

/// The ids of the nodes of an expression, children before parents.
pub open spec fn expr_ids(e: SpecExpr) -> Seq<int>
    decreases e,
{
    match e {
        SpecExpr::IntLiteral { id, .. } => seq![id],
        SpecExpr::FloatLiteral { id, .. } => seq![id],
        SpecExpr::BoolLiteral { id, .. } => seq![id],
        SpecExpr::StringLiteral { id, .. } => seq![id],
        SpecExpr::Null { id, .. } => seq![id],
        SpecExpr::Ident { id, .. } => seq![id],
        SpecExpr::Binary { id, left, right, .. } => (expr_ids(*left) + expr_ids(*right)).push(id),
        SpecExpr::Unary { id, operand, .. } => expr_ids(*operand).push(id),
        SpecExpr::Assign { id, target, value, .. } => (expr_ids(*target) + expr_ids(*value)).push(id),
        SpecExpr::CompoundAssign { id, target, value, .. } => (expr_ids(*target) + expr_ids(
            *value,
        )).push(id),
        SpecExpr::IncDec { id, target, .. } => expr_ids(*target).push(id),
        SpecExpr::Ternary { id, cond, then_branch, else_branch, .. } => (expr_ids(*cond) + expr_ids(
            *then_branch,
        ) + expr_ids(*else_branch)).push(id),
        SpecExpr::Call { id, args, .. } => exprs_ids(args, 0).push(id),
        SpecExpr::Index { id, array, index, .. } => (expr_ids(*array) + expr_ids(*index)).push(id),
        SpecExpr::FieldAccess { id, object, .. } => expr_ids(*object).push(id),
        SpecExpr::ArrayLiteral { id, elements, .. } => exprs_ids(elements, 0).push(id),
        SpecExpr::ArrayCreation { id, size, .. } => expr_ids(*size).push(id),
    }
}

/// The ids of the nodes of `es[i..]`.
pub open spec fn exprs_ids(es: Seq<SpecExpr>, i: int) -> Seq<int>
    decreases es, es.len() - i,
{
    if i < 0 || i >= es.len() {
        Seq::empty()
    } else {
        expr_ids(es[i]) + exprs_ids(es, i + 1)
    }
}

pub open spec fn opt_expr_ids(e: Option<SpecExpr>) -> Seq<int> {
    match e {
        Some(x) => expr_ids(x),
        None => Seq::empty(),
    }
}

pub open spec fn var_decl_ids(vd: SpecVarDecl) -> Seq<int> {
    opt_expr_ids(vd.init).push(vd.id)
}

/// The ids of the nodes of a statement, children before parents.
pub open spec fn stmt_ids(s: SpecStmt) -> Seq<int>
    decreases s,
{
    match s {
        SpecStmt::Expr(e) => expr_ids(e),
        SpecStmt::VarDecl(vd) => var_decl_ids(vd),
        SpecStmt::If { id, cond, then_branch, else_branch, .. } => (expr_ids(cond) + stmt_ids(
            *then_branch,
        ) + match else_branch {
            Some(eb) => stmt_ids(*eb),
            None => Seq::empty(),
        }).push(id),
        SpecStmt::While { id, cond, body, .. } => (expr_ids(cond) + stmt_ids(*body)).push(id),
        SpecStmt::For { id, init, cond, update, body, .. } => (stmt_ids(*init) + expr_ids(cond)
            + expr_ids(update) + stmt_ids(*body)).push(id),
        SpecStmt::Return { id, value, .. } => opt_expr_ids(value).push(id),
        SpecStmt::Block(ss) => stmts_ids(ss, 0),
    }
}

/// The ids of the nodes of `ss[i..]`.
pub open spec fn stmts_ids(ss: Seq<SpecStmt>, i: int) -> Seq<int>
    decreases ss, ss.len() - i,
{
    if i < 0 || i >= ss.len() {
        Seq::empty()
    } else {
        stmt_ids(ss[i]) + stmts_ids(ss, i + 1)
    }
}

pub open spec fn func_decl_ids(f: SpecFuncDecl) -> Seq<int> {
    stmts_ids(f.body, 0).push(f.id)
}

pub open spec fn decl_ids(d: SpecDecl) -> Seq<int> {
    match d {
        SpecDecl::Var(vd) => var_decl_ids(vd),
        SpecDecl::Func(f) => func_decl_ids(f),
    }
}

/// The ids of the nodes of the declarations `ds[i..]`, in source order.
pub open spec fn decls_ids(ds: Seq<SpecDecl>, i: int) -> Seq<int>
    decreases ds.len() - i,
{
    if i < 0 || i >= ds.len() {
        Seq::empty()
    } else {
        decl_ids(ds[i]) + decls_ids(ds, i + 1)
    }
}

/// `s` holds no id twice, and only ids from `lo` up to (not including) `hi`.
pub open spec fn numbered(s: Seq<int>, lo: int, hi: int) -> bool {
    &&& s.no_duplicates()
    &&& forall|i: int| 0 <= i < s.len() ==> lo <= #[trigger] s[i] < hi
}

proof fn lemma_join(a: Seq<int>, b: Seq<int>, lo: int, mid: int, hi: int)
    requires
        numbered(a, lo, mid),
        numbered(b, mid, hi),
        lo <= mid <= hi,
    ensures
        numbered(a + b, lo, hi),
{
    let c = a + b;
    assert forall|i: int, j: int| 0 <= i < c.len() && 0 <= j < c.len() && i != j implies c[i]
        != c[j] by {
        if i < a.len() && j >= a.len() {
            assert(c[j] == b[j - a.len()]);
        } else if j < a.len() && i >= a.len() {
            assert(c[i] == b[i - a.len()]);
        } else if i >= a.len() && j >= a.len() {
            assert(c[i] == b[i - a.len()] && c[j] == b[j - a.len()]);
        }
    }
    assert forall|i: int| 0 <= i < c.len() implies lo <= #[trigger] c[i] < hi by {
        if i >= a.len() {
            assert(c[i] == b[i - a.len()]);
        }
    }
}

proof fn lemma_push(a: Seq<int>, lo: int, x: int)
    requires
        numbered(a, lo, x),
        lo <= x,
    ensures
        numbered(a.push(x), lo, x + 1),
{
    let c = a.push(x);
    assert forall|i: int, j: int| 0 <= i < c.len() && 0 <= j < c.len() && i != j implies c[i]
        != c[j] by {
        if i < a.len() && j < a.len() {
            assert(c[i] == a[i] && c[j] == a[j]);
        } else if i < a.len() {
            assert(c[i] == a[i]);
        } else if j < a.len() {
            assert(c[j] == a[j]);
        }
    }
}

proof fn lemma_empty(lo: int, hi: int)
    ensures
        numbered(Seq::<int>::empty(), lo, hi),
{
}

proof fn lemma_exprs_push(es: Seq<SpecExpr>, e: SpecExpr, i: int)
    requires
        0 <= i <= es.len(),
    ensures
        exprs_ids(es.push(e), i) == exprs_ids(es, i) + expr_ids(e),
    decreases es.len() - i,
{
    if i < es.len() {
        lemma_exprs_push(es, e, i + 1);
        assert(es.push(e)[i] == es[i]);
        assert(exprs_ids(es.push(e), i) == expr_ids(es[i]) + (exprs_ids(es, i + 1) + expr_ids(e)));
        assert(expr_ids(es[i]) + (exprs_ids(es, i + 1) + expr_ids(e)) =~= expr_ids(es[i])
            + exprs_ids(es, i + 1) + expr_ids(e));
    } else {
        assert(es.push(e)[i] == e);
        assert(exprs_ids(es.push(e), i + 1) == Seq::<int>::empty());
        assert(expr_ids(e) + Seq::<int>::empty() =~= Seq::<int>::empty() + expr_ids(e));
    }
}

proof fn lemma_stmts_push(ss: Seq<SpecStmt>, s: SpecStmt, i: int)
    requires
        0 <= i <= ss.len(),
    ensures
        stmts_ids(ss.push(s), i) == stmts_ids(ss, i) + stmt_ids(s),
    decreases ss.len() - i,
{
    if i < ss.len() {
        lemma_stmts_push(ss, s, i + 1);
        assert(ss.push(s)[i] == ss[i]);
        assert(stmt_ids(ss[i]) + (stmts_ids(ss, i + 1) + stmt_ids(s)) =~= stmt_ids(ss[i])
            + stmts_ids(ss, i + 1) + stmt_ids(s));
    } else {
        assert(ss.push(s)[i] == s);
        assert(stmts_ids(ss.push(s), i + 1) == Seq::<int>::empty());
        assert(stmt_ids(s) + Seq::<int>::empty() =~= Seq::<int>::empty() + stmt_ids(s));
    }
}

proof fn lemma_decls_push(ds: Seq<SpecDecl>, d: SpecDecl, i: int)
    requires
        0 <= i <= ds.len(),
    ensures
        decls_ids(ds.push(d), i) == decls_ids(ds, i) + decl_ids(d),
    decreases ds.len() - i,
{
    if i < ds.len() {
        lemma_decls_push(ds, d, i + 1);
        assert(ds.push(d)[i] == ds[i]);
        assert(decl_ids(ds[i]) + (decls_ids(ds, i + 1) + decl_ids(d)) =~= decl_ids(ds[i])
            + decls_ids(ds, i + 1) + decl_ids(d));
    } else {
        assert(ds.push(d)[i] == d);
        assert(decls_ids(ds.push(d), i + 1) == Seq::<int>::empty());
        assert(decl_ids(d) + Seq::<int>::empty() =~= Seq::<int>::empty() + decl_ids(d));
    }
}


proof fn lemma_single(x: int)
    ensures
        numbered(seq![x], x, x + 1),
{
}

/// What each expression lemma shows of a parse from fresh id `id`.
pub open spec fn expr_numbered(r: Parsed<SpecExpr>, lo: nat, id: nat) -> bool {
    r matches Ok((e, p2, id2)) ==> id <= id2 && numbered(expr_ids(e), lo as int, id2 as int)
}

proof fn lemma_expr(t: Seq<SpecToken>, p: nat, id: nat)
    ensures
        expr_numbered(sp_expr(t, p, id), id, id),
    decreases t.len() - p, 40int,
{
    lemma_assignment(t, p, id);
}

proof fn lemma_assignment(t: Seq<SpecToken>, p: nat, id: nat)
    ensures
        expr_numbered(sp_assignment(t, p, id), id, id),
    decreases t.len() - p, 39int,
{
    if p < t.len() {
        lemma_ternary(t, p, id);
        if let Ok((target, p1, id1)) = sp_ternary(t, p, id) {
            let assigns = is_kind(t, p1, TokenKindOf::Eq) || compound_op(kind_at(t, p1)) is Some;
            if moved(t, p, p1) && !(next_pos(t, p1) <= p1 && assigns) && assigns {
                lemma_assignment(t, next_pos(t, p1), id1);
                if let Ok((value, p2, id2)) = sp_assignment(t, next_pos(t, p1), id1) {
                    lemma_join(expr_ids(target), expr_ids(value), id as int, id1 as int, id2 as int);
                    lemma_push(expr_ids(target) + expr_ids(value), id as int, id2 as int);
                }
            }
        }
    }
}

proof fn lemma_ternary(t: Seq<SpecToken>, p: nat, id: nat)
    ensures
        expr_numbered(sp_ternary(t, p, id), id, id),
    decreases t.len() - p, 38int,
{
    if p < t.len() {
        lemma_level(t, p, id, 10);
        if let Ok((cond, p1, id1)) = sp_level(t, p, id, 10) {
            if moved(t, p, p1) && is_kind(t, p1, TokenKindOf::Question) && next_pos(t, p1) > p1 {
                lemma_expr(t, next_pos(t, p1), id1);
                if let Ok((th, p2, id2)) = sp_expr(t, next_pos(t, p1), id1) {
                    if moved(t, next_pos(t, p1), p2) {
                        if let Ok(p3) = sp_expect(t, p2, TokenKindOf::Colon) {
                            lemma_ternary(t, p3, id2);
                            if let Ok((el, p4, id3)) = sp_ternary(t, p3, id2) {
                                let a = expr_ids(cond);
                                let b = expr_ids(th);
                                lemma_join(a, b, id as int, id1 as int, id2 as int);
                                lemma_join(a + b, expr_ids(el), id as int, id2 as int, id3 as int);
                                lemma_push(a + b + expr_ids(el), id as int, id3 as int);
                            }
                        }
                    }
                }
            }
        }
    }
}

proof fn lemma_operand(t: Seq<SpecToken>, p: nat, id: nat, level: nat)
    ensures
        expr_numbered(sp_operand(t, p, id, level), id, id),
    decreases t.len() - p, 10 + 2 * level,
{
    if level <= 1 {
        lemma_unary(t, p, id);
    } else {
        lemma_level(t, p, id, (level - 1) as nat);
    }
}

proof fn lemma_level(t: Seq<SpecToken>, p: nat, id: nat, level: nat)
    ensures
        expr_numbered(sp_level(t, p, id, level), id, id),
    decreases t.len() - p, 11 + 2 * level,
{
    if p < t.len() {
        lemma_operand(t, p, id, level);
        if let Ok((left, p1, id1)) = sp_operand(t, p, id, level) {
            if moved(t, p, p1) {
                lemma_level_rest(t, p1, id1, level, left, id);
            }
        }
    }
}

proof fn lemma_level_rest(t: Seq<SpecToken>, p: nat, id: nat, level: nat, left: SpecExpr, lo: nat)
    requires
        lo <= id,
        numbered(expr_ids(left), lo as int, id as int),
    ensures
        expr_numbered(sp_level_rest(t, p, id, level, left), lo, id),
    decreases t.len() - p, 10 + 2 * level,
{
    if p < t.len() {
        if let Some(op) = level_op(level, kind_at(t, p)) {
            let p1 = next_pos(t, p);
            if p1 > p {
                lemma_operand(t, p1, id, level);
                if let Ok((right, p2, id2)) = sp_operand(t, p1, id, level) {
                    if moved(t, p1, p2) {
                        lemma_join(expr_ids(left), expr_ids(right), lo as int, id as int, id2 as int);
                        lemma_push(expr_ids(left) + expr_ids(right), lo as int, id2 as int);
                        lemma_level_rest(
                            t,
                            p2,
                            id2 + 1,
                            level,
                            SpecExpr::Binary {
                                id: id2 as int,
                                op,
                                left: Box::new(left),
                                right: Box::new(right),
                                line: line_at(t, p),
                            },
                            lo,
                        );
                    }
                }
            }
        }
    }
}

proof fn lemma_unary(t: Seq<SpecToken>, p: nat, id: nat)
    ensures
        expr_numbered(sp_unary(t, p, id), id, id),
    decreases t.len() - p, 9int,
{
    if p < t.len() {
        if is_kind(t, p, TokenKindOf::PlusPlus) || is_kind(t, p, TokenKindOf::MinusMinus) || is_kind(
            t,
            p,
            TokenKindOf::Bang,
        ) || is_kind(t, p, TokenKindOf::Minus) || is_kind(t, p, TokenKindOf::Tilde) {
            let p1 = next_pos(t, p);
            if p1 > p {
                lemma_unary(t, p1, id);
                if let Ok((x, p2, id2)) = sp_unary(t, p1, id) {
                    lemma_push(expr_ids(x), id as int, id2 as int);
                }
            }
        } else {
            lemma_postfix(t, p, id);
        }
    }
}

proof fn lemma_postfix(t: Seq<SpecToken>, p: nat, id: nat)
    ensures
        expr_numbered(sp_postfix(t, p, id), id, id),
    decreases t.len() - p, 8int,
{
    if p < t.len() {
        lemma_primary(t, p, id);
        if let Ok((e0, p1, id1)) = sp_primary(t, p, id) {
            if moved(t, p, p1) {
                lemma_postfix_chain(t, p1, id1, e0, id);
                if let Ok((e1, p2, id2)) = sp_postfix_chain(t, p1, id1, e0) {
                    lemma_push(expr_ids(e1), id as int, id2 as int);
                }
            }
        }
    }
}

proof fn lemma_postfix_chain(t: Seq<SpecToken>, p: nat, id: nat, e: SpecExpr, lo: nat)
    requires
        lo <= id,
        numbered(expr_ids(e), lo as int, id as int),
    ensures
        expr_numbered(sp_postfix_chain(t, p, id, e), lo, id),
    decreases t.len() - p, 7int,
{
    if p < t.len() {
        let p1 = next_pos(t, p);
        if is_kind(t, p, TokenKindOf::LBracket) {
            if p1 > p {
                lemma_expr(t, p1, id);
                if let Ok((index, p2, id2)) = sp_expr(t, p1, id) {
                    if let Ok(p3) = sp_expect(t, p2, TokenKindOf::RBracket) {
                        if moved(t, p1, p3) {
                            lemma_join(expr_ids(e), expr_ids(index), lo as int, id as int, id2 as int);
                            lemma_push(expr_ids(e) + expr_ids(index), lo as int, id2 as int);
                            lemma_postfix_chain(
                                t,
                                p3,
                                id2 + 1,
                                SpecExpr::Index {
                                    id: id2 as int,
                                    array: Box::new(e),
                                    index: Box::new(index),
                                    line: line_at(t, p),
                                },
                                lo,
                            );
                        }
                    }
                }
            }
        } else if is_kind(t, p, TokenKindOf::Dot) {
            if p1 > p {
                if let Ok((field, p2)) = sp_identifier(t, p1) {
                    if moved(t, p1, p2) {
                        lemma_push(expr_ids(e), lo as int, id as int);
                        lemma_postfix_chain(
                            t,
                            p2,
                            id + 1,
                            SpecExpr::FieldAccess {
                                id: id as int,
                                object: Box::new(e),
                                field,
                                line: line_at(t, p),
                            },
                            lo,
                        );
                    }
                }
            }
        }
    }
}

proof fn lemma_primary(t: Seq<SpecToken>, p: nat, id: nat)
    ensures
        expr_numbered(sp_primary(t, p, id), id, id),
    decreases t.len() - p, 6int,
{
    if p < t.len() {
        let line = line_at(t, p);
        let p1 = next_pos(t, p);
        lemma_single(id as int);
        match kind_at(t, p) {
            TokenKindOf::New => lemma_array_creation(t, p, id),
            TokenKindOf::LBracket => lemma_array_literal(t, p, id),
            TokenKindOf::Identifier(name) => if p1 > p && is_kind(t, p1, TokenKindOf::LParen) {
                lemma_call_rest(t, p1, id, name, line);
            },
            TokenKindOf::LParen => if p1 > p {
                lemma_expr(t, p1, id);
            },
            _ => {},
        }
    }
}

proof fn lemma_array_creation(t: Seq<SpecToken>, p: nat, id: nat)
    ensures
        expr_numbered(sp_array_creation(t, p, id), id, id),
    decreases t.len() - p, 5int,
{
    if p < t.len() {
        if let Ok(p1) = sp_expect(t, p, TokenKindOf::New) {
            if let Ok((elem_ty, p2)) = sp_base_type(t, p1) {
                if let Ok(p3) = sp_expect(t, p2, TokenKindOf::LBracket) {
                    if moved(t, p + 1, p3) {
                        lemma_expr(t, p3, id);
                        if let Ok((size, p4, id4)) = sp_expr(t, p3, id) {
                            lemma_push(expr_ids(size), id as int, id4 as int);
                        }
                    }
                }
            }
        }
    }
}

/// What the list lemma shows of a list parse from fresh id `id`.
pub open spec fn list_numbered(r: Parsed<Seq<SpecExpr>>, lo: nat, id: nat) -> bool {
    r matches Ok((es, p2, id2)) ==> id <= id2 && numbered(exprs_ids(es, 0), lo as int, id2 as int)
}

proof fn lemma_expr_list(t: Seq<SpecToken>, p: nat, id: nat, acc: Seq<SpecExpr>, lo: nat)
    requires
        lo <= id,
        numbered(exprs_ids(acc, 0), lo as int, id as int),
    ensures
        list_numbered(sp_expr_list(t, p, id, acc), lo, id),
    decreases t.len() - p, 45int,
{
    if p < t.len() {
        lemma_expr(t, p, id);
        if let Ok((e, p1, id1)) = sp_expr(t, p, id) {
            if moved(t, p, p1) {
                lemma_exprs_push(acc, e, 0);
                lemma_join(exprs_ids(acc, 0), expr_ids(e), lo as int, id as int, id1 as int);
                if is_kind(t, p1, TokenKindOf::Comma) && next_pos(t, p1) > p1 {
                    lemma_expr_list(t, next_pos(t, p1), id1, acc.push(e), lo);
                }
            }
        }
    }
}

proof fn lemma_array_literal(t: Seq<SpecToken>, p: nat, id: nat)
    ensures
        expr_numbered(sp_array_literal(t, p, id), id, id),
    decreases t.len() - p, 5int,
{
    if p < t.len() {
        if let Ok(p1) = sp_expect(t, p, TokenKindOf::LBracket) {
            if p1 > p {
                lemma_empty(id as int, id as int);
                if !is_kind(t, p1, TokenKindOf::RBracket) {
                    lemma_expr_list(t, p1, id, Seq::empty(), id);
                }
                let elements = if is_kind(t, p1, TokenKindOf::RBracket) {
                    Ok((Seq::<SpecExpr>::empty(), p1, id))
                } else {
                    sp_expr_list(t, p1, id, Seq::empty())
                };
                if let Ok((elements, p2, id2)) = elements {
                    lemma_push(exprs_ids(elements, 0), id as int, id2 as int);
                }
            }
        }
    }
}

proof fn lemma_call_rest(t: Seq<SpecToken>, p: nat, id: nat, callee: Seq<char>, line: int)
    ensures
        expr_numbered(sp_call_rest(t, p, id, callee, line), id, id),
    decreases t.len() - p, 5int,
{
    if p < t.len() {
        if let Ok(p1) = sp_expect(t, p, TokenKindOf::LParen) {
            if p1 > p {
                lemma_empty(id as int, id as int);
                if !is_kind(t, p1, TokenKindOf::RParen) {
                    lemma_expr_list(t, p1, id, Seq::empty(), id);
                }
                let args = if is_kind(t, p1, TokenKindOf::RParen) {
                    Ok((Seq::<SpecExpr>::empty(), p1, id))
                } else {
                    sp_expr_list(t, p1, id, Seq::empty())
                };
                if let Ok((args, p2, id2)) = args {
                    lemma_push(exprs_ids(args, 0), id as int, id2 as int);
                }
            }
        }
    }
}


/// What each statement lemma shows of a parse from fresh id `id`.
pub open spec fn stmt_numbered(r: Parsed<SpecStmt>, id: nat) -> bool {
    r matches Ok((s, p2, id2)) ==> id <= id2 && numbered(stmt_ids(s), id as int, id2 as int)
}

pub open spec fn stmts_numbered(r: Parsed<Seq<SpecStmt>>, lo: nat, id: nat) -> bool {
    r matches Ok((ss, p2, id2)) ==> id <= id2 && numbered(stmts_ids(ss, 0), lo as int, id2 as int)
}

proof fn lemma_var_decl_rest(
    t: Seq<SpecToken>,
    p: nat,
    id: nat,
    ty: crate::ast::Type,
    name: Seq<char>,
    line: int,
)
    ensures
        sp_var_decl_rest(t, p, id, ty, name, line) matches Ok((vd, p2, id2)) ==> id <= id2
            && numbered(var_decl_ids(vd), id as int, id2 as int),
    decreases t.len() - p, 46int,
{
    if p < t.len() {
        lemma_empty(id as int, id as int);
        if is_kind(t, p, TokenKindOf::Eq) && next_pos(t, p) > p {
            lemma_expr(t, next_pos(t, p), id);
        }
        let init = if is_kind(t, p, TokenKindOf::Eq) {
            if next_pos(t, p) <= p {
                Err(stuck())
            } else {
                match sp_expr(t, next_pos(t, p), id) {
                    Err(e) => Err(e),
                    Ok((e, p1, id1)) => Ok((Some(e), p1, id1)),
                }
            }
        } else {
            Ok((None, p, id))
        };
        if let Ok((init, p1, id1)) = init {
            lemma_push(opt_expr_ids(init), id as int, id1 as int);
        }
    }
}

proof fn lemma_var_decl_stmt(t: Seq<SpecToken>, p: nat, id: nat)
    ensures
        stmt_numbered(sp_var_decl_stmt(t, p, id), id),
    decreases t.len() - p, 49int,
{
    if p < t.len() {
        if let Ok((ty, p1)) = sp_type(t, p) {
            if let Ok((name, p2)) = sp_identifier(t, p1) {
                if moved(t, p + 1, p2) {
                    lemma_var_decl_rest(t, p2, id, ty, name, line_at(t, p));
                }
            }
        }
    }
}

proof fn lemma_block(t: Seq<SpecToken>, p: nat, id: nat)
    ensures
        stmts_numbered(sp_block(t, p, id), id, id),
    decreases t.len() - p, 48int,
{
    if p < t.len() {
        if let Ok(p1) = sp_expect(t, p, TokenKindOf::LBrace) {
            if p1 > p {
                lemma_empty(id as int, id as int);
                lemma_stmts(t, p1, id, Seq::empty(), id);
            }
        }
    }
}

proof fn lemma_stmts(t: Seq<SpecToken>, p: nat, id: nat, acc: Seq<SpecStmt>, lo: nat)
    requires
        lo <= id,
        numbered(stmts_ids(acc, 0), lo as int, id as int),
    ensures
        stmts_numbered(sp_stmts(t, p, id, acc), lo, id),
    decreases t.len() - p, 52int,
{
    if p < t.len() && !(is_kind(t, p, TokenKindOf::RBrace) || at_end(t, p)) {
        lemma_stmt(t, p, id);
        if let Ok((s, p1, id1)) = sp_stmt(t, p, id) {
            if moved(t, p + 1, p1) {
                lemma_stmts_push(acc, s, 0);
                lemma_join(stmts_ids(acc, 0), stmt_ids(s), lo as int, id as int, id1 as int);
                lemma_stmts(t, p1, id1, acc.push(s), lo);
            }
        }
    }
}

proof fn lemma_stmt(t: Seq<SpecToken>, p: nat, id: nat)
    ensures
        stmt_numbered(sp_stmt(t, p, id), id),
    decreases t.len() - p, 50int,
{
    if p < t.len() {
        match kind_at(t, p) {
            TokenKindOf::LBrace => lemma_block(t, p, id),
            TokenKindOf::If => lemma_if(t, p, id),
            TokenKindOf::While => lemma_while(t, p, id),
            TokenKindOf::For => lemma_for(t, p, id),
            TokenKindOf::Return => lemma_return(t, p, id),
            TokenKindOf::Int => lemma_var_decl_stmt(t, p, id),
            TokenKindOf::Float => lemma_var_decl_stmt(t, p, id),
            TokenKindOf::Bool => lemma_var_decl_stmt(t, p, id),
            TokenKindOf::Str => lemma_var_decl_stmt(t, p, id),
            TokenKindOf::Void => lemma_var_decl_stmt(t, p, id),
            _ => lemma_expr(t, p, id),
        }
    }
}

proof fn lemma_paren_cond(t: Seq<SpecToken>, p: nat, id: nat)
    ensures
        expr_numbered(sp_paren_cond(t, p, id), id, id),
    decreases t.len() - p, 47int,
{
    if p < t.len() {
        if let Ok(p1) = sp_expect(t, p, TokenKindOf::LParen) {
            if p1 > p {
                lemma_expr(t, p1, id);
            }
        }
    }
}

proof fn lemma_if(t: Seq<SpecToken>, p: nat, id: nat)
    ensures
        stmt_numbered(sp_if(t, p, id), id),
    decreases t.len() - p, 49int,
{
    if p < t.len() {
        if let Ok(p1) = sp_expect(t, p, TokenKindOf::If) {
            if p1 > p {
                lemma_paren_cond(t, p1, id);
                if let Ok((cond, p2, id2)) = sp_paren_cond(t, p1, id) {
                    if moved(t, p1, p2) {
                        lemma_stmt(t, p2, id2);
                        if let Ok((th, p3, id3)) = sp_stmt(t, p2, id2) {
                            if moved(t, p2, p3) {
                                let a = expr_ids(cond) + stmt_ids(th);
                                lemma_join(expr_ids(cond), stmt_ids(th), id as int, id2 as int, id3 as int);
                                if is_kind(t, p3, TokenKindOf::Else) {
                                    if next_pos(t, p3) > p3 {
                                        lemma_stmt(t, next_pos(t, p3), id3);
                                        if let Ok((el, p4, id4)) = sp_stmt(t, next_pos(t, p3), id3) {
                                            lemma_join(a, stmt_ids(el), id as int, id3 as int, id4 as int);
                                            lemma_push(a + stmt_ids(el), id as int, id4 as int);
                                        }
                                    }
                                } else {
                                    assert(a + Seq::<int>::empty() =~= a);
                                    lemma_push(a, id as int, id3 as int);
                                }
                            }
                        }
                    }
                }
            }
        }
    }
}

proof fn lemma_while(t: Seq<SpecToken>, p: nat, id: nat)
    ensures
        stmt_numbered(sp_while(t, p, id), id),
    decreases t.len() - p, 49int,
{
    if p < t.len() {
        if let Ok(p1) = sp_expect(t, p, TokenKindOf::While) {
            if p1 > p {
                lemma_paren_cond(t, p1, id);
                if let Ok((cond, p2, id2)) = sp_paren_cond(t, p1, id) {
                    if moved(t, p1, p2) {
                        lemma_stmt(t, p2, id2);
                        if let Ok((body, p3, id3)) = sp_stmt(t, p2, id2) {
                            lemma_join(expr_ids(cond), stmt_ids(body), id as int, id2 as int, id3 as int);
                            lemma_push(expr_ids(cond) + stmt_ids(body), id as int, id3 as int);
                        }
                    }
                }
            }
        }
    }
}

proof fn lemma_for(t: Seq<SpecToken>, p: nat, id: nat)
    ensures
        stmt_numbered(sp_for(t, p, id), id),
    decreases t.len() - p, 49int,
{
    if p < t.len() {
        if let Ok(p1) = sp_expect(t, p, TokenKindOf::For) {
            if let Ok(p2) = sp_expect(t, p1, TokenKindOf::LParen) {
                if moved(t, p + 1, p2) {
                    lemma_var_decl_stmt(t, p2, id);
                    if let Ok((init, p3, id3)) = sp_var_decl_stmt(t, p2, id) {
                        if moved(t, p2, p3) {
                            lemma_expr(t, p3, id3);
                            if let Ok((cond, p4, id4)) = sp_expr(t, p3, id3) {
                                if let Ok(p5) = sp_expect(t, p4, TokenKindOf::Semicolon) {
                                    if moved(t, p3, p5) {
                                        lemma_expr(t, p5, id4);
                                        if let Ok((update, p6, id6)) = sp_expr(t, p5, id4) {
                                            if let Ok(p7) = sp_expect(t, p6, TokenKindOf::RParen) {
                                                if moved(t, p5, p7) {
                                                    lemma_stmt(t, p7, id6);
                                                    if let Ok((body, p8, id8)) = sp_stmt(t, p7, id6) {
                                                        let a = stmt_ids(init);
                                                        let b = a + expr_ids(cond);
                                                        let c = b + expr_ids(update);
                                                        lemma_join(a, expr_ids(cond), id as int, id3 as int, id4 as int);
                                                        lemma_join(b, expr_ids(update), id as int, id4 as int, id6 as int);
                                                        lemma_join(c, stmt_ids(body), id as int, id6 as int, id8 as int);
                                                        lemma_push(c + stmt_ids(body), id as int, id8 as int);
                                                    }
                                                }
                                            }
                                        }
                                    }
                                }
                            }
                        }
                    }
                }
            }
        }
    }
}

proof fn lemma_return(t: Seq<SpecToken>, p: nat, id: nat)
    ensures
        stmt_numbered(sp_return(t, p, id), id),
    decreases t.len() - p, 49int,
{
    if p < t.len() {
        if let Ok(p1) = sp_expect(t, p, TokenKindOf::Return) {
            if p1 > p {
                lemma_empty(id as int, id as int);
                if !is_kind(t, p1, TokenKindOf::Semicolon) {
                    lemma_expr(t, p1, id);
                }
                let value = if is_kind(t, p1, TokenKindOf::Semicolon) {
                    Ok((None, p1, id))
                } else {
                    match sp_expr(t, p1, id) {
                        Err(e) => Err(e),
                        Ok((v, p2, id2)) => Ok((Some(v), p2, id2)),
                    }
                };
                if let Ok((value, p2, id2)) = value {
                    lemma_push(opt_expr_ids(value), id as int, id2 as int);
                }
            }
        }
    }
}

proof fn lemma_func_decl_rest(
    t: Seq<SpecToken>,
    p: nat,
    id: nat,
    return_ty: crate::ast::Type,
    name: Seq<char>,
    line: int,
)
    ensures
        sp_func_decl_rest(t, p, id, return_ty, name, line) matches Ok((f, p2, id2)) ==> id <= id2
            && numbered(func_decl_ids(f), id as int, id2 as int),
    decreases t.len() - p, 55int,
{
    if p < t.len() {
        if let Ok(p1) = sp_expect(t, p, TokenKindOf::LParen) {
            let params = if is_kind(t, p1, TokenKindOf::RParen) {
                Ok((Seq::empty(), p1))
            } else {
                sp_params(t, p1, Seq::empty())
            };
            if let Ok((params, p2)) = params {
                if let Ok(p3) = sp_expect(t, p2, TokenKindOf::RParen) {
                    if moved(t, p, p3) {
                        lemma_block(t, p3, id);
                        if let Ok((body, p4, id4)) = sp_block(t, p3, id) {
                            lemma_push(stmts_ids(body, 0), id as int, id4 as int);
                        }
                    }
                }
            }
        }
    }
}

proof fn lemma_decl(t: Seq<SpecToken>, p: nat, id: nat)
    ensures
        sp_decl(t, p, id) matches Ok((d, p2, id2)) ==> id <= id2 && numbered(
            decl_ids(d),
            id as int,
            id2 as int,
        ),
    decreases t.len() - p, 60int,
{
    if p < t.len() {
        if let Ok((ty, p1)) = sp_type(t, p) {
            if let Ok((name, p2)) = sp_identifier(t, p1) {
                if moved(t, p + 1, p2) {
                    lemma_func_decl_rest(t, p2, id, ty, name, line_at(t, p));
                    lemma_var_decl_rest(t, p2, id, ty, name, line_at(t, p));
                }
            }
        }
    }
}

proof fn lemma_decls(t: Seq<SpecToken>, p: nat, id: nat, acc: Seq<SpecDecl>, lo: nat)
    requires
        lo <= id,
        numbered(decls_ids(acc, 0), lo as int, id as int),
    ensures
        sp_decls(t, p, id, acc) matches Ok(ds) ==> decls_ids(ds, 0).no_duplicates(),
    decreases t.len() - p,
{
    if p < t.len() && !at_end(t, p) {
        lemma_decl(t, p, id);
        if let Ok((d, p1, id1)) = sp_decl(t, p, id) {
            if moved(t, p + 1, p1) {
                lemma_decls_push(acc, d, 0);
                lemma_join(decls_ids(acc, 0), decl_ids(d), lo as int, id as int, id1 as int);
                lemma_decls(t, p1, id1, acc.push(d), lo);
            }
        }
    }
}

/// Every node of a parsed program has an id of its own: the ids of all
/// expressions, statements and declarations, gathered over the whole
/// program, hold no id twice. The checker's side tables, keyed by node id,
/// therefore never mix up two nodes.
pub proof fn law_node_ids_are_distinct(t: Seq<SpecToken>)
    ensures
        spec_parse(t) matches Ok(ds) ==> decls_ids(ds, 0).no_duplicates(),
{
    lemma_empty(0, 0);
    lemma_decls(t, 0, 0, Seq::empty(), 0);
}

} // verus!
