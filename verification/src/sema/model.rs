//! What the checker computes, written as functions from a checking state
//! to the next one.
//!
//! The checker walks the program once, threading a state through every
//! node: the variable scopes, the function table, the next symbol id, the
//! errors found so far and the two side tables of the result. Each function
//! here says what checking one kind of node does to that state and what
//! type, if any, it finds. The functions that return a flag say whether
//! the node returns on every path.

use crate::ast::{
    BinOp, Block, Decl, Expr, FuncDecl, NodeId, Param, Program, ReturnStmt, Stmt, Type, UnOp,
    VarDecl,
};
use crate::sema::symtab::{lookup, SpecFuncSig, Symbol, SymbolId};
use crate::sema::SpecSemaError;
use vstd::prelude::*;

verus! {

/// The checker's state as specifications speak of it.
pub struct CheckState {
    pub scopes: Seq<Map<Seq<char>, Symbol>>,
    pub funcs: Map<Seq<char>, SpecFuncSig>,
    pub next_id: SymbolId,
    pub errors: Seq<SpecSemaError>,
    pub types: Map<NodeId, Type>,
    pub var_refs: Map<NodeId, SymbolId>,
}

impl CheckState {
    pub open spec fn err(self, e: SpecSemaError) -> CheckState {
        CheckState { errors: self.errors.push(e), ..self }
    }

    pub open spec fn record(self, id: NodeId, t: Type) -> CheckState {
        CheckState { types: self.types.insert(id, t), ..self }
    }

    pub open spec fn refer(self, id: NodeId, sym: SymbolId) -> CheckState {
        CheckState { var_refs: self.var_refs.insert(id, sym), ..self }
    }

    pub open spec fn declare(self, name: Seq<char>, ty: Type) -> CheckState {
        CheckState {
            scopes: self.scopes.update(
                self.scopes.len() - 1,
                self.scopes.last().insert(name, Symbol { id: self.next_id, ty }),
            ),
            next_id: ((self.next_id + 1) % 0x1_0000_0000) as SymbolId,
            ..self
        }
    }

    pub open spec fn push_scope(self) -> CheckState {
        CheckState { scopes: self.scopes.push(Map::empty()), ..self }
    }

    pub open spec fn pop_scope(self) -> CheckState {
        CheckState { scopes: self.scopes.drop_last(), ..self }
    }

    pub open spec fn declare_func(self, name: Seq<char>, sig: SpecFuncSig) -> CheckState {
        CheckState { funcs: self.funcs.insert(name, sig), ..self }
    }
}

/// How a type is written in error messages.
pub open spec fn type_text(t: Type) -> Seq<char>
    decreases t,
{
    match t {
        Type::Int => "Int"@,
        Type::Float => "Float"@,
        Type::Bool => "Bool"@,
        Type::Str => "Str"@,
        Type::Void => "Void"@,
        Type::Array(e) => "Array("@ + type_text(*e) + ")"@,
    }
}

pub open spec fn mismatch(expected: Seq<char>, found: Seq<char>, line: usize) -> SpecSemaError {
    SpecSemaError::TypeMismatch { expected, found, line }
}

pub open spec fn is_lvalue_spec(e: Expr) -> bool {
    e is Ident || e is Index
}

pub open spec fn sig_of(params: Seq<Type>, return_ty: Type) -> SpecFuncSig {
    SpecFuncSig { params, return_ty }
}

/// The type rule of a binary operator on operand types `lt` and `rt`.
pub open spec fn sc_combine(st: CheckState, op: BinOp, lt: Type, rt: Type, line: usize) -> (
    CheckState,
    Option<Type>,
) {
    match op {
        BinOp::Add | BinOp::Sub | BinOp::Mul | BinOp::Div | BinOp::Mod => {
            if lt == Type::Int && rt == Type::Int {
                (st, Some(Type::Int))
            } else if lt == Type::Float && rt == Type::Float {
                (st, Some(Type::Float))
            } else if op == BinOp::Add && lt == Type::Str && rt == Type::Str {
                (st, Some(Type::Str))
            } else {
                (st.err(mismatch(type_text(lt), type_text(rt), line)), None)
            }
        },
        BinOp::BitAnd | BinOp::BitOr | BinOp::BitXor | BinOp::Shl | BinOp::Shr | BinOp::UShr => {
            if lt == Type::Int && rt == Type::Int {
                (st, Some(Type::Int))
            } else {
                (st.err(mismatch("Int"@, type_text(lt) + "/"@ + type_text(rt), line)), None)
            }
        },
        BinOp::Lt | BinOp::LtEq | BinOp::Gt | BinOp::GtEq => {
            if (lt == Type::Int && rt == Type::Int) || (lt == Type::Float && rt == Type::Float) {
                (st, Some(Type::Bool))
            } else {
                (st.err(mismatch(type_text(lt), type_text(rt), line)), None)
            }
        },
        BinOp::Eq | BinOp::NotEq => {
            if lt == rt {
                (st, Some(Type::Bool))
            } else {
                (st.err(mismatch(type_text(lt), type_text(rt), line)), None)
            }
        },
        BinOp::And | BinOp::Or => {
            if lt == Type::Bool && rt == Type::Bool {
                (st, Some(Type::Bool))
            } else {
                (st.err(mismatch("Bool"@, type_text(lt) + "/"@ + type_text(rt), line)), None)
            }
        },
    }
}

/// The type rule of a unary operator on an operand of type `ty`.
pub open spec fn sc_unary_rule(st: CheckState, op: UnOp, ty: Type, line: usize) -> (
    CheckState,
    Option<Type>,
) {
    match op {
        UnOp::Neg => {
            if ty == Type::Int || ty == Type::Float {
                (st, Some(ty))
            } else {
                (st.err(mismatch("Int or Float"@, type_text(ty), line)), None)
            }
        },
        UnOp::Not => {
            if ty == Type::Bool {
                (st, Some(Type::Bool))
            } else {
                (st.err(mismatch("Bool"@, type_text(ty), line)), None)
            }
        },
        UnOp::BitNot => {
            if ty == Type::Int {
                (st, Some(Type::Int))
            } else {
                (st.err(mismatch("Int"@, type_text(ty), line)), None)
            }
        },
    }
}

/// Checking an expression: the new state and the expression's type, which
/// is recorded under the expression's id when there is one.
pub open spec fn sc_expr(st: CheckState, e: Expr) -> (CheckState, Option<Type>)
    decreases e, 2int,
{
    let (s1, ty) = match e {
        Expr::IntLiteral { .. } => (st, Some(Type::Int)),
        Expr::FloatLiteral { .. } => (st, Some(Type::Float)),
        Expr::BoolLiteral { .. } => (st, Some(Type::Bool)),
        Expr::StringLiteral { .. } => (st, Some(Type::Str)),
        Expr::Null { .. } => (st, Some(Type::Void)),
        Expr::Ident { id, name, line } => match lookup(st.scopes, name@) {
            Some(sym) => (st.refer(id, sym.id), Some(sym.ty)),
            None => (st.err(SpecSemaError::UndeclaredIdentifier { name: name@, line }), None),
        },
        Expr::Binary { .. } => sc_binary(st, e),
        Expr::Unary { .. } => sc_unary(st, e),
        Expr::Assign { .. } => sc_assign(st, e),
        Expr::CompoundAssign { .. } => sc_compound(st, e),
        Expr::IncDec { .. } => sc_inc_dec(st, e),
        Expr::Ternary { .. } => sc_ternary(st, e),
        Expr::Call { .. } => sc_call(st, e),
        Expr::Index { .. } => sc_index(st, e),
        Expr::FieldAccess { .. } => sc_field(st, e),
        Expr::ArrayLiteral { .. } => sc_array_literal(st, e),
        Expr::ArrayCreation { .. } => sc_array_creation(st, e),
    };
    match ty {
        Some(t) => (s1.record(e.spec_id(), t), Some(t)),
        None => (s1, None),
    }
}

/// Checking an expression against the type its context expects.
pub open spec fn sc_expr_against(st: CheckState, e: Expr, expected: Type) -> (
    CheckState,
    Option<Type>,
)
    decreases e, 3int,
{
    match e {
        Expr::ArrayLiteral { id, elements, line } => match expected {
            Type::Array(el) => {
                let (s1, ok) = sc_against_from(
                    st,
                    elements@,
                    Seq::new(elements@.len(), |i: int| *el),
                    0,
                    true,
                );
                if ok {
                    (s1.record(id, expected), Some(expected))
                } else {
                    (s1, None)
                }
            },
            _ => (st.err(mismatch(type_text(expected), "array literal"@, line)), None),
        },
        _ => {
            let (s1, a) = sc_expr(st, e);
            match a {
                None => (s1, None),
                Some(at) => if at == expected {
                    (s1, Some(at))
                } else {
                    (s1.err(mismatch(type_text(expected), type_text(at), e.spec_line())), None)
                },
            }
        },
    }
}

/// Checking `es[i..]` against `tys[i..]` in turn; the flag stays true while
/// every one of them checks.
pub open spec fn sc_against_from(
    st: CheckState,
    es: Seq<Expr>,
    tys: Seq<Type>,
    i: int,
    ok: bool,
) -> (CheckState, bool)
    decreases es, es.len() - i,
{
    if i < 0 || i >= es.len() || i >= tys.len() {
        (st, ok)
    } else {
        let (s1, t) = sc_expr_against(st, es[i], tys[i]);
        sc_against_from(s1, es, tys, i + 1, ok && t is Some)
    }
}

/// Checking `es[i..]` in turn, for their effect on the state alone.
pub open spec fn sc_exprs_from(st: CheckState, es: Seq<Expr>, i: int) -> CheckState
    decreases es, es.len() - i,
{
    if i < 0 || i >= es.len() {
        st
    } else {
        sc_exprs_from(sc_expr(st, es[i]).0, es, i + 1)
    }
}

pub open spec fn sc_binary(st: CheckState, e: Expr) -> (CheckState, Option<Type>)
    decreases e, 1int,
{
    match e {
        Expr::Binary { op, left, right, line, .. } => {
            let (s1, lt) = sc_expr(st, *left);
            let (s2, rt) = sc_expr(s1, *right);
            if lt is Some && rt is Some {
                sc_combine(s2, op, lt->0, rt->0, line)
            } else {
                (s2, None)
            }
        },
        _ => (st, None),
    }
}

pub open spec fn sc_unary(st: CheckState, e: Expr) -> (CheckState, Option<Type>)
    decreases e, 1int,
{
    match e {
        Expr::Unary { op, operand, line, .. } => {
            let (s1, t) = sc_expr(st, *operand);
            match t {
                None => (s1, None),
                Some(ty) => sc_unary_rule(s1, op, ty, line),
            }
        },
        _ => (st, None),
    }
}

pub open spec fn sc_assign(st: CheckState, e: Expr) -> (CheckState, Option<Type>)
    decreases e, 1int,
{
    match e {
        Expr::Assign { target, value, line, .. } => {
            if !is_lvalue_spec(*target) {
                let s1 = st.err(SpecSemaError::InvalidAssignTarget { line });
                let s2 = sc_expr(s1, *target).0;
                (sc_expr(s2, *value).0, None)
            } else {
                let (s1, t) = sc_expr(st, *target);
                match t {
                    None => (s1, None),
                    Some(tt) => sc_expr_against(s1, *value, tt),
                }
            }
        },
        _ => (st, None),
    }
}

pub open spec fn sc_compound(st: CheckState, e: Expr) -> (CheckState, Option<Type>)
    decreases e, 1int,
{
    match e {
        Expr::CompoundAssign { op, target, value, line, .. } => {
            if !is_lvalue_spec(*target) {
                let s1 = st.err(SpecSemaError::InvalidAssignTarget { line });
                let s2 = sc_expr(s1, *target).0;
                (sc_expr(s2, *value).0, None)
            } else {
                let (s1, t) = sc_expr(st, *target);
                match t {
                    None => (s1, None),
                    Some(tt) => {
                        let (s2, v) = sc_expr(s1, *value);
                        match v {
                            None => (s2, None),
                            Some(vt) => {
                                let (s3, c) = sc_combine(s2, op, tt, vt, line);
                                match c {
                                    None => (s3, None),
                                    Some(ct) => if ct == tt {
                                        (s3, Some(ct))
                                    } else {
                                        (
                                            s3.err(mismatch(type_text(tt), type_text(ct), line)),
                                            None,
                                        )
                                    },
                                }
                            },
                        }
                    },
                }
            }
        },
        _ => (st, None),
    }
}

pub open spec fn sc_inc_dec(st: CheckState, e: Expr) -> (CheckState, Option<Type>)
    decreases e, 1int,
{
    match e {
        Expr::IncDec { target, line, .. } => {
            if !is_lvalue_spec(*target) {
                let s1 = st.err(SpecSemaError::InvalidAssignTarget { line });
                (sc_expr(s1, *target).0, None)
            } else {
                let (s1, t) = sc_expr(st, *target);
                match t {
                    None => (s1, None),
                    Some(tt) => if tt == Type::Int || tt == Type::Float {
                        (s1, Some(tt))
                    } else {
                        (s1.err(mismatch("Int or Float"@, type_text(tt), line)), None)
                    },
                }
            }
        },
        _ => (st, None),
    }
}

/// The type of a conditional expression from the types of its branches.
pub open spec fn ternary_rule(st: CheckState, t: Option<Type>, e: Option<Type>, line: usize) -> (
    CheckState,
    Option<Type>,
) {
    if t is Some && e is Some {
        let (a, b) = (t->0, e->0);
        if a == Type::Void || b == Type::Void {
            (st.err(mismatch("a non-void type in both branches"@, "Void"@, line)), None)
        } else if a == b {
            (st, Some(a))
        } else {
            (st.err(mismatch(type_text(a), type_text(b), line)), None)
        }
    } else {
        (st, None)
    }
}

pub open spec fn sc_ternary(st: CheckState, e: Expr) -> (CheckState, Option<Type>)
    decreases e, 1int,
{
    match e {
        Expr::Ternary { cond, then_branch, else_branch, line, .. } => {
            let (s1, ct) = sc_expr(st, *cond);
            let s2 = match ct {
                Some(c) => if c != Type::Bool {
                    s1.err(SpecSemaError::NonBoolCondition { found: type_text(c), line })
                } else {
                    s1
                },
                None => s1,
            };
            let (s3, t) = sc_expr(s2, *then_branch);
            let (s4, el) = sc_expr(s3, *else_branch);
            ternary_rule(s4, t, el, line)
        },
        _ => (st, None),
    }
}

pub open spec fn sc_call(st: CheckState, e: Expr) -> (CheckState, Option<Type>)
    decreases e, 1int,
{
    match e {
        Expr::Call { callee, args, line, .. } => {
            if callee@ == "print"@ {
                if args@.len() != 1 {
                    let s1 = st.err(
                        SpecSemaError::ArityMismatch {
                            name: "print"@,
                            expected: 1,
                            found: args@.len(),
                            line,
                        },
                    );
                    (sc_exprs_from(s1, args@, 0), None)
                } else {
                    (sc_expr(st, args@[0]).0, Some(Type::Void))
                }
            } else if !st.funcs.contains_key(callee@) {
                let s1 = st.err(SpecSemaError::UndeclaredFunction { name: callee@, line });
                (sc_exprs_from(s1, args@, 0), None)
            } else {
                let sig = st.funcs[callee@];
                if args@.len() != sig.params.len() {
                    let s1 = st.err(
                        SpecSemaError::ArityMismatch {
                            name: callee@,
                            expected: sig.params.len(),
                            found: args@.len(),
                            line,
                        },
                    );
                    (sc_exprs_from(s1, args@, 0), None)
                } else {
                    let (s1, ok) = sc_against_from(st, args@, sig.params, 0, true);
                    if ok {
                        (s1, Some(sig.return_ty))
                    } else {
                        (s1, None)
                    }
                }
            }
        },
        _ => (st, None),
    }
}

pub open spec fn sc_index(st: CheckState, e: Expr) -> (CheckState, Option<Type>)
    decreases e, 1int,
{
    match e {
        Expr::Index { array, index, line, .. } => {
            let (s1, at) = sc_expr(st, *array);
            let (s2, it) = sc_expr(s1, *index);
            let s3 = match at {
                Some(a) => if a is Array {
                    s2
                } else {
                    s2.err(SpecSemaError::NotIndexable { found: type_text(a), line })
                },
                None => s2,
            };
            let s4 = match it {
                Some(i) => if i == Type::Int {
                    s3
                } else {
                    s3.err(mismatch("Int"@, type_text(i), line))
                },
                None => s3,
            };
            if at is Some && at->0 is Array && it == Some(Type::Int) {
                (s4, Some(*(at->0->0)))
            } else {
                (s4, None)
            }
        },
        _ => (st, None),
    }
}

pub open spec fn sc_field(st: CheckState, e: Expr) -> (CheckState, Option<Type>)
    decreases e, 1int,
{
    match e {
        Expr::FieldAccess { object, field, line, .. } => {
            let (s1, ot) = sc_expr(st, *object);
            match ot {
                None => (s1, None),
                Some(t) => if (t is Array || t == Type::Str) && field@ == "length"@ {
                    (s1, Some(Type::Int))
                } else {
                    (
                        s1.err(
                            SpecSemaError::UnknownField { name: type_text(t), field: field@, line },
                        ),
                        None,
                    )
                },
            }
        },
        _ => (st, None),
    }
}

pub open spec fn sc_array_literal(st: CheckState, e: Expr) -> (CheckState, Option<Type>)
    decreases e, 1int,
{
    match e {
        Expr::ArrayLiteral { elements, line, .. } => {
            if elements@.len() == 0 {
                (
                    st.err(mismatch("a known element type"@, "empty array literal"@, line)),
                    None,
                )
            } else {
                let (s1, ft) = sc_expr(st, elements@[0]);
                match ft {
                    None => (s1, None),
                    Some(f) => {
                        let (s2, ok) = sc_against_from(
                            s1,
                            elements@,
                            Seq::new(elements@.len(), |i: int| f),
                            1,
                            true,
                        );
                        if ok {
                            (s2, Some(Type::Array(Box::new(f))))
                        } else {
                            (s2, None)
                        }
                    },
                }
            }
        },
        _ => (st, None),
    }
}

pub open spec fn sc_array_creation(st: CheckState, e: Expr) -> (CheckState, Option<Type>)
    decreases e, 1int,
{
    match e {
        Expr::ArrayCreation { elem_ty, size, line, .. } => {
            let (s1, t) = sc_expr(st, *size);
            match t {
                Some(ty) => if ty == Type::Int {
                    (s1, Some(Type::Array(Box::new(elem_ty))))
                } else {
                    (s1.err(mismatch("Int"@, type_text(ty), line)), None)
                },
                None => (s1, None),
            }
        },
        _ => (st, None),
    }
}

// ---- statements ----

/// Declaring a variable where it stands: a duplicate in the same scope is
/// reported, the initializer is checked against the declared type, and the
/// name is declared either way.
pub open spec fn sc_declare_local(st: CheckState, vd: VarDecl) -> CheckState {
    let s1 = if st.scopes.last().contains_key(vd.name@) {
        st.err(SpecSemaError::DuplicateDeclaration { name: vd.name@, line: vd.line })
    } else {
        st
    };
    let s2 = match vd.init {
        Some(init) => sc_expr_against(s1, init, vd.ty).0,
        None => s1,
    };
    s2.declare(vd.name@, vd.ty)
}

pub open spec fn sc_condition(st: CheckState, cond: Expr) -> CheckState {
    let (s1, t) = sc_expr(st, cond);
    match t {
        Some(ty) => if ty != Type::Bool {
            s1.err(SpecSemaError::NonBoolCondition { found: type_text(ty), line: cond.spec_line() })
        } else {
            s1
        },
        None => s1,
    }
}

pub open spec fn sc_return(st: CheckState, r: ReturnStmt, ret: Type) -> CheckState {
    match r.value {
        None => if ret == Type::Void {
            st
        } else {
            st.err(mismatch(type_text(ret), "nothing"@, r.line))
        },
        Some(v) => if ret == Type::Void {
            sc_expr(st, v).0.err(mismatch("Void"@, "a value"@, r.line))
        } else {
            sc_expr_against(st, v, ret).0
        },
    }
}

/// Checking a statement of a function returning `ret`: the new state, and
/// whether the statement all_return on every path.
pub open spec fn sc_stmt(st: CheckState, s: Stmt, ret: Type) -> (CheckState, bool)
    decreases s, 1int,
{
    match s {
        Stmt::Expr(e) => (sc_expr(st, e).0, false),
        Stmt::VarDecl(vd) => (sc_declare_local(st, vd), false),
        Stmt::Block(b) => {
            let (s1, r) = sc_block_from(st.push_scope(), b.stmts@, 0, ret, false);
            (s1.pop_scope(), r)
        },
        Stmt::If(i) => {
            let s1 = sc_condition(st, i.cond);
            let (s2, t) = sc_scoped(s1, *i.then_branch, ret);
            match i.else_branch {
                Some(eb) => {
                    let (s3, el) = sc_scoped(s2, *eb, ret);
                    (s3, t && el)
                },
                None => (s2, false),
            }
        },
        Stmt::While(w) => {
            let s1 = sc_condition(st, w.cond);
            (sc_scoped(s1, *w.body, ret).0, false)
        },
        Stmt::For(f) => {
            let s1 = sc_stmt(st.push_scope(), *f.init, ret).0;
            let s2 = sc_condition(s1, f.cond);
            let s3 = sc_expr(s2, f.update).0;
            let s4 = sc_scoped(s3, *f.body, ret).0;
            (s4.pop_scope(), false)
        },
        Stmt::Return(r) => (sc_return(st, r, ret), true),
    }
}

/// A branch or loop body gets a scope of its own unless it is a block,
/// which opens one itself.
pub open spec fn sc_scoped(st: CheckState, s: Stmt, ret: Type) -> (CheckState, bool)
    decreases s, 2int,
{
    if s is Block {
        sc_stmt(st, s, ret)
    } else {
        let (s1, r) = sc_stmt(st.push_scope(), s, ret);
        (s1.pop_scope(), r)
    }
}

/// Checking `stmts[i..]` in turn; the flag records whether any of them
/// all_return on every path.
pub open spec fn sc_block_from(st: CheckState, stmts: Seq<Stmt>, i: int, ret: Type, acc: bool) -> (
    CheckState,
    bool,
)
    decreases stmts, stmts.len() - i,
{
    if i < 0 || i >= stmts.len() {
        (st, acc)
    } else {
        let (s1, r) = sc_stmt(st, stmts[i], ret);
        sc_block_from(s1, stmts, i + 1, ret, acc || r)
    }
}

pub open spec fn sc_params_from(st: CheckState, ps: Seq<Param>, i: int) -> CheckState
    decreases ps.len() - i,
{
    if i < 0 || i >= ps.len() {
        st
    } else {
        sc_params_from(st.declare(ps[i].name@, ps[i].ty), ps, i + 1)
    }
}

pub open spec fn sc_func(st: CheckState, f: FuncDecl) -> CheckState {
    let s1 = sc_params_from(st.push_scope(), f.params@, 0);
    let (s2, r) = sc_block_from(s1, f.body.stmts@, 0, f.return_ty, false);
    let s3 = if f.return_ty != Type::Void && !r {
        s2.err(SpecSemaError::MissingReturn { line: f.line })
    } else {
        s2
    };
    s3.pop_scope()
}

pub open spec fn param_types(ps: Seq<Param>) -> Seq<Type> {
    ps.map_values(|p: Param| p.ty)
}

/// The first pass: every function's signature, in source order; a second
/// function of a name already taken is reported and left out.
pub open spec fn sc_hoist_from(st: CheckState, decls: Seq<Decl>, i: int) -> CheckState
    decreases decls.len() - i,
{
    if i < 0 || i >= decls.len() {
        st
    } else {
        match decls[i] {
            Decl::Func(f) => if st.funcs.contains_key(f.name@) {
                sc_hoist_from(
                    st.err(SpecSemaError::DuplicateDeclaration { name: f.name@, line: f.line }),
                    decls,
                    i + 1,
                )
            } else {
                sc_hoist_from(
                    st.declare_func(f.name@, sig_of(param_types(f.params@), f.return_ty)),
                    decls,
                    i + 1,
                )
            },
            Decl::Var(_) => sc_hoist_from(st, decls, i + 1),
        }
    }
}

/// The second pass: global variables and function bodies in source order.
pub open spec fn sc_bodies_from(st: CheckState, decls: Seq<Decl>, i: int) -> CheckState
    decreases decls.len() - i,
{
    if i < 0 || i >= decls.len() {
        st
    } else {
        match decls[i] {
            Decl::Var(vd) => sc_bodies_from(sc_declare_local(st, vd), decls, i + 1),
            Decl::Func(f) => sc_bodies_from(sc_func(st, f), decls, i + 1),
        }
    }
}

/// The string builtins, declared before the program's own functions.
pub open spec fn builtin_funcs() -> Map<Seq<char>, SpecFuncSig> {
    Map::empty().insert("length"@, sig_of(seq![Type::Str], Type::Int)).insert(
        "charAt"@,
        sig_of(seq![Type::Str, Type::Int], Type::Str),
    ).insert("substring"@, sig_of(seq![Type::Str, Type::Int, Type::Int], Type::Str))
}

pub open spec fn initial_state() -> CheckState {
    CheckState {
        scopes: seq![Map::empty()],
        funcs: builtin_funcs(),
        next_id: 0,
        errors: Seq::empty(),
        types: Map::empty(),
        var_refs: Map::empty(),
    }
}

/// Whether the program declares `void main()`.
pub open spec fn has_valid_main(st: CheckState) -> bool {
    &&& st.funcs.contains_key("main"@)
    &&& st.funcs["main"@].params.len() == 0
    &&& st.funcs["main"@].return_ty == Type::Void
}

/// Checking a whole program: the state after both passes.
pub open spec fn spec_check(p: Program) -> CheckState {
    let s1 = sc_hoist_from(initial_state(), p.decls@, 0);
    let s2 = if has_valid_main(s1) {
        s1
    } else {
        s1.err(SpecSemaError::MissingMain)
    };
    sc_bodies_from(s2, p.decls@, 0)
}

// ---- laws ----

/// `b` holds every error of `a`, in the same places, and perhaps more after
/// them.
pub open spec fn keeps(a: Seq<SpecSemaError>, b: Seq<SpecSemaError>) -> bool {
    a.len() <= b.len() && forall|i: int| 0 <= i < a.len() ==> #[trigger] b[i] == a[i]
}

/// `b` keeps the errors of `a`, and none of the errors it adds reports a
/// missing `main`: only the check between the two passes reports that.
pub open spec fn extends(a: Seq<SpecSemaError>, b: Seq<SpecSemaError>) -> bool {
    &&& keeps(a, b)
    &&& forall|i: int| a.len() <= i < b.len() ==> !(#[trigger] b[i] is MissingMain)
}

proof fn lemma_combine(st: CheckState, op: BinOp, lt: Type, rt: Type, line: usize)
    ensures
        extends(st.errors, sc_combine(st, op, lt, rt, line).0.errors),
        sc_combine(st, op, lt, rt, line).0.scopes == st.scopes,
{
}

proof fn lemma_expr(st: CheckState, e: Expr)
    ensures
        extends(st.errors, sc_expr(st, e).0.errors),
        sc_expr(st, e).0.scopes == st.scopes,
    decreases e, 2int,
{
    match e {
        Expr::Binary { .. } => lemma_binary(st, e),
        Expr::Unary { .. } => lemma_unary(st, e),
        Expr::Assign { .. } => lemma_assign(st, e),
        Expr::CompoundAssign { .. } => lemma_compound(st, e),
        Expr::IncDec { .. } => lemma_inc_dec(st, e),
        Expr::Ternary { .. } => lemma_ternary(st, e),
        Expr::Call { .. } => lemma_call(st, e),
        Expr::Index { .. } => lemma_index(st, e),
        Expr::FieldAccess { .. } => lemma_field(st, e),
        Expr::ArrayLiteral { .. } => lemma_array_literal(st, e),
        Expr::ArrayCreation { .. } => lemma_array_creation(st, e),
        _ => {},
    }
}

proof fn lemma_expr_against(st: CheckState, e: Expr, expected: Type)
    ensures
        extends(st.errors, sc_expr_against(st, e, expected).0.errors),
        sc_expr_against(st, e, expected).0.scopes == st.scopes,
    decreases e, 3int,
{
    match e {
        Expr::ArrayLiteral { elements, .. } => match expected {
            Type::Array(el) => {
                lemma_against_from(st, elements@, Seq::new(elements@.len(), |i: int| *el), 0, true);
            },
            _ => {},
        },
        _ => lemma_expr(st, e),
    }
}

proof fn lemma_against_from(st: CheckState, es: Seq<Expr>, tys: Seq<Type>, i: int, ok: bool)
    ensures
        extends(st.errors, sc_against_from(st, es, tys, i, ok).0.errors),
        sc_against_from(st, es, tys, i, ok).0.scopes == st.scopes,
    decreases es, es.len() - i,
{
    if !(i < 0 || i >= es.len() || i >= tys.len()) {
        lemma_expr_against(st, es[i], tys[i]);
        let (s1, t) = sc_expr_against(st, es[i], tys[i]);
        lemma_against_from(s1, es, tys, i + 1, ok && t is Some);
    }
}

proof fn lemma_exprs_from(st: CheckState, es: Seq<Expr>, i: int)
    ensures
        extends(st.errors, sc_exprs_from(st, es, i).errors),
        sc_exprs_from(st, es, i).scopes == st.scopes,
    decreases es, es.len() - i,
{
    if !(i < 0 || i >= es.len()) {
        lemma_expr(st, es[i]);
        lemma_exprs_from(sc_expr(st, es[i]).0, es, i + 1);
    }
}

proof fn lemma_binary(st: CheckState, e: Expr)
    ensures
        extends(st.errors, sc_binary(st, e).0.errors),
        sc_binary(st, e).0.scopes == st.scopes,
    decreases e, 1int,
{
    match e {
        Expr::Binary { op, left, right, line, .. } => {
            lemma_expr(st, *left);
            let (s1, lt) = sc_expr(st, *left);
            lemma_expr(s1, *right);
            let (s2, rt) = sc_expr(s1, *right);
            if lt is Some && rt is Some {
                lemma_combine(s2, op, lt->0, rt->0, line);
            }
        },
        _ => {},
    }
}

proof fn lemma_unary(st: CheckState, e: Expr)
    ensures
        extends(st.errors, sc_unary(st, e).0.errors),
        sc_unary(st, e).0.scopes == st.scopes,
    decreases e, 1int,
{
    match e {
        Expr::Unary { operand, .. } => lemma_expr(st, *operand),
        _ => {},
    }
}

proof fn lemma_assign(st: CheckState, e: Expr)
    ensures
        extends(st.errors, sc_assign(st, e).0.errors),
        sc_assign(st, e).0.scopes == st.scopes,
    decreases e, 1int,
{
    match e {
        Expr::Assign { target, value, line, .. } => {
            if !is_lvalue_spec(*target) {
                let s1 = st.err(SpecSemaError::InvalidAssignTarget { line });
                lemma_expr(s1, *target);
                lemma_expr(sc_expr(s1, *target).0, *value);
            } else {
                lemma_expr(st, *target);
                let (s1, t) = sc_expr(st, *target);
                if t is Some {
                    lemma_expr_against(s1, *value, t->0);
                }
            }
        },
        _ => {},
    }
}

proof fn lemma_compound(st: CheckState, e: Expr)
    ensures
        extends(st.errors, sc_compound(st, e).0.errors),
        sc_compound(st, e).0.scopes == st.scopes,
    decreases e, 1int,
{
    match e {
        Expr::CompoundAssign { op, target, value, line, .. } => {
            if !is_lvalue_spec(*target) {
                let s1 = st.err(SpecSemaError::InvalidAssignTarget { line });
                lemma_expr(s1, *target);
                lemma_expr(sc_expr(s1, *target).0, *value);
            } else {
                lemma_expr(st, *target);
                let (s1, t) = sc_expr(st, *target);
                if t is Some {
                    lemma_expr(s1, *value);
                    let (s2, v) = sc_expr(s1, *value);
                    if v is Some {
                        lemma_combine(s2, op, t->0, v->0, line);
                    }
                }
            }
        },
        _ => {},
    }
}

proof fn lemma_inc_dec(st: CheckState, e: Expr)
    ensures
        extends(st.errors, sc_inc_dec(st, e).0.errors),
        sc_inc_dec(st, e).0.scopes == st.scopes,
    decreases e, 1int,
{
    match e {
        Expr::IncDec { target, line, .. } => {
            if !is_lvalue_spec(*target) {
                lemma_expr(st.err(SpecSemaError::InvalidAssignTarget { line }), *target);
            } else {
                lemma_expr(st, *target);
            }
        },
        _ => {},
    }
}

proof fn lemma_ternary(st: CheckState, e: Expr)
    ensures
        extends(st.errors, sc_ternary(st, e).0.errors),
        sc_ternary(st, e).0.scopes == st.scopes,
    decreases e, 1int,
{
    match e {
        Expr::Ternary { cond, then_branch, else_branch, line, .. } => {
            lemma_expr(st, *cond);
            let (s1, ct) = sc_expr(st, *cond);
            let s2 = match ct {
                Some(c) => if c != Type::Bool {
                    s1.err(SpecSemaError::NonBoolCondition { found: type_text(c), line })
                } else {
                    s1
                },
                None => s1,
            };
            lemma_expr(s2, *then_branch);
            let (s3, t) = sc_expr(s2, *then_branch);
            lemma_expr(s3, *else_branch);
        },
        _ => {},
    }
}

proof fn lemma_call(st: CheckState, e: Expr)
    ensures
        extends(st.errors, sc_call(st, e).0.errors),
        sc_call(st, e).0.scopes == st.scopes,
    decreases e, 1int,
{
    match e {
        Expr::Call { callee, args, line, .. } => {
            if callee@ == "print"@ {
                if args@.len() != 1 {
                    let s1 = st.err(
                        SpecSemaError::ArityMismatch {
                            name: "print"@,
                            expected: 1,
                            found: args@.len(),
                            line,
                        },
                    );
                    lemma_exprs_from(s1, args@, 0);
                } else {
                    lemma_expr(st, args@[0]);
                }
            } else if !st.funcs.contains_key(callee@) {
                lemma_exprs_from(
                    st.err(SpecSemaError::UndeclaredFunction { name: callee@, line }),
                    args@,
                    0,
                );
            } else {
                let sig = st.funcs[callee@];
                if args@.len() != sig.params.len() {
                    let s1 = st.err(
                        SpecSemaError::ArityMismatch {
                            name: callee@,
                            expected: sig.params.len(),
                            found: args@.len(),
                            line,
                        },
                    );
                    lemma_exprs_from(s1, args@, 0);
                } else {
                    lemma_against_from(st, args@, sig.params, 0, true);
                }
            }
        },
        _ => {},
    }
}

proof fn lemma_index(st: CheckState, e: Expr)
    ensures
        extends(st.errors, sc_index(st, e).0.errors),
        sc_index(st, e).0.scopes == st.scopes,
    decreases e, 1int,
{
    match e {
        Expr::Index { array, index, .. } => {
            lemma_expr(st, *array);
            lemma_expr(sc_expr(st, *array).0, *index);
        },
        _ => {},
    }
}

proof fn lemma_field(st: CheckState, e: Expr)
    ensures
        extends(st.errors, sc_field(st, e).0.errors),
        sc_field(st, e).0.scopes == st.scopes,
    decreases e, 1int,
{
    match e {
        Expr::FieldAccess { object, .. } => lemma_expr(st, *object),
        _ => {},
    }
}

proof fn lemma_array_literal(st: CheckState, e: Expr)
    ensures
        extends(st.errors, sc_array_literal(st, e).0.errors),
        sc_array_literal(st, e).0.scopes == st.scopes,
    decreases e, 1int,
{
    match e {
        Expr::ArrayLiteral { elements, .. } => {
            if elements@.len() != 0 {
                lemma_expr(st, elements@[0]);
                let (s1, ft) = sc_expr(st, elements@[0]);
                if ft is Some {
                    lemma_against_from(
                        s1,
                        elements@,
                        Seq::new(elements@.len(), |i: int| ft->0),
                        1,
                        true,
                    );
                }
            }
        },
        _ => {},
    }
}

proof fn lemma_array_creation(st: CheckState, e: Expr)
    ensures
        extends(st.errors, sc_array_creation(st, e).0.errors),
        sc_array_creation(st, e).0.scopes == st.scopes,
    decreases e, 1int,
{
    match e {
        Expr::ArrayCreation { size, .. } => lemma_expr(st, *size),
        _ => {},
    }
}

/// Checking an expression never takes back an error found before it: the
/// errors of the new state begin with those of the old one.
pub proof fn law_expr_keeps_errors(st: CheckState, e: Expr)
    ensures
        keeps(st.errors, sc_expr(st, e).0.errors),
        keeps(st.errors, sc_expr_against(st, e, Type::Int).0.errors),
{
    lemma_expr(st, e);
    lemma_expr_against(st, e, Type::Int);
}

proof fn lemma_declare_local(st: CheckState, vd: VarDecl)
    ensures
        extends(st.errors, sc_declare_local(st, vd).errors),
        st.scopes.len() > 0 ==> sc_declare_local(st, vd).scopes.len() == st.scopes.len()
            && sc_declare_local(st, vd).scopes.drop_last() == st.scopes.drop_last(),
{
    let s1 = if st.scopes.last().contains_key(vd.name@) {
        st.err(SpecSemaError::DuplicateDeclaration { name: vd.name@, line: vd.line })
    } else {
        st
    };
    match vd.init {
        Some(init) => lemma_expr_against(s1, init, vd.ty),
        None => {},
    }
}

proof fn lemma_condition(st: CheckState, cond: Expr)
    ensures
        extends(st.errors, sc_condition(st, cond).errors),
        sc_condition(st, cond).scopes == st.scopes,
{
    lemma_expr(st, cond);
}

proof fn lemma_return(st: CheckState, r: ReturnStmt, ret: Type)
    ensures
        extends(st.errors, sc_return(st, r, ret).errors),
        sc_return(st, r, ret).scopes == st.scopes,
{
    match r.value {
        Some(v) => {
            lemma_expr(st, v);
            lemma_expr_against(st, v, ret);
        },
        None => {},
    }
}

proof fn lemma_stmt(st: CheckState, s: Stmt, ret: Type)
    ensures
        extends(st.errors, sc_stmt(st, s, ret).0.errors),
        st.scopes.len() > 0 ==> sc_stmt(st, s, ret).0.scopes.len() == st.scopes.len()
            && sc_stmt(st, s, ret).0.scopes.drop_last() == st.scopes.drop_last(),
        st.scopes.len() > 0 && s is Block ==> sc_stmt(st, s, ret).0.scopes == st.scopes,
    decreases s, 1int,
{
    match s {
        Stmt::Expr(e) => lemma_expr(st, e),
        Stmt::VarDecl(vd) => lemma_declare_local(st, vd),
        Stmt::Block(b) => lemma_block_from(st.push_scope(), b.stmts@, 0, ret, false),
        Stmt::If(i) => {
            lemma_condition(st, i.cond);
            let s1 = sc_condition(st, i.cond);
            lemma_scoped(s1, *i.then_branch, ret);
            let (s2, t) = sc_scoped(s1, *i.then_branch, ret);
            match i.else_branch {
                Some(eb) => lemma_scoped(s2, *eb, ret),
                None => {},
            }
        },
        Stmt::While(w) => {
            lemma_condition(st, w.cond);
            lemma_scoped(sc_condition(st, w.cond), *w.body, ret);
        },
        Stmt::For(f) => {
            lemma_stmt(st.push_scope(), *f.init, ret);
            let s1 = sc_stmt(st.push_scope(), *f.init, ret).0;
            lemma_condition(s1, f.cond);
            let s2 = sc_condition(s1, f.cond);
            lemma_expr(s2, f.update);
            lemma_scoped(sc_expr(s2, f.update).0, *f.body, ret);
        },
        Stmt::Return(r) => lemma_return(st, r, ret),
    }
}

proof fn lemma_scoped(st: CheckState, s: Stmt, ret: Type)
    ensures
        extends(st.errors, sc_scoped(st, s, ret).0.errors),
        st.scopes.len() > 0 ==> sc_scoped(st, s, ret).0.scopes == st.scopes,
    decreases s, 2int,
{
    if s is Block {
        lemma_stmt(st, s, ret);
    } else {
        lemma_stmt(st.push_scope(), s, ret);
    }
}

proof fn lemma_block_from(st: CheckState, stmts: Seq<Stmt>, i: int, ret: Type, acc: bool)
    ensures
        extends(st.errors, sc_block_from(st, stmts, i, ret, acc).0.errors),
        st.scopes.len() > 0 ==> sc_block_from(st, stmts, i, ret, acc).0.scopes.len()
            == st.scopes.len() && sc_block_from(st, stmts, i, ret, acc).0.scopes.drop_last()
            == st.scopes.drop_last(),
    decreases stmts, stmts.len() - i,
{
    if !(i < 0 || i >= stmts.len()) {
        lemma_stmt(st, stmts[i], ret);
        let (s1, r) = sc_stmt(st, stmts[i], ret);
        lemma_block_from(s1, stmts, i + 1, ret, acc || r);
    }
}

/// Checking a statement never takes back an error found before it.
pub proof fn law_stmt_keeps_errors(st: CheckState, s: Stmt, ret: Type)
    ensures
        keeps(st.errors, sc_stmt(st, s, ret).0.errors),
{
    lemma_stmt(st, s, ret);
}

proof fn lemma_params_from(st: CheckState, ps: Seq<Param>, i: int)
    ensures
        sc_params_from(st, ps, i).errors == st.errors,
    decreases ps.len() - i,
{
    if !(i < 0 || i >= ps.len()) {
        lemma_params_from(st.declare(ps[i].name@, ps[i].ty), ps, i + 1);
    }
}

proof fn lemma_func(st: CheckState, f: FuncDecl)
    ensures
        extends(st.errors, sc_func(st, f).errors),
{
    lemma_params_from(st.push_scope(), f.params@, 0);
    let s1 = sc_params_from(st.push_scope(), f.params@, 0);
    lemma_block_from(s1, f.body.stmts@, 0, f.return_ty, false);
}

proof fn lemma_bodies_from(st: CheckState, decls: Seq<Decl>, i: int)
    ensures
        extends(st.errors, sc_bodies_from(st, decls, i).errors),
    decreases decls.len() - i,
{
    if !(i < 0 || i >= decls.len()) {
        match decls[i] {
            Decl::Var(vd) => {
                lemma_declare_local(st, vd);
                lemma_bodies_from(sc_declare_local(st, vd), decls, i + 1);
            },
            Decl::Func(f) => {
                lemma_func(st, f);
                lemma_bodies_from(sc_func(st, f), decls, i + 1);
            },
        }
    }
}

/// The errors of a whole program come in the order they are found: those
/// of the function signatures first, then a missing `main`, then those of
/// the globals and bodies in source order.
pub proof fn law_program_errors_in_order(p: Program)
    ensures
        keeps(sc_hoist_from(initial_state(), p.decls@, 0).errors, spec_check(p).errors),
{
    let s1 = sc_hoist_from(initial_state(), p.decls@, 0);
    let s2 = if has_valid_main(s1) {
        s1
    } else {
        s1.err(SpecSemaError::MissingMain)
    };
    lemma_bodies_from(s2, p.decls@, 0);
}

/// An expression that checks has its type recorded under its id.
pub proof fn law_checked_type_is_recorded(st: CheckState, e: Expr)
    ensures
        sc_expr(st, e).1 is Some ==> sc_expr(st, e).0.types.contains_key(e.spec_id())
            && sc_expr(st, e).0.types[e.spec_id()] == sc_expr(st, e).1->0,
{
}

/// A variable reference resolves to the innermost declaration of its
/// name: the reference is recorded with that symbol's id and has that
/// symbol's type.
pub proof fn law_reference_resolves_innermost(st: CheckState, id: NodeId, name: String, line: usize)
    requires
        lookup(st.scopes, name@) is Some,
    ensures
        ({
            let e = Expr::Ident { id, name, line };
            let sym = lookup(st.scopes, name@)->0;
            &&& sc_expr(st, e).0.var_refs[id] == sym.id
            &&& sc_expr(st, e).1 == Some(sym.ty)
        }),
{
}

/// Declarations are local to their block: checking a block leaves the
/// scopes exactly as it found them.
pub proof fn law_blocks_are_local(st: CheckState, b: Block, ret: Type)
    requires
        st.scopes.len() > 0,
    ensures
        sc_stmt(st, Stmt::Block(b), ret).0.scopes == st.scopes,
{
    lemma_stmt(st, Stmt::Block(b), ret);
}

proof fn lemma_hoist_extends(st: CheckState, decls: Seq<Decl>, j: int, name: Seq<char>)
    requires
        st.funcs.contains_key(name),
    ensures
        sc_hoist_from(st, decls, j).funcs.contains_key(name),
    decreases decls.len() - j,
{
    if !(j < 0 || j >= decls.len()) {
        match decls[j] {
            Decl::Func(f) => if st.funcs.contains_key(f.name@) {
                lemma_hoist_extends(
                    st.err(SpecSemaError::DuplicateDeclaration { name: f.name@, line: f.line }),
                    decls,
                    j + 1,
                    name,
                );
            } else {
                lemma_hoist_extends(
                    st.declare_func(f.name@, sig_of(param_types(f.params@), f.return_ty)),
                    decls,
                    j + 1,
                    name,
                );
            },
            Decl::Var(_) => lemma_hoist_extends(st, decls, j + 1, name),
        }
    }
}

proof fn lemma_hoist_declares(st: CheckState, decls: Seq<Decl>, j: int, i: int)
    requires
        0 <= j <= i < decls.len(),
        decls[i] is Func,
    ensures
        sc_hoist_from(st, decls, j).funcs.contains_key(decls[i]->Func_0.name@),
    decreases decls.len() - j,
{
    let name = decls[i]->Func_0.name@;
    match decls[j] {
        Decl::Func(f) => {
            let next = if st.funcs.contains_key(f.name@) {
                st.err(SpecSemaError::DuplicateDeclaration { name: f.name@, line: f.line })
            } else {
                st.declare_func(f.name@, sig_of(param_types(f.params@), f.return_ty))
            };
            if j == i {
                lemma_hoist_extends(next, decls, j + 1, name);
            } else {
                lemma_hoist_declares(next, decls, j + 1, i);
            }
        },
        Decl::Var(_) => lemma_hoist_declares(st, decls, j + 1, i),
    }
}

/// Every function of a program is declared before any body is checked, so
/// a call may come before the callee's definition, and a function may call
/// itself.
pub proof fn law_functions_visible_everywhere(p: Program, i: int)
    requires
        0 <= i < p.decls@.len(),
        p.decls@[i] is Func,
    ensures
        sc_hoist_from(initial_state(), p.decls@, 0).funcs.contains_key(p.decls@[i]->Func_0.name@),
{
    lemma_hoist_declares(initial_state(), p.decls@, 0, i);
}


/// A rejected operand pair is reported once: the state gains exactly one
/// type mismatch, on the operator's line, and nothing else changes; an
/// accepted pair leaves the state as it was.
pub open spec fn reported_once(before: CheckState, after: CheckState, line: usize) -> bool {
    &&& after == before.err(after.errors.last())
    &&& after.errors.last() matches SpecSemaError::TypeMismatch { line: l, .. } && l == line
}

/// The arithmetic operators `+ - * / %` take two ints (giving an int) or
/// two floats (giving a float), and `+` also two strings (giving a string).
/// There is no implicit conversion between int and float, and no other
/// operands are accepted.
pub proof fn law_arithmetic_operand_types(st: CheckState, op: BinOp, lt: Type, rt: Type, line: usize)
    requires
        op == BinOp::Add || op == BinOp::Sub || op == BinOp::Mul || op == BinOp::Div || op
            == BinOp::Mod,
    ensures
        sc_combine(st, op, lt, rt, line).1 == if lt == Type::Int && rt == Type::Int {
            Some(Type::Int)
        } else if lt == Type::Float && rt == Type::Float {
            Some(Type::Float)
        } else if op == BinOp::Add && lt == Type::Str && rt == Type::Str {
            Some(Type::Str)
        } else {
            None
        },
{
}

/// The bitwise and shift operators take two ints and give an int; they
/// accept no other operands.
pub proof fn law_bitwise_operand_types(st: CheckState, op: BinOp, lt: Type, rt: Type, line: usize)
    requires
        op == BinOp::BitAnd || op == BinOp::BitOr || op == BinOp::BitXor || op == BinOp::Shl || op
            == BinOp::Shr || op == BinOp::UShr,
    ensures
        sc_combine(st, op, lt, rt, line).1 == if lt == Type::Int && rt == Type::Int {
            Some(Type::Int)
        } else {
            None
        },
{
}

/// The orderings `< <= > >=` compare two ints or two floats and give a
/// bool; strings, bools, arrays and mixed int and float are not ordered.
pub proof fn law_ordering_operand_types(st: CheckState, op: BinOp, lt: Type, rt: Type, line: usize)
    requires
        op == BinOp::Lt || op == BinOp::LtEq || op == BinOp::Gt || op == BinOp::GtEq,
    ensures
        sc_combine(st, op, lt, rt, line).1 == if (lt == Type::Int && rt == Type::Int) || (lt
            == Type::Float && rt == Type::Float) {
            Some(Type::Bool)
        } else {
            None
        },
{
}

/// `==` and `!=` compare two operands of the same type, and `&&` and `||`
/// take two bools; each gives a bool.
pub proof fn law_equality_and_logic_operand_types(
    st: CheckState,
    op: BinOp,
    lt: Type,
    rt: Type,
    line: usize,
)
    ensures
        (op == BinOp::Eq || op == BinOp::NotEq) ==> sc_combine(st, op, lt, rt, line).1 == if lt
            == rt {
            Some(Type::Bool)
        } else {
            None
        },
        (op == BinOp::And || op == BinOp::Or) ==> sc_combine(st, op, lt, rt, line).1 == if lt
            == Type::Bool && rt == Type::Bool {
            Some(Type::Bool)
        } else {
            None
        },
{
}

/// Whatever an operator rejects is reported as exactly one type mismatch on
/// its line, and nothing else in the state changes; whatever it accepts
/// leaves the state as it was.
pub proof fn law_operator_rejection_reported_once(
    st: CheckState,
    op: BinOp,
    lt: Type,
    rt: Type,
    line: usize,
)
    ensures
        sc_combine(st, op, lt, rt, line).1 is Some ==> sc_combine(st, op, lt, rt, line).0 == st,
        sc_combine(st, op, lt, rt, line).1 is None ==> reported_once(
            st,
            sc_combine(st, op, lt, rt, line).0,
            line,
        ),
{
}

/// A conditional expression has a type when both branches have the same
/// type and it is not `void`; it then leaves the state as it was. Branches
/// of two different types, or a `void` branch, are reported as one type
/// mismatch on the expression's line.
pub proof fn law_conditional_branch_types(st: CheckState, t: Option<Type>, e: Option<Type>, line: usize)
    ensures
        ({
            let (after, r) = ternary_rule(st, t, e, line);
            &&& r == (if t is Some && t == e && t->0 != Type::Void {
                t
            } else {
                None
            })
            &&& (t is None || e is None || r is Some) ==> after == st
            &&& (t is Some && e is Some && r is None) ==> reported_once(st, after, line)
        }),
{
}

/// The condition of a conditional expression must be a `bool`: one that
/// checks as another type is reported as a non-bool condition, on the
/// expression's line, right after the condition's own errors; one that is
/// a `bool`, or has no type, adds nothing, and the branches are then checked
/// from the state the condition left.
pub proof fn law_conditional_condition_is_bool(
    st: CheckState,
    id: NodeId,
    cond: Expr,
    then_branch: Expr,
    else_branch: Expr,
    line: usize,
)
    ensures
        ({
            let e = Expr::Ternary {
                id,
                cond: Box::new(cond),
                then_branch: Box::new(then_branch),
                else_branch: Box::new(else_branch),
                line,
            };
            let (s1, ct) = sc_expr(st, cond);
            let (s3, t) = sc_expr(s1, then_branch);
            let (s4, el) = sc_expr(s3, else_branch);
            let out = sc_ternary(st, e).0;
            &&& (ct matches Some(c) && c != Type::Bool) ==> out.errors.len() > s1.errors.len()
                && out.errors[s1.errors.len() as int] == SpecSemaError::NonBoolCondition {
                found: type_text(ct->0),
                line,
            }
            &&& !(ct matches Some(c) && c != Type::Bool) ==> sc_ternary(st, e) == ternary_rule(
                s4,
                t,
                el,
                line,
            )
        }),
{
    let e = Expr::Ternary {
        id,
        cond: Box::new(cond),
        then_branch: Box::new(then_branch),
        else_branch: Box::new(else_branch),
        line,
    };
    let (s1, ct) = sc_expr(st, cond);
    if ct matches Some(c) && c != Type::Bool {
        let s2 = s1.err(SpecSemaError::NonBoolCondition { found: type_text(ct->0), line });
        lemma_expr(s2, then_branch);
        let (s3, t) = sc_expr(s2, then_branch);
        lemma_expr(s3, else_branch);
        let (s4, el) = sc_expr(s3, else_branch);
        assert(s2.errors[s1.errors.len() as int] == SpecSemaError::NonBoolCondition {
            found: type_text(ct->0),
            line,
        });
        assert(s3.errors[s1.errors.len() as int] == s2.errors[s1.errors.len() as int]);
        assert(s4.errors[s1.errors.len() as int] == s2.errors[s1.errors.len() as int]);
    }
}


/// Whether a statement returns on every path through it: a `return` does;
/// a block does when one of its statements does; an `if` does when it has
/// an `else` and both branches do; nothing else does (a loop's body may
/// never run).
pub open spec fn all_paths_return(s: Stmt) -> bool
    decreases s, 0int,
{
    match s {
        Stmt::Return(_) => true,
        Stmt::Block(b) => some_stmt_returns_from(b.stmts@, 0),
        Stmt::If(i) => match i.else_branch {
            Some(eb) => all_paths_return(*i.then_branch) && all_paths_return(*eb),
            None => false,
        },
        _ => false,
    }
}

/// Whether one of `stmts[i..]` returns on every path.
pub open spec fn some_stmt_returns_from(stmts: Seq<Stmt>, i: int) -> bool
    decreases stmts, stmts.len() - i,
{
    if i < 0 || i >= stmts.len() {
        false
    } else {
        all_paths_return(stmts[i]) || some_stmt_returns_from(stmts, i + 1)
    }
}

proof fn lemma_some_stmt_returns(stmts: Seq<Stmt>, i: int)
    requires
        0 <= i,
    ensures
        some_stmt_returns_from(stmts, i) <==> exists|k: int|
            i <= k < stmts.len() && #[trigger] all_paths_return(stmts[k]),
    decreases stmts.len() - i,
{
    if i < stmts.len() {
        lemma_some_stmt_returns(stmts, i + 1);
        if all_paths_return(stmts[i]) {
            assert(i <= i < stmts.len() && all_paths_return(stmts[i]));
        }
    }
}

proof fn lemma_flag_stmt(st: CheckState, s: Stmt, ret: Type)
    ensures
        sc_stmt(st, s, ret).1 == all_paths_return(s),
    decreases s, 1int,
{
    match s {
        Stmt::Block(b) => lemma_flag_block(st.push_scope(), b.stmts@, 0, ret, false),
        Stmt::If(i) => {
            let s1 = sc_condition(st, i.cond);
            lemma_flag_scoped(s1, *i.then_branch, ret);
            match i.else_branch {
                Some(eb) => lemma_flag_scoped(sc_scoped(s1, *i.then_branch, ret).0, *eb, ret),
                None => {},
            }
        },
        _ => {},
    }
}

proof fn lemma_flag_scoped(st: CheckState, s: Stmt, ret: Type)
    ensures
        sc_scoped(st, s, ret).1 == all_paths_return(s),
    decreases s, 2int,
{
    if s is Block {
        lemma_flag_stmt(st, s, ret);
    } else {
        lemma_flag_stmt(st.push_scope(), s, ret);
    }
}

proof fn lemma_flag_block(st: CheckState, stmts: Seq<Stmt>, i: int, ret: Type, acc: bool)
    ensures
        sc_block_from(st, stmts, i, ret, acc).1 == (acc || some_stmt_returns_from(stmts, i)),
    decreases stmts, stmts.len() - i,
{
    if !(i < 0 || i >= stmts.len()) {
        lemma_flag_stmt(st, stmts[i], ret);
        let (s1, r) = sc_stmt(st, stmts[i], ret);
        lemma_flag_block(s1, stmts, i + 1, ret, acc || r);
    }
}

/// Checking a statement finds that it returns on every path exactly when
/// `all_paths_return` says so (a block: when one of its statements does),
/// and leaves as many scopes open as it found.
pub proof fn law_return_on_every_path(st: CheckState, s: Stmt, ret: Type)
    ensures
        sc_stmt(st, s, ret).1 == all_paths_return(s),
        s matches Stmt::Block(b) ==> (sc_stmt(st, s, ret).1 <==> exists|k: int|
            0 <= k < b.stmts@.len() && #[trigger] all_paths_return(b.stmts@[k])),
        st.scopes.len() > 0 ==> sc_stmt(st, s, ret).0.scopes.len() == st.scopes.len(),
{
    lemma_flag_stmt(st, s, ret);
    lemma_stmt(st, s, ret);
    match s {
        Stmt::Block(b) => lemma_some_stmt_returns(b.stmts@, 0),
        _ => {},
    }
}

/// A function that returns a value must return on every path: its check
/// reports a missing return, on the function's line, exactly when its
/// return type is not `void` and none of its body's statements returns on
/// every path; it reports it after the body's own errors and closes the
/// scope of the parameters.
pub proof fn law_missing_return(st: CheckState, f: FuncDecl)
    ensures
        ({
            let s1 = sc_params_from(st.push_scope(), f.params@, 0);
            let s2 = sc_block_from(s1, f.body.stmts@, 0, f.return_ty, false).0;
            let missing = f.return_ty != Type::Void && !(exists|k: int|
                0 <= k < f.body.stmts@.len() && #[trigger] all_paths_return(f.body.stmts@[k]));
            sc_func(st, f) == (if missing {
                s2.err(SpecSemaError::MissingReturn { line: f.line })
            } else {
                s2
            }).pop_scope()
        }),
{
    let s1 = sc_params_from(st.push_scope(), f.params@, 0);
    lemma_flag_block(s1, f.body.stmts@, 0, f.return_ty, false);
    lemma_some_stmt_returns(f.body.stmts@, 0);
}


/// The first function of `decls[i..]` named `main`.
pub open spec fn first_main_from(decls: Seq<Decl>, i: int) -> Option<FuncDecl>
    decreases decls.len() - i,
{
    if i < 0 || i >= decls.len() {
        None
    } else {
        match decls[i] {
            Decl::Func(f) => if f.name@ == "main"@ {
                Some(f)
            } else {
                first_main_from(decls, i + 1)
            },
            Decl::Var(_) => first_main_from(decls, i + 1),
        }
    }
}

/// Whether the program's first function named `main` takes no parameters
/// and returns `void` (a later one is a duplicate, reported as such).
pub open spec fn declares_void_main(p: Program) -> bool {
    match first_main_from(p.decls@, 0) {
        Some(f) => f.params@.len() == 0 && f.return_ty == Type::Void,
        None => false,
    }
}

proof fn lemma_hoist_main(st: CheckState, decls: Seq<Decl>, i: int)
    requires
        0 <= i,
    ensures
        ({
            let out = sc_hoist_from(st, decls, i);
            &&& extends(st.errors, out.errors)
            &&& st.funcs.contains_key("main"@) ==> out.funcs.contains_key("main"@)
                && out.funcs["main"@] == st.funcs["main"@]
            &&& !st.funcs.contains_key("main"@) ==> match first_main_from(decls, i) {
                Some(f) => out.funcs.contains_key("main"@) && out.funcs["main"@] == sig_of(
                    param_types(f.params@),
                    f.return_ty,
                ),
                None => !out.funcs.contains_key("main"@),
            }
        }),
    decreases decls.len() - i,
{
    if i < decls.len() {
        match decls[i] {
            Decl::Func(f) => if st.funcs.contains_key(f.name@) {
                lemma_hoist_main(
                    st.err(SpecSemaError::DuplicateDeclaration { name: f.name@, line: f.line }),
                    decls,
                    i + 1,
                );
            } else {
                lemma_hoist_main(
                    st.declare_func(f.name@, sig_of(param_types(f.params@), f.return_ty)),
                    decls,
                    i + 1,
                );
            },
            Decl::Var(_) => lemma_hoist_main(st, decls, i + 1),
        }
    }
}

/// A program is reported to lack `main` exactly when its first function
/// named `main` is missing, takes parameters or returns a value; no other
/// part of the check reports it.
pub proof fn law_missing_main(p: Program)
    ensures
        spec_check(p).errors.contains(SpecSemaError::MissingMain) <==> !declares_void_main(p),
{
    reveal_strlit("main");
    reveal_strlit("length");
    reveal_strlit("charAt");
    reveal_strlit("substring");
    assert("main"@.len() != "length"@.len() && "main"@.len() != "charAt"@.len() && "main"@.len()
        != "substring"@.len());
    assert(!builtin_funcs().contains_key("main"@));
    lemma_hoist_main(initial_state(), p.decls@, 0);
    let s1 = sc_hoist_from(initial_state(), p.decls@, 0);
    assert(has_valid_main(s1) <==> declares_void_main(p));
    let s2 = if has_valid_main(s1) {
        s1
    } else {
        s1.err(SpecSemaError::MissingMain)
    };
    lemma_bodies_from(s2, p.decls@, 0);
    let out = spec_check(p).errors;
    if has_valid_main(s1) {
        assert forall|k: int| 0 <= k < out.len() implies out[k] != SpecSemaError::MissingMain by {
            if k < s1.errors.len() {
                assert(out[k] == s1.errors[k]);
            }
        }
    } else {
        assert(out[s1.errors.len() as int] == SpecSemaError::MissingMain);
    }
}


/// How a call is checked. `print` takes exactly one argument of any type
/// and gives `void`. Any other callee must be a declared function taking
/// as many arguments as it is given; a call to an undeclared function, or
/// with the wrong number of arguments, is reported (on the call's line, right
/// after the errors found before it) and has no type, and its arguments are
/// still checked. Otherwise each argument is checked against its
/// parameter's type, and the call has the function's return type when every
/// argument checks.
pub proof fn law_call_rules(st: CheckState, id: NodeId, callee: String, args: Vec<Expr>, line: usize)
    ensures
        ({
            let (after, r) = sc_call(st, Expr::Call { id, callee, args, line });
            let n = st.errors.len() as int;
            &&& callee@ == "print"@ ==> (r is Some <==> args@.len() == 1) && (r is Some ==> r == Some(
                Type::Void,
            ))
            &&& callee@ == "print"@ && args@.len() != 1 ==> after == sc_exprs_from(st.err(
                SpecSemaError::ArityMismatch {
                    name: "print"@,
                    expected: 1,
                    found: args@.len(),
                    line,
                },
            ), args@, 0) && after.errors.len() > n && after.errors[n]
                == SpecSemaError::ArityMismatch {
                name: "print"@,
                expected: 1,
                found: args@.len(),
                line,
            }
            &&& callee@ != "print"@ && !st.funcs.contains_key(callee@) ==> r is None && after
                == sc_exprs_from(st.err(SpecSemaError::UndeclaredFunction { name: callee@, line }), args@, 0)
                && after.errors.len() > n && after.errors[n] == SpecSemaError::UndeclaredFunction {
                name: callee@,
                line,
            }
            &&& callee@ != "print"@ && st.funcs.contains_key(callee@) && args@.len()
                != st.funcs[callee@].params.len() ==> r is None && after.errors.len() > n
                && after.errors[n] == SpecSemaError::ArityMismatch {
                name: callee@,
                expected: st.funcs[callee@].params.len(),
                found: args@.len(),
                line,
            }
            &&& callee@ != "print"@ && st.funcs.contains_key(callee@) && args@.len()
                == st.funcs[callee@].params.len() ==> {
                let (s1, ok) = sc_against_from(st, args@, st.funcs[callee@].params, 0, true);
                &&& after == s1
                &&& r == (if ok {
                    Some(st.funcs[callee@].return_ty)
                } else {
                    None
                })
            }
        }),
{
    let e = Expr::Call { id, callee, args, line };
    lemma_call(st, e);
    if callee@ == "print"@ {
        if args@.len() != 1 {
            let s1 = st.err(
                SpecSemaError::ArityMismatch { name: "print"@, expected: 1, found: args@.len(), line },
            );
            lemma_exprs_from(s1, args@, 0);
        }
    } else if !st.funcs.contains_key(callee@) {
        lemma_exprs_from(st.err(SpecSemaError::UndeclaredFunction { name: callee@, line }), args@, 0);
    } else {
        let sig = st.funcs[callee@];
        if args@.len() != sig.params.len() {
            let s1 = st.err(
                SpecSemaError::ArityMismatch {
                    name: callee@,
                    expected: sig.params.len(),
                    found: args@.len(),
                    line,
                },
            );
            lemma_exprs_from(s1, args@, 0);
        }
    }
}


/// The type rules of the prefix operators: `!` takes a bool and gives a
/// bool; `~` takes an int and gives an int; `-` takes an int or a float and
/// gives the same type. An accepted operand leaves the state as it was; a
/// rejected one is reported as exactly one type mismatch on the line.
pub proof fn law_unary_operand_types(st: CheckState, op: UnOp, ty: Type, line: usize)
    ensures
        op == UnOp::Not ==> sc_unary_rule(st, op, ty, line).1 == if ty == Type::Bool {
            Some(Type::Bool)
        } else {
            None
        },
        op == UnOp::BitNot ==> sc_unary_rule(st, op, ty, line).1 == if ty == Type::Int {
            Some(Type::Int)
        } else {
            None
        },
        op == UnOp::Neg ==> sc_unary_rule(st, op, ty, line).1 == if ty == Type::Int || ty
            == Type::Float {
            Some(ty)
        } else {
            None
        },
        sc_unary_rule(st, op, ty, line).1 is Some ==> sc_unary_rule(st, op, ty, line).0 == st,
        sc_unary_rule(st, op, ty, line).1 is None ==> reported_once(
            st,
            sc_unary_rule(st, op, ty, line).0,
            line as usize,
        ),
{
}

} // verus!
