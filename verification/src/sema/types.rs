//! Type checking of expressions.

use super::model::{
    sc_against_from, sc_array_creation, sc_array_literal, sc_assign, sc_binary, sc_call,
    sc_combine, sc_compound, sc_expr, sc_expr_against, sc_exprs_from, sc_field, sc_inc_dec,
    sc_index, sc_ternary, sc_unary,
};
use super::{is_lvalue, mismatch_error, pair_string, type_string, Checker, SemaError};
use crate::ast::{BinOp, Expr, Type, UnOp};
use vstd::prelude::*;
use vstd::string::StringExecFns;

verus! {

impl Checker {
    /// Checks `expr` bottom-up and records its type when it has one.
    pub(super) fn check_expr(&mut self, expr: &Expr) -> (ty: Option<Type>)
        ensures
            (final(self).state(), ty) == sc_expr(old(self).state(), *expr),
            final(self).state().scopes == old(self).state().scopes,
        decreases expr, 2int,
    {
        let ty = match expr {
            Expr::IntLiteral { .. } => Some(Type::Int),
            Expr::FloatLiteral { .. } => Some(Type::Float),
            Expr::BoolLiteral { .. } => Some(Type::Bool),
            Expr::StringLiteral { .. } => Some(Type::Str),
            Expr::Null { .. } => Some(Type::Void),
            Expr::Ident { id, name, line } => {
                match self.symtab.resolve_var(name.as_str()) {
                    Some(sym) => {
                        let sid = sym.id;
                        let sty = sym.ty.clone();
                        self.refer(*id, sid);
                        Some(sty)
                    },
                    None => {
                        self.error(
                            SemaError::UndeclaredIdentifier { name: name.clone(), line: *line },
                        );
                        None
                    },
                }
            },
            Expr::Binary { .. } => self.check_binary(expr),
            Expr::Unary { .. } => self.check_unary(expr),
            Expr::Assign { .. } => self.check_assign(expr),
            Expr::CompoundAssign { .. } => self.check_compound_assign(expr),
            Expr::IncDec { .. } => self.check_inc_dec(expr),
            Expr::Ternary { .. } => self.check_ternary(expr),
            Expr::Call { .. } => self.check_call(expr),
            Expr::Index { .. } => self.check_index(expr),
            Expr::FieldAccess { .. } => self.check_field_access(expr),
            Expr::ArrayLiteral { .. } => self.check_array_literal_inferred(expr),
            Expr::ArrayCreation { .. } => self.check_array_creation(expr),
        };
        match &ty {
            Some(t) => self.record(expr.id(), t),
            None => {},
        }
        ty
    }

    /// Checks `expr` against the type its context expects. An array
    /// literal is checked element by element against the expected element
    /// type rather than inferred from its first element.
    pub(super) fn check_expr_against(&mut self, expr: &Expr, expected: &Type) -> (ty: Option<
        Type,
    >)
        ensures
            (final(self).state(), ty) == sc_expr_against(old(self).state(), *expr, *expected),
            final(self).state().scopes == old(self).state().scopes,
        decreases expr, 3int,
    {
        match expr {
            Expr::ArrayLiteral { id, elements, line } => {
                match expected {
                    Type::Array(el) => {
                        let ok = self.check_all_against(elements, &**el, 0);
                        if ok {
                            self.record(*id, expected);
                            Some(expected.clone())
                        } else {
                            None
                        }
                    },
                    _ => {
                        self.error(
                            mismatch_error(
                                type_string(expected),
                                String::from_str("array literal"),
                                *line,
                            ),
                        );
                        None
                    },
                }
            },
            _ => {
                match self.check_expr(expr) {
                    None => None,
                    Some(actual) => {
                        if actual == *expected {
                            Some(actual)
                        } else {
                            self.error(
                                mismatch_error(
                                    type_string(expected),
                                    type_string(&actual),
                                    expr.line(),
                                ),
                            );
                            None
                        }
                    },
                }
            },
        }
    }

    /// Checks `es[start..]` against the element type `el`; true when all
    /// of them check.
    fn check_all_against(&mut self, es: &Vec<Expr>, el: &Type, start: usize) -> (ok: bool)
        requires
            start <= es@.len(),
        ensures
            (final(self).state(), ok) == sc_against_from(
                old(self).state(),
                es@,
                Seq::new(es@.len(), |i: int| *el),
                start as int,
                true,
            ),
            final(self).state().scopes == old(self).state().scopes,
        decreases es@, es@.len() + 1,
    {
        let ghost tys = Seq::new(es@.len(), |i: int| *el);
        let ghost s0 = self.state();
        let mut ok = true;
        let mut i: usize = start;
        while i < es.len()
            invariant
                start <= i <= es@.len(),
                self.state().scopes == s0.scopes,
                tys == Seq::new(es@.len(), |i: int| *el),
                sc_against_from(self.state(), es@, tys, i as int, ok) == sc_against_from(
                    s0,
                    es@,
                    tys,
                    start as int,
                    true,
                ),
            decreases es@.len() - i,
        {
            let t = self.check_expr_against(&es[i], el);
            if t.is_none() {
                ok = false;
            }
            i = i + 1;
        }
        ok
    }

    /// Checks `es` against the parameter types `tys`, one for one.
    fn check_args_against(&mut self, es: &Vec<Expr>, tys: &Vec<Type>) -> (ok: bool)
        requires
            es@.len() == tys@.len(),
        ensures
            (final(self).state(), ok) == sc_against_from(old(self).state(), es@, tys@, 0, true),
            final(self).state().scopes == old(self).state().scopes,
        decreases es@, es@.len() + 1,
    {
        let ghost s0 = self.state();
        let mut ok = true;
        let mut i: usize = 0;
        while i < es.len()
            invariant
                i <= es@.len(),
                es@.len() == tys@.len(),
                self.state().scopes == s0.scopes,
                sc_against_from(self.state(), es@, tys@, i as int, ok) == sc_against_from(
                    s0,
                    es@,
                    tys@,
                    0,
                    true,
                ),
            decreases es@.len() - i,
        {
            let t = self.check_expr_against(&es[i], &tys[i]);
            if t.is_none() {
                ok = false;
            }
            i = i + 1;
        }
        ok
    }

    /// Checks every expression of `es`, for the errors and records alone.
    fn check_all(&mut self, es: &Vec<Expr>)
        ensures
            final(self).state() == sc_exprs_from(old(self).state(), es@, 0),
            final(self).state().scopes == old(self).state().scopes,
        decreases es@, es@.len() + 1,
    {
        let ghost s0 = self.state();
        let mut i: usize = 0;
        while i < es.len()
            invariant
                i <= es@.len(),
                self.state().scopes == s0.scopes,
                sc_exprs_from(self.state(), es@, i as int) == sc_exprs_from(s0, es@, 0),
            decreases es@.len() - i,
        {
            let _ = self.check_expr(&es[i]);
            i = i + 1;
        }
    }

    fn check_binary(&mut self, e: &Expr) -> (ty: Option<Type>)
        requires
            *e is Binary,
        ensures
            (final(self).state(), ty) == sc_binary(old(self).state(), *e),
            final(self).state().scopes == old(self).state().scopes,
        decreases e, 1int,
    {
        match e {
            Expr::Binary { op, left, right, line, .. } => {
                let lt = self.check_expr(left);
                let rt = self.check_expr(right);
                match (lt, rt) {
                    (Some(l), Some(r)) => self.combine_binary_types(*op, l, r, *line),
                    _ => None,
                }
            },
            _ => None,
        }
    }

    /// The type rule of each binary operator, shared by binary expressions
    /// and compound assignments.
    fn combine_binary_types(&mut self, op: BinOp, lt: Type, rt: Type, line: usize) -> (ty: Option<
        Type,
    >)
        ensures
            (final(self).state(), ty) == sc_combine(old(self).state(), op, lt, rt, line),
            final(self).state().scopes == old(self).state().scopes,
    {
        match op {
            BinOp::Add | BinOp::Sub | BinOp::Mul | BinOp::Div | BinOp::Mod => {
                if lt == Type::Int && rt == Type::Int {
                    Some(Type::Int)
                } else if lt == Type::Float && rt == Type::Float {
                    Some(Type::Float)
                } else if op == BinOp::Add && lt == Type::Str && rt == Type::Str {
                    Some(Type::Str)
                } else {
                    self.error(mismatch_error(type_string(&lt), type_string(&rt), line));
                    None
                }
            },
            BinOp::BitAnd | BinOp::BitOr | BinOp::BitXor | BinOp::Shl | BinOp::Shr | BinOp::UShr => {
                if lt == Type::Int && rt == Type::Int {
                    Some(Type::Int)
                } else {
                    self.error(
                        mismatch_error(String::from_str("Int"), pair_string(&lt, &rt), line),
                    );
                    None
                }
            },
            BinOp::Lt | BinOp::LtEq | BinOp::Gt | BinOp::GtEq => {
                if (lt == Type::Int && rt == Type::Int) || (lt == Type::Float && rt == Type::Float) {
                    Some(Type::Bool)
                } else {
                    self.error(mismatch_error(type_string(&lt), type_string(&rt), line));
                    None
                }
            },
            BinOp::Eq | BinOp::NotEq => {
                if lt == rt {
                    Some(Type::Bool)
                } else {
                    self.error(mismatch_error(type_string(&lt), type_string(&rt), line));
                    None
                }
            },
            BinOp::And | BinOp::Or => {
                if lt == Type::Bool && rt == Type::Bool {
                    Some(Type::Bool)
                } else {
                    self.error(
                        mismatch_error(String::from_str("Bool"), pair_string(&lt, &rt), line),
                    );
                    None
                }
            },
        }
    }

    fn check_compound_assign(&mut self, e: &Expr) -> (ty: Option<Type>)
        requires
            *e is CompoundAssign,
        ensures
            (final(self).state(), ty) == sc_compound(old(self).state(), *e),
            final(self).state().scopes == old(self).state().scopes,
        decreases e, 1int,
    {
        match e {
            Expr::CompoundAssign { op, target, value, line, .. } => {
                if !is_lvalue(target) {
                    self.error(SemaError::InvalidAssignTarget { line: *line });
                    let _ = self.check_expr(target);
                    let _ = self.check_expr(value);
                    return None;
                }
                let target_ty = match self.check_expr(target) {
                    Some(t) => t,
                    None => {
                        return None;
                    },
                };
                let value_ty = match self.check_expr(value) {
                    Some(t) => t,
                    None => {
                        return None;
                    },
                };
                let combined = match self.combine_binary_types(
                    *op,
                    target_ty.clone(),
                    value_ty,
                    *line,
                ) {
                    Some(t) => t,
                    None => {
                        return None;
                    },
                };
                if combined == target_ty {
                    Some(combined)
                } else {
                    self.error(
                        mismatch_error(type_string(&target_ty), type_string(&combined), *line),
                    );
                    None
                }
            },
            _ => None,
        }
    }

    /// The same static rule serves prefix and postfix `++` and `--`.
    fn check_inc_dec(&mut self, e: &Expr) -> (ty: Option<Type>)
        requires
            *e is IncDec,
        ensures
            (final(self).state(), ty) == sc_inc_dec(old(self).state(), *e),
            final(self).state().scopes == old(self).state().scopes,
        decreases e, 1int,
    {
        match e {
            Expr::IncDec { target, line, .. } => {
                if !is_lvalue(target) {
                    self.error(SemaError::InvalidAssignTarget { line: *line });
                    let _ = self.check_expr(target);
                    return None;
                }
                let target_ty = match self.check_expr(target) {
                    Some(t) => t,
                    None => {
                        return None;
                    },
                };
                if target_ty == Type::Int || target_ty == Type::Float {
                    Some(target_ty)
                } else {
                    self.error(
                        mismatch_error(
                            String::from_str("Int or Float"),
                            type_string(&target_ty),
                            *line,
                        ),
                    );
                    None
                }
            },
            _ => None,
        }
    }

    fn check_ternary(&mut self, e: &Expr) -> (ty: Option<Type>)
        requires
            *e is Ternary,
        ensures
            (final(self).state(), ty) == sc_ternary(old(self).state(), *e),
            final(self).state().scopes == old(self).state().scopes,
        decreases e, 1int,
    {
        match e {
            Expr::Ternary { cond, then_branch, else_branch, line, .. } => {
                match self.check_expr(cond) {
                    Some(cond_ty) => {
                        if !(cond_ty == Type::Bool) {
                            self.error(
                                SemaError::NonBoolCondition {
                                    found: type_string(&cond_ty),
                                    line: *line,
                                },
                            );
                        }
                    },
                    None => {},
                }
                let then_ty = self.check_expr(then_branch);
                let else_ty = self.check_expr(else_branch);
                match (then_ty, else_ty) {
                    (Some(t), Some(el)) => {
                        if t == Type::Void || el == Type::Void {
                            // A conditional of two void calls has no value to
                            // produce; an if statement does that job.
                            self.error(
                                mismatch_error(
                                    String::from_str("a non-void type in both branches"),
                                    String::from_str("Void"),
                                    *line,
                                ),
                            );
                            None
                        } else if t == el {
                            Some(t)
                        } else {
                            self.error(mismatch_error(type_string(&t), type_string(&el), *line));
                            None
                        }
                    },
                    _ => None,
                }
            },
            _ => None,
        }
    }

    fn check_unary(&mut self, e: &Expr) -> (ty: Option<Type>)
        requires
            *e is Unary,
        ensures
            (final(self).state(), ty) == sc_unary(old(self).state(), *e),
            final(self).state().scopes == old(self).state().scopes,
        decreases e, 1int,
    {
        match e {
            Expr::Unary { op, operand, line, .. } => {
                let ty = match self.check_expr(operand) {
                    Some(t) => t,
                    None => {
                        return None;
                    },
                };
                match op {
                    UnOp::Neg => {
                        if ty == Type::Int || ty == Type::Float {
                            Some(ty)
                        } else {
                            self.error(
                                mismatch_error(
                                    String::from_str("Int or Float"),
                                    type_string(&ty),
                                    *line,
                                ),
                            );
                            None
                        }
                    },
                    UnOp::Not => {
                        if ty == Type::Bool {
                            Some(Type::Bool)
                        } else {
                            self.error(
                                mismatch_error(String::from_str("Bool"), type_string(&ty), *line),
                            );
                            None
                        }
                    },
                    UnOp::BitNot => {
                        if ty == Type::Int {
                            Some(Type::Int)
                        } else {
                            self.error(
                                mismatch_error(String::from_str("Int"), type_string(&ty), *line),
                            );
                            None
                        }
                    },
                }
            },
            _ => None,
        }
    }

    fn check_assign(&mut self, e: &Expr) -> (ty: Option<Type>)
        requires
            *e is Assign,
        ensures
            (final(self).state(), ty) == sc_assign(old(self).state(), *e),
            final(self).state().scopes == old(self).state().scopes,
        decreases e, 1int,
    {
        match e {
            Expr::Assign { target, value, line, .. } => {
                if !is_lvalue(target) {
                    self.error(SemaError::InvalidAssignTarget { line: *line });
                    let _ = self.check_expr(target);
                    let _ = self.check_expr(value);
                    return None;
                }
                match self.check_expr(target) {
                    Some(target_ty) => self.check_expr_against(value, &target_ty),
                    None => None,
                }
            },
            _ => None,
        }
    }

    fn check_call(&mut self, e: &Expr) -> (ty: Option<Type>)
        requires
            *e is Call,
        ensures
            (final(self).state(), ty) == sc_call(old(self).state(), *e),
            final(self).state().scopes == old(self).state().scopes,
        decreases e, 1int,
    {
        match e {
            Expr::Call { callee, args, line, .. } => {
                let print_name = String::from_str("print");
                if *callee == print_name {
                    if args.len() != 1 {
                        self.error(
                            SemaError::ArityMismatch {
                                name: String::from_str("print"),
                                expected: 1,
                                found: args.len(),
                                line: *line,
                            },
                        );
                        self.check_all(args);
                        return None;
                    }
                    let _ = self.check_expr(&args[0]);
                    return Some(Type::Void);
                }
                let sig = match self.symtab.resolve_func(callee.as_str()) {
                    Some(s) => s.clone(),
                    None => {
                        self.error(
                            SemaError::UndeclaredFunction { name: callee.clone(), line: *line },
                        );
                        self.check_all(args);
                        return None;
                    },
                };
                if args.len() != sig.params.len() {
                    self.error(
                        SemaError::ArityMismatch {
                            name: callee.clone(),
                            expected: sig.params.len(),
                            found: args.len(),
                            line: *line,
                        },
                    );
                    self.check_all(args);
                    return None;
                }
                let ok = self.check_args_against(args, &sig.params);
                if ok {
                    Some(sig.return_ty)
                } else {
                    None
                }
            },
            _ => None,
        }
    }

    fn check_index(&mut self, e: &Expr) -> (ty: Option<Type>)
        requires
            *e is Index,
        ensures
            (final(self).state(), ty) == sc_index(old(self).state(), *e),
            final(self).state().scopes == old(self).state().scopes,
        decreases e, 1int,
    {
        match e {
            Expr::Index { array, index, line, .. } => {
                let arr_ty = self.check_expr(array);
                let idx_ty = self.check_expr(index);
                let mut ok = true;
                let elem_ty = match &arr_ty {
                    Some(Type::Array(el)) => Some((**el).clone()),
                    Some(other) => {
                        self.error(
                            SemaError::NotIndexable { found: type_string(other), line: *line },
                        );
                        ok = false;
                        None
                    },
                    None => {
                        ok = false;
                        None
                    },
                };
                match &idx_ty {
                    Some(Type::Int) => {},
                    Some(other) => {
                        self.error(
                            mismatch_error(String::from_str("Int"), type_string(other), *line),
                        );
                        ok = false;
                    },
                    None => {
                        ok = false;
                    },
                }
                if ok {
                    elem_ty
                } else {
                    None
                }
            },
            _ => None,
        }
    }

    fn check_field_access(&mut self, e: &Expr) -> (ty: Option<Type>)
        requires
            *e is FieldAccess,
        ensures
            (final(self).state(), ty) == sc_field(old(self).state(), *e),
            final(self).state().scopes == old(self).state().scopes,
        decreases e, 1int,
    {
        match e {
            Expr::FieldAccess { object, field, line, .. } => {
                let obj_ty = match self.check_expr(object) {
                    Some(t) => t,
                    None => {
                        return None;
                    },
                };
                let length_name = String::from_str("length");
                let has_length = match &obj_ty {
                    Type::Array(_) => true,
                    Type::Str => true,
                    _ => false,
                };
                if has_length && *field == length_name {
                    Some(Type::Int)
                } else {
                    self.error(
                        SemaError::UnknownField {
                            name: type_string(&obj_ty),
                            field: field.clone(),
                            line: *line,
                        },
                    );
                    None
                }
            },
            _ => None,
        }
    }

    fn check_array_literal_inferred(&mut self, e: &Expr) -> (ty: Option<Type>)
        requires
            *e is ArrayLiteral,
        ensures
            (final(self).state(), ty) == sc_array_literal(old(self).state(), *e),
            final(self).state().scopes == old(self).state().scopes,
        decreases e, 1int,
    {
        match e {
            Expr::ArrayLiteral { elements, line, .. } => {
                if elements.len() == 0 {
                    self.error(
                        mismatch_error(
                            String::from_str("a known element type"),
                            String::from_str("empty array literal"),
                            *line,
                        ),
                    );
                    return None;
                }
                let first_ty = match self.check_expr(&elements[0]) {
                    Some(t) => t,
                    None => {
                        return None;
                    },
                };
                let ok = self.check_all_against(elements, &first_ty, 1);
                if ok {
                    Some(Type::Array(Box::new(first_ty)))
                } else {
                    None
                }
            },
            _ => None,
        }
    }

    fn check_array_creation(&mut self, e: &Expr) -> (ty: Option<Type>)
        requires
            *e is ArrayCreation,
        ensures
            (final(self).state(), ty) == sc_array_creation(old(self).state(), *e),
            final(self).state().scopes == old(self).state().scopes,
        decreases e, 1int,
    {
        match e {
            Expr::ArrayCreation { elem_ty, size, line, .. } => {
                match self.check_expr(size) {
                    Some(t) => {
                        if t == Type::Int {
                            Some(Type::Array(Box::new(elem_ty.clone())))
                        } else {
                            self.error(
                                mismatch_error(String::from_str("Int"), type_string(&t), *line),
                            );
                            None
                        }
                    },
                    None => None,
                }
            },
            _ => None,
        }
    }
}

} // verus!
