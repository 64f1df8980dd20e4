//! Semantic analysis: scoping and type checking.
//!
//! The checker makes two passes over the program. The first declares every
//! function's signature, so that calls may come before definitions; the
//! second walks global variables and function bodies in source order. It
//! does not stop at the first error: it reports every error it finds, in
//! the order it finds them. On success it returns two side tables: the
//! type of every expression that has one, and the symbol each variable
//! reference resolves to.

pub mod model;
pub mod symtab;
mod types;

use crate::ast::{Decl, Expr, FuncDecl, NodeId, Program, ReturnStmt, Stmt, Type, VarDecl};
use model::{
    builtin_funcs, initial_state, is_lvalue_spec, mismatch, param_types, sc_block_from,
    sc_bodies_from, sc_condition, sc_declare_local, sc_func, sc_hoist_from, sc_params_from,
    sc_return, sc_scoped, sc_stmt, spec_check, type_text, CheckState,
};
use std::collections::HashMap;
use symtab::{FuncSig, SymbolId, SymbolTable};
use vstd::prelude::*;
use vstd::string::StringExecFns;

verus! {

broadcast use vstd::std_specs::hash::group_hash_axioms;

#[derive(Debug, PartialEq)]
pub enum SemaError {
    UndeclaredIdentifier { name: String, line: usize },
    UndeclaredFunction { name: String, line: usize },
    DuplicateDeclaration { name: String, line: usize },
    TypeMismatch { expected: String, found: String, line: usize },
    NonBoolCondition { found: String, line: usize },
    NotIndexable { found: String, line: usize },
    ArityMismatch { name: String, expected: usize, found: usize, line: usize },
    InvalidAssignTarget { line: usize },
    MissingReturn { line: usize },
    UnknownField { name: String, field: String, line: usize },
    MissingMain,
}

/// A checking error as specifications speak of it.
pub enum SpecSemaError {
    UndeclaredIdentifier { name: Seq<char>, line: usize },
    UndeclaredFunction { name: Seq<char>, line: usize },
    DuplicateDeclaration { name: Seq<char>, line: usize },
    TypeMismatch { expected: Seq<char>, found: Seq<char>, line: usize },
    NonBoolCondition { found: Seq<char>, line: usize },
    NotIndexable { found: Seq<char>, line: usize },
    ArityMismatch { name: Seq<char>, expected: nat, found: nat, line: usize },
    InvalidAssignTarget { line: usize },
    MissingReturn { line: usize },
    UnknownField { name: Seq<char>, field: Seq<char>, line: usize },
    MissingMain,
}

impl View for SemaError {
    type V = SpecSemaError;

    open spec fn view(&self) -> SpecSemaError {
        match self {
            SemaError::UndeclaredIdentifier { name, line } => SpecSemaError::UndeclaredIdentifier {
                name: name@,
                line: *line,
            },
            SemaError::UndeclaredFunction { name, line } => SpecSemaError::UndeclaredFunction {
                name: name@,
                line: *line,
            },
            SemaError::DuplicateDeclaration { name, line } => SpecSemaError::DuplicateDeclaration {
                name: name@,
                line: *line,
            },
            SemaError::TypeMismatch { expected, found, line } => SpecSemaError::TypeMismatch {
                expected: expected@,
                found: found@,
                line: *line,
            },
            SemaError::NonBoolCondition { found, line } => SpecSemaError::NonBoolCondition {
                found: found@,
                line: *line,
            },
            SemaError::NotIndexable { found, line } => SpecSemaError::NotIndexable {
                found: found@,
                line: *line,
            },
            SemaError::ArityMismatch { name, expected, found, line } => SpecSemaError::ArityMismatch {
                name: name@,
                expected: *expected as nat,
                found: *found as nat,
                line: *line,
            },
            SemaError::InvalidAssignTarget { line } => SpecSemaError::InvalidAssignTarget {
                line: *line,
            },
            SemaError::MissingReturn { line } => SpecSemaError::MissingReturn { line: *line },
            SemaError::UnknownField { name, field, line } => SpecSemaError::UnknownField {
                name: name@,
                field: field@,
                line: *line,
            },
            SemaError::MissingMain => SpecSemaError::MissingMain,
        }
    }
}

pub open spec fn errors_view(es: Seq<SemaError>) -> Seq<SpecSemaError> {
    es.map_values(|e: SemaError| e@)
}

/// The side tables that annotate the tree: the type of each expression
/// and the symbol each variable reference resolves to, keyed by node id.
#[derive(Debug)]
pub struct SemaResult {
    pub types: HashMap<NodeId, Type>,
    pub var_refs: HashMap<NodeId, SymbolId>,
}

/// Checks `program`: the side tables when no error was found, else every
/// error in the order found.
pub fn analyze(program: &Program) -> (r: Result<SemaResult, Vec<SemaError>>)
    ensures
        match r {
            Ok(res) => {
                &&& spec_check(*program).errors.len() == 0
                &&& res.types@ == spec_check(*program).types
                &&& res.var_refs@ == spec_check(*program).var_refs
            },
            Err(errs) => {
                &&& spec_check(*program).errors.len() > 0
                &&& errors_view(errs@) == spec_check(*program).errors
            },
        },
{
    Checker::new().run(program)
}

/// Only a variable or an array element can be assigned to; `.length` is
/// computed, not stored.
fn is_lvalue(e: &Expr) -> (b: bool)
    ensures
        b == is_lvalue_spec(*e),
{
    match e {
        Expr::Ident { .. } => true,
        Expr::Index { .. } => true,
        _ => false,
    }
}

/// Appends the text of `t` to `s`, as `type_text` writes it.
fn push_type_text(s: &mut String, t: &Type)
    ensures
        final(s)@ == old(s)@ + type_text(*t),
    decreases t,
{
    match t {
        Type::Int => s.append("Int"),
        Type::Float => s.append("Float"),
        Type::Bool => s.append("Bool"),
        Type::Str => s.append("Str"),
        Type::Void => s.append("Void"),
        Type::Array(e) => {
            s.append("Array(");
            push_type_text(s, &**e);
            s.append(")");
        },
    }
}

fn type_string(t: &Type) -> (s: String)
    ensures
        s@ == type_text(*t),
{
    let mut s = String::new();
    push_type_text(&mut s, t);
    s
}

/// `a/b`, the two types as `type_text` writes them.
fn pair_string(a: &Type, b: &Type) -> (s: String)
    ensures
        s@ == type_text(*a) + "/"@ + type_text(*b),
{
    let mut s = String::new();
    push_type_text(&mut s, a);
    s.append("/");
    push_type_text(&mut s, b);
    s
}

fn mismatch_error(expected: String, found: String, line: usize) -> (e: SemaError)
    ensures
        e@ == mismatch(expected@, found@, line),
{
    SemaError::TypeMismatch { expected, found, line }
}

pub(crate) struct Checker {
    pub(crate) symtab: SymbolTable,
    pub(crate) errors: Vec<SemaError>,
    pub(crate) result: SemaResult,
}

impl Checker {
    pub(crate) open spec fn state(&self) -> CheckState {
        CheckState {
            scopes: self.symtab.scopes(),
            funcs: self.symtab.functions(),
            next_id: self.symtab.next_id(),
            errors: errors_view(self.errors@),
            types: self.result.types@,
            var_refs: self.result.var_refs@,
        }
    }

    fn new() -> (c: Self)
        ensures
            c.state().scopes == seq![Map::<Seq<char>, symtab::Symbol>::empty()],
            c.state().funcs == Map::<Seq<char>, symtab::SpecFuncSig>::empty(),
            c.state().next_id == 0,
            c.state().errors == Seq::<SpecSemaError>::empty(),
            c.state().types == Map::<NodeId, Type>::empty(),
            c.state().var_refs == Map::<NodeId, SymbolId>::empty(),
    {
        let c = Checker {
            symtab: SymbolTable::new(),
            errors: Vec::new(),
            result: SemaResult { types: HashMap::new(), var_refs: HashMap::new() },
        };
        assert(c.state().errors =~= Seq::<SpecSemaError>::empty());
        c
    }

    fn error(&mut self, e: SemaError)
        ensures
            final(self).state() == old(self).state().err(e@),
    {
        let ghost ev = e@;
        self.errors.push(e);
        assert(errors_view(self.errors@) =~= errors_view(old(self).errors@).push(ev));
    }

    fn record(&mut self, id: NodeId, t: &Type)
        ensures
            final(self).state() == old(self).state().record(id, *t),
    {
        let _ = self.result.types.insert(id, t.clone());
    }

    fn refer(&mut self, id: NodeId, sym: SymbolId)
        ensures
            final(self).state() == old(self).state().refer(id, sym),
    {
        let _ = self.result.var_refs.insert(id, sym);
    }

    fn push_scope(&mut self)
        ensures
            final(self).state() == old(self).state().push_scope(),
    {
        self.symtab.push_scope();
    }

    fn pop_scope(&mut self)
        requires
            old(self).state().scopes.len() > 0,
        ensures
            final(self).state() == old(self).state().pop_scope(),
    {
        self.symtab.pop_scope();
    }

    fn declare(&mut self, name: &str, ty: &Type)
        requires
            old(self).state().scopes.len() > 0,
        ensures
            final(self).state() == old(self).state().declare(name@, *ty),
    {
        let _ = self.symtab.declare_var(name, ty.clone());
    }

    /// Declares `length`, `charAt` and `substring`, so that calls to them
    /// go through the ordinary arity and argument checks.
    fn declare_builtin_funcs(&mut self)
        ensures
            final(self).state() == (CheckState {
                funcs: old(self).state().funcs.union_prefer_right(builtin_funcs()),
                ..old(self).state()
            }),
    {
        let ghost before = self.state();
        let mut p1: Vec<Type> = Vec::new();
        p1.push(Type::Str);
        assert(p1@ =~= seq![Type::Str]);
        self.symtab.declare_func(
            String::from_str("length"),
            FuncSig { params: p1, return_ty: Type::Int },
        );
        let mut p2: Vec<Type> = Vec::new();
        p2.push(Type::Str);
        p2.push(Type::Int);
        assert(p2@ =~= seq![Type::Str, Type::Int]);
        self.symtab.declare_func(
            String::from_str("charAt"),
            FuncSig { params: p2, return_ty: Type::Str },
        );
        let mut p3: Vec<Type> = Vec::new();
        p3.push(Type::Str);
        p3.push(Type::Int);
        p3.push(Type::Int);
        assert(p3@ =~= seq![Type::Str, Type::Int, Type::Int]);
        self.symtab.declare_func(
            String::from_str("substring"),
            FuncSig { params: p3, return_ty: Type::Str },
        );
        assert(self.state().funcs =~= before.funcs.union_prefer_right(builtin_funcs()));
    }

    fn run(self, program: &Program) -> (r: Result<SemaResult, Vec<SemaError>>)
        requires
            self.state().scopes == seq![Map::<Seq<char>, symtab::Symbol>::empty()],
            self.state().funcs == Map::<Seq<char>, symtab::SpecFuncSig>::empty(),
            self.state().next_id == 0,
            self.state().errors == Seq::<SpecSemaError>::empty(),
            self.state().types == Map::<NodeId, Type>::empty(),
            self.state().var_refs == Map::<NodeId, SymbolId>::empty(),
        ensures
            match r {
                Ok(res) => {
                    &&& spec_check(*program).errors.len() == 0
                    &&& res.types@ == spec_check(*program).types
                    &&& res.var_refs@ == spec_check(*program).var_refs
                },
                Err(errs) => {
                    &&& spec_check(*program).errors.len() > 0
                    &&& errors_view(errs@) == spec_check(*program).errors
                },
            },
    {
        let mut c = self;
        c.declare_builtin_funcs();
        assert(c.state() == initial_state()) by {
            assert(Map::<Seq<char>, symtab::SpecFuncSig>::empty().union_prefer_right(
                builtin_funcs(),
            ) =~= builtin_funcs());
        }
        let decls = &program.decls;
        // Pass 1: function signatures.
        let mut i: usize = 0;
        while i < decls.len()
            invariant
                i <= decls@.len(),
                c.state().scopes.len() == 1,
                sc_hoist_from(c.state(), decls@, i as int) == sc_hoist_from(
                    initial_state(),
                    decls@,
                    0,
                ),
            decreases decls@.len() - i,
        {
            match &decls[i] {
                Decl::Func(f) => {
                    if c.symtab.resolve_func(f.name.as_str()).is_some() {
                        c.error(
                            SemaError::DuplicateDeclaration { name: f.name.clone(), line: f.line },
                        );
                    } else {
                        let mut params: Vec<Type> = Vec::new();
                        let mut j: usize = 0;
                        while j < f.params.len()
                            invariant
                                j <= f.params@.len(),
                                params@ == param_types(f.params@).take(j as int),
                            decreases f.params@.len() - j,
                        {
                            params.push(f.params[j].ty.clone());
                            j = j + 1;
                            assert(params@ =~= param_types(f.params@).take(j as int));
                        }
                        assert(params@ =~= param_types(f.params@));
                        c.symtab.declare_func(
                            f.name.clone(),
                            FuncSig { params, return_ty: f.return_ty.clone() },
                        );
                    }
                },
                Decl::Var(_) => {},
            }
            i = i + 1;
        }
        let ghost s1 = sc_hoist_from(initial_state(), decls@, 0);
        assert(c.state() == s1);
        let main_name = String::from_str("main");
        let has_valid_main = match c.symtab.resolve_func(main_name.as_str()) {
            Some(sig) => sig.params.len() == 0 && sig.return_ty == Type::Void,
            None => false,
        };
        if !has_valid_main {
            c.error(SemaError::MissingMain);
        }
        // Pass 2: globals and bodies, in source order.
        let ghost s2 = c.state();
        let mut k: usize = 0;
        while k < decls.len()
            invariant
                k <= decls@.len(),
                c.state().scopes.len() == 1,
                sc_bodies_from(c.state(), decls@, k as int) == sc_bodies_from(s2, decls@, 0),
            decreases decls@.len() - k,
        {
            match &decls[k] {
                Decl::Var(vd) => c.declare_local_var(vd),
                Decl::Func(f) => c.check_func(f),
            }
            k = k + 1;
        }
        let Checker { symtab: _, errors, result } = c;
        if errors.len() == 0 {
            Ok(result)
        } else {
            Err(errors)
        }
    }

    fn check_func(&mut self, f: &FuncDecl)
        requires
            old(self).state().scopes.len() > 0,
        ensures
            final(self).state() == sc_func(old(self).state(), *f),
            final(self).state().scopes.len() == old(self).state().scopes.len(),
    {
        self.push_scope();
        let ghost s0 = self.state();
        let mut i: usize = 0;
        while i < f.params.len()
            invariant
                i <= f.params@.len(),
                self.state().scopes.len() == s0.scopes.len(),
                s0.scopes.len() > 0,
                sc_params_from(self.state(), f.params@, i as int) == sc_params_from(
                    s0,
                    f.params@,
                    0,
                ),
            decreases f.params@.len() - i,
        {
            self.declare(f.params[i].name.as_str(), &f.params[i].ty);
            i = i + 1;
        }
        let all_return = self.check_block_stmts(&f.body.stmts, &f.return_ty);
        if !(f.return_ty == Type::Void) && !all_return {
            self.error(SemaError::MissingReturn { line: f.line });
        }
        self.pop_scope();
    }

    fn declare_local_var(&mut self, vd: &VarDecl)
        requires
            old(self).state().scopes.len() > 0,
        ensures
            final(self).state() == sc_declare_local(old(self).state(), *vd),
            final(self).state().scopes.len() == old(self).state().scopes.len(),
    {
        if self.symtab.is_declared_in_current_scope(vd.name.as_str()) {
            self.error(SemaError::DuplicateDeclaration { name: vd.name.clone(), line: vd.line });
        }
        match &vd.init {
            Some(init) => {
                let _ = self.check_expr_against(init, &vd.ty);
            },
            None => {},
        }
        self.declare(vd.name.as_str(), &vd.ty);
    }

    /// Checks a statement and says whether it all_return on every path.
    fn check_stmt(&mut self, stmt: &Stmt, return_ty: &Type) -> (all_return: bool)
        requires
            old(self).state().scopes.len() > 0,
        ensures
            (final(self).state(), all_return) == sc_stmt(old(self).state(), *stmt, *return_ty),
            final(self).state().scopes.len() == old(self).state().scopes.len(),
        decreases stmt, 1int,
    {
        match stmt {
            Stmt::Expr(e) => {
                let _ = self.check_expr(e);
                false
            },
            Stmt::VarDecl(vd) => {
                self.declare_local_var(vd);
                false
            },
            Stmt::Block(b) => {
                self.push_scope();
                let all_return = self.check_block_stmts(&b.stmts, return_ty);
                self.pop_scope();
                all_return
            },
            Stmt::If(if_stmt) => {
                self.check_condition(&if_stmt.cond);
                let then_returns = self.check_scoped_stmt(&if_stmt.then_branch, return_ty);
                let else_returns = match &if_stmt.else_branch {
                    Some(e) => self.check_scoped_stmt(e, return_ty),
                    None => false,
                };
                then_returns && else_returns
            },
            Stmt::While(w) => {
                self.check_condition(&w.cond);
                let _ = self.check_scoped_stmt(&w.body, return_ty);
                false
            },
            Stmt::For(f) => {
                self.push_scope();
                let _ = self.check_stmt(&f.init, return_ty);
                self.check_condition(&f.cond);
                let _ = self.check_expr(&f.update);
                let _ = self.check_scoped_stmt(&f.body, return_ty);
                self.pop_scope();
                false
            },
            Stmt::Return(r) => {
                self.check_return(r, return_ty);
                true
            },
        }
    }

    /// A branch or loop body gets a scope of its own unless it is a
    /// block, which opens one itself.
    fn check_scoped_stmt(&mut self, stmt: &Stmt, return_ty: &Type) -> (all_return: bool)
        requires
            old(self).state().scopes.len() > 0,
        ensures
            (final(self).state(), all_return) == sc_scoped(old(self).state(), *stmt, *return_ty),
            final(self).state().scopes.len() == old(self).state().scopes.len(),
        decreases stmt, 2int,
    {
        match stmt {
            Stmt::Block(_) => self.check_stmt(stmt, return_ty),
            _ => {
                self.push_scope();
                let all_return = self.check_stmt(stmt, return_ty);
                self.pop_scope();
                all_return
            },
        }
    }

    fn check_block_stmts(&mut self, stmts: &Vec<Stmt>, return_ty: &Type) -> (all_return: bool)
        requires
            old(self).state().scopes.len() > 0,
        ensures
            (final(self).state(), all_return) == sc_block_from(
                old(self).state(),
                stmts@,
                0,
                *return_ty,
                false,
            ),
            final(self).state().scopes.len() == old(self).state().scopes.len(),
        decreases stmts@, stmts@.len() + 1,
    {
        let ghost s0 = self.state();
        let mut all_return = false;
        let mut i: usize = 0;
        while i < stmts.len()
            invariant
                i <= stmts@.len(),
                self.state().scopes.len() == s0.scopes.len(),
                s0.scopes.len() > 0,
                sc_block_from(self.state(), stmts@, i as int, *return_ty, all_return) == sc_block_from(
                    s0,
                    stmts@,
                    0,
                    *return_ty,
                    false,
                ),
            decreases stmts@.len() - i,
        {
            if self.check_stmt(&stmts[i], return_ty) {
                all_return = true;
            }
            i = i + 1;
        }
        all_return
    }

    fn check_condition(&mut self, cond: &Expr)
        requires
            old(self).state().scopes.len() > 0,
        ensures
            final(self).state() == sc_condition(old(self).state(), *cond),
            final(self).state().scopes == old(self).state().scopes,
    {
        match self.check_expr(cond) {
            Some(ty) => {
                if !(ty == Type::Bool) {
                    self.error(
                        SemaError::NonBoolCondition { found: type_string(&ty), line: cond.line() },
                    );
                }
            },
            None => {},
        }
    }

    fn check_return(&mut self, r: &ReturnStmt, return_ty: &Type)
        requires
            old(self).state().scopes.len() > 0,
        ensures
            final(self).state() == sc_return(old(self).state(), *r, *return_ty),
            final(self).state().scopes == old(self).state().scopes,
    {
        match &r.value {
            None => {
                if !(*return_ty == Type::Void) {
                    self.error(
                        mismatch_error(type_string(return_ty), String::from_str("nothing"), r.line),
                    );
                }
            },
            Some(v) => {
                if *return_ty == Type::Void {
                    let _ = self.check_expr(v);
                    self.error(
                        mismatch_error(String::from_str("Void"), String::from_str("a value"), r.line),
                    );
                } else {
                    let _ = self.check_expr_against(v, return_ty);
                }
            },
        }
    }
}

} // verus!
