//! The abstract syntax tree shared by the parser, the checker and the
//! interpreter.

use vstd::prelude::*;

verus! {

pub type NodeId = u32;

/// The static types of ANX values.
#[derive(Debug)]
pub enum Type {
    Int,
    Float,
    Bool,
    Str,
    Void,
    Array(Box<Type>),
}

impl Clone for Type {
    fn clone(&self) -> (res: Self)
        ensures
            res == *self,
        decreases self,
    {
        match self {
            Type::Int => Type::Int,
            Type::Float => Type::Float,
            Type::Bool => Type::Bool,
            Type::Str => Type::Str,
            Type::Void => Type::Void,
            Type::Array(elem) => Type::Array(Box::new((**elem).clone())),
        }
    }
}

impl PartialEq for Type {
    fn eq(&self, other: &Self) -> (res: bool)
        decreases self,
    {
        match (self, other) {
            (Type::Int, Type::Int) => true,
            (Type::Float, Type::Float) => true,
            (Type::Bool, Type::Bool) => true,
            (Type::Str, Type::Str) => true,
            (Type::Void, Type::Void) => true,
            (Type::Array(a), Type::Array(b)) => (**a).eq(&**b),
            _ => false,
        }
    }
}

impl vstd::std_specs::cmp::PartialEqSpecImpl for Type {
    open spec fn obeys_eq_spec() -> bool {
        true
    }

    open spec fn eq_spec(&self, other: &Self) -> bool {
        *self == *other
    }
}

/// A whole source file: its top-level declarations in order.
#[derive(Debug, PartialEq)]
pub struct Program {
    pub decls: Vec<Decl>,
}

#[derive(Debug, PartialEq)]
pub enum Decl {
    Var(VarDecl),
    Func(FuncDecl),
}

#[derive(Debug, PartialEq)]
pub struct VarDecl {
    pub id: NodeId,
    pub ty: Type,
    pub name: String,
    pub init: Option<Expr>,
    pub line: usize,
}

#[derive(Debug, Clone, PartialEq)]
pub struct Param {
    pub ty: Type,
    pub name: String,
}

#[derive(Debug, PartialEq)]
pub struct FuncDecl {
    pub id: NodeId,
    pub name: String,
    pub params: Vec<Param>,
    pub return_ty: Type,
    pub body: Block,
    pub line: usize,
}

#[derive(Debug, PartialEq)]
pub struct Block {
    pub stmts: Vec<Stmt>,
}

#[derive(Debug, PartialEq)]
pub enum Stmt {
    Expr(Expr),
    VarDecl(VarDecl),
    If(IfStmt),
    While(WhileStmt),
    For(ForStmt),
    Return(ReturnStmt),
    Block(Block),
}

#[derive(Debug, PartialEq)]
pub struct IfStmt {
    pub id: NodeId,
    pub cond: Expr,
    pub then_branch: Box<Stmt>,
    pub else_branch: Option<Box<Stmt>>,
    pub line: usize,
}

#[derive(Debug, PartialEq)]
pub struct WhileStmt {
    pub id: NodeId,
    pub cond: Expr,
    pub body: Box<Stmt>,
    pub line: usize,
}

#[derive(Debug, PartialEq)]
pub struct ForStmt {
    pub id: NodeId,
    pub init: Box<Stmt>,
    pub cond: Expr,
    pub update: Expr,
    pub body: Box<Stmt>,
    pub line: usize,
}

#[derive(Debug, PartialEq)]
pub struct ReturnStmt {
    pub id: NodeId,
    pub value: Option<Expr>,
    pub line: usize,
}

/// Binary operators. `UShr` is `>>>`, the zero-filling right shift.
#[derive(Debug, Clone, Copy, PartialEq, Eq, Structural)]
pub enum BinOp {
    Add,
    Sub,
    Mul,
    Div,
    Mod,
    Eq,
    NotEq,
    Lt,
    LtEq,
    Gt,
    GtEq,
    And,
    Or,
    BitAnd,
    BitOr,
    BitXor,
    Shl,
    Shr,
    UShr,
}

#[derive(Debug, Clone, Copy, PartialEq, Eq, Structural)]
pub enum UnOp {
    Neg,
    Not,
    BitNot,
}

#[derive(Debug, Clone, Copy, PartialEq, Eq, Structural)]
pub enum IncDecOp {
    Inc,
    Dec,
}

/// Expressions. A float literal holds its decimal source text.
#[derive(Debug, PartialEq)]
pub enum Expr {
    IntLiteral { id: NodeId, value: i64, line: usize },
    FloatLiteral { id: NodeId, value: String, line: usize },
    BoolLiteral { id: NodeId, value: bool, line: usize },
    StringLiteral { id: NodeId, value: String, line: usize },
    Null { id: NodeId, line: usize },
    Ident { id: NodeId, name: String, line: usize },
    Binary { id: NodeId, op: BinOp, left: Box<Expr>, right: Box<Expr>, line: usize },
    Unary { id: NodeId, op: UnOp, operand: Box<Expr>, line: usize },
    Assign { id: NodeId, target: Box<Expr>, value: Box<Expr>, line: usize },
    CompoundAssign { id: NodeId, op: BinOp, target: Box<Expr>, value: Box<Expr>, line: usize },
    IncDec { id: NodeId, op: IncDecOp, target: Box<Expr>, is_prefix: bool, line: usize },
    Ternary {
        id: NodeId,
        cond: Box<Expr>,
        then_branch: Box<Expr>,
        else_branch: Box<Expr>,
        line: usize,
    },
    Call { id: NodeId, callee: String, args: Vec<Expr>, line: usize },
    Index { id: NodeId, array: Box<Expr>, index: Box<Expr>, line: usize },
    FieldAccess { id: NodeId, object: Box<Expr>, field: String, line: usize },
    ArrayLiteral { id: NodeId, elements: Vec<Expr>, line: usize },
    ArrayCreation { id: NodeId, elem_ty: Type, size: Box<Expr>, line: usize },
}

impl Expr {
    pub open spec fn spec_id(&self) -> NodeId {
        match self {
            Expr::IntLiteral { id, .. } => *id,
            Expr::FloatLiteral { id, .. } => *id,
            Expr::BoolLiteral { id, .. } => *id,
            Expr::StringLiteral { id, .. } => *id,
            Expr::Null { id, .. } => *id,
            Expr::Ident { id, .. } => *id,
            Expr::Binary { id, .. } => *id,
            Expr::Unary { id, .. } => *id,
            Expr::Assign { id, .. } => *id,
            Expr::CompoundAssign { id, .. } => *id,
            Expr::IncDec { id, .. } => *id,
            Expr::Ternary { id, .. } => *id,
            Expr::Call { id, .. } => *id,
            Expr::Index { id, .. } => *id,
            Expr::FieldAccess { id, .. } => *id,
            Expr::ArrayLiteral { id, .. } => *id,
            Expr::ArrayCreation { id, .. } => *id,
        }
    }

    pub open spec fn spec_line(&self) -> usize {
        match self {
            Expr::IntLiteral { line, .. } => *line,
            Expr::FloatLiteral { line, .. } => *line,
            Expr::BoolLiteral { line, .. } => *line,
            Expr::StringLiteral { line, .. } => *line,
            Expr::Null { line, .. } => *line,
            Expr::Ident { line, .. } => *line,
            Expr::Binary { line, .. } => *line,
            Expr::Unary { line, .. } => *line,
            Expr::Assign { line, .. } => *line,
            Expr::CompoundAssign { line, .. } => *line,
            Expr::IncDec { line, .. } => *line,
            Expr::Ternary { line, .. } => *line,
            Expr::Call { line, .. } => *line,
            Expr::Index { line, .. } => *line,
            Expr::FieldAccess { line, .. } => *line,
            Expr::ArrayLiteral { line, .. } => *line,
            Expr::ArrayCreation { line, .. } => *line,
        }
    }

    /// The node id of this expression.
    #[verifier::when_used_as_spec(spec_id)]
    pub fn id(&self) -> (id: NodeId)
        ensures
            id == self.spec_id(),
    {
        match self {
            Expr::IntLiteral { id, .. } => *id,
            Expr::FloatLiteral { id, .. } => *id,
            Expr::BoolLiteral { id, .. } => *id,
            Expr::StringLiteral { id, .. } => *id,
            Expr::Null { id, .. } => *id,
            Expr::Ident { id, .. } => *id,
            Expr::Binary { id, .. } => *id,
            Expr::Unary { id, .. } => *id,
            Expr::Assign { id, .. } => *id,
            Expr::CompoundAssign { id, .. } => *id,
            Expr::IncDec { id, .. } => *id,
            Expr::Ternary { id, .. } => *id,
            Expr::Call { id, .. } => *id,
            Expr::Index { id, .. } => *id,
            Expr::FieldAccess { id, .. } => *id,
            Expr::ArrayLiteral { id, .. } => *id,
            Expr::ArrayCreation { id, .. } => *id,
        }
    }

    /// The source line of this expression.
    #[verifier::when_used_as_spec(spec_line)]
    pub fn line(&self) -> (line: usize)
        ensures
            line == self.spec_line(),
    {
        match self {
            Expr::IntLiteral { line, .. } => *line,
            Expr::FloatLiteral { line, .. } => *line,
            Expr::BoolLiteral { line, .. } => *line,
            Expr::StringLiteral { line, .. } => *line,
            Expr::Null { line, .. } => *line,
            Expr::Ident { line, .. } => *line,
            Expr::Binary { line, .. } => *line,
            Expr::Unary { line, .. } => *line,
            Expr::Assign { line, .. } => *line,
            Expr::CompoundAssign { line, .. } => *line,
            Expr::IncDec { line, .. } => *line,
            Expr::Ternary { line, .. } => *line,
            Expr::Call { line, .. } => *line,
            Expr::Index { line, .. } => *line,
            Expr::FieldAccess { line, .. } => *line,
            Expr::ArrayLiteral { line, .. } => *line,
            Expr::ArrayCreation { line, .. } => *line,
        }
    }
}

// ---- the specification's view of the tree ----

/// An expression as specifications speak of it: texts are `Seq<char>`,
/// lists are `Seq`, ids and lines are `int`.
pub enum SpecExpr {
    IntLiteral { id: int, value: i64, line: int },
    FloatLiteral { id: int, value: Seq<char>, line: int },
    BoolLiteral { id: int, value: bool, line: int },
    StringLiteral { id: int, value: Seq<char>, line: int },
    Null { id: int, line: int },
    Ident { id: int, name: Seq<char>, line: int },
    Binary { id: int, op: BinOp, left: Box<SpecExpr>, right: Box<SpecExpr>, line: int },
    Unary { id: int, op: UnOp, operand: Box<SpecExpr>, line: int },
    Assign { id: int, target: Box<SpecExpr>, value: Box<SpecExpr>, line: int },
    CompoundAssign {
        id: int,
        op: BinOp,
        target: Box<SpecExpr>,
        value: Box<SpecExpr>,
        line: int,
    },
    IncDec { id: int, op: IncDecOp, target: Box<SpecExpr>, is_prefix: bool, line: int },
    Ternary {
        id: int,
        cond: Box<SpecExpr>,
        then_branch: Box<SpecExpr>,
        else_branch: Box<SpecExpr>,
        line: int,
    },
    Call { id: int, callee: Seq<char>, args: Seq<SpecExpr>, line: int },
    Index { id: int, array: Box<SpecExpr>, index: Box<SpecExpr>, line: int },
    FieldAccess { id: int, object: Box<SpecExpr>, field: Seq<char>, line: int },
    ArrayLiteral { id: int, elements: Seq<SpecExpr>, line: int },
    ArrayCreation { id: int, elem_ty: Type, size: Box<SpecExpr>, line: int },
}

/// The number of nodes of an expression; what a walk over the tree
/// decreases.
pub open spec fn expr_size(e: Expr) -> nat
    decreases e,
{
    match e {
        Expr::Binary { left, right, .. } => 1 + expr_size(*left) + expr_size(*right),
        Expr::Unary { operand, .. } => 1 + expr_size(*operand),
        Expr::Assign { target, value, .. } => 1 + expr_size(*target) + expr_size(*value),
        Expr::CompoundAssign { target, value, .. } => 1 + expr_size(*target) + expr_size(*value),
        Expr::IncDec { target, .. } => 1 + expr_size(*target),
        Expr::Ternary { cond, then_branch, else_branch, .. } => 1 + expr_size(*cond) + expr_size(
            *then_branch,
        ) + expr_size(*else_branch),
        Expr::Call { args, .. } => 1 + exprs_size(args@, 0),
        Expr::Index { array, index, .. } => 1 + expr_size(*array) + expr_size(*index),
        Expr::FieldAccess { object, .. } => 1 + expr_size(*object),
        Expr::ArrayLiteral { elements, .. } => 1 + exprs_size(elements@, 0),
        Expr::ArrayCreation { size, .. } => 1 + expr_size(*size),
        _ => 1,
    }
}

/// The number of nodes of `es[i..]`.
pub open spec fn exprs_size(es: Seq<Expr>, i: int) -> nat
    decreases es, es.len() - i,
{
    if i < 0 || i >= es.len() {
        0
    } else {
        1 + expr_size(es[i]) + exprs_size(es, i + 1)
    }
}

pub proof fn lemma_exprs_size(es: Seq<Expr>, i: int, j: int)
    requires
        0 <= i <= j < es.len(),
    ensures
        expr_size(es[j]) < exprs_size(es, i),
        exprs_size(es, j + 1) < exprs_size(es, i),
    decreases j - i,
{
    if i < j {
        lemma_exprs_size(es, i + 1, j);
    }
}

pub open spec fn opt_expr_size(e: Option<Expr>) -> nat {
    match e {
        Some(x) => expr_size(x),
        None => 0,
    }
}

/// The number of nodes of a statement.
pub open spec fn stmt_size(s: Stmt) -> nat
    decreases s,
{
    match s {
        Stmt::Expr(e) => 1 + expr_size(e),
        Stmt::VarDecl(vd) => 1 + opt_expr_size(vd.init),
        Stmt::If(i) => 1 + expr_size(i.cond) + stmt_size(*i.then_branch) + match i.else_branch {
            Some(eb) => stmt_size(*eb),
            None => 0,
        },
        Stmt::While(w) => 1 + expr_size(w.cond) + stmt_size(*w.body),
        Stmt::For(f) => 1 + stmt_size(*f.init) + expr_size(f.cond) + expr_size(f.update)
            + stmt_size(*f.body),
        Stmt::Return(r) => 1 + opt_expr_size(r.value),
        Stmt::Block(b) => 1 + stmts_size(b.stmts@, 0),
    }
}

/// The number of nodes of `ss[i..]`.
pub open spec fn stmts_size(ss: Seq<Stmt>, i: int) -> nat
    decreases ss, ss.len() - i,
{
    if i < 0 || i >= ss.len() {
        0
    } else {
        1 + stmt_size(ss[i]) + stmts_size(ss, i + 1)
    }
}

pub proof fn lemma_stmts_size(ss: Seq<Stmt>, i: int, j: int)
    requires
        0 <= i <= j < ss.len(),
    ensures
        stmt_size(ss[j]) < stmts_size(ss, i),
        stmts_size(ss, j + 1) < stmts_size(ss, i),
    decreases j - i,
{
    if i < j {
        lemma_stmts_size(ss, i + 1, j);
    }
}

pub struct SpecVarDecl {
    pub id: int,
    pub ty: Type,
    pub name: Seq<char>,
    pub init: Option<SpecExpr>,
    pub line: int,
}

pub struct SpecParam {
    pub ty: Type,
    pub name: Seq<char>,
}

pub struct SpecFuncDecl {
    pub id: int,
    pub name: Seq<char>,
    pub params: Seq<SpecParam>,
    pub return_ty: Type,
    pub body: Seq<SpecStmt>,
    pub line: int,
}

pub enum SpecDecl {
    Var(SpecVarDecl),
    Func(SpecFuncDecl),
}

pub enum SpecStmt {
    Expr(SpecExpr),
    VarDecl(SpecVarDecl),
    If {
        id: int,
        cond: SpecExpr,
        then_branch: Box<SpecStmt>,
        else_branch: Option<Box<SpecStmt>>,
        line: int,
    },
    While { id: int, cond: SpecExpr, body: Box<SpecStmt>, line: int },
    For {
        id: int,
        init: Box<SpecStmt>,
        cond: SpecExpr,
        update: SpecExpr,
        body: Box<SpecStmt>,
        line: int,
    },
    Return { id: int, value: Option<SpecExpr>, line: int },
    Block(Seq<SpecStmt>),
}

pub open spec fn expr_view(e: Expr) -> SpecExpr
    decreases e,
{
    match e {
        Expr::IntLiteral { id, value, line } => SpecExpr::IntLiteral {
            id: id as int,
            value,
            line: line as int,
        },
        Expr::FloatLiteral { id, value, line } => SpecExpr::FloatLiteral {
            id: id as int,
            value: value@,
            line: line as int,
        },
        Expr::BoolLiteral { id, value, line } => SpecExpr::BoolLiteral {
            id: id as int,
            value,
            line: line as int,
        },
        Expr::StringLiteral { id, value, line } => SpecExpr::StringLiteral {
            id: id as int,
            value: value@,
            line: line as int,
        },
        Expr::Null { id, line } => SpecExpr::Null { id: id as int, line: line as int },
        Expr::Ident { id, name, line } => SpecExpr::Ident {
            id: id as int,
            name: name@,
            line: line as int,
        },
        Expr::Binary { id, op, left, right, line } => SpecExpr::Binary {
            id: id as int,
            op,
            left: Box::new(expr_view(*left)),
            right: Box::new(expr_view(*right)),
            line: line as int,
        },
        Expr::Unary { id, op, operand, line } => SpecExpr::Unary {
            id: id as int,
            op,
            operand: Box::new(expr_view(*operand)),
            line: line as int,
        },
        Expr::Assign { id, target, value, line } => SpecExpr::Assign {
            id: id as int,
            target: Box::new(expr_view(*target)),
            value: Box::new(expr_view(*value)),
            line: line as int,
        },
        Expr::CompoundAssign { id, op, target, value, line } => SpecExpr::CompoundAssign {
            id: id as int,
            op,
            target: Box::new(expr_view(*target)),
            value: Box::new(expr_view(*value)),
            line: line as int,
        },
        Expr::IncDec { id, op, target, is_prefix, line } => SpecExpr::IncDec {
            id: id as int,
            op,
            target: Box::new(expr_view(*target)),
            is_prefix,
            line: line as int,
        },
        Expr::Ternary { id, cond, then_branch, else_branch, line } => SpecExpr::Ternary {
            id: id as int,
            cond: Box::new(expr_view(*cond)),
            then_branch: Box::new(expr_view(*then_branch)),
            else_branch: Box::new(expr_view(*else_branch)),
            line: line as int,
        },
        Expr::Call { id, callee, args, line } => SpecExpr::Call {
            id: id as int,
            callee: callee@,
            args: exprs_view(args@),
            line: line as int,
        },
        Expr::Index { id, array, index, line } => SpecExpr::Index {
            id: id as int,
            array: Box::new(expr_view(*array)),
            index: Box::new(expr_view(*index)),
            line: line as int,
        },
        Expr::FieldAccess { id, object, field, line } => SpecExpr::FieldAccess {
            id: id as int,
            object: Box::new(expr_view(*object)),
            field: field@,
            line: line as int,
        },
        Expr::ArrayLiteral { id, elements, line } => SpecExpr::ArrayLiteral {
            id: id as int,
            elements: exprs_view(elements@),
            line: line as int,
        },
        Expr::ArrayCreation { id, elem_ty, size, line } => SpecExpr::ArrayCreation {
            id: id as int,
            elem_ty,
            size: Box::new(expr_view(*size)),
            line: line as int,
        },
    }
}

pub open spec fn exprs_view(es: Seq<Expr>) -> Seq<SpecExpr>
    decreases es,
{
    if es.len() == 0 {
        Seq::empty()
    } else {
        exprs_view(es.drop_last()).push(expr_view(es.last()))
    }
}

pub open spec fn opt_expr_view(e: Option<Expr>) -> Option<SpecExpr> {
    match e {
        Some(x) => Some(expr_view(x)),
        None => None,
    }
}

pub open spec fn var_decl_view(v: VarDecl) -> SpecVarDecl {
    SpecVarDecl {
        id: v.id as int,
        ty: v.ty,
        name: v.name@,
        init: opt_expr_view(v.init),
        line: v.line as int,
    }
}

pub open spec fn params_view(ps: Seq<Param>) -> Seq<SpecParam> {
    ps.map_values(|p: Param| SpecParam { ty: p.ty, name: p.name@ })
}

pub open spec fn stmt_view(s: Stmt) -> SpecStmt
    decreases s,
{
    match s {
        Stmt::Expr(e) => SpecStmt::Expr(expr_view(e)),
        Stmt::VarDecl(v) => SpecStmt::VarDecl(var_decl_view(v)),
        Stmt::If(i) => SpecStmt::If {
            id: i.id as int,
            cond: expr_view(i.cond),
            then_branch: Box::new(stmt_view(*i.then_branch)),
            else_branch: match i.else_branch {
                Some(e) => Some(Box::new(stmt_view(*e))),
                None => None,
            },
            line: i.line as int,
        },
        Stmt::While(w) => SpecStmt::While {
            id: w.id as int,
            cond: expr_view(w.cond),
            body: Box::new(stmt_view(*w.body)),
            line: w.line as int,
        },
        Stmt::For(f) => SpecStmt::For {
            id: f.id as int,
            init: Box::new(stmt_view(*f.init)),
            cond: expr_view(f.cond),
            update: expr_view(f.update),
            body: Box::new(stmt_view(*f.body)),
            line: f.line as int,
        },
        Stmt::Return(r) => SpecStmt::Return {
            id: r.id as int,
            value: opt_expr_view(r.value),
            line: r.line as int,
        },
        Stmt::Block(b) => SpecStmt::Block(stmts_view(b.stmts@)),
    }
}

pub open spec fn stmts_view(ss: Seq<Stmt>) -> Seq<SpecStmt>
    decreases ss,
{
    if ss.len() == 0 {
        Seq::empty()
    } else {
        stmts_view(ss.drop_last()).push(stmt_view(ss.last()))
    }
}

pub open spec fn func_decl_view(f: FuncDecl) -> SpecFuncDecl {
    SpecFuncDecl {
        id: f.id as int,
        name: f.name@,
        params: params_view(f.params@),
        return_ty: f.return_ty,
        body: stmts_view(f.body.stmts@),
        line: f.line as int,
    }
}

pub open spec fn decl_view(d: Decl) -> SpecDecl {
    match d {
        Decl::Var(v) => SpecDecl::Var(var_decl_view(v)),
        Decl::Func(f) => SpecDecl::Func(func_decl_view(f)),
    }
}

pub open spec fn decls_view(ds: Seq<Decl>) -> Seq<SpecDecl> {
    ds.map_values(|d: Decl| decl_view(d))
}

} // verus!
