//! The parser: tokens to a syntax tree, by recursive descent.
//!
//! `grammar` states what it computes; `parse` is proved to compute exactly
//! that.

pub mod grammar;
pub mod numbering;

use crate::ast::{
    BinOp, Block, Decl, Expr, ForStmt, FuncDecl, IfStmt, IncDecOp, Param, Program, ReturnStmt,
    Stmt, Type, UnOp, VarDecl, WhileStmt, decls_view, expr_view, exprs_view, params_view,
    stmt_view, stmts_view, var_decl_view, func_decl_view, SpecExpr, SpecParam,
};
use crate::lexer::token::{kind_code, kind_text, SpecToken, Token, TokenKind, TokenKindOf};
use crate::lexer::token_views;
use grammar::{
    at_end, compound_op, is_kind, kind_at, level_op, line_at, next_pos, sp_array_creation,
    sp_array_literal, sp_assignment, sp_base_type, sp_block, sp_call_rest, sp_decl, sp_decls,
    sp_expect, sp_expr, sp_expr_list, sp_expr_stmt, sp_for, sp_func_decl_rest, sp_identifier,
    sp_if, sp_level, sp_level_rest, sp_operand, sp_params, sp_paren_cond, sp_postfix,
    sp_postfix_chain, sp_primary, sp_return, sp_stmt, sp_stmts, sp_ternary, sp_type, sp_unary,
    sp_var_decl_rest, sp_var_decl_stmt, sp_while, spec_parse, type_keyword, SpecParseError,
};
use vstd::prelude::*;
use vstd::string::StringExecFns;

verus! {

/// The parser stops at the first unexpected token.
#[derive(Debug, PartialEq)]
pub enum ParseError {
    UnexpectedToken { expected: String, found: String, line: usize },
}

impl View for ParseError {
    type V = SpecParseError;

    open spec fn view(&self) -> SpecParseError {
        match self {
            ParseError::UnexpectedToken { expected, found, line } => SpecParseError {
                expected: expected@,
                found: found@,
                line: *line as int,
            },
        }
    }
}

pub open spec fn has_eof(tokens: Seq<Token>) -> bool {
    exists|i: int| 0 <= i < tokens.len() && (#[trigger] tokens[i].kind matches TokenKindOf::Eof)
}

/// Parses a whole program. The tokens must contain an `Eof`; parsing ends
/// at the first one.
pub fn parse(tokens: Vec<Token>) -> (res: Result<Program, ParseError>)
    requires
        tokens@.len() <= u32::MAX,
        has_eof(tokens@),
    ensures
        match res {
            Ok(program) => spec_parse(token_views(tokens@)) == Ok::<
                Seq<crate::ast::SpecDecl>,
                SpecParseError,
            >(decls_view(program.decls@)),
            Err(e) => spec_parse(token_views(tokens@)) == Err::<
                Seq<crate::ast::SpecDecl>,
                SpecParseError,
            >(e@),
        },
{
    let ghost eof = choose|i: int| 0 <= i < tokens@.len() && (#[trigger] tokens@[i].kind matches TokenKindOf::Eof);
    let mut parser = Parser::new(tokens, Ghost(eof as nat));
    let ghost t = parser.toks();
    let mut decls: Vec<Decl> = Vec::new();
    assert(decls_view(decls@) =~= Seq::<crate::ast::SpecDecl>::empty());
    while !parser.is_at_end()
        invariant
            parser.wf(),
            parser.toks() == t,
            t == token_views(tokens@),
            sp_decls(t, 0, 0, Seq::empty()) == sp_decls(
                t,
                parser.pos as nat,
                parser.next_id as nat,
                decls_view(decls@),
            ),
        decreases parser.eof@ - parser.pos,
    {
        let ghost before = decls@;
        let d = match parser.parse_decl() {
            Ok(d) => d,
            Err(e) => {
                return Err(e);
            },
        };
        decls.push(d);
        assert(decls_view(decls@) =~= decls_view(before).push(crate::ast::decl_view(d)));
    }
    Ok(Program { decls })
}

/// The literal a token holds, taken out before the token is consumed.
enum Literal {
    Int(i64),
    Float(String),
    Str(String),
    Bool(bool),
    Null,
}

pub open spec fn is_literal_kind(k: crate::lexer::token::SpecTokenKind) -> bool {
    match k {
        TokenKindOf::IntLiteral(_) => true,
        TokenKindOf::FloatLiteral(_) => true,
        TokenKindOf::StringLiteral(_) => true,
        TokenKindOf::True => true,
        TokenKindOf::False => true,
        TokenKindOf::Null => true,
        _ => false,
    }
}

struct Parser {
    tokens: Vec<Token>,
    pos: usize,
    next_id: u32,
    /// The index of an `Eof` token at or after `pos`.
    eof: Ghost<nat>,
}

/// What a parsing function returned, as the grammar states it.
pub open spec fn outcome<T, V>(res: Result<T, ParseError>, view: V, pos: usize, next_id: u32) -> Result<
    (V, nat, nat),
    SpecParseError,
> {
    match res {
        Ok(_) => Ok((view, pos as nat, next_id as nat)),
        Err(e) => Err(e@),
    }
}

impl Parser {
    spec fn toks(&self) -> Seq<SpecToken> {
        token_views(self.tokens@)
    }

    spec fn wf(&self) -> bool {
        &&& self.tokens@.len() <= u32::MAX
        &&& self.pos <= self.eof@ < self.tokens@.len()
        &&& at_end(self.toks(), self.eof@)
        &&& self.next_id <= self.pos
    }

    /// `after` parsed from `self` on: same tokens, the position did not go
    /// back, and no more fresh ids were used than tokens consumed.
    spec fn advanced_to(&self, after: &Parser) -> bool {
        &&& after.tokens@ == self.tokens@
        &&& after.eof@ == self.eof@
        &&& self.pos <= after.pos
        &&& after.next_id - self.next_id <= after.pos - self.pos
    }

    fn new(tokens: Vec<Token>, eof: Ghost<nat>) -> (p: Self)
        requires
            tokens@.len() <= u32::MAX,
            eof@ < tokens@.len(),
            tokens@[eof@ as int].kind matches TokenKindOf::Eof,
        ensures
            p.wf(),
            p.tokens@ == tokens@,
            p.pos == 0,
            p.next_id == 0,
    {
        Parser { tokens, pos: 0, next_id: 0, eof }
    }

    fn fresh_id(&mut self) -> (id: u32)
        requires
            old(self).wf(),
            old(self).next_id < old(self).pos,
        ensures
            final(self).wf(),
            id == old(self).next_id,
            final(self).next_id == old(self).next_id + 1,
            final(self).pos == old(self).pos,
            final(self).tokens@ == old(self).tokens@,
            final(self).eof@ == old(self).eof@,
    {
        let id = self.next_id;
        self.next_id = self.next_id + 1;
        id
    }

    fn peek_kind(&self) -> (k: &TokenKind)
        requires
            self.wf(),
        ensures
            k@ == kind_at(self.toks(), self.pos as nat),
    {
        &self.tokens[self.pos].kind
    }

    fn peek_line(&self) -> (line: usize)
        requires
            self.wf(),
        ensures
            line as int == line_at(self.toks(), self.pos as nat),
    {
        self.tokens[self.pos].line
    }

    fn is_at_end(&self) -> (b: bool)
        requires
            self.wf(),
        ensures
            b == at_end(self.toks(), self.pos as nat),
    {
        match self.tokens[self.pos].kind {
            TokenKindOf::Eof => true,
            _ => false,
        }
    }

    /// Consumes the current token (never `Eof`) and returns its line.
    fn advance(&mut self) -> (line: usize)
        requires
            old(self).wf(),
        ensures
            final(self).wf(),
            final(self).tokens@ == old(self).tokens@,
            final(self).eof@ == old(self).eof@,
            final(self).next_id == old(self).next_id,
            final(self).pos == next_pos(old(self).toks(), old(self).pos as nat),
            line as int == line_at(old(self).toks(), old(self).pos as nat),
    {
        let line = self.tokens[self.pos].line;
        if !self.is_at_end() {
            assert(self.pos != self.eof@);
            self.pos = self.pos + 1;
        }
        line
    }

    fn check(&self, kind: &TokenKind) -> (b: bool)
        requires
            self.wf(),
        ensures
            b == is_kind(self.toks(), self.pos as nat, kind@),
    {
        self.peek_kind().code() == kind.code()
    }

    /// Consumes a token of `kind`'s variant and returns its line.
    fn expect(&mut self, kind: TokenKind) -> (res: Result<usize, ParseError>)
        requires
            old(self).wf(),
        ensures
            final(self).wf(),
            old(self).advanced_to(&*final(self)),
            final(self).next_id == old(self).next_id,
            match sp_expect(old(self).toks(), old(self).pos as nat, kind@) {
                Ok(p) => res == Ok::<usize, ParseError>(
                    line_at(old(self).toks(), old(self).pos as nat) as usize,
                ) && final(self).pos == p,
                Err(e) => res matches Err(err) && err@ == e,
            },
    {
        if self.check(&kind) {
            Ok(self.advance())
        } else {
            Err(
                ParseError::UnexpectedToken {
                    expected: kind.describe(),
                    found: self.peek_kind().describe(),
                    line: self.peek_line(),
                },
            )
        }
    }

    fn expect_identifier(&mut self) -> (res: Result<String, ParseError>)
        requires
            old(self).wf(),
        ensures
            final(self).wf(),
            old(self).advanced_to(&*final(self)),
            final(self).next_id == old(self).next_id,
            match sp_identifier(old(self).toks(), old(self).pos as nat) {
                Ok((name, p)) => res matches Ok(s) && s@ == name && final(self).pos == p,
                Err(e) => res matches Err(err) && err@ == e,
            },
    {
        let name = match self.peek_kind() {
            TokenKindOf::Identifier(name) => Some(name.clone()),
            _ => None,
        };
        match name {
            Some(name) => {
                self.advance();
                Ok(name)
            },
            None => Err(
                ParseError::UnexpectedToken {
                    expected: String::from_str("identifier"),
                    found: self.peek_kind().describe(),
                    line: self.peek_line(),
                },
            ),
        }
    }

    // ---- types ----

    /// A single primitive type keyword with no trailing `[]`: the base of
    /// `parse_type`, and the element type in `new type[size]`, where the
    /// brackets belong to the creation syntax.
    fn parse_base_type(&mut self) -> (res: Result<Type, ParseError>)
        requires
            old(self).wf(),
        ensures
            final(self).wf(),
            old(self).advanced_to(&*final(self)),
            final(self).next_id == old(self).next_id,
            match sp_base_type(old(self).toks(), old(self).pos as nat) {
                Ok((ty, p)) => res == Ok::<Type, ParseError>(ty) && final(self).pos == p,
                Err(e) => res matches Err(err) && err@ == e,
            },
    {
        let ty = match self.peek_kind() {
            TokenKindOf::Int => Type::Int,
            TokenKindOf::Float => Type::Float,
            TokenKindOf::Bool => Type::Bool,
            TokenKindOf::Str => Type::Str,
            TokenKindOf::Void => Type::Void,
            other => {
                return Err(
                    ParseError::UnexpectedToken {
                        expected: String::from_str("type"),
                        found: other.describe(),
                        line: self.peek_line(),
                    },
                );
            },
        };
        self.advance();
        Ok(ty)
    }

    fn parse_type(&mut self) -> (res: Result<Type, ParseError>)
        requires
            old(self).wf(),
        ensures
            final(self).wf(),
            old(self).advanced_to(&*final(self)),
            final(self).next_id == old(self).next_id,
            match sp_type(old(self).toks(), old(self).pos as nat) {
                Ok((ty, p)) => res == Ok::<Type, ParseError>(ty) && final(self).pos == p,
                Err(e) => res matches Err(err) && err@ == e,
            },
    {
        let base = match self.parse_base_type() {
            Ok(b) => b,
            Err(e) => {
                return Err(e);
            },
        };
        if self.check(&TokenKind::LBracket) {
            self.advance();
            match self.expect(TokenKind::RBracket) {
                Ok(_) => {},
                Err(e) => {
                    return Err(e);
                },
            }
            Ok(Type::Array(Box::new(base)))
        } else {
            Ok(base)
        }
    }

    // ---- top-level declarations ----

    fn parse_decl(&mut self) -> (res: Result<Decl, ParseError>)
        requires
            old(self).wf(),
        ensures
            final(self).wf(),
            old(self).advanced_to(&*final(self)),
            res is Ok ==> old(self).pos < final(self).pos,
            sp_decl(old(self).toks(), old(self).pos as nat, old(self).next_id as nat) == outcome(
                res,
                crate::ast::decl_view(res->Ok_0),
                final(self).pos,
                final(self).next_id,
            ),
        decreases old(self).tokens@.len() - old(self).pos, 60int,
    {
        let line = self.peek_line();
        let ty = match self.parse_type() {
            Ok(t) => t,
            Err(e) => {
                return Err(e);
            },
        };
        let name = match self.expect_identifier() {
            Ok(n) => n,
            Err(e) => {
                return Err(e);
            },
        };
        if self.check(&TokenKind::LParen) {
            match self.parse_func_decl_rest(ty, name, line) {
                Ok(f) => Ok(Decl::Func(f)),
                Err(e) => Err(e),
            }
        } else {
            match self.parse_var_decl_rest(ty, name, line) {
                Ok(v) => Ok(Decl::Var(v)),
                Err(e) => Err(e),
            }
        }
    }

    fn parse_func_decl_rest(&mut self, return_ty: Type, name: String, line: usize) -> (res: Result<
        FuncDecl,
        ParseError,
    >)
        requires
            old(self).wf(),
        ensures
            final(self).wf(),
            old(self).advanced_to(&*final(self)),
            res is Ok ==> old(self).pos < final(self).pos,
            sp_func_decl_rest(
                old(self).toks(),
                old(self).pos as nat,
                old(self).next_id as nat,
                return_ty,
                name@,
                line as int,
            ) == outcome(res, func_decl_view(res->Ok_0), final(self).pos, final(self).next_id),
        decreases old(self).tokens@.len() - old(self).pos, 55int,
    {
        match self.expect(TokenKind::LParen) {
            Ok(_) => {},
            Err(e) => {
                return Err(e);
            },
        }
        let params = if self.check(&TokenKind::RParen) {
            Vec::new()
        } else {
            match self.parse_params() {
                Ok(ps) => ps,
                Err(e) => {
                    return Err(e);
                },
            }
        };
        assert(params@.len() == 0 ==> params_view(params@) =~= Seq::<SpecParam>::empty());
        match self.expect(TokenKind::RParen) {
            Ok(_) => {},
            Err(e) => {
                return Err(e);
            },
        }
        let body = match self.parse_block() {
            Ok(b) => b,
            Err(e) => {
                return Err(e);
            },
        };
        let id = self.fresh_id();
        Ok(FuncDecl { id, name, params, return_ty, body: Block { stmts: body }, line })
    }

    /// Comma-separated `type name` parameters (at least one).
    fn parse_params(&mut self) -> (res: Result<Vec<Param>, ParseError>)
        requires
            old(self).wf(),
        ensures
            final(self).wf(),
            old(self).advanced_to(&*final(self)),
            final(self).next_id == old(self).next_id,
            match sp_params(old(self).toks(), old(self).pos as nat, Seq::empty()) {
                Ok((ps, p)) => res matches Ok(v) && params_view(v@) == ps && final(self).pos == p,
                Err(e) => res matches Err(err) && err@ == e,
            },
    {
        let ghost t = self.toks();
        let mut params: Vec<Param> = Vec::new();
        assert(params_view(params@) =~= Seq::<SpecParam>::empty());
        loop
            invariant
                self.wf(),
                old(self).advanced_to(&*self),
                self.next_id == old(self).next_id,
                t == self.toks(),
                sp_params(t, old(self).pos as nat, Seq::empty()) == sp_params(
                    t,
                    self.pos as nat,
                    params_view(params@),
                ),
            decreases self.eof@ - self.pos,
        {
            let ghost before = params@;
            let ghost p = self.pos as nat;
            let ty = match self.parse_type() {
                Ok(t) => t,
                Err(e) => {
                    return Err(e);
                },
            };
            let name = match self.expect_identifier() {
                Ok(n) => n,
                Err(e) => {
                    return Err(e);
                },
            };
            params.push(Param { ty, name });
            assert(params_view(params@) =~= params_view(before).push(
                SpecParam { ty: ty, name: name@ },
            ));
            if self.check(&TokenKind::Comma) {
                self.advance();
            } else {
                return Ok(params);
            }
        }
    }

    fn parse_var_decl_rest(&mut self, ty: Type, name: String, line: usize) -> (res: Result<
        VarDecl,
        ParseError,
    >)
        requires
            old(self).wf(),
        ensures
            final(self).wf(),
            old(self).advanced_to(&*final(self)),
            res is Ok ==> old(self).pos < final(self).pos,
            sp_var_decl_rest(
                old(self).toks(),
                old(self).pos as nat,
                old(self).next_id as nat,
                ty,
                name@,
                line as int,
            ) == outcome(res, var_decl_view(res->Ok_0), final(self).pos, final(self).next_id),
        decreases old(self).tokens@.len() - old(self).pos, 46int,
    {
        let init = if self.check(&TokenKind::Eq) {
            self.advance();
            match self.parse_expr() {
                Ok(e) => Some(e),
                Err(e) => {
                    return Err(e);
                },
            }
        } else {
            None
        };
        match self.expect(TokenKind::Semicolon) {
            Ok(_) => {},
            Err(e) => {
                return Err(e);
            },
        }
        let id = self.fresh_id();
        Ok(VarDecl { id, ty, name, init, line })
    }

    fn parse_var_decl_stmt(&mut self) -> (res: Result<Stmt, ParseError>)
        requires
            old(self).wf(),
        ensures
            final(self).wf(),
            old(self).advanced_to(&*final(self)),
            res is Ok ==> old(self).pos < final(self).pos,
            sp_var_decl_stmt(old(self).toks(), old(self).pos as nat, old(self).next_id as nat)
                == outcome(res, stmt_view(res->Ok_0), final(self).pos, final(self).next_id),
        decreases old(self).tokens@.len() - old(self).pos, 49int,
    {
        let line = self.peek_line();
        let ty = match self.parse_type() {
            Ok(t) => t,
            Err(e) => {
                return Err(e);
            },
        };
        let name = match self.expect_identifier() {
            Ok(n) => n,
            Err(e) => {
                return Err(e);
            },
        };
        match self.parse_var_decl_rest(ty, name, line) {
            Ok(vd) => Ok(Stmt::VarDecl(vd)),
            Err(e) => Err(e),
        }
    }

    // ---- statements ----

    /// `{ statements }`; returns the statements.
    #[verifier::loop_isolation(false)]
    fn parse_block(&mut self) -> (res: Result<Vec<Stmt>, ParseError>)
        requires
            old(self).wf(),
        ensures
            final(self).wf(),
            old(self).advanced_to(&*final(self)),
            res is Ok ==> old(self).pos < final(self).pos,
            sp_block(old(self).toks(), old(self).pos as nat, old(self).next_id as nat) == outcome(
                res,
                stmts_view(res->Ok_0@),
                final(self).pos,
                final(self).next_id,
            ),
        decreases old(self).tokens@.len() - old(self).pos, 48int,
    {
        let ghost t = self.toks();
        match self.expect(TokenKind::LBrace) {
            Ok(_) => {},
            Err(e) => {
                return Err(e);
            },
        }
        let ghost p1 = self.pos as nat;
        let ghost id1 = self.next_id as nat;
        let mut stmts: Vec<Stmt> = Vec::new();
        assert(stmts_view(stmts@) =~= Seq::empty());
        while !self.check(&TokenKind::RBrace) && !self.is_at_end()
            invariant
                self.wf(),
                old(self).advanced_to(&*self),
                old(self).pos < self.pos,
                t == self.toks(),
                sp_stmts(t, p1, id1, Seq::empty()) == sp_stmts(
                    t,
                    self.pos as nat,
                    self.next_id as nat,
                    stmts_view(stmts@),
                ),
            decreases self.eof@ - self.pos,
        {
            let ghost before = stmts@;
            let s = match self.parse_stmt() {
                Ok(s) => s,
                Err(e) => {
                    return Err(e);
                },
            };
            stmts.push(s);
            assert(stmts@.drop_last() =~= before);
        }
        match self.expect(TokenKind::RBrace) {
            Ok(_) => {},
            Err(e) => {
                return Err(e);
            },
        }
        Ok(stmts)
    }

    fn parse_stmt(&mut self) -> (res: Result<Stmt, ParseError>)
        requires
            old(self).wf(),
        ensures
            final(self).wf(),
            old(self).advanced_to(&*final(self)),
            res is Ok ==> old(self).pos < final(self).pos,
            sp_stmt(old(self).toks(), old(self).pos as nat, old(self).next_id as nat) == outcome(
                res,
                stmt_view(res->Ok_0),
                final(self).pos,
                final(self).next_id,
            ),
        decreases old(self).tokens@.len() - old(self).pos, 50int,
    {
        match self.peek_kind() {
            TokenKindOf::LBrace => match self.parse_block() {
                Ok(stmts) => Ok(Stmt::Block(Block { stmts })),
                Err(e) => Err(e),
            },
            TokenKindOf::If => self.parse_if(),
            TokenKindOf::While => self.parse_while(),
            TokenKindOf::For => self.parse_for(),
            TokenKindOf::Return => self.parse_return(),
            TokenKindOf::Int => self.parse_var_decl_stmt(),
            TokenKindOf::Float => self.parse_var_decl_stmt(),
            TokenKindOf::Bool => self.parse_var_decl_stmt(),
            TokenKindOf::Str => self.parse_var_decl_stmt(),
            TokenKindOf::Void => self.parse_var_decl_stmt(),
            _ => self.parse_expr_stmt(),
        }
    }

    /// `( cond )`: the condition of an `if` or a `while`.
    fn parse_paren_cond(&mut self) -> (res: Result<Expr, ParseError>)
        requires
            old(self).wf(),
        ensures
            final(self).wf(),
            old(self).advanced_to(&*final(self)),
            res is Ok ==> old(self).pos < final(self).pos,
            sp_paren_cond(old(self).toks(), old(self).pos as nat, old(self).next_id as nat)
                == outcome(res, expr_view(res->Ok_0), final(self).pos, final(self).next_id),
        decreases old(self).tokens@.len() - old(self).pos, 47int,
    {
        match self.expect(TokenKind::LParen) {
            Ok(_) => {},
            Err(e) => {
                return Err(e);
            },
        }
        let cond = match self.parse_expr() {
            Ok(c) => c,
            Err(e) => {
                return Err(e);
            },
        };
        match self.expect(TokenKind::RParen) {
            Ok(_) => {},
            Err(e) => {
                return Err(e);
            },
        }
        Ok(cond)
    }

    fn parse_if(&mut self) -> (res: Result<Stmt, ParseError>)
        requires
            old(self).wf(),
        ensures
            final(self).wf(),
            old(self).advanced_to(&*final(self)),
            res is Ok ==> old(self).pos < final(self).pos,
            sp_if(old(self).toks(), old(self).pos as nat, old(self).next_id as nat) == outcome(
                res,
                stmt_view(res->Ok_0),
                final(self).pos,
                final(self).next_id,
            ),
        decreases old(self).tokens@.len() - old(self).pos, 49int,
    {
        let line = match self.expect(TokenKind::If) {
            Ok(l) => l,
            Err(e) => {
                return Err(e);
            },
        };
        let cond = match self.parse_paren_cond() {
            Ok(c) => c,
            Err(e) => {
                return Err(e);
            },
        };
        let then_branch = match self.parse_stmt() {
            Ok(s) => Box::new(s),
            Err(e) => {
                return Err(e);
            },
        };
        let else_branch = if self.check(&TokenKind::Else) {
            self.advance();
            match self.parse_stmt() {
                Ok(s) => Some(Box::new(s)),
                Err(e) => {
                    return Err(e);
                },
            }
        } else {
            None
        };
        let id = self.fresh_id();
        Ok(Stmt::If(IfStmt { id, cond, then_branch, else_branch, line }))
    }

    fn parse_while(&mut self) -> (res: Result<Stmt, ParseError>)
        requires
            old(self).wf(),
        ensures
            final(self).wf(),
            old(self).advanced_to(&*final(self)),
            res is Ok ==> old(self).pos < final(self).pos,
            sp_while(old(self).toks(), old(self).pos as nat, old(self).next_id as nat) == outcome(
                res,
                stmt_view(res->Ok_0),
                final(self).pos,
                final(self).next_id,
            ),
        decreases old(self).tokens@.len() - old(self).pos, 49int,
    {
        let line = match self.expect(TokenKind::While) {
            Ok(l) => l,
            Err(e) => {
                return Err(e);
            },
        };
        let cond = match self.parse_paren_cond() {
            Ok(c) => c,
            Err(e) => {
                return Err(e);
            },
        };
        let body = match self.parse_stmt() {
            Ok(s) => Box::new(s),
            Err(e) => {
                return Err(e);
            },
        };
        let id = self.fresh_id();
        Ok(Stmt::While(WhileStmt { id, cond, body, line }))
    }

    fn parse_for(&mut self) -> (res: Result<Stmt, ParseError>)
        requires
            old(self).wf(),
        ensures
            final(self).wf(),
            old(self).advanced_to(&*final(self)),
            res is Ok ==> old(self).pos < final(self).pos,
            sp_for(old(self).toks(), old(self).pos as nat, old(self).next_id as nat) == outcome(
                res,
                stmt_view(res->Ok_0),
                final(self).pos,
                final(self).next_id,
            ),
        decreases old(self).tokens@.len() - old(self).pos, 49int,
    {
        let line = match self.expect(TokenKind::For) {
            Ok(l) => l,
            Err(e) => {
                return Err(e);
            },
        };
        match self.expect(TokenKind::LParen) {
            Ok(_) => {},
            Err(e) => {
                return Err(e);
            },
        }
        let init = match self.parse_var_decl_stmt() {
            Ok(s) => Box::new(s),
            Err(e) => {
                return Err(e);
            },
        };
        let cond = match self.parse_expr() {
            Ok(c) => c,
            Err(e) => {
                return Err(e);
            },
        };
        match self.expect(TokenKind::Semicolon) {
            Ok(_) => {},
            Err(e) => {
                return Err(e);
            },
        }
        let update = match self.parse_expr() {
            Ok(u) => u,
            Err(e) => {
                return Err(e);
            },
        };
        match self.expect(TokenKind::RParen) {
            Ok(_) => {},
            Err(e) => {
                return Err(e);
            },
        }
        let body = match self.parse_stmt() {
            Ok(s) => Box::new(s),
            Err(e) => {
                return Err(e);
            },
        };
        let id = self.fresh_id();
        Ok(Stmt::For(ForStmt { id, init, cond, update, body, line }))
    }

    fn parse_return(&mut self) -> (res: Result<Stmt, ParseError>)
        requires
            old(self).wf(),
        ensures
            final(self).wf(),
            old(self).advanced_to(&*final(self)),
            res is Ok ==> old(self).pos < final(self).pos,
            sp_return(old(self).toks(), old(self).pos as nat, old(self).next_id as nat) == outcome(
                res,
                stmt_view(res->Ok_0),
                final(self).pos,
                final(self).next_id,
            ),
        decreases old(self).tokens@.len() - old(self).pos, 49int,
    {
        let line = match self.expect(TokenKind::Return) {
            Ok(l) => l,
            Err(e) => {
                return Err(e);
            },
        };
        let value = if self.check(&TokenKind::Semicolon) {
            None
        } else {
            match self.parse_expr() {
                Ok(v) => Some(v),
                Err(e) => {
                    return Err(e);
                },
            }
        };
        match self.expect(TokenKind::Semicolon) {
            Ok(_) => {},
            Err(e) => {
                return Err(e);
            },
        }
        let id = self.fresh_id();
        Ok(Stmt::Return(ReturnStmt { id, value, line }))
    }

    fn parse_expr_stmt(&mut self) -> (res: Result<Stmt, ParseError>)
        requires
            old(self).wf(),
        ensures
            final(self).wf(),
            old(self).advanced_to(&*final(self)),
            res is Ok ==> old(self).pos < final(self).pos,
            sp_expr_stmt(old(self).toks(), old(self).pos as nat, old(self).next_id as nat)
                == outcome(res, stmt_view(res->Ok_0), final(self).pos, final(self).next_id),
        decreases old(self).tokens@.len() - old(self).pos, 49int,
    {
        let expr = match self.parse_expr() {
            Ok(e) => e,
            Err(e) => {
                return Err(e);
            },
        };
        match self.expect(TokenKind::Semicolon) {
            Ok(_) => {},
            Err(e) => {
                return Err(e);
            },
        }
        Ok(Stmt::Expr(expr))
    }

    // ---- expressions ----

    fn parse_expr(&mut self) -> (res: Result<Expr, ParseError>)
        requires
            old(self).wf(),
        ensures
            final(self).wf(),
            old(self).advanced_to(&*final(self)),
            sp_expr(old(self).toks(), old(self).pos as nat, old(self).next_id as nat) == outcome(
                res,
                expr_view(res->Ok_0),
                final(self).pos,
                final(self).next_id,
            ),
        decreases old(self).tokens@.len() - old(self).pos, 40int,
    {
        self.parse_assignment()
    }

    fn compound_assign_op(kind: &TokenKind) -> (op: Option<BinOp>)
        ensures
            op == compound_op(kind@),
    {
        match kind {
            TokenKindOf::PlusEq => Some(BinOp::Add),
            TokenKindOf::MinusEq => Some(BinOp::Sub),
            TokenKindOf::StarEq => Some(BinOp::Mul),
            TokenKindOf::SlashEq => Some(BinOp::Div),
            TokenKindOf::PercentEq => Some(BinOp::Mod),
            TokenKindOf::AmpEq => Some(BinOp::BitAnd),
            TokenKindOf::PipeEq => Some(BinOp::BitOr),
            TokenKindOf::CaretEq => Some(BinOp::BitXor),
            TokenKindOf::ShlEq => Some(BinOp::Shl),
            TokenKindOf::ShrEq => Some(BinOp::Shr),
            TokenKindOf::UShrEq => Some(BinOp::UShr),
            _ => None,
        }
    }

    fn parse_assignment(&mut self) -> (res: Result<Expr, ParseError>)
        requires
            old(self).wf(),
        ensures
            final(self).wf(),
            old(self).advanced_to(&*final(self)),
            sp_assignment(old(self).toks(), old(self).pos as nat, old(self).next_id as nat)
                == outcome(res, expr_view(res->Ok_0), final(self).pos, final(self).next_id),
        decreases old(self).tokens@.len() - old(self).pos, 39int,
    {
        let expr = match self.parse_ternary() {
            Ok(e) => e,
            Err(e) => {
                return Err(e);
            },
        };
        if self.check(&TokenKind::Eq) {
            let line = self.advance();
            let value = match self.parse_assignment() {
                Ok(v) => v,
                Err(e) => {
                    return Err(e);
                },
            };
            let id = self.fresh_id();
            return Ok(Expr::Assign { id, target: Box::new(expr), value: Box::new(value), line });
        }
        match Self::compound_assign_op(self.peek_kind()) {
            Some(op) => {
                let line = self.advance();
                let value = match self.parse_assignment() {
                    Ok(v) => v,
                    Err(e) => {
                        return Err(e);
                    },
                };
                let id = self.fresh_id();
                Ok(
                    Expr::CompoundAssign {
                        id,
                        op,
                        target: Box::new(expr),
                        value: Box::new(value),
                        line,
                    },
                )
            },
            None => Ok(expr),
        }
    }

    fn parse_ternary(&mut self) -> (res: Result<Expr, ParseError>)
        requires
            old(self).wf(),
        ensures
            final(self).wf(),
            old(self).advanced_to(&*final(self)),
            sp_ternary(old(self).toks(), old(self).pos as nat, old(self).next_id as nat)
                == outcome(res, expr_view(res->Ok_0), final(self).pos, final(self).next_id),
        decreases old(self).tokens@.len() - old(self).pos, 38int,
    {
        let cond = match self.parse_binary_level(10) {
            Ok(c) => c,
            Err(e) => {
                return Err(e);
            },
        };
        if self.check(&TokenKind::Question) {
            let line = self.advance();
            let then_branch = match self.parse_expr() {
                Ok(t) => t,
                Err(e) => {
                    return Err(e);
                },
            };
            match self.expect(TokenKind::Colon) {
                Ok(_) => {},
                Err(e) => {
                    return Err(e);
                },
            }
            let else_branch = match self.parse_ternary() {
                Ok(e) => e,
                Err(e) => {
                    return Err(e);
                },
            };
            let id = self.fresh_id();
            return Ok(
                Expr::Ternary {
                    id,
                    cond: Box::new(cond),
                    then_branch: Box::new(then_branch),
                    else_branch: Box::new(else_branch),
                    line,
                },
            );
        }
        Ok(cond)
    }

    /// The operator that `kind` stands for at a binary `level` (see
    /// `level_op`).
    fn binary_op_at(level: u8, kind: &TokenKind) -> (op: Option<BinOp>)
        ensures
            op == level_op(level as nat, kind@),
    {
        match kind {
            TokenKindOf::OrOr => if level == 10 { Some(BinOp::Or) } else { None },
            TokenKindOf::AndAnd => if level == 9 { Some(BinOp::And) } else { None },
            TokenKindOf::Pipe => if level == 8 { Some(BinOp::BitOr) } else { None },
            TokenKindOf::Caret => if level == 7 { Some(BinOp::BitXor) } else { None },
            TokenKindOf::Amp => if level == 6 { Some(BinOp::BitAnd) } else { None },
            TokenKindOf::EqEq => if level == 5 { Some(BinOp::Eq) } else { None },
            TokenKindOf::NotEq => if level == 5 { Some(BinOp::NotEq) } else { None },
            TokenKindOf::Lt => if level == 4 { Some(BinOp::Lt) } else { None },
            TokenKindOf::LtEq => if level == 4 { Some(BinOp::LtEq) } else { None },
            TokenKindOf::Gt => if level == 4 { Some(BinOp::Gt) } else { None },
            TokenKindOf::GtEq => if level == 4 { Some(BinOp::GtEq) } else { None },
            TokenKindOf::Shl => if level == 3 { Some(BinOp::Shl) } else { None },
            TokenKindOf::Shr => if level == 3 { Some(BinOp::Shr) } else { None },
            TokenKindOf::UShr => if level == 3 { Some(BinOp::UShr) } else { None },
            TokenKindOf::Plus => if level == 2 { Some(BinOp::Add) } else { None },
            TokenKindOf::Minus => if level == 2 { Some(BinOp::Sub) } else { None },
            TokenKindOf::Star => if level == 1 { Some(BinOp::Mul) } else { None },
            TokenKindOf::Slash => if level == 1 { Some(BinOp::Div) } else { None },
            TokenKindOf::Percent => if level == 1 { Some(BinOp::Mod) } else { None },
            _ => None,
        }
    }

    /// The operand of a binary level: the next tighter level, or a prefix
    /// expression below level 1.
    fn parse_operand(&mut self, level: u8) -> (res: Result<Expr, ParseError>)
        requires
            old(self).wf(),
            1 <= level <= 10,
        ensures
            final(self).wf(),
            old(self).advanced_to(&*final(self)),
            sp_operand(old(self).toks(), old(self).pos as nat, old(self).next_id as nat, level as nat)
                == outcome(res, expr_view(res->Ok_0), final(self).pos, final(self).next_id),
        decreases old(self).tokens@.len() - old(self).pos, 10 + 2 * level,
    {
        if level <= 1 {
            self.parse_unary()
        } else {
            self.parse_binary_level(level - 1)
        }
    }

    /// One left-associative binary level, from 1 (`*` `/` `%`, the
    /// tightest) to 10 (`||`): operands separated by its operators.
    fn parse_binary_level(&mut self, level: u8) -> (res: Result<Expr, ParseError>)
        requires
            old(self).wf(),
            1 <= level <= 10,
        ensures
            final(self).wf(),
            old(self).advanced_to(&*final(self)),
            sp_level(old(self).toks(), old(self).pos as nat, old(self).next_id as nat, level as nat)
                == outcome(res, expr_view(res->Ok_0), final(self).pos, final(self).next_id),
        decreases old(self).tokens@.len() - old(self).pos, 11 + 2 * level,
    {
        let ghost t = self.toks();
        let mut expr = match self.parse_operand(level) {
            Ok(e) => e,
            Err(e) => {
                return Err(e);
            },
        };
        loop
            invariant
                self.wf(),
                old(self).advanced_to(&*self),
                t == self.toks(),
                1 <= level <= 10,
                sp_level(t, old(self).pos as nat, old(self).next_id as nat, level as nat)
                    == sp_level_rest(
                    t,
                    self.pos as nat,
                    self.next_id as nat,
                    level as nat,
                    expr_view(expr),
                ),
            decreases self.eof@ - self.pos,
        {
            let op = match Self::binary_op_at(level, self.peek_kind()) {
                Some(op) => op,
                None => {
                    return Ok(expr);
                },
            };
            let line = self.advance();
            let right = match self.parse_operand(level) {
                Ok(r) => r,
                Err(e) => {
                    return Err(e);
                },
            };
            let id = self.fresh_id();
            expr = Expr::Binary { id, op, left: Box::new(expr), right: Box::new(right), line };
        }
    }

    fn parse_unary(&mut self) -> (res: Result<Expr, ParseError>)
        requires
            old(self).wf(),
        ensures
            final(self).wf(),
            old(self).advanced_to(&*final(self)),
            sp_unary(old(self).toks(), old(self).pos as nat, old(self).next_id as nat) == outcome(
                res,
                expr_view(res->Ok_0),
                final(self).pos,
                final(self).next_id,
            ),
        decreases old(self).tokens@.len() - old(self).pos, 9int,
    {
        let inc_dec = if self.check(&TokenKind::PlusPlus) {
            Some(IncDecOp::Inc)
        } else if self.check(&TokenKind::MinusMinus) {
            Some(IncDecOp::Dec)
        } else {
            None
        };
        if let Some(op) = inc_dec {
            let line = self.advance();
            // The operand of a prefix `++`/`--` binds at unary precedence, so
            // `++arr[i]` targets the index expression.
            let target = match self.parse_unary() {
                Ok(t) => t,
                Err(e) => {
                    return Err(e);
                },
            };
            let id = self.fresh_id();
            return Ok(Expr::IncDec { id, op, target: Box::new(target), is_prefix: true, line });
        }
        let un_op = if self.check(&TokenKind::Bang) {
            Some(UnOp::Not)
        } else if self.check(&TokenKind::Tilde) {
            Some(UnOp::BitNot)
        } else if self.check(&TokenKind::Minus) {
            Some(UnOp::Neg)
        } else {
            None
        };
        if let Some(op) = un_op {
            let line = self.advance();
            let operand = match self.parse_unary() {
                Ok(o) => o,
                Err(e) => {
                    return Err(e);
                },
            };
            let id = self.fresh_id();
            return Ok(Expr::Unary { id, op, operand: Box::new(operand), line });
        }
        self.parse_postfix()
    }

    /// A primary expression, its chain of `[index]` and `.field`, then at
    /// most one postfix `++`/`--`: that binds once, after the whole chain
    /// (`arr[i]++`), and does not repeat (`x++++` is an error).
    /// A primary expression, its chain of `[index]` and `.field`, then at
    /// most one postfix `++`/`--`: that binds once, after the whole chain
    /// (`arr[i]++`), and does not repeat (`x++++` is an error).
    #[verifier::rlimit(100)]
    #[verifier::spinoff_prover]
    fn parse_postfix(&mut self) -> (res: Result<Expr, ParseError>)
        requires
            old(self).wf(),
        ensures
            final(self).wf(),
            old(self).advanced_to(&*final(self)),
            sp_postfix(old(self).toks(), old(self).pos as nat, old(self).next_id as nat)
                == outcome(res, expr_view(res->Ok_0), final(self).pos, final(self).next_id),
        decreases old(self).tokens@.len() - old(self).pos, 8int,
    {
        let primary = match self.parse_primary() {
            Ok(e) => e,
            Err(e) => {
                return Err(e);
            },
        };
        let mut expr = match self.parse_postfix_chain(primary) {
            Ok(e) => e,
            Err(e) => {
                return Err(e);
            },
        };
        let inc_dec = if self.check(&TokenKind::PlusPlus) {
            Some(IncDecOp::Inc)
        } else if self.check(&TokenKind::MinusMinus) {
            Some(IncDecOp::Dec)
        } else {
            None
        };
        if let Some(op) = inc_dec {
            let line = self.advance();
            let id = self.fresh_id();
            expr = Expr::IncDec { id, op, target: Box::new(expr), is_prefix: false, line };
        }
        Ok(expr)
    }

    /// The `[index]` and `.field` suffixes after `expr`.
    #[verifier::spinoff_prover]
    #[verifier::loop_isolation(false)]
    fn parse_postfix_chain(&mut self, expr: Expr) -> (res: Result<Expr, ParseError>)
        requires
            old(self).wf(),
        ensures
            final(self).wf(),
            old(self).advanced_to(&*final(self)),
            sp_postfix_chain(
                old(self).toks(),
                old(self).pos as nat,
                old(self).next_id as nat,
                expr_view(expr),
            ) == outcome(res, expr_view(res->Ok_0), final(self).pos, final(self).next_id),
        decreases old(self).tokens@.len() - old(self).pos, 7int,
    {
        let ghost t = self.toks();
        let ghost e0 = expr_view(expr);
        let mut expr = expr;
        loop
            invariant
                self.wf(),
                old(self).advanced_to(&*self),
                t == self.toks(),
                sp_postfix_chain(t, old(self).pos as nat, old(self).next_id as nat, e0)
                    == sp_postfix_chain(t, self.pos as nat, self.next_id as nat, expr_view(expr)),
            decreases self.eof@ - self.pos,
        {
            if self.check(&TokenKind::LBracket) {
                let line = self.advance();
                let index = match self.parse_expr() {
                    Ok(i) => i,
                    Err(e) => {
                        return Err(e);
                    },
                };
                match self.expect(TokenKind::RBracket) {
                    Ok(_) => {},
                    Err(e) => {
                        return Err(e);
                    },
                }
                let id = self.fresh_id();
                expr = Expr::Index { id, array: Box::new(expr), index: Box::new(index), line };
            } else if self.check(&TokenKind::Dot) {
                let line = self.advance();
                let field = match self.expect_identifier() {
                    Ok(f) => f,
                    Err(e) => {
                        return Err(e);
                    },
                };
                let id = self.fresh_id();
                expr = Expr::FieldAccess { id, object: Box::new(expr), field, line };
            } else {
                return Ok(expr);
            }
        }
    }

    #[verifier::rlimit(100)]
    #[verifier::spinoff_prover]
    fn parse_array_creation(&mut self) -> (res: Result<Expr, ParseError>)
        requires
            old(self).wf(),
        ensures
            final(self).wf(),
            old(self).advanced_to(&*final(self)),
            sp_array_creation(old(self).toks(), old(self).pos as nat, old(self).next_id as nat)
                == outcome(res, expr_view(res->Ok_0), final(self).pos, final(self).next_id),
        decreases old(self).tokens@.len() - old(self).pos, 5int,
    {
        let line = match self.expect(TokenKind::New) {
            Ok(l) => l,
            Err(e) => {
                return Err(e);
            },
        };
        let elem_ty = match self.parse_base_type() {
            Ok(t) => t,
            Err(e) => {
                return Err(e);
            },
        };
        match self.expect(TokenKind::LBracket) {
            Ok(_) => {},
            Err(e) => {
                return Err(e);
            },
        }
        let size = match self.parse_expr() {
            Ok(s) => s,
            Err(e) => {
                return Err(e);
            },
        };
        match self.expect(TokenKind::RBracket) {
            Ok(_) => {},
            Err(e) => {
                return Err(e);
            },
        }
        let id = self.fresh_id();
        Ok(Expr::ArrayCreation { id, elem_ty, size: Box::new(size), line })
    }

    /// One or more comma-separated expressions: array elements or call
    /// arguments.
    fn parse_expr_list(&mut self) -> (res: Result<Vec<Expr>, ParseError>)
        requires
            old(self).wf(),
        ensures
            final(self).wf(),
            old(self).advanced_to(&*final(self)),
            sp_expr_list(
                old(self).toks(),
                old(self).pos as nat,
                old(self).next_id as nat,
                Seq::empty(),
            ) == outcome(res, exprs_view(res->Ok_0@), final(self).pos, final(self).next_id),
        decreases old(self).tokens@.len() - old(self).pos, 45int,
    {
        let ghost t = self.toks();
        let mut items: Vec<Expr> = Vec::new();
        assert(exprs_view(items@) =~= Seq::<SpecExpr>::empty());
        loop
            invariant
                self.wf(),
                old(self).advanced_to(&*self),
                t == self.toks(),
                sp_expr_list(t, old(self).pos as nat, old(self).next_id as nat, Seq::empty())
                    == sp_expr_list(t, self.pos as nat, self.next_id as nat, exprs_view(items@)),
            decreases self.eof@ - self.pos,
        {
            let ghost before = items@;
            let e = match self.parse_expr() {
                Ok(e) => e,
                Err(e) => {
                    return Err(e);
                },
            };
            items.push(e);
            assert(items@.drop_last() =~= before);
            if self.check(&TokenKind::Comma) {
                self.advance();
            } else {
                return Ok(items);
            }
        }
    }

    fn parse_array_literal(&mut self) -> (res: Result<Expr, ParseError>)
        requires
            old(self).wf(),
        ensures
            final(self).wf(),
            old(self).advanced_to(&*final(self)),
            sp_array_literal(old(self).toks(), old(self).pos as nat, old(self).next_id as nat)
                == outcome(res, expr_view(res->Ok_0), final(self).pos, final(self).next_id),
        decreases old(self).tokens@.len() - old(self).pos, 5int,
    {
        let line = match self.expect(TokenKind::LBracket) {
            Ok(l) => l,
            Err(e) => {
                return Err(e);
            },
        };
        let elements = if self.check(&TokenKind::RBracket) {
            let v: Vec<Expr> = Vec::new();
            assert(exprs_view(v@) =~= Seq::<SpecExpr>::empty());
            v
        } else {
            match self.parse_expr_list() {
                Ok(v) => v,
                Err(e) => {
                    return Err(e);
                },
            }
        };
        match self.expect(TokenKind::RBracket) {
            Ok(_) => {},
            Err(e) => {
                return Err(e);
            },
        }
        let id = self.fresh_id();
        Ok(Expr::ArrayLiteral { id, elements, line })
    }

    fn parse_call_rest(&mut self, callee: String, line: usize) -> (res: Result<Expr, ParseError>)
        requires
            old(self).wf(),
        ensures
            final(self).wf(),
            old(self).advanced_to(&*final(self)),
            sp_call_rest(
                old(self).toks(),
                old(self).pos as nat,
                old(self).next_id as nat,
                callee@,
                line as int,
            ) == outcome(res, expr_view(res->Ok_0), final(self).pos, final(self).next_id),
        decreases old(self).tokens@.len() - old(self).pos, 5int,
    {
        match self.expect(TokenKind::LParen) {
            Ok(_) => {},
            Err(e) => {
                return Err(e);
            },
        }
        let args = if self.check(&TokenKind::RParen) {
            let v: Vec<Expr> = Vec::new();
            assert(exprs_view(v@) =~= Seq::<SpecExpr>::empty());
            v
        } else {
            match self.parse_expr_list() {
                Ok(v) => v,
                Err(e) => {
                    return Err(e);
                },
            }
        };
        match self.expect(TokenKind::RParen) {
            Ok(_) => {},
            Err(e) => {
                return Err(e);
            },
        }
        let id = self.fresh_id();
        Ok(Expr::Call { id, callee, args, line })
    }

    /// Whether the current token is a literal or `null`.
    fn at_literal(&self) -> (b: bool)
        requires
            self.wf(),
        ensures
            b == is_literal_kind(kind_at(self.toks(), self.pos as nat)),
    {
        match self.peek_kind() {
            TokenKindOf::IntLiteral(_) => true,
            TokenKindOf::FloatLiteral(_) => true,
            TokenKindOf::StringLiteral(_) => true,
            TokenKindOf::True => true,
            TokenKindOf::False => true,
            TokenKindOf::Null => true,
            _ => false,
        }
    }

    /// A literal or `null` at the current token.
    #[verifier::spinoff_prover]
    fn parse_literal(&mut self) -> (e: Expr)
        requires
            old(self).wf(),
            old(self).next_id < u32::MAX,
            is_literal_kind(kind_at(old(self).toks(), old(self).pos as nat)),
        ensures
            final(self).wf(),
            old(self).advanced_to(&*final(self)),
            sp_primary(old(self).toks(), old(self).pos as nat, old(self).next_id as nat)
                == Ok::<(SpecExpr, nat, nat), SpecParseError>(
                (expr_view(e), final(self).pos as nat, final(self).next_id as nat),
            ),
    {
        let line = self.peek_line();
        let lit = match self.peek_kind() {
            TokenKindOf::IntLiteral(value) => Literal::Int(*value),
            TokenKindOf::FloatLiteral(text) => Literal::Float(text.clone()),
            TokenKindOf::StringLiteral(text) => Literal::Str(text.clone()),
            TokenKindOf::True => Literal::Bool(true),
            TokenKindOf::False => Literal::Bool(false),
            _ => Literal::Null,
        };
        self.advance();
        let id = self.fresh_id();
        match lit {
            Literal::Int(value) => Expr::IntLiteral { id, value, line },
            Literal::Float(value) => Expr::FloatLiteral { id, value, line },
            Literal::Str(value) => Expr::StringLiteral { id, value, line },
            Literal::Bool(value) => Expr::BoolLiteral { id, value, line },
            Literal::Null => Expr::Null { id, line },
        }
    }

    #[verifier::rlimit(100)]
    #[verifier::spinoff_prover]
    fn parse_primary(&mut self) -> (res: Result<Expr, ParseError>)
        requires
            old(self).wf(),
        ensures
            final(self).wf(),
            old(self).advanced_to(&*final(self)),
            sp_primary(old(self).toks(), old(self).pos as nat, old(self).next_id as nat)
                == outcome(res, expr_view(res->Ok_0), final(self).pos, final(self).next_id),
        decreases old(self).tokens@.len() - old(self).pos, 6int,
    {
        if self.at_literal() {
            return Ok(self.parse_literal());
        }
        let line = self.peek_line();
        match self.peek_kind() {
            TokenKindOf::New => self.parse_array_creation(),
            TokenKindOf::LBracket => self.parse_array_literal(),
            TokenKindOf::Identifier(name) => {
                let name = name.clone();
                self.advance();
                if self.check(&TokenKind::LParen) {
                    self.parse_call_rest(name, line)
                } else {
                    let id = self.fresh_id();
                    Ok(Expr::Ident { id, name, line })
                }
            },
            TokenKindOf::LParen => {
                self.advance();
                let expr = match self.parse_expr() {
                    Ok(e) => e,
                    Err(e) => {
                        return Err(e);
                    },
                };
                match self.expect(TokenKind::RParen) {
                    Ok(_) => {},
                    Err(e) => {
                        return Err(e);
                    },
                }
                Ok(expr)
            },
            other => Err(
                ParseError::UnexpectedToken {
                    expected: String::from_str("expression"),
                    found: other.describe(),
                    line,
                },
            ),
        }
    }
}

} // verus!
