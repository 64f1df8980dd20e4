//! Evaluation of expressions and execution of statements.

use super::model::{
    bind_params, binary_value, bool_of, call_function, cells_eq, ev_args_from, ev_assign,
    ev_binary, ev_call, ev_compound, ev_expr, ev_inc_dec, ex_block_from, ex_for_loop, ex_scoped,
    ex_stmt, ex_while, int_bit_op, step_value, unary_value, values_eq, SpecFlow,
};
use super::value::{
    answers, as_bool, ask, float_unit, printer, format_value, numeric_cmp, numeric_op, values_view, FloatAnswer,
    FloatQuery, NumOrder, SpecValue, Value, ONE_BITS,
};
use super::{builtin, find_function, flow_res, value_res, Flow, Halt, Machine, RuntimeError};
use crate::ast::{
    expr_size, exprs_size, lemma_exprs_size, lemma_stmts_size, stmt_size, stmts_size, BinOp, Decl,
    Expr, FuncDecl, IncDecOp, Stmt, UnOp,
};
use crate::interp::scope::Scope;
use vstd::prelude::*;
use vstd::string::StringExecFns;

verus! {

fn bool_value(v: &Value) -> (r: Result<bool, Halt>)
    ensures
        r == bool_of(v@),
{
    match as_bool(v) {
        Some(b) => Ok(b),
        None => Err(Halt::Unchecked),
    }
}

fn unary_op<F: Fn(FloatQuery) -> FloatAnswer>(op: UnOp, v: &Value, floats: &F) -> (r: Result<
    Value,
    Halt,
>)
    requires
        float_unit(*floats),
    ensures
        value_res(r) == unary_value(op, v@, answers(*floats)),
{
    match (op, v) {
        (UnOp::Neg, Value::Int(a)) => Ok(Value::Int(0i64.wrapping_sub(*a))),
        (UnOp::Neg, Value::Float(a)) => match ask(floats, FloatQuery::Negate(*a)) {
            FloatAnswer::Bits(b) => Ok(Value::Float(b)),
            _ => Err(Halt::Unchecked),
        },
        (UnOp::Not, Value::Bool(b)) => Ok(Value::Bool(!*b)),
        (UnOp::BitNot, Value::Int(a)) => Ok(Value::Int(!*a)),
        _ => Err(Halt::Unchecked),
    }
}

fn step_op<F: Fn(FloatQuery) -> FloatAnswer>(op: IncDecOp, v: &Value, floats: &F) -> (r: Result<
    Value,
    Halt,
>)
    requires
        float_unit(*floats),
    ensures
        value_res(r) == step_value(op, v@, answers(*floats)),
{
    match v {
        Value::Int(a) => Ok(
            Value::Int(
                if op == IncDecOp::Inc {
                    a.wrapping_add(1)
                } else {
                    a.wrapping_sub(1)
                },
            ),
        ),
        Value::Float(a) => {
            let aop = if op == IncDecOp::Inc {
                BinOp::Add
            } else {
                BinOp::Sub
            };
            match ask(floats, FloatQuery::Arith(aop, *a, ONE_BITS)) {
                FloatAnswer::Bits(b) => Ok(Value::Float(b)),
                _ => Err(Halt::Unchecked),
            }
        },
        _ => Err(Halt::Unchecked),
    }
}

fn int_bits(op: BinOp, a: i64, b: i64) -> (r: i64)
    ensures
        r == int_bit_op(op, a, b),
{
    match op {
        BinOp::BitAnd => a & b,
        BinOp::BitOr => a | b,
        BinOp::BitXor => a ^ b,
        BinOp::Shl => a.wrapping_shl(b as u32),
        BinOp::Shr => a.wrapping_shr(b as u32),
        _ => ((a as u64).wrapping_shr(b as u32)) as i64,
    }
}

impl Machine {
    /// How deep array equality may look: as many levels as there are
    /// arrays.
    fn heap_depth(&self) -> (d: u64)
        ensures
            d as nat == self@.heap.len(),
    {
        self.heap.len() as u64
    }

    /// Whether two values are equal, arrays compared cell by cell.
    fn values_equal<F: Fn(FloatQuery) -> FloatAnswer>(
        &self,
        a: &Value,
        b: &Value,
        floats: &F,
        depth: u64,
    ) -> (r: Result<bool, Halt>)
        requires
            float_unit(*floats),
        ensures
            r == values_eq(self@.heap, a@, b@, answers(*floats), depth as nat),
        decreases depth, 0int,
    {
        match (a, b) {
            (Value::Int(x), Value::Int(y)) => Ok(*x == *y),
            (Value::Float(x), Value::Float(y)) => match ask(floats, FloatQuery::Compare(*x, *y)) {
                FloatAnswer::Order(o) => Ok(o == super::value::FloatOrder::Equal),
                _ => Err(Halt::Unchecked),
            },
            (Value::Bool(x), Value::Bool(y)) => Ok(*x == *y),
            (Value::Str(x), Value::Str(y)) => Ok(*x == *y),
            (Value::Void, Value::Void) => Ok(true),
            (Value::Array(i), Value::Array(j)) => {
                if *i >= self.heap.len() || *j >= self.heap.len() || depth == 0 {
                    Err(Halt::Unchecked)
                } else if self.heap[*i].len() != self.heap[*j].len() {
                    Ok(false)
                } else {
                    self.cells_equal(&self.heap[*i], &self.heap[*j], floats, depth - 1)
                }
            },
            (Value::Int(_), _) => Ok(false),
            (Value::Float(_), _) => Ok(false),
            (Value::Bool(_), _) => Ok(false),
            (Value::Str(_), _) => Ok(false),
            (Value::Array(_), _) => Ok(false),
            (Value::Void, _) => Ok(false),
        }
    }

    #[verifier::loop_isolation(false)]
    fn cells_equal<F: Fn(FloatQuery) -> FloatAnswer>(
        &self,
        xs: &Vec<Value>,
        ys: &Vec<Value>,
        floats: &F,
        depth: u64,
    ) -> (r: Result<bool, Halt>)
        requires
            float_unit(*floats),
        ensures
            r == cells_eq(self@.heap, values_view(xs@), values_view(ys@), 0, answers(*floats), depth as nat),
        decreases depth, 1int,
    {
        let ghost fo = answers(*floats);
        let ghost xv = values_view(xs@);
        let ghost yv = values_view(ys@);
        let mut k: usize = 0;
        while k < xs.len() && k < ys.len()
            invariant
                float_unit(*floats),
                fo == answers(*floats),
                xv == values_view(xs@),
                yv == values_view(ys@),
                k <= xs@.len(),
                cells_eq(self@.heap, xv, yv, k as int, fo, depth as nat) == cells_eq(
                    self@.heap,
                    xv,
                    yv,
                    0,
                    fo,
                    depth as nat,
                ),
            decreases xs@.len() - k,
        {
            match self.values_equal(&xs[k], &ys[k], floats, depth) {
                Err(h) => {
                    return Err(h);
                },
                Ok(false) => {
                    return Ok(false);
                },
                Ok(true) => {},
            }
            k = k + 1;
        }
        Ok(true)
    }

    /// `l op r` once both operands are known.
    fn binary_op<F: Fn(FloatQuery) -> FloatAnswer>(
        &self,
        op: BinOp,
        l: &Value,
        r: &Value,
        floats: &F,
    ) -> (res: Result<Value, Halt>)
        requires
            float_unit(*floats),
        ensures
            value_res(res) == binary_value(self@.heap, op, l@, r@, answers(*floats)),
    {
        match op {
            BinOp::Add => match (l, r) {
                (Value::Str(a), Value::Str(b)) => {
                    let mut s = a.clone();
                    s.append(b.as_str());
                    Ok(Value::Str(s))
                },
                _ => match numeric_op(op, l, r, floats) {
                    Some(v) => Ok(v),
                    None => Err(Halt::Unchecked),
                },
            },
            BinOp::Sub | BinOp::Mul => match numeric_op(op, l, r, floats) {
                Some(v) => Ok(v),
                None => Err(Halt::Unchecked),
            },
            BinOp::Div => match (l, r) {
                (Value::Int(a), Value::Int(b)) => {
                    if *b == 0 {
                        Err(Halt::Runtime(RuntimeError::DivisionByZero))
                    } else {
                        Ok(
                            Value::Int(
                                match a.checked_div(*b) {
                                    Some(q) => q,
                                    None => i64::MIN,
                                },
                            ),
                        )
                    }
                },
                (Value::Float(a), Value::Float(b)) => match ask(
                    floats,
                    FloatQuery::Arith(op, *a, *b),
                ) {
                    FloatAnswer::Bits(bits) => Ok(Value::Float(bits)),
                    _ => Err(Halt::Unchecked),
                },
                _ => Err(Halt::Unchecked),
            },
            BinOp::Mod => match (l, r) {
                (Value::Int(a), Value::Int(b)) => {
                    if *b == 0 {
                        Err(Halt::Runtime(RuntimeError::DivisionByZero))
                    } else {
                        Ok(
                            Value::Int(
                                match a.checked_rem(*b) {
                                    Some(m) => m,
                                    None => 0,
                                },
                            ),
                        )
                    }
                },
                (Value::Float(a), Value::Float(b)) => match ask(
                    floats,
                    FloatQuery::Arith(op, *a, *b),
                ) {
                    FloatAnswer::Bits(bits) => Ok(Value::Float(bits)),
                    _ => Err(Halt::Unchecked),
                },
                _ => Err(Halt::Unchecked),
            },
            BinOp::BitAnd | BinOp::BitOr | BinOp::BitXor | BinOp::Shl | BinOp::Shr | BinOp::UShr => {
                match (l, r) {
                    (Value::Int(a), Value::Int(b)) => Ok(Value::Int(int_bits(op, *a, *b))),
                    _ => Err(Halt::Unchecked),
                }
            },
            BinOp::Lt | BinOp::LtEq | BinOp::Gt | BinOp::GtEq => match numeric_cmp(l, r, floats) {
                Some(o) => Ok(
                    Value::Bool(
                        match op {
                            BinOp::Lt => o == NumOrder::Less,
                            BinOp::LtEq => o != NumOrder::Greater,
                            BinOp::Gt => o == NumOrder::Greater,
                            _ => o != NumOrder::Less,
                        },
                    ),
                ),
                None => Err(Halt::Unchecked),
            },
            BinOp::Eq | BinOp::NotEq => {
                match self.values_equal(l, r, floats, self.heap_depth()) {
                    Ok(b) => Ok(
                        Value::Bool(
                            if op == BinOp::Eq {
                                b
                            } else {
                                !b
                            },
                        ),
                    ),
                    Err(h) => Err(h),
                }
            },
            BinOp::And | BinOp::Or => Err(Halt::Unchecked),
        }
    }

    /// Evaluates `es` in turn; the first halt stops it.
    #[verifier::loop_isolation(false)]
    fn eval_args<F: Fn(FloatQuery) -> FloatAnswer, P: Fn(&str)>(
        &mut self,
        decls: &Vec<Decl>,
        floats: &F,
        sink: &P,
        es: &Vec<Expr>,
        fuel: u64,
    ) -> (r: Result<Vec<Value>, Halt>)
        requires
            float_unit(*floats),
            printer(*sink),
        ensures
            (final(self)@, match r {
                Ok(vs) => Ok::<Seq<SpecValue>, Halt>(values_view(vs@)),
                Err(h) => Err(h),
            }) == ev_args_from(old(self)@, es@, 0, Seq::empty(), decls@, answers(*floats), fuel as nat),
        decreases fuel, exprs_size(es@, 0), 3int,
    {
        let ghost fo = answers(*floats);
        let ghost s0 = self@;
        let mut vals: Vec<Value> = Vec::new();
        let mut i: usize = 0;
        assert(values_view(vals@) =~= Seq::<SpecValue>::empty());
        while i < es.len()
            invariant
                i <= es@.len(),
                float_unit(*floats),
                printer(*sink),
                fo == answers(*floats),
                ev_args_from(self@, es@, i as int, values_view(vals@), decls@, fo, fuel as nat)
                    == ev_args_from(s0, es@, 0, Seq::empty(), decls@, fo, fuel as nat),
            decreases es@.len() - i,
        {
            proof {
                lemma_exprs_size(es@, 0, i as int);
            }
            match self.eval_expr(decls, floats, sink, &es[i], fuel) {
                Ok(v) => {
                    let ghost before = values_view(vals@);
                    let ghost vv = v@;
                    vals.push(v);
                    assert(values_view(vals@) =~= before.push(vv));
                },
                Err(h) => {
                    return Err(h);
                },
            }
            i = i + 1;
        }
        Ok(vals)
    }

    /// Evaluates an expression.
    pub(crate) fn eval_expr<F: Fn(FloatQuery) -> FloatAnswer, P: Fn(&str)>(
        &mut self,
        decls: &Vec<Decl>,
        floats: &F,
        sink: &P,
        e: &Expr,
        fuel: u64,
    ) -> (r: Result<Value, Halt>)
        requires
            float_unit(*floats),
            printer(*sink),
        ensures
            (final(self)@, value_res(r)) == ev_expr(old(self)@, *e, decls@, answers(*floats), fuel as nat),
        decreases fuel, expr_size(*e), 2int,
    {
        match e {
            Expr::IntLiteral { value, .. } => Ok(Value::Int(*value)),
            Expr::FloatLiteral { value, .. } => match ask(floats, FloatQuery::Parse(value.clone())) {
                FloatAnswer::Bits(b) => Ok(Value::Float(b)),
                _ => Err(Halt::Unchecked),
            },
            Expr::BoolLiteral { value, .. } => Ok(Value::Bool(*value)),
            Expr::StringLiteral { value, .. } => Ok(Value::Str(value.clone())),
            Expr::Null { .. } => Ok(Value::Void),
            Expr::Ident { name, .. } => match self.get_var(name.as_str()) {
                Some(v) => Ok(v),
                None => Err(Halt::Unchecked),
            },
            Expr::Binary { .. } => self.eval_binary(decls, floats, sink, e, fuel),
            Expr::Unary { op, operand, .. } => {
                let v = match self.eval_expr(decls, floats, sink, operand, fuel) {
                    Ok(v) => v,
                    Err(h) => {
                        return Err(h);
                    },
                };
                unary_op(*op, &v, floats)
            },
            Expr::Assign { .. } => self.eval_assign(decls, floats, sink, e, fuel),
            Expr::CompoundAssign { .. } => self.eval_compound_assign(decls, floats, sink, e, fuel),
            Expr::IncDec { .. } => self.eval_inc_dec(decls, floats, sink, e, fuel),
            Expr::Ternary { cond, then_branch, else_branch, .. } => {
                let c = match self.eval_expr(decls, floats, sink, cond, fuel) {
                    Ok(v) => v,
                    Err(h) => {
                        return Err(h);
                    },
                };
                match bool_value(&c) {
                    Err(h) => Err(h),
                    Ok(true) => self.eval_expr(decls, floats, sink, then_branch, fuel),
                    Ok(false) => self.eval_expr(decls, floats, sink, else_branch, fuel),
                }
            },
            Expr::Call { .. } => self.eval_call(decls, floats, sink, e, fuel),
            Expr::Index { array, index, .. } => {
                let a = match self.eval_expr(decls, floats, sink, array, fuel) {
                    Ok(v) => v,
                    Err(h) => {
                        return Err(h);
                    },
                };
                let i = match self.eval_expr(decls, floats, sink, index, fuel) {
                    Ok(v) => v,
                    Err(h) => {
                        return Err(h);
                    },
                };
                match (a, i) {
                    (Value::Array(id), Value::Int(idx)) => self.read_cell(id, idx),
                    _ => Err(Halt::Unchecked),
                }
            },
            Expr::FieldAccess { object, field, .. } => {
                let o = match self.eval_expr(decls, floats, sink, object, fuel) {
                    Ok(v) => v,
                    Err(h) => {
                        return Err(h);
                    },
                };
                let length_name = String::from_str("length");
                if !(*field == length_name) {
                    return Err(Halt::Unchecked);
                }
                match o {
                    Value::Array(id) => match self.array_len(id) {
                        Some(n) => Ok(Value::Int(n as i64)),
                        None => Err(Halt::Unchecked),
                    },
                    Value::Str(s) => Ok(Value::Int(s.as_str().as_bytes().len() as i64)),
                    _ => Err(Halt::Unchecked),
                }
            },
            Expr::ArrayLiteral { elements, .. } => {
                match self.eval_args(decls, floats, sink, elements, fuel) {
                    Ok(vals) => {
                        let id = self.allocate(vals);
                        Ok(Value::Array(id))
                    },
                    Err(h) => Err(h),
                }
            },
            Expr::ArrayCreation { elem_ty, size, .. } => {
                let v = match self.eval_expr(decls, floats, sink, size, fuel) {
                    Ok(v) => v,
                    Err(h) => {
                        return Err(h);
                    },
                };
                match v {
                    Value::Int(n) => {
                        if n < 0 {
                            return Err(Halt::Runtime(RuntimeError::NegativeArraySize { size: n }));
                        }
                        let d = self.default_value(elem_ty);
                        let ghost dv = d@;
                        let mut cells: Vec<Value> = Vec::new();
                        assert(values_view(cells@) =~= Seq::new(0nat, |j: int| dv));
                        let mut k: i64 = 0;
                        while k < n
                            invariant
                                0 <= k <= n,
                                d@ == dv,
                                values_view(cells@) == Seq::new(k as nat, |j: int| dv),
                            decreases n - k,
                        {
                            let c = d.clone();
                            let ghost before = values_view(cells@);
                            cells.push(c);
                            assert(values_view(cells@) =~= before.push(dv));
                            k = k + 1;
                            assert(values_view(cells@) =~= Seq::new(k as nat, |j: int| dv));
                        }
                        let id = self.allocate(cells);
                        Ok(Value::Array(id))
                    },
                    _ => Err(Halt::Unchecked),
                }
            },
        }
    }

    fn eval_binary<F: Fn(FloatQuery) -> FloatAnswer, P: Fn(&str)>(
        &mut self,
        decls: &Vec<Decl>,
        floats: &F,
        sink: &P,
        e: &Expr,
        fuel: u64,
    ) -> (r: Result<Value, Halt>)
        requires
            float_unit(*floats),
            printer(*sink),
        ensures
            (final(self)@, value_res(r)) == ev_binary(old(self)@, *e, decls@, answers(*floats), fuel as nat),
        decreases fuel, expr_size(*e), 1int,
    {
        match e {
            Expr::Binary { op, left, right, .. } => {
                let l = match self.eval_expr(decls, floats, sink, left, fuel) {
                    Ok(v) => v,
                    Err(h) => {
                        return Err(h);
                    },
                };
                if *op == BinOp::And || *op == BinOp::Or {
                    // `&&` and `||` decide on their left operand first.
                    let lb = match bool_value(&l) {
                        Ok(b) => b,
                        Err(h) => {
                            return Err(h);
                        },
                    };
                    if *op == BinOp::And && !lb {
                        return Ok(Value::Bool(false));
                    }
                    if *op == BinOp::Or && lb {
                        return Ok(Value::Bool(true));
                    }
                    let r = match self.eval_expr(decls, floats, sink, right, fuel) {
                        Ok(v) => v,
                        Err(h) => {
                            return Err(h);
                        },
                    };
                    match bool_value(&r) {
                        Ok(rb) => Ok(Value::Bool(rb)),
                        Err(h) => Err(h),
                    }
                } else {
                    let r = match self.eval_expr(decls, floats, sink, right, fuel) {
                        Ok(v) => v,
                        Err(h) => {
                            return Err(h);
                        },
                    };
                    self.binary_op(*op, &l, &r, floats)
                }
            },
            _ => Err(Halt::Unchecked),
        }
    }

    fn eval_assign<F: Fn(FloatQuery) -> FloatAnswer, P: Fn(&str)>(
        &mut self,
        decls: &Vec<Decl>,
        floats: &F,
        sink: &P,
        e: &Expr,
        fuel: u64,
    ) -> (r: Result<Value, Halt>)
        requires
            float_unit(*floats),
            printer(*sink),
        ensures
            (final(self)@, value_res(r)) == ev_assign(old(self)@, *e, decls@, answers(*floats), fuel as nat),
        decreases fuel, expr_size(*e), 1int,
    {
        match e {
            Expr::Assign { target, value, .. } => {
                let v = match self.eval_expr(decls, floats, sink, value, fuel) {
                    Ok(v) => v,
                    Err(h) => {
                        return Err(h);
                    },
                };
                match &**target {
                    Expr::Ident { name, .. } => {
                        if self.set_var(name.as_str(), v.clone()) {
                            Ok(v)
                        } else {
                            Err(Halt::Unchecked)
                        }
                    },
                    Expr::Index { array, index, .. } => {
                        assert(expr_size(**target) == 1 + expr_size(**array) + expr_size(**index));
                        let a = match self.eval_expr(decls, floats, sink, array, fuel) {
                            Ok(x) => x,
                            Err(h) => {
                                return Err(h);
                            },
                        };
                        let i = match self.eval_expr(decls, floats, sink, index, fuel) {
                            Ok(x) => x,
                            Err(h) => {
                                return Err(h);
                            },
                        };
                        match (a, i) {
                            (Value::Array(id), Value::Int(idx)) => match self.write_cell(
                                id,
                                idx,
                                v.clone(),
                            ) {
                                Ok(_) => Ok(v),
                                Err(h) => Err(h),
                            },
                            _ => Err(Halt::Unchecked),
                        }
                    },
                    _ => Err(Halt::Unchecked),
                }
            },
            _ => Err(Halt::Unchecked),
        }
    }

    fn eval_compound_assign<F: Fn(FloatQuery) -> FloatAnswer, P: Fn(&str)>(
        &mut self,
        decls: &Vec<Decl>,
        floats: &F,
        sink: &P,
        e: &Expr,
        fuel: u64,
    ) -> (r: Result<Value, Halt>)
        requires
            float_unit(*floats),
            printer(*sink),
        ensures
            (final(self)@, value_res(r)) == ev_compound(old(self)@, *e, decls@, answers(*floats), fuel as nat),
        decreases fuel, expr_size(*e), 1int,
    {
        match e {
            Expr::CompoundAssign { op, target, value, .. } => match &**target {
                Expr::Ident { name, .. } => {
                    let cur = match self.get_var(name.as_str()) {
                        Some(v) => v,
                        None => {
                            return Err(Halt::Unchecked);
                        },
                    };
                    let rhs = match self.eval_expr(decls, floats, sink, value, fuel) {
                        Ok(v) => v,
                        Err(h) => {
                            return Err(h);
                        },
                    };
                    let nv = match self.binary_op(*op, &cur, &rhs, floats) {
                        Ok(v) => v,
                        Err(h) => {
                            return Err(h);
                        },
                    };
                    if self.set_var(name.as_str(), nv.clone()) {
                        Ok(nv)
                    } else {
                        Err(Halt::Unchecked)
                    }
                },
                Expr::Index { array, index, .. } => {
                    assert(expr_size(**target) == 1 + expr_size(**array) + expr_size(**index));
                    let a = match self.eval_expr(decls, floats, sink, array, fuel) {
                        Ok(x) => x,
                        Err(h) => {
                            return Err(h);
                        },
                    };
                    let i = match self.eval_expr(decls, floats, sink, index, fuel) {
                        Ok(x) => x,
                        Err(h) => {
                            return Err(h);
                        },
                    };
                    match (a, i) {
                        (Value::Array(id), Value::Int(idx)) => {
                            let cur = match self.read_cell(id, idx) {
                                Ok(v) => v,
                                Err(h) => {
                                    return Err(h);
                                },
                            };
                            let rhs = match self.eval_expr(decls, floats, sink, value, fuel) {
                                Ok(v) => v,
                                Err(h) => {
                                    return Err(h);
                                },
                            };
                            let nv = match self.binary_op(*op, &cur, &rhs, floats) {
                                Ok(v) => v,
                                Err(h) => {
                                    return Err(h);
                                },
                            };
                            match self.write_cell(id, idx, nv.clone()) {
                                Ok(_) => Ok(nv),
                                Err(h) => Err(h),
                            }
                        },
                        _ => Err(Halt::Unchecked),
                    }
                },
                _ => Err(Halt::Unchecked),
            },
            _ => Err(Halt::Unchecked),
        }
    }

    fn eval_inc_dec<F: Fn(FloatQuery) -> FloatAnswer, P: Fn(&str)>(
        &mut self,
        decls: &Vec<Decl>,
        floats: &F,
        sink: &P,
        e: &Expr,
        fuel: u64,
    ) -> (r: Result<Value, Halt>)
        requires
            float_unit(*floats),
            printer(*sink),
        ensures
            (final(self)@, value_res(r)) == ev_inc_dec(old(self)@, *e, decls@, answers(*floats), fuel as nat),
        decreases fuel, expr_size(*e), 1int,
    {
        match e {
            Expr::IncDec { op, target, is_prefix, .. } => match &**target {
                Expr::Ident { name, .. } => {
                    let cur = match self.get_var(name.as_str()) {
                        Some(v) => v,
                        None => {
                            return Err(Halt::Unchecked);
                        },
                    };
                    let nv = match step_op(*op, &cur, floats) {
                        Ok(v) => v,
                        Err(h) => {
                            return Err(h);
                        },
                    };
                    if self.set_var(name.as_str(), nv.clone()) {
                        Ok(
                            if *is_prefix {
                                nv
                            } else {
                                cur
                            },
                        )
                    } else {
                        Err(Halt::Unchecked)
                    }
                },
                Expr::Index { array, index, .. } => {
                    assert(expr_size(**target) == 1 + expr_size(**array) + expr_size(**index));
                    let a = match self.eval_expr(decls, floats, sink, array, fuel) {
                        Ok(x) => x,
                        Err(h) => {
                            return Err(h);
                        },
                    };
                    let i = match self.eval_expr(decls, floats, sink, index, fuel) {
                        Ok(x) => x,
                        Err(h) => {
                            return Err(h);
                        },
                    };
                    match (a, i) {
                        (Value::Array(id), Value::Int(idx)) => {
                            let cur = match self.read_cell(id, idx) {
                                Ok(v) => v,
                                Err(h) => {
                                    return Err(h);
                                },
                            };
                            let nv = match step_op(*op, &cur, floats) {
                                Ok(v) => v,
                                Err(h) => {
                                    return Err(h);
                                },
                            };
                            match self.write_cell(id, idx, nv.clone()) {
                                Ok(_) => Ok(
                                    if *is_prefix {
                                        nv
                                    } else {
                                        cur
                                    },
                                ),
                                Err(h) => Err(h),
                            }
                        },
                        _ => Err(Halt::Unchecked),
                    }
                },
                _ => Err(Halt::Unchecked),
            },
            _ => Err(Halt::Unchecked),
        }
    }

    fn eval_call<F: Fn(FloatQuery) -> FloatAnswer, P: Fn(&str)>(
        &mut self,
        decls: &Vec<Decl>,
        floats: &F,
        sink: &P,
        e: &Expr,
        fuel: u64,
    ) -> (r: Result<Value, Halt>)
        requires
            float_unit(*floats),
            printer(*sink),
        ensures
            (final(self)@, value_res(r)) == ev_call(old(self)@, *e, decls@, answers(*floats), fuel as nat),
        decreases fuel, expr_size(*e), 1int,
    {
        match e {
            Expr::Call { callee, args, .. } => {
                let print_name = String::from_str("print");
                if *callee == print_name {
                    if args.len() == 0 {
                        return Err(Halt::Unchecked);
                    }
                    assert(exprs_size(args@, 0) == 1 + expr_size(args@[0]) + exprs_size(args@, 1));
                    let v = match self.eval_expr(decls, floats, sink, &args[0], fuel) {
                        Ok(v) => v,
                        Err(h) => {
                            return Err(h);
                        },
                    };
                    match format_value(&v, floats) {
                        Some(text) => {
                            self.print_line(text, sink);
                            Ok(Value::Void)
                        },
                        None => Err(Halt::Unchecked),
                    }
                } else {
                    let vals = match self.eval_args(decls, floats, sink, args, fuel) {
                        Ok(vs) => vs,
                        Err(h) => {
                            return Err(h);
                        },
                    };
                    match builtin(callee, &vals) {
                        Some(res) => res,
                        None => match find_function(decls, callee) {
                            None => Err(Halt::Unchecked),
                            Some(f) => {
                                if fuel == 0 {
                                    Err(Halt::StepLimit)
                                } else {
                                    self.call_function(decls, floats, sink, f, vals, fuel - 1)
                                }
                            },
                        },
                    }
                }
            },
            _ => Err(Halt::Unchecked),
        }
    }

    /// Runs `f` on `args` in a fresh scope beneath the globals, and
    /// restores the caller's scopes afterwards.
    pub(crate) fn call_function<F: Fn(FloatQuery) -> FloatAnswer, P: Fn(&str)>(
        &mut self,
        decls: &Vec<Decl>,
        floats: &F,
        sink: &P,
        f: &FuncDecl,
        args: Vec<Value>,
        fuel: u64,
    ) -> (r: Result<Value, Halt>)
        requires
            float_unit(*floats),
            printer(*sink),
        ensures
            (final(self)@, value_res(r)) == call_function(
                old(self)@,
                *f,
                values_view(args@),
                decls@,
                answers(*floats),
                fuel as nat,
            ),
        decreases fuel, stmts_size(f.body.stmts@, 0) + 1, 0int,
    {
        let ghost av = values_view(args@);
        let mut scope = Scope::new();
        let mut i: usize = 0;
        while i < f.params.len() && i < args.len()
            invariant
                i <= f.params@.len(),
                av == values_view(args@),
                bind_params(f.params@, av, i as int, scope@) == bind_params(
                    f.params@,
                    av,
                    0,
                    Map::empty(),
                ),
            decreases f.params@.len() - i,
        {
            scope.define(f.params[i].name.as_str(), args[i].clone());
            i = i + 1;
        }
        let ghost caller = self@;
        let ghost sv = scope@;
        let mut frame: Vec<Scope> = Vec::new();
        frame.push(scope);
        assert(frame@.map_values(|s: Scope| s@) =~= seq![sv]);
        self.swap_frame(&mut frame);
        let r = self.exec_block(decls, floats, sink, &f.body.stmts, fuel);
        self.swap_frame(&mut frame);
        match r {
            Err(h) => Err(h),
            Ok(Flow::Return(v)) => Ok(v),
            Ok(Flow::Normal) => Ok(Value::Void),
        }
    }

    pub(crate) fn exec_stmt<F: Fn(FloatQuery) -> FloatAnswer, P: Fn(&str)>(
        &mut self,
        decls: &Vec<Decl>,
        floats: &F,
        sink: &P,
        s: &Stmt,
        fuel: u64,
    ) -> (r: Result<Flow, Halt>)
        requires
            float_unit(*floats),
            printer(*sink),
        ensures
            (final(self)@, flow_res(r)) == ex_stmt(old(self)@, *s, decls@, answers(*floats), fuel as nat),
        decreases fuel, stmt_size(*s), 1int,
    {
        match s {
            Stmt::Expr(e) => match self.eval_expr(decls, floats, sink, e, fuel) {
                Ok(_) => Ok(Flow::Normal),
                Err(h) => Err(h),
            },
            Stmt::VarDecl(vd) => {
                let v = match &vd.init {
                    Some(init) => match self.eval_expr(decls, floats, sink, init, fuel) {
                        Ok(v) => v,
                        Err(h) => {
                            return Err(h);
                        },
                    },
                    None => self.default_value(&vd.ty),
                };
                self.define_var(vd.name.as_str(), v);
                Ok(Flow::Normal)
            },
            Stmt::Block(b) => {
                self.push_scope();
                let r = self.exec_block(decls, floats, sink, &b.stmts, fuel);
                self.pop_scope();
                r
            },
            Stmt::If(i) => {
                let c = match self.eval_expr(decls, floats, sink, &i.cond, fuel) {
                    Ok(v) => v,
                    Err(h) => {
                        return Err(h);
                    },
                };
                match bool_value(&c) {
                    Err(h) => Err(h),
                    Ok(true) => self.exec_scoped(decls, floats, sink, &i.then_branch, fuel),
                    Ok(false) => match &i.else_branch {
                        Some(eb) => self.exec_scoped(decls, floats, sink, eb, fuel),
                        None => Ok(Flow::Normal),
                    },
                }
            },
            Stmt::While(_) => self.exec_while(decls, floats, sink, s, fuel),
            Stmt::For(f) => {
                self.push_scope();
                match self.exec_stmt(decls, floats, sink, &f.init, fuel) {
                    Err(h) => {
                        self.pop_scope();
                        return Err(h);
                    },
                    Ok(_) => {},
                }
                let r = self.exec_for_loop(decls, floats, sink, s, fuel);
                self.pop_scope();
                r
            },
            Stmt::Return(r) => match &r.value {
                Some(v) => match self.eval_expr(decls, floats, sink, v, fuel) {
                    Ok(val) => Ok(Flow::Return(val)),
                    Err(h) => Err(h),
                },
                None => Ok(Flow::Return(Value::Void)),
            },
        }
    }

    fn exec_scoped<F: Fn(FloatQuery) -> FloatAnswer, P: Fn(&str)>(
        &mut self,
        decls: &Vec<Decl>,
        floats: &F,
        sink: &P,
        s: &Stmt,
        fuel: u64,
    ) -> (r: Result<Flow, Halt>)
        requires
            float_unit(*floats),
            printer(*sink),
        ensures
            (final(self)@, flow_res(r)) == ex_scoped(old(self)@, *s, decls@, answers(*floats), fuel as nat),
        decreases fuel, stmt_size(*s), 2int,
    {
        match s {
            Stmt::Block(_) => self.exec_stmt(decls, floats, sink, s, fuel),
            _ => {
                self.push_scope();
                let r = self.exec_stmt(decls, floats, sink, s, fuel);
                self.pop_scope();
                r
            },
        }
    }

    #[verifier::loop_isolation(false)]
    pub(crate) fn exec_block<F: Fn(FloatQuery) -> FloatAnswer, P: Fn(&str)>(
        &mut self,
        decls: &Vec<Decl>,
        floats: &F,
        sink: &P,
        stmts: &Vec<Stmt>,
        fuel: u64,
    ) -> (r: Result<Flow, Halt>)
        requires
            float_unit(*floats),
            printer(*sink),
        ensures
            (final(self)@, flow_res(r)) == ex_block_from(
                old(self)@,
                stmts@,
                0,
                decls@,
                answers(*floats),
                fuel as nat,
            ),
        decreases fuel, stmts_size(stmts@, 0), 3int,
    {
        let ghost fo = answers(*floats);
        let ghost s0 = self@;
        let mut i: usize = 0;
        while i < stmts.len()
            invariant
                i <= stmts@.len(),
                float_unit(*floats),
                printer(*sink),
                fo == answers(*floats),
                ex_block_from(self@, stmts@, i as int, decls@, fo, fuel as nat) == ex_block_from(
                    s0,
                    stmts@,
                    0,
                    decls@,
                    fo,
                    fuel as nat,
                ),
            decreases stmts@.len() - i,
        {
            proof {
                lemma_stmts_size(stmts@, 0, i as int);
            }
            match self.exec_stmt(decls, floats, sink, &stmts[i], fuel) {
                Ok(Flow::Normal) => {},
                other => {
                    return other;
                },
            }
            i = i + 1;
        }
        Ok(Flow::Normal)
    }

    #[verifier::loop_isolation(false)]
    fn exec_while<F: Fn(FloatQuery) -> FloatAnswer, P: Fn(&str)>(
        &mut self,
        decls: &Vec<Decl>,
        floats: &F,
        sink: &P,
        s: &Stmt,
        fuel: u64,
    ) -> (r: Result<Flow, Halt>)
        requires
            float_unit(*floats),
            printer(*sink),
        ensures
            (final(self)@, flow_res(r)) == ex_while(old(self)@, *s, decls@, answers(*floats), fuel as nat),
        decreases fuel, stmt_size(*s), 0int,
    {
        match s {
            Stmt::While(w) => {
                let ghost fo = answers(*floats);
                let ghost s0 = self@;
                let mut f = fuel;
                loop
                    invariant
                        f <= fuel,
                        float_unit(*floats),
                        printer(*sink),
                        fo == answers(*floats),
                        *s == Stmt::While(*w),
                        ex_while(self@, *s, decls@, fo, f as nat) == ex_while(
                            s0,
                            *s,
                            decls@,
                            fo,
                            fuel as nat,
                        ),
                    decreases f,
                {
                    if f == 0 {
                        return Err(Halt::StepLimit);
                    }
                    let c = match self.eval_expr(decls, floats, sink, &w.cond, f) {
                        Ok(v) => v,
                        Err(h) => {
                            return Err(h);
                        },
                    };
                    match bool_value(&c) {
                        Err(h) => {
                            return Err(h);
                        },
                        Ok(false) => {
                            return Ok(Flow::Normal);
                        },
                        Ok(true) => {},
                    }
                    match self.exec_scoped(decls, floats, sink, &w.body, f) {
                        Ok(Flow::Normal) => {},
                        other => {
                            return other;
                        },
                    }
                    f = f - 1;
                }
            },
            _ => Err(Halt::Unchecked),
        }
    }

    #[verifier::loop_isolation(false)]
    fn exec_for_loop<F: Fn(FloatQuery) -> FloatAnswer, P: Fn(&str)>(
        &mut self,
        decls: &Vec<Decl>,
        floats: &F,
        sink: &P,
        s: &Stmt,
        fuel: u64,
    ) -> (r: Result<Flow, Halt>)
        requires
            float_unit(*floats),
            printer(*sink),
        ensures
            (final(self)@, flow_res(r)) == ex_for_loop(old(self)@, *s, decls@, answers(*floats), fuel as nat),
        decreases fuel, stmt_size(*s), 0int,
    {
        match s {
            Stmt::For(fs) => {
                let ghost fo = answers(*floats);
                let ghost s0 = self@;
                let mut f = fuel;
                loop
                    invariant
                        f <= fuel,
                        float_unit(*floats),
                        printer(*sink),
                        fo == answers(*floats),
                        *s == Stmt::For(*fs),
                        ex_for_loop(self@, *s, decls@, fo, f as nat) == ex_for_loop(
                            s0,
                            *s,
                            decls@,
                            fo,
                            fuel as nat,
                        ),
                    decreases f,
                {
                    if f == 0 {
                        return Err(Halt::StepLimit);
                    }
                    let c = match self.eval_expr(decls, floats, sink, &fs.cond, f) {
                        Ok(v) => v,
                        Err(h) => {
                            return Err(h);
                        },
                    };
                    match bool_value(&c) {
                        Err(h) => {
                            return Err(h);
                        },
                        Ok(false) => {
                            return Ok(Flow::Normal);
                        },
                        Ok(true) => {},
                    }
                    match self.exec_scoped(decls, floats, sink, &fs.body, f) {
                        Ok(Flow::Normal) => {},
                        other => {
                            return other;
                        },
                    }
                    match self.eval_expr(decls, floats, sink, &fs.update, f) {
                        Ok(_) => {},
                        Err(h) => {
                            return Err(h);
                        },
                    }
                    f = f - 1;
                }
            },
            _ => Err(Halt::Unchecked),
        }
    }
}

} // verus!
