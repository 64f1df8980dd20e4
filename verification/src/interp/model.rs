//! What running a program does, written as functions from a machine state
//! to the next one.
//!
//! The state holds the global variables, the scopes of the function being
//! run (innermost last), the heap of arrays and the lines printed so far.
//! Every function takes a step budget: a call and a loop iteration each
//! spend one step of it, and a run that exhausts it stops with
//! `Halt::StepLimit`.

use crate::ast::{
    expr_size, exprs_size, stmt_size, stmts_size, BinOp, Block, Decl, Expr, FuncDecl, IncDecOp,
    Param, Stmt, Type, UnOp,
};
use crate::interp::value::{
    answer_bits, answer_order, default_scalar, format_spec, numeric_cmp_spec, numeric_op_spec,
    FloatOrder, NumOrder, SpecFloatAnswer, SpecFloatQuery, SpecValue, ONE_BITS,
};
use crate::interp::{Halt, RuntimeError};
use vstd::prelude::*;
use vstd::utf8::{decode_utf8, encode_utf8, valid_utf8};

verus! {

pub type Oracle = spec_fn(SpecFloatQuery) -> SpecFloatAnswer;

/// The machine state as specifications speak of it.
pub struct MState {
    pub globals: Map<Seq<char>, SpecValue>,
    pub frame: Seq<Map<Seq<char>, SpecValue>>,
    pub heap: Seq<Seq<SpecValue>>,
    pub out: Seq<Seq<char>>,
}

/// How a statement ends: normally, or by a `return` carrying its value.
pub enum SpecFlow {
    Normal,
    Return(SpecValue),
}

pub type Res<T> = Result<T, Halt>;

/// The text `String::from_utf8_lossy` makes of a byte sequence.
pub uninterp spec fn lossy_text(bytes: Seq<u8>) -> Seq<char>;

/// The text of a byte slice of a string: the characters the bytes encode
/// when they are valid UTF-8, else what `String::from_utf8_lossy` makes of
/// them (a slice that cuts a character in two).
pub open spec fn slice_text(bytes: Seq<u8>) -> Seq<char> {
    if valid_utf8(bytes) {
        decode_utf8(bytes)
    } else {
        lossy_text(bytes)
    }
}

impl MState {
    /// The innermost binding of `name`: the function's scopes first, the
    /// globals last.
    pub open spec fn get(self, name: Seq<char>) -> Option<SpecValue> {
        match frame_find(self.frame, name, self.frame.len() as int) {
            Some(k) => Some(self.frame[k][name]),
            None => if self.globals.contains_key(name) {
                Some(self.globals[name])
            } else {
                None
            },
        }
    }

    /// Rebinds the innermost binding of `name`; `None` when there is none.
    pub open spec fn set(self, name: Seq<char>, v: SpecValue) -> Option<MState> {
        match frame_find(self.frame, name, self.frame.len() as int) {
            Some(k) => Some(
                MState { frame: self.frame.update(k, self.frame[k].insert(name, v)), ..self },
            ),
            None => if self.globals.contains_key(name) {
                Some(MState { globals: self.globals.insert(name, v), ..self })
            } else {
                None
            },
        }
    }

    /// Binds `name` in the innermost scope, which is the globals outside
    /// any function.
    pub open spec fn define(self, name: Seq<char>, v: SpecValue) -> MState {
        if self.frame.len() > 0 {
            MState {
                frame: self.frame.update(
                    self.frame.len() - 1,
                    self.frame.last().insert(name, v),
                ),
                ..self
            }
        } else {
            MState { globals: self.globals.insert(name, v), ..self }
        }
    }

    pub open spec fn push_scope(self) -> MState {
        MState { frame: self.frame.push(Map::empty()), ..self }
    }

    pub open spec fn pop_scope(self) -> MState {
        if self.frame.len() > 0 {
            MState { frame: self.frame.drop_last(), ..self }
        } else {
            self
        }
    }

    pub open spec fn with_frame(self, frame: Seq<Map<Seq<char>, SpecValue>>) -> MState {
        MState { frame, ..self }
    }

    /// Allocates an array with the given cells; the new array's index is
    /// the old length of the heap.
    pub open spec fn allocate(self, cells: Seq<SpecValue>) -> MState {
        MState { heap: self.heap.push(cells), ..self }
    }

    pub open spec fn print(self, line: Seq<char>) -> MState {
        MState { out: self.out.push(line), ..self }
    }
}

/// The innermost scope among `frame[..n]` that binds `name`.
pub open spec fn frame_find(frame: Seq<Map<Seq<char>, SpecValue>>, name: Seq<char>, n: int) -> Option<
    int,
>
    decreases n,
{
    if n <= 0 || n > frame.len() {
        None
    } else if frame[n - 1].contains_key(name) {
        Some(n - 1)
    } else {
        frame_find(frame, name, n - 1)
    }
}

pub proof fn lemma_frame_find(frame: Seq<Map<Seq<char>, SpecValue>>, name: Seq<char>, n: int)
    requires
        0 <= n <= frame.len(),
    ensures
        match frame_find(frame, name, n) {
            Some(k) => 0 <= k < n && k < frame.len() && frame[k].contains_key(name),
            None => forall|j: int| 0 <= j < n && j < frame.len() ==> !(#[trigger] frame[j]).contains_key(name),
        },
    decreases n,
{
    if n > 0 {
        lemma_frame_find(frame, name, n - 1);
    }
}

pub open spec fn bool_of(v: SpecValue) -> Res<bool> {
    match v {
        SpecValue::Bool(b) => Ok(b),
        _ => Err(Halt::Unchecked),
    }
}

/// The value a fresh variable of type `ty` holds; an array type gets a
/// new empty array.
pub open spec fn default_value_spec(st: MState, ty: Type) -> (MState, SpecValue) {
    match ty {
        Type::Array(_) => (st.allocate(Seq::empty()), SpecValue::Array(st.heap.len() as usize)),
        _ => (st, default_scalar(ty)),
    }
}

/// The cell `idx` of array `id`.
pub open spec fn heap_read(st: MState, id: usize, idx: i64) -> Res<SpecValue> {
    if id >= st.heap.len() {
        Err(Halt::Unchecked)
    } else if idx < 0 || idx >= st.heap[id as int].len() {
        Err(
            Halt::Runtime(
                RuntimeError::IndexOutOfBounds {
                    index: idx,
                    length: st.heap[id as int].len() as usize,
                },
            ),
        )
    } else {
        Ok(st.heap[id as int][idx as int])
    }
}

/// Writes cell `idx` of array `id`.
pub open spec fn heap_write(st: MState, id: usize, idx: i64, v: SpecValue) -> Res<MState> {
    if id >= st.heap.len() {
        Err(Halt::Unchecked)
    } else if idx < 0 || idx >= st.heap[id as int].len() {
        Err(
            Halt::Runtime(
                RuntimeError::IndexOutOfBounds {
                    index: idx,
                    length: st.heap[id as int].len() as usize,
                },
            ),
        )
    } else {
        Ok(MState { heap: st.heap.update(id as int, st.heap[id as int].update(idx as int, v)), ..st })
    }
}

/// Whether two values are equal: arrays by their cells, in turn, down to
/// `depth` levels of nesting; floats as IEEE-754 numbers.
pub open spec fn values_eq(heap: Seq<Seq<SpecValue>>, a: SpecValue, b: SpecValue, fo: Oracle, depth: nat) -> Res<
    bool,
>
    decreases depth, 0int,
{
    match (a, b) {
        (SpecValue::Int(x), SpecValue::Int(y)) => Ok(x == y),
        (SpecValue::Float(x), SpecValue::Float(y)) => match answer_order(
            fo(SpecFloatQuery::Compare(x, y)),
        ) {
            Some(o) => Ok(o == FloatOrder::Equal),
            None => Err(Halt::Unchecked),
        },
        (SpecValue::Bool(x), SpecValue::Bool(y)) => Ok(x == y),
        (SpecValue::Str(x), SpecValue::Str(y)) => Ok(x == y),
        (SpecValue::Void, SpecValue::Void) => Ok(true),
        (SpecValue::Array(i), SpecValue::Array(j)) => {
            if i >= heap.len() || j >= heap.len() || depth == 0 {
                Err(Halt::Unchecked)
            } else if heap[i as int].len() != heap[j as int].len() {
                Ok(false)
            } else {
                cells_eq(heap, heap[i as int], heap[j as int], 0, fo, (depth - 1) as nat)
            }
        },
        _ => Ok(false),
    }
}

/// Whether `xs[k..]` and `ys[k..]` are equal cell by cell.
pub open spec fn cells_eq(
    heap: Seq<Seq<SpecValue>>,
    xs: Seq<SpecValue>,
    ys: Seq<SpecValue>,
    k: int,
    fo: Oracle,
    depth: nat,
) -> Res<bool>
    decreases depth, xs.len() - k,
{
    if k < 0 || k >= xs.len() || k >= ys.len() {
        Ok(true)
    } else {
        match values_eq(heap, xs[k], ys[k], fo, depth) {
            Err(h) => Err(h),
            Ok(false) => Ok(false),
            Ok(true) => cells_eq(heap, xs, ys, k + 1, fo, depth),
        }
    }
}

/// The value of `l op r` once both operands are known (never `&&` or
/// `||`, which decide on their left operand first).
pub open spec fn binary_value(heap: Seq<Seq<SpecValue>>, op: BinOp, l: SpecValue, r: SpecValue, fo: Oracle) -> Res<
    SpecValue,
> {
    let unchecked = Err(Halt::Unchecked);
    match op {
        BinOp::Add => match (l, r) {
            (SpecValue::Str(a), SpecValue::Str(b)) => Ok(SpecValue::Str(a + b)),
            _ => match numeric_op_spec(op, l, r, fo) {
                Some(v) => Ok(v),
                None => unchecked,
            },
        },
        BinOp::Sub | BinOp::Mul => match numeric_op_spec(op, l, r, fo) {
            Some(v) => Ok(v),
            None => unchecked,
        },
        BinOp::Div => match (l, r) {
            (SpecValue::Int(a), SpecValue::Int(b)) => if b == 0 {
                Err(Halt::Runtime(RuntimeError::DivisionByZero))
            } else {
                Ok(
                    SpecValue::Int(
                        match a.checked_div(b) {
                            Some(q) => q,
                            None => i64::MIN,
                        },
                    ),
                )
            },
            (SpecValue::Float(a), SpecValue::Float(b)) => match answer_bits(
                fo(SpecFloatQuery::Arith(op, a, b)),
            ) {
                Some(bits) => Ok(SpecValue::Float(bits)),
                None => unchecked,
            },
            _ => unchecked,
        },
        BinOp::Mod => match (l, r) {
            (SpecValue::Int(a), SpecValue::Int(b)) => if b == 0 {
                Err(Halt::Runtime(RuntimeError::DivisionByZero))
            } else {
                Ok(
                    SpecValue::Int(
                        match a.checked_rem(b) {
                            Some(m) => m,
                            None => 0,
                        },
                    ),
                )
            },
            (SpecValue::Float(a), SpecValue::Float(b)) => match answer_bits(
                fo(SpecFloatQuery::Arith(op, a, b)),
            ) {
                Some(bits) => Ok(SpecValue::Float(bits)),
                None => unchecked,
            },
            _ => unchecked,
        },
        BinOp::BitAnd | BinOp::BitOr | BinOp::BitXor | BinOp::Shl | BinOp::Shr | BinOp::UShr => {
            match (l, r) {
                (SpecValue::Int(a), SpecValue::Int(b)) => Ok(SpecValue::Int(int_bit_op(op, a, b))),
                _ => unchecked,
            }
        },
        BinOp::Lt | BinOp::LtEq | BinOp::Gt | BinOp::GtEq => match numeric_cmp_spec(l, r, fo) {
            Some(o) => Ok(
                SpecValue::Bool(
                    match op {
                        BinOp::Lt => o == NumOrder::Less,
                        BinOp::LtEq => o != NumOrder::Greater,
                        BinOp::Gt => o == NumOrder::Greater,
                        _ => o != NumOrder::Less,
                    },
                ),
            ),
            None => unchecked,
        },
        BinOp::Eq | BinOp::NotEq => match values_eq(heap, l, r, fo, heap.len()) {
            Ok(b) => Ok(SpecValue::Bool(if op == BinOp::Eq { b } else { !b })),
            Err(h) => Err(h),
        },
        BinOp::And | BinOp::Or => unchecked,
    }
}

/// The bitwise and shift operators on ints. Shift amounts are taken
/// modulo 64; `>>` fills with the sign bit and `>>>` with zeros.
pub open spec fn int_bit_op(op: BinOp, a: i64, b: i64) -> i64 {
    match op {
        BinOp::BitAnd => a & b,
        BinOp::BitOr => a | b,
        BinOp::BitXor => a ^ b,
        BinOp::Shl => a.wrapping_shl(b as u32),
        BinOp::Shr => a.wrapping_shr(b as u32),
        _ => ((a as u64).wrapping_shr(b as u32)) as i64,
    }
}

pub open spec fn unary_value(op: UnOp, v: SpecValue, fo: Oracle) -> Res<SpecValue> {
    match (op, v) {
        (UnOp::Neg, SpecValue::Int(a)) => Ok(SpecValue::Int(0i64.wrapping_sub(a))),
        (UnOp::Neg, SpecValue::Float(a)) => match answer_bits(fo(SpecFloatQuery::Negate(a))) {
            Some(b) => Ok(SpecValue::Float(b)),
            None => Err(Halt::Unchecked),
        },
        (UnOp::Not, SpecValue::Bool(b)) => Ok(SpecValue::Bool(!b)),
        (UnOp::BitNot, SpecValue::Int(a)) => Ok(SpecValue::Int(!a)),
        _ => Err(Halt::Unchecked),
    }
}

/// `v` one up or one down.
pub open spec fn step_value(op: IncDecOp, v: SpecValue, fo: Oracle) -> Res<SpecValue> {
    match v {
        SpecValue::Int(a) => Ok(
            SpecValue::Int(
                if op == IncDecOp::Inc {
                    a.wrapping_add(1)
                } else {
                    a.wrapping_sub(1)
                },
            ),
        ),
        SpecValue::Float(a) => {
            let aop = if op == IncDecOp::Inc {
                BinOp::Add
            } else {
                BinOp::Sub
            };
            match answer_bits(fo(SpecFloatQuery::Arith(aop, a, ONE_BITS))) {
                Some(b) => Ok(SpecValue::Float(b)),
                None => Err(Halt::Unchecked),
            }
        },
        _ => Err(Halt::Unchecked),
    }
}

/// The byte length of a string.
pub open spec fn byte_len(s: Seq<char>) -> nat {
    encode_utf8(s).len()
}

/// The string builtins on evaluated arguments: `length` counts bytes,
/// `charAt` reads one byte as a character, `substring` takes a byte range.
pub open spec fn builtin_value(name: Seq<char>, args: Seq<SpecValue>) -> Option<Res<SpecValue>> {
    if name == "length"@ {
        Some(
            match args.len() > 0 {
                true => match args[0] {
                    SpecValue::Str(s) => Ok(SpecValue::Int(byte_len(s) as i64)),
                    _ => Err(Halt::Unchecked),
                },
                false => Err(Halt::Unchecked),
            },
        )
    } else if name == "charAt"@ {
        Some(
            if args.len() > 1 && args[0] is Str && args[1] is Int {
                let bytes = encode_utf8(args[0]->Str_0);
                let i = args[1]->Int_0;
                if i < 0 || i >= bytes.len() {
                    Err(
                        Halt::Runtime(
                            RuntimeError::StringIndexOutOfBounds {
                                index: i,
                                length: bytes.len() as usize,
                            },
                        ),
                    )
                } else {
                    Ok(SpecValue::Str(seq![bytes[i as int] as char]))
                }
            } else {
                Err(Halt::Unchecked)
            },
        )
    } else if name == "substring"@ {
        Some(
            if args.len() > 2 && args[0] is Str && args[1] is Int && args[2] is Int {
                let bytes = encode_utf8(args[0]->Str_0);
                let start = args[1]->Int_0;
                let end = args[2]->Int_0;
                if start < 0 || start > bytes.len() {
                    Err(
                        Halt::Runtime(
                            RuntimeError::StringIndexOutOfBounds {
                                index: start,
                                length: bytes.len() as usize,
                            },
                        ),
                    )
                } else if end < start || end > bytes.len() {
                    Err(
                        Halt::Runtime(
                            RuntimeError::StringIndexOutOfBounds {
                                index: end,
                                length: bytes.len() as usize,
                            },
                        ),
                    )
                } else {
                    Ok(SpecValue::Str(slice_text(bytes.subrange(start as int, end as int))))
                }
            } else {
                Err(Halt::Unchecked)
            },
        )
    } else {
        None
    }
}

/// The last function declared under `name` among `decls[..n]`.
pub open spec fn find_func(decls: Seq<Decl>, name: Seq<char>, n: int) -> Option<FuncDecl>
    decreases n,
{
    if n <= 0 || n > decls.len() {
        None
    } else {
        match decls[n - 1] {
            Decl::Func(f) => if f.name@ == name {
                Some(f)
            } else {
                find_func(decls, name, n - 1)
            },
            _ => find_func(decls, name, n - 1),
        }
    }
}

/// The scope a call starts with: each parameter bound to its argument,
/// as far as both go.
pub open spec fn bind_params(params: Seq<Param>, args: Seq<SpecValue>, i: int, scope: Map<
    Seq<char>,
    SpecValue,
>) -> Map<Seq<char>, SpecValue>
    decreases params.len() - i,
{
    if i < 0 || i >= params.len() || i >= args.len() {
        scope
    } else {
        bind_params(params, args, i + 1, scope.insert(params[i].name@, args[i]))
    }
}

// ---- evaluation ----

/// Evaluating an expression.
pub open spec fn ev_expr(st: MState, e: Expr, decls: Seq<Decl>, fo: Oracle, fuel: nat) -> (
    MState,
    Res<SpecValue>,
)
    decreases fuel, expr_size(e), 2int,
{
    match e {
        Expr::IntLiteral { value, .. } => (st, Ok(SpecValue::Int(value))),
        Expr::FloatLiteral { value, .. } => match answer_bits(
            fo(SpecFloatQuery::Parse(value@)),
        ) {
            Some(b) => (st, Ok(SpecValue::Float(b))),
            None => (st, Err(Halt::Unchecked)),
        },
        Expr::BoolLiteral { value, .. } => (st, Ok(SpecValue::Bool(value))),
        Expr::StringLiteral { value, .. } => (st, Ok(SpecValue::Str(value@))),
        Expr::Null { .. } => (st, Ok(SpecValue::Void)),
        Expr::Ident { name, .. } => match st.get(name@) {
            Some(v) => (st, Ok(v)),
            None => (st, Err(Halt::Unchecked)),
        },
        Expr::Binary { .. } => ev_binary(st, e, decls, fo, fuel),
        Expr::Unary { op, operand, .. } => {
            let (s1, r) = ev_expr(st, *operand, decls, fo, fuel);
            match r {
                Err(h) => (s1, Err(h)),
                Ok(v) => (s1, unary_value(op, v, fo)),
            }
        },
        Expr::Assign { .. } => ev_assign(st, e, decls, fo, fuel),
        Expr::CompoundAssign { .. } => ev_compound(st, e, decls, fo, fuel),
        Expr::IncDec { .. } => ev_inc_dec(st, e, decls, fo, fuel),
        Expr::Ternary { cond, then_branch, else_branch, .. } => {
            let (s1, c) = ev_expr(st, *cond, decls, fo, fuel);
            match c {
                Err(h) => (s1, Err(h)),
                Ok(v) => match bool_of(v) {
                    Err(h) => (s1, Err(h)),
                    Ok(true) => ev_expr(s1, *then_branch, decls, fo, fuel),
                    Ok(false) => ev_expr(s1, *else_branch, decls, fo, fuel),
                },
            }
        },
        Expr::Call { .. } => ev_call(st, e, decls, fo, fuel),
        Expr::Index { array, index, .. } => {
            let (s1, a) = ev_expr(st, *array, decls, fo, fuel);
            match a {
                Err(h) => (s1, Err(h)),
                Ok(av) => {
                    let (s2, i) = ev_expr(s1, *index, decls, fo, fuel);
                    match i {
                        Err(h) => (s2, Err(h)),
                        Ok(iv) => match (av, iv) {
                            (SpecValue::Array(id), SpecValue::Int(idx)) => (
                                s2,
                                heap_read(s2, id, idx),
                            ),
                            _ => (s2, Err(Halt::Unchecked)),
                        },
                    }
                },
            }
        },
        Expr::FieldAccess { object, field, .. } => {
            let (s1, o) = ev_expr(st, *object, decls, fo, fuel);
            match o {
                Err(h) => (s1, Err(h)),
                Ok(ov) => if field@ != "length"@ {
                    (s1, Err(Halt::Unchecked))
                } else {
                    match ov {
                        SpecValue::Array(id) => if id < s1.heap.len() {
                            (s1, Ok(SpecValue::Int(s1.heap[id as int].len() as i64)))
                        } else {
                            (s1, Err(Halt::Unchecked))
                        },
                        SpecValue::Str(s) => (s1, Ok(SpecValue::Int(byte_len(s) as i64))),
                        _ => (s1, Err(Halt::Unchecked)),
                    }
                },
            }
        },
        Expr::ArrayLiteral { elements, .. } => {
            let (s1, r) = ev_args_from(st, elements@, 0, Seq::empty(), decls, fo, fuel);
            match r {
                Err(h) => (s1, Err(h)),
                Ok(vals) => (s1.allocate(vals), Ok(SpecValue::Array(s1.heap.len() as usize))),
            }
        },
        Expr::ArrayCreation { elem_ty, size, .. } => {
            let (s1, r) = ev_expr(st, *size, decls, fo, fuel);
            match r {
                Err(h) => (s1, Err(h)),
                Ok(v) => match v {
                    SpecValue::Int(n) => if n < 0 {
                        (s1, Err(Halt::Runtime(RuntimeError::NegativeArraySize { size: n })))
                    } else {
                        let (s2, d) = default_value_spec(s1, elem_ty);
                        (
                            s2.allocate(Seq::new(n as nat, |k: int| d)),
                            Ok(SpecValue::Array(s2.heap.len() as usize)),
                        )
                    },
                    _ => (s1, Err(Halt::Unchecked)),
                },
            }
        },
    }
}

/// Evaluating `es[i..]` in turn, appending each value to `acc`; the first
/// halt stops it.
pub open spec fn ev_args_from(
    st: MState,
    es: Seq<Expr>,
    i: int,
    acc: Seq<SpecValue>,
    decls: Seq<Decl>,
    fo: Oracle,
    fuel: nat,
) -> (MState, Res<Seq<SpecValue>>)
    decreases fuel, exprs_size(es, i), 3int,
{
    if i < 0 || i >= es.len() {
        (st, Ok(acc))
    } else {
        let (s1, r) = ev_expr(st, es[i], decls, fo, fuel);
        match r {
            Err(h) => (s1, Err(h)),
            Ok(v) => ev_args_from(s1, es, i + 1, acc.push(v), decls, fo, fuel),
        }
    }
}

pub open spec fn ev_binary(st: MState, e: Expr, decls: Seq<Decl>, fo: Oracle, fuel: nat) -> (
    MState,
    Res<SpecValue>,
)
    decreases fuel, expr_size(e), 1int,
{
    match e {
        Expr::Binary { op, left, right, .. } => {
            let (s1, l) = ev_expr(st, *left, decls, fo, fuel);
            match l {
                Err(h) => (s1, Err(h)),
                Ok(lv) => if op == BinOp::And || op == BinOp::Or {
                    match bool_of(lv) {
                        Err(h) => (s1, Err(h)),
                        Ok(lb) => if op == BinOp::And && !lb {
                            (s1, Ok(SpecValue::Bool(false)))
                        } else if op == BinOp::Or && lb {
                            (s1, Ok(SpecValue::Bool(true)))
                        } else {
                            let (s2, r) = ev_expr(s1, *right, decls, fo, fuel);
                            match r {
                                Err(h) => (s2, Err(h)),
                                Ok(rv) => match bool_of(rv) {
                                    Err(h) => (s2, Err(h)),
                                    Ok(rb) => (s2, Ok(SpecValue::Bool(rb))),
                                },
                            }
                        },
                    }
                } else {
                    let (s2, r) = ev_expr(s1, *right, decls, fo, fuel);
                    match r {
                        Err(h) => (s2, Err(h)),
                        Ok(rv) => (s2, binary_value(s2.heap, op, lv, rv, fo)),
                    }
                },
            }
        },
        _ => (st, Err(Halt::Unchecked)),
    }
}

/// Plain assignment: the value first, then the target's array and index;
/// the assigned value is the expression's value.
pub open spec fn ev_assign(st: MState, e: Expr, decls: Seq<Decl>, fo: Oracle, fuel: nat) -> (
    MState,
    Res<SpecValue>,
)
    decreases fuel, expr_size(e), 1int,
{
    match e {
        Expr::Assign { target, value, .. } => {
            let (s1, r) = ev_expr(st, *value, decls, fo, fuel);
            match r {
                Err(h) => (s1, Err(h)),
                Ok(v) => match *target {
                    Expr::Ident { name, .. } => match s1.set(name@, v) {
                        Some(s2) => (s2, Ok(v)),
                        None => (s1, Err(Halt::Unchecked)),
                    },
                    Expr::Index { array, index, .. } => {
                        proof {
                            assert(expr_size(*target) == 1 + expr_size(*array) + expr_size(*index));
                        }
                        let (s2, a) = ev_expr(s1, *array, decls, fo, fuel);
                        match a {
                            Err(h) => (s2, Err(h)),
                            Ok(av) => {
                                let (s3, i) = ev_expr(s2, *index, decls, fo, fuel);
                                match i {
                                    Err(h) => (s3, Err(h)),
                                    Ok(iv) => match (av, iv) {
                                        (SpecValue::Array(id), SpecValue::Int(idx)) => match heap_write(
                                            s3,
                                            id,
                                            idx,
                                            v,
                                        ) {
                                            Ok(s4) => (s4, Ok(v)),
                                            Err(h) => (s3, Err(h)),
                                        },
                                        _ => (s3, Err(Halt::Unchecked)),
                                    },
                                }
                            },
                        }
                    },
                    _ => (s1, Err(Halt::Unchecked)),
                },
            }
        },
        _ => (st, Err(Halt::Unchecked)),
    }
}

/// Compound assignment: the target's place is found once, its value read,
/// the right side evaluated, and the combination written back.
pub open spec fn ev_compound(st: MState, e: Expr, decls: Seq<Decl>, fo: Oracle, fuel: nat) -> (
    MState,
    Res<SpecValue>,
)
    decreases fuel, expr_size(e), 1int,
{
    match e {
        Expr::CompoundAssign { op, target, value, .. } => match *target {
            Expr::Ident { name, .. } => match st.get(name@) {
                None => (st, Err(Halt::Unchecked)),
                Some(cur) => {
                    let (s1, r) = ev_expr(st, *value, decls, fo, fuel);
                    match r {
                        Err(h) => (s1, Err(h)),
                        Ok(rhs) => match binary_value(s1.heap, op, cur, rhs, fo) {
                            Err(h) => (s1, Err(h)),
                            Ok(nv) => match s1.set(name@, nv) {
                                Some(s2) => (s2, Ok(nv)),
                                None => (s1, Err(Halt::Unchecked)),
                            },
                        },
                    }
                },
            },
            Expr::Index { array, index, .. } => {
                proof {
                    assert(expr_size(*target) == 1 + expr_size(*array) + expr_size(*index));
                }
                let (s1, a) = ev_expr(st, *array, decls, fo, fuel);
                match a {
                    Err(h) => (s1, Err(h)),
                    Ok(av) => {
                        let (s2, i) = ev_expr(s1, *index, decls, fo, fuel);
                        match i {
                            Err(h) => (s2, Err(h)),
                            Ok(iv) => match (av, iv) {
                                (SpecValue::Array(id), SpecValue::Int(idx)) => match heap_read(
                                    s2,
                                    id,
                                    idx,
                                ) {
                                    Err(h) => (s2, Err(h)),
                                    Ok(cur) => {
                                        let (s3, r) = ev_expr(s2, *value, decls, fo, fuel);
                                        match r {
                                            Err(h) => (s3, Err(h)),
                                            Ok(rhs) => match binary_value(
                                                s3.heap,
                                                op,
                                                cur,
                                                rhs,
                                                fo,
                                            ) {
                                                Err(h) => (s3, Err(h)),
                                                Ok(nv) => match heap_write(s3, id, idx, nv) {
                                                    Ok(s4) => (s4, Ok(nv)),
                                                    Err(h) => (s3, Err(h)),
                                                },
                                            },
                                        }
                                    },
                                },
                                _ => (s2, Err(Halt::Unchecked)),
                            },
                        }
                    },
                }
            },
            _ => (st, Err(Halt::Unchecked)),
        },
        _ => (st, Err(Halt::Unchecked)),
    }
}

/// `++` and `--`: the place is found once; a prefix form yields the new
/// value and a postfix form the old one.
pub open spec fn ev_inc_dec(st: MState, e: Expr, decls: Seq<Decl>, fo: Oracle, fuel: nat) -> (
    MState,
    Res<SpecValue>,
)
    decreases fuel, expr_size(e), 1int,
{
    match e {
        Expr::IncDec { op, target, is_prefix, .. } => match *target {
            Expr::Ident { name, .. } => match st.get(name@) {
                None => (st, Err(Halt::Unchecked)),
                Some(cur) => match step_value(op, cur, fo) {
                    Err(h) => (st, Err(h)),
                    Ok(nv) => match st.set(name@, nv) {
                        Some(s1) => (
                            s1,
                            Ok(
                                if is_prefix {
                                    nv
                                } else {
                                    cur
                                },
                            ),
                        ),
                        None => (st, Err(Halt::Unchecked)),
                    },
                },
            },
            Expr::Index { array, index, .. } => {
                proof {
                    assert(expr_size(*target) == 1 + expr_size(*array) + expr_size(*index));
                }
                let (s1, a) = ev_expr(st, *array, decls, fo, fuel);
                match a {
                    Err(h) => (s1, Err(h)),
                    Ok(av) => {
                        let (s2, i) = ev_expr(s1, *index, decls, fo, fuel);
                        match i {
                            Err(h) => (s2, Err(h)),
                            Ok(iv) => match (av, iv) {
                                (SpecValue::Array(id), SpecValue::Int(idx)) => match heap_read(
                                    s2,
                                    id,
                                    idx,
                                ) {
                                    Err(h) => (s2, Err(h)),
                                    Ok(cur) => match step_value(op, cur, fo) {
                                        Err(h) => (s2, Err(h)),
                                        Ok(nv) => match heap_write(s2, id, idx, nv) {
                                            Ok(s3) => (
                                                s3,
                                                Ok(
                                                    if is_prefix {
                                                        nv
                                                    } else {
                                                        cur
                                                    },
                                                ),
                                            ),
                                            Err(h) => (s2, Err(h)),
                                        },
                                    },
                                },
                                _ => (s2, Err(Halt::Unchecked)),
                            },
                        }
                    },
                }
            },
            _ => (st, Err(Halt::Unchecked)),
        },
        _ => (st, Err(Halt::Unchecked)),
    }
}

/// A call: `print` writes one line; the string builtins compute on their
/// arguments; any other name runs the function's body in a fresh scope
/// beneath the globals, which costs a step.
pub open spec fn ev_call(st: MState, e: Expr, decls: Seq<Decl>, fo: Oracle, fuel: nat) -> (
    MState,
    Res<SpecValue>,
)
    decreases fuel, expr_size(e), 1int,
{
    match e {
        Expr::Call { callee, args, .. } => {
            if callee@ == "print"@ {
                if args@.len() == 0 {
                    (st, Err(Halt::Unchecked))
                } else {
                    proof {
                        assert(exprs_size(args@, 0) == 1 + expr_size(args@[0]) + exprs_size(args@, 1));
                    }
                    let (s1, r) = ev_expr(st, args@[0], decls, fo, fuel);
                    match r {
                        Err(h) => (s1, Err(h)),
                        Ok(v) => match format_spec(v, fo) {
                            Some(text) => (s1.print(text), Ok(SpecValue::Void)),
                            None => (s1, Err(Halt::Unchecked)),
                        },
                    }
                }
            } else {
                let (s1, r) = ev_args_from(st, args@, 0, Seq::empty(), decls, fo, fuel);
                match r {
                    Err(h) => (s1, Err(h)),
                    Ok(vals) => match builtin_value(callee@, vals) {
                        Some(res) => (s1, res),
                        None => match find_func(decls, callee@, decls.len() as int) {
                            None => (s1, Err(Halt::Unchecked)),
                            Some(f) => if fuel == 0 {
                                (s1, Err(Halt::StepLimit))
                            } else {
                                call_function(s1, f, vals, decls, fo, (fuel - 1) as nat)
                            },
                        },
                    },
                }
            }
        },
        _ => (st, Err(Halt::Unchecked)),
    }
}

/// Running a function's body on its arguments; the caller's scopes are
/// restored afterwards. A body that ends without `return` yields `Void`.
pub open spec fn call_function(
    st: MState,
    f: FuncDecl,
    args: Seq<SpecValue>,
    decls: Seq<Decl>,
    fo: Oracle,
    fuel: nat,
) -> (MState, Res<SpecValue>)
    decreases fuel, stmts_size(f.body.stmts@, 0) + 1, 0int,
{
    let scope = bind_params(f.params@, args, 0, Map::empty());
    let (s1, r) = ex_block_from(st.with_frame(seq![scope]), f.body.stmts@, 0, decls, fo, fuel);
    let s2 = s1.with_frame(st.frame);
    match r {
        Err(h) => (s2, Err(h)),
        Ok(SpecFlow::Return(v)) => (s2, Ok(v)),
        Ok(SpecFlow::Normal) => (s2, Ok(SpecValue::Void)),
    }
}

// ---- statements ----

pub open spec fn ex_stmt(st: MState, s: Stmt, decls: Seq<Decl>, fo: Oracle, fuel: nat) -> (
    MState,
    Res<SpecFlow>,
)
    decreases fuel, stmt_size(s), 1int,
{
    match s {
        Stmt::Expr(e) => {
            let (s1, r) = ev_expr(st, e, decls, fo, fuel);
            match r {
                Err(h) => (s1, Err(h)),
                Ok(_) => (s1, Ok(SpecFlow::Normal)),
            }
        },
        Stmt::VarDecl(vd) => match vd.init {
            Some(init) => {
                let (s1, r) = ev_expr(st, init, decls, fo, fuel);
                match r {
                    Err(h) => (s1, Err(h)),
                    Ok(v) => (s1.define(vd.name@, v), Ok(SpecFlow::Normal)),
                }
            },
            None => {
                let (s1, v) = default_value_spec(st, vd.ty);
                (s1.define(vd.name@, v), Ok(SpecFlow::Normal))
            },
        },
        Stmt::Block(b) => {
            let (s1, r) = ex_block_from(st.push_scope(), b.stmts@, 0, decls, fo, fuel);
            (s1.pop_scope(), r)
        },
        Stmt::If(i) => {
            let (s1, c) = ev_expr(st, i.cond, decls, fo, fuel);
            match c {
                Err(h) => (s1, Err(h)),
                Ok(cv) => match bool_of(cv) {
                    Err(h) => (s1, Err(h)),
                    Ok(true) => ex_scoped(s1, *i.then_branch, decls, fo, fuel),
                    Ok(false) => match i.else_branch {
                        Some(eb) => ex_scoped(s1, *eb, decls, fo, fuel),
                        None => (s1, Ok(SpecFlow::Normal)),
                    },
                },
            }
        },
        Stmt::While(_) => ex_while(st, s, decls, fo, fuel),
        Stmt::For(f) => {
            let (s1, r) = ex_stmt(st.push_scope(), *f.init, decls, fo, fuel);
            match r {
                Err(h) => (s1.pop_scope(), Err(h)),
                Ok(_) => {
                    let (s2, r2) = ex_for_loop(s1, s, decls, fo, fuel);
                    (s2.pop_scope(), r2)
                },
            }
        },
        Stmt::Return(r) => match r.value {
            Some(v) => {
                let (s1, x) = ev_expr(st, v, decls, fo, fuel);
                match x {
                    Err(h) => (s1, Err(h)),
                    Ok(val) => (s1, Ok(SpecFlow::Return(val))),
                }
            },
            None => (st, Ok(SpecFlow::Return(SpecValue::Void))),
        },
    }
}

/// A branch or loop body runs in a scope of its own unless it is a block,
/// which opens one itself.
pub open spec fn ex_scoped(st: MState, s: Stmt, decls: Seq<Decl>, fo: Oracle, fuel: nat) -> (
    MState,
    Res<SpecFlow>,
)
    decreases fuel, stmt_size(s), 2int,
{
    if s is Block {
        ex_stmt(st, s, decls, fo, fuel)
    } else {
        let (s1, r) = ex_stmt(st.push_scope(), s, decls, fo, fuel);
        (s1.pop_scope(), r)
    }
}

/// Running `stmts[i..]` until one returns or halts.
pub open spec fn ex_block_from(
    st: MState,
    stmts: Seq<Stmt>,
    i: int,
    decls: Seq<Decl>,
    fo: Oracle,
    fuel: nat,
) -> (MState, Res<SpecFlow>)
    decreases fuel, stmts_size(stmts, i), 3int,
{
    if i < 0 || i >= stmts.len() {
        (st, Ok(SpecFlow::Normal))
    } else {
        let (s1, r) = ex_stmt(st, stmts[i], decls, fo, fuel);
        match r {
            Ok(SpecFlow::Normal) => ex_block_from(s1, stmts, i + 1, decls, fo, fuel),
            _ => (s1, r),
        }
    }
}

/// A `while` loop; each iteration costs a step.
pub open spec fn ex_while(st: MState, s: Stmt, decls: Seq<Decl>, fo: Oracle, fuel: nat) -> (
    MState,
    Res<SpecFlow>,
)
    decreases fuel, stmt_size(s), 0int,
{
    match s {
        Stmt::While(w) => if fuel == 0 {
            (st, Err(Halt::StepLimit))
        } else {
            let (s1, c) = ev_expr(st, w.cond, decls, fo, fuel);
            match c {
                Err(h) => (s1, Err(h)),
                Ok(cv) => match bool_of(cv) {
                    Err(h) => (s1, Err(h)),
                    Ok(false) => (s1, Ok(SpecFlow::Normal)),
                    Ok(true) => {
                        let (s2, r) = ex_scoped(s1, *w.body, decls, fo, fuel);
                        match r {
                            Ok(SpecFlow::Normal) => ex_while(s2, s, decls, fo, (fuel - 1) as nat),
                            _ => (s2, r),
                        }
                    },
                },
            }
        },
        _ => (st, Err(Halt::Unchecked)),
    }
}

/// The loop of a `for` statement, after its initializer; each iteration
/// costs a step.
pub open spec fn ex_for_loop(st: MState, s: Stmt, decls: Seq<Decl>, fo: Oracle, fuel: nat) -> (
    MState,
    Res<SpecFlow>,
)
    decreases fuel, stmt_size(s), 0int,
{
    match s {
        Stmt::For(f) => if fuel == 0 {
            (st, Err(Halt::StepLimit))
        } else {
            let (s1, c) = ev_expr(st, f.cond, decls, fo, fuel);
            match c {
                Err(h) => (s1, Err(h)),
                Ok(cv) => match bool_of(cv) {
                    Err(h) => (s1, Err(h)),
                    Ok(false) => (s1, Ok(SpecFlow::Normal)),
                    Ok(true) => {
                        let (s2, r) = ex_scoped(s1, *f.body, decls, fo, fuel);
                        match r {
                            Ok(SpecFlow::Normal) => {
                                let (s3, u) = ev_expr(s2, f.update, decls, fo, fuel);
                                match u {
                                    Err(h) => (s3, Err(h)),
                                    Ok(_) => ex_for_loop(s3, s, decls, fo, (fuel - 1) as nat),
                                }
                            },
                            _ => (s2, r),
                        }
                    },
                },
            }
        },
        _ => (st, Err(Halt::Unchecked)),
    }
}

// ---- whole programs ----

/// Defining the globals of `decls[i..]` in order.
pub open spec fn ex_globals_from(st: MState, decls: Seq<Decl>, i: int, fo: Oracle, fuel: nat) -> (
    MState,
    Res<()>,
)
    decreases decls.len() - i,
{
    if i < 0 || i >= decls.len() {
        (st, Ok(()))
    } else {
        match decls[i] {
            Decl::Var(vd) => match vd.init {
                Some(init) => {
                    let (s1, r) = ev_expr(st, init, decls, fo, fuel);
                    match r {
                        Err(h) => (s1, Err(h)),
                        Ok(v) => ex_globals_from(s1.define(vd.name@, v), decls, i + 1, fo, fuel),
                    }
                },
                None => {
                    let (s1, v) = default_value_spec(st, vd.ty);
                    ex_globals_from(s1.define(vd.name@, v), decls, i + 1, fo, fuel)
                },
            },
            Decl::Func(_) => ex_globals_from(st, decls, i + 1, fo, fuel),
        }
    }
}

pub open spec fn initial_mstate() -> MState {
    MState { globals: Map::empty(), frame: Seq::empty(), heap: Seq::empty(), out: Seq::empty() }
}

/// Running a program: its globals in order, then `main()`.
pub open spec fn spec_run(decls: Seq<Decl>, fo: Oracle, fuel: nat) -> (MState, Res<()>) {
    let (s1, g) = ex_globals_from(initial_mstate(), decls, 0, fo, fuel);
    match g {
        Err(h) => (s1, Err(h)),
        Ok(_) => match find_func(decls, "main"@, decls.len() as int) {
            None => (s1, Err(Halt::Unchecked)),
            Some(f) => {
                let (s2, r) = call_function(s1, f, Seq::empty(), decls, fo, fuel);
                match r {
                    Err(h) => (s2, Err(h)),
                    Ok(_) => (s2, Ok(())),
                }
            },
        },
    }
}

// ---- laws ----

proof fn lemma_frame_find_after_insert(
    frame: Seq<Map<Seq<char>, SpecValue>>,
    name: Seq<char>,
    k: int,
    v: SpecValue,
    n: int,
)
    requires
        0 <= n <= frame.len(),
        frame_find(frame, name, n) == Some(k),
    ensures
        frame_find(frame.update(k, frame[k].insert(name, v)), name, n) == Some(k),
    decreases n,
{
    lemma_frame_find(frame, name, n);
    if n - 1 != k {
        lemma_frame_find_after_insert(frame, name, k, v, n - 1);
    }
}

/// Reading a variable gives back what was last assigned to it.
pub proof fn law_assign_then_read(st: MState, name: Seq<char>, v: SpecValue)
    requires
        st.set(name, v) is Some,
    ensures
        st.set(name, v)->0.get(name) == Some(v),
{
    lemma_frame_find(st.frame, name, st.frame.len() as int);
    match frame_find(st.frame, name, st.frame.len() as int) {
        Some(k) => {
            lemma_frame_find_after_insert(st.frame, name, k, v, st.frame.len() as int);
        },
        None => {},
    }
}

/// A declaration is visible at once, hiding any outer variable of the
/// same name.
pub proof fn law_declare_then_read(st: MState, name: Seq<char>, v: SpecValue)
    ensures
        st.define(name, v).get(name) == Some(v),
{
}

/// Reading an array cell gives back what was last written to it.
pub proof fn law_write_then_read(st: MState, id: usize, idx: i64, v: SpecValue)
    requires
        heap_write(st, id, idx, v) is Ok,
    ensures
        heap_read(heap_write(st, id, idx, v)->Ok_0, id, idx) == Ok::<SpecValue, Halt>(v),
{
}

/// Writing one array cell leaves every other cell, of every array, as it
/// was.
pub proof fn law_write_leaves_other_cells(
    st: MState,
    id: usize,
    idx: i64,
    v: SpecValue,
    other_id: usize,
    other_idx: i64,
)
    requires
        heap_write(st, id, idx, v) is Ok,
        id != other_id || idx != other_idx,
    ensures
        heap_read(heap_write(st, id, idx, v)->Ok_0, other_id, other_idx) == heap_read(
            st,
            other_id,
            other_idx,
        ),
{
}

/// `b` has the scopes of `a`, each binding the same names (their values
/// may differ).
pub open spec fn same_names(a: Seq<Map<Seq<char>, SpecValue>>, b: Seq<Map<Seq<char>, SpecValue>>) -> bool {
    a.len() == b.len() && forall|k: int| 0 <= k < a.len() ==> #[trigger] b[k].dom() == a[k].dom()
}

/// `b` has the scopes of `a`, each binding the same names, except that the
/// innermost may bind more.
pub open spec fn names_grow_last(
    a: Seq<Map<Seq<char>, SpecValue>>,
    b: Seq<Map<Seq<char>, SpecValue>>,
) -> bool {
    &&& a.len() == b.len()
    &&& forall|k: int| 0 <= k < a.len() - 1 ==> #[trigger] b[k].dom() == a[k].dom()
    &&& a.len() > 0 ==> a.last().dom().subset_of(b.last().dom())
}

/// `b` holds every line of `a`, in the same places, and perhaps more
/// after them.
pub open spec fn keeps_lines(a: Seq<Seq<char>>, b: Seq<Seq<char>>) -> bool {
    a.len() <= b.len() && forall|i: int| 0 <= i < a.len() ==> #[trigger] b[i] == a[i]
}

proof fn lemma_frame_find_names(st: MState)
    ensures
        forall|name: Seq<char>, v: SpecValue|
            #[trigger] st.set(name, v) is Some ==> same_names(st.frame, st.set(name, v)->0.frame),
{
    assert forall|name: Seq<char>, v: SpecValue| #[trigger] st.set(name, v) is Some implies same_names(
        st.frame,
        st.set(name, v)->0.frame,
    ) by {
        lemma_frame_find(st.frame, name, st.frame.len() as int);
        match frame_find(st.frame, name, st.frame.len() as int) {
            Some(k) => {
                assert(st.frame[k].insert(name, v).dom() =~= st.frame[k].dom());
            },
            None => {},
        }
    }
}

proof fn lemma_ev_expr(st: MState, e: Expr, decls: Seq<Decl>, fo: Oracle, fuel: nat)
    ensures
        keeps_lines(st.out, ev_expr(st, e, decls, fo, fuel).0.out),
        same_names(st.frame, ev_expr(st, e, decls, fo, fuel).0.frame),
    decreases fuel, expr_size(e), 2int,
{
    match e {
        Expr::Binary { .. } => lemma_ev_binary(st, e, decls, fo, fuel),
        Expr::Unary { operand, .. } => lemma_ev_expr(st, *operand, decls, fo, fuel),
        Expr::Assign { .. } => lemma_ev_assign(st, e, decls, fo, fuel),
        Expr::CompoundAssign { .. } => lemma_ev_compound(st, e, decls, fo, fuel),
        Expr::IncDec { .. } => lemma_ev_inc_dec(st, e, decls, fo, fuel),
        Expr::Ternary { cond, then_branch, else_branch, .. } => {
            lemma_ev_expr(st, *cond, decls, fo, fuel);
            let s1 = ev_expr(st, *cond, decls, fo, fuel).0;
            lemma_ev_expr(s1, *then_branch, decls, fo, fuel);
            lemma_ev_expr(s1, *else_branch, decls, fo, fuel);
        },
        Expr::Call { .. } => lemma_ev_call(st, e, decls, fo, fuel),
        Expr::Index { array, index, .. } => {
            lemma_ev_expr(st, *array, decls, fo, fuel);
            lemma_ev_expr(ev_expr(st, *array, decls, fo, fuel).0, *index, decls, fo, fuel);
        },
        Expr::FieldAccess { object, .. } => lemma_ev_expr(st, *object, decls, fo, fuel),
        Expr::ArrayLiteral { elements, .. } => lemma_args_from(
            st,
            elements@,
            0,
            Seq::empty(),
            decls,
            fo,
            fuel,
        ),
        Expr::ArrayCreation { size, .. } => lemma_ev_expr(st, *size, decls, fo, fuel),
        _ => {},
    }
}

proof fn lemma_args_from(
    st: MState,
    es: Seq<Expr>,
    i: int,
    acc: Seq<SpecValue>,
    decls: Seq<Decl>,
    fo: Oracle,
    fuel: nat,
)
    ensures
        keeps_lines(st.out, ev_args_from(st, es, i, acc, decls, fo, fuel).0.out),
        same_names(st.frame, ev_args_from(st, es, i, acc, decls, fo, fuel).0.frame),
    decreases fuel, exprs_size(es, i), 3int,
{
    if !(i < 0 || i >= es.len()) {
        lemma_ev_expr(st, es[i], decls, fo, fuel);
        let (s1, r) = ev_expr(st, es[i], decls, fo, fuel);
        if r is Ok {
            lemma_args_from(s1, es, i + 1, acc.push(r->Ok_0), decls, fo, fuel);
        }
    }
}

proof fn lemma_ev_binary(st: MState, e: Expr, decls: Seq<Decl>, fo: Oracle, fuel: nat)
    ensures
        keeps_lines(st.out, ev_binary(st, e, decls, fo, fuel).0.out),
        same_names(st.frame, ev_binary(st, e, decls, fo, fuel).0.frame),
    decreases fuel, expr_size(e), 1int,
{
    match e {
        Expr::Binary { left, right, .. } => {
            lemma_ev_expr(st, *left, decls, fo, fuel);
            lemma_ev_expr(ev_expr(st, *left, decls, fo, fuel).0, *right, decls, fo, fuel);
        },
        _ => {},
    }
}

proof fn lemma_ev_assign(st: MState, e: Expr, decls: Seq<Decl>, fo: Oracle, fuel: nat)
    ensures
        keeps_lines(st.out, ev_assign(st, e, decls, fo, fuel).0.out),
        same_names(st.frame, ev_assign(st, e, decls, fo, fuel).0.frame),
    decreases fuel, expr_size(e), 1int,
{
    match e {
        Expr::Assign { target, value, .. } => {
            lemma_ev_expr(st, *value, decls, fo, fuel);
            let s1 = ev_expr(st, *value, decls, fo, fuel).0;
            lemma_frame_find_names(s1);
            match *target {
                Expr::Index { array, index, .. } => {
                    assert(expr_size(*target) == 1 + expr_size(*array) + expr_size(*index));
                    lemma_ev_expr(s1, *array, decls, fo, fuel);
                    let s2 = ev_expr(s1, *array, decls, fo, fuel).0;
                    lemma_ev_expr(s2, *index, decls, fo, fuel);
                },
                _ => {},
            }
        },
        _ => {},
    }
}

proof fn lemma_ev_compound(st: MState, e: Expr, decls: Seq<Decl>, fo: Oracle, fuel: nat)
    ensures
        keeps_lines(st.out, ev_compound(st, e, decls, fo, fuel).0.out),
        same_names(st.frame, ev_compound(st, e, decls, fo, fuel).0.frame),
    decreases fuel, expr_size(e), 1int,
{
    match e {
        Expr::CompoundAssign { target, value, .. } => match *target {
            Expr::Ident { .. } => {
                lemma_ev_expr(st, *value, decls, fo, fuel);
                lemma_frame_find_names(ev_expr(st, *value, decls, fo, fuel).0);
            },
            Expr::Index { array, index, .. } => {
                assert(expr_size(*target) == 1 + expr_size(*array) + expr_size(*index));
                lemma_ev_expr(st, *array, decls, fo, fuel);
                let s1 = ev_expr(st, *array, decls, fo, fuel).0;
                lemma_ev_expr(s1, *index, decls, fo, fuel);
                let s2 = ev_expr(s1, *index, decls, fo, fuel).0;
                lemma_ev_expr(s2, *value, decls, fo, fuel);
            },
            _ => {},
        },
        _ => {},
    }
}

proof fn lemma_ev_inc_dec(st: MState, e: Expr, decls: Seq<Decl>, fo: Oracle, fuel: nat)
    ensures
        keeps_lines(st.out, ev_inc_dec(st, e, decls, fo, fuel).0.out),
        same_names(st.frame, ev_inc_dec(st, e, decls, fo, fuel).0.frame),
    decreases fuel, expr_size(e), 1int,
{
    match e {
        Expr::IncDec { target, .. } => match *target {
            Expr::Ident { .. } => lemma_frame_find_names(st),
            Expr::Index { array, index, .. } => {
                assert(expr_size(*target) == 1 + expr_size(*array) + expr_size(*index));
                lemma_ev_expr(st, *array, decls, fo, fuel);
                lemma_ev_expr(ev_expr(st, *array, decls, fo, fuel).0, *index, decls, fo, fuel);
            },
            _ => {},
        },
        _ => {},
    }
}

proof fn lemma_ev_call(st: MState, e: Expr, decls: Seq<Decl>, fo: Oracle, fuel: nat)
    ensures
        keeps_lines(st.out, ev_call(st, e, decls, fo, fuel).0.out),
        same_names(st.frame, ev_call(st, e, decls, fo, fuel).0.frame),
    decreases fuel, expr_size(e), 1int,
{
    match e {
        Expr::Call { callee, args, .. } => {
            if callee@ == "print"@ {
                if args@.len() != 0 {
                    assert(exprs_size(args@, 0) == 1 + expr_size(args@[0]) + exprs_size(args@, 1));
                    lemma_ev_expr(st, args@[0], decls, fo, fuel);
                }
            } else {
                lemma_args_from(st, args@, 0, Seq::empty(), decls, fo, fuel);
                let (s1, r) = ev_args_from(st, args@, 0, Seq::empty(), decls, fo, fuel);
                if r is Ok && fuel > 0 {
                    match find_func(decls, callee@, decls.len() as int) {
                        Some(f) => lemma_call_function(
                            s1,
                            f,
                            r->Ok_0,
                            decls,
                            fo,
                            (fuel - 1) as nat,
                        ),
                        None => {},
                    }
                }
            }
        },
        _ => {},
    }
}

proof fn lemma_call_function(
    st: MState,
    f: FuncDecl,
    args: Seq<SpecValue>,
    decls: Seq<Decl>,
    fo: Oracle,
    fuel: nat,
)
    ensures
        keeps_lines(st.out, call_function(st, f, args, decls, fo, fuel).0.out),
        call_function(st, f, args, decls, fo, fuel).0.frame == st.frame,
    decreases fuel, stmts_size(f.body.stmts@, 0) + 1, 0int,
{
    let scope = bind_params(f.params@, args, 0, Map::empty());
    lemma_block_from(st.with_frame(seq![scope]), f.body.stmts@, 0, decls, fo, fuel);
}

proof fn lemma_ex_stmt(st: MState, s: Stmt, decls: Seq<Decl>, fo: Oracle, fuel: nat)
    ensures
        keeps_lines(st.out, ex_stmt(st, s, decls, fo, fuel).0.out),
        names_grow_last(st.frame, ex_stmt(st, s, decls, fo, fuel).0.frame),
        s is Block ==> same_names(st.frame, ex_stmt(st, s, decls, fo, fuel).0.frame),
    decreases fuel, stmt_size(s), 1int,
{
    match s {
        Stmt::Expr(e) => lemma_ev_expr(st, e, decls, fo, fuel),
        Stmt::VarDecl(vd) => match vd.init {
            Some(init) => lemma_ev_expr(st, init, decls, fo, fuel),
            None => {},
        },
        Stmt::Block(b) => lemma_block_from(st.push_scope(), b.stmts@, 0, decls, fo, fuel),
        Stmt::If(i) => {
            lemma_ev_expr(st, i.cond, decls, fo, fuel);
            let s1 = ev_expr(st, i.cond, decls, fo, fuel).0;
            lemma_scoped(s1, *i.then_branch, decls, fo, fuel);
            match i.else_branch {
                Some(eb) => lemma_scoped(s1, *eb, decls, fo, fuel),
                None => {},
            }
        },
        Stmt::While(_) => lemma_while(st, s, decls, fo, fuel),
        Stmt::For(f) => {
            lemma_ex_stmt(st.push_scope(), *f.init, decls, fo, fuel);
            let s1 = ex_stmt(st.push_scope(), *f.init, decls, fo, fuel).0;
            lemma_for_loop(s1, s, decls, fo, fuel);
        },
        Stmt::Return(r) => match r.value {
            Some(v) => lemma_ev_expr(st, v, decls, fo, fuel),
            None => {},
        },
    }
}

proof fn lemma_scoped(st: MState, s: Stmt, decls: Seq<Decl>, fo: Oracle, fuel: nat)
    ensures
        keeps_lines(st.out, ex_scoped(st, s, decls, fo, fuel).0.out),
        same_names(st.frame, ex_scoped(st, s, decls, fo, fuel).0.frame),
    decreases fuel, stmt_size(s), 2int,
{
    if s is Block {
        lemma_ex_stmt(st, s, decls, fo, fuel);
    } else {
        lemma_ex_stmt(st.push_scope(), s, decls, fo, fuel);
    }
}

proof fn lemma_block_from(
    st: MState,
    stmts: Seq<Stmt>,
    i: int,
    decls: Seq<Decl>,
    fo: Oracle,
    fuel: nat,
)
    ensures
        keeps_lines(st.out, ex_block_from(st, stmts, i, decls, fo, fuel).0.out),
        names_grow_last(st.frame, ex_block_from(st, stmts, i, decls, fo, fuel).0.frame),
    decreases fuel, stmts_size(stmts, i), 3int,
{
    if !(i < 0 || i >= stmts.len()) {
        lemma_ex_stmt(st, stmts[i], decls, fo, fuel);
        let s1 = ex_stmt(st, stmts[i], decls, fo, fuel).0;
        lemma_block_from(s1, stmts, i + 1, decls, fo, fuel);
    }
}

proof fn lemma_while(st: MState, s: Stmt, decls: Seq<Decl>, fo: Oracle, fuel: nat)
    ensures
        keeps_lines(st.out, ex_while(st, s, decls, fo, fuel).0.out),
        same_names(st.frame, ex_while(st, s, decls, fo, fuel).0.frame),
    decreases fuel, stmt_size(s), 0int,
{
    match s {
        Stmt::While(w) => if fuel > 0 {
            lemma_ev_expr(st, w.cond, decls, fo, fuel);
            let s1 = ev_expr(st, w.cond, decls, fo, fuel).0;
            lemma_scoped(s1, *w.body, decls, fo, fuel);
            let s2 = ex_scoped(s1, *w.body, decls, fo, fuel).0;
            lemma_while(s2, s, decls, fo, (fuel - 1) as nat);
        },
        _ => {},
    }
}

proof fn lemma_for_loop(st: MState, s: Stmt, decls: Seq<Decl>, fo: Oracle, fuel: nat)
    ensures
        keeps_lines(st.out, ex_for_loop(st, s, decls, fo, fuel).0.out),
        same_names(st.frame, ex_for_loop(st, s, decls, fo, fuel).0.frame),
    decreases fuel, stmt_size(s), 0int,
{
    match s {
        Stmt::For(f) => if fuel > 0 {
            lemma_ev_expr(st, f.cond, decls, fo, fuel);
            let s1 = ev_expr(st, f.cond, decls, fo, fuel).0;
            lemma_scoped(s1, *f.body, decls, fo, fuel);
            let s2 = ex_scoped(s1, *f.body, decls, fo, fuel).0;
            lemma_ev_expr(s2, f.update, decls, fo, fuel);
            let s3 = ev_expr(s2, f.update, decls, fo, fuel).0;
            lemma_for_loop(s3, s, decls, fo, (fuel - 1) as nat);
        },
        _ => {},
    }
}

/// What was printed stays printed: running a statement only appends
/// lines, and keeps them when it halts on an error.
pub proof fn law_output_is_never_retracted(
    st: MState,
    s: Stmt,
    decls: Seq<Decl>,
    fo: Oracle,
    fuel: nat,
)
    ensures
        keeps_lines(st.out, ex_stmt(st, s, decls, fo, fuel).0.out),
{
    lemma_ex_stmt(st, s, decls, fo, fuel);
}

/// A halt other than running out of steps.
pub open spec fn finished<T>(r: Res<T>) -> bool {
    r != Err::<T, Halt>(Halt::StepLimit)
}

proof fn mono_expr(st: MState, e: Expr, decls: Seq<Decl>, fo: Oracle, f1: nat, f2: nat)
    requires
        f1 <= f2,
        finished(ev_expr(st, e, decls, fo, f1).1),
    ensures
        ev_expr(st, e, decls, fo, f2) == ev_expr(st, e, decls, fo, f1),
    decreases f1, expr_size(e), 2int,
{
    match e {
        Expr::Binary { .. } => mono_binary(st, e, decls, fo, f1, f2),
        Expr::Unary { operand, .. } => mono_expr(st, *operand, decls, fo, f1, f2),
        Expr::Assign { .. } => mono_assign(st, e, decls, fo, f1, f2),
        Expr::CompoundAssign { .. } => mono_compound(st, e, decls, fo, f1, f2),
        Expr::IncDec { .. } => mono_inc_dec(st, e, decls, fo, f1, f2),
        Expr::Ternary { cond, then_branch, else_branch, .. } => {
            mono_expr(st, *cond, decls, fo, f1, f2);
            let (s1, c) = ev_expr(st, *cond, decls, fo, f1);
            if c is Ok && bool_of(c->Ok_0) is Ok {
                if bool_of(c->Ok_0)->Ok_0 {
                    mono_expr(s1, *then_branch, decls, fo, f1, f2);
                } else {
                    mono_expr(s1, *else_branch, decls, fo, f1, f2);
                }
            }
        },
        Expr::Call { .. } => mono_call(st, e, decls, fo, f1, f2),
        Expr::Index { array, index, .. } => {
            mono_expr(st, *array, decls, fo, f1, f2);
            let (s1, a) = ev_expr(st, *array, decls, fo, f1);
            if a is Ok {
                mono_expr(s1, *index, decls, fo, f1, f2);
            }
        },
        Expr::FieldAccess { object, .. } => mono_expr(st, *object, decls, fo, f1, f2),
        Expr::ArrayLiteral { elements, .. } => mono_args(
            st,
            elements@,
            0,
            Seq::empty(),
            decls,
            fo,
            f1,
            f2,
        ),
        Expr::ArrayCreation { size, .. } => mono_expr(st, *size, decls, fo, f1, f2),
        _ => {},
    }
}

proof fn mono_args(
    st: MState,
    es: Seq<Expr>,
    i: int,
    acc: Seq<SpecValue>,
    decls: Seq<Decl>,
    fo: Oracle,
    f1: nat,
    f2: nat,
)
    requires
        f1 <= f2,
        finished(ev_args_from(st, es, i, acc, decls, fo, f1).1),
    ensures
        ev_args_from(st, es, i, acc, decls, fo, f2) == ev_args_from(st, es, i, acc, decls, fo, f1),
    decreases f1, exprs_size(es, i), 3int,
{
    if !(i < 0 || i >= es.len()) {
        mono_expr(st, es[i], decls, fo, f1, f2);
        let (s1, r) = ev_expr(st, es[i], decls, fo, f1);
        if r is Ok {
            mono_args(s1, es, i + 1, acc.push(r->Ok_0), decls, fo, f1, f2);
        }
    }
}

proof fn mono_binary(st: MState, e: Expr, decls: Seq<Decl>, fo: Oracle, f1: nat, f2: nat)
    requires
        f1 <= f2,
        finished(ev_binary(st, e, decls, fo, f1).1),
    ensures
        ev_binary(st, e, decls, fo, f2) == ev_binary(st, e, decls, fo, f1),
    decreases f1, expr_size(e), 1int,
{
    match e {
        Expr::Binary { op, left, right, .. } => {
            mono_expr(st, *left, decls, fo, f1, f2);
            let (s1, l) = ev_expr(st, *left, decls, fo, f1);
            if l is Ok {
                if finished(ev_expr(s1, *right, decls, fo, f1).1) {
                    mono_expr(s1, *right, decls, fo, f1, f2);
                }
            }
        },
        _ => {},
    }
}

proof fn mono_assign(st: MState, e: Expr, decls: Seq<Decl>, fo: Oracle, f1: nat, f2: nat)
    requires
        f1 <= f2,
        finished(ev_assign(st, e, decls, fo, f1).1),
    ensures
        ev_assign(st, e, decls, fo, f2) == ev_assign(st, e, decls, fo, f1),
    decreases f1, expr_size(e), 1int,
{
    match e {
        Expr::Assign { target, value, .. } => {
            mono_expr(st, *value, decls, fo, f1, f2);
            let (s1, r) = ev_expr(st, *value, decls, fo, f1);
            if r is Ok {
                match *target {
                    Expr::Index { array, index, .. } => {
                        assert(expr_size(*target) == 1 + expr_size(*array) + expr_size(*index));
                        mono_expr(s1, *array, decls, fo, f1, f2);
                        let (s2, a) = ev_expr(s1, *array, decls, fo, f1);
                        if a is Ok {
                            mono_expr(s2, *index, decls, fo, f1, f2);
                        }
                    },
                    _ => {},
                }
            }
        },
        _ => {},
    }
}

proof fn mono_compound(st: MState, e: Expr, decls: Seq<Decl>, fo: Oracle, f1: nat, f2: nat)
    requires
        f1 <= f2,
        finished(ev_compound(st, e, decls, fo, f1).1),
    ensures
        ev_compound(st, e, decls, fo, f2) == ev_compound(st, e, decls, fo, f1),
    decreases f1, expr_size(e), 1int,
{
    match e {
        Expr::CompoundAssign { target, value, .. } => match *target {
            Expr::Ident { name, .. } => {
                if st.get(name@) is Some {
                    mono_expr(st, *value, decls, fo, f1, f2);
                }
            },
            Expr::Index { array, index, .. } => {
                assert(expr_size(*target) == 1 + expr_size(*array) + expr_size(*index));
                mono_expr(st, *array, decls, fo, f1, f2);
                let (s1, a) = ev_expr(st, *array, decls, fo, f1);
                if a is Ok {
                    mono_expr(s1, *index, decls, fo, f1, f2);
                    let (s2, i) = ev_expr(s1, *index, decls, fo, f1);
                    if i is Ok && a->Ok_0 is Array && i->Ok_0 is Int {
                        if heap_read(s2, a->Ok_0->Array_0, i->Ok_0->Int_0) is Ok {
                            mono_expr(s2, *value, decls, fo, f1, f2);
                        }
                    }
                }
            },
            _ => {},
        },
        _ => {},
    }
}

proof fn mono_inc_dec(st: MState, e: Expr, decls: Seq<Decl>, fo: Oracle, f1: nat, f2: nat)
    requires
        f1 <= f2,
        finished(ev_inc_dec(st, e, decls, fo, f1).1),
    ensures
        ev_inc_dec(st, e, decls, fo, f2) == ev_inc_dec(st, e, decls, fo, f1),
    decreases f1, expr_size(e), 1int,
{
    match e {
        Expr::IncDec { target, .. } => match *target {
            Expr::Ident { .. } => lemma_frame_find_names(st),
            Expr::Index { array, index, .. } => {
                assert(expr_size(*target) == 1 + expr_size(*array) + expr_size(*index));
                mono_expr(st, *array, decls, fo, f1, f2);
                let (s1, a) = ev_expr(st, *array, decls, fo, f1);
                if a is Ok {
                    mono_expr(s1, *index, decls, fo, f1, f2);
                }
            },
            _ => {},
        },
        _ => {},
    }
}

proof fn mono_call(st: MState, e: Expr, decls: Seq<Decl>, fo: Oracle, f1: nat, f2: nat)
    requires
        f1 <= f2,
        finished(ev_call(st, e, decls, fo, f1).1),
    ensures
        ev_call(st, e, decls, fo, f2) == ev_call(st, e, decls, fo, f1),
    decreases f1, expr_size(e), 1int,
{
    match e {
        Expr::Call { callee, args, .. } => {
            if callee@ == "print"@ {
                if args@.len() != 0 {
                    assert(exprs_size(args@, 0) == 1 + expr_size(args@[0]) + exprs_size(args@, 1));
                    mono_expr(st, args@[0], decls, fo, f1, f2);
                }
            } else {
                mono_args(st, args@, 0, Seq::empty(), decls, fo, f1, f2);
                let (s1, r) = ev_args_from(st, args@, 0, Seq::empty(), decls, fo, f1);
                if r is Ok && builtin_value(callee@, r->Ok_0) is None {
                    match find_func(decls, callee@, decls.len() as int) {
                        Some(f) => {
                            if f1 > 0 {
                                mono_call_function(
                                    s1,
                                    f,
                                    r->Ok_0,
                                    decls,
                                    fo,
                                    (f1 - 1) as nat,
                                    (f2 - 1) as nat,
                                );
                            }
                        },
                        None => {},
                    }
                }
            }
        },
        _ => {},
    }
}

proof fn mono_call_function(
    st: MState,
    f: FuncDecl,
    args: Seq<SpecValue>,
    decls: Seq<Decl>,
    fo: Oracle,
    f1: nat,
    f2: nat,
)
    requires
        f1 <= f2,
        finished(call_function(st, f, args, decls, fo, f1).1),
    ensures
        call_function(st, f, args, decls, fo, f2) == call_function(st, f, args, decls, fo, f1),
    decreases f1, stmts_size(f.body.stmts@, 0) + 1, 0int,
{
    let scope = bind_params(f.params@, args, 0, Map::empty());
    mono_block(st.with_frame(seq![scope]), f.body.stmts@, 0, decls, fo, f1, f2);
}

proof fn mono_stmt(st: MState, s: Stmt, decls: Seq<Decl>, fo: Oracle, f1: nat, f2: nat)
    requires
        f1 <= f2,
        finished(ex_stmt(st, s, decls, fo, f1).1),
    ensures
        ex_stmt(st, s, decls, fo, f2) == ex_stmt(st, s, decls, fo, f1),
    decreases f1, stmt_size(s), 1int,
{
    match s {
        Stmt::Expr(e) => mono_expr(st, e, decls, fo, f1, f2),
        Stmt::VarDecl(vd) => match vd.init {
            Some(init) => mono_expr(st, init, decls, fo, f1, f2),
            None => {},
        },
        Stmt::Block(b) => mono_block(st.push_scope(), b.stmts@, 0, decls, fo, f1, f2),
        Stmt::If(i) => {
            mono_expr(st, i.cond, decls, fo, f1, f2);
            let (s1, c) = ev_expr(st, i.cond, decls, fo, f1);
            if c is Ok && bool_of(c->Ok_0) is Ok {
                if bool_of(c->Ok_0)->Ok_0 {
                    mono_scoped(s1, *i.then_branch, decls, fo, f1, f2);
                } else {
                    match i.else_branch {
                        Some(eb) => mono_scoped(s1, *eb, decls, fo, f1, f2),
                        None => {},
                    }
                }
            }
        },
        Stmt::While(_) => mono_while(st, s, decls, fo, f1, f2),
        Stmt::For(f) => {
            let (s1, r) = ex_stmt(st.push_scope(), *f.init, decls, fo, f1);
            if r is Ok {
                mono_stmt(st.push_scope(), *f.init, decls, fo, f1, f2);
                mono_for(s1, s, decls, fo, f1, f2);
            } else if finished(r) {
                mono_stmt(st.push_scope(), *f.init, decls, fo, f1, f2);
            }
        },
        Stmt::Return(r) => match r.value {
            Some(v) => mono_expr(st, v, decls, fo, f1, f2),
            None => {},
        },
    }
}

proof fn mono_scoped(st: MState, s: Stmt, decls: Seq<Decl>, fo: Oracle, f1: nat, f2: nat)
    requires
        f1 <= f2,
        finished(ex_scoped(st, s, decls, fo, f1).1),
    ensures
        ex_scoped(st, s, decls, fo, f2) == ex_scoped(st, s, decls, fo, f1),
    decreases f1, stmt_size(s), 2int,
{
    if s is Block {
        mono_stmt(st, s, decls, fo, f1, f2);
    } else {
        mono_stmt(st.push_scope(), s, decls, fo, f1, f2);
    }
}

proof fn mono_block(
    st: MState,
    stmts: Seq<Stmt>,
    i: int,
    decls: Seq<Decl>,
    fo: Oracle,
    f1: nat,
    f2: nat,
)
    requires
        f1 <= f2,
        finished(ex_block_from(st, stmts, i, decls, fo, f1).1),
    ensures
        ex_block_from(st, stmts, i, decls, fo, f2) == ex_block_from(st, stmts, i, decls, fo, f1),
    decreases f1, stmts_size(stmts, i), 3int,
{
    if !(i < 0 || i >= stmts.len()) {
        mono_stmt(st, stmts[i], decls, fo, f1, f2);
        let (s1, r) = ex_stmt(st, stmts[i], decls, fo, f1);
        if r == Ok::<SpecFlow, Halt>(SpecFlow::Normal) {
            mono_block(s1, stmts, i + 1, decls, fo, f1, f2);
        }
    }
}

proof fn mono_while(st: MState, s: Stmt, decls: Seq<Decl>, fo: Oracle, f1: nat, f2: nat)
    requires
        f1 <= f2,
        finished(ex_while(st, s, decls, fo, f1).1),
    ensures
        ex_while(st, s, decls, fo, f2) == ex_while(st, s, decls, fo, f1),
    decreases f1, stmt_size(s), 0int,
{
    match s {
        Stmt::While(w) => if f1 > 0 {
            mono_expr(st, w.cond, decls, fo, f1, f2);
            let (s1, c) = ev_expr(st, w.cond, decls, fo, f1);
            if c is Ok && bool_of(c->Ok_0) == Ok::<bool, Halt>(true) {
                mono_scoped(s1, *w.body, decls, fo, f1, f2);
                let (s2, r) = ex_scoped(s1, *w.body, decls, fo, f1);
                if r == Ok::<SpecFlow, Halt>(SpecFlow::Normal) {
                    mono_while(s2, s, decls, fo, (f1 - 1) as nat, (f2 - 1) as nat);
                }
            }
        },
        _ => {},
    }
}

proof fn mono_for(st: MState, s: Stmt, decls: Seq<Decl>, fo: Oracle, f1: nat, f2: nat)
    requires
        f1 <= f2,
        finished(ex_for_loop(st, s, decls, fo, f1).1),
    ensures
        ex_for_loop(st, s, decls, fo, f2) == ex_for_loop(st, s, decls, fo, f1),
    decreases f1, stmt_size(s), 0int,
{
    match s {
        Stmt::For(f) => if f1 > 0 {
            mono_expr(st, f.cond, decls, fo, f1, f2);
            let (s1, c) = ev_expr(st, f.cond, decls, fo, f1);
            if c is Ok && bool_of(c->Ok_0) == Ok::<bool, Halt>(true) {
                mono_scoped(s1, *f.body, decls, fo, f1, f2);
                let (s2, r) = ex_scoped(s1, *f.body, decls, fo, f1);
                if r == Ok::<SpecFlow, Halt>(SpecFlow::Normal) {
                    mono_expr(s2, f.update, decls, fo, f1, f2);
                    let (s3, u) = ev_expr(s2, f.update, decls, fo, f1);
                    if u is Ok {
                        mono_for(s3, s, decls, fo, (f1 - 1) as nat, (f2 - 1) as nat);
                    }
                }
            }
        },
        _ => {},
    }
}

proof fn mono_globals(st: MState, decls: Seq<Decl>, i: int, fo: Oracle, f1: nat, f2: nat)
    requires
        f1 <= f2,
        finished(ex_globals_from(st, decls, i, fo, f1).1),
    ensures
        ex_globals_from(st, decls, i, fo, f2) == ex_globals_from(st, decls, i, fo, f1),
    decreases decls.len() - i,
{
    if !(i < 0 || i >= decls.len()) {
        match decls[i] {
            Decl::Var(vd) => match vd.init {
                Some(init) => {
                    mono_expr(st, init, decls, fo, f1, f2);
                    let (s1, r) = ev_expr(st, init, decls, fo, f1);
                    if r is Ok {
                        mono_globals(s1.define(vd.name@, r->Ok_0), decls, i + 1, fo, f1, f2);
                    }
                },
                None => {
                    let (s1, v) = default_value_spec(st, vd.ty);
                    mono_globals(s1.define(vd.name@, v), decls, i + 1, fo, f1, f2);
                },
            },
            Decl::Func(_) => mono_globals(st, decls, i + 1, fo, f1, f2),
        }
    }
}

/// The step budget decides only whether a run finishes: a run that ends
/// within a budget, in success or in any halt but `StepLimit`, ends the
/// same way, with the same output, under every larger budget.
pub proof fn law_budget_only_cuts_runs_short(decls: Seq<Decl>, fo: Oracle, f1: nat, f2: nat)
    requires
        f1 <= f2,
        finished(spec_run(decls, fo, f1).1),
    ensures
        spec_run(decls, fo, f2) == spec_run(decls, fo, f1),
{
    mono_globals(initial_mstate(), decls, 0, fo, f1, f2);
    let (s1, g) = ex_globals_from(initial_mstate(), decls, 0, fo, f1);
    if g is Ok {
        match find_func(decls, "main"@, decls.len() as int) {
            Some(f) => mono_call_function(s1, f, Seq::empty(), decls, fo, f1, f2),
            None => {},
        }
    }
}

/// A call runs in scopes of its own: the caller's scopes come back as they
/// were, whatever the callee does.
pub proof fn law_call_restores_caller_scopes(
    st: MState,
    f: FuncDecl,
    args: Seq<SpecValue>,
    decls: Seq<Decl>,
    fo: Oracle,
    fuel: nat,
)
    ensures
        call_function(st, f, args, decls, fo, fuel).0.frame == st.frame,
{
}

/// Names declared in a block are gone when it ends: after a block runs,
/// every scope binds the names it bound before, and no others.
pub proof fn law_blocks_are_local_at_run_time(
    st: MState,
    b: Block,
    decls: Seq<Decl>,
    fo: Oracle,
    fuel: nat,
)
    ensures
        same_names(st.frame, ex_stmt(st, Stmt::Block(b), decls, fo, fuel).0.frame),
{
    lemma_ex_stmt(st, Stmt::Block(b), decls, fo, fuel);
}


/// The quotient of `a` by `b` rounded toward zero.
pub open spec fn truncated_quotient(a: int, b: int) -> int {
    let q = (if a < 0 { -a } else { a }) / (if b < 0 { -b } else { b });
    if (a < 0) != (b < 0) {
        -q
    } else {
        q
    }
}

/// The remainder that goes with `truncated_quotient`: it has the sign of `a`.
pub open spec fn truncated_remainder(a: int, b: int) -> int {
    a - b * truncated_quotient(a, b)
}

/// Integer `/` and `%` on two ints: a zero divisor ends the run with a
/// division by zero; otherwise `/` rounds toward zero and `%` leaves the
/// remainder with the sign of the dividend (`-7 / 2` is `-3`, `-7 % 2` is
/// `-1`). The one quotient that does not fit, `i64::MIN / -1`, wraps to
/// `i64::MIN`, and `i64::MIN % -1` is `0`.
pub proof fn law_integer_division(heap: Seq<Seq<SpecValue>>, a: i64, b: i64, fo: Oracle)
    ensures
        ({
            let div = binary_value(heap, BinOp::Div, SpecValue::Int(a), SpecValue::Int(b), fo);
            let rem = binary_value(heap, BinOp::Mod, SpecValue::Int(a), SpecValue::Int(b), fo);
            &&& b == 0 ==> div == Err::<SpecValue, Halt>(Halt::Runtime(RuntimeError::DivisionByZero))
                && rem == Err::<SpecValue, Halt>(Halt::Runtime(RuntimeError::DivisionByZero))
            &&& b != 0 && !(a == i64::MIN && b == -1) ==> {
                &&& div matches Ok(SpecValue::Int(q)) && q == truncated_quotient(a as int, b as int)
                &&& rem matches Ok(SpecValue::Int(r)) && r == truncated_remainder(a as int, b as int)
            }
            &&& a == i64::MIN && b == -1 ==> div == Ok::<SpecValue, Halt>(SpecValue::Int(i64::MIN))
                && rem == Ok::<SpecValue, Halt>(SpecValue::Int(0))
        }),
{
    let x = a as int;
    let d = b as int;
    if b != 0 && !(a == i64::MIN && b == -1) {
        let n = if x < 0 { -x } else { x };
        let m = if d < 0 { -d } else { d };
        let q = n / m;
        let r = n % m;
        vstd::arithmetic::div_mod::lemma_fundamental_div_mod(n, m);
        assert(0 <= q <= n && 0 <= r < m) by (nonlinear_arith)
            requires
                n >= 0,
                m >= 1,
                q == n / m,
                r == n % m,
        ;
        if x == i64::MIN && d < 0 {
            assert(q <= n / 2) by (nonlinear_arith)
                requires
                    n >= 0,
                    m >= 2,
                    q == n / m,
            ;
        }
        assert(d * q == m * q || d * q == -(m * q)) by (nonlinear_arith)
            requires
                d == m || d == -m,
        ;
        assert(d < 0 ==> d * q == -(m * q)) by (nonlinear_arith)
            requires
                d < 0 ==> d == -m,
        ;
        assert(d > 0 ==> d * q == m * q) by (nonlinear_arith)
            requires
                d > 0 ==> d == m,
        ;
        assert(d * (-q) == -(d * q)) by (nonlinear_arith);
        if x == 0 {
            assert(n == 0 && q == 0) by (nonlinear_arith)
                requires
                    n == 0,
                    m >= 1,
                    q == n / m,
            ;
        }
    } else if b == -1 && a == i64::MIN {
        assert((x * -1) / (d * -1) == 0x8000_0000_0000_0000) by (nonlinear_arith)
            requires
                x == -0x8000_0000_0000_0000,
                d == -1,
        ;
    }
}


/// A `return` inside a loop body leaves the loop and the function: when the
/// condition holds and the body's run returns a value, the `for` loop (and
/// the `for` statement, once its initializer has run), or the `while` loop,
/// returns that same value, in the state the body left.
pub proof fn law_return_leaves_loops(
    st: MState,
    s: Stmt,
    decls: Seq<Decl>,
    fo: Oracle,
    fuel: nat,
    v: SpecValue,
)
    requires
        fuel > 0,
        s is For || s is While,
    ensures
        ({
            let (cond, body) = match s {
                Stmt::For(f) => (f.cond, *f.body),
                Stmt::While(w) => (w.cond, *w.body),
                _ => (s->Expr_0, s),
            };
            let (s1, c) = ev_expr(st, cond, decls, fo, fuel);
            let (s2, r) = ex_scoped(s1, body, decls, fo, fuel);
            (c matches Ok(cv) && bool_of(cv) == Ok::<bool, Halt>(true) && r == Ok::<SpecFlow, Halt>(
                SpecFlow::Return(v),
            )) ==> {
                &&& s is For ==> ex_for_loop(st, s, decls, fo, fuel) == (s2, Ok::<SpecFlow, Halt>(
                    SpecFlow::Return(v),
                ))
                &&& s is While ==> ex_while(st, s, decls, fo, fuel) == (s2, Ok::<SpecFlow, Halt>(
                    SpecFlow::Return(v),
                ))
            }
        }),
{
}

/// The `for` statement itself returns what a `return` in its body returns:
/// once the initializer has run (in a new scope), a true condition and a
/// body that returns `v` make the statement return `v`.
pub proof fn law_return_leaves_for_statement(
    st: MState,
    f: crate::ast::ForStmt,
    decls: Seq<Decl>,
    fo: Oracle,
    fuel: nat,
    v: SpecValue,
)
    requires
        fuel > 0,
    ensures
        ({
            let (s0, i) = ex_stmt(st.push_scope(), *f.init, decls, fo, fuel);
            let (s1, c) = ev_expr(s0, f.cond, decls, fo, fuel);
            let (s2, r) = ex_scoped(s1, *f.body, decls, fo, fuel);
            (c matches Ok(cv) && bool_of(cv) == Ok::<bool, Halt>(true) && r == Ok::<SpecFlow, Halt>(
                SpecFlow::Return(v)) && i is Ok) ==> ex_stmt(st, Stmt::For(f), decls, fo, fuel)
                == (s2.pop_scope(), Ok::<SpecFlow, Halt>(SpecFlow::Return(v)))
        }),
{
    let (s0, i) = ex_stmt(st.push_scope(), *f.init, decls, fo, fuel);
    law_return_leaves_loops(s0, Stmt::For(f), decls, fo, fuel, v);
}

/// Logical not negates a bool, and negating twice gives it back; `~`
/// flips every bit of an int (so `~a == -a - 1`, and twice gives `a` back);
/// `-` on an int is wrapping negation (so `-a + a == 0` in wrapping
/// arithmetic). No other operand is taken by `!` or `~`.
pub proof fn law_unary_operators(v: SpecValue, fo: Oracle)
    ensures
        v matches SpecValue::Bool(b) ==> unary_value(UnOp::Not, v, fo) == Ok::<SpecValue, Halt>(
            SpecValue::Bool(!b)),
        v is Bool ==> (unary_value(UnOp::Not, v, fo) matches Ok(w) && unary_value(UnOp::Not, w, fo)
            == Ok::<SpecValue, Halt>(v)),
        !(v is Bool) ==> unary_value(UnOp::Not, v, fo) == Err::<SpecValue, Halt>(Halt::Unchecked),
        v matches SpecValue::Int(a) ==> (unary_value(UnOp::BitNot, v, fo) matches Ok(SpecValue::Int(n))
            && n as int == -(a as int) - 1),
        v matches SpecValue::Int(a) ==> (unary_value(UnOp::Neg, v, fo) matches Ok(SpecValue::Int(n))
            && (a != i64::MIN ==> n as int == -(a as int)) && (a == i64::MIN ==> n == i64::MIN)),
        !(v is Int) ==> unary_value(UnOp::BitNot, v, fo) == Err::<SpecValue, Halt>(Halt::Unchecked),
{
    if let SpecValue::Int(a) = v {
        assert(!a == -a - 1) by (bit_vector);
    }
}


/// Integer arithmetic, comparison and bitwise operators, and string `+` and
/// `==`: `+`, `-` and `*` give the mathematical result when it fits in 64
/// bits, and `+` and `-` wrap around by 2^64 when it does not; the
/// orderings and `==`/`!=` compare the two numbers; `&`, `|` and `^` work
/// bit by bit; `+` on two strings joins them, and `==`/`!=` on two strings
/// compare their texts.
pub proof fn law_int_and_string_operators(heap: Seq<Seq<SpecValue>>, a: i64, b: i64, x: Seq<char>, y: Seq<char>, fo: Oracle)
    ensures
        ({
            let op = |o: BinOp| binary_value(heap, o, SpecValue::Int(a), SpecValue::Int(b), fo);
            let sum = a as int + b as int;
            let diff = a as int - b as int;
            let prod = a as int * b as int;
            &&& op(BinOp::Add) matches Ok(SpecValue::Int(n)) && (i64::MIN <= sum <= i64::MAX ==> n
                == sum) && (sum > i64::MAX ==> n == sum - 0x1_0000_0000_0000_0000) && (sum
                < i64::MIN ==> n == sum + 0x1_0000_0000_0000_0000)
            &&& op(BinOp::Sub) matches Ok(SpecValue::Int(n)) && (i64::MIN <= diff <= i64::MAX ==> n
                == diff) && (diff > i64::MAX ==> n == diff - 0x1_0000_0000_0000_0000) && (diff
                < i64::MIN ==> n == diff + 0x1_0000_0000_0000_0000)
            &&& op(BinOp::Mul) matches Ok(SpecValue::Int(n)) && (i64::MIN <= prod <= i64::MAX ==> n
                == prod)
            &&& op(BinOp::Lt) == Ok::<SpecValue, Halt>(SpecValue::Bool(a < b))
            &&& op(BinOp::LtEq) == Ok::<SpecValue, Halt>(SpecValue::Bool(a <= b))
            &&& op(BinOp::Gt) == Ok::<SpecValue, Halt>(SpecValue::Bool(a > b))
            &&& op(BinOp::GtEq) == Ok::<SpecValue, Halt>(SpecValue::Bool(a >= b))
            &&& op(BinOp::Eq) == Ok::<SpecValue, Halt>(SpecValue::Bool(a == b))
            &&& op(BinOp::NotEq) == Ok::<SpecValue, Halt>(SpecValue::Bool(a != b))
            &&& op(BinOp::BitAnd) == Ok::<SpecValue, Halt>(SpecValue::Int(a & b))
            &&& op(BinOp::BitOr) == Ok::<SpecValue, Halt>(SpecValue::Int(a | b))
            &&& op(BinOp::BitXor) == Ok::<SpecValue, Halt>(SpecValue::Int(a ^ b))
            &&& binary_value(heap, BinOp::Add, SpecValue::Str(x), SpecValue::Str(y), fo) == Ok::<
                SpecValue,
                Halt,
            >(SpecValue::Str(x + y))
            &&& binary_value(heap, BinOp::Eq, SpecValue::Str(x), SpecValue::Str(y), fo) == Ok::<
                SpecValue,
                Halt,
            >(SpecValue::Bool(x == y))
            &&& binary_value(heap, BinOp::NotEq, SpecValue::Str(x), SpecValue::Str(y), fo) == Ok::<
                SpecValue,
                Halt,
            >(SpecValue::Bool(x != y))
        }),
{
}


/// An `if` runs its then-branch when the condition is true and its
/// else-branch (or nothing) when it is false, and ends as that branch does;
/// a `while` whose condition is false does nothing more. A statement after
/// one that returns is not run: a block ends with the first `return`.
pub proof fn law_branches_and_blocks(
    st: MState,
    i: crate::ast::IfStmt,
    w: crate::ast::WhileStmt,
    stmts: Seq<Stmt>,
    k: int,
    decls: Seq<Decl>,
    fo: Oracle,
    fuel: nat,
)
    requires
        0 <= k < stmts.len(),
    ensures
        ({
            let (s1, c) = ev_expr(st, i.cond, decls, fo, fuel);
            &&& c == Ok::<SpecValue, Halt>(SpecValue::Bool(true)) ==> ex_stmt(st, Stmt::If(i), decls, fo, fuel)
                == ex_scoped(s1, *i.then_branch, decls, fo, fuel)
            &&& c == Ok::<SpecValue, Halt>(SpecValue::Bool(false)) ==> ex_stmt(st, Stmt::If(i), decls, fo, fuel)
                == match i.else_branch {
                Some(eb) => ex_scoped(s1, *eb, decls, fo, fuel),
                None => (s1, Ok::<SpecFlow, Halt>(SpecFlow::Normal)),
            }
        }),
        ({
            let (s1, c) = ev_expr(st, w.cond, decls, fo, fuel);
            fuel > 0 && c == Ok::<SpecValue, Halt>(SpecValue::Bool(false)) ==> ex_stmt(
                st,
                Stmt::While(w),
                decls,
                fo,
                fuel,
            ) == (s1, Ok::<SpecFlow, Halt>(SpecFlow::Normal))
        }),
        ({
            let (s1, r) = ex_stmt(st, stmts[k], decls, fo, fuel);
            r matches Ok(SpecFlow::Return(v)) ==> ex_block_from(st, stmts, k, decls, fo, fuel) == (
                s1,
                Ok::<SpecFlow, Halt>(SpecFlow::Return(v)),
            )
        }),
{
    assert(ex_stmt(st, Stmt::While(w), decls, fo, fuel) == ex_while(st, Stmt::While(w), decls, fo, fuel));
}

} // verus!
