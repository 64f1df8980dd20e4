//! Run-time values and the operations on them that need no program state.
//!
//! Arrays live in a heap owned by the interpreter; an array value is the
//! index of its cells there, so two values that hold the same index share
//! their cells. A float value holds the IEEE-754 bits of an `f64`; the
//! arithmetic on those bits is asked of a float unit that the caller
//! supplies (see `FloatQuery`).

use crate::ast::{BinOp, Type};
use crate::interp::model::{default_value_spec, initial_mstate, MState};
use crate::text::{int_text, push_int_text};
use vstd::prelude::*;
use vstd::string::StringExecFns;

verus! {

#[derive(Debug)]
pub enum Value {
    Int(i64),
    /// The IEEE-754 bits of an `f64`.
    Float(u64),
    Bool(bool),
    Str(String),
    /// The index of the array's cells in the heap.
    Array(usize),
    Void,
}

/// A value as specifications speak of it.
pub enum SpecValue {
    Int(i64),
    Float(u64),
    Bool(bool),
    Str(Seq<char>),
    Array(usize),
    Void,
}

impl View for Value {
    type V = SpecValue;

    open spec fn view(&self) -> SpecValue {
        match self {
            Value::Int(i) => SpecValue::Int(*i),
            Value::Float(b) => SpecValue::Float(*b),
            Value::Bool(b) => SpecValue::Bool(*b),
            Value::Str(s) => SpecValue::Str(s@),
            Value::Array(id) => SpecValue::Array(*id),
            Value::Void => SpecValue::Void,
        }
    }
}

impl Clone for Value {
    fn clone(&self) -> (res: Self)
        ensures
            res@ == self@,
    {
        match self {
            Value::Int(i) => Value::Int(*i),
            Value::Float(b) => Value::Float(*b),
            Value::Bool(b) => Value::Bool(*b),
            Value::Str(s) => Value::Str(s.clone()),
            Value::Array(id) => Value::Array(*id),
            Value::Void => Value::Void,
        }
    }
}

pub open spec fn values_view(vs: Seq<Value>) -> Seq<SpecValue> {
    vs.map_values(|v: Value| v@)
}

/// How two floats compare; `Unordered` when either is NaN.
#[derive(Debug, Clone, Copy, PartialEq, Eq, Structural)]
pub enum FloatOrder {
    Less,
    Equal,
    Greater,
    Unordered,
}

/// A question the interpreter puts to the float unit.
#[derive(Debug)]
pub enum FloatQuery {
    /// The bits of the float that a literal's decimal text denotes.
    Parse(String),
    /// `a op b` for `op` one of `+ - * / %`, with `%` the remainder whose
    /// sign follows `a` (IEEE `fmod`).
    Arith(BinOp, u64, u64),
    /// `-a`.
    Negate(u64),
    /// How `a` compares with `b`.
    Compare(u64, u64),
    /// The text `print` shows for the float.
    Format(u64),
}

/// The float unit's answer: bits for `Parse`, `Arith` and `Negate`, an
/// order for `Compare`, text for `Format`.
#[derive(Debug)]
pub enum FloatAnswer {
    Bits(u64),
    Order(FloatOrder),
    Text(String),
}

pub enum SpecFloatQuery {
    Parse(Seq<char>),
    Arith(BinOp, u64, u64),
    Negate(u64),
    Compare(u64, u64),
    Format(u64),
}

pub enum SpecFloatAnswer {
    Bits(u64),
    Order(FloatOrder),
    Text(Seq<char>),
}

impl View for FloatQuery {
    type V = SpecFloatQuery;

    open spec fn view(&self) -> SpecFloatQuery {
        match self {
            FloatQuery::Parse(s) => SpecFloatQuery::Parse(s@),
            FloatQuery::Arith(op, a, b) => SpecFloatQuery::Arith(*op, *a, *b),
            FloatQuery::Negate(a) => SpecFloatQuery::Negate(*a),
            FloatQuery::Compare(a, b) => SpecFloatQuery::Compare(*a, *b),
            FloatQuery::Format(a) => SpecFloatQuery::Format(*a),
        }
    }
}

impl View for FloatAnswer {
    type V = SpecFloatAnswer;

    open spec fn view(&self) -> SpecFloatAnswer {
        match self {
            FloatAnswer::Bits(b) => SpecFloatAnswer::Bits(*b),
            FloatAnswer::Order(o) => SpecFloatAnswer::Order(*o),
            FloatAnswer::Text(s) => SpecFloatAnswer::Text(s@),
        }
    }
}

/// The float unit's answers, as a function of the question.
pub open spec fn answers<F: Fn(FloatQuery) -> FloatAnswer>(f: F) -> spec_fn(SpecFloatQuery) -> SpecFloatAnswer {
    |q: SpecFloatQuery|
        (choose|p: (FloatQuery, FloatAnswer)| p.0@ == q && #[trigger] call_ensures(f, (p.0,), p.1)).1@
}

/// The float unit answers every question, and the same question always
/// the same way.
pub open spec fn float_unit<F: Fn(FloatQuery) -> FloatAnswer>(f: F) -> bool {
    &&& forall|q: FloatQuery| call_requires(f, (q,))
    &&& forall|q1: FloatQuery, q2: FloatQuery, a1: FloatAnswer, a2: FloatAnswer|
        q1@ == q2@ && #[trigger] call_ensures(f, (q1,), a1) && #[trigger] call_ensures(f, (q2,), a2)
            ==> a1@ == a2@
}

/// The sink that printed lines go to accepts every line.
pub open spec fn printer<P: Fn(&str)>(p: P) -> bool {
    forall|s: &str| call_requires(p, (s,))
}

/// Puts `q` to the float unit.
pub fn ask<F: Fn(FloatQuery) -> FloatAnswer>(f: &F, q: FloatQuery) -> (a: FloatAnswer)
    requires
        float_unit(*f),
    ensures
        a@ == answers(*f)(q@),
{
    let ghost gq = q;
    let a = f(q);
    proof {
        let w = (gq, a);
        assert(w.0@ == gq@ && call_ensures(*f, (w.0,), w.1));
        let p = choose|p: (FloatQuery, FloatAnswer)| p.0@ == gq@ && #[trigger] call_ensures(*f, (p.0,), p.1);
        assert(p.0@ == gq@ && call_ensures(*f, (p.0,), p.1));
        assert(p.1@ == a@);
    }
    a
}

/// The bits of `1.0`, by which `++` and `--` step a float.
pub const ONE_BITS: u64 = 0x3FF0_0000_0000_0000u64;

/// The bits a float question is answered with; any other answer means the
/// float unit broke its word.
pub open spec fn answer_bits(a: SpecFloatAnswer) -> Option<u64> {
    match a {
        SpecFloatAnswer::Bits(b) => Some(b),
        _ => None,
    }
}

pub open spec fn answer_order(a: SpecFloatAnswer) -> Option<FloatOrder> {
    match a {
        SpecFloatAnswer::Order(o) => Some(o),
        _ => None,
    }
}

pub open spec fn answer_text(a: SpecFloatAnswer) -> Option<Seq<char>> {
    match a {
        SpecFloatAnswer::Text(s) => Some(s),
        _ => None,
    }
}

/// The text `print` shows for a value; for a float, what the float unit
/// says.
pub open spec fn format_spec(v: SpecValue, fo: spec_fn(SpecFloatQuery) -> SpecFloatAnswer) -> Option<
    Seq<char>,
> {
    match v {
        SpecValue::Int(i) => Some(int_text(i as int)),
        SpecValue::Float(b) => answer_text(fo(SpecFloatQuery::Format(b))),
        SpecValue::Bool(b) => Some(
            if b {
                "true"@
            } else {
                "false"@
            },
        ),
        SpecValue::Str(s) => Some(s),
        SpecValue::Array(_) => Some("[array]"@),
        SpecValue::Void => Some(Seq::empty()),
    }
}

/// The text `print` shows for `v`; `None` only when the float unit answers
/// a format question with something other than text.
pub fn format_value<F: Fn(FloatQuery) -> FloatAnswer>(v: &Value, floats: &F) -> (s: Option<String>)
    requires
        float_unit(*floats),
    ensures
        match s {
            Some(t) => format_spec(v@, answers(*floats)) == Some(t@),
            None => format_spec(v@, answers(*floats)) is None,
        },
{
    match v {
        Value::Int(i) => {
            let mut s = String::new();
            push_int_text(&mut s, *i);
            Some(s)
        },
        Value::Float(b) => match ask(floats, FloatQuery::Format(*b)) {
            FloatAnswer::Text(t) => Some(t),
            _ => None,
        },
        Value::Bool(b) => Some(
            if *b {
                String::from_str("true")
            } else {
                String::from_str("false")
            },
        ),
        Value::Str(s) => Some(s.clone()),
        Value::Array(_) => Some(String::from_str("[array]")),
        Value::Void => Some(String::new()),
    }
}

/// The boolean a value holds, when it holds one.
pub fn as_bool(v: &Value) -> (b: Option<bool>)
    ensures
        b == (match v@ {
            SpecValue::Bool(x) => Some(x),
            _ => None,
        }),
{
    match v {
        Value::Bool(b) => Some(*b),
        _ => None,
    }
}

/// The integer a value holds, when it holds one.
pub fn as_int(v: &Value) -> (i: Option<i64>)
    ensures
        i == (match v@ {
            SpecValue::Int(x) => Some(x),
            _ => None,
        }),
{
    match v {
        Value::Int(i) => Some(*i),
        _ => None,
    }
}

/// How two numbers compare.
#[derive(Debug, Clone, Copy, PartialEq, Eq, Structural)]
pub enum NumOrder {
    Less,
    Equal,
    Greater,
}

/// Comparing two ints, or two floats; an unordered pair of floats counts
/// as equal. `None` for any other pair of values.
pub open spec fn numeric_cmp_spec(
    l: SpecValue,
    r: SpecValue,
    fo: spec_fn(SpecFloatQuery) -> SpecFloatAnswer,
) -> Option<NumOrder> {
    match (l, r) {
        (SpecValue::Int(a), SpecValue::Int(b)) => Some(
            if a < b {
                NumOrder::Less
            } else if a == b {
                NumOrder::Equal
            } else {
                NumOrder::Greater
            },
        ),
        (SpecValue::Float(a), SpecValue::Float(b)) => match answer_order(
            fo(SpecFloatQuery::Compare(a, b)),
        ) {
            Some(FloatOrder::Less) => Some(NumOrder::Less),
            Some(FloatOrder::Greater) => Some(NumOrder::Greater),
            Some(_) => Some(NumOrder::Equal),
            None => None,
        },
        _ => None,
    }
}

pub fn numeric_cmp<F: Fn(FloatQuery) -> FloatAnswer>(l: &Value, r: &Value, floats: &F) -> (o: Option<
    NumOrder,
>)
    requires
        float_unit(*floats),
    ensures
        o == numeric_cmp_spec(l@, r@, answers(*floats)),
{
    match (l, r) {
        (Value::Int(a), Value::Int(b)) => Some(
            if *a < *b {
                NumOrder::Less
            } else if *a == *b {
                NumOrder::Equal
            } else {
                NumOrder::Greater
            },
        ),
        (Value::Float(a), Value::Float(b)) => match ask(floats, FloatQuery::Compare(*a, *b)) {
            FloatAnswer::Order(FloatOrder::Less) => Some(NumOrder::Less),
            FloatAnswer::Order(FloatOrder::Greater) => Some(NumOrder::Greater),
            FloatAnswer::Order(_) => Some(NumOrder::Equal),
            _ => None,
        },
        _ => None,
    }
}

/// `l op r` for `op` one of `+ - *`: wrapping on two ints, the float
/// unit's answer on two floats, `None` on any other pair of values.
pub open spec fn numeric_op_spec(
    op: BinOp,
    l: SpecValue,
    r: SpecValue,
    fo: spec_fn(SpecFloatQuery) -> SpecFloatAnswer,
) -> Option<SpecValue> {
    match (l, r) {
        (SpecValue::Int(a), SpecValue::Int(b)) => Some(
            SpecValue::Int(
                if op == BinOp::Add {
                    a.wrapping_add(b)
                } else if op == BinOp::Sub {
                    a.wrapping_sub(b)
                } else {
                    a.wrapping_mul(b)
                },
            ),
        ),
        (SpecValue::Float(a), SpecValue::Float(b)) => match answer_bits(
            fo(SpecFloatQuery::Arith(op, a, b)),
        ) {
            Some(bits) => Some(SpecValue::Float(bits)),
            None => None,
        },
        _ => None,
    }
}

pub fn numeric_op<F: Fn(FloatQuery) -> FloatAnswer>(
    op: BinOp,
    l: &Value,
    r: &Value,
    floats: &F,
) -> (v: Option<Value>)
    requires
        float_unit(*floats),
    ensures
        match v {
            Some(x) => numeric_op_spec(op, l@, r@, answers(*floats)) == Some(x@),
            None => numeric_op_spec(op, l@, r@, answers(*floats)) is None,
        },
{
    match (l, r) {
        (Value::Int(a), Value::Int(b)) => Some(
            Value::Int(
                if op == BinOp::Add {
                    a.wrapping_add(*b)
                } else if op == BinOp::Sub {
                    a.wrapping_sub(*b)
                } else {
                    a.wrapping_mul(*b)
                },
            ),
        ),
        (Value::Float(a), Value::Float(b)) => match ask(floats, FloatQuery::Arith(op, *a, *b)) {
            FloatAnswer::Bits(bits) => Some(Value::Float(bits)),
            _ => None,
        },
        _ => None,
    }
}

/// The value a variable of type `ty` starts with, for every type but
/// arrays (whose empty array the interpreter allocates).
pub open spec fn default_scalar(ty: Type) -> SpecValue {
    match ty {
        Type::Int => SpecValue::Int(0),
        Type::Float => SpecValue::Float(0),
        Type::Bool => SpecValue::Bool(false),
        Type::Str => SpecValue::Str(Seq::empty()),
        Type::Void => SpecValue::Void,
        Type::Array(_) => SpecValue::Void,
    }
}

pub open spec fn heap_view(h: Seq<Vec<Value>>) -> Seq<Seq<SpecValue>> {
    h.map_values(|cells: Vec<Value>| values_view(cells@))
}

/// The value a fresh variable of type `ty` holds; for an array type, a new
/// empty array allocated in `heap`.
pub fn default_value(ty: &Type, heap: &mut Vec<Vec<Value>>) -> (v: Value)
    ensures
        (MState { heap: heap_view(final(heap)@), ..initial_mstate() }, v@) == default_value_spec(
            MState { heap: heap_view(old(heap)@), ..initial_mstate() },
            *ty,
        ),
{
    match ty {
        Type::Int => Value::Int(0),
        Type::Float => Value::Float(0),
        Type::Bool => Value::Bool(false),
        Type::Str => Value::Str(String::new()),
        Type::Void => Value::Void,
        Type::Array(_) => {
            let id = heap.len();
            let ghost before = heap@;
            let empty: Vec<Value> = Vec::new();
            assert(values_view(empty@) =~= Seq::<SpecValue>::empty());
            heap.push(empty);
            assert(heap_view(heap@) =~= heap_view(before).push(Seq::empty()));
            Value::Array(id)
        },
    }
}

} // verus!
