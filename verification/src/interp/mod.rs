//! The tree-walking interpreter.
//!
//! It runs a checked program: its global variables in source order, then
//! `main()`. What `print` writes is collected as lines. Integer arithmetic
//! wraps around on overflow, as two's complement does; floating-point
//! arithmetic is done by a float unit that the caller supplies. Arrays are
//! shared by reference: assigning an array or passing it to a function
//! does not copy its cells.

pub mod model;
pub mod scope;
pub mod value;
mod eval;

use crate::ast::{Decl, FuncDecl, Program, Type};
use model::{
    builtin_value, byte_len, call_function, default_value_spec, ex_globals_from, find_func,
    frame_find, lemma_frame_find, heap_read, heap_write, initial_mstate, lossy_text, spec_run, MState, Oracle, Res,
    SpecFlow,
};
use scope::Scope;
use value::{
    answers, float_unit, heap_view, printer, values_view, FloatAnswer, FloatQuery, SpecValue, Value,
};
use vstd::prelude::*;
use vstd::string::StringExecFns;
use vstd::utf8::{decode_utf8, encode_utf8, valid_utf8};

verus! {

#[derive(Debug, Clone, Copy, PartialEq, Eq, Structural)]
pub enum RuntimeError {
    IndexOutOfBounds { index: i64, length: usize },
    DivisionByZero,
    NegativeArraySize { size: i64 },
    StringIndexOutOfBounds { index: i64, length: usize },
}

/// Why a run stopped before `main()` returned.
#[derive(Debug, Clone, Copy, PartialEq, Eq, Structural)]
pub enum Halt {
    /// An error of the program itself.
    Runtime(RuntimeError),
    /// An operation that checking should have ruled out (an undeclared
    /// name, an operand of the wrong type), or a float unit that answered a
    /// question with the wrong kind of answer.
    Unchecked,
    /// The step budget ran out.
    StepLimit,
}

/// How a statement ended.
pub enum Flow {
    Normal,
    Return(Value),
}

impl View for Flow {
    type V = SpecFlow;

    open spec fn view(&self) -> SpecFlow {
        match self {
            Flow::Normal => SpecFlow::Normal,
            Flow::Return(v) => SpecFlow::Return(v@),
        }
    }
}

pub open spec fn value_res(r: Result<Value, Halt>) -> Res<SpecValue> {
    match r {
        Ok(v) => Ok(v@),
        Err(h) => Err(h),
    }
}

pub open spec fn flow_res(r: Result<Flow, Halt>) -> Res<SpecFlow> {
    match r {
        Ok(f) => Ok(f@),
        Err(h) => Err(h),
    }
}

/// The outcome of a run: every line printed, and how it ended.
pub struct Run {
    pub output: Vec<String>,
    pub result: Result<(), Halt>,
}

pub open spec fn lines_view(ls: Seq<String>) -> Seq<Seq<char>> {
    ls.map_values(|s: String| s@)
}

/// The step budget of `interpret`: one step per call and per loop
/// iteration, which no program runs out of in practice.
pub const STEP_BUDGET: u64 = 0xFFFF_FFFF_FFFF_FFFFu64;

/// Runs `program` with the float unit `floats`, handing each line that
/// `print` writes to `sink` as it is written. The run is the one
/// `spec_run` describes: the lines printed and how it ended.
pub fn interpret<F: Fn(FloatQuery) -> FloatAnswer, P: Fn(&str)>(
    program: &Program,
    floats: &F,
    sink: &P,
) -> (r: Run)
    requires
        float_unit(*floats),
        printer(*sink),
    ensures
        lines_view(r.output@) == spec_run(program.decls@, answers(*floats), STEP_BUDGET as nat).0.out,
        r.result == spec_run(program.decls@, answers(*floats), STEP_BUDGET as nat).1,
{
    interpret_with_budget(program, floats, sink, STEP_BUDGET)
}

/// Runs `program` within a budget of `steps` calls and loop iterations.
pub fn interpret_with_budget<F: Fn(FloatQuery) -> FloatAnswer, P: Fn(&str)>(
    program: &Program,
    floats: &F,
    sink: &P,
    steps: u64,
) -> (r: Run)
    requires
        float_unit(*floats),
        printer(*sink),
    ensures
        lines_view(r.output@) == spec_run(program.decls@, answers(*floats), steps as nat).0.out,
        r.result == spec_run(program.decls@, answers(*floats), steps as nat).1,
{
    let mut m = Machine::new();
    let result = m.run(&program.decls, floats, sink, steps);
    Run { output: m.output, result }
}

/// Calls `String::from_utf8_lossy` on `bytes`: the text they encode, with
/// each malformed part replaced by U+FFFD.
#[verifier::external_body]
fn utf8_lossy(bytes: &[u8]) -> (s: String)
    ensures
        s@ == lossy_text(bytes@),
        valid_utf8(bytes@) ==> s@ == decode_utf8(bytes@),
{
    String::from_utf8_lossy(bytes).into_owned()
}

pub struct Machine {
    pub globals: Scope,
    pub frame: Vec<Scope>,
    pub heap: Vec<Vec<Value>>,
    pub output: Vec<String>,
}

impl View for Machine {
    type V = MState;

    open spec fn view(&self) -> MState {
        MState {
            globals: self.globals@,
            frame: self.frame@.map_values(|s: Scope| s@),
            heap: heap_view(self.heap@),
            out: lines_view(self.output@),
        }
    }
}

impl Machine {
    pub fn new() -> (m: Self)
        ensures
            m@ == initial_mstate(),
    {
        let m = Machine {
            globals: Scope::new(),
            frame: Vec::new(),
            heap: Vec::new(),
            output: Vec::new(),
        };
        assert(m@.frame =~= Seq::<Map<Seq<char>, SpecValue>>::empty());
        assert(m@.heap =~= Seq::<Seq<SpecValue>>::empty());
        assert(m@.out =~= Seq::<Seq<char>>::empty());
        m
    }

    /// The innermost scope of the frame that binds `name`.
    fn frame_index(&self, name: &str) -> (k: Option<usize>)
        ensures
            match k {
                Some(i) => frame_find(self@.frame, name@, self@.frame.len() as int) == Some(i as int)
                    && i < self.frame@.len(),
                None => frame_find(self@.frame, name@, self@.frame.len() as int) is None,
            },
    {
        let mut n = self.frame.len();
        while n > 0
            invariant
                n <= self.frame@.len(),
                frame_find(self@.frame, name@, self@.frame.len() as int) == frame_find(
                    self@.frame,
                    name@,
                    n as int,
                ),
            decreases n,
        {
            if self.frame[n - 1].contains(name) {
                return Some(n - 1);
            }
            n = n - 1;
        }
        None
    }

    pub fn get_var(&self, name: &str) -> (r: Option<Value>)
        ensures
            match r {
                Some(v) => self@.get(name@) == Some(v@),
                None => self@.get(name@) is None,
            },
    {
        let ghost n = self@.frame.len() as int;
        proof {
            lemma_frame_find(self@.frame, name@, n);
        }
        match self.frame_index(name) {
            Some(k) => {
                assert(frame_find(self@.frame, name@, n) == Some(k as int));
                assert(self@.frame[k as int] == self.frame@[k as int]@);
                self.frame[k].get(name)
            },
            None => {
                assert(frame_find(self@.frame, name@, n) is None);
                self.globals.get(name)
            },
        }
    }

    pub fn set_var(&mut self, name: &str, v: Value) -> (ok: bool)
        ensures
            ok == old(self)@.set(name@, v@) is Some,
            ok ==> final(self)@ == old(self)@.set(name@, v@)->0,
            !ok ==> final(self)@ == old(self)@,
    {
        let ghost vv = v@;
        let ghost before = self@;
        let ghost n = self@.frame.len() as int;
        proof {
            lemma_frame_find(self@.frame, name@, n);
        }
        match self.frame_index(name) {
            Some(k) => {
                assert(frame_find(before.frame, name@, n) == Some(k as int));
                assert(before.frame[k as int] == self.frame@[k as int]@);
                self.frame[k].set(name, v);
                assert(self@.frame =~= before.frame.update(
                    k as int,
                    before.frame[k as int].insert(name@, vv),
                ));
                true
            },
            None => {
                assert(frame_find(before.frame, name@, n) is None);
                if self.globals.contains(name) {
                    self.globals.set(name, v);
                    true
                } else {
                    false
                }
            },
        }
    }

    pub fn define_var(&mut self, name: &str, v: Value)
        ensures
            final(self)@ == old(self)@.define(name@, v@),
    {
        let ghost vv = v@;
        if self.frame.len() > 0 {
            let last = self.frame.len() - 1;
            let ghost before = self@;
            self.frame[last].define(name, v);
            assert(self@.frame =~= before.frame.update(last as int, before.frame.last().insert(name@, vv)));
        } else {
            self.globals.define(name, v);
        }
    }

    pub fn push_scope(&mut self)
        ensures
            final(self)@ == old(self)@.push_scope(),
    {
        self.frame.push(Scope::new());
        assert(self@.frame =~= old(self)@.frame.push(Map::empty()));
    }

    pub fn pop_scope(&mut self)
        ensures
            final(self)@ == old(self)@.pop_scope(),
    {
        if self.frame.len() > 0 {
            let _ = self.frame.pop();
            assert(self@.frame =~= old(self)@.frame.drop_last());
        }
    }

    /// Swaps the machine's frame with `other`.
    fn swap_frame(&mut self, other: &mut Vec<Scope>)
        ensures
            final(self)@ == old(self)@.with_frame(old(other)@.map_values(|s: Scope| s@)),
            final(other)@.map_values(|s: Scope| s@) == old(self)@.frame,
    {
        std::mem::swap(&mut self.frame, other);
    }

    /// Allocates an array holding `cells` and returns its index.
    pub fn allocate(&mut self, cells: Vec<Value>) -> (id: usize)
        ensures
            id == old(self)@.heap.len(),
            final(self)@ == old(self)@.allocate(values_view(cells@)),
    {
        let id = self.heap.len();
        let ghost cv = values_view(cells@);
        self.heap.push(cells);
        assert(self@.heap =~= old(self)@.heap.push(cv));
        id
    }

    /// Hands `line` to `sink` and records it.
    pub fn print_line<P: Fn(&str)>(&mut self, line: String, sink: &P)
        requires
            printer(*sink),
        ensures
            final(self)@ == old(self)@.print(line@),
    {
        let ghost lv = line@;
        sink(line.as_str());
        self.output.push(line);
        assert(self@.out =~= old(self)@.out.push(lv));
    }

    /// The length of array `id`, when there is such an array.
    pub fn array_len(&self, id: usize) -> (n: Option<usize>)
        ensures
            match n {
                Some(x) => id < self@.heap.len() && x == self@.heap[id as int].len(),
                None => id >= self@.heap.len(),
            },
    {
        if id < self.heap.len() {
            Some(self.heap[id].len())
        } else {
            None
        }
    }

    pub fn read_cell(&self, id: usize, idx: i64) -> (r: Result<Value, Halt>)
        ensures
            value_res(r) == heap_read(self@, id, idx),
    {
        if id >= self.heap.len() {
            return Err(Halt::Unchecked);
        }
        let len = self.heap[id].len();
        if idx < 0 || idx as u64 >= len as u64 {
            return Err(Halt::Runtime(RuntimeError::IndexOutOfBounds { index: idx, length: len }));
        }
        Ok(self.heap[id][idx as usize].clone())
    }

    pub fn write_cell(&mut self, id: usize, idx: i64, v: Value) -> (r: Result<(), Halt>)
        ensures
            match r {
                Ok(_) => heap_write(old(self)@, id, idx, v@) == Ok::<MState, Halt>(final(self)@),
                Err(h) => heap_write(old(self)@, id, idx, v@) == Err::<MState, Halt>(h)
                    && final(self)@ == old(self)@,
            },
    {
        if id >= self.heap.len() {
            return Err(Halt::Unchecked);
        }
        let len = self.heap[id].len();
        if idx < 0 || idx as u64 >= len as u64 {
            return Err(Halt::Runtime(RuntimeError::IndexOutOfBounds { index: idx, length: len }));
        }
        let ghost before = self@;
        let ghost vv = v@;
        self.heap[id].set(idx as usize, v);
        assert(values_view(self.heap@[id as int]@) =~= before.heap[id as int].update(idx as int, vv));
        assert(self@.heap =~= before.heap.update(id as int, before.heap[id as int].update(idx as int, vv)));
        Ok(())
    }

    pub fn default_value(&mut self, ty: &Type) -> (v: Value)
        ensures
            (final(self)@, v@) == default_value_spec(old(self)@, *ty),
    {
        value::default_value(ty, &mut self.heap)
    }

    /// Runs the globals, then `main()`.
    #[verifier::loop_isolation(false)]
    fn run<F: Fn(FloatQuery) -> FloatAnswer, P: Fn(&str)>(
        &mut self,
        decls: &Vec<Decl>,
        floats: &F,
        sink: &P,
        steps: u64,
    ) -> (r: Result<(), Halt>)
        requires
            old(self)@ == initial_mstate(),
            float_unit(*floats),
            printer(*sink),
        ensures
            (final(self)@, r) == spec_run(decls@, answers(*floats), steps as nat),
    {
        let ghost fo = answers(*floats);
        let mut i: usize = 0;
        while i < decls.len()
            invariant
                i <= decls@.len(),
                float_unit(*floats),
                printer(*sink),
                fo == answers(*floats),
                ex_globals_from(self@, decls@, i as int, fo, steps as nat) == ex_globals_from(
                    initial_mstate(),
                    decls@,
                    0,
                    fo,
                    steps as nat,
                ),
            decreases decls@.len() - i,
        {
            match &decls[i] {
                Decl::Var(vd) => {
                    let v = match &vd.init {
                        Some(init) => match self.eval_expr(decls, floats, sink, init, steps) {
                            Ok(v) => v,
                            Err(h) => {
                                return Err(h);
                            },
                        },
                        None => self.default_value(&vd.ty),
                    };
                    self.define_var(vd.name.as_str(), v);
                },
                Decl::Func(_) => {},
            }
            i = i + 1;
        }
        let main_name = String::from_str("main");
        match find_function(decls, &main_name) {
            None => Err(Halt::Unchecked),
            Some(f) => {
                let args: Vec<Value> = Vec::new();
                assert(values_view(args@) =~= Seq::<SpecValue>::empty());
                match self.call_function(decls, floats, sink, f, args, steps) {
                    Ok(_) => Ok(()),
                    Err(h) => Err(h),
                }
            },
        }
    }
}

/// The last function declared under `name`.
pub fn find_function<'a>(decls: &'a Vec<Decl>, name: &String) -> (f: Option<&'a FuncDecl>)
    ensures
        match f {
            Some(fd) => find_func(decls@, name@, decls@.len() as int) == Some(*fd),
            None => find_func(decls@, name@, decls@.len() as int) is None,
        },
{
    let mut n = decls.len();
    while n > 0
        invariant
            n <= decls@.len(),
            find_func(decls@, name@, decls@.len() as int) == find_func(decls@, name@, n as int),
        decreases n,
    {
        match &decls[n - 1] {
            Decl::Func(f) => {
                if f.name == *name {
                    return Some(f);
                }
            },
            Decl::Var(_) => {},
        }
        n = n - 1;
    }
    None
}

/// The string builtins on evaluated arguments, or `None` when `name` is
/// not one of them.
pub fn builtin(name: &String, args: &Vec<Value>) -> (r: Option<Result<Value, Halt>>)
    ensures
        match r {
            Some(x) => builtin_value(name@, values_view(args@)) == Some(value_res(x)),
            None => builtin_value(name@, values_view(args@)) is None,
        },
{
    let length_name = String::from_str("length");
    let char_at_name = String::from_str("charAt");
    let substring_name = String::from_str("substring");
    if *name == length_name {
        if args.len() == 0 {
            return Some(Err(Halt::Unchecked));
        }
        match &args[0] {
            Value::Str(s) => {
                let n = s.as_str().as_bytes().len();
                Some(Ok(Value::Int(n as i64)))
            },
            _ => Some(Err(Halt::Unchecked)),
        }
    } else if *name == char_at_name {
        if args.len() < 2 {
            return Some(Err(Halt::Unchecked));
        }
        match (&args[0], &args[1]) {
            (Value::Str(s), Value::Int(i)) => {
                let bytes = s.as_str().as_bytes();
                let len = bytes.len();
                if *i < 0 || *i as u64 >= len as u64 {
                    return Some(
                        Err(
                            Halt::Runtime(
                                RuntimeError::StringIndexOutOfBounds { index: *i, length: len },
                            ),
                        ),
                    );
                }
                let b = bytes[*i as usize];
                let mut out = String::new();
                crate::text::push_char(&mut out, b as char);
                Some(Ok(Value::Str(out)))
            },
            _ => Some(Err(Halt::Unchecked)),
        }
    } else if *name == substring_name {
        if args.len() < 3 {
            return Some(Err(Halt::Unchecked));
        }
        match (&args[0], &args[1], &args[2]) {
            (Value::Str(s), Value::Int(start), Value::Int(end)) => {
                let bytes = s.as_str().as_bytes();
                let len = bytes.len();
                if *start < 0 || *start as u64 > len as u64 {
                    return Some(
                        Err(
                            Halt::Runtime(
                                RuntimeError::StringIndexOutOfBounds { index: *start, length: len },
                            ),
                        ),
                    );
                }
                if *end < *start || *end as u64 > len as u64 {
                    return Some(
                        Err(
                            Halt::Runtime(
                                RuntimeError::StringIndexOutOfBounds { index: *end, length: len },
                            ),
                        ),
                    );
                }
                let slice = slice_range(bytes, *start as usize, *end as usize);
                Some(Ok(Value::Str(utf8_lossy(slice.as_slice()))))
            },
            _ => Some(Err(Halt::Unchecked)),
        }
    } else {
        None
    }
}

/// The bytes `bytes[start..end]`.
fn slice_range(bytes: &[u8], start: usize, end: usize) -> (r: Vec<u8>)
    requires
        start <= end <= bytes@.len(),
    ensures
        r@ == bytes@.subrange(start as int, end as int),
{
    let mut r: Vec<u8> = Vec::new();
    let mut k = start;
    while k < end
        invariant
            start <= k <= end <= bytes@.len(),
            r@ == bytes@.subrange(start as int, k as int),
        decreases end - k,
    {
        r.push(bytes[k]);
        k = k + 1;
        assert(r@ =~= bytes@.subrange(start as int, k as int));
    }
    r
}

} // verus!
