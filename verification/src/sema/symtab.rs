//! The symbol table: a stack of variable scopes and one function table.
//!
//! Its model is a sequence of maps from names to symbols (innermost scope
//! last), a map from function names to signatures and the next symbol id.

use crate::ast::Type;
use vstd::prelude::*;

verus! {

pub type SymbolId = u32;

#[derive(Debug)]
pub struct Symbol {
    pub id: SymbolId,
    pub ty: Type,
}

impl Clone for Symbol {
    fn clone(&self) -> (res: Self)
        ensures
            res == *self,
    {
        Symbol { id: self.id, ty: self.ty.clone() }
    }
}

#[derive(Debug)]
pub struct FuncSig {
    pub params: Vec<Type>,
    pub return_ty: Type,
}

impl Clone for FuncSig {
    fn clone(&self) -> (res: Self)
        ensures
            res@ == self@,
    {
        let mut params: Vec<Type> = Vec::new();
        let mut i: usize = 0;
        while i < self.params.len()
            invariant
                i <= self.params@.len(),
                params@ == self.params@.take(i as int),
            decreases self.params@.len() - i,
        {
            params.push(self.params[i].clone());
            i = i + 1;
            assert(params@ =~= self.params@.take(i as int));
        }
        assert(self.params@.take(i as int) =~= self.params@);
        FuncSig { params, return_ty: self.return_ty.clone() }
    }
}

/// A function signature as specifications speak of it.
pub struct SpecFuncSig {
    pub params: Seq<Type>,
    pub return_ty: Type,
}

impl View for FuncSig {
    type V = SpecFuncSig;

    open spec fn view(&self) -> SpecFuncSig {
        SpecFuncSig { params: self.params@, return_ty: self.return_ty }
    }
}

/// A list of named entries; a later entry hides an earlier one of the same
/// name, so the list reads as a map.
pub struct Entries<V> {
    list: Vec<(String, V)>,
}

pub open spec fn entries_map<V>(l: Seq<(String, V)>) -> Map<Seq<char>, V>
    decreases l.len(),
{
    if l.len() == 0 {
        Map::empty()
    } else {
        entries_map(l.drop_last()).insert(l.last().0@, l.last().1)
    }
}

proof fn lemma_entries_map_find<V>(l: Seq<(String, V)>, i: int, k: Seq<char>)
    requires
        0 <= i < l.len(),
        l[i].0@ == k,
        forall|j: int| i < j < l.len() ==> (#[trigger] l[j]).0@ != k,
    ensures
        entries_map(l).contains_key(k),
        entries_map(l)[k] == l[i].1,
    decreases l.len(),
{
    if i < l.len() - 1 {
        lemma_entries_map_find(l.drop_last(), i, k);
    }
}

proof fn lemma_entries_map_absent<V>(l: Seq<(String, V)>, k: Seq<char>)
    requires
        forall|j: int| 0 <= j < l.len() ==> (#[trigger] l[j]).0@ != k,
    ensures
        !entries_map(l).contains_key(k),
    decreases l.len(),
{
    if l.len() > 0 {
        lemma_entries_map_absent(l.drop_last(), k);
    }
}

impl<V> View for Entries<V> {
    type V = Map<Seq<char>, V>;

    closed spec fn view(&self) -> Map<Seq<char>, V> {
        entries_map(self.list@)
    }
}

impl<V> Entries<V> {
    pub fn new() -> (e: Self)
        ensures
            e@ == Map::<Seq<char>, V>::empty(),
    {
        let e = Entries { list: Vec::new() };
        assert(e@ =~= Map::<Seq<char>, V>::empty());
        e
    }

    pub fn insert(&mut self, name: String, value: V)
        ensures
            final(self)@ == old(self)@.insert(name@, value),
    {
        let ghost before = self.list@;
        self.list.push((name, value));
        assert(self.list@.drop_last() =~= before);
    }

    /// The index of the last entry named `name`.
    fn find(&self, name: &str) -> (i: Option<usize>)
        ensures
            match i {
                Some(i) => i < self.list@.len() && self.list@[i as int].0@ == name@ && self@.contains_key(
                    name@,
                ) && self@[name@] == self.list@[i as int].1,
                None => !self@.contains_key(name@),
            },
    {
        let key = name.to_owned();
        let mut i = self.list.len();
        while i > 0
            invariant
                key@ == name@,
                i <= self.list@.len(),
                forall|j: int| i <= j < self.list@.len() ==> (#[trigger] self.list@[j]).0@ != name@,
            decreases i,
        {
            i = i - 1;
            if self.list[i].0 == key {
                proof {
                    lemma_entries_map_find(self.list@, i as int, name@);
                }
                return Some(i);
            }
        }
        proof {
            lemma_entries_map_absent(self.list@, name@);
        }
        None
    }

    pub fn contains(&self, name: &str) -> (b: bool)
        ensures
            b == self@.contains_key(name@),
    {
        self.find(name).is_some()
    }

    pub fn get(&self, name: &str) -> (r: Option<&V>)
        ensures
            match r {
                Some(v) => self@.contains_key(name@) && self@[name@] == *v,
                None => !self@.contains_key(name@),
            },
    {
        match self.find(name) {
            Some(i) => Some(&self.list[i].1),
            None => None,
        }
    }
}

/// The symbol that `name` resolves to: its entry in the innermost scope
/// that has one.
pub open spec fn lookup(scopes: Seq<Map<Seq<char>, Symbol>>, name: Seq<char>) -> Option<Symbol>
    decreases scopes.len(),
{
    if scopes.len() == 0 {
        None
    } else if scopes.last().contains_key(name) {
        Some(scopes.last()[name])
    } else {
        lookup(scopes.drop_last(), name)
    }
}

pub struct SymbolTable {
    scopes: Vec<Entries<Symbol>>,
    functions: Entries<FuncSig>,
    next_symbol_id: SymbolId,
}

pub open spec fn scopes_view(scopes: Seq<Entries<Symbol>>) -> Seq<Map<Seq<char>, Symbol>> {
    scopes.map_values(|e: Entries<Symbol>| e@)
}

/// The symbol table as specifications speak of it.
pub struct TableState {
    pub scopes: Seq<Map<Seq<char>, Symbol>>,
    pub funcs: Map<Seq<char>, SpecFuncSig>,
    pub next_id: SymbolId,
}

/// An operation on the symbol table, with its arguments as values.
pub enum TableOp {
    PushScope,
    PopScope,
    DeclareVar(Seq<char>, Type),
    DeclareFunc(Seq<char>, SpecFuncSig),
}

/// What one operation does to the table.
pub open spec fn table_step(t: TableState, op: TableOp) -> TableState {
    match op {
        TableOp::PushScope => TableState { scopes: t.scopes.push(Map::empty()), ..t },
        TableOp::PopScope => TableState {
            scopes: if t.scopes.len() > 0 {
                t.scopes.drop_last()
            } else {
                t.scopes
            },
            ..t
        },
        TableOp::DeclareVar(name, ty) => TableState {
            scopes: t.scopes.update(
                t.scopes.len() - 1,
                t.scopes.last().insert(name, Symbol { id: t.next_id, ty }),
            ),
            next_id: ((t.next_id + 1) % 0x1_0000_0000) as SymbolId,
            ..t
        },
        TableOp::DeclareFunc(name, sig) => TableState { funcs: t.funcs.insert(name, sig), ..t },
    }
}

/// The table after `ops`, in order.
pub open spec fn table_run(t: TableState, ops: Seq<TableOp>) -> TableState
    decreases ops.len(),
{
    if ops.len() == 0 {
        t
    } else {
        table_step(table_run(t, ops.drop_last()), ops.last())
    }
}

/// The ids that the variable declarations among `ops` hand out, in order.
pub open spec fn declared_ids(t: TableState, ops: Seq<TableOp>) -> Seq<SymbolId>
    decreases ops.len(),
{
    if ops.len() == 0 {
        Seq::empty()
    } else if ops.last() is DeclareVar {
        declared_ids(t, ops.drop_last()).push(table_run(t, ops.drop_last()).next_id)
    } else {
        declared_ids(t, ops.drop_last())
    }
}

/// How many more scopes `ops` opens than it closes.
pub open spec fn depth(ops: Seq<TableOp>) -> int
    decreases ops.len(),
{
    if ops.len() == 0 {
        0
    } else {
        depth(ops.drop_last()) + match ops.last() {
            TableOp::PushScope => 1int,
            TableOp::PopScope => -1int,
            _ => 0int,
        }
    }
}

/// Whether `ops` never closes a scope that it did not open itself.
pub open spec fn nested(ops: Seq<TableOp>) -> bool
    decreases ops.len(),
{
    if ops.len() == 0 {
        true
    } else {
        nested(ops.drop_last()) && depth(ops) >= 0
    }
}

impl SymbolTable {
    /// The variable scopes, innermost last.
    pub closed spec fn scopes(&self) -> Seq<Map<Seq<char>, Symbol>> {
        scopes_view(self.scopes@)
    }

    /// The declared functions and their signatures.
    pub closed spec fn functions(&self) -> Map<Seq<char>, SpecFuncSig> {
        self.functions@.map_values(|s: FuncSig| s@)
    }

    /// The id the next declared variable gets.
    pub closed spec fn next_id(&self) -> SymbolId {
        self.next_symbol_id
    }

    /// The whole table as a value.
    pub open spec fn state(&self) -> TableState {
        TableState { scopes: self.scopes(), funcs: self.functions(), next_id: self.next_id() }
    }

    /// A table with one (global) scope and no functions.
    pub fn new() -> (t: Self)
        ensures
            t.scopes() == seq![Map::<Seq<char>, Symbol>::empty()],
            t.functions() == Map::<Seq<char>, SpecFuncSig>::empty(),
            t.next_id() == 0,
    {
        let mut scopes = Vec::new();
        scopes.push(Entries::new());
        let t = SymbolTable { scopes, functions: Entries::new(), next_symbol_id: 0 };
        assert(t.scopes() =~= seq![Map::<Seq<char>, Symbol>::empty()]);
        assert(t.functions() =~= Map::<Seq<char>, SpecFuncSig>::empty());
        t
    }

    pub fn push_scope(&mut self)
        ensures
            final(self).scopes() == old(self).scopes().push(Map::empty()),
            final(self).functions() == old(self).functions(),
            final(self).next_id() == old(self).next_id(),
            final(self).state() == table_step(old(self).state(), TableOp::PushScope),
    {
        self.scopes.push(Entries::new());
        assert(self.scopes() =~= old(self).scopes().push(Map::empty()));
    }

    /// Drops the innermost scope; with no scope left it does nothing.
    pub fn pop_scope(&mut self)
        ensures
            final(self).scopes() == if old(self).scopes().len() > 0 {
                old(self).scopes().drop_last()
            } else {
                old(self).scopes()
            },
            final(self).functions() == old(self).functions(),
            final(self).next_id() == old(self).next_id(),
            final(self).state() == table_step(old(self).state(), TableOp::PopScope),
    {
        let _ = self.scopes.pop();
        assert(self.scopes() =~= if old(self).scopes().len() > 0 {
            old(self).scopes().drop_last()
        } else {
            old(self).scopes()
        });
    }

    /// Declares `name` in the innermost scope (hiding an earlier
    /// declaration there) with the next symbol id, and returns that id.
    /// Ids advance modulo 2^32.
    pub fn declare_var(&mut self, name: &str, ty: Type) -> (id: SymbolId)
        requires
            old(self).scopes().len() > 0,
        ensures
            id == old(self).next_id(),
            final(self).next_id() == (old(self).next_id() + 1) % 0x1_0000_0000,
            final(self).scopes() == old(self).scopes().update(
                old(self).scopes().len() - 1,
                old(self).scopes().last().insert(name@, Symbol { id, ty }),
            ),
            final(self).functions() == old(self).functions(),
            final(self).state() == table_step(old(self).state(), TableOp::DeclareVar(name@, ty)),
    {
        let id = self.next_symbol_id;
        self.next_symbol_id = self.next_symbol_id.wrapping_add(1);
        let last = self.scopes.len() - 1;
        let mut scope = self.scopes.pop().unwrap();
        scope.insert(name.to_owned(), Symbol { id, ty });
        self.scopes.push(scope);
        assert(self.scopes() =~= old(self).scopes().update(
            old(self).scopes().len() - 1,
            old(self).scopes().last().insert(name@, Symbol { id, ty }),
        ));
        id
    }

    pub fn is_declared_in_current_scope(&self, name: &str) -> (b: bool)
        requires
            self.scopes().len() > 0,
        ensures
            b == self.scopes().last().contains_key(name@),
    {
        self.scopes[self.scopes.len() - 1].contains(name)
    }

    /// The symbol of the innermost declaration of `name`.
    pub fn resolve_var(&self, name: &str) -> (r: Option<&Symbol>)
        ensures
            match r {
                Some(s) => lookup(self.scopes(), name@) == Some(*s),
                None => lookup(self.scopes(), name@) is None,
            },
    {
        let mut i = self.scopes.len();
        assert(self.scopes().take(i as int) =~= self.scopes());
        while i > 0
            invariant
                i <= self.scopes@.len(),
                lookup(self.scopes(), name@) == lookup(self.scopes().take(i as int), name@),
            decreases i,
        {
            let ghost before = self.scopes().take(i as int);
            i = i - 1;
            assert(before.drop_last() =~= self.scopes().take(i as int));
            match self.scopes[i].get(name) {
                Some(s) => {
                    return Some(s);
                },
                None => {},
            }
        }
        None
    }

    /// Declares (or redeclares) a function.
    pub fn declare_func(&mut self, name: String, sig: FuncSig)
        ensures
            final(self).functions() == old(self).functions().insert(name@, sig@),
            final(self).scopes() == old(self).scopes(),
            final(self).next_id() == old(self).next_id(),
            final(self).state() == table_step(old(self).state(), TableOp::DeclareFunc(name@, sig@)),
    {
        let ghost sv = sig@;
        self.functions.insert(name, sig);
        assert(self.functions() =~= old(self).functions().insert(name@, sv));
    }

    pub fn resolve_func(&self, name: &str) -> (r: Option<&FuncSig>)
        ensures
            match r {
                Some(sig) => self.functions().contains_key(name@) && self.functions()[name@]
                    == sig@,
                None => !self.functions().contains_key(name@),
            },
    {
        self.functions.get(name)
    }
}

// ---- laws ----

/// A variable declared in the innermost scope resolves to its new symbol.
pub proof fn law_declared_var_resolves(
    scopes: Seq<Map<Seq<char>, Symbol>>,
    name: Seq<char>,
    sym: Symbol,
)
    requires
        scopes.len() > 0,
    ensures
        lookup(scopes.update(scopes.len() - 1, scopes.last().insert(name, sym)), name) == Some(sym),
{
}

/// Declaring `name` changes the resolution of no other name.
pub proof fn law_declare_leaves_other_names(
    scopes: Seq<Map<Seq<char>, Symbol>>,
    name: Seq<char>,
    other: Seq<char>,
    sym: Symbol,
)
    requires
        scopes.len() > 0,
        name != other,
    ensures
        lookup(scopes.update(scopes.len() - 1, scopes.last().insert(name, sym)), other) == lookup(
            scopes,
            other,
        ),
{
    let after = scopes.update(scopes.len() - 1, scopes.last().insert(name, sym));
    assert(after.drop_last() =~= scopes.drop_last());
}

/// Opening a scope and closing it again restores the scopes, and with them
/// every name's resolution: a declaration in an inner scope is gone once
/// the scope closes.
pub proof fn law_scope_closes(scopes: Seq<Map<Seq<char>, Symbol>>, inner: Map<Seq<char>, Symbol>)
    ensures
        scopes.push(inner).drop_last() == scopes,
        forall|n: Seq<char>| lookup(scopes.push(inner).drop_last(), n) == lookup(scopes, n),
{
    assert(scopes.push(inner).drop_last() =~= scopes);
}

/// An inner declaration hides an outer one of the same name.
pub proof fn law_inner_scope_shadows(
    scopes: Seq<Map<Seq<char>, Symbol>>,
    name: Seq<char>,
    sym: Symbol,
)
    ensures
        lookup(scopes.push(Map::empty().insert(name, sym)), name) == Some(sym),
{
}


/// Variable ids count up by one from the table's next id, whatever else
/// happens in between: the `i`-th variable declared gets the starting id
/// plus `i` (modulo 2^32). From a fresh table, fewer than 2^32 declarations
/// get the ids `0, 1, 2, ...`, so no id is handed out twice, not even after
/// its scope has closed or its name has been declared again.
pub proof fn law_ids_count_up(t: TableState, ops: Seq<TableOp>)
    ensures
        ({
            let ids = declared_ids(t, ops);
            &&& table_run(t, ops).next_id == (t.next_id + ids.len()) % 0x1_0000_0000
            &&& forall|i: int| 0 <= i < ids.len() ==> #[trigger] ids[i] == (t.next_id + i)
                % 0x1_0000_0000
            &&& t.next_id == 0 && ids.len() <= 0x1_0000_0000 ==> forall|i: int|
                0 <= i < ids.len() ==> #[trigger] ids[i] == i
        }),
    decreases ops.len(),
{
    if ops.len() > 0 {
        law_ids_count_up(t, ops.drop_last());
        let before = declared_ids(t, ops.drop_last());
        let n = before.len();
        if ops.last() is DeclareVar {
            vstd::arithmetic::div_mod::lemma_add_mod_noop(t.next_id + n, 1, 0x1_0000_0000);
        }
        let ids = declared_ids(t, ops);
        if t.next_id == 0 && ids.len() <= 0x1_0000_0000 {
            assert forall|i: int| 0 <= i < ids.len() implies #[trigger] ids[i] == i by {
                vstd::arithmetic::div_mod::lemma_small_mod(i as nat, 0x1_0000_0000);
            }
        }
    }
}

proof fn lemma_nested_keeps_outer(u: TableState, ops: Seq<TableOp>)
    requires
        u.scopes.len() > 0,
        nested(ops),
    ensures
        table_run(u, ops).scopes.len() == u.scopes.len() + depth(ops),
        table_run(u, ops).scopes.take(u.scopes.len() - 1) == u.scopes.take(u.scopes.len() - 1),
    decreases ops.len(),
{
    if ops.len() > 0 {
        let p = ops.drop_last();
        assert(nested(p));
        lemma_nested_keeps_outer(u, p);
        if p.len() > 0 {
            assert(depth(p) >= 0);
        }
        let v = table_run(u, p);
        let k = u.scopes.len() - 1;
        let w = table_step(v, ops.last());
        assert(w.scopes.take(k) =~= v.scopes.take(k));
    }
}

/// Opening a scope, doing anything that closes no scope it did not open
/// itself and leaves as many open as it found, then closing the scope,
/// gives back the scopes as they were: every name resolves as before, and
/// the same names are declared in the innermost scope.
pub proof fn law_scope_restores(t: TableState, ops: Seq<TableOp>)
    requires
        nested(ops),
        depth(ops) == 0,
    ensures
        ({
            let inner = table_run(table_step(t, TableOp::PushScope), ops);
            let after = table_step(inner, TableOp::PopScope);
            &&& after.scopes == t.scopes
            &&& forall|n: Seq<char>| lookup(after.scopes, n) == lookup(t.scopes, n)
        }),
{
    let u = table_step(t, TableOp::PushScope);
    lemma_nested_keeps_outer(u, ops);
    let inner = table_run(u, ops);
    assert(u.scopes.take(t.scopes.len() as int) =~= t.scopes);
    assert(inner.scopes.drop_last() =~= inner.scopes.take(t.scopes.len() as int));
}

} // verus!
