//! One scope of variables: a list of name and value pairs that reads as a
//! map, later entries hiding earlier ones of the same name.

use crate::interp::value::{SpecValue, Value};
use vstd::prelude::*;

verus! {

pub struct Scope {
    list: Vec<(String, Value)>,
}

pub open spec fn scope_map(l: Seq<(String, Value)>) -> Map<Seq<char>, SpecValue>
    decreases l.len(),
{
    if l.len() == 0 {
        Map::empty()
    } else {
        scope_map(l.drop_last()).insert(l.last().0@, l.last().1@)
    }
}

proof fn lemma_scope_find(l: Seq<(String, Value)>, i: int, k: Seq<char>)
    requires
        0 <= i < l.len(),
        l[i].0@ == k,
        forall|j: int| i < j < l.len() ==> (#[trigger] l[j]).0@ != k,
    ensures
        scope_map(l).contains_key(k),
        scope_map(l)[k] == l[i].1@,
    decreases l.len(),
{
    if i < l.len() - 1 {
        lemma_scope_find(l.drop_last(), i, k);
    }
}

proof fn lemma_scope_absent(l: Seq<(String, Value)>, k: Seq<char>)
    requires
        forall|j: int| 0 <= j < l.len() ==> (#[trigger] l[j]).0@ != k,
    ensures
        !scope_map(l).contains_key(k),
    decreases l.len(),
{
    if l.len() > 0 {
        lemma_scope_absent(l.drop_last(), k);
    }
}

proof fn lemma_scope_update(l: Seq<(String, Value)>, i: int, k: Seq<char>, x: (String, Value))
    requires
        0 <= i < l.len(),
        l[i].0@ == k,
        x.0@ == k,
        forall|j: int| i < j < l.len() ==> (#[trigger] l[j]).0@ != k,
    ensures
        scope_map(l.update(i, x)) == scope_map(l).insert(k, x.1@),
    decreases l.len(),
{
    let u = l.update(i, x);
    if i == l.len() - 1 {
        assert(u.drop_last() =~= l.drop_last());
        assert(scope_map(u) =~= scope_map(l).insert(k, x.1@));
    } else {
        assert(u.drop_last() =~= l.drop_last().update(i, x));
        lemma_scope_update(l.drop_last(), i, k, x);
        assert(scope_map(u) =~= scope_map(l).insert(k, x.1@));
    }
}

impl View for Scope {
    type V = Map<Seq<char>, SpecValue>;

    closed spec fn view(&self) -> Map<Seq<char>, SpecValue> {
        scope_map(self.list@)
    }
}

impl Scope {
    pub fn new() -> (s: Self)
        ensures
            s@ == Map::<Seq<char>, SpecValue>::empty(),
    {
        let s = Scope { list: Vec::new() };
        assert(s@ =~= Map::<Seq<char>, SpecValue>::empty());
        s
    }

    /// The index of the last entry named `name`.
    fn find(&self, name: &str) -> (i: Option<usize>)
        ensures
            match i {
                Some(i) => {
                    &&& i < self.list@.len()
                    &&& self.list@[i as int].0@ == name@
                    &&& forall|j: int| i < j < self.list@.len() ==> (#[trigger] self.list@[j]).0@
                        != name@
                    &&& self@.contains_key(name@)
                    &&& self@[name@] == self.list@[i as int].1@
                },
                None => !self@.contains_key(name@),
            },
    {
        let key = name.to_owned();
        let mut i = self.list.len();
        while i > 0
            invariant
                key@ == name@,
                i <= self.list@.len(),
                forall|j: int| i <= j < self.list@.len() ==> (#[trigger] self.list@[j]).0@ != name@,
            decreases i,
        {
            i = i - 1;
            if self.list[i].0 == key {
                proof {
                    lemma_scope_find(self.list@, i as int, name@);
                }
                return Some(i);
            }
        }
        proof {
            lemma_scope_absent(self.list@, name@);
        }
        None
    }

    pub fn contains(&self, name: &str) -> (b: bool)
        ensures
            b == self@.contains_key(name@),
    {
        self.find(name).is_some()
    }

    pub fn get(&self, name: &str) -> (r: Option<Value>)
        ensures
            match r {
                Some(v) => self@.contains_key(name@) && self@[name@] == v@,
                None => !self@.contains_key(name@),
            },
    {
        match self.find(name) {
            Some(i) => Some(self.list[i].1.clone()),
            None => None,
        }
    }

    /// Binds `name` to `v`, hiding any earlier binding of it.
    pub fn define(&mut self, name: &str, v: Value)
        ensures
            final(self)@ == old(self)@.insert(name@, v@),
    {
        let ghost before = self.list@;
        self.list.push((name.to_owned(), v));
        assert(self.list@.drop_last() =~= before);
    }

    /// Rebinds `name` to `v` in place.
    pub fn set(&mut self, name: &str, v: Value)
        requires
            old(self)@.contains_key(name@),
        ensures
            final(self)@ == old(self)@.insert(name@, v@),
    {
        match self.find(name) {
            Some(i) => {
                let ghost before = self.list@;
                self.list.set(i, (name.to_owned(), v));
                proof {
                    lemma_scope_update(before, i as int, name@, self.list@[i as int]);
                }
            },
            None => {},
        }
    }
}

} // verus!
