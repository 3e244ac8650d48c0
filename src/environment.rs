use vstd::prelude::*;
use crate::object::{copy_object, Object, Value};

verus! {

/// The model of one scope: its variables and the handle of the scope around it.
pub struct Frame {
    pub vars: Map<Seq<char>, Value>,
    pub outer: Option<nat>,
}

/// The variables that a list of bindings defines; a later binding of a name
/// replaces an earlier one.
pub open spec fn bindings_map(s: Seq<(String, Object)>) -> Map<Seq<char>, Value>
    decreases s.len(),
{
    if s.len() == 0 {
        Map::empty()
    } else {
        bindings_map(s.drop_last()).insert(s.last().0@, s.last().1.view())
    }
}

proof fn lemma_bindings_last(s: Seq<(String, Object)>, name: Seq<char>, j: int)
    requires
        0 <= j < s.len(),
        s[j].0@ == name,
        forall|k: int| j < k < s.len() ==> (#[trigger] s[k]).0@ != name,
    ensures
        bindings_map(s).contains_key(name),
        bindings_map(s)[name] == s[j].1.view(),
    decreases s.len(),
{
    if j < s.len() - 1 {
        let t = s.drop_last();
        assert forall|k: int| j < k < t.len() implies (#[trigger] t[k]).0@ != name by {
            assert(t[k] == s[k]);
        }
        lemma_bindings_last(t, name, j);
    }
}

proof fn lemma_bindings_absent(s: Seq<(String, Object)>, name: Seq<char>)
    requires
        forall|k: int| 0 <= k < s.len() ==> (#[trigger] s[k]).0@ != name,
    ensures
        !bindings_map(s).contains_key(name),
    decreases s.len(),
{
    if s.len() > 0 {
        let t = s.drop_last();
        assert forall|k: int| 0 <= k < t.len() implies (#[trigger] t[k]).0@ != name by {
            assert(t[k] == s[k]);
        }
        lemma_bindings_absent(t, name);
    }
}

/// One scope of variables, linked to the scope around it by its handle.
pub struct Environment {
    store: Vec<(String, Object)>,
    outer: Option<usize>,
}

impl Environment {
    pub closed spec fn frame(&self) -> Frame {
        Frame {
            vars: bindings_map(self.store@),
            outer: match self.outer {
                Some(o) => Some(o as nat),
                None => None,
            },
        }
    }

    pub fn new() -> (r: Self)
        ensures
            r.frame() == (Frame { vars: Map::empty(), outer: None }),
    {
        Environment { store: Vec::new(), outer: None }
    }

    pub fn new_with_outer(outer: usize) -> (r: Self)
        ensures
            r.frame() == (Frame { vars: Map::empty(), outer: Some(outer as nat) }),
    {
        Environment { store: Vec::new(), outer: Some(outer) }
    }

    /// A scope holding the given bindings, with no scope around it.
    pub fn from_bindings(bindings: Vec<(String, Object)>) -> (r: Self)
        ensures
            r.frame() == (Frame { vars: bindings_map(bindings@), outer: None }),
    {
        Environment { store: bindings, outer: None }
    }

    /// The same bindings with no scope around them.
    pub fn into_root(self) -> (r: Self)
        ensures
            r.frame() == (Frame { vars: self.frame().vars, outer: None }),
    {
        Environment { store: self.store, outer: None }
    }

    pub fn outer(&self) -> (r: Option<usize>)
        ensures
            r matches Some(o) ==> self.frame().outer == Some(o as nat),
            r is None ==> self.frame().outer is None,
    {
        self.outer
    }

    /// The value bound to `name` in this scope alone.
    pub fn get(&self, name: &String) -> (r: Option<Object>)
        ensures
            r is Some <==> self.frame().vars.contains_key(name@),
            r matches Some(o) ==> o.view() == self.frame().vars[name@],
    {
        let mut i: usize = self.store.len();
        while i > 0
            invariant
                i <= self.store@.len(),
                forall|k: int| i <= k < self.store@.len() ==> (#[trigger] self.store@[k]).0@ != name@,
            decreases i,
        {
            i = i - 1;
            if self.store[i].0 == *name {
                proof { lemma_bindings_last(self.store@, name@, i as int); }
                return Some(copy_object(&self.store[i].1));
            }
        }
        proof { lemma_bindings_absent(self.store@, name@); }
        None
    }

    /// Binds `name` to a copy of `value` in this scope.
    pub fn set(&mut self, name: String, value: &Object)
        ensures
            final(self).frame() == (Frame {
                vars: old(self).frame().vars.insert(name@, value.view()),
                outer: old(self).frame().outer,
            }),
    {
        let ghost before = self.store@;
        self.store.push((name, copy_object(value)));
        assert(self.store@.drop_last() =~= before);
    }
}

} // verus!
