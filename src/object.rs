use vstd::prelude::*;
use vstd::string::*;
use std::rc::Rc;
use crate::ast::{BlockOfStatements, Identifier, Statement};
use vstd::std_specs::vec::axiom_vec_index_decreases;

verus! {

/// The host functions a program can call.
#[derive(Clone, Copy, Debug, PartialEq, Eq, Structural)]
pub enum BuiltinFunc {
    Len,
    Head,
    Last,
    Tail,
    Push,
    Print,
}

/// A runtime value.
#[derive(Debug, PartialEq)]
pub enum Object {
    INTEGER(i64),
    BOOL(bool),
    NIL,
    ERROR(String),
    RETURN(Box<Object>),
    /// Parameters, body, and the handle of the environment the function was made in.
    FUNCTION(Rc<Vec<Identifier>>, Rc<BlockOfStatements>, usize),
    STRING(String),
    /// A host function; a negative arity accepts any number of arguments.
    BUILTIN { arity: i16, func: BuiltinFunc },
    ARRAY(Vec<Object>),
}

/// The mathematical model of a runtime value.
pub enum Value {
    Integer(i64),
    Bool(bool),
    Nil,
    Error(Seq<char>),
    Return(Box<Value>),
    Function(Seq<Identifier>, Seq<Statement>, nat),
    Str(Seq<char>),
    Builtin(i16, BuiltinFunc),
    Array(Seq<Value>),
}

impl Object {
    pub open spec fn view(&self) -> Value
        decreases self,
    {
        match self {
            Object::INTEGER(n) => Value::Integer(*n),
            Object::BOOL(b) => Value::Bool(*b),
            Object::NIL => Value::Nil,
            Object::ERROR(m) => Value::Error(m@),
            Object::RETURN(b) => Value::Return(Box::new((**b).view())),
            Object::FUNCTION(p, b, e) => Value::Function((**p)@, (**b)@, *e as nat),
            Object::STRING(s) => Value::Str(s@),
            Object::BUILTIN { arity, func } => Value::Builtin(*arity, *func),
            Object::ARRAY(v) => Value::Array(views_upto(v@, v@.len() as int)),
        }
    }
}

/// The models of the first `n` objects of `s`.
pub open spec fn views_upto(s: Seq<Object>, n: int) -> Seq<Value>
    decreases s, n,
{
    if n <= 0 || n > s.len() {
        Seq::empty()
    } else {
        views_upto(s, n - 1).push(s[n - 1].view())
    }
}

pub open spec fn views(s: Seq<Object>) -> Seq<Value> {
    views_upto(s, s.len() as int)
}

pub proof fn lemma_views_upto_prefix(s: Seq<Object>, t: Seq<Object>, n: int)
    requires
        0 <= n <= t.len(),
        n <= s.len(),
        s.subrange(0, n) == t.subrange(0, n),
    ensures
        views_upto(s, n) == views_upto(t, n),
    decreases n,
{
    if n > 0 {
        assert(s.subrange(0, n - 1) =~= s.subrange(0, n).subrange(0, n - 1));
        assert(t.subrange(0, n - 1) =~= t.subrange(0, n).subrange(0, n - 1));
        assert(s[n - 1] == s.subrange(0, n)[n - 1]);
        assert(t[n - 1] == t.subrange(0, n)[n - 1]);
        lemma_views_upto_prefix(s, t, n - 1);
    }
}

/// A copy of `o` with the same model.
pub fn copy_object(o: &Object) -> (r: Object)
    ensures
        r.view() == o.view(),
    decreases o,
{
    match o {
        Object::INTEGER(n) => Object::INTEGER(*n),
        Object::BOOL(b) => Object::BOOL(*b),
        Object::NIL => Object::NIL,
        Object::ERROR(m) => Object::ERROR(m.clone()),
        Object::RETURN(b) => Object::RETURN(Box::new(copy_object(b))),
        Object::FUNCTION(p, b, e) => Object::FUNCTION(p.clone(), b.clone(), *e),
        Object::STRING(s) => Object::STRING(s.clone()),
        Object::BUILTIN { arity, func } => Object::BUILTIN { arity: *arity, func: *func },
        Object::ARRAY(v) => {
            let mut out: Vec<Object> = Vec::new();
            let mut i: usize = 0;
            while i < v.len()
                invariant
                    *o == Object::ARRAY(*v),
                    i <= v@.len(),
                    out@.len() == i,
                    views_upto(out@, i as int) == views_upto(v@, i as int),
                decreases v@.len() - i,
            {
                proof {
                    assert(decreases_to!(*o => o->ARRAY_0));
                    axiom_vec_index_decreases(o->ARRAY_0, i as int);
                    assert(decreases_to!(*o => v@[i as int]));
                }
                let c = copy_object(&v[i]);
                let ghost before = out@;
                out.push(c);
                assert(out@.subrange(0, i as int) =~= before);
                assert(before.subrange(0, i as int) =~= before);
                proof { lemma_views_upto_prefix(out@, before, i as int); }
                i = i + 1;
            }
            Object::ARRAY(out)
        },
    }
}


pub proof fn lemma_views_upto(s: Seq<Object>, n: int)
    requires
        0 <= n <= s.len(),
    ensures
        views_upto(s, n).len() == n,
        forall|i: int| 0 <= i < n ==> #[trigger] views_upto(s, n)[i] == s[i].view(),
    decreases n,
{
    if n > 0 {
        lemma_views_upto(s, n - 1);
    }
}

pub proof fn lemma_views(s: Seq<Object>)
    ensures
        views(s).len() == s.len(),
        forall|i: int| 0 <= i < s.len() ==> #[trigger] views(s)[i] == s[i].view(),
{
    lemma_views_upto(s, s.len() as int);
}

/// The name of a value's type, as messages show it; a function shows its
/// parameters, and a `return` on its way out shows the value it carries.
pub open spec fn kind_name(v: Value) -> Seq<char> {
    match v {
        Value::Integer(_) => "int64"@,
        Value::Bool(_) => "bool"@,
        Value::Nil => "nil"@,
        Value::Error(_) => "Error"@,
        Value::Return(b) => crate::render::value_text(*b),
        Value::Function(ps, _, _) => "func ("@ + crate::render::params_text(ps, ps.len() as int) + ")"@,
        Value::Str(_) => "String"@,
        Value::Builtin(..) => "builtin_func"@,
        Value::Array(_) => "Array"@,
    }
}

impl Object {
    pub fn type_of(object: Object) -> (r: String)
        ensures
            r@ == kind_name(object.view()),
    {
        Object::type_name_of(&object)
    }

    pub fn type_name_of(&self) -> (r: String)
        ensures
            r@ == kind_name(self.view()),
    {
        match self {
            Object::INTEGER(_) => "int64".to_owned(),
            Object::BOOL(_) => "bool".to_owned(),
            Object::NIL => "nil".to_owned(),
            Object::ERROR(_) => "Error".to_owned(),
            Object::RETURN(b) => crate::render::render_object(b),
            Object::FUNCTION(p, _, _) => {
                let mut s = "func (".to_owned();
                let ps = crate::render::render_params(&**p);
                s.append(ps.as_str());
                s.append(")");
                s
            },
            Object::STRING(_) => "String".to_owned(),
            Object::BUILTIN { .. } => "builtin_func".to_owned(),
            Object::ARRAY(_) => "Array".to_owned(),
        }
    }
}

/// Copies of all of `v`, in order.
pub fn copy_objects(v: &Vec<Object>, from: usize) -> (r: Vec<Object>)
    requires
        from <= v@.len(),
    ensures
        views(r@) == views(v@).subrange(from as int, v@.len() as int),
{
    let mut out: Vec<Object> = Vec::new();
    let mut i: usize = from;
    while i < v.len()
        invariant
            from <= i <= v@.len(),
            out@.len() == i - from,
            forall|j: int| 0 <= j < out@.len() ==> (#[trigger] out@[j]).view() == v@[j + from].view(),
        decreases v@.len() - i,
    {
        out.push(copy_object(&v[i]));
        i = i + 1;
    }
    proof {
        lemma_views(out@);
        lemma_views(v@);
    }
    assert(views(out@) =~= views(v@).subrange(from as int, v@.len() as int));
    out
}
} // verus!
