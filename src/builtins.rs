use vstd::prelude::*;
use vstd::string::*;
use vstd::utf8::encode_utf8;
use crate::object::{copy_object, copy_objects, lemma_views, kind_name, views, BuiltinFunc, Object, Value};
use crate::text::{decimal_chars, decimal_text, join3};

verus! {

/// The error for a call with `n` arguments where `expected` were wanted.
pub open spec fn arg_count_error(expected: Seq<char>, n: nat) -> Value {
    Value::Error("Expected "@ + expected + " but received "@ + decimal_chars(n))
}

/// A length as an integer value.
pub open spec fn count_value(n: nat) -> Value {
    if n <= i64::MAX {
        Value::Integer(n as i64)
    } else {
        Value::Error("LogicalError: The length does not fit in an integer."@)
    }
}

pub open spec fn empty_array_error() -> Value {
    Value::Error("LogicalError: The array has no elements or hasn't been initialized yet."@)
}

pub open spec fn array_only_error(name: Seq<char>, v: Value) -> Value {
    Value::Error("SyntaxError: "@ + name + " function cannot be used for "@ + kind_name(v)
        + ". It can only be used for Array type."@)
}

/// `len`: the byte length of a string, or the element count of an array.
pub open spec fn len_spec(args: Seq<Value>) -> Value {
    if args.len() != 1 {
        arg_count_error("1 argument"@, args.len())
    } else {
        match args[0] {
            Value::Str(s) => count_value(encode_utf8(s).len()),
            Value::Array(a) => count_value(a.len()),
            v => Value::Error("SyntaxError: len() function cannot be used for "@ + kind_name(v)),
        }
    }
}

/// `head`: the first element of an array.
pub open spec fn head_spec(args: Seq<Value>) -> Value {
    if args.len() != 1 {
        arg_count_error("1 argument"@, args.len())
    } else {
        match args[0] {
            Value::Array(a) => if a.len() > 0 { a[0] } else { empty_array_error() },
            v => array_only_error("first()"@, v),
        }
    }
}

/// `last`: the final element of an array.
pub open spec fn last_spec(args: Seq<Value>) -> Value {
    if args.len() != 1 {
        arg_count_error("1 argument"@, args.len())
    } else {
        match args[0] {
            Value::Array(a) => if a.len() > 0 { a.last() } else { empty_array_error() },
            v => array_only_error("last()"@, v),
        }
    }
}

/// `tail`: all elements of an array but the first.
pub open spec fn tail_spec(args: Seq<Value>) -> Value {
    if args.len() != 1 {
        arg_count_error("1 argument"@, args.len())
    } else {
        match args[0] {
            Value::Array(a) => if a.len() > 0 {
                Value::Array(a.subrange(1, a.len() as int))
            } else {
                empty_array_error()
            },
            v => array_only_error("tail()"@, v),
        }
    }
}

/// `push`: a new array, the given one with a value appended.
pub open spec fn push_spec(args: Seq<Value>) -> Value {
    if args.len() != 2 {
        arg_count_error("2 arguments"@, args.len())
    } else {
        match args[0] {
            Value::Array(a) => Value::Array(a.push(args[1])),
            v => Value::Error("argument to `push` must be array. got "@ + kind_name(v)),
        }
    }
}

/// The result of a host function other than printing.
pub open spec fn builtin_spec(f: BuiltinFunc, args: Seq<Value>) -> Value {
    match f {
        BuiltinFunc::Len => len_spec(args),
        BuiltinFunc::Head => head_spec(args),
        BuiltinFunc::Last => last_spec(args),
        BuiltinFunc::Tail => tail_spec(args),
        BuiltinFunc::Push => push_spec(args),
        BuiltinFunc::Print => Value::Nil,
    }
}

/// The host functions every program starts with, by name.
pub fn new_builtins() -> (r: Vec<(String, Object)>)
    ensures
        r@.len() == 5,
        r@[0].0@ == "len"@ && r@[0].1.view() == Value::Builtin(1, BuiltinFunc::Len),
        r@[1].0@ == "head"@ && r@[1].1.view() == Value::Builtin(1, BuiltinFunc::Head),
        r@[2].0@ == "last"@ && r@[2].1.view() == Value::Builtin(1, BuiltinFunc::Last),
        r@[3].0@ == "tail"@ && r@[3].1.view() == Value::Builtin(1, BuiltinFunc::Tail),
        r@[4].0@ == "push"@ && r@[4].1.view() == Value::Builtin(2, BuiltinFunc::Push),
{
    let mut builtins: Vec<(String, Object)> = Vec::new();
    builtins.push(("len".to_owned(), Object::BUILTIN { arity: 1, func: BuiltinFunc::Len }));
    builtins.push(("head".to_owned(), Object::BUILTIN { arity: 1, func: BuiltinFunc::Head }));
    builtins.push(("last".to_owned(), Object::BUILTIN { arity: 1, func: BuiltinFunc::Last }));
    builtins.push(("tail".to_owned(), Object::BUILTIN { arity: 1, func: BuiltinFunc::Tail }));
    builtins.push(("push".to_owned(), Object::BUILTIN { arity: 2, func: BuiltinFunc::Push }));
    builtins
}

fn arg_count_object(expected: &str, n: usize) -> (r: Object)
    ensures
        r.view() == arg_count_error(expected@, n as nat),
{
    let mut m = join3("Expected ", expected, " but received ");
    let d = decimal_text(n as u64);
    m.append(d.as_str());
    Object::ERROR(m)
}

fn count_object(n: usize) -> (r: Object)
    ensures
        r.view() == count_value(n as nat),
{
    if (n as u128) <= (i64::MAX as u128) {
        Object::INTEGER(n as i64)
    } else {
        Object::ERROR("LogicalError: The length does not fit in an integer.".to_owned())
    }
}

fn empty_array_object() -> (r: Object)
    ensures
        r.view() == empty_array_error(),
{
    Object::ERROR("LogicalError: The array has no elements or hasn't been initialized yet.".to_owned())
}

fn array_only_object(name: &str, o: &Object) -> (r: Object)
    ensures
        r.view() == array_only_error(name@, o.view()),
{
    let mut m = join3("SyntaxError: ", name, " function cannot be used for ");
    let t = o.type_name_of();
    m.append(t.as_str());
    m.append(". It can only be used for Array type.");
    Object::ERROR(m)
}

pub fn len(args: Vec<Object>) -> (r: Object)
    ensures
        r.view() == len_spec(views(args@)),
{
    proof { lemma_views(args@); }
    if args.len() != 1 {
        return arg_count_object("1 argument", args.len());
    }
    match &args[0] {
        Object::STRING(s) => {
            let bytes = s.as_str().as_bytes();
            count_object(bytes.len())
        },
        Object::ARRAY(a) => {
            proof { lemma_views(a@); }
            count_object(a.len())
        },
        o => {
            let mut m = "SyntaxError: len() function cannot be used for ".to_owned();
            let t = o.type_name_of();
            m.append(t.as_str());
            Object::ERROR(m)
        },
    }
}

pub fn head(args: Vec<Object>) -> (r: Object)
    ensures
        r.view() == head_spec(views(args@)),
{
    proof { lemma_views(args@); }
    if args.len() != 1 {
        return arg_count_object("1 argument", args.len());
    }
    match &args[0] {
        Object::ARRAY(arr) => {
            proof { lemma_views(arr@); }
            if arr.len() > 0 {
                return copy_object(&arr[0]);
            }
            empty_array_object()
        },
        o => array_only_object("first()", o),
    }
}

pub fn last(args: Vec<Object>) -> (r: Object)
    ensures
        r.view() == last_spec(views(args@)),
{
    proof { lemma_views(args@); }
    if args.len() != 1 {
        return arg_count_object("1 argument", args.len());
    }
    match &args[0] {
        Object::ARRAY(arr) => {
            proof { lemma_views(arr@); }
            if arr.len() > 0 {
                return copy_object(&arr[arr.len() - 1]);
            }
            empty_array_object()
        },
        o => array_only_object("last()", o),
    }
}

pub fn tail(args: Vec<Object>) -> (r: Object)
    ensures
        r.view() == tail_spec(views(args@)),
{
    proof { lemma_views(args@); }
    if args.len() != 1 {
        return arg_count_object("1 argument", args.len());
    }
    match &args[0] {
        Object::ARRAY(arr) => {
            proof { lemma_views(arr@); }
            if arr.len() > 0 {
                return Object::ARRAY(copy_objects(arr, 1));
            }
            empty_array_object()
        },
        o => array_only_object("tail()", o),
    }
}

/// Appends to a copy of the array; the argument itself is left as it was.
pub fn push(args: Vec<Object>) -> (r: Object)
    ensures
        r.view() == push_spec(views(args@)),
{
    proof { lemma_views(args@); }
    if args.len() != 2 {
        return arg_count_object("2 arguments", args.len());
    }
    match &args[0] {
        Object::ARRAY(arr) => {
            let mut new_arr = copy_objects(arr, 0);
            let ghost before = new_arr@;
            new_arr.push(copy_object(&args[1]));
            proof {
                lemma_views(arr@);
                lemma_views(before);
                lemma_views(new_arr@);
                assert(views(arr@).subrange(0, arr@.len() as int) =~= views(arr@));
                assert(views(new_arr@) =~= views(arr@).push(args@[1].view()));
            }
            Object::ARRAY(new_arr)
        },
        o => {
            let mut m = "argument to `push` must be array. got ".to_owned();
            let t = o.type_name_of();
            m.append(t.as_str());
            Object::ERROR(m)
        },
    }
}

} // verus!
