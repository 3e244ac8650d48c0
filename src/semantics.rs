use vstd::prelude::*;
use crate::ast::{Expression, Identifier, Infix, Literal, Prefix, Statement};
use crate::builtins::builtin_spec;
use crate::environment::Frame;
use crate::object::{kind_name, BuiltinFunc, Value};
use crate::text::decimal_chars;

verus! {

/// The model of an evaluator: its scopes, the handle of the scope in use, and
/// the values handed to the print function so far.
pub struct Machine {
    pub frames: Seq<Frame>,
    pub current: nat,
    pub printed: Seq<Value>,
}

/// `false` and nil are falsy; every other value is truthy.
pub open spec fn truthy(v: Value) -> bool {
    !(v == Value::Bool(false) || v is Nil)
}

/// An error or a `return` on its way out: it ends every evaluation it reaches,
/// and is never stored.
pub open spec fn is_signal(v: Value) -> bool {
    v is Return || v is Error
}

/// Whether a statement's result ends the block it stands in.
pub open spec fn stops(r: Option<Value>) -> bool {
    r matches Some(v) && is_signal(v)
}

pub open spec fn infix_name(op: Infix) -> Seq<char> {
    match op {
        Infix::Plus => "Plus"@,
        Infix::Minus => "Minus"@,
        Infix::Divide => "Divide"@,
        Infix::Multiply => "Multiply"@,
        Infix::Equal => "Equal"@,
        Infix::NotEqual => "NotEqual"@,
        Infix::GreaterThanEqual => "GreaterThanEqual"@,
        Infix::GreaterThan => "GreaterThan"@,
        Infix::LessThanEqual => "LessThanEqual"@,
        Infix::LessThan => "LessThan"@,
    }
}

pub open spec fn overflow_error(op: Seq<char>) -> Value {
    Value::Error("EvaluationError: Integer overflow in "@ + op)
}

pub open spec fn division_by_zero_error() -> Value {
    Value::Error("EvaluationError: Division by zero"@)
}

/// An operator on two integers: arithmetic as `i64`'s checked operations do it,
/// an error where they give none.
pub open spec fn int_infix(op: Infix, a: i64, b: i64) -> Value {
    match op {
        Infix::Plus => match a.checked_add(b) {
            Some(v) => Value::Integer(v),
            None => overflow_error(infix_name(op)),
        },
        Infix::Minus => match a.checked_sub(b) {
            Some(v) => Value::Integer(v),
            None => overflow_error(infix_name(op)),
        },
        Infix::Multiply => match a.checked_mul(b) {
            Some(v) => Value::Integer(v),
            None => overflow_error(infix_name(op)),
        },
        Infix::Divide => if b == 0 {
            division_by_zero_error()
        } else {
            match a.checked_div(b) {
                Some(v) => Value::Integer(v),
                None => overflow_error(infix_name(op)),
            }
        },
        Infix::Equal => Value::Bool(a == b),
        Infix::NotEqual => Value::Bool(a != b),
        Infix::GreaterThanEqual => Value::Bool(a >= b),
        Infix::GreaterThan => Value::Bool(a > b),
        Infix::LessThanEqual => Value::Bool(a <= b),
        Infix::LessThan => Value::Bool(a < b),
    }
}

pub open spec fn mismatch_error(op: Infix, l: Value, r: Value) -> Value {
    Value::Error("EvaluationError: "@ + infix_name(op) + " Operation not supported between the two objects "@
        + kind_name(l) + " and "@ + kind_name(r))
}

/// A binary operator applied to two values.
pub open spec fn infix_value(op: Infix, l: Value, r: Value) -> Value {
    match (l, r) {
        (Value::Integer(a), Value::Integer(b)) => int_infix(op, a, b),
        (Value::Bool(a), Value::Bool(b)) => match op {
            Infix::Equal => Value::Bool(a == b),
            Infix::NotEqual => Value::Bool(a != b),
            _ => Value::Error("EvaluationError: "@ + infix_name(op)
                + " Operation not supported between boolean expresions."@),
        },
        (Value::Str(a), Value::Str(b)) => match op {
            Infix::Plus => Value::Str(a + b),
            Infix::Equal => Value::Bool(a == b),
            Infix::NotEqual => Value::Bool(a != b),
            _ => Value::Error("EvaluationError: "@ + infix_name(op)
                + " Operation not supported between string objects."@),
        },
        _ => mismatch_error(op, l, r),
    }
}

/// A unary operator applied to a value; unary `+` gives nil.
pub open spec fn prefix_value(op: Prefix, v: Value) -> Value {
    match op {
        Prefix::Plus => Value::Nil,
        Prefix::Not => Value::Bool(!truthy(v)),
        Prefix::Minus => match v {
            Value::Integer(n) => if n == i64::MIN {
                overflow_error("Minus"@)
            } else {
                Value::Integer((-n) as i64)
            },
            _ => Value::Error("EvaluationError: MINUS operator cannot be used for the type "@ + kind_name(v)),
        },
    }
}

/// Indexing: only an array, only by an integer within its bounds.
pub open spec fn index_value(a: Value, i: Value) -> Value {
    match a {
        Value::Array(xs) => match i {
            Value::Integer(k) => if k < 0 || k >= xs.len() {
                Value::Error("EvaluationError: Array index out of bounds"@)
            } else {
                xs[k as int]
            },
            _ => Value::Error("EvaluationError: "@ + kind_name(i) + " cannot be used as an array index"@),
        },
        _ => Value::Error("EvaluationError: Cannot index a "@ + kind_name(a)),
    }
}

pub open spec fn undeclared_error(name: Seq<char>) -> Value {
    Value::Error("EvaluationError: The identifier "@ + name + " has not been declared yet and hence is illegal."@)
}

pub open spec fn arity_error(expected: nat, supplied: nat) -> Value {
    Value::Error("EvaluationError: Expected "@ + decimal_chars(expected) + " arguments, but "@
        + decimal_chars(supplied) + " were supplied."@)
}

pub open spec fn depth_error() -> Value {
    Value::Error("EvaluationError: Too many nested calls"@)
}

pub open spec fn missing_env_error() -> Value {
    Value::Error("EvaluationError: The function's environment does not exist"@)
}

pub open spec fn no_args_error() -> Value {
    Value::Error("EvaluationError: The call has no argument list"@)
}

pub open spec fn no_return_value_error() -> Value {
    Value::Error("EvaluationError: Could not evaluate the return expression"@)
}

pub open spec fn no_condition_error() -> Value {
    Value::Error("EvaluationError: Could not evaluate the given condition"@)
}

pub open spec fn not_callable_error(v: Value) -> Value {
    Value::Error("EvaluationError: Expected function instead received "@ + kind_name(v))
}

/// Looks `name` up in scope `at`, then outward through enclosing scopes.
pub open spec fn lookup(frames: Seq<Frame>, at: nat, name: Seq<char>) -> Option<Value>
    decreases at,
{
    if at >= frames.len() {
        None
    } else if frames[at as int].vars.contains_key(name) {
        Some(frames[at as int].vars[name])
    } else {
        match frames[at as int].outer {
            Some(o) => if o < at { lookup(frames, o, name) } else { None },
            None => None,
        }
    }
}

/// Binds a name in the scope in use, and nowhere else.
pub open spec fn bind(m: Machine, name: Seq<char>, v: Value) -> Machine {
    let f = m.frames[m.current as int];
    Machine {
        frames: m.frames.update(m.current as int, Frame { vars: f.vars.insert(name, v), outer: f.outer }),
        current: m.current,
        printed: m.printed,
    }
}

/// The first `n` parameters bound to the first `n` arguments, left to right.
pub open spec fn bind_params(params: Seq<Identifier>, args: Seq<Value>, n: int) -> Map<Seq<char>, Value>
    decreases n,
{
    if n <= 0 || n > params.len() || n > args.len() {
        Map::empty()
    } else {
        bind_params(params, args, n - 1).insert(params[n - 1].literal@, args[n - 1])
    }
}

/// A host function called with evaluated arguments.
pub open spec fn call_builtin(m: Machine, f: BuiltinFunc, args: Seq<Value>) -> (Machine, Option<Value>) {
    if f == BuiltinFunc::Print {
        (Machine { frames: m.frames, current: m.current, printed: m.printed + args }, Some(Value::Nil))
    } else {
        (m, Some(builtin_spec(f, args)))
    }
}

/// What a call's result is, given what its body produced.
pub open spec fn call_result(r: Option<Value>) -> Value {
    match r {
        Some(Value::Return(v)) => *v,
        Some(v) => v,
        None => Value::Nil,
    }
}

/// Runs a function body in a fresh scope whose parent is the function's own
/// scope, then returns to the scope in use before.
pub open spec fn apply(fuel: nat, m: Machine, params: Seq<Identifier>, body: Seq<Statement>, env: nat, args: Seq<Value>) -> (Machine, Value)
    decreases fuel, body, body.len() + 1,
{
    let frame = Frame { vars: bind_params(params, args, params.len() as int), outer: Some(env) };
    let m1 = Machine { frames: m.frames.push(frame), current: m.frames.len(), printed: m.printed };
    let (m2, r) = eval_block(fuel, m1, body, 0, None);
    (Machine { frames: m2.frames, current: m.current, printed: m2.printed }, call_result(r))
}

/// Evaluates `b[i..]`; `last` is what the statement before produced.
pub open spec fn eval_block(fuel: nat, m: Machine, b: Seq<Statement>, i: int, last: Option<Value>) -> (Machine, Option<Value>)
    decreases fuel, b, b.len() - i,
{
    if i < 0 || i >= b.len() {
        (m, last)
    } else {
        let (m1, r) = eval_stmt(fuel, m, b[i]);
        if stops(r) {
            (m1, r)
        } else {
            eval_block(fuel, m1, b, i + 1, r)
        }
    }
}

/// Evaluates `es[i..]` left to right, appending to `acc`; a missing value
/// becomes nil, and the first error or `return` ends the list.
pub open spec fn eval_list(fuel: nat, m: Machine, es: Seq<Expression>, i: int, acc: Seq<Value>) -> (Machine, Result<Seq<Value>, Value>)
    decreases fuel, es, es.len() - i,
{
    if i < 0 || i >= es.len() {
        (m, Ok(acc))
    } else {
        let (m1, r) = eval_expr(fuel, m, es[i]);
        match r {
            Some(v) => if is_signal(v) {
                (m1, Err(v))
            } else {
                eval_list(fuel, m1, es, i + 1, acc.push(v))
            },
            None => eval_list(fuel, m1, es, i + 1, acc.push(Value::Nil)),
        }
    }
}

pub open spec fn eval_stmt(fuel: nat, m: Machine, s: Statement) -> (Machine, Option<Value>)
    decreases fuel, s, 0int,
{
    match s {
        Statement::Let { name, value } => {
            let (m1, r) = eval_expr(fuel, m, value);
            match r {
                None => (m1, None),
                Some(v) => if is_signal(v) { (m1, Some(v)) } else { (bind(m1, name.literal@, v), None) },
            }
        },
        Statement::Return { return_value } => {
            let (m1, r) = eval_expr(fuel, m, return_value);
            match r {
                None => (m1, Some(no_return_value_error())),
                Some(v) => if is_signal(v) { (m1, Some(v)) } else { (m1, Some(Value::Return(Box::new(v)))) },
            }
        },
        Statement::Expression { expression } => eval_expr(fuel, m, expression),
    }
}

/// What evaluating an expression does: the new machine, and the value, if any.
/// `fuel` bounds how deeply function calls may nest.
pub open spec fn eval_expr(fuel: nat, m: Machine, e: Expression) -> (Machine, Option<Value>)
    decreases fuel, e, 0int,
{
    match e {
        Expression::Identifier(id) => (m, Some(match lookup(m.frames, m.current, id.literal@) {
            Some(v) => v,
            None => undeclared_error(id.literal@),
        })),
        Expression::Literal(lit) => match lit {
            Literal::Int { value, .. } => (m, Some(Value::Integer(value))),
            Literal::String(s) => (m, Some(Value::Str(s@))),
            Literal::Bool(b) => (m, Some(Value::Bool(b))),
            Literal::Array(v) => {
                let (m1, r) = eval_list(fuel, m, v@, 0, Seq::empty());
                (m1, Some(match r {
                    Ok(vals) => Value::Array(vals),
                    Err(x) => x,
                }))
            },
            Literal::Hash(_) => (m, Some(Value::Nil)),
        },
        Expression::Prefix(op, x) => {
            let (m1, r) = eval_expr(fuel, m, *x);
            (m1, Some(match r {
                None => Value::Nil,
                Some(v) => if is_signal(v) { v } else { prefix_value(op, v) },
            }))
        },
        Expression::Infix(op, l, rr) => {
            let (m1, a) = eval_expr(fuel, m, *l);
            match a {
                None => (m1, Some(Value::Nil)),
                Some(av) => if is_signal(av) {
                    (m1, Some(av))
                } else {
                    let (m2, b) = eval_expr(fuel, m1, *rr);
                    (m2, Some(match b {
                        None => Value::Nil,
                        Some(bv) => if is_signal(bv) { bv } else { infix_value(op, av, bv) },
                    }))
                },
            }
        },
        Expression::Index(a, i) => {
            let (m1, x) = eval_expr(fuel, m, *a);
            match x {
                None => (m1, None),
                Some(xv) => if is_signal(xv) {
                    (m1, Some(xv))
                } else {
                    let (m2, y) = eval_expr(fuel, m1, *i);
                    match y {
                        None => (m2, None),
                        Some(yv) => if is_signal(yv) { (m2, Some(yv)) } else { (m2, Some(index_value(xv, yv))) },
                    }
                },
            }
        },
        Expression::If { condition, consequence, alternative } => {
            let (m1, c) = eval_expr(fuel, m, *condition);
            match c {
                None => (m1, Some(no_condition_error())),
                Some(cv) => if is_signal(cv) {
                    (m1, Some(cv))
                } else if truthy(cv) {
                    eval_block(fuel, m1, consequence@, 0, None)
                } else {
                    match alternative {
                        Some(alt) => eval_block(fuel, m1, alt@, 0, None),
                        None => (m1, None),
                    }
                },
            }
        },
        Expression::Function { params, body } => (m, Some(Value::Function((*params)@, (*body)@, m.current))),
        Expression::Call { func, args } => match args {
            None => (m, Some(no_args_error())),
            Some(es) => {
                let (m1, r) = eval_list(fuel, m, es@, 0, Seq::empty());
                match r {
                    Err(x) => (m1, Some(x)),
                    Ok(vals) => {
                        let (m2, c) = eval_expr(fuel, m1, *func);
                        match c {
                            None => (m2, Some(Value::Nil)),
                            Some(Value::Error(msg)) => (m2, Some(Value::Error(msg))),
                            Some(Value::Return(v)) => (m2, Some(Value::Return(v))),
                            Some(Value::Function(params, body, env)) => if params.len() != vals.len() {
                                (m2, Some(arity_error(params.len(), vals.len())))
                            } else if env >= m2.frames.len() {
                                (m2, Some(missing_env_error()))
                            } else if fuel == 0 {
                                (m2, Some(depth_error()))
                            } else {
                                let (m3, v) = apply((fuel - 1) as nat, m2, params, body, env, vals);
                                (m3, Some(v))
                            },
                            Some(Value::Builtin(arity, f)) => if arity < 0 || arity as int == vals.len() {
                                call_builtin(m2, f, vals)
                            } else {
                                (m2, Some(arity_error(arity as nat, vals.len())))
                            },
                            Some(v) => (m2, Some(not_callable_error(v))),
                        }
                    },
                }
            },
        },
    }
}

/// A whole program: its statements as a block, with a `return` at the top level
/// giving its value.
pub open spec fn eval_program(fuel: nat, m: Machine, p: Seq<Statement>) -> (Machine, Option<Value>) {
    let (m1, r) = eval_block(fuel, m, p, 0, None);
    (m1, match r {
        Some(Value::Return(v)) => Some(*v),
        x => x,
    })
}

} // verus!
