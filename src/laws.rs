use vstd::prelude::*;
use crate::ast::{Expression, Identifier, Infix, Statement};
use crate::builtins::push_spec;
use crate::object::{BuiltinFunc, Value};
use crate::semantics::{is_signal, apply, arity_error, bind, call_builtin, eval_block, eval_expr, eval_list, eval_program, eval_stmt, int_infix, lookup, undeclared_error, Machine};
use crate::ast::Literal;
use crate::evaluator::Evaluator;

verus! {

/// Integer arithmetic is the host's: when both operands of `+`, `-`, `*` or `/`
/// evaluate to integers, the result is what `i64`'s own checked operation gives,
/// with no conversion of either operand.
pub proof fn law_integer_arithmetic_is_native(fuel: nat, m: Machine, op: Infix, a: Expression, b: Expression, x: i64, y: i64)
    requires
        op is Plus || op is Minus || op is Multiply || op is Divide,
        eval_expr(fuel, m, a).1 == Some(Value::Integer(x)),
        eval_expr(fuel, eval_expr(fuel, m, a).0, b).1 == Some(Value::Integer(y)),
    ensures
        eval_expr(fuel, m, Expression::Infix(op, Box::new(a), Box::new(b))) == (
            eval_expr(fuel, eval_expr(fuel, m, a).0, b).0,
            Some(int_infix(op, x, y)),
        ),
        op is Plus && x.checked_add(y) is Some ==> int_infix(op, x, y) == Value::Integer(x.checked_add(y)->0),
        op is Minus && x.checked_sub(y) is Some ==> int_infix(op, x, y) == Value::Integer(x.checked_sub(y)->0),
        op is Multiply && x.checked_mul(y) is Some ==> int_infix(op, x, y) == Value::Integer(x.checked_mul(y)->0),
        op is Divide && y != 0 && x.checked_div(y) is Some ==> int_infix(op, x, y) == Value::Integer(x.checked_div(y)->0),
{
}

/// `let x = e; x;` gives the value that `e;` alone gives, whenever `e` gives one.
pub proof fn law_let_then_name(fuel: nat, m: Machine, name: Identifier, use_name: Identifier, e: Expression)
    requires
        m.current < m.frames.len(),
        use_name.literal@ == name.literal@,
        eval_expr(fuel, m, e).1 is Some,
    ensures
        eval_program(
            fuel,
            m,
            seq![Statement::Let { name, value: e }, Statement::Expression { expression: Expression::Identifier(use_name) }],
        ).1 == eval_program(fuel, m, seq![Statement::Expression { expression: e }]).1,
{
    let with_let = seq![Statement::Let { name, value: e }, Statement::Expression { expression: Expression::Identifier(use_name) }];
    let alone = seq![Statement::Expression { expression: e }];
    let (m1, r) = eval_expr(fuel, m, e);
    assert(alone[0] == Statement::Expression { expression: e });
    assert(eval_stmt(fuel, m, alone[0]) == (m1, r));
    assert(eval_block(fuel, m1, alone, 1, r) == (m1, r));
    assert(eval_block(fuel, m, alone, 0, None) == (m1, r));
    assert(with_let[0] == Statement::Let { name, value: e });
    if is_signal(r->0) {
        assert(eval_stmt(fuel, m, with_let[0]) == (m1, r));
        assert(eval_block(fuel, m, with_let, 0, None) == (m1, r));
    } else {
        let v = r->0;
        let mb = bind(m1, name.literal@, v);
        lemma_expr_keeps_scope(fuel, m, e);
        assert(eval_stmt(fuel, m, with_let[0]) == (mb, None::<Value>));
        assert(mb.frames[mb.current as int].vars.contains_key(name.literal@));
        assert(lookup(mb.frames, mb.current, use_name.literal@) == Some(v));
        assert(with_let[1] == Statement::Expression { expression: Expression::Identifier(use_name) });
        assert(eval_stmt(fuel, mb, with_let[1]) == (mb, Some(v)));
        assert(eval_block(fuel, mb, with_let, 2, Some(v)) == (mb, Some(v)));
        assert(eval_block(fuel, mb, with_let, 1, None) == (mb, Some(v)));
        assert(eval_block(fuel, m, with_let, 0, None) == (mb, Some(v)));
    }
}

/// A name bound in no scope of the chain evaluates to an error, and the error's
/// message holds the name.
pub proof fn law_undeclared_identifier(fuel: nat, m: Machine, id: Identifier)
    requires
        lookup(m.frames, m.current, id.literal@) is None,
    ensures
        eval_expr(fuel, m, Expression::Identifier(id)) == (m, Some(undeclared_error(id.literal@))),
        undeclared_error(id.literal@) matches Value::Error(msg) && msg.subrange(
            "EvaluationError: The identifier "@.len() as int,
            ("EvaluationError: The identifier "@.len() + id.literal@.len()) as int,
        ) == id.literal@,
{
    let pre = "EvaluationError: The identifier "@;
    let post = " has not been declared yet and hence is illegal."@;
    let msg = pre + id.literal@ + post;
    assert(msg.subrange(pre.len() as int, (pre.len() + id.literal@.len()) as int) =~= id.literal@);
}

/// Calling a function with a number of arguments other than its number of
/// parameters evaluates to an error that states both numbers.
pub proof fn law_arity_mismatch(
    fuel: nat,
    m: Machine,
    func: Box<Expression>,
    args: Vec<Expression>,
    vals: Seq<Value>,
    params: Seq<Identifier>,
    body: Seq<Statement>,
    env: nat,
)
    requires
        eval_list(fuel, m, args@, 0, Seq::empty()).1 == Ok::<Seq<Value>, Value>(vals),
        eval_expr(fuel, eval_list(fuel, m, args@, 0, Seq::empty()).0, *func).1 == Some(
            Value::Function(params, body, env),
        ),
        params.len() != vals.len(),
    ensures
        eval_expr(fuel, m, (Expression::Call { func, args: Some(args) })) == (
            eval_expr(fuel, eval_list(fuel, m, args@, 0, Seq::empty()).0, *func).0,
            Some(arity_error(params.len(), vals.len())),
        ),
{
}

/// `push(arr, v)` leaves `arr` as it was: the call changes no scope, so `head(arr)`
/// gives after it what it gave before, and the call's value is a new array.
pub proof fn law_push_keeps_its_argument(
    fuel: nat,
    m: Machine,
    push_call: Expression,
    head_call: Expression,
    arr: Identifier,
    v: Expression,
    items: Seq<Value>,
    pushed: Value,
)
    requires
        m.current < m.frames.len(),
        push_call matches Expression::Call { func, args: Some(es) } && *func matches Expression::Identifier(p)
            && p.literal@ == "push"@ && es@ == seq![Expression::Identifier(arr), v],
        lookup(m.frames, m.current, "push"@) == Some(Value::Builtin(2, BuiltinFunc::Push)),
        lookup(m.frames, m.current, arr.literal@) == Some(Value::Array(items)),
        eval_expr(fuel, m, v) == (m, Some(pushed)),
        !is_signal(pushed),
    ensures
        eval_expr(fuel, m, push_call) == (m, Some(Value::Array(items.push(pushed)))),
        eval_expr(fuel, eval_expr(fuel, m, push_call).0, head_call) == eval_expr(fuel, m, head_call),
{
    let es = push_call->Call_args->0@;
    let first = Expression::Identifier(arr);
    assert(es[0] == first);
    assert(es[1] == v);
    assert(eval_expr(fuel, m, first) == (m, Some(Value::Array(items))));
    let acc1 = Seq::<Value>::empty().push(Value::Array(items));
    let acc2 = acc1.push(pushed);
    assert(eval_list(fuel, m, es, 2, acc2) == (m, Ok::<Seq<Value>, Value>(acc2)));
    assert(eval_list(fuel, m, es, 1, acc1) == (m, Ok::<Seq<Value>, Value>(acc2)));
    assert(eval_list(fuel, m, es, 0, Seq::empty()) == (m, Ok::<Seq<Value>, Value>(acc2)));
    assert(acc2 =~= seq![Value::Array(items), pushed]);
    assert(push_spec(acc2) == Value::Array(items.push(pushed)));
    let f = *push_call->Call_func;
    assert(eval_expr(fuel, m, f) == (m, Some(Value::Builtin(2, BuiltinFunc::Push))));
    assert(acc2.len() == 2);
    assert(call_builtin(m, BuiltinFunc::Push, acc2) == (m, Some(Value::Array(items.push(pushed)))));
}

/// For an evaluator: the program `let x = e; x;` gives what the program `e;`
/// gives, whenever that is a value.
pub proof fn law_let_then_name_in(ev: &Evaluator, name: Identifier, use_name: Identifier, e: Expression)
    requires
        ev.wf(),
        use_name.literal@ == name.literal@,
        eval_program(ev.call_depth_limit(), ev.state(), seq![Statement::Expression { expression: e }]).1 is Some,
    ensures
        eval_program(
            ev.call_depth_limit(),
            ev.state(),
            seq![Statement::Let { name, value: e }, Statement::Expression { expression: Expression::Identifier(use_name) }],
        ).1 == eval_program(ev.call_depth_limit(), ev.state(), seq![Statement::Expression { expression: e }]).1,
{
    ev.lemma_state_valid();
    let fuel = ev.call_depth_limit();
    let m = ev.state();
    let alone = seq![Statement::Expression { expression: e }];
    let (m1, r) = eval_expr(fuel, m, e);
    assert(alone[0] == Statement::Expression { expression: e });
    assert(eval_stmt(fuel, m, alone[0]) == (m1, r));
    if r is None {
        assert(eval_block(fuel, m1, alone, 1, r) == (m1, r));
        assert(eval_block(fuel, m, alone, 0, None) == (m1, r));
    }
    law_let_then_name(fuel, m, name, use_name, e);
}

/// For an evaluator: running the program `push(arr, v);` leaves every scope as
/// it was, so the program `head(arr);` gives after it what it gave before, and
/// the push gives a new array.
pub proof fn law_push_keeps_its_argument_in(
    ev: &Evaluator,
    push_call: Expression,
    head_call: Expression,
    arr: Identifier,
    v: Expression,
    items: Seq<Value>,
    pushed: Value,
)
    requires
        ev.wf(),
        push_call matches Expression::Call { func, args: Some(es) } && *func matches Expression::Identifier(p)
            && p.literal@ == "push"@ && es@ == seq![Expression::Identifier(arr), v],
        lookup(ev.state().frames, ev.state().current, "push"@) == Some(Value::Builtin(2, BuiltinFunc::Push)),
        lookup(ev.state().frames, ev.state().current, arr.literal@) == Some(Value::Array(items)),
        eval_expr(ev.call_depth_limit(), ev.state(), v) == (ev.state(), Some(pushed)),
        !is_signal(pushed),
    ensures
        eval_program(ev.call_depth_limit(), ev.state(), seq![Statement::Expression { expression: push_call }]) == (
            ev.state(),
            Some(Value::Array(items.push(pushed))),
        ),
        eval_program(
            ev.call_depth_limit(),
            eval_program(ev.call_depth_limit(), ev.state(), seq![Statement::Expression { expression: push_call }]).0,
            seq![Statement::Expression { expression: head_call }],
        ) == eval_program(ev.call_depth_limit(), ev.state(), seq![Statement::Expression { expression: head_call }]),
{
    ev.lemma_state_valid();
    let fuel = ev.call_depth_limit();
    let m = ev.state();
    law_push_keeps_its_argument(fuel, m, push_call, head_call, arr, v, items, pushed);
    let prog = seq![Statement::Expression { expression: push_call }];
    let res = Some(Value::Array(items.push(pushed)));
    assert(prog[0] == Statement::Expression { expression: push_call });
    assert(eval_stmt(fuel, m, prog[0]) == (m, res));
    assert(eval_block(fuel, m, prog, 1, res) == (m, res));
    assert(eval_block(fuel, m, prog, 0, None) == (m, res));
}

/// `after` keeps the scope in use and every scope of `before`'s count.
pub open spec fn keeps_scope(before: Machine, after: Machine) -> bool {
    after.current == before.current && after.frames.len() >= before.frames.len()
}

pub proof fn lemma_expr_keeps_scope(fuel: nat, m: Machine, e: Expression)
    requires
        m.current < m.frames.len(),
    ensures
        keeps_scope(m, eval_expr(fuel, m, e).0),
    decreases fuel, e, 0int,
{
    match e {
        Expression::Literal(lit) => match lit {
            Literal::Array(v) => lemma_list_keeps_scope(fuel, m, v@, 0, Seq::empty()),
            _ => {},
        },
        Expression::Prefix(op, x) => lemma_expr_keeps_scope(fuel, m, *x),
        Expression::Infix(op, l, rr) => {
            lemma_expr_keeps_scope(fuel, m, *l);
            lemma_expr_keeps_scope(fuel, eval_expr(fuel, m, *l).0, *rr);
        },
        Expression::Index(a, i) => {
            lemma_expr_keeps_scope(fuel, m, *a);
            lemma_expr_keeps_scope(fuel, eval_expr(fuel, m, *a).0, *i);
        },
        Expression::If { condition, consequence, alternative } => {
            lemma_expr_keeps_scope(fuel, m, *condition);
            let m1 = eval_expr(fuel, m, *condition).0;
            lemma_block_keeps_scope(fuel, m1, consequence@, 0, None);
            match alternative {
                Some(alt) => lemma_block_keeps_scope(fuel, m1, alt@, 0, None),
                None => {},
            }
        },
        Expression::Call { func, args } => match args {
            None => {},
            Some(es) => {
                lemma_list_keeps_scope(fuel, m, es@, 0, Seq::empty());
                let (m1, r) = eval_list(fuel, m, es@, 0, Seq::empty());
                lemma_expr_keeps_scope(fuel, m1, *func);
                let (m2, c) = eval_expr(fuel, m1, *func);
                match (r, c) {
                    (Ok(vals), Some(Value::Function(params, body, env))) => if fuel > 0 {
                        lemma_apply_keeps_scope((fuel - 1) as nat, m2, params, body, env, vals);
                    },
                    _ => {},
                }
            },
        },
        _ => {},
    }
}

pub proof fn lemma_stmt_keeps_scope(fuel: nat, m: Machine, s: Statement)
    requires
        m.current < m.frames.len(),
    ensures
        keeps_scope(m, eval_stmt(fuel, m, s).0),
    decreases fuel, s, 0int,
{
    match s {
        Statement::Let { name, value } => {
            lemma_expr_keeps_scope(fuel, m, value);
            let (m1, r) = eval_expr(fuel, m, value);
            if r is Some {
                assert(bind(m1, name.literal@, r->0).frames.len() == m1.frames.len());
            }
        },
        Statement::Return { return_value } => lemma_expr_keeps_scope(fuel, m, return_value),
        Statement::Expression { expression } => lemma_expr_keeps_scope(fuel, m, expression),
    }
}

pub proof fn lemma_block_keeps_scope(fuel: nat, m: Machine, b: Seq<Statement>, i: int, last: Option<Value>)
    requires
        m.current < m.frames.len(),
    ensures
        keeps_scope(m, eval_block(fuel, m, b, i, last).0),
    decreases fuel, b, b.len() - i,
{
    if 0 <= i < b.len() {
        lemma_stmt_keeps_scope(fuel, m, b[i]);
        let (m1, r) = eval_stmt(fuel, m, b[i]);
        lemma_block_keeps_scope(fuel, m1, b, i + 1, r);
    }
}

pub proof fn lemma_list_keeps_scope(fuel: nat, m: Machine, es: Seq<Expression>, i: int, acc: Seq<Value>)
    requires
        m.current < m.frames.len(),
    ensures
        keeps_scope(m, eval_list(fuel, m, es, i, acc).0),
    decreases fuel, es, es.len() - i,
{
    if 0 <= i < es.len() {
        lemma_expr_keeps_scope(fuel, m, es[i]);
        let (m1, r) = eval_expr(fuel, m, es[i]);
        match r {
            Some(Value::Error(_)) => {},
            Some(v) => lemma_list_keeps_scope(fuel, m1, es, i + 1, acc.push(v)),
            None => lemma_list_keeps_scope(fuel, m1, es, i + 1, acc.push(Value::Nil)),
        }
    }
}

pub proof fn lemma_apply_keeps_scope(fuel: nat, m: Machine, params: Seq<Identifier>, body: Seq<Statement>, env: nat, args: Seq<Value>)
    requires
        m.current < m.frames.len(),
    ensures
        keeps_scope(m, apply(fuel, m, params, body, env, args).0),
    decreases fuel, body, body.len() + 1,
{
    let frame = crate::environment::Frame { vars: crate::semantics::bind_params(params, args, params.len() as int), outer: Some(env) };
    let m1 = Machine { frames: m.frames.push(frame), current: m.frames.len(), printed: m.printed };
    lemma_block_keeps_scope(fuel, m1, body, 0, None);
}
} // verus!
