use vstd::prelude::*;
use vstd::string::*;
use std::rc::Rc;
use crate::ast::{BlockOfStatements, Expression, Identifier, Infix, Literal, Prefix, Program, Statement};
use crate::builtins::{head, last, len, push, tail};
use crate::environment::{Environment, Frame};
use crate::object::{copy_object, lemma_views, views, BuiltinFunc, Object, Value};
use crate::semantics::{is_signal, bind_params, call_builtin, arity_error, bind, eval_block, eval_expr, eval_list, eval_program, eval_stmt, apply, index_value, infix_name, infix_value, int_infix, lookup, overflow_error, prefix_value, stops, truthy, Machine};
use crate::text::{decimal_text, join3};

verus! {

/// How deeply function calls may nest, by default, before evaluation stops
/// with an error; `Evaluator::with_call_depth_limit` sets another bound.
pub const MAX_CALL_DEPTH: u64 = 10000;

pub open spec fn opt_view(r: Option<Object>) -> Option<Value> {
    match r {
        Some(o) => Some(o.view()),
        None => None,
    }
}

pub open spec fn res_view(r: Result<Vec<Object>, Object>) -> Result<Seq<Value>, Value> {
    match r {
        Ok(v) => Ok(views(v@)),
        Err(e) => Err(e.view()),
    }
}

proof fn lemma_views_push(s: Seq<Object>, x: Object)
    ensures
        views(s.push(x)) == views(s).push(x.view()),
{
    lemma_views(s);
    lemma_views(s.push(x));
    assert(views(s.push(x)) =~= views(s).push(x.view()));
}

proof fn lemma_views_concat(s: Seq<Object>, t: Seq<Object>)
    ensures
        views(s + t) == views(s) + views(t),
{
    lemma_views(s);
    lemma_views(t);
    lemma_views(s + t);
    assert(views(s + t) =~= views(s) + views(t));
}

fn error_object(a: &str, b: &str, c: &str) -> (r: Object)
    ensures
        r.view() == Value::Error(a@ + b@ + c@),
{
    Object::ERROR(join3(a, b, c))
}

fn error_two(a: &str, b: &str) -> (r: Object)
    ensures
        r.view() == Value::Error(a@ + b@),
{
    let mut m = a.to_owned();
    m.append(b);
    Object::ERROR(m)
}

fn error_one(a: &str) -> (r: Object)
    ensures
        r.view() == Value::Error(a@),
{
    Object::ERROR(a.to_owned())
}

fn infix_text(op: Infix) -> (r: &'static str)
    ensures
        r@ == infix_name(op),
{
    match op {
        Infix::Plus => "Plus",
        Infix::Minus => "Minus",
        Infix::Divide => "Divide",
        Infix::Multiply => "Multiply",
        Infix::Equal => "Equal",
        Infix::NotEqual => "NotEqual",
        Infix::GreaterThanEqual => "GreaterThanEqual",
        Infix::GreaterThan => "GreaterThan",
        Infix::LessThanEqual => "LessThanEqual",
        Infix::LessThan => "LessThan",
    }
}

fn overflow_object(op: &str) -> (r: Object)
    ensures
        r.view() == overflow_error(op@),
{
    error_two("EvaluationError: Integer overflow in ", op)
}

fn int_infix_object(op: Infix, a: i64, b: i64) -> (r: Object)
    ensures
        r.view() == int_infix(op, a, b),
{
    match op {
        Infix::Plus => match a.checked_add(b) {
            Some(v) => Object::INTEGER(v),
            None => overflow_object(infix_text(op)),
        },
        Infix::Minus => match a.checked_sub(b) {
            Some(v) => Object::INTEGER(v),
            None => overflow_object(infix_text(op)),
        },
        Infix::Multiply => match a.checked_mul(b) {
            Some(v) => Object::INTEGER(v),
            None => overflow_object(infix_text(op)),
        },
        Infix::Divide => if b == 0 {
            error_one("EvaluationError: Division by zero")
        } else {
            match a.checked_div(b) {
                Some(v) => Object::INTEGER(v),
                None => overflow_object(infix_text(op)),
            }
        },
        Infix::Equal => Object::BOOL(a == b),
        Infix::NotEqual => Object::BOOL(a != b),
        Infix::GreaterThanEqual => Object::BOOL(a >= b),
        Infix::GreaterThan => Object::BOOL(a > b),
        Infix::LessThanEqual => Object::BOOL(a <= b),
        Infix::LessThan => Object::BOOL(a < b),
    }
}

/// A binary operator applied to two values.
pub fn infix_object(op: Infix, l: Object, r: Object) -> (res: Object)
    ensures
        res.view() == infix_value(op, l.view(), r.view()),
{
    match (&l, &r) {
        (Object::INTEGER(a), Object::INTEGER(b)) => int_infix_object(op, *a, *b),
        (Object::BOOL(a), Object::BOOL(b)) => match op {
            Infix::Equal => Object::BOOL(*a == *b),
            Infix::NotEqual => Object::BOOL(*a != *b),
            _ => error_object("EvaluationError: ", infix_text(op), " Operation not supported between boolean expresions."),
        },
        (Object::STRING(a), Object::STRING(b)) => match op {
            Infix::Plus => {
                let mut s = a.clone();
                s.append(b.as_str());
                Object::STRING(s)
            },
            Infix::Equal => Object::BOOL(*a == *b),
            Infix::NotEqual => Object::BOOL(!(*a == *b)),
            _ => error_object("EvaluationError: ", infix_text(op), " Operation not supported between string objects."),
        },
        _ => {
            let mut m = join3("EvaluationError: ", infix_text(op), " Operation not supported between the two objects ");
            let lt = l.type_name_of();
            let rt = r.type_name_of();
            m.append(lt.as_str());
            m.append(" and ");
            m.append(rt.as_str());
            Object::ERROR(m)
        },
    }
}

/// A unary operator applied to a value.
pub fn prefix_object(op: Prefix, v: Object) -> (r: Object)
    ensures
        r.view() == prefix_value(op, v.view()),
{
    match op {
        Prefix::Plus => Object::NIL,
        Prefix::Not => Object::BOOL(!Evaluator::is_truthy(&v)),
        Prefix::Minus => match v {
            Object::INTEGER(n) => if n == i64::MIN {
                overflow_object("Minus")
            } else {
                Object::INTEGER(-n)
            },
            _ => {
                let t = v.type_name_of();
                error_two("EvaluationError: MINUS operator cannot be used for the type ", t.as_str())
            },
        },
    }
}

/// Indexing of an array by an integer.
pub fn index_object(a: Object, i: Object) -> (r: Object)
    ensures
        r.view() == index_value(a.view(), i.view()),
{
    match &a {
        Object::ARRAY(xs) => {
            proof { lemma_views(xs@); }
            match &i {
                Object::INTEGER(k) => if *k < 0 || (*k as u64) >= (xs.len() as u64) {
                    error_one("EvaluationError: Array index out of bounds")
                } else {
                    copy_object(&xs[*k as usize])
                },
                _ => {
                    let t = i.type_name_of();
                    error_object("EvaluationError: ", t.as_str(), " cannot be used as an array index")
                },
            }
        },
        _ => {
            let t = a.type_name_of();
            error_two("EvaluationError: Cannot index a ", t.as_str())
        },
    }
}

fn arity_object(expected: usize, supplied: usize) -> (r: Object)
    ensures
        r.view() == arity_error(expected as nat, supplied as nat),
{
    let e = decimal_text(expected as u64);
    let s = decimal_text(supplied as u64);
    let mut m = join3("EvaluationError: Expected ", e.as_str(), " arguments, but ");
    m.append(s.as_str());
    m.append(" were supplied.");
    Object::ERROR(m)
}

/// A tree-walking evaluator. Scopes live in an arena and refer to their parent
/// by handle; a function value holds the handle of the scope it was made in.
pub struct Evaluator {
    envs: Vec<Environment>,
    current: usize,
    output: Vec<Object>,
    depth_limit: u64,
}

impl Evaluator {
    pub closed spec fn state(&self) -> Machine {
        Machine {
            frames: Seq::new(self.envs@.len(), |i: int| self.envs@[i].frame()),
            current: self.current as nat,
            printed: views(self.output@),
        }
    }

    pub closed spec fn wf(&self) -> bool {
        self.current < self.envs@.len()
    }

    /// How deeply function calls may nest.
    pub closed spec fn call_depth_limit(&self) -> nat {
        self.depth_limit as nat
    }

    /// A well-formed evaluator's scope in use is one of its scopes.
    pub proof fn lemma_state_valid(&self)
        requires
            self.wf(),
        ensures
            self.state().current < self.state().frames.len(),
    {
    }

    /// An evaluator whose only scope holds the bindings of `env`, with the
    /// default bound on nested calls.
    pub fn new(env: Environment) -> (r: Self)
        ensures
            r.wf(),
            r.call_depth_limit() == MAX_CALL_DEPTH,
            r.state() == (Machine {
                frames: seq![Frame { vars: env.frame().vars, outer: None }],
                current: 0,
                printed: Seq::empty(),
            }),
    {
        Evaluator::with_call_depth_limit(env, MAX_CALL_DEPTH)
    }

    /// An evaluator whose only scope holds the bindings of `env`, and where
    /// calls may nest `limit` deep.
    pub fn with_call_depth_limit(env: Environment, limit: u64) -> (r: Self)
        ensures
            r.wf(),
            r.call_depth_limit() == limit,
            r.state() == (Machine {
                frames: seq![Frame { vars: env.frame().vars, outer: None }],
                current: 0,
                printed: Seq::empty(),
            }),
    {
        let root = env.into_root();
        let mut envs: Vec<Environment> = Vec::new();
        envs.push(root);
        let r = Evaluator { envs, current: 0, output: Vec::new(), depth_limit: limit };
        proof { lemma_views(r.output@); }
        assert(r.state().frames =~= seq![Frame { vars: env.frame().vars, outer: None }]);
        assert(r.state().printed =~= Seq::<Value>::empty());
        r
    }

    /// `false` and nil are falsy; everything else, `0` included, is truthy.
    pub fn is_truthy(obj: &Object) -> (r: bool)
        ensures
            r == truthy(obj.view()),
    {
        match obj {
            Object::BOOL(val) => *val,
            Object::NIL => false,
            _ => true,
        }
    }

    /// An error or a `return` on its way out.
    pub fn is_signal(obj: &Object) -> (r: bool)
        ensures
            r == is_signal(obj.view()),
    {
        match obj {
            Object::ERROR(_) => true,
            Object::RETURN(_) => true,
            _ => false,
        }
    }

    pub fn is_error(obj: &Object) -> (r: bool)
        ensures
            r == obj.view() is Error,
    {
        match obj {
            Object::ERROR(_) => true,
            _ => false,
        }
    }

    /// Hands over the values printed so far, and forgets them.
    pub fn take_output(&mut self) -> (r: Vec<Object>)
        requires
            old(self).wf(),
        ensures
            final(self).wf(),
            final(self).state().current < final(self).state().frames.len(),
            final(self).call_depth_limit() == old(self).call_depth_limit(),
            views(r@) == old(self).state().printed,
            final(self).state() == (Machine { printed: Seq::empty(), ..old(self).state() }),
    {
        let mut out: Vec<Object> = Vec::new();
        std::mem::swap(&mut out, &mut self.output);
        proof { lemma_views(self.output@); }
        assert(self.state().printed =~= Seq::<Value>::empty());
        assert(self.state().frames =~= old(self).state().frames);
        out
    }

    fn lookup(&self, name: &String) -> (r: Option<Object>)
        requires
            self.wf(),
        ensures
            opt_view(r) == lookup(self.state().frames, self.state().current, name@),
    {
        let mut at: usize = self.current;
        loop
            invariant
                self.wf(),
                at < self.envs@.len(),
                lookup(self.state().frames, self.state().current, name@) == lookup(self.state().frames, at as nat, name@),
            decreases at,
        {
            let found = self.envs[at].get(name);
            assert(self.state().frames[at as int] == self.envs@[at as int].frame());
            if found.is_some() {
                return found;
            }
            match self.envs[at].outer() {
                Some(o) => {
                    if o < at {
                        at = o;
                    } else {
                        return None;
                    }
                },
                None => {
                    return None;
                },
            }
        }
    }

    fn bind(&mut self, name: String, v: &Object)
        requires
            old(self).wf(),
        ensures
            final(self).wf(),
            final(self).call_depth_limit() == old(self).call_depth_limit(),
            old(self).envs@.len() <= final(self).envs@.len(),
            final(self).state() == bind(old(self).state(), name@, v.view()),
    {
        let cur = self.current;
        self.envs[cur].set(name, v);
        assert(self.state().frames =~= bind(old(self).state(), name@, v.view()).frames);
    }
}


impl Evaluator {
    /// Evaluates a whole program against the scope in use.
    pub fn evaluate(&mut self, program: Program) -> (r: Option<Object>)
        requires
            old(self).wf(),
        ensures
            final(self).wf(),
            final(self).state().current < final(self).state().frames.len(),
            final(self).call_depth_limit() == old(self).call_depth_limit(),
            (final(self).state(), opt_view(r)) == eval_program(old(self).call_depth_limit(), old(self).state(), program@),
    {
        let r = self.eval_block(&program, self.depth_limit);
        match r {
            Some(Object::RETURN(v)) => Some(*v),
            x => x,
        }
    }

    pub fn evaluate_statement(&mut self, statement: &Statement) -> (r: Option<Object>)
        requires
            old(self).wf(),
        ensures
            final(self).wf(),
            final(self).state().current < final(self).state().frames.len(),
            final(self).call_depth_limit() == old(self).call_depth_limit(),
            (final(self).state(), opt_view(r)) == eval_stmt(old(self).call_depth_limit(), old(self).state(), *statement),
    {
        self.eval_stmt(statement, self.depth_limit)
    }

    pub fn evaluate_expression(&mut self, expression: &Expression) -> (r: Option<Object>)
        requires
            old(self).wf(),
        ensures
            final(self).wf(),
            final(self).state().current < final(self).state().frames.len(),
            final(self).call_depth_limit() == old(self).call_depth_limit(),
            (final(self).state(), opt_view(r)) == eval_expr(old(self).call_depth_limit(), old(self).state(), *expression),
    {
        self.eval_expr(expression, self.depth_limit)
    }

    fn eval_block(&mut self, b: &Vec<Statement>, fuel: u64) -> (r: Option<Object>)
        requires
            old(self).wf(),
        ensures
            final(self).wf(),
            final(self).call_depth_limit() == old(self).call_depth_limit(),
            old(self).envs@.len() <= final(self).envs@.len(),
            (final(self).state(), opt_view(r)) == eval_block(fuel as nat, old(self).state(), b@, 0, None),
        decreases fuel, b@, b@.len(),
    {
        let mut result: Option<Object> = None;
        let mut i: usize = 0;
        while i < b.len()
            invariant
                self.wf(),
                old(self).envs@.len() <= self.envs@.len(),
                self.depth_limit == old(self).depth_limit,
                i <= b@.len(),
                eval_block(fuel as nat, old(self).state(), b@, 0, None) == eval_block(
                    fuel as nat,
                    self.state(),
                    b@,
                    i as int,
                    opt_view(result),
                ),
            decreases b@.len() - i,
        {
            let r = self.eval_stmt(&b[i], fuel);
            let stop = match &r {
                Some(Object::RETURN(_)) => true,
                Some(Object::ERROR(_)) => true,
                _ => false,
            };
            if stop {
                return r;
            }
            result = r;
            i = i + 1;
        }
        result
    }

    fn eval_list(&mut self, es: &Vec<Expression>, fuel: u64) -> (r: Result<Vec<Object>, Object>)
        requires
            old(self).wf(),
        ensures
            final(self).wf(),
            final(self).call_depth_limit() == old(self).call_depth_limit(),
            old(self).envs@.len() <= final(self).envs@.len(),
            (final(self).state(), res_view(r)) == eval_list(fuel as nat, old(self).state(), es@, 0, Seq::empty()),
        decreases fuel, es@, es@.len(),
    {
        let mut out: Vec<Object> = Vec::new();
        let mut i: usize = 0;
        proof {
            lemma_views(out@);
            assert(views(out@) =~= Seq::<Value>::empty());
        }
        while i < es.len()
            invariant
                self.wf(),
                old(self).envs@.len() <= self.envs@.len(),
                self.depth_limit == old(self).depth_limit,
                i <= es@.len(),
                eval_list(fuel as nat, old(self).state(), es@, 0, Seq::empty()) == eval_list(
                    fuel as nat,
                    self.state(),
                    es@,
                    i as int,
                    views(out@),
                ),
            decreases es@.len() - i,
        {
            let r = self.eval_expr(&es[i], fuel);
            match r {
                Some(v) => {
                    if Evaluator::is_signal(&v) {
                        return Err(v);
                    }
                    proof { lemma_views_push(out@, v); }
                    out.push(v);
                },
                None => {
                    proof { lemma_views_push(out@, Object::NIL); }
                    out.push(Object::NIL);
                },
            }
            i = i + 1;
        }
        Ok(out)
    }

    fn eval_stmt(&mut self, s: &Statement, fuel: u64) -> (r: Option<Object>)
        requires
            old(self).wf(),
        ensures
            final(self).wf(),
            final(self).call_depth_limit() == old(self).call_depth_limit(),
            old(self).envs@.len() <= final(self).envs@.len(),
            (final(self).state(), opt_view(r)) == eval_stmt(fuel as nat, old(self).state(), *s),
        decreases fuel, *s, 0int,
    {
        match s {
            Statement::Let { name, value } => {
                let r = self.eval_expr(value, fuel);
                match r {
                    None => None,
                    Some(v) => {
                        if Evaluator::is_signal(&v) {
                            return Some(v);
                        }
                        self.bind(name.literal.clone(), &v);
                        None
                    },
                }
            },
            Statement::Return { return_value } => {
                let r = self.eval_expr(return_value, fuel);
                match r {
                    None => Some(error_one("EvaluationError: Could not evaluate the return expression")),
                    Some(v) => if Evaluator::is_signal(&v) {
                        Some(v)
                    } else {
                        Some(Object::RETURN(Box::new(v)))
                    },
                }
            },
            Statement::Expression { expression } => self.eval_expr(expression, fuel),
        }
    }

    fn apply(
        &mut self,
        params: &Rc<Vec<Identifier>>,
        body: &Rc<BlockOfStatements>,
        env: usize,
        args: Vec<Object>,
        fuel: u64,
    ) -> (r: Object)
        requires
            old(self).wf(),
            (**params)@.len() == args@.len(),
        ensures
            final(self).wf(),
            final(self).call_depth_limit() == old(self).call_depth_limit(),
            old(self).envs@.len() <= final(self).envs@.len(),
            (final(self).state(), r.view()) == apply(
                fuel as nat,
                old(self).state(),
                (**params)@,
                (**body)@,
                env as nat,
                views(args@),
            ),
        decreases fuel, (**body)@, (**body)@.len() + 1,
    {
        let mut scope = Environment::new_with_outer(env);
        let mut i: usize = 0;
        proof { lemma_views(args@); }
        while i < params.len()
            invariant
                i <= params@.len(),
                params@.len() == args@.len(),
                views(args@).len() == args@.len(),
                forall|j: int| 0 <= j < args@.len() ==> #[trigger] views(args@)[j] == args@[j].view(),
                scope.frame() == (Frame { vars: bind_params((**params)@, views(args@), i as int), outer: Some(env as nat) }),
            decreases params@.len() - i,
        {
            scope.set(params[i].literal.clone(), &args[i]);
            i = i + 1;
        }
        let saved = self.current;
        let n = self.envs.len();
        let ghost before = self.state();
        self.envs.push(scope);
        self.current = n;
        assert(self.state().frames =~= before.frames.push(
            Frame { vars: bind_params((**params)@, views(args@), (**params)@.len() as int), outer: Some(env as nat) },
        ));
        let r = self.eval_block(body, fuel);
        self.current = saved;
        match r {
            Some(Object::RETURN(v)) => *v,
            Some(v) => v,
            None => Object::NIL,
        }
    }

    fn call_builtin(&mut self, f: BuiltinFunc, args: Vec<Object>) -> (r: Option<Object>)
        requires
            old(self).wf(),
        ensures
            final(self).wf(),
            final(self).call_depth_limit() == old(self).call_depth_limit(),
            old(self).envs@.len() <= final(self).envs@.len(),
            (final(self).state(), opt_view(r)) == call_builtin(old(self).state(), f, views(args@)),
    {
        match f {
            BuiltinFunc::Len => Some(len(args)),
            BuiltinFunc::Head => Some(head(args)),
            BuiltinFunc::Last => Some(last(args)),
            BuiltinFunc::Tail => Some(tail(args)),
            BuiltinFunc::Push => Some(push(args)),
            BuiltinFunc::Print => {
                let ghost before = self.output@;
                let ghost given = args@;
                let mut args = args;
                self.output.append(&mut args);
                proof { lemma_views_concat(before, given); }
                Some(Object::NIL)
            },
        }
    }
}

impl Evaluator {
    fn eval_expr(&mut self, e: &Expression, fuel: u64) -> (r: Option<Object>)
        requires
            old(self).wf(),
        ensures
            final(self).wf(),
            final(self).call_depth_limit() == old(self).call_depth_limit(),
            old(self).envs@.len() <= final(self).envs@.len(),
            (final(self).state(), opt_view(r)) == eval_expr(fuel as nat, old(self).state(), *e),
        decreases fuel, *e, 0int,
    {
        match e {
            Expression::Identifier(id) => match self.lookup(&id.literal) {
                Some(o) => Some(o),
                None => Some(error_object(
                    "EvaluationError: The identifier ",
                    id.literal.as_str(),
                    " has not been declared yet and hence is illegal.",
                )),
            },
            Expression::Literal(lit) => match lit {
                Literal::Int { value, .. } => Some(Object::INTEGER(*value)),
                Literal::String(s) => Some(Object::STRING(s.clone())),
                Literal::Bool(b) => Some(Object::BOOL(*b)),
                Literal::Array(v) => match self.eval_list(v, fuel) {
                    Ok(vals) => Some(Object::ARRAY(vals)),
                    Err(x) => Some(x),
                },
                Literal::Hash(_) => Some(Object::NIL),
            },
            Expression::Prefix(op, x) => {
                let r = self.eval_expr(x, fuel);
                match r {
                    None => Some(Object::NIL),
                    Some(v) => if Evaluator::is_signal(&v) {
                        Some(v)
                    } else {
                        Some(prefix_object(*op, v))
                    },
                }
            },
            Expression::Infix(op, l, rr) => {
                let a = self.eval_expr(l, fuel);
                match a {
                    None => Some(Object::NIL),
                    Some(av) => {
                        if Evaluator::is_signal(&av) {
                            return Some(av);
                        }
                        let b = self.eval_expr(rr, fuel);
                        match b {
                            None => Some(Object::NIL),
                            Some(bv) => if Evaluator::is_signal(&bv) {
                                Some(bv)
                            } else {
                                Some(infix_object(*op, av, bv))
                            },
                        }
                    },
                }
            },
            Expression::Index(a, i) => {
                let x = self.eval_expr(a, fuel);
                match x {
                    None => None,
                    Some(xv) => {
                        if Evaluator::is_signal(&xv) {
                            return Some(xv);
                        }
                        let y = self.eval_expr(i, fuel);
                        match y {
                            None => None,
                            Some(yv) => if Evaluator::is_signal(&yv) {
                                Some(yv)
                            } else {
                                Some(index_object(xv, yv))
                            },
                        }
                    },
                }
            },
            Expression::If { condition, consequence, alternative } => {
                let c = self.eval_expr(condition, fuel);
                match c {
                    None => Some(error_one("EvaluationError: Could not evaluate the given condition")),
                    Some(cv) => if Evaluator::is_signal(&cv) {
                        Some(cv)
                    } else if Evaluator::is_truthy(&cv) {
                        self.eval_block(consequence, fuel)
                    } else {
                        match alternative {
                            Some(alt) => self.eval_block(alt, fuel),
                            None => None,
                        }
                    },
                }
            },
            Expression::Function { params, body } => Some(Object::FUNCTION(params.clone(), body.clone(), self.current)),
            Expression::Call { func, args } => match args {
                None => Some(error_one("EvaluationError: The call has no argument list")),
                Some(es) => {
                    let vals = match self.eval_list(es, fuel) {
                        Err(x) => {
                            return Some(x);
                        },
                        Ok(vals) => vals,
                    };
                    let c = self.eval_expr(func, fuel);
                    match c {
                        None => Some(Object::NIL),
                        Some(Object::ERROR(msg)) => Some(Object::ERROR(msg)),
                        Some(Object::RETURN(v)) => Some(Object::RETURN(v)),
                        Some(Object::FUNCTION(params, body, env)) => {
                            proof { lemma_views(vals@); }
                            if params.len() != vals.len() {
                                Some(arity_object(params.len(), vals.len()))
                            } else if env >= self.envs.len() {
                                Some(error_one("EvaluationError: The function's environment does not exist"))
                            } else if fuel == 0 {
                                Some(error_one("EvaluationError: Too many nested calls"))
                            } else {
                                Some(self.apply(&params, &body, env, vals, fuel - 1))
                            }
                        },
                        Some(Object::BUILTIN { arity, func: f }) => {
                            proof { lemma_views(vals@); }
                            if arity < 0 || arity as usize == vals.len() {
                                self.call_builtin(f, vals)
                            } else {
                                Some(arity_object(arity as usize, vals.len()))
                            }
                        },
                        Some(v) => {
                            let t = v.type_name_of();
                            Some(error_two("EvaluationError: Expected function instead received ", t.as_str()))
                        },
                    }
                },
            },
        }
    }
}
} // verus!
