use vstd::prelude::*;
use vstd::string::*;
use crate::ast::{BlockOfStatements, Expression, Identifier, Infix, Literal, Prefix, Program, Statement};
use crate::text::{decimal_chars, decimal_text};
use crate::object::{lemma_views, views, BuiltinFunc, Object, Value};
use vstd::std_specs::vec::axiom_vec_index_decreases;

verus! {

pub open spec fn int_chars(v: i64) -> Seq<char> {
    if v < 0 {
        seq!['-'] + decimal_chars((0 - v) as nat)
    } else {
        decimal_chars(v as nat)
    }
}

pub open spec fn prefix_symbol(op: Prefix) -> Seq<char> {
    match op {
        Prefix::Plus => "+"@,
        Prefix::Minus => "-"@,
        Prefix::Not => "!"@,
    }
}

pub open spec fn infix_symbol(op: Infix) -> Seq<char> {
    match op {
        Infix::Plus => "+"@,
        Infix::Minus => "-"@,
        Infix::Divide => "/"@,
        Infix::Multiply => "*"@,
        Infix::Equal => "=="@,
        Infix::NotEqual => "!="@,
        Infix::GreaterThanEqual => ">="@,
        Infix::GreaterThan => ">"@,
        Infix::LessThanEqual => "<="@,
        Infix::LessThan => "<"@,
    }
}

/// The source text of an expression, every operator application in parentheses.
pub open spec fn expr_text(e: Expression) -> Seq<char>
    decreases e, 0int,
{
    match e {
        Expression::Identifier(id) => id.literal@,
        Expression::Literal(lit) => match lit {
            Literal::Int { value, .. } => int_chars(value),
            Literal::String(s) => "\""@ + s@ + "\""@,
            Literal::Bool(b) => if b { "true"@ } else { "false"@ },
            Literal::Array(v) => "["@ + list_text(v@, v@.len() as int) + "]"@,
            Literal::Hash(_) => "{}"@,
        },
        Expression::Prefix(op, x) => "("@ + prefix_symbol(op) + expr_text(*x) + ")"@,
        Expression::Infix(op, l, r) => "("@ + expr_text(*l) + " "@ + infix_symbol(op) + " "@ + expr_text(*r) + ")"@,
        Expression::Index(a, i) => "("@ + expr_text(*a) + "["@ + expr_text(*i) + "])"@,
        Expression::If { condition, consequence, alternative } => "if "@ + expr_text(*condition) + " "@
            + block_text(consequence@) + match alternative {
            Some(alt) => " else "@ + block_text(alt@),
            None => Seq::empty(),
        },
        Expression::Function { params, body } => "func("@ + params_text((*params)@, (*params)@.len() as int) + ") "@
            + block_text((*body)@),
        Expression::Call { func, args } => expr_text(*func) + "("@ + match args {
            Some(a) => list_text(a@, a@.len() as int),
            None => Seq::empty(),
        } + ")"@,
    }
}

/// The first `n` expressions of `es`, separated by commas.
pub open spec fn list_text(es: Seq<Expression>, n: int) -> Seq<char>
    decreases es, n,
{
    if n <= 0 || n > es.len() {
        Seq::empty()
    } else if n == 1 {
        expr_text(es[0])
    } else {
        list_text(es, n - 1) + ", "@ + expr_text(es[n - 1])
    }
}

pub open spec fn params_text(ps: Seq<Identifier>, n: int) -> Seq<char>
    decreases n,
{
    if n <= 0 || n > ps.len() {
        Seq::empty()
    } else if n == 1 {
        ps[0].literal@
    } else {
        params_text(ps, n - 1) + ", "@ + ps[n - 1].literal@
    }
}

pub open spec fn block_text(b: Seq<Statement>) -> Seq<char>
    decreases b, b.len() + 1,
{
    "{"@ + stmts_text(b, b.len() as int) + " }"@
}

/// The first `n` statements of `b`, each after a space.
pub open spec fn stmts_text(b: Seq<Statement>, n: int) -> Seq<char>
    decreases b, n,
{
    if n <= 0 || n > b.len() {
        Seq::empty()
    } else {
        stmts_text(b, n - 1) + " "@ + stmt_text(b[n - 1])
    }
}

pub open spec fn stmt_text(s: Statement) -> Seq<char>
    decreases s, 0int,
{
    match s {
        Statement::Let { name, value } => "let "@ + name.literal@ + " = "@ + expr_text(value) + ";"@,
        Statement::Return { return_value } => "return "@ + expr_text(return_value) + ";"@,
        Statement::Expression { expression } => expr_text(expression) + ";"@,
    }
}

/// The first `n` statements of a program, one per line.
pub open spec fn program_text(p: Seq<Statement>, n: int) -> Seq<char>
    decreases n,
{
    if n <= 0 || n > p.len() {
        Seq::empty()
    } else {
        program_text(p, n - 1) + stmt_text(p[n - 1]) + "\n"@
    }
}


fn int_string(v: i64) -> (r: String)
    ensures
        r@ == int_chars(v),
{
    if v < 0 {
        proof { reveal_strlit("-"); }
        let mut s = "-".to_owned();
        let magnitude = (0i128 - v as i128) as u64;
        let d = decimal_text(magnitude);
        s.append(d.as_str());
        assert(s@ =~= seq!['-'] + decimal_chars((0 - v) as nat));
        s
    } else {
        decimal_text(v as u64)
    }
}

fn prefix_str(op: Prefix) -> (r: &'static str)
    ensures
        r@ == prefix_symbol(op),
{
    match op {
        Prefix::Plus => "+",
        Prefix::Minus => "-",
        Prefix::Not => "!",
    }
}

fn infix_str(op: Infix) -> (r: &'static str)
    ensures
        r@ == infix_symbol(op),
{
    match op {
        Infix::Plus => "+",
        Infix::Minus => "-",
        Infix::Divide => "/",
        Infix::Multiply => "*",
        Infix::Equal => "==",
        Infix::NotEqual => "!=",
        Infix::GreaterThanEqual => ">=",
        Infix::GreaterThan => ">",
        Infix::LessThanEqual => "<=",
        Infix::LessThan => "<",
    }
}

/// Writes an expression back as source text.
pub fn render_expression(e: &Expression) -> (r: String)
    ensures
        r@ == expr_text(*e),
    decreases *e, 0int,
{
    match e {
        Expression::Identifier(id) => id.literal.clone(),
        Expression::Literal(lit) => match lit {
            Literal::Int { value, .. } => int_string(*value),
            Literal::String(text) => {
                let mut s = "\"".to_owned();
                s.append(text.as_str());
                s.append("\"");
                s
            },
            Literal::Bool(b) => if *b { "true".to_owned() } else { "false".to_owned() },
            Literal::Array(v) => {
                let mut s = "[".to_owned();
                let inner = render_list(v);
                s.append(inner.as_str());
                s.append("]");
                s
            },
            Literal::Hash(_) => "{}".to_owned(),
        },
        Expression::Prefix(op, x) => {
            let mut s = "(".to_owned();
            s.append(prefix_str(*op));
            let inner = render_expression(x);
            s.append(inner.as_str());
            s.append(")");
            s
        },
        Expression::Infix(op, l, r) => {
            let mut s = "(".to_owned();
            let left = render_expression(l);
            s.append(left.as_str());
            s.append(" ");
            s.append(infix_str(*op));
            s.append(" ");
            let right = render_expression(r);
            s.append(right.as_str());
            s.append(")");
            s
        },
        Expression::Index(a, i) => {
            let mut s = "(".to_owned();
            let left = render_expression(a);
            s.append(left.as_str());
            s.append("[");
            let index = render_expression(i);
            s.append(index.as_str());
            s.append("])");
            s
        },
        Expression::If { condition, consequence, alternative } => {
            let mut s = "if ".to_owned();
            let c = render_expression(condition);
            s.append(c.as_str());
            s.append(" ");
            let then_part = render_block(consequence);
            s.append(then_part.as_str());
            let ghost head = s@;
            match alternative {
                Some(alt) => {
                    s.append(" else ");
                    let else_part = render_block(alt);
                    s.append(else_part.as_str());
                },
                None => {
                    assert(head + Seq::<char>::empty() =~= head);
                },
            }
            s
        },
        Expression::Function { params, body } => {
            let mut s = "func(".to_owned();
            let ps = render_params(params);
            s.append(ps.as_str());
            s.append(") ");
            let b = render_block(body);
            s.append(b.as_str());
            s
        },
        Expression::Call { func, args } => {
            let mut s = render_expression(func);
            s.append("(");
            let ghost head = s@;
            match args {
                Some(a) => {
                    let inner = render_list(a);
                    s.append(inner.as_str());
                },
                None => {
                    assert(head + Seq::<char>::empty() =~= head);
                },
            }
            s.append(")");
            s
        },
    }
}

fn render_list(es: &Vec<Expression>) -> (r: String)
    ensures
        r@ == list_text(es@, es@.len() as int),
    decreases es@, es@.len(),
{
    let mut s = String::new();
    let mut i: usize = 0;
    while i < es.len()
        invariant
            i <= es@.len(),
            s@ == list_text(es@, i as int),
        decreases es@.len() - i,
    {
        if i > 0 {
            s.append(", ");
        }
        let item = render_expression(&es[i]);
        let ghost before = s@;
        s.append(item.as_str());
        proof {
            if i == 0 {
                assert(s@ =~= item@);
            }
        }
        i = i + 1;
    }
    s
}

pub fn render_params(ps: &Vec<Identifier>) -> (r: String)
    ensures
        r@ == params_text(ps@, ps@.len() as int),
{
    let mut s = String::new();
    let mut i: usize = 0;
    while i < ps.len()
        invariant
            i <= ps@.len(),
            s@ == params_text(ps@, i as int),
        decreases ps@.len() - i,
    {
        if i > 0 {
            s.append(", ");
        }
        s.append(ps[i].literal.as_str());
        proof {
            if i == 0 {
                assert(s@ =~= ps@[0].literal@);
            }
        }
        i = i + 1;
    }
    s
}

fn render_block(b: &BlockOfStatements) -> (r: String)
    ensures
        r@ == block_text(b@),
    decreases b@, b@.len() + 1,
{
    let mut s = "{".to_owned();
    let mut i: usize = 0;
    proof { reveal_strlit("{"); }
    assert(s@ =~= "{"@ + stmts_text(b@, 0));
    while i < b.len()
        invariant
            i <= b@.len(),
            s@ == "{"@ + stmts_text(b@, i as int),
        decreases b@.len() - i,
    {
        s.append(" ");
        let item = render_statement(&b[i]);
        s.append(item.as_str());
        i = i + 1;
        assert(s@ =~= "{"@ + stmts_text(b@, i as int));
    }
    s.append(" }");
    s
}

/// Writes a statement back as source text.
pub fn render_statement(st: &Statement) -> (r: String)
    ensures
        r@ == stmt_text(*st),
    decreases *st, 0int,
{
    match st {
        Statement::Let { name, value } => {
            let mut s = "let ".to_owned();
            s.append(name.literal.as_str());
            s.append(" = ");
            let v = render_expression(value);
            s.append(v.as_str());
            s.append(";");
            s
        },
        Statement::Return { return_value } => {
            let mut s = "return ".to_owned();
            let v = render_expression(return_value);
            s.append(v.as_str());
            s.append(";");
            s
        },
        Statement::Expression { expression } => {
            let mut s = render_expression(expression);
            s.append(";");
            s
        },
    }
}

/// Writes a program back as source text, one statement per line.
pub fn render_program(p: &Program) -> (r: String)
    ensures
        r@ == program_text(p@, p@.len() as int),
{
    let mut s = String::new();
    let mut i: usize = 0;
    while i < p.len()
        invariant
            i <= p@.len(),
            s@ == program_text(p@, i as int),
        decreases p@.len() - i,
    {
        let item = render_statement(&p[i]);
        s.append(item.as_str());
        s.append("\n");
        i = i + 1;
    }
    s
}

pub open spec fn builtin_text(f: BuiltinFunc) -> Seq<char> {
    match f {
        BuiltinFunc::Len => "Len"@,
        BuiltinFunc::Head => "Head"@,
        BuiltinFunc::Last => "Last"@,
        BuiltinFunc::Tail => "Tail"@,
        BuiltinFunc::Push => "Push"@,
        BuiltinFunc::Print => "Print"@,
    }
}

/// How a value is shown to the user.
pub open spec fn value_text(v: Value) -> Seq<char>
    decreases v, 0int,
{
    match v {
        Value::Integer(n) => int_chars(n),
        Value::Bool(b) => if b { "true"@ } else { "false"@ },
        Value::Nil => "\n"@,
        Value::Error(m) => "Error: "@ + m,
        Value::Return(b) => "Return("@ + value_text(*b) + ")"@,
        Value::Function(ps, body, _) => "fn("@ + params_text(ps, ps.len() as int) + ") "@ + block_text(body),
        Value::Str(t) => "\""@ + t + "\""@,
        Value::Builtin(a, f) => "builtin ("@ + int_chars(a as i64) + ") "@ + builtin_text(f),
        Value::Array(xs) => "["@ + values_text(xs, xs.len() as int) + "]"@,
    }
}

/// The first `n` values of `xs`, shown and separated by commas.
pub open spec fn values_text(xs: Seq<Value>, n: int) -> Seq<char>
    decreases xs, n,
{
    if n <= 0 || n > xs.len() {
        Seq::empty()
    } else if n == 1 {
        value_text(xs[0])
    } else {
        values_text(xs, n - 1) + ", "@ + value_text(xs[n - 1])
    }
}

fn builtin_str(f: BuiltinFunc) -> (r: &'static str)
    ensures
        r@ == builtin_text(f),
{
    match f {
        BuiltinFunc::Len => "Len",
        BuiltinFunc::Head => "Head",
        BuiltinFunc::Last => "Last",
        BuiltinFunc::Tail => "Tail",
        BuiltinFunc::Push => "Push",
        BuiltinFunc::Print => "Print",
    }
}

/// Shows a value to the user.
pub fn render_object(o: &Object) -> (r: String)
    ensures
        r@ == value_text(o.view()),
    decreases o,
{
    match o {
        Object::INTEGER(n) => int_string(*n),
        Object::BOOL(b) => if *b { "true".to_owned() } else { "false".to_owned() },
        Object::NIL => "\n".to_owned(),
        Object::ERROR(m) => {
            let mut s = "Error: ".to_owned();
            s.append(m.as_str());
            s
        },
        Object::RETURN(b) => {
            let mut s = "Return(".to_owned();
            let inner = render_object(b);
            s.append(inner.as_str());
            s.append(")");
            s
        },
        Object::FUNCTION(p, b, _) => {
            let mut s = "fn(".to_owned();
            let ps = render_params(&**p);
            s.append(ps.as_str());
            s.append(") ");
            let body = render_block(&**b);
            s.append(body.as_str());
            s
        },
        Object::STRING(t) => {
            let mut s = "\"".to_owned();
            s.append(t.as_str());
            s.append("\"");
            s
        },
        Object::BUILTIN { arity, func } => {
            let mut s = "builtin (".to_owned();
            let a = int_string(*arity as i64);
            s.append(a.as_str());
            s.append(") ");
            s.append(builtin_str(*func));
            s
        },
        Object::ARRAY(v) => {
            proof { lemma_views(v@); }
            let mut s = String::new();
            let mut i: usize = 0;
            while i < v.len()
                invariant
                    *o == Object::ARRAY(*v),
                    i <= v@.len(),
                    views(v@).len() == v@.len(),
                    forall|j: int| 0 <= j < v@.len() ==> #[trigger] views(v@)[j] == v@[j].view(),
                    s@ == values_text(views(v@), i as int),
                decreases v@.len() - i,
            {
                if i > 0 {
                    s.append(", ");
                }
                proof {
                    assert(decreases_to!(*o => o->ARRAY_0));
                    axiom_vec_index_decreases(o->ARRAY_0, i as int);
                    assert(decreases_to!(*o => v@[i as int]));
                }
                let item = render_object(&v[i]);
                s.append(item.as_str());
                proof {
                    if i == 0 {
                        assert(s@ =~= item@);
                    }
                }
                i = i + 1;
            }
            let mut out = "[".to_owned();
            out.append(s.as_str());
            out.append("]");
            out
        },
    }
}
} // verus!
