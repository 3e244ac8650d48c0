use racoon::builtins::{head, len, new_builtins, push, tail};
use racoon::environment::Environment;
use racoon::evaluator::Evaluator;
use racoon::lexer::Lexer;
use racoon::object::{BuiltinFunc, Object};
use racoon::parser::Parser;
use racoon::render::render_object;

fn evaluator() -> Evaluator {
    Evaluator::new(Environment::from_bindings(new_builtins()))
}

fn run_in(ev: &mut Evaluator, src: &str) -> Option<Object> {
    let mut p = Parser::new(Lexer::new(src));
    let program = p.parse_program();
    assert!(p.get_errors().is_empty(), "{:?}", p.get_errors());
    ev.evaluate(program)
}

fn run(src: &str) -> Option<Object> {
    run_in(&mut evaluator(), src)
}

fn error_of(r: Option<Object>) -> String {
    match r {
        Some(Object::ERROR(m)) => m,
        other => panic!("expected an error, got {:?}", other),
    }
}

#[test]
fn precedence_scenarios() {
    assert_eq!(run("1 + 2 * 3"), Some(Object::INTEGER(7)));
    assert_eq!(run("(1 + 2) * 3"), Some(Object::INTEGER(9)));
}

#[test]
fn closures_keep_their_scope() {
    let mut ev = evaluator();
    let r = run_in(&mut ev, "let make = func(x) { func(y) { x + y } }; let add5 = make(5); add5(3);");
    assert_eq!(r, Some(Object::INTEGER(8)));
    assert_eq!(run_in(&mut ev, "add5(10);"), Some(Object::INTEGER(15)));
}

#[test]
fn index_out_of_bounds_is_an_error() {
    assert_eq!(
        error_of(run("[1,2,3][3]")),
        "EvaluationError: Array index out of bounds"
    );
    assert_eq!(
        error_of(run("[1,2,3][-1]")),
        "EvaluationError: Array index out of bounds"
    );
    assert_eq!(run("[1,2,3][2]"), Some(Object::INTEGER(3)));
}

#[test]
fn undeclared_identifier_names_it() {
    let m = error_of(run("foo"));
    assert_eq!(
        m,
        "EvaluationError: The identifier foo has not been declared yet and hence is illegal."
    );
}

#[test]
fn arity_mismatch_states_counts() {
    let m = error_of(run("let f = func(a, b) { a + b }; f(1)"));
    assert_eq!(m, "EvaluationError: Expected 2 arguments, but 1 were supplied.");
    let m = error_of(run("let f = func(a, b) { a + b }; f(1, 2, 3)"));
    assert_eq!(m, "EvaluationError: Expected 2 arguments, but 3 were supplied.");
    assert_eq!(run("let f = func(a, b) { a + b }; f(1, 2)"), Some(Object::INTEGER(3)));
}

#[test]
fn integer_operations_match_native_ones() {
    for (a, b) in [(7i64, 3i64), (-7, 3), (7, -3), (0, 5), (123456, 789)] {
        for (op, expected) in [
            ("+", a + b),
            ("-", a - b),
            ("*", a * b),
            ("/", a / b),
        ] {
            let src = format!("({}) {} ({})", a, op, b);
            assert_eq!(run(&src), Some(Object::INTEGER(expected)), "{}", src);
        }
    }
    assert_eq!(run("-7 / 2"), Some(Object::INTEGER(-3)));
}

#[test]
fn arithmetic_faults_are_errors() {
    assert_eq!(error_of(run("1 / 0")), "EvaluationError: Division by zero");
    assert_eq!(
        error_of(run("9223372036854775807 + 1")),
        "EvaluationError: Integer overflow in Plus"
    );
    assert_eq!(
        error_of(run("(0 - 9223372036854775807 - 1) * -1")),
        "EvaluationError: Integer overflow in Multiply"
    );
}

#[test]
fn let_then_name_gives_the_value() {
    for e in ["5", "1 + 2 * 3", "\"ab\" + \"c\"", "[1, 2]", "true == false", "len(\"four\")"] {
        let direct = run(&format!("{};", e));
        let bound = run(&format!("let x = {}; x;", e));
        assert_eq!(direct, bound, "{}", e);
    }
}

#[test]
fn push_leaves_its_argument_alone() {
    let mut ev = evaluator();
    assert_eq!(run_in(&mut ev, "let arr = [1, 2]; head(arr)"), Some(Object::INTEGER(1)));
    assert_eq!(
        run_in(&mut ev, "push(arr, 3)"),
        Some(Object::ARRAY(vec![Object::INTEGER(1), Object::INTEGER(2), Object::INTEGER(3)]))
    );
    assert_eq!(run_in(&mut ev, "head(arr)"), Some(Object::INTEGER(1)));
    assert_eq!(run_in(&mut ev, "len(arr)"), Some(Object::INTEGER(2)));
}

#[test]
fn truthiness_and_prefix_operators() {
    assert_eq!(run("if (0) { 1 } else { 2 }"), Some(Object::INTEGER(1)));
    assert_eq!(run("if (false) { 1 } else { 2 }"), Some(Object::INTEGER(2)));
    assert_eq!(run("if (false) { 1 }"), None);
    assert_eq!(run("!5"), Some(Object::BOOL(false)));
    assert_eq!(run("!!true"), Some(Object::BOOL(true)));
    assert_eq!(run("-5"), Some(Object::INTEGER(-5)));
    assert_eq!(run("+5"), Some(Object::NIL));
    assert_eq!(
        error_of(run("-true")),
        "EvaluationError: MINUS operator cannot be used for the type bool"
    );
}

#[test]
fn type_errors_between_operands() {
    assert_eq!(
        error_of(run("1 + true")),
        "EvaluationError: Plus Operation not supported between the two objects int64 and bool"
    );
    assert_eq!(
        error_of(run("true + false")),
        "EvaluationError: Plus Operation not supported between boolean expresions."
    );
    assert_eq!(
        error_of(run("\"a\" - \"b\"")),
        "EvaluationError: Minus Operation not supported between string objects."
    );
    assert_eq!(run("\"a\" + \"b\""), Some(Object::STRING("ab".to_string())));
    assert_eq!(run("\"a\" == \"a\""), Some(Object::BOOL(true)));
    assert_eq!(run("3 >= 3"), Some(Object::BOOL(true)));
    assert_eq!(run("3 < 2"), Some(Object::BOOL(false)));
}

#[test]
fn return_unwinds_the_whole_function() {
    let src = "let f = func(x) { if (x > 1) { return 10; } 20 }; f(5)";
    assert_eq!(run(src), Some(Object::INTEGER(10)));
    assert_eq!(run("let f = func(x) { if (x > 1) { return 10; } 20 }; f(0)"), Some(Object::INTEGER(20)));
    assert_eq!(run("return 4; 5"), Some(Object::INTEGER(4)));
}

#[test]
fn errors_stop_evaluation() {
    let mut ev = evaluator();
    let m = error_of(run_in(&mut ev, "let a = 1; missing; let b = 2;"));
    assert!(m.contains("missing"));
    assert!(error_of(run_in(&mut ev, "b")).contains("b"));
    assert_eq!(run_in(&mut ev, "a"), Some(Object::INTEGER(1)));
    assert!(error_of(run("let f = func() { nope; 1 }; f()")).contains("nope"));
}

#[test]
fn recursion_and_depth_limit() {
    let fib = "let fib = func(n) { if (n < 2) { return n; } fib(n - 1) + fib(n - 2) }; fib(15)";
    assert_eq!(run(fib), Some(Object::INTEGER(610)));
    let mut shallow = Evaluator::with_call_depth_limit(Environment::from_bindings(new_builtins()), 100);
    let m = error_of(run_in(&mut shallow, "let f = func(n) { f(n + 1) }; f(0)"));
    assert_eq!(m, "EvaluationError: Too many nested calls");
    let down = "let down = func(n) { if (n == 0) { return 0; } down(n - 1) }; down(300)";
    assert_eq!(run(down), Some(Object::INTEGER(0)));
}

#[test]
fn calling_a_non_function() {
    assert_eq!(
        error_of(run("5(1)")),
        "EvaluationError: Expected function instead received int64"
    );
    assert_eq!(
        error_of(run("len(1, 2)")),
        "EvaluationError: Expected 1 arguments, but 2 were supplied."
    );
}

#[test]
fn builtins_on_arrays_and_strings() {
    assert_eq!(run("len(\"héllo\")"), Some(Object::INTEGER(6)));
    assert_eq!(run("len([1, 2, 3])"), Some(Object::INTEGER(3)));
    assert_eq!(run("last([1, 2, 3])"), Some(Object::INTEGER(3)));
    assert_eq!(
        run("tail([1, 2, 3])"),
        Some(Object::ARRAY(vec![Object::INTEGER(2), Object::INTEGER(3)]))
    );
    assert_eq!(
        error_of(run("head([])")),
        "LogicalError: The array has no elements or hasn't been initialized yet."
    );
    assert_eq!(
        error_of(run("len(true)")),
        "SyntaxError: len() function cannot be used for bool"
    );
    assert_eq!(
        error_of(run("tail(1)")),
        "SyntaxError: tail() function cannot be used for int64. It can only be used for Array type."
    );
    assert_eq!(
        error_of(run("push(1, 2)")),
        "argument to `push` must be array. got int64"
    );
}

#[test]
fn builtin_functions_called_directly() {
    assert_eq!(len(vec![Object::STRING("abc".to_string())]), Object::INTEGER(3));
    assert_eq!(
        len(vec![]),
        Object::ERROR("Expected 1 argument but received 0".to_string())
    );
    assert_eq!(head(vec![Object::ARRAY(vec![Object::INTEGER(9)])]), Object::INTEGER(9));
    assert_eq!(tail(vec![Object::ARRAY(vec![Object::INTEGER(9)])]), Object::ARRAY(vec![]));
    assert_eq!(
        push(vec![Object::ARRAY(vec![]), Object::BOOL(true)]),
        Object::ARRAY(vec![Object::BOOL(true)])
    );
    assert_eq!(
        push(vec![Object::ARRAY(vec![])]),
        Object::ERROR("Expected 2 arguments but received 1".to_string())
    );
    assert_eq!(Object::type_of(Object::NIL), "nil");
    assert!(Evaluator::is_truthy(&Object::INTEGER(0)));
    assert!(!Evaluator::is_truthy(&Object::NIL));
    assert!(Evaluator::is_error(&Object::ERROR(String::new())));
}

#[test]
fn print_collects_its_arguments() {
    let mut env = Environment::from_bindings(new_builtins());
    env.set("putln".to_string(), &Object::BUILTIN { arity: -1, func: BuiltinFunc::Print });
    let mut ev = Evaluator::new(env);
    assert_eq!(run_in(&mut ev, "putln(1, \"a\"); putln();"), Some(Object::NIL));
    assert_eq!(ev.take_output(), vec![Object::INTEGER(1), Object::STRING("a".to_string())]);
    assert!(ev.take_output().is_empty());
}

#[test]
fn array_elements_and_arguments_in_order() {
    assert_eq!(
        run("let a = 1; [a, a + 1, if (false) { 1 }]"),
        Some(Object::ARRAY(vec![Object::INTEGER(1), Object::INTEGER(2), Object::NIL]))
    );
    assert!(error_of(run("[1, zz, 3]")).contains("zz"));
    assert_eq!(run("let x = 1; let x = 2; x"), Some(Object::INTEGER(2)));
    assert_eq!(run("let x = 1; let f = func() { let x = 5; x }; f(); x"), Some(Object::INTEGER(1)));
}

#[test]
fn return_inside_an_expression_leaves_the_function() {
    assert_eq!(
        run("let f = func() { [1, if (true) { return 5; }] }; f()"),
        Some(Object::INTEGER(5))
    );
    assert_eq!(
        run("let g = func() { let x = if (true) { return 3; }; 9 }; g()"),
        Some(Object::INTEGER(3))
    );
    assert_eq!(
        run("let h = func() { 1 + if (true) { return 4; } }; h()"),
        Some(Object::INTEGER(4))
    );
}

#[test]
fn type_names_show_function_parameters_and_returned_values() {
    let f = run("func(a, b) { a }").unwrap();
    assert_eq!(Object::type_of(f), "func (a, b)");
    assert_eq!(Object::type_of(Object::RETURN(Box::new(Object::INTEGER(5)))), "5");
    assert_eq!(
        error_of(run("-func(x) { x }")),
        "EvaluationError: MINUS operator cannot be used for the type func (x)"
    );
}

#[test]
fn values_are_shown_as_the_shell_prints_them() {
    assert_eq!(render_object(&Object::INTEGER(-12)), "-12");
    assert_eq!(render_object(&Object::BOOL(true)), "true");
    assert_eq!(render_object(&Object::NIL), "\n");
    assert_eq!(render_object(&Object::ERROR("boom".to_string())), "Error: boom");
    assert_eq!(render_object(&Object::STRING("hi".to_string())), "\"hi\"");
    assert_eq!(
        render_object(&Object::ARRAY(vec![Object::INTEGER(1), Object::STRING("a".to_string())])),
        "[1, \"a\"]"
    );
    assert_eq!(
        render_object(&Object::RETURN(Box::new(Object::INTEGER(3)))),
        "Return(3)"
    );
    assert_eq!(
        render_object(&Object::BUILTIN { arity: -1, func: BuiltinFunc::Print }),
        "builtin (-1) Print"
    );
    assert_eq!(render_object(&run("func(a) { a }").unwrap()), "fn(a) { a; }");
}
