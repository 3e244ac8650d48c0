use racoon::ast::{Expression, Identifier, Infix, Literal, Precedence, Prefix, Statement};
use racoon::lexer::Lexer;
use racoon::parser::Parser;
use racoon::token::{Token, TokenKind};

fn check_parser_errors(p: &mut Parser) {
    let errors = p.get_errors();
    if errors.len() == 0 {
        return;
    }
    eprintln_errors(errors);
    panic!()
}

fn eprintln_errors(errors: &Vec<String>) {
    println!("The parser had {} errors.", errors.len());
    for msg in errors.iter() {
        println!("Parser Error : {}", msg);
    }
}

#[test]
fn test_let_statement() {
    let input = "
        let x = 5;
        let y =6;
        let foobar = 1512;
        ";

    let l = Lexer::new(input);
    let mut p = Parser::new(l);

    let program = p.parse_program();
    check_parser_errors(&mut p);
    assert_ne!(program.len(), 0, "Sorry, Couldn't parse the program.");
    assert_eq!(
        program.len(),
        3,
        "Expected to have 3 statements , but received {}",
        program.len()
    );

    let tests = vec!["x", "y", "foobar"];

    for (i, tt) in tests.iter().enumerate() {
        let stmt = &program[i];
        if let Statement::Let { name, value: _ } = stmt {
            let Identifier { literal, token } = name;
            assert_eq!(literal, *tt, "Expected {} but received {}", tt, literal);
            assert_eq!(token.kind, TokenKind::IDENT, "Unmatching token types");
        } else {
            panic!("not a let statement");
        }
    }
}

#[test]
fn test_return_statement() {
    let input = "
        return x;
        return y;
        return 1512;
        ";

    let l = Lexer::new(input);
    let mut p = Parser::new(l);

    let program = p.parse_program();
    check_parser_errors(&mut p);
    assert_ne!(program.len(), 0, "Sorry, Couldn't parse the program.");
    assert_eq!(
        program.len(),
        3,
        "Expected to have 3 statements , but received {}",
        program.len()
    );

    println!("PROGRAM --> {:?}", program);

    let tests = vec!["x", "y", "1512"];

    for (i, tt) in tests.iter().enumerate() {
        let stmt = &program[i];
        if let Statement::Return { return_value } = stmt {
            if let Expression::Identifier(Identifier { literal, token: _ }) = return_value {
                assert_eq!(literal, *tt, "Expected {} but received {}", tt, literal);
            };
        } else {
            panic!("not a return statement");
        }
    }
}

#[test]
fn test_ident_expr() {
    let input = "
        foobar;
        ";

    let l = Lexer::new(input);
    let mut p = Parser::new(l);

    let program = p.parse_program();
    check_parser_errors(&mut p);
    assert_ne!(program.len(), 0, "Sorry, Couldn't parse the program.");
    assert_eq!(
        program.len(),
        1,
        "Expected to have 1 statements , but received {}",
        program.len()
    );

    let stmt = &program[0];
    println!("{:?}", stmt);
    if let Statement::Expression { expression } = stmt {
        if let Expression::Identifier(ident) = expression {
            assert_eq!(ident.literal, "foobar", "Expected foobar but received {}", ident.literal);
            assert_eq!(
                ident.token.literal, "foobar",
                "Expected foobar but received {}",
                ident.token.literal
            );
        } else {
            panic!("not an identifier");
        }
    } else {
        panic!("Expected a Expression Statement but received.. {:?}", stmt)
    }
}

#[test]
fn test_int_literal() {
    let input = "
        5344;
        ";

    let l = Lexer::new(input);
    let mut p = Parser::new(l);

    let program = p.parse_program();
    check_parser_errors(&mut p);
    assert_ne!(program.len(), 0, "Sorry, Couldn't parse the program.");
    assert_eq!(
        program.len(),
        1,
        "Expected to have 1 statements , but received {}",
        program.len()
    );

    let stmt = &program[0];
    println!("{:?}", stmt);
    if let Statement::Expression { expression } = stmt {
        if let Expression::Literal(Literal::Int { token: _, value }) = expression {
            assert_eq!(&5344, value);
        } else {
            panic!("not an integer literal");
        }
    } else {
        panic!("Expected a Expression Statement but received.. {:?}", stmt)
    }
}

fn parse_count(input: &str) -> usize {
    let l = Lexer::new(input);
    let mut p = Parser::new(l);
    let program = p.parse_program();
    println!("{:?}", program);
    program.len()
}

#[test]
fn test_prefix_expr() {
    let n = parse_count("!5");
    assert_ne!(n, 0, "Parse Error: Couldn't parse the given expression.");
    assert_eq!(n, 1, "Expected 1 statement, instead received {}", n);
}

#[test]
fn test_infix_expr() {
    let n = parse_count("x==y");
    assert_ne!(n, 0, "Parse Error: Couldn't parse the given expression.");
    assert_eq!(n, 1, "Expected 1 statement, instead received {}", n);
}

#[test]
fn test_bool_expr() {
    let n = parse_count("let foobar = !true;");
    assert_ne!(n, 0, "Parse Error: Couldn't parse the given expression.");
    assert_eq!(n, 1, "Expected 1 statement, instead received {}", n);
}

#[test]
fn test_grouped_expr() {
    let n = parse_count("(5+5)*3)");
    assert_ne!(n, 0, "Parse Error: Couldn't parse the given expression.");
    assert_eq!(n, 1, "Expected 1 statement, instead received {}", n);
}

#[test]
fn test_if_expr() {
    let n = parse_count("if x<3 {let y =5;} else {let z =7;}");
    assert_ne!(n, 0, "Parse Error: Couldn't parse the given expression.");
    assert_eq!(n, 1, "Expected 1 statement, instead received {}", n);
}

#[test]
fn test_function_expr() {
    let n = parse_count(
        "
        func(x,y){ let y = 5;  return y+2;};
        ",
    );
    assert_ne!(n, 0, "Parse Error: Couldn't parse the given expression.");
    assert_eq!(n, 1, "Expected 1 statement, instead received {}", n);
}

#[test]
fn test_call_expr() {
    let n = parse_count(
        "
        [1,2,3,4][1];
        ",
    );
    assert_ne!(n, 0, "Parse Error: Couldn't parse the given expression.");
    assert_eq!(n, 1, "Expected 1 statement, instead received {}", n);
}

fn parse_one(input: &str) -> Statement {
    let mut p = Parser::new(Lexer::new(input));
    let mut program = p.parse_program();
    assert!(p.get_errors().is_empty(), "{:?}", p.get_errors());
    assert_eq!(program.len(), 1);
    program.remove(0)
}

fn int_value(e: &Expression) -> i64 {
    match e {
        Expression::Literal(Literal::Int { value, .. }) => *value,
        other => panic!("not an integer: {:?}", other),
    }
}

#[test]
fn product_binds_tighter_than_sum() {
    match parse_one("1 + 2 * 3;") {
        Statement::Expression { expression: Expression::Infix(Infix::Plus, l, r) } => {
            assert_eq!(int_value(&l), 1);
            match *r {
                Expression::Infix(Infix::Multiply, a, b) => {
                    assert_eq!(int_value(&a), 2);
                    assert_eq!(int_value(&b), 3);
                }
                other => panic!("unexpected {:?}", other),
            }
        }
        other => panic!("unexpected {:?}", other),
    }
}

#[test]
fn equal_precedence_folds_left() {
    match parse_one("1 - 2 - 3") {
        Statement::Expression { expression: Expression::Infix(Infix::Minus, l, r) } => {
            assert_eq!(int_value(&r), 3);
            assert!(matches!(*l, Expression::Infix(Infix::Minus, _, _)));
        }
        other => panic!("unexpected {:?}", other),
    }
}

#[test]
fn comparison_operators_parse() {
    match parse_one("1 + 1 <= 3") {
        Statement::Expression { expression: Expression::Infix(Infix::LessThanEqual, l, _) } => {
            assert!(matches!(*l, Expression::Infix(Infix::Plus, _, _)));
        }
        other => panic!("unexpected {:?}", other),
    }
    assert!(matches!(
        parse_one("-a"),
        Statement::Expression { expression: Expression::Prefix(Prefix::Minus, _) }
    ));
}

#[test]
fn let_round_trips_name_and_value() {
    match parse_one("let x = 5;") {
        Statement::Let { name, value } => {
            assert_eq!(name.literal, "x");
            assert_eq!(int_value(&value), 5);
        }
        other => panic!("unexpected {:?}", other),
    }
}

#[test]
fn missing_tokens_are_reported_and_parsing_goes_on() {
    let mut p = Parser::new(Lexer::new("let = 5; let y = 2;"));
    let program = p.parse_program();
    assert!(p.get_errors().iter().any(|e| e == "Expected IDENT, but received ASSIGN"));
    assert!(program.iter().any(|s| matches!(s, Statement::Let { name, .. } if name.literal == "y")));
    let mut p = Parser::new(Lexer::new("(1 + 2"));
    let _ = p.parse_program();
    assert_eq!(p.get_errors()[0], "Expected RPAREN, but received EOF");
}

#[test]
fn integer_literal_too_large_is_an_error() {
    let mut p = Parser::new(Lexer::new("99999999999999999999;"));
    let program = p.parse_program();
    assert!(program.is_empty());
    assert_eq!(p.get_errors()[0], "Could not parse 99999999999999999999 as an integer");
    assert_eq!(racoon::number::parse_decimal("9223372036854775807"), Some(i64::MAX));
    assert_eq!(racoon::number::parse_decimal("9223372036854775808"), None);
    assert_eq!(racoon::number::parse_decimal("12a"), None);
}

#[test]
fn precedence_table() {
    let p = |k| Parser::token_to_precedence(&Token::new(k, String::new()));
    assert_eq!(p(TokenKind::EQ), Precedence::Equals);
    assert_eq!(p(TokenKind::GTE), Precedence::LessGreater);
    assert_eq!(p(TokenKind::PLUS), Precedence::Sum);
    assert_eq!(p(TokenKind::SLASH), Precedence::Product);
    assert_eq!(p(TokenKind::LBRACKET), Precedence::Index);
    assert_eq!(p(TokenKind::LPAREN), Precedence::Call);
    assert_eq!(p(TokenKind::SEMICOLON), Precedence::Lowest);
}

#[test]
fn parse_gives_program_and_errors() {
    let (program, errors) = racoon::parser::parse("let a = 1; a + 2;");
    assert!(errors.is_empty());
    assert_eq!(program.len(), 2);
    let (program, errors) = racoon::parser::parse("let = 1;");
    assert_eq!(errors[0], "Expected IDENT, but received ASSIGN");
    assert_eq!(program.len(), 1);
    let (program, errors) = racoon::parser::parse("");
    assert!(program.is_empty() && errors.is_empty());
}

#[test]
fn names_and_literals_keep_their_tokens() {
    match parse_one("let x = 5;") {
        Statement::Let { name, value: Expression::Literal(Literal::Int { token, value }) } => {
            assert_eq!(name.literal, "x");
            assert_eq!(name.token, Token::new(TokenKind::IDENT, "x".to_string()));
            assert_eq!(token, Token::new(TokenKind::INT, "5".to_string()));
            assert_eq!(value, 5);
        }
        other => panic!("unexpected {:?}", other),
    }
    match parse_one("5344;") {
        Statement::Expression { expression: Expression::Literal(Literal::Int { token, value }) } => {
            assert_eq!(token, Token::new(TokenKind::INT, "5344".to_string()));
            assert_eq!(value, 5344);
        }
        other => panic!("unexpected {:?}", other),
    }
}
