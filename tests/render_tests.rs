use racoon::ast::{Expression, Identifier, Literal, Statement};
use racoon::lexer::Lexer;
use racoon::parser::Parser;
use racoon::render::{render_expression, render_program, render_statement};
use racoon::repl::{ReplCommand, REPL};
use racoon::token::{Token, TokenKind};

fn parse(src: &str) -> Vec<Statement> {
    let mut p = Parser::new(Lexer::new(src));
    let program = p.parse_program();
    assert!(p.get_errors().is_empty(), "{:?}", p.get_errors());
    program
}

#[test]
fn test_string() {
    let program = vec![Statement::Let {
        name: Identifier::new(
            Token {
                kind: TokenKind::IDENT,
                literal: String::from("let"),
            },
            String::from("myVar"),
        ),
        value: Expression::Identifier(Identifier::new(
            Token {
                kind: TokenKind::IDENT,
                literal: String::from("let"),
            },
            String::from("anotherVar"),
        )),
    }];
    let str = render_program(&program);
    assert_eq!(
        str.trim_end(),
        "let myVar = anotherVar;",
        "i implemented the to_string trait incorrectly. Need to fix it then."
    )
}

#[test]
fn let_statement_survives_a_round_trip() {
    let first = parse("let x = 5;");
    let text = render_statement(&first[0]);
    assert_eq!(text, "let x = 5;");
    let second = parse(&text);
    match &second[0] {
        Statement::Let { name, value: Expression::Literal(Literal::Int { value, .. }) } => {
            assert_eq!(name.literal, "x");
            assert_eq!(*value, 5);
        }
        other => panic!("unexpected {:?}", other),
    }
}

#[test]
fn rendering_shows_grouping() {
    let p = parse("1 + 2 * 3; -a[0]; f(1, \"s\", [true]); if (x) { return 1; } else { 2 }; func(a, b) { a };");
    let texts: Vec<String> = p.iter().map(render_statement).collect();
    assert_eq!(texts[0], "(1 + (2 * 3));");
    assert_eq!(texts[1], "(-(a[0]));");
    assert_eq!(texts[2], "f(1, \"s\", [true]);");
    assert_eq!(texts[3], "if x { return 1; } else { 2; };");
    assert_eq!(texts[4], "func(a, b) { a; };");
    for t in &texts {
        let again = parse(t);
        assert_eq!(render_statement(&again[0]), *t);
    }
    match &p[1] {
        Statement::Expression { expression } => assert_eq!(render_expression(expression), "(-(a[0]))"),
        _ => panic!(),
    }
}

#[test]
fn shell_commands_and_history() {
    assert_eq!(REPL::classify(&":quit".to_string()), ReplCommand::Quit);
    assert_eq!(REPL::classify(&":clear".to_string()), ReplCommand::Clear);
    assert_eq!(REPL::classify(&":history".to_string()), ReplCommand::History);
    assert_eq!(REPL::classify(&"1 + 1".to_string()), ReplCommand::Source);
    let mut repl = REPL::new();
    for i in 0..12 {
        repl.record(format!("c{}", i));
    }
    let h = repl.history();
    assert_eq!(h.len(), 10);
    assert_eq!(h[0], "c11");
    assert_eq!(h[9], "c2");
    assert_eq!(repl.command_buffer.len(), 12);
}
