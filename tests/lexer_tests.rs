use racoon::lexer::Lexer;
use racoon::token::TokenKind;

fn check(input: &str, tests: &[(TokenKind, &str)]) {
    let mut l = Lexer::new(input);
    for (i, tt) in tests.iter().enumerate() {
        let tok = l.next_token();
        assert_eq!(
            tok.kind, tt.0,
            "tests[{0}] - tokentype wrong. expected={1:?}, got={2:?}",
            i, tt.0, tok.kind
        );
        assert_eq!(
            tok.literal, tt.1,
            "tests[{}] - literal wrong. expected={}, got={}",
            i, tt.1, tok.literal
        );
    }
}

fn first_program() -> Vec<(TokenKind, &'static str)> {
    vec![
        (TokenKind::LET, "let"),
        (TokenKind::IDENT, "five"),
        (TokenKind::ASSIGN, "="),
        (TokenKind::INT, "5"),
        (TokenKind::SEMICOLON, ";"),
        (TokenKind::LET, "let"),
        (TokenKind::IDENT, "ten"),
        (TokenKind::ASSIGN, "="),
        (TokenKind::INT, "10"),
        (TokenKind::SEMICOLON, ";"),
        (TokenKind::LET, "let"),
        (TokenKind::IDENT, "add"),
        (TokenKind::ASSIGN, "="),
        (TokenKind::FUNCTION, "func"),
        (TokenKind::LPAREN, "("),
        (TokenKind::IDENT, "x"),
        (TokenKind::COMMA, ","),
        (TokenKind::IDENT, "y"),
        (TokenKind::RPAREN, ")"),
        (TokenKind::LBRACE, "{"),
        (TokenKind::IDENT, "x"),
        (TokenKind::PLUS, "+"),
        (TokenKind::IDENT, "y"),
        (TokenKind::SEMICOLON, ";"),
        (TokenKind::RBRACE, "}"),
        (TokenKind::SEMICOLON, ";"),
        (TokenKind::LET, "let"),
        (TokenKind::IDENT, "result"),
        (TokenKind::ASSIGN, "="),
        (TokenKind::IDENT, "add"),
        (TokenKind::LPAREN, "("),
        (TokenKind::IDENT, "five"),
        (TokenKind::COMMA, ","),
        (TokenKind::IDENT, "ten"),
        (TokenKind::RPAREN, ")"),
        (TokenKind::SEMICOLON, ";"),
        (TokenKind::EOF, " "),
    ]
}

const FIRST_INPUT: &str = "let five = 5;
        let ten = 10;
           let add = func(x, y) {
             x + y;
        };
           let result = add(five, ten);";

fn operators() -> Vec<(TokenKind, &'static str)> {
    vec![
        (TokenKind::BANG, "!"),
        (TokenKind::MINUS, "-"),
        (TokenKind::SLASH, "/"),
        (TokenKind::ASTERISK, "*"),
        (TokenKind::INT, "5"),
        (TokenKind::SEMICOLON, ";"),
        (TokenKind::INT, "5"),
        (TokenKind::LT, "<"),
        (TokenKind::INT, "10"),
        (TokenKind::GT, ">"),
        (TokenKind::INT, "5"),
        (TokenKind::SEMICOLON, ";"),
        (TokenKind::INT, "10"),
        (TokenKind::EQ, "=="),
        (TokenKind::INT, "10"),
        (TokenKind::SEMICOLON, ";"),
        (TokenKind::INT, "10"),
        (TokenKind::NEQ, "!="),
        (TokenKind::INT, "9"),
        (TokenKind::SEMICOLON, ";"),
        (TokenKind::EOF, " "),
    ]
}

const OPERATOR_INPUT: &str = "
            !-/*5;
            5 < 10 > 5;

            10 == 10;
            10!=9;
        ";

fn if_tokens() -> Vec<(TokenKind, &'static str)> {
    vec![
        (TokenKind::IF, "if"),
        (TokenKind::IDENT, "x"),
        (TokenKind::GT, ">"),
        (TokenKind::INT, "4"),
        (TokenKind::LBRACE, "{"),
        (TokenKind::RETURN, "return"),
        (TokenKind::TRUE, "true"),
        (TokenKind::SEMICOLON, ";"),
        (TokenKind::RBRACE, "}"),
        (TokenKind::SEMICOLON, ";"),
    ]
}

const IF_INPUT: &str = "if x > 4{
            return true;
        };";

#[test]
fn lexer_test_next_token1() {
    check(
        "  let x = 5,",
        &[
            (TokenKind::LET, "let"),
            (TokenKind::IDENT, "x"),
            (TokenKind::ASSIGN, "="),
            (TokenKind::INT, "5"),
            (TokenKind::COMMA, ","),
            (TokenKind::EOF, " "),
        ],
    );
}

#[test]
fn lexer_test_next_token2() {
    check(FIRST_INPUT, &first_program());
}

#[test]
fn lexer_test_next_token3() {
    check(IF_INPUT, &if_tokens());
}

#[test]
fn lexer_test_next_token4() {
    check(OPERATOR_INPUT, &operators());
}

#[test]
fn mod_test_next_token1() {
    check(
        "  let x = 5,",
        &[
            (TokenKind::LET, "let"),
            (TokenKind::IDENT, "x"),
            (TokenKind::ASSIGN, "="),
            (TokenKind::INT, "5"),
            (TokenKind::COMMA, ","),
            (TokenKind::EOF, " "),
        ],
    );
}

#[test]
fn mod_test_next_token2() {
    check(FIRST_INPUT, &first_program());
}

#[test]
fn mod_test_next_token3() {
    check(IF_INPUT, &if_tokens());
}

#[test]
fn mod_test_next_token4() {
    check(OPERATOR_INPUT, &operators());
}

#[test]
fn mod_test_string() {
    let input = "
            \"foobar\"
            [1,2]
        ";
    let tests = vec![
        (TokenKind::STRING, "foobar"),
        (TokenKind::LBRACKET, "["),
        (TokenKind::INT, "1"),
        (TokenKind::COMMA, ","),
        (TokenKind::INT, "2"),
        (TokenKind::RBRACKET, "]"),
    ];
    let mut l = Lexer::new(input);
    for (i, tt) in tests.iter().enumerate() {
        let tok = l.next_token();
        println!("TOKEN--> {:#?}", tok);
        assert_eq!(
            tok.kind,
            tt.0,
            "tests[{0}] - tokentype wrong. expected={1:?}, got={2}",
            i,
            tt.0,
            tok.kind.name()
        );
        assert_eq!(
            tok.literal, tt.1,
            "tests[{}] - literal wrong. expected={}, got={}",
            i, tt.1, tok.literal
        );
    }
}

#[test]
fn two_character_operators_are_single_tokens() {
    check(
        "a <= b >= c == d != e",
        &[
            (TokenKind::IDENT, "a"),
            (TokenKind::LTE, "<="),
            (TokenKind::IDENT, "b"),
            (TokenKind::GTE, ">="),
            (TokenKind::IDENT, "c"),
            (TokenKind::EQ, "=="),
            (TokenKind::IDENT, "d"),
            (TokenKind::NEQ, "!="),
            (TokenKind::IDENT, "e"),
            (TokenKind::EOF, " "),
        ],
    );
}

#[test]
fn keywords_are_told_from_identifiers() {
    check(
        "func let true false if else return lets",
        &[
            (TokenKind::FUNCTION, "func"),
            (TokenKind::LET, "let"),
            (TokenKind::TRUE, "true"),
            (TokenKind::FALSE, "false"),
            (TokenKind::IF, "if"),
            (TokenKind::ELSE, "else"),
            (TokenKind::RETURN, "return"),
            (TokenKind::IDENT, "lets"),
            (TokenKind::EOF, " "),
        ],
    );
    assert_eq!(racoon::token::lookup_ident("return"), TokenKind::RETURN);
    assert_eq!(racoon::token::lookup_ident("returns"), TokenKind::IDENT);
}

#[test]
fn identifiers_may_hold_digits_after_the_first_letter() {
    check(
        "add5 x_1 9a",
        &[
            (TokenKind::IDENT, "add5"),
            (TokenKind::IDENT, "x_1"),
            (TokenKind::INT, "9"),
            (TokenKind::IDENT, "a"),
            (TokenKind::EOF, " "),
        ],
    );
}

#[test]
fn end_of_input_repeats() {
    let mut l = Lexer::new("");
    assert_eq!(l.next_token().kind, TokenKind::EOF);
    assert_eq!(l.next_token().kind, TokenKind::EOF);
    check("\"open", &[(TokenKind::STRING, "open"), (TokenKind::EOF, " ")]);
    check("@", &[(TokenKind::ILLEGAL, ""), (TokenKind::EOF, " ")]);
}
