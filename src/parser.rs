use vstd::prelude::*;
use vstd::string::*;
use std::rc::Rc;
use crate::ast::{BlockOfStatements, Expression, Identifier, Infix, Literal, Precedence, Prefix, Program, Statement};
use crate::lexer::{next_token_spec, Lexer};
use crate::number::{parse_decimal, parse_decimal_spec};
use crate::token::{Token, TokenKind};
use crate::grammar::{advance, bad_int_msg, cur, err_view, expect, expected_msg, expr_view, exprs_view, g_array, g_block, g_block_rest, g_call, g_expr_list, g_expr_stmt, g_expression, g_function, g_grouped, g_if, g_index, g_infix_loop, g_infix_one, g_let, g_list_rest, g_params, g_params_rest, Lexeme, lexemes_of, Stmt, g_prefix, g_prefix_op, g_program, g_return, g_statement, lemma_err_view_push, lemma_exprs_view_push, lemma_stmts_view_push, names_of, name_from, Name, no_prefix_msg, opt_expr_view, opt_stmt_view, stmts_view, with_error, PState};

verus! {

/// The binding power of the operator that a token kind starts.
pub open spec fn precedence_of(kind: TokenKind) -> Precedence {
    match kind {
        TokenKind::EQ | TokenKind::NEQ => Precedence::Equals,
        TokenKind::LT | TokenKind::GT | TokenKind::LTE | TokenKind::GTE => Precedence::LessGreater,
        TokenKind::PLUS | TokenKind::MINUS => Precedence::Sum,
        TokenKind::SLASH | TokenKind::ASTERISK => Precedence::Product,
        TokenKind::LBRACKET => Precedence::Index,
        TokenKind::LPAREN => Precedence::Call,
        _ => Precedence::Lowest,
    }
}

/// The binary operator that a token kind stands for.
pub open spec fn infix_of(kind: TokenKind) -> Option<Infix> {
    match kind {
        TokenKind::PLUS => Some(Infix::Plus),
        TokenKind::MINUS => Some(Infix::Minus),
        TokenKind::SLASH => Some(Infix::Divide),
        TokenKind::ASTERISK => Some(Infix::Multiply),
        TokenKind::EQ => Some(Infix::Equal),
        TokenKind::NEQ => Some(Infix::NotEqual),
        TokenKind::LT => Some(Infix::LessThan),
        TokenKind::GT => Some(Infix::GreaterThan),
        TokenKind::LTE => Some(Infix::LessThanEqual),
        TokenKind::GTE => Some(Infix::GreaterThanEqual),
        _ => None,
    }
}

/// The models of all tokens read from position `p` on, up to and including
/// the first `EOF`.
pub open spec fn lex_all(t: Seq<char>, p: int) -> Seq<Lexeme>
    decreases t.len() - p,
{
    let (k, lit, after) = next_token_spec(t, p);
    if k == TokenKind::EOF || after <= p || after > t.len() {
        seq![Lexeme { kind: k, text: lit }]
    } else {
        seq![Lexeme { kind: k, text: lit }] + lex_all(t, after)
    }
}

/// What parsing a text gives: its statements, and the errors met on the way.
pub open spec fn parse_spec(text: Seq<char>) -> (Seq<Stmt>, Seq<Seq<char>>) {
    let (stmts, s) = g_program(lex_all(text, 0), PState { pos: 0, errs: Seq::empty() }, Seq::empty());
    (stmts, s.errs)
}

/// Parses a whole text: the program, with the errors met on the way.
pub fn parse(text: &str) -> (r: (Program, Vec<String>))
    ensures
        (stmts_view(r.0@, r.0@.len() as int), err_view(r.1@)) == parse_spec(text@),
{
    let l = Lexer::new(text);
    let mut p = Parser::new(l);
    proof {
        assert(err_view(p.error_list()) =~= Seq::<Seq<char>>::empty());
    }
    let program = p.parse_program();
    (program, p.into_errors())
}

/// Builds a syntax tree from tokens by precedence climbing, collecting the
/// errors it meets on the way.
pub struct Parser {
    tokens: Vec<Token>,
    cur: usize,
    errors: Vec<String>,
}

impl Parser {
    /// The tokens read from the source, ending with the only `EOF`.
    pub closed spec fn tokens(&self) -> Seq<Token> {
        self.tokens@
    }

    /// Index of the current token.
    pub closed spec fn cursor(&self) -> int {
        self.cur as int
    }

    /// The errors collected so far.
    pub closed spec fn error_list(&self) -> Seq<String> {
        self.errors@
    }

    pub closed spec fn wf(&self) -> bool {
        &&& self.tokens@.len() >= 1
        &&& self.tokens@.last().kind == TokenKind::EOF
        &&& forall|i: int| 0 <= i < self.tokens@.len() - 1 ==> (#[trigger] self.tokens@[i]).kind != TokenKind::EOF
        &&& self.cur < self.tokens@.len()
    }

    pub open spec fn curr(&self) -> Token {
        self.tokens()[self.cursor()]
    }

    pub open spec fn peek(&self) -> Token {
        if self.cursor() + 1 < self.tokens().len() {
            self.tokens()[self.cursor() + 1]
        } else {
            self.tokens().last()
        }
    }

    /// The models of the tokens.
    pub open spec fn lexemes(&self) -> Seq<Lexeme> {
        lexemes_of(self.tokens())
    }

    /// Where the parse stands, as the grammar sees it.
    pub open spec fn pstate(&self) -> PState {
        PState { pos: self.cursor(), errs: err_view(self.error_list()) }
    }

    pub closed spec fn remaining(&self) -> int {
        self.tokens@.len() - self.cur
    }

    /// `after` is `before` moved forward over the same tokens, with errors only added.
    pub open spec fn moved_on(before: &Parser, after: &Parser) -> bool {
        &&& after.wf()
        &&& after.tokens() == before.tokens()
        &&& before.cursor() <= after.cursor()
        &&& before.error_list().len() <= after.error_list().len()
        &&& after.error_list().subrange(0, before.error_list().len() as int) == before.error_list()
    }

    proof fn lemma_moved_on_refl(a: &Parser)
        requires
            a.wf(),
        ensures
            Self::moved_on(a, a),
    {
        assert(a.error_list().subrange(0, a.error_list().len() as int) =~= a.error_list());
    }

    proof fn lemma_moved_on_trans(a: &Parser, b: &Parser, c: &Parser)
        requires
            Self::moved_on(a, b),
            Self::moved_on(b, c),
        ensures
            Self::moved_on(a, c),
    {
        assert(c.error_list().subrange(0, a.error_list().len() as int) =~= c.error_list().subrange(
            0,
            b.error_list().len() as int,
        ).subrange(0, a.error_list().len() as int));
    }

    /// A parser over all the tokens that `l` reads, up to the first `EOF`.
    pub fn new(l: Lexer) -> (r: Self)
        requires
            l.wf(),
        ensures
            r.wf(),
            r.cursor() == 0,
            r.error_list().len() == 0,
            r.lexemes() == lex_all(l.text(), l.position() as int),
    {
        let mut l = l;
        let ghost text = l.text();
        let ghost start = l.position() as int;
        let mut tokens: Vec<Token> = Vec::new();
        let ghost mut before: int = start;
        let mut tok = l.next_token();
        assert(l.position() <= l.text().len());
        assert(lexemes_of(tokens@) =~= Seq::<Lexeme>::empty());
        while tok.kind != TokenKind::EOF
            invariant
                l.wf(),
                l.text() == text,
                l.position() <= l.text().len(),
                forall|i: int| 0 <= i < tokens@.len() ==> (#[trigger] tokens@[i]).kind != TokenKind::EOF,
                (tok.kind, tok.literal@, l.position() as int) == next_token_spec(text, before),
                tok.kind != TokenKind::EOF ==> before < l.position(),
                lex_all(text, start) == lexemes_of(tokens@) + lex_all(text, before),
            decreases l.text().len() - l.position() + if tok.kind == TokenKind::EOF { 0int } else { 1int },
        {
            let ghost old_tokens = tokens@;
            let ghost lexeme = Lexeme { kind: tok.kind, text: tok.literal@ };
            assert(lex_all(text, before) == seq![lexeme] + lex_all(text, l.position() as int));
            tokens.push(tok);
            assert(lexemes_of(tokens@) =~= lexemes_of(old_tokens) + seq![lexeme]);
            assert(lex_all(text, start) == lexemes_of(tokens@) + lex_all(text, l.position() as int)) by {
                assert(lexemes_of(old_tokens) + (seq![lexeme] + lex_all(text, l.position() as int)) =~= (
                lexemes_of(old_tokens) + seq![lexeme]) + lex_all(text, l.position() as int));
            }
            proof { before = l.position() as int; }
            tok = l.next_token();
        }
        let ghost old_tokens = tokens@;
        let ghost lexeme = Lexeme { kind: tok.kind, text: tok.literal@ };
        assert(lex_all(text, before) == seq![lexeme]);
        tokens.push(tok);
        assert(lexemes_of(tokens@) =~= lexemes_of(old_tokens) + seq![lexeme]);
        Parser { tokens, cur: 0, errors: Vec::new() }
    }

    pub fn token_to_precedence(tok: &Token) -> (r: Precedence)
        ensures
            r == precedence_of(tok.kind),
    {
        match tok.kind {
            TokenKind::EQ | TokenKind::NEQ => Precedence::Equals,
            TokenKind::LT | TokenKind::GT | TokenKind::LTE | TokenKind::GTE => Precedence::LessGreater,
            TokenKind::PLUS | TokenKind::MINUS => Precedence::Sum,
            TokenKind::SLASH | TokenKind::ASTERISK => Precedence::Product,
            TokenKind::LBRACKET => Precedence::Index,
            TokenKind::LPAREN => Precedence::Call,
            _ => Precedence::Lowest,
        }
    }

    fn curr_token(&self) -> (r: &Token)
        requires
            self.wf(),
        ensures
            *r == self.curr(),
    {
        &self.tokens[self.cur]
    }

    fn peek_token(&self) -> (r: &Token)
        requires
            self.wf(),
        ensures
            *r == self.peek(),
    {
        if self.cur < self.tokens.len() - 1 {
            &self.tokens[self.cur + 1]
        } else {
            &self.tokens[self.tokens.len() - 1]
        }
    }

    pub fn peek_precedence(&self) -> (r: Precedence)
        requires
            self.wf(),
        ensures
            r == precedence_of(self.peek().kind),
    {
        Parser::token_to_precedence(self.peek_token())
    }

    pub fn curr_precedence(&self) -> (r: Precedence)
        requires
            self.wf(),
        ensures
            r == precedence_of(self.curr().kind),
    {
        Parser::token_to_precedence(self.curr_token())
    }

    pub fn into_errors(self) -> (r: Vec<String>)
        ensures
            r@ == self.error_list(),
    {
        self.errors
    }

    pub fn get_errors(&self) -> (r: &Vec<String>)
        ensures
            r@ == self.error_list(),
    {
        &self.errors
    }

    fn peek_error(&mut self, kind: TokenKind)
        requires
            old(self).wf(),
        ensures
            final(self).tokens == old(self).tokens,
            final(self).cur == old(self).cur,
            final(self).errors@.len() == old(self).errors@.len() + 1,
            final(self).errors@.subrange(0, old(self).errors@.len() as int) == old(self).errors@,
            final(self).pstate() == with_error(old(self).pstate(), expected_msg(kind, old(self).peek().kind)),
    {
        let mut msg = "Expected ".to_owned();
        msg.append(kind.name());
        msg.append(", but received ");
        msg.append(self.peek_token().kind.name());
        proof { lemma_err_view_push(self.errors@, msg); }
        self.errors.push(msg);
        assert(self.errors@.subrange(0, old(self).errors@.len() as int) =~= old(self).errors@);
    }

    fn no_prefix_error(&mut self)
        requires
            old(self).wf(),
        ensures
            final(self).tokens == old(self).tokens,
            final(self).cur == old(self).cur,
            final(self).errors@.len() == old(self).errors@.len() + 1,
            final(self).errors@.subrange(0, old(self).errors@.len() as int) == old(self).errors@,
            final(self).pstate() == with_error(old(self).pstate(), no_prefix_msg(old(self).curr().kind)),
    {
        let mut msg = "No Prefix Parsing Function available for ".to_owned();
        msg.append(self.curr_token().kind.name());
        proof { lemma_err_view_push(self.errors@, msg); }
        self.errors.push(msg);
        assert(self.errors@.subrange(0, old(self).errors@.len() as int) =~= old(self).errors@);
    }

    /// Moves to the next token; at the final `EOF` it stays.
    pub fn next_token(&mut self)
        requires
            old(self).wf(),
        ensures
            final(self).wf(),
            Self::moved_on(old(self), final(self)),
            final(self).tokens() == old(self).tokens(),
            final(self).error_list() == old(self).error_list(),
            final(self).cursor() == if old(self).curr().kind == TokenKind::EOF {
                old(self).cursor()
            } else {
                old(self).cursor() + 1
            },
            final(self).pstate() == advance(old(self).lexemes(), old(self).pstate()),
    {
        if self.cur < self.tokens.len() - 1 {
            self.cur = self.cur + 1;
        }
        assert(self.errors@.subrange(0, old(self).errors@.len() as int) =~= old(self).errors@);
    }

    fn curr_token_is(&self, kind: TokenKind) -> (r: bool)
        requires
            self.wf(),
        ensures
            r == (self.curr().kind == kind),
    {
        self.tokens[self.cur].kind == kind
    }

    fn peek_token_is(&self, kind: TokenKind) -> (r: bool)
        requires
            self.wf(),
        ensures
            r == (self.peek().kind == kind),
    {
        self.peek_token().kind == kind
    }

    /// Steps onto the next token when it has the given kind; records an error otherwise.
    fn expect_peek(&mut self, kind: TokenKind) -> (r: bool)
        requires
            old(self).wf(),
            kind != TokenKind::EOF,
        ensures
            Self::moved_on(old(self), final(self)),
            r == (old(self).peek().kind == kind),
            r ==> final(self).cursor() == old(self).cursor() + 1 && final(self).error_list()
                == old(self).error_list(),
            !r ==> final(self).cursor() == old(self).cursor() && final(self).error_list().len()
                == old(self).error_list().len() + 1,
            (r, final(self).pstate()) == expect(old(self).lexemes(), old(self).pstate(), kind),
    {
        if self.peek_token_is(kind) {
            self.next_token();
            assert(self.errors@.subrange(0, old(self).errors@.len() as int) =~= old(self).errors@);
            true
        } else {
            self.peek_error(kind);
            false
        }
    }
}


impl Parser {
    pub fn parse_program(&mut self) -> (r: Program)
        requires
            old(self).wf(),
        ensures
            Self::moved_on(old(self), final(self)),
            final(self).curr().kind == TokenKind::EOF,
            (stmts_view(r@, r@.len() as int), final(self).pstate()) == g_program(old(self).lexemes(),
                old(self).pstate(),
                Seq::empty(),
            ),
    {
        let mut program: Vec<Statement> = Vec::new();
        proof { Self::lemma_moved_on_refl(old(self)); }
        while !self.curr_token_is(TokenKind::EOF)
            invariant
                Self::moved_on(old(self), self),
                g_program(old(self).lexemes(), old(self).pstate(), Seq::empty()) == g_program(self.lexemes(),
                    self.pstate(),
                    stmts_view(program@, program@.len() as int),
                ),
            decreases self.remaining(),
        {
            let ghost before = *self;
            let statement = self.parse_statement();
            let ghost acc = stmts_view(program@, program@.len() as int);
            if let Some(statement) = statement {
                proof { lemma_stmts_view_push(program@, statement); }
                program.push(statement);
            }
            let ghost mid = *self;
            self.next_token();
            proof {
                Self::lemma_moved_on_trans(&before, &mid, self);
                Self::lemma_moved_on_trans(old(self), &before, self);
            }
        }
        program
    }

    pub fn parse_statement(&mut self) -> (r: Option<Statement>)
        requires
            old(self).wf(),
        ensures
            Self::moved_on(old(self), final(self)),
            (opt_stmt_view(r), final(self).pstate()) == g_statement(old(self).lexemes(), old(self).pstate()),
        decreases old(self).remaining(), 6int,
    {
        match self.curr_token().kind {
            TokenKind::LET => self.parse_let_statement(),
            TokenKind::RETURN => self.parse_return_statement(),
            _ => self.parse_expression_statement(),
        }
    }

    /// Parses `let <name> = <expression>`, with an optional `;` after it.
    pub fn parse_let_statement(&mut self) -> (r: Option<Statement>)
        requires
            old(self).wf(),
        ensures
            Self::moved_on(old(self), final(self)),
            (opt_stmt_view(r), final(self).pstate()) == g_let(old(self).lexemes(), old(self).pstate()),
        decreases old(self).remaining(), 5int,
    {
        if !self.expect_peek(TokenKind::IDENT) {
            return None;
        }
        let name = match self.parse_ident() {
            Some(name) => name,
            None => return None,
        };
        let ghost s1 = *self;
        if !self.expect_peek(TokenKind::ASSIGN) {
            proof { Self::lemma_moved_on_trans(old(self), &s1, self); }
            return None;
        }
        let ghost s2 = *self;
        proof { Self::lemma_moved_on_trans(old(self), &s1, &s2); }
        self.next_token();
        let ghost s3 = *self;
        proof { Self::lemma_moved_on_trans(old(self), &s2, &s3); }
        let value = self.parse_expression(Precedence::Lowest);
        let ghost s4 = *self;
        proof { Self::lemma_moved_on_trans(old(self), &s3, &s4); }
        let value = match value {
            Some(expr) => expr,
            None => return None,
        };
        if self.peek_token_is(TokenKind::SEMICOLON) {
            self.next_token();
            proof { Self::lemma_moved_on_trans(old(self), &s4, self); }
        }
        Some(Statement::Let { name, value })
    }

    /// Parses `return <expression>`, with an optional `;` after it.
    pub fn parse_return_statement(&mut self) -> (r: Option<Statement>)
        requires
            old(self).wf(),
        ensures
            Self::moved_on(old(self), final(self)),
            (opt_stmt_view(r), final(self).pstate()) == g_return(old(self).lexemes(), old(self).pstate()),
        decreases old(self).remaining(), 5int,
    {
        let at_end = self.curr_token_is(TokenKind::EOF);
        self.next_token();
        let ghost s1 = *self;
        if at_end {
            self.no_prefix_error();
            assert(self.errors@.subrange(0, old(self).errors@.len() as int) =~= old(self).errors@);
            return None;
        }
        let return_value = self.parse_expression(Precedence::Lowest);
        let ghost s2 = *self;
        proof { Self::lemma_moved_on_trans(old(self), &s1, &s2); }
        let return_value = match return_value {
            Some(expr) => expr,
            None => return None,
        };
        if self.peek_token_is(TokenKind::SEMICOLON) {
            self.next_token();
            proof { Self::lemma_moved_on_trans(old(self), &s2, self); }
        }
        Some(Statement::Return { return_value })
    }

    pub fn parse_expression_statement(&mut self) -> (r: Option<Statement>)
        requires
            old(self).wf(),
        ensures
            Self::moved_on(old(self), final(self)),
            (opt_stmt_view(r), final(self).pstate()) == g_expr_stmt(old(self).lexemes(), old(self).pstate()),
        decreases old(self).remaining(), 5int,
    {
        let expr = self.parse_expression(Precedence::Lowest);
        let ghost s1 = *self;
        match expr {
            Some(expr) => {
                if self.peek_token_is(TokenKind::SEMICOLON) {
                    self.next_token();
                    proof { Self::lemma_moved_on_trans(old(self), &s1, self); }
                }
                Some(Statement::Expression { expression: expr })
            },
            None => None,
        }
    }

    /// Precedence climbing: parses a prefix form, then folds in every following
    /// operator that binds tighter than `precedence`.
    pub fn parse_expression(&mut self, precedence: Precedence) -> (r: Option<Expression>)
        requires
            old(self).wf(),
        ensures
            Self::moved_on(old(self), final(self)),
            (opt_expr_view(r), final(self).pstate()) == g_expression(old(self).lexemes(), old(self).pstate(), precedence),
        decreases old(self).remaining(), 4int,
    {
        let kind = self.curr_token().kind;
        let mut left = match kind {
            TokenKind::IDENT => self.parse_ident_expr(),
            TokenKind::INT => self.parse_int_expr(),
            TokenKind::TRUE | TokenKind::FALSE => self.parse_bool_expr(),
            TokenKind::BANG | TokenKind::MINUS | TokenKind::PLUS => self.parse_prefix_expr(),
            TokenKind::LPAREN => self.parse_grouped_expr(),
            TokenKind::LBRACKET => self.parse_array_expr(),
            TokenKind::IF => self.parse_if_expr(),
            TokenKind::FUNCTION => self.parse_function_expr(),
            TokenKind::STRING => Some(Expression::Literal(Literal::String(self.curr_token().literal.clone()))),
            _ => {
                self.no_prefix_error();
                assert(self.errors@.subrange(0, old(self).errors@.len() as int) =~= old(self).errors@);
                None
            },
        };
        assert(Self::moved_on(old(self), self)) by {
            Self::lemma_moved_on_refl(old(self));
            if kind == TokenKind::STRING {
                assert(self.errors@.subrange(0, old(self).errors@.len() as int) =~= old(self).errors@);
            }
        }
        assert((opt_expr_view(left), self.pstate()) == g_prefix(old(self).lexemes(), old(self).pstate()));
        while !self.peek_token_is(TokenKind::SEMICOLON) && precedence.level() < self.peek_precedence().level()
            invariant
                Self::moved_on(old(self), self),
                g_expression(old(self).lexemes(), old(self).pstate(), precedence) == g_infix_loop(self.lexemes(),
                    self.pstate(),
                    precedence,
                    opt_expr_view(left),
                ),
            decreases self.remaining(),
        {
            let l = match left {
                Some(l) => l,
                None => return None,
            };
            let ghost s0 = *self;
            let peek = self.peek_token().kind;
            if peek == TokenKind::LPAREN {
                self.next_token();
                let ghost s1 = *self;
                left = self.parse_call_expr(l);
                proof { Self::lemma_moved_on_trans(&s0, &s1, self); }
            } else if peek == TokenKind::LBRACKET {
                self.next_token();
                let ghost s1 = *self;
                left = self.parse_index_expr(l);
                proof { Self::lemma_moved_on_trans(&s0, &s1, self); }
            } else if peek == TokenKind::PLUS || peek == TokenKind::MINUS || peek == TokenKind::SLASH
                || peek == TokenKind::ASTERISK || peek == TokenKind::EQ || peek == TokenKind::NEQ
                || peek == TokenKind::LT || peek == TokenKind::GT || peek == TokenKind::LTE
                || peek == TokenKind::GTE {
                self.next_token();
                let ghost s1 = *self;
                left = self.parse_infix_expr(l);
                proof { Self::lemma_moved_on_trans(&s0, &s1, self); }
            } else {
                return Some(l);
            }
            proof { Self::lemma_moved_on_trans(old(self), &s0, self); }
        }
        left
    }
}

impl Parser {
    fn parse_infix_expr(&mut self, left: Expression) -> (r: Option<Expression>)
        requires
            old(self).wf(),
        ensures
            Self::moved_on(old(self), final(self)),
            (opt_expr_view(r), final(self).pstate()) == g_infix_one(old(self).lexemes(), old(self).pstate(), expr_view(left)),
        decreases old(self).remaining(), 1int,
    {
        let infix = match self.curr_token().kind {
            TokenKind::PLUS => Infix::Plus,
            TokenKind::MINUS => Infix::Minus,
            TokenKind::SLASH => Infix::Divide,
            TokenKind::ASTERISK => Infix::Multiply,
            TokenKind::EQ => Infix::Equal,
            TokenKind::NEQ => Infix::NotEqual,
            TokenKind::LT => Infix::LessThan,
            TokenKind::GT => Infix::GreaterThan,
            TokenKind::LTE => Infix::LessThanEqual,
            TokenKind::GTE => Infix::GreaterThanEqual,
            _ => {
                proof { Self::lemma_moved_on_refl(old(self)); }
                return None;
            },
        };
        let precedence = self.curr_precedence();
        self.next_token();
        let ghost s1 = *self;
        let right = self.parse_expression(precedence);
        proof { Self::lemma_moved_on_trans(old(self), &s1, self); }
        match right {
            Some(expr) => Some(Expression::Infix(infix, Box::new(left), Box::new(expr))),
            None => None,
        }
    }

    fn parse_ident(&self) -> (r: Option<Identifier>)
        requires
            self.wf(),
        ensures
            r is Some <==> self.curr().kind == TokenKind::IDENT,
            r matches Some(id) ==> id.literal@ == self.curr().literal@ && id.token == self.curr(),
    {
        let tok = self.curr_token();
        match tok.kind {
            TokenKind::IDENT => Some(Identifier { literal: tok.literal.clone(), token: tok.copy() }),
            _ => None,
        }
    }

    fn parse_ident_expr(&mut self) -> (r: Option<Expression>)
        requires
            old(self).wf(),
        ensures
            *final(self) == *old(self),
            r is Some <==> old(self).curr().kind == TokenKind::IDENT,
            r matches Some(e) ==> e matches Expression::Identifier(id) && id.literal@ == old(self).curr().literal@
                && id.token == old(self).curr(),
    {
        match self.parse_ident() {
            Some(ident) => Some(Expression::Identifier(ident)),
            None => None,
        }
    }

    pub fn parse_bool_expr(&mut self) -> (r: Option<Expression>)
        requires
            old(self).wf(),
        ensures
            *final(self) == *old(self),
            r == match old(self).curr().kind {
                TokenKind::TRUE => Some(Expression::Literal(Literal::Bool(true))),
                TokenKind::FALSE => Some(Expression::Literal(Literal::Bool(false))),
                _ => None,
            },
    {
        match self.curr_token().kind {
            TokenKind::TRUE => Some(Expression::Literal(Literal::Bool(true))),
            TokenKind::FALSE => Some(Expression::Literal(Literal::Bool(false))),
            _ => None,
        }
    }

    /// An integer literal; a literal too large for `i64` is recorded as an error.
    pub fn parse_int_expr(&mut self) -> (r: Option<Expression>)
        requires
            old(self).wf(),
        ensures
            Self::moved_on(old(self), final(self)),
            final(self).cursor() == old(self).cursor(),
            old(self).curr().kind != TokenKind::INT ==> r is None && *final(self) == *old(self),
            old(self).curr().kind == TokenKind::INT ==> match parse_decimal_spec(old(self).curr().literal@) {
                Some(v) => r matches Some(Expression::Literal(Literal::Int { value, token })) && value == v
                    && token == old(self).curr() && *final(self) == *old(self),
                None => r is None && final(self).pstate() == with_error(
                    old(self).pstate(),
                    bad_int_msg(old(self).curr().literal@),
                ),
            },
    {
        if self.curr_token_is(TokenKind::INT) {
            let value = parse_decimal(self.curr_token().literal.as_str());
            match value {
                Some(value) => {
                    proof { Self::lemma_moved_on_refl(old(self)); }
                    return Some(Expression::Literal(Literal::Int { token: self.curr_token().copy(), value }));
                },
                None => {
                    let mut msg = "Could not parse ".to_owned();
                    msg.append(self.curr_token().literal.as_str());
                    msg.append(" as an integer");
                    proof { lemma_err_view_push(self.errors@, msg); }
                    self.errors.push(msg);
                    assert(self.errors@.subrange(0, old(self).errors@.len() as int) =~= old(self).errors@);
                    return None;
                },
            }
        }
        proof { Self::lemma_moved_on_refl(old(self)); }
        None
    }

    /// Parses `!e`, `-e` or `+e`, the operand bound at prefix precedence.
    pub fn parse_prefix_expr(&mut self) -> (r: Option<Expression>)
        requires
            old(self).wf(),
            old(self).curr().kind == TokenKind::BANG || old(self).curr().kind == TokenKind::MINUS
                || old(self).curr().kind == TokenKind::PLUS,
        ensures
            Self::moved_on(old(self), final(self)),
            (opt_expr_view(r), final(self).pstate()) == g_prefix_op(old(self).lexemes(), old(self).pstate()),
        decreases old(self).remaining(), 3int,
    {
        let prefix = match self.curr_token().kind {
            TokenKind::BANG => Prefix::Not,
            TokenKind::MINUS => Prefix::Minus,
            _ => Prefix::Plus,
        };
        self.next_token();
        let ghost s1 = *self;
        let operand = self.parse_expression(Precedence::Prefix);
        proof { Self::lemma_moved_on_trans(old(self), &s1, self); }
        match operand {
            Some(expr) => Some(Expression::Prefix(prefix, Box::new(expr))),
            None => None,
        }
    }

    /// Parses `func(<params>) { <body> }`.
    pub fn parse_function_expr(&mut self) -> (r: Option<Expression>)
        requires
            old(self).wf(),
        ensures
            Self::moved_on(old(self), final(self)),
            (opt_expr_view(r), final(self).pstate()) == g_function(old(self).lexemes(), old(self).pstate()),
        decreases old(self).remaining(), 3int,
    {
        if !self.expect_peek(TokenKind::LPAREN) {
            return None;
        }
        let ghost s1 = *self;
        let params = self.parse_function_params();
        proof { Self::lemma_moved_on_trans(old(self), &s1, self); }
        let params = match params {
            Some(params) => params,
            None => return None,
        };
        let ghost s2 = *self;
        if !self.expect_peek(TokenKind::LBRACE) {
            proof { Self::lemma_moved_on_trans(old(self), &s2, self); }
            return None;
        }
        let ghost s3 = *self;
        proof { Self::lemma_moved_on_trans(old(self), &s2, &s3); }
        let body = self.parse_block_statement();
        proof { Self::lemma_moved_on_trans(old(self), &s3, self); }
        Some(Expression::Function { params: Rc::new(params), body: Rc::new(body) })
    }

    fn parse_function_params(&mut self) -> (r: Option<Vec<Identifier>>)
        requires
            old(self).wf(),
        ensures
            Self::moved_on(old(self), final(self)),
            (match r {
                Some(v) => Some(names_of(v@)),
                None => None::<Seq<Name>>,
            }, final(self).pstate()) == g_params(old(self).lexemes(), old(self).pstate()),
    {
        let mut params: Vec<Identifier> = Vec::new();
        if self.peek_token_is(TokenKind::RPAREN) {
            self.next_token();
            assert(names_of(params@) =~= Seq::<Name>::empty());
            return Some(params);
        }
        if !self.expect_peek(TokenKind::IDENT) {
            return None;
        }
        match self.parse_ident() {
            Some(ident) => params.push(ident),
            None => return None,
        }
        assert(names_of(params@) =~= seq![name_from(cur(self.lexemes(), self.pstate()))]);
        while self.peek_token_is(TokenKind::COMMA)
            invariant
                Self::moved_on(old(self), self),
                g_params(old(self).lexemes(), old(self).pstate()) == g_params_rest(self.lexemes(),
                    self.pstate(),
                    names_of(params@),
                ),
            decreases self.remaining(),
        {
            let ghost s0 = *self;
            self.next_token();
            let ghost s1 = *self;
            let ok = self.expect_peek(TokenKind::IDENT);
            proof {
                Self::lemma_moved_on_trans(&s0, &s1, self);
                Self::lemma_moved_on_trans(old(self), &s0, self);
            }
            if !ok {
                return None;
            }
            let ghost names = names_of(params@);
            match self.parse_ident() {
                Some(ident) => params.push(ident),
                None => return None,
            }
            assert(names_of(params@) =~= names.push(name_from(cur(self.lexemes(), self.pstate()))));
        }
        let ghost s2 = *self;
        let ok = self.expect_peek(TokenKind::RPAREN);
        proof { Self::lemma_moved_on_trans(old(self), &s2, self); }
        if !ok {
            return None;
        }
        Some(params)
    }

    /// Parses `( <expression> )`.
    pub fn parse_grouped_expr(&mut self) -> (r: Option<Expression>)
        requires
            old(self).wf(),
            old(self).curr().kind == TokenKind::LPAREN,
        ensures
            Self::moved_on(old(self), final(self)),
            (opt_expr_view(r), final(self).pstate()) == g_grouped(old(self).lexemes(), old(self).pstate()),
        decreases old(self).remaining(), 3int,
    {
        self.next_token();
        let ghost s1 = *self;
        let expression = self.parse_expression(Precedence::Lowest);
        let ghost s2 = *self;
        proof { Self::lemma_moved_on_trans(old(self), &s1, &s2); }
        let ok = self.expect_peek(TokenKind::RPAREN);
        proof { Self::lemma_moved_on_trans(old(self), &s2, self); }
        if !ok {
            None
        } else {
            expression
        }
    }

    /// Parses `if <condition> { ... }`, with an optional `else { ... }`.
    pub fn parse_if_expr(&mut self) -> (r: Option<Expression>)
        requires
            old(self).wf(),
            old(self).curr().kind == TokenKind::IF,
        ensures
            Self::moved_on(old(self), final(self)),
            (opt_expr_view(r), final(self).pstate()) == g_if(old(self).lexemes(), old(self).pstate()),
        decreases old(self).remaining(), 3int,
    {
        self.next_token();
        let ghost s1 = *self;
        let condition = self.parse_expression(Precedence::Lowest);
        let ghost s2 = *self;
        proof { Self::lemma_moved_on_trans(old(self), &s1, &s2); }
        let condition = match condition {
            Some(expr) => expr,
            None => return None,
        };
        if !self.expect_peek(TokenKind::LBRACE) {
            proof { Self::lemma_moved_on_trans(old(self), &s2, self); }
            return None;
        }
        let ghost s3 = *self;
        proof { Self::lemma_moved_on_trans(old(self), &s2, &s3); }
        let consequence = self.parse_block_statement();
        let ghost s4 = *self;
        proof { Self::lemma_moved_on_trans(old(self), &s3, &s4); }
        let mut alternative: Option<Vec<Statement>> = None;
        if self.peek_token_is(TokenKind::ELSE) {
            self.next_token();
            let ghost s5 = *self;
            proof { Self::lemma_moved_on_trans(old(self), &s4, &s5); }
            if !self.expect_peek(TokenKind::LBRACE) {
                proof { Self::lemma_moved_on_trans(old(self), &s5, self); }
                return None;
            }
            let ghost s6 = *self;
            proof { Self::lemma_moved_on_trans(old(self), &s5, &s6); }
            alternative = Some(self.parse_block_statement());
            proof { Self::lemma_moved_on_trans(old(self), &s6, self); }
        }
        Some(Expression::If { condition: Box::new(condition), consequence, alternative })
    }

    /// Parses the statements of a block, up to its `}` or the end of input.
    pub fn parse_block_statement(&mut self) -> (r: BlockOfStatements)
        requires
            old(self).wf(),
        ensures
            Self::moved_on(old(self), final(self)),
            (stmts_view(r@, r@.len() as int), final(self).pstate()) == g_block(old(self).lexemes(), old(self).pstate()),
        decreases old(self).remaining(), 7int,
    {
        self.next_token();
        let mut block: Vec<Statement> = Vec::new();
        while !self.curr_token_is(TokenKind::RBRACE) && !self.curr_token_is(TokenKind::EOF)
            invariant
                Self::moved_on(old(self), self),
                g_block(old(self).lexemes(), old(self).pstate()) == g_block_rest(self.lexemes(),
                    self.pstate(),
                    stmts_view(block@, block@.len() as int),
                ),
            decreases self.remaining(),
        {
            let ghost s0 = *self;
            match self.parse_statement() {
                Some(stmt) => {
                    proof { lemma_stmts_view_push(block@, stmt); }
                    block.push(stmt);
                },
                None => {},
            }
            let ghost s1 = *self;
            self.next_token();
            proof {
                Self::lemma_moved_on_trans(&s0, &s1, self);
                Self::lemma_moved_on_trans(old(self), &s0, self);
            }
        }
        block
    }

    fn parse_call_expr(&mut self, left: Expression) -> (r: Option<Expression>)
        requires
            old(self).wf(),
            old(self).curr().kind != TokenKind::EOF,
        ensures
            Self::moved_on(old(self), final(self)),
            (opt_expr_view(r), final(self).pstate()) == g_call(old(self).lexemes(), old(self).pstate(), expr_view(left)),
        decreases old(self).remaining(), 3int,
    {
        let args = self.parse_expr_list(TokenKind::RPAREN);
        Some(Expression::Call { func: Box::new(left), args })
    }

    fn parse_index_expr(&mut self, left: Expression) -> (r: Option<Expression>)
        requires
            old(self).wf(),
            old(self).curr().kind != TokenKind::EOF,
        ensures
            Self::moved_on(old(self), final(self)),
            (opt_expr_view(r), final(self).pstate()) == g_index(old(self).lexemes(), old(self).pstate(), expr_view(left)),
        decreases old(self).remaining(), 1int,
    {
        self.next_token();
        let ghost s1 = *self;
        let index = self.parse_expression(Precedence::Lowest);
        let ghost s2 = *self;
        proof { Self::lemma_moved_on_trans(old(self), &s1, &s2); }
        let index = match index {
            Some(expr) => expr,
            None => return None,
        };
        let ok = self.expect_peek(TokenKind::RBRACKET);
        proof { Self::lemma_moved_on_trans(old(self), &s2, self); }
        if !ok {
            return None;
        }
        Some(Expression::Index(Box::new(left), Box::new(index)))
    }

    fn parse_array_expr(&mut self) -> (r: Option<Expression>)
        requires
            old(self).wf(),
            old(self).curr().kind == TokenKind::LBRACKET,
        ensures
            Self::moved_on(old(self), final(self)),
            (opt_expr_view(r), final(self).pstate()) == g_array(old(self).lexemes(), old(self).pstate()),
        decreases old(self).remaining(), 3int,
    {
        match self.parse_expr_list(TokenKind::RBRACKET) {
            Some(list) => Some(Expression::Literal(Literal::Array(list))),
            None => None,
        }
    }

    /// Parses a comma-separated list of expressions closed by `end`.
    fn parse_expr_list(&mut self, end: TokenKind) -> (r: Option<Vec<Expression>>)
        requires
            old(self).wf(),
            old(self).curr().kind != TokenKind::EOF,
            end != TokenKind::EOF,
        ensures
            Self::moved_on(old(self), final(self)),
            (match r {
                Some(v) => Some(exprs_view(v@, v@.len() as int)),
                None => None::<Seq<crate::grammar::Expr>>,
            }, final(self).pstate()) == g_expr_list(old(self).lexemes(), old(self).pstate(), end),
        decreases old(self).remaining(), 2int,
    {
        let mut list: Vec<Expression> = Vec::new();
        if self.peek_token_is(end) {
            self.next_token();
            return Some(list);
        }
        self.next_token();
        let ghost s1 = *self;
        let first = self.parse_expression(Precedence::Lowest);
        proof { Self::lemma_moved_on_trans(old(self), &s1, self); }
        match first {
            Some(expr) => {
                proof { lemma_exprs_view_push(list@, expr); }
                list.push(expr);
            },
            None => return None,
        }
        assert(exprs_view(list@, 1) =~= seq![exprs_view(list@, 1)[0]]);
        while self.peek_token_is(TokenKind::COMMA)
            invariant
                Self::moved_on(old(self), self),
                self.remaining() < old(self).remaining(),
                g_expr_list(old(self).lexemes(), old(self).pstate(), end) == g_list_rest(self.lexemes(),
                    self.pstate(),
                    end,
                    exprs_view(list@, list@.len() as int),
                ),
            decreases self.remaining(),
        {
            let ghost s0 = *self;
            self.next_token();
            self.next_token();
            let ghost s1 = *self;
            proof { Self::lemma_moved_on_trans(old(self), &s0, &s1); }
            let item = self.parse_expression(Precedence::Lowest);
            proof { Self::lemma_moved_on_trans(old(self), &s1, self); }
            match item {
                Some(expr) => {
                    proof { lemma_exprs_view_push(list@, expr); }
                    list.push(expr);
                },
                None => return None,
            }
        }
        let ghost s2 = *self;
        let ok = self.expect_peek(end);
        proof { Self::lemma_moved_on_trans(old(self), &s2, self); }
        if !ok {
            return None;
        }
        Some(list)
    }
}

} // verus!
