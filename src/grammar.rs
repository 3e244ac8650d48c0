use vstd::prelude::*;
use crate::ast::{Expression, Identifier, Infix, Literal, Precedence, Prefix, Statement};
use crate::number::parse_decimal_spec;
use crate::token::{kind_text, TokenKind};
use crate::parser::{infix_of, precedence_of};

verus! {

/// The model of a name: its text and the token it was read from.
pub struct Name {
    pub text: Seq<char>,
    pub token: Lexeme,
}

/// The mathematical model of an expression tree; literals and names keep the
/// token they were read from.
pub enum Expr {
    Ident(Name),
    Int(i64, Lexeme),
    Str(Seq<char>),
    Bool(bool),
    Array(Seq<Expr>),
    Hash,
    Prefix(Prefix, Box<Expr>),
    Infix(Infix, Box<Expr>, Box<Expr>),
    Index(Box<Expr>, Box<Expr>),
    If(Box<Expr>, Seq<Stmt>, Option<Seq<Stmt>>),
    Function(Seq<Name>, Seq<Stmt>),
    Call(Box<Expr>, Option<Seq<Expr>>),
}

/// The mathematical model of a statement.
pub enum Stmt {
    Let(Name, Expr),
    Return(Expr),
    Expr(Expr),
}

pub open spec fn token_view(t: crate::token::Token) -> Lexeme {
    Lexeme { kind: t.kind, text: t.literal@ }
}

pub open spec fn name_view(id: Identifier) -> Name {
    Name { text: id.literal@, token: token_view(id.token) }
}

/// A name read from a token: the token's own text.
pub open spec fn name_from(l: Lexeme) -> Name {
    Name { text: l.text, token: l }
}

pub open spec fn names_of(ps: Seq<Identifier>) -> Seq<Name> {
    Seq::new(ps.len(), |i: int| name_view(ps[i]))
}

pub open spec fn expr_view(e: Expression) -> Expr
    decreases e, 0int,
{
    match e {
        Expression::Identifier(id) => Expr::Ident(name_view(id)),
        Expression::Literal(lit) => match lit {
            Literal::Int { value, token } => Expr::Int(value, token_view(token)),
            Literal::String(s) => Expr::Str(s@),
            Literal::Bool(b) => Expr::Bool(b),
            Literal::Array(v) => Expr::Array(exprs_view(v@, v@.len() as int)),
            Literal::Hash(_) => Expr::Hash,
        },
        Expression::Prefix(op, x) => Expr::Prefix(op, Box::new(expr_view(*x))),
        Expression::Infix(op, l, r) => Expr::Infix(op, Box::new(expr_view(*l)), Box::new(expr_view(*r))),
        Expression::Index(a, i) => Expr::Index(Box::new(expr_view(*a)), Box::new(expr_view(*i))),
        Expression::If { condition, consequence, alternative } => Expr::If(
            Box::new(expr_view(*condition)),
            stmts_view(consequence@, consequence@.len() as int),
            match alternative {
                Some(a) => Some(stmts_view(a@, a@.len() as int)),
                None => None,
            },
        ),
        Expression::Function { params, body } => Expr::Function(
            names_of((*params)@),
            stmts_view((*body)@, (*body)@.len() as int),
        ),
        Expression::Call { func, args } => Expr::Call(
            Box::new(expr_view(*func)),
            match args {
                Some(a) => Some(exprs_view(a@, a@.len() as int)),
                None => None,
            },
        ),
    }
}

/// The models of the first `n` expressions of `s`.
pub open spec fn exprs_view(s: Seq<Expression>, n: int) -> Seq<Expr>
    decreases s, n,
{
    if n <= 0 || n > s.len() {
        Seq::empty()
    } else {
        exprs_view(s, n - 1).push(expr_view(s[n - 1]))
    }
}

pub open spec fn stmt_view(s: Statement) -> Stmt
    decreases s, 0int,
{
    match s {
        Statement::Let { name, value } => Stmt::Let(name_view(name), expr_view(value)),
        Statement::Return { return_value } => Stmt::Return(expr_view(return_value)),
        Statement::Expression { expression } => Stmt::Expr(expr_view(expression)),
    }
}

/// The models of the first `n` statements of `s`.
pub open spec fn stmts_view(s: Seq<Statement>, n: int) -> Seq<Stmt>
    decreases s, n,
{
    if n <= 0 || n > s.len() {
        Seq::empty()
    } else {
        stmts_view(s, n - 1).push(stmt_view(s[n - 1]))
    }
}

pub open spec fn opt_expr_view(r: Option<Expression>) -> Option<Expr> {
    match r {
        Some(e) => Some(expr_view(e)),
        None => None,
    }
}

pub open spec fn opt_stmt_view(r: Option<Statement>) -> Option<Stmt> {
    match r {
        Some(s) => Some(stmt_view(s)),
        None => None,
    }
}


/// The model of a token: its kind and its text.
pub struct Lexeme {
    pub kind: TokenKind,
    pub text: Seq<char>,
}

pub open spec fn lexemes_of(s: Seq<crate::token::Token>) -> Seq<Lexeme> {
    Seq::new(s.len(), |i: int| Lexeme { kind: s[i].kind, text: s[i].literal@ })
}

/// Where a parse stands: the index of the current token and the errors so far.
pub struct PState {
    pub pos: int,
    pub errs: Seq<Seq<char>>,
}

pub open spec fn cur(t: Seq<Lexeme>, s: PState) -> Lexeme {
    t[s.pos]
}

pub open spec fn peek_tok(t: Seq<Lexeme>, s: PState) -> Lexeme {
    if s.pos + 1 < t.len() { t[s.pos + 1] } else { t.last() }
}

pub open spec fn advance(t: Seq<Lexeme>, s: PState) -> PState {
    if s.pos + 1 < t.len() { PState { pos: s.pos + 1, errs: s.errs } } else { s }
}

pub open spec fn with_error(s: PState, msg: Seq<char>) -> PState {
    PState { pos: s.pos, errs: s.errs.push(msg) }
}

pub open spec fn expected_msg(want: TokenKind, got: TokenKind) -> Seq<char> {
    "Expected "@ + kind_text(want) + ", but received "@ + kind_text(got)
}

pub open spec fn no_prefix_msg(k: TokenKind) -> Seq<char> {
    "No Prefix Parsing Function available for "@ + kind_text(k)
}

pub open spec fn bad_int_msg(lit: Seq<char>) -> Seq<char> {
    "Could not parse "@ + lit + " as an integer"@
}

/// Steps onto the next token when it has kind `k`; records an error otherwise.
pub open spec fn expect(t: Seq<Lexeme>, s: PState, k: TokenKind) -> (bool, PState) {
    if peek_tok(t, s).kind == k {
        (true, advance(t, s))
    } else {
        (false, with_error(s, expected_msg(k, peek_tok(t, s).kind)))
    }
}

pub open spec fn skip_semicolon(t: Seq<Lexeme>, s: PState) -> PState {
    if peek_tok(t, s).kind == TokenKind::SEMICOLON { advance(t, s) } else { s }
}

pub open spec fn valid(t: Seq<Lexeme>, s: PState) -> bool {
    0 <= s.pos < t.len()
}

/// Statements up to the end of input; each ends on its last token, and the
/// parse moves one token past it.
pub open spec fn g_program(t: Seq<Lexeme>, s: PState, acc: Seq<Stmt>) -> (Seq<Stmt>, PState)
    decreases t.len() - s.pos, 10int,
{
    if !valid(t, s) || cur(t, s).kind == TokenKind::EOF {
        (acc, s)
    } else {
        let (r, s1) = g_statement(t, s);
        let acc1 = match r { Some(st) => acc.push(st), None => acc };
        let s2 = advance(t, s1);
        if s2.pos <= s.pos || !valid(t, s2) { (acc1, s2) } else { g_program(t, s2, acc1) }
    }
}

/// A block's statements after its `{`, up to its `}` or the end of input.
pub open spec fn g_block_rest(t: Seq<Lexeme>, s: PState, acc: Seq<Stmt>) -> (Seq<Stmt>, PState)
    decreases t.len() - s.pos, 8int,
{
    if !valid(t, s) || cur(t, s).kind == TokenKind::RBRACE || cur(t, s).kind == TokenKind::EOF {
        (acc, s)
    } else {
        let (r, s1) = g_statement(t, s);
        let acc1 = match r { Some(st) => acc.push(st), None => acc };
        let s2 = advance(t, s1);
        if s2.pos <= s.pos || !valid(t, s2) { (acc1, s2) } else { g_block_rest(t, s2, acc1) }
    }
}

pub open spec fn g_block(t: Seq<Lexeme>, s: PState) -> (Seq<Stmt>, PState)
    decreases t.len() - s.pos, 9int,
{
    let s1 = advance(t, s);
    if s1.pos < s.pos { (Seq::empty(), s1) } else { g_block_rest(t, s1, Seq::empty()) }
}

pub open spec fn g_statement(t: Seq<Lexeme>, s: PState) -> (Option<Stmt>, PState)
    decreases t.len() - s.pos, 7int,
{
    if !valid(t, s) {
        (None, s)
    } else if cur(t, s).kind == TokenKind::LET {
        g_let(t, s)
    } else if cur(t, s).kind == TokenKind::RETURN {
        g_return(t, s)
    } else {
        g_expr_stmt(t, s)
    }
}

pub open spec fn g_let(t: Seq<Lexeme>, s: PState) -> (Option<Stmt>, PState)
    decreases t.len() - s.pos, 6int,
{
    let (ok, s1) = expect(t, s, TokenKind::IDENT);
    if !ok || !valid(t, s1) {
        (None, s1)
    } else {
        let name = name_from(cur(t, s1));
        let (ok2, s2) = expect(t, s1, TokenKind::ASSIGN);
        if !ok2 {
            (None, s2)
        } else {
            let s3 = advance(t, s2);
            if s3.pos < s.pos || !valid(t, s3) {
                (None, s3)
            } else {
                let (v, s4) = g_expression(t, s3, Precedence::Lowest);
                match v {
                    None => (None, s4),
                    Some(e) => (Some(Stmt::Let(name, e)), skip_semicolon(t, s4)),
                }
            }
        }
    }
}

pub open spec fn g_return(t: Seq<Lexeme>, s: PState) -> (Option<Stmt>, PState)
    decreases t.len() - s.pos, 6int,
{
    let s1 = advance(t, s);
    if !valid(t, s) || !valid(t, s1) || s1.pos < s.pos {
        (None, s1)
    } else if cur(t, s).kind == TokenKind::EOF {
        (None, with_error(s1, no_prefix_msg(cur(t, s1).kind)))
    } else {
        let (v, s2) = g_expression(t, s1, Precedence::Lowest);
        match v {
            None => (None, s2),
            Some(e) => (Some(Stmt::Return(e)), skip_semicolon(t, s2)),
        }
    }
}

pub open spec fn g_expr_stmt(t: Seq<Lexeme>, s: PState) -> (Option<Stmt>, PState)
    decreases t.len() - s.pos, 6int,
{
    let (v, s1) = g_expression(t, s, Precedence::Lowest);
    match v {
        None => (None, s1),
        Some(e) => (Some(Stmt::Expr(e)), skip_semicolon(t, s1)),
    }
}

/// Precedence climbing: a prefix form, then every operator after it that binds
/// tighter than `prec`.
pub open spec fn g_expression(t: Seq<Lexeme>, s: PState, prec: Precedence) -> (Option<Expr>, PState)
    decreases t.len() - s.pos, 5int,
{
    let (left, s1) = g_prefix(t, s);
    if s1.pos < s.pos || !valid(t, s1) { (left, s1) } else { g_infix_loop(t, s1, prec, left) }
}

pub open spec fn g_infix_loop(t: Seq<Lexeme>, s: PState, prec: Precedence, left: Option<Expr>) -> (Option<Expr>, PState)
    decreases t.len() - s.pos, 4int,
{
    let k = peek_tok(t, s).kind;
    if k == TokenKind::SEMICOLON || !(prec.rank() < precedence_of(k).rank()) {
        (left, s)
    } else {
        match left {
            None => (None, s),
            Some(l) => {
                let s1 = advance(t, s);
                if s1.pos <= s.pos || !valid(t, s1) {
                    (None, s1)
                } else if k == TokenKind::LPAREN || k == TokenKind::LBRACKET || infix_of(k) is Some {
                    let (r, s2) = if k == TokenKind::LPAREN {
                        g_call(t, s1, l)
                    } else if k == TokenKind::LBRACKET {
                        g_index(t, s1, l)
                    } else {
                        g_infix_one(t, s1, l)
                    };
                    if s2.pos < s1.pos || !valid(t, s2) { (r, s2) } else { g_infix_loop(t, s2, prec, r) }
                } else {
                    (Some(l), s)
                }
            },
        }
    }
}

pub open spec fn g_prefix(t: Seq<Lexeme>, s: PState) -> (Option<Expr>, PState)
    decreases t.len() - s.pos, 4int,
{
    if !valid(t, s) {
        (None, s)
    } else {
        let c = cur(t, s);
        match c.kind {
            TokenKind::IDENT => (Some(Expr::Ident(name_from(c))), s),
            TokenKind::INT => match parse_decimal_spec(c.text) {
                Some(v) => (Some(Expr::Int(v, c)), s),
                None => (None, with_error(s, bad_int_msg(c.text))),
            },
            TokenKind::TRUE => (Some(Expr::Bool(true)), s),
            TokenKind::FALSE => (Some(Expr::Bool(false)), s),
            TokenKind::BANG | TokenKind::MINUS | TokenKind::PLUS => g_prefix_op(t, s),
            TokenKind::LPAREN => g_grouped(t, s),
            TokenKind::LBRACKET => g_array(t, s),
            TokenKind::IF => g_if(t, s),
            TokenKind::FUNCTION => g_function(t, s),
            TokenKind::STRING => (Some(Expr::Str(c.text)), s),
            _ => (None, with_error(s, no_prefix_msg(c.kind))),
        }
    }
}

pub open spec fn prefix_of(k: TokenKind) -> Prefix {
    if k == TokenKind::BANG { Prefix::Not } else if k == TokenKind::MINUS { Prefix::Minus } else { Prefix::Plus }
}

pub open spec fn g_prefix_op(t: Seq<Lexeme>, s: PState) -> (Option<Expr>, PState)
    decreases t.len() - s.pos, 3int,
{
    let op = prefix_of(cur(t, s).kind);
    let s1 = advance(t, s);
    if s1.pos <= s.pos || !valid(t, s1) {
        (None, s1)
    } else {
        let (x, s2) = g_expression(t, s1, Precedence::Prefix);
        match x {
            Some(e) => (Some(Expr::Prefix(op, Box::new(e))), s2),
            None => (None, s2),
        }
    }
}

pub open spec fn g_grouped(t: Seq<Lexeme>, s: PState) -> (Option<Expr>, PState)
    decreases t.len() - s.pos, 3int,
{
    let s1 = advance(t, s);
    if s1.pos <= s.pos || !valid(t, s1) {
        (None, s1)
    } else {
        let (e, s2) = g_expression(t, s1, Precedence::Lowest);
        let (ok, s3) = expect(t, s2, TokenKind::RPAREN);
        if ok { (e, s3) } else { (None, s3) }
    }
}

pub open spec fn g_array(t: Seq<Lexeme>, s: PState) -> (Option<Expr>, PState)
    decreases t.len() - s.pos, 3int,
{
    let (r, s1) = g_expr_list(t, s, TokenKind::RBRACKET);
    match r {
        Some(list) => (Some(Expr::Array(list)), s1),
        None => (None, s1),
    }
}

pub open spec fn g_expr_list(t: Seq<Lexeme>, s: PState, end: TokenKind) -> (Option<Seq<Expr>>, PState)
    decreases t.len() - s.pos, 2int,
{
    if peek_tok(t, s).kind == end {
        (Some(Seq::empty()), advance(t, s))
    } else {
        let s1 = advance(t, s);
        if s1.pos <= s.pos || !valid(t, s1) {
            (None, s1)
        } else {
            let (e, s2) = g_expression(t, s1, Precedence::Lowest);
            match e {
                None => (None, s2),
                Some(x) => if s2.pos < s1.pos || !valid(t, s2) {
                    (None, s2)
                } else {
                    g_list_rest(t, s2, end, seq![x])
                },
            }
        }
    }
}

pub open spec fn g_list_rest(t: Seq<Lexeme>, s: PState, end: TokenKind, acc: Seq<Expr>) -> (Option<Seq<Expr>>, PState)
    decreases t.len() - s.pos, 2int,
{
    if peek_tok(t, s).kind == TokenKind::COMMA {
        let s1 = advance(t, advance(t, s));
        if s1.pos <= s.pos || !valid(t, s1) {
            (None, s1)
        } else {
            let (e, s2) = g_expression(t, s1, Precedence::Lowest);
            match e {
                None => (None, s2),
                Some(x) => if s2.pos < s1.pos || !valid(t, s2) {
                    (None, s2)
                } else {
                    g_list_rest(t, s2, end, acc.push(x))
                },
            }
        }
    } else {
        let (ok, s1) = expect(t, s, end);
        if ok { (Some(acc), s1) } else { (None, s1) }
    }
}

pub open spec fn g_call(t: Seq<Lexeme>, s: PState, left: Expr) -> (Option<Expr>, PState)
    decreases t.len() - s.pos, 3int,
{
    let (args, s1) = g_expr_list(t, s, TokenKind::RPAREN);
    (Some(Expr::Call(Box::new(left), args)), s1)
}

pub open spec fn g_index(t: Seq<Lexeme>, s: PState, left: Expr) -> (Option<Expr>, PState)
    decreases t.len() - s.pos, 1int,
{
    let s1 = advance(t, s);
    if s1.pos <= s.pos || !valid(t, s1) {
        (None, s1)
    } else {
        let (i, s2) = g_expression(t, s1, Precedence::Lowest);
        match i {
            None => (None, s2),
            Some(x) => {
                let (ok, s3) = expect(t, s2, TokenKind::RBRACKET);
                if ok { (Some(Expr::Index(Box::new(left), Box::new(x))), s3) } else { (None, s3) }
            },
        }
    }
}

pub open spec fn g_infix_one(t: Seq<Lexeme>, s: PState, left: Expr) -> (Option<Expr>, PState)
    decreases t.len() - s.pos, 1int,
{
    match infix_of(cur(t, s).kind) {
        None => (None, s),
        Some(op) => {
            let prec = precedence_of(cur(t, s).kind);
            let s1 = advance(t, s);
            if s1.pos <= s.pos || !valid(t, s1) {
                (None, s1)
            } else {
                let (r, s2) = g_expression(t, s1, prec);
                match r {
                    Some(x) => (Some(Expr::Infix(op, Box::new(left), Box::new(x))), s2),
                    None => (None, s2),
                }
            }
        },
    }
}

pub open spec fn g_if(t: Seq<Lexeme>, s: PState) -> (Option<Expr>, PState)
    decreases t.len() - s.pos, 3int,
{
    let s1 = advance(t, s);
    if s1.pos <= s.pos || !valid(t, s1) {
        (None, s1)
    } else {
        let (c, s2) = g_expression(t, s1, Precedence::Lowest);
        match c {
            None => (None, s2),
            Some(cond) => {
                let (ok, s3) = expect(t, s2, TokenKind::LBRACE);
                if !ok || s3.pos <= s.pos || !valid(t, s3) {
                    (None, s3)
                } else {
                    let (cons, s4) = g_block(t, s3);
                    if peek_tok(t, s4).kind == TokenKind::ELSE {
                        let s5 = advance(t, s4);
                        let (ok2, s6) = expect(t, s5, TokenKind::LBRACE);
                        if !ok2 || s6.pos <= s.pos || !valid(t, s6) {
                            (None, s6)
                        } else {
                            let (alt, s7) = g_block(t, s6);
                            (Some(Expr::If(Box::new(cond), cons, Some(alt))), s7)
                        }
                    } else {
                        (Some(Expr::If(Box::new(cond), cons, None)), s4)
                    }
                }
            },
        }
    }
}

pub open spec fn g_params_rest(t: Seq<Lexeme>, s: PState, acc: Seq<Name>) -> (Option<Seq<Name>>, PState)
    decreases t.len() - s.pos,
{
    if peek_tok(t, s).kind == TokenKind::COMMA {
        let s1 = advance(t, s);
        let (ok, s2) = expect(t, s1, TokenKind::IDENT);
        if !ok || s2.pos <= s.pos || !valid(t, s2) {
            (None, s2)
        } else {
            g_params_rest(t, s2, acc.push(name_from(cur(t, s2))))
        }
    } else {
        let (ok, s1) = expect(t, s, TokenKind::RPAREN);
        if ok { (Some(acc), s1) } else { (None, s1) }
    }
}

pub open spec fn g_params(t: Seq<Lexeme>, s: PState) -> (Option<Seq<Name>>, PState) {
    if peek_tok(t, s).kind == TokenKind::RPAREN {
        (Some(Seq::empty()), advance(t, s))
    } else {
        let (ok, s1) = expect(t, s, TokenKind::IDENT);
        if !ok || !valid(t, s1) { (None, s1) } else { g_params_rest(t, s1, seq![name_from(cur(t, s1))]) }
    }
}

pub open spec fn g_function(t: Seq<Lexeme>, s: PState) -> (Option<Expr>, PState)
    decreases t.len() - s.pos, 3int,
{
    let (ok, s1) = expect(t, s, TokenKind::LPAREN);
    if !ok {
        (None, s1)
    } else {
        let (ps, s2) = g_params(t, s1);
        match ps {
            None => (None, s2),
            Some(names) => {
                let (ok2, s3) = expect(t, s2, TokenKind::LBRACE);
                if !ok2 || s3.pos <= s.pos || !valid(t, s3) {
                    (None, s3)
                } else {
                    let (body, s4) = g_block(t, s3);
                    (Some(Expr::Function(names, body)), s4)
                }
            },
        }
    }
}

pub proof fn lemma_exprs_view_prefix(s: Seq<Expression>, u: Seq<Expression>, n: int)
    requires
        0 <= n <= s.len(),
        n <= u.len(),
        s.subrange(0, n) == u.subrange(0, n),
    ensures
        exprs_view(s, n) == exprs_view(u, n),
    decreases n,
{
    if n > 0 {
        assert(s.subrange(0, n - 1) =~= s.subrange(0, n).subrange(0, n - 1));
        assert(u.subrange(0, n - 1) =~= u.subrange(0, n).subrange(0, n - 1));
        assert(s[n - 1] == s.subrange(0, n)[n - 1]);
        assert(u[n - 1] == u.subrange(0, n)[n - 1]);
        lemma_exprs_view_prefix(s, u, n - 1);
    }
}

pub proof fn lemma_exprs_view_push(s: Seq<Expression>, x: Expression)
    ensures
        exprs_view(s.push(x), s.len() + 1int) == exprs_view(s, s.len() as int).push(expr_view(x)),
{
    assert(s.push(x).subrange(0, s.len() as int) =~= s.subrange(0, s.len() as int));
    lemma_exprs_view_prefix(s.push(x), s, s.len() as int);
}

pub proof fn lemma_stmts_view_prefix(s: Seq<Statement>, u: Seq<Statement>, n: int)
    requires
        0 <= n <= s.len(),
        n <= u.len(),
        s.subrange(0, n) == u.subrange(0, n),
    ensures
        stmts_view(s, n) == stmts_view(u, n),
    decreases n,
{
    if n > 0 {
        assert(s.subrange(0, n - 1) =~= s.subrange(0, n).subrange(0, n - 1));
        assert(u.subrange(0, n - 1) =~= u.subrange(0, n).subrange(0, n - 1));
        assert(s[n - 1] == s.subrange(0, n)[n - 1]);
        assert(u[n - 1] == u.subrange(0, n)[n - 1]);
        lemma_stmts_view_prefix(s, u, n - 1);
    }
}

pub proof fn lemma_stmts_view_push(s: Seq<Statement>, x: Statement)
    ensures
        stmts_view(s.push(x), s.len() + 1int) == stmts_view(s, s.len() as int).push(stmt_view(x)),
{
    assert(s.push(x).subrange(0, s.len() as int) =~= s.subrange(0, s.len() as int));
    lemma_stmts_view_prefix(s.push(x), s, s.len() as int);
}

pub open spec fn err_view(v: Seq<String>) -> Seq<Seq<char>> {
    Seq::new(v.len(), |i: int| v[i]@)
}

pub proof fn lemma_err_view_push(v: Seq<String>, m: String)
    ensures
        err_view(v.push(m)) == err_view(v).push(m@),
{
    assert(err_view(v.push(m)) =~= err_view(v).push(m@));
}
} // verus!
