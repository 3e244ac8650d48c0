use vstd::prelude::*;
use crate::token::Token;
use std::rc::Rc;

verus! {

/// A name in the program, with the token it was read from.
#[derive(Clone, Debug, PartialEq)]
pub struct Identifier {
    pub literal: String,
    pub token: Token,
}

impl Identifier {
    pub fn new(token: Token, literal: String) -> (r: Self)
        ensures
            r.token == token,
            r.literal == literal,
    {
        Identifier { literal, token }
    }
}

/// Binary operators.
#[derive(Clone, Copy, Debug, PartialEq, Eq, Structural)]
pub enum Infix {
    Plus,
    Minus,
    Divide,
    Multiply,
    Equal,
    NotEqual,
    GreaterThanEqual,
    GreaterThan,
    LessThanEqual,
    LessThan,
}

/// Unary operators.
#[derive(Clone, Copy, Debug, PartialEq, Eq, Structural)]
pub enum Prefix {
    Plus,
    Minus,
    Not,
}

/// Binding power of an operator; a later variant binds tighter.
#[derive(Clone, Copy, Debug, PartialEq, Eq, Structural)]
pub enum Precedence {
    Lowest,
    Equals,
    LessGreater,
    Sum,
    Product,
    Prefix,
    Index,
    Call,
}

impl Precedence {
    pub open spec fn rank(self) -> int {
        match self {
            Precedence::Lowest => 0,
            Precedence::Equals => 1,
            Precedence::LessGreater => 2,
            Precedence::Sum => 3,
            Precedence::Product => 4,
            Precedence::Prefix => 5,
            Precedence::Index => 6,
            Precedence::Call => 7,
        }
    }

    pub fn level(&self) -> (r: u8)
        ensures
            r as int == self.rank(),
    {
        match self {
            Precedence::Lowest => 0,
            Precedence::Equals => 1,
            Precedence::LessGreater => 2,
            Precedence::Sum => 3,
            Precedence::Product => 4,
            Precedence::Prefix => 5,
            Precedence::Index => 6,
            Precedence::Call => 7,
        }
    }
}

/// Literal values written in the program.
#[derive(Debug, PartialEq)]
pub enum Literal {
    Int { token: Token, value: i64 },
    String(String),
    Bool(bool),
    Array(Vec<Expression>),
    Hash(Vec<(Expression, Expression)>),
}

#[derive(Debug, PartialEq)]
pub enum Expression {
    Identifier(Identifier),
    Literal(Literal),
    Prefix(Prefix, Box<Expression>),
    Infix(Infix, Box<Expression>, Box<Expression>),
    Index(Box<Expression>, Box<Expression>),
    If {
        condition: Box<Expression>,
        consequence: BlockOfStatements,
        alternative: Option<BlockOfStatements>,
    },
    Function { params: Rc<Vec<Identifier>>, body: Rc<BlockOfStatements> },
    Call { func: Box<Expression>, args: Option<Vec<Expression>> },
}

#[derive(Debug, PartialEq)]
pub enum Statement {
    Let { name: Identifier, value: Expression },
    Return { return_value: Expression },
    Expression { expression: Expression },
}

pub type BlockOfStatements = Vec<Statement>;

pub type Program = BlockOfStatements;

} // verus!
