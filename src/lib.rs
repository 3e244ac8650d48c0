//! An interpreter for a small scripting language: a lexer and a precedence-climbing
//! parser that turn text into a syntax tree, and a tree-walking evaluator with
//! lexically scoped closures. Each stage is proved against a model of its own:
//! the lexer and the parser against a spec grammar, the evaluator against a spec
//! interpreter.

pub mod token;
pub mod lexer;
pub mod number;
pub mod text;
pub mod ast;
pub mod grammar;
pub mod parser;
pub mod render;
pub mod object;
pub mod environment;
pub mod builtins;
pub mod semantics;
pub mod evaluator;
pub mod laws;
pub mod repl;
