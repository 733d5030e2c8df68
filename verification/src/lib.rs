//! A small tree-walking interpreter for a dynamically typed, C-like
//! scripting language: integers, booleans, `let` and `return` statements,
//! prefix and infix operators, `if`/`else` conditionals, and first-class
//! functions with closures.
//!
//! The pipeline is lexer -> Pratt parser -> evaluator.  Each stage carries a
//! mathematical model: the lexer is proved against a specification of the
//! token stream, the parser against a specification of the grammar walk, and
//! the evaluator against a fuel-indexed specification interpreter over an
//! arena of environment records.

pub mod ast;
pub mod digits;
pub mod eval;
pub mod lexer;
pub mod object;
pub mod parser;
pub mod render;
pub mod token;
