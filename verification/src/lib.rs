//! A tree-walking interpreter for the Lox scripting language.
//!
//! A source text goes through four stages: the [`lexer`] turns it into
//! tokens, the [`parser`] turns the tokens into a syntax tree, the
//! [`resolver`] finds for every use of a local variable how far away its
//! declaration is, and the [`interpreter`] runs the tree. Each stage reports
//! its own kind of error and none of them prints: printing, and arithmetic
//! on doubles, are asked of the host, which the interpreter drives by the
//! actions it stops with.
//!
//! What each stage computes is defined as a mathematical function (in the
//! modules of the stages and, for the interpreter, in [`machine`]), and every
//! executable function is proved to compute just that. The module [`laws`]
//! holds what is proved of the stages together.

pub mod ast;
pub mod front;
pub mod interpreter;
pub mod laws;
pub mod lexer;
pub mod machine;
pub mod parser;
pub mod resolver;
pub mod runtime;
pub mod token;
