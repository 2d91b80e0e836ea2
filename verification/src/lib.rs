//! A small S-expression language: lexer, parser, scoped environment and a
//! tree-walking evaluator, with machine-checked contracts.
//!
//! A source text is lexed into tokens ([`lexer`]), the tokens are parsed
//! into one expression tree ([`parser`]) and the tree is evaluated in an
//! environment of chained frames ([`scope`], [`eval`]). Every executable
//! function comes with a mathematical model of what it computes, and is
//! proved to compute it; [`laws`] holds what follows for every program.
//!
//! Doubles are carried as IEEE-754 bit patterns. The library orders them
//! itself ([`order`]); arithmetic on them, reading their literals and
//! showing them is left to the host ([`float`]), and every contract says
//! what is made of the host's answers.

pub mod error;
pub mod eval;
pub mod float;
pub mod laws;
pub mod lexer;
pub mod object;
pub mod operator;
pub mod order;
pub mod parser;
pub mod render;
pub mod scope;

pub use crate::error::{EvalError, ParserError};
pub use crate::eval::{eval, evaluate};
pub use crate::float::FloatArith;
pub use crate::lexer::{lexing, Lexer, LexerToken};
pub use crate::object::{Object, Op};
pub use crate::parser::parse;
pub use crate::scope::Scope;
