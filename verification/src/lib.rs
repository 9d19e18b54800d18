//! A small scripting language: a lexer, a recursive-descent parser from
//! tokens to a syntax tree, and a tree-walking evaluator over a chain of
//! scopes.
//!
//! Each executable part is held to a mathematical account of what it
//! computes: [`lexer::rules`] for the lexer, [`parser::grammar`] for the
//! parser, [`semantics`] for the evaluator, and the functions of
//! [`number`] for its arithmetic. [`laws`] proves what follows from these
//! accounts.
//!
//! Numbers are IEEE 754 binary64 values that are computed on their
//! encodings, in integers. The library neither reads nor writes: what a
//! program prints is collected as [`stdlib::Fragment`]s for the caller to
//! write. Every run has a budget of calls and loop rounds, so that it
//! ends; see [`semantics`].

pub mod ast;
pub mod environment;
pub mod error;
pub mod evaluator;
pub mod executor;
pub mod interpreter;
pub mod laws;
pub mod lexer;
pub mod number;
pub mod parser;
pub mod semantics;
pub mod span;
pub mod stdlib;
pub mod text;
pub mod token;
pub mod value;

pub use crate::ast::{Expr, Literal, Parameter, Stmt, Type};
pub use crate::environment::Environment;
pub use crate::error::{ParserError, RuntimeError};
pub use crate::evaluator::Evaluator;
pub use crate::executor::Executor;
pub use crate::interpreter::Interpreter;
pub use crate::lexer::error::{LexError, LexerError};
pub use crate::lexer::Lexer;
pub use crate::number::Number;
pub use crate::parser::Parser;
pub use crate::span::Span;
pub use crate::stdlib::{Fragment, StdLib};
pub use crate::token::{Token, TokenKind};
pub use crate::value::{ControlFlow, Function, Value};
