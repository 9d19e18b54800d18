//! Errors of the lexer.

use vstd::prelude::*;
use crate::span::Span;

verus! {

/// A message about a place in the source.
#[derive(Debug, Clone)]
pub struct LexError {
    pub message: String,
    pub span: Span,
}

/// Why no token could be read.
#[derive(Debug, Clone, Copy, PartialEq, Eq, Structural)]
pub enum LexerError {
    /// No token begins with this character.
    UnexpectedCharacter { found: char, span: Span },
    /// A string has no closing quote.
    UnterminatedString { span: Span },
    /// A number has more than one point, more digits than fit in 64 bits,
    /// or more than 19 of them behind the point.
    InvalidNumber { span: Span },
}

} // verus!
