//! The two families of errors: those of the parser and those of a run.

use vstd::prelude::*;
use vstd::string::*;
use crate::span::Span;
use crate::text::{decimal, decimal_text};
use crate::value::{Value, ValueView};

verus! {

/// Why parsing stopped: what was expected, and where.
#[derive(Debug, PartialEq)]
pub enum ParserError {
    Custom { message: String, span: Span },
}

/// The mathematical model of a [`ParserError`].
pub enum ParserErrorView {
    Custom { message: Seq<char>, span: Span },
}

impl View for ParserError {
    type V = ParserErrorView;

    open spec fn view(&self) -> ParserErrorView {
        match *self {
            ParserError::Custom { message, span } => ParserErrorView::Custom {
                message: message@,
                span,
            },
        }
    }
}

/// Why a run stopped.
#[derive(Debug, PartialEq)]
pub enum RuntimeError {
    /// A name was read that no scope of the chain binds, or assigned that
    /// the innermost scope does not bind.
    UndefinedVariable(String),
    /// The operator does not apply to operands of these kinds.
    InvalidBinaryOperation,
    /// The operator does not apply to an operand of this kind.
    InvalidUnaryOperation,
    /// A number was divided by zero.
    DivisionByZero,
    /// The first bound of a range is not a number.
    RangeStartNotNumber,
    /// The second bound of a range is not a number.
    RangeEndNotNumber,
    /// The callee is this value, which is no function.
    NotCallable(Value),
    /// A function of `expected` parameters was called with `got` arguments.
    ArityMismatch { expected: usize, got: usize },
    /// A `break` or `continue` left a branch of an `if`.
    BreakContinueInIf,
    /// A `break` or `continue` left a function body or the program.
    BreakContinueOutsideLoop,
    /// Property access has no meaning yet.
    PropertyAccessNotImplemented,
    /// An assignment was given to the evaluator of plain expressions.
    AssignmentNotSupported,
    /// A call was given to the evaluator of plain expressions.
    CallNotSupported,
    /// The budget of calls and loop rounds was used up.
    BudgetExhausted,
}

/// The mathematical model of a [`RuntimeError`].
pub enum RuntimeErrorView {
    UndefinedVariable(Seq<char>),
    InvalidBinaryOperation,
    InvalidUnaryOperation,
    DivisionByZero,
    RangeStartNotNumber,
    RangeEndNotNumber,
    NotCallable(ValueView),
    ArityMismatch { expected: usize, got: usize },
    BreakContinueInIf,
    BreakContinueOutsideLoop,
    PropertyAccessNotImplemented,
    AssignmentNotSupported,
    CallNotSupported,
    BudgetExhausted,
}

impl View for RuntimeError {
    type V = RuntimeErrorView;

    open spec fn view(&self) -> RuntimeErrorView {
        match *self {
            RuntimeError::UndefinedVariable(name) => RuntimeErrorView::UndefinedVariable(name@),
            RuntimeError::InvalidBinaryOperation => RuntimeErrorView::InvalidBinaryOperation,
            RuntimeError::InvalidUnaryOperation => RuntimeErrorView::InvalidUnaryOperation,
            RuntimeError::DivisionByZero => RuntimeErrorView::DivisionByZero,
            RuntimeError::RangeStartNotNumber => RuntimeErrorView::RangeStartNotNumber,
            RuntimeError::RangeEndNotNumber => RuntimeErrorView::RangeEndNotNumber,
            RuntimeError::NotCallable(value) => RuntimeErrorView::NotCallable(value@),
            RuntimeError::ArityMismatch { expected, got } => RuntimeErrorView::ArityMismatch {
                expected,
                got,
            },
            RuntimeError::BreakContinueInIf => RuntimeErrorView::BreakContinueInIf,
            RuntimeError::BreakContinueOutsideLoop => RuntimeErrorView::BreakContinueOutsideLoop,
            RuntimeError::PropertyAccessNotImplemented =>
                RuntimeErrorView::PropertyAccessNotImplemented,
            RuntimeError::AssignmentNotSupported => RuntimeErrorView::AssignmentNotSupported,
            RuntimeError::CallNotSupported => RuntimeErrorView::CallNotSupported,
            RuntimeError::BudgetExhausted => RuntimeErrorView::BudgetExhausted,
        }
    }
}

/// What a value is called in a message.
pub open spec fn kind_name(value: ValueView) -> Seq<char> {
    match value {
        ValueView::String(_) => "a string"@,
        ValueView::Number(_) => "a number"@,
        ValueView::Bool(_) => "a boolean"@,
        ValueView::Function(_) => "a function"@,
        ValueView::Null => "null"@,
    }
}

impl RuntimeErrorView {
    /// The error in words.
    pub open spec fn message(self) -> Seq<char> {
        match self {
            RuntimeErrorView::UndefinedVariable(name) => "Undefined variable '"@ + name + "'"@,
            RuntimeErrorView::InvalidBinaryOperation => "Invalid binary operation"@,
            RuntimeErrorView::InvalidUnaryOperation => "Invalid unary operation"@,
            RuntimeErrorView::DivisionByZero => "Division by zero"@,
            RuntimeErrorView::RangeStartNotNumber => "Range start must be a number"@,
            RuntimeErrorView::RangeEndNotNumber => "Range end must be a number"@,
            RuntimeErrorView::NotCallable(value) => "Can only call functions, got "@ + kind_name(
                value,
            ),
            RuntimeErrorView::ArityMismatch { expected, got } => "Expected "@ + decimal(
                expected as nat,
            ) + " arguments but got "@ + decimal(got as nat),
            RuntimeErrorView::BreakContinueInIf => "Break/continue not allowed in if statement"@,
            RuntimeErrorView::BreakContinueOutsideLoop => "Break/continue outside of loop"@,
            RuntimeErrorView::PropertyAccessNotImplemented =>
                "Property access not implemented yet"@,
            RuntimeErrorView::AssignmentNotSupported =>
                "Assignment should be handled by executor"@,
            RuntimeErrorView::CallNotSupported => "Function calls must be handled as statements"@,
            RuntimeErrorView::BudgetExhausted => "Budget of calls and loop rounds exhausted"@,
        }
    }
}

/// What a value is called in a message.
fn name_of_kind(value: &Value) -> (name: &'static str)
    ensures
        name@ == kind_name(value@),
{
    match value {
        Value::String(_) => "a string",
        Value::Number(_) => "a number",
        Value::Bool(_) => "a boolean",
        Value::Function(_) => "a function",
        Value::Null => "null",
    }
}

impl RuntimeError {
    /// The error in words.
    pub fn message(&self) -> (text: String)
        ensures
            text@ == self@.message(),
    {
        match self {
            RuntimeError::UndefinedVariable(name) => {
                let start: String = "Undefined variable '".to_owned();
                start.concat(name.as_str()).concat("'")
            },
            RuntimeError::InvalidBinaryOperation => "Invalid binary operation".to_owned(),
            RuntimeError::InvalidUnaryOperation => "Invalid unary operation".to_owned(),
            RuntimeError::DivisionByZero => "Division by zero".to_owned(),
            RuntimeError::RangeStartNotNumber => "Range start must be a number".to_owned(),
            RuntimeError::RangeEndNotNumber => "Range end must be a number".to_owned(),
            RuntimeError::NotCallable(value) => {
                let start: String = "Can only call functions, got ".to_owned();
                start.concat(name_of_kind(value))
            },
            RuntimeError::ArityMismatch { expected, got } => {
                let start: String = "Expected ".to_owned();
                let wanted: String = decimal_text(*expected);
                let given: String = decimal_text(*got);
                start.concat(wanted.as_str()).concat(" arguments but got ").concat(given.as_str())
            },
            RuntimeError::BreakContinueInIf => "Break/continue not allowed in if statement"
                .to_owned(),
            RuntimeError::BreakContinueOutsideLoop => "Break/continue outside of loop".to_owned(),
            RuntimeError::PropertyAccessNotImplemented => "Property access not implemented yet"
                .to_owned(),
            RuntimeError::AssignmentNotSupported => "Assignment should be handled by executor"
                .to_owned(),
            RuntimeError::CallNotSupported => "Function calls must be handled as statements"
                .to_owned(),
            RuntimeError::BudgetExhausted => "Budget of calls and loop rounds exhausted".to_owned(),
        }
    }
}

} // verus!
