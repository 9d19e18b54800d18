//! The evaluator of plain expressions: literals, variables and operators.

use vstd::prelude::*;
use vstd::string::*;
use crate::ast::Expr;
use crate::environment::Environment;
use crate::error::{RuntimeError, RuntimeErrorView};
use crate::number::Number;
use crate::semantics::{
    binary_result, bool_binary, eval_plain, number_binary, string_binary, truthy, unary_result,
};
use crate::token::TokenKind;
use crate::value::{Value, ValueView};

verus! {

/// The model of the result of an evaluation.
pub open spec fn value_result(r: Result<Value, RuntimeError>) -> Result<
    ValueView,
    RuntimeErrorView,
> {
    match r {
        Ok(value) => Ok(value@),
        Err(error) => Err(error@),
    }
}

/// Whether a condition with this value holds.
pub fn is_truthy(value: &Value) -> (holds: bool)
    ensures
        holds == truthy(value@),
{
    match value {
        Value::Bool(b) => *b,
        Value::Null => false,
        Value::Number(n) => !n.is_zero_value(),
        _ => true,
    }
}

/// A binary operator on two numbers.
fn evaluate_number_binary(left: Number, op: &TokenKind, right: Number) -> (r: Result<
    Value,
    RuntimeError,
>)
    ensures
        value_result(r) == number_binary(left, op@, right),
{
    match op {
        TokenKind::Plus => Ok(Value::Number(left.plus(right))),
        TokenKind::Minus => Ok(Value::Number(left.minus(right))),
        TokenKind::Star => Ok(Value::Number(left.times(right))),
        TokenKind::Slash => {
            if right.is_zero_value() {
                Err(RuntimeError::DivisionByZero)
            } else {
                Ok(Value::Number(left.divided_by(right)))
            }
        },
        TokenKind::EqualEqual => Ok(Value::Bool(left.is_equal(right))),
        TokenKind::BangEqual => Ok(Value::Bool(!left.is_equal(right))),
        TokenKind::Less => Ok(Value::Bool(left.is_below(right))),
        TokenKind::LessEqual => Ok(Value::Bool(left.is_at_most(right))),
        TokenKind::Greater => Ok(Value::Bool(right.is_below(left))),
        TokenKind::GreaterEqual => Ok(Value::Bool(right.is_at_most(left))),
        _ => Err(RuntimeError::InvalidBinaryOperation),
    }
}

/// A binary operator on two strings.
fn evaluate_string_binary(left: String, op: &TokenKind, right: String) -> (r: Result<
    Value,
    RuntimeError,
>)
    ensures
        value_result(r) == string_binary(left@, op@, right@),
{
    match op {
        TokenKind::Plus => Ok(Value::String(left.concat(right.as_str()))),
        TokenKind::EqualEqual => Ok(Value::Bool(left == right)),
        TokenKind::BangEqual => Ok(Value::Bool(!(left == right))),
        _ => Err(RuntimeError::InvalidBinaryOperation),
    }
}

/// A binary operator on two booleans.
fn evaluate_bool_binary(left: bool, op: &TokenKind, right: bool) -> (r: Result<Value, RuntimeError>)
    ensures
        value_result(r) == bool_binary(left, op@, right),
{
    match op {
        TokenKind::EqualEqual => Ok(Value::Bool(left == right)),
        TokenKind::BangEqual => Ok(Value::Bool(left != right)),
        TokenKind::And => Ok(Value::Bool(left && right)),
        TokenKind::Or => Ok(Value::Bool(left || right)),
        _ => Err(RuntimeError::InvalidBinaryOperation),
    }
}

/// The evaluator of expressions that change nothing.
pub struct Evaluator;

impl Evaluator {
    /// An evaluator.
    pub fn new() -> (evaluator: Evaluator) {
        Evaluator
    }

    /// The value of `expr` in `env`. An assignment or a call is refused,
    /// an assignment after its right-hand side has been evaluated.
    pub fn evaluate(&self, expr: &Expr, env: &mut Environment) -> (r: Result<Value, RuntimeError>)
        ensures
            final(env)@ == old(env)@,
            value_result(r) == eval_plain(expr@, old(env)@),
        decreases *expr,
    {
        match expr {
            Expr::Literal(lit) => Ok(Value::from(lit.clone())),
            Expr::Variable(name) => match env.get(name.as_str()) {
                Some(value) => Ok(value.clone()),
                None => Err(RuntimeError::UndefinedVariable(name.clone())),
            },
            Expr::Binary { left, op, right } => {
                let left_value = self.evaluate(left, env)?;
                let right_value = self.evaluate(right, env)?;
                self.evaluate_binary(left_value, op, right_value)
            },
            Expr::Unary { op, right } => {
                let right_value = self.evaluate(right, env)?;
                self.evaluate_unary(op, right_value)
            },
            Expr::Assign { name, value } => {
                let _ = self.evaluate(value, env)?;
                Err(RuntimeError::AssignmentNotSupported)
            },
            Expr::Call { callee, args } => Err(RuntimeError::CallNotSupported),
            Expr::Get { object, name } => Err(RuntimeError::PropertyAccessNotImplemented),
        }
    }

    /// The result of the operator `op` on two values.
    pub fn evaluate_binary(&self, left: Value, op: &TokenKind, right: Value) -> (r: Result<
        Value,
        RuntimeError,
    >)
        ensures
            value_result(r) == binary_result(left@, op@, right@),
    {
        match (left, right) {
            (Value::Number(l), Value::Number(r)) => evaluate_number_binary(l, op, r),
            (Value::String(l), Value::String(r)) => evaluate_string_binary(l, op, r),
            (Value::Bool(l), Value::Bool(r)) => evaluate_bool_binary(l, op, r),
            _ => Err(RuntimeError::InvalidBinaryOperation),
        }
    }

    /// The result of the operator `op` on one value.
    pub fn evaluate_unary(&self, op: &TokenKind, right: Value) -> (r: Result<Value, RuntimeError>)
        ensures
            value_result(r) == unary_result(op@, right@),
    {
        match (op, right) {
            (TokenKind::Minus, Value::Number(n)) => Ok(Value::Number(n.negate())),
            (TokenKind::Bang, Value::Bool(b)) => Ok(Value::Bool(!b)),
            _ => Err(RuntimeError::InvalidUnaryOperation),
        }
    }
}

} // verus!
