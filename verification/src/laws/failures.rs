//! Errors that are told apart: division by zero, and a `break` or
//! `continue` where no loop takes it.

use vstd::prelude::*;
use crate::ast::{ExprView, LiteralView, StmtView};
use crate::error::RuntimeErrorView;
use crate::number::Number;
use crate::parser::grammar::binary;
use crate::semantics::{
    binary_result, eval_expr, exec_block, exec_stmt, run_block, truthy, State,
};
use crate::token::TokenKindView;
use crate::value::{ControlFlowView, ValueView};

verus! {

/// The quotient of two numbers is an error exactly if the divisor is zero,
/// of either sign, and the error is division by zero, not that of an
/// operator that does not apply.
pub proof fn law_division_by_zero(left: Number, right: Number)
    ensures
        binary_result(ValueView::Number(left), TokenKindView::Slash, ValueView::Number(right))
            is Err <==> right.is_zero(),
        right.is_zero() ==> binary_result(
            ValueView::Number(left),
            TokenKindView::Slash,
            ValueView::Number(right),
        ) == Err::<ValueView, RuntimeErrorView>(RuntimeErrorView::DivisionByZero),
        RuntimeErrorView::DivisionByZero != RuntimeErrorView::InvalidBinaryOperation,
{
}

/// A number literal divided by the literal zero fails with division by
/// zero, in every state.
pub proof fn law_literal_divided_by_zero(dividend: Number, state: State, fuel: nat)
    ensures
        eval_expr(
            binary(
                ExprView::Literal(LiteralView::Number(dividend)),
                TokenKindView::Slash,
                ExprView::Literal(LiteralView::Number(Number { bits: 0 })),
            ),
            state,
            fuel,
        ) == (crate::semantics::Outcome {
            result: Err::<ValueView, RuntimeErrorView>(RuntimeErrorView::DivisionByZero),
            state,
        }),
{
    let zero = ExprView::Literal(LiteralView::Number(Number { bits: 0 }));
    let left = ExprView::Literal(LiteralView::Number(dividend));
    assert(eval_expr(left, state, fuel).result == Ok::<ValueView, RuntimeErrorView>(
        ValueView::Number(dividend),
    ));
    assert(eval_expr(zero, state, fuel).result == Ok::<ValueView, RuntimeErrorView>(
        ValueView::Number(Number { bits: 0 }),
    ));
}

/// Whether a statement ended with a `break` or a `continue`.
pub open spec fn jumped(flow: ControlFlowView) -> bool {
    flow is Break || flow is Continue
}

/// A `break` or `continue` that leaves a whole, a function body or the
/// program, is the error of a jump outside of a loop.
pub proof fn law_jump_outside_loop(stmts: Seq<StmtView>, state: State, fuel: nat)
    requires
        exec_block(stmts, 0, state, fuel).result is Ok,
        jumped(exec_block(stmts, 0, state, fuel).result->Ok_0),
    ensures
        run_block(stmts, state, fuel).result == Err::<ValueView, RuntimeErrorView>(
            RuntimeErrorView::BreakContinueOutsideLoop,
        ),
{
}

/// A program that is a bare `break;` or `continue;` fails with the error
/// of a jump outside of a loop, in every state.
pub proof fn law_bare_jump(jump: StmtView, state: State, fuel: nat)
    requires
        jump is Break || jump is Continue,
    ensures
        run_block(seq![jump], state, fuel).result == Err::<ValueView, RuntimeErrorView>(
            RuntimeErrorView::BreakContinueOutsideLoop,
        ),
{
    let stmts = seq![jump];
    assert(exec_stmt(stmts[0], state, fuel).result is Ok);
    assert(jumped(exec_block(stmts, 0, state, fuel).result->Ok_0));
}

/// A `break` or `continue` that leaves the chosen branch of an `if` is the
/// error of a jump in an `if`, whatever is around the `if`.
pub proof fn law_jump_in_if(s: StmtView, state: State, fuel: nat)
    requires
        s is If,
        eval_expr(s->If_condition, state, fuel).result is Ok,
        ({
            let c = eval_expr(s->If_condition, state, fuel);
            let chosen = if truthy(c.result->Ok_0) {
                Some(s->then_branch)
            } else {
                s->else_branch
            };
            &&& chosen is Some
            &&& exec_block(chosen->Some_0, 0, c.state, fuel).result is Ok
            &&& jumped(exec_block(chosen->Some_0, 0, c.state, fuel).result->Ok_0)
        }),
    ensures
        exec_stmt(s, state, fuel).result == Err::<ControlFlowView, RuntimeErrorView>(
            RuntimeErrorView::BreakContinueInIf,
        ),
{
}

/// `if (true) { break; }`, and the same with `continue`, fails with the
/// error of a jump in an `if`, in every state.
pub proof fn law_bare_jump_in_if(jump: StmtView, state: State, fuel: nat)
    requires
        jump is Break || jump is Continue,
    ensures
        exec_stmt(
            StmtView::If {
                condition: ExprView::Literal(LiteralView::Bool(true)),
                then_branch: seq![jump],
                else_branch: None,
            },
            state,
            fuel,
        ).result == Err::<ControlFlowView, RuntimeErrorView>(RuntimeErrorView::BreakContinueInIf),
{
    let s = StmtView::If {
        condition: ExprView::Literal(LiteralView::Bool(true)),
        then_branch: seq![jump],
        else_branch: None,
    };
    let stmts = seq![jump];
    assert(exec_stmt(stmts[0], state, fuel).result is Ok);
    assert(jumped(exec_block(stmts, 0, state, fuel).result->Ok_0));
    law_jump_in_if(s, state, fuel);
}

} // verus!
