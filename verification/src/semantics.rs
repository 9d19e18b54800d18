//! What programs mean: the value of each expression and the effect of each
//! statement, as functions on the models of the syntax tree and of the
//! state.
//!
//! A run has a budget. Every call of a function of the program and every
//! round of a `while` loop needs one unit, and what runs inside it sees the
//! budget without that unit; with none left the run stops with
//! [`RuntimeErrorView::BudgetExhausted`]. The budget bounds the nesting of
//! calls and rounds, so every run ends.

use vstd::prelude::*;
use crate::ast::{ExprView, ParameterView, StmtView};
use crate::environment::{assignable, define_in, enter_scope, lookup, EnvironmentView};
use crate::error::RuntimeErrorView;
use crate::number::Number;
use crate::span::Span;
use crate::stdlib::{builtin_call, FragmentView};
use crate::token::TokenKindView;
use crate::value::{literal_value, ControlFlowView, FunctionView, ValueView};

verus! {

/// What a program can change: the chain of scopes and the output.
pub struct State {
    pub scopes: EnvironmentView,
    pub output: Seq<FragmentView>,
}

/// How an evaluation ended, and the state that it left. An error leaves
/// the state that was reached when it arose.
pub struct Outcome<T> {
    pub result: Result<T, RuntimeErrorView>,
    pub state: State,
}

/// Success with `value` in `state`.
pub open spec fn done<T>(value: T, state: State) -> Outcome<T> {
    Outcome { result: Ok(value), state }
}

/// Failure with `error` in `state`.
pub open spec fn failed<T>(error: RuntimeErrorView, state: State) -> Outcome<T> {
    Outcome { result: Err(error), state }
}

/// Whether a condition with this value holds: `false`, null and the number
/// zero do not, everything else does.
pub open spec fn truthy(value: ValueView) -> bool {
    match value {
        ValueView::Bool(b) => b,
        ValueView::Null => false,
        ValueView::Number(n) => !n.is_zero(),
        _ => true,
    }
}

/// The result of a binary operator on two numbers.
pub open spec fn number_binary(left: Number, op: TokenKindView, right: Number) -> Result<
    ValueView,
    RuntimeErrorView,
> {
    match op {
        TokenKindView::Plus => Ok(ValueView::Number(left.sum(right))),
        TokenKindView::Minus => Ok(ValueView::Number(left.difference(right))),
        TokenKindView::Star => Ok(ValueView::Number(left.product(right))),
        TokenKindView::Slash => if right.is_zero() {
            Err(RuntimeErrorView::DivisionByZero)
        } else {
            Ok(ValueView::Number(left.quotient(right)))
        },
        TokenKindView::EqualEqual => Ok(ValueView::Bool(left.equals(right))),
        TokenKindView::BangEqual => Ok(ValueView::Bool(!left.equals(right))),
        TokenKindView::Less => Ok(ValueView::Bool(left.below(right))),
        TokenKindView::LessEqual => Ok(ValueView::Bool(left.at_most(right))),
        TokenKindView::Greater => Ok(ValueView::Bool(right.below(left))),
        TokenKindView::GreaterEqual => Ok(ValueView::Bool(right.at_most(left))),
        _ => Err(RuntimeErrorView::InvalidBinaryOperation),
    }
}

/// The result of a binary operator on two strings.
pub open spec fn string_binary(left: Seq<char>, op: TokenKindView, right: Seq<char>) -> Result<
    ValueView,
    RuntimeErrorView,
> {
    match op {
        TokenKindView::Plus => Ok(ValueView::String(left + right)),
        TokenKindView::EqualEqual => Ok(ValueView::Bool(left == right)),
        TokenKindView::BangEqual => Ok(ValueView::Bool(left != right)),
        _ => Err(RuntimeErrorView::InvalidBinaryOperation),
    }
}

/// The result of a binary operator on two booleans.
pub open spec fn bool_binary(left: bool, op: TokenKindView, right: bool) -> Result<
    ValueView,
    RuntimeErrorView,
> {
    match op {
        TokenKindView::EqualEqual => Ok(ValueView::Bool(left == right)),
        TokenKindView::BangEqual => Ok(ValueView::Bool(left != right)),
        TokenKindView::And => Ok(ValueView::Bool(left && right)),
        TokenKindView::Or => Ok(ValueView::Bool(left || right)),
        _ => Err(RuntimeErrorView::InvalidBinaryOperation),
    }
}

/// The result of a binary operator: the operands must be of one kind, and
/// the operator one that the kind has.
pub open spec fn binary_result(left: ValueView, op: TokenKindView, right: ValueView) -> Result<
    ValueView,
    RuntimeErrorView,
> {
    match (left, right) {
        (ValueView::Number(l), ValueView::Number(r)) => number_binary(l, op, r),
        (ValueView::String(l), ValueView::String(r)) => string_binary(l, op, r),
        (ValueView::Bool(l), ValueView::Bool(r)) => bool_binary(l, op, r),
        _ => Err(RuntimeErrorView::InvalidBinaryOperation),
    }
}

/// The result of a unary operator: `-` negates a number, `!` a boolean.
pub open spec fn unary_result(op: TokenKindView, operand: ValueView) -> Result<
    ValueView,
    RuntimeErrorView,
> {
    match (op, operand) {
        (TokenKindView::Minus, ValueView::Number(n)) => Ok(ValueView::Number(n.negated())),
        (TokenKindView::Bang, ValueView::Bool(b)) => Ok(ValueView::Bool(!b)),
        _ => Err(RuntimeErrorView::InvalidUnaryOperation),
    }
}

/// The value of an expression without assignments and calls, which
/// changes nothing.
pub open spec fn eval_plain(e: ExprView, scopes: EnvironmentView) -> Result<
    ValueView,
    RuntimeErrorView,
>
    decreases e,
{
    match e {
        ExprView::Literal(lit) => Ok(literal_value(lit)),
        ExprView::Variable(name) => match lookup(scopes, name) {
            Some(value) => Ok(value),
            None => Err(RuntimeErrorView::UndefinedVariable(name)),
        },
        ExprView::Binary { left, op, right } => match eval_plain(*left, scopes) {
            Err(error) => Err(error),
            Ok(l) => match eval_plain(*right, scopes) {
                Err(error) => Err(error),
                Ok(r) => binary_result(l, op, r),
            },
        },
        ExprView::Unary { op, right } => match eval_plain(*right, scopes) {
            Err(error) => Err(error),
            Ok(r) => unary_result(op, r),
        },
        ExprView::Assign { name, value } => match eval_plain(*value, scopes) {
            Err(error) => Err(error),
            Ok(_) => Err(RuntimeErrorView::AssignmentNotSupported),
        },
        ExprView::Call { .. } => Err(RuntimeErrorView::CallNotSupported),
        ExprView::Get { .. } => Err(RuntimeErrorView::PropertyAccessNotImplemented),
    }
}

/// The scopes after the parameters from index `at` on are bound, in order,
/// to the arguments at the same indices.
pub open spec fn bind_from(
    params: Seq<ParameterView>,
    args: Seq<ValueView>,
    at: int,
    scopes: EnvironmentView,
) -> EnvironmentView
    decreases params.len() - at,
{
    if 0 <= at < params.len() && at < args.len() {
        bind_from(params, args, at + 1, define_in(scopes, params[at].name, args[at]))
    } else {
        scopes
    }
}

/// The scopes in which the body of a called function runs: a fresh scope
/// that binds the parameters, in front of the caller's scopes.
pub open spec fn call_scopes(function: FunctionView, args: Seq<ValueView>, caller: EnvironmentView)
    -> EnvironmentView {
    bind_from(function.params, args, 0, enter_scope(caller))
}

/// The value of a block that stands for a whole: a function body or the
/// program. A `break` or `continue` that leaves it is an error.
pub open spec fn block_value(flow: ControlFlowView) -> Result<ValueView, RuntimeErrorView> {
    match flow {
        ControlFlowView::Normal(value) => Ok(value),
        ControlFlowView::Return(value) => Ok(value),
        _ => Err(RuntimeErrorView::BreakContinueOutsideLoop),
    }
}

/// What a branch of an `if` hands on: a return passes, a `break` or
/// `continue` is an error, and the value of the branch is dropped.
pub open spec fn branch_flow(flow: ControlFlowView) -> Result<ControlFlowView, RuntimeErrorView> {
    match flow {
        ControlFlowView::Normal(_) => Ok(ControlFlowView::Normal(ValueView::Null)),
        ControlFlowView::Return(value) => Ok(ControlFlowView::Return(value)),
        _ => Err(RuntimeErrorView::BreakContinueInIf),
    }
}

/// The function value that a declaration defines.
pub open spec fn declared_function(
    name: Seq<char>,
    params: Seq<ParameterView>,
    body: Seq<StmtView>,
) -> ValueView {
    ValueView::Function(FunctionView { name, params, body, span: Span { start: 0, end: 0 } })
}

/// The call of a function of the program: one unit of the budget, the
/// arguments bound in a fresh scope in front of a copy of the caller's
/// scopes, the body run as a whole. The caller's scopes are as before.
pub open spec fn invoke(function: FunctionView, args: Seq<ValueView>, state: State, fuel: nat)
    -> Outcome<ValueView>
    decreases 2 * fuel, 0nat, function, 0nat, 0nat,
{
    if fuel == 0 {
        failed(RuntimeErrorView::BudgetExhausted, state)
    } else {
        let inner = State {
            scopes: call_scopes(function, args, state.scopes),
            output: state.output,
        };
        let body = run_block(function.body, inner, (fuel - 1) as nat);
        Outcome {
            result: body.result,
            state: State { scopes: state.scopes, output: body.state.output },
        }
    }
}

/// The call of a callee that evaluated to `callee`, with the values `args`
/// of the arguments.
pub open spec fn apply(callee: ValueView, args: Seq<ValueView>, state: State, fuel: nat)
    -> Outcome<ValueView>
    decreases 2 * fuel, 1nat, callee, 0nat, 0nat,
{
    match callee {
        ValueView::Function(function) => invoke(function, args, state, fuel),
        other => failed(RuntimeErrorView::NotCallable(other), state),
    }
}

/// Why a callee that evaluated to `callee` cannot be called with `got`
/// arguments, if it cannot: it is no function, or it is one of another
/// number of parameters.
pub open spec fn call_refused(callee: ValueView, got: nat) -> Option<RuntimeErrorView> {
    match callee {
        ValueView::Function(function) => if function.params.len() != got {
            Some(
                RuntimeErrorView::ArityMismatch {
                    expected: function.params.len() as usize,
                    got: got as usize,
                },
            )
        } else {
            None
        },
        other => Some(RuntimeErrorView::NotCallable(other)),
    }
}

/// The values of the expressions `args` from index `at` on, evaluated from
/// left to right and appended to `values`.
pub open spec fn eval_args(
    args: Seq<ExprView>,
    at: int,
    values: Seq<ValueView>,
    state: State,
    fuel: nat,
) -> Outcome<Seq<ValueView>>
    decreases 2 * fuel + 1, 0nat, args, 0nat, args.len() - at,
{
    if 0 <= at < args.len() {
        let first = eval_expr(args[at], state, fuel);
        match first.result {
            Err(error) => failed(error, first.state),
            Ok(value) => eval_args(args, at + 1, values.push(value), first.state, fuel),
        }
    } else {
        done(values, state)
    }
}

/// The value of an expression and the state after it.
pub open spec fn eval_expr(e: ExprView, state: State, fuel: nat) -> Outcome<ValueView>
    decreases 2 * fuel + 1, 0nat, e, 0nat, 0nat,
{
    match e {
        ExprView::Literal(lit) => done(literal_value(lit), state),
        ExprView::Variable(name) => match lookup(state.scopes, name) {
            Some(value) => done(value, state),
            None => failed(RuntimeErrorView::UndefinedVariable(name), state),
        },
        ExprView::Binary { left, op, right } => {
            let l = eval_expr(*left, state, fuel);
            match l.result {
                Err(error) => failed(error, l.state),
                Ok(left_value) => {
                    let r = eval_expr(*right, l.state, fuel);
                    match r.result {
                        Err(error) => failed(error, r.state),
                        Ok(right_value) => Outcome {
                            result: binary_result(left_value, op, right_value),
                            state: r.state,
                        },
                    }
                },
            }
        },
        ExprView::Unary { op, right } => {
            let r = eval_expr(*right, state, fuel);
            match r.result {
                Err(error) => failed(error, r.state),
                Ok(value) => Outcome { result: unary_result(op, value), state: r.state },
            }
        },
        ExprView::Assign { name, value } => {
            let v = eval_expr(*value, state, fuel);
            match v.result {
                Err(error) => failed(error, v.state),
                Ok(value) => if assignable(v.state.scopes, name) {
                    done(
                        value,
                        State {
                            scopes: define_in(v.state.scopes, name, value),
                            output: v.state.output,
                        },
                    )
                } else {
                    failed(RuntimeErrorView::UndefinedVariable(name), v.state)
                },
            }
        },
        ExprView::Call { callee, args } => match *callee {
            ExprView::Variable(name) => {
                // a named callee: the arguments first, then the built-ins,
                // then the functions of the program
                let a = eval_args(args, 0, Seq::empty(), state, fuel);
                match a.result {
                    Err(error) => failed(error, a.state),
                    Ok(values) => match builtin_call(name, values, a.state.output) {
                        Some((result, output)) => Outcome {
                            result,
                            state: State { scopes: a.state.scopes, output },
                        },
                        None => match lookup(a.state.scopes, name) {
                            None => failed(RuntimeErrorView::UndefinedVariable(name), a.state),
                            Some(target) => match call_refused(target, args.len()) {
                                Some(error) => failed(error, a.state),
                                None => apply(target, values, a.state, fuel),
                            },
                        },
                    },
                }
            },
            _ => {
                // any other callee: its value first, then the count of the
                // arguments, then their values
                let c = eval_expr(*callee, state, fuel);
                match c.result {
                    Err(error) => failed(error, c.state),
                    Ok(target) => match call_refused(target, args.len()) {
                        Some(error) => failed(error, c.state),
                        None => {
                            let a = eval_args(args, 0, Seq::empty(), c.state, fuel);
                            match a.result {
                                Err(error) => failed(error, a.state),
                                Ok(values) => apply(target, values, a.state, fuel),
                            }
                        },
                    },
                }
            },
        },
        ExprView::Get { .. } => failed(RuntimeErrorView::PropertyAccessNotImplemented, state),
    }
}

/// The rounds of a `while` loop, given as the whole statement `s`.
pub open spec fn exec_while(s: StmtView, state: State, fuel: nat) -> Outcome<ControlFlowView>
    decreases 2 * fuel + 1, 1nat, s, 0nat, 0nat,
{
    match s {
        StmtView::While { condition, body } => {
            let c = eval_expr(condition, state, fuel);
            match c.result {
                Err(error) => failed(error, c.state),
                Ok(value) => if !truthy(value) {
                    done(ControlFlowView::Normal(ValueView::Null), c.state)
                } else if fuel == 0 {
                    failed(RuntimeErrorView::BudgetExhausted, c.state)
                } else {
                    let round = exec_block(body, 0, c.state, (fuel - 1) as nat);
                    match round.result {
                        Err(error) => failed(error, round.state),
                        Ok(ControlFlowView::Break) => done(
                            ControlFlowView::Normal(ValueView::Null),
                            round.state,
                        ),
                        Ok(ControlFlowView::Return(value)) => done(
                            ControlFlowView::Return(value),
                            round.state,
                        ),
                        Ok(_) => exec_while(s, round.state, (fuel - 1) as nat),
                    }
                },
            }
        },
        _ => done(ControlFlowView::Normal(ValueView::Null), state),
    }
}

/// The rounds of a `for` loop, given as the whole statement `s`, for the
/// integers from `i` up to, not including, `end`. Each round defines the
/// loop variable anew in the innermost scope.
pub open spec fn exec_for(s: StmtView, i: int, end: int, state: State, fuel: nat) -> Outcome<
    ControlFlowView,
>
    decreases 2 * fuel + 1, 1nat, s, 0nat, end - i,
{
    match s {
        StmtView::For { variable, start, end: _, body } => {
            if i < end {
                let entered = State {
                    scopes: define_in(
                        state.scopes,
                        variable,
                        ValueView::Number(Number::of_integer(i)),
                    ),
                    output: state.output,
                };
                let round = exec_block(body, 0, entered, fuel);
                match round.result {
                    Err(error) => failed(error, round.state),
                    Ok(ControlFlowView::Break) => done(
                        ControlFlowView::Normal(ValueView::Null),
                        round.state,
                    ),
                    Ok(ControlFlowView::Return(value)) => done(
                        ControlFlowView::Return(value),
                        round.state,
                    ),
                    Ok(_) => exec_for(s, i + 1, end, round.state, fuel),
                }
            } else {
                done(ControlFlowView::Normal(ValueView::Null), state)
            }
        },
        _ => done(ControlFlowView::Normal(ValueView::Null), state),
    }
}

/// The effect of a statement: how it ends, and the state after it.
pub open spec fn exec_stmt(s: StmtView, state: State, fuel: nat) -> Outcome<ControlFlowView>
    decreases 2 * fuel + 1, 1nat, s, 1nat, 0nat,
{
    match s {
        StmtView::VarDecl { name, ty, initializer } => {
            let v = eval_expr(initializer, state, fuel);
            match v.result {
                Err(error) => failed(error, v.state),
                Ok(value) => done(
                    ControlFlowView::Normal(ValueView::Null),
                    State {
                        scopes: define_in(v.state.scopes, name, value),
                        output: v.state.output,
                    },
                ),
            }
        },
        StmtView::ExprStmt(e) => {
            let v = eval_expr(e, state, fuel);
            match v.result {
                Err(error) => failed(error, v.state),
                Ok(value) => done(ControlFlowView::Normal(value), v.state),
            }
        },
        StmtView::FuncDecl { name, params, return_ty, body } => done(
            ControlFlowView::Normal(ValueView::Null),
            State {
                scopes: define_in(state.scopes, name, declared_function(name, params, body)),
                output: state.output,
            },
        ),
        StmtView::If { condition, then_branch, else_branch } => {
            let c = eval_expr(condition, state, fuel);
            match c.result {
                Err(error) => failed(error, c.state),
                Ok(value) => if truthy(value) {
                    let b = exec_block(then_branch, 0, c.state, fuel);
                    match b.result {
                        Err(error) => failed(error, b.state),
                        Ok(flow) => Outcome { result: branch_flow(flow), state: b.state },
                    }
                } else {
                    match else_branch {
                        Some(block) => {
                            let b = exec_block(block, 0, c.state, fuel);
                            match b.result {
                                Err(error) => failed(error, b.state),
                                Ok(flow) => Outcome { result: branch_flow(flow), state: b.state },
                            }
                        },
                        None => done(ControlFlowView::Normal(ValueView::Null), c.state),
                    }
                },
            }
        },
        StmtView::While { .. } => exec_while(s, state, fuel),
        StmtView::For { variable, start, end, body } => {
            let first = eval_expr(start, state, fuel);
            match first.result {
                Err(error) => failed(error, first.state),
                Ok(from) => {
                    let second = eval_expr(end, first.state, fuel);
                    match second.result {
                        Err(error) => failed(error, second.state),
                        Ok(to) => match (from, to) {
                            (ValueView::Number(a), ValueView::Number(b)) => exec_for(
                                s,
                                a.truncated() as int,
                                b.truncated() as int,
                                second.state,
                                fuel,
                            ),
                            (ValueView::Number(_), _) => failed(
                                RuntimeErrorView::RangeEndNotNumber,
                                second.state,
                            ),
                            _ => failed(RuntimeErrorView::RangeStartNotNumber, second.state),
                        },
                    }
                },
            }
        },
        StmtView::Break => done(ControlFlowView::Break, state),
        StmtView::Continue => done(ControlFlowView::Continue, state),
        StmtView::Return(e) => {
            let v = eval_expr(e, state, fuel);
            match v.result {
                Err(error) => failed(error, v.state),
                Ok(value) => done(ControlFlowView::Return(value), v.state),
            }
        },
    }
}

/// The effect of the statements from index `at` on, in order and in the
/// scopes they are given: the first that does not end normally ends the
/// block; a block that runs to its end has the value null.
pub open spec fn exec_block(stmts: Seq<StmtView>, at: int, state: State, fuel: nat) -> Outcome<
    ControlFlowView,
>
    decreases 2 * fuel + 1, 1nat, stmts, 0nat, stmts.len() - at,
{
    if 0 <= at < stmts.len() {
        let first = exec_stmt(stmts[at], state, fuel);
        match first.result {
            Err(error) => failed(error, first.state),
            Ok(ControlFlowView::Normal(_)) => exec_block(stmts, at + 1, first.state, fuel),
            Ok(flow) => done(flow, first.state),
        }
    } else {
        done(ControlFlowView::Normal(ValueView::Null), state)
    }
}

/// The value of a block that stands for a whole.
pub open spec fn run_block(stmts: Seq<StmtView>, state: State, fuel: nat) -> Outcome<ValueView>
    decreases 2 * fuel + 1, 1nat, stmts, 1nat, 0nat,
{
    let block = exec_block(stmts, 0, state, fuel);
    match block.result {
        Err(error) => failed(error, block.state),
        Ok(flow) => Outcome { result: block_value(flow), state: block.state },
    }
}

} // verus!
