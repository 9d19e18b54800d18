//! The budget only cuts runs short: a run that ends within its budget
//! ends in the same way with any larger budget.

use vstd::prelude::*;
use crate::ast::{ExprView, StmtView};
use crate::environment::{define_in, lookup};
use crate::error::RuntimeErrorView;
use crate::number::Number;
use crate::semantics::{
    apply, call_refused, call_scopes, eval_args, eval_expr, exec_block, exec_for, exec_stmt,
    exec_while, invoke, run_block, truthy, Outcome, State,
};
use crate::stdlib::builtin_call;
use crate::value::{ControlFlowView, FunctionView, ValueView};

verus! {

/// Whether an evaluation ended because the budget was used up.
pub open spec fn ran_out<T>(outcome: Outcome<T>) -> bool {
    outcome.result == Err::<T, RuntimeErrorView>(RuntimeErrorView::BudgetExhausted)
}

/// One more unit of budget leaves the value of an expression as it was,
/// unless the budget was used up.
pub proof fn lemma_budget_expr(e: ExprView, state: State, fuel: nat)
    requires
        !ran_out(eval_expr(e, state, fuel)),
    ensures
        eval_expr(e, state, fuel + 1) == eval_expr(e, state, fuel),
    decreases 2 * fuel + 1, 0nat, e, 0nat, 0nat,
{
    match e {
        ExprView::Binary { left, op, right } => {
            lemma_budget_expr(*left, state, fuel);
            let l = eval_expr(*left, state, fuel);
            if l.result is Ok {
                lemma_budget_expr(*right, l.state, fuel);
            }
        },
        ExprView::Unary { op, right } => {
            lemma_budget_expr(*right, state, fuel);
        },
        ExprView::Assign { name, value } => {
            lemma_budget_expr(*value, state, fuel);
        },
        ExprView::Call { callee, args } => {
            match *callee {
                ExprView::Variable(name) => {
                    lemma_budget_args(args, 0, Seq::empty(), state, fuel);
                    let a = eval_args(args, 0, Seq::empty(), state, fuel);
                    if a.result is Ok && builtin_call(name, a.result->Ok_0, a.state.output)
                        is None {
                        let found = lookup(a.state.scopes, name);
                        if found is Some && call_refused(found->Some_0, args.len()) is None {
                            lemma_budget_apply(found->Some_0, a.result->Ok_0, a.state, fuel);
                        }
                    }
                },
                _ => {
                    lemma_budget_expr(*callee, state, fuel);
                    let c = eval_expr(*callee, state, fuel);
                    if c.result is Ok && call_refused(c.result->Ok_0, args.len()) is None {
                        lemma_budget_args(args, 0, Seq::empty(), c.state, fuel);
                        let a = eval_args(args, 0, Seq::empty(), c.state, fuel);
                        if a.result is Ok {
                            lemma_budget_apply(c.result->Ok_0, a.result->Ok_0, a.state, fuel);
                        }
                    }
                },
            }
        },
        _ => {},
    }
}

/// One more unit of budget leaves the values of arguments as they were,
/// unless the budget was used up.
pub proof fn lemma_budget_args(
    args: Seq<ExprView>,
    at: int,
    values: Seq<ValueView>,
    state: State,
    fuel: nat,
)
    requires
        !ran_out(eval_args(args, at, values, state, fuel)),
    ensures
        eval_args(args, at, values, state, fuel + 1) == eval_args(args, at, values, state, fuel),
    decreases 2 * fuel + 1, 0nat, args, 0nat, args.len() - at,
{
    if 0 <= at < args.len() {
        lemma_budget_expr(args[at], state, fuel);
        let first = eval_expr(args[at], state, fuel);
        if first.result is Ok {
            lemma_budget_args(args, at + 1, values.push(first.result->Ok_0), first.state, fuel);
        }
    }
}

/// One more unit of budget leaves the result of a call as it was, unless
/// the budget was used up.
pub proof fn lemma_budget_apply(callee: ValueView, args: Seq<ValueView>, state: State, fuel: nat)
    requires
        !ran_out(apply(callee, args, state, fuel)),
    ensures
        apply(callee, args, state, fuel + 1) == apply(callee, args, state, fuel),
    decreases 2 * fuel, 1nat, callee, 0nat, 0nat,
{
    if let ValueView::Function(function) = callee {
        lemma_budget_invoke(function, args, state, fuel);
    }
}

/// One more unit of budget leaves the result of a call of a function of
/// the program as it was, unless the budget was used up.
pub proof fn lemma_budget_invoke(
    function: FunctionView,
    args: Seq<ValueView>,
    state: State,
    fuel: nat,
)
    requires
        !ran_out(invoke(function, args, state, fuel)),
    ensures
        invoke(function, args, state, fuel + 1) == invoke(function, args, state, fuel),
    decreases 2 * fuel, 0nat, function, 0nat, 0nat,
{
    let inner = State { scopes: call_scopes(function, args, state.scopes), output: state.output };
    lemma_budget_run(function.body, inner, (fuel - 1) as nat);
}

/// One more unit of budget leaves the value of a whole as it was, unless
/// the budget was used up.
pub proof fn lemma_budget_run(stmts: Seq<StmtView>, state: State, fuel: nat)
    requires
        !ran_out(run_block(stmts, state, fuel)),
    ensures
        run_block(stmts, state, fuel + 1) == run_block(stmts, state, fuel),
    decreases 2 * fuel + 1, 1nat, stmts, 1nat, 0nat,
{
    lemma_budget_block(stmts, 0, state, fuel);
}

/// One more unit of budget leaves the effect of a block as it was, unless
/// the budget was used up.
pub proof fn lemma_budget_block(stmts: Seq<StmtView>, at: int, state: State, fuel: nat)
    requires
        !ran_out(exec_block(stmts, at, state, fuel)),
    ensures
        exec_block(stmts, at, state, fuel + 1) == exec_block(stmts, at, state, fuel),
    decreases 2 * fuel + 1, 1nat, stmts, 0nat, stmts.len() - at,
{
    if 0 <= at < stmts.len() {
        lemma_budget_stmt(stmts[at], state, fuel);
        let first = exec_stmt(stmts[at], state, fuel);
        if first.result matches Ok(ControlFlowView::Normal(_)) {
            lemma_budget_block(stmts, at + 1, first.state, fuel);
        }
    }
}

/// One more unit of budget leaves the effect of a statement as it was,
/// unless the budget was used up.
pub proof fn lemma_budget_stmt(s: StmtView, state: State, fuel: nat)
    requires
        !ran_out(exec_stmt(s, state, fuel)),
    ensures
        exec_stmt(s, state, fuel + 1) == exec_stmt(s, state, fuel),
    decreases 2 * fuel + 1, 1nat, s, 1nat, 0nat,
{
    match s {
        StmtView::VarDecl { name, ty, initializer } => {
            lemma_budget_expr(initializer, state, fuel);
        },
        StmtView::ExprStmt(e) => {
            lemma_budget_expr(e, state, fuel);
        },
        StmtView::Return(e) => {
            lemma_budget_expr(e, state, fuel);
        },
        StmtView::If { condition, then_branch, else_branch } => {
            lemma_budget_expr(condition, state, fuel);
            let c = eval_expr(condition, state, fuel);
            if c.result is Ok {
                if truthy(c.result->Ok_0) {
                    lemma_budget_block(then_branch, 0, c.state, fuel);
                } else if let Some(block) = else_branch {
                    lemma_budget_block(block, 0, c.state, fuel);
                }
            }
        },
        StmtView::While { .. } => {
            lemma_budget_while(s, state, fuel);
        },
        StmtView::For { variable, start, end, body } => {
            lemma_budget_expr(start, state, fuel);
            let first = eval_expr(start, state, fuel);
            if first.result is Ok {
                lemma_budget_expr(end, first.state, fuel);
                let second = eval_expr(end, first.state, fuel);
                if second.result is Ok {
                    if let (ValueView::Number(a), ValueView::Number(b)) = (
                        first.result->Ok_0,
                        second.result->Ok_0,
                    ) {
                        lemma_budget_for(
                            s,
                            a.truncated() as int,
                            b.truncated() as int,
                            second.state,
                            fuel,
                        );
                    }
                }
            }
        },
        _ => {},
    }
}

/// One more unit of budget leaves the rounds of a `while` loop as they
/// were, unless the budget was used up.
pub proof fn lemma_budget_while(s: StmtView, state: State, fuel: nat)
    requires
        !ran_out(exec_while(s, state, fuel)),
    ensures
        exec_while(s, state, fuel + 1) == exec_while(s, state, fuel),
    decreases 2 * fuel + 1, 1nat, s, 0nat, 0nat,
{
    if let StmtView::While { condition, body } = s {
        lemma_budget_expr(condition, state, fuel);
        let c = eval_expr(condition, state, fuel);
        if c.result is Ok && truthy(c.result->Ok_0) {
            let less = (fuel - 1) as nat;
            lemma_budget_block(body, 0, c.state, less);
            let round = exec_block(body, 0, c.state, less);
            if round.result matches Ok(flow) && !(flow is Break) && !(flow is Return) {
                lemma_budget_while(s, round.state, less);
            }
        }
    }
}

/// One more unit of budget leaves the rounds of a `for` loop as they were,
/// unless the budget was used up.
pub proof fn lemma_budget_for(s: StmtView, i: int, end: int, state: State, fuel: nat)
    requires
        !ran_out(exec_for(s, i, end, state, fuel)),
    ensures
        exec_for(s, i, end, state, fuel + 1) == exec_for(s, i, end, state, fuel),
    decreases 2 * fuel + 1, 1nat, s, 0nat, end - i,
{
    if let StmtView::For { variable, start, end: _, body } = s {
        if i < end {
            let entered = State {
                scopes: define_in(state.scopes, variable, ValueView::Number(Number::of_integer(i))),
                output: state.output,
            };
            lemma_budget_block(body, 0, entered, fuel);
            let round = exec_block(body, 0, entered, fuel);
            if round.result matches Ok(flow) && !(flow is Break) && !(flow is Return) {
                lemma_budget_for(s, i + 1, end, round.state, fuel);
            }
        }
    }
}

/// A program that ends within its budget, with a value or with an error
/// of its own, ends in the same way and in the same state with every
/// larger budget.
pub proof fn law_budget_only_cuts_short(stmts: Seq<StmtView>, state: State, fuel: nat, more: nat)
    requires
        !ran_out(run_block(stmts, state, fuel)),
        fuel <= more,
    ensures
        run_block(stmts, state, more) == run_block(stmts, state, fuel),
    decreases more - fuel,
{
    if fuel < more {
        law_budget_only_cuts_short(stmts, state, fuel, (more - 1) as nat);
        lemma_budget_run(stmts, state, (more - 1) as nat);
    }
}

} // verus!
