//! Reading walks the chain of scopes; assignment stops at the innermost.

use vstd::prelude::*;
use crate::ast::ExprView;
use crate::environment::{assignable, define_in, lookup, EnvironmentView};
use crate::error::RuntimeErrorView;
use crate::semantics::{apply, eval_args, eval_expr, invoke, State};

use crate::value::ValueView;

verus! {

/// Whether two chains have the same scopes with the same names in each.
pub open spec fn same_names(a: EnvironmentView, b: EnvironmentView) -> bool {
    &&& a.len() == b.len()
    &&& forall|i: int| 0 <= i < a.len() ==> #[trigger] a[i].dom() == b[i].dom()
}

/// Chains with the same names as a third have the same names.
pub proof fn lemma_same_names_chain(a: EnvironmentView, b: EnvironmentView, c: EnvironmentView)
    requires
        same_names(a, b),
        same_names(b, c),
    ensures
        same_names(a, c),
{
    assert forall|i: int| 0 <= i < a.len() implies #[trigger] a[i].dom() == c[i].dom() by {
        assert(a[i].dom() == b[i].dom());
        assert(b[i].dom() == c[i].dom());
    }
}

/// A call of a function of the program leaves the caller's scopes as they
/// were.
pub proof fn lemma_invoke_keeps_scopes(
    function: crate::value::FunctionView,
    args: Seq<ValueView>,
    state: State,
    fuel: nat,
)
    ensures
        invoke(function, args, state, fuel).state.scopes == state.scopes,
{
}

/// A call leaves the caller's scopes as they were.
pub proof fn lemma_apply_keeps_scopes(
    callee: ValueView,
    args: Seq<ValueView>,
    state: State,
    fuel: nat,
)
    ensures
        apply(callee, args, state, fuel).state.scopes == state.scopes,
{
    if let ValueView::Function(function) = callee {
        lemma_invoke_keeps_scopes(function, args, state, fuel);
    }
}

/// An accepted assignment binds no new name.
pub proof fn lemma_assignment_keeps_names(
    scopes: EnvironmentView,
    name: Seq<char>,
    value: ValueView,
)
    requires
        assignable(scopes, name),
    ensures
        same_names(scopes, define_in(scopes, name, value)),
{
    let after = define_in(scopes, name, value);
    assert forall|i: int| 0 <= i < scopes.len() implies #[trigger] scopes[i].dom()
        == after[i].dom() by {
        if i == 0 {
            assert(scopes[0].dom() =~= after[0].dom());
        }
    }
}

/// The evaluation of an expression binds no new name in any scope and
/// removes none, whether it succeeds or fails.
pub proof fn lemma_expression_keeps_names(e: ExprView, state: State, fuel: nat)
    ensures
        same_names(state.scopes, eval_expr(e, state, fuel).state.scopes),
    decreases e, 0nat,
{
    match e {
        ExprView::Binary { left, op, right } => {
            lemma_expression_keeps_names(*left, state, fuel);
            let l = eval_expr(*left, state, fuel);
            if l.result is Ok {
                lemma_expression_keeps_names(*right, l.state, fuel);
                let r = eval_expr(*right, l.state, fuel);
                lemma_same_names_chain(state.scopes, l.state.scopes, r.state.scopes);
            }
        },
        ExprView::Unary { op, right } => {
            lemma_expression_keeps_names(*right, state, fuel);
        },
        ExprView::Assign { name, value } => {
            lemma_expression_keeps_names(*value, state, fuel);
            let v = eval_expr(*value, state, fuel);
            if v.result is Ok && assignable(v.state.scopes, name) {
                lemma_assignment_keeps_names(v.state.scopes, name, v.result->Ok_0);
                lemma_same_names_chain(
                    state.scopes,
                    v.state.scopes,
                    define_in(v.state.scopes, name, v.result->Ok_0),
                );
            }
        },
        ExprView::Call { callee, args } => {
            match *callee {
                ExprView::Variable(name) => {
                    lemma_args_keep_names(args, 0, Seq::empty(), state, fuel);
                    let a = eval_args(args, 0, Seq::empty(), state, fuel);
                    if a.result is Ok && lookup(a.state.scopes, name) is Some {
                        lemma_apply_keeps_scopes(
                            lookup(a.state.scopes, name)->Some_0,
                            a.result->Ok_0,
                            a.state,
                            fuel,
                        );
                    }
                },
                _ => {
                    lemma_expression_keeps_names(*callee, state, fuel);
                    let c = eval_expr(*callee, state, fuel);
                    if c.result is Ok {
                        lemma_args_keep_names(args, 0, Seq::empty(), c.state, fuel);
                        let a = eval_args(args, 0, Seq::empty(), c.state, fuel);
                        lemma_same_names_chain(state.scopes, c.state.scopes, a.state.scopes);
                        if a.result is Ok {
                            lemma_apply_keeps_scopes(c.result->Ok_0, a.result->Ok_0, a.state, fuel);
                        }
                    }
                },
            }
        },
        _ => {},
    }
}

/// The evaluation of the arguments of a call binds no new name in any
/// scope and removes none.
pub proof fn lemma_args_keep_names(
    args: Seq<ExprView>,
    at: int,
    values: Seq<ValueView>,
    state: State,
    fuel: nat,
)
    ensures
        same_names(state.scopes, eval_args(args, at, values, state, fuel).state.scopes),
    decreases args, args.len() - at,
{
    if 0 <= at < args.len() {
        lemma_expression_keeps_names(args[at], state, fuel);
        let first = eval_expr(args[at], state, fuel);
        if first.result is Ok {
            let more = values.push(first.result->Ok_0);
            lemma_args_keep_names(args, at + 1, more, first.state, fuel);
            lemma_same_names_chain(
                state.scopes,
                first.state.scopes,
                eval_args(args, at + 1, more, first.state, fuel).state.scopes,
            );
        }
    }
}

/// A name that only a scope further out binds can be read and cannot be
/// assigned: the read gives its value there, and the assignment fails as
/// if the name were not defined, once its right-hand side has a value.
pub proof fn law_assignment_stops_at_innermost_scope(
    name: Seq<char>,
    value: ExprView,
    state: State,
    fuel: nat,
)
    requires
        state.scopes.len() > 0,
        !state.scopes[0].contains_key(name),
        lookup(state.scopes, name) is Some,
        eval_expr(value, state, fuel).result is Ok,
    ensures
        eval_expr(ExprView::Variable(name), state, fuel).result == Ok::<
            ValueView,
            RuntimeErrorView,
        >(lookup(state.scopes, name)->Some_0),
        eval_expr(ExprView::Assign { name, value: Box::new(value) }, state, fuel).result == Err::<
            ValueView,
            RuntimeErrorView,
        >(RuntimeErrorView::UndefinedVariable(name)),
{
    lemma_expression_keeps_names(value, state, fuel);
    let after = eval_expr(value, state, fuel).state.scopes;
    assert(state.scopes[0].dom() == after[0].dom());
    assert(!after[0].contains_key(name));
}

} // verus!
