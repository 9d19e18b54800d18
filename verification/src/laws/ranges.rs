//! A `for` loop over a range runs its body once for each integer of the
//! range, in order.

use vstd::prelude::*;
use crate::ast::{ExprView, LiteralView, StmtView};
use crate::environment::{define_in, lookup};
use crate::error::RuntimeErrorView;
use crate::number::Number;
use crate::parser::grammar::call_of;
use crate::semantics::{eval_args, eval_expr, exec_block, exec_for, exec_stmt, Outcome, State};
use crate::stdlib::{builtin_call, printed, FragmentView};
use crate::value::{ControlFlowView, ValueView};

verus! {

/// The statement `print(name);`.
pub open spec fn print_of(name: Seq<char>) -> StmtView {
    StmtView::ExprStmt(call_of("print"@, seq![ExprView::Variable(name)]))
}

/// The statement `for name in range(from, to) { print(name); }`.
pub open spec fn printing_loop(name: Seq<char>, from: Number, to: Number) -> StmtView {
    StmtView::For {
        variable: name,
        start: ExprView::Literal(LiteralView::Number(from)),
        end: ExprView::Literal(LiteralView::Number(to)),
        body: seq![print_of(name)],
    }
}

/// The lines that show the integers from `i` up to, not including, `end`,
/// one on each.
pub open spec fn lines(i: int, end: int) -> Seq<FragmentView>
    decreases end - i,
{
    if i < end {
        printed(seq![ValueView::Number(Number::of_integer(i))]) + lines(i + 1, end)
    } else {
        Seq::empty()
    }
}

/// `print(name);` prints the value of `name` on a line of its own, and
/// changes nothing else.
pub proof fn lemma_print_of(name: Seq<char>, value: ValueView, state: State, fuel: nat)
    requires
        lookup(state.scopes, name) == Some(value),
    ensures
        exec_block(seq![print_of(name)], 0, state, fuel) == (Outcome {
            result: Ok::<ControlFlowView, RuntimeErrorView>(
                ControlFlowView::Normal(ValueView::Null),
            ),
            state: State { scopes: state.scopes, output: state.output + printed(seq![value]) },
        }),
{
    let args = seq![ExprView::Variable(name)];
    let body = seq![print_of(name)];
    assert(eval_expr(args[0], state, fuel).result == Ok::<ValueView, RuntimeErrorView>(value));
    let one = Seq::<ValueView>::empty().push(value);
    assert(one =~= seq![value]);
    assert(eval_args(args, 1, one, state, fuel).result == Ok::<
        Seq<ValueView>,
        RuntimeErrorView,
    >(one));
    assert(eval_args(args, 0, Seq::empty(), state, fuel) == eval_args(args, 1, one, state, fuel));
    assert(builtin_call("print"@, one, state.output) is Some);
    let after = State { scopes: state.scopes, output: state.output + printed(seq![value]) };
    assert(eval_expr(call_of("print"@, args), state, fuel) == (Outcome {
        result: Ok::<ValueView, RuntimeErrorView>(ValueView::Null),
        state: after,
    }));
    assert(exec_stmt(body[0], state, fuel) == (Outcome {
        result: Ok::<ControlFlowView, RuntimeErrorView>(ControlFlowView::Normal(ValueView::Null)),
        state: after,
    }));
    assert(exec_block(body, 1, after, fuel).result == Ok::<ControlFlowView, RuntimeErrorView>(
        ControlFlowView::Normal(ValueView::Null),
    ));
}

/// The rounds of the printing loop from `i` on print the integers from `i`
/// up to, not including, `end`.
pub proof fn lemma_rounds_print(
    name: Seq<char>,
    from: Number,
    to: Number,
    i: int,
    end: int,
    state: State,
    fuel: nat,
)
    requires
        state.scopes.len() > 0,
    ensures
        exec_for(printing_loop(name, from, to), i, end, state, fuel).result == Ok::<
            ControlFlowView,
            RuntimeErrorView,
        >(ControlFlowView::Normal(ValueView::Null)),
        exec_for(printing_loop(name, from, to), i, end, state, fuel).state.output == state.output
            + lines(i, end),
    decreases end - i,
{
    let s = printing_loop(name, from, to);
    if i < end {
        let value = ValueView::Number(Number::of_integer(i));
        let entered = State {
            scopes: define_in(state.scopes, name, value),
            output: state.output,
        };
        assert(lookup(entered.scopes, name) == Some(value));
        lemma_print_of(name, value, entered, fuel);
        let after = State { scopes: entered.scopes, output: state.output + printed(seq![value]) };
        lemma_rounds_print(name, from, to, i + 1, end, after, fuel);
        assert(exec_for(s, i, end, state, fuel) == exec_for(s, i + 1, end, after, fuel));
        assert(state.output + printed(seq![value]) + lines(i + 1, end) =~= state.output + lines(
            i,
            end,
        ));
    } else {
        assert(state.output + lines(i, end) =~= state.output);
    }
}

/// `for name in range(from, to) { print(name); }` ends normally and prints
/// the integers from `from` up to, not including, `to`, each on a line of
/// its own, and nothing else. The bounds are cut to integers toward zero.
/// So with the bounds 0 and 3 it prints `0`, `1` and `2`.
pub proof fn law_range_prints_each_integer(
    name: Seq<char>,
    from: Number,
    to: Number,
    state: State,
    fuel: nat,
)
    requires
        state.scopes.len() > 0,
    ensures
        exec_stmt(printing_loop(name, from, to), state, fuel).result == Ok::<
            ControlFlowView,
            RuntimeErrorView,
        >(ControlFlowView::Normal(ValueView::Null)),
        exec_stmt(printing_loop(name, from, to), state, fuel).state.output == state.output
            + lines(from.truncated() as int, to.truncated() as int),
{
    let s = printing_loop(name, from, to);
    let first = eval_expr(ExprView::Literal(LiteralView::Number(from)), state, fuel);
    let second = eval_expr(ExprView::Literal(LiteralView::Number(to)), first.state, fuel);
    assert(first.state == state && second.state == state);
    lemma_rounds_print(
        name,
        from,
        to,
        from.truncated() as int,
        to.truncated() as int,
        state,
        fuel,
    );
}

} // verus!
