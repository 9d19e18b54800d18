//! Two small programs, followed through the meaning of their statements.

use vstd::prelude::*;
use vstd::arithmetic::power2::{lemma2_to64, lemma2_to64_rest, pow2};
use crate::ast::{ExprView, LiteralView, ParameterView, StmtView};
use crate::environment::{assignable, define_in, enter_scope, lookup};
use crate::error::RuntimeErrorView;
use crate::number::power::lemma_log2_unique;
use crate::number::round::{nearest_even, rounded};
use crate::number::Number;
use crate::parser::grammar::{binary, call_of};
use crate::semantics::{
    apply, bind_from, call_refused, call_scopes, eval_args, eval_expr, exec_block, exec_stmt,
    invoke, run_block, Outcome, State,
};
use crate::stdlib::builtin_call;
use crate::token::TokenKindView;
use crate::value::{ControlFlowView, FunctionView, ValueView};

verus! {

/// A number as an expression.
pub open spec fn literal(n: Number) -> ExprView {
    ExprView::Literal(LiteralView::Number(n))
}

/// The number 1.
pub open spec fn one() -> Number {
    Number { bits: 0x3ff0_0000_0000_0000 }
}

/// The number 2.
pub open spec fn two() -> Number {
    Number { bits: 0x4000_0000_0000_0000 }
}

/// The number 3.
pub open spec fn three() -> Number {
    Number { bits: 0x4008_0000_0000_0000 }
}

/// The number 5.
pub open spec fn five() -> Number {
    Number { bits: 0x4014_0000_0000_0000 }
}

/// The number 6.
pub open spec fn six() -> Number {
    Number { bits: 0x4018_0000_0000_0000 }
}

/// `5 + 1` is `6`, and `1 + 2` is `3`.
pub proof fn lemma_small_sums()
    ensures
        five().sum(one()) == six(),
        one().sum(two()) == three(),
{
    lemma2_to64();
    lemma2_to64_rest();
    // 5 + 1: six units of 2^52 at the exponent -52
    let n: nat = 6 * 0x0010_0000_0000_0000;
    assert(five().significand() == 5 * 0x0004_0000_0000_0000 && five().exponent() == -50);
    assert(one().significand() == 0x0010_0000_0000_0000 && one().exponent() == -52);
    vstd::arithmetic::power2::lemma_pow2_adds(52, 2);
    lemma_log2_unique(n, 1, 54);
    assert(nearest_even(n, 1 * pow2(2)) == 6 * 0x0004_0000_0000_0000);
    assert(rounded(false, n, 1, -52) == six());
    // 1 + 2: three units of 2^52 at the exponent -52
    let m: nat = 3 * 0x0010_0000_0000_0000;
    assert(two().significand() == 0x0010_0000_0000_0000 && two().exponent() == -51);
    vstd::arithmetic::power2::lemma_pow2_adds(52, 1);
    lemma_log2_unique(m, 1, 53);
    assert(nearest_even(m, 1 * pow2(1)) == 3 * 0x0008_0000_0000_0000);
    assert(rounded(false, m, 1, -52) == three());
}

/// After `var x = n; x = x + k;` the statement `x;` has the value
/// `n + k`, in every state.
pub proof fn law_declare_assign_read(x: Seq<char>, n: Number, k: Number, state: State, fuel: nat)
    requires
        state.scopes.len() > 0,
    ensures
        ({
            let declared = exec_stmt(
                StmtView::VarDecl { name: x, ty: None, initializer: literal(n) },
                state,
                fuel,
            );
            let assigned = exec_stmt(
                StmtView::ExprStmt(
                    ExprView::Assign {
                        name: x,
                        value: Box::new(
                            binary(ExprView::Variable(x), TokenKindView::Plus, literal(k)),
                        ),
                    },
                ),
                declared.state,
                fuel,
            );
            exec_stmt(StmtView::ExprStmt(ExprView::Variable(x)), assigned.state, fuel).result
                == Ok::<ControlFlowView, RuntimeErrorView>(
                ControlFlowView::Normal(ValueView::Number(n.sum(k))),
            )
        }),
{
    let declared = exec_stmt(
        StmtView::VarDecl { name: x, ty: None, initializer: literal(n) },
        state,
        fuel,
    );
    assert(declared.state.scopes == define_in(state.scopes, x, ValueView::Number(n)));
    assert(lookup(declared.state.scopes, x) == Some(ValueView::Number(n)));
    let sum = binary(ExprView::Variable(x), TokenKindView::Plus, literal(k));
    assert(eval_expr(ExprView::Variable(x), declared.state, fuel).result == Ok::<
        ValueView,
        RuntimeErrorView,
    >(ValueView::Number(n)));
    assert(eval_expr(literal(k), declared.state, fuel).result == Ok::<
        ValueView,
        RuntimeErrorView,
    >(ValueView::Number(k)));
    assert(eval_expr(sum, declared.state, fuel) == (Outcome {
        result: Ok::<ValueView, RuntimeErrorView>(ValueView::Number(n.sum(k))),
        state: declared.state,
    }));
    assert(assignable(declared.state.scopes, x));
    let assigned = exec_stmt(
        StmtView::ExprStmt(ExprView::Assign { name: x, value: Box::new(sum) }),
        declared.state,
        fuel,
    );
    assert(assigned.state.scopes == define_in(
        declared.state.scopes,
        x,
        ValueView::Number(n.sum(k)),
    ));
    assert(lookup(assigned.state.scopes, x) == Some(ValueView::Number(n.sum(k))));
}

/// `var x = 5; x = x + 1; x;` ends with the value 6.
pub proof fn law_five_plus_one(x: Seq<char>, state: State, fuel: nat)
    requires
        state.scopes.len() > 0,
    ensures
        ({
            let declared = exec_stmt(
                StmtView::VarDecl { name: x, ty: None, initializer: literal(five()) },
                state,
                fuel,
            );
            let assigned = exec_stmt(
                StmtView::ExprStmt(
                    ExprView::Assign {
                        name: x,
                        value: Box::new(
                            binary(ExprView::Variable(x), TokenKindView::Plus, literal(one())),
                        ),
                    },
                ),
                declared.state,
                fuel,
            );
            exec_stmt(StmtView::ExprStmt(ExprView::Variable(x)), assigned.state, fuel).result
                == Ok::<ControlFlowView, RuntimeErrorView>(
                ControlFlowView::Normal(ValueView::Number(six())),
            )
        }),
{
    law_declare_assign_read(x, five(), one(), state, fuel);
    lemma_small_sums();
}

/// The function value of `func f(a, b) { return a + b; }`.
pub open spec fn adder(f: Seq<char>, a: Seq<char>, b: Seq<char>) -> FunctionView {
    FunctionView {
        name: f,
        params: seq![ParameterView { name: a, ty: None }, ParameterView { name: b, ty: None }],
        body: seq![
            StmtView::Return(
                binary(ExprView::Variable(a), TokenKindView::Plus, ExprView::Variable(b)),
            ),
        ],
        span: crate::span::Span { start: 0, end: 0 },
    }
}

/// Where `f` is bound to the function of `func f(a, b) { return a + b; }`
/// and is no built-in, the call `f(x, y)` of two numbers has the value
/// `x + y`, if the budget has a unit for the call, and the call `f(x)`
/// fails because two arguments are expected and one is given.
pub proof fn law_call_adds_arguments(
    f: Seq<char>,
    a: Seq<char>,
    b: Seq<char>,
    x: Number,
    y: Number,
    state: State,
    fuel: nat,
)
    requires
        a != b,
        lookup(state.scopes, f) == Some(ValueView::Function(adder(f, a, b))),
        f != "print"@,
        f != "println"@,
    ensures
        fuel > 0 ==> eval_expr(call_of(f, seq![literal(x), literal(y)]), state, fuel) == (Outcome {
            result: Ok::<ValueView, RuntimeErrorView>(ValueView::Number(x.sum(y))),
            state,
        }),
        eval_expr(call_of(f, seq![literal(x)]), state, fuel) == (Outcome {
            result: Err::<ValueView, RuntimeErrorView>(
                RuntimeErrorView::ArityMismatch { expected: 2, got: 1 },
            ),
            state,
        }),
{
    let function = adder(f, a, b);
    let target = ValueView::Function(function);
    // one argument
    let single = seq![literal(x)];
    let vx = Seq::<ValueView>::empty().push(ValueView::Number(x));
    assert(eval_expr(single[0], state, fuel).result == Ok::<ValueView, RuntimeErrorView>(
        ValueView::Number(x),
    ));
    assert(eval_args(single, 1, vx, state, fuel) == (Outcome {
        result: Ok::<Seq<ValueView>, RuntimeErrorView>(vx),
        state,
    }));
    assert(eval_args(single, 0, Seq::empty(), state, fuel) == eval_args(
        single,
        1,
        vx,
        state,
        fuel,
    ));
    assert(builtin_call(f, vx, state.output) is None);
    assert(call_refused(target, 1) == Some(
        RuntimeErrorView::ArityMismatch { expected: 2, got: 1 },
    ));
    // two arguments
    let both = seq![literal(x), literal(y)];
    let vxy = vx.push(ValueView::Number(y));
    assert(eval_expr(both[0], state, fuel).result == Ok::<ValueView, RuntimeErrorView>(
        ValueView::Number(x),
    ));
    assert(eval_expr(both[1], state, fuel).result == Ok::<ValueView, RuntimeErrorView>(
        ValueView::Number(y),
    ));
    assert(eval_args(both, 2, vxy, state, fuel) == (Outcome {
        result: Ok::<Seq<ValueView>, RuntimeErrorView>(vxy),
        state,
    }));
    assert(eval_args(both, 1, vx, state, fuel) == eval_args(both, 2, vxy, state, fuel));
    assert(eval_args(both, 0, Seq::empty(), state, fuel) == eval_args(both, 1, vx, state, fuel));
    assert(builtin_call(f, vxy, state.output) is None);
    assert(call_refused(target, 2) is None);
    if fuel > 0 {
        let less = (fuel - 1) as nat;
        // the parameters bound in a fresh scope
        let fresh = enter_scope(state.scopes);
        let first = define_in(fresh, a, ValueView::Number(x));
        let second = define_in(first, b, ValueView::Number(y));
        assert(bind_from(function.params, vxy, 2, second) == second);
        assert(bind_from(function.params, vxy, 1, first) == second);
        assert(bind_from(function.params, vxy, 0, fresh) == second);
        assert(call_scopes(function, vxy, state.scopes) == second);
        assert(lookup(second, a) == Some(ValueView::Number(x)));
        assert(lookup(second, b) == Some(ValueView::Number(y)));
        let inner = State { scopes: second, output: state.output };
        let body = function.body;
        assert(eval_expr(ExprView::Variable(a), inner, less).result == Ok::<
            ValueView,
            RuntimeErrorView,
        >(ValueView::Number(x)));
        assert(eval_expr(ExprView::Variable(b), inner, less).result == Ok::<
            ValueView,
            RuntimeErrorView,
        >(ValueView::Number(y)));
        assert(exec_stmt(body[0], inner, less) == (Outcome {
            result: Ok::<ControlFlowView, RuntimeErrorView>(
                ControlFlowView::Return(ValueView::Number(x.sum(y))),
            ),
            state: inner,
        }));
        assert(exec_block(body, 0, inner, less) == exec_stmt(body[0], inner, less));
        assert(run_block(body, inner, less).result == Ok::<ValueView, RuntimeErrorView>(
            ValueView::Number(x.sum(y)),
        ));
        assert(invoke(function, vxy, state, fuel) == (Outcome {
            result: Ok::<ValueView, RuntimeErrorView>(ValueView::Number(x.sum(y))),
            state,
        }));
        assert(apply(target, vxy, state, fuel) == invoke(function, vxy, state, fuel));
    }
}

/// With `func f(a, b) { return a + b; }`, the call `f(1, 2)` has the
/// value 3.
pub proof fn law_one_plus_two(f: Seq<char>, a: Seq<char>, b: Seq<char>, state: State, fuel: nat)
    requires
        a != b,
        lookup(state.scopes, f) == Some(ValueView::Function(adder(f, a, b))),
        f != "print"@,
        f != "println"@,
        fuel > 0,
    ensures
        eval_expr(call_of(f, seq![literal(one()), literal(two())]), state, fuel).result == Ok::<
            ValueView,
            RuntimeErrorView,
        >(ValueView::Number(three())),
{
    law_call_adds_arguments(f, a, b, one(), two(), state, fuel);
    lemma_small_sums();
}

} // verus!
