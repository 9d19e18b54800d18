//! The interpreter: a global scope with the built-in names, an executor,
//! the output of the programs run so far, and a budget for each run.

use vstd::prelude::*;
use crate::ast::{stmts_view, Stmt};
use crate::environment::{Environment, EnvironmentView, ScopeView};
use crate::error::RuntimeError;
use crate::executor::Executor;
use crate::semantics::{run_block, State};
use crate::span::Span;
use crate::stdlib::{fragments_view, Fragment, FragmentView, StdLib};
use crate::value::{FunctionView, Value, ValueView};

verus! {

/// The function value that stands for the built-in `name` in the global
/// scope.
pub open spec fn builtin_value(name: Seq<char>) -> ValueView {
    ValueView::Function(
        FunctionView {
            name,
            params: Seq::empty(),
            body: Seq::empty(),
            span: Span { start: 0, end: 0 },
        },
    )
}

/// The global scope of a new interpreter: the built-in names.
pub open spec fn global_scope() -> ScopeView {
    Map::<Seq<char>, ValueView>::empty().insert("print"@, builtin_value("print"@)).insert(
        "println"@,
        builtin_value("println"@),
    )
}

/// The scope that binds the first `count` of `globals`, in order.
pub open spec fn scope_of(globals: Seq<(String, Value)>, count: int) -> ScopeView
    decreases count,
{
    if count <= 0 {
        Map::empty()
    } else {
        scope_of(globals, count - 1).insert(globals[count - 1].0@, globals[count - 1].1@)
    }
}

/// An interpreter.
pub struct Interpreter {
    environment: Environment,
    executor: Executor,
    output: Vec<Fragment>,
    budget: u64,
}

impl Interpreter {
    /// The scopes that programs run in.
    pub closed spec fn scopes(self) -> EnvironmentView {
        self.environment@
    }

    /// What the programs run so far have printed and nobody has taken.
    pub closed spec fn printed(self) -> Seq<FragmentView> {
        fragments_view(self.output@)
    }

    /// The budget of each run.
    pub closed spec fn budget(self) -> nat {
        self.budget as nat
    }

    /// An interpreter with the largest budget.
    pub fn new() -> (interpreter: Interpreter)
        ensures
            interpreter.scopes() == seq![global_scope()],
            interpreter.printed() == Seq::<FragmentView>::empty(),
            interpreter.budget() == u64::MAX,
    {
        Interpreter::with_budget(u64::MAX)
    }

    /// An interpreter whose runs have the budget `budget`.
    pub fn with_budget(budget: u64) -> (interpreter: Interpreter)
        ensures
            interpreter.scopes() == seq![global_scope()],
            interpreter.printed() == Seq::<FragmentView>::empty(),
            interpreter.budget() == budget,
    {
        let mut environment = Environment::new();
        let globals = StdLib::create_global_environment();
        let mut i: usize = 0;
        while i < globals.len()
            invariant
                i <= globals.len(),
                environment@ == seq![scope_of(globals@, i as int)],
            decreases globals.len() - i,
        {
            environment.define(globals[i].0.clone(), globals[i].1.clone());
            assert(environment@ =~= seq![scope_of(globals@, i + 1)]);
            i += 1;
        }
        proof {
            reveal_with_fuel(scope_of, 3);
            assert(scope_of(globals@, 2) == global_scope());
        }
        let output: Vec<Fragment> = Vec::new();
        assert(fragments_view(output@) =~= Seq::empty());
        Interpreter { environment, executor: Executor::new(), output, budget }
    }

    /// Runs a program in the scopes of the interpreter: the statements in
    /// order, as a whole. The first error ends the run; the scopes and the
    /// output keep what the run did up to it.
    pub fn interpret(&mut self, statements: &[Stmt]) -> (r: Result<(), RuntimeError>)
        ensures
            final(self).budget() == old(self).budget(),
            ({
                let run = run_block(
                    stmts_view(statements@),
                    State { scopes: old(self).scopes(), output: old(self).printed() },
                    old(self).budget(),
                );
                &&& final(self).scopes() == run.state.scopes
                &&& final(self).printed() == run.state.output
                &&& match r {
                    Ok(_) => run.result is Ok,
                    Err(error) => run.result == Err::<ValueView, _>(error@),
                }
            }),
    {
        let _ = self.executor.execute_block(
            statements,
            &mut self.environment,
            &mut self.output,
            self.budget,
        )?;
        Ok(())
    }

    /// Hands out what was printed, and starts the output anew.
    pub fn take_output(&mut self) -> (taken: Vec<Fragment>)
        ensures
            fragments_view(taken@) == old(self).printed(),
            final(self).printed() == Seq::<FragmentView>::empty(),
            final(self).scopes() == old(self).scopes(),
            final(self).budget() == old(self).budget(),
    {
        let mut taken: Vec<Fragment> = Vec::new();
        std::mem::swap(&mut taken, &mut self.output);
        assert(fragments_view(self.output@) =~= Seq::empty());
        taken
    }
}

} // verus!
