//! The executor: it runs statements and evaluates expressions against a
//! chain of scopes, and collects what the program prints.

use vstd::prelude::*;
use crate::ast::{clone_parameters, clone_stmts, exprs_view, stmts_view, Expr, Stmt};
use crate::environment::Environment;
use crate::error::{RuntimeError, RuntimeErrorView};
use crate::evaluator::{is_truthy, value_result, Evaluator};
use crate::number::Number;
use crate::semantics::{
    apply, bind_from, call_refused, eval_args, eval_expr, exec_block, exec_for, exec_stmt,
    exec_while, invoke, run_block, Outcome, State,
};
use crate::span::Span;
use crate::stdlib::{fragments_view, Fragment, StdLib};
use crate::token::TokenKind;
use crate::value::{values_view, ControlFlow, ControlFlowView, Function, Value, ValueView};

verus! {

/// The model of the result of a statement.
pub open spec fn flow_result(r: Result<ControlFlow, RuntimeError>) -> Result<
    ControlFlowView,
    RuntimeErrorView,
> {
    match r {
        Ok(flow) => Ok(flow@),
        Err(error) => Err(error@),
    }
}

/// The model of the result of the evaluation of a list of expressions.
pub open spec fn values_result(r: Result<Vec<Value>, RuntimeError>) -> Result<
    Seq<ValueView>,
    RuntimeErrorView,
> {
    match r {
        Ok(values) => Ok(values_view(values@)),
        Err(error) => Err(error@),
    }
}

/// The state that a chain of scopes and a list of output make.
pub open spec fn state_of(env: Environment, output: Vec<Fragment>) -> State {
    State { scopes: env@, output: fragments_view(output@) }
}

/// The model of a list with one more value is the model with one more.
proof fn lemma_values_push(list: Seq<Value>, last: Value)
    ensures
        values_view(list.push(last)) == values_view(list).push(last@),
{
    assert(values_view(list.push(last)) =~= values_view(list).push(last@));
}

/// The executor of programs.
pub struct Executor;

impl Executor {
    /// An executor.
    pub fn new() -> (executor: Executor) {
        Executor
    }

    /// Runs one statement with the budget `fuel`: the result, the scopes
    /// and the output are those that the meaning of the statement gives.
    pub fn execute(
        &self,
        stmt: &Stmt,
        env: &mut Environment,
        output: &mut Vec<Fragment>,
        fuel: u64,
    ) -> (r: Result<ControlFlow, RuntimeError>)
        ensures
            (Outcome { result: flow_result(r), state: state_of(*final(env), *final(output)) })
                == exec_stmt(stmt@, state_of(*old(env), *old(output)), fuel as nat),
        decreases 2 * fuel + 1, 1nat, *stmt, 1nat, 0nat,
    {
        match stmt {
            Stmt::VarDecl { name, ty, initializer } => {
                let value = self.evaluate_expr(initializer, env, output, fuel)?;
                env.define(name.clone(), value);
                Ok(ControlFlow::normal(Value::Null))
            },
            Stmt::ExprStmt(expr) => {
                let value = self.evaluate_expr(expr, env, output, fuel)?;
                Ok(ControlFlow::normal(value))
            },
            Stmt::FuncDecl { name, params, return_ty, body } => {
                let function = Function::new(
                    name.clone(),
                    clone_parameters(params),
                    clone_stmts(body),
                    Span::new(0, 0),
                );
                env.define(name.clone(), Value::Function(function));
                Ok(ControlFlow::normal(Value::Null))
            },
            Stmt::If { condition, then_branch, else_branch } => self.execute_if(
                stmt,
                condition,
                then_branch,
                else_branch,
                env,
                output,
                fuel,
            ),
            Stmt::While { condition, body } => self.execute_while(
                stmt,
                condition,
                body,
                env,
                output,
                fuel,
            ),
            Stmt::For { variable, start, end, body } => self.execute_for(
                stmt,
                variable,
                start,
                end,
                body,
                env,
                output,
                fuel,
            ),
            Stmt::Break => Ok(ControlFlow::Break),
            Stmt::Continue => Ok(ControlFlow::Continue),
            Stmt::Return(expr) => {
                let value = self.evaluate_expr(expr, env, output, fuel)?;
                Ok(ControlFlow::return_value(value))
            },
        }
    }

    /// Runs an `if`: the branch that the condition chooses, in the scopes
    /// of the statement itself.
    fn execute_if(
        &self,
        stmt: &Stmt,
        condition: &Expr,
        then_branch: &Vec<Stmt>,
        else_branch: &Option<Vec<Stmt>>,
        env: &mut Environment,
        output: &mut Vec<Fragment>,
        fuel: u64,
    ) -> (r: Result<ControlFlow, RuntimeError>)
        requires
            *stmt == (Stmt::If {
                condition: *condition,
                then_branch: *then_branch,
                else_branch: *else_branch,
            }),
        ensures
            (Outcome { result: flow_result(r), state: state_of(*final(env), *final(output)) })
                == exec_stmt(stmt@, state_of(*old(env), *old(output)), fuel as nat),
        decreases 2 * fuel + 1, 1nat, *stmt, 0nat, 1nat,
    {
        let condition_value = self.evaluate_expr(condition, env, output, fuel)?;
        if is_truthy(&condition_value) {
            self.execute_branch(stmt, then_branch, env, output, fuel)
        } else {
            match else_branch {
                Some(block) => self.execute_branch(stmt, block, env, output, fuel),
                None => Ok(ControlFlow::normal(Value::Null)),
            }
        }
    }

    /// Runs a branch of an `if`.
    fn execute_branch(
        &self,
        stmt: &Stmt,
        block: &Vec<Stmt>,
        env: &mut Environment,
        output: &mut Vec<Fragment>,
        fuel: u64,
    ) -> (r: Result<ControlFlow, RuntimeError>)
        requires
            decreases_to!(*stmt => *block),
        ensures
            ({
                let b = exec_block(
                    stmts_view(block@),
                    0,
                    state_of(*old(env), *old(output)),
                    fuel as nat,
                );
                &&& state_of(*final(env), *final(output)) == b.state
                &&& flow_result(r) == match b.result {
                    Err(error) => Err(error),
                    Ok(flow) => crate::semantics::branch_flow(flow),
                }
            }),
        decreases 2 * fuel + 1, 1nat, *stmt, 0nat, 0nat,
    {
        match self.execute_block_with_control_flow(block, env, output, fuel)? {
            ControlFlow::Normal(_) => Ok(ControlFlow::normal(Value::Null)),
            ControlFlow::Return(value) => Ok(ControlFlow::Return(value)),
            _ => Err(RuntimeError::BreakContinueInIf),
        }
    }

    /// Runs a `while` loop: each round takes one unit of the budget.
    fn execute_while(
        &self,
        stmt: &Stmt,
        condition: &Expr,
        body: &Vec<Stmt>,
        env: &mut Environment,
        output: &mut Vec<Fragment>,
        fuel: u64,
    ) -> (r: Result<ControlFlow, RuntimeError>)
        requires
            *stmt == (Stmt::While { condition: *condition, body: *body }),
        ensures
            (Outcome { result: flow_result(r), state: state_of(*final(env), *final(output)) })
                == exec_stmt(stmt@, state_of(*old(env), *old(output)), fuel as nat),
        decreases 2 * fuel + 1, 1nat, *stmt, 0nat, 0nat,
    {
        let ghost goal = exec_while(stmt@, state_of(*env, *output), fuel as nat);
        let mut remaining: u64 = fuel;
        loop
            invariant
                remaining <= fuel,
                *stmt == (Stmt::While { condition: *condition, body: *body }),
                exec_while(stmt@, state_of(*env, *output), remaining as nat) == goal,
                goal == exec_stmt(stmt@, state_of(*old(env), *old(output)), fuel as nat),
            decreases remaining,
        {
            let value = match self.evaluate_expr(condition, env, output, remaining) {
                Ok(value) => value,
                Err(error) => {
                    return Err(error);
                },
            };
            if !is_truthy(&value) {
                return Ok(ControlFlow::normal(Value::Null));
            }
            if remaining == 0 {
                return Err(RuntimeError::BudgetExhausted);
            }
            match self.execute_block_with_control_flow(body, env, output, remaining - 1) {
                Err(error) => {
                    return Err(error);
                },
                Ok(ControlFlow::Break) => {
                    return Ok(ControlFlow::normal(Value::Null));
                },
                Ok(ControlFlow::Return(value)) => {
                    return Ok(ControlFlow::return_value(value));
                },
                Ok(_) => {},
            }
            remaining = remaining - 1;
        }
    }

    /// Runs a `for` loop over the integers from the first bound up to,
    /// not including, the second.
    fn execute_for(
        &self,
        stmt: &Stmt,
        variable: &String,
        from: &Expr,
        to: &Expr,
        body: &Vec<Stmt>,
        env: &mut Environment,
        output: &mut Vec<Fragment>,
        fuel: u64,
    ) -> (r: Result<ControlFlow, RuntimeError>)
        requires
            *stmt == (Stmt::For { variable: *variable, start: *from, end: *to, body: *body }),
        ensures
            (Outcome { result: flow_result(r), state: state_of(*final(env), *final(output)) })
                == exec_stmt(stmt@, state_of(*old(env), *old(output)), fuel as nat),
        decreases 2 * fuel + 1, 1nat, *stmt, 0nat, 0nat,
    {
        let first_value = self.evaluate_expr(from, env, output, fuel)?;
        let second_value = self.evaluate_expr(to, env, output, fuel)?;
        let first: i64 = match first_value {
            Value::Number(n) => n.to_integer(),
            _ => {
                return Err(RuntimeError::RangeStartNotNumber);
            },
        };
        let last: i64 = match second_value {
            Value::Number(n) => n.to_integer(),
            _ => {
                return Err(RuntimeError::RangeEndNotNumber);
            },
        };
        let ghost goal = exec_for(
            stmt@,
            first as int,
            last as int,
            state_of(*env, *output),
            fuel as nat,
        );
        let mut i: i64 = first;
        while i < last
            invariant
                *stmt == (Stmt::For { variable: *variable, start: *from, end: *to, body: *body }),
                exec_for(stmt@, i as int, last as int, state_of(*env, *output), fuel as nat)
                    == goal,
                goal == exec_stmt(stmt@, state_of(*old(env), *old(output)), fuel as nat),
            decreases last - i,
        {
            env.define(variable.clone(), Value::Number(Number::from_integer(i)));
            match self.execute_block_with_control_flow(body, env, output, fuel) {
                Err(error) => {
                    return Err(error);
                },
                Ok(ControlFlow::Break) => {
                    return Ok(ControlFlow::normal(Value::Null));
                },
                Ok(ControlFlow::Return(value)) => {
                    return Ok(ControlFlow::return_value(value));
                },
                Ok(_) => {},
            }
            i = i + 1;
        }
        Ok(ControlFlow::normal(Value::Null))
    }

    /// Evaluates one expression with the budget `fuel`: the value, the
    /// scopes and the output are those that the meaning of the expression
    /// gives.
    pub fn evaluate_expr(
        &self,
        expr: &Expr,
        env: &mut Environment,
        output: &mut Vec<Fragment>,
        fuel: u64,
    ) -> (r: Result<Value, RuntimeError>)
        ensures
            (Outcome { result: value_result(r), state: state_of(*final(env), *final(output)) })
                == eval_expr(expr@, state_of(*old(env), *old(output)), fuel as nat),
        decreases 2 * fuel + 1, 0nat, *expr, 1nat, 0nat,
    {
        match expr {
            Expr::Literal(lit) => Ok(Value::from(lit.clone())),
            Expr::Variable(name) => match env.get(name.as_str()) {
                Some(value) => Ok(value.clone()),
                None => Err(RuntimeError::UndefinedVariable(name.clone())),
            },
            Expr::Binary { left, op, right } => {
                let left_value = self.evaluate_expr(left, env, output, fuel)?;
                let right_value = self.evaluate_expr(right, env, output, fuel)?;
                self.evaluate_binary(left_value, op, right_value)
            },
            Expr::Unary { op, right } => {
                let right_value = self.evaluate_expr(right, env, output, fuel)?;
                self.evaluate_unary(op, right_value)
            },
            Expr::Assign { name, value } => {
                let assigned = self.evaluate_expr(value, env, output, fuel)?;
                env.assign(name.as_str(), assigned.clone())?;
                Ok(assigned)
            },
            Expr::Call { callee, args } => self.evaluate_call(
                expr,
                callee,
                args,
                env,
                output,
                fuel,
            ),
            Expr::Get { object, name } => Err(RuntimeError::PropertyAccessNotImplemented),
        }
    }

    /// Evaluates a call. With a named callee the arguments come first,
    /// then the built-ins, then the functions of the program; with any
    /// other callee its value comes first.
    fn evaluate_call(
        &self,
        expr: &Expr,
        callee: &Expr,
        args: &Vec<Expr>,
        env: &mut Environment,
        output: &mut Vec<Fragment>,
        fuel: u64,
    ) -> (r: Result<Value, RuntimeError>)
        requires
            decreases_to!(*expr => *callee),
            decreases_to!(*expr => *args),
            expr@ == (crate::ast::ExprView::Call {
                callee: Box::new(callee@),
                args: exprs_view(args@),
            }),
        ensures
            (Outcome { result: value_result(r), state: state_of(*final(env), *final(output)) })
                == eval_expr(expr@, state_of(*old(env), *old(output)), fuel as nat),
        decreases 2 * fuel + 1, 0nat, *expr, 0nat, 0nat,
    {
        match callee {
            Expr::Variable(name) => {
                let values = self.evaluate_args(args, env, output, fuel)?;
                match StdLib::call_builtin_function(name.as_str(), &values, output) {
                    Some(result) => result,
                    None => {
                        let target = match env.get(name.as_str()) {
                            Some(value) => value.clone(),
                            None => {
                                return Err(RuntimeError::UndefinedVariable(name.clone()));
                            },
                        };
                        self.check_call(&target, args.len())?;
                        self.call_value(target, &values, env, output, fuel)
                    },
                }
            },
            _ => {
                let target = self.evaluate_expr(callee, env, output, fuel)?;
                self.check_call(&target, args.len())?;
                let values = self.evaluate_args(args, env, output, fuel)?;
                self.call_value(target, &values, env, output, fuel)
            },
        }
    }

    /// Refuses a call of what is no function, and a call with another
    /// number of arguments than the function has parameters.
    fn check_call(&self, target: &Value, got: usize) -> (r: Result<(), RuntimeError>)
        ensures
            match call_refused(target@, got as nat) {
                Some(error) => r is Err && r->Err_0@ == error,
                None => r is Ok,
            },
    {
        match target {
            Value::Function(function) => {
                if got != function.arity() {
                    Err(RuntimeError::ArityMismatch { expected: function.arity(), got })
                } else {
                    Ok(())
                }
            },
            other => Err(RuntimeError::NotCallable(other.clone())),
        }
    }

    /// Calls `target` with the values of the arguments.
    fn call_value(
        &self,
        target: Value,
        values: &Vec<Value>,
        env: &Environment,
        output: &mut Vec<Fragment>,
        fuel: u64,
    ) -> (r: Result<Value, RuntimeError>)
        ensures
            (Outcome { result: value_result(r), state: state_of(*env, *final(output)) }) == apply(
                target@,
                values_view(values@),
                state_of(*env, *old(output)),
                fuel as nat,
            ),
        decreases 2 * fuel, 1nat, target, 0nat, 0nat,
    {
        match target {
            Value::Function(function) => self.call_function(&function, values, env, output, fuel),
            other => Err(RuntimeError::NotCallable(other)),
        }
    }

    /// Calls a function of the program: its body runs in a fresh scope in
    /// front of a copy of the caller's scopes.
    fn call_function(
        &self,
        function: &Function,
        values: &Vec<Value>,
        env: &Environment,
        output: &mut Vec<Fragment>,
        fuel: u64,
    ) -> (r: Result<Value, RuntimeError>)
        ensures
            (Outcome { result: value_result(r), state: state_of(*env, *final(output)) }) == invoke(
                function@,
                values_view(values@),
                state_of(*env, *old(output)),
                fuel as nat,
            ),
        decreases 2 * fuel, 0nat, *function, 0nat, 0nat,
    {
        if fuel == 0 {
            return Err(RuntimeError::BudgetExhausted);
        }
        let mut function_env = Environment::with_parent(env.clone());
        let mut i: usize = 0;
        while i < function.params.len() && i < values.len()
            invariant
                i <= function.params.len(),
                i <= values.len(),
                bind_from(function@.params, values_view(values@), i as int, function_env@)
                    == crate::semantics::call_scopes(function@, values_view(values@), env@),
            decreases function.params.len() - i,
        {
            function_env.define(function.params[i].name.clone(), values[i].clone());
            i += 1;
        }
        self.execute_block(&function.body, &mut function_env, output, fuel - 1)
    }

    /// Evaluates the arguments of a call from left to right.
    fn evaluate_args(
        &self,
        args: &Vec<Expr>,
        env: &mut Environment,
        output: &mut Vec<Fragment>,
        fuel: u64,
    ) -> (r: Result<Vec<Value>, RuntimeError>)
        ensures
            (Outcome { result: values_result(r), state: state_of(*final(env), *final(output)) })
                == eval_args(
                exprs_view(args@),
                0,
                Seq::empty(),
                state_of(*old(env), *old(output)),
                fuel as nat,
            ),
        decreases 2 * fuel + 1, 0nat, *args, 0nat, args.len(),
    {
        let ghost goal = eval_args(
            exprs_view(args@),
            0,
            Seq::empty(),
            state_of(*env, *output),
            fuel as nat,
        );
        let mut values: Vec<Value> = Vec::new();
        let mut i: usize = 0;
        assert(values_view(values@) =~= Seq::empty());
        while i < args.len()
            invariant
                i <= args.len(),
                eval_args(
                    exprs_view(args@),
                    i as int,
                    values_view(values@),
                    state_of(*env, *output),
                    fuel as nat,
                ) == goal,
                goal == eval_args(
                    exprs_view(args@),
                    0,
                    Seq::empty(),
                    state_of(*old(env), *old(output)),
                    fuel as nat,
                ),
            decreases args.len() - i,
        {
            let value = match self.evaluate_expr(&args[i], env, output, fuel) {
                Ok(value) => value,
                Err(error) => {
                    return Err(error);
                },
            };
            proof {
                lemma_values_push(values@, value);
            }
            values.push(value);
            i += 1;
        }
        Ok(values)
    }

    /// The result of the operator `op` on two values.
    fn evaluate_binary(&self, left: Value, op: &TokenKind, right: Value) -> (r: Result<
        Value,
        RuntimeError,
    >)
        ensures
            value_result(r) == crate::semantics::binary_result(left@, op@, right@),
    {
        Evaluator::new().evaluate_binary(left, op, right)
    }

    /// The result of the operator `op` on one value.
    fn evaluate_unary(&self, op: &TokenKind, right: Value) -> (r: Result<Value, RuntimeError>)
        ensures
            value_result(r) == crate::semantics::unary_result(op@, right@),
    {
        Evaluator::new().evaluate_unary(op, right)
    }

    /// Runs a block that stands for a whole, a function body or the
    /// program, and gives its value. A `break` or `continue` that leaves
    /// the block is an error.
    pub fn execute_block(
        &self,
        statements: &[Stmt],
        env: &mut Environment,
        output: &mut Vec<Fragment>,
        fuel: u64,
    ) -> (r: Result<Value, RuntimeError>)
        ensures
            (Outcome { result: value_result(r), state: state_of(*final(env), *final(output)) })
                == run_block(
                stmts_view(statements@),
                state_of(*old(env), *old(output)),
                fuel as nat,
            ),
        decreases 2 * fuel + 1, 1nat, statements@, 1nat, 0nat,
    {
        match self.execute_block_with_control_flow(statements, env, output, fuel)? {
            ControlFlow::Normal(value) => Ok(value),
            ControlFlow::Return(value) => Ok(value),
            _ => Err(RuntimeError::BreakContinueOutsideLoop),
        }
    }

    /// Runs the statements of a block in order, in the scopes it is given,
    /// up to the first that does not end normally.
    pub fn execute_block_with_control_flow(
        &self,
        statements: &[Stmt],
        env: &mut Environment,
        output: &mut Vec<Fragment>,
        fuel: u64,
    ) -> (r: Result<ControlFlow, RuntimeError>)
        ensures
            (Outcome { result: flow_result(r), state: state_of(*final(env), *final(output)) })
                == exec_block(
                stmts_view(statements@),
                0,
                state_of(*old(env), *old(output)),
                fuel as nat,
            ),
        decreases 2 * fuel + 1, 1nat, statements@, 0nat, statements.len(),
    {
        let ghost goal = exec_block(
            stmts_view(statements@),
            0,
            state_of(*env, *output),
            fuel as nat,
        );
        let mut i: usize = 0;
        while i < statements.len()
            invariant
                i <= statements.len(),
                exec_block(
                    stmts_view(statements@),
                    i as int,
                    state_of(*env, *output),
                    fuel as nat,
                ) == goal,
                goal == exec_block(
                    stmts_view(statements@),
                    0,
                    state_of(*old(env), *old(output)),
                    fuel as nat,
                ),
            decreases statements.len() - i,
        {
            let flow = match self.execute(&statements[i], env, output, fuel) {
                Ok(flow) => flow,
                Err(error) => {
                    return Err(error);
                },
            };
            match flow {
                ControlFlow::Normal(_) => {},
                other => {
                    return Ok(other);
                },
            }
            i += 1;
        }
        Ok(ControlFlow::normal(Value::Null))
    }
}

} // verus!
