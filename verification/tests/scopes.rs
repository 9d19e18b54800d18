use rey::ast::{Expr, Literal, Stmt};
use rey::environment::Environment;
use rey::error::RuntimeError;
use rey::evaluator::{is_truthy, Evaluator};
use rey::executor::Executor;
use rey::interpreter::Interpreter;
use rey::lexer::Lexer;
use rey::number::Number;
use rey::parser::Parser;
use rey::span::Span;
use rey::stdlib::{Fragment, StdLib};
use rey::token::TokenKind;
use rey::value::{ControlFlow, Function, Value};

fn number(x: f64) -> Value {
    Value::Number(Number::from_bits(x.to_bits()))
}

fn text(s: &str) -> Value {
    Value::String(s.to_string())
}

fn program(source: &str) -> Vec<Stmt> {
    Parser::new(Lexer::new(source).tokenize().unwrap()).parse().unwrap()
}

fn run(source: &str) -> (Result<(), RuntimeError>, String) {
    let mut interpreter = Interpreter::with_budget(200);
    let outcome = interpreter.interpret(&program(source));
    let mut out = String::new();
    for piece in interpreter.take_output() {
        match piece {
            Fragment::Text(t) => out.push_str(&t),
            Fragment::Number(x) => out.push_str(&format!("{}", f64::from_bits(x.to_bits()))),
        }
    }
    (outcome, out)
}

#[test]
fn define_shadows_and_get_walks_the_chain() {
    let mut outer = Environment::new();
    outer.define("x".to_string(), number(1.0));
    outer.define("y".to_string(), number(2.0));
    let mut inner = Environment::with_parent(outer);
    assert_eq!(inner.get("x"), Some(&number(1.0)));
    inner.define("x".to_string(), number(10.0));
    assert_eq!(inner.get("x"), Some(&number(10.0)));
    assert_eq!(inner.get("y"), Some(&number(2.0)));
    assert_eq!(inner.get("z"), None);
    inner.define("x".to_string(), number(11.0));
    assert_eq!(inner.get("x"), Some(&number(11.0)));
}

#[test]
fn assign_writes_the_innermost_scope_only() {
    let mut outer = Environment::new();
    outer.define("x".to_string(), number(1.0));
    let mut inner = Environment::with_parent(outer);
    assert_eq!(
        inner.assign("x", number(2.0)),
        Err(RuntimeError::UndefinedVariable("x".to_string()))
    );
    assert_eq!(inner.get("x"), Some(&number(1.0)));
    inner.define("x".to_string(), number(3.0));
    assert_eq!(inner.assign("x", number(4.0)), Ok(()));
    assert_eq!(inner.get("x"), Some(&number(4.0)));
}

#[test]
fn clone_is_a_copy() {
    let mut env = Environment::new();
    env.define("x".to_string(), number(1.0));
    let mut copy = env.clone();
    copy.define("x".to_string(), number(2.0));
    assert_eq!(env.get("x"), Some(&number(1.0)));
    assert_eq!(copy.get("x"), Some(&number(2.0)));
}

#[test]
fn truthiness() {
    assert!(!is_truthy(&Value::Bool(false)));
    assert!(is_truthy(&Value::Bool(true)));
    assert!(!is_truthy(&Value::Null));
    assert!(!is_truthy(&number(0.0)));
    assert!(!is_truthy(&number(-0.0)));
    assert!(is_truthy(&number(0.5)));
    assert!(is_truthy(&number(f64::NAN)));
    assert!(is_truthy(&text("")));
    assert_eq!(run("if (0) { print(1); } else { print(2); } if (\"\") { print(3); }").1, "2\n3\n");
}

#[test]
fn operators_on_values() {
    let e = Evaluator::new();
    assert_eq!(e.evaluate_binary(number(7.0), &TokenKind::Minus, number(2.0)), Ok(number(5.0)));
    assert_eq!(e.evaluate_binary(number(7.0), &TokenKind::Slash, number(2.0)), Ok(number(3.5)));
    assert_eq!(e.evaluate_binary(number(7.0), &TokenKind::Star, number(2.0)), Ok(number(14.0)));
    assert_eq!(e.evaluate_binary(number(1.0), &TokenKind::Greater, number(2.0)), Ok(Value::Bool(false)));
    assert_eq!(e.evaluate_binary(number(2.0), &TokenKind::GreaterEqual, number(2.0)), Ok(Value::Bool(true)));
    assert_eq!(e.evaluate_binary(number(1.0), &TokenKind::BangEqual, number(2.0)), Ok(Value::Bool(true)));
    assert_eq!(e.evaluate_binary(text("a"), &TokenKind::Plus, text("b")), Ok(text("ab")));
    assert_eq!(e.evaluate_binary(text("a"), &TokenKind::EqualEqual, text("a")), Ok(Value::Bool(true)));
    assert_eq!(e.evaluate_binary(text("a"), &TokenKind::BangEqual, text("a")), Ok(Value::Bool(false)));
    assert_eq!(
        e.evaluate_binary(text("a"), &TokenKind::Less, text("b")),
        Err(RuntimeError::InvalidBinaryOperation)
    );
    assert_eq!(e.evaluate_binary(Value::Bool(true), &TokenKind::And, Value::Bool(false)), Ok(Value::Bool(false)));
    assert_eq!(e.evaluate_binary(Value::Bool(true), &TokenKind::Or, Value::Bool(false)), Ok(Value::Bool(true)));
    assert_eq!(e.evaluate_binary(Value::Bool(true), &TokenKind::EqualEqual, Value::Bool(true)), Ok(Value::Bool(true)));
    assert_eq!(
        e.evaluate_binary(Value::Bool(true), &TokenKind::Less, Value::Bool(true)),
        Err(RuntimeError::InvalidBinaryOperation)
    );
    assert_eq!(
        e.evaluate_binary(number(1.0), &TokenKind::Plus, text("a")),
        Err(RuntimeError::InvalidBinaryOperation)
    );
    assert_eq!(
        e.evaluate_binary(Value::Null, &TokenKind::EqualEqual, Value::Null),
        Err(RuntimeError::InvalidBinaryOperation)
    );
    assert_eq!(e.evaluate_binary(number(1.0), &TokenKind::Slash, number(-0.0)), Err(RuntimeError::DivisionByZero));
    assert_eq!(e.evaluate_unary(&TokenKind::Minus, number(2.0)), Ok(number(-2.0)));
    assert_eq!(e.evaluate_unary(&TokenKind::Bang, Value::Bool(true)), Ok(Value::Bool(false)));
    assert_eq!(e.evaluate_unary(&TokenKind::Bang, number(1.0)), Err(RuntimeError::InvalidUnaryOperation));
    assert_eq!(e.evaluate_unary(&TokenKind::Minus, text("a")), Err(RuntimeError::InvalidUnaryOperation));
}

#[test]
fn plain_evaluator_refuses_assignments_and_calls() {
    let e = Evaluator::new();
    let mut env = Environment::new();
    env.define("x".to_string(), number(1.0));
    let read = Expr::Variable("x".to_string());
    assert_eq!(e.evaluate(&read, &mut env), Ok(number(1.0)));
    let sum = Expr::Binary {
        left: Box::new(Expr::Variable("x".to_string())),
        op: TokenKind::Plus,
        right: Box::new(Expr::Literal(Literal::Number(Number::from_bits(2.0f64.to_bits())))),
    };
    assert_eq!(e.evaluate(&sum, &mut env), Ok(number(3.0)));
    let assign = Expr::Assign { name: "x".to_string(), value: Box::new(Expr::Literal(Literal::Null)) };
    assert_eq!(e.evaluate(&assign, &mut env), Err(RuntimeError::AssignmentNotSupported));
    let bad = Expr::Assign { name: "x".to_string(), value: Box::new(Expr::Variable("y".to_string())) };
    assert_eq!(e.evaluate(&bad, &mut env), Err(RuntimeError::UndefinedVariable("y".to_string())));
    let call = Expr::Call { callee: Box::new(Expr::Variable("x".to_string())), args: vec![] };
    assert_eq!(e.evaluate(&call, &mut env), Err(RuntimeError::CallNotSupported));
    let get = Expr::Get { object: Box::new(Expr::Variable("x".to_string())), name: "p".to_string() };
    assert_eq!(e.evaluate(&get, &mut env), Err(RuntimeError::PropertyAccessNotImplemented));
    assert_eq!(env.get("x"), Some(&number(1.0)));
}

#[test]
fn each_runtime_error_has_its_cause() {
    assert_eq!(run("y;").0, Err(RuntimeError::UndefinedVariable("y".to_string())));
    assert_eq!(run("y = 1;").0, Err(RuntimeError::UndefinedVariable("y".to_string())));
    assert_eq!(run("g();").0, Err(RuntimeError::UndefinedVariable("g".to_string())));
    assert_eq!(run("1 + true;").0, Err(RuntimeError::InvalidBinaryOperation));
    assert_eq!(run("!1;").0, Err(RuntimeError::InvalidUnaryOperation));
    assert_eq!(run("1 / 0;").0, Err(RuntimeError::DivisionByZero));
    assert_eq!(run("for i in range(\"a\", 3) { }").0, Err(RuntimeError::RangeStartNotNumber));
    assert_eq!(run("for i in range(0, null) { }").0, Err(RuntimeError::RangeEndNotNumber));
    assert_eq!(run("for i in range(true, null) { }").0, Err(RuntimeError::RangeStartNotNumber));
    assert_eq!(run("var x = 1; x();").0, Err(RuntimeError::NotCallable(number(1.0))));
    assert_eq!(
        run("func f(a) { } f();").0,
        Err(RuntimeError::ArityMismatch { expected: 1, got: 0 })
    );
    assert_eq!(run("if (true) { continue; }").0, Err(RuntimeError::BreakContinueInIf));
    assert_eq!(run("while (true) { if (true) { break; } }").0, Err(RuntimeError::BreakContinueInIf));
    assert_eq!(run("func f() { break; } f();").0, Err(RuntimeError::BreakContinueOutsideLoop));
    assert_eq!(run("continue;").0, Err(RuntimeError::BreakContinueOutsideLoop));
    assert_eq!(run("func f() { f(); } f();").0, Err(RuntimeError::BudgetExhausted));
    let get = Stmt::ExprStmt(Expr::Get {
        object: Box::new(Expr::Literal(Literal::Null)),
        name: "p".to_string(),
    });
    let mut interpreter = Interpreter::new();
    assert_eq!(interpreter.interpret(&vec![get]), Err(RuntimeError::PropertyAccessNotImplemented));
}

#[test]
fn errors_in_words() {
    assert_eq!(RuntimeError::UndefinedVariable("x".to_string()).message(), "Undefined variable 'x'");
    assert_eq!(RuntimeError::InvalidBinaryOperation.message(), "Invalid binary operation");
    assert_eq!(RuntimeError::InvalidUnaryOperation.message(), "Invalid unary operation");
    assert_eq!(RuntimeError::DivisionByZero.message(), "Division by zero");
    assert_eq!(RuntimeError::RangeStartNotNumber.message(), "Range start must be a number");
    assert_eq!(RuntimeError::RangeEndNotNumber.message(), "Range end must be a number");
    assert_eq!(RuntimeError::NotCallable(number(1.0)).message(), "Can only call functions, got a number");
    assert_eq!(RuntimeError::NotCallable(Value::Null).message(), "Can only call functions, got null");
    assert_eq!(
        RuntimeError::ArityMismatch { expected: 2, got: 1 }.message(),
        "Expected 2 arguments but got 1"
    );
    assert_eq!(
        RuntimeError::ArityMismatch { expected: 120, got: 0 }.message(),
        "Expected 120 arguments but got 0"
    );
    assert_eq!(RuntimeError::BreakContinueInIf.message(), "Break/continue not allowed in if statement");
    assert_eq!(RuntimeError::BreakContinueOutsideLoop.message(), "Break/continue outside of loop");
    assert_eq!(RuntimeError::PropertyAccessNotImplemented.message(), "Property access not implemented yet");
    assert_eq!(RuntimeError::AssignmentNotSupported.message(), "Assignment should be handled by executor");
    assert_eq!(RuntimeError::CallNotSupported.message(), "Function calls must be handled as statements");
    assert_eq!(RuntimeError::BudgetExhausted.message(), "Budget of calls and loop rounds exhausted");
}

#[test]
fn a_call_sees_the_callers_scopes_and_leaves_them() {
    // the body reads the caller's variable; what it defines is gone after
    assert_eq!(
        run("var x = 1; func f() { var y = x + 1; print(y); } f(); print(x);").1,
        "2\n1\n"
    );
    assert_eq!(
        run("func f() { var y = 1; } f(); y;").0,
        Err(RuntimeError::UndefinedVariable("y".to_string()))
    );
    // the scopes are those of the call, not of the declaration
    assert_eq!(
        run("func g() { print(z); } func f() { var z = 5; g(); } f();").1,
        "5\n"
    );
    // arguments are evaluated from left to right, before the call
    assert_eq!(
        run("var a = 1; func f(p, q) { print(p, q); } f(a = 2, a + 1);").1,
        "2 3\n"
    );
}

#[test]
fn loops_take_break_continue_and_return() {
    assert_eq!(run("for i in range(0, 5) { print(i); break; }").1, "0\n");
    assert_eq!(run("for i in range(0, 3) { continue; print(i); }").1, "");
    assert_eq!(run("var i = 0; while (i < 3) { i = i + 1; continue; }  print(i);").1, "3\n");
    assert_eq!(
        run("func f() { for i in range(0, 5) { if (i == 2) { return i; } } return 9; } print(f());").1,
        "2\n"
    );
    assert_eq!(
        run("func f() { while (true) { return 7; } } print(f());").1,
        "7\n"
    );
    assert_eq!(run("for i in range(3, 0) { print(i); }").1, "");
    assert_eq!(run("for i in range(0, 2) { } print(i);").1, "1\n");
}

#[test]
fn a_block_that_runs_to_its_end_is_null() {
    let executor = Executor::new();
    let mut env = Environment::new();
    let mut out = Vec::new();
    let stmts = program("1; 2;");
    assert_eq!(executor.execute_block(&stmts, &mut env, &mut out, 10), Ok(Value::Null));
    let stmts = program("1; return 2; 3;");
    assert_eq!(executor.execute_block(&stmts, &mut env, &mut out, 10), Ok(number(2.0)));
    match executor.execute_block_with_control_flow(&stmts, &mut env, &mut out, 10) {
        Ok(ControlFlow::Return(v)) => assert_eq!(v, number(2.0)),
        other => panic!("unexpected {:?}", other),
    }
    let expr = Expr::Literal(Literal::Bool(true));
    assert_eq!(executor.evaluate_expr(&expr, &mut env, &mut out, 0), Ok(Value::Bool(true)));
}

#[test]
fn budget_bounds_calls_and_rounds() {
    let stmts = program("var i = 0; while (i < 3) { i = i + 1; }");
    let mut three = Interpreter::with_budget(3);
    assert_eq!(three.interpret(&stmts), Ok(()));
    let mut two = Interpreter::with_budget(2);
    assert_eq!(two.interpret(&stmts), Err(RuntimeError::BudgetExhausted));
    let call = program("func f() { return 1; } f();");
    assert_eq!(Interpreter::with_budget(1).interpret(&call), Ok(()));
    assert_eq!(Interpreter::with_budget(0).interpret(&call), Err(RuntimeError::BudgetExhausted));
}

#[test]
fn control_flow_helpers() {
    match ControlFlow::normal(number(1.0)) {
        ControlFlow::Normal(v) => assert_eq!(v, number(1.0)),
        other => panic!("unexpected {:?}", other),
    }
    assert_eq!(ControlFlow::normal(number(1.0)).unwrap_normal(), number(1.0));
    assert_eq!(ControlFlow::return_value(text("r")).unwrap_return(), text("r"));
}

#[test]
fn functions_and_built_ins() {
    let f = Function::new("f".to_string(), vec![], vec![], Span::new(0, 0));
    assert_eq!(f.arity(), 0);
    let globals = StdLib::create_global_environment();
    let names: Vec<&str> = globals.iter().map(|(name, _)| name.as_str()).collect();
    assert_eq!(names, vec!["print", "println"]);
    let mut out = Vec::new();
    assert_eq!(StdLib::call_builtin_function("nothing", &vec![], &mut out), None);
    assert!(out.is_empty());
    assert_eq!(
        StdLib::call_builtin_function("println", &vec![text("a"), Value::Bool(false)], &mut out),
        Some(Ok(Value::Null))
    );
    assert_eq!(
        out,
        vec![
            Fragment::Text("a".to_string()),
            Fragment::Text(" ".to_string()),
            Fragment::Text("false".to_string()),
            Fragment::Text("\n".to_string()),
        ]
    );
    assert_eq!(run("print();").1, "\n");
}
