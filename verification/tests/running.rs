use rey::ast::{Expr, Literal, Stmt};
use rey::environment::Environment;
use rey::error::RuntimeError;
use rey::executor::Executor;
use rey::interpreter::Interpreter;
use rey::number::Number;
use rey::parser::Parser;
use rey::span::Span;
use rey::stdlib::Fragment;
use rey::token::{Token, TokenKind};
use rey::value::{ControlFlow, Value};

fn tok(kind: TokenKind) -> Token {
    Token { kind, span: Span::new(0, 0) }
}

fn id(name: &str) -> Token {
    tok(TokenKind::Identifier(name.to_string()))
}

fn n(x: f64) -> Token {
    tok(TokenKind::NumberLiteral(Number::from_bits(x.to_bits())))
}

fn number(x: f64) -> Value {
    Value::Number(Number::from_bits(x.to_bits()))
}

fn program(mut tokens: Vec<Token>) -> Vec<Stmt> {
    tokens.push(tok(TokenKind::Eof));
    Parser::new(tokens).parse().unwrap()
}

fn text(output: &[Fragment]) -> String {
    let mut s = String::new();
    for piece in output {
        match piece {
            Fragment::Text(t) => s.push_str(t),
            Fragment::Number(x) => s.push_str(&format!("{}", f64::from_bits(x.to_bits()))),
        }
    }
    s
}

/// Runs the statements one by one and gives the flow of the last.
fn last_flow(stmts: &[Stmt]) -> Result<ControlFlow, RuntimeError> {
    let executor = Executor::new();
    let mut env = Environment::new();
    let mut output = Vec::new();
    let mut last = Ok(ControlFlow::Normal(Value::Null));
    for stmt in stmts {
        last = executor.execute(stmt, &mut env, &mut output, 1000);
        if last.is_err() {
            break;
        }
    }
    last
}

#[test]
fn trailing_expression_statement_has_its_value() {
    // var x = 5; x = x + 1; x;
    let stmts = program(vec![
        tok(TokenKind::Var), id("x"), tok(TokenKind::Equal), n(5.0), tok(TokenKind::Semicolon),
        id("x"), tok(TokenKind::Equal), id("x"), tok(TokenKind::Plus), n(1.0), tok(TokenKind::Semicolon),
        id("x"), tok(TokenKind::Semicolon),
    ]);
    match last_flow(&stmts) {
        Ok(ControlFlow::Normal(value)) => assert_eq!(value, number(6.0)),
        other => panic!("unexpected {:?}", other),
    }
}

#[test]
fn for_loop_prints_each_integer_of_the_range() {
    // for i in range(0, 3) { print(i); }
    let stmts = program(vec![
        tok(TokenKind::For), id("i"), tok(TokenKind::In), id("range"), tok(TokenKind::LeftParen),
        n(0.0), tok(TokenKind::Comma), n(3.0), tok(TokenKind::RightParen), tok(TokenKind::LeftBrace),
        id("print"), tok(TokenKind::LeftParen), id("i"), tok(TokenKind::RightParen), tok(TokenKind::Semicolon),
        tok(TokenKind::RightBrace),
    ]);
    let mut interpreter = Interpreter::new();
    assert_eq!(interpreter.interpret(&stmts), Ok(()));
    let output = interpreter.take_output();
    assert_eq!(text(&output), "0\n1\n2\n");
    assert_eq!(
        output,
        vec![
            Fragment::Number(Number::from_bits(0.0f64.to_bits())),
            Fragment::Text("\n".to_string()),
            Fragment::Number(Number::from_bits(1.0f64.to_bits())),
            Fragment::Text("\n".to_string()),
            Fragment::Number(Number::from_bits(2.0f64.to_bits())),
            Fragment::Text("\n".to_string()),
        ]
    );
    assert!(interpreter.take_output().is_empty());
}

fn declare_f() -> Vec<Token> {
    // func f(a, b) { return a + b; }
    vec![
        tok(TokenKind::Func), id("f"), tok(TokenKind::LeftParen), id("a"), tok(TokenKind::Comma),
        id("b"), tok(TokenKind::RightParen), tok(TokenKind::LeftBrace), tok(TokenKind::Return),
        id("a"), tok(TokenKind::Plus), id("b"), tok(TokenKind::Semicolon), tok(TokenKind::RightBrace),
    ]
}

#[test]
fn call_binds_arguments_and_returns() {
    let mut tokens = declare_f();
    tokens.extend(vec![
        id("f"), tok(TokenKind::LeftParen), n(1.0), tok(TokenKind::Comma), n(2.0),
        tok(TokenKind::RightParen), tok(TokenKind::Semicolon),
    ]);
    match last_flow(&program(tokens)) {
        Ok(ControlFlow::Normal(value)) => assert_eq!(value, number(3.0)),
        other => panic!("unexpected {:?}", other),
    }
}

#[test]
fn call_with_wrong_number_of_arguments_fails() {
    let mut tokens = declare_f();
    tokens.extend(vec![
        id("f"), tok(TokenKind::LeftParen), n(1.0), tok(TokenKind::RightParen),
        tok(TokenKind::Semicolon),
    ]);
    match last_flow(&program(tokens)) {
        Err(error) => assert_eq!(error, RuntimeError::ArityMismatch { expected: 2, got: 1 }),
        other => panic!("unexpected {:?}", other),
    }
}

#[test]
fn division_by_zero_is_its_own_error() {
    let stmts = program(vec![n(1.0), tok(TokenKind::Slash), n(0.0), tok(TokenKind::Semicolon)]);
    assert_eq!(last_flow(&stmts).unwrap_err(), RuntimeError::DivisionByZero);
    let stmts = program(vec![
        n(1.0), tok(TokenKind::Slash), tok(TokenKind::True), tok(TokenKind::Semicolon),
    ]);
    assert_eq!(last_flow(&stmts).unwrap_err(), RuntimeError::InvalidBinaryOperation);
}

#[test]
fn break_outside_of_loop_fails() {
    for jump in [TokenKind::Break, TokenKind::Continue] {
        let stmts = program(vec![tok(jump), tok(TokenKind::Semicolon)]);
        let mut interpreter = Interpreter::new();
        assert_eq!(interpreter.interpret(&stmts), Err(RuntimeError::BreakContinueOutsideLoop));
    }
}

#[test]
fn break_in_if_fails() {
    for jump in [TokenKind::Break, TokenKind::Continue] {
        let stmts = program(vec![
            tok(TokenKind::If), tok(TokenKind::LeftParen), tok(TokenKind::True),
            tok(TokenKind::RightParen), tok(TokenKind::LeftBrace), tok(jump),
            tok(TokenKind::Semicolon), tok(TokenKind::RightBrace),
        ]);
        let mut interpreter = Interpreter::new();
        assert_eq!(interpreter.interpret(&stmts), Err(RuntimeError::BreakContinueInIf));
    }
}

#[test]
fn assignment_does_not_reach_an_outer_scope() {
    // var x = 1; func g() { x; x = 2; } g();
    let stmts = program(vec![
        tok(TokenKind::Var), id("x"), tok(TokenKind::Equal), n(1.0), tok(TokenKind::Semicolon),
        tok(TokenKind::Func), id("g"), tok(TokenKind::LeftParen), tok(TokenKind::RightParen),
        tok(TokenKind::LeftBrace), id("print"), tok(TokenKind::LeftParen), id("x"),
        tok(TokenKind::RightParen), tok(TokenKind::Semicolon), id("x"), tok(TokenKind::Equal),
        n(2.0), tok(TokenKind::Semicolon), tok(TokenKind::RightBrace),
        id("g"), tok(TokenKind::LeftParen), tok(TokenKind::RightParen), tok(TokenKind::Semicolon),
    ]);
    let mut interpreter = Interpreter::new();
    assert_eq!(
        interpreter.interpret(&stmts),
        Err(RuntimeError::UndefinedVariable("x".to_string()))
    );
    // the read before the assignment succeeded
    assert_eq!(text(&interpreter.take_output()), "1\n");
}

#[test]
fn while_loop_runs_until_condition_fails() {
    // var i = 0; while (i < 3) { print(i, "x"); i = i + 1; }
    let stmts = program(vec![
        tok(TokenKind::Var), id("i"), tok(TokenKind::Equal), n(0.0), tok(TokenKind::Semicolon),
        tok(TokenKind::While), tok(TokenKind::LeftParen), id("i"), tok(TokenKind::Less), n(3.0),
        tok(TokenKind::RightParen), tok(TokenKind::LeftBrace),
        id("print"), tok(TokenKind::LeftParen), id("i"), tok(TokenKind::Comma),
        tok(TokenKind::StringLiteral("x".to_string())), tok(TokenKind::RightParen),
        tok(TokenKind::Semicolon),
        id("i"), tok(TokenKind::Equal), id("i"), tok(TokenKind::Plus), n(1.0),
        tok(TokenKind::Semicolon), tok(TokenKind::RightBrace),
    ]);
    let mut interpreter = Interpreter::new();
    assert_eq!(interpreter.interpret(&stmts), Ok(()));
    assert_eq!(text(&interpreter.take_output()), "0 x\n1 x\n2 x\n");
}

#[test]
fn endless_loop_uses_up_the_budget() {
    let stmts = program(vec![
        tok(TokenKind::While), tok(TokenKind::LeftParen), tok(TokenKind::True),
        tok(TokenKind::RightParen), tok(TokenKind::LeftBrace), tok(TokenKind::RightBrace),
    ]);
    let mut interpreter = Interpreter::with_budget(50);
    assert_eq!(interpreter.interpret(&stmts), Err(RuntimeError::BudgetExhausted));
}

#[test]
fn literal_becomes_value() {
    assert_eq!(Value::from(Literal::Bool(true)), Value::Bool(true));
    assert_eq!(Value::from(Literal::Null), Value::Null);
    assert_eq!(Value::from(Literal::String("a".to_string())), Value::String("a".to_string()));
    let _ = Expr::Literal(Literal::Null);
}
