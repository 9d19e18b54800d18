use rey::ast::{Expr, Literal, Parameter, Stmt, Type};
use rey::error::ParserError;
use rey::lexer::Lexer;
use rey::number::Number;
use rey::parser::Parser;
use rey::span::Span;
use rey::token::TokenKind;

fn parse(source: &str) -> Result<Vec<Stmt>, ParserError> {
    Parser::new(Lexer::new(source).tokenize().unwrap()).parse()
}

fn var(name: &str) -> Expr {
    Expr::Variable(name.to_string())
}

fn num(x: f64) -> Expr {
    Expr::Literal(Literal::Number(Number::from_bits(x.to_bits())))
}

fn bin(left: Expr, op: TokenKind, right: Expr) -> Expr {
    Expr::Binary { left: Box::new(left), op, right: Box::new(right) }
}

fn failure(source: &str) -> (String, Span) {
    match parse(source) {
        Err(ParserError::Custom { message, span }) => (message, span),
        Ok(program) => panic!("parsed {:?}", program),
    }
}

#[test]
fn subtraction_groups_from_the_left() {
    assert_eq!(
        parse("a - b - c;"),
        Ok(vec![Stmt::ExprStmt(bin(
            bin(var("a"), TokenKind::Minus, var("b")),
            TokenKind::Minus,
            var("c")
        ))])
    );
}

#[test]
fn levels_from_tightest_to_loosest() {
    // a || b && c == d < e + f * g
    let expected = bin(
        var("a"),
        TokenKind::Or,
        bin(
            var("b"),
            TokenKind::And,
            bin(
                var("c"),
                TokenKind::EqualEqual,
                bin(
                    var("d"),
                    TokenKind::Less,
                    bin(var("e"), TokenKind::Plus, bin(var("f"), TokenKind::Star, var("g"))),
                ),
            ),
        ),
    );
    assert_eq!(parse("a || b && c == d < e + f * g;"), Ok(vec![Stmt::ExprStmt(expected)]));
    assert_eq!(
        parse("a >= b != c <= d;"),
        Ok(vec![Stmt::ExprStmt(bin(
            bin(var("a"), TokenKind::GreaterEqual, var("b")),
            TokenKind::BangEqual,
            bin(var("c"), TokenKind::LessEqual, var("d")),
        ))])
    );
}

#[test]
fn parentheses_group() {
    assert_eq!(
        parse("(a + b) * c;"),
        Ok(vec![Stmt::ExprStmt(bin(
            bin(var("a"), TokenKind::Plus, var("b")),
            TokenKind::Star,
            var("c")
        ))])
    );
    assert_eq!(failure("(a + b;").0, "Expected ')' after expression.");
}

#[test]
fn unary_operators() {
    assert_eq!(
        parse("!-x;"),
        Ok(vec![Stmt::ExprStmt(Expr::Unary {
            op: TokenKind::Bang,
            right: Box::new(bin(num(0.0), TokenKind::Minus, var("x"))),
        })])
    );
}

#[test]
fn assignment_groups_from_the_right() {
    assert_eq!(
        parse("a = b = 1;"),
        Ok(vec![Stmt::ExprStmt(Expr::Assign {
            name: "a".to_string(),
            value: Box::new(Expr::Assign { name: "b".to_string(), value: Box::new(num(1.0)) }),
        })])
    );
}

#[test]
fn assignment_needs_a_name() {
    assert_eq!(failure("1 = 2;"), ("Invalid assignment target.".to_string(), Span::new(5, 6)));
    assert_eq!(failure("f(x) = 2;").0, "Invalid assignment target.");
}

#[test]
fn calls_take_arguments() {
    assert_eq!(
        parse("f(); g(1, h(x), a + b);"),
        Ok(vec![
            Stmt::ExprStmt(Expr::Call { callee: Box::new(var("f")), args: vec![] }),
            Stmt::ExprStmt(Expr::Call {
                callee: Box::new(var("g")),
                args: vec![
                    num(1.0),
                    Expr::Call { callee: Box::new(var("h")), args: vec![var("x")] },
                    bin(var("a"), TokenKind::Plus, var("b")),
                ],
            }),
        ])
    );
    assert_eq!(failure("f(1 2);").0, "Expected ')' after function arguments.");
}

#[test]
fn declarations() {
    assert_eq!(
        parse("var x: int = 1; var y = \"s\";"),
        Ok(vec![
            Stmt::VarDecl {
                name: "x".to_string(),
                ty: Some(Type { name: "int".to_string() }),
                initializer: num(1.0),
            },
            Stmt::VarDecl {
                name: "y".to_string(),
                ty: None,
                initializer: Expr::Literal(Literal::String("s".to_string())),
            },
        ])
    );
    assert_eq!(
        parse("func f(a: int, b): bool { return true; } func g() { }"),
        Ok(vec![
            Stmt::FuncDecl {
                name: "f".to_string(),
                params: vec![
                    Parameter { name: "a".to_string(), ty: Some(Type { name: "int".to_string() }) },
                    Parameter { name: "b".to_string(), ty: None },
                ],
                return_ty: Some(Type { name: "bool".to_string() }),
                body: vec![Stmt::Return(Expr::Literal(Literal::Bool(true)))],
            },
            Stmt::FuncDecl {
                name: "g".to_string(),
                params: vec![],
                return_ty: None,
                body: vec![],
            },
        ])
    );
}

#[test]
fn control_statements() {
    assert_eq!(
        parse("if (a) { break; } else { continue; } if (b) { } while (c) { x; } for i in range(1, n) { null; }"),
        Ok(vec![
            Stmt::If {
                condition: var("a"),
                then_branch: vec![Stmt::Break],
                else_branch: Some(vec![Stmt::Continue]),
            },
            Stmt::If { condition: var("b"), then_branch: vec![], else_branch: None },
            Stmt::While { condition: var("c"), body: vec![Stmt::ExprStmt(var("x"))] },
            Stmt::For {
                variable: "i".to_string(),
                start: num(1.0),
                end: var("n"),
                body: vec![Stmt::ExprStmt(Expr::Literal(Literal::Null))],
            },
        ])
    );
}

#[test]
fn empty_program() {
    assert_eq!(parse(""), Ok(vec![]));
}

#[test]
fn each_missing_token_has_its_message() {
    let cases = [
        ("var = 1;", "Expected variable name."),
        ("var x 1;", "Expected '=' after variable name."),
        ("var x: = 1;", "Expected type name after ':'"),
        ("var x = 1", "Expected ';' after variable declaration."),
        ("func (", "Expected function name."),
        ("func f {", "Expected '(' after function name."),
        ("func f(1) {}", "Expected parameter name."),
        ("func f(a {}", "Expected ')' after parameters."),
        ("func f() x", "Expected '{' before function body."),
        ("func f() { x;", "Expected '}' after function body."),
        ("if a) {}", "Expected '(' after 'if'."),
        ("if (a {}", "Expected ')' after condition."),
        ("if (a) x", "Expected '{' after condition."),
        ("if (a) { x;", "Expected '}' after then branch."),
        ("if (a) { } else x", "Expected '{' after 'else'."),
        ("if (a) { } else { x;", "Expected '}' after else branch."),
        ("while a) {}", "Expected '(' after 'while'."),
        ("while (a) { x;", "Expected '}' after while body."),
        ("for 1", "Expected variable name after 'for'."),
        ("for i range", "Expected 'in' after variable name."),
        ("for i in list", "Expected 'range' after 'in'."),
        ("for i in range 1", "Expected '(' after 'range'."),
        ("for i in range(1 2)", "Expected ',' after start value."),
        ("for i in range(1, 2 {", "Expected ')' after end value."),
        ("for i in range(1, 2) x", "Expected '{' after range."),
        ("for i in range(1, 2) { x;", "Expected '}' after for body."),
        ("break", "Expected ';' after 'break'."),
        ("continue", "Expected ';' after 'continue'."),
        ("return 1", "Expected ';' after return value."),
        ("x", "Expected ';' after expression."),
        (";", "Expected expression."),
        ("1 + ;", "Expected expression."),
    ];
    for (source, message) in cases {
        assert_eq!(failure(source).0, message, "{}", source);
    }
}

#[test]
fn error_stands_at_the_token_that_is_wrong() {
    assert_eq!(failure("var x = 1 2;"), ("Expected ';' after variable declaration.".to_string(), Span::new(10, 11)));
    assert_eq!(failure("x"), ("Expected ';' after expression.".to_string(), Span::new(1, 1)));
}
