use rey::ast::{Expr, Literal, Stmt};
use rey::number::Number;
use rey::parser::Parser;
use rey::span::Span;
use rey::token::{Token, TokenKind};

fn tok(kind: TokenKind) -> Token {
    Token { kind, span: Span::new(0, 0) }
}

fn ident(name: &str) -> Token {
    tok(TokenKind::Identifier(name.to_string()))
}

#[test]
fn multiplication_binds_tighter_than_addition() {
    let tokens = vec![
        ident("a"),
        tok(TokenKind::Plus),
        ident("b"),
        tok(TokenKind::Star),
        ident("c"),
        tok(TokenKind::Semicolon),
        tok(TokenKind::Eof),
    ];
    let program = Parser::new(tokens).parse().unwrap();
    let expected = Stmt::ExprStmt(Expr::Binary {
        left: Box::new(Expr::Variable("a".to_string())),
        op: TokenKind::Plus,
        right: Box::new(Expr::Binary {
            left: Box::new(Expr::Variable("b".to_string())),
            op: TokenKind::Star,
            right: Box::new(Expr::Variable("c".to_string())),
        }),
    });
    assert_eq!(program, vec![expected]);
}

#[test]
fn unary_minus_is_zero_minus_operand() {
    let tokens = vec![
        tok(TokenKind::Minus),
        ident("x"),
        tok(TokenKind::Semicolon),
        tok(TokenKind::Eof),
    ];
    let program = Parser::new(tokens).parse().unwrap();
    let expected = Stmt::ExprStmt(Expr::Binary {
        left: Box::new(Expr::Literal(Literal::Number(Number::from_bits(0)))),
        op: TokenKind::Minus,
        right: Box::new(Expr::Variable("x".to_string())),
    });
    assert_eq!(program, vec![expected]);
}
