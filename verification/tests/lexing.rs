use rey::interpreter::Interpreter;
use rey::lexer::error::LexerError;
use rey::lexer::Lexer;
use rey::number::Number;
use rey::parser::Parser;
use rey::span::Span;
use rey::stdlib::Fragment;
use rey::token::{Token, TokenKind};

fn kinds(source: &str) -> Vec<TokenKind> {
    Lexer::new(source).tokenize().unwrap().into_iter().map(|t| t.kind).collect()
}

fn number(x: f64) -> TokenKind {
    TokenKind::NumberLiteral(Number::from_bits(x.to_bits()))
}

fn name(s: &str) -> TokenKind {
    TokenKind::Identifier(s.to_string())
}

#[test]
fn words_are_keywords_or_names() {
    assert_eq!(
        kinds("var func return if else while for in break continue true false null x _y z9 variable"),
        vec![
            TokenKind::Var,
            TokenKind::Func,
            TokenKind::Return,
            TokenKind::If,
            TokenKind::Else,
            TokenKind::While,
            TokenKind::For,
            TokenKind::In,
            TokenKind::Break,
            TokenKind::Continue,
            TokenKind::True,
            TokenKind::False,
            TokenKind::Null,
            name("x"),
            name("_y"),
            name("z9"),
            name("variable"),
            TokenKind::Eof,
        ]
    );
}

#[test]
fn punctuation_and_operators() {
    assert_eq!(
        kinds("( ) { } ; + - * / : . , % = == < <= > >= ! != && ||"),
        vec![
            TokenKind::LeftParen,
            TokenKind::RightParen,
            TokenKind::LeftBrace,
            TokenKind::RightBrace,
            TokenKind::Semicolon,
            TokenKind::Plus,
            TokenKind::Minus,
            TokenKind::Star,
            TokenKind::Slash,
            TokenKind::Colon,
            TokenKind::Dot,
            TokenKind::Comma,
            TokenKind::Percent,
            TokenKind::Equal,
            TokenKind::EqualEqual,
            TokenKind::Less,
            TokenKind::LessEqual,
            TokenKind::Greater,
            TokenKind::GreaterEqual,
            TokenKind::Bang,
            TokenKind::BangEqual,
            TokenKind::And,
            TokenKind::Or,
            TokenKind::Eof,
        ]
    );
    assert_eq!(kinds("a=b"), vec![name("a"), TokenKind::Equal, name("b"), TokenKind::Eof]);
    assert_eq!(kinds("a==b"), vec![name("a"), TokenKind::EqualEqual, name("b"), TokenKind::Eof]);
}

#[test]
fn spans_are_byte_offsets() {
    let tokens = Lexer::new("  é = \"ü\" ;").tokenize().unwrap();
    assert_eq!(
        tokens,
        vec![
            Token { kind: name("é"), span: Span::new(2, 4) },
            Token { kind: TokenKind::Equal, span: Span::new(5, 6) },
            Token { kind: TokenKind::StringLiteral("ü".to_string()), span: Span::new(7, 11) },
            Token { kind: TokenKind::Semicolon, span: Span::new(12, 13) },
            Token { kind: TokenKind::Eof, span: Span::new(13, 13) },
        ]
    );
}

#[test]
fn empty_source_is_the_end_of_input() {
    let mut lexer = Lexer::new("   ");
    assert_eq!(lexer.nextToken(), Ok(Token { kind: TokenKind::Eof, span: Span::new(3, 3) }));
    assert_eq!(lexer.nextToken(), Ok(Token { kind: TokenKind::Eof, span: Span::new(3, 3) }));
    assert_eq!(kinds(""), vec![TokenKind::Eof]);
}

#[test]
fn match_next_takes_the_expected_character_only() {
    let mut lexer = Lexer::new("=x");
    assert!(!lexer.matchNext('x'));
    assert!(lexer.matchNext('='));
    assert!(!lexer.matchNext('='));
    assert!(lexer.matchNext('x'));
    assert!(!lexer.matchNext('x'));
}

#[test]
fn numbers_have_the_nearest_value() {
    let literals = [
        "0", "1", "5", "10", "42", "0.5", "0.1", "0.2", "0.3", "3.14159", "1.", "100.25",
        "9007199254740993", "18446744073709551615", "1844674407370955.1615",
        "0.0000000000000000001", "123456789.123456789", "1.7976931348623157", "4.35", "0.07",
        "2.2250738585072014", "9999999999999999999", "0.9999999999999999999", "12345678.9",
        "33333333.33333333333", "0.000001", "1000000000000000000",
    ];
    for text in literals {
        let expected: f64 = text.parse().unwrap();
        assert_eq!(kinds(text), vec![number(expected), TokenKind::Eof], "{}", text);
    }
}

#[test]
fn number_of_digits_and_places_agrees_with_the_machine() {
    let mut state: u64 = 7;
    for _ in 0..500 {
        state = state.wrapping_mul(6364136223846793005).wrapping_add(1442695040888963407);
        let digits = state >> (state % 60);
        state = state.wrapping_mul(6364136223846793005).wrapping_add(1442695040888963407);
        let places = (state >> 33) % 20;
        let mut text = digits.to_string();
        while (text.len() as u64) <= places {
            text.insert(0, '0');
        }
        text.insert(text.len() - places as usize, '.');
        let expected: f64 = text.parse().unwrap();
        assert_eq!(
            Number::from_decimal(digits, places as u32).to_bits(),
            expected.to_bits(),
            "{}",
            text
        );
    }
}

#[test]
fn malformed_numbers_are_errors() {
    assert_eq!(
        Lexer::new("1.2.3").tokenize(),
        Err(LexerError::InvalidNumber { span: Span::new(0, 5) })
    );
    assert_eq!(
        Lexer::new("x 18446744073709551616").tokenize(),
        Err(LexerError::InvalidNumber { span: Span::new(2, 22) })
    );
    assert_eq!(
        Lexer::new("0.00000000000000000001").tokenize(),
        Err(LexerError::InvalidNumber { span: Span::new(0, 22) })
    );
}

#[test]
fn unexpected_character_is_an_error() {
    assert_eq!(
        Lexer::new("a # b").tokenize(),
        Err(LexerError::UnexpectedCharacter { found: '#', span: Span::new(2, 3) })
    );
    assert_eq!(
        Lexer::new("a & b").tokenize(),
        Err(LexerError::UnexpectedCharacter { found: '&', span: Span::new(2, 3) })
    );
}

#[test]
fn unterminated_string_is_an_error() {
    assert_eq!(
        Lexer::new("x = \"abc").tokenize(),
        Err(LexerError::UnterminatedString { span: Span::new(4, 8) })
    );
}

fn run(source: &str) -> String {
    let tokens = Lexer::new(source).tokenize().unwrap();
    let program = Parser::new(tokens).parse().unwrap();
    let mut interpreter = Interpreter::with_budget(10_000);
    interpreter.interpret(&program).unwrap();
    let mut out = String::new();
    for piece in interpreter.take_output() {
        match piece {
            Fragment::Text(t) => out.push_str(&t),
            Fragment::Number(x) => out.push_str(&format!("{}", f64::from_bits(x.to_bits()))),
        }
    }
    out
}

#[test]
fn source_text_runs_from_end_to_end() {
    assert_eq!(run("for i in range(0, 3) { print(i); }"), "0\n1\n2\n");
    assert_eq!(run("var x = 5; x = x + 1; println(x);"), "6\n");
    assert_eq!(run("func f(a, b) { return a + b; } print(f(1, 2));"), "3\n");
    assert_eq!(run("print(1 / 3, 0.1 + 0.2, -2 * 3.5, 10 / 4);"), "0.3333333333333333 0.30000000000000004 -7 2.5\n");
    assert_eq!(run("print(\"a\" + \"b\", true, null, print, !false, 1 < 2, 2 <= 1);"), "ab true null <function> true true false\n");
    assert_eq!(
        run("func fact(n) { if (n < 2) { return 1; } return n * fact(n - 1); } print(fact(20));"),
        "2432902008176640000\n"
    );
    assert_eq!(
        run("var i = 0; var s = 0; while (i < 10) { i = i + 1; s = s + i; } print(s, (1 + 2) * 3);"),
        "55 9\n"
    );
    assert_eq!(run("for i in range(2.9, 5.1) { print(i); }"), "2\n3\n4\n");
    assert_eq!(run("print(1 + 2 * 3, 7 - 2 - 1, 1 == 1 && 2 != 3 || false);"), "7 4 true\n");
}
