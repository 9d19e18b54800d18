//! Lexical tokens: what the parser reads.

use vstd::prelude::*;
use crate::number::Number;
use crate::span::Span;

verus! {

/// The kind of a token, with the text or value that three of the kinds carry.
#[derive(Debug, PartialEq)]
pub enum TokenKind {
    // punctuation
    LeftParen,
    RightParen,
    LeftBrace,
    RightBrace,
    Comma,
    Dot,
    Minus,
    Plus,
    Semicolon,
    Slash,
    Star,
    Percent,
    Colon,
    Bang,
    // keywords
    Var,
    Func,
    Return,
    If,
    Else,
    While,
    For,
    In,
    Break,
    Continue,
    True,
    False,
    Null,
    // tokens with a payload
    Identifier(String),
    StringLiteral(String),
    NumberLiteral(Number),
    // operators
    Equal,
    EqualEqual,
    BangEqual,
    Greater,
    GreaterEqual,
    Less,
    LessEqual,
    And,
    Or,
    // end of input
    Eof,
}

/// The mathematical model of a [`TokenKind`]: text is a sequence of characters.
pub enum TokenKindView {
    LeftParen,
    RightParen,
    LeftBrace,
    RightBrace,
    Comma,
    Dot,
    Minus,
    Plus,
    Semicolon,
    Slash,
    Star,
    Percent,
    Colon,
    Bang,
    Var,
    Func,
    Return,
    If,
    Else,
    While,
    For,
    In,
    Break,
    Continue,
    True,
    False,
    Null,
    Identifier(Seq<char>),
    StringLiteral(Seq<char>),
    NumberLiteral(Number),
    Equal,
    EqualEqual,
    BangEqual,
    Greater,
    GreaterEqual,
    Less,
    LessEqual,
    And,
    Or,
    Eof,
}

impl View for TokenKind {
    type V = TokenKindView;

    open spec fn view(&self) -> TokenKindView {
        match *self {
            TokenKind::LeftParen => TokenKindView::LeftParen,
            TokenKind::RightParen => TokenKindView::RightParen,
            TokenKind::LeftBrace => TokenKindView::LeftBrace,
            TokenKind::RightBrace => TokenKindView::RightBrace,
            TokenKind::Comma => TokenKindView::Comma,
            TokenKind::Dot => TokenKindView::Dot,
            TokenKind::Minus => TokenKindView::Minus,
            TokenKind::Plus => TokenKindView::Plus,
            TokenKind::Semicolon => TokenKindView::Semicolon,
            TokenKind::Slash => TokenKindView::Slash,
            TokenKind::Star => TokenKindView::Star,
            TokenKind::Percent => TokenKindView::Percent,
            TokenKind::Colon => TokenKindView::Colon,
            TokenKind::Bang => TokenKindView::Bang,
            TokenKind::Var => TokenKindView::Var,
            TokenKind::Func => TokenKindView::Func,
            TokenKind::Return => TokenKindView::Return,
            TokenKind::If => TokenKindView::If,
            TokenKind::Else => TokenKindView::Else,
            TokenKind::While => TokenKindView::While,
            TokenKind::For => TokenKindView::For,
            TokenKind::In => TokenKindView::In,
            TokenKind::Break => TokenKindView::Break,
            TokenKind::Continue => TokenKindView::Continue,
            TokenKind::True => TokenKindView::True,
            TokenKind::False => TokenKindView::False,
            TokenKind::Null => TokenKindView::Null,
            TokenKind::Identifier(name) => TokenKindView::Identifier(name@),
            TokenKind::StringLiteral(text) => TokenKindView::StringLiteral(text@),
            TokenKind::NumberLiteral(value) => TokenKindView::NumberLiteral(value),
            TokenKind::Equal => TokenKindView::Equal,
            TokenKind::EqualEqual => TokenKindView::EqualEqual,
            TokenKind::BangEqual => TokenKindView::BangEqual,
            TokenKind::Greater => TokenKindView::Greater,
            TokenKind::GreaterEqual => TokenKindView::GreaterEqual,
            TokenKind::Less => TokenKindView::Less,
            TokenKind::LessEqual => TokenKindView::LessEqual,
            TokenKind::And => TokenKindView::And,
            TokenKind::Or => TokenKindView::Or,
            TokenKind::Eof => TokenKindView::Eof,
        }
    }
}

impl TokenKindView {
    /// The position of the kind in the declaration, which forgets the payload.
    pub open spec fn tag(self) -> nat {
        match self {
            TokenKindView::LeftParen => 0,
            TokenKindView::RightParen => 1,
            TokenKindView::LeftBrace => 2,
            TokenKindView::RightBrace => 3,
            TokenKindView::Comma => 4,
            TokenKindView::Dot => 5,
            TokenKindView::Minus => 6,
            TokenKindView::Plus => 7,
            TokenKindView::Semicolon => 8,
            TokenKindView::Slash => 9,
            TokenKindView::Star => 10,
            TokenKindView::Percent => 11,
            TokenKindView::Colon => 12,
            TokenKindView::Bang => 13,
            TokenKindView::Var => 14,
            TokenKindView::Func => 15,
            TokenKindView::Return => 16,
            TokenKindView::If => 17,
            TokenKindView::Else => 18,
            TokenKindView::While => 19,
            TokenKindView::For => 20,
            TokenKindView::In => 21,
            TokenKindView::Break => 22,
            TokenKindView::Continue => 23,
            TokenKindView::True => 24,
            TokenKindView::False => 25,
            TokenKindView::Null => 26,
            TokenKindView::Identifier(_) => 27,
            TokenKindView::StringLiteral(_) => 28,
            TokenKindView::NumberLiteral(_) => 29,
            TokenKindView::Equal => 30,
            TokenKindView::EqualEqual => 31,
            TokenKindView::BangEqual => 32,
            TokenKindView::Greater => 33,
            TokenKindView::GreaterEqual => 34,
            TokenKindView::Less => 35,
            TokenKindView::LessEqual => 36,
            TokenKindView::And => 37,
            TokenKindView::Or => 38,
            TokenKindView::Eof => 39,
        }
    }

    /// Whether two kinds are the same variant, whatever they carry.
    pub open spec fn same_variant(self, other: TokenKindView) -> bool {
        self.tag() == other.tag()
    }
}

impl TokenKind {
    /// The position of the kind in the declaration.
    pub fn tag(&self) -> (t: u8)
        ensures
            t == self@.tag(),
    {
        match self {
            TokenKind::LeftParen => 0,
            TokenKind::RightParen => 1,
            TokenKind::LeftBrace => 2,
            TokenKind::RightBrace => 3,
            TokenKind::Comma => 4,
            TokenKind::Dot => 5,
            TokenKind::Minus => 6,
            TokenKind::Plus => 7,
            TokenKind::Semicolon => 8,
            TokenKind::Slash => 9,
            TokenKind::Star => 10,
            TokenKind::Percent => 11,
            TokenKind::Colon => 12,
            TokenKind::Bang => 13,
            TokenKind::Var => 14,
            TokenKind::Func => 15,
            TokenKind::Return => 16,
            TokenKind::If => 17,
            TokenKind::Else => 18,
            TokenKind::While => 19,
            TokenKind::For => 20,
            TokenKind::In => 21,
            TokenKind::Break => 22,
            TokenKind::Continue => 23,
            TokenKind::True => 24,
            TokenKind::False => 25,
            TokenKind::Null => 26,
            TokenKind::Identifier(_) => 27,
            TokenKind::StringLiteral(_) => 28,
            TokenKind::NumberLiteral(_) => 29,
            TokenKind::Equal => 30,
            TokenKind::EqualEqual => 31,
            TokenKind::BangEqual => 32,
            TokenKind::Greater => 33,
            TokenKind::GreaterEqual => 34,
            TokenKind::Less => 35,
            TokenKind::LessEqual => 36,
            TokenKind::And => 37,
            TokenKind::Or => 38,
            TokenKind::Eof => 39,
        }
    }

    /// Whether two kinds are the same variant, whatever they carry.
    pub fn same_variant(&self, other: &TokenKind) -> (same: bool)
        ensures
            same == self@.same_variant(other@),
    {
        self.tag() == other.tag()
    }
}

impl Clone for TokenKind {
    fn clone(&self) -> (copy: TokenKind)
        ensures
            copy@ == self@,
    {
        match self {
            TokenKind::LeftParen => TokenKind::LeftParen,
            TokenKind::RightParen => TokenKind::RightParen,
            TokenKind::LeftBrace => TokenKind::LeftBrace,
            TokenKind::RightBrace => TokenKind::RightBrace,
            TokenKind::Comma => TokenKind::Comma,
            TokenKind::Dot => TokenKind::Dot,
            TokenKind::Minus => TokenKind::Minus,
            TokenKind::Plus => TokenKind::Plus,
            TokenKind::Semicolon => TokenKind::Semicolon,
            TokenKind::Slash => TokenKind::Slash,
            TokenKind::Star => TokenKind::Star,
            TokenKind::Percent => TokenKind::Percent,
            TokenKind::Colon => TokenKind::Colon,
            TokenKind::Bang => TokenKind::Bang,
            TokenKind::Var => TokenKind::Var,
            TokenKind::Func => TokenKind::Func,
            TokenKind::Return => TokenKind::Return,
            TokenKind::If => TokenKind::If,
            TokenKind::Else => TokenKind::Else,
            TokenKind::While => TokenKind::While,
            TokenKind::For => TokenKind::For,
            TokenKind::In => TokenKind::In,
            TokenKind::Break => TokenKind::Break,
            TokenKind::Continue => TokenKind::Continue,
            TokenKind::True => TokenKind::True,
            TokenKind::False => TokenKind::False,
            TokenKind::Null => TokenKind::Null,
            TokenKind::Identifier(name) => TokenKind::Identifier(name.clone()),
            TokenKind::StringLiteral(text) => TokenKind::StringLiteral(text.clone()),
            TokenKind::NumberLiteral(value) => TokenKind::NumberLiteral(*value),
            TokenKind::Equal => TokenKind::Equal,
            TokenKind::EqualEqual => TokenKind::EqualEqual,
            TokenKind::BangEqual => TokenKind::BangEqual,
            TokenKind::Greater => TokenKind::Greater,
            TokenKind::GreaterEqual => TokenKind::GreaterEqual,
            TokenKind::Less => TokenKind::Less,
            TokenKind::LessEqual => TokenKind::LessEqual,
            TokenKind::And => TokenKind::And,
            TokenKind::Or => TokenKind::Or,
            TokenKind::Eof => TokenKind::Eof,
        }
    }
}

/// A token: its kind and where it stood in the source.
#[derive(Debug, PartialEq)]
pub struct Token {
    pub kind: TokenKind,
    pub span: Span,
}

/// The mathematical model of a [`Token`].
pub struct TokenView {
    pub kind: TokenKindView,
    pub span: Span,
}

impl View for Token {
    type V = TokenView;

    open spec fn view(&self) -> TokenView {
        TokenView { kind: self.kind@, span: self.span }
    }
}

impl Clone for Token {
    fn clone(&self) -> (copy: Token)
        ensures
            copy@ == self@,
    {
        Token { kind: self.kind.clone(), span: self.span }
    }
}

/// The models of a sequence of tokens, one by one.
pub open spec fn tokens_view(tokens: Seq<Token>) -> Seq<TokenView> {
    Seq::new(tokens.len(), |i: int| tokens[i]@)
}

} // verus!
