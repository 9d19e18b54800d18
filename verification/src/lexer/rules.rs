//! The lexical rules, as functions from the characters of the source and
//! a position among them to the token that is read there.

use vstd::prelude::*;
use crate::lexer::classes::{alphabetic, alphanumeric, digit, digit_value, utf8_length, whitespace};
use crate::lexer::error::LexerError;
use crate::number::decimal::pow10;
use crate::number::round::rounded;
use crate::number::Number;
use crate::span::Span;
use crate::token::{TokenKindView, TokenView};

verus! {

/// What was read at a position, and the position after it.
pub struct Lexed {
    pub result: Result<TokenView, LexerError>,
    pub next: nat,
}

/// The byte offset of the character at `index`: the bytes of all the
/// characters before it.
pub open spec fn offset_of(chars: Seq<char>, index: nat) -> nat
    decreases index,
{
    if index == 0 || index > chars.len() {
        0
    } else {
        offset_of(chars, (index - 1) as nat) + utf8_length(chars[index - 1])
    }
}

/// The span of the characters from `from` up to, not including, `to`.
pub open spec fn span_of(chars: Seq<char>, from: nat, to: nat) -> Span {
    Span { start: offset_of(chars, from) as usize, end: offset_of(chars, to) as usize }
}

/// The first position at or after `pos` where no white space stands.
pub open spec fn skip_blank(chars: Seq<char>, pos: nat) -> nat
    decreases chars.len() - pos,
{
    if pos < chars.len() && whitespace(chars[pos as int]) {
        skip_blank(chars, pos + 1)
    } else {
        pos
    }
}

/// Whether `c` can stand in a name after its first character.
pub open spec fn word_char(c: char) -> bool {
    alphanumeric(c) || c == '_'
}

/// Whether `c` can stand in a number.
pub open spec fn number_char(c: char) -> bool {
    digit(c) || c == '.'
}

/// The end of the name that goes on at `pos`.
pub open spec fn word_end(chars: Seq<char>, pos: nat) -> nat
    decreases chars.len() - pos,
{
    if pos < chars.len() && word_char(chars[pos as int]) {
        word_end(chars, pos + 1)
    } else {
        pos
    }
}

/// The end of the number that goes on at `pos`.
pub open spec fn number_end(chars: Seq<char>, pos: nat) -> nat
    decreases chars.len() - pos,
{
    if pos < chars.len() && number_char(chars[pos as int]) {
        number_end(chars, pos + 1)
    } else {
        pos
    }
}

/// The position of the first quote at or after `pos`, if there is one.
pub open spec fn quote_at(chars: Seq<char>, pos: nat) -> Option<nat>
    decreases chars.len() - pos,
{
    if pos >= chars.len() {
        None
    } else if chars[pos as int] == '"' {
        Some(pos)
    } else {
        quote_at(chars, pos + 1)
    }
}

/// The kind of a word: a keyword, or else a name.
pub open spec fn word_kind(word: Seq<char>) -> TokenKindView {
    if word == "var"@ {
        TokenKindView::Var
    } else if word == "func"@ {
        TokenKindView::Func
    } else if word == "return"@ {
        TokenKindView::Return
    } else if word == "if"@ {
        TokenKindView::If
    } else if word == "else"@ {
        TokenKindView::Else
    } else if word == "while"@ {
        TokenKindView::While
    } else if word == "for"@ {
        TokenKindView::For
    } else if word == "in"@ {
        TokenKindView::In
    } else if word == "break"@ {
        TokenKindView::Break
    } else if word == "continue"@ {
        TokenKindView::Continue
    } else if word == "true"@ {
        TokenKindView::True
    } else if word == "false"@ {
        TokenKindView::False
    } else if word == "null"@ {
        TokenKindView::Null
    } else {
        TokenKindView::Identifier(word)
    }
}

/// The digits of a number as one integer, the points left out.
pub open spec fn digits_of(text: Seq<char>) -> nat
    decreases text.len(),
{
    if text.len() == 0 {
        0
    } else if digit(text.last()) {
        digits_of(text.drop_last()) * 10 + digit_value(text.last())
    } else {
        digits_of(text.drop_last())
    }
}

/// The number of points in a number.
pub open spec fn points_of(text: Seq<char>) -> nat
    decreases text.len(),
{
    if text.len() == 0 {
        0
    } else if text.last() == '.' {
        points_of(text.drop_last()) + 1
    } else {
        points_of(text.drop_last())
    }
}

/// The number of digits behind the last point of a number, 0 without a
/// point.
pub open spec fn places_of(text: Seq<char>) -> nat
    decreases text.len(),
{
    if text.len() == 0 || text.last() == '.' || points_of(text) == 0 {
        0
    } else {
        places_of(text.drop_last()) + 1
    }
}

/// The value of a number written with digits and at most one point: the
/// number nearest to it. There is none for more than one point, for digits
/// that do not fit in 64 bits, and for more than 19 places.
pub open spec fn number_of(text: Seq<char>) -> Option<Number> {
    if points_of(text) <= 1 && digits_of(text) <= u64::MAX && places_of(text) <= 19 {
        Some(rounded(false, digits_of(text), pow10(places_of(text)), 0))
    } else {
        None
    }
}

/// The token of one character that begins with `c`, if there is one.
pub open spec fn single(c: char) -> Option<TokenKindView> {
    if c == '(' {
        Some(TokenKindView::LeftParen)
    } else if c == ')' {
        Some(TokenKindView::RightParen)
    } else if c == '{' {
        Some(TokenKindView::LeftBrace)
    } else if c == '}' {
        Some(TokenKindView::RightBrace)
    } else if c == ';' {
        Some(TokenKindView::Semicolon)
    } else if c == '+' {
        Some(TokenKindView::Plus)
    } else if c == '-' {
        Some(TokenKindView::Minus)
    } else if c == '*' {
        Some(TokenKindView::Star)
    } else if c == '/' {
        Some(TokenKindView::Slash)
    } else if c == ':' {
        Some(TokenKindView::Colon)
    } else if c == '.' {
        Some(TokenKindView::Dot)
    } else if c == ',' {
        Some(TokenKindView::Comma)
    } else if c == '%' {
        Some(TokenKindView::Percent)
    } else if c == '=' {
        Some(TokenKindView::Equal)
    } else if c == '<' {
        Some(TokenKindView::Less)
    } else if c == '>' {
        Some(TokenKindView::Greater)
    } else if c == '!' {
        Some(TokenKindView::Bang)
    } else {
        None
    }
}

/// The token of the two characters `c` and `d`, if there is one.
pub open spec fn double(c: char, d: char) -> Option<TokenKindView> {
    if c == '=' && d == '=' {
        Some(TokenKindView::EqualEqual)
    } else if c == '<' && d == '=' {
        Some(TokenKindView::LessEqual)
    } else if c == '>' && d == '=' {
        Some(TokenKindView::GreaterEqual)
    } else if c == '!' && d == '=' {
        Some(TokenKindView::BangEqual)
    } else if c == '&' && d == '&' {
        Some(TokenKindView::And)
    } else if c == '|' && d == '|' {
        Some(TokenKindView::Or)
    } else {
        None
    }
}

/// The token that begins at `start`, where a character stands that is no
/// white space.
pub open spec fn token_at(chars: Seq<char>, start: nat) -> Lexed {
    let c = chars[start as int];
    if c == '"' {
        match quote_at(chars, start + 1) {
            Some(end) => Lexed {
                result: Ok(
                    TokenView {
                        kind: TokenKindView::StringLiteral(
                            chars.subrange((start + 1) as int, end as int),
                        ),
                        span: span_of(chars, start, end + 1),
                    },
                ),
                next: end + 1,
            },
            None => Lexed {
                result: Err(
                    LexerError::UnterminatedString { span: span_of(chars, start, chars.len()) },
                ),
                next: chars.len(),
            },
        }
    } else if alphabetic(c) || c == '_' {
        let end = word_end(chars, start + 1);
        Lexed {
            result: Ok(
                TokenView {
                    kind: word_kind(chars.subrange(start as int, end as int)),
                    span: span_of(chars, start, end),
                },
            ),
            next: end,
        }
    } else if digit(c) {
        let end = number_end(chars, start + 1);
        Lexed {
            result: match number_of(chars.subrange(start as int, end as int)) {
                Some(value) => Ok(
                    TokenView {
                        kind: TokenKindView::NumberLiteral(value),
                        span: span_of(chars, start, end),
                    },
                ),
                None => Err(LexerError::InvalidNumber { span: span_of(chars, start, end) }),
            },
            next: end,
        }
    } else if start + 1 < chars.len() && double(c, chars[(start + 1) as int]) is Some {
        Lexed {
            result: Ok(
                TokenView {
                    kind: double(c, chars[(start + 1) as int])->Some_0,
                    span: span_of(chars, start, start + 2),
                },
            ),
            next: start + 2,
        }
    } else {
        Lexed {
            result: match single(c) {
                Some(kind) => Ok(TokenView { kind, span: span_of(chars, start, start + 1) }),
                None => Err(
                    LexerError::UnexpectedCharacter {
                        found: c,
                        span: span_of(chars, start, start + 1),
                    },
                ),
            },
            next: start + 1,
        }
    }
}

/// The token that is read at `pos`: white space is passed over, and where
/// the source ends the end of input is read, again and again.
pub open spec fn next_token(chars: Seq<char>, pos: nat) -> Lexed {
    let start = skip_blank(chars, pos);
    if start >= chars.len() {
        Lexed {
            result: Ok(
                TokenView { kind: TokenKindView::Eof, span: span_of(chars, start, start) },
            ),
            next: start,
        }
    } else {
        token_at(chars, start)
    }
}

/// All the tokens from `pos` on, up to and with the end of input,
/// appended to `tokens`; or the first error. The source is read on as long
/// as a token other than the end of input is read and the position moves
/// on, which [`lemma_token_advances`] shows it always does.
pub open spec fn tokens_from(chars: Seq<char>, pos: nat, tokens: Seq<TokenView>) -> Result<
    Seq<TokenView>,
    LexerError,
>
    decreases chars.len() - pos,
{
    let lexed = next_token(chars, pos);
    match lexed.result {
        Err(error) => Err(error),
        Ok(token) => if !(token.kind is Eof) && pos < lexed.next <= chars.len() {
            tokens_from(chars, lexed.next, tokens.push(token))
        } else {
            Ok(tokens.push(token))
        },
    }
}

/// White space is passed over forward, and not beyond the source.
pub proof fn lemma_skip_blank_bounds(chars: Seq<char>, pos: nat)
    requires
        pos <= chars.len(),
    ensures
        pos <= skip_blank(chars, pos) <= chars.len(),
    decreases chars.len() - pos,
{
    if pos < chars.len() && whitespace(chars[pos as int]) {
        lemma_skip_blank_bounds(chars, pos + 1);
    }
}

/// A name ends at or after where it goes on, and in the source.
pub proof fn lemma_word_end_bounds(chars: Seq<char>, pos: nat)
    requires
        pos <= chars.len(),
    ensures
        pos <= word_end(chars, pos) <= chars.len(),
    decreases chars.len() - pos,
{
    if pos < chars.len() && word_char(chars[pos as int]) {
        lemma_word_end_bounds(chars, pos + 1);
    }
}

/// A number ends at or after where it goes on, and in the source.
pub proof fn lemma_number_end_bounds(chars: Seq<char>, pos: nat)
    requires
        pos <= chars.len(),
    ensures
        pos <= number_end(chars, pos) <= chars.len(),
    decreases chars.len() - pos,
{
    if pos < chars.len() && number_char(chars[pos as int]) {
        lemma_number_end_bounds(chars, pos + 1);
    }
}

/// A closing quote stands at or after where it is looked for, and in the
/// source.
pub proof fn lemma_quote_bounds(chars: Seq<char>, pos: nat)
    requires
        pos <= chars.len(),
    ensures
        quote_at(chars, pos) is Some ==> pos <= quote_at(chars, pos)->Some_0 < chars.len(),
    decreases chars.len() - pos,
{
    if pos < chars.len() && chars[pos as int] != '"' {
        lemma_quote_bounds(chars, pos + 1);
    }
}

/// Every token but the end of input, and every error, moves the position
/// on, and never beyond the source.
pub proof fn lemma_token_advances(chars: Seq<char>, pos: nat)
    requires
        pos <= chars.len(),
    ensures
        pos <= next_token(chars, pos).next <= chars.len(),
        next_token(chars, pos).result matches Ok(token) && token.kind is Eof
            || pos < next_token(chars, pos).next,
{
    lemma_skip_blank_bounds(chars, pos);
    let start = skip_blank(chars, pos);
    if start < chars.len() {
        lemma_quote_bounds(chars, start + 1);
        lemma_word_end_bounds(chars, start + 1);
        lemma_number_end_bounds(chars, start + 1);
    }
}

} // verus!
