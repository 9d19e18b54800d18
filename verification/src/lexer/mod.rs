//! The lexer: from source text to tokens.

use vstd::prelude::*;
use crate::lexer::classes::{
    is_alphabetic, is_alphanumeric, is_digit, is_whitespace, length_in_bytes, utf8_length,
    value_of_digit,
};
use crate::lexer::error::LexerError;
use crate::lexer::rules::{
    digits_of, double, lemma_token_advances, next_token, number_char, number_end, offset_of,
    places_of, points_of, quote_at, single, skip_blank, span_of, token_at, tokens_from, word_end,
    word_kind, Lexed,
};
use crate::number::Number;
use crate::span::Span;
use crate::text::{characters, same_text, text_of};
use crate::token::{tokens_view, Token, TokenKind, TokenView};

pub mod classes;
pub mod error;
pub mod rules;

verus! {

/// The model of a read token or of the error in its place.
pub open spec fn token_result(r: Result<Token, LexerError>) -> Result<TokenView, LexerError> {
    match r {
        Ok(token) => Ok(token@),
        Err(error) => Err(error),
    }
}

/// An offset is at most four bytes for each character before it, and
/// grows by the bytes of the character that is passed.
pub proof fn lemma_offset(chars: Seq<char>, index: nat)
    requires
        index <= chars.len(),
    ensures
        offset_of(chars, index) <= 4 * index,
        index < chars.len() ==> offset_of(chars, index + 1) == offset_of(chars, index)
            + utf8_length(chars[index as int]),
    decreases index,
{
    if index > 0 {
        lemma_offset(chars, (index - 1) as nat);
    }
}

/// Offsets grow with the index.
pub proof fn lemma_offset_grows(chars: Seq<char>, from: nat, to: nat)
    requires
        from <= to <= chars.len(),
    ensures
        offset_of(chars, from) <= offset_of(chars, to) <= 4 * to,
    decreases to - from,
{
    lemma_offset(chars, to);
    if from < to {
        lemma_offset_grows(chars, from, (to - 1) as nat);
        lemma_offset(chars, (to - 1) as nat);
    }
}

/// The kind of a word: a keyword, or else a name.
fn kind_of_word(word: String) -> (kind: TokenKind)
    ensures
        kind@ == word_kind(word@),
{
    if same_text(word.as_str(), "var") {
        TokenKind::Var
    } else if same_text(word.as_str(), "func") {
        TokenKind::Func
    } else if same_text(word.as_str(), "return") {
        TokenKind::Return
    } else if same_text(word.as_str(), "if") {
        TokenKind::If
    } else if same_text(word.as_str(), "else") {
        TokenKind::Else
    } else if same_text(word.as_str(), "while") {
        TokenKind::While
    } else if same_text(word.as_str(), "for") {
        TokenKind::For
    } else if same_text(word.as_str(), "in") {
        TokenKind::In
    } else if same_text(word.as_str(), "break") {
        TokenKind::Break
    } else if same_text(word.as_str(), "continue") {
        TokenKind::Continue
    } else if same_text(word.as_str(), "true") {
        TokenKind::True
    } else if same_text(word.as_str(), "false") {
        TokenKind::False
    } else if same_text(word.as_str(), "null") {
        TokenKind::Null
    } else {
        TokenKind::Identifier(word)
    }
}

/// The token of one character that begins with `c`, if there is one.
fn single_kind(c: char) -> (kind: Option<TokenKind>)
    ensures
        match kind {
            Some(k) => single(c) == Some(k@),
            None => single(c) is None,
        },
{
    if c == '(' {
        Some(TokenKind::LeftParen)
    } else if c == ')' {
        Some(TokenKind::RightParen)
    } else if c == '{' {
        Some(TokenKind::LeftBrace)
    } else if c == '}' {
        Some(TokenKind::RightBrace)
    } else if c == ';' {
        Some(TokenKind::Semicolon)
    } else if c == '+' {
        Some(TokenKind::Plus)
    } else if c == '-' {
        Some(TokenKind::Minus)
    } else if c == '*' {
        Some(TokenKind::Star)
    } else if c == '/' {
        Some(TokenKind::Slash)
    } else if c == ':' {
        Some(TokenKind::Colon)
    } else if c == '.' {
        Some(TokenKind::Dot)
    } else if c == ',' {
        Some(TokenKind::Comma)
    } else if c == '%' {
        Some(TokenKind::Percent)
    } else if c == '=' {
        Some(TokenKind::Equal)
    } else if c == '<' {
        Some(TokenKind::Less)
    } else if c == '>' {
        Some(TokenKind::Greater)
    } else if c == '!' {
        Some(TokenKind::Bang)
    } else {
        None
    }
}

/// The token of the two characters `c` and `d`, if there is one.
fn double_kind(c: char, d: char) -> (kind: Option<TokenKind>)
    ensures
        match kind {
            Some(k) => double(c, d) == Some(k@),
            None => double(c, d) is None,
        },
{
    if d == '=' {
        if c == '=' {
            Some(TokenKind::EqualEqual)
        } else if c == '<' {
            Some(TokenKind::LessEqual)
        } else if c == '>' {
            Some(TokenKind::GreaterEqual)
        } else if c == '!' {
            Some(TokenKind::BangEqual)
        } else {
            None
        }
    } else if c == '&' && d == '&' {
        Some(TokenKind::And)
    } else if c == '|' && d == '|' {
        Some(TokenKind::Or)
    } else {
        None
    }
}

/// A lexer over the characters of a source text.
pub struct Lexer {
    chars: Vec<char>,
    position: usize,
    offset: usize,
}

impl Lexer {
    /// The characters of the source.
    pub closed spec fn source(self) -> Seq<char> {
        self.chars@
    }

    /// The index of the character that is read next.
    pub closed spec fn position(self) -> nat {
        self.position as nat
    }

    /// The position is in the source, and the lexer knows its byte offset.
    pub closed spec fn wf(self) -> bool {
        &&& self.position <= self.chars.len()
        &&& self.offset == offset_of(self.chars@, self.position as nat)
        &&& 4 * self.chars.len() <= usize::MAX
    }

    /// A lexer at the start of `input`. The source must be so short that
    /// four bytes for each of its characters can be counted.
    pub fn new(input: &str) -> (lexer: Lexer)
        requires
            4 * input@.len() <= usize::MAX,
        ensures
            lexer.wf(),
            lexer.source() == input@,
            lexer.position() == 0,
    {
        Lexer { chars: characters(input), position: 0, offset: 0 }
    }

    /// Goes past one character.
    fn advance(&mut self)
        requires
            old(self).wf(),
            old(self).position() < old(self).source().len(),
        ensures
            final(self).wf(),
            final(self).source() == old(self).source(),
            final(self).position() == old(self).position() + 1,
    {
        proof {
            lemma_offset(self.chars@, self.position as nat);
            lemma_offset(self.chars@, (self.position + 1) as nat);
        }
        self.offset = self.offset + length_in_bytes(self.chars[self.position]);
        self.position = self.position + 1;
    }

    /// The span from the byte offset `start` to the position.
    fn span_from(&self, start: usize) -> (span: Span)
        requires
            self.wf(),
        ensures
            span == (Span { start, end: offset_of(self.source(), self.position()) as usize }),
    {
        Span::new(start, self.offset)
    }

    /// If the next character is `expected`, goes past it.
    #[allow(non_snake_case)]
    pub fn matchNext(&mut self, expected: char) -> (found: bool)
        requires
            old(self).wf(),
        ensures
            final(self).wf(),
            final(self).source() == old(self).source(),
            found == (old(self).position() < old(self).source().len() && old(self).source()[old(
                self,
            ).position() as int] == expected),
            final(self).position() == old(self).position() + if found {
                1nat
            } else {
                0nat
            },
    {
        if self.position < self.chars.len() && self.chars[self.position] == expected {
            self.advance();
            true
        } else {
            false
        }
    }

    /// Goes past white space.
    fn skip_whitespace(&mut self)
        requires
            old(self).wf(),
        ensures
            final(self).wf(),
            final(self).source() == old(self).source(),
            final(self).position() == skip_blank(old(self).source(), old(self).position()),
    {
        while self.position < self.chars.len() && is_whitespace(self.chars[self.position])
            invariant
                self.wf(),
                self.source() == old(self).source(),
                skip_blank(self.source(), self.position()) == skip_blank(
                    old(self).source(),
                    old(self).position(),
                ),
            decreases self.chars.len() - self.position,
        {
            self.advance();
        }
    }

    /// Reads a string whose opening quote stood at the index `start` and
    /// the byte offset `from`, and has been passed.
    fn lex_string(&mut self, Ghost(start): Ghost<nat>, from: usize) -> (r: Result<
        Token,
        LexerError,
    >)
        requires
            old(self).wf(),
            old(self).position() == start + 1,
            start < old(self).source().len(),
            old(self).source()[start as int] == '"',
            from == offset_of(old(self).source(), start),
        ensures
            final(self).wf(),
            final(self).source() == old(self).source(),
            (Lexed { result: token_result(r), next: final(self).position() }) == token_at(
                old(self).source(),
                start,
            ),
    {
        let first: usize = self.position;
        while self.position < self.chars.len() && self.chars[self.position] != '"'
            invariant
                self.wf(),
                self.source() == old(self).source(),
                first <= self.position,
                first == start + 1,
                quote_at(self.source(), self.position()) == quote_at(
                    old(self).source(),
                    (start + 1) as nat,
                ),
            decreases self.chars.len() - self.position,
        {
            self.advance();
        }
        if self.position < self.chars.len() {
            let value: String = text_of(&self.chars, first, self.position);
            self.advance();
            Ok(Token { kind: TokenKind::StringLiteral(value), span: self.span_from(from) })
        } else {
            Err(LexerError::UnterminatedString { span: self.span_from(from) })
        }
    }

    /// Reads a name or a keyword whose first character stood at the index
    /// `start` and the byte offset `from`, and has been passed.
    fn lex_identifier(&mut self, first: usize, from: usize) -> (token: Token)
        requires
            old(self).wf(),
            old(self).position() == first + 1,
            first < old(self).source().len(),
            from == offset_of(old(self).source(), first as nat),
        ensures
            final(self).wf(),
            final(self).source() == old(self).source(),
            final(self).position() == word_end(old(self).source(), (first + 1) as nat),
            token@ == (TokenView {
                kind: word_kind(
                    old(self).source().subrange(first as int, final(self).position() as int),
                ),
                span: span_of(old(self).source(), first as nat, final(self).position()),
            }),
    {
        while self.position < self.chars.len() && (is_alphanumeric(self.chars[self.position])
            || self.chars[self.position] == '_')
            invariant
                self.wf(),
                self.source() == old(self).source(),
                first < self.position,
                word_end(self.source(), self.position()) == word_end(
                    old(self).source(),
                    (first + 1) as nat,
                ),
            decreases self.chars.len() - self.position,
        {
            self.advance();
        }
        let word: String = text_of(&self.chars, first, self.position);
        Token { kind: kind_of_word(word), span: self.span_from(from) }
    }

    /// Reads a number whose first digit stands at the position.
    fn lex_number(&mut self) -> (r: Result<Token, LexerError>)
        requires
            old(self).wf(),
            old(self).position() < old(self).source().len(),
            crate::lexer::classes::digit(old(self).source()[old(self).position() as int]),
            !crate::lexer::classes::alphabetic(old(self).source()[old(self).position() as int]),
        ensures
            final(self).wf(),
            final(self).source() == old(self).source(),
            (Lexed { result: token_result(r), next: final(self).position() }) == token_at(
                old(self).source(),
                old(self).position(),
            ),
    {
        let first: usize = self.position;
        let from: usize = self.offset;
        let mut digits: u64 = 0;
        let mut overflow: bool = false;
        let mut points: usize = 0;
        let mut places: usize = 0;
        assert(self.chars@.subrange(first as int, first as int) =~= Seq::<char>::empty());
        while self.position < self.chars.len() && (is_digit(self.chars[self.position])
            || self.chars[self.position] == '.')
            invariant
                self.wf(),
                self.source() == old(self).source(),
                first <= self.position,
                first == old(self).position(),
                number_end(self.source(), self.position()) == number_end(
                    old(self).source(),
                    first as nat,
                ),
                points == points_of(self.chars@.subrange(first as int, self.position as int)),
                places == places_of(self.chars@.subrange(first as int, self.position as int)),
                points <= self.position - first,
                places <= self.position - first,
                !overflow ==> digits == digits_of(
                    self.chars@.subrange(first as int, self.position as int),
                ),
                overflow ==> digits_of(self.chars@.subrange(first as int, self.position as int))
                    > u64::MAX,
            decreases self.chars.len() - self.position,
        {
            let c: char = self.chars[self.position];
            let ghost before = self.chars@.subrange(first as int, self.position as int);
            let ghost after = self.chars@.subrange(first as int, self.position + 1);
            proof {
                assert(after.drop_last() =~= before);
                assert(after.last() == c);
            }
            if c == '.' {
                points = points + 1;
                places = 0;
            } else {
                let v: u64 = value_of_digit(c);
                if !overflow {
                    match digits.checked_mul(10) {
                        Some(tens) => match tens.checked_add(v) {
                            Some(sum) => {
                                digits = sum;
                            },
                            None => {
                                overflow = true;
                            },
                        },
                        None => {
                            overflow = true;
                        },
                    }
                }
                if points > 0 {
                    places = places + 1;
                }
            }
            self.advance();
        }
        let ghost text = self.chars@.subrange(first as int, self.position as int);
        proof {
            assert(number_char(self.chars@[first as int]));
            assert(number_end(self.chars@, first as nat) == number_end(
                self.chars@,
                (first + 1) as nat,
            ));
            assert(self.position == number_end(self.chars@, self.position as nat));
        }
        let span: Span = self.span_from(from);
        if points <= 1 && !overflow && places <= 19 {
            let value: Number = Number::from_decimal(digits, places as u32);
            Ok(Token { kind: TokenKind::NumberLiteral(value), span })
        } else {
            Err(LexerError::InvalidNumber { span })
        }
    }

    /// Reads the next token. Where the source ends the end of input is
    /// read, again and again; after an error the lexer stands behind what
    /// it could not read.
    #[allow(non_snake_case)]
    pub fn nextToken(&mut self) -> (r: Result<Token, LexerError>)
        requires
            old(self).wf(),
        ensures
            final(self).wf(),
            final(self).source() == old(self).source(),
            (Lexed { result: token_result(r), next: final(self).position() }) == next_token(
                old(self).source(),
                old(self).position(),
            ),
    {
        self.skip_whitespace();
        let first: usize = self.position;
        let from: usize = self.offset;
        if self.position >= self.chars.len() {
            return Ok(Token { kind: TokenKind::Eof, span: Span::new(from, from) });
        }
        let c: char = self.chars[self.position];
        if c == '"' {
            self.advance();
            return self.lex_string(Ghost(first as nat), from);
        }
        if is_alphabetic(c) || c == '_' {
            self.advance();
            return Ok(self.lex_identifier(first, from));
        }
        if is_digit(c) {
            return self.lex_number();
        }
        self.advance();
        if self.position < self.chars.len() {
            match double_kind(c, self.chars[self.position]) {
                Some(kind) => {
                    self.advance();
                    return Ok(Token { kind, span: self.span_from(from) });
                },
                None => {},
            }
        }
        match single_kind(c) {
            Some(kind) => Ok(Token { kind, span: self.span_from(from) }),
            None => Err(LexerError::UnexpectedCharacter { found: c, span: self.span_from(from) }),
        }
    }

    /// Reads all the tokens from the position on, up to and with the end
    /// of input; or stops at the first error.
    pub fn tokenize(&mut self) -> (r: Result<Vec<Token>, LexerError>)
        requires
            old(self).wf(),
        ensures
            final(self).wf(),
            final(self).source() == old(self).source(),
            match r {
                Ok(tokens) => tokens.len() > 0 && tokens[tokens.len() - 1].kind is Eof
                    && tokens_from(old(self).source(), old(self).position(), Seq::empty()) == Ok::<
                    Seq<TokenView>,
                    LexerError,
                >(tokens_view(tokens@)),
                Err(error) => tokens_from(old(self).source(), old(self).position(), Seq::empty())
                    == Err::<Seq<TokenView>, LexerError>(error),
            },
    {
        let ghost goal = tokens_from(self.source(), self.position(), Seq::empty());
        let mut tokens: Vec<Token> = Vec::new();
        assert(tokens_view(tokens@) =~= Seq::empty());
        loop
            invariant
                self.wf(),
                self.source() == old(self).source(),
                tokens_from(self.source(), self.position(), tokens_view(tokens@)) == goal,
                goal == tokens_from(old(self).source(), old(self).position(), Seq::empty()),
            decreases self.chars.len() - self.position,
        {
            proof {
                lemma_token_advances(self.chars@, self.position as nat);
            }
            let ghost before = tokens@;
            let token = match self.nextToken() {
                Ok(token) => token,
                Err(error) => {
                    return Err(error);
                },
            };
            let done: bool = match token.kind {
                TokenKind::Eof => true,
                _ => false,
            };
            tokens.push(token);
            proof {
                assert(tokens_view(tokens@) =~= tokens_view(before).push(token@));
            }
            if done {
                return Ok(tokens);
            }
        }
    }
}

} // verus!
