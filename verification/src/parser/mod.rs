//! The parser: recursive descent from tokens to statements.

use vstd::prelude::*;
use vstd::string::*;
use crate::ast::{
    exprs_view, parameters_view, stmts_view, type_option_view, Expr, ExprView, Literal, Parameter,
    ParameterView, Stmt, StmtView, Type, TypeView,
};
use crate::error::{ParserError, ParserErrorView};
use crate::number::Number;
use crate::parser::grammar::{
    at_end, binary_tail, check, error_at, expect, expect_range, is_operator, parse_arguments,
    parse_assignment, parse_binary, parse_block, parse_bounds, parse_braced, parse_condition,
    parse_expression, parse_expression_then, parse_for, parse_func_declaration, parse_if,
    parse_parameter_list, parse_parameters, parse_primary, parse_program, parse_signature,
    parse_simple_statement, parse_statement, parse_type_annotation, parse_unary,
    parse_var_declaration, parse_while, shifted, zero_literal, Parsed, LEVELS,
};
use crate::token::{tokens_view, Token, TokenKind, TokenView};

pub mod grammar;

verus! {

/// The model of a parsed expression or of the error in its place.
pub open spec fn expr_result(r: Result<Expr, ParserError>) -> Result<ExprView, ParserErrorView> {
    match r {
        Ok(e) => Ok(e@),
        Err(error) => Err(error@),
    }
}

/// The model of a parsed statement or of the error in its place.
pub open spec fn stmt_result(r: Result<Stmt, ParserError>) -> Result<StmtView, ParserErrorView> {
    match r {
        Ok(s) => Ok(s@),
        Err(error) => Err(error@),
    }
}

/// The model of parsed statements or of the error in their place.
pub open spec fn stmts_result(r: Result<Vec<Stmt>, ParserError>) -> Result<
    Seq<StmtView>,
    ParserErrorView,
> {
    match r {
        Ok(list) => Ok(stmts_view(list@)),
        Err(error) => Err(error@),
    }
}

/// The model of parsed expressions or of the error in their place.
pub open spec fn exprs_result(r: Result<Vec<Expr>, ParserError>) -> Result<
    Seq<ExprView>,
    ParserErrorView,
> {
    match r {
        Ok(list) => Ok(exprs_view(list@)),
        Err(error) => Err(error@),
    }
}

/// The model of parsed parameters or of the error in their place.
pub open spec fn parameters_result(r: Result<Vec<Parameter>, ParserError>) -> Result<
    Seq<ParameterView>,
    ParserErrorView,
> {
    match r {
        Ok(list) => Ok(parameters_view(list@)),
        Err(error) => Err(error@),
    }
}

/// The model of a parsed type annotation or of the error in its place.
pub open spec fn type_result(r: Result<Option<Type>, ParserError>) -> Result<
    Option<TypeView>,
    ParserErrorView,
> {
    match r {
        Ok(ty) => Ok(type_option_view(ty)),
        Err(error) => Err(error@),
    }
}

/// The model of the error of a step that yields nothing.
pub open spec fn unit_result(r: Result<(), ParserError>) -> Option<ParserErrorView> {
    match r {
        Ok(_) => None,
        Err(error) => Some(error@),
    }
}

/// The model of a list with one more statement is the model with one more.
proof fn lemma_stmts_push(list: Seq<Stmt>, last: Stmt)
    ensures
        stmts_view(list.push(last)) == stmts_view(list).push(last@),
{
    assert(stmts_view(list.push(last)) =~= stmts_view(list).push(last@));
}

/// The model of a list with one more expression is the model with one more.
proof fn lemma_exprs_push(list: Seq<Expr>, last: Expr)
    ensures
        exprs_view(list.push(last)) == exprs_view(list).push(last@),
{
    assert(exprs_view(list.push(last)) =~= exprs_view(list).push(last@));
}

/// The model of a list with one more parameter is the model with one more.
proof fn lemma_parameters_push(list: Seq<Parameter>, last: Parameter)
    ensures
        parameters_view(list.push(last)) == parameters_view(list).push(last@),
{
    assert(parameters_view(list.push(last)) =~= parameters_view(list).push(last@));
}

/// Whether `kind` is a binary operator of `level`.
fn operator_of(level: u8, kind: &TokenKind) -> (r: bool)
    ensures
        r == is_operator(level as nat, kind@),
{
    match kind {
        TokenKind::Star => level == 1,
        TokenKind::Slash => level == 1,
        TokenKind::Plus => level == 2,
        TokenKind::Minus => level == 2,
        TokenKind::Greater => level == 3,
        TokenKind::Less => level == 3,
        TokenKind::GreaterEqual => level == 3,
        TokenKind::LessEqual => level == 3,
        TokenKind::EqualEqual => level == 4,
        TokenKind::BangEqual => level == 4,
        TokenKind::And => level == 5,
        TokenKind::Or => level == 6,
        _ => false,
    }
}

/// A parser over a sequence of tokens that ends with the end of input.
pub struct Parser {
    tokens: Vec<Token>,
    current: usize,
}

impl Parser {
    /// The tokens that the parser reads.
    pub closed spec fn input(self) -> Seq<TokenView> {
        tokens_view(self.tokens@)
    }

    /// The index of the token that is read next.
    pub closed spec fn position(self) -> nat {
        self.current as nat
    }

    /// The tokens end with the end of input, and the position is among
    /// them.
    pub closed spec fn wf(self) -> bool {
        &&& self.tokens.len() > 0
        &&& self.tokens[self.tokens.len() - 1].kind is Eof
        &&& self.current < self.tokens.len()
    }

    /// What a step of the parser did, held against what the grammar reads
    /// at the position before it: the same node after the same number of
    /// tokens, or the same error.
    pub open spec fn reads<T>(
        before: Parser,
        after: Parser,
        got: Result<T, ParserErrorView>,
        expected: Parsed<T>,
    ) -> bool {
        &&& after.input() == before.input()
        &&& after.wf()
        &&& match expected {
            Ok((node, used)) => got == Ok::<T, ParserErrorView>(node) && after.position()
                == before.position() + used,
            Err(error) => got == Err::<T, ParserErrorView>(error),
        }
    }

    /// The number of tokens from the position on.
    pub closed spec fn left(self) -> nat {
        (self.tokens.len() - self.current) as nat
    }

    /// A parser at the first of `tokens`.
    pub fn new(tokens: Vec<Token>) -> (parser: Parser)
        requires
            tokens.len() > 0,
            tokens[tokens.len() - 1].kind is Eof,
        ensures
            parser.wf(),
            parser.input() == tokens_view(tokens@),
            parser.position() == 0,
    {
        Parser { tokens, current: 0 }
    }

    /// Parses a program: statements up to the end of input, where the
    /// parser then stands. The first error ends the parse.
    pub fn parse(&mut self) -> (r: Result<Vec<Stmt>, ParserError>)
        requires
            old(self).wf(),
        ensures
            final(self).wf(),
            final(self).input() == old(self).input(),
            stmts_result(r) == parse_program(
                old(self).input(),
                old(self).position(),
                Seq::empty(),
            ),
            r is Ok ==> at_end(final(self).input(), final(self).position()),
    {
        let ghost goal = parse_program(self.input(), self.position(), Seq::empty());
        let mut statements: Vec<Stmt> = Vec::new();
        assert(stmts_view(statements@) =~= Seq::empty());
        while !self.is_at_end()
            invariant
                self.wf(),
                self.input() == old(self).input(),
                parse_program(self.input(), self.position(), stmts_view(statements@)) == goal,
                goal == parse_program(old(self).input(), old(self).position(), Seq::empty()),
            decreases self.left(),
        {
            let stmt = match self.parse_statement() {
                Ok(stmt) => stmt,
                Err(error) => {
                    return Err(error);
                },
            };
            proof {
                lemma_stmts_push(statements@, stmt);
            }
            statements.push(stmt);
        }
        Ok(statements)
    }

    /// A statement.
    fn parse_statement(&mut self) -> (r: Result<Stmt, ParserError>)
        requires
            old(self).wf(),
        ensures
            Self::reads(
                *old(self),
                *final(self),
                stmt_result(r),
                shifted(parse_statement(old(self).input(), old(self).position()), 1),
            ),
            r is Ok ==> final(self).left() < old(self).left(),
        decreases old(self).left(), 20nat,
    {
        match &self.tokens[self.current].kind {
            TokenKind::Var => {
                self.advance();
                self.parse_var_declaration()
            },
            TokenKind::Func => {
                self.advance();
                self.parse_func_declaration()
            },
            TokenKind::If => {
                self.advance();
                self.parse_if_statement()
            },
            TokenKind::While => {
                self.advance();
                self.parse_while_statement()
            },
            TokenKind::For => {
                self.advance();
                self.parse_for_statement()
            },
            _ => self.parse_simple_statement(),
        }
    }

    /// A statement without a block of its own.
    fn parse_simple_statement(&mut self) -> (r: Result<Stmt, ParserError>)
        requires
            old(self).wf(),
        ensures
            Self::reads(
                *old(self),
                *final(self),
                stmt_result(r),
                shifted(parse_simple_statement(old(self).input(), old(self).position()), 1),
            ),
    {
        reveal(parse_simple_statement);
        match &self.tokens[self.current].kind {
            TokenKind::Break => {
                self.advance();
                self.consume(&TokenKind::Semicolon, "Expected ';' after 'break'.")?;
                Ok(Stmt::Break)
            },
            TokenKind::Continue => {
                self.advance();
                self.consume(&TokenKind::Semicolon, "Expected ';' after 'continue'.")?;
                Ok(Stmt::Continue)
            },
            TokenKind::Return => {
                self.advance();
                let e = self.parse_expression_then(
                    &TokenKind::Semicolon,
                    "Expected ';' after return value.",
                )?;
                Ok(Stmt::Return(e))
            },
            _ => {
                let e = self.parse_expression()?;
                self.consume(&TokenKind::Semicolon, "Expected ';' after expression.")?;
                Ok(Stmt::ExprStmt(e))
            },
        }
    }

    /// What follows `var`.
    fn parse_var_declaration(&mut self) -> (r: Result<Stmt, ParserError>)
        requires
            old(self).wf(),
        ensures
            Self::reads(
                *old(self),
                *final(self),
                stmt_result(r),
                parse_var_declaration(old(self).input(), old(self).position()),
            ),
    {
        reveal(parse_var_declaration);
        let name = match &self.tokens[self.current].kind {
            TokenKind::Identifier(name) => name.clone(),
            _ => {
                return Err(self.error("Expected variable name."));
            },
        };
        self.advance();
        let ty = self.parse_type_annotation()?;
        self.consume(&TokenKind::Equal, "Expected '=' after variable name.")?;
        let initializer = self.parse_expression_then(
            &TokenKind::Semicolon,
            "Expected ';' after variable declaration.",
        )?;
        Ok(Stmt::VarDecl { name, ty, initializer })
    }

    /// The head of a function declaration.
    fn parse_signature(&mut self) -> (r: Result<
        (String, Vec<Parameter>, Option<Type>),
        ParserError,
    >)
        requires
            old(self).wf(),
        ensures
            Self::reads(
                *old(self),
                *final(self),
                match r {
                    Ok((name, params, return_ty)) => Ok(
                        (name@, parameters_view(params@), type_option_view(return_ty)),
                    ),
                    Err(error) => Err(error@),
                },
                parse_signature(old(self).input(), old(self).position()),
            ),
    {
        reveal(parse_signature);
        let name = match &self.tokens[self.current].kind {
            TokenKind::Identifier(name) => name.clone(),
            _ => {
                return Err(self.error("Expected function name."));
            },
        };
        self.advance();
        self.consume(&TokenKind::LeftParen, "Expected '(' after function name.")?;
        let params = self.parse_parameter_list()?;
        self.consume(&TokenKind::RightParen, "Expected ')' after parameters.")?;
        let return_ty = self.parse_type_annotation()?;
        Ok((name, params, return_ty))
    }

    /// What follows `func`.
    fn parse_func_declaration(&mut self) -> (r: Result<Stmt, ParserError>)
        requires
            old(self).wf(),
        ensures
            Self::reads(
                *old(self),
                *final(self),
                stmt_result(r),
                parse_func_declaration(old(self).input(), old(self).position()),
            ),
        decreases old(self).left(), 23nat,
    {
        let (name, params, return_ty) = self.parse_signature()?;
        let body = self.parse_braced(
            "Expected '{' before function body.",
            "Expected '}' after function body.",
        )?;
        Ok(Stmt::FuncDecl { name, params, return_ty, body })
    }

    /// The parameters between the parentheses of a declaration.
    fn parse_parameter_list(&mut self) -> (r: Result<Vec<Parameter>, ParserError>)
        requires
            old(self).wf(),
        ensures
            Self::reads(
                *old(self),
                *final(self),
                parameters_result(r),
                parse_parameter_list(old(self).input(), old(self).position()),
            ),
    {
        reveal(parse_parameter_list);
        let ghost start = self.position();
        let ghost goal = parse_parameter_list(self.input(), self.position());
        let mut params: Vec<Parameter> = Vec::new();
        assert(parameters_view(params@) =~= Seq::empty());
        if self.check(&TokenKind::RightParen) {
            return Ok(params);
        }
        loop
            invariant
                self.wf(),
                self.input() == old(self).input(),
                start == old(self).position(),
                self.position() >= start,
                shifted(
                    parse_parameters(self.input(), self.position(), parameters_view(params@)),
                    (self.position() - start) as nat,
                ) == goal,
                goal == parse_parameter_list(old(self).input(), old(self).position()),
            decreases self.left(),
        {
            let name = match &self.tokens[self.current].kind {
                TokenKind::Identifier(name) => name.clone(),
                _ => {
                    return Err(self.error("Expected parameter name."));
                },
            };
            self.advance();
            let ty = match self.parse_type_annotation() {
                Ok(ty) => ty,
                Err(error) => {
                    return Err(error);
                },
            };
            let param = Parameter { name, ty };
            proof {
                lemma_parameters_push(params@, param);
            }
            params.push(param);
            if !self.match_token(&TokenKind::Comma) {
                return Ok(params);
            }
        }
    }

    /// A block between braces.
    fn parse_braced(&mut self, open_message: &str, close_message: &str) -> (r: Result<
        Vec<Stmt>,
        ParserError,
    >)
        requires
            old(self).wf(),
        ensures
            Self::reads(
                *old(self),
                *final(self),
                stmts_result(r),
                parse_braced(
                    old(self).input(),
                    old(self).position(),
                    open_message@,
                    close_message@,
                ),
            ),
        decreases old(self).left(), 22nat,
    {
        self.consume(&TokenKind::LeftBrace, open_message)?;
        let body = self.parse_block()?;
        self.consume(&TokenKind::RightBrace, close_message)?;
        Ok(body)
    }

    /// A condition in parentheses.
    fn parse_condition(&mut self, open_message: &str) -> (r: Result<Expr, ParserError>)
        requires
            old(self).wf(),
        ensures
            Self::reads(
                *old(self),
                *final(self),
                expr_result(r),
                parse_condition(old(self).input(), old(self).position(), open_message@),
            ),
    {
        reveal(parse_condition);
        self.consume(&TokenKind::LeftParen, open_message)?;
        self.parse_expression_then(&TokenKind::RightParen, "Expected ')' after condition.")
    }

    /// What follows `if`.
    fn parse_if_statement(&mut self) -> (r: Result<Stmt, ParserError>)
        requires
            old(self).wf(),
        ensures
            Self::reads(
                *old(self),
                *final(self),
                stmt_result(r),
                parse_if(old(self).input(), old(self).position()),
            ),
        decreases old(self).left(), 23nat,
    {
        let condition = self.parse_condition("Expected '(' after 'if'.")?;
        let then_branch = self.parse_braced(
            "Expected '{' after condition.",
            "Expected '}' after then branch.",
        )?;
        let else_branch = if self.match_token(&TokenKind::Else) {
            let block = self.parse_braced(
                "Expected '{' after 'else'.",
                "Expected '}' after else branch.",
            )?;
            Some(block)
        } else {
            None
        };
        Ok(Stmt::If { condition, then_branch, else_branch })
    }

    /// What follows `while`.
    fn parse_while_statement(&mut self) -> (r: Result<Stmt, ParserError>)
        requires
            old(self).wf(),
        ensures
            Self::reads(
                *old(self),
                *final(self),
                stmt_result(r),
                parse_while(old(self).input(), old(self).position()),
            ),
        decreases old(self).left(), 23nat,
    {
        let condition = self.parse_condition("Expected '(' after 'while'.")?;
        let body = self.parse_braced(
            "Expected '{' after condition.",
            "Expected '}' after while body.",
        )?;
        Ok(Stmt::While { condition, body })
    }

    /// The head of a `for` after the loop variable: `in range (`.
    fn consume_range(&mut self) -> (r: Result<(), ParserError>)
        requires
            old(self).wf(),
        ensures
            final(self).input() == old(self).input(),
            final(self).wf(),
            unit_result(r) == expect_range(old(self).input(), old(self).position()),
            r is Ok ==> final(self).position() == old(self).position() + 3,
    {
        reveal(expect_range);
        self.consume(&TokenKind::In, "Expected 'in' after variable name.")?;
        let is_range = match &self.tokens[self.current].kind {
            TokenKind::Identifier(name) => crate::text::same_text(name.as_str(), "range"),
            _ => false,
        };
        if !is_range {
            return Err(self.error("Expected 'range' after 'in'."));
        }
        self.advance();
        self.consume(&TokenKind::LeftParen, "Expected '(' after 'range'.")
    }

    /// The bounds of a range.
    fn parse_bounds(&mut self) -> (r: Result<(Expr, Expr), ParserError>)
        requires
            old(self).wf(),
        ensures
            Self::reads(
                *old(self),
                *final(self),
                match r {
                    Ok((start, end)) => Ok((start@, end@)),
                    Err(error) => Err(error@),
                },
                parse_bounds(old(self).input(), old(self).position()),
            ),
    {
        reveal(parse_bounds);
        let start = self.parse_expression_then(
            &TokenKind::Comma,
            "Expected ',' after start value.",
        )?;
        let end = self.parse_expression_then(
            &TokenKind::RightParen,
            "Expected ')' after end value.",
        )?;
        Ok((start, end))
    }

    /// What follows `for`.
    fn parse_for_statement(&mut self) -> (r: Result<Stmt, ParserError>)
        requires
            old(self).wf(),
        ensures
            Self::reads(
                *old(self),
                *final(self),
                stmt_result(r),
                parse_for(old(self).input(), old(self).position()),
            ),
        decreases old(self).left(), 23nat,
    {
        let variable = match &self.tokens[self.current].kind {
            TokenKind::Identifier(name) => name.clone(),
            _ => {
                return Err(self.error("Expected variable name after 'for'."));
            },
        };
        self.advance();
        self.consume_range()?;
        let (start, end) = self.parse_bounds()?;
        let body = self.parse_braced("Expected '{' after range.", "Expected '}' after for body.")?;
        Ok(Stmt::For { variable, start, end, body })
    }

    /// The statements of a block, up to a closing brace or the end of
    /// input.
    fn parse_block(&mut self) -> (r: Result<Vec<Stmt>, ParserError>)
        requires
            old(self).wf(),
        ensures
            Self::reads(
                *old(self),
                *final(self),
                stmts_result(r),
                parse_block(old(self).input(), old(self).position(), Seq::empty()),
            ),
        decreases old(self).left(), 21nat,
    {
        let ghost start = self.position();
        let ghost goal = parse_block(self.input(), self.position(), Seq::empty());
        let mut statements: Vec<Stmt> = Vec::new();
        assert(stmts_view(statements@) =~= Seq::empty());
        while !self.check(&TokenKind::RightBrace) && !self.is_at_end()
            invariant
                self.wf(),
                self.input() == old(self).input(),
                start == old(self).position(),
                self.position() >= start,
                self.left() <= old(self).left(),
                shifted(
                    parse_block(self.input(), self.position(), stmts_view(statements@)),
                    (self.position() - start) as nat,
                ) == goal,
                goal == parse_block(old(self).input(), old(self).position(), Seq::empty()),
            decreases self.left(),
        {
            let stmt = match self.parse_statement() {
                Ok(stmt) => stmt,
                Err(error) => {
                    return Err(error);
                },
            };
            proof {
                lemma_stmts_push(statements@, stmt);
            }
            statements.push(stmt);
        }
        Ok(statements)
    }

    /// An optional type annotation.
    fn parse_type_annotation(&mut self) -> (r: Result<Option<Type>, ParserError>)
        requires
            old(self).wf(),
        ensures
            Self::reads(
                *old(self),
                *final(self),
                type_result(r),
                parse_type_annotation(old(self).input(), old(self).position()),
            ),
    {
        if self.match_token(&TokenKind::Colon) {
            match &self.tokens[self.current].kind {
                TokenKind::Identifier(name) => {
                    let ty = Type { name: name.clone() };
                    self.advance();
                    Ok(Some(ty))
                },
                _ => Err(self.error("Expected type name after ':'")),
            }
        } else {
            Ok(None)
        }
    }

    /// An expression and, after it, a token of the variant of `kind`.
    fn parse_expression_then(&mut self, kind: &TokenKind, message: &str) -> (r: Result<
        Expr,
        ParserError,
    >)
        requires
            old(self).wf(),
        ensures
            Self::reads(
                *old(self),
                *final(self),
                expr_result(r),
                parse_expression_then(old(self).input(), old(self).position(), kind@, message@),
            ),
        decreases old(self).left(), 19nat,
    {
        reveal(parse_expression_then);
        let e = self.parse_expression()?;
        self.consume(kind, message)?;
        Ok(e)
    }

    /// A unary expression.
    fn parse_unary(&mut self) -> (r: Result<Expr, ParserError>)
        requires
            old(self).wf(),
        ensures
            Self::reads(
                *old(self),
                *final(self),
                expr_result(r),
                parse_unary(old(self).input(), old(self).position()),
            ),
        decreases old(self).left(), 2nat,
    {
        match &self.tokens[self.current].kind {
            TokenKind::Minus => {
                self.advance();
                let operand = self.parse_unary()?;
                let zero = Expr::Literal(Literal::Number(Number::zero()));
                assert(zero@ == zero_literal());
                Ok(
                    Expr::Binary {
                        left: Box::new(zero),
                        op: TokenKind::Minus,
                        right: Box::new(operand),
                    },
                )
            },
            TokenKind::Bang => {
                self.advance();
                let operand = self.parse_unary()?;
                Ok(Expr::Unary { op: TokenKind::Bang, right: Box::new(operand) })
            },
            _ => self.parse_primary(),
        }
    }

    /// A primary expression.
    fn parse_primary(&mut self) -> (r: Result<Expr, ParserError>)
        requires
            old(self).wf(),
        ensures
            Self::reads(
                *old(self),
                *final(self),
                expr_result(r),
                parse_primary(old(self).input(), old(self).position()),
            ),
        decreases old(self).left(), 1nat,
    {
        reveal(parse_expression_then);
        let kind = self.tokens[self.current].kind.clone();
        match kind {
            TokenKind::Identifier(name) => {
                self.advance();
                if self.match_token(&TokenKind::LeftParen) {
                    let args = if self.check(&TokenKind::RightParen) {
                        let none: Vec<Expr> = Vec::new();
                        assert(exprs_view(none@) =~= Seq::empty());
                        none
                    } else {
                        self.parse_arguments()?
                    };
                    self.consume(
                        &TokenKind::RightParen,
                        "Expected ')' after function arguments.",
                    )?;
                    let callee = Expr::Variable(name);
                    assert(callee@ == ExprView::Variable(name@));
                    Ok(Expr::Call { callee: Box::new(callee), args })
                } else {
                    Ok(Expr::Variable(name))
                }
            },
            TokenKind::StringLiteral(text) => {
                self.advance();
                Ok(Expr::Literal(Literal::String(text)))
            },
            TokenKind::NumberLiteral(value) => {
                self.advance();
                Ok(Expr::Literal(Literal::Number(value)))
            },
            TokenKind::True => {
                self.advance();
                Ok(Expr::Literal(Literal::Bool(true)))
            },
            TokenKind::False => {
                self.advance();
                Ok(Expr::Literal(Literal::Bool(false)))
            },
            TokenKind::Null => {
                self.advance();
                Ok(Expr::Literal(Literal::Null))
            },
            TokenKind::LeftParen => {
                self.advance();
                self.parse_expression_then(&TokenKind::RightParen, "Expected ')' after expression.")
            },
            _ => Err(self.error("Expected expression.")),
        }
    }

    /// The arguments of a call, one or more.
    fn parse_arguments(&mut self) -> (r: Result<Vec<Expr>, ParserError>)
        requires
            old(self).wf(),
        ensures
            Self::reads(
                *old(self),
                *final(self),
                exprs_result(r),
                parse_arguments(old(self).input(), old(self).position(), Seq::empty()),
            ),
        decreases old(self).left(), 19nat,
    {
        let ghost start = self.position();
        let ghost goal = parse_arguments(self.input(), self.position(), Seq::empty());
        let mut args: Vec<Expr> = Vec::new();
        assert(exprs_view(args@) =~= Seq::empty());
        loop
            invariant
                self.wf(),
                self.input() == old(self).input(),
                start == old(self).position(),
                self.position() >= start,
                self.left() <= old(self).left(),
                shifted(
                    parse_arguments(self.input(), self.position(), exprs_view(args@)),
                    (self.position() - start) as nat,
                ) == goal,
                goal == parse_arguments(old(self).input(), old(self).position(), Seq::empty()),
            decreases self.left(),
        {
            let arg = match self.parse_expression() {
                Ok(arg) => arg,
                Err(error) => {
                    return Err(error);
                },
            };
            proof {
                lemma_exprs_push(args@, arg);
            }
            args.push(arg);
            if !self.match_token(&TokenKind::Comma) {
                return Ok(args);
            }
        }
    }

    /// An expression of binary operators up to `level`.
    fn parse_binary(&mut self, level: u8) -> (r: Result<Expr, ParserError>)
        requires
            old(self).wf(),
            level <= LEVELS,
        ensures
            Self::reads(
                *old(self),
                *final(self),
                expr_result(r),
                parse_binary(old(self).input(), old(self).position(), level as nat),
            ),
        decreases old(self).left(), 2 * level + 3,
    {
        if level == 0 {
            return self.parse_unary();
        }
        let ghost start = self.position();
        let ghost goal = parse_binary(self.input(), self.position(), level as nat);
        let mut expr = self.parse_binary(level - 1)?;
        while operator_of(level, &self.tokens[self.current].kind)
            invariant
                self.wf(),
                0 < level <= LEVELS,
                self.input() == old(self).input(),
                start == old(self).position(),
                self.position() >= start,
                self.left() <= old(self).left(),
                shifted(
                    binary_tail(self.input(), self.position(), level as nat, expr@),
                    (self.position() - start) as nat,
                ) == goal,
                goal == parse_binary(old(self).input(), old(self).position(), level as nat),
            decreases self.left(),
        {
            let op = self.tokens[self.current].kind.clone();
            self.advance();
            let right = match self.parse_binary(level - 1) {
                Ok(right) => right,
                Err(error) => {
                    return Err(error);
                },
            };
            expr = Expr::Binary { left: Box::new(expr), op, right: Box::new(right) };
        }
        Ok(expr)
    }

    /// A logical or, and all that binds tighter.
    fn parse_logic_or(&mut self) -> (r: Result<Expr, ParserError>)
        requires
            old(self).wf(),
        ensures
            Self::reads(
                *old(self),
                *final(self),
                expr_result(r),
                parse_binary(old(self).input(), old(self).position(), LEVELS as nat),
            ),
        decreases old(self).left(), 16nat,
    {
        self.parse_binary(LEVELS)
    }

    /// An assignment, or a logical or.
    fn parse_assignment(&mut self) -> (r: Result<Expr, ParserError>)
        requires
            old(self).wf(),
        ensures
            Self::reads(
                *old(self),
                *final(self),
                expr_result(r),
                parse_assignment(old(self).input(), old(self).position()),
            ),
        decreases old(self).left(), 17nat,
    {
        let target = self.parse_logic_or()?;
        if self.match_token(&TokenKind::Equal) {
            let value = self.parse_assignment()?;
            match target {
                Expr::Variable(name) => Ok(Expr::Assign { name, value: Box::new(value) }),
                _ => Err(self.error("Invalid assignment target.")),
            }
        } else {
            Ok(target)
        }
    }

    /// An expression.
    fn parse_expression(&mut self) -> (r: Result<Expr, ParserError>)
        requires
            old(self).wf(),
        ensures
            Self::reads(
                *old(self),
                *final(self),
                expr_result(r),
                parse_expression(old(self).input(), old(self).position()),
            ),
        decreases old(self).left(), 18nat,
    {
        self.parse_assignment()
    }

    /// If the next token is of the variant of `kind`, goes past it.
    fn match_token(&mut self, kind: &TokenKind) -> (found: bool)
        requires
            old(self).wf(),
        ensures
            final(self).wf(),
            final(self).input() == old(self).input(),
            found == check(old(self).input(), old(self).position(), kind@),
            final(self).position() == old(self).position() + if found {
                1nat
            } else {
                0nat
            },
            final(self).left() == old(self).left() - if found {
                1nat
            } else {
                0nat
            },
    {
        if self.check(kind) {
            self.advance();
            true
        } else {
            false
        }
    }

    /// Goes past a token of the variant of `kind`, or fails with `message`
    /// at the token that stands there.
    fn consume(&mut self, kind: &TokenKind, message: &str) -> (r: Result<(), ParserError>)
        requires
            old(self).wf(),
        ensures
            final(self).wf(),
            final(self).input() == old(self).input(),
            unit_result(r) == expect(old(self).input(), old(self).position(), kind@, message@),
            final(self).position() == old(self).position() + if r is Ok {
                1nat
            } else {
                0nat
            },
            final(self).left() == old(self).left() - if r is Ok {
                1nat
            } else {
                0nat
            },
    {
        if self.check(kind) {
            self.advance();
            Ok(())
        } else {
            Err(self.error(message))
        }
    }

    /// Whether the next token is of the variant of `kind`.
    fn check(&self, kind: &TokenKind) -> (found: bool)
        requires
            self.wf(),
        ensures
            found == check(self.input(), self.position(), kind@),
    {
        if self.is_at_end() {
            return false;
        }
        self.tokens[self.current].kind.same_variant(kind)
    }

    /// Goes to the next token, unless the input ends here.
    fn advance(&mut self)
        requires
            old(self).wf(),
        ensures
            final(self).wf(),
            final(self).input() == old(self).input(),
            final(self).position() == old(self).position() + if at_end(
                old(self).input(),
                old(self).position(),
            ) {
                0nat
            } else {
                1nat
            },
            final(self).left() == old(self).left() - if at_end(
                old(self).input(),
                old(self).position(),
            ) {
                0nat
            } else {
                1nat
            },
    {
        if !self.is_at_end() {
            self.current += 1;
        }
    }

    /// Whether the input ends at the position.
    fn is_at_end(&self) -> (end: bool)
        requires
            self.wf(),
        ensures
            end == at_end(self.input(), self.position()),
    {
        match self.tokens[self.current].kind {
            TokenKind::Eof => true,
            _ => false,
        }
    }

    /// The error with `message` at the next token.
    fn error(&self, message: &str) -> (e: ParserError)
        requires
            self.wf(),
        ensures
            e@ == error_at(self.input(), self.position(), message@),
    {
        ParserError::Custom { message: message.to_owned(), span: self.tokens[self.current].span }
    }
}

} // verus!
