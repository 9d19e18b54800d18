//! The grammar, as functions from a sequence of tokens and a position to
//! what is read there.
//!
//! Every function reads from the position it is given and says how many
//! tokens it used; a statement says how many it used after its first, since
//! it always uses one. A position at or past the end of the sequence reads
//! as the end of input. Binary operators are on six levels, from the
//! tightest to the loosest: `* /`, `+ -`, `< > <= >=`, `== !=`, logical
//! and, logical or. All of them group to the left; assignment stands above
//! them and groups to the right.
//!
//! A call is read only of a name: `f(x)`. Calls of other expressions, calls
//! in a chain and property access are in the syntax tree and are not read.

use vstd::prelude::*;
use crate::ast::{ExprView, LiteralView, ParameterView, StmtView, TypeView};
use crate::error::ParserErrorView;
use crate::number::Number;
use crate::span::Span;
use crate::token::{TokenKindView, TokenView};

verus! {

/// What was read, and the number of tokens used for it; or why nothing
/// could be read.
pub type Parsed<T> = Result<(T, nat), ParserErrorView>;

/// The loosest level of binary operators.
pub const LEVELS: u8 = 6;

/// The kind of the token at `pos`.
pub open spec fn kind_at(tokens: Seq<TokenView>, pos: nat) -> TokenKindView {
    if pos < tokens.len() {
        tokens[pos as int].kind
    } else {
        TokenKindView::Eof
    }
}

/// The span of the token at `pos`.
pub open spec fn span_at(tokens: Seq<TokenView>, pos: nat) -> Span {
    if pos < tokens.len() {
        tokens[pos as int].span
    } else {
        Span { start: 0, end: 0 }
    }
}

/// Whether the input ends at `pos`.
pub open spec fn at_end(tokens: Seq<TokenView>, pos: nat) -> bool {
    kind_at(tokens, pos) is Eof
}

/// Whether the token at `pos` is of the variant of `kind`, whatever it
/// carries. Nothing is found at the end of input.
pub open spec fn check(tokens: Seq<TokenView>, pos: nat, kind: TokenKindView) -> bool {
    !at_end(tokens, pos) && kind_at(tokens, pos).same_variant(kind)
}

/// The error with `message` at the token at `pos`.
pub open spec fn error_at(tokens: Seq<TokenView>, pos: nat, message: Seq<char>)
    -> ParserErrorView {
    ParserErrorView::Custom { message, span: span_at(tokens, pos) }
}

/// The same result, with `by` more tokens used before it.
pub open spec fn shifted<T>(r: Parsed<T>, by: nat) -> Parsed<T> {
    match r {
        Ok((node, used)) => Ok((node, used + by)),
        Err(error) => Err(error),
    }
}

/// The number of tokens from `pos` on.
pub open spec fn remaining(tokens: Seq<TokenView>, pos: nat) -> nat {
    if pos < tokens.len() {
        (tokens.len() - pos) as nat
    } else {
        0
    }
}

/// Whether `kind` is a binary operator of `level`.
pub open spec fn is_operator(level: nat, kind: TokenKindView) -> bool {
    if level == 1 {
        kind is Star || kind is Slash
    } else if level == 2 {
        kind is Plus || kind is Minus
    } else if level == 3 {
        kind is Greater || kind is Less || kind is GreaterEqual || kind is LessEqual
    } else if level == 4 {
        kind is EqualEqual || kind is BangEqual
    } else if level == 5 {
        kind is And
    } else if level == 6 {
        kind is Or
    } else {
        false
    }
}

/// The number zero as an expression.
pub open spec fn zero_literal() -> ExprView {
    ExprView::Literal(LiteralView::Number(Number { bits: 0 }))
}

/// A binary expression.
pub open spec fn binary(left: ExprView, op: TokenKindView, right: ExprView) -> ExprView {
    ExprView::Binary { left: Box::new(left), op, right: Box::new(right) }
}

/// A call of the function named `name`.
pub open spec fn call_of(name: Seq<char>, args: Seq<ExprView>) -> ExprView {
    ExprView::Call { callee: Box::new(ExprView::Variable(name)), args }
}

/// An optional type annotation: a colon and a name.
pub open spec fn parse_type_annotation(tokens: Seq<TokenView>, pos: nat) -> Parsed<
    Option<TypeView>,
> {
    if check(tokens, pos, TokenKindView::Colon) {
        match kind_at(tokens, pos + 1) {
            TokenKindView::Identifier(name) => Ok((Some(TypeView { name }), 2)),
            _ => Err(error_at(tokens, pos + 1, "Expected type name after ':'"@)),
        }
    } else {
        Ok((None, 0))
    }
}

/// A primary expression: a literal, a name, a call of a name, or an
/// expression in parentheses.
pub open spec fn parse_primary(tokens: Seq<TokenView>, pos: nat) -> Parsed<ExprView>
    decreases remaining(tokens, pos), 1nat,
{
    match kind_at(tokens, pos) {
        TokenKindView::Identifier(name) => {
            if check(tokens, pos + 1, TokenKindView::LeftParen) {
                if check(tokens, pos + 2, TokenKindView::RightParen) {
                    Ok((call_of(name, Seq::empty()), 3))
                } else {
                    match parse_arguments(tokens, pos + 2, Seq::empty()) {
                        Err(error) => Err(error),
                        Ok((args, used)) => if check(
                            tokens,
                            pos + 2 + used,
                            TokenKindView::RightParen,
                        ) {
                            Ok((call_of(name, args), used + 3))
                        } else {
                            Err(
                                error_at(
                                    tokens,
                                    pos + 2 + used,
                                    "Expected ')' after function arguments."@,
                                ),
                            )
                        },
                    }
                }
            } else {
                Ok((ExprView::Variable(name), 1))
            }
        },
        TokenKindView::StringLiteral(text) => Ok(
            (ExprView::Literal(LiteralView::String(text)), 1),
        ),
        TokenKindView::NumberLiteral(value) => Ok(
            (ExprView::Literal(LiteralView::Number(value)), 1),
        ),
        TokenKindView::True => Ok((ExprView::Literal(LiteralView::Bool(true)), 1)),
        TokenKindView::False => Ok((ExprView::Literal(LiteralView::Bool(false)), 1)),
        TokenKindView::Null => Ok((ExprView::Literal(LiteralView::Null), 1)),
        TokenKindView::LeftParen => match parse_expression(tokens, pos + 1) {
            Err(error) => Err(error),
            Ok((inner, used)) => if check(tokens, pos + 1 + used, TokenKindView::RightParen) {
                Ok((inner, used + 2))
            } else {
                Err(error_at(tokens, pos + 1 + used, "Expected ')' after expression."@))
            },
        },
        _ => Err(error_at(tokens, pos, "Expected expression."@)),
    }
}

/// The arguments of a call, one or more with commas between, appended to
/// `args`.
pub open spec fn parse_arguments(tokens: Seq<TokenView>, pos: nat, args: Seq<ExprView>) -> Parsed<
    Seq<ExprView>,
>
    decreases remaining(tokens, pos), 18nat,
{
    match parse_expression(tokens, pos) {
        Err(error) => Err(error),
        Ok((arg, used)) => if check(tokens, pos + used, TokenKindView::Comma) {
            shifted(parse_arguments(tokens, pos + used + 1, args.push(arg)), used + 1)
        } else {
            Ok((args.push(arg), used))
        },
    }
}

/// A unary expression. `-x` is read as `0 - x`; `!x` stays a unary node.
pub open spec fn parse_unary(tokens: Seq<TokenView>, pos: nat) -> Parsed<ExprView>
    decreases remaining(tokens, pos), 2nat,
{
    match kind_at(tokens, pos) {
        TokenKindView::Minus => match parse_unary(tokens, pos + 1) {
            Err(error) => Err(error),
            Ok((operand, used)) => Ok(
                (binary(zero_literal(), TokenKindView::Minus, operand), used + 1),
            ),
        },
        TokenKindView::Bang => match parse_unary(tokens, pos + 1) {
            Err(error) => Err(error),
            Ok((operand, used)) => Ok(
                (ExprView::Unary { op: TokenKindView::Bang, right: Box::new(operand) }, used + 1),
            ),
        },
        _ => parse_primary(tokens, pos),
    }
}

/// An expression of binary operators up to `level`; at level 0, a unary
/// expression.
pub open spec fn parse_binary(tokens: Seq<TokenView>, pos: nat, level: nat) -> Parsed<ExprView>
    decreases remaining(tokens, pos), 2 * level + 3,
{
    if level == 0 {
        parse_unary(tokens, pos)
    } else {
        match parse_binary(tokens, pos, (level - 1) as nat) {
            Err(error) => Err(error),
            Ok((left, used)) => shifted(binary_tail(tokens, pos + used, level, left), used),
        }
    }
}

/// What follows the operand `left` on `level`: as long as an operator of
/// the level comes next, it and the operand after it are folded into a
/// binary node that is the next left operand.
pub open spec fn binary_tail(tokens: Seq<TokenView>, pos: nat, level: nat, left: ExprView)
    -> Parsed<ExprView>
    decreases remaining(tokens, pos), 2 * level + 2,
{
    if level > 0 && is_operator(level, kind_at(tokens, pos)) {
        match parse_binary(tokens, pos + 1, (level - 1) as nat) {
            Err(error) => Err(error),
            Ok((right, used)) => shifted(
                binary_tail(
                    tokens,
                    pos + 1 + used,
                    level,
                    binary(left, kind_at(tokens, pos), right),
                ),
                used + 1,
            ),
        }
    } else {
        Ok((left, 0))
    }
}

/// An assignment, or a binary expression of the loosest level. Only a
/// name can be assigned to; the right-hand side is itself an assignment.
pub open spec fn parse_assignment(tokens: Seq<TokenView>, pos: nat) -> Parsed<ExprView>
    decreases remaining(tokens, pos), 16nat,
{
    match parse_binary(tokens, pos, LEVELS as nat) {
        Err(error) => Err(error),
        Ok((target, used)) => if check(tokens, pos + used, TokenKindView::Equal) {
            match parse_assignment(tokens, pos + used + 1) {
                Err(error) => Err(error),
                Ok((value, more)) => match target {
                    ExprView::Variable(name) => Ok(
                        (ExprView::Assign { name, value: Box::new(value) }, used + 1 + more),
                    ),
                    _ => Err(
                        error_at(tokens, pos + used + 1 + more, "Invalid assignment target."@),
                    ),
                },
            }
        } else {
            Ok((target, used))
        },
    }
}

/// An expression.
pub open spec fn parse_expression(tokens: Seq<TokenView>, pos: nat) -> Parsed<ExprView>
    decreases remaining(tokens, pos), 17nat,
{
    parse_assignment(tokens, pos)
}

/// An expression and, after it, a token of the variant of `kind`, which
/// `message` asks for.
#[verifier::opaque]
pub open spec fn parse_expression_then(
    tokens: Seq<TokenView>,
    pos: nat,
    kind: TokenKindView,
    message: Seq<char>,
) -> Parsed<ExprView> {
    match parse_expression(tokens, pos) {
        Err(error) => Err(error),
        Ok((e, used)) => if check(tokens, pos + used, kind) {
            Ok((e, used + 1))
        } else {
            Err(error_at(tokens, pos + used, message))
        },
    }
}

/// The parameters of a function, one or more with commas between,
/// appended to `params`.
pub open spec fn parse_parameters(
    tokens: Seq<TokenView>,
    pos: nat,
    params: Seq<ParameterView>,
) -> Parsed<Seq<ParameterView>>
    decreases remaining(tokens, pos),
{
    match kind_at(tokens, pos) {
        TokenKindView::Identifier(name) => match parse_type_annotation(tokens, pos + 1) {
            Err(error) => Err(error),
            Ok((ty, used)) => {
                let all = params.push(ParameterView { name, ty });
                if check(tokens, pos + 1 + used, TokenKindView::Comma) {
                    shifted(parse_parameters(tokens, pos + used + 2, all), used + 2)
                } else {
                    Ok((all, used + 1))
                }
            },
        },
        _ => Err(error_at(tokens, pos, "Expected parameter name."@)),
    }
}

/// The parameters between the parentheses of a declaration, if any.
#[verifier::opaque]
pub open spec fn parse_parameter_list(tokens: Seq<TokenView>, pos: nat) -> Parsed<
    Seq<ParameterView>,
> {
    if check(tokens, pos, TokenKindView::RightParen) {
        Ok((Seq::empty(), 0))
    } else {
        parse_parameters(tokens, pos, Seq::empty())
    }
}

/// A token of the variant of `kind` at `pos`, which `message` asks for.
pub open spec fn expect(
    tokens: Seq<TokenView>,
    pos: nat,
    kind: TokenKindView,
    message: Seq<char>,
) -> Option<ParserErrorView> {
    if check(tokens, pos, kind) {
        None
    } else {
        Some(error_at(tokens, pos, message))
    }
}

/// A statement without a block of its own, and the number of tokens used
/// after its first: `break;`, `continue;`, `return` with an expression,
/// or an expression as a statement.
#[verifier::opaque]
pub open spec fn parse_simple_statement(tokens: Seq<TokenView>, pos: nat) -> Parsed<StmtView> {
    match kind_at(tokens, pos) {
        TokenKindView::Break => match expect(
            tokens,
            pos + 1,
            TokenKindView::Semicolon,
            "Expected ';' after 'break'."@,
        ) {
            Some(error) => Err(error),
            None => Ok((StmtView::Break, 1)),
        },
        TokenKindView::Continue => match expect(
            tokens,
            pos + 1,
            TokenKindView::Semicolon,
            "Expected ';' after 'continue'."@,
        ) {
            Some(error) => Err(error),
            None => Ok((StmtView::Continue, 1)),
        },
        TokenKindView::Return => match parse_expression_then(
            tokens,
            pos + 1,
            TokenKindView::Semicolon,
            "Expected ';' after return value."@,
        ) {
            Err(error) => Err(error),
            Ok((e, used)) => Ok((StmtView::Return(e), used)),
        },
        _ => match parse_expression(tokens, pos) {
            Err(error) => Err(error),
            Ok((e, used)) => match expect(
                tokens,
                pos + used,
                TokenKindView::Semicolon,
                "Expected ';' after expression."@,
            ) {
                Some(error) => Err(error),
                None => Ok((StmtView::ExprStmt(e), used)),
            },
        },
    }
}

/// A statement, and the number of tokens used after its first.
pub open spec fn parse_statement(tokens: Seq<TokenView>, pos: nat) -> Parsed<StmtView>
    decreases remaining(tokens, pos), 19nat,
{
    match kind_at(tokens, pos) {
        TokenKindView::Var => parse_var_declaration(tokens, pos + 1),
        TokenKindView::Func => parse_func_declaration(tokens, pos + 1),
        TokenKindView::If => parse_if(tokens, pos + 1),
        TokenKindView::While => parse_while(tokens, pos + 1),
        TokenKindView::For => parse_for(tokens, pos + 1),
        _ => parse_simple_statement(tokens, pos),
    }
}

/// What follows `var`: a name, an optional type, `=`, an expression, `;`.
#[verifier::opaque]
pub open spec fn parse_var_declaration(tokens: Seq<TokenView>, pos: nat) -> Parsed<StmtView> {
    match kind_at(tokens, pos) {
        TokenKindView::Identifier(name) => match parse_type_annotation(tokens, pos + 1) {
            Err(error) => Err(error),
            Ok((ty, a)) => match expect(
                tokens,
                pos + 1 + a,
                TokenKindView::Equal,
                "Expected '=' after variable name."@,
            ) {
                Some(error) => Err(error),
                None => match parse_expression_then(
                    tokens,
                    pos + a + 2,
                    TokenKindView::Semicolon,
                    "Expected ';' after variable declaration."@,
                ) {
                    Err(error) => Err(error),
                    Ok((initializer, b)) => Ok(
                        (StmtView::VarDecl { name, ty, initializer }, a + b + 2),
                    ),
                },
            },
        },
        _ => Err(error_at(tokens, pos, "Expected variable name."@)),
    }
}

/// A block between braces: `{`, statements, `}`; the two messages ask for
/// the braces.
pub open spec fn parse_braced(
    tokens: Seq<TokenView>,
    pos: nat,
    open_message: Seq<char>,
    close_message: Seq<char>,
) -> Parsed<Seq<StmtView>>
    decreases remaining(tokens, pos), 21nat,
{
    match expect(tokens, pos, TokenKindView::LeftBrace, open_message) {
        Some(error) => Err(error),
        None => match parse_block(tokens, pos + 1, Seq::empty()) {
            Err(error) => Err(error),
            Ok((body, used)) => match expect(
                tokens,
                pos + 1 + used,
                TokenKindView::RightBrace,
                close_message,
            ) {
                Some(error) => Err(error),
                None => Ok((body, used + 2)),
            },
        },
    }
}

/// The head of a function declaration: a name, the parameters in
/// parentheses, and an optional return type.
#[verifier::opaque]
pub open spec fn parse_signature(tokens: Seq<TokenView>, pos: nat) -> Parsed<
    (Seq<char>, Seq<ParameterView>, Option<TypeView>),
> {
    match kind_at(tokens, pos) {
        TokenKindView::Identifier(name) => match expect(
            tokens,
            pos + 1,
            TokenKindView::LeftParen,
            "Expected '(' after function name."@,
        ) {
            Some(error) => Err(error),
            None => match parse_parameter_list(tokens, pos + 2) {
                Err(error) => Err(error),
                Ok((params, a)) => match expect(
                    tokens,
                    pos + 2 + a,
                    TokenKindView::RightParen,
                    "Expected ')' after parameters."@,
                ) {
                    Some(error) => Err(error),
                    None => match parse_type_annotation(tokens, pos + a + 3) {
                        Err(error) => Err(error),
                        Ok((return_ty, b)) => Ok(((name, params, return_ty), a + b + 3)),
                    },
                },
            },
        },
        _ => Err(error_at(tokens, pos, "Expected function name."@)),
    }
}

/// What follows `func`: the head of the declaration, and the body in
/// braces.
pub open spec fn parse_func_declaration(tokens: Seq<TokenView>, pos: nat) -> Parsed<StmtView>
    decreases remaining(tokens, pos), 22nat,
{
    match parse_signature(tokens, pos) {
        Err(error) => Err(error),
        Ok(((name, params, return_ty), a)) => match parse_braced(
            tokens,
            pos + a,
            "Expected '{' before function body."@,
            "Expected '}' after function body."@,
        ) {
            Err(error) => Err(error),
            Ok((body, b)) => Ok((StmtView::FuncDecl { name, params, return_ty, body }, a + b)),
        },
    }
}

/// A condition in parentheses: `(`, an expression, `)`.
#[verifier::opaque]
pub open spec fn parse_condition(tokens: Seq<TokenView>, pos: nat, open_message: Seq<char>)
    -> Parsed<ExprView> {
    match expect(tokens, pos, TokenKindView::LeftParen, open_message) {
        Some(error) => Err(error),
        None => shifted(
            parse_expression_then(
                tokens,
                pos + 1,
                TokenKindView::RightParen,
                "Expected ')' after condition."@,
            ),
            1,
        ),
    }
}

/// What follows `if`: a condition, a block, and maybe `else` and a block.
pub open spec fn parse_if(tokens: Seq<TokenView>, pos: nat) -> Parsed<StmtView>
    decreases remaining(tokens, pos), 22nat,
{
    match parse_condition(tokens, pos, "Expected '(' after 'if'."@) {
        Err(error) => Err(error),
        Ok((condition, a)) => match parse_braced(
            tokens,
            pos + a,
            "Expected '{' after condition."@,
            "Expected '}' after then branch."@,
        ) {
            Err(error) => Err(error),
            Ok((then_branch, b)) => if check(tokens, pos + a + b, TokenKindView::Else) {
                match parse_braced(
                    tokens,
                    pos + a + b + 1,
                    "Expected '{' after 'else'."@,
                    "Expected '}' after else branch."@,
                ) {
                    Err(error) => Err(error),
                    Ok((else_branch, c)) => Ok(
                        (
                            StmtView::If { condition, then_branch, else_branch: Some(else_branch) },
                            a + b + c + 1,
                        ),
                    ),
                }
            } else {
                Ok((StmtView::If { condition, then_branch, else_branch: None }, a + b))
            },
        },
    }
}

/// What follows `while`: a condition and a block.
pub open spec fn parse_while(tokens: Seq<TokenView>, pos: nat) -> Parsed<StmtView>
    decreases remaining(tokens, pos), 22nat,
{
    match parse_condition(tokens, pos, "Expected '(' after 'while'."@) {
        Err(error) => Err(error),
        Ok((condition, a)) => match parse_braced(
            tokens,
            pos + a,
            "Expected '{' after condition."@,
            "Expected '}' after while body."@,
        ) {
            Err(error) => Err(error),
            Ok((body, b)) => Ok((StmtView::While { condition, body }, a + b)),
        },
    }
}

/// The head of a `for` after the loop variable: `in range (`.
#[verifier::opaque]
pub open spec fn expect_range(tokens: Seq<TokenView>, pos: nat) -> Option<ParserErrorView> {
    match expect(tokens, pos, TokenKindView::In, "Expected 'in' after variable name."@) {
        Some(error) => Some(error),
        None => if kind_at(tokens, pos + 1) == TokenKindView::Identifier("range"@) {
            expect(tokens, pos + 2, TokenKindView::LeftParen, "Expected '(' after 'range'."@)
        } else {
            Some(error_at(tokens, pos + 1, "Expected 'range' after 'in'."@))
        },
    }
}

/// The bounds of a range: an expression, a comma, an expression, `)`.
#[verifier::opaque]
pub open spec fn parse_bounds(tokens: Seq<TokenView>, pos: nat) -> Parsed<(ExprView, ExprView)> {
    match parse_expression_then(
        tokens,
        pos,
        TokenKindView::Comma,
        "Expected ',' after start value."@,
    ) {
        Err(error) => Err(error),
        Ok((start, a)) => match parse_expression_then(
            tokens,
            pos + a,
            TokenKindView::RightParen,
            "Expected ')' after end value."@,
        ) {
            Err(error) => Err(error),
            Ok((end, b)) => Ok(((start, end), a + b)),
        },
    }
}

/// What follows `for`: a name, `in range(`, the bounds, and a block.
pub open spec fn parse_for(tokens: Seq<TokenView>, pos: nat) -> Parsed<StmtView>
    decreases remaining(tokens, pos), 22nat,
{
    match kind_at(tokens, pos) {
        TokenKindView::Identifier(variable) => match expect_range(tokens, pos + 1) {
            Some(error) => Err(error),
            None => match parse_bounds(tokens, pos + 4) {
                Err(error) => Err(error),
                Ok(((start, end), a)) => match parse_braced(
                    tokens,
                    pos + a + 4,
                    "Expected '{' after range."@,
                    "Expected '}' after for body."@,
                ) {
                    Err(error) => Err(error),
                    Ok((body, b)) => Ok(
                        (StmtView::For { variable, start, end, body }, a + b + 4),
                    ),
                },
            },
        },
        _ => Err(error_at(tokens, pos, "Expected variable name after 'for'."@)),
    }
}

/// The statements of a block, up to a closing brace or the end of input,
/// appended to `stmts`.
pub open spec fn parse_block(tokens: Seq<TokenView>, pos: nat, stmts: Seq<StmtView>) -> Parsed<
    Seq<StmtView>,
>
    decreases remaining(tokens, pos), 20nat,
{
    if check(tokens, pos, TokenKindView::RightBrace) || at_end(tokens, pos) {
        Ok((stmts, 0))
    } else {
        match parse_statement(tokens, pos) {
            Err(error) => Err(error),
            Ok((stmt, more)) => shifted(
                parse_block(tokens, pos + 1 + more, stmts.push(stmt)),
                more + 1,
            ),
        }
    }
}

/// The statements of a program, up to the end of input, appended to
/// `stmts`.
pub open spec fn parse_program(tokens: Seq<TokenView>, pos: nat, stmts: Seq<StmtView>) -> Result<
    Seq<StmtView>,
    ParserErrorView,
>
    decreases remaining(tokens, pos), 20nat,
{
    if at_end(tokens, pos) {
        Ok(stmts)
    } else {
        match parse_statement(tokens, pos) {
            Err(error) => Err(error),
            Ok((stmt, more)) => parse_program(tokens, pos + 1 + more, stmts.push(stmt)),
        }
    }
}

} // verus!
