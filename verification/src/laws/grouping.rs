//! How binary operators group: a tighter operator first, and operators of
//! one level from the left.

use vstd::prelude::*;
use crate::ast::{ExprView, LiteralView, StmtView};
use crate::error::ParserErrorView;
use crate::parser::grammar::{
    at_end, binary, binary_tail, check, is_operator, kind_at, parse_assignment, parse_binary,
    parse_expression, parse_primary, parse_program, parse_simple_statement, parse_statement,
    parse_unary, shifted, LEVELS,
};
use crate::token::{TokenKindView, TokenView};

verus! {

/// Whether a token of this kind is an operand by itself: a name or a
/// literal.
pub open spec fn is_operand(kind: TokenKindView) -> bool {
    kind is Identifier || kind is StringLiteral || kind is NumberLiteral || kind is True
        || kind is False || kind is Null
}

/// The expression that an operand token stands for.
pub open spec fn operand(kind: TokenKindView) -> ExprView {
    match kind {
        TokenKindView::Identifier(name) => ExprView::Variable(name),
        TokenKindView::StringLiteral(text) => ExprView::Literal(LiteralView::String(text)),
        TokenKindView::NumberLiteral(value) => ExprView::Literal(LiteralView::Number(value)),
        TokenKindView::True => ExprView::Literal(LiteralView::Bool(true)),
        TokenKindView::False => ExprView::Literal(LiteralView::Bool(false)),
        _ => ExprView::Literal(LiteralView::Null),
    }
}

/// The level of a binary operator, 0 for any other token.
pub open spec fn level_of(kind: TokenKindView) -> nat {
    if is_operator(1, kind) {
        1
    } else if is_operator(2, kind) {
        2
    } else if is_operator(3, kind) {
        3
    } else if is_operator(4, kind) {
        4
    } else if is_operator(5, kind) {
        5
    } else if is_operator(6, kind) {
        6
    } else {
        0
    }
}

/// The tokens of `a op1 b op2 c ;` and the end of input: three operands
/// with two binary operators between them.
pub open spec fn is_chain(tokens: Seq<TokenView>) -> bool {
    &&& tokens.len() == 7
    &&& is_operand(tokens[0].kind)
    &&& level_of(tokens[1].kind) > 0
    &&& is_operand(tokens[2].kind)
    &&& level_of(tokens[3].kind) > 0
    &&& is_operand(tokens[4].kind)
    &&& tokens[5].kind is Semicolon
    &&& tokens[6].kind is Eof
}

/// An operand that no parenthesis follows is read as itself.
pub proof fn lemma_operand(tokens: Seq<TokenView>, pos: nat)
    requires
        is_operand(kind_at(tokens, pos)),
        !check(tokens, pos + 1, TokenKindView::LeftParen),
    ensures
        parse_binary(tokens, pos, 0) == Ok::<(ExprView, nat), ParserErrorView>(
            (operand(kind_at(tokens, pos)), 1nat),
        ),
{
    assert(parse_unary(tokens, pos) == parse_primary(tokens, pos));
}

/// Where no operator of a level follows, the operand stands alone on it.
pub proof fn lemma_tail_ends(tokens: Seq<TokenView>, pos: nat, level: nat, left: ExprView)
    requires
        !is_operator(level, kind_at(tokens, pos)),
    ensures
        binary_tail(tokens, pos, level, left) == Ok::<(ExprView, nat), ParserErrorView>(
            (left, 0nat),
        ),
{
}

/// Where an operator of the level follows, it and its right operand are
/// folded into the left operand of what comes after.
pub proof fn lemma_tail_folds(
    tokens: Seq<TokenView>,
    pos: nat,
    level: nat,
    left: ExprView,
    right: ExprView,
    used: nat,
)
    requires
        level > 0,
        is_operator(level, kind_at(tokens, pos)),
        parse_binary(tokens, pos + 1, (level - 1) as nat) == Ok::<(ExprView, nat), ParserErrorView>(
            (right, used),
        ),
    ensures
        binary_tail(tokens, pos, level, left) == shifted(
            binary_tail(
                tokens,
                pos + 1 + used,
                level,
                binary(left, kind_at(tokens, pos), right),
            ),
            used + 1,
        ),
{
}

/// What was read on a level is what is read on a looser level, as long as
/// no operator between the two levels follows.
pub proof fn lemma_climb(
    tokens: Seq<TokenView>,
    pos: nat,
    from: nat,
    to: nat,
    e: ExprView,
    used: nat,
)
    requires
        from <= to,
        parse_binary(tokens, pos, from) == Ok::<(ExprView, nat), ParserErrorView>((e, used)),
        level_of(kind_at(tokens, pos + used)) == 0 || level_of(kind_at(tokens, pos + used))
            > to || level_of(kind_at(tokens, pos + used)) <= from,
    ensures
        parse_binary(tokens, pos, to) == Ok::<(ExprView, nat), ParserErrorView>((e, used)),
    decreases to - from,
{
    if from < to {
        lemma_climb(tokens, pos, from, (to - 1) as nat, e, used);
        lemma_tail_ends(tokens, pos + used, to, e);
    }
}

/// Whether a statement begins with a token of this kind that is not an
/// expression.
pub open spec fn begins_statement(kind: TokenKindView) -> bool {
    kind is Var || kind is Func || kind is If || kind is While || kind is For || kind is Break
        || kind is Continue || kind is Return
}

/// No expression begins with a token that begins another statement, nor
/// with the end of input.
pub proof fn lemma_operand_begins_no_statement(tokens: Seq<TokenView>, pos: nat)
    requires
        parse_binary(tokens, pos, 0) is Ok,
    ensures
        !begins_statement(kind_at(tokens, pos)),
        !at_end(tokens, pos),
{
    assert(parse_binary(tokens, pos, 0) == parse_unary(tokens, pos));
    if begins_statement(kind_at(tokens, pos)) || at_end(tokens, pos) {
        assert(parse_unary(tokens, pos) == parse_primary(tokens, pos));
    }
}

/// An expression that fills a statement up to its semicolon, and with it
/// the program up to the end of input.
pub proof fn lemma_single_statement(tokens: Seq<TokenView>, e: ExprView, used: nat)
    requires
        parse_binary(tokens, 0, LEVELS as nat) == Ok::<(ExprView, nat), ParserErrorView>(
            (e, used),
        ),
        !begins_statement(kind_at(tokens, 0)),
        !at_end(tokens, 0),
        kind_at(tokens, used) is Semicolon,
        at_end(tokens, used + 1),
    ensures
        parse_program(tokens, 0, Seq::empty()) == Ok::<Seq<StmtView>, ParserErrorView>(
            seq![StmtView::ExprStmt(e)],
        ),
{
    reveal(parse_simple_statement);
    assert(parse_assignment(tokens, 0) == Ok::<(ExprView, nat), ParserErrorView>((e, used)));
    assert(parse_expression(tokens, 0) == Ok::<(ExprView, nat), ParserErrorView>((e, used)));
    assert(parse_simple_statement(tokens, 0) == Ok::<(StmtView, nat), ParserErrorView>(
        (StmtView::ExprStmt(e), used),
    ));
    assert(parse_statement(tokens, 0) == parse_simple_statement(tokens, 0));
    let first = Seq::<StmtView>::empty().push(StmtView::ExprStmt(e));
    assert(parse_program(tokens, 0, Seq::empty()) == parse_program(tokens, 1 + used, first));
    assert(parse_program(tokens, 1 + used, first) == Ok::<Seq<StmtView>, ParserErrorView>(first));
    assert(first =~= seq![StmtView::ExprStmt(e)]);
}

/// The tokens of a statement `a op1 b op2 c ;` that is the whole program:
/// the operands `a`, `b` and `c` are any expressions that stand by
/// themselves, read in `na`, `nb` and `nc` tokens, and the operators are
/// binary operators.
pub open spec fn is_chain_of(
    tokens: Seq<TokenView>,
    a: ExprView,
    na: nat,
    b: ExprView,
    nb: nat,
    c: ExprView,
    nc: nat,
) -> bool {
    &&& parse_binary(tokens, 0, 0) == Ok::<(ExprView, nat), ParserErrorView>((a, na))
    &&& level_of(kind_at(tokens, na)) > 0
    &&& parse_binary(tokens, na + 1, 0) == Ok::<(ExprView, nat), ParserErrorView>((b, nb))
    &&& level_of(kind_at(tokens, na + nb + 1)) > 0
    &&& parse_binary(tokens, na + nb + 2, 0) == Ok::<(ExprView, nat), ParserErrorView>((c, nc))
    &&& kind_at(tokens, na + nb + nc + 2) is Semicolon
    &&& at_end(tokens, na + nb + nc + 3)
}

/// In `a op1 b op2 c`, where `op2` binds tighter than `op1`, the tighter
/// operator is applied first: the tree is `a op1 (b op2 c)`, whatever the
/// operands are. So `a + b * c` is read as `a + (b * c)`.
pub proof fn law_tighter_operator_groups_first(
    tokens: Seq<TokenView>,
    a: ExprView,
    na: nat,
    b: ExprView,
    nb: nat,
    c: ExprView,
    nc: nat,
)
    requires
        is_chain_of(tokens, a, na, b, nb, c, nc),
        level_of(kind_at(tokens, na + nb + 1)) < level_of(kind_at(tokens, na)),
    ensures
        parse_program(tokens, 0, Seq::empty()) == Ok::<Seq<StmtView>, ParserErrorView>(
            seq![
                StmtView::ExprStmt(
                    binary(
                        a,
                        kind_at(tokens, na),
                        binary(b, kind_at(tokens, na + nb + 1), c),
                    ),
                ),
            ],
        ),
{
    let first = kind_at(tokens, na);
    let second = kind_at(tokens, na + nb + 1);
    let loose = level_of(first);
    let tight = level_of(second);
    let inner = binary(b, second, c);
    let whole = binary(a, first, inner);
    let end = na + nb + nc + 2;
    // the right operand of `op1`: `b op2 c`, read on the level below `op1`
    lemma_climb(tokens, na + nb + 2, 0, (tight - 1) as nat, c, nc);
    lemma_climb(tokens, na + 1, 0, (tight - 1) as nat, b, nb);
    lemma_tail_ends(tokens, end, tight, inner);
    lemma_tail_folds(tokens, na + nb + 1, tight, b, c, nc);
    assert(parse_binary(tokens, na + 1, tight) == Ok::<(ExprView, nat), ParserErrorView>(
        (inner, nb + nc + 1),
    ));
    lemma_climb(tokens, na + 1, tight, (loose - 1) as nat, inner, nb + nc + 1);
    // the left operand of `op1`, and the fold
    lemma_climb(tokens, 0, 0, (loose - 1) as nat, a, na);
    lemma_tail_ends(tokens, end, loose, whole);
    lemma_tail_folds(tokens, na, loose, a, inner, nb + nc + 1);
    assert(parse_binary(tokens, 0, loose) == Ok::<(ExprView, nat), ParserErrorView>((whole, end)));
    lemma_climb(tokens, 0, loose, LEVELS as nat, whole, end);
    lemma_operand_begins_no_statement(tokens, 0);
    lemma_single_statement(tokens, whole, end);
}

/// In `a op1 b op2 c`, where the two operators are of one level, they are
/// applied from the left: the tree is `(a op1 b) op2 c`, whatever the
/// operands are. So `a - b - c` is read as `(a - b) - c`.
pub proof fn law_operators_group_from_the_left(
    tokens: Seq<TokenView>,
    a: ExprView,
    na: nat,
    b: ExprView,
    nb: nat,
    c: ExprView,
    nc: nat,
)
    requires
        is_chain_of(tokens, a, na, b, nb, c, nc),
        level_of(kind_at(tokens, na + nb + 1)) == level_of(kind_at(tokens, na)),
    ensures
        parse_program(tokens, 0, Seq::empty()) == Ok::<Seq<StmtView>, ParserErrorView>(
            seq![
                StmtView::ExprStmt(
                    binary(
                        binary(a, kind_at(tokens, na), b),
                        kind_at(tokens, na + nb + 1),
                        c,
                    ),
                ),
            ],
        ),
{
    let first = kind_at(tokens, na);
    let second = kind_at(tokens, na + nb + 1);
    let level = level_of(first);
    let inner = binary(a, first, b);
    let whole = binary(inner, second, c);
    let end = na + nb + nc + 2;
    lemma_climb(tokens, 0, 0, (level - 1) as nat, a, na);
    lemma_climb(tokens, na + 1, 0, (level - 1) as nat, b, nb);
    lemma_climb(tokens, na + nb + 2, 0, (level - 1) as nat, c, nc);
    lemma_tail_ends(tokens, end, level, whole);
    lemma_tail_folds(tokens, na + nb + 1, level, inner, c, nc);
    lemma_tail_folds(tokens, na, level, a, b, nb);
    assert(parse_binary(tokens, 0, level) == Ok::<(ExprView, nat), ParserErrorView>((whole, end)));
    lemma_climb(tokens, 0, level, LEVELS as nat, whole, end);
    lemma_operand_begins_no_statement(tokens, 0);
    lemma_single_statement(tokens, whole, end);
}

/// Three names or literals with two binary operators between them, a
/// semicolon and the end of input are such a statement.
pub proof fn lemma_plain_chain(tokens: Seq<TokenView>)
    requires
        is_chain(tokens),
    ensures
        is_chain_of(
            tokens,
            operand(tokens[0].kind),
            1,
            operand(tokens[2].kind),
            1,
            operand(tokens[4].kind),
            1,
        ),
{
    lemma_operand(tokens, 0);
    lemma_operand(tokens, 2);
    lemma_operand(tokens, 4);
}

/// `a + b * c ;`, of names or literals, is read as `a + (b * c)`.
pub proof fn law_product_in_sum(tokens: Seq<TokenView>)
    requires
        is_chain(tokens),
        tokens[1].kind is Plus,
        tokens[3].kind is Star,
    ensures
        parse_program(tokens, 0, Seq::empty()) == Ok::<Seq<StmtView>, ParserErrorView>(
            seq![
                StmtView::ExprStmt(
                    binary(
                        operand(tokens[0].kind),
                        TokenKindView::Plus,
                        binary(
                            operand(tokens[2].kind),
                            TokenKindView::Star,
                            operand(tokens[4].kind),
                        ),
                    ),
                ),
            ],
        ),
{
    lemma_plain_chain(tokens);
    law_tighter_operator_groups_first(
        tokens,
        operand(tokens[0].kind),
        1,
        operand(tokens[2].kind),
        1,
        operand(tokens[4].kind),
        1,
    );
}

/// `a - b - c ;`, of names or literals, is read as `(a - b) - c`.
pub proof fn law_difference_of_difference(tokens: Seq<TokenView>)
    requires
        is_chain(tokens),
        tokens[1].kind is Minus,
        tokens[3].kind is Minus,
    ensures
        parse_program(tokens, 0, Seq::empty()) == Ok::<Seq<StmtView>, ParserErrorView>(
            seq![
                StmtView::ExprStmt(
                    binary(
                        binary(
                            operand(tokens[0].kind),
                            TokenKindView::Minus,
                            operand(tokens[2].kind),
                        ),
                        TokenKindView::Minus,
                        operand(tokens[4].kind),
                    ),
                ),
            ],
        ),
{
    lemma_plain_chain(tokens);
    law_operators_group_from_the_left(
        tokens,
        operand(tokens[0].kind),
        1,
        operand(tokens[2].kind),
        1,
        operand(tokens[4].kind),
        1,
    );
}

} // verus!
