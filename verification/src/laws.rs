//! Laws of the grammar: how operators group, what a minus sign does to a
//! numeral, and when a `{` after a name opens a circuit initializer.

use vstd::prelude::*;
use crate::ast::{BinaryOperation, ExpressionView, UnaryOperation, ValueView};
use crate::grammar::{
    binary, binary_node, cast, circuit_init, exponent, expression, expression_fuzzy, identifier_at,
    is_at, negated, operand, prefix_node, primary, success, unary, Level,
};
use crate::token::{TokenKind, TokenView};
use crate::unfold::{
    unfold_binary, unfold_binary_tail, unfold_exponent, unfold_exponent_tail,
    unfold_expression_fuzzy, unfold_named, unfold_primary, unfold_unary,
};

verus! {

/// The ternary node for a condition and two branches.
pub open spec fn ternary_node(
    condition: ExpressionView,
    if_true: ExpressionView,
    if_false: ExpressionView,
) -> ExpressionView {
    ExpressionView::Ternary {
        condition: Box::new(condition),
        if_true: Box::new(if_true),
        if_false: Box::new(if_false),
        span: condition.span().merge(if_false.span()),
    }
}

/// Operators of one binary level group to the left: where operands `a`, `b`
/// and `c` of a level are joined by two of its operators and no third
/// follows, the level yields `(a op1 b) op2 c`.
pub proof fn law_binary_groups_left(
    level: Level,
    tokens: Seq<TokenView>,
    pos: nat,
    fuzzy: bool,
    a: ExpressionView,
    b: ExpressionView,
    c: ExpressionView,
    used_a: nat,
    used_b: nat,
    used_c: nat,
    op1: BinaryOperation,
    op2: BinaryOperation,
)
    requires
        operand(level, tokens, pos, fuzzy) == success(a, used_a),
        level.operator_at(tokens, pos + used_a) == Some(op1),
        operand(level, tokens, pos + used_a + 1, fuzzy) == success(b, used_b),
        level.operator_at(tokens, pos + used_a + 1 + used_b) == Some(op2),
        operand(level, tokens, pos + used_a + 1 + used_b + 1, fuzzy) == success(c, used_c),
        level.operator_at(tokens, pos + used_a + 1 + used_b + 1 + used_c).is_none(),
    ensures
        binary(level, tokens, pos, fuzzy) == success(
            binary_node(op2, binary_node(op1, a, b), c),
            used_a + 1 + used_b + 1 + used_c,
        ),
{
    let first_operator = pos + used_a;
    let second_operator = first_operator + 1 + used_b;
    let end = second_operator + 1 + used_c;
    let ab = binary_node(op1, a, b);
    unfold_binary(level, tokens, pos, fuzzy);
    unfold_binary_tail(level, tokens, first_operator, fuzzy, a);
    unfold_binary_tail(level, tokens, second_operator, fuzzy, ab);
    unfold_binary_tail(level, tokens, end, fuzzy, binary_node(op2, ab, c));
}

/// The power operator groups to the right: where casts `a`, `b` and `c` are
/// joined by two power operators and no third follows, the chain yields
/// `a ** (b ** c)`.
pub proof fn law_power_groups_right(
    tokens: Seq<TokenView>,
    pos: nat,
    fuzzy: bool,
    a: ExpressionView,
    b: ExpressionView,
    c: ExpressionView,
    used_a: nat,
    used_b: nat,
    used_c: nat,
)
    requires
        cast(tokens, pos, fuzzy) == success(a, used_a),
        is_at(tokens, pos + used_a, TokenKind::Exp),
        cast(tokens, pos + used_a + 1, fuzzy) == success(b, used_b),
        is_at(tokens, pos + used_a + 1 + used_b, TokenKind::Exp),
        cast(tokens, pos + used_a + 1 + used_b + 1, fuzzy) == success(c, used_c),
        !is_at(tokens, pos + used_a + 1 + used_b + 1 + used_c, TokenKind::Exp),
    ensures
        exponent(tokens, pos, fuzzy) == success(
            binary_node(BinaryOperation::Pow, a, binary_node(BinaryOperation::Pow, b, c)),
            used_a + 1 + used_b + 1 + used_c,
        ),
{
    let first_operator = pos + used_a;
    let second_operator = first_operator + 1 + used_b;
    let end = second_operator + 1 + used_c;
    unfold_exponent(tokens, pos, fuzzy);
    unfold_exponent_tail(tokens, first_operator, fuzzy, a);
    unfold_exponent(tokens, first_operator + 1, fuzzy);
    unfold_exponent_tail(tokens, second_operator, fuzzy, b);
    unfold_exponent(tokens, second_operator + 1, fuzzy);
    unfold_exponent_tail(tokens, end, fuzzy, c);
}

/// A ternary in the last branch of a ternary belongs to that branch:
/// `a ? b : c ? d : e` is `a ? b : (c ? d : e)`.
pub proof fn law_ternary_nests_right(
    tokens: Seq<TokenView>,
    pos: nat,
    fuzzy: bool,
    a: ExpressionView,
    b: ExpressionView,
    c: ExpressionView,
    d: ExpressionView,
    e: ExpressionView,
    used_a: nat,
    used_b: nat,
    used_c: nat,
    used_d: nat,
    used_e: nat,
)
    requires
        binary(Level::Or, tokens, pos, fuzzy) == success(a, used_a),
        is_at(tokens, pos + used_a, TokenKind::Question),
        expression(tokens, pos + used_a + 1) == success(b, used_b),
        is_at(tokens, pos + used_a + 1 + used_b, TokenKind::Colon),
        binary(Level::Or, tokens, pos + used_a + 1 + used_b + 1, fuzzy) == success(c, used_c),
        is_at(tokens, pos + used_a + 1 + used_b + 1 + used_c, TokenKind::Question),
        expression(tokens, pos + used_a + 1 + used_b + 1 + used_c + 1) == success(d, used_d),
        is_at(tokens, pos + used_a + 1 + used_b + 1 + used_c + 1 + used_d, TokenKind::Colon),
        binary(
            Level::Or,
            tokens,
            pos + used_a + 1 + used_b + 1 + used_c + 1 + used_d + 1,
            fuzzy,
        ) == success(e, used_e),
        !is_at(
            tokens,
            pos + used_a + 1 + used_b + 1 + used_c + 1 + used_d + 1 + used_e,
            TokenKind::Question,
        ),
    ensures
        expression_fuzzy(tokens, pos, fuzzy) == success(
            ternary_node(a, b, ternary_node(c, d, e)),
            used_a + 1 + used_b + 1 + used_c + 1 + used_d + 1 + used_e,
        ),
{
    let p_c = pos + used_a + 1 + used_b + 1;
    let p_e = p_c + used_c + 1 + used_d + 1;
    unfold_expression_fuzzy(tokens, pos, fuzzy);
    unfold_expression_fuzzy(tokens, p_c, fuzzy);
    unfold_expression_fuzzy(tokens, p_e, fuzzy);
}

/// A minus sign in front of a numeral yields the numeral with the sign in
/// its text, and no prefix node: the text of an untyped numeral `n` becomes
/// `-n` and its span starts at the sign.
pub proof fn law_minus_folds_into_numeral(
    tokens: Seq<TokenView>,
    pos: nat,
    fuzzy: bool,
    numeral: ValueView,
    used: nat,
)
    requires
        is_at(tokens, pos, TokenKind::Minus),
        unary(tokens, pos + 1, fuzzy) == success(ExpressionView::Value(numeral), used),
        numeral is Implicit || numeral is Integer,
    ensures
        unary(tokens, pos, fuzzy) == success(
            ExpressionView::Value(
                match numeral {
                    ValueView::Integer { int_type, value, span } => ValueView::Integer {
                        int_type,
                        value: negated(value),
                        span: tokens[pos as int].span.merge(span),
                    },
                    ValueView::Implicit { value, span } => ValueView::Implicit {
                        value: negated(value),
                        span: tokens[pos as int].span.merge(span),
                    },
                    other => other,
                },
            ),
            1 + used,
        ),
{
    reveal(prefix_node);
    unfold_unary(tokens, pos, fuzzy);
}

/// A minus sign in front of anything but a numeral yields a negation node
/// around it.
pub proof fn law_minus_wraps_other(
    tokens: Seq<TokenView>,
    pos: nat,
    fuzzy: bool,
    inner: ExpressionView,
    used: nat,
)
    requires
        is_at(tokens, pos, TokenKind::Minus),
        unary(tokens, pos + 1, fuzzy) == success(inner, used),
        !(inner matches ExpressionView::Value(v) && (v is Implicit || v is Integer)),
    ensures
        unary(tokens, pos, fuzzy) == success(
            ExpressionView::Unary {
                op: UnaryOperation::Negate,
                inner: Box::new(inner),
                span: tokens[pos as int].span.merge(inner.span()),
            },
            1 + used,
        ),
{
    reveal(prefix_node);
    unfold_unary(tokens, pos, fuzzy);
}

/// While a `{` after a name is to be left alone, a name is a plain
/// identifier whatever follows it, and only the name is consumed.
pub proof fn law_fuzzy_name_is_identifier(tokens: Seq<TokenView>, pos: nat)
    requires
        is_at(tokens, pos, TokenKind::Ident),
    ensures
        primary(tokens, pos, true) == success(
            ExpressionView::Identifier(identifier_at(tokens, pos)),
            1,
        ),
{
    unfold_primary(tokens, pos, true);
    unfold_named(tokens, pos + 1, true, identifier_at(tokens, pos));
}

/// Where circuit initializers are allowed, a name followed by `{` is the
/// start of one; followed by anything else, or by nothing, it is a plain
/// identifier.
pub proof fn law_name_opens_initializer(tokens: Seq<TokenView>, pos: nat)
    requires
        is_at(tokens, pos, TokenKind::Ident),
    ensures
        primary(tokens, pos, false) == (if is_at(tokens, pos + 1, TokenKind::LeftCurly) {
            circuit_init(tokens, pos + 1, identifier_at(tokens, pos)).after(1)
        } else {
            success(ExpressionView::Identifier(identifier_at(tokens, pos)), 1)
        }),
{
    unfold_primary(tokens, pos, false);
    unfold_named(tokens, pos + 1, false, identifier_at(tokens, pos));
}

/// Inside parentheses and square brackets the mode does not matter: what
/// they hold is parsed with circuit initializers allowed.
pub proof fn law_brackets_lift_restriction(tokens: Seq<TokenView>, pos: nat, fuzzy: bool)
    requires
        is_at(tokens, pos, TokenKind::LeftParen) || is_at(tokens, pos, TokenKind::LeftSquare),
    ensures
        primary(tokens, pos, fuzzy) == primary(tokens, pos, false),
{
    unfold_primary(tokens, pos, fuzzy);
    unfold_primary(tokens, pos, false);
}

} // verus!
