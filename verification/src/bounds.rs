//! A parse stays within the tokens.
//!
//! Whatever a parse yields, an expression or an error, the tokens it
//! consumes are tokens that exist: from a position within the tokens it
//! ends at a position within the tokens.

use vstd::prelude::*;
use crate::ast::{ExpressionView, IdentifierView};
use crate::grammar::{
    access, access_tail, address_call, array_dimensions, array_elements, array_items,
    array_literal, array_repeat, binary, binary_node, binary_tail, cast, cast_tail, circuit_init,
    circuit_members, dimension_list, exponent, expression, expression_fuzzy, expression_list,
    group_partial, identifier_at, index_suffix, integer_literal, is_at, member_suffix, named,
    operand, parenthesis, prefix_operator, primary, range_end, remaining, spread_or_expression,
    type_annotation, type_list, unary, Level, Parsed,
};
use crate::span::Span;
use crate::token::{TokenKind, TokenView};
use crate::unfold::{
    unfold_access, unfold_access_tail, unfold_array_elements, unfold_array_items,
    unfold_array_literal, unfold_array_rest, unfold_binary, unfold_binary_tail, unfold_cast,
    unfold_circuit_init, unfold_circuit_members, unfold_exponent, unfold_exponent_tail,
    unfold_expression, unfold_expression_fuzzy, unfold_expression_list, unfold_index_suffix,
    unfold_named, unfold_operand, unfold_parenthesis, unfold_primary, unfold_range_end,
    unfold_spread_or_expression, unfold_unary,
};

verus! {

/// Whether a parse from `pos` ends within the tokens.
pub open spec fn in_bounds<T>(tokens: Seq<TokenView>, pos: nat, parsed: Parsed<T>) -> bool {
    pos + parsed.used <= tokens.len()
}

/// A list of dimensions stays within the tokens.
pub proof fn lemma_dimension_list_in_bounds(tokens: Seq<TokenView>, pos: nat)
    requires
        pos <= tokens.len(),
    ensures
        in_bounds(tokens, pos, dimension_list(tokens, pos)),
    decreases remaining(tokens, pos),
{
    if is_at(tokens, pos, TokenKind::Int) && is_at(tokens, pos + 1, TokenKind::Comma) {
        lemma_dimension_list_in_bounds(tokens, pos + 2);
    }
}

/// Array dimensions stay within the tokens.
pub proof fn lemma_array_dimensions_in_bounds(tokens: Seq<TokenView>, pos: nat)
    requires
        pos <= tokens.len(),
    ensures
        in_bounds(tokens, pos, array_dimensions(tokens, pos)),
{
    if !is_at(tokens, pos, TokenKind::Int) && is_at(tokens, pos, TokenKind::LeftParen) {
        lemma_dimension_list_in_bounds(tokens, pos + 1);
    }
}

/// A type annotation and a list of types stay within the tokens.
pub proof fn lemma_type_in_bounds(tokens: Seq<TokenView>, pos: nat)
    requires
        pos <= tokens.len(),
    ensures
        in_bounds(tokens, pos, type_annotation(tokens, pos)),
        in_bounds(tokens, pos, type_list(tokens, pos)),
    decreases remaining(tokens, pos),
{
    reveal(type_annotation);
    reveal(type_list);
    if pos < tokens.len() {
        match tokens[pos as int].kind {
            TokenKind::LeftParen => {
                lemma_type_in_bounds(tokens, pos + 1);
            },
            TokenKind::LeftSquare => {
                lemma_type_in_bounds(tokens, pos + 1);
                let inner = type_annotation(tokens, pos + 1);
                let semicolon = pos + 1 + inner.used;
                if inner.result is Ok && is_at(tokens, semicolon, TokenKind::Semicolon) {
                    lemma_array_dimensions_in_bounds(tokens, semicolon + 1);
                }
            },
            _ => {},
        }
        let item = type_annotation(tokens, pos);
        if item.result is Ok && is_at(tokens, pos + item.used, TokenKind::Comma) {
            lemma_type_in_bounds(tokens, pos + item.used + 1);
        }
    }
}

/// An expression stays within the tokens.
pub proof fn lemma_expression_in_bounds(tokens: Seq<TokenView>, pos: nat)
    requires
        pos <= tokens.len(),
    ensures
        in_bounds(tokens, pos, expression(tokens, pos)),
    decreases remaining(tokens, pos), 40nat,
{
    unfold_expression(tokens, pos);
    lemma_expression_fuzzy_in_bounds(tokens, pos, false);
}

/// As [`lemma_expression_in_bounds`], for a ternary expression in either
/// mode.
pub proof fn lemma_expression_fuzzy_in_bounds(tokens: Seq<TokenView>, pos: nat, fuzzy: bool)
    requires
        pos <= tokens.len(),
    ensures
        in_bounds(tokens, pos, expression_fuzzy(tokens, pos, fuzzy)),
    decreases remaining(tokens, pos), 39nat,
{
    unfold_expression_fuzzy(tokens, pos, fuzzy);
    lemma_binary_in_bounds(Level::Or, tokens, pos, fuzzy);
    let first = binary(Level::Or, tokens, pos, fuzzy);
    let question = pos + first.used;
    if first.result is Ok && is_at(tokens, question, TokenKind::Question) {
        lemma_expression_in_bounds(tokens, question + 1);
        let middle = expression(tokens, question + 1);
        let colon = question + 1 + middle.used;
        if middle.result is Ok && is_at(tokens, colon, TokenKind::Colon) {
            lemma_expression_fuzzy_in_bounds(tokens, colon + 1, fuzzy);
        }
    }
}

/// As [`lemma_expression_in_bounds`], for an operand of a binary level.
pub proof fn lemma_operand_in_bounds(level: Level, tokens: Seq<TokenView>, pos: nat, fuzzy: bool)
    requires
        pos <= tokens.len(),
    ensures
        in_bounds(tokens, pos, operand(level, tokens, pos, fuzzy)),
    decreases remaining(tokens, pos), 36 - 2 * level.tightness(),
{
    unfold_operand(level, tokens, pos, fuzzy);
    match level.tighter() {
        Some(next) => lemma_binary_in_bounds(next, tokens, pos, fuzzy),
        None => lemma_exponent_in_bounds(tokens, pos, fuzzy),
    }
}

/// As [`lemma_expression_in_bounds`], for a binary level.
pub proof fn lemma_binary_in_bounds(level: Level, tokens: Seq<TokenView>, pos: nat, fuzzy: bool)
    requires
        pos <= tokens.len(),
    ensures
        in_bounds(tokens, pos, binary(level, tokens, pos, fuzzy)),
    decreases remaining(tokens, pos), 37 - 2 * level.tightness(),
{
    unfold_binary(level, tokens, pos, fuzzy);
    lemma_operand_in_bounds(level, tokens, pos, fuzzy);
    let first = operand(level, tokens, pos, fuzzy);
    if let Ok(left) = first.result {
        lemma_binary_tail_in_bounds(level, tokens, pos + first.used, fuzzy, left);
    }
}

/// As [`lemma_expression_in_bounds`], for the rest of a binary chain.
pub proof fn lemma_binary_tail_in_bounds(
    level: Level,
    tokens: Seq<TokenView>,
    pos: nat,
    fuzzy: bool,
    left: ExpressionView,
)
    requires
        pos <= tokens.len(),
    ensures
        in_bounds(tokens, pos, binary_tail(level, tokens, pos, fuzzy, left)),
    decreases remaining(tokens, pos), 36 - 2 * level.tightness(),
{
    unfold_binary_tail(level, tokens, pos, fuzzy, left);
    if let Some(op) = level.operator_at(tokens, pos) {
        lemma_operand_in_bounds(level, tokens, pos + 1, fuzzy);
        let next = operand(level, tokens, pos + 1, fuzzy);
        if let Ok(right) = next.result {
            lemma_binary_tail_in_bounds(
                level,
                tokens,
                pos + 1 + next.used,
                fuzzy,
                binary_node(op, left, right),
            );
        }
    }
}

/// As [`lemma_expression_in_bounds`], for a chain of powers.
pub proof fn lemma_exponent_in_bounds(tokens: Seq<TokenView>, pos: nat, fuzzy: bool)
    requires
        pos <= tokens.len(),
    ensures
        in_bounds(tokens, pos, exponent(tokens, pos, fuzzy)),
    decreases remaining(tokens, pos), 17nat,
{
    unfold_exponent(tokens, pos, fuzzy);
    lemma_cast_in_bounds(tokens, pos, fuzzy);
    let first = cast(tokens, pos, fuzzy);
    if let Ok(base) = first.result {
        let p = pos + first.used;
        unfold_exponent_tail(tokens, p, fuzzy, base);
        if is_at(tokens, p, TokenKind::Exp) {
            lemma_exponent_in_bounds(tokens, p + 1, fuzzy);
        }
    }
}

/// As [`lemma_expression_in_bounds`], for a unary expression with its casts.
pub proof fn lemma_cast_in_bounds(tokens: Seq<TokenView>, pos: nat, fuzzy: bool)
    requires
        pos <= tokens.len(),
    ensures
        in_bounds(tokens, pos, cast(tokens, pos, fuzzy)),
    decreases remaining(tokens, pos), 16nat,
{
    unfold_cast(tokens, pos, fuzzy);
    lemma_unary_in_bounds(tokens, pos, fuzzy);
    let first = unary(tokens, pos, fuzzy);
    if let Ok(inner) = first.result {
        lemma_cast_tail_in_bounds(tokens, pos + first.used, inner);
    }
}

/// As [`lemma_expression_in_bounds`], for the casts after an expression.
pub proof fn lemma_cast_tail_in_bounds(tokens: Seq<TokenView>, pos: nat, inner: ExpressionView)
    requires
        pos <= tokens.len(),
    ensures
        in_bounds(tokens, pos, cast_tail(tokens, pos, inner)),
    decreases remaining(tokens, pos),
{
    if is_at(tokens, pos, TokenKind::As) {
        lemma_type_in_bounds(tokens, pos + 1);
        let target = type_annotation(tokens, pos + 1);
        if let Ok(found) = target.result {
            lemma_cast_tail_in_bounds(
                tokens,
                pos + 1 + target.used,
                ExpressionView::Cast {
                    inner: Box::new(inner),
                    target_type: found.0,
                    span: inner.span().merge(found.1),
                },
            );
        }
    }
}

/// As [`lemma_expression_in_bounds`], for an access expression under prefix
/// operators.
pub proof fn lemma_unary_in_bounds(tokens: Seq<TokenView>, pos: nat, fuzzy: bool)
    requires
        pos <= tokens.len(),
    ensures
        in_bounds(tokens, pos, unary(tokens, pos, fuzzy)),
    decreases remaining(tokens, pos), 14nat,
{
    unfold_unary(tokens, pos, fuzzy);
    if pos < tokens.len() && prefix_operator(tokens[pos as int].kind) is Some {
        lemma_unary_in_bounds(tokens, pos + 1, fuzzy);
    } else {
        lemma_access_in_bounds(tokens, pos, fuzzy);
    }
}

/// As [`lemma_expression_in_bounds`], for a primary expression with its
/// accesses.
pub proof fn lemma_access_in_bounds(tokens: Seq<TokenView>, pos: nat, fuzzy: bool)
    requires
        pos <= tokens.len(),
    ensures
        in_bounds(tokens, pos, access(tokens, pos, fuzzy)),
    decreases remaining(tokens, pos), 13nat,
{
    unfold_access(tokens, pos, fuzzy);
    lemma_primary_in_bounds(tokens, pos, fuzzy);
    let first = primary(tokens, pos, fuzzy);
    if let Ok(base) = first.result {
        lemma_access_tail_in_bounds(tokens, pos + first.used, base);
    }
}

/// As [`lemma_expression_in_bounds`], for the accesses after an expression.
pub proof fn lemma_access_tail_in_bounds(tokens: Seq<TokenView>, pos: nat, base: ExpressionView)
    requires
        pos <= tokens.len(),
    ensures
        in_bounds(tokens, pos, access_tail(tokens, pos, base)),
    decreases remaining(tokens, pos), 12nat,
{
    unfold_access_tail(tokens, pos, base);
    if pos < tokens.len() {
        match tokens[pos as int].kind {
            TokenKind::LeftSquare => {
                lemma_index_suffix_in_bounds(tokens, pos + 1, base);
                let step = index_suffix(tokens, pos + 1, base);
                if let Ok(node) = step.result {
                    lemma_access_tail_in_bounds(tokens, pos + 1 + step.used, node);
                }
            },
            TokenKind::Dot => {
                reveal(member_suffix);
                let step = member_suffix(tokens, pos + 1, base);
                if let Ok(node) = step.result {
                    lemma_access_tail_in_bounds(tokens, pos + 1 + step.used, node);
                }
            },
            TokenKind::LeftParen => {
                lemma_expression_list_in_bounds(tokens, pos + 1, TokenKind::RightParen);
                let list = expression_list(tokens, pos + 1, TokenKind::RightParen);
                if let Ok(found) = list.result {
                    lemma_access_tail_in_bounds(
                        tokens,
                        pos + 1 + list.used,
                        ExpressionView::Call {
                            function: Box::new(base),
                            arguments: found.0,
                            span: base.span().merge(found.1),
                        },
                    );
                }
            },
            TokenKind::DoubleColon => {
                if is_at(tokens, pos + 1, TokenKind::Ident) {
                    let name = identifier_at(tokens, pos + 1);
                    lemma_access_tail_in_bounds(
                        tokens,
                        pos + 2,
                        ExpressionView::CircuitStaticFunctionAccess {
                            circuit: Box::new(base),
                            name,
                            span: base.span().merge(name.span),
                        },
                    );
                }
            },
            _ => {},
        }
    }
}

/// As [`lemma_expression_in_bounds`], for what follows the `..` of a range.
pub proof fn lemma_range_end_in_bounds(
    tokens: Seq<TokenView>,
    pos: nat,
    base: ExpressionView,
    left: Option<Box<ExpressionView>>,
)
    requires
        pos <= tokens.len(),
    ensures
        in_bounds(tokens, pos, range_end(tokens, pos, base, left)),
    decreases remaining(tokens, pos), 50nat,
{
    unfold_range_end(tokens, pos, base, left);
    if !is_at(tokens, pos, TokenKind::RightSquare) {
        lemma_expression_in_bounds(tokens, pos);
    }
}

/// As [`lemma_expression_in_bounds`], for what follows the `[` of an access.
pub proof fn lemma_index_suffix_in_bounds(tokens: Seq<TokenView>, pos: nat, base: ExpressionView)
    requires
        pos <= tokens.len(),
    ensures
        in_bounds(tokens, pos, index_suffix(tokens, pos, base)),
    decreases remaining(tokens, pos), 51nat,
{
    unfold_index_suffix(tokens, pos, base);
    if is_at(tokens, pos, TokenKind::DotDot) {
        lemma_range_end_in_bounds(tokens, pos + 1, base, None);
    } else {
        lemma_expression_in_bounds(tokens, pos);
        let left = expression(tokens, pos);
        if let Ok(index) = left.result {
            let p = pos + left.used;
            if is_at(tokens, p, TokenKind::DotDot) {
                lemma_range_end_in_bounds(tokens, p + 1, base, Some(Box::new(index)));
            }
        }
    }
}

/// As [`lemma_expression_in_bounds`], for a list of expressions.
pub proof fn lemma_expression_list_in_bounds(tokens: Seq<TokenView>, pos: nat, close: TokenKind)
    requires
        pos <= tokens.len(),
    ensures
        in_bounds(tokens, pos, expression_list(tokens, pos, close)),
    decreases remaining(tokens, pos), 50nat,
{
    unfold_expression_list(tokens, pos, close);
    if !is_at(tokens, pos, close) {
        lemma_expression_in_bounds(tokens, pos);
        let item = expression(tokens, pos);
        if item.result is Ok && is_at(tokens, pos + item.used, TokenKind::Comma) {
            lemma_expression_list_in_bounds(tokens, pos + item.used + 1, close);
        }
    }
}

/// As [`lemma_expression_in_bounds`], for an array element.
pub proof fn lemma_spread_in_bounds(tokens: Seq<TokenView>, pos: nat)
    requires
        pos <= tokens.len(),
    ensures
        in_bounds(tokens, pos, spread_or_expression(tokens, pos)),
    decreases remaining(tokens, pos), 50nat,
{
    unfold_spread_or_expression(tokens, pos);
    if is_at(tokens, pos, TokenKind::DotDotDot) {
        lemma_expression_in_bounds(tokens, pos + 1);
    } else {
        lemma_expression_in_bounds(tokens, pos);
    }
}

/// As [`lemma_expression_in_bounds`], for the elements of an array.
pub proof fn lemma_array_items_in_bounds(tokens: Seq<TokenView>, pos: nat)
    requires
        pos <= tokens.len(),
    ensures
        in_bounds(tokens, pos, array_items(tokens, pos)),
        in_bounds(tokens, pos, array_elements(tokens, pos)),
    decreases remaining(tokens, pos), 52nat,
{
    unfold_array_items(tokens, pos);
    unfold_array_elements(tokens, pos);
    lemma_spread_in_bounds(tokens, pos);
    let item = spread_or_expression(tokens, pos);
    if item.result is Ok && is_at(tokens, pos + item.used, TokenKind::Comma) {
        lemma_array_items_in_bounds(tokens, pos + item.used + 1);
    }
}

/// As [`lemma_expression_in_bounds`], for an array literal after its `[`.
pub proof fn lemma_array_literal_in_bounds(tokens: Seq<TokenView>, pos: nat, open: Span)
    requires
        pos <= tokens.len(),
    ensures
        in_bounds(tokens, pos, array_literal(tokens, pos, open)),
    decreases remaining(tokens, pos), 54nat,
{
    unfold_array_literal(tokens, pos, open);
    reveal(array_repeat);
    if !is_at(tokens, pos, TokenKind::RightSquare) {
        lemma_spread_in_bounds(tokens, pos);
        let first = spread_or_expression(tokens, pos);
        if first.result is Ok {
            let p = pos + first.used;
            if is_at(tokens, p, TokenKind::Semicolon) {
                lemma_array_dimensions_in_bounds(tokens, p + 1);
            } else {
                unfold_array_rest(tokens, p);
                if is_at(tokens, p, TokenKind::Comma) {
                    lemma_array_items_in_bounds(tokens, p + 1);
                }
            }
        }
    }
}

/// As [`lemma_expression_in_bounds`], for the fields of a circuit
/// initializer.
pub proof fn lemma_circuit_members_in_bounds(tokens: Seq<TokenView>, pos: nat)
    requires
        pos <= tokens.len(),
    ensures
        in_bounds(tokens, pos, circuit_members(tokens, pos)),
    decreases remaining(tokens, pos), 50nat,
{
    unfold_circuit_members(tokens, pos);
    if !is_at(tokens, pos, TokenKind::RightCurly) && is_at(tokens, pos, TokenKind::Ident) {
        let value_used = if is_at(tokens, pos + 1, TokenKind::Colon) {
            lemma_expression_in_bounds(tokens, pos + 2);
            2 + expression(tokens, pos + 2).used
        } else {
            1
        };
        if (is_at(tokens, pos + 1, TokenKind::Colon) ==> expression(tokens, pos + 2).result is Ok)
            && is_at(tokens, pos + value_used, TokenKind::Comma) {
            lemma_circuit_members_in_bounds(tokens, pos + value_used + 1);
        }
    }
}

/// As [`lemma_expression_in_bounds`], for what follows a name.
pub proof fn lemma_named_in_bounds(
    tokens: Seq<TokenView>,
    pos: nat,
    fuzzy: bool,
    name: IdentifierView,
)
    requires
        pos <= tokens.len(),
    ensures
        in_bounds(tokens, pos, named(tokens, pos, fuzzy, name)),
        in_bounds(tokens, pos, circuit_init(tokens, pos, name)),
    decreases remaining(tokens, pos), 52nat,
{
    unfold_named(tokens, pos, fuzzy, name);
    unfold_circuit_init(tokens, pos, name);
    if is_at(tokens, pos, TokenKind::LeftCurly) {
        lemma_circuit_members_in_bounds(tokens, pos + 1);
    }
}

/// As [`lemma_expression_in_bounds`], for what stands in parentheses.
pub proof fn lemma_parenthesis_in_bounds(tokens: Seq<TokenView>, pos: nat, open: Span)
    requires
        pos <= tokens.len(),
    ensures
        in_bounds(tokens, pos, parenthesis(tokens, pos, open)),
    decreases remaining(tokens, pos), 51nat,
{
    unfold_parenthesis(tokens, pos, open);
    if group_partial(tokens, pos).is_none() {
        lemma_expression_list_in_bounds(tokens, pos, TokenKind::RightParen);
    }
}

/// As [`lemma_expression_in_bounds`], for a primary expression.
pub proof fn lemma_primary_in_bounds(tokens: Seq<TokenView>, pos: nat, fuzzy: bool)
    requires
        pos <= tokens.len(),
    ensures
        in_bounds(tokens, pos, primary(tokens, pos, fuzzy)),
    decreases remaining(tokens, pos), 11nat,
{
    unfold_primary(tokens, pos, fuzzy);
    if pos < tokens.len() {
        let token = tokens[pos as int];
        match token.kind {
            TokenKind::Int => {
                reveal(integer_literal);
            },
            TokenKind::Address => {
                reveal(address_call);
            },
            TokenKind::LeftParen => {
                lemma_parenthesis_in_bounds(tokens, pos + 1, token.span);
            },
            TokenKind::LeftSquare => {
                lemma_array_literal_in_bounds(tokens, pos + 1, token.span);
            },
            TokenKind::Ident => {
                lemma_named_in_bounds(tokens, pos + 1, fuzzy, identifier_at(tokens, pos));
            },
            TokenKind::BigSelf => {
                lemma_named_in_bounds(
                    tokens,
                    pos + 1,
                    fuzzy,
                    IdentifierView { name: "Self"@, span: token.span },
                );
            },
            TokenKind::Input => {
                lemma_named_in_bounds(
                    tokens,
                    pos + 1,
                    fuzzy,
                    IdentifierView { name: "input"@, span: token.span },
                );
            },
            TokenKind::LittleSelf => {
                lemma_named_in_bounds(
                    tokens,
                    pos + 1,
                    fuzzy,
                    IdentifierView { name: "self"@, span: token.span },
                );
            },
            _ => {},
        }
    }
}

/// A parse never runs past the end of the tokens, whether it yields an
/// expression or an error.
pub proof fn law_parse_in_bounds(tokens: Seq<TokenView>, pos: nat, fuzzy: bool)
    requires
        pos <= tokens.len(),
    ensures
        pos + expression(tokens, pos).used <= tokens.len(),
        pos + expression_fuzzy(tokens, pos, fuzzy).used <= tokens.len(),
{
    lemma_expression_in_bounds(tokens, pos);
    lemma_expression_fuzzy_in_bounds(tokens, pos, fuzzy);
}

} // verus!
