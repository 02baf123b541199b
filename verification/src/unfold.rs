//! One-step unfoldings of the grammar.
//!
//! The functions of the expression grammar call one another in a cycle, so
//! they are opaque: a proof asks for the step it needs, by name.

use vstd::prelude::*;
use crate::ast::{
    BinaryOperation, CircuitImpliedVariableDefinitionView, ExpressionView, GroupValueView,
    IdentifierView, SpreadOrExpressionView, ValueView,
};
use crate::errors::Expected;
use crate::grammar::{
    access, access_tail, address_call, array_elements, array_items, array_literal, array_repeat,
    array_rest, binary, binary_node, binary_tail, cast, cast_tail, circuit_init, circuit_members,
    end_of_input, expect, expect_identifier, exponent, exponent_tail, expression, expression_fuzzy,
    expression_list, failure, group_partial, identifier_at, index_suffix, integer_literal, is_at,
    member_suffix, named, operand, parenthesis, parenthesized, prefix_node, prefix_operator,
    primary, range_end, spread_or_expression, success, unary, unexpected, Level,
};
use crate::span::Span;
use crate::token::{TokenKind, TokenView};

verus! {

/// One step of [`expression`].
pub proof fn unfold_expression(tokens: Seq<TokenView>, pos: nat)
    ensures
        expression(tokens, pos) == ({
            expression_fuzzy(tokens, pos, false)
        }),
{
    reveal(expression);
    reveal(expression_fuzzy);
}

/// One step of [`expression_fuzzy`].
pub proof fn unfold_expression_fuzzy(tokens: Seq<TokenView>, pos: nat, fuzzy: bool)
    ensures
        expression_fuzzy(tokens, pos, fuzzy) == ({
            let first = binary(Level::Or, tokens, pos, fuzzy);
            match first.result {
                Err(_) => first,
                Ok(condition) => {
                    let question = pos + first.used;
                    if is_at(tokens, question, TokenKind::Question) {
                        let middle = expression(tokens, question + 1);
                        let colon = question + 1 + middle.used;
                        match middle.result {
                            Err(e) => failure(e, (colon - pos) as nat),
                            Ok(if_true) => match expect(tokens, colon, TokenKind::Colon).result {
                                Err(e) => failure(e, (colon - pos) as nat),
                                Ok(_) => {
                                    let last = expression_fuzzy(tokens, colon + 1, fuzzy);
                                    let end = colon + 1 + last.used;
                                    match last.result {
                                        Err(e) => failure(e, (end - pos) as nat),
                                        Ok(if_false) => success(
                                            ExpressionView::Ternary {
                                                condition: Box::new(condition),
                                                if_true: Box::new(if_true),
                                                if_false: Box::new(if_false),
                                                span: condition.span().merge(if_false.span()),
                                            },
                                            (end - pos) as nat,
                                        ),
                                    }
                                },
                            },
                        }
                    } else {
                        first
                    }
                },
            }
        }),
{
    reveal(expression_fuzzy);
    reveal(expression);
    reveal(binary);
}

/// One step of [`operand`].
pub proof fn unfold_operand(level: Level, tokens: Seq<TokenView>, pos: nat, fuzzy: bool)
    ensures
        operand(level, tokens, pos, fuzzy) == ({
            match level.tighter() {
                Some(next) => binary(next, tokens, pos, fuzzy),
                None => exponent(tokens, pos, fuzzy),
            }
        }),
{
    reveal(operand);
    reveal(binary);
    reveal(exponent);
}

/// One step of [`binary`].
pub proof fn unfold_binary(level: Level, tokens: Seq<TokenView>, pos: nat, fuzzy: bool)
    ensures
        binary(level, tokens, pos, fuzzy) == ({
            let first = operand(level, tokens, pos, fuzzy);
            match first.result {
                Err(_) => first,
                Ok(left) => binary_tail(level, tokens, pos + first.used, fuzzy, left).after(first.used),
            }
        }),
{
    reveal(binary);
    reveal(operand);
    reveal(binary_tail);
}

/// One step of [`binary_tail`].
pub proof fn unfold_binary_tail(
    level: Level,
    tokens: Seq<TokenView>,
    pos: nat,
    fuzzy: bool,
    left: ExpressionView,
)
    ensures
        binary_tail(level, tokens, pos, fuzzy, left) == ({
            match level.operator_at(tokens, pos) {
                None => success(left, 0),
                Some(op) => {
                    let next = operand(level, tokens, pos + 1, fuzzy);
                    match next.result {
                        Err(_) => next.after(1),
                        Ok(right) => binary_tail(
                            level,
                            tokens,
                            pos + 1 + next.used,
                            fuzzy,
                            binary_node(op, left, right),
                        ).after(1 + next.used),
                    }
                },
            }
        }),
{
    reveal(binary_tail);
    reveal(operand);
}

/// One step of [`exponent`].
pub proof fn unfold_exponent(tokens: Seq<TokenView>, pos: nat, fuzzy: bool)
    ensures
        exponent(tokens, pos, fuzzy) == ({
            let first = cast(tokens, pos, fuzzy);
            match first.result {
                Err(_) => first,
                Ok(base) => exponent_tail(tokens, pos + first.used, fuzzy, base).after(first.used),
            }
        }),
{
    reveal(exponent);
    reveal(exponent_tail);
    reveal(cast);
}

/// One step of [`exponent_tail`].
pub proof fn unfold_exponent_tail(
    tokens: Seq<TokenView>,
    pos: nat,
    fuzzy: bool,
    base: ExpressionView,
)
    ensures
        exponent_tail(tokens, pos, fuzzy, base) == ({
            if is_at(tokens, pos, TokenKind::Exp) {
                let rest = exponent(tokens, pos + 1, fuzzy);
                match rest.result {
                    Err(_) => rest.after(1),
                    Ok(power) => success(binary_node(BinaryOperation::Pow, base, power), 1 + rest.used),
                }
            } else {
                success(base, 0)
            }
        }),
{
    reveal(exponent_tail);
    reveal(exponent);
}

/// One step of [`cast`].
pub proof fn unfold_cast(tokens: Seq<TokenView>, pos: nat, fuzzy: bool)
    ensures
        cast(tokens, pos, fuzzy) == ({
            let first = unary(tokens, pos, fuzzy);
            match first.result {
                Err(_) => first,
                Ok(inner) => cast_tail(tokens, pos + first.used, inner).after(first.used),
            }
        }),
{
    reveal(cast);
    reveal(unary);
}

/// One step of [`unary`].
pub proof fn unfold_unary(tokens: Seq<TokenView>, pos: nat, fuzzy: bool)
    ensures
        unary(tokens, pos, fuzzy) == ({
            if pos < tokens.len() && prefix_operator(tokens[pos as int].kind) is Some {
                let inner = unary(tokens, pos + 1, fuzzy);
                match inner.result {
                    Err(_) => inner.after(1),
                    Ok(operand) => success(
                        prefix_node(
                            prefix_operator(tokens[pos as int].kind)->Some_0,
                            tokens[pos as int].span,
                            operand,
                        ),
                        1 + inner.used,
                    ),
                }
            } else {
                access(tokens, pos, fuzzy)
            }
        }),
{
    reveal(unary);
    reveal(access);
}

/// One step of [`access`].
pub proof fn unfold_access(tokens: Seq<TokenView>, pos: nat, fuzzy: bool)
    ensures
        access(tokens, pos, fuzzy) == ({
            let first = primary(tokens, pos, fuzzy);
            match first.result {
                Err(_) => first,
                Ok(base) => access_tail(tokens, pos + first.used, base).after(first.used),
            }
        }),
{
    reveal(access);
    reveal(access_tail);
    reveal(primary);
}

/// One step of [`access_tail`].
pub proof fn unfold_access_tail(tokens: Seq<TokenView>, pos: nat, base: ExpressionView)
    ensures
        access_tail(tokens, pos, base) == ({
            if pos >= tokens.len() {
                success(base, 0)
            } else {
                match tokens[pos as int].kind {
                    TokenKind::LeftSquare => {
                        let step = index_suffix(tokens, pos + 1, base);
                        match step.result {
                            Err(_) => step.after(1),
                            Ok(node) => access_tail(tokens, pos + 1 + step.used, node).after(
                                1 + step.used,
                            ),
                        }
                    },
                    TokenKind::Dot => {
                        let step = member_suffix(tokens, pos + 1, base);
                        match step.result {
                            Err(_) => step.after(1),
                            Ok(node) => access_tail(tokens, pos + 1 + step.used, node).after(
                                1 + step.used,
                            ),
                        }
                    },
                    TokenKind::LeftParen => {
                        let list = expression_list(tokens, pos + 1, TokenKind::RightParen);
                        match list.result {
                            Err(e) => failure(e, 1 + list.used),
                            Ok(found) => access_tail(
                                tokens,
                                pos + 1 + list.used,
                                ExpressionView::Call {
                                    function: Box::new(base),
                                    arguments: found.0,
                                    span: base.span().merge(found.1),
                                },
                            ).after(1 + list.used),
                        }
                    },
                    TokenKind::DoubleColon => {
                        let name = expect_identifier(tokens, pos + 1);
                        match name.result {
                            Err(e) => failure(e, 1),
                            Ok(name) => access_tail(
                                tokens,
                                pos + 2,
                                ExpressionView::CircuitStaticFunctionAccess {
                                    circuit: Box::new(base),
                                    name,
                                    span: base.span().merge(name.span),
                                },
                            ).after(2),
                        }
                    },
                    _ => success(base, 0),
                }
            }
        }),
{
    reveal(access_tail);
    reveal(index_suffix);
    reveal(expression_list);
}

/// One step of [`index_suffix`].
pub proof fn unfold_index_suffix(tokens: Seq<TokenView>, pos: nat, base: ExpressionView)
    ensures
        index_suffix(tokens, pos, base) == ({
            if is_at(tokens, pos, TokenKind::DotDot) {
                range_end(tokens, pos + 1, base, None).after(1)
            } else {
                let left = expression(tokens, pos);
                match left.result {
                    Err(_) => left,
                    Ok(index) => {
                        let p = pos + left.used;
                        if is_at(tokens, p, TokenKind::DotDot) {
                            range_end(tokens, p + 1, base, Some(Box::new(index))).after(left.used + 1)
                        } else {
                            match expect(tokens, p, TokenKind::RightSquare).result {
                                Err(e) => failure(e, left.used),
                                Ok(end) => success(
                                    ExpressionView::ArrayAccess {
                                        array: Box::new(base),
                                        index: Box::new(index),
                                        span: base.span().merge(end),
                                    },
                                    left.used + 1,
                                ),
                            }
                        }
                    },
                }
            }
        }),
{
    reveal(index_suffix);
    reveal(expression);
    reveal(range_end);
}

/// One step of [`range_end`].
pub proof fn unfold_range_end(
    tokens: Seq<TokenView>,
    pos: nat,
    base: ExpressionView,
    left: Option<Box<ExpressionView>>,
)
    ensures
        range_end(tokens, pos, base, left) == ({
            if is_at(tokens, pos, TokenKind::RightSquare) {
                success(
                    ExpressionView::ArrayRangeAccess {
                        array: Box::new(base),
                        left,
                        right: None,
                        span: base.span().merge(tokens[pos as int].span),
                    },
                    1,
                )
            } else {
                let upper = expression(tokens, pos);
                match upper.result {
                    Err(_) => upper,
                    Ok(right) => match expect(tokens, pos + upper.used, TokenKind::RightSquare).result {
                        Err(e) => failure(e, upper.used),
                        Ok(end) => success(
                            ExpressionView::ArrayRangeAccess {
                                array: Box::new(base),
                                left,
                                right: Some(Box::new(right)),
                                span: base.span().merge(end),
                            },
                            upper.used + 1,
                        ),
                    },
                }
            }
        }),
{
    reveal(range_end);
    reveal(expression);
}

/// One step of [`expression_list`].
pub proof fn unfold_expression_list(tokens: Seq<TokenView>, pos: nat, close: TokenKind)
    ensures
        expression_list(tokens, pos, close) == ({
            if is_at(tokens, pos, close) {
                success((Seq::empty(), tokens[pos as int].span), 1)
            } else {
                let item = expression(tokens, pos);
                match item.result {
                    Err(e) => failure(e, item.used),
                    Ok(first) => {
                        let p = pos + item.used;
                        if is_at(tokens, p, TokenKind::Comma) {
                            let rest = expression_list(tokens, p + 1, close);
                            match rest.result {
                                Err(e) => failure(e, item.used + 1 + rest.used),
                                Ok(found) => success(
                                    (seq![first] + found.0, found.1),
                                    item.used + 1 + rest.used,
                                ),
                            }
                        } else {
                            match expect(tokens, p, close).result {
                                Err(e) => failure(e, item.used),
                                Ok(end) => success((seq![first], end), item.used + 1),
                            }
                        }
                    },
                }
            }
        }),
{
    reveal(expression_list);
    reveal(expression);
}

/// One step of [`spread_or_expression`].
pub proof fn unfold_spread_or_expression(tokens: Seq<TokenView>, pos: nat)
    ensures
        spread_or_expression(tokens, pos) == ({
            if is_at(tokens, pos, TokenKind::DotDotDot) {
                let inner = expression(tokens, pos + 1);
                match inner.result {
                    Err(e) => failure(e, 1 + inner.used),
                    Ok(e) => success(SpreadOrExpressionView::Spread(e), 1 + inner.used),
                }
            } else {
                let inner = expression(tokens, pos);
                match inner.result {
                    Err(e) => failure(e, inner.used),
                    Ok(e) => success(SpreadOrExpressionView::Expression(e), inner.used),
                }
            }
        }),
{
    reveal(spread_or_expression);
    reveal(expression);
}

/// One step of [`array_items`].
pub proof fn unfold_array_items(tokens: Seq<TokenView>, pos: nat)
    ensures
        array_items(tokens, pos) == ({
            let item = spread_or_expression(tokens, pos);
            match item.result {
                Err(e) => failure(e, item.used),
                Ok(first) => {
                    let p = pos + item.used;
                    if is_at(tokens, p, TokenKind::Comma) {
                        let rest = array_elements(tokens, p + 1);
                        match rest.result {
                            Err(e) => failure(e, item.used + 1 + rest.used),
                            Ok(found) => success(
                                (seq![first] + found.0, found.1),
                                item.used + 1 + rest.used,
                            ),
                        }
                    } else {
                        match expect(tokens, p, TokenKind::RightSquare).result {
                            Err(e) => failure(e, item.used),
                            Ok(end) => success((seq![first], end), item.used + 1),
                        }
                    }
                },
            }
        }),
{
    reveal(array_items);
    reveal(spread_or_expression);
    reveal(array_elements);
}

/// One step of [`array_elements`].
pub proof fn unfold_array_elements(tokens: Seq<TokenView>, pos: nat)
    ensures
        array_elements(tokens, pos) == ({
            if is_at(tokens, pos, TokenKind::RightSquare) {
                success((Seq::empty(), tokens[pos as int].span), 1)
            } else {
                array_items(tokens, pos)
            }
        }),
{
    reveal(array_elements);
    reveal(array_items);
}

/// One step of [`array_rest`].
pub proof fn unfold_array_rest(tokens: Seq<TokenView>, pos: nat)
    ensures
        array_rest(tokens, pos) == ({
            if is_at(tokens, pos, TokenKind::RightSquare) {
                success((Seq::empty(), tokens[pos as int].span), 1)
            } else {
                match expect(tokens, pos, TokenKind::Comma).result {
                    Err(e) => failure(e, 0),
                    Ok(_) => array_items(tokens, pos + 1).after(1),
                }
            }
        }),
{
    reveal(array_rest);
    reveal(array_items);
}

/// One step of [`array_literal`].
pub proof fn unfold_array_literal(tokens: Seq<TokenView>, pos: nat, open: Span)
    ensures
        array_literal(tokens, pos, open) == ({
            if is_at(tokens, pos, TokenKind::RightSquare) {
                success(
                    ExpressionView::ArrayInline {
                        elements: Seq::empty(),
                        span: open.merge(tokens[pos as int].span),
                    },
                    1,
                )
            } else {
                let first = spread_or_expression(tokens, pos);
                match first.result {
                    Err(e) => failure(e, first.used),
                    Ok(element) => {
                        let p = pos + first.used;
                        if is_at(tokens, p, TokenKind::Semicolon) {
                            array_repeat(tokens, p + 1, open, element).after(first.used + 1)
                        } else {
                            let rest = array_rest(tokens, p);
                            match rest.result {
                                Err(e) => failure(e, first.used + rest.used),
                                Ok(found) => success(
                                    ExpressionView::ArrayInline {
                                        elements: seq![element] + found.0,
                                        span: open.merge(found.1),
                                    },
                                    first.used + rest.used,
                                ),
                            }
                        }
                    },
                }
            }
        }),
{
    reveal(array_literal);
    reveal(spread_or_expression);
    reveal(array_rest);
}

/// One step of [`circuit_members`].
pub proof fn unfold_circuit_members(tokens: Seq<TokenView>, pos: nat)
    ensures
        circuit_members(tokens, pos) == ({
            if is_at(tokens, pos, TokenKind::RightCurly) {
                success((Seq::empty(), tokens[pos as int].span), 1)
            } else if !is_at(tokens, pos, TokenKind::Ident) {
                failure(unexpected(tokens, pos, Expected::Identifier), 0)
            } else {
                let identifier = identifier_at(tokens, pos);
                let value = if is_at(tokens, pos + 1, TokenKind::Colon) {
                    let e = expression(tokens, pos + 2);
                    match e.result {
                        Err(error) => failure(error, 2 + e.used),
                        Ok(e_value) => success(Some(e_value), 2 + e.used),
                    }
                } else {
                    success(None, 1)
                };
                match value.result {
                    Err(e) => failure(e, value.used),
                    Ok(expression) => {
                        let member = CircuitImpliedVariableDefinitionView { identifier, expression };
                        let p = pos + value.used;
                        if is_at(tokens, p, TokenKind::Comma) {
                            let rest = circuit_members(tokens, p + 1);
                            match rest.result {
                                Err(e) => failure(e, value.used + 1 + rest.used),
                                Ok(found) => success(
                                    (seq![member] + found.0, found.1),
                                    value.used + 1 + rest.used,
                                ),
                            }
                        } else {
                            match expect(tokens, p, TokenKind::RightCurly).result {
                                Err(e) => failure(e, value.used),
                                Ok(end) => success((seq![member], end), value.used + 1),
                            }
                        }
                    },
                }
            }
        }),
{
    reveal(circuit_members);
    reveal(expression);
}

/// One step of [`circuit_init`].
pub proof fn unfold_circuit_init(tokens: Seq<TokenView>, pos: nat, name: IdentifierView)
    ensures
        circuit_init(tokens, pos, name) == ({
            match expect(tokens, pos, TokenKind::LeftCurly).result {
                Err(e) => failure(e, 0),
                Ok(_) => {
                    let list = circuit_members(tokens, pos + 1);
                    match list.result {
                        Err(e) => failure(e, 1 + list.used),
                        Ok(found) => success(
                            ExpressionView::CircuitInit {
                                name,
                                members: found.0,
                                span: name.span.merge(found.1),
                            },
                            1 + list.used,
                        ),
                    }
                },
            }
        }),
{
    reveal(circuit_init);
    reveal(circuit_members);
}

/// One step of [`named`].
pub proof fn unfold_named(tokens: Seq<TokenView>, pos: nat, fuzzy: bool, name: IdentifierView)
    ensures
        named(tokens, pos, fuzzy, name) == ({
            if !fuzzy && is_at(tokens, pos, TokenKind::LeftCurly) {
                circuit_init(tokens, pos, name)
            } else {
                success(ExpressionView::Identifier(name), 0)
            }
        }),
{
    reveal(named);
    reveal(circuit_init);
}

/// One step of [`parenthesis`].
pub proof fn unfold_parenthesis(tokens: Seq<TokenView>, pos: nat, open: Span)
    ensures
        parenthesis(tokens, pos, open) == ({
            match group_partial(tokens, pos) {
                Some(pair) => success(
                    ExpressionView::Value(
                        ValueView::Group(
                            GroupValueView::Tuple { x: pair.x, y: pair.y, span: open.merge(pair.span) },
                        ),
                    ),
                    pair.used,
                ),
                None => {
                    let list = expression_list(tokens, pos, TokenKind::RightParen);
                    match list.result {
                        Err(e) => failure(e, list.used),
                        Ok(found) => success(parenthesized(found.0, open, found.1), list.used),
                    }
                },
            }
        }),
{
    reveal(parenthesis);
    reveal(expression_list);
}

/// One step of [`primary`].
pub proof fn unfold_primary(tokens: Seq<TokenView>, pos: nat, fuzzy: bool)
    ensures
        primary(tokens, pos, fuzzy) == ({
            if pos >= tokens.len() {
                failure(end_of_input(tokens), 0)
            } else {
                let token = tokens[pos as int];
                match token.kind {
                    TokenKind::Int => integer_literal(tokens, pos),
                    TokenKind::True => success(
                        ExpressionView::Value(ValueView::Boolean { value: "true"@, span: token.span }),
                        1,
                    ),
                    TokenKind::False => success(
                        ExpressionView::Value(ValueView::Boolean { value: "false"@, span: token.span }),
                        1,
                    ),
                    TokenKind::AddressLit => success(
                        ExpressionView::Value(ValueView::Address { value: token.text, span: token.span }),
                        1,
                    ),
                    TokenKind::Address => address_call(tokens, pos),
                    TokenKind::LeftParen => parenthesis(tokens, pos + 1, token.span).after(1),
                    TokenKind::LeftSquare => array_literal(tokens, pos + 1, token.span).after(1),
                    TokenKind::Ident => named(tokens, pos + 1, fuzzy, identifier_at(tokens, pos)).after(1),
                    TokenKind::BigSelf => named(
                        tokens,
                        pos + 1,
                        fuzzy,
                        IdentifierView { name: "Self"@, span: token.span },
                    ).after(1),
                    TokenKind::Input => named(
                        tokens,
                        pos + 1,
                        fuzzy,
                        IdentifierView { name: "input"@, span: token.span },
                    ).after(1),
                    TokenKind::LittleSelf => named(
                        tokens,
                        pos + 1,
                        fuzzy,
                        IdentifierView { name: "self"@, span: token.span },
                    ).after(1),
                    _ => failure(unexpected(tokens, pos, Expected::Expression), 1),
                }
            }
        }),
{
    reveal(primary);
    reveal(array_literal);
    reveal(named);
    reveal(parenthesis);
}

} // verus!
