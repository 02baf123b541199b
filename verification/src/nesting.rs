//! The spans of a parsed expression are nested.
//!
//! Where the spans of the tokens are in source order, the span of every
//! node of a parsed expression covers the spans of the node's children.

use vstd::prelude::*;
use crate::ast::{
    CircuitImpliedVariableDefinitionView, ExpressionView, GroupCoordinateView, GroupValueView,
    IdentifierView, SpreadOrExpressionView, ValueView,
};
use crate::grammar::{
    access, access_tail, address_call, array_elements, array_items, array_literal, array_repeat,
    array_rest, binary, binary_node, binary_tail, cast, cast_tail, circuit_members, exponent,
    expression, expression_fuzzy, expression_list, group_coordinate, group_partial, identifier_at,
    index_suffix, integer_literal, is_at, member_suffix, named, operand, parenthesis, prefix_node,
    prefix_operator, primary, remaining, spread_or_expression, type_annotation, unary, Level,
    Parsed,
};
use crate::span::Span;
use crate::cover::{
    ends_at, fits, lemma_array_items_end, lemma_array_literal_ends, lemma_binary_fits, lemma_circuit_members_end,
    lemma_closed_access_fits, lemma_expression_fits, lemma_expression_fuzzy_fits,
    lemma_expression_list_ends, lemma_index_suffix_ends, lemma_primary_fits, lemma_token_fits,
    spans_ordered, starts_at,
};
use crate::token::{TokenKind, TokenView};
use crate::unfold::{
    unfold_access, unfold_access_tail, unfold_array_elements, unfold_array_items,
    unfold_array_literal, unfold_array_rest, unfold_binary, unfold_binary_tail, unfold_cast,
    unfold_circuit_init, unfold_circuit_members, unfold_exponent, unfold_exponent_tail,
    unfold_expression, unfold_expression_fuzzy, unfold_expression_list, unfold_index_suffix,
    unfold_named, unfold_operand, unfold_parenthesis, unfold_primary, unfold_range_end,
    unfold_spread_or_expression, unfold_unary,
};

verus! {

/// Whether the span of a group coordinate, if it has one, lies within
/// `outer`.
pub open spec fn coordinate_within(coordinate: GroupCoordinateView, outer: Span) -> bool {
    match coordinate {
        GroupCoordinateView::Number { span, .. } => span.within(outer),
        _ => true,
    }
}

/// Whether the span of every node of `e` covers the spans of the node's
/// children.
pub open spec fn spans_nested(e: ExpressionView) -> bool
    decreases e,
{
    match e {
        ExpressionView::Identifier(_) => true,
        ExpressionView::Value(value) => match value {
            ValueView::Group(GroupValueView::Tuple { x, y, span }) => coordinate_within(x, span)
                && coordinate_within(y, span),
            _ => true,
        },
        ExpressionView::Binary { left, right, span, .. } => {
            &&& left.span().within(span) && spans_nested(*left)
            &&& right.span().within(span) && spans_nested(*right)
        },
        ExpressionView::Unary { inner, span, .. } => inner.span().within(span) && spans_nested(
            *inner,
        ),
        ExpressionView::Ternary { condition, if_true, if_false, span } => {
            &&& condition.span().within(span) && spans_nested(*condition)
            &&& if_true.span().within(span) && spans_nested(*if_true)
            &&& if_false.span().within(span) && spans_nested(*if_false)
        },
        ExpressionView::Cast { inner, span, .. } => inner.span().within(span) && spans_nested(
            *inner,
        ),
        ExpressionView::ArrayInline { elements, span } => forall|i: int|
            0 <= i < elements.len() ==> (#[trigger] elements[i]).inner().span().within(span)
                && spans_nested(elements[i].inner()),
        ExpressionView::ArrayInit { element, span, .. } => element.span().within(span)
            && spans_nested(*element),
        ExpressionView::ArrayAccess { array, index, span } => {
            &&& array.span().within(span) && spans_nested(*array)
            &&& index.span().within(span) && spans_nested(*index)
        },
        ExpressionView::ArrayRangeAccess { array, left, right, span } => {
            &&& array.span().within(span) && spans_nested(*array)
            &&& left matches Some(bound) ==> bound.span().within(span) && spans_nested(*bound)
            &&& right matches Some(bound) ==> bound.span().within(span) && spans_nested(*bound)
        },
        ExpressionView::TupleInit { elements, span } => forall|i: int|
            0 <= i < elements.len() ==> (#[trigger] elements[i]).span().within(span)
                && spans_nested(elements[i]),
        ExpressionView::TupleAccess { tuple, span, .. } => tuple.span().within(span)
            && spans_nested(*tuple),
        ExpressionView::CircuitInit { name, members, span } => {
            &&& name.span.within(span)
            &&& forall|i: int|
                0 <= i < members.len() ==> {
                    &&& (#[trigger] members[i]).identifier.span.within(span)
                    &&& members[i].expression matches Some(value) ==> value.span().within(span)
                        && spans_nested(value)
                }
        },
        ExpressionView::CircuitMemberAccess { circuit, name, span } => {
            &&& circuit.span().within(span) && spans_nested(*circuit)
            &&& name.span.within(span)
        },
        ExpressionView::CircuitStaticFunctionAccess { circuit, name, span } => {
            &&& circuit.span().within(span) && spans_nested(*circuit)
            &&& name.span.within(span)
        },
        ExpressionView::Call { function, arguments, span } => {
            &&& function.span().within(span) && spans_nested(*function)
            &&& forall|i: int|
                0 <= i < arguments.len() ==> (#[trigger] arguments[i]).span().within(span)
                    && spans_nested(arguments[i])
        },
    }
}

/// Whether an expression is nested and lies within `outer`.
pub open spec fn nested_within(e: ExpressionView, outer: Span) -> bool {
    e.span().within(outer) && spans_nested(e)
}

/// Whether a successful parse yields a nested expression.
pub open spec fn parse_nested(parsed: Parsed<ExpressionView>) -> bool {
    parsed.result matches Ok(e) ==> spans_nested(e)
}

/// The span from the first to the last of the `used` tokens from `pos` on.
pub open spec fn range_span(tokens: Seq<TokenView>, pos: nat, used: nat) -> Span {
    Span { start: tokens[pos as int].span.start, end: tokens[pos + used - 1].span.end }
}

/// Whether a successful parse of a list of expressions yields nested
/// expressions within the span of the tokens consumed.
pub open spec fn list_nested(
    tokens: Seq<TokenView>,
    pos: nat,
    parsed: Parsed<(Seq<ExpressionView>, Span)>,
) -> bool {
    parsed.result matches Ok(found) ==> forall|i: int|
        0 <= i < found.0.len() ==> nested_within(
            #[trigger] found.0[i],
            range_span(tokens, pos, parsed.used),
        )
}

/// As [`list_nested`], for array elements.
pub open spec fn elements_nested(
    tokens: Seq<TokenView>,
    pos: nat,
    parsed: Parsed<(Seq<SpreadOrExpressionView>, Span)>,
) -> bool {
    parsed.result matches Ok(found) ==> forall|i: int|
        0 <= i < found.0.len() ==> nested_within(
            (#[trigger] found.0[i]).inner(),
            range_span(tokens, pos, parsed.used),
        )
}

/// Whether a field of a circuit initializer lies within `outer`, with its
/// value nested.
pub open spec fn member_within(member: CircuitImpliedVariableDefinitionView, outer: Span) -> bool {
    &&& member.identifier.span.within(outer)
    &&& member.expression matches Some(value) ==> nested_within(value, outer)
}

/// As [`list_nested`], for the fields of a circuit initializer.
pub open spec fn members_nested(
    tokens: Seq<TokenView>,
    pos: nat,
    parsed: Parsed<(Seq<CircuitImpliedVariableDefinitionView>, Span)>,
) -> bool {
    parsed.result matches Ok(found) ==> forall|i: int|
        0 <= i < found.0.len() ==> member_within(
            #[trigger] found.0[i],
            range_span(tokens, pos, parsed.used),
        )
}

/// A span that fits a run of tokens lies within the span of the run.
pub proof fn lemma_fits_within_range(tokens: Seq<TokenView>, pos: nat, used: nat, span: Span)
    requires
        spans_ordered(tokens),
        fits(tokens, pos, used, span),
    ensures
        span.within(range_span(tokens, pos, used)),
{
    let i = choose|i: int| starts_at(tokens, pos, used, span, i);
    let j = choose|j: int| ends_at(tokens, pos, used, span, j);
    let last = pos + used - 1;
    assert(tokens[pos as int].span.start <= tokens[pos as int].span.end);
    assert(tokens[j].span.start <= tokens[j].span.end);
    if pos < i {
        assert(tokens[pos as int].span.end <= tokens[i].span.start);
    }
    if j < last {
        assert(tokens[j].span.end <= tokens[last].span.start);
        assert(tokens[last].span.start <= tokens[last].span.end);
    }
}

/// The span of a run of tokens lies within the span of a longer run that
/// holds it.
pub proof fn lemma_range_grows(
    tokens: Seq<TokenView>,
    pos: nat,
    used: nat,
    inner_pos: nat,
    inner_used: nat,
)
    requires
        spans_ordered(tokens),
        pos <= inner_pos,
        inner_used >= 1,
        inner_pos + inner_used <= pos + used <= tokens.len(),
    ensures
        range_span(tokens, inner_pos, inner_used).within(range_span(tokens, pos, used)),
{
    let inner_last = inner_pos + inner_used - 1;
    let last = pos + used - 1;
    assert(tokens[pos as int].span.start <= tokens[pos as int].span.end);
    assert(tokens[last].span.start <= tokens[last].span.end);
    if pos < inner_pos {
        assert(tokens[pos as int].span.end <= tokens[inner_pos as int].span.start);
    }
    if inner_last < last {
        assert(tokens[inner_last].span.end <= tokens[last].span.start);
    }
}

/// The span of a run of tokens lies within the union of one span that fits
/// tokens before the run and another that fits tokens after it.
pub proof fn lemma_range_between(
    tokens: Seq<TokenView>,
    start: nat,
    used_a: nat,
    a: Span,
    pos: nat,
    used: nat,
    next: nat,
    used_b: nat,
    b: Span,
)
    requires
        spans_ordered(tokens),
        fits(tokens, start, used_a, a),
        fits(tokens, next, used_b, b),
        start + used_a <= pos,
        used >= 1,
        pos + used <= next,
    ensures
        range_span(tokens, pos, used).within(a.merge(b)),
{
    let i = choose|i: int| starts_at(tokens, start, used_a, a, i);
    let j = choose|j: int| ends_at(tokens, next, used_b, b, j);
    let last = pos + used - 1;
    assert(tokens[i].span.start <= tokens[i].span.end);
    assert(tokens[i].span.end <= tokens[pos as int].span.start);
    assert(tokens[last].span.end <= tokens[j].span.start);
    assert(tokens[j].span.start <= tokens[j].span.end);
}

/// The span of a run of tokens lies within the union of a span that fits
/// tokens before the run and the span of the last token of the run.
pub proof fn lemma_range_closes(
    tokens: Seq<TokenView>,
    start: nat,
    used_a: nat,
    a: Span,
    pos: nat,
    used: nat,
)
    requires
        spans_ordered(tokens),
        fits(tokens, start, used_a, a),
        start + used_a <= pos,
        used >= 1,
        pos + used <= tokens.len(),
    ensures
        range_span(tokens, pos, used).within(a.merge(tokens[pos + used - 1].span)),
{
    let i = choose|i: int| starts_at(tokens, start, used_a, a, i);
    assert(tokens[i].span.start <= tokens[i].span.end);
    assert(tokens[i].span.end <= tokens[pos as int].span.start);
}

/// Every expression that parses is nested.
pub proof fn lemma_expression_nested(tokens: Seq<TokenView>, pos: nat)
    requires
        spans_ordered(tokens),
    ensures
        parse_nested(expression(tokens, pos)),
    decreases remaining(tokens, pos), 40nat,
{
    unfold_expression(tokens, pos);
    lemma_expression_fuzzy_nested(tokens, pos, false);
}

/// As [`lemma_expression_nested`], for a ternary expression in either mode.
pub proof fn lemma_expression_fuzzy_nested(tokens: Seq<TokenView>, pos: nat, fuzzy: bool)
    requires
        spans_ordered(tokens),
    ensures
        parse_nested(expression_fuzzy(tokens, pos, fuzzy)),
    decreases remaining(tokens, pos), 39nat,
{
    unfold_expression_fuzzy(tokens, pos, fuzzy);
    lemma_binary_nested(Level::Or, tokens, pos, fuzzy);
    let first = binary(Level::Or, tokens, pos, fuzzy);
    if let Ok(condition) = first.result {
        let question = pos + first.used;
        if is_at(tokens, question, TokenKind::Question) {
            lemma_expression_nested(tokens, question + 1);
            let middle = expression(tokens, question + 1);
            let colon = question + 1 + middle.used;
            if let Ok(if_true) = middle.result {
                if is_at(tokens, colon, TokenKind::Colon) {
                    lemma_expression_fuzzy_nested(tokens, colon + 1, fuzzy);
                    let last = expression_fuzzy(tokens, colon + 1, fuzzy);
                    if let Ok(if_false) = last.result {
                        lemma_binary_fits(Level::Or, tokens, pos, fuzzy);
                        lemma_expression_fits(tokens, question + 1);
                        lemma_expression_fuzzy_fits(tokens, colon + 1, fuzzy);
                        lemma_fits_within_range(tokens, question + 1, middle.used, if_true.span());
                        lemma_range_between(
                            tokens,
                            pos,
                            first.used,
                            condition.span(),
                            question + 1,
                            middle.used,
                            colon + 1,
                            last.used,
                            if_false.span(),
                        );
                    }
                }
            }
        }
    }
}

/// As [`lemma_expression_nested`], for an operand of a binary level.
pub proof fn lemma_operand_nested(level: Level, tokens: Seq<TokenView>, pos: nat, fuzzy: bool)
    requires
        spans_ordered(tokens),
    ensures
        parse_nested(operand(level, tokens, pos, fuzzy)),
    decreases remaining(tokens, pos), 36 - 2 * level.tightness(),
{
    unfold_operand(level, tokens, pos, fuzzy);
    match level.tighter() {
        Some(next) => lemma_binary_nested(next, tokens, pos, fuzzy),
        None => lemma_exponent_nested(tokens, pos, fuzzy),
    }
}

/// As [`lemma_expression_nested`], for a binary level.
pub proof fn lemma_binary_nested(level: Level, tokens: Seq<TokenView>, pos: nat, fuzzy: bool)
    requires
        spans_ordered(tokens),
    ensures
        parse_nested(binary(level, tokens, pos, fuzzy)),
    decreases remaining(tokens, pos), 37 - 2 * level.tightness(),
{
    unfold_binary(level, tokens, pos, fuzzy);
    lemma_operand_nested(level, tokens, pos, fuzzy);
    let first = operand(level, tokens, pos, fuzzy);
    if let Ok(left) = first.result {
        lemma_binary_tail_nested(level, tokens, pos + first.used, fuzzy, left);
    }
}

/// The rest of a binary chain after a nested left operand is nested.
pub proof fn lemma_binary_tail_nested(
    level: Level,
    tokens: Seq<TokenView>,
    pos: nat,
    fuzzy: bool,
    left: ExpressionView,
)
    requires
        spans_ordered(tokens),
        spans_nested(left),
    ensures
        parse_nested(binary_tail(level, tokens, pos, fuzzy, left)),
    decreases remaining(tokens, pos), 36 - 2 * level.tightness(),
{
    unfold_binary_tail(level, tokens, pos, fuzzy, left);
    if let Some(op) = level.operator_at(tokens, pos) {
        lemma_operand_nested(level, tokens, pos + 1, fuzzy);
        let next = operand(level, tokens, pos + 1, fuzzy);
        if let Ok(right) = next.result {
            lemma_binary_tail_nested(
                level,
                tokens,
                pos + 1 + next.used,
                fuzzy,
                binary_node(op, left, right),
            );
        }
    }
}

/// As [`lemma_expression_nested`], for a chain of powers.
pub proof fn lemma_exponent_nested(tokens: Seq<TokenView>, pos: nat, fuzzy: bool)
    requires
        spans_ordered(tokens),
    ensures
        parse_nested(exponent(tokens, pos, fuzzy)),
    decreases remaining(tokens, pos), 17nat,
{
    unfold_exponent(tokens, pos, fuzzy);
    lemma_cast_nested(tokens, pos, fuzzy);
    let first = cast(tokens, pos, fuzzy);
    if let Ok(base) = first.result {
        let p = pos + first.used;
        unfold_exponent_tail(tokens, p, fuzzy, base);
        if is_at(tokens, p, TokenKind::Exp) {
            lemma_exponent_nested(tokens, p + 1, fuzzy);
        }
    }
}

/// As [`lemma_expression_nested`], for a unary expression with its casts.
pub proof fn lemma_cast_nested(tokens: Seq<TokenView>, pos: nat, fuzzy: bool)
    requires
        spans_ordered(tokens),
    ensures
        parse_nested(cast(tokens, pos, fuzzy)),
    decreases remaining(tokens, pos), 16nat,
{
    unfold_cast(tokens, pos, fuzzy);
    lemma_unary_nested(tokens, pos, fuzzy);
    let first = unary(tokens, pos, fuzzy);
    if let Ok(inner) = first.result {
        lemma_cast_tail_nested(tokens, pos + first.used, inner);
    }
}

/// The casts after a nested expression yield a nested expression.
pub proof fn lemma_cast_tail_nested(tokens: Seq<TokenView>, pos: nat, inner: ExpressionView)
    requires
        spans_nested(inner),
    ensures
        parse_nested(cast_tail(tokens, pos, inner)),
    decreases remaining(tokens, pos),
{
    if is_at(tokens, pos, TokenKind::As) {
        let target = type_annotation(tokens, pos + 1);
        if let Ok(found) = target.result {
            lemma_cast_tail_nested(
                tokens,
                pos + 1 + target.used,
                ExpressionView::Cast {
                    inner: Box::new(inner),
                    target_type: found.0,
                    span: inner.span().merge(found.1),
                },
            );
        }
    }
}

/// As [`lemma_expression_nested`], for an access expression under prefix
/// operators.
pub proof fn lemma_unary_nested(tokens: Seq<TokenView>, pos: nat, fuzzy: bool)
    requires
        spans_ordered(tokens),
    ensures
        parse_nested(unary(tokens, pos, fuzzy)),
    decreases remaining(tokens, pos), 14nat,
{
    unfold_unary(tokens, pos, fuzzy);
    if pos < tokens.len() && prefix_operator(tokens[pos as int].kind) is Some {
        lemma_unary_nested(tokens, pos + 1, fuzzy);
        reveal(prefix_node);
    } else {
        lemma_access_nested(tokens, pos, fuzzy);
    }
}

/// As [`lemma_expression_nested`], for a primary expression with its
/// accesses.
pub proof fn lemma_access_nested(tokens: Seq<TokenView>, pos: nat, fuzzy: bool)
    requires
        spans_ordered(tokens),
    ensures
        parse_nested(access(tokens, pos, fuzzy)),
    decreases remaining(tokens, pos), 13nat,
{
    unfold_access(tokens, pos, fuzzy);
    lemma_primary_nested(tokens, pos, fuzzy);
    lemma_primary_fits(tokens, pos, fuzzy);
    let first = primary(tokens, pos, fuzzy);
    if let Ok(base) = first.result {
        lemma_access_tail_nested(tokens, pos, pos + first.used, base);
    }
}

/// The accesses after a nested expression that fits the tokens from `start`
/// to `pos` yield a nested expression.
pub proof fn lemma_access_tail_nested(
    tokens: Seq<TokenView>,
    start: nat,
    pos: nat,
    base: ExpressionView,
)
    requires
        spans_ordered(tokens),
        start <= pos,
        fits(tokens, start, (pos - start) as nat, base.span()),
        spans_nested(base),
    ensures
        parse_nested(access_tail(tokens, pos, base)),
    decreases remaining(tokens, pos), 12nat,
{
    unfold_access_tail(tokens, pos, base);
    if pos < tokens.len() {
        match tokens[pos as int].kind {
            TokenKind::LeftSquare => {
                lemma_index_suffix_nested(tokens, start, pos + 1, base);
                lemma_index_suffix_ends(tokens, pos + 1, base);
                let step = index_suffix(tokens, pos + 1, base);
                if let Ok(node) = step.result {
                    lemma_closed_access_fits(
                        tokens,
                        start,
                        pos,
                        base.span(),
                        (pos + step.used) as nat,
                    );
                    lemma_access_tail_nested(tokens, start, pos + 1 + step.used, node);
                }
            },
            TokenKind::Dot => {
                reveal(member_suffix);
                let step = member_suffix(tokens, pos + 1, base);
                if let Ok(node) = step.result {
                    lemma_closed_access_fits(tokens, start, pos, base.span(), pos + 1);
                    lemma_access_tail_nested(tokens, start, pos + 1 + step.used, node);
                }
            },
            TokenKind::LeftParen => {
                lemma_expression_list_nested(tokens, pos + 1, TokenKind::RightParen);
                lemma_expression_list_ends(tokens, pos + 1, TokenKind::RightParen);
                let list = expression_list(tokens, pos + 1, TokenKind::RightParen);
                if let Ok(found) = list.result {
                    let node = ExpressionView::Call {
                        function: Box::new(base),
                        arguments: found.0,
                        span: base.span().merge(found.1),
                    };
                    lemma_range_closes(
                        tokens,
                        start,
                        (pos - start) as nat,
                        base.span(),
                        pos + 1,
                        list.used,
                    );
                    assert(spans_nested(node));
                    lemma_closed_access_fits(
                        tokens,
                        start,
                        pos,
                        base.span(),
                        (pos + list.used) as nat,
                    );
                    lemma_access_tail_nested(tokens, start, pos + 1 + list.used, node);
                }
            },
            TokenKind::DoubleColon => {
                if is_at(tokens, pos + 1, TokenKind::Ident) {
                    let name = identifier_at(tokens, pos + 1);
                    lemma_closed_access_fits(tokens, start, pos, base.span(), pos + 1);
                    lemma_access_tail_nested(
                        tokens,
                        start,
                        pos + 2,
                        ExpressionView::CircuitStaticFunctionAccess {
                            circuit: Box::new(base),
                            name,
                            span: base.span().merge(name.span),
                        },
                    );
                }
            },
            _ => {},
        }
    }
}

/// An upper bound of a range, parsed at `pos` and followed by the `]`, is
/// nested and lies within the span of the access.
pub proof fn lemma_bound_nested(
    tokens: Seq<TokenView>,
    start: nat,
    used_base: nat,
    base: Span,
    pos: nat,
)
    requires
        spans_ordered(tokens),
        fits(tokens, start, used_base, base),
        start + used_base <= pos,
        expression(tokens, pos).result is Ok,
        is_at(tokens, pos + expression(tokens, pos).used, TokenKind::RightSquare),
    ensures
        nested_within(
            expression(tokens, pos).result->Ok_0,
            base.merge(tokens[(pos + expression(tokens, pos).used) as int].span),
        ),
    decreases remaining(tokens, pos), 45nat,
{
    let parsed = expression(tokens, pos);
    let close = pos + parsed.used;
    lemma_expression_nested(tokens, pos);
    lemma_expression_fits(tokens, pos);
    lemma_fits_within_range(tokens, pos, parsed.used, parsed.result->Ok_0.span());
    lemma_token_fits(tokens, close);
    lemma_range_between(
        tokens,
        start,
        used_base,
        base,
        pos,
        parsed.used,
        close,
        1,
        tokens[close as int].span,
    );
}

/// A lower bound or an index, parsed at `pos`, is nested and lies within
/// the span of an access that closes at `close`.
pub proof fn lemma_index_nested(
    tokens: Seq<TokenView>,
    start: nat,
    used_base: nat,
    base: Span,
    pos: nat,
    close: nat,
)
    requires
        spans_ordered(tokens),
        fits(tokens, start, used_base, base),
        start + used_base <= pos,
        expression(tokens, pos).result is Ok,
        pos + expression(tokens, pos).used <= close < tokens.len(),
    ensures
        nested_within(expression(tokens, pos).result->Ok_0, base.merge(tokens[close as int].span)),
    decreases remaining(tokens, pos), 45nat,
{
    let parsed = expression(tokens, pos);
    lemma_expression_nested(tokens, pos);
    lemma_expression_fits(tokens, pos);
    lemma_fits_within_range(tokens, pos, parsed.used, parsed.result->Ok_0.span());
    lemma_token_fits(tokens, close);
    lemma_range_between(
        tokens,
        start,
        used_base,
        base,
        pos,
        parsed.used,
        close,
        1,
        tokens[close as int].span,
    );
}

/// An access in brackets into a nested expression is nested.
pub proof fn lemma_index_suffix_nested(
    tokens: Seq<TokenView>,
    start: nat,
    pos: nat,
    base: ExpressionView,
)
    requires
        spans_ordered(tokens),
        start + 1 <= pos,
        fits(tokens, start, (pos - 1 - start) as nat, base.span()),
        spans_nested(base),
    ensures
        parse_nested(index_suffix(tokens, pos, base)),
    decreases remaining(tokens, pos), 51nat,
{
    let used_base = (pos - 1 - start) as nat;
    unfold_index_suffix(tokens, pos, base);
    if is_at(tokens, pos, TokenKind::DotDot) {
        unfold_range_end(tokens, pos + 1, base, None);
        if !is_at(tokens, pos + 1, TokenKind::RightSquare) {
            let upper = expression(tokens, pos + 1);
            if upper.result is Ok && is_at(tokens, pos + 1 + upper.used, TokenKind::RightSquare) {
                lemma_bound_nested(tokens, start, used_base, base.span(), pos + 1);
            }
        }
    } else {
        let left = expression(tokens, pos);
        if let Ok(index) = left.result {
            let p = pos + left.used;
            if is_at(tokens, p, TokenKind::DotDot) {
                unfold_range_end(tokens, p + 1, base, Some(Box::new(index)));
                if is_at(tokens, p + 1, TokenKind::RightSquare) {
                    lemma_index_nested(tokens, start, used_base, base.span(), pos, p + 1);
                } else {
                    let upper = expression(tokens, p + 1);
                    if upper.result is Ok && is_at(
                        tokens,
                        p + 1 + upper.used,
                        TokenKind::RightSquare,
                    ) {
                        lemma_bound_nested(tokens, start, used_base, base.span(), p + 1);
                        lemma_index_nested(
                            tokens,
                            start,
                            used_base,
                            base.span(),
                            pos,
                            p + 1 + upper.used,
                        );
                    }
                }
            } else if is_at(tokens, p, TokenKind::RightSquare) {
                lemma_index_nested(tokens, start, used_base, base.span(), pos, p);
            }
        }
    }
}

/// The expressions of a list that parses are nested and lie within the span
/// of the tokens consumed.
pub proof fn lemma_expression_list_nested(tokens: Seq<TokenView>, pos: nat, close: TokenKind)
    requires
        spans_ordered(tokens),
    ensures
        list_nested(tokens, pos, expression_list(tokens, pos, close)),
    decreases remaining(tokens, pos), 50nat,
{
    unfold_expression_list(tokens, pos, close);
    lemma_expression_list_ends(tokens, pos, close);
    let parsed = expression_list(tokens, pos, close);
    if !is_at(tokens, pos, close) {
        let item = expression(tokens, pos);
        if let Ok(first) = item.result {
            if let Ok(found) = parsed.result {
                let outer = range_span(tokens, pos, parsed.used);
                lemma_expression_nested(tokens, pos);
                lemma_expression_fits(tokens, pos);
                lemma_fits_within_range(tokens, pos, item.used, first.span());
                lemma_range_grows(tokens, pos, parsed.used, pos, item.used);
                let p = pos + item.used;
                if is_at(tokens, p, TokenKind::Comma) {
                    lemma_expression_list_nested(tokens, p + 1, close);
                    lemma_expression_list_ends(tokens, p + 1, close);
                    let rest = expression_list(tokens, p + 1, close);
                    lemma_range_grows(tokens, pos, parsed.used, p + 1, rest.used);
                    let others = rest.result->Ok_0.0;
                    assert forall|i: int| 0 <= i < found.0.len() implies nested_within(
                        #[trigger] found.0[i],
                        outer,
                    ) by {
                        if i > 0 {
                            assert(found.0[i] == others[i - 1]);
                        }
                    }
                }
            }
        }
    }
}

/// An array element that parses is nested and lies within the span of the
/// tokens consumed.
pub proof fn lemma_spread_nested(tokens: Seq<TokenView>, pos: nat)
    requires
        spans_ordered(tokens),
    ensures
        spread_or_expression(tokens, pos).result matches Ok(element) ==> ({
            &&& spread_or_expression(tokens, pos).used >= 1
            &&& pos + spread_or_expression(tokens, pos).used <= tokens.len()
            &&& nested_within(
                element.inner(),
                range_span(tokens, pos, spread_or_expression(tokens, pos).used),
            )
        }),
    decreases remaining(tokens, pos), 50nat,
{
    unfold_spread_or_expression(tokens, pos);
    let parsed = spread_or_expression(tokens, pos);
    if parsed.result is Ok {
        let from = if is_at(tokens, pos, TokenKind::DotDotDot) {
            pos + 1
        } else {
            pos
        };
        let inner = expression(tokens, from);
        lemma_expression_nested(tokens, from);
        lemma_expression_fits(tokens, from);
        lemma_fits_within_range(tokens, from, inner.used, inner.result->Ok_0.span());
        lemma_range_grows(tokens, pos, parsed.used, from, inner.used);
    }
}

/// The array elements of a list that parses are nested and lie within the
/// span of the tokens consumed.
pub proof fn lemma_array_items_nested(tokens: Seq<TokenView>, pos: nat)
    requires
        spans_ordered(tokens),
    ensures
        elements_nested(tokens, pos, array_items(tokens, pos)),
        elements_nested(tokens, pos, array_elements(tokens, pos)),
    decreases remaining(tokens, pos), 52nat,
{
    unfold_array_items(tokens, pos);
    unfold_array_elements(tokens, pos);
    lemma_array_items_end(tokens, pos);
    let parsed = array_items(tokens, pos);
    let item = spread_or_expression(tokens, pos);
    if let Ok(first) = item.result {
        if let Ok(found) = parsed.result {
            let outer = range_span(tokens, pos, parsed.used);
            lemma_spread_nested(tokens, pos);
            lemma_range_grows(tokens, pos, parsed.used, pos, item.used);
            let p = pos + item.used;
            if is_at(tokens, p, TokenKind::Comma) {
                lemma_array_items_nested(tokens, p + 1);
                lemma_array_items_end(tokens, p + 1);
                let rest = array_elements(tokens, p + 1);
                lemma_range_grows(tokens, pos, parsed.used, p + 1, rest.used);
                let others = rest.result->Ok_0.0;
                assert forall|i: int| 0 <= i < found.0.len() implies nested_within(
                    (#[trigger] found.0[i]).inner(),
                    outer,
                ) by {
                    if i > 0 {
                        assert(found.0[i] == others[i - 1]);
                    }
                }
            }
        }
    }
}

/// An array literal that parses is nested.
pub proof fn lemma_array_literal_nested(tokens: Seq<TokenView>, pos: nat, open: Span)
    requires
        spans_ordered(tokens),
        1 <= pos <= tokens.len(),
        open == tokens[pos - 1].span,
    ensures
        parse_nested(array_literal(tokens, pos, open)),
    decreases remaining(tokens, pos), 54nat,
{
    unfold_array_literal(tokens, pos, open);
    reveal(array_repeat);
    let parsed = array_literal(tokens, pos, open);
    lemma_token_fits(tokens, (pos - 1) as nat);
    if !is_at(tokens, pos, TokenKind::RightSquare) {
        let first = spread_or_expression(tokens, pos);
        if let Ok(element) = first.result {
            if let Ok(node) = parsed.result {
                lemma_spread_nested(tokens, pos);
                lemma_array_literal_ends(tokens, pos, open);
                let last = pos + parsed.used - 1;
                let span = open.merge(tokens[last].span);
                lemma_range_closes(tokens, (pos - 1) as nat, 1, open, pos, parsed.used);
                lemma_range_grows(tokens, pos, parsed.used, pos, first.used);
                let p = pos + first.used;
                if !is_at(tokens, p, TokenKind::Semicolon) {
                    unfold_array_rest(tokens, p);
                    let rest = array_rest(tokens, p);
                    let others = rest.result->Ok_0.0;
                    if !is_at(tokens, p, TokenKind::RightSquare) {
                        lemma_array_items_nested(tokens, p + 1);
                        lemma_array_items_end(tokens, p + 1);
                        let items = array_items(tokens, p + 1);
                        lemma_range_grows(tokens, pos, parsed.used, p + 1, items.used);
                    }
                    let elements = seq![element] + others;
                    assert forall|i: int| 0 <= i < elements.len() implies (
                    #[trigger] elements[i]).inner().span().within(span) && spans_nested(
                        elements[i].inner(),
                    ) by {
                        if i > 0 {
                            assert(elements[i] == others[i - 1]);
                        }
                    }
                }
            }
        }
    }
}

/// The fields of a circuit initializer that parses lie within the span of
/// the tokens consumed, with nested values.
pub proof fn lemma_circuit_members_nested(tokens: Seq<TokenView>, pos: nat)
    requires
        spans_ordered(tokens),
    ensures
        members_nested(tokens, pos, circuit_members(tokens, pos)),
    decreases remaining(tokens, pos), 50nat,
{
    unfold_circuit_members(tokens, pos);
    lemma_circuit_members_end(tokens, pos);
    let parsed = circuit_members(tokens, pos);
    if !is_at(tokens, pos, TokenKind::RightCurly) && is_at(tokens, pos, TokenKind::Ident) {
        if let Ok(found) = parsed.result {
            let outer = range_span(tokens, pos, parsed.used);
            lemma_range_grows(tokens, pos, parsed.used, pos, 1);
            let value_used = if is_at(tokens, pos + 1, TokenKind::Colon) {
                let value = expression(tokens, pos + 2);
                lemma_expression_nested(tokens, pos + 2);
                lemma_expression_fits(tokens, pos + 2);
                lemma_fits_within_range(tokens, pos + 2, value.used, value.result->Ok_0.span());
                lemma_range_grows(tokens, pos, parsed.used, pos + 2, value.used);
                2 + value.used
            } else {
                1
            };
            let p = pos + value_used;
            assert(member_within(found.0[0], outer));
            if is_at(tokens, p, TokenKind::Comma) {
                lemma_circuit_members_nested(tokens, p + 1);
                lemma_circuit_members_end(tokens, p + 1);
                let rest = circuit_members(tokens, p + 1);
                lemma_range_grows(tokens, pos, parsed.used, p + 1, rest.used);
                let others = rest.result->Ok_0.0;
                assert forall|i: int| 0 <= i < found.0.len() implies member_within(
                    #[trigger] found.0[i],
                    outer,
                ) by {
                    if i > 0 {
                        assert(found.0[i] == others[i - 1]);
                    }
                }
            }
        }
    }
}

/// A name, or the circuit initializer that it opens, is nested.
pub proof fn lemma_named_nested(tokens: Seq<TokenView>, pos: nat, fuzzy: bool, name: IdentifierView)
    requires
        spans_ordered(tokens),
        1 <= pos <= tokens.len(),
        name.span == tokens[pos - 1].span,
    ensures
        parse_nested(named(tokens, pos, fuzzy, name)),
    decreases remaining(tokens, pos), 52nat,
{
    unfold_named(tokens, pos, fuzzy, name);
    if !fuzzy && is_at(tokens, pos, TokenKind::LeftCurly) {
        unfold_circuit_init(tokens, pos, name);
        lemma_circuit_members_nested(tokens, pos + 1);
        lemma_circuit_members_end(tokens, pos + 1);
        let list = circuit_members(tokens, pos + 1);
        if let Ok(found) = list.result {
            lemma_token_fits(tokens, (pos - 1) as nat);
            lemma_range_closes(tokens, (pos - 1) as nat, 1, name.span, pos + 1, list.used);
            let span = name.span.merge(found.1);
            assert forall|i: int| 0 <= i < found.0.len() implies {
                &&& (#[trigger] found.0[i]).identifier.span.within(span)
                &&& found.0[i].expression matches Some(value) ==> value.span().within(span)
                    && spans_nested(value)
            } by {
                assert(member_within(found.0[i], range_span(tokens, pos + 1, list.used)));
            }
        }
    }
}

/// What stands in parentheses is nested.
pub proof fn lemma_parenthesis_nested(tokens: Seq<TokenView>, pos: nat, open: Span)
    requires
        spans_ordered(tokens),
        pos >= 1,
        is_at(tokens, (pos - 1) as nat, TokenKind::LeftParen),
        open == tokens[pos - 1].span,
    ensures
        parse_nested(parenthesis(tokens, pos, open)),
    decreases remaining(tokens, pos), 51nat,
{
    unfold_parenthesis(tokens, pos, open);
    lemma_token_fits(tokens, (pos - 1) as nat);
    match group_partial(tokens, pos) {
        Some(pair) => {
            let last = pos + pair.used - 1;
            let span = open.merge(pair.span);
            lemma_range_closes(tokens, (pos - 1) as nat, 1, open, pos, pair.used);
            let x = group_coordinate(tokens, pos)->Some_0;
            let y_at = pos + x.1 + 1;
            let y = group_coordinate(tokens, y_at)->Some_0;
            lemma_range_grows(tokens, pos, pair.used, pos, x.1);
            lemma_range_grows(tokens, pos, pair.used, y_at, y.1);
            assert(tokens[pos as int].span.start <= tokens[pos as int].span.end);
            assert(tokens[y_at as int].span.start <= tokens[y_at as int].span.end);
            if x.1 == 2 {
                assert(tokens[pos as int].span.end <= tokens[(pos + 1) as int].span.start);
                assert(tokens[(pos + 1) as int].span.start <= tokens[(pos + 1) as int].span.end);
            }
            if y.1 == 2 {
                assert(tokens[y_at as int].span.end <= tokens[(y_at + 1) as int].span.start);
                assert(tokens[(y_at + 1) as int].span.start <= tokens[(y_at + 1) as int].span.end);
            }
            assert(tokens[last].span.start <= tokens[last].span.end);
            assert(coordinate_within(pair.x, range_span(tokens, pos, pair.used)));
            assert(coordinate_within(pair.y, range_span(tokens, pos, pair.used)));
        },
        None => {
            lemma_expression_list_nested(tokens, pos, TokenKind::RightParen);
            lemma_expression_list_ends(tokens, pos, TokenKind::RightParen);
            let list = expression_list(tokens, pos, TokenKind::RightParen);
            if let Ok(found) = list.result {
                if found.0.len() == 1 {
                    assert(nested_within(found.0[0], range_span(tokens, pos, list.used)));
                } else {
                    lemma_range_closes(tokens, (pos - 1) as nat, 1, open, pos, list.used);
                    let span = open.merge(found.1);
                    assert forall|i: int| 0 <= i < found.0.len() implies (
                    #[trigger] found.0[i]).span().within(span) && spans_nested(found.0[i]) by {
                        assert(nested_within(found.0[i], range_span(tokens, pos, list.used)));
                    }
                }
            }
        },
    }
}

/// As [`lemma_expression_nested`], for a primary expression.
pub proof fn lemma_primary_nested(tokens: Seq<TokenView>, pos: nat, fuzzy: bool)
    requires
        spans_ordered(tokens),
    ensures
        parse_nested(primary(tokens, pos, fuzzy)),
    decreases remaining(tokens, pos), 11nat,
{
    unfold_primary(tokens, pos, fuzzy);
    if pos < tokens.len() {
        let token = tokens[pos as int];
        match token.kind {
            TokenKind::Int => {
                reveal(integer_literal);
            },
            TokenKind::Address => {
                reveal(address_call);
            },
            TokenKind::LeftParen => {
                lemma_parenthesis_nested(tokens, pos + 1, token.span);
            },
            TokenKind::LeftSquare => {
                lemma_array_literal_nested(tokens, pos + 1, token.span);
            },
            TokenKind::Ident => {
                lemma_named_nested(tokens, pos + 1, fuzzy, identifier_at(tokens, pos));
            },
            TokenKind::BigSelf => {
                lemma_named_nested(
                    tokens,
                    pos + 1,
                    fuzzy,
                    IdentifierView { name: "Self"@, span: token.span },
                );
            },
            TokenKind::Input => {
                lemma_named_nested(
                    tokens,
                    pos + 1,
                    fuzzy,
                    IdentifierView { name: "input"@, span: token.span },
                );
            },
            TokenKind::LittleSelf => {
                lemma_named_nested(
                    tokens,
                    pos + 1,
                    fuzzy,
                    IdentifierView { name: "self"@, span: token.span },
                );
            },
            _ => {},
        }
    }
}

/// The span of every node of a parsed expression covers the spans of the
/// node's children.
pub proof fn law_spans_nested(tokens: Seq<TokenView>, pos: nat, fuzzy: bool)
    requires
        spans_ordered(tokens),
    ensures
        expression(tokens, pos).result matches Ok(e) ==> spans_nested(e),
        expression_fuzzy(tokens, pos, fuzzy).result matches Ok(e) ==> spans_nested(e),
{
    lemma_expression_nested(tokens, pos);
    lemma_expression_fuzzy_nested(tokens, pos, fuzzy);
}

} // verus!
