//! What a parsed expression's span covers.
//!
//! Where the spans of the tokens are in source order, the span of a parsed
//! expression starts at one of the tokens it consumed and ends at one of
//! them. The tokens consumed before the first are opening parentheses and
//! those after the last are closing parentheses or commas: a parenthesis
//! around a single expression is not part of its span.

use vstd::prelude::*;
use crate::ast::{ExpressionView, IdentifierView, UnaryOperation};
use crate::context::ParserContext;
use crate::errors::SyntaxErrorView;
use crate::grammar::{
    access, access_tail, address_call, array_elements, array_items, array_literal, array_repeat,
    binary, binary_node, binary_tail, cast, cast_tail, circuit_members, exponent, expression,
    expression_fuzzy, expression_list, group_partial, identifier_at, index_suffix, integer_literal,
    is_at, member_suffix, named, operand, parenthesis, prefix_node, prefix_operator, primary,
    remaining, spread_or_expression, type_annotation, type_list, unary, Level, Parsed,
};
use crate::span::Span;
use crate::token::{TokenKind, TokenView};
use crate::unfold::{
    unfold_access, unfold_access_tail, unfold_array_elements, unfold_array_items,
    unfold_array_literal, unfold_array_rest, unfold_binary, unfold_binary_tail, unfold_cast,
    unfold_circuit_init, unfold_circuit_members, unfold_exponent, unfold_exponent_tail,
    unfold_expression, unfold_expression_fuzzy, unfold_expression_list, unfold_index_suffix,
    unfold_named, unfold_operand, unfold_parenthesis, unfold_primary, unfold_range_end,
    unfold_unary,
};

verus! {

/// Whether the spans of the tokens are in source order: each starts no
/// later than it ends, and ends no later than the next one starts.
pub open spec fn spans_ordered(tokens: Seq<TokenView>) -> bool {
    &&& forall|i: int|
        0 <= i < tokens.len() ==> (#[trigger] tokens[i]).span.start <= tokens[i].span.end
    &&& forall|i: int, j: int|
        0 <= i < j < tokens.len() ==> (#[trigger] tokens[i]).span.end <= (
        #[trigger] tokens[j]).span.start
}

/// Whether the spans of the first `n` tokens are in source order.
pub open spec fn prefix_ordered(tokens: Seq<TokenView>, n: int) -> bool {
    &&& forall|i: int| 0 <= i < n ==> (#[trigger] tokens[i]).span.start <= tokens[i].span.end
    &&& forall|i: int, j: int|
        0 <= i < j < n ==> (#[trigger] tokens[i]).span.end <= (#[trigger] tokens[j]).span.start
}

impl ParserContext {
    /// Whether the spans of the tokens are in source order.
    pub fn spans_in_order(&self) -> (out: bool)
        ensures
            out == spans_ordered(self.tokens()),
    {
        let n = self.token_count();
        let mut k: usize = 0;
        while k < n
            invariant
                n == self.tokens().len(),
                k <= n,
                prefix_ordered(self.tokens(), k as int),
            decreases n - k,
        {
            let span = self.span_at(k);
            if span.start > span.end {
                return false;
            }
            if k > 0 {
                let before = self.span_at(k - 1);
                if before.end > span.start {
                    return false;
                }
                assert forall|i: int| 0 <= i < k implies (#[trigger] self.tokens()[i]).span.end
                    <= span.start by {
                    if i < k - 1 {
                        assert(self.tokens()[i].span.end <= self.tokens()[k - 1].span.start);
                    }
                }
            }
            k = k + 1;
        }
        true
    }
}

/// A token that may stand after the last token of a span: a closing
/// parenthesis, or the comma before it.
pub open spec fn closes(kind: TokenKind) -> bool {
    kind == TokenKind::RightParen || kind == TokenKind::Comma
}

/// Whether `span` starts where the token at `i` starts, `i` being one of the
/// `used` tokens from `pos` on, with only opening parentheses before it.
pub open spec fn starts_at(tokens: Seq<TokenView>, pos: nat, used: nat, span: Span, i: int)
    -> bool {
    &&& pos <= i < pos + used <= tokens.len()
    &&& span.start == tokens[i].span.start
    &&& forall|k: int| pos <= k < i ==> (#[trigger] tokens[k]).kind == TokenKind::LeftParen
}

/// Whether `span` ends where the token at `j` ends, `j` being one of the
/// `used` tokens from `pos` on, with only closing tokens after it.
pub open spec fn ends_at(tokens: Seq<TokenView>, pos: nat, used: nat, span: Span, j: int) -> bool {
    &&& pos <= j < pos + used <= tokens.len()
    &&& span.end == tokens[j].span.end
    &&& forall|k: int| j < k < pos + used ==> closes((#[trigger] tokens[k]).kind)
}

/// Whether `span` is the span of the `used` tokens from `pos` on, but for
/// parentheses dropped at either end.
pub open spec fn fits(tokens: Seq<TokenView>, pos: nat, used: nat, span: Span) -> bool {
    &&& exists|i: int| starts_at(tokens, pos, used, span, i)
    &&& exists|j: int| ends_at(tokens, pos, used, span, j)
}

/// Whether the expression of a successful parse from `pos` has a span that
/// fits the tokens consumed.
pub open spec fn parse_fits(tokens: Seq<TokenView>, pos: nat, parsed: Parsed<ExpressionView>)
    -> bool {
    parsed.result matches Ok(e) ==> fits(tokens, pos, parsed.used, e.span())
}

/// Whether a successful parse of a bracketed construct from `pos` yields the
/// span from `open` to the last token consumed.
pub open spec fn closes_at_end(
    tokens: Seq<TokenView>,
    pos: nat,
    parsed: Parsed<ExpressionView>,
    open: Span,
) -> bool {
    parsed.result matches Ok(e) ==> {
        &&& parsed.used >= 1
        &&& pos + parsed.used <= tokens.len()
        &&& e.span() == open.merge(tokens[pos + parsed.used - 1].span)
    }
}

/// Whether a successful parse of a list from `pos` ends with the closing
/// token and yields its span.
pub open spec fn list_ends<T>(tokens: Seq<TokenView>, pos: nat, parsed: Parsed<(Seq<T>, Span)>)
    -> bool {
    parsed.result matches Ok(found) ==> {
        &&& parsed.used >= 1
        &&& pos + parsed.used <= tokens.len()
        &&& found.1 == tokens[pos + parsed.used - 1].span
        &&& (found.0.len() == 0 ==> parsed.used == 1)
    }
}

/// A token's span fits the token.
pub proof fn lemma_token_fits(tokens: Seq<TokenView>, pos: nat)
    requires
        pos < tokens.len(),
    ensures
        fits(tokens, pos, 1, tokens[pos as int].span),
{
    assert(starts_at(tokens, pos, 1, tokens[pos as int].span, pos as int));
    assert(ends_at(tokens, pos, 1, tokens[pos as int].span, pos as int));
}

/// The union of two spans that fit two runs of tokens, one after the other,
/// fits the tokens from the start of the first run to the end of the second.
pub proof fn lemma_join_fits(
    tokens: Seq<TokenView>,
    pos: nat,
    used_a: nat,
    a: Span,
    next: nat,
    used_b: nat,
    b: Span,
)
    requires
        spans_ordered(tokens),
        fits(tokens, pos, used_a, a),
        fits(tokens, next, used_b, b),
        pos + used_a <= next,
    ensures
        fits(tokens, pos, (next + used_b - pos) as nat, a.merge(b)),
{
    let total = (next + used_b - pos) as nat;
    let i = choose|i: int| starts_at(tokens, pos, used_a, a, i);
    let ja = choose|j: int| ends_at(tokens, pos, used_a, a, j);
    let ib = choose|i: int| starts_at(tokens, next, used_b, b, i);
    let j = choose|j: int| ends_at(tokens, next, used_b, b, j);
    assert(tokens[i].span.start <= tokens[i].span.end);
    assert(tokens[i].span.end <= tokens[ib].span.start);
    assert(tokens[ja].span.end <= tokens[j].span.start);
    assert(tokens[j].span.start <= tokens[j].span.end);
    assert(starts_at(tokens, pos, total, a.merge(b), i));
    assert(ends_at(tokens, pos, total, a.merge(b), j));
}

/// The union of the spans of two tokens fits the tokens from the one to the
/// other.
pub proof fn lemma_bracket_fits(tokens: Seq<TokenView>, first: nat, last: nat)
    requires
        spans_ordered(tokens),
        first < last < tokens.len(),
    ensures
        fits(
            tokens,
            first,
            (last + 1 - first) as nat,
            tokens[first as int].span.merge(tokens[last as int].span),
        ),
{
    lemma_token_fits(tokens, first);
    lemma_token_fits(tokens, last);
    lemma_join_fits(
        tokens,
        first,
        1,
        tokens[first as int].span,
        last,
        1,
        tokens[last as int].span,
    );
}

/// A span that fits a run of tokens also fits the run with an opening
/// parenthesis before it and closing tokens after it.
pub proof fn lemma_wrap_fits(tokens: Seq<TokenView>, pos: nat, used: nat, span: Span, after: nat)
    requires
        pos >= 1,
        fits(tokens, pos, used, span),
        tokens[pos - 1].kind == TokenKind::LeftParen,
        pos + used + after <= tokens.len(),
        forall|k: int| pos + used <= k < pos + used + after ==> closes((#[trigger] tokens[k]).kind),
    ensures
        fits(tokens, (pos - 1) as nat, 1 + used + after, span),
{
    let i = choose|i: int| starts_at(tokens, pos, used, span, i);
    let j = choose|j: int| ends_at(tokens, pos, used, span, j);
    assert(starts_at(tokens, (pos - 1) as nat, 1 + used + after, span, i));
    assert(ends_at(tokens, (pos - 1) as nat, 1 + used + after, span, j));
}

/// The span of a prefix node runs from the operator to the end of the
/// operand, whether or not the operator is folded into a numeral.
pub proof fn lemma_prefix_span(op: UnaryOperation, op_span: Span, operand: ExpressionView)
    ensures
        prefix_node(op, op_span, operand).span() == op_span.merge(operand.span()),
{
    reveal(prefix_node);
}

/// A type list that parses ends with its `)`.
pub proof fn lemma_type_list_ends(tokens: Seq<TokenView>, pos: nat)
    ensures
        list_ends(tokens, pos, type_list(tokens, pos)),
    decreases remaining(tokens, pos),
{
    reveal(type_list);
    reveal(type_annotation);
    if !is_at(tokens, pos, TokenKind::RightParen) {
        let item = type_annotation(tokens, pos);
        if item.result is Ok && is_at(tokens, pos + item.used, TokenKind::Comma) {
            lemma_type_list_ends(tokens, pos + item.used + 1);
        }
    }
}

/// The span of a parsed type fits the tokens consumed.
pub proof fn lemma_type_fits(tokens: Seq<TokenView>, pos: nat)
    requires
        spans_ordered(tokens),
    ensures
        type_annotation(tokens, pos).result matches Ok(found) ==> fits(
            tokens,
            pos,
            type_annotation(tokens, pos).used,
            found.1,
        ),
{
    reveal(type_annotation);
    reveal(type_list);
    let parsed = type_annotation(tokens, pos);
    if parsed.result is Ok {
        lemma_token_fits(tokens, pos);
        if tokens[pos as int].kind == TokenKind::LeftParen {
            lemma_type_list_ends(tokens, pos + 1);
            lemma_bracket_fits(tokens, pos, (pos + parsed.used - 1) as nat);
        } else if tokens[pos as int].kind == TokenKind::LeftSquare {
            lemma_bracket_fits(tokens, pos, (pos + parsed.used - 1) as nat);
        }
    }
}

/// An expression list that parses ends with its closing token. If it holds
/// one expression, that is the expression parsed at its start, and only
/// closing tokens follow it.
pub proof fn lemma_expression_list_ends(tokens: Seq<TokenView>, pos: nat, close: TokenKind)
    ensures
        list_ends(tokens, pos, expression_list(tokens, pos, close)),
        expression_list(tokens, pos, close).result matches Ok(found) ==> (found.0.len() == 1 ==> {
            let item = expression(tokens, pos);
            let used = expression_list(tokens, pos, close).used;
            &&& item.result == Ok::<ExpressionView, SyntaxErrorView>(found.0[0])
            &&& item.used < used
            &&& forall|k: int|
                pos + item.used <= k < pos + used ==> (#[trigger] tokens[k]).kind == close
                    || tokens[k].kind == TokenKind::Comma
        }),
    decreases remaining(tokens, pos),
{
    unfold_expression_list(tokens, pos, close);
    if !is_at(tokens, pos, close) {
        let item = expression(tokens, pos);
        if item.result is Ok && is_at(tokens, pos + item.used, TokenKind::Comma) {
            lemma_expression_list_ends(tokens, pos + item.used + 1, close);
            unfold_expression_list(tokens, pos + item.used + 1, close);
        }
    }
}

/// A list of circuit fields that parses ends with its `}`.
pub proof fn lemma_circuit_members_end(tokens: Seq<TokenView>, pos: nat)
    ensures
        list_ends(tokens, pos, circuit_members(tokens, pos)),
    decreases remaining(tokens, pos),
{
    unfold_circuit_members(tokens, pos);
    if !is_at(tokens, pos, TokenKind::RightCurly) && is_at(tokens, pos, TokenKind::Ident) {
        let value_used = if is_at(tokens, pos + 1, TokenKind::Colon) {
            2 + expression(tokens, pos + 2).used
        } else {
            1
        };
        if is_at(tokens, pos + value_used, TokenKind::Comma) {
            lemma_circuit_members_end(tokens, pos + value_used + 1);
        }
    }
}

/// Array elements that parse end with their `]`.
pub proof fn lemma_array_items_end(tokens: Seq<TokenView>, pos: nat)
    ensures
        list_ends(tokens, pos, array_items(tokens, pos)),
        list_ends(tokens, pos, array_elements(tokens, pos)),
    decreases remaining(tokens, pos),
{
    unfold_array_items(tokens, pos);
    unfold_array_elements(tokens, pos);
    let item = spread_or_expression(tokens, pos);
    if item.result is Ok && is_at(tokens, pos + item.used, TokenKind::Comma) {
        lemma_array_items_end(tokens, pos + item.used + 1);
    }
}

/// An array literal that parses has the span from its `[` to its `]`.
pub proof fn lemma_array_literal_ends(tokens: Seq<TokenView>, pos: nat, open: Span)
    ensures
        closes_at_end(tokens, pos, array_literal(tokens, pos, open), open),
{
    unfold_array_literal(tokens, pos, open);
    reveal(array_repeat);
    if !is_at(tokens, pos, TokenKind::RightSquare) {
        let first = spread_or_expression(tokens, pos);
        if first.result is Ok {
            let p = pos + first.used;
            if !is_at(tokens, p, TokenKind::Semicolon) {
                unfold_array_rest(tokens, p);
                if !is_at(tokens, p, TokenKind::RightSquare) {
                    lemma_array_items_end(tokens, p + 1);
                }
            }
        }
    }
}

/// An access in brackets that parses has the span from the start of its
/// base to its `]`.
pub proof fn lemma_index_suffix_ends(tokens: Seq<TokenView>, pos: nat, base: ExpressionView)
    ensures
        closes_at_end(tokens, pos, index_suffix(tokens, pos, base), base.span()),
{
    unfold_index_suffix(tokens, pos, base);
    unfold_range_end(tokens, pos + 1, base, None);
    let left = expression(tokens, pos);
    if let Ok(index) = left.result {
        unfold_range_end(tokens, pos + left.used + 1, base, Some(Box::new(index)));
    }
}

/// The span of every expression that parses fits the tokens consumed.
pub proof fn lemma_expression_fits(tokens: Seq<TokenView>, pos: nat)
    requires
        spans_ordered(tokens),
    ensures
        parse_fits(tokens, pos, expression(tokens, pos)),
    decreases remaining(tokens, pos), 40nat,
{
    unfold_expression(tokens, pos);
    lemma_expression_fuzzy_fits(tokens, pos, false);
}

/// As [`lemma_expression_fits`], for a ternary expression in either mode.
pub proof fn lemma_expression_fuzzy_fits(tokens: Seq<TokenView>, pos: nat, fuzzy: bool)
    requires
        spans_ordered(tokens),
    ensures
        parse_fits(tokens, pos, expression_fuzzy(tokens, pos, fuzzy)),
    decreases remaining(tokens, pos), 39nat,
{
    unfold_expression_fuzzy(tokens, pos, fuzzy);
    lemma_binary_fits(Level::Or, tokens, pos, fuzzy);
    let first = binary(Level::Or, tokens, pos, fuzzy);
    if let Ok(condition) = first.result {
        let question = pos + first.used;
        if is_at(tokens, question, TokenKind::Question) {
            let middle = expression(tokens, question + 1);
            let colon = question + 1 + middle.used;
            if middle.result is Ok && is_at(tokens, colon, TokenKind::Colon) {
                lemma_expression_fuzzy_fits(tokens, colon + 1, fuzzy);
                let last = expression_fuzzy(tokens, colon + 1, fuzzy);
                if let Ok(if_false) = last.result {
                    lemma_join_fits(
                        tokens,
                        pos,
                        first.used,
                        condition.span(),
                        colon + 1,
                        last.used,
                        if_false.span(),
                    );
                }
            }
        }
    }
}

/// As [`lemma_expression_fits`], for an operand of a binary level.
pub proof fn lemma_operand_fits(level: Level, tokens: Seq<TokenView>, pos: nat, fuzzy: bool)
    requires
        spans_ordered(tokens),
    ensures
        parse_fits(tokens, pos, operand(level, tokens, pos, fuzzy)),
    decreases remaining(tokens, pos), 36 - 2 * level.tightness(),
{
    unfold_operand(level, tokens, pos, fuzzy);
    match level.tighter() {
        Some(next) => lemma_binary_fits(next, tokens, pos, fuzzy),
        None => lemma_exponent_fits(tokens, pos, fuzzy),
    }
}

/// As [`lemma_expression_fits`], for a binary level.
pub proof fn lemma_binary_fits(level: Level, tokens: Seq<TokenView>, pos: nat, fuzzy: bool)
    requires
        spans_ordered(tokens),
    ensures
        parse_fits(tokens, pos, binary(level, tokens, pos, fuzzy)),
    decreases remaining(tokens, pos), 37 - 2 * level.tightness(),
{
    unfold_binary(level, tokens, pos, fuzzy);
    lemma_operand_fits(level, tokens, pos, fuzzy);
    let first = operand(level, tokens, pos, fuzzy);
    if let Ok(left) = first.result {
        lemma_binary_tail_fits(level, tokens, pos, pos + first.used, fuzzy, left);
    }
}

/// The rest of a binary chain, after a left operand that fits the tokens
/// from `start` to `pos`, yields an expression that fits the tokens from
/// `start` on.
pub proof fn lemma_binary_tail_fits(
    level: Level,
    tokens: Seq<TokenView>,
    start: nat,
    pos: nat,
    fuzzy: bool,
    left: ExpressionView,
)
    requires
        spans_ordered(tokens),
        start <= pos,
        fits(tokens, start, (pos - start) as nat, left.span()),
    ensures
        parse_fits(
            tokens,
            start,
            binary_tail(level, tokens, pos, fuzzy, left).after((pos - start) as nat),
        ),
    decreases remaining(tokens, pos), 36 - 2 * level.tightness(),
{
    unfold_binary_tail(level, tokens, pos, fuzzy, left);
    if let Some(op) = level.operator_at(tokens, pos) {
        lemma_operand_fits(level, tokens, pos + 1, fuzzy);
        let next = operand(level, tokens, pos + 1, fuzzy);
        if let Ok(right) = next.result {
            lemma_join_fits(
                tokens,
                start,
                (pos - start) as nat,
                left.span(),
                pos + 1,
                next.used,
                right.span(),
            );
            lemma_binary_tail_fits(
                level,
                tokens,
                start,
                pos + 1 + next.used,
                fuzzy,
                binary_node(op, left, right),
            );
        }
    }
}

/// As [`lemma_expression_fits`], for a chain of powers.
pub proof fn lemma_exponent_fits(tokens: Seq<TokenView>, pos: nat, fuzzy: bool)
    requires
        spans_ordered(tokens),
    ensures
        parse_fits(tokens, pos, exponent(tokens, pos, fuzzy)),
    decreases remaining(tokens, pos), 17nat,
{
    unfold_exponent(tokens, pos, fuzzy);
    lemma_cast_fits(tokens, pos, fuzzy);
    let first = cast(tokens, pos, fuzzy);
    if let Ok(base) = first.result {
        let p = pos + first.used;
        unfold_exponent_tail(tokens, p, fuzzy, base);
        if is_at(tokens, p, TokenKind::Exp) {
            lemma_exponent_fits(tokens, p + 1, fuzzy);
            let rest = exponent(tokens, p + 1, fuzzy);
            if let Ok(power) = rest.result {
                lemma_join_fits(
                    tokens,
                    pos,
                    first.used,
                    base.span(),
                    p + 1,
                    rest.used,
                    power.span(),
                );
            }
        }
    }
}

/// As [`lemma_expression_fits`], for a unary expression with its casts.
pub proof fn lemma_cast_fits(tokens: Seq<TokenView>, pos: nat, fuzzy: bool)
    requires
        spans_ordered(tokens),
    ensures
        parse_fits(tokens, pos, cast(tokens, pos, fuzzy)),
    decreases remaining(tokens, pos), 16nat,
{
    unfold_cast(tokens, pos, fuzzy);
    lemma_unary_fits(tokens, pos, fuzzy);
    let first = unary(tokens, pos, fuzzy);
    if let Ok(inner) = first.result {
        lemma_cast_tail_fits(tokens, pos, pos + first.used, inner);
    }
}

/// The casts after an expression that fits the tokens from `start` to `pos`
/// yield an expression that fits the tokens from `start` on.
pub proof fn lemma_cast_tail_fits(
    tokens: Seq<TokenView>,
    start: nat,
    pos: nat,
    inner: ExpressionView,
)
    requires
        spans_ordered(tokens),
        start <= pos,
        fits(tokens, start, (pos - start) as nat, inner.span()),
    ensures
        parse_fits(tokens, start, cast_tail(tokens, pos, inner).after((pos - start) as nat)),
    decreases remaining(tokens, pos),
{
    if is_at(tokens, pos, TokenKind::As) {
        lemma_type_fits(tokens, pos + 1);
        let target = type_annotation(tokens, pos + 1);
        if let Ok(found) = target.result {
            lemma_join_fits(
                tokens,
                start,
                (pos - start) as nat,
                inner.span(),
                pos + 1,
                target.used,
                found.1,
            );
            lemma_cast_tail_fits(
                tokens,
                start,
                pos + 1 + target.used,
                ExpressionView::Cast {
                    inner: Box::new(inner),
                    target_type: found.0,
                    span: inner.span().merge(found.1),
                },
            );
        }
    }
}

/// As [`lemma_expression_fits`], for an access expression under prefix
/// operators.
pub proof fn lemma_unary_fits(tokens: Seq<TokenView>, pos: nat, fuzzy: bool)
    requires
        spans_ordered(tokens),
    ensures
        parse_fits(tokens, pos, unary(tokens, pos, fuzzy)),
    decreases remaining(tokens, pos), 14nat,
{
    unfold_unary(tokens, pos, fuzzy);
    if pos < tokens.len() && prefix_operator(tokens[pos as int].kind) is Some {
        lemma_unary_fits(tokens, pos + 1, fuzzy);
        let inner = unary(tokens, pos + 1, fuzzy);
        if let Ok(operand) = inner.result {
            lemma_prefix_span(
                prefix_operator(tokens[pos as int].kind)->Some_0,
                tokens[pos as int].span,
                operand,
            );
            lemma_token_fits(tokens, pos);
            lemma_join_fits(
                tokens,
                pos,
                1,
                tokens[pos as int].span,
                pos + 1,
                inner.used,
                operand.span(),
            );
        }
    } else {
        lemma_access_fits(tokens, pos, fuzzy);
    }
}

/// As [`lemma_expression_fits`], for a primary expression with its accesses.
pub proof fn lemma_access_fits(tokens: Seq<TokenView>, pos: nat, fuzzy: bool)
    requires
        spans_ordered(tokens),
    ensures
        parse_fits(tokens, pos, access(tokens, pos, fuzzy)),
    decreases remaining(tokens, pos), 13nat,
{
    unfold_access(tokens, pos, fuzzy);
    lemma_primary_fits(tokens, pos, fuzzy);
    let first = primary(tokens, pos, fuzzy);
    if let Ok(base) = first.result {
        lemma_access_tail_fits(tokens, pos, pos + first.used, base);
    }
}

/// The span of `base` joined with the token at `last` fits the tokens from
/// `start` to `last`, where the span of `base` fits tokens before `last`.
pub proof fn lemma_closed_access_fits(
    tokens: Seq<TokenView>,
    start: nat,
    pos: nat,
    base: Span,
    last: nat,
)
    requires
        spans_ordered(tokens),
        start <= pos <= last < tokens.len(),
        fits(tokens, start, (pos - start) as nat, base),
    ensures
        fits(tokens, start, (last + 1 - start) as nat, base.merge(tokens[last as int].span)),
{
    lemma_token_fits(tokens, last);
    lemma_join_fits(tokens, start, (pos - start) as nat, base, last, 1, tokens[last as int].span);
}

/// The accesses after an expression that fits the tokens from `start` to
/// `pos` yield an expression that fits the tokens from `start` on.
pub proof fn lemma_access_tail_fits(
    tokens: Seq<TokenView>,
    start: nat,
    pos: nat,
    base: ExpressionView,
)
    requires
        spans_ordered(tokens),
        start <= pos,
        fits(tokens, start, (pos - start) as nat, base.span()),
    ensures
        parse_fits(tokens, start, access_tail(tokens, pos, base).after((pos - start) as nat)),
    decreases remaining(tokens, pos),
{
    unfold_access_tail(tokens, pos, base);
    if pos < tokens.len() {
        match tokens[pos as int].kind {
            TokenKind::LeftSquare => {
                lemma_index_suffix_ends(tokens, pos + 1, base);
                let step = index_suffix(tokens, pos + 1, base);
                if let Ok(node) = step.result {
                    lemma_closed_access_fits(
                        tokens,
                        start,
                        pos,
                        base.span(),
                        (pos + step.used) as nat,
                    );
                    lemma_access_tail_fits(tokens, start, pos + 1 + step.used, node);
                }
            },
            TokenKind::Dot => {
                reveal(member_suffix);
                let step = member_suffix(tokens, pos + 1, base);
                if let Ok(node) = step.result {
                    lemma_closed_access_fits(tokens, start, pos, base.span(), pos + 1);
                    lemma_access_tail_fits(tokens, start, pos + 1 + step.used, node);
                }
            },
            TokenKind::LeftParen => {
                lemma_expression_list_ends(tokens, pos + 1, TokenKind::RightParen);
                let list = expression_list(tokens, pos + 1, TokenKind::RightParen);
                if let Ok(found) = list.result {
                    lemma_closed_access_fits(
                        tokens,
                        start,
                        pos,
                        base.span(),
                        (pos + list.used) as nat,
                    );
                    lemma_access_tail_fits(
                        tokens,
                        start,
                        pos + 1 + list.used,
                        ExpressionView::Call {
                            function: Box::new(base),
                            arguments: found.0,
                            span: base.span().merge(found.1),
                        },
                    );
                }
            },
            TokenKind::DoubleColon => {
                if is_at(tokens, pos + 1, TokenKind::Ident) {
                    let name = identifier_at(tokens, pos + 1);
                    lemma_closed_access_fits(tokens, start, pos, base.span(), pos + 1);
                    lemma_access_tail_fits(
                        tokens,
                        start,
                        pos + 2,
                        ExpressionView::CircuitStaticFunctionAccess {
                            circuit: Box::new(base),
                            name,
                            span: base.span().merge(name.span),
                        },
                    );
                }
            },
            _ => {},
        }
    }
}

/// What stands in parentheses fits the tokens from the `(` on: as a group
/// pair or a tuple with the parentheses, as a single expression without.
pub proof fn lemma_parenthesis_fits(tokens: Seq<TokenView>, pos: nat, open: Span)
    requires
        spans_ordered(tokens),
        pos >= 1,
        is_at(tokens, (pos - 1) as nat, TokenKind::LeftParen),
        open == tokens[pos - 1].span,
    ensures
        parse_fits(tokens, (pos - 1) as nat, parenthesis(tokens, pos, open).after(1)),
    decreases remaining(tokens, pos), 51nat,
{
    unfold_parenthesis(tokens, pos, open);
    let parsed = parenthesis(tokens, pos, open);
    match group_partial(tokens, pos) {
        Some(pair) => {
            lemma_bracket_fits(tokens, pos, (pos + pair.used - 1) as nat);
            lemma_token_fits(tokens, (pos - 1) as nat);
            lemma_join_fits(tokens, (pos - 1) as nat, 1, open, pos, pair.used, pair.span);
        },
        None => {
            lemma_expression_list_ends(tokens, pos, TokenKind::RightParen);
            let list = expression_list(tokens, pos, TokenKind::RightParen);
            if let Ok(found) = list.result {
                if found.0.len() == 1 {
                    lemma_expression_fits(tokens, pos);
                    let item = expression(tokens, pos);
                    lemma_wrap_fits(
                        tokens,
                        pos,
                        item.used,
                        found.0[0].span(),
                        (list.used - item.used) as nat,
                    );
                } else {
                    lemma_bracket_fits(tokens, (pos - 1) as nat, (pos + list.used - 1) as nat);
                }
            }
        },
    }
}

/// A name, or the circuit initializer that it opens, fits the tokens from
/// the name on.
pub proof fn lemma_named_fits(tokens: Seq<TokenView>, pos: nat, fuzzy: bool, name: IdentifierView)
    requires
        spans_ordered(tokens),
        1 <= pos <= tokens.len(),
        name.span == tokens[pos - 1].span,
    ensures
        parse_fits(tokens, (pos - 1) as nat, named(tokens, pos, fuzzy, name).after(1)),
{
    unfold_named(tokens, pos, fuzzy, name);
    lemma_token_fits(tokens, (pos - 1) as nat);
    if !fuzzy && is_at(tokens, pos, TokenKind::LeftCurly) {
        unfold_circuit_init(tokens, pos, name);
        lemma_circuit_members_end(tokens, pos + 1);
        let list = circuit_members(tokens, pos + 1);
        if list.result is Ok {
            lemma_bracket_fits(tokens, (pos - 1) as nat, (pos + list.used) as nat);
        }
    }
}

/// As [`lemma_expression_fits`], for a primary expression.
pub proof fn lemma_primary_fits(tokens: Seq<TokenView>, pos: nat, fuzzy: bool)
    requires
        spans_ordered(tokens),
    ensures
        parse_fits(tokens, pos, primary(tokens, pos, fuzzy)),
    decreases remaining(tokens, pos), 11nat,
{
    unfold_primary(tokens, pos, fuzzy);
    if pos < tokens.len() {
        let token = tokens[pos as int];
        lemma_token_fits(tokens, pos);
        match token.kind {
            TokenKind::Int => {
                reveal(integer_literal);
                if pos + 1 < tokens.len() {
                    lemma_bracket_fits(tokens, pos, pos + 1);
                }
            },
            TokenKind::Address => {
                reveal(address_call);
                if address_call(tokens, pos).result is Ok {
                    lemma_bracket_fits(tokens, pos, pos + 3);
                }
            },
            TokenKind::LeftParen => {
                lemma_parenthesis_fits(tokens, pos + 1, token.span);
            },
            TokenKind::LeftSquare => {
                lemma_array_literal_ends(tokens, pos + 1, token.span);
                let parsed = array_literal(tokens, pos + 1, token.span);
                if parsed.result is Ok {
                    lemma_bracket_fits(tokens, pos, (pos + parsed.used) as nat);
                }
            },
            TokenKind::Ident => {
                lemma_named_fits(tokens, pos + 1, fuzzy, identifier_at(tokens, pos));
            },
            TokenKind::BigSelf => {
                lemma_named_fits(
                    tokens,
                    pos + 1,
                    fuzzy,
                    IdentifierView { name: "Self"@, span: token.span },
                );
            },
            TokenKind::Input => {
                lemma_named_fits(
                    tokens,
                    pos + 1,
                    fuzzy,
                    IdentifierView { name: "input"@, span: token.span },
                );
            },
            TokenKind::LittleSelf => {
                lemma_named_fits(
                    tokens,
                    pos + 1,
                    fuzzy,
                    IdentifierView { name: "self"@, span: token.span },
                );
            },
            _ => {},
        }
    }
}

/// A span that fits a run of tokens starts where the first of them starts,
/// unless that token is an opening parenthesis, and ends where the last of
/// them ends, unless that token is a closing parenthesis or a comma.
pub proof fn lemma_fits_is_exact(tokens: Seq<TokenView>, pos: nat, used: nat, span: Span)
    requires
        fits(tokens, pos, used, span),
    ensures
        used >= 1,
        pos + used <= tokens.len(),
        tokens[pos as int].kind != TokenKind::LeftParen ==> span.start
            == tokens[pos as int].span.start,
        !closes(tokens[pos + used - 1].kind) ==> span.end == tokens[pos + used - 1].span.end,
{
    let i = choose|i: int| starts_at(tokens, pos, used, span, i);
    let j = choose|j: int| ends_at(tokens, pos, used, span, j);
    if tokens[pos as int].kind != TokenKind::LeftParen {
        assert(i == pos);
    }
    if !closes(tokens[pos + used - 1].kind) {
        assert(j == pos + used - 1);
    }
}

/// The span of a parsed expression starts where the first token consumed
/// starts, unless that token is an opening parenthesis, and ends where the
/// last token consumed ends, unless that token is a closing parenthesis or
/// a comma.
pub proof fn law_span_round_trip(tokens: Seq<TokenView>, pos: nat)
    requires
        spans_ordered(tokens),
        expression(tokens, pos).result is Ok,
    ensures
        ({
            let parsed = expression(tokens, pos);
            let span = parsed.result->Ok_0.span();
            let last = pos + parsed.used - 1;
            &&& parsed.used >= 1
            &&& pos + parsed.used <= tokens.len()
            &&& tokens[pos as int].kind != TokenKind::LeftParen ==> span.start
                == tokens[pos as int].span.start
            &&& !closes(tokens[last].kind) ==> span.end == tokens[last].span.end
        }),
{
    lemma_expression_fits(tokens, pos);
    let parsed = expression(tokens, pos);
    lemma_fits_is_exact(tokens, pos, parsed.used, parsed.result->Ok_0.span());
}

/// As [`law_span_round_trip`], for an expression parsed in either mode.
pub proof fn law_span_round_trip_fuzzy(tokens: Seq<TokenView>, pos: nat, fuzzy: bool)
    requires
        spans_ordered(tokens),
        expression_fuzzy(tokens, pos, fuzzy).result is Ok,
    ensures
        ({
            let parsed = expression_fuzzy(tokens, pos, fuzzy);
            let span = parsed.result->Ok_0.span();
            let last = pos + parsed.used - 1;
            &&& parsed.used >= 1
            &&& pos + parsed.used <= tokens.len()
            &&& tokens[pos as int].kind != TokenKind::LeftParen ==> span.start
                == tokens[pos as int].span.start
            &&& !closes(tokens[last].kind) ==> span.end == tokens[last].span.end
        }),
{
    lemma_expression_fuzzy_fits(tokens, pos, fuzzy);
    let parsed = expression_fuzzy(tokens, pos, fuzzy);
    lemma_fits_is_exact(tokens, pos, parsed.used, parsed.result->Ok_0.span());
}

} // verus!
