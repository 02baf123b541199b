//! The grammar of expressions, as functions on a sequence of tokens.
//!
//! Each function takes the tokens and a position and says what a parse that
//! starts there yields: an expression or an error, and how many tokens it
//! consumes on the way. A failed parse consumes the tokens up to the point of
//! failure.
//!
//! The functions of the expression grammar are defined by recursion on the
//! number of tokens left and, at one position, on a rank: a function calls
//! only functions of lower rank before a token is consumed. The ranks fall
//! from the loosest construct to the tightest: 40 for an expression, 39 for
//! a ternary, 37 down to 18 for the binary levels and their operands, 17
//! and 16 for powers and casts, 14 to 11 for prefix operators, accesses and
//! primaries. What is entered only after a token was consumed (lists, the
//! inside of brackets, initializers) has a rank from 50 on. The functions
//! are opaque; [`crate::unfold`] has a lemma for one step of each.

use vstd::prelude::*;
use crate::ast::{
    BinaryOperation, CircuitImpliedVariableDefinitionView, ExpressionView, GroupCoordinateView,
    GroupValueView, IdentifierView, IntegerType, SpreadOrExpressionView, TypeView, UnaryOperation,
    ValueView,
};
use crate::errors::{Expected, SyntaxErrorView};
use crate::span::Span;
use crate::token::{TokenKind, TokenView};

verus! {

/// The outcome of a parse: its result and the number of tokens consumed.
pub struct Parsed<T> {
    pub result: Result<T, SyntaxErrorView>,
    pub used: nat,
}

impl<T> Parsed<T> {
    /// The same outcome, reached after `n` tokens were consumed before it.
    pub open spec fn after(self, n: nat) -> Parsed<T> {
        Parsed { result: self.result, used: n + self.used }
    }
}

pub open spec fn success<T>(value: T, used: nat) -> Parsed<T> {
    Parsed { result: Ok(value), used }
}

pub open spec fn failure<T>(error: SyntaxErrorView, used: nat) -> Parsed<T> {
    Parsed { result: Err(error), used }
}

/// A list outcome with `prefix` in front of its items and `used` more
/// tokens consumed before it.
pub open spec fn prepend<T>(prefix: Seq<T>, used: nat, rest: Parsed<Seq<T>>) -> Parsed<Seq<T>> {
    match rest.result {
        Ok(items) => success(prefix + items, used + rest.used),
        Err(e) => failure(e, used + rest.used),
    }
}

/// As [`prepend`], for a list that comes with the span of its closing token.
pub open spec fn prepend_closed<T>(prefix: Seq<T>, used: nat, rest: Parsed<(Seq<T>, Span)>)
    -> Parsed<(Seq<T>, Span)> {
    match rest.result {
        Ok(found) => success((prefix + found.0, found.1), used + rest.used),
        Err(e) => failure(e, used + rest.used),
    }
}

/// The number of tokens from `pos` on.
pub open spec fn remaining(tokens: Seq<TokenView>, pos: nat) -> nat {
    if pos <= tokens.len() {
        (tokens.len() - pos) as nat
    } else {
        0
    }
}

/// Whether a token of the given kind stands at `pos`.
pub open spec fn is_at(tokens: Seq<TokenView>, pos: nat, kind: TokenKind) -> bool {
    pos < tokens.len() && tokens[pos as int].kind == kind
}

/// The span that an end-of-input error reports: that of the last token.
pub open spec fn end_span(tokens: Seq<TokenView>) -> Span {
    if tokens.len() > 0 {
        tokens.last().span
    } else {
        Span { start: 0, end: 0 }
    }
}

pub open spec fn end_of_input(tokens: Seq<TokenView>) -> SyntaxErrorView {
    SyntaxErrorView::UnexpectedEof { span: end_span(tokens) }
}

/// The error for finding something other than `expected` at `pos`.
pub open spec fn unexpected(tokens: Seq<TokenView>, pos: nat, expected: Expected)
    -> SyntaxErrorView {
    if pos < tokens.len() {
        SyntaxErrorView::UnexpectedToken { found: tokens[pos as int], expected }
    } else {
        end_of_input(tokens)
    }
}

/// Requires a token of the given kind at `pos` and yields its span.
pub open spec fn expect(tokens: Seq<TokenView>, pos: nat, kind: TokenKind) -> Parsed<Span> {
    if is_at(tokens, pos, kind) {
        success(tokens[pos as int].span, 1)
    } else {
        failure(unexpected(tokens, pos, Expected::Token(kind)), 0)
    }
}

/// The identifier that the token at `pos` spells.
pub open spec fn identifier_at(tokens: Seq<TokenView>, pos: nat) -> IdentifierView {
    IdentifierView { name: tokens[pos as int].text, span: tokens[pos as int].span }
}

/// Requires an identifier at `pos`.
pub open spec fn expect_identifier(tokens: Seq<TokenView>, pos: nat) -> Parsed<IdentifierView> {
    if is_at(tokens, pos, TokenKind::Ident) {
        success(identifier_at(tokens, pos), 1)
    } else {
        failure(unexpected(tokens, pos, Expected::Identifier), 0)
    }
}

/// The text of a numeral with a minus sign in front.
pub open spec fn negated(text: Seq<char>) -> Seq<char> {
    seq!['-'] + text
}

// ---------------------------------------------------------------------------
// Types and array dimensions
// ---------------------------------------------------------------------------

/// The integer type that a type keyword names.
pub open spec fn integer_type(kind: TokenKind) -> Option<IntegerType> {
    match kind {
        TokenKind::I8 => Some(IntegerType::I8),
        TokenKind::I16 => Some(IntegerType::I16),
        TokenKind::I32 => Some(IntegerType::I32),
        TokenKind::I64 => Some(IntegerType::I64),
        TokenKind::I128 => Some(IntegerType::I128),
        TokenKind::U8 => Some(IntegerType::U8),
        TokenKind::U16 => Some(IntegerType::U16),
        TokenKind::U32 => Some(IntegerType::U32),
        TokenKind::U64 => Some(IntegerType::U64),
        TokenKind::U128 => Some(IntegerType::U128),
        _ => None,
    }
}

/// The type that a single keyword names.
pub open spec fn keyword_type(kind: TokenKind) -> Option<TypeView> {
    match kind {
        TokenKind::Field => Some(TypeView::Field),
        TokenKind::Group => Some(TypeView::Group),
        TokenKind::Address => Some(TypeView::Address),
        TokenKind::Bool => Some(TypeView::Boolean),
        _ => match integer_type(kind) {
            Some(t) => Some(TypeView::IntegerType(t)),
            None => None,
        },
    }
}

/// `int (, int)*`: the sizes inside a parenthesized dimension list.
pub open spec fn dimension_list(tokens: Seq<TokenView>, pos: nat) -> Parsed<Seq<Seq<char>>>
    decreases remaining(tokens, pos),
{
    if is_at(tokens, pos, TokenKind::Int) {
        let first = tokens[pos as int].text;
        if is_at(tokens, pos + 1, TokenKind::Comma) {
            let rest = dimension_list(tokens, pos + 2);
            match rest.result {
                Err(e) => failure(e, 2 + rest.used),
                Ok(sizes) => success(seq![first] + sizes, 2 + rest.used),
            }
        } else {
            success(seq![first], 1)
        }
    } else {
        failure(unexpected(tokens, pos, Expected::Integer), 0)
    }
}

/// `int` or `( int (, int)* )`.
pub open spec fn array_dimensions(tokens: Seq<TokenView>, pos: nat) -> Parsed<Seq<Seq<char>>> {
    if is_at(tokens, pos, TokenKind::Int) {
        success(seq![tokens[pos as int].text], 1)
    } else {
        match expect(tokens, pos, TokenKind::LeftParen).result {
            Err(e) => failure(e, 0),
            Ok(_) => {
                let list = dimension_list(tokens, pos + 1);
                match list.result {
                    Err(e) => failure(e, 1 + list.used),
                    Ok(sizes) => match expect(
                        tokens,
                        pos + 1 + list.used,
                        TokenKind::RightParen,
                    ).result {
                        Err(e) => failure(e, 1 + list.used),
                        Ok(_) => success(sizes, 1 + list.used + 1),
                    },
                }
            },
        }
    }
}

/// A type annotation with its span.
#[verifier::opaque]
pub open spec fn type_annotation(tokens: Seq<TokenView>, pos: nat) -> Parsed<(TypeView, Span)>
    decreases remaining(tokens, pos), 0nat,
{
    if pos >= tokens.len() {
        failure(end_of_input(tokens), 0)
    } else {
        let token = tokens[pos as int];
        match token.kind {
            TokenKind::BigSelf => success((TypeView::SelfType, token.span), 1),
            TokenKind::Ident => success(
                (TypeView::Circuit(identifier_at(tokens, pos)), token.span),
                1,
            ),
            TokenKind::LeftParen => {
                let list = type_list(tokens, pos + 1);
                match list.result {
                    Err(e) => failure(e, 1 + list.used),
                    Ok(found) => success(
                        (TypeView::Tuple(found.0), token.span.merge(found.1)),
                        1 + list.used,
                    ),
                }
            },
            TokenKind::LeftSquare => {
                let inner = type_annotation(tokens, pos + 1);
                match inner.result {
                    Err(e) => failure(e, 1 + inner.used),
                    Ok(element) => {
                        let semicolon = pos + 1 + inner.used;
                        match expect(tokens, semicolon, TokenKind::Semicolon).result {
                            Err(e) => failure(e, 1 + inner.used),
                            Ok(_) => {
                                let sizes = array_dimensions(tokens, semicolon + 1);
                                let close = semicolon + 1 + sizes.used;
                                match sizes.result {
                                    Err(e) => failure(e, (close - pos) as nat),
                                    Ok(dimensions) => match expect(
                                        tokens,
                                        close,
                                        TokenKind::RightSquare,
                                    ).result {
                                        Err(e) => failure(e, (close - pos) as nat),
                                        Ok(end) => success(
                                            (
                                                TypeView::Array(Box::new(element.0), dimensions),
                                                token.span.merge(end),
                                            ),
                                            (close + 1 - pos) as nat,
                                        ),
                                    },
                                }
                            },
                        }
                    },
                }
            },
            kind => match keyword_type(kind) {
                Some(t) => success((t, token.span), 1),
                None => failure(unexpected(tokens, pos, Expected::Type), 0),
            },
        }
    }
}

/// The types of a tuple type up to and including the closing parenthesis,
/// with the span of that parenthesis. A comma may follow the last type.
#[verifier::opaque]
pub open spec fn type_list(tokens: Seq<TokenView>, pos: nat) -> Parsed<(Seq<TypeView>, Span)>
    decreases remaining(tokens, pos), 1nat,
{
    if is_at(tokens, pos, TokenKind::RightParen) {
        success((Seq::empty(), tokens[pos as int].span), 1)
    } else {
        let item = type_annotation(tokens, pos);
        match item.result {
            Err(e) => failure(e, item.used),
            Ok(first) => {
                let p = pos + item.used;
                if is_at(tokens, p, TokenKind::Comma) {
                    let rest = type_list(tokens, p + 1);
                    match rest.result {
                        Err(e) => failure(e, item.used + 1 + rest.used),
                        Ok(found) => success(
                            (seq![first.0] + found.0, found.1),
                            item.used + 1 + rest.used,
                        ),
                    }
                } else {
                    match expect(tokens, p, TokenKind::RightParen).result {
                        Err(e) => failure(e, item.used),
                        Ok(end) => success((seq![first.0], end), item.used + 1),
                    }
                }
            },
        }
    }
}

// ---------------------------------------------------------------------------
// Literals
// ---------------------------------------------------------------------------

/// A numeral at `pos`, with the type suffix that may follow it.
#[verifier::opaque]
pub open spec fn integer_literal(tokens: Seq<TokenView>, pos: nat) -> Parsed<ExpressionView>
    recommends
        is_at(tokens, pos, TokenKind::Int),
{
    let token = tokens[pos as int];
    if pos + 1 < tokens.len() {
        let suffix = tokens[(pos + 1) as int];
        let span = token.span.merge(suffix.span);
        match suffix.kind {
            TokenKind::Field => success(
                ExpressionView::Value(ValueView::Field { value: token.text, span }),
                2,
            ),
            TokenKind::Group => success(
                ExpressionView::Value(
                    ValueView::Group(GroupValueView::Single { value: token.text, span }),
                ),
                2,
            ),
            kind => match integer_type(kind) {
                Some(int_type) => success(
                    ExpressionView::Value(ValueView::Integer { int_type, value: token.text, span }),
                    2,
                ),
                None => success(
                    ExpressionView::Value(
                        ValueView::Implicit { value: token.text, span: token.span },
                    ),
                    1,
                ),
            },
        }
    } else {
        success(
            ExpressionView::Value(ValueView::Implicit { value: token.text, span: token.span }),
            1,
        )
    }
}

/// `address ( literal )`, with the keyword at `pos`.
#[verifier::opaque]
pub open spec fn address_call(tokens: Seq<TokenView>, pos: nat) -> Parsed<ExpressionView>
    recommends
        is_at(tokens, pos, TokenKind::Address),
{
    match expect(tokens, pos + 1, TokenKind::LeftParen).result {
        Err(e) => failure(e, 1),
        Ok(_) => if pos + 2 >= tokens.len() {
            failure(end_of_input(tokens), 2)
        } else if tokens[(pos + 2) as int].kind != TokenKind::AddressLit {
            failure(unexpected(tokens, pos + 2, Expected::AddressLiteral), 3)
        } else {
            match expect(tokens, pos + 3, TokenKind::RightParen).result {
                Err(e) => failure(e, 3),
                Ok(end) => success(
                    ExpressionView::Value(
                        ValueView::Address {
                            value: tokens[(pos + 2) as int].text,
                            span: tokens[pos as int].span.merge(end),
                        },
                    ),
                    4,
                ),
            }
        },
    }
}

/// One coordinate of a group pair, and the number of tokens it takes.
pub open spec fn group_coordinate(tokens: Seq<TokenView>, pos: nat) -> Option<
    (GroupCoordinateView, nat),
> {
    if pos >= tokens.len() {
        None
    } else {
        let token = tokens[pos as int];
        match token.kind {
            TokenKind::Add => Some((GroupCoordinateView::SignHigh, 1nat)),
            TokenKind::Minus => if is_at(tokens, pos + 1, TokenKind::Int) {
                Some(
                    (
                        GroupCoordinateView::Number {
                            value: negated(tokens[(pos + 1) as int].text),
                            span: token.span.merge(tokens[(pos + 1) as int].span),
                        },
                        2nat,
                    ),
                )
            } else {
                Some((GroupCoordinateView::SignLow, 1nat))
            },
            TokenKind::Ident => if token.text == seq!['_'] {
                Some((GroupCoordinateView::Inferred, 1nat))
            } else {
                None
            },
            TokenKind::Int => Some(
                (GroupCoordinateView::Number { value: token.text, span: token.span }, 1nat),
            ),
            _ => None,
        }
    }
}

/// What follows the `(` of a group pair: `x , y ) group`.
pub struct GroupPartial {
    pub x: GroupCoordinateView,
    pub y: GroupCoordinateView,
    /// From the first coordinate to the keyword.
    pub span: Span,
    pub used: nat,
}

/// The group pair that starts at `pos`, if the tokens there spell one.
pub open spec fn group_partial(tokens: Seq<TokenView>, pos: nat) -> Option<GroupPartial> {
    match group_coordinate(tokens, pos) {
        None => None,
        Some(x) => if !is_at(tokens, pos + x.1, TokenKind::Comma) {
            None
        } else {
            match group_coordinate(tokens, pos + x.1 + 1) {
                None => None,
                Some(y) => {
                    let p = pos + x.1 + 1 + y.1;
                    if is_at(tokens, p, TokenKind::RightParen) && is_at(
                        tokens,
                        p + 1,
                        TokenKind::Group,
                    ) {
                        Some(
                            GroupPartial {
                                x: x.0,
                                y: y.0,
                                span: tokens[pos as int].span.merge(tokens[(p + 1) as int].span),
                                used: x.1 + 1 + y.1 + 2,
                            },
                        )
                    } else {
                        None
                    }
                },
            }
        },
    }
}

// ---------------------------------------------------------------------------
// Operators
// ---------------------------------------------------------------------------

/// The left-associative binary levels, loosest first.
#[derive(Clone, Copy, Debug, PartialEq, Eq, Structural)]
pub enum Level {
    Or,
    And,
    BitOr,
    BitXor,
    BitAnd,
    Equality,
    Relational,
    Shift,
    Additive,
    Multiplicative,
}

impl Level {
    /// How tightly the level binds: 0 for the loosest.
    pub open spec fn tightness(self) -> nat {
        match self {
            Level::Or => 0,
            Level::And => 1,
            Level::BitOr => 2,
            Level::BitXor => 3,
            Level::BitAnd => 4,
            Level::Equality => 5,
            Level::Relational => 6,
            Level::Shift => 7,
            Level::Additive => 8,
            Level::Multiplicative => 9,
        }
    }

    /// The next tighter level; none after the multiplicative one, whose
    /// operands are exponentiations.
    pub open spec fn tighter(self) -> Option<Level> {
        match self {
            Level::Or => Some(Level::And),
            Level::And => Some(Level::BitOr),
            Level::BitOr => Some(Level::BitXor),
            Level::BitXor => Some(Level::BitAnd),
            Level::BitAnd => Some(Level::Equality),
            Level::Equality => Some(Level::Relational),
            Level::Relational => Some(Level::Shift),
            Level::Shift => Some(Level::Additive),
            Level::Additive => Some(Level::Multiplicative),
            Level::Multiplicative => None,
        }
    }

    /// The operator of this level that a token kind stands for.
    pub open spec fn operator(self, kind: TokenKind) -> Option<BinaryOperation> {
        match (self, kind) {
            (Level::Or, TokenKind::Or) => Some(BinaryOperation::Or),
            (Level::And, TokenKind::And) => Some(BinaryOperation::And),
            (Level::BitOr, TokenKind::BitOr) => Some(BinaryOperation::BitOr),
            (Level::BitXor, TokenKind::BitXor) => Some(BinaryOperation::BitXor),
            (Level::BitAnd, TokenKind::BitAnd) => Some(BinaryOperation::BitAnd),
            (Level::Equality, TokenKind::Eq) => Some(BinaryOperation::Eq),
            (Level::Equality, TokenKind::NotEq) => Some(BinaryOperation::Ne),
            (Level::Relational, TokenKind::Lt) => Some(BinaryOperation::Lt),
            (Level::Relational, TokenKind::LtEq) => Some(BinaryOperation::Le),
            (Level::Relational, TokenKind::Gt) => Some(BinaryOperation::Gt),
            (Level::Relational, TokenKind::GtEq) => Some(BinaryOperation::Ge),
            (Level::Shift, TokenKind::Shl) => Some(BinaryOperation::Shl),
            (Level::Shift, TokenKind::Shr) => Some(BinaryOperation::Shr),
            (Level::Shift, TokenKind::ShrSigned) => Some(BinaryOperation::ShrSigned),
            (Level::Additive, TokenKind::Add) => Some(BinaryOperation::Add),
            (Level::Additive, TokenKind::Minus) => Some(BinaryOperation::Sub),
            (Level::Multiplicative, TokenKind::Mul) => Some(BinaryOperation::Mul),
            (Level::Multiplicative, TokenKind::Div) => Some(BinaryOperation::Div),
            (Level::Multiplicative, TokenKind::Mod) => Some(BinaryOperation::Mod),
            _ => None,
        }
    }

    /// The operator of this level at `pos`, if one stands there.
    pub open spec fn operator_at(self, tokens: Seq<TokenView>, pos: nat) -> Option<
        BinaryOperation,
    > {
        if pos < tokens.len() {
            self.operator(tokens[pos as int].kind)
        } else {
            None
        }
    }
}

/// The prefix operator that a token kind stands for.
pub open spec fn prefix_operator(kind: TokenKind) -> Option<UnaryOperation> {
    match kind {
        TokenKind::Not => Some(UnaryOperation::Not),
        TokenKind::Minus => Some(UnaryOperation::Negate),
        TokenKind::BitNot => Some(UnaryOperation::BitNot),
        _ => None,
    }
}

/// The node for two operands joined by a binary operator.
pub open spec fn binary_node(op: BinaryOperation, left: ExpressionView, right: ExpressionView)
    -> ExpressionView {
    ExpressionView::Binary {
        op,
        left: Box::new(left),
        right: Box::new(right),
        span: left.span().merge(right.span()),
    }
}

/// A prefix operator written at `op_span` applied to `operand`. A minus in
/// front of a numeral becomes part of the numeral.
#[verifier::opaque]
pub open spec fn prefix_node(op: UnaryOperation, op_span: Span, operand: ExpressionView)
    -> ExpressionView {
    match (op, operand) {
        (
            UnaryOperation::Negate,
            ExpressionView::Value(ValueView::Integer { int_type, value, span }),
        ) => ExpressionView::Value(
            ValueView::Integer { int_type, value: negated(value), span: op_span.merge(span) },
        ),
        (
            UnaryOperation::Negate,
            ExpressionView::Value(ValueView::Implicit { value, span }),
        ) => ExpressionView::Value(
            ValueView::Implicit { value: negated(value), span: op_span.merge(span) },
        ),
        _ => ExpressionView::Unary {
            op,
            inner: Box::new(operand),
            span: op_span.merge(operand.span()),
        },
    }
}

/// What a parenthesized list of expressions stands for: the expression
/// itself when there is exactly one, a tuple otherwise.
pub open spec fn parenthesized(items: Seq<ExpressionView>, open: Span, close: Span)
    -> ExpressionView {
    if items.len() == 1 {
        items[0]
    } else {
        ExpressionView::TupleInit { elements: items, span: open.merge(close) }
    }
}

// ---------------------------------------------------------------------------
// Expressions
// ---------------------------------------------------------------------------

/// An expression in which a circuit initializer may follow a name.
#[verifier::opaque]
pub open spec fn expression(tokens: Seq<TokenView>, pos: nat) -> Parsed<ExpressionView>
    decreases remaining(tokens, pos), 40nat,
{
    expression_fuzzy(tokens, pos, false)
}

/// A ternary expression, or what is below it. With `fuzzy` set, a `{` after
/// a name is left alone, except inside brackets and in the middle branch.
#[verifier::opaque]
pub open spec fn expression_fuzzy(tokens: Seq<TokenView>, pos: nat, fuzzy: bool) -> Parsed<
    ExpressionView,
>
    decreases remaining(tokens, pos), 39nat,
{
    let first = binary(Level::Or, tokens, pos, fuzzy);
    match first.result {
        Err(_) => first,
        Ok(condition) => {
            let question = pos + first.used;
            if is_at(tokens, question, TokenKind::Question) {
                let middle = expression(tokens, question + 1);
                let colon = question + 1 + middle.used;
                match middle.result {
                    Err(e) => failure(e, (colon - pos) as nat),
                    Ok(if_true) => match expect(tokens, colon, TokenKind::Colon).result {
                        Err(e) => failure(e, (colon - pos) as nat),
                        Ok(_) => {
                            let last = expression_fuzzy(tokens, colon + 1, fuzzy);
                            let end = colon + 1 + last.used;
                            match last.result {
                                Err(e) => failure(e, (end - pos) as nat),
                                Ok(if_false) => success(
                                    ExpressionView::Ternary {
                                        condition: Box::new(condition),
                                        if_true: Box::new(if_true),
                                        if_false: Box::new(if_false),
                                        span: condition.span().merge(if_false.span()),
                                    },
                                    (end - pos) as nat,
                                ),
                            }
                        },
                    },
                }
            } else {
                first
            }
        },
    }
}

/// An operand of a binary level: an expression of the next tighter level.
#[verifier::opaque]
pub open spec fn operand(level: Level, tokens: Seq<TokenView>, pos: nat, fuzzy: bool) -> Parsed<
    ExpressionView,
>
    decreases remaining(tokens, pos), 36 - 2 * level.tightness(),
{
    match level.tighter() {
        Some(next) => binary(next, tokens, pos, fuzzy),
        None => exponent(tokens, pos, fuzzy),
    }
}

/// A chain of operands joined by operators of one level, grouped to the left.
#[verifier::opaque]
pub open spec fn binary(level: Level, tokens: Seq<TokenView>, pos: nat, fuzzy: bool) -> Parsed<
    ExpressionView,
>
    decreases remaining(tokens, pos), 37 - 2 * level.tightness(),
{
    let first = operand(level, tokens, pos, fuzzy);
    match first.result {
        Err(_) => first,
        Ok(left) => binary_tail(level, tokens, pos + first.used, fuzzy, left).after(first.used),
    }
}

/// The rest of a chain of one level, with `left` standing for what was read
/// so far.
#[verifier::opaque]
pub open spec fn binary_tail(
    level: Level,
    tokens: Seq<TokenView>,
    pos: nat,
    fuzzy: bool,
    left: ExpressionView,
) -> Parsed<ExpressionView>
    decreases remaining(tokens, pos), 36 - 2 * level.tightness(),
{
    match level.operator_at(tokens, pos) {
        None => success(left, 0),
        Some(op) => {
            let next = operand(level, tokens, pos + 1, fuzzy);
            match next.result {
                Err(_) => next.after(1),
                Ok(right) => binary_tail(
                    level,
                    tokens,
                    pos + 1 + next.used,
                    fuzzy,
                    binary_node(op, left, right),
                ).after(1 + next.used),
            }
        },
    }
}

/// A chain of casts joined by the power operator, grouped to the right.
#[verifier::opaque]
pub open spec fn exponent(tokens: Seq<TokenView>, pos: nat, fuzzy: bool) -> Parsed<ExpressionView>
    decreases remaining(tokens, pos), 17nat,
{
    let first = cast(tokens, pos, fuzzy);
    match first.result {
        Err(_) => first,
        Ok(base) => exponent_tail(tokens, pos + first.used, fuzzy, base).after(first.used),
    }
}

/// The power that may follow `base`: the whole rest of the chain is the
/// exponent.
#[verifier::opaque]
pub open spec fn exponent_tail(
    tokens: Seq<TokenView>,
    pos: nat,
    fuzzy: bool,
    base: ExpressionView,
) -> Parsed<ExpressionView>
    decreases remaining(tokens, pos), 16nat,
{
    if is_at(tokens, pos, TokenKind::Exp) {
        let rest = exponent(tokens, pos + 1, fuzzy);
        match rest.result {
            Err(_) => rest.after(1),
            Ok(power) => success(binary_node(BinaryOperation::Pow, base, power), 1 + rest.used),
        }
    } else {
        success(base, 0)
    }
}

/// A unary expression followed by any number of `as type`.
#[verifier::opaque]
pub open spec fn cast(tokens: Seq<TokenView>, pos: nat, fuzzy: bool) -> Parsed<ExpressionView>
    decreases remaining(tokens, pos), 16nat,
{
    let first = unary(tokens, pos, fuzzy);
    match first.result {
        Err(_) => first,
        Ok(inner) => cast_tail(tokens, pos + first.used, inner).after(first.used),
    }
}

/// The casts that follow `inner`.
pub open spec fn cast_tail(tokens: Seq<TokenView>, pos: nat, inner: ExpressionView) -> Parsed<
    ExpressionView,
>
    decreases remaining(tokens, pos),
{
    if is_at(tokens, pos, TokenKind::As) {
        let target = type_annotation(tokens, pos + 1);
        match target.result {
            Err(e) => failure(e, 1 + target.used),
            Ok(found) => cast_tail(
                tokens,
                pos + 1 + target.used,
                ExpressionView::Cast {
                    inner: Box::new(inner),
                    target_type: found.0,
                    span: inner.span().merge(found.1),
                },
            ).after(1 + target.used),
        }
    } else {
        success(inner, 0)
    }
}

/// Any number of prefix operators in front of an access expression. The
/// operator nearest to the operand applies first.
#[verifier::opaque]
pub open spec fn unary(tokens: Seq<TokenView>, pos: nat, fuzzy: bool) -> Parsed<ExpressionView>
    decreases remaining(tokens, pos), 14nat,
{
    if pos < tokens.len() && prefix_operator(tokens[pos as int].kind) is Some {
        let inner = unary(tokens, pos + 1, fuzzy);
        match inner.result {
            Err(_) => inner.after(1),
            Ok(operand) => success(
                prefix_node(
                    prefix_operator(tokens[pos as int].kind)->Some_0,
                    tokens[pos as int].span,
                    operand,
                ),
                1 + inner.used,
            ),
        }
    } else {
        access(tokens, pos, fuzzy)
    }
}

/// A primary expression followed by any number of postfix accesses.
#[verifier::opaque]
pub open spec fn access(tokens: Seq<TokenView>, pos: nat, fuzzy: bool) -> Parsed<ExpressionView>
    decreases remaining(tokens, pos), 13nat,
{
    let first = primary(tokens, pos, fuzzy);
    match first.result {
        Err(_) => first,
        Ok(base) => access_tail(tokens, pos + first.used, base).after(first.used),
    }
}

/// The postfix accesses that follow `base`.
#[verifier::opaque]
pub open spec fn access_tail(tokens: Seq<TokenView>, pos: nat, base: ExpressionView) -> Parsed<
    ExpressionView,
>
    decreases remaining(tokens, pos), 12nat,
{
    if pos >= tokens.len() {
        success(base, 0)
    } else {
        match tokens[pos as int].kind {
            TokenKind::LeftSquare => {
                let step = index_suffix(tokens, pos + 1, base);
                match step.result {
                    Err(_) => step.after(1),
                    Ok(node) => access_tail(tokens, pos + 1 + step.used, node).after(
                        1 + step.used,
                    ),
                }
            },
            TokenKind::Dot => {
                let step = member_suffix(tokens, pos + 1, base);
                match step.result {
                    Err(_) => step.after(1),
                    Ok(node) => access_tail(tokens, pos + 1 + step.used, node).after(
                        1 + step.used,
                    ),
                }
            },
            TokenKind::LeftParen => {
                let list = expression_list(tokens, pos + 1, TokenKind::RightParen);
                match list.result {
                    Err(e) => failure(e, 1 + list.used),
                    Ok(found) => access_tail(
                        tokens,
                        pos + 1 + list.used,
                        ExpressionView::Call {
                            function: Box::new(base),
                            arguments: found.0,
                            span: base.span().merge(found.1),
                        },
                    ).after(1 + list.used),
                }
            },
            TokenKind::DoubleColon => {
                let name = expect_identifier(tokens, pos + 1);
                match name.result {
                    Err(e) => failure(e, 1),
                    Ok(name) => access_tail(
                        tokens,
                        pos + 2,
                        ExpressionView::CircuitStaticFunctionAccess {
                            circuit: Box::new(base),
                            name,
                            span: base.span().merge(name.span),
                        },
                    ).after(2),
                }
            },
            _ => success(base, 0),
        }
    }
}

/// What follows the `.` after `base`: a member name or a tuple index.
#[verifier::opaque]
pub open spec fn member_suffix(tokens: Seq<TokenView>, pos: nat, base: ExpressionView) -> Parsed<
    ExpressionView,
> {
    if is_at(tokens, pos, TokenKind::Ident) {
        success(
            ExpressionView::CircuitMemberAccess {
                circuit: Box::new(base),
                name: identifier_at(tokens, pos),
                span: base.span().merge(tokens[pos as int].span),
            },
            1,
        )
    } else if is_at(tokens, pos, TokenKind::Int) {
        success(
            ExpressionView::TupleAccess {
                tuple: Box::new(base),
                index: tokens[pos as int].text,
                span: base.span().merge(tokens[pos as int].span),
            },
            1,
        )
    } else {
        failure(unexpected(tokens, pos, Expected::IntegerOrIdentifier), 0)
    }
}

/// What follows the `[` after `base`: an index or a range, and the `]`.
#[verifier::opaque]
pub open spec fn index_suffix(tokens: Seq<TokenView>, pos: nat, base: ExpressionView) -> Parsed<
    ExpressionView,
>
    decreases remaining(tokens, pos), 51nat,
{
    if is_at(tokens, pos, TokenKind::DotDot) {
        range_end(tokens, pos + 1, base, None).after(1)
    } else {
        let left = expression(tokens, pos);
        match left.result {
            Err(_) => left,
            Ok(index) => {
                let p = pos + left.used;
                if is_at(tokens, p, TokenKind::DotDot) {
                    range_end(tokens, p + 1, base, Some(Box::new(index))).after(left.used + 1)
                } else {
                    match expect(tokens, p, TokenKind::RightSquare).result {
                        Err(e) => failure(e, left.used),
                        Ok(end) => success(
                            ExpressionView::ArrayAccess {
                                array: Box::new(base),
                                index: Box::new(index),
                                span: base.span().merge(end),
                            },
                            left.used + 1,
                        ),
                    }
                }
            },
        }
    }
}

/// What follows the `..` of a range: the upper bound, if any, and the `]`.
#[verifier::opaque]
pub open spec fn range_end(
    tokens: Seq<TokenView>,
    pos: nat,
    base: ExpressionView,
    left: Option<Box<ExpressionView>>,
) -> Parsed<ExpressionView>
    decreases remaining(tokens, pos), 50nat,
{
    if is_at(tokens, pos, TokenKind::RightSquare) {
        success(
            ExpressionView::ArrayRangeAccess {
                array: Box::new(base),
                left,
                right: None,
                span: base.span().merge(tokens[pos as int].span),
            },
            1,
        )
    } else {
        let upper = expression(tokens, pos);
        match upper.result {
            Err(_) => upper,
            Ok(right) => match expect(tokens, pos + upper.used, TokenKind::RightSquare).result {
                Err(e) => failure(e, upper.used),
                Ok(end) => success(
                    ExpressionView::ArrayRangeAccess {
                        array: Box::new(base),
                        left,
                        right: Some(Box::new(right)),
                        span: base.span().merge(end),
                    },
                    upper.used + 1,
                ),
            },
        }
    }
}

/// Expressions separated by commas, up to and including the closing token,
/// with the span of that token. A comma may follow the last expression.
#[verifier::opaque]
pub open spec fn expression_list(tokens: Seq<TokenView>, pos: nat, close: TokenKind) -> Parsed<
    (Seq<ExpressionView>, Span),
>
    decreases remaining(tokens, pos), 50nat,
{
    if is_at(tokens, pos, close) {
        success((Seq::empty(), tokens[pos as int].span), 1)
    } else {
        let item = expression(tokens, pos);
        match item.result {
            Err(e) => failure(e, item.used),
            Ok(first) => {
                let p = pos + item.used;
                if is_at(tokens, p, TokenKind::Comma) {
                    let rest = expression_list(tokens, p + 1, close);
                    match rest.result {
                        Err(e) => failure(e, item.used + 1 + rest.used),
                        Ok(found) => success(
                            (seq![first] + found.0, found.1),
                            item.used + 1 + rest.used,
                        ),
                    }
                } else {
                    match expect(tokens, p, close).result {
                        Err(e) => failure(e, item.used),
                        Ok(end) => success((seq![first], end), item.used + 1),
                    }
                }
            },
        }
    }
}

/// An expression, or `...` and an expression.
#[verifier::opaque]
pub open spec fn spread_or_expression(tokens: Seq<TokenView>, pos: nat) -> Parsed<
    SpreadOrExpressionView,
>
    decreases remaining(tokens, pos), 50nat,
{
    if is_at(tokens, pos, TokenKind::DotDotDot) {
        let inner = expression(tokens, pos + 1);
        match inner.result {
            Err(e) => failure(e, 1 + inner.used),
            Ok(e) => success(SpreadOrExpressionView::Spread(e), 1 + inner.used),
        }
    } else {
        let inner = expression(tokens, pos);
        match inner.result {
            Err(e) => failure(e, inner.used),
            Ok(e) => success(SpreadOrExpressionView::Expression(e), inner.used),
        }
    }
}

/// One array element and what follows it up to and including the `]`.
#[verifier::opaque]
pub open spec fn array_items(tokens: Seq<TokenView>, pos: nat) -> Parsed<
    (Seq<SpreadOrExpressionView>, Span),
>
    decreases remaining(tokens, pos), 51nat,
{
    let item = spread_or_expression(tokens, pos);
    match item.result {
        Err(e) => failure(e, item.used),
        Ok(first) => {
            let p = pos + item.used;
            if is_at(tokens, p, TokenKind::Comma) {
                let rest = array_elements(tokens, p + 1);
                match rest.result {
                    Err(e) => failure(e, item.used + 1 + rest.used),
                    Ok(found) => success(
                        (seq![first] + found.0, found.1),
                        item.used + 1 + rest.used,
                    ),
                }
            } else {
                match expect(tokens, p, TokenKind::RightSquare).result {
                    Err(e) => failure(e, item.used),
                    Ok(end) => success((seq![first], end), item.used + 1),
                }
            }
        },
    }
}

/// Array elements separated by commas, up to and including the `]`. A comma
/// may follow the last element.
#[verifier::opaque]
pub open spec fn array_elements(tokens: Seq<TokenView>, pos: nat) -> Parsed<
    (Seq<SpreadOrExpressionView>, Span),
>
    decreases remaining(tokens, pos), 52nat,
{
    if is_at(tokens, pos, TokenKind::RightSquare) {
        success((Seq::empty(), tokens[pos as int].span), 1)
    } else {
        array_items(tokens, pos)
    }
}

/// What follows the first element of an array literal that is no repeat:
/// the `]`, or a comma and at least one more element.
#[verifier::opaque]
pub open spec fn array_rest(tokens: Seq<TokenView>, pos: nat) -> Parsed<
    (Seq<SpreadOrExpressionView>, Span),
>
    decreases remaining(tokens, pos), 53nat,
{
    if is_at(tokens, pos, TokenKind::RightSquare) {
        success((Seq::empty(), tokens[pos as int].span), 1)
    } else {
        match expect(tokens, pos, TokenKind::Comma).result {
            Err(e) => failure(e, 0),
            Ok(_) => array_items(tokens, pos + 1).after(1),
        }
    }
}

/// What follows the first element and the `;` of a repeated-array literal.
#[verifier::opaque]
pub open spec fn array_repeat(
    tokens: Seq<TokenView>,
    pos: nat,
    open: Span,
    first: SpreadOrExpressionView,
) -> Parsed<ExpressionView> {
    let sizes = array_dimensions(tokens, pos);
    match sizes.result {
        Err(e) => failure(e, sizes.used),
        Ok(dimensions) => match expect(tokens, pos + sizes.used, TokenKind::RightSquare).result {
            Err(e) => failure(e, sizes.used),
            Ok(end) => match first {
                SpreadOrExpressionView::Spread(e) => failure(
                    SyntaxErrorView::SpreadInArrayInit { span: open.merge(e.span()) },
                    sizes.used + 1,
                ),
                SpreadOrExpressionView::Expression(e) => success(
                    ExpressionView::ArrayInit {
                        element: Box::new(e),
                        dimensions,
                        span: open.merge(end),
                    },
                    sizes.used + 1,
                ),
            },
        },
    }
}

/// An array literal after its `[`, which was written at `open`.
#[verifier::opaque]
pub open spec fn array_literal(tokens: Seq<TokenView>, pos: nat, open: Span) -> Parsed<
    ExpressionView,
>
    decreases remaining(tokens, pos), 54nat,
{
    if is_at(tokens, pos, TokenKind::RightSquare) {
        success(
            ExpressionView::ArrayInline {
                elements: Seq::empty(),
                span: open.merge(tokens[pos as int].span),
            },
            1,
        )
    } else {
        let first = spread_or_expression(tokens, pos);
        match first.result {
            Err(e) => failure(e, first.used),
            Ok(element) => {
                let p = pos + first.used;
                if is_at(tokens, p, TokenKind::Semicolon) {
                    array_repeat(tokens, p + 1, open, element).after(first.used + 1)
                } else {
                    let rest = array_rest(tokens, p);
                    match rest.result {
                        Err(e) => failure(e, first.used + rest.used),
                        Ok(found) => success(
                            ExpressionView::ArrayInline {
                                elements: seq![element] + found.0,
                                span: open.merge(found.1),
                            },
                            first.used + rest.used,
                        ),
                    }
                }
            },
        }
    }
}

/// The fields of a circuit initializer up to and including the `}`, with the
/// span of the `}`. A comma may follow the last field.
#[verifier::opaque]
pub open spec fn circuit_members(tokens: Seq<TokenView>, pos: nat) -> Parsed<
    (Seq<CircuitImpliedVariableDefinitionView>, Span),
>
    decreases remaining(tokens, pos), 50nat,
{
    if is_at(tokens, pos, TokenKind::RightCurly) {
        success((Seq::empty(), tokens[pos as int].span), 1)
    } else if !is_at(tokens, pos, TokenKind::Ident) {
        failure(unexpected(tokens, pos, Expected::Identifier), 0)
    } else {
        let identifier = identifier_at(tokens, pos);
        let value = if is_at(tokens, pos + 1, TokenKind::Colon) {
            let e = expression(tokens, pos + 2);
            match e.result {
                Err(error) => failure(error, 2 + e.used),
                Ok(e_value) => success(Some(e_value), 2 + e.used),
            }
        } else {
            success(None, 1)
        };
        match value.result {
            Err(e) => failure(e, value.used),
            Ok(expression) => {
                let member = CircuitImpliedVariableDefinitionView { identifier, expression };
                let p = pos + value.used;
                if is_at(tokens, p, TokenKind::Comma) {
                    let rest = circuit_members(tokens, p + 1);
                    match rest.result {
                        Err(e) => failure(e, value.used + 1 + rest.used),
                        Ok(found) => success(
                            (seq![member] + found.0, found.1),
                            value.used + 1 + rest.used,
                        ),
                    }
                } else {
                    match expect(tokens, p, TokenKind::RightCurly).result {
                        Err(e) => failure(e, value.used),
                        Ok(end) => success((seq![member], end), value.used + 1),
                    }
                }
            },
        }
    }
}

/// The initializer of the circuit `name`, from its `{` on.
#[verifier::opaque]
pub open spec fn circuit_init(tokens: Seq<TokenView>, pos: nat, name: IdentifierView) -> Parsed<
    ExpressionView,
>
    decreases remaining(tokens, pos), 51nat,
{
    match expect(tokens, pos, TokenKind::LeftCurly).result {
        Err(e) => failure(e, 0),
        Ok(_) => {
            let list = circuit_members(tokens, pos + 1);
            match list.result {
                Err(e) => failure(e, 1 + list.used),
                Ok(found) => success(
                    ExpressionView::CircuitInit {
                        name,
                        members: found.0,
                        span: name.span.merge(found.1),
                    },
                    1 + list.used,
                ),
            }
        },
    }
}

/// What follows a name: the initializer of the circuit of that name when
/// initializers are allowed and a `{` stands at `pos`, the name alone
/// otherwise.
#[verifier::opaque]
pub open spec fn named(tokens: Seq<TokenView>, pos: nat, fuzzy: bool, name: IdentifierView)
    -> Parsed<ExpressionView>
    decreases remaining(tokens, pos), 52nat,
{
    if !fuzzy && is_at(tokens, pos, TokenKind::LeftCurly) {
        circuit_init(tokens, pos, name)
    } else {
        success(ExpressionView::Identifier(name), 0)
    }
}

/// What stands between parentheses, after the `(` written at `open`: a group
/// pair, one expression, or the elements of a tuple.
#[verifier::opaque]
pub open spec fn parenthesis(tokens: Seq<TokenView>, pos: nat, open: Span) -> Parsed<
    ExpressionView,
>
    decreases remaining(tokens, pos), 51nat,
{
    match group_partial(tokens, pos) {
        Some(pair) => success(
            ExpressionView::Value(
                ValueView::Group(
                    GroupValueView::Tuple { x: pair.x, y: pair.y, span: open.merge(pair.span) },
                ),
            ),
            pair.used,
        ),
        None => {
            let list = expression_list(tokens, pos, TokenKind::RightParen);
            match list.result {
                Err(e) => failure(e, list.used),
                Ok(found) => success(parenthesized(found.0, open, found.1), list.used),
            }
        },
    }
}

/// A literal, a name, a circuit initializer, or an expression in brackets.
/// The keywords `Self`, `input` and `self` are names.
#[verifier::opaque]
pub open spec fn primary(tokens: Seq<TokenView>, pos: nat, fuzzy: bool) -> Parsed<ExpressionView>
    decreases remaining(tokens, pos), 11nat,
{
    if pos >= tokens.len() {
        failure(end_of_input(tokens), 0)
    } else {
        let token = tokens[pos as int];
        match token.kind {
            TokenKind::Int => integer_literal(tokens, pos),
            TokenKind::True => success(
                ExpressionView::Value(ValueView::Boolean { value: "true"@, span: token.span }),
                1,
            ),
            TokenKind::False => success(
                ExpressionView::Value(ValueView::Boolean { value: "false"@, span: token.span }),
                1,
            ),
            TokenKind::AddressLit => success(
                ExpressionView::Value(ValueView::Address { value: token.text, span: token.span }),
                1,
            ),
            TokenKind::Address => address_call(tokens, pos),
            TokenKind::LeftParen => parenthesis(tokens, pos + 1, token.span).after(1),
            TokenKind::LeftSquare => array_literal(tokens, pos + 1, token.span).after(1),
            TokenKind::Ident => named(tokens, pos + 1, fuzzy, identifier_at(tokens, pos)).after(1),
            TokenKind::BigSelf => named(
                tokens,
                pos + 1,
                fuzzy,
                IdentifierView { name: "Self"@, span: token.span },
            ).after(1),
            TokenKind::Input => named(
                tokens,
                pos + 1,
                fuzzy,
                IdentifierView { name: "input"@, span: token.span },
            ).after(1),
            TokenKind::LittleSelf => named(
                tokens,
                pos + 1,
                fuzzy,
                IdentifierView { name: "self"@, span: token.span },
            ).after(1),
            _ => failure(unexpected(tokens, pos, Expected::Expression), 1),
        }
    }
}

} // verus!
