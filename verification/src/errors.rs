//! Parse errors.

use vstd::prelude::*;
use crate::span::Span;
use crate::token::{Token, TokenKind, TokenView};

verus! {

/// What the parser was looking for when it gave up.
#[derive(Clone, Copy, Debug, PartialEq, Eq, Structural)]
pub enum Expected {
    Token(TokenKind),
    Identifier,
    Integer,
    IntegerOrIdentifier,
    AddressLiteral,
    Expression,
    Type,
}

/// Why a parse failed.
#[derive(Clone, Debug, PartialEq, Eq)]
pub enum SyntaxError {
    /// The tokens ran out. The span is that of the last token.
    UnexpectedEof { span: Span },
    /// A token that cannot stand where it was found.
    UnexpectedToken { found: Token, expected: Expected },
    /// A spread element before the `;` of a repeated-array literal.
    SpreadInArrayInit { span: Span },
}

pub enum SyntaxErrorView {
    UnexpectedEof { span: Span },
    UnexpectedToken { found: TokenView, expected: Expected },
    SpreadInArrayInit { span: Span },
}

impl View for SyntaxError {
    type V = SyntaxErrorView;

    open spec fn view(&self) -> SyntaxErrorView {
        match self {
            SyntaxError::UnexpectedEof { span } => SyntaxErrorView::UnexpectedEof { span: *span },
            SyntaxError::UnexpectedToken { found, expected } => SyntaxErrorView::UnexpectedToken {
                found: found@,
                expected: *expected,
            },
            SyntaxError::SpreadInArrayInit { span } => SyntaxErrorView::SpreadInArrayInit {
                span: *span,
            },
        }
    }
}

impl SyntaxErrorView {
    /// The place in the source that the error points at.
    pub open spec fn span(self) -> Span {
        match self {
            SyntaxErrorView::UnexpectedEof { span } => span,
            SyntaxErrorView::UnexpectedToken { found, .. } => found.span,
            SyntaxErrorView::SpreadInArrayInit { span } => span,
        }
    }
}

impl SyntaxError {
    /// The place in the source that the error points at.
    pub fn span(&self) -> (out: Span)
        ensures
            out == self@.span(),
    {
        match self {
            SyntaxError::UnexpectedEof { span } => *span,
            SyntaxError::UnexpectedToken { found, .. } => found.span,
            SyntaxError::SpreadInArrayInit { span } => *span,
        }
    }
}

pub type SyntaxResult<T> = Result<T, SyntaxError>;

} // verus!
