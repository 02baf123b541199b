//! The parser's state: the tokens, a cursor into them, and the mode flag.

use vstd::prelude::*;
use crate::ast::{GroupCoordinate, Identifier, PositiveNumber};
use crate::errors::{Expected, SyntaxError, SyntaxErrorView, SyntaxResult};
use crate::grammar::{
    end_of_input, expect, expect_identifier, group_coordinate, group_partial, identifier_at, is_at,
    unexpected, Parsed,
};
use crate::span::Span;
use crate::text::negated_text;
use crate::token::{token_views, Token, TokenKind, TokenView};

verus! {

/// The state of a parse.
pub struct ParserContext {
    tokens: Vec<Token>,
    pos: usize,
    /// While set, a `{` after a name does not open a circuit initializer: it
    /// belongs to a block that follows the expression.
    fuzzy_struct_state: bool,
}

/// The view of a result: the view of its value or of its error.
pub open spec fn result_view<T: View>(out: SyntaxResult<T>) -> Result<T::V, SyntaxErrorView> {
    match out {
        Ok(value) => Ok(value@),
        Err(error) => Err(error@),
    }
}

/// What a list parse returns, against what the grammar gives for it.
pub open spec fn list_follows<T, V>(
    out: SyntaxResult<(Vec<T>, Span)>,
    views: spec_fn(Seq<T>) -> Seq<V>,
    model: Parsed<(Seq<V>, Span)>,
) -> bool {
    match out {
        Ok(found) => model.result == Ok::<(Seq<V>, Span), SyntaxErrorView>(
            (views(found.0@), found.1),
        ),
        Err(error) => model.result == Err::<(Seq<V>, Span), SyntaxErrorView>(error@),
    }
}

impl ParserContext {
    /// The tokens that the context was made with.
    pub closed spec fn tokens(&self) -> Seq<TokenView> {
        token_views(self.tokens@)
    }

    /// The number of tokens consumed so far.
    pub closed spec fn pos(&self) -> nat {
        self.pos as nat
    }

    /// Whether a `{` after a name is left alone.
    pub closed spec fn fuzzy(&self) -> bool {
        self.fuzzy_struct_state
    }

    /// The next token.
    pub open spec fn current(&self) -> TokenView
        recommends
            self.pos() < self.tokens().len(),
    {
        self.tokens()[self.pos() as int]
    }

    /// Whether `self` is `before` with `used` more tokens consumed.
    pub open spec fn advanced(&self, before: &ParserContext, used: nat) -> bool {
        &&& self.tokens() == before.tokens()
        &&& self.pos() == before.pos() + used
        &&& self.fuzzy() == before.fuzzy()
    }

    /// Whether `out`, with `self` as the state after the call, is what the
    /// grammar gives for the state `before`.
    pub open spec fn follows<T: View>(
        &self,
        before: &ParserContext,
        out: SyntaxResult<T>,
        model: Parsed<T::V>,
    ) -> bool {
        &&& self.advanced(before, model.used)
        &&& result_view(out) == model.result
    }

    /// A context at the start of `tokens`, with circuit initializers allowed.
    pub fn new(tokens: Vec<Token>) -> (out: ParserContext)
        ensures
            out.tokens() == token_views(tokens@),
            out.pos() == 0,
            !out.fuzzy(),
    {
        ParserContext { tokens, pos: 0, fuzzy_struct_state: false }
    }

    /// Whether a `{` after a name is left alone.
    pub fn fuzzy_struct_state(&self) -> (out: bool)
        ensures
            out == self.fuzzy(),
    {
        self.fuzzy_struct_state
    }

    /// Sets whether a `{` after a name is left alone.
    pub fn set_fuzzy_struct_state(&mut self, fuzzy: bool)
        ensures
            final(self).tokens() == old(self).tokens(),
            final(self).pos() == old(self).pos(),
            final(self).fuzzy() == fuzzy,
    {
        self.fuzzy_struct_state = fuzzy;
    }

    /// The number of tokens consumed so far.
    pub fn position(&self) -> (out: usize)
        ensures
            out == self.pos(),
    {
        self.pos
    }

    /// The number of tokens, consumed or not.
    pub fn token_count(&self) -> (out: usize)
        ensures
            out == self.tokens().len(),
    {
        self.tokens.len()
    }

    /// The span of the token at `index`.
    pub fn span_at(&self, index: usize) -> (out: Span)
        requires
            index < self.tokens().len(),
        ensures
            out == self.tokens()[index as int].span,
    {
        self.tokens[index].span
    }

    /// Whether a token is left.
    pub fn has_next(&self) -> (out: bool)
        ensures
            out == (self.pos() < self.tokens().len()),
    {
        self.pos < self.tokens.len()
    }

    /// The error for running out of tokens.
    pub fn eof(&self) -> (out: SyntaxError)
        ensures
            out@ == end_of_input(self.tokens()),
    {
        let n = self.tokens.len();
        if n > 0 {
            SyntaxError::UnexpectedEof { span: self.tokens[n - 1].span }
        } else {
            SyntaxError::UnexpectedEof { span: Span::empty() }
        }
    }

    /// The error for finding the next token, or the end, where `expected`
    /// should stand.
    pub fn unexpected(&self, expected: Expected) -> (out: SyntaxError)
        ensures
            out@ == unexpected(self.tokens(), self.pos(), expected),
    {
        if self.pos < self.tokens.len() {
            SyntaxError::UnexpectedToken { found: self.tokens[self.pos].duplicate(), expected }
        } else {
            self.eof()
        }
    }

    /// The next token, without consuming it.
    pub fn peek(&self) -> (out: SyntaxResult<&Token>)
        ensures
            (match out {
                Ok(token) => self.pos() < self.tokens().len() && token@ == self.current(),
                Err(error) => self.pos() >= self.tokens().len() && error@ == end_of_input(
                    self.tokens(),
                ),
            }),
    {
        if self.pos < self.tokens.len() {
            Ok(&self.tokens[self.pos])
        } else {
            Err(self.eof())
        }
    }

    /// Whether the next token is of the given kind.
    pub fn next_is(&self, kind: TokenKind) -> (out: bool)
        ensures
            out == is_at(self.tokens(), self.pos(), kind),
    {
        self.pos < self.tokens.len() && self.tokens[self.pos].kind == kind
    }

    /// Consumes the next token if it is of the given kind, and returns its
    /// span.
    pub fn eat(&mut self, kind: TokenKind) -> (out: Option<Span>)
        ensures
            is_at(old(self).tokens(), old(self).pos(), kind) ==> final(self).advanced(old(self), 1)
                && out == Some(old(self).current().span),
            !is_at(old(self).tokens(), old(self).pos(), kind) ==> final(self).advanced(
                old(self),
                0,
            ) && out.is_none(),
    {
        if self.pos < self.tokens.len() && self.tokens[self.pos].kind == kind {
            let span = self.tokens[self.pos].span;
            self.pos = self.pos + 1;
            Some(span)
        } else {
            None
        }
    }

    /// Consumes the next token if its kind is one of `kinds`, and returns
    /// its kind and span.
    pub fn eat_any(&mut self, kinds: &[TokenKind]) -> (out: Option<(TokenKind, Span)>)
        ensures
            (match out {
                Some(found) => {
                    &&& old(self).pos() < old(self).tokens().len()
                    &&& kinds@.contains(found.0)
                    &&& found.0 == old(self).current().kind
                    &&& found.1 == old(self).current().span
                    &&& final(self).advanced(old(self), 1)
                },
                None => {
                    &&& old(self).pos() < old(self).tokens().len() ==> !kinds@.contains(
                        old(self).current().kind,
                    )
                    &&& final(self).advanced(old(self), 0)
                },
            }),
    {
        if self.pos >= self.tokens.len() {
            return None;
        }
        let kind = self.tokens[self.pos].kind;
        let mut i: usize = 0;
        while i < kinds.len()
            invariant
                i <= kinds.len(),
                *self == *old(self),
                self.pos < self.tokens.len(),
                kind == self.tokens[self.pos as int].kind,
                forall|j: int| 0 <= j < i ==> kinds@[j] != kind,
            decreases kinds.len() - i,
        {
            if kinds[i] == kind {
                let span = self.tokens[self.pos].span;
                self.pos = self.pos + 1;
                return Some((kind, span));
            }
            i = i + 1;
        }
        None
    }

    /// Consumes the next token, which must be of the given kind, and returns
    /// its span.
    pub fn expect(&mut self, kind: TokenKind) -> (out: SyntaxResult<Span>)
        ensures
            final(self).follows(old(self), out, expect(old(self).tokens(), old(self).pos(), kind)),
    {
        if self.pos < self.tokens.len() && self.tokens[self.pos].kind == kind {
            let span = self.tokens[self.pos].span;
            self.pos = self.pos + 1;
            Ok(span)
        } else {
            Err(self.unexpected(Expected::Token(kind)))
        }
    }

    /// Consumes the next token, whatever it is.
    pub fn expect_any(&mut self) -> (out: SyntaxResult<Token>)
        ensures
            (match out {
                Ok(token) => {
                    &&& old(self).pos() < old(self).tokens().len()
                    &&& token@ == old(self).current()
                    &&& final(self).advanced(old(self), 1)
                },
                Err(error) => {
                    &&& old(self).pos() >= old(self).tokens().len()
                    &&& error@ == end_of_input(old(self).tokens())
                    &&& final(self).advanced(old(self), 0)
                },
            }),
    {
        if self.pos < self.tokens.len() {
            let token = self.tokens[self.pos].duplicate();
            self.pos = self.pos + 1;
            Ok(token)
        } else {
            Err(self.eof())
        }
    }

    /// Consumes the next token if it is an identifier.
    pub fn eat_identifier(&mut self) -> (out: Option<Identifier>)
        ensures
            (match out {
                Some(name) => {
                    &&& is_at(old(self).tokens(), old(self).pos(), TokenKind::Ident)
                    &&& name@ == identifier_at(old(self).tokens(), old(self).pos())
                    &&& final(self).advanced(old(self), 1)
                },
                None => {
                    &&& !is_at(old(self).tokens(), old(self).pos(), TokenKind::Ident)
                    &&& final(self).advanced(old(self), 0)
                },
            }),
    {
        if self.pos < self.tokens.len() && self.tokens[self.pos].kind == TokenKind::Ident {
            let name = Identifier {
                name: self.tokens[self.pos].text.clone(),
                span: self.tokens[self.pos].span,
            };
            self.pos = self.pos + 1;
            Some(name)
        } else {
            None
        }
    }

    /// Consumes the next token, which must be an identifier.
    pub fn expect_ident(&mut self) -> (out: SyntaxResult<Identifier>)
        ensures
            final(self).follows(
                old(self),
                out,
                expect_identifier(old(self).tokens(), old(self).pos()),
            ),
    {
        match self.eat_identifier() {
            Some(name) => Ok(name),
            None => Err(self.unexpected(Expected::Identifier)),
        }
    }

    /// Consumes the next token if it is a numeral, and returns its digits
    /// and span.
    pub fn eat_int(&mut self) -> (out: Option<(PositiveNumber, Span)>)
        ensures
            (match out {
                Some(found) => {
                    &&& is_at(old(self).tokens(), old(self).pos(), TokenKind::Int)
                    &&& found.0@ == old(self).current().text
                    &&& found.1 == old(self).current().span
                    &&& final(self).advanced(old(self), 1)
                },
                None => {
                    &&& !is_at(old(self).tokens(), old(self).pos(), TokenKind::Int)
                    &&& final(self).advanced(old(self), 0)
                },
            }),
    {
        if self.pos < self.tokens.len() && self.tokens[self.pos].kind == TokenKind::Int {
            let number = PositiveNumber { value: self.tokens[self.pos].text.clone() };
            let span = self.tokens[self.pos].span;
            self.pos = self.pos + 1;
            Some((number, span))
        } else {
            None
        }
    }

    /// Consumes the next token, which must be a numeral, and returns its
    /// digits and span.
    pub fn expect_int(&mut self) -> (out: SyntaxResult<(PositiveNumber, Span)>)
        ensures
            (match out {
                Ok(found) => {
                    &&& is_at(old(self).tokens(), old(self).pos(), TokenKind::Int)
                    &&& found.0@ == old(self).current().text
                    &&& found.1 == old(self).current().span
                    &&& final(self).advanced(old(self), 1)
                },
                Err(error) => {
                    &&& !is_at(old(self).tokens(), old(self).pos(), TokenKind::Int)
                    &&& error@ == unexpected(old(self).tokens(), old(self).pos(), Expected::Integer)
                    &&& final(self).advanced(old(self), 0)
                },
            }),
    {
        match self.eat_int() {
            Some(found) => Ok(found),
            None => Err(self.unexpected(Expected::Integer)),
        }
    }

    /// The group coordinate that the tokens from `at` on spell, and the
    /// number of tokens it takes. Consumes nothing.
    fn peek_group_coordinate(&self, at: usize) -> (out: Option<(GroupCoordinate, usize)>)
        ensures
            (match out {
                Some(found) => group_coordinate(self.tokens(), at as nat) == Some(
                    (found.0@, found.1 as nat),
                ) && at + found.1 <= self.tokens().len(),
                None => group_coordinate(self.tokens(), at as nat).is_none(),
            }),
    {
        if at >= self.tokens.len() {
            return None;
        }
        let token = &self.tokens[at];
        match token.kind {
            TokenKind::Add => Some((GroupCoordinate::SignHigh, 1)),
            TokenKind::Minus => {
                if at + 1 < self.tokens.len() && self.tokens[at + 1].kind == TokenKind::Int {
                    let digits = &self.tokens[at + 1];
                    Some(
                        (
                            GroupCoordinate::Number {
                                value: negated_text(&digits.text),
                                span: token.span.merge(digits.span),
                            },
                            2,
                        ),
                    )
                } else {
                    Some((GroupCoordinate::SignLow, 1))
                }
            },
            TokenKind::Ident => {
                let name = token.text.as_str();
                if name.unicode_len() == 1 && name.get_char(0) == '_' {
                    assert(token.text@ =~= seq!['_']);
                    Some((GroupCoordinate::Inferred, 1))
                } else {
                    None
                }
            },
            TokenKind::Int => Some(
                (GroupCoordinate::Number { value: token.text.clone(), span: token.span }, 1),
            ),
            _ => None,
        }
    }

    /// Consumes `x , y ) group`, the rest of a group pair after its `(`, if
    /// the next tokens spell one, and returns the coordinates and the span
    /// from the first of them to the keyword. Consumes nothing otherwise.
    pub fn eat_group_partial(&mut self) -> (out: Option<(GroupCoordinate, GroupCoordinate, Span)>)
        ensures
            (match group_partial(old(self).tokens(), old(self).pos()) {
                Some(pair) => out matches Some(found) && found.0@ == pair.x && found.1@ == pair.y
                    && found.2 == pair.span && final(self).advanced(old(self), pair.used),
                None => out.is_none() && final(self).advanced(old(self), 0),
            }),
    {
        let start = self.pos;
        let x = match self.peek_group_coordinate(start) {
            Some(x) => x,
            None => {
                return None;
            },
        };
        assert(self.tokens().len() == self.tokens.len());
        let comma = start + x.1;
        if !(comma < self.tokens.len() && self.tokens[comma].kind == TokenKind::Comma) {
            return None;
        }
        let y = match self.peek_group_coordinate(comma + 1) {
            Some(y) => y,
            None => {
                return None;
            },
        };
        let close = comma + 1 + y.1;
        if !(close < self.tokens.len() && self.tokens[close].kind == TokenKind::RightParen) {
            return None;
        }
        if !(close + 1 < self.tokens.len() && self.tokens[close + 1].kind == TokenKind::Group) {
            return None;
        }
        let span = self.tokens[start].span.merge(self.tokens[close + 1].span);
        self.pos = close + 2;
        Some((x.0, y.0, span))
    }
}

} // verus!
