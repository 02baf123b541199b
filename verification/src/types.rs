//! Parsing of type annotations and array dimensions.

use vstd::prelude::*;
use vstd::pervasive::unreached;
use crate::ast::{number_views, type_views, ArrayDimensions, IntegerType, PositiveNumber, Type};
use crate::context::ParserContext;
use crate::errors::{Expected, SyntaxResult};
use crate::grammar::{
    array_dimensions, dimension_list, integer_type, is_at, prepend, prepend_closed, remaining,
    type_annotation, type_list,
};
use crate::span::Span;
use crate::token::TokenKind;

verus! {

impl ParserContext {
    /// The integer type that a type keyword names.
    pub fn token_to_int_type(kind: TokenKind) -> (out: Option<IntegerType>)
        ensures
            out == integer_type(kind),
    {
        match kind {
            TokenKind::I8 => Some(IntegerType::I8),
            TokenKind::I16 => Some(IntegerType::I16),
            TokenKind::I32 => Some(IntegerType::I32),
            TokenKind::I64 => Some(IntegerType::I64),
            TokenKind::I128 => Some(IntegerType::I128),
            TokenKind::U8 => Some(IntegerType::U8),
            TokenKind::U16 => Some(IntegerType::U16),
            TokenKind::U32 => Some(IntegerType::U32),
            TokenKind::U64 => Some(IntegerType::U64),
            TokenKind::U128 => Some(IntegerType::U128),
            _ => None,
        }
    }

    /// Parses the dimensions of an array: one number, or numbers separated
    /// by commas in parentheses.
    pub fn parse_array_dimensions(&mut self) -> (out: SyntaxResult<ArrayDimensions>)
        ensures
            final(self).follows(
                old(self),
                out,
                array_dimensions(old(self).tokens(), old(self).pos()),
            ),
    {
        if let Some(found) = self.eat_int() {
            let mut dimensions: Vec<PositiveNumber> = Vec::new();
            dimensions.push(found.0);
            assert(number_views(dimensions@) =~= seq![found.0@]);
            return Ok(ArrayDimensions(dimensions));
        }
        self.expect(TokenKind::LeftParen)?;
        let ghost tokens = self.tokens();
        let ghost start = self.pos();
        let mut dimensions: Vec<PositiveNumber> = Vec::new();
        assert(number_views(dimensions@) =~= Seq::empty());
        loop
            invariant
                self.advanced(old(self), (self.pos() - old(self).pos()) as nat),
                tokens == self.tokens(),
                start == old(self).pos() + 1,
                start <= self.pos(),
                !is_at(tokens, old(self).pos(), TokenKind::Int),
                is_at(tokens, old(self).pos(), TokenKind::LeftParen),
                dimension_list(tokens, start) == prepend(
                    number_views(dimensions@),
                    (self.pos() - start) as nat,
                    dimension_list(tokens, self.pos()),
                ),
            decreases remaining(self.tokens(), self.pos()),
        {
            let ghost here = self.pos();
            let ghost before = number_views(dimensions@);
            match self.eat_int() {
                Some(found) => {
                    dimensions.push(found.0);
                    assert(number_views(dimensions@) =~= before.push(found.0@));
                },
                None => {
                    return Err(self.unexpected(Expected::Integer));
                },
            }
            if self.eat(TokenKind::Comma).is_none() {
                proof {
                    assert(before + seq![tokens[here as int].text] =~= number_views(dimensions@));
                }
                self.expect(TokenKind::RightParen)?;
                return Ok(ArrayDimensions(dimensions));
            }
            proof {
                let rest = dimension_list(tokens, self.pos());
                if let Ok(sizes) = rest.result {
                    assert(before + (seq![tokens[here as int].text] + sizes) =~= number_views(
                        dimensions@,
                    ) + sizes);
                }
            }
        }
    }

    /// Parses a type annotation and returns the type with its span.
    pub fn parse_type(&mut self) -> (out: SyntaxResult<(Type, Span)>)
        ensures
            final(self).follows(old(self), out, type_annotation(old(self).tokens(), old(self).pos())),
        decreases remaining(old(self).tokens(), old(self).pos()),
    {
        reveal(type_annotation);
        if let Some(span) = self.eat(TokenKind::BigSelf) {
            proof {
                Type::SelfType.lemma_simple_view();
            }
            return Ok((Type::SelfType, span));
        }
        if let Some(name) = self.eat_identifier() {
            let span = name.span;
            let named = Type::Circuit(name);
            proof {
                named.lemma_simple_view();
            }
            return Ok((named, span));
        }
        if let Some(open) = self.eat(TokenKind::LeftParen) {
            let ghost tokens = self.tokens();
            let ghost start = self.pos();
            let mut types: Vec<Type> = Vec::new();
            assert(type_views(types@) =~= Seq::empty());
            loop
                invariant
                    self.advanced(old(self), (self.pos() - old(self).pos()) as nat),
                    tokens == self.tokens(),
                    is_at(tokens, old(self).pos(), TokenKind::LeftParen),
                    open == tokens[old(self).pos() as int].span,
                    start == old(self).pos() + 1,
                    start <= self.pos(),
                    type_list(tokens, start) == prepend_closed(
                        type_views(types@),
                        (self.pos() - start) as nat,
                        type_list(tokens, self.pos()),
                    ),
                decreases remaining(self.tokens(), self.pos()),
            {
                reveal(type_annotation);
                reveal(type_list);
                let ghost here = self.pos();
                let ghost before = type_views(types@);
                if let Some(end) = self.eat(TokenKind::RightParen) {
                    assert(before + Seq::<crate::ast::TypeView>::empty() =~= before);
                    return Ok((Type::tuple(types), open.merge(end)));
                }
                let item = self.parse_type()?;
                let ghost first = item.0@;
                types.push(item.0);
                assert(type_views(types@) =~= before.push(first));
                assert(before + seq![first] =~= before.push(first));
                if self.eat(TokenKind::Comma).is_none() {
                    let end = self.expect(TokenKind::RightParen)?;
                    return Ok((Type::tuple(types), open.merge(end)));
                }
                proof {
                    let rest = type_list(tokens, self.pos());
                    if let Ok(found) = rest.result {
                        assert(before + (seq![first] + found.0) =~= type_views(types@) + found.0);
                    }
                }
            }
        }
        if let Some(open) = self.eat(TokenKind::LeftSquare) {
            let (inner, _) = self.parse_type()?;
            self.expect(TokenKind::Semicolon)?;
            let dimensions = self.parse_array_dimensions()?;
            let end = self.expect(TokenKind::RightSquare)?;
            return Ok((Type::array(inner, dimensions), open.merge(end)));
        }
        let found = self.eat_any(
            &[
                TokenKind::I8,
                TokenKind::I16,
                TokenKind::I32,
                TokenKind::I64,
                TokenKind::I128,
                TokenKind::U8,
                TokenKind::U16,
                TokenKind::U32,
                TokenKind::U64,
                TokenKind::U128,
                TokenKind::Field,
                TokenKind::Group,
                TokenKind::Address,
                TokenKind::Bool,
            ],
        );
        match found {
            Some((kind, span)) => {
                let named = match kind {
                    TokenKind::Field => Type::Field,
                    TokenKind::Group => Type::Group,
                    TokenKind::Address => Type::Address,
                    TokenKind::Bool => Type::Boolean,
                    other => match Self::token_to_int_type(other) {
                        Some(int_type) => Type::IntegerType(int_type),
                        None => unreached(),
                    },
                };
                proof {
                    named.lemma_simple_view();
                }
                Ok((named, span))
            },
            None => Err(self.unexpected(Expected::Type)),
        }
    }
}

} // verus!
