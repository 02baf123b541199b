//! Primary expressions: literals, names, brackets, circuit initializers.

use vstd::prelude::*;
use vstd::pervasive::unreached;
use crate::ast::{
    element_views, member_views, CircuitImpliedVariableDefinition,
    CircuitImpliedVariableDefinitionView, Expression, GroupValue, Identifier, SpreadOrExpression,
    SpreadOrExpressionView, ValueExpression,
};
use crate::context::{list_follows, ParserContext};
use crate::errors::{Expected, SyntaxError, SyntaxResult};
use crate::grammar::{
    address_call, array_elements, array_repeat, array_rest, circuit_init, circuit_members,
    integer_literal, is_at, named, prepend_closed, primary, remaining, spread_or_expression,
};
use crate::span::Span;
use crate::token::TokenKind;
use crate::unfold::{
    unfold_array_elements, unfold_array_items, unfold_array_literal, unfold_array_rest,
    unfold_circuit_init, unfold_circuit_members, unfold_named, unfold_parenthesis, unfold_primary,
    unfold_spread_or_expression,
};

verus! {

impl ParserContext {
    /// Parses an array element: an expression, or `...` and an expression.
    pub fn parse_spread_or_expression(&mut self) -> (out: SyntaxResult<SpreadOrExpression>)
        ensures
            final(self).follows(
                old(self),
                out,
                spread_or_expression(old(self).tokens(), old(self).pos()),
            ),
        decreases remaining(old(self).tokens(), old(self).pos()), 50nat,
    {
        proof {
            unfold_spread_or_expression(self.tokens(), self.pos());
        }
        if self.eat(TokenKind::DotDotDot).is_some() {
            Ok(SpreadOrExpression::Spread(self.parse_expression()?))
        } else {
            Ok(SpreadOrExpression::Expression(self.parse_expression()?))
        }
    }

    /// Parses what follows the first element of an array literal that is no
    /// repeat, up to the `]`, which it consumes. Returns all the elements,
    /// `first` included, with the span of the `]`. More elements need a
    /// comma after the first; a comma may follow the last of them.
    pub fn parse_array_rest(&mut self, first: SpreadOrExpression) -> (out: SyntaxResult<
        (Vec<SpreadOrExpression>, Span),
    >)
        ensures
            final(self).advanced(old(self), array_rest(old(self).tokens(), old(self).pos()).used),
            list_follows(
                out,
                |items: Seq<SpreadOrExpression>| element_views(items),
                prepend_closed(seq![first@], 0, array_rest(old(self).tokens(), old(self).pos())),
            ),
        decreases remaining(old(self).tokens(), old(self).pos()), 53nat,
    {
        let mut elements: Vec<SpreadOrExpression> = Vec::new();
        elements.push(first);
        assert(element_views(elements@) =~= seq![first@]);
        loop
            invariant
                self.advanced(old(self), (self.pos() - old(self).pos()) as nat),
                old(self).pos() <= self.pos(),
                elements.len() >= 1,
                elements.len() == 1 ==> self.pos() == old(self).pos(),
                elements.len() > 1 ==> self.pos() > old(self).pos() && old(self).pos() < old(
                    self,
                ).tokens().len(),
                prepend_closed(seq![first@], 0, array_rest(old(self).tokens(), old(self).pos()))
                    == prepend_closed(
                    element_views(elements@),
                    (self.pos() - old(self).pos()) as nat,
                    if elements.len() == 1 {
                        array_rest(self.tokens(), self.pos())
                    } else {
                        array_elements(self.tokens(), self.pos())
                    },
                ),
            decreases remaining(self.tokens(), self.pos()),
        {
            let ghost before = element_views(elements@);
            proof {
                unfold_array_rest(self.tokens(), self.pos());
                unfold_array_elements(self.tokens(), self.pos());
                unfold_array_items(self.tokens(), self.pos());
                unfold_array_items(self.tokens(), self.pos() + 1);
            }
            if let Some(end) = self.eat(TokenKind::RightSquare) {
                assert(before + Seq::<SpreadOrExpressionView>::empty() =~= before);
                return Ok((elements, end));
            }
            if elements.len() == 1 {
                self.expect(TokenKind::Comma)?;
            }
            let element = self.parse_spread_or_expression()?;
            let ghost next = element@;
            elements.push(element);
            assert(element_views(elements@) =~= before.push(next));
            assert(before + seq![next] =~= before.push(next));
            if self.eat(TokenKind::Comma).is_none() {
                let end = self.expect(TokenKind::RightSquare)?;
                return Ok((elements, end));
            }
            proof {
                let rest = array_elements(self.tokens(), self.pos());
                if let Ok(found) = rest.result {
                    assert(before + (seq![next] + found.0) =~= element_views(elements@) + found.0);
                }
            }
        }
    }

    /// Parses the initializer of the circuit `identifier`, from its `{` on:
    /// fields separated by commas, each a name alone or a name, a colon and
    /// an expression. A comma may follow the last field.
    pub fn parse_circuit_init(&mut self, identifier: Identifier) -> (out: SyntaxResult<Expression>)
        ensures
            final(self).follows(
                old(self),
                out,
                circuit_init(old(self).tokens(), old(self).pos(), identifier@),
            ),
        decreases remaining(old(self).tokens(), old(self).pos()), 51nat,
    {
        proof {
            unfold_circuit_init(self.tokens(), self.pos(), identifier@);
        }
        self.expect(TokenKind::LeftCurly)?;
        let mut members: Vec<CircuitImpliedVariableDefinition> = Vec::new();
        assert(member_views(members@) =~= Seq::empty());
        loop
            invariant
                self.advanced(old(self), (self.pos() - old(self).pos()) as nat),
                is_at(old(self).tokens(), old(self).pos(), TokenKind::LeftCurly),
                old(self).pos() + 1 <= self.pos(),
                circuit_members(old(self).tokens(), old(self).pos() + 1) == prepend_closed(
                    member_views(members@),
                    (self.pos() - old(self).pos() - 1) as nat,
                    circuit_members(self.tokens(), self.pos()),
                ),
            decreases remaining(self.tokens(), self.pos()),
        {
            let ghost before = member_views(members@);
            proof {
                unfold_circuit_init(old(self).tokens(), old(self).pos(), identifier@);
                unfold_circuit_members(self.tokens(), self.pos());
            }
            if let Some(end) = self.eat(TokenKind::RightCurly) {
                assert(before + Seq::<crate::ast::CircuitImpliedVariableDefinitionView>::empty()
                    =~= before);
                let span = identifier.span.merge(end);
                return Ok(Expression::circuit_init(identifier, members, span));
            }
            let name = self.expect_ident()?;
            let expression = if self.eat(TokenKind::Colon).is_some() {
                Some(self.parse_expression()?)
            } else {
                None
            };
            let member = CircuitImpliedVariableDefinition { identifier: name, expression };
            let ghost first = member@;
            members.push(member);
            assert(member_views(members@) =~= before.push(first));
            assert(before + seq![first] =~= before.push(first));
            if self.eat(TokenKind::Comma).is_none() {
                let end = self.expect(TokenKind::RightCurly)?;
                let span = identifier.span.merge(end);
                return Ok(Expression::circuit_init(identifier, members, span));
            }
            proof {
                let rest = circuit_members(self.tokens(), self.pos());
                if let Ok(found) = rest.result {
                    assert(before + (seq![first] + found.0) =~= member_views(members@) + found.0);
                }
            }
        }
    }

    /// Parses what follows a name that was just consumed: the initializer of
    /// the circuit of that name where initializers are allowed and a `{`
    /// comes next, nothing otherwise.
    pub fn parse_named(&mut self, name: Identifier) -> (out: SyntaxResult<Expression>)
        ensures
            final(self).follows(
                old(self),
                out,
                named(old(self).tokens(), old(self).pos(), old(self).fuzzy(), name@),
            ),
        decreases remaining(old(self).tokens(), old(self).pos()), 52nat,
    {
        proof {
            unfold_named(self.tokens(), self.pos(), self.fuzzy(), name@);
        }
        if !self.fuzzy_struct_state() && self.next_is(TokenKind::LeftCurly) {
            self.parse_circuit_init(name)
        } else {
            Ok(Expression::identifier(name))
        }
    }

    /// Parses a primary expression: a literal, a name, a circuit
    /// initializer, a parenthesized expression or tuple, or an array.
    pub fn parse_primary_expression(&mut self) -> (out: SyntaxResult<Expression>)
        ensures
            final(self).follows(
                old(self),
                out,
                primary(old(self).tokens(), old(self).pos(), old(self).fuzzy()),
            ),
        decreases remaining(old(self).tokens(), old(self).pos()), 11nat,
    {
        reveal(integer_literal);
        reveal(address_call);
        reveal(array_repeat);
        proof {
            let tokens = self.tokens();
            let pos = self.pos();
            let open = tokens[pos as int].span;
            unfold_primary(tokens, pos, self.fuzzy());
            unfold_parenthesis(tokens, pos + 1, open);
            unfold_array_literal(tokens, pos + 1, open);
        }
        let token = self.expect_any()?;
        let span = token.span;
        match token.kind {
            TokenKind::Int => {
                let value = token.text;
                let suffix = self.eat_any(
                    &[
                        TokenKind::I8,
                        TokenKind::I16,
                        TokenKind::I32,
                        TokenKind::I64,
                        TokenKind::I128,
                        TokenKind::U8,
                        TokenKind::U16,
                        TokenKind::U32,
                        TokenKind::U64,
                        TokenKind::U128,
                        TokenKind::Field,
                        TokenKind::Group,
                    ],
                );
                Ok(
                    Expression::value(
                        match suffix {
                            Some((TokenKind::Field, type_span)) => ValueExpression::Field {
                                value,
                                span: span.merge(type_span),
                            },
                            Some((TokenKind::Group, type_span)) => ValueExpression::Group(
                                GroupValue::Single { value, span: span.merge(type_span) },
                            ),
                            Some((kind, type_span)) => match Self::token_to_int_type(kind) {
                                Some(int_type) => ValueExpression::Integer {
                                    int_type,
                                    value,
                                    span: span.merge(type_span),
                                },
                                None => unreached(),
                            },
                            None => ValueExpression::Implicit { value, span },
                        },
                    ),
                )
            },
            TokenKind::True => Ok(
                Expression::value(ValueExpression::Boolean { value: "true".to_owned(), span }),
            ),
            TokenKind::False => Ok(
                Expression::value(ValueExpression::Boolean { value: "false".to_owned(), span }),
            ),
            TokenKind::AddressLit => Ok(
                Expression::value(ValueExpression::Address { value: token.text, span }),
            ),
            TokenKind::Address => {
                self.expect(TokenKind::LeftParen)?;
                let value = self.expect_any()?;
                if value.kind != TokenKind::AddressLit {
                    return Err(
                        SyntaxError::UnexpectedToken {
                            found: value,
                            expected: Expected::AddressLiteral,
                        },
                    );
                }
                let end = self.expect(TokenKind::RightParen)?;
                Ok(
                    Expression::value(
                        ValueExpression::Address { value: value.text, span: span.merge(end) },
                    ),
                )
            },
            TokenKind::LeftParen => {
                if let Some((x, y, pair_span)) = self.eat_group_partial() {
                    return Ok(
                        Expression::value(
                            ValueExpression::Group(
                                GroupValue::Tuple { x, y, span: span.merge(pair_span) },
                            ),
                        ),
                    );
                }
                let (mut args, end) = self.parse_expression_list(TokenKind::RightParen)?;
                if args.len() == 1 {
                    Ok(args.remove(0))
                } else {
                    Ok(Expression::tuple_init(args, span.merge(end)))
                }
            },
            TokenKind::LeftSquare => {
                if let Some(end) = self.eat(TokenKind::RightSquare) {
                    let elements: Vec<SpreadOrExpression> = Vec::new();
                    assert(element_views(elements@) =~= Seq::empty());
                    return Ok(Expression::array_inline(elements, span.merge(end)));
                }
                let first = self.parse_spread_or_expression()?;
                if self.eat(TokenKind::Semicolon).is_some() {
                    let dimensions = self.parse_array_dimensions()?;
                    let end = self.expect(TokenKind::RightSquare)?;
                    match first {
                        SpreadOrExpression::Spread(spread) => Err(
                            SyntaxError::SpreadInArrayInit { span: span.merge(spread.span()) },
                        ),
                        SpreadOrExpression::Expression(element) => Ok(
                            Expression::array_init(element, dimensions, span.merge(end)),
                        ),
                    }
                } else {
                    let (elements, end) = self.parse_array_rest(first)?;
                    Ok(Expression::array_inline(elements, span.merge(end)))
                }
            },
            TokenKind::Ident => self.parse_named(Identifier { name: token.text, span }),
            TokenKind::BigSelf => self.parse_named(Identifier { name: "Self".to_owned(), span }),
            TokenKind::Input => self.parse_named(Identifier { name: "input".to_owned(), span }),
            TokenKind::LittleSelf => self.parse_named(
                Identifier { name: "self".to_owned(), span },
            ),
            _ => Err(SyntaxError::UnexpectedToken { found: token, expected: Expected::Expression }),
        }
    }
}

} // verus!
