//! Postfix accesses: indices, ranges, members, calls.

use vstd::prelude::*;
use vstd::pervasive::unreached;
use crate::ast::{boxed_view, expression_views, Expression, ExpressionView};
use crate::context::{list_follows, ParserContext};
use crate::errors::{Expected, SyntaxResult};
use crate::grammar::{
    access, access_tail, expression_list, index_suffix, member_suffix, prepend_closed, primary,
    range_end, remaining,
};
use crate::span::Span;
use crate::token::TokenKind;
use crate::unfold::{
    unfold_access, unfold_access_tail, unfold_expression_list, unfold_index_suffix,
    unfold_range_end,
};

verus! {

impl ParserContext {
    /// Parses what follows the `..` of a range access into `array`: the
    /// upper bound, unless the `]` comes at once, and the `]`.
    pub fn parse_range_end(&mut self, array: Expression, left: Option<Box<Expression>>) -> (out:
        SyntaxResult<Expression>)
        ensures
            final(self).follows(
                old(self),
                out,
                range_end(old(self).tokens(), old(self).pos(), array@, boxed_view(left)),
            ),
        decreases remaining(old(self).tokens(), old(self).pos()), 50nat,
    {
        proof {
            unfold_range_end(self.tokens(), self.pos(), array@, boxed_view(left));
        }
        let right = if !self.next_is(TokenKind::RightSquare) {
            Some(Box::new(self.parse_expression()?))
        } else {
            None
        };
        let end = self.expect(TokenKind::RightSquare)?;
        let span = array.span().merge(end);
        Ok(Expression::array_range_access(array, left, right, span))
    }

    /// Parses what follows the `[` of an access into `array`: an index or a
    /// range, and the `]`. It is a range when `..` comes first or follows
    /// the first expression.
    pub fn parse_index_suffix(&mut self, array: Expression) -> (out: SyntaxResult<Expression>)
        ensures
            final(self).follows(
                old(self),
                out,
                index_suffix(old(self).tokens(), old(self).pos(), array@),
            ),
        decreases remaining(old(self).tokens(), old(self).pos()), 51nat,
    {
        proof {
            unfold_index_suffix(self.tokens(), self.pos(), array@);
        }
        if self.eat(TokenKind::DotDot).is_some() {
            return self.parse_range_end(array, None);
        }
        let left = self.parse_expression()?;
        if self.eat(TokenKind::DotDot).is_some() {
            self.parse_range_end(array, Some(Box::new(left)))
        } else {
            let end = self.expect(TokenKind::RightSquare)?;
            let span = array.span().merge(end);
            Ok(Expression::array_access(array, left, span))
        }
    }

    /// Parses what follows the `.` of an access into `base`: the name of a
    /// member, or the index of a tuple field.
    pub fn parse_member_suffix(&mut self, base: Expression) -> (out: SyntaxResult<Expression>)
        ensures
            final(self).follows(
                old(self),
                out,
                member_suffix(old(self).tokens(), old(self).pos(), base@),
            ),
    {
        reveal(member_suffix);
        if let Some(name) = self.eat_identifier() {
            let span = base.span().merge(name.span);
            Ok(Expression::circuit_member_access(base, name, span))
        } else if let Some((index, index_span)) = self.eat_int() {
            let span = base.span().merge(index_span);
            Ok(Expression::tuple_access(base, index, span))
        } else {
            Err(self.unexpected(Expected::IntegerOrIdentifier))
        }
    }

    /// Parses a primary expression and the accesses that follow it: indices
    /// and ranges in brackets, members and tuple fields after a dot, calls,
    /// and static members after `::`. Each applies to everything before it.
    pub fn parse_access_expression(&mut self) -> (out: SyntaxResult<Expression>)
        ensures
            final(self).follows(
                old(self),
                out,
                access(old(self).tokens(), old(self).pos(), old(self).fuzzy()),
            ),
        decreases remaining(old(self).tokens(), old(self).pos()), 13nat,
    {
        proof {
            unfold_access(self.tokens(), self.pos(), self.fuzzy());
        }
        let mut expr = self.parse_primary_expression()?;
        loop
            invariant
                self.advanced(old(self), (self.pos() - old(self).pos()) as nat),
                old(self).pos() <= self.pos(),
                access(old(self).tokens(), old(self).pos(), old(self).fuzzy()) == access_tail(
                    self.tokens(),
                    self.pos(),
                    expr@,
                ).after((self.pos() - old(self).pos()) as nat),
            decreases remaining(self.tokens(), self.pos()),
        {
            proof {
                unfold_access_tail(self.tokens(), self.pos(), expr@);
            }
            let found = self.eat_any(
                &[
                    TokenKind::LeftSquare,
                    TokenKind::Dot,
                    TokenKind::LeftParen,
                    TokenKind::DoubleColon,
                ],
            );
            match found {
                None => {
                    return Ok(expr);
                },
                Some((kind, _)) => match kind {
                    TokenKind::LeftSquare => {
                        expr = self.parse_index_suffix(expr)?;
                    },
                    TokenKind::Dot => {
                        expr = self.parse_member_suffix(expr)?;
                    },
                    TokenKind::LeftParen => {
                        let (arguments, end) = self.parse_expression_list(TokenKind::RightParen)?;
                        let span = expr.span().merge(end);
                        expr = Expression::call(expr, arguments, span);
                    },
                    _ => {
                        let name = self.expect_ident()?;
                        let span = expr.span().merge(name.span);
                        expr = Expression::circuit_static_function_access(expr, name, span);
                    },
                },
            }
        }
    }

    /// Parses expressions separated by commas up to the closing token, which
    /// it consumes, and returns them with the span of that token. A comma
    /// may follow the last expression.
    pub fn parse_expression_list(&mut self, close: TokenKind) -> (out: SyntaxResult<
        (Vec<Expression>, Span),
    >)
        ensures
            final(self).advanced(
                old(self),
                expression_list(old(self).tokens(), old(self).pos(), close).used,
            ),
            list_follows(
                out,
                |items: Seq<Expression>| expression_views(items),
                expression_list(old(self).tokens(), old(self).pos(), close),
            ),
        decreases remaining(old(self).tokens(), old(self).pos()), 50nat,
    {
        let mut items: Vec<Expression> = Vec::new();
        assert(expression_views(items@) =~= Seq::empty());
        loop
            invariant
                self.advanced(old(self), (self.pos() - old(self).pos()) as nat),
                old(self).pos() <= self.pos(),
                expression_list(old(self).tokens(), old(self).pos(), close) == prepend_closed(
                    expression_views(items@),
                    (self.pos() - old(self).pos()) as nat,
                    expression_list(self.tokens(), self.pos(), close),
                ),
            decreases remaining(self.tokens(), self.pos()),
        {
            let ghost before = expression_views(items@);
            proof {
                unfold_expression_list(self.tokens(), self.pos(), close);
            }
            if let Some(end) = self.eat(close) {
                assert(before + Seq::<ExpressionView>::empty() =~= before);
                return Ok((items, end));
            }
            let item = self.parse_expression()?;
            let ghost first = item@;
            items.push(item);
            assert(expression_views(items@) =~= before.push(first));
            assert(before + seq![first] =~= before.push(first));
            if self.eat(TokenKind::Comma).is_none() {
                let end = self.expect(close)?;
                return Ok((items, end));
            }
            proof {
                let rest = expression_list(self.tokens(), self.pos(), close);
                if let Ok(found) = rest.result {
                    assert(before + (seq![first] + found.0) =~= expression_views(items@) + found.0);
                }
            }
        }
    }
}

} // verus!
