//! The expression parser: one function for each level of the grammar.

use vstd::prelude::*;
use vstd::pervasive::unreached;
use crate::ast::{
    expression_views, BinaryOperation, Expression, ExpressionView, UnaryOperation, ValueExpression,
};
use crate::context::ParserContext;
use crate::errors::SyntaxResult;
use crate::grammar::{
    access, binary, binary_node, binary_tail, cast, cast_tail, exponent, exponent_tail, expression,
    expression_fuzzy, operand, prefix_node, remaining, unary, Level, Parsed,
};
use crate::bounds::{lemma_expression_fuzzy_in_bounds, lemma_expression_in_bounds};
use crate::nesting::{lemma_expression_fuzzy_nested, lemma_expression_nested, spans_nested};
use crate::span::Span;
use crate::cover::{fits, lemma_expression_fits, lemma_expression_fuzzy_fits, spans_ordered};
use crate::text::negated_text;
use crate::token::TokenKind;
use crate::unfold::{
    unfold_binary, unfold_binary_tail, unfold_cast, unfold_exponent, unfold_exponent_tail,
    unfold_expression, unfold_expression_fuzzy, unfold_operand, unfold_unary,
};

verus! {

/// The operand under a run of prefix operators. The last operator of the run
/// stands nearest to the operand and applies first.
pub open spec fn prefix_chain(ops: Seq<(UnaryOperation, Span)>, operand: ExpressionView)
    -> ExpressionView
    decreases ops.len(),
{
    if ops.len() == 0 {
        operand
    } else {
        prefix_chain(ops.drop_last(), prefix_node(ops.last().0, ops.last().1, operand))
    }
}

/// An outcome under a run of prefix operators that was consumed before it.
pub open spec fn under_prefixes(ops: Seq<(UnaryOperation, Span)>, inner: Parsed<ExpressionView>)
    -> Parsed<ExpressionView> {
    Parsed {
        result: match inner.result {
            Ok(e) => Ok(prefix_chain(ops, e)),
            Err(e) => Err(e),
        },
        used: ops.len() + inner.used,
    }
}

/// The power chain of `bases` and a last operand, grouped to the right.
pub open spec fn power_chain(bases: Seq<ExpressionView>, last: ExpressionView) -> ExpressionView
    decreases bases.len(),
{
    if bases.len() == 0 {
        last
    } else {
        power_chain(bases.drop_last(), binary_node(BinaryOperation::Pow, bases.last(), last))
    }
}

/// An outcome as the exponent of a chain of `bases` that was consumed
/// before it.
pub open spec fn under_bases(bases: Seq<ExpressionView>, used: nat, inner: Parsed<ExpressionView>)
    -> Parsed<ExpressionView> {
    Parsed {
        result: match inner.result {
            Ok(e) => Ok(power_chain(bases, e)),
            Err(e) => Err(e),
        },
        used: used + inner.used,
    }
}

impl ParserContext {
    /// Parses an expression. A circuit initializer may follow a name in it,
    /// whatever the mode was; the mode is the same after the call as before.
    ///
    /// The cursor stays within the tokens. Where the spans of the tokens are
    /// in source order, the spans of the expression are nested and its own
    /// span fits the tokens consumed.
    pub fn parse_expression(&mut self) -> (out: SyntaxResult<Expression>)
        ensures
            final(self).follows(old(self), out, expression(old(self).tokens(), old(self).pos())),
            old(self).pos() <= old(self).tokens().len() ==> final(self).pos()
                <= old(self).tokens().len(),
            spans_ordered(old(self).tokens()) ==> (out matches Ok(e) ==> spans_nested(e@) && fits(
                old(self).tokens(),
                old(self).pos(),
                (final(self).pos() - old(self).pos()) as nat,
                e@.span(),
            )),
        decreases remaining(old(self).tokens(), old(self).pos()), 40nat,
    {
        proof {
            unfold_expression(self.tokens(), self.pos());
            if self.pos() <= self.tokens().len() {
                lemma_expression_in_bounds(self.tokens(), self.pos());
            }
            if spans_ordered(self.tokens()) {
                lemma_expression_fits(self.tokens(), self.pos());
                lemma_expression_nested(self.tokens(), self.pos());
            }
        }
        let prior_fuzzy_state = self.fuzzy_struct_state();
        self.set_fuzzy_struct_state(false);
        let result = self.parse_expression_fuzzy();
        self.set_fuzzy_struct_state(prior_fuzzy_state);
        result
    }

    /// Parses a ternary expression or what is below it, in the current mode.
    /// The middle branch is parsed with circuit initializers allowed.
    ///
    /// The cursor stays within the tokens. Where the spans of the tokens are
    /// in source order, the spans of the expression are nested and its own
    /// span fits the tokens consumed.
    pub fn parse_expression_fuzzy(&mut self) -> (out: SyntaxResult<Expression>)
        ensures
            final(self).follows(
                old(self),
                out,
                expression_fuzzy(old(self).tokens(), old(self).pos(), old(self).fuzzy()),
            ),
            old(self).pos() <= old(self).tokens().len() ==> final(self).pos()
                <= old(self).tokens().len(),
            spans_ordered(old(self).tokens()) ==> (out matches Ok(e) ==> spans_nested(e@) && fits(
                old(self).tokens(),
                old(self).pos(),
                (final(self).pos() - old(self).pos()) as nat,
                e@.span(),
            )),
        decreases remaining(old(self).tokens(), old(self).pos()), 39nat,
    {
        proof {
            unfold_expression_fuzzy(self.tokens(), self.pos(), self.fuzzy());
            if self.pos() <= self.tokens().len() {
                lemma_expression_fuzzy_in_bounds(self.tokens(), self.pos(), self.fuzzy());
            }
            if spans_ordered(self.tokens()) {
                lemma_expression_fuzzy_fits(self.tokens(), self.pos(), self.fuzzy());
                lemma_expression_fuzzy_nested(self.tokens(), self.pos(), self.fuzzy());
            }
        }
        let mut expr = self.parse_or_expression()?;
        if self.eat(TokenKind::Question).is_some() {
            let if_true = self.parse_expression()?;
            self.expect(TokenKind::Colon)?;
            let if_false = self.parse_expression_fuzzy()?;
            let span = expr.span().merge(if_false.span());
            expr = Expression::ternary(expr, if_true, if_false, span);
        }
        Ok(expr)
    }

    /// Parses a chain of logical ors, grouped to the left.
    pub fn parse_or_expression(&mut self) -> (out: SyntaxResult<Expression>)
        ensures
            final(self).follows(
                old(self),
                out,
                binary(Level::Or, old(self).tokens(), old(self).pos(), old(self).fuzzy()),
            ),
        decreases remaining(old(self).tokens(), old(self).pos()), 37nat,
    {
        proof {
            unfold_binary(Level::Or, self.tokens(), self.pos(), self.fuzzy());
            unfold_operand(Level::Or, self.tokens(), self.pos(), self.fuzzy());
        }
        let mut expr = self.parse_and_expression()?;
        loop
            invariant
                self.advanced(old(self), (self.pos() - old(self).pos()) as nat),
                old(self).pos() <= self.pos(),
                binary(Level::Or, old(self).tokens(), old(self).pos(), old(self).fuzzy())
                    == binary_tail(
                    Level::Or,
                    self.tokens(),
                    self.pos(),
                    self.fuzzy(),
                    expr@,
                ).after((self.pos() - old(self).pos()) as nat),
            decreases remaining(self.tokens(), self.pos()),
        {
            proof {
                unfold_binary_tail(Level::Or, self.tokens(), self.pos(), self.fuzzy(), expr@);
                unfold_operand(Level::Or, self.tokens(), self.pos() + 1, self.fuzzy());
            }
            if self.eat(TokenKind::Or).is_none() {
                return Ok(expr);
            }
            let op = BinaryOperation::Or;
            let right = self.parse_and_expression()?;
            let span = expr.span().merge(right.span());
            expr = Expression::binary(op, expr, right, span);
        }
    }

    /// Parses a chain of logical ands, grouped to the left.
    pub fn parse_and_expression(&mut self) -> (out: SyntaxResult<Expression>)
        ensures
            final(self).follows(
                old(self),
                out,
                binary(Level::And, old(self).tokens(), old(self).pos(), old(self).fuzzy()),
            ),
        decreases remaining(old(self).tokens(), old(self).pos()), 35nat,
    {
        proof {
            unfold_binary(Level::And, self.tokens(), self.pos(), self.fuzzy());
            unfold_operand(Level::And, self.tokens(), self.pos(), self.fuzzy());
        }
        let mut expr = self.parse_bit_or_expression()?;
        loop
            invariant
                self.advanced(old(self), (self.pos() - old(self).pos()) as nat),
                old(self).pos() <= self.pos(),
                binary(Level::And, old(self).tokens(), old(self).pos(), old(self).fuzzy())
                    == binary_tail(
                    Level::And,
                    self.tokens(),
                    self.pos(),
                    self.fuzzy(),
                    expr@,
                ).after((self.pos() - old(self).pos()) as nat),
            decreases remaining(self.tokens(), self.pos()),
        {
            proof {
                unfold_binary_tail(Level::And, self.tokens(), self.pos(), self.fuzzy(), expr@);
                unfold_operand(Level::And, self.tokens(), self.pos() + 1, self.fuzzy());
            }
            if self.eat(TokenKind::And).is_none() {
                return Ok(expr);
            }
            let op = BinaryOperation::And;
            let right = self.parse_bit_or_expression()?;
            let span = expr.span().merge(right.span());
            expr = Expression::binary(op, expr, right, span);
        }
    }

    /// Parses a chain of bitwise ors, grouped to the left.
    pub fn parse_bit_or_expression(&mut self) -> (out: SyntaxResult<Expression>)
        ensures
            final(self).follows(
                old(self),
                out,
                binary(Level::BitOr, old(self).tokens(), old(self).pos(), old(self).fuzzy()),
            ),
        decreases remaining(old(self).tokens(), old(self).pos()), 33nat,
    {
        proof {
            unfold_binary(Level::BitOr, self.tokens(), self.pos(), self.fuzzy());
            unfold_operand(Level::BitOr, self.tokens(), self.pos(), self.fuzzy());
        }
        let mut expr = self.parse_bit_xor_expression()?;
        loop
            invariant
                self.advanced(old(self), (self.pos() - old(self).pos()) as nat),
                old(self).pos() <= self.pos(),
                binary(Level::BitOr, old(self).tokens(), old(self).pos(), old(self).fuzzy())
                    == binary_tail(
                    Level::BitOr,
                    self.tokens(),
                    self.pos(),
                    self.fuzzy(),
                    expr@,
                ).after((self.pos() - old(self).pos()) as nat),
            decreases remaining(self.tokens(), self.pos()),
        {
            proof {
                unfold_binary_tail(Level::BitOr, self.tokens(), self.pos(), self.fuzzy(), expr@);
                unfold_operand(Level::BitOr, self.tokens(), self.pos() + 1, self.fuzzy());
            }
            if self.eat(TokenKind::BitOr).is_none() {
                return Ok(expr);
            }
            let op = BinaryOperation::BitOr;
            let right = self.parse_bit_xor_expression()?;
            let span = expr.span().merge(right.span());
            expr = Expression::binary(op, expr, right, span);
        }
    }

    /// Parses a chain of bitwise exclusive ors, grouped to the left.
    pub fn parse_bit_xor_expression(&mut self) -> (out: SyntaxResult<Expression>)
        ensures
            final(self).follows(
                old(self),
                out,
                binary(Level::BitXor, old(self).tokens(), old(self).pos(), old(self).fuzzy()),
            ),
        decreases remaining(old(self).tokens(), old(self).pos()), 31nat,
    {
        proof {
            unfold_binary(Level::BitXor, self.tokens(), self.pos(), self.fuzzy());
            unfold_operand(Level::BitXor, self.tokens(), self.pos(), self.fuzzy());
        }
        let mut expr = self.parse_bit_and_expression()?;
        loop
            invariant
                self.advanced(old(self), (self.pos() - old(self).pos()) as nat),
                old(self).pos() <= self.pos(),
                binary(Level::BitXor, old(self).tokens(), old(self).pos(), old(self).fuzzy())
                    == binary_tail(
                    Level::BitXor,
                    self.tokens(),
                    self.pos(),
                    self.fuzzy(),
                    expr@,
                ).after((self.pos() - old(self).pos()) as nat),
            decreases remaining(self.tokens(), self.pos()),
        {
            proof {
                unfold_binary_tail(Level::BitXor, self.tokens(), self.pos(), self.fuzzy(), expr@);
                unfold_operand(Level::BitXor, self.tokens(), self.pos() + 1, self.fuzzy());
            }
            if self.eat(TokenKind::BitXor).is_none() {
                return Ok(expr);
            }
            let op = BinaryOperation::BitXor;
            let right = self.parse_bit_and_expression()?;
            let span = expr.span().merge(right.span());
            expr = Expression::binary(op, expr, right, span);
        }
    }

    /// Parses a chain of bitwise ands, grouped to the left.
    pub fn parse_bit_and_expression(&mut self) -> (out: SyntaxResult<Expression>)
        ensures
            final(self).follows(
                old(self),
                out,
                binary(Level::BitAnd, old(self).tokens(), old(self).pos(), old(self).fuzzy()),
            ),
        decreases remaining(old(self).tokens(), old(self).pos()), 29nat,
    {
        proof {
            unfold_binary(Level::BitAnd, self.tokens(), self.pos(), self.fuzzy());
            unfold_operand(Level::BitAnd, self.tokens(), self.pos(), self.fuzzy());
        }
        let mut expr = self.parse_eq_expression()?;
        loop
            invariant
                self.advanced(old(self), (self.pos() - old(self).pos()) as nat),
                old(self).pos() <= self.pos(),
                binary(Level::BitAnd, old(self).tokens(), old(self).pos(), old(self).fuzzy())
                    == binary_tail(
                    Level::BitAnd,
                    self.tokens(),
                    self.pos(),
                    self.fuzzy(),
                    expr@,
                ).after((self.pos() - old(self).pos()) as nat),
            decreases remaining(self.tokens(), self.pos()),
        {
            proof {
                unfold_binary_tail(Level::BitAnd, self.tokens(), self.pos(), self.fuzzy(), expr@);
                unfold_operand(Level::BitAnd, self.tokens(), self.pos() + 1, self.fuzzy());
            }
            if self.eat(TokenKind::BitAnd).is_none() {
                return Ok(expr);
            }
            let op = BinaryOperation::BitAnd;
            let right = self.parse_eq_expression()?;
            let span = expr.span().merge(right.span());
            expr = Expression::binary(op, expr, right, span);
        }
    }

    /// Parses a chain of equality tests, grouped to the left.
    pub fn parse_eq_expression(&mut self) -> (out: SyntaxResult<Expression>)
        ensures
            final(self).follows(
                old(self),
                out,
                binary(Level::Equality, old(self).tokens(), old(self).pos(), old(self).fuzzy()),
            ),
        decreases remaining(old(self).tokens(), old(self).pos()), 27nat,
    {
        proof {
            unfold_binary(Level::Equality, self.tokens(), self.pos(), self.fuzzy());
            unfold_operand(Level::Equality, self.tokens(), self.pos(), self.fuzzy());
        }
        let mut expr = self.parse_rel_expression()?;
        loop
            invariant
                self.advanced(old(self), (self.pos() - old(self).pos()) as nat),
                old(self).pos() <= self.pos(),
                binary(Level::Equality, old(self).tokens(), old(self).pos(), old(self).fuzzy())
                    == binary_tail(
                    Level::Equality,
                    self.tokens(),
                    self.pos(),
                    self.fuzzy(),
                    expr@,
                ).after((self.pos() - old(self).pos()) as nat),
            decreases remaining(self.tokens(), self.pos()),
        {
            proof {
                unfold_binary_tail(Level::Equality, self.tokens(), self.pos(), self.fuzzy(), expr@);
                unfold_operand(Level::Equality, self.tokens(), self.pos() + 1, self.fuzzy());
            }
            let op = match self.eat_any(&[TokenKind::Eq, TokenKind::NotEq]) {
                None => {
                    return Ok(expr);
                },
                Some((kind, _)) => match kind {
                    TokenKind::Eq => BinaryOperation::Eq,
                    _ => BinaryOperation::Ne,
                },
            };
            let right = self.parse_rel_expression()?;
            let span = expr.span().merge(right.span());
            expr = Expression::binary(op, expr, right, span);
        }
    }

    /// Parses a chain of order comparisons, grouped to the left.
    pub fn parse_rel_expression(&mut self) -> (out: SyntaxResult<Expression>)
        ensures
            final(self).follows(
                old(self),
                out,
                binary(Level::Relational, old(self).tokens(), old(self).pos(), old(self).fuzzy()),
            ),
        decreases remaining(old(self).tokens(), old(self).pos()), 25nat,
    {
        proof {
            unfold_binary(Level::Relational, self.tokens(), self.pos(), self.fuzzy());
            unfold_operand(Level::Relational, self.tokens(), self.pos(), self.fuzzy());
        }
        let mut expr = self.parse_shift_expression()?;
        loop
            invariant
                self.advanced(old(self), (self.pos() - old(self).pos()) as nat),
                old(self).pos() <= self.pos(),
                binary(Level::Relational, old(self).tokens(), old(self).pos(), old(self).fuzzy())
                    == binary_tail(
                    Level::Relational,
                    self.tokens(),
                    self.pos(),
                    self.fuzzy(),
                    expr@,
                ).after((self.pos() - old(self).pos()) as nat),
            decreases remaining(self.tokens(), self.pos()),
        {
            proof {
                unfold_binary_tail(Level::Relational, self.tokens(), self.pos(), self.fuzzy(), expr@);
                unfold_operand(Level::Relational, self.tokens(), self.pos() + 1, self.fuzzy());
            }
            let op = match self.eat_any(&[TokenKind::Lt, TokenKind::LtEq, TokenKind::Gt, TokenKind::GtEq]) {
                None => {
                    return Ok(expr);
                },
                Some((kind, _)) => match kind {
                    TokenKind::Lt => BinaryOperation::Lt,
                    TokenKind::LtEq => BinaryOperation::Le,
                    TokenKind::Gt => BinaryOperation::Gt,
                    _ => BinaryOperation::Ge,
                },
            };
            let right = self.parse_shift_expression()?;
            let span = expr.span().merge(right.span());
            expr = Expression::binary(op, expr, right, span);
        }
    }

    /// Parses a chain of shifts, grouped to the left.
    pub fn parse_shift_expression(&mut self) -> (out: SyntaxResult<Expression>)
        ensures
            final(self).follows(
                old(self),
                out,
                binary(Level::Shift, old(self).tokens(), old(self).pos(), old(self).fuzzy()),
            ),
        decreases remaining(old(self).tokens(), old(self).pos()), 23nat,
    {
        proof {
            unfold_binary(Level::Shift, self.tokens(), self.pos(), self.fuzzy());
            unfold_operand(Level::Shift, self.tokens(), self.pos(), self.fuzzy());
        }
        let mut expr = self.parse_add_sub_expression()?;
        loop
            invariant
                self.advanced(old(self), (self.pos() - old(self).pos()) as nat),
                old(self).pos() <= self.pos(),
                binary(Level::Shift, old(self).tokens(), old(self).pos(), old(self).fuzzy())
                    == binary_tail(
                    Level::Shift,
                    self.tokens(),
                    self.pos(),
                    self.fuzzy(),
                    expr@,
                ).after((self.pos() - old(self).pos()) as nat),
            decreases remaining(self.tokens(), self.pos()),
        {
            proof {
                unfold_binary_tail(Level::Shift, self.tokens(), self.pos(), self.fuzzy(), expr@);
                unfold_operand(Level::Shift, self.tokens(), self.pos() + 1, self.fuzzy());
            }
            let op = match self.eat_any(&[TokenKind::Shl, TokenKind::Shr, TokenKind::ShrSigned]) {
                None => {
                    return Ok(expr);
                },
                Some((kind, _)) => match kind {
                    TokenKind::Shl => BinaryOperation::Shl,
                    TokenKind::Shr => BinaryOperation::Shr,
                    _ => BinaryOperation::ShrSigned,
                },
            };
            let right = self.parse_add_sub_expression()?;
            let span = expr.span().merge(right.span());
            expr = Expression::binary(op, expr, right, span);
        }
    }

    /// Parses a chain of additions and subtractions, grouped to the left.
    pub fn parse_add_sub_expression(&mut self) -> (out: SyntaxResult<Expression>)
        ensures
            final(self).follows(
                old(self),
                out,
                binary(Level::Additive, old(self).tokens(), old(self).pos(), old(self).fuzzy()),
            ),
        decreases remaining(old(self).tokens(), old(self).pos()), 21nat,
    {
        proof {
            unfold_binary(Level::Additive, self.tokens(), self.pos(), self.fuzzy());
            unfold_operand(Level::Additive, self.tokens(), self.pos(), self.fuzzy());
        }
        let mut expr = self.parse_mul_div_mod_expression()?;
        loop
            invariant
                self.advanced(old(self), (self.pos() - old(self).pos()) as nat),
                old(self).pos() <= self.pos(),
                binary(Level::Additive, old(self).tokens(), old(self).pos(), old(self).fuzzy())
                    == binary_tail(
                    Level::Additive,
                    self.tokens(),
                    self.pos(),
                    self.fuzzy(),
                    expr@,
                ).after((self.pos() - old(self).pos()) as nat),
            decreases remaining(self.tokens(), self.pos()),
        {
            proof {
                unfold_binary_tail(Level::Additive, self.tokens(), self.pos(), self.fuzzy(), expr@);
                unfold_operand(Level::Additive, self.tokens(), self.pos() + 1, self.fuzzy());
            }
            let op = match self.eat_any(&[TokenKind::Add, TokenKind::Minus]) {
                None => {
                    return Ok(expr);
                },
                Some((kind, _)) => match kind {
                    TokenKind::Add => BinaryOperation::Add,
                    _ => BinaryOperation::Sub,
                },
            };
            let right = self.parse_mul_div_mod_expression()?;
            let span = expr.span().merge(right.span());
            expr = Expression::binary(op, expr, right, span);
        }
    }

    /// Parses a chain of multiplications, divisions and remainders, grouped to the left.
    pub fn parse_mul_div_mod_expression(&mut self) -> (out: SyntaxResult<Expression>)
        ensures
            final(self).follows(
                old(self),
                out,
                binary(Level::Multiplicative, old(self).tokens(), old(self).pos(), old(self).fuzzy()),
            ),
        decreases remaining(old(self).tokens(), old(self).pos()), 19nat,
    {
        proof {
            unfold_binary(Level::Multiplicative, self.tokens(), self.pos(), self.fuzzy());
            unfold_operand(Level::Multiplicative, self.tokens(), self.pos(), self.fuzzy());
        }
        let mut expr = self.parse_exp_expression()?;
        loop
            invariant
                self.advanced(old(self), (self.pos() - old(self).pos()) as nat),
                old(self).pos() <= self.pos(),
                binary(Level::Multiplicative, old(self).tokens(), old(self).pos(), old(self).fuzzy())
                    == binary_tail(
                    Level::Multiplicative,
                    self.tokens(),
                    self.pos(),
                    self.fuzzy(),
                    expr@,
                ).after((self.pos() - old(self).pos()) as nat),
            decreases remaining(self.tokens(), self.pos()),
        {
            proof {
                unfold_binary_tail(Level::Multiplicative, self.tokens(), self.pos(), self.fuzzy(), expr@);
                unfold_operand(Level::Multiplicative, self.tokens(), self.pos() + 1, self.fuzzy());
            }
            let op = match self.eat_any(&[TokenKind::Mul, TokenKind::Div, TokenKind::Mod]) {
                None => {
                    return Ok(expr);
                },
                Some((kind, _)) => match kind {
                    TokenKind::Mul => BinaryOperation::Mul,
                    TokenKind::Div => BinaryOperation::Div,
                    _ => BinaryOperation::Mod,
                },
            };
            let right = self.parse_exp_expression()?;
            let span = expr.span().merge(right.span());
            expr = Expression::binary(op, expr, right, span);
        }
    }

    /// The power chain of the given operands, grouped to the right: each
    /// operand is raised to everything after it.
    pub fn fold_powers(operands: Vec<Expression>) -> (out: Expression)
        requires
            operands.len() > 0,
        ensures
            out@ == power_chain(
                expression_views(operands@).drop_last(),
                expression_views(operands@).last(),
            ),
    {
        let ghost all = expression_views(operands@);
        let mut exprs = operands;
        let mut expr = match exprs.pop() {
            Some(last) => last,
            None => unreached(),
        };
        assert(expression_views(exprs@) =~= all.drop_last());
        loop
            invariant
                all == expression_views(operands@),
                power_chain(all.drop_last(), all.last()) == power_chain(
                    expression_views(exprs@),
                    expr@,
                ),
            decreases exprs.len(),
        {
            let ghost bases = expression_views(exprs@);
            match exprs.pop() {
                None => {
                    return expr;
                },
                Some(sub_expr) => {
                    assert(expression_views(exprs@) =~= bases.drop_last());
                    let span = sub_expr.span().merge(expr.span());
                    expr = Expression::binary(BinaryOperation::Pow, sub_expr, expr, span);
                },
            }
        }
    }

    /// Parses a chain of powers, grouped to the right.
    pub fn parse_exp_expression(&mut self) -> (out: SyntaxResult<Expression>)
        ensures
            final(self).follows(
                old(self),
                out,
                exponent(old(self).tokens(), old(self).pos(), old(self).fuzzy()),
            ),
        decreases remaining(old(self).tokens(), old(self).pos()), 17nat,
    {
        proof {
            unfold_exponent(self.tokens(), self.pos(), self.fuzzy());
        }
        let mut exprs: Vec<Expression> = Vec::new();
        let first = self.parse_cast_expression()?;
        exprs.push(first);
        assert(expression_views(exprs@).drop_last() =~= Seq::empty());
        loop
            invariant
                self.advanced(old(self), (self.pos() - old(self).pos()) as nat),
                old(self).pos() <= self.pos(),
                exprs.len() > 0,
                exponent(old(self).tokens(), old(self).pos(), old(self).fuzzy()) == under_bases(
                    expression_views(exprs@).drop_last(),
                    (self.pos() - old(self).pos()) as nat,
                    exponent_tail(self.tokens(), self.pos(), self.fuzzy(), exprs@.last()@),
                ),
            decreases remaining(self.tokens(), self.pos()),
        {
            proof {
                unfold_exponent_tail(self.tokens(), self.pos(), self.fuzzy(), exprs@.last()@);
                unfold_exponent(self.tokens(), self.pos() + 1, self.fuzzy());
            }
            if self.eat(TokenKind::Exp).is_none() {
                return Ok(Self::fold_powers(exprs));
            }
            let ghost before = expression_views(exprs@);
            let next = self.parse_cast_expression()?;
            exprs.push(next);
            proof {
                assert(expression_views(exprs@).drop_last() =~= before);
                assert(before.drop_last().push(before.last()) =~= before);
            }
        }
    }

    /// Parses a unary expression and the casts that follow it. Each cast
    /// applies to everything before it.
    pub fn parse_cast_expression(&mut self) -> (out: SyntaxResult<Expression>)
        ensures
            final(self).follows(
                old(self),
                out,
                cast(old(self).tokens(), old(self).pos(), old(self).fuzzy()),
            ),
        decreases remaining(old(self).tokens(), old(self).pos()), 16nat,
    {
        proof {
            unfold_cast(self.tokens(), self.pos(), self.fuzzy());
        }
        let mut expr = self.parse_unary_expression()?;
        loop
            invariant
                self.advanced(old(self), (self.pos() - old(self).pos()) as nat),
                old(self).pos() <= self.pos(),
                cast(old(self).tokens(), old(self).pos(), old(self).fuzzy()) == cast_tail(
                    self.tokens(),
                    self.pos(),
                    expr@,
                ).after((self.pos() - old(self).pos()) as nat),
            decreases remaining(self.tokens(), self.pos()),
        {
            if self.eat(TokenKind::As).is_none() {
                return Ok(expr);
            }
            let ghost here = self.pos();
            let ghost inner = expr@;
            let (target_type, type_span) = self.parse_type()?;
            let span = expr.span().merge(type_span);
            expr = Expression::cast(expr, target_type, span);
            assert(cast_tail(self.tokens(), (here - 1) as nat, inner) == cast_tail(
                self.tokens(),
                self.pos(),
                expr@,
            ).after((self.pos() - here + 1) as nat));
        }
    }

    /// The node for a prefix operator written at `op_span` in front of
    /// `operand`. A minus in front of a numeral becomes part of the numeral:
    /// its text gets the sign and its span grows to take in the operator.
    pub fn apply_prefix(op: UnaryOperation, op_span: Span, operand: Expression) -> (out: Expression)
        ensures
            out@ == prefix_node(op, op_span, operand@),
    {
        reveal(prefix_node);
        proof {
            operand.lemma_leaf_view();
        }
        match op {
            UnaryOperation::Negate => match operand {
                Expression::Value(ValueExpression::Integer { int_type, value, span }) => {
                    Expression::value(
                        ValueExpression::Integer {
                            int_type,
                            value: negated_text(&value),
                            span: op_span.merge(span),
                        },
                    )
                },
                Expression::Value(ValueExpression::Implicit { value, span }) => Expression::value(
                    ValueExpression::Implicit {
                        value: negated_text(&value),
                        span: op_span.merge(span),
                    },
                ),
                other => {
                    let span = op_span.merge(other.span());
                    Expression::unary(op, other, span)
                },
            },
            _ => {
                let span = op_span.merge(operand.span());
                Expression::unary(op, operand, span)
            },
        }
    }

    /// The operand under the given prefix operators, the last of which
    /// applies first.
    pub fn apply_prefixes(prefixes: Vec<(UnaryOperation, Span)>, operand: Expression) -> (out:
        Expression)
        ensures
            out@ == prefix_chain(prefixes@, operand@),
    {
        let mut ops = prefixes;
        let mut inner = operand;
        loop
            invariant
                prefix_chain(prefixes@, operand@) == prefix_chain(ops@, inner@),
            decreases ops.len(),
        {
            match ops.pop() {
                None => {
                    return inner;
                },
                Some((op, span)) => {
                    inner = Self::apply_prefix(op, span, inner);
                },
            }
        }
    }

    /// Parses any number of prefix operators and the access expression that
    /// they apply to.
    pub fn parse_unary_expression(&mut self) -> (out: SyntaxResult<Expression>)
        ensures
            final(self).follows(
                old(self),
                out,
                unary(old(self).tokens(), old(self).pos(), old(self).fuzzy()),
            ),
        decreases remaining(old(self).tokens(), old(self).pos()), 14nat,
    {
        let mut ops: Vec<(UnaryOperation, Span)> = Vec::new();
        loop
            invariant
                self.advanced(old(self), ops.len() as nat),
                unary(old(self).tokens(), old(self).pos(), old(self).fuzzy()) == under_prefixes(
                    ops@,
                    unary(self.tokens(), self.pos(), self.fuzzy()),
                ),
            decreases remaining(self.tokens(), self.pos()),
        {
            let ghost before = ops@;
            proof {
                unfold_unary(self.tokens(), self.pos(), self.fuzzy());
            }
            match self.eat_any(&[TokenKind::Not, TokenKind::Minus, TokenKind::BitNot]) {
                None => {
                    let inner = self.parse_access_expression()?;
                    return Ok(Self::apply_prefixes(ops, inner));
                },
                Some((kind, span)) => {
                    let op = match kind {
                        TokenKind::Not => UnaryOperation::Not,
                        TokenKind::Minus => UnaryOperation::Negate,
                        _ => UnaryOperation::BitNot,
                    };
                    ops.push((op, span));
                    assert(ops@.drop_last() =~= before);
                },
            }
        }
    }
}

} // verus!
