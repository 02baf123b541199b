//! The expression tree and its mathematical view.
//!
//! Every node type has a view in which text is a `Seq<char>` and a list is a
//! `Seq`. The grammar in [`crate::grammar`] is stated over these views.

use vstd::prelude::*;
use crate::span::Span;

verus! {

/// A name with the place where it was written.
#[derive(Clone, Debug, PartialEq, Eq)]
pub struct Identifier {
    pub name: String,
    pub span: Span,
}

pub struct IdentifierView {
    pub name: Seq<char>,
    pub span: Span,
}

impl View for Identifier {
    type V = IdentifierView;

    open spec fn view(&self) -> IdentifierView {
        IdentifierView { name: self.name@, span: self.span }
    }
}

/// The digits of a non-negative number, as written.
#[derive(Clone, Debug, PartialEq, Eq)]
pub struct PositiveNumber {
    pub value: String,
}

impl View for PositiveNumber {
    type V = Seq<char>;

    open spec fn view(&self) -> Seq<char> {
        self.value@
    }
}

/// The views of a sequence of numbers, position by position.
pub open spec fn number_views(numbers: Seq<PositiveNumber>) -> Seq<Seq<char>> {
    Seq::new(numbers.len(), |i: int| numbers[i]@)
}

/// The sizes of an array, outermost first.
#[derive(Clone, Debug, PartialEq, Eq)]
pub struct ArrayDimensions(pub Vec<PositiveNumber>);

impl View for ArrayDimensions {
    type V = Seq<Seq<char>>;

    open spec fn view(&self) -> Seq<Seq<char>> {
        number_views(self.0@)
    }
}

/// The integer types of the language.
#[derive(Clone, Copy, Debug, PartialEq, Eq, Structural)]
pub enum IntegerType {
    U8,
    U16,
    U32,
    U64,
    U128,
    I8,
    I16,
    I32,
    I64,
    I128,
}

/// A type annotation.
#[derive(Debug, PartialEq, Eq)]
pub enum Type {
    Address,
    Boolean,
    Field,
    Group,
    IntegerType(IntegerType),
    Array(Box<Type>, ArrayDimensions),
    Tuple(Vec<Type>),
    Circuit(Identifier),
    SelfType,
}

pub enum TypeView {
    Address,
    Boolean,
    Field,
    Group,
    IntegerType(IntegerType),
    Array(Box<TypeView>, Seq<Seq<char>>),
    Tuple(Seq<TypeView>),
    Circuit(IdentifierView),
    SelfType,
}

/// The mathematical value of a [`Type`].
#[verifier::opaque]
pub open spec fn type_view(t: Type) -> TypeView
    decreases t,
{
    match t {
        Type::Address => TypeView::Address,
        Type::Boolean => TypeView::Boolean,
        Type::Field => TypeView::Field,
        Type::Group => TypeView::Group,
        Type::IntegerType(t) => TypeView::IntegerType(t),
        Type::Array(inner, dimensions) => TypeView::Array(
            Box::new(type_view(*inner)),
            dimensions@,
        ),
        Type::Tuple(types) => TypeView::Tuple(
            Seq::new(
                types.len() as nat,
                |i: int|
                    if 0 <= i < types.len() {
                        type_view(types[i])
                    } else {
                        TypeView::Address
                    },
            ),
        ),
        Type::Circuit(name) => TypeView::Circuit(name@),
        Type::SelfType => TypeView::SelfType,
    }
}

impl View for Type {
    type V = TypeView;

    open spec fn view(&self) -> TypeView {
        type_view(*self)
    }
}

/// One coordinate of a point on the group curve.
#[derive(Clone, Debug, PartialEq, Eq)]
pub enum GroupCoordinate {
    Number { value: String, span: Span },
    SignHigh,
    SignLow,
    Inferred,
}

pub enum GroupCoordinateView {
    Number { value: Seq<char>, span: Span },
    SignHigh,
    SignLow,
    Inferred,
}

impl View for GroupCoordinate {
    type V = GroupCoordinateView;

    open spec fn view(&self) -> GroupCoordinateView {
        match self {
            GroupCoordinate::Number { value, span } => GroupCoordinateView::Number {
                value: value@,
                span: *span,
            },
            GroupCoordinate::SignHigh => GroupCoordinateView::SignHigh,
            GroupCoordinate::SignLow => GroupCoordinateView::SignLow,
            GroupCoordinate::Inferred => GroupCoordinateView::Inferred,
        }
    }
}

/// A group element, given by one number or by a pair of coordinates.
#[derive(Clone, Debug, PartialEq, Eq)]
pub enum GroupValue {
    Single { value: String, span: Span },
    Tuple { x: GroupCoordinate, y: GroupCoordinate, span: Span },
}

pub enum GroupValueView {
    Single { value: Seq<char>, span: Span },
    Tuple { x: GroupCoordinateView, y: GroupCoordinateView, span: Span },
}

impl View for GroupValue {
    type V = GroupValueView;

    open spec fn view(&self) -> GroupValueView {
        match self {
            GroupValue::Single { value, span } => GroupValueView::Single {
                value: value@,
                span: *span,
            },
            GroupValue::Tuple { x, y, span } => GroupValueView::Tuple { x: x@, y: y@, span: *span },
        }
    }
}

impl GroupValueView {
    pub open spec fn span(self) -> Span {
        match self {
            GroupValueView::Single { span, .. } => span,
            GroupValueView::Tuple { span, .. } => span,
        }
    }
}

/// A literal value.
#[derive(Clone, Debug, PartialEq, Eq)]
pub enum ValueExpression {
    Address { value: String, span: Span },
    Boolean { value: String, span: Span },
    Field { value: String, span: Span },
    Group(GroupValue),
    /// A numeral without a type suffix.
    Implicit { value: String, span: Span },
    Integer { int_type: IntegerType, value: String, span: Span },
}

pub enum ValueView {
    Address { value: Seq<char>, span: Span },
    Boolean { value: Seq<char>, span: Span },
    Field { value: Seq<char>, span: Span },
    Group(GroupValueView),
    Implicit { value: Seq<char>, span: Span },
    Integer { int_type: IntegerType, value: Seq<char>, span: Span },
}

impl View for ValueExpression {
    type V = ValueView;

    open spec fn view(&self) -> ValueView {
        match self {
            ValueExpression::Address { value, span } => ValueView::Address {
                value: value@,
                span: *span,
            },
            ValueExpression::Boolean { value, span } => ValueView::Boolean {
                value: value@,
                span: *span,
            },
            ValueExpression::Field { value, span } => ValueView::Field {
                value: value@,
                span: *span,
            },
            ValueExpression::Group(group) => ValueView::Group(group@),
            ValueExpression::Implicit { value, span } => ValueView::Implicit {
                value: value@,
                span: *span,
            },
            ValueExpression::Integer { int_type, value, span } => ValueView::Integer {
                int_type: *int_type,
                value: value@,
                span: *span,
            },
        }
    }
}

impl ValueView {
    pub open spec fn span(self) -> Span {
        match self {
            ValueView::Address { span, .. } => span,
            ValueView::Boolean { span, .. } => span,
            ValueView::Field { span, .. } => span,
            ValueView::Group(group) => group.span(),
            ValueView::Implicit { span, .. } => span,
            ValueView::Integer { span, .. } => span,
        }
    }
}

/// The binary operators.
#[derive(Clone, Copy, Debug, PartialEq, Eq, Structural)]
pub enum BinaryOperation {
    Or,
    And,
    BitOr,
    BitXor,
    BitAnd,
    Eq,
    Ne,
    Lt,
    Le,
    Gt,
    Ge,
    Shl,
    Shr,
    ShrSigned,
    Add,
    Sub,
    Mul,
    Div,
    Mod,
    Pow,
}

/// The prefix operators.
#[derive(Clone, Copy, Debug, PartialEq, Eq, Structural)]
pub enum UnaryOperation {
    Not,
    Negate,
    BitNot,
}

/// An element of an array literal: an expression, or the elements of
/// another array spread in place.
#[derive(Debug, PartialEq, Eq)]
pub enum SpreadOrExpression {
    Spread(Expression),
    Expression(Expression),
}

pub enum SpreadOrExpressionView {
    Spread(ExpressionView),
    Expression(ExpressionView),
}

/// One field of a circuit initializer. Without an expression the field takes
/// the value of the variable of the same name.
#[derive(Debug, PartialEq, Eq)]
pub struct CircuitImpliedVariableDefinition {
    pub identifier: Identifier,
    pub expression: Option<Expression>,
}

pub struct CircuitImpliedVariableDefinitionView {
    pub identifier: IdentifierView,
    pub expression: Option<ExpressionView>,
}

/// An expression.
#[derive(Debug, PartialEq, Eq)]
pub enum Expression {
    Identifier(Identifier),
    Value(ValueExpression),
    Binary { op: BinaryOperation, left: Box<Expression>, right: Box<Expression>, span: Span },
    Unary { op: UnaryOperation, inner: Box<Expression>, span: Span },
    Ternary {
        condition: Box<Expression>,
        if_true: Box<Expression>,
        if_false: Box<Expression>,
        span: Span,
    },
    Cast { inner: Box<Expression>, target_type: Type, span: Span },
    ArrayInline { elements: Vec<SpreadOrExpression>, span: Span },
    ArrayInit { element: Box<Expression>, dimensions: ArrayDimensions, span: Span },
    ArrayAccess { array: Box<Expression>, index: Box<Expression>, span: Span },
    ArrayRangeAccess {
        array: Box<Expression>,
        left: Option<Box<Expression>>,
        right: Option<Box<Expression>>,
        span: Span,
    },
    TupleInit { elements: Vec<Expression>, span: Span },
    TupleAccess { tuple: Box<Expression>, index: PositiveNumber, span: Span },
    CircuitInit { name: Identifier, members: Vec<CircuitImpliedVariableDefinition>, span: Span },
    CircuitMemberAccess { circuit: Box<Expression>, name: Identifier, span: Span },
    CircuitStaticFunctionAccess { circuit: Box<Expression>, name: Identifier, span: Span },
    Call { function: Box<Expression>, arguments: Vec<Expression>, span: Span },
}

pub enum ExpressionView {
    Identifier(IdentifierView),
    Value(ValueView),
    Binary { op: BinaryOperation, left: Box<ExpressionView>, right: Box<ExpressionView>, span: Span },
    Unary { op: UnaryOperation, inner: Box<ExpressionView>, span: Span },
    Ternary {
        condition: Box<ExpressionView>,
        if_true: Box<ExpressionView>,
        if_false: Box<ExpressionView>,
        span: Span,
    },
    Cast { inner: Box<ExpressionView>, target_type: TypeView, span: Span },
    ArrayInline { elements: Seq<SpreadOrExpressionView>, span: Span },
    ArrayInit { element: Box<ExpressionView>, dimensions: Seq<Seq<char>>, span: Span },
    ArrayAccess { array: Box<ExpressionView>, index: Box<ExpressionView>, span: Span },
    ArrayRangeAccess {
        array: Box<ExpressionView>,
        left: Option<Box<ExpressionView>>,
        right: Option<Box<ExpressionView>>,
        span: Span,
    },
    TupleInit { elements: Seq<ExpressionView>, span: Span },
    TupleAccess { tuple: Box<ExpressionView>, index: Seq<char>, span: Span },
    CircuitInit {
        name: IdentifierView,
        members: Seq<CircuitImpliedVariableDefinitionView>,
        span: Span,
    },
    CircuitMemberAccess { circuit: Box<ExpressionView>, name: IdentifierView, span: Span },
    CircuitStaticFunctionAccess { circuit: Box<ExpressionView>, name: IdentifierView, span: Span },
    Call { function: Box<ExpressionView>, arguments: Seq<ExpressionView>, span: Span },
}

impl ExpressionView {
    /// The span that the node carries.
    pub open spec fn span(self) -> Span {
        match self {
            ExpressionView::Identifier(name) => name.span,
            ExpressionView::Value(value) => value.span(),
            ExpressionView::Binary { span, .. } => span,
            ExpressionView::Unary { span, .. } => span,
            ExpressionView::Ternary { span, .. } => span,
            ExpressionView::Cast { span, .. } => span,
            ExpressionView::ArrayInline { span, .. } => span,
            ExpressionView::ArrayInit { span, .. } => span,
            ExpressionView::ArrayAccess { span, .. } => span,
            ExpressionView::ArrayRangeAccess { span, .. } => span,
            ExpressionView::TupleInit { span, .. } => span,
            ExpressionView::TupleAccess { span, .. } => span,
            ExpressionView::CircuitInit { span, .. } => span,
            ExpressionView::CircuitMemberAccess { span, .. } => span,
            ExpressionView::CircuitStaticFunctionAccess { span, .. } => span,
            ExpressionView::Call { span, .. } => span,
        }
    }
}

impl SpreadOrExpressionView {
    /// The expression inside, spread or not.
    pub open spec fn inner(self) -> ExpressionView {
        match self {
            SpreadOrExpressionView::Spread(e) => e,
            SpreadOrExpressionView::Expression(e) => e,
        }
    }
}

/// The mathematical value of an [`Expression`].
#[verifier::opaque]
pub open spec fn expression_view(expression: Expression) -> ExpressionView
    decreases expression,
{
    match expression {
        Expression::Identifier(name) => ExpressionView::Identifier(name@),
        Expression::Value(value) => ExpressionView::Value(value@),
        Expression::Binary { op, left, right, span } => ExpressionView::Binary {
            op,
            left: Box::new(expression_view(*left)),
            right: Box::new(expression_view(*right)),
            span,
        },
        Expression::Unary { op, inner, span } => ExpressionView::Unary {
            op,
            inner: Box::new(expression_view(*inner)),
            span,
        },
        Expression::Ternary { condition, if_true, if_false, span } => ExpressionView::Ternary {
            condition: Box::new(expression_view(*condition)),
            if_true: Box::new(expression_view(*if_true)),
            if_false: Box::new(expression_view(*if_false)),
            span,
        },
        Expression::Cast { inner, target_type, span } => ExpressionView::Cast {
            inner: Box::new(expression_view(*inner)),
            target_type: target_type@,
            span,
        },
        Expression::ArrayInline { elements, span } => ExpressionView::ArrayInline {
            elements: Seq::new(
                elements.len() as nat,
                |i: int|
                    if 0 <= i < elements.len() {
                        match elements[i] {
                            SpreadOrExpression::Spread(e) => SpreadOrExpressionView::Spread(expression_view(e)),
                            SpreadOrExpression::Expression(e) => SpreadOrExpressionView::Expression(
                                expression_view(e),
                            ),
                        }
                    } else {
                        arbitrary()
                    },
            ),
            span,
        },
        Expression::ArrayInit { element, dimensions, span } => ExpressionView::ArrayInit {
            element: Box::new(expression_view(*element)),
            dimensions: dimensions@,
            span,
        },
        Expression::ArrayAccess { array, index, span } => ExpressionView::ArrayAccess {
            array: Box::new(expression_view(*array)),
            index: Box::new(expression_view(*index)),
            span,
        },
        Expression::ArrayRangeAccess { array, left, right, span } => {
            ExpressionView::ArrayRangeAccess {
                array: Box::new(expression_view(*array)),
                left: match left {
                    Some(e) => Some(Box::new(expression_view(*e))),
                    None => None,
                },
                right: match right {
                    Some(e) => Some(Box::new(expression_view(*e))),
                    None => None,
                },
                span,
            }
        },
        Expression::TupleInit { elements, span } => ExpressionView::TupleInit {
            elements: Seq::new(
                elements.len() as nat,
                |i: int|
                    if 0 <= i < elements.len() {
                        expression_view(elements[i])
                    } else {
                        arbitrary()
                    },
            ),
            span,
        },
        Expression::TupleAccess { tuple, index, span } => ExpressionView::TupleAccess {
            tuple: Box::new(expression_view(*tuple)),
            index: index@,
            span,
        },
        Expression::CircuitInit { name, members, span } => ExpressionView::CircuitInit {
            name: name@,
            members: Seq::new(
                members.len() as nat,
                |i: int|
                    if 0 <= i < members.len() {
                        CircuitImpliedVariableDefinitionView {
                            identifier: members[i].identifier@,
                            expression: match members[i].expression {
                                Some(e) => Some(expression_view(e)),
                                None => None,
                            },
                        }
                    } else {
                        arbitrary()
                    },
            ),
            span,
        },
        Expression::CircuitMemberAccess { circuit, name, span } => {
            ExpressionView::CircuitMemberAccess {
                circuit: Box::new(expression_view(*circuit)),
                name: name@,
                span,
            }
        },
        Expression::CircuitStaticFunctionAccess { circuit, name, span } => {
            ExpressionView::CircuitStaticFunctionAccess {
                circuit: Box::new(expression_view(*circuit)),
                name: name@,
                span,
            }
        },
        Expression::Call { function, arguments, span } => ExpressionView::Call {
            function: Box::new(expression_view(*function)),
            arguments: Seq::new(
                arguments.len() as nat,
                |i: int|
                    if 0 <= i < arguments.len() {
                        expression_view(arguments[i])
                    } else {
                        arbitrary()
                    },
            ),
            span,
        },
    }
}

impl View for Expression {
    type V = ExpressionView;

    open spec fn view(&self) -> ExpressionView {
        expression_view(*self)
    }
}

impl View for SpreadOrExpression {
    type V = SpreadOrExpressionView;

    open spec fn view(&self) -> SpreadOrExpressionView {
        match self {
            SpreadOrExpression::Spread(e) => SpreadOrExpressionView::Spread(e@),
            SpreadOrExpression::Expression(e) => SpreadOrExpressionView::Expression(e@),
        }
    }
}

impl View for CircuitImpliedVariableDefinition {
    type V = CircuitImpliedVariableDefinitionView;

    open spec fn view(&self) -> CircuitImpliedVariableDefinitionView {
        CircuitImpliedVariableDefinitionView {
            identifier: self.identifier@,
            expression: match self.expression {
                Some(e) => Some(e@),
                None => None,
            },
        }
    }
}

/// The view of an optional boxed expression.
pub open spec fn boxed_view(e: Option<Box<Expression>>) -> Option<Box<ExpressionView>> {
    match e {
        Some(e) => Some(Box::new(e@)),
        None => None,
    }
}

/// The views of a sequence of types, position by position.
pub open spec fn type_views(types: Seq<Type>) -> Seq<TypeView> {
    Seq::new(types.len(), |i: int| types[i]@)
}

/// The views of a sequence of expressions, position by position.
pub open spec fn expression_views(items: Seq<Expression>) -> Seq<ExpressionView> {
    Seq::new(items.len(), |i: int| items[i]@)
}

/// The views of a sequence of array elements, position by position.
pub open spec fn element_views(items: Seq<SpreadOrExpression>) -> Seq<SpreadOrExpressionView> {
    Seq::new(items.len(), |i: int| items[i]@)
}

/// The views of a sequence of initializer fields, position by position.
pub open spec fn member_views(items: Seq<CircuitImpliedVariableDefinition>) -> Seq<
    CircuitImpliedVariableDefinitionView,
> {
    Seq::new(items.len(), |i: int| items[i]@)
}

impl Type {
    /// A type that a single keyword or name gives: any but an array or a
    /// tuple.
    pub open spec fn is_simple(self) -> bool {
        !(self is Array) && !(self is Tuple)
    }

    /// The view of a type that is neither an array nor a tuple.
    pub proof fn lemma_simple_view(self)
        requires
            self.is_simple(),
        ensures
            self@ == match self {
                Type::Address => TypeView::Address,
                Type::Boolean => TypeView::Boolean,
                Type::Field => TypeView::Field,
                Type::Group => TypeView::Group,
                Type::IntegerType(t) => TypeView::IntegerType(t),
                Type::Circuit(name) => TypeView::Circuit(name@),
                _ => TypeView::SelfType,
            },
    {
        reveal(type_view);
    }

    /// The array type of `dimensions` over `element`.
    pub fn array(element: Type, dimensions: ArrayDimensions) -> (out: Type)
        ensures
            out@ == TypeView::Array(Box::new(element@), dimensions@),
    {
        reveal(type_view);
        Type::Array(Box::new(element), dimensions)
    }

    /// The tuple type of the given types.
    pub fn tuple(types: Vec<Type>) -> (out: Type)
        ensures
            out@ == TypeView::Tuple(type_views(types@)),
    {
        reveal(type_view);
        let ghost views = type_views(types@);
        let out = Type::Tuple(types);
        proof {
            assert(out@->Tuple_0 =~= views);
        }
        out
    }
}

impl Expression {
    /// The span that the node carries.
    pub fn span(&self) -> (out: Span)
        ensures
            out == self@.span(),
    {
        reveal(expression_view);
        match self {
            Expression::Identifier(name) => name.span,
            Expression::Value(value) => match value {
                ValueExpression::Address { span, .. } => *span,
                ValueExpression::Boolean { span, .. } => *span,
                ValueExpression::Field { span, .. } => *span,
                ValueExpression::Group(group) => match group {
                    GroupValue::Single { span, .. } => *span,
                    GroupValue::Tuple { span, .. } => *span,
                },
                ValueExpression::Implicit { span, .. } => *span,
                ValueExpression::Integer { span, .. } => *span,
            },
            Expression::Binary { span, .. } => *span,
            Expression::Unary { span, .. } => *span,
            Expression::Ternary { span, .. } => *span,
            Expression::Cast { span, .. } => *span,
            Expression::ArrayInline { span, .. } => *span,
            Expression::ArrayInit { span, .. } => *span,
            Expression::ArrayAccess { span, .. } => *span,
            Expression::ArrayRangeAccess { span, .. } => *span,
            Expression::TupleInit { span, .. } => *span,
            Expression::TupleAccess { span, .. } => *span,
            Expression::CircuitInit { span, .. } => *span,
            Expression::CircuitMemberAccess { span, .. } => *span,
            Expression::CircuitStaticFunctionAccess { span, .. } => *span,
            Expression::Call { span, .. } => *span,
        }
    }

    /// The view of a name or of a literal.
    pub proof fn lemma_leaf_view(self)
        ensures
            self matches Expression::Identifier(name) ==> self@ == ExpressionView::Identifier(
                name@,
            ),
            self matches Expression::Value(value) ==> self@ == ExpressionView::Value(value@),
            !(self is Value) ==> !(self@ is Value),
    {
        reveal(expression_view);
    }

    /// The expression that is a name.
    pub fn identifier(name: Identifier) -> (out: Expression)
        ensures
            out@ == ExpressionView::Identifier(name@),
    {
        reveal(expression_view);
        Expression::Identifier(name)
    }

    /// The expression that is a literal.
    pub fn value(value: ValueExpression) -> (out: Expression)
        ensures
            out@ == ExpressionView::Value(value@),
    {
        reveal(expression_view);
        Expression::Value(value)
    }

    /// A binary operation.
    pub fn binary(op: BinaryOperation, left: Expression, right: Expression, span: Span) -> (out:
        Expression)
        ensures
            out@ == (ExpressionView::Binary {
                op,
                left: Box::new(left@),
                right: Box::new(right@),
                span,
            }),
    {
        reveal(expression_view);
        Expression::Binary { op, left: Box::new(left), right: Box::new(right), span }
    }

    /// A prefix operation.
    pub fn unary(op: UnaryOperation, inner: Expression, span: Span) -> (out: Expression)
        ensures
            out@ == (ExpressionView::Unary { op, inner: Box::new(inner@), span }),
    {
        reveal(expression_view);
        Expression::Unary { op, inner: Box::new(inner), span }
    }

    /// A choice between `if_true` and `if_false` by `condition`.
    pub fn ternary(
        condition: Expression,
        if_true: Expression,
        if_false: Expression,
        span: Span,
    ) -> (out: Expression)
        ensures
            out@ == (ExpressionView::Ternary {
                condition: Box::new(condition@),
                if_true: Box::new(if_true@),
                if_false: Box::new(if_false@),
                span,
            }),
    {
        reveal(expression_view);
        Expression::Ternary {
            condition: Box::new(condition),
            if_true: Box::new(if_true),
            if_false: Box::new(if_false),
            span,
        }
    }

    /// A cast of `inner` to `target_type`.
    pub fn cast(inner: Expression, target_type: Type, span: Span) -> (out: Expression)
        ensures
            out@ == (ExpressionView::Cast {
                inner: Box::new(inner@),
                target_type: target_type@,
                span,
            }),
    {
        reveal(expression_view);
        Expression::Cast { inner: Box::new(inner), target_type, span }
    }

    /// An array of `dimensions` filled with `element`.
    pub fn array_init(element: Expression, dimensions: ArrayDimensions, span: Span) -> (out:
        Expression)
        ensures
            out@ == (ExpressionView::ArrayInit {
                element: Box::new(element@),
                dimensions: dimensions@,
                span,
            }),
    {
        reveal(expression_view);
        Expression::ArrayInit { element: Box::new(element), dimensions, span }
    }

    /// An access to the field of `tuple` at `index`.
    pub fn tuple_access(tuple: Expression, index: PositiveNumber, span: Span) -> (out: Expression)
        ensures
            out@ == (ExpressionView::TupleAccess { tuple: Box::new(tuple@), index: index@, span }),
    {
        reveal(expression_view);
        Expression::TupleAccess { tuple: Box::new(tuple), index, span }
    }

    /// An access to the member `name` of `circuit`.
    pub fn circuit_member_access(circuit: Expression, name: Identifier, span: Span) -> (out:
        Expression)
        ensures
            out@ == (ExpressionView::CircuitMemberAccess {
                circuit: Box::new(circuit@),
                name: name@,
                span,
            }),
    {
        reveal(expression_view);
        Expression::CircuitMemberAccess { circuit: Box::new(circuit), name, span }
    }

    /// An access to the static member `name` of `circuit`.
    pub fn circuit_static_function_access(circuit: Expression, name: Identifier, span: Span) -> (out:
        Expression)
        ensures
            out@ == (ExpressionView::CircuitStaticFunctionAccess {
                circuit: Box::new(circuit@),
                name: name@,
                span,
            }),
    {
        reveal(expression_view);
        Expression::CircuitStaticFunctionAccess { circuit: Box::new(circuit), name, span }
    }

    /// An access to the element of `array` at `index`.
    pub fn array_access(array: Expression, index: Expression, span: Span) -> (out: Expression)
        ensures
            out@ == (ExpressionView::ArrayAccess {
                array: Box::new(array@),
                index: Box::new(index@),
                span,
            }),
    {
        reveal(expression_view);
        Expression::ArrayAccess { array: Box::new(array), index: Box::new(index), span }
    }

    /// An access to the elements of `array` from `left` up to `right`, each
    /// bound being optional.
    pub fn array_range_access(
        array: Expression,
        left: Option<Box<Expression>>,
        right: Option<Box<Expression>>,
        span: Span,
    ) -> (out: Expression)
        ensures
            out@ == (ExpressionView::ArrayRangeAccess {
                array: Box::new(array@),
                left: boxed_view(left),
                right: boxed_view(right),
                span,
            }),
    {
        reveal(expression_view);
        Expression::ArrayRangeAccess { array: Box::new(array), left, right, span }
    }

    /// A call of `function` on `arguments`.
    pub fn call(function: Expression, arguments: Vec<Expression>, span: Span) -> (out: Expression)
        ensures
            out@ == (ExpressionView::Call {
                function: Box::new(function@),
                arguments: expression_views(arguments@),
                span,
            }),
    {
        reveal(expression_view);
        let ghost views = expression_views(arguments@);
        let out = Expression::Call { function: Box::new(function), arguments, span };
        proof {
            assert(out@->Call_arguments =~= views);
        }
        out
    }

    /// A tuple of `elements`.
    pub fn tuple_init(elements: Vec<Expression>, span: Span) -> (out: Expression)
        ensures
            out@ == (ExpressionView::TupleInit { elements: expression_views(elements@), span }),
    {
        reveal(expression_view);
        let ghost views = expression_views(elements@);
        let out = Expression::TupleInit { elements, span };
        proof {
            assert(out@->TupleInit_elements =~= views);
        }
        out
    }

    /// An array of `elements`.
    pub fn array_inline(elements: Vec<SpreadOrExpression>, span: Span) -> (out: Expression)
        ensures
            out@ == (ExpressionView::ArrayInline { elements: element_views(elements@), span }),
    {
        reveal(expression_view);
        let ghost views = element_views(elements@);
        let out = Expression::ArrayInline { elements, span };
        proof {
            assert(out@->ArrayInline_elements =~= views);
        }
        out
    }

    /// An initializer of the circuit `name` with the fields `members`.
    pub fn circuit_init(
        name: Identifier,
        members: Vec<CircuitImpliedVariableDefinition>,
        span: Span,
    ) -> (out: Expression)
        ensures
            out@ == (ExpressionView::CircuitInit {
                name: name@,
                members: member_views(members@),
                span,
            }),
    {
        reveal(expression_view);
        let ghost views = member_views(members@);
        let out = Expression::CircuitInit { name, members, span };
        proof {
            assert(out@->CircuitInit_members =~= views);
        }
        out
    }
}

} // verus!
