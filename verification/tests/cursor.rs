use expression_parser::ast::{
    ArrayDimensions, Expression, GroupCoordinate, Identifier, IntegerType, PositiveNumber, Type,
    UnaryOperation, ValueExpression,
};
use expression_parser::context::ParserContext;
use expression_parser::errors::{Expected, SyntaxError};
use expression_parser::span::Span;
use expression_parser::text::negated_text;
use expression_parser::token::{Token, TokenKind};

fn sp(start: usize, end: usize) -> Span {
    Span::new(start, end)
}

fn tok(kind: TokenKind, text: &str, start: usize) -> Token {
    Token::new(kind, text, sp(start, start + text.len()))
}

fn number(text: &str) -> PositiveNumber {
    PositiveNumber { value: text.to_string() }
}

#[test]
fn span_merge_is_the_union() {
    assert_eq!(sp(2, 5).merge(sp(7, 9)), sp(2, 9));
    assert_eq!(sp(7, 9).merge(sp(2, 5)), sp(2, 9));
    assert_eq!(sp(2, 9).merge(sp(3, 4)), sp(2, 9));
    assert_eq!(sp(3, 4).merge(sp(3, 4)), sp(3, 4));
    assert_eq!(Span::empty(), sp(0, 0));
}

#[test]
fn token_new_and_duplicate() {
    let token = Token::new(TokenKind::Ident, "abc", sp(1, 4));
    assert_eq!(token.kind, TokenKind::Ident);
    assert_eq!(token.text, "abc");
    assert_eq!(token.span, sp(1, 4));
    assert_eq!(token.duplicate(), token);
}

#[test]
fn negated_text_prepends_a_minus() {
    assert_eq!(negated_text(&"5".to_string()), "-5");
    assert_eq!(negated_text(&"".to_string()), "-");
    assert_eq!(negated_text(&"-12".to_string()), "--12");
    // Longer than a tendril holds inline.
    assert_eq!(
        negated_text(&"340282366920938463463374607431768211455".to_string()),
        "-340282366920938463463374607431768211455"
    );
}

#[test]
fn new_context_starts_at_zero() {
    let context = ParserContext::new(vec![tok(TokenKind::Ident, "a", 0)]);
    assert_eq!(context.position(), 0);
    assert!(context.has_next());
    assert!(!context.fuzzy_struct_state());
    let empty = ParserContext::new(vec![]);
    assert!(!empty.has_next());
}

#[test]
fn peek_does_not_consume() {
    let context = ParserContext::new(vec![tok(TokenKind::Ident, "a", 0)]);
    assert_eq!(context.peek(), Ok(&tok(TokenKind::Ident, "a", 0)));
    assert_eq!(context.position(), 0);
    assert!(context.next_is(TokenKind::Ident));
    assert!(!context.next_is(TokenKind::Int));
    let empty = ParserContext::new(vec![]);
    assert_eq!(empty.peek(), Err(SyntaxError::UnexpectedEof { span: sp(0, 0) }));
    assert!(!empty.next_is(TokenKind::Ident));
}

#[test]
fn eof_reports_the_last_token() {
    let context =
        ParserContext::new(vec![tok(TokenKind::Ident, "a", 0), tok(TokenKind::Add, "+", 2)]);
    assert_eq!(context.eof(), SyntaxError::UnexpectedEof { span: sp(2, 3) });
}

#[test]
fn eat_consumes_only_a_match() {
    let mut context =
        ParserContext::new(vec![tok(TokenKind::Add, "+", 0), tok(TokenKind::Minus, "-", 1)]);
    assert_eq!(context.eat(TokenKind::Minus), None);
    assert_eq!(context.position(), 0);
    assert_eq!(context.eat(TokenKind::Add), Some(sp(0, 1)));
    assert_eq!(context.position(), 1);
    assert_eq!(context.eat(TokenKind::Minus), Some(sp(1, 2)));
    assert_eq!(context.eat(TokenKind::Minus), None);
    assert_eq!(context.position(), 2);
}

#[test]
fn eat_any_consumes_one_of_the_kinds() {
    let mut context =
        ParserContext::new(vec![tok(TokenKind::Mul, "*", 0), tok(TokenKind::Ident, "a", 1)]);
    assert_eq!(context.eat_any(&[TokenKind::Add, TokenKind::Minus]), None);
    assert_eq!(context.eat_any(&[]), None);
    assert_eq!(context.position(), 0);
    assert_eq!(
        context.eat_any(&[TokenKind::Div, TokenKind::Mul]),
        Some((TokenKind::Mul, sp(0, 1)))
    );
    assert_eq!(context.position(), 1);
    assert_eq!(context.eat_any(&[TokenKind::Ident]), Some((TokenKind::Ident, sp(1, 2))));
    assert_eq!(context.eat_any(&[TokenKind::Ident]), None);
}

#[test]
fn expect_fails_without_consuming() {
    let mut context = ParserContext::new(vec![tok(TokenKind::Add, "+", 0)]);
    assert_eq!(
        context.expect(TokenKind::Minus),
        Err(SyntaxError::UnexpectedToken {
            found: tok(TokenKind::Add, "+", 0),
            expected: Expected::Token(TokenKind::Minus),
        })
    );
    assert_eq!(context.position(), 0);
    assert_eq!(context.expect(TokenKind::Add), Ok(sp(0, 1)));
    assert_eq!(context.expect(TokenKind::Add), Err(SyntaxError::UnexpectedEof { span: sp(0, 1) }));
}

#[test]
fn expect_any_takes_whatever_comes() {
    let mut context = ParserContext::new(vec![tok(TokenKind::Return, "return", 0)]);
    assert_eq!(context.expect_any(), Ok(tok(TokenKind::Return, "return", 0)));
    assert_eq!(context.position(), 1);
    assert_eq!(context.expect_any(), Err(SyntaxError::UnexpectedEof { span: sp(0, 6) }));
    assert_eq!(context.position(), 1);
}

#[test]
fn identifiers_and_numbers() {
    let mut context =
        ParserContext::new(vec![tok(TokenKind::Ident, "abc", 0), tok(TokenKind::Int, "42", 4)]);
    assert_eq!(context.eat_int(), None);
    assert_eq!(
        context.eat_identifier(),
        Some(Identifier { name: "abc".to_string(), span: sp(0, 3) })
    );
    assert_eq!(context.eat_identifier(), None);
    assert_eq!(
        context.expect_ident(),
        Err(SyntaxError::UnexpectedToken {
            found: tok(TokenKind::Int, "42", 4),
            expected: Expected::Identifier,
        })
    );
    assert_eq!(context.position(), 1);
    assert_eq!(context.eat_int(), Some((number("42"), sp(4, 6))));
    assert_eq!(context.expect_ident(), Err(SyntaxError::UnexpectedEof { span: sp(4, 6) }));
}

#[test]
fn expect_int_requires_a_numeral() {
    let mut context =
        ParserContext::new(vec![tok(TokenKind::Int, "42", 0), tok(TokenKind::Ident, "a", 3)]);
    assert_eq!(context.expect_int(), Ok((number("42"), sp(0, 2))));
    assert_eq!(
        context.expect_int(),
        Err(SyntaxError::UnexpectedToken {
            found: tok(TokenKind::Ident, "a", 3),
            expected: Expected::Integer,
        })
    );
    assert_eq!(context.position(), 1);
}

#[test]
fn keywords_are_no_identifiers() {
    let mut context = ParserContext::new(vec![tok(TokenKind::BigSelf, "Self", 0)]);
    assert_eq!(context.eat_identifier(), None);
    assert_eq!(context.position(), 0);
}

#[test]
fn unexpected_names_the_next_token() {
    let context = ParserContext::new(vec![tok(TokenKind::Dot, ".", 3)]);
    assert_eq!(
        context.unexpected(Expected::Type),
        SyntaxError::UnexpectedToken { found: tok(TokenKind::Dot, ".", 3), expected: Expected::Type }
    );
    let empty = ParserContext::new(vec![]);
    assert_eq!(
        empty.unexpected(Expected::Type),
        SyntaxError::UnexpectedEof { span: sp(0, 0) }
    );
}

#[test]
fn group_partial_consumes_a_whole_pair() {
    // 1 , - 2 ) group x
    let mut context = ParserContext::new(vec![
        tok(TokenKind::Int, "1", 1),
        tok(TokenKind::Comma, ",", 2),
        tok(TokenKind::Minus, "-", 4),
        tok(TokenKind::Int, "2", 5),
        tok(TokenKind::RightParen, ")", 6),
        tok(TokenKind::Group, "group", 7),
        tok(TokenKind::Ident, "x", 13),
    ]);
    assert_eq!(
        context.eat_group_partial(),
        Some((
            GroupCoordinate::Number { value: "1".to_string(), span: sp(1, 2) },
            GroupCoordinate::Number { value: "-2".to_string(), span: sp(4, 6) },
            sp(1, 12),
        ))
    );
    assert_eq!(context.position(), 6);
}

#[test]
fn group_partial_consumes_nothing_on_failure() {
    let streams = vec![
        vec![],
        vec![tok(TokenKind::Int, "1", 0)],
        vec![tok(TokenKind::Int, "1", 0), tok(TokenKind::Comma, ",", 1)],
        vec![tok(TokenKind::Int, "1", 0), tok(TokenKind::Comma, ",", 1), tok(TokenKind::Int, "2", 2)],
        vec![
            tok(TokenKind::Int, "1", 0),
            tok(TokenKind::Comma, ",", 1),
            tok(TokenKind::Int, "2", 2),
            tok(TokenKind::RightParen, ")", 3),
        ],
        vec![
            tok(TokenKind::Int, "1", 0),
            tok(TokenKind::Comma, ",", 1),
            tok(TokenKind::Int, "2", 2),
            tok(TokenKind::RightParen, ")", 3),
            tok(TokenKind::Field, "field", 4),
        ],
        vec![
            tok(TokenKind::Ident, "a", 0),
            tok(TokenKind::Comma, ",", 1),
            tok(TokenKind::Int, "2", 2),
            tok(TokenKind::RightParen, ")", 3),
            tok(TokenKind::Group, "group", 4),
        ],
        vec![
            tok(TokenKind::Int, "1", 0),
            tok(TokenKind::Semicolon, ";", 1),
            tok(TokenKind::Int, "2", 2),
            tok(TokenKind::RightParen, ")", 3),
            tok(TokenKind::Group, "group", 4),
        ],
    ];
    for tokens in streams {
        let mut context = ParserContext::new(tokens);
        assert_eq!(context.eat_group_partial(), None);
        assert_eq!(context.position(), 0);
    }
}

#[test]
fn group_coordinate_signs() {
    let mut context = ParserContext::new(vec![
        tok(TokenKind::Minus, "-", 0),
        tok(TokenKind::Comma, ",", 1),
        tok(TokenKind::Add, "+", 2),
        tok(TokenKind::RightParen, ")", 3),
        tok(TokenKind::Group, "group", 4),
    ]);
    assert_eq!(
        context.eat_group_partial(),
        Some((GroupCoordinate::SignLow, GroupCoordinate::SignHigh, sp(0, 9)))
    );
    let mut context = ParserContext::new(vec![
        tok(TokenKind::Ident, "_", 0),
        tok(TokenKind::Comma, ",", 1),
        tok(TokenKind::Ident, "_", 2),
        tok(TokenKind::RightParen, ")", 3),
        tok(TokenKind::Group, "group", 4),
    ]);
    assert_eq!(
        context.eat_group_partial(),
        Some((GroupCoordinate::Inferred, GroupCoordinate::Inferred, sp(0, 9)))
    );
}

#[test]
fn int_type_of_a_keyword() {
    assert_eq!(ParserContext::token_to_int_type(TokenKind::U8), Some(IntegerType::U8));
    assert_eq!(ParserContext::token_to_int_type(TokenKind::U16), Some(IntegerType::U16));
    assert_eq!(ParserContext::token_to_int_type(TokenKind::U32), Some(IntegerType::U32));
    assert_eq!(ParserContext::token_to_int_type(TokenKind::U64), Some(IntegerType::U64));
    assert_eq!(ParserContext::token_to_int_type(TokenKind::U128), Some(IntegerType::U128));
    assert_eq!(ParserContext::token_to_int_type(TokenKind::I8), Some(IntegerType::I8));
    assert_eq!(ParserContext::token_to_int_type(TokenKind::I16), Some(IntegerType::I16));
    assert_eq!(ParserContext::token_to_int_type(TokenKind::I32), Some(IntegerType::I32));
    assert_eq!(ParserContext::token_to_int_type(TokenKind::I64), Some(IntegerType::I64));
    assert_eq!(ParserContext::token_to_int_type(TokenKind::I128), Some(IntegerType::I128));
    assert_eq!(ParserContext::token_to_int_type(TokenKind::Field), None);
    assert_eq!(ParserContext::token_to_int_type(TokenKind::Ident), None);
}

#[test]
fn simple_types() {
    let cases = vec![
        (TokenKind::Field, "field", Type::Field),
        (TokenKind::Group, "group", Type::Group),
        (TokenKind::Address, "address", Type::Address),
        (TokenKind::Bool, "bool", Type::Boolean),
        (TokenKind::U32, "u32", Type::IntegerType(IntegerType::U32)),
        (TokenKind::BigSelf, "Self", Type::SelfType),
        (
            TokenKind::Ident,
            "Foo",
            Type::Circuit(Identifier { name: "Foo".to_string(), span: sp(0, 3) }),
        ),
    ];
    for (kind, text, expected) in cases {
        let mut context = ParserContext::new(vec![tok(kind, text, 0)]);
        assert_eq!(context.parse_type(), Ok((expected, sp(0, text.len()))));
        assert_eq!(context.position(), 1);
    }
}

#[test]
fn tuple_and_array_types() {
    // ( u8 , [ bool ; 3 ] , )
    let mut context = ParserContext::new(vec![
        tok(TokenKind::LeftParen, "(", 0),
        tok(TokenKind::U8, "u8", 1),
        tok(TokenKind::Comma, ",", 3),
        tok(TokenKind::LeftSquare, "[", 5),
        tok(TokenKind::Bool, "bool", 6),
        tok(TokenKind::Semicolon, ";", 10),
        tok(TokenKind::Int, "3", 12),
        tok(TokenKind::RightSquare, "]", 13),
        tok(TokenKind::Comma, ",", 14),
        tok(TokenKind::RightParen, ")", 15),
    ]);
    let expected = Type::Tuple(vec![
        Type::IntegerType(IntegerType::U8),
        Type::Array(Box::new(Type::Boolean), ArrayDimensions(vec![number("3")])),
    ]);
    assert_eq!(context.parse_type(), Ok((expected, sp(0, 16))));
    assert_eq!(context.position(), 10);

    let mut context =
        ParserContext::new(vec![tok(TokenKind::LeftParen, "(", 0), tok(TokenKind::RightParen, ")", 1)]);
    assert_eq!(context.parse_type(), Ok((Type::Tuple(vec![]), sp(0, 2))));
}

#[test]
fn type_errors() {
    let mut context = ParserContext::new(vec![tok(TokenKind::Add, "+", 0)]);
    assert_eq!(
        context.parse_type(),
        Err(SyntaxError::UnexpectedToken { found: tok(TokenKind::Add, "+", 0), expected: Expected::Type })
    );
    assert_eq!(context.position(), 0);
    let mut context = ParserContext::new(vec![]);
    assert_eq!(context.parse_type(), Err(SyntaxError::UnexpectedEof { span: sp(0, 0) }));
    let mut context =
        ParserContext::new(vec![tok(TokenKind::LeftSquare, "[", 0), tok(TokenKind::U8, "u8", 1)]);
    assert_eq!(context.parse_type(), Err(SyntaxError::UnexpectedEof { span: sp(1, 3) }));
    assert_eq!(context.position(), 2);
    let mut context = ParserContext::new(vec![
        tok(TokenKind::LeftParen, "(", 0),
        tok(TokenKind::U8, "u8", 1),
        tok(TokenKind::U8, "u8", 4),
    ]);
    assert_eq!(
        context.parse_type(),
        Err(SyntaxError::UnexpectedToken {
            found: tok(TokenKind::U8, "u8", 4),
            expected: Expected::Token(TokenKind::RightParen),
        })
    );
}

#[test]
fn array_dimensions() {
    let mut context = ParserContext::new(vec![tok(TokenKind::Int, "4", 0)]);
    assert_eq!(context.parse_array_dimensions(), Ok(ArrayDimensions(vec![number("4")])));
    let mut context = ParserContext::new(vec![
        tok(TokenKind::LeftParen, "(", 0),
        tok(TokenKind::Int, "2", 1),
        tok(TokenKind::Comma, ",", 2),
        tok(TokenKind::Int, "3", 4),
        tok(TokenKind::RightParen, ")", 5),
    ]);
    assert_eq!(
        context.parse_array_dimensions(),
        Ok(ArrayDimensions(vec![number("2"), number("3")]))
    );
    assert_eq!(context.position(), 5);
    // No comma may follow the last size.
    let mut context = ParserContext::new(vec![
        tok(TokenKind::LeftParen, "(", 0),
        tok(TokenKind::Int, "2", 1),
        tok(TokenKind::Comma, ",", 2),
        tok(TokenKind::RightParen, ")", 3),
    ]);
    assert_eq!(
        context.parse_array_dimensions(),
        Err(SyntaxError::UnexpectedToken {
            found: tok(TokenKind::RightParen, ")", 3),
            expected: Expected::Integer,
        })
    );
    let mut context = ParserContext::new(vec![tok(TokenKind::LeftParen, "(", 0), tok(TokenKind::RightParen, ")", 1)]);
    assert_eq!(
        context.parse_array_dimensions(),
        Err(SyntaxError::UnexpectedToken {
            found: tok(TokenKind::RightParen, ")", 1),
            expected: Expected::Integer,
        })
    );
}

#[test]
fn constructors_build_the_nodes() {
    let a = || Expression::Identifier(Identifier { name: "a".to_string(), span: sp(0, 1) });
    assert_eq!(
        Expression::unary(UnaryOperation::Not, a(), sp(0, 2)),
        Expression::Unary { op: UnaryOperation::Not, inner: Box::new(a()), span: sp(0, 2) }
    );
    assert_eq!(
        Expression::array_range_access(a(), None, Some(Box::new(a())), sp(0, 5)),
        Expression::ArrayRangeAccess {
            array: Box::new(a()),
            left: None,
            right: Some(Box::new(a())),
            span: sp(0, 5),
        }
    );
    assert_eq!(
        Expression::call(a(), vec![a()], sp(0, 4)),
        Expression::Call { function: Box::new(a()), arguments: vec![a()], span: sp(0, 4) }
    );
    assert_eq!(Expression::tuple_init(vec![], sp(0, 2)).span(), sp(0, 2));
    assert_eq!(
        Type::tuple(vec![Type::Field]),
        Type::Tuple(vec![Type::Field])
    );
    assert_eq!(
        Type::array(Type::Field, ArrayDimensions(vec![number("2")])),
        Type::Array(Box::new(Type::Field), ArrayDimensions(vec![number("2")]))
    );
}

#[test]
fn fold_powers_and_prefixes() {
    let id = |name: &str, at: usize| {
        Expression::Identifier(Identifier { name: name.to_string(), span: sp(at, at + 1) })
    };
    let folded = ParserContext::fold_powers(vec![id("a", 0), id("b", 2), id("c", 4)]);
    assert_eq!(folded.span(), sp(0, 5));
    match folded {
        Expression::Binary { left, right, .. } => {
            assert_eq!(*left, id("a", 0));
            assert_eq!(right.span(), sp(2, 5));
        },
        other => panic!("not a binary node: {:?}", other),
    }
    assert_eq!(ParserContext::fold_powers(vec![id("a", 0)]), id("a", 0));

    let five = Expression::Value(ValueExpression::Implicit { value: "5".to_string(), span: sp(2, 3) });
    let applied = ParserContext::apply_prefixes(
        vec![(UnaryOperation::Not, sp(0, 1)), (UnaryOperation::Negate, sp(1, 2))],
        five,
    );
    assert_eq!(
        applied,
        Expression::Unary {
            op: UnaryOperation::Not,
            inner: Box::new(Expression::Value(ValueExpression::Implicit {
                value: "-5".to_string(),
                span: sp(1, 3),
            })),
            span: sp(0, 3),
        }
    );
    assert_eq!(
        ParserContext::apply_prefix(UnaryOperation::Negate, sp(0, 1), id("x", 1)),
        Expression::Unary { op: UnaryOperation::Negate, inner: Box::new(id("x", 1)), span: sp(0, 2) }
    );
}
