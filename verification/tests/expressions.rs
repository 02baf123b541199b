use expression_parser::ast::{
    ArrayDimensions, BinaryOperation, CircuitImpliedVariableDefinition, Expression, GroupCoordinate, GroupValue,
    Identifier, IntegerType, PositiveNumber, SpreadOrExpression, Type, UnaryOperation,
    ValueExpression,
};
use expression_parser::context::ParserContext;
use expression_parser::errors::{Expected, SyntaxError};
use expression_parser::span::Span;
use expression_parser::token::{Token, TokenKind};

fn keyword(word: &str) -> Option<TokenKind> {
    Some(match word {
        "true" => TokenKind::True,
        "false" => TokenKind::False,
        "i8" => TokenKind::I8,
        "i16" => TokenKind::I16,
        "i32" => TokenKind::I32,
        "i64" => TokenKind::I64,
        "i128" => TokenKind::I128,
        "u8" => TokenKind::U8,
        "u16" => TokenKind::U16,
        "u32" => TokenKind::U32,
        "u64" => TokenKind::U64,
        "u128" => TokenKind::U128,
        "field" => TokenKind::Field,
        "group" => TokenKind::Group,
        "address" => TokenKind::Address,
        "bool" => TokenKind::Bool,
        "as" => TokenKind::As,
        "Self" => TokenKind::BigSelf,
        "self" => TokenKind::LittleSelf,
        "input" => TokenKind::Input,
        "if" => TokenKind::If,
        "else" => TokenKind::Else,
        "for" => TokenKind::For,
        "in" => TokenKind::In,
        "let" => TokenKind::Let,
        "const" => TokenKind::Const,
        "return" => TokenKind::Return,
        _ => return None,
    })
}

const SYMBOLS: &[(&str, TokenKind)] = &[
    ("...", TokenKind::DotDotDot),
    (">>>", TokenKind::ShrSigned),
    ("**", TokenKind::Exp),
    ("&&", TokenKind::And),
    ("||", TokenKind::Or),
    ("==", TokenKind::Eq),
    ("!=", TokenKind::NotEq),
    ("<=", TokenKind::LtEq),
    (">=", TokenKind::GtEq),
    ("<<", TokenKind::Shl),
    (">>", TokenKind::Shr),
    ("::", TokenKind::DoubleColon),
    ("..", TokenKind::DotDot),
    ("->", TokenKind::Arrow),
    ("!", TokenKind::Not),
    ("&", TokenKind::BitAnd),
    ("|", TokenKind::BitOr),
    ("^", TokenKind::BitXor),
    ("~", TokenKind::BitNot),
    ("<", TokenKind::Lt),
    (">", TokenKind::Gt),
    ("+", TokenKind::Add),
    ("-", TokenKind::Minus),
    ("*", TokenKind::Mul),
    ("/", TokenKind::Div),
    ("%", TokenKind::Mod),
    ("=", TokenKind::Assign),
    ("?", TokenKind::Question),
    (":", TokenKind::Colon),
    (",", TokenKind::Comma),
    (".", TokenKind::Dot),
    (";", TokenKind::Semicolon),
    ("(", TokenKind::LeftParen),
    (")", TokenKind::RightParen),
    ("[", TokenKind::LeftSquare),
    ("]", TokenKind::RightSquare),
    ("{", TokenKind::LeftCurly),
    ("}", TokenKind::RightCurly),
];

/// Splits a source text into tokens whose spans are byte offsets.
fn lex(source: &str) -> Vec<Token> {
    let bytes = source.as_bytes();
    let mut tokens = Vec::new();
    let mut i = 0;
    'outer: while i < bytes.len() {
        let c = bytes[i] as char;
        if c.is_whitespace() {
            i += 1;
            continue;
        }
        let start = i;
        if c.is_ascii_digit() {
            while i < bytes.len() && (bytes[i] as char).is_ascii_digit() {
                i += 1;
            }
            tokens.push(Token::new(TokenKind::Int, &source[start..i], Span::new(start, i)));
            continue;
        }
        if c.is_ascii_alphabetic() || c == '_' {
            while i < bytes.len() && ((bytes[i] as char).is_ascii_alphanumeric() || bytes[i] == b'_')
            {
                i += 1;
            }
            let word = &source[start..i];
            let kind = if word.starts_with("aleo1") {
                TokenKind::AddressLit
            } else {
                keyword(word).unwrap_or(TokenKind::Ident)
            };
            tokens.push(Token::new(kind, word, Span::new(start, i)));
            continue;
        }
        for (text, kind) in SYMBOLS {
            if source[i..].starts_with(text) {
                i += text.len();
                tokens.push(Token::new(*kind, text, Span::new(start, i)));
                continue 'outer;
            }
        }
        panic!("cannot lex {:?} at {}", c, i);
    }
    tokens
}

fn parse(source: &str) -> Result<Expression, SyntaxError> {
    ParserContext::new(lex(source)).parse_expression()
}

fn sp(start: usize, end: usize) -> Span {
    Span::new(start, end)
}

fn ident(name: &str, start: usize) -> Expression {
    Expression::Identifier(Identifier { name: name.to_string(), span: sp(start, start + name.len()) })
}

fn implicit(text: &str, start: usize, end: usize) -> Expression {
    Expression::Value(ValueExpression::Implicit { value: text.to_string(), span: sp(start, end) })
}

fn integer(int_type: IntegerType, text: &str, start: usize, end: usize) -> Expression {
    Expression::Value(ValueExpression::Integer {
        int_type,
        value: text.to_string(),
        span: sp(start, end),
    })
}

fn name(text: &str, start: usize) -> Identifier {
    Identifier { name: text.to_string(), span: sp(start, start + text.len()) }
}

fn number(text: &str) -> PositiveNumber {
    PositiveNumber { value: text.to_string() }
}

fn binary(op: BinaryOperation, left: Expression, right: Expression) -> Expression {
    let span = left.span().merge(right.span());
    Expression::Binary { op, left: Box::new(left), right: Box::new(right), span }
}

fn unary(op: UnaryOperation, start: usize, inner: Expression) -> Expression {
    let span = sp(start, inner.span().end);
    Expression::Unary { op, inner: Box::new(inner), span }
}

/// Checks that `a OP b OP c` groups to the left for the given operators of
/// one level, in every order of two of them.
fn check_left_associative(operators: &[(&str, BinaryOperation)]) {
    for (first_text, first) in operators {
        for (second_text, second) in operators {
            let source = format!("a {} b {} c", first_text, second_text);
            let b_at = 2 + first_text.len() + 1;
            let c_at = b_at + 2 + second_text.len() + 1;
            let expected = binary(
                *second,
                binary(*first, ident("a", 0), ident("b", b_at)),
                ident("c", c_at),
            );
            assert_eq!(parse(&source), Ok(expected), "{}", source);
        }
    }
}

#[test]
fn single_identifier() {
    assert_eq!(parse("abc"), Ok(ident("abc", 0)));
}

#[test]
fn or_is_left_associative() {
    check_left_associative(&[("||", BinaryOperation::Or)]);
}

#[test]
fn and_is_left_associative() {
    check_left_associative(&[("&&", BinaryOperation::And)]);
}

#[test]
fn bit_or_is_left_associative() {
    check_left_associative(&[("|", BinaryOperation::BitOr)]);
}

#[test]
fn bit_xor_is_left_associative() {
    check_left_associative(&[("^", BinaryOperation::BitXor)]);
}

#[test]
fn bit_and_is_left_associative() {
    check_left_associative(&[("&", BinaryOperation::BitAnd)]);
}

#[test]
fn equality_is_left_associative() {
    check_left_associative(&[("==", BinaryOperation::Eq), ("!=", BinaryOperation::Ne)]);
}

#[test]
fn relational_is_left_associative() {
    check_left_associative(&[
        ("<", BinaryOperation::Lt),
        ("<=", BinaryOperation::Le),
        (">", BinaryOperation::Gt),
        (">=", BinaryOperation::Ge),
    ]);
}

#[test]
fn shift_is_left_associative() {
    check_left_associative(&[
        ("<<", BinaryOperation::Shl),
        (">>", BinaryOperation::Shr),
        (">>>", BinaryOperation::ShrSigned),
    ]);
}

#[test]
fn additive_is_left_associative() {
    check_left_associative(&[("+", BinaryOperation::Add), ("-", BinaryOperation::Sub)]);
}

#[test]
fn multiplicative_is_left_associative() {
    check_left_associative(&[
        ("*", BinaryOperation::Mul),
        ("/", BinaryOperation::Div),
        ("%", BinaryOperation::Mod),
    ]);
}

#[test]
fn left_associative_span_is_union() {
    let parsed = parse("a + b + c").unwrap();
    assert_eq!(parsed.span(), sp(0, 9));
    match parsed {
        Expression::Binary { left, .. } => assert_eq!(left.span(), sp(0, 5)),
        other => panic!("not a binary node: {:?}", other),
    }
}

#[test]
fn power_is_right_associative() {
    let expected = binary(
        BinaryOperation::Pow,
        ident("a", 0),
        binary(BinaryOperation::Pow, ident("b", 5), ident("c", 10)),
    );
    assert_eq!(parse("a ** b ** c"), Ok(expected));
}

#[test]
fn power_chain_of_four() {
    let expected = binary(
        BinaryOperation::Pow,
        ident("a", 0),
        binary(
            BinaryOperation::Pow,
            ident("b", 3),
            binary(BinaryOperation::Pow, ident("c", 6), ident("d", 9)),
        ),
    );
    assert_eq!(parse("a**b**c**d"), Ok(expected));
}

#[test]
fn multiplication_binds_tighter_than_addition() {
    let expected = binary(
        BinaryOperation::Add,
        ident("a", 0),
        binary(BinaryOperation::Mul, ident("b", 4), ident("c", 8)),
    );
    assert_eq!(parse("a + b * c"), Ok(expected));
    let expected = binary(
        BinaryOperation::Add,
        binary(BinaryOperation::Mul, ident("a", 0), ident("b", 4)),
        ident("c", 8),
    );
    assert_eq!(parse("a * b + c"), Ok(expected));
}

#[test]
fn power_binds_tighter_than_multiplication() {
    let expected = binary(
        BinaryOperation::Mul,
        ident("a", 0),
        binary(BinaryOperation::Pow, ident("b", 4), ident("c", 9)),
    );
    assert_eq!(parse("a * b ** c"), Ok(expected));
}

#[test]
fn every_level_in_one_expression() {
    let source = "a || b && c | d ^ e & f == g < h << i + j * k ** l";
    let l = binary(BinaryOperation::Pow, ident("k", 44), ident("l", 49));
    let j = binary(BinaryOperation::Mul, ident("j", 40), l);
    let i = binary(BinaryOperation::Add, ident("i", 36), j);
    let h = binary(BinaryOperation::Shl, ident("h", 31), i);
    let g = binary(BinaryOperation::Lt, ident("g", 27), h);
    let f = binary(BinaryOperation::Eq, ident("f", 22), g);
    let e = binary(BinaryOperation::BitAnd, ident("e", 18), f);
    let d = binary(BinaryOperation::BitXor, ident("d", 14), e);
    let c = binary(BinaryOperation::BitOr, ident("c", 10), d);
    let b = binary(BinaryOperation::And, ident("b", 5), c);
    let expected = binary(BinaryOperation::Or, ident("a", 0), b);
    assert_eq!(parse(source), Ok(expected));
}

#[test]
fn ternary_simple() {
    let expected = Expression::Ternary {
        condition: Box::new(ident("a", 0)),
        if_true: Box::new(ident("b", 4)),
        if_false: Box::new(ident("c", 8)),
        span: sp(0, 9),
    };
    assert_eq!(parse("a ? b : c"), Ok(expected));
}

#[test]
fn ternary_nests_to_the_right() {
    let inner = Expression::Ternary {
        condition: Box::new(ident("c", 8)),
        if_true: Box::new(ident("d", 12)),
        if_false: Box::new(ident("e", 16)),
        span: sp(8, 17),
    };
    let expected = Expression::Ternary {
        condition: Box::new(ident("a", 0)),
        if_true: Box::new(ident("b", 4)),
        if_false: Box::new(inner),
        span: sp(0, 17),
    };
    assert_eq!(parse("a ? b : c ? d : e"), Ok(expected));
}

#[test]
fn ternary_in_middle_branch() {
    let middle = Expression::Ternary {
        condition: Box::new(ident("b", 4)),
        if_true: Box::new(ident("c", 8)),
        if_false: Box::new(ident("d", 12)),
        span: sp(4, 13),
    };
    let expected = Expression::Ternary {
        condition: Box::new(ident("a", 0)),
        if_true: Box::new(middle),
        if_false: Box::new(ident("e", 16)),
        span: sp(0, 17),
    };
    assert_eq!(parse("a ? b ? c : d : e"), Ok(expected));
}

#[test]
fn ternary_condition_is_an_or_expression() {
    let expected = Expression::Ternary {
        condition: Box::new(binary(BinaryOperation::Or, ident("a", 0), ident("b", 5))),
        if_true: Box::new(ident("c", 9)),
        if_false: Box::new(ident("d", 13)),
        span: sp(0, 14),
    };
    assert_eq!(parse("a || b ? c : d"), Ok(expected));
}

#[test]
fn ternary_without_colon_fails() {
    assert_eq!(parse("a ? b"), Err(SyntaxError::UnexpectedEof { span: sp(4, 5) }));
    assert_eq!(
        parse("a ? b c"),
        Err(SyntaxError::UnexpectedToken {
            found: Token::new(TokenKind::Ident, "c", sp(6, 7)),
            expected: Expected::Token(TokenKind::Colon),
        })
    );
}

#[test]
fn negative_literal_is_folded() {
    assert_eq!(parse("-5"), Ok(implicit("-5", 0, 2)));
}

#[test]
fn negative_typed_integer_is_folded() {
    assert_eq!(parse("-128i8"), Ok(integer(IntegerType::I8, "-128", 0, 6)));
}

#[test]
fn negated_identifier_is_unary() {
    assert_eq!(parse("-x"), Ok(unary(UnaryOperation::Negate, 0, ident("x", 1))));
}

#[test]
fn double_negation_folds_twice() {
    assert_eq!(parse("--5"), Ok(implicit("--5", 0, 3)));
}

#[test]
fn negated_parenthesized_literal_is_folded() {
    assert_eq!(parse("-(5)"), Ok(implicit("-5", 0, 3)));
}

#[test]
fn negated_field_is_not_folded() {
    let field = Expression::Value(ValueExpression::Field { value: "5".to_string(), span: sp(1, 7) });
    assert_eq!(parse("-5field"), Ok(unary(UnaryOperation::Negate, 0, field)));
}

#[test]
fn negated_access_is_not_folded() {
    let array = Expression::ArrayInline {
        elements: vec![SpreadOrExpression::Expression(implicit("5", 2, 3))],
        span: sp(1, 4),
    };
    let access = Expression::ArrayAccess {
        array: Box::new(array),
        index: Box::new(implicit("0", 5, 6)),
        span: sp(1, 7),
    };
    assert_eq!(parse("-[5][0]"), Ok(unary(UnaryOperation::Negate, 0, access)));
}

#[test]
fn not_and_bit_not_wrap_literals() {
    assert_eq!(parse("!5"), Ok(unary(UnaryOperation::Not, 0, implicit("5", 1, 2))));
    assert_eq!(parse("~5"), Ok(unary(UnaryOperation::BitNot, 0, implicit("5", 1, 2))));
}

#[test]
fn prefix_operators_apply_innermost_first() {
    let expected = unary(
        UnaryOperation::Not,
        0,
        unary(UnaryOperation::BitNot, 1, unary(UnaryOperation::Negate, 2, ident("x", 3))),
    );
    assert_eq!(parse("!~-x"), Ok(expected));
    // The minus nearest to the numeral folds; the operators before it wrap.
    assert_eq!(parse("!-5"), Ok(unary(UnaryOperation::Not, 0, implicit("-5", 1, 3))));
    // A minus in front of a wrapped numeral does not fold.
    let expected =
        unary(UnaryOperation::Negate, 0, unary(UnaryOperation::Not, 1, implicit("5", 2, 3)));
    assert_eq!(parse("-!5"), Ok(expected));
}

#[test]
fn unary_binds_tighter_than_binary() {
    let expected = binary(
        BinaryOperation::Sub,
        unary(UnaryOperation::Negate, 0, ident("a", 1)),
        implicit("-1", 5, 7),
    );
    assert_eq!(parse("-a - -1"), Ok(expected));
}

#[test]
fn cast_chain_applies_left_to_right() {
    let first = Expression::Cast {
        inner: Box::new(ident("x", 0)),
        target_type: Type::IntegerType(IntegerType::U8),
        span: sp(0, 7),
    };
    let expected = Expression::Cast {
        inner: Box::new(first),
        target_type: Type::IntegerType(IntegerType::U16),
        span: sp(0, 14),
    };
    assert_eq!(parse("x as u8 as u16"), Ok(expected));
}

#[test]
fn cast_applies_to_unary() {
    let expected = Expression::Cast {
        inner: Box::new(unary(UnaryOperation::Negate, 0, ident("x", 1))),
        target_type: Type::Field,
        span: sp(0, 11),
    };
    assert_eq!(parse("-x as field"), Ok(expected));
}

#[test]
fn cast_to_compound_types() {
    let expected = Expression::Cast {
        inner: Box::new(ident("x", 0)),
        target_type: Type::Tuple(vec![Type::Boolean, Type::Circuit(name("Foo", 12)), Type::SelfType]),
        span: sp(0, 22),
    };
    assert_eq!(parse("x as (bool, Foo, Self)"), Ok(expected));
    let expected = Expression::Cast {
        inner: Box::new(ident("x", 0)),
        target_type: Type::Array(
            Box::new(Type::IntegerType(IntegerType::U8)),
            ArrayDimensions(vec![number("2"), number("3")]),
        ),
        span: sp(0, 17),
    };
    assert_eq!(parse("x as [u8; (2, 3)]"), Ok(expected));
}

#[test]
fn cast_without_type_fails() {
    assert_eq!(
        parse("x as 5"),
        Err(SyntaxError::UnexpectedToken {
            found: Token::new(TokenKind::Int, "5", sp(5, 6)),
            expected: Expected::Type,
        })
    );
    assert_eq!(parse("x as"), Err(SyntaxError::UnexpectedEof { span: sp(2, 4) }));
}

#[test]
fn struct_literal_when_allowed() {
    let expected = Expression::CircuitInit {
        name: name("Foo", 0),
        members: vec![CircuitImpliedVariableDefinition {
            identifier: name("a", 6),
            expression: Some(implicit("1", 9, 10)),
        }],
        span: sp(0, 12),
    };
    assert_eq!(parse("Foo { a: 1 }"), Ok(expected));
}

#[test]
fn struct_literal_left_alone_when_restricted() {
    let mut context = ParserContext::new(lex("Foo { a: 1 }"));
    context.set_fuzzy_struct_state(true);
    assert_eq!(context.parse_expression_fuzzy(), Ok(ident("Foo", 0)));
    assert_eq!(context.position(), 1);
    assert!(context.fuzzy_struct_state());
    assert_eq!(context.eat(TokenKind::LeftCurly), Some(sp(4, 5)));
}

#[test]
fn unrestricted_entry_ignores_and_restores_the_mode() {
    let mut context = ParserContext::new(lex("Foo { a }"));
    context.set_fuzzy_struct_state(true);
    let expected = Expression::CircuitInit {
        name: name("Foo", 0),
        members: vec![CircuitImpliedVariableDefinition { identifier: name("a", 6), expression: None }],
        span: sp(0, 9),
    };
    assert_eq!(context.parse_expression(), Ok(expected));
    assert!(context.fuzzy_struct_state());
    assert_eq!(context.position(), 4);
}

#[test]
fn mode_is_restored_after_a_failure() {
    let mut context = ParserContext::new(lex("Foo { 1 }"));
    context.set_fuzzy_struct_state(true);
    assert_eq!(
        context.parse_expression(),
        Err(SyntaxError::UnexpectedToken {
            found: Token::new(TokenKind::Int, "1", sp(6, 7)),
            expected: Expected::Identifier,
        })
    );
    assert!(context.fuzzy_struct_state());
    assert_eq!(context.position(), 2);
}

#[test]
fn brackets_lift_the_restriction() {
    let mut context = ParserContext::new(lex("(Foo {}) { x }"));
    context.set_fuzzy_struct_state(true);
    let expected = Expression::CircuitInit { name: name("Foo", 1), members: vec![], span: sp(1, 7) };
    assert_eq!(context.parse_expression_fuzzy(), Ok(expected));
    assert_eq!(context.position(), 5);
    assert!(context.fuzzy_struct_state());
}

#[test]
fn restriction_holds_in_operands_and_last_branch() {
    let mut context = ParserContext::new(lex("a == Foo { x }"));
    context.set_fuzzy_struct_state(true);
    let expected = binary(BinaryOperation::Eq, ident("a", 0), ident("Foo", 5));
    assert_eq!(context.parse_expression_fuzzy(), Ok(expected));
    assert_eq!(context.position(), 3);

    let mut context = ParserContext::new(lex("a ? Foo {} : Bar { x }"));
    context.set_fuzzy_struct_state(true);
    let expected = Expression::Ternary {
        condition: Box::new(ident("a", 0)),
        if_true: Box::new(Expression::CircuitInit {
            name: name("Foo", 4),
            members: vec![],
            span: sp(4, 10),
        }),
        if_false: Box::new(ident("Bar", 13)),
        span: sp(0, 16),
    };
    assert_eq!(context.parse_expression_fuzzy(), Ok(expected));
    assert_eq!(context.position(), 7);
}

#[test]
fn circuit_init_forms() {
    let expected = Expression::CircuitInit {
        name: name("Self", 0),
        members: vec![
            CircuitImpliedVariableDefinition { identifier: name("a", 7), expression: None },
            CircuitImpliedVariableDefinition {
                identifier: name("b", 10),
                expression: Some(binary(BinaryOperation::Add, ident("c", 13), implicit("1", 17, 18))),
            },
        ],
        span: sp(0, 21),
    };
    assert_eq!(parse("Self { a, b: c + 1, }"), Ok(expected));
    assert_eq!(
        parse("Foo {}"),
        Ok(Expression::CircuitInit { name: name("Foo", 0), members: vec![], span: sp(0, 6) })
    );
}

#[test]
fn circuit_init_errors() {
    assert_eq!(
        parse("Foo { a b }"),
        Err(SyntaxError::UnexpectedToken {
            found: Token::new(TokenKind::Ident, "b", sp(8, 9)),
            expected: Expected::Token(TokenKind::RightCurly),
        })
    );
    assert_eq!(parse("Foo { a:"), Err(SyntaxError::UnexpectedEof { span: sp(7, 8) }));
    assert_eq!(parse("Foo {"), Err(SyntaxError::UnexpectedEof { span: sp(4, 5) }));
}

#[test]
fn parse_circuit_init_directly() {
    let mut context = ParserContext::new(lex("{ x: 1 } rest"));
    let expected = Expression::CircuitInit {
        name: name("Point", 100),
        members: vec![CircuitImpliedVariableDefinition {
            identifier: name("x", 2),
            expression: Some(implicit("1", 5, 6)),
        }],
        span: sp(7, 105),
    };
    assert_eq!(context.parse_circuit_init(name("Point", 100)), Ok(expected));
    assert_eq!(context.position(), 5);

    let mut context = ParserContext::new(lex("x"));
    assert_eq!(
        context.parse_circuit_init(name("Point", 0)),
        Err(SyntaxError::UnexpectedToken {
            found: Token::new(TokenKind::Ident, "x", sp(0, 1)),
            expected: Expected::Token(TokenKind::LeftCurly),
        })
    );
    assert_eq!(context.position(), 0);
}

#[test]
fn name_at_end_of_input_is_identifier() {
    let mut context = ParserContext::new(lex("Foo"));
    assert_eq!(context.parse_expression(), Ok(ident("Foo", 0)));
    assert_eq!(context.position(), 1);
}

#[test]
fn special_names() {
    assert_eq!(parse("Self"), Ok(ident("Self", 0)));
    assert_eq!(parse("self"), Ok(ident("self", 0)));
    assert_eq!(parse("input"), Ok(ident("input", 0)));
    // A keyword that is a name opens an initializer as any name does.
    let expected = Expression::CircuitInit {
        name: name("self", 0),
        members: vec![CircuitImpliedVariableDefinition { identifier: name("a", 7), expression: None }],
        span: sp(0, 10),
    };
    assert_eq!(parse("self { a }"), Ok(expected));
    assert_eq!(
        parse("input {}"),
        Ok(Expression::CircuitInit { name: name("input", 0), members: vec![], span: sp(0, 8) })
    );
    let mut context = ParserContext::new(lex("self { a }"));
    context.set_fuzzy_struct_state(true);
    assert_eq!(context.parse_expression_fuzzy(), Ok(ident("self", 0)));
    assert_eq!(context.position(), 1);
}

#[test]
fn parse_named_directly() {
    let mut context = ParserContext::new(lex("{ } x"));
    assert_eq!(
        context.parse_named(name("Foo", 10)),
        Ok(Expression::CircuitInit { name: name("Foo", 10), members: vec![], span: sp(2, 13) })
    );
    assert_eq!(context.position(), 2);
    let mut context = ParserContext::new(lex("{ } x"));
    context.set_fuzzy_struct_state(true);
    assert_eq!(context.parse_named(name("Foo", 10)), Ok(ident("Foo", 10)));
    assert_eq!(context.position(), 0);
    let mut context = ParserContext::new(lex("+"));
    assert_eq!(context.parse_named(name("Foo", 10)), Ok(ident("Foo", 10)));
    assert_eq!(context.position(), 0);
}

#[test]
fn array_empty() {
    assert_eq!(parse("[]"), Ok(Expression::ArrayInline { elements: vec![], span: sp(0, 2) }));
}

#[test]
fn array_inline_three_elements() {
    let expected = Expression::ArrayInline {
        elements: vec![
            SpreadOrExpression::Expression(implicit("1", 1, 2)),
            SpreadOrExpression::Expression(implicit("2", 4, 5)),
            SpreadOrExpression::Expression(implicit("3", 7, 8)),
        ],
        span: sp(0, 9),
    };
    assert_eq!(parse("[1, 2, 3]"), Ok(expected));
}

#[test]
fn array_repeat() {
    let expected = Expression::ArrayInit {
        element: Box::new(implicit("1", 1, 2)),
        dimensions: ArrayDimensions(vec![number("4")]),
        span: sp(0, 6),
    };
    assert_eq!(parse("[1; 4]"), Ok(expected));
}

#[test]
fn array_repeat_with_dimension_list() {
    let expected = Expression::ArrayInit {
        element: Box::new(implicit("0", 1, 2)),
        dimensions: ArrayDimensions(vec![number("2"), number("3")]),
        span: sp(0, 11),
    };
    assert_eq!(parse("[0; (2, 3)]"), Ok(expected));
}

#[test]
fn array_with_spread_first() {
    let expected = Expression::ArrayInline {
        elements: vec![
            SpreadOrExpression::Spread(ident("a", 4)),
            SpreadOrExpression::Expression(implicit("1", 7, 8)),
        ],
        span: sp(0, 9),
    };
    assert_eq!(parse("[...a, 1]"), Ok(expected));
}

#[test]
fn array_with_spread_in_tail() {
    let expected = Expression::ArrayInline {
        elements: vec![
            SpreadOrExpression::Expression(implicit("1", 1, 2)),
            SpreadOrExpression::Spread(ident("a", 7)),
        ],
        span: sp(0, 9),
    };
    assert_eq!(parse("[1, ...a]"), Ok(expected));
}

#[test]
fn array_spread_before_semicolon_fails() {
    assert_eq!(parse("[...a; 4]"), Err(SyntaxError::SpreadInArrayInit { span: sp(0, 5) }));
    // The dimensions and the bracket are consumed before the spread is refused.
    let mut context = ParserContext::new(lex("[...a; 4] x"));
    assert!(context.parse_expression().is_err());
    assert_eq!(context.position(), 6);
}

#[test]
fn array_single_element_and_trailing_commas() {
    let one = Expression::ArrayInline {
        elements: vec![SpreadOrExpression::Expression(implicit("1", 1, 2))],
        span: sp(0, 3),
    };
    assert_eq!(parse("[1]"), Ok(one));
    let two = Expression::ArrayInline {
        elements: vec![
            SpreadOrExpression::Expression(implicit("1", 1, 2)),
            SpreadOrExpression::Expression(implicit("2", 4, 5)),
        ],
        span: sp(0, 7),
    };
    assert_eq!(parse("[1, 2,]"), Ok(two));
    // After the first element a comma must be followed by another element.
    assert_eq!(
        parse("[1,]"),
        Err(SyntaxError::UnexpectedToken {
            found: Token::new(TokenKind::RightSquare, "]", sp(3, 4)),
            expected: Expected::Expression,
        })
    );
}

#[test]
fn array_errors() {
    assert_eq!(
        parse("[1 2]"),
        Err(SyntaxError::UnexpectedToken {
            found: Token::new(TokenKind::Int, "2", sp(3, 4)),
            expected: Expected::Token(TokenKind::Comma),
        })
    );
    assert_eq!(
        parse("[1, 2 3]"),
        Err(SyntaxError::UnexpectedToken {
            found: Token::new(TokenKind::Int, "3", sp(6, 7)),
            expected: Expected::Token(TokenKind::RightSquare),
        })
    );
    assert_eq!(
        parse("[1; a]"),
        Err(SyntaxError::UnexpectedToken {
            found: Token::new(TokenKind::Ident, "a", sp(4, 5)),
            expected: Expected::Token(TokenKind::LeftParen),
        })
    );
    assert_eq!(
        parse("[1; (a)]"),
        Err(SyntaxError::UnexpectedToken {
            found: Token::new(TokenKind::Ident, "a", sp(5, 6)),
            expected: Expected::Integer,
        })
    );
    assert_eq!(parse("[1; 4"), Err(SyntaxError::UnexpectedEof { span: sp(4, 5) }));
    assert_eq!(parse("["), Err(SyntaxError::UnexpectedEof { span: sp(0, 1) }));
}

#[test]
fn slice_with_both_bounds() {
    let expected = Expression::ArrayRangeAccess {
        array: Box::new(ident("a", 0)),
        left: Some(Box::new(implicit("1", 2, 3))),
        right: Some(Box::new(implicit("2", 5, 6))),
        span: sp(0, 7),
    };
    assert_eq!(parse("a[1..2]"), Ok(expected));
}

#[test]
fn slice_without_lower_bound() {
    let expected = Expression::ArrayRangeAccess {
        array: Box::new(ident("a", 0)),
        left: None,
        right: Some(Box::new(implicit("2", 4, 5))),
        span: sp(0, 6),
    };
    assert_eq!(parse("a[..2]"), Ok(expected));
}

#[test]
fn slice_without_upper_bound() {
    let expected = Expression::ArrayRangeAccess {
        array: Box::new(ident("a", 0)),
        left: Some(Box::new(implicit("1", 2, 3))),
        right: None,
        span: sp(0, 6),
    };
    assert_eq!(parse("a[1..]"), Ok(expected));
}

#[test]
fn slice_without_bounds() {
    let expected = Expression::ArrayRangeAccess {
        array: Box::new(ident("a", 0)),
        left: None,
        right: None,
        span: sp(0, 5),
    };
    assert_eq!(parse("a[..]"), Ok(expected));
}

#[test]
fn plain_index_is_not_a_range() {
    let expected = Expression::ArrayAccess {
        array: Box::new(ident("a", 0)),
        index: Box::new(implicit("1", 2, 3)),
        span: sp(0, 4),
    };
    assert_eq!(parse("a[1]"), Ok(expected));
}

#[test]
fn index_errors() {
    assert_eq!(
        parse("a[1 2]"),
        Err(SyntaxError::UnexpectedToken {
            found: Token::new(TokenKind::Int, "2", sp(4, 5)),
            expected: Expected::Token(TokenKind::RightSquare),
        })
    );
    assert_eq!(parse("a[1.."), Err(SyntaxError::UnexpectedEof { span: sp(3, 5) }));
    assert_eq!(parse("a[.."), Err(SyntaxError::UnexpectedEof { span: sp(2, 4) }));
    assert_eq!(parse("a["), Err(SyntaxError::UnexpectedEof { span: sp(1, 2) }));
    assert_eq!(
        parse("a[1..2 3]"),
        Err(SyntaxError::UnexpectedToken {
            found: Token::new(TokenKind::Int, "3", sp(7, 8)),
            expected: Expected::Token(TokenKind::RightSquare),
        })
    );
}

#[test]
fn call_chain_reads_left_to_right() {
    let member = Expression::CircuitMemberAccess {
        circuit: Box::new(ident("a", 0)),
        name: name("b", 2),
        span: sp(0, 3),
    };
    let call = Expression::Call {
        function: Box::new(member),
        arguments: vec![implicit("1", 4, 5)],
        span: sp(0, 6),
    };
    let expected = Expression::ArrayAccess {
        array: Box::new(call),
        index: Box::new(implicit("0", 7, 8)),
        span: sp(0, 9),
    };
    assert_eq!(parse("a.b(1)[0]"), Ok(expected));
}

#[test]
fn long_access_chain() {
    // a.b[0](x).c::d
    let member = Expression::CircuitMemberAccess {
        circuit: Box::new(ident("a", 0)),
        name: name("b", 2),
        span: sp(0, 3),
    };
    let index = Expression::ArrayAccess {
        array: Box::new(member),
        index: Box::new(implicit("0", 4, 5)),
        span: sp(0, 6),
    };
    let call = Expression::Call {
        function: Box::new(index),
        arguments: vec![ident("x", 7)],
        span: sp(0, 9),
    };
    let c = Expression::CircuitMemberAccess { circuit: Box::new(call), name: name("c", 10), span: sp(0, 11) };
    let expected = Expression::CircuitStaticFunctionAccess {
        circuit: Box::new(c),
        name: name("d", 13),
        span: sp(0, 14),
    };
    assert_eq!(parse("a.b[0](x).c::d"), Ok(expected));
}

#[test]
fn call_argument_lists() {
    assert_eq!(
        parse("f()"),
        Ok(Expression::Call { function: Box::new(ident("f", 0)), arguments: vec![], span: sp(0, 3) })
    );
    let expected = Expression::Call {
        function: Box::new(ident("f", 0)),
        arguments: vec![ident("a", 2), ident("b", 5)],
        span: sp(0, 8),
    };
    assert_eq!(parse("f(a, b,)"), Ok(expected));
    let curried = Expression::Call {
        function: Box::new(Expression::Call {
            function: Box::new(ident("f", 0)),
            arguments: vec![ident("a", 2)],
            span: sp(0, 4),
        }),
        arguments: vec![ident("b", 5)],
        span: sp(0, 7),
    };
    assert_eq!(parse("f(a)(b)"), Ok(curried));
}

#[test]
fn call_errors() {
    assert_eq!(parse("f(a"), Err(SyntaxError::UnexpectedEof { span: sp(2, 3) }));
    assert_eq!(
        parse("f(a b)"),
        Err(SyntaxError::UnexpectedToken {
            found: Token::new(TokenKind::Ident, "b", sp(4, 5)),
            expected: Expected::Token(TokenKind::RightParen),
        })
    );
    assert_eq!(
        parse("f(,)"),
        Err(SyntaxError::UnexpectedToken {
            found: Token::new(TokenKind::Comma, ",", sp(2, 3)),
            expected: Expected::Expression,
        })
    );
}

#[test]
fn tuple_field_access() {
    let expected = Expression::TupleAccess {
        tuple: Box::new(ident("t", 0)),
        index: number("0"),
        span: sp(0, 3),
    };
    assert_eq!(parse("t.0"), Ok(expected));
}

#[test]
fn static_access_and_call() {
    let access = Expression::CircuitStaticFunctionAccess {
        circuit: Box::new(ident("Foo", 0)),
        name: name("new", 5),
        span: sp(0, 8),
    };
    let expected = Expression::Call { function: Box::new(access), arguments: vec![], span: sp(0, 10) };
    assert_eq!(parse("Foo::new()"), Ok(expected));
    assert_eq!(
        parse("Foo::1"),
        Err(SyntaxError::UnexpectedToken {
            found: Token::new(TokenKind::Int, "1", sp(5, 6)),
            expected: Expected::Identifier,
        })
    );
}

#[test]
fn dot_needs_name_or_number() {
    assert_eq!(
        parse("a.+"),
        Err(SyntaxError::UnexpectedToken {
            found: Token::new(TokenKind::Add, "+", sp(2, 3)),
            expected: Expected::IntegerOrIdentifier,
        })
    );
    assert_eq!(parse("a."), Err(SyntaxError::UnexpectedEof { span: sp(1, 2) }));
    let mut context = ParserContext::new(lex("a.+"));
    assert!(context.parse_expression().is_err());
    assert_eq!(context.position(), 2);
}

#[test]
fn numerals_with_suffixes() {
    assert_eq!(parse("5"), Ok(implicit("5", 0, 1)));
    assert_eq!(parse("5u8"), Ok(integer(IntegerType::U8, "5", 0, 3)));
    assert_eq!(parse("5 u16"), Ok(integer(IntegerType::U16, "5", 0, 5)));
    assert_eq!(parse("7u32"), Ok(integer(IntegerType::U32, "7", 0, 4)));
    assert_eq!(parse("7u64"), Ok(integer(IntegerType::U64, "7", 0, 4)));
    assert_eq!(parse("7u128"), Ok(integer(IntegerType::U128, "7", 0, 5)));
    assert_eq!(parse("7i8"), Ok(integer(IntegerType::I8, "7", 0, 3)));
    assert_eq!(parse("7i16"), Ok(integer(IntegerType::I16, "7", 0, 4)));
    assert_eq!(parse("7i32"), Ok(integer(IntegerType::I32, "7", 0, 4)));
    assert_eq!(parse("7i64"), Ok(integer(IntegerType::I64, "7", 0, 4)));
    assert_eq!(parse("7i128"), Ok(integer(IntegerType::I128, "7", 0, 5)));
    assert_eq!(
        parse("5field"),
        Ok(Expression::Value(ValueExpression::Field { value: "5".to_string(), span: sp(0, 6) }))
    );
    assert_eq!(
        parse("5group"),
        Ok(Expression::Value(ValueExpression::Group(GroupValue::Single {
            value: "5".to_string(),
            span: sp(0, 6),
        })))
    );
}

#[test]
fn suffix_that_is_no_number_type_is_left() {
    let mut context = ParserContext::new(lex("5 bool"));
    assert_eq!(context.parse_expression(), Ok(implicit("5", 0, 1)));
    assert_eq!(context.position(), 1);
}

#[test]
fn booleans() {
    assert_eq!(
        parse("true"),
        Ok(Expression::Value(ValueExpression::Boolean { value: "true".to_string(), span: sp(0, 4) }))
    );
    assert_eq!(
        parse("false"),
        Ok(Expression::Value(ValueExpression::Boolean { value: "false".to_string(), span: sp(0, 5) }))
    );
}

#[test]
fn addresses() {
    assert_eq!(
        parse("aleo1abc"),
        Ok(Expression::Value(ValueExpression::Address {
            value: "aleo1abc".to_string(),
            span: sp(0, 8),
        }))
    );
    assert_eq!(
        parse("address(aleo1abc)"),
        Ok(Expression::Value(ValueExpression::Address {
            value: "aleo1abc".to_string(),
            span: sp(0, 17),
        }))
    );
}

#[test]
fn address_errors() {
    assert_eq!(
        parse("address(5)"),
        Err(SyntaxError::UnexpectedToken {
            found: Token::new(TokenKind::Int, "5", sp(8, 9)),
            expected: Expected::AddressLiteral,
        })
    );
    let mut context = ParserContext::new(lex("address(5)"));
    assert!(context.parse_expression().is_err());
    assert_eq!(context.position(), 3);
    assert_eq!(
        parse("address aleo1abc"),
        Err(SyntaxError::UnexpectedToken {
            found: Token::new(TokenKind::AddressLit, "aleo1abc", sp(8, 16)),
            expected: Expected::Token(TokenKind::LeftParen),
        })
    );
    assert_eq!(parse("address("), Err(SyntaxError::UnexpectedEof { span: sp(7, 8) }));
    assert_eq!(parse("address(aleo1abc"), Err(SyntaxError::UnexpectedEof { span: sp(8, 16) }));
}

#[test]
fn group_pairs() {
    let expected = Expression::Value(ValueExpression::Group(GroupValue::Tuple {
        x: GroupCoordinate::Number { value: "1".to_string(), span: sp(1, 2) },
        y: GroupCoordinate::Number { value: "2".to_string(), span: sp(4, 5) },
        span: sp(0, 11),
    }));
    assert_eq!(parse("(1, 2)group"), Ok(expected));
    let expected = Expression::Value(ValueExpression::Group(GroupValue::Tuple {
        x: GroupCoordinate::SignHigh,
        y: GroupCoordinate::Inferred,
        span: sp(0, 11),
    }));
    assert_eq!(parse("(+, _)group"), Ok(expected));
    let expected = Expression::Value(ValueExpression::Group(GroupValue::Tuple {
        x: GroupCoordinate::Number { value: "-1".to_string(), span: sp(1, 3) },
        y: GroupCoordinate::SignLow,
        span: sp(0, 12),
    }));
    assert_eq!(parse("(-1, -)group"), Ok(expected));
}

#[test]
fn pair_without_keyword_is_a_tuple() {
    let expected = Expression::TupleInit {
        elements: vec![implicit("1", 1, 2), implicit("2", 4, 5)],
        span: sp(0, 6),
    };
    assert_eq!(parse("(1, 2)"), Ok(expected));
    // A name other than `_` is no coordinate.
    let expected = Expression::TupleInit {
        elements: vec![ident("a", 1), implicit("2", 4, 5)],
        span: sp(0, 6),
    };
    let mut context = ParserContext::new(lex("(a, 2)group"));
    assert_eq!(context.parse_expression(), Ok(expected));
    assert_eq!(context.position(), 5);
}

#[test]
fn tuples() {
    assert_eq!(parse("()"), Ok(Expression::TupleInit { elements: vec![], span: sp(0, 2) }));
    let expected = Expression::TupleInit {
        elements: vec![ident("a", 1), ident("b", 4), ident("c", 7)],
        span: sp(0, 10),
    };
    assert_eq!(parse("(a, b, c,)"), Ok(expected));
}

#[test]
fn parentheses_around_one_expression_are_transparent() {
    assert_eq!(parse("(a)"), Ok(ident("a", 1)));
    assert_eq!(parse("((a))"), Ok(ident("a", 2)));
    assert_eq!(parse("(a,)"), Ok(ident("a", 1)));
    let expected = binary(
        BinaryOperation::Mul,
        binary(BinaryOperation::Add, ident("a", 1), ident("b", 5)),
        ident("c", 10),
    );
    assert_eq!(parse("(a + b) * c"), Ok(expected));
}

#[test]
fn parenthesis_errors() {
    assert_eq!(parse("(a"), Err(SyntaxError::UnexpectedEof { span: sp(1, 2) }));
    assert_eq!(parse("("), Err(SyntaxError::UnexpectedEof { span: sp(0, 1) }));
    assert_eq!(
        parse("(a b"),
        Err(SyntaxError::UnexpectedToken {
            found: Token::new(TokenKind::Ident, "b", sp(3, 4)),
            expected: Expected::Token(TokenKind::RightParen),
        })
    );
}

#[test]
fn empty_input_fails() {
    assert_eq!(parse(""), Err(SyntaxError::UnexpectedEof { span: sp(0, 0) }));
}

#[test]
fn token_that_starts_no_expression_fails() {
    assert_eq!(
        parse(")"),
        Err(SyntaxError::UnexpectedToken {
            found: Token::new(TokenKind::RightParen, ")", sp(0, 1)),
            expected: Expected::Expression,
        })
    );
    // The offending token is consumed.
    let mut context = ParserContext::new(lex("if x"));
    assert_eq!(
        context.parse_expression(),
        Err(SyntaxError::UnexpectedToken {
            found: Token::new(TokenKind::If, "if", sp(0, 2)),
            expected: Expected::Expression,
        })
    );
    assert_eq!(context.position(), 1);
}

#[test]
fn missing_right_operand_fails() {
    assert_eq!(parse("a +"), Err(SyntaxError::UnexpectedEof { span: sp(2, 3) }));
    assert_eq!(
        parse("a + *"),
        Err(SyntaxError::UnexpectedToken {
            found: Token::new(TokenKind::Mul, "*", sp(4, 5)),
            expected: Expected::Expression,
        })
    );
    assert_eq!(parse("a **"), Err(SyntaxError::UnexpectedEof { span: sp(2, 4) }));
    assert_eq!(parse("-"), Err(SyntaxError::UnexpectedEof { span: sp(0, 1) }));
}

#[test]
fn error_span_points_at_the_offender() {
    let error = parse("a + *").unwrap_err();
    assert_eq!(error.span(), sp(4, 5));
    assert_eq!(SyntaxError::SpreadInArrayInit { span: sp(1, 2) }.span(), sp(1, 2));
    assert_eq!(SyntaxError::UnexpectedEof { span: sp(3, 4) }.span(), sp(3, 4));
}

#[test]
fn parsing_stops_before_what_is_no_part_of_the_expression() {
    let mut context = ParserContext::new(lex("a + b ; c"));
    let expected = binary(BinaryOperation::Add, ident("a", 0), ident("b", 4));
    assert_eq!(context.parse_expression(), Ok(expected));
    assert_eq!(context.position(), 3);
    assert_eq!(context.eat(TokenKind::Semicolon), Some(sp(6, 7)));
    assert_eq!(context.parse_expression(), Ok(ident("c", 8)));
    assert!(!context.has_next());
}

#[test]
fn span_runs_from_first_to_last_token() {
    for source in [
        "a + b * c",
        "-x",
        "!a && b",
        "a ? b : c",
        "f(a, b)",
        "a[1..2]",
        "[1, 2, 3]",
        "[0; 4]",
        "Foo { a: 1 }",
        "x as u8",
        "(1, 2)group",
        "(a, b)",
        "address(aleo1abc)",
        "5u8 ** 2",
        "a.b.0::c",
    ] {
        let tokens = lex(source);
        let first = tokens[0].span;
        let last = tokens[tokens.len() - 1].span;
        let parsed = parse(source).unwrap();
        assert_eq!(parsed.span(), sp(first.start, last.end), "{}", source);
    }
}

#[test]
fn span_leaves_out_dropped_parentheses() {
    assert_eq!(parse("(a)").unwrap().span(), sp(1, 2));
    assert_eq!(parse("(a) + b").unwrap().span(), sp(1, 7));
    assert_eq!(parse("a + (b)").unwrap().span(), sp(0, 6));
    assert_eq!(parse("-(a)").unwrap().span(), sp(0, 3));
    assert_eq!(parse("(a)(b)").unwrap().span(), sp(1, 6));
    assert_eq!(parse("((a, b))").unwrap().span(), sp(1, 7));
}

#[test]
fn spread_or_expression() {
    let mut context = ParserContext::new(lex("...a + b"));
    let sum = binary(BinaryOperation::Add, ident("a", 3), ident("b", 7));
    assert_eq!(context.parse_spread_or_expression(), Ok(SpreadOrExpression::Spread(sum)));
    let mut context = ParserContext::new(lex("a"));
    assert_eq!(
        context.parse_spread_or_expression(),
        Ok(SpreadOrExpression::Expression(ident("a", 0)))
    );
    let mut context = ParserContext::new(lex("..."));
    assert_eq!(
        context.parse_spread_or_expression(),
        Err(SyntaxError::UnexpectedEof { span: sp(0, 3) })
    );
}

#[test]
fn each_level_can_be_entered_directly() {
    let source = "a + b == c || d";
    let sum = binary(BinaryOperation::Add, ident("a", 0), ident("b", 4));
    let eq = binary(BinaryOperation::Eq, binary(BinaryOperation::Add, ident("a", 0), ident("b", 4)), ident("c", 9));

    let mut context = ParserContext::new(lex(source));
    assert_eq!(context.parse_primary_expression(), Ok(ident("a", 0)));
    assert_eq!(context.position(), 1);
    let mut context = ParserContext::new(lex(source));
    assert_eq!(context.parse_access_expression(), Ok(ident("a", 0)));
    let mut context = ParserContext::new(lex(source));
    assert_eq!(context.parse_unary_expression(), Ok(ident("a", 0)));
    let mut context = ParserContext::new(lex(source));
    assert_eq!(context.parse_cast_expression(), Ok(ident("a", 0)));
    let mut context = ParserContext::new(lex(source));
    assert_eq!(context.parse_exp_expression(), Ok(ident("a", 0)));
    let mut context = ParserContext::new(lex(source));
    assert_eq!(context.parse_mul_div_mod_expression(), Ok(ident("a", 0)));
    assert_eq!(context.position(), 1);
    let mut context = ParserContext::new(lex(source));
    assert_eq!(context.parse_add_sub_expression(), Ok(binary(BinaryOperation::Add, ident("a", 0), ident("b", 4))));
    assert_eq!(context.position(), 3);
    let mut context = ParserContext::new(lex(source));
    assert_eq!(context.parse_shift_expression(), Ok(sum));
    let mut context = ParserContext::new(lex(source));
    assert_eq!(context.parse_rel_expression().map(|e| e.span()), Ok(sp(0, 5)));
    let mut context = ParserContext::new(lex(source));
    assert_eq!(context.parse_eq_expression(), Ok(eq));
    assert_eq!(context.position(), 5);
    let mut context = ParserContext::new(lex(source));
    assert_eq!(context.parse_bit_and_expression().map(|e| e.span()), Ok(sp(0, 10)));
    let mut context = ParserContext::new(lex(source));
    assert_eq!(context.parse_bit_xor_expression().map(|e| e.span()), Ok(sp(0, 10)));
    let mut context = ParserContext::new(lex(source));
    assert_eq!(context.parse_bit_or_expression().map(|e| e.span()), Ok(sp(0, 10)));
    let mut context = ParserContext::new(lex(source));
    assert_eq!(context.parse_and_expression().map(|e| e.span()), Ok(sp(0, 10)));
    assert_eq!(context.position(), 5);
    let mut context = ParserContext::new(lex(source));
    assert_eq!(context.parse_or_expression().map(|e| e.span()), Ok(sp(0, 15)));
    assert_eq!(context.position(), 7);
}

fn covers(outer: Span, inner: Span) -> bool {
    outer.start <= inner.start && inner.end <= outer.end
}

fn coordinate_within(coordinate: &GroupCoordinate, outer: Span) -> bool {
    match coordinate {
        GroupCoordinate::Number { span, .. } => covers(outer, *span),
        _ => true,
    }
}

/// Whether the span of every node covers the spans of its children.
fn nested(e: &Expression) -> bool {
    let within = |child: &Expression| covers(e.span(), child.span()) && nested(child);
    match e {
        Expression::Identifier(_) => true,
        Expression::Value(ValueExpression::Group(GroupValue::Tuple { x, y, span })) => {
            coordinate_within(x, *span) && coordinate_within(y, *span)
        },
        Expression::Value(_) => true,
        Expression::Binary { left, right, .. } => within(left) && within(right),
        Expression::Unary { inner, .. } => within(inner),
        Expression::Ternary { condition, if_true, if_false, .. } => {
            within(condition) && within(if_true) && within(if_false)
        },
        Expression::Cast { inner, .. } => within(inner),
        Expression::ArrayInline { elements, .. } => elements.iter().all(|element| match element {
            SpreadOrExpression::Spread(inner) => within(inner),
            SpreadOrExpression::Expression(inner) => within(inner),
        }),
        Expression::ArrayInit { element, .. } => within(element),
        Expression::ArrayAccess { array, index, .. } => within(array) && within(index),
        Expression::ArrayRangeAccess { array, left, right, .. } => {
            within(array)
                && left.as_ref().map_or(true, |bound| within(bound))
                && right.as_ref().map_or(true, |bound| within(bound))
        },
        Expression::TupleInit { elements, .. } => elements.iter().all(|element| within(element)),
        Expression::TupleAccess { tuple, .. } => within(tuple),
        Expression::CircuitInit { name, members, span } => {
            covers(*span, name.span)
                && members.iter().all(|member| {
                    covers(*span, member.identifier.span)
                        && member.expression.as_ref().map_or(true, |value| within(value))
                })
        },
        Expression::CircuitMemberAccess { circuit, name, span } => {
            within(circuit) && covers(*span, name.span)
        },
        Expression::CircuitStaticFunctionAccess { circuit, name, span } => {
            within(circuit) && covers(*span, name.span)
        },
        Expression::Call { function, arguments, .. } => {
            within(function) && arguments.iter().all(|argument| within(argument))
        },
    }
}

#[test]
fn spans_of_parsed_expressions_are_nested() {
    for source in [
        "a ? (b) : c + d",
        "f(a, (b), [c, ...d])[e..(f)].g.0::h",
        "Foo { a, b: (c + 1), d: Bar { e: -5 } }",
        "[(a); (2, 3)]",
        "((a, b), (c))",
        "(1, -2)group + (-, _)group",
        "-(a) ** !(b) as (u8, [bool; 2])",
        "a[..(b)] + c[(d)..] - e[(f)..(g)]",
        "(((a)))",
        "address(aleo1abc) == aleo1def || true && 5u8 < 7field",
    ] {
        let context = ParserContext::new(lex(source));
        assert!(context.spans_in_order(), "{}", source);
        let parsed = parse(source).unwrap();
        assert!(nested(&parsed), "{}", source);
    }
}

#[test]
fn nesting_check_rejects_a_short_span() {
    let bad = Expression::Unary {
        op: UnaryOperation::Not,
        inner: Box::new(ident("abc", 1)),
        span: sp(0, 3),
    };
    assert!(!nested(&bad));
}

#[test]
fn spans_in_order() {
    assert!(ParserContext::new(vec![]).spans_in_order());
    assert!(ParserContext::new(lex("a + b")).spans_in_order());
    let tok = |start: usize, end: usize| Token::new(TokenKind::Ident, "a", sp(start, end));
    // Tokens may touch and may be empty.
    assert!(ParserContext::new(vec![tok(0, 1), tok(1, 1), tok(1, 4)]).spans_in_order());
    // A token that ends before it starts.
    assert!(!ParserContext::new(vec![tok(0, 1), tok(3, 2)]).spans_in_order());
    // A token that starts before the one before it ends.
    assert!(!ParserContext::new(vec![tok(0, 2), tok(1, 3)]).spans_in_order());
    assert!(!ParserContext::new(vec![tok(0, 1), tok(2, 3), tok(1, 4)]).spans_in_order());
}

#[test]
fn token_count_and_span_at() {
    let context = ParserContext::new(lex("a + bc"));
    assert_eq!(context.token_count(), 3);
    assert_eq!(context.span_at(0), sp(0, 1));
    assert_eq!(context.span_at(2), sp(4, 6));
}

#[test]
fn cursor_stays_within_the_tokens() {
    for source in [
        "",
        "a",
        "a +",
        "(",
        "(a",
        "[1,",
        "[1;",
        "f(a,",
        "a[1..",
        "a.",
        "a ?",
        "a ? b :",
        "Foo {",
        "Foo { a:",
        "address(",
        "x as",
        "x as (u8,",
        "x as [u8;",
        "-",
        "...",
        "a + b * c",
        ")",
    ] {
        let mut context = ParserContext::new(lex(source));
        let _ = context.parse_expression();
        assert!(context.position() <= context.token_count(), "{}", source);
        let mut context = ParserContext::new(lex(source));
        context.set_fuzzy_struct_state(true);
        let _ = context.parse_expression_fuzzy();
        assert!(context.position() <= context.token_count(), "{}", source);
    }
}
