use som::compiler::ast::{Expression, Method};
use som::compiler::parser::{contains_kind, describe_mismatch, integer_value, kind_name};
use som::compiler::{Error, LexError, Location, Parser, TokenKind};

fn integer(value: i64) -> Expression {
    Expression::LiteralInteger(value)
}

fn variable(name: &str) -> Expression {
    Expression::Variable(name.into())
}

fn parse_error(result: Result<Expression, Error>) -> (String, String, Location) {
    match result {
        Err(Error::ParseError {
            description,
            filename,
            location,
        }) => (description, filename, location),
        other => panic!("no parse error: {:?}", other),
    }
}

#[test]
fn simple_class_has_nothing_in_it() {
    let mut parser = Parser::new("Hello = ()", "test");
    let class = parser.parse().unwrap();
    assert_eq!("Hello", class.name);
    assert_eq!(None, class.superclass);
    assert!(class.instance_methods.is_empty());
    assert!(class.instance_variables.is_empty());
    assert!(class.class_methods.is_empty());
    assert!(class.class_variables.is_empty());
}

#[test]
fn class_variables_in_order() {
    let mut parser = Parser::new("Hello = (\n | foo bar |\n ----\n | baz qux |\n)", "test");
    let class = parser.parse().unwrap();
    assert_eq!(vec!["foo", "bar"], class.instance_variables);
    assert_eq!(vec!["baz", "qux"], class.class_variables);
}

#[test]
fn class_with_methods_on_both_sides() {
    let source = "
    Point = Object (
        | x y |
        x = ( ^ x )
        x: value = ( x := value )
        + other = ( ^ x + other x )
        <= other = primitive
        ----
        | count |
        new = primitive
    )";
    let mut parser = Parser::new(source, "point.som");
    let class = parser.parse().unwrap();
    assert_eq!("Point", class.name);
    assert_eq!(Some("Object".to_string()), class.superclass);
    assert_eq!(vec!["x", "y"], class.instance_variables);
    assert_eq!(vec!["count"], class.class_variables);
    assert_eq!(4, class.instance_methods.len());
    assert_eq!(1, class.class_methods.len());
    assert_eq!(&vec!["x", "x:", "+", "<="], class.instance_methods.selectors());
    assert_eq!(&vec!["new"], class.class_methods.selectors());
    assert_eq!(None, class.class_methods.get("x"));
    assert_eq!(
        Some(&Method::Native {
            name: "x".into(),
            parameters: vec![],
            locals: vec![],
            body: vec![Expression::Return(Box::new(variable("x")))],
        }),
        class.instance_methods.get("x")
    );
    assert_eq!(
        Some(&Method::Native {
            name: "x:".into(),
            parameters: vec!["value".into()],
            locals: vec![],
            body: vec![Expression::Assignment {
                variable: "x".into(),
                value: Box::new(variable("value")),
            }],
        }),
        class.instance_methods.get("x:")
    );
    assert_eq!(
        Some(&Method::Native {
            name: "+".into(),
            parameters: vec!["other".into()],
            locals: vec![],
            body: vec![Expression::Return(Box::new(Expression::BinaryMessage {
                message: "+".into(),
                left: Box::new(variable("x")),
                right: Box::new(Expression::UnaryMessage {
                    message: "x".into(),
                    receiver: Box::new(variable("other")),
                }),
            }))],
        }),
        class.instance_methods.get("+")
    );
    assert_eq!(
        Some(&Method::Primitive {
            name: "<=".into(),
            parameters: vec!["other".into()],
        }),
        class.instance_methods.get("<=")
    );
    assert_eq!(
        Some(&Method::Primitive {
            name: "new".into(),
            parameters: vec![],
        }),
        class.class_methods.get("new")
    );
}

#[test]
fn later_method_with_the_same_selector_stays() {
    let mut parser = Parser::new("A = ( foo = primitive foo = ( ^ 1 ) )", "test");
    let class = parser.parse().unwrap();
    assert_eq!(1, class.instance_methods.len());
    assert_eq!(&vec!["foo"], class.instance_methods.selectors());
    assert_eq!(
        Some(&Method::Native {
            name: "foo".into(),
            parameters: vec![],
            locals: vec![],
            body: vec![Expression::Return(Box::new(integer(1)))],
        }),
        class.instance_methods.get("foo")
    );
}

#[test]
fn class_needs_its_closing_bracket() {
    let mut parser = Parser::new("Hello = ( foo = primitive ]", "test");
    match parser.parse() {
        Err(Error::ParseError {
            description,
            filename,
            location,
        }) => {
            assert_eq!("Expected [EndTerm], found EndBlock", description);
            assert_eq!("test", filename);
            assert_eq!(Location { line: 1, column: 26 }, location);
        }
        _ => panic!("Other outcome"),
    }
}

#[test]
fn class_that_ends_early() {
    let mut parser = Parser::new("Hello = (\n  foo = primitive", "test");
    match parser.parse() {
        Err(Error::ParseError {
            description,
            filename,
            location,
        }) => {
            assert_eq!("Unexpected end of program", description);
            assert_eq!("test", filename);
            assert_eq!(Location { line: 2, column: 8 }, location);
        }
        _ => panic!("Other outcome"),
    }
}

#[test]
fn empty_text_ends_at_the_start() {
    let mut parser = Parser::new("", "empty.som");
    match parser.parse() {
        Err(Error::ParseError {
            description,
            filename,
            location,
        }) => {
            assert_eq!("Unexpected end of program", description);
            assert_eq!("empty.som", filename);
            assert_eq!(Location { line: 1, column: 0 }, location);
        }
        _ => panic!("Other outcome"),
    }
}

#[test]
fn binary_operator_and_unary_precedence() {
    let mut parser = Parser::new("1 + 2.", "test");
    assert_eq!(
        Expression::BinaryMessage {
            message: "+".into(),
            left: Box::new(integer(1)),
            right: Box::new(integer(2)),
        },
        parser.parse_expression().unwrap()
    );
    let mut parser = Parser::new("1 test + 2.", "test");
    assert_eq!(
        Expression::BinaryMessage {
            message: "+".into(),
            left: Box::new(Expression::UnaryMessage {
                message: "test".into(),
                receiver: Box::new(integer(1)),
            }),
            right: Box::new(integer(2)),
        },
        parser.parse_expression().unwrap()
    );
}

#[test]
fn binary_messages_go_from_left_to_right() {
    let mut parser = Parser::new("1 + 2 * 3 foo.", "test");
    assert_eq!(
        Expression::BinaryMessage {
            message: "*".into(),
            left: Box::new(Expression::BinaryMessage {
                message: "+".into(),
                left: Box::new(integer(1)),
                right: Box::new(integer(2)),
            }),
            right: Box::new(Expression::UnaryMessage {
                message: "foo".into(),
                receiver: Box::new(integer(3)),
            }),
        },
        parser.parse_expression().unwrap()
    );
}

#[test]
fn keyword_arguments_are_formulas() {
    let mut parser = Parser::new("a at: 1 + 2 put: (b at: 3) size.", "test");
    assert_eq!(
        Expression::KeywordMessage {
            message: "at:put:".into(),
            receiver: Box::new(variable("a")),
            parameters: vec![
                Expression::BinaryMessage {
                    message: "+".into(),
                    left: Box::new(integer(1)),
                    right: Box::new(integer(2)),
                },
                Expression::UnaryMessage {
                    message: "size".into(),
                    receiver: Box::new(Expression::KeywordMessage {
                        message: "at:".into(),
                        receiver: Box::new(variable("b")),
                        parameters: vec![integer(3)],
                    }),
                },
            ],
        },
        parser.parse_expression().unwrap()
    );
}

#[test]
fn block_with_parameters_locals_and_statements() {
    let mut parser = Parser::new("[ :a :b | | t | t := a. ^ t + b ] value.", "test");
    assert_eq!(
        Expression::UnaryMessage {
            message: "value".into(),
            receiver: Box::new(Expression::Block {
                parameters: vec!["a".into(), "b".into()],
                locals: vec!["t".into()],
                body: vec![
                    Expression::Assignment {
                        variable: "t".into(),
                        value: Box::new(variable("a")),
                    },
                    Expression::Return(Box::new(Expression::BinaryMessage {
                        message: "+".into(),
                        left: Box::new(variable("t")),
                        right: Box::new(variable("b")),
                    })),
                ],
            }),
        },
        parser.parse_expression().unwrap()
    );
}

#[test]
fn empty_block() {
    let mut parser = Parser::new("[].", "test");
    assert_eq!(
        Expression::Block {
            parameters: vec![],
            locals: vec![],
            body: vec![],
        },
        parser.parse_expression().unwrap()
    );
}

#[test]
fn block_parameters_need_their_bar() {
    let mut parser = Parser::new("[ :a a ]", "test");
    assert_eq!(
        (
            "Expected [Or], found Identifier".to_string(),
            "test".to_string(),
            Location { line: 1, column: 5 }
        ),
        parse_error(parser.parse_expression())
    );
}

#[test]
fn symbols_of_every_form() {
    let mut parser = Parser::new("#+ #<= #at: #at:put: #name #'a b' #(1 #a #(2))", "test");
    let expected = vec!["+", "<=", "at:", "at:put:", "name", "a b"];
    for text in expected {
        assert_eq!(
            Expression::LiteralSymbol(text.into()),
            parser.parse_expression_pound().unwrap()
        );
    }
    assert_eq!(
        Expression::LiteralArray(vec![
            integer(1),
            Expression::LiteralSymbol("a".into()),
            Expression::LiteralArray(vec![integer(2)]),
        ]),
        parser.parse_expression_pound().unwrap()
    );
}

#[test]
fn symbol_needs_a_text() {
    let mut parser = Parser::new("#1", "test");
    let (description, _, location) = parse_error(parser.parse_expression());
    assert_eq!(
        "Expected [Identifier, String, Keyword, KeywordSequence, OperatorSequence, And, At, \
         Comma, Divide, Equal, Less, Minus, Modulus, More, Not, Or, Percent, Plus, Star], \
         found Integer",
        description
    );
    assert_eq!(Location { line: 1, column: 1 }, location);
}

#[test]
fn literals_by_name() {
    let mut parser = Parser::new("true false nil truth", "test");
    assert_eq!(
        Expression::LiteralBoolean(true),
        parser.parse_expression_primary().unwrap()
    );
    assert_eq!(
        Expression::LiteralBoolean(false),
        parser.parse_expression_primary().unwrap()
    );
    assert_eq!(Expression::LiteralNil, parser.parse_expression_primary().unwrap());
    assert_eq!(variable("truth"), parser.parse_expression_primary().unwrap());
}

#[test]
fn integers_up_to_the_largest() {
    let mut parser = Parser::new("9223372036854775807 -9223372036854775807 007 0", "test");
    assert_eq!(integer(i64::MAX), parser.parse_expression_primary().unwrap());
    assert_eq!(integer(-i64::MAX), parser.parse_expression_primary().unwrap());
    assert_eq!(integer(7), parser.parse_expression_primary().unwrap());
    assert_eq!(integer(0), parser.parse_expression_primary().unwrap());
}

#[test]
fn integer_beyond_the_largest_is_refused() {
    let mut parser = Parser::new("  9223372036854775808.", "big.som");
    assert_eq!(
        (
            "Integer literal out of range".to_string(),
            "big.som".to_string(),
            Location { line: 1, column: 2 }
        ),
        parse_error(parser.parse_expression())
    );
    let mut parser = Parser::new("-9223372036854775808", "big.som");
    assert_eq!(
        (
            "Integer literal out of range".to_string(),
            "big.som".to_string(),
            Location { line: 1, column: 1 }
        ),
        parse_error(parser.parse_expression())
    );
}

#[test]
fn value_of_digits() {
    assert_eq!(Some(0), integer_value(""));
    assert_eq!(Some(0), integer_value("0"));
    assert_eq!(Some(1234567890), integer_value("1234567890"));
    assert_eq!(Some(i64::MAX), integer_value("9223372036854775807"));
    assert_eq!(None, integer_value("9223372036854775808"));
    assert_eq!(None, integer_value("99999999999999999999999999"));
    assert_eq!(Some(42), integer_value("0000000000000000000000000042"));
}

#[test]
fn minus_needs_a_number() {
    let mut parser = Parser::new("- a", "test");
    assert_eq!(
        (
            "Expected [Integer, Double], found Identifier".to_string(),
            "test".to_string(),
            Location { line: 1, column: 2 }
        ),
        parse_error(parser.parse_expression())
    );
}

#[test]
fn assignment_to_a_non_variable_is_placed_at_the_assignment() {
    let mut parser = Parser::new("1 := 'test'.", "test");
    assert_eq!(
        (
            "Attempt to assign result of expression to something other than a variable"
                .to_string(),
            "test".to_string(),
            Location { line: 1, column: 2 }
        ),
        parse_error(parser.parse_expression())
    );
    let mut parser = Parser::new("a foo := 2", "test");
    let (description, _, location) = parse_error(parser.parse_expression());
    assert_eq!(
        "Attempt to assign result of expression to something other than a variable",
        description
    );
    assert_eq!(Location { line: 1, column: 6 }, location);
}

#[test]
fn token_that_starts_no_expression() {
    let mut parser = Parser::new("1 + )", "test");
    assert_eq!(
        (
            "Expected [Double, Identifier, Integer, Minus, NewBlock, NewTerm, Pound, String], \
             found EndTerm"
                .to_string(),
            "test".to_string(),
            Location { line: 1, column: 4 }
        ),
        parse_error(parser.parse_expression())
    );
}

#[test]
fn expression_needs_something_behind_it() {
    let mut parser = Parser::new("a foo", "test");
    assert_eq!(
        (
            "Unexpected end of program".to_string(),
            "test".to_string(),
            Location { line: 1, column: 2 }
        ),
        parse_error(parser.parse_expression())
    );
}

#[test]
fn failure_of_the_lexer_where_a_token_is_taken() {
    let mut parser = Parser::new("'open", "test");
    match parser.expect_token(TokenKind::String) {
        Err(Error::LexError(error)) => assert_eq!(
            LexError::UnterminatedString {
                location: Location { line: 1, column: 0 }
            },
            error
        ),
        _ => panic!("Other outcome"),
    }
    let mut parser = Parser::new("?", "test");
    match parser.expect_token_one_of(&[TokenKind::Identifier, TokenKind::String]) {
        Err(Error::LexError(error)) => assert_eq!(
            LexError::UnrecognizedCharacter {
                character: '?',
                location: Location { line: 1, column: 0 }
            },
            error
        ),
        _ => panic!("Other outcome"),
    }
}

#[test]
fn failure_of_the_lexer_where_a_token_is_looked_at() {
    let mut parser = Parser::new("a ?", "test");
    match parser.parse_expression() {
        Err(Error::LexError(error)) => assert_eq!(
            LexError::UnrecognizedCharacter {
                character: '?',
                location: Location { line: 1, column: 2 }
            },
            error
        ),
        other => panic!("Other outcome: {:?}", other),
    }
    let mut parser = Parser::new("Hello = ( 'open )", "test");
    match parser.parse() {
        Err(Error::LexError(error)) => assert_eq!(
            LexError::UnterminatedString {
                location: Location { line: 1, column: 10 }
            },
            error
        ),
        _ => panic!("Other outcome"),
    }
}

#[test]
fn peeking_takes_nothing() {
    let mut parser = Parser::new("^ x", "test");
    assert_eq!(TokenKind::Exit, parser.peek_token_kind().unwrap());
    assert_eq!(TokenKind::Exit, parser.peek_token_kind().unwrap());
    let token = parser.expect_token(TokenKind::Exit).unwrap();
    assert_eq!(Location { line: 1, column: 0 }, token.location);
    assert_eq!(TokenKind::Identifier, parser.peek_token_kind().unwrap());
}

#[test]
fn patterns_of_the_three_forms() {
    let mut parser = Parser::new("size  at: i put: v  , other  --> x", "test");
    assert_eq!(("size".to_string(), vec![]), parser.parse_pattern().unwrap());
    assert_eq!(
        ("at:put:".to_string(), vec!["i".to_string(), "v".to_string()]),
        parser.parse_pattern().unwrap()
    );
    assert_eq!(
        (",".to_string(), vec!["other".to_string()]),
        parser.parse_pattern().unwrap()
    );
    assert_eq!(
        ("-->".to_string(), vec!["x".to_string()]),
        parser.parse_pattern().unwrap()
    );
}

#[test]
fn pattern_needs_a_selector() {
    let mut parser = Parser::new("1 = primitive", "test");
    match parser.parse_method() {
        Err(Error::ParseError {
            description,
            location,
            ..
        }) => {
            assert_eq!(
                "Expected [OperatorSequence, And, At, Comma, Divide, Equal, Less, Minus, \
                 Modulus, More, Not, Or, Percent, Plus, Star], found Integer",
                description
            );
            assert_eq!(Location { line: 1, column: 0 }, location);
        }
        _ => panic!("Other outcome"),
    }
}

#[test]
fn statements_with_and_without_periods() {
    let mut parser = Parser::new("a. b c. ^ d )", "test");
    assert_eq!(
        vec![
            variable("a"),
            Expression::UnaryMessage {
                message: "c".into(),
                receiver: Box::new(variable("b")),
            },
            Expression::Return(Box::new(variable("d"))),
        ],
        parser.parse_body().unwrap()
    );
    assert_eq!(TokenKind::EndTerm, parser.peek_token_kind().unwrap());
}

#[test]
fn locals_between_bars() {
    let mut parser = Parser::new("| a b c | x", "test");
    assert_eq!(vec!["a", "b", "c"], parser.parse_locals().unwrap());
    assert_eq!(Vec::<String>::new(), parser.parse_locals().unwrap());
    let mut parser = Parser::new("| a 1 |", "test");
    match parser.parse_locals() {
        Err(Error::ParseError {
            description,
            location,
            ..
        }) => {
            assert_eq!("Expected [Or], found Integer", description);
            assert_eq!(Location { line: 1, column: 4 }, location);
        }
        _ => panic!("Other outcome"),
    }
}

#[test]
fn messages_describe_what_was_expected() {
    assert_eq!(
        "Expected [], found Period",
        describe_mismatch(&[], TokenKind::Period)
    );
    assert_eq!(
        "Expected [Identifier], found Equal",
        describe_mismatch(&[TokenKind::Identifier], TokenKind::Equal)
    );
    assert_eq!(
        "Expected [Integer, Double, String], found KeywordSequence",
        describe_mismatch(
            &[TokenKind::Integer, TokenKind::Double, TokenKind::String],
            TokenKind::KeywordSequence
        )
    );
    assert!(contains_kind(
        &[TokenKind::Integer, TokenKind::Double],
        TokenKind::Double
    ));
    assert!(!contains_kind(&[TokenKind::Integer], TokenKind::Double));
    assert!(!contains_kind(&[], TokenKind::Double));
}

#[test]
fn names_of_the_kinds() {
    let kinds = [
        TokenKind::And,
        TokenKind::Assign,
        TokenKind::At,
        TokenKind::Colon,
        TokenKind::Comma,
        TokenKind::Divide,
        TokenKind::Double,
        TokenKind::EndBlock,
        TokenKind::EndTerm,
        TokenKind::Equal,
        TokenKind::Exit,
        TokenKind::Identifier,
        TokenKind::Integer,
        TokenKind::Keyword,
        TokenKind::KeywordSequence,
        TokenKind::Less,
        TokenKind::Minus,
        TokenKind::Modulus,
        TokenKind::More,
        TokenKind::NewBlock,
        TokenKind::NewTerm,
        TokenKind::Not,
        TokenKind::OperatorSequence,
        TokenKind::Or,
        TokenKind::Percent,
        TokenKind::Period,
        TokenKind::Plus,
        TokenKind::Pound,
        TokenKind::Primitive,
        TokenKind::Separator,
        TokenKind::Star,
        TokenKind::String,
    ];
    for kind in kinds {
        assert_eq!(format!("{:?}", kind), kind_name(kind));
    }
}

#[test]
fn copies_of_trees_are_equal_to_them() {
    let source = "
    Copy = (
        at: i put: v = ( | t | t := [ :x | x + #(1 2.5 'three' #four) ]. ^ self at: i - 1 )
        size = primitive
    )";
    let mut parser = Parser::new(source, "test");
    let class = parser.parse().unwrap();
    for selector in class.instance_methods.selectors() {
        let method = class.instance_methods.get(selector).unwrap();
        let copy = method.clone();
        assert_eq!(method, &copy);
        if let Method::Native { body, .. } = method {
            for statement in body {
                assert_eq!(statement, &statement.clone());
                assert_eq!(statement, &statement.duplicate());
            }
        }
    }
    assert_eq!(2, class.instance_methods.len());
}
