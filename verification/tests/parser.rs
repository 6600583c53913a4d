use som::compiler::ast::{Expression, Method};
use som::compiler::{Error, Location, Parser};

#[test]
fn test_parse_with_simple_class() {
    let source = "Hello = ()";
    let mut parser = Parser::new(source, "test");

    let class = parser.parse().unwrap();
    assert_eq!("Hello", class.name);
    assert_eq!(None, class.superclass);
}

#[test]
fn test_parse_with_superclass() {
    let source = "Hello = Test ()";
    let mut parser = Parser::new(source, "test");

    let class = parser.parse().unwrap();
    assert_eq!("Hello", class.name);
    assert_eq!("Test", class.superclass.unwrap());
}

#[test]
fn test_parse_class_with_variables() {
    let source = "
    Hello = (
        | foo bar |
        ----
        | baz qux |
    )";
    let mut parser = Parser::new(source, "test");

    let class = parser.parse().unwrap();
    assert_eq!(vec!["foo", "bar"], class.instance_variables);
    assert_eq!(vec!["baz", "qux"], class.class_variables);
}

#[test]
fn test_parse_class_with_primitive_methods() {
    let source = "
    Hello = (
        foo = primitive
        ----
        bar: a baz: b = primitive
    )";
    let mut parser = Parser::new(source, "test");
    let class = parser.parse().unwrap();

    let method = class.instance_methods.get("foo").unwrap();
    assert_eq!(
        &Method::Primitive {
            name: "foo".into(),
            parameters: vec![],
        },
        method
    );

    let method = class.class_methods.get("bar:baz:").unwrap();
    assert_eq!(
        &Method::Primitive {
            name: "bar:baz:".into(),
            parameters: vec!["a".into(), "b".into()],
        },
        method
    );
}

#[test]
fn test_parse_expression_integer_literal() {
    let source = "1.";
    let mut parser = Parser::new(source, "test");
    let expression = parser.parse_expression().unwrap();
    assert_eq!(Expression::LiteralInteger(1), expression);
}

#[test]
fn test_parse_expression_negative_integer_literal() {
    let source = "-1.";
    let mut parser = Parser::new(source, "test");
    let expression = parser.parse_expression().unwrap();
    assert_eq!(Expression::LiteralInteger(-1), expression);
}

#[test]
fn test_parse_expression_double_literal() {
    let source = "1.23.";
    let mut parser = Parser::new(source, "test");
    let expression = parser.parse_expression().unwrap();
    assert_eq!(
        Expression::LiteralDouble {
            negative: false,
            text: "1.23".into()
        },
        expression
    );
    if let Expression::LiteralDouble { negative, text } = expression {
        let value: f64 = text.parse().unwrap();
        assert_eq!(1.23, if negative { -value } else { value });
    } else {
        panic!("No double");
    }
}

#[test]
fn test_parse_expression_negative_double_literal() {
    let source = "-1.23.";
    let mut parser = Parser::new(source, "test");
    let expression = parser.parse_expression().unwrap();
    assert_eq!(
        Expression::LiteralDouble {
            negative: true,
            text: "1.23".into()
        },
        expression
    );
    if let Expression::LiteralDouble { negative, text } = expression {
        let value: f64 = text.parse().unwrap();
        assert_eq!(-1.23, if negative { -value } else { value });
    } else {
        panic!("No double");
    }
}

#[test]
fn test_parse_expression_variable() {
    let source = "a.";
    let mut parser = Parser::new(source, "test");
    let expression = parser.parse_expression().unwrap();
    assert_eq!(Expression::Variable("a".into()), expression);
}

#[test]
fn test_parse_expression_string_literal() {
    let source = "'test'.";
    let mut parser = Parser::new(source, "test");
    let expression = parser.parse_expression().unwrap();
    assert_eq!(expression, Expression::LiteralString("test".into()));
}

#[test]
fn test_parse_expression_nil_literal() {
    let source = "nil.";
    let mut parser = Parser::new(source, "test");
    let expression = parser.parse_expression().unwrap();
    assert_eq!(Expression::LiteralNil, expression);
}

#[test]
fn test_parse_expression_array_literal() {
    let source = "#(1 2).";
    let mut parser = Parser::new(source, "test");
    let expression = parser.parse_expression().unwrap();
    assert_eq!(
        Expression::LiteralArray(vec![
            Expression::LiteralInteger(1),
            Expression::LiteralInteger(2)
        ]),
        expression
    );
}

#[test]
fn test_parse_expression_unary_message() {
    let source = "1 println.";
    let mut parser = Parser::new(source, "test");
    let expression = parser.parse_expression().unwrap();
    assert_eq!(
        Expression::UnaryMessage {
            message: "println".into(),
            receiver: Box::new(Expression::LiteralInteger(1)),
        },
        expression
    );
}

#[test]
fn test_parse_expression_multiple_unary_messages() {
    let source = "1 test println.";
    let mut parser = Parser::new(source, "test");
    let expression = parser.parse_expression().unwrap();
    assert_eq!(
        Expression::UnaryMessage {
            message: "println".into(),
            receiver: Box::new(Expression::UnaryMessage {
                message: "test".into(),
                receiver: Box::new(Expression::LiteralInteger(1)),
            }),
        },
        expression
    );
}

#[test]
fn test_parse_expression_binary_operator() {
    let source = "1 + 2.";
    let mut parser = Parser::new(source, "test");
    let expression = parser.parse_expression().unwrap();
    assert_eq!(
        Expression::BinaryMessage {
            message: "+".into(),
            left: Box::new(Expression::LiteralInteger(1)),
            right: Box::new(Expression::LiteralInteger(2)),
        },
        expression
    );
}

#[test]
fn test_parse_expression_operator_sequence() {
    let source = "1 <= 2.";
    let mut parser = Parser::new(source, "test");
    let expression = parser.parse_expression().unwrap();
    assert_eq!(
        Expression::BinaryMessage {
            message: "<=".into(),
            left: Box::new(Expression::LiteralInteger(1)),
            right: Box::new(Expression::LiteralInteger(2)),
        },
        expression
    );
}

#[test]
fn test_parse_expression_boolean_literals() {
    let source = "true || false.";
    let mut parser = Parser::new(source, "test");
    let expression = parser.parse_expression().unwrap();
    assert_eq!(
        Expression::BinaryMessage {
            message: "||".into(),
            left: Box::new(Expression::LiteralBoolean(true)),
            right: Box::new(Expression::LiteralBoolean(false)),
        },
        expression
    );
}

#[test]
fn test_parse_expression_complex_messages() {
    let source = "1 with: a length and: 1 + 2.";
    let mut parser = Parser::new(source, "test");
    let expression = parser.parse_expression().unwrap();
    assert_eq!(
        Expression::KeywordMessage {
            message: "with:and:".into(),
            parameters: vec![
                Expression::UnaryMessage {
                    message: "length".into(),
                    receiver: Box::new(Expression::Variable("a".into())),
                },
                Expression::BinaryMessage {
                    message: "+".into(),
                    left: Box::new(Expression::LiteralInteger(1)),
                    right: Box::new(Expression::LiteralInteger(2)),
                },
            ],
            receiver: Box::new(Expression::LiteralInteger(1)),
        },
        expression
    );
}

#[test]
fn test_parse_expression_assignment() {
    let source = "a := 'test'.";
    let mut parser = Parser::new(source, "test");
    let expression = parser.parse_expression().unwrap();
    assert_eq!(
        Expression::Assignment {
            variable: "a".into(),
            value: Box::new(Expression::LiteralString("test".into())),
        },
        expression
    );
}

#[test]
fn test_parse_assignment_error() {
    let source = "1 := 'test'.";
    let mut parser = Parser::new(source, "test");
    let result = parser.parse_expression().unwrap_err();

    if let Error::ParseError {
        description,
        filename,
        location,
    } = result
    {
        assert_eq!(
            "Attempt to assign result of expression to something other than a variable",
            description
        );
        assert_eq!("test", filename);
        assert_eq!(Location { column: 2, line: 1 }, location);
    } else {
        panic!("Other failure");
    }
}

#[test]
fn test_parse_multiple_assignment() {
    let source = "a := b := 'test'.";
    let mut parser = Parser::new(source, "test");
    let expression = parser.parse_expression().unwrap();
    assert_eq!(
        Expression::Assignment {
            variable: "a".into(),
            value: Box::new(Expression::Assignment {
                variable: "b".into(),
                value: Box::new(Expression::LiteralString("test".into())),
            }),
        },
        expression
    );
}

#[test]
fn test_parse_expression_nested_terms() {
    let source = "1 + (2 - 1).";
    let mut parser = Parser::new(source, "test");
    let expression = parser.parse_expression().unwrap();
    assert_eq!(
        Expression::BinaryMessage {
            message: "+".into(),
            left: Box::new(Expression::LiteralInteger(1)),
            right: Box::new(Expression::BinaryMessage {
                message: "-".into(),
                left: Box::new(Expression::LiteralInteger(2)),
                right: Box::new(Expression::LiteralInteger(1)),
            }),
        },
        expression
    );
}

#[test]
fn test_parse_expression_unary_message_binds_highest() {
    let source = "1 test + 2.";
    let mut parser = Parser::new(source, "test");
    let expression = parser.parse_expression().unwrap();
    assert_eq!(
        Expression::BinaryMessage {
            message: "+".into(),
            left: Box::new(Expression::UnaryMessage {
                receiver: Box::new(Expression::LiteralInteger(1)),
                message: "test".into(),
            }),
            right: Box::new(Expression::LiteralInteger(2)),
        },
        expression
    );
}

#[test]
fn test_parse_expression_literal_symbols() {
    let source = "#test #'test-case' #run:with:.";
    let mut parser = Parser::new(source, "test");

    let expression = parser.parse_expression().unwrap();
    assert_eq!(Expression::LiteralSymbol("test".into()), expression);

    let expression = parser.parse_expression().unwrap();
    assert_eq!(
        Expression::LiteralSymbol("test-case".into()),
        expression
    );

    let expression = parser.parse_expression().unwrap();
    assert_eq!(
        Expression::LiteralSymbol("run:with:".into()),
        expression
    );
}

#[test]
fn test_parse_method_with_exit() {
    let source = "
    test = (
        ^ 1 + 1.
    )";
    let mut parser = Parser::new(source, "test");
    let method = parser.parse_method().unwrap();
    assert_eq!(
        Method::Native {
            name: "test".into(),
            parameters: vec![],
            locals: vec![],
            body: vec![Expression::Return(Box::new(
                Expression::BinaryMessage {
                    message: "+".into(),
                    left: Box::new(Expression::LiteralInteger(1)),
                    right: Box::new(Expression::LiteralInteger(1)),
                },
            )),],
        },
        method
    );
}

#[test]
fn test_parse_echo_program() {
    let source = "
    Echo = (
        run: args = (
            args from: 2 to: args length do: [ :arg | arg print. ' ' print ].
            '' println.
        )
    )";
    let mut parser = Parser::new(source, "test");

    let class = parser.parse().unwrap();
    assert_eq!("Echo", class.name);
    assert_eq!(None, class.superclass);

    if let Some(Method::Native { name, locals, .. }) = class.instance_methods.get("run:") {
        assert_eq!("run:", name);
        assert!(locals.is_empty());
    } else {
        panic!("No method")
    }
}
