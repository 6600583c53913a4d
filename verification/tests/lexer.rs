use som::compiler::{Lexer, Location, TokenKind};

#[test]
fn skipping_whitespace() {
    let source = "\n Hello \n Test";
    let mut lexer = Lexer::new(source);

    let token = lexer.next().unwrap().unwrap();
    assert_eq!(TokenKind::Identifier, token.kind);
    assert_eq!("Hello", token.text.unwrap());

    let token = lexer.next().unwrap().unwrap();
    assert_eq!(TokenKind::Identifier, token.kind);
    assert_eq!("Test", token.text.unwrap());
}

#[test]
fn skipping_comments() {
    let source = "\"Test\" Hello \"123\"Test";
    let mut lexer = Lexer::new(source);

    let token = lexer.next().unwrap().unwrap();
    assert_eq!(TokenKind::Identifier, token.kind);
    assert_eq!("Hello", token.text.unwrap());

    let token = lexer.next().unwrap().unwrap();
    assert_eq!(TokenKind::Identifier, token.kind);
    assert_eq!("Test", token.text.unwrap());
}

#[test]
fn saves_current_location() {
    let source = " \n  World";
    let mut lexer = Lexer::new(source);
    let token = lexer.next().unwrap().unwrap();
    assert_eq!(Location { line: 2, column: 2 }, token.location);
}

#[test]
fn reading_identifier() {
    let source = "Test";
    let mut lexer = Lexer::new(source);
    let token = lexer.next().unwrap().unwrap();
    assert_eq!(TokenKind::Identifier, token.kind);
    assert_eq!("Test", token.text.unwrap());
}

#[test]
fn reading_keyword() {
    let source = "test:";
    let mut lexer = Lexer::new(source);
    let token = lexer.next().unwrap().unwrap();
    assert_eq!(TokenKind::Keyword, token.kind);
    assert_eq!("test:", token.text.unwrap());
}

#[test]
fn reading_two_keyword_sequence() {
    let source = "foo:bar:";
    let mut lexer = Lexer::new(source);
    let token = lexer.next().unwrap().unwrap();
    assert_eq!(TokenKind::KeywordSequence, token.kind);
    assert_eq!("foo:bar:", token.text.unwrap());
}

#[test]
fn reading_three_keyword_sequence() {
    let source = "foo:bar:baz:";
    let mut lexer = Lexer::new(source);
    let token = lexer.next().unwrap().unwrap();
    assert_eq!(TokenKind::KeywordSequence, token.kind);
    assert_eq!("foo:bar:baz:", token.text.unwrap());
}

#[test]
fn reading_primitive() {
    let source = "primitive";
    let mut lexer = Lexer::new(source);
    let token = lexer.next().unwrap().unwrap();
    assert_eq!(TokenKind::Primitive, token.kind);
    assert_eq!(None, token.text);
}

#[test]
fn reading_minus() {
    let source = "-";
    let mut lexer = Lexer::new(source);
    let token = lexer.next().unwrap().unwrap();
    assert_eq!(TokenKind::Minus, token.kind);
}

#[test]
fn reading_two_minus() {
    let source = "--";
    let mut lexer = Lexer::new(source);
    let token = lexer.next().unwrap().unwrap();
    assert_eq!(TokenKind::OperatorSequence, token.kind);
    assert_eq!("--", token.text.unwrap());
}

#[test]
fn reading_three_minus() {
    let source = "---";
    let mut lexer = Lexer::new(source);
    let token = lexer.next().unwrap().unwrap();
    assert_eq!(TokenKind::OperatorSequence, token.kind);
    assert_eq!("---", token.text.unwrap());
}

#[test]
fn reading_minus_operator_sequence() {
    let source = "-->";
    let mut lexer = Lexer::new(source);
    let token = lexer.next().unwrap().unwrap();
    assert_eq!(TokenKind::OperatorSequence, token.kind);
    assert_eq!("-->", token.text.unwrap());
}

#[test]
fn reading_separator() {
    let source = "----";
    let mut lexer = Lexer::new(source);
    let token = lexer.next().unwrap().unwrap();
    assert_eq!(TokenKind::Separator, token.kind);
}

#[test]
fn reading_long_separator() {
    let source = "----------------\ntest";
    let mut lexer = Lexer::new(source);

    let token = lexer.next().unwrap().unwrap();
    assert_eq!(TokenKind::Separator, token.kind);

    let token = lexer.next().unwrap().unwrap();
    assert_eq!(TokenKind::Identifier, token.kind);
    assert_eq!("test", token.text.unwrap());
}

#[test]
fn reading_integer() {
    let source = "1";
    let mut lexer = Lexer::new(source);
    let token = lexer.next().unwrap().unwrap();
    assert_eq!(TokenKind::Integer, token.kind);
    assert_eq!("1", token.text.unwrap());
}

#[test]
fn reading_integer_and_period() {
    let source = "1.";
    let mut lexer = Lexer::new(source);

    let token = lexer.next().unwrap().unwrap();
    assert_eq!(TokenKind::Integer, token.kind);
    assert_eq!("1", token.text.unwrap());

    let token = lexer.next().unwrap().unwrap();
    assert_eq!(TokenKind::Period, token.kind);
}

#[test]
fn reading_double() {
    let source = "3.14";
    let mut lexer = Lexer::new(source);
    let token = lexer.next().unwrap().unwrap();
    assert_eq!(TokenKind::Double, token.kind);
    assert_eq!("3.14", token.text.unwrap());
}

#[test]
fn reading_string() {
    let source = "'Hello'";
    let mut lexer = Lexer::new(source);
    let token = lexer.next().unwrap().unwrap();
    assert_eq!(TokenKind::String, token.kind);
    assert_eq!("Hello", token.text.unwrap());
}

#[test]
fn reading_unicode_string() {
    let source = "'ᚠᛇᚻ᛫ᛒᛦᚦ᛫ᚠᚱᚩᚠᚢᚱ᛫ᚠᛁᚱᚪ᛫ᚷᛖᚻᚹᛦᛚᚳᚢᛗ'";
    let mut lexer = Lexer::new(source);
    let token = lexer.next().unwrap().unwrap();
    assert_eq!(TokenKind::String, token.kind);
    assert_eq!("ᚠᛇᚻ᛫ᛒᛦᚦ᛫ᚠᚱᚩᚠᚢᚱ᛫ᚠᛁᚱᚪ᛫ᚷᛖᚻᚹᛦᛚᚳᚢᛗ", token.text.unwrap());
}

#[test]
fn reading_string_with_escape() {
    let source = "'\\''";
    let mut lexer = Lexer::new(source);
    let token = lexer.next().unwrap().unwrap();
    assert_eq!(TokenKind::String, token.kind);
    assert_eq!("'", token.text.unwrap());
}

#[test]
fn reading_colon() {
    let source = ":";
    let mut lexer = Lexer::new(source);
    let token = lexer.next().unwrap().unwrap();
    assert_eq!(TokenKind::Colon, token.kind);
}

#[test]
fn reading_assignment() {
    let source = "foo := 'Hello'";
    let mut lexer = Lexer::new(source);

    let token = lexer.next().unwrap().unwrap();
    assert_eq!(TokenKind::Identifier, token.kind);
    assert_eq!("foo", token.text.unwrap());

    let token = lexer.next().unwrap().unwrap();
    assert_eq!(TokenKind::Assign, token.kind);

    let token = lexer.next().unwrap().unwrap();
    assert_eq!(TokenKind::String, token.kind);
    assert_eq!("Hello", token.text.unwrap());
}

#[test]
fn reading_simple_symbols() {
    let source = "[]()#^.";
    let mut lexer = Lexer::new(source);

    assert_eq!(TokenKind::NewBlock, lexer.next().unwrap().unwrap().kind);
    assert_eq!(TokenKind::EndBlock, lexer.next().unwrap().unwrap().kind);
    assert_eq!(TokenKind::NewTerm, lexer.next().unwrap().unwrap().kind);
    assert_eq!(TokenKind::EndTerm, lexer.next().unwrap().unwrap().kind);
    assert_eq!(TokenKind::Pound, lexer.next().unwrap().unwrap().kind);
    assert_eq!(TokenKind::Exit, lexer.next().unwrap().unwrap().kind);
    assert_eq!(TokenKind::Period, lexer.next().unwrap().unwrap().kind);
}

#[test]
fn reading_simple_operators() {
    let source = "~ & | * / \\ + = < > , @ %";
    let mut lexer = Lexer::new(source);

    assert_eq!(TokenKind::Not, lexer.next().unwrap().unwrap().kind);
    assert_eq!(TokenKind::And, lexer.next().unwrap().unwrap().kind);
    assert_eq!(TokenKind::Or, lexer.next().unwrap().unwrap().kind);
    assert_eq!(TokenKind::Star, lexer.next().unwrap().unwrap().kind);
    assert_eq!(TokenKind::Divide, lexer.next().unwrap().unwrap().kind);
    assert_eq!(TokenKind::Modulus, lexer.next().unwrap().unwrap().kind);
    assert_eq!(TokenKind::Plus, lexer.next().unwrap().unwrap().kind);
    assert_eq!(TokenKind::Equal, lexer.next().unwrap().unwrap().kind);
    assert_eq!(TokenKind::Less, lexer.next().unwrap().unwrap().kind);
    assert_eq!(TokenKind::More, lexer.next().unwrap().unwrap().kind);
    assert_eq!(TokenKind::Comma, lexer.next().unwrap().unwrap().kind);
    assert_eq!(TokenKind::At, lexer.next().unwrap().unwrap().kind);
    assert_eq!(TokenKind::Percent, lexer.next().unwrap().unwrap().kind);
}

#[test]
fn reading_operator_sequence() {
    let source = "<=";
    let mut lexer = Lexer::new(source);
    let token = lexer.next().unwrap().unwrap();
    assert_eq!(TokenKind::OperatorSequence, token.kind);
    assert_eq!("<=", token.text.unwrap());
}

#[test]
fn reading_example_program() {
    let source = "
    Hello = (
        \"The 'run' method is called when initializing the system\"
        run = ('Hello, World from SOM' println)
    )
    ";
    let mut lexer = Lexer::new(source);

    let token = lexer.next().unwrap().unwrap();
    assert_eq!(TokenKind::Identifier, token.kind);
    assert_eq!("Hello", token.text.unwrap());

    let token = lexer.next().unwrap().unwrap();
    assert_eq!(TokenKind::Equal, token.kind);

    let token = lexer.next().unwrap().unwrap();
    assert_eq!(TokenKind::NewTerm, token.kind);

    let token = lexer.next().unwrap().unwrap();
    assert_eq!(TokenKind::Identifier, token.kind);
    assert_eq!("run", token.text.unwrap());

    let token = lexer.next().unwrap().unwrap();
    assert_eq!(TokenKind::Equal, token.kind);

    let token = lexer.next().unwrap().unwrap();
    assert_eq!(TokenKind::NewTerm, token.kind);

    let token = lexer.next().unwrap().unwrap();
    assert_eq!(TokenKind::String, token.kind);
    assert_eq!("Hello, World from SOM", token.text.unwrap());

    let token = lexer.next().unwrap().unwrap();
    assert_eq!(TokenKind::Identifier, token.kind);
    assert_eq!("println", token.text.unwrap());

    let token = lexer.next().unwrap().unwrap();
    assert_eq!(TokenKind::EndTerm, token.kind);

    let token = lexer.next().unwrap().unwrap();
    assert_eq!(TokenKind::EndTerm, token.kind);

    assert!(lexer.next().is_none());
}
