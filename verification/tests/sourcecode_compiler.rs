use som::compiler::ast::Class;
use som::compiler::{compile, compile_source, CompileError, Error, Location, Parser};

#[test]
fn test_compile_simple_class() {}

#[test]
fn compiled_class_has_the_name_of_the_parsed_class() {
    let mut parser = Parser::new("Hello = Object ( run = primitive )", "hello.som");
    let class: Class = parser.parse().unwrap();
    let compiled = match compile(class) {
        Ok(compiled) => compiled,
        Err(_) => panic!("not compiled"),
    };
    assert_eq!("Hello", compiled.name);
    assert!(compiled.superclass.is_none());
    assert!(compiled.invokables.is_empty());
}

#[test]
fn compile_source_parses_and_compiles() {
    let compiled = match compile_source("Echo = ()", "echo.som") {
        Ok(compiled) => compiled,
        Err(_) => panic!("not compiled"),
    };
    assert_eq!("Echo", compiled.name);
    assert!(compiled.superclass.is_none());
    assert!(compiled.invokables.is_empty());
}

#[test]
fn compile_source_reports_the_parse_error() {
    match compile_source("Echo ()", "echo.som") {
        Err(CompileError::ParseError(Error::ParseError {
            description,
            filename,
            location,
        })) => {
            assert_eq!("Expected [Equal], found NewTerm", description);
            assert_eq!("echo.som", filename);
            assert_eq!(Location { line: 1, column: 5 }, location);
        }
        _ => panic!("Other outcome"),
    }
}
