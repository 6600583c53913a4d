//! From the source text of a class to a class of the machine.

use crate::compiler::ast::Class;
use crate::compiler::grammar;
use crate::compiler::grammar::{Input, Progress};
use crate::compiler::parser::{Error, Parser};
use crate::compiler::Location;
use crate::vmobjects::{SClass, Sendable};
use vstd::hash_map::StringHashMap;
use vstd::prelude::*;
use vstd::std_specs::convert::FromSpecImpl;

verus! {

/// Why a class was not compiled.
#[derive(Debug)]
pub enum CompileError {
    ParseError(Error),
}

impl From<Error> for CompileError {
    fn from(source: Error) -> (error: CompileError)
        ensures
            error == CompileError::ParseError(source),
    {
        CompileError::ParseError(source)
    }
}

impl FromSpecImpl<Error> for CompileError {
    open spec fn obeys_from_spec() -> bool {
        true
    }

    open spec fn from_spec(source: Error) -> CompileError {
        CompileError::ParseError(source)
    }
}

/// The place at which parsing a text starts.
pub open spec fn beginning() -> Progress {
    Progress { cursor: 0, last: Location { line: 1, column: 0 } }
}

/// `class` is the class of the machine for a class with the name `name`:
/// it has that name, no superclass and nothing that can be invoked.
pub open spec fn compiled(class: SClass, name: Seq<char>) -> bool {
    &&& class.name@ == name
    &&& class.superclass is None
    &&& class.invokables@ == Map::<Seq<char>, Box<dyn Sendable>>::empty()
}

/// Parses the text `source` of the file `filename` and compiles the class
/// that it holds.
pub fn compile_source(source: &str, filename: &str) -> (result: Result<SClass, CompileError>)
    ensures
        match grammar::class(Input { source: source@, filename: filename@ }, beginning()) {
            Ok((class, _)) => result matches Ok(compiled_class) && compiled(
                compiled_class,
                class.name,
            ),
            Err(error) => result matches Err(CompileError::ParseError(e)) && e@ == error,
        },
{
    let mut parser = Parser::new(source, filename);
    match parser.parse() {
        Ok(class) => compile(class),
        Err(error) => Err(CompileError::from(error)),
    }
}

/// Compiles a class: the class of the machine with its name.
pub fn compile(class: Class) -> (result: Result<SClass, CompileError>)
    ensures
        result matches Ok(compiled_class) && compiled(compiled_class, class.name@),
{
    Ok(SClass { name: class.name, superclass: None, invokables: StringHashMap::new() })
}

} // verus!
