//! Front end of a virtual machine for a small class-based, message-passing
//! language: tokens, the syntax tree, the parser, and the instruction
//! encoding of the machine.

pub mod compiler;
pub mod interpreter;
pub mod vm;
pub mod vmobjects;
