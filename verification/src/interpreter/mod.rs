//! The instruction set of the machine.

pub mod bytecode;
