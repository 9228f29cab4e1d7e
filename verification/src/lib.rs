//! A stack-based virtual machine for flat integer bytecode, together with a
//! small lexer for the surface language whose programs compile to it.
//!
//! The machine executes a program given as a flat sequence of signed 32-bit
//! words: each word is either an opcode discriminant or an operand of the
//! preceding opcode. Execution is a fetch-decode-execute loop over an operand
//! stack, a global-variable store and three registers (instruction pointer,
//! stack pointer, frame pointer), with an explicit calling convention for
//! `CALL` and `RET`.

pub mod bytecode;
pub mod laws;
pub mod lexer;
pub mod strutil;
pub mod token;
pub mod vm;
