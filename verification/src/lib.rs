//! A verified compiler for a minimal subset of C: lexical analysis,
//! recursive-descent parsing, lowering to a three-address intermediate
//! representation, instruction selection with stack allocation and
//! operand fixup, and emission of x86-64 assembly text.
//!
//! Each stage is an ordinary Rust data structure with executable code
//! whose behaviour is proved against a mathematical model of the stage;
//! the [`driver`] module composes the stages and carries the end-to-end
//! contract from source text to assembly text.

pub mod assembly;
pub mod ast;
pub mod decimal;
pub mod driver;
pub mod lex;
pub mod zil;

