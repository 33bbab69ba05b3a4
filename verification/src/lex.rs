//! Lexical analysis: scanning raw source text into a flat token stream.

pub mod lexer;
