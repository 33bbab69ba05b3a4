//! Abstract syntax: the tree the parser builds and the parser itself.

pub mod parser;
pub mod symbols;
