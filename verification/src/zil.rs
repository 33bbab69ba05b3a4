//! The three-address intermediate representation and the lowering pass
//! that produces it from the abstract syntax tree.

pub mod symbols;
pub mod transpile;
