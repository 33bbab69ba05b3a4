//! Target-specific assembly: its instruction forms, the instruction
//! selector with stack allocation and operand fixup, and the text emitter.

pub mod agen;
pub mod symbols;
pub mod transpile;
