//! Lowering to bytecode: the instruction set, chunks of code and the
//! operator table.
pub mod op;
pub mod chunk;
pub mod imports;
pub mod error;
