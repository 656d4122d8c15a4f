//! A small interpreter for the eight-symbol tape language: a parser that turns
//! a symbol stream into a nested instruction tree, and an evaluator that walks
//! the tree over a fixed-length tape of cells.

pub mod instruction;
pub mod printer;
pub mod parser;
pub mod roundtrip;
pub mod machine;
pub mod interpreter;
pub mod trace;

pub use crate::instruction::Instruction;
