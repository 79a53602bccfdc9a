//! A zero-knowledge virtual machine: programs over a fixed instruction set, their canonical
//! encoding, the machine that executes them, and the record of an execution from which a proof
//! of correct execution can later be built.

pub mod aet;
pub mod codec;
pub mod error;
pub mod execution;
pub mod field;
pub mod hashing;
pub mod instruction;
pub mod label;
pub mod machine;
pub mod parser;
pub mod program;
pub mod text;
pub mod vm;
pub mod word;
