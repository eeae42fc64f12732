//! A minimal register virtual machine and its companion assembler.
//!
//! The crate pairs a fixed four-byte binary instruction format with a
//! two-phase assembler (symbol collection, then serialization) and a
//! fetch-decode-execute interpreter, and proves that the bytes the
//! assembler emits are laid out exactly where the symbol table says
//! they are.

pub mod assembler;
pub mod instruction;
pub mod errors;
pub mod lexer;
pub mod parser;
pub mod symbols;
pub mod vm;
