//! A small statically-typed register virtual machine and its textual
//! assembler.
//!
//! The assembler turns a symbolic source form (functions, labeled blocks,
//! register operands, typed opcodes) into a binary module holding a constant
//! pool and a bytecode stream.  The virtual machine loads such a module and
//! executes the bytecode on a flat value stack carved into per-frame register
//! windows.
//!
//! Floating-point payloads are carried everywhere as their 64-bit bit
//! patterns; the few operations whose results depend on IEEE arithmetic are
//! handed to the host as explicit requests, so that the machine itself stays
//! fully checked.

pub mod value;
pub mod bytes;
pub mod isa;
pub mod stack;
pub mod runtime;
pub mod symbols;
pub mod errors;
pub mod text;
pub mod operators;
pub mod lexer;
pub mod parser;
pub mod semantic_anal;
pub mod constpool;
pub mod container;
pub mod codegen;
pub mod garbage_collector;
