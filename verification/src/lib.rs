//! A tiny assembler and von-Neumann virtual machine.
//!
//! Source programs are sequences of defines, function definitions, calls and
//! macro invocations.  The compiler resolves every identifier at compile time
//! (arguments shadow defines, which shadow numeric literals), inlines function
//! calls by recursive re-compilation of the callee body, and emits a flat
//! program of fixed-width commands interleaved with deferred macro calls.
//! The virtual machine executes that program out of a flat byte buffer whose
//! first two bytes hold the live program counter.

pub mod ast;
pub mod command;
pub mod compiler;
pub mod error;
pub mod laws;
pub mod macros;
pub mod memory;
pub mod op;
pub mod parser;
pub mod table;
pub mod value;
pub mod vm;
