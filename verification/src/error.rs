//! Compile-time errors.
//!
//! Every kind carries the offending identifiers, whose spans and source-unit
//! names let a renderer point into the offending line.  Errors are raised
//! fail-fast: the first one aborts compiling the current item.

use vstd::prelude::*;

use crate::ast::{Ident, IdentV, Span};

verus! {

/// A structured compile-time error.
#[derive(Debug)]
pub enum CompileError {
    /// The function name is already registered; carries the new definition's
    /// name and the original definition's name.
    DuplicateFunction { name: Ident, original: Ident },
    /// A call passed the wrong number of arguments.
    ArityMismatch { called: Ident, span: Span, expected: usize, actual: usize },
    /// The called name is neither a built-in mnemonic nor a registered
    /// function.
    UndefinedFunction { called: Ident, span: Span },
    /// The invoked macro name is not in the registry.
    UndefinedMacro { called: Ident },
    /// The identifier is bound neither as an argument nor as a define, and
    /// its text does not parse as a numeric literal.
    UnresolvedIdentifier { ident: Ident },
    /// A preprocess macro named a source unit that is not registered.
    UnitNotFound { name: Ident },
    /// Function inlining exceeded the fixed depth limit.
    RecursionLimit { called: Ident },
}

/// The mathematical image of a compile-time error.
pub enum ErrorV {
    DuplicateFunction { name: IdentV, original: IdentV },
    ArityMismatch { called: IdentV, span: Span, expected: int, actual: int },
    UndefinedFunction { called: IdentV, span: Span },
    UndefinedMacro { called: IdentV },
    UnresolvedIdentifier { ident: IdentV },
    UnitNotFound { name: IdentV },
    RecursionLimit { called: IdentV },
}

impl View for CompileError {
    type V = ErrorV;

    open spec fn view(&self) -> ErrorV {
        match self {
            CompileError::DuplicateFunction { name, original } => ErrorV::DuplicateFunction {
                name: name@,
                original: original@,
            },
            CompileError::ArityMismatch { called, span, expected, actual } => ErrorV::ArityMismatch {
                called: called@,
                span: *span,
                expected: *expected as int,
                actual: *actual as int,
            },
            CompileError::UndefinedFunction { called, span } => ErrorV::UndefinedFunction {
                called: called@,
                span: *span,
            },
            CompileError::UndefinedMacro { called } => ErrorV::UndefinedMacro { called: called@ },
            CompileError::UnresolvedIdentifier { ident } => ErrorV::UnresolvedIdentifier {
                ident: ident@,
            },
            CompileError::UnitNotFound { name } => ErrorV::UnitNotFound { name: name@ },
            CompileError::RecursionLimit { called } => ErrorV::RecursionLimit { called: called@ },
        }
    }
}

} // verus!
