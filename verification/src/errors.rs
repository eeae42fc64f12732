//! Typed assembly-time errors. Lexing or grammar failures, unresolved
//! or duplicate labels, misplaced tokens, and oversized programs each
//! carry their own variant; the assembler never aborts the process.

use vstd::prelude::*;

verus! {

/// Why an assembly call failed. No partial output accompanies any of
/// these: the whole call fails.
#[derive(Debug, Clone)]
pub enum AssemblyError {
    /// A line matched no statement form; `line` counts from 1.
    Syntax { line: usize },
    /// A label reference with no matching declaration.
    UnresolvedSymbol { name: String },
    /// A label declared twice; duplicates are rejected outright.
    DuplicateSymbol { name: String },
    /// A token of the wrong kind stood in an opcode or operand slot.
    OperandMisuse,
    /// More instructions than the 32-bit offset space can address.
    TooLarge,
}

/// The mathematical shape of an assembly error.
pub ghost enum AsmErrV {
    Syntax { line: int },
    UnresolvedSymbol { name: Seq<char> },
    DuplicateSymbol { name: Seq<char> },
    OperandMisuse,
    TooLarge,
}

impl View for AssemblyError {
    type V = AsmErrV;

    open spec fn view(&self) -> AsmErrV {
        match self {
            AssemblyError::Syntax { line } => AsmErrV::Syntax { line: *line as int },
            AssemblyError::UnresolvedSymbol { name } => AsmErrV::UnresolvedSymbol { name: name@ },
            AssemblyError::DuplicateSymbol { name } => AsmErrV::DuplicateSymbol { name: name@ },
            AssemblyError::OperandMisuse => AsmErrV::OperandMisuse,
            AssemblyError::TooLarge => AsmErrV::TooLarge,
        }
    }
}

impl DeepView for AssemblyError {
    type V = AsmErrV;

    open spec fn deep_view(&self) -> AsmErrV {
        self.view()
    }
}

} // verus!
