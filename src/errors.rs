//! The ways an assembly can fail.
use vstd::prelude::*;

verus! {

/// Why an assembly was abandoned. Every error is fatal to the whole run.
#[derive(PartialEq, Eq, Structural, Clone, Copy, Debug)]
pub enum AsmError {
    /// The address counter reached the top of the SIC address space.
    MemoryOutOfBounds,
    /// A second START directive.
    DuplicateStart,
    /// A statement (END included) before the START directive.
    MissingStart,
    /// The source ended without an END directive.
    MissingEnd,
    /// A statement line with no directive or mnemonic.
    MissingDirective,
    /// A directive that needs an operand came without one.
    MissingOperand,
    /// A START line without a program name in its label field.
    MissingProgramName,
    /// A numeric operand that does not read in its radix.
    BadNumber,
    /// A BYTE literal too short to hold its `C'...'` or `X'...'` wrapper.
    MalformedLiteral,
    /// A WORD or BYTE operand longer than 60 characters.
    OperandTooLong,
}

impl AsmError {
    /// A description of the error for the user.
    pub fn message(&self) -> &'static str {
        match self {
            AsmError::MemoryOutOfBounds => "Memory out of Bounds",
            AsmError::DuplicateStart => "ERROR: Starting address was already defined!\n Maybe you called START twice?",
            AsmError::MissingStart => "ERROR: Starting Address not assigned.\n Maybe you didn't use START?",
            AsmError::MissingEnd => "ERROR: No END directive.",
            AsmError::MissingDirective => "ERROR: A line has no directive or instruction.",
            AsmError::MissingOperand => "ERROR: A directive is missing its operand.",
            AsmError::MissingProgramName => "ERROR: No program name included.",
            AsmError::BadNumber => "ERROR: An operand is not a valid number.",
            AsmError::MalformedLiteral => "ERROR: A BYTE literal is malformed.",
            AsmError::OperandTooLong => "ERROR: Operands longer than 60 characters are not supported.",
        }
    }
}

} // verus!
