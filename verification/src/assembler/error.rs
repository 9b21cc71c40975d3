use vstd::prelude::*;

verus! {

/// What is wrong with a line that the assembler rejects.
#[derive(Clone, Copy, Debug, PartialEq, Eq, Structural)]
pub enum ErrorKind {
    /// The head of the line begins with no mnemonic.
    UnknownMnemonic,
    /// What follows the mnemonic is no condition suffix.
    UnknownCondition,
    /// An operand is missing, is of the wrong kind or does not fit its field.
    UnknownOperand,
    /// A label reference names no label.
    UnknownLabel,
    /// A `.word` or `.asciz` directive has no literal, or one it cannot read.
    MalformedLiteral,
    /// An `it` directive has no condition, or too few instructions follow it.
    MalformedDirective,
    /// The program has more items than byte offsets can address.
    ProgramTooLarge,
}

/// A failed assembly: what is wrong, and the offending line.
#[derive(Debug)]
pub struct AssembleError {
    pub kind: ErrorKind,
    pub line: String,
}

/// What an `AssembleError` says.
pub ghost struct Failure {
    pub kind: ErrorKind,
    pub line: Seq<char>,
}

impl View for AssembleError {
    type V = Failure;

    open spec fn view(&self) -> Failure {
        Failure { kind: self.kind, line: self.line@ }
    }
}

} // verus!
