//! The errors that the library's operations report.
use vstd::prelude::*;

verus! {

/// Every error that building, encoding and decoding can report.
#[derive(Clone, Copy, Debug, PartialEq, Eq, Structural)]
pub enum Error {
    InvalidRegister,
    VersionOutOfBounds,
    VersionFromStrError,
    WriteError,
    BadOperandType,
    BadOperandValue,
    TooManyArgsForSyscall,
    InvalidInstruction,
    NotEnoughOperandsForInstruction,
    InvalidAddr,
    InvalidLit64,
    DisassembleFailure,
    InvalidOutputType,
}

} // verus!
