use vstd::prelude::*;

verus! {

/// The errors that the punchcard rules themselves raise.
#[derive(Clone, Copy, Debug, PartialEq, Eq, Structural)]
pub enum Error {
    InvalidAuthority,
    IndexOutOfBounds,
    AlreadyClaimed,
    InvalidCapacity,
}

/// The failures an operation reports to the host: structural and host-boundary
/// errors by kind, and the rule errors of [`Error`] by their code.
#[derive(Clone, Copy, Debug, PartialEq, Eq, Structural)]
pub enum ProgramError {
    InvalidAccountData,
    MissingRequiredSignature,
    IncorrectProgramId,
    Custom(u32),
}

impl Error {
    pub open spec fn code_spec(self) -> u32 {
        match self {
            Error::InvalidAuthority => 0,
            Error::IndexOutOfBounds => 1,
            Error::AlreadyClaimed => 2,
            Error::InvalidCapacity => 3,
        }
    }

    /// The numeric code under which the error is reported.
    pub fn code(&self) -> (r: u32)
        ensures
            r == self.code_spec(),
    {
        match self {
            Error::InvalidAuthority => 0,
            Error::IndexOutOfBounds => 1,
            Error::AlreadyClaimed => 2,
            Error::InvalidCapacity => 3,
        }
    }

    pub open spec fn program_error(self) -> ProgramError {
        ProgramError::Custom(self.code_spec())
    }

    pub fn into_program_error(self) -> (r: ProgramError)
        ensures
            r == self.program_error(),
    {
        ProgramError::Custom(self.code())
    }
}

} // verus!
