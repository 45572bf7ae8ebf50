//! The closed set of failures the record store can report.

use vstd::prelude::*;

verus! {

/// Every operation of the library either succeeds or reports exactly one of
/// these kinds; no operation panics and no operation leaves a partial
/// mutation behind.
#[derive(Clone, Copy, Debug, PartialEq, Eq, Structural)]
pub enum RecordError {
    /// The account buffer is shorter than the layout requires.
    BufferTooSmall,
    /// The instruction bytes carry an unknown tag or a truncated payload.
    InvalidInstructionData,
    /// A header field fails its field-level validation.
    InvalidAccountData,
    /// `Initialize` hit a record that is already initialized.
    AccountAlreadyInitialized,
    /// A mutating instruction hit a record that is not initialized.
    UninitializedAccount,
    /// The supplied authority account is not the stored authority.
    IncorrectAuthority,
    /// The supplied authority account did not sign the call.
    MissingRequiredSignature,
    /// A write would run past the payload capacity.
    OutOfBounds,
}

impl RecordError {
    /// The stable numeric code of each error kind.
    pub open spec fn spec_code(self) -> u32 {
        match self {
            RecordError::BufferTooSmall => 0,
            RecordError::InvalidInstructionData => 1,
            RecordError::InvalidAccountData => 2,
            RecordError::AccountAlreadyInitialized => 3,
            RecordError::UninitializedAccount => 4,
            RecordError::IncorrectAuthority => 5,
            RecordError::MissingRequiredSignature => 6,
            RecordError::OutOfBounds => 7,
        }
    }

    /// Maps the error to its stable numeric code, so that an outer host can
    /// surface it without inspecting the enum.
    pub fn code(&self) -> (c: u32)
        ensures
            c == self.spec_code(),
    {
        match self {
            RecordError::BufferTooSmall => 0,
            RecordError::InvalidInstructionData => 1,
            RecordError::InvalidAccountData => 2,
            RecordError::AccountAlreadyInitialized => 3,
            RecordError::UninitializedAccount => 4,
            RecordError::IncorrectAuthority => 5,
            RecordError::MissingRequiredSignature => 6,
            RecordError::OutOfBounds => 7,
        }
    }
}

/// Distinct error kinds always carry distinct numeric codes, so a caller can
/// recover the kind from the code alone.
pub proof fn lemma_error_codes_distinct(a: RecordError, b: RecordError)
    ensures
        a != b ==> a.spec_code() != b.spec_code(),
{
}

} // verus!
