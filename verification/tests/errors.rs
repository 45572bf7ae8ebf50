//! The error kinds and their stable numeric codes.

use spl_record::error::RecordError;

/// Tests that the error kinds are exposed as plain values.
#[test]
fn _test() {
    let _ = RecordError::IncorrectAuthority;
}

#[test]
fn error_codes_are_stable() {
    assert_eq!(RecordError::BufferTooSmall.code(), 0);
    assert_eq!(RecordError::InvalidInstructionData.code(), 1);
    assert_eq!(RecordError::InvalidAccountData.code(), 2);
    assert_eq!(RecordError::AccountAlreadyInitialized.code(), 3);
    assert_eq!(RecordError::UninitializedAccount.code(), 4);
    assert_eq!(RecordError::IncorrectAuthority.code(), 5);
    assert_eq!(RecordError::MissingRequiredSignature.code(), 6);
    assert_eq!(RecordError::OutOfBounds.code(), 7);
}

#[test]
fn error_codes_are_distinct() {
    let all = [
        RecordError::BufferTooSmall,
        RecordError::InvalidInstructionData,
        RecordError::InvalidAccountData,
        RecordError::AccountAlreadyInitialized,
        RecordError::UninitializedAccount,
        RecordError::IncorrectAuthority,
        RecordError::MissingRequiredSignature,
        RecordError::OutOfBounds,
    ];
    for (i, a) in all.iter().enumerate() {
        for (j, b) in all.iter().enumerate() {
            if i != j {
                assert_ne!(a.code(), b.code());
            }
        }
    }
}
