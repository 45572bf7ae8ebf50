//! The layout codecs on concrete buffers: round trips and rejected inputs.

use spl_record::error::RecordError;
use spl_record::processor::{process_initialize_dynamic, process_write_dynamic, AccountState};
use spl_record::pubkey::Pubkey;
use spl_record::state::{
    Data, RecordData, RecordDataDynamic, CURRENT_VERSION, DATA_SIZE, DYNAMIC_HEADER_LEN,
    RECORD_LEN,
};

#[test]
fn record_pack_unpack_round_trip() {
    let record = RecordData {
        is_initialized: true,
        version: CURRENT_VERSION,
        authority: Pubkey::new_from_array([4u8; 32]),
        data: Data { bytes: vec![17u8; DATA_SIZE] },
    };
    let mut buffer = vec![0u8; RECORD_LEN];
    record.pack_into_slice(&mut buffer);

    let unpacked = RecordData::unpack(&buffer).unwrap();
    assert!(unpacked.is_initialized);
    assert_eq!(unpacked.version, CURRENT_VERSION);
    assert_eq!(unpacked.authority, record.authority);
    assert_eq!(unpacked.data.bytes, record.data.bytes);
}

#[test]
fn record_pack_writes_exact_region() {
    let record = RecordData {
        is_initialized: true,
        version: CURRENT_VERSION,
        authority: Pubkey::new_from_array([4u8; 32]),
        data: Data { bytes: vec![17u8; DATA_SIZE] },
    };
    // A larger buffer: everything past RECORD_LEN must be untouched.
    let mut buffer = vec![0xEEu8; RECORD_LEN + 10];
    record.pack(&mut buffer).unwrap();
    assert!(buffer[RECORD_LEN..].iter().all(|b| *b == 0xEE));

    // A short buffer is rejected and left unchanged.
    let mut short = vec![0xEEu8; RECORD_LEN - 1];
    assert_eq!(record.pack(&mut short).unwrap_err(), RecordError::BufferTooSmall);
    assert!(short.iter().all(|b| *b == 0xEE));
}

#[test]
fn record_unpack_short_buffer() {
    let buffer = vec![0u8; RECORD_LEN - 1];
    assert_eq!(RecordData::unpack(&buffer).unwrap_err(), RecordError::BufferTooSmall);
    assert_eq!(
        RecordData::unpack_unchecked(&buffer).unwrap_err(),
        RecordError::BufferTooSmall
    );
}

#[test]
fn record_unpack_bad_flag() {
    // Any flag byte other than 0 or 1 is rejected before any other field
    // is trusted, by the unchecked read too.
    let mut buffer = vec![0u8; RECORD_LEN];
    buffer[0] = 2;
    assert_eq!(RecordData::unpack(&buffer).unwrap_err(), RecordError::InvalidAccountData);
    assert_eq!(
        RecordData::unpack_unchecked(&buffer).unwrap_err(),
        RecordError::InvalidAccountData
    );
}

#[test]
fn record_unpack_uninitialized() {
    // A zeroed buffer reads as an absent record: the unchecked read
    // succeeds, the checked read reports UninitializedAccount.
    let buffer = vec![0u8; RECORD_LEN];
    let unchecked = RecordData::unpack_unchecked(&buffer).unwrap();
    assert!(!unchecked.is_initialized);
    assert_eq!(RecordData::unpack(&buffer).unwrap_err(), RecordError::UninitializedAccount);
}

#[test]
fn record_unpack_wrong_version() {
    // An initialized record with a non-current version is a decode error.
    let record = RecordData {
        is_initialized: true,
        version: CURRENT_VERSION + 1,
        authority: Pubkey::new_from_array([4u8; 32]),
        data: Data { bytes: vec![0u8; DATA_SIZE] },
    };
    let mut buffer = vec![0u8; RECORD_LEN];
    record.pack_into_slice(&mut buffer);
    assert_eq!(RecordData::unpack(&buffer).unwrap_err(), RecordError::InvalidAccountData);
}

#[test]
fn dynamic_header_round_trip() {
    let header = RecordDataDynamic {
        version: CURRENT_VERSION,
        authority: Pubkey::new_from_array([6u8; 32]),
    };
    let mut buffer = vec![0u8; DYNAMIC_HEADER_LEN + 20];
    header.pack_into_slice(&mut buffer);

    let unpacked = RecordDataDynamic::unpack_from_slice(&buffer).unwrap();
    assert_eq!(unpacked.version, CURRENT_VERSION);
    assert_eq!(unpacked.authority, header.authority);

    let short = vec![0u8; DYNAMIC_HEADER_LEN - 1];
    assert_eq!(
        RecordDataDynamic::unpack_from_slice(&short).unwrap_err(),
        RecordError::BufferTooSmall
    );
    assert_eq!(
        RecordDataDynamic::unpack(&vec![0u8; DYNAMIC_HEADER_LEN]).unwrap_err(),
        RecordError::UninitializedAccount
    );
}

#[test]
fn create_record_dynamic_success() {
    let original_data = "testing dynamic data";
    let converted_data = original_data.as_bytes().to_vec();
    let data_len = converted_data.len();

    // The caller sizes the storage: header, the payload, and some slack.
    let mut account = AccountState {
        key: Pubkey::new_from_array([9u8; 32]),
        lamports: 1_000_000,
        data: vec![0u8; DYNAMIC_HEADER_LEN + data_len + 100],
        is_signer: false,
    };
    let authority = Pubkey::new_from_array([7u8; 32]);
    process_initialize_dynamic(&mut account, &authority).unwrap();

    let authority_account = AccountState {
        key: Pubkey::new_from_array([7u8; 32]),
        lamports: 0,
        data: Vec::new(),
        is_signer: true,
    };
    process_write_dynamic(&mut account, &authority_account, 0, &converted_data).unwrap();

    let record_header = RecordDataDynamic::unpack_from_slice(&account.data).unwrap();
    let record_data = &account.data[DYNAMIC_HEADER_LEN..DYNAMIC_HEADER_LEN + data_len];
    assert_eq!(original_data.as_bytes(), record_data);
    assert_eq!(authority, record_header.authority);
    assert_eq!(CURRENT_VERSION, record_header.version);
}

#[test]
fn write_dynamic_bounds_follow_buffer() {
    // The dynamic capacity is the actual allocated length minus the
    // header width, not a compile-time constant.
    let mut account = AccountState {
        key: Pubkey::new_from_array([9u8; 32]),
        lamports: 0,
        data: vec![0u8; DYNAMIC_HEADER_LEN + 4],
        is_signer: false,
    };
    process_initialize_dynamic(&mut account, &Pubkey::new_from_array([7u8; 32])).unwrap();
    let authority_account = AccountState {
        key: Pubkey::new_from_array([7u8; 32]),
        lamports: 0,
        data: Vec::new(),
        is_signer: true,
    };
    let before = account.data.clone();

    let r = process_write_dynamic(&mut account, &authority_account, 2, &vec![1u8; 3]);
    assert_eq!(r.unwrap_err(), RecordError::OutOfBounds);
    assert_eq!(account.data, before);

    process_write_dynamic(&mut account, &authority_account, 2, &vec![1u8; 2]).unwrap();
    assert_eq!(&account.data[DYNAMIC_HEADER_LEN + 2..], &[1u8, 1u8]);
}

#[test]
fn initialize_dynamic_twice_fail() {
    let mut account = AccountState {
        key: Pubkey::new_from_array([9u8; 32]),
        lamports: 0,
        data: vec![0u8; DYNAMIC_HEADER_LEN],
        is_signer: false,
    };
    let authority = Pubkey::new_from_array([7u8; 32]);
    process_initialize_dynamic(&mut account, &authority).unwrap();
    let before = account.data.clone();

    let again = process_initialize_dynamic(&mut account, &authority);
    assert_eq!(again.unwrap_err(), RecordError::AccountAlreadyInitialized);
    assert_eq!(account.data, before);
}
