//! The instruction wire format and the dispatcher driven through it.

use spl_record::error::RecordError;
use spl_record::instruction::RecordInstruction;
use spl_record::processor::{process_instruction, AccountState};
use spl_record::pubkey::Pubkey;
use spl_record::state::{RecordData, CURRENT_VERSION, DATA_SIZE, RECORD_LEN};

#[test]
fn instruction_round_trip() {
    let encoded = RecordInstruction::Initialize.encode();
    assert_eq!(encoded, vec![0u8]);
    assert!(matches!(
        RecordInstruction::decode(&encoded).unwrap(),
        RecordInstruction::Initialize
    ));

    let write = RecordInstruction::Write { offset: 0x01020304, data: vec![7, 8, 9] };
    let encoded = write.encode();
    assert_eq!(
        encoded,
        vec![1u8, 4, 3, 2, 1, 0, 0, 0, 0, 3, 0, 0, 0, 7, 8, 9]
    );
    match RecordInstruction::decode(&encoded).unwrap() {
        RecordInstruction::Write { offset, data } => {
            assert_eq!(offset, 0x01020304);
            assert_eq!(data, vec![7, 8, 9]);
        },
        _ => panic!("decoded the wrong variant"),
    }

    let encoded = RecordInstruction::SetAuthority.encode();
    assert_eq!(encoded, vec![2u8]);
    assert!(matches!(
        RecordInstruction::decode(&encoded).unwrap(),
        RecordInstruction::SetAuthority
    ));

    let encoded = RecordInstruction::CloseAccount.encode();
    assert_eq!(encoded, vec![3u8]);
    assert!(matches!(
        RecordInstruction::decode(&encoded).unwrap(),
        RecordInstruction::CloseAccount
    ));
}

#[test]
fn instruction_rejects_malformed_bytes() {
    // Empty input.
    assert_eq!(
        RecordInstruction::decode(&Vec::new()).unwrap_err(),
        RecordError::InvalidInstructionData
    );
    // Unknown tag.
    assert_eq!(
        RecordInstruction::decode(&vec![4u8]).unwrap_err(),
        RecordError::InvalidInstructionData
    );
    // Trailing bytes after a no-payload instruction.
    assert_eq!(
        RecordInstruction::decode(&vec![0u8, 0u8]).unwrap_err(),
        RecordError::InvalidInstructionData
    );
    // A truncated Write header.
    assert_eq!(
        RecordInstruction::decode(&vec![1u8, 0, 0, 0]).unwrap_err(),
        RecordError::InvalidInstructionData
    );
    // A Write whose length prefix disagrees with the bytes present.
    let mut bytes = RecordInstruction::Write { offset: 0, data: vec![7, 8, 9] }.encode();
    bytes.pop();
    assert_eq!(
        RecordInstruction::decode(&bytes).unwrap_err(),
        RecordError::InvalidInstructionData
    );
}

fn account(key: [u8; 32], lamports: u64, data: Vec<u8>, is_signer: bool) -> AccountState {
    AccountState { key: Pubkey::new_from_array(key), lamports, data, is_signer }
}

#[test]
fn dispatch_full_lifecycle() {
    // Initialize, write, change authority, and close, all through the
    // decoded wire bytes, as the host would drive the processor.
    let mut accounts = vec![
        account([9u8; 32], 700, vec![0u8; RECORD_LEN], false),
        account([7u8; 32], 0, Vec::new(), false),
    ];
    process_instruction(&mut accounts, &RecordInstruction::Initialize.encode()).unwrap();

    accounts[1].is_signer = true;
    let write = RecordInstruction::Write { offset: 0, data: vec![42u8; DATA_SIZE] };
    process_instruction(&mut accounts, &write.encode()).unwrap();
    let record = RecordData::unpack(&accounts[0].data).unwrap();
    assert_eq!(record.data.bytes, vec![42u8; DATA_SIZE]);
    assert_eq!(record.version, CURRENT_VERSION);

    // Hand the record to a new authority; the old one signs.
    let mut accounts = vec![
        accounts.remove(0),
        account([7u8; 32], 0, Vec::new(), true),
        account([5u8; 32], 0, Vec::new(), false),
    ];
    process_instruction(&mut accounts, &RecordInstruction::SetAuthority.encode()).unwrap();
    let record = RecordData::unpack(&accounts[0].data).unwrap();
    assert_eq!(record.authority, Pubkey::new_from_array([5u8; 32]));

    // Close as the new authority: storage zeroed, balance reclaimed.
    let mut accounts = vec![
        accounts.remove(0),
        account([5u8; 32], 0, Vec::new(), true),
        account([3u8; 32], 250, Vec::new(), false),
    ];
    process_instruction(&mut accounts, &RecordInstruction::CloseAccount.encode()).unwrap();
    assert_eq!(accounts[0].lamports, 0);
    assert!(accounts[0].data.iter().all(|b| *b == 0));
    assert_eq!(accounts[2].lamports, 950);
}

#[test]
fn dispatch_reports_decode_errors() {
    let mut accounts = vec![
        account([9u8; 32], 700, vec![0u8; RECORD_LEN], false),
        account([7u8; 32], 0, Vec::new(), false),
    ];
    let r = process_instruction(&mut accounts, &vec![9u8]);
    assert_eq!(r.unwrap_err(), RecordError::InvalidInstructionData);
    assert!(accounts[0].data.iter().all(|b| *b == 0));
}
