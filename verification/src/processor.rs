//! The instruction processor: a state machine over account buffers.
//!
//! The processor is a pure function from (current account bytes,
//! instruction, signer flags) to (new account bytes, effect on balances)
//! or an error. Each operation's outcome is stated by a spec function over
//! plain byte sequences; the executable functions are proved to return
//! exactly that outcome, and to leave every account untouched on error.

use vstd::prelude::*;

use crate::byteops::{splice, write_range, zero_fill};
use crate::error::RecordError;
use crate::instruction::{spec_decode_instruction, RecordInstruction, RecordInstructionView};
use crate::pubkey::{Pubkey, PUBKEY_LEN};
use crate::state::{
    spec_dynamic_unpack, spec_dynamic_unpack_unchecked, spec_record_unpack,
    spec_record_unpack_unchecked, RecordData, RecordDataDynamic, CURRENT_VERSION, DATA_SIZE,
    DYNAMIC_AUTHORITY_OFFSET, DYNAMIC_HEADER_LEN, RECORD_AUTHORITY_OFFSET, RECORD_FLAG_OFFSET,
    RECORD_VERSION_OFFSET, RECORD_WRITABLE_START_INDEX,
};

verus! {

/// An account as the host supplies it for one call: a byte buffer, a
/// balance, the account's address, and whether the host asserts that this
/// address signed the call. The library never verifies signatures itself;
/// it only consults this flag.
#[derive(Debug)]
pub struct AccountState {
    /// The account's address.
    pub key: Pubkey,
    /// The account's balance.
    pub lamports: u64,
    /// The account's storage.
    pub data: Vec<u8>,
    /// Whether this account signed the invoking call.
    pub is_signer: bool,
}

/// The mathematical content of an account.
pub struct AccountView {
    /// The address bytes.
    pub key: Seq<u8>,
    /// The balance.
    pub lamports: u64,
    /// The storage bytes.
    pub data: Seq<u8>,
    /// The signer flag.
    pub is_signer: bool,
}

impl View for AccountState {
    type V = AccountView;

    open spec fn view(&self) -> AccountView {
        AccountView {
            key: self.key@,
            lamports: self.lamports,
            data: self.data@,
            is_signer: self.is_signer,
        }
    }
}

/// The authority guard: the supplied authority account must hold exactly
/// the stored authority key, and must have signed the call. The two checks
/// are independent; a key mismatch is reported before a missing signature.
pub open spec fn spec_check_authority(stored: Seq<u8>, supplied: Seq<u8>, signed: bool) -> Result<
    (),
    RecordError,
> {
    if supplied != stored {
        Err(RecordError::IncorrectAuthority)
    } else if !signed {
        Err(RecordError::MissingRequiredSignature)
    } else {
        Ok(())
    }
}

/// Checks the supplied authority account against the stored authority key.
pub fn check_authority(stored: &Pubkey, authority: &AccountState) -> (r: Result<(), RecordError>)
    ensures
        r == spec_check_authority(stored@, authority.key@, authority.is_signer),
{
    if !(authority.key == *stored) {
        return Err(RecordError::IncorrectAuthority);
    }
    if !authority.is_signer {
        return Err(RecordError::MissingRequiredSignature);
    }
    Ok(())
}

/// Outcome of `Initialize` on a fixed record: the unchecked read (a buffer
/// or flag error propagates), the not-yet-initialized check, then the
/// header is written — flag set, version made current, authority stored —
/// with the payload left at its current bytes.
pub open spec fn spec_initialize(b: Seq<u8>, authority: Seq<u8>) -> Result<Seq<u8>, RecordError> {
    match spec_record_unpack_unchecked(b) {
        Ok(v) => if v.is_initialized {
            Err(RecordError::AccountAlreadyInitialized)
        } else {
            Ok(splice(b, 0, seq![1u8, CURRENT_VERSION] + authority))
        },
        Err(e) => Err(e),
    }
}

/// Outcome of `Write` on a fixed record: the checked read, the authority
/// guard, the bounds check (only after authority passes), then the bytes
/// are copied into the payload region at the given offset.
pub open spec fn spec_write(
    b: Seq<u8>,
    auth_key: Seq<u8>,
    signed: bool,
    offset: u64,
    data: Seq<u8>,
) -> Result<Seq<u8>, RecordError> {
    match spec_record_unpack(b) {
        Ok(v) => match spec_check_authority(v.authority, auth_key, signed) {
            Ok(u) => if offset + data.len() > DATA_SIZE {
                Err(RecordError::OutOfBounds)
            } else {
                Ok(splice(b, RECORD_WRITABLE_START_INDEX + offset, data))
            },
            Err(e) => Err(e),
        },
        Err(e) => Err(e),
    }
}

/// Outcome of `SetAuthority` on a fixed record: the checked read, the
/// authority guard on the current authority, then only the authority field
/// is overwritten; version and payload stay untouched.
pub open spec fn spec_set_authority(
    b: Seq<u8>,
    auth_key: Seq<u8>,
    signed: bool,
    new_authority: Seq<u8>,
) -> Result<Seq<u8>, RecordError> {
    match spec_record_unpack(b) {
        Ok(v) => match spec_check_authority(v.authority, auth_key, signed) {
            Ok(u) => Ok(splice(b, RECORD_AUTHORITY_OFFSET as int, new_authority)),
            Err(e) => Err(e),
        },
        Err(e) => Err(e),
    }
}

/// Outcome of `CloseAccount` on a fixed record: the checked read, the
/// authority guard, then every byte of the record's storage is zeroed. The
/// balance movement is stated on the executable function, which alone sees
/// the two balances.
pub open spec fn spec_close_account(b: Seq<u8>, auth_key: Seq<u8>, signed: bool) -> Result<
    Seq<u8>,
    RecordError,
> {
    match spec_record_unpack(b) {
        Ok(v) => match spec_check_authority(v.authority, auth_key, signed) {
            Ok(u) => Ok(Seq::new(b.len(), |i: int| 0u8)),
            Err(e) => Err(e),
        },
        Err(e) => Err(e),
    }
}

/// Applies `Initialize` to the record account: stores the given authority
/// and the current version. Fails on an already-initialized record and
/// changes nothing on any error.
pub fn process_initialize(record: &mut AccountState, authority: &Pubkey) -> (r: Result<
    (),
    RecordError,
>)
    ensures
        r is Ok <==> spec_initialize(old(record).data@, authority@) is Ok,
        r matches Ok(u) ==> final(record).data@ == spec_initialize(
            old(record).data@,
            authority@,
        )->Ok_0,
        r matches Err(e) ==> spec_initialize(old(record).data@, authority@) == Err::<
            Seq<u8>,
            RecordError,
        >(e) && final(record).data@ == old(record).data@,
        final(record).key == old(record).key,
        final(record).lamports == old(record).lamports,
        final(record).is_signer == old(record).is_signer,
{
    proof {
        use_type_invariant(&*authority);
    }
    let rec = match RecordData::unpack_unchecked(&record.data) {
        Ok(rec) => rec,
        Err(e) => {
            return Err(e);
        },
    };
    if rec.is_initialized() {
        return Err(RecordError::AccountAlreadyInitialized);
    }
    record.data[RECORD_FLAG_OFFSET] = 1u8;
    record.data[RECORD_VERSION_OFFSET] = CURRENT_VERSION;
    let authority_bytes = authority.to_bytes();
    write_range(&mut record.data, RECORD_AUTHORITY_OFFSET, &authority_bytes);
    assert(record.data@ =~= splice(
        old(record).data@,
        0,
        seq![1u8, CURRENT_VERSION] + authority@,
    ));
    Ok(())
}

/// Applies `Write` to the record account: copies the bytes into the
/// payload region at the given offset, leaving version and authority
/// untouched. Changes nothing on any error; an empty write is legal and
/// leaves the payload bytes as they were.
pub fn process_write(
    record: &mut AccountState,
    authority: &AccountState,
    offset: u64,
    data: &Vec<u8>,
) -> (r: Result<(), RecordError>)
    ensures
        r is Ok <==> spec_write(
            old(record).data@,
            authority.key@,
            authority.is_signer,
            offset,
            data@,
        ) is Ok,
        r matches Ok(u) ==> final(record).data@ == spec_write(
            old(record).data@,
            authority.key@,
            authority.is_signer,
            offset,
            data@,
        )->Ok_0,
        r matches Err(e) ==> spec_write(
            old(record).data@,
            authority.key@,
            authority.is_signer,
            offset,
            data@,
        ) == Err::<Seq<u8>, RecordError>(e) && final(record).data@ == old(record).data@,
        final(record).key == old(record).key,
        final(record).lamports == old(record).lamports,
        final(record).is_signer == old(record).is_signer,
{
    let rec = match RecordData::unpack(&record.data) {
        Ok(rec) => rec,
        Err(e) => {
            return Err(e);
        },
    };
    match check_authority(&rec.authority, authority) {
        Ok(u) => {},
        Err(e) => {
            return Err(e);
        },
    }
    if offset > DATA_SIZE as u64 || data.len() as u64 > DATA_SIZE as u64 - offset {
        return Err(RecordError::OutOfBounds);
    }
    let at: usize = RECORD_WRITABLE_START_INDEX + offset as usize;
    write_range(&mut record.data, at, data);
    Ok(())
}

/// Applies `SetAuthority` to the record account: replaces only the stored
/// authority, leaving version and payload untouched. Changes nothing on
/// any error.
pub fn process_set_authority(
    record: &mut AccountState,
    authority: &AccountState,
    new_authority: &Pubkey,
) -> (r: Result<(), RecordError>)
    ensures
        r is Ok <==> spec_set_authority(
            old(record).data@,
            authority.key@,
            authority.is_signer,
            new_authority@,
        ) is Ok,
        r matches Ok(u) ==> final(record).data@ == spec_set_authority(
            old(record).data@,
            authority.key@,
            authority.is_signer,
            new_authority@,
        )->Ok_0,
        r matches Err(e) ==> spec_set_authority(
            old(record).data@,
            authority.key@,
            authority.is_signer,
            new_authority@,
        ) == Err::<Seq<u8>, RecordError>(e) && final(record).data@ == old(record).data@,
        final(record).key == old(record).key,
        final(record).lamports == old(record).lamports,
        final(record).is_signer == old(record).is_signer,
{
    proof {
        use_type_invariant(&*new_authority);
    }
    let rec = match RecordData::unpack(&record.data) {
        Ok(rec) => rec,
        Err(e) => {
            return Err(e);
        },
    };
    match check_authority(&rec.authority, authority) {
        Ok(u) => {},
        Err(e) => {
            return Err(e);
        },
    }
    let new_authority_bytes = new_authority.to_bytes();
    write_range(&mut record.data, RECORD_AUTHORITY_OFFSET, &new_authority_bytes);
    Ok(())
}

/// Applies `CloseAccount`: zeroes every byte of the record's storage and
/// moves its entire balance to the recipient, atomically — on any error
/// neither the bytes nor the balances change. The host guarantees that
/// balances never overflow in total, which the precondition reflects.
pub fn process_close_account(
    record: &mut AccountState,
    authority: &AccountState,
    recipient: &mut AccountState,
) -> (r: Result<(), RecordError>)
    requires
        old(recipient).lamports + old(record).lamports <= u64::MAX,
    ensures
        r is Ok <==> spec_close_account(
            old(record).data@,
            authority.key@,
            authority.is_signer,
        ) is Ok,
        r matches Ok(u) ==> final(record).data@ == Seq::new(old(record).data@.len(), |i: int| 0u8)
            && final(record).lamports == 0 && final(recipient).lamports == old(recipient).lamports
            + old(record).lamports,
        r matches Err(e) ==> spec_close_account(
            old(record).data@,
            authority.key@,
            authority.is_signer,
        ) == Err::<Seq<u8>, RecordError>(e) && final(record).data@ == old(record).data@
            && final(record).lamports == old(record).lamports
            && final(recipient).lamports == old(recipient).lamports,
        final(record).key == old(record).key,
        final(record).is_signer == old(record).is_signer,
        final(recipient).key == old(recipient).key,
        final(recipient).data == old(recipient).data,
        final(recipient).is_signer == old(recipient).is_signer,
{
    let rec = match RecordData::unpack(&record.data) {
        Ok(rec) => rec,
        Err(e) => {
            return Err(e);
        },
    };
    match check_authority(&rec.authority, authority) {
        Ok(u) => {},
        Err(e) => {
            return Err(e);
        },
    }
    recipient.lamports = recipient.lamports + record.lamports;
    record.lamports = 0;
    zero_fill(&mut record.data);
    Ok(())
}

/// Outcome of `Initialize` on a dynamic record: the unchecked header read,
/// the not-yet-initialized check inferred from the version, then the
/// header is written with the payload tail left at its current bytes.
pub open spec fn spec_initialize_dynamic(b: Seq<u8>, authority: Seq<u8>) -> Result<
    Seq<u8>,
    RecordError,
> {
    match spec_dynamic_unpack_unchecked(b) {
        Ok(v) => if v.is_initialized() {
            Err(RecordError::AccountAlreadyInitialized)
        } else {
            Ok(splice(b, 0, seq![CURRENT_VERSION] + authority))
        },
        Err(e) => Err(e),
    }
}

/// Outcome of `Write` on a dynamic record. The payload capacity is not a
/// compile-time constant but the account's actual allocated length minus
/// the header width, so the bounds check runs against the buffer itself.
pub open spec fn spec_write_dynamic(
    b: Seq<u8>,
    auth_key: Seq<u8>,
    signed: bool,
    offset: u64,
    data: Seq<u8>,
) -> Result<Seq<u8>, RecordError> {
    match spec_dynamic_unpack(b) {
        Ok(v) => match spec_check_authority(v.authority, auth_key, signed) {
            Ok(u) => if offset + data.len() > b.len() - DYNAMIC_HEADER_LEN {
                Err(RecordError::OutOfBounds)
            } else {
                Ok(splice(b, DYNAMIC_HEADER_LEN + offset, data))
            },
            Err(e) => Err(e),
        },
        Err(e) => Err(e),
    }
}

/// Applies `Initialize` to a dynamic record account: stores the current
/// version and the given authority in the header, touching no payload
/// byte. Fails on an already-initialized record and changes nothing on
/// any error.
pub fn process_initialize_dynamic(record: &mut AccountState, authority: &Pubkey) -> (r: Result<
    (),
    RecordError,
>)
    ensures
        r is Ok <==> spec_initialize_dynamic(old(record).data@, authority@) is Ok,
        r matches Ok(u) ==> final(record).data@ == spec_initialize_dynamic(
            old(record).data@,
            authority@,
        )->Ok_0,
        r matches Err(e) ==> spec_initialize_dynamic(old(record).data@, authority@) == Err::<
            Seq<u8>,
            RecordError,
        >(e) && final(record).data@ == old(record).data@,
        final(record).key == old(record).key,
        final(record).lamports == old(record).lamports,
        final(record).is_signer == old(record).is_signer,
{
    proof {
        use_type_invariant(&*authority);
    }
    let rec = match RecordDataDynamic::unpack_from_slice(&record.data) {
        Ok(rec) => rec,
        Err(e) => {
            return Err(e);
        },
    };
    if rec.is_initialized() {
        return Err(RecordError::AccountAlreadyInitialized);
    }
    record.data[0] = CURRENT_VERSION;
    let authority_bytes = authority.to_bytes();
    write_range(&mut record.data, DYNAMIC_AUTHORITY_OFFSET, &authority_bytes);
    assert(record.data@ =~= splice(old(record).data@, 0, seq![CURRENT_VERSION] + authority@));
    Ok(())
}

/// Applies `Write` to a dynamic record account: copies the bytes into the
/// payload tail at the given offset, bounded by the account's actual
/// allocated length. Changes nothing on any error.
pub fn process_write_dynamic(
    record: &mut AccountState,
    authority: &AccountState,
    offset: u64,
    data: &Vec<u8>,
) -> (r: Result<(), RecordError>)
    ensures
        r is Ok <==> spec_write_dynamic(
            old(record).data@,
            authority.key@,
            authority.is_signer,
            offset,
            data@,
        ) is Ok,
        r matches Ok(u) ==> final(record).data@ == spec_write_dynamic(
            old(record).data@,
            authority.key@,
            authority.is_signer,
            offset,
            data@,
        )->Ok_0,
        r matches Err(e) ==> spec_write_dynamic(
            old(record).data@,
            authority.key@,
            authority.is_signer,
            offset,
            data@,
        ) == Err::<Seq<u8>, RecordError>(e) && final(record).data@ == old(record).data@,
        final(record).key == old(record).key,
        final(record).lamports == old(record).lamports,
        final(record).is_signer == old(record).is_signer,
{
    let rec = match RecordDataDynamic::unpack(&record.data) {
        Ok(rec) => rec,
        Err(e) => {
            return Err(e);
        },
    };
    match check_authority(&rec.authority, authority) {
        Ok(u) => {},
        Err(e) => {
            return Err(e);
        },
    }
    let capacity: usize = record.data.len() - DYNAMIC_HEADER_LEN;
    if offset > capacity as u64 || data.len() as u64 > capacity as u64 - offset {
        return Err(RecordError::OutOfBounds);
    }
    let at: usize = DYNAMIC_HEADER_LEN + offset as usize;
    write_range(&mut record.data, at, data);
    Ok(())
}

/// The views of a list of accounts, in order.
pub open spec fn views_of(s: Seq<AccountState>) -> Seq<AccountView> {
    s.map_values(|a: AccountState| a@)
}

/// How many accounts each instruction names: the record first, then the
/// authority account, then — for `SetAuthority` — the new authority, or —
/// for `CloseAccount` — the recipient.
pub open spec fn spec_account_count(v: RecordInstructionView) -> int {
    match v {
        RecordInstructionView::Initialize => 2,
        RecordInstructionView::Write { .. } => 2,
        RecordInstructionView::SetAuthority => 3,
        RecordInstructionView::CloseAccount => 3,
    }
}

/// The processor's entry point for fixed records: decodes the instruction
/// from its wire bytes, then applies it to the accounts the host supplied.
/// Exactly one account is mutated on success (two for `CloseAccount`);
/// every account is left untouched on error. The host supplies as many
/// accounts as the instruction names, and guarantees that balances never
/// overflow in total.
pub fn process_instruction(accounts: &mut Vec<AccountState>, input: &Vec<u8>) -> (r: Result<
    (),
    RecordError,
>)
    requires
        spec_decode_instruction(input@) matches Ok(v) ==> old(accounts)@.len()
            >= spec_account_count(v),
        spec_decode_instruction(input@) matches Ok(v) && v is CloseAccount ==> old(
            accounts,
        )@[2].lamports + old(accounts)@[0].lamports <= u64::MAX,
    ensures
        final(accounts)@.len() == old(accounts)@.len(),
        ({
            let pre = views_of(old(accounts)@);
            let post = views_of(final(accounts)@);
            match spec_decode_instruction(input@) {
                Err(e) => r == Err::<(), RecordError>(e) && post == pre,
                Ok(v) => match v {
                    RecordInstructionView::Initialize => {
                        match spec_initialize(pre[0].data, pre[1].key) {
                            Ok(nb) => r is Ok && post == pre.update(
                                0,
                                (AccountView { data: nb, ..pre[0] }),
                            ),
                            Err(e) => r == Err::<(), RecordError>(e) && post == pre,
                        }
                    },
                    RecordInstructionView::Write { offset, data } => {
                        match spec_write(pre[0].data, pre[1].key, pre[1].is_signer, offset, data) {
                            Ok(nb) => r is Ok && post == pre.update(
                                0,
                                (AccountView { data: nb, ..pre[0] }),
                            ),
                            Err(e) => r == Err::<(), RecordError>(e) && post == pre,
                        }
                    },
                    RecordInstructionView::SetAuthority => {
                        match spec_set_authority(
                            pre[0].data,
                            pre[1].key,
                            pre[1].is_signer,
                            pre[2].key,
                        ) {
                            Ok(nb) => r is Ok && post == pre.update(
                                0,
                                (AccountView { data: nb, ..pre[0] }),
                            ),
                            Err(e) => r == Err::<(), RecordError>(e) && post == pre,
                        }
                    },
                    RecordInstructionView::CloseAccount => {
                        match spec_close_account(pre[0].data, pre[1].key, pre[1].is_signer) {
                            Ok(nb) => r is Ok && post == pre.update(
                                0,
                                (AccountView { data: nb, lamports: 0, ..pre[0] }),
                            ).update(
                                2,
                                (AccountView {
                                    lamports: (pre[2].lamports + pre[0].lamports) as u64,
                                    ..pre[2]
                                }),
                            ),
                            Err(e) => r == Err::<(), RecordError>(e) && post == pre,
                        }
                    },
                },
            }
        }),
{
    let ghost pre = views_of(old(accounts)@);
    let instr = match RecordInstruction::decode(input) {
        Ok(instr) => instr,
        Err(e) => {
            assert(views_of(accounts@) =~= pre);
            return Err(e);
        },
    };
    match instr {
        RecordInstruction::Initialize => {
            let mut record = accounts.remove(0);
            let authority = &accounts[0];
            let r = process_initialize(&mut record, &authority.key);
            accounts.insert(0, record);
            proof {
                if r is Ok {
                    assert(views_of(accounts@) =~= pre.update(
                        0,
                        (AccountView {
                            data: spec_initialize(pre[0].data, pre[1].key)->Ok_0,
                            ..pre[0]
                        }),
                    ));
                } else {
                    assert(views_of(accounts@) =~= pre);
                }
            }
            r
        },
        RecordInstruction::Write { offset, data } => {
            let mut record = accounts.remove(0);
            let authority = &accounts[0];
            let r = process_write(&mut record, authority, offset, &data);
            accounts.insert(0, record);
            proof {
                if r is Ok {
                    assert(views_of(accounts@) =~= pre.update(
                        0,
                        (AccountView {
                            data: spec_write(
                                pre[0].data,
                                pre[1].key,
                                pre[1].is_signer,
                                offset,
                                data@,
                            )->Ok_0,
                            ..pre[0]
                        }),
                    ));
                } else {
                    assert(views_of(accounts@) =~= pre);
                }
            }
            r
        },
        RecordInstruction::SetAuthority => {
            let mut record = accounts.remove(0);
            let authority = &accounts[0];
            let new_authority = &accounts[1];
            let r = process_set_authority(&mut record, authority, &new_authority.key);
            accounts.insert(0, record);
            proof {
                if r is Ok {
                    assert(views_of(accounts@) =~= pre.update(
                        0,
                        (AccountView {
                            data: spec_set_authority(
                                pre[0].data,
                                pre[1].key,
                                pre[1].is_signer,
                                pre[2].key,
                            )->Ok_0,
                            ..pre[0]
                        }),
                    ));
                } else {
                    assert(views_of(accounts@) =~= pre);
                }
            }
            r
        },
        RecordInstruction::CloseAccount => {
            let mut record = accounts.remove(0);
            let mut recipient = accounts.remove(1);
            let r = process_close_account(&mut record, &accounts[0], &mut recipient);
            accounts.insert(1, recipient);
            accounts.insert(0, record);
            proof {
                if r is Ok {
                    assert(views_of(accounts@) =~= pre.update(
                        0,
                        (AccountView {
                            data: spec_close_account(
                                pre[0].data,
                                pre[1].key,
                                pre[1].is_signer,
                            )->Ok_0,
                            lamports: 0,
                            ..pre[0]
                        }),
                    ).update(
                        2,
                        (AccountView {
                            lamports: (pre[2].lamports + pre[0].lamports) as u64,
                            ..pre[2]
                        }),
                    ));
                } else {
                    assert(views_of(accounts@) =~= pre);
                }
            }
            r
        },
    }
}

/// Replacing the authority twice with the same key is the same as doing it
/// once: the repetition is not rejected — the new authority, now stored
/// and signing, passes the guard — and it leaves the bytes unchanged.
pub proof fn lemma_set_authority_idempotent(
    b: Seq<u8>,
    auth_key: Seq<u8>,
    signed: bool,
    new_authority: Seq<u8>,
)
    requires
        new_authority.len() == PUBKEY_LEN,
        spec_set_authority(b, auth_key, signed, new_authority) is Ok,
    ensures
        spec_set_authority(
            spec_set_authority(b, auth_key, signed, new_authority)->Ok_0,
            new_authority,
            true,
            new_authority,
        ) == spec_set_authority(b, auth_key, signed, new_authority),
{
    let b1 = spec_set_authority(b, auth_key, signed, new_authority)->Ok_0;
    assert(b1 =~= splice(b, RECORD_AUTHORITY_OFFSET as int, new_authority));
    assert(spec_record_unpack(b1)->Ok_0.authority =~= new_authority);
    assert(spec_set_authority(b1, new_authority, true, new_authority)->Ok_0 =~= b1);
}

/// Authorization is exact: on a readable, initialized record (and, for
/// `Write`, an in-bounds request) the three guarded operations succeed
/// exactly when the supplied key is the stored authority and it signed the
/// call; a wrong key — signed or not — fails with `IncorrectAuthority`,
/// and the right key unsigned fails with `MissingRequiredSignature`.
pub proof fn lemma_authorization_exact(
    b: Seq<u8>,
    auth_key: Seq<u8>,
    signed: bool,
    offset: u64,
    data: Seq<u8>,
    new_authority: Seq<u8>,
)
    requires
        spec_record_unpack(b) is Ok,
        offset + data.len() <= DATA_SIZE,
    ensures
        ({
            let stored = spec_record_unpack(b)->Ok_0.authority;
            &&& (spec_write(b, auth_key, signed, offset, data) is Ok <==> auth_key == stored
                && signed)
            &&& (spec_set_authority(b, auth_key, signed, new_authority) is Ok <==> auth_key
                == stored && signed)
            &&& (spec_close_account(b, auth_key, signed) is Ok <==> auth_key == stored && signed)
            &&& auth_key != stored ==> spec_write(b, auth_key, signed, offset, data) == Err::<
                Seq<u8>,
                RecordError,
            >(RecordError::IncorrectAuthority) && spec_set_authority(
                b,
                auth_key,
                signed,
                new_authority,
            ) == Err::<Seq<u8>, RecordError>(RecordError::IncorrectAuthority)
                && spec_close_account(b, auth_key, signed) == Err::<Seq<u8>, RecordError>(
                RecordError::IncorrectAuthority,
            )
            &&& auth_key == stored && !signed ==> spec_write(b, auth_key, signed, offset, data)
                == Err::<Seq<u8>, RecordError>(RecordError::MissingRequiredSignature)
                && spec_set_authority(b, auth_key, signed, new_authority) == Err::<
                Seq<u8>,
                RecordError,
            >(RecordError::MissingRequiredSignature) && spec_close_account(b, auth_key, signed)
                == Err::<Seq<u8>, RecordError>(RecordError::MissingRequiredSignature)
        }),
{
}

/// A second `Initialize` is rejected: whatever authority it names, it
/// fails with `AccountAlreadyInitialized` (and the executable function
/// then leaves the record byte-for-byte unchanged).
pub proof fn lemma_double_initialize_rejected(b: Seq<u8>, first: Seq<u8>, second: Seq<u8>)
    requires
        first.len() == PUBKEY_LEN,
        spec_initialize(b, first) is Ok,
    ensures
        spec_initialize(spec_initialize(b, first)->Ok_0, second) == Err::<Seq<u8>, RecordError>(
            RecordError::AccountAlreadyInitialized,
        ),
{
    let b1 = spec_initialize(b, first)->Ok_0;
    assert(b1.len() == b.len());
    assert(b1[0] == 1u8);
}

/// `CloseAccount` returns the record to the absent state: the zeroed
/// storage reads as uninitialized — through the unchecked read the guard
/// uses — and a later `Initialize` on it succeeds again.
pub proof fn lemma_close_returns_to_absent(
    b: Seq<u8>,
    auth_key: Seq<u8>,
    signed: bool,
    next_authority: Seq<u8>,
)
    requires
        spec_close_account(b, auth_key, signed) is Ok,
    ensures
        ({
            let zeroed = spec_close_account(b, auth_key, signed)->Ok_0;
            &&& spec_record_unpack_unchecked(zeroed) matches Ok(v) && !v.is_initialized
            &&& spec_initialize(zeroed, next_authority) is Ok
        }),
{
}

/// A `Write` that would run past the fixed payload capacity fails with
/// `OutOfBounds` — an error distinct from the authority errors, reported
/// only after authority passes (and the executable function then leaves
/// the record byte-for-byte unchanged).
pub proof fn lemma_write_out_of_bounds(
    b: Seq<u8>,
    auth_key: Seq<u8>,
    signed: bool,
    offset: u64,
    data: Seq<u8>,
)
    requires
        spec_record_unpack(b) is Ok,
        spec_check_authority(spec_record_unpack(b)->Ok_0.authority, auth_key, signed) is Ok,
        offset + data.len() > DATA_SIZE,
    ensures
        spec_write(b, auth_key, signed, offset, data) == Err::<Seq<u8>, RecordError>(
            RecordError::OutOfBounds,
        ),
{
}

/// The dynamic counterpart of the bounds law: the capacity is the
/// account's actual allocated length minus the header width.
pub proof fn lemma_write_dynamic_out_of_bounds(
    b: Seq<u8>,
    auth_key: Seq<u8>,
    signed: bool,
    offset: u64,
    data: Seq<u8>,
)
    requires
        spec_dynamic_unpack(b) is Ok,
        spec_check_authority(spec_dynamic_unpack(b)->Ok_0.authority, auth_key, signed) is Ok,
        offset + data.len() > b.len() - DYNAMIC_HEADER_LEN,
    ensures
        spec_write_dynamic(b, auth_key, signed, offset, data) == Err::<Seq<u8>, RecordError>(
            RecordError::OutOfBounds,
        ),
{
}

} // verus!

