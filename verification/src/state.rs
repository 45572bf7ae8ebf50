//! The record layouts: a fixed-width record and a dynamically-sized record.
//!
//! Both layouts are fixed-offset: every field occupies a statically known
//! byte range, the ranges never overlap, and together they exactly cover the
//! encoded width. Multi-byte integers are little-endian throughout.

use vstd::prelude::*;

use crate::byteops::{read_range, splice, write_range};
use crate::error::RecordError;
use crate::pubkey::{Pubkey, PUBKEY_LEN};

verus! {

/// Width of the fixed record's payload, in bytes.
pub const DATA_SIZE: usize = 8;

/// Byte offset of the initialization flag in the fixed record.
pub const RECORD_FLAG_OFFSET: usize = 0;

/// Byte offset of the version field in the fixed record.
pub const RECORD_VERSION_OFFSET: usize = 1;

/// Byte offset of the authority field in the fixed record.
pub const RECORD_AUTHORITY_OFFSET: usize = 2;

/// Byte offset of the payload in the fixed record: the first writable byte.
pub const RECORD_WRITABLE_START_INDEX: usize = 34;

/// Total encoded width of the fixed record.
pub const RECORD_LEN: usize = 42;

/// The schema version this codec reads and writes.
pub const CURRENT_VERSION: u8 = 1;

/// Byte offset of the authority field in the dynamic record's header.
pub const DYNAMIC_AUTHORITY_OFFSET: usize = 1;

/// Width of the dynamic record's header; payload bytes follow it.
pub const DYNAMIC_HEADER_LEN: usize = 33;

/// The fixed record's opaque payload.
#[derive(Debug)]
pub struct Data {
    /// The payload bytes; exactly `DATA_SIZE` of them in a well-formed value.
    pub bytes: Vec<u8>,
}

impl View for Data {
    type V = Seq<u8>;

    open spec fn view(&self) -> Seq<u8> {
        self.bytes@
    }
}

impl Data {
    /// A payload is well formed when it holds exactly `DATA_SIZE` bytes.
    pub open spec fn wf(&self) -> bool {
        self@.len() == DATA_SIZE
    }
}

/// The fixed record: an initialization flag, a schema version, the owning
/// authority, and an opaque fixed-width payload.
#[derive(Debug)]
pub struct RecordData {
    /// Whether the record has been initialized; stored as the leading flag
    /// byte, which only ever encodes `0` or `1`.
    pub is_initialized: bool,
    /// Schema version; `CURRENT_VERSION` on every initialized record.
    pub version: u8,
    /// The identity permitted to mutate the record.
    pub authority: Pubkey,
    /// The opaque payload.
    pub data: Data,
}

/// The mathematical content of a fixed record.
pub struct RecordView {
    /// The initialization flag.
    pub is_initialized: bool,
    /// The schema version.
    pub version: u8,
    /// The authority key bytes.
    pub authority: Seq<u8>,
    /// The payload bytes.
    pub data: Seq<u8>,
}

impl RecordView {
    /// A view is well formed when its byte fields have their fixed widths.
    pub open spec fn wf(self) -> bool {
        self.authority.len() == PUBKEY_LEN && self.data.len() == DATA_SIZE
    }

    /// The `RECORD_LEN` bytes that encode this record.
    pub open spec fn encoding(self) -> Seq<u8> {
        seq![spec_flag_byte(self.is_initialized), self.version] + self.authority + self.data
    }
}

impl View for RecordData {
    type V = RecordView;

    open spec fn view(&self) -> RecordView {
        RecordView {
            is_initialized: self.is_initialized,
            version: self.version,
            authority: self.authority@,
            data: self.data@,
        }
    }
}

/// How a boolean is stored in a flag byte.
pub open spec fn spec_flag_byte(b: bool) -> u8 {
    if b {
        1u8
    } else {
        0u8
    }
}

/// Whether the leading flag byte holds one of the two legal values.
pub open spec fn record_flag_ok(b: Seq<u8>) -> bool {
    b[RECORD_FLAG_OFFSET as int] == 0 || b[RECORD_FLAG_OFFSET as int] == 1
}

/// The record read from the first `RECORD_LEN` bytes of `b`.
pub open spec fn record_decoded(b: Seq<u8>) -> RecordView {
    RecordView {
        is_initialized: b[RECORD_FLAG_OFFSET as int] == 1,
        version: b[RECORD_VERSION_OFFSET as int],
        authority: b.subrange(
            RECORD_AUTHORITY_OFFSET as int,
            RECORD_WRITABLE_START_INDEX as int,
        ),
        data: b.subrange(RECORD_WRITABLE_START_INDEX as int, RECORD_LEN as int),
    }
}

/// What the unchecked read returns on any buffer: the length check and the
/// strict flag-byte check, but no initialization check.
pub open spec fn spec_record_unpack_unchecked(b: Seq<u8>) -> Result<RecordView, RecordError> {
    if b.len() < RECORD_LEN {
        Err(RecordError::BufferTooSmall)
    } else if !record_flag_ok(b) {
        Err(RecordError::InvalidAccountData)
    } else {
        Ok(record_decoded(b))
    }
}

/// What the checked read returns on any buffer: the unchecked read, then
/// the initialization and version checks.
pub open spec fn spec_record_unpack(b: Seq<u8>) -> Result<RecordView, RecordError> {
    match spec_record_unpack_unchecked(b) {
        Ok(v) => if !v.is_initialized {
            Err(RecordError::UninitializedAccount)
        } else if v.version != CURRENT_VERSION {
            Err(RecordError::InvalidAccountData)
        } else {
            Ok(v)
        },
        Err(e) => Err(e),
    }
}

impl RecordData {
    /// A record is well formed when its key and payload have their widths.
    pub open spec fn wf(&self) -> bool {
        self@.wf()
    }

    /// Whether the record has been initialized.
    pub fn is_initialized(&self) -> (r: bool)
        ensures
            r == self.is_initialized,
    {
        self.is_initialized
    }

    /// Reads a record without the initialization check; used to inspect a
    /// possibly absent record. Never skips the buffer-length check.
    pub fn unpack_unchecked(input: &Vec<u8>) -> (r: Result<RecordData, RecordError>)
        ensures
            r matches Ok(rec) ==> spec_record_unpack_unchecked(input@) matches Ok(v) && rec@ == v
                && rec.wf(),
            r matches Err(e) ==> spec_record_unpack_unchecked(input@) == Err::<RecordView,
                RecordError>(e),
    {
        if input.len() < RECORD_LEN {
            return Err(RecordError::BufferTooSmall);
        }
        let flag = input[RECORD_FLAG_OFFSET];
        if flag != 0 && flag != 1 {
            return Err(RecordError::InvalidAccountData);
        }
        let version = input[RECORD_VERSION_OFFSET];
        let authority = Pubkey::new_from_bytes(
            read_range(input, RECORD_AUTHORITY_OFFSET, PUBKEY_LEN),
        );
        let data = Data { bytes: read_range(input, RECORD_WRITABLE_START_INDEX, DATA_SIZE) };
        Ok(RecordData { is_initialized: flag == 1, version, authority, data })
    }

    /// Reads an initialized record: the unchecked read, then the
    /// initialization check and the version check.
    pub fn unpack(input: &Vec<u8>) -> (r: Result<RecordData, RecordError>)
        ensures
            r matches Ok(rec) ==> spec_record_unpack(input@) matches Ok(v) && rec@ == v
                && rec.wf(),
            r matches Err(e) ==> spec_record_unpack(input@) == Err::<RecordView, RecordError>(e),
    {
        let rec = Self::unpack_unchecked(input)?;
        if !rec.is_initialized {
            return Err(RecordError::UninitializedAccount);
        }
        if rec.version != CURRENT_VERSION {
            return Err(RecordError::InvalidAccountData);
        }
        Ok(rec)
    }

    /// Writes the record's `RECORD_LEN` encoded bytes at the start of
    /// `output`, overwriting the full region and touching nothing past it.
    pub fn pack_into_slice(&self, output: &mut Vec<u8>)
        requires
            self.wf(),
            old(output)@.len() >= RECORD_LEN,
        ensures
            final(output)@ == splice(old(output)@, 0, self@.encoding()),
            final(output)@.len() == old(output)@.len(),
            final(output)@.subrange(0, RECORD_LEN as int) == self@.encoding(),
    {
        output[RECORD_FLAG_OFFSET] = if self.is_initialized {
            1u8
        } else {
            0u8
        };
        output[RECORD_VERSION_OFFSET] = self.version;
        let authority_bytes = self.authority.to_bytes();
        write_range(output, RECORD_AUTHORITY_OFFSET, &authority_bytes);
        write_range(output, RECORD_WRITABLE_START_INDEX, &self.data.bytes);
        assert(output@ =~= splice(old(output)@, 0, self@.encoding()));
        assert(output@.subrange(0, RECORD_LEN as int) =~= self@.encoding());
    }

    /// The checked pack: rejects a buffer shorter than `RECORD_LEN`, and
    /// otherwise always succeeds.
    pub fn pack(&self, output: &mut Vec<u8>) -> (r: Result<(), RecordError>)
        requires
            self.wf(),
        ensures
            old(output)@.len() < RECORD_LEN ==> r == Err::<(), RecordError>(
                RecordError::BufferTooSmall,
            ) && final(output)@ == old(output)@,
            old(output)@.len() >= RECORD_LEN ==> r == Ok::<(), RecordError>(())
                && final(output)@ == splice(old(output)@, 0, self@.encoding()),
    {
        if output.len() < RECORD_LEN {
            return Err(RecordError::BufferTooSmall);
        }
        self.pack_into_slice(output);
        Ok(())
    }
}

/// The dynamically-sized record: only the header has a fixed layout; the
/// payload is the arbitrary-length tail of the account buffer, which the
/// caller sizes at creation time.
#[derive(Debug)]
pub struct RecordDataDynamic {
    /// Schema version; a record is initialized exactly when this equals
    /// `CURRENT_VERSION`.
    pub version: u8,
    /// The identity permitted to mutate the record.
    pub authority: Pubkey,
}

/// The mathematical content of a dynamic record's header.
pub struct DynamicHeaderView {
    /// The schema version.
    pub version: u8,
    /// The authority key bytes.
    pub authority: Seq<u8>,
}

impl DynamicHeaderView {
    /// A view is well formed when the key has its fixed width.
    pub open spec fn wf(self) -> bool {
        self.authority.len() == PUBKEY_LEN
    }

    /// The dynamic record carries no flag byte: it is initialized exactly
    /// when its version is current.
    pub open spec fn is_initialized(self) -> bool {
        self.version == CURRENT_VERSION
    }

    /// The `DYNAMIC_HEADER_LEN` bytes that encode this header.
    pub open spec fn encoding(self) -> Seq<u8> {
        seq![self.version] + self.authority
    }
}

impl View for RecordDataDynamic {
    type V = DynamicHeaderView;

    open spec fn view(&self) -> DynamicHeaderView {
        DynamicHeaderView { version: self.version, authority: self.authority@ }
    }
}

/// The header read from the first `DYNAMIC_HEADER_LEN` bytes of `b`.
pub open spec fn dynamic_header_decoded(b: Seq<u8>) -> DynamicHeaderView {
    DynamicHeaderView {
        version: b[0],
        authority: b.subrange(DYNAMIC_AUTHORITY_OFFSET as int, DYNAMIC_HEADER_LEN as int),
    }
}

/// What the unchecked header read returns on any buffer: only the length
/// check guards it.
pub open spec fn spec_dynamic_unpack_unchecked(b: Seq<u8>) -> Result<
    DynamicHeaderView,
    RecordError,
> {
    if b.len() < DYNAMIC_HEADER_LEN {
        Err(RecordError::BufferTooSmall)
    } else {
        Ok(dynamic_header_decoded(b))
    }
}

/// What the checked header read returns: the unchecked read, then the
/// initialization check inferred from the version.
pub open spec fn spec_dynamic_unpack(b: Seq<u8>) -> Result<DynamicHeaderView, RecordError> {
    match spec_dynamic_unpack_unchecked(b) {
        Ok(v) => if !v.is_initialized() {
            Err(RecordError::UninitializedAccount)
        } else {
            Ok(v)
        },
        Err(e) => Err(e),
    }
}

impl RecordDataDynamic {
    /// A header is well formed when its key has its fixed width.
    pub open spec fn wf(&self) -> bool {
        self@.wf()
    }

    /// Whether the record has been initialized: inferred from the version.
    pub fn is_initialized(&self) -> (r: bool)
        ensures
            r == self@.is_initialized(),
    {
        self.version == CURRENT_VERSION
    }

    /// Reads the header without the initialization check; used to inspect a
    /// possibly absent record. Never skips the buffer-length check.
    pub fn unpack_from_slice(input: &Vec<u8>) -> (r: Result<RecordDataDynamic, RecordError>)
        ensures
            r matches Ok(rec) ==> spec_dynamic_unpack_unchecked(input@) matches Ok(v) && rec@ == v
                && rec.wf(),
            r matches Err(e) ==> spec_dynamic_unpack_unchecked(input@) == Err::<DynamicHeaderView,
                RecordError>(e),
    {
        if input.len() < DYNAMIC_HEADER_LEN {
            return Err(RecordError::BufferTooSmall);
        }
        let version = input[0];
        let authority = Pubkey::new_from_bytes(
            read_range(input, DYNAMIC_AUTHORITY_OFFSET, PUBKEY_LEN),
        );
        Ok(RecordDataDynamic { version, authority })
    }

    /// Reads the header of an initialized record.
    pub fn unpack(input: &Vec<u8>) -> (r: Result<RecordDataDynamic, RecordError>)
        ensures
            r matches Ok(rec) ==> spec_dynamic_unpack(input@) matches Ok(v) && rec@ == v
                && rec.wf(),
            r matches Err(e) ==> spec_dynamic_unpack(input@) == Err::<DynamicHeaderView,
                RecordError>(e),
    {
        let rec = Self::unpack_from_slice(input)?;
        if !rec.is_initialized() {
            return Err(RecordError::UninitializedAccount);
        }
        Ok(rec)
    }

    /// Writes the header's `DYNAMIC_HEADER_LEN` encoded bytes at the start
    /// of `output`, touching no payload byte past them.
    pub fn pack_into_slice(&self, output: &mut Vec<u8>)
        requires
            self.wf(),
            old(output)@.len() >= DYNAMIC_HEADER_LEN,
        ensures
            final(output)@ == splice(old(output)@, 0, self@.encoding()),
            final(output)@.len() == old(output)@.len(),
            final(output)@.subrange(0, DYNAMIC_HEADER_LEN as int) == self@.encoding(),
    {
        output[0] = self.version;
        let authority_bytes = self.authority.to_bytes();
        write_range(output, DYNAMIC_AUTHORITY_OFFSET, &authority_bytes);
        assert(output@ =~= splice(old(output)@, 0, self@.encoding()));
        assert(output@.subrange(0, DYNAMIC_HEADER_LEN as int) =~= self@.encoding());
    }
}

/// Reading the encoding of a well-formed header gives the header back: the
/// dynamic codec round-trips.
pub proof fn lemma_dynamic_header_round_trip(v: DynamicHeaderView)
    requires
        v.wf(),
    ensures
        v.encoding().len() == DYNAMIC_HEADER_LEN,
        dynamic_header_decoded(v.encoding()) == v,
{
    assert(dynamic_header_decoded(v.encoding()).authority =~= v.authority);
}

/// Reading the encoding of a well-formed record gives the record back, and
/// a packed buffer always passes the flag check: the codec round-trips.
pub proof fn lemma_record_round_trip(v: RecordView)
    requires
        v.wf(),
    ensures
        v.encoding().len() == RECORD_LEN,
        record_flag_ok(v.encoding()),
        record_decoded(v.encoding()) == v,
{
    let e = v.encoding();
    assert(e[RECORD_FLAG_OFFSET as int] == spec_flag_byte(v.is_initialized));
    assert(record_decoded(e).authority =~= v.authority);
    assert(record_decoded(e).data =~= v.data);
}

/// A buffer that passes the flag check is exactly the encoding of the
/// record read from it: no byte of the covered region is left out.
pub proof fn lemma_record_encode_decode(b: Seq<u8>)
    requires
        b.len() >= RECORD_LEN,
        record_flag_ok(b),
    ensures
        record_decoded(b).wf(),
        record_decoded(b).encoding() == b.subrange(0, RECORD_LEN as int),
{
    assert(record_decoded(b).encoding() =~= b.subrange(0, RECORD_LEN as int));
}

} // verus!
