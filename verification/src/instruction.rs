//! The wire format of the instruction set.
//!
//! An instruction is a tag byte followed by a fixed payload: nothing for
//! `Initialize`, `SetAuthority` and `CloseAccount`; a little-endian offset
//! and a length-prefixed byte sequence for `Write`. Unknown tags, truncated
//! payloads and trailing bytes are all rejected as `InvalidInstructionData`.

use vstd::bytes::{
    lemma_auto_spec_u32_to_from_le_bytes, lemma_auto_spec_u64_to_from_le_bytes,
    spec_u32_from_le_bytes, spec_u32_to_le_bytes, spec_u64_from_le_bytes, spec_u64_to_le_bytes,
    u32_from_le_bytes, u32_to_le_bytes, u64_from_le_bytes, u64_to_le_bytes,
};
use vstd::prelude::*;
use vstd::slice::slice_subrange;

use crate::byteops::read_range;
use crate::error::RecordError;

verus! {

/// Tag byte of each instruction on the wire.
pub const TAG_INITIALIZE: u8 = 0;

/// Tag byte of `Write`.
pub const TAG_WRITE: u8 = 1;

/// Tag byte of `SetAuthority`.
pub const TAG_SET_AUTHORITY: u8 = 2;

/// Tag byte of `CloseAccount`.
pub const TAG_CLOSE_ACCOUNT: u8 = 3;

/// Wire offset at which the bytes of a `Write` payload start: the tag, the
/// offset word and the length prefix come first.
pub const WRITE_DATA_START: usize = 13;

/// The closed instruction set.
#[derive(Debug)]
pub enum RecordInstruction {
    /// Initialize the record held by the first account with the authority
    /// named by the second. No payload.
    Initialize,
    /// Copy `data` into the record's payload starting at `offset`.
    Write {
        /// Byte offset inside the payload region.
        offset: u64,
        /// The bytes to copy.
        data: Vec<u8>,
    },
    /// Replace the record's authority with the key of the third account.
    /// No payload.
    SetAuthority,
    /// Zero the record's storage and move its balance to the third
    /// account. No payload.
    CloseAccount,
}

/// The mathematical content of an instruction.
pub enum RecordInstructionView {
    /// `Initialize`.
    Initialize,
    /// `Write` with its offset and bytes.
    Write {
        /// Byte offset inside the payload region.
        offset: u64,
        /// The bytes to copy.
        data: Seq<u8>,
    },
    /// `SetAuthority`.
    SetAuthority,
    /// `CloseAccount`.
    CloseAccount,
}

impl RecordInstructionView {
    /// An instruction is encodable when its payload length fits the
    /// four-byte length prefix.
    pub open spec fn wf(self) -> bool {
        match self {
            RecordInstructionView::Write { offset: _, data } => data.len() <= u32::MAX,
            _ => true,
        }
    }

    /// The wire bytes of this instruction.
    pub open spec fn encoding(self) -> Seq<u8> {
        match self {
            RecordInstructionView::Initialize => seq![TAG_INITIALIZE],
            RecordInstructionView::Write { offset, data } => seq![TAG_WRITE]
                + spec_u64_to_le_bytes(offset) + spec_u32_to_le_bytes(data.len() as u32) + data,
            RecordInstructionView::SetAuthority => seq![TAG_SET_AUTHORITY],
            RecordInstructionView::CloseAccount => seq![TAG_CLOSE_ACCOUNT],
        }
    }
}

impl View for RecordInstruction {
    type V = RecordInstructionView;

    open spec fn view(&self) -> RecordInstructionView {
        match self {
            RecordInstruction::Initialize => RecordInstructionView::Initialize,
            RecordInstruction::Write { offset, data } => RecordInstructionView::Write {
                offset: *offset,
                data: data@,
            },
            RecordInstruction::SetAuthority => RecordInstructionView::SetAuthority,
            RecordInstruction::CloseAccount => RecordInstructionView::CloseAccount,
        }
    }
}

/// What decoding returns on any byte sequence. A `Write` is well formed
/// only when the buffer holds the tag, the offset word, the length prefix
/// and then exactly as many bytes as the prefix declares.
pub open spec fn spec_decode_instruction(b: Seq<u8>) -> Result<
    RecordInstructionView,
    RecordError,
> {
    if b.len() == 0 {
        Err(RecordError::InvalidInstructionData)
    } else if b[0] == TAG_INITIALIZE {
        if b.len() == 1 {
            Ok(RecordInstructionView::Initialize)
        } else {
            Err(RecordError::InvalidInstructionData)
        }
    } else if b[0] == TAG_WRITE {
        if b.len() < WRITE_DATA_START {
            Err(RecordError::InvalidInstructionData)
        } else if b.len() - WRITE_DATA_START != spec_u32_from_le_bytes(b.subrange(9, 13)) {
            Err(RecordError::InvalidInstructionData)
        } else {
            Ok(
                RecordInstructionView::Write {
                    offset: spec_u64_from_le_bytes(b.subrange(1, 9)),
                    data: b.subrange(WRITE_DATA_START as int, b.len() as int),
                },
            )
        }
    } else if b[0] == TAG_SET_AUTHORITY {
        if b.len() == 1 {
            Ok(RecordInstructionView::SetAuthority)
        } else {
            Err(RecordError::InvalidInstructionData)
        }
    } else if b[0] == TAG_CLOSE_ACCOUNT {
        if b.len() == 1 {
            Ok(RecordInstructionView::CloseAccount)
        } else {
            Err(RecordError::InvalidInstructionData)
        }
    } else {
        Err(RecordError::InvalidInstructionData)
    }
}

impl RecordInstruction {
    /// An instruction value is well formed when its view is encodable.
    pub open spec fn wf(&self) -> bool {
        self@.wf()
    }

    /// Parses an instruction from its wire bytes. Performs no
    /// account-aware validation: that is the processor's job.
    pub fn decode(input: &Vec<u8>) -> (r: Result<RecordInstruction, RecordError>)
        ensures
            r matches Ok(instr) ==> spec_decode_instruction(input@) matches Ok(v) && instr@ == v
                && instr.wf(),
            r matches Err(e) ==> spec_decode_instruction(input@) == Err::<RecordInstructionView,
                RecordError>(e),
    {
        if input.len() == 0 {
            return Err(RecordError::InvalidInstructionData);
        }
        let tag = input[0];
        if tag == TAG_INITIALIZE {
            if input.len() != 1 {
                return Err(RecordError::InvalidInstructionData);
            }
            Ok(RecordInstruction::Initialize)
        } else if tag == TAG_WRITE {
            if input.len() < WRITE_DATA_START {
                return Err(RecordError::InvalidInstructionData);
            }
            let offset = u64_from_le_bytes(slice_subrange(input.as_slice(), 1, 9));
            let declared_len = u32_from_le_bytes(slice_subrange(input.as_slice(), 9, 13));
            if input.len() - WRITE_DATA_START != declared_len as usize {
                return Err(RecordError::InvalidInstructionData);
            }
            let data = read_range(input, WRITE_DATA_START, declared_len as usize);
            assert(data@ =~= input@.subrange(WRITE_DATA_START as int, input@.len() as int));
            Ok(RecordInstruction::Write { offset, data })
        } else if tag == TAG_SET_AUTHORITY {
            if input.len() != 1 {
                return Err(RecordError::InvalidInstructionData);
            }
            Ok(RecordInstruction::SetAuthority)
        } else if tag == TAG_CLOSE_ACCOUNT {
            if input.len() != 1 {
                return Err(RecordError::InvalidInstructionData);
            }
            Ok(RecordInstruction::CloseAccount)
        } else {
            Err(RecordError::InvalidInstructionData)
        }
    }

    /// Produces the wire bytes of this instruction; decoding them gives
    /// the instruction back.
    pub fn encode(&self) -> (out: Vec<u8>)
        requires
            self.wf(),
        ensures
            out@ == self@.encoding(),
    {
        match self {
            RecordInstruction::Initialize => {
                let mut out: Vec<u8> = Vec::new();
                out.push(TAG_INITIALIZE);
                assert(out@ =~= self@.encoding());
                out
            },
            RecordInstruction::Write { offset, data } => {
                let mut out: Vec<u8> = Vec::new();
                out.push(TAG_WRITE);
                let mut offset_bytes = u64_to_le_bytes(*offset);
                out.append(&mut offset_bytes);
                let mut len_bytes = u32_to_le_bytes(data.len() as u32);
                out.append(&mut len_bytes);
                let mut i: usize = 0;
                let n: usize = data.len();
                while i < n
                    invariant
                        n == data@.len(),
                        0 <= i <= n,
                        out@.len() == WRITE_DATA_START + i,
                        out@.subrange(0, WRITE_DATA_START as int) == seq![TAG_WRITE]
                            + spec_u64_to_le_bytes(*offset) + spec_u32_to_le_bytes(
                            data@.len() as u32,
                        ),
                        forall|j: int|
                            0 <= j < i ==> out@[WRITE_DATA_START + j] == data@[j],
                    decreases n - i,
                {
                    out.push(data[i]);
                    assert(out@.subrange(0, WRITE_DATA_START as int) =~= seq![TAG_WRITE]
                        + spec_u64_to_le_bytes(*offset) + spec_u32_to_le_bytes(data@.len() as u32));
                    i = i + 1;
                }
                assert(out@ =~= self@.encoding());
                out
            },
            RecordInstruction::SetAuthority => {
                let mut out: Vec<u8> = Vec::new();
                out.push(TAG_SET_AUTHORITY);
                assert(out@ =~= self@.encoding());
                out
            },
            RecordInstruction::CloseAccount => {
                let mut out: Vec<u8> = Vec::new();
                out.push(TAG_CLOSE_ACCOUNT);
                assert(out@ =~= self@.encoding());
                out
            },
        }
    }
}

/// Bytes that decode are exactly the encoding of what they decode to: no
/// two distinct byte sequences decode to the same instruction, so the
/// wire format is byte-stable.
pub proof fn lemma_instruction_encode_decode(b: Seq<u8>)
    requires
        spec_decode_instruction(b) is Ok,
    ensures
        spec_decode_instruction(b)->Ok_0.wf(),
        spec_decode_instruction(b)->Ok_0.encoding() == b,
{
    lemma_auto_spec_u64_to_from_le_bytes();
    lemma_auto_spec_u32_to_from_le_bytes();
    let v = spec_decode_instruction(b)->Ok_0;
    if b[0] == TAG_WRITE {
        let declared = spec_u32_from_le_bytes(b.subrange(9, 13));
        assert(b.len() - WRITE_DATA_START == declared);
        assert(v->data.len() == declared);
        assert(spec_u32_to_le_bytes(v->data.len() as u32) =~= b.subrange(9, 13));
        assert(spec_u64_to_le_bytes(v->offset) =~= b.subrange(1, 9));
        assert(v.encoding() =~= b);
    } else {
        assert(v.encoding() =~= b);
    }
}

/// Decoding the encoding of a well-formed instruction gives the
/// instruction back: the wire format round-trips and is unambiguous.
pub proof fn lemma_instruction_round_trip(v: RecordInstructionView)
    requires
        v.wf(),
    ensures
        spec_decode_instruction(v.encoding()) == Ok::<RecordInstructionView, RecordError>(v),
{
    lemma_auto_spec_u64_to_from_le_bytes();
    lemma_auto_spec_u32_to_from_le_bytes();
    let e = v.encoding();
    match v {
        RecordInstructionView::Initialize => {
        },
        RecordInstructionView::Write { offset, data } => {
            assert(e.len() == WRITE_DATA_START + data.len());
            assert(e.subrange(1, 9) =~= spec_u64_to_le_bytes(offset));
            assert(e.subrange(9, 13) =~= spec_u32_to_le_bytes(data.len() as u32));
            assert(e.subrange(WRITE_DATA_START as int, e.len() as int) =~= data);
        },
        RecordInstructionView::SetAuthority => {
        },
        RecordInstructionView::CloseAccount => {
        },
    }
}

} // verus!
