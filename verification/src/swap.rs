//! The swap-pool descriptor: a second fixed-layout account type that
//! follows the same fixed-offset packing discipline as the record.
//!
//! Every field occupies a fixed byte range with no padding between fields;
//! the ranges together cover exactly `SWAP_INFO_LEN` bytes. The descriptor
//! may sit in a larger buffer: unpacking reads exactly the first
//! `SWAP_INFO_LEN` bytes, and packing writes exactly that many at offset 0.

use vstd::bytes::{
    lemma_auto_spec_u64_to_from_le_bytes, spec_u64_from_le_bytes, spec_u64_to_le_bytes,
    u64_from_le_bytes, u64_to_le_bytes,
};
use vstd::prelude::*;
use vstd::slice::slice_subrange;

use crate::byteops::{read_range, splice, write_range};
use crate::error::RecordError;
use crate::pubkey::{Pubkey, PUBKEY_LEN};

verus! {

/// Total encoded width of the descriptor.
pub const SWAP_INFO_LEN: usize = 148;

/// Byte offset of each field, in layout order.
pub const SWAP_NONCE_OFFSET: usize = 1;

/// Byte offset of the token-program id key.
pub const SWAP_TOKEN_PROGRAM_ID_OFFSET: usize = 2;

/// Byte offset of the token-A account key.
pub const SWAP_TOKEN_A_OFFSET: usize = 34;

/// Byte offset of the token-B account key.
pub const SWAP_TOKEN_B_OFFSET: usize = 66;

/// Byte offset of the token-A weight.
pub const SWAP_WEIGHT_A_OFFSET: usize = 98;

/// Byte offset of the token-B weight.
pub const SWAP_WEIGHT_B_OFFSET: usize = 99;

/// Byte offset of the pool-mint key.
pub const SWAP_POOL_MINT_OFFSET: usize = 100;

/// Byte offset of the fee numerator.
pub const SWAP_FEE_NUMERATOR_OFFSET: usize = 132;

/// Byte offset of the fee denominator.
pub const SWAP_FEE_DENOMINATOR_OFFSET: usize = 140;

/// The swap-pool descriptor.
#[derive(Debug)]
pub struct SwapInfo {
    /// Initialized state, stored as the leading flag byte.
    pub is_initialized: bool,
    /// Nonce used to derive the pool's program address.
    pub nonce: u8,
    /// Program id of the tokens being exchanged.
    pub token_program_id: Pubkey,
    /// Token A liquidity account.
    pub token_a: Pubkey,
    /// Token B liquidity account.
    pub token_b: Pubkey,
    /// Weight for token A.
    pub weight_a: u8,
    /// Weight for token B.
    pub weight_b: u8,
    /// Mint of the pool tokens issued on deposit.
    pub pool_mint: Pubkey,
    /// Numerator of the fee applied to the input amount.
    pub fee_numerator: u64,
    /// Denominator of the fee applied to the input amount.
    pub fee_denominator: u64,
}

/// The mathematical content of a descriptor.
pub struct SwapInfoView {
    /// The initialization flag.
    pub is_initialized: bool,
    /// The nonce.
    pub nonce: u8,
    /// The token-program id key bytes.
    pub token_program_id: Seq<u8>,
    /// The token-A key bytes.
    pub token_a: Seq<u8>,
    /// The token-B key bytes.
    pub token_b: Seq<u8>,
    /// The token-A weight.
    pub weight_a: u8,
    /// The token-B weight.
    pub weight_b: u8,
    /// The pool-mint key bytes.
    pub pool_mint: Seq<u8>,
    /// The fee numerator.
    pub fee_numerator: u64,
    /// The fee denominator.
    pub fee_denominator: u64,
}

impl SwapInfoView {
    /// A view is well formed when each key field has its fixed width.
    pub open spec fn wf(self) -> bool {
        self.token_program_id.len() == PUBKEY_LEN && self.token_a.len() == PUBKEY_LEN
            && self.token_b.len() == PUBKEY_LEN && self.pool_mint.len() == PUBKEY_LEN
    }

    /// The `SWAP_INFO_LEN` bytes that encode this descriptor: each field at
    /// its fixed range, integers little-endian.
    pub open spec fn encoding(self) -> Seq<u8> {
        seq![crate::state::spec_flag_byte(self.is_initialized), self.nonce]
            + self.token_program_id + self.token_a + self.token_b
            + seq![self.weight_a, self.weight_b] + self.pool_mint
            + spec_u64_to_le_bytes(self.fee_numerator)
            + spec_u64_to_le_bytes(self.fee_denominator)
    }
}

impl View for SwapInfo {
    type V = SwapInfoView;

    open spec fn view(&self) -> SwapInfoView {
        SwapInfoView {
            is_initialized: self.is_initialized,
            nonce: self.nonce,
            token_program_id: self.token_program_id@,
            token_a: self.token_a@,
            token_b: self.token_b@,
            weight_a: self.weight_a,
            weight_b: self.weight_b,
            pool_mint: self.pool_mint@,
            fee_numerator: self.fee_numerator,
            fee_denominator: self.fee_denominator,
        }
    }
}

/// Whether the leading flag byte holds one of the two legal values.
pub open spec fn swap_flag_ok(b: Seq<u8>) -> bool {
    b[0] == 0 || b[0] == 1
}

/// The descriptor read from the first `SWAP_INFO_LEN` bytes of `b`.
pub open spec fn swap_decoded(b: Seq<u8>) -> SwapInfoView {
    SwapInfoView {
        is_initialized: b[0] == 1,
        nonce: b[SWAP_NONCE_OFFSET as int],
        token_program_id: b.subrange(SWAP_TOKEN_PROGRAM_ID_OFFSET as int, SWAP_TOKEN_A_OFFSET as int),
        token_a: b.subrange(SWAP_TOKEN_A_OFFSET as int, SWAP_TOKEN_B_OFFSET as int),
        token_b: b.subrange(SWAP_TOKEN_B_OFFSET as int, SWAP_WEIGHT_A_OFFSET as int),
        weight_a: b[SWAP_WEIGHT_A_OFFSET as int],
        weight_b: b[SWAP_WEIGHT_B_OFFSET as int],
        pool_mint: b.subrange(SWAP_POOL_MINT_OFFSET as int, SWAP_FEE_NUMERATOR_OFFSET as int),
        fee_numerator: spec_u64_from_le_bytes(
            b.subrange(SWAP_FEE_NUMERATOR_OFFSET as int, SWAP_FEE_DENOMINATOR_OFFSET as int),
        ),
        fee_denominator: spec_u64_from_le_bytes(
            b.subrange(SWAP_FEE_DENOMINATOR_OFFSET as int, SWAP_INFO_LEN as int),
        ),
    }
}

/// What the unchecked read returns on any buffer: the length check and the
/// strict flag-byte check, but no initialization check.
pub open spec fn spec_swap_unpack_unchecked(b: Seq<u8>) -> Result<SwapInfoView, RecordError> {
    if b.len() < SWAP_INFO_LEN {
        Err(RecordError::BufferTooSmall)
    } else if !swap_flag_ok(b) {
        Err(RecordError::InvalidAccountData)
    } else {
        Ok(swap_decoded(b))
    }
}

/// What the checked read returns: the unchecked read, then the
/// initialization check.
pub open spec fn spec_swap_unpack(b: Seq<u8>) -> Result<SwapInfoView, RecordError> {
    match spec_swap_unpack_unchecked(b) {
        Ok(v) => if !v.is_initialized {
            Err(RecordError::UninitializedAccount)
        } else {
            Ok(v)
        },
        Err(e) => Err(e),
    }
}

impl SwapInfo {
    /// A descriptor is well formed when each of its keys has its width.
    pub open spec fn wf(&self) -> bool {
        self@.wf()
    }

    /// Initialized state.
    pub fn is_initialized(&self) -> (r: bool)
        ensures
            r == self.is_initialized,
    {
        self.is_initialized
    }

    /// The raw field extraction: validates the flag byte strictly and reads
    /// every field from its fixed range. The caller supplies a buffer of at
    /// least `SWAP_INFO_LEN` bytes; only the first `SWAP_INFO_LEN` are read.
    pub fn unpack_from_slice(input: &Vec<u8>) -> (r: Result<SwapInfo, RecordError>)
        requires
            input@.len() >= SWAP_INFO_LEN,
        ensures
            r matches Ok(s) ==> swap_flag_ok(input@) && s@ == swap_decoded(input@) && s.wf(),
            r matches Err(e) ==> !swap_flag_ok(input@) && e == RecordError::InvalidAccountData,
    {
        let flag = input[0];
        if flag != 0 && flag != 1 {
            return Err(RecordError::InvalidAccountData);
        }
        let nonce = input[SWAP_NONCE_OFFSET];
        let token_program_id = Pubkey::new_from_bytes(
            read_range(input, SWAP_TOKEN_PROGRAM_ID_OFFSET, PUBKEY_LEN),
        );
        let token_a = Pubkey::new_from_bytes(read_range(input, SWAP_TOKEN_A_OFFSET, PUBKEY_LEN));
        let token_b = Pubkey::new_from_bytes(read_range(input, SWAP_TOKEN_B_OFFSET, PUBKEY_LEN));
        let weight_a = input[SWAP_WEIGHT_A_OFFSET];
        let weight_b = input[SWAP_WEIGHT_B_OFFSET];
        let pool_mint = Pubkey::new_from_bytes(read_range(input, SWAP_POOL_MINT_OFFSET, PUBKEY_LEN));
        let fee_numerator = u64_from_le_bytes(
            slice_subrange(input.as_slice(), SWAP_FEE_NUMERATOR_OFFSET, SWAP_FEE_DENOMINATOR_OFFSET),
        );
        let fee_denominator = u64_from_le_bytes(
            slice_subrange(input.as_slice(), SWAP_FEE_DENOMINATOR_OFFSET, SWAP_INFO_LEN),
        );
        Ok(
            SwapInfo {
                is_initialized: flag == 1,
                nonce,
                token_program_id,
                token_a,
                token_b,
                weight_a,
                weight_b,
                pool_mint,
                fee_numerator,
                fee_denominator,
            },
        )
    }

    /// Reads a descriptor without the initialization check. Never skips the
    /// buffer-length check.
    pub fn unpack_unchecked(input: &Vec<u8>) -> (r: Result<SwapInfo, RecordError>)
        ensures
            r matches Ok(s) ==> spec_swap_unpack_unchecked(input@) matches Ok(v) && s@ == v
                && s.wf(),
            r matches Err(e) ==> spec_swap_unpack_unchecked(input@) == Err::<SwapInfoView,
                RecordError>(e),
    {
        if input.len() < SWAP_INFO_LEN {
            return Err(RecordError::BufferTooSmall);
        }
        Self::unpack_from_slice(input)
    }

    /// Reads an initialized descriptor: the unchecked read, then the
    /// initialization check.
    pub fn unpack(input: &Vec<u8>) -> (r: Result<SwapInfo, RecordError>)
        ensures
            r matches Ok(s) ==> spec_swap_unpack(input@) matches Ok(v) && s@ == v && s.wf(),
            r matches Err(e) ==> spec_swap_unpack(input@) == Err::<SwapInfoView, RecordError>(e),
    {
        let s = Self::unpack_unchecked(input)?;
        if !s.is_initialized() {
            return Err(RecordError::UninitializedAccount);
        }
        Ok(s)
    }

    /// Writes the descriptor's `SWAP_INFO_LEN` encoded bytes at the start of
    /// `output`, overwriting the full region and touching nothing past it.
    pub fn pack_into_slice(&self, output: &mut Vec<u8>)
        requires
            self.wf(),
            old(output)@.len() >= SWAP_INFO_LEN,
        ensures
            final(output)@ == splice(old(output)@, 0, self@.encoding()),
            final(output)@.len() == old(output)@.len(),
            final(output)@.subrange(0, SWAP_INFO_LEN as int) == self@.encoding(),
    {
        output[0] = if self.is_initialized {
            1u8
        } else {
            0u8
        };
        output[SWAP_NONCE_OFFSET] = self.nonce;
        let token_program_id_bytes = self.token_program_id.to_bytes();
        write_range(output, SWAP_TOKEN_PROGRAM_ID_OFFSET, &token_program_id_bytes);
        let token_a_bytes = self.token_a.to_bytes();
        write_range(output, SWAP_TOKEN_A_OFFSET, &token_a_bytes);
        let token_b_bytes = self.token_b.to_bytes();
        write_range(output, SWAP_TOKEN_B_OFFSET, &token_b_bytes);
        output[SWAP_WEIGHT_A_OFFSET] = self.weight_a;
        output[SWAP_WEIGHT_B_OFFSET] = self.weight_b;
        let pool_mint_bytes = self.pool_mint.to_bytes();
        write_range(output, SWAP_POOL_MINT_OFFSET, &pool_mint_bytes);
        let fee_numerator_bytes = u64_to_le_bytes(self.fee_numerator);
        write_range(output, SWAP_FEE_NUMERATOR_OFFSET, &fee_numerator_bytes);
        let fee_denominator_bytes = u64_to_le_bytes(self.fee_denominator);
        write_range(output, SWAP_FEE_DENOMINATOR_OFFSET, &fee_denominator_bytes);
        proof {
            lemma_auto_spec_u64_to_from_le_bytes();
        }
        assert(output@ =~= splice(old(output)@, 0, self@.encoding()));
        assert(output@.subrange(0, SWAP_INFO_LEN as int) =~= self@.encoding());
    }

    /// The checked pack: rejects a buffer shorter than `SWAP_INFO_LEN`, and
    /// otherwise always succeeds.
    pub fn pack(src: &SwapInfo, output: &mut Vec<u8>) -> (r: Result<(), RecordError>)
        requires
            src.wf(),
        ensures
            old(output)@.len() < SWAP_INFO_LEN ==> r == Err::<(), RecordError>(
                RecordError::BufferTooSmall,
            ) && final(output)@ == old(output)@,
            old(output)@.len() >= SWAP_INFO_LEN ==> r == Ok::<(), RecordError>(())
                && final(output)@ == splice(old(output)@, 0, src@.encoding()),
    {
        if output.len() < SWAP_INFO_LEN {
            return Err(RecordError::BufferTooSmall);
        }
        src.pack_into_slice(output);
        Ok(())
    }
}

/// Reading the encoding of a well-formed descriptor gives the descriptor
/// back, and a packed buffer always passes the flag check: the descriptor
/// codec round-trips.
pub proof fn lemma_swap_round_trip(v: SwapInfoView)
    requires
        v.wf(),
    ensures
        v.encoding().len() == SWAP_INFO_LEN,
        swap_flag_ok(v.encoding()),
        swap_decoded(v.encoding()) == v,
{
    lemma_auto_spec_u64_to_from_le_bytes();
    let e = v.encoding();
    assert(swap_decoded(e).token_program_id =~= v.token_program_id);
    assert(swap_decoded(e).token_a =~= v.token_a);
    assert(swap_decoded(e).token_b =~= v.token_b);
    assert(swap_decoded(e).pool_mint =~= v.pool_mint);
    assert(e.subrange(SWAP_FEE_NUMERATOR_OFFSET as int, SWAP_FEE_DENOMINATOR_OFFSET as int)
        =~= spec_u64_to_le_bytes(v.fee_numerator));
    assert(e.subrange(SWAP_FEE_DENOMINATOR_OFFSET as int, SWAP_INFO_LEN as int)
        =~= spec_u64_to_le_bytes(v.fee_denominator));
}

/// A buffer that passes the flag check is exactly the encoding of the
/// descriptor read from it, over the first `SWAP_INFO_LEN` bytes: the
/// fixed ranges cover the whole width with no padding.
pub proof fn lemma_swap_encode_decode(b: Seq<u8>)
    requires
        b.len() >= SWAP_INFO_LEN,
        swap_flag_ok(b),
    ensures
        swap_decoded(b).wf(),
        swap_decoded(b).encoding() == b.subrange(0, SWAP_INFO_LEN as int),
{
    lemma_auto_spec_u64_to_from_le_bytes();
    assert(spec_u64_to_le_bytes(swap_decoded(b).fee_numerator) =~= b.subrange(
        SWAP_FEE_NUMERATOR_OFFSET as int,
        SWAP_FEE_DENOMINATOR_OFFSET as int,
    ));
    assert(spec_u64_to_le_bytes(swap_decoded(b).fee_denominator) =~= b.subrange(
        SWAP_FEE_DENOMINATOR_OFFSET as int,
        SWAP_INFO_LEN as int,
    ));
    assert(swap_decoded(b).encoding() =~= b.subrange(0, SWAP_INFO_LEN as int));
}

impl Default for SwapInfo {
    /// The all-zero descriptor: what an unchecked read of zeroed storage
    /// returns.
    fn default() -> (out: Self)
        ensures
            out@.is_initialized == false,
            out@.nonce == 0,
            out@.weight_a == 0,
            out@.weight_b == 0,
            out@.fee_numerator == 0,
            out@.fee_denominator == 0,
            out@.token_program_id == Seq::new(PUBKEY_LEN as nat, |i: int| 0u8),
            out@.token_a == Seq::new(PUBKEY_LEN as nat, |i: int| 0u8),
            out@.token_b == Seq::new(PUBKEY_LEN as nat, |i: int| 0u8),
            out@.pool_mint == Seq::new(PUBKEY_LEN as nat, |i: int| 0u8),
            out.wf(),
    {
        SwapInfo {
            is_initialized: false,
            nonce: 0,
            token_program_id: zero_key(),
            token_a: zero_key(),
            token_b: zero_key(),
            weight_a: 0,
            weight_b: 0,
            pool_mint: zero_key(),
            fee_numerator: 0,
            fee_denominator: 0,
        }
    }
}

/// The all-zero key.
fn zero_key() -> (out: Pubkey)
    ensures
        out@ == Seq::new(PUBKEY_LEN as nat, |i: int| 0u8),
        out.wf(),
{
    let mut bytes: Vec<u8> = Vec::new();
    let mut i: usize = 0;
    while i < PUBKEY_LEN
        invariant
            0 <= i <= PUBKEY_LEN,
            bytes@.len() == i,
            forall|j: int| 0 <= j < i ==> bytes@[j] == 0u8,
        decreases PUBKEY_LEN - i,
    {
        bytes.push(0u8);
        i = i + 1;
    }
    assert(bytes@ =~= Seq::new(PUBKEY_LEN as nat, |j: int| 0u8));
    Pubkey::new_from_bytes(bytes)
}

impl PartialEq for SwapInfo {
    /// Two descriptors are equal exactly when every field is equal.
    fn eq(&self, other: &Self) -> (r: bool) {
        self.is_initialized == other.is_initialized && self.nonce == other.nonce
            && self.token_program_id == other.token_program_id && self.token_a == other.token_a
            && self.token_b == other.token_b && self.weight_a == other.weight_a
            && self.weight_b == other.weight_b && self.pool_mint == other.pool_mint
            && self.fee_numerator == other.fee_numerator
            && self.fee_denominator == other.fee_denominator
    }
}

impl vstd::std_specs::cmp::PartialEqSpecImpl for SwapInfo {
    open spec fn obeys_eq_spec() -> bool {
        true
    }

    open spec fn eq_spec(&self, other: &SwapInfo) -> bool {
        self@ == other@
    }
}

} // verus!
