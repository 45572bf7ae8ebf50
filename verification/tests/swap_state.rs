//! The swap-pool descriptor codec on concrete buffers.

use spl_record::error::RecordError;
use spl_record::pubkey::Pubkey;
use spl_record::swap::{SwapInfo, SWAP_INFO_LEN};

#[test]
fn test_swap_info_packing() {
    let nonce = 255;
    let token_program_id_raw = [1u8; 32];
    let token_a_raw = [1u8; 32];
    let token_b_raw = [2u8; 32];
    let pool_mint_raw = [3u8; 32];
    let token_program_id = Pubkey::new_from_array(token_program_id_raw);
    let token_a = Pubkey::new_from_array(token_a_raw);
    let token_b = Pubkey::new_from_array(token_b_raw);
    let weight_a = 2;
    let weight_b = 90;
    let pool_mint = Pubkey::new_from_array(pool_mint_raw);
    let fee_numerator = 1;
    let fee_denominator = 4;
    let is_initialized = true;
    let swap_info = SwapInfo {
        is_initialized,
        nonce,
        token_program_id,
        token_a,
        token_b,
        weight_a,
        weight_b,
        pool_mint,
        fee_numerator,
        fee_denominator,
    };

    let mut packed = vec![0u8; SWAP_INFO_LEN];
    SwapInfo::pack(&swap_info, &mut packed).unwrap();
    let unpacked = SwapInfo::unpack(&packed).unwrap();
    assert_eq!(swap_info, unpacked);

    let mut packed = vec![];
    packed.push(1 as u8);
    packed.push(nonce);
    packed.extend_from_slice(&token_program_id_raw);
    packed.extend_from_slice(&token_a_raw);
    packed.extend_from_slice(&token_b_raw);
    packed.push(weight_a);
    packed.push(weight_b);
    packed.extend_from_slice(&pool_mint_raw);
    packed.push(fee_numerator as u8);
    packed.extend_from_slice(&[0u8; 7]); // padding
    packed.push(fee_denominator as u8);
    packed.extend_from_slice(&[0u8; 7]); // padding
    let unpacked = SwapInfo::unpack(&packed).unwrap();
    assert_eq!(swap_info, unpacked);

    let packed = vec![0u8; SWAP_INFO_LEN];
    let swap_info: SwapInfo = Default::default();
    let unpack_unchecked = SwapInfo::unpack_unchecked(&packed).unwrap();
    assert_eq!(unpack_unchecked, swap_info);
    let err = SwapInfo::unpack(&packed).unwrap_err();
    assert_eq!(err, RecordError::UninitializedAccount);
}

#[test]
fn swap_info_rejects_bad_inputs() {
    // A short buffer is a length error from both read paths.
    let short = vec![0u8; SWAP_INFO_LEN - 1];
    assert_eq!(SwapInfo::unpack(&short).unwrap_err(), RecordError::BufferTooSmall);
    assert_eq!(SwapInfo::unpack_unchecked(&short).unwrap_err(), RecordError::BufferTooSmall);

    // A flag byte other than 0 or 1 is rejected, not coerced.
    let mut bad_flag = vec![0u8; SWAP_INFO_LEN];
    bad_flag[0] = 3;
    assert_eq!(SwapInfo::unpack(&bad_flag).unwrap_err(), RecordError::InvalidAccountData);
    assert_eq!(
        SwapInfo::unpack_unchecked(&bad_flag).unwrap_err(),
        RecordError::InvalidAccountData
    );
}

#[test]
fn swap_info_reads_first_len_bytes_only() {
    // The descriptor may sit in a larger, rounded-up allocation: unpack
    // reads exactly the first SWAP_INFO_LEN bytes, pack writes exactly
    // that many at offset 0.
    let swap_info = SwapInfo {
        is_initialized: true,
        nonce: 11,
        token_program_id: Pubkey::new_from_array([1u8; 32]),
        token_a: Pubkey::new_from_array([2u8; 32]),
        token_b: Pubkey::new_from_array([3u8; 32]),
        weight_a: 40,
        weight_b: 60,
        pool_mint: Pubkey::new_from_array([4u8; 32]),
        fee_numerator: 0x0102030405060708,
        fee_denominator: 0x1112131415161718,
    };
    let mut packed = vec![0xEEu8; SWAP_INFO_LEN + 16];
    SwapInfo::pack(&swap_info, &mut packed).unwrap();
    assert!(packed[SWAP_INFO_LEN..].iter().all(|b| *b == 0xEE));

    let unpacked = SwapInfo::unpack(&packed).unwrap();
    assert_eq!(swap_info, unpacked);

    // The little-endian integer encoding is byte-exact.
    assert_eq!(&packed[132..140], &[8, 7, 6, 5, 4, 3, 2, 1]);
    assert_eq!(&packed[140..148], &[0x18, 0x17, 0x16, 0x15, 0x14, 0x13, 0x12, 0x11]);
}
