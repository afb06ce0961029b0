use ephemeral_vrf::group::{GroupScalar, Point};
use ephemeral_vrf::program::{FeeTier, OracleError};
use ephemeral_vrf::provide::{
    blinded_point_from_callback_args, check_oblivious_item, check_provide_slot,
    oblivious_callback_data, provide_fee,
};
use ephemeral_vrf::request::{check_oblivious_request, derive_oblivious_request_id, request_fee};

fn valid_point() -> [u8; 32] {
    let mut bytes = [0u8; 32];
    bytes[0] = 77;
    Point::mul_base(&GroupScalar::from_bytes_mod_order(bytes)).compress()
}

#[test]
fn request_rejects_zero_point() {
    assert_eq!(check_oblivious_request(&[0u8; 32], &[0u8; 40]), Err(OracleError::InvalidArgument));
}

#[test]
fn request_rejects_invalid_point() {
    assert_eq!(check_oblivious_request(&[0xffu8; 32], &[0u8; 40]), Err(OracleError::InvalidArgument));
}

#[test]
fn request_rejects_short_callback_args() {
    let p = valid_point();
    assert_eq!(check_oblivious_request(&p, &p[..31]), Err(OracleError::InvalidInstructionData));
}

#[test]
fn request_rejects_callback_args_not_starting_with_point() {
    let p = valid_point();
    let mut args = p.to_vec();
    args[5] ^= 1;
    args.extend_from_slice(&[1, 2, 3]);
    assert_eq!(check_oblivious_request(&p, &args), Err(OracleError::InvalidInstructionData));
    let mut shifted = vec![0u8];
    shifted.extend_from_slice(&p);
    assert_eq!(check_oblivious_request(&p, &shifted), Err(OracleError::InvalidInstructionData));
}

#[test]
fn request_accepts_valid_point() {
    let p = valid_point();
    let mut args = p.to_vec();
    args.extend_from_slice(&[1, 2, 3]);
    assert_eq!(check_oblivious_request(&p, &args), Ok(()));
    assert_eq!(check_oblivious_request(&p, &p), Ok(()));
}

#[test]
fn request_id_exact_value() {
    let mut bp = [0u8; 32];
    for (i, b) in bp.iter_mut().enumerate() {
        *b = (i + 1) as u8;
    }
    let id = derive_oblivious_request_id(&bp, 123456789, &[9u8; 32], &[1, 2, 3, 4, 5, 6, 7, 8], &[0xabu8; 32], -5, 3);
    let expected: [u8; 32] = [
        167, 253, 134, 168, 13, 235, 245, 203, 52, 42, 94, 72, 55, 97, 25, 55, 92, 150, 77, 54, 7,
        106, 149, 114, 213, 113, 181, 254, 140, 216, 168, 127,
    ];
    assert_eq!(id, Ok(expected));
}

#[test]
fn request_rejects_long_discriminator() {
    let id = derive_oblivious_request_id(&[1u8; 32], 1, &[0u8; 32], &[0u8; 9], &[0u8; 32], 0, 0);
    assert_eq!(id, Err(OracleError::ArgumentSizeTooLarge));
}

#[test]
fn request_fee_depends_on_queue() {
    assert_eq!(request_fee(true), FeeTier::Waived);
    assert_eq!(request_fee(false), FeeTier::Standard);
}

#[test]
fn provide_rejects_non_oblivious_request() {
    assert_eq!(check_oblivious_item(0, &vec![], &[1u8; 32]), Err(OracleError::InvalidArgument));
}

#[test]
fn provide_rejects_oracle_among_callback_accounts() {
    let keys = vec![[2u8; 32], [1u8; 32], [3u8; 32]];
    assert_eq!(check_oblivious_item(1, &keys, &[1u8; 32]), Err(OracleError::InvalidCallbackAccounts));
    assert_eq!(check_oblivious_item(1, &keys, &[4u8; 32]), Ok(()));
}

#[test]
fn provide_requires_later_slot() {
    assert_eq!(check_provide_slot(10, 10), Err(OracleError::OracleMustProvideInDifferentSlot));
    assert_eq!(check_provide_slot(9, 10), Err(OracleError::OracleMustProvideInDifferentSlot));
    assert_eq!(check_provide_slot(11, 10), Ok(()));
}

#[test]
fn blinded_point_is_callback_args_prefix() {
    assert_eq!(blinded_point_from_callback_args(&[5u8; 31]), Err(OracleError::InvalidAccountData));
    let mut args = vec![7u8; 32];
    args.extend_from_slice(&[1, 2]);
    assert_eq!(blinded_point_from_callback_args(&args), Ok([7u8; 32]));
}

#[test]
fn callback_data_strips_blinded_point() {
    let mut args = vec![7u8; 32];
    args.extend_from_slice(&[1, 2, 3]);
    let data = oblivious_callback_data(&[9, 9], &[5u8; 32], &args);
    let mut expected = vec![9u8, 9];
    expected.extend_from_slice(&[5u8; 32]);
    expected.extend_from_slice(&[1, 2, 3]);
    assert_eq!(data, expected);
    let short = oblivious_callback_data(&[9], &[5u8; 32], &[1, 2]);
    let mut expected_short = vec![9u8];
    expected_short.extend_from_slice(&[5u8; 32]);
    assert_eq!(short, expected_short);
}

#[test]
fn provide_fee_tiers() {
    assert_eq!(provide_fee(true, 1), FeeTier::Waived);
    assert_eq!(provide_fee(false, 1), FeeTier::HighPriority);
    assert_eq!(provide_fee(false, 0), FeeTier::Standard);
}
