use tivars::checksum::{compute_checksum, validate_checksum};
use tivars::error::DecodeError;
use tivars::mode::ReadMode;

#[test]
fn checksum_of_one_two_three_is_six() {
    assert_eq!(compute_checksum(&[0x01, 0x02, 0x03]), 0x0006);
}

#[test]
fn checksum_of_nothing_is_zero() {
    assert_eq!(compute_checksum(&[]), 0);
}

#[test]
fn checksum_of_one_byte_is_the_byte() {
    assert_eq!(compute_checksum(&[0xFF]), 0x00FF);
}

#[test]
fn checksum_goes_past_one_byte() {
    assert_eq!(compute_checksum(&[0xFF, 0xFF, 0x02]), 0x0200);
}

#[test]
fn checksum_keeps_the_lower_sixteen_bits() {
    // 258 * 255 = 65790 = 65536 + 254
    let bytes = vec![0xFFu8; 258];
    assert_eq!(compute_checksum(&bytes), 254);
}

#[test]
fn checksum_wraps_to_zero() {
    // 257 * 255 + 1 = 65536
    let mut bytes = vec![0xFFu8; 257];
    bytes.push(1);
    assert_eq!(compute_checksum(&bytes), 0);
}

#[test]
fn checksum_does_not_depend_on_order() {
    assert_eq!(compute_checksum(&[9, 200, 31]), compute_checksum(&[31, 9, 200]));
    assert_eq!(compute_checksum(&[9, 200, 31]), 240);
}

#[test]
fn stored_checksum_that_matches_is_kept() {
    assert_eq!(validate_checksum(6, &[1, 2, 3], ReadMode::Error), Ok(6));
    assert_eq!(validate_checksum(6, &[1, 2, 3], ReadMode::Fix), Ok(6));
    assert_eq!(validate_checksum(6, &[1, 2, 3], ReadMode::Ignore), Ok(6));
}

#[test]
fn check_refuses_wrong_checksum_in_error_mode() {
    assert_eq!(
        validate_checksum(7, &[1, 2, 3], ReadMode::Error),
        Err(DecodeError::ChecksumMismatch)
    );
}

#[test]
fn check_replaces_wrong_checksum_in_fix_mode() {
    assert_eq!(validate_checksum(7, &[1, 2, 3], ReadMode::Fix), Ok(6));
}

#[test]
fn check_keeps_wrong_checksum_in_ignore_mode() {
    assert_eq!(validate_checksum(7, &[1, 2, 3], ReadMode::Ignore), Ok(7));
}
