//! The checksum at the end of a file: the sum of the variable's bytes, kept to 16 bits.

use vstd::prelude::*;
use crate::error::DecodeError;
use crate::mode::ReadMode;

verus! {

/// The sum of all bytes of `bytes`.
pub open spec fn byte_sum(bytes: Seq<u8>) -> nat
    decreases bytes.len(),
{
    if bytes.len() == 0 {
        0
    } else {
        byte_sum(bytes.drop_last()) + bytes.last() as nat
    }
}

/// The checksum of `bytes`: the lower 16 bits of the sum of its bytes.
pub open spec fn checksum_of(bytes: Seq<u8>) -> u16 {
    (byte_sum(bytes) % 0x1_0000) as u16
}

/// What a reader in `mode` keeps as the checksum of a variable whose bytes are `payload`
/// when it finds `stored`, or the error with which it fails.
pub open spec fn checked_checksum(stored: u16, payload: Seq<u8>, mode: ReadMode) -> Result<
    u16,
    DecodeError,
> {
    match mode {
        ReadMode::Error => if stored == checksum_of(payload) {
            Ok(stored)
        } else {
            Err(DecodeError::ChecksumMismatch)
        },
        ReadMode::Fix => Ok(checksum_of(payload)),
        ReadMode::Ignore => Ok(stored),
    }
}

/// The sum of a sequence grows by the byte that is appended to it.
pub proof fn lemma_byte_sum_push(bytes: Seq<u8>, byte: u8)
    ensures
        byte_sum(bytes.push(byte)) == byte_sum(bytes) + byte,
{
    assert(bytes.push(byte).drop_last() =~= bytes);
}

/// Computes the checksum of a variable from its bytes.
pub fn compute_checksum(bytes: &[u8]) -> (sum: u16)
    ensures
        sum == checksum_of(bytes@),
{
    let mut sum: u16 = 0;
    let mut i: usize = 0;
    while i < bytes.len()
        invariant
            i <= bytes.len(),
            sum == checksum_of(bytes@.take(i as int)),
        decreases bytes.len() - i,
    {
        proof {
            lemma_byte_sum_push(bytes@.take(i as int), bytes@[i as int]);
            assert(bytes@.take(i + 1) =~= bytes@.take(i as int).push(bytes@[i as int]));
        }
        sum = sum.wrapping_add(bytes[i] as u16);
        i += 1;
    }
    assert(bytes@.take(bytes.len() as int) =~= bytes@);
    sum
}

/// Holds the stored checksum of a file against the bytes of its variable.
///
/// In [`ReadMode::Error`] a stored value that differs from the computed one is refused. In
/// [`ReadMode::Fix`] the computed value takes its place. In [`ReadMode::Ignore`] nothing is
/// compared and the stored value is kept.
pub fn validate_checksum(stored: u16, payload_bytes: &[u8], mode: ReadMode) -> (checked: Result<
    u16,
    DecodeError,
>)
    ensures
        checked == checked_checksum(stored, payload_bytes@, mode),
{
    match mode {
        ReadMode::Error => {
            if stored == compute_checksum(payload_bytes) {
                Ok(stored)
            } else {
                Err(DecodeError::ChecksumMismatch)
            }
        },
        ReadMode::Fix => Ok(compute_checksum(payload_bytes)),
        ReadMode::Ignore => Ok(stored),
    }
}

} // verus!
