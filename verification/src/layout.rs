//! Where the regions of a file lie, and how its two-byte integers are stored.

use vstd::prelude::*;

verus! {

/// The size in bytes of the signature.
pub const SIGNATURE_SIZE: usize = 0x0B;

/// The size in bytes of the comment region.
pub const COMMENT_SIZE: usize = 0x2A;

/// The size in bytes of the field that holds the variable's length.
pub const VARIABLE_LENGTH_SIZE: usize = 0x02;

/// The size in bytes of the checksum.
pub const CHECKSUM_SIZE: usize = 0x02;

/// The size in bytes of all that precedes the variable.
pub const HEADER_SIZE: usize = SIGNATURE_SIZE + COMMENT_SIZE + VARIABLE_LENGTH_SIZE;

/// The largest number of bytes that the length field can declare.
pub const MAX_VARIABLE_LENGTH: usize = 0xFFFF;

/// The signature of files made for the calculator: `**TI83F*`, then `0x1A`, `0x0A`, `0x00`.
pub const SIGNATURE: [u8; SIGNATURE_SIZE] = [
    0x2A, 0x2A, 0x54, 0x49, 0x38, 0x33, 0x46, 0x2A, 0x1A, 0x0A, 0x00,
];

/// The padding byte of a comment, an ASCII space.
pub const SPACE: u8 = 0x20;

/// The number that two bytes hold in little-endian order.
pub open spec fn u16_from_le(low: u8, high: u8) -> u16 {
    (low + 256 * high) as u16
}

/// The two bytes that hold `value` in little-endian order.
pub open spec fn u16_to_le(value: u16) -> Seq<u8> {
    seq![(value % 256) as u8, (value / 256) as u8]
}

/// Reads a little-endian integer from its two bytes.
pub fn read_u16_le(raw: &[u8; 2]) -> (value: u16)
    ensures
        value == u16_from_le(raw@[0], raw@[1]),
        u16_to_le(value) == raw@,
{
    let low: u16 = raw[0] as u16;
    let high: u16 = raw[1] as u16;
    let value: u16 = low + 256 * high;
    value
}

/// Writes an integer as its two little-endian bytes.
pub fn write_u16_le(value: u16) -> (raw: [u8; 2])
    ensures
        raw@ == u16_to_le(value),
        u16_from_le(raw@[0], raw@[1]) == value,
{
    let raw: [u8; 2] = [(value % 256) as u8, (value / 256) as u8];
    raw
}

} // verus!
