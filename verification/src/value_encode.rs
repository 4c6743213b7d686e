//! The two character alphabets of a WSPR message.

use vstd::prelude::*;

verus! {

/// Why a station record cannot be encoded.
#[derive(Debug, Clone, Copy, PartialEq, Eq, Structural)]
pub enum EncodeError {
    /// A byte outside the alphabet of the field it stands in.
    InvalidChar(u8),
    /// The callsign is not exactly six bytes long.
    InvalidCallsign,
}

/// Value of a byte in the alphanumeric alphabet: the digits `'0'..='9'`
/// (bytes 0x30 to 0x39) are 0 to 9, the letters `'A'..='Z'` (0x41 to 0x5A)
/// are 10 to 35, the space (0x20) is 36. No other byte has a value.
pub open spec fn num_str_value(c: u8) -> Option<int> {
    if 0x30 <= c <= 0x39 {
        Some(c - 0x30)
    } else if 0x41 <= c <= 0x5A {
        Some(c - 0x41 + 10)
    } else if c == 0x20 {
        Some(36)
    } else {
        None
    }
}

/// Value of a byte in the locator alphabet: the letters `'A'..='R'` (bytes
/// 0x41 to 0x52) are 0 to 17. No other byte has a value.
pub open spec fn locator_char_value(c: u8) -> Option<int> {
    if 0x41 <= c <= 0x52 {
        Some(c - 0x41)
    } else {
        None
    }
}

/// Encodes a byte that may be a digit, an upper-case letter or a space.
pub fn encode_num_str(c: u8) -> (r: Result<u64, EncodeError>)
    ensures
        match num_str_value(c) {
            Some(v) => r == Ok::<u64, EncodeError>(v as u64) && 0 <= v <= 36,
            None => r == Err::<u64, EncodeError>(EncodeError::InvalidChar(c)),
        },
{
    match c {
        0x30..=0x39 => Ok((c - 0x30) as u64),
        0x41..=0x5A => Ok((c - 0x41 + 10) as u64),
        0x20 => Ok(36),
        _ => Err(EncodeError::InvalidChar(c)),
    }
}

/// Encodes a byte that must be one of the letters `A` to `R`.
pub fn encode_locator_char(c: u8) -> (r: Result<u32, EncodeError>)
    ensures
        match locator_char_value(c) {
            Some(v) => r == Ok::<u32, EncodeError>(v as u32) && 0 <= v <= 17,
            None => r == Err::<u32, EncodeError>(EncodeError::InvalidChar(c)),
        },
{
    match c {
        0x41..=0x52 => Ok((c - 0x41) as u32),
        _ => Err(EncodeError::InvalidChar(c)),
    }
}

} // verus!
