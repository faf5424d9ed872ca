//! Hexadecimal text, as meta files, artifacts and deployer keys carry it.

use vstd::prelude::*;

verus! {

/// Why a string is not hexadecimal text.
#[derive(Clone, Copy, Debug, PartialEq, Eq, Structural)]
pub enum HexError {
    /// A byte that is no hex digit, and where it stands behind the prefix.
    InvalidHexCharacter { c: char, index: usize },
    /// An odd number of bytes.
    OddLength,
    /// A length that the container decoded into does not have.
    InvalidStringLength,
}

/// The value of a hex digit, upper or lower case.
pub open spec fn hex_value(b: u8) -> Option<u8> {
    if 48 <= b <= 57 {
        Some((b - 48) as u8)
    } else if 65 <= b <= 70 {
        Some((b - 55) as u8)
    } else if 97 <= b <= 102 {
        Some((b - 87) as u8)
    } else {
        None
    }
}

/// The input without a leading `0x` or `0X`.
pub open spec fn strip_hex_prefix(s: Seq<u8>) -> Seq<u8> {
    if s.len() >= 2 && s[0] == 48 && (s[1] == 120 || s[1] == 88) {
        s.subrange(2, s.len() as int)
    } else {
        s
    }
}

/// The position of the first byte that is no hex digit.
pub open spec fn first_non_hex(s: Seq<u8>) -> Option<int>
    decreases s.len(),
{
    if s.len() == 0 {
        None
    } else if hex_value(s[0]) is None {
        Some(0)
    } else {
        match first_non_hex(s.drop_first()) {
            Some(i) => Some(i + 1),
            None => None,
        }
    }
}

/// The bytes that pairs of hex digits spell, high digit first.
pub open spec fn hex_bytes(digits: Seq<u8>) -> Seq<u8> {
    Seq::new(
        digits.len() / 2,
        |i: int| (hex_value(digits[2 * i])->0 * 16 + hex_value(digits[2 * i + 1])->0) as u8,
    )
}

/// What hexadecimal text decodes to. A string of odd length is refused as it
/// stands; then an optional prefix is dropped, and the rest must be hex digits.
pub open spec fn hex_decode(s: Seq<u8>) -> Result<Seq<u8>, HexError> {
    if s.len() % 2 != 0 {
        Err(HexError::OddLength)
    } else {
        let digits = strip_hex_prefix(s);
        match first_non_hex(digits) {
            Some(i) => Err(HexError::InvalidHexCharacter { c: digits[i] as char, index: i as usize }),
            None => Ok(hex_bytes(digits)),
        }
    }
}

/// Calls `alloy_primitives::hex::decode`, which is `const_hex::decode`. The
/// contract claims that it computes `hex_decode`: it refuses an odd length
/// before it strips the prefix, reports the first byte that is no hex digit by
/// its position behind the prefix, and otherwise returns one byte per pair of
/// digits.
#[verifier::external_body]
pub(crate) fn decode_hex(input: &[u8]) -> (r: Result<Vec<u8>, HexError>)
    ensures
        match r {
            Ok(bytes) => hex_decode(input@) == Ok::<Seq<u8>, HexError>(bytes@),
            Err(e) => hex_decode(input@) == Err::<Seq<u8>, HexError>(e),
        },
{
    match alloy_primitives::hex::decode(input) {
        Ok(bytes) => Ok(bytes),
        Err(alloy_primitives::hex::FromHexError::InvalidHexCharacter { c, index }) => Err(
            HexError::InvalidHexCharacter { c, index },
        ),
        Err(alloy_primitives::hex::FromHexError::OddLength) => Err(HexError::OddLength),
        Err(alloy_primitives::hex::FromHexError::InvalidStringLength) => Err(
            HexError::InvalidStringLength,
        ),
    }
}

} // verus!
