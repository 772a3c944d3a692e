//! Hexadecimal decoding, done by the `hex` crate.
use vstd::prelude::*;

verus! {

/// Why a hex string did not decode (the variants of `hex::FromHexError`).
#[derive(Clone, Copy, Debug, PartialEq, Eq, Structural)]
pub enum HexError {
    /// A byte that is not a hex digit, and its index in the input.
    InvalidHexCharacter { c: char, index: usize },
    /// The input has an odd number of bytes.
    OddLength,
    /// The output buffer has the wrong length (not produced by `decode`).
    InvalidStringLength,
}

/// The value of one hex digit, upper or lower case.
pub open spec fn hex_digit_value(c: u8) -> Option<u8> {
    if 0x30 <= c <= 0x39 {
        Some((c - 0x30) as u8)
    } else if 0x41 <= c <= 0x46 {
        Some((c - 0x41 + 10) as u8)
    } else if 0x61 <= c <= 0x66 {
        Some((c - 0x61 + 10) as u8)
    } else {
        None
    }
}

/// The index of the first byte at or after `from` that is not a hex digit.
pub open spec fn first_non_hex(s: Seq<u8>, from: nat) -> Option<nat>
    decreases s.len() - from,
{
    if from >= s.len() {
        None
    } else if hex_digit_value(s[from as int]) is None {
        Some(from)
    } else {
        first_non_hex(s, from + 1)
    }
}

/// The byte that the two hex digits at `2 * i` and `2 * i + 1` stand for.
pub open spec fn hex_pair_value(s: Seq<u8>, i: int) -> u8 {
    (hex_digit_value(s[2 * i]).unwrap() * 16 + hex_digit_value(s[2 * i + 1]).unwrap()) as u8
}

/// What `hex::decode` gives for the bytes `s`: an odd length is refused
/// first, then the first byte that is not a hex digit; otherwise each pair
/// of digits becomes one byte, high digit first.
pub open spec fn hex_decode_spec(s: Seq<u8>) -> Result<Seq<u8>, HexError> {
    if s.len() % 2 != 0 {
        Err(HexError::OddLength)
    } else {
        match first_non_hex(s, 0) {
            Some(i) => Err(HexError::InvalidHexCharacter { c: s[i as int] as char, index: i as usize }),
            None => Ok(Seq::new(s.len() / 2, |i: int| hex_pair_value(s, i))),
        }
    }
}

/// Calls `hex::decode`. Claims that the result is `hex_decode_spec` of the
/// input: `Ok` with the decoded bytes exactly when the length is even and
/// every byte is a hex digit, otherwise the error for the odd length or for
/// the first offending byte, as `hex`'s source shows.
#[verifier::external_body]
pub(crate) fn hex_decode(data: &[u8]) -> (r: Result<Vec<u8>, HexError>)
    ensures
        match hex_decode_spec(data@) {
            Ok(b) => r matches Ok(v) && v@ == b,
            Err(e) => r == Err::<Vec<u8>, HexError>(e),
        },
{
    match hex::decode(data) {
        Ok(v) => Ok(v),
        Err(hex::FromHexError::InvalidHexCharacter { c, index }) => Err(
            HexError::InvalidHexCharacter { c, index },
        ),
        Err(hex::FromHexError::OddLength) => Err(HexError::OddLength),
        Err(hex::FromHexError::InvalidStringLength) => Err(HexError::InvalidStringLength),
    }
}

} // verus!
