//! Hexadecimal text of byte strings, as the `hex` crate writes and reads it.
use vstd::prelude::*;
use crate::numtext::{ascii_chars, digit_in_radix};
use vstd::string::StringSliceAdditionalSpecFns;

verus! {

/// Why a text could not be read as hexadecimal bytes.
#[derive(Clone, Copy, Debug, PartialEq, Eq)]
pub enum HexError {
    /// A character that is no hexadecimal digit, and where it stands.
    InvalidHexCharacter { c: char, index: usize },
    /// An odd number of digits.
    OddLength,
    /// A number of digits that does not fit the fixed size asked for.
    InvalidStringLength,
}

/// The lower-case hexadecimal digit of `v` (below 16), as an ASCII byte.
pub open spec fn hex_digit_lower(v: int) -> u8 {
    if v < 10 {
        (v + 48) as u8
    } else {
        (v + 87) as u8
    }
}

/// Two lower-case hexadecimal digits per byte, high nibble first.
pub open spec fn hex_lower(b: Seq<u8>) -> Seq<u8> {
    Seq::new(
        2 * b.len(),
        |i: int|
            if i % 2 == 0 {
                hex_digit_lower((b[i / 2] / 16) as int)
            } else {
                hex_digit_lower((b[i / 2] % 16) as int)
            },
    )
}

/// An even number of characters, each a hexadecimal digit in either case.
pub open spec fn is_hex_text(s: Seq<char>) -> bool {
    &&& s.len() % 2 == 0
    &&& forall|i: int| 0 <= i < s.len() ==> (#[trigger] digit_in_radix(s[i], 16)) is Some
}

/// The value of the hexadecimal digit `c`.
pub open spec fn hex_digit_value(c: char) -> int {
    match digit_in_radix(c, 16) {
        Some(d) => d as int,
        None => 0,
    }
}

/// The bytes that a hexadecimal text stands for, two digits per byte.
pub open spec fn hex_value(s: Seq<char>) -> Seq<u8> {
    Seq::new(
        s.len() / 2,
        |i: int| (hex_digit_value(s[2 * i]) * 16 + hex_digit_value(s[2 * i + 1])) as u8,
    )
}

/// A byte that is a hexadecimal digit in either case.
pub open spec fn is_hex_byte(b: u8) -> bool {
    (48 <= b && b <= 57) || (97 <= b && b <= 102) || (65 <= b && b <= 70)
}

/// The index of the first byte that is no hexadecimal digit.
pub open spec fn first_non_hex(b: Seq<u8>) -> Option<int>
    decreases b.len(),
{
    if b.len() == 0 {
        None
    } else if !is_hex_byte(b[0]) {
        Some(0)
    } else {
        match first_non_hex(b.drop_first()) {
            Some(j) => Some(j + 1),
            None => None,
        }
    }
}

/// The error that reading the UTF-8 bytes `b` as hexadecimal meets: an odd
/// length first, then the first byte that is no digit (reported as the
/// character of that byte's value); `None` when there is none.
pub open spec fn hex_bytes_error(b: Seq<u8>) -> Option<HexError> {
    if b.len() % 2 != 0 {
        Some(HexError::OddLength)
    } else {
        match first_non_hex(b) {
            Some(j) => Some(HexError::InvalidHexCharacter { c: b[j] as char, index: j as usize }),
            None => None,
        }
    }
}

/// Lower-case hexadecimal text of `data`.
///
/// Calls `hex::encode`; the contract claims that it writes two lower-case
/// digits per byte, high nibble first, which its source shows (a table
/// lookup of each nibble in `0123456789abcdef`).
#[verifier::external_body]
pub(crate) fn hex_encode(data: &[u8]) -> (text: Vec<u8>)
    ensures
        text@ == hex_lower(data@),
{
    hex::encode(data).into_bytes()
}

/// The bytes that the hexadecimal text `s` stands for.
///
/// Calls `hex::decode`; the contract claims that it succeeds exactly on an
/// even number of hexadecimal digits of either case, and then gives one byte
/// per pair of digits, as its source shows; on failure, an odd number of
/// bytes is reported first, else the first byte that is no digit, with its
/// index among the UTF-8 bytes.
#[verifier::external_body]
pub(crate) fn hex_decode(s: &str) -> (res: Result<Vec<u8>, HexError>)
    ensures
        res is Ok <==> is_hex_text(s@),
        res matches Ok(b) ==> b@ == hex_value(s@),
        res matches Err(e) ==> hex_bytes_error(s.spec_bytes()) == Some(e),
{
    match hex::decode(s) {
        Ok(b) => Ok(b),
        Err(hex::FromHexError::InvalidHexCharacter { c, index }) => Err(HexError::InvalidHexCharacter { c, index }),
        Err(hex::FromHexError::OddLength) => Err(HexError::OddLength),
        Err(hex::FromHexError::InvalidStringLength) => Err(HexError::InvalidStringLength),
    }
}

/// `0x` and the lower-case hexadecimal text of `data`, the form in which a
/// signed transaction travels.
pub fn prefixed_hex(data: &[u8]) -> (text: Vec<u8>)
    ensures
        text@ == seq!['0' as u8, 'x' as u8] + hex_lower(data@),
{
    let mut text: Vec<u8> = Vec::new();
    text.push('0' as u8);
    text.push('x' as u8);
    let digits = hex_encode(data);
    crate::numtext::append_bytes(&mut text, digits.as_slice());
    assert(text@ =~= seq!['0' as u8, 'x' as u8] + hex_lower(data@));
    text
}

proof fn lemma_hex_digit_round(v: int)
    requires
        0 <= v < 16,
    ensures
        digit_in_radix(hex_digit_lower(v) as char, 16) == Some(v as nat),
        hex_digit_value(hex_digit_lower(v) as char) == v,
{
    let c = hex_digit_lower(v) as char;
    if v < 10 {
        assert(c as nat == v + 48);
    } else {
        assert(c as nat == v + 87);
    }
}

/// Reading back the lower-case hexadecimal text of any bytes gives the
/// bytes again.
pub proof fn hex_text_reads_back(b: Seq<u8>)
    ensures
        is_hex_text(ascii_chars(hex_lower(b))),
        hex_value(ascii_chars(hex_lower(b))) == b,
{
    let s = ascii_chars(hex_lower(b));
    assert forall|i: int| 0 <= i < s.len() implies (#[trigger] digit_in_radix(s[i], 16)) is Some by {
        if i % 2 == 0 {
            lemma_hex_digit_round((b[i / 2] / 16) as int);
        } else {
            lemma_hex_digit_round((b[i / 2] % 16) as int);
        }
    }
    assert forall|i: int| 0 <= i < b.len() implies #[trigger] hex_value(s)[i] == b[i] by {
        assert((2 * i) / 2 == i);
        assert((2 * i + 1) / 2 == i);
        assert((2 * i) % 2 == 0);
        assert((2 * i + 1) % 2 == 1);
        lemma_hex_digit_round((b[i] / 16) as int);
        lemma_hex_digit_round((b[i] % 16) as int);
        assert((b[i] / 16) * 16 + b[i] % 16 == b[i]);
    }
    assert(hex_value(s) =~= b);
}

} // verus!
