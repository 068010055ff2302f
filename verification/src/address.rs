//! Account addresses: twenty bytes, read from hexadecimal text the way
//! alloy's `Address::from_str` reads them.
use vstd::prelude::*;
use std::str::FromStr;
use crate::hexcode::{HexError, first_non_hex, hex_lower, hex_text_reads_back, hex_value};
use vstd::string::StringSliceAdditionalSpecFns;
use crate::numtext::{ascii_chars, digit_in_radix};

verus! {

/// An account or contract address.
#[derive(Clone, Copy, Debug, PartialEq, Eq)]
pub struct EthAddress {
    pub bytes: [u8; 20],
}

/// `s` without one leading `"0x"` or `"0X"`.
pub open spec fn strip_one_hex_prefix(s: Seq<char>) -> Seq<char> {
    if s.len() >= 2 && s[0] == '0' && (s[1] == 'x' || s[1] == 'X') {
        s.skip(2)
    } else {
        s
    }
}

/// Forty hexadecimal digits of either case, after an optional `0x` or `0X`.
pub open spec fn is_address_text(s: Seq<char>) -> bool {
    let digits = strip_one_hex_prefix(s);
    &&& digits.len() == 40
    &&& forall|i: int| 0 <= i < digits.len() ==> (#[trigger] digit_in_radix(digits[i], 16)) is Some
}

/// The twenty bytes that an address text stands for.
pub open spec fn address_value(s: Seq<char>) -> Seq<u8> {
    hex_value(strip_one_hex_prefix(s))
}

/// UTF-8 bytes without one leading `0x` or `0X`.
pub open spec fn strip_one_hex_prefix_bytes(b: Seq<u8>) -> Seq<u8> {
    if b.len() >= 2 && b[0] == 48 && (b[1] == 120 || b[1] == 88) {
        b.skip(2)
    } else {
        b
    }
}

/// The error that reading the UTF-8 bytes `b` as an address meets: an odd
/// length first, then a number of digits other than forty, then the first
/// byte that is no digit (its index counted after the prefix); `None` when
/// there is none.
pub open spec fn address_bytes_error(b: Seq<u8>) -> Option<HexError> {
    let digits = strip_one_hex_prefix_bytes(b);
    if b.len() % 2 != 0 {
        Some(HexError::OddLength)
    } else if digits.len() != 40 {
        Some(HexError::InvalidStringLength)
    } else {
        match first_non_hex(digits) {
            Some(j) => Some(HexError::InvalidHexCharacter { c: digits[j] as char, index: j as usize }),
            None => None,
        }
    }
}

/// Reads an address from its hexadecimal text.
///
/// Calls `alloy::primitives::Address::from_str`. The contract claims what
/// its source shows (`FixedBytes::from_hex`, then `const_hex::decode_to_array`):
/// one leading `0x` or `0X` is skipped, exactly forty hexadecimal digits of
/// either case must remain, with no checksum test, and each pair of digits
/// gives one byte. On failure it reports, in this order, an odd number of
/// bytes, a number of digits other than forty, or the first byte that is no
/// digit, with its index after the prefix.
#[verifier::external_body]
pub(crate) fn address_from_text(s: &str) -> (res: Result<EthAddress, HexError>)
    ensures
        res is Ok <==> is_address_text(s@),
        res matches Ok(a) ==> a.bytes@ == address_value(s@),
        res matches Err(e) ==> address_bytes_error(s.spec_bytes()) == Some(e),
{
    match alloy::primitives::Address::from_str(s) {
        Ok(a) => Ok(EthAddress { bytes: a.0.0 }),
        Err(alloy::hex::FromHexError::InvalidHexCharacter { c, index }) => Err(HexError::InvalidHexCharacter { c, index }),
        Err(alloy::hex::FromHexError::OddLength) => Err(HexError::OddLength),
        Err(alloy::hex::FromHexError::InvalidStringLength) => Err(HexError::InvalidStringLength),
    }
}

/// The `0x`-prefixed lower-case hexadecimal text of an address reads back
/// as the same address.
pub proof fn address_text_reads_back(a: EthAddress)
    ensures
        is_address_text(seq!['0', 'x'] + ascii_chars(hex_lower(a.bytes@))),
        address_value(seq!['0', 'x'] + ascii_chars(hex_lower(a.bytes@))) == a.bytes@,
{
    let digits = ascii_chars(hex_lower(a.bytes@));
    let t = seq!['0', 'x'] + digits;
    hex_text_reads_back(a.bytes@);
    assert(strip_one_hex_prefix(t) =~= digits);
}

} // verus!
