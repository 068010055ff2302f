//! The signing key: it must be given, and it must be a valid private key,
//! whose account address the transactions are sent from.
use vstd::prelude::*;
use std::str::FromStr;
use crate::address::{strip_one_hex_prefix, EthAddress};
use crate::numtext::digit_in_radix;
use crate::hexcode::hex_value;

verus! {

/// The declaration of `alloy::signers::local::LocalSignerError`, the error
/// of a refused private key.
#[verifier::external_type_specification]
#[verifier::external_body]
pub struct ExLocalSignerError(alloy::signers::local::LocalSignerError);

/// The account address of a private key given as hexadecimal text; `None`
/// when alloy refuses the text as a key.
pub uninterp spec fn key_address(key: Seq<char>) -> Option<Seq<u8>>;

/// Sixty-four hexadecimal digits of either case, after an optional `0x` or
/// `0X`: the only texts that can be keys.
pub open spec fn is_key_text(s: Seq<char>) -> bool {
    let digits = strip_one_hex_prefix(s);
    &&& digits.len() == 64
    &&& forall|i: int| 0 <= i < digits.len() ==> (#[trigger] digit_in_radix(digits[i], 16)) is Some
}

/// The order of the secp256k1 group: valid secret scalars lie strictly
/// between zero and it.
pub open spec fn secp256k1_order() -> nat {
    0xFFFFFFFFFFFFFFFFFFFFFFFFFFFFFFFEBAAEDCE6AF48A03BBFD25E8CD0364141nat
}

/// The value of bytes read as a big-endian unsigned integer.
pub open spec fn be_value(b: Seq<u8>) -> nat
    decreases b.len(),
{
    if b.len() == 0 {
        0
    } else {
        be_value(b.drop_last()) * 256 + (b.last() as nat)
    }
}

/// A key text that alloy accepts: sixty-four hexadecimal digits (after an
/// optional `0x` or `0X`) whose big-endian value is a non-zero scalar below
/// the group order.
pub open spec fn is_valid_key(s: Seq<char>) -> bool {
    &&& is_key_text(s)
    &&& 0 < be_value(hex_value(strip_one_hex_prefix(s)))
    &&& be_value(hex_value(strip_one_hex_prefix(s))) < secp256k1_order()
}

/// Why no sender could be had.
#[derive(Debug)]
pub enum KeyError {
    /// No private key was given.
    MissingKey,
    /// The private key was refused.
    InvalidKey(alloy::signers::local::LocalSignerError),
}

/// The account address of the private key `key`.
///
/// Calls `PrivateKeySigner::from_str` (hexadecimal text of a 32-byte secp256k1
/// scalar, read by `const_hex::decode_to_array`) and then the signer's
/// `address()`. The contract claims that the key is accepted exactly when
/// sixty-four hexadecimal digits follow an optional `0x` or `0X` and their
/// big-endian value lies in `[1, n - 1]` for the secp256k1 order `n`
/// (`decode_to_array::<_, 32>`, then `SecretKey::from_bytes`, which refuses
/// zero and values not below the order), and that the address is a function
/// of the text, named `key_address`, with `None` there exactly when the key
/// is refused.
#[verifier::external_body]
fn signer_address(key: &str) -> (res: Result<EthAddress, alloy::signers::local::LocalSignerError>)
    ensures
        match res {
            Ok(a) => key_address(key@) == Some(a.bytes@),
            Err(_) => key_address(key@) is None,
        },
        res is Ok <==> is_valid_key(key@),
{
    match alloy::signers::local::PrivateKeySigner::from_str(key) {
        Ok(signer) => Ok(EthAddress { bytes: signer.address().0.0 }),
        Err(e) => Err(e),
    }
}

/// The sender's address from the private key, if one is given.
pub fn signer_and_from(private_key: Option<String>) -> (res: Result<EthAddress, KeyError>)
    ensures
        match private_key {
            None => res matches Err(KeyError::MissingKey),
            Some(k) => match key_address(k@) {
                Some(a) => res matches Ok(r) && r.bytes@ == a,
                None => res matches Err(KeyError::InvalidKey(_)),
            },
        },
        res is Ok <==> (private_key matches Some(k) && is_valid_key(k@)),
{
    match private_key {
        None => Err(KeyError::MissingKey),
        Some(k) => match signer_address(k.as_str()) {
            Ok(a) => Ok(a),
            Err(e) => Err(KeyError::InvalidKey(e)),
        },
    }
}

} // verus!
