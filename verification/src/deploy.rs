//! Deployment payloads: the creation bytecode of a compiled artifact, and
//! for the token its constructor arguments after it.
use vstd::prelude::*;
use vstd::string::StringSliceAdditionalSpecFns;
use alloy::dyn_abi::DynSolValue;
use alloy::primitives::U256;
use crate::abi::u64_word;
use crate::hexcode::{hex_bytes_error, hex_decode, hex_value, is_hex_text, HexError};
use vstd::utf8::encode_utf8;
use crate::numtext::{append_bytes, digit_in_radix, strip_hex_prefixes, trim_hex_prefixes};

verus! {

/// The token's name.
pub const TOKEN_NAME: &'static str = "MyToken";
/// The token's symbol.
pub const TOKEN_SYMBOL: &'static str = "MTK";
/// The token's initial supply.
pub const TOKEN_SUPPLY: u64 = 2_000_000_000;

/// Why no deployment payload could be made from an artifact.
#[derive(Clone, Copy, Debug, PartialEq, Eq)]
pub enum DeployError {
    /// The artifact has no string at `bytecode.object`.
    MissingBytecode,
    /// The bytecode is no hexadecimal text.
    InvalidBytecode(HexError),
}

/// Zero bytes that pad `len` bytes up to a whole number of words.
pub open spec fn word_padding(len: nat) -> Seq<u8> {
    Seq::new(((32 - len % 32) % 32) as nat, |i: int| 0u8)
}

/// A dynamic byte string in the tail of an encoding: its length word, then
/// its bytes padded to whole words.
pub open spec fn packed_tail(b: Seq<u8>) -> Seq<u8> {
    u64_word(b.len() as u64) + b + word_padding(b.len())
}

/// The parameters `(string, string, uint256)` encoded as a tuple: three head
/// words (two offsets and the number), then the two strings.
pub open spec fn string_string_uint_params(a: Seq<u8>, b: Seq<u8>, v: u64) -> Seq<u8> {
    let tail_a = packed_tail(a);
    u64_word(96) + u64_word((96 + tail_a.len()) as u64) + u64_word(v) + tail_a + packed_tail(b)
}

/// The ABI encoding of the parameters `(name, symbol, supply)`.
///
/// Calls `DynSolValue::abi_encode_params` on a tuple of two
/// `DynSolValue::String`s and a 256-bit `DynSolValue::Uint`. The contract
/// claims the layout that alloy's encoder writes (`encode_seq_to`,
/// `append_indirection`, `append_packed_seq`): one head word per parameter,
/// the strings as offsets counted from the start of the tuple, and each
/// string's tail as its byte length and its UTF-8 bytes zero-padded to whole
/// words.
#[verifier::external_body]
fn string_string_uint_encoding(name: &str, symbol: &str, supply: u64) -> (out: Vec<u8>)
    ensures
        out@ == string_string_uint_params(name.spec_bytes(), symbol.spec_bytes(), supply),
{
    DynSolValue::Tuple(vec![
        DynSolValue::String(name.to_string()),
        DynSolValue::String(symbol.to_string()),
        DynSolValue::Uint(U256::from(supply), 256),
    ]).abi_encode_params()
}

/// An optional string seen as its characters.
pub open spec fn opt_text(o: Option<String>) -> Option<Seq<char>> {
    match o {
        Some(s) => Some(s@),
        None => None,
    }
}

/// The encoded constructor arguments of the token.
pub open spec fn token_constructor_args() -> Seq<u8> {
    string_string_uint_params(TOKEN_NAME.spec_bytes(), TOKEN_SYMBOL.spec_bytes(), TOKEN_SUPPLY)
}

/// The creation bytecode of an artifact's `bytecode.object` text: leading
/// `0x`s are dropped and the rest is read as hexadecimal.
pub open spec fn bytecode_spec(object: Option<Seq<char>>) -> Result<Seq<u8>, DeployError> {
    match object {
        None => Err(DeployError::MissingBytecode),
        Some(s) => {
            let digits = strip_hex_prefixes(s);
            if is_hex_text(digits) {
                Ok(hex_value(digits))
            } else {
                Err(DeployError::InvalidBytecode(hex_bytes_error(encode_utf8(digits))->0))
            }
        },
    }
}

/// Bytecode of any length is read: whenever the text after its leading
/// `0x`s is an even number of hexadecimal digits, the bytecode is one byte
/// per pair of digits, high digit first, with no limit on its size.
pub proof fn any_hex_bytecode_is_read(object: Seq<char>)
    requires
        strip_hex_prefixes(object).len() % 2 == 0,
        forall|i: int| 0 <= i < strip_hex_prefixes(object).len()
            ==> (#[trigger] digit_in_radix(strip_hex_prefixes(object)[i], 16)) is Some,
    ensures
        bytecode_spec(Some(object)) matches Ok(code) && {
            let d = strip_hex_prefixes(object);
            &&& code.len() * 2 == d.len()
            &&& forall|i: int| 0 <= i < code.len() ==> #[trigger] code[i] as nat
                == digit_in_radix(d[2 * i], 16)->0 * 16 + digit_in_radix(d[2 * i + 1], 16)->0
        },
{
    let d = strip_hex_prefixes(object);
    assert(is_hex_text(d));
    let code = hex_value(d);
    assert forall|i: int| 0 <= i < code.len() implies #[trigger] code[i] as nat
        == digit_in_radix(d[2 * i], 16)->0 * 16 + digit_in_radix(d[2 * i + 1], 16)->0 by {
        assert(digit_in_radix(d[2 * i], 16) is Some);
        assert(digit_in_radix(d[2 * i + 1], 16) is Some);
    }
}

/// The creation bytecode of an artifact, from its `bytecode.object` member
/// when that is a string.
pub fn artifact_bytecode(object: Option<String>) -> (res: Result<Vec<u8>, DeployError>)
    ensures
        match bytecode_spec(opt_text(object)) {
            Ok(code) => res matches Ok(c) && c@ == code,
            Err(e) => res == Err::<Vec<u8>, DeployError>(e),
        },
{
    match object {
        None => Err(DeployError::MissingBytecode),
        Some(s) => {
            let digits = trim_hex_prefixes(s.as_str());
            match hex_decode(digits) {
                Ok(code) => Ok(code),
                Err(e) => Err(DeployError::InvalidBytecode(e)),
            }
        },
    }
}

/// The token's deployment payload: its creation bytecode, then its encoded
/// constructor arguments `(TOKEN_NAME, TOKEN_SYMBOL, TOKEN_SUPPLY)`.
pub fn token_deploy_code(object: Option<String>) -> (res: Result<Vec<u8>, DeployError>)
    ensures
        match bytecode_spec(opt_text(object)) {
            Ok(code) => res matches Ok(c) && c@ == code + token_constructor_args(),
            Err(e) => res == Err::<Vec<u8>, DeployError>(e),
        },
{
    let mut code = match artifact_bytecode(object) {
        Ok(c) => c,
        Err(e) => return Err(e),
    };
    let args = string_string_uint_encoding(TOKEN_NAME, TOKEN_SYMBOL, TOKEN_SUPPLY);
    append_bytes(&mut code, args.as_slice());
    Ok(code)
}

/// The declaration of `serde_json::Error`, the error of a text that is no JSON.
#[verifier::external_type_specification]
#[verifier::external_body]
pub struct ExJsonError(serde_json::Error);

/// The string that a JSON text holds at `[outer][inner]`: `None` when the
/// text is no JSON document; otherwise that member if it is a string (the
/// document read as `serde_json` reads it; a missing member or one of
/// another kind gives `Some(None)`).
pub uninterp spec fn json_member_text(text: Seq<char>, outer: Seq<char>, inner: Seq<char>) -> Option<Option<Seq<char>>>;

/// The string member `[outer][inner]` of a JSON text.
///
/// Calls `serde_json::from_str::<serde_json::Value>`, then indexes the value
/// by `outer` and `inner` (a missing member indexes to `Null`) and keeps the
/// result when it is a string. The contract claims only that the outcome is
/// a function of the three texts, named `json_member_text`, with `None`
/// there when the text is refused.
#[verifier::external_body]
fn json_string_member(text: &str, outer: &str, inner: &str) -> (res: Result<Option<String>, serde_json::Error>)
    ensures
        match res {
            Ok(o) => json_member_text(text@, outer@, inner@) == Some(opt_text(o)),
            Err(_) => json_member_text(text@, outer@, inner@) is None,
        },
{
    match serde_json::from_str::<serde_json::Value>(text) {
        Ok(v) => Ok(v[outer][inner].as_str().map(String::from)),
        Err(e) => Err(e),
    }
}

/// Where a compiled artifact keeps its creation bytecode: `bytecode.object`.
pub const ARTIFACT_SECTION: &'static str = "bytecode";
/// See `ARTIFACT_SECTION`.
pub const ARTIFACT_MEMBER: &'static str = "object";

/// What a compiled artifact's text holds at `bytecode.object`.
pub open spec fn artifact_object_of(text: Seq<char>) -> Option<Option<Seq<char>>> {
    json_member_text(text, ARTIFACT_SECTION@, ARTIFACT_MEMBER@)
}

/// Why no deployment payload could be made from an artifact's text.
#[derive(Debug)]
pub enum ArtifactError {
    /// The text is no JSON document.
    NotJson(serde_json::Error),
    /// The document gave no usable bytecode.
    Deploy(DeployError),
}

/// The payload that an artifact's text leads to, with `extra` after the
/// bytecode.
pub open spec fn artifact_outcome(text: Seq<char>, extra: Seq<u8>, res: Result<Vec<u8>, ArtifactError>) -> bool {
    match artifact_object_of(text) {
        None => res matches Err(ArtifactError::NotJson(_)),
        Some(object) => match bytecode_spec(object) {
            Ok(code) => res matches Ok(c) && c@ == code + extra,
            Err(e) => res matches Err(ArtifactError::Deploy(d)) && d == e,
        },
    }
}

/// The `bytecode.object` member read from an artifact's text.
fn artifact_object(text: &str) -> (res: Result<Option<String>, ArtifactError>)
    ensures
        match artifact_object_of(text@) {
            None => res matches Err(ArtifactError::NotJson(_)),
            Some(o) => res matches Ok(r) && opt_text(r) == o,
        },
{
    match json_string_member(text, ARTIFACT_SECTION, ARTIFACT_MEMBER) {
        Ok(o) => Ok(o),
        Err(e) => Err(ArtifactError::NotJson(e)),
    }
}

/// The token's deployment payload from the text of its compiled artifact.
pub fn token_deploy_code_from_artifact(text: &str) -> (res: Result<Vec<u8>, ArtifactError>)
    ensures
        artifact_outcome(text@, token_constructor_args(), res),
{
    let object = match artifact_object(text) {
        Ok(o) => o,
        Err(e) => return Err(e),
    };
    match token_deploy_code(object) {
        Ok(c) => Ok(c),
        Err(e) => Err(ArtifactError::Deploy(e)),
    }
}

/// The stress contract's deployment payload (its bytecode alone) from the
/// text of its compiled artifact.
pub fn stress_deploy_code_from_artifact(text: &str) -> (res: Result<Vec<u8>, ArtifactError>)
    ensures
        artifact_outcome(text@, Seq::empty(), res),
{
    let object = match artifact_object(text) {
        Ok(o) => o,
        Err(e) => return Err(e),
    };
    match artifact_bytecode(object) {
        Ok(c) => {
            assert(c@ + Seq::<u8>::empty() =~= c@);
            Ok(c)
        },
        Err(e) => Err(ArtifactError::Deploy(e)),
    }
}

} // verus!
