use tx_spammer::address::EthAddress;
use tx_spammer::cli::{parse_address_arg, CliError};
use tx_spammer::hexcode::{prefixed_hex, HexError};

fn address_from_text(s: &str) -> Result<EthAddress, HexError> {
    match parse_address_arg(Some(s.to_string()), "address") {
        Ok(a) => Ok(a),
        Err(CliError::InvalidAddress(e)) => Err(e),
        Err(other) => panic!("unexpected {other:?}"),
    }
}

const DIGITS: &str = "dEaDbEeF00112233445566778899aabbccddeeff";

fn expected() -> [u8; 20] {
    [
        0xde, 0xad, 0xbe, 0xef, 0x00, 0x11, 0x22, 0x33, 0x44, 0x55, 0x66, 0x77, 0x88, 0x99, 0xaa, 0xbb, 0xcc,
        0xdd, 0xee, 0xff,
    ]
}

#[test]
fn reads_with_and_without_prefix() {
    assert_eq!(address_from_text(DIGITS), Ok(EthAddress { bytes: expected() }));
    assert_eq!(address_from_text(&format!("0x{DIGITS}")), Ok(EthAddress { bytes: expected() }));
    assert_eq!(address_from_text(&format!("0X{DIGITS}")), Ok(EthAddress { bytes: expected() }));
}

#[test]
fn refuses_wrong_lengths_and_characters() {
    assert_eq!(address_from_text(&DIGITS[..38]), Err(HexError::InvalidStringLength));
    assert_eq!(address_from_text(&DIGITS[..39]), Err(HexError::OddLength));
    assert!(address_from_text(&format!("0x{}zz", &DIGITS[..38])).is_err());
    assert!(address_from_text(&format!("0x0x{}", &DIGITS[..38])).is_err());
    assert!(address_from_text("").is_err());
}

#[test]
fn written_address_reads_back() {
    let a = EthAddress { bytes: expected() };
    let text = String::from_utf8(prefixed_hex(&a.bytes)).unwrap();
    assert_eq!(address_from_text(&text), Ok(a));
}

#[test]
fn error_index_counts_after_prefix() {
    let text = format!("0x{}zz", &DIGITS[..38]);
    assert_eq!(address_from_text(&text), Err(HexError::InvalidHexCharacter { c: 'z', index: 38 }));
    let text = format!("{}é", &DIGITS[..38]);
    assert_eq!(address_from_text(&text), Err(HexError::InvalidHexCharacter { c: '\u{c3}', index: 38 }));
    let text = format!("{}é", &DIGITS[..37]);
    assert_eq!(address_from_text(&text), Err(HexError::OddLength));
}
