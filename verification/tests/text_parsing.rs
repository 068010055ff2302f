use tx_spammer::numtext::{chars_of, decimal_text, parse_unsigned_text, trim_hex_prefixes, IntErrorKind};

fn kind_of(e: &std::num::ParseIntError) -> IntErrorKind {
    match e.kind() {
        std::num::IntErrorKind::Empty => IntErrorKind::Empty,
        std::num::IntErrorKind::InvalidDigit => IntErrorKind::InvalidDigit,
        std::num::IntErrorKind::PosOverflow => IntErrorKind::PosOverflow,
        other => panic!("unexpected kind {other:?}"),
    }
}

const SAMPLES: &[&str] = &[
    "", "0", "7", "42", "+42", "+", "-", "-1", "00012", " 1", "1 ", "12a", "a12", "ff", "FF", "0x10",
    "18446744073709551615", "18446744073709551616", "99999999999999999999x", "9x9999999999999999999999",
    "+18446744073709551615", "٣", "1_000", "340282366920938463463374607431768211455",
    "340282366920938463463374607431768211456", "ffffffffffffffffffffffffffffffff",
    "100000000000000000000000000000000", "fffffffffffffffffffffffffffffffffz", "DeadBeef", "g",
];

#[test]
fn decimal_u64_reading_matches_std() {
    for s in SAMPLES {
        let ours = parse_unsigned_text(s, 10, u64::MAX as u128);
        let std = s.parse::<u64>();
        match std {
            Ok(v) => assert_eq!(ours, Ok(v as u128), "text {s:?}"),
            Err(e) => assert_eq!(ours, Err(kind_of(&e)), "text {s:?}"),
        }
    }
}

#[test]
fn hex_u128_reading_matches_std() {
    for s in SAMPLES {
        let ours = parse_unsigned_text(s, 16, u128::MAX);
        let std = u128::from_str_radix(s, 16);
        match std {
            Ok(v) => assert_eq!(ours, Ok(v), "text {s:?}"),
            Err(e) => assert_eq!(ours, Err(kind_of(&e)), "text {s:?}"),
        }
    }
}

#[test]
fn reading_errors_in_order() {
    assert_eq!(parse_unsigned_text("", 10, u64::MAX as u128), Err(IntErrorKind::Empty));
    assert_eq!(parse_unsigned_text("-", 10, u64::MAX as u128), Err(IntErrorKind::InvalidDigit));
    assert_eq!(parse_unsigned_text("+", 10, u64::MAX as u128), Err(IntErrorKind::InvalidDigit));
    assert_eq!(parse_unsigned_text("-5", 10, u64::MAX as u128), Err(IntErrorKind::InvalidDigit));
    // the overflow comes before the bad digit, so it is reported
    assert_eq!(parse_unsigned_text("184467440737095516160x", 10, u64::MAX as u128), Err(IntErrorKind::PosOverflow));
    // the bad digit comes first
    assert_eq!(parse_unsigned_text("1x84467440737095516160", 10, u64::MAX as u128), Err(IntErrorKind::InvalidDigit));
    assert_eq!(parse_unsigned_text("+0042", 10, u64::MAX as u128), Ok(42));
}

#[test]
fn decimal_text_writes_digits() {
    assert_eq!(decimal_text(0), b"0".to_vec());
    assert_eq!(decimal_text(7), b"7".to_vec());
    assert_eq!(decimal_text(10), b"10".to_vec());
    assert_eq!(decimal_text(12345), b"12345".to_vec());
    assert_eq!(decimal_text(u64::MAX), b"18446744073709551615".to_vec());
}

#[test]
fn decimal_text_reads_back_as_the_number() {
    for n in [0u64, 1, 9, 10, 99, 100, 167011, 10_000, u64::MAX - 1, u64::MAX] {
        let text = String::from_utf8(decimal_text(n)).unwrap();
        assert_eq!(parse_unsigned_text(&text, 10, u64::MAX as u128), Ok(n as u128));
        assert_eq!(text, n.to_string());
    }
}

#[test]
fn hex_prefixes_are_all_trimmed() {
    assert_eq!(trim_hex_prefixes("0x1f"), "1f");
    assert_eq!(trim_hex_prefixes("0x0x1f"), "1f");
    assert_eq!(trim_hex_prefixes("0X1f"), "0X1f");
    assert_eq!(trim_hex_prefixes("00x1f"), "00x1f");
    assert_eq!(trim_hex_prefixes("0x"), "");
    assert_eq!(trim_hex_prefixes(""), "");
    for s in ["0x0x", "x0x", "0xé1", "abc"] {
        assert_eq!(trim_hex_prefixes(s), s.trim_start_matches("0x"));
    }
}

#[test]
fn chars_of_keeps_every_character() {
    assert_eq!(chars_of("aé€"), vec!['a', 'é', '€']);
    assert_eq!(chars_of(""), Vec::<char>::new());
}
