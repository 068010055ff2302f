use tx_spammer::abi::StressOp;
use tx_spammer::address::EthAddress;
use tx_spammer::cli::{parse_address_arg, parse_command, parse_u64_arg, text_equals, CliError, Command};
use tx_spammer::hexcode::HexError;
use tx_spammer::numtext::IntErrorKind;

const A: &str = "0x00000000000000000000000000000000000000aa";
const B: &str = "00000000000000000000000000000000000000bb";

fn a() -> EthAddress {
    let mut bytes = [0u8; 20];
    bytes[19] = 0xaa;
    EthAddress { bytes }
}

fn b() -> EthAddress {
    let mut bytes = [0u8; 20];
    bytes[19] = 0xbb;
    EthAddress { bytes }
}

fn args(items: &[&str]) -> Vec<String> {
    items.iter().map(|s| s.to_string()).collect()
}

fn missing(name: &str) -> CliError {
    CliError::MissingArgument(name.to_string())
}

#[test]
fn parse_u64_arg_reads_decimal() {
    assert_eq!(parse_u64_arg(Some("10000".to_string()), "iters"), Ok(10000));
    assert_eq!(parse_u64_arg(Some("+7".to_string()), "iters"), Ok(7));
    assert_eq!(parse_u64_arg(None, "iters"), Err(missing("iters")));
    assert_eq!(parse_u64_arg(Some("".to_string()), "iters"), Err(CliError::InvalidInteger(IntErrorKind::Empty)));
    assert_eq!(parse_u64_arg(Some("-1".to_string()), "iters"), Err(CliError::InvalidInteger(IntErrorKind::InvalidDigit)));
    assert_eq!(
        parse_u64_arg(Some("18446744073709551616".to_string()), "iters"),
        Err(CliError::InvalidInteger(IntErrorKind::PosOverflow))
    );
}

#[test]
fn parse_address_arg_reads_hex() {
    assert_eq!(parse_address_arg(Some(A.to_string()), "token_address"), Ok(a()));
    assert_eq!(parse_address_arg(None, "token_address"), Err(missing("token_address")));
    assert_eq!(
        parse_address_arg(Some("0x12".to_string()), "token_address"),
        Err(CliError::InvalidAddress(HexError::InvalidStringLength))
    );
}

#[test]
fn simple_commands() {
    assert_eq!(parse_command(&args(&["deploy"])), Ok(Command::Deploy));
    assert_eq!(parse_command(&args(&["deploy", "extra"])), Ok(Command::Deploy));
    assert_eq!(parse_command(&args(&["deploy-zkgas-stress"])), Ok(Command::DeployZkgasStress));
    assert_eq!(parse_command(&args(&["block", "42"])), Ok(Command::Block { number: 42 }));
    assert_eq!(parse_command(&args(&["balance", A, B])), Ok(Command::Balance { token: a(), owner: b() }));
}

#[test]
fn spam_commands() {
    assert_eq!(
        parse_command(&args(&["spam", A, "50"])),
        Ok(Command::Spam { token: a(), tps: "50".to_string() })
    );
    assert_eq!(
        parse_command(&args(&["spam-keccak", B, "10000", "25"])),
        Ok(Command::Stress { op: StressOp::Keccak, stress: b(), iters: 10000, tps: "25".to_string() })
    );
    let names = [
        ("spam-add", StressOp::Add),
        ("spam-mulmod", StressOp::Mulmod),
        ("spam-keccak", StressOp::Keccak),
        ("spam-ecrecover", StressOp::Ecrecover),
        ("spam-blake2f", StressOp::Blake2f),
        ("spam-modexp", StressOp::Modexp),
    ];
    for (name, op) in names {
        assert_eq!(
            parse_command(&args(&[name, A, "1", "2.5"])),
            Ok(Command::Stress { op, stress: a(), iters: 1, tps: "2.5".to_string() })
        );
    }
}

#[test]
fn missing_and_unknown_commands() {
    assert_eq!(parse_command(&vec![]), Err(CliError::MissingCommand));
    assert_eq!(parse_command(&args(&["spam-batch", A, "5"])), Err(CliError::UnknownCommand("spam-batch".to_string())));
    assert_eq!(parse_command(&args(&["Deploy"])), Err(CliError::UnknownCommand("Deploy".to_string())));
}

#[test]
fn first_bad_argument_decides() {
    assert_eq!(parse_command(&args(&["spam"])), Err(missing("token_address")));
    assert_eq!(parse_command(&args(&["spam", A])), Err(missing("tps")));
    assert!(matches!(parse_command(&args(&["spam", "xyz"])), Err(CliError::InvalidAddress(_))));
    assert_eq!(parse_command(&args(&["spam-add"])), Err(missing("stress_address")));
    assert_eq!(parse_command(&args(&["spam-add", A])), Err(missing("iters")));
    assert_eq!(
        parse_command(&args(&["spam-add", A, "ten", "5"])),
        Err(CliError::InvalidInteger(IntErrorKind::InvalidDigit))
    );
    assert_eq!(parse_command(&args(&["spam-add", A, "10"])), Err(missing("tps")));
    assert_eq!(parse_command(&args(&["balance", A])), Err(missing("owner_address")));
    assert_eq!(parse_command(&args(&["block"])), Err(missing("block_number")));
    assert_eq!(parse_command(&args(&["block", ""])), Err(CliError::InvalidInteger(IntErrorKind::Empty)));
}

#[test]
fn text_equality() {
    assert!(text_equals("spam", "spam"));
    assert!(!text_equals("spam", "spam-add"));
    assert!(!text_equals("", "x"));
    assert!(text_equals("", ""));
}
