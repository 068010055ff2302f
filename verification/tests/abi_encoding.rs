use alloy::dyn_abi::DynSolValue;
use alloy::primitives::{keccak256 as alloy_keccak256, Address, U256};
use tx_spammer::abi::{
    balance_of_calldata, decode_uint256_return, encode_call, function_selector, selector_from_digest, transfer_calldata,
    word_of_u64, AbiArg, AbiDecodeError, StressOp,
};
use tx_spammer::address::EthAddress;

fn addr(byte: u8) -> EthAddress {
    let mut bytes = [0u8; 20];
    for (i, b) in bytes.iter_mut().enumerate() {
        *b = byte.wrapping_add(i as u8);
    }
    EthAddress { bytes }
}

fn reference(signature: &str, params: Vec<DynSolValue>) -> Vec<u8> {
    let mut out = alloy_keccak256(signature.as_bytes())[..4].to_vec();
    out.extend(DynSolValue::Tuple(params).abi_encode_params());
    out
}

#[test]
fn selector_is_first_four_digest_bytes() {
    let mut digest = [0u8; 32];
    for (i, b) in digest.iter_mut().enumerate() {
        *b = i as u8 + 1;
    }
    assert_eq!(selector_from_digest(&digest), vec![1, 2, 3, 4]);
}

#[test]
fn known_selectors() {
    assert_eq!(function_selector("transfer(address,uint256)"), vec![0xa9, 0x05, 0x9c, 0xbb]);
    assert_eq!(function_selector("balanceOf(address)"), vec![0x70, 0xa0, 0x82, 0x31]);
    // keccak256 of the empty input starts with c5d24601
    assert_eq!(function_selector(""), vec![0xc5, 0xd2, 0x46, 0x01]);
}

#[test]
fn words_are_big_endian() {
    let w = word_of_u64(0x0102_0304_0506_0708);
    assert_eq!(w.len(), 32);
    assert_eq!(&w[..24], &[0u8; 24]);
    assert_eq!(&w[24..], &[1, 2, 3, 4, 5, 6, 7, 8]);
    assert_eq!(word_of_u64(0), vec![0u8; 32]);
}

#[test]
fn transfer_matches_reference_encoding() {
    let to = addr(0x10);
    let data = transfer_calldata(to, 1);
    let expected = reference(
        "transfer(address,uint256)",
        vec![DynSolValue::Address(Address::from(to.bytes)), DynSolValue::Uint(U256::from(1u64), 256)],
    );
    assert_eq!(data, expected);
    assert_eq!(data.len(), 68);
    assert_eq!(&data[..4], &[0xa9, 0x05, 0x9c, 0xbb]);
}

#[test]
fn balance_of_matches_reference_encoding() {
    let owner = addr(0xf0);
    let expected = reference("balanceOf(address)", vec![DynSolValue::Address(Address::from(owner.bytes))]);
    assert_eq!(balance_of_calldata(owner), expected);
}

#[test]
fn stress_calls_match_reference_encoding() {
    let ops = [
        (StressOp::Add, "stressAdd"),
        (StressOp::Mulmod, "stressMulmod"),
        (StressOp::Keccak, "stressKeccak"),
        (StressOp::Ecrecover, "stressEcrecover"),
        (StressOp::Blake2f, "stressBlake2f"),
        (StressOp::Modexp, "stressModexp"),
    ];
    for (op, name) in ops {
        let sig = format!("{name}(uint256)");
        assert_eq!(op.signature(), sig);
        assert_eq!(op.function(), name);
        for iters in [0u64, 1, 10_000, u64::MAX] {
            let expected = reference(&sig, vec![DynSolValue::Uint(U256::from(iters), 256)]);
            assert_eq!(op.calldata(iters), expected);
        }
    }
}

#[test]
fn stress_labels() {
    assert_eq!(StressOp::Add.label(10000), b"stressAdd(10000)".to_vec());
    assert_eq!(StressOp::Modexp.label(0), b"stressModexp(0)".to_vec());
    assert_eq!(StressOp::Keccak.label(u64::MAX), format!("stressKeccak({})", u64::MAX).into_bytes());
}

#[test]
fn call_layout_one_word_per_argument() {
    let args = vec![AbiArg::Uint(5), AbiArg::Address(addr(1)), AbiArg::Uint(u64::MAX)];
    let data = encode_call("f(uint256,address,uint256)", &args);
    assert_eq!(data.len(), 4 + 32 * 3);
    assert_eq!(&data[4..36], &word_of_u64(5)[..]);
    assert_eq!(&data[36..48], &[0u8; 12]);
    assert_eq!(&data[48..68], &addr(1).bytes);
    assert_eq!(&data[68..100], &word_of_u64(u64::MAX)[..]);
}

#[test]
fn returned_word_is_read_exactly() {
    let mut word = [0u8; 32];
    word[31] = 7;
    word[0] = 1;
    assert_eq!(decode_uint256_return(&word), Ok(word));
    assert_eq!(decode_uint256_return(&word[..31]), Err(AbiDecodeError::Overrun));
    assert_eq!(decode_uint256_return(&[]), Err(AbiDecodeError::Overrun));
    let mut long = word.to_vec();
    long.push(0);
    assert_eq!(decode_uint256_return(&long), Err(AbiDecodeError::ReserMismatch));
    assert_eq!(U256::from_be_bytes(decode_uint256_return(&word_of_u64(42)).unwrap()), U256::from(42u64));
}
