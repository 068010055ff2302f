use tx_spammer::fees::{quote_fees, read_hex_quantity, FeeError, FeeQuote, FeeReply, ReplyResult, BASE_FEE_FLOOR, DEFAULT_PRIORITY_FEE};

fn block(id: i64, base_fee: Option<&str>) -> FeeReply {
    FeeReply { id: Some(id), result: ReplyResult::Object { base_fee: base_fee.map(String::from) } }
}

fn text(id: i64, s: &str) -> FeeReply {
    FeeReply { id: Some(id), result: ReplyResult::Text(s.to_string()) }
}

#[test]
fn fees_from_both_replies() {
    let q = quote_fees(&vec![block(1, Some("0x3b9aca00")), text(2, "0x77359400")]).unwrap();
    assert_eq!(q, FeeQuote { base_fee: 1_000_000_000, max_fee_per_gas: 4_000_000_000, max_priority_fee_per_gas: 2_000_000_000 });
}

#[test]
fn replies_may_come_in_any_order() {
    let q = quote_fees(&vec![text(2, "0x1"), block(1, Some("0x5f5e100"))]).unwrap();
    assert_eq!(q.base_fee, 100_000_000);
    assert_eq!(q.max_priority_fee_per_gas, 1);
    assert_eq!(q.max_fee_per_gas, 200_000_001);
}

#[test]
fn base_fee_never_below_floor() {
    let q = quote_fees(&vec![block(1, Some("0x1")), text(2, "0x0")]).unwrap();
    assert_eq!(q.base_fee, BASE_FEE_FLOOR);
    assert_eq!(q.max_fee_per_gas, 2 * BASE_FEE_FLOOR);
}

#[test]
fn fallbacks_when_values_are_missing_or_unreadable() {
    let q = quote_fees(&vec![block(1, None)]).unwrap();
    assert_eq!(q.base_fee, BASE_FEE_FLOOR);
    assert_eq!(q.max_priority_fee_per_gas, DEFAULT_PRIORITY_FEE);
    assert_eq!(q.max_fee_per_gas, 2 * BASE_FEE_FLOOR + DEFAULT_PRIORITY_FEE);

    let q = quote_fees(&vec![block(1, Some("latest")), text(2, "")]).unwrap();
    assert_eq!(q.base_fee, BASE_FEE_FLOOR);
    assert_eq!(q.max_priority_fee_per_gas, DEFAULT_PRIORITY_FEE);

    let q = quote_fees(&vec![block(1, Some("0x1")), FeeReply { id: Some(2), result: ReplyResult::Other }]).unwrap();
    assert_eq!(q.max_priority_fee_per_gas, DEFAULT_PRIORITY_FEE);
}

#[test]
fn only_the_first_reply_with_an_id_counts() {
    let q = quote_fees(&vec![block(1, Some("0x2faf080")), text(2, "nonsense"), text(2, "0x5")]).unwrap();
    assert_eq!(q.base_fee, 50_000_000);
    assert_eq!(q.max_priority_fee_per_gas, DEFAULT_PRIORITY_FEE);
    assert_eq!(quote_fees(&vec![text(1, "0x1"), block(1, Some("0x1"))]), Err(FeeError::MissingBlockResult));
}

#[test]
fn missing_block_result() {
    assert_eq!(quote_fees(&vec![]), Err(FeeError::MissingBlockResult));
    assert_eq!(quote_fees(&vec![text(2, "0x1")]), Err(FeeError::MissingBlockResult));
    assert_eq!(
        quote_fees(&vec![FeeReply { id: Some(1), result: ReplyResult::Other }]),
        Err(FeeError::MissingBlockResult)
    );
    assert_eq!(
        quote_fees(&vec![FeeReply { id: None, result: ReplyResult::Object { base_fee: None } }]),
        Err(FeeError::MissingBlockResult)
    );
}

#[test]
fn fee_limit_saturates() {
    let max = format!("0x{:x}", u128::MAX);
    let q = quote_fees(&vec![block(1, Some(&max)), text(2, "0x10")]).unwrap();
    assert_eq!(q.base_fee, u128::MAX);
    assert_eq!(q.max_fee_per_gas, u128::MAX);
    let half = format!("0x{:x}", u128::MAX / 2);
    let q = quote_fees(&vec![block(1, Some(&half)), text(2, "0x10")]).unwrap();
    assert_eq!(q.max_fee_per_gas, u128::MAX);
}

#[test]
fn hex_quantities_read_like_std_after_trimming() {
    for s in ["0x1a", "0x0x1a", "1a", "0X1a", "0x", "", "0x+1", "+1", "0x-1", "0xffffffffffffffffffffffffffffffffff"] {
        let expected = u128::from_str_radix(s.trim_start_matches("0x"), 16).ok();
        assert_eq!(read_hex_quantity(s), expected, "text {s:?}");
    }
}
