use tx_spammer::abi::transfer_calldata;
use tx_spammer::address::EthAddress;
use tx_spammer::fees::FeeQuote;
use tx_spammer::spam::{
    gas_estimate_fields, random_transfer_calldata, tally_replies, BatchEvent, BatchOutcome, SendReply, SpamState,
    Tally, CHAIN_ID, TRANSFER_AMOUNT,
};

fn ok(id: u64) -> SendReply {
    SendReply { id: Some(id), has_error: false }
}

fn err(id: u64) -> SendReply {
    SendReply { id: Some(id), has_error: true }
}

#[test]
fn batch_nonces_are_consecutive() {
    let s = SpamState::new(41);
    assert_eq!(s.batch_nonces(3), vec![41, 42, 43]);
    assert_eq!(s.batch_nonces(0), Vec::<u64>::new());
    assert_eq!(SpamState::new(u64::MAX).batch_nonces(1), vec![u64::MAX]);
}

#[test]
fn tally_counts_and_highest_offset() {
    assert_eq!(tally_replies(&vec![]), Tally { sent: 0, failed: 0, highest_offset: None });
    assert_eq!(
        tally_replies(&vec![ok(1), err(2), ok(3)]),
        Tally { sent: 2, failed: 1, highest_offset: Some(2) }
    );
    assert_eq!(
        tally_replies(&vec![ok(3), ok(1), SendReply { id: None, has_error: false }]),
        Tally { sent: 3, failed: 0, highest_offset: Some(2) }
    );
    assert_eq!(tally_replies(&vec![ok(0)]), Tally { sent: 1, failed: 0, highest_offset: Some(0) });
    assert_eq!(tally_replies(&vec![err(5)]), Tally { sent: 0, failed: 1, highest_offset: None });
}

#[test]
fn accepted_batch_moves_nonce_past_last() {
    let mut s = SpamState::new(100);
    let event = BatchEvent::Replied(vec![ok(1), ok(2), ok(3), ok(4)]);
    assert!(s.can_take(&event));
    let out = s.on_batch(&event);
    assert_eq!(out, BatchOutcome { sent: 4, failed: 0, resync: false, announce_total: false });
    assert_eq!(s, SpamState { nonce: 104, count: 4 });
    assert_eq!(s.batch_nonces(2), vec![104, 105]);
}

#[test]
fn a_failure_asks_for_resync() {
    let mut s = SpamState::new(10);
    let out = s.on_batch(&BatchEvent::Replied(vec![ok(1), err(2), ok(3)]));
    assert_eq!(out, BatchOutcome { sent: 2, failed: 1, resync: true, announce_total: false });
    assert_eq!(s, SpamState { nonce: 13, count: 2 });
    s.on_chain_nonce(11);
    assert_eq!(s, SpamState { nonce: 11, count: 2 });
}

#[test]
fn all_failed_keeps_nonce() {
    let mut s = SpamState::new(7);
    let out = s.on_batch(&BatchEvent::Replied(vec![err(1), err(2)]));
    assert_eq!(out, BatchOutcome { sent: 0, failed: 2, resync: true, announce_total: false });
    assert_eq!(s, SpamState { nonce: 7, count: 0 });
}

#[test]
fn rejected_batch_changes_nothing() {
    let mut s = SpamState { nonce: 5, count: 9 };
    let out = s.on_batch(&BatchEvent::Rejected);
    assert_eq!(out, BatchOutcome { sent: 0, failed: 0, resync: true, announce_total: false });
    assert_eq!(s, SpamState { nonce: 5, count: 9 });
}

#[test]
fn total_is_announced_at_multiples() {
    let mut s = SpamState { nonce: 0, count: 9_998 };
    let out = s.on_batch(&BatchEvent::Replied(vec![ok(1), ok(2)]));
    assert!(out.announce_total);
    assert_eq!(s.count, 10_000);
    let out = s.on_batch(&BatchEvent::Replied(vec![ok(1)]));
    assert!(!out.announce_total);
    let mut z = SpamState::new(0);
    let out = z.on_batch(&BatchEvent::Replied(vec![err(1)]));
    assert!(!out.announce_total);
}

#[test]
fn overflowing_events_are_refused() {
    let s = SpamState { nonce: u64::MAX - 1, count: 0 };
    assert!(s.can_take(&BatchEvent::Replied(vec![ok(1)])));
    assert!(!s.can_take(&BatchEvent::Replied(vec![ok(2)])));
    assert!(!s.can_take(&BatchEvent::Replied(vec![ok(u64::MAX)])));
    assert!(s.can_take(&BatchEvent::Rejected));
    let c = SpamState { nonce: 0, count: u64::MAX };
    assert!(!c.can_take(&BatchEvent::Replied(vec![ok(1)])));
    assert!(c.can_take(&BatchEvent::Replied(vec![err(1)])));
}

#[test]
fn random_transfers_pay_the_recipient() {
    let (to, data) = random_transfer_calldata();
    assert_eq!(data, transfer_calldata(to, TRANSFER_AMOUNT));
    assert_eq!(data.len(), 68);
    assert_eq!(&data[16..36], &to.bytes);
    assert_eq!(data[67], 1);
}

#[test]
fn accepted_nonce_is_never_reused() {
    let mut s = SpamState::new(10);
    s.on_batch(&BatchEvent::Replied(vec![err(1), ok(3), err(2)]));
    assert!(s.nonce >= 10 + 3);
    assert_eq!(s.nonce, 13);
}

#[test]
fn batch_transactions_fill_every_field() {
    let from = EthAddress { bytes: [1u8; 20] };
    let to = EthAddress { bytes: [2u8; 20] };
    let fees = FeeQuote { base_fee: 30, max_fee_per_gas: 70, max_priority_fee_per_gas: 10 };
    let inputs = vec![vec![0xaa], vec![], vec![0xbb, 0xcc]];
    let s = SpamState::new(500);
    let txs = s.batch_transactions(from, to, &inputs, 21_000, &fees);
    assert_eq!(txs.len(), 3);
    for (i, t) in txs.iter().enumerate() {
        assert_eq!(t.from, from);
        assert_eq!(t.to, to);
        assert_eq!(t.input, inputs[i]);
        assert_eq!(t.nonce, 500 + i as u64);
        assert_eq!(t.chain_id, 167011);
        assert_eq!(t.gas_limit, Some(21_000));
        assert_eq!(t.max_fee_per_gas, Some(70));
        assert_eq!(t.max_priority_fee_per_gas, Some(10));
    }
    assert_eq!(CHAIN_ID, 167011);
}

#[test]
fn gas_estimate_has_no_fees() {
    let t = gas_estimate_fields(EthAddress { bytes: [3u8; 20] }, EthAddress { bytes: [4u8; 20] }, vec![9], 7);
    assert_eq!(t.nonce, 7);
    assert_eq!(t.chain_id, CHAIN_ID);
    assert_eq!(t.input, vec![9]);
    assert_eq!((t.gas_limit, t.max_fee_per_gas, t.max_priority_fee_per_gas), (None, None, None));
}

#[test]
fn error_free_replies_move_one_past_highest_id() {
    let mut s = SpamState::new(50);
    let out = s.on_batch(&BatchEvent::Replied(vec![ok(2), ok(7), ok(4)]));
    assert!(!out.resync);
    assert_eq!(s.nonce, 57);
    let mut e = SpamState::new(50);
    e.on_batch(&BatchEvent::Replied(vec![]));
    assert_eq!(e.nonce, 50);
}

#[test]
fn any_error_asks_for_resync_then_chain_count_wins() {
    let mut s = SpamState::new(50);
    let out = s.on_batch(&BatchEvent::Replied(vec![ok(1), ok(2), err(3)]));
    assert!(out.resync);
    s.on_chain_nonce(51);
    assert_eq!(s.nonce, 51);
}
