//! The decisions of the spam loop: which nonces a batch uses, how the
//! replies to a batch move the nonce and the running count, and when the
//! nonce must be fetched from the chain again.
use vstd::prelude::*;
use rand::Rng;
use crate::address::EthAddress;
use crate::abi::{transfer_call_data, transfer_calldata};
use crate::fees::FeeQuote;

verus! {

/// The chain that the generated transactions are signed for.
pub const CHAIN_ID: u64 = 167011;

/// The fields of one transaction to sign, as the loop fills them in.
#[derive(Clone, Debug, PartialEq, Eq)]
pub struct TxFields {
    pub from: EthAddress,
    pub to: EthAddress,
    pub input: Vec<u8>,
    pub nonce: u64,
    pub chain_id: u64,
    /// Set for the batch's transactions; left open for the gas estimate.
    pub gas_limit: Option<u64>,
    pub max_fee_per_gas: Option<u128>,
    pub max_priority_fee_per_gas: Option<u128>,
}

/// The transaction whose gas is estimated before the first batch: the
/// current nonce and the chain, no gas limit and no fees.
pub fn gas_estimate_fields(from: EthAddress, to: EthAddress, input: Vec<u8>, nonce: u64) -> (t: TxFields)
    ensures
        t.from == from && t.to == to && t.input@ == input@ && t.nonce == nonce,
        t.chain_id == CHAIN_ID,
        t.gas_limit is None && t.max_fee_per_gas is None && t.max_priority_fee_per_gas is None,
{
    TxFields {
        from,
        to,
        input,
        nonce,
        chain_id: CHAIN_ID,
        gas_limit: None,
        max_fee_per_gas: None,
        max_priority_fee_per_gas: None,
    }
}

/// The token amount that each generated transfer moves.
pub const TRANSFER_AMOUNT: u64 = 1;

/// How often, in transactions sent, the running total is announced.
pub const ANNOUNCE_EVERY: u64 = 10_000;

/// One reply of the send batch, as far as the loop reads it.
#[derive(Clone, Copy, Debug, PartialEq, Eq, Structural)]
pub struct SendReply {
    /// The reply's `id` when it is an integer that fits in a `u64`.
    pub id: Option<u64>,
    /// Whether the reply carries an `error` member.
    pub has_error: bool,
}

/// What the replies to one batch add up to.
#[derive(Clone, Copy, Debug, PartialEq, Eq, Structural)]
pub struct Tally {
    pub sent: u64,
    pub failed: u64,
    /// The largest nonce offset of an accepted transaction, if any was accepted.
    pub highest_offset: Option<u64>,
}

/// What a batch's outcome asks of the loop.
#[derive(Clone, Copy, Debug, PartialEq, Eq, Structural)]
pub struct BatchOutcome {
    /// Transactions that the node accepted.
    pub sent: u64,
    /// Transactions that the node refused.
    pub failed: u64,
    /// The nonce must be fetched from the chain again.
    pub resync: bool,
    /// The running total reached a multiple of `ANNOUNCE_EVERY`.
    pub announce_total: bool,
}

/// What came back for one batch.
#[derive(Clone, Debug, PartialEq, Eq)]
pub enum BatchEvent {
    /// The node answered the batch with an unsuccessful HTTP status.
    Rejected,
    /// The node answered with one reply per request.
    Replied(Vec<SendReply>),
}

/// The loop's state between batches.
#[derive(Clone, Copy, Debug, PartialEq, Eq, Structural)]
pub struct SpamState {
    /// The nonce of the next batch's first transaction.
    pub nonce: u64,
    /// Transactions accepted so far.
    pub count: u64,
}

/// The nonce offset that an accepted reply stands for: its `id` (0 when
/// missing) less one, not below zero.
pub open spec fn reply_offset(r: SendReply) -> nat {
    let id: nat = match r.id {
        Some(v) => v as nat,
        None => 0,
    };
    if id == 0 { 0 } else { (id - 1) as nat }
}

/// Replies without an error.
pub open spec fn sent_count(rs: Seq<SendReply>) -> nat
    decreases rs.len(),
{
    if rs.len() == 0 {
        0
    } else {
        sent_count(rs.drop_last()) + if rs.last().has_error { 0nat } else { 1nat }
    }
}

/// Replies with an error.
pub open spec fn failed_count(rs: Seq<SendReply>) -> nat
    decreases rs.len(),
{
    if rs.len() == 0 {
        0
    } else {
        failed_count(rs.drop_last()) + if rs.last().has_error { 1nat } else { 0nat }
    }
}

/// The largest offset among the accepted replies, if any was accepted.
pub open spec fn highest_offset(rs: Seq<SendReply>) -> Option<nat>
    decreases rs.len(),
{
    if rs.len() == 0 {
        None
    } else {
        let h = highest_offset(rs.drop_last());
        if rs.last().has_error {
            h
        } else {
            let before: nat = match h {
                Some(v) => v,
                None => 0,
            };
            let o: nat = reply_offset(rs.last());
            Some(if before >= o { before } else { o })
        }
    }
}

/// The nonce after the replies: one past the highest accepted offset, or
/// unchanged when nothing was accepted.
pub open spec fn nonce_after(nonce: nat, rs: Seq<SendReply>) -> nat {
    match highest_offset(rs) {
        Some(o) => nonce + o + 1,
        None => nonce,
    }
}

/// Whether a count reaches an announcement.
pub open spec fn announces(count: nat) -> bool {
    count % (ANNOUNCE_EVERY as nat) == 0 && count > 0
}

impl Tally {
    /// The tally equals the counts of these replies.
    pub open spec fn counts(self, rs: Seq<SendReply>) -> bool {
        &&& self.sent == sent_count(rs)
        &&& self.failed == failed_count(rs)
        &&& match highest_offset(rs) {
            Some(o) => self.highest_offset == Some(o as u64),
            None => self.highest_offset is None,
        }
    }
}

proof fn lemma_counts_bounded(rs: Seq<SendReply>)
    ensures
        sent_count(rs) + failed_count(rs) == rs.len(),
        highest_offset(rs) matches Some(o) ==> o < u64::MAX,
    decreases rs.len(),
{
    if rs.len() > 0 {
        lemma_counts_bounded(rs.drop_last());
    }
}

/// Adds up the replies to one batch.
pub fn tally_replies(replies: &Vec<SendReply>) -> (t: Tally)
    ensures
        t.counts(replies@),
{
    let mut sent: u64 = 0;
    let mut failed: u64 = 0;
    let mut highest: Option<u64> = None;
    proof {
        assert(replies@.take(0) =~= Seq::<SendReply>::empty());
    }
    for i in 0..replies.len()
        invariant
            (Tally { sent, failed, highest_offset: highest }).counts(replies@.take(i as int)),
            sent + failed == i,
    {
        let r = replies[i];
        proof {
            let t = replies@.take(i + 1);
            assert(t.drop_last() =~= replies@.take(i as int));
            assert(t.last() == r);
            lemma_counts_bounded(t);
        }
        if r.has_error {
            failed = failed + 1;
        } else {
            sent = sent + 1;
            let id: u64 = match r.id {
                Some(v) => v,
                None => 0,
            };
            let offset: u64 = id.saturating_sub(1);
            let before: u64 = match highest {
                Some(h) => h,
                None => 0,
            };
            highest = Some(if before >= offset { before } else { offset });
        }
    }
    proof {
        assert(replies@.take(replies@.len() as int) =~= replies@);
    }
    Tally { sent, failed, highest_offset: highest }
}

impl SpamState {
    /// The state at the start, with the nonce that the chain reports.
    pub fn new(nonce: u64) -> (s: SpamState)
        ensures
            s.nonce == nonce,
            s.count == 0,
    {
        SpamState { nonce, count: 0 }
    }

    /// Whether taking in this event keeps the nonce and the count within
    /// 64 bits.
    pub open spec fn fits(self, event: BatchEvent) -> bool {
        match event {
            BatchEvent::Rejected => true,
            BatchEvent::Replied(rs) => {
                &&& nonce_after(self.nonce as nat, rs@) <= u64::MAX
                &&& self.count + sent_count(rs@) <= u64::MAX
            },
        }
    }

    /// Whether `on_batch` may take in this event.
    pub fn can_take(&self, event: &BatchEvent) -> (ok: bool)
        ensures
            ok == self.fits(*event),
    {
        match event {
            BatchEvent::Rejected => true,
            BatchEvent::Replied(rs) => {
                let t = tally_replies(rs);
                proof {
                    lemma_counts_bounded(rs@);
                }
                let nonce_fits = match t.highest_offset {
                    Some(o) => o < u64::MAX && self.nonce <= u64::MAX - (o + 1),
                    None => true,
                };
                nonce_fits && self.count <= u64::MAX - t.sent
            },
        }
    }

    /// The nonces of a batch of `n` transactions: consecutive, from the
    /// current nonce on; the `i`-th goes with request `id` `i + 1`.
    pub fn batch_nonces(&self, n: u64) -> (nonces: Vec<u64>)
        requires
            self.nonce + n <= u64::MAX + 1,
        ensures
            nonces@.len() == n,
            forall|i: int| 0 <= i < n ==> nonces@[i] == self.nonce + i,
    {
        let mut nonces: Vec<u64> = Vec::new();
        for i in 0..n
            invariant
                self.nonce + n <= u64::MAX + 1,
                nonces@.len() == i,
                forall|j: int| 0 <= j < i ==> nonces@[j] == self.nonce + j,
        {
            nonces.push(self.nonce + i);
        }
        nonces
    }

    /// The transactions of a batch, one per call data in `inputs`: the `i`-th
    /// has nonce `nonce + i` (and goes out with request `id` `i + 1`), the
    /// estimated gas limit, the quoted fee limit and priority fee, and the
    /// chain.
    pub fn batch_transactions(
        &self,
        from: EthAddress,
        to: EthAddress,
        inputs: &Vec<Vec<u8>>,
        gas_limit: u64,
        fees: &FeeQuote,
    ) -> (txs: Vec<TxFields>)
        requires
            self.nonce + inputs@.len() <= u64::MAX + 1,
        ensures
            txs@.len() == inputs@.len(),
            forall|i: int| 0 <= i < inputs@.len() ==> {
                let t = #[trigger] txs@[i];
                &&& t.from == from && t.to == to
                &&& t.input@ == inputs@[i]@
                &&& t.nonce == self.nonce + i
                &&& t.chain_id == CHAIN_ID
                &&& t.gas_limit == Some(gas_limit)
                &&& t.max_fee_per_gas == Some(fees.max_fee_per_gas)
                &&& t.max_priority_fee_per_gas == Some(fees.max_priority_fee_per_gas)
            },
    {
        let mut txs: Vec<TxFields> = Vec::new();
        for i in 0..inputs.len()
            invariant
                self.nonce + inputs@.len() <= u64::MAX + 1,
                txs@.len() == i,
                forall|j: int| 0 <= j < i ==> {
                    let t = #[trigger] txs@[j];
                    &&& t.from == from && t.to == to
                    &&& t.input@ == inputs@[j]@
                    &&& t.nonce == self.nonce + j
                    &&& t.chain_id == CHAIN_ID
                    &&& t.gas_limit == Some(gas_limit)
                    &&& t.max_fee_per_gas == Some(fees.max_fee_per_gas)
                    &&& t.max_priority_fee_per_gas == Some(fees.max_priority_fee_per_gas)
                },
        {
            let mut input: Vec<u8> = Vec::new();
            crate::numtext::append_bytes(&mut input, inputs[i].as_slice());
            txs.push(TxFields {
                from,
                to,
                input,
                nonce: self.nonce + i as u64,
                chain_id: CHAIN_ID,
                gas_limit: Some(gas_limit),
                max_fee_per_gas: Some(fees.max_fee_per_gas),
                max_priority_fee_per_gas: Some(fees.max_priority_fee_per_gas),
            });
        }
        txs
    }

    /// Takes in what came back for one batch. A rejected batch changes
    /// nothing and asks for the nonce again. Replies move the nonce one past
    /// the highest accepted offset, add the accepted ones to the count, and
    /// ask for the nonce again when any was refused.
    pub fn on_batch(&mut self, event: &BatchEvent) -> (out: BatchOutcome)
        requires
            old(self).fits(*event),
        ensures
            match *event {
                BatchEvent::Rejected => {
                    &&& *final(self) == *old(self)
                    &&& out == BatchOutcome { sent: 0, failed: 0, resync: true, announce_total: false }
                },
                BatchEvent::Replied(rs) => {
                    &&& final(self).nonce == nonce_after(old(self).nonce as nat, rs@)
                    &&& final(self).count == old(self).count + sent_count(rs@)
                    &&& out.sent == sent_count(rs@)
                    &&& out.failed == failed_count(rs@)
                    &&& out.resync == (failed_count(rs@) > 0)
                    &&& out.announce_total == announces(final(self).count as nat)
                },
            },
    {
        match event {
            BatchEvent::Rejected => BatchOutcome { sent: 0, failed: 0, resync: true, announce_total: false },
            BatchEvent::Replied(rs) => {
                let t = tally_replies(rs);
                match t.highest_offset {
                    Some(o) => {
                        self.nonce = self.nonce + o + 1;
                    },
                    None => {},
                }
                self.count = self.count + t.sent;
                let announce_total = self.count % ANNOUNCE_EVERY == 0 && self.count > 0;
                BatchOutcome { sent: t.sent, failed: t.failed, resync: t.failed > 0, announce_total }
            },
        }
    }

    /// Takes the nonce that the chain reports after a resync.
    pub fn on_chain_nonce(&mut self, nonce: u64)
        ensures
            final(self).nonce == nonce,
            final(self).count == old(self).count,
    {
        self.nonce = nonce;
    }
}

/// When every request of a batch of `n` is accepted and each reply carries
/// its request's `id`, the next batch starts right after the last nonce
/// used, nothing is counted as failed, and no resync is asked for.
pub proof fn accepted_batch_continues_nonces(nonce: nat, n: nat, rs: Seq<SendReply>)
    requires
        1 <= n <= u64::MAX,
        rs.len() == n,
        forall|i: int| 0 <= i < n ==> (#[trigger] rs[i]).id == Some((i + 1) as u64) && !rs[i].has_error,
    ensures
        highest_offset(rs) == Some((n - 1) as nat),
        sent_count(rs) == n,
        failed_count(rs) == 0,
        nonce_after(nonce, rs) == nonce + n,
    decreases n,
{
    let last = rs[n - 1];
    assert(reply_offset(last) == n - 1);
    if n == 1 {
        let e = rs.drop_last();
        assert(e =~= Seq::<SendReply>::empty());
        assert(sent_count(e) == 0 && failed_count(e) == 0 && highest_offset(e) is None);
    } else {
        let prefix = rs.drop_last();
        assert forall|i: int| 0 <= i < n - 1 implies (#[trigger] prefix[i]).id == Some((i + 1) as u64)
            && !prefix[i].has_error by {
            assert(prefix[i] == rs[i]);
        }
        accepted_batch_continues_nonces(nonce, (n - 1) as nat, prefix);
    }
}

/// Whatever replies come back, the nonce never moves backwards and the count
/// grows by exactly the accepted replies.
pub proof fn replies_never_lower_nonce(nonce: nat, rs: Seq<SendReply>)
    ensures
        nonce_after(nonce, rs) >= nonce,
        nonce_after(nonce, rs) > nonce <==> sent_count(rs) > 0,
        sent_count(rs) + failed_count(rs) == rs.len(),
    decreases rs.len(),
{
    lemma_counts_bounded(rs);
    lemma_accepted_iff_highest(rs);
}

proof fn lemma_highest_covers(rs: Seq<SendReply>, i: int)
    requires
        0 <= i < rs.len(),
        !rs[i].has_error,
    ensures
        highest_offset(rs) matches Some(h) && h >= reply_offset(rs[i]),
    decreases rs.len(),
{
    if i < rs.len() - 1 {
        lemma_highest_covers(rs.drop_last(), i);
        assert(rs.drop_last()[i] == rs[i]);
    }
}

/// The nonce of every accepted transaction lies before the next batch's
/// first nonce: the request with `id` `k` carried nonce `nonce + k - 1`, and
/// once its reply reports it accepted, the next batch starts at `nonce + k`
/// or later, so an accepted nonce is never used again.
pub proof fn accepted_nonces_are_never_reused(nonce: nat, rs: Seq<SendReply>, i: int)
    requires
        0 <= i < rs.len(),
        !rs[i].has_error,
        rs[i].id matches Some(k) && k >= 1,
    ensures
        nonce_after(nonce, rs) >= nonce + (rs[i].id->0 as nat),
{
    lemma_highest_covers(rs, i);
}

proof fn lemma_highest_attained(rs: Seq<SendReply>)
    ensures
        highest_offset(rs) matches Some(h) ==> exists|i: int|
            0 <= i < rs.len() && !rs[i].has_error && #[trigger] reply_offset(rs[i]) == h,
    decreases rs.len(),
{
    if rs.len() > 0 {
        let init = rs.drop_last();
        lemma_highest_attained(init);
        if let Some(h) = highest_offset(init) {
            let i = choose|i: int| 0 <= i < init.len() && !init[i].has_error && #[trigger] reply_offset(init[i]) == h;
            assert(rs[i] == init[i]);
        }
        let k = rs.len() - 1;
        assert(rs[k] == rs.last());
    }
}

/// When no reply reports an error, the next batch starts one past the
/// highest offset that any reply names (its `id`, 0 when missing, less one,
/// not below zero), or where it was when there were no replies.
pub proof fn error_free_replies_move_past_highest(nonce: nat, rs: Seq<SendReply>)
    requires
        forall|i: int| 0 <= i < rs.len() ==> !(#[trigger] rs[i]).has_error,
    ensures
        rs.len() == 0 ==> nonce_after(nonce, rs) == nonce,
        rs.len() > 0 ==> exists|i: int| 0 <= i < rs.len()
            && nonce_after(nonce, rs) == nonce + #[trigger] reply_offset(rs[i]) + 1,
        forall|j: int| 0 <= j < rs.len() ==> nonce + #[trigger] reply_offset(rs[j]) + 1 <= nonce_after(nonce, rs),
{
    lemma_highest_attained(rs);
    lemma_accepted_iff_highest(rs);
    lemma_counts_bounded(rs);
    assert forall|j: int| 0 <= j < rs.len() implies nonce + #[trigger] reply_offset(rs[j]) + 1 <= nonce_after(nonce, rs) by {
        lemma_highest_covers(rs, j);
    }
    if rs.len() > 0 {
        assert(!rs[0].has_error);
        lemma_highest_covers(rs, 0);
    }
}

/// A resync is asked for exactly when some reply reports an error.
pub proof fn failures_are_errored_replies(rs: Seq<SendReply>)
    ensures
        failed_count(rs) > 0 <==> exists|i: int| 0 <= i < rs.len() && (#[trigger] rs[i]).has_error,
    decreases rs.len(),
{
    if rs.len() > 0 {
        let init = rs.drop_last();
        failures_are_errored_replies(init);
        if failed_count(init) > 0 {
            let i = choose|i: int| 0 <= i < init.len() && (#[trigger] init[i]).has_error;
            assert(rs[i] == init[i]);
        }
        let k = rs.len() - 1;
        assert(rs[k] == rs.last());
        if exists|i: int| 0 <= i < rs.len() && (#[trigger] rs[i]).has_error {
            let i = choose|i: int| 0 <= i < rs.len() && (#[trigger] rs[i]).has_error;
            if i < k {
                assert(init[i] == rs[i]);
            }
        }
    }
}

/// The accepted replies are counted one each: the count is the number of
/// replies without an error, and the failures the number with one.
pub proof fn counts_are_the_replies(rs: Seq<SendReply>)
    ensures
        sent_count(rs) == rs.filter(|r: SendReply| !r.has_error).len(),
        failed_count(rs) == rs.filter(|r: SendReply| r.has_error).len(),
    decreases rs.len(),
{
    reveal_with_fuel(Seq::filter, 1);
    if rs.len() > 0 {
        counts_are_the_replies(rs.drop_last());
    }
}

/// The running total is announced exactly at the positive multiples of
/// `ANNOUNCE_EVERY`: whenever a batch brings the count to `k * 10_000` for
/// some `k >= 1`, and at no other count.
pub proof fn announced_exactly_at_multiples(count: nat)
    ensures
        announces(count) <==> exists|k: nat| k >= 1 && #[trigger] (k * ANNOUNCE_EVERY) == count,
{
    let e = ANNOUNCE_EVERY as nat;
    if announces(count) {
        let k: nat = count / e;
        assert(k * e == count);
        assert(k >= 1);
    }
    if exists|k: nat| k >= 1 && #[trigger] (k * ANNOUNCE_EVERY) == count {
        let k = choose|k: nat| k >= 1 && #[trigger] (k * ANNOUNCE_EVERY) == count;
        assert((k * e) % e == 0) by (nonlinear_arith)
            requires e > 0;
        assert(k * e > 0) by (nonlinear_arith)
            requires k >= 1, e > 0;
    }
}

proof fn lemma_accepted_iff_highest(rs: Seq<SendReply>)
    ensures
        highest_offset(rs) is Some <==> sent_count(rs) > 0,
    decreases rs.len(),
{
    if rs.len() > 0 {
        lemma_accepted_iff_highest(rs.drop_last());
    }
}

/// Twenty random bytes for a transfer's recipient.
///
/// Calls `rand::thread_rng().gen::<[u8; 20]>()`; nothing is claimed of the
/// bytes, which depend on chance.
#[verifier::external_body]
fn random_recipient() -> (a: EthAddress) {
    EthAddress { bytes: rand::thread_rng().gen::<[u8; 20]>() }
}

/// A transfer of `TRANSFER_AMOUNT` to a fresh random recipient: the
/// recipient, and the call data that moves the amount to it.
pub fn random_transfer_calldata() -> (res: (EthAddress, Vec<u8>))
    ensures
        res.1@ == transfer_call_data(res.0, TRANSFER_AMOUNT),
{
    let to = random_recipient();
    let data = transfer_calldata(to, TRANSFER_AMOUNT);
    (to, data)
}

} // verus!
