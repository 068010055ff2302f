//! Gas fees for the next batch, decided from the replies to the fee request
//! batch: the latest block's base fee (never below a floor) and the node's
//! suggested priority fee, each with a fallback when the reply lacks it.
use vstd::prelude::*;
use crate::numtext::{
    parse_hex_u128_text, parse_unsigned_text, result_as_nat, strip_hex_prefixes, trim_hex_prefixes,
};

verus! {

/// The lowest base fee per gas that is ever assumed.
pub const BASE_FEE_FLOOR: u128 = 25_000_000;

/// The priority fee per gas assumed when the node suggests none.
pub const DEFAULT_PRIORITY_FEE: u128 = 1_000_000_000;

/// The `result` member of one reply, as far as the fee decision reads it.
#[derive(Clone, Debug, PartialEq, Eq)]
pub enum ReplyResult {
    /// An object; `base_fee` is its `baseFeePerGas` member when that is a string.
    Object { base_fee: Option<String> },
    /// A string.
    Text(String),
    /// Anything else, or no `result` at all.
    Other,
}

/// One reply of the fee request batch.
#[derive(Clone, Debug, PartialEq, Eq)]
pub struct FeeReply {
    /// The reply's `id` when it is an integer that fits in an `i64`.
    pub id: Option<i64>,
    pub result: ReplyResult,
}

/// The fees that the next batch's transactions carry.
#[derive(Clone, Copy, Debug, PartialEq, Eq)]
pub struct FeeQuote {
    pub base_fee: u128,
    pub max_fee_per_gas: u128,
    pub max_priority_fee_per_gas: u128,
}

/// Why no fees could be decided.
#[derive(Clone, Copy, Debug, PartialEq, Eq)]
pub enum FeeError {
    /// The reply with `id` 1 is missing, or its result is no object.
    MissingBlockResult,
}

/// The first reply with this `id`.
pub open spec fn first_with_id(replies: Seq<FeeReply>, id: i64) -> Option<FeeReply>
    decreases replies.len(),
{
    if replies.len() == 0 {
        None
    } else if replies[0].id == Some(id) {
        Some(replies[0])
    } else {
        first_with_id(replies.drop_first(), id)
    }
}

/// A hexadecimal quantity: leading `0x`s are dropped, the rest is read as a
/// `u128` in radix 16; `None` when that fails.
pub open spec fn hex_quantity(s: Seq<char>) -> Option<nat> {
    match parse_hex_u128_text(strip_hex_prefixes(s)) {
        Ok(v) => Some(v),
        Err(_) => None,
    }
}

/// The base fee that the block reply reports, or the floor when it reports
/// none that can be read; never below the floor.
pub open spec fn base_fee_of(base_fee: Option<String>) -> nat {
    let raw: nat = match base_fee {
        Some(s) => match hex_quantity(s@) {
            Some(v) => v,
            None => BASE_FEE_FLOOR as nat,
        },
        None => BASE_FEE_FLOOR as nat,
    };
    if raw < BASE_FEE_FLOOR { BASE_FEE_FLOOR as nat } else { raw }
}

/// The priority fee of the first reply with `id` 2, or the default.
pub open spec fn priority_fee_of(replies: Seq<FeeReply>) -> nat {
    match first_with_id(replies, 2) {
        Some(r) => match r.result {
            ReplyResult::Text(s) => match hex_quantity(s@) {
                Some(v) => v,
                None => DEFAULT_PRIORITY_FEE as nat,
            },
            _ => DEFAULT_PRIORITY_FEE as nat,
        },
        None => DEFAULT_PRIORITY_FEE as nat,
    }
}

/// `x` capped at the largest `u128`.
pub open spec fn cap_u128(x: nat) -> nat {
    if x > u128::MAX { u128::MAX as nat } else { x }
}

/// The fee limit: twice the base fee plus the priority fee, each step
/// saturating at the largest `u128`.
pub open spec fn max_fee_of(base: nat, priority: nat) -> nat {
    cap_u128(cap_u128(2 * base) + priority)
}

/// The fee decision on the replies of the fee batch.
pub open spec fn quote_spec(replies: Seq<FeeReply>) -> Result<(nat, nat, nat), FeeError> {
    match first_with_id(replies, 1) {
        Some(r) => match r.result {
            ReplyResult::Object { base_fee } => {
                let base: nat = base_fee_of(base_fee);
                let prio: nat = priority_fee_of(replies);
                Ok((base, max_fee_of(base, prio), prio))
            },
            _ => Err(FeeError::MissingBlockResult),
        },
        None => Err(FeeError::MissingBlockResult),
    }
}

/// A hexadecimal quantity as the fee replies carry it.
pub fn read_hex_quantity(s: &str) -> (v: Option<u128>)
    ensures
        match hex_quantity(s@) {
            Some(x) => v == Some(x as u128),
            None => v is None,
        },
{
    let digits = trim_hex_prefixes(s);
    let r = parse_unsigned_text(digits, 16, u128::MAX);
    assert(result_as_nat(r) == parse_hex_u128_text(strip_hex_prefixes(s@)));
    match r {
        Ok(x) => Some(x),
        Err(_) => None,
    }
}

/// Index of the first reply with this `id`.
fn find_reply(replies: &Vec<FeeReply>, id: i64) -> (k: Option<usize>)
    ensures
        match first_with_id(replies@, id) {
            Some(r) => k matches Some(i) && i < replies@.len() && replies@[i as int] == r,
            None => k is None,
        },
{
    let mut i: usize = 0;
    proof {
        assert(replies@.skip(0) =~= replies@);
    }
    while i < replies.len()
        invariant
            i <= replies@.len(),
            first_with_id(replies@, id) == first_with_id(replies@.skip(i as int), id),
        decreases replies@.len() - i,
    {
        let ghost rest = replies@.skip(i as int);
        assert(rest[0] == replies@[i as int]);
        if replies[i].id == Some(id) {
            return Some(i);
        }
        assert(rest.drop_first() =~= replies@.skip(i + 1));
        i = i + 1;
    }
    None
}

/// `x` doubled, capped at the largest `u128`.
fn doubled_capped(x: u128) -> (d: u128)
    ensures
        d == cap_u128(2 * (x as nat)),
{
    match x.checked_mul(2) {
        Some(d) => d,
        None => u128::MAX,
    }
}

/// The fees of the next batch, decided from the replies of the fee batch.
pub fn quote_fees(replies: &Vec<FeeReply>) -> (res: Result<FeeQuote, FeeError>)
    ensures
        match quote_spec(replies@) {
            Ok((base, max_fee, prio)) => res matches Ok(q) && q.base_fee == base
                && q.max_fee_per_gas == max_fee && q.max_priority_fee_per_gas == prio,
            Err(e) => res == Err::<FeeQuote, FeeError>(e),
        },
{
    let block: usize = match find_reply(replies, 1) {
        Some(k) => k,
        None => return Err(FeeError::MissingBlockResult),
    };
    let raw_base: u128 = match &replies[block].result {
        ReplyResult::Object { base_fee } => match base_fee {
            Some(s) => match read_hex_quantity(s.as_str()) {
                Some(v) => v,
                None => BASE_FEE_FLOOR,
            },
            None => BASE_FEE_FLOOR,
        },
        _ => return Err(FeeError::MissingBlockResult),
    };
    let base_fee: u128 = if raw_base < BASE_FEE_FLOOR { BASE_FEE_FLOOR } else { raw_base };
    let prio: u128 = match find_reply(replies, 2) {
        Some(k) => match &replies[k].result {
            ReplyResult::Text(s) => match read_hex_quantity(s.as_str()) {
                Some(v) => v,
                None => DEFAULT_PRIORITY_FEE,
            },
            _ => DEFAULT_PRIORITY_FEE,
        },
        None => DEFAULT_PRIORITY_FEE,
    };
    let max_fee: u128 = doubled_capped(base_fee).saturating_add(prio);
    Ok(FeeQuote { base_fee, max_fee_per_gas: max_fee, max_priority_fee_per_gas: prio })
}

proof fn lemma_first_with_id_at(replies: Seq<FeeReply>, id: i64, j: int)
    requires
        0 <= j < replies.len(),
        replies[j].id == Some(id),
        forall|i: int| 0 <= i < j ==> (#[trigger] replies[i]).id != Some(id),
    ensures
        first_with_id(replies, id) == Some(replies[j]),
    decreases j,
{
    if j > 0 {
        let rest = replies.drop_first();
        assert forall|i: int| 0 <= i < j - 1 implies (#[trigger] rest[i]).id != Some(id) by {
            assert(rest[i] == replies[i + 1]);
        }
        assert(replies[0].id != Some(id));
        lemma_first_with_id_at(rest, id, j - 1);
    }
}

/// The quoted priority fee is the node's suggestion: when the first reply
/// with `id` 2 is a string, the fee is that string read as a hexadecimal
/// quantity (leading `0x`s dropped), or 1 gwei when it cannot be read;
/// nothing in the block reply changes it. The fee limit is twice the base
/// fee plus that priority fee, or the largest `u128` when that is larger.
pub proof fn priority_fee_is_the_suggestion(replies: Seq<FeeReply>, j: int, s: String)
    requires
        0 <= j < replies.len(),
        replies[j].id == Some(2i64),
        forall|i: int| 0 <= i < j ==> (#[trigger] replies[i]).id != Some(2i64),
        replies[j].result == ReplyResult::Text(s),
    ensures
        quote_spec(replies) matches Ok((base, max_fee, prio)) ==> {
            &&& (parse_hex_u128_text(strip_hex_prefixes(s@)) matches Ok(v) ==> prio == v)
            &&& (parse_hex_u128_text(strip_hex_prefixes(s@)) is Err ==> prio == 1_000_000_000)
            &&& max_fee == if 2 * base + prio > u128::MAX { u128::MAX as nat } else { (2 * base + prio) as nat }
        },
{
    lemma_first_with_id_at(replies, 2, j);
    crate::numtext::parsed_value_is_bounded(strip_hex_prefixes(s@), 16, u128::MAX as nat);
    quoted_fees_are_bounded(replies);
}

/// The quoted base fee is the block's `baseFeePerGas` read as a
/// hexadecimal quantity whenever that is at least the floor; otherwise,
/// and when the block reports none that can be read, it is the floor.
pub proof fn base_fee_is_the_block_fee(replies: Seq<FeeReply>, j: int, base_fee: Option<String>)
    requires
        0 <= j < replies.len(),
        replies[j].id == Some(1i64),
        forall|i: int| 0 <= i < j ==> (#[trigger] replies[i]).id != Some(1i64),
        replies[j].result == (ReplyResult::Object { base_fee }),
    ensures
        quote_spec(replies) matches Ok((base, max_fee, prio)) && {
            &&& base >= 25_000_000
            &&& forall|s: String| base_fee == Some(s) ==> match #[trigger] parse_hex_u128_text(strip_hex_prefixes(s@)) {
                    Ok(v) => v >= 25_000_000 ==> base == v,
                    Err(_) => base == 25_000_000,
                }
            &&& (base > 25_000_000 ==> (base_fee matches Some(s)
                    && parse_hex_u128_text(strip_hex_prefixes(s@)) == Ok::<nat, crate::numtext::IntErrorKind>(base)))
        },
{
    lemma_first_with_id_at(replies, 1, j);
}

/// Without a string reply with `id` 2, the priority fee is 1 gwei.
pub proof fn priority_fee_defaults(replies: Seq<FeeReply>)
    requires
        forall|i: int| 0 <= i < replies.len() ==> !((#[trigger] replies[i]).id == Some(2i64) && replies[i].result is Text),
    ensures
        quote_spec(replies) matches Ok((base, max_fee, prio)) ==> prio == 1_000_000_000,
    decreases replies.len(),
{
    if let Some(r) = first_with_id(replies, 2) {
        lemma_first_found(replies, 2);
    }
}

proof fn lemma_first_found(replies: Seq<FeeReply>, id: i64)
    ensures
        first_with_id(replies, id) matches Some(r) ==> exists|i: int| 0 <= i < replies.len() && #[trigger] replies[i] == r && r.id == Some(id),
    decreases replies.len(),
{
    if replies.len() > 0 && replies[0].id != Some(id) {
        let rest = replies.drop_first();
        lemma_first_found(rest, id);
        if let Some(r) = first_with_id(rest, id) {
            let i = choose|i: int| 0 <= i < rest.len() && #[trigger] rest[i] == r && r.id == Some(id);
            assert(replies[i + 1] == rest[i]);
        }
    }
}

/// The fee limit never falls below the priority fee nor below the base fee
/// floor, and the base fee never below the floor.
pub proof fn quoted_fees_are_bounded(replies: Seq<FeeReply>)
    ensures
        quote_spec(replies) matches Ok((base, max_fee, prio)) ==> {
            &&& base >= BASE_FEE_FLOOR
            &&& max_fee >= prio
            &&& max_fee >= base
            &&& max_fee <= u128::MAX
        },
{
    if let Some(r) = first_with_id(replies, 1) {
        if let ReplyResult::Object { base_fee } = r.result {
            if let Some(s) = base_fee {
                crate::numtext::parsed_value_is_bounded(strip_hex_prefixes(s@), 16, u128::MAX as nat);
            }
        }
    }
    if let Some(r) = first_with_id(replies, 2) {
        if let ReplyResult::Text(s) = r.result {
            crate::numtext::parsed_value_is_bounded(strip_hex_prefixes(s@), 16, u128::MAX as nat);
        }
    }
}

} // verus!
