//! JSON-RPC batch request bodies, written directly as bytes in one fixed
//! compact form (no spaces; the members of each request in the order `id`,
//! `jsonrpc`, `method`, `params`).
use vstd::prelude::*;
use vstd::string::StringSliceAdditionalSpecFns;
use crate::numtext::{append_bytes, append_text, ascii_chars, decimal_bytes, decimal_text, decimal_text_reads_back, parse_u64_text, IntErrorKind};
use crate::hexcode::{hex_lower, prefixed_hex};

verus! {

/// The batch that asks for the latest block (`id` 1) and for the suggested
/// priority fee (`id` 2).
pub open spec fn fee_batch_json() -> Seq<u8> {
    "[{\"id\":1,\"jsonrpc\":\"2.0\",\"method\":\"eth_getBlockByNumber\",\"params\":[\"latest\",false]},{\"id\":2,\"jsonrpc\":\"2.0\",\"method\":\"eth_maxPriorityFeePerGas\",\"params\":[]}]".spec_bytes()
}

/// One `eth_sendRawTransaction` request for a signed transaction, whose
/// bytes go as `0x` and lower-case hexadecimal.
pub open spec fn send_request_json(id: nat, raw_tx: Seq<u8>) -> Seq<u8> {
    "{\"id\":".spec_bytes() + decimal_bytes(id)
        + ",\"jsonrpc\":\"2.0\",\"method\":\"eth_sendRawTransaction\",\"params\":[\"".spec_bytes()
        + seq!['0' as u8, 'x' as u8] + hex_lower(raw_tx) + "\"]}".spec_bytes()
}

/// The items separated by commas.
pub open spec fn comma_joined(items: Seq<Seq<u8>>) -> Seq<u8>
    decreases items.len(),
{
    if items.len() == 0 {
        Seq::empty()
    } else if items.len() == 1 {
        items[0]
    } else {
        comma_joined(items.drop_last()) + ",".spec_bytes() + items.last()
    }
}

/// The requests of a batch: the `i`-th signed transaction gets `id` `i + 1`.
pub open spec fn send_requests(raws: Seq<Seq<u8>>) -> Seq<Seq<u8>> {
    Seq::new(raws.len(), |i: int| send_request_json((i + 1) as nat, raws[i]))
}

/// The batch that sends all signed transactions, in order.
pub open spec fn send_batch_json(raws: Seq<Seq<u8>>) -> Seq<u8> {
    "[".spec_bytes() + comma_joined(send_requests(raws)) + "]".spec_bytes()
}

/// The send batch is a JSON array of exactly one request per signed
/// transaction, in order: element `i` is the `eth_sendRawTransaction`
/// request with `id` `i + 1` that carries transaction `i` as `0x` and hex.
pub proof fn send_batch_lists_requests_in_order(raws: Seq<Seq<u8>>)
    ensures
        send_batch_json(raws) == "[".spec_bytes() + comma_joined(send_requests(raws)) + "]".spec_bytes(),
        send_requests(raws).len() == raws.len(),
        forall|i: int| 0 <= i < raws.len() ==> #[trigger] send_requests(raws)[i] == send_request_json((i + 1) as nat, raws[i]),
{
}

/// What follows the `id` member of a send request carrying `raw_tx`.
pub open spec fn send_request_rest(raw_tx: Seq<u8>) -> Seq<u8> {
    ",\"jsonrpc\":\"2.0\",\"method\":\"eth_sendRawTransaction\",\"params\":[\"".spec_bytes()
        + seq!['0' as u8, 'x' as u8] + hex_lower(raw_tx) + "\"]}".spec_bytes()
}

/// The `id` member of a send request holds the whole decimal number: the
/// bytes between `{"id":` and the rest of the request read back, as a
/// decimal `u64`, as exactly the `id` asked for, for every `id`.
pub proof fn request_id_reads_back(id: nat, raw_tx: Seq<u8>)
    requires
        id <= u64::MAX,
    ensures
        exists|d: Seq<u8>|
            #[trigger] parse_u64_text(ascii_chars(d)) == Ok::<nat, IntErrorKind>(id)
                && send_request_json(id, raw_tx) == "{\"id\":".spec_bytes() + d + send_request_rest(raw_tx),
{
    let d = decimal_bytes(id);
    decimal_text_reads_back(id as u64);
    assert(send_request_json(id, raw_tx) =~= "{\"id\":".spec_bytes() + d + send_request_rest(raw_tx));
}

/// In a send batch, the request at position `i` carries transaction `i`
/// and an `id` that reads back as `i + 1`: ids run `1..=n`, all distinct.
pub proof fn batch_ids_read_back(raws: Seq<Seq<u8>>, i: int)
    requires
        0 <= i < raws.len(),
        raws.len() < u64::MAX,
    ensures
        exists|d: Seq<u8>|
            #[trigger] parse_u64_text(ascii_chars(d)) == Ok::<nat, IntErrorKind>((i + 1) as nat)
                && send_requests(raws)[i] == "{\"id\":".spec_bytes() + d + send_request_rest(raws[i]),
{
    request_id_reads_back((i + 1) as nat, raws[i]);
}

/// The body of the fee request batch.
pub fn fee_batch_body() -> (body: Vec<u8>)
    ensures
        body@ == fee_batch_json(),
{
    let mut body: Vec<u8> = Vec::new();
    append_text(&mut body, "[{\"id\":1,\"jsonrpc\":\"2.0\",\"method\":\"eth_getBlockByNumber\",\"params\":[\"latest\",false]},{\"id\":2,\"jsonrpc\":\"2.0\",\"method\":\"eth_maxPriorityFeePerGas\",\"params\":[]}]");
    assert(body@ =~= fee_batch_json());
    body
}

/// Appends one `eth_sendRawTransaction` request to `out`.
pub fn append_send_request(out: &mut Vec<u8>, id: u64, raw_tx: &[u8])
    ensures
        final(out)@ == old(out)@ + send_request_json(id as nat, raw_tx@),
{
    let ghost start = out@;
    append_text(out, "{\"id\":");
    let digits = decimal_text(id);
    append_bytes(out, digits.as_slice());
    append_text(out, ",\"jsonrpc\":\"2.0\",\"method\":\"eth_sendRawTransaction\",\"params\":[\"");
    let hex = prefixed_hex(raw_tx);
    append_bytes(out, hex.as_slice());
    append_text(out, "\"]}");
    assert(out@ =~= start + send_request_json(id as nat, raw_tx@));
}

/// The body of the batch that sends these signed transactions; the `i`-th
/// gets `id` `i + 1`.
pub fn send_batch_body(raws: &Vec<Vec<u8>>) -> (body: Vec<u8>)
    requires
        raws@.len() < u64::MAX,
    ensures
        body@ == send_batch_json(raws@.map_values(|r: Vec<u8>| r@)),
{
    let ghost views = raws@.map_values(|r: Vec<u8>| r@);
    let ghost reqs = send_requests(views);
    let mut body: Vec<u8> = Vec::new();
    append_text(&mut body, "[");
    proof {
        assert(reqs.take(0) =~= Seq::<Seq<u8>>::empty());
    }
    for i in 0..raws.len()
        invariant
            raws@.len() < u64::MAX,
            views == raws@.map_values(|r: Vec<u8>| r@),
            reqs == send_requests(views),
            body@ == "[".spec_bytes() + comma_joined(reqs.take(i as int)),
    {
        let ghost before = body@;
        if i > 0 {
            append_text(&mut body, ",");
        }
        append_send_request(&mut body, (i + 1) as u64, raws[i].as_slice());
        proof {
            let t = reqs.take(i + 1);
            assert(t.drop_last() =~= reqs.take(i as int));
            assert(t.last() == send_request_json((i + 1) as nat, views[i as int]));
            if i == 0 {
                assert(t =~= seq![t.last()]);
                assert(comma_joined(reqs.take(0)) =~= Seq::<u8>::empty());
            }
            assert(body@ =~= "[".spec_bytes() + comma_joined(t));
        }
    }
    append_text(&mut body, "]");
    assert(reqs.take(raws@.len() as int) =~= reqs);
    body
}

} // verus!
