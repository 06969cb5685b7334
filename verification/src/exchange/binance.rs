//! The Binance-style venue protocol: a method/params/id subscribe envelope,
//! an acknowledgement correlated by id with an explicit null result field,
//! and continuous partial-book-depth snapshots keyed by an update id that is
//! accepted but not validated for monotonicity.

use vstd::prelude::*;
use vstd::string::StringExecFns;

use crate::exchange::util::{
    all_tagged, levels_from_pairs, spec_frame_levels, string_pairs,
};
use crate::json::{json_of, parse_json, spec_member, Json};
use crate::msg::{Level, Levels, Venue};
use crate::text::{push_u64, spec_digits};

verus! {

/// The subscribe/unsubscribe envelope exactly as it goes on the wire:
/// `{"method":M,"params":["<pair>@depth<depth>@<latency>"],"id":<id>}`.
pub open spec fn spec_binance_request(
    method: Seq<char>,
    pair: Seq<char>,
    depth: nat,
    latency: Seq<char>,
    id: nat,
) -> Seq<char> {
    "{\"method\":\""@ + method + "\",\"params\":[\""@ + pair + "@depth"@ + spec_digits(depth) + "@"@
        + latency + "\"],\"id\":"@ + spec_digits(id) + "}"@
}

fn binance_request_text(method: &str, pair: &str, depth: u64, latency: &str, id: u64) -> (r: String)
    ensures
        r@ == spec_binance_request(method@, pair@, depth as nat, latency@, id as nat),
{
    let mut out = String::new();
    out.append("{\"method\":\"");
    out.append(method);
    out.append("\",\"params\":[\"");
    out.append(pair);
    out.append("@depth");
    push_u64(depth, &mut out);
    out.append("@");
    out.append(latency);
    out.append("\"],\"id\":");
    push_u64(id, &mut out);
    out.append("}");
    proof {
        assert(out@ =~= spec_binance_request(method@, pair@, depth as nat, latency@, id as nat));
    }
    out
}

/// The request that subscribes to the partial book depth stream.
pub fn binance_subscribe_text(pair: &str, depth: u64, latency: &str, id: u64) -> (r: String)
    ensures
        r@ == spec_binance_request("SUBSCRIBE"@, pair@, depth as nat, latency@, id as nat),
{
    binance_request_text("SUBSCRIBE", pair, depth, latency, id)
}

/// The request that unsubscribes from the partial book depth stream.
pub fn binance_unsubscribe_text(pair: &str, depth: u64, latency: &str, id: u64) -> (r: String)
    ensures
        r@ == spec_binance_request("UNSUBSCRIBE"@, pair@, depth as nat, latency@, id as nat),
{
    binance_request_text("UNSUBSCRIBE", pair, depth, latency, id)
}

/// A subscribe acknowledgement is valid exactly when the result field was
/// present and null and the echoed id matches the request's.
pub fn binance_ack_decision(result_null: bool, id: Option<u64>, expected_id: u64) -> (r: bool)
    ensures
        r == (result_null && id == Some(expected_id)),
{
    result_null && match id {
        Some(i) => i == expected_id,
        None => false,
    }
}

/// A valid acknowledgement text: a JSON object whose `result` member is
/// null and whose echoed `id` member equals the request's.
pub open spec fn spec_binance_ack_ok(text: Seq<char>, expected_id: u64) -> bool {
    match json_of(text) {
        Some(doc) => spec_member(doc, "result"@) == Some(Json::Null) && spec_member(doc, "id"@)
            == Some(Json::UInt(expected_id)),
        None => false,
    }
}

/// Validates one acknowledgement frame; a mismatch is a fatal startup error
/// for this connector.
pub fn binance_check_ack(text: &str, expected_id: u64) -> (r: bool)
    ensures
        r == spec_binance_ack_ok(text@, expected_id),
{
    let doc = match parse_json(text) {
        Some(doc) => doc,
        None => {
            return false;
        },
    };
    let result_null = match doc.get("result") {
        Some(Json::Null) => true,
        _ => false,
    };
    let id = match doc.get("id") {
        Some(Json::UInt(i)) => Some(*i),
        _ => None,
    };
    binance_ack_decision(result_null, id, expected_id)
}

/// The snapshot a partial-book-depth frame denotes: the text must decode
/// to an object carrying `lastUpdateId` (accepted, not validated) and two
/// sides of `[price, amount]` string pairs, every one of which parses.
pub open spec fn spec_binance_frame(text: Seq<char>) -> Option<(Seq<Level>, Seq<Level>)> {
    match json_of(text) {
        Some(doc) => if spec_member(doc, "lastUpdateId"@) is Some {
            match (spec_member(doc, "bids"@), spec_member(doc, "asks"@)) {
                (Some(b), Some(a)) => spec_frame_levels(Venue::Binance, b, a),
                _ => None,
            }
        } else {
            None
        },
        None => None,
    }
}

/// Decodes one partial-book-depth frame into the venue's full replacement
/// snapshot.  `None` exactly when the frame is not the expected shape or a
/// price or amount string is rejected: one bad frame is recoverable, the
/// loop skips it.
pub fn binance_frame_to_levels(text: &str) -> (r: Option<Levels>)
    ensures
        r is Some <==> spec_binance_frame(text@) is Some,
        r matches Some(l) ==> {
            &&& Some((l@.bids, l@.asks)) == spec_binance_frame(text@)
            &&& l@.exchange == Venue::Binance
            &&& all_tagged(Venue::Binance, l@.bids)
            &&& all_tagged(Venue::Binance, l@.asks)
        },
{
    let doc = match parse_json(text) {
        Some(doc) => doc,
        None => {
            return None;
        },
    };
    // The update id must be present, though its value is not validated.
    if doc.get("lastUpdateId").is_none() {
        return None;
    }
    let bids_j = match doc.get("bids") {
        Some(b) => b,
        None => {
            return None;
        },
    };
    let asks_j = match doc.get("asks") {
        Some(a) => a,
        None => {
            return None;
        },
    };
    let bid_pairs = match string_pairs(bids_j) {
        Some(p) => p,
        None => {
            return None;
        },
    };
    let ask_pairs = match string_pairs(asks_j) {
        Some(p) => p,
        None => {
            return None;
        },
    };
    let bids = match levels_from_pairs(Venue::Binance, &bid_pairs) {
        Some(b) => b,
        None => {
            return None;
        },
    };
    let asks = match levels_from_pairs(Venue::Binance, &ask_pairs) {
        Some(a) => a,
        None => {
            return None;
        },
    };
    Some(Levels { exchange: Venue::Binance, bids, asks })
}

} // verus!
