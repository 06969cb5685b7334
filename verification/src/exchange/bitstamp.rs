//! The Bitstamp-style venue protocol: an event/channel subscribe envelope,
//! an acknowledgement recognized by a specific event string, and book data
//! wrapped in an extra data-envelope layer.

use vstd::prelude::*;
use vstd::string::StringExecFns;

use crate::exchange::util::{
    all_tagged, levels_from_pairs, spec_frame_levels, string_pairs,
};
use crate::json::{json_of, parse_json, spec_member, Json};
use crate::msg::{Level, Levels, Venue};
use crate::text::str_eq;

verus! {

/// The subscribe/unsubscribe envelope exactly as it goes on the wire:
/// `{"event":E,"data":{"channel":"order_book_<pair>"}}`.
pub open spec fn spec_bitstamp_request(event: Seq<char>, pair: Seq<char>) -> Seq<char> {
    "{\"event\":\""@ + event + "\",\"data\":{\"channel\":\"order_book_"@ + pair + "\"}}"@
}

fn bitstamp_request_text(event: &str, pair: &str) -> (r: String)
    ensures
        r@ == spec_bitstamp_request(event@, pair@),
{
    let mut out = String::new();
    out.append("{\"event\":\"");
    out.append(event);
    out.append("\",\"data\":{\"channel\":\"order_book_");
    out.append(pair);
    out.append("\"}}");
    proof {
        assert(out@ =~= spec_bitstamp_request(event@, pair@));
    }
    out
}

/// The request that subscribes to the venue's order-book channel.
pub fn bitstamp_subscribe_text(pair: &str) -> (r: String)
    ensures
        r@ == spec_bitstamp_request("bts:subscribe"@, pair@),
{
    bitstamp_request_text("bts:subscribe", pair)
}

/// The request that unsubscribes from the venue's order-book channel.
pub fn bitstamp_unsubscribe_text(pair: &str) -> (r: String)
    ensures
        r@ == spec_bitstamp_request("bts:unsubscribe"@, pair@),
{
    bitstamp_request_text("bts:unsubscribe", pair)
}

/// A subscribe acknowledgement is valid exactly when the event string is
/// the venue's success event.
pub fn bitstamp_ack_decision(event: &str) -> (r: bool)
    ensures
        r == (event@ == "bts:subscription_succeeded"@),
{
    str_eq(event, "bts:subscription_succeeded")
}

/// A valid acknowledgement text: a JSON object whose `event` member is
/// the venue's success event string.
pub open spec fn spec_bitstamp_ack_ok(text: Seq<char>) -> bool {
    match json_of(text) {
        Some(doc) => match spec_member(doc, "event"@) {
            Some(Json::Text(e)) => e@ == "bts:subscription_succeeded"@,
            _ => false,
        },
        None => false,
    }
}

/// Validates one acknowledgement frame; a mismatch is a fatal startup error
/// for this connector.
pub fn bitstamp_check_ack(text: &str) -> (r: bool)
    ensures
        r == spec_bitstamp_ack_ok(text@),
{
    let doc = match parse_json(text) {
        Some(doc) => doc,
        None => {
            return false;
        },
    };
    match doc.get("event") {
        Some(Json::Text(s)) => bitstamp_ack_decision(s.as_str()),
        _ => false,
    }
}

/// The snapshot an order-book frame denotes: the text must decode to an
/// object whose `data` envelope carries both timestamps (present, never
/// read) and two sides of `[price, amount]` string pairs, every one of
/// which parses.
pub open spec fn spec_bitstamp_frame(text: Seq<char>) -> Option<(Seq<Level>, Seq<Level>)> {
    match json_of(text) {
        Some(doc) => match spec_member(doc, "data"@) {
            Some(data) => if spec_member(data, "timestamp"@) is Some && spec_member(
                data,
                "microtimestamp"@,
            ) is Some {
                match (spec_member(data, "bids"@), spec_member(data, "asks"@)) {
                    (Some(b), Some(a)) => spec_frame_levels(Venue::Bitstamp, b, a),
                    _ => None,
                }
            } else {
                None
            },
            None => None,
        },
        None => None,
    }
}

/// Decodes one order-book frame (under its data envelope) into the venue's
/// full replacement snapshot.  `None` exactly when the frame is not the
/// expected shape or a price or amount string is rejected: one bad frame
/// is recoverable, the loop skips it.
pub fn bitstamp_frame_to_levels(text: &str) -> (r: Option<Levels>)
    ensures
        r is Some <==> spec_bitstamp_frame(text@) is Some,
        r matches Some(l) ==> {
            &&& Some((l@.bids, l@.asks)) == spec_bitstamp_frame(text@)
            &&& l@.exchange == Venue::Bitstamp
            &&& all_tagged(Venue::Bitstamp, l@.bids)
            &&& all_tagged(Venue::Bitstamp, l@.asks)
        },
{
    let doc = match parse_json(text) {
        Some(doc) => doc,
        None => {
            return None;
        },
    };
    let data = match doc.get("data") {
        Some(d) => d,
        None => {
            return None;
        },
    };
    // The envelope carries timestamps the engine does not read; they must
    // still be present for the frame to count as an update.
    if data.get("timestamp").is_none() {
        return None;
    }
    if data.get("microtimestamp").is_none() {
        return None;
    }
    let bids_j = match data.get("bids") {
        Some(b) => b,
        None => {
            return None;
        },
    };
    let asks_j = match data.get("asks") {
        Some(a) => a,
        None => {
            return None;
        },
    };
    let bid_pairs = match string_pairs(bids_j) {
        Some(p) => p,
        None => {
            return None;
        },
    };
    let ask_pairs = match string_pairs(asks_j) {
        Some(p) => p,
        None => {
            return None;
        },
    };
    let bids = match levels_from_pairs(Venue::Bitstamp, &bid_pairs) {
        Some(b) => b,
        None => {
            return None;
        },
    };
    let asks = match levels_from_pairs(Venue::Bitstamp, &ask_pairs) {
        Some(a) => a,
        None => {
            return None;
        },
    };
    Some(Levels { exchange: Venue::Bitstamp, bids, asks })
}

} // verus!
