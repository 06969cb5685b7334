//! The run-loop policy every connector shares: which inbound events keep the
//! session alive and which end it, and the normalization of the venue's
//! `[price, amount]` string pairs into fixed-point levels.

use vstd::prelude::*;

use crate::json::Json;
use crate::msg::{Level, Venue};
use crate::price::{parse_price, spec_parse_price};

verus! {

/// Whether the connector's read loop goes on after an inbound event.
pub enum LoopState {
    Continue,
    Break,
}

/// One read from the venue connection, as the transport reports it.
pub enum InboundFrame {
    /// The stream ended: no further message will arrive.
    Ended,
    /// The transport reported an error.
    TransportError,
    /// A frame that is not text (ping, binary, ...).
    NonText,
    /// A text frame, to be decoded by the venue's parser.
    Text(String),
}

/// The recoverable/fatal split of the read loop: a closed or failing
/// connection is fatal for this connector, a non-text frame is skipped, a
/// text frame goes on to the venue parser.
pub fn classify_frame(f: InboundFrame) -> (r: Result<String, LoopState>)
    ensures
        f matches InboundFrame::Text(s) ==> r == Result::<String, LoopState>::Ok(s),
        f is Ended ==> r == Result::<String, LoopState>::Err(LoopState::Break),
        f is TransportError ==> r == Result::<String, LoopState>::Err(LoopState::Break),
        f is NonText ==> r == Result::<String, LoopState>::Err(LoopState::Continue),
{
    match f {
        InboundFrame::Text(s) => Ok(s),
        InboundFrame::Ended => Err(LoopState::Break),
        InboundFrame::TransportError => Err(LoopState::Break),
        InboundFrame::NonText => Err(LoopState::Continue),
    }
}

/// The policy when a snapshot cannot be handed to the engine (the queue's
/// receiver is gone): log and keep the loop running, so the venue
/// connection is drained until it independently closes or shutdown fires.
/// A deliberate policy decision, not an oversight; kept non-fatal on
/// purpose.
pub fn on_enqueue_failure() -> (r: LoopState)
    ensures
        r is Continue,
{
    LoopState::Continue
}

/// Every price and amount string of the batch parses as a fixed-point
/// decimal.
pub open spec fn pairs_parse_ok(pairs: Seq<(String, String)>) -> bool {
    forall|i: int|
        0 <= i < pairs.len() ==> spec_parse_price(#[trigger] pairs[i].0@) is Some
            && spec_parse_price(pairs[i].1@) is Some
}

/// The levels a batch of well-formed pairs denotes, in reported order.
pub open spec fn spec_levels_of_pairs(venue: Venue, pairs: Seq<(String, String)>) -> Seq<Level> {
    Seq::new(
        pairs.len(),
        |i: int|
            Level {
                exchange: venue,
                price: spec_parse_price(pairs[i].0@).unwrap(),
                amount: spec_parse_price(pairs[i].1@).unwrap(),
            },
    )
}

/// Normalizes a venue's `[price, amount]` string pairs into levels tagged
/// with the venue.  Rejects the whole batch when any string fails to parse:
/// bad venue data is never coerced.
pub fn levels_from_pairs(venue: Venue, pairs: &Vec<(String, String)>) -> (r: Option<Vec<Level>>)
    ensures
        r is Some <==> pairs_parse_ok(pairs@),
        r matches Some(out) ==> out@ == spec_levels_of_pairs(venue, pairs@),
{
    let mut out: Vec<Level> = Vec::new();
    let mut i: usize = 0;
    while i < pairs.len()
        invariant
            i <= pairs@.len(),
            forall|j: int|
                0 <= j < i ==> spec_parse_price(#[trigger] pairs@[j].0@) is Some
                    && spec_parse_price(pairs@[j].1@) is Some,
            out@ =~= spec_levels_of_pairs(venue, pairs@).subrange(0, i as int),
        decreases pairs@.len() - i,
    {
        let price = match parse_price(pairs[i].0.as_str()) {
            Some(p) => p,
            None => {
                return None;
            },
        };
        let amount = match parse_price(pairs[i].1.as_str()) {
            Some(a) => a,
            None => {
                return None;
            },
        };
        out.push(Level { exchange: venue, price, amount });
        proof {
            assert(out@ =~= spec_levels_of_pairs(venue, pairs@).subrange(0, i + 1 as int));
        }
        i = i + 1;
    }
    proof {
        assert(spec_levels_of_pairs(venue, pairs@).subrange(0, pairs@.len() as int)
            =~= spec_levels_of_pairs(venue, pairs@));
    }
    Some(out)
}

/// Every level of the batch is tagged with the venue.
pub open spec fn all_tagged(venue: Venue, s: Seq<Level>) -> bool {
    forall|i: int| 0 <= i < s.len() ==> s[i].exchange == venue
}

/// One `[price, amount]` entry: an array of exactly two strings.
pub open spec fn spec_pair(j: Json) -> Option<(String, String)> {
    match j {
        Json::Array(es) => if es@.len() == 2 {
            match (es@[0], es@[1]) {
                (Json::Text(p), Json::Text(a)) => Some((p, a)),
                _ => None,
            }
        } else {
            None
        },
        _ => None,
    }
}

pub open spec fn pairs_shape_ok(es: Seq<Json>) -> bool {
    forall|i: int| 0 <= i < es.len() ==> #[trigger] spec_pair(es[i]) is Some
}

/// The `[price, amount]` string pairs a document denotes: an array of
/// two-string arrays, in reported order; `None` for any other shape.
pub open spec fn spec_string_pairs(j: Json) -> Option<Seq<(String, String)>> {
    match j {
        Json::Array(es) => if pairs_shape_ok(es@) {
            Some(Seq::new(es@.len(), |i: int| spec_pair(es@[i]).unwrap()))
        } else {
            None
        },
        _ => None,
    }
}

/// Reads one `[price, amount]` entry out of a decoded document.
fn pair_of(j: &Json) -> (r: Option<(String, String)>)
    ensures
        r == spec_pair(*j),
{
    let es = match j {
        Json::Array(es) => es,
        _ => {
            return None;
        },
    };
    if es.len() != 2 {
        return None;
    }
    let price = match &es[0] {
        Json::Text(s) => s,
        _ => {
            return None;
        },
    };
    let amount = match &es[1] {
        Json::Text(s) => s,
        _ => {
            return None;
        },
    };
    Some((price.clone(), amount.clone()))
}

/// Reads a side's `[price, amount]` string pairs out of a decoded
/// document; `None` when it does not have that shape.
pub fn string_pairs(v: &Json) -> (r: Option<Vec<(String, String)>>)
    ensures
        r is Some <==> spec_string_pairs(*v) is Some,
        r matches Some(out) ==> Some(out@) == spec_string_pairs(*v),
{
    let es = match v {
        Json::Array(es) => es,
        _ => {
            return None;
        },
    };
    let mut out: Vec<(String, String)> = Vec::new();
    let mut i: usize = 0;
    while i < es.len()
        invariant
            i <= es@.len(),
            *v == Json::Array(*es),
            forall|j: int| 0 <= j < i ==> #[trigger] spec_pair(es@[j]) is Some,
            out@ =~= Seq::new(i as nat, |j: int| spec_pair(es@[j]).unwrap()),
        decreases es@.len() - i,
    {
        match pair_of(&es[i]) {
            Some(p) => {
                out.push(p);
            },
            None => {
                proof {
                    assert(!pairs_shape_ok(es@));
                }
                return None;
            },
        }
        proof {
            assert(out@ =~= Seq::new((i + 1) as nat, |j: int| spec_pair(es@[j]).unwrap()));
        }
        i = i + 1;
    }
    proof {
        assert(out@ =~= Seq::new(es@.len(), |j: int| spec_pair(es@[j]).unwrap()));
    }
    Some(out)
}

/// The levels both sides of a frame denote once their string pairs are
/// known: every price and amount must parse, or the frame counts for
/// nothing.
pub open spec fn spec_frame_levels(venue: Venue, bids_j: Json, asks_j: Json) -> Option<
    (Seq<Level>, Seq<Level>),
> {
    match (spec_string_pairs(bids_j), spec_string_pairs(asks_j)) {
        (Some(bp), Some(ap)) => if pairs_parse_ok(bp) && pairs_parse_ok(ap) {
            Some((spec_levels_of_pairs(venue, bp), spec_levels_of_pairs(venue, ap)))
        } else {
            None
        },
        _ => None,
    }
}

} // verus!
