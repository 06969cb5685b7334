//! The venue protocols: wire envelopes, acknowledgement validation, frame
//! decoding, the shared read-loop policy, and the dissemination and
//! shutdown state machines.

use orderbook_aggregator::exchange::binance::{
    binance_ack_decision, binance_check_ack, binance_frame_to_levels, binance_subscribe_text,
    binance_unsubscribe_text,
};
use orderbook_aggregator::exchange::bitstamp::{
    bitstamp_ack_decision, bitstamp_check_ack, bitstamp_frame_to_levels, bitstamp_subscribe_text,
    bitstamp_unsubscribe_text,
};
use orderbook_aggregator::exchange::util::{
    classify_frame, levels_from_pairs, on_enqueue_failure, InboundFrame, LoopState,
};
use orderbook_aggregator::json::Json;
use orderbook_aggregator::msg::{Level, Venue};
use orderbook_aggregator::orderbook::Summary;
use orderbook_aggregator::price::SCALE;
use orderbook_aggregator::server::{forward_step, ForwardAction, ForwardEvent};
use orderbook_aggregator::shutdown::Sender;
use tokio::sync::broadcast;

#[test]
fn venue_labels() {
    assert_eq!(Venue::Binance.label(), "Binance");
    assert_eq!(Venue::Bitstamp.label(), "Bitstamp");
}

#[test]
fn binance_request_envelopes() {
    assert_eq!(
        binance_subscribe_text("btcusdt", 20, "100ms", 1),
        "{\"method\":\"SUBSCRIBE\",\"params\":[\"btcusdt@depth20@100ms\"],\"id\":1}"
    );
    assert_eq!(
        binance_unsubscribe_text("ethusdt", 10, "1000ms", 2),
        "{\"method\":\"UNSUBSCRIBE\",\"params\":[\"ethusdt@depth10@1000ms\"],\"id\":2}"
    );
}

#[test]
fn bitstamp_request_envelopes() {
    assert_eq!(
        bitstamp_subscribe_text("btcusd"),
        "{\"event\":\"bts:subscribe\",\"data\":{\"channel\":\"order_book_btcusd\"}}"
    );
    assert_eq!(
        bitstamp_unsubscribe_text("btcusd"),
        "{\"event\":\"bts:unsubscribe\",\"data\":{\"channel\":\"order_book_btcusd\"}}"
    );
}

#[test]
fn binance_ack_rules() {
    assert!(binance_ack_decision(true, Some(1), 1));
    assert!(!binance_ack_decision(true, Some(2), 1));
    assert!(!binance_ack_decision(true, None, 1));
    assert!(!binance_ack_decision(false, Some(1), 1));
}

#[test]
fn binance_ack_frames() {
    assert!(binance_check_ack("{\"result\":null,\"id\":1}", 1));
    assert!(!binance_check_ack("{\"result\":null,\"id\":2}", 1));
    assert!(!binance_check_ack("{\"result\":\"err\",\"id\":1}", 1));
    assert!(!binance_check_ack("{\"id\":1}", 1));
    assert!(!binance_check_ack("not json", 1));
}

#[test]
fn bitstamp_ack_frames() {
    assert!(bitstamp_ack_decision("bts:subscription_succeeded"));
    assert!(!bitstamp_ack_decision("bts:error"));
    assert!(bitstamp_check_ack(
        "{\"event\":\"bts:subscription_succeeded\",\"channel\":\"order_book_btcusd\",\"data\":{}}"
    ));
    assert!(!bitstamp_check_ack("{\"event\":\"bts:request_failed\",\"data\":{}}"));
    assert!(!bitstamp_check_ack("{\"data\":{}}"));
    assert!(!bitstamp_check_ack("not json"));
}

#[test]
fn binance_depth_frame_decodes() {
    let text = "{\"lastUpdateId\":160,\"bids\":[[\"0.0024\",\"10\"],[\"0.0022\",\"5\"]],\"asks\":[[\"0.0026\",\"100\"]]}";
    let levels = binance_frame_to_levels(text).expect("frame must decode");
    assert_eq!(levels.exchange, Venue::Binance);
    assert_eq!(
        levels.bids,
        vec![
            Level { exchange: Venue::Binance, price: 240_000, amount: 10 * SCALE },
            Level { exchange: Venue::Binance, price: 220_000, amount: 5 * SCALE },
        ]
    );
    assert_eq!(
        levels.asks,
        vec![Level { exchange: Venue::Binance, price: 260_000, amount: 100 * SCALE }]
    );
}

#[test]
fn binance_depth_frame_rejections() {
    // Missing update id.
    assert!(binance_frame_to_levels("{\"bids\":[],\"asks\":[]}").is_none());
    // Missing a side.
    assert!(binance_frame_to_levels("{\"lastUpdateId\":1,\"bids\":[]}").is_none());
    // A price that does not parse poisons the whole frame.
    assert!(binance_frame_to_levels(
        "{\"lastUpdateId\":1,\"bids\":[[\"1.2.3\",\"1\"]],\"asks\":[]}"
    )
    .is_none());
    // A pair that is not two strings.
    assert!(binance_frame_to_levels("{\"lastUpdateId\":1,\"bids\":[[\"1\"]],\"asks\":[]}")
        .is_none());
    assert!(binance_frame_to_levels("{\"lastUpdateId\":1,\"bids\":[[1,2]],\"asks\":[]}")
        .is_none());
    assert!(binance_frame_to_levels("not json").is_none());
}

#[test]
fn bitstamp_book_frame_decodes() {
    let text = "{\"data\":{\"timestamp\":\"1\",\"microtimestamp\":\"1000\",\"bids\":[[\"100.5\",\"1\"]],\"asks\":[[\"100.8\",\"2\"]]},\"channel\":\"order_book_btcusd\",\"event\":\"data\"}";
    let levels = bitstamp_frame_to_levels(text).expect("frame must decode");
    assert_eq!(levels.exchange, Venue::Bitstamp);
    assert_eq!(
        levels.bids,
        vec![Level { exchange: Venue::Bitstamp, price: 100 * SCALE + 50_000_000, amount: SCALE }]
    );
    assert_eq!(
        levels.asks,
        vec![Level {
            exchange: Venue::Bitstamp,
            price: 100 * SCALE + 80_000_000,
            amount: 2 * SCALE,
        }]
    );
}

#[test]
fn bitstamp_book_frame_rejections() {
    // No data envelope.
    assert!(bitstamp_frame_to_levels("{\"bids\":[],\"asks\":[]}").is_none());
    // Missing timestamps.
    assert!(bitstamp_frame_to_levels("{\"data\":{\"bids\":[],\"asks\":[]}}").is_none());
    // Bad amount string.
    assert!(bitstamp_frame_to_levels(
        "{\"data\":{\"timestamp\":\"1\",\"microtimestamp\":\"1\",\"bids\":[[\"1\",\"x\"]],\"asks\":[]}}"
    )
    .is_none());
}

#[test]
fn pair_entries_must_be_two_strings() {
    // A three-element entry is not a [price, amount] pair.
    assert!(binance_frame_to_levels(
        "{\"lastUpdateId\":1,\"bids\":[[\"1\",\"2\",\"3\"]],\"asks\":[]}"
    )
    .is_none());
    // The sides must be arrays.
    assert!(binance_frame_to_levels("{\"lastUpdateId\":1,\"bids\":{},\"asks\":[]}").is_none());
}

#[test]
fn document_member_lookup() {
    let doc = Json::Object(vec![
        (String::from("result"), Json::Null),
        (String::from("id"), Json::UInt(1)),
    ]);
    assert!(matches!(doc.get("result"), Some(Json::Null)));
    assert!(matches!(doc.get("id"), Some(Json::UInt(1))));
    assert!(doc.get("method").is_none());
    assert!(Json::Null.get("result").is_none());
}

#[test]
fn read_loop_policy() {
    assert!(matches!(
        classify_frame(InboundFrame::Text(String::from("hi"))),
        Ok(s) if s == "hi"
    ));
    assert!(matches!(classify_frame(InboundFrame::Ended), Err(LoopState::Break)));
    assert!(matches!(classify_frame(InboundFrame::TransportError), Err(LoopState::Break)));
    assert!(matches!(classify_frame(InboundFrame::NonText), Err(LoopState::Continue)));
}

#[test]
fn enqueue_failure_is_not_fatal() {
    // The flagged policy decision: a connector that cannot hand a
    // snapshot to the engine keeps draining its connection.
    assert!(matches!(on_enqueue_failure(), LoopState::Continue));
}

#[test]
fn batch_normalization_rejects_any_bad_pair() {
    let good = vec![
        (String::from("1.5"), String::from("2")),
        (String::from("0.1"), String::from("3")),
    ];
    let out = levels_from_pairs(Venue::Binance, &good).expect("all pairs parse");
    assert_eq!(out.len(), 2);
    assert_eq!(out[0].price, SCALE + 50_000_000);
    assert_eq!(out[1].amount, 3 * SCALE);

    let bad = vec![
        (String::from("1.5"), String::from("2")),
        (String::from("oops"), String::from("3")),
    ];
    assert!(levels_from_pairs(Venue::Binance, &bad).is_none());
}

#[test]
fn lagged_subscriber_skips_and_continues() {
    // A lagging cursor is skipped past, not retired; a closed channel
    // retires the task; a received summary is delivered unchanged.
    assert!(matches!(forward_step(ForwardEvent::Lagged), ForwardAction::Skip));
    assert!(matches!(forward_step(ForwardEvent::Closed), ForwardAction::Stop));
    let s = Summary { spread: 5, bids: vec![], asks: vec![] };
    match forward_step(ForwardEvent::Received(s)) {
        ForwardAction::Deliver(d) => assert_eq!(d.spread, 5),
        _ => panic!("a received summary must be delivered"),
    }
}

#[test]
fn lagged_cursor_catches_up_on_live_channel() {
    // A slow cursor on a real bounded broadcast: once it has missed
    // intermediate summaries it reports the lag once, is skipped past,
    // and then receives the next available summary — the publisher is
    // never blocked.
    let (tx, mut rx) = broadcast::channel::<Summary>(1);
    for spread in 1..=3 {
        tx.send(Summary { spread, bids: vec![], asks: vec![] }).unwrap();
    }
    let first = match rx.try_recv() {
        Err(broadcast::error::TryRecvError::Lagged(_)) => ForwardEvent::Lagged,
        _ => panic!("the cursor must observe the lag"),
    };
    assert!(matches!(forward_step(first), ForwardAction::Skip));
    let second = match rx.try_recv() {
        Ok(summary) => ForwardEvent::Received(summary),
        _ => panic!("the cursor must continue from the next summary"),
    };
    match forward_step(second) {
        ForwardAction::Deliver(d) => assert_eq!(d.spread, 3),
        _ => panic!("the next summary must be delivered"),
    }
}

#[test]
fn shutdown_drain_waits_for_every_handle() {
    let mut tx = Sender::new();
    assert!(tx.drain_complete());
    let mut a = tx.subscribe();
    let b = tx.subscribe();
    assert!(!tx.drain_complete());

    tx.send();
    // The signal is observed exactly once and then stays observed.
    assert!(!a.is_shutdown());
    a.recv();
    assert!(a.is_shutdown());
    a.recv();
    assert!(a.is_shutdown());

    // The barrier holds until the last handle is released, whatever the
    // release order.
    drop(b);
    tx.release();
    assert!(!tx.drain_complete());
    drop(a);
    tx.release();
    assert!(tx.drain_complete());
}
