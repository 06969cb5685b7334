//! The aggregation engine: summary invariants, replacement semantics,
//! truncation, spread, and the engine run-loop policy.

use orderbook_aggregator::msg::{Level, Levels, Venue};
use orderbook_aggregator::orderbook::{engine_step, EngineAction, EngineEvent, LevelMap, Summary};
use orderbook_aggregator::price::SCALE;

fn lvl(venue: Venue, price: u64, amount: u64) -> Level {
    Level { exchange: venue, price, amount }
}

fn snapshot(venue: Venue, bids: Vec<Level>, asks: Vec<Level>) -> Levels {
    Levels { exchange: venue, bids, asks }
}

fn assert_summary_wf(s: &Summary, n: usize) {
    assert!(s.bids.len() <= n);
    assert!(s.asks.len() <= n);
    for w in s.bids.windows(2) {
        assert!(w[0].price >= w[1].price, "bids must descend");
    }
    for w in s.asks.windows(2) {
        assert!(w[0].price <= w[1].price, "asks must ascend");
    }
    if !s.bids.is_empty() && !s.asks.is_empty() {
        assert_eq!(s.spread, s.asks[0].price as i128 - s.bids[0].price as i128);
    } else {
        assert_eq!(s.spread, 0);
    }
}

#[test]
fn two_venues_top_two() {
    // Venue A: bids [(100,1),(99,2)], asks [(101,1)].
    // Venue B: bids [(100.5,1)], asks [(100.8,2)].
    let mut map = LevelMap::new();
    let a = snapshot(
        Venue::Binance,
        vec![lvl(Venue::Binance, 100 * SCALE, SCALE), lvl(Venue::Binance, 99 * SCALE, 2 * SCALE)],
        vec![lvl(Venue::Binance, 101 * SCALE, SCALE)],
    );
    let b = snapshot(
        Venue::Bitstamp,
        vec![lvl(Venue::Bitstamp, 100 * SCALE + SCALE / 2, SCALE)],
        vec![lvl(Venue::Bitstamp, 100 * SCALE + 8 * SCALE / 10, 2 * SCALE)],
    );
    map.update(a, 2);
    let s = map.update(b, 2);

    assert_summary_wf(&s, 2);
    assert_eq!(
        s.bids,
        vec![
            lvl(Venue::Bitstamp, 100 * SCALE + SCALE / 2, SCALE),
            lvl(Venue::Binance, 100 * SCALE, SCALE),
        ]
    );
    assert_eq!(
        s.asks,
        vec![
            lvl(Venue::Bitstamp, 100 * SCALE + 8 * SCALE / 10, 2 * SCALE),
            lvl(Venue::Binance, 101 * SCALE, SCALE),
        ]
    );
    // 100.8 - 100.5 = 0.3, exactly.
    assert_eq!(s.spread, (3 * SCALE / 10) as i128);
}

#[test]
fn truncation_takes_top_two_bids() {
    // Combined resident bids [(100,1),(99,2),(98,3)] across two venues.
    let mut map = LevelMap::new();
    let a = snapshot(
        Venue::Binance,
        vec![lvl(Venue::Binance, 100 * SCALE, SCALE), lvl(Venue::Binance, 98 * SCALE, 3 * SCALE)],
        vec![],
    );
    let b = snapshot(Venue::Bitstamp, vec![lvl(Venue::Bitstamp, 99 * SCALE, 2 * SCALE)], vec![]);
    map.update(a, 2);
    let s = map.update(b, 2);

    assert_eq!(
        s.bids,
        vec![lvl(Venue::Binance, 100 * SCALE, SCALE), lvl(Venue::Bitstamp, 99 * SCALE, 2 * SCALE)]
    );
}

#[test]
fn spread_zero_without_asks() {
    let mut map = LevelMap::new();
    let a = snapshot(
        Venue::Binance,
        vec![lvl(Venue::Binance, 100 * SCALE, SCALE), lvl(Venue::Binance, 99 * SCALE, SCALE)],
        vec![],
    );
    let s = map.update(a, 5);
    assert!(!s.bids.is_empty());
    assert!(s.asks.is_empty());
    assert_eq!(s.spread, 0);
}

#[test]
fn spread_zero_without_bids() {
    let mut map = LevelMap::new();
    let a = snapshot(Venue::Binance, vec![], vec![lvl(Venue::Binance, 100 * SCALE, SCALE)]);
    let s = map.update(a, 5);
    assert_eq!(s.spread, 0);
}

#[test]
fn same_snapshot_twice_is_identical() {
    let mut map = LevelMap::new();
    let other = snapshot(
        Venue::Bitstamp,
        vec![lvl(Venue::Bitstamp, 99 * SCALE, SCALE)],
        vec![lvl(Venue::Bitstamp, 101 * SCALE, SCALE)],
    );
    map.update(other, 3);
    let a1 = snapshot(
        Venue::Binance,
        vec![lvl(Venue::Binance, 100 * SCALE, SCALE)],
        vec![lvl(Venue::Binance, 102 * SCALE, 2 * SCALE)],
    );
    let a2 = a1.clone();
    let s1 = map.update(a1, 3);
    let s2 = map.update(a2, 3);
    assert_eq!(s1.spread, s2.spread);
    assert_eq!(s1.bids, s2.bids);
    assert_eq!(s1.asks, s2.asks);
}

#[test]
fn replacement_not_merge() {
    // A venue's new snapshot fully replaces its old levels.
    let mut map = LevelMap::new();
    let first = snapshot(
        Venue::Binance,
        vec![lvl(Venue::Binance, 100 * SCALE, SCALE), lvl(Venue::Binance, 99 * SCALE, SCALE)],
        vec![],
    );
    map.update(first, 10);
    let second = snapshot(Venue::Binance, vec![lvl(Venue::Binance, 97 * SCALE, SCALE)], vec![]);
    let s = map.update(second, 10);
    assert_eq!(s.bids, vec![lvl(Venue::Binance, 97 * SCALE, SCALE)]);
}

#[test]
fn equal_prices_keep_arrival_order() {
    // Documented tie-break: levels of equal price stay in table order —
    // venues in arrival order, levels in venue-reported order.
    let mut map = LevelMap::new();
    let a = snapshot(Venue::Binance, vec![lvl(Venue::Binance, 100 * SCALE, 1)], vec![]);
    let b = snapshot(Venue::Bitstamp, vec![lvl(Venue::Bitstamp, 100 * SCALE, 2)], vec![]);
    map.update(a, 5);
    let s = map.update(b, 5);
    assert_eq!(
        s.bids,
        vec![lvl(Venue::Binance, 100 * SCALE, 1), lvl(Venue::Bitstamp, 100 * SCALE, 2)]
    );
}

#[test]
fn summary_invariants_hold_over_a_run() {
    let mut map = LevelMap::new();
    let updates = vec![
        snapshot(
            Venue::Binance,
            vec![lvl(Venue::Binance, 100 * SCALE, SCALE), lvl(Venue::Binance, 95 * SCALE, SCALE)],
            vec![lvl(Venue::Binance, 101 * SCALE, SCALE)],
        ),
        snapshot(
            Venue::Bitstamp,
            vec![lvl(Venue::Bitstamp, 102 * SCALE, SCALE)],
            vec![lvl(Venue::Bitstamp, 99 * SCALE, SCALE)],
        ),
        snapshot(Venue::Binance, vec![], vec![]),
        snapshot(
            Venue::Bitstamp,
            vec![lvl(Venue::Bitstamp, 90 * SCALE, SCALE)],
            vec![
                lvl(Venue::Bitstamp, 91 * SCALE, SCALE),
                lvl(Venue::Bitstamp, 92 * SCALE, SCALE),
                lvl(Venue::Bitstamp, 93 * SCALE, SCALE),
            ],
        ),
    ];
    for u in updates {
        let s = map.update(u, 2);
        assert_summary_wf(&s, 2);
    }
}

#[test]
fn engine_step_snapshot_publishes() {
    let mut map = LevelMap::new();
    let a = snapshot(
        Venue::Binance,
        vec![lvl(Venue::Binance, 100 * SCALE, SCALE)],
        vec![lvl(Venue::Binance, 101 * SCALE, SCALE)],
    );
    match engine_step(&mut map, 2, EngineEvent::Snapshot(a)) {
        EngineAction::Publish(s) => {
            assert_eq!(s.spread, SCALE as i128);
            assert_eq!(s.bids.len(), 1);
            assert_eq!(s.asks.len(), 1);
        }
        EngineAction::Stop => panic!("a snapshot must be published"),
    }
}

#[test]
fn engine_step_stops_on_closed_queue_and_shutdown() {
    let mut map = LevelMap::new();
    assert!(matches!(engine_step(&mut map, 2, EngineEvent::QueueClosed), EngineAction::Stop));
    assert!(matches!(engine_step(&mut map, 2, EngineEvent::PublishFailed), EngineAction::Stop));
    assert!(matches!(engine_step(&mut map, 2, EngineEvent::ShutdownSignal), EngineAction::Stop));
}
