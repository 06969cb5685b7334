//! The aggregation engine: one table of the latest snapshot per venue, and
//! the merge of every resident level into a ranked, size-bounded summary.
//!
//! Ties between equal-priced levels keep the order in which the table holds
//! them: entries in venue-arrival order, levels in venue-reported order.
//! The insertion sort is stable, so this tie-break is deterministic.

use vstd::prelude::*;

use crate::msg::{Level, Levels, LevelsView, Venue};

verus! {

/// The merged, ranked, size-bounded cross-venue view published to
/// subscribers.  `spread` is in fixed-point minor units and may be negative
/// when the combined book is crossed.
#[derive(Clone, Debug)]
pub struct Summary {
    pub spread: i128,
    pub bids: Vec<Level>,
    pub asks: Vec<Level>,
}

/// `a` may stand at or before `b` on one side of the summary: prices
/// descending for bids (`desc`), ascending for asks.
pub open spec fn price_le(desc: bool, a: Level, b: Level) -> bool {
    if desc {
        b.price <= a.price
    } else {
        a.price <= b.price
    }
}

/// Sorted by price, descending for bids, ascending for asks.
pub open spec fn ordered(desc: bool, s: Seq<Level>) -> bool {
    forall|i: int, j: int| 0 <= i <= j < s.len() ==> price_le(desc, s[i], s[j])
}

/// Stable insertion: `x` goes before the first level it strictly precedes,
/// so after any level of equal price.
pub open spec fn insert_sorted(desc: bool, s: Seq<Level>, x: Level) -> Seq<Level>
    decreases s.len(),
{
    if s.len() == 0 {
        seq![x]
    } else if !price_le(desc, s[0], x) {
        seq![x] + s
    } else {
        seq![s[0]] + insert_sorted(desc, s.drop_first(), x)
    }
}

/// Stable insertion sort over a side of the combined book.
pub open spec fn sort_levels(desc: bool, s: Seq<Level>) -> Seq<Level>
    decreases s.len(),
{
    if s.len() == 0 {
        Seq::empty()
    } else {
        insert_sorted(desc, sort_levels(desc, s.drop_last()), s.last())
    }
}

/// The first `n` levels, or all of them when fewer are resident.
pub open spec fn take_n(s: Seq<Level>, n: int) -> Seq<Level> {
    if s.len() <= n {
        s
    } else {
        s.subrange(0, n)
    }
}

/// Best combined ask minus best combined bid; zero when either side is
/// empty.
pub open spec fn spec_spread(bids: Seq<Level>, asks: Seq<Level>) -> int {
    if bids.len() > 0 && asks.len() > 0 {
        asks[0].price - bids[0].price
    } else {
        0
    }
}

/// All resident bids across the table, in table order.
pub open spec fn bids_concat(t: Seq<LevelsView>) -> Seq<Level>
    decreases t.len(),
{
    if t.len() == 0 {
        Seq::empty()
    } else {
        bids_concat(t.drop_last()) + t.last().bids
    }
}

/// All resident asks across the table, in table order.
pub open spec fn asks_concat(t: Seq<LevelsView>) -> Seq<Level>
    decreases t.len(),
{
    if t.len() == 0 {
        Seq::empty()
    } else {
        asks_concat(t.drop_last()) + t.last().asks
    }
}

/// Index of the venue's entry, or -1 when the venue has not reported yet.
pub open spec fn find_venue(t: Seq<LevelsView>, v: Venue) -> int
    decreases t.len(),
{
    if t.len() == 0 {
        -1
    } else if t[0].exchange == v {
        0
    } else {
        let r = find_venue(t.drop_first(), v);
        if r < 0 {
            -1
        } else {
            1 + r
        }
    }
}

/// The table after one snapshot: the venue's entry is fully replaced, every
/// other entry untouched.
pub open spec fn table_after(t: Seq<LevelsView>, l: LevelsView) -> Seq<LevelsView> {
    let i = find_venue(t, l.exchange);
    if i < 0 {
        t.push(l)
    } else {
        t.update(i, l)
    }
}

/// The summary a table of residents yields for bound `n`.
pub open spec fn summary_matches(t: Seq<LevelsView>, n: int, s: Summary) -> bool {
    &&& s.bids@ == take_n(sort_levels(true, bids_concat(t)), n)
    &&& s.asks@ == take_n(sort_levels(false, asks_concat(t)), n)
    &&& s.spread as int == spec_spread(s.bids@, s.asks@)
}

/// The summary invariants: both sides ranked, both sides within the bound,
/// spread zero unless both sides are non-empty.
pub open spec fn summary_wf(s: Summary, n: int) -> bool {
    &&& ordered(true, s.bids@)
    &&& ordered(false, s.asks@)
    &&& s.bids@.len() <= n
    &&& s.asks@.len() <= n
    &&& s.spread as int == spec_spread(s.bids@, s.asks@)
}

/// One latest snapshot per venue, exclusively owned by the engine task.
pub struct LevelMap {
    entries: Vec<Levels>,
}

impl View for LevelMap {
    type V = Seq<LevelsView>;

    closed spec fn view(&self) -> Seq<LevelsView> {
        self.entries@.map_values(|l: Levels| l@)
    }
}

impl LevelMap {
    /// At most one entry per venue.
    pub open spec fn wf(&self) -> bool {
        forall|i: int, j: int|
            0 <= i < j < self@.len() ==> self@[i].exchange != self@[j].exchange
    }

    pub fn new() -> (r: LevelMap)
        ensures
            r@ == Seq::<LevelsView>::empty(),
            r.wf(),
    {
        let r = LevelMap { entries: Vec::new() };
        proof {
            assert(r@ =~= Seq::<LevelsView>::empty());
        }
        r
    }

    /// Replaces the venue's snapshot and recomputes the merged top-`n`
    /// summary of every resident level.
    pub fn update(&mut self, levels: Levels, n: usize) -> (s: Summary)
        requires
            old(self).wf(),
        ensures
            final(self).wf(),
            final(self)@ == table_after(old(self)@, levels@),
            summary_matches(final(self)@, n as int, s),
            summary_wf(s, n as int),
    {
        let ghost t0 = self@;
        let ghost lv = levels@;
        let mut i: usize = 0;
        let venue = levels.exchange;
        while i < self.entries.len() && self.entries[i].exchange != venue
            invariant
                i <= self@.len(),
                self@.len() == self.entries@.len(),
                venue == lv.exchange,
                self@ == t0,
                forall|j: int| 0 <= j < i ==> self@[j].exchange != venue,
            decreases self@.len() - i,
        {
            i = i + 1;
        }
        proof {
            lemma_find_venue_at(t0, venue, i as int);
        }
        if i < self.entries.len() {
            self.entries.set(i, levels);
            proof {
                assert(self@ =~= t0.update(i as int, lv));
            }
        } else {
            self.entries.push(levels);
            proof {
                assert(self@ =~= t0.push(lv));
            }
        }
        let ghost t1 = self@;
        proof {
            assert(t1 == table_after(t0, lv));
            lemma_table_after_wf(t0, lv);
        }

        let mut bids: Vec<Level> = Vec::new();
        let mut asks: Vec<Level> = Vec::new();
        let mut e: usize = 0;
        while e < self.entries.len()
            invariant
                e <= self.entries@.len(),
                self@ == t1,
                self@.len() == self.entries@.len(),
                bids@ == bids_concat(t1.subrange(0, e as int)),
                asks@ == asks_concat(t1.subrange(0, e as int)),
            decreases self.entries@.len() - e,
        {
            proof {
                assert(t1.subrange(0, e + 1 as int).drop_last() =~= t1.subrange(0, e as int));
                assert(t1.subrange(0, e + 1 as int).last() == t1[e as int]);
            }
            push_all(&mut bids, &self.entries[e].bids);
            push_all(&mut asks, &self.entries[e].asks);
            e = e + 1;
        }
        proof {
            assert(t1.subrange(0, t1.len() as int) =~= t1);
        }

        let bids_sorted = sorted_copy(true, &bids);
        let asks_sorted = sorted_copy(false, &asks);
        proof {
            lemma_sort_levels_ordered(true, bids@);
            lemma_sort_levels_ordered(false, asks@);
        }
        let mut top_bids = bids_sorted;
        let mut top_asks = asks_sorted;
        top_bids.truncate(n);
        top_asks.truncate(n);
        proof {
            lemma_take_n_ordered(true, sort_levels(true, bids@), n as int);
            lemma_take_n_ordered(false, sort_levels(false, asks@), n as int);
            assert(top_bids@ == take_n(sort_levels(true, bids_concat(t1)), n as int));
            assert(top_asks@ == take_n(sort_levels(false, asks_concat(t1)), n as int));
        }

        let spread: i128 = if top_bids.len() > 0 && top_asks.len() > 0 {
            top_asks[0].price as i128 - top_bids[0].price as i128
        } else {
            0
        };
        Summary { spread, bids: top_bids, asks: top_asks }
    }
}

/// One event on the engine's ingestion queue.
pub enum EngineEvent {
    /// The next queued snapshot.
    Snapshot(Levels),
    /// The queue is permanently closed: every connector is gone.
    QueueClosed,
    /// The last publish failed: no subscriber path is left to produce
    /// for, which is fatal to the engine.
    PublishFailed,
    /// The shutdown signal fired.
    ShutdownSignal,
}

/// What the engine task does next.
pub enum EngineAction {
    /// Publish this summary to the broadcast.
    Publish(Summary),
    /// Exit the run loop.
    Stop,
}

/// One turn of the engine's run loop: a snapshot replaces its venue's
/// entry and yields a fresh summary to publish; a closed queue, a failed
/// publish or the shutdown signal ends the loop with the table untouched.
pub fn engine_step(map: &mut LevelMap, n: usize, ev: EngineEvent) -> (a: EngineAction)
    requires
        old(map).wf(),
    ensures
        final(map).wf(),
        ev matches EngineEvent::Snapshot(l) ==> {
            &&& final(map)@ == table_after(old(map)@, l@)
            &&& (a matches EngineAction::Publish(s) && summary_matches(final(map)@, n as int, s)
                && summary_wf(s, n as int))
        },
        !(ev is Snapshot) ==> a is Stop && final(map)@ == old(map)@,
{
    match ev {
        EngineEvent::Snapshot(l) => {
            let s = map.update(l, n);
            EngineAction::Publish(s)
        },
        EngineEvent::QueueClosed => EngineAction::Stop,
        EngineEvent::PublishFailed => EngineAction::Stop,
        EngineEvent::ShutdownSignal => EngineAction::Stop,
    }
}

/// Appends a copy of every level of `src`.
fn push_all(out: &mut Vec<Level>, src: &Vec<Level>)
    ensures
        final(out)@ == old(out)@ + src@,
{
    let mut j: usize = 0;
    while j < src.len()
        invariant
            j <= src@.len(),
            out@ == old(out)@ + src@.subrange(0, j as int),
        decreases src@.len() - j,
    {
        out.push(src[j]);
        proof {
            assert(old(out)@ + src@.subrange(0, j + 1 as int) =~= (old(out)@ + src@.subrange(
                0,
                j as int,
            )).push(src@[j as int]));
        }
        j = j + 1;
    }
    proof {
        assert(src@.subrange(0, src@.len() as int) =~= src@);
    }
}

fn price_le_exec(desc: bool, a: &Level, b: &Level) -> (r: bool)
    ensures
        r == price_le(desc, *a, *b),
{
    if desc {
        b.price <= a.price
    } else {
        a.price <= b.price
    }
}

/// Inserts `x` before the first level it strictly precedes.
fn insert_level(desc: bool, out: &mut Vec<Level>, x: Level)
    ensures
        final(out)@ == insert_sorted(desc, old(out)@, x),
{
    let mut j: usize = 0;
    while j < out.len() && price_le_exec(desc, &out[j], &x)
        invariant
            j <= out@.len(),
            out@ == old(out)@,
            forall|t: int| 0 <= t < j ==> price_le(desc, old(out)@[t], x),
        decreases out@.len() - j,
    {
        j = j + 1;
    }
    out.insert(j, x);
    proof {
        lemma_insert_sorted_at(desc, old(out)@, x, j as int);
        assert(old(out)@.subrange(0, j as int).push(x) + old(out)@.subrange(
            j as int,
            old(out)@.len() as int,
        ) =~= old(out)@.subrange(0, j as int) + seq![x] + old(out)@.subrange(
            j as int,
            old(out)@.len() as int,
        ));
    }
}

/// A stably sorted copy of one side of the book.
fn sorted_copy(desc: bool, v: &Vec<Level>) -> (r: Vec<Level>)
    ensures
        r@ == sort_levels(desc, v@),
{
    let mut out: Vec<Level> = Vec::new();
    let mut i: usize = 0;
    while i < v.len()
        invariant
            i <= v@.len(),
            out@ == sort_levels(desc, v@.subrange(0, i as int)),
        decreases v@.len() - i,
    {
        proof {
            assert(v@.subrange(0, i + 1 as int).drop_last() =~= v@.subrange(0, i as int));
            assert(v@.subrange(0, i + 1 as int).last() == v@[i as int]);
        }
        insert_level(desc, &mut out, v[i]);
        i = i + 1;
    }
    proof {
        assert(v@.subrange(0, v@.len() as int) =~= v@);
    }
    out
}

proof fn lemma_find_venue_at(t: Seq<LevelsView>, v: Venue, i: int)
    requires
        0 <= i <= t.len(),
        forall|j: int| 0 <= j < i ==> t[j].exchange != v,
        i < t.len() ==> t[i].exchange == v,
    ensures
        find_venue(t, v) == if i == t.len() {
            -1
        } else {
            i
        },
    decreases t.len(),
{
    if t.len() == 0 {
    } else if i == 0 {
    } else {
        let df = t.drop_first();
        assert(forall|j: int| 0 <= j < df.len() ==> df[j] == t[j + 1]);
        lemma_find_venue_at(df, v, i - 1);
    }
}

/// Replacing one venue's snapshot keeps the venues distinct.
proof fn lemma_table_after_wf(t: Seq<LevelsView>, l: LevelsView)
    requires
        forall|i: int, j: int| 0 <= i < j < t.len() ==> t[i].exchange != t[j].exchange,
    ensures
        forall|i: int, j: int|
            0 <= i < j < table_after(t, l).len() ==> table_after(t, l)[i].exchange != table_after(
                t,
                l,
            )[j].exchange,
{
    let k = find_venue(t, l.exchange);
    lemma_find_venue_props(t, l.exchange);
}

/// What a `find_venue` result means.
pub proof fn lemma_find_venue_props(t: Seq<LevelsView>, v: Venue)
    ensures
        find_venue(t, v) == -1 ==> forall|j: int| 0 <= j < t.len() ==> t[j].exchange != v,
        find_venue(t, v) >= 0 ==> 0 <= find_venue(t, v) < t.len() && t[find_venue(
            t,
            v,
        )].exchange == v,
        find_venue(t, v) >= 0 ==> forall|j: int|
            0 <= j < find_venue(t, v) ==> t[j].exchange != v,
    decreases t.len(),
{
    if t.len() > 0 {
        let df = t.drop_first();
        assert(forall|j: int| 0 <= j < df.len() ==> df[j] == t[j + 1]);
        lemma_find_venue_props(df, v);
        if find_venue(t, v) == -1 {
            assert forall|j: int| 0 <= j < t.len() implies t[j].exchange != v by {
                if j > 0 {
                    assert(df[j - 1] == t[j]);
                    assert(df[j - 1].exchange != v);
                }
            }
        } else if find_venue(t, v) > 0 {
            assert forall|j: int| 0 <= j < find_venue(t, v) implies t[j].exchange != v by {
                if j > 0 {
                    assert(df[j - 1] == t[j]);
                    assert(df[j - 1].exchange != v);
                }
            }
        }
    }
}

/// Every level of an insertion is the new one or one of the old ones.
proof fn lemma_insert_sorted_elems(desc: bool, s: Seq<Level>, x: Level)
    ensures
        insert_sorted(desc, s, x).len() == s.len() + 1,
        forall|j: int|
            0 <= j < insert_sorted(desc, s, x).len() ==> (insert_sorted(desc, s, x)[j] == x
                || s.contains(insert_sorted(desc, s, x)[j])),
    decreases s.len(),
{
    if s.len() == 0 {
    } else if !price_le(desc, s[0], x) {
    } else {
        lemma_insert_sorted_elems(desc, s.drop_first(), x);
        assert forall|j: int| 0 <= j < insert_sorted(desc, s, x).len() implies (insert_sorted(
            desc,
            s,
            x,
        )[j] == x || s.contains(insert_sorted(desc, s, x)[j])) by {
            let r = insert_sorted(desc, s, x);
            let ri = insert_sorted(desc, s.drop_first(), x);
            if j == 0 {
                assert(s.contains(s[0]));
            } else {
                assert(r[j] == ri[j - 1]);
                if ri[j - 1] == x {
                } else {
                    let k = choose|k: int| 0 <= k < s.drop_first().len() && s.drop_first()[k]
                        == ri[j - 1];
                    assert(s[k + 1] == ri[j - 1]);
                }
            }
        }
    }
}

/// Insertion keeps a side sorted.
proof fn lemma_insert_sorted_ordered(desc: bool, s: Seq<Level>, x: Level)
    requires
        ordered(desc, s),
    ensures
        ordered(desc, insert_sorted(desc, s, x)),
    decreases s.len(),
{
    let r = insert_sorted(desc, s, x);
    if s.len() == 0 {
    } else if !price_le(desc, s[0], x) {
        assert forall|i: int, j: int| 0 <= i <= j < r.len() implies price_le(desc, r[i], r[j]) by {
            if i == 0 && j > 0 {
                assert(r[j] == s[j - 1]);
                assert(price_le(desc, s[0], s[j - 1]));
            } else if i > 0 {
                assert(r[i] == s[i - 1] && r[j] == s[j - 1]);
            }
        }
    } else {
        let df = s.drop_first();
        assert(forall|j: int| 0 <= j < df.len() ==> df[j] == s[j + 1]);
        assert(ordered(desc, df));
        lemma_insert_sorted_ordered(desc, df, x);
        lemma_insert_sorted_elems(desc, df, x);
        let ri = insert_sorted(desc, df, x);
        assert forall|i: int, j: int| 0 <= i <= j < r.len() implies price_le(desc, r[i], r[j]) by {
            if i == 0 && j > 0 {
                assert(r[j] == ri[j - 1]);
                if ri[j - 1] == x {
                    assert(price_le(desc, s[0], x));
                } else {
                    let k = choose|k: int| 0 <= k < df.len() && df[k] == ri[j - 1];
                    assert(price_le(desc, s[0], s[k + 1]));
                }
            } else if i > 0 {
                assert(r[i] == ri[i - 1] && r[j] == ri[j - 1]);
            }
        }
    }
}

/// The sorted image of a side is sorted.
pub proof fn lemma_sort_levels_ordered(desc: bool, s: Seq<Level>)
    ensures
        ordered(desc, sort_levels(desc, s)),
        sort_levels(desc, s).len() == s.len(),
    decreases s.len(),
{
    if s.len() > 0 {
        lemma_sort_levels_ordered(desc, s.drop_last());
        lemma_insert_sorted_ordered(desc, sort_levels(desc, s.drop_last()), s.last());
        lemma_insert_sorted_elems(desc, sort_levels(desc, s.drop_last()), s.last());
    }
}

/// Truncation keeps a side sorted.
pub proof fn lemma_take_n_ordered(desc: bool, s: Seq<Level>, n: int)
    requires
        ordered(desc, s),
        0 <= n,
    ensures
        ordered(desc, take_n(s, n)),
        take_n(s, n).len() <= n,
        take_n(s, n).len() == if s.len() <= n {
            s.len() as int
        } else {
            n
        },
        forall|j: int| 0 <= j < take_n(s, n).len() ==> take_n(s, n)[j] == s[j],
{
}

/// Truncation cuts only dominated levels: every level kept in the top `n`
/// ranks at least as well as every level cut off.
pub proof fn lemma_take_n_dominates(desc: bool, s: Seq<Level>, n: int)
    requires
        ordered(desc, s),
        0 <= n,
    ensures
        forall|i: int, j: int|
            0 <= i < take_n(s, n).len() && n <= j < s.len() ==> price_le(
                desc,
                take_n(s, n)[i],
                s[j],
            ),
{
    lemma_take_n_ordered(desc, s, n);
}

/// Where `insert_sorted` places the new level, given the first position
/// whose level it strictly precedes.
proof fn lemma_insert_sorted_at(desc: bool, s: Seq<Level>, x: Level, j: int)
    requires
        0 <= j <= s.len(),
        forall|t: int| 0 <= t < j ==> price_le(desc, s[t], x),
        j < s.len() ==> !price_le(desc, s[j], x),
    ensures
        insert_sorted(desc, s, x) == s.subrange(0, j) + seq![x] + s.subrange(j, s.len() as int),
    decreases s.len(),
{
    if s.len() == 0 {
        assert(insert_sorted(desc, s, x) =~= s.subrange(0, j) + seq![x] + s.subrange(
            j,
            s.len() as int,
        ));
    } else if j == 0 {
        assert(insert_sorted(desc, s, x) =~= s.subrange(0, 0) + seq![x] + s.subrange(
            0,
            s.len() as int,
        ));
    } else {
        let df = s.drop_first();
        assert(forall|t: int| 0 <= t < df.len() ==> df[t] == s[t + 1]);
        lemma_insert_sorted_at(desc, df, x, j - 1);
        assert(insert_sorted(desc, s, x) =~= s.subrange(0, j) + seq![x] + s.subrange(
            j,
            s.len() as int,
        ));
    }
}

proof fn lemma_insert_sorted_multiset(desc: bool, s: Seq<Level>, x: Level)
    ensures
        insert_sorted(desc, s, x).to_multiset() == s.to_multiset().insert(x),
    decreases s.len(),
{
    broadcast use vstd::seq_lib::group_to_multiset_ensures;
    broadcast use vstd::multiset::group_multiset_axioms;

    if s.len() == 0 {
        assert(seq![x] =~= Seq::<Level>::empty().push(x));
        assert(s =~= Seq::<Level>::empty());
        assert(insert_sorted(desc, s, x).to_multiset() =~= s.to_multiset().insert(x));
    } else if !price_le(desc, s[0], x) {
        vstd::seq_lib::lemma_multiset_commutative(seq![x], s);
        assert(seq![x] =~= Seq::<Level>::empty().push(x));
        assert(insert_sorted(desc, s, x).to_multiset() =~= s.to_multiset().insert(x));
    } else {
        let df = s.drop_first();
        lemma_insert_sorted_multiset(desc, df, x);
        vstd::seq_lib::lemma_multiset_commutative(seq![s[0]], insert_sorted(desc, df, x));
        assert(seq![s[0]] =~= Seq::<Level>::empty().push(s[0]));
        assert(s =~= seq![s[0]] + df);
        vstd::seq_lib::lemma_multiset_commutative(seq![s[0]], df);
        assert(insert_sorted(desc, s, x).to_multiset() =~= s.to_multiset().insert(x));
    }
}

/// Ranking a side permutes it: the sorted side holds exactly the resident
/// levels, each as often as it is resident.
pub proof fn lemma_sort_levels_multiset(desc: bool, s: Seq<Level>)
    ensures
        sort_levels(desc, s).to_multiset() == s.to_multiset(),
    decreases s.len(),
{
    broadcast use vstd::seq_lib::group_to_multiset_ensures;

    if s.len() > 0 {
        let dl = s.drop_last();
        lemma_sort_levels_multiset(desc, dl);
        lemma_insert_sorted_multiset(desc, sort_levels(desc, dl), s.last());
        assert(s =~= dl.push(s.last()));
    }
}

/// Feeding the same snapshot twice in a row leaves the table, and so the
/// summary, exactly as after the first time: a venue's snapshot fully
/// replaces its prior one and touches no other venue's contribution.
pub proof fn lemma_replay_same_snapshot(t: Seq<LevelsView>, l: LevelsView)
    ensures
        table_after(table_after(t, l), l) == table_after(t, l),
{
    let v = l.exchange;
    let i = find_venue(t, v);
    lemma_find_venue_props(t, v);
    let t1 = table_after(t, l);
    if i < 0 {
        assert(forall|j: int| 0 <= j < t.len() ==> t1[j] == t[j]);
        lemma_find_venue_at(t1, v, t.len() as int);
        assert(table_after(t1, l) =~= t1.update(t.len() as int, l));
        assert(t1.update(t.len() as int, l) =~= t1);
    } else {
        assert(forall|j: int| 0 <= j < i ==> t1[j] == t[j]);
        lemma_find_venue_at(t1, v, i);
        assert(table_after(t1, l) =~= t1.update(i, l));
        assert(t1.update(i, l) =~= t1);
    }
}

/// With no resident asks the spread is zero, whatever the bids hold.
pub proof fn lemma_spread_zero_without_asks(bids: Seq<Level>, asks: Seq<Level>)
    requires
        asks.len() == 0,
    ensures
        spec_spread(bids, asks) == 0,
{
}

} // verus!
