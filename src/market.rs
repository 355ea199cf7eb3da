//! Market data events: trades and top-of-book snapshots.
use crate::decimal::Dec;
use vstd::prelude::*;

verus! {

/// One trade of the tape.
#[derive(Clone, Copy, Debug)]
pub struct TradeEvent {
    pub timestamp: u64,
    pub price: Dec,
    pub quantity: Dec,
    /// The buyer was the resting side: the aggressor sold into the bid.
    pub is_buyer_maker: bool,
}

/// A book snapshot: bids best first (descending), asks best first (ascending),
/// each level a `(price, quantity)` pair.
#[derive(Clone, Debug)]
pub struct OrderbookSnapshot {
    pub timestamp: u64,
    pub bids: Vec<(Dec, Dec)>,
    pub asks: Vec<(Dec, Dec)>,
}

/// An event of the merged stream.
#[derive(Clone, Debug)]
pub enum DataEvent {
    Trade(TradeEvent),
    Orderbook(OrderbookSnapshot),
}

impl TradeEvent {
    pub open spec fn wf(self) -> bool {
        self.price.wf() && self.quantity.wf()
    }
}

impl OrderbookSnapshot {
    pub open spec fn wf(self) -> bool {
        &&& forall|i: int| 0 <= i < self.bids@.len() ==> (#[trigger] self.bids@[i]).0.wf()
        &&& forall|i: int| 0 <= i < self.asks@.len() ==> (#[trigger] self.asks@[i]).0.wf()
    }
}

impl DataEvent {
    pub open spec fn time(self) -> u64 {
        match self {
            DataEvent::Trade(t) => t.timestamp,
            DataEvent::Orderbook(o) => o.timestamp,
        }
    }

    /// The event's timestamp in milliseconds.
    pub fn timestamp(&self) -> (r: u64)
        ensures
            r == self.time(),
    {
        match self {
            DataEvent::Trade(t) => t.timestamp,
            DataEvent::Orderbook(o) => o.timestamp,
        }
    }
}

/// Price of the first level of a side, or zero when the side is empty.
pub open spec fn best_price(levels: Seq<(Dec, Dec)>) -> Dec {
    if levels.len() > 0 {
        levels[0].0
    } else {
        Dec { mantissa: 0, scale: 0 }
    }
}

/// Price of the last level of a side, or `fallback` when the side is empty.
pub open spec fn far_price(levels: Seq<(Dec, Dec)>, fallback: Dec) -> Dec {
    if levels.len() > 0 {
        levels.last().0
    } else {
        fallback
    }
}

/// Price of the first level, or zero.
pub fn first_price(levels: &Vec<(Dec, Dec)>) -> (r: Dec)
    ensures
        r == best_price(levels@),
{
    if levels.len() > 0 {
        levels[0].0
    } else {
        Dec { mantissa: 0, scale: 0 }
    }
}

/// Price of the last level, or `fallback`.
pub fn last_price(levels: &Vec<(Dec, Dec)>, fallback: Dec) -> (r: Dec)
    ensures
        r == far_price(levels@, fallback),
{
    if levels.len() > 0 {
        levels[levels.len() - 1].0
    } else {
        fallback
    }
}

/// The interleaving of two time-ordered streams from positions `i` and `j`: each
/// entry names its stream (`true` for trades) and its index there. The earlier
/// timestamp goes first; a trade goes before a snapshot of the same time.
pub open spec fn merge_from(trade_ts: Seq<u64>, book_ts: Seq<u64>, i: int, j: int) -> Seq<(bool, usize)>
    decreases trade_ts.len() - i + book_ts.len() - j,
{
    if i < 0 || j < 0 || i > trade_ts.len() || j > book_ts.len() {
        Seq::empty()
    } else if i < trade_ts.len() && (j >= book_ts.len() || trade_ts[i] <= book_ts[j]) {
        seq![(true, i as usize)] + merge_from(trade_ts, book_ts, i + 1, j)
    } else if j < book_ts.len() {
        seq![(false, j as usize)] + merge_from(trade_ts, book_ts, i, j + 1)
    } else {
        Seq::empty()
    }
}

/// The order in which a trade stream and a snapshot stream, each in time order,
/// are replayed as one: by timestamp, trades first on a tie.
pub fn merge_order(trade_ts: &Vec<u64>, book_ts: &Vec<u64>) -> (r: Vec<(bool, usize)>)
    ensures
        r@ == merge_from(trade_ts@, book_ts@, 0, 0),
        r@.len() == trade_ts@.len() + book_ts@.len(),
{
    let mut out: Vec<(bool, usize)> = Vec::new();
    let mut i: usize = 0;
    let mut j: usize = 0;
    proof {
        lemma_merge_len(trade_ts@, book_ts@, 0, 0);
    }
    while i < trade_ts.len() || j < book_ts.len()
        invariant
            i <= trade_ts.len(),
            j <= book_ts.len(),
            out@ + merge_from(trade_ts@, book_ts@, i as int, j as int) == merge_from(trade_ts@, book_ts@, 0, 0),
            out@.len() == i + j,
        decreases trade_ts.len() - i + book_ts.len() - j,
    {
        let ghost rest = merge_from(trade_ts@, book_ts@, i as int, j as int);
        let take_trade = i < trade_ts.len() && (j >= book_ts.len() || trade_ts[i] <= book_ts[j]);
        if take_trade {
            proof {
                let x = (true, i as usize);
                assert(rest == seq![x] + merge_from(trade_ts@, book_ts@, i + 1, j as int));
                assert(out@.push(x) + merge_from(trade_ts@, book_ts@, i + 1, j as int) == out@ + rest);
            }
            out.push((true, i));
            i = i + 1;
        } else {
            proof {
                let x = (false, j as usize);
                assert(rest == seq![x] + merge_from(trade_ts@, book_ts@, i as int, j + 1));
                assert(out@.push(x) + merge_from(trade_ts@, book_ts@, i as int, j + 1) == out@ + rest);
            }
            out.push((false, j));
            j = j + 1;
        }
    }
    proof {
        assert(merge_from(trade_ts@, book_ts@, i as int, j as int) == Seq::<(bool, usize)>::empty());
        assert(out@ == out@ + Seq::<(bool, usize)>::empty());
    }
    out
}

proof fn lemma_merge_len(trade_ts: Seq<u64>, book_ts: Seq<u64>, i: int, j: int)
    requires
        0 <= i <= trade_ts.len(),
        0 <= j <= book_ts.len(),
    ensures
        merge_from(trade_ts, book_ts, i, j).len() == trade_ts.len() - i + book_ts.len() - j,
    decreases trade_ts.len() - i + book_ts.len() - j,
{
    if i < trade_ts.len() && (j >= book_ts.len() || trade_ts[i] <= book_ts[j]) {
        lemma_merge_len(trade_ts, book_ts, i + 1, j);
    } else if j < book_ts.len() {
        lemma_merge_len(trade_ts, book_ts, i, j + 1);
    }
}

/// Replayed in merge order, two time-ordered streams give a time-ordered stream.
pub proof fn lemma_merge_sorted(trade_ts: Seq<u64>, book_ts: Seq<u64>, i: int, j: int)
    requires
        0 <= i <= trade_ts.len() <= usize::MAX,
        0 <= j <= book_ts.len() <= usize::MAX,
        forall|a: int, b: int| 0 <= a <= b < trade_ts.len() ==> trade_ts[a] <= trade_ts[b],
        forall|a: int, b: int| 0 <= a <= b < book_ts.len() ==> book_ts[a] <= book_ts[b],
    ensures
        ({
            let m = merge_from(trade_ts, book_ts, i, j);
            let time = |e: (bool, usize)| if e.0 { trade_ts[e.1 as int] } else { book_ts[e.1 as int] };
            &&& forall|a: int, b: int| 0 <= a <= b < m.len() ==> time(m[a]) <= time(m[b])
            &&& forall|a: int| 0 <= a < m.len() ==> (if m[a].0 {
                i <= m[a].1 < trade_ts.len()
            } else {
                j <= m[a].1 < book_ts.len()
            })
        }),
    decreases trade_ts.len() - i + book_ts.len() - j,
{
    let m = merge_from(trade_ts, book_ts, i, j);
    let time = |e: (bool, usize)| if e.0 { trade_ts[e.1 as int] } else { book_ts[e.1 as int] };
    if i < trade_ts.len() && (j >= book_ts.len() || trade_ts[i] <= book_ts[j]) {
        lemma_merge_sorted(trade_ts, book_ts, i + 1, j);
        let rest = merge_from(trade_ts, book_ts, i + 1, j);
        assert forall|a: int| 0 <= a < rest.len() implies time(m[0]) <= time(#[trigger] rest[a]) by {
            if rest[a].0 {
            } else {
            }
        }
        assert forall|a: int, b: int| 0 <= a <= b < m.len() implies time(m[a]) <= time(m[b]) by {
            if a > 0 {
                assert(m[a] == rest[a - 1]);
                assert(m[b] == rest[b - 1]);
            } else if b > 0 {
                assert(m[b] == rest[b - 1]);
            }
        }
        assert forall|a: int| 0 <= a < m.len() implies (if m[a].0 {
            i <= m[a].1 < trade_ts.len()
        } else {
            j <= m[a].1 < book_ts.len()
        }) by {
            if a > 0 {
                assert(m[a] == rest[a - 1]);
            }
        }
    } else if j < book_ts.len() {
        lemma_merge_sorted(trade_ts, book_ts, i, j + 1);
        let rest = merge_from(trade_ts, book_ts, i, j + 1);
        assert forall|a: int| 0 <= a < rest.len() implies time(m[0]) <= time(#[trigger] rest[a]) by {
            if rest[a].0 {
            } else {
            }
        }
        assert forall|a: int, b: int| 0 <= a <= b < m.len() implies time(m[a]) <= time(m[b]) by {
            if a > 0 {
                assert(m[a] == rest[a - 1]);
                assert(m[b] == rest[b - 1]);
            } else if b > 0 {
                assert(m[b] == rest[b - 1]);
            }
        }
        assert forall|a: int| 0 <= a < m.len() implies (if m[a].0 {
            i <= m[a].1 < trade_ts.len()
        } else {
            j <= m[a].1 < book_ts.len()
        }) by {
            if a > 0 {
                assert(m[a] == rest[a - 1]);
            }
        }
    }
}

/// The levels of one side from rows `(bid price, bid qty, ask price, ask qty)`:
/// the rows whose price on that side is positive, in row order.
pub open spec fn side_levels(rows: Seq<(Dec, Dec, Dec, Dec)>, bid: bool) -> Seq<(Dec, Dec)>
    decreases rows.len(),
{
    if rows.len() == 0 {
        Seq::empty()
    } else {
        let prev = side_levels(rows.drop_last(), bid);
        let r = rows.last();
        let level = if bid { (r.0, r.1) } else { (r.2, r.3) };
        if level.0.value() > 0 {
            prev.push(level)
        } else {
            prev
        }
    }
}

pub open spec fn rows_wf(rows: Seq<(Dec, Dec, Dec, Dec)>) -> bool {
    forall|i: int| 0 <= i < rows.len() ==> (#[trigger] rows[i]).0.wf() && rows[i].1.wf() && rows[i].2.wf() && rows[i].3.wf()
}

/// A snapshot from the level rows of a book record; a level whose price is not
/// positive is an absent level.
pub fn snapshot_from_levels(timestamp: u64, rows: &Vec<(Dec, Dec, Dec, Dec)>) -> (r: OrderbookSnapshot)
    requires
        rows_wf(rows@),
    ensures
        r.timestamp == timestamp,
        r.bids@ == side_levels(rows@, true),
        r.asks@ == side_levels(rows@, false),
        r.wf(),
{
    let mut bids: Vec<(Dec, Dec)> = Vec::new();
    let mut asks: Vec<(Dec, Dec)> = Vec::new();
    let mut i: usize = 0;
    while i < rows.len()
        invariant
            i <= rows.len(),
            rows_wf(rows@),
            bids@ == side_levels(rows@.subrange(0, i as int), true),
            asks@ == side_levels(rows@.subrange(0, i as int), false),
            forall|k: int| 0 <= k < bids@.len() ==> (#[trigger] bids@[k]).0.wf(),
            forall|k: int| 0 <= k < asks@.len() ==> (#[trigger] asks@[k]).0.wf(),
        decreases rows.len() - i,
    {
        let (bp, bq, ap, aq) = rows[i];
        proof {
            assert(rows@.subrange(0, i + 1).drop_last() == rows@.subrange(0, i as int));
            assert(rows@[i as int].0.wf() && rows@[i as int].2.wf());
        }
        if bp.is_positive() {
            bids.push((bp, bq));
        }
        if ap.is_positive() {
            asks.push((ap, aq));
        }
        i = i + 1;
    }
    proof {
        assert(rows@.subrange(0, rows.len() as int) == rows@);
    }
    OrderbookSnapshot { timestamp, bids, asks }
}

/// `e` is a trade with the time, price, quantity and side of `t` (prices and
/// quantities compared as numbers).
pub open spec fn same_trade(e: DataEvent, t: TradeEvent) -> bool {
    match e {
        DataEvent::Trade(u) => u.timestamp == t.timestamp && u.price.value() == t.price.value()
            && u.quantity.value() == t.quantity.value() && u.is_buyer_maker == t.is_buyer_maker,
        DataEvent::Orderbook(_) => false,
    }
}

/// Event `k` is a trade that repeats an earlier one of the same run of events
/// with its timestamp.
pub open spec fn repeats(events: Seq<DataEvent>, k: int) -> bool {
    match events[k] {
        DataEvent::Trade(t) => exists|m: int|
            0 <= m < k && #[trigger] same_trade(events[m], t) && forall|l: int| m <= l <= k ==> (#[trigger] events[l]).time() == t.timestamp,
        DataEvent::Orderbook(_) => false,
    }
}

pub open spec fn events_wf(events: Seq<DataEvent>) -> bool {
    forall|i: int| 0 <= i < events.len() ==> match #[trigger] events[i] {
        DataEvent::Trade(t) => t.wf(),
        DataEvent::Orderbook(_) => true,
    }
}

/// Which events to keep: all but trades that repeat a trade (same time, price,
/// quantity and side) of the same run of equal timestamps.
pub fn drop_repeated_trades(events: &Vec<DataEvent>) -> (keep: Vec<bool>)
    requires
        events_wf(events@),
    ensures
        keep@.len() == events@.len(),
        forall|k: int| 0 <= k < events@.len() ==> keep@[k] == !repeats(events@, k),
{
    let mut keep: Vec<bool> = Vec::new();
    let mut k: usize = 0;
    while k < events.len()
        invariant
            k <= events.len(),
            events_wf(events@),
            keep@.len() == k,
            forall|j: int| 0 <= j < k ==> keep@[j] == !repeats(events@, j),
        decreases events.len() - k,
    {
        let dup = match &events[k] {
            DataEvent::Trade(t) => {
                proof {
                    assert(events_wf(events@));
                    assert(events@[k as int] matches DataEvent::Trade(u) && u.wf());
                }
                let ts = t.timestamp;
                let mut found = false;
                let mut stop = false;
                let mut m: usize = k;
                while m > 0 && !found && !stop
                    invariant
                        m <= k < events@.len(),
                        events_wf(events@),
                        t.wf(),
                        events@[k as int] == DataEvent::Trade(*t),
                        ts == t.timestamp,
                        found ==> repeats(events@, k as int),
                        !found ==> forall|l: int| m <= l <= k ==> (#[trigger] events@[l]).time() == ts,
                        !found ==> forall|l: int| m <= l < k ==> !same_trade(#[trigger] events@[l], *t),
                        stop ==> !found && m > 0 && events@[m - 1].time() != ts,
                    decreases m + if stop { 0int } else { 1int },
                {
                    let e = &events[m - 1];
                    if e.timestamp() != ts {
                        stop = true;
                    } else {
                        let same = match e {
                            DataEvent::Trade(u) => {
                                proof {
                                    assert(events@[m - 1] matches DataEvent::Trade(x) && x.wf());
                                }
                                u.timestamp == ts && u.price.same_value(t.price) && u.quantity.same_value(t.quantity)
                                    && u.is_buyer_maker == t.is_buyer_maker
                            },
                            DataEvent::Orderbook(_) => false,
                        };
                        if same {
                            proof {
                                assert(same_trade(events@[m - 1], *t));
                                assert forall|l: int| m - 1 <= l <= k implies (#[trigger] events@[l]).time() == t.timestamp by {}
                            }
                            found = true;
                        }
                        m = m - 1;
                    }
                }
                proof {
                    if !found {
                        assert forall|x: int|
                            0 <= x < k && #[trigger] same_trade(events@[x], *t) implies !(forall|l: int|
                                x <= l <= k ==> (#[trigger] events@[l]).time() == t.timestamp) by {
                            if x >= m {
                            } else {
                                assert(events@[m - 1].time() != ts);
                            }
                        }
                    }
                }
                found
            },
            DataEvent::Orderbook(_) => false,
        };
        keep.push(!dup);
        k = k + 1;
    }
    keep
}

} // verus!
