//! Chart state and the candle aggregator.
//!
//! Bar ticks from the market data stream are folded into an in-memory candle
//! series, one candle per bucket-aligned period of the chart's timeframe.
//! A tick for the period of the last candle is merged into it; a tick for a
//! later period opens a new candle; a late tick for an already-closed period
//! is dropped. A tick with a malformed numeric field or timestamp drops that
//! tick alone, never the stream.

use crate::decimal::{spec_parse_price, spec_parse_volume, parse_price, parse_volume};
use crate::stream::BarUpdate;
use crate::timeframe::{
    Timeframe, align_to_timeframe, in_rfc3339_range, parse_rfc3339_epoch, parse_timeframe,
    rfc3339_epoch, spec_align, spec_timeframe, str_eq,
};
use vstd::prelude::*;

verus! {

/// One OHLCV aggregate over a fixed time bucket.
///
/// `open` is set once, from the first tick observed for the bucket, and never
/// overwritten; `high` and `low` are running extrema; `close` and `timestamp`
/// reflect the most recent tick merged into the bucket; `volume` is the sum
/// of the merged ticks' volumes. Prices are fixed-point values scaled by
/// [`crate::decimal::PRICE_SCALE`].
#[derive(Clone, Copy, PartialEq, Eq, Structural, Debug)]
pub struct Candle {
    /// Epoch second of the latest tick merged into the bucket.
    pub timestamp: i64,
    pub open: i64,
    pub high: i64,
    pub low: i64,
    pub close: i64,
    pub volume: u64,
    pub trade_count: Option<u64>,
    pub vwap: Option<i64>,
}

/// The numeric field of a bar tick that failed to parse.
#[derive(Clone, Copy, PartialEq, Eq, Structural, Debug)]
pub enum BarParseError {
    Timestamp,
    Open,
    High,
    Low,
    Close,
    Volume,
}

/// What one fold of a bar tick did to the series.
#[derive(Clone, Copy, PartialEq, Eq, Structural, Debug)]
pub enum FoldOutcome {
    /// The tick was merged into the last candle of its bucket.
    Merged,
    /// The tick opened a new bucket (or seeded an empty series).
    Appended,
    /// The tick's bucket is already closed; the series is untouched.
    DroppedStale,
    /// The tick is for another symbol; the chart is untouched.
    SymbolMismatch,
    /// A numeric field or the timestamp failed to parse; nothing changed.
    ParseFailed(BarParseError),
}

/// Conversion of a wire bar tick into a candle seed: the timestamp must be
/// RFC3339, prices must be decimal strings and the volume an integer string;
/// the first malformed field names the error. An unparseable VWAP only
/// leaves that field unset.
pub open spec fn spec_convert_bar(b: BarUpdate) -> Result<Candle, BarParseError> {
    if rfc3339_epoch(b.timestamp@) is None {
        Err(BarParseError::Timestamp)
    } else if spec_parse_price(b.open@) is None {
        Err(BarParseError::Open)
    } else if spec_parse_price(b.high@) is None {
        Err(BarParseError::High)
    } else if spec_parse_price(b.low@) is None {
        Err(BarParseError::Low)
    } else if spec_parse_price(b.close@) is None {
        Err(BarParseError::Close)
    } else if spec_parse_volume(b.volume@) is None {
        Err(BarParseError::Volume)
    } else {
        Ok(
            Candle {
                timestamp: rfc3339_epoch(b.timestamp@).unwrap(),
                open: spec_parse_price(b.open@).unwrap(),
                high: spec_parse_price(b.high@).unwrap(),
                low: spec_parse_price(b.low@).unwrap(),
                close: spec_parse_price(b.close@).unwrap(),
                volume: spec_parse_volume(b.volume@).unwrap(),
                trade_count: b.trade_count,
                vwap: match b.vwap {
                    Some(v) => spec_parse_price(v@),
                    None => None,
                },
            },
        )
    }
}

/// Converts a bar update from the stream to a candle seed.
pub fn convert_bar_update_to_bar(bar_update: &BarUpdate) -> (r: Result<Candle, BarParseError>)
    ensures
        r == spec_convert_bar(*bar_update),
        r matches Ok(c) ==> in_rfc3339_range(c.timestamp),
{
    let timestamp = match parse_rfc3339_epoch(bar_update.timestamp.as_str()) {
        Some(t) => t,
        None => {
            return Err(BarParseError::Timestamp);
        },
    };
    let open = match parse_price(bar_update.open.as_str()) {
        Some(v) => v,
        None => {
            return Err(BarParseError::Open);
        },
    };
    let high = match parse_price(bar_update.high.as_str()) {
        Some(v) => v,
        None => {
            return Err(BarParseError::High);
        },
    };
    let low = match parse_price(bar_update.low.as_str()) {
        Some(v) => v,
        None => {
            return Err(BarParseError::Low);
        },
    };
    let close = match parse_price(bar_update.close.as_str()) {
        Some(v) => v,
        None => {
            return Err(BarParseError::Close);
        },
    };
    let volume = match parse_volume(bar_update.volume.as_str()) {
        Some(v) => v,
        None => {
            return Err(BarParseError::Volume);
        },
    };
    let vwap = match &bar_update.vwap {
        Some(v) => parse_price(v.as_str()),
        None => None,
    };
    Ok(
        Candle {
            timestamp,
            open,
            high,
            low,
            close,
            volume,
            trade_count: bar_update.trade_count,
            vwap,
        },
    )
}

/// The candle `last` with the same-bucket tick `c` merged in: running
/// extrema for high and low, latest close and timestamp, summed volume and
/// trade count (saturating), untouched open and VWAP.
pub open spec fn merge_candle(last: Candle, c: Candle) -> Candle {
    Candle {
        timestamp: c.timestamp,
        open: last.open,
        high: if c.high > last.high {
            c.high
        } else {
            last.high
        },
        low: if c.low < last.low {
            c.low
        } else {
            last.low
        },
        close: c.close,
        volume: sat_add_spec(last.volume, c.volume),
        trade_count: match (last.trade_count, c.trade_count) {
            (Some(a), Some(b)) => Some(sat_add_spec(a, b)),
            _ => last.trade_count,
        },
        vwap: last.vwap,
    }
}

/// Saturating sum of two volumes.
pub open spec fn sat_add_spec(a: u64, b: u64) -> u64 {
    if a + b > u64::MAX {
        u64::MAX
    } else {
        (a + b) as u64
    }
}

/// One fold step on the candle sequence: seed an empty series, merge an
/// equal-bucket tick into the last candle, append a later-bucket tick, drop
/// an earlier-bucket tick.
pub open spec fn fold_one(tf: Timeframe, s: Seq<Candle>, c: Candle) -> Seq<Candle> {
    if s.len() == 0 {
        seq![c]
    } else if spec_align(tf, c.timestamp) == spec_align(tf, s.last().timestamp) {
        s.update(s.len() - 1, merge_candle(s.last(), c))
    } else if spec_align(tf, c.timestamp) > spec_align(tf, s.last().timestamp) {
        s.push(c)
    } else {
        s
    }
}

/// Folding a sequence of ticks, left to right.
pub open spec fn fold_all(tf: Timeframe, s: Seq<Candle>, ticks: Seq<Candle>) -> Seq<Candle>
    decreases ticks.len(),
{
    if ticks.len() == 0 {
        s
    } else {
        fold_all(tf, fold_one(tf, s, ticks.first()), ticks.drop_first())
    }
}

/// Chronologically ordered candle series of one symbol/timeframe pair.
pub struct CandleSeries {
    /// Timeframe string; an unrecognized one disables bucket alignment.
    pub timeframe: String,
    pub candles: Vec<Candle>,
}

/// Every candle timestamp is a possible RFC3339 epoch, and the aligned
/// bucket timestamps strictly increase: no duplicate buckets, in order.
pub open spec fn candles_wf(tf: Timeframe, s: Seq<Candle>) -> bool {
    &&& forall|i: int|
        0 <= i < s.len() ==> in_rfc3339_range((#[trigger] s[i]).timestamp)
    &&& forall|i: int|
        0 <= i && i + 1 < s.len() ==> spec_align(tf, (#[trigger] s[i]).timestamp) < spec_align(
            tf,
            s[i + 1].timestamp,
        )
}

/// One fold step keeps the series well-formed.
#[verifier::rlimit(100)]
pub proof fn lemma_fold_one_wf(tf: Timeframe, s: Seq<Candle>, c: Candle)
    requires
        candles_wf(tf, s),
        in_rfc3339_range(c.timestamp),
    ensures
        candles_wf(tf, fold_one(tf, s, c)),
{
    let r = fold_one(tf, s, c);
    let n = s.len() as int;
    if s.len() == 0 {
        assert(r == seq![c]);
        assert(r[0] == c);
    } else if spec_align(tf, c.timestamp) == spec_align(tf, s.last().timestamp) {
        let m = merge_candle(s.last(), c);
        assert(r == s.update(n - 1, m));
        assert(m.timestamp == c.timestamp);
        assert forall|i: int| 0 <= i < r.len() implies in_rfc3339_range(
            (#[trigger] r[i]).timestamp,
        ) by {
            if i < n - 1 {
                assert(r[i] == s[i]);
            } else {
                assert(r[i] == m);
            }
        }
        assert forall|i: int|
            0 <= i && i + 1 < r.len() implies spec_align(tf, (#[trigger] r[i]).timestamp)
            < spec_align(tf, r[i + 1].timestamp) by {
            assert(spec_align(tf, s[i].timestamp) < spec_align(tf, s[i + 1].timestamp));
            if i + 1 == n - 1 {
                assert(r[i] == s[i] && r[i + 1] == m);
                assert(s[i + 1] == s.last());
            } else {
                assert(r[i] == s[i] && r[i + 1] == s[i + 1]);
            }
        }
    } else if spec_align(tf, c.timestamp) > spec_align(tf, s.last().timestamp) {
        assert(r == s.push(c));
        assert forall|i: int| 0 <= i < r.len() implies in_rfc3339_range(
            (#[trigger] r[i]).timestamp,
        ) by {
            if i < n {
                assert(r[i] == s[i]);
            } else {
                assert(r[i] == c);
            }
        }
        assert forall|i: int|
            0 <= i && i + 1 < r.len() implies spec_align(tf, (#[trigger] r[i]).timestamp)
            < spec_align(tf, r[i + 1].timestamp) by {
            if i + 1 < n {
                assert(r[i] == s[i] && r[i + 1] == s[i + 1]);
                assert(spec_align(tf, s[i].timestamp) < spec_align(tf, s[i + 1].timestamp));
            } else {
                assert(r[i] == s[n - 1] && r[i + 1] == c);
                assert(s[n - 1] == s.last());
            }
        }
    }
}

/// Folding ticks whose buckets lie strictly after the series' last bucket,
/// and strictly increase among themselves, appends each tick unchanged.
pub proof fn lemma_fold_appends(tf: Timeframe, s: Seq<Candle>, ticks: Seq<Candle>)
    requires
        forall|i: int|
            0 <= i && i + 1 < ticks.len() ==> spec_align(tf, (#[trigger] ticks[i]).timestamp)
                < spec_align(tf, ticks[i + 1].timestamp),
        s.len() > 0 && ticks.len() > 0 ==> spec_align(tf, s.last().timestamp) < spec_align(
            tf,
            ticks[0].timestamp,
        ),
    ensures
        fold_all(tf, s, ticks) == s + ticks,
    decreases ticks.len(),
{
    if ticks.len() == 0 {
        assert(s + ticks =~= s);
    } else {
        let t0 = ticks.first();
        let s1 = fold_one(tf, s, t0);
        if s.len() == 0 {
            assert(s1 =~= s.push(t0));
        } else {
            assert(s1 == s.push(t0));
        }
        let rest = ticks.drop_first();
        assert forall|i: int|
            0 <= i && i + 1 < rest.len() implies spec_align(tf, (#[trigger] rest[i]).timestamp)
            < spec_align(tf, rest[i + 1].timestamp) by {
            assert(rest[i] == ticks[i + 1]);
            assert(rest[i + 1] == ticks[i + 2]);
        }
        assert(s1.last() == t0);
        if rest.len() > 0 {
            assert(rest[0] == ticks[1]);
        }
        lemma_fold_appends(tf, s1, rest);
        assert(s1 + rest =~= s + ticks);
    }
}

/// Law: for bar ticks with strictly increasing aligned buckets, folding into
/// an empty series yields exactly one candle per tick, so the series length
/// equals the number of distinct buckets and each candle's open (indeed the
/// whole candle) is that of the first and only tick of its bucket.
pub proof fn lemma_increasing_ticks_one_candle_each(tf: Timeframe, ticks: Seq<Candle>)
    requires
        forall|i: int|
            0 <= i && i + 1 < ticks.len() ==> spec_align(tf, (#[trigger] ticks[i]).timestamp)
                < spec_align(tf, ticks[i + 1].timestamp),
    ensures
        fold_all(tf, Seq::<Candle>::empty(), ticks) == ticks,
        fold_all(tf, Seq::<Candle>::empty(), ticks).len() == ticks.len(),
        forall|i: int|
            0 <= i < ticks.len() ==> fold_all(tf, Seq::<Candle>::empty(), ticks)[i].open == (
            #[trigger] ticks[i]).open,
{
    lemma_fold_appends(tf, Seq::<Candle>::empty(), ticks);
    assert(Seq::<Candle>::empty() + ticks =~= ticks);
}

/// Law: two ticks of one bucket merge to a candle whose high is the maximum
/// of the two highs and whose low is the minimum of the two lows, in either
/// arrival order.
pub proof fn lemma_same_bucket_extrema(tf: Timeframe, t1: Candle, t2: Candle)
    requires
        spec_align(tf, t1.timestamp) == spec_align(tf, t2.timestamp),
    ensures
        ({
            let a = fold_all(tf, Seq::<Candle>::empty(), seq![t1, t2]);
            let b = fold_all(tf, Seq::<Candle>::empty(), seq![t2, t1]);
            &&& a.len() == 1
            &&& b.len() == 1
            &&& a[0].high == b[0].high
            &&& a[0].high == (if t1.high > t2.high {
                t1.high
            } else {
                t2.high
            })
            &&& a[0].low == b[0].low
            &&& a[0].low == (if t1.low < t2.low {
                t1.low
            } else {
                t2.low
            })
        }),
{
    lemma_two_ticks_one_bucket(tf, t1, t2);
    lemma_two_ticks_one_bucket(tf, t2, t1);
}

/// Folding two same-bucket ticks into an empty series leaves one candle:
/// the first tick seeded it and the second was merged in.
pub proof fn lemma_two_ticks_one_bucket(tf: Timeframe, t1: Candle, t2: Candle)
    requires
        spec_align(tf, t1.timestamp) == spec_align(tf, t2.timestamp),
    ensures
        fold_all(tf, Seq::<Candle>::empty(), seq![t1, t2]) == seq![merge_candle(t1, t2)],
{
    reveal_with_fuel(fold_all, 3);
    let e = Seq::<Candle>::empty();
    let ticks = seq![t1, t2];
    assert(ticks.first() == t1);
    assert(ticks.drop_first() =~= seq![t2]);
    assert(fold_one(tf, e, t1) =~= seq![t1]);
    assert(seq![t1].last() == t1);
    assert(fold_one(tf, seq![t1], t2) =~= seq![merge_candle(t1, t2)]);
    assert(seq![t2].drop_first() =~= Seq::<Candle>::empty());
}

/// Law: volume accumulation over one bucket is associative. Folding ticks
/// `a`, `b`, `c` of one bucket one at a time yields the same candle volume
/// as folding `a` and then `b` and `c` pre-summed, and the plain sum of the
/// three volumes whenever that sum fits the accumulator.
pub proof fn lemma_volume_accumulation(tf: Timeframe, a: Candle, b: Candle, c: Candle, bc: Candle)
    requires
        spec_align(tf, b.timestamp) == spec_align(tf, a.timestamp),
        spec_align(tf, c.timestamp) == spec_align(tf, a.timestamp),
        spec_align(tf, bc.timestamp) == spec_align(tf, a.timestamp),
        bc.volume == sat_add_spec(b.volume, c.volume),
    ensures
        ({
            let s3 = fold_all(tf, Seq::<Candle>::empty(), seq![a, b, c]);
            let s2 = fold_all(tf, Seq::<Candle>::empty(), seq![a, bc]);
            &&& s3.len() == 1
            &&& s2.len() == 1
            &&& s3[0].volume == s2[0].volume
            &&& s3[0].volume == sat_add_spec(sat_add_spec(a.volume, b.volume), c.volume)
            &&& (a.volume + b.volume + c.volume <= u64::MAX ==> s3[0].volume == a.volume
                + b.volume + c.volume)
        }),
{
    reveal_with_fuel(fold_all, 4);
    let e = Seq::<Candle>::empty();
    let ab = merge_candle(a, b);
    lemma_two_ticks_one_bucket(tf, a, b);
    let ticks = seq![a, b, c];
    assert(ticks.first() == a);
    assert(ticks.drop_first() =~= seq![b, c]);
    assert(seq![b, c].drop_first() =~= seq![c]);
    assert(seq![c].drop_first() =~= Seq::<Candle>::empty());
    assert(fold_one(tf, e, a) =~= seq![a]);
    assert(seq![a].last() == a);
    assert(fold_one(tf, seq![a], b) =~= seq![ab]);
    assert(seq![ab].last() == ab);
    assert(ab.timestamp == b.timestamp);
    assert(fold_one(tf, seq![ab], c) =~= seq![merge_candle(ab, c)]);
    lemma_two_ticks_one_bucket(tf, a, bc);
}

/// Law: a tick whose aligned bucket lies strictly before the last candle's
/// bucket never mutates the series, however many times it is folded.
pub proof fn lemma_stale_tick_no_op(tf: Timeframe, s: Seq<Candle>, c: Candle, k: nat)
    requires
        s.len() > 0,
        spec_align(tf, c.timestamp) < spec_align(tf, s.last().timestamp),
    ensures
        fold_one(tf, s, c) == s,
        fold_all(tf, s, Seq::new(k, |i: int| c)) == s,
    decreases k,
{
    if k > 0 {
        let reps = Seq::new(k, (|i: int| c));
        assert(reps.first() == c);
        assert(reps.drop_first() =~= Seq::new((k - 1) as nat, (|i: int| c)));
        lemma_stale_tick_no_op(tf, s, c, (k - 1) as nat);
    }
}

/// Law: merging a same-bucket tick never overwrites a candle's open, and
/// one fold step never changes any existing candle's open or bucket, nor
/// shortens the series.
pub proof fn lemma_fold_one_keeps_opens(tf: Timeframe, s: Seq<Candle>, c: Candle)
    ensures
        merge_candle(s.last(), c).open == s.last().open,
        fold_one(tf, s, c).len() >= s.len(),
        forall|i: int|
            0 <= i < s.len() ==> (#[trigger] fold_one(tf, s, c)[i]).open == s[i].open
                && spec_align(tf, fold_one(tf, s, c)[i].timestamp) == spec_align(
                tf,
                s[i].timestamp,
            ),
{
    let r = fold_one(tf, s, c);
    assert forall|i: int|
        0 <= i < s.len() implies (#[trigger] r[i]).open == s[i].open && spec_align(
        tf,
        r[i].timestamp,
    ) == spec_align(tf, s[i].timestamp) by {
        if s.len() > 0 && spec_align(tf, c.timestamp) == spec_align(tf, s.last().timestamp)
            && i == s.len() - 1 {
            assert(r[i] == merge_candle(s.last(), c));
        }
    }
}

/// Folding any tick sequence never changes an existing candle's open or
/// bucket, nor shortens the series.
pub proof fn lemma_fold_all_keeps_opens(tf: Timeframe, s: Seq<Candle>, ticks: Seq<Candle>)
    ensures
        fold_all(tf, s, ticks).len() >= s.len(),
        forall|i: int|
            0 <= i < s.len() ==> (#[trigger] fold_all(tf, s, ticks)[i]).open == s[i].open
                && spec_align(tf, fold_all(tf, s, ticks)[i].timestamp) == spec_align(
                tf,
                s[i].timestamp,
            ),
    decreases ticks.len(),
{
    if ticks.len() > 0 {
        let s1 = fold_one(tf, s, ticks.first());
        lemma_fold_one_keeps_opens(tf, s, ticks.first());
        lemma_fold_all_keeps_opens(tf, s1, ticks.drop_first());
    }
}

/// The candle `c` took its open from the first tick of its bucket.
pub open spec fn open_from_first_of_bucket(tf: Timeframe, ticks: Seq<Candle>, c: Candle) -> bool {
    exists|i: int|
        {
            &&& 0 <= i < ticks.len()
            &&& spec_align(tf, (#[trigger] ticks[i]).timestamp) == spec_align(tf, c.timestamp)
            &&& c.open == ticks[i].open
            &&& forall|i2: int|
                0 <= i2 < i ==> spec_align(tf, (#[trigger] ticks[i2]).timestamp) != spec_align(
                    tf,
                    ticks[i].timestamp,
                )
        }
}

/// With adjacent buckets non-decreasing, buckets are ordered across the
/// whole sequence.
proof fn lemma_bucket_chain(tf: Timeframe, ticks: Seq<Candle>, i: int, j: int)
    requires
        forall|k: int|
            0 <= k && k + 1 < ticks.len() ==> spec_align(tf, (#[trigger] ticks[k]).timestamp)
                <= spec_align(tf, ticks[k + 1].timestamp),
        0 <= i <= j < ticks.len(),
    ensures
        spec_align(tf, ticks[i].timestamp) <= spec_align(tf, ticks[j].timestamp),
    decreases j - i,
{
    if i < j {
        lemma_bucket_chain(tf, ticks, i, j - 1);
    }
}

/// Folding distributes over appending one tick at the end.
proof fn lemma_fold_all_push(tf: Timeframe, s: Seq<Candle>, ticks: Seq<Candle>, c: Candle)
    ensures
        fold_all(tf, s, ticks.push(c)) == fold_one(tf, fold_all(tf, s, ticks), c),
    decreases ticks.len(),
{
    reveal_with_fuel(fold_all, 2);
    let p = ticks.push(c);
    if ticks.len() == 0 {
        assert(p.first() == c);
        assert(p.drop_first() =~= Seq::<Candle>::empty());
        assert(fold_all(tf, s, p) == fold_all(tf, fold_one(tf, s, c), Seq::<Candle>::empty()));
        assert(fold_all(tf, s, ticks) == s);
    } else {
        assert(p.first() == ticks.first());
        assert(p.drop_first() =~= ticks.drop_first().push(c));
        let s1 = fold_one(tf, s, ticks.first());
        assert(fold_all(tf, s, p) == fold_all(tf, s1, ticks.drop_first().push(c)));
        lemma_fold_all_push(tf, s1, ticks.drop_first(), c);
        assert(fold_all(tf, s, ticks) == fold_all(tf, s1, ticks.drop_first()));
    }
}

/// An origin among the first ticks is an origin among them all.
proof fn lemma_origin_lift(tf: Timeframe, ticks: Seq<Candle>, c: Candle)
    requires
        ticks.len() > 0,
        open_from_first_of_bucket(tf, ticks.drop_last(), c),
    ensures
        open_from_first_of_bucket(tf, ticks, c),
{
    let prefix = ticks.drop_last();
    let i = choose|i: int|
        {
            &&& 0 <= i < prefix.len()
            &&& spec_align(tf, (#[trigger] prefix[i]).timestamp) == spec_align(tf, c.timestamp)
            &&& c.open == prefix[i].open
            &&& forall|i2: int|
                0 <= i2 < i ==> spec_align(tf, (#[trigger] prefix[i2]).timestamp) != spec_align(
                    tf,
                    prefix[i].timestamp,
                )
        };
    assert(ticks[i] == prefix[i]);
    assert forall|i2: int|
        0 <= i2 < i implies spec_align(tf, (#[trigger] ticks[i2]).timestamp) != spec_align(
        tf,
        ticks[i].timestamp,
    ) by {
        assert(ticks[i2] == prefix[i2]);
    }
}

/// Law: folding bar ticks whose aligned buckets never decrease into an
/// empty series yields a series where every candle's open is the open of
/// the first tick that mapped to its bucket — a merge never overwrites an
/// open, and only a strictly later bucket opens a new candle.
pub proof fn lemma_opens_come_from_first_tick_of_bucket(tf: Timeframe, ticks: Seq<Candle>)
    requires
        forall|k: int|
            0 <= k && k + 1 < ticks.len() ==> spec_align(tf, (#[trigger] ticks[k]).timestamp)
                <= spec_align(tf, ticks[k + 1].timestamp),
    ensures
        fold_all(tf, Seq::<Candle>::empty(), ticks).len() == 0 <==> ticks.len() == 0,
        ticks.len() > 0 ==> spec_align(
            tf,
            fold_all(tf, Seq::<Candle>::empty(), ticks).last().timestamp,
        ) == spec_align(tf, ticks.last().timestamp),
        forall|j: int|
            0 <= j < fold_all(tf, Seq::<Candle>::empty(), ticks).len()
                ==> open_from_first_of_bucket(
                tf,
                ticks,
                #[trigger] fold_all(tf, Seq::<Candle>::empty(), ticks)[j],
            ),
    decreases ticks.len(),
{
    let e = Seq::<Candle>::empty();
    let r = fold_all(tf, e, ticks);
    if ticks.len() > 0 {
        let prefix = ticks.drop_last();
        let t = ticks.last();
        assert forall|k: int|
            0 <= k && k + 1 < prefix.len() implies spec_align(
            tf,
            (#[trigger] prefix[k]).timestamp,
        ) <= spec_align(tf, prefix[k + 1].timestamp) by {
            assert(prefix[k] == ticks[k] && prefix[k + 1] == ticks[k + 1]);
        }
        lemma_opens_come_from_first_tick_of_bucket(tf, prefix);
        let r0 = fold_all(tf, e, prefix);
        assert(prefix.push(t) =~= ticks);
        lemma_fold_all_push(tf, e, prefix, t);
        assert(r == fold_one(tf, r0, t));
        if prefix.len() == 0 {
            assert(r =~= seq![t]);
            assert(ticks[0] == t);
            assert(open_from_first_of_bucket(tf, ticks, r[0])) by {
                assert(spec_align(tf, ticks[0].timestamp) == spec_align(tf, r[0].timestamp));
            }
        } else {
            assert(prefix.last() == ticks[ticks.len() - 2]);
            assert(spec_align(tf, prefix.last().timestamp) <= spec_align(tf, t.timestamp));
            let n = r0.len() as int;
            assert(spec_align(tf, r0.last().timestamp) == spec_align(tf, prefix.last().timestamp));
            if spec_align(tf, t.timestamp) == spec_align(tf, r0.last().timestamp) {
                let m = merge_candle(r0.last(), t);
                assert(r == r0.update(n - 1, m));
                assert forall|j: int|
                    0 <= j < r.len() implies open_from_first_of_bucket(
                    tf,
                    ticks,
                    #[trigger] r[j],
                ) by {
                    if j < n - 1 {
                        assert(r[j] == r0[j]);
                        assert(open_from_first_of_bucket(tf, prefix, r0[j]));
                        lemma_origin_lift(tf, ticks, r0[j]);
                    } else {
                        assert(r[j] == m);
                        assert(open_from_first_of_bucket(tf, prefix, r0.last()));
                        lemma_origin_lift(tf, ticks, r0.last());
                        assert(m.open == r0.last().open);
                        assert(spec_align(tf, m.timestamp) == spec_align(
                            tf,
                            r0.last().timestamp,
                        ));
                        lemma_origin_same_bucket(tf, ticks, r0.last(), m);
                    }
                }
            } else {
                assert(spec_align(tf, t.timestamp) > spec_align(tf, r0.last().timestamp));
                assert(r == r0.push(t));
                assert forall|j: int|
                    0 <= j < r.len() implies open_from_first_of_bucket(
                    tf,
                    ticks,
                    #[trigger] r[j],
                ) by {
                    if j < n {
                        assert(r[j] == r0[j]);
                        assert(open_from_first_of_bucket(tf, prefix, r0[j]));
                        lemma_origin_lift(tf, ticks, r0[j]);
                    } else {
                        assert(r[j] == t);
                        let last = ticks.len() - 1;
                        assert forall|i2: int|
                            0 <= i2 < last implies spec_align(
                            tf,
                            (#[trigger] ticks[i2]).timestamp,
                        ) != spec_align(tf, ticks[last].timestamp) by {
                            lemma_bucket_chain(tf, ticks, i2, ticks.len() - 2);
                        }
                        assert(ticks[last] == t);
                        assert(open_from_first_of_bucket(tf, ticks, r[j]));
                    }
                }
            }
        }
    }
}

/// A candle with the same open and bucket as one with an origin has that
/// origin too.
proof fn lemma_origin_same_bucket(tf: Timeframe, ticks: Seq<Candle>, a: Candle, b: Candle)
    requires
        open_from_first_of_bucket(tf, ticks, a),
        b.open == a.open,
        spec_align(tf, b.timestamp) == spec_align(tf, a.timestamp),
    ensures
        open_from_first_of_bucket(tf, ticks, b),
{
}

/// Law: volume accumulation into an existing bucket is a running sum.
/// Folding same-bucket ticks `a`, `b`, `c` onto a series whose last candle
/// holds `v0` leaves one candle more than none: the same series shape with
/// the last volume the saturating sum of `v0` and the three tick volumes —
/// the same as folding `a` and then `b` and `c` pre-summed, and the exact
/// sum whenever it fits the accumulator.
pub proof fn lemma_volume_accumulation_into_series(
    tf: Timeframe,
    s: Seq<Candle>,
    a: Candle,
    b: Candle,
    c: Candle,
    bc: Candle,
)
    requires
        s.len() > 0,
        spec_align(tf, a.timestamp) == spec_align(tf, s.last().timestamp),
        spec_align(tf, b.timestamp) == spec_align(tf, a.timestamp),
        spec_align(tf, c.timestamp) == spec_align(tf, b.timestamp),
        spec_align(tf, bc.timestamp) == spec_align(tf, a.timestamp),
        bc.volume == sat_add_spec(b.volume, c.volume),
    ensures
        ({
            let r3 = fold_all(tf, s, seq![a, b, c]);
            let r2 = fold_all(tf, s, seq![a, bc]);
            &&& r3.len() == s.len()
            &&& r2.len() == s.len()
            &&& r3.last().volume == r2.last().volume
            &&& r3.last().volume == sat_add_spec(
                sat_add_spec(sat_add_spec(s.last().volume, a.volume), b.volume),
                c.volume,
            )
            &&& (s.last().volume + a.volume + b.volume + c.volume <= u64::MAX ==> r3.last().volume
                == s.last().volume + a.volume + b.volume + c.volume)
        }),
{
    reveal_with_fuel(fold_all, 4);
    let n = s.len() as int;
    let m1 = merge_candle(s.last(), a);
    let s1 = s.update(n - 1, m1);
    assert(seq![a, b, c].first() == a);
    assert(seq![a, b, c].drop_first() =~= seq![b, c]);
    assert(seq![b, c].drop_first() =~= seq![c]);
    assert(seq![c].drop_first() =~= Seq::<Candle>::empty());
    assert(seq![a, bc].first() == a);
    assert(seq![a, bc].drop_first() =~= seq![bc]);
    assert(seq![bc].drop_first() =~= Seq::<Candle>::empty());
    assert(fold_one(tf, s, a) == s1);
    assert(s1.last() == m1);
    let m2 = merge_candle(m1, b);
    let s2 = s1.update(n - 1, m2);
    assert(fold_one(tf, s1, b) == s2);
    assert(s2.last() == m2);
    let m3 = merge_candle(m2, c);
    assert(fold_one(tf, s2, c) == s2.update(n - 1, m3));
    let mbc = merge_candle(m1, bc);
    assert(fold_one(tf, s1, bc) == s1.update(n - 1, mbc));
    assert(s.update(n - 1, m1).update(n - 1, m2).update(n - 1, m3).last() == m3);
    assert(s.update(n - 1, m1).update(n - 1, mbc).last() == mbc);
}

/// What one fold of the parsed candle seed `c` does to the candle
/// sequence, and which outcome names it.
pub open spec fn fold_seed_post(
    tf: Timeframe,
    s_old: Seq<Candle>,
    s_new: Seq<Candle>,
    c: Candle,
    r: FoldOutcome,
) -> bool {
    &&& s_new == fold_one(tf, s_old, c)
    &&& (r == FoldOutcome::Merged <==> s_old.len() > 0 && spec_align(tf, c.timestamp)
        == spec_align(tf, s_old.last().timestamp))
    &&& (r == FoldOutcome::DroppedStale <==> s_old.len() > 0 && spec_align(tf, c.timestamp)
        < spec_align(tf, s_old.last().timestamp))
    &&& (r == FoldOutcome::Appended <==> (s_old.len() == 0 || spec_align(tf, c.timestamp)
        > spec_align(tf, s_old.last().timestamp)))
}

/// What one fold of the wire tick `tick` does to the candle sequence: a
/// malformed tick changes nothing and names the bad field; a parsed one is
/// merged, appended or dropped as [`fold_seed_post`] says.
pub open spec fn fold_post(
    tf: Timeframe,
    s_old: Seq<Candle>,
    s_new: Seq<Candle>,
    tick: BarUpdate,
    r: FoldOutcome,
) -> bool {
    match spec_convert_bar(tick) {
        Err(e) => s_new == s_old && r == FoldOutcome::ParseFailed(e),
        Ok(c) => fold_seed_post(tf, s_old, s_new, c, r),
    }
}

impl CandleSeries {
    /// The timeframe the series aligns its buckets to.
    pub open spec fn tf(self) -> Timeframe {
        spec_timeframe(self.timeframe@)
    }

    /// The candle sequence is well-formed for the series' timeframe.
    pub open spec fn wf(self) -> bool {
        candles_wf(self.tf(), self.candles@)
    }

    pub fn new(timeframe: String) -> (s: Self)
        ensures
            s.wf(),
            s.timeframe@ == timeframe@,
            s.candles@.len() == 0,
    {
        CandleSeries { timeframe, candles: Vec::new() }
    }

    /// Folds one bar tick into the series: parse the tick's numeric fields,
    /// align its timestamp to the series' timeframe, and merge, append or
    /// drop by comparing its bucket with the last candle's. A malformed tick
    /// leaves the series untouched.
    pub fn fold(&mut self, tick: &BarUpdate) -> (r: FoldOutcome)
        requires
            old(self).wf(),
        ensures
            final(self).wf(),
            final(self).timeframe@ == old(self).timeframe@,
            fold_post(old(self).tf(), old(self).candles@, final(self).candles@, *tick, r),
    {
        let c = match convert_bar_update_to_bar(tick) {
            Ok(c) => c,
            Err(e) => {
                return FoldOutcome::ParseFailed(e);
            },
        };
        self.fold_candle(c)
    }

    /// Folds one already-parsed candle seed into the series.
    #[verifier::rlimit(100)]
    pub fn fold_candle(&mut self, c: Candle) -> (r: FoldOutcome)
        requires
            old(self).wf(),
            in_rfc3339_range(c.timestamp),
        ensures
            final(self).wf(),
            final(self).timeframe@ == old(self).timeframe@,
            fold_seed_post(old(self).tf(), old(self).candles@, final(self).candles@, c, r),
    {
        let tf = parse_timeframe(self.timeframe.as_str());
        let ghost s_old = self.candles@;
        let n = self.candles.len();
        if n == 0 {
            self.candles.push(c);
            proof {
                assert(self.candles@ =~= fold_one(tf, s_old, c));
                lemma_fold_one_wf(tf, s_old, c);
            }
            return FoldOutcome::Appended;
        }
        let last = self.candles[n - 1];
        proof {
            assert(last == s_old.last());
        }
        let a_new = align_to_timeframe(c.timestamp, tf);
        let a_last = align_to_timeframe(last.timestamp, tf);
        if a_new == a_last {
            let merged = Candle {
                timestamp: c.timestamp,
                open: last.open,
                high: if c.high > last.high {
                    c.high
                } else {
                    last.high
                },
                low: if c.low < last.low {
                    c.low
                } else {
                    last.low
                },
                close: c.close,
                volume: last.volume.saturating_add(c.volume),
                trade_count: match (last.trade_count, c.trade_count) {
                    (Some(a), Some(b)) => Some(a.saturating_add(b)),
                    _ => last.trade_count,
                },
                vwap: last.vwap,
            };
            self.candles.set(n - 1, merged);
            proof {
                assert(merged == merge_candle(s_old.last(), c));
                assert(self.candles@ =~= fold_one(tf, s_old, c));
                lemma_fold_one_wf(tf, s_old, c);
            }
            FoldOutcome::Merged
        } else if a_new > a_last {
            self.candles.push(c);
            proof {
                assert(self.candles@ =~= fold_one(tf, s_old, c));
                lemma_fold_one_wf(tf, s_old, c);
            }
            FoldOutcome::Appended
        } else {
            proof {
                assert(self.candles@ =~= fold_one(tf, s_old, c));
            }
            FoldOutcome::DroppedStale
        }
    }
}

/// Chart state: the displayed symbol, its candle series, and the fields of
/// the last bar update shown in the header.
pub struct Chart {
    pub symbol: String,
    pub symbol_input: String,
    pub series: CandleSeries,
    pub loading: bool,
    pub error: Option<String>,
    pub input_focused: bool,
    pub market_data_connected: bool,
    pub last_bar_time: Option<String>,
    pub last_bar_symbol: Option<String>,
    pub last_bar_open: Option<String>,
    pub last_bar_high: Option<String>,
    pub last_bar_low: Option<String>,
    pub last_bar_close: Option<String>,
    pub last_bar_volume: Option<String>,
    pub bar_limit: String,
    pub bar_limit_focused: bool,
    pub bars_per_screen: usize,
}

/// What one bar update does to the chart: the header display fields always
/// take the tick's raw values; the series is folded only when the tick is
/// for the displayed symbol.
pub open spec fn chart_bars_post(pre: Chart, post: Chart, b: BarUpdate, r: FoldOutcome) -> bool {
    &&& post.symbol == pre.symbol
    &&& post.series.timeframe@ == pre.series.timeframe@
    &&& post.last_bar_time == Some(b.timestamp)
    &&& post.last_bar_symbol == Some(b.symbol)
    &&& post.last_bar_open == Some(b.open)
    &&& post.last_bar_high == Some(b.high)
    &&& post.last_bar_low == Some(b.low)
    &&& post.last_bar_close == Some(b.close)
    &&& post.last_bar_volume == Some(b.volume)
    &&& (b.symbol@ != pre.symbol@ ==> post.series.candles@ == pre.series.candles@ && r
        == FoldOutcome::SymbolMismatch)
    &&& (b.symbol@ == pre.symbol@ ==> fold_post(
        pre.series.tf(),
        pre.series.candles@,
        post.series.candles@,
        b,
        r,
    ))
}

impl Chart {
    pub open spec fn wf(self) -> bool {
        self.series.wf()
    }

    pub fn new(symbol: String, timeframe: String) -> (c: Self)
        ensures
            c.wf(),
            c.symbol@ == symbol@,
            c.symbol_input@ == symbol@,
            c.series.timeframe@ == timeframe@,
            c.series.candles@.len() == 0,
            c.loading,
            c.error is None,
            !c.input_focused,
            !c.market_data_connected,
            c.last_bar_time is None,
            c.last_bar_symbol is None,
            c.last_bar_open is None,
            c.last_bar_high is None,
            c.last_bar_low is None,
            c.last_bar_close is None,
            c.last_bar_volume is None,
            c.bar_limit@ == "100"@,
            !c.bar_limit_focused,
            c.bars_per_screen == 100,
    {
        let symbol_input = symbol.clone();
        Chart {
            symbol,
            symbol_input,
            series: CandleSeries::new(timeframe),
            loading: true,
            error: None,
            input_focused: false,
            market_data_connected: false,
            last_bar_time: None,
            last_bar_symbol: None,
            last_bar_open: None,
            last_bar_high: None,
            last_bar_low: None,
            last_bar_close: None,
            last_bar_volume: None,
            bar_limit: String::from_str("100"),
            bar_limit_focused: false,
            bars_per_screen: 100,
        }
    }

    /// Records the tick's raw fields for the header display, then folds it
    /// into the candle series — unless it is for another symbol, in which
    /// case the series is untouched.
    pub fn update_bars_from_stream(&mut self, bar_update: &BarUpdate) -> (r: FoldOutcome)
        requires
            old(self).wf(),
        ensures
            final(self).wf(),
            chart_bars_post(*old(self), *final(self), *bar_update, r),
    {
        self.last_bar_time = Some(bar_update.timestamp.clone());
        self.last_bar_symbol = Some(bar_update.symbol.clone());
        self.last_bar_open = Some(bar_update.open.clone());
        self.last_bar_high = Some(bar_update.high.clone());
        self.last_bar_low = Some(bar_update.low.clone());
        self.last_bar_close = Some(bar_update.close.clone());
        self.last_bar_volume = Some(bar_update.volume.clone());
        if !str_eq(bar_update.symbol.as_str(), self.symbol.as_str()) {
            return FoldOutcome::SymbolMismatch;
        }
        self.series.fold(bar_update)
    }
}

/// Days of history to request for one fetch, by timeframe: intraday frames
/// assume market-hours bars per day; daily and coarser frames add a buffer
/// for weekends and holidays.
pub open spec fn spec_lookback_days(tf: Timeframe, user_limit: u32) -> int {
    match tf {
        Timeframe::Min1 => (if user_limit / 390 >= 1 {
            user_limit as int / 390
        } else {
            1
        }) + 2,
        Timeframe::Min5 => (if user_limit / 78 >= 1 {
            user_limit as int / 78
        } else {
            1
        }) + 2,
        Timeframe::Min15 => (if user_limit / 26 >= 1 {
            user_limit as int / 26
        } else {
            1
        }) + 2,
        Timeframe::Hour1 => (if user_limit / 6 >= 1 {
            user_limit as int / 6
        } else {
            1
        }) + 5,
        Timeframe::Day1 => (user_limit as int * 3) / 2,
        Timeframe::Week1 => user_limit as int * 7 + 14,
        Timeframe::Month1 => user_limit as int * 30 + 60,
        Timeframe::Raw => (user_limit as int * 3) / 2,
    }
}

/// How many days back a historical bar fetch should reach for the given
/// timeframe and requested bar count.
pub fn lookback_days(timeframe: &str, user_limit: u32) -> (d: i64)
    ensures
        d == spec_lookback_days(spec_timeframe(timeframe@), user_limit),
{
    let tf = parse_timeframe(timeframe);
    let limit = user_limit as i64;
    match tf {
        Timeframe::Min1 => {
            let base = limit / 390;
            (if base >= 1 {
                base
            } else {
                1
            }) + 2
        },
        Timeframe::Min5 => {
            let base = limit / 78;
            (if base >= 1 {
                base
            } else {
                1
            }) + 2
        },
        Timeframe::Min15 => {
            let base = limit / 26;
            (if base >= 1 {
                base
            } else {
                1
            }) + 2
        },
        Timeframe::Hour1 => {
            let base = limit / 6;
            (if base >= 1 {
                base
            } else {
                1
            }) + 5
        },
        Timeframe::Day1 => (limit * 3) / 2,
        Timeframe::Week1 => limit * 7 + 14,
        Timeframe::Month1 => limit * 30 + 60,
        Timeframe::Raw => (limit * 3) / 2,
    }
}

} // verus!
