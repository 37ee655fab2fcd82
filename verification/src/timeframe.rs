//! Timeframes and bucket alignment of timestamps.
//!
//! A candle series is keyed by bucket-aligned timestamps: each tick's epoch
//! second is truncated to the start of the period it falls in. Minute, hour,
//! day and week (Monday-aligned) truncation is plain arithmetic on epoch
//! seconds; month truncation needs a calendar and is delegated to chrono.
//! An unrecognized timeframe string disables alignment, so ticks are merged
//! only when their timestamps coincide exactly.
//!
//! Timestamps are modeled at whole-second resolution: an RFC3339 string's
//! sub-second digits do not reach the model, a deliberate coarsening. Under
//! an unrecognized timeframe, two ticks within the same second therefore
//! merge even when their sub-second digits differ.

use chrono::{Datelike, Timelike};
use vstd::prelude::*;

verus! {

/// Earliest epoch second an RFC3339 string can denote: the year 0, widened by
/// a day for numeric offsets.
pub const RFC3339_MIN_EPOCH: i64 = -62167305600;

/// Latest epoch second an RFC3339 string can denote: the end of the year
/// 9999, widened by a day for numeric offsets.
pub const RFC3339_MAX_EPOCH: i64 = 253402387199;

pub open spec fn in_rfc3339_range(t: i64) -> bool {
    RFC3339_MIN_EPOCH <= t <= RFC3339_MAX_EPOCH
}

#[derive(Clone, Copy, PartialEq, Eq, Structural, Debug)]
pub enum Timeframe {
    Min1,
    Min5,
    Min15,
    Hour1,
    Day1,
    Week1,
    Month1,
    /// Unrecognized timeframe string: timestamps pass through unaligned.
    Raw,
}

pub open spec fn spec_timeframe(s: Seq<char>) -> Timeframe {
    if s == "1Min"@ {
        Timeframe::Min1
    } else if s == "5Min"@ {
        Timeframe::Min5
    } else if s == "15Min"@ {
        Timeframe::Min15
    } else if s == "1Hour"@ {
        Timeframe::Hour1
    } else if s == "1Day"@ {
        Timeframe::Day1
    } else if s == "1Week"@ {
        Timeframe::Week1
    } else if s == "1Month"@ {
        Timeframe::Month1
    } else {
        Timeframe::Raw
    }
}

/// Start of the Monday-aligned week containing epoch second `t`.
pub open spec fn week_align(t: i64) -> int {
    week_align_int(t as int)
}

/// The week floor on a mathematical epoch second: midnight of the Monday
/// of its week. Day 0 of the epoch was a Thursday, three days past its
/// Monday.
pub open spec fn week_align_int(v: int) -> int {
    let d = v / 86400;
    86400 * (d - ((d + 3) % 7))
}

/// The epoch second an RFC3339 timestamp string denotes, if it is one.
/// Known only through [`parse_rfc3339_epoch`].
pub uninterp spec fn rfc3339_epoch(s: Seq<char>) -> Option<i64>;

/// The first instant (day 1, 00:00:00 UTC) of the month containing epoch
/// second `t`. Known only through the chrono call in [`month_floor`].
pub uninterp spec fn month_floor_of(t: i64) -> i64;

/// Bucket-aligned start of the period of `tf` that epoch second `t` falls in.
/// Opaque: callers compare buckets through [`align_to_timeframe`]'s contract;
/// reveal `spec_align` to reason about the arithmetic itself.
#[verifier::opaque]
pub open spec fn spec_align(tf: Timeframe, t: i64) -> int {
    match tf {
        Timeframe::Min1 => 60 * ((t as int) / 60),
        Timeframe::Min5 => 300 * ((t as int) / 300),
        Timeframe::Min15 => 900 * ((t as int) / 900),
        Timeframe::Hour1 => 3600 * ((t as int) / 3600),
        Timeframe::Day1 => 86400 * ((t as int) / 86400),
        Timeframe::Week1 => week_align(t),
        Timeframe::Month1 => if in_rfc3339_range(t) {
            month_floor_of(t) as int
        } else {
            t as int
        },
        Timeframe::Raw => t as int,
    }
}

/// The value `v` is a start boundary of a period of `tf`: seconds (and,
/// for the coarser frames, minutes and hours) zeroed, the minute a multiple
/// of five or fifteen where the frame asks it, midnight for a day or
/// coarser, and the Monday of its week for the weekly frame.
pub open spec fn is_bucket_start(tf: Timeframe, v: int) -> bool {
    match tf {
        Timeframe::Min1 => v % 60 == 0,
        Timeframe::Min5 => v % 300 == 0,
        Timeframe::Min15 => v % 900 == 0,
        Timeframe::Hour1 => v % 3600 == 0,
        Timeframe::Day1 => v % 86400 == 0,
        Timeframe::Week1 => v % 86400 == 0 && (v / 86400 + 3) % 7 == 0,
        Timeframe::Month1 => v % 86400 == 0,
        Timeframe::Raw => true,
    }
}

/// Upper bound on the length in seconds of one period of `tf`: a month by
/// its longest length of 31 days, and the unaligned Raw frame by a second.
pub open spec fn spec_period_bound(tf: Timeframe) -> int {
    match tf {
        Timeframe::Min1 => 60,
        Timeframe::Min5 => 300,
        Timeframe::Min15 => 900,
        Timeframe::Hour1 => 3600,
        Timeframe::Day1 => 86400,
        Timeframe::Week1 => 604800,
        Timeframe::Month1 => 2678400,
        Timeframe::Raw => 1,
    }
}

/// Relies on chrono's `DateTime::parse_from_rfc3339` and `timestamp`: the
/// epoch second an RFC3339 string denotes (sub-second digits truncated), a
/// function of the string alone.
/// RFC3339 years have four digits and offsets stay within a day, which keeps
/// every parsed value within [`RFC3339_MIN_EPOCH`, `RFC3339_MAX_EPOCH`].
#[verifier::external_body]
pub(crate) fn parse_rfc3339_epoch(s: &str) -> (r: Option<i64>)
    ensures
        r == rfc3339_epoch(s@),
        r matches Some(t) ==> in_rfc3339_range(t),
{
    match chrono::DateTime::parse_from_rfc3339(s) {
        Ok(d) => Some(d.timestamp()),
        Err(_) => None,
    }
}

/// Relies on chrono's `DateTime::from_timestamp` and the `Datelike`/`Timelike`
/// setters: the first instant of the month containing epoch second `t`.
/// `None` comes only of a timestamp outside chrono's representable range,
/// which contains every RFC3339 epoch second. The stated facts are the
/// calendar's: the result is a midnight no later than `t` and less than the
/// longest month (31 days) before it; every instant between it and `t` lies
/// in the same month; and the month start is monotone in its instant.
#[verifier::external_body]
fn month_floor(t: i64) -> (r: Option<i64>)
    ensures
        r matches Some(m) ==> m == month_floor_of(t),
        r matches Some(m) ==> m <= t < m + 2678400,
        r matches Some(m) ==> (m as int) % 86400 == 0,
        r matches Some(m) ==> forall|t2: i64| m <= t2 <= t ==> month_floor_of(t2) == m,
        r matches Some(m) ==> forall|t2: i64|
            in_rfc3339_range(t2) && t2 <= t ==> month_floor_of(t2) <= m,
        in_rfc3339_range(t) ==> r is Some,
{
    chrono::DateTime::<chrono::Utc>::from_timestamp(t, 0)
        .and_then(|d| d.with_day(1))
        .and_then(|d| d.with_hour(0))
        .and_then(|d| d.with_minute(0))
        .and_then(|d| d.with_second(0))
        .map(|d| d.timestamp())
}

/// String equality by view, via the specified `String` comparison.
pub fn str_eq(a: &str, b: &str) -> (r: bool)
    ensures
        r == (a@ == b@),
{
    let x = a.to_owned();
    let y = b.to_owned();
    x == y
}

pub fn parse_timeframe(s: &str) -> (tf: Timeframe)
    ensures
        tf == spec_timeframe(s@),
{
    if str_eq(s, "1Min") {
        Timeframe::Min1
    } else if str_eq(s, "5Min") {
        Timeframe::Min5
    } else if str_eq(s, "15Min") {
        Timeframe::Min15
    } else if str_eq(s, "1Hour") {
        Timeframe::Hour1
    } else if str_eq(s, "1Day") {
        Timeframe::Day1
    } else if str_eq(s, "1Week") {
        Timeframe::Week1
    } else if str_eq(s, "1Month") {
        Timeframe::Month1
    } else {
        Timeframe::Raw
    }
}

/// Truncates `t` down to a multiple of `unit`: the greatest such value not
/// above `t`, a fixed point of the truncation, and monotone in `t`.
fn floor_to(t: i64, unit: i64) -> (r: i64)
    requires
        1 <= unit <= 604800,
        in_rfc3339_range(t),
    ensures
        r as int == (unit as int) * ((t as int) / (unit as int)),
        r <= t,
        (t as int) - (r as int) < unit as int,
        (r as int) % (unit as int) == 0,
        (unit as int) * ((r as int) / (unit as int)) == r as int,
        forall|t2: i64|
            t2 <= t ==> (unit as int) * (#[trigger] ((t2 as int) / (unit as int))) <= r as int,
{
    let m = t.checked_rem_euclid(unit).unwrap();
    proof {
        let u = unit as int;
        let ti = t as int;
        let q = ti / u;
        vstd::arithmetic::div_mod::lemma_fundamental_div_mod(ti, u);
        vstd::arithmetic::div_mod::lemma_mod_bound(ti, u);
        vstd::arithmetic::div_mod::lemma_mod_multiples_basic(q, u);
        vstd::arithmetic::div_mod::lemma_div_multiples_vanish(q, u);
        assert forall|t2: i64| t2 <= t implies u * (#[trigger] ((t2 as int) / u)) <= u * q by {
            vstd::arithmetic::div_mod::lemma_div_is_ordered(t2 as int, ti, u);
            vstd::arithmetic::mul::lemma_mul_inequality((t2 as int) / u, q, u);
        }
    }
    t - m
}

/// Truncates epoch second `t` to the start of its period of `tf`, yielding
/// the bucket's start boundary: never above `t`, within one period of it,
/// a fixed point of alignment, and monotone in `t`.
pub fn align_to_timeframe(t: i64, tf: Timeframe) -> (r: i64)
    requires
        in_rfc3339_range(t),
    ensures
        r as int == spec_align(tf, t),
        r <= t,
        (t as int) - (r as int) < spec_period_bound(tf),
        is_bucket_start(tf, r as int),
        spec_align(tf, r) == r as int,
        forall|t2: i64| in_rfc3339_range(t2) && t2 <= t ==> spec_align(tf, t2) <= r as int,
{
    proof {
        reveal(spec_align);
    }
    match tf {
        Timeframe::Min1 => floor_to(t, 60),
        Timeframe::Min5 => floor_to(t, 300),
        Timeframe::Min15 => floor_to(t, 900),
        Timeframe::Hour1 => floor_to(t, 3600),
        Timeframe::Day1 => floor_to(t, 86400),
        Timeframe::Week1 => {
            let d = t.checked_div_euclid(86400).unwrap();
            let dfm = (d + 3).checked_rem_euclid(7).unwrap();
            let r = (d - dfm) * 86400;
            proof {
                lemma_week_floor_props(t as int, d as int, dfm as int);
                assert forall|t2: i64|
                    in_rfc3339_range(t2) && t2 <= t implies spec_align(tf, t2) <= r as int by {
                    reveal(spec_align);
                    lemma_week_floor_monotone(t2 as int, t as int);
                }
            }
            r
        },
        Timeframe::Month1 => {
            let m = month_floor(t).unwrap();
            proof {
                if in_rfc3339_range(m) {
                    assert(month_floor_of(m) == m);
                }
                assert forall|t2: i64|
                    in_rfc3339_range(t2) && t2 <= t implies spec_align(tf, t2) <= m as int by {
                    reveal(spec_align);
                }
            }
            m
        },
        Timeframe::Raw => t,
    }
}

/// The week floor of day `d` (with weekday offset `dfm`) is a Monday
/// midnight, at most `t`, within a week of it, and its own week floor.
proof fn lemma_week_floor_props(ti: int, d: int, dfm: int)
    requires
        d == ti / 86400,
        dfm == (d + 3) % 7,
    ensures
        86400 * (d - dfm) <= ti,
        ti - 86400 * (d - dfm) < 604800,
        (86400 * (d - dfm)) % 86400 == 0,
        (86400 * (d - dfm)) / 86400 == d - dfm,
        ((86400 * (d - dfm)) / 86400 + 3) % 7 == 0,
        week_align_int(86400 * (d - dfm)) == 86400 * (d - dfm),
{
    vstd::arithmetic::div_mod::lemma_fundamental_div_mod(ti, 86400);
    vstd::arithmetic::div_mod::lemma_mod_bound(ti, 86400);
    vstd::arithmetic::div_mod::lemma_mod_bound(d + 3, 7);
    vstd::arithmetic::div_mod::lemma_fundamental_div_mod(d + 3, 7);
    vstd::arithmetic::mul::lemma_mul_inequality(d - dfm, d, 86400);
    vstd::arithmetic::mul::lemma_mul_inequality(dfm, 6, 86400);
    vstd::arithmetic::div_mod::lemma_mod_multiples_basic(d - dfm, 86400);
    vstd::arithmetic::div_mod::lemma_div_multiples_vanish(d - dfm, 86400);
    let q = (d + 3) / 7;
    assert(d - dfm + 3 == 7 * q);
    vstd::arithmetic::div_mod::lemma_mod_multiples_basic(q, 7);
    vstd::arithmetic::div_mod::lemma_mod_bound(d - dfm + 3, 7);
}

/// The week floor is monotone.
proof fn lemma_week_floor_monotone(a: int, b: int)
    requires
        a <= b,
    ensures
        week_align_int(a) <= week_align_int(b),
{
    let da = a / 86400;
    let db = b / 86400;
    vstd::arithmetic::div_mod::lemma_div_is_ordered(a, b, 86400);
    vstd::arithmetic::div_mod::lemma_fundamental_div_mod(da + 3, 7);
    vstd::arithmetic::div_mod::lemma_fundamental_div_mod(db + 3, 7);
    vstd::arithmetic::div_mod::lemma_div_is_ordered(da + 3, db + 3, 7);
    let qa = (da + 3) / 7;
    let qb = (db + 3) / 7;
    assert(da - ((da + 3) % 7) == 7 * qa - 3);
    assert(db - ((db + 3) % 7) == 7 * qb - 3);
    vstd::arithmetic::mul::lemma_mul_inequality(7 * qa - 3, 7 * qb - 3, 86400);
}

/// Truncates epoch second `t` to the start boundary of the period named by
/// `timeframe`; an unrecognized timeframe string leaves `t` unaligned. The
/// result is never above `t`, lies within one period of it, is a fixed
/// point of alignment, and is monotone in `t`.
pub fn align_timestamp_to_timeframe(t: i64, timeframe: &str) -> (r: i64)
    requires
        in_rfc3339_range(t),
    ensures
        r as int == spec_align(spec_timeframe(timeframe@), t),
        r <= t,
        (t as int) - (r as int) < spec_period_bound(spec_timeframe(timeframe@)),
        is_bucket_start(spec_timeframe(timeframe@), r as int),
        spec_align(spec_timeframe(timeframe@), r) == r as int,
        forall|t2: i64|
            in_rfc3339_range(t2) && t2 <= t ==> spec_align(spec_timeframe(timeframe@), t2) <= r
                as int,
{
    let tf = parse_timeframe(timeframe);
    align_to_timeframe(t, tf)
}

} // verus!
