//! Fixed-point parsing of the wire protocol's decimal strings.
//!
//! Prices arrive as decimal strings ("10.5", "187.2301") and volumes as
//! integer strings. Prices are held as `i64` values scaled by
//! [`PRICE_SCALE`], so `105000` denotes `10.5`; volumes are held as `u64`.
//! The accepted price grammar is: an optional minus sign, one to
//! [`MAX_INT_DIGITS`] integer digits, then optionally a dot and at least
//! one fraction digit — the first [`FRAC_DIGITS`] fraction digits carry
//! value and further ones are truncated away. A volume is one to
//! [`MAX_VOLUME_DIGITS`] digits; the handful of 20-digit values that would
//! still fit `u64` are deliberately outside the model. Anything else is
//! rejected, and the caller drops the tick or leaves the field unset.

use vstd::prelude::*;

verus! {

/// Number of fraction digits a price value carries.
pub const FRAC_DIGITS: u64 = 4;

/// Scale factor of fixed-point prices: a stored `v` denotes `v / PRICE_SCALE`.
pub const PRICE_SCALE: i64 = 10000;

/// Most integer digits a price string may carry; keeps every accepted value
/// well inside `i64` after scaling.
pub const MAX_INT_DIGITS: u64 = 14;

/// Most digits a volume string may carry; every 19-digit value fits in `u64`.
pub const MAX_VOLUME_DIGITS: u64 = 19;

pub open spec fn is_digit(c: char) -> bool {
    '0' <= c <= '9'
}

pub open spec fn digit_val(c: char) -> int {
    c as u32 - '0' as u32
}

pub open spec fn all_digits(s: Seq<char>) -> bool {
    forall|i: int| 0 <= i < s.len() ==> is_digit(#[trigger] s[i])
}

/// Value of a string of decimal digits, most significant first.
pub open spec fn digits_val(s: Seq<char>) -> int
    decreases s.len(),
{
    if s.len() == 0 {
        0
    } else {
        digits_val(s.drop_last()) * 10 + digit_val(s.last())
    }
}

pub open spec fn pow10(n: nat) -> int
    decreases n,
{
    if n == 0 {
        1
    } else {
        10 * pow10((n - 1) as nat)
    }
}

/// Length of the leading run of digits.
pub open spec fn digit_run_len(s: Seq<char>) -> int
    decreases s.len(),
{
    if s.len() == 0 || !is_digit(s[0]) {
        0
    } else {
        1 + digit_run_len(s.drop_first())
    }
}

/// Scaled value of the fraction digits: the first [`FRAC_DIGITS`] of them
/// carry value, further digits are truncated away.
pub open spec fn frac_scaled(frac: Seq<char>) -> int {
    if frac.len() >= FRAC_DIGITS {
        digits_val(frac.subrange(0, FRAC_DIGITS as int))
    } else {
        digits_val(frac) * pow10((FRAC_DIGITS - frac.len()) as nat)
    }
}

/// Scaled value of a decimal with integer part `whole` and fraction `frac`.
pub open spec fn scaled_value(whole: Seq<char>, frac: Seq<char>) -> int {
    digits_val(whole) * PRICE_SCALE + frac_scaled(frac)
}

/// Parse of an unsigned price string into a scaled fixed-point value.
#[verifier::opaque]
pub open spec fn spec_parse_unsigned_price(s: Seq<char>) -> Option<int> {
    let k = digit_run_len(s);
    if k == 0 || k > MAX_INT_DIGITS {
        None
    } else if k == s.len() {
        Some(digits_val(s) * PRICE_SCALE)
    } else if s[k] == '.' && s.len() - k - 1 >= 1 && all_digits(
        s.subrange(k + 1, s.len() as int),
    ) {
        Some(scaled_value(s.subrange(0, k), s.subrange(k + 1, s.len() as int)))
    } else {
        None
    }
}

/// Parse of a price string, sign included, into a scaled fixed-point value.
#[verifier::opaque]
pub open spec fn spec_parse_price(s: Seq<char>) -> Option<i64> {
    if s.len() > 0 && s[0] == '-' {
        match spec_parse_unsigned_price(s.drop_first()) {
            Some(v) => Some((-v) as i64),
            None => None,
        }
    } else {
        match spec_parse_unsigned_price(s) {
            Some(v) => Some(v as i64),
            None => None,
        }
    }
}

/// Parse of a volume string: one to [`MAX_VOLUME_DIGITS`] digits.
#[verifier::opaque]
pub open spec fn spec_parse_volume(s: Seq<char>) -> Option<u64> {
    if 1 <= s.len() <= MAX_VOLUME_DIGITS && all_digits(s) {
        Some(digits_val(s) as u64)
    } else {
        None
    }
}

pub proof fn lemma_digits_val_bound(s: Seq<char>)
    requires
        all_digits(s),
    ensures
        0 <= digits_val(s) < pow10(s.len() as nat),
    decreases s.len(),
{
    if s.len() > 0 {
        assert(all_digits(s.drop_last())) by {
            assert(forall|i: int|
                0 <= i < s.len() - 1 ==> s.drop_last()[i] == #[trigger] s[i]);
        }
        lemma_digits_val_bound(s.drop_last());
        assert(is_digit(s.last()));
        assert(digit_val(s.last()) <= 9);
    }
}

pub proof fn lemma_pow10_values()
    ensures
        pow10(4) == 10000,
        pow10(14) == 100000000000000,
        pow10(19) == 10000000000000000000,
{
    reveal_with_fuel(pow10, 20);
}

/// The leading digit run is exactly the prefix before the first non-digit.
proof fn lemma_digit_run(s: Seq<char>, i: int)
    requires
        0 <= i <= s.len(),
        forall|j: int| 0 <= j < i ==> is_digit(#[trigger] s[j]),
        i == s.len() || !is_digit(s[i]),
    ensures
        digit_run_len(s) == i,
    decreases s.len(),
{
    if s.len() == 0 {
    } else if !is_digit(s[0]) {
        assert(i == 0);
    } else {
        assert(i > 0);
        let t = s.drop_first();
        assert(forall|j: int| 0 <= j < i - 1 ==> t[j] == #[trigger] s[j + 1]);
        assert(i - 1 == t.len() || !is_digit(t[i - 1]));
        lemma_digit_run(t, i - 1);
    }
}

/// Tests a character for being a decimal digit, yielding its value.
fn char_digit(c: char) -> (r: Option<u64>)
    ensures
        r matches Some(d) ==> is_digit(c) && d == digit_val(c),
        r is None ==> !is_digit(c),
{
    let v = c as u32;
    if 48 <= v && v <= 57 {
        Some((v - 48) as u64)
    } else {
        None
    }
}

/// Scans `s` from `from` for digits, returning the end of the run.
fn scan_digits(s: &str, from: usize) -> (e: usize)
    requires
        from <= s@.len(),
    ensures
        from <= e <= s@.len(),
        forall|j: int| from <= j < e ==> is_digit(#[trigger] s@[j]),
        e == s@.len() || !is_digit(s@[e as int]),
{
    let n = s.unicode_len();
    let mut e = from;
    while e < n
        invariant
            from <= e <= n,
            n == s@.len(),
            forall|j: int| from <= j < e ==> is_digit(#[trigger] s@[j]),
        decreases n - e,
    {
        if char_digit(s.get_char(e)).is_none() {
            return e;
        }
        e = e + 1;
    }
    e
}

/// Value of the digit run `s[from..to]`; fits `u64` for runs of up to 19 digits.
fn digits_value(s: &str, from: usize, to: usize) -> (v: u64)
    requires
        from <= to <= s@.len(),
        to - from <= MAX_VOLUME_DIGITS,
        forall|j: int| from <= j < to ==> is_digit(#[trigger] s@[j]),
    ensures
        v == digits_val(s@.subrange(from as int, to as int)),
{
    proof {
        lemma_pow10_values();
    }
    let mut i = from;
    let mut acc: u64 = 0;
    while i < to
        invariant
            from <= i <= to <= s@.len(),
            to - from <= 19,
            forall|j: int| from <= j < to ==> is_digit(#[trigger] s@[j]),
            acc == digits_val(s@.subrange(from as int, i as int)),
            acc < pow10((i - from) as nat),
            pow10(19) == 10000000000000000000,
        decreases to - i,
    {
        let ghost pre = s@.subrange(from as int, i as int);
        let c = s.get_char(i);
        let d = match char_digit(c) {
            Some(d) => d,
            None => {
                proof {
                    assert(false);
                }
                0
            },
        };
        proof {
            assert(all_digits(pre)) by {
                assert(forall|j: int|
                    0 <= j < pre.len() ==> pre[j] == #[trigger] s@[from + j]);
            }
            lemma_digits_val_bound(pre);
            lemma_pow10_monotone((i - from) as nat, 18);
            let post = s@.subrange(from as int, i + 1);
            assert(post.drop_last() =~= pre);
            assert(post.last() == s@[i as int]);
        }
        acc = acc * 10 + d;
        i = i + 1;
        proof {
            lemma_pow10_monotone((i - from) as nat, 19);
        }
    }
    acc
}

/// Yields `pow10(e)` for the small exponents the fraction part needs.
fn pow10_small(e: u64) -> (r: u64)
    requires
        e <= 4,
    ensures
        r == pow10(e as nat),
{
    proof {
        reveal_with_fuel(pow10, 5);
    }
    if e == 0 {
        1
    } else if e == 1 {
        10
    } else if e == 2 {
        100
    } else if e == 3 {
        1000
    } else {
        10000
    }
}

/// Parses the unsigned decimal `s[start..]` into a scaled fixed-point value.
fn parse_unsigned_scaled(s: &str, start: usize) -> (r: Option<i64>)
    requires
        start <= s@.len(),
    ensures
        ({
            let sub = s@.subrange(start as int, s@.len() as int);
            match spec_parse_unsigned_price(sub) {
                Some(v) => r == Some(v as i64) && 0 <= v <= i64::MAX,
                None => r is None,
            }
        }),
{
    proof {
        reveal(spec_parse_unsigned_price);
    }
    let n = s.unicode_len();
    let ghost sub = s@.subrange(start as int, n as int);
    let e = scan_digits(s, start);
    proof {
        assert(forall|j: int| 0 <= j < e - start ==> sub[j] == #[trigger] s@[start + j]);
        lemma_digit_run(sub, e - start);
        lemma_pow10_values();
    }
    if e == start {
        return None;
    }
    if e - start > 14 {
        return None;
    }
    let whole = digits_value(s, start, e);
    proof {
        assert(s@.subrange(start as int, e as int) =~= sub.subrange(0, e - start));
        assert(all_digits(sub.subrange(0, e - start)));
        lemma_digits_val_bound(sub.subrange(0, e - start));
        lemma_pow10_monotone((e - start) as nat, 14);
    }
    if e == n {
        proof {
            assert(sub.subrange(0, e - start) =~= sub);
        }
        return Some((whole as i64) * 10000);
    }
    if s.get_char(e) != '.' {
        return None;
    }
    let fstart = e + 1;
    let f = scan_digits(s, fstart);
    if f != n {
        proof {
            assert(!is_digit(sub[f - start]));
            assert(sub.subrange(e - start + 1, sub.len() as int)[f - e - 1] == sub[f - start]);
            assert(!all_digits(sub.subrange(e - start + 1, sub.len() as int)));
        }
        return None;
    }
    let flen = n - fstart;
    if flen < 1 {
        return None;
    }
    let ghost fracs = sub.subrange(e - start + 1, sub.len() as int);
    let take = if flen > 4 {
        4
    } else {
        flen
    };
    let frac = digits_value(s, fstart, fstart + take);
    proof {
        assert(s@.subrange(fstart as int, fstart + take) =~= fracs.subrange(0, take as int));
        assert(all_digits(fracs.subrange(0, take as int)));
        lemma_digits_val_bound(fracs.subrange(0, take as int));
        lemma_pow10_monotone(take as nat, 4);
        if flen < 4 {
            assert(fracs.subrange(0, take as int) =~= fracs);
        }
    }
    let mult = pow10_small((4 - take) as u64);
    proof {
        lemma_pow10_monotone((4 - take) as nat, 4);
        vstd::arithmetic::mul::lemma_mul_upper_bound(frac as int, 9999, mult as int, 10000);
    }
    Some((whole as i64) * 10000 + (frac as i64) * (mult as i64))
}

/// Parses a price string into its scaled fixed-point value.
pub fn parse_price(s: &str) -> (r: Option<i64>)
    ensures
        r == spec_parse_price(s@),
{
    proof {
        reveal(spec_parse_price);
        reveal(spec_parse_unsigned_price);
    }
    let n = s.unicode_len();
    if n == 0 {
        proof {
            assert(s@.subrange(0, 0) =~= s@);
        }
        return None;
    }
    if s.get_char(0) == '-' {
        proof {
            assert(s@.subrange(1, s@.len() as int) =~= s@.drop_first());
        }
        match parse_unsigned_scaled(s, 1) {
            Some(v) => Some(-v),
            None => None,
        }
    } else {
        proof {
            assert(s@.subrange(0, s@.len() as int) =~= s@);
        }
        parse_unsigned_scaled(s, 0)
    }
}

/// Parses a volume string: one to [`MAX_VOLUME_DIGITS`] decimal digits.
pub fn parse_volume(s: &str) -> (r: Option<u64>)
    ensures
        r == spec_parse_volume(s@),
{
    proof {
        reveal(spec_parse_volume);
    }
    let n = s.unicode_len();
    if n == 0 || n > 19 {
        return None;
    }
    let e = scan_digits(s, 0);
    if e != n {
        proof {
            assert(!is_digit(s@[e as int]));
        }
        return None;
    }
    let v = digits_value(s, 0, n);
    proof {
        assert(s@.subrange(0, n as int) =~= s@);
        lemma_digits_val_bound(s@);
        lemma_pow10_values();
    }
    Some(v)
}

pub proof fn lemma_pow10_monotone(m: nat, n: nat)
    requires
        m <= n,
    ensures
        pow10(m) <= pow10(n),
        pow10(m) >= 1,
    decreases n,
{
    if m < n {
        lemma_pow10_monotone(m, (n - 1) as nat);
    } else if n > 0 {
        lemma_pow10_monotone((m - 1) as nat, (n - 1) as nat);
    }
}

} // verus!
