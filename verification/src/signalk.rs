//! Signal K timestamps: RFC 3339 in UTC, `2024-01-15T12:30:00.000Z`.
use vstd::prelude::*;

use crate::time::{civil_nanos, civil_valid, Civil, Instant};
use vstd::string::StringSliceAdditionalSpecFns;

verus! {

/// Whether a byte is an ASCII digit.
pub open spec fn is_digit(b: u8) -> bool {
    48 <= b <= 57
}

/// Whether every byte is an ASCII digit.
pub open spec fn all_digits(s: Seq<u8>) -> bool {
    forall|i: int| 0 <= i < s.len() ==> is_digit(s[i])
}

/// Decimal value of a run of digits.
pub open spec fn digits_value(s: Seq<u8>) -> int
    decreases s.len(),
{
    if s.len() == 0 {
        0
    } else {
        digits_value(s.drop_last()) * 10 + (s.last() - 48)
    }
}

/// Unsigned decimal as Rust's integer parsing reads it: an optional `+`, then
/// one or more digits, with a value of at most `max`.
pub open spec fn parse_unsigned(s: Seq<u8>, max: int) -> Option<int> {
    let digits = if s.len() > 0 && s[0] == 43 {
        s.skip(1)
    } else {
        s
    };
    if digits.len() > 0 && all_digits(digits) && digits_value(digits) <= max {
        Some(digits_value(digits))
    } else {
        None
    }
}

/// Signed decimal as Rust's `i32` parsing reads it: an optional sign, then one
/// or more digits, with a value in the `i32` range.
pub open spec fn parse_signed(s: Seq<u8>) -> Option<int> {
    if s.len() > 0 && s[0] == 45 {
        let digits = s.skip(1);
        if digits.len() > 0 && all_digits(digits) && digits_value(digits) <= 0x8000_0000 {
            Some(-digits_value(digits))
        } else {
            None
        }
    } else {
        parse_unsigned(s, 0x7fff_ffff)
    }
}

/// Nanoseconds of a decimal fraction of a second: at most nine digits, read
/// as if padded with zeros to nine.
pub open spec fn nanos_spec(fraction: Seq<u8>) -> Option<int> {
    if fraction.len() <= 9 && all_digits(fraction) {
        Some(digits_value(fraction) * pow10((9 - fraction.len()) as nat))
    } else {
        None
    }
}

/// Ten to the power `n`.
pub open spec fn pow10(n: nat) -> int
    decreases n,
{
    if n == 0 {
        1
    } else {
        10 * pow10((n - 1) as nat)
    }
}

/// Index of the first `c` in `s` at or after `from`.
pub open spec fn find(s: Seq<u8>, c: u8, from: int) -> Option<int>
    decreases s.len() - from,
{
    if from < 0 || from >= s.len() {
        None
    } else if s[from] == c {
        Some(from)
    } else {
        find(s, c, from + 1)
    }
}

/// `s` split at `c` into exactly three pieces, or `None`.
pub open spec fn split3(s: Seq<u8>, c: u8) -> Option<(Seq<u8>, Seq<u8>, Seq<u8>)> {
    match find(s, c, 0) {
        None => None,
        Some(i) => match find(s, c, i + 1) {
            None => None,
            Some(j) => match find(s, c, j + 1) {
                Some(_) => None,
                None => Some((s.subrange(0, i), s.subrange(i + 1, j), s.subrange(j + 1, s.len() as int))),
            },
        },
    }
}

/// The text without its UTC suffix, `Z` or `+00:00`.
pub open spec fn utc_body(s: Seq<u8>) -> Option<Seq<u8>> {
    if s.len() >= 1 && s.last() == 90 {
        Some(s.drop_last())
    } else if s.len() >= 6 && s.subrange(s.len() - 6, s.len() as int) =~= seq![
        43u8,
        48u8,
        48u8,
        58u8,
        48u8,
        48u8,
    ] {
        Some(s.subrange(0, s.len() - 6))
    } else {
        None
    }
}

/// Civil fields of a Signal K timestamp, before calendar validation.
pub open spec fn timestamp_fields(s: Seq<u8>) -> Option<Civil> {
    match utc_body(s) {
        None => None,
        Some(body) => match find(body, 84, 0) {
            None => None,
            Some(t) => {
                let date = body.subrange(0, t);
                let time = body.subrange(t + 1, body.len() as int);
                let (clock, fraction) = match find(time, 46, 0) {
                    Some(d) => (time.subrange(0, d), time.subrange(d + 1, time.len() as int)),
                    None => (time, Seq::<u8>::empty()),
                };
                match (split3(date, 45), split3(clock, 58)) {
                    (Some((y, mo, d)), Some((h, mi, se))) => match (
                        parse_signed(y),
                        parse_unsigned(mo, 255),
                        parse_unsigned(d, 255),
                        parse_unsigned(h, 255),
                        parse_unsigned(mi, 255),
                        parse_unsigned(se, 255),
                        nanos_spec(fraction),
                    ) {
                        (
                            Some(year),
                            Some(month),
                            Some(day),
                            Some(hour),
                            Some(minute),
                            Some(second),
                            Some(nanos),
                        ) => Some(
                            Civil {
                                year: year as i32,
                                month: month as u8,
                                day: day as u8,
                                hour: hour as u8,
                                minute: minute as u8,
                                second: second as u8,
                                nanos: nanos as u32,
                            },
                        ),
                        _ => None,
                    },
                    _ => None,
                }
            },
        },
    }
}

proof fn lemma_digits_value_step(s: Seq<u8>, i: int)
    requires
        0 <= i < s.len(),
    ensures
        digits_value(s.subrange(0, i + 1)) == digits_value(s.subrange(0, i)) * 10 + (s[i] - 48),
{
    assert(s.subrange(0, i + 1).drop_last() =~= s.subrange(0, i));
}

proof fn lemma_digits_value_nonneg(s: Seq<u8>)
    requires
        all_digits(s),
    ensures
        digits_value(s) >= 0,
    decreases s.len(),
{
    if s.len() > 0 {
        lemma_digits_value_nonneg(s.drop_last());
    }
}

proof fn lemma_digits_value_monotone(s: Seq<u8>, i: int)
    requires
        all_digits(s),
        0 <= i <= s.len(),
    ensures
        digits_value(s.subrange(0, i)) <= digits_value(s),
    decreases s.len() - i,
{
    if i < s.len() {
        lemma_digits_value_monotone(s, i + 1);
        lemma_digits_value_step(s, i);
        lemma_digits_value_nonneg(s.subrange(0, i));
    } else {
        assert(s.subrange(0, i) =~= s);
    }
}

/// Value of the digits `bytes[start..end]`, if all are digits and the value is
/// at most `max`.
fn parse_digits(bytes: &[u8], start: usize, end: usize, max: u64) -> (r: Option<u64>)
    requires
        start <= end <= bytes@.len(),
        max <= 0x1_0000_0000,
    ensures
        ({
            let s = bytes@.subrange(start as int, end as int);
            match r {
                Some(v) => all_digits(s) && v == digits_value(s) && v <= max,
                None => !(all_digits(s) && digits_value(s) <= max),
            }
        }),
{
    let ghost s = bytes@.subrange(start as int, end as int);
    let mut value: u64 = 0;
    let mut i = start;
    while i < end
        invariant
            start <= i <= end <= bytes@.len(),
            s == bytes@.subrange(start as int, end as int),
            max <= 0x1_0000_0000,
            all_digits(s.subrange(0, i - start)),
            value == digits_value(s.subrange(0, i - start)),
            value <= max,
        decreases end - i,
    {
        let b = bytes[i];
        proof {
            lemma_digits_value_step(s, i - start);
        }
        if b < 48 || b > 57 {
            assert(!all_digits(s));
            return None;
        }
        let next = value * 10 + (b - 48) as u64;
        if next > max {
            proof {
                assert(s.subrange(0, i - start + 1) =~= s.subrange(0, (i + 1) - start));
                let prefix = s.subrange(0, (i + 1) - start);
                assert forall|k: int| 0 <= k < prefix.len() implies is_digit(#[trigger] prefix[k]) by {
                    if k < i - start {
                        assert(prefix[k] == s.subrange(0, i - start)[k]);
                    }
                }
                if all_digits(s) {
                    lemma_digits_value_monotone(s, (i + 1) - start);
                }
            }
            return None;
        }
        proof {
            let prefix = s.subrange(0, (i + 1) - start);
            assert forall|k: int| 0 <= k < prefix.len() implies is_digit(#[trigger] prefix[k]) by {
                if k < i - start {
                    assert(prefix[k] == s.subrange(0, i - start)[k]);
                }
            }
        }
        value = next;
        i = i + 1;
    }
    assert(s.subrange(0, end - start) =~= s);
    Some(value)
}

/// Value of `bytes[start..end]` read as Rust reads an unsigned integer: an
/// optional `+`, then one or more digits, at most `max`.
fn parse_unsigned_at(bytes: &[u8], start: usize, end: usize, max: u64) -> (r: Option<u64>)
    requires
        start <= end <= bytes@.len(),
        max <= 0x1_0000_0000,
    ensures
        ({
            let s = bytes@.subrange(start as int, end as int);
            match r {
                Some(v) => parse_unsigned(s, max as int) == Some(v as int),
                None => parse_unsigned(s, max as int) is None,
            }
        }),
{
    let ghost s = bytes@.subrange(start as int, end as int);
    let mut from = start;
    if start < end && bytes[start] == 43 {
        from = start + 1;
        assert(s.skip(1) =~= bytes@.subrange(from as int, end as int));
    } else {
        assert(s =~= bytes@.subrange(from as int, end as int));
    }
    if from == end {
        return None;
    }
    parse_digits(bytes, from, end, max)
}

/// Value of `bytes[start..end]` read as Rust reads an `i32`.
fn parse_signed_at(bytes: &[u8], start: usize, end: usize) -> (r: Option<i32>)
    requires
        start <= end <= bytes@.len(),
    ensures
        ({
            let s = bytes@.subrange(start as int, end as int);
            match r {
                Some(v) => parse_signed(s) == Some(v as int),
                None => parse_signed(s) is None,
            }
        }),
{
    let ghost s = bytes@.subrange(start as int, end as int);
    if start < end && bytes[start] == 45 {
        assert(s.skip(1) =~= bytes@.subrange(start + 1, end as int));
        if start + 1 == end {
            return None;
        }
        match parse_digits(bytes, start + 1, end, 0x8000_0000) {
            None => None,
            Some(v) => Some((0 - (v as i64)) as i32),
        }
    } else {
        match parse_unsigned_at(bytes, start, end, 0x7fff_ffff) {
            None => None,
            Some(v) => Some(v as i32),
        }
    }
}

/// Nanoseconds of a decimal fraction of a second, at most nine digits.
pub fn nanos(bytes: &[u8], start: usize, end: usize) -> (r: Option<u32>)
    requires
        start <= end <= bytes@.len(),
    ensures
        ({
            let s = bytes@.subrange(start as int, end as int);
            match r {
                Some(v) => nanos_spec(s) == Some(v as int),
                None => nanos_spec(s) is None,
            }
        }),
{
    let ghost s = bytes@.subrange(start as int, end as int);
    if end - start > 9 {
        return None;
    }
    proof {
        assert(pow10(9) == 1_000_000_000) by {
            reveal_with_fuel(pow10, 10);
        }
        lemma_pow10_monotone(s.len(), 9);
        if all_digits(s) {
            lemma_digits_below_pow10(s);
        }
    }
    let digits = match parse_digits(bytes, start, end, 999_999_999) {
        None => return None,
        Some(v) => v,
    };
    let len = end - start;
    let mut value = digits;
    let mut k: usize = len;
    proof {
        lemma_digits_below_pow10(s);
        assert(pow10(0) == 1);
    }
    while k < 9
        invariant
            len == end - start,
            len <= k <= 9,
            s.len() == len,
            all_digits(s),
            value == digits_value(s) * pow10((k - len) as nat),
            0 <= digits_value(s) < pow10(len as nat),
            pow10(9) == 1_000_000_000,
        decreases 9 - k,
    {
        proof {
            lemma_pow10_split(len as nat, (k - len) as nat);
            lemma_pow10_positive((k - len) as nat);
            lemma_pow10_monotone((k + 1) as nat, 9);
            assert(pow10((k + 1) as nat) == 10 * pow10(k as nat));
            assert(pow10(((k + 1) - len) as nat) == 10 * pow10((k - len) as nat));
            assert(value * 10 < pow10(9)) by (nonlinear_arith)
                requires
                    value == digits_value(s) * pow10((k - len) as nat),
                    0 <= digits_value(s) < pow10(len as nat),
                    pow10(k as nat) == pow10(len as nat) * pow10((k - len) as nat),
                    pow10((k - len) as nat) > 0,
                    pow10((k + 1) as nat) == 10 * pow10(k as nat),
                    pow10((k + 1) as nat) <= pow10(9),
            ;
            assert(value * 10 == digits_value(s) * pow10(((k + 1) - len) as nat)) by (
            nonlinear_arith)
                requires
                    value == digits_value(s) * pow10((k - len) as nat),
                    pow10(((k + 1) - len) as nat) == 10 * pow10((k - len) as nat),
            ;
        }
        value = value * 10;
        k = k + 1;
    }
    proof {
        lemma_pow10_positive((k - len) as nat);
        lemma_pow10_split(len as nat, (k - len) as nat);
        assert(value < 1_000_000_000) by (nonlinear_arith)
            requires
                value == digits_value(s) * pow10((k - len) as nat),
                0 <= digits_value(s) < pow10(len as nat),
                pow10(k as nat) == pow10(len as nat) * pow10((k - len) as nat),
                pow10((k - len) as nat) > 0,
                k == 9,
                pow10(9) == 1_000_000_000,
        ;
    }
    Some(value as u32)
}

proof fn lemma_pow10_positive(n: nat)
    ensures
        pow10(n) > 0,
    decreases n,
{
    if n > 0 {
        lemma_pow10_positive((n - 1) as nat);
    }
}

proof fn lemma_pow10_split(a: nat, b: nat)
    ensures
        pow10(a + b) == pow10(a) * pow10(b),
    decreases b,
{
    if b > 0 {
        lemma_pow10_split(a, (b - 1) as nat);
        assert(pow10(a + b) == 10 * pow10((a + b - 1) as nat));
        assert(pow10(a + b) == pow10(a) * pow10(b)) by (nonlinear_arith)
            requires
                pow10(a + b) == 10 * pow10((a + b - 1) as nat),
                pow10((a + b - 1) as nat) == pow10(a) * pow10((b - 1) as nat),
                pow10(b) == 10 * pow10((b - 1) as nat),
        ;
    }
}

proof fn lemma_pow10_monotone(a: nat, b: nat)
    requires
        a <= b,
    ensures
        pow10(a) <= pow10(b),
    decreases b,
{
    if a < b {
        lemma_pow10_monotone(a, (b - 1) as nat);
        lemma_pow10_positive((b - 1) as nat);
    }
}

proof fn lemma_digits_below_pow10(s: Seq<u8>)
    requires
        all_digits(s),
    ensures
        0 <= digits_value(s) < pow10(s.len()),
    decreases s.len(),
{
    if s.len() > 0 {
        lemma_digits_below_pow10(s.drop_last());
        assert(is_digit(s[s.len() - 1]));
    }
}

/// Index of the first byte `c` in `bytes[start..end]`.
fn find_byte(bytes: &[u8], c: u8, start: usize, end: usize) -> (r: Option<usize>)
    requires
        start <= end <= bytes@.len(),
    ensures
        find(bytes@.subrange(0, end as int), c, start as int) == match r {
            Some(i) => Some(i as int),
            None => None::<int>,
        },
        r matches Some(i) ==> start <= i < end,
{
    let ghost s = bytes@.subrange(0, end as int);
    let mut i = start;
    while i < end
        invariant
            start <= i <= end <= bytes@.len(),
            s == bytes@.subrange(0, end as int),
            find(s, c, start as int) == find(s, c, i as int),
        decreases end - i,
    {
        if bytes[i] == c {
            return Some(i);
        }
        i = i + 1;
    }
    None
}

proof fn lemma_find_shift(s: Seq<u8>, a: int, c: u8, k: int)
    requires
        0 <= a <= s.len(),
        0 <= k,
    ensures
        find(s.subrange(a, s.len() as int), c, k) == match find(s, c, a + k) {
            Some(i) => Some(i - a),
            None => None::<int>,
        },
    decreases s.len() - a - k,
{
    let sub = s.subrange(a, s.len() as int);
    if a + k < s.len() {
        assert(sub[k] == s[a + k]);
        if s[a + k] != c {
            lemma_find_shift(s, a, c, k + 1);
        }
    }
}

/// Index of the first byte `c` in `bytes[start..end]`, counted from `start`.
fn find_in(bytes: &[u8], c: u8, start: usize, end: usize) -> (r: Option<usize>)
    requires
        start <= end <= bytes@.len(),
    ensures
        find(bytes@.subrange(start as int, end as int), c, 0) == match r {
            Some(i) => Some(i as int),
            None => None::<int>,
        },
        r matches Some(i) ==> start + i < end,
{
    let ghost p = bytes@.subrange(0, end as int);
    proof {
        lemma_find_shift(p, start as int, c, 0);
        assert(p.subrange(start as int, end as int) =~= bytes@.subrange(start as int, end as int));
    }
    match find_byte(bytes, c, start, end) {
        Some(i) => Some(i - start),
        None => None,
    }
}

/// `bytes[start..end]` split at `c` into exactly three pieces: the absolute
/// indices of the two separators.
fn split3_in(bytes: &[u8], c: u8, start: usize, end: usize) -> (r: Option<(usize, usize)>)
    requires
        start <= end <= bytes@.len(),
    ensures
        match r {
            Some((i, j)) => start <= i < j < end && split3(
                bytes@.subrange(start as int, end as int),
                c,
            ) == Some(
                (
                    bytes@.subrange(start as int, i as int),
                    bytes@.subrange(i + 1, j as int),
                    bytes@.subrange(j + 1, end as int),
                ),
            ),
            None => split3(bytes@.subrange(start as int, end as int), c) is None,
        },
{
    let ghost piece = bytes@.subrange(start as int, end as int);
    let ghost p = bytes@.subrange(0, end as int);
    proof {
        assert(p.subrange(start as int, end as int) =~= piece);
    }
    let first = match find_byte(bytes, c, start, end) {
        None => {
            proof {
                lemma_find_shift(p, start as int, c, 0);
            }
            return None;
        },
        Some(i) => i,
    };
    proof {
        lemma_find_shift(p, start as int, c, 0);
    }
    let second = match find_byte(bytes, c, first + 1, end) {
        None => {
            proof {
                lemma_find_shift(p, start as int, c, first - start + 1);
            }
            return None;
        },
        Some(j) => j,
    };
    proof {
        lemma_find_shift(p, start as int, c, first - start + 1);
    }
    if second + 1 > end {
        return None;
    }
    match find_byte(bytes, c, second + 1, end) {
        Some(_) => {
            proof {
                lemma_find_shift(p, start as int, c, second - start + 1);
            }
            None
        },
        None => {
            proof {
                lemma_find_shift(p, start as int, c, second - start + 1);
                assert(piece.subrange(0, first - start) =~= bytes@.subrange(
                    start as int,
                    first as int,
                ));
                assert(piece.subrange(first - start + 1, second - start) =~= bytes@.subrange(
                    first + 1,
                    second as int,
                ));
                assert(piece.subrange(second - start + 1, piece.len() as int) =~= bytes@.subrange(
                    second + 1,
                    end as int,
                ));
            }
            Some((first, second))
        },
    }
}

/// Instant a Signal K timestamp's bytes name; `None` if they name none.
pub open spec fn timestamp_instant(bytes: Seq<u8>) -> Option<Instant> {
    match timestamp_fields(bytes) {
        Some(c) => if civil_valid(c) {
            Some(Instant { nanos: civil_nanos(c) as i64 })
        } else {
            None
        },
        None => None,
    }
}

/// What [`parse_timestamp`] gives is the instant the bytes name.
pub proof fn lemma_parsed_instant(bytes: Seq<u8>, r: Option<Instant>)
    requires
        match timestamp_fields(bytes) {
            Some(c) => if civil_valid(c) {
                r matches Some(t) && t@ == civil_nanos(c)
            } else {
                r is None
            },
            None => r is None,
        },
    ensures
        r == timestamp_instant(bytes),
{
}

/// Instant of a Signal K timestamp; `None` if it is not one.
///
/// Accepts a `Z` or `+00:00` suffix and zero to nine decimals of a second.
/// Other offsets are refused: the specification requires UTC.
#[verifier::rlimit(100)]
#[verifier::spinoff_prover]
pub fn parse_timestamp(text: &str) -> (r: Option<Instant>)
    ensures
        match timestamp_fields(text.spec_bytes()) {
            Some(c) => if civil_valid(c) {
                r matches Some(t) && t@ == civil_nanos(c)
            } else {
                r is None
            },
            None => r is None,
        },
{
    let bytes = text.as_bytes();
    let ghost s = text.spec_bytes();
    let n = bytes.len();
    let body_end: usize;
    if n >= 1 && bytes[n - 1] == 90 {
        body_end = n - 1;
        assert(s.drop_last() =~= s.subrange(0, body_end as int));
    } else if n >= 6 && bytes[n - 6] == 43 && bytes[n - 5] == 48 && bytes[n - 4] == 48
        && bytes[n - 3] == 58 && bytes[n - 2] == 48 && bytes[n - 1] == 48 {
        body_end = n - 6;
        assert(s.subrange(n - 6, n as int) =~= seq![43u8, 48u8, 48u8, 58u8, 48u8, 48u8]);
    } else {
        proof {
            if n >= 6 && s.subrange(n - 6, n as int) =~= seq![
                43u8,
                48u8,
                48u8,
                58u8,
                48u8,
                48u8,
            ] {
                assert(s.subrange(n - 6, n as int)[0] == s[n - 6]);
                assert(s.subrange(n - 6, n as int)[1] == s[n - 5]);
                assert(s.subrange(n - 6, n as int)[2] == s[n - 4]);
                assert(s.subrange(n - 6, n as int)[3] == s[n - 3]);
                assert(s.subrange(n - 6, n as int)[4] == s[n - 2]);
                assert(s.subrange(n - 6, n as int)[5] == s[n - 1]);
            }
        }
        return None;
    }
    let ghost body = s.subrange(0, body_end as int);
    assert(utc_body(s) == Some(body));
    let t = match find_in(bytes, 84, 0, body_end) {
        None => return None,
        Some(t) => t,
    };
    let ghost time = body.subrange(t + 1, body.len() as int);
    assert(time =~= bytes@.subrange(t + 1, body_end as int));
    let (clock_end, fraction_start) = match find_in(bytes, 46, t + 1, body_end) {
        Some(d) => {
            assert(time.subrange(0, d as int) =~= bytes@.subrange(t + 1, t + 1 + d));
            assert(time.subrange(d + 1, time.len() as int) =~= bytes@.subrange(
                t + 1 + d + 1,
                body_end as int,
            ));
            (t + 1 + d, t + 1 + d + 1)
        },
        None => {
            assert(bytes@.subrange(body_end as int, body_end as int) =~= Seq::<u8>::empty());
            (body_end, body_end)
        },
    };
    assert(body.subrange(0, t as int) =~= bytes@.subrange(0, t as int));
    let (d1, d2) = match split3_in(bytes, 45, 0, t) {
        None => return None,
        Some(p) => p,
    };
    let (c1, c2) = match split3_in(bytes, 58, t + 1, clock_end) {
        None => return None,
        Some(p) => p,
    };
    let year = match parse_signed_at(bytes, 0, d1) {
        None => return None,
        Some(v) => v,
    };
    let month = match parse_unsigned_at(bytes, d1 + 1, d2, 255) {
        None => return None,
        Some(v) => v as u8,
    };
    let day = match parse_unsigned_at(bytes, d2 + 1, t, 255) {
        None => return None,
        Some(v) => v as u8,
    };
    let hour = match parse_unsigned_at(bytes, t + 1, c1, 255) {
        None => return None,
        Some(v) => v as u8,
    };
    let minute = match parse_unsigned_at(bytes, c1 + 1, c2, 255) {
        None => return None,
        Some(v) => v as u8,
    };
    let second = match parse_unsigned_at(bytes, c2 + 1, clock_end, 255) {
        None => return None,
        Some(v) => v as u8,
    };
    let nanos = match nanos(bytes, fraction_start, body_end) {
        None => return None,
        Some(v) => v,
    };
    let civil = Civil { year, month, day, hour, minute, second, nanos };
    assert(timestamp_fields(s) == Some(civil));
    match Instant::from_civil(civil) {
        Ok(t) => Some(t),
        Err(_) => None,
    }
}

} // verus!
