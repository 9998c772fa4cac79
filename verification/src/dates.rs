//! Calendar dates: decimal parsing, civil-date day numbers, and report date
//! bounds.
use vstd::prelude::*;

use crate::text::{chars_of, concat3, split_chars, split_on, string_of};

verus! {

broadcast use vstd::seq_lib::group_seq_properties;

// ---------------------------------------------------------------------------
// Decimal integers (the `FromStr` impls of `u32` and `i32`)
// ---------------------------------------------------------------------------

pub open spec fn is_digit(c: char) -> bool {
    '0' <= c && c <= '9'
}

pub open spec fn digit_value(c: char) -> int {
    c as int - '0' as int
}

/// The value of a run of decimal digits, most significant first.
pub open spec fn digits_value(s: Seq<char>) -> int
    decreases s.len(),
{
    if s.len() == 0 {
        0
    } else {
        10 * digits_value(s.drop_last()) + digit_value(s.last())
    }
}

pub open spec fn all_digits(s: Seq<char>) -> bool {
    forall|i: int| 0 <= i < s.len() ==> is_digit(#[trigger] s[i])
}

/// `s` without one leading sign character, if it has one of those allowed.
pub open spec fn unsigned_body(s: Seq<char>, allow_minus: bool) -> Seq<char> {
    if s.len() > 0 && (s[0] == '+' || (allow_minus && s[0] == '-')) {
        s.skip(1)
    } else {
        s
    }
}

/// What `str::parse::<u32>` yields: an optional '+', then one or more
/// decimal digits whose value fits in `u32`.
pub open spec fn parse_u32_spec(s: Seq<char>) -> Option<u32> {
    let body = unsigned_body(s, false);
    if body.len() > 0 && all_digits(body) && digits_value(body) <= u32::MAX {
        Some(digits_value(body) as u32)
    } else {
        None
    }
}

/// What `str::parse::<i32>` yields: an optional '+' or '-', then one or more
/// decimal digits whose signed value fits in `i32`.
pub open spec fn parse_i32_spec(s: Seq<char>) -> Option<i32> {
    let body = unsigned_body(s, true);
    let neg = s.len() > 0 && s[0] == '-';
    let v = if neg {
        -digits_value(body)
    } else {
        digits_value(body)
    };
    if body.len() > 0 && all_digits(body) && i32::MIN <= v <= i32::MAX {
        Some(v as i32)
    } else {
        None
    }
}

pub proof fn lemma_digits_value_nonneg(s: Seq<char>)
    requires
        all_digits(s),
    ensures
        digits_value(s) >= 0,
    decreases s.len(),
{
    if s.len() > 0 {
        lemma_digits_value_nonneg(s.drop_last());
    }
}

/// The decimal digit character for `d` (0 to 9).
pub open spec fn digit_char(d: int) -> char {
    if d == 0 {
        '0'
    } else if d == 1 {
        '1'
    } else if d == 2 {
        '2'
    } else if d == 3 {
        '3'
    } else if d == 4 {
        '4'
    } else if d == 5 {
        '5'
    } else if d == 6 {
        '6'
    } else if d == 7 {
        '7'
    } else if d == 8 {
        '8'
    } else {
        '9'
    }
}

/// The decimal form of `n`, without sign or leading zeros (how `{}` formats
/// an unsigned integer).
pub open spec fn decimal(n: nat) -> Seq<char>
    decreases n,
{
    if n < 10 {
        seq![digit_char(n as int)]
    } else {
        decimal(n / 10).push(digit_char((n % 10) as int))
    }
}

/// Reading back the decimal form of a number gives the number.
pub proof fn lemma_decimal_reads_back(n: nat)
    ensures
        decimal(n).len() > 0,
        all_digits(decimal(n)),
        digits_value(decimal(n)) == n,
    decreases n,
{
    let r = (n % 10) as int;
    assert(0 <= r < 10);
    assert(digit_value(digit_char(r)) == r);
    if n >= 10 {
        lemma_decimal_reads_back(n / 10);
        let d = decimal(n / 10);
        assert(decimal(n).drop_last() =~= d);
        assert(decimal(n).last() == digit_char(r));
        assert(n == 10 * (n / 10) + r);
        assert forall|i: int| 0 <= i < decimal(n).len() implies is_digit(#[trigger] decimal(n)[i]) by {
            if i < d.len() {
                assert(decimal(n)[i] == d[i]);
            }
        }
    } else {
        assert(decimal(n).drop_last() =~= Seq::<char>::empty());
        assert(digits_value(Seq::<char>::empty()) == 0);
    }
}

fn digit_of(d: u64) -> (c: char)
    requires
        d < 10,
    ensures
        c == digit_char(d as int),
{
    if d == 0 {
        '0'
    } else if d == 1 {
        '1'
    } else if d == 2 {
        '2'
    } else if d == 3 {
        '3'
    } else if d == 4 {
        '4'
    } else if d == 5 {
        '5'
    } else if d == 6 {
        '6'
    } else if d == 7 {
        '7'
    } else if d == 8 {
        '8'
    } else {
        '9'
    }
}

/// The decimal digits of `n`.
pub fn decimal_chars(n: u64) -> (res: Vec<char>)
    ensures
        res@ == decimal(n as nat),
    decreases n,
{
    if n < 10 {
        let mut v: Vec<char> = Vec::new();
        v.push(digit_of(n));
        v
    } else {
        let mut v = decimal_chars(n / 10);
        v.push(digit_of(n % 10));
        v
    }
}

/// `n` written in decimal.
pub fn decimal_string(n: u64) -> (res: String)
    ensures
        res@ == decimal(n as nat),
{
    string_of(&decimal_chars(n))
}

/// A bound above every `u32` and `i32` magnitude; larger values are reported as it.
pub const DIGITS_CAP: u64 = 10_000_000_000;

/// Value of `cs[from..]` as decimal digits, capped at `DIGITS_CAP`; `None` when
/// the run is empty or holds a non-digit.
fn capped_digits(cs: &Vec<char>, from: usize) -> (res: Option<u64>)
    requires
        from <= cs.len(),
    ensures
        ({
            let body = cs@.skip(from as int);
            match res {
                Some(v) => body.len() > 0 && all_digits(body) && (v == digits_value(body) || (v
                    == DIGITS_CAP && digits_value(body) >= DIGITS_CAP)),
                None => !(body.len() > 0 && all_digits(body)),
            }
        }),
{
    let ghost body = cs@.skip(from as int);
    if from == cs.len() {
        return None;
    }
    let mut acc: u64 = 0;
    let mut i: usize = from;
    while i < cs.len()
        invariant
            from <= i <= cs.len(),
            body == cs@.skip(from as int),
            all_digits(body.take(i - from)),
            acc <= DIGITS_CAP,
            acc == digits_value(body.take(i - from)) || (acc == DIGITS_CAP && digits_value(
                body.take(i - from),
            ) >= DIGITS_CAP),
        decreases cs.len() - i,
    {
        let c = cs[i];
        if !('0' <= c && c <= '9') {
            assert(body[i - from] == c);
            return None;
        }
        proof {
            assert(body.take(i - from + 1).drop_last() == body.take(i - from));
            assert(body.take(i - from + 1).last() == c);
            lemma_digits_value_nonneg(body.take(i - from));
        }
        let dv = (c as u32 - '0' as u32) as u64;
        if acc == DIGITS_CAP {
            acc = DIGITS_CAP;
        } else {
            let next = acc * 10 + dv;
            if next >= DIGITS_CAP {
                acc = DIGITS_CAP;
            } else {
                acc = next;
            }
        }
        i = i + 1;
    }
    assert(body.take(i - from) == body);
    Some(acc)
}

/// `s.parse::<u32>()`, as an option.
pub fn parse_u32(s: &Vec<char>) -> (res: Option<u32>)
    ensures
        res == parse_u32_spec(s@),
{
    let from: usize = if s.len() > 0 && s[0] == '+' {
        1
    } else {
        0
    };
    assert(s@.skip(from as int) == unsigned_body(s@, false));
    match capped_digits(s, from) {
        Some(v) => {
            if v <= u32::MAX as u64 {
                Some(v as u32)
            } else {
                None
            }
        },
        None => None,
    }
}

/// `s.parse::<i32>()`, as an option.
pub fn parse_i32(s: &Vec<char>) -> (res: Option<i32>)
    ensures
        res == parse_i32_spec(s@),
{
    let neg = s.len() > 0 && s[0] == '-';
    let from: usize = if s.len() > 0 && (s[0] == '+' || s[0] == '-') {
        1
    } else {
        0
    };
    assert(s@.skip(from as int) == unsigned_body(s@, true));
    match capped_digits(s, from) {
        Some(v) => {
            if neg {
                if v <= 2147483648 {
                    Some((0 - (v as i64)) as i32)
                } else {
                    None
                }
            } else {
                if v <= 2147483647 {
                    Some(v as i32)
                } else {
                    None
                }
            }
        },
        None => None,
    }
}

// ---------------------------------------------------------------------------
// Civil dates
// ---------------------------------------------------------------------------

/// The year of the March-based calendar that day `m`/`y` falls in.
pub open spec fn shifted_year(y: int, m: int) -> int {
    if m <= 2 {
        y - 1
    } else {
        y
    }
}

/// The 400-year era of year `y` (Rust's truncating division of the
/// floor-adjusted year).
pub open spec fn era_of(y: int) -> int {
    if y >= 0 {
        y / 400
    } else {
        -((399 - y) / 400)
    }
}

/// Day of the March-based year for month `m`, day `d`.
pub open spec fn day_of_year(m: int, d: int) -> int {
    (153 * (if m > 2 {
        m - 3
    } else {
        m + 9
    }) + 2) / 5 + d - 1
}

/// Day of the 400-year era.
pub open spec fn day_of_era(y: int, m: int, d: int) -> int {
    let yy = shifted_year(y, m);
    let yoe = yy - era_of(yy) * 400;
    yoe * 365 + yoe / 4 - yoe / 100 + day_of_year(m, d)
}

/// The inputs on which the day computation stays within its integer types.
pub open spec fn civil_in_range(y: i32, m: u32, d: u32) -> bool {
    let yy = shifted_year(y as int, m as int);
    let mm = if m > 2 {
        m - 3
    } else {
        m + 9
    };
    &&& (m <= 2 ==> y > i32::MIN)
    &&& (yy < 0 ==> yy - 399 >= i32::MIN)
    &&& 153 * mm + 2 <= u32::MAX
    &&& (153 * mm + 2) / 5 + d <= u32::MAX
    &&& (153 * mm + 2) / 5 + d >= 1
    &&& day_of_era(y as int, m as int, d as int) <= u32::MAX
    &&& i32::MIN <= era_of(yy) * 146097 <= i32::MAX
    &&& i32::MIN <= era_of(yy) * 146097 + (day_of_era(y as int, m as int, d as int) as i32)
        <= i32::MAX
    &&& i32::MIN <= era_of(yy) * 146097 + (day_of_era(y as int, m as int, d as int) as i32)
        - 719468 <= i32::MAX
}

/// Days since 1970-01-01 of the civil date `y`-`m`-`d`.
pub open spec fn civil_days(y: i32, m: u32, d: u32) -> int {
    let yy = shifted_year(y as int, m as int);
    era_of(yy) * 146097 + (day_of_era(y as int, m as int, d as int) as i32) - 719468
}

/// Civil date to days since Unix epoch (1970-01-01).
pub fn days_from_civil(y: i32, m: u32, d: u32) -> (days: i32)
    requires
        civil_in_range(y, m, d),
    ensures
        days == civil_days(y, m, d),
{
    let y = if m <= 2 {
        y - 1
    } else {
        y
    };
    // Truncating division of the floor-adjusted year, computed on
    // non-negative operands.
    let yl = y as i64;
    let era_l: i64 = if yl >= 0 {
        yl / 400
    } else {
        0 - (399 - yl) / 400
    };
    assert(era_l == era_of(y as int));
    assert(0 <= y - era_l * 400 < 400) by (nonlinear_arith)
        requires
            era_l == era_of(y as int),
            y >= 0 ==> era_l == y / 400,
            y < 0 ==> era_l == -((399 - y) / 400),
    ;
    assert(i32::MIN <= era_l <= i32::MAX) by (nonlinear_arith)
        requires
            y >= 0 ==> era_l == y / 400,
            y < 0 ==> era_l == -((399 - y) / 400),
            i32::MIN <= y <= i32::MAX,
    ;
    let era = era_l as i32;
    let yoe = (y - era * 400) as u32;
    let mm = if m > 2 {
        m - 3
    } else {
        m + 9
    };
    let doy = (153 * mm + 2) / 5 + d - 1;
    let doe = yoe * 365 + yoe / 4 - yoe / 100 + doy;
    era * 146097 + doe as i32 - 719468
}

// ---------------------------------------------------------------------------
// Report date bounds
// ---------------------------------------------------------------------------

/// The year, month and day fields of a `YYYY-MM-DD` string, when all parse.
pub open spec fn date_fields(s: Seq<char>) -> Option<(i32, u32, u32)> {
    let parts = split_on(s, '-');
    if parts.len() == 3 && parse_i32_spec(parts[0]) is Some && parse_u32_spec(parts[1]) is Some
        && parse_u32_spec(parts[2]) is Some {
        Some(
            (
                parse_i32_spec(parts[0]).unwrap(),
                parse_u32_spec(parts[1]).unwrap(),
                parse_u32_spec(parts[2]).unwrap(),
            ),
        )
    } else {
        None
    }
}

/// The dates whose day number the computation can represent.
pub open spec fn date_in_range(s: Seq<char>) -> bool {
    date_fields(s) matches Some(f) ==> civil_in_range(f.0, f.1, f.2)
}

/// What parsing `s` as `YYYY-MM-DD` yields: the unix timestamp of the day's
/// first second (or last, with `end_of_day`), or the error message.
pub open spec fn date_ts_outcome(s: Seq<char>, end_of_day: bool) -> Result<int, Seq<char>> {
    let parts = split_on(s, '-');
    if parts.len() != 3 {
        Err("expected YYYY-MM-DD, got "@ + s)
    } else if parse_i32_spec(parts[0]) is None {
        Err("invalid year"@)
    } else if parse_u32_spec(parts[1]) is None {
        Err("invalid month"@)
    } else if parse_u32_spec(parts[2]) is None {
        Err("invalid day"@)
    } else {
        let base = civil_days(
            parse_i32_spec(parts[0]).unwrap(),
            parse_u32_spec(parts[1]).unwrap(),
            parse_u32_spec(parts[2]).unwrap(),
        ) * 86400;
        Ok(
            if end_of_day {
                base + 86399
            } else {
                base
            },
        )
    }
}

/// Parse an ISO date string (YYYY-MM-DD) to a unix timestamp.
/// If `end_of_day` is true, returns 23:59:59 of that day.
pub fn parse_date_to_ts(date_str: &str, end_of_day: bool) -> (res: Result<i64, String>)
    requires
        date_in_range(date_str@),
    ensures
        match res {
            Ok(ts) => date_ts_outcome(date_str@, end_of_day) == Ok::<int, Seq<char>>(ts as int),
            Err(m) => date_ts_outcome(date_str@, end_of_day) == Err::<int, Seq<char>>(m@),
        },
{
    let cs = chars_of(date_str);
    let parts = split_chars(&cs, '-');
    if parts.len() != 3 {
        proof {
            reveal_strlit("");
        }
        return Err(concat3("expected YYYY-MM-DD, got ", date_str, ""));
    }
    let y = match parse_i32(&parts[0]) {
        Some(v) => v,
        None => return Err(crate::text::copy_str("invalid year")),
    };
    let m = match parse_u32(&parts[1]) {
        Some(v) => v,
        None => return Err(crate::text::copy_str("invalid month")),
    };
    let d = match parse_u32(&parts[2]) {
        Some(v) => v,
        None => return Err(crate::text::copy_str("invalid day")),
    };
    assert(date_fields(date_str@) == Some((y, m, d)));
    let days = days_from_civil(y, m, d);
    let base = days as i64 * 86400;
    if end_of_day {
        Ok(base + 86399)
    } else {
        Ok(base)
    }
}

// ---------------------------------------------------------------------------
// Timestamps read and written by chrono
// ---------------------------------------------------------------------------

/// The unix time of an RFC 3339 timestamp as chrono reads it, `None` where
/// chrono rejects the text.
pub uninterp spec fn rfc3339_seconds(s: Seq<char>) -> Option<i64>;

/// The UTC calendar day of a unix time as chrono writes it with `%Y-%m-%d`,
/// `None` where the time is outside chrono's range.
pub uninterp spec fn utc_day_text(ts: i64) -> Option<Seq<char>>;

/// `chrono::DateTime::parse_from_rfc3339(s)` and then `timestamp()`: the unix
/// time `s` denotes. The outcome depends on `s` alone.
#[verifier::external_body]
pub(crate) fn parse_rfc3339_seconds(s: &str) -> (res: Option<i64>)
    ensures
        res == rfc3339_seconds(s@),
{
    match chrono::DateTime::parse_from_rfc3339(s) {
        Ok(dt) => Some(dt.timestamp()),
        Err(_) => None,
    }
}

/// `chrono::DateTime::from_timestamp(ts, 0)` formatted with `%Y-%m-%d`: the
/// UTC day of `ts`. The outcome depends on `ts` alone.
#[verifier::external_body]
pub(crate) fn utc_day_of(ts: i64) -> (res: Option<String>)
    ensures
        match res {
            Some(d) => utc_day_text(ts) == Some(d@),
            None => utc_day_text(ts) is None,
        },
{
    match chrono::DateTime::from_timestamp(ts, 0) {
        Some(dt) => Some(dt.format("%Y-%m-%d").to_string()),
        None => None,
    }
}

/// The unix time of an optional RFC 3339 timestamp; `None` when it is absent
/// or unreadable.
pub fn timestamp_of(s: Option<&str>) -> (res: Option<i64>)
    ensures
        res == (match s {
            Some(t) => rfc3339_seconds(t@),
            None => None,
        }),
{
    match s {
        Some(t) => parse_rfc3339_seconds(t),
        None => None,
    }
}

/// The UTC day of an optional unix time; `None` when it is absent or out of
/// range.
pub fn day_of(ts: Option<i64>) -> (res: Option<String>)
    ensures
        match ts {
            Some(t) => match res {
                Some(d) => utc_day_text(t) == Some(d@),
                None => utc_day_text(t) is None,
            },
            None => res is None,
        },
{
    match ts {
        Some(t) => utc_day_of(t),
        None => None,
    }
}

// ---------------------------------------------------------------------------
// Laws
// ---------------------------------------------------------------------------

/// The decimal form of a `u32` parses back to it.
pub proof fn law_decimal_parses_back(n: u32)
    ensures
        parse_u32_spec(decimal(n as nat)) == Some(n),
{
    lemma_decimal_reads_back(n as nat);
    let t = decimal(n as nat);
    assert(is_digit(t[0]));
    assert(unsigned_body(t, false) == t);
}

/// The end of a day is its start plus 86399 seconds; both fail alike.
pub proof fn law_end_of_day(s: Seq<char>)
    ensures
        match (date_ts_outcome(s, false), date_ts_outcome(s, true)) {
            (Ok(a), Ok(b)) => b == a + 86399,
            (Err(x), Err(y)) => x == y,
            _ => false,
        },
{
}

proof fn lemma_year_of_era(y: int)
    ensures
        0 <= y - era_of(y) * 400 < 400,
{
    if y >= 0 {
        assert(0 <= y - (y / 400) * 400 < 400) by (nonlinear_arith);
    } else {
        let q = (399 - y) / 400;
        assert(399 - y - 400 * q >= 0 && 399 - y - 400 * q < 400) by (nonlinear_arith)
            requires
                q == (399 - y) / 400,
                399 - y > 0,
        ;
    }
}

/// Within a month, the next day's number is one more.
pub proof fn law_next_day(y: i32, m: u32, d: u32)
    requires
        1 <= m <= 12,
        1 <= d < 31,
        civil_in_range(y, m, d),
        civil_in_range(y, m, (d + 1) as u32),
    ensures
        civil_days(y, m, (d + 1) as u32) == civil_days(y, m, d) + 1,
{
    let yy = shifted_year(y as int, m as int);
    lemma_year_of_era(yy);
    let yoe = yy - era_of(yy) * 400;
    assert(0 <= yoe * 365 + yoe / 4 - yoe / 100 < 146000) by (nonlinear_arith)
        requires
            0 <= yoe < 400,
    ;
    assert(day_of_year(m as int, (d + 1) as int) == day_of_year(m as int, d as int) + 1);
    assert(0 <= day_of_year(m as int, d as int) < 400);
    let a = day_of_era(y as int, m as int, d as int);
    let b = day_of_era(y as int, m as int, (d + 1) as int);
    assert(b == a + 1);
    assert(0 <= a < 147000);
    assert((a as i32) == a);
    assert((b as i32) == b);
}

/// A leap year of the proleptic Gregorian calendar.
pub open spec fn is_leap_year(y: int) -> bool {
    y % 4 == 0 && (y % 100 != 0 || y % 400 == 0)
}

/// The number of days of month `m` of year `y`.
pub open spec fn days_in_month(y: int, m: int) -> int {
    if m == 2 {
        if is_leap_year(y) {
            29
        } else {
            28
        }
    } else if m == 4 || m == 6 || m == 9 || m == 11 {
        30
    } else {
        31
    }
}

/// The calendar day after `y`-`m`-`d`.
pub open spec fn following_day(y: int, m: int, d: int) -> (int, int, int) {
    if d < days_in_month(y, m) {
        (y, m, d + 1)
    } else if m < 12 {
        (y, m + 1, 1)
    } else {
        (y + 1, 1, 1)
    }
}

proof fn lemma_era_unique(x: int, e: int)
    requires
        0 <= x - 400 * e < 400,
    ensures
        era_of(x) == e,
{
    lemma_year_of_era(x);
    let f = era_of(x);
    assert(e == f) by (nonlinear_arith)
        requires
            0 <= x - 400 * e < 400,
            0 <= x - 400 * f < 400,
    ;
}

proof fn lemma_doe_bounds(yoe: int, doy: int)
    requires
        0 <= yoe < 400,
        0 <= doy < 366,
    ensures
        0 <= yoe * 365 + yoe / 4 - yoe / 100 + doy < 146097,
{
    assert(0 <= yoe * 365 + yoe / 4 - yoe / 100 <= 145731) by (nonlinear_arith)
        requires
            0 <= yoe < 400,
    ;
}

/// Two dates of one March-based year whose days of the year follow each
/// other are one day apart.
proof fn lemma_days_within_shifted_year(y: i32, m: u32, d: u32, y2: i32, m2: u32, d2: u32)
    requires
        shifted_year(y2 as int, m2 as int) == shifted_year(y as int, m as int),
        day_of_year(m2 as int, d2 as int) == day_of_year(m as int, d as int) + 1,
        0 <= day_of_year(m as int, d as int),
        day_of_year(m2 as int, d2 as int) < 366,
    ensures
        civil_days(y2, m2, d2) == civil_days(y, m, d) + 1,
{
    let yy = shifted_year(y as int, m as int);
    lemma_year_of_era(yy);
    let yoe = yy - era_of(yy) * 400;
    lemma_doe_bounds(yoe, day_of_year(m as int, d as int));
    lemma_doe_bounds(yoe, day_of_year(m2 as int, d2 as int));
    let a = day_of_era(y as int, m as int, d as int);
    let b = day_of_era(y2 as int, m2 as int, d2 as int);
    assert(b == a + 1);
    assert((a as i32) == a);
    assert((b as i32) == b);
}

/// Leap days: the end of February of the year after March-based year `yy`.
proof fn lemma_february_rollover(y: i32)
    requires
        y > i32::MIN,
    ensures
        civil_days(y, 3, 1) == civil_days(y, 2, days_in_month(y as int, 2) as u32) + 1,
{
    let yy = y - 1;
    lemma_year_of_era(yy as int);
    let e = era_of(yy as int);
    let yoe = yy - e * 400;
    let dim = days_in_month(y as int, 2);
    assert(day_of_year(2, dim) == 336 + dim);
    assert(day_of_year(3, 1) == 0);
    let a = day_of_era(y as int, 2, dim);
    let b = day_of_era(y as int, 3, 1);
    assert(a == yoe * 365 + yoe / 4 - yoe / 100 + 336 + dim);
    if yoe < 399 {
        lemma_era_unique(y as int, e);
        assert(b == (yoe + 1) * 365 + (yoe + 1) / 4 - (yoe + 1) / 100);
        assert((y as int) % 400 == yoe + 1) by (nonlinear_arith)
            requires
                y == e * 400 + yoe + 1,
                0 <= yoe + 1 < 400,
        ;
        assert((y as int) % 4 == (yoe + 1) % 4) by (nonlinear_arith)
            requires
                y == e * 400 + yoe + 1,
        ;
        assert((y as int) % 100 == (yoe + 1) % 100) by (nonlinear_arith)
            requires
                y == e * 400 + yoe + 1,
        ;
        assert((yoe + 1) / 4 - yoe / 4 == (if (yoe + 1) % 4 == 0 {
            1int
        } else {
            0
        })) by (nonlinear_arith)
            requires
                0 <= yoe < 399,
        ;
        assert((yoe + 1) / 100 - yoe / 100 == (if (yoe + 1) % 100 == 0 {
            1int
        } else {
            0
        })) by (nonlinear_arith)
            requires
                0 <= yoe < 399,
        ;
        assert((yoe + 1) % 100 == 0 ==> (yoe + 1) % 4 == 0) by (nonlinear_arith)
            requires
                0 <= yoe < 399,
        ;
        assert(b == a + 1);
        lemma_doe_bounds(yoe, 336 + dim);
        lemma_doe_bounds(yoe + 1, 0);
        assert((a as i32) == a);
        assert((b as i32) == b);
    } else {
        lemma_era_unique(y as int, e + 1);
        assert((y as int) % 400 == 0) by (nonlinear_arith)
            requires
                y == (e + 1) * 400,
        ;
        assert((y as int) % 4 == 0) by (nonlinear_arith)
            requires
                y == (e + 1) * 400,
        ;
        assert(dim == 29);
        assert(a == 146096);
        assert(b == 0);
        assert((a as i32) == a);
        assert((b as i32) == b);
    }
}

/// Day numbers count days: the day after any date has the next number. With
/// `law_epoch_day`, this fixes the number of every date in range.
pub proof fn law_following_day_counts_one(y: i32, m: u32, d: u32)
    requires
        1 <= m <= 12,
        1 <= d <= days_in_month(y as int, m as int),
        y > i32::MIN,
        m == 12 ==> y < i32::MAX,
        civil_in_range(y, m, d),
    ensures
        ({
            let (ny, nm, nd) = following_day(y as int, m as int, d as int);
            civil_days(ny as i32, nm as u32, nd as u32) == civil_days(y, m, d) + 1
        }),
{
    let dim = days_in_month(y as int, m as int);
    if d < dim {
        lemma_days_within_shifted_year(y, m, d, y, m, (d + 1) as u32);
    } else if m == 2 {
        lemma_february_rollover(y);
    } else if m < 12 {
        assert(day_of_year((m + 1) as int, 1) == day_of_year(m as int, d as int) + 1);
        lemma_days_within_shifted_year(y, m, d, y, (m + 1) as u32, 1);
    } else {
        assert(day_of_year(1, 1) == day_of_year(12, 31) + 1);
        lemma_days_within_shifted_year(y, m, d, (y + 1) as i32, 1, 1);
    }
}

/// Day 0 is 1970-01-01; 2000-03-01, the first day of a 400-year era, is day
/// 11017.
pub proof fn law_epoch_day()
    ensures
        civil_days(1970, 1, 1) == 0,
        civil_days(2000, 3, 1) == 11017,
{
    lemma_era_unique(1969, 4);
    lemma_era_unique(2000, 5);
    assert(day_of_era(1970, 1, 1) == 135080);
    assert(day_of_era(2000, 3, 1) == 0);
}

} // verus!
