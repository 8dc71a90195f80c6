//! Civil-calendar arithmetic for the fixed local display zone. All
//! timestamps the feeds carry are UTC; the display zone is a fixed five
//! hours behind UTC, with no daylight-saving reconciliation. Dates are
//! plain year/month/day numbers, and a day count since 1970-01-01
//! carries the weekday.

use vstd::prelude::*;

use crate::digits::{
    all_digits, digits_val, is_digit, lemma_spec_digits_are_digits, parse_u64, push_2digits,
    push_digits, spec_2digits, spec_digits,
};
use crate::text::{all_ascii, ascii_chars, ascii_to_string};
use vstd::slice::slice_subrange;

verus! {

/// A civil date and time-of-day, field for field.
#[derive(PartialEq, Eq, Structural, Clone, Copy, Debug)]
pub struct Civil {
    pub year: u64,
    pub month: u64,
    pub day: u64,
    pub hour: u64,
    pub minute: u64,
    pub second: u64,
}

pub open spec fn spec_is_leap(y: int) -> bool {
    (y % 4 == 0 && y % 100 != 0) || y % 400 == 0
}

pub open spec fn spec_days_in_month(y: int, m: int) -> int {
    if m == 2 {
        if spec_is_leap(y) {
            29
        } else {
            28
        }
    } else if m == 4 || m == 6 || m == 9 || m == 11 {
        30
    } else {
        31
    }
}

/// A date the calendar holds, within the supported year range.
pub open spec fn spec_valid_date(y: int, m: int, d: int) -> bool {
    &&& 1970 <= y <= 9999
    &&& 1 <= m <= 12
    &&& 1 <= d <= spec_days_in_month(y, m)
}

/// A date with a time of day the clock holds.
pub open spec fn spec_valid_civil(c: Civil) -> bool {
    &&& spec_valid_date(c.year as int, c.month as int, c.day as int)
    &&& c.hour < 24
    &&& c.minute < 60
    &&& c.second < 60
}

/// Days elapsed since 1970-01-01, by the era decomposition of the
/// proleptic Gregorian calendar.
pub open spec fn spec_days_from_civil(y: int, m: int, d: int) -> int
    recommends
        spec_valid_date(y, m, d),
{
    let yy = if m <= 2 {
        y - 1
    } else {
        y
    };
    let era = yy / 400;
    let yoe = yy - era * 400;
    let mp = (m + 9) % 12;
    let doy = (153 * mp + 2) / 5 + d - 1;
    let doe = yoe * 365 + yoe / 4 - yoe / 100 + doy;
    era * 146097 + doe - 719468
}

pub fn days_in_month(y: u64, m: u64) -> (r: u64)
    requires
        1 <= m <= 12,
    ensures
        r == spec_days_in_month(y as int, m as int),
{
    if m == 2 {
        if (y % 4 == 0 && y % 100 != 0) || y % 400 == 0 {
            29
        } else {
            28
        }
    } else if m == 4 || m == 6 || m == 9 || m == 11 {
        30
    } else {
        31
    }
}

/// Days since 1970-01-01 of a valid date.
pub fn days_from_civil(y: u64, m: u64, d: u64) -> (r: u64)
    requires
        spec_valid_date(y as int, m as int, d as int),
    ensures
        r == spec_days_from_civil(y as int, m as int, d as int),
        r <= 2_932_897,
{
    let yy: u64 = if m <= 2 {
        y - 1
    } else {
        y
    };
    let era: u64 = yy / 400;
    let yoe: u64 = yy - era * 400;
    let mp: u64 = (m + 9) % 12;
    let doy: u64 = (153 * mp + 2) / 5 + d - 1;
    let doe: u64 = yoe * 365 + yoe / 4 - yoe / 100 + doy;
    proof {
        assert(yy >= 1969);
        assert(era >= 4);
        assert(yoe == yy % 400);
        if m <= 2 {
            if era == 4 {
                assert(yoe >= 369);
                assert(mp >= 10);
                assert(doy >= 306);
            }
        } else {
            if era == 4 {
                assert(yoe >= 370);
            }
        }
        assert(era * 146097 + doe >= 719468);
    }
    era * 146097 + doe - 719468
}

/// The weekday of a day count: 0 is Sunday through 6 is Saturday
/// (1970-01-01 fell on a Thursday).
pub open spec fn spec_weekday_of_days(days: int) -> int {
    (days + 4) % 7
}

pub open spec fn spec_weekday_name(w: int) -> Seq<u8> {
    if w == 0 {
        seq![('S' as u8), ('u' as u8), ('n' as u8)]
    } else if w == 1 {
        seq![('M' as u8), ('o' as u8), ('n' as u8)]
    } else if w == 2 {
        seq![('T' as u8), ('u' as u8), ('e' as u8)]
    } else if w == 3 {
        seq![('W' as u8), ('e' as u8), ('d' as u8)]
    } else if w == 4 {
        seq![('T' as u8), ('h' as u8), ('u' as u8)]
    } else if w == 5 {
        seq![('F' as u8), ('r' as u8), ('i' as u8)]
    } else {
        seq![('S' as u8), ('a' as u8), ('t' as u8)]
    }
}

pub open spec fn spec_month_name(m: int) -> Seq<u8> {
    if m == 1 {
        seq![('J' as u8), ('a' as u8), ('n' as u8)]
    } else if m == 2 {
        seq![('F' as u8), ('e' as u8), ('b' as u8)]
    } else if m == 3 {
        seq![('M' as u8), ('a' as u8), ('r' as u8)]
    } else if m == 4 {
        seq![('A' as u8), ('p' as u8), ('r' as u8)]
    } else if m == 5 {
        seq![('M' as u8), ('a' as u8), ('y' as u8)]
    } else if m == 6 {
        seq![('J' as u8), ('u' as u8), ('n' as u8)]
    } else if m == 7 {
        seq![('J' as u8), ('u' as u8), ('l' as u8)]
    } else if m == 8 {
        seq![('A' as u8), ('u' as u8), ('g' as u8)]
    } else if m == 9 {
        seq![('S' as u8), ('e' as u8), ('p' as u8)]
    } else if m == 10 {
        seq![('O' as u8), ('c' as u8), ('t' as u8)]
    } else if m == 11 {
        seq![('N' as u8), ('o' as u8), ('v' as u8)]
    } else {
        seq![('D' as u8), ('e' as u8), ('c' as u8)]
    }
}

fn push3(out: &mut Vec<u8>, a: u8, b: u8, c: u8)
    ensures
        final(out)@ == old(out)@ + seq![a, b, c],
{
    out.push(a);
    out.push(b);
    out.push(c);
    assert(out@ =~= old(out)@ + seq![a, b, c]);
}

fn push_weekday_name(w: u64, out: &mut Vec<u8>)
    ensures
        final(out)@ == old(out)@ + spec_weekday_name(w as int),
{
    if w == 0 {
        push3(out, 'S' as u8, 'u' as u8, 'n' as u8);
    } else if w == 1 {
        push3(out, 'M' as u8, 'o' as u8, 'n' as u8);
    } else if w == 2 {
        push3(out, 'T' as u8, 'u' as u8, 'e' as u8);
    } else if w == 3 {
        push3(out, 'W' as u8, 'e' as u8, 'd' as u8);
    } else if w == 4 {
        push3(out, 'T' as u8, 'h' as u8, 'u' as u8);
    } else if w == 5 {
        push3(out, 'F' as u8, 'r' as u8, 'i' as u8);
    } else {
        push3(out, 'S' as u8, 'a' as u8, 't' as u8);
    }
}

fn push_month_name(m: u64, out: &mut Vec<u8>)
    ensures
        final(out)@ == old(out)@ + spec_month_name(m as int),
{
    if m == 1 {
        push3(out, 'J' as u8, 'a' as u8, 'n' as u8);
    } else if m == 2 {
        push3(out, 'F' as u8, 'e' as u8, 'b' as u8);
    } else if m == 3 {
        push3(out, 'M' as u8, 'a' as u8, 'r' as u8);
    } else if m == 4 {
        push3(out, 'A' as u8, 'p' as u8, 'r' as u8);
    } else if m == 5 {
        push3(out, 'M' as u8, 'a' as u8, 'y' as u8);
    } else if m == 6 {
        push3(out, 'J' as u8, 'u' as u8, 'n' as u8);
    } else if m == 7 {
        push3(out, 'J' as u8, 'u' as u8, 'l' as u8);
    } else if m == 8 {
        push3(out, 'A' as u8, 'u' as u8, 'g' as u8);
    } else if m == 9 {
        push3(out, 'S' as u8, 'e' as u8, 'p' as u8);
    } else if m == 10 {
        push3(out, 'O' as u8, 'c' as u8, 't' as u8);
    } else if m == 11 {
        push3(out, 'N' as u8, 'o' as u8, 'v' as u8);
    } else {
        push3(out, 'D' as u8, 'e' as u8, 'c' as u8);
    }
}

/// The same moment, expressed in the display zone five hours behind
/// UTC: the time of day moves back five hours, borrowing a day (and a
/// month, and a year) where it wraps.
pub open spec fn spec_central(c: Civil) -> Civil {
    if c.hour >= 5 {
        Civil { hour: (c.hour - 5) as u64, ..c }
    } else {
        let h = (c.hour + 19) as u64;
        if c.day > 1 {
            Civil { day: (c.day - 1) as u64, hour: h, ..c }
        } else if c.month > 1 {
            Civil {
                month: (c.month - 1) as u64,
                day: spec_days_in_month(c.year as int, c.month - 1) as u64,
                hour: h,
                ..c
            }
        } else {
            Civil { year: (c.year - 1) as u64, month: 12, day: 31, hour: h, ..c }
        }
    }
}

/// Shifts a UTC civil time into the display zone.
pub fn to_central(c: &Civil) -> (r: Civil)
    requires
        spec_valid_civil(*c),
        c.year >= 1971,
    ensures
        r == spec_central(*c),
        spec_valid_civil(r),
{
    if c.hour >= 5 {
        Civil { hour: c.hour - 5, ..*c }
    } else {
        let h = c.hour + 19;
        if c.day > 1 {
            Civil { day: c.day - 1, hour: h, ..*c }
        } else if c.month > 1 {
            Civil { month: c.month - 1, day: days_in_month(c.year, c.month - 1), hour: h, ..*c }
        } else {
            Civil { year: c.year - 1, month: 12, day: 31, hour: h, ..*c }
        }
    }
}

/// The display form of a civil time: weekday, day without padding,
/// month, year, and a colon-separated clock.
pub open spec fn spec_display_bytes(c: Civil) -> Seq<u8> {
    spec_weekday_name(
        spec_weekday_of_days(
            spec_days_from_civil(c.year as int, c.month as int, c.day as int),
        ),
    ) + seq![(',' as u8), (' ' as u8)] + spec_digits(c.day as int) + seq![(' ' as u8)]
        + spec_month_name(c.month as int) + seq![(' ' as u8)] + spec_digits(c.year as int)
        + seq![(' ' as u8)] + spec_2digits(c.hour as int) + seq![(':' as u8)] + spec_2digits(
        c.minute as int,
    ) + seq![(':' as u8)] + spec_2digits(c.second as int)
}

/// Renders a civil time for display: `Fri, 6 Sep 2024 06:00:00`.
#[verifier::rlimit(30)]
pub fn format_display_time(c: &Civil) -> (r: String)
    requires
        spec_valid_civil(*c),
    ensures
        r@ == ascii_chars(spec_display_bytes(*c)),
{
    let days = days_from_civil(c.year, c.month, c.day);
    let w = (days + 4) % 7;
    let mut out: Vec<u8> = Vec::new();
    push_weekday_name(w, &mut out);
    out.push(',' as u8);
    out.push(' ' as u8);
    push_digits(c.day, &mut out);
    out.push(' ' as u8);
    push_month_name(c.month, &mut out);
    out.push(' ' as u8);
    push_digits(c.year, &mut out);
    out.push(' ' as u8);
    push_2digits(c.hour, &mut out);
    out.push(':' as u8);
    push_2digits(c.minute, &mut out);
    out.push(':' as u8);
    push_2digits(c.second, &mut out);
    proof {
        assert(out@ =~= spec_display_bytes(*c));
        lemma_spec_digits_are_digits(c.day as int);
        lemma_spec_digits_are_digits(c.year as int);
        assert(all_ascii(out@)) by {
            assert forall|i: int| 0 <= i < out@.len() implies #[trigger] out@[i] < 128 by {
                let wn = spec_weekday_name(w as int);
                let dd = spec_digits(c.day as int);
                let mn = spec_month_name(c.month as int);
                let yd = spec_digits(c.year as int);
                if 5 <= i < 5 + dd.len() {
                    assert(is_digit(dd[i - 5]));
                }
                let yoff = 5 + dd.len() + 4;
                if yoff <= i < yoff + yd.len() {
                    assert(is_digit(yd[i - yoff]));
                }
            }
        }
    }
    ascii_to_string(&out)
}

/// Stepping a date back one day steps its day count back by one, across
/// month and year boundaries alike.
proof fn lemma_days_prev(y: int, m: int, d: int)
    requires
        spec_valid_date(y, m, d),
        y >= 1971,
    ensures
        spec_days_from_civil(y, m, d) == 1 + (
        if d > 1 {
            spec_days_from_civil(y, m, d - 1)
        } else if m > 1 {
            spec_days_from_civil(y, m - 1, spec_days_in_month(y, m - 1))
        } else {
            spec_days_from_civil(y - 1, 12, 31)
        }),
{
    if d > 1 {
    } else if m > 1 {
        if m == 3 {
            // the borrow crosses the February boundary, where the
            // shifted year changes
            let e = (y - 1) / 400;
            let o = (y - 1) - e * 400;
            assert(0 <= o < 400);
            if o < 399 {
                assert(y / 400 == e) by (nonlinear_arith)
                    requires
                        y == e * 400 + o + 1,
                        0 <= o < 399,
                ;
                assert(y - (y / 400) * 400 == o + 1);
                assert(y % 4 == (o + 1) % 4) by (nonlinear_arith)
                    requires
                        y == e * 400 + o + 1,
                        0 <= o + 1 < 400,
                ;
                assert(y % 100 == (o + 1) % 100) by (nonlinear_arith)
                    requires
                        y == e * 400 + o + 1,
                        0 <= o + 1 < 400,
                ;
                assert(y % 400 == o + 1) by (nonlinear_arith)
                    requires
                        y == e * 400 + o + 1,
                        0 <= o + 1 < 400,
                ;
                assert((o + 1) / 4 - o / 4 == (if (o + 1) % 4 == 0 { 1int } else { 0int }));
                assert((o + 1) / 100 - o / 100 == (if (o + 1) % 100 == 0 { 1int } else { 0int }));
                assert((o + 1) % 100 == 0 ==> (o + 1) % 4 == 0) by (nonlinear_arith)
                    requires
                        0 <= o + 1 < 400,
                ;
            } else {
                assert(y == e * 400 + 400);
                assert(y / 400 == e + 1) by (nonlinear_arith)
                    requires
                        y == (e + 1) * 400,
                ;
                assert(y - (y / 400) * 400 == 0);
                assert(y % 400 == 0) by (nonlinear_arith)
                    requires
                        y == (e + 1) * 400,
                ;
            }
        }
    } else {
    }
}

/// The display-zone shift moves the moment exactly five hours back on
/// the absolute timeline: borrowing a day, a month or a year in the
/// civil fields agrees with the day count.
pub proof fn lemma_central_shift_exact(c: Civil)
    requires
        spec_valid_civil(c),
        c.year >= 1971,
    ensures
        spec_epoch_minutes(spec_central(c)) == spec_epoch_minutes(c) - 300,
{
    if c.hour < 5 {
        lemma_days_prev(c.year as int, c.month as int, c.day as int);
    }
}

/// The two routes into the display zone agree: shifting the civil
/// fields five hours back lands on the same day count and hour of day
/// as subtracting five from the moment's absolute hour count.
pub proof fn lemma_display_routes_agree(c: Civil)
    requires
        spec_valid_civil(c),
        c.year >= 1971,
    ensures
        ({
            let th = spec_days_from_civil(c.year as int, c.month as int, c.day as int) * 24
                + c.hour - 5;
            let cen = spec_central(c);
            th / 24 == spec_days_from_civil(cen.year as int, cen.month as int, cen.day as int)
                && th % 24 == cen.hour
        }),
{
    let days = spec_days_from_civil(c.year as int, c.month as int, c.day as int);
    lemma_days_from_civil_nonneg(c.year as int, c.month as int, c.day as int);
    if c.hour >= 5 {
        assert((days * 24 + c.hour - 5) / 24 == days) by (nonlinear_arith)
            requires
                days >= 0,
                0 <= c.hour - 5 < 24,
        ;
        assert((days * 24 + c.hour - 5) % 24 == c.hour - 5) by (nonlinear_arith)
            requires
                days >= 0,
                0 <= c.hour - 5 < 24,
        ;
    } else {
        lemma_days_prev(c.year as int, c.month as int, c.day as int);
        assert(days * 24 + c.hour - 5 == (days - 1) * 24 + (c.hour + 19)) by (nonlinear_arith);
        assert(((days - 1) * 24 + (c.hour + 19)) / 24 == days - 1) by (nonlinear_arith)
            requires
                days >= 1,
                0 <= c.hour + 19 < 24,
        ;
        assert(((days - 1) * 24 + (c.hour + 19)) % 24 == c.hour + 19) by (nonlinear_arith)
            requires
                days >= 1,
                0 <= c.hour + 19 < 24,
        ;
    }
}

/// Any supported date from 1971 on lies at least a year past the epoch.
proof fn lemma_days_from_civil_nonneg(y: int, m: int, d: int)
    requires
        spec_valid_date(y, m, d),
        y >= 1971,
    ensures
        spec_days_from_civil(y, m, d) >= 365,
{
}

/// Minutes elapsed since 1970-01-01T00:00 UTC.
pub open spec fn spec_epoch_minutes(c: Civil) -> int {
    spec_days_from_civil(c.year as int, c.month as int, c.day as int) * 1440 + c.hour * 60
        + c.minute
}

pub fn epoch_minutes(c: &Civil) -> (r: u64)
    requires
        spec_valid_civil(*c),
    ensures
        r == spec_epoch_minutes(*c),
{
    let days = days_from_civil(c.year, c.month, c.day);
    days * 1440 + c.hour * 60 + c.minute
}

/// The value of a fixed-width digit field of the timestamp.
pub open spec fn ts_field(s: Seq<u8>, a: int, b: int) -> int {
    digits_val(s.subrange(a, b))
}

/// A strict UTC timestamp `YYYY-MM-DDTHH:MM:SS+00:00`, its fields in
/// range and its date one the calendar holds, no earlier than 1971.
pub open spec fn spec_is_timestamp(s: Seq<u8>) -> bool {
    &&& s.len() == 25
    &&& all_digits(s.subrange(0, 4))
    &&& s[4] == ('-' as u8)
    &&& all_digits(s.subrange(5, 7))
    &&& s[7] == ('-' as u8)
    &&& all_digits(s.subrange(8, 10))
    &&& s[10] == ('T' as u8)
    &&& all_digits(s.subrange(11, 13))
    &&& s[13] == (':' as u8)
    &&& all_digits(s.subrange(14, 16))
    &&& s[16] == (':' as u8)
    &&& all_digits(s.subrange(17, 19))
    &&& s[19] == ('+' as u8)
    &&& s[20] == ('0' as u8)
    &&& s[21] == ('0' as u8)
    &&& s[22] == (':' as u8)
    &&& s[23] == ('0' as u8)
    &&& s[24] == ('0' as u8)
    &&& 1971 <= ts_field(s, 0, 4) <= 9999
    &&& spec_valid_date(ts_field(s, 0, 4), ts_field(s, 5, 7), ts_field(s, 8, 10))
    &&& ts_field(s, 11, 13) < 24
    &&& ts_field(s, 14, 16) < 60
    &&& ts_field(s, 17, 19) < 60
}

/// The civil time a well-formed timestamp denotes.
pub open spec fn spec_timestamp_civil(s: Seq<u8>) -> Civil {
    Civil {
        year: ts_field(s, 0, 4) as u64,
        month: ts_field(s, 5, 7) as u64,
        day: ts_field(s, 8, 10) as u64,
        hour: ts_field(s, 11, 13) as u64,
        minute: ts_field(s, 14, 16) as u64,
        second: ts_field(s, 17, 19) as u64,
    }
}

fn parse_ts_field(s: &[u8], a: usize, b: usize) -> (r: Option<u64>)
    requires
        a < b <= s@.len(),
        b - a <= 4,
    ensures
        match r {
            Some(v) => all_digits(s@.subrange(a as int, b as int)) && v == ts_field(
                s@,
                a as int,
                b as int,
            ),
            None => !all_digits(s@.subrange(a as int, b as int)),
        },
{
    let part = slice_subrange(s, a, b);
    proof {
        assert(part@ =~= s@.subrange(a as int, b as int));
        if all_digits(part@) {
            crate::digits::lemma_digits_val_bound(part@);
            crate::digits::lemma_digits_val_nonneg(part@);
            assert(crate::digits::pow10(4) == 10000) by {
                assert(crate::digits::pow10(0) == 1);
                assert(crate::digits::pow10(1) == 10);
                assert(crate::digits::pow10(2) == 100);
                assert(crate::digits::pow10(3) == 1000);
            }
            assert(crate::digits::pow10(part@.len()) <= 10000) by {
                assert(crate::digits::pow10(0) == 1);
                assert(crate::digits::pow10(1) == 10);
                assert(crate::digits::pow10(2) == 100);
                assert(crate::digits::pow10(3) == 1000);
                assert(crate::digits::pow10(4) == 10000);
            }
        }
    }
    parse_u64(part)
}

/// Reads a strict UTC timestamp; `None` when the text is not one.
pub fn parse_timestamp(s: &[u8]) -> (r: Option<Civil>)
    ensures
        match r {
            Some(c) => spec_is_timestamp(s@) && c == spec_timestamp_civil(s@) && spec_valid_civil(
                c,
            ) && c.year >= 1971,
            None => !spec_is_timestamp(s@),
        },
{
    if s.len() != 25 {
        return None;
    }
    if !(s[4] == ('-' as u8) && s[7] == ('-' as u8) && s[10] == ('T' as u8) && s[13] == (
    ':' as u8) && s[16] == (':' as u8) && s[19] == ('+' as u8) && s[20] == ('0' as u8) && s[21]
        == ('0' as u8) && s[22] == (':' as u8) && s[23] == ('0' as u8) && s[24] == ('0' as u8)) {
        return None;
    }
    let year = match parse_ts_field(s, 0, 4) {
        Some(v) => v,
        None => {
            return None;
        },
    };
    let month = match parse_ts_field(s, 5, 7) {
        Some(v) => v,
        None => {
            return None;
        },
    };
    let day = match parse_ts_field(s, 8, 10) {
        Some(v) => v,
        None => {
            return None;
        },
    };
    let hour = match parse_ts_field(s, 11, 13) {
        Some(v) => v,
        None => {
            return None;
        },
    };
    let minute = match parse_ts_field(s, 14, 16) {
        Some(v) => v,
        None => {
            return None;
        },
    };
    let second = match parse_ts_field(s, 17, 19) {
        Some(v) => v,
        None => {
            return None;
        },
    };
    if !(1971 <= year && year <= 9999) {
        return None;
    }
    if !(1 <= month && month <= 12) {
        return None;
    }
    if !(1 <= day && day <= days_in_month(year, month)) {
        return None;
    }
    if !(hour < 24 && minute < 60 && second < 60) {
        return None;
    }
    Some(Civil { year, month, day, hour, minute, second })
}

/// A strict timestamp holds only digits and ASCII separators.
pub proof fn lemma_timestamp_ascii(s: Seq<u8>)
    requires
        spec_is_timestamp(s),
    ensures
        crate::text::all_ascii(s),
{
    assert forall|i: int| 0 <= i < s.len() implies #[trigger] s[i] < 128 by {
        if 0 <= i < 4 {
            assert(is_digit(s.subrange(0, 4)[i]));
        } else if 5 <= i < 7 {
            assert(is_digit(s.subrange(5, 7)[i - 5]));
        } else if 8 <= i < 10 {
            assert(is_digit(s.subrange(8, 10)[i - 8]));
        } else if 11 <= i < 13 {
            assert(is_digit(s.subrange(11, 13)[i - 11]));
        } else if 14 <= i < 16 {
            assert(is_digit(s.subrange(14, 16)[i - 14]));
        } else if 17 <= i < 19 {
            assert(is_digit(s.subrange(17, 19)[i - 17]));
        }
    }
}

/// A 24-hour clock reading shown on the 12-hour clock: noon is
/// `12 PM`, midnight `12 AM`, morning hours below ten take a leading
/// zero, and afternoon hours shift down by twelve.
pub open spec fn spec_12_hour(h: int) -> Seq<u8> {
    let am = seq![(' ' as u8), ('A' as u8), ('M' as u8)];
    let pm = seq![(' ' as u8), ('P' as u8), ('M' as u8)];
    if h == 12 {
        spec_2digits(12) + pm
    } else if h == 0 {
        spec_2digits(12) + am
    } else if h < 10 {
        spec_2digits(h) + am
    } else if h < 12 {
        spec_digits(h) + am
    } else {
        let k = h - 12;
        if k < 10 {
            spec_2digits(k) + pm
        } else {
            spec_digits(k) + pm
        }
    }
}

fn push_12_hour(h: u32, out: &mut Vec<u8>)
    ensures
        final(out)@ == old(out)@ + spec_12_hour(h as int),
{
    if h == 12 {
        push_2digits(12, out);
    } else if h == 0 {
        push_2digits(12, out);
    } else if h < 10 {
        push_2digits(h as u64, out);
    } else if h < 12 {
        push_digits(h as u64, out);
    } else {
        let k = h - 12;
        if k < 10 {
            push_2digits(k as u64, out);
        } else {
            push_digits(k as u64, out);
        }
    }
    out.push(' ' as u8);
    if h == 0 || (h < 12 && h != 12) {
        out.push('A' as u8);
    } else {
        out.push('P' as u8);
    }
    out.push('M' as u8);
    assert(out@ =~= old(out)@ + spec_12_hour(h as int));
}

/// Shows a 24-hour clock reading on the 12-hour clock.
pub fn convert_24_to_12_hour(hour: u32) -> (r: String)
    ensures
        r@ == ascii_chars(spec_12_hour(hour as int)),
{
    let mut out: Vec<u8> = Vec::new();
    push_12_hour(hour, &mut out);
    proof {
        lemma_12_hour_ascii(hour as int);
    }
    ascii_to_string(&out)
}

proof fn lemma_12_hour_ascii(h: int)
    requires
        h >= 0,
    ensures
        all_ascii(spec_12_hour(h)),
{
    let b = spec_12_hour(h);
    if h == 12 || h == 0 || h < 10 || h < 12 {
    } else {
        let k = h - 12;
        if k >= 10 {
            lemma_spec_digits_are_digits(k);
        }
    }
    if 10 <= h < 12 {
        lemma_spec_digits_are_digits(h);
    }
    assert forall|i: int| 0 <= i < b.len() implies #[trigger] b[i] < 128 by {
        if h >= 12 && h != 12 && h - 12 >= 10 {
            let d = spec_digits(h - 12);
            if i < d.len() {
                assert(is_digit(d[i]));
            }
        }
        if 10 <= h < 12 {
            let d = spec_digits(h);
            if i < d.len() {
                assert(is_digit(d[i]));
            }
        }
    }
}

/// The display label of a timestamp moved forward by whole hours and
/// shown in the display zone: the weekday's short name and the 12-hour
/// clock reading.
pub open spec fn spec_time_label(s: Seq<u8>, hours: int) -> Seq<u8> {
    let c = spec_timestamp_civil(s);
    let th = spec_days_from_civil(c.year as int, c.month as int, c.day as int) * 24 + c.hour
        + hours - 5;
    spec_weekday_name(spec_weekday_of_days(th / 24)) + seq![(' ' as u8)] + spec_12_hour(th % 24)
}

/// Turns a UTC timestamp plus a non-negative whole-hour offset into a
/// display label such as `Fri 08 AM`, in the display zone. Text that is
/// not a strict timestamp is malformed payload.
pub fn increment_time(t: &[u8], hours: u64) -> (r: Result<String, crate::error::AppError>)
    requires
        hours <= 1_000_000_000,
    ensures
        match r {
            Ok(l) => spec_is_timestamp(t@) && l@ == ascii_chars(spec_time_label(t@, hours as int)),
            Err(e) => !spec_is_timestamp(t@) && e.kind == crate::error::ErrorKind::MalformedPayload,
        },
{
    let c = match parse_timestamp(t) {
        Some(c) => c,
        None => {
            return Err(crate::error::AppError::malformed("could not parse time"));
        },
    };
    let days = days_from_civil(c.year, c.month, c.day);
    proof {
        assert(days >= 365);
    }
    let th = days * 24 + c.hour + hours - 5;
    let w = ((th / 24) + 4) % 7;
    let mut out: Vec<u8> = Vec::new();
    push_weekday_name(w, &mut out);
    out.push(' ' as u8);
    push_12_hour((th % 24) as u32, &mut out);
    proof {
        lemma_12_hour_ascii((th % 24) as int);
        assert(out@ =~= spec_time_label(t@, hours as int));
    }
    Ok(ascii_to_string(&out))
}

} // verus!
