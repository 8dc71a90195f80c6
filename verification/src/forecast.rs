//! The forecast engine: expands sparse, interval-tagged samples into
//! uniform hourly series, aligns the channels to a common length,
//! smooths the wave-height series, derives the current-conditions
//! strings, and rates each hour's surf quality.

use vstd::prelude::*;

use crate::digits::{all_digits, digits_val, parse_u64, spec_digits};
use crate::error::{AppError, ErrorKind};
use crate::text::{
    find_byte, find_pair, lemma_spec_find, lemma_spec_find_pair, spec_find, spec_find_pair,
};
use vstd::slice::{slice_subrange, slice_to_vec};

verus! {

/// One parsed raw forecast entry: a value and the interval-tagged time
/// it holds for, as the feed carries it
/// (`2024-09-06T11:00:00+00:00/PT1H`).
pub struct TimedSample {
    /// The sampled value, in ticks (one unit = 10^6 ticks).
    pub value: i64,
    /// The raw `<timestamp>/P<period>` tag.
    pub valid_time: Vec<u8>,
}

/// The hour count of the `T<hours>H` part of a period tag, when the tag
/// carries one that parses.
pub open spec fn spec_parse_hour(s: Seq<u8>) -> Option<int> {
    let t = spec_find(s, 'T' as u8);
    if t == -1 {
        None
    } else {
        let rest = s.skip(t + 1);
        if rest.len() > 0 && rest.last() == ('H' as u8) {
            let ds = rest.drop_last();
            if ds.len() > 0 && all_digits(ds) && digits_val(ds) <= usize::MAX {
                Some(digits_val(ds))
            } else {
                None
            }
        } else {
            None
        }
    }
}

pub proof fn lemma_parse_hour_nonneg(s: Seq<u8>)
    ensures
        match spec_parse_hour(s) {
            Some(h) => 0 <= h <= usize::MAX,
            None => true,
        },
{
    let t = spec_find(s, 'T' as u8);
    if t != -1 {
        let rest = s.skip(t + 1);
        if rest.len() > 0 && rest.last() == ('H' as u8) {
            let ds = rest.drop_last();
            if ds.len() > 0 && all_digits(ds) {
                crate::digits::lemma_digits_val_nonneg(ds);
            }
        }
    }
}

/// Reads the hour count out of a period tag such as `T12H`: the digits
/// between the first `T` and a final `H`.
pub fn parse_hour(s: &[u8]) -> (r: Result<usize, AppError>)
    ensures
        match r {
            Ok(h) => spec_parse_hour(s@) == Some(h as int),
            Err(e) => spec_parse_hour(s@) is None && e.kind == ErrorKind::MalformedPayload,
        },
{
    proof {
        lemma_spec_find(s@, 'T' as u8);
    }
    let t = match find_byte(s, 'T' as u8) {
        Some(t) => t,
        None => {
            return Err(AppError::malformed("no hour found!"));
        },
    };
    let n = s.len();
    let rest = slice_subrange(s, t + 1, n);
    proof {
        assert(rest@ =~= s@.skip(t + 1));
    }
    if rest.len() == 0 || rest[rest.len() - 1] != ('H' as u8) {
        return Err(AppError::malformed("no hour found!"));
    }
    let ds = slice_subrange(rest, 0, rest.len() - 1);
    proof {
        assert(ds@ =~= rest@.drop_last());
    }
    match parse_u64(ds) {
        Some(v) => {
            if v <= usize::MAX as u64 {
                Ok(v as usize)
            } else {
                Err(AppError::malformed("could not parse hour"))
            }
        },
        None => Err(AppError::malformed("could not parse hour")),
    }
}

/// Total hours denoted by a period tag: the day count times twenty-four
/// plus the hour part, an unparsable hour part counting as zero.
pub open spec fn spec_period_hours(p: Seq<u8>) -> int {
    let d = spec_find(p, 'D' as u8);
    if d == -1 {
        match spec_parse_hour(p) {
            Some(h) => h,
            None => 0,
        }
    } else {
        let hr = match spec_parse_hour(p.skip(d + 1)) {
            Some(h) => h,
            None => 0,
        };
        digits_val(p.take(d)) * 24 + hr
    }
}

/// A period tag the expander accepts: when a day part is there it must
/// be plain digits, and the total hour count must fit the machine.
pub open spec fn spec_period_ok(p: Seq<u8>) -> bool {
    let d = spec_find(p, 'D' as u8);
    if d == -1 {
        true
    } else {
        let day = p.take(d);
        day.len() > 0 && all_digits(day) && spec_period_hours(p) <= usize::MAX
    }
}

/// Whether the expander accepts this period tag.
pub fn period_ok(p: &[u8]) -> (r: bool)
    ensures
        r == spec_period_ok(p@),
{
    proof {
        lemma_spec_find(p@, 'D' as u8);
    }
    match find_byte(p, 'D' as u8) {
        None => true,
        Some(d) => {
            let day = slice_subrange(p, 0, d);
            proof {
                assert(day@ =~= p@.take(d as int));
                lemma_parse_hour_nonneg(p@.skip(d + 1));
                if all_digits(day@) {
                    crate::digits::lemma_digits_val_nonneg(day@);
                }
            }
            let dv = match parse_u64(day) {
                Some(v) => v,
                None => {
                    return false;
                },
            };
            let n = p.len();
            let rest = slice_subrange(p, d + 1, n);
            proof {
                assert(rest@ =~= p@.skip(d + 1));
            }
            let hr: u64 = match parse_hour(rest) {
                Ok(h) => h as u64,
                Err(_) => 0,
            };
            if dv > (usize::MAX as u64) / 24 {
                return false;
            }
            dv * 24 <= usize::MAX as u64 - hr
        },
    }
}

/// Parses a period tag into its length in hours: `1DT5H` is 29.
pub fn parse_period(period: &[u8]) -> (r: usize)
    requires
        spec_period_ok(period@),
    ensures
        r == spec_period_hours(period@),
{
    proof {
        lemma_spec_find(period@, 'D' as u8);
    }
    match find_byte(period, 'D' as u8) {
        None => {
            match parse_hour(period) {
                Ok(h) => h,
                Err(_) => 0,
            }
        },
        Some(d) => {
            let day = slice_subrange(period, 0, d);
            proof {
                assert(day@ =~= period@.take(d as int));
            }
            proof {
                crate::digits::lemma_digits_val_nonneg(day@);
                lemma_parse_hour_nonneg(period@.skip(d + 1));
            }
            let dv = match parse_u64(day) {
                Some(v) => v,
                None => {
                    proof {
                        assert(false);
                    }
                    0
                },
            };
            let n = period.len();
            let rest = slice_subrange(period, d + 1, n);
            proof {
                assert(rest@ =~= period@.skip(d + 1));
            }
            let hr: usize = match parse_hour(rest) {
                Ok(h) => h,
                Err(_) => 0,
            };
            (dv as usize) * 24 + hr
        },
    }
}

/// Where an interval tag splits: the first `/P`.
pub open spec fn spec_split_point(vt: Seq<u8>) -> int {
    spec_find_pair(vt, '/' as u8, 'P' as u8)
}

/// The period part of an interval tag, after the `/P`.
pub open spec fn spec_sample_period(vt: Seq<u8>) -> Seq<u8> {
    vt.skip(spec_split_point(vt) + 2)
}

/// The timestamp part of an interval tag, before the `/P`.
pub open spec fn spec_sample_time(vt: Seq<u8>) -> Seq<u8> {
    vt.take(spec_split_point(vt))
}

/// A sample the expander accepts: its tag splits at `/P`, the period is
/// one the expander takes, and the value is within physical bounds.
pub open spec fn spec_sample_ok(s: TimedSample) -> bool {
    &&& spec_split_point(s.valid_time@) != -1
    &&& spec_period_ok(spec_sample_period(s.valid_time@))
    &&& -2_000_000_000_000_000 <= s.value <= 2_000_000_000_000_000
}

pub open spec fn spec_all_samples_ok(ss: Seq<TimedSample>) -> bool {
    forall|i: int| 0 <= i < ss.len() ==> spec_sample_ok(#[trigger] ss[i])
}

/// The uniform hourly series of a channel: each sample contributes its
/// value once per hour of its period, in order; a zero-length interval
/// contributes nothing.
pub open spec fn spec_expand(ss: Seq<TimedSample>) -> Seq<i64>
    decreases ss.len(),
{
    if ss.len() == 0 {
        Seq::empty()
    } else {
        spec_expand(ss.drop_last()) + Seq::new(
            spec_period_hours(spec_sample_period(ss.last().valid_time@)) as nat,
            |i: int| ss.last().value,
        )
    }
}

/// Every expanded value is a sample value, so the physical bounds carry
/// over.
pub proof fn lemma_expand_bounds(ss: Seq<TimedSample>)
    requires
        spec_all_samples_ok(ss),
    ensures
        forall|i: int|
            0 <= i < spec_expand(ss).len() ==> -2_000_000_000_000_000 <= #[trigger] spec_expand(
                ss,
            )[i] <= 2_000_000_000_000_000,
    decreases ss.len(),
{
    if ss.len() > 0 {
        assert(spec_all_samples_ok(ss.drop_last()));
        lemma_expand_bounds(ss.drop_last());
        assert(spec_sample_ok(ss.last()));
        assert(ss[ss.len() - 1] == ss.last());
        let e = spec_expand(ss);
        let pfx = spec_expand(ss.drop_last());
        assert forall|i: int|
            0 <= i < e.len() implies -2_000_000_000_000_000 <= #[trigger] e[i]
            <= 2_000_000_000_000_000 by {
            if i < pfx.len() {
                assert(e[i] == pfx[i]);
            } else {
                assert(e[i] == ss.last().value);
            }
        }
    }
}

/// Expands a channel of interval-tagged samples into its uniform hourly
/// series. A tag without a `/P` marker, an unreadable period, or a value
/// out of physical bounds fails the whole channel: no partial series is
/// trusted.
#[verifier::loop_isolation(false)]
pub fn expand_values(samples: &Vec<TimedSample>) -> (r: Result<Vec<i64>, AppError>)
    ensures
        match r {
            Ok(v) => spec_all_samples_ok(samples@) && v@ == spec_expand(samples@),
            Err(e) => !spec_all_samples_ok(samples@) && e.kind == ErrorKind::MalformedPayload,
        },
{
    let mut out: Vec<i64> = Vec::new();
    let mut i: usize = 0;
    proof {
        assert(out@ =~= spec_expand(samples@.take(0)));
    }
    while i < samples.len()
        invariant
            0 <= i <= samples@.len(),
            forall|j: int| 0 <= j < i ==> spec_sample_ok(#[trigger] samples@[j]),
            out@ == spec_expand(samples@.take(i as int)),
        decreases samples@.len() - i,
    {
        let sample = &samples[i];
        let vt = sample.valid_time.as_slice();
        proof {
            lemma_spec_find_pair(vt@, '/' as u8, 'P' as u8);
        }
        let k = match find_pair(vt, '/' as u8, 'P' as u8) {
            Some(k) => k,
            None => {
                return Err(AppError::malformed("Unknown period found!"));
            },
        };
        let n = vt.len();
        let period = slice_subrange(vt, k + 2, n);
        proof {
            assert(period@ =~= spec_sample_period(sample.valid_time@));
        }
        if !period_ok(period) {
            return Err(AppError::malformed("could not parse period"));
        }
        if sample.value < -2_000_000_000_000_000 || sample.value > 2_000_000_000_000_000 {
            return Err(AppError::malformed("value out of range"));
        }
        let hours = parse_period(period);
        let ghost prev = out@;
        let mut j: usize = 0;
        while j < hours
            invariant
                0 <= j <= hours,
                out@ == prev + Seq::new(j as nat, |x: int| sample.value),
            decreases hours - j,
        {
            out.push(sample.value);
            proof {
                assert(out@ =~= prev + Seq::new((j + 1) as nat, |x: int| sample.value));
            }
            j = j + 1;
        }
        proof {
            assert(samples@.take(i + 1).drop_last() =~= samples@.take(i as int));
            assert(samples@.take(i + 1).last() == samples@[i as int]);
            assert(out@ =~= spec_expand(samples@.take(i + 1)));
        }
        i = i + 1;
    }
    proof {
        assert(samples@.take(samples@.len() as int) =~= samples@);
    }
    Ok(out)
}

/// The truncated average of a sum of `k` neighbouring samples, in
/// ticks: the exact rational mean, cut to two decimal places toward
/// zero.
pub open spec fn spec_mean_trunc2(sum: int, k: int) -> int
    recommends
        k > 0,
{
    if sum >= 0 {
        (sum / (k * 10_000)) * 10_000
    } else {
        -(((-sum) / (k * 10_000)) * 10_000)
    }
}

/// One smoothed wave-height sample: the mean of the sample and its
/// neighbours inside the valid range, truncated to two decimals; a
/// length-one series passes through unchanged.
pub open spec fn spec_smoothed_at(a: Seq<i64>, i: int) -> int
    recommends
        0 <= i < a.len(),
{
    if a.len() == 1 {
        a[0] as int
    } else if i == 0 {
        spec_mean_trunc2(a[0] + a[1], 2)
    } else if i == a.len() - 1 {
        spec_mean_trunc2(a[i - 1] + a[i], 2)
    } else {
        spec_mean_trunc2(a[i - 1] + a[i] + a[i + 1], 3)
    }
}

/// Smooths a wave-height series with a three-point centred moving
/// average, edge-truncated: the output has the input's length, interior
/// sample `i` is the truncated mean of samples `i-1`, `i` and `i+1`,
/// each boundary sample averages only its two in-range neighbours, and
/// a length-one series is unchanged.
pub fn smooth_wave_data(a: &Vec<i64>) -> (r: Vec<i64>)
    requires
        forall|i: int|
            0 <= i < a@.len() ==> -10_000_000_000_000_000 <= #[trigger] a@[i]
                <= 10_000_000_000_000_000,
    ensures
        r@.len() == a@.len(),
        forall|i: int| 0 <= i < a@.len() ==> #[trigger] r@[i] == spec_smoothed_at(a@, i),
{
    let n = a.len();
    let mut out: Vec<i64> = Vec::new();
    if n == 1 {
        out.push(a[0]);
        return out;
    }
    let mut i: usize = 0;
    while i < n
        invariant
            n == a@.len(),
            n != 1,
            forall|j: int|
                0 <= j < n ==> -10_000_000_000_000_000 <= #[trigger] a@[j]
                    <= 10_000_000_000_000_000,
            0 <= i <= n,
            out@.len() == i,
            forall|j: int| 0 <= j < i ==> #[trigger] out@[j] == spec_smoothed_at(a@, j),
        decreases n - i,
    {
        let v: i64 = if i == 0 {
            mean2(a[0] + a[1])
        } else if i == n - 1 {
            mean2(a[i - 1] + a[i])
        } else {
            mean3(a[i - 1] + a[i] + a[i + 1])
        };
        proof {
            assert(v == spec_smoothed_at(a@, i as int));
        }
        out.push(v);
        i = i + 1;
    }
    out
}

fn mean2(sum: i64) -> (r: i64)
    requires
        -30_000_000_000_000_000 <= sum <= 30_000_000_000_000_000,
    ensures
        r == spec_mean_trunc2(sum as int, 2),
{
    if sum >= 0 {
        (sum / 20_000) * 10_000
    } else {
        -(((-sum) / 20_000) * 10_000)
    }
}

fn mean3(sum: i64) -> (r: i64)
    requires
        -30_000_000_000_000_000 <= sum <= 30_000_000_000_000_000,
    ensures
        r == spec_mean_trunc2(sum as int, 3),
{
    if sum >= 0 {
        (sum / 30_000) * 10_000
    } else {
        -(((-sum) / 30_000) * 10_000)
    }
}

/// The saturating whole-number reading of a tick value, clamped to a
/// byte, as a float-to-byte cast reads it.
pub open spec fn spec_sat_u8(v: int) -> int {
    if v < 0 {
        0
    } else if v / 1_000_000 > 255 {
        255
    } else {
        v / 1_000_000
    }
}

/// Converts a metre channel to feet, entry by entry.
pub fn map_feet(v: &Vec<i64>) -> (r: Vec<i64>)
    requires
        forall|i: int|
            0 <= i < v@.len() ==> -2_000_000_000_000_000 <= #[trigger] v@[i]
                <= 2_000_000_000_000_000,
    ensures
        r@.len() == v@.len(),
        forall|i: int|
            0 <= i < v@.len() ==> #[trigger] r@[i] == crate::units::spec_meters_to_feet(
                v@[i] as int,
            ),
        forall|i: int|
            0 <= i < v@.len() ==> -6_562_000_000_000_000 <= #[trigger] r@[i]
                <= 6_562_000_000_000_000,
{
    let mut out: Vec<i64> = Vec::new();
    let mut i: usize = 0;
    while i < v.len()
        invariant
            0 <= i <= v@.len(),
            forall|j: int|
                0 <= j < v@.len() ==> -2_000_000_000_000_000 <= #[trigger] v@[j]
                    <= 2_000_000_000_000_000,
            out@.len() == i,
            forall|j: int|
                0 <= j < i ==> #[trigger] out@[j] == crate::units::spec_meters_to_feet(
                    v@[j] as int,
                ),
            forall|j: int|
                0 <= j < i ==> -6_562_000_000_000_000 <= #[trigger] out@[j]
                    <= 6_562_000_000_000_000,
        decreases v@.len() - i,
    {
        out.push(crate::units::convert_meter_to_feet(v[i]));
        i = i + 1;
    }
    out
}

/// Converts a kilometres-per-hour channel to truncated miles per hour,
/// entry by entry.
pub fn map_wind(v: &Vec<i64>) -> (r: Vec<i64>)
    requires
        forall|i: int|
            0 <= i < v@.len() ==> -2_000_000_000_000_000 <= #[trigger] v@[i]
                <= 2_000_000_000_000_000,
    ensures
        r@.len() == v@.len(),
        forall|i: int|
            0 <= i < v@.len() ==> #[trigger] r@[i] == crate::units::spec_trunc2(
                crate::units::spec_km_to_miles(v@[i] as int),
            ),
{
    let mut out: Vec<i64> = Vec::new();
    let mut i: usize = 0;
    while i < v.len()
        invariant
            0 <= i <= v@.len(),
            forall|j: int|
                0 <= j < v@.len() ==> -2_000_000_000_000_000 <= #[trigger] v@[j]
                    <= 2_000_000_000_000_000,
            out@.len() == i,
            forall|j: int|
                0 <= j < i ==> #[trigger] out@[j] == crate::units::spec_trunc2(
                    crate::units::spec_km_to_miles(v@[j] as int),
                ),
        decreases v@.len() - i,
    {
        out.push(crate::units::truncate_to_two_decimals(crate::units::convert_kilo_meter_to_mile(v[i])));
        i = i + 1;
    }
    out
}

/// Truncates a channel to two decimal places, entry by entry.
pub fn map_trunc2(v: &Vec<i64>) -> (r: Vec<i64>)
    requires
        forall|i: int|
            0 <= i < v@.len() ==> -2_000_000_000_000_000 <= #[trigger] v@[i]
                <= 2_000_000_000_000_000,
    ensures
        r@.len() == v@.len(),
        forall|i: int|
            0 <= i < v@.len() ==> #[trigger] r@[i] == crate::units::spec_trunc2(v@[i] as int),
{
    let mut out: Vec<i64> = Vec::new();
    let mut i: usize = 0;
    while i < v.len()
        invariant
            0 <= i <= v@.len(),
            forall|j: int|
                0 <= j < v@.len() ==> -2_000_000_000_000_000 <= #[trigger] v@[j]
                    <= 2_000_000_000_000_000,
            out@.len() == i,
            forall|j: int|
                0 <= j < i ==> #[trigger] out@[j] == crate::units::spec_trunc2(v@[j] as int),
        decreases v@.len() - i,
    {
        out.push(crate::units::truncate_to_two_decimals(v[i]));
        i = i + 1;
    }
    out
}

/// Clamps a channel to whole bytes, entry by entry, as a float-to-byte
/// cast would.
pub fn map_sat_u8(v: &Vec<i64>) -> (r: Vec<u8>)
    ensures
        r@.len() == v@.len(),
        forall|i: int| 0 <= i < v@.len() ==> #[trigger] r@[i] == spec_sat_u8(v@[i] as int),
{
    let mut out: Vec<u8> = Vec::new();
    let mut i: usize = 0;
    while i < v.len()
        invariant
            0 <= i <= v@.len(),
            out@.len() == i,
            forall|j: int| 0 <= j < i ==> #[trigger] out@[j] == spec_sat_u8(v@[j] as int),
        decreases v@.len() - i,
    {
        let x = v[i];
        let b: u8 = if x < 0 {
            0
        } else if x / 1_000_000 > 255 {
            255
        } else {
            (x / 1_000_000) as u8
        };
        out.push(b);
        i = i + 1;
    }
    out
}

/// Whether a whole Fahrenheit reading fits a byte. The temperature
/// channel is stored in bytes, so its values must land in that range.
pub open spec fn spec_temp_in_range(v: int) -> bool {
    0 <= crate::units::spec_c_to_f_val(v) <= 255
}

/// Converts a Celsius channel to whole Fahrenheit bytes, entry by
/// entry.
pub fn map_temp_u8(v: &Vec<i64>) -> (r: Vec<u8>)
    requires
        forall|i: int|
            0 <= i < v@.len() ==> -2_000_000_000_000_000 <= #[trigger] v@[i]
                <= 2_000_000_000_000_000,
        forall|i: int| 0 <= i < v@.len() ==> spec_temp_in_range(#[trigger] v@[i] as int),
    ensures
        r@.len() == v@.len(),
        forall|i: int|
            0 <= i < v@.len() ==> #[trigger] r@[i] == crate::units::spec_c_to_f_val(v@[i] as int),
{
    let mut out: Vec<u8> = Vec::new();
    let mut i: usize = 0;
    while i < v.len()
        invariant
            0 <= i <= v@.len(),
            forall|j: int|
                0 <= j < v@.len() ==> -2_000_000_000_000_000 <= #[trigger] v@[j]
                    <= 2_000_000_000_000_000,
            forall|j: int| 0 <= j < v@.len() ==> spec_temp_in_range(#[trigger] v@[j] as int),
            out@.len() == i,
            forall|j: int|
                0 <= j < i ==> #[trigger] out@[j] == crate::units::spec_c_to_f_val(v@[j] as int),
        decreases v@.len() - i,
    {
        let f = crate::units::round_half_even(18 * v[i] + 320_000_000, 10_000_000);
        out.push(f as u8);
        i = i + 1;
    }
    out
}

/// Converts a Celsius channel to whole Fahrenheit display strings,
/// entry by entry.
pub fn map_dewpoint(v: &Vec<i64>) -> (r: Vec<String>)
    requires
        forall|i: int|
            0 <= i < v@.len() ==> -2_000_000_000_000_000 <= #[trigger] v@[i]
                <= 2_000_000_000_000_000,
    ensures
        r@.len() == v@.len(),
        forall|i: int|
            0 <= i < v@.len() ==> (#[trigger] r@[i])@ == crate::text::ascii_chars(
                crate::units::spec_whole_bytes(crate::units::spec_c_to_f_val(v@[i] as int)),
            ),
{
    let mut out: Vec<String> = Vec::new();
    let mut i: usize = 0;
    while i < v.len()
        invariant
            0 <= i <= v@.len(),
            forall|j: int|
                0 <= j < v@.len() ==> -2_000_000_000_000_000 <= #[trigger] v@[j]
                    <= 2_000_000_000_000_000,
            out@.len() == i,
            forall|j: int|
                0 <= j < i ==> (#[trigger] out@[j])@ == crate::text::ascii_chars(
                    crate::units::spec_whole_bytes(crate::units::spec_c_to_f_val(v@[j] as int)),
                ),
        decreases v@.len() - i,
    {
        out.push(crate::units::convert_celsius_to_fahrenheit(v[i]));
        i = i + 1;
    }
    out
}

/// The raw gridded-forecast payload, one channel of interval-tagged
/// samples per quantity, as handed over by the fetch layer. A channel
/// whose data is absent from the payload is `None`.
pub struct ForecastProperties {
    pub update_time: Option<Vec<u8>>,
    pub valid_times: Option<Vec<u8>>,
    pub wave_height: Option<Vec<TimedSample>>,
    pub wave_period: Option<Vec<TimedSample>>,
    pub wave_direction: Option<Vec<TimedSample>>,
    pub wind_speed: Option<Vec<TimedSample>>,
    pub wind_gust: Option<Vec<TimedSample>>,
    pub wind_direction: Option<Vec<TimedSample>>,
    pub temperature: Option<Vec<TimedSample>>,
    pub probability_of_precipitation: Option<Vec<TimedSample>>,
    pub dewpoint: Option<Vec<TimedSample>>,
    pub sky_cover: Option<Vec<TimedSample>>,
    pub probability_of_thunder: Option<Vec<TimedSample>>,
}

/// A finished forecast: uniform hourly channels, display labels, and
/// the derived current-conditions scalars. Continuous channels hold
/// ticks (one unit = 10^6 ticks); temperatures and probabilities hold
/// whole numbers.
#[derive(Debug)]
pub struct Forecast {
    pub as_of: String,
    pub cloud_cover: Vec<u8>,
    pub current_wave_height: String,
    pub current_wave_period: i64,
    pub current_wave_direction: i64,
    pub dewpoint: Vec<String>,
    pub probability_of_precipitation: Vec<u8>,
    pub probability_of_thunder: Vec<u8>,
    pub quality: Option<Vec<String>>,
    pub starting_at: String,
    pub temperature: Vec<u8>,
    pub wave_direction: Vec<i64>,
    pub wave_height: Vec<i64>,
    pub wave_height_labels: Vec<String>,
    pub wave_period: Vec<i64>,
    pub wind_speed: Vec<i64>,
    pub wind_gust: Vec<i64>,
    pub wind_direction: Vec<i64>,
}

pub open spec fn spec_min(a: int, b: int) -> int {
    if a <= b {
        a
    } else {
        b
    }
}

impl Forecast {
    /// The common prefix length the aligner cuts the required channels
    /// to: the least of their lengths.
    pub open spec fn spec_aligned_len(self) -> int {
        spec_min(
            spec_min(
                spec_min(
                    spec_min(self.wave_period@.len() as int, self.wave_height@.len() as int),
                    self.wind_speed@.len() as int,
                ),
                self.wind_gust@.len() as int,
            ),
            self.wind_direction@.len() as int,
        )
    }

    /// Condenses the forecast to equal-length channels.
    ///
    /// Not every quantity covers the same stretch of hours; every
    /// required channel is cut to their common minimum length, starting
    /// at the first hour, so index `i` means the same forecast hour in
    /// each of them and no channel has dangling data. The labels are cut
    /// to the same length; everything else is untouched.
    pub fn condense(&mut self)
        ensures
            final(self).wave_period@ == old(self).wave_period@.take(old(self).spec_aligned_len()),
            final(self).wave_height@ == old(self).wave_height@.take(old(self).spec_aligned_len()),
            final(self).wind_speed@ == old(self).wind_speed@.take(old(self).spec_aligned_len()),
            final(self).wind_gust@ == old(self).wind_gust@.take(old(self).spec_aligned_len()),
            final(self).wind_direction@ == old(self).wind_direction@.take(
                old(self).spec_aligned_len(),
            ),
            final(self).wave_height_labels@ == old(self).wave_height_labels@.take(
                spec_min(
                    old(self).spec_aligned_len(),
                    old(self).wave_height_labels@.len() as int,
                ),
            ),
            // the aligned channels all end up at the common minimum
            final(self).wave_period@.len() == old(self).spec_aligned_len(),
            final(self).wave_height@.len() == old(self).spec_aligned_len(),
            final(self).wind_speed@.len() == old(self).spec_aligned_len(),
            final(self).wind_gust@.len() == old(self).spec_aligned_len(),
            final(self).wind_direction@.len() == old(self).spec_aligned_len(),
            final(self).as_of == old(self).as_of,
            final(self).cloud_cover == old(self).cloud_cover,
            final(self).current_wave_height == old(self).current_wave_height,
            final(self).current_wave_period == old(self).current_wave_period,
            final(self).current_wave_direction == old(self).current_wave_direction,
            final(self).dewpoint == old(self).dewpoint,
            final(self).probability_of_precipitation == old(self).probability_of_precipitation,
            final(self).probability_of_thunder == old(self).probability_of_thunder,
            final(self).quality == old(self).quality,
            final(self).starting_at == old(self).starting_at,
            final(self).temperature == old(self).temperature,
            final(self).wave_direction == old(self).wave_direction,
    {
        let mut m = self.wave_period.len();
        if self.wave_height.len() < m {
            m = self.wave_height.len();
        }
        if self.wind_speed.len() < m {
            m = self.wind_speed.len();
        }
        if self.wind_gust.len() < m {
            m = self.wind_gust.len();
        }
        if self.wind_direction.len() < m {
            m = self.wind_direction.len();
        }
        self.wave_period.truncate(m);
        self.wave_height.truncate(m);
        self.wind_speed.truncate(m);
        self.wind_gust.truncate(m);
        self.wind_direction.truncate(m);
        self.wave_height_labels.truncate(m);
        proof {
            assert(final(self).wave_period@ =~= old(self).wave_period@.take(
                old(self).spec_aligned_len(),
            ));
        }
    }

    /// Rates each forecast hour from its wind direction, wind speed and
    /// wave height, pairing the channels index by index as far as the
    /// shortest reaches, and stores the ratings' display texts.
    pub fn compute_quality(&mut self, location: &crate::spot::Location)
        ensures
            final(self).quality matches Some(q) && {
                let n = spec_min(
                    spec_min(
                        old(self).wind_direction@.len() as int,
                        old(self).wind_speed@.len() as int,
                    ),
                    old(self).wave_height@.len() as int,
                );
                &&& q@.len() == n
                &&& forall|i: int|
                    0 <= i < n ==> (#[trigger] q@[i])@ == location.spec_get_quality(
                        old(self).wave_height@[i] as int,
                        old(self).wind_speed@[i] as int,
                        old(self).wind_direction@[i] as int,
                    ).spec_text()
            },
            final(self).as_of == old(self).as_of,
            final(self).cloud_cover == old(self).cloud_cover,
            final(self).current_wave_height == old(self).current_wave_height,
            final(self).current_wave_period == old(self).current_wave_period,
            final(self).current_wave_direction == old(self).current_wave_direction,
            final(self).dewpoint == old(self).dewpoint,
            final(self).probability_of_precipitation == old(self).probability_of_precipitation,
            final(self).probability_of_thunder == old(self).probability_of_thunder,
            final(self).starting_at == old(self).starting_at,
            final(self).temperature == old(self).temperature,
            final(self).wave_direction == old(self).wave_direction,
            final(self).wave_height == old(self).wave_height,
            final(self).wave_height_labels == old(self).wave_height_labels,
            final(self).wave_period == old(self).wave_period,
            final(self).wind_speed == old(self).wind_speed,
            final(self).wind_gust == old(self).wind_gust,
            final(self).wind_direction == old(self).wind_direction,
    {
        let mut n = self.wind_direction.len();
        if self.wind_speed.len() < n {
            n = self.wind_speed.len();
        }
        if self.wave_height.len() < n {
            n = self.wave_height.len();
        }
        let mut qualities: Vec<String> = Vec::new();
        let mut i: usize = 0;
        while i < n
            invariant
                n <= self.wind_direction@.len(),
                n <= self.wind_speed@.len(),
                n <= self.wave_height@.len(),
                0 <= i <= n,
                qualities@.len() == i,
                forall|j: int|
                    0 <= j < i ==> (#[trigger] qualities@[j])@ == location.spec_get_quality(
                        self.wave_height@[j] as int,
                        self.wind_speed@[j] as int,
                        self.wind_direction@[j] as int,
                    ).spec_text(),
                *self == *old(self),
            decreases n - i,
        {
            let q = location.get_quality(
                self.wave_height[i],
                self.wind_speed[i],
                self.wind_direction[i],
            );
            qualities.push(q.text().to_owned());
            i = i + 1;
        }
        self.quality = Some(qualities);
    }
}

fn sat_u8(x: i64) -> (r: u8)
    ensures
        r == spec_sat_u8(x as int),
{
    if x < 0 {
        0
    } else if x / 1_000_000 > 255 {
        255
    } else {
        (x / 1_000_000) as u8
    }
}

/// The current-conditions height string: falling heights read
/// `cur-prev`, rising heights `prev-cur+`, and steady heights plainly.
pub open spec fn spec_current_height_bytes(cur: int, prev: int) -> Seq<u8> {
    if cur < prev {
        spec_digits(cur) + seq![('-' as u8)] + spec_digits(prev)
    } else if cur > prev {
        spec_digits(prev) + seq![('-' as u8)] + spec_digits(cur) + seq![('+' as u8)]
    } else {
        spec_digits(cur)
    }
}

fn push_current_height(cur: u8, prev: u8, out: &mut Vec<u8>)
    ensures
        final(out)@ == old(out)@ + spec_current_height_bytes(cur as int, prev as int),
{
    if cur < prev {
        crate::digits::push_digits(cur as u64, out);
        out.push('-' as u8);
        crate::digits::push_digits(prev as u64, out);
    } else if cur > prev {
        crate::digits::push_digits(prev as u64, out);
        out.push('-' as u8);
        crate::digits::push_digits(cur as u64, out);
        out.push('+' as u8);
    } else {
        crate::digits::push_digits(cur as u64, out);
    }
    assert(out@ =~= old(out)@ + spec_current_height_bytes(cur as int, prev as int));
}

proof fn lemma_current_height_ascii(cur: int, prev: int)
    requires
        0 <= cur,
        0 <= prev,
    ensures
        crate::text::all_ascii(spec_current_height_bytes(cur, prev)),
{
    crate::digits::lemma_spec_digits_are_digits(cur);
    crate::digits::lemma_spec_digits_are_digits(prev);
    let b = spec_current_height_bytes(cur, prev);
    let dc = crate::digits::spec_digits(cur);
    let dp = crate::digits::spec_digits(prev);
    assert forall|i: int| 0 <= i < b.len() implies #[trigger] b[i] < 128 by {
        if cur < prev {
            if i < dc.len() {
                assert(crate::digits::is_digit(dc[i]));
            } else if i > dc.len() {
                assert(crate::digits::is_digit(dp[i - dc.len() - 1]));
            }
        } else if cur > prev {
            if i < dp.len() {
                assert(crate::digits::is_digit(dp[i]));
            } else if dp.len() < i < dp.len() + 1 + dc.len() {
                assert(crate::digits::is_digit(dc[i - dp.len() - 1]));
            }
        } else {
            assert(crate::digits::is_digit(dc[i]));
        }
    }
}

/// The current-conditions height string of a series at reference index
/// `k`: flat surf below the classifier's threshold, else the trend over
/// the whole-feet readings at `k` and `k-1` (plain at `k` zero).
pub open spec fn spec_current_summary_bytes(h: Seq<i64>, k: int) -> Seq<u8>
    recommends
        0 <= k < h.len(),
{
    if h[k] < 980_000 {
        seq![('F' as u8), ('l' as u8), ('a' as u8), ('t' as u8)]
    } else if k == 0 {
        spec_digits(spec_sat_u8(h[0] as int))
    } else {
        spec_current_height_bytes(spec_sat_u8(h[k] as int), spec_sat_u8(h[k - 1] as int))
    }
}

/// The current wave conditions read at reference index `k`: the height
/// summary (flat below the classifier's threshold, else the trend over
/// the whole-feet readings at `k` and `k-1`), the period at `k`, and
/// the direction at `k` turned half a circle. An index beyond any
/// channel is fatal.
pub fn get_current_wave_data(
    wave_height: &Vec<i64>,
    wave_period: &Vec<i64>,
    wave_direction: &Vec<i64>,
    k: usize,
) -> (r: Result<(String, i64, i64), AppError>)
    requires
        forall|i: int|
            0 <= i < wave_direction@.len() ==> -2_000_000_000_000_000 <= #[trigger] wave_direction@[i]
                <= 2_000_000_000_000_000,
    ensures
        match r {
            Ok(t) => {
                &&& k < wave_height@.len()
                &&& k < wave_period@.len()
                &&& k < wave_direction@.len()
                &&& t.1 == wave_period@[k as int]
                &&& t.2 == wave_direction@[k as int] + 180_000_000
                &&& t.0@ == crate::text::ascii_chars(
                    spec_current_summary_bytes(wave_height@, k as int),
                )
            },
            Err(e) => {
                &&& !(k < wave_height@.len() && k < wave_period@.len() && k
                    < wave_direction@.len())
                &&& e.kind == ErrorKind::IndexOutOfRange
            },
        },
{
    if k >= wave_height.len() || k >= wave_period.len() || k >= wave_direction.len() {
        return Err(AppError::new(ErrorKind::IndexOutOfRange, "Invalid accessing index found!"));
    }
    let period = wave_period[k];
    let direction = wave_direction[k] + 180_000_000;
    if wave_height[k] < 980_000 {
        // below the classifier's flat threshold: no range to speak of
        let s = "Flat".to_owned();
        proof {
            reveal_strlit("Flat");
            assert(s@ =~= crate::text::ascii_chars(
                spec_current_summary_bytes(wave_height@, k as int),
            ));
        }
        return Ok((s, period, direction));
    }
    let cur = sat_u8(wave_height[k]);
    let mut bytes: Vec<u8> = Vec::new();
    if k == 0 {
        crate::digits::push_digits(cur as u64, &mut bytes);
        proof {
            crate::digits::lemma_spec_digits_are_digits(cur as int);
            assert(crate::text::all_ascii(bytes@)) by {
                assert(forall|i: int|
                    0 <= i < bytes@.len() ==> crate::digits::is_digit(#[trigger] bytes@[i]));
            }
        }
        let s = crate::text::ascii_to_string(&bytes);
        Ok((s, period, direction))
    } else {
        let prev = sat_u8(wave_height[k - 1]);
        push_current_height(cur, prev, &mut bytes);
        proof {
            lemma_current_height_ascii(cur as int, prev as int);
        }
        let s = crate::text::ascii_to_string(&bytes);
        Ok((s, period, direction))
    }
}

/// Whole hours from a series start to now, truncated toward zero; an
/// instant less than one hour before the start still reads as zero.
pub open spec fn spec_hours_since(start_min: int, now_min: int) -> int {
    if now_min >= start_min {
        (now_min - start_min) / 60
    } else {
        0
    }
}

/// The reference index of the current hour: how many whole hours have
/// passed since the series started. Text that is not a strict timestamp
/// is malformed payload; a start more than an hour in the future is an
/// index error.
pub fn get_current_time_index(starting_at: &[u8], now_minutes: u64) -> (r: Result<
    usize,
    AppError,
>)
    requires
        now_minutes <= 100_000_000_000,
    ensures
        match r {
            Ok(h) => {
                &&& crate::time::spec_is_timestamp(starting_at@)
                &&& now_minutes - crate::time::spec_epoch_minutes(
                    crate::time::spec_timestamp_civil(starting_at@),
                ) > -60
                &&& h == spec_hours_since(
                    crate::time::spec_epoch_minutes(
                        crate::time::spec_timestamp_civil(starting_at@),
                    ),
                    now_minutes as int,
                )
                &&& h <= 1_700_000_000
            },
            Err(e) => {
                if crate::time::spec_is_timestamp(starting_at@) {
                    &&& e.kind == ErrorKind::IndexOutOfRange
                    &&& now_minutes - crate::time::spec_epoch_minutes(
                        crate::time::spec_timestamp_civil(starting_at@),
                    ) <= -60
                } else {
                    e.kind == ErrorKind::MalformedPayload
                }
            },
        },
{
    let c = match crate::time::parse_timestamp(starting_at) {
        Some(c) => c,
        None => {
            return Err(AppError::malformed("could not parse starting time"));
        },
    };
    let start = crate::time::epoch_minutes(&c);
    if now_minutes >= start {
        Ok(((now_minutes - start) / 60) as usize)
    } else if start - now_minutes < 60 {
        Ok(0)
    } else {
        Err(AppError::new(ErrorKind::IndexOutOfRange, "series starts in the future"))
    }
}

/// A sample the label generator accepts: besides expanding, its
/// timestamp part must be a strict timestamp and its period must stay
/// within the label budget.
pub open spec fn spec_label_sample_ok(s: TimedSample) -> bool {
    &&& spec_split_point(s.valid_time@) != -1
    &&& spec_period_ok(spec_sample_period(s.valid_time@))
    &&& spec_period_hours(spec_sample_period(s.valid_time@)) <= 1_000_000_000
    &&& crate::time::spec_is_timestamp(spec_sample_time(s.valid_time@))
}

pub open spec fn spec_labels_ok(ss: Seq<TimedSample>) -> bool {
    forall|i: int| 0 <= i < ss.len() ==> spec_label_sample_ok(#[trigger] ss[i])
}

/// The first `n` hourly labels of one sample: its timestamp moved
/// forward hour by hour.
pub open spec fn spec_sample_labels(s: TimedSample, n: int) -> Seq<Seq<char>> {
    Seq::new(
        n as nat,
        |i: int| crate::text::ascii_chars(
            crate::time::spec_time_label(spec_sample_time(s.valid_time@), i),
        ),
    )
}

/// The display labels of a channel's expansion: one label per expanded
/// hour, each the sample's timestamp moved forward by the hour's offset.
pub open spec fn spec_labels(ss: Seq<TimedSample>) -> Seq<Seq<char>>
    decreases ss.len(),
{
    if ss.len() == 0 {
        Seq::empty()
    } else {
        spec_labels(ss.drop_last()) + spec_sample_labels(
            ss.last(),
            spec_period_hours(spec_sample_period(ss.last().valid_time@)),
        )
    }
}

/// Expands the hourly display labels from a channel's interval tags:
/// `Fri 10 AM`, `Fri 11 AM`, and so on. Each tag must split at `/P`,
/// carry a strict timestamp, and denote at most a billion hours.
#[verifier::loop_isolation(false)]
pub fn try_labels(samples: &Vec<TimedSample>) -> (r: Result<Vec<String>, AppError>)
    ensures
        match r {
            Ok(v) => spec_labels_ok(samples@) && v.deep_view() == spec_labels(samples@),
            Err(e) => !spec_labels_ok(samples@) && e.kind == ErrorKind::MalformedPayload,
        },
{
    let mut out: Vec<String> = Vec::new();
    let mut i: usize = 0;
    proof {
        assert(out.deep_view() =~= spec_labels(samples@.take(0)));
    }
    while i < samples.len()
        invariant
            0 <= i <= samples@.len(),
            forall|j: int| 0 <= j < i ==> spec_label_sample_ok(#[trigger] samples@[j]),
            out.deep_view() == spec_labels(samples@.take(i as int)),
        decreases samples@.len() - i,
    {
        let sample = &samples[i];
        let vt = sample.valid_time.as_slice();
        proof {
            lemma_spec_find_pair(vt@, '/' as u8, 'P' as u8);
        }
        let k = match find_pair(vt, '/' as u8, 'P' as u8) {
            Some(k) => k,
            None => {
                return Err(AppError::malformed("Unknown period found!"));
            },
        };
        let n = vt.len();
        let period = slice_subrange(vt, k + 2, n);
        let time = slice_subrange(vt, 0, k);
        proof {
            assert(period@ =~= spec_sample_period(sample.valid_time@));
            assert(time@ =~= spec_sample_time(sample.valid_time@));
        }
        if !period_ok(period) {
            return Err(AppError::malformed("could not parse period"));
        }
        let hours = parse_period(period);
        if hours > 1_000_000_000 {
            return Err(AppError::malformed("period too long"));
        }
        if crate::time::parse_timestamp(time).is_none() {
            return Err(AppError::malformed("could not parse time"));
        }
        let ghost prev = out.deep_view();
        let mut j: usize = 0;
        while j < hours
            invariant
                0 <= j <= hours,
                out.deep_view() == prev + spec_sample_labels(*sample, j as int),
            decreases hours - j,
        {
            let label = match crate::time::increment_time(time, j as u64) {
                Ok(l) => l,
                Err(_) => {
                    proof {
                        assert(false);
                    }
                    return Err(AppError::malformed("could not parse time"));
                },
            };
            let ghost before = out.deep_view();
            out.push(label);
            proof {
                assert(label@ == crate::text::ascii_chars(
                    crate::time::spec_time_label(spec_sample_time(sample.valid_time@), j as int),
                ));
                assert(out.deep_view() =~~= before + seq![label@]);
                assert(out.deep_view() =~~= prev + spec_sample_labels(*sample, j + 1));
            }
            j = j + 1;
        }
        proof {
            assert(samples@.take(i + 1).drop_last() =~= samples@.take(i as int));
            assert(samples@.take(i + 1).last() == samples@[i as int]);
            assert(out.deep_view() =~~= spec_labels(samples@.take(i + 1)));
        }
        i = i + 1;
    }
    proof {
        assert(samples@.take(samples@.len() as int) =~= samples@);
    }
    Ok(out)
}

/// A channel that is present with every sample expandable.
pub open spec fn spec_channel_ok(ch: Option<Vec<TimedSample>>) -> bool {
    ch matches Some(ss) && spec_all_samples_ok(ss@)
}

/// The expanded hourly values of a present channel.
pub open spec fn spec_channel_vals(ch: Option<Vec<TimedSample>>) -> Seq<i64>
    recommends
        ch is Some,
{
    spec_expand(ch.unwrap()@)
}

fn expand_channel(ch: &Option<Vec<TimedSample>>, missing_msg: &str) -> (r: Result<
    Vec<i64>,
    AppError,
>)
    ensures
        match r {
            Ok(v) => spec_channel_ok(*ch) && v@ == spec_channel_vals(*ch),
            Err(e) => !spec_channel_ok(*ch) && e.kind == ErrorKind::MalformedPayload,
        },
{
    match ch {
        None => Err(AppError::malformed(missing_msg)),
        Some(ss) => expand_values(ss),
    }
}

/// The feet readings of a metre channel.
pub open spec fn spec_feet_seq(v: Seq<i64>) -> Seq<i64> {
    Seq::new(v.len(), |i: int| crate::units::spec_meters_to_feet(v[i] as int) as i64)
}

/// The truncated miles-per-hour readings of a kilometres channel.
pub open spec fn spec_wind_seq(v: Seq<i64>) -> Seq<i64> {
    Seq::new(
        v.len(),
        |i: int| crate::units::spec_trunc2(crate::units::spec_km_to_miles(v[i] as int)) as i64,
    )
}

/// A channel truncated to two decimal places.
pub open spec fn spec_trunc2_seq(v: Seq<i64>) -> Seq<i64> {
    Seq::new(v.len(), |i: int| crate::units::spec_trunc2(v[i] as int) as i64)
}

/// A channel clamped to whole bytes.
pub open spec fn spec_sat_u8_seq(v: Seq<i64>) -> Seq<u8> {
    Seq::new(v.len(), |i: int| spec_sat_u8(v[i] as int) as u8)
}

/// A Celsius channel as whole Fahrenheit bytes.
pub open spec fn spec_temp_seq(v: Seq<i64>) -> Seq<u8> {
    Seq::new(v.len(), |i: int| crate::units::spec_c_to_f_val(v[i] as int) as u8)
}

/// A Celsius channel as whole Fahrenheit display strings.
pub open spec fn spec_dew_seq(v: Seq<i64>) -> Seq<Seq<char>> {
    Seq::new(
        v.len(),
        |i: int| crate::text::ascii_chars(
            crate::units::spec_whole_bytes(crate::units::spec_c_to_f_val(v[i] as int)),
        ),
    )
}

/// The smoothed series of a wave-height channel.
pub open spec fn spec_smooth_seq(a: Seq<i64>) -> Seq<i64> {
    Seq::new(a.len(), |i: int| spec_smoothed_at(a, i) as i64)
}

/// Every whole Fahrenheit reading of the channel fits a byte.
pub open spec fn spec_temp_vals_ok(vs: Seq<i64>) -> bool {
    forall|i: int| 0 <= i < vs.len() ==> spec_temp_in_range(#[trigger] vs[i] as int)
}

/// Whether every expanded temperature reading of the payload fits a
/// byte once converted to whole Fahrenheit; payloads whose temperature
/// channel is missing or unexpandable pass vacuously, since assembly
/// rejects them anyway.
pub fn temps_in_byte_range(props: &ForecastProperties) -> (r: bool)
    ensures
        r == (spec_channel_ok(props.temperature) ==> spec_temp_vals_ok(
            spec_channel_vals(props.temperature),
        )),
{
    let vals = match expand_channel(&props.temperature, "no temperature found!") {
        Ok(v) => v,
        Err(_) => {
            return true;
        },
    };
    let ghost ss = props.temperature.unwrap()@;
    proof {
        lemma_expand_bounds(ss);
    }
    let mut i: usize = 0;
    while i < vals.len()
        invariant
            0 <= i <= vals@.len(),
            vals@ == spec_channel_vals(props.temperature),
            spec_channel_ok(props.temperature),
            forall|j: int|
                0 <= j < vals@.len() ==> -2_000_000_000_000_000 <= #[trigger] vals@[j]
                    <= 2_000_000_000_000_000,
            forall|j: int| 0 <= j < i ==> spec_temp_in_range(#[trigger] vals@[j] as int),
        decreases vals@.len() - i,
    {
        let f = crate::units::round_half_even(18 * vals[i] + 320_000_000, 10_000_000);
        if f < 0 || f > 255 {
            return false;
        }
        i = i + 1;
    }
    true
}

/// The start of the forecast series: the part of `validTimes` before
/// its first slash.
pub open spec fn spec_starting_at(props: ForecastProperties) -> Seq<u8> {
    let vt = props.valid_times.unwrap()@;
    vt.take(spec_find(vt, '/' as u8))
}

/// A payload whose shape assembly accepts: every channel present and
/// expandable, the update time and the series start strict timestamps,
/// and the wave-height tags fit for labels.
pub open spec fn spec_forecast_parse_ok(props: ForecastProperties) -> bool {
    &&& props.update_time matches Some(ut) && crate::time::spec_is_timestamp(ut@)
    &&& spec_channel_ok(props.wave_height)
    &&& spec_channel_ok(props.wave_period)
    &&& spec_channel_ok(props.wave_direction)
    &&& spec_channel_ok(props.wind_speed)
    &&& spec_channel_ok(props.wind_gust)
    &&& spec_channel_ok(props.wind_direction)
    &&& spec_channel_ok(props.temperature)
    &&& spec_channel_ok(props.probability_of_precipitation)
    &&& spec_channel_ok(props.dewpoint)
    &&& spec_channel_ok(props.sky_cover)
    &&& spec_channel_ok(props.probability_of_thunder)
    &&& props.wave_height matches Some(wh) && spec_labels_ok(wh@)
    &&& props.valid_times matches Some(vt) && spec_find(vt@, '/' as u8) >= 0
        && crate::time::spec_is_timestamp(spec_starting_at(props))
}

/// The reference index of the current hour within the series: the whole
/// hours since the series start, plus one.
pub open spec fn spec_ref_index(props: ForecastProperties, now_min: int) -> int {
    spec_hours_since(
        crate::time::spec_epoch_minutes(
            crate::time::spec_timestamp_civil(spec_starting_at(props)),
        ),
        now_min,
    ) + 1
}

/// A payload assembly turns into a forecast: its shape is accepted, the
/// series has not started more than an hour in the future, and the
/// reference index lands inside the wave channels.
pub open spec fn spec_forecast_ok(props: ForecastProperties, now_min: int) -> bool {
    &&& spec_forecast_parse_ok(props)
    &&& now_min - crate::time::spec_epoch_minutes(
        crate::time::spec_timestamp_civil(spec_starting_at(props)),
    ) > -60
    &&& spec_ref_index(props, now_min) < spec_channel_vals(props.wave_height).len()
    &&& spec_ref_index(props, now_min) < spec_channel_vals(props.wave_period).len()
    &&& spec_ref_index(props, now_min) < spec_channel_vals(props.wave_direction).len()
}

impl Forecast {
    /// Assembles the channels of a raw payload: expands every channel
    /// to hourly values, converts units, smooths the wave heights,
    /// builds the labels, and derives the current-conditions scalars
    /// for the hour `now_minutes` falls in. Quality is not yet rated.
    ///
    /// Returns the forecast exactly when `spec_forecast_ok` holds of
    /// the payload; a shape failure is malformed payload, and a
    /// reference index outside the series is an index error.
    pub fn try_from(props: &ForecastProperties, now_minutes: u64) -> (r: Result<
        Forecast,
        AppError,
    >)
        requires
            now_minutes <= 100_000_000_000,
            spec_channel_ok(props.temperature) ==> spec_temp_vals_ok(
                spec_channel_vals(props.temperature),
            ),
        ensures
            match r {
                Ok(f) => {
                    let smoothed = spec_smooth_seq(
                        spec_feet_seq(spec_channel_vals(props.wave_height)),
                    );
                    let k = spec_ref_index(*props, now_minutes as int);
                    &&& spec_forecast_ok(*props, now_minutes as int)
                    &&& f.as_of@ == crate::text::ascii_chars(
                        crate::time::spec_display_bytes(
                            crate::time::spec_central(
                                crate::time::spec_timestamp_civil(props.update_time.unwrap()@),
                            ),
                        ),
                    )
                    &&& f.wave_height@ == smoothed
                    &&& f.wave_period@ == spec_channel_vals(props.wave_period)
                    &&& f.wave_direction@ == spec_channel_vals(props.wave_direction)
                    &&& f.wind_speed@ == spec_wind_seq(spec_channel_vals(props.wind_speed))
                    &&& f.wind_gust@ == spec_wind_seq(spec_channel_vals(props.wind_gust))
                    &&& f.wind_direction@ == spec_trunc2_seq(
                        spec_channel_vals(props.wind_direction),
                    )
                    &&& f.temperature@ == spec_temp_seq(spec_channel_vals(props.temperature))
                    &&& f.probability_of_precipitation@ == spec_sat_u8_seq(
                        spec_channel_vals(props.probability_of_precipitation),
                    )
                    &&& f.dewpoint.deep_view() == spec_dew_seq(spec_channel_vals(props.dewpoint))
                    &&& f.cloud_cover@ == spec_sat_u8_seq(spec_channel_vals(props.sky_cover))
                    &&& f.probability_of_thunder@ == spec_sat_u8_seq(
                        spec_channel_vals(props.probability_of_thunder),
                    )
                    &&& f.wave_height_labels.deep_view() == spec_labels(
                        props.wave_height.unwrap()@,
                    )
                    &&& f.starting_at@ == crate::text::ascii_chars(spec_starting_at(*props))
                    &&& f.quality is None
                    &&& f.current_wave_period == spec_channel_vals(props.wave_period)[k]
                    &&& f.current_wave_direction == spec_channel_vals(props.wave_direction)[k]
                        + 180_000_000
                    &&& f.current_wave_height@ == crate::text::ascii_chars(
                        spec_current_summary_bytes(smoothed, k),
                    )
                },
                Err(e) => {
                    &&& !spec_forecast_ok(*props, now_minutes as int)
                    &&& (e.kind == ErrorKind::IndexOutOfRange <==> spec_forecast_parse_ok(
                        *props,
                    ))
                    &&& (e.kind == ErrorKind::IndexOutOfRange || e.kind
                        == ErrorKind::MalformedPayload)
                },
            },
    {
        let update_civil = match &props.update_time {
            Some(ut) => match crate::time::parse_timestamp(ut.as_slice()) {
                Some(c) => c,
                None => {
                    return Err(AppError::malformed("Unidentified suffix"));
                },
            },
            None => {
                return Err(AppError::malformed("no updateTime found"));
            },
        };
        let as_of = crate::time::format_display_time(&crate::time::to_central(&update_civil));
        let wave_height_raw = match expand_channel(&props.wave_height, "no waveHeight found!") {
            Ok(v) => v,
            Err(e) => {
                return Err(e);
            },
        };
        let wave_period = match expand_channel(&props.wave_period, "no wavePeriod found!") {
            Ok(v) => v,
            Err(e) => {
                return Err(e);
            },
        };
        let wave_direction = match expand_channel(&props.wave_direction, "no waveDirection found!")
            {
            Ok(v) => v,
            Err(e) => {
                return Err(e);
            },
        };
        let wind_speed_raw = match expand_channel(&props.wind_speed, "no windSpeed found!") {
            Ok(v) => v,
            Err(e) => {
                return Err(e);
            },
        };
        let wind_gust_raw = match expand_channel(&props.wind_gust, "no windGust found!") {
            Ok(v) => v,
            Err(e) => {
                return Err(e);
            },
        };
        let wind_direction_raw = match expand_channel(
            &props.wind_direction,
            "no windDirection found!",
        ) {
            Ok(v) => v,
            Err(e) => {
                return Err(e);
            },
        };
        let temperature_raw = match expand_channel(&props.temperature, "no temperature found!") {
            Ok(v) => v,
            Err(e) => {
                return Err(e);
            },
        };
        let precip_raw = match expand_channel(
            &props.probability_of_precipitation,
            "no probabilityOfPrecipitation found!",
        ) {
            Ok(v) => v,
            Err(e) => {
                return Err(e);
            },
        };
        let dewpoint_raw = match expand_channel(&props.dewpoint, "no dewpoint found!") {
            Ok(v) => v,
            Err(e) => {
                return Err(e);
            },
        };
        let sky_raw = match expand_channel(&props.sky_cover, "no skyCover found!") {
            Ok(v) => v,
            Err(e) => {
                return Err(e);
            },
        };
        let thunder_raw = match expand_channel(
            &props.probability_of_thunder,
            "no probabilityOfThunder found!",
        ) {
            Ok(v) => v,
            Err(e) => {
                return Err(e);
            },
        };
        let labels = match &props.wave_height {
            Some(ss) => match try_labels(ss) {
                Ok(l) => l,
                Err(e) => {
                    return Err(e);
                },
            },
            None => {
                proof {
                    assert(false);
                }
                return Err(AppError::malformed("no waveHeight found!"));
            },
        };
        proof {
            lemma_expand_bounds(props.wave_height.unwrap()@);
            lemma_expand_bounds(props.wave_period.unwrap()@);
            lemma_expand_bounds(props.wave_direction.unwrap()@);
            lemma_expand_bounds(props.wind_speed.unwrap()@);
            lemma_expand_bounds(props.wind_gust.unwrap()@);
            lemma_expand_bounds(props.wind_direction.unwrap()@);
            lemma_expand_bounds(props.temperature.unwrap()@);
            lemma_expand_bounds(props.probability_of_precipitation.unwrap()@);
            lemma_expand_bounds(props.dewpoint.unwrap()@);
        }
        let feet = map_feet(&wave_height_raw);
        let smoothed = smooth_wave_data(&feet);
        let wind_speed = map_wind(&wind_speed_raw);
        let wind_gust = map_wind(&wind_gust_raw);
        let wind_direction = map_trunc2(&wind_direction_raw);
        let temperature = map_temp_u8(&temperature_raw);
        let probability_of_precipitation = map_sat_u8(&precip_raw);
        let dewpoint = map_dewpoint(&dewpoint_raw);
        let cloud_cover = map_sat_u8(&sky_raw);
        let probability_of_thunder = map_sat_u8(&thunder_raw);
        let starting_bytes = match &props.valid_times {
            Some(vt) => {
                let sl = vt.as_slice();
                proof {
                    lemma_spec_find(sl@, '/' as u8);
                }
                match find_byte(sl, '/' as u8) {
                    Some(p) => slice_to_vec(slice_subrange(sl, 0, p)),
                    None => {
                        return Err(AppError::malformed("no validTimes start found"));
                    },
                }
            },
            None => {
                return Err(AppError::malformed("no validTimes found"));
            },
        };
        proof {
            assert(starting_bytes@ =~= spec_starting_at(*props));
        }
        let idx = match get_current_time_index(starting_bytes.as_slice(), now_minutes) {
            Ok(h) => h,
            Err(e) => {
                return Err(e);
            },
        };
        let k = idx + 1;
        let (current_wave_height, current_wave_period, current_wave_direction) =
            match get_current_wave_data(&smoothed, &wave_period, &wave_direction, k) {
            Ok(t) => t,
            Err(e) => {
                return Err(e);
            },
        };
        proof {
            crate::time::lemma_timestamp_ascii(starting_bytes@);
        }
        let starting_at = crate::text::ascii_to_string(&starting_bytes);
        proof {
            assert(feet@ =~= spec_feet_seq(spec_channel_vals(props.wave_height)));
            assert(smoothed@ =~= spec_smooth_seq(feet@));
            assert(wind_speed@ =~= spec_wind_seq(spec_channel_vals(props.wind_speed)));
            assert(wind_gust@ =~= spec_wind_seq(spec_channel_vals(props.wind_gust)));
            assert(wind_direction@ =~= spec_trunc2_seq(spec_channel_vals(props.wind_direction)));
            assert(temperature@ =~= spec_temp_seq(spec_channel_vals(props.temperature)));
            assert(probability_of_precipitation@ =~= spec_sat_u8_seq(
                spec_channel_vals(props.probability_of_precipitation),
            ));
            assert(dewpoint.deep_view() =~~= spec_dew_seq(spec_channel_vals(props.dewpoint)));
            assert(cloud_cover@ =~= spec_sat_u8_seq(spec_channel_vals(props.sky_cover)));
            assert(probability_of_thunder@ =~= spec_sat_u8_seq(
                spec_channel_vals(props.probability_of_thunder),
            ));
        }
        Ok(
            Forecast {
                as_of,
                cloud_cover,
                current_wave_height,
                current_wave_period,
                current_wave_direction,
                dewpoint,
                probability_of_precipitation,
                probability_of_thunder,
                quality: None,
                starting_at,
                temperature,
                wave_direction,
                wave_height: smoothed,
                wave_height_labels: labels,
                wave_period,
                wind_speed,
                wind_gust,
                wind_direction,
            },
        )
    }
}

/// The common minimum length the aligner cuts a payload's required
/// channels to.
pub open spec fn spec_payload_aligned_len(props: ForecastProperties) -> int {
    let smoothed = spec_smooth_seq(spec_feet_seq(spec_channel_vals(props.wave_height)));
    spec_min(
        spec_min(
            spec_min(
                spec_min(
                    spec_channel_vals(props.wave_period).len() as int,
                    smoothed.len() as int,
                ),
                spec_wind_seq(spec_channel_vals(props.wind_speed)).len() as int,
            ),
            spec_wind_seq(spec_channel_vals(props.wind_gust)).len() as int,
        ),
        spec_trunc2_seq(spec_channel_vals(props.wind_direction)).len() as int,
    )
}

impl Forecast {
    /// The whole forecast pipeline after the fetch: assembles the
    /// channels, aligns them to their common minimum length, and rates
    /// each remaining hour's quality with the location's sector table.
    ///
    /// Succeeds exactly when `spec_forecast_ok` holds of the payload;
    /// on success every aligned channel has the common length, index
    /// for index the same forecast hour.
    pub fn assemble(
        props: &ForecastProperties,
        now_minutes: u64,
        location: &crate::spot::Location,
    ) -> (r: Result<Forecast, AppError>)
        requires
            now_minutes <= 100_000_000_000,
            spec_channel_ok(props.temperature) ==> spec_temp_vals_ok(
                spec_channel_vals(props.temperature),
            ),
        ensures
            match r {
                Ok(f) => {
                    let smoothed = spec_smooth_seq(
                        spec_feet_seq(spec_channel_vals(props.wave_height)),
                    );
                    let m = spec_payload_aligned_len(*props);
                    let k = spec_ref_index(*props, now_minutes as int);
                    &&& spec_forecast_ok(*props, now_minutes as int)
                    &&& f.wave_height@ == smoothed.take(m)
                    &&& f.wave_period@ == spec_channel_vals(props.wave_period).take(m)
                    &&& f.wind_speed@ == spec_wind_seq(spec_channel_vals(props.wind_speed)).take(
                        m,
                    )
                    &&& f.wind_gust@ == spec_wind_seq(spec_channel_vals(props.wind_gust)).take(m)
                    &&& f.wind_direction@ == spec_trunc2_seq(
                        spec_channel_vals(props.wind_direction),
                    ).take(m)
                    // the aligned channels share the common minimum length
                    &&& f.wave_height@.len() == m
                    &&& f.wave_period@.len() == m
                    &&& f.wind_speed@.len() == m
                    &&& f.wind_gust@.len() == m
                    &&& f.wind_direction@.len() == m
                    &&& f.wave_direction@ == spec_channel_vals(props.wave_direction)
                    &&& f.temperature@ == spec_temp_seq(spec_channel_vals(props.temperature))
                    &&& f.probability_of_precipitation@ == spec_sat_u8_seq(
                        spec_channel_vals(props.probability_of_precipitation),
                    )
                    &&& f.dewpoint.deep_view() == spec_dew_seq(spec_channel_vals(props.dewpoint))
                    &&& f.cloud_cover@ == spec_sat_u8_seq(spec_channel_vals(props.sky_cover))
                    &&& f.probability_of_thunder@ == spec_sat_u8_seq(
                        spec_channel_vals(props.probability_of_thunder),
                    )
                    &&& f.wave_height_labels.deep_view() == spec_labels(
                        props.wave_height.unwrap()@,
                    ).take(spec_min(m, spec_labels(props.wave_height.unwrap()@).len() as int))
                    &&& f.as_of@ == crate::text::ascii_chars(
                        crate::time::spec_display_bytes(
                            crate::time::spec_central(
                                crate::time::spec_timestamp_civil(props.update_time.unwrap()@),
                            ),
                        ),
                    )
                    &&& f.starting_at@ == crate::text::ascii_chars(spec_starting_at(*props))
                    &&& f.current_wave_period == spec_channel_vals(props.wave_period)[k]
                    &&& f.current_wave_direction == spec_channel_vals(props.wave_direction)[k]
                        + 180_000_000
                    &&& f.current_wave_height@ == crate::text::ascii_chars(
                        spec_current_summary_bytes(smoothed, k),
                    )
                    // each remaining hour carries its rating's display text
                    &&& f.quality matches Some(q) && q@.len() == m && forall|i: int|
                        0 <= i < m ==> (#[trigger] q@[i])@ == location.spec_get_quality(
                            f.wave_height@[i] as int,
                            f.wind_speed@[i] as int,
                            f.wind_direction@[i] as int,
                        ).spec_text()
                },
                Err(e) => {
                    &&& !spec_forecast_ok(*props, now_minutes as int)
                    &&& (e.kind == ErrorKind::IndexOutOfRange <==> spec_forecast_parse_ok(
                        *props,
                    ))
                    &&& (e.kind == ErrorKind::IndexOutOfRange || e.kind
                        == ErrorKind::MalformedPayload)
                },
            },
    {
        let mut forecast = match Forecast::try_from(props, now_minutes) {
            Ok(f) => f,
            Err(e) => {
                return Err(e);
            },
        };
        forecast.condense();
        forecast.compute_quality(location);
        proof {
            assert(forecast.wave_height_labels.deep_view() =~~= spec_labels(
                props.wave_height.unwrap()@,
            ).take(
                spec_min(
                    spec_payload_aligned_len(*props),
                    spec_labels(props.wave_height.unwrap()@).len() as int,
                ),
            ));
        }
        Ok(forecast)
    }
}

} // verus!
