//! Unit conversions over fixed-point quantities (one physical unit =
//! 10^6 ticks): metres to feet, kilometres to miles, metres per second
//! to miles per hour, Celsius to Fahrenheit, and the decimal parsing and
//! rendering they share. Division truncates toward zero; rendering to a
//! whole number rounds half to even, as the displayed output does.

use vstd::prelude::*;

use crate::digits::{
    all_digits, digits_val, is_digit, lemma_digits_val_bound, lemma_spec_digits_are_digits,
    parse_u64, pow10, push_digits, spec_digits,
};
use crate::text::{all_ascii, ascii_chars, ascii_to_string, find_byte, lemma_spec_find, spec_find};
use vstd::slice::slice_subrange;

verus! {

/// Multiplies by `m` and divides by `d`, truncating toward zero.
pub open spec fn spec_scale(v: int, m: int, d: int) -> int
    recommends
        m >= 0,
        d > 0,
{
    if v >= 0 {
        v * m / d
    } else {
        -((-v) * m / d)
    }
}

/// Rounds the non-negative rational `p / q` to the nearest whole number,
/// ties to the even neighbour.
pub open spec fn spec_rhe_nonneg(p: int, q: int) -> int
    recommends
        p >= 0,
        q > 0,
{
    let d = p / q;
    let r = p % q;
    if 2 * r < q {
        d
    } else if 2 * r > q {
        d + 1
    } else if d % 2 == 0 {
        d
    } else {
        d + 1
    }
}

/// Rounds the rational `p / q` to the nearest whole number, ties to the
/// even neighbour; symmetric about zero.
pub open spec fn spec_rhe(p: int, q: int) -> int
    recommends
        q > 0,
{
    if p >= 0 {
        spec_rhe_nonneg(p, q)
    } else {
        -spec_rhe_nonneg(-p, q)
    }
}

fn rhe_u64(p: u64, q: u64) -> (r: u64)
    requires
        1 <= q,
        p <= 4_000_000_000_000_000_000,
        q <= 4_000_000_000_000_000_000,
    ensures
        r == spec_rhe_nonneg(p as int, q as int),
{
    let d = p / q;
    let r = p % q;
    if 2 * r < q {
        d
    } else if 2 * r > q {
        d + 1
    } else if d % 2 == 0 {
        d
    } else {
        d + 1
    }
}

/// Rounds the fixed-point ratio `p / q` to the nearest whole, ties to even.
pub fn round_half_even(p: i64, q: i64) -> (r: i64)
    requires
        1 <= q <= 4_000_000_000_000_000_000,
        -4_000_000_000_000_000_000 <= p <= 4_000_000_000_000_000_000,
    ensures
        r == spec_rhe(p as int, q as int),
{
    if p >= 0 {
        rhe_u64(p as u64, q as u64) as i64
    } else {
        let m = rhe_u64((-p) as u64, q as u64);
        -(m as i64)
    }
}

/// The digit string of a whole number, with a leading minus sign when
/// negative.
pub open spec fn spec_whole_bytes(n: int) -> Seq<u8> {
    if n < 0 {
        seq![45u8] + spec_digits(-n)
    } else {
        spec_digits(n)
    }
}

pub proof fn lemma_whole_bytes_ascii(n: int)
    ensures
        all_ascii(spec_whole_bytes(n)),
{
    if n < 0 {
        lemma_spec_digits_are_digits(-n);
    } else {
        lemma_spec_digits_are_digits(if n >= 0 { n } else { 0 });
    }
}

/// Renders a whole number in decimal, minus sign included.
pub fn whole_to_bytes(n: i64) -> (r: Vec<u8>)
    requires
        n > i64::MIN,
    ensures
        r@ == spec_whole_bytes(n as int),
{
    let mut out: Vec<u8> = Vec::new();
    if n < 0 {
        out.push(45);
        push_digits((-n) as u64, &mut out);
        assert(out@ =~= spec_whole_bytes(n as int));
    } else {
        push_digits(n as u64, &mut out);
        assert(out@ =~= spec_whole_bytes(n as int));
    }
    out
}

/// Fractional digits scaled to ticks: the first six places count, later
/// places are truncated away.
pub open spec fn spec_frac_scaled(f: Seq<u8>) -> int {
    if f.len() >= 6 {
        digits_val(f.subrange(0, 6))
    } else {
        digits_val(f) * pow10((6 - f.len()) as nat)
    }
}

/// The value, in ticks, of an unsigned plain decimal: digits, optionally
/// a dot and more digits, at least one digit in all; whole parts above
/// ten million are out of range.
pub open spec fn spec_decimal_mag(t: Seq<u8>) -> Option<int> {
    let dot = spec_find(t, 46);
    if dot == -1 {
        if t.len() > 0 && all_digits(t) && digits_val(t) <= 10_000_000 {
            Some(digits_val(t) * 1_000_000)
        } else {
            None
        }
    } else {
        let ip = t.subrange(0, dot);
        let fp = t.subrange(dot + 1, t.len() as int);
        if ip.len() + fp.len() > 0 && all_digits(ip) && all_digits(fp) && digits_val(ip)
            <= 10_000_000 {
            Some(digits_val(ip) * 1_000_000 + spec_frac_scaled(fp))
        } else {
            None
        }
    }
}

/// The value, in ticks, of a plain decimal with an optional leading
/// minus sign.
pub open spec fn spec_decimal(s: Seq<u8>) -> Option<int> {
    if s.len() > 0 && s[0] == 45 {
        match spec_decimal_mag(s.skip(1)) {
            Some(v) => Some(-v),
            None => None,
        }
    } else {
        spec_decimal_mag(s)
    }
}

proof fn lemma_pow10_vals()
    ensures
        pow10(0) == 1,
        pow10(1) == 10,
        pow10(2) == 100,
        pow10(3) == 1000,
        pow10(4) == 10000,
        pow10(5) == 100000,
        pow10(6) == 1000000,
        pow10(7) == 10000000,
{
    assert(pow10(0) == 1);
    assert(pow10(1) == 10);
    assert(pow10(2) == 100);
    assert(pow10(3) == 1000);
    assert(pow10(4) == 10000);
    assert(pow10(5) == 100000);
    assert(pow10(6) == 1000000);
    assert(pow10(7) == 10000000);
}

fn pow10_small(k: u64) -> (r: u64)
    requires
        k <= 6,
    ensures
        r == pow10(k as nat),
{
    proof {
        lemma_pow10_vals();
    }
    if k == 0 {
        1
    } else if k == 1 {
        10
    } else if k == 2 {
        100
    } else if k == 3 {
        1000
    } else if k == 4 {
        10000
    } else if k == 5 {
        100000
    } else {
        1000000
    }
}

#[verifier::loop_isolation(false)]
fn parse_decimal_mag(t: &[u8]) -> (r: Option<u64>)
    ensures
        match r {
            Some(v) => spec_decimal_mag(t@) == Some(v as int) && v
                <= 10_000_001_000_000,
            None => spec_decimal_mag(t@) is None,
        },
{
    proof {
        lemma_spec_find(t@, 46);
    }
    match find_byte(t, 46) {
        None => {
            match parse_u64(t) {
                Some(v) => {
                    if v <= 10_000_000 {
                        Some(v * 1_000_000)
                    } else {
                        None
                    }
                },
                None => None,
            }
        },
        Some(i) => {
            proof {
                assert(0 <= i < t@.len());
            }
            let n = t.len();
            let ip = slice_subrange(t, 0, i);
            let fp = slice_subrange(t, i + 1, n);
            proof {
                assert(ip@ =~= t@.subrange(0, i as int));
                assert(fp@ =~= t@.subrange(i + 1, t@.len() as int));
            }
            if ip.len() == 0 && fp.len() == 0 {
                return None;
            }
            let ipv: u64 = if ip.len() == 0 {
                0
            } else {
                match parse_u64(ip) {
                    Some(v) => v,
                    None => {
                        proof {
                            if all_digits(ip@) {
                                assert(digits_val(ip@) > u64::MAX);
                            }
                        }
                        return None;
                    },
                }
            };
            if ipv > 10_000_000 {
                return None;
            }
            // every fractional digit must be a digit, however many there are
            let mut j: usize = 0;
            while j < fp.len()
                invariant
                    0 <= j <= fp@.len(),
                    forall|k: int| 0 <= k < j ==> is_digit(#[trigger] fp@[k]),
                decreases fp@.len() - j,
            {
                let b = fp[j];
                if b < 48 || b > 57 {
                    assert(!is_digit(fp@[j as int]));
                    return None;
                }
                j = j + 1;
            }
            assert(all_digits(fp@));
            let fv: u64 = if fp.len() >= 6 {
                let f6 = slice_subrange(fp, 0, 6);
                proof {
                    assert(f6@ =~= fp@.subrange(0, 6));
                    assert(all_digits(f6@));
                    lemma_digits_val_bound(f6@);
                    lemma_pow10_vals();
                }
                match parse_u64(f6) {
                    Some(v) => v,
                    None => {
                        proof {
                            lemma_digits_val_bound(f6@);
                        }
                        assert(false);
                        0
                    },
                }
            } else if fp.len() == 0 {
                proof {
                    lemma_pow10_vals();
                    assert(digits_val(fp@) == 0);
                    assert(spec_frac_scaled(fp@) == 0);
                }
                0
            } else {
                proof {
                    lemma_digits_val_bound(fp@);
                    lemma_pow10_vals();
                }
                match parse_u64(fp) {
                    Some(v) => {
                        proof {
                            lemma_digits_val_bound(fp@);
                        }
                        let p = pow10_small(6 - (fp.len() as u64));
                        proof {
                            lemma_pow10_mul_bound(fp@.len() as nat);
                            assert(fp@.len() <= 5);
                            assert(digits_val(fp@) < pow10(fp@.len()));
                            assert(p == pow10((6 - fp@.len()) as nat));
                            assert((v as int) * pow10((6 - fp@.len()) as nat) <= 999999);
                            assert((v as int) * (p as int) == spec_frac_scaled(fp@));
                        }
                        v * p
                    },
                    None => {
                        assert(false);
                        0
                    },
                }
            };
            assert(fv <= 999999) by {
                if fp@.len() >= 6 {
                    lemma_digits_val_bound(fp@.subrange(0, 6));
                    lemma_pow10_vals();
                } else {
                    lemma_digits_val_bound(fp@);
                    lemma_pow10_mul_bound(fp@.len() as nat);
                }
            }
            Some(ipv * 1_000_000 + fv)
        },
    }
}

/// For a digit string shorter than six places, the scaled fraction stays
/// below one million.
proof fn lemma_pow10_mul_bound(n: nat)
    requires
        n <= 5,
    ensures
        forall|v: int|
            0 <= v < pow10(n) ==> #[trigger] (v * pow10((6 - n) as nat)) <= 999999,
        pow10(n) >= 1,
        pow10((6 - n) as nat) >= 1,
{
    lemma_pow10_vals();
    assert forall|v: int| 0 <= v < pow10(n) implies #[trigger] (v * pow10((6 - n) as nat))
        <= 999999 by {
        let m = pow10((6 - n) as nat);
        assert(v <= pow10(n) - 1);
        assert(v * m <= (pow10(n) - 1) * m) by (nonlinear_arith)
            requires
                v <= pow10(n) - 1,
                m >= 0,
        ;
        assert((pow10(n) - 1) * m == pow10(n) * m - m) by (nonlinear_arith);
        assert(pow10(n) * m == 1000000) by {
            lemma_pow10_split(n);
        }
    }
}

proof fn lemma_pow10_split(n: nat)
    requires
        n <= 6,
    ensures
        pow10(n) * pow10((6 - n) as nat) == 1000000,
    decreases n,
{
    if n == 0 {
        lemma_pow10_vals();
    } else {
        lemma_pow10_split((n - 1) as nat);
        assert(pow10(n) == 10 * pow10((n - 1) as nat));
        assert(pow10((6 - n) as nat) * 10 == pow10((7 - n) as nat));
        assert(pow10(n) * pow10((6 - n) as nat) == pow10((n - 1) as nat) * (10 * pow10(
            (6 - n) as nat,
        ))) by (nonlinear_arith)
            requires
                pow10(n) == 10 * pow10((n - 1) as nat),
        ;
    }
}

/// Parses a plain signed decimal into ticks (one unit = 10^6 ticks),
/// truncating past the sixth fractional place. Whole parts above ten
/// million are rejected as out of range.
pub fn parse_decimal(s: &[u8]) -> (r: Option<i64>)
    ensures
        match r {
            Some(v) => spec_decimal(s@) == Some(v as int) && -10_000_001_000_000 <= v
                <= 10_000_001_000_000,
            None => spec_decimal(s@) is None,
        },
{
    if s.len() > 0 && s[0] == 45 {
        let t = slice_subrange(s, 1, s.len());
        proof {
            assert(t@ =~= s@.skip(1));
        }
        match parse_decimal_mag(t) {
            Some(v) => Some(-(v as i64)),
            None => None,
        }
    } else {
        match parse_decimal_mag(s) {
            Some(v) => Some(v as i64),
            None => None,
        }
    }
}

/// Truncates a fixed-point value to two decimal places (toward zero).
pub open spec fn spec_trunc2(v: int) -> int {
    if v >= 0 {
        (v / 10_000) * 10_000
    } else {
        -((-v / 10_000) * 10_000)
    }
}

/// Limits a fixed-point value to two decimal digits, truncating toward
/// zero.
pub fn truncate_to_two_decimals(v: i64) -> (r: i64)
    requires
        v > i64::MIN,
    ensures
        r == spec_trunc2(v as int),
{
    if v >= 0 {
        (v / 10_000) * 10_000
    } else {
        let m = -v;
        -((m / 10_000) * 10_000)
    }
}

fn scale_trunc(v: i64, m: u64, d: u64) -> (r: i64)
    requires
        1 <= d <= 1_000_000,
        m <= 4000,
        -2_000_000_000_000_000 <= v <= 2_000_000_000_000_000,
    ensures
        r == spec_scale(v as int, m as int, d as int),
{
    if v >= 0 {
        let u = v as u64;
        proof {
            assert(u * m <= 8_000_000_000_000_000_000) by (nonlinear_arith)
                requires
                    u <= 2_000_000_000_000_000,
                    m <= 4000,
            ;
        }
        let w = u * m / d;
        w as i64
    } else {
        let u = (-v) as u64;
        proof {
            assert(u * m <= 8_000_000_000_000_000_000) by (nonlinear_arith)
                requires
                    u <= 2_000_000_000_000_000,
                    m <= 4000,
            ;
        }
        let w = u * m / d;
        -(w as i64)
    }
}

/// Metres to feet: multiplies by 3.281 exactly, truncating at the sixth
/// decimal place.
pub open spec fn spec_meters_to_feet(v: int) -> int {
    spec_scale(v, 3281, 1000)
}

pub fn convert_meter_to_feet(v: i64) -> (r: i64)
    requires
        -2_000_000_000_000_000 <= v <= 2_000_000_000_000_000,
    ensures
        r == spec_meters_to_feet(v as int),
        -6_562_000_000_000_000 <= r <= 6_562_000_000_000_000,
{
    scale_trunc(v, 3281, 1000)
}

/// Kilometres to miles: multiplies by 0.621 exactly, truncating at the
/// sixth decimal place.
pub open spec fn spec_km_to_miles(v: int) -> int {
    spec_scale(v, 621, 1000)
}

pub fn convert_kilo_meter_to_mile(v: i64) -> (r: i64)
    requires
        -2_000_000_000_000_000 <= v <= 2_000_000_000_000_000,
    ensures
        r == spec_km_to_miles(v as int),
{
    scale_trunc(v, 621, 1000)
}

/// The whole miles-per-hour reading of a metres-per-second decimal:
/// unparsable input counts as zero, and the product with 2.2369 is
/// rounded half to even, as the display formatting does.
pub open spec fn spec_mps_to_mph_val(s: Seq<u8>) -> int {
    let v = match spec_decimal(s) {
        Some(v) => v,
        None => 0,
    };
    spec_rhe(v * 22369, 10_000_000_000)
}

pub fn convert_meter_per_second_to_miles_per_hour(s: &[u8]) -> (r: String)
    ensures
        r@ == ascii_chars(spec_whole_bytes(spec_mps_to_mph_val(s@))),
{
    let v: i64 = match parse_decimal(s) {
        Some(v) => v,
        None => 0,
    };
    let mph = round_half_even(v * 22369, 10_000_000_000);
    let bytes = whole_to_bytes(mph);
    proof {
        lemma_whole_bytes_ascii(mph as int);
    }
    ascii_to_string(&bytes)
}

/// The whole Fahrenheit reading of a Celsius fixed-point value, rounded
/// half to even as the display formatting does.
pub open spec fn spec_c_to_f_val(v: int) -> int {
    spec_rhe(18 * v + 320_000_000, 10_000_000)
}

pub fn convert_celsius_to_fahrenheit(v: i64) -> (r: String)
    requires
        -200_000_000_000_000_000 <= v <= 200_000_000_000_000_000,
    ensures
        r@ == ascii_chars(spec_whole_bytes(spec_c_to_f_val(v as int))),
{
    let f = round_half_even(18 * v + 320_000_000, 10_000_000);
    let bytes = whole_to_bytes(f);
    proof {
        lemma_whole_bytes_ascii(f as int);
    }
    ascii_to_string(&bytes)
}

/// A fixed-point value rendered with exactly two decimal places, the
/// hundredths rounded half to even, sign first.
pub open spec fn spec_two_dec_bytes(v: int) -> Seq<u8> {
    let h = spec_rhe(v, 10_000);
    let m = if h < 0 {
        -h
    } else {
        h
    };
    let sign: Seq<u8> = if h < 0 {
        seq![45u8]
    } else {
        Seq::<u8>::empty()
    };
    sign + spec_digits(m / 100) + seq![46u8] + crate::digits::spec_2digits(m % 100)
}

/// Renders a fixed-point value with exactly two decimal places.
pub fn format_two_decimals(v: i64) -> (r: String)
    requires
        -4_000_000_000_000_000_000 <= v <= 4_000_000_000_000_000_000,
    ensures
        r@ == ascii_chars(spec_two_dec_bytes(v as int)),
{
    let h = round_half_even(v, 10_000);
    let neg = h < 0;
    let m: u64 = if h < 0 {
        (-h) as u64
    } else {
        h as u64
    };
    let mut out: Vec<u8> = Vec::new();
    if neg {
        out.push(45);
    }
    push_digits(m / 100, &mut out);
    out.push(46);
    crate::digits::push_2digits(m % 100, &mut out);
    proof {
        lemma_spec_digits_are_digits((m / 100) as int);
        assert(out@ =~= spec_two_dec_bytes(v as int));
        assert forall|i: int| 0 <= i < out@.len() implies #[trigger] out@[i] < 128 by {
            let d = spec_digits((m / 100) as int);
            let sign_len: int = if neg {
                1int
            } else {
                0int
            };
            if i >= sign_len && i < sign_len + d.len() {
                assert(is_digit(d[i - sign_len]));
            }
        }
    }
    ascii_to_string(&out)
}

} // verus!
