//! Decimal digit strings: the value of a run of ASCII digits, and the
//! canonical digit string of a non-negative number. Both directions are
//! stated as spec functions and implemented by verified executable code.

use vstd::prelude::*;

verus! {

/// An ASCII decimal digit.
pub open spec fn is_digit(b: u8) -> bool {
    ('0' as u8) <= b && b <= ('9' as u8)
}

/// Every byte of the sequence is an ASCII digit.
pub open spec fn all_digits(s: Seq<u8>) -> bool {
    forall|i: int| 0 <= i < s.len() ==> is_digit(#[trigger] s[i])
}

/// Numeric value of a digit string, most significant digit first.
/// The empty string has value 0.
pub open spec fn digits_val(s: Seq<u8>) -> int
    decreases s.len(),
{
    if s.len() == 0 {
        0
    } else {
        digits_val(s.drop_last()) * 10 + (s.last() - ('0' as u8))
    }
}

pub proof fn lemma_digits_val_nonneg(s: Seq<u8>)
    requires
        all_digits(s),
    ensures
        digits_val(s) >= 0,
    decreases s.len(),
{
    if s.len() > 0 {
        assert(all_digits(s.drop_last()));
        lemma_digits_val_nonneg(s.drop_last());
    }
}

/// A digit string is worth at least any of its prefixes.
pub proof fn lemma_digits_val_prefix_le(s: Seq<u8>, i: int)
    requires
        all_digits(s),
        0 <= i <= s.len(),
    ensures
        digits_val(s.subrange(0, i)) <= digits_val(s),
    decreases s.len() - i,
{
    if i < s.len() {
        let p = s.subrange(0, i);
        let q = s.subrange(0, i + 1);
        assert(q.drop_last() =~= p);
        assert(all_digits(p));
        lemma_digits_val_nonneg(p);
        assert(digits_val(q) == digits_val(p) * 10 + (s[i] - ('0' as u8)));
        lemma_digits_val_prefix_le(s, i + 1);
    } else {
        assert(s.subrange(0, i) =~= s);
    }
}

/// Canonical decimal digit string of a non-negative number.
pub open spec fn spec_digits(n: int) -> Seq<u8>
    recommends
        n >= 0,
    decreases n,
{
    if n < 10 {
        seq![(n + ('0' as u8)) as u8]
    } else {
        spec_digits(n / 10).push(((n % 10) + ('0' as u8)) as u8)
    }
}

/// Ten to the power `n`.
pub open spec fn pow10(n: nat) -> int
    decreases n,
{
    if n == 0 {
        1
    } else {
        10 * pow10((n - 1) as nat)
    }
}

/// A digit string of length `n` is worth less than ten to the `n`.
pub proof fn lemma_digits_val_bound(s: Seq<u8>)
    requires
        all_digits(s),
    ensures
        0 <= digits_val(s) < pow10(s.len()),
    decreases s.len(),
{
    if s.len() > 0 {
        assert(all_digits(s.drop_last()));
        lemma_digits_val_bound(s.drop_last());
    }
}

/// The canonical digit string holds only digits (hence only ASCII bytes).
pub proof fn lemma_spec_digits_are_digits(n: int)
    requires
        n >= 0,
    ensures
        all_digits(spec_digits(n)),
        spec_digits(n).len() >= 1,
    decreases n,
{
    if n >= 10 {
        lemma_spec_digits_are_digits(n / 10);
        let p = spec_digits(n / 10);
        let q = spec_digits(n);
        assert(q == p.push(((n % 10) + ('0' as u8)) as u8));
        assert(forall|i: int| 0 <= i < q.len() ==> is_digit(#[trigger] q[i]));
    }
}

/// Appends the canonical digit string of `n` to `out`.
pub fn push_digits(n: u64, out: &mut Vec<u8>)
    ensures
        final(out)@ == old(out)@ + spec_digits(n as int),
    decreases n,
{
    if n < 10 {
        out.push((n as u8) + ('0' as u8));
        assert(out@ =~= old(out)@ + spec_digits(n as int));
    } else {
        push_digits(n / 10, out);
        out.push(((n % 10) as u8) + ('0' as u8));
        assert(out@ =~= old(out)@ + spec_digits(n as int));
    }
}

/// Two-digit, zero-padded rendering of `n` (for `n` below one hundred).
pub open spec fn spec_2digits(n: int) -> Seq<u8>
    recommends
        0 <= n < 100,
{
    seq![((n / 10) + ('0' as u8)) as u8, ((n % 10) + ('0' as u8)) as u8]
}

/// Appends the zero-padded two-digit rendering of `n` to `out`.
pub fn push_2digits(n: u64, out: &mut Vec<u8>)
    requires
        n < 100,
    ensures
        final(out)@ == old(out)@ + spec_2digits(n as int),
{
    out.push(((n / 10) as u8) + ('0' as u8));
    out.push(((n % 10) as u8) + ('0' as u8));
    assert(out@ =~= old(out)@ + spec_2digits(n as int));
}

/// Parses a run of ASCII digits as a `u64`.
///
/// Returns the value exactly when the input is a non-empty, all-digit
/// string whose value fits in a `u64`; returns `None` otherwise.
pub fn parse_u64(s: &[u8]) -> (r: Option<u64>)
    ensures
        match r {
            Some(n) => s@.len() > 0 && all_digits(s@) && n == digits_val(s@),
            None => !(s@.len() > 0 && all_digits(s@) && digits_val(s@) <= u64::MAX),
        },
{
    if s.len() == 0 {
        return None;
    }
    let mut val: u64 = 0;
    let mut i: usize = 0;
    while i < s.len()
        invariant
            0 <= i <= s@.len(),
            all_digits(s@.subrange(0, i as int)),
            val == digits_val(s@.subrange(0, i as int)),
        decreases s@.len() - i,
    {
        let b = s[i];
        if b < ('0' as u8) || b > ('9' as u8) {
            assert(!is_digit(s@[i as int]));
            return None;
        }
        let d: u64 = (b - ('0' as u8)) as u64;
        proof {
            let p = s@.subrange(0, i as int);
            let q = s@.subrange(0, i + 1);
            assert(q.drop_last() =~= p);
            assert(q.last() == s@[i as int]);
            assert(digits_val(q) == digits_val(p) * 10 + d);
            assert(forall|j: int| 0 <= j < q.len() ==> is_digit(#[trigger] q[j]));
        }
        if val > (u64::MAX - d) / 10 {
            proof {
                if all_digits(s@) && digits_val(s@) <= u64::MAX {
                    assert(val * 10 + d > u64::MAX);
                    lemma_digits_val_prefix_le(s@, i + 1);
                    assert(false);
                }
            }
            return None;
        }
        assert(val * 10 + d <= u64::MAX);
        val = val * 10 + d;
        i = i + 1;
    }
    proof {
        assert(s@.subrange(0, s@.len() as int) =~= s@);
    }
    Some(val)
}

} // verus!
