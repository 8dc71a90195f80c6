//! Byte-level text utilities shared by the parsers: searching for a byte
//! or a byte pair, splitting a report into lines, splitting a line into
//! whitespace-separated tokens, and turning finished ASCII byte buffers
//! into `String`s.

use vstd::prelude::*;

use vstd::slice::{slice_subrange, slice_to_vec};

verus! {

/// The characters of an ASCII byte sequence, one char per byte.
pub open spec fn ascii_chars(s: Seq<u8>) -> Seq<char> {
    s.map_values(|b: u8| b as char)
}

/// All bytes of the sequence are ASCII.
pub open spec fn all_ascii(s: Seq<u8>) -> bool {
    forall|i: int| 0 <= i < s.len() ==> #[trigger] s[i] < 128
}

/// Relies on `String::from_utf8_lossy`: bytes below 0x80 decode
/// one-for-one to the characters with the same code points.
#[verifier::external_body]
pub fn ascii_to_string(bytes: &Vec<u8>) -> (r: String)
    requires
        all_ascii(bytes@),
    ensures
        r@ == ascii_chars(bytes@),
{
    String::from_utf8_lossy(bytes).into_owned()
}

/// Index of the first occurrence of `b` in `s`, or -1 when absent.
pub open spec fn spec_find(s: Seq<u8>, b: u8) -> int
    decreases s.len(),
{
    if s.len() == 0 {
        -1
    } else if s[0] == b {
        0
    } else {
        let r = spec_find(s.skip(1), b);
        if r == -1 {
            -1
        } else {
            r + 1
        }
    }
}

pub proof fn lemma_spec_find(s: Seq<u8>, b: u8)
    ensures
        spec_find(s, b) == -1 ==> forall|j: int| 0 <= j < s.len() ==> s[j] != b,
        spec_find(s, b) != -1 ==> {
            let i = spec_find(s, b);
            &&& 0 <= i < s.len()
            &&& s[i] == b
            &&& forall|j: int| 0 <= j < i ==> s[j] != b
        },
    decreases s.len(),
{
    if s.len() > 0 && s[0] != b {
        lemma_spec_find(s.skip(1), b);
        assert(forall|j: int| 1 <= j < s.len() ==> s[j] == s.skip(1)[j - 1]);
    }
}

/// The characterization pins `spec_find` down: a position that is an
/// occurrence preceded by no occurrence is the `spec_find` position.
pub proof fn lemma_spec_find_unique(s: Seq<u8>, b: u8, i: int)
    requires
        0 <= i < s.len(),
        s[i] == b,
        forall|j: int| 0 <= j < i ==> s[j] != b,
    ensures
        spec_find(s, b) == i,
    decreases s.len(),
{
    if i > 0 {
        assert(s[0] != b);
        assert(s.skip(1)[i - 1] == s[i]);
        assert(forall|j: int| 0 <= j < i - 1 ==> s.skip(1)[j] == s[j + 1]);
        lemma_spec_find_unique(s.skip(1), b, i - 1);
    }
}

pub proof fn lemma_spec_find_absent(s: Seq<u8>, b: u8)
    requires
        forall|j: int| 0 <= j < s.len() ==> s[j] != b,
    ensures
        spec_find(s, b) == -1,
    decreases s.len(),
{
    if s.len() > 0 {
        assert(forall|j: int| 0 <= j < s.skip(1).len() ==> s.skip(1)[j] == s[j + 1]);
        lemma_spec_find_absent(s.skip(1), b);
    }
}

/// First index of `b` in `s`, scanning left to right.
pub fn find_byte(s: &[u8], b: u8) -> (r: Option<usize>)
    ensures
        match r {
            Some(i) => spec_find(s@, b) == i,
            None => spec_find(s@, b) == -1,
        },
{
    let mut i: usize = 0;
    while i < s.len()
        invariant
            0 <= i <= s@.len(),
            forall|j: int| 0 <= j < i ==> s@[j] != b,
        decreases s@.len() - i,
    {
        if s[i] == b {
            proof {
                lemma_spec_find_unique(s@, b, i as int);
            }
            return Some(i);
        }
        i = i + 1;
    }
    proof {
        lemma_spec_find_absent(s@, b);
    }
    None
}

/// Index of the first occurrence of the byte pair `ab` in `s`, or -1.
pub open spec fn spec_find_pair(s: Seq<u8>, a: u8, b: u8) -> int
    decreases s.len(),
{
    if s.len() < 2 {
        -1
    } else if s[0] == a && s[1] == b {
        0
    } else {
        let r = spec_find_pair(s.skip(1), a, b);
        if r == -1 {
            -1
        } else {
            r + 1
        }
    }
}

pub proof fn lemma_spec_find_pair(s: Seq<u8>, a: u8, b: u8)
    ensures
        spec_find_pair(s, a, b) == -1 ==> forall|j: int|
            0 <= j < s.len() - 1 ==> !(#[trigger] s[j] == a && s[j + 1] == b),
        spec_find_pair(s, a, b) != -1 ==> {
            let i = spec_find_pair(s, a, b);
            &&& 0 <= i < s.len() - 1
            &&& s[i] == a
            &&& s[i + 1] == b
            &&& forall|j: int| 0 <= j < i ==> !(#[trigger] s[j] == a && s[j + 1] == b)
        },
    decreases s.len(),
{
    if s.len() >= 2 && !(s[0] == a && s[1] == b) {
        lemma_spec_find_pair(s.skip(1), a, b);
        assert(forall|j: int| 1 <= j < s.len() ==> s[j] == s.skip(1)[j - 1]);
    }
}

pub proof fn lemma_spec_find_pair_unique(s: Seq<u8>, a: u8, b: u8, i: int)
    requires
        0 <= i < s.len() - 1,
        s[i] == a,
        s[i + 1] == b,
        forall|j: int| 0 <= j < i ==> !(#[trigger] s[j] == a && s[j + 1] == b),
    ensures
        spec_find_pair(s, a, b) == i,
    decreases s.len(),
{
    if i > 0 {
        assert(!(s[0] == a && s[1] == b));
        assert(s.skip(1)[i - 1] == s[i]);
        assert(s.skip(1)[i] == s[i + 1]);
        assert(forall|j: int| 0 <= j < i - 1 ==> #[trigger] s.skip(1)[j] == s[j + 1]
            && s.skip(1)[j + 1] == s[j + 2]);
        lemma_spec_find_pair_unique(s.skip(1), a, b, i - 1);
    }
}

pub proof fn lemma_spec_find_pair_absent(s: Seq<u8>, a: u8, b: u8)
    requires
        forall|j: int| 0 <= j < s.len() - 1 ==> !(#[trigger] s[j] == a && s[j + 1] == b),
    ensures
        spec_find_pair(s, a, b) == -1,
    decreases s.len(),
{
    if s.len() >= 2 {
        assert(forall|j: int| 0 <= j < s.skip(1).len() - 1 ==> #[trigger] s.skip(1)[j] == s[j + 1]
            && s.skip(1)[j + 1] == s[j + 2]);
        lemma_spec_find_pair_absent(s.skip(1), a, b);
    }
}

/// First index of the two-byte pattern `ab`, scanning left to right.
pub fn find_pair(s: &[u8], a: u8, b: u8) -> (r: Option<usize>)
    ensures
        match r {
            Some(i) => spec_find_pair(s@, a, b) == i,
            None => spec_find_pair(s@, a, b) == -1,
        },
{
    if s.len() < 1 {
        proof {
            lemma_spec_find_pair_absent(s@, a, b);
        }
        return None;
    }
    let mut i: usize = 0;
    while i < s.len() - 1
        invariant
            s@.len() >= 1,
            0 <= i <= s@.len() - 1,
            forall|j: int| 0 <= j < i ==> !(#[trigger] s@[j] == a && s@[j + 1] == b),
        decreases s@.len() - i,
    {
        if s[i] == a && s[i + 1] == b {
            proof {
                lemma_spec_find_pair_unique(s@, a, b, i as int);
            }
            return Some(i);
        }
        i = i + 1;
    }
    proof {
        lemma_spec_find_pair_absent(s@, a, b);
    }
    None
}

/// ASCII whitespace, as it occurs in the fixed-column reports.
pub open spec fn is_ws(b: u8) -> bool {
    b == 32 || b == 9 || b == 10 || b == 13
}

/// The pieces of `s` between occurrences of the separator `c`, empty
/// pieces kept: the split of the empty sequence is one empty piece.
pub open spec fn spec_split(s: Seq<u8>, c: u8) -> Seq<Seq<u8>>
    decreases s.len(),
{
    if s.len() == 0 {
        seq![Seq::<u8>::empty()]
    } else if s[0] == c {
        seq![Seq::<u8>::empty()] + spec_split(s.skip(1), c)
    } else {
        let r = spec_split(s.skip(1), c);
        seq![seq![s[0]] + r[0]] + r.skip(1)
    }
}

pub proof fn lemma_spec_split_len(s: Seq<u8>, c: u8)
    ensures
        spec_split(s, c).len() >= 1,
    decreases s.len(),
{
    if s.len() > 0 {
        lemma_spec_split_len(s.skip(1), c);
    }
}

/// Unfolds `spec_split` by a whole piece at a time: the first piece runs
/// up to the first separator.
pub proof fn lemma_spec_split_chunk(s: Seq<u8>, c: u8)
    ensures
        spec_find(s, c) == -1 ==> spec_split(s, c) == seq![s],
        spec_find(s, c) >= 0 ==> spec_split(s, c) == seq![
            s.take(spec_find(s, c)),
        ] + spec_split(s.skip(spec_find(s, c) + 1), c),
    decreases s.len(),
{
    lemma_spec_find(s, c);
    if s.len() == 0 {
        assert(s =~= Seq::<u8>::empty());
        assert(spec_split(s, c) =~= seq![s]);
    } else if s[0] == c {
        assert(s.take(0) =~= Seq::<u8>::empty());
        assert(spec_split(s, c) =~= seq![s.take(0)] + spec_split(s.skip(1), c));
    } else {
        lemma_spec_split_chunk(s.skip(1), c);
        lemma_spec_split_len(s.skip(1), c);
        lemma_spec_find(s.skip(1), c);
        let f = spec_find(s, c);
        if f == -1 {
            assert(spec_find(s.skip(1), c) == -1);
            assert(seq![s[0]] + s.skip(1) =~= s);
            assert(spec_split(s, c) =~= seq![s]);
        } else {
            assert(spec_find(s.skip(1), c) == f - 1);
            let r = spec_split(s.skip(1), c);
            assert(r == seq![s.skip(1).take(f - 1)] + spec_split(s.skip(1).skip(f), c));
            assert(r[0] == s.skip(1).take(f - 1));
            assert(seq![s[0]] + s.skip(1).take(f - 1) =~= s.take(f));
            assert(s.skip(1).skip(f) =~= s.skip(f + 1));
            assert(r.skip(1) =~= spec_split(s.skip(f + 1), c));
            assert(spec_split(s, c) =~= seq![s.take(f)] + spec_split(s.skip(f + 1), c));
        }
    }
}

/// Splits `s` at every occurrence of `c`, keeping empty pieces.
pub fn split_byte(s: &[u8], c: u8) -> (r: Vec<Vec<u8>>)
    ensures
        r.deep_view() == spec_split(s@, c),
{
    let mut out: Vec<Vec<u8>> = Vec::new();
    let mut pos: usize = 0;
    proof {
        assert(s@.skip(0) =~= s@);
    }
    loop
        invariant
            0 <= pos <= s@.len(),
            spec_split(s@, c) == out.deep_view() + spec_split(s@.skip(pos as int), c),
        decreases s@.len() - pos + 1,
    {
        let rest = slice_subrange(s, pos, s.len());
        let ghost t = s@.skip(pos as int);
        proof {
            assert(rest@ =~= t);
        }
        match find_byte(rest, c) {
            Some(i) => {
                proof {
                    lemma_spec_find(t, c);
                }
                let piece = slice_to_vec(slice_subrange(rest, 0, i));
                let ghost prev = out.deep_view();
                out.push(piece);
                proof {
                    lemma_spec_split_chunk(t, c);
                    assert(piece@ =~= t.take(i as int));
                    assert(out.deep_view() =~~= prev + seq![t.take(i as int)]);
                    assert(t.skip(i + 1) =~= s@.skip(pos + i + 1));
                    assert(spec_split(s@, c) =~= out.deep_view() + spec_split(
                        s@.skip(pos + i + 1),
                        c,
                    ));
                }
                pos = pos + i + 1;
            },
            None => {
                let piece = slice_to_vec(rest);
                let ghost prev = out.deep_view();
                out.push(piece);
                proof {
                    lemma_spec_split_chunk(t, c);
                    assert(out.deep_view() =~~= prev + seq![t]);
                    assert(out.deep_view() =~= spec_split(s@, c));
                }
                return out;
            },
        }
    }
}

/// A line with the carriage return of a `\r\n` terminator removed.
pub open spec fn strip_cr(l: Seq<u8>) -> Seq<u8> {
    if l.len() > 0 && l.last() == 13 {
        l.drop_last()
    } else {
        l
    }
}

pub open spec fn strip_crs(ls: Seq<Seq<u8>>) -> Seq<Seq<u8>> {
    ls.map_values(|l: Seq<u8>| strip_cr(l))
}

/// The lines of a text: the pieces between newline bytes, each stripped
/// of a trailing carriage return, with the empty piece after a final
/// newline dropped.
pub open spec fn spec_lines(s: Seq<u8>) -> Seq<Seq<u8>> {
    let parts = spec_split(s, 10);
    let main = strip_crs(parts.take(parts.len() - 1));
    if parts.last().len() == 0 {
        main
    } else {
        main + seq![parts.last()]
    }
}

/// Splits a report into its lines.
pub fn split_lines(s: &[u8]) -> (r: Vec<Vec<u8>>)
    ensures
        r.deep_view() == spec_lines(s@),
{
    proof {
        lemma_spec_split_len(s@, 10);
    }
    let parts = split_byte(s, 10);
    let ghost pv = parts.deep_view();
    let n = parts.len();
    let mut out: Vec<Vec<u8>> = Vec::new();
    let mut i: usize = 0;
    while i < n - 1
        invariant
            n == pv.len(),
            n == parts@.len(),
            n >= 1,
            0 <= i <= n - 1,
            pv == parts.deep_view(),
            pv == spec_split(s@, 10),
            out.deep_view() == strip_crs(pv.take(i as int)),
        decreases n - i,
    {
        let p = &parts[i];
        let m = p.len();
        let piece = if m > 0 && p[m - 1] == 13 {
            slice_to_vec(slice_subrange(p.as_slice(), 0, m - 1))
        } else {
            slice_to_vec(p.as_slice())
        };
        proof {
            assert(pv[i as int] == parts@[i as int]@);
            assert(piece@ =~= strip_cr(pv[i as int]));
        }
        let ghost prev = out.deep_view();
        out.push(piece);
        proof {
            assert(out.deep_view() =~~= prev + seq![strip_cr(pv[i as int])]);
            assert(out.deep_view() =~= strip_crs(pv.take(i + 1)));
        }
        i = i + 1;
    }
    let p = &parts[n - 1];
    if p.len() == 0 {
        proof {
            assert(pv.last().len() == 0);
            assert(out.deep_view() =~= spec_lines(s@));
        }
        out
    } else {
        let piece = slice_to_vec(p.as_slice());
        let ghost prev = out.deep_view();
        out.push(piece);
        proof {
            assert(out.deep_view() =~~= prev + seq![pv.last()]);
            assert(out.deep_view() =~= spec_lines(s@));
        }
        out
    }
}

/// Executable test for `is_ws`.
pub fn is_ws_byte(b: u8) -> (r: bool)
    ensures
        r == is_ws(b),
{
    b == 32 || b == 9 || b == 10 || b == 13
}

/// The whitespace-separated tokens of `s`, in order, no empty tokens.
pub open spec fn spec_tokens(s: Seq<u8>) -> Seq<Seq<u8>>
    decreases s.len(),
{
    if s.len() == 0 {
        seq![]
    } else if is_ws(s[0]) {
        spec_tokens(s.skip(1))
    } else {
        let r = spec_tokens(s.skip(1));
        if s.len() >= 2 && !is_ws(s[1]) {
            seq![seq![s[0]] + r[0]] + r.skip(1)
        } else {
            seq![seq![s[0]]] + r
        }
    }
}

/// A sequence of only whitespace has no tokens.
pub proof fn lemma_tokens_all_ws(s: Seq<u8>)
    requires
        forall|j: int| 0 <= j < s.len() ==> is_ws(#[trigger] s[j]),
    ensures
        spec_tokens(s) == Seq::<Seq<u8>>::empty(),
    decreases s.len(),
{
    if s.len() > 0 {
        assert(forall|j: int| 0 <= j < s.skip(1).len() ==> is_ws(#[trigger] s.skip(1)[j]));
        lemma_tokens_all_ws(s.skip(1));
    }
    assert(spec_tokens(s) =~= Seq::<Seq<u8>>::empty());
}

/// Unfolds `spec_tokens` by a whole token: a run of whitespace followed
/// by a maximal run of non-whitespace yields that run as the first token.
pub proof fn lemma_tokens_step(s: Seq<u8>, w: int, e: int)
    requires
        0 <= w < e <= s.len(),
        forall|j: int| 0 <= j < w ==> is_ws(#[trigger] s[j]),
        forall|j: int| w <= j < e ==> !is_ws(#[trigger] s[j]),
        e == s.len() || is_ws(s[e]),
    ensures
        spec_tokens(s) == seq![s.subrange(w, e)] + spec_tokens(s.skip(e)),
    decreases s.len(),
{
    let t = s.skip(1);
    assert(forall|j: int| 0 <= j < t.len() ==> t[j] == s[j + 1]);
    if w > 0 {
        lemma_tokens_step(t, w - 1, e - 1);
        assert(t.subrange(w - 1, e - 1) =~= s.subrange(w, e));
        assert(t.skip(e - 1) =~= s.skip(e));
    } else {
        // s[0] begins the token
        if e == 1 {
            if s.len() >= 2 {
                assert(is_ws(s[1]));
                assert(spec_tokens(s) == seq![seq![s[0]]] + spec_tokens(t));
                assert(seq![s[0]] =~= s.subrange(0, 1));
                assert(t.skip(0) =~= s.skip(1));
                assert(spec_tokens(s) =~= seq![s.subrange(w, e)] + spec_tokens(s.skip(e)));
            } else {
                assert(seq![s[0]] =~= s.subrange(0, 1));
                assert(s.skip(1).len() == 0);
                assert(spec_tokens(s) =~= seq![s.subrange(w, e)] + spec_tokens(s.skip(e)));
            }
        } else {
            // the token continues at index 1
            assert(!is_ws(s[1]));
            lemma_tokens_step(t, 0, e - 1);
            let r = spec_tokens(t);
            assert(r == seq![t.subrange(0, e - 1)] + spec_tokens(t.skip(e - 1)));
            assert(r[0] == t.subrange(0, e - 1));
            assert(seq![s[0]] + t.subrange(0, e - 1) =~= s.subrange(0, e));
            assert(r.skip(1) =~= spec_tokens(t.skip(e - 1)));
            assert(t.skip(e - 1) =~= s.skip(e));
            assert(spec_tokens(s) =~= seq![s.subrange(w, e)] + spec_tokens(s.skip(e)));
        }
    }
}

/// Splits a line into its whitespace-separated tokens.
pub fn tokenize(s: &[u8]) -> (r: Vec<Vec<u8>>)
    ensures
        r.deep_view() == spec_tokens(s@),
{
    let mut out: Vec<Vec<u8>> = Vec::new();
    let mut pos: usize = 0;
    proof {
        assert(s@.skip(0) =~= s@);
    }
    while pos < s.len()
        invariant
            0 <= pos <= s@.len(),
            spec_tokens(s@) == out.deep_view() + spec_tokens(s@.skip(pos as int)),
        decreases s@.len() - pos,
    {
        let ghost t = s@.skip(pos as int);
        // skip the whitespace run
        let mut w: usize = pos;
        while w < s.len() && is_ws_byte(s[w])
            invariant
                pos <= w <= s@.len(),
                forall|j: int| pos <= j < w ==> is_ws(#[trigger] s@[j]),
            decreases s@.len() - w,
        {
            w = w + 1;
        }
        if w == s.len() {
            proof {
                assert(forall|j: int| 0 <= j < t.len() ==> is_ws(#[trigger] t[j]));
                lemma_tokens_all_ws(t);
                assert(out.deep_view() =~= spec_tokens(s@));
            }
            return out;
        }
        // scan the token
        let mut e: usize = w;
        while e < s.len() && !is_ws_byte(s[e])
            invariant
                w <= e <= s@.len(),
                forall|j: int| w <= j < e ==> !is_ws(#[trigger] s@[j]),
            decreases s@.len() - e,
        {
            e = e + 1;
        }
        let token = slice_to_vec(slice_subrange(s, w, e));
        let ghost prev = out.deep_view();
        out.push(token);
        proof {
            lemma_tokens_step(t, w - pos, e - pos);
            assert(t.subrange(w - pos, e - pos) =~= s@.subrange(w as int, e as int));
            assert(t.skip(e - pos) =~= s@.skip(e as int));
            assert(out.deep_view() =~~= prev + seq![s@.subrange(w as int, e as int)]);
            assert(spec_tokens(s@) =~= out.deep_view() + spec_tokens(s@.skip(e as int)));
        }
        pos = e;
    }
    proof {
        assert(spec_tokens(s@.skip(pos as int)) =~= Seq::<Seq<u8>>::empty());
        assert(out.deep_view() =~= spec_tokens(s@));
    }
    out
}

/// `s` without leading whitespace.
pub open spec fn trim_front(s: Seq<u8>) -> Seq<u8>
    decreases s.len(),
{
    if s.len() > 0 && is_ws(s[0]) {
        trim_front(s.skip(1))
    } else {
        s
    }
}

/// `s` without trailing whitespace.
pub open spec fn trim_back(s: Seq<u8>) -> Seq<u8>
    decreases s.len(),
{
    if s.len() > 0 && is_ws(s.last()) {
        trim_back(s.drop_last())
    } else {
        s
    }
}

/// `s` without leading and trailing whitespace.
pub open spec fn spec_trim(s: Seq<u8>) -> Seq<u8> {
    trim_back(trim_front(s))
}

pub proof fn lemma_trim_front_skip(s: Seq<u8>, a: int)
    requires
        0 <= a <= s.len(),
        forall|j: int| 0 <= j < a ==> is_ws(#[trigger] s[j]),
        a == s.len() || !is_ws(s[a]),
    ensures
        trim_front(s) == s.skip(a),
    decreases a,
{
    if a > 0 {
        let t = s.skip(1);
        assert(forall|j: int| 0 <= j < t.len() ==> t[j] == s[j + 1]);
        lemma_trim_front_skip(t, a - 1);
        assert(t.skip(a - 1) =~= s.skip(a));
    } else {
        assert(s.skip(0) =~= s);
    }
}

pub proof fn lemma_trim_back_take(s: Seq<u8>, b: int)
    requires
        0 <= b <= s.len(),
        forall|j: int| b <= j < s.len() ==> is_ws(#[trigger] s[j]),
        b == 0 || !is_ws(s[b - 1]),
    ensures
        trim_back(s) == s.take(b),
    decreases s.len() - b,
{
    if b < s.len() {
        let t = s.drop_last();
        assert(forall|j: int| 0 <= j < t.len() ==> t[j] == s[j]);
        lemma_trim_back_take(t, b);
        assert(t.take(b) =~= s.take(b));
    } else {
        assert(s.take(b) =~= s);
    }
}

/// Removes leading and trailing whitespace.
pub fn trim(s: &[u8]) -> (r: Vec<u8>)
    ensures
        r@ == spec_trim(s@),
{
    let mut a: usize = 0;
    while a < s.len() && is_ws_byte(s[a])
        invariant
            0 <= a <= s@.len(),
            forall|j: int| 0 <= j < a ==> is_ws(#[trigger] s@[j]),
        decreases s@.len() - a,
    {
        a = a + 1;
    }
    proof {
        lemma_trim_front_skip(s@, a as int);
    }
    if a == s.len() {
        let r: Vec<u8> = Vec::new();
        proof {
            assert(s@.skip(a as int).len() == 0);
            assert(r@ =~= spec_trim(s@));
        }
        return r;
    }
    let mut b: usize = s.len();
    while b > a && is_ws_byte(s[b - 1])
        invariant
            a <= b <= s@.len(),
            forall|j: int| b <= j < s@.len() ==> is_ws(#[trigger] s@[j]),
        decreases b,
    {
        b = b - 1;
    }
    let r = slice_to_vec(slice_subrange(s, a, b));
    proof {
        let t = s@.skip(a as int);
        assert(forall|j: int| 0 <= j < t.len() ==> t[j] == s@[j + a]);
        lemma_trim_back_take(t, b - a);
        assert(t.take(b - a) =~= s@.subrange(a as int, b as int));
    }
    r
}

} // verus!
