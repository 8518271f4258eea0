//! Byte-sequence helpers shared by the protocol code: ASCII whitespace
//! trimming, splitting on a delimiter byte, and whitespace tokenization.

use vstd::prelude::*;

verus! {

/// ASCII whitespace, as the protocol understands it.
pub open spec fn is_ws(b: u8) -> bool {
    b == 32 || b == 9 || b == 10 || b == 11 || b == 12 || b == 13
}

/// Executable twin of `is_ws`.
pub fn byte_is_ws(b: u8) -> (r: bool)
    ensures
        r == is_ws(b),
{
    b == 32 || b == 9 || b == 10 || b == 11 || b == 12 || b == 13
}

/// The sequence with leading ASCII whitespace removed.
pub open spec fn trim_start_spec(s: Seq<u8>) -> Seq<u8>
    decreases s.len(),
{
    if s.len() > 0 && is_ws(s[0]) {
        trim_start_spec(s.skip(1))
    } else {
        s
    }
}

/// The sequence with trailing ASCII whitespace removed.
pub open spec fn trim_end_spec(s: Seq<u8>) -> Seq<u8>
    decreases s.len(),
{
    if s.len() > 0 && is_ws(s.last()) {
        trim_end_spec(s.drop_last())
    } else {
        s
    }
}

/// The sequence with whitespace removed from both ends.
pub open spec fn trim_spec(s: Seq<u8>) -> Seq<u8> {
    trim_end_spec(trim_start_spec(s))
}

proof fn lemma_trim_start_skip(s: Seq<u8>, i: int)
    requires
        0 <= i <= s.len(),
        forall|k: int| 0 <= k < i ==> is_ws(s[k]),
        i < s.len() ==> !is_ws(s[i]),
    ensures
        trim_start_spec(s) == s.skip(i),
    decreases i,
{
    if i == 0 {
        if s.len() > 0 && is_ws(s[0]) {
        } else {
            assert(s.skip(0) =~= s);
        }
    } else {
        assert(is_ws(s[0]));
        lemma_trim_start_skip(s.skip(1), i - 1);
        assert(s.skip(1).skip(i - 1) =~= s.skip(i));
    }
}

proof fn lemma_trim_end_take(s: Seq<u8>, j: int)
    requires
        0 <= j <= s.len(),
        forall|k: int| j <= k < s.len() ==> is_ws(s[k]),
        j > 0 ==> !is_ws(s[j - 1]),
    ensures
        trim_end_spec(s) == s.take(j),
    decreases s.len() - j,
{
    if j == s.len() {
        if s.len() > 0 && is_ws(s.last()) {
        } else {
            assert(s.take(j) =~= s);
        }
    } else {
        assert(is_ws(s.last()));
        lemma_trim_end_take(s.drop_last(), j);
        assert(s.drop_last().take(j) =~= s.take(j));
    }
}

/// Copy of `s` with ASCII whitespace removed from both ends.
pub fn trim_bytes(s: &[u8]) -> (r: Vec<u8>)
    ensures
        r@ == trim_spec(s@),
{
    let n: usize = s.len();
    let mut i: usize = 0;
    while i < n && byte_is_ws(s[i])
        invariant
            n == s@.len(),
            0 <= i <= n,
            forall|k: int| 0 <= k < i ==> is_ws(s@[k]),
        decreases n - i,
    {
        i = i + 1;
    }
    proof {
        lemma_trim_start_skip(s@, i as int);
    }
    let mut j: usize = n;
    while j > i && byte_is_ws(s[j - 1])
        invariant
            n == s@.len(),
            i <= j <= n,
            forall|k: int| 0 <= k < i ==> is_ws(s@[k]),
            i < n ==> !is_ws(s@[i as int]),
            forall|k: int| j <= k < n ==> is_ws(s@[k]),
        decreases j,
    {
        j = j - 1;
    }
    let mut out: Vec<u8> = Vec::new();
    let mut k: usize = i;
    while k < j
        invariant
            n == s@.len(),
            i <= k <= j <= n,
            out@ == s@.subrange(i as int, k as int),
        decreases j - k,
    {
        out.push(s[k]);
        proof {
            assert(out@ =~= s@.subrange(i as int, k + 1));
        }
        k = k + 1;
    }
    proof {
        let st = trim_start_spec(s@);
        assert(st == s@.skip(i as int));
        if j == i {
            lemma_trim_end_take(st, 0);
        } else {
            assert(!is_ws(s@[j - 1]));
            lemma_trim_end_take(st, j - i);
        }
        assert(st.take(j - i) =~= s@.subrange(i as int, j as int));
        assert(out@ =~= s@.subrange(i as int, j as int));
    }
    out
}

/// True exactly when the two slices hold the same bytes.
pub fn eq_bytes(a: &[u8], b: &[u8]) -> (r: bool)
    ensures
        r == (a@ == b@),
{
    if a.len() != b.len() {
        assert(a@ != b@);
        return false;
    }
    let n: usize = a.len();
    let mut i: usize = 0;
    while i < n
        invariant
            n == a@.len(),
            n == b@.len(),
            0 <= i <= n,
            forall|k: int| 0 <= k < i ==> a@[k] == b@[k],
        decreases n - i,
    {
        if a[i] != b[i] {
            assert(a@ != b@);
            return false;
        }
        i = i + 1;
    }
    proof {
        assert(a@ =~= b@);
    }
    true
}

/// Length of the longest prefix of `s` free of the byte `d`.
pub open spec fn seg_len(s: Seq<u8>, d: u8) -> int
    decreases s.len(),
{
    if s.len() == 0 || s[0] == d {
        0
    } else {
        1 + seg_len(s.skip(1), d)
    }
}

pub proof fn lemma_seg_len_bounds(s: Seq<u8>, d: u8)
    ensures
        0 <= seg_len(s, d) <= s.len(),
        forall|k: int| 0 <= k < seg_len(s, d) ==> s[k] != d,
        seg_len(s, d) < s.len() ==> s[seg_len(s, d)] == d,
    decreases s.len(),
{
    if s.len() == 0 || s[0] == d {
    } else {
        lemma_seg_len_bounds(s.skip(1), d);
        assert forall|k: int| 0 <= k < seg_len(s, d) implies s[k] != d by {
            if k > 0 {
                assert(s.skip(1)[k - 1] != d);
            }
        }
    }
}

/// Pins `seg_len` down from a scan that found the first occurrence.
pub proof fn lemma_seg_len_is(s: Seq<u8>, d: u8, i: int)
    requires
        0 <= i <= s.len(),
        forall|k: int| 0 <= k < i ==> s[k] != d,
        i < s.len() ==> s[i] == d,
    ensures
        seg_len(s, d) == i,
    decreases i,
{
    if i == 0 {
    } else {
        lemma_seg_len_is(s.skip(1), d, i - 1);
    }
}

/// `s` split on every occurrence of `d`; empty segments are kept,
/// as `str::split` keeps them.
pub open spec fn split_on(s: Seq<u8>, d: u8) -> Seq<Seq<u8>>
    decreases s.len(),
    via split_on_decreases
{
    if seg_len(s, d) == s.len() {
        seq![s]
    } else {
        seq![s.take(seg_len(s, d))] + split_on(s.skip(seg_len(s, d) + 1), d)
    }
}

#[via_fn]
proof fn split_on_decreases(s: Seq<u8>, d: u8) {
    lemma_seg_len_bounds(s, d);
}

/// Copy of the byte range `start..end` of `s`.
pub fn copy_range(s: &[u8], start: usize, end: usize) -> (r: Vec<u8>)
    requires
        start <= end <= s@.len(),
    ensures
        r@ == s@.subrange(start as int, end as int),
{
    let mut out: Vec<u8> = Vec::new();
    let mut k: usize = start;
    while k < end
        invariant
            start <= k <= end <= s@.len(),
            out@ == s@.subrange(start as int, k as int),
        decreases end - k,
    {
        out.push(s[k]);
        proof {
            assert(out@ =~= s@.subrange(start as int, k + 1));
        }
        k = k + 1;
    }
    out
}

/// `s` split on `d`, as freshly allocated segments.
pub fn split_bytes(s: &[u8], d: u8) -> (r: Vec<Vec<u8>>)
    ensures
        r.deep_view() == split_on(s@, d),
{
    let n: usize = s.len();
    let mut out: Vec<Vec<u8>> = Vec::new();
    let mut start: usize = 0;
    let mut i: usize = 0;
    proof {
        assert(s@.skip(0) =~= s@);
        assert(out.deep_view() + split_on(s@, d) =~= split_on(s@, d));
    }
    loop
        invariant
            n == s@.len(),
            0 <= start <= i <= n,
            forall|k: int| start <= k < i ==> s@[k] != d,
            split_on(s@, d) == out.deep_view() + split_on(s@.skip(start as int), d),
        decreases n - i,
    {
        if i == n || s[i] == d {
            let seg = copy_range(s, start, i);
            proof {
                lemma_seg_len_is(s@.skip(start as int), d, i - start);
                assert(s@.skip(start as int).take(i - start) =~= s@.subrange(
                    start as int,
                    i as int,
                ));
            }
            let ghost prev = out.deep_view();
            out.push(seg);
            proof {
                assert(out.deep_view() =~~= prev.push(seg@));
            }
            if i == n {
                proof {
                    assert(s@.skip(start as int) =~= s@.subrange(start as int, i as int));
                    assert(split_on(s@.skip(start as int), d) == seq![s@.skip(start as int)]);
                    assert(out.deep_view() =~~= split_on(s@, d));
                }
                return out;
            } else {
                proof {
                    assert(s@.skip(start as int).skip(i + 1 - start) =~= s@.skip(i + 1));
                    assert(split_on(s@.skip(start as int), d) == seq![
                        s@.subrange(start as int, i as int),
                    ] + split_on(s@.skip(i + 1), d));
                    assert(out.deep_view() + split_on(s@.skip(i + 1), d) =~~= split_on(s@, d));
                }
                start = i + 1;
                i = i + 1;
            }
        } else {
            i = i + 1;
        }
    }
}

} // verus!

verus! {

/// Length of the longest whitespace-free prefix of `s`.
pub open spec fn token_len(s: Seq<u8>) -> int
    decreases s.len(),
{
    if s.len() == 0 || is_ws(s[0]) {
        0
    } else {
        1 + token_len(s.skip(1))
    }
}

pub proof fn lemma_token_len_bounds(s: Seq<u8>)
    ensures
        0 <= token_len(s) <= s.len(),
        forall|k: int| 0 <= k < token_len(s) ==> !is_ws(s[k]),
        token_len(s) < s.len() ==> is_ws(s[token_len(s)]),
    decreases s.len(),
{
    if s.len() == 0 || is_ws(s[0]) {
    } else {
        lemma_token_len_bounds(s.skip(1));
        assert forall|k: int| 0 <= k < token_len(s) implies !is_ws(s[k]) by {
            if k > 0 {
                assert(!is_ws(s.skip(1)[k - 1]));
            }
        }
    }
}

/// Pins `token_len` down from a scan that found the first whitespace byte.
pub proof fn lemma_token_len_is(s: Seq<u8>, i: int)
    requires
        0 <= i <= s.len(),
        forall|k: int| 0 <= k < i ==> !is_ws(s[k]),
        i < s.len() ==> is_ws(s[i]),
    ensures
        token_len(s) == i,
    decreases i,
{
    if i == 0 {
    } else {
        lemma_token_len_is(s.skip(1), i - 1);
    }
}

/// The whitespace-separated tokens of `s`, in order; runs of whitespace
/// separate tokens and produce no empty ones, as `str::split_whitespace`.
pub open spec fn tokens(s: Seq<u8>) -> Seq<Seq<u8>>
    decreases s.len(),
    via tokens_decreases
{
    if s.len() == 0 {
        Seq::empty()
    } else if is_ws(s[0]) {
        tokens(s.skip(1))
    } else {
        seq![s.take(token_len(s))] + tokens(s.skip(token_len(s)))
    }
}

#[via_fn]
proof fn tokens_decreases(s: Seq<u8>) {
    lemma_token_len_bounds(s);
}

/// The whitespace-separated tokens of `s`, as freshly allocated segments.
pub fn tokenize(s: &[u8]) -> (r: Vec<Vec<u8>>)
    ensures
        r.deep_view() == tokens(s@),
{
    let n: usize = s.len();
    let mut out: Vec<Vec<u8>> = Vec::new();
    let mut i: usize = 0;
    proof {
        assert(s@.skip(0) =~= s@);
        assert(out.deep_view() + tokens(s@) =~= tokens(s@));
    }
    while i < n
        invariant
            n == s@.len(),
            0 <= i <= n,
            tokens(s@) == out.deep_view() + tokens(s@.skip(i as int)),
        decreases n - i,
    {
        if byte_is_ws(s[i]) {
            proof {
                assert(s@.skip(i as int).skip(1) =~= s@.skip(i + 1));
            }
            i = i + 1;
        } else {
            let mut j: usize = i;
            while j < n && !byte_is_ws(s[j])
                invariant
                    n == s@.len(),
                    i <= j <= n,
                    forall|k: int| i <= k < j ==> !is_ws(s@[k]),
                decreases n - j,
            {
                j = j + 1;
            }
            let seg = copy_range(s, i, j);
            let ghost prev = out.deep_view();
            out.push(seg);
            proof {
                lemma_token_len_is(s@.skip(i as int), j - i);
                assert(s@.skip(i as int).take(j - i) =~= s@.subrange(i as int, j as int));
                assert(s@.skip(i as int).skip(j - i) =~= s@.skip(j as int));
                assert(out.deep_view() =~~= prev.push(seg@));
                assert(out.deep_view() + tokens(s@.skip(j as int)) =~~= prev + tokens(
                    s@.skip(i as int),
                ));
            }
            i = j;
        }
    }
    proof {
        assert(s@.skip(n as int) =~= Seq::<u8>::empty());
        assert(out.deep_view() + tokens(s@.skip(n as int)) =~~= out.deep_view());
    }
    out
}

} // verus!

verus! {

/// The sequence with every trailing occurrence of `b` removed.
pub open spec fn strip_trailing(s: Seq<u8>, b: u8) -> Seq<u8>
    decreases s.len(),
{
    if s.len() > 0 && s.last() == b {
        strip_trailing(s.drop_last(), b)
    } else {
        s
    }
}

pub proof fn lemma_strip_trailing_take(s: Seq<u8>, b: u8, j: int)
    requires
        0 <= j <= s.len(),
        forall|k: int| j <= k < s.len() ==> s[k] == b,
        j > 0 ==> s[j - 1] != b,
    ensures
        strip_trailing(s, b) == s.take(j),
    decreases s.len() - j,
{
    if j == s.len() {
        if s.len() > 0 && s.last() == b {
        } else {
            assert(s.take(j) =~= s);
        }
    } else {
        assert(s.last() == b);
        lemma_strip_trailing_take(s.drop_last(), b, j);
        assert(s.drop_last().take(j) =~= s.take(j));
    }
}

/// Copy of `s` with every trailing occurrence of `b` removed.
pub fn strip_trailing_bytes(s: &[u8], b: u8) -> (r: Vec<u8>)
    ensures
        r@ == strip_trailing(s@, b),
{
    let n: usize = s.len();
    let mut j: usize = n;
    while j > 0 && s[j - 1] == b
        invariant
            n == s@.len(),
            0 <= j <= n,
            forall|k: int| j <= k < n ==> s@[k] == b,
        decreases j,
    {
        j = j - 1;
    }
    proof {
        lemma_strip_trailing_take(s@, b, j as int);
    }
    copy_range(s, 0, j)
}

/// One raw line without its line feed, with one trailing carriage return
/// removed, as `str::lines` strips it.
pub open spec fn strip_one_cr(l: Seq<u8>) -> Seq<u8> {
    if l.len() > 0 && l.last() == 13 {
        l.drop_last()
    } else {
        l
    }
}

/// The lines of `s`, as `str::lines` yields them: split on line feeds, no
/// empty line after a trailing line feed, one trailing carriage return
/// stripped from each line.
pub open spec fn line_seq(s: Seq<u8>) -> Seq<Seq<u8>> {
    if s.len() == 0 {
        Seq::empty()
    } else if s.last() == 10 {
        split_on(s.drop_last(), 10).map_values(|l: Seq<u8>| strip_one_cr(l))
    } else {
        split_on(s, 10).map_values(|l: Seq<u8>| strip_one_cr(l))
    }
}

/// The lines of `s`, as freshly allocated segments.
pub fn lines_bytes(s: &[u8]) -> (r: Vec<Vec<u8>>)
    ensures
        r.deep_view() == line_seq(s@),
{
    let n: usize = s.len();
    if n == 0 {
        let out: Vec<Vec<u8>> = Vec::new();
        proof {
            assert(out.deep_view() =~~= line_seq(s@));
        }
        return out;
    }
    let raw: Vec<Vec<u8>> = if s[n - 1] == 10 {
        let head: &[u8] = &s[0..n - 1];
        proof {
            assert(head@ =~= s@.drop_last());
        }
        split_bytes(head, 10)
    } else {
        split_bytes(s, 10)
    };
    let ghost target = line_seq(s@);
    proof {
        assert(target =~= raw.deep_view().map_values(|l: Seq<u8>| strip_one_cr(l)));
    }
    let m: usize = raw.len();
    let mut out: Vec<Vec<u8>> = Vec::new();
    let mut i: usize = 0;
    while i < m
        invariant
            m == raw@.len(),
            target == raw.deep_view().map_values(|l: Seq<u8>| strip_one_cr(l)),
            0 <= i <= m,
            out.deep_view() =~~= target.take(i as int),
        decreases m - i,
    {
        let l: &Vec<u8> = &raw[i];
        let stripped: Vec<u8> = if l.len() > 0 && l[l.len() - 1] == 13 {
            copy_range(l.as_slice(), 0, l.len() - 1)
        } else {
            copy_range(l.as_slice(), 0, l.len())
        };
        proof {
            assert(raw.deep_view()[i as int] =~= raw@[i as int]@);
            assert(stripped@ =~= strip_one_cr(raw.deep_view()[i as int]));
        }
        let ghost prev = out.deep_view();
        out.push(stripped);
        proof {
            assert(out.deep_view() =~~= prev.push(stripped@));
            assert(out.deep_view() =~~= target.take(i + 1));
        }
        i = i + 1;
    }
    proof {
        assert(target.take(m as int) =~~= target);
        assert(out.deep_view() =~~= target);
    }
    out
}

} // verus!
