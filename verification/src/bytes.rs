//! Byte-sequence helpers: prefix/suffix tests, substring search, trimming,
//! quoted-value extraction and concatenation, each proved against a direct
//! mathematical statement over `Seq<u8>`.
use vstd::prelude::*;
use vstd::slice::{slice_subrange, slice_to_vec};

verus! {

/// `s` begins with `p`.
pub open spec fn spec_has_prefix(s: Seq<u8>, p: Seq<u8>) -> bool {
    s.len() >= p.len() && s.subrange(0, p.len() as int) == p
}

/// `s` ends with `p`.
pub open spec fn spec_has_suffix(s: Seq<u8>, p: Seq<u8>) -> bool {
    s.len() >= p.len() && s.subrange(s.len() - p.len(), s.len() as int) == p
}

/// `sub` occurs somewhere inside `s`.
pub open spec fn spec_contains_sub(s: Seq<u8>, sub: Seq<u8>) -> bool {
    exists|k: int| 0 <= k && k + sub.len() <= s.len() && #[trigger] s.subrange(k, k + sub.len())
        == sub
}

/// `s` with its longest prefix of bytes satisfying `p` removed.
pub open spec fn spec_drop_leading(s: Seq<u8>, p: spec_fn(u8) -> bool) -> Seq<u8>
    decreases s.len(),
{
    if s.len() > 0 && p(s[0]) {
        spec_drop_leading(s.drop_first(), p)
    } else {
        s
    }
}

/// `s` with its longest suffix of bytes satisfying `p` removed.
pub open spec fn spec_drop_trailing(s: Seq<u8>, p: spec_fn(u8) -> bool) -> Seq<u8>
    decreases s.len(),
{
    if s.len() > 0 && p(s[s.len() - 1]) {
        spec_drop_trailing(s.drop_last(), p)
    } else {
        s
    }
}

/// ASCII whitespace, as line trimming understands it.
pub open spec fn spec_is_ws(b: u8) -> bool {
    b == 32 || b == 9 || b == 10 || b == 11 || b == 12 || b == 13
}

/// `s` with leading and trailing ASCII whitespace removed.
pub open spec fn spec_trim(s: Seq<u8>) -> Seq<u8> {
    spec_drop_trailing(spec_drop_leading(s, |b: u8| spec_is_ws(b)), |b: u8| spec_is_ws(b))
}

/// Everything after the first occurrence of `c` in `s`; empty if `c` does not occur.
pub open spec fn spec_after_first(s: Seq<u8>, c: u8) -> Seq<u8>
    decreases s.len(),
{
    if s.len() == 0 {
        s
    } else if s[0] == c {
        s.drop_first()
    } else {
        spec_after_first(s.drop_first(), c)
    }
}

pub proof fn lemma_drop_leading_subrange(s: Seq<u8>, p: spec_fn(u8) -> bool, k: int)
    requires
        0 <= k <= s.len(),
        forall|j: int| 0 <= j < k ==> p(s[j]),
        k < s.len() ==> !p(s[k]),
    ensures
        spec_drop_leading(s, p) == s.subrange(k, s.len() as int),
    decreases k,
{
    if k == 0 {
        assert(s.subrange(0, s.len() as int) =~= s);
    } else {
        assert(p(s[0]));
        lemma_drop_leading_subrange(s.drop_first(), p, k - 1);
        assert(s.drop_first().subrange(k - 1, s.drop_first().len() as int) =~= s.subrange(
            k,
            s.len() as int,
        ));
    }
}

pub proof fn lemma_drop_trailing_subrange(s: Seq<u8>, p: spec_fn(u8) -> bool, k: int)
    requires
        0 <= k <= s.len(),
        forall|j: int| k <= j < s.len() ==> p(s[j]),
        k > 0 ==> !p(s[k - 1]),
    ensures
        spec_drop_trailing(s, p) == s.subrange(0, k),
    decreases s.len() - k,
{
    if k == s.len() {
        assert(s.subrange(0, k) =~= s);
    } else {
        assert(p(s[s.len() - 1]));
        lemma_drop_trailing_subrange(s.drop_last(), p, k);
        assert(s.drop_last().subrange(0, k) =~= s.subrange(0, k));
    }
}

pub proof fn lemma_after_first_at(s: Seq<u8>, c: u8, k: int)
    requires
        0 <= k < s.len(),
        s[k] == c,
        forall|j: int| 0 <= j < k ==> s[j] != c,
    ensures
        spec_after_first(s, c) == s.subrange(k + 1, s.len() as int),
    decreases k,
{
    if k == 0 {
        assert(s.drop_first() =~= s.subrange(1, s.len() as int));
    } else {
        lemma_after_first_at(s.drop_first(), c, k - 1);
        assert(s.drop_first().subrange(k, s.drop_first().len() as int) =~= s.subrange(
            k + 1,
            s.len() as int,
        ));
    }
}

pub proof fn lemma_after_first_none(s: Seq<u8>, c: u8)
    requires
        forall|j: int| 0 <= j < s.len() ==> s[j] != c,
    ensures
        spec_after_first(s, c) == Seq::<u8>::empty(),
    decreases s.len(),
{
    if s.len() == 0 {
        assert(s =~= Seq::<u8>::empty());
    } else {
        lemma_after_first_none(s.drop_first(), c);
    }
}

/// Whether `s` begins with `p`.
pub fn has_prefix(s: &[u8], p: &[u8]) -> (r: bool)
    ensures
        r == spec_has_prefix(s@, p@),
{
    if s.len() < p.len() {
        return false;
    }
    let mut i: usize = 0;
    while i < p.len()
        invariant
            0 <= i <= p.len() <= s.len(),
            forall|j: int| 0 <= j < i ==> s@[j] == p@[j],
        decreases p.len() - i,
    {
        if s[i] != p[i] {
            assert(s@.subrange(0, p@.len() as int)[i as int] != p@[i as int]);
            return false;
        }
        i = i + 1;
    }
    assert(s@.subrange(0, p@.len() as int) =~= p@);
    true
}

/// Whether `s` ends with `p`.
pub fn has_suffix(s: &[u8], p: &[u8]) -> (r: bool)
    ensures
        r == spec_has_suffix(s@, p@),
{
    if s.len() < p.len() {
        return false;
    }
    let off: usize = s.len() - p.len();
    let mut i: usize = 0;
    while i < p.len()
        invariant
            0 <= i <= p.len() <= s.len(),
            off == s.len() - p.len(),
            forall|j: int| 0 <= j < i ==> s@[off + j] == p@[j],
        decreases p.len() - i,
    {
        if s[off + i] != p[i] {
            assert(s@.subrange(s@.len() - p@.len(), s@.len() as int)[i as int] != p@[i as int]);
            return false;
        }
        i = i + 1;
    }
    assert(s@.subrange(s@.len() - p@.len(), s@.len() as int) =~= p@);
    true
}

/// Whether `s` equals `sub` at offset `k`.
fn matches_at(s: &[u8], sub: &[u8], k: usize) -> (r: bool)
    requires
        k + sub@.len() <= s@.len(),
    ensures
        r == (s@.subrange(k as int, k + sub@.len()) == sub@),
{
    let n: usize = s.len();
    let mut i: usize = 0;
    while i < sub.len()
        invariant
            0 <= i <= sub.len(),
            k + sub@.len() <= s@.len(),
            n == s@.len(),
            forall|j: int| 0 <= j < i ==> s@[k + j] == sub@[j],
        decreases sub.len() - i,
    {
        if s[k + i] != sub[i] {
            assert(s@.subrange(k as int, k + sub@.len())[i as int] != sub@[i as int]);
            return false;
        }
        i = i + 1;
    }
    assert(s@.subrange(k as int, k + sub@.len()) =~= sub@);
    true
}

/// Whether `sub` occurs inside `s`.
pub fn contains_sub(s: &[u8], sub: &[u8]) -> (r: bool)
    ensures
        r == spec_contains_sub(s@, sub@),
{
    if sub.len() > s.len() {
        return false;
    }
    if sub.len() == 0 {
        proof {
            assert(s@.subrange(0, 0 + sub@.len() as int) =~= sub@);
        }
        return true;
    }
    let last: usize = s.len() - sub.len();
    let mut k: usize = 0;
    while k <= last
        invariant
            1 <= sub@.len() <= s@.len() <= usize::MAX,
            last == s@.len() - sub@.len(),
            0 <= k <= last + 1,
            forall|k2: int| 0 <= k2 < k ==> #[trigger] s@.subrange(k2, k2 + sub@.len()) != sub@,
        decreases last + 1 - k,
    {
        if matches_at(s, sub, k) {
            return true;
        }
        k = k + 1;
    }
    false
}

/// `s` with leading and trailing ASCII whitespace removed.
pub fn trim_ascii(s: &[u8]) -> (r: Vec<u8>)
    ensures
        r@ == spec_trim(s@),
{
    let mut lo: usize = 0;
    while lo < s.len() && is_ws(s[lo])
        invariant
            0 <= lo <= s.len(),
            forall|j: int| 0 <= j < lo ==> spec_is_ws(s@[j]),
        decreases s.len() - lo,
    {
        lo = lo + 1;
    }
    let mut hi: usize = s.len();
    while hi > lo && is_ws(s[hi - 1])
        invariant
            lo <= hi <= s.len(),
            forall|j: int| hi <= j < s.len() ==> spec_is_ws(s@[j]),
        decreases hi,
    {
        hi = hi - 1;
    }
    proof {
        let wsp = |b: u8| spec_is_ws(b);
        lemma_drop_leading_subrange(s@, wsp, lo as int);
        let t = s@.subrange(lo as int, s@.len() as int);
        lemma_drop_trailing_subrange(t, wsp, hi - lo);
        assert(t.subrange(0, hi - lo) =~= s@.subrange(lo as int, hi as int));
    }
    slice_to_vec(slice_subrange(s, lo, hi))
}

/// Whether `b` is ASCII whitespace.
fn is_ws(b: u8) -> (r: bool)
    ensures
        r == spec_is_ws(b),
{
    b == 32 || b == 9 || b == 10 || b == 11 || b == 12 || b == 13
}

/// Everything after the first occurrence of `c`; empty if `c` does not occur.
pub fn after_first(s: &[u8], c: u8) -> (r: Vec<u8>)
    ensures
        r@ == spec_after_first(s@, c),
{
    let mut k: usize = 0;
    while k < s.len()
        invariant
            0 <= k <= s.len(),
            forall|j: int| 0 <= j < k ==> s@[j] != c,
        decreases s.len() - k,
    {
        if s[k] == c {
            proof {
                lemma_after_first_at(s@, c, k as int);
            }
            return slice_to_vec(slice_subrange(s, k + 1, s.len()));
        }
        k = k + 1;
    }
    proof {
        lemma_after_first_none(s@, c);
    }
    Vec::new()
}

/// `s` with every trailing occurrence of `c` removed.
pub fn strip_trailing(s: &[u8], c: u8) -> (r: Vec<u8>)
    ensures
        r@ == spec_drop_trailing(s@, |b: u8| b == c),
{
    let mut hi: usize = s.len();
    while hi > 0 && s[hi - 1] == c
        invariant
            0 <= hi <= s.len(),
            forall|j: int| hi <= j < s.len() ==> s@[j] == c,
        decreases hi,
    {
        hi = hi - 1;
    }
    proof {
        lemma_drop_trailing_subrange(s@, |b: u8| b == c, hi as int);
    }
    slice_to_vec(slice_subrange(s, 0, hi))
}

/// Whether `a` and `b` hold the same bytes.
pub fn bytes_equal(a: &[u8], b: &[u8]) -> (r: bool)
    ensures
        r == (a@ == b@),
{
    if a.len() != b.len() {
        assert(a@.len() != b@.len());
        return false;
    }
    let mut i: usize = 0;
    while i < a.len()
        invariant
            0 <= i <= a@.len() == b@.len(),
            forall|j: int| 0 <= j < i ==> a@[j] == b@[j],
        decreases a.len() - i,
    {
        if a[i] != b[i] {
            assert(a@[i as int] != b@[i as int]);
            return false;
        }
        i = i + 1;
    }
    assert(a@ =~= b@);
    true
}

/// The concatenation of `a` and `b`.
pub fn concat_bytes(a: &[u8], b: &[u8]) -> (r: Vec<u8>)
    ensures
        r@ == a@ + b@,
{
    let mut v = slice_to_vec(a);
    v.extend_from_slice(b);
    v
}

} // verus!
