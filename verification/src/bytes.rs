//! Byte-level helpers the classifier is built on: trimming whitespace from a
//! line and locating the first occurrence of a marker inside a line.

use vstd::prelude::*;

verus! {

/// The whitespace bytes stripped when a line is trimmed: space and the ASCII
/// control characters tab, line feed, vertical tab, form feed and carriage
/// return.
pub open spec fn is_space(b: u8) -> bool {
    b == 32 || (9 <= b && b <= 13)
}

/// `s` without its leading whitespace.
pub open spec fn trim_front(s: Seq<u8>) -> Seq<u8>
    decreases s.len(),
{
    if s.len() > 0 && is_space(s[0]) {
        trim_front(s.drop_first())
    } else {
        s
    }
}

/// `s` without its trailing whitespace.
pub open spec fn trim_back(s: Seq<u8>) -> Seq<u8>
    decreases s.len(),
{
    if s.len() > 0 && is_space(s.last()) {
        trim_back(s.drop_last())
    } else {
        s
    }
}

/// `s` without leading and trailing whitespace.
pub open spec fn trimmed(s: Seq<u8>) -> Seq<u8> {
    trim_back(trim_front(s))
}

/// The pattern `p` occurs in `s` at position `i`.
pub open spec fn match_at(s: Seq<u8>, p: Seq<u8>, i: int) -> bool {
    0 <= i && i + p.len() <= s.len() && s.subrange(i, i + p.len() as int) == p
}

/// The first position at or after `i` where `p` occurs in `s`, if any.
/// An empty pattern matches at `i` itself.
pub open spec fn find_at(s: Seq<u8>, p: Seq<u8>, i: int) -> Option<int>
    decreases s.len() - i,
{
    if i < 0 || i + p.len() > s.len() {
        None
    } else if p.len() == 0 || match_at(s, p, i) {
        Some(i)
    } else {
        find_at(s, p, i + 1)
    }
}

/// The first occurrence of `p` in `s`, if any.
pub open spec fn find_in(s: Seq<u8>, p: Seq<u8>) -> Option<int> {
    find_at(s, p, 0)
}

/// `find_at` returns the first match at or after `i`: a found position
/// matches and nothing before it does; `None` means nothing at or after `i`
/// matches.
pub proof fn lemma_find_at_props(s: Seq<u8>, p: Seq<u8>, i: int)
    requires
        0 <= i,
    ensures
        match find_at(s, p, i) {
            Some(j) => i <= j && match_at(s, p, j) && forall|k: int|
                i <= k < j ==> !match_at(s, p, k),
            None => forall|k: int| i <= k ==> !match_at(s, p, k),
        },
    decreases s.len() - i,
{
    if i + p.len() > s.len() {
        assert forall|k: int| i <= k implies !match_at(s, p, k) by {
            assert(k + p.len() >= i + p.len());
        }
    } else if p.len() == 0 {
        assert(s.subrange(i, i + p.len() as int) =~= p);
        assert(match_at(s, p, i));
    } else if match_at(s, p, i) {
    } else {
        lemma_find_at_props(s, p, i + 1);
    }
}

/// If `p` matches at `j` and nowhere before, the search finds exactly `j`.
pub proof fn lemma_find_at_exact(s: Seq<u8>, p: Seq<u8>, j: int)
    requires
        0 <= j,
        match_at(s, p, j),
        forall|k: int| 0 <= k < j ==> !match_at(s, p, k),
    ensures
        find_in(s, p) == Some(j),
{
    lemma_find_at_props(s, p, 0);
    match find_at(s, p, 0) {
        Some(j2) => {
            if j2 < j {
                assert(!match_at(s, p, j2));
            }
            if j < j2 {
                assert(!match_at(s, p, j));
            }
        },
        None => {
            assert(!match_at(s, p, j));
        },
    }
}

/// Whether `b` is one of the whitespace bytes that trimming strips.
fn is_space_byte(b: u8) -> (r: bool)
    ensures
        r == is_space(b),
{
    b == 32 || (9 <= b && b <= 13)
}

proof fn lemma_trim_front_at(s: Seq<u8>, lo: int)
    requires
        0 <= lo <= s.len(),
        forall|i: int| 0 <= i < lo ==> is_space(s[i]),
        lo < s.len() ==> !is_space(s[lo]),
    ensures
        trim_front(s) == s.subrange(lo, s.len() as int),
    decreases lo,
{
    if lo == 0 {
        assert(s.subrange(0, s.len() as int) =~= s);
    } else {
        assert(is_space(s[0]));
        lemma_trim_front_at(s.drop_first(), lo - 1);
        assert(s.drop_first().subrange(lo - 1, s.drop_first().len() as int) =~= s.subrange(
            lo,
            s.len() as int,
        ));
    }
}

proof fn lemma_trim_back_at(s: Seq<u8>, hi: int)
    requires
        0 <= hi <= s.len(),
        forall|i: int| hi <= i < s.len() ==> is_space(s[i]),
        hi > 0 ==> !is_space(s[hi - 1]),
    ensures
        trim_back(s) == s.subrange(0, hi),
    decreases s.len() - hi,
{
    if hi == s.len() {
        assert(s.subrange(0, s.len() as int) =~= s);
    } else {
        assert(is_space(s.last()));
        lemma_trim_back_at(s.drop_last(), hi);
        assert(s.drop_last().subrange(0, hi) =~= s.subrange(0, hi));
    }
}

/// The line with leading and trailing whitespace removed, as a fresh vector.
pub fn trim(s: &[u8]) -> (r: Vec<u8>)
    ensures
        r@ == trimmed(s@),
{
    let n = s.len();
    let mut lo: usize = 0;
    while lo < n && is_space_byte(s[lo])
        invariant
            n == s@.len(),
            lo <= n,
            forall|i: int| 0 <= i < lo ==> is_space(s@[i]),
        decreases n - lo,
    {
        lo = lo + 1;
    }
    let mut hi: usize = n;
    while hi > lo && is_space_byte(s[hi - 1])
        invariant
            n == s@.len(),
            lo <= hi <= n,
            forall|i: int| hi <= i < n ==> is_space(s@[i]),
        decreases hi,
    {
        hi = hi - 1;
    }
    proof {
        lemma_trim_front_at(s@, lo as int);
        let front = s@.subrange(lo as int, n as int);
        lemma_trim_back_at(front, hi - lo);
        assert(front.subrange(0, hi - lo) =~= s@.subrange(lo as int, hi as int));
    }
    vstd::slice::slice_to_vec(vstd::slice::slice_subrange(s, lo, hi))
}

/// Whether `p` occurs in `s` at position `i`.
fn match_range(s: &[u8], p: &[u8], i: usize) -> (r: bool)
    requires
        i + p@.len() <= s@.len(),
    ensures
        r == match_at(s@, p@, i as int),
{
    let slen = s.len();
    let plen = p.len();
    let mut k: usize = 0;
    while k < plen
        invariant
            slen == s@.len(),
            plen == p@.len(),
            i + plen <= slen,
            k <= plen,
            forall|t: int| 0 <= t < k ==> s@[i + t] == p@[t],
        decreases plen - k,
    {
        if s[i + k] != p[k] {
            proof {
                if match_at(s@, p@, i as int) {
                    assert(s@.subrange(i as int, i + p@.len() as int)[k as int] == s@[i + k]);
                }
            }
            return false;
        }
        k = k + 1;
    }
    proof {
        assert(s@.subrange(i as int, i + p@.len() as int) =~= p@);
    }
    true
}

/// The position of the first occurrence of `p` in `s`, or `None` when `p`
/// does not occur. An empty pattern is found at position 0.
pub fn find_pat(s: &[u8], p: &[u8]) -> (r: Option<usize>)
    ensures
        match r {
            Some(j) => find_in(s@, p@) == Some(j as int),
            None => find_in(s@, p@) is None,
        },
{
    if p.len() == 0 {
        return Some(0);
    }
    if p.len() > s.len() {
        return None;
    }
    let slen = s.len();
    let bound = slen - p.len();
    let mut i: usize = 0;
    while i <= bound
        invariant
            slen == s@.len(),
            1 <= p@.len() <= slen,
            bound == slen - p@.len(),
            i <= bound + 1,
            forall|k: int| 0 <= k < i ==> !match_at(s@, p@, k),
        decreases bound + 1 - i,
    {
        if match_range(s, p, i) {
            proof {
                lemma_find_at_exact(s@, p@, i as int);
            }
            return Some(i);
        }
        i = i + 1;
    }
    proof {
        assert forall|k: int| 0 <= k implies !match_at(s@, p@, k) by {
            if k > bound {
                assert(k + p@.len() > s@.len());
            }
        }
        lemma_find_at_props(s@, p@, 0);
        if find_in(s@, p@) is Some {
            let j = find_in(s@, p@)->Some_0;
            assert(!match_at(s@, p@, j));
        }
    }
    None
}

/// Whether the line `s` starts with the marker `p`.
pub fn starts_with_pat(s: &[u8], p: &[u8]) -> (r: bool)
    ensures
        r == match_at(s@, p@, 0),
{
    if p.len() > s.len() {
        return false;
    }
    match_range(s, p, 0)
}

/// Whether two byte strings hold the same bytes.
pub fn bytes_eq(a: &[u8], b: &[u8]) -> (r: bool)
    ensures
        r == (a@ == b@),
{
    if a.len() != b.len() {
        return false;
    }
    let n = a.len();
    let mut k: usize = 0;
    while k < n
        invariant
            n == a@.len(),
            n == b@.len(),
            k <= n,
            forall|t: int| 0 <= t < k ==> a@[t] == b@[t],
        decreases n - k,
    {
        if a[k] != b[k] {
            return false;
        }
        k = k + 1;
    }
    proof {
        assert(a@ =~= b@);
    }
    true
}

} // verus!
