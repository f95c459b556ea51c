//! The aggregator: per-extension line counts and the grand total, summed
//! file by file.

use vstd::prelude::*;

use crate::bytes::bytes_eq;

verus! {

/// The keys of the entry list are pairwise distinct.
pub open spec fn keys_distinct(s: Seq<(Vec<u8>, usize)>) -> bool {
    forall|i: int, j: int|
        0 <= i < j < s.len() ==> (#[trigger] s[i]).0@ != (#[trigger] s[j]).0@
}

/// The sum of the counts of the entry list.
pub open spec fn sum_counts(s: Seq<(Vec<u8>, usize)>) -> nat
    decreases s.len(),
{
    if s.len() == 0 {
        0
    } else {
        (sum_counts(s.drop_last()) + s.last().1) as nat
    }
}

/// The entry list as a map from extension to count.
pub open spec fn tally_map(s: Seq<(Vec<u8>, usize)>) -> Map<Seq<u8>, nat>
    decreases s.len(),
{
    if s.len() == 0 {
        Map::empty()
    } else {
        tally_map(s.drop_last()).insert(s.last().0@, s.last().1 as nat)
    }
}

/// The running result of a run: one count per observed extension, and the
/// grand total over all files.
pub struct CountResult {
    pub languages: Vec<(Vec<u8>, usize)>,
    pub total: usize,
}

impl CountResult {
    /// Each extension occurs once, and the total is the sum of the
    /// per-extension counts.
    pub open spec fn wf(self) -> bool {
        keys_distinct(self.languages@) && self.total == sum_counts(self.languages@)
    }

    /// The per-extension counts as a map.
    pub open spec fn counts(self) -> Map<Seq<u8>, nat> {
        tally_map(self.languages@)
    }
}

impl Default for CountResult {
    /// An empty result: no extensions, total zero.
    fn default() -> (r: CountResult)
        ensures
            r.wf(),
            r.counts() == Map::<Seq<u8>, nat>::empty(),
            r.total == 0,
            r.languages@.len() == 0,
    {
        CountResult { languages: Vec::new(), total: 0 }
    }
}

proof fn lemma_tally_contains(s: Seq<(Vec<u8>, usize)>, k: Seq<u8>)
    ensures
        tally_map(s).contains_key(k) <==> exists|i: int| 0 <= i < s.len() && (#[trigger] s[i]).0@
            == k,
    decreases s.len(),
{
    if s.len() > 0 {
        lemma_tally_contains(s.drop_last(), k);
        if s.last().0@ == k {
            assert(s[s.len() - 1].0@ == k);
        } else if tally_map(s).contains_key(k) {
            let i = choose|i: int| 0 <= i < s.drop_last().len() && (#[trigger] s.drop_last()[i]).0@
                == k;
            assert(s[i].0@ == k);
        } else {
            if exists|i: int| 0 <= i < s.len() && (#[trigger] s[i]).0@ == k {
                let i = choose|i: int| 0 <= i < s.len() && (#[trigger] s[i]).0@ == k;
                assert(s.drop_last()[i].0@ == k);
            }
        }
    }
}

proof fn lemma_tally_get(s: Seq<(Vec<u8>, usize)>, i: int)
    requires
        keys_distinct(s),
        0 <= i < s.len(),
    ensures
        tally_map(s).contains_key(s[i].0@),
        tally_map(s)[s[i].0@] == s[i].1 as nat,
    decreases s.len(),
{
    if i == s.len() - 1 {
    } else {
        assert(s.drop_last()[i] == s[i]);
        lemma_tally_get(s.drop_last(), i);
        assert(s[i].0@ != s.last().0@);
    }
}

proof fn lemma_tally_update(s: Seq<(Vec<u8>, usize)>, i: int, p: (Vec<u8>, usize))
    requires
        keys_distinct(s),
        0 <= i < s.len(),
        p.0@ == s[i].0@,
    ensures
        tally_map(s.update(i, p)) == tally_map(s).insert(s[i].0@, p.1 as nat),
    decreases s.len(),
{
    let u = s.update(i, p);
    if i == s.len() - 1 {
        assert(u.drop_last() =~= s.drop_last());
        assert(u.last() == p);
        assert(tally_map(u) =~= tally_map(s).insert(s[i].0@, p.1 as nat));
    } else {
        assert(u.drop_last() =~= s.drop_last().update(i, p));
        assert(u.last() == s.last());
        assert(s.drop_last()[i] == s[i]);
        lemma_tally_update(s.drop_last(), i, p);
        assert(s[i].0@ != s.last().0@);
        assert(tally_map(u) =~= tally_map(s).insert(s[i].0@, p.1 as nat));
    }
}

proof fn lemma_sum_update(s: Seq<(Vec<u8>, usize)>, i: int, p: (Vec<u8>, usize))
    requires
        0 <= i < s.len(),
    ensures
        sum_counts(s.update(i, p)) + s[i].1 == sum_counts(s) + p.1,
    decreases s.len(),
{
    let u = s.update(i, p);
    if i == s.len() - 1 {
        assert(u.drop_last() =~= s.drop_last());
    } else {
        assert(u.drop_last() =~= s.drop_last().update(i, p));
        assert(u.last() == s.last());
        assert(s.drop_last()[i] == s[i]);
        lemma_sum_update(s.drop_last(), i, p);
    }
}

proof fn lemma_entry_le_sum(s: Seq<(Vec<u8>, usize)>, i: int)
    requires
        0 <= i < s.len(),
    ensures
        s[i].1 <= sum_counts(s),
    decreases s.len(),
{
    if i < s.len() - 1 {
        assert(s.drop_last()[i] == s[i]);
        lemma_entry_le_sum(s.drop_last(), i);
    }
}

impl CountResult {
    /// Adds one file's count under its extension: a new extension gets its
    /// own entry, a seen one has its count increased, and the grand total
    /// grows by the same amount.
    pub fn add_file(&mut self, ext: &[u8], count: usize)
        requires
            old(self).wf(),
            old(self).total + count <= usize::MAX,
        ensures
            final(self).wf(),
            final(self).total == old(self).total + count,
            final(self).counts() == old(self).counts().insert(
                ext@,
                (if old(self).counts().contains_key(ext@) {
                    (old(self).counts()[ext@] + count) as nat
                } else {
                    count as nat
                }),
            ),
    {
        let ghost s0 = self.languages@;
        let n = self.languages.len();
        let mut i: usize = 0;
        while i < n
            invariant
                n == self.languages@.len(),
                i <= n,
                forall|t: int| 0 <= t < i ==> (#[trigger] self.languages@[t]).0@ != ext@,
                self == old(self),
                s0 == self.languages@,
                old(self).wf(),
                old(self).total + count <= usize::MAX,
            decreases n - i,
        {
            if bytes_eq(self.languages[i].0.as_slice(), ext) {
                let cur = self.languages[i].1;
                proof {
                    lemma_entry_le_sum(s0, i as int);
                    lemma_tally_get(s0, i as int);
                    lemma_tally_contains(s0, ext@);
                }
                let key = vstd::slice::slice_to_vec(ext);
                self.languages[i] = (key, cur + count);
                self.total = self.total + count;
                proof {
                    lemma_tally_update(s0, i as int, self.languages@[i as int]);
                    lemma_sum_update(s0, i as int, self.languages@[i as int]);
                    assert(keys_distinct(self.languages@));
                }
                return ;
            }
            i = i + 1;
        }
        proof {
            lemma_tally_contains(s0, ext@);
            assert(!old(self).counts().contains_key(ext@));
        }
        let key = vstd::slice::slice_to_vec(ext);
        self.languages.push((key, count));
        self.total = self.total + count;
        proof {
            assert(self.languages@.drop_last() =~= s0);
            assert(self.languages@.last().0@ == ext@);
            assert(keys_distinct(self.languages@));
        }
    }
}

} // verus!
