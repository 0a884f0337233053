use vstd::prelude::*;

use crate::result::{sum_counts, HitCount};

verus! {

/// Whether the counts `s[i]` and `s[j]` stand in that order in a read-out:
/// the larger count first, and on equal counts the one that was seen first.
pub open spec fn ranks_before(s: Seq<HitCount>, i: int, j: int) -> bool {
    s[i].hits > s[j].hits || (s[i].hits == s[j].hits && i < j)
}

/// `ord` lists indices of `s`, one per entry, strictly in read-out order.
pub open spec fn is_rank_order(s: Seq<HitCount>, ord: Seq<usize>) -> bool {
    &&& ord.len() == s.len()
    &&& forall|p: int| 0 <= p < ord.len() ==> ord[p] < s.len()
    &&& forall|p: int, q: int|
        0 <= p < q < ord.len() ==> #[trigger] ranks_before(s, ord[p] as int, ord[q] as int)
}

/// `r` holds the entries of `s` in read-out order.
pub open spec fn is_read_out(s: Seq<HitCount>, r: Seq<HitCount>) -> bool {
    exists|ord: Seq<usize>|
        is_rank_order(s, ord) && r.len() == ord.len() && forall|p: int|
            0 <= p < r.len() ==> (#[trigger] r[p]).trial@ == s[ord[p] as int].trial@ && r[p].hits
                == s[ord[p] as int].hits
}

/// Whether `s` has an entry for `key`.
pub open spec fn has_key(s: Seq<HitCount>, key: Seq<char>) -> bool {
    exists|i: int| 0 <= i < s.len() && (#[trigger] s[i]).trial@ == key
}

/// Whether `s` after recording `key` once looks like `t`.
pub open spec fn counted(s: Seq<HitCount>, key: Seq<char>, t: Seq<HitCount>) -> bool {
    if has_key(s, key) {
        &&& t.len() == s.len()
        &&& forall|i: int|
            0 <= i < s.len() ==> (#[trigger] t[i]).trial@ == s[i].trial@ && t[i].hits == (if s[i].trial@
                == key {
                s[i].hits + 1
            } else {
                s[i].hits as int
            })
    } else {
        &&& t.len() == s.len() + 1
        &&& forall|i: int|
            0 <= i < s.len() ==> (#[trigger] t[i]).trial@ == s[i].trial@ && t[i].hits == s[i].hits
        &&& t.last().trial@ == key
        &&& t.last().hits == 1
    }
}

/// Counts how often each distinct trial string was found, keeping the order
/// in which the strings were first seen.
pub struct HitCounter {
    entries: Vec<HitCount>,
}

impl View for HitCounter {
    type V = Seq<HitCount>;

    closed spec fn view(&self) -> Seq<HitCount> {
        self.entries@
    }
}

impl HitCounter {
    /// Keys are distinct, every count is at least one, and the counts add up
    /// to a value that fits in `usize`.
    pub open spec fn wf(&self) -> bool {
        &&& forall|i: int, j: int|
            0 <= i < j < self@.len() ==> (#[trigger] self@[i]).trial@ != (#[trigger] self@[j]).trial@
        &&& forall|i: int| 0 <= i < self@.len() ==> (#[trigger] self@[i]).hits >= 1
        &&& sum_counts(self@) <= usize::MAX
    }

    pub fn new() -> (r: HitCounter)
        ensures
            r.wf(),
            r@.len() == 0,
    {
        HitCounter { entries: Vec::new() }
    }

    /// The number of hits recorded so far.
    pub fn total(&self) -> (r: usize)
        requires
            self.wf(),
        ensures
            r == sum_counts(self@),
    {
        let mut total: usize = 0;
        let mut i: usize = 0;
        while i < self.entries.len()
            invariant
                i <= self@.len(),
                total == sum_counts(self@.take(i as int)),
                sum_counts(self@) <= usize::MAX,
            decreases self@.len() - i,
        {
            assert(self@.take(i + 1).drop_last() == self@.take(i as int));
            proof {
                crate::result::lemma_sum_counts_prefix_le(self@, i as int + 1);
            }
            total = total + self.entries[i].hits;
            i = i + 1;
        }
        assert(self@.take(i as int) == self@);
        total
    }

    /// Records one more occurrence of `trial`.
    pub fn add(&mut self, trial: &String)
        requires
            old(self).wf(),
            sum_counts(old(self)@) < usize::MAX,
        ensures
            final(self).wf(),
            counted(old(self)@, trial@, final(self)@),
            sum_counts(final(self)@) == sum_counts(old(self)@) + 1,
    {
        let mut i: usize = 0;
        while i < self.entries.len()
            invariant
                i <= self@.len(),
                self@ == old(self)@,
                old(self).wf(),
                sum_counts(old(self)@) < usize::MAX,
                forall|j: int| 0 <= j < i ==> (#[trigger] self@[j]).trial@ != trial@,
            decreases self@.len() - i,
        {
            if self.entries[i].trial == *trial {
                let ghost before = self@;
                let hits = self.entries[i].hits;
                proof {
                    lemma_sum_counts_ge_entry(before, i as int);
                }
                let t = self.entries[i].trial.clone();
                self.entries.set(i, HitCount { trial: t, hits: hits + 1 });
                proof {
                    lemma_sum_counts_update(before, i as int, self@[i as int]);
                    assert(self@ == before.update(i as int, self@[i as int]));
                    assert(has_key(before, trial@) && before[i as int].trial@ == trial@);
                    assert forall|j: int| 0 <= j < before.len() && j != i implies
                        (#[trigger] before[j]).trial@ != trial@ by {
                        if j < i {
                            assert(before[j].trial@ != before[i as int].trial@);
                        } else {
                            assert(before[i as int].trial@ != before[j].trial@);
                        }
                    }
                }
                return;
            }
            i = i + 1;
        }
        let ghost before = self@;
        self.entries.push(HitCount { trial: trial.clone(), hits: 1 });
        assert(self@.drop_last() == before);
        assert(!has_key(before, trial@));
    }

    /// The counts, largest first, equal counts in the order in which their
    /// strings were first seen.
    pub fn get_all(&self) -> (r: Vec<HitCount>)
        requires
            self.wf(),
        ensures
            is_read_out(self@, r@),
            sum_counts(r@) == sum_counts(self@),
    {
        let s = &self.entries;
        let mut r: Vec<HitCount> = Vec::new();
        let ghost mut ord: Seq<usize> = Seq::empty();
        let mut k: usize = 0;
        while k < s.len()
            invariant
                k <= s@.len(),
                ord.len() == k,
                r@.len() == k,
                forall|p: int| 0 <= p < k ==> #[trigger] ord[p] < k,
                forall|p: int, q: int|
                    0 <= p < q < k ==> #[trigger] ranks_before(s@, ord[p] as int, ord[q] as int),
                forall|p: int|
                    0 <= p < k ==> (#[trigger] r@[p]).trial@ == s@[ord[p] as int].trial@
                        && r@[p].hits == s@[ord[p] as int].hits,
                sum_counts(r@) == sum_counts(s@.take(k as int)),
            decreases s@.len() - k,
        {
            let c = s[k].hits;
            let mut p: usize = 0;
            while p < r.len() && r[p].hits >= c
                invariant
                    p <= r@.len(),
                    r@.len() == k,
                    k < s@.len(),
                    c == s@[k as int].hits,
                    forall|q: int| 0 <= q < p ==> (#[trigger] r@[q]).hits >= c,
                decreases r@.len() - p,
            {
                p = p + 1;
            }
            proof {
                assert forall|q: int| p <= q < k implies (#[trigger] r@[q]).hits < c by {
                    if q > p {
                        assert(ranks_before(s@, ord[p as int] as int, ord[q] as int));
                    }
                }
            }
            let ghost old_r = r@;
            let ghost old_ord = ord;
            let item = HitCount { trial: s[k].trial.clone(), hits: c };
            r.insert(p, item);
            proof {
                ord = old_ord.insert(p as int, k);
                lemma_sum_counts_insert(old_r, p as int, item);
                assert(s@.take(k + 1).drop_last() == s@.take(k as int));
                assert forall|a: int, b: int| 0 <= a < b < k + 1 implies #[trigger] ranks_before(
                    s@,
                    ord[a] as int,
                    ord[b] as int,
                ) by {
                    if b < p {
                        assert(ranks_before(s@, old_ord[a] as int, old_ord[b] as int));
                    } else if b == p {
                        assert(old_r[a].hits >= c);
                    } else if a < p {
                        assert(ranks_before(s@, old_ord[a] as int, old_ord[b - 1] as int));
                    } else if a == p {
                        assert(old_r[b - 1].hits < c);
                    } else {
                        assert(ranks_before(s@, old_ord[a - 1] as int, old_ord[b - 1] as int));
                    }
                }
                assert forall|q: int| 0 <= q < k + 1 implies (#[trigger] r@[q]).trial@
                    == s@[ord[q] as int].trial@ && r@[q].hits == s@[ord[q] as int].hits by {
                    if q > p {
                        assert(r@[q] == old_r[q - 1]);
                    }
                }
            }
            k = k + 1;
        }
        assert(s@.take(k as int) == s@);
        assert(is_rank_order(s@, ord));
        r
    }
}

/// A single count never exceeds the sum.
pub proof fn lemma_sum_counts_ge_entry(s: Seq<HitCount>, i: int)
    requires
        0 <= i < s.len(),
    ensures
        s[i].hits <= sum_counts(s),
    decreases s.len(),
{
    if i < s.len() - 1 {
        lemma_sum_counts_ge_entry(s.drop_last(), i);
    }
}

/// Raising one count by one raises the sum by one.
pub proof fn lemma_sum_counts_update(s: Seq<HitCount>, i: int, x: HitCount)
    requires
        0 <= i < s.len(),
        x.hits == s[i].hits + 1,
    ensures
        sum_counts(s.update(i, x)) == sum_counts(s) + 1,
    decreases s.len(),
{
    if i < s.len() - 1 {
        lemma_sum_counts_update(s.drop_last(), i, x);
        assert(s.update(i, x).drop_last() == s.drop_last().update(i, x));
    } else {
        assert(s.update(i, x).drop_last() == s.drop_last());
    }
}

/// Inserting an entry anywhere adds its count to the sum.
pub proof fn lemma_sum_counts_insert(s: Seq<HitCount>, p: int, x: HitCount)
    requires
        0 <= p <= s.len(),
    ensures
        sum_counts(s.insert(p, x)) == sum_counts(s) + x.hits,
    decreases s.len(),
{
    if p == s.len() {
        assert(s.insert(p, x).drop_last() == s);
    } else {
        lemma_sum_counts_insert(s.drop_last(), p, x);
        assert(s.insert(p, x).drop_last() == s.drop_last().insert(p, x));
    }
}


/// Recording the same string `states.len() - 1` times into an empty counter
/// leaves one entry, for that string, with that count; every read-out of it
/// is that one entry.
pub proof fn lemma_same_string_counts_up(states: Seq<Seq<HitCount>>, key: Seq<char>, r: Seq<HitCount>)
    requires
        states.len() >= 2,
        states[0].len() == 0,
        forall|i: int| 0 <= i < states.len() - 1 ==> counted(#[trigger] states[i], key, states[i + 1]),
        is_read_out(states.last(), r),
    ensures
        states.last().len() == 1,
        states.last()[0].trial@ == key,
        states.last()[0].hits == states.len() - 1,
        r.len() == 1,
        r[0].trial@ == key,
        r[0].hits == states.len() - 1,
{
    lemma_counted_prefix(states, key, states.len() - 1);
    let ord = choose|ord: Seq<usize>|
        is_rank_order(states.last(), ord) && r.len() == ord.len() && forall|p: int|
            0 <= p < r.len() ==> (#[trigger] r[p]).trial@ == states.last()[ord[p] as int].trial@
                && r[p].hits == states.last()[ord[p] as int].hits;
    assert(ord[0] < 1);
    assert(r[0].trial@ == states.last()[ord[0] as int].trial@);
}

proof fn lemma_counted_prefix(states: Seq<Seq<HitCount>>, key: Seq<char>, k: int)
    requires
        1 <= k < states.len(),
        states[0].len() == 0,
        forall|i: int| 0 <= i < states.len() - 1 ==> counted(#[trigger] states[i], key, states[i + 1]),
    ensures
        states[k].len() == 1,
        states[k][0].trial@ == key,
        states[k][0].hits == k,
    decreases k,
{
    assert(counted(states[k - 1], key, states[k]));
    if k > 1 {
        lemma_counted_prefix(states, key, k - 1);
        assert(has_key(states[k - 1], key) && states[k - 1][0].trial@ == key);
    } else {
        assert(!has_key(states[0], key));
    }
}

/// In a read-out, an entry with a larger count comes before one with a
/// smaller count.
pub proof fn lemma_larger_count_first(s: Seq<HitCount>, r: Seq<HitCount>, p: int, q: int)
    requires
        is_read_out(s, r),
        0 <= p < r.len(),
        0 <= q < r.len(),
        r[p].hits > r[q].hits,
    ensures
        p < q,
{
    let ord = choose|ord: Seq<usize>|
        is_rank_order(s, ord) && r.len() == ord.len() && forall|x: int|
            0 <= x < r.len() ==> (#[trigger] r[x]).trial@ == s[ord[x] as int].trial@ && r[x].hits
                == s[ord[x] as int].hits;
    assert(r[p].hits == s[ord[p] as int].hits);
    assert(r[q].hits == s[ord[q] as int].hits);
    if q < p {
        assert(ranks_before(s, ord[q] as int, ord[p] as int));
    }
}

} // verus!
