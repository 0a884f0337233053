use vstd::prelude::*;

verus! {

/// The latest known state of one worker. A worker goes from `Idle` through
/// any number of `Processing` states to `Done`.
#[derive(Debug, Clone)]
pub enum Progress {
    Idle { id: usize, total_workers: usize },
    Processing {
        id: usize,
        /// Index of the trial within the worker's range.
        index: usize,
        /// How many trials of the range the worker has reached, this one included.
        current: usize,
        /// The size of the worker's range.
        total: usize,
        total_workers: usize,
        /// The trial being processed.
        trial: String,
    },
    Done { id: usize, total: usize, total_workers: usize },
}

/// How many trials a snapshot counts as processed.
pub open spec fn processed(p: Progress) -> nat {
    match p {
        Progress::Idle { .. } => 0,
        Progress::Processing { current, .. } => current as nat,
        Progress::Done { total, .. } => total as nat,
    }
}

/// The trials processed over all snapshots.
pub open spec fn processed_sum(s: Seq<Progress>) -> nat
    decreases s.len(),
{
    if s.len() == 0 {
        0
    } else {
        processed_sum(s.drop_last()) + processed(s.last())
    }
}

impl Progress {
    pub fn processed(&self) -> (r: usize)
        ensures
            r == processed(*self),
    {
        match self {
            Progress::Idle { .. } => 0,
            Progress::Processing { current, .. } => *current,
            Progress::Done { total, .. } => *total,
        }
    }
}

/// The trials processed over all snapshots, or `None` where the sum does not
/// fit in `usize`.
pub fn processed_total(snapshots: &Vec<Progress>) -> (r: Option<usize>)
    ensures
        r matches Some(t) ==> t == processed_sum(snapshots@),
        r is None ==> processed_sum(snapshots@) > usize::MAX,
{
    let mut total: usize = 0;
    let mut i: usize = 0;
    while i < snapshots.len()
        invariant
            i <= snapshots@.len(),
            total == processed_sum(snapshots@.take(i as int)),
        decreases snapshots@.len() - i,
    {
        assert(snapshots@.take(i + 1).drop_last() == snapshots@.take(i as int));
        let n = snapshots[i].processed();
        if total > usize::MAX - n {
            proof {
                lemma_processed_sum_prefix_le(snapshots@, i as int + 1);
            }
            return None;
        }
        total = total + n;
        i = i + 1;
    }
    assert(snapshots@.take(i as int) == snapshots@);
    Some(total)
}

/// A prefix never counts more than the whole list.
pub proof fn lemma_processed_sum_prefix_le(s: Seq<Progress>, k: int)
    requires
        0 <= k <= s.len(),
    ensures
        processed_sum(s.take(k)) <= processed_sum(s),
    decreases s.len() - k,
{
    if k < s.len() {
        lemma_processed_sum_prefix_le(s, k + 1);
        assert(s.take(k + 1).drop_last() == s.take(k));
    } else {
        assert(s.take(k) == s);
    }
}

} // verus!
