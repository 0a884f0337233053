use vstd::prelude::*;

verus! {

/// One trial that matched the pattern, with its index in the range that produced it.
#[derive(Debug, Clone)]
pub struct Hit {
    pub index: usize,
    pub trial: String,
}

impl Hit {
    pub fn new(index: usize, trial: String) -> (r: Hit)
        ensures
            r.index == index,
            r.trial == trial,
    {
        Hit { index, trial }
    }
}

/// A distinct matching trial and how many times it was found.
#[derive(Debug, Clone)]
pub struct HitCount {
    pub trial: String,
    pub hits: usize,
}

/// The outcome of one run.
#[derive(Debug, Clone)]
pub struct WakuchinResult {
    pub tries: usize,
    pub hits_total: usize,
    pub hits: Vec<HitCount>,
    pub hits_detail: Vec<Hit>,
}

/// Why a run did not produce a result.
#[derive(Debug, Clone, PartialEq, Eq, Structural)]
pub enum WakuchinError {
    /// The trial shape parameter was zero.
    TimesIsZero,
    /// A task of the run ended abnormally.
    WorkerError,
    /// The run was stopped by an interrupt.
    Cancelled,
    /// A progress handler hook failed.
    HandlerError,
    /// The pattern did not compile.
    InvalidPattern,
}

/// Sum of the counts of a list of hit counts.
pub open spec fn sum_counts(s: Seq<HitCount>) -> nat
    decreases s.len(),
{
    if s.len() == 0 {
        0
    } else {
        sum_counts(s.drop_last()) + s.last().hits as nat
    }
}

/// The result of a run with no trials.
pub fn empty_result() -> (r: WakuchinResult)
    ensures
        r.tries == 0,
        r.hits_total == 0,
        r.hits@.len() == 0,
        r.hits_detail@.len() == 0,
{
    WakuchinResult { tries: 0, hits_total: 0, hits: Vec::new(), hits_detail: Vec::new() }
}

/// Adds up the counts of `hits`; `None` when the sum does not fit in `usize`.
pub fn total_hits(hits: &Vec<HitCount>) -> (r: Option<usize>)
    ensures
        r matches Some(t) ==> t == sum_counts(hits@),
        r is None ==> sum_counts(hits@) > usize::MAX,
{
    let mut total: usize = 0;
    let mut i: usize = 0;
    while i < hits.len()
        invariant
            i <= hits@.len(),
            total == sum_counts(hits@.take(i as int)),
        decreases hits@.len() - i,
    {
        assert(hits@.take(i + 1).drop_last() == hits@.take(i as int));
        if total > usize::MAX - hits[i].hits {
            proof {
                lemma_sum_counts_prefix_le(hits@, i as int + 1);
            }
            return None;
        }
        total = total + hits[i].hits;
        i = i + 1;
    }
    assert(hits@.take(i as int) == hits@);
    Some(total)
}

/// A prefix never counts more than the whole list.
pub proof fn lemma_sum_counts_prefix_le(s: Seq<HitCount>, k: int)
    requires
        0 <= k <= s.len(),
    ensures
        sum_counts(s.take(k)) <= sum_counts(s),
    decreases s.len() - k,
{
    if k < s.len() {
        lemma_sum_counts_prefix_le(s, k + 1);
        assert(s.take(k + 1).drop_last() == s.take(k));
    } else {
        assert(s.take(k) == s);
    }
}

} // verus!
