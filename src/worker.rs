use vstd::prelude::*;

use crate::pattern::{regex_matches, Pattern};
use crate::progress::Progress;
use crate::result::Hit;

verus! {

/// The hits among `trials`, in order: the index and text of each trial that
/// the pattern matches.
pub open spec fn hits_of(trials: Seq<Seq<char>>, pattern: Seq<char>) -> Seq<(nat, Seq<char>)>
    decreases trials.len(),
{
    if trials.len() == 0 {
        Seq::empty()
    } else {
        let rest = hits_of(trials.drop_last(), pattern);
        if regex_matches(pattern, trials.last()) {
            rest.push(((trials.len() - 1) as nat, trials.last()))
        } else {
            rest
        }
    }
}

pub open spec fn hit_view(h: Hit) -> (nat, Seq<char>) {
    (h.index as nat, h.trial@)
}

pub open spec fn hits_view(h: Seq<Hit>) -> Seq<(nat, Seq<char>)> {
    h.map_values(|x: Hit| hit_view(x))
}

/// Each entry of `hits_of(trials, pattern)` names a trial of `trials`, by its
/// index, that the pattern matches.
pub proof fn lemma_hits_of_are_matches(trials: Seq<Seq<char>>, pattern: Seq<char>)
    ensures
        forall|k: int|
            0 <= k < hits_of(trials, pattern).len() ==> {
                let h = #[trigger] hits_of(trials, pattern)[k];
                &&& h.0 < trials.len()
                &&& trials[h.0 as int] == h.1
                &&& regex_matches(pattern, h.1)
            },
    decreases trials.len(),
{
    if trials.len() > 0 {
        let rest = trials.drop_last();
        lemma_hits_of_are_matches(rest, pattern);
        assert forall|k: int| 0 <= k < hits_of(trials, pattern).len() implies {
            let h = #[trigger] hits_of(trials, pattern)[k];
            &&& h.0 < trials.len()
            &&& trials[h.0 as int] == h.1
            &&& regex_matches(pattern, h.1)
        } by {
            if k < hits_of(rest, pattern).len() {
                assert(hits_of(trials, pattern)[k] == hits_of(rest, pattern)[k]);
            }
        }
    }
}

/// One worker's pass over its range of trials. The trials come from outside,
/// one at a time; the task tests each against the pattern, keeps the hits,
/// and stops for good once it observes cancellation.
pub struct WorkerTask {
    id: usize,
    total: usize,
    total_workers: usize,
    next: usize,
    stopped: bool,
    hits: Vec<Hit>,
    seen: Ghost<Seq<Seq<char>>>,
    pattern: Ghost<Seq<char>>,
}

impl WorkerTask {
    pub closed spec fn id_spec(&self) -> nat {
        self.id as nat
    }

    pub closed spec fn total_spec(&self) -> nat {
        self.total as nat
    }

    pub closed spec fn total_workers_spec(&self) -> nat {
        self.total_workers as nat
    }

    /// The trials that have been tested, in order.
    pub closed spec fn seen(&self) -> Seq<Seq<char>> {
        self.seen@
    }

    /// The text of the pattern that the trials are tested against.
    pub closed spec fn pattern(&self) -> Seq<char> {
        self.pattern@
    }

    /// Whether cancellation was observed.
    pub closed spec fn stopped_spec(&self) -> bool {
        self.stopped
    }

    /// The hits kept so far.
    pub closed spec fn hits_spec(&self) -> Seq<Hit> {
        self.hits@
    }

    pub closed spec fn wf(&self) -> bool {
        &&& self.seen@.len() <= self.total
        &&& self.next == self.seen@.len()
        &&& hits_view(self.hits@) == hits_of(self.seen@, self.pattern@)
        &&& self.hits@.len() <= self.seen@.len()
    }

    /// A well-formed task has kept no more hits than it has tested trials, and
    /// tested no more trials than its range holds.
    pub proof fn lemma_wf_bounds(&self)
        requires
            self.wf(),
        ensures
            self.hits_spec().len() <= self.seen().len(),
            self.seen().len() <= self.total_spec(),
            self.total_spec() <= usize::MAX,
    {
    }

    /// Every hit that a task keeps is a trial that it tested before it observed
    /// cancellation (a stopped task tests no more), kept at that trial's index,
    /// and one that the pattern matches.
    pub proof fn lemma_hits_precede_stop(&self)
        requires
            self.wf(),
        ensures
            forall|k: int|
                0 <= k < self.hits_spec().len() ==> {
                    let h = #[trigger] self.hits_spec()[k];
                    &&& h.index < self.seen().len()
                    &&& self.seen()[h.index as int] == h.trial@
                    &&& regex_matches(self.pattern(), h.trial@)
                },
    {
        lemma_hits_of_are_matches(self.seen@, self.pattern@);
        assert forall|k: int| 0 <= k < self.hits_spec().len() implies {
            let h = #[trigger] self.hits_spec()[k];
            &&& h.index < self.seen().len()
            &&& self.seen()[h.index as int] == h.trial@
            &&& regex_matches(self.pattern(), h.trial@)
        } by {
            assert(hits_view(self.hits@)[k] == hit_view(self.hits@[k]));
            assert(hits_of(self.seen@, self.pattern@)[k] == hit_view(self.hits@[k]));
        }
    }

    /// The index of the next trial.
    pub open spec fn next_spec(&self) -> nat {
        self.seen().len()
    }

    /// A task for worker `id` (one-based in a pool) over `total` trials.
    pub fn new(id: usize, total: usize, total_workers: usize, pattern: &Pattern) -> (r: WorkerTask)
        ensures
            r.wf(),
            r.id_spec() == id,
            r.total_spec() == total,
            r.total_workers_spec() == total_workers,
            r.pattern() == pattern.text(),
            r.seen().len() == 0,
            r.hits_spec().len() == 0,
            !r.stopped_spec(),
    {
        let ghost trials: Seq<Seq<char>> = Seq::empty();
        assert(hits_view(Seq::<Hit>::empty()) =~= hits_of(trials, pattern.text()));
        WorkerTask {
            id,
            total,
            total_workers,
            next: 0,
            stopped: false,
            hits: Vec::new(),
            seen: Ghost(trials),
            pattern: Ghost(pattern.text()),
        }
    }

    /// The index of the next trial.
    pub fn next(&self) -> (r: usize)
        requires
            self.wf(),
        ensures
            r == self.next_spec(),
    {
        self.next
    }

    /// The size of the range.
    pub fn total(&self) -> (r: usize)
        ensures
            r == self.total_spec(),
    {
        self.total
    }

    /// Whether another trial is wanted: the range is not used up and no
    /// cancellation was observed.
    pub fn is_running(&self) -> (r: bool)
        requires
            self.wf(),
        ensures
            r == (!self.stopped_spec() && self.next_spec() < self.total_spec()),
    {
        !self.stopped && self.next() < self.total
    }

    /// The snapshot published for `trial` before it is tested.
    pub fn progress(&self, trial: &String) -> (r: Progress)
        requires
            self.wf(),
            self.next_spec() < self.total_spec(),
        ensures
            r == (Progress::Processing {
                id: self.id_spec() as usize,
                index: self.next_spec() as usize,
                current: (self.next_spec() + 1) as usize,
                total: self.total_spec() as usize,
                total_workers: self.total_workers_spec() as usize,
                trial: r->trial,
            }),
            r->trial@ == trial@,
    {
        let index = self.next();
        Progress::Processing {
            id: self.id,
            index,
            current: index + 1,
            total: self.total,
            total_workers: self.total_workers,
            trial: trial.clone(),
        }
    }

    /// The snapshot published once the task ends, whether by finishing its
    /// range or by cancellation: it counts the whole range.
    pub fn done_progress(&self) -> (r: Progress)
        ensures
            r == (Progress::Done {
                id: self.id_spec() as usize,
                total: self.total_spec() as usize,
                total_workers: self.total_workers_spec() as usize,
            }),
    {
        Progress::Done { id: self.id, total: self.total, total_workers: self.total_workers }
    }

    /// Takes the next trial. Where `cancelled`, the task stops and the trial
    /// is neither tested nor kept; otherwise it is tested, and on a match the
    /// hit is kept and also returned, to be forwarded.
    pub fn observe(&mut self, trial: String, pattern: &Pattern, cancelled: bool) -> (r: Option<Hit>)
        requires
            old(self).wf(),
            !old(self).stopped_spec(),
            old(self).next_spec() < old(self).total_spec(),
            pattern.text() == old(self).pattern(),
        ensures
            final(self).wf(),
            final(self).id_spec() == old(self).id_spec(),
            final(self).total_spec() == old(self).total_spec(),
            final(self).total_workers_spec() == old(self).total_workers_spec(),
            final(self).pattern() == old(self).pattern(),
            final(self).stopped_spec() == cancelled,
            cancelled ==> final(self).seen() == old(self).seen() && final(self).hits_spec()
                == old(self).hits_spec() && r is None,
            !cancelled ==> final(self).seen() == old(self).seen().push(trial@),
            !cancelled && regex_matches(old(self).pattern(), trial@) ==> (r matches Some(h) && h.index
                == old(self).next_spec() && h.trial@ == trial@ && final(self).hits_spec()
                =~= old(self).hits_spec().push(h)),
            !cancelled && !regex_matches(old(self).pattern(), trial@) ==> r is None
                && final(self).hits_spec() == old(self).hits_spec(),
    {
        if cancelled {
            self.stopped = true;
            return None;
        }
        let index = self.next();
        let matched = pattern.is_match(trial.as_str());
        let ghost before = self.seen@;
        let ghost old_hits = self.hits@;
        self.seen = Ghost(self.seen@.push(trial@));
        self.next = index + 1;
        assert(self.seen@.drop_last() == before);
        if matched {
            self.hits.push(Hit::new(index, trial.clone()));
            let hit = Hit::new(index, trial);
            assert(hits_view(self.hits@) =~= hits_view(old_hits).push(hit_view(hit)));
            Some(hit)
        } else {
            None
        }
    }

    /// The hits kept, in the order of their trials.
    pub fn into_hits(self) -> (r: Vec<Hit>)
        requires
            self.wf(),
        ensures
            r@ == self.hits_spec(),
            hits_view(r@) == hits_of(self.seen(), self.pattern()),
    {
        self.hits
    }
}

} // verus!
