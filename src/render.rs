use vstd::prelude::*;

use crate::diff_store::DiffStore;
use crate::hit_counter::{is_read_out, HitCounter};
use crate::progress::{processed_sum, processed_total, Progress};
use crate::result::{sum_counts, HitCount};

verus! {

/// What the sequential run does with a snapshot.
#[derive(Debug, Clone, Copy, PartialEq, Eq, Structural)]
pub enum Emission {
    /// Nothing is sent to the handler.
    Skip,
    /// The snapshot goes to the handler with this delta; where `reset_timer`,
    /// the interval starts again.
    Emit { delta: usize, reset_timer: bool },
}

/// Progress delivery for the sequential run: rate limits the snapshots and
/// counts the hits.
pub struct Render {
    current_diff: DiffStore,
    counter: HitCounter,
}

impl Render {
    pub closed spec fn counter(&self) -> HitCounter {
        self.counter
    }

    pub closed spec fn previous_spec(&self) -> nat {
        self.current_diff.previous_spec()
    }

    pub open spec fn wf(&self) -> bool {
        self.counter().wf()
    }

    pub fn new() -> (r: Render)
        ensures
            r.wf(),
            r.counter()@.len() == 0,
            r.previous_spec() == 0,
    {
        Render { current_diff: DiffStore::new(0), counter: HitCounter::new() }
    }

    /// The last processed count that went into a delta.
    pub fn previous(&self) -> (r: usize)
        ensures
            r == self.previous_spec(),
    {
        self.current_diff.previous()
    }

    /// The hit counts so far, largest first.
    pub fn hits(&self) -> (r: Vec<HitCount>)
        requires
            self.wf(),
        ensures
            is_read_out(self.counter()@, r@),
            sum_counts(r@) == sum_counts(self.counter()@),
    {
        self.counter.get_all()
    }

    /// Counts one more hit of `trial`.
    pub fn handle_hit(&mut self, trial: &String)
        requires
            old(self).wf(),
            sum_counts(old(self).counter()@) < usize::MAX,
        ensures
            final(self).wf(),
            crate::hit_counter::counted(old(self).counter()@, trial@, final(self).counter()@),
            sum_counts(final(self).counter()@) == sum_counts(old(self).counter()@) + 1,
            final(self).previous_spec() == old(self).previous_spec(),
    {
        self.counter.add(trial);
    }

    /// Decides whether `progress` goes to the handler. With a zero interval
    /// every snapshot goes, with delta zero. Otherwise a snapshot goes only
    /// once the interval has passed and only where it is not `Done`; a
    /// `Processing` one carries the growth of its count since the last one
    /// sent, and sending restarts the interval.
    pub fn render_progress(&mut self, interval_is_zero: bool, interval_passed: bool, progress: &Progress) -> (r: Emission)
        requires
            !interval_is_zero && interval_passed && progress is Processing ==> old(self).previous_spec()
                <= progress->current,
        ensures
            final(self).counter() == old(self).counter(),
            interval_is_zero ==> r == emit(0, false) && final(self).previous_spec() == old(self).previous_spec(),
            !interval_is_zero && (!interval_passed || progress is Done) ==> r == Emission::Skip
                && final(self).previous_spec() == old(self).previous_spec(),
            !interval_is_zero && interval_passed && progress is Idle ==> r == emit(0, true) && final(self).previous_spec() == old(self).previous_spec(),
            !interval_is_zero && interval_passed && progress is Processing ==> r == emit((progress->current - old(self).previous_spec()) as usize, true)
                && final(self).previous_spec() == progress->current,
    {
        if interval_is_zero {
            return Emission::Emit { delta: 0, reset_timer: false };
        }
        if !interval_passed {
            return Emission::Skip;
        }
        match progress {
            Progress::Done { .. } => Emission::Skip,
            Progress::Processing { current, .. } => {
                let delta = self.current_diff.update(*current);
                Emission::Emit { delta, reset_timer: true }
            },
            Progress::Idle { .. } => Emission::Emit { delta: 0, reset_timer: true },
        }
    }
}

/// What the progress aggregator of a parallel run does next.
#[derive(Debug, Clone)]
pub enum RenderAction {
    /// Cancellation was seen: call the handler's accidental-stop hook and end.
    AccidentalStop,
    /// Every worker has finished: send these all-`Done` snapshots with delta
    /// zero as the final update and end.
    Finish(Vec<Progress>),
    /// The interval has not passed yet: poll again.
    Wait,
    /// Send the current snapshots with this delta and restart the interval.
    Update { delta: usize },
}

/// `s` marks each of `n` workers done, worker `i + 1` in place `i`.
pub open spec fn all_done(s: Seq<Progress>, n: nat, total: usize) -> bool {
    &&& s.len() == n
    &&& forall|i: int|
        0 <= i < n ==> #[trigger] s[i] == done_of((i + 1) as usize, total, n as usize)
}

pub open spec fn done_of(id: usize, total: usize, total_workers: usize) -> Progress {
    Progress::Done { id, total, total_workers }
}

pub open spec fn emit(delta: usize, reset_timer: bool) -> Emission {
    Emission::Emit { delta, reset_timer }
}

pub open spec fn update(delta: usize) -> RenderAction {
    RenderAction::Update { delta }
}

/// The progress aggregator of a parallel run: merges the workers' latest
/// snapshots into rate-limited updates.
pub struct ThreadRender {
    current_diff: DiffStore,
    total: usize,
    total_workers: usize,
}

impl ThreadRender {
    pub closed spec fn previous_spec(&self) -> nat {
        self.current_diff.previous_spec()
    }

    pub closed spec fn total_spec(&self) -> usize {
        self.total
    }

    pub closed spec fn total_workers_spec(&self) -> usize {
        self.total_workers
    }

    /// An aggregator for `total_workers` workers sharing `total` trials.
    pub fn new(total: usize, total_workers: usize) -> (r: ThreadRender)
        ensures
            r.previous_spec() == 0,
            r.total_spec() == total,
            r.total_workers_spec() == total_workers,
    {
        ThreadRender { current_diff: DiffStore::new(0), total, total_workers }
    }

    /// The processed count of the last update.
    pub fn previous(&self) -> (r: usize)
        ensures
            r == self.previous_spec(),
    {
        self.current_diff.previous()
    }

    /// One turn of the polling loop. `stop`: cancellation was seen;
    /// `all_finished`: every worker has let go of the hit path;
    /// `interval_passed`: the interval since the last update has run out;
    /// `snapshots`: the latest snapshot of each worker.
    pub fn step(
        &mut self,
        stop: bool,
        all_finished: bool,
        interval_passed: bool,
        snapshots: &Vec<Progress>,
    ) -> (r: RenderAction)
        requires
            !stop && !all_finished && interval_passed ==> processed_sum(snapshots@) <= usize::MAX
                && old(self).previous_spec() <= processed_sum(snapshots@),
        ensures
            final(self).total_spec() == old(self).total_spec(),
            final(self).total_workers_spec() == old(self).total_workers_spec(),
            !(r is Update) ==> final(self).previous_spec() == old(self).previous_spec(),
            stop ==> r is AccidentalStop,
            !stop && all_finished ==> (r matches RenderAction::Finish(v) && all_done(
                v@,
                old(self).total_workers_spec() as nat,
                old(self).total_spec(),
            )),
            !stop && !all_finished && !interval_passed ==> r is Wait,
            !stop && !all_finished && interval_passed ==> r == update((processed_sum(snapshots@) - old(self).previous_spec()) as usize)
                && final(self).previous_spec() == processed_sum(snapshots@),
    {
        if stop {
            return RenderAction::AccidentalStop;
        }
        if all_finished {
            return RenderAction::Finish(self.final_snapshots());
        }
        if !interval_passed {
            return RenderAction::Wait;
        }
        match processed_total(snapshots) {
            Some(current) => {
                let delta = self.current_diff.update(current);
                RenderAction::Update { delta }
            },
            None => RenderAction::Wait,
        }
    }

    /// Every worker marked done.
    fn final_snapshots(&self) -> (r: Vec<Progress>)
        ensures
            all_done(r@, self.total_workers as nat, self.total),
    {
        let mut v: Vec<Progress> = Vec::new();
        let mut i: usize = 0;
        while i < self.total_workers
            invariant
                i <= self.total_workers,
                v@.len() == i,
                forall|j: int|
                    0 <= j < i ==> #[trigger] v@[j] == done_of((j + 1) as usize, self.total, self.total_workers),
            decreases self.total_workers - i,
        {
            v.push(Progress::Done { id: i + 1, total: self.total, total_workers: self.total_workers });
            i = i + 1;
        }
        v
    }
}

} // verus!
