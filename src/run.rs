use vstd::prelude::*;

use crate::hit_counter::{is_read_out, HitCounter};
use crate::pattern::Pattern;
use crate::progress::Progress;
use crate::render::{emit, Emission, Render};
use crate::result::{sum_counts, total_hits, Hit, HitCount, WakuchinError, WakuchinResult};
use crate::worker::{hits_of, hits_view, WorkerTask};

verus! {

/// The decisions of a sequential run over `tries` trials. The caller makes
/// each trial, sends the snapshots that this run lets through to the progress
/// handler, and tells the run whether an interrupt came.
pub struct SeqRun {
    task: WorkerTask,
    render: Render,
}

impl SeqRun {
    pub closed spec fn task(&self) -> WorkerTask {
        self.task
    }

    pub closed spec fn render(&self) -> Render {
        self.render
    }

    pub open spec fn tries(&self) -> nat {
        self.task().total_spec()
    }

    pub open spec fn wf(&self) -> bool {
        &&& self.task().wf()
        &&& self.render().wf()
        &&& self.task().id_spec() == 0
        &&& self.task().total_workers_spec() == 1
        &&& sum_counts(self.render().counter()@) == self.task().hits_spec().len()
        &&& self.render().previous_spec() <= self.task().next_spec() + 1
    }

    pub fn new(tries: usize, pattern: &Pattern) -> (r: SeqRun)
        ensures
            r.wf(),
            r.tries() == tries,
            r.task().pattern() == pattern.text(),
            r.task().seen().len() == 0,
            !r.task().stopped_spec(),
    {
        let r = SeqRun { task: WorkerTask::new(0, tries, 1, pattern), render: Render::new() };
        assert(sum_counts(r.render().counter()@) == 0);
        r
    }

    /// Whether another trial is wanted.
    pub fn is_running(&self) -> (r: bool)
        requires
            self.wf(),
        ensures
            r == (!self.task().stopped_spec() && self.task().next_spec() < self.tries()),
    {
        self.task.is_running()
    }

    /// The hit counts so far, largest first.
    pub fn hits(&self) -> (r: Vec<HitCount>)
        requires
            self.wf(),
        ensures
            is_read_out(self.render().counter()@, r@),
    {
        self.render.hits()
    }

    /// The idle snapshot sent before the first trial, and whether it goes out.
    pub fn announce_start(&mut self, interval_is_zero: bool, interval_passed: bool) -> (r: (
        Progress,
        Emission,
    ))
        requires
            old(self).wf(),
        ensures
            final(self).wf(),
            final(self).task() == old(self).task(),
            final(self).render().counter() == old(self).render().counter(),
            r.0 == (Progress::Idle { id: 0, total_workers: 1 }),
            interval_is_zero ==> r.1 == emit(0, false),
            !interval_is_zero && !interval_passed ==> r.1 == Emission::Skip,
            !interval_is_zero && interval_passed ==> r.1 == emit(0, true),
    {
        let p = Progress::Idle { id: 0, total_workers: 1 };
        let e = self.render.render_progress(interval_is_zero, interval_passed, &p);
        (p, e)
    }

    /// The snapshot for `trial`, the next trial, and whether it goes out: always
    /// with a zero interval (delta zero), else once the interval has passed, with
    /// the number of trials reached since the last snapshot sent.
    pub fn announce(&mut self, trial: &String, interval_is_zero: bool, interval_passed: bool) -> (r: (
        Progress,
        Emission,
    ))
        requires
            old(self).wf(),
            !old(self).task().stopped_spec(),
            old(self).task().next_spec() < old(self).tries(),
        ensures
            final(self).wf(),
            final(self).task() == old(self).task(),
            final(self).render().counter() == old(self).render().counter(),
            r.0 is Processing,
            r.0->index == old(self).task().next_spec(),
            r.0->current == old(self).task().next_spec() + 1,
            r.0 matches Progress::Processing { total, .. } && total == old(self).tries(),
            r.0->trial@ == trial@,
            interval_is_zero ==> r.1 == emit(0, false),
            !interval_is_zero && !interval_passed ==> r.1 == Emission::Skip,
            !interval_is_zero && interval_passed ==> r.1 == emit(
                (old(self).task().next_spec() + 1 - old(self).render().previous_spec()) as usize,
                true,
            ),
    {
        proof {
            self.task.lemma_wf_bounds();
        }
        let p = self.task.progress(trial);
        let e = self.render.render_progress(interval_is_zero, interval_passed, &p);
        (p, e)
    }

    /// Takes the trial last announced. Where `cancelled`, the run stops with
    /// `Cancelled` and the trial is dropped, so the hits kept are those found
    /// before; otherwise a match is counted and kept.
    pub fn observe(&mut self, trial: String, pattern: &Pattern, cancelled: bool) -> (r: Result<(), WakuchinError>)
        requires
            old(self).wf(),
            !old(self).task().stopped_spec(),
            old(self).task().next_spec() < old(self).tries(),
            pattern.text() == old(self).task().pattern(),
        ensures
            final(self).wf(),
            cancelled ==> r == Err::<(), WakuchinError>(WakuchinError::Cancelled),
            !cancelled ==> r is Ok,
            final(self).tries() == old(self).tries(),
            final(self).task().pattern() == old(self).task().pattern(),
            final(self).task().stopped_spec() == cancelled,
            cancelled ==> final(self).task().seen() == old(self).task().seen()
                && final(self).task().hits_spec() == old(self).task().hits_spec(),
            !cancelled ==> final(self).task().seen() == old(self).task().seen().push(trial@),
    {
        proof {
            self.task.lemma_wf_bounds();
        }
        let hit = self.task.observe(trial, pattern, cancelled);
        match hit {
            Some(h) => {
                self.render.handle_hit(&h.trial);
            },
            None => {},
        }
        if cancelled {
            Err(WakuchinError::Cancelled)
        } else {
            Ok(())
        }
    }

    /// The snapshot sent, without rate limit, once every trial has run.
    pub fn done_progress(&self) -> (r: Progress)
        requires
            self.wf(),
        ensures
            r == (Progress::Done { id: 0, total: self.tries() as usize, total_workers: 1 }),
    {
        self.task.done_progress()
    }

    /// The result of a run that went through all of its trials.
    pub fn finish(self) -> (r: WakuchinResult)
        requires
            self.wf(),
            !self.task().stopped_spec(),
            self.task().next_spec() == self.tries(),
        ensures
            r.tries == self.tries(),
            r.hits_total == sum_counts(r.hits@),
            r.hits_total == r.hits_detail@.len(),
            is_read_out(self.render().counter()@, r.hits@),
            self.task().seen().len() == self.tries(),
            hits_view(r.hits_detail@) == hits_of(self.task().seen(), self.task().pattern()),
    {
        let tries = self.task.total();
        let hits = self.render.hits();
        let hits_detail = self.task.into_hits();
        let hits_total = hits_detail.len();
        WakuchinResult { tries, hits_total, hits, hits_detail }
    }
}

/// The result of a parallel run from its hit counter and the hits that the
/// workers returned; the counter has counted each of those hits once.
pub fn build_result(tries: usize, counter: &HitCounter, hits_detail: Vec<Hit>) -> (r: WakuchinResult)
    requires
        counter.wf(),
        sum_counts(counter@) == hits_detail@.len(),
    ensures
        r.tries == tries,
        r.hits_total == sum_counts(r.hits@),
        r.hits_total == r.hits_detail@.len(),
        is_read_out(counter@, r.hits@),
        r.hits_detail@ == hits_detail@,
{
    let hits = counter.get_all();
    let hits_total = match total_hits(&hits) {
        Some(total) => total,
        None => 0,
    };
    WakuchinResult { tries, hits_total, hits, hits_detail }
}

} // verus!
