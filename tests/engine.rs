use wakuchin::diff_store::DiffStore;
use wakuchin::hit_counter::HitCounter;
use wakuchin::pattern::Pattern;
use wakuchin::plan::{check_arguments, effective_worker_count, partition, worker_count};
use wakuchin::progress::{processed_total, Progress};
use wakuchin::render::{Emission, Render, RenderAction, ThreadRender};
use wakuchin::result::{total_hits, Hit, HitCount, WakuchinError};
use wakuchin::run::{build_result, SeqRun};
use wakuchin::worker::WorkerTask;

fn s(text: &str) -> String {
    text.to_string()
}

fn run_sequential(trials: &[&str], pattern: &Pattern, cancel_at: Option<usize>) -> Result<wakuchin::result::WakuchinResult, WakuchinError> {
    let mut run = SeqRun::new(trials.len(), pattern);
    for (i, t) in trials.iter().enumerate() {
        assert!(run.is_running());
        let trial = s(t);
        let _ = run.announce(&trial, true, false);
        run.observe(trial, pattern, cancel_at == Some(i))?;
    }
    Ok(run.finish())
}

#[test]
fn diff_store_yields_deltas() {
    let mut d = DiffStore::new(0);
    assert_eq!(d.update(5), 5);
    assert_eq!(d.update(8), 3);
    assert_eq!(d.update(8), 0);
    assert_eq!(d.update(20), 12);
    assert_eq!(d.previous(), 20);
}

#[test]
fn same_string_counted_k_times() {
    let mut c = HitCounter::new();
    let key = s("WKCN");
    for _ in 0..7 {
        c.add(&key);
    }
    let all = c.get_all();
    assert_eq!(all.len(), 1);
    assert_eq!(all[0].trial, "WKCN");
    assert_eq!(all[0].hits, 7);
    assert_eq!(c.total(), 7);
}

#[test]
fn larger_count_comes_first() {
    let mut c = HitCounter::new();
    c.add(&s("a"));
    c.add(&s("b"));
    c.add(&s("b"));
    c.add(&s("c"));
    c.add(&s("b"));
    c.add(&s("c"));
    let all = c.get_all();
    let view: Vec<(String, usize)> = all.iter().map(|h| (h.trial.clone(), h.hits)).collect();
    assert_eq!(view, vec![(s("b"), 3), (s("c"), 2), (s("a"), 1)]);
}

#[test]
fn equal_counts_keep_first_seen_order() {
    let mut c = HitCounter::new();
    for k in ["z", "y", "x", "y", "x", "z"] {
        c.add(&s(k));
    }
    let all = c.get_all();
    let keys: Vec<String> = all.iter().map(|h| h.trial.clone()).collect();
    assert_eq!(keys, vec![s("z"), s("y"), s("x")]);
    assert!(all.iter().all(|h| h.hits == 2));
}

#[test]
fn empty_counter_reads_empty() {
    let c = HitCounter::new();
    assert!(c.get_all().is_empty());
    assert_eq!(c.total(), 0);
}

#[test]
fn partition_sizes_sum_and_balance() {
    assert_eq!(partition(10, 3), vec![4, 3, 3]);
    assert_eq!(partition(17, 5), vec![4, 4, 3, 3, 3]);
    assert_eq!(partition(4, 4), vec![1, 1, 1, 1]);
    assert_eq!(partition(7, 1), vec![7]);
    let p = partition(1000, 7);
    assert_eq!(p.iter().sum::<usize>(), 1000);
    let max = *p.iter().max().unwrap();
    let min = *p.iter().min().unwrap();
    assert!(max - min <= 1);
}

#[test]
fn worker_count_never_exceeds_tries() {
    assert_eq!(worker_count(3, 8), 3);
    assert_eq!(worker_count(30, 8), 8);
    assert_eq!(effective_worker_count(3, 8), 3);
    assert_eq!(effective_worker_count(30, 8), 8);
    let detected = effective_worker_count(1_000_000, 0);
    assert!(detected >= 1);
    assert_eq!(effective_worker_count(1, 0), 1);
    assert_eq!(effective_worker_count(0, 4), 0);
}

#[test]
fn zero_tries_is_empty_result() {
    for times in [0usize, 1, 5] {
        match check_arguments(0, times) {
            Ok(Some(r)) => {
                assert_eq!(r.tries, 0);
                assert_eq!(r.hits_total, 0);
                assert!(r.hits.is_empty());
                assert!(r.hits_detail.is_empty());
            }
            _ => panic!("expected an empty result"),
        }
    }
}

#[test]
fn zero_times_is_refused() {
    assert!(matches!(check_arguments(10, 0), Err(WakuchinError::TimesIsZero)));
    assert!(matches!(check_arguments(10, 1), Ok(None)));
}

#[test]
fn pattern_compiles_and_matches() {
    let p = Pattern::new(s("^WKNC$")).unwrap();
    assert!(p.is_match("WKNC"));
    assert!(!p.is_match("WKCN"));
    assert!(matches!(Pattern::new(s("(")), Err(WakuchinError::InvalidPattern)));
}

#[test]
fn impossible_pattern_finds_nothing() {
    let p = Pattern::new(s("X")).unwrap();
    let trials = ["WKCN", "KWNC", "CNWK", "NCKW", "WKCN", "WKNC", "KCWN", "CWKN", "NKWC", "WCKN"];
    let r = run_sequential(&trials, &p, None).unwrap();
    assert_eq!(r.tries, 10);
    assert_eq!(r.hits_total, 0);
    assert!(r.hits.is_empty());
    assert!(r.hits_detail.is_empty());
}

#[test]
fn any_trial_pattern_hits_once() {
    let p = Pattern::new(s(".")).unwrap();
    let r = run_sequential(&["KCWN"], &p, None).unwrap();
    assert_eq!(r.tries, 1);
    assert_eq!(r.hits_total, 1);
    assert_eq!(r.hits_detail.len(), 1);
    assert_eq!(r.hits_detail[0].index, 0);
    assert_eq!(r.hits_detail[0].trial, "KCWN");
}

#[test]
fn sequential_totals_agree() {
    let p = Pattern::new(s("^WK")).unwrap();
    let trials = ["WKCN", "KWNC", "WKNC", "WKCN", "CNWK"];
    let r = run_sequential(&trials, &p, None).unwrap();
    assert_eq!(r.tries, 5);
    assert_eq!(r.hits_total, 3);
    assert_eq!(r.hits.iter().map(|h| h.hits).sum::<usize>(), 3);
    assert_eq!(r.hits_detail.len(), 3);
    let idx: Vec<usize> = r.hits_detail.iter().map(|h| h.index).collect();
    assert_eq!(idx, vec![0, 2, 3]);
    assert_eq!(r.hits[0].trial, "WKCN");
    assert_eq!(r.hits[0].hits, 2);
    assert_eq!(r.hits[1].trial, "WKNC");
}

#[test]
fn sequential_cancellation() {
    let p = Pattern::new(s("^WK")).unwrap();
    let trials = ["WKCN", "WKCN", "WKCN"];
    assert!(matches!(run_sequential(&trials, &p, Some(1)), Err(WakuchinError::Cancelled)));

    let mut run = SeqRun::new(3, &p);
    assert!(run.observe(s("WKCN"), &p, false).is_ok());
    assert!(matches!(run.observe(s("WKNC"), &p, true), Err(WakuchinError::Cancelled)));
    assert!(!run.is_running());
    let hits = run.hits();
    assert_eq!(hits.len(), 1);
    assert_eq!(hits[0].trial, "WKCN");
    assert_eq!(hits[0].hits, 1);
}

#[test]
fn worker_stops_on_cancellation() {
    let p = Pattern::new(s("W")).unwrap();
    let mut w = WorkerTask::new(2, 4, 3, &p);
    let t = s("WKCN");
    match w.progress(&t) {
        Progress::Processing { id, index, current, total, total_workers, trial } => {
            assert_eq!((id, index, current, total, total_workers), (2, 0, 1, 4, 3));
            assert_eq!(trial, "WKCN");
        }
        _ => panic!("expected a processing snapshot"),
    }
    let h = w.observe(t, &p, false).unwrap();
    assert_eq!(h.index, 0);
    assert!(w.observe(s("KKKK"), &p, false).is_none());
    assert!(w.is_running());
    assert!(w.observe(s("WWWW"), &p, true).is_none());
    assert!(!w.is_running());
    assert_eq!(w.next(), 2);
    assert!(matches!(w.done_progress(), Progress::Done { id: 2, total: 4, total_workers: 3 }));
    let hits = w.into_hits();
    assert_eq!(hits.len(), 1);
    assert_eq!(hits[0].trial, "WKCN");
}

#[test]
fn sequential_rate_limit() {
    let mut r = Render::new();
    let idle = Progress::Idle { id: 0, total_workers: 1 };
    let proc = |current: usize| Progress::Processing {
        id: 0,
        index: current - 1,
        current,
        total: 10,
        total_workers: 1,
        trial: s("WKCN"),
    };
    let done = Progress::Done { id: 0, total: 10, total_workers: 1 };
    assert_eq!(r.render_progress(true, false, &proc(3)), Emission::Emit { delta: 0, reset_timer: false });
    assert_eq!(r.render_progress(false, false, &proc(3)), Emission::Skip);
    assert_eq!(r.render_progress(false, true, &done), Emission::Skip);
    assert_eq!(r.render_progress(false, true, &idle), Emission::Emit { delta: 0, reset_timer: true });
    assert_eq!(r.render_progress(false, true, &proc(4)), Emission::Emit { delta: 4, reset_timer: true });
    assert_eq!(r.render_progress(false, true, &proc(9)), Emission::Emit { delta: 5, reset_timer: true });
    assert_eq!(r.previous(), 9);
    r.handle_hit(&s("WKCN"));
    let hits = r.hits();
    assert_eq!(hits.len(), 1);
    assert_eq!(hits[0].hits, 1);
}

#[test]
fn aggregator_steps() {
    let mut a = ThreadRender::new(10, 2);
    let snaps = vec![
        Progress::Processing { id: 1, index: 2, current: 3, total: 5, total_workers: 2, trial: s("WKCN") },
        Progress::Done { id: 2, total: 5, total_workers: 2 },
    ];
    assert_eq!(processed_total(&snaps), Some(8));
    assert!(matches!(a.step(true, true, true, &snaps), RenderAction::AccidentalStop));
    assert!(matches!(a.step(false, false, false, &snaps), RenderAction::Wait));
    assert!(matches!(a.step(false, false, true, &snaps), RenderAction::Update { delta: 8 }));
    assert_eq!(a.previous(), 8);
    match a.step(false, true, true, &snaps) {
        RenderAction::Finish(v) => {
            assert_eq!(v.len(), 2);
            assert!(matches!(v[0], Progress::Done { id: 1, total: 10, total_workers: 2 }));
            assert!(matches!(v[1], Progress::Done { id: 2, total: 10, total_workers: 2 }));
        }
        _ => panic!("expected the final snapshots"),
    }
}

#[test]
fn parallel_result_from_counter() {
    let mut c = HitCounter::new();
    c.add(&s("WKCN"));
    c.add(&s("WKNC"));
    c.add(&s("WKNC"));
    let detail = vec![Hit::new(0, s("WKCN")), Hit::new(3, s("WKNC")), Hit::new(1, s("WKNC"))];
    let r = build_result(12, &c, detail);
    assert_eq!(r.hits_detail.len(), 3);
    assert_eq!(r.tries, 12);
    assert_eq!(r.hits_total, 3);
    assert_eq!(r.hits[0].trial, "WKNC");
    let counts = vec![HitCount { trial: s("a"), hits: 2 }, HitCount { trial: s("b"), hits: 5 }];
    assert_eq!(total_hits(&counts), Some(7));
    let big = vec![HitCount { trial: s("a"), hits: usize::MAX }, HitCount { trial: s("b"), hits: 1 }];
    assert_eq!(total_hits(&big), None);
}
