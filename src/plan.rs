use vstd::prelude::*;

use crate::result::{empty_result, WakuchinError, WakuchinResult};

verus! {

/// Size of the `i`-th of `workers` contiguous ranges that split `tries`
/// trials: sizes differ by at most one and earlier ranges take the remainder.
pub open spec fn part_size(tries: nat, workers: nat, i: nat) -> nat
    recommends
        workers > 0,
{
    tries / workers + if i < tries % workers {
        1nat
    } else {
        0nat
    }
}

/// `r` is the split of `tries` trials over `workers` workers.
pub open spec fn is_partition(tries: nat, workers: nat, r: Seq<usize>) -> bool {
    &&& r.len() == workers
    &&& forall|i: int| 0 <= i < r.len() ==> #[trigger] r[i] == part_size(tries, workers, i as nat)
}

pub open spec fn sum_sizes(s: Seq<usize>) -> nat
    decreases s.len(),
{
    if s.len() == 0 {
        0
    } else {
        sum_sizes(s.drop_last()) + s.last() as nat
    }
}

pub open spec fn min_nat(a: nat, b: nat) -> nat {
    if a < b {
        a
    } else {
        b
    }
}

/// What a run does before any resource is made: a run of no trials ends at
/// once with the empty result (`Ok(Some(..))`), a zero trial shape is refused,
/// and otherwise the run goes ahead (`Ok(None)`).
pub fn check_arguments(tries: usize, times: usize) -> (r: Result<Option<WakuchinResult>, WakuchinError>)
    ensures
        tries == 0 ==> (r matches Ok(Some(e)) && e.tries == 0 && e.hits_total == 0 && e.hits@.len()
            == 0 && e.hits_detail@.len() == 0),
        tries > 0 && times == 0 ==> r == Err::<Option<WakuchinResult>, WakuchinError>(
            WakuchinError::TimesIsZero,
        ),
        tries > 0 && times > 0 ==> r matches Ok(None),
{
    if tries == 0 {
        return Ok(Some(empty_result()));
    }
    if times == 0 {
        return Err(WakuchinError::TimesIsZero);
    }
    Ok(None)
}

/// Never more workers than trials.
pub fn worker_count(tries: usize, available: usize) -> (r: usize)
    ensures
        r == min_nat(available as nat, tries as nat),
{
    if tries < available {
        tries
    } else {
        available
    }
}

/// Relies on num_cpus::get: the number of logical cores, which its
/// documentation promises is at least one.
#[verifier::external_body]
fn detected_cores() -> (r: usize)
    ensures
        r >= 1,
{
    num_cpus::get()
}

/// The number of workers of a run: the requested number, or the number of
/// logical cores when zero was requested, and never more than `tries`.
pub fn effective_worker_count(tries: usize, requested: usize) -> (r: usize)
    ensures
        requested > 0 ==> r == min_nat(requested as nat, tries as nat),
        tries > 0 ==> 1 <= r <= tries,
        tries == 0 ==> r == 0,
{
    let available = if requested == 0 {
        detected_cores()
    } else {
        requested
    };
    worker_count(tries, available)
}

/// The number of trials each worker runs, in worker order.
pub fn partition(tries: usize, workers: usize) -> (r: Vec<usize>)
    requires
        workers >= 1,
    ensures
        is_partition(tries as nat, workers as nat, r@),
{
    let base = tries / workers;
    let rem = tries % workers;
    let mut r: Vec<usize> = Vec::new();
    let mut i: usize = 0;
    while i < workers
        invariant
            i <= workers,
            workers >= 1,
            base == tries as nat / workers as nat,
            rem == tries as nat % workers as nat,
            r@.len() == i,
            forall|j: int| 0 <= j < i ==> #[trigger] r@[j] == part_size(tries as nat, workers as nat, j as nat),
        decreases workers - i,
    {
        proof {
            assert(base * workers <= tries) by (nonlinear_arith)
                requires
                    base == tries as nat / workers as nat,
                    workers >= 1,
            {
            }
            vstd::arithmetic::div_mod::lemma_fundamental_div_mod(tries as int, workers as int);
            if i < rem {
                assert(base + 1 <= tries) by (nonlinear_arith)
                    requires
                        tries == workers * base + rem,
                        rem >= 1,
                        workers >= 1,
                {
                }
            }
        }
        if i < rem {
            r.push(base + 1);
        } else {
            r.push(base);
        }
        i = i + 1;
    }
    r
}

/// The first `k` ranges of a split hold `k * (tries / workers)` trials plus one
/// for each of them that takes part of the remainder.
proof fn lemma_partition_prefix(tries: nat, workers: nat, r: Seq<usize>, k: nat)
    requires
        workers >= 1,
        is_partition(tries, workers, r),
        k <= workers,
    ensures
        sum_sizes(r.take(k as int)) == k * (tries / workers) + min_nat(k, tries % workers),
    decreases k,
{
    if k > 0 {
        lemma_partition_prefix(tries, workers, r, (k - 1) as nat);
        assert(r.take(k as int).drop_last() == r.take(k - 1));
        assert(r[k - 1] == part_size(tries, workers, (k - 1) as nat));
        let q = tries / workers;
        let km: int = k - 1;
        assert(km * q + q == (km + 1) * q) by (nonlinear_arith);
        assert(r.take(k as int).last() == r[k - 1]);
    } else {
        assert(r.take(0) =~= Seq::<usize>::empty());
        assert(0 * (tries / workers) == 0);
    }
}

/// A split of `tries` trials over `workers` workers runs every trial once:
/// its sizes add up to `tries`, and no two sizes differ by more than one.
pub proof fn lemma_partition_exhaustive(tries: nat, workers: nat, r: Seq<usize>)
    requires
        workers >= 1,
        is_partition(tries, workers, r),
    ensures
        sum_sizes(r) == tries,
        forall|i: int, j: int| 0 <= i < r.len() && 0 <= j < r.len() ==> r[i] <= r[j] + 1,
{
    lemma_partition_prefix(tries, workers, r, workers);
    assert(r.take(workers as int) == r);
    assert(tries == workers * (tries / workers) + tries % workers) by (nonlinear_arith)
        requires
            workers >= 1,
    {
        vstd::arithmetic::div_mod::lemma_fundamental_div_mod(tries as int, workers as int);
    }
    assert forall|i: int, j: int| 0 <= i < r.len() && 0 <= j < r.len() implies r[i] <= r[j] + 1 by {
        assert(r[i] == part_size(tries, workers, i as nat));
        assert(r[j] == part_size(tries, workers, j as nat));
    }
}

} // verus!
