//! How a load test shares its requests among its workers, and how a
//! finished run is judged.
use vstd::prelude::*;

verus! {

/// Requests of worker `worker_id` when `total` requests are shared among
/// `workers` workers: every worker gets `total / workers`, and the first
/// `total % workers` workers get one more.
pub open spec fn worker_share(total: nat, workers: nat, worker_id: nat) -> nat
    recommends
        workers > 0,
{
    total / workers + if worker_id < total % workers {
        1nat
    } else {
        0nat
    }
}

/// Requests of the first `k` workers together.
pub open spec fn shares_of_first(total: nat, workers: nat, k: nat) -> nat
    decreases k,
{
    if k == 0 {
        0
    } else {
        shares_of_first(total, workers, (k - 1) as nat) + worker_share(total, workers, (k - 1) as nat)
    }
}

/// How many requests worker `worker_id` sends.
pub fn requests_for_worker(total: usize, workers: usize, worker_id: usize) -> (r: usize)
    requires
        workers > 0,
    ensures
        r == worker_share(total as nat, workers as nat, worker_id as nat),
{
    let quotient = total / workers;
    let remainder = total % workers;
    if worker_id < remainder {
        assert(quotient + 1 <= total) by (nonlinear_arith)
            requires
                quotient == total / workers,
                remainder == total % workers,
                remainder >= 1,
                workers >= 1,
        {
            assert(total == workers * quotient + remainder);
            assert(workers * quotient >= quotient);
        }
        quotient + 1
    } else {
        quotient
    }
}

proof fn lemma_shares_of_first(total: nat, workers: nat, k: nat)
    requires
        workers > 0,
        k <= workers,
    ensures
        shares_of_first(total, workers, k) == k * (total / workers) + if k < total % workers {
            k
        } else {
            total % workers
        },
    decreases k,
{
    let q = total / workers;
    if k > 0 {
        lemma_shares_of_first(total, workers, (k - 1) as nat);
        let j = (k - 1) as nat;
        assert(j * q + q == k * q) by (nonlinear_arith)
            requires
                j + 1 == k,
        ;
    } else {
        assert(k * q == 0) by (nonlinear_arith)
            requires
                k == 0,
        ;
    }
}

/// Sharing loses and duplicates no request: the shares of all workers add
/// up to the total.
pub proof fn law_shares_cover_total(total: nat, workers: nat)
    requires
        workers > 0,
    ensures
        shares_of_first(total, workers, workers) == total,
{
    lemma_shares_of_first(total, workers, workers);
    assert(total % workers < workers) by (nonlinear_arith)
        requires
            workers > 0,
    ;
    assert(workers * (total / workers) + total % workers == total) by (nonlinear_arith)
        requires
            workers > 0,
    ;
}

/// Sharing is even: every worker gets at least `total / workers`, no worker
/// gets more than one request over another, and earlier workers never get
/// fewer than later ones.
pub proof fn law_shares_balanced(total: nat, workers: nat, i: nat, j: nat)
    requires
        workers > 0,
        i <= j < workers,
    ensures
        worker_share(total, workers, i) >= total / workers,
        worker_share(total, workers, i) <= total / workers + 1,
        worker_share(total, workers, j) <= worker_share(total, workers, i),
        worker_share(total, workers, i) <= worker_share(total, workers, j) + 1,
{
}

/// Why a finished run counts as failed.
#[derive(Debug, Clone, Copy, PartialEq, Eq, Structural)]
pub enum RunError {
    /// Some workers panicked or were cancelled.
    WorkerFailures(usize),
    /// The run was not cut short by its duration, yet the number of requests
    /// sent differs from the number asked for.
    RequestCountMismatch { expected: usize, sent: usize },
}

/// The verdict on a finished run: failed workers come first; then, unless
/// the duration limit was reached, every requested request must have been
/// sent.
pub fn run_outcome(worker_failures: usize, hit_duration_limit: bool, expected: usize, sent: usize) -> (r:
    Result<(), RunError>)
    ensures
        worker_failures > 0 ==> r == Err::<(), RunError>(RunError::WorkerFailures(worker_failures)),
        worker_failures == 0 && !hit_duration_limit && sent != expected ==> r == Err::<(), RunError>(
            RunError::RequestCountMismatch { expected, sent },
        ),
        worker_failures == 0 && (hit_duration_limit || sent == expected) ==> r is Ok,
{
    if worker_failures > 0 {
        return Err(RunError::WorkerFailures(worker_failures));
    }
    if !hit_duration_limit && sent != expected {
        return Err(RunError::RequestCountMismatch { expected, sent });
    }
    Ok(())
}

} // verus!
