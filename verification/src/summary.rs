//! Accounting of a load test: what one worker saw, and the totals over all
//! workers that the report prints.
use vstd::prelude::*;

use crate::pool::{add_counts, ErrorCounts, ErrorStats};
use crate::status::{
    add_count,
    count_in,
    is_success_status,
    merge_counts,
    success_status_spec,
    StatusCounts,
};

verus! {

/// The results of one worker: responses judged successful, requests that
/// failed (a response outside the success pattern, or no response), the
/// errors counted along the way, and how many responses carried each
/// status code.
pub struct WorkerTally {
    success: usize,
    fail: usize,
    errors: ErrorStats,
    status_codes: StatusCounts,
}

/// What a worker saw, as numbers.
pub struct TallyView {
    pub success: nat,
    pub fail: nat,
    pub errors: ErrorCounts,
    pub status_codes: Map<u16, usize>,
}

impl View for WorkerTally {
    type V = TallyView;

    closed spec fn view(&self) -> TallyView {
        TallyView {
            success: self.success as nat,
            fail: self.fail as nat,
            errors: self.errors.counts(),
            status_codes: self.status_codes@,
        }
    }
}

impl WorkerTally {
    /// Every response was judged, so no status code was seen more often
    /// than there were requests.
    #[verifier::type_invariant]
    closed spec fn each_status_is_a_request(self) -> bool {
        forall|c: u16| count_in(self.status_codes@, c) <= self.success + self.fail
    }

    /// Nothing seen yet.
    pub fn new() -> (r: WorkerTally)
        ensures
            r@.success == 0,
            r@.fail == 0,
            r@.errors == (0nat, 0nat, 0nat, 0nat),
            r@.status_codes == Map::<u16, usize>::empty(),
    {
        WorkerTally { success: 0, fail: 0, errors: ErrorStats::new(), status_codes: StatusCounts::new() }
    }

    /// Counts one response: its status code is recorded, it is a success or
    /// a failure by `success_pattern`, and its errors are added.
    pub fn record_response(&mut self, status_code: u16, errors: &ErrorStats, success_pattern: &str)
        requires
            old(self)@.success + old(self)@.fail < usize::MAX,
            old(self)@.errors.0 + errors.send_errors <= usize::MAX,
            old(self)@.errors.1 + errors.recv_errors <= usize::MAX,
            old(self)@.errors.2 + errors.quic_errors <= usize::MAX,
            old(self)@.errors.3 + errors.stream_reset_errors <= usize::MAX,
        ensures
            final(self)@.status_codes == add_count(old(self)@.status_codes, status_code, 1),
            success_status_spec(status_code, success_pattern@) ==> final(self)@.success
                == old(self)@.success + 1 && final(self)@.fail == old(self)@.fail,
            !success_status_spec(status_code, success_pattern@) ==> final(self)@.success
                == old(self)@.success && final(self)@.fail == old(self)@.fail + 1,
            final(self)@.errors == add_counts(old(self)@.errors, errors.counts()),
    {
        proof {
            use_type_invariant(&*self);
        }
        let ghost before = self.status_codes@;
        let mut codes = StatusCounts::new();
        std::mem::swap(&mut codes, &mut self.status_codes);
        codes.record(status_code, 1);
        if is_success_status(status_code, success_pattern) {
            self.success = self.success + 1;
        } else {
            self.fail = self.fail + 1;
        }
        assert forall|c: u16| count_in(codes@, c) <= self.success + self.fail by {
            assert(count_in(before, c) <= old(self).success + old(self).fail);
        }
        self.status_codes = codes;
        let mut total_errors = self.errors;
        total_errors.add(errors);
        self.errors = total_errors;
    }

    /// Counts one request that got no response.
    pub fn record_failed_request(&mut self)
        requires
            old(self)@.success + old(self)@.fail < usize::MAX,
        ensures
            final(self)@.fail == old(self)@.fail + 1,
            final(self)@.success == old(self)@.success,
            final(self)@.errors == old(self)@.errors,
            final(self)@.status_codes == old(self)@.status_codes,
    {
        proof {
            use_type_invariant(&*self);
        }
        self.fail = self.fail + 1;
    }

    /// Responses judged successful.
    pub fn success(&self) -> (r: usize)
        ensures
            r == self@.success,
    {
        self.success
    }

    /// Failed requests.
    pub fn fail(&self) -> (r: usize)
        ensures
            r == self@.fail,
    {
        self.fail
    }

    /// The errors counted.
    pub fn errors(&self) -> (r: ErrorStats)
        ensures
            r.counts() == self@.errors,
    {
        self.errors
    }

    /// The status codes seen, with their counts.
    pub fn status_codes(&self) -> (r: &StatusCounts)
        ensures
            r@ == self@.status_codes,
    {
        &self.status_codes
    }
}

/// The totals of a run over all workers.
pub struct RunTotals {
    total_requests: usize,
    successful_requests: usize,
    failed_requests: usize,
    errors: ErrorStats,
    status_code_counts: StatusCounts,
    worker_failures: usize,
}

/// The totals of a run, as numbers.
pub struct TotalsView {
    pub total_requests: nat,
    pub successful_requests: nat,
    pub failed_requests: nat,
    pub errors: ErrorCounts,
    pub status_code_counts: Map<u16, usize>,
    pub worker_failures: nat,
}

impl View for RunTotals {
    type V = TotalsView;

    closed spec fn view(&self) -> TotalsView {
        TotalsView {
            total_requests: self.total_requests as nat,
            successful_requests: self.successful_requests as nat,
            failed_requests: self.failed_requests as nat,
            errors: self.errors.counts(),
            status_code_counts: self.status_code_counts@,
            worker_failures: self.worker_failures as nat,
        }
    }
}

impl RunTotals {
    /// Every request is either successful or failed, and no status code was
    /// seen more often than there were requests.
    #[verifier::type_invariant]
    closed spec fn consistent(self) -> bool {
        &&& self.total_requests == self.successful_requests + self.failed_requests
        &&& forall|c: u16| count_in(self.status_code_counts@, c) <= self.total_requests
    }

    /// Can the results of `w` be added without a count leaving `usize`?
    pub open spec fn can_record(&self, w: &WorkerTally) -> bool {
        &&& self@.total_requests + w@.success + w@.fail <= usize::MAX
        &&& self@.errors.0 + w@.errors.0 <= usize::MAX
        &&& self@.errors.1 + w@.errors.1 <= usize::MAX
        &&& self@.errors.2 + w@.errors.2 <= usize::MAX
        &&& self@.errors.3 + w@.errors.3 <= usize::MAX
    }

    /// Nothing counted yet.
    pub fn new() -> (r: RunTotals)
        ensures
            r@.total_requests == 0,
            r@.successful_requests == 0,
            r@.failed_requests == 0,
            r@.errors == (0nat, 0nat, 0nat, 0nat),
            r@.status_code_counts == Map::<u16, usize>::empty(),
            r@.worker_failures == 0,
    {
        RunTotals {
            total_requests: 0,
            successful_requests: 0,
            failed_requests: 0,
            errors: ErrorStats::new(),
            status_code_counts: StatusCounts::new(),
            worker_failures: 0,
        }
    }

    /// Whether the results of `w` can be added.
    pub fn fits(&self, w: &WorkerTally) -> (r: bool)
        ensures
            r == self.can_record(w),
    {
        let e = &self.errors;
        let we = w.errors();
        let s = w.success();
        let f = w.fail();
        self.total_requests <= usize::MAX - s && s <= usize::MAX - f && self.total_requests
            <= usize::MAX - s - f && e.send_errors <= usize::MAX - we.send_errors && e.recv_errors
            <= usize::MAX - we.recv_errors && e.quic_errors <= usize::MAX - we.quic_errors
            && e.stream_reset_errors <= usize::MAX - we.stream_reset_errors
    }

    /// Adds the results of a worker that finished.
    pub fn record_worker(&mut self, w: &WorkerTally)
        requires
            old(self).can_record(w),
        ensures
            final(self)@.total_requests == old(self)@.total_requests + w@.success + w@.fail,
            final(self)@.successful_requests == old(self)@.successful_requests + w@.success,
            final(self)@.failed_requests == old(self)@.failed_requests + w@.fail,
            final(self)@.errors == add_counts(old(self)@.errors, w@.errors),
            final(self)@.status_code_counts == merge_counts(
                old(self)@.status_code_counts,
                w@.status_codes,
            ),
            final(self)@.worker_failures == old(self)@.worker_failures,
    {
        proof {
            use_type_invariant(&*self);
            use_type_invariant(w);
        }
        let s = w.success();
        let f = w.fail();
        let we = w.errors();
        let mut total_errors = self.errors;
        total_errors.add(&we);
        let ghost before = self.status_code_counts@;
        let mut codes = StatusCounts::new();
        std::mem::swap(&mut codes, &mut self.status_code_counts);
        assert forall|c: u16| count_in(codes@, c) + count_in(w.status_codes@, c) <= usize::MAX by {
            assert(count_in(before, c) <= old(self).total_requests);
            assert(count_in(w.status_codes@, c) <= w.success + w.fail);
        }
        codes.merge(w.status_codes());
        let total = self.total_requests + s + f;
        assert forall|c: u16| count_in(codes@, c) <= total by {
            assert(count_in(before, c) <= old(self).total_requests);
            assert(count_in(w.status_codes@, c) <= w.success + w.fail);
        }
        *self = RunTotals {
            total_requests: total,
            successful_requests: self.successful_requests + s,
            failed_requests: self.failed_requests + f,
            errors: total_errors,
            status_code_counts: codes,
            worker_failures: self.worker_failures,
        };
    }

    /// Counts a worker that panicked or was cancelled.
    pub fn record_worker_failure(&mut self)
        requires
            old(self)@.worker_failures < usize::MAX,
        ensures
            final(self)@.worker_failures == old(self)@.worker_failures + 1,
            final(self)@.total_requests == old(self)@.total_requests,
            final(self)@.successful_requests == old(self)@.successful_requests,
            final(self)@.failed_requests == old(self)@.failed_requests,
            final(self)@.errors == old(self)@.errors,
            final(self)@.status_code_counts == old(self)@.status_code_counts,
    {
        proof {
            use_type_invariant(&*self);
        }
        self.worker_failures = self.worker_failures + 1;
    }

    /// Requests sent by all workers: the successful ones and the failed ones.
    pub fn total_requests(&self) -> (r: usize)
        ensures
            r == self@.total_requests,
            self@.total_requests == self@.successful_requests + self@.failed_requests,
    {
        proof {
            use_type_invariant(self);
        }
        self.total_requests
    }

    /// Requests whose response was judged successful.
    pub fn successful_requests(&self) -> (r: usize)
        ensures
            r == self@.successful_requests,
    {
        self.successful_requests
    }

    /// Requests that failed.
    pub fn failed_requests(&self) -> (r: usize)
        ensures
            r == self@.failed_requests,
    {
        self.failed_requests
    }

    /// All errors counted.
    pub fn errors(&self) -> (r: ErrorStats)
        ensures
            r.counts() == self@.errors,
    {
        self.errors
    }

    /// Responses per status code over all workers.
    pub fn status_code_counts(&self) -> (r: &StatusCounts)
        ensures
            r@ == self@.status_code_counts,
    {
        &self.status_code_counts
    }

    /// Workers that panicked or were cancelled.
    pub fn worker_failures(&self) -> (r: usize)
        ensures
            r == self@.worker_failures,
    {
        self.worker_failures
    }
}

} // verus!
