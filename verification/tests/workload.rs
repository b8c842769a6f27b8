use vex::summary::{RunTotals, WorkerTally};
use vex::pool::ErrorStats;
use vex::workload::{requests_for_worker, run_outcome, RunError};

#[test]
fn shares_follow_quotient_and_remainder() {
    let shares: Vec<usize> = (0..3).map(|w| requests_for_worker(10, 3, w)).collect();
    assert_eq!(shares, vec![4, 3, 3]);
    let shares: Vec<usize> = (0..4).map(|w| requests_for_worker(3, 4, w)).collect();
    assert_eq!(shares, vec![1, 1, 1, 0]);
    assert_eq!(requests_for_worker(1000, 1, 0), 1000);
    assert_eq!(requests_for_worker(0, 5, 2), 0);
    assert_eq!(requests_for_worker(usize::MAX, 2, 0), usize::MAX / 2 + 1);
}

#[test]
fn shares_add_up_to_total() {
    for total in [0usize, 1, 7, 10, 999, 1000] {
        for workers in 1usize..12 {
            let sum: usize = (0..workers).map(|w| requests_for_worker(total, workers, w)).sum();
            assert_eq!(sum, total);
        }
    }
}

#[test]
fn run_outcomes() {
    assert_eq!(run_outcome(0, false, 10, 10), Ok(()));
    assert_eq!(run_outcome(0, true, 10, 3), Ok(()));
    assert_eq!(run_outcome(0, false, 10, 9), Err(RunError::RequestCountMismatch { expected: 10, sent: 9 }));
    assert_eq!(run_outcome(2, false, 10, 9), Err(RunError::WorkerFailures(2)));
    assert_eq!(run_outcome(1, true, 10, 10), Err(RunError::WorkerFailures(1)));
}

#[test]
fn worker_tally_counts_responses() {
    let mut t = WorkerTally::new();
    let e = ErrorStats { send_errors: 1, recv_errors: 0, quic_errors: 2, stream_reset_errors: 0 };
    t.record_response(200, &e, "2xx");
    t.record_response(404, &ErrorStats::default(), "2xx");
    t.record_response(404, &ErrorStats::default(), "2xx,404");
    t.record_failed_request();
    assert_eq!(t.success(), 2);
    assert_eq!(t.fail(), 2);
    assert_eq!(t.errors(), e);
    assert_eq!(t.status_codes().sorted_entries(), vec![(200, 1), (404, 2)]);
}

#[test]
fn run_totals_add_up_workers() {
    let mut a = WorkerTally::new();
    a.record_response(200, &ErrorStats { send_errors: 1, recv_errors: 2, quic_errors: 3, stream_reset_errors: 4 }, "2xx");
    a.record_failed_request();
    let mut b = WorkerTally::new();
    b.record_response(200, &ErrorStats::default(), "2xx");
    b.record_response(503, &ErrorStats { send_errors: 0, recv_errors: 1, quic_errors: 0, stream_reset_errors: 0 }, "2xx");
    let mut totals = RunTotals::new();
    assert!(totals.fits(&a));
    totals.record_worker(&a);
    assert!(totals.fits(&b));
    totals.record_worker(&b);
    totals.record_worker_failure();
    assert_eq!(totals.total_requests(), 4);
    assert_eq!(totals.successful_requests(), 2);
    assert_eq!(totals.failed_requests(), 2);
    assert_eq!(totals.worker_failures(), 1);
    assert_eq!(
        totals.errors(),
        ErrorStats { send_errors: 1, recv_errors: 3, quic_errors: 3, stream_reset_errors: 4 }
    );
    assert_eq!(totals.status_code_counts().sorted_entries(), vec![(200, 2), (503, 1)]);
    assert_eq!(run_outcome(totals.worker_failures(), false, 4, totals.total_requests()), Err(RunError::WorkerFailures(1)));
}

#[test]
fn error_stats_add_and_report() {
    let mut e = ErrorStats::default();
    assert!(!e.has_errors());
    e.add(&ErrorStats { send_errors: 0, recv_errors: 0, quic_errors: 0, stream_reset_errors: 1 });
    assert!(e.has_errors());
    e.add(&ErrorStats { send_errors: 2, recv_errors: 3, quic_errors: 4, stream_reset_errors: 5 });
    assert_eq!(e, ErrorStats { send_errors: 2, recv_errors: 3, quic_errors: 4, stream_reset_errors: 6 });
    assert_eq!(ErrorStats::new(), ErrorStats::default());
}

#[test]
fn error_totals_do_not_depend_on_order() {
    let a = ErrorStats { send_errors: 1, recv_errors: 2, quic_errors: 3, stream_reset_errors: 4 };
    let b = ErrorStats { send_errors: 10, recv_errors: 0, quic_errors: 7, stream_reset_errors: 1 };
    let mut ab = a;
    ab.add(&b);
    let mut ba = b;
    ba.add(&a);
    assert_eq!(ab, ba);
    assert_eq!(ab, ErrorStats { send_errors: 11, recv_errors: 2, quic_errors: 10, stream_reset_errors: 5 });
}
