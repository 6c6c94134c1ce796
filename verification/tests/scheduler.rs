use cloud_storage_sync::scheduler::JobScheduler;

#[test]
fn five_jobs_under_limit_two() {
    // Five pending jobs, bound 2: drive starts and completions, asserting
    // after every step that no more than 2 are in flight, and that the
    // outcomes fold to the right total.
    let outcomes: [usize; 5] = [1, 0, 1, 1, 0];
    let mut scheduler = JobScheduler::new(2);
    let mut peak: usize = 0;
    let mut next: usize = 0;
    let mut pending: Vec<usize> = Vec::new();

    while next < outcomes.len() {
        if scheduler.is_full() {
            // Collect one completion before starting the next job.
            let outcome = pending.remove(0);
            scheduler.complete(outcome);
        }
        scheduler.start_job();
        pending.push(outcomes[next]);
        next += 1;
        peak = peak.max(scheduler.in_flight_count());
        assert!(scheduler.in_flight_count() <= scheduler.concurrency_limit());
    }
    while !pending.is_empty() {
        let outcome = pending.remove(0);
        scheduler.complete(outcome);
        assert!(scheduler.in_flight_count() <= scheduler.concurrency_limit());
    }

    assert_eq!(peak, 2);
    assert_eq!(scheduler.in_flight_count(), 0);
    assert_eq!(scheduler.into_total(), 3);
}

#[test]
fn pool_reports_full_exactly_at_limit() {
    let mut scheduler = JobScheduler::new(2);
    assert!(!scheduler.is_full());
    scheduler.start_job();
    assert!(!scheduler.is_full());
    scheduler.start_job();
    assert!(scheduler.is_full());
    scheduler.complete(1);
    assert!(!scheduler.is_full());
    scheduler.complete(0);
    assert_eq!(scheduler.into_total(), 1);
}

#[test]
fn limit_one_serializes() {
    let mut scheduler = JobScheduler::new(1);
    scheduler.start_job();
    assert!(scheduler.is_full());
    scheduler.complete(1);
    scheduler.start_job();
    scheduler.complete(1);
    assert_eq!(scheduler.into_total(), 2);
}
