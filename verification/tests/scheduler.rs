use squire::fetch::{FailureCause, FetchOutcome};
use squire::scheduler::Scheduler;

#[test]
fn five_items_limit_two_one_failure_all_outcomes_recorded() {
    let mut s = Scheduler::new(5, 2);
    let mut max_in_flight = 0;
    // Start as many fetches as the limit allows, then complete the oldest
    // in-flight one, until every item is done; item 2 always fails.
    let mut pending: Vec<usize> = Vec::new();
    while !s.is_done() {
        while s.can_start_next() {
            let idx = s.start_next();
            pending.push(idx);
            assert!(s.in_flight <= 2);
            if s.in_flight > max_in_flight {
                max_in_flight = s.in_flight;
            }
        }
        let idx = pending.remove(0);
        let outcome = if idx == 2 {
            FetchOutcome::Failed(FailureCause::Network)
        } else {
            FetchOutcome::Written
        };
        s.complete(outcome);
    }
    assert_eq!(max_in_flight, 2);
    assert_eq!(s.outcomes.len(), 5);
    let failed = s
        .outcomes
        .iter()
        .filter(|o| matches!(o, FetchOutcome::Failed(_)))
        .count();
    assert_eq!(failed, 1);
}

#[test]
fn a_run_without_items_finishes_with_no_outcomes() {
    let s = Scheduler::new(0, 3);
    assert!(s.is_done());
    assert!(!s.can_start_next());
    assert!(s.outcomes.is_empty());
}

#[test]
fn the_limit_gates_starts_until_a_completion() {
    let mut s = Scheduler::new(3, 1);
    assert!(s.can_start_next());
    let first = s.start_next();
    assert_eq!(first, 0);
    assert!(!s.can_start_next());
    s.complete(FetchOutcome::Written);
    assert!(s.can_start_next());
}
