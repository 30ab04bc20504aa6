use beammp_client::bootstrap::{after_attempt, first_candidate, Failover};

#[test]
fn no_candidates_means_exhausted() {
    assert_eq!(first_candidate(0), Failover::Exhausted);
    assert_eq!(first_candidate(3), Failover::TryNext(0));
}

#[test]
fn first_success_stops_the_scan() {
    assert_eq!(after_attempt(0, 3, true), Failover::Connected(0));
    assert_eq!(after_attempt(2, 3, true), Failover::Connected(2));
}

#[test]
fn failures_move_on_in_order_then_give_up() {
    let mut step = first_candidate(3);
    let mut tried = Vec::new();
    while let Failover::TryNext(i) = step {
        tried.push(i);
        step = after_attempt(i, 3, false);
    }
    assert_eq!(tried, vec![0, 1, 2]);
    assert_eq!(step, Failover::Exhausted);
}

#[test]
fn second_address_connects() {
    let outcomes = [false, true, true];
    let mut step = first_candidate(outcomes.len());
    while let Failover::TryNext(i) = step {
        step = after_attempt(i, outcomes.len(), outcomes[i]);
    }
    assert_eq!(step, Failover::Connected(1));
}
