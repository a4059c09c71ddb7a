use sync_probes::error::ProbeError;
use sync_probes::relay::{relay_step, MutexRelayProbe, RelayAction};

fn released(workers: usize) -> MutexRelayProbe {
    let mut relay = MutexRelayProbe::new(workers);
    relay.release();
    relay
}

fn ascending(n: usize) -> Vec<usize> {
    (0..n).collect()
}

fn descending_rounds(n: usize) -> Vec<usize> {
    let mut schedule = Vec::new();
    for _ in 0..n {
        for i in (0..n).rev() {
            schedule.push(i);
        }
    }
    schedule
}

#[test]
fn step_advances_on_own_index() {
    let turn = relay_step(3, 3);
    assert_eq!(turn.baton, 4);
    assert_eq!(turn.action, RelayAction::Advance);
}

#[test]
fn step_backs_off_on_another_index() {
    let early = relay_step(2, 5);
    assert_eq!(early.baton, 2);
    assert_eq!(early.action, RelayAction::Backoff);
    let late = relay_step(7, 5);
    assert_eq!(late.baton, 7);
    assert_eq!(late.action, RelayAction::Backoff);
}

#[test]
fn step_from_zero() {
    let turn = relay_step(0, 0);
    assert_eq!(turn.baton, 1);
    assert_eq!(turn.action, RelayAction::Advance);
}

#[test]
fn relay_of_sixteen_in_natural_order() {
    let mut relay = released(16);
    relay.run(&ascending(16));
    assert_eq!(relay.baton(), 16);
    assert_eq!(relay.turns(), &ascending(16));
    assert_eq!(relay.check(), Ok(()));
    for i in 0..16 {
        assert!(relay.finished(i));
    }
}

#[test]
fn relay_of_sixteen_under_full_contention() {
    let mut relay = released(16);
    relay.run(&descending_rounds(16));
    assert_eq!(relay.baton(), 16);
    assert_eq!(relay.turns(), &ascending(16));
    assert_eq!(relay.check(), Ok(()));
}

#[test]
fn relay_one_descending_round_lets_only_the_first_worker_through() {
    let mut relay = released(4);
    relay.run(&vec![3, 2, 1, 0]);
    assert_eq!(relay.baton(), 1);
    assert_eq!(relay.turns(), &vec![0]);
    assert!(relay.finished(0));
    assert!(!relay.finished(1));
    assert_eq!(relay.check(), Err(ProbeError::AssertionFailed));
}

#[test]
fn relay_attempt_reports_each_outcome() {
    let mut relay = released(3);
    assert_eq!(relay.attempt(1), Some(RelayAction::Backoff));
    assert_eq!(relay.baton(), 0);
    assert_eq!(relay.attempt(0), Some(RelayAction::Advance));
    assert_eq!(relay.baton(), 1);
    assert_eq!(relay.attempt(0), Some(RelayAction::Backoff));
    assert_eq!(relay.attempt(1), Some(RelayAction::Advance));
    assert_eq!(relay.attempt(2), Some(RelayAction::Advance));
    assert_eq!(relay.attempt(3), Some(RelayAction::Backoff));
    assert_eq!(relay.baton(), 3);
    assert_eq!(relay.turns(), &vec![0, 1, 2]);
}

#[test]
fn relay_ignores_indices_that_name_no_worker() {
    let mut relay = released(2);
    relay.run(&vec![2, 9, usize::MAX]);
    assert_eq!(relay.baton(), 0);
    assert!(relay.turns().is_empty());
}

#[test]
fn relay_waits_for_the_orchestrator_to_let_go() {
    let mut relay = MutexRelayProbe::new(16);
    assert!(relay.held());
    assert_eq!(relay.attempt(0), None);
    relay.run(&descending_rounds(16));
    assert_eq!(relay.baton(), 0);
    assert!(relay.turns().is_empty());
    assert_eq!(relay.check(), Err(ProbeError::AssertionFailed));
    relay.release();
    assert!(!relay.held());
    relay.run(&ascending(16));
    assert_eq!(relay.baton(), 16);
    assert_eq!(relay.check(), Ok(()));
}

#[test]
fn relay_without_workers_is_complete_at_once() {
    let fresh = MutexRelayProbe::new(0);
    assert_eq!(fresh.baton(), 0);
    assert_eq!(fresh.check(), Ok(()));
    let mut relay = released(0);
    assert_eq!(relay.workers(), 0);
    assert_eq!(relay.baton(), 0);
    assert_eq!(relay.check(), Ok(()));
    relay.run(&vec![0, 1, 2]);
    assert_eq!(relay.baton(), 0);
    assert!(relay.turns().is_empty());
    assert_eq!(relay.check(), Ok(()));
}

#[test]
fn relay_single_worker() {
    let mut relay = released(1);
    assert_eq!(relay.check(), Err(ProbeError::AssertionFailed));
    relay.run(&vec![0]);
    assert_eq!(relay.baton(), 1);
    assert_eq!(relay.turns(), &vec![0]);
    assert_eq!(relay.check(), Ok(()));
}

#[test]
fn relay_repeats_with_the_same_result() {
    for _ in 0..3 {
        let mut relay = MutexRelayProbe::new(16);
        assert_eq!(relay.baton(), 0);
        assert!(relay.held());
        relay.release();
        relay.run(&descending_rounds(16));
        assert_eq!(relay.baton(), 16);
        assert_eq!(relay.turns(), &ascending(16));
    }
}

#[test]
fn relay_completes_from_any_prefix_by_the_remaining_workers_in_order() {
    let mut relay = released(6);
    relay.run(&vec![4, 0, 0, 5, 1, 3]);
    assert_eq!(relay.baton(), 2);
    relay.run(&vec![2, 3, 4, 5]);
    assert_eq!(relay.baton(), 6);
    assert_eq!(relay.turns(), &ascending(6));
}
