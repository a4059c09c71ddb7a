use sync_probes::error::ProbeError;
use sync_probes::wakeup::{
    waiter_step, CondvarWakeupProbe, WaitAction, WaiterState, WakeupEvent,
};

fn examine_all(n: usize) -> Vec<WakeupEvent> {
    (0..n).map(WakeupEvent::Examine).collect()
}

fn count(probe: &CondvarWakeupProbe, state: WaiterState) -> usize {
    (0..probe.waiters()).filter(|&i| probe.state(i) == state).count()
}

#[test]
fn waiter_goes_by_the_predicate_alone() {
    assert_eq!(waiter_step(false), WaitAction::Block);
    assert_eq!(waiter_step(true), WaitAction::Proceed);
}

#[test]
fn condvar_of_sixteen_with_a_spurious_wakeup() {
    let mut probe = CondvarWakeupProbe::new(16);
    assert_eq!(count(&probe, WaiterState::Ready), 16);
    probe.run(&examine_all(16));
    assert_eq!(count(&probe, WaiterState::Blocked), 16);

    probe.notify_all();
    assert!(!probe.predicate());
    assert_eq!(count(&probe, WaiterState::Ready), 16);
    probe.run(&examine_all(16));
    assert_eq!(count(&probe, WaiterState::Completed), 0);
    assert_eq!(count(&probe, WaiterState::Blocked), 16);
    assert!(!probe.completed());
    assert_eq!(probe.check(), Err(ProbeError::AssertionFailed));

    probe.raise();
    assert!(probe.predicate());
    assert_eq!(count(&probe, WaiterState::Completed), 0);
    probe.notify_all();
    probe.run(&examine_all(16));
    assert_eq!(count(&probe, WaiterState::Completed), 16);
    assert!(probe.completed());
    assert_eq!(probe.check(), Ok(()));
}

#[test]
fn condvar_of_sixteen_without_a_spurious_wakeup() {
    let mut probe = CondvarWakeupProbe::new(16);
    probe.run(&examine_all(16));
    probe.run(&vec![WakeupEvent::Raise, WakeupEvent::NotifyAll]);
    probe.run(&examine_all(16));
    assert_eq!(count(&probe, WaiterState::Completed), 16);
    assert_eq!(probe.check(), Ok(()));
}

#[test]
fn condvar_late_waiter_finds_the_predicate_true() {
    let mut probe = CondvarWakeupProbe::new(3);
    assert_eq!(probe.examine(0), Some(WaitAction::Block));
    probe.raise();
    assert_eq!(probe.examine(1), Some(WaitAction::Proceed));
    assert_eq!(probe.examine(0), None);
    assert_eq!(probe.state(0), WaiterState::Blocked);
    probe.notify_all();
    assert_eq!(probe.state(0), WaiterState::Ready);
    assert_eq!(probe.state(1), WaiterState::Completed);
    assert_eq!(probe.examine(0), Some(WaitAction::Proceed));
    assert_eq!(probe.examine(1), None);
    assert_eq!(probe.examine(3), None);
    assert!(!probe.completed());
    probe.apply(WakeupEvent::Examine(2));
    assert!(probe.completed());
}

#[test]
fn condvar_raise_without_notify_wakes_nobody() {
    let mut probe = CondvarWakeupProbe::new(2);
    probe.run(&examine_all(2));
    probe.raise();
    probe.run(&examine_all(2));
    assert_eq!(count(&probe, WaiterState::Blocked), 2);
    assert!(!probe.completed());
}

#[test]
fn condvar_many_spurious_wakeups_complete_nobody() {
    let mut probe = CondvarWakeupProbe::new(4);
    for _ in 0..5 {
        probe.run(&examine_all(4));
        probe.apply(WakeupEvent::NotifyAll);
        assert_eq!(count(&probe, WaiterState::Completed), 0);
    }
    assert!(!probe.predicate());
}

#[test]
fn condvar_without_waiters_is_complete_at_once() {
    let mut probe = CondvarWakeupProbe::new(0);
    assert_eq!(probe.waiters(), 0);
    assert!(!probe.predicate());
    assert!(probe.completed());
    assert_eq!(probe.check(), Ok(()));
    probe.run(&vec![WakeupEvent::NotifyAll, WakeupEvent::Examine(0)]);
    assert!(!probe.predicate());
    assert_eq!(probe.waiters(), 0);
    probe.run(&vec![WakeupEvent::Raise, WakeupEvent::NotifyAll]);
    assert!(probe.predicate());
    assert_eq!(probe.check(), Ok(()));
}

#[test]
fn condvar_repeats_with_the_same_result() {
    for _ in 0..3 {
        let mut probe = CondvarWakeupProbe::new(16);
        assert!(!probe.predicate());
        probe.run(&examine_all(16));
        probe.run(&vec![WakeupEvent::NotifyAll, WakeupEvent::Raise, WakeupEvent::NotifyAll]);
        probe.run(&examine_all(16));
        assert_eq!(probe.check(), Ok(()));
    }
}
