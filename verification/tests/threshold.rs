use sync_probes::error::ProbeError;
use sync_probes::threshold::{
    poller_step, writer_step, PollAction, RwLockThresholdProbe, ThresholdEvent,
};

fn released(writers: usize) -> RwLockThresholdProbe {
    let mut probe = RwLockThresholdProbe::new(writers);
    probe.release();
    probe
}

#[test]
fn writer_adds_one() {
    assert_eq!(writer_step(0), 1);
    assert_eq!(writer_step(15), 16);
}

#[test]
fn poller_reports_until_the_threshold() {
    assert_eq!(poller_step(0, 16), PollAction::Report(0));
    assert_eq!(poller_step(15, 16), PollAction::Report(15));
    assert_eq!(poller_step(16, 16), PollAction::Terminate);
    assert_eq!(poller_step(17, 16), PollAction::Report(17));
    assert_eq!(poller_step(0, 0), PollAction::Terminate);
}

#[test]
fn threshold_of_sixteen_with_a_poll_after_each_write() {
    let mut probe = released(16);
    let mut schedule = vec![ThresholdEvent::Poll];
    for i in 0..16 {
        schedule.push(ThresholdEvent::Write(i));
        schedule.push(ThresholdEvent::Poll);
    }
    probe.run(&schedule);
    assert_eq!(probe.counter(), 16);
    assert_eq!(probe.observed(), &(0..=16).collect::<Vec<usize>>());
    assert!(!probe.polling());
    assert_eq!(probe.check(), Ok(()));
}

#[test]
fn threshold_writers_in_any_order() {
    let mut probe = released(4);
    probe.run(&vec![
        ThresholdEvent::Write(3),
        ThresholdEvent::Write(1),
        ThresholdEvent::Poll,
        ThresholdEvent::Poll,
        ThresholdEvent::Write(0),
        ThresholdEvent::Write(2),
        ThresholdEvent::Poll,
    ]);
    assert_eq!(probe.counter(), 4);
    assert_eq!(probe.observed(), &vec![2, 2, 4]);
    assert!(!probe.polling());
    for i in 0..4 {
        assert!(probe.has_written(i));
    }
    assert!(!probe.has_written(4));
}

#[test]
fn threshold_poller_may_miss_intermediate_values() {
    let mut probe = released(3);
    probe.run(&vec![
        ThresholdEvent::Write(0),
        ThresholdEvent::Write(1),
        ThresholdEvent::Write(2),
        ThresholdEvent::Poll,
    ]);
    assert_eq!(probe.observed(), &vec![3]);
    assert!(!probe.polling());
}

#[test]
fn threshold_writer_increments_once_only() {
    let mut probe = released(2);
    assert!(probe.write(1));
    assert!(!probe.write(1));
    assert!(!probe.write(2));
    assert_eq!(probe.counter(), 1);
    assert_eq!(probe.check(), Err(ProbeError::AssertionFailed));
    assert!(probe.write(0));
    assert_eq!(probe.counter(), 2);
    assert_eq!(probe.check(), Ok(()));
}

#[test]
fn threshold_poll_reports_then_terminates_then_is_gone() {
    let mut probe = released(1);
    assert_eq!(probe.poll(), Some(PollAction::Report(0)));
    assert!(probe.polling());
    probe.apply(ThresholdEvent::Write(0));
    assert_eq!(probe.poll(), Some(PollAction::Terminate));
    assert!(!probe.polling());
    assert_eq!(probe.poll(), None);
    assert_eq!(probe.observed(), &vec![0, 1]);
}

#[test]
fn threshold_waits_for_the_orchestrator_to_let_go() {
    let mut probe = RwLockThresholdProbe::new(2);
    assert!(probe.held());
    assert!(!probe.write(0));
    assert_eq!(probe.poll(), None);
    probe.run(&vec![ThresholdEvent::Write(1), ThresholdEvent::Poll]);
    assert_eq!(probe.counter(), 0);
    assert!(probe.observed().is_empty());
    assert!(probe.polling());
    probe.release();
    assert!(!probe.held());
    probe.run(&vec![
        ThresholdEvent::Write(1),
        ThresholdEvent::Poll,
        ThresholdEvent::Write(0),
        ThresholdEvent::Poll,
    ]);
    assert_eq!(probe.counter(), 2);
    assert_eq!(probe.observed(), &vec![1, 2]);
    assert!(!probe.polling());
}

#[test]
fn threshold_without_writers_is_complete_at_once() {
    let fresh = RwLockThresholdProbe::new(0);
    assert_eq!(fresh.counter(), 0);
    assert_eq!(fresh.check(), Ok(()));
    let mut probe = released(0);
    assert_eq!(probe.writers(), 0);
    assert_eq!(probe.counter(), 0);
    assert_eq!(probe.check(), Ok(()));
    assert_eq!(probe.poll(), Some(PollAction::Terminate));
    probe.run(&vec![ThresholdEvent::Write(0), ThresholdEvent::Poll]);
    assert_eq!(probe.counter(), 0);
    assert_eq!(probe.observed(), &vec![0]);
}

#[test]
fn threshold_observations_never_decrease() {
    let mut probe = released(5);
    probe.run(&vec![
        ThresholdEvent::Poll,
        ThresholdEvent::Write(4),
        ThresholdEvent::Poll,
        ThresholdEvent::Write(4),
        ThresholdEvent::Poll,
        ThresholdEvent::Write(2),
        ThresholdEvent::Write(0),
        ThresholdEvent::Poll,
        ThresholdEvent::Write(1),
        ThresholdEvent::Write(3),
        ThresholdEvent::Poll,
        ThresholdEvent::Poll,
    ]);
    let seen = probe.observed();
    assert_eq!(seen, &vec![0, 1, 1, 3, 5]);
    assert!(seen.windows(2).all(|w| w[0] <= w[1]));
    assert_eq!(*seen.last().unwrap(), 5);
}

#[test]
fn threshold_repeats_with_the_same_result() {
    for round in 0..3 {
        let mut probe = RwLockThresholdProbe::new(16);
        assert_eq!(probe.counter(), 0);
        assert!(probe.held());
        probe.release();
        let mut schedule = Vec::new();
        for i in 0..16 {
            schedule.push(ThresholdEvent::Write((i + round) % 16));
        }
        probe.run(&schedule);
        assert_eq!(probe.counter(), 16);
        assert_eq!(probe.check(), Ok(()));
    }
}
