use sync_probes::timing::{
    stagger_millis, BACKOFF_MILLIS, POLL_MILLIS, SETTLE_MILLIS, STAGGER_MILLIS,
};

#[test]
fn stagger_grows_with_the_index() {
    assert_eq!(stagger_millis(0), 0);
    assert_eq!(stagger_millis(1), 100);
    assert_eq!(stagger_millis(7), 700);
    assert_eq!(stagger_millis(15), 1500);
}

#[test]
fn intervals_are_the_fixed_ones() {
    assert_eq!(STAGGER_MILLIS, 100);
    assert_eq!(BACKOFF_MILLIS, 100);
    assert_eq!(POLL_MILLIS, 50);
    assert_eq!(SETTLE_MILLIS, 100);
}
