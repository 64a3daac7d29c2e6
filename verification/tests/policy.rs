use reth_crawler::{FailureEvent, UpdateListener, Verdict};

fn fail(l: &mut UpdateListener, id: u64) -> Verdict {
    l.on_failure(id, FailureEvent::Layer1 { at_capacity: false })
}

#[test]
fn scenario_a_five_failures_then_ban() {
    let mut l = UpdateListener::new();
    for expected in 1..=4u64 {
        let v = fail(&mut l, 7);
        assert_eq!(v, Verdict::Recorded);
        assert_eq!(l.failure_count(7), expected);
    }
    // the fifth non-capacity failure bans instead of counting to five
    let v = fail(&mut l, 7);
    assert_eq!(v, Verdict::Ban);
    assert_eq!(l.failure_count(7), 0);
}

#[test]
fn scenario_b_capacity_failure_ignored() {
    let mut l = UpdateListener::new();
    let v = l.on_failure(9, FailureEvent::Layer1 { at_capacity: true });
    assert_eq!(v, Verdict::Discard);
    assert_eq!(l.failure_count(9), 0);

    // a capacity failure on top of prior accrued failures changes nothing
    fail(&mut l, 9);
    fail(&mut l, 9);
    assert_eq!(l.failure_count(9), 2);
    let v = l.on_failure(9, FailureEvent::Layer1 { at_capacity: true });
    assert_eq!(v, Verdict::Discard);
    assert_eq!(l.failure_count(9), 2);
}

#[test]
fn layer2_failure_bans_regardless_of_count() {
    let mut l = UpdateListener::new();
    let v = l.on_failure(1, FailureEvent::Layer2);
    assert_eq!(v, Verdict::Ban);
    assert_eq!(l.failure_count(1), 0);

    fail(&mut l, 2);
    fail(&mut l, 2);
    fail(&mut l, 2);
    let v = l.on_failure(2, FailureEvent::Layer2);
    assert_eq!(v, Verdict::Ban);
    // an application-layer ban leaves the ledger untouched
    assert_eq!(l.failure_count(2), 3);
}

#[test]
fn failure_counts_are_per_identity() {
    let mut l = UpdateListener::new();
    fail(&mut l, 1);
    fail(&mut l, 1);
    fail(&mut l, 2);
    assert_eq!(l.failure_count(1), 2);
    assert_eq!(l.failure_count(2), 1);
    assert_eq!(l.failure_count(3), 0);
}

#[test]
fn ban_resets_only_the_banned_identity() {
    let mut l = UpdateListener::new();
    fail(&mut l, 2);
    for _ in 0..5 {
        fail(&mut l, 1);
    }
    assert_eq!(l.failure_count(1), 0);
    assert_eq!(l.failure_count(2), 1);
}
