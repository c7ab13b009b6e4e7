use gamescope_idle::time::{Deadline, Duration, Instant, Throttle, RESCAN_INTERVAL_SECS};

#[test]
fn spans_hold_whole_nanoseconds() {
    assert_eq!(Duration::from_secs(300), Duration { secs: 300, nanos: 0 });
    assert_eq!(Duration::from_millis(200), Duration { secs: 0, nanos: 200_000_000 });
    assert_eq!(Duration::from_millis(3000), Duration { secs: 3, nanos: 0 });
    let d = Duration::from_millis(u64::MAX);
    assert_eq!(std::time::Duration::new(d.secs, d.nanos), std::time::Duration::from_millis(u64::MAX));
    assert_eq!(RESCAN_INTERVAL_SECS, 3);
}

#[test]
fn deadlines_reach_any_distance() {
    let now = Instant { nanos: 7 };
    assert_eq!(now.plus(Duration::from_secs(2)), Deadline { nanos: 2_000_000_007 });
    let far = Instant { nanos: u64::MAX }.plus(Duration { secs: u64::MAX, nanos: u32::MAX });
    assert_eq!(
        far.nanos,
        u64::MAX as u128 + u64::MAX as u128 * 1_000_000_000 + u32::MAX as u128
    );
}

#[test]
fn messages_are_a_second_apart() {
    let mut t = Throttle::new();
    assert!(t.pass(Instant { nanos: 5 }));
    assert!(!t.pass(Instant { nanos: 1_000_000_004 }));
    assert!(t.pass(Instant { nanos: 1_000_000_005 }));
    assert!(!t.pass(Instant { nanos: 0 }));
    assert_eq!(t.last, Some(Instant { nanos: 1_000_000_005 }));
    let mut late = Throttle { last: Some(Instant { nanos: u64::MAX }) };
    assert!(!late.pass(Instant { nanos: u64::MAX }));
}
