use gamescope_idle::input::{
    abs_thresholds, activity_line, consider, device_name, in_range, is_activity, is_input_source, AbsInfo,
    DeviceWatch, EventKinds, InputEvent, Reaction, EV_ABS, EV_KEY, EV_REL,
};
use gamescope_idle::time::Instant;
use gamescope_idle::watch::WatchList;
use std::collections::HashMap;

fn abs(code: u16, value: i32) -> InputEvent {
    InputEvent { kind: EV_ABS, code, value }
}

fn info(minimum: i32, maximum: i32, flat: i32) -> AbsInfo {
    AbsInfo { minimum, maximum, flat }
}

const KEYBOARD: EventKinds = EventKinds { key: true, relative: false, absolute: false };

#[test]
fn event_types_are_those_of_the_kernel() {
    assert_eq!(evdev::EventType::KEY.0, EV_KEY);
    assert_eq!(evdev::EventType::RELATIVE.0, EV_REL);
    assert_eq!(evdev::EventType::ABSOLUTE.0, EV_ABS);
}

#[test]
fn keys_pointers_and_axes_are_input() {
    for n in 0..8 {
        let kinds = EventKinds { key: n & 1 != 0, relative: n & 2 != 0, absolute: n & 4 != 0 };
        assert_eq!(is_input_source(kinds), n != 0);
    }
}

#[test]
fn thresholds_are_a_twentieth_of_the_range() {
    assert_eq!(info(-32768, 32767, 0).threshold(), 3276);
    assert_eq!(info(0, 255, 15).threshold(), 15);
    assert_eq!(info(0, 255, -15).threshold(), 15);
    assert_eq!(info(-1, 1, 0).threshold(), 1);
    assert_eq!(info(0, 0, 0).threshold(), 1);
    assert_eq!(info(5, -5, 0).threshold(), 1);
    assert_eq!(info(0, i32::MAX, 0).threshold(), i32::MAX / 20);
    assert!(info(0, i32::MAX, 0).in_range());
    assert!(!info(-1, i32::MAX, 0).in_range());
    assert!(!info(0, 1, i32::MIN).in_range());
}

#[test]
fn each_axis_has_its_own_threshold() {
    let map = abs_thresholds(&Some(vec![info(0, 200, 0), info(-1, 1, 0)]));
    assert_eq!(map.len(), 2);
    assert_eq!((map[&0], map[&1]), (10, 1));
    assert!(abs_thresholds(&None).is_empty());
}

#[test]
fn buttons_and_motion_count_at_once() {
    let thresholds = HashMap::new();
    let mut last = HashMap::new();
    for kind in [EV_KEY, EV_REL] {
        assert!(is_activity(&InputEvent { kind, code: 304, value: 0 }, &thresholds, &mut last));
    }
    for kind in [0, 4, 0x11, 0x15] {
        assert!(!is_activity(&InputEvent { kind, code: 0, value: 1 }, &thresholds, &mut last));
    }
    assert!(last.is_empty());
}

#[test]
fn drift_is_quiet_and_a_push_is_not() {
    let thresholds = abs_thresholds(&Some(vec![info(0, 200, 0)]));
    let mut last = HashMap::new();
    for v in [100, 109, 118, 127, 118, 127, 127] {
        assert!(!is_activity(&abs(0, v), &thresholds, &mut last), "{v}");
    }
    assert!(is_activity(&abs(0, 137), &thresholds, &mut last));
    assert!(is_activity(&abs(0, 127), &thresholds, &mut last));
    assert!(!is_activity(&abs(0, 118), &thresholds, &mut last));
    assert_eq!(last[&0], 118);
}

#[test]
fn the_first_sample_is_a_baseline() {
    let thresholds = HashMap::new();
    let mut last = HashMap::new();
    assert!(!is_activity(&abs(7, 1000), &thresholds, &mut last));
    assert!(!is_activity(&abs(8, -1000), &thresholds, &mut last));
    assert!(!is_activity(&abs(7, 1000), &thresholds, &mut last));
    assert!(is_activity(&abs(7, 1001), &thresholds, &mut last));
}

#[test]
fn dpad_presses_count() {
    let thresholds = abs_thresholds(&Some(vec![info(-1, 1, 0)]));
    let mut last = HashMap::new();
    assert!(!is_activity(&abs(0, 0), &thresholds, &mut last));
    assert!(is_activity(&abs(0, -1), &thresholds, &mut last));
    assert!(is_activity(&abs(0, 0), &thresholds, &mut last));
}

#[test]
fn steps_beyond_32_bits_are_told_apart() {
    let mut last = HashMap::new();
    last.insert(3, i32::MIN);
    assert!(!in_range(&abs(3, 0), &last));
    assert!(in_range(&abs(3, -1), &last));
    assert!(in_range(&abs(4, i32::MAX), &last));
    assert!(in_range(&InputEvent { kind: EV_KEY, code: 3, value: i32::MAX }, &last));
}

#[test]
fn a_watcher_signals_always_and_logs_once_a_second() {
    let mut w = DeviceWatch::new(&Some(vec![info(0, 200, 0)]));
    let key = InputEvent { kind: EV_KEY, code: 30, value: 1 };
    let s = |n: u64| Instant { nanos: n * 1_000_000_000 };
    assert_eq!(w.on_event(&key, s(1), true), Reaction { signal: true, log: true });
    assert_eq!(w.on_event(&key, s(1), true), Reaction { signal: true, log: false });
    assert_eq!(w.on_event(&key, s(2), false), Reaction { signal: true, log: false });
    assert_eq!(w.on_event(&abs(0, 5), s(2), true), Reaction { signal: false, log: false });
    assert_eq!(w.on_event(&abs(0, 15), s(2), true), Reaction { signal: true, log: true });
}

#[test]
fn names_are_trimmed() {
    assert_eq!(device_name(Some("  X-Box 360 pad \n".to_string())), "X-Box 360 pad");
    assert_eq!(device_name(None), "");
}

#[test]
fn a_node_gets_one_watcher_and_is_found_again() {
    let mut watched = WatchList::new();
    let path = b"/dev/input/event3".to_vec();
    let none: Vec<String> = Vec::new();
    assert!(consider(&mut watched, &path, "event3", "Keyboard", KEYBOARD, &none));
    assert!(!consider(&mut watched, &path, "event3", "Keyboard", KEYBOARD, &none));
    watched.remove(&path);
    assert!(consider(&mut watched, &path, "event3", "Keyboard", KEYBOARD, &none));
}

#[test]
fn some_devices_are_passed_over() {
    let mut watched = WatchList::new();
    let path = b"/dev/input/event0".to_vec();
    let ignore = vec!["event1".to_string(), "event0".to_string()];
    let none: Vec<String> = Vec::new();
    assert!(!consider(&mut watched, &path, "event0", "Power Button", KEYBOARD, &ignore));
    assert!(!watched.contains(&path));
    let silent = EventKinds { key: false, relative: false, absolute: false };
    assert!(!consider(&mut watched, &path, "event0", "LEDs", silent, &none));
    assert!(!watched.contains(&path));
    assert!(!consider(&mut watched, &path, "event0", "ACPI Video Bus", KEYBOARD, &none));
    assert!(watched.contains(&path));
}

#[test]
fn a_watch_list_is_a_set() {
    let mut w = WatchList::new();
    w.insert(b"a".to_vec());
    w.insert(b"b".to_vec());
    w.insert(b"a".to_vec());
    w.remove(&b"a".to_vec());
    assert!(!w.contains(&b"a".to_vec()));
    assert!(w.contains(&b"b".to_vec()));
    w.remove(&b"c".to_vec());
    assert!(w.contains(&b"b".to_vec()));
    assert!(!w.contains(&Vec::new()));
}

#[test]
fn a_debug_line_names_the_device_and_the_event() {
    let kind = format!("{:?}", evdev::EventType::KEY);
    assert_eq!(
        activity_line("event26", "Microsoft X-Box 360 pad 0", &kind, "304", "1"),
        "activity from event26 (Microsoft X-Box 360 pad 0): type=KEY code=304 value=1"
    );
    let mut w = DeviceWatch::new(&None);
    let key = |value| InputEvent { kind: EV_KEY, code: 304, value };
    let half = Instant { nanos: 500_000_000 };
    let first = w.on_event(&key(1), Instant { nanos: 0 }, true);
    let second = w.on_event(&key(0), half, true);
    assert_eq!(first, Reaction { signal: true, log: true });
    assert_eq!(second, Reaction { signal: true, log: false });
}
