use gamescope_idle::config::Config;
use gamescope_idle::hid::{
    consider, hidraw_nodes, is_watching, profile_for, vendor_of, Profile, ReportWatch,
};
use gamescope_idle::input::Reaction;
use gamescope_idle::time::Instant;
use gamescope_idle::watch::WatchList;

const UEVENT: &str = "DRIVER=hid-steam\nHID_ID=0003:000028DE:00001304\nHID_NAME=Valve\n";
const NOW: Instant = Instant { nanos: 0 };

fn report() -> Vec<u8> {
    let mut r = vec![0u8; 64];
    r[0] = 0x42;
    r
}

#[test]
fn the_vendor_is_the_second_field() {
    assert_eq!(vendor_of(UEVENT), Some(0x28de));
    assert_eq!(vendor_of("HID_ID=0003: 28de :1\r\n"), Some(0x28de));
    assert_eq!(vendor_of("HID_ID=0003:28de"), Some(0x28de));
    assert_eq!(vendor_of("HID_ID=0003:000128DE:1"), Some(0x28de));
    assert_eq!(vendor_of("HID_ID=0005:0000054C:00000CE6"), Some(0x054c));
}

#[test]
fn texts_without_a_vendor() {
    for text in ["", "DRIVER=x", "HID_ID=0003", "HID_ID=0003::1", "HID_ID=3:xyz:1", "HID_ID=3:100000000:1"] {
        assert_eq!(vendor_of(text), None, "{text:?}");
        assert!(profile_for(text).is_none());
    }
}

#[test]
fn known_controllers_have_a_profile() {
    let p = profile_for(UEVENT).unwrap();
    assert_eq!((p.name, p.vendor, p.report_id, p.min_len), ("Valve Steam Controller", 0x28de, 0x42, 40));
    assert_eq!(p.motion_bytes, vec![8, 18, 19, 20, 21, 22, 23, 24, 25, 26, 27, 28, 29, 35, 37, 39]);
    assert!(profile_for("HID_ID=0005:0000054C:00000CE6").is_none());
}

#[test]
fn hidraw_nodes_are_listed_in_order() {
    let names: Vec<String> = ["null", "hidraw2", "hidraw10", "hidraw0", "xhidraw", "hidraw"]
        .iter()
        .map(|s| s.to_string())
        .collect();
    assert_eq!(
        hidraw_nodes(&names),
        vec!["/dev/hidraw", "/dev/hidraw0", "/dev/hidraw10", "/dev/hidraw2"]
    );
    assert!(hidraw_nodes(&Vec::new()).is_empty());
}

#[test]
fn only_known_nodes_are_watched() {
    let mut watched = WatchList::new();
    let path = b"/dev/hidraw0".to_vec();
    assert!(consider(&mut watched, &path, None).is_none());
    assert!(consider(&mut watched, &path, Some("HID_ID=1:2:3")).is_none());
    assert!(!watched.contains(&path));
    assert!(consider(&mut watched, &path, Some(UEVENT)).is_some());
    assert!(watched.contains(&path));
    assert!(consider(&mut watched, &path, Some(UEVENT)).is_none());
}

#[test]
fn a_resting_controller_is_quiet() {
    let p = Profile::valve_steam();
    let mut w = ReportWatch::new();
    for n in 0..100u8 {
        let mut r = report();
        r[1] = n;
        r[10] = n.wrapping_mul(7);
        r[45] = 255 - n;
        let quiet = Some(Reaction { signal: false, log: false });
        assert_eq!(w.on_read(&p, &r, NOW, true), quiet);
        assert_eq!(w.prev, r);
    }
}

#[test]
fn a_handled_controller_signals() {
    let p = Profile::valve_steam();
    for i in 0..64 {
        let mut w = ReportWatch::new();
        w.on_read(&p, &report(), NOW, false);
        let mut r = report();
        r[i] ^= 1;
        let signal = w.on_read(&p, &r, NOW, false).unwrap().signal;
        assert_eq!(signal, p.motion_bytes.contains(&i), "{i}");
    }
}

#[test]
fn other_reports_are_passed_over() {
    let p = Profile::valve_steam();
    let mut w = ReportWatch::new();
    w.on_read(&p, &report(), NOW, true);
    let mut short = report();
    short.truncate(39);
    short[8] = 9;
    let mut other = report();
    other[0] = 0x43;
    other[8] = 9;
    for r in [short, other] {
        assert_eq!(w.on_read(&p, &r, NOW, true), Some(Reaction { signal: false, log: false }));
        assert_eq!(w.prev, report());
    }
    assert_eq!(w.on_read(&p, &[], NOW, true), None);
    let mut moved = report();
    moved.truncate(40);
    moved[39] = 1;
    assert_eq!(w.on_read(&p, &moved, NOW, true), Some(Reaction { signal: true, log: true }));
    moved[39] = 2;
    assert_eq!(w.on_read(&p, &moved, NOW, true), Some(Reaction { signal: true, log: false }));
}

#[test]
fn the_settings_switch_watching_off() {
    let mut c = Config::default();
    assert!(is_watching(&c));
    c.watch_hidraw = false;
    assert!(!is_watching(&c));
}
