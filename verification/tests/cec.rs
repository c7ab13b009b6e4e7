use gamescope_idle::cec::{first_cec_device, missing_is_error, needs_listing, Cec, Status};
use gamescope_idle::config::{CecMode, Config};

fn cfg(mode: CecMode) -> Config {
    let mut c = Config::default();
    c.cec = mode;
    c
}

fn names(list: &[&str]) -> Vec<String> {
    list.iter().map(|s| s.to_string()).collect()
}

#[test]
fn the_mode_decides_which_adapter_is_used() {
    let dev = Some(names(&["cec2", "cec1", "tty"]));
    assert_eq!(Cec::new(&cfg(CecMode::Off), true, &dev).device, None);
    assert_eq!(Cec::new(&cfg(CecMode::On), false, &dev).device.as_deref(), Some("/dev/cec0"));
    assert_eq!(Cec::new(&cfg(CecMode::Auto), true, &dev).device.as_deref(), Some("/dev/cec0"));
    assert_eq!(Cec::new(&cfg(CecMode::Auto), false, &dev).device.as_deref(), Some("/dev/cec1"));
    assert_eq!(Cec::new(&cfg(CecMode::Auto), false, &Some(names(&["tty"]))).device, None);
    assert_eq!(Cec::new(&cfg(CecMode::Auto), false, &None).device, None);
}

#[test]
fn a_forced_adapter_that_is_missing_is_an_error() {
    let forced = Cec::new(&cfg(CecMode::On), false, &Some(names(&["cec1"])));
    assert_eq!(forced.device.as_deref(), Some("/dev/cec0"));
    assert_eq!(forced.status(false), Status::Missing);
    assert!(missing_is_error(CecMode::On));
    assert!(!missing_is_error(CecMode::Auto) && !missing_is_error(CecMode::Off));
}

#[test]
fn the_listing_is_needed_only_to_search() {
    assert!(needs_listing(CecMode::Auto, false));
    assert!(!needs_listing(CecMode::Auto, true));
    assert!(!needs_listing(CecMode::On, false));
    assert!(!needs_listing(CecMode::Off, false));
}

#[test]
fn the_first_adapter_in_order_is_found() {
    assert_eq!(first_cec_device(&names(&["cec10", "cec2", "acec0"])).as_deref(), Some("/dev/cec10"));
    assert_eq!(first_cec_device(&names(&["sda", "ce"])), None);
}

#[test]
fn the_tv_is_sent_to_standby_and_woken() {
    let c = Cec { device: Some("/dev/cec0".to_string()) };
    assert_eq!(c.standby(true), vec![names(&["-d", "/dev/cec0", "--to", "0", "--standby"])]);
    assert_eq!(
        c.wake(true),
        vec![
            names(&["-d", "/dev/cec0", "--to", "0", "--image-view-on"]),
            names(&["-d", "/dev/cec0", "--active-source", "phys-addr=0.0.0.0"]),
        ]
    );
}

#[test]
fn an_adapter_that_is_not_there_is_left_alone() {
    let c = Cec { device: Some("/dev/cec0".to_string()) };
    assert!(c.standby(false).is_empty());
    assert!(c.wake(false).is_empty());
    assert_eq!(c.active_device(false), None);
    assert_eq!(c.active_device(true), Some("/dev/cec0"));
    let none = Cec { device: None };
    assert!(none.standby(true).is_empty());
    assert!(none.wake(true).is_empty());
    assert_eq!(none.active_device(true), None);
    assert_eq!(c.status(true), Status::Enabled);
    assert_eq!(c.status(false), Status::Missing);
    assert_eq!(none.status(true), Status::NoAdapter);
}
