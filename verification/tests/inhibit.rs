use gamescope_idle::inhibit::{
    exit_code, idle_inhibited, is_idle_lock, lists_idle, lock_line, lock_request, InhibitWatch,
};
use gamescope_idle::screensaver::ScreenSaver;

fn told(list: &str) -> InhibitWatch {
    InhibitWatch { block_inhibited: Some(list.to_string()) }
}

#[test]
fn idle_has_to_be_a_word_of_the_list() {
    for list in ["idle", "idle:sleep", "sleep:idle", "shutdown:idle:sleep", ":idle", "idle:"] {
        assert!(told(list).idle_blocked(), "{list:?}");
    }
    for list in ["", ":", "sleep", "idles", "Idle", "handle-idle:sleep", "id:le", " idle"] {
        assert!(!told(list).idle_blocked(), "{list:?}");
        assert!(!lists_idle(list));
    }
}

#[test]
fn logind_that_cannot_be_asked_blocks_nothing() {
    assert!(!InhibitWatch { block_inhibited: None }.idle_blocked());
}

#[test]
fn either_service_keeps_the_screen_awake() {
    let held = told("idle");
    let free = told("sleep");
    assert!(idle_inhibited(Some(&held), None));
    assert!(idle_inhibited(Some(&held), Some(false)));
    assert!(idle_inhibited(Some(&free), Some(true)));
    assert!(idle_inhibited(None, Some(true)));
    assert!(!idle_inhibited(Some(&free), Some(false)));
    assert!(!idle_inhibited(None, None));
}

#[test]
fn the_own_lock_blocks_idling() {
    let r = lock_request("watching a movie");
    assert_eq!(
        (r.what.as_str(), r.who.as_str(), r.why.as_str(), r.mode.as_str()),
        ("idle", "gamescope-idle", "watching a movie", "block")
    );
    assert!(told(&format!("sleep:{}", r.what)).idle_blocked());
    assert!(is_idle_lock(&r.what, &r.mode));
}

#[test]
fn a_debug_line_names_who_inhibits() {
    assert_eq!(
        lock_line("gamescope-idle", "175803", "movie night"),
        "idle inhibited by gamescope-idle (pid 175803): movie night"
    );
}

#[test]
fn only_locks_that_block_idling_keep_the_screen_awake() {
    assert!(is_idle_lock("sleep:idle", "block"));
    assert!(!is_idle_lock("sleep:idle", "delay"));
    assert!(!is_idle_lock("sleep:shutdown", "block"));
    assert!(!is_idle_lock("", "block"));
}

#[test]
fn exit_codes_are_passed_on() {
    assert_eq!(exit_code(Some(0)), 0);
    assert_eq!(exit_code(Some(42)), 42);
    assert_eq!(exit_code(None), 1);
}

fn take(s: &mut ScreenSaver, app: &str, sender: Option<&str>) -> u32 {
    s.inhibit(app.to_string(), "video".to_string(), sender.map(String::from))
}

#[test]
fn a_cookie_releases_what_it_took() {
    let mut s = ScreenSaver::new();
    assert!(!s.watch().inhibited());
    let a = take(&mut s, "firefox", Some(":1.5"));
    let b = take(&mut s, "mpv", None);
    assert_eq!((a, b), (1, 2));
    s.un_inhibit(a);
    assert!(s.watch().inhibited());
    s.un_inhibit(a);
    assert_eq!(s.watch().inhibitors(), vec!["mpv: video"]);
    s.un_inhibit(b);
    assert!(!s.watch().inhibited());
    assert!(s.watch().inhibitors().is_empty());
}

#[test]
fn cookies_are_never_zero() {
    let mut s = ScreenSaver::new();
    s.state.next_cookie = u32::MAX - 1;
    assert_eq!(take(&mut s, "a", None), u32::MAX);
    assert_eq!(take(&mut s, "b", None), 1);
    assert_eq!(take(&mut s, "c", None), 2);
}

#[test]
fn a_crash_does_not_pin_the_screen() {
    let mut s = ScreenSaver::new();
    take(&mut s, "chromium", Some(":1.7"));
    take(&mut s, "chromium", Some(":1.7"));
    take(&mut s, "mpv", Some(":1.8"));
    take(&mut s, "other", None);
    assert_eq!(s.name_owner_changed(":1.7", true), 0);
    assert_eq!(s.name_owner_changed(":1.9", false), 0);
    assert_eq!(s.watch().inhibitors().len(), 4);
    assert_eq!(s.name_owner_changed(":1.7", false), 2);
    let mut left = s.watch().inhibitors();
    left.sort();
    assert_eq!(left, vec!["mpv: video", "other: video"]);
    assert_eq!(s.name_owner_changed(":1.8", false), 1);
    s.un_inhibit(4);
    assert!(!s.watch().inhibited());
}

#[test]
fn there_is_no_screensaver_to_ask() {
    let s = ScreenSaver::new();
    assert!(!s.get_active());
    assert!(!s.set_active(true));
    assert_eq!(s.get_active_time(), 0);
    assert_eq!(s.get_session_idle_time(), 0);
    s.lock();
    s.simulate_user_activity();
    assert!(!s.watch().inhibited());
}
