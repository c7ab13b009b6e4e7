use gamescope_idle::config::Config;
use gamescope_idle::control::State;
use gamescope_idle::daemon::{Action, Event, Machine};
use gamescope_idle::opacity::Opacity;
use gamescope_idle::time::Instant;

fn at(secs: u64) -> Instant {
    Instant { nanos: secs * 1_000_000_000 }
}

fn machine(idle: u64, dim: u64, overlay: bool) -> Machine {
    let mut cfg = Config::default();
    cfg.idle_timeout = idle;
    cfg.dim_warning = dim;
    Machine::new(cfg, overlay, at(0))
}

fn secs(m: &Machine, now: Instant) -> u128 {
    m.deadline(now).nanos / 1_000_000_000
}

const DIM: Action = Action::Show(Opacity { level: 128, visible: true });
const BLACK: Action = Action::Show(Opacity { level: 255, visible: true });

fn control(text: &str) -> Event {
    Event::Control(Some(text.to_string()))
}

#[test]
fn left_alone_it_dims_and_then_blanks() {
    let mut m = machine(300, 30, true);
    assert_eq!(secs(&m, at(0)), 300);
    assert!(m.asks_inhibitors());
    let o = m.step(&Event::Timer { blocked: false }, at(300));
    assert_eq!((o.actions, m.state), (vec![DIM], State::Dim));
    assert_eq!(secs(&m, at(300)), 330);
    assert!(m.asks_inhibitors());
    let o = m.step(&Event::Timer { blocked: false }, at(330));
    assert_eq!((o.actions, m.state), (vec![BLACK, Action::CecStandby], State::Black));
    assert_eq!(secs(&m, at(330)), 330 + 3600);
    let o = m.step(&Event::Timer { blocked: false }, at(3930));
    assert_eq!((o.actions, m.state), (vec![], State::Black));
    assert!(o.reply.is_none() && !o.stop);
}

#[test]
fn without_a_warning_it_goes_straight_to_black() {
    let mut m = machine(5, 0, true);
    let actions = m.on_timeout(at(5), false);
    assert_eq!((actions, m.state), (vec![BLACK, Action::CecStandby], State::Black));
}

#[test]
fn an_inhibitor_defers_a_full_cycle() {
    let mut m = machine(300, 30, true);
    let actions = m.on_timeout(at(301), true);
    assert_eq!((actions, m.state), (vec![], State::Active));
    assert_eq!(secs(&m, at(301)), 601);
}

#[test]
fn a_warning_that_has_begun_is_called_off_by_an_inhibitor() {
    let mut m = machine(300, 30, true);
    m.on_timeout(at(300), false);
    assert_eq!(m.state, State::Dim);
    assert!(m.asks_inhibitors());
    let o = m.step(&Event::Timer { blocked: true }, at(330));
    assert_eq!((o.actions, m.state), (vec![Action::Hide], State::Active));
    assert_eq!(secs(&m, at(330)), 630);
}

#[test]
fn a_blank_request_ignores_inhibitors() {
    let mut m = machine(300, 30, true);
    m.step(&Event::Timer { blocked: true }, at(300));
    let o = m.step(&Event::BlankSignal, at(301));
    assert_eq!((o.actions, m.state), (vec![BLACK, Action::CecStandby], State::Black));
    assert!(!m.asks_inhibitors());
    let o = m.step(&Event::Timer { blocked: true }, at(3901));
    assert_eq!((o.actions, m.state), (vec![], State::Black));
}

#[test]
fn input_wakes_from_every_state() {
    let mut m = machine(300, 30, true);
    assert_eq!(m.step(&Event::Activity, at(1)).actions, vec![]);
    assert_eq!(secs(&m, at(1)), 301);
    m.on_timeout(at(301), false);
    assert_eq!(m.step(&Event::Activity, at(310)).actions, vec![Action::Hide]);
    assert_eq!((m.state, secs(&m, at(310))), (State::Active, 610));
    m.force_blank();
    assert_eq!(
        m.step(&Event::WakeSignal, at(400)).actions,
        vec![Action::Hide, Action::CecWake]
    );
    assert_eq!((m.state, secs(&m, at(400))), (State::Active, 700));
}

#[test]
fn blank_is_immediate_and_wake_undoes_it() {
    let mut m = machine(300, 30, true);
    let o = m.step(&control("blank\n"), at(1));
    assert_eq!(o.actions, vec![BLACK, Action::CecStandby]);
    assert_eq!(o.reply.as_deref(), Some("ok\n"));
    assert_eq!(m.step(&Event::BlankSignal, at(2)).actions, vec![]);
    let o = m.step(&control("wake\n"), at(3));
    assert_eq!(o.actions, vec![Action::Hide, Action::CecWake]);
    assert_eq!(o.reply.as_deref(), Some("ok\n"));
    assert_eq!((m.state, secs(&m, at(3))), (State::Active, 303));
    let o = m.step(&control("wake"), at(9));
    assert_eq!(o.actions, vec![Action::Hide]);
    assert_eq!(secs(&m, at(9)), 309);
}

#[test]
fn status_tells_the_state() {
    let mut m = machine(300, 30, true);
    assert_eq!(m.step(&control("status\n"), at(1)).reply.as_deref(), Some("active\n"));
    m.enter_dim(at(1));
    assert_eq!(m.step(&control("status\n"), at(1)).reply.as_deref(), Some("dim\n"));
    m.enter_black();
    let o = m.step(&control("status\n"), at(1));
    assert_eq!((o.reply.as_deref(), o.actions, o.stop), (Some("black\n"), vec![], false));
}

#[test]
fn unknown_commands_are_refused() {
    let mut m = machine(300, 30, true);
    m.force_blank();
    let (actions, reply) = m.handle_control("reboot\n", at(1));
    assert_eq!((actions, reply.as_str()), (vec![], "error: unknown command\n"));
    assert_eq!(m.state, State::Black);
    let o = m.step(&Event::Control(None), at(1));
    assert!(o.actions.is_empty() && o.reply.is_none());
}

#[test]
fn stopping_leaves_a_clear_screen() {
    let mut m = machine(300, 30, true);
    m.force_blank();
    let o = m.step(&Event::Stop, at(1));
    assert_eq!(o.actions, vec![Action::Hide, Action::CecWake, Action::QuitOverlay]);
    assert!(o.stop);
    assert_eq!(m.state, State::Active);
}

#[test]
fn without_an_overlay_only_the_tv_is_touched() {
    let mut m = machine(300, 30, false);
    assert_eq!(m.on_timeout(at(300), false), vec![]);
    assert_eq!(m.state, State::Dim);
    assert_eq!(m.on_timeout(at(330), false), vec![Action::CecStandby]);
    assert_eq!(m.wake(), vec![Action::CecWake]);
    assert_eq!(m.step(&Event::Stop, at(400)).actions, vec![]);
}

#[test]
fn the_longest_timeout_has_a_deadline() {
    let m = machine(u64::MAX, 30, true);
    assert_eq!(m.deadline(at(0)).nanos, u64::MAX as u128 * 1_000_000_000);
}

/// Plays a history and checks after each event that the screen shows the state.
#[test]
fn the_screen_shows_the_state() {
    let mut m = machine(10, 5, true);
    let mut shade = Opacity { level: 0, visible: false };
    let mut standby = false;
    let mut now = 0;
    let mut x: u32 = 1;
    for _ in 0..2000 {
        x = x.wrapping_mul(1664525).wrapping_add(1013904223);
        now += 1;
        let event = match (x >> 16) % 7 {
            0 => Event::Activity,
            1 => Event::Timer { blocked: false },
            2 => Event::Timer { blocked: true },
            3 => Event::BlankSignal,
            4 => control("wake"),
            5 => control("blank"),
            _ => control("status"),
        };
        for a in m.step(&event, at(now)).actions {
            match a {
                Action::Show(s) => shade = s,
                Action::Hide | Action::QuitOverlay => shade = Opacity { level: 0, visible: false },
                Action::CecStandby => standby = true,
                Action::CecWake => standby = false,
            }
        }
        let expected = match m.state {
            State::Active => 0,
            State::Dim => 128,
            State::Black => 255,
        };
        assert_eq!(shade.level, expected);
        assert_eq!(standby, m.state == State::Black);
    }
}
