use gamescope_idle::opacity::Opacity;
use gamescope_idle::overlay::{
    paint, Effect, Frame, Mode, OutputInfo, Overlay, OverlayCmd, OverlayHandle,
};
use gamescope_idle::overlay_x11::{
    find_argb_visual, pixel, Cmd, Depth, OverlayWindow, Received, Request, Visual,
    X11OverlayHandle, TRUE_COLOR,
};
use gamescope_idle::reconnect::{Attempt, Backoff};

const HALF: Opacity = Opacity { level: 128, visible: true };

fn show(alpha: Opacity) -> OverlayCmd {
    OverlayCmd::Show { alpha }
}

#[test]
fn the_handle_remembers_what_is_wanted() {
    let mut h = OverlayHandle::new();
    assert_eq!(h.show(HALF), None);
    assert_eq!(h.alpha, HALF);
    h.set_connected(true);
    assert_eq!(h.show(Opacity::black()), Some(show(Opacity::black())));
    assert_eq!(h.clear(), Some(show(Opacity::clear())));
    assert_eq!(h.alpha, Opacity::clear());
    assert_eq!(h.quit(), Some(OverlayCmd::Quit));
    assert!(h.quit);
    h.set_connected(false);
    assert_eq!(h.quit(), None);
    assert_eq!(h.clear(), None);
}

#[test]
fn a_surface_is_created_and_drawn_when_it_has_a_size() {
    let (mut o, effect) = Overlay::start(Opacity::clear());
    assert_eq!((effect, o.layer), (Effect::Nothing, false));
    assert_eq!(o.on_cmd(show(HALF)), Effect::CreateLayer);
    assert_eq!(o.on_cmd(show(HALF)), Effect::Nothing);
    let frame = Frame { width: 1280, height: 800, stride: 5120, len: 4_096_000, alpha: 128 };
    assert_eq!(o.configure((1280, 800)), Effect::Draw(frame));
    let black = Frame { alpha: 255, ..frame };
    assert_eq!(o.on_cmd(show(Opacity::black())), Effect::Draw(black));
    let clear = Frame { alpha: 0, ..frame };
    assert_eq!(o.on_cmd(show(Opacity::clear())), Effect::Draw(clear));
    assert!(o.layer);
    o.closed();
    assert_eq!((o.layer, o.size), (false, (0, 0)));
    assert_eq!(o.draw(), Effect::Nothing);
    assert_eq!(o.set_alpha(HALF), Effect::CreateLayer);
    assert_eq!(o.on_cmd(OverlayCmd::Quit), Effect::DropLayer);
    assert!(o.exit && !o.layer);
}

#[test]
fn a_new_connection_restores_the_darkness() {
    let mut h = OverlayHandle::new();
    h.show(Opacity::black());
    let (mut o, effect) = Overlay::start(h.alpha);
    assert_eq!(effect, Effect::CreateLayer);
    match o.configure((640, 480)) {
        Effect::Draw(f) => assert_eq!((f.alpha, f.width, f.height), (255, 640, 480)),
        _ => panic!("a frame expected"),
    }
    let faint = Opacity { level: 0, visible: true };
    assert_eq!(Overlay::start(faint).1, Effect::CreateLayer);
}

#[test]
fn a_surface_without_a_size_takes_that_of_the_output() {
    let (mut o, _) = Overlay::start(HALF);
    assert_eq!(o.effective_size((0, 0)), (1920, 1080));
    assert_eq!(o.effective_size((0, 5)), (1920, 1080));
    o.remember_output(&OutputInfo { logical_size: None, modes: vec![] });
    assert_eq!(o.output_size, None);
    o.remember_output(&OutputInfo { logical_size: Some((2560, 1440)), modes: vec![] });
    assert_eq!(o.effective_size((5, 0)), (2560, 1440));
    assert_eq!(o.effective_size((5, 6)), (5, 6));
    o.configure((0, 0));
    assert_eq!(o.size, (2560, 1440));
}

#[test]
fn the_mode_in_use_tells_the_size() {
    let modes = vec![
        Mode { current: false, dimensions: (1, 2) },
        Mode { current: true, dimensions: (3, 4) },
        Mode { current: true, dimensions: (5, 6) },
    ];
    assert_eq!(OutputInfo { logical_size: None, modes: modes.clone() }.size(), Some((3, 4)));
    assert_eq!(OutputInfo { logical_size: Some((-1, 7)), modes }.size(), Some((u32::MAX, 7)));
    assert_eq!(
        OutputInfo { logical_size: None, modes: vec![Mode { current: false, dimensions: (1, 2) }] }.size(),
        None
    );
}

#[test]
fn frames_have_to_fit() {
    assert!(Overlay::can_draw((0, u32::MAX)));
    assert!(Overlay::can_draw((7680, 4320)));
    assert!(!Overlay::can_draw((32768, 32768)));
    assert!(!Overlay::can_draw((0x2000_0000, 1)));
    assert!(Overlay::can_draw((0x1fff_ffff, 1)));
}

#[test]
fn pixels_are_black_with_alpha() {
    let mut canvas = vec![9u8; 10];
    paint(&mut canvas, 128);
    assert_eq!(canvas, vec![0, 0, 0, 128, 0, 0, 0, 128, 9, 9]);
    let mut empty: Vec<u8> = Vec::new();
    paint(&mut empty, 1);
    assert!(empty.is_empty());
}

#[test]
fn the_x_window_is_mapped_only_while_shown() {
    let (mut w, requests) = OverlayWindow::start(Opacity::clear());
    assert!(requests.is_empty() && !w.mapped);
    let step = w.on_received(Received::Cmd(Cmd::Show(HALF)));
    assert_eq!(
        step.requests,
        vec![Request::Background(0x8000_0000), Request::MapWindow, Request::ClearArea, Request::Flush]
    );
    let step = w.on_received(Received::Cmd(Cmd::Show(Opacity::black())));
    assert_eq!(
        step.requests,
        vec![Request::Background(0xff00_0000), Request::ClearArea, Request::Flush]
    );
    assert!(w.on_received(Received::Timeout).requests.is_empty() && w.mapped);
    let step = w.on_received(Received::Cmd(Cmd::Hide));
    assert_eq!((step.requests, step.stop), (vec![Request::UnmapWindow, Request::Flush], false));
    assert!(w.on_received(Received::Cmd(Cmd::Hide)).requests.is_empty() && !w.mapped);
    let step = w.on_received(Received::Cmd(Cmd::Quit));
    assert_eq!((step.requests, step.stop), (vec![Request::DestroyWindow, Request::Flush], true));
    assert!(w.on_received(Received::Disconnected).stop);
    let (w, requests) = OverlayWindow::start(Opacity::black());
    assert!(w.mapped && requests.len() == 4);
}

#[test]
fn an_invisible_opacity_hides_the_x_window() {
    let none = Opacity { level: 0, visible: false };
    let (mut w, _) = OverlayWindow::start(none);
    assert!(w.on_received(Received::Cmd(Cmd::Show(none))).requests.is_empty() && !w.mapped);
    w.on_received(Received::Cmd(Cmd::Show(HALF)));
    assert!(w.mapped);
    let step = w.on_received(Received::Cmd(Cmd::Show(none)));
    assert_eq!(step.requests, vec![Request::UnmapWindow, Request::Flush]);
    assert!(!w.mapped && !step.stop);
    let faint = Opacity { level: 0, visible: true };
    assert!(w.show(faint).contains(&Request::MapWindow) && w.mapped);
    assert_eq!(w.take_off(), vec![Request::UnmapWindow, Request::Flush]);
    assert!(w.take_off().is_empty() && !w.mapped);
}

#[test]
fn the_x_handle_remembers_what_is_wanted() {
    let mut h = X11OverlayHandle::new();
    assert_eq!(h.show(HALF), None);
    h.set_connected(true);
    assert_eq!(h.show(HALF), Some(Cmd::Show(HALF)));
    assert_eq!(h.alpha, HALF);
    assert_eq!(h.clear(), Some(Cmd::Hide));
    assert_eq!(h.alpha, Opacity::clear());
    assert_eq!(h.quit(), Some(Cmd::Quit));
    assert!(h.quit);
    assert_eq!((pixel(0), pixel(1), pixel(255)), (0, 0x0100_0000, 0xff00_0000));
}

#[test]
fn a_visual_with_alpha_is_found() {
    assert_eq!(u8::from(x11rb::protocol::xproto::VisualClass::TRUE_COLOR), TRUE_COLOR);
    let v = |visual_id, class| Visual { visual_id, class };
    let depths = vec![
        Depth { depth: 24, visuals: vec![v(1, 4)] },
        Depth { depth: 32, visuals: vec![v(2, 5), v(3, 4), v(4, 4)] },
        Depth { depth: 32, visuals: vec![v(5, 4)] },
    ];
    assert_eq!(find_argb_visual(&depths), Some(3));
    let none = vec![
        Depth { depth: 32, visuals: vec![v(2, 5)] },
        Depth { depth: 32, visuals: vec![v(5, 4)] },
    ];
    assert_eq!(find_argb_visual(&none), None);
    assert_eq!(find_argb_visual(&Vec::new()), None);
}

fn millis(b: &mut Backoff, attempt: Attempt) -> u64 {
    let d = b.pause(attempt, false).unwrap();
    d.secs * 1000 + d.nanos as u64 / 1_000_000
}

#[test]
fn pauses_double_up_to_a_limit() {
    let mut b = Backoff::new();
    let pauses: Vec<u64> = (0..7).map(|_| millis(&mut b, Attempt::Unreachable)).collect();
    assert_eq!(pauses, vec![200, 400, 800, 1600, 3000, 3000, 3000]);
    assert_eq!(millis(&mut b, Attempt::Lost), 200);
    assert_eq!(millis(&mut b, Attempt::Unreachable), 400);
    assert_eq!(millis(&mut b, Attempt::Finished), 200);
    assert!(b.pause(Attempt::Unreachable, true).is_none());
}

#[test]
fn a_loss_that_was_asked_for_is_no_warning() {
    assert!(Backoff::warns(Attempt::Lost, false));
    assert!(!Backoff::warns(Attempt::Lost, true));
    assert!(Backoff::warns(Attempt::Unreachable, true));
    assert!(!Backoff::warns(Attempt::Finished, false));
}
