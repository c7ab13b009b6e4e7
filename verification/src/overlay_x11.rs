//! Another way to cover the screen: a fullscreen X window that gamescope treats
//! as an external overlay. It is mapped only while dimming or blanking, so that
//! nothing is composited over a running game.

use crate::opacity::Opacity;
use vstd::prelude::*;

verus! {

/// A command to the overlay thread.
#[derive(Debug, Clone, Copy, PartialEq, Eq, Structural)]
pub enum Cmd {
    Show(Opacity),
    Hide,
    Quit,
}

/// What the daemon wants of the overlay.
#[derive(Debug, Clone, Copy, PartialEq, Eq, Structural)]
pub struct X11OverlayHandle {
    /// The opacity that is wanted, whether or not there is a connection.
    pub alpha: Opacity,
    /// Whether there is a connection that takes commands.
    pub connected: bool,
    /// Whether the overlay was told to quit.
    pub quit: bool,
}

impl X11OverlayHandle {
    /// The command that reaches the overlay thread, if there is a connection.
    pub open spec fn sent(self, cmd: Cmd) -> Option<Cmd> {
        if self.connected {
            Some(cmd)
        } else {
            None
        }
    }

    /// A handle that wants nothing shown and has no connection yet.
    pub fn new() -> (h: X11OverlayHandle)
        ensures
            h == (X11OverlayHandle { alpha: Opacity::spec_clear(), connected: false, quit: false }),
    {
        X11OverlayHandle { alpha: Opacity::clear(), connected: false, quit: false }
    }

    /// Hand a command over to the thread, if there is one to take it.
    fn send(&self, cmd: Cmd) -> (r: Option<Cmd>)
        ensures
            r == self.sent(cmd),
    {
        if self.connected {
            Some(cmd)
        } else {
            None
        }
    }

    /// Show the overlay at `alpha`; returns the command to send.
    pub fn show(&mut self, alpha: Opacity) -> (cmd: Option<Cmd>)
        ensures
            *final(self) == (X11OverlayHandle { alpha, ..*old(self) }),
            cmd == old(self).sent(Cmd::Show(alpha)),
    {
        self.alpha = alpha;
        self.send(Cmd::Show(alpha))
    }

    /// Take the overlay off the screen; returns the command to send.
    pub fn clear(&mut self) -> (cmd: Option<Cmd>)
        ensures
            *final(self) == (X11OverlayHandle { alpha: Opacity::spec_clear(), ..*old(self) }),
            cmd == old(self).sent(Cmd::Hide),
    {
        self.alpha = Opacity::clear();
        self.send(Cmd::Hide)
    }

    /// Take the overlay down for good; returns the command to send.
    pub fn quit(&mut self) -> (cmd: Option<Cmd>)
        ensures
            *final(self) == (X11OverlayHandle { quit: true, ..*old(self) }),
            cmd == old(self).sent(Cmd::Quit),
    {
        self.quit = true;
        self.send(Cmd::Quit)
    }

    /// A connection takes commands from now on, or no longer.
    pub fn set_connected(&mut self, connected: bool)
        ensures
            *final(self) == (X11OverlayHandle { connected, ..*old(self) }),
    {
        self.connected = connected;
    }
}

/// A request to the X server.
#[derive(Debug, Clone, Copy, PartialEq, Eq, Structural)]
pub enum Request {
    /// Set the window's background pixel.
    Background(u32),
    MapWindow,
    UnmapWindow,
    /// Repaint the whole window with its background.
    ClearArea,
    DestroyWindow,
    Flush,
}

/// What the thread waited for.
#[derive(Debug, Clone, Copy, PartialEq, Eq, Structural)]
pub enum Received {
    Cmd(Cmd),
    /// Nothing came in time.
    Timeout,
    /// Nobody can send commands any more.
    Disconnected,
}

/// The requests to make, and whether the thread stops after them.
pub struct Step {
    pub requests: Vec<Request>,
    pub stop: bool,
}

/// A black pixel with the alpha byte `level`, in premultiplied ARGB.
pub open spec fn spec_pixel(level: u8) -> u32 {
    (level * 0x100_0000) as u32
}

/// A black pixel with the alpha byte `level`.
pub fn pixel(level: u8) -> (r: u32)
    ensures
        r == spec_pixel(level),
        r == level * 0x100_0000,
        r == (level as u32) << 24,
{
    let wide: u32 = level as u32;
    assert(wide << 24 == wide * 0x100_0000 && wide * 0x100_0000 <= 0xffff_ffff) by (bit_vector)
        requires
            wide <= 0xff,
    ;
    wide << 24
}

/// The overlay window of one connection.
#[derive(Debug, Clone, Copy, PartialEq, Eq, Structural)]
pub struct OverlayWindow {
    pub mapped: bool,
}

impl OverlayWindow {
    /// The requests that take the window off the screen.
    pub open spec fn hide_requests(self) -> Seq<Request> {
        if self.mapped {
            seq![Request::UnmapWindow, Request::Flush]
        } else {
            Seq::empty()
        }
    }

    /// The requests that show the window. An opacity that is not visible hides it.
    pub open spec fn show_requests(self, alpha: Opacity) -> Seq<Request> {
        if !alpha.visible {
            self.hide_requests()
        } else {
            seq![Request::Background(spec_pixel(alpha.level))] + if self.mapped {
                Seq::empty()
            } else {
                seq![Request::MapWindow]
            } + seq![Request::ClearArea, Request::Flush]
        }
    }

    /// The requests that something received calls for.
    pub open spec fn requests(self, received: Received) -> Seq<Request> {
        match received {
            Received::Cmd(Cmd::Show(alpha)) => self.show_requests(alpha),
            Received::Cmd(Cmd::Hide) => self.hide_requests(),
            Received::Cmd(Cmd::Quit) => seq![Request::DestroyWindow, Request::Flush],
            Received::Timeout => Seq::empty(),
            Received::Disconnected => Seq::empty(),
        }
    }

    /// The window after something was received.
    pub open spec fn after(self, received: Received) -> OverlayWindow {
        match received {
            Received::Cmd(Cmd::Show(alpha)) => OverlayWindow { mapped: alpha.visible },
            Received::Cmd(Cmd::Hide) => OverlayWindow { mapped: false },
            _ => self,
        }
    }

    /// Take the window off the screen.
    pub fn take_off(&mut self) -> (requests: Vec<Request>)
        ensures
            !final(self).mapped,
            requests@ == old(self).hide_requests(),
    {
        let mut requests: Vec<Request> = Vec::new();
        if self.mapped {
            requests.push(Request::UnmapWindow);
            requests.push(Request::Flush);
            self.mapped = false;
        }
        assert(requests@ =~= old(self).hide_requests());
        requests
    }

    /// Show the window at `alpha`; an opacity that is not visible hides it.
    pub fn show(&mut self, alpha: Opacity) -> (requests: Vec<Request>)
        ensures
            final(self).mapped == alpha.visible,
            requests@ == old(self).show_requests(alpha),
    {
        if !alpha.visible {
            return self.take_off();
        }
        let mut requests: Vec<Request> = Vec::new();
        requests.push(Request::Background(pixel(alpha.level)));
        if !self.mapped {
            requests.push(Request::MapWindow);
            self.mapped = true;
        }
        requests.push(Request::ClearArea);
        requests.push(Request::Flush);
        assert(requests@ =~= old(self).show_requests(alpha));
        requests
    }

    /// Begin on a new connection: a window that is shown at once if `desired` is
    /// visible.
    pub fn start(desired: Opacity) -> (r: (OverlayWindow, Vec<Request>))
        ensures
            r.0.mapped == desired.visible,
            r.1@ == if desired.visible {
                (OverlayWindow { mapped: false }).show_requests(desired)
            } else {
                Seq::empty()
            },
    {
        let mut window = OverlayWindow { mapped: false };
        let requests = window.show(desired);
        (window, requests)
    }

    /// React to what the thread received.
    pub fn on_received(&mut self, received: Received) -> (r: Step)
        ensures
            *final(self) == old(self).after(received),
            r.requests@ == old(self).requests(received),
            r.stop == (received == Received::Cmd(Cmd::Quit) || received == Received::Disconnected),
    {
        let mut requests: Vec<Request> = Vec::new();
        let mut stop: bool = false;
        match received {
            Received::Cmd(Cmd::Show(alpha)) => {
                requests = self.show(alpha);
            },
            Received::Cmd(Cmd::Hide) => {
                requests = self.take_off();
            },
            Received::Cmd(Cmd::Quit) => {
                requests.push(Request::DestroyWindow);
                requests.push(Request::Flush);
                stop = true;
            },
            Received::Timeout => {},
            Received::Disconnected => {
                stop = true;
            },
        }
        assert(requests@ =~= old(self).requests(received));
        Step { requests, stop }
    }
}

/// The class of visuals whose pixels hold their colours directly.
pub const TRUE_COLOR: u8 = 4;

/// The depth of visuals with an alpha channel.
pub const ARGB_DEPTH: u8 = 32;

/// A visual of an X screen.
#[derive(Debug, Clone, Copy, PartialEq, Eq, Structural)]
pub struct Visual {
    pub visual_id: u32,
    pub class: u8,
}

/// The visuals of one depth.
#[derive(Debug)]
pub struct Depth {
    pub depth: u8,
    pub visuals: Vec<Visual>,
}

/// The first of the visuals, from `i` on, whose pixels hold their colours.
pub open spec fn first_true_color(visuals: Seq<Visual>, i: int) -> Option<u32>
    decreases visuals.len() - i,
{
    if i < 0 || i >= visuals.len() {
        None
    } else if visuals[i].class == TRUE_COLOR {
        Some(visuals[i].visual_id)
    } else {
        first_true_color(visuals, i + 1)
    }
}

/// The visual to use, looking from depth `i` on: of the first depth with an alpha
/// channel, the first visual whose pixels hold their colours.
pub open spec fn argb_visual(depths: Seq<Depth>, i: int) -> Option<u32>
    decreases depths.len() - i,
{
    if i < 0 || i >= depths.len() {
        None
    } else if depths[i].depth == ARGB_DEPTH {
        first_true_color(depths[i].visuals@, 0)
    } else {
        argb_visual(depths, i + 1)
    }
}

/// The visual to draw with, if the screen has one with an alpha channel.
pub fn find_argb_visual(allowed_depths: &Vec<Depth>) -> (r: Option<u32>)
    ensures
        r == argb_visual(allowed_depths@, 0),
{
    let mut i: usize = 0;
    while i < allowed_depths.len()
        invariant
            i <= allowed_depths@.len(),
            argb_visual(allowed_depths@, 0) == argb_visual(allowed_depths@, i as int),
        decreases allowed_depths@.len() - i,
    {
        if allowed_depths[i].depth == ARGB_DEPTH {
            let visuals: &Vec<Visual> = &allowed_depths[i].visuals;
            let mut k: usize = 0;
            while k < visuals.len()
                invariant
                    k <= visuals@.len(),
                    first_true_color(visuals@, 0) == first_true_color(visuals@, k as int),
                    argb_visual(allowed_depths@, 0) == first_true_color(visuals@, 0),
                decreases visuals@.len() - k,
            {
                if visuals[k].class == TRUE_COLOR {
                    return Some(visuals[k].visual_id);
                }
                k = k + 1;
            }
            return None;
        }
        i = i + 1;
    }
    None
}

/// The window after a run of things received.
pub open spec fn after_all(window: OverlayWindow, run: Seq<Received>) -> OverlayWindow
    decreases run.len(),
{
    if run.len() == 0 {
        window
    } else {
        after_all(window, run.drop_last()).after(run.last())
    }
}

/// The opacity that was asked for last, where `desired` was wanted at first.
pub open spec fn last_wanted(desired: Opacity, run: Seq<Received>) -> Opacity
    decreases run.len(),
{
    if run.len() == 0 {
        desired
    } else {
        match run.last() {
            Received::Cmd(Cmd::Show(alpha)) => alpha,
            Received::Cmd(Cmd::Hide) => Opacity::spec_clear(),
            _ => last_wanted(desired, run.drop_last()),
        }
    }
}

/// The window is on the screen if and only if the opacity that was asked for last
/// is visible: nothing is composited over a game while nothing is to be shown.
pub proof fn law_mapped_iff_visible_is_wanted(desired: Opacity, run: Seq<Received>)
    ensures
        after_all(OverlayWindow { mapped: desired.visible }, run).mapped == last_wanted(
            desired,
            run,
        ).visible,
    decreases run.len(),
{
    if run.len() > 0 {
        law_mapped_iff_visible_is_wanted(desired, run.drop_last());
    }
}

/// A window that is shown is not mapped again.
pub proof fn law_showing_again_does_not_map_again(window: OverlayWindow, alpha: Opacity)
    requires
        window.mapped,
    ensures
        !window.requests(Received::Cmd(Cmd::Show(alpha))).contains(Request::MapWindow),
{
    let all = window.requests(Received::Cmd(Cmd::Show(alpha)));
    if alpha.visible {
        assert(all =~= seq![
            Request::Background(spec_pixel(alpha.level)),
            Request::ClearArea,
            Request::Flush,
        ]);
    }
}

/// Hiding a window twice is hiding it once.
pub proof fn law_hiding_again_does_nothing(window: OverlayWindow)
    ensures
        window.after(Received::Cmd(Cmd::Hide)).requests(Received::Cmd(Cmd::Hide)) == Seq::<
            Request,
        >::empty(),
        window.after(Received::Cmd(Cmd::Hide)).after(Received::Cmd(Cmd::Hide)) == window.after(
            Received::Cmd(Cmd::Hide),
        ),
{
}

/// What the X server has on the screen.
pub struct Server {
    pub mapped: bool,
    pub background: u32,
}

impl Server {
    /// The server after one request.
    pub open spec fn after(self, request: Request) -> Server {
        match request {
            Request::Background(pixel) => Server { background: pixel, ..self },
            Request::MapWindow => Server { mapped: true, ..self },
            Request::UnmapWindow => Server { mapped: false, ..self },
            Request::DestroyWindow => Server { mapped: false, ..self },
            Request::ClearArea => self,
            Request::Flush => self,
        }
    }

    /// The server after a list of requests.
    pub open spec fn after_all(self, requests: Seq<Request>) -> Server
        decreases requests.len(),
    {
        if requests.len() == 0 {
            self
        } else {
            self.after_all(requests.drop_last()).after(requests.last())
        }
    }

    /// The server as it is when a connection has created its window.
    pub open spec fn fresh() -> Server {
        Server { mapped: false, background: 0 }
    }
}

/// Something that happens to the overlay, on either side of the connection.
pub enum Happening {
    /// The daemon wants this opacity.
    Show(Opacity),
    /// The daemon wants nothing shown.
    Hide,
    /// The connection is lost.
    Lose,
    /// A new connection is made.
    Reach,
}

/// The handle, and the window of the connection on both of its ends. Commands have
/// arrived.
pub struct Pair {
    pub handle: X11OverlayHandle,
    pub window: OverlayWindow,
    pub server: Server,
}

impl Pair {
    /// The pair after the handle sent a command, if it did.
    pub open spec fn delivered(self, cmd: Option<Cmd>) -> Pair {
        match cmd {
            Some(cmd) => Pair {
                window: self.window.after(Received::Cmd(cmd)),
                server: self.server.after_all(self.window.requests(Received::Cmd(cmd))),
                ..self
            },
            None => self,
        }
    }

    /// The pair after something happened.
    pub open spec fn after(self, h: Happening) -> Pair {
        match h {
            Happening::Show(alpha) => (Pair {
                handle: X11OverlayHandle { alpha, ..self.handle },
                ..self
            }).delivered(self.handle.sent(Cmd::Show(alpha))),
            Happening::Hide => (Pair {
                handle: X11OverlayHandle { alpha: Opacity::spec_clear(), ..self.handle },
                ..self
            }).delivered(self.handle.sent(Cmd::Hide)),
            Happening::Lose => Pair {
                handle: X11OverlayHandle { connected: false, ..self.handle },
                ..self
            },
            Happening::Reach => Pair {
                handle: X11OverlayHandle { connected: true, ..self.handle },
                window: OverlayWindow { mapped: self.handle.alpha.visible },
                server: if self.handle.alpha.visible {
                    Server::fresh().after_all(
                        (OverlayWindow { mapped: false }).show_requests(self.handle.alpha),
                    )
                } else {
                    Server::fresh()
                },
            },
        }
    }

    /// The pair after a run of happenings.
    pub open spec fn after_run(self, run: Seq<Happening>) -> Pair
        decreases run.len(),
    {
        if run.len() == 0 {
            self
        } else {
            self.after_run(run.drop_last()).after(run.last())
        }
    }

    /// While there is a connection, the window is on the screen if and only if
    /// darkness is wanted, and it is as dark as wanted.
    pub open spec fn in_step(self) -> bool {
        self.handle.connected ==> {
            &&& self.window.mapped == self.handle.alpha.visible
            &&& self.server.mapped == self.handle.alpha.visible
            &&& self.handle.alpha.visible ==> self.server.background == spec_pixel(
                self.handle.alpha.level,
            )
        }
    }
}

/// What showing the window does to the server.
proof fn lemma_show_requests(window: OverlayWindow, server: Server, alpha: Opacity)
    requires
        alpha.visible,
        window.mapped == server.mapped,
    ensures
        server.after_all(window.show_requests(alpha)) == (Server {
            mapped: true,
            background: spec_pixel(alpha.level),
        }),
{
    reveal_with_fuel(Server::after_all, 5);
    let background = Request::Background(spec_pixel(alpha.level));
    let all = window.show_requests(alpha);
    if window.mapped {
        assert(all =~= seq![background, Request::ClearArea, Request::Flush]);
        assert(all.drop_last() =~= seq![background, Request::ClearArea]);
        assert(all.drop_last().drop_last() =~= seq![background]);
        assert(all.drop_last().drop_last().drop_last() =~= Seq::<Request>::empty());
    } else {
        assert(all =~= seq![background, Request::MapWindow, Request::ClearArea, Request::Flush]);
        assert(all.drop_last() =~= seq![background, Request::MapWindow, Request::ClearArea]);
        assert(all.drop_last().drop_last() =~= seq![background, Request::MapWindow]);
        assert(all.drop_last().drop_last().drop_last() =~= seq![background]);
        assert(all.drop_last().drop_last().drop_last().drop_last() =~= Seq::<Request>::empty());
    }
}

/// What hiding the window does to the server.
proof fn lemma_hide_requests(server: Server)
    ensures
        server.after_all(seq![Request::UnmapWindow, Request::Flush]) == (Server {
            mapped: false,
            ..server
        }),
{
    reveal_with_fuel(Server::after_all, 3);
    let all = seq![Request::UnmapWindow, Request::Flush];
    assert(all.drop_last() =~= seq![Request::UnmapWindow]);
    assert(all.drop_last().drop_last() =~= Seq::<Request>::empty());
}

/// The overlay follows the daemon: whatever is shown and hidden, and however often
/// the connection is lost and made anew in between, the window is on the screen
/// while darkness is wanted, as dark as wanted, and off the screen otherwise.
pub proof fn law_overlay_follows_daemon(p: Pair, run: Seq<Happening>)
    requires
        p.in_step(),
    ensures
        p.after_run(run).in_step(),
    decreases run.len(),
{
    if run.len() > 0 {
        law_overlay_follows_daemon(p, run.drop_last());
        let before = p.after_run(run.drop_last());
        lemma_hide_requests(before.server);
        if before.handle.alpha.visible {
            lemma_show_requests(
                OverlayWindow { mapped: false },
                Server::fresh(),
                before.handle.alpha,
            );
        }
        if let Happening::Show(alpha) = run.last() {
            if before.handle.connected && alpha.visible {
                lemma_show_requests(before.window, before.server, alpha);
            }
        }
    }
}

/// Showing the window sets its pixels, maps it if it is not mapped, repaints all of
/// it, and sends that off, in this order; so the new opacity is on the screen at once.
pub proof fn law_show_repaints(window: OverlayWindow, alpha: Opacity)
    requires
        alpha.visible,
    ensures
        ({
            let r = window.requests(Received::Cmd(Cmd::Show(alpha)));
            &&& r[0] == Request::Background((alpha.level * 0x100_0000) as u32)
            &&& r[r.len() - 2] == Request::ClearArea
            &&& r.last() == Request::Flush
            &&& window.mapped ==> r.len() == 3
            &&& !window.mapped ==> r.len() == 4 && r[1] == Request::MapWindow
        }),
{
}

/// Hiding a window that is shown unmaps it and sends that off; an opacity that is not
/// visible does the same as hiding.
pub proof fn law_hide_unmaps(window: OverlayWindow, alpha: Opacity)
    requires
        !alpha.visible,
    ensures
        window.requests(Received::Cmd(Cmd::Show(alpha))) == window.requests(
            Received::Cmd(Cmd::Hide),
        ),
        window.after(Received::Cmd(Cmd::Show(alpha))) == window.after(Received::Cmd(Cmd::Hide)),
        window.mapped ==> window.requests(Received::Cmd(Cmd::Hide)) == seq![
            Request::UnmapWindow,
            Request::Flush,
        ],
        !window.after(Received::Cmd(Cmd::Hide)).mapped,
{
}

/// Quitting destroys the window and sends that off. Where nothing was received,
/// nothing is asked of the server.
pub proof fn law_quit_destroys(window: OverlayWindow)
    ensures
        window.requests(Received::Cmd(Cmd::Quit)) == seq![Request::DestroyWindow, Request::Flush],
        window.requests(Received::Timeout).len() == 0,
        window.requests(Received::Disconnected).len() == 0,
        window.after(Received::Timeout) == window,
        window.after(Received::Disconnected) == window,
{
}

/// A pixel is black, whatever its alpha byte, which stands in its highest bits.
pub proof fn law_pixel_is_black(level: u8)
    ensures
        spec_pixel(level) % 0x100_0000 == 0,
        spec_pixel(level) / 0x100_0000 == level,
{
}

/// A command reaches the thread if and only if there is a connection, and as it was
/// given.
pub proof fn law_commands_need_a_connection(h: X11OverlayHandle, cmd: Cmd)
    ensures
        h.connected ==> h.sent(cmd) == Some(cmd),
        !h.connected ==> h.sent(cmd) is None,
{
}

/// The first visual of its kind is found wherever it stands.
proof fn lemma_first_true_color(visuals: Seq<Visual>, k: int, from: int)
    requires
        0 <= from <= k <= visuals.len(),
        forall|j: int| 0 <= j < k ==> (#[trigger] visuals[j]).class != 4,
        k < visuals.len() ==> visuals[k].class == 4,
    ensures
        first_true_color(visuals, from) == if k < visuals.len() {
            Some(visuals[k].visual_id)
        } else {
            None
        },
    decreases k - from,
{
    if from < k {
        assert(visuals[from].class != 4);
        lemma_first_true_color(visuals, k, from + 1);
    }
}

/// The first depth of its kind is found wherever it stands.
proof fn lemma_argb_depth(depths: Seq<Depth>, i: int, from: int)
    requires
        0 <= from <= i <= depths.len(),
        forall|j: int| 0 <= j < i ==> (#[trigger] depths[j]).depth != 32,
        i < depths.len() ==> depths[i].depth == 32,
    ensures
        argb_visual(depths, from) == if i < depths.len() {
            first_true_color(depths[i].visuals@, 0)
        } else {
            None
        },
    decreases i - from,
{
    if from < i {
        assert(depths[from].depth != 32);
        lemma_argb_depth(depths, i, from + 1);
    }
}

/// The visual to draw with is the first true-colour one of the first depth of 32 bits.
/// Where that depth has none, or where there is no such depth, there is none.
pub proof fn law_visual_has_alpha(depths: Seq<Depth>, i: int, k: int)
    requires
        0 <= i <= depths.len(),
        forall|j: int| 0 <= j < i ==> (#[trigger] depths[j]).depth != 32,
        i < depths.len() ==> {
            &&& depths[i].depth == 32
            &&& 0 <= k <= depths[i].visuals@.len()
            &&& forall|j: int| 0 <= j < k ==> (#[trigger] depths[i].visuals@[j]).class != 4
            &&& k < depths[i].visuals@.len() ==> depths[i].visuals@[k].class == 4
        },
    ensures
        i == depths.len() ==> argb_visual(depths, 0) is None,
        i < depths.len() && k == depths[i].visuals@.len() ==> argb_visual(depths, 0) is None,
        i < depths.len() && k < depths[i].visuals@.len() ==> argb_visual(depths, 0) == Some(
            depths[i].visuals@[k].visual_id,
        ),
{
    lemma_argb_depth(depths, i, 0);
    if i < depths.len() {
        lemma_first_true_color(depths[i].visuals@, k, 0);
    }
}

/// What the daemon asked for last is what the handle wants, and neither losing nor
/// making a connection changes it.
pub proof fn law_wish_is_kept(p: Pair, h: Happening)
    ensures
        p.after(h).handle.alpha == match h {
            Happening::Show(alpha) => alpha,
            Happening::Hide => Opacity { level: 0, visible: false },
            _ => p.handle.alpha,
        },
{
}

} // verus!
