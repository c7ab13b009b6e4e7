//! The fullscreen overlay: a layer-shell surface that is always there and only
//! changes how dark it is.
//!
//! The daemon sets the opacity it wants on an [`OverlayHandle`]. A thread with a
//! display connection keeps an [`Overlay`] in step with it, and restores the
//! wanted opacity when the connection had to be made anew.

use crate::opacity::Opacity;
use vstd::prelude::*;

verus! {

/// A command to the overlay thread.
#[derive(Debug, Clone, Copy, PartialEq, Eq, Structural)]
pub enum OverlayCmd {
    /// Show the overlay at this opacity.
    Show { alpha: Opacity },
    /// Take the overlay down.
    Quit,
}

/// What the daemon wants of the overlay.
#[derive(Debug, Clone, Copy, PartialEq, Eq, Structural)]
pub struct OverlayHandle {
    /// The opacity that is wanted, whether or not there is a connection.
    pub alpha: Opacity,
    /// Whether there is a connection that takes commands.
    pub connected: bool,
    /// Whether the overlay was told to quit.
    pub quit: bool,
}

impl OverlayHandle {
    /// The command that reaches the overlay thread, if there is a connection.
    pub open spec fn sent(self, cmd: OverlayCmd) -> Option<OverlayCmd> {
        if self.connected {
            Some(cmd)
        } else {
            None
        }
    }

    /// A handle that wants a clear screen and has no connection yet.
    pub fn new() -> (h: OverlayHandle)
        ensures
            h == (OverlayHandle { alpha: Opacity::spec_clear(), connected: false, quit: false }),
    {
        OverlayHandle { alpha: Opacity::clear(), connected: false, quit: false }
    }

    /// Set the wanted opacity; returns the command to send.
    pub fn set(&mut self, alpha: Opacity) -> (cmd: Option<OverlayCmd>)
        ensures
            *final(self) == (OverlayHandle { alpha, ..*old(self) }),
            cmd == old(self).sent(OverlayCmd::Show { alpha }),
    {
        self.alpha = alpha;
        if self.connected {
            Some(OverlayCmd::Show { alpha })
        } else {
            None
        }
    }

    /// Show the overlay at `alpha`; returns the command to send.
    pub fn show(&mut self, alpha: Opacity) -> (cmd: Option<OverlayCmd>)
        ensures
            *final(self) == (OverlayHandle { alpha, ..*old(self) }),
            cmd == old(self).sent(OverlayCmd::Show { alpha }),
    {
        self.set(alpha)
    }

    /// Make the overlay clear; returns the command to send.
    pub fn clear(&mut self) -> (cmd: Option<OverlayCmd>)
        ensures
            *final(self) == (OverlayHandle { alpha: Opacity::spec_clear(), ..*old(self) }),
            cmd == old(self).sent(OverlayCmd::Show { alpha: Opacity::spec_clear() }),
    {
        self.set(Opacity::clear())
    }

    /// Take the overlay down for good; returns the command to send.
    pub fn quit(&mut self) -> (cmd: Option<OverlayCmd>)
        ensures
            *final(self) == (OverlayHandle { quit: true, ..*old(self) }),
            cmd == old(self).sent(OverlayCmd::Quit),
    {
        self.quit = true;
        if self.connected {
            Some(OverlayCmd::Quit)
        } else {
            None
        }
    }

    /// A connection takes commands from now on, or no longer.
    pub fn set_connected(&mut self, connected: bool)
        ensures
            *final(self) == (OverlayHandle { connected, ..*old(self) }),
    {
        self.connected = connected;
    }
}

/// A frame to draw: its buffer, and the alpha byte of its black pixels.
#[derive(Debug, Clone, Copy, PartialEq, Eq, Structural)]
pub struct Frame {
    pub width: i32,
    pub height: i32,
    /// Bytes in a row.
    pub stride: i32,
    /// Bytes in the buffer.
    pub len: usize,
    pub alpha: u8,
}

/// What to do on the display connection.
#[derive(Debug, Clone, Copy, PartialEq, Eq, Structural)]
pub enum Effect {
    Nothing,
    /// Create the surface. It is painted when it has been given its size.
    CreateLayer,
    /// Draw a frame on the surface.
    Draw(Frame),
    /// Drop the surface and stop.
    DropLayer,
}

/// A display mode of an output.
#[derive(Debug, Clone, Copy, PartialEq, Eq)]
pub struct Mode {
    pub current: bool,
    pub dimensions: (i32, i32),
}

/// What the display tells about an output.
#[derive(Debug)]
pub struct OutputInfo {
    pub logical_size: Option<(i32, i32)>,
    pub modes: Vec<Mode>,
}

impl OutputInfo {
    /// The first of the modes, from `i` on, that is in use.
    pub open spec fn current_mode(modes: Seq<Mode>, i: int) -> Option<(i32, i32)>
        decreases modes.len() - i,
    {
        if i < 0 || i >= modes.len() {
            None
        } else if modes[i].current {
            Some(modes[i].dimensions)
        } else {
            OutputInfo::current_mode(modes, i + 1)
        }
    }

    /// The size of the output: its logical size if that is known, otherwise the
    /// size of the mode in use.
    pub open spec fn spec_size(self) -> Option<(u32, u32)> {
        let size = match self.logical_size {
            Some(s) => Some(s),
            None => OutputInfo::current_mode(self.modes@, 0),
        };
        match size {
            Some((w, h)) => Some((w as u32, h as u32)),
            None => None,
        }
    }

    /// The size of the output, if it tells one.
    pub fn size(&self) -> (r: Option<(u32, u32)>)
        ensures
            r == self.spec_size(),
    {
        if let Some((w, h)) = self.logical_size {
            return Some((w as u32, h as u32));
        }
        let mut i: usize = 0;
        while i < self.modes.len()
            invariant
                i <= self.modes@.len(),
                self.logical_size is None,
                OutputInfo::current_mode(self.modes@, 0) == OutputInfo::current_mode(
                    self.modes@,
                    i as int,
                ),
            decreases self.modes@.len() - i,
        {
            if self.modes[i].current {
                let (w, h) = self.modes[i].dimensions;
                return Some((w as u32, h as u32));
            }
            i = i + 1;
        }
        None
    }
}

/// The width that is drawn when neither the surface nor an output tells one.
pub const FALLBACK_WIDTH: u32 = 1920;

/// The height that is drawn when neither the surface nor an output tells one.
pub const FALLBACK_HEIGHT: u32 = 1080;

/// The rows of a frame, and the frame as a whole, are sized in signed 32 bits.
pub open spec fn frame_fits(size: (u32, u32)) -> bool {
    let (w, h) = size;
    let stride = (w as i32) * 4;
    w != 0 && h != 0 ==> {
        &&& i32::MIN <= stride <= i32::MAX
        &&& i32::MIN <= stride * (h as i32) <= i32::MAX
    }
}

/// The overlay of one display connection.
#[derive(Debug, Clone, Copy, PartialEq, Eq)]
pub struct Overlay {
    /// Whether the surface exists.
    pub layer: bool,
    /// The size of the surface; zero before it has been given one.
    pub size: (u32, u32),
    /// The size of the output, as far as one is known.
    pub output_size: Option<(u32, u32)>,
    pub alpha: Opacity,
    /// Whether the thread is to stop.
    pub exit: bool,
}

impl Overlay {
    /// The surface has a size that can be drawn.
    pub open spec fn wf(self) -> bool {
        frame_fits(self.size)
    }

    /// The frame to draw, if there is a surface and it has a size.
    pub open spec fn frame(self) -> Effect {
        let (w, h) = self.size;
        if w == 0 || h == 0 || !self.layer {
            Effect::Nothing
        } else {
            Effect::Draw(
                Frame {
                    width: w as i32,
                    height: h as i32,
                    stride: ((w as i32) * 4) as i32,
                    len: ((w as i32) * 4 * (h as i32)) as i32 as usize,
                    alpha: self.alpha.level,
                },
            )
        }
    }

    /// The overlay after a command.
    pub open spec fn after(self, cmd: OverlayCmd) -> Overlay {
        match cmd {
            OverlayCmd::Show { alpha } => Overlay { alpha, layer: true, ..self },
            OverlayCmd::Quit => Overlay { layer: false, exit: true, ..self },
        }
    }

    /// What a command makes it do.
    pub open spec fn effect(self, cmd: OverlayCmd) -> Effect {
        match cmd {
            OverlayCmd::Show { alpha } => if self.layer {
                (Overlay { alpha, ..self }).frame()
            } else {
                Effect::CreateLayer
            },
            OverlayCmd::Quit => Effect::DropLayer,
        }
    }

    /// The overlay of a new connection, where `desired` is the wanted opacity.
    pub open spec fn spec_start(desired: Opacity) -> Overlay {
        Overlay {
            layer: desired.visible,
            size: (0, 0),
            output_size: None,
            alpha: desired,
            exit: false,
        }
    }

    /// Begin on a new connection. A surface is created at once if one is wanted.
    pub fn start(desired: Opacity) -> (r: (Overlay, Effect))
        ensures
            r.0 == Overlay::spec_start(desired),
            r.0.wf(),
            r.1 == if desired.visible {
                Effect::CreateLayer
            } else {
                Effect::Nothing
            },
    {
        let mut o = Overlay {
            layer: false,
            size: (0, 0),
            output_size: None,
            alpha: desired,
            exit: false,
        };
        if desired.visible {
            let effect = o.create_layer();
            (o, effect)
        } else {
            (o, Effect::Nothing)
        }
    }

    /// React to a command. Hiding is a clear frame like any other: the surface is
    /// kept for as long as the connection lasts.
    pub fn on_cmd(&mut self, cmd: OverlayCmd) -> (r: Effect)
        requires
            old(self).wf(),
        ensures
            final(self).wf(),
            *final(self) == old(self).after(cmd),
            r == old(self).effect(cmd),
    {
        match cmd {
            OverlayCmd::Show { alpha } => self.set_alpha(alpha),
            OverlayCmd::Quit => {
                self.layer = false;
                self.exit = true;
                Effect::DropLayer
            },
        }
    }

    /// Change the opacity, on a surface that is created if there is none.
    pub fn set_alpha(&mut self, alpha: Opacity) -> (r: Effect)
        requires
            old(self).wf(),
        ensures
            final(self).wf(),
            *final(self) == old(self).after(OverlayCmd::Show { alpha }),
            r == old(self).effect(OverlayCmd::Show { alpha }),
            !old(self).layer ==> r == Effect::CreateLayer,
            old(self).layer && old(self).size.0 != 0 && old(self).size.1 != 0 ==> (r matches Effect::Draw(
                frame,
            ) && frame.alpha == alpha.level && frame.width == old(self).size.0 as i32
                && frame.height == old(self).size.1 as i32),
    {
        self.alpha = alpha;
        if !self.layer {
            self.create_layer()
        } else {
            self.draw()
        }
    }

    /// Create the surface.
    pub fn create_layer(&mut self) -> (r: Effect)
        ensures
            *final(self) == (Overlay { layer: true, ..*old(self) }),
            r == Effect::CreateLayer,
    {
        self.layer = true;
        Effect::CreateLayer
    }

    /// The size to draw: the one that the surface was given if it is a size, or
    /// else that of the output, or else a common one.
    pub open spec fn spec_effective_size(self, configured: (u32, u32)) -> (u32, u32) {
        if configured.0 != 0 && configured.1 != 0 {
            configured
        } else {
            match self.output_size {
                Some(size) => size,
                None => (FALLBACK_WIDTH, FALLBACK_HEIGHT),
            }
        }
    }

    /// The size to draw for a surface that was given the size `configured`.
    pub fn effective_size(&self, configured: (u32, u32)) -> (r: (u32, u32))
        ensures
            r == self.spec_effective_size(configured),
    {
        if configured.0 != 0 && configured.1 != 0 {
            configured
        } else {
            match self.output_size {
                Some(size) => size,
                None => (FALLBACK_WIDTH, FALLBACK_HEIGHT),
            }
        }
    }

    /// Whether a frame of `size` can be drawn.
    pub fn can_draw(size: (u32, u32)) -> (r: bool)
        ensures
            r == frame_fits(size),
    {
        let (w, h) = size;
        if w == 0 || h == 0 {
            return true;
        }
        let stride: i64 = (w as i32) as i64 * 4;
        if stride < i32::MIN as i64 || stride > i32::MAX as i64 {
            return false;
        }
        let rows: i64 = (h as i32) as i64;
        assert(-0x8000_0000 * 0x8000_0000 <= stride * rows <= 0x8000_0000 * 0x8000_0000)
            by (nonlinear_arith)
            requires
                -0x8000_0000 <= stride <= 0x7fff_ffff,
                -0x8000_0000 <= rows <= 0x7fff_ffff,
        ;
        let total: i64 = stride * rows;
        i32::MIN as i64 <= total && total <= i32::MAX as i64
    }

    /// The frame to draw now.
    pub fn draw(&self) -> (r: Effect)
        requires
            self.wf(),
        ensures
            r == self.frame(),
    {
        let (w, h) = self.size;
        if w == 0 || h == 0 || !self.layer {
            return Effect::Nothing;
        }
        let stride: i32 = w as i32 * 4;
        let total: i32 = stride * (h as i32);
        Effect::Draw(
            Frame {
                width: w as i32,
                height: h as i32,
                stride,
                len: total as usize,
                alpha: self.alpha.level,
            },
        )
    }

    /// The display closed the surface.
    pub fn closed(&mut self)
        ensures
            *final(self) == (Overlay { layer: false, size: (0, 0), ..*old(self) }),
            final(self).wf(),
    {
        self.layer = false;
        self.size = (0, 0);
    }

    /// The display gave the surface a size; draw it.
    pub fn configure(&mut self, new_size: (u32, u32)) -> (r: Effect)
        requires
            frame_fits(old(self).spec_effective_size(new_size)),
        ensures
            final(self).wf(),
            *final(self) == (Overlay {
                size: old(self).spec_effective_size(new_size),
                ..*old(self)
            }),
            r == final(self).frame(),
    {
        self.size = self.effective_size(new_size);
        self.draw()
    }

    /// The display told about an output. One that tells no size is passed over.
    pub fn remember_output(&mut self, info: &OutputInfo)
        ensures
            *final(self) == (Overlay {
                output_size: match info.spec_size() {
                    Some(size) => Some(size),
                    None => old(self).output_size,
                },
                ..*old(self)
            }),
    {
        if let Some(size) = info.size() {
            self.output_size = Some(size);
        }
    }
}

/// The byte at `i` of a buffer whose pixels are all black with the alpha byte `a`:
/// blue, green, red and alpha, four bytes each. Bytes after the last whole pixel
/// are left as they were.
pub open spec fn painted_byte(canvas: Seq<u8>, a: u8, i: int) -> u8 {
    if i >= canvas.len() - canvas.len() % 4 {
        canvas[i]
    } else if i % 4 == 3 {
        a
    } else {
        0
    }
}

/// Fill a buffer with black pixels of the alpha byte `a`.
pub fn paint(canvas: &mut [u8], a: u8)
    ensures
        final(canvas)@ == Seq::new(
            old(canvas)@.len(),
            |i: int| painted_byte(old(canvas)@, a, i),
        ),
{
    let n: usize = canvas.len();
    let whole: usize = n - n % 4;
    let mut i: usize = 0;
    while i < whole
        invariant
            i <= whole,
            i % 4 == 0,
            n == canvas@.len(),
            n == old(canvas)@.len(),
            whole == n - n % 4,
            forall|k: int| 0 <= k < i ==> #[trigger] canvas@[k] == painted_byte(old(canvas)@, a, k),
            forall|k: int| i <= k < n ==> #[trigger] canvas@[k] == old(canvas)@[k],
        decreases whole - i,
    {
        canvas[i] = 0;
        canvas[i + 1] = 0;
        canvas[i + 2] = 0;
        canvas[i + 3] = a;
        i = i + 4;
    }
    assert(canvas@ =~= Seq::new(
        old(canvas)@.len(),
        |i: int| painted_byte(old(canvas)@, a, i),
    ));
}

/// Something that happens to the overlay, on either side of the connection.
pub enum Happening {
    /// The daemon wants this opacity.
    Show(Opacity),
    /// The daemon wants a clear screen.
    Clear,
    /// The connection is lost.
    Lose,
    /// A new connection is made.
    Reach,
    /// The display gives the surface a size.
    Configure((u32, u32)),
    /// The display closes the surface.
    Close,
    /// The display tells the size of an output.
    Output((u32, u32)),
}

/// The handle, and the overlay of the connection while there is one. Commands
/// have arrived.
pub struct Pair {
    pub handle: OverlayHandle,
    pub overlay: Overlay,
}

impl Pair {
    /// The pair after the command that the handle sends, if it sends one.
    pub open spec fn with_alpha(self, alpha: Opacity) -> Pair {
        Pair {
            handle: OverlayHandle { alpha, ..self.handle },
            overlay: match self.handle.sent(OverlayCmd::Show { alpha }) {
                Some(cmd) => self.overlay.after(cmd),
                None => self.overlay,
            },
        }
    }

    /// The pair after something happened.
    pub open spec fn after(self, h: Happening) -> Pair {
        match h {
            Happening::Show(alpha) => self.with_alpha(alpha),
            Happening::Clear => self.with_alpha(Opacity::spec_clear()),
            Happening::Lose => Pair {
                handle: OverlayHandle { connected: false, ..self.handle },
                ..self
            },
            Happening::Reach => Pair {
                handle: OverlayHandle { connected: true, ..self.handle },
                overlay: Overlay::spec_start(self.handle.alpha),
            },
            Happening::Configure(size) => Pair {
                overlay: Overlay { size: self.overlay.spec_effective_size(size), ..self.overlay },
                ..self
            },
            Happening::Close => Pair {
                overlay: Overlay { layer: false, size: (0, 0), ..self.overlay },
                ..self
            },
            Happening::Output(size) => Pair {
                overlay: Overlay { output_size: Some(size), ..self.overlay },
                ..self
            },
        }
    }

    /// The pair after a run of happenings.
    pub open spec fn after_all(self, run: Seq<Happening>) -> Pair
        decreases run.len(),
    {
        if run.len() == 0 {
            self
        } else {
            self.after_all(run.drop_last()).after(run.last())
        }
    }

    /// While there is a connection, the overlay has the opacity that is wanted.
    pub open spec fn in_step(self) -> bool {
        self.handle.connected ==> self.overlay.alpha == self.handle.alpha
    }

    /// While there is a connection and darkness is wanted, the surface exists.
    pub open spec fn covered(self) -> bool {
        self.handle.connected && self.handle.alpha.visible ==> self.overlay.layer
    }
}

/// The overlay follows the daemon: whatever is shown and hidden, and however often
/// the connection is lost and made anew in between, a connected overlay has the
/// opacity that was wanted last.
pub proof fn law_overlay_follows_daemon(p: Pair, run: Seq<Happening>)
    requires
        p.in_step(),
    ensures
        p.after_all(run).in_step(),
    decreases run.len(),
{
    if run.len() > 0 {
        law_overlay_follows_daemon(p, run.drop_last());
    }
}

/// Unless the display closes it, the surface is there whenever darkness is wanted
/// and the display can be reached: no command takes it away.
pub proof fn law_surface_persists(p: Pair, run: Seq<Happening>)
    requires
        p.covered(),
        forall|i: int| 0 <= i < run.len() ==> !((#[trigger] run[i]) is Close),
    ensures
        p.after_all(run).covered(),
        p.overlay.layer && (forall|i: int| 0 <= i < run.len() ==> !((#[trigger] run[i]) is Reach))
            ==> p.after_all(run).overlay.layer,
    decreases run.len(),
{
    if run.len() > 0 {
        let shorter = run.drop_last();
        assert forall|i: int| 0 <= i < shorter.len() implies !((#[trigger] shorter[i]) is Close) by {
            assert(shorter[i] == run[i]);
        }
        law_surface_persists(p, shorter);
        assert(run.last() == run[run.len() - 1]);
        if forall|i: int| 0 <= i < run.len() ==> !((#[trigger] run[i]) is Reach) {
            assert forall|i: int| 0 <= i < shorter.len() implies !((
            #[trigger] shorter[i]) is Reach) by {
                assert(shorter[i] == run[i]);
            }
        }
    }
}

/// A blanked screen is blank again after the connection was lost: the first size
/// that the new surface is given draws the wanted opacity on all of it.
pub proof fn law_reconnect_restores(handle: OverlayHandle, size: (u32, u32))
    requires
        handle.alpha.visible,
        size.0 != 0,
        size.1 != 0,
    ensures
        ({
            let fresh = Overlay::spec_start(handle.alpha);
            let drawn = Overlay { size: fresh.spec_effective_size(size), ..fresh };
            &&& fresh.layer
            &&& drawn.frame() matches Effect::Draw(frame) && frame.alpha == handle.alpha.level
                && frame.width == size.0 as i32 && frame.height == size.1 as i32
        }),
{
}

/// Every command to show is carried out at once, whatever the opacity was before: on
/// a surface that has a size it draws a frame of that size in the new opacity, a
/// clear one like any other; and where there is no surface, one is created.
pub proof fn law_every_show_is_drawn(o: Overlay, alpha: Opacity)
    ensures
        !o.layer ==> o.effect(OverlayCmd::Show { alpha }) == Effect::CreateLayer,
        o.layer && o.size.0 != 0 && o.size.1 != 0 ==> (o.effect(
            OverlayCmd::Show { alpha },
        ) matches Effect::Draw(frame) && frame.alpha == alpha.level && frame.width == o.size.0 as i32
            && frame.height == o.size.1 as i32),
        o.layer && (o.size.0 == 0 || o.size.1 == 0) ==> o.effect(OverlayCmd::Show { alpha })
            == Effect::Nothing,
{
}

/// A command to show changes the opacity and sees to it that there is a surface; the
/// sizes stay. A command to quit takes the surface down and ends the thread, and
/// nothing else does.
pub proof fn law_commands_do_what_they_say(o: Overlay, alpha: Opacity)
    ensures
        ({
            let shown = o.after(OverlayCmd::Show { alpha });
            let gone = o.after(OverlayCmd::Quit);
            &&& shown.alpha == alpha
            &&& shown.layer
            &&& shown.size == o.size
            &&& shown.output_size == o.output_size
            &&& shown.exit == o.exit
            &&& gone.exit
            &&& !gone.layer
            &&& o.effect(OverlayCmd::Quit) == Effect::DropLayer
            &&& !Overlay::spec_start(alpha).exit
        }),
{
}

/// Nothing is drawn where there is no surface, or where it has no size. A connection
/// that is made while nothing is wanted has none; one that is made while darkness is
/// wanted has one that waits for its size.
pub proof fn law_nothing_is_drawn_on_nothing(o: Overlay, desired: Opacity)
    ensures
        !o.layer || o.size.0 == 0 || o.size.1 == 0 ==> o.frame() == Effect::Nothing,
        o.layer && o.size.0 != 0 && o.size.1 != 0 ==> o.frame() is Draw,
        Overlay::spec_start(desired).layer == desired.visible,
        Overlay::spec_start(desired).alpha == desired,
        Overlay::spec_start(desired).frame() == Effect::Nothing,
        Overlay::spec_start(desired).output_size is None,
{
}

/// A command reaches the thread if and only if there is a connection, and as it was
/// given.
pub proof fn law_commands_need_a_connection(h: OverlayHandle, cmd: OverlayCmd)
    ensures
        h.connected ==> h.sent(cmd) == Some(cmd),
        !h.connected ==> h.sent(cmd) is None,
{
}

/// The two sides of the overlay, and the alpha byte of the frame that was drawn last
/// on the surface that is there, if one was.
pub struct Picture {
    pub pair: Pair,
    pub drawn: Option<u8>,
}

impl Picture {
    /// What is on the surface after an effect. A new surface is empty at first.
    pub open spec fn drawn_by(self, effect: Effect) -> Option<u8> {
        match effect {
            Effect::Nothing => self.drawn,
            Effect::Draw(frame) => Some(frame.alpha),
            Effect::CreateLayer => None,
            Effect::DropLayer => None,
        }
    }

    /// What is on the surface after the daemon asked for an opacity.
    pub open spec fn drawn_for(self, alpha: Opacity) -> Option<u8> {
        match self.pair.handle.sent(OverlayCmd::Show { alpha }) {
            Some(cmd) => self.drawn_by(self.pair.overlay.effect(cmd)),
            None => self.drawn,
        }
    }

    /// The picture after something happened.
    pub open spec fn after(self, h: Happening) -> Picture {
        Picture {
            pair: self.pair.after(h),
            drawn: match h {
                Happening::Show(alpha) => self.drawn_for(alpha),
                Happening::Clear => self.drawn_for(Opacity { level: 0, visible: false }),
                Happening::Lose => None,
                Happening::Reach => None,
                Happening::Close => None,
                Happening::Configure(_) => self.drawn_by(self.pair.after(h).overlay.frame()),
                Happening::Output(_) => self.drawn,
            },
        }
    }

    /// The picture after a run of happenings.
    pub open spec fn after_all(self, run: Seq<Happening>) -> Picture
        decreases run.len(),
    {
        if run.len() == 0 {
            self
        } else {
            self.after_all(run.drop_last()).after(run.last())
        }
    }

    /// The display gives a size only to a surface that is there.
    pub open spec fn is_run(self, run: Seq<Happening>) -> bool
        decreases run.len(),
    {
        run.len() == 0 || {
            &&& self.is_run(run.drop_last())
            &&& run.last() is Configure ==> self.after_all(run.drop_last()).pair.overlay.layer
        }
    }

    /// While there is a connection, and its surface has a size, the frame that was
    /// drawn last is as dark as the daemon wants it. A surface that is not there has
    /// no size.
    pub open spec fn is_true(self) -> bool {
        let o = self.pair.overlay;
        self.pair.handle.connected ==> {
            &&& o.alpha == self.pair.handle.alpha
            &&& !o.layer ==> o.size == (0u32, 0u32)
            &&& o.layer && o.size.0 != 0 && o.size.1 != 0 ==> self.drawn == Some(
                self.pair.handle.alpha.level,
            )
        }
    }
}

/// What is on the screen is what the daemon wants: whatever is shown and cleared, and
/// however often the connection is lost and made anew in between, the frame that was
/// drawn last has the opacity that was wanted last.
pub proof fn law_picture_follows_daemon(p: Picture, run: Seq<Happening>)
    requires
        p.is_true(),
        p.is_run(run),
    ensures
        p.after_all(run).is_true(),
    decreases run.len(),
{
    if run.len() > 0 {
        law_picture_follows_daemon(p, run.drop_last());
    }
}

/// The daemon's wish is kept: what it asked for last is what the handle wants, and no
/// event on the side of the display changes it.
pub proof fn law_wish_is_kept(p: Pair, h: Happening)
    ensures
        p.after(h).handle.alpha == match h {
            Happening::Show(alpha) => alpha,
            Happening::Clear => Opacity { level: 0, visible: false },
            _ => p.handle.alpha,
        },
{
}

/// The size to draw is the one that the surface was given, as long as neither side of
/// it is zero; otherwise that of the output; otherwise 1920 by 1080.
pub proof fn law_size_to_draw(o: Overlay, configured: (u32, u32))
    ensures
        configured.0 > 0 && configured.1 > 0 ==> o.spec_effective_size(configured) == configured,
        configured.0 == 0 || configured.1 == 0 ==> (o.output_size matches Some(size)
            ==> o.spec_effective_size(configured) == size),
        (configured.0 == 0 || configured.1 == 0) && o.output_size is None
            ==> o.spec_effective_size(configured) == (1920u32, 1080u32),
{
}

/// The mode in use is found wherever it stands in the list, and the first counts.
proof fn lemma_current_mode(modes: Seq<Mode>, i: int, k: int)
    requires
        0 <= k <= i <= modes.len(),
        forall|j: int| 0 <= j < i ==> !(#[trigger] modes[j]).current,
        i < modes.len() ==> modes[i].current,
    ensures
        OutputInfo::current_mode(modes, k) == if i < modes.len() {
            Some(modes[i].dimensions)
        } else {
            None
        },
    decreases i - k,
{
    if k < i {
        assert(!modes[k].current);
        lemma_current_mode(modes, i, k + 1);
    }
}

/// The size of an output is its logical size, whatever its modes; without one it is
/// that of the first mode in use; and without such a mode there is none.
pub proof fn law_size_of_an_output(info: OutputInfo, i: int)
    requires
        0 <= i <= info.modes@.len(),
        forall|j: int| 0 <= j < i ==> !(#[trigger] info.modes@[j]).current,
        i < info.modes@.len() ==> info.modes@[i].current,
    ensures
        info.logical_size matches Some((w, h)) ==> info.spec_size() == Some((w as u32, h as u32)),
        info.logical_size is None && i < info.modes@.len() ==> info.spec_size() == Some(
            (info.modes@[i].dimensions.0 as u32, info.modes@[i].dimensions.1 as u32),
        ),
        info.logical_size is None && i == info.modes@.len() ==> info.spec_size() is None,
{
    lemma_current_mode(info.modes@, i, 0);
}

/// A size can be drawn if and only if the bytes of its pixels, four each, can be
/// counted in signed 32 bits.
pub proof fn law_sizes_that_can_be_drawn(w: u32, h: u32)
    requires
        w <= i32::MAX,
        h <= i32::MAX,
    ensures
        frame_fits((w, h)) <==> w * h * 4 <= i32::MAX,
{
    let (a, b) = (w as int, h as int);
    assert(a * 4 * b == a * b * 4) by (nonlinear_arith);
    if b > 0 && a > 0 {
        assert(a * 4 <= a * 4 * b) by (nonlinear_arith)
            requires
                a > 0,
                b > 0,
        ;
    } else {
        assert(a * b == 0) by (nonlinear_arith)
            requires
                a == 0 || b == 0,
        ;
    }
}

/// Painting leaves the length as it was, and the bytes after the last whole pixel.
pub proof fn law_rest_is_left_alone(canvas: Seq<u8>, a: u8, i: int)
    requires
        0 <= i < canvas.len(),
        4 * (canvas.len() / 4) <= i,
    ensures
        painted_byte(canvas, a, i) == canvas[i],
{
}

/// A frame covers the whole surface: it has the surface's width and height, and
/// four bytes for each of its pixels.
pub proof fn law_frame_covers_the_surface(o: Overlay)
    requires
        o.wf(),
        o.layer,
        0 < o.size.0 <= i32::MAX,
        0 < o.size.1 <= i32::MAX,
    ensures
        o.frame() matches Effect::Draw(frame) && {
            &&& frame.width == o.size.0
            &&& frame.height == o.size.1
            &&& frame.stride == o.size.0 * 4
            &&& frame.len == o.size.0 * o.size.1 * 4
        },
{
    let (w, h) = (o.size.0 as int, o.size.1 as int);
    assert(w * 4 * h == w * h * 4 && w * 4 * h >= 0) by (nonlinear_arith)
        requires
            w > 0,
            h > 0,
    ;
}

/// Every pixel of a painted frame is black, with the alpha byte of the overlay's
/// opacity: on a panel that lights its own pixels, a black frame turns each of
/// them off.
pub proof fn law_every_pixel_is_black(o: Overlay, canvas: Seq<u8>, px: int)
    requires
        o.wf(),
        o.layer,
        0 < o.size.0 <= i32::MAX,
        0 < o.size.1 <= i32::MAX,
        o.frame() matches Effect::Draw(frame) && canvas.len() == frame.len,
        0 <= px < o.size.0 * o.size.1,
    ensures
        ({
            let painted = Seq::new(
                canvas.len(),
                |i: int| painted_byte(canvas, o.alpha.level, i),
            );
            &&& 4 * px + 3 < painted.len()
            &&& painted[4 * px] == 0
            &&& painted[4 * px + 1] == 0
            &&& painted[4 * px + 2] == 0
            &&& painted[4 * px + 3] == o.alpha.level
        }),
{
    law_frame_covers_the_surface(o);
    let pixels = o.size.0 * o.size.1;
    assert(canvas.len() == pixels * 4);
    assert((4 * px) % 4 == 0 && (4 * px + 1) % 4 == 1 && (4 * px + 2) % 4 == 2 && (4 * px + 3) % 4
        == 3);
}

} // verus!
