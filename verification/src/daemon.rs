//! The daemon's state machine.
//!
//! `ACTIVE --(no input for idle_timeout, not inhibited)--> DIM --(dim_warning)--> BLACK`
//!
//! Any input, a `wake` command or the wake signal returns to ACTIVE. A `blank`
//! command or the blank signal jumps straight to BLACK. While an idle inhibitor is
//! held, the timer never leads to BLACK: it starts a full idle period anew, and a
//! dim warning that has begun is called off.
//!
//! The machine performs nothing itself: each step says which [`Action`]s to
//! perform, in order, and what to answer.

use crate::config::Config;
use crate::control::{
    law_reply_is_printed_as_given, law_request_is_understood, lemma_words, as_line, ok_reply, spec_line,
    unknown_reply, Command, State,
};
use crate::opacity::Opacity;
use crate::text::spec_trim_end;
use crate::time::{Deadline, Duration, Instant};
use vstd::prelude::*;

verus! {

/// How far ahead, in seconds, the timer is set in a state that needs none.
pub const IDLE_FOREVER_SECS: u64 = 3600;

/// Something to do to the screen or the TV.
#[derive(Debug, Clone, Copy, PartialEq, Eq, Structural)]
pub enum Action {
    /// Show the overlay at this opacity.
    Show(Opacity),
    /// Make the overlay clear.
    Hide,
    /// Put the TV into standby.
    CecStandby,
    /// Wake the TV.
    CecWake,
    /// Take the overlay down for good.
    QuitOverlay,
}

/// Something that the daemon has to react to.
pub enum Event {
    /// A keyboard or controller was used.
    Activity,
    /// The timer ran out. `blocked` tells whether an idle inhibitor is held.
    Timer { blocked: bool },
    /// The signal that asks for black.
    BlankSignal,
    /// The signal that asks to wake.
    WakeSignal,
    /// A signal that ends the daemon.
    Stop,
    /// A control client connected and sent this line, if one could be read.
    Control(Option<String>),
}

/// What an [`Event`] says.
pub enum EventView {
    Activity,
    Timer { blocked: bool },
    BlankSignal,
    WakeSignal,
    Stop,
    Control(Option<Seq<char>>),
}

impl View for Event {
    type V = EventView;

    open spec fn view(&self) -> EventView {
        match self {
            Event::Activity => EventView::Activity,
            Event::Timer { blocked } => EventView::Timer { blocked: *blocked },
            Event::BlankSignal => EventView::BlankSignal,
            Event::WakeSignal => EventView::WakeSignal,
            Event::Stop => EventView::Stop,
            Event::Control(Some(text)) => EventView::Control(Some(text@)),
            Event::Control(None) => EventView::Control(None),
        }
    }
}

/// What one step asks for.
pub struct Outcome {
    /// What to do, in this order.
    pub actions: Vec<Action>,
    /// The line to send back to the control client.
    pub reply: Option<String>,
    /// Whether the daemon ends after this.
    pub stop: bool,
}

/// The state machine.
pub struct Machine {
    pub cfg: Config,
    /// Whether there is an overlay to draw on.
    pub overlay: bool,
    pub state: State,
    /// When something last showed that the user is there.
    pub last_activity: Instant,
    /// When the dim warning is over.
    pub dim_deadline: Deadline,
}

/// The machine as the rules see it; times are in nanoseconds.
pub struct MachineView {
    pub idle: nat,
    pub dim: nat,
    pub dim_opacity: Opacity,
    pub overlay: bool,
    pub state: State,
    pub last_activity: nat,
    pub dim_deadline: nat,
}

impl View for Machine {
    type V = MachineView;

    open spec fn view(&self) -> MachineView {
        MachineView {
            idle: (self.cfg.idle_timeout * 1_000_000_000) as nat,
            dim: (self.cfg.dim_warning * 1_000_000_000) as nat,
            dim_opacity: self.cfg.dim_alpha,
            overlay: self.overlay,
            state: self.state,
            last_activity: self.last_activity@,
            dim_deadline: self.dim_deadline@,
        }
    }
}

impl MachineView {
    /// `action` where there is an overlay, nothing otherwise.
    pub open spec fn on_overlay(self, action: Action) -> Seq<Action> {
        if self.overlay {
            seq![action]
        } else {
            Seq::empty()
        }
    }

    /// When the timer has to run out, as seen at `now`.
    pub open spec fn deadline(self, now: nat) -> nat {
        match self.state {
            State::Active => self.last_activity + self.idle,
            State::Dim => self.dim_deadline,
            State::Black => now + IDLE_FOREVER_SECS as nat * 1_000_000_000,
        }
    }

    pub open spec fn awake(self) -> MachineView {
        MachineView { state: State::Active, ..self }
    }

    pub open spec fn wake_actions(self) -> Seq<Action> {
        self.on_overlay(Action::Hide) + if self.state == State::Black {
            seq![Action::CecWake]
        } else {
            Seq::empty()
        }
    }

    pub open spec fn touched(self, now: nat) -> MachineView {
        MachineView { last_activity: now, ..self }
    }

    pub open spec fn dimmed(self, now: nat) -> MachineView {
        MachineView { state: State::Dim, dim_deadline: now + self.dim, ..self }
    }

    pub open spec fn black(self) -> MachineView {
        MachineView { state: State::Black, ..self }
    }

    pub open spec fn black_actions(self) -> Seq<Action> {
        self.on_overlay(Action::Show(Opacity::spec_black())) + seq![Action::CecStandby]
    }

    /// The machine after the user did something.
    pub open spec fn after_activity(self, now: nat) -> MachineView {
        self.touched(now).awake()
    }

    pub open spec fn activity_actions(self) -> Seq<Action> {
        if self.state == State::Active {
            Seq::empty()
        } else {
            self.wake_actions()
        }
    }

    /// The machine after its timer ran out.
    pub open spec fn after_timer(self, now: nat, blocked: bool) -> MachineView {
        match self.state {
            State::Active => if blocked {
                self.touched(now)
            } else if self.dim == 0 {
                self.black()
            } else {
                self.dimmed(now)
            },
            State::Dim => if blocked {
                self.touched(now).awake()
            } else {
                self.black()
            },
            State::Black => self,
        }
    }

    pub open spec fn timer_actions(self, blocked: bool) -> Seq<Action> {
        match self.state {
            State::Active => if blocked {
                Seq::empty()
            } else if self.dim == 0 {
                self.black_actions()
            } else {
                self.on_overlay(Action::Show(self.dim_opacity))
            },
            State::Dim => if blocked {
                self.wake_actions()
            } else {
                self.black_actions()
            },
            State::Black => Seq::empty(),
        }
    }

    /// What an explicit blank request does.
    pub open spec fn force_blank_actions(self) -> Seq<Action> {
        if self.state == State::Black {
            Seq::empty()
        } else {
            self.black_actions()
        }
    }

    /// The machine after a control client's line.
    pub open spec fn after_control(self, text: Seq<char>, now: nat) -> MachineView {
        match Command::spec_parse(text) {
            Some(Command::Blank) => self.black(),
            Some(Command::Wake) => self.touched(now).awake(),
            Some(Command::Status) => self,
            None => self,
        }
    }

    pub open spec fn control_actions(self, text: Seq<char>) -> Seq<Action> {
        match Command::spec_parse(text) {
            Some(Command::Blank) => self.force_blank_actions(),
            Some(Command::Wake) => self.wake_actions(),
            Some(Command::Status) => Seq::empty(),
            None => Seq::empty(),
        }
    }

    /// The answer to a control client's line.
    pub open spec fn control_reply(self, text: Seq<char>) -> Seq<char> {
        match Command::spec_parse(text) {
            Some(Command::Blank) => ok_reply(),
            Some(Command::Wake) => ok_reply(),
            Some(Command::Status) => self.state.word(),
            None => unknown_reply(),
        }
    }

    /// The machine after `event` at `now`.
    pub open spec fn after(self, event: EventView, now: nat) -> MachineView {
        match event {
            EventView::Activity => self.after_activity(now),
            EventView::Timer { blocked } => self.after_timer(now, blocked),
            EventView::BlankSignal => self.black(),
            EventView::WakeSignal => self.after_activity(now),
            EventView::Stop => self.awake(),
            EventView::Control(Some(text)) => self.after_control(text, now),
            EventView::Control(None) => self,
        }
    }

    /// What `event` asks to do.
    pub open spec fn actions(self, event: EventView) -> Seq<Action> {
        match event {
            EventView::Activity => self.activity_actions(),
            EventView::Timer { blocked } => self.timer_actions(blocked),
            EventView::BlankSignal => self.force_blank_actions(),
            EventView::WakeSignal => self.activity_actions(),
            EventView::Stop => self.wake_actions() + self.on_overlay(Action::QuitOverlay),
            EventView::Control(Some(text)) => self.control_actions(text),
            EventView::Control(None) => Seq::empty(),
        }
    }
}

impl Machine {
    /// A machine that starts active at `now`.
    pub fn new(cfg: Config, overlay: bool, now: Instant) -> (m: Machine)
        ensures
            m.cfg == cfg,
            m.overlay == overlay,
            m.state == State::Active,
            m.last_activity == now,
            m.dim_deadline@ == now@,
    {
        Machine {
            cfg,
            overlay,
            state: State::Active,
            last_activity: now,
            dim_deadline: Deadline { nanos: now.nanos as u128 },
        }
    }

    /// When the timer has to run out, as seen at `now`.
    pub fn deadline(&self, now: Instant) -> (d: Deadline)
        ensures
            d@ == self@.deadline(now@),
            self.state == State::Active ==> d.nanos == self.last_activity.nanos
                + self.cfg.idle_timeout * 1_000_000_000,
            self.state == State::Dim ==> d == self.dim_deadline,
            self.state == State::Black ==> d.nanos == now.nanos + 3_600_000_000_000,
    {
        match self.state {
            State::Active => self.last_activity.plus(self.cfg.idle_timeout()),
            State::Dim => self.dim_deadline,
            State::Black => now.plus(Duration::from_secs(IDLE_FOREVER_SECS)),
        }
    }

    /// Whether the next timer event depends on the idle inhibitors.
    pub fn asks_inhibitors(&self) -> (r: bool)
        ensures
            r == (self.state != State::Black),
            !r ==> forall|now: nat, b: bool| #[trigger]
                self@.after_timer(now, b) == self@.after_timer(now, !b) && self@.timer_actions(b)
                    == self@.timer_actions(!b),
    {
        self.state != State::Black
    }

    /// Any real input.
    pub fn on_activity(&mut self, now: Instant) -> (actions: Vec<Action>)
        ensures
            final(self).cfg == old(self).cfg,
            final(self)@ == old(self)@.after_activity(now@),
            actions@ == old(self)@.activity_actions(),
    {
        self.last_activity = now;
        if self.state != State::Active {
            self.wake()
        } else {
            Vec::new()
        }
    }

    /// Return to active: clear the overlay, and wake the TV if it was in standby.
    pub fn wake(&mut self) -> (actions: Vec<Action>)
        ensures
            final(self).cfg == old(self).cfg,
            final(self)@ == old(self)@.awake(),
            actions@ == old(self)@.wake_actions(),
    {
        let mut actions: Vec<Action> = Vec::new();
        if self.overlay {
            actions.push(Action::Hide);
        }
        if self.state == State::Black {
            actions.push(Action::CecWake);
        }
        self.state = State::Active;
        assert(actions@ =~= old(self)@.wake_actions());
        actions
    }

    /// The timer ran out. An idle inhibitor defers a full cycle, and calls off a
    /// dim warning that has begun.
    pub fn on_timeout(&mut self, now: Instant, blocked: bool) -> (actions: Vec<Action>)
        ensures
            final(self).cfg == old(self).cfg,
            final(self)@ == old(self)@.after_timer(now@, blocked),
            actions@ == old(self)@.timer_actions(blocked),
    {
        match self.state {
            State::Active => {
                if blocked {
                    self.last_activity = now;
                    Vec::new()
                } else if self.cfg.dim_warning == 0 {
                    self.enter_black()
                } else {
                    self.enter_dim(now)
                }
            },
            State::Dim => {
                if blocked {
                    self.on_activity(now)
                } else {
                    self.enter_black()
                }
            },
            State::Black => Vec::new(),
        }
    }

    /// Begin the dim warning.
    pub fn enter_dim(&mut self, now: Instant) -> (actions: Vec<Action>)
        ensures
            final(self).cfg == old(self).cfg,
            final(self)@ == old(self)@.dimmed(now@),
            final(self).dim_deadline.nanos == now.nanos + old(self).cfg.dim_warning * 1_000_000_000,
            actions@ == old(self)@.on_overlay(Action::Show(old(self).cfg.dim_alpha)),
    {
        let mut actions: Vec<Action> = Vec::new();
        if self.overlay {
            actions.push(Action::Show(self.cfg.dim_alpha));
        }
        self.dim_deadline = now.plus(self.cfg.dim_warning());
        self.state = State::Dim;
        assert(actions@ =~= old(self)@.on_overlay(Action::Show(old(self).cfg.dim_alpha)));
        actions
    }

    /// Go black and send the TV into standby.
    pub fn enter_black(&mut self) -> (actions: Vec<Action>)
        ensures
            final(self).cfg == old(self).cfg,
            final(self)@ == old(self)@.black(),
            actions@ == old(self)@.black_actions(),
    {
        let mut actions: Vec<Action> = Vec::new();
        if self.overlay {
            actions.push(Action::Show(Opacity::black()));
        }
        actions.push(Action::CecStandby);
        self.state = State::Black;
        assert(actions@ =~= old(self)@.black_actions());
        actions
    }

    /// Explicit blank request: straight to black, whatever inhibitors are held.
    pub fn force_blank(&mut self) -> (actions: Vec<Action>)
        ensures
            final(self).cfg == old(self).cfg,
            final(self)@ == old(self)@.black(),
            actions@ == old(self)@.force_blank_actions(),
    {
        if self.state != State::Black {
            self.enter_black()
        } else {
            Vec::new()
        }
    }

    /// Serve one line of a control client. Returns what to do and the line to
    /// send back.
    pub fn handle_control(&mut self, text: &str, now: Instant) -> (r: (Vec<Action>, String))
        ensures
            final(self).cfg == old(self).cfg,
            final(self)@ == old(self)@.after_control(text@, now@),
            r.0@ == old(self)@.control_actions(text@),
            r.1@ == spec_line(old(self)@.control_reply(text@)),
    {
        match Command::parse(text) {
            Some(Command::Blank) => {
                let actions = self.force_blank();
                (actions, as_line("ok"))
            },
            Some(Command::Wake) => {
                self.last_activity = now;
                let actions = self.wake();
                (actions, as_line("ok"))
            },
            Some(Command::Status) => (Vec::new(), as_line(self.state.to_string().as_str())),
            None => (Vec::new(), as_line("error: unknown command")),
        }
    }

    /// React to one event.
    pub fn step(&mut self, event: &Event, now: Instant) -> (r: Outcome)
        ensures
            final(self).cfg == old(self).cfg,
            final(self)@ == old(self)@.after(event@, now@),
            r.actions@ == old(self)@.actions(event@),
            r.stop == (event@ is Stop),
            match event@ {
                EventView::Control(Some(text)) => r.reply matches Some(s) && s@ == spec_line(
                    old(self)@.control_reply(text),
                ),
                _ => r.reply is None,
            },
    {
        match event {
            Event::Activity => {
                Outcome { actions: self.on_activity(now), reply: None, stop: false }
            },
            Event::Timer { blocked } => {
                Outcome { actions: self.on_timeout(now, *blocked), reply: None, stop: false }
            },
            Event::BlankSignal => {
                Outcome { actions: self.force_blank(), reply: None, stop: false }
            },
            Event::WakeSignal => {
                Outcome { actions: self.on_activity(now), reply: None, stop: false }
            },
            Event::Stop => {
                let mut actions = self.wake();
                if self.overlay {
                    actions.push(Action::QuitOverlay);
                }
                assert(actions@ =~= old(self)@.actions(event@));
                Outcome { actions, reply: None, stop: true }
            },
            Event::Control(Some(text)) => {
                let (actions, reply) = self.handle_control(text.as_str(), now);
                Outcome { actions, reply: Some(reply), stop: false }
            },
            Event::Control(None) => {
                Outcome { actions: Vec::new(), reply: None, stop: false }
            },
        }
    }
}

/// What the user sees.
pub struct Screen {
    /// How dark the overlay is.
    pub shade: Opacity,
    /// Whether the TV was sent into standby and not woken since.
    pub standby: bool,
}

impl Screen {
    /// The screen after one action.
    pub open spec fn after(self, action: Action) -> Screen {
        match action {
            Action::Show(shade) => Screen { shade, ..self },
            Action::Hide => Screen { shade: Opacity::spec_clear(), ..self },
            Action::CecStandby => Screen { standby: true, ..self },
            Action::CecWake => Screen { standby: false, ..self },
            Action::QuitOverlay => Screen { shade: Opacity::spec_clear(), ..self },
        }
    }

    /// The screen after a list of actions.
    pub open spec fn after_all(self, actions: Seq<Action>) -> Screen
        decreases actions.len(),
    {
        if actions.len() == 0 {
            self
        } else {
            self.after_all(actions.drop_last()).after(actions.last())
        }
    }

    /// The screen shows what the machine's state calls for.
    pub open spec fn shows(self, m: MachineView) -> bool {
        &&& self.standby == (m.state == State::Black)
        &&& m.overlay ==> self.shade == match m.state {
            State::Active => Opacity::spec_clear(),
            State::Dim => m.dim_opacity,
            State::Black => Opacity::spec_black(),
        }
    }
}

/// An event and the time it came.
pub struct Stamped {
    pub event: EventView,
    pub at: nat,
}

/// The machine after a history of events.
pub open spec fn run(m: MachineView, history: Seq<Stamped>) -> MachineView
    decreases history.len(),
{
    if history.len() == 0 {
        m
    } else {
        run(m, history.drop_last()).after(history.last().event, history.last().at)
    }
}

/// The screen after a history of events.
pub open spec fn run_screen(m: MachineView, screen: Screen, history: Seq<Stamped>) -> Screen
    decreases history.len(),
{
    if history.len() == 0 {
        screen
    } else {
        run_screen(m, screen, history.drop_last()).after_all(
            run(m, history.drop_last()).actions(history.last().event),
        )
    }
}

/// A list of actions does what its two parts do one after the other.
proof fn lemma_after_concat(screen: Screen, first: Seq<Action>, second: Seq<Action>)
    ensures
        screen.after_all(first + second) == screen.after_all(first).after_all(second),
    decreases second.len(),
{
    if second.len() == 0 {
        assert(first + second =~= first);
    } else {
        assert((first + second).drop_last() =~= first + second.drop_last());
        lemma_after_concat(screen, first, second.drop_last());
    }
}

/// What a list of one action does.
proof fn lemma_after_one(screen: Screen, action: Action)
    ensures
        screen.after_all(seq![action]) == screen.after(action),
{
    reveal_with_fuel(Screen::after_all, 2);
    assert(seq![action].drop_last() =~= Seq::<Action>::empty());
}

/// What waking does to the screen.
proof fn lemma_wake_screen(m: MachineView, screen: Screen)
    requires
        screen.shows(m),
    ensures
        screen.after_all(m.wake_actions()).shows(m.awake()),
{
    let wake_tv = if m.state == State::Black {
        seq![Action::CecWake]
    } else {
        Seq::empty()
    };
    let first = screen.after_all(m.on_overlay(Action::Hide));
    lemma_after_concat(screen, m.on_overlay(Action::Hide), wake_tv);
    lemma_after_one(screen, Action::Hide);
    lemma_after_one(first, Action::CecWake);
}

/// What going black does to the screen.
proof fn lemma_black_screen(m: MachineView, screen: Screen)
    requires
        screen.shows(m),
    ensures
        screen.after_all(m.black_actions()).shows(m.black()),
{
    let show = Action::Show(Opacity::spec_black());
    let first = screen.after_all(m.on_overlay(show));
    lemma_after_concat(screen, m.on_overlay(show), seq![Action::CecStandby]);
    lemma_after_one(screen, show);
    lemma_after_one(first, Action::CecStandby);
}

/// A screen that shows the machine's state still does after any event.
pub proof fn law_step_keeps_screen(m: MachineView, screen: Screen, event: EventView, now: nat)
    requires
        screen.shows(m),
    ensures
        screen.after_all(m.actions(event)).shows(m.after(event, now)),
{
    lemma_wake_screen(m, screen);
    lemma_black_screen(m, screen);
    lemma_after_one(screen, Action::Show(m.dim_opacity));
    let awake = screen.after_all(m.wake_actions());
    lemma_after_concat(screen, m.wake_actions(), m.on_overlay(Action::QuitOverlay));
    lemma_after_one(awake, Action::QuitOverlay);
}

/// Whatever happens, and in whatever order, the screen shows the machine's state:
/// clear and on while active, dimmed during the warning, black and in standby
/// when blanked.
pub proof fn law_screen_shows_state(m: MachineView, screen: Screen, history: Seq<Stamped>)
    requires
        screen.shows(m),
    ensures
        run_screen(m, screen, history).shows(run(m, history)),
    decreases history.len(),
{
    if history.len() > 0 {
        let before = history.drop_last();
        law_screen_shows_state(m, screen, before);
        law_step_keeps_screen(
            run(m, before),
            run_screen(m, screen, before),
            history.last().event,
            history.last().at,
        );
    }
}

/// Any input wakes at once, from every state, and starts a new idle period. The
/// wake signal and the `wake` command do the same.
pub proof fn law_input_wakes(m: MachineView, now: nat, text: Seq<char>)
    requires
        Command::spec_parse(text) == Some(Command::Wake),
    ensures
        m.after(EventView::Activity, now).state == State::Active,
        m.after(EventView::Activity, now).last_activity == now,
        m.after(EventView::Activity, now).deadline(now) == now + m.idle,
        m.after(EventView::WakeSignal, now) == m.after(EventView::Activity, now),
        m.after(EventView::Control(Some(text)), now) == m.after(EventView::Activity, now),
        m.state != State::Active ==> m.actions(EventView::Control(Some(text))) == m.actions(
            EventView::Activity,
        ),
{
}

/// A blank request goes black from every state; where the screen is black
/// already, nothing is done.
pub proof fn law_blank_is_immediate(m: MachineView, now: nat, text: Seq<char>)
    requires
        Command::spec_parse(text) == Some(Command::Blank),
    ensures
        m.after(EventView::BlankSignal, now).state == State::Black,
        m.after(EventView::Control(Some(text)), now) == m.after(EventView::BlankSignal, now),
        m.actions(EventView::Control(Some(text))) == m.actions(EventView::BlankSignal),
        m.state == State::Black ==> m.actions(EventView::BlankSignal) == Seq::<Action>::empty(),
        m.state == State::Black ==> m.after(EventView::BlankSignal, now) == m,
{
}

/// A wake request undoes a blank request: the machine is active again and the
/// screen is what it was.
pub proof fn law_wake_undoes_blank(m: MachineView, screen: Screen, t1: nat, t2: nat)
    requires
        m.state == State::Active,
        screen.shows(m),
    ensures
        ({
            let black = m.after(EventView::BlankSignal, t1);
            let dark = screen.after_all(m.actions(EventView::BlankSignal));
            let awake = black.after(EventView::WakeSignal, t2);
            let lit = dark.after_all(black.actions(EventView::WakeSignal));
            &&& dark.shows(black)
            &&& awake == m.touched(t2)
            &&& lit.standby == screen.standby
            &&& m.overlay ==> lit == screen
        }),
{
    law_step_keeps_screen(m, screen, EventView::BlankSignal, t1);
    let black = m.after(EventView::BlankSignal, t1);
    let dark = screen.after_all(m.actions(EventView::BlankSignal));
    law_step_keeps_screen(black, dark, EventView::WakeSignal, t2);
}

/// Left alone and not inhibited, the machine dims after the idle timeout, unless
/// there is no warning to give, and is black when the warning is over.
pub proof fn law_idle_goes_dark(m: MachineView, t1: nat, t2: nat)
    requires
        m.state == State::Active,
    ensures
        m.dim == 0 ==> m.after(EventView::Timer { blocked: false }, t1).state == State::Black,
        m.dim > 0 ==> {
            let warned = m.after(EventView::Timer { blocked: false }, t1);
            &&& warned.state == State::Dim
            &&& forall|t: nat| #[trigger] warned.deadline(t) == t1 + m.dim
            &&& warned.last_activity == m.last_activity
            &&& warned.after(EventView::Timer { blocked: false }, t2).state == State::Black
        },
{
}

/// The machine runs by its settings: the two periods in full, and the opacity of
/// the warning as it was set.
pub proof fn law_settings_are_used(m: Machine)
    ensures
        m@.idle == m.cfg.idle_timeout * 1_000_000_000,
        m@.dim == m.cfg.dim_warning * 1_000_000_000,
        m@.dim == 0 <==> m.cfg.dim_warning == 0,
        m@.dim_opacity == m.cfg.dim_alpha,
        m@.overlay == m.overlay,
        m@.state == m.state,
        m@.last_activity == m.last_activity.nanos,
        m@.dim_deadline == m.dim_deadline.nanos,
{
}

/// A deadline does not move while it is waited for: an active machine's is the last
/// activity plus the idle timeout, and a dimmed one's the end of the warning,
/// whatever the time at which it is asked for. A black screen waits for an hour at
/// a time.
pub proof fn law_deadline_stands_still(m: MachineView, t1: nat, t2: nat)
    ensures
        m.state == State::Active ==> m.deadline(t1) == m.last_activity + m.idle,
        m.state == State::Dim ==> m.deadline(t1) == m.dim_deadline,
        m.state != State::Black ==> m.deadline(t1) == m.deadline(t2),
        m.state == State::Black ==> m.deadline(t1) == t1 + 3_600_000_000_000,
{
}

/// The event shows that someone is there, or that something holds the screen awake.
pub open spec fn defers(m: MachineView, event: EventView) -> bool {
    match event {
        EventView::Activity => true,
        EventView::WakeSignal => true,
        EventView::Timer { blocked } => blocked && m.state != State::Black,
        EventView::Control(Some(text)) => Command::spec_parse(text) == Some(Command::Wake),
        _ => false,
    }
}

/// Nothing but activity defers blanking: an event moves the last activity, to the
/// time at which it came, if and only if it shows that someone is there or that an
/// inhibitor is held. Any other event that leaves the machine active leaves its
/// deadline where it was.
pub proof fn law_only_activity_defers(m: MachineView, event: EventView, now: nat, t1: nat, t2: nat)
    ensures
        defers(m, event) ==> m.after(event, now).last_activity == now,
        defers(m, event) ==> m.after(event, now).state == State::Active,
        defers(m, event) ==> m.after(event, now).deadline(t1) == now + m.idle,
        !defers(m, event) ==> m.after(event, now).last_activity == m.last_activity,
        !defers(m, event) && m.state == State::Active && m.after(event, now).state
            == State::Active ==> m.after(event, now).deadline(t1) == m.deadline(t2),
{
}

/// Asking for the status, sending a line that holds no command, or sending none at
/// all changes nothing, and nothing is done.
pub proof fn law_queries_change_nothing(m: MachineView, text: Seq<char>, now: nat)
    requires
        Command::spec_parse(text) is None || Command::spec_parse(text) == Some(Command::Status),
    ensures
        m.after(EventView::Control(Some(text)), now) == m,
        m.actions(EventView::Control(Some(text))) == Seq::<Action>::empty(),
        m.after(EventView::Control(None), now) == m,
        m.actions(EventView::Control(None)) == Seq::<Action>::empty(),
{
}

/// The state changes only as it is meant to. Black comes from a request or from a
/// timer under no inhibitor, at the end of the warning or where there is none to
/// give. Dim comes from such a timer alone, and only from active. A screen that is
/// not clear becomes so only by activity, by a wake request, by stopping, or by an
/// inhibitor that calls the warning off; a black one not even by that.
pub proof fn law_state_changes_for_a_reason(m: MachineView, event: EventView, now: nat)
    ensures
        ({
            let next = m.after(event, now);
            &&& next.state == State::Black <==> {
                ||| asks_for_black(event)
                ||| event == (EventView::Timer { blocked: false }) && (m.state == State::Dim || (
                m.state == State::Active && m.dim == 0))
                ||| m.state == State::Black && !defers(m, event) && !(event is Stop)
            }
            &&& next.state == State::Dim <==> {
                ||| event == (EventView::Timer { blocked: false }) && m.state == State::Active
                    && m.dim > 0
                ||| m.state == State::Dim && !defers(m, event) && !(event is Stop) && !(
                event is Timer) && !asks_for_black(event)
            }
        }),
{
}

/// The warning lasts as long as it was set to: it ends the whole of it after it
/// began. No other event moves that time.
pub proof fn law_warning_lasts(m: MachineView, event: EventView, now: nat, t: nat)
    ensures
        m.state != State::Dim && m.after(event, now).state == State::Dim ==> m.after(
            event,
            now,
        ).deadline(t) == now + m.dim,
        m.state == State::Dim && m.after(event, now).state == State::Dim ==> m.after(
            event,
            now,
        ).deadline(t) == m.deadline(t),
        m.after(event, now).idle == m.idle,
        m.after(event, now).dim == m.dim,
        m.after(event, now).dim_opacity == m.dim_opacity,
        m.after(event, now).overlay == m.overlay,
{
}

/// The TV and the overlay are touched only when there is a reason to. The TV is
/// sent into standby exactly when the screen turns black, after the overlay has
/// covered it, and is woken exactly when a black screen is cleared. The overlay is
/// shown only when the machine enters the state that calls for it, and is cleared
/// only by an event that leaves the machine active. Nothing is done twice, and
/// nothing is done to an overlay that is not there.
pub proof fn law_actions_have_a_reason(m: MachineView, event: EventView, now: nat)
    ensures
        ({
            let a = m.actions(event);
            let next = m.after(event, now);
            let turns_black = m.state != State::Black && next.state == State::Black;
            &&& a.contains(Action::CecStandby) <==> turns_black
            &&& turns_black ==> a.last() == Action::CecStandby
            &&& turns_black && m.overlay ==> a[0] == Action::Show(Opacity::spec_black())
            &&& a.contains(Action::CecWake) <==> m.state == State::Black && next.state
                == State::Active
            &&& a.contains(Action::Hide) ==> next.state == State::Active
            &&& m.overlay && m.state != State::Active && next.state == State::Active ==> a[0]
                == Action::Hide
            &&& m.state != State::Dim && next.state == State::Dim ==> a == m.on_overlay(
                Action::Show(m.dim_opacity),
            )
            &&& a.contains(Action::QuitOverlay) <==> event is Stop && m.overlay
            &&& event is Stop && m.overlay ==> a.last() == Action::QuitOverlay
            &&& m.overlay && (event is Stop || (event matches EventView::Control(Some(text))
                && Command::spec_parse(text) == Some(Command::Wake))) ==> a[0] == Action::Hide
            &&& forall|i: int|
                0 <= i < a.len() ==> ((#[trigger] a[i]) matches Action::Show(shade) ==> {
                    &&& next.state != m.state
                    &&& next.state == State::Black ==> shade == Opacity::spec_black()
                    &&& next.state != State::Active
                })
            &&& !m.overlay ==> forall|i: int|
                0 <= i < a.len() ==> (#[trigger] a[i]) == Action::CecWake || a[i]
                    == Action::CecStandby
            &&& a.no_duplicates()
            &&& m.state == State::Active && next.state == State::Active && !(event is Stop) && !(
            event is Control) ==> a.len() == 0
        }),
{
    let a = m.actions(event);
    let show = Action::Show(Opacity::spec_black());
    let dim = Action::Show(m.dim_opacity);
    let standby = Action::CecStandby;
    let wake = Action::CecWake;
    let clear = Action::Hide;
    let quit = Action::QuitOverlay;
    if m.overlay {
        assert(m.black_actions() =~= seq![show, standby]);
        assert(m.black_actions()[0] == show && m.black_actions()[1] == standby);
        assert(m.state == State::Black ==> m.wake_actions() =~= seq![clear, wake]);
        assert(m.state == State::Black ==> m.wake_actions()[0] == clear && m.wake_actions()[1]
            == wake);
        assert(m.state != State::Black ==> m.wake_actions() =~= seq![clear]);
        assert(m.state != State::Black ==> m.wake_actions()[0] == clear);
        assert(m.on_overlay(dim)[0] == dim);
        if event is Stop {
            assert(a =~= m.wake_actions().push(quit));
            assert(a[a.len() - 1] == quit);
            assert(a[0] == clear);
            assert(m.state == State::Black ==> a[1] == wake);
        }
    } else {
        assert(m.black_actions() =~= seq![standby]);
        assert(m.black_actions()[0] == standby);
        assert(m.state == State::Black ==> m.wake_actions() =~= seq![wake]);
        assert(m.state == State::Black ==> m.wake_actions()[0] == wake);
        assert(m.state != State::Black ==> m.wake_actions() =~= Seq::<Action>::empty());
        if event is Stop {
            assert(a =~= m.wake_actions());
        }
    }
}

/// A request that is carried out is answered `ok`, and the client prints that.
pub proof fn law_requests_are_acknowledged(m: MachineView, text: Seq<char>)
    requires
        Command::spec_parse(text) == Some(Command::Blank) || Command::spec_parse(text) == Some(
            Command::Wake,
        ),
    ensures
        spec_trim_end(spec_line(m.control_reply(text))) == "ok"@,
{
    lemma_words();
    law_reply_is_printed_as_given(ok_reply());
}

/// The event is an explicit request for black.
pub open spec fn asks_for_black(event: EventView) -> bool {
    match event {
        EventView::BlankSignal => true,
        EventView::Control(Some(text)) => Command::spec_parse(text) == Some(Command::Blank),
        _ => false,
    }
}

/// While an idle inhibitor is held, a screen that is not black never turns black,
/// whatever else happens, unless someone asks for black; and an active machine
/// stays active. A timer that runs out under an inhibitor starts a full idle period
/// anew. It does nothing to a clear screen, and clears a dimmed one.
pub proof fn law_inhibited_stays_awake(m: MachineView, history: Seq<Stamped>, now: nat)
    requires
        m.state != State::Black,
        forall|i: int|
            0 <= i < history.len() ==> {
                &&& !asks_for_black((#[trigger] history[i]).event)
                &&& history[i].event matches EventView::Timer { blocked } ==> blocked
            },
    ensures
        run(m, history).state != State::Black,
        m.state == State::Active ==> run(m, history).state == State::Active,
        run(m, history).after(EventView::Timer { blocked: true }, now).state == State::Active,
        run(m, history).after(EventView::Timer { blocked: true }, now).deadline(now) == now
            + m.idle,
        run(m, history).actions(EventView::Timer { blocked: true }) == if run(m, history).state
            == State::Active {
            Seq::<Action>::empty()
        } else {
            m.on_overlay(Action::Hide)
        },
    decreases history.len(),
{
    lemma_settings_stay(m, history);
    assert(m.on_overlay(Action::Hide) + Seq::<Action>::empty() =~= m.on_overlay(Action::Hide));
    if history.len() > 0 {
        let before = history.drop_last();
        assert forall|i: int| 0 <= i < before.len() implies {
            &&& !asks_for_black((#[trigger] before[i]).event)
            &&& before[i].event matches EventView::Timer { blocked } ==> blocked
        } by {
            assert(before[i] == history[i]);
        }
        law_inhibited_stays_awake(m, before, now);
        assert(history.last() == history[history.len() - 1]);
    }
}

/// No event changes the settings.
proof fn lemma_settings_stay(m: MachineView, history: Seq<Stamped>)
    ensures
        run(m, history).idle == m.idle,
        run(m, history).dim == m.dim,
        run(m, history).dim_opacity == m.dim_opacity,
        run(m, history).overlay == m.overlay,
    decreases history.len(),
{
    if history.len() > 0 {
        lemma_settings_stay(m, history.drop_last());
    }
}

/// Times never run backwards, none lies before the machine's last activity, and
/// no timer runs out before its deadline.
pub open spec fn is_history(m: MachineView, history: Seq<Stamped>) -> bool
    decreases history.len(),
{
    if history.len() == 0 {
        true
    } else {
        let before = history.drop_last();
        let at = history.last().at;
        &&& is_history(m, before)
        &&& m.last_activity <= at
        &&& before.len() > 0 ==> before.last().at <= at
        &&& history.last().event is Timer && run(m, before).state != State::Black ==> at >= run(
            m,
            before,
        ).deadline(at)
    }
}

/// The machine's last activity is no earlier than any input so far and no later
/// than the last event; a dim warning ends only when both periods have passed.
proof fn lemma_history(m: MachineView, history: Seq<Stamped>)
    requires
        is_history(m, history),
        m.state == State::Active,
    ensures
        m.last_activity <= run(m, history).last_activity,
        history.len() == 0 ==> run(m, history) == m,
        history.len() > 0 ==> run(m, history).last_activity <= history.last().at,
        forall|i: int|
            0 <= i < history.len() && (#[trigger] history[i]).event is Activity ==> history[i].at
                <= run(m, history).last_activity,
        run(m, history).state == State::Dim ==> run(m, history).dim_deadline >= run(
            m,
            history,
        ).last_activity + m.idle + m.dim,
    decreases history.len(),
{
    lemma_settings_stay(m, history);
    if history.len() > 0 {
        let before = history.drop_last();
        lemma_history(m, before);
        lemma_settings_stay(m, before);
        assert forall|i: int|
            0 <= i < history.len() && (#[trigger] history[i]).event is Activity implies history[i].at
            <= run(m, history).last_activity by {
            if i < before.len() {
                assert(before[i] == history[i]);
                assert(before[i].at <= run(m, before).last_activity);
            } else {
                assert(history[i] == history.last());
            }
        }
    }
}

/// The timer never blanks the screen while someone is using it: when it turns the
/// screen black, no inhibitor is held, and every input so far lies at least the
/// idle timeout and the whole dim warning back.
pub proof fn law_no_blank_in_use(
    m: MachineView,
    history: Seq<Stamped>,
    now: nat,
    blocked: bool,
    i: int,
)
    requires
        m.state == State::Active,
        is_history(m, history.push(Stamped { event: EventView::Timer { blocked }, at: now })),
        run(m, history).state != State::Black,
        run(m, history).after(EventView::Timer { blocked }, now).state == State::Black,
        0 <= i < history.len(),
        history[i].event is Activity,
    ensures
        now >= history[i].at + m.idle + m.dim,
        !blocked,
{
    let whole = history.push(Stamped { event: EventView::Timer { blocked }, at: now });
    assert(whole.drop_last() =~= history);
    lemma_history(m, history);
    lemma_settings_stay(m, history);
}

/// The timer never even dims the screen within the idle timeout of an input.
pub proof fn law_no_dim_in_use(
    m: MachineView,
    history: Seq<Stamped>,
    now: nat,
    blocked: bool,
    i: int,
)
    requires
        m.state == State::Active,
        is_history(m, history.push(Stamped { event: EventView::Timer { blocked }, at: now })),
        run(m, history).state == State::Active,
        run(m, history).after(EventView::Timer { blocked }, now).state != State::Active,
        0 <= i < history.len(),
        history[i].event is Activity,
    ensures
        now >= history[i].at + m.idle,
        !blocked,
{
    let whole = history.push(Stamped { event: EventView::Timer { blocked }, at: now });
    assert(whole.drop_last() =~= history);
    lemma_history(m, history);
    lemma_settings_stay(m, history);
}

/// Asking for the status changes nothing, and the client prints the word of the
/// state that the daemon is in.
pub proof fn law_status_reports_state(m: MachineView, now: nat)
    ensures
        ({
            let request = spec_line(Command::Status.word());
            &&& m.after(EventView::Control(Some(request)), now) == m
            &&& m.actions(EventView::Control(Some(request))) == Seq::<Action>::empty()
            &&& spec_trim_end(spec_line(m.control_reply(request))) == m.state.word()
            &&& m.state.word() == match m.state {
                State::Active => "active"@,
                State::Dim => "dim"@,
                State::Black => "black"@,
            }
        }),
{
    law_request_is_understood(Command::Status);
    lemma_words();
    law_reply_is_printed_as_given(m.state.word());
}

/// A line that holds no command is refused: nothing changes, nothing is done, and
/// the client prints the error.
pub proof fn law_unknown_command_is_refused(m: MachineView, text: Seq<char>, now: nat)
    requires
        Command::spec_parse(text) is None,
    ensures
        m.after(EventView::Control(Some(text)), now) == m,
        m.actions(EventView::Control(Some(text))) == Seq::<Action>::empty(),
        spec_trim_end(spec_line(m.control_reply(text))) == "error: unknown command"@,
{
    lemma_words();
    law_reply_is_printed_as_given(unknown_reply());
}

} // verus!
