//! Input activity, from the events of `/dev/input/event*`.
//!
//! Absolute axes (sticks, triggers, gyro) get a deadzone each, so that drift and
//! idle jitter do not keep the screen awake, while D-pad presses and real stick
//! pushes do.

use crate::text::{
    contains, has_substring, law_substring_has_a_place, law_substring_is_inside, same_text, spec_trim,
    trim,
};
use crate::time::{Instant, Throttle};
use crate::watch::WatchList;
use std::collections::HashMap;
use vstd::prelude::*;

verus! {

/// The event type of keys and buttons.
pub const EV_KEY: u16 = 1;

/// The event type of relative axes, such as those of a mouse.
pub const EV_REL: u16 = 2;

/// The event type of absolute axes, such as those of a stick.
pub const EV_ABS: u16 = 3;

/// An input event.
#[derive(Debug, Clone, Copy, PartialEq, Eq, Structural)]
pub struct InputEvent {
    /// The event type.
    pub kind: u16,
    /// Which key or axis.
    pub code: u16,
    pub value: i32,
}

/// The kinds of events that a device can produce.
#[derive(Debug, Clone, Copy, PartialEq, Eq, Structural)]
pub struct EventKinds {
    pub key: bool,
    pub relative: bool,
    pub absolute: bool,
}

/// What the kernel says about an absolute axis.
#[derive(Debug, Clone, Copy, PartialEq, Eq, Structural)]
pub struct AbsInfo {
    pub minimum: i32,
    pub maximum: i32,
    /// The kernel's own deadzone.
    pub flat: i32,
}

/// The larger of two numbers.
pub open spec fn max_of(a: int, b: int) -> int {
    if a >= b {
        a
    } else {
        b
    }
}

/// The distance of a number from zero.
pub open spec fn magnitude(a: int) -> int {
    if a < 0 {
        -a
    } else {
        a
    }
}

impl AbsInfo {
    /// Neither the range nor the deadzone leaves 32 bits.
    pub open spec fn fits(self) -> bool {
        &&& i32::MIN <= self.maximum - self.minimum <= i32::MAX
        &&& self.flat != i32::MIN
    }

    /// How far the axis has to move to count: a twentieth of its range, but at
    /// least the kernel's deadzone, and at least one.
    pub open spec fn spec_threshold(self) -> int {
        max_of(
            max_of(max_of(self.maximum - self.minimum, 0) / 20, magnitude(self.flat as int)),
            1,
        )
    }

    /// Whether [`AbsInfo::threshold`] can be computed in 32 bits.
    pub fn in_range(&self) -> (r: bool)
        ensures
            r == self.fits(),
    {
        let range: i64 = self.maximum as i64 - self.minimum as i64;
        i32::MIN as i64 <= range && range <= i32::MAX as i64 && self.flat != i32::MIN
    }

    /// How far the axis has to move to count.
    pub fn threshold(&self) -> (t: i32)
        requires
            self.fits(),
        ensures
            t == self.spec_threshold(),
            t >= 1,
            t >= self.flat && t >= -self.flat,
            20 * t > self.maximum - self.minimum - 20,
            t == 1 || t == self.flat || t == -self.flat || 20 * t <= self.maximum - self.minimum,
    {
        let range: i32 = self.maximum - self.minimum;
        let part: i32 = if range > 0 {
            range / 20
        } else {
            0
        };
        let flat: i32 = if self.flat < 0 {
            -self.flat
        } else {
            self.flat
        };
        let most: i32 = if part >= flat {
            part
        } else {
            flat
        };
        if most >= 1 {
            most
        } else {
            1
        }
    }
}

/// A device counts if it can produce keys or buttons, pointer motion, or axes.
pub fn is_input_source(kinds: EventKinds) -> (r: bool)
    ensures
        r == (kinds.key || kinds.relative || kinds.absolute),
{
    kinds.key || kinds.relative || kinds.absolute
}

/// Every axis of a device has a deadzone that can be computed.
pub open spec fn states_fit(states: Option<Vec<AbsInfo>>) -> bool {
    states matches Some(v) ==> v@.len() <= 0x10000 && forall|i: int|
        0 <= i < v@.len() ==> (#[trigger] v@[i]).fits()
}

/// `map` holds the deadzone of each of the axes `states`, and no other.
pub open spec fn are_thresholds(map: Map<u16, i32>, states: Option<Vec<AbsInfo>>) -> bool {
    match states {
        Some(v) => {
            &&& forall|c: u16| #[trigger] map.contains_key(c) <==> c < v@.len()
            &&& forall|c: u16| c < v@.len() ==> #[trigger] map[c] == v@[c as int].spec_threshold()
        },
        None => map == Map::<u16, i32>::empty(),
    }
}

/// The deadzone of each axis, by its code. `states` lists the axes in the order of
/// their codes; where the device has none to tell, there are no deadzones.
pub fn abs_thresholds(states: &Option<Vec<AbsInfo>>) -> (map: HashMap<u16, i32>)
    requires
        states_fit(*states),
    ensures
        are_thresholds(map@, *states),
{
    let mut map: HashMap<u16, i32> = HashMap::new();
    if let Some(v) = states {
        let mut i: usize = 0;
        while i < v.len()
            invariant
                i <= v@.len() <= 0x10000,
                forall|k: int| 0 <= k < v@.len() ==> (#[trigger] v@[k]).fits(),
                forall|c: u16| #[trigger] map@.contains_key(c) <==> c < i,
                forall|c: u16| c < i ==> #[trigger] map@[c] == v@[c as int].spec_threshold(),
            decreases v@.len() - i,
        {
            let code: u16 = i as u16;
            let threshold: i32 = v[i].threshold();
            map.insert(code, threshold);
            i = i + 1;
        }
    }
    map
}

/// The deadzone of an axis: the one that is known, otherwise one.
pub open spec fn deadzone(thresholds: Map<u16, i32>, code: u16) -> int {
    if thresholds.contains_key(code) {
        thresholds[code] as int
    } else {
        1
    }
}

/// How far an axis has moved since its last sample fits in 32 bits.
pub open spec fn step_fits(ev: InputEvent, last: Map<u16, i32>) -> bool {
    ev.kind == EV_ABS && last.contains_key(ev.code) ==> -i32::MAX <= ev.value - last[ev.code]
        <= i32::MAX
}

/// The event is genuine user activity: a key, a button or pointer motion, or an
/// axis that has left its deadzone since its last sample. The first sample of an
/// axis is not.
pub open spec fn activity(
    ev: InputEvent,
    thresholds: Map<u16, i32>,
    last: Map<u16, i32>,
) -> bool {
    if ev.kind == EV_KEY || ev.kind == EV_REL {
        true
    } else if ev.kind == EV_ABS {
        last.contains_key(ev.code) && magnitude(ev.value - last[ev.code]) >= deadzone(
            thresholds,
            ev.code,
        )
    } else {
        false
    }
}

/// The last sample of each axis after an event.
pub open spec fn samples_after(last: Map<u16, i32>, ev: InputEvent) -> Map<u16, i32> {
    if ev.kind == EV_ABS {
        last.insert(ev.code, ev.value)
    } else {
        last
    }
}

/// Whether [`is_activity`] can compare `ev` with the last sample in 32 bits.
pub fn in_range(ev: &InputEvent, last_abs: &HashMap<u16, i32>) -> (r: bool)
    ensures
        r == step_fits(*ev, last_abs@),
{
    if ev.kind == EV_ABS {
        match last_abs.get(&ev.code) {
            Some(prev) => {
                let step: i64 = ev.value as i64 - *prev as i64;
                -(i32::MAX as i64) <= step && step <= i32::MAX as i64
            },
            None => true,
        }
    } else {
        true
    }
}

/// Decide whether an event represents genuine user activity.
pub fn is_activity(
    ev: &InputEvent,
    thresholds: &HashMap<u16, i32>,
    last_abs: &mut HashMap<u16, i32>,
) -> (r: bool)
    requires
        step_fits(*ev, old(last_abs)@),
    ensures
        r == activity(*ev, thresholds@, old(last_abs)@),
        final(last_abs)@ == samples_after(old(last_abs)@, *ev),
{
    if ev.kind == EV_KEY || ev.kind == EV_REL {
        true
    } else if ev.kind == EV_ABS {
        let threshold: i32 = match thresholds.get(&ev.code) {
            Some(t) => *t,
            None => 1,
        };
        let moved: bool = match last_abs.get(&ev.code) {
            Some(prev) => {
                let step: i32 = ev.value - *prev;
                let distance: i32 = if step < 0 {
                    -step
                } else {
                    step
                };
                distance >= threshold
            },
            None => false,
        };
        last_abs.insert(ev.code, ev.value);
        moved
    } else {
        false
    }
}

/// What to do about an event.
#[derive(Debug, Clone, Copy, PartialEq, Eq, Structural)]
pub struct Reaction {
    /// Tell the daemon that someone is there.
    pub signal: bool,
    /// Write a debug line that names the device.
    pub log: bool,
}

/// The watcher of one device.
pub struct DeviceWatch {
    pub thresholds: HashMap<u16, i32>,
    pub last_abs: HashMap<u16, i32>,
    pub throttle: Throttle,
}

impl DeviceWatch {
    /// Begin to watch a device whose axes are `states`.
    pub fn new(states: &Option<Vec<AbsInfo>>) -> (w: DeviceWatch)
        requires
            states_fit(*states),
        ensures
            are_thresholds(w.thresholds@, *states),
            w.last_abs@ == Map::<u16, i32>::empty(),
            w.throttle.last is None,
    {
        DeviceWatch {
            thresholds: abs_thresholds(states),
            last_abs: HashMap::new(),
            throttle: Throttle::new(),
        }
    }

    /// React to an event. Activity is always signalled; while debug lines are
    /// wanted, one is written at most once a second.
    pub fn on_event(&mut self, ev: &InputEvent, now: Instant, debug: bool) -> (r: Reaction)
        requires
            step_fits(*ev, old(self).last_abs@),
        ensures
            final(self).thresholds@ == old(self).thresholds@,
            final(self).last_abs@ == samples_after(old(self).last_abs@, *ev),
            r.signal == activity(*ev, old(self).thresholds@, old(self).last_abs@),
            r.log == (r.signal && debug && old(self).throttle.open_at(now)),
            final(self).throttle.last == if r.log {
                Some(now)
            } else {
                old(self).throttle.last
            },
    {
        let signal: bool = is_activity(ev, &self.thresholds, &mut self.last_abs);
        let log: bool = if signal && debug {
            self.throttle.pass(now)
        } else {
            false
        };
        Reaction { signal, log }
    }
}

/// The debug line that names what resets the idle timer: the event node, what the
/// device calls itself, and the event.
pub fn activity_line(base: &str, name: &str, kind: &str, code: &str, value: &str) -> (r: String)
    ensures
        r@ == "activity from "@ + base@ + " ("@ + name@ + "): type="@ + kind@ + " code="@ + code@
            + " value="@ + value@,
{
    let device: String = "activity from ".to_owned().concat(base).concat(" (").concat(name);
    device.concat("): type=").concat(kind).concat(" code=").concat(code).concat(" value=").concat(
        value,
    )
}

/// The name of a device, without the white space around it.
pub fn device_name(name: Option<String>) -> (r: String)
    ensures
        r@ == match name {
            Some(s) => spec_trim(s@),
            None => Seq::empty(),
        },
{
    match name {
        Some(s) => trim(s.as_str()).to_owned(),
        None => String::new(),
    }
}

/// A device of this name is never treated as user input. The "Video Bus" emits
/// key events when the display changes, which blanking can cause itself: the
/// screen would wake and blank in turn.
pub open spec fn is_blocked_name(name: Seq<char>) -> bool {
    has_substring(name, "Video Bus"@)
}

/// The user asked to ignore the node called `base`.
pub open spec fn is_ignored(ignore: Seq<String>, base: Seq<char>) -> bool {
    exists|i: int| 0 <= i < ignore.len() && (#[trigger] ignore[i])@ == base
}

/// Whether the user asked to ignore the node called `base`.
fn ignores(ignore: &Vec<String>, base: &str) -> (r: bool)
    ensures
        r == is_ignored(ignore@, base@),
{
    let mut i: usize = 0;
    while i < ignore.len()
        invariant
            i <= ignore@.len(),
            forall|k: int| 0 <= k < i ==> (#[trigger] ignore@[k])@ != base@,
        decreases ignore@.len() - i,
    {
        if same_text(ignore[i].as_str(), base) {
            assert(ignore@[i as int]@ == base@);
            return true;
        }
        i = i + 1;
    }
    false
}

/// The device at `path` is new and could be user input.
pub open spec fn is_candidate(
    watched: Set<Seq<u8>>,
    path: Seq<u8>,
    base: Seq<char>,
    kinds: EventKinds,
    ignore: Seq<String>,
) -> bool {
    &&& !watched.contains(path)
    &&& !is_ignored(ignore, base)
    &&& kinds.key || kinds.relative || kinds.absolute
}

/// Look at a device that a scan found, and say whether to start a watcher for it.
/// `base` is the last component of its path and `name` what the device calls
/// itself. A device that is never user input is put on the list as well, so that
/// the next scan passes over it.
pub fn consider(
    watched: &mut WatchList,
    path: &Vec<u8>,
    base: &str,
    name: &str,
    kinds: EventKinds,
    ignore: &Vec<String>,
) -> (attach: bool)
    requires
        old(watched).wf(),
    ensures
        final(watched).wf(),
        attach == (is_candidate(old(watched)@, path@, base@, kinds, ignore@) && !is_blocked_name(
            name@,
        )),
        attach <==> {
            &&& !old(watched)@.contains(path@)
            &&& forall|i: int| 0 <= i < ignore@.len() ==> (#[trigger] ignore@[i])@ != base@
            &&& !has_substring(name@, "Video Bus"@)
            &&& kinds.key || kinds.relative || kinds.absolute
        },
        final(watched)@ == if is_candidate(old(watched)@, path@, base@, kinds, ignore@) {
            old(watched)@.insert(path@)
        } else {
            old(watched)@
        },
{
    if watched.contains(path) || ignores(ignore, base) || !is_input_source(kinds) {
        return false;
    }
    watched.insert(path.clone());
    !contains(name, "Video Bus")
}

/// The last sample of each axis after a run of events.
pub open spec fn samples_after_all(last: Map<u16, i32>, events: Seq<InputEvent>) -> Map<u16, i32>
    decreases events.len(),
{
    if events.len() == 0 {
        last
    } else {
        samples_after(samples_after_all(last, events.drop_last()), events.last())
    }
}

/// No event of the run is activity.
pub open spec fn is_quiet(
    thresholds: Map<u16, i32>,
    last: Map<u16, i32>,
    events: Seq<InputEvent>,
) -> bool {
    forall|i: int|
        0 <= i < events.len() ==> !activity(
            #[trigger] events[i],
            thresholds,
            samples_after_all(last, events.take(i)),
        )
}

/// A threshold is the least number that is at least one, at least the kernel's
/// deadzone, and at least a twentieth of the range, as whole numbers go: no smaller
/// one would do.
pub proof fn law_threshold_is_the_least(info: AbsInfo, t: int)
    ensures
        info.spec_threshold() <= t <==> {
            &&& t >= 1
            &&& t >= info.flat && t >= -info.flat
            &&& 20 * (t + 1) > info.maximum - info.minimum
        },
{
}

/// An axis has a deadzone unless its range or the size of its flat takes more than 32
/// bits, and a device does if each of its axes has one; a device that tells of none
/// does in any case.
pub proof fn law_axes_that_have_a_deadzone(info: AbsInfo, states: Option<Vec<AbsInfo>>)
    ensures
        info.fits() <==> {
            &&& -0x8000_0000 <= info.maximum - info.minimum <= 0x7fff_ffff
            &&& info.flat > -0x8000_0000
        },
        states is None ==> states_fit(states),
        states is Some && states->0@.len() <= 0x10000 && (forall|i: int|
            0 <= i < states->0@.len() ==> (#[trigger] states->0@[i]).fits()) ==> states_fit(states),
{
}

/// A sample can be held against the last one unless the two are further apart than 31
/// bits can count; any other event, and the first sample of an axis, can in any case.
pub proof fn law_samples_that_can_be_compared(ev: InputEvent, last: Map<u16, i32>)
    ensures
        ev.kind != EV_ABS || !last.contains_key(ev.code) ==> step_fits(ev, last),
        ev.kind == EV_ABS && last.contains_key(ev.code) ==> (step_fits(ev, last) <==> {
            &&& ev.value - last[ev.code] <= 0x7fff_ffff
            &&& last[ev.code] - ev.value <= 0x7fff_ffff
        }),
{
}

/// Jitter within a twentieth of the range is quiet, whatever the kernel's deadzone,
/// and so is jitter within the kernel's deadzone, whatever the range.
pub proof fn law_jitter_is_quiet(
    info: AbsInfo,
    ev: InputEvent,
    thresholds: Map<u16, i32>,
    last: Map<u16, i32>,
    d: int,
)
    requires
        thresholds.contains_key(ev.code),
        thresholds[ev.code] == info.spec_threshold(),
        ev.kind == EV_ABS,
        last.contains_key(ev.code),
        -d <= ev.value - last[ev.code] <= d,
        20 * (d + 1) <= info.maximum - info.minimum || d < info.flat || d < -info.flat,
    ensures
        !activity(ev, thresholds, last),
{
}

/// An axis counts when it has moved as far as its deadzone reaches since the last
/// sample, in either direction, and not before. An axis with no deadzone known
/// counts whenever it moves.
pub proof fn law_axis_counts_beyond_its_deadzone(
    ev: InputEvent,
    thresholds: Map<u16, i32>,
    last: Map<u16, i32>,
)
    requires
        ev.kind == EV_ABS,
        last.contains_key(ev.code),
    ensures
        thresholds.contains_key(ev.code) ==> (activity(ev, thresholds, last) <==> {
            ||| ev.value - last[ev.code] >= thresholds[ev.code]
            ||| last[ev.code] - ev.value >= thresholds[ev.code]
        }),
        !thresholds.contains_key(ev.code) ==> (activity(ev, thresholds, last) <==> ev.value
            != last[ev.code]),
{
}

/// Every axis of a device is held to the deadzone that its own range and flat call
/// for, and an axis that the device does not tell of to none.
pub proof fn law_each_axis_has_its_own_deadzone(
    map: Map<u16, i32>,
    states: Option<Vec<AbsInfo>>,
    code: u16,
)
    requires
        are_thresholds(map, states),
    ensures
        map.contains_key(code) <==> (states matches Some(v) && code < v@.len()),
        states matches Some(v) ==> (code < v@.len() ==> map[code] == v@[code as int].spec_threshold()
            && deadzone(map, code) == v@[code as int].spec_threshold()),
        !map.contains_key(code) ==> deadzone(map, code) == 1,
{
}

/// Axes do not disturb each other: what is known of one decides about its own
/// samples alone, and a sample is remembered for its own axis alone.
pub proof fn law_axes_are_apart(
    ev: InputEvent,
    thresholds: Map<u16, i32>,
    others: Map<u16, i32>,
    last: Map<u16, i32>,
    elsewhere: Map<u16, i32>,
    code: u16,
)
    requires
        thresholds.contains_key(ev.code) == others.contains_key(ev.code),
        thresholds.contains_key(ev.code) ==> thresholds[ev.code] == others[ev.code],
        last.contains_key(ev.code) == elsewhere.contains_key(ev.code),
        last.contains_key(ev.code) ==> last[ev.code] == elsewhere[ev.code],
    ensures
        activity(ev, thresholds, last) == activity(ev, others, elsewhere),
        code != ev.code ==> samples_after(last, ev).contains_key(code) == last.contains_key(code),
        code != ev.code && last.contains_key(code) ==> samples_after(last, ev)[code] == last[code],
{
}

/// The last sample of an axis is remembered, whether or not it was activity, so
/// that the next one is held against it.
pub proof fn law_last_sample_is_remembered(
    ev: InputEvent,
    next: InputEvent,
    thresholds: Map<u16, i32>,
    last: Map<u16, i32>,
)
    requires
        ev.kind == EV_ABS,
        next.kind == EV_ABS,
        next.code == ev.code,
        thresholds.contains_key(ev.code),
    ensures
        samples_after(last, ev).contains_key(ev.code),
        samples_after(last, ev)[ev.code] == ev.value,
        activity(next, thresholds, samples_after(last, ev)) <==> {
            ||| next.value - ev.value >= thresholds[ev.code]
            ||| ev.value - next.value >= thresholds[ev.code]
        },
{
}

/// Events that are neither keys, nor motion, nor axes never count, and are not
/// remembered.
pub proof fn law_other_events_are_quiet(
    ev: InputEvent,
    thresholds: Map<u16, i32>,
    last: Map<u16, i32>,
)
    requires
        !(1 <= ev.kind <= 3),
    ensures
        !activity(ev, thresholds, last),
        samples_after(last, ev) == last,
{
}

/// Every device that is new, that the user did not ask to ignore, and that produces
/// keys, motion or axes, in any combination, is a candidate, and no other is.
pub proof fn law_every_new_input_is_a_candidate(
    watched: Set<Seq<u8>>,
    path: Seq<u8>,
    base: Seq<char>,
    kinds: EventKinds,
    ignore: Seq<String>,
)
    ensures
        is_candidate(watched, path, base, kinds, ignore) <==> {
            &&& !watched.contains(path)
            &&& forall|i: int| 0 <= i < ignore.len() ==> (#[trigger] ignore[i])@ != base
            &&& kinds != (EventKinds { key: false, relative: false, absolute: false })
        },
{
}

/// A device that produces more is no less a candidate.
pub proof fn law_more_events_do_no_harm(
    watched: Set<Seq<u8>>,
    path: Seq<u8>,
    base: Seq<char>,
    kinds: EventKinds,
    more: EventKinds,
    ignore: Seq<String>,
)
    requires
        is_candidate(watched, path, base, kinds, ignore),
        kinds.key ==> more.key,
        kinds.relative ==> more.relative,
        kinds.absolute ==> more.absolute,
    ensures
        is_candidate(watched, path, base, more, ignore),
{
}

/// A name is blocked if and only if "Video Bus" stands somewhere in it.
pub proof fn law_video_bus_is_blocked(left: Seq<char>, right: Seq<char>, name: Seq<char>)
    ensures
        is_blocked_name(left + "Video Bus"@ + right),
        is_blocked_name(name) ==> exists|l: Seq<char>, r: Seq<char>|
            name == #[trigger] (l + "Video Bus"@ + r),
{
    let bus = "Video Bus"@;
    law_substring_is_inside(left, bus, right);
    law_substring_is_inside(Seq::empty(), bus, Seq::empty());
    if is_blocked_name(name) {
        law_substring_has_a_place(name, bus);
    }
}

/// Keys, buttons and pointer motion always count, whatever the device.
pub proof fn law_buttons_and_motion_count(
    ev: InputEvent,
    thresholds: Map<u16, i32>,
    last: Map<u16, i32>,
)
    requires
        ev.kind == EV_KEY || ev.kind == EV_REL,
    ensures
        activity(ev, thresholds, last),
        samples_after(last, ev) == last,
{
}

/// The first sample of an axis is a baseline, not activity.
pub proof fn law_first_sample_is_baseline(
    ev: InputEvent,
    thresholds: Map<u16, i32>,
    last: Map<u16, i32>,
)
    requires
        ev.kind == EV_ABS,
        !last.contains_key(ev.code),
    ensures
        !activity(ev, thresholds, last),
        samples_after(last, ev)[ev.code] == ev.value,
{
}

/// A threshold is never below one, so a sample that repeats the last one is never
/// activity.
pub proof fn law_still_axis_is_quiet(info: AbsInfo, ev: InputEvent, last: Map<u16, i32>)
    requires
        info.fits(),
        ev.kind == EV_ABS,
        last.contains_key(ev.code),
        last[ev.code] == ev.value,
    ensures
        info.spec_threshold() >= 1,
        !activity(ev, map![ev.code => info.spec_threshold() as i32], last),
        !activity(ev, Map::empty(), last),
{
}

/// An axis of a few positions, such as a D-pad, has a threshold of one: every
/// change of it counts.
pub proof fn law_dpad_press_counts(
    info: AbsInfo,
    ev: InputEvent,
    thresholds: Map<u16, i32>,
    last: Map<u16, i32>,
)
    requires
        info.maximum - info.minimum < 40,
        magnitude(info.flat as int) <= 1,
        thresholds.contains_key(ev.code),
        thresholds[ev.code] == info.spec_threshold(),
        ev.kind == EV_ABS,
        last.contains_key(ev.code),
        last[ev.code] != ev.value,
    ensures
        info.spec_threshold() == 1,
        activity(ev, thresholds, last),
{
}

/// A push across a twentieth of the range, and beyond the kernel's own deadzone,
/// counts.
pub proof fn law_real_push_counts(
    info: AbsInfo,
    ev: InputEvent,
    thresholds: Map<u16, i32>,
    last: Map<u16, i32>,
)
    requires
        info.maximum >= info.minimum,
        thresholds.contains_key(ev.code),
        thresholds[ev.code] == info.spec_threshold(),
        ev.kind == EV_ABS,
        last.contains_key(ev.code),
        last[ev.code] != ev.value,
        20 * magnitude(ev.value - last[ev.code]) >= info.maximum - info.minimum,
        magnitude(ev.value - last[ev.code]) >= magnitude(info.flat as int),
    ensures
        activity(ev, thresholds, last),
{
}

/// Jitter and drift are quiet: as long as each sample of an axis lies within the
/// deadzone of the one before it, no sample is activity, however many there are
/// and however far the axis drifts in the end.
pub proof fn law_drift_is_quiet(
    thresholds: Map<u16, i32>,
    last: Map<u16, i32>,
    code: u16,
    events: Seq<InputEvent>,
)
    requires
        forall|i: int|
            0 <= i < events.len() ==> (#[trigger] events[i]).kind == EV_ABS && events[i].code
                == code,
        forall|i: int|
            0 < i < events.len() ==> magnitude((#[trigger] events[i]).value - events[i - 1].value)
                < deadzone(thresholds, code),
        events.len() > 0 && last.contains_key(code) ==> magnitude(events[0].value - last[code])
            < deadzone(thresholds, code),
    ensures
        is_quiet(thresholds, last, events),
{
    assert forall|i: int| 0 <= i < events.len() implies !activity(
        #[trigger] events[i],
        thresholds,
        samples_after_all(last, events.take(i)),
    ) by {
        if i > 0 {
            assert(events.take(i).last() == events[i - 1]);
            assert(samples_after_all(last, events.take(i))[code] == events[i - 1].value);
        } else {
            assert(events.take(0) =~= Seq::<InputEvent>::empty());
        }
    }
}

/// A node gets one watcher: once it is on the list, further scans pass over it;
/// once it is off the list again, the next scan finds the new device at the same
/// node.
pub proof fn law_node_is_found_again(
    watched: Set<Seq<u8>>,
    path: Seq<u8>,
    base: Seq<char>,
    kinds: EventKinds,
    ignore: Seq<String>,
)
    requires
        is_candidate(watched, path, base, kinds, ignore),
    ensures
        !is_candidate(watched.insert(path), path, base, kinds, ignore),
        watched.insert(path).remove(path) == watched,
        is_candidate(watched.insert(path).remove(path), path, base, kinds, ignore),
{
    assert(watched.insert(path).remove(path) =~= watched);
}

} // verus!
