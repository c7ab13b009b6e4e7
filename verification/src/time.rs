//! Spans and points of time, as whole nanoseconds.

use vstd::prelude::*;

verus! {

/// Nanoseconds in a second.
pub const NANOS_PER_SEC: u32 = 1_000_000_000;

/// Minimum gap between two debug lines about one device, in seconds.
pub const LOG_THROTTLE_SECS: u64 = 1;

/// Seconds between two scans for new devices.
pub const RESCAN_INTERVAL_SECS: u64 = 3;

/// A span of time.
#[derive(Debug, Clone, Copy, PartialEq, Eq, Structural)]
pub struct Duration {
    pub secs: u64,
    pub nanos: u32,
}

impl View for Duration {
    type V = nat;

    /// The length in nanoseconds.
    open spec fn view(&self) -> nat {
        (self.secs * 1_000_000_000 + self.nanos) as nat
    }
}

impl Duration {
    /// `secs` seconds.
    pub fn from_secs(secs: u64) -> (d: Duration)
        ensures
            d == (Duration { secs, nanos: 0 }),
            d@ == secs * 1_000_000_000,
    {
        Duration { secs, nanos: 0 }
    }

    /// `millis` milliseconds.
    pub fn from_millis(millis: u64) -> (d: Duration)
        ensures
            d.nanos < 1_000_000_000,
            d@ == millis * 1_000_000,
    {
        let rest: u64 = millis % 1000;
        Duration { secs: millis / 1000, nanos: rest as u32 * 1_000_000 }
    }
}

/// A reading of the clock: the time that has passed since the program started.
/// The nanoseconds of more than five centuries fit.
#[derive(Debug, Clone, Copy, PartialEq, Eq, Structural)]
pub struct Instant {
    pub nanos: u64,
}

impl View for Instant {
    type V = nat;

    open spec fn view(&self) -> nat {
        self.nanos as nat
    }
}

/// A point of time that may lie arbitrarily far ahead, on the scale of
/// [`Instant`].
#[derive(Debug, Clone, Copy, PartialEq, Eq, Structural)]
pub struct Deadline {
    pub nanos: u128,
}

impl View for Deadline {
    type V = nat;

    open spec fn view(&self) -> nat {
        self.nanos as nat
    }
}

impl Instant {
    /// The point that lies `d` after this one.
    pub fn plus(self, d: Duration) -> (r: Deadline)
        ensures
            r@ == self@ + d@,
            r.nanos == self.nanos + d.secs * 1_000_000_000 + d.nanos,
    {
        Deadline { nanos: self.nanos as u128 + d.secs as u128 * 1_000_000_000 + d.nanos as u128 }
    }
}

/// Lets a message through at most once per [`LOG_THROTTLE_SECS`].
#[derive(Debug, Clone, Copy, PartialEq, Eq, Structural)]
pub struct Throttle {
    /// When a message was last let through.
    pub last: Option<Instant>,
}

impl Throttle {
    /// Whether a message may pass at `now`.
    pub open spec fn open_at(self, now: Instant) -> bool {
        match self.last {
            Some(t) => now@ >= t@ + LOG_THROTTLE_SECS * 1_000_000_000,
            None => true,
        }
    }

    /// A throttle that has let nothing through yet.
    pub fn new() -> (t: Throttle)
        ensures
            t.last is None,
    {
        Throttle { last: None }
    }

    /// Asks to let a message through at `now`. A clock that runs backwards does
    /// not open the throttle.
    pub fn pass(&mut self, now: Instant) -> (r: bool)
        ensures
            r == old(self).open_at(now),
            final(self).last == if r {
                Some(now)
            } else {
                old(self).last
            },
    {
        let ready = match self.last {
            Some(t) => now.nanos as u128 >= t.nanos as u128 + LOG_THROTTLE_SECS as u128
                * 1_000_000_000,
            None => true,
        };
        if ready {
            self.last = Some(now);
        }
        ready
    }
}

/// The throttle after a run of requests to pass.
pub open spec fn after_all(t: Throttle, asked: Seq<Instant>) -> Throttle
    decreases asked.len(),
{
    if asked.len() == 0 {
        t
    } else {
        let before = after_all(t, asked.drop_last());
        if before.open_at(asked.last()) {
            Throttle { last: Some(asked.last()) }
        } else {
            before
        }
    }
}

/// The `i`-th request of a run passes.
pub open spec fn passes(t: Throttle, asked: Seq<Instant>, i: int) -> bool {
    after_all(t, asked.take(i)).open_at(asked[i])
}

/// After the `i`-th request passed, the throttle remembers it or a later one.
proof fn lemma_remembered(t: Throttle, asked: Seq<Instant>, i: int, j: int)
    requires
        0 <= i < j <= asked.len(),
        passes(t, asked, i),
    ensures
        after_all(t, asked.take(j)).last matches Some(l) && l@ >= asked[i]@,
    decreases j,
{
    assert(asked.take(j).drop_last() =~= asked.take(j - 1));
    assert(asked.take(j).last() == asked[j - 1]);
    if i < j - 1 {
        lemma_remembered(t, asked, i, j - 1);
    }
}

/// A message passes when none has passed yet, and when a second has gone by since the
/// last one; it does not pass before that, nor on a clock that went backwards.
pub proof fn law_throttle_opens_after_a_second(t: Throttle, now: Instant)
    ensures
        t.last is None ==> t.open_at(now),
        t.last matches Some(l) ==> (t.open_at(now) <==> now.nanos >= l.nanos + 1_000_000_000),
{
}

/// Of a run of requests, the first passes a throttle that has let nothing through.
pub proof fn law_first_message_passes(t: Throttle, asked: Seq<Instant>)
    requires
        t.last is None,
        asked.len() > 0,
    ensures
        passes(t, asked, 0),
{
    assert(asked.take(0) =~= Seq::<Instant>::empty());
}

/// Spans and points of time are counted in nanoseconds: a second has a billion of
/// them.
pub proof fn law_time_is_counted_in_nanoseconds(d: Duration, t: Instant, e: Deadline)
    ensures
        d@ == d.secs * 1_000_000_000 + d.nanos,
        t@ == t.nanos,
        e@ == e.nanos,
{
}

/// Messages keep their distance: of any two that pass the throttle, the later one
/// comes at least [`LOG_THROTTLE_SECS`] after the earlier one.
pub proof fn law_messages_keep_their_distance(t: Throttle, asked: Seq<Instant>, i: int, j: int)
    requires
        0 <= i < j < asked.len(),
        passes(t, asked, i),
        passes(t, asked, j),
    ensures
        asked[j]@ >= asked[i]@ + LOG_THROTTLE_SECS * 1_000_000_000,
        asked[j].nanos >= asked[i].nanos + 1_000_000_000,
{
    lemma_remembered(t, asked, i, j);
}

} // verus!
