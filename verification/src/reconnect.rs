//! Picking up a lost display connection again.

use crate::time::Duration;
use vstd::prelude::*;

verus! {

/// The first pause between two attempts, in milliseconds.
pub const FIRST_PAUSE_MILLIS: u64 = 200;

/// The longest pause between two attempts, in milliseconds.
pub const LONGEST_PAUSE_MILLIS: u64 = 3000;

/// How an attempt to run the overlay ended.
#[derive(Debug, Clone, Copy, PartialEq, Eq, Structural)]
pub enum Attempt {
    /// The display could not be reached.
    Unreachable,
    /// The display was reached, and the connection ended with an error.
    Lost,
    /// The display was reached, and the overlay ended as asked.
    Finished,
}

/// The pauses between attempts: they double from one failure to the next, up to a
/// limit, and start over once the display has been reached.
#[derive(Debug, Clone, Copy, PartialEq, Eq, Structural)]
pub struct Backoff {
    /// The next pause, in milliseconds.
    pub millis: u64,
}

/// The pause after one of `millis`.
pub open spec fn next_pause(millis: int) -> int {
    if millis * 2 <= LONGEST_PAUSE_MILLIS {
        millis * 2
    } else {
        LONGEST_PAUSE_MILLIS as int
    }
}

impl Backoff {
    /// No pause is shorter than the first or longer than the longest.
    pub open spec fn wf(self) -> bool {
        FIRST_PAUSE_MILLIS <= self.millis <= LONGEST_PAUSE_MILLIS
    }

    /// The pause that follows an attempt.
    pub open spec fn pause_after(self, attempt: Attempt) -> int {
        if attempt == Attempt::Unreachable {
            self.millis as int
        } else {
            FIRST_PAUSE_MILLIS as int
        }
    }

    /// Before the first attempt.
    pub fn new() -> (b: Backoff)
        ensures
            b.wf(),
            b.millis == FIRST_PAUSE_MILLIS,
    {
        Backoff { millis: FIRST_PAUSE_MILLIS }
    }

    /// Whether to warn about how an attempt ended. An overlay that was told to
    /// quit loses its connection without a word.
    pub fn warns(attempt: Attempt, quit: bool) -> (r: bool)
        ensures
            r == match attempt {
                Attempt::Unreachable => true,
                Attempt::Lost => !quit,
                Attempt::Finished => false,
            },
    {
        match attempt {
            Attempt::Unreachable => true,
            Attempt::Lost => !quit,
            Attempt::Finished => false,
        }
    }

    /// How long to pause after an attempt, or nothing if the overlay was told to
    /// quit and no further attempt is made.
    pub fn pause(&mut self, attempt: Attempt, quit: bool) -> (r: Option<Duration>)
        requires
            old(self).wf(),
        ensures
            final(self).wf(),
            r is None <==> quit,
            r matches Some(d) ==> {
                &&& d@ == old(self).pause_after(attempt) * 1_000_000
                &&& final(self).millis == next_pause(old(self).pause_after(attempt))
            },
            r is None ==> final(self).millis == old(self).pause_after(attempt),
    {
        if attempt != Attempt::Unreachable {
            self.millis = FIRST_PAUSE_MILLIS;
        }
        if quit {
            return None;
        }
        let pause: Duration = Duration::from_millis(self.millis);
        let doubled: u64 = self.millis * 2;
        self.millis = if doubled <= LONGEST_PAUSE_MILLIS {
            doubled
        } else {
            LONGEST_PAUSE_MILLIS
        };
        Some(pause)
    }
}

/// The pause before the attempt that follows `failures` failures in a row, where
/// the first of them paused for `first`.
pub open spec fn pause_after_failures(first: int, failures: nat) -> int
    decreases failures,
{
    if failures == 0 {
        first
    } else {
        next_pause(pause_after_failures(first, (failures - 1) as nat))
    }
}

/// Pauses never shrink during a run of failures and stay within their limits.
pub proof fn law_pauses_grow(failures: nat)
    ensures
        FIRST_PAUSE_MILLIS <= pause_after_failures(FIRST_PAUSE_MILLIS as int, failures)
            <= LONGEST_PAUSE_MILLIS,
        pause_after_failures(FIRST_PAUSE_MILLIS as int, failures) <= pause_after_failures(
            FIRST_PAUSE_MILLIS as int,
            failures + 1,
        ),
    decreases failures,
{
    if failures > 0 {
        law_pauses_grow((failures - 1) as nat);
    }
}

/// From one failure to the next the pause doubles, from 200 milliseconds on, as long
/// as that is no more than three seconds, and is three seconds after that.
pub proof fn law_pauses_double(failures: nat)
    ensures
        ({
            let pause = pause_after_failures(200, failures);
            let next = pause_after_failures(200, failures + 1);
            &&& 2 * pause <= 3000 ==> next == 2 * pause
            &&& 2 * pause > 3000 ==> next == 3000
        }),
        pause_after_failures(200, 0) == 200,
{
}

/// While the display cannot be reached, the pause is the one that is due.
pub proof fn law_pause_is_the_one_due(b: Backoff)
    ensures
        b.pause_after(Attempt::Unreachable) == b.millis,
        b.pause_after(Attempt::Lost) == 200,
        b.pause_after(Attempt::Finished) == 200,
        next_pause(b.millis as int) <= 3000,
        b.millis <= 1500 ==> next_pause(b.millis as int) == 2 * b.millis,
        b.millis >= 1500 ==> next_pause(b.millis as int) == 3000,
{
}

/// From the fourth failure in a row on, the pause is the longest.
pub proof fn law_pauses_settle(failures: nat)
    requires
        failures >= 4,
    ensures
        pause_after_failures(FIRST_PAUSE_MILLIS as int, failures) == LONGEST_PAUSE_MILLIS,
    decreases failures,
{
    if failures == 4 {
        reveal_with_fuel(pause_after_failures, 5);
    } else {
        law_pauses_settle((failures - 1) as nat);
    }
}

/// Once the display has been reached, the pauses start over.
pub proof fn law_pauses_start_over(b: Backoff, attempt: Attempt)
    requires
        attempt != Attempt::Unreachable,
    ensures
        b.pause_after(attempt) == FIRST_PAUSE_MILLIS,
{
}

} // verus!
