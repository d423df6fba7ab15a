//! A future that completes once a span of time has passed since it was first polled.
use vstd::prelude::*;
use core::time::Duration;

verus! {

/// A point in time, as the `time` crate measures it.
#[verifier::external_type_specification]
#[verifier::external_body]
pub struct ExInstant(time::Instant);

/// The current instant, from `time::Instant::now`. Nothing is stated of it: it
/// depends on the clock.
#[verifier::external_body]
fn instant_now() -> time::Instant {
    time::Instant::now()
}

/// Whether less than `duration` has passed since `timer`, from
/// `time::Instant::elapsed` compared with `duration`. Nothing is stated of it: it
/// depends on the clock.
#[verifier::external_body]
fn elapsed_below(timer: time::Instant, duration: Duration) -> bool {
    timer.elapsed() < duration
}

/// Whether a poll measured from `start` when the recorded start is `timer`: from
/// the recorded start once there is one.
pub open spec fn measured_from(timer: Option<time::Instant>, start: time::Instant) -> bool {
    match timer {
        Some(t) => start == t,
        None => true,
    }
}

/// The recorded start after a poll that measured from `start` and was told
/// `waiting` (less than the duration has passed since `start`): `start` while the
/// wait goes on, the start as it was once the wait is over.
pub open spec fn timer_after_poll(
    timer: Option<time::Instant>,
    start: time::Instant,
    waiting: bool,
) -> Option<time::Instant> {
    if waiting {
        Some(start)
    } else {
        timer
    }
}

/// The recorded start after a run of polls, each given as the instant it measured
/// from and the clock's answer.
pub open spec fn timer_after_polls(
    timer: Option<time::Instant>,
    readings: Seq<(time::Instant, bool)>,
) -> Option<time::Instant>
    decreases readings.len(),
{
    if readings.len() == 0 {
        timer
    } else {
        timer_after_polls(
            timer_after_poll(timer, readings[0].0, readings[0].1),
            readings.skip(1),
        )
    }
}

/// Every poll of the run measured from the start recorded before it.
pub open spec fn readings_consistent(
    timer: Option<time::Instant>,
    readings: Seq<(time::Instant, bool)>,
) -> bool
    decreases readings.len(),
{
    readings.len() == 0 || (measured_from(timer, readings[0].0) && readings_consistent(
        timer_after_poll(timer, readings[0].0, readings[0].1),
        readings.skip(1),
    ))
}

/// A wait of `duration`, started at `timer` once it has been polled. `reading` is
/// what the last poll asked the clock: the instant it measured from, and whether
/// the clock said that less than `duration` had passed since then.
pub struct Delay {
    duration: Duration,
    timer: Option<time::Instant>,
    reading: Ghost<Option<(time::Instant, bool)>>,
}

/// A wait of `duration` that has not started yet.
pub fn my_sleep(duration: Duration) -> (d: Delay)
    ensures
        d.duration_spec() == duration,
        d.timer_spec() is None,
        d.last_reading() is None,
{
    Delay { duration, timer: None, reading: Ghost(None) }
}

impl Delay {
    /// How long the wait lasts.
    pub closed spec fn duration_spec(&self) -> Duration {
        self.duration
    }

    /// When the wait started, if it has.
    pub closed spec fn timer_spec(&self) -> Option<time::Instant> {
        self.timer
    }

    /// What the last poll asked the clock: the instant it measured from, and whether
    /// less than the duration had passed since then; `None` before the first poll.
    pub closed spec fn last_reading(&self) -> Option<(time::Instant, bool)> {
        self.reading@
    }

    /// One poll of the wait. It asks the clock whether less than `duration` has
    /// passed since the recorded start (since the present instant on the first
    /// poll), and the wait is over exactly when the clock says no. While it is not
    /// over, the instant measured from is recorded as the start; once it is, the
    /// start stays as it was.
    pub fn poll_ready(&mut self) -> (ready: bool)
        ensures
            final(self).duration_spec() == old(self).duration_spec(),
            final(self).last_reading() is Some,
            ready == !final(self).last_reading().unwrap().1,
            measured_from(old(self).timer_spec(), final(self).last_reading().unwrap().0),
            final(self).timer_spec() == timer_after_poll(
                old(self).timer_spec(),
                final(self).last_reading().unwrap().0,
                final(self).last_reading().unwrap().1,
            ),
    {
        let timer = self.wait_start(instant_now());
        let waiting = elapsed_below(timer, self.duration);
        self.reading = Ghost(Some((timer, waiting)));
        self.poll_with(timer, waiting)
    }

    /// The instant the wait is measured from: the recorded start once there is one,
    /// else `now`, the present instant of a first poll.
    pub fn wait_start(&self, now: time::Instant) -> (s: time::Instant)
        ensures
            s == match self.timer_spec() {
                Some(t) => t,
                None => now,
            },
    {
        match self.timer {
            Some(t) => t,
            None => now,
        }
    }

    /// One poll of the wait, given what the clock said: `start` is when the wait
    /// began (the recorded start, or the present instant on the first poll), and
    /// `waiting` tells whether less than the wait's duration has passed since then.
    /// The wait is over exactly when `waiting` is false; while it is not, `start` is
    /// recorded as the start, and once it is, nothing changes.
    pub fn poll_with(&mut self, start: time::Instant, waiting: bool) -> (ready: bool)
        ensures
            ready == !waiting,
            final(self).duration_spec() == old(self).duration_spec(),
            final(self).timer_spec() == timer_after_poll(old(self).timer_spec(), start, waiting),
            final(self).last_reading() == old(self).last_reading(),
    {
        if waiting {
            self.timer = Some(start);
            false
        } else {
            true
        }
    }
}

/// Once a wait has a recorded start, every later poll that measures from the
/// recorded start (as `poll_ready` does) measures from that same instant, and the
/// start never changes again, whatever the clock answers.
pub proof fn law_start_is_kept(start: time::Instant, readings: Seq<(time::Instant, bool)>)
    requires
        readings_consistent(Some(start), readings),
    ensures
        timer_after_polls(Some(start), readings) == Some(start),
        forall|i: int| 0 <= i < readings.len() ==> (#[trigger] readings[i]).0 == start,
    decreases readings.len(),
{
    if readings.len() > 0 {
        let rest = readings.skip(1);
        law_start_is_kept(start, rest);
        assert forall|i: int| 0 <= i < readings.len() implies (#[trigger] readings[i]).0 == start by {
            if i > 0 {
                assert(readings[i] == rest[i - 1]);
            }
        }
    }
}

/// A wait whose first poll is told that its duration has not yet passed records the
/// instant of that poll as its start, and from then on every poll measures from that
/// instant and the start stays: so each later poll is ready exactly when the clock
/// says that the duration has passed since the first poll.
pub proof fn law_first_pending_poll_fixes_start(readings: Seq<(time::Instant, bool)>)
    requires
        readings.len() > 0,
        readings[0].1,
        readings_consistent(None, readings),
    ensures
        timer_after_polls(None, readings) == Some(readings[0].0),
        forall|i: int| 0 <= i < readings.len() ==> (#[trigger] readings[i]).0 == readings[0].0,
{
    let rest = readings.skip(1);
    law_start_is_kept(readings[0].0, rest);
    assert forall|i: int| 0 <= i < readings.len() implies (#[trigger] readings[i]).0 == readings[0].0 by {
        if i > 0 {
            assert(readings[i] == rest[i - 1]);
        }
    }
}

} // verus!
