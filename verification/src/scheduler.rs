//! The daily announcement. A loop outside this library sleeps and sends; what
//! it does after each look at the clock is decided here.

use chrono::NaiveTime;
use chrono::Timelike;
use vstd::prelude::*;

verus! {

/// Declares `chrono::NaiveTime`, a time of day, so that the reading of the
/// clock can be handed to the functions that take it apart.
#[verifier::external_type_specification]
#[verifier::external_body]
pub struct ExNaiveTime(chrono::NaiveTime);

/// The time of day on the local clock.
///
/// Trusted: the body is `chrono::Local::now`, of which the time of day is
/// taken. Nothing is claimed of it: it is the reading of a clock.
#[verifier::external_body]
pub(crate) fn local_time() -> NaiveTime {
    chrono::Local::now().time()
}

/// The hour of `time`.
///
/// Trusted: the body is `chrono::Timelike::hour`, documented to return the
/// hour number from 0 to 23.
#[verifier::external_body]
pub(crate) fn hour_of(time: &NaiveTime) -> (hour: u32)
    ensures
        hour < 24,
{
    time.hour()
}

/// The minute of `time`.
///
/// Trusted: the body is `chrono::Timelike::minute`, documented to return the
/// minute number from 0 to 59.
#[verifier::external_body]
pub(crate) fn minute_of(time: &NaiveTime) -> (minute: u32)
    ensures
        minute < 60,
{
    time.minute()
}

/// The hour of the day at which the announcement fires.
pub const TRIGGER_HOUR: u32 = 21;

/// The minute of the hour at which the announcement fires.
pub const TRIGGER_MINUTE: u32 = 37;

/// The seconds between two looks at the clock.
pub const POLL_SECONDS: u64 = 10;

/// The seconds that the loop rests after it fired, before it polls again.
pub const COOLDOWN_SECONDS: u64 = 120;

/// The name of the channel that the announcement goes to.
pub const ANNOUNCE_CHANNEL: &'static str = "przegryw-nest";

/// The announcement.
pub const ANNOUNCEMENT: &'static str = "JEST WOLNOŚĆ W PANOPTYKONIE";

/// What the loop does after a look at the clock.
#[derive(Clone, Copy, Debug, PartialEq, Eq, Structural)]
pub struct Tick {
    /// Whether the announcement is sent now.
    pub fire: bool,
    /// The seconds to sleep before the next look.
    pub pause_seconds: u64,
}

/// The trigger window: the minute of the day at which the announcement fires.
pub open spec fn in_window(hour: u32, minute: u32) -> bool {
    hour == TRIGGER_HOUR && minute == TRIGGER_MINUTE
}

/// In the window the loop fires and rests for the cool-down and one poll
/// interval; outside it waits one poll interval.
pub open spec fn decided(hour: u32, minute: u32) -> Tick {
    if in_window(hour, minute) {
        Tick { fire: true, pause_seconds: (COOLDOWN_SECONDS + POLL_SECONDS) as u64 }
    } else {
        Tick { fire: false, pause_seconds: POLL_SECONDS }
    }
}

/// Decides what to do at `hour`:`minute`.
pub fn decide(hour: u32, minute: u32) -> (tick: Tick)
    ensures
        tick == decided(hour, minute),
{
    if hour == TRIGGER_HOUR && minute == TRIGGER_MINUTE {
        Tick { fire: true, pause_seconds: COOLDOWN_SECONDS + POLL_SECONDS }
    } else {
        Tick { fire: false, pause_seconds: POLL_SECONDS }
    }
}

/// Looks at the local clock and decides what to do now.
pub fn poll() -> (tick: Tick)
    ensures
        exists|hour: u32, minute: u32| hour < 24 && minute < 60 && tick == decided(hour, minute),
{
    let now = local_time();
    let hour = hour_of(&now);
    let minute = minute_of(&now);
    decide(hour, minute)
}

/// The hour of the day, `second` seconds after a midnight.
pub open spec fn hour_at(second: nat) -> u32 {
    ((second % 86400) / 3600) as u32
}

/// The minute of the hour, `second` seconds after a midnight.
pub open spec fn minute_at(second: nat) -> u32 {
    ((second % 3600) / 60) as u32
}

/// The second at which a loop looks at the clock next, after a look at
/// `second`.
pub open spec fn next_look(second: nat) -> nat {
    second + decided(hour_at(second), minute_at(second)).pause_seconds as nat
}

/// The rest after firing outlasts the window: a loop that fired at some
/// second of the window looks at the clock next when the window is over, so
/// it fires once a day at most.
pub proof fn law_cooldown_outlasts_window(second: nat)
    requires
        in_window(hour_at(second), minute_at(second)),
    ensures
        decided(hour_at(second), minute_at(second)).fire,
        !in_window(hour_at(next_look(second)), minute_at(next_look(second))),
{
}

} // verus!
