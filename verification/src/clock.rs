//! Reading the clocks.

use std::time::{Duration, Instant, SystemTime, SystemTimeError, UNIX_EPOCH};
use vstd::prelude::*;

verus! {

/// A reading of the monotonic clock.
#[verifier::external_type_specification]
#[verifier::external_body]
pub struct ExInstant(Instant);

/// A reading of the wall clock.
#[verifier::external_type_specification]
#[verifier::external_body]
pub struct ExSystemTime(SystemTime);

/// How far a wall-clock reading lies before the moment it was compared with.
#[verifier::external_type_specification]
#[verifier::external_body]
pub struct ExSystemTimeError(SystemTimeError);

/// `Instant::now` reads the monotonic clock. Nothing is known of the reading.
pub assume_specification[ Instant::now ]() -> Instant
;

/// `Instant::elapsed` is the time since a reading of the monotonic clock.
/// Nothing is known of it beforehand.
pub assume_specification[ Instant::elapsed ](start: &Instant) -> Duration
;

/// `SystemTime::now` reads the wall clock. Nothing is known of the reading.
pub assume_specification[ SystemTime::now ]() -> SystemTime
;

/// `Duration::as_nanos` counts the whole nanoseconds of a duration. How long a
/// measured duration is, is not known beforehand.
pub assume_specification[ Duration::as_nanos ](duration: &Duration) -> u128
;

/// `SystemTime::duration_since` with the Unix epoch as the earlier moment. It
/// is an error where the clock stands before the epoch; which of the two comes
/// depends on the clock.
#[verifier::external_body]
fn since_epoch(now: SystemTime) -> Result<Duration, SystemTimeError> {
    now.duration_since(UNIX_EPOCH)
}

/// A count of nanoseconds as a timestamp: its low 64 bits, read as a signed
/// number. A clock before the epoch counts as the epoch.
pub fn timestamp_of(since_epoch_ns: Option<u128>) -> (ts: i64)
    ensures
        since_epoch_ns is None ==> ts == 0,
        since_epoch_ns matches Some(ns) ==> {
            &&& (ts - ns) % 0x1_0000_0000_0000_0000 == 0
            &&& ns <= i64::MAX ==> ts == ns
        },
{
    match since_epoch_ns {
        Some(ns) => {
            let low: u128 = ns % 0x1_0000_0000_0000_0000;
            if low <= 0x7fff_ffff_ffff_ffff {
                low as i64
            } else {
                (low as i128 - 0x1_0000_0000_0000_0000) as i64
            }
        },
        None => 0,
    }
}

/// The wall clock was read, and stood so far past the Unix epoch, or before it
/// (`None`).
pub closed spec fn wall_clock_read(past_epoch: Option<Duration>) -> bool {
    exists|now: SystemTime, r: Result<Duration, SystemTimeError>|
        {
            &&& #[trigger] call_ensures(SystemTime::now, (), now)
            &&& #[trigger] call_ensures(since_epoch, (now,), r)
            &&& past_epoch == match r {
                Ok(duration) => Some(duration),
                Err(_) => None,
            }
        }
}

/// `ns` is the count of nanoseconds in `duration`.
pub open spec fn counts_nanos(duration: Duration, ns: u128) -> bool {
    call_ensures(Duration::as_nanos, (&duration,), ns)
}

/// `ts` is the timestamp of a moment so far past the Unix epoch.
pub open spec fn stamped(past_epoch: Duration, ts: i64) -> bool {
    exists|ns: u128| #[trigger]
        counts_nanos(past_epoch, ns) && (ts - ns) % 0x1_0000_0000_0000_0000 == 0
}

/// Wall-clock now in nanoseconds since the Unix epoch: the low 64 bits of their
/// number, read as a signed number. A clock before the epoch counts as the
/// epoch.
pub fn now_nanos() -> (ts: i64)
    ensures
        ({
            ||| exists|past_epoch: Duration| #[trigger]
                wall_clock_read(Some(past_epoch)) && stamped(past_epoch, ts)
            ||| wall_clock_read(None) && ts == 0
        }),
{
    let now = SystemTime::now();
    let r = since_epoch(now);
    assert(call_ensures(SystemTime::now, (), now));
    assert(call_ensures(since_epoch, (now,), r));
    match r {
        Ok(duration) => {
            let ns: u128 = duration.as_nanos();
            let ts: i64 = timestamp_of(Some(ns));
            assert(wall_clock_read(Some(duration)));
            assert(counts_nanos(duration, ns));
            assert(stamped(duration, ts));
            ts
        },
        Err(_) => {
            assert(wall_clock_read(None));
            timestamp_of(None)
        },
    }
}

/// `ns` is the count of nanoseconds that the monotonic clock measured since
/// `start`.
pub open spec fn measured_since(start: Instant, ns: u128) -> bool {
    exists|elapsed: Duration|
        #[trigger] call_ensures(Instant::elapsed, (&start,), elapsed) && counts_nanos(elapsed, ns)
}

/// The nanoseconds that have passed since `start`.
pub(crate) fn nanos_since(start: &Instant) -> (ns: u128)
    ensures
        measured_since(*start, ns),
{
    let elapsed = start.elapsed();
    let ns: u128 = elapsed.as_nanos();
    assert(call_ensures(Instant::elapsed, (start,), elapsed) && counts_nanos(elapsed, ns));
    ns
}

/// The wall clock is read as it answers: past the epoch by so much, or before it.
proof fn wall_clock_is_taken_at_its_word(past_epoch: Option<Duration>)
    requires
        wall_clock_read(past_epoch),
    ensures
        past_epoch is Some ==> exists|now: SystemTime|
            {
                &&& #[trigger] call_ensures(SystemTime::now, (), now)
                &&& call_ensures(
                    since_epoch,
                    (now,),
                    Ok::<Duration, SystemTimeError>(past_epoch->0),
                )
            },
        past_epoch is None ==> exists|now: SystemTime, e: SystemTimeError|
            {
                &&& #[trigger] call_ensures(SystemTime::now, (), now)
                &&& #[trigger] call_ensures(since_epoch, (now,), Err::<Duration, SystemTimeError>(e))
            },
{
    let (now, r) = choose|now: SystemTime, r: Result<Duration, SystemTimeError>|
        {
            &&& #[trigger] call_ensures(SystemTime::now, (), now)
            &&& #[trigger] call_ensures(since_epoch, (now,), r)
            &&& past_epoch == match r {
                Ok(duration) => Some(duration),
                Err(_) => None,
            }
        };
    assert(call_ensures(SystemTime::now, (), now));
    assert(call_ensures(since_epoch, (now,), r));
    match r {
        Ok(duration) => {},
        Err(e) => {
            assert(call_ensures(since_epoch, (now,), Err::<Duration, SystemTimeError>(e)));
        },
    }
}

/// A timestamp is the nanoseconds that the time past the epoch counts, up to whole
/// turns of 64 bits.
pub proof fn timestamps_count_nanoseconds(past_epoch: Duration, ts: i64)
    requires
        stamped(past_epoch, ts),
    ensures
        exists|ns: u128| #[trigger]
            call_ensures(Duration::as_nanos, (&past_epoch,), ns) && (ts - ns)
                % 0x1_0000_0000_0000_0000 == 0,
{
    let ns = choose|ns: u128| #[trigger]
        counts_nanos(past_epoch, ns) && (ts - ns) % 0x1_0000_0000_0000_0000 == 0;
    assert(call_ensures(Duration::as_nanos, (&past_epoch,), ns));
}

/// A time that was measured is the nanoseconds of what the monotonic clock gave for
/// its very start.
pub proof fn measured_times_count_nanoseconds(start: Instant, ns: u128)
    requires
        measured_since(start, ns),
    ensures
        exists|elapsed: Duration| #[trigger]
            call_ensures(Instant::elapsed, (&start,), elapsed) && call_ensures(
                Duration::as_nanos,
                (&elapsed,),
                ns,
            ),
{
    let elapsed = choose|elapsed: Duration| #[trigger]
        call_ensures(Instant::elapsed, (&start,), elapsed) && counts_nanos(elapsed, ns);
    assert(call_ensures(Duration::as_nanos, (&elapsed,), ns));
}

} // verus!
