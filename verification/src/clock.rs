//! Runtime clock evidence: a UTC reading with a monotonic anchor. A fresh
//! clock is made on every start; its anchor is never rebuilt from saved UTC
//! times. Gap and completion policy belongs to the domain.

use vstd::prelude::*;

use std::time::{Duration, Instant, SystemTime};

use crate::model::Timestamp;
use crate::observation::Observation;

verus! {

#[verifier::external_type_specification]
#[verifier::external_body]
pub struct ExInstant(std::time::Instant);

#[verifier::external_type_specification]
#[verifier::external_body]
pub struct ExSystemTime(std::time::SystemTime);

/// How far a wall-clock reading lies past the Unix epoch, as
/// `SystemTime::duration_since(UNIX_EPOCH)` gives it: `None` before the epoch.
/// It depends on the reading alone.
pub uninterp spec fn epoch_offset(wall: SystemTime) -> Option<Duration>;

/// How far one monotonic reading lies past another, as
/// `Instant::checked_duration_since` gives it: `None` when `earlier` is later.
/// It depends on the two readings alone.
pub uninterp spec fn monotonic_distance(later: Instant, earlier: Instant) -> Option<Duration>;

/// The whole seconds of a duration, as `Duration::as_secs` gives them.
pub uninterp spec fn duration_whole_secs(d: Duration) -> u64;

/// The nanoseconds past the whole seconds, as `Duration::subsec_nanos` gives them.
pub uninterp spec fn duration_subsec(d: Duration) -> u32;

/// `SystemTime::duration_since(UNIX_EPOCH)`, with the error as `None`.
#[verifier::external_body]
fn since_unix_epoch(wall: &SystemTime) -> (r: Option<Duration>)
    ensures
        r == epoch_offset(*wall),
{
    wall.duration_since(SystemTime::UNIX_EPOCH).ok()
}

/// `Instant::checked_duration_since`: `None` when `earlier` is later.
#[verifier::external_body]
fn checked_duration_since(later: &Instant, earlier: &Instant) -> (r: Option<Duration>)
    ensures
        r == monotonic_distance(*later, *earlier),
{
    later.checked_duration_since(*earlier)
}

/// `Duration::as_secs`: the whole seconds.
#[verifier::external_body]
fn duration_secs(d: &Duration) -> (r: u64)
    ensures
        r == duration_whole_secs(*d),
{
    d.as_secs()
}

/// `Duration::subsec_nanos`: the fractional part, documented to be below one billion.
#[verifier::external_body]
fn duration_subsec_nanos(d: &Duration) -> (r: u32)
    ensures
        r == duration_subsec(*d),
        r < 1_000_000_000,
{
    d.subsec_nanos()
}

/// `Duration::from_nanos`: whole seconds and the rest of `nanos`, as the
/// documentation of `from_nanos`, `as_secs` and `subsec_nanos` gives them.
#[verifier::external_body]
fn duration_from_nanos(nanos: u64) -> (r: Duration)
    ensures
        duration_whole_secs(r) == nanos / 1_000_000_000,
        duration_subsec(r) == nanos % 1_000_000_000,
{
    Duration::from_nanos(nanos)
}

/// `Instant::now`: a reading of the monotonic clock; nothing is known of it.
#[verifier::external_body]
fn monotonic_now() -> (r: Instant) {
    Instant::now()
}

/// `SystemTime::now`: a reading of the wall clock; nothing is known of it.
#[verifier::external_body]
fn wall_now() -> (r: SystemTime) {
    SystemTime::now()
}

#[derive(Debug, Clone, Copy, PartialEq, Eq, Structural)]
pub enum TimeError {
    BeforeUnixEpoch,
    OutOfRange,
}

/// A duration as whole seconds and nanoseconds below one second.
pub open spec fn total_nanos(secs: u64, nanos: u32) -> int {
    secs * 1_000_000_000 + nanos
}

/// The largest duration a `Duration` holds, in nanoseconds.
pub open spec fn max_duration_nanos() -> int {
    total_nanos(u64::MAX, 999_999_999)
}

/// Whole milliseconds and the nanoseconds left over, or `None` when the
/// milliseconds do not fit in a `u64`.
pub open spec fn split_nanos(total: int) -> Option<(u64, u32)> {
    if total / 1_000_000 > u64::MAX {
        None
    } else {
        Some(((total / 1_000_000) as u64, (total % 1_000_000) as u32))
    }
}

/// A UTC reading as a timestamp: `None` before the epoch, otherwise whole milliseconds.
pub open spec fn reading_timestamp(since_epoch: Option<(u64, u32)>) -> Result<Timestamp, TimeError> {
    match since_epoch {
        None => Err(TimeError::BeforeUnixEpoch),
        Some(parts) => if total_nanos(parts.0, parts.1) / 1_000_000 > u64::MAX {
            Err(TimeError::OutOfRange)
        } else {
            Ok(Timestamp((total_nanos(parts.0, parts.1) / 1_000_000) as u64))
        },
    }
}

/// A duration as whole seconds and the nanoseconds past them.
pub open spec fn parts_of(d: Duration) -> (u64, u32) {
    (duration_whole_secs(d), duration_subsec(d))
}

/// The parts of a duration, if there is one.
pub open spec fn optional_parts(d: Option<Duration>) -> Option<(u64, u32)> {
    match d {
        Some(d) => Some(parts_of(d)),
        None => None,
    }
}

fn duration_parts(d: &Duration) -> (r: (u64, u32))
    ensures
        r == parts_of(*d),
        r.1 < 1_000_000_000,
{
    (duration_secs(d), duration_subsec_nanos(d))
}

/// Splits a duration into whole milliseconds and the remainder. Overflow is
/// missing evidence, never a saturated or wrapped value.
pub fn split_duration_parts(secs: u64, nanos: u32) -> (r: Option<(u64, u32)>)
    requires
        nanos < 1_000_000_000,
    ensures
        r == split_nanos(total_nanos(secs, nanos)),
{
    let total: u128 = (secs as u128) * 1_000_000_000 + (nanos as u128);
    let millis = total / 1_000_000;
    if millis > u64::MAX as u128 {
        None
    } else {
        Some((millis as u64, (total % 1_000_000) as u32))
    }
}

/// `split_duration_parts` on a `Duration`, with the remainder as a `Duration`.
pub fn split_milliseconds(duration: Duration) -> (r: Option<(u64, Duration)>)
    ensures
        match split_nanos(total_nanos(parts_of(duration).0, parts_of(duration).1)) {
            None => r is None,
            Some(split) => r matches Some(out) && out.0 == split.0 && parts_of(out.1) == (
                0u64,
                split.1,
            ),
        },
{
    let (secs, nanos) = duration_parts(&duration);
    match split_duration_parts(secs, nanos) {
        Some((millis, remainder)) => Some((millis, duration_from_nanos(remainder as u64))),
        None => None,
    }
}

/// A UTC reading, given as its distance past the epoch, as a timestamp.
pub fn timestamp_from_parts(since_epoch: Option<(u64, u32)>) -> (r: Result<Timestamp, TimeError>)
    requires
        since_epoch matches Some(p) ==> p.1 < 1_000_000_000,
    ensures
        r == reading_timestamp(since_epoch),
{
    match since_epoch {
        None => Err(TimeError::BeforeUnixEpoch),
        Some((secs, nanos)) => {
            let total: u128 = (secs as u128) * 1_000_000_000 + (nanos as u128);
            let millis = total / 1_000_000;
            if millis > u64::MAX as u128 {
                Err(TimeError::OutOfRange)
            } else {
                Ok(Timestamp(millis as u64))
            }
        },
    }
}

fn timestamp_at(wall: &SystemTime) -> (r: Result<Timestamp, TimeError>)
    ensures
        r == reading_timestamp(optional_parts(epoch_offset(*wall))),
{
    let since_epoch = match since_unix_epoch(wall) {
        Some(d) => Some(duration_parts(&d)),
        None => None,
    };
    timestamp_from_parts(since_epoch)
}

/// The last UTC boundary, the monotonic anchor if continuity holds, and the
/// nanoseconds observed but not yet credited.
pub struct ClockModel {
    pub previous_at: Timestamp,
    pub anchor: Option<Instant>,
    pub fractional_nanos: u32,
}

/// Runtime-only clock evidence.
#[derive(Debug)]
pub struct ObservationClock {
    previous_at: Timestamp,
    previous_monotonic: Option<Instant>,
    fractional_nanos: u32,
}

impl View for ObservationClock {
    type V = ClockModel;

    closed spec fn view(&self) -> ClockModel {
        ClockModel {
            previous_at: self.previous_at,
            anchor: self.previous_monotonic,
            fractional_nanos: self.fractional_nanos,
        }
    }
}

/// The elapsed evidence of one sample: the monotonic distance since the
/// anchor plus the uncredited fraction, if both exist and fit.
pub open spec fn elapsed_evidence(since_anchor: Option<(u64, u32)>, fractional_nanos: u32) -> Option<
    (u64, u32),
> {
    match since_anchor {
        None => None,
        Some(parts) => {
            let total = total_nanos(parts.0, parts.1) + fractional_nanos;
            if total > max_duration_nanos() {
                None
            } else {
                split_nanos(total)
            }
        },
    }
}

/// A sample's elapsed evidence neither loses nor invents time: its whole
/// milliseconds and the nanoseconds it carries forward add up exactly to the
/// measured distance plus the nanoseconds carried in, with less than one
/// millisecond carried forward.
pub proof fn lemma_evidence_conserves_time(since_anchor: (u64, u32), fractional_nanos: u32)
    ensures
        elapsed_evidence(Some(since_anchor), fractional_nanos) matches Some(e) ==> {
            &&& e.0 * 1_000_000 + e.1 == since_anchor.0 * 1_000_000_000 + since_anchor.1
                + fractional_nanos
            &&& e.1 < 1_000_000
        },
{
}

/// A UTC reading after the epoch becomes the whole milliseconds it holds,
/// rounded down, whenever they fit in a timestamp.
pub proof fn lemma_reading_rounds_down_to_milliseconds(secs: u64, nanos: u32)
    ensures
        reading_timestamp(Some((secs, nanos))) matches Ok(t) ==> t.0 * 1_000_000 <= secs
            * 1_000_000_000 + nanos < t.0 * 1_000_000 + 1_000_000,
        reading_timestamp(None) == Err::<Timestamp, TimeError>(TimeError::BeforeUnixEpoch),
{
}

/// What one sample does, given the UTC distance past the epoch and the
/// monotonic distance past the anchor: the reading becomes the next boundary
/// and anchor, and the elapsed evidence is the distance plus the uncredited
/// fraction when an anchor existed and it fits.
pub open spec fn sample_result(
    old: ClockModel,
    new: ClockModel,
    r: Result<Observation, TimeError>,
    since_epoch: Option<(u64, u32)>,
    since_anchor: Option<(u64, u32)>,
    monotonic: Instant,
) -> bool {
    match reading_timestamp(since_epoch) {
        Err(e) => r == Err::<Observation, TimeError>(e) && new.previous_at == old.previous_at
            && new.anchor is None && new.fractional_nanos == 0,
        Ok(at) => {
            let evidence = if old.anchor is Some {
                elapsed_evidence(since_anchor, old.fractional_nanos)
            } else {
                None
            };
            &&& r == Ok::<Observation, TimeError>(
                Observation {
                    previous_at: old.previous_at,
                    at,
                    monotonic_elapsed_ms: match evidence {
                        Some(e) => Some(e.0),
                        None => None,
                    },
                },
            )
            &&& new.previous_at == at
            &&& new.anchor == Some(monotonic)
            &&& new.fractional_nanos == match evidence {
                Some(e) => e.1,
                None => 0,
            }
        },
    }
}

/// What a sample of this reading does: its UTC distance past the epoch, and
/// its monotonic distance past the old anchor.
pub open spec fn sampled(
    old: ClockModel,
    new: ClockModel,
    r: Result<Observation, TimeError>,
    reading: (SystemTime, Instant),
) -> bool {
    sample_result(
        old,
        new,
        r,
        optional_parts(epoch_offset(reading.0)),
        match old.anchor {
            Some(anchor) => optional_parts(monotonic_distance(reading.1, anchor)),
            None => None,
        },
        reading.1,
    )
}

/// What a clock anchored at this reading is: the reading's UTC timestamp, if
/// representable, with the monotonic reading as anchor and no fraction.
pub open spec fn opened(reading: (SystemTime, Instant), r: Result<ClockModel, TimeError>) -> bool {
    match reading_timestamp(optional_parts(epoch_offset(reading.0))) {
        Ok(at) => r == Ok::<ClockModel, TimeError>(
            ClockModel { previous_at: at, anchor: Some(reading.1), fractional_nanos: 0 },
        ),
        Err(e) => r == Err::<ClockModel, TimeError>(e),
    }
}

/// A clock result by its model.
pub open spec fn clock_model(r: Result<ObservationClock, TimeError>) -> Result<ClockModel, TimeError> {
    match r {
        Ok(c) => Ok(c@),
        Err(e) => Err(e),
    }
}

impl ObservationClock {
    #[verifier::type_invariant]
    spec fn fraction_below_a_millisecond(self) -> bool {
        self.fractional_nanos < 1_000_000
    }

    /// Samples the clocks to establish a fresh runtime boundary: the UTC
    /// reading, if representable, with a fresh monotonic anchor.
    pub fn new() -> (r: Result<Self, TimeError>)
        ensures
            exists|reading: (SystemTime, Instant)| #[trigger] opened(reading, clock_model(r)),
    {
        let monotonic = monotonic_now();
        let wall = wall_now();
        Self::from_reading((wall, monotonic))
    }

    /// A clock anchored at this reading; the UTC reading must be representable.
    pub fn from_reading(reading: (SystemTime, Instant)) -> (r: Result<Self, TimeError>)
        ensures
            opened(reading, clock_model(r)),
    {
        let (wall, monotonic) = reading;
        match timestamp_at(&wall) {
            Ok(at) => Ok(
                ObservationClock {
                    previous_at: at,
                    previous_monotonic: Some(monotonic),
                    fractional_nanos: 0,
                },
            ),
            Err(e) => Err(e),
        }
    }

    /// A clock at a known UTC boundary with this anchor.
    pub fn from_parts(since_epoch: Option<(u64, u32)>, monotonic: Instant) -> (r: Result<Self, TimeError>)
        requires
            since_epoch matches Some(p) ==> p.1 < 1_000_000_000,
        ensures
            match r {
                Ok(clock) => reading_timestamp(since_epoch) == Ok::<Timestamp, TimeError>(
                    clock@.previous_at,
                ) && clock@.anchor == Some(monotonic) && clock@.fractional_nanos == 0,
                Err(e) => reading_timestamp(since_epoch) == Err::<Timestamp, TimeError>(e),
            },
    {
        match timestamp_from_parts(since_epoch) {
            Ok(at) => Ok(
                ObservationClock { previous_at: at, previous_monotonic: Some(monotonic), fractional_nanos: 0 },
            ),
            Err(e) => Err(e),
        }
    }

    /// UTC time of the last successful sample.
    pub fn at(&self) -> (r: Timestamp)
        ensures
            r == self@.previous_at,
    {
        self.previous_at
    }

    /// Drops continuity evidence while retaining the last UTC boundary.
    pub fn break_continuity(&mut self)
        ensures
            final(self)@.previous_at == old(self)@.previous_at,
            final(self)@.anchor is None,
            final(self)@.fractional_nanos == 0,
    {
        self.fractional_nanos = 0;
        self.previous_monotonic = None;
    }

    /// Samples UTC and monotonic time without applying domain or storage policy.
    pub fn observe(&mut self) -> (r: Result<Observation, TimeError>)
        ensures
            exists|reading: (SystemTime, Instant)| #[trigger] sampled(
                old(self)@,
                final(self)@,
                r,
                reading,
            ),
    {
        let monotonic = monotonic_now();
        let wall = wall_now();
        self.observe_reading((wall, monotonic))
    }

    /// Applies one sample: the UTC reading becomes the next boundary and the
    /// monotonic reading the next anchor. Without an anchor, or when the
    /// monotonic clock went backward, there is no elapsed evidence.
    pub fn observe_reading(&mut self, reading: (SystemTime, Instant)) -> (r: Result<
        Observation,
        TimeError,
    >)
        ensures
            sampled(old(self)@, final(self)@, r, reading),
    {
        let (wall, monotonic) = reading;
        let since_epoch = match since_unix_epoch(&wall) {
            Some(d) => Some(duration_parts(&d)),
            None => None,
        };
        let since_anchor = match &self.previous_monotonic {
            Some(previous) => match checked_duration_since(&monotonic, previous) {
                Some(d) => Some(duration_parts(&d)),
                None => None,
            },
            None => None,
        };
        self.observe_parts(since_epoch, since_anchor, monotonic)
    }

    /// The sample, given as the UTC distance past the epoch and the monotonic
    /// distance past the anchor: exactly what `observe_reading` makes of them.
    pub fn observe_parts(
        &mut self,
        since_epoch: Option<(u64, u32)>,
        since_anchor: Option<(u64, u32)>,
        monotonic: Instant,
    ) -> (r: Result<Observation, TimeError>)
        requires
            since_epoch matches Some(p) ==> p.1 < 1_000_000_000,
            since_anchor matches Some(p) ==> p.1 < 1_000_000_000,
        ensures
            sample_result(old(self)@, final(self)@, r, since_epoch, since_anchor, monotonic),
    {
        let at = match timestamp_from_parts(since_epoch) {
            Ok(at) => at,
            Err(e) => {
                self.break_continuity();
                return Err(e);
            },
        };
        proof {
            use_type_invariant(&*self);
        }
        let evidence = match (&self.previous_monotonic, since_anchor) {
            (Some(_), Some((secs, nanos))) => {
                let total: u128 = (secs as u128) * 1_000_000_000 + (nanos as u128)
                    + (self.fractional_nanos as u128);
                let max: u128 = (u64::MAX as u128) * 1_000_000_000 + 999_999_999;
                if total > max {
                    None
                } else {
                    let millis = total / 1_000_000;
                    if millis > u64::MAX as u128 {
                        None
                    } else {
                        Some((millis as u64, (total % 1_000_000) as u32))
                    }
                }
            },
            _ => None,
        };
        let observation = Observation {
            previous_at: self.previous_at,
            at,
            monotonic_elapsed_ms: match evidence {
                Some((millis, _)) => Some(millis),
                None => None,
            },
        };
        self.previous_at = at;
        self.previous_monotonic = Some(monotonic);
        self.fractional_nanos = match evidence {
            Some((_, remainder)) => remainder,
            None => 0,
        };
        Ok(observation)
    }
}

} // verus!
