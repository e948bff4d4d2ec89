use std::time::Instant;

use pomodoro::clock::{split_duration_parts, timestamp_from_parts, ObservationClock, TimeError};
use pomodoro::{Observation, Timestamp};

#[test]
fn durations_split_into_milliseconds_and_a_remainder() {
    assert_eq!(split_duration_parts(0, 0), Some((0, 0)));
    assert_eq!(split_duration_parts(1, 600_000), Some((1_000, 600_000)));
    assert_eq!(split_duration_parts(0, 999_999), Some((0, 999_999)));
    assert_eq!(
        split_duration_parts(18_446_744_073_709_551, 615_000_000),
        Some((u64::MAX, 0))
    );
    assert_eq!(split_duration_parts(18_446_744_073_709_551, 616_000_000), None);
    assert_eq!(split_duration_parts(u64::MAX, 999_999_999), None);
}

#[test]
fn utc_readings_become_whole_milliseconds_or_a_time_error() {
    assert_eq!(timestamp_from_parts(None), Err(TimeError::BeforeUnixEpoch));
    assert_eq!(timestamp_from_parts(Some((1, 999_999))), Ok(Timestamp(1_000)));
    assert_eq!(timestamp_from_parts(Some((1, 1_000_000))), Ok(Timestamp(1_001)));
    assert_eq!(timestamp_from_parts(Some((u64::MAX, 0))), Err(TimeError::OutOfRange));
}

#[test]
fn fractions_carry_between_continuous_samples_and_vanish_with_continuity() {
    let anchor = Instant::now();
    let mut clock = ObservationClock::from_parts(Some((1, 0)), anchor).unwrap();
    let first = clock.observe_parts(Some((1, 500_000_000)), Some((0, 400_600_000)), anchor).unwrap();
    assert_eq!(
        first,
        Observation {
            previous_at: Timestamp(1_000),
            at: Timestamp(1_500),
            monotonic_elapsed_ms: Some(400),
        }
    );
    let second = clock.observe_parts(Some((2, 0)), Some((0, 499_500_000)), anchor).unwrap();
    assert_eq!(second.monotonic_elapsed_ms, Some(500));
    clock.break_continuity();
    let third = clock.observe_parts(Some((2, 100_000_000)), Some((0, 100_000_000)), anchor).unwrap();
    assert_eq!(third.monotonic_elapsed_ms, None);
    assert_eq!(third.previous_at, Timestamp(2_000));
    assert_eq!(
        clock.observe_parts(None, Some((0, 1)), anchor),
        Err(TimeError::BeforeUnixEpoch)
    );
    assert_eq!(clock.at(), Timestamp(2_100));
}
