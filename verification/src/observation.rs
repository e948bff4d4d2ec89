use vstd::prelude::*;

use crate::model::{GapReason, TimeUncertainty, Timestamp};

verus! {

/// Internal policy, not persisted settings. The frontend normally observes every
/// 100ms; a gap over 5s is deliberately conservative.
pub const MAX_OBSERVATION_GAP_MS: u64 = 5_000;

/// A wall/monotonic discrepancy over 1s indicates clock uncertainty.
pub const MAX_CLOCK_DRIFT_MS: u64 = 1_000;

/// Runtime-only clock evidence supplied by the platform. Never serialize this
/// or reconstruct monotonic elapsed time from saved UTC timestamps.
#[derive(Debug, Clone, Copy, PartialEq, Eq, Structural)]
pub struct Observation {
    pub previous_at: Timestamp,
    pub at: Timestamp,
    pub monotonic_elapsed_ms: Option<u64>,
}

/// The distance between two clock readings.
pub open spec fn abs_diff(a: u64, b: u64) -> int {
    if a >= b {
        a - b
    } else {
        b - a
    }
}

impl Observation {
    /// Whether an observation pair proves continuously elapsed time, and if not,
    /// why it is a gap and what it says about the clock.
    pub open spec fn spec_classify(self) -> Result<u64, (GapReason, Option<TimeUncertainty>)> {
        if self.at.0 < self.previous_at.0 {
            Err((GapReason::ClockAnomaly, Some(TimeUncertainty::ClockMovedBackward)))
        } else if self.monotonic_elapsed_ms is None {
            Err((GapReason::ObservationDiscontinuity, Some(TimeUncertainty::InsufficientClockEvidence)))
        } else if abs_diff((self.at.0 - self.previous_at.0) as u64, self.monotonic_elapsed_ms->0)
            > MAX_CLOCK_DRIFT_MS {
            Err((GapReason::ClockAnomaly, Some(TimeUncertainty::ClockDiscontinuity)))
        } else if self.monotonic_elapsed_ms->0 > MAX_OBSERVATION_GAP_MS || self.at.0
            - self.previous_at.0 > MAX_OBSERVATION_GAP_MS {
            Err((GapReason::ObservationDiscontinuity, None))
        } else {
            Ok(self.monotonic_elapsed_ms->0)
        }
    }

    /// Classifies the pair: the monotonic elapsed time when it is trustworthy,
    /// otherwise the gap reason and any clock uncertainty.
    pub fn classify(self) -> (r: Result<u64, (GapReason, Option<TimeUncertainty>)>)
        ensures
            r == self.spec_classify(),
    {
        if self.at.0 < self.previous_at.0 {
            return Err((GapReason::ClockAnomaly, Some(TimeUncertainty::ClockMovedBackward)));
        }
        let wall_delta = self.at.0 - self.previous_at.0;
        let elapsed = match self.monotonic_elapsed_ms {
            Some(elapsed) => elapsed,
            None => {
                return Err(
                    (GapReason::ObservationDiscontinuity, Some(TimeUncertainty::InsufficientClockEvidence)),
                );
            },
        };
        let drift = if wall_delta >= elapsed {
            wall_delta - elapsed
        } else {
            elapsed - wall_delta
        };
        if drift > MAX_CLOCK_DRIFT_MS {
            return Err((GapReason::ClockAnomaly, Some(TimeUncertainty::ClockDiscontinuity)));
        }
        if elapsed > MAX_OBSERVATION_GAP_MS || wall_delta > MAX_OBSERVATION_GAP_MS {
            return Err((GapReason::ObservationDiscontinuity, None));
        }
        Ok(elapsed)
    }
}

} // verus!
