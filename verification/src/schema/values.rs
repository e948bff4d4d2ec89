//! Validated scalar representations for the version-1 document.

use vstd::prelude::*;
use vstd::string::{StrSliceExecFns, StringSliceAdditionalSpecFns};
use vstd::utf8::encode_utf8;

use crate::config::{ConfigError, TimerConfig};
use crate::model::{
    CurrentTask, GapReason, InterruptionId, InterruptionKind, SessionId, SessionKind,
    SessionOutcome, TimeUncertainty, Timestamp,
};

verus! {

/// The last millisecond of the year 9999.
pub const MAX_TIMESTAMP_MS: u64 = 253_402_300_799_999;

pub const TIMESTAMP_RANGE_ERROR: &'static str = "V1 timestamp must be between Unix epoch and year 9999";

pub const TIMESTAMP_FORMAT_ERROR: &'static str = "V1 timestamp must use YYYY-MM-DDTHH:MM:SS.sssZ without leap seconds";

pub const SESSION_ID_ERROR: &'static str = "session ID must be greater than zero";

pub const INTERRUPTION_ID_ERROR: &'static str = "interruption ID must be greater than zero";

pub const CURRENT_TASK_ERROR: &'static str = "current task must be nonempty and already trimmed";

#[verifier::external_type_specification]
#[verifier::external_body]
pub struct ExParseError(chrono::ParseError);

/// The text `chrono` writes for the UTC instant `millis` milliseconds after the
/// Unix epoch, with millisecond precision and a `Z` suffix.
pub uninterp spec fn rfc3339_text(millis: int) -> Seq<char>;

/// The instant `chrono` reads from RFC 3339 text: whole Unix milliseconds and
/// the nanoseconds past the last whole second (a leap second reads as
/// 1_000_000_000 or more), or `None` where it rejects the text.
pub uninterp spec fn rfc3339_reading(text: Seq<char>) -> Option<(i64, u32)>;

/// `DateTime::<Utc>::from_timestamp_millis` followed by `to_rfc3339_opts` with
/// millisecond precision and `Z`: the text is named `rfc3339_text`. Inside the
/// range `from_timestamp_millis` always succeeds, so the call cannot fail; the
/// text is the 24 ASCII bytes `YYYY-MM-DDTHH:MM:SS.sssZ` (years 1970 to 9999),
/// and `parse_from_rfc3339` reads it back as the same instant: these millis,
/// with the millisecond fraction as nanoseconds past the second.
#[verifier::external_body]
fn format_rfc3339_millis(millis: i64) -> (r: String)
    requires
        0 <= millis <= MAX_TIMESTAMP_MS,
    ensures
        r@ == rfc3339_text(millis as int),
        encode_utf8(r@).len() == 24,
        encode_utf8(r@).last() == 90u8,
        rfc3339_reading(r@) == Some((millis, ((millis % 1000) * 1_000_000) as u32)),
{
    chrono::DateTime::<chrono::Utc>::from_timestamp_millis(millis).expect(
        "a V1 timestamp is within chrono's range",
    ).to_rfc3339_opts(chrono::SecondsFormat::Millis, true)
}

/// `DateTime::parse_from_rfc3339`, read as Unix milliseconds
/// (`timestamp_millis`) and sub-second nanoseconds (`timestamp_subsec_nanos`).
/// What it accepts is named `rfc3339_reading`; the error is chrono's own.
#[verifier::external_body]
fn parse_rfc3339(text: &str) -> (r: Result<(i64, u32), chrono::ParseError>)
    ensures
        match r {
            Ok(reading) => rfc3339_reading(text@) == Some(reading),
            Err(_) => rfc3339_reading(text@) is None,
        },
{
    chrono::DateTime::parse_from_rfc3339(text).map(
        |parsed| (parsed.timestamp_millis(), parsed.timestamp_subsec_nanos()),
    )
}

/// Whether two texts are the same characters.
pub fn same_text(a: &str, b: &str) -> (r: bool)
    ensures
        r == (a@ == b@),
{
    let n = a.unicode_len();
    if n != b.unicode_len() {
        return false;
    }
    let mut i: usize = 0;
    while i < n
        invariant
            n == a@.len(),
            n == b@.len(),
            i <= n,
            forall|k: int| 0 <= k < i ==> a@[k] == b@[k],
        decreases n - i,
    {
        if a.get_char(i) != b.get_char(i) {
            return false;
        }
        i += 1;
    }
    assert(a@ =~= b@);
    true
}

/// Why timestamp text is rejected.
#[derive(Debug)]
pub enum TimestampTextError {
    /// Not the canonical `YYYY-MM-DDTHH:MM:SS.sssZ` form, or a leap second.
    Format,
    /// Before the Unix epoch or after the year 9999.
    Range,
    /// Not RFC 3339 at all, as chrono reports it.
    Parse(chrono::ParseError),
}

/// What `TimestampV1::from_text` makes of a text, by the value chrono reads.
pub open spec fn timestamp_reading(text: Seq<char>) -> Result<u64, ()> {
    let bytes = encode_utf8(text);
    if bytes.len() != 24 || bytes.last() != 90u8 {
        Err(())
    } else {
        match rfc3339_reading(text) {
            None => Err(()),
            Some(reading) => if reading.1 >= 1_000_000_000 || reading.0 < 0 || reading.0
                > MAX_TIMESTAMP_MS || rfc3339_text(reading.0 as int) != text {
                Err(())
            } else {
                Ok(reading.0 as u64)
            },
        }
    }
}

/// A timestamp that the version-1 document can represent: from the Unix epoch
/// through the end of the year 9999.
#[derive(Debug, Clone, Copy, PartialEq, Eq)]
pub struct TimestampV1(Timestamp);

impl View for TimestampV1 {
    type V = Timestamp;

    closed spec fn view(&self) -> Timestamp {
        self.0
    }
}

impl TimestampV1 {
    #[verifier::type_invariant]
    spec fn in_range(self) -> bool {
        self.0.0 <= MAX_TIMESTAMP_MS
    }

    /// Accepts a domain timestamp inside the representable range.
    pub fn new(value: Timestamp) -> (r: Result<Self, &'static str>)
        ensures
            match r {
                Ok(v) => value.0 <= MAX_TIMESTAMP_MS && v@ == value,
                Err(e) => value.0 > MAX_TIMESTAMP_MS && e == TIMESTAMP_RANGE_ERROR,
            },
    {
        if value.0 > MAX_TIMESTAMP_MS {
            Err(TIMESTAMP_RANGE_ERROR)
        } else {
            Ok(TimestampV1(value))
        }
    }

    pub fn value(&self) -> (r: Timestamp)
        ensures
            r == self@,
            r.0 <= MAX_TIMESTAMP_MS,
    {
        proof {
            use_type_invariant(self);
        }
        self.0
    }

    /// The canonical text, such as `1970-01-01T00:00:00.000Z`.
    pub fn to_text(&self) -> (r: String)
        ensures
            r@ == rfc3339_text(self@.0 as int),
            timestamp_reading(r@) == Ok::<u64, ()>(self@.0),
    {
        proof {
            use_type_invariant(self);
        }
        format_rfc3339_millis(self.0.0 as i64)
    }

    /// Reads canonical text: 24 bytes ending in `Z`, no leap second, inside the
    /// range, and written back exactly as given.
    pub fn from_text(text: &str) -> (r: Result<Self, TimestampTextError>)
        ensures
            match r {
                Ok(v) => timestamp_reading(text@) == Ok::<u64, ()>(v@.0),
                Err(_) => timestamp_reading(text@) is Err,
            },
    {
        let bytes = text.as_bytes();
        if bytes.len() != 24 || bytes[23] != 90u8 {
            return Err(TimestampTextError::Format);
        }
        let (millis, nanos) = match parse_rfc3339(text) {
            Ok(reading) => reading,
            Err(e) => {
                return Err(TimestampTextError::Parse(e));
            },
        };
        if nanos >= 1_000_000_000 {
            return Err(TimestampTextError::Format);
        }
        if millis < 0 || millis > MAX_TIMESTAMP_MS as i64 {
            return Err(TimestampTextError::Range);
        }
        let value = TimestampV1(Timestamp(millis as u64));
        let written = value.to_text();
        if !same_text(written.as_str(), text) {
            return Err(TimestampTextError::Format);
        }
        Ok(value)
    }
}

/// A session ID that the document can hold: never zero.
#[derive(Debug, Clone, Copy, PartialEq, Eq)]
pub struct SessionIdV1(u64);

impl View for SessionIdV1 {
    type V = SessionId;

    closed spec fn view(&self) -> SessionId {
        SessionId(self.0)
    }
}

impl SessionIdV1 {
    #[verifier::type_invariant]
    spec fn nonzero(self) -> bool {
        self.0 > 0
    }

    pub fn new(value: SessionId) -> (r: Result<Self, &'static str>)
        ensures
            match r {
                Ok(v) => value.0 > 0 && v@ == value,
                Err(e) => value.0 == 0 && e == SESSION_ID_ERROR,
            },
    {
        if value.0 == 0 {
            Err(SESSION_ID_ERROR)
        } else {
            Ok(SessionIdV1(value.0))
        }
    }

    pub fn value(&self) -> (r: SessionId)
        ensures
            r == self@,
            r.0 > 0,
    {
        proof {
            use_type_invariant(self);
        }
        SessionId(self.0)
    }
}

/// An interruption ID that the document can hold: never zero.
#[derive(Debug, Clone, Copy, PartialEq, Eq)]
pub struct InterruptionIdV1(u64);

impl View for InterruptionIdV1 {
    type V = InterruptionId;

    closed spec fn view(&self) -> InterruptionId {
        InterruptionId(self.0)
    }
}

impl InterruptionIdV1 {
    #[verifier::type_invariant]
    spec fn nonzero(self) -> bool {
        self.0 > 0
    }

    pub fn new(value: InterruptionId) -> (r: Result<Self, &'static str>)
        ensures
            match r {
                Ok(v) => value.0 > 0 && v@ == value,
                Err(e) => value.0 == 0 && e == INTERRUPTION_ID_ERROR,
            },
    {
        if value.0 == 0 {
            Err(INTERRUPTION_ID_ERROR)
        } else {
            Ok(InterruptionIdV1(value.0))
        }
    }

    pub fn value(&self) -> (r: InterruptionId)
        ensures
            r == self@,
            r.0 > 0,
    {
        proof {
            use_type_invariant(self);
        }
        InterruptionId(self.0)
    }
}

/// Settings that the document can hold: a valid configuration.
#[derive(Debug, Clone, Copy, PartialEq, Eq)]
pub struct SettingsV1(TimerConfig);

impl View for SettingsV1 {
    type V = TimerConfig;

    closed spec fn view(&self) -> TimerConfig {
        self.0
    }
}

impl SettingsV1 {
    #[verifier::type_invariant]
    spec fn valid(self) -> bool {
        self.0.is_valid()
    }

    /// Accepts a configuration that validates.
    pub fn new(value: TimerConfig) -> (r: Result<Self, ConfigError>)
        ensures
            match r {
                Ok(v) => value.validation() is Ok && v@ == value,
                Err(e) => value.validation() == Err::<(), ConfigError>(e),
            },
    {
        proof {
            value.lemma_validation_ok_iff_valid();
        }
        match value.validate() {
            Ok(()) => Ok(SettingsV1(value)),
            Err(e) => Err(e),
        }
    }

    /// Reads the four stored fields through the configuration's constructor.
    pub fn from_fields(
        focus_seconds: u64,
        short_break_seconds: u64,
        long_break_seconds: u64,
        focuses_before_long_break: u32,
    ) -> (r: Result<Self, ConfigError>)
        ensures
            ({
                let config = TimerConfig::with_values(
                    focus_seconds,
                    short_break_seconds,
                    long_break_seconds,
                    focuses_before_long_break,
                );
                match r {
                    Ok(v) => config.validation() is Ok && v@ == config,
                    Err(e) => config.validation() == Err::<(), ConfigError>(e),
                }
            }),
    {
        let config = TimerConfig::new(
            focus_seconds,
            short_break_seconds,
            long_break_seconds,
            focuses_before_long_break,
        );
        match config {
            Ok(config) => SettingsV1::new(config),
            Err(e) => Err(e),
        }
    }

    pub fn value(&self) -> (r: TimerConfig)
        ensures
            r == self@,
            r.is_valid(),
    {
        proof {
            use_type_invariant(self);
        }
        self.0
    }
}

/// Reads a stored task: it must already be in the form `CurrentTask::parse`
/// produces, nonempty and trimmed, on one line.
pub fn task_from_text(text: &str) -> (r: Result<CurrentTask, &'static str>)
    ensures
        match r {
            Ok(task) => crate::model::parsed_task(text@) == Ok::<Option<Seq<char>>, crate::model::DomainError>(
                Some(text@),
            ) && task@ == text@,
            Err(e) => crate::model::parsed_task(text@) != Ok::<Option<Seq<char>>, crate::model::DomainError>(
                Some(text@),
            ) && e == CURRENT_TASK_ERROR,
        },
{
    match CurrentTask::parse(text) {
        Ok(Some(task)) => {
            if same_text(task.as_str(), text) {
                Ok(task)
            } else {
                Err(CURRENT_TASK_ERROR)
            }
        },
        _ => Err(CURRENT_TASK_ERROR),
    }
}


/// The document's name for each `SessionKind`.
pub open spec fn session_kind_name(value: SessionKind) -> Seq<char> {
    match value {
        SessionKind::Focus => "focus"@,
        SessionKind::QuickStart => "quick_start"@,
        SessionKind::ShortBreak => "short_break"@,
        SessionKind::LongBreak => "long_break"@,
    }
}

/// The `SessionKind` a document name stands for, if any.
pub open spec fn session_kind_named(text: Seq<char>) -> Option<SessionKind> {
    if text == "focus"@ {
        Some(SessionKind::Focus)
    } else if text == "quick_start"@ {
        Some(SessionKind::QuickStart)
    } else if text == "short_break"@ {
        Some(SessionKind::ShortBreak)
    } else if text == "long_break"@ {
        Some(SessionKind::LongBreak)
    } else {
        None
    }
}

pub fn session_kind_text(value: SessionKind) -> (r: &'static str)
    ensures
        r@ == session_kind_name(value),
{
    match value {
        SessionKind::Focus => "focus",
        SessionKind::QuickStart => "quick_start",
        SessionKind::ShortBreak => "short_break",
        SessionKind::LongBreak => "long_break",
    }
}

/// Reads a document name; any other text, including other letter case, is rejected.
pub fn session_kind_from_text(text: &str) -> (r: Option<SessionKind>)
    ensures
        r == session_kind_named(text@),
{
    if same_text(text, "focus") {
        return Some(SessionKind::Focus);
    }
    if same_text(text, "quick_start") {
        return Some(SessionKind::QuickStart);
    }
    if same_text(text, "short_break") {
        return Some(SessionKind::ShortBreak);
    }
    if same_text(text, "long_break") {
        return Some(SessionKind::LongBreak);
    }
    None
}

/// Each `SessionKind` reads back from its name.
pub proof fn lemma_session_kind_names_read_back(value: SessionKind)
    ensures
        session_kind_named(session_kind_name(value)) == Some(value),
{
    reveal_strlit("focus");
    reveal_strlit("quick_start");
    reveal_strlit("short_break");
    reveal_strlit("long_break");
    assert("focus"@.len() != "quick_start"@.len());
    assert("focus"@.len() != "short_break"@.len());
    assert("focus"@.len() != "long_break"@.len());
    assert("quick_start"@[0] != "short_break"@[0]);
    assert("quick_start"@.len() != "long_break"@.len());
    assert("short_break"@.len() != "long_break"@.len());
}

/// The document's name for each `SessionOutcome`.
pub open spec fn session_outcome_name(value: SessionOutcome) -> Seq<char> {
    match value {
        SessionOutcome::Completed => "completed"@,
        SessionOutcome::Cancelled => "cancelled"@,
        SessionOutcome::Reset => "reset"@,
        SessionOutcome::Skipped => "skipped"@,
    }
}

/// The `SessionOutcome` a document name stands for, if any.
pub open spec fn session_outcome_named(text: Seq<char>) -> Option<SessionOutcome> {
    if text == "completed"@ {
        Some(SessionOutcome::Completed)
    } else if text == "cancelled"@ {
        Some(SessionOutcome::Cancelled)
    } else if text == "reset"@ {
        Some(SessionOutcome::Reset)
    } else if text == "skipped"@ {
        Some(SessionOutcome::Skipped)
    } else {
        None
    }
}

pub fn session_outcome_text(value: SessionOutcome) -> (r: &'static str)
    ensures
        r@ == session_outcome_name(value),
{
    match value {
        SessionOutcome::Completed => "completed",
        SessionOutcome::Cancelled => "cancelled",
        SessionOutcome::Reset => "reset",
        SessionOutcome::Skipped => "skipped",
    }
}

/// Reads a document name; any other text, including other letter case, is rejected.
pub fn session_outcome_from_text(text: &str) -> (r: Option<SessionOutcome>)
    ensures
        r == session_outcome_named(text@),
{
    if same_text(text, "completed") {
        return Some(SessionOutcome::Completed);
    }
    if same_text(text, "cancelled") {
        return Some(SessionOutcome::Cancelled);
    }
    if same_text(text, "reset") {
        return Some(SessionOutcome::Reset);
    }
    if same_text(text, "skipped") {
        return Some(SessionOutcome::Skipped);
    }
    None
}

/// Each `SessionOutcome` reads back from its name.
pub proof fn lemma_session_outcome_names_read_back(value: SessionOutcome)
    ensures
        session_outcome_named(session_outcome_name(value)) == Some(value),
{
    reveal_strlit("completed");
    reveal_strlit("cancelled");
    reveal_strlit("reset");
    reveal_strlit("skipped");
    assert("completed"@[1] != "cancelled"@[1]);
    assert("completed"@.len() != "reset"@.len());
    assert("completed"@.len() != "skipped"@.len());
    assert("cancelled"@.len() != "reset"@.len());
    assert("cancelled"@.len() != "skipped"@.len());
    assert("reset"@.len() != "skipped"@.len());
}

/// The document's name for each `InterruptionKind`.
pub open spec fn interruption_kind_name(value: InterruptionKind) -> Seq<char> {
    match value {
        InterruptionKind::Pause => "pause"@,
        InterruptionKind::Distraction => "distraction"@,
        InterruptionKind::AppExit => "app_exit"@,
        InterruptionKind::ObservationGap => "observation_gap"@,
    }
}

/// The `InterruptionKind` a document name stands for, if any.
pub open spec fn interruption_kind_named(text: Seq<char>) -> Option<InterruptionKind> {
    if text == "pause"@ {
        Some(InterruptionKind::Pause)
    } else if text == "distraction"@ {
        Some(InterruptionKind::Distraction)
    } else if text == "app_exit"@ {
        Some(InterruptionKind::AppExit)
    } else if text == "observation_gap"@ {
        Some(InterruptionKind::ObservationGap)
    } else {
        None
    }
}

pub fn interruption_kind_text(value: InterruptionKind) -> (r: &'static str)
    ensures
        r@ == interruption_kind_name(value),
{
    match value {
        InterruptionKind::Pause => "pause",
        InterruptionKind::Distraction => "distraction",
        InterruptionKind::AppExit => "app_exit",
        InterruptionKind::ObservationGap => "observation_gap",
    }
}

/// Reads a document name; any other text, including other letter case, is rejected.
pub fn interruption_kind_from_text(text: &str) -> (r: Option<InterruptionKind>)
    ensures
        r == interruption_kind_named(text@),
{
    if same_text(text, "pause") {
        return Some(InterruptionKind::Pause);
    }
    if same_text(text, "distraction") {
        return Some(InterruptionKind::Distraction);
    }
    if same_text(text, "app_exit") {
        return Some(InterruptionKind::AppExit);
    }
    if same_text(text, "observation_gap") {
        return Some(InterruptionKind::ObservationGap);
    }
    None
}

/// Each `InterruptionKind` reads back from its name.
pub proof fn lemma_interruption_kind_names_read_back(value: InterruptionKind)
    ensures
        interruption_kind_named(interruption_kind_name(value)) == Some(value),
{
    reveal_strlit("pause");
    reveal_strlit("distraction");
    reveal_strlit("app_exit");
    reveal_strlit("observation_gap");
    assert("pause"@.len() != "distraction"@.len());
    assert("pause"@.len() != "app_exit"@.len());
    assert("pause"@.len() != "observation_gap"@.len());
    assert("distraction"@.len() != "app_exit"@.len());
    assert("distraction"@.len() != "observation_gap"@.len());
    assert("app_exit"@.len() != "observation_gap"@.len());
}

/// The document's name for each `TimeUncertainty`.
pub open spec fn time_uncertainty_name(value: TimeUncertainty) -> Seq<char> {
    match value {
        TimeUncertainty::ClockMovedBackward => "clock_moved_backward"@,
        TimeUncertainty::ClockDiscontinuity => "clock_discontinuity"@,
        TimeUncertainty::InsufficientClockEvidence => "insufficient_clock_evidence"@,
    }
}

/// The `TimeUncertainty` a document name stands for, if any.
pub open spec fn time_uncertainty_named(text: Seq<char>) -> Option<TimeUncertainty> {
    if text == "clock_moved_backward"@ {
        Some(TimeUncertainty::ClockMovedBackward)
    } else if text == "clock_discontinuity"@ {
        Some(TimeUncertainty::ClockDiscontinuity)
    } else if text == "insufficient_clock_evidence"@ {
        Some(TimeUncertainty::InsufficientClockEvidence)
    } else {
        None
    }
}

pub fn time_uncertainty_text(value: TimeUncertainty) -> (r: &'static str)
    ensures
        r@ == time_uncertainty_name(value),
{
    match value {
        TimeUncertainty::ClockMovedBackward => "clock_moved_backward",
        TimeUncertainty::ClockDiscontinuity => "clock_discontinuity",
        TimeUncertainty::InsufficientClockEvidence => "insufficient_clock_evidence",
    }
}

/// Reads a document name; any other text, including other letter case, is rejected.
pub fn time_uncertainty_from_text(text: &str) -> (r: Option<TimeUncertainty>)
    ensures
        r == time_uncertainty_named(text@),
{
    if same_text(text, "clock_moved_backward") {
        return Some(TimeUncertainty::ClockMovedBackward);
    }
    if same_text(text, "clock_discontinuity") {
        return Some(TimeUncertainty::ClockDiscontinuity);
    }
    if same_text(text, "insufficient_clock_evidence") {
        return Some(TimeUncertainty::InsufficientClockEvidence);
    }
    None
}

/// Each `TimeUncertainty` reads back from its name.
pub proof fn lemma_time_uncertainty_names_read_back(value: TimeUncertainty)
    ensures
        time_uncertainty_named(time_uncertainty_name(value)) == Some(value),
{
    reveal_strlit("clock_moved_backward");
    reveal_strlit("clock_discontinuity");
    reveal_strlit("insufficient_clock_evidence");
    assert("clock_moved_backward"@.len() != "clock_discontinuity"@.len());
    assert("clock_moved_backward"@.len() != "insufficient_clock_evidence"@.len());
    assert("clock_discontinuity"@.len() != "insufficient_clock_evidence"@.len());
}

/// The document's name for each `GapReason`.
pub open spec fn gap_reason_name(value: GapReason) -> Seq<char> {
    match value {
        GapReason::Restart => "restart"@,
        GapReason::ObservationDiscontinuity => "observation_discontinuity"@,
        GapReason::ClockAnomaly => "clock_anomaly"@,
    }
}

/// The `GapReason` a document name stands for, if any.
pub open spec fn gap_reason_named(text: Seq<char>) -> Option<GapReason> {
    if text == "restart"@ {
        Some(GapReason::Restart)
    } else if text == "observation_discontinuity"@ {
        Some(GapReason::ObservationDiscontinuity)
    } else if text == "clock_anomaly"@ {
        Some(GapReason::ClockAnomaly)
    } else {
        None
    }
}

pub fn gap_reason_text(value: GapReason) -> (r: &'static str)
    ensures
        r@ == gap_reason_name(value),
{
    match value {
        GapReason::Restart => "restart",
        GapReason::ObservationDiscontinuity => "observation_discontinuity",
        GapReason::ClockAnomaly => "clock_anomaly",
    }
}

/// Reads a document name; any other text, including other letter case, is rejected.
pub fn gap_reason_from_text(text: &str) -> (r: Option<GapReason>)
    ensures
        r == gap_reason_named(text@),
{
    if same_text(text, "restart") {
        return Some(GapReason::Restart);
    }
    if same_text(text, "observation_discontinuity") {
        return Some(GapReason::ObservationDiscontinuity);
    }
    if same_text(text, "clock_anomaly") {
        return Some(GapReason::ClockAnomaly);
    }
    None
}

/// Each `GapReason` reads back from its name.
pub proof fn lemma_gap_reason_names_read_back(value: GapReason)
    ensures
        gap_reason_named(gap_reason_name(value)) == Some(value),
{
    reveal_strlit("restart");
    reveal_strlit("observation_discontinuity");
    reveal_strlit("clock_anomaly");
    assert("restart"@.len() != "observation_discontinuity"@.len());
    assert("restart"@.len() != "clock_anomaly"@.len());
    assert("observation_discontinuity"@.len() != "clock_anomaly"@.len());
}

} // verus!
