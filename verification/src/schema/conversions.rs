//! Value-by-value conversion between domain values and document objects.
//! Writing checks that every ID is nonzero and every time representable;
//! reading cannot fail, since the document's values were checked when read.

use vstd::prelude::*;

use crate::model::{
    copy_task, DomainError, EventKind, History, HistoryEvent, IdAllocators, Interruption,
    InterruptionEnd, InterruptionId, PomodoroState, ProgressState, QuickStartDecision,
    RoundProgress, RunState, Session, SessionEnd, SessionId, TimerState, Timestamp,
};
use crate::schema::codec::CodecError;
use crate::schema::dto::{
    EventKindV1, EventV1, HistoryV1, IdAllocatorsV1, InterruptionEndV1, InterruptionV1,
    ProgressV1, QuickStartDecisionV1, RoundProgressV1, RunV1, SessionEndV1, SessionV1, SnapshotV1,
    TimerV1,
};
use crate::schema::values::{
    InterruptionIdV1, SessionIdV1, SettingsV1, TimestampV1, INTERRUPTION_ID_ERROR,
    MAX_TIMESTAMP_MS, SESSION_ID_ERROR, TIMESTAMP_RANGE_ERROR,
};

verus! {

pub open spec fn fits_time(t: Timestamp) -> bool {
    t.0 <= MAX_TIMESTAMP_MS
}

pub open spec fn fits_end(end: Option<SessionEnd>) -> bool {
    end matches Some(e) ==> fits_time(e.ended_at)
}

pub open spec fn fits_source(source: Option<SessionId>) -> bool {
    source matches Some(id) ==> id.0 > 0
}

/// A session's IDs are nonzero and its times representable.
pub open spec fn session_fits(s: Session) -> bool {
    &&& s.id.0 > 0
    &&& fits_time(s.started_at)
    &&& fits_source(s.continued_from_quick_start)
    &&& fits_end(s.end)
}

pub open spec fn interruption_end_fits(end: InterruptionEnd) -> bool {
    fits_time(end.ended_at)
}

pub open spec fn timer_fits(timer: TimerState) -> bool {
    match timer {
        TimerState::Running { run } => fits_time(run.started_at) && fits_time(run.last_confirmed_at),
        TimerState::Interrupted { interruption } => {
            &&& interruption.id.0 > 0
            &&& fits_time(interruption.started_at)
            &&& fits_time(interruption.recorded_at)
            &&& interruption.end matches Some(end) ==> interruption_end_fits(end)
        },
    }
}

pub open spec fn progress_fits(state: ProgressState) -> bool {
    match state {
        ProgressState::Ready { .. } => true,
        ProgressState::Active { session, timer } => session_fits(session) && timer_fits(timer),
        ProgressState::AwaitingQuickStartDecision { quick_start_session_id, .. } =>
            quick_start_session_id.0 > 0,
    }
}

pub open spec fn payload_fits(payload: EventKind) -> bool {
    match payload {
        EventKind::RunIntervalRecorded { started_at, ended_at, .. } => fits_time(started_at)
            && fits_time(ended_at),
        EventKind::InterruptionStarted { interruption_id, .. } => interruption_id.0 > 0,
        EventKind::InterruptionEnded { interruption_id, end } => interruption_id.0 > 0
            && interruption_end_fits(end),
        EventKind::QuickStartDecisionMade { decision } => match decision {
            QuickStartDecision::Finish => true,
            QuickStartDecision::Continue { focus_session_id } => focus_session_id.0 > 0,
        },
        EventKind::AppClosing => true,
        EventKind::AppRestored => true,
        EventKind::ObservationGapDetected { last_confirmed_at, detected_at, .. } => fits_time(
            last_confirmed_at,
        ) && fits_time(detected_at),
    }
}

pub open spec fn event_fits(event: HistoryEvent) -> bool {
    &&& event.session_id.0 > 0
    &&& fits_time(event.effective_at)
    &&& fits_time(event.recorded_at)
    &&& payload_fits(event.payload)
}

/// The message of the first field of a session that cannot be written, in
/// the order the fields are written: ID, start, continuation source, end.
pub open spec fn session_write_error(s: Session) -> Option<&'static str> {
    if s.id.0 == 0 {
        Some(SESSION_ID_ERROR)
    } else if !fits_time(s.started_at) {
        Some(TIMESTAMP_RANGE_ERROR)
    } else if !fits_source(s.continued_from_quick_start) {
        Some(SESSION_ID_ERROR)
    } else if !fits_end(s.end) {
        Some(TIMESTAMP_RANGE_ERROR)
    } else {
        None
    }
}

/// The message of the first field of a timer that cannot be written.
pub open spec fn timer_write_error(timer: TimerState) -> Option<&'static str> {
    match timer {
        TimerState::Interrupted { interruption } if interruption.id.0 == 0 => Some(
            INTERRUPTION_ID_ERROR,
        ),
        _ => if timer_fits(timer) {
            None
        } else {
            Some(TIMESTAMP_RANGE_ERROR)
        },
    }
}

/// The message of the first field of a progress state that cannot be
/// written: an active session before its timer.
pub open spec fn progress_write_error(state: ProgressState) -> Option<&'static str> {
    match state {
        ProgressState::Ready { .. } => None,
        ProgressState::Active { session, timer } => match session_write_error(session) {
            Some(m) => Some(m),
            None => timer_write_error(timer),
        },
        ProgressState::AwaitingQuickStartDecision { quick_start_session_id, .. } =>
            if quick_start_session_id.0 == 0 {
            Some(SESSION_ID_ERROR)
        } else {
            None
        },
    }
}

/// The message of the first payload field that cannot be written, in the
/// order the fields are written.
pub open spec fn payload_write_error(payload: EventKind) -> Option<&'static str> {
    match payload {
        EventKind::RunIntervalRecorded { started_at, ended_at, .. } => if fits_time(started_at)
            && fits_time(ended_at) {
            None
        } else {
            Some(TIMESTAMP_RANGE_ERROR)
        },
        EventKind::InterruptionStarted { interruption_id, .. } => if interruption_id.0 == 0 {
            Some(INTERRUPTION_ID_ERROR)
        } else {
            None
        },
        EventKind::InterruptionEnded { interruption_id, end } => if interruption_id.0 == 0 {
            Some(INTERRUPTION_ID_ERROR)
        } else if !interruption_end_fits(end) {
            Some(TIMESTAMP_RANGE_ERROR)
        } else {
            None
        },
        EventKind::QuickStartDecisionMade { decision } => match decision {
            QuickStartDecision::Continue { focus_session_id } if focus_session_id.0 == 0 => Some(
                SESSION_ID_ERROR,
            ),
            _ => None,
        },
        EventKind::ObservationGapDetected { last_confirmed_at, detected_at, .. } => if fits_time(
            last_confirmed_at,
        ) && fits_time(detected_at) {
            None
        } else {
            Some(TIMESTAMP_RANGE_ERROR)
        },
        _ => None,
    }
}

/// The message of the first field of an event that cannot be written: its
/// session ID, its two times, then its payload.
pub open spec fn event_write_error(event: HistoryEvent) -> Option<&'static str> {
    if event.session_id.0 == 0 {
        Some(SESSION_ID_ERROR)
    } else if !fits_time(event.effective_at) || !fits_time(event.recorded_at) {
        Some(TIMESTAMP_RANGE_ERROR)
    } else {
        payload_write_error(event.payload)
    }
}

/// The session at `k` is the first that cannot be written, and `message`
/// names its first bad field.
pub open spec fn first_bad_session(sessions: Seq<Session>, k: int, message: &'static str) -> bool {
    &&& 0 <= k < sessions.len()
    &&& forall|j: int| 0 <= j < k ==> session_fits(#[trigger] sessions[j])
    &&& session_write_error(sessions[k]) == Some(message)
}

/// The event at `k` is the first that cannot be written, and `message`
/// names its first bad field.
pub open spec fn first_bad_event(events: Seq<HistoryEvent>, k: int, message: &'static str) -> bool {
    &&& 0 <= k < events.len()
    &&& forall|j: int| 0 <= j < k ==> event_fits(#[trigger] events[j])
    &&& event_write_error(events[k]) == Some(message)
}

/// The message with which writing a history fails: that of the first bad
/// session, or, where every session can be written, of the first bad event.
pub open spec fn history_write_error(
    sessions: Seq<Session>,
    events: Seq<HistoryEvent>,
    message: &'static str,
) -> bool {
    ||| exists|k: int| first_bad_session(sessions, k, message)
    ||| (forall|j: int| 0 <= j < sessions.len() ==> session_fits(#[trigger] sessions[j])) && exists|
        k: int,
    | first_bad_event(events, k, message)
}

/// Every recorded session and event can be written.
pub open spec fn history_fits(sessions: Seq<Session>, events: Seq<HistoryEvent>) -> bool {
    &&& forall|i: int| 0 <= i < sessions.len() ==> session_fits(#[trigger] sessions[i])
    &&& forall|i: int| 0 <= i < events.len() ==> event_fits(#[trigger] events[i])
}

fn time_v1(t: Timestamp) -> (r: Result<TimestampV1, CodecError>)
    ensures
        match r {
            Ok(v) => fits_time(t) && v@ == t,
            Err(e) => !fits_time(t) && e == CodecError::InvalidValue(TIMESTAMP_RANGE_ERROR),
        },
{
    match TimestampV1::new(t) {
        Ok(v) => Ok(v),
        Err(message) => Err(CodecError::InvalidValue(message)),
    }
}

fn session_id_v1(id: SessionId) -> (r: Result<SessionIdV1, CodecError>)
    ensures
        match r {
            Ok(v) => id.0 > 0 && v@ == id,
            Err(e) => id.0 == 0 && e == CodecError::InvalidValue(SESSION_ID_ERROR),
        },
{
    match SessionIdV1::new(id) {
        Ok(v) => Ok(v),
        Err(message) => Err(CodecError::InvalidValue(message)),
    }
}

fn interruption_id_v1(id: InterruptionId) -> (r: Result<InterruptionIdV1, CodecError>)
    ensures
        match r {
            Ok(v) => id.0 > 0 && v@ == id,
            Err(e) => id.0 == 0 && e == CodecError::InvalidValue(INTERRUPTION_ID_ERROR),
        },
{
    match InterruptionIdV1::new(id) {
        Ok(v) => Ok(v),
        Err(message) => Err(CodecError::InvalidValue(message)),
    }
}

pub fn id_allocators_to_v1(ids: &IdAllocators) -> (r: IdAllocatorsV1)
    ensures
        r.to_domain() == *ids,
{
    IdAllocatorsV1 {
        next_session_id: ids.next_session_id,
        next_interruption_id: ids.next_interruption_id,
        next_event_sequence: ids.next_event_sequence,
    }
}

pub fn id_allocators_from_v1(ids: &IdAllocatorsV1) -> (r: IdAllocators)
    ensures
        r == ids.to_domain(),
{
    IdAllocators {
        next_session_id: ids.next_session_id,
        next_interruption_id: ids.next_interruption_id,
        next_event_sequence: ids.next_event_sequence,
    }
}

pub fn session_end_to_v1(end: SessionEnd) -> (r: Result<SessionEndV1, CodecError>)
    ensures
        match r {
            Ok(v) => fits_time(end.ended_at) && v.to_domain() == end,
            Err(e) => !fits_time(end.ended_at) && e == CodecError::InvalidValue(TIMESTAMP_RANGE_ERROR),
        },
{
    let ended_at = match time_v1(end.ended_at) {
        Ok(v) => v,
        Err(e) => {
            return Err(e);
        },
    };
    Ok(SessionEndV1 { ended_at, outcome: end.outcome })
}

pub fn session_end_from_v1(end: &SessionEndV1) -> (r: SessionEnd)
    ensures
        r == end.to_domain(),
{
    SessionEnd { ended_at: end.ended_at.value(), outcome: end.outcome }
}

/// Writes a session; fails on a zero ID or an unrepresentable time.
/// Every ID that a session carries is nonzero.
pub open spec fn session_ids_ok(s: Session) -> bool {
    s.id.0 > 0 && fits_source(s.continued_from_quick_start)
}

/// An open interruption's ID is nonzero.
pub open spec fn timer_ids_ok(timer: TimerState) -> bool {
    timer matches TimerState::Interrupted { interruption } ==> interruption.id.0 > 0
}

/// Every ID that the progress state carries is nonzero.
pub open spec fn progress_ids_ok(state: ProgressState) -> bool {
    match state {
        ProgressState::Ready { .. } => true,
        ProgressState::Active { session, timer } => session_ids_ok(session) && timer_ids_ok(timer),
        ProgressState::AwaitingQuickStartDecision { quick_start_session_id, .. } =>
            quick_start_session_id.0 > 0,
    }
}

/// Every ID that an event carries is nonzero.
pub open spec fn event_ids_ok(event: HistoryEvent) -> bool {
    &&& event.session_id.0 > 0
    &&& match event.payload {
        EventKind::InterruptionStarted { interruption_id, .. } => interruption_id.0 > 0,
        EventKind::InterruptionEnded { interruption_id, .. } => interruption_id.0 > 0,
        EventKind::QuickStartDecisionMade { decision } => decision matches QuickStartDecision::Continue {
            focus_session_id,
        } ==> focus_session_id.0 > 0,
        _ => true,
    }
}

/// Every ID in the recorded history is nonzero.
pub open spec fn history_ids_ok(sessions: Seq<Session>, events: Seq<HistoryEvent>) -> bool {
    &&& forall|i: int| 0 <= i < sessions.len() ==> session_ids_ok(#[trigger] sessions[i])
    &&& forall|i: int| 0 <= i < events.len() ==> event_ids_ok(#[trigger] events[i])
}

pub fn session_to_v1(s: &Session) -> (r: Result<SessionV1, CodecError>)
    ensures
        match r {
            Ok(v) => session_fits(*s) && v.to_domain() == *s,
            Err(e) => !session_fits(*s) && e is InvalidValue && (session_ids_ok(*s) ==> e == CodecError::InvalidValue(TIMESTAMP_RANGE_ERROR)),
        },
        r is Err <==> session_write_error(*s) is Some,
        r matches Err(e) ==> e == CodecError::InvalidValue(session_write_error(*s)->0),
{
    let id = match session_id_v1(s.id) {
        Ok(v) => v,
        Err(e) => {
            return Err(e);
        },
    };
    let started_at = match time_v1(s.started_at) {
        Ok(v) => v,
        Err(e) => {
            return Err(e);
        },
    };
    let continued_from_quick_start = match s.continued_from_quick_start {
        None => None,
        Some(source) => match session_id_v1(source) {
            Ok(v) => Some(v),
            Err(e) => {
                return Err(e);
            },
        },
    };
    let end = match s.end {
        None => None,
        Some(end) => match session_end_to_v1(end) {
            Ok(v) => Some(v),
            Err(e) => {
                return Err(e);
            },
        },
    };
    Ok(
        SessionV1 {
            id,
            kind: s.kind,
            current_task: copy_task(&s.current_task),
            planned_duration_ms: s.planned_duration_ms,
            started_at,
            elapsed_ms: s.elapsed_ms,
            continued_from_quick_start,
            end,
        },
    )
}

pub fn session_from_v1(v: &SessionV1) -> (r: Session)
    ensures
        r == v.to_domain(),
{
    Session {
        id: v.id.value(),
        kind: v.kind,
        current_task: copy_task(&v.current_task),
        planned_duration_ms: v.planned_duration_ms,
        started_at: v.started_at.value(),
        elapsed_ms: v.elapsed_ms,
        continued_from_quick_start: match v.continued_from_quick_start {
            Some(source) => Some(source.value()),
            None => None,
        },
        end: match &v.end {
            Some(end) => Some(session_end_from_v1(end)),
            None => None,
        },
    }
}

pub fn interruption_end_to_v1(end: InterruptionEnd) -> (r: Result<InterruptionEndV1, CodecError>)
    ensures
        match r {
            Ok(v) => interruption_end_fits(end) && v.to_domain() == end,
            Err(e) => !interruption_end_fits(end) && e == CodecError::InvalidValue(TIMESTAMP_RANGE_ERROR),
        },
{
    let ended_at = match time_v1(end.ended_at) {
        Ok(v) => v,
        Err(e) => {
            return Err(e);
        },
    };
    Ok(InterruptionEndV1 { ended_at, outcome: end.outcome, duration: end.duration })
}

pub fn interruption_end_from_v1(end: &InterruptionEndV1) -> (r: InterruptionEnd)
    ensures
        r == end.to_domain(),
{
    InterruptionEnd { ended_at: end.ended_at.value(), outcome: end.outcome, duration: end.duration }
}

pub fn timer_to_v1(timer: &TimerState) -> (r: Result<TimerV1, CodecError>)
    ensures
        match r {
            Ok(v) => timer_fits(*timer) && v.to_domain() == *timer,
            Err(e) => !timer_fits(*timer) && e is InvalidValue && (timer_ids_ok(*timer) ==> e == CodecError::InvalidValue(TIMESTAMP_RANGE_ERROR)),
        },
        r is Err <==> timer_write_error(*timer) is Some,
        r matches Err(e) ==> e == CodecError::InvalidValue(timer_write_error(*timer)->0),
{
    match timer {
        TimerState::Running { run } => {
            let started_at = match time_v1(run.started_at) {
                Ok(v) => v,
                Err(e) => {
                    return Err(e);
                },
            };
            let last_confirmed_at = match time_v1(run.last_confirmed_at) {
                Ok(v) => v,
                Err(e) => {
                    return Err(e);
                },
            };
            Ok(
                TimerV1::Running {
                    run: RunV1 {
                        started_at,
                        elapsed_ms_at_start: run.elapsed_ms_at_start,
                        last_confirmed_at,
                        time_uncertainty: run.time_uncertainty,
                    },
                },
            )
        },
        TimerState::Interrupted { interruption } => {
            let id = match interruption_id_v1(interruption.id) {
                Ok(v) => v,
                Err(e) => {
                    return Err(e);
                },
            };
            let started_at = match time_v1(interruption.started_at) {
                Ok(v) => v,
                Err(e) => {
                    return Err(e);
                },
            };
            let recorded_at = match time_v1(interruption.recorded_at) {
                Ok(v) => v,
                Err(e) => {
                    return Err(e);
                },
            };
            let end = match interruption.end {
                None => None,
                Some(end) => match interruption_end_to_v1(end) {
                    Ok(v) => Some(v),
                    Err(e) => {
                        return Err(e);
                    },
                },
            };
            Ok(
                TimerV1::Interrupted {
                    interruption: InterruptionV1 {
                        id,
                        kind: interruption.kind,
                        started_at,
                        recorded_at,
                        time_uncertainty: interruption.time_uncertainty,
                        end,
                    },
                },
            )
        },
    }
}

pub fn timer_from_v1(timer: &TimerV1) -> (r: TimerState)
    ensures
        r == timer.to_domain(),
{
    match timer {
        TimerV1::Running { run } => TimerState::Running {
            run: RunState {
                started_at: run.started_at.value(),
                elapsed_ms_at_start: run.elapsed_ms_at_start,
                last_confirmed_at: run.last_confirmed_at.value(),
                time_uncertainty: run.time_uncertainty,
            },
        },
        TimerV1::Interrupted { interruption } => TimerState::Interrupted {
            interruption: Interruption {
                id: interruption.id.value(),
                kind: interruption.kind,
                started_at: interruption.started_at.value(),
                recorded_at: interruption.recorded_at.value(),
                time_uncertainty: interruption.time_uncertainty,
                end: match &interruption.end {
                    Some(end) => Some(interruption_end_from_v1(end)),
                    None => None,
                },
            },
        },
    }
}

pub fn progress_to_v1(state: &ProgressState) -> (r: Result<ProgressV1, CodecError>)
    ensures
        match r {
            Ok(v) => progress_fits(*state) && v.to_domain() == *state,
            Err(e) => !progress_fits(*state) && e is InvalidValue && (progress_ids_ok(*state) ==> e
                == CodecError::InvalidValue(TIMESTAMP_RANGE_ERROR)),
        },
        r is Err <==> progress_write_error(*state) is Some,
        r matches Err(e) ==> e == CodecError::InvalidValue(progress_write_error(*state)->0),
{
    match state {
        ProgressState::Ready { next_kind, current_task_draft } => Ok(
            ProgressV1::Ready {
                next_kind: *next_kind,
                current_task_draft: copy_task(current_task_draft),
            },
        ),
        ProgressState::Active { session, timer } => {
            let session = match session_to_v1(session) {
                Ok(v) => v,
                Err(e) => {
                    return Err(e);
                },
            };
            let timer = match timer_to_v1(timer) {
                Ok(v) => v,
                Err(e) => {
                    return Err(e);
                },
            };
            Ok(ProgressV1::Active { session, timer })
        },
        ProgressState::AwaitingQuickStartDecision { quick_start_session_id, current_task } => {
            let id = match session_id_v1(*quick_start_session_id) {
                Ok(v) => v,
                Err(e) => {
                    return Err(e);
                },
            };
            Ok(
                ProgressV1::AwaitingQuickStartDecision {
                    quick_start_session_id: id,
                    current_task: copy_task(current_task),
                },
            )
        },
    }
}

pub fn progress_from_v1(state: &ProgressV1) -> (r: ProgressState)
    ensures
        r == state.to_domain(),
{
    match state {
        ProgressV1::Ready { next_kind, current_task_draft } => ProgressState::Ready {
            next_kind: *next_kind,
            current_task_draft: copy_task(current_task_draft),
        },
        ProgressV1::Active { session, timer } => ProgressState::Active {
            session: session_from_v1(session),
            timer: timer_from_v1(timer),
        },
        ProgressV1::AwaitingQuickStartDecision { quick_start_session_id, current_task } =>
            ProgressState::AwaitingQuickStartDecision {
            quick_start_session_id: quick_start_session_id.value(),
            current_task: copy_task(current_task),
        },
    }
}

/// Writes the snapshot: settings must validate, then the progress must fit.
pub fn snapshot_to_v1(snapshot: &PomodoroState) -> (r: Result<SnapshotV1, CodecError>)
    ensures
        match r {
            Ok(v) => snapshot.settings.validation() is Ok && progress_fits(snapshot.state)
                && v.to_domain() == *snapshot,
            Err(e) => match snapshot.settings.validation() {
                Err(c) => e == CodecError::InvalidDomain(DomainError::InvalidConfig(c)),
                Ok(_) => !progress_fits(snapshot.state) && e is InvalidValue && (progress_ids_ok(
                    snapshot.state,
                ) ==> e == CodecError::InvalidValue(TIMESTAMP_RANGE_ERROR)),
            },
        },
        snapshot.settings.validation() is Ok ==> (r is Err <==> progress_write_error(
            snapshot.state,
        ) is Some),
        snapshot.settings.validation() is Ok && r is Err ==> r->Err_0 == CodecError::InvalidValue(
            progress_write_error(snapshot.state)->0,
        ),
{
    let settings = match SettingsV1::new(snapshot.settings) {
        Ok(v) => v,
        Err(c) => {
            return Err(CodecError::InvalidDomain(DomainError::InvalidConfig(c)));
        },
    };
    let state = match progress_to_v1(&snapshot.state) {
        Ok(v) => v,
        Err(e) => {
            return Err(e);
        },
    };
    Ok(
        SnapshotV1 {
            settings,
            round_progress: RoundProgressV1 {
                completed_focuses_in_round: snapshot.round_progress.completed_focuses_in_round,
            },
            state,
        },
    )
}

pub fn snapshot_from_v1(snapshot: &SnapshotV1) -> (r: PomodoroState)
    ensures
        r == snapshot.to_domain(),
{
    PomodoroState {
        settings: snapshot.settings.value(),
        round_progress: RoundProgress {
            completed_focuses_in_round: snapshot.round_progress.completed_focuses_in_round,
        },
        state: progress_from_v1(&snapshot.state),
    }
}

fn decision_to_v1(decision: QuickStartDecision) -> (r: Result<QuickStartDecisionV1, CodecError>)
    ensures
        match r {
            Ok(v) => payload_fits(EventKind::QuickStartDecisionMade { decision }) && v.to_domain()
                == decision,
            Err(e) => !payload_fits(EventKind::QuickStartDecisionMade { decision })
                && e == CodecError::InvalidValue(SESSION_ID_ERROR),
        },
{
    match decision {
        QuickStartDecision::Finish => Ok(QuickStartDecisionV1::Finish),
        QuickStartDecision::Continue { focus_session_id } => match session_id_v1(focus_session_id) {
            Ok(id) => Ok(QuickStartDecisionV1::Continue { focus_session_id: id }),
            Err(e) => Err(e),
        },
    }
}

/// Writes an event; fails on a zero ID or an unrepresentable time.
pub fn event_to_v1(event: &HistoryEvent) -> (r: Result<EventV1, CodecError>)
    ensures
        match r {
            Ok(v) => event_fits(*event) && v.to_domain() == *event,
            Err(e) => !event_fits(*event) && e is InvalidValue && (event_ids_ok(*event) ==> e == CodecError::InvalidValue(TIMESTAMP_RANGE_ERROR))
                && (event.session_id.0 == 0 ==> e == CodecError::InvalidValue(SESSION_ID_ERROR)),
        },
        r is Err <==> event_write_error(*event) is Some,
        r matches Err(e) ==> e == CodecError::InvalidValue(event_write_error(*event)->0),
{
    let session_id = match session_id_v1(event.session_id) {
        Ok(v) => v,
        Err(e) => {
            return Err(e);
        },
    };
    let effective_at = match time_v1(event.effective_at) {
        Ok(v) => v,
        Err(e) => {
            return Err(e);
        },
    };
    let recorded_at = match time_v1(event.recorded_at) {
        Ok(v) => v,
        Err(e) => {
            return Err(e);
        },
    };
    let payload = match event.payload {
        EventKind::RunIntervalRecorded { started_at, ended_at, credited_ms, time_uncertainty } => {
            let started_at = match time_v1(started_at) {
                Ok(v) => v,
                Err(e) => {
                    return Err(e);
                },
            };
            let ended_at = match time_v1(ended_at) {
                Ok(v) => v,
                Err(e) => {
                    return Err(e);
                },
            };
            EventKindV1::RunIntervalRecorded { started_at, ended_at, credited_ms, time_uncertainty }
        },
        EventKind::InterruptionStarted { interruption_id, interruption_kind } => {
            let interruption_id = match interruption_id_v1(interruption_id) {
                Ok(v) => v,
                Err(e) => {
                    return Err(e);
                },
            };
            EventKindV1::InterruptionStarted { interruption_id, interruption_kind }
        },
        EventKind::InterruptionEnded { interruption_id, end } => {
            let interruption_id = match interruption_id_v1(interruption_id) {
                Ok(v) => v,
                Err(e) => {
                    return Err(e);
                },
            };
            let end = match interruption_end_to_v1(end) {
                Ok(v) => v,
                Err(e) => {
                    return Err(e);
                },
            };
            EventKindV1::InterruptionEnded { interruption_id, end }
        },
        EventKind::QuickStartDecisionMade { decision } => {
            let decision = match decision_to_v1(decision) {
                Ok(v) => v,
                Err(e) => {
                    return Err(e);
                },
            };
            EventKindV1::QuickStartDecisionMade { decision }
        },
        EventKind::AppClosing => EventKindV1::AppClosing,
        EventKind::AppRestored => EventKindV1::AppRestored,
        EventKind::ObservationGapDetected { last_confirmed_at, detected_at, reason } => {
            let last_confirmed_at = match time_v1(last_confirmed_at) {
                Ok(v) => v,
                Err(e) => {
                    return Err(e);
                },
            };
            let detected_at = match time_v1(detected_at) {
                Ok(v) => v,
                Err(e) => {
                    return Err(e);
                },
            };
            EventKindV1::ObservationGapDetected { last_confirmed_at, detected_at, reason }
        },
    };
    Ok(EventV1 { sequence: event.sequence, session_id, effective_at, recorded_at, payload })
}

pub fn event_from_v1(event: &EventV1) -> (r: HistoryEvent)
    ensures
        r == event.to_domain(),
{
    let payload = match event.payload {
        EventKindV1::RunIntervalRecorded { started_at, ended_at, credited_ms, time_uncertainty } =>
            EventKind::RunIntervalRecorded {
            started_at: started_at.value(),
            ended_at: ended_at.value(),
            credited_ms,
            time_uncertainty,
        },
        EventKindV1::InterruptionStarted { interruption_id, interruption_kind } =>
            EventKind::InterruptionStarted {
            interruption_id: interruption_id.value(),
            interruption_kind,
        },
        EventKindV1::InterruptionEnded { interruption_id, end } => EventKind::InterruptionEnded {
            interruption_id: interruption_id.value(),
            end: interruption_end_from_v1(&end),
        },
        EventKindV1::QuickStartDecisionMade { decision } => EventKind::QuickStartDecisionMade {
            decision: match decision {
                QuickStartDecisionV1::Finish => QuickStartDecision::Finish,
                QuickStartDecisionV1::Continue { focus_session_id } => QuickStartDecision::Continue {
                    focus_session_id: focus_session_id.value(),
                },
            },
        },
        EventKindV1::AppClosing => EventKind::AppClosing,
        EventKindV1::AppRestored => EventKind::AppRestored,
        EventKindV1::ObservationGapDetected { last_confirmed_at, detected_at, reason } =>
            EventKind::ObservationGapDetected {
            last_confirmed_at: last_confirmed_at.value(),
            detected_at: detected_at.value(),
            reason,
        },
    };
    HistoryEvent {
        sequence: event.sequence,
        session_id: event.session_id.value(),
        effective_at: event.effective_at.value(),
        recorded_at: event.recorded_at.value(),
        payload,
    }
}

/// Writes every session, then every event, stopping at the first that cannot be written.
pub fn history_to_v1(history: &History) -> (r: Result<HistoryV1, CodecError>)
    ensures
        match r {
            Ok(v) => history_fits(history.sessions@, history.events@) && v.session_models()
                == history.sessions@ && v.event_models() == history.events@,
            Err(e) => !history_fits(history.sessions@, history.events@) && e is InvalidValue && (
                history_ids_ok(history.sessions@, history.events@) ==> e == CodecError::InvalidValue(TIMESTAMP_RANGE_ERROR)),
        },
        r matches Err(e) ==> e matches CodecError::InvalidValue(m) && history_write_error(
            history.sessions@,
            history.events@,
            m,
        ),
{
    let mut sessions: Vec<SessionV1> = Vec::new();
    let mut i: usize = 0;
    while i < history.sessions.len()
        invariant
            i <= history.sessions.len(),
            sessions@.len() == i,
            forall|k: int| 0 <= k < i ==> session_fits(#[trigger] history.sessions@[k]),
            forall|k: int| 0 <= k < i ==> (#[trigger] sessions@[k]).to_domain() == history.sessions@[k],
        decreases history.sessions.len() - i,
    {
        match session_to_v1(&history.sessions[i]) {
            Ok(v) => sessions.push(v),
            Err(e) => {
                assert(first_bad_session(history.sessions@, i as int, e->InvalidValue_0));
                return Err(e);
            },
        }
        i += 1;
    }
    let mut events: Vec<EventV1> = Vec::new();
    let mut j: usize = 0;
    while j < history.events.len()
        invariant
            j <= history.events.len(),
            events@.len() == j,
            forall|k: int| 0 <= k < history.sessions@.len() ==> session_fits(#[trigger] history.sessions@[k]),
            forall|k: int| 0 <= k < j ==> event_fits(#[trigger] history.events@[k]),
            forall|k: int| 0 <= k < j ==> (#[trigger] events@[k]).to_domain() == history.events@[k],
        decreases history.events.len() - j,
    {
        match event_to_v1(&history.events[j]) {
            Ok(v) => events.push(v),
            Err(e) => {
                assert(first_bad_event(history.events@, j as int, e->InvalidValue_0));
                return Err(e);
            },
        }
        j += 1;
    }
    let r = HistoryV1 { sessions, events };
    assert(r.session_models() =~= history.sessions@);
    assert(r.event_models() =~= history.events@);
    Ok(r)
}

pub fn history_from_v1(history: &HistoryV1) -> (r: History)
    ensures
        r.sessions@ == history.session_models(),
        r.events@ == history.event_models(),
{
    let mut sessions: Vec<Session> = Vec::new();
    let mut i: usize = 0;
    while i < history.sessions.len()
        invariant
            i <= history.sessions.len(),
            sessions@.len() == i,
            forall|k: int| 0 <= k < i ==> #[trigger] sessions@[k] == history.sessions@[k].to_domain(),
        decreases history.sessions.len() - i,
    {
        sessions.push(session_from_v1(&history.sessions[i]));
        i += 1;
    }
    let mut events: Vec<HistoryEvent> = Vec::new();
    let mut j: usize = 0;
    while j < history.events.len()
        invariant
            j <= history.events.len(),
            events@.len() == j,
            forall|k: int| 0 <= k < j ==> #[trigger] events@[k] == history.events@[k].to_domain(),
        decreases history.events.len() - j,
    {
        events.push(event_from_v1(&history.events[j]));
        j += 1;
    }
    let r = History { sessions, events };
    assert(r.sessions@ =~= history.session_models());
    assert(r.events@ =~= history.event_models());
    r
}

} // verus!
