//! What a consistent domain unit is: the checks of `DomainState::validate`,
//! as mathematics.

use vstd::prelude::*;

use crate::model::{
    task_view, DomainError, EventKind, GapReason, HistoryEvent, Interruption, InterruptionEnd,
    InterruptionId, InterruptionKind, InterruptionOutcome, MeasuredDuration, ProgressState,
    QuickStartDecision, Session, SessionId, SessionKind, SessionOutcome, TimerState, Timestamp,
};
use crate::transition::DomainModel;

verus! {

/// An interruption opened by the events read so far and not yet ended.
#[derive(Debug, Clone, Copy, PartialEq, Eq, Structural)]
pub struct OpenInterruption {
    pub id: InterruptionId,
    pub kind: InterruptionKind,
    pub started_at: Timestamp,
    pub recorded_at: Timestamp,
    /// The events prove that the clock ran backward during this interruption.
    pub clock_doubt: bool,
}

/// What the events read so far establish about one session.
#[derive(Debug, Clone, Copy, PartialEq, Eq, Structural)]
pub struct SessionFacts {
    pub credited_ms: u64,
    pub run_closed: bool,
    pub run_start: Timestamp,
    pub run_end: Option<Timestamp>,
    pub open: Option<OpenInterruption>,
    pub ended_by_interruption: bool,
    /// The last gap of the running session proved a backward clock.
    pub gap_doubt: bool,
    pub last_recorded: Option<Timestamp>,
}

/// The state of the scan over the event history.
pub struct ScanModel {
    pub facts: Seq<SessionFacts>,
    pub interruption_ids: Seq<InterruptionId>,
    pub max_interruption_id: u64,
    pub decisions: Seq<(SessionId, QuickStartDecision)>,
    pub sequence: u64,
}

pub open spec fn ensure(condition: bool, reason: &'static str) -> Result<(), DomainError> {
    if condition {
        Ok(())
    } else {
        Err(DomainError::InvalidState(reason))
    }
}

/// The first failure of `a`, otherwise `b`.
pub open spec fn then(a: Result<(), DomainError>, b: Result<(), DomainError>) -> Result<
    (),
    DomainError,
> {
    if a is Err {
        a
    } else {
        b
    }
}

/// Among keyed check results, the failure with the least key (the earliest on ties).
pub open spec fn least_failure(checks: Seq<(u64, Result<(), DomainError>)>) -> Option<
    (u64, DomainError),
>
    decreases checks.len(),
{
    if checks.len() == 0 {
        None
    } else {
        let rest = least_failure(checks.drop_last());
        let key = checks.last().0;
        match checks.last().1 {
            Ok(_) => rest,
            Err(e) => match rest {
                Some(best) => if best.0 <= key {
                    rest
                } else {
                    Some((key, e))
                },
                None => Some((key, e)),
            },
        }
    }
}

pub open spec fn failure_result(failure: Option<(u64, DomainError)>) -> Result<(), DomainError> {
    match failure {
        Some(best) => Err(best.1),
        None => Ok(()),
    }
}

/// The first index of a session with this ID, or -1.
pub open spec fn find_session(sessions: Seq<Session>, id: SessionId) -> int
    decreases sessions.len(),
{
    if sessions.len() == 0 {
        -1
    } else {
        let found = find_session(sessions.drop_last(), id);
        if found >= 0 {
            found
        } else if sessions.last().id == id {
            sessions.len() - 1
        } else {
            -1
        }
    }
}

/// The first recorded decision for a Quick Start.
pub open spec fn decision_for(decisions: Seq<(SessionId, QuickStartDecision)>, id: SessionId) -> Option<
    QuickStartDecision,
>
    decreases decisions.len(),
{
    if decisions.len() == 0 {
        None
    } else {
        let found = decision_for(decisions.drop_last(), id);
        if found is Some {
            found
        } else if decisions.last().0 == id {
            Some(decisions.last().1)
        } else {
            None
        }
    }
}

/// Recorded sessions followed by the active one.
pub open spec fn all_sessions(m: DomainModel) -> Seq<Session> {
    match m.snapshot.state {
        ProgressState::Active { session, .. } => m.sessions.push(session),
        _ => m.sessions,
    }
}

pub open spec fn is_completed_quick_start(session: Session) -> bool {
    session.kind == SessionKind::QuickStart && session.end is Some && session.end->0.outcome
        == SessionOutcome::Completed
}

/// Settings, round progress and allocators.
pub open spec fn header_check(m: DomainModel) -> Result<(), DomainError> {
    match m.snapshot.settings.validation() {
        Err(e) => Err(DomainError::InvalidConfig(e)),
        Ok(_) => then(
            ensure(
                m.snapshot.round_progress.completed_focuses_in_round
                    <= m.snapshot.settings.spec_focuses_before_long_break(),
                "round progress",
            ),
            ensure(
                m.ids.next_session_id > 0 && m.ids.next_interruption_id > 0
                    && m.ids.next_event_sequence > 0,
                "zero allocator",
            ),
        ),
    }
}

/// Recorded sessions are ended and have distinct IDs.
pub open spec fn recorded_sessions_check(sessions: Seq<Session>) -> Result<(), DomainError>
    decreases sessions.len(),
{
    if sessions.len() == 0 {
        Ok(())
    } else {
        then(
            recorded_sessions_check(sessions.drop_last()),
            then(
                ensure(sessions.last().end is Some, "unfinished history session"),
                ensure(
                    find_session(sessions.drop_last(), sessions.last().id) < 0,
                    "duplicate session",
                ),
            ),
        )
    }
}

/// The active session is unfinished, planned as the settings say, and unique.
pub open spec fn active_check(m: DomainModel) -> Result<(), DomainError> {
    match m.snapshot.state {
        ProgressState::Active { session, .. } => then(
            ensure(
                session.end is None && session.elapsed_ms < session.planned_duration_ms,
                "ended active session",
            ),
            then(
                ensure(
                    session.planned_duration_ms == m.snapshot.settings.spec_duration_seconds(
                        session.kind,
                    ) * 1000,
                    "active session duration",
                ),
                ensure(find_session(m.sessions, session.id) < 0, "duplicate active session"),
            ),
        ),
        _ => Ok(()),
    }
}

/// One session's own consistency.
pub open spec fn session_check(session: Session) -> Result<(), DomainError> {
    then(
        ensure(session.id.0 > 0, "zero session ID"),
        then(
            ensure(
                1_000 <= session.planned_duration_ms <= 86_400_000 && session.planned_duration_ms
                    % 1_000 == 0,
                "planned duration",
            ),
            then(
                ensure(session.elapsed_ms <= session.planned_duration_ms, "elapsed duration"),
                then(
                    ensure(
                        session.end is None || ((session.end->0.outcome == SessionOutcome::Completed)
                            == (session.elapsed_ms == session.planned_duration_ms)),
                        "completion duration",
                    ),
                    then(
                        ensure(
                            session.kind != SessionKind::QuickStart || session.planned_duration_ms
                                == 120_000,
                            "quick start duration",
                        ),
                        then(
                            ensure(
                                session.kind.spec_is_work() || session.current_task is None,
                                "break task",
                            ),
                            ensure(
                                session.kind == SessionKind::Focus
                                    || session.continued_from_quick_start is None,
                                "continuation kind",
                            ),
                        ),
                    ),
                ),
            ),
        ),
    )
}

pub open spec fn session_with_allocator_check(session: Session, next_session_id: u64) -> Result<
    (),
    DomainError,
> {
    then(session_check(session), ensure(session.id.0 < next_session_id, "session allocator"))
}

pub open spec fn session_checks(sessions: Seq<Session>, next_session_id: u64) -> Seq<
    (u64, Result<(), DomainError>),
> {
    Seq::new(
        sessions.len(),
        |i: int| (sessions[i].id.0, session_with_allocator_check(sessions[i], next_session_id)),
    )
}

/// The snapshot's own consistency, including the Quick Start it awaits.
pub open spec fn snapshot_check(state: ProgressState, sessions: Seq<Session>) -> Result<
    (),
    DomainError,
> {
    match state {
        ProgressState::Ready { next_kind, current_task_draft } => ensure(
            next_kind.spec_is_work() || current_task_draft is None,
            "break draft",
        ),
        ProgressState::Active { session, timer } => match timer {
            TimerState::Running { run } => then(
                ensure(run.elapsed_ms_at_start <= session.elapsed_ms, "run elapsed boundary"),
                ensure(
                    run.last_confirmed_at.0 >= run.started_at.0 || run.time_uncertainty is Some,
                    "run timestamps",
                ),
            ),
            TimerState::Interrupted { interruption } => then(
                ensure(interruption.id.0 > 0 && interruption.end is None, "open interruption"),
                ensure(
                    interruption.kind != InterruptionKind::Distraction
                        || session.kind.spec_is_work(),
                    "break distraction",
                ),
            ),
        },
        ProgressState::AwaitingQuickStartDecision { quick_start_session_id, current_task } => {
            let index = find_session(sessions, quick_start_session_id);
            if index < 0 {
                Err(DomainError::InvalidState("awaiting reference"))
            } else {
                ensure(
                    is_completed_quick_start(sessions[index]) && task_view(current_task)
                        == task_view(sessions[index].current_task),
                    "awaiting source",
                )
            }
        },
    }
}

pub open spec fn initial_facts(session: Session) -> SessionFacts {
    SessionFacts {
        credited_ms: 0,
        run_closed: false,
        run_start: session.started_at,
        run_end: None,
        open: None,
        ended_by_interruption: false,
        gap_doubt: false,
        last_recorded: None,
    }
}

pub open spec fn initial_scan(sessions: Seq<Session>) -> ScanModel {
    ScanModel {
        facts: Seq::new(sessions.len(), |i: int| initial_facts(sessions[i])),
        interruption_ids: Seq::empty(),
        max_interruption_id: 0,
        decisions: Seq::empty(),
        sequence: 1,
    }
}

/// Whether `at` precedes the last recorded event.
pub open spec fn before_last(last: Option<Timestamp>, at: Timestamp) -> bool {
    last is Some && at.0 < (last->0).0
}

/// The outcome of an interruption end matches its kind and the session, and a
/// known duration is exactly measured with no evidence of a backward clock.
pub open spec fn interruption_end_check(
    open: OpenInterruption,
    end: InterruptionEnd,
    session: Session,
    last: Option<Timestamp>,
) -> Result<(), DomainError> {
    then(
        match end.outcome {
            InterruptionOutcome::Resumed => ensure(
                open.kind != InterruptionKind::Distraction,
                "distraction resume",
            ),
            InterruptionOutcome::Returned => ensure(
                open.kind == InterruptionKind::Distraction,
                "non-distraction return",
            ),
            InterruptionOutcome::SessionEnded { session_outcome } => then(
                ensure(session_outcome != SessionOutcome::Completed, "interrupted completion"),
                ensure(
                    session.end is Some && session.end->0.outcome == session_outcome
                        && session.end->0.ended_at == end.ended_at,
                    "interruption session outcome",
                ),
            ),
        },
        match end.duration {
            MeasuredDuration::Known { elapsed_ms } => ensure(
                end.ended_at.0 >= open.started_at.0 && end.ended_at.0 - open.started_at.0
                    == elapsed_ms && end.ended_at.0 >= open.recorded_at.0 && !open.clock_doubt
                    && !before_last(last, end.ended_at),
                "interruption duration",
            ),
            MeasuredDuration::Unknown { .. } => Ok(()),
        },
    )
}

/// The effect of one event on the facts of its session.
pub open spec fn event_effect(
    session: Session,
    index: int,
    st: ScanModel,
    event: HistoryEvent,
) -> Result<ScanModel, DomainError> {
    let f = st.facts[index];
    let recorded = event.recorded_at;
    let touched = SessionFacts { last_recorded: Some(recorded), ..f };
    match event.payload {
        EventKind::RunIntervalRecorded { started_at, ended_at, credited_ms, time_uncertainty } => {
            if !(!f.run_closed && f.open is None && !f.ended_by_interruption) {
                Err(DomainError::InvalidState("duplicate or interrupted interval"))
            } else if !(started_at == f.run_start && ended_at == event.effective_at) {
                Err(DomainError::InvalidState("interval boundary"))
            } else if !(ended_at.0 >= started_at.0 || time_uncertainty is Some) {
                Err(DomainError::InvalidState("interval timestamps"))
            } else if f.credited_ms + credited_ms > u64::MAX {
                Err(DomainError::Overflow)
            } else {
                Ok(
                    ScanModel {
                        facts: st.facts.update(
                            index,
                            SessionFacts {
                                credited_ms: (f.credited_ms + credited_ms) as u64,
                                run_closed: true,
                                run_end: Some(ended_at),
                                ..touched
                            },
                        ),
                        ..st
                    },
                )
            }
        },
        EventKind::InterruptionStarted { interruption_id, interruption_kind } => {
            if !(interruption_kind == InterruptionKind::ObservationGap || event.effective_at
                == event.recorded_at) {
                Err(DomainError::InvalidState("manual interruption timestamps"))
            } else if !(f.run_closed && f.open is None && !f.ended_by_interruption) {
                Err(DomainError::InvalidState("overlapping interruption"))
            } else if f.run_end != Some(event.effective_at) {
                Err(DomainError::InvalidState("interruption boundary"))
            } else if !(interruption_id.0 > 0 && !st.interruption_ids.contains(interruption_id)) {
                Err(DomainError::InvalidState("duplicate interruption ID"))
            } else if !(interruption_kind != InterruptionKind::Distraction
                || session.kind.spec_is_work()) {
                Err(DomainError::InvalidState("break distraction event"))
            } else {
                Ok(
                    ScanModel {
                        facts: st.facts.update(
                            index,
                            SessionFacts {
                                open: Some(
                                    OpenInterruption {
                                        id: interruption_id,
                                        kind: interruption_kind,
                                        started_at: event.effective_at,
                                        recorded_at: event.recorded_at,
                                        clock_doubt: interruption_kind
                                            == InterruptionKind::ObservationGap && f.gap_doubt,
                                    },
                                ),
                                gap_doubt: false,
                                ..touched
                            },
                        ),
                        interruption_ids: st.interruption_ids.push(interruption_id),
                        max_interruption_id: if interruption_id.0 > st.max_interruption_id {
                            interruption_id.0
                        } else {
                            st.max_interruption_id
                        },
                        ..st
                    },
                )
            }
        },
        EventKind::InterruptionEnded { interruption_id, end } => match f.open {
            None => Err(DomainError::InvalidState("unpaired interruption end")),
            Some(open) => if !(interruption_id == open.id && end.ended_at == event.effective_at) {
                Err(DomainError::InvalidState("interruption end reference"))
            } else {
                match interruption_end_check(open, end, session, f.last_recorded) {
                    Err(e) => Err(e),
                    Ok(_) => {
                        let ended = end.outcome is SessionEnded;
                        Ok(
                            ScanModel {
                                facts: st.facts.update(
                                    index,
                                    SessionFacts {
                                        open: None,
                                        ended_by_interruption: ended,
                                        run_closed: ended,
                                        run_start: end.ended_at,
                                        ..touched
                                    },
                                ),
                                ..st
                            },
                        )
                    },
                }
            },
        },
        EventKind::QuickStartDecisionMade { decision } => {
            if !(is_completed_quick_start(session) && f.run_closed && f.open is None) {
                Err(DomainError::InvalidState("decision source"))
            } else if decision_for(st.decisions, event.session_id) is Some {
                Err(DomainError::InvalidState("duplicate quick start decision"))
            } else {
                Ok(
                    ScanModel {
                        facts: st.facts.update(index, touched),
                        decisions: st.decisions.push((event.session_id, decision)),
                        ..st
                    },
                )
            }
        },
        EventKind::ObservationGapDetected { last_confirmed_at, detected_at, reason } => {
            if !(last_confirmed_at == event.effective_at && detected_at == event.recorded_at) {
                Err(DomainError::InvalidState("gap timestamps"))
            } else if !(f.open is Some || (!f.run_closed && !f.ended_by_interruption)) {
                Err(DomainError::InvalidState("gap outside a session"))
            } else {
                let doubtful = reason == GapReason::ClockAnomaly || detected_at.0
                    < last_confirmed_at.0;
                let updated = match f.open {
                    Some(open) => SessionFacts {
                        open: Some(
                            OpenInterruption {
                                clock_doubt: open.clock_doubt || doubtful || recorded.0
                                    < open.recorded_at.0 || before_last(f.last_recorded, recorded),
                                ..open
                            },
                        ),
                        ..touched
                    },
                    None => SessionFacts { gap_doubt: doubtful, ..touched },
                };
                Ok(ScanModel { facts: st.facts.update(index, updated), ..st })
            }
        },
        _ => {
            if !(f.open is Some || (is_completed_quick_start(session) && f.run_closed
                && decision_for(st.decisions, event.session_id) is None)) {
                Err(DomainError::InvalidState("lifecycle outside an interruption"))
            } else {
                let updated = match f.open {
                    Some(open) => SessionFacts {
                        open: Some(
                            OpenInterruption {
                                clock_doubt: open.clock_doubt || recorded.0 < open.recorded_at.0
                                    || before_last(f.last_recorded, recorded),
                                ..open
                            },
                        ),
                        ..touched
                    },
                    None => touched,
                };
                Ok(ScanModel { facts: st.facts.update(index, updated), ..st })
            }
        },
    }
}

/// Reads one event: sequence, session reference, then its effect.
pub open spec fn scan_event(sessions: Seq<Session>, st: ScanModel, event: HistoryEvent) -> Result<
    ScanModel,
    DomainError,
> {
    if event.sequence != st.sequence {
        Err(DomainError::InvalidState("event sequence"))
    } else if st.sequence == u64::MAX {
        Err(DomainError::Overflow)
    } else {
        let index = find_session(sessions, event.session_id);
        if index < 0 {
            Err(DomainError::InvalidState("event session reference"))
        } else {
            event_effect(
                sessions[index],
                index,
                ScanModel { sequence: (st.sequence + 1) as u64, ..st },
                event,
            )
        }
    }
}

/// Reads the events in order, stopping at the first failure.
pub open spec fn scan_events(sessions: Seq<Session>, events: Seq<HistoryEvent>) -> Result<
    ScanModel,
    DomainError,
>
    decreases events.len(),
{
    if events.len() == 0 {
        Ok(initial_scan(sessions))
    } else {
        match scan_events(sessions, events.drop_last()) {
            Err(e) => Err(e),
            Ok(st) => scan_event(sessions, st, events.last()),
        }
    }
}

pub open spec fn same_open(open: OpenInterruption, interruption: Interruption) -> bool {
    open.id == interruption.id && open.kind == interruption.kind && open.started_at
        == interruption.started_at && open.recorded_at == interruption.recorded_at
}

/// The credited time of a session matches its events; an ended session ended
/// where its last run or interruption did.
pub open spec fn accounting_check(session: Session, facts: SessionFacts, state: ProgressState) -> Result<
    (),
    DomainError,
> {
    match state {
        ProgressState::Active { session: active, timer } if active.id == session.id => match timer {
            TimerState::Running { run } => then(
                ensure(facts.open is None && !facts.run_closed, "running with closed interval"),
                ensure(
                    run.elapsed_ms_at_start == facts.credited_ms && run.started_at
                        == facts.run_start,
                    "running accounting",
                ),
            ),
            TimerState::Interrupted { interruption } => then(
                ensure(
                    facts.open is Some && same_open(facts.open->0, interruption),
                    "snapshot interruption mismatch",
                ),
                then(
                    ensure(active.elapsed_ms == facts.credited_ms, "interrupted accounting"),
                    ensure(
                        !facts.open->0.clock_doubt || interruption.time_uncertainty is Some,
                        "interruption clock evidence",
                    ),
                ),
            ),
        },
        _ => then(
            ensure(
                facts.open is None && facts.run_closed && session.elapsed_ms == facts.credited_ms,
                "ended accounting",
            ),
            ensure(
                facts.ended_by_interruption || (session.end is Some && Some(session.end->0.ended_at)
                    == facts.run_end),
                "session end boundary",
            ),
        ),
    }
}

pub open spec fn accounting_checks(
    sessions: Seq<Session>,
    facts: Seq<SessionFacts>,
    state: ProgressState,
) -> Seq<(u64, Result<(), DomainError>)> {
    Seq::new(
        sessions.len(),
        |i: int| (sessions[i].id.0, accounting_check(sessions[i], facts[i], state)),
    )
}

/// A completed Quick Start is either awaited or decided; a continuation
/// points back at a decided Quick Start with its task.
pub open spec fn decision_check(
    session: Session,
    sessions: Seq<Session>,
    decisions: Seq<(SessionId, QuickStartDecision)>,
    state: ProgressState,
) -> Result<(), DomainError> {
    let awaiting = match state {
        ProgressState::AwaitingQuickStartDecision { quick_start_session_id, .. } =>
            quick_start_session_id == session.id,
        _ => false,
    };
    then(
        ensure(
            !is_completed_quick_start(session) || awaiting != decision_for(
                decisions,
                session.id,
            ) is Some,
            "quick start decision coverage",
        ),
        match session.continued_from_quick_start {
            None => Ok(()),
            Some(source_id) => {
                let index = find_session(sessions, source_id);
                if index < 0 {
                    Err(DomainError::InvalidState("continuation source"))
                } else {
                    then(
                        ensure(
                            is_completed_quick_start(sessions[index]) && task_view(
                                session.current_task,
                            ) == task_view(sessions[index].current_task),
                            "continuation task or source",
                        ),
                        ensure(
                            decision_for(decisions, source_id) == Some(
                                QuickStartDecision::Continue { focus_session_id: session.id },
                            ),
                            "continuation reverse reference",
                        ),
                    )
                }
            },
        },
    )
}

pub open spec fn decision_checks(
    sessions: Seq<Session>,
    decisions: Seq<(SessionId, QuickStartDecision)>,
    state: ProgressState,
) -> Seq<(u64, Result<(), DomainError>)> {
    Seq::new(
        sessions.len(),
        |i: int| (sessions[i].id.0, decision_check(sessions[i], sessions, decisions, state)),
    )
}

/// A continuation decision names a Focus that links back to its Quick Start.
pub open spec fn forward_check(
    source_id: SessionId,
    decision: QuickStartDecision,
    sessions: Seq<Session>,
) -> Result<(), DomainError> {
    match decision {
        QuickStartDecision::Continue { focus_session_id } => {
            let index = find_session(sessions, focus_session_id);
            if index < 0 {
                Err(DomainError::InvalidState("continuation target"))
            } else {
                ensure(
                    sessions[index].kind == SessionKind::Focus
                        && sessions[index].continued_from_quick_start == Some(source_id),
                    "continuation forward reference",
                )
            }
        },
        QuickStartDecision::Finish => Ok(()),
    }
}

pub open spec fn forward_checks(
    decisions: Seq<(SessionId, QuickStartDecision)>,
    sessions: Seq<Session>,
) -> Seq<(u64, Result<(), DomainError>)> {
    Seq::new(
        decisions.len(),
        |i: int| (decisions[i].0.0, forward_check(decisions[i].0, decisions[i].1, sessions)),
    )
}

/// What `DomainState::validate` returns for a domain unit: the first failing
/// check, in the order header, sessions, snapshot, events, allocators,
/// accounting, then Quick Start decisions.
pub open spec fn validation(m: DomainModel) -> Result<(), DomainError> {
    let all = all_sessions(m);
    then(
        header_check(m),
        then(
            recorded_sessions_check(m.sessions),
            then(
                active_check(m),
                then(
                    failure_result(least_failure(session_checks(all, m.ids.next_session_id))),
                    then(
                        snapshot_check(m.snapshot.state, all),
                        match scan_events(all, m.events) {
                            Err(e) => Err(e),
                            Ok(st) => then(
                                ensure(m.ids.next_event_sequence == st.sequence, "event allocator"),
                                then(
                                    ensure(
                                        st.max_interruption_id < m.ids.next_interruption_id,
                                        "interruption allocator",
                                    ),
                                    then(
                                        failure_result(
                                            least_failure(
                                                accounting_checks(all, st.facts, m.snapshot.state),
                                            ),
                                        ),
                                        then(
                                            failure_result(
                                                least_failure(
                                                    decision_checks(
                                                        all,
                                                        st.decisions,
                                                        m.snapshot.state,
                                                    ),
                                                ),
                                            ),
                                            failure_result(
                                                least_failure(forward_checks(st.decisions, all)),
                                            ),
                                        ),
                                    ),
                                ),
                            ),
                        },
                    ),
                ),
            ),
        ),
    )
}

/// A domain unit is consistent.
pub open spec fn is_consistent(m: DomainModel) -> bool {
    validation(m) is Ok
}

} // verus!
