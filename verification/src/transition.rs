//! The mathematical model of a domain unit and of every transition on it.
//! Executable transitions in `domain` are proved to compute exactly these.

use vstd::prelude::*;

use crate::config::TimerConfig;
use crate::model::{
    CurrentTask, DomainError, EventKind, GapReason, HistoryEvent, IdAllocators, Interruption,
    InterruptionEnd, InterruptionId, InterruptionKind, InterruptionOutcome, MeasuredDuration,
    PomodoroState, ProgressState, QuickStartChoice, QuickStartDecision, RoundProgress, RunState,
    Session, SessionEnd, SessionId, SessionKind, SessionOutcome, TimeUncertainty, TimerState,
    Timestamp,
};
use crate::observation::Observation;

verus! {

/// User and lifecycle input, separate from clock observation and persistence.
/// Session-scoped commands carry an ID so a completion cannot retarget the same
/// input to the next session.
#[derive(Debug, Clone, PartialEq, Eq)]
pub enum Command {
    SetCurrentTask(Option<CurrentTask>),
    Configure(TimerConfig),
    Start(SessionKind),
    Pause(SessionId),
    Distraction(SessionId),
    Resume(SessionId),
    Return(SessionId),
    End { session_id: SessionId, outcome: SessionOutcome },
    ResetReady,
    SkipReady,
    DecideQuickStart { session_id: SessionId, choice: QuickStartChoice },
    CloseApp,
    RestoreApp,
}

/// A domain unit as mathematics: snapshot, recorded sessions and events, and
/// the ID allocators.
pub struct DomainModel {
    pub snapshot: PomodoroState,
    pub sessions: Seq<Session>,
    pub events: Seq<HistoryEvent>,
    pub ids: IdAllocators,
}

pub open spec fn ready_state(kind: SessionKind, task: Option<CurrentTask>) -> ProgressState {
    ProgressState::Ready { next_kind: kind, current_task_draft: task }
}

pub open spec fn running_timer(at: Timestamp, elapsed_ms: u64) -> TimerState {
    TimerState::Running {
        run: RunState {
            started_at: at,
            elapsed_ms_at_start: elapsed_ms,
            last_confirmed_at: at,
            time_uncertainty: None,
        },
    }
}

/// `old` is unchanged as a prefix of `new`: sessions and events are only appended.
pub open spec fn history_extends(old: DomainModel, new: DomainModel) -> bool {
    &&& old.sessions.len() <= new.sessions.len()
    &&& new.sessions.subrange(0, old.sessions.len() as int) == old.sessions
    &&& old.events.len() <= new.events.len()
    &&& new.events.subrange(0, old.events.len() as int) == old.events
}

/// No allocator moves backward.
pub open spec fn allocators_grow(old: IdAllocators, new: IdAllocators) -> bool {
    &&& old.next_session_id <= new.next_session_id
    &&& old.next_interruption_id <= new.next_interruption_id
    &&& old.next_event_sequence <= new.next_event_sequence
}

/// What an executable step promises: the modelled result on success; on
/// failure the modelled error, with history only appended to and no
/// allocator moved backward.
pub open spec fn step_result(
    old: DomainModel,
    new: DomainModel,
    r: Result<(), DomainError>,
    model: Result<DomainModel, DomainError>,
) -> bool {
    &&& history_extends(old, new)
    &&& allocators_grow(old.ids, new.ids)
    &&& match r {
        Ok(_) => model == Ok::<DomainModel, DomainError>(new),
        Err(e) => model == Err::<DomainModel, DomainError>(e),
    }
}

/// Every model extends itself.
pub proof fn lemma_extends_refl(m: DomainModel)
    ensures
        history_extends(m, m),
{
    assert(m.sessions.subrange(0, m.sessions.len() as int) =~= m.sessions);
    assert(m.events.subrange(0, m.events.len() as int) =~= m.events);
}

/// Extension is transitive.
pub proof fn lemma_extends_trans(a: DomainModel, b: DomainModel, c: DomainModel)
    requires
        history_extends(a, b),
        history_extends(b, c),
    ensures
        history_extends(a, c),
{
    assert(c.sessions.subrange(0, a.sessions.len() as int) =~= b.sessions.subrange(
        0,
        a.sessions.len() as int,
    ));
    assert(c.events.subrange(0, a.events.len() as int) =~= b.events.subrange(
        0,
        a.events.len() as int,
    ));
}

/// Appending one event or session extends the history.
pub proof fn lemma_extends_push(m: DomainModel, n: DomainModel)
    requires
        n.sessions == m.sessions || (n.sessions.len() == m.sessions.len() + 1 && n.sessions.drop_last() == m.sessions),
        n.events == m.events || (n.events.len() == m.events.len() + 1 && n.events.drop_last() == m.events),
    ensures
        history_extends(m, n),
{
    assert(n.sessions.subrange(0, m.sessions.len() as int) =~= m.sessions);
    assert(n.events.subrange(0, m.events.len() as int) =~= m.events);
}

impl DomainModel {
    /// Ready for Focus with no task, no history, and every allocator at one.
    pub open spec fn initial(settings: TimerConfig) -> DomainModel {
        DomainModel {
            snapshot: PomodoroState {
                settings,
                round_progress: RoundProgress { completed_focuses_in_round: 0 },
                state: ready_state(SessionKind::Focus, None),
            },
            sessions: Seq::empty(),
            events: Seq::empty(),
            ids: IdAllocators::initial(),
        }
    }

    pub open spec fn with_state(self, state: ProgressState) -> DomainModel {
        DomainModel { snapshot: PomodoroState { state, ..self.snapshot }, ..self }
    }

    /// Replaces the timer of the active session.
    pub open spec fn with_timer(self, timer: TimerState) -> DomainModel {
        match self.snapshot.state {
            ProgressState::Active { session, .. } => self.with_state(
                ProgressState::Active { session, timer },
            ),
            _ => self,
        }
    }

    pub open spec fn with_round(self, completed: u32) -> DomainModel {
        DomainModel {
            snapshot: PomodoroState {
                round_progress: RoundProgress { completed_focuses_in_round: completed },
                ..self.snapshot
            },
            ..self
        }
    }

    /// Appends one event with the next sequence number.
    pub open spec fn emit(
        self,
        session_id: SessionId,
        effective_at: Timestamp,
        recorded_at: Timestamp,
        payload: EventKind,
    ) -> Result<DomainModel, DomainError> {
        if self.ids.next_event_sequence == u64::MAX {
            Err(DomainError::Overflow)
        } else {
            Ok(
                DomainModel {
                    events: self.events.push(
                        HistoryEvent {
                            sequence: self.ids.next_event_sequence,
                            session_id,
                            effective_at,
                            recorded_at,
                            payload,
                        },
                    ),
                    ids: IdAllocators {
                        next_event_sequence: (self.ids.next_event_sequence + 1) as u64,
                        ..self.ids
                    },
                    ..self
                },
            )
        }
    }

    /// Records the running interval of the active session.
    pub open spec fn close_run(self, recorded_at: Timestamp) -> Result<DomainModel, DomainError> {
        match self.snapshot.state {
            ProgressState::Active { session, timer } => match timer {
                TimerState::Running { run } => if session.elapsed_ms < run.elapsed_ms_at_start {
                    Err(DomainError::InvalidState("run boundary"))
                } else {
                    self.emit(
                        session.id,
                        run.last_confirmed_at,
                        recorded_at,
                        EventKind::RunIntervalRecorded {
                            started_at: run.started_at,
                            ended_at: run.last_confirmed_at,
                            credited_ms: (session.elapsed_ms - run.elapsed_ms_at_start) as u64,
                            time_uncertainty: run.time_uncertainty,
                        },
                    )
                },
                TimerState::Interrupted { .. } => Err(DomainError::InvalidOperation),
            },
            _ => Err(DomainError::InvalidOperation),
        }
    }

    /// Closes the run and opens an interruption of the active session.
    pub open spec fn interrupt(
        self,
        kind: InterruptionKind,
        boundary: Timestamp,
        recorded_at: Timestamp,
        uncertainty: Option<TimeUncertainty>,
    ) -> Result<DomainModel, DomainError> {
        match self.close_run(recorded_at) {
            Err(e) => Err(e),
            Ok(m1) => if m1.ids.next_interruption_id == u64::MAX {
                Err(DomainError::Overflow)
            } else {
                let id = InterruptionId(m1.ids.next_interruption_id);
                let m2 = DomainModel {
                    ids: IdAllocators {
                        next_interruption_id: (m1.ids.next_interruption_id + 1) as u64,
                        ..m1.ids
                    },
                    ..m1
                };
                match m2.snapshot.state {
                    ProgressState::Active { session, .. } => match m2.emit(
                        session.id,
                        boundary,
                        recorded_at,
                        EventKind::InterruptionStarted { interruption_id: id, interruption_kind: kind },
                    ) {
                        Err(e) => Err(e),
                        Ok(m3) => Ok(
                            m3.with_timer(
                                TimerState::Interrupted {
                                    interruption: Interruption {
                                        id,
                                        kind,
                                        started_at: boundary,
                                        recorded_at,
                                        time_uncertainty: uncertainty,
                                        end: None,
                                    },
                                },
                            ),
                        ),
                    },
                    _ => Err(DomainError::InvalidOperation),
                }
            },
        }
    }

    /// Marks the open interruption's duration unknown when `at` precedes its
    /// recording or the session's last recorded event.
    pub open spec fn mark_clock_uncertainty(self, at: Timestamp) -> DomainModel {
        match self.snapshot.state {
            ProgressState::Active { session, timer } => match timer {
                TimerState::Interrupted { interruption } => {
                    let last = last_recorded_at(self.events, session.id);
                    if at.0 < interruption.recorded_at.0 || (last is Some && at.0 < (last->0).0) {
                        let uncertainty = if interruption.time_uncertainty is Some {
                            interruption.time_uncertainty
                        } else {
                            Some(TimeUncertainty::ClockMovedBackward)
                        };
                        self.with_timer(
                            TimerState::Interrupted {
                                interruption: Interruption {
                                    time_uncertainty: uncertainty,
                                    ..interruption
                                },
                            },
                        )
                    } else {
                        self
                    }
                },
                _ => self,
            },
            _ => self,
        }
    }

    /// Records the end of the open interruption.
    pub open spec fn close_interruption(self, outcome: InterruptionOutcome, at: Timestamp) -> Result<
        DomainModel,
        DomainError,
    > {
        match self.snapshot.state {
            ProgressState::Active { session, timer } => match timer {
                TimerState::Interrupted { interruption } => self.emit(
                    session.id,
                    at,
                    at,
                    EventKind::InterruptionEnded {
                        interruption_id: interruption.id,
                        end: InterruptionEnd {
                            ended_at: at,
                            outcome,
                            duration: interruption_duration(interruption, at),
                        },
                    },
                ),
                TimerState::Running { .. } => Err(DomainError::InvalidOperation),
            },
            _ => Err(DomainError::InvalidOperation),
        }
    }

    /// `Pause` or `Distraction` may target only the running, just-observed session.
    pub open spec fn require_running(self, id: SessionId, at: Timestamp) -> Result<(), DomainError> {
        match self.snapshot.state {
            ProgressState::Active { session, timer } => if session.id != id {
                Err(DomainError::WrongSession)
            } else {
                match timer {
                    TimerState::Running { run } => if run.last_confirmed_at != at {
                        Err(DomainError::ObservationRequired)
                    } else {
                        Ok(())
                    },
                    TimerState::Interrupted { .. } => Err(DomainError::InvalidOperation),
                }
            },
            _ => Err(DomainError::WrongSession),
        }
    }

    /// Resumes (or returns from a distraction in) the interrupted session.
    pub open spec fn resume(self, id: SessionId, returning: bool, at: Timestamp) -> Result<
        DomainModel,
        DomainError,
    > {
        match self.snapshot.state {
            ProgressState::Active { session, timer } => if session.id != id {
                Err(DomainError::WrongSession)
            } else {
                match timer {
                    TimerState::Interrupted { interruption } => if (interruption.kind
                        == InterruptionKind::Distraction) != returning {
                        Err(DomainError::InvalidOperation)
                    } else {
                        let outcome = if returning {
                            InterruptionOutcome::Returned
                        } else {
                            InterruptionOutcome::Resumed
                        };
                        match self.mark_clock_uncertainty(at).close_interruption(outcome, at) {
                            Err(e) => Err(e),
                            Ok(m2) => Ok(m2.with_timer(running_timer(at, session.elapsed_ms))),
                        }
                    },
                    TimerState::Running { .. } => Err(DomainError::InvalidOperation),
                }
            },
            _ => Err(DomainError::WrongSession),
        }
    }

    /// The kind that follows `kind` ended with `outcome`, with its effect on
    /// round progress.
    pub open spec fn next_kind(self, kind: SessionKind, outcome: SessionOutcome) -> Result<
        (DomainModel, SessionKind),
        DomainError,
    > {
        let limit = self.snapshot.settings.spec_focuses_before_long_break();
        if outcome == SessionOutcome::Reset {
            Ok((self, kind))
        } else {
            let m1 = if kind == SessionKind::LongBreak {
                self.with_round(0)
            } else {
                self
            };
            let count = m1.snapshot.round_progress.completed_focuses_in_round;
            if outcome == SessionOutcome::Cancelled {
                Ok((m1, SessionKind::Focus))
            } else if kind == SessionKind::Focus {
                if outcome == SessionOutcome::Completed {
                    if count == u32::MAX {
                        Err(DomainError::Overflow)
                    } else if count + 1 > limit {
                        Err(DomainError::InvalidState("round progress"))
                    } else {
                        Ok(
                            (
                                m1.with_round((count + 1) as u32),
                                if count + 1 >= limit {
                                    SessionKind::LongBreak
                                } else {
                                    SessionKind::ShortBreak
                                },
                            ),
                        )
                    }
                } else {
                    Ok(
                        (
                            m1,
                            if count >= limit {
                                SessionKind::LongBreak
                            } else {
                                SessionKind::ShortBreak
                            },
                        ),
                    )
                }
            } else {
                Ok((m1, SessionKind::Focus))
            }
        }
    }

    /// Ends the active session with `outcome`: closes its run or interruption,
    /// records it, and moves to the next Ready state or the Quick Start decision.
    pub open spec fn end_session(self, outcome: SessionOutcome, at: Timestamp) -> Result<
        DomainModel,
        DomainError,
    > {
        match self.snapshot.state {
            ProgressState::Active { session, timer } => {
                let closed = match timer {
                    TimerState::Running { run } => if run.last_confirmed_at != at {
                        Err(DomainError::ObservationRequired)
                    } else {
                        self.close_run(at)
                    },
                    TimerState::Interrupted { .. } => self.mark_clock_uncertainty(
                        at,
                    ).close_interruption(
                        InterruptionOutcome::SessionEnded { session_outcome: outcome },
                        at,
                    ),
                };
                match closed {
                    Err(e) => Err(e),
                    Ok(m1) => {
                        let ended = Session {
                            end: Some(SessionEnd { ended_at: at, outcome }),
                            ..session
                        };
                        if session.kind == SessionKind::QuickStart && outcome
                            == SessionOutcome::Completed {
                            let m2 = m1.with_state(
                                ProgressState::AwaitingQuickStartDecision {
                                    quick_start_session_id: session.id,
                                    current_task: session.current_task,
                                },
                            );
                            Ok(DomainModel { sessions: m2.sessions.push(ended), ..m2 })
                        } else {
                            match m1.next_kind(session.kind, outcome) {
                                Err(e) => Err(e),
                                Ok((m2, next)) => {
                                    let task = if outcome == SessionOutcome::Reset {
                                        session.current_task
                                    } else {
                                        None
                                    };
                                    let m3 = m2.with_state(ready_state(next, task));
                                    Ok(DomainModel { sessions: m3.sessions.push(ended), ..m3 })
                                },
                            }
                        }
                    },
                }
            },
            _ => Err(DomainError::InvalidOperation),
        }
    }

    /// Starts a fresh session with the next session ID and a full planned duration.
    pub open spec fn start_session(
        self,
        kind: SessionKind,
        task: Option<CurrentTask>,
        source: Option<SessionId>,
        at: Timestamp,
    ) -> Result<(DomainModel, SessionId), DomainError> {
        if self.ids.next_session_id == u64::MAX {
            Err(DomainError::Overflow)
        } else {
            let id = SessionId(self.ids.next_session_id);
            let session = Session {
                id,
                kind,
                current_task: task,
                planned_duration_ms: (self.snapshot.settings.spec_duration_seconds(kind)
                    * 1000) as u64,
                started_at: at,
                elapsed_ms: 0,
                continued_from_quick_start: source,
                end: None,
            };
            let m1 = DomainModel {
                ids: IdAllocators {
                    next_session_id: (self.ids.next_session_id + 1) as u64,
                    ..self.ids
                },
                ..self
            };
            Ok((m1.with_state(ProgressState::Active { session, timer: running_timer(at, 0) }), id))
        }
    }

    /// Starts the Ready session; Focus and Quick Start may replace each other.
    pub open spec fn start_ready(self, kind: SessionKind, at: Timestamp) -> Result<
        DomainModel,
        DomainError,
    > {
        match self.snapshot.state {
            ProgressState::Ready { next_kind, current_task_draft } => if next_kind != kind && !(
            next_kind.spec_is_work() && kind.spec_is_work()) {
                Err(DomainError::InvalidOperation)
            } else {
                match self.start_session(kind, current_task_draft, None, at) {
                    Err(e) => Err(e),
                    Ok((m1, _)) => Ok(m1),
                }
            },
            _ => Err(DomainError::InvalidOperation),
        }
    }

    /// Finishes a completed Quick Start or continues it as a linked Focus.
    pub open spec fn decide(self, id: SessionId, choice: QuickStartChoice, at: Timestamp) -> Result<
        DomainModel,
        DomainError,
    > {
        match self.snapshot.state {
            ProgressState::AwaitingQuickStartDecision { quick_start_session_id, current_task } => {
                if quick_start_session_id != id {
                    Err(DomainError::WrongSession)
                } else {
                    match choice {
                        QuickStartChoice::Finish => self.with_state(
                            ready_state(SessionKind::Focus, current_task),
                        ).emit(
                            id,
                            at,
                            at,
                            EventKind::QuickStartDecisionMade {
                                decision: QuickStartDecision::Finish,
                            },
                        ),
                        QuickStartChoice::Continue => match self.start_session(
                            SessionKind::Focus,
                            current_task,
                            Some(id),
                            at,
                        ) {
                            Err(e) => Err(e),
                            Ok((m1, focus_session_id)) => m1.emit(
                                id,
                                at,
                                at,
                                EventKind::QuickStartDecisionMade {
                                    decision: QuickStartDecision::Continue { focus_session_id },
                                },
                            ),
                        },
                    }
                }
            },
            _ => Err(DomainError::InvalidOperation),
        }
    }

    /// The session that lifecycle events belong to, if any.
    pub open spec fn lifecycle_session(self) -> Option<SessionId> {
        match self.snapshot.state {
            ProgressState::Active { session, .. } => Some(session.id),
            ProgressState::AwaitingQuickStartDecision { quick_start_session_id, .. } => Some(
                quick_start_session_id,
            ),
            ProgressState::Ready { .. } => None,
        }
    }

    /// Emits a lifecycle event after marking clock uncertainty at `at`.
    pub open spec fn lifecycle(self, at: Timestamp, payload: EventKind) -> Result<
        DomainModel,
        DomainError,
    > {
        let m = self.mark_clock_uncertainty(at);
        match m.lifecycle_session() {
            Some(id) => m.emit(id, at, at, payload),
            None => Ok(m),
        }
    }

    /// Closing the application interrupts a running session (which must have
    /// been observed at `at`) as an application exit.
    pub open spec fn close_app(self, at: Timestamp) -> Result<DomainModel, DomainError> {
        let stopped = match self.snapshot.state {
            ProgressState::Active { session, timer } => match timer {
                TimerState::Running { .. } => match self.require_running(session.id, at) {
                    Err(e) => Err(e),
                    Ok(_) => self.interrupt(InterruptionKind::AppExit, at, at, None),
                },
                _ => Ok(self),
            },
            _ => Ok(self),
        };
        match stopped {
            Err(e) => Err(e),
            Ok(m1) => m1.lifecycle(at, EventKind::AppClosing),
        }
    }

    /// Restoring a running snapshot records the offline time as a restart gap.
    pub open spec fn restore_app(self, at: Timestamp) -> Result<DomainModel, DomainError> {
        let stopped = match self.snapshot.state {
            ProgressState::Active { timer, .. } => match timer {
                TimerState::Running { run } => self.record_gap(
                    run.last_confirmed_at,
                    at,
                    GapReason::Restart,
                    if at.0 < run.last_confirmed_at.0 {
                        Some(TimeUncertainty::ClockMovedBackward)
                    } else {
                        None
                    },
                ),
                _ => Ok(self),
            },
            _ => Ok(self),
        };
        match stopped {
            Err(e) => Err(e),
            Ok(m1) => m1.lifecycle(at, EventKind::AppRestored),
        }
    }

    /// Records an observation gap; a running session is interrupted at the
    /// boundary, an interrupted one keeps its first clock uncertainty.
    pub open spec fn record_gap(
        self,
        boundary: Timestamp,
        at: Timestamp,
        reason: GapReason,
        uncertainty: Option<TimeUncertainty>,
    ) -> Result<DomainModel, DomainError> {
        match self.snapshot.state {
            ProgressState::Active { session, timer } => match self.emit(
                session.id,
                boundary,
                at,
                EventKind::ObservationGapDetected {
                    last_confirmed_at: boundary,
                    detected_at: at,
                    reason,
                },
            ) {
                Err(e) => Err(e),
                Ok(m1) => match timer {
                    TimerState::Running { .. } => m1.interrupt(
                        InterruptionKind::ObservationGap,
                        boundary,
                        at,
                        uncertainty,
                    ),
                    TimerState::Interrupted { interruption } => Ok(
                        m1.with_timer(
                            TimerState::Interrupted {
                                interruption: Interruption {
                                    time_uncertainty: if interruption.time_uncertainty is Some {
                                        interruption.time_uncertainty
                                    } else {
                                        uncertainty
                                    },
                                    ..interruption
                                },
                            },
                        ),
                    ),
                },
            },
            _ => Err(DomainError::InvalidOperation),
        }
    }

    /// Applies clock evidence: credits continuous time (up to the plan) to a
    /// running session and completes it, or records a gap.
    pub open spec fn observe(self, observation: Observation) -> Result<DomainModel, DomainError> {
        match self.snapshot.state {
            ProgressState::Active { .. } => {
                let m1 = self.mark_clock_uncertainty(observation.at);
                match m1.snapshot.state {
                    ProgressState::Active { session, timer } => match classify_against(
                        observation,
                        timer,
                    ) {
                        Err((reason, uncertainty)) => m1.record_gap(
                            match timer {
                                TimerState::Running { run } => run.last_confirmed_at,
                                TimerState::Interrupted { .. } => observation.previous_at,
                            },
                            observation.at,
                            reason,
                            uncertainty,
                        ),
                        Ok(elapsed) => match timer {
                            TimerState::Running { run } => {
                                let remaining = session.spec_remaining_ms();
                                let credit = if elapsed < remaining {
                                    elapsed
                                } else {
                                    remaining
                                };
                                let credited = Session {
                                    elapsed_ms: (session.elapsed_ms + credit) as u64,
                                    ..session
                                };
                                let m2 = m1.with_state(
                                    ProgressState::Active {
                                        session: credited,
                                        timer: TimerState::Running {
                                            run: RunState { last_confirmed_at: observation.at, ..run },
                                        },
                                    },
                                );
                                if credited.spec_remaining_ms() == 0 {
                                    m2.end_session(SessionOutcome::Completed, observation.at)
                                } else {
                                    Ok(m2)
                                }
                            },
                            TimerState::Interrupted { .. } => Ok(m1),
                        },
                    },
                    _ => Ok(m1),
                }
            },
            _ => Ok(self),
        }
    }

    /// Applies one command; see [`Command`].
    pub open spec fn apply(self, command: Command, at: Timestamp) -> Result<DomainModel, DomainError> {
        match command {
            Command::SetCurrentTask(task) => match self.snapshot.state {
                ProgressState::Ready { next_kind, .. } => if !next_kind.spec_is_work() {
                    Err(DomainError::InvalidOperation)
                } else {
                    Ok(self.with_state(ready_state(next_kind, task)))
                },
                _ => Err(DomainError::InvalidOperation),
            },
            Command::Configure(settings) => match self.snapshot.state {
                ProgressState::Ready { .. } => match settings.validation() {
                    Err(e) => Err(DomainError::InvalidConfig(e)),
                    Ok(_) => Ok(
                        DomainModel {
                            snapshot: PomodoroState {
                                settings,
                                round_progress: RoundProgress { completed_focuses_in_round: 0 },
                                ..self.snapshot
                            },
                            ..self
                        },
                    ),
                },
                _ => Err(DomainError::InvalidOperation),
            },
            Command::Start(kind) => self.start_ready(kind, at),
            Command::Pause(id) => match self.require_running(id, at) {
                Err(e) => Err(e),
                Ok(_) => self.interrupt(InterruptionKind::Pause, at, at, None),
            },
            Command::Distraction(id) => match self.require_running(id, at) {
                Err(e) => Err(e),
                Ok(_) => if !active_is_work(self.snapshot.state) {
                    Err(DomainError::InvalidOperation)
                } else {
                    self.interrupt(InterruptionKind::Distraction, at, at, None)
                },
            },
            Command::Resume(id) => self.resume(id, false, at),
            Command::Return(id) => self.resume(id, true, at),
            Command::End { session_id, outcome } => if outcome == SessionOutcome::Completed {
                Err(DomainError::InvalidOperation)
            } else {
                match self.snapshot.state {
                    ProgressState::Active { session, .. } => if session.id != session_id {
                        Err(DomainError::WrongSession)
                    } else {
                        self.end_session(outcome, at)
                    },
                    _ => Err(DomainError::WrongSession),
                }
            },
            Command::ResetReady => match self.snapshot.state {
                ProgressState::Ready { .. } => Ok(self),
                _ => Err(DomainError::InvalidOperation),
            },
            Command::SkipReady => match self.snapshot.state {
                ProgressState::Ready { next_kind, .. } => match self.next_kind(
                    next_kind,
                    SessionOutcome::Skipped,
                ) {
                    Err(e) => Err(e),
                    Ok((m1, next)) => Ok(m1.with_state(ready_state(next, None))),
                },
                _ => Err(DomainError::InvalidOperation),
            },
            Command::DecideQuickStart { session_id, choice } => self.decide(session_id, choice, at),
            Command::CloseApp => self.close_app(at),
            Command::RestoreApp => self.restore_app(at),
        }
    }
}

/// Deciding a completed Quick Start. Finishing moves to Ready for a Focus
/// whose draft is the task the decision was awaiting with, and records the
/// decision as the next event of the Quick Start; sessions, round and settings
/// stay. Continuing starts a new running Focus with the same task, linked back
/// to the Quick Start, and records the decision naming it. A decision for
/// another session is refused as the wrong session, and one while no decision
/// is awaited as an invalid operation.
pub proof fn lemma_quick_start_decision(
    m: DomainModel,
    id: SessionId,
    choice: QuickStartChoice,
    at: Timestamp,
)
    requires
        m.ids.next_event_sequence < u64::MAX,
        m.ids.next_session_id < u64::MAX,
    ensures
        ({
            let r = m.apply(Command::DecideQuickStart { session_id: id, choice }, at);
            match m.snapshot.state {
                ProgressState::AwaitingQuickStartDecision { quick_start_session_id, current_task } => {
                    let decided = |decision: QuickStartDecision|
                        HistoryEvent {
                            sequence: m.ids.next_event_sequence,
                            session_id: id,
                            effective_at: at,
                            recorded_at: at,
                            payload: EventKind::QuickStartDecisionMade { decision },
                        };
                    if quick_start_session_id != id {
                        r == Err::<DomainModel, DomainError>(DomainError::WrongSession)
                    } else {
                        r matches Ok(n) && n.sessions == m.sessions && n.snapshot.settings
                            == m.snapshot.settings && n.snapshot.round_progress
                            == m.snapshot.round_progress && n.ids.next_event_sequence
                            == m.ids.next_event_sequence + 1 && match choice {
                            QuickStartChoice::Finish => {
                                &&& n.snapshot.state == ProgressState::Ready {
                                    next_kind: SessionKind::Focus,
                                    current_task_draft: current_task,
                                }
                                &&& n.events == m.events.push(decided(QuickStartDecision::Finish))
                                &&& n.ids.next_session_id == m.ids.next_session_id
                            },
                            QuickStartChoice::Continue => {
                                let focus = SessionId(m.ids.next_session_id);
                                &&& n.snapshot.state matches ProgressState::Active { session, timer }
                                &&& n.snapshot.state->session.id == focus
                                &&& n.snapshot.state->session.kind == SessionKind::Focus
                                &&& n.snapshot.state->session.current_task == current_task
                                &&& n.snapshot.state->session.continued_from_quick_start == Some(id)
                                &&& n.snapshot.state->session.started_at == at
                                &&& n.snapshot.state->session.elapsed_ms == 0
                                &&& n.snapshot.state->session.end is None
                                &&& n.events == m.events.push(
                                    decided(QuickStartDecision::Continue { focus_session_id: focus }),
                                )
                                &&& n.ids.next_session_id == m.ids.next_session_id + 1
                            },
                        }
                    }
                },
                _ => r == Err::<DomainModel, DomainError>(DomainError::InvalidOperation),
            }
        }),
{
}

/// What follows a session that ends or is skipped, and what it does to the
/// round. A reset keeps the kind and the round. Otherwise a Long Break that
/// ends starts a new round, and a cancelled session is followed by a Focus.
/// A completed Focus counts one more focus in the round (refused when the
/// round is already full) and is followed by a Long Break exactly when the
/// round then reaches the configured number of focuses before a long break,
/// else by a Short Break; a Focus that ends otherwise counts nothing and is
/// followed by a Long Break exactly when the round is already full. Any other
/// session is followed by a Focus. Nothing but the round changes.
pub proof fn lemma_round_progress(m: DomainModel, kind: SessionKind, outcome: SessionOutcome)
    ensures
        ({
            let limit = m.snapshot.settings.spec_focuses_before_long_break();
            let count = m.snapshot.round_progress.completed_focuses_in_round;
            let r = m.next_kind(kind, outcome);
            let kept = if kind == SessionKind::LongBreak {
                0
            } else {
                count
            };
            let n = r->Ok_0.0;
            let next = r->Ok_0.1;
            let after = n.snapshot.round_progress.completed_focuses_in_round;
            &&& r is Ok ==> n == m.with_round(after)
            &&& outcome == SessionOutcome::Reset ==> r == Ok::<(DomainModel, SessionKind), DomainError>((m, kind))
            &&& outcome == SessionOutcome::Cancelled ==> r is Ok && next == SessionKind::Focus
                && after == kept
            &&& (kind == SessionKind::Focus && outcome == SessionOutcome::Completed) ==> if count
                >= limit {
                r is Err
            } else {
                &&& r is Ok
                &&& after == count + 1
                &&& next == SessionKind::LongBreak <==> count + 1 >= limit
                &&& next == SessionKind::ShortBreak <==> count + 1 < limit
            }
            &&& (kind == SessionKind::Focus && outcome == SessionOutcome::Skipped) ==> {
                &&& r is Ok
                &&& after == count
                &&& next == SessionKind::LongBreak <==> count >= limit
                &&& next == SessionKind::ShortBreak <==> count < limit
            }
            &&& (kind != SessionKind::Focus && (outcome == SessionOutcome::Completed || outcome
                == SessionOutcome::Skipped)) ==> r is Ok && next == SessionKind::Focus && after
                == kept
        }),
{
}

/// Starting from Ready begins a running session of the requested kind (the
/// ready kind, or Focus and Quick Start in place of each other) with the next
/// session ID, the drafted task, the configured length, nothing elapsed, and
/// no end; history, round and settings stay. Any other start is refused.
pub proof fn lemma_start_session(m: DomainModel, kind: SessionKind, at: Timestamp)
    requires
        m.ids.next_session_id < u64::MAX,
    ensures
        ({
            let r = m.apply(Command::Start(kind), at);
            match m.snapshot.state {
                ProgressState::Ready { next_kind, current_task_draft } => if next_kind == kind || ((
                next_kind == SessionKind::Focus || next_kind == SessionKind::QuickStart) && (kind
                    == SessionKind::Focus || kind == SessionKind::QuickStart)) {
                    &&& r matches Ok(n)
                    &&& n.snapshot.state matches ProgressState::Active { session, timer }
                    &&& n.snapshot.state->session == (Session {
                        id: SessionId(m.ids.next_session_id),
                        kind,
                        current_task: current_task_draft,
                        planned_duration_ms: (m.snapshot.settings.spec_duration_seconds(kind)
                            * 1000) as u64,
                        started_at: at,
                        elapsed_ms: 0,
                        continued_from_quick_start: None,
                        end: None,
                    })
                    &&& n.snapshot.state->timer matches TimerState::Running { run } && run.started_at
                        == at && run.elapsed_ms_at_start == 0
                    &&& n.sessions == m.sessions && n.events == m.events
                    &&& n.snapshot.settings == m.snapshot.settings
                    &&& n.snapshot.round_progress == m.snapshot.round_progress
                    &&& n.ids.next_session_id == m.ids.next_session_id + 1
                } else {
                    r == Err::<DomainModel, DomainError>(DomainError::InvalidOperation)
                },
                _ => r == Err::<DomainModel, DomainError>(DomainError::InvalidOperation),
            }
        }),
{
}

/// Ending the active session records it, unchanged but for its end at `at`
/// with the outcome, after the sessions already recorded. A completed Quick
/// Start then awaits its decision with its task; any other session leads to
/// Ready, keeping the task only after a reset.
pub proof fn lemma_end_session(m: DomainModel, outcome: SessionOutcome, at: Timestamp)
    ensures
        m.end_session(outcome, at) matches Ok(n) ==> m.snapshot.state matches ProgressState::Active {
            session,
            ..
        } && n.sessions == m.sessions.push(
            Session { end: Some(SessionEnd { ended_at: at, outcome }), ..session },
        ) && if session.kind == SessionKind::QuickStart && outcome == SessionOutcome::Completed {
            n.snapshot.state == (ProgressState::AwaitingQuickStartDecision {
                quick_start_session_id: session.id,
                current_task: session.current_task,
            })
        } else {
            n.snapshot.state matches ProgressState::Ready { current_task_draft, .. }
                && current_task_draft == if outcome == SessionOutcome::Reset {
                session.current_task
            } else {
                None
            }
        },
{
    if let ProgressState::Active { session, timer } = m.snapshot.state {
        let closed = match timer {
            TimerState::Running { run } => if run.last_confirmed_at != at {
                Err(DomainError::ObservationRequired)
            } else {
                m.close_run(at)
            },
            TimerState::Interrupted { .. } => m.mark_clock_uncertainty(at).close_interruption(
                InterruptionOutcome::SessionEnded { session_outcome: outcome },
                at,
            ),
        };
        if let Ok(m1) = closed {
            if !(session.kind == SessionKind::QuickStart && outcome == SessionOutcome::Completed) {
                lemma_round_progress(m1, session.kind, outcome);
            }
        }
    }
}

/// The active session is interrupted by an interruption of `kind` that began
/// at `at` and has not ended.
pub open spec fn interrupted_as(state: ProgressState, kind: InterruptionKind, at: Timestamp) -> bool {
    match state {
        ProgressState::Active { timer: TimerState::Interrupted { interruption }, .. } =>
            interruption.kind == kind && interruption.started_at == at && interruption.end is None,
        _ => false,
    }
}

/// The active session is running, in a run that began at `at`.
pub open spec fn running_from(state: ProgressState, at: Timestamp) -> bool {
    match state {
        ProgressState::Active { timer: TimerState::Running { run }, .. } => run.started_at == at,
        _ => false,
    }
}

/// The active session is running.
pub open spec fn is_running(state: ProgressState) -> bool {
    state matches ProgressState::Active { timer: TimerState::Running { .. }, .. }
}

/// The kind of the active session's open interruption, if it is interrupted.
pub open spec fn open_interruption_kind(state: ProgressState) -> Option<InterruptionKind> {
    match state {
        ProgressState::Active { timer: TimerState::Interrupted { interruption }, .. } => Some(
            interruption.kind,
        ),
        _ => None,
    }
}

/// What each interrupting command leaves: a Pause opens an interruption of
/// kind Pause, a Distraction one of kind Distraction, and closing the
/// application while a session runs one of kind AppExit, each beginning at the
/// command's time. Only a Distraction is returned from; every other
/// interruption is resumed; either way the session runs again from that time.
pub proof fn lemma_interruption_commands(m: DomainModel, id: SessionId, at: Timestamp)
    ensures
        m.apply(Command::Pause(id), at) is Ok ==> interrupted_as(
            m.apply(Command::Pause(id), at)->Ok_0.snapshot.state,
            InterruptionKind::Pause,
            at,
        ),
        m.apply(Command::Distraction(id), at) is Ok ==> interrupted_as(
            m.apply(Command::Distraction(id), at)->Ok_0.snapshot.state,
            InterruptionKind::Distraction,
            at,
        ),
        is_running(m.snapshot.state) && m.apply(Command::CloseApp, at) is Ok ==> interrupted_as(
            m.apply(Command::CloseApp, at)->Ok_0.snapshot.state,
            InterruptionKind::AppExit,
            at,
        ),
        m.apply(Command::Return(id), at) is Ok ==> open_interruption_kind(m.snapshot.state)
            == Some(InterruptionKind::Distraction) && running_from(
            m.apply(Command::Return(id), at)->Ok_0.snapshot.state,
            at,
        ),
        m.apply(Command::Resume(id), at) is Ok ==> open_interruption_kind(m.snapshot.state) is Some
            && open_interruption_kind(m.snapshot.state) != Some(InterruptionKind::Distraction)
            && running_from(m.apply(Command::Resume(id), at)->Ok_0.snapshot.state, at),
{
}

/// Whether the active session is Focus or Quick Start.
pub open spec fn active_is_work(state: ProgressState) -> bool {
    match state {
        ProgressState::Active { session, .. } => session.kind.spec_is_work(),
        _ => false,
    }
}

/// The recording time of the last event of `session_id`.
pub open spec fn last_recorded_at(events: Seq<HistoryEvent>, session_id: SessionId) -> Option<
    Timestamp,
>
    decreases events.len(),
{
    if events.len() == 0 {
        None
    } else if events.last().session_id == session_id {
        Some(events.last().recorded_at)
    } else {
        last_recorded_at(events.drop_last(), session_id)
    }
}

/// The measured length of an interruption ending at `at`: unknown once the
/// clock is in doubt or ran backward.
pub open spec fn interruption_duration(interruption: Interruption, at: Timestamp) -> MeasuredDuration {
    match interruption.time_uncertainty {
        Some(reason) => MeasuredDuration::Unknown { reason },
        None => if at.0 >= interruption.started_at.0 && at.0 >= interruption.recorded_at.0 {
            MeasuredDuration::Known { elapsed_ms: (at.0 - interruption.started_at.0) as u64 }
        } else {
            MeasuredDuration::Unknown { reason: TimeUncertainty::ClockMovedBackward }
        },
    }
}

/// Classifies an observation against the current timer: a running timer also
/// requires the pair to continue from its last confirmed time.
pub open spec fn classify_against(observation: Observation, timer: TimerState) -> Result<
    u64,
    (GapReason, Option<TimeUncertainty>),
> {
    match timer {
        TimerState::Running { run } => if observation.at.0 < run.last_confirmed_at.0 {
            Err((GapReason::ClockAnomaly, Some(TimeUncertainty::ClockMovedBackward)))
        } else if run.last_confirmed_at != observation.previous_at
            && observation.spec_classify() is Ok {
            Err((GapReason::ObservationDiscontinuity, Some(TimeUncertainty::InsufficientClockEvidence)))
        } else {
            observation.spec_classify()
        },
        TimerState::Interrupted { .. } => observation.spec_classify(),
    }
}

} // verus!
