//! The domain unit and its verified transitions.

use vstd::prelude::*;

use crate::config::TimerConfig;
use crate::model::{
    copy_task, DomainError, EventKind, GapReason, History, HistoryEvent, IdAllocators, Interruption,
    InterruptionEnd, InterruptionId, InterruptionKind, InterruptionOutcome, MeasuredDuration,
    PomodoroState, ProgressState, QuickStartChoice, QuickStartDecision, RoundProgress, RunState,
    SessionEnd, SessionId, SessionKind, SessionOutcome, TimeUncertainty, TimerState, Timestamp,
};
use crate::observation::Observation;
use crate::transition::{
    allocators_grow, classify_against, history_extends, interruption_duration, last_recorded_at,
    lemma_extends_push, lemma_extends_refl, lemma_extends_trans, ready_state, running_timer,
    step_result, Command, DomainModel,
};

verus! {

/// A domain unit: authoritative snapshot, analytical history, and ID allocation.
///
/// Applying a transition is not a durable commit. The application owns pending
/// and committed values, saving and notification. This type performs no I/O.
#[derive(Debug, Clone, PartialEq, Eq)]
pub struct DomainState {
    pub snapshot: PomodoroState,
    pub history: History,
    pub ids: IdAllocators,
}

impl View for DomainState {
    type V = DomainModel;

    open spec fn view(&self) -> DomainModel {
        DomainModel {
            snapshot: self.snapshot,
            sessions: self.history.sessions@,
            events: self.history.events@,
            ids: self.ids,
        }
    }
}

fn ready(kind: SessionKind, task: Option<crate::model::CurrentTask>) -> (r: ProgressState)
    ensures
        r == ready_state(kind, task),
{
    ProgressState::Ready { next_kind: kind, current_task_draft: task }
}

fn running(at: Timestamp, elapsed_ms: u64) -> (r: TimerState)
    ensures
        r == running_timer(at, elapsed_ms),
{
    TimerState::Running {
        run: RunState {
            started_at: at,
            elapsed_ms_at_start: elapsed_ms,
            last_confirmed_at: at,
            time_uncertainty: None,
        },
    }
}

impl DomainState {
    fn emit(
        &mut self,
        session_id: SessionId,
        effective_at: Timestamp,
        recorded_at: Timestamp,
        payload: EventKind,
    ) -> (r: Result<(), DomainError>)
        ensures
            step_result(
                old(self)@,
                final(self)@,
                r,
                old(self)@.emit(session_id, effective_at, recorded_at, payload),
            ),
    {
        let ghost m0 = self@;
        let sequence = self.ids.next_event_sequence;
        if sequence == u64::MAX {
            proof {
                lemma_extends_refl(m0);
            }
            return Err(DomainError::Overflow);
        }
        self.ids.next_event_sequence = sequence + 1;
        self.history.events.push(
            HistoryEvent { sequence, session_id, effective_at, recorded_at, payload },
        );
        proof {
            assert(self@.events.drop_last() =~= m0.events);
            lemma_extends_push(m0, self@);
            assert(self@ == m0.emit(session_id, effective_at, recorded_at, payload)->Ok_0);
        }
        Ok(())
    }

    /// Replaces the active session's timer.
    fn set_timer(&mut self, timer: TimerState)
        ensures
            final(self)@ == old(self)@.with_timer(timer),
    {
        match &mut self.snapshot.state {
            ProgressState::Active { timer: t, .. } => {
                *t = timer;
            },
            _ => {},
        }
    }

    fn close_run(&mut self, recorded_at: Timestamp) -> (r: Result<(), DomainError>)
        ensures
            step_result(old(self)@, final(self)@, r, old(self)@.close_run(recorded_at)),
    {
        proof {
            lemma_extends_refl(self@);
        }
        let (session_id, elapsed_ms, run) = match &self.snapshot.state {
            ProgressState::Active { session, timer: TimerState::Running { run } } => (
                session.id,
                session.elapsed_ms,
                *run,
            ),
            _ => {
                return Err(DomainError::InvalidOperation);
            },
        };
        if elapsed_ms < run.elapsed_ms_at_start {
            return Err(DomainError::InvalidState("run boundary"));
        }
        self.emit(
            session_id,
            run.last_confirmed_at,
            recorded_at,
            EventKind::RunIntervalRecorded {
                started_at: run.started_at,
                ended_at: run.last_confirmed_at,
                credited_ms: elapsed_ms - run.elapsed_ms_at_start,
                time_uncertainty: run.time_uncertainty,
            },
        )
    }

    fn interrupt(
        &mut self,
        kind: InterruptionKind,
        boundary: Timestamp,
        recorded_at: Timestamp,
        uncertainty: Option<TimeUncertainty>,
    ) -> (r: Result<(), DomainError>)
        ensures
            step_result(
                old(self)@,
                final(self)@,
                r,
                old(self)@.interrupt(kind, boundary, recorded_at, uncertainty),
            ),
    {
        let ghost m0 = self@;
        let r = self.close_run(recorded_at);
        if r.is_err() {
            return r;
        }
        let ghost m1 = self@;
        let next = self.ids.next_interruption_id;
        if next == u64::MAX {
            return Err(DomainError::Overflow);
        }
        self.ids.next_interruption_id = next + 1;
        let ghost m2 = self@;
        proof {
            lemma_extends_refl(m2);
            lemma_extends_trans(m0, m1, m2);
        }
        let id = InterruptionId(next);
        let session_id = match &self.snapshot.state {
            ProgressState::Active { session, .. } => session.id,
            _ => {
                return Err(DomainError::InvalidOperation);
            },
        };
        let r = self.emit(
            session_id,
            boundary,
            recorded_at,
            EventKind::InterruptionStarted { interruption_id: id, interruption_kind: kind },
        );
        proof {
            lemma_extends_trans(m0, m2, self@);
        }
        if r.is_err() {
            return r;
        }
        let ghost m3 = self@;
        self.set_timer(
            TimerState::Interrupted {
                interruption: Interruption {
                    id,
                    kind,
                    started_at: boundary,
                    recorded_at,
                    time_uncertainty: uncertainty,
                    end: None,
                },
            },
        );
        proof {
            lemma_extends_refl(self@);
            lemma_extends_trans(m0, m3, self@);
        }
        Ok(())
    }

    fn mark_clock_uncertainty(&mut self, at: Timestamp)
        ensures
            final(self)@ == old(self)@.mark_clock_uncertainty(at),
    {
        let (session_id, interruption) = match &self.snapshot.state {
            ProgressState::Active { session, timer: TimerState::Interrupted { interruption } } => (
                session.id,
                *interruption,
            ),
            _ => {
                return;
            },
        };
        let last = last_recorded(&self.history.events, session_id);
        let moved_back = match last {
            Some(last) => at.0 < last.0,
            None => false,
        };
        if at.0 < interruption.recorded_at.0 || moved_back {
            let uncertainty = if interruption.time_uncertainty.is_some() {
                interruption.time_uncertainty
            } else {
                Some(TimeUncertainty::ClockMovedBackward)
            };
            self.set_timer(
                TimerState::Interrupted {
                    interruption: Interruption { time_uncertainty: uncertainty, ..interruption },
                },
            );
        }
    }

    fn close_interruption(&mut self, outcome: InterruptionOutcome, at: Timestamp) -> (r: Result<
        (),
        DomainError,
    >)
        ensures
            step_result(old(self)@, final(self)@, r, old(self)@.close_interruption(outcome, at)),
    {
        proof {
            lemma_extends_refl(self@);
        }
        let (session_id, interruption) = match &self.snapshot.state {
            ProgressState::Active { session, timer: TimerState::Interrupted { interruption } } => (
                session.id,
                *interruption,
            ),
            _ => {
                return Err(DomainError::InvalidOperation);
            },
        };
        let duration = match interruption.time_uncertainty {
            Some(reason) => MeasuredDuration::Unknown { reason },
            None => if at.0 >= interruption.started_at.0 && at.0 >= interruption.recorded_at.0 {
                MeasuredDuration::Known { elapsed_ms: at.0 - interruption.started_at.0 }
            } else {
                MeasuredDuration::Unknown { reason: TimeUncertainty::ClockMovedBackward }
            },
        };
        assert(duration == interruption_duration(interruption, at));
        self.emit(
            session_id,
            at,
            at,
            EventKind::InterruptionEnded {
                interruption_id: interruption.id,
                end: InterruptionEnd { ended_at: at, outcome, duration },
            },
        )
    }

    fn require_running(&self, id: SessionId, at: Timestamp) -> (r: Result<(), DomainError>)
        ensures
            r == self@.require_running(id, at),
    {
        match &self.snapshot.state {
            ProgressState::Active { session, timer } => {
                if session.id != id {
                    return Err(DomainError::WrongSession);
                }
                match timer {
                    TimerState::Running { run } => {
                        if run.last_confirmed_at != at {
                            Err(DomainError::ObservationRequired)
                        } else {
                            Ok(())
                        }
                    },
                    TimerState::Interrupted { .. } => Err(DomainError::InvalidOperation),
                }
            },
            _ => Err(DomainError::WrongSession),
        }
    }

    fn resume(&mut self, id: SessionId, returning: bool, at: Timestamp) -> (r: Result<
        (),
        DomainError,
    >)
        ensures
            step_result(old(self)@, final(self)@, r, old(self)@.resume(id, returning, at)),
    {
        let ghost m0 = self@;
        proof {
            lemma_extends_refl(m0);
        }
        let (elapsed_ms, interruption) = match &self.snapshot.state {
            ProgressState::Active { session, timer } => {
                if session.id != id {
                    return Err(DomainError::WrongSession);
                }
                match timer {
                    TimerState::Interrupted { interruption } => (session.elapsed_ms, *interruption),
                    TimerState::Running { .. } => {
                        return Err(DomainError::InvalidOperation);
                    },
                }
            },
            _ => {
                return Err(DomainError::WrongSession);
            },
        };
        if (interruption.kind == InterruptionKind::Distraction) != returning {
            return Err(DomainError::InvalidOperation);
        }
        self.mark_clock_uncertainty(at);
        let ghost m1 = self@;
        let outcome = if returning {
            InterruptionOutcome::Returned
        } else {
            InterruptionOutcome::Resumed
        };
        let r = self.close_interruption(outcome, at);
        proof {
            lemma_extends_trans(m0, m1, self@);
        }
        if r.is_err() {
            return r;
        }
        let ghost m2 = self@;
        self.set_timer(running(at, elapsed_ms));
        proof {
            lemma_extends_refl(self@);
            lemma_extends_trans(m0, m2, self@);
        }
        Ok(())
    }

    fn next_kind(&mut self, kind: SessionKind, outcome: SessionOutcome) -> (r: Result<
        SessionKind,
        DomainError,
    >)
        ensures
            final(self).history == old(self).history,
            final(self).ids == old(self).ids,
            match r {
                Ok(next) => old(self)@.next_kind(kind, outcome) == Ok::<
                    (DomainModel, SessionKind),
                    DomainError,
                >((final(self)@, next)),
                Err(e) => old(self)@.next_kind(kind, outcome) == Err::<
                    (DomainModel, SessionKind),
                    DomainError,
                >(e),
            },
    {
        if outcome == SessionOutcome::Reset {
            return Ok(kind);
        }
        if kind == SessionKind::LongBreak {
            self.snapshot.round_progress = RoundProgress { completed_focuses_in_round: 0 };
        }
        if outcome == SessionOutcome::Cancelled {
            return Ok(SessionKind::Focus);
        }
        if kind == SessionKind::Focus {
            let limit = self.snapshot.settings.focuses_before_long_break();
            let count = self.snapshot.round_progress.completed_focuses_in_round;
            if outcome == SessionOutcome::Completed {
                if count == u32::MAX {
                    return Err(DomainError::Overflow);
                }
                let count = count + 1;
                self.snapshot.round_progress.completed_focuses_in_round = count;
                if count > limit {
                    return Err(DomainError::InvalidState("round progress"));
                }
                return Ok(
                    if count >= limit {
                        SessionKind::LongBreak
                    } else {
                        SessionKind::ShortBreak
                    },
                );
            }
            return Ok(
                if count >= limit {
                    SessionKind::LongBreak
                } else {
                    SessionKind::ShortBreak
                },
            );
        }
        Ok(SessionKind::Focus)
    }

    fn end_session(&mut self, outcome: SessionOutcome, at: Timestamp) -> (r: Result<
        (),
        DomainError,
    >)
        ensures
            step_result(old(self)@, final(self)@, r, old(self)@.end_session(outcome, at)),
    {
        let ghost m0 = self@;
        proof {
            lemma_extends_refl(m0);
        }
        let timer = match &self.snapshot.state {
            ProgressState::Active { timer, .. } => *timer,
            _ => {
                return Err(DomainError::InvalidOperation);
            },
        };
        match timer {
            TimerState::Running { run } => {
                if run.last_confirmed_at != at {
                    return Err(DomainError::ObservationRequired);
                }
                let r = self.close_run(at);
                if r.is_err() {
                    return r;
                }
            },
            TimerState::Interrupted { .. } => {
                self.mark_clock_uncertainty(at);
                let ghost m_marked = self@;
                let r = self.close_interruption(
                    InterruptionOutcome::SessionEnded { session_outcome: outcome },
                    at,
                );
                proof {
                    lemma_extends_trans(m0, m_marked, self@);
                }
                if r.is_err() {
                    return r;
                }
            },
        }
        let ghost m1 = self@;
        let mut session = match &self.snapshot.state {
            ProgressState::Active { session, .. } => session.copy(),
            _ => {
                return Err(DomainError::InvalidOperation);
            },
        };
        session.end = Some(SessionEnd { ended_at: at, outcome });
        if session.kind == SessionKind::QuickStart && outcome == SessionOutcome::Completed {
            self.snapshot.state = ProgressState::AwaitingQuickStartDecision {
                quick_start_session_id: session.id,
                current_task: copy_task(&session.current_task),
            };
        } else {
            let next = match self.next_kind(session.kind, outcome) {
                Ok(next) => next,
                Err(e) => {
                    proof {
                        lemma_extends_push(m1, self@);
                        lemma_extends_trans(m0, m1, self@);
                    }
                    return Err(e);
                },
            };
            let task = if outcome == SessionOutcome::Reset {
                copy_task(&session.current_task)
            } else {
                None
            };
            self.snapshot.state = ready(next, task);
        }
        let ghost m2 = self@;
        self.history.sessions.push(session);
        proof {
            assert(self@.sessions.drop_last() =~= m2.sessions);
            lemma_extends_push(m1, self@);
            lemma_extends_trans(m0, m1, self@);
        }
        Ok(())
    }

    fn start_session(
        &mut self,
        kind: SessionKind,
        task: Option<crate::model::CurrentTask>,
        source: Option<SessionId>,
        at: Timestamp,
    ) -> (r: Result<SessionId, DomainError>)
        requires
            old(self).snapshot.settings.is_valid(),
        ensures
            history_extends(old(self)@, final(self)@),
            allocators_grow(old(self).ids, final(self).ids),
            match r {
                Ok(id) => old(self)@.start_session(kind, task, source, at) == Ok::<
                    (DomainModel, SessionId),
                    DomainError,
                >((final(self)@, id)),
                Err(e) => old(self)@.start_session(kind, task, source, at) == Err::<
                    (DomainModel, SessionId),
                    DomainError,
                >(e),
            },
    {
        proof {
            lemma_extends_refl(self@);
        }
        let next = self.ids.next_session_id;
        if next == u64::MAX {
            return Err(DomainError::Overflow);
        }
        self.ids.next_session_id = next + 1;
        let id = SessionId(next);
        let planned_duration_ms = self.snapshot.settings.duration_millis(kind);
        self.snapshot.state = ProgressState::Active {
            session: crate::model::Session {
                id,
                kind,
                current_task: task,
                planned_duration_ms,
                started_at: at,
                elapsed_ms: 0,
                continued_from_quick_start: source,
                end: None,
            },
            timer: running(at, 0),
        };
        proof {
            lemma_extends_refl(self@);
        }
        Ok(id)
    }

    fn start_ready(&mut self, kind: SessionKind, at: Timestamp) -> (r: Result<(), DomainError>)
        requires
            old(self).snapshot.settings.is_valid(),
        ensures
            step_result(old(self)@, final(self)@, r, old(self)@.start_ready(kind, at)),
    {
        proof {
            lemma_extends_refl(self@);
        }
        let (next_kind, task) = match &self.snapshot.state {
            ProgressState::Ready { next_kind, current_task_draft } => (
                *next_kind,
                copy_task(current_task_draft),
            ),
            _ => {
                return Err(DomainError::InvalidOperation);
            },
        };
        if next_kind != kind && !(next_kind.is_work() && kind.is_work()) {
            return Err(DomainError::InvalidOperation);
        }
        match self.start_session(kind, task, None, at) {
            Ok(_) => Ok(()),
            Err(e) => Err(e),
        }
    }

    fn decide(&mut self, id: SessionId, choice: QuickStartChoice, at: Timestamp) -> (r: Result<
        (),
        DomainError,
    >)
        requires
            old(self).snapshot.settings.is_valid(),
        ensures
            step_result(old(self)@, final(self)@, r, old(self)@.decide(id, choice, at)),
    {
        let ghost m0 = self@;
        proof {
            lemma_extends_refl(m0);
        }
        let task = match &self.snapshot.state {
            ProgressState::AwaitingQuickStartDecision { quick_start_session_id, current_task } => {
                if *quick_start_session_id != id {
                    return Err(DomainError::WrongSession);
                }
                copy_task(current_task)
            },
            _ => {
                return Err(DomainError::InvalidOperation);
            },
        };
        let decision = match choice {
            QuickStartChoice::Finish => {
                self.snapshot.state = ready(SessionKind::Focus, task);
                QuickStartDecision::Finish
            },
            QuickStartChoice::Continue => {
                match self.start_session(SessionKind::Focus, task, Some(id), at) {
                    Ok(focus_session_id) => QuickStartDecision::Continue { focus_session_id },
                    Err(e) => {
                        return Err(e);
                    },
                }
            },
        };
        let ghost m1 = self@;
        proof {
            lemma_extends_refl(m1);
        }
        let r = self.emit(id, at, at, EventKind::QuickStartDecisionMade { decision });
        proof {
            lemma_extends_trans(m0, m1, self@);
        }
        r
    }

    fn lifecycle_session(&self) -> (r: Option<SessionId>)
        ensures
            r == self@.lifecycle_session(),
    {
        match &self.snapshot.state {
            ProgressState::Active { session, .. } => Some(session.id),
            ProgressState::AwaitingQuickStartDecision { quick_start_session_id, .. } => Some(
                *quick_start_session_id,
            ),
            ProgressState::Ready { .. } => None,
        }
    }

    fn lifecycle(&mut self, at: Timestamp, payload: EventKind) -> (r: Result<(), DomainError>)
        ensures
            step_result(old(self)@, final(self)@, r, old(self)@.lifecycle(at, payload)),
    {
        let ghost m0 = self@;
        self.mark_clock_uncertainty(at);
        let ghost m1 = self@;
        proof {
            lemma_extends_refl(m1);
        }
        match self.lifecycle_session() {
            Some(id) => {
                let r = self.emit(id, at, at, payload);
                proof {
                    lemma_extends_trans(m0, m1, self@);
                }
                r
            },
            None => Ok(()),
        }
    }

    fn close_app(&mut self, at: Timestamp) -> (r: Result<(), DomainError>)
        ensures
            step_result(old(self)@, final(self)@, r, old(self)@.close_app(at)),
    {
        let ghost m0 = self@;
        proof {
            lemma_extends_refl(m0);
        }
        let running_id = match &self.snapshot.state {
            ProgressState::Active { session, timer: TimerState::Running { .. } } => Some(session.id),
            _ => None,
        };
        if let Some(id) = running_id {
            let r = self.require_running(id, at);
            if r.is_err() {
                return r;
            }
            let r = self.interrupt(InterruptionKind::AppExit, at, at, None);
            if r.is_err() {
                return r;
            }
        }
        let ghost m1 = self@;
        let r = self.lifecycle(at, EventKind::AppClosing);
        proof {
            lemma_extends_trans(m0, m1, self@);
        }
        r
    }

    fn record_gap(
        &mut self,
        boundary: Timestamp,
        at: Timestamp,
        reason: GapReason,
        uncertainty: Option<TimeUncertainty>,
    ) -> (r: Result<(), DomainError>)
        ensures
            step_result(
                old(self)@,
                final(self)@,
                r,
                old(self)@.record_gap(boundary, at, reason, uncertainty),
            ),
    {
        let ghost m0 = self@;
        proof {
            lemma_extends_refl(m0);
        }
        let (session_id, timer) = match &self.snapshot.state {
            ProgressState::Active { session, timer } => (session.id, *timer),
            _ => {
                return Err(DomainError::InvalidOperation);
            },
        };
        let r = self.emit(
            session_id,
            boundary,
            at,
            EventKind::ObservationGapDetected {
                last_confirmed_at: boundary,
                detected_at: at,
                reason,
            },
        );
        if r.is_err() {
            return r;
        }
        let ghost m1 = self@;
        match timer {
            TimerState::Running { .. } => {
                let r = self.interrupt(InterruptionKind::ObservationGap, boundary, at, uncertainty);
                proof {
                    lemma_extends_trans(m0, m1, self@);
                }
                r
            },
            TimerState::Interrupted { interruption } => {
                let kept = if interruption.time_uncertainty.is_some() {
                    interruption.time_uncertainty
                } else {
                    uncertainty
                };
                self.set_timer(
                    TimerState::Interrupted {
                        interruption: Interruption { time_uncertainty: kept, ..interruption },
                    },
                );
                proof {
                    lemma_extends_refl(self@);
                    lemma_extends_trans(m0, m1, self@);
                }
                Ok(())
            },
        }
    }

    fn restore_app(&mut self, at: Timestamp) -> (r: Result<(), DomainError>)
        ensures
            step_result(old(self)@, final(self)@, r, old(self)@.restore_app(at)),
    {
        let ghost m0 = self@;
        proof {
            lemma_extends_refl(m0);
        }
        let boundary = match &self.snapshot.state {
            ProgressState::Active { timer: TimerState::Running { run }, .. } => Some(
                run.last_confirmed_at,
            ),
            _ => None,
        };
        if let Some(boundary) = boundary {
            let uncertainty = if at.0 < boundary.0 {
                Some(TimeUncertainty::ClockMovedBackward)
            } else {
                None
            };
            let r = self.record_gap(boundary, at, GapReason::Restart, uncertainty);
            if r.is_err() {
                return r;
            }
        }
        let ghost m1 = self@;
        let r = self.lifecycle(at, EventKind::AppRestored);
        proof {
            lemma_extends_trans(m0, m1, self@);
        }
        r
    }

    fn credit(&mut self, credit: u64, at: Timestamp)
        requires
            match old(self).snapshot.state {
                ProgressState::Active { session, timer: TimerState::Running { .. } } => session.elapsed_ms
                    + credit <= u64::MAX,
                _ => false,
            },
        ensures
            match old(self).snapshot.state {
                ProgressState::Active { session, timer: TimerState::Running { run } } => final(self)@ == old(self)@.with_state(
                    ProgressState::Active {
                        session: crate::model::Session {
                            elapsed_ms: (session.elapsed_ms + credit) as u64,
                            ..session
                        },
                        timer: TimerState::Running {
                            run: RunState { last_confirmed_at: at, ..run },
                        },
                    },
                ),
                _ => false,
            },
    {
        match &mut self.snapshot.state {
            ProgressState::Active { session, timer: TimerState::Running { run } } => {
                session.elapsed_ms = session.elapsed_ms + credit;
                run.last_confirmed_at = at;
            },
            _ => {},
        }
    }

    fn observe_inner(&mut self, observation: Observation) -> (r: Result<(), DomainError>)
        ensures
            step_result(old(self)@, final(self)@, r, old(self)@.observe(observation)),
    {
        let ghost m0 = self@;
        proof {
            lemma_extends_refl(m0);
        }
        let is_active = match &self.snapshot.state {
            ProgressState::Active { .. } => true,
            _ => false,
        };
        if !is_active {
            return Ok(());
        }
        self.mark_clock_uncertainty(observation.at);
        let ghost m1 = self@;
        proof {
            lemma_extends_refl(m1);
        }
        let (remaining, timer) = match &self.snapshot.state {
            ProgressState::Active { session, timer } => (session.remaining_ms(), *timer),
            _ => {
                return Ok(());
            },
        };
        match classify(observation, timer) {
            Err((reason, uncertainty)) => {
                let boundary = match timer {
                    TimerState::Running { run } => run.last_confirmed_at,
                    TimerState::Interrupted { .. } => observation.previous_at,
                };
                let r = self.record_gap(boundary, observation.at, reason, uncertainty);
                proof {
                    lemma_extends_trans(m0, m1, self@);
                }
                r
            },
            Ok(elapsed) => match timer {
                TimerState::Running { .. } => {
                    let credit = if elapsed < remaining {
                        elapsed
                    } else {
                        remaining
                    };
                    self.credit(credit, observation.at);
                    let ghost m2 = self@;
                    proof {
                        lemma_extends_refl(m2);
                        lemma_extends_trans(m0, m1, m2);
                    }
                    let done = match &self.snapshot.state {
                        ProgressState::Active { session, .. } => session.remaining_ms() == 0,
                        _ => false,
                    };
                    if done {
                        let r = self.end_session(SessionOutcome::Completed, observation.at);
                        proof {
                            lemma_extends_trans(m0, m2, self@);
                        }
                        r
                    } else {
                        Ok(())
                    }
                },
                TimerState::Interrupted { .. } => Ok(()),
            },
        }
    }

    fn active_is_work(&self) -> (r: bool)
        ensures
            r == crate::transition::active_is_work(self.snapshot.state),
    {
        match &self.snapshot.state {
            ProgressState::Active { session, .. } => session.kind.is_work(),
            _ => false,
        }
    }

    fn apply_inner(&mut self, command: Command, at: Timestamp) -> (r: Result<(), DomainError>)
        requires
            old(self).snapshot.settings.is_valid(),
        ensures
            step_result(old(self)@, final(self)@, r, old(self)@.apply(command, at)),
    {
        let ghost m0 = self@;
        proof {
            lemma_extends_refl(m0);
        }
        match command {
            Command::SetCurrentTask(task) => {
                let next_kind = match &self.snapshot.state {
                    ProgressState::Ready { next_kind, .. } => *next_kind,
                    _ => {
                        return Err(DomainError::InvalidOperation);
                    },
                };
                if !next_kind.is_work() {
                    return Err(DomainError::InvalidOperation);
                }
                self.snapshot.state = ready(next_kind, task);
                proof {
                    lemma_extends_refl(self@);
                }
                Ok(())
            },
            Command::Configure(settings) => {
                let is_ready = match &self.snapshot.state {
                    ProgressState::Ready { .. } => true,
                    _ => false,
                };
                if !is_ready {
                    return Err(DomainError::InvalidOperation);
                }
                match settings.validate() {
                    Err(e) => {
                        return Err(DomainError::InvalidConfig(e));
                    },
                    Ok(()) => {},
                }
                self.snapshot.settings = settings;
                self.snapshot.round_progress = RoundProgress { completed_focuses_in_round: 0 };
                proof {
                    lemma_extends_refl(self@);
                }
                Ok(())
            },
            Command::Start(kind) => self.start_ready(kind, at),
            Command::Pause(id) => {
                let r = self.require_running(id, at);
                if r.is_err() {
                    return r;
                }
                self.interrupt(InterruptionKind::Pause, at, at, None)
            },
            Command::Distraction(id) => {
                let r = self.require_running(id, at);
                if r.is_err() {
                    return r;
                }
                if !self.active_is_work() {
                    return Err(DomainError::InvalidOperation);
                }
                self.interrupt(InterruptionKind::Distraction, at, at, None)
            },
            Command::Resume(id) => self.resume(id, false, at),
            Command::Return(id) => self.resume(id, true, at),
            Command::End { session_id, outcome } => {
                if outcome == SessionOutcome::Completed {
                    return Err(DomainError::InvalidOperation);
                }
                let matches = match &self.snapshot.state {
                    ProgressState::Active { session, .. } => session.id == session_id,
                    _ => false,
                };
                if !matches {
                    return Err(DomainError::WrongSession);
                }
                self.end_session(outcome, at)
            },
            Command::ResetReady => {
                match &self.snapshot.state {
                    ProgressState::Ready { .. } => Ok(()),
                    _ => Err(DomainError::InvalidOperation),
                }
            },
            Command::SkipReady => {
                let next_kind = match &self.snapshot.state {
                    ProgressState::Ready { next_kind, .. } => *next_kind,
                    _ => {
                        return Err(DomainError::InvalidOperation);
                    },
                };
                let next = match self.next_kind(next_kind, SessionOutcome::Skipped) {
                    Ok(next) => next,
                    Err(e) => {
                        proof {
                            lemma_extends_refl(self@);
                        }
                        return Err(e);
                    },
                };
                self.snapshot.state = ready(next, None);
                proof {
                    lemma_extends_refl(self@);
                }
                Ok(())
            },
            Command::DecideQuickStart { session_id, choice } => self.decide(session_id, choice, at),
            Command::CloseApp => self.close_app(at),
            Command::RestoreApp => self.restore_app(at),
        }
    }

    /// Puts the snapshot, allocators and history lengths back after a rejected change.
    fn roll_back(
        &mut self,
        snapshot: PomodoroState,
        ids: IdAllocators,
        session_count: usize,
        event_count: usize,
    )
        requires
            session_count <= old(self).history.sessions.len(),
            event_count <= old(self).history.events.len(),
        ensures
            final(self)@.snapshot == snapshot,
            final(self)@.ids == ids,
            final(self)@.sessions == old(self)@.sessions.subrange(0, session_count as int),
            final(self)@.events == old(self)@.events.subrange(0, event_count as int),
    {
        self.snapshot = snapshot;
        self.ids = ids;
        self.history.sessions.truncate(session_count);
        self.history.events.truncate(event_count);
    }

    /// Applies an input atomically to this in-memory candidate. Rejected inputs
    /// leave snapshot, history and allocation unchanged. Success does not mean
    /// the candidate has been saved.
    pub fn apply(&mut self, command: Command, at: Timestamp) -> (r: Result<(), DomainError>)
        ensures
            old(self).snapshot.settings.validation() matches Err(e) ==> r == Err::<(), DomainError>(
                DomainError::InvalidConfig(e),
            ) && final(self)@ == old(self)@,
            old(self).snapshot.settings.validation() is Ok ==> match r {
                Ok(_) => old(self)@.apply(command, at) == Ok::<DomainModel, DomainError>(
                    final(self)@,
                ) && history_extends(old(self)@, final(self)@) && allocators_grow(
                    old(self).ids,
                    final(self).ids,
                ),
                Err(e) => old(self)@.apply(command, at) == Err::<DomainModel, DomainError>(e)
                    && final(self)@ == old(self)@,
            },
    {
        if let Err(e) = self.snapshot.settings.validate() {
            return Err(DomainError::InvalidConfig(e));
        }
        proof {
            self.snapshot.settings.lemma_validation_ok_iff_valid();
        }
        let ghost m0 = self@;
        let snapshot = self.snapshot.copy();
        let ids = self.ids;
        let session_count = self.history.sessions.len();
        let event_count = self.history.events.len();
        let r = self.apply_inner(command, at);
        if let Err(e) = r {
            self.roll_back(snapshot, ids, session_count, event_count);
            assert(self@.sessions =~= m0.sessions);
            assert(self@.events =~= m0.events);
            return Err(e);
        }
        Ok(())
    }

    /// Credits only continuously observed monotonic time. A gap is handled before
    /// completion and never filled from a wall-clock deadline. Ordinary ticks do
    /// not emit events. Rejected observations change nothing.
    pub fn observe(&mut self, observation: Observation) -> (r: Result<(), DomainError>)
        ensures
            match r {
                Ok(_) => old(self)@.observe(observation) == Ok::<DomainModel, DomainError>(
                    final(self)@,
                ) && history_extends(old(self)@, final(self)@) && allocators_grow(
                    old(self).ids,
                    final(self).ids,
                ),
                Err(e) => old(self)@.observe(observation) == Err::<DomainModel, DomainError>(e)
                    && final(self)@ == old(self)@,
            },
    {
        let ghost m0 = self@;
        let snapshot = self.snapshot.copy();
        let ids = self.ids;
        let session_count = self.history.sessions.len();
        let event_count = self.history.events.len();
        let r = self.observe_inner(observation);
        if let Err(e) = r {
            self.roll_back(snapshot, ids, session_count, event_count);
            assert(self@.sessions =~= m0.sessions);
            assert(self@.events =~= m0.events);
            return Err(e);
        }
        Ok(())
    }

    /// A fresh domain: Ready for Focus, empty history, allocators at one.
    /// Rejects invalid settings.
    pub fn new(settings: TimerConfig) -> (r: Result<Self, DomainError>)
        ensures
            match r {
                Ok(state) => settings.validation() is Ok && state@ == DomainModel::initial(settings),
                Err(e) => settings.validation() is Err && e == DomainError::InvalidConfig(
                    settings.validation()->Err_0,
                ),
            },
    {
        match settings.validate() {
            Err(e) => Err(DomainError::InvalidConfig(e)),
            Ok(()) => {
                let state = DomainState {
                    snapshot: PomodoroState {
                        settings,
                        round_progress: RoundProgress { completed_focuses_in_round: 0 },
                        state: ready(SessionKind::Focus, None),
                    },
                    history: History { sessions: Vec::new(), events: Vec::new() },
                    ids: IdAllocators::default(),
                };
                assert(state@.sessions =~= Seq::<crate::model::Session>::empty());
                assert(state@.events =~= Seq::<HistoryEvent>::empty());
                Ok(state)
            },
        }
    }

    /// A copy of the whole unit: snapshot, history and allocators.
    pub fn copy(&self) -> (r: Self)
        ensures
            r@ == self@,
    {
        DomainState { snapshot: self.snapshot.copy(), history: self.history.copy(), ids: self.ids }
    }

    pub fn snapshot(&self) -> (r: &PomodoroState)
        ensures
            *r == self.snapshot,
    {
        &self.snapshot
    }

    pub fn history(&self) -> (r: &History)
        ensures
            *r == self.history,
    {
        &self.history
    }

    pub fn id_allocators(&self) -> (r: &IdAllocators)
        ensures
            *r == self.ids,
    {
        &self.ids
    }
}

/// Classifies an observation against the current timer.
fn classify(observation: Observation, timer: TimerState) -> (r: Result<
    u64,
    (GapReason, Option<TimeUncertainty>),
>)
    ensures
        r == classify_against(observation, timer),
{
    let classification = observation.classify();
    match timer {
        TimerState::Running { run } => {
            if observation.at.0 < run.last_confirmed_at.0 {
                Err((GapReason::ClockAnomaly, Some(TimeUncertainty::ClockMovedBackward)))
            } else if run.last_confirmed_at != observation.previous_at && classification.is_ok() {
                Err(
                    (GapReason::ObservationDiscontinuity, Some(TimeUncertainty::InsufficientClockEvidence)),
                )
            } else {
                classification
            }
        },
        TimerState::Interrupted { .. } => classification,
    }
}

/// The recording time of the last event of `session_id`, scanning backwards.
fn last_recorded(events: &Vec<HistoryEvent>, session_id: SessionId) -> (r: Option<Timestamp>)
    ensures
        r == last_recorded_at(events@, session_id),
{
    let mut i = events.len();
    assert(events@.subrange(0, i as int) =~= events@);
    while i > 0
        invariant
            i <= events.len(),
            last_recorded_at(events@, session_id) == last_recorded_at(
                events@.subrange(0, i as int),
                session_id,
            ),
        decreases i,
    {
        let ghost prefix = events@.subrange(0, i as int);
        assert(prefix.last() == events@[i - 1]);
        assert(prefix.drop_last() =~= events@.subrange(0, i - 1));
        if events[i - 1].session_id == session_id {
            return Some(events[i - 1].recorded_at);
        }
        i -= 1;
    }
    None
}

} // verus!
