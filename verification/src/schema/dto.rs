//! The objects of the version-1 document. Each names a domain value through
//! `to_domain`; the scalar fields carry the range checks of their V1 types.

use vstd::prelude::*;

use crate::model::{
    CurrentTask, EventKind, HistoryEvent, IdAllocators, Interruption, InterruptionEnd,
    InterruptionKind, InterruptionOutcome, MeasuredDuration, PomodoroState, ProgressState,
    QuickStartDecision, RoundProgress, RunState, Session, SessionEnd, SessionKind, SessionOutcome,
    TimeUncertainty, TimerState, GapReason,
};
use crate::schema::values::{InterruptionIdV1, SessionIdV1, SettingsV1, TimestampV1};

verus! {

pub struct Envelope {
    pub schema_version: u32,
    pub save_generation: u64,
    pub saved_at: TimestampV1,
    pub id_allocators: IdAllocatorsV1,
    pub snapshot: SnapshotV1,
    pub history: HistoryV1,
}

#[derive(Debug, Clone, Copy, PartialEq, Eq, Structural)]
pub struct IdAllocatorsV1 {
    pub next_session_id: u64,
    pub next_interruption_id: u64,
    pub next_event_sequence: u64,
}

impl IdAllocatorsV1 {
    pub open spec fn to_domain(self) -> IdAllocators {
        IdAllocators {
            next_session_id: self.next_session_id,
            next_interruption_id: self.next_interruption_id,
            next_event_sequence: self.next_event_sequence,
        }
    }
}

pub struct SnapshotV1 {
    pub settings: SettingsV1,
    pub round_progress: RoundProgressV1,
    pub state: ProgressV1,
}

impl SnapshotV1 {
    pub open spec fn to_domain(self) -> PomodoroState {
        PomodoroState {
            settings: self.settings@,
            round_progress: RoundProgress {
                completed_focuses_in_round: self.round_progress.completed_focuses_in_round,
            },
            state: self.state.to_domain(),
        }
    }
}

#[derive(Debug, Clone, Copy, PartialEq, Eq, Structural)]
pub struct RoundProgressV1 {
    pub completed_focuses_in_round: u32,
}

pub enum ProgressV1 {
    Ready { next_kind: SessionKind, current_task_draft: Option<CurrentTask> },
    Active { session: SessionV1, timer: TimerV1 },
    AwaitingQuickStartDecision {
        quick_start_session_id: SessionIdV1,
        current_task: Option<CurrentTask>,
    },
}

impl ProgressV1 {
    pub open spec fn to_domain(self) -> ProgressState {
        match self {
            ProgressV1::Ready { next_kind, current_task_draft } => ProgressState::Ready {
                next_kind,
                current_task_draft,
            },
            ProgressV1::Active { session, timer } => ProgressState::Active {
                session: session.to_domain(),
                timer: timer.to_domain(),
            },
            ProgressV1::AwaitingQuickStartDecision { quick_start_session_id, current_task } =>
                ProgressState::AwaitingQuickStartDecision {
                quick_start_session_id: quick_start_session_id@,
                current_task,
            },
        }
    }
}

pub open spec fn optional_session_id(id: Option<SessionIdV1>) -> Option<crate::model::SessionId> {
    match id {
        Some(v) => Some(v@),
        None => None,
    }
}

pub struct SessionV1 {
    pub id: SessionIdV1,
    pub kind: SessionKind,
    pub current_task: Option<CurrentTask>,
    pub planned_duration_ms: u64,
    pub started_at: TimestampV1,
    pub elapsed_ms: u64,
    pub continued_from_quick_start: Option<SessionIdV1>,
    pub end: Option<SessionEndV1>,
}

impl SessionV1 {
    pub open spec fn to_domain(self) -> Session {
        Session {
            id: self.id@,
            kind: self.kind,
            current_task: self.current_task,
            planned_duration_ms: self.planned_duration_ms,
            started_at: self.started_at@,
            elapsed_ms: self.elapsed_ms,
            continued_from_quick_start: optional_session_id(self.continued_from_quick_start),
            end: match self.end {
                Some(end) => Some(end.to_domain()),
                None => None,
            },
        }
    }
}

#[derive(Debug, Clone, Copy)]
pub struct SessionEndV1 {
    pub ended_at: TimestampV1,
    pub outcome: SessionOutcome,
}

impl SessionEndV1 {
    pub open spec fn to_domain(self) -> SessionEnd {
        SessionEnd { ended_at: self.ended_at@, outcome: self.outcome }
    }
}

#[derive(Debug, Clone, Copy)]
pub enum TimerV1 {
    Running { run: RunV1 },
    Interrupted { interruption: InterruptionV1 },
}

impl TimerV1 {
    pub open spec fn to_domain(self) -> TimerState {
        match self {
            TimerV1::Running { run } => TimerState::Running { run: run.to_domain() },
            TimerV1::Interrupted { interruption } => TimerState::Interrupted {
                interruption: interruption.to_domain(),
            },
        }
    }
}

#[derive(Debug, Clone, Copy)]
pub struct RunV1 {
    pub started_at: TimestampV1,
    pub elapsed_ms_at_start: u64,
    pub last_confirmed_at: TimestampV1,
    pub time_uncertainty: Option<TimeUncertainty>,
}

impl RunV1 {
    pub open spec fn to_domain(self) -> RunState {
        RunState {
            started_at: self.started_at@,
            elapsed_ms_at_start: self.elapsed_ms_at_start,
            last_confirmed_at: self.last_confirmed_at@,
            time_uncertainty: self.time_uncertainty,
        }
    }
}

#[derive(Debug, Clone, Copy)]
pub struct InterruptionV1 {
    pub id: InterruptionIdV1,
    pub kind: InterruptionKind,
    pub started_at: TimestampV1,
    pub recorded_at: TimestampV1,
    pub time_uncertainty: Option<TimeUncertainty>,
    pub end: Option<InterruptionEndV1>,
}

impl InterruptionV1 {
    pub open spec fn to_domain(self) -> Interruption {
        Interruption {
            id: self.id@,
            kind: self.kind,
            started_at: self.started_at@,
            recorded_at: self.recorded_at@,
            time_uncertainty: self.time_uncertainty,
            end: match self.end {
                Some(end) => Some(end.to_domain()),
                None => None,
            },
        }
    }
}

#[derive(Debug, Clone, Copy)]
pub struct InterruptionEndV1 {
    pub ended_at: TimestampV1,
    pub outcome: InterruptionOutcome,
    pub duration: MeasuredDuration,
}

impl InterruptionEndV1 {
    pub open spec fn to_domain(self) -> InterruptionEnd {
        InterruptionEnd { ended_at: self.ended_at@, outcome: self.outcome, duration: self.duration }
    }
}

pub struct HistoryV1 {
    pub sessions: Vec<SessionV1>,
    pub events: Vec<EventV1>,
}

impl HistoryV1 {
    pub open spec fn session_models(self) -> Seq<Session> {
        Seq::new(self.sessions@.len(), |i: int| self.sessions@[i].to_domain())
    }

    pub open spec fn event_models(self) -> Seq<HistoryEvent> {
        Seq::new(self.events@.len(), |i: int| self.events@[i].to_domain())
    }
}

#[derive(Debug, Clone, Copy)]
pub struct EventV1 {
    pub sequence: u64,
    pub session_id: SessionIdV1,
    pub effective_at: TimestampV1,
    pub recorded_at: TimestampV1,
    pub payload: EventKindV1,
}

impl EventV1 {
    pub open spec fn to_domain(self) -> HistoryEvent {
        HistoryEvent {
            sequence: self.sequence,
            session_id: self.session_id@,
            effective_at: self.effective_at@,
            recorded_at: self.recorded_at@,
            payload: self.payload.to_domain(),
        }
    }
}

#[derive(Debug, Clone, Copy)]
pub enum EventKindV1 {
    RunIntervalRecorded {
        started_at: TimestampV1,
        ended_at: TimestampV1,
        credited_ms: u64,
        time_uncertainty: Option<TimeUncertainty>,
    },
    InterruptionStarted { interruption_id: InterruptionIdV1, interruption_kind: InterruptionKind },
    InterruptionEnded { interruption_id: InterruptionIdV1, end: InterruptionEndV1 },
    QuickStartDecisionMade { decision: QuickStartDecisionV1 },
    AppClosing,
    AppRestored,
    ObservationGapDetected {
        last_confirmed_at: TimestampV1,
        detected_at: TimestampV1,
        reason: GapReason,
    },
}

impl EventKindV1 {
    pub open spec fn to_domain(self) -> EventKind {
        match self {
            EventKindV1::RunIntervalRecorded {
                started_at,
                ended_at,
                credited_ms,
                time_uncertainty,
            } => EventKind::RunIntervalRecorded {
                started_at: started_at@,
                ended_at: ended_at@,
                credited_ms,
                time_uncertainty,
            },
            EventKindV1::InterruptionStarted { interruption_id, interruption_kind } =>
                EventKind::InterruptionStarted {
                interruption_id: interruption_id@,
                interruption_kind,
            },
            EventKindV1::InterruptionEnded { interruption_id, end } => EventKind::InterruptionEnded {
                interruption_id: interruption_id@,
                end: end.to_domain(),
            },
            EventKindV1::QuickStartDecisionMade { decision } => EventKind::QuickStartDecisionMade {
                decision: decision.to_domain(),
            },
            EventKindV1::AppClosing => EventKind::AppClosing,
            EventKindV1::AppRestored => EventKind::AppRestored,
            EventKindV1::ObservationGapDetected { last_confirmed_at, detected_at, reason } =>
                EventKind::ObservationGapDetected {
                last_confirmed_at: last_confirmed_at@,
                detected_at: detected_at@,
                reason,
            },
        }
    }
}

#[derive(Debug, Clone, Copy)]
pub enum QuickStartDecisionV1 {
    Finish,
    Continue { focus_session_id: SessionIdV1 },
}

impl QuickStartDecisionV1 {
    pub open spec fn to_domain(self) -> QuickStartDecision {
        match self {
            QuickStartDecisionV1::Finish => QuickStartDecision::Finish,
            QuickStartDecisionV1::Continue { focus_session_id } => QuickStartDecision::Continue {
                focus_session_id: focus_session_id@,
            },
        }
    }
}

} // verus!
