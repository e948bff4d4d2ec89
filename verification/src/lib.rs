//! UI- and operating-system-independent Pomodoro timer logic with its
//! persistence rules, verified with Verus.

pub mod clock;
pub mod config;
pub mod consistency;
pub mod crediting;
pub mod domain;
pub mod legacy;
pub mod messages;
pub mod model;
pub mod notification;
pub mod observation;
pub mod progress;
pub mod recovery;
pub mod reflection;
pub mod saving;
pub mod schema;
pub mod storage;
pub mod transition;
pub mod validation;
pub mod validation_spec;

pub use config::{ConfigError, TimerConfig};
pub use domain::DomainState;
pub use transition::Command;
pub use model::{
    CurrentTask, DomainError, EventKind, GapReason, History, HistoryEvent, IdAllocators,
    Interruption, InterruptionEnd, InterruptionId, InterruptionKind, InterruptionOutcome,
    MeasuredDuration, PomodoroState, ProgressState, QuickStartChoice, QuickStartDecision,
    ReflectionSummary, RoundProgress, RunState, Session, SessionEnd, SessionId, SessionKind,
    SessionOutcome, TimeUncertainty, TimerState, Timestamp,
};
pub use observation::Observation;
