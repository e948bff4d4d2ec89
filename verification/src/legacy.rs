//! The earlier timer API: a deadline-based state machine and a daily summary
//! history. It shares no saved state with the domain unit.

pub mod history;
pub mod session;
pub mod timer;

pub use history::{DailySummary, History, HistoryError, CURRENT_HISTORY_SCHEMA_VERSION};
pub use session::SessionKind;
pub use timer::{Action, PomodoroTimer, TimerError, TimerEvent, TimerState, TimerStatus};
