//! A deadline-based pomodoro state machine driven by caller-supplied
//! millisecond timestamps.

use vstd::prelude::*;

use crate::config::{ConfigError, TimerConfig};
use crate::legacy::session::SessionKind;

verus! {

/// Persistable internal timer state.
#[derive(Debug, Clone, Copy, PartialEq, Eq, Structural)]
pub enum TimerState {
    Idle { remaining_ms: u64 },
    Running { deadline_ms: u64 },
    Paused { remaining_ms: u64 },
}

/// Timer status without internal timing data, suitable for display and input handling.
#[derive(Debug, Clone, Copy, PartialEq, Eq, Structural)]
pub enum TimerStatus {
    Idle,
    Running,
    Paused,
}

/// An action name used when reporting an invalid state transition.
#[derive(Debug, Clone, Copy, PartialEq, Eq, Structural)]
pub enum Action {
    Start,
    Pause,
    Resume,
}

/// An event emitted by the timer for frontend consumers.
#[derive(Debug, Clone, Copy, PartialEq, Eq, Structural)]
pub enum TimerEvent {
    SessionCompleted { session: SessionKind, duration_seconds: u64, completed_at_ms: u64 },
    SessionSkipped { session: SessionKind },
}

#[derive(Debug, Clone, PartialEq, Eq)]
pub enum TimerError {
    InvalidConfig(ConfigError),
    InvalidTransition { action: Action, status: TimerStatus },
    SessionAlreadyElapsed,
    TimestampOverflow,
    InvalidCompletedFocusCount { found: u32, maximum: u32 },
    InvalidRemainingTime { found_ms: u64, maximum_ms: u64 },
}

impl From<ConfigError> for TimerError {
    fn from(error: ConfigError) -> (r: Self)
        ensures
            r == TimerError::InvalidConfig(error),
    {
        TimerError::InvalidConfig(error)
    }
}

impl vstd::std_specs::convert::FromSpecImpl<ConfigError> for TimerError {
    open spec fn obeys_from_spec() -> bool {
        true
    }

    open spec fn from_spec(v: ConfigError) -> TimerError {
        TimerError::InvalidConfig(v)
    }
}

/// The four values a timer holds.
#[derive(Debug, Clone, Copy, PartialEq, Eq, Structural)]
pub struct TimerModel {
    pub config: TimerConfig,
    pub session: SessionKind,
    pub state: TimerState,
    pub completed_focuses_in_round: u32,
}

/// A UI-independent pomodoro state machine.
#[derive(Debug, Clone, Copy, PartialEq, Eq, Structural)]
pub struct PomodoroTimer {
    config: TimerConfig,
    session: SessionKind,
    state: TimerState,
    completed_focuses_in_round: u32,
}

impl View for PomodoroTimer {
    type V = TimerModel;

    closed spec fn view(&self) -> TimerModel {
        TimerModel {
            config: self.config,
            session: self.session,
            state: self.state,
            completed_focuses_in_round: self.completed_focuses_in_round,
        }
    }
}

/// The configured length of a session, in milliseconds.
pub open spec fn session_millis(config: TimerConfig, session: SessionKind) -> int {
    config.spec_duration_seconds(session.to_domain()) * 1000
}

pub open spec fn status_of(state: TimerState) -> TimerStatus {
    match state {
        TimerState::Idle { .. } => TimerStatus::Idle,
        TimerState::Running { .. } => TimerStatus::Running,
        TimerState::Paused { .. } => TimerStatus::Paused,
    }
}

pub open spec fn remaining_at(state: TimerState, now_ms: u64) -> int {
    match state {
        TimerState::Idle { remaining_ms } => remaining_ms as int,
        TimerState::Paused { remaining_ms } => remaining_ms as int,
        TimerState::Running { deadline_ms } => if deadline_ms >= now_ms {
            deadline_ms - now_ms
        } else {
            0
        },
    }
}

/// Whole seconds, rounded up.
pub open spec fn ceil_seconds(ms: int) -> int {
    if ms % 1000 == 0 {
        ms / 1000
    } else {
        ms / 1000 + 1
    }
}

/// The session after `current` and the focus count that goes with it. A
/// completed Focus counts toward the round; a Long Break starts a new round.
pub open spec fn advanced(m: TimerModel, completed: bool) -> TimerModel {
    let (session, count) = match m.session {
        SessionKind::Focus => {
            let count = if completed {
                (m.completed_focuses_in_round + 1) as u32
            } else {
                m.completed_focuses_in_round
            };
            (
                if count >= m.config.spec_focuses_before_long_break() {
                    SessionKind::LongBreak
                } else {
                    SessionKind::ShortBreak
                },
                count,
            )
        },
        SessionKind::ShortBreak => (SessionKind::Focus, m.completed_focuses_in_round),
        SessionKind::LongBreak => (SessionKind::Focus, 0u32),
    };
    TimerModel {
        config: m.config,
        session,
        state: TimerState::Idle { remaining_ms: session_millis(m.config, session) as u64 },
        completed_focuses_in_round: count,
    }
}

/// What `validate` returns for a timer.
pub open spec fn timer_validation(m: TimerModel) -> Result<(), TimerError> {
    match m.config.validation() {
        Err(e) => Err(TimerError::InvalidConfig(e)),
        Ok(_) => if m.completed_focuses_in_round > m.config.spec_focuses_before_long_break() {
            Err(
                TimerError::InvalidCompletedFocusCount {
                    found: m.completed_focuses_in_round,
                    maximum: m.config.spec_focuses_before_long_break(),
                },
            )
        } else {
            let maximum = session_millis(m.config, m.session) as u64;
            match m.state {
                TimerState::Idle { remaining_ms } | TimerState::Paused { remaining_ms } => if
                remaining_ms == 0 || remaining_ms > maximum {
                    Err(TimerError::InvalidRemainingTime { found_ms: remaining_ms, maximum_ms: maximum })
                } else {
                    Ok(())
                },
                _ => Ok(()),
            }
        },
    }
}

/// The timer can move to its next session without its focus count overflowing.
pub open spec fn can_advance(m: TimerModel, completed: bool) -> bool {
    &&& session_millis(m.config, advanced(m, completed).session) <= u64::MAX
    &&& (completed && m.session == SessionKind::Focus) ==> m.completed_focuses_in_round < u32::MAX
}

/// After a Focus, the next session is a Long Break exactly when the round's
/// count of completed focuses (one more for a completed Focus, the same for a
/// skipped one) reaches the configured number of focuses before a long break,
/// and a Short Break otherwise. A Short Break is followed by a Focus in the same
/// round; a Long Break by a Focus that starts a new round. The next session
/// waits idle with its full configured length, and the configuration stays.
pub proof fn lemma_advance_follows_the_round(m: TimerModel, completed: bool)
    requires
        can_advance(m, completed),
    ensures
        ({
            let n = advanced(m, completed);
            &&& n.config == m.config
            &&& m.session == SessionKind::Focus ==> {
                &&& n.completed_focuses_in_round == m.completed_focuses_in_round + if completed {
                    1int
                } else {
                    0
                }
                &&& n.session == SessionKind::LongBreak <==> n.completed_focuses_in_round
                    >= m.config.spec_focuses_before_long_break()
                &&& n.session == SessionKind::ShortBreak <==> n.completed_focuses_in_round
                    < m.config.spec_focuses_before_long_break()
            }
            &&& m.session == SessionKind::ShortBreak ==> n.session == SessionKind::Focus
                && n.completed_focuses_in_round == m.completed_focuses_in_round
            &&& m.session == SessionKind::LongBreak ==> n.session == SessionKind::Focus
                && n.completed_focuses_in_round == 0
            &&& n.state == TimerState::Idle {
                remaining_ms: (match n.session {
                    SessionKind::Focus => m.config.spec_focus_seconds() * 1000,
                    SessionKind::ShortBreak => m.config.spec_short_break_seconds() * 1000,
                    SessionKind::LongBreak => m.config.spec_long_break_seconds() * 1000,
                }) as u64,
            }
        }),
{
}

/// A stored timer is accepted exactly when its configuration is valid (every
/// length from one second to a day, at least one focus per round), its round
/// has completed at most the configured number of focuses, and an idle or
/// paused timer has from one millisecond up to its session's full length left.
pub proof fn lemma_stored_timer_accepted(m: TimerModel)
    ensures
        timer_validation(m) is Ok <==> {
            &&& 1 <= m.config.spec_focus_seconds() <= 86_400
            &&& 1 <= m.config.spec_short_break_seconds() <= 86_400
            &&& 1 <= m.config.spec_long_break_seconds() <= 86_400
            &&& m.config.spec_focuses_before_long_break() >= 1
            &&& m.completed_focuses_in_round <= m.config.spec_focuses_before_long_break()
            &&& match m.state {
                TimerState::Idle { remaining_ms } | TimerState::Paused { remaining_ms } => 1
                    <= remaining_ms && remaining_ms <= match m.session {
                    SessionKind::Focus => m.config.spec_focus_seconds() * 1000,
                    SessionKind::ShortBreak => m.config.spec_short_break_seconds() * 1000,
                    SessionKind::LongBreak => m.config.spec_long_break_seconds() * 1000,
                },
                TimerState::Running { .. } => true,
            }
        },
{
    m.config.lemma_validation_ok_iff_valid();
}

/// Moving on from an accepted timer leaves an accepted timer, the Long Break
/// that follows the last focus of a round included. The one exception is a
/// completed Focus in a round that was already full.
pub proof fn lemma_advance_keeps_timer_valid(m: TimerModel, completed: bool)
    requires
        timer_validation(m) is Ok,
        can_advance(m, completed),
        m.session == SessionKind::Focus && completed ==> m.completed_focuses_in_round
            < m.config.spec_focuses_before_long_break(),
    ensures
        timer_validation(advanced(m, completed)) is Ok,
{
    lemma_stored_timer_accepted(m);
    lemma_stored_timer_accepted(advanced(m, completed));
    lemma_advance_follows_the_round(m, completed);
}

/// The whole seconds shown for a remaining time are the fewest seconds that
/// cover it: no fewer than the milliseconds left, and less than one second
/// more.
pub proof fn lemma_seconds_cover_remaining(ms: int)
    requires
        ms >= 0,
    ensures
        ceil_seconds(ms) * 1000 >= ms,
        ceil_seconds(ms) * 1000 < ms + 1000,
{
}

/// A started timer runs down with the clock: right after starting it shows
/// the time it had left, it loses exactly the time that passes, never goes
/// below zero, and shows zero from its deadline on. An idle or paused timer
/// shows the same time whenever it is read.
pub proof fn lemma_running_timer_counts_down(
    remaining_ms: u64,
    started_ms: u64,
    now_ms: u64,
)
    requires
        started_ms + remaining_ms <= u64::MAX,
        started_ms <= now_ms,
    ensures
        ({
            let running = TimerState::Running { deadline_ms: (started_ms + remaining_ms) as u64 };
            &&& remaining_at(running, started_ms) == remaining_ms
            &&& remaining_at(running, now_ms) == if now_ms - started_ms <= remaining_ms {
                remaining_ms - (now_ms - started_ms)
            } else {
                0
            }
            &&& remaining_at(TimerState::Idle { remaining_ms }, now_ms) == remaining_ms
            &&& remaining_at(TimerState::Paused { remaining_ms }, now_ms) == remaining_ms
        }),
{
}

fn session_millis_exec(config: &TimerConfig, session: SessionKind) -> (r: u64)
    requires
        session_millis(*config, session) <= u64::MAX,
    ensures
        r == session_millis(*config, session),
{
    config.duration_millis(session.into())
}

impl PomodoroTimer {
    /// Creates an idle Focus session from a validated configuration.
    pub fn new(config: TimerConfig) -> (r: Result<Self, TimerError>)
        ensures
            match r {
                Ok(timer) => config.validation() is Ok && timer@ == (TimerModel {
                    config,
                    session: SessionKind::Focus,
                    state: TimerState::Idle {
                        remaining_ms: session_millis(config, SessionKind::Focus) as u64,
                    },
                    completed_focuses_in_round: 0,
                }),
                Err(e) => config.validation() is Err && e == TimerError::InvalidConfig(
                    config.validation()->Err_0,
                ),
            },
    {
        proof {
            config.lemma_validation_ok_iff_valid();
        }
        match config.validate() {
            Err(e) => Err(TimerError::InvalidConfig(e)),
            Ok(()) => Ok(
                PomodoroTimer {
                    state: TimerState::Idle {
                        remaining_ms: session_millis_exec(&config, SessionKind::Focus),
                    },
                    config,
                    session: SessionKind::Focus,
                    completed_focuses_in_round: 0,
                },
            ),
        }
    }

    /// A timer holding exactly these values, as read back from storage. Call
    /// `validate` before relying on it.
    pub fn from_parts(
        config: TimerConfig,
        session: SessionKind,
        state: TimerState,
        completed_focuses_in_round: u32,
    ) -> (r: Self)
        ensures
            r@ == (TimerModel { config, session, state, completed_focuses_in_round }),
    {
        PomodoroTimer { config, session, state, completed_focuses_in_round }
    }

    pub fn config(&self) -> (r: &TimerConfig)
        ensures
            *r == self@.config,
    {
        &self.config
    }

    pub fn session(&self) -> (r: SessionKind)
        ensures
            r == self@.session,
    {
        self.session
    }

    pub fn state(&self) -> (r: TimerState)
        ensures
            r == self@.state,
    {
        self.state
    }

    pub fn status(&self) -> (r: TimerStatus)
        ensures
            r == status_of(self@.state),
    {
        match self.state {
            TimerState::Idle { .. } => TimerStatus::Idle,
            TimerState::Running { .. } => TimerStatus::Running,
            TimerState::Paused { .. } => TimerStatus::Paused,
        }
    }

    pub fn completed_focuses_in_round(&self) -> (r: u32)
        ensures
            r == self@.completed_focuses_in_round,
    {
        self.completed_focuses_in_round
    }

    /// The remaining time in milliseconds at `now_ms`.
    pub fn remaining_millis(&self, now_ms: u64) -> (r: u64)
        ensures
            r == remaining_at(self@.state, now_ms),
    {
        match self.state {
            TimerState::Idle { remaining_ms } => remaining_ms,
            TimerState::Paused { remaining_ms } => remaining_ms,
            TimerState::Running { deadline_ms } => deadline_ms.saturating_sub(now_ms),
        }
    }

    /// The remaining whole seconds, rounded up for display.
    pub fn remaining_seconds(&self, now_ms: u64) -> (r: u64)
        ensures
            r == ceil_seconds(remaining_at(self@.state, now_ms)),
    {
        let ms = self.remaining_millis(now_ms);
        if ms % 1000 == 0 {
            ms / 1000
        } else {
            ms / 1000 + 1
        }
    }

    /// Starts an idle session; the deadline is `now_ms` plus the remaining time.
    /// A rejected start changes nothing.
    pub fn start(&mut self, now_ms: u64) -> (r: Result<(), TimerError>)
        ensures
            match old(self)@.state {
                TimerState::Idle { remaining_ms } => if now_ms + remaining_ms <= u64::MAX {
                    r is Ok && final(self)@ == (TimerModel {
                        state: TimerState::Running { deadline_ms: (now_ms + remaining_ms) as u64 },
                        ..old(self)@
                    })
                } else {
                    r == Err::<(), TimerError>(TimerError::TimestampOverflow) && final(self)@
                        == old(self)@
                },
                _ => r == Err::<(), TimerError>(
                    TimerError::InvalidTransition {
                        action: Action::Start,
                        status: status_of(old(self)@.state),
                    },
                ) && final(self)@ == old(self)@,
            },
    {
        let remaining_ms = match self.state {
            TimerState::Idle { remaining_ms } => remaining_ms,
            _ => {
                return Err(
                    TimerError::InvalidTransition { action: Action::Start, status: self.status() },
                );
            },
        };
        match now_ms.checked_add(remaining_ms) {
            None => Err(TimerError::TimestampOverflow),
            Some(deadline_ms) => {
                self.state = TimerState::Running { deadline_ms };
                Ok(())
            },
        }
    }

    /// Pauses a running session, keeping the time left before its deadline.
    /// A session whose deadline has passed must be ticked instead.
    pub fn pause(&mut self, now_ms: u64) -> (r: Result<(), TimerError>)
        ensures
            match old(self)@.state {
                TimerState::Running { deadline_ms } => if now_ms < deadline_ms {
                    r is Ok && final(self)@ == (TimerModel {
                        state: TimerState::Paused { remaining_ms: (deadline_ms - now_ms) as u64 },
                        ..old(self)@
                    })
                } else {
                    r == Err::<(), TimerError>(TimerError::SessionAlreadyElapsed) && final(self)@
                        == old(self)@
                },
                _ => r == Err::<(), TimerError>(
                    TimerError::InvalidTransition {
                        action: Action::Pause,
                        status: status_of(old(self)@.state),
                    },
                ) && final(self)@ == old(self)@,
            },
    {
        let deadline_ms = match self.state {
            TimerState::Running { deadline_ms } => deadline_ms,
            _ => {
                return Err(
                    TimerError::InvalidTransition { action: Action::Pause, status: self.status() },
                );
            },
        };
        let remaining_ms = deadline_ms.saturating_sub(now_ms);
        if remaining_ms == 0 {
            return Err(TimerError::SessionAlreadyElapsed);
        }
        self.state = TimerState::Paused { remaining_ms };
        Ok(())
    }

    /// Resumes a paused session with a new deadline. A rejected resume changes nothing.
    pub fn resume(&mut self, now_ms: u64) -> (r: Result<(), TimerError>)
        ensures
            match old(self)@.state {
                TimerState::Paused { remaining_ms } => if now_ms + remaining_ms <= u64::MAX {
                    r is Ok && final(self)@ == (TimerModel {
                        state: TimerState::Running { deadline_ms: (now_ms + remaining_ms) as u64 },
                        ..old(self)@
                    })
                } else {
                    r == Err::<(), TimerError>(TimerError::TimestampOverflow) && final(self)@
                        == old(self)@
                },
                _ => r == Err::<(), TimerError>(
                    TimerError::InvalidTransition {
                        action: Action::Resume,
                        status: status_of(old(self)@.state),
                    },
                ) && final(self)@ == old(self)@,
            },
    {
        let remaining_ms = match self.state {
            TimerState::Paused { remaining_ms } => remaining_ms,
            _ => {
                return Err(
                    TimerError::InvalidTransition { action: Action::Resume, status: self.status() },
                );
            },
        };
        match now_ms.checked_add(remaining_ms) {
            None => Err(TimerError::TimestampOverflow),
            Some(deadline_ms) => {
                self.state = TimerState::Running { deadline_ms };
                Ok(())
            },
        }
    }

    /// Restores the current session's full duration and returns it to idle.
    pub fn reset(&mut self)
        requires
            session_millis(old(self)@.config, old(self)@.session) <= u64::MAX,
        ensures
            final(self)@ == (TimerModel {
                state: TimerState::Idle {
                    remaining_ms: session_millis(old(self)@.config, old(self)@.session) as u64,
                },
                ..old(self)@
            }),
    {
        self.state = TimerState::Idle { remaining_ms: session_millis_exec(&self.config, self.session) };
    }

    /// Advances without counting the current session toward the round.
    pub fn skip(&mut self) -> (r: TimerEvent)
        requires
            can_advance(old(self)@, false),
        ensures
            final(self)@ == advanced(old(self)@, false),
            r == (TimerEvent::SessionSkipped { session: old(self)@.session }),
    {
        let skipped = self.session;
        self.advance_session(false);
        TimerEvent::SessionSkipped { session: skipped }
    }

    /// Applies the current time and completes an elapsed running session
    /// exactly once; the completion time is the deadline, not `now_ms`.
    pub fn tick(&mut self, now_ms: u64) -> (r: Option<TimerEvent>)
        requires
            can_advance(old(self)@, true),
        ensures
            match old(self)@.state {
                TimerState::Running { deadline_ms } if now_ms >= deadline_ms => final(self)@
                    == advanced(old(self)@, true) && r == Some(
                    TimerEvent::SessionCompleted {
                        session: old(self)@.session,
                        duration_seconds: old(self)@.config.spec_duration_seconds(
                            old(self)@.session.to_domain(),
                        ),
                        completed_at_ms: deadline_ms,
                    },
                ),
                _ => r is None && final(self)@ == old(self)@,
            },
    {
        let deadline_ms = match self.state {
            TimerState::Running { deadline_ms } => deadline_ms,
            _ => {
                return None;
            },
        };
        if now_ms < deadline_ms {
            return None;
        }
        let completed = self.session;
        let duration_seconds = self.config.duration_seconds(completed.into());
        self.advance_session(true);
        Some(TimerEvent::SessionCompleted { session: completed, duration_seconds, completed_at_ms: deadline_ms })
    }

    /// Checks that stored values agree with their configuration.
    pub fn validate(&self) -> (r: Result<(), TimerError>)
        ensures
            r == timer_validation(self@),
    {
        proof {
            self.config.lemma_validation_ok_iff_valid();
        }
        if let Err(e) = self.config.validate() {
            return Err(TimerError::InvalidConfig(e));
        }
        let maximum = self.config.focuses_before_long_break();
        if self.completed_focuses_in_round > maximum {
            return Err(
                TimerError::InvalidCompletedFocusCount {
                    found: self.completed_focuses_in_round,
                    maximum,
                },
            );
        }
        let expected_maximum = session_millis_exec(&self.config, self.session);
        match self.state {
            TimerState::Idle { remaining_ms } | TimerState::Paused { remaining_ms } => {
                if remaining_ms == 0 || remaining_ms > expected_maximum {
                    Err(
                        TimerError::InvalidRemainingTime {
                            found_ms: remaining_ms,
                            maximum_ms: expected_maximum,
                        },
                    )
                } else {
                    Ok(())
                }
            },
            _ => Ok(()),
        }
    }

    fn advance_session(&mut self, completed: bool)
        requires
            can_advance(old(self)@, completed),
        ensures
            final(self)@ == advanced(old(self)@, completed),
    {
        match self.session {
            SessionKind::Focus => {
                if completed {
                    self.completed_focuses_in_round = self.completed_focuses_in_round + 1;
                }
                self.session = if self.completed_focuses_in_round
                    >= self.config.focuses_before_long_break() {
                    SessionKind::LongBreak
                } else {
                    SessionKind::ShortBreak
                };
            },
            SessionKind::ShortBreak => {
                self.session = SessionKind::Focus;
            },
            SessionKind::LongBreak => {
                self.completed_focuses_in_round = 0;
                self.session = SessionKind::Focus;
            },
        }
        self.state = TimerState::Idle { remaining_ms: session_millis_exec(&self.config, self.session) };
    }
}

} // verus!
