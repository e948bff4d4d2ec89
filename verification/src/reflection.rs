//! The reflection view: work time, focus completions, distractions and returns,
//! derived from recorded sessions and events.

use vstd::prelude::*;

use crate::domain::DomainState;
use crate::model::{
    DomainError, EventKind, History, HistoryEvent, InterruptionKind, InterruptionOutcome,
    ProgressState, ReflectionSummary, Session, SessionKind, SessionOutcome,
};

verus! {

/// Whether a session is a Focus that ended by natural completion.
pub open spec fn is_completed_focus(session: Session) -> bool {
    session.kind == SessionKind::Focus && session.end is Some && session.end->0.outcome
        == SessionOutcome::Completed
}

impl ReflectionSummary {
    pub open spec fn zero() -> ReflectionSummary {
        ReflectionSummary { work_ms: 0, completed_focus_sessions: 0, distractions: 0, returns: 0 }
    }

    /// Adds a session's work time (Focus and Quick Start) and natural Focus completion.
    pub open spec fn spec_including_session(self, session: Session) -> Result<
        ReflectionSummary,
        DomainError,
    > {
        let work = if session.kind.spec_is_work() {
            self.work_ms + session.elapsed_ms
        } else {
            self.work_ms as int
        };
        let completed = if is_completed_focus(session) {
            self.completed_focus_sessions + 1
        } else {
            self.completed_focus_sessions as int
        };
        if work > u64::MAX || completed > u64::MAX {
            Err(DomainError::Overflow)
        } else {
            Ok(
                ReflectionSummary {
                    work_ms: work as u64,
                    completed_focus_sessions: completed as u64,
                    ..self
                },
            )
        }
    }

    /// Adds one session's work time and natural Focus completion, preserving
    /// interruption counts. Fails without a result on overflow.
    pub fn including_session(self, session: &Session) -> (r: Result<Self, DomainError>)
        ensures
            r == self.spec_including_session(*session),
    {
        let mut summary = self;
        if session.kind.is_work() {
            summary.work_ms = match self.work_ms.checked_add(session.elapsed_ms) {
                Some(work) => work,
                None => {
                    return Err(DomainError::Overflow);
                },
            };
        }
        let completed = match session.end {
            Some(end) => session.kind == SessionKind::Focus && end.outcome
                == SessionOutcome::Completed,
            None => false,
        };
        if completed {
            summary.completed_focus_sessions = match self.completed_focus_sessions.checked_add(1) {
                Some(count) => count,
                None => {
                    return Err(DomainError::Overflow);
                },
            };
        }
        Ok(summary)
    }
}

/// The summary of recorded sessions, in order, stopping at the first overflow.
pub open spec fn sessions_summary(sessions: Seq<Session>) -> Result<ReflectionSummary, DomainError>
    decreases sessions.len(),
{
    if sessions.len() == 0 {
        Ok(ReflectionSummary::zero())
    } else {
        match sessions_summary(sessions.drop_last()) {
            Err(e) => Err(e),
            Ok(summary) => summary.spec_including_session(sessions.last()),
        }
    }
}

pub open spec fn is_distraction_start(event: HistoryEvent) -> bool {
    event.payload matches EventKind::InterruptionStarted {
        interruption_kind: InterruptionKind::Distraction,
        ..
    }
}

pub open spec fn is_return(event: HistoryEvent) -> bool {
    event.payload matches EventKind::InterruptionEnded { end, .. } && end.outcome
        == InterruptionOutcome::Returned
}

/// The number of reported distractions.
pub open spec fn count_distractions(events: Seq<HistoryEvent>) -> nat
    decreases events.len(),
{
    if events.len() == 0 {
        0
    } else {
        count_distractions(events.drop_last()) + if is_distraction_start(events.last()) {
            1nat
        } else {
            0nat
        }
    }
}

/// The number of explicit returns from distractions.
pub open spec fn count_returns(events: Seq<HistoryEvent>) -> nat
    decreases events.len(),
{
    if events.len() == 0 {
        0
    } else {
        count_returns(events.drop_last()) + if is_return(events.last()) {
            1nat
        } else {
            0nat
        }
    }
}

/// The reflection of a history: session totals plus event counts.
pub open spec fn history_reflection(sessions: Seq<Session>, events: Seq<HistoryEvent>) -> Result<
    ReflectionSummary,
    DomainError,
> {
    match sessions_summary(sessions) {
        Err(e) => Err(e),
        Ok(summary) => Ok(
            ReflectionSummary {
                distractions: count_distractions(events) as u64,
                returns: count_returns(events) as u64,
                ..summary
            },
        ),
    }
}

proof fn lemma_counts_bounded(events: Seq<HistoryEvent>)
    ensures
        count_distractions(events) <= events.len(),
        count_returns(events) <= events.len(),
    decreases events.len(),
{
    if events.len() > 0 {
        lemma_counts_bounded(events.drop_last());
    }
}

impl History {
    /// Summarizes recorded sessions and events, excluding the active snapshot.
    /// Fails if the total work duration or completion count overflows.
    pub fn reflection(&self) -> (r: Result<ReflectionSummary, DomainError>)
        ensures
            r == history_reflection(self.sessions@, self.events@),
    {
        let mut summary = ReflectionSummary {
            work_ms: 0,
            completed_focus_sessions: 0,
            distractions: 0,
            returns: 0,
        };
        let mut i: usize = 0;
        while i < self.sessions.len()
            invariant
                i <= self.sessions.len(),
                sessions_summary(self.sessions@.subrange(0, i as int)) == Ok::<
                    ReflectionSummary,
                    DomainError,
                >(summary),
                summary.distractions == 0,
                summary.returns == 0,
            decreases self.sessions.len() - i,
        {
            assert(self.sessions@.subrange(0, i + 1).drop_last() =~= self.sessions@.subrange(
                0,
                i as int,
            ));
            match summary.including_session(&self.sessions[i]) {
                Ok(next) => {
                    summary = next;
                },
                Err(e) => {
                    proof {
                        lemma_summary_error_sticks(self.sessions@, i as int + 1);
                    }
                    return Err(e);
                },
            }
            i += 1;
        }
        assert(self.sessions@.subrange(0, i as int) =~= self.sessions@);
        let mut j: usize = 0;
        while j < self.events.len()
            invariant
                j <= self.events.len(),
                summary.distractions == count_distractions(self.events@.subrange(0, j as int)),
                summary.returns == count_returns(self.events@.subrange(0, j as int)),
                sessions_summary(self.sessions@) == Ok::<ReflectionSummary, DomainError>(
                    ReflectionSummary { distractions: 0, returns: 0, ..summary },
                ),
            decreases self.events.len() - j,
        {
            assert(self.events@.subrange(0, j + 1).drop_last() =~= self.events@.subrange(
                0,
                j as int,
            ));
            proof {
                lemma_counts_bounded(self.events@.subrange(0, j + 1));
            }
            let event = self.events[j];
            match event.payload {
                EventKind::InterruptionStarted {
                    interruption_kind: InterruptionKind::Distraction,
                    ..
                } => {
                    summary.distractions = summary.distractions + 1;
                },
                EventKind::InterruptionEnded { end, .. } => {
                    if end.outcome == InterruptionOutcome::Returned {
                        summary.returns = summary.returns + 1;
                    }
                },
                _ => {},
            }
            j += 1;
        }
        assert(self.events@.subrange(0, j as int) =~= self.events@);
        Ok(summary)
    }
}

/// Once a prefix of the sessions overflows, every longer prefix does too.
proof fn lemma_summary_error_sticks(sessions: Seq<Session>, n: int)
    requires
        0 <= n <= sessions.len(),
        sessions_summary(sessions.subrange(0, n)) is Err,
    ensures
        sessions_summary(sessions) == sessions_summary(sessions.subrange(0, n)),
    decreases sessions.len() - n,
{
    if n < sessions.len() {
        assert(sessions.subrange(0, n + 1).drop_last() =~= sessions.subrange(0, n));
        lemma_summary_error_sticks(sessions, n + 1);
    } else {
        assert(sessions.subrange(0, n) =~= sessions);
    }
}

/// Counting the events that satisfy `pred`, where `pred` picks the distraction starts.
proof fn lemma_distractions_filtered(events: Seq<HistoryEvent>, pred: spec_fn(HistoryEvent) -> bool)
    requires
        forall|e: HistoryEvent| #[trigger] pred(e) == is_distraction_start(e),
    ensures
        count_distractions(events) == events.filter(pred).len(),
    decreases events.len(),
{
    reveal(Seq::filter);
    if events.len() > 0 {
        lemma_distractions_filtered(events.drop_last(), pred);
    }
}

/// Counting the events that satisfy `pred`, where `pred` picks the returns.
proof fn lemma_returns_filtered(events: Seq<HistoryEvent>, pred: spec_fn(HistoryEvent) -> bool)
    requires
        forall|e: HistoryEvent| #[trigger] pred(e) == is_return(e),
    ensures
        count_returns(events) == events.filter(pred).len(),
    decreases events.len(),
{
    reveal(Seq::filter);
    if events.len() > 0 {
        lemma_returns_filtered(events.drop_last(), pred);
    }
}

/// The distractions of a reflection are exactly the events that start an
/// interruption of kind Distraction: a Pause, an app exit or an observation
/// gap never counts. The returns are exactly the interruption ends whose
/// outcome is Returned.
pub proof fn lemma_reflection_counts_events(sessions: Seq<Session>, events: Seq<HistoryEvent>)
    requires
        history_reflection(sessions, events) is Ok,
        events.len() <= u64::MAX,
    ensures
        history_reflection(sessions, events)->Ok_0.distractions == events.filter(
            |e: HistoryEvent|
                e.payload matches EventKind::InterruptionStarted {
                    interruption_kind: InterruptionKind::Distraction,
                    ..
                },
        ).len(),
        history_reflection(sessions, events)->Ok_0.returns == events.filter(
            |e: HistoryEvent|
                e.payload matches EventKind::InterruptionEnded { end, .. } && end.outcome
                    == InterruptionOutcome::Returned,
        ).len(),
{
    lemma_counts_bounded(events);
    lemma_distractions_filtered(
        events,
        |e: HistoryEvent|
            e.payload matches EventKind::InterruptionStarted {
                interruption_kind: InterruptionKind::Distraction,
                ..
            },
    );
    lemma_returns_filtered(
        events,
        |e: HistoryEvent|
            e.payload matches EventKind::InterruptionEnded { end, .. } && end.outcome
                == InterruptionOutcome::Returned,
    );
}

/// A reflection of no sessions has no work time and no completed Focus; one
/// more recorded session adds its elapsed time when it is a Focus or a Quick
/// Start, and one completion when it is a Focus that ended Completed. The
/// event counts do not depend on the sessions.
pub proof fn lemma_reflection_adds_session(
    sessions: Seq<Session>,
    events: Seq<HistoryEvent>,
    session: Session,
)
    requires
        history_reflection(sessions.push(session), events) is Ok,
    ensures
        history_reflection(Seq::empty(), events) matches Ok(zero) && zero.work_ms == 0
            && zero.completed_focus_sessions == 0,
        history_reflection(sessions, events) is Ok,
        ({
            let before = history_reflection(sessions, events)->Ok_0;
            let after = history_reflection(sessions.push(session), events)->Ok_0;
            &&& after.work_ms == before.work_ms + if session.kind == SessionKind::Focus
                || session.kind == SessionKind::QuickStart {
                session.elapsed_ms as int
            } else {
                0
            }
            &&& after.completed_focus_sessions == before.completed_focus_sessions + if session.kind
                == SessionKind::Focus && session.end is Some && session.end->0.outcome
                == SessionOutcome::Completed {
                1int
            } else {
                0
            }
            &&& after.distractions == before.distractions
            &&& after.returns == before.returns
        }),
{
    assert(sessions.push(session).drop_last() =~= sessions);
}

impl DomainState {
    /// The reflection view including the active session, without a second
    /// persisted aggregate.
    pub fn reflection(&self) -> (r: Result<ReflectionSummary, DomainError>)
        ensures
            r == match history_reflection(self@.sessions, self@.events) {
                Err(e) => Err(e),
                Ok(summary) => match self.snapshot.state {
                    ProgressState::Active { session, .. } => summary.spec_including_session(session),
                    _ => Ok(summary),
                },
            },
    {
        let summary = match self.history.reflection() {
            Ok(summary) => summary,
            Err(e) => {
                return Err(e);
            },
        };
        match &self.snapshot.state {
            ProgressState::Active { session, .. } => summary.including_session(session),
            _ => Ok(summary),
        }
    }
}

} // verus!
