//! What commands and observations add to credited session time: commands
//! never credit time, and an observation credits only continuous monotonic
//! time of a running session.

use vstd::prelude::*;

use crate::consistency::with_credit;
use crate::model::{ProgressState, Session, SessionOutcome, TimerState, Timestamp};
use crate::observation::Observation;
use crate::transition::{classify_against, Command, DomainModel};
use crate::validation_spec::all_sessions;

verus! {

/// The time credited to a sequence of sessions.
pub open spec fn credited_ms(sessions: Seq<Session>) -> int
    decreases sessions.len(),
{
    if sessions.len() == 0 {
        0
    } else {
        credited_ms(sessions.drop_last()) + sessions.last().elapsed_ms
    }
}

/// The time credited to every recorded and active session of a unit.
pub open spec fn unit_credited_ms(m: DomainModel) -> int {
    credited_ms(all_sessions(m))
}

/// One more session adds its credited time.
pub proof fn lemma_credited_push(sessions: Seq<Session>, session: Session)
    ensures
        credited_ms(sessions.push(session)) == credited_ms(sessions) + session.elapsed_ms,
{
    assert(sessions.push(session).drop_last() =~= sessions);
}

/// Ending the active session moves its credited time into the history.
proof fn lemma_end_credit(m: DomainModel, outcome: SessionOutcome, at: Timestamp)
    requires
        m.end_session(outcome, at) is Ok,
    ensures
        unit_credited_ms(m.end_session(outcome, at)->Ok_0) == unit_credited_ms(m),
{
    let mf = m.end_session(outcome, at)->Ok_0;
    match m.snapshot.state {
        ProgressState::Active { session, .. } => {
            let ended = Session {
                end: Some(crate::model::SessionEnd { ended_at: at, outcome }),
                ..session
            };
            assert(all_sessions(mf) == m.sessions.push(ended));
            lemma_credited_push(m.sessions, ended);
            lemma_credited_push(m.sessions, session);
        },
        _ => {},
    }
}

/// Starting a session adds one with nothing credited.
proof fn lemma_start_credit(
    m: DomainModel,
    kind: crate::model::SessionKind,
    task: Option<crate::model::CurrentTask>,
    source: Option<crate::model::SessionId>,
    at: Timestamp,
)
    requires
        !(m.snapshot.state is Active),
        m.start_session(kind, task, source, at) is Ok,
    ensures
        unit_credited_ms(m.start_session(kind, task, source, at)->Ok_0.0) == unit_credited_ms(m),
{
    let m1 = m.start_session(kind, task, source, at)->Ok_0.0;
    let session = match m1.snapshot.state {
        ProgressState::Active { session, .. } => session,
        _ => arbitrary(),
    };
    assert(all_sessions(m1) == m.sessions.push(session));
    assert(all_sessions(m) == m.sessions);
    lemma_credited_push(m.sessions, session);
}

/// No command credits time: pauses, distractions, breaks between sessions,
/// choices and application downtime add nothing to any session.
pub proof fn lemma_apply_credits_nothing(m: DomainModel, command: Command, at: Timestamp)
    requires
        m.apply(command, at) is Ok,
    ensures
        unit_credited_ms(m.apply(command, at)->Ok_0) == unit_credited_ms(m),
{
    let mf = m.apply(command, at)->Ok_0;
    match command {
        Command::Start(kind) => {
            let (next_kind, draft) = match m.snapshot.state {
                ProgressState::Ready { next_kind, current_task_draft } => (next_kind, current_task_draft),
                _ => arbitrary(),
            };
            lemma_start_credit(m, kind, draft, None, at);
        },
        Command::End { outcome, .. } => lemma_end_credit(m, outcome, at),
        Command::DecideQuickStart { session_id, choice } => {
            let task = match m.snapshot.state {
                ProgressState::AwaitingQuickStartDecision { current_task, .. } => current_task,
                _ => arbitrary(),
            };
            match choice {
                crate::model::QuickStartChoice::Continue => {
                    lemma_start_credit(m, crate::model::SessionKind::Focus, task, Some(session_id), at);
                    let m1 = m.start_session(crate::model::SessionKind::Focus, task, Some(session_id), at)->Ok_0.0;
                    assert(all_sessions(mf) == all_sessions(m1));
                },
                _ => {},
            }
        },
        _ => {
            assert(all_sessions(mf) == all_sessions(m));
        },
    }
}

/// An observation credits nothing unless it proves continuous time, and then
/// no more than the monotonic time it measured.
pub proof fn lemma_observe_credit(m: DomainModel, observation: Observation)
    requires
        m.observe(observation) is Ok,
    ensures
        unit_credited_ms(m) <= unit_credited_ms(m.observe(observation)->Ok_0),
        observation.spec_classify() is Err ==> unit_credited_ms(m.observe(observation)->Ok_0)
            == unit_credited_ms(m),
        observation.spec_classify() is Ok ==> unit_credited_ms(m.observe(observation)->Ok_0)
            <= unit_credited_ms(m) + observation.monotonic_elapsed_ms->0,
{
    let mf = m.observe(observation)->Ok_0;
    let at = observation.at;
    if m.snapshot.state is Active {
        let m1 = m.mark_clock_uncertainty(at);
        let (session, timer) = match m1.snapshot.state {
            ProgressState::Active { session, timer } => (session, timer),
            _ => arbitrary(),
        };
        assert(all_sessions(m1) == all_sessions(m));
        match classify_against(observation, timer) {
            Err(_) => {
                assert(all_sessions(mf) == all_sessions(m));
            },
            Ok(elapsed) => match timer {
                TimerState::Running { run } => {
                    let remaining = session.spec_remaining_ms();
                    let credit = if elapsed < remaining {
                        elapsed
                    } else {
                        remaining
                    };
                    let m2 = with_credit(m1, credit, at);
                    let credited = Session {
                        elapsed_ms: (session.elapsed_ms + credit) as u64,
                        ..session
                    };
                    assert(all_sessions(m2) == m.sessions.push(credited));
                    assert(all_sessions(m) == m.sessions.push(session));
                    lemma_credited_push(m.sessions, credited);
                    lemma_credited_push(m.sessions, session);
                    if credited.spec_remaining_ms() == 0 {
                        lemma_end_credit(m2, SessionOutcome::Completed, at);
                    }
                },
                TimerState::Interrupted { .. } => {
                    assert(all_sessions(mf) == all_sessions(m));
                },
            },
        }
    }
}

} // verus!
