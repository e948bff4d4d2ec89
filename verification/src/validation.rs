//! `DomainState::validate`: ownership, references, allocation and interval
//! accounting of a supplied domain unit, checked without replay or repair.

use vstd::prelude::*;

use crate::domain::DomainState;
use crate::model::{
    same_task, DomainError, EventKind, GapReason, History, HistoryEvent, IdAllocators,
    InterruptionEnd, InterruptionId, InterruptionKind, InterruptionOutcome, MeasuredDuration,
    PomodoroState, ProgressState, QuickStartDecision, Session, SessionId, SessionKind,
    SessionOutcome, TimerState, Timestamp,
};
use crate::transition::DomainModel;
use crate::validation_spec::{
    accounting_check, accounting_checks, active_check, all_sessions, before_last, decision_check,
    decision_checks, decision_for, ensure, event_effect, failure_result, find_session,
    forward_check, forward_checks, header_check, initial_facts, initial_scan,
    interruption_end_check, is_completed_quick_start, least_failure, recorded_sessions_check,
    scan_event, scan_events, session_checks, session_with_allocator_check, snapshot_check,
    validation, OpenInterruption, ScanModel, SessionFacts,
};

verus! {

fn check(condition: bool, reason: &'static str) -> (r: Result<(), DomainError>)
    ensures
        r == ensure(condition, reason),
{
    if condition {
        Ok(())
    } else {
        Err(DomainError::InvalidState(reason))
    }
}

/// A found index stays the answer for every longer sequence.
pub proof fn lemma_find_prefix(sessions: Seq<Session>, n: int, id: SessionId)
    requires
        0 <= n <= sessions.len(),
        find_session(sessions.subrange(0, n), id) >= 0,
    ensures
        find_session(sessions, id) == find_session(sessions.subrange(0, n), id),
    decreases sessions.len() - n,
{
    if n < sessions.len() {
        assert(sessions.subrange(0, n + 1).drop_last() =~= sessions.subrange(0, n));
        lemma_find_prefix(sessions, n + 1, id);
    } else {
        assert(sessions.subrange(0, n) =~= sessions);
    }
}

/// A found index is in range and names a session with that ID.
pub proof fn lemma_find_bounds(sessions: Seq<Session>, id: SessionId)
    ensures
        -1 <= find_session(sessions, id) < sessions.len(),
        find_session(sessions, id) >= 0 ==> sessions[find_session(sessions, id)].id == id,
    decreases sessions.len(),
{
    if sessions.len() > 0 {
        lemma_find_bounds(sessions.drop_last(), id);
    }
}

/// The first index among the first `len` sessions with this ID.
fn find_in(sessions: &Vec<Session>, len: usize, id: SessionId) -> (r: Option<usize>)
    requires
        len <= sessions.len(),
    ensures
        match r {
            Some(i) => i < len && find_session(sessions@.subrange(0, len as int), id) == i,
            None => find_session(sessions@.subrange(0, len as int), id) == -1,
        },
{
    let ghost all = sessions@.subrange(0, len as int);
    let mut i: usize = 0;
    while i < len
        invariant
            i <= len <= sessions.len(),
            all == sessions@.subrange(0, len as int),
            find_session(sessions@.subrange(0, i as int), id) == -1,
        decreases len - i,
    {
        assert(sessions@.subrange(0, i + 1).drop_last() =~= sessions@.subrange(0, i as int));
        if sessions[i].id == id {
            assert(find_session(sessions@.subrange(0, i + 1), id) == i);
            assert(all.subrange(0, i + 1) =~= sessions@.subrange(0, i + 1));
            proof {
                lemma_find_prefix(all, i + 1, id);
            }
            return Some(i);
        }
        i += 1;
    }
    assert(sessions@.subrange(0, i as int) =~= all);
    None
}

fn find(sessions: &Vec<Session>, id: SessionId) -> (r: Option<usize>)
    ensures
        match r {
            Some(i) => i < sessions.len() && find_session(sessions@, id) == i,
            None => find_session(sessions@, id) == -1,
        },
{
    assert(sessions@.subrange(0, sessions.len() as int) =~= sessions@);
    find_in(sessions, sessions.len(), id)
}

proof fn lemma_decision_prefix(
    decisions: Seq<(SessionId, QuickStartDecision)>,
    n: int,
    id: SessionId,
)
    requires
        0 <= n <= decisions.len(),
        decision_for(decisions.subrange(0, n), id) is Some,
    ensures
        decision_for(decisions, id) == decision_for(decisions.subrange(0, n), id),
    decreases decisions.len() - n,
{
    if n < decisions.len() {
        assert(decisions.subrange(0, n + 1).drop_last() =~= decisions.subrange(0, n));
        lemma_decision_prefix(decisions, n + 1, id);
    } else {
        assert(decisions.subrange(0, n) =~= decisions);
    }
}

fn find_decision(decisions: &Vec<(SessionId, QuickStartDecision)>, id: SessionId) -> (r: Option<
    QuickStartDecision,
>)
    ensures
        r == decision_for(decisions@, id),
{
    let mut i: usize = 0;
    while i < decisions.len()
        invariant
            i <= decisions.len(),
            decision_for(decisions@.subrange(0, i as int), id) is None,
        decreases decisions.len() - i,
    {
        assert(decisions@.subrange(0, i + 1).drop_last() =~= decisions@.subrange(0, i as int));
        if decisions[i].0 == id {
            proof {
                lemma_decision_prefix(decisions@, i + 1, id);
            }
            return Some(decisions[i].1);
        }
        i += 1;
    }
    assert(decisions@.subrange(0, i as int) =~= decisions@);
    None
}

fn contains_id(ids: &Vec<InterruptionId>, id: InterruptionId) -> (r: bool)
    ensures
        r == ids@.contains(id),
{
    let mut i: usize = 0;
    while i < ids.len()
        invariant
            i <= ids.len(),
            forall|k: int| 0 <= k < i ==> ids@[k] != id,
        decreases ids.len() - i,
    {
        if ids[i] == id {
            assert(ids@[i as int] == id);
            return true;
        }
        i += 1;
    }
    false
}

fn is_completed_quick_start_exec(session: &Session) -> (r: bool)
    ensures
        r == is_completed_quick_start(*session),
{
    session.kind == SessionKind::QuickStart && match session.end {
        Some(end) => end.outcome == SessionOutcome::Completed,
        None => false,
    }
}

/// Folds keyed check results into the failure with the least key.
fn keep_least(best: Option<(u64, DomainError)>, key: u64, r: Result<(), DomainError>) -> (out: Option<
    (u64, DomainError),
>)
    ensures
        out == match r {
            Ok(_) => best,
            Err(e) => match best {
                Some(b) => if b.0 <= key {
                    best
                } else {
                    Some((key, e))
                },
                None => Some((key, e)),
            },
        },
{
    match r {
        Ok(()) => best,
        Err(e) => match best {
            Some(b) => if b.0 <= key {
                Some(b)
            } else {
                Some((key, e))
            },
            None => Some((key, e)),
        },
    }
}

fn failure(best: Option<(u64, DomainError)>) -> (r: Result<(), DomainError>)
    ensures
        r == failure_result(best),
{
    match best {
        Some(b) => Err(b.1),
        None => Ok(()),
    }
}

fn session_check_exec(session: &Session, next_session_id: u64) -> (r: Result<(), DomainError>)
    ensures
        r == session_with_allocator_check(*session, next_session_id),
{
    let r = check(session.id.0 > 0, "zero session ID");
    if r.is_err() {
        return r;
    }
    let planned = session.planned_duration_ms;
    let r = check(1_000 <= planned && planned <= 86_400_000 && planned % 1_000 == 0, "planned duration");
    if r.is_err() {
        return r;
    }
    let r = check(session.elapsed_ms <= planned, "elapsed duration");
    if r.is_err() {
        return r;
    }
    let consistent_end = match session.end {
        Some(end) => (end.outcome == SessionOutcome::Completed) == (session.elapsed_ms == planned),
        None => true,
    };
    let r = check(consistent_end, "completion duration");
    if r.is_err() {
        return r;
    }
    let r = check(session.kind != SessionKind::QuickStart || planned == 120_000, "quick start duration");
    if r.is_err() {
        return r;
    }
    let r = check(session.kind.is_work() || session.current_task.is_none(), "break task");
    if r.is_err() {
        return r;
    }
    let r = check(
        session.kind == SessionKind::Focus || session.continued_from_quick_start.is_none(),
        "continuation kind",
    );
    if r.is_err() {
        return r;
    }
    check(session.id.0 < next_session_id, "session allocator")
}

/// Once a prefix fails the recorded-session check, the whole sequence fails the same way.
proof fn lemma_recorded_sticks(sessions: Seq<Session>, n: int)
    requires
        0 <= n <= sessions.len(),
        recorded_sessions_check(sessions.subrange(0, n)) is Err,
    ensures
        recorded_sessions_check(sessions) == recorded_sessions_check(sessions.subrange(0, n)),
    decreases sessions.len() - n,
{
    if n < sessions.len() {
        assert(sessions.subrange(0, n + 1).drop_last() =~= sessions.subrange(0, n));
        lemma_recorded_sticks(sessions, n + 1);
    } else {
        assert(sessions.subrange(0, n) =~= sessions);
    }
}

fn recorded_sessions_exec(sessions: &Vec<Session>) -> (r: Result<(), DomainError>)
    ensures
        r == recorded_sessions_check(sessions@),
{
    let mut i: usize = 0;
    while i < sessions.len()
        invariant
            i <= sessions.len(),
            recorded_sessions_check(sessions@.subrange(0, i as int)) is Ok,
        decreases sessions.len() - i,
    {
        let ghost prefix = sessions@.subrange(0, i + 1);
        assert(prefix.drop_last() =~= sessions@.subrange(0, i as int));
        let r = check(sessions[i].end.is_some(), "unfinished history session");
        let r = if r.is_err() {
            r
        } else {
            let found = find_in(sessions, i, sessions[i].id);
            check(found.is_none(), "duplicate session")
        };
        if r.is_err() {
            proof {
                lemma_recorded_sticks(sessions@, i + 1);
            }
            return r;
        }
        i += 1;
    }
    assert(sessions@.subrange(0, i as int) =~= sessions@);
    Ok(())
}

fn least_session_failure(sessions: &Vec<Session>, next_session_id: u64) -> (r: Result<(), DomainError>)
    ensures
        r == failure_result(least_failure(session_checks(sessions@, next_session_id))),
{
    let ghost checks = session_checks(sessions@, next_session_id);
    let mut best: Option<(u64, DomainError)> = None;
    let mut i: usize = 0;
    while i < sessions.len()
        invariant
            i <= sessions.len(),
            checks == session_checks(sessions@, next_session_id),
            best == least_failure(checks.subrange(0, i as int)),
        decreases sessions.len() - i,
    {
        assert(checks.subrange(0, i + 1).drop_last() =~= checks.subrange(0, i as int));
        let r = session_check_exec(&sessions[i], next_session_id);
        best = keep_least(best, sessions[i].id.0, r);
        i += 1;
    }
    assert(checks.subrange(0, i as int) =~= checks);
    failure(best)
}


/// Recorded sessions followed by the active one, copied out of the domain.
fn all_sessions_exec(state: &DomainState) -> (r: Vec<Session>)
    ensures
        r@ == all_sessions(state@),
{
    let mut all: Vec<Session> = Vec::new();
    let mut i: usize = 0;
    while i < state.history.sessions.len()
        invariant
            i <= state.history.sessions.len(),
            all@ == state.history.sessions@.subrange(0, i as int),
        decreases state.history.sessions.len() - i,
    {
        all.push(state.history.sessions[i].copy());
        i += 1;
        assert(all@ =~= state.history.sessions@.subrange(0, i as int));
    }
    assert(all@ =~= state.history.sessions@);
    if let ProgressState::Active { session, .. } = &state.snapshot.state {
        all.push(session.copy());
    }
    all
}

fn header_exec(state: &DomainState) -> (r: Result<(), DomainError>)
    ensures
        r == header_check(state@),
{
    let settings = &state.snapshot.settings;
    match settings.validate() {
        Err(e) => Err(DomainError::InvalidConfig(e)),
        Ok(()) => {
            let r = check(
                state.snapshot.round_progress.completed_focuses_in_round
                    <= settings.focuses_before_long_break(),
                "round progress",
            );
            if r.is_err() {
                return r;
            }
            check(
                state.ids.next_session_id > 0 && state.ids.next_interruption_id > 0
                    && state.ids.next_event_sequence > 0,
                "zero allocator",
            )
        },
    }
}

fn active_exec(state: &DomainState) -> (r: Result<(), DomainError>)
    requires
        header_check(state@) is Ok,
    ensures
        r == active_check(state@),
{
    proof {
        state.snapshot.settings.lemma_validation_ok_iff_valid();
    }
    match &state.snapshot.state {
        ProgressState::Active { session, .. } => {
            let r = check(
                session.end.is_none() && session.elapsed_ms < session.planned_duration_ms,
                "ended active session",
            );
            if r.is_err() {
                return r;
            }
            let planned = state.snapshot.settings.duration_millis(session.kind);
            let r = check(session.planned_duration_ms == planned, "active session duration");
            if r.is_err() {
                return r;
            }
            let found = find(&state.history.sessions, session.id);
            check(found.is_none(), "duplicate active session")
        },
        _ => Ok(()),
    }
}

fn snapshot_exec(state: &ProgressState, sessions: &Vec<Session>) -> (r: Result<(), DomainError>)
    ensures
        r == snapshot_check(*state, sessions@),
{
    match state {
        ProgressState::Ready { next_kind, current_task_draft } => check(
            next_kind.is_work() || current_task_draft.is_none(),
            "break draft",
        ),
        ProgressState::Active { session, timer } => match timer {
            TimerState::Running { run } => {
                let r = check(
                    run.elapsed_ms_at_start <= session.elapsed_ms,
                    "run elapsed boundary",
                );
                if r.is_err() {
                    return r;
                }
                check(
                    run.last_confirmed_at.0 >= run.started_at.0 || run.time_uncertainty.is_some(),
                    "run timestamps",
                )
            },
            TimerState::Interrupted { interruption } => {
                let r = check(
                    interruption.id.0 > 0 && interruption.end.is_none(),
                    "open interruption",
                );
                if r.is_err() {
                    return r;
                }
                check(
                    interruption.kind != InterruptionKind::Distraction || session.kind.is_work(),
                    "break distraction",
                )
            },
        },
        ProgressState::AwaitingQuickStartDecision { quick_start_session_id, current_task } => {
            match find(sessions, *quick_start_session_id) {
                None => Err(DomainError::InvalidState("awaiting reference")),
                Some(i) => {
                    proof {
                        lemma_find_bounds(sessions@, *quick_start_session_id);
                    }
                    check(
                        is_completed_quick_start_exec(&sessions[i]) && same_task(
                            current_task,
                            &sessions[i].current_task,
                        ),
                        "awaiting source",
                    )
                },
            }
        },
    }
}


/// The scan over the event history, as executable values.
struct Scan {
    facts: Vec<SessionFacts>,
    interruption_ids: Vec<InterruptionId>,
    max_interruption_id: u64,
    decisions: Vec<(SessionId, QuickStartDecision)>,
    sequence: u64,
}

impl View for Scan {
    type V = ScanModel;

    closed spec fn view(&self) -> ScanModel {
        ScanModel {
            facts: self.facts@,
            interruption_ids: self.interruption_ids@,
            max_interruption_id: self.max_interruption_id,
            decisions: self.decisions@,
            sequence: self.sequence,
        }
    }
}

fn initial_scan_exec(sessions: &Vec<Session>) -> (r: Scan)
    ensures
        r@ == initial_scan(sessions@),
{
    let mut facts: Vec<SessionFacts> = Vec::new();
    let mut i: usize = 0;
    while i < sessions.len()
        invariant
            i <= sessions.len(),
            facts@.len() == i,
            forall|k: int| 0 <= k < i ==> facts@[k] == initial_facts(#[trigger] sessions@[k]),
        decreases sessions.len() - i,
    {
        facts.push(
            SessionFacts {
                credited_ms: 0,
                run_closed: false,
                run_start: sessions[i].started_at,
                run_end: None,
                open: None,
                ended_by_interruption: false,
                gap_doubt: false,
                last_recorded: None,
            },
        );
        i += 1;
    }
    let r = Scan {
        facts,
        interruption_ids: Vec::new(),
        max_interruption_id: 0,
        decisions: Vec::new(),
        sequence: 1,
    };
    assert(r@.facts =~= initial_scan(sessions@).facts);
    assert(r@.interruption_ids =~= initial_scan(sessions@).interruption_ids);
    assert(r@.decisions =~= initial_scan(sessions@).decisions);
    r
}

fn before_last_exec(last: Option<Timestamp>, at: Timestamp) -> (r: bool)
    ensures
        r == before_last(last, at),
{
    match last {
        Some(l) => at.0 < l.0,
        None => false,
    }
}

fn interruption_end_exec(
    open: OpenInterruption,
    end: InterruptionEnd,
    session: &Session,
    last: Option<Timestamp>,
) -> (r: Result<(), DomainError>)
    ensures
        r == interruption_end_check(open, end, *session, last),
{
    let r = match end.outcome {
        InterruptionOutcome::Resumed => check(
            open.kind != InterruptionKind::Distraction,
            "distraction resume",
        ),
        InterruptionOutcome::Returned => check(
            open.kind == InterruptionKind::Distraction,
            "non-distraction return",
        ),
        InterruptionOutcome::SessionEnded { session_outcome } => {
            let r = check(session_outcome != SessionOutcome::Completed, "interrupted completion");
            if r.is_err() {
                r
            } else {
                let matches_end = match session.end {
                    Some(ended) => ended.outcome == session_outcome && ended.ended_at
                        == end.ended_at,
                    None => false,
                };
                check(matches_end, "interruption session outcome")
            }
        },
    };
    if r.is_err() {
        return r;
    }
    match end.duration {
        MeasuredDuration::Known { elapsed_ms } => check(
            end.ended_at.0 >= open.started_at.0 && end.ended_at.0 - open.started_at.0 == elapsed_ms
                && end.ended_at.0 >= open.recorded_at.0 && !open.clock_doubt && !before_last_exec(
                last,
                end.ended_at,
            ),
            "interruption duration",
        ),
        MeasuredDuration::Unknown { .. } => Ok(()),
    }
}

/// Applies one event to the facts of the session at `index`.
fn event_effect_exec(session: &Session, index: usize, st: Scan, event: &HistoryEvent) -> (r: Result<
    Scan,
    DomainError,
>)
    requires
        index < st.facts.len(),
    ensures
        match r {
            Ok(next) => event_effect(*session, index as int, st@, *event) == Ok::<
                ScanModel,
                DomainError,
            >(next@) && next.facts.len() == st.facts.len(),
            Err(e) => event_effect(*session, index as int, st@, *event) == Err::<
                ScanModel,
                DomainError,
            >(e),
        },
{
    let mut st = st;
    let f = st.facts[index];
    let recorded = event.recorded_at;
    let touched = SessionFacts { last_recorded: Some(recorded), ..f };
    match event.payload {
        EventKind::RunIntervalRecorded { started_at, ended_at, credited_ms, time_uncertainty } => {
            if !(!f.run_closed && f.open.is_none() && !f.ended_by_interruption) {
                return Err(DomainError::InvalidState("duplicate or interrupted interval"));
            }
            if !(started_at == f.run_start && ended_at == event.effective_at) {
                return Err(DomainError::InvalidState("interval boundary"));
            }
            if !(ended_at.0 >= started_at.0 || time_uncertainty.is_some()) {
                return Err(DomainError::InvalidState("interval timestamps"));
            }
            match f.credited_ms.checked_add(credited_ms) {
                None => Err(DomainError::Overflow),
                Some(total) => {
                    st.facts.set(
                        index,
                        SessionFacts {
                            credited_ms: total,
                            run_closed: true,
                            run_end: Some(ended_at),
                            ..touched
                        },
                    );
                    Ok(st)
                },
            }
        },
        EventKind::InterruptionStarted { interruption_id, interruption_kind } => {
            if !(interruption_kind == InterruptionKind::ObservationGap || event.effective_at
                == event.recorded_at) {
                return Err(DomainError::InvalidState("manual interruption timestamps"));
            }
            if !(f.run_closed && f.open.is_none() && !f.ended_by_interruption) {
                return Err(DomainError::InvalidState("overlapping interruption"));
            }
            if f.run_end != Some(event.effective_at) {
                return Err(DomainError::InvalidState("interruption boundary"));
            }
            if !(interruption_id.0 > 0 && !contains_id(&st.interruption_ids, interruption_id)) {
                return Err(DomainError::InvalidState("duplicate interruption ID"));
            }
            if !(interruption_kind != InterruptionKind::Distraction || session.kind.is_work()) {
                return Err(DomainError::InvalidState("break distraction event"));
            }
            st.facts.set(
                index,
                SessionFacts {
                    open: Some(
                        OpenInterruption {
                            id: interruption_id,
                            kind: interruption_kind,
                            started_at: event.effective_at,
                            recorded_at: event.recorded_at,
                            clock_doubt: interruption_kind == InterruptionKind::ObservationGap
                                && f.gap_doubt,
                        },
                    ),
                    gap_doubt: false,
                    ..touched
                },
            );
            st.interruption_ids.push(interruption_id);
            if interruption_id.0 > st.max_interruption_id {
                st.max_interruption_id = interruption_id.0;
            }
            Ok(st)
        },
        EventKind::InterruptionEnded { interruption_id, end } => match f.open {
            None => Err(DomainError::InvalidState("unpaired interruption end")),
            Some(open) => {
                if !(interruption_id == open.id && end.ended_at == event.effective_at) {
                    return Err(DomainError::InvalidState("interruption end reference"));
                }
                match interruption_end_exec(open, end, session, f.last_recorded) {
                    Err(e) => Err(e),
                    Ok(()) => {
                        let ended = match end.outcome {
                            InterruptionOutcome::SessionEnded { .. } => true,
                            _ => false,
                        };
                        st.facts.set(
                            index,
                            SessionFacts {
                                open: None,
                                ended_by_interruption: ended,
                                run_closed: ended,
                                run_start: end.ended_at,
                                ..touched
                            },
                        );
                        Ok(st)
                    },
                }
            },
        },
        EventKind::QuickStartDecisionMade { decision } => {
            if !(is_completed_quick_start_exec(session) && f.run_closed && f.open.is_none()) {
                return Err(DomainError::InvalidState("decision source"));
            }
            if find_decision(&st.decisions, event.session_id).is_some() {
                return Err(DomainError::InvalidState("duplicate quick start decision"));
            }
            st.facts.set(index, touched);
            st.decisions.push((event.session_id, decision));
            Ok(st)
        },
        EventKind::ObservationGapDetected { last_confirmed_at, detected_at, reason } => {
            if !(last_confirmed_at == event.effective_at && detected_at == event.recorded_at) {
                return Err(DomainError::InvalidState("gap timestamps"));
            }
            if !(f.open.is_some() || (!f.run_closed && !f.ended_by_interruption)) {
                return Err(DomainError::InvalidState("gap outside a session"));
            }
            let doubtful = reason == GapReason::ClockAnomaly || detected_at.0 < last_confirmed_at.0;
            let updated = match f.open {
                Some(open) => SessionFacts {
                    open: Some(
                        OpenInterruption {
                            clock_doubt: open.clock_doubt || doubtful || recorded.0
                                < open.recorded_at.0 || before_last_exec(f.last_recorded, recorded),
                            ..open
                        },
                    ),
                    ..touched
                },
                None => SessionFacts { gap_doubt: doubtful, ..touched },
            };
            st.facts.set(index, updated);
            Ok(st)
        },
        _ => {
            let undecided = is_completed_quick_start_exec(session) && f.run_closed
                && find_decision(&st.decisions, event.session_id).is_none();
            if !(f.open.is_some() || undecided) {
                return Err(DomainError::InvalidState("lifecycle outside an interruption"));
            }
            let updated = match f.open {
                Some(open) => SessionFacts {
                    open: Some(
                        OpenInterruption {
                            clock_doubt: open.clock_doubt || recorded.0 < open.recorded_at.0
                                || before_last_exec(f.last_recorded, recorded),
                            ..open
                        },
                    ),
                    ..touched
                },
                None => touched,
            };
            st.facts.set(index, updated);
            Ok(st)
        },
    }
}


fn scan_event_exec(sessions: &Vec<Session>, st: Scan, event: &HistoryEvent) -> (r: Result<
    Scan,
    DomainError,
>)
    requires
        st.facts.len() == sessions.len(),
    ensures
        match r {
            Ok(next) => scan_event(sessions@, st@, *event) == Ok::<ScanModel, DomainError>(next@)
                && next.facts.len() == sessions.len(),
            Err(e) => scan_event(sessions@, st@, *event) == Err::<ScanModel, DomainError>(e),
        },
{
    if event.sequence != st.sequence {
        return Err(DomainError::InvalidState("event sequence"));
    }
    if st.sequence == u64::MAX {
        return Err(DomainError::Overflow);
    }
    match find(sessions, event.session_id) {
        None => Err(DomainError::InvalidState("event session reference")),
        Some(index) => {
            let mut st = st;
            st.sequence = st.sequence + 1;
            event_effect_exec(&sessions[index], index, st, event)
        },
    }
}

/// Once a prefix of the events fails, the whole history fails the same way.
proof fn lemma_scan_sticks(sessions: Seq<Session>, events: Seq<HistoryEvent>, n: int)
    requires
        0 <= n <= events.len(),
        scan_events(sessions, events.subrange(0, n)) is Err,
    ensures
        scan_events(sessions, events) == scan_events(sessions, events.subrange(0, n)),
    decreases events.len() - n,
{
    if n < events.len() {
        assert(events.subrange(0, n + 1).drop_last() =~= events.subrange(0, n));
        lemma_scan_sticks(sessions, events, n + 1);
    } else {
        assert(events.subrange(0, n) =~= events);
    }
}

fn scan_events_exec(sessions: &Vec<Session>, events: &Vec<HistoryEvent>) -> (r: Result<
    Scan,
    DomainError,
>)
    ensures
        match r {
            Ok(st) => scan_events(sessions@, events@) == Ok::<ScanModel, DomainError>(st@)
                && st.facts.len() == sessions.len(),
            Err(e) => scan_events(sessions@, events@) == Err::<ScanModel, DomainError>(e),
        },
{
    let mut st = initial_scan_exec(sessions);
    assert(events@.subrange(0, 0) =~= Seq::<HistoryEvent>::empty());
    let mut i: usize = 0;
    while i < events.len()
        invariant
            i <= events.len(),
            st.facts.len() == sessions.len(),
            scan_events(sessions@, events@.subrange(0, i as int)) == Ok::<ScanModel, DomainError>(
                st@,
            ),
        decreases events.len() - i,
    {
        let ghost prefix = events@.subrange(0, i + 1);
        assert(prefix.drop_last() =~= events@.subrange(0, i as int));
        assert(prefix.last() == events@[i as int]);
        match scan_event_exec(sessions, st, &events[i]) {
            Err(e) => {
                proof {
                    lemma_scan_sticks(sessions@, events@, i + 1);
                }
                return Err(e);
            },
            Ok(next) => {
                st = next;
            },
        }
        i += 1;
    }
    assert(events@.subrange(0, i as int) =~= events@);
    Ok(st)
}


fn accounting_exec(session: &Session, facts: SessionFacts, state: &ProgressState) -> (r: Result<
    (),
    DomainError,
>)
    ensures
        r == accounting_check(*session, facts, *state),
{
    if let ProgressState::Active { session: active, timer } = state {
        if active.id == session.id {
            return match timer {
                TimerState::Running { run } => {
                    let r = check(
                        facts.open.is_none() && !facts.run_closed,
                        "running with closed interval",
                    );
                    if r.is_err() {
                        return r;
                    }
                    check(
                        run.elapsed_ms_at_start == facts.credited_ms && run.started_at
                            == facts.run_start,
                        "running accounting",
                    )
                },
                TimerState::Interrupted { interruption } => {
                    let same = match facts.open {
                        Some(open) => open.id == interruption.id && open.kind == interruption.kind
                            && open.started_at == interruption.started_at && open.recorded_at
                            == interruption.recorded_at,
                        None => false,
                    };
                    let r = check(same, "snapshot interruption mismatch");
                    if r.is_err() {
                        return r;
                    }
                    let r = check(active.elapsed_ms == facts.credited_ms, "interrupted accounting");
                    if r.is_err() {
                        return r;
                    }
                    let doubt = match facts.open {
                        Some(open) => open.clock_doubt,
                        None => false,
                    };
                    check(
                        !doubt || interruption.time_uncertainty.is_some(),
                        "interruption clock evidence",
                    )
                },
            };
        }
    }
    let r = check(
        facts.open.is_none() && facts.run_closed && session.elapsed_ms == facts.credited_ms,
        "ended accounting",
    );
    if r.is_err() {
        return r;
    }
    let boundary = match session.end {
        Some(end) => facts.run_end == Some(end.ended_at),
        None => false,
    };
    check(facts.ended_by_interruption || boundary, "session end boundary")
}

fn least_accounting_failure(sessions: &Vec<Session>, facts: &Vec<SessionFacts>, state: &ProgressState) -> (r: Result<(), DomainError>)
    requires
        facts.len() == sessions.len(),
    ensures
        r == failure_result(least_failure(accounting_checks(sessions@, facts@, *state))),
{
    let ghost checks = accounting_checks(sessions@, facts@, *state);
    let mut best: Option<(u64, DomainError)> = None;
    let mut i: usize = 0;
    while i < sessions.len()
        invariant
            i <= sessions.len(),
            facts.len() == sessions.len(),
            checks == accounting_checks(sessions@, facts@, *state),
            best == least_failure(checks.subrange(0, i as int)),
        decreases sessions.len() - i,
    {
        assert(checks.subrange(0, i + 1).drop_last() =~= checks.subrange(0, i as int));
        let r = accounting_exec(&sessions[i], facts[i], state);
        best = keep_least(best, sessions[i].id.0, r);
        i += 1;
    }
    assert(checks.subrange(0, i as int) =~= checks);
    failure(best)
}

fn decision_exec(
    session: &Session,
    sessions: &Vec<Session>,
    decisions: &Vec<(SessionId, QuickStartDecision)>,
    state: &ProgressState,
) -> (r: Result<(), DomainError>)
    ensures
        r == decision_check(*session, sessions@, decisions@, *state),
{
    let awaiting = match state {
        ProgressState::AwaitingQuickStartDecision { quick_start_session_id, .. } =>
            *quick_start_session_id == session.id,
        _ => false,
    };
    let r = check(
        !is_completed_quick_start_exec(session) || awaiting != find_decision(
            decisions,
            session.id,
        ).is_some(),
        "quick start decision coverage",
    );
    if r.is_err() {
        return r;
    }
    match session.continued_from_quick_start {
        None => Ok(()),
        Some(source_id) => match find(sessions, source_id) {
            None => Err(DomainError::InvalidState("continuation source")),
            Some(index) => {
                proof {
                    lemma_find_bounds(sessions@, source_id);
                }
                let r = check(
                    is_completed_quick_start_exec(&sessions[index]) && same_task(
                        &session.current_task,
                        &sessions[index].current_task,
                    ),
                    "continuation task or source",
                );
                if r.is_err() {
                    return r;
                }
                let linked = match find_decision(decisions, source_id) {
                    Some(QuickStartDecision::Continue { focus_session_id }) => focus_session_id
                        == session.id,
                    _ => false,
                };
                check(linked, "continuation reverse reference")
            },
        },
    }
}

fn least_decision_failure(
    sessions: &Vec<Session>,
    decisions: &Vec<(SessionId, QuickStartDecision)>,
    state: &ProgressState,
) -> (r: Result<(), DomainError>)
    ensures
        r == failure_result(least_failure(decision_checks(sessions@, decisions@, *state))),
{
    let ghost checks = decision_checks(sessions@, decisions@, *state);
    let mut best: Option<(u64, DomainError)> = None;
    let mut i: usize = 0;
    while i < sessions.len()
        invariant
            i <= sessions.len(),
            checks == decision_checks(sessions@, decisions@, *state),
            best == least_failure(checks.subrange(0, i as int)),
        decreases sessions.len() - i,
    {
        assert(checks.subrange(0, i + 1).drop_last() =~= checks.subrange(0, i as int));
        let r = decision_exec(&sessions[i], sessions, decisions, state);
        best = keep_least(best, sessions[i].id.0, r);
        i += 1;
    }
    assert(checks.subrange(0, i as int) =~= checks);
    failure(best)
}

fn forward_exec(source_id: SessionId, decision: QuickStartDecision, sessions: &Vec<Session>) -> (r: Result<(), DomainError>)
    ensures
        r == forward_check(source_id, decision, sessions@),
{
    match decision {
        QuickStartDecision::Continue { focus_session_id } => match find(sessions, focus_session_id) {
            None => Err(DomainError::InvalidState("continuation target")),
            Some(index) => {
                proof {
                    lemma_find_bounds(sessions@, focus_session_id);
                }
                check(
                    sessions[index].kind == SessionKind::Focus
                        && sessions[index].continued_from_quick_start == Some(source_id),
                    "continuation forward reference",
                )
            },
        },
        QuickStartDecision::Finish => Ok(()),
    }
}

fn least_forward_failure(
    decisions: &Vec<(SessionId, QuickStartDecision)>,
    sessions: &Vec<Session>,
) -> (r: Result<(), DomainError>)
    ensures
        r == failure_result(least_failure(forward_checks(decisions@, sessions@))),
{
    let ghost checks = forward_checks(decisions@, sessions@);
    let mut best: Option<(u64, DomainError)> = None;
    let mut i: usize = 0;
    while i < decisions.len()
        invariant
            i <= decisions.len(),
            checks == forward_checks(decisions@, sessions@),
            best == least_failure(checks.subrange(0, i as int)),
        decreases decisions.len() - i,
    {
        assert(checks.subrange(0, i + 1).drop_last() =~= checks.subrange(0, i as int));
        let (source_id, decision) = decisions[i];
        let r = forward_exec(source_id, decision, sessions);
        best = keep_least(best, source_id.0, r);
        i += 1;
    }
    assert(checks.subrange(0, i as int) =~= checks);
    failure(best)
}

impl DomainState {
    /// Validates ownership, references, allocation and interval accounting.
    /// This checks a supplied snapshot; it never reconstructs or repairs it by
    /// replay. The result is the first failing check of `validation`.
    pub fn validate(&self) -> (r: Result<(), DomainError>)
        ensures
            r == validation(self@),
    {
        let r = header_exec(self);
        if r.is_err() {
            return r;
        }
        let r = recorded_sessions_exec(&self.history.sessions);
        if r.is_err() {
            return r;
        }
        let r = active_exec(self);
        if r.is_err() {
            return r;
        }
        let all = all_sessions_exec(self);
        let r = least_session_failure(&all, self.ids.next_session_id);
        if r.is_err() {
            return r;
        }
        let r = snapshot_exec(&self.snapshot.state, &all);
        if r.is_err() {
            return r;
        }
        match scan_events_exec(&all, &self.history.events) {
            Err(e) => Err(e),
            Ok(st) => {
                let r = check(self.ids.next_event_sequence == st.sequence, "event allocator");
                if r.is_err() {
                    return r;
                }
                let r = check(
                    st.max_interruption_id < self.ids.next_interruption_id,
                    "interruption allocator",
                );
                if r.is_err() {
                    return r;
                }
                let r = least_accounting_failure(&all, &st.facts, &self.snapshot.state);
                if r.is_err() {
                    return r;
                }
                let r = least_decision_failure(&all, &st.decisions, &self.snapshot.state);
                if r.is_err() {
                    return r;
                }
                least_forward_failure(&st.decisions, &all)
            },
        }
    }

    /// Adopts decoded domain values directly, without replaying history.
    /// Rejects inconsistent values without repairing or resetting them.
    pub fn from_parts(snapshot: PomodoroState, history: History, ids: IdAllocators) -> (r: Result<
        Self,
        DomainError,
    >)
        ensures
            match r {
                Ok(state) => state.snapshot == snapshot && state.history == history && state.ids
                    == ids && validation(state@) is Ok,
                Err(e) => validation(
                    DomainModel {
                        snapshot,
                        sessions: history.sessions@,
                        events: history.events@,
                        ids,
                    },
                ) == Err::<(), DomainError>(e),
            },
    {
        let state = DomainState { snapshot, history, ids };
        match state.validate() {
            Ok(()) => Ok(state),
            Err(e) => Err(e),
        }
    }
}

} // verus!
