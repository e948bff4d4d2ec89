//! Every accepted command and observation keeps a consistent domain unit
//! consistent: the checks of `DomainState::validate` hold before and after.

use vstd::prelude::*;

use crate::model::{
    DomainError, EventKind, HistoryEvent, InterruptionOutcome,
    ProgressState, QuickStartDecision, Session, SessionEnd, SessionId, SessionKind,
    SessionOutcome, TimerState, Timestamp,
};
use crate::transition::{interruption_duration, last_recorded_at, Command, DomainModel};
use crate::validation_spec::{
    accounting_check, accounting_checks, active_check, all_sessions, decision_check,
    decision_checks, event_effect, failure_result, find_session, forward_check, forward_checks,
    header_check, initial_facts, initial_scan, interruption_end_check, is_completed_quick_start,
    least_failure, recorded_sessions_check, scan_event, scan_events, session_checks,
    session_with_allocator_check, snapshot_check, validation, ScanModel, SessionFacts,
};

verus! {

/// Among keyed checks, there is no failure exactly when every check passes.
pub proof fn lemma_least_failure_none(checks: Seq<(u64, Result<(), DomainError>)>)
    ensures
        least_failure(checks) is None <==> forall|i: int|
            0 <= i < checks.len() ==> (#[trigger] checks[i]).1 is Ok,
    decreases checks.len(),
{
    if checks.len() > 0 {
        lemma_least_failure_none(checks.drop_last());
        assert forall|i: int| 0 <= i < checks.len() - 1 implies checks.drop_last()[i] == checks[i] by {}
        if least_failure(checks) is None {
            assert forall|i: int| 0 <= i < checks.len() implies (#[trigger] checks[i]).1 is Ok by {
                if i < checks.len() - 1 {
                    assert(checks.drop_last()[i] == checks[i]);
                }
            }
        }
        if forall|i: int| 0 <= i < checks.len() ==> (#[trigger] checks[i]).1 is Ok {
            assert(checks[checks.len() - 1].1 is Ok);
            assert forall|i: int| 0 <= i < checks.len() - 1 implies (
            #[trigger] checks.drop_last()[i]).1 is Ok by {
                assert(checks[i].1 is Ok);
            }
        }
    }
}

/// Reading one more event is one more step of the scan.
pub proof fn lemma_scan_push(all: Seq<Session>, events: Seq<HistoryEvent>, event: HistoryEvent)
    ensures
        scan_events(all, events.push(event)) == match scan_events(all, events) {
            Err(e) => Err(e),
            Ok(st) => scan_event(all, st, event),
        },
{
    assert(events.push(event).drop_last() =~= events);
}

/// The scan keeps one set of facts per session.
pub proof fn lemma_scan_facts_len(all: Seq<Session>, events: Seq<HistoryEvent>)
    ensures
        scan_events(all, events) is Ok ==> scan_events(all, events)->Ok_0.facts.len() == all.len(),
    decreases events.len(),
{
    if events.len() > 0 {
        lemma_scan_facts_len(all, events.drop_last());
        crate::validation::lemma_find_bounds(all, events.last().session_id);
    }
}

/// Two sessions that the events cannot tell apart: same ID, kind and start,
/// and an end that is either unchanged or newly set.
pub open spec fn compatible(s1: Session, s2: Session) -> bool {
    &&& s1.id == s2.id
    &&& s1.kind == s2.kind
    &&& s1.started_at == s2.started_at
    &&& (s1.end == s2.end || s1.end is None)
}

pub open spec fn all_compatible(a: Seq<Session>, b: Seq<Session>) -> bool {
    &&& a.len() == b.len()
    &&& forall|i: int| 0 <= i < a.len() ==> compatible(#[trigger] a[i], b[i])
}

proof fn lemma_find_compatible(a: Seq<Session>, b: Seq<Session>, id: SessionId)
    requires
        all_compatible(a, b),
    ensures
        find_session(a, id) == find_session(b, id),
    decreases a.len(),
{
    if a.len() > 0 {
        assert(all_compatible(a.drop_last(), b.drop_last())) by {
            assert forall|i: int| 0 <= i < a.len() - 1 implies compatible(
                #[trigger] a.drop_last()[i],
                b.drop_last()[i],
            ) by {
                assert(compatible(a[i], b[i]));
            }
        }
        lemma_find_compatible(a.drop_last(), b.drop_last(), id);
        assert(compatible(a[a.len() - 1], b[b.len() - 1]));
    }
}

proof fn lemma_effect_compatible(
    s1: Session,
    s2: Session,
    index: int,
    st: ScanModel,
    event: HistoryEvent,
)
    requires
        compatible(s1, s2),
        event_effect(s1, index, st, event) is Ok,
    ensures
        event_effect(s2, index, st, event) == event_effect(s1, index, st, event),
{
    let f = st.facts[index];
    match event.payload {
        EventKind::InterruptionEnded { interruption_id, end } => {
            let open = f.open->0;
            if end.outcome is SessionEnded {
                assert(interruption_end_check(open, end, s1, f.last_recorded) is Ok);
                assert(s1.end is Some);
            }
            assert(interruption_end_check(open, end, s1, f.last_recorded) == interruption_end_check(
                open,
                end,
                s2,
                f.last_recorded,
            ));
        },
        EventKind::QuickStartDecisionMade { .. } => {
            assert(is_completed_quick_start(s1));
        },
        _ => {
            if s1.end is None {
                assert(!is_completed_quick_start(s1));
            }
        },
    }
}

/// Sessions the events cannot tell apart give the same scan.
pub proof fn lemma_scan_compatible(a: Seq<Session>, b: Seq<Session>, events: Seq<HistoryEvent>)
    requires
        all_compatible(a, b),
        scan_events(a, events) is Ok,
    ensures
        scan_events(b, events) == scan_events(a, events),
    decreases events.len(),
{
    if events.len() == 0 {
        assert(initial_scan(a).facts =~= initial_scan(b).facts) by {
            assert forall|i: int| 0 <= i < a.len() implies initial_facts(a[i]) == initial_facts(b[i]) by {
                assert(compatible(a[i], b[i]));
            }
        }
    } else {
        let rest = events.drop_last();
        let event = events.last();
        lemma_scan_push(a, rest, event);
        lemma_scan_push(b, rest, event);
        assert(rest.push(event) =~= events);
        lemma_scan_compatible(a, b, rest);
        let st = scan_events(a, rest)->Ok_0;
        lemma_find_compatible(a, b, event.session_id);
        let index = find_session(a, event.session_id);
        if event.sequence == st.sequence && st.sequence != u64::MAX && index >= 0 {
            crate::validation::lemma_find_bounds(a, event.session_id);
            assert(compatible(a[index], b[index]));
            lemma_effect_compatible(
                a[index],
                b[index],
                index,
                ScanModel { sequence: (st.sequence + 1) as u64, ..st },
                event,
            );
        }
    }
}


/// A session whose ID no event names adds only its initial facts to the scan.
pub proof fn lemma_scan_append(a: Seq<Session>, s: Session, events: Seq<HistoryEvent>)
    requires
        find_session(a, s.id) < 0,
        scan_events(a, events) is Ok,
    ensures
        scan_events(a.push(s), events) == Ok::<ScanModel, DomainError>(
            ScanModel {
                facts: scan_events(a, events)->Ok_0.facts.push(initial_facts(s)),
                ..scan_events(a, events)->Ok_0
            },
        ),
    decreases events.len(),
{
    let b = a.push(s);
    if events.len() == 0 {
        assert(initial_scan(b).facts =~= initial_scan(a).facts.push(initial_facts(s)));
    } else {
        let rest = events.drop_last();
        let event = events.last();
        lemma_scan_push(a, rest, event);
        lemma_scan_push(b, rest, event);
        assert(rest.push(event) =~= events);
        lemma_scan_append(a, s, rest);
        lemma_scan_facts_len(a, rest);
        let st = scan_events(a, rest)->Ok_0;
        let index = find_session(a, event.session_id);
        if event.sequence == st.sequence && st.sequence != u64::MAX {
            assert(index >= 0);
            assert(b.subrange(0, a.len() as int) =~= a);
            crate::validation::lemma_find_prefix(b, a.len() as int, event.session_id);
            crate::validation::lemma_find_bounds(a, event.session_id);
            assert(b[index] == a[index]);
            let stp = ScanModel { sequence: (st.sequence + 1) as u64, ..st };
            let stq = ScanModel { facts: stp.facts.push(initial_facts(s)), ..stp };
            assert(stq.facts[index] == stp.facts[index]);
            match event_effect(a[index], index, stp, event) {
                Ok(next) => {
                    assert(event_effect(b[index], index, stq, event) == Ok::<ScanModel, DomainError>(
                        ScanModel { facts: next.facts.push(initial_facts(s)), ..next },
                    )) by {
                        let f = stp.facts[index];
                        assert forall|v: SessionFacts| #[trigger] stq.facts.update(index, v) =~= stp.facts.update(
                            index,
                            v,
                        ).push(initial_facts(s)) by {}
                    }
                },
                Err(_) => {},
            }
        }
    }
}


/// No two sessions share an ID.
pub open spec fn ids_unique(all: Seq<Session>) -> bool {
    forall|i: int, j: int| 0 <= i < j < all.len() ==> all[i].id != all[j].id
}

/// With unique IDs, a session is found at its own index.
pub proof fn lemma_find_unique(all: Seq<Session>, i: int)
    requires
        ids_unique(all),
        0 <= i < all.len(),
    ensures
        find_session(all, all[i].id) == i,
    decreases all.len(),
{
    if i < all.len() - 1 {
        assert(ids_unique(all.drop_last()));
        lemma_find_unique(all.drop_last(), i);
        assert(all.drop_last()[i] == all[i]);
    } else {
        crate::validation::lemma_find_bounds(all.drop_last(), all[i].id);
        let found = find_session(all.drop_last(), all[i].id);
        if found >= 0 {
            assert(all.drop_last()[found] == all[found]);
        }
    }
}

/// What the scan keeps about every session besides the checks themselves.
pub open spec fn scan_invariants(all: Seq<Session>, events: Seq<HistoryEvent>, st: ScanModel) -> bool {
    &&& st.facts.len() == all.len()
    &&& forall|i: int|
        0 <= i < all.len() && (#[trigger] all[i]).end is None ==> !st.facts[i].ended_by_interruption
    &&& forall|i: int|
        0 <= i < all.len() ==> (#[trigger] st.facts[i]).last_recorded == last_recorded_at(
            events,
            all[i].id,
        )
    &&& forall|k: int|
        0 <= k < st.interruption_ids.len() ==> (#[trigger] st.interruption_ids[k]).0
            <= st.max_interruption_id
    &&& forall|k: int|
        0 <= k < st.decisions.len() ==> find_session(all, (#[trigger] st.decisions[k]).0) >= 0
            && is_completed_quick_start(all[find_session(all, st.decisions[k].0)])
}

/// A recorded decision names a session that some entry names.
pub proof fn lemma_decision_for_some(
    decisions: Seq<(SessionId, crate::model::QuickStartDecision)>,
    id: SessionId,
)
    ensures
        crate::validation_spec::decision_for(decisions, id) is Some ==> exists|k: int|
            0 <= k < decisions.len() && (#[trigger] decisions[k]).0 == id
                && crate::validation_spec::decision_for(decisions, id) == Some(decisions[k].1),
    decreases decisions.len(),
{
    if decisions.len() > 0 {
        lemma_decision_for_some(decisions.drop_last(), id);
        if crate::validation_spec::decision_for(decisions.drop_last(), id) is Some {
            let k = choose|k: int|
                0 <= k < decisions.drop_last().len() && (#[trigger] decisions.drop_last()[k]).0 == id
                    && crate::validation_spec::decision_for(decisions.drop_last(), id) == Some(
                    decisions.drop_last()[k].1,
                );
            assert(decisions[k] == decisions.drop_last()[k]);
        } else if decisions.last().0 == id {
            assert(decisions[decisions.len() - 1].0 == id);
        }
    }
}

pub proof fn lemma_scan_invariants(all: Seq<Session>, events: Seq<HistoryEvent>)
    requires
        ids_unique(all),
        scan_events(all, events) is Ok,
    ensures
        scan_invariants(all, events, scan_events(all, events)->Ok_0),
    decreases events.len(),
{
    if events.len() == 0 {
        let st = scan_events(all, events)->Ok_0;
        assert forall|i: int| 0 <= i < all.len() implies (#[trigger] st.facts[i]).last_recorded
            == last_recorded_at(events, all[i].id) by {}
    } else {
        let rest = events.drop_last();
        let event = events.last();
        lemma_scan_push(all, rest, event);
        assert(rest.push(event) =~= events);
        lemma_scan_invariants(all, rest);
        let st = scan_events(all, rest)->Ok_0;
        let index = find_session(all, event.session_id);
        crate::validation::lemma_find_bounds(all, event.session_id);
        let next = scan_events(all, events)->Ok_0;
        assert forall|i: int| 0 <= i < all.len() implies (#[trigger] next.facts[i]).last_recorded
            == last_recorded_at(events, all[i].id) by {
            assert(events.drop_last() == rest);
            if i == index {
            } else {
                lemma_find_unique(all, i);
                assert(all[i].id != event.session_id);
            }
        }
        assert forall|i: int|
            0 <= i < all.len() && (#[trigger] all[i]).end is None implies !next.facts[i].ended_by_interruption by {
            if i == index {
                match event.payload {
                    EventKind::InterruptionEnded { interruption_id, end } => {
                        let f = st.facts[index];
                        if end.outcome is SessionEnded {
                            assert(interruption_end_check(f.open->0, end, all[index], f.last_recorded) is Err);
                        }
                    },
                    _ => {},
                }
            }
        }
        assert forall|k: int| 0 <= k < next.interruption_ids.len() implies (
        #[trigger] next.interruption_ids[k]).0 <= next.max_interruption_id by {
            if k < st.interruption_ids.len() {
                assert(st.interruption_ids[k].0 <= st.max_interruption_id);
            }
        }
        assert forall|k: int| 0 <= k < next.decisions.len() implies find_session(
            all,
            (#[trigger] next.decisions[k]).0,
        ) >= 0 && is_completed_quick_start(all[find_session(all, next.decisions[k].0)]) by {
            if k < st.decisions.len() {
                assert(next.decisions[k] == st.decisions[k]);
            }
        }
    }
}


/// The checks of `validation`, one by one, given the scan's result.
pub open spec fn parts_hold(m: DomainModel, st: ScanModel) -> bool {
    &&& active_check(m) is Ok
    &&& parts_but_active(m, st)
}

/// Every check of `validation` but the one on the active session itself.
pub open spec fn parts_but_active(m: DomainModel, st: ScanModel) -> bool {
    let all = all_sessions(m);
    &&& header_check(m) is Ok
    &&& recorded_sessions_check(m.sessions) is Ok
    &&& forall|i: int|
        0 <= i < all.len() ==> (#[trigger] session_with_allocator_check(
            all[i],
            m.ids.next_session_id,
        )) is Ok
    &&& snapshot_check(m.snapshot.state, all) is Ok
    &&& scan_events(all, m.events) == Ok::<ScanModel, DomainError>(st)
    &&& m.ids.next_event_sequence == st.sequence
    &&& st.max_interruption_id < m.ids.next_interruption_id
    &&& forall|i: int|
        0 <= i < all.len() ==> (#[trigger] accounting_check(all[i], st.facts[i], m.snapshot.state)) is Ok
    &&& forall|i: int|
        0 <= i < all.len() ==> (#[trigger] decision_check(
            all[i],
            all,
            st.decisions,
            m.snapshot.state,
        )) is Ok
    &&& forall|j: int|
        0 <= j < st.decisions.len() ==> (#[trigger] forward_check(
            st.decisions[j].0,
            st.decisions[j].1,
            all,
        )) is Ok
}

/// A unit is consistent exactly when its scan succeeds and every check holds.
pub proof fn lemma_validation_parts(m: DomainModel)
    ensures
        validation(m) is Ok <==> (scan_events(all_sessions(m), m.events) is Ok && parts_hold(
            m,
            scan_events(all_sessions(m), m.events)->Ok_0,
        )),
{
    let all = all_sessions(m);
    let sc = session_checks(all, m.ids.next_session_id);
    lemma_least_failure_none(sc);
    assert forall|i: int| 0 <= i < all.len() implies sc[i].1 == session_with_allocator_check(
        all[i],
        m.ids.next_session_id,
    ) by {}
    if scan_events(all, m.events) is Ok {
        let st = scan_events(all, m.events)->Ok_0;
        let ac = accounting_checks(all, st.facts, m.snapshot.state);
        let dc = decision_checks(all, st.decisions, m.snapshot.state);
        let fc = forward_checks(st.decisions, all);
        lemma_least_failure_none(ac);
        lemma_least_failure_none(dc);
        lemma_least_failure_none(fc);
        assert forall|i: int| 0 <= i < all.len() implies ac[i].1 == accounting_check(
            all[i],
            st.facts[i],
            m.snapshot.state,
        ) by {}
        assert forall|i: int| 0 <= i < all.len() implies dc[i].1 == decision_check(
            all[i],
            all,
            st.decisions,
            m.snapshot.state,
        ) by {}
        assert forall|j: int| 0 <= j < st.decisions.len() implies fc[j].1 == forward_check(
            st.decisions[j].0,
            st.decisions[j].1,
            all,
        ) by {}
        if validation(m) is Ok {
            assert(failure_result(least_failure(sc)) is Ok);
            assert(least_failure(sc) is None);
            assert(failure_result(least_failure(ac)) is Ok);
            assert(failure_result(least_failure(dc)) is Ok);
            assert(failure_result(least_failure(fc)) is Ok);
            assert forall|i: int| 0 <= i < all.len() implies (#[trigger] session_with_allocator_check(
                all[i],
                m.ids.next_session_id,
            )) is Ok by {
                assert(sc[i].1 is Ok);
            }
            assert forall|i: int| 0 <= i < all.len() implies (#[trigger] accounting_check(
                all[i],
                st.facts[i],
                m.snapshot.state,
            )) is Ok by {
                assert(ac[i].1 is Ok);
            }
            assert forall|i: int| 0 <= i < all.len() implies (#[trigger] decision_check(
                all[i],
                all,
                st.decisions,
                m.snapshot.state,
            )) is Ok by {
                assert(dc[i].1 is Ok);
            }
            assert forall|j: int| 0 <= j < st.decisions.len() implies (#[trigger] forward_check(
                st.decisions[j].0,
                st.decisions[j].1,
                all,
            )) is Ok by {
                assert(fc[j].1 is Ok);
            }
        }
        if parts_hold(m, st) {
            assert forall|i: int| 0 <= i < sc.len() implies (#[trigger] sc[i]).1 is Ok by {
                assert(session_with_allocator_check(all[i], m.ids.next_session_id) is Ok);
            }
            assert forall|i: int| 0 <= i < ac.len() implies (#[trigger] ac[i]).1 is Ok by {
                assert(accounting_check(all[i], st.facts[i], m.snapshot.state) is Ok);
            }
            assert forall|i: int| 0 <= i < dc.len() implies (#[trigger] dc[i]).1 is Ok by {
                assert(decision_check(all[i], all, st.decisions, m.snapshot.state) is Ok);
            }
            assert forall|j: int| 0 <= j < fc.len() implies (#[trigger] fc[j]).1 is Ok by {
                assert(forward_check(st.decisions[j].0, st.decisions[j].1, all) is Ok);
            }
        }
    }
}


/// Recorded sessions are ended and have distinct IDs.
pub proof fn lemma_recorded_facts(sessions: Seq<Session>)
    requires
        recorded_sessions_check(sessions) is Ok,
    ensures
        ids_unique(sessions),
        forall|i: int| 0 <= i < sessions.len() ==> (#[trigger] sessions[i]).end is Some,
    decreases sessions.len(),
{
    if sessions.len() > 0 {
        let rest = sessions.drop_last();
        lemma_recorded_facts(rest);
        let last = sessions.last();
        assert(find_session(rest, last.id) < 0);
        assert forall|i: int, j: int| 0 <= i < j < sessions.len() implies sessions[i].id
            != sessions[j].id by {
            if j == sessions.len() - 1 {
                assert(rest[i] == sessions[i]);
                lemma_find_unique(rest, i);
                if sessions[i].id == last.id {
                    assert(find_session(rest, last.id) == i);
                }
            } else {
                assert(rest[i] == sessions[i] && rest[j] == sessions[j]);
            }
        }
        assert forall|i: int| 0 <= i < sessions.len() implies (#[trigger] sessions[i]).end is Some by {
            if i < sessions.len() - 1 {
                assert(rest[i] == sessions[i]);
            }
        }
    }
}

/// In a consistent unit, recorded and active sessions have distinct IDs.
pub proof fn lemma_all_unique(m: DomainModel)
    requires
        recorded_sessions_check(m.sessions) is Ok,
        match m.snapshot.state {
            ProgressState::Active { session, .. } => find_session(m.sessions, session.id) < 0,
            _ => true,
        },
    ensures
        ids_unique(all_sessions(m)),
{
    lemma_recorded_facts(m.sessions);
    match m.snapshot.state {
        ProgressState::Active { session, .. } => {
            let all = m.sessions.push(session);
            assert forall|i: int, j: int| 0 <= i < j < all.len() implies all[i].id != all[j].id by {
                if j == all.len() - 1 {
                    lemma_find_unique(m.sessions, i);
                } else {
                    assert(all[i] == m.sessions[i] && all[j] == m.sessions[j]);
                }
            }
        },
        _ => {},
    }
}

/// Commands that change only a Ready snapshot keep a consistent unit consistent.
proof fn lemma_ready_commands(m: DomainModel, command: Command, at: Timestamp)
    requires
        validation(m) is Ok,
        m.snapshot.state is Ready,
        command is SetCurrentTask || command is Configure || command is ResetReady
            || command is SkipReady,
        m.apply(command, at) is Ok,
    ensures
        validation(m.apply(command, at)->Ok_0) is Ok,
{
    let m2 = m.apply(command, at)->Ok_0;
    lemma_validation_parts(m);
    lemma_validation_parts(m2);
    let st = scan_events(all_sessions(m), m.events)->Ok_0;
    assert(all_sessions(m2) == all_sessions(m));
    assert(m2.events == m.events && m2.ids == m.ids);
    assert(m2.snapshot.state is Ready);
    m.snapshot.settings.lemma_validation_ok_iff_valid();
    let all = all_sessions(m);
    assert forall|i: int| 0 <= i < all.len() implies (#[trigger] accounting_check(
        all[i],
        st.facts[i],
        m2.snapshot.state,
    )) is Ok by {
        assert(accounting_check(all[i], st.facts[i], m.snapshot.state) is Ok);
    }
    assert forall|i: int| 0 <= i < all.len() implies (#[trigger] decision_check(
        all[i],
        all,
        st.decisions,
        m2.snapshot.state,
    )) is Ok by {
        assert(decision_check(all[i], all, st.decisions, m.snapshot.state) is Ok);
    }
    assert(parts_hold(m2, st));
}


/// A session found among the first ones is found at the same place after more are added.
pub proof fn lemma_find_push(a: Seq<Session>, s: Session, id: SessionId)
    requires
        find_session(a, id) >= 0,
    ensures
        find_session(a.push(s), id) == find_session(a, id),
{
    assert(a.push(s).subrange(0, a.len() as int) =~= a);
    crate::validation::lemma_find_prefix(a.push(s), a.len() as int, id);
}

/// No recorded session has an ID at or past the session allocator.
proof fn lemma_new_id_fresh(all: Seq<Session>, next: u64)
    requires
        forall|i: int|
            0 <= i < all.len() ==> (#[trigger] session_with_allocator_check(all[i], next)) is Ok,
    ensures
        find_session(all, SessionId(next)) < 0,
{
    crate::validation::lemma_find_bounds(all, SessionId(next));
    let i = find_session(all, SessionId(next));
    if i >= 0 {
        assert(session_with_allocator_check(all[i], next) is Ok);
    }
}

/// Starting a Ready session keeps a consistent unit consistent.
proof fn lemma_start(m: DomainModel, kind: SessionKind, at: Timestamp)
    requires
        validation(m) is Ok,
        m.apply(Command::Start(kind), at) is Ok,
    ensures
        validation(m.apply(Command::Start(kind), at)->Ok_0) is Ok,
{
    let m2 = m.apply(Command::Start(kind), at)->Ok_0;
    lemma_validation_parts(m);
    lemma_validation_parts(m2);
    let all = all_sessions(m);
    let st = scan_events(all, m.events)->Ok_0;
    m.snapshot.settings.lemma_validation_ok_iff_valid();
    let next = m.ids.next_session_id;
    let (next_kind, draft) = match m.snapshot.state {
        ProgressState::Ready { next_kind, current_task_draft } => (next_kind, current_task_draft),
        _ => arbitrary(),
    };
    assert(m.snapshot.state is Ready);
    assert(all == m.sessions);
    let session = match m2.snapshot.state {
        ProgressState::Active { session, .. } => session,
        _ => arbitrary(),
    };
    assert(session.id == SessionId(next));
    assert(session.current_task == draft);
    let all2 = all_sessions(m2);
    assert(all2 == all.push(session));
    lemma_new_id_fresh(all, next);
    lemma_all_unique(m);
    lemma_scan_append(all, session, m.events);
    let st2 = ScanModel { facts: st.facts.push(initial_facts(session)), ..st };
    lemma_scan_facts_len(all, m.events);
    let d = m.snapshot.settings.spec_duration_seconds(kind);
    assert(1 <= d <= 86_400);
    assert((d * 1000) % 1000 == 0 && 1000 <= d * 1000 <= 86_400_000) by (nonlinear_arith)
        requires
            1 <= d <= 86_400,
    ;
    assert(session_with_allocator_check(session, m2.ids.next_session_id) is Ok);
    assert forall|i: int| 0 <= i < all2.len() implies (#[trigger] session_with_allocator_check(
        all2[i],
        m2.ids.next_session_id,
    )) is Ok by {
        if i < all.len() {
            assert(all2[i] == all[i]);
            assert(session_with_allocator_check(all[i], next) is Ok);
        }
    }
    assert(active_check(m2) is Ok);
    assert forall|i: int| 0 <= i < all2.len() implies (#[trigger] accounting_check(
        all2[i],
        st2.facts[i],
        m2.snapshot.state,
    )) is Ok by {
        if i < all.len() {
            assert(all2[i] == all[i] && st2.facts[i] == st.facts[i]);
            assert(accounting_check(all[i], st.facts[i], m.snapshot.state) is Ok);
            lemma_find_unique(all, i);
            assert(all[i].id != session.id);
        }
    }
    assert forall|i: int| 0 <= i < all2.len() implies (#[trigger] decision_check(
        all2[i],
        all2,
        st2.decisions,
        m2.snapshot.state,
    )) is Ok by {
        if i < all.len() {
            assert(all2[i] == all[i]);
            assert(decision_check(all[i], all, st.decisions, m.snapshot.state) is Ok);
            match all[i].continued_from_quick_start {
                Some(source) => {
                    lemma_find_push(all, session, source);
                    crate::validation::lemma_find_bounds(all, source);
                },
                None => {},
            }
        }
    }
    assert forall|j: int| 0 <= j < st2.decisions.len() implies (#[trigger] forward_check(
        st2.decisions[j].0,
        st2.decisions[j].1,
        all2,
    )) is Ok by {
        assert(forward_check(st.decisions[j].0, st.decisions[j].1, all) is Ok);
        match st.decisions[j].1 {
            crate::model::QuickStartDecision::Continue { focus_session_id } => {
                lemma_find_push(all, session, focus_session_id);
                crate::validation::lemma_find_bounds(all, focus_session_id);
            },
            _ => {},
        }
    }
    assert(parts_hold(m2, st2));
}


/// A unit whose active session may end with `outcome`: consistent, except that
/// the active session may already have used its whole plan.
pub open spec fn may_end(m: DomainModel, outcome: SessionOutcome) -> bool {
    &&& scan_events(all_sessions(m), m.events) is Ok
    &&& parts_but_active(m, scan_events(all_sessions(m), m.events)->Ok_0)
    &&& match m.snapshot.state {
        ProgressState::Active { session, timer } => {
            &&& session.end is None
            &&& session.elapsed_ms <= session.planned_duration_ms
            &&& find_session(m.sessions, session.id) < 0
            &&& (outcome == SessionOutcome::Completed) == (session.elapsed_ms
                == session.planned_duration_ms)
            &&& (timer is Interrupted ==> outcome != SessionOutcome::Completed)
        },
        _ => false,
    }
}

/// Ending the active session keeps the unit consistent.
proof fn lemma_end(m: DomainModel, outcome: SessionOutcome, at: Timestamp)
    requires
        may_end(m, outcome),
        m.end_session(outcome, at) is Ok,
    ensures
        validation(m.end_session(outcome, at)->Ok_0) is Ok,
{
    let all = all_sessions(m);
    let st = scan_events(all, m.events)->Ok_0;
    let (session, timer) = match m.snapshot.state {
        ProgressState::Active { session, timer } => (session, timer),
        _ => arbitrary(),
    };
    let mf = m.end_session(outcome, at)->Ok_0;
    lemma_validation_parts(mf);
    m.snapshot.settings.lemma_validation_ok_iff_valid();
    let ended = ended_session(m, outcome, at);
    let allf = all_sessions(mf);
    assert(all == m.sessions.push(session));
    assert(mf.sessions == m.sessions.push(ended));
    assert(!(mf.snapshot.state is Active));
    assert(allf == m.sessions.push(ended));
    let last = m.sessions.len() as int;
    lemma_all_unique(m);
    assert(all_compatible(all, allf)) by {
        assert forall|i: int| 0 <= i < all.len() implies compatible(#[trigger] all[i], allf[i]) by {}
    }
    lemma_scan_compatible(all, allf, m.events);
    lemma_scan_invariants(all, m.events);
    lemma_scan_facts_len(all, m.events);
    assert(ids_unique(allf)) by {
        assert forall|i: int, j: int| 0 <= i < j < allf.len() implies allf[i].id != allf[j].id by {
            assert(all[i].id == allf[i].id && all[j].id == allf[j].id);
        }
    }
    lemma_find_unique(allf, last);
    lemma_find_unique(all, last);
    let event = mf.events.last();
    assert(mf.events == m.events.push(event));
    lemma_scan_push(allf, m.events, event);
    assert(event.session_id == session.id);
    assert(event.sequence == st.sequence);
    let stp = ScanModel { sequence: (st.sequence + 1) as u64, ..st };
    let f = st.facts[last];
    assert(accounting_check(all[last], f, m.snapshot.state) is Ok);
    assert(!f.ended_by_interruption);
    assert(f.last_recorded == last_recorded_at(m.events, session.id));
    assert(allf[last] == ended);
    match timer {
        TimerState::Running { run } => {
            let f2 = SessionFacts {
                credited_ms: session.elapsed_ms,
                run_closed: true,
                run_end: Some(at),
                last_recorded: Some(at),
                ..f
            };
            assert(event_effect(ended, last, stp, event) == Ok::<ScanModel, DomainError>(
                ScanModel { facts: st.facts.update(last, f2), ..stp },
            ));
            let st2 = ScanModel { facts: st.facts.update(last, f2), ..stp };
            lemma_end_finish(m, outcome, at, st2);
        },
        TimerState::Interrupted { interruption } => {
            let mk = m.mark_clock_uncertainty(at);
            let marked = match mk.snapshot.state {
                ProgressState::Active { timer: TimerState::Interrupted { interruption }, .. } =>
                    interruption,
                _ => arbitrary(),
            };
            assert(mk.events == m.events);
            let open = f.open->0;
            let f2 = SessionFacts {
                open: None,
                ended_by_interruption: true,
                run_closed: true,
                run_start: at,
                last_recorded: Some(at),
                ..f
            };
            let end = crate::model::InterruptionEnd {
                ended_at: at,
                outcome: InterruptionOutcome::SessionEnded { session_outcome: outcome },
                duration: interruption_duration(marked, at),
            };
            assert(interruption_end_check(open, end, ended, f.last_recorded) is Ok);
            assert(event_effect(ended, last, stp, event) == Ok::<ScanModel, DomainError>(
                ScanModel { facts: st.facts.update(last, f2), ..stp },
            ));
            let st2 = ScanModel { facts: st.facts.update(last, f2), ..stp };
            lemma_end_finish(m, outcome, at, st2);
        },
    }
}


/// The session that ends, as recorded.
pub open spec fn ended_session(m: DomainModel, outcome: SessionOutcome, at: Timestamp) -> Session {
    match m.snapshot.state {
        ProgressState::Active { session, .. } => Session {
            end: Some(SessionEnd { ended_at: at, outcome }),
            ..session
        },
        _ => arbitrary(),
    }
}

/// Once the closing event has been read, the ended unit passes every check.
proof fn lemma_end_finish(m: DomainModel, outcome: SessionOutcome, at: Timestamp, st2: ScanModel)
    requires
        may_end(m, outcome),
        m.end_session(outcome, at) is Ok,
        ({
            let mf = m.end_session(outcome, at)->Ok_0;
            let st = scan_events(all_sessions(m), m.events)->Ok_0;
            let last = m.sessions.len() as int;
            let f2 = st2.facts[last];
            &&& scan_events(all_sessions(mf), mf.events) == Ok::<ScanModel, DomainError>(st2)
            &&& st2.facts.len() == m.sessions.len() + 1
            &&& forall|i: int| 0 <= i < last ==> st2.facts[i] == #[trigger] st.facts[i]
            &&& st2.decisions == st.decisions
            &&& st2.sequence == st.sequence + 1
            &&& st2.max_interruption_id == st.max_interruption_id
            &&& f2.open is None
            &&& f2.run_closed
            &&& f2.credited_ms == ended_session(m, outcome, at).elapsed_ms
            &&& (f2.ended_by_interruption || f2.run_end == Some(at))
        }),
    ensures
        validation(m.end_session(outcome, at)->Ok_0) is Ok,
{
    let all = all_sessions(m);
    let st = scan_events(all, m.events)->Ok_0;
    let (session, timer) = match m.snapshot.state {
        ProgressState::Active { session, timer } => (session, timer),
        _ => arbitrary(),
    };
    let mf = m.end_session(outcome, at)->Ok_0;
    lemma_validation_parts(mf);
    m.snapshot.settings.lemma_validation_ok_iff_valid();
    let ended = ended_session(m, outcome, at);
    let allf = all_sessions(mf);
    let last = m.sessions.len() as int;
    assert(all == m.sessions.push(session));
    assert(mf.sessions == m.sessions.push(ended));
    assert(allf == m.sessions.push(ended));
    lemma_all_unique(m);
    lemma_scan_invariants(all, m.events);
    lemma_scan_facts_len(all, m.events);
    assert(ids_unique(allf)) by {
        assert forall|i: int, j: int| 0 <= i < j < allf.len() implies allf[i].id != allf[j].id by {
            assert(all[i].id == allf[i].id && all[j].id == allf[j].id);
        }
    }
    lemma_find_unique(allf, last);
    lemma_find_unique(all, last);
    let compat = all_compatible(all, allf);
    assert(compat) by {
        assert forall|i: int| 0 <= i < all.len() implies compatible(#[trigger] all[i], allf[i]) by {}
    }
    // Recorded sessions: the ended session joins them.
    assert(mf.sessions.drop_last() =~= m.sessions);
    assert(recorded_sessions_check(mf.sessions) is Ok);
    // Every session's own checks.
    assert(session_with_allocator_check(all[last], m.ids.next_session_id) is Ok);
    assert forall|i: int| 0 <= i < allf.len() implies (#[trigger] session_with_allocator_check(
        allf[i],
        mf.ids.next_session_id,
    )) is Ok by {
        assert(session_with_allocator_check(all[i], m.ids.next_session_id) is Ok);
    }
    // No decision names the session that was active.
    assert(crate::validation_spec::decision_for(st.decisions, session.id) is None) by {
        lemma_decision_for_some(st.decisions, session.id);
        if crate::validation_spec::decision_for(st.decisions, session.id) is Some {
            let k = choose|k: int|
                0 <= k < st.decisions.len() && (#[trigger] st.decisions[k]).0 == session.id
                    && crate::validation_spec::decision_for(st.decisions, session.id) == Some(
                    st.decisions[k].1,
                );
            assert(is_completed_quick_start(all[find_session(all, st.decisions[k].0)]));
        }
    }
    assert forall|i: int| 0 <= i < allf.len() implies (#[trigger] accounting_check(
        allf[i],
        st2.facts[i],
        mf.snapshot.state,
    )) is Ok by {
        if i < last {
            assert(accounting_check(all[i], st.facts[i], m.snapshot.state) is Ok);
            assert(all[i].id != session.id);
        }
    }
    assert forall|i: int| 0 <= i < allf.len() implies (#[trigger] decision_check(
        allf[i],
        allf,
        st2.decisions,
        mf.snapshot.state,
    )) is Ok by {
        assert(decision_check(all[i], all, st.decisions, m.snapshot.state) is Ok);
        match allf[i].continued_from_quick_start {
            Some(source) => {
                lemma_find_compatible(all, allf, source);
                crate::validation::lemma_find_bounds(all, source);
            },
            None => {},
        }
        if i < last {
            assert(all[i].id != session.id);
        }
    }
    assert forall|j: int| 0 <= j < st2.decisions.len() implies (#[trigger] forward_check(
        st2.decisions[j].0,
        st2.decisions[j].1,
        allf,
    )) is Ok by {
        assert(forward_check(st.decisions[j].0, st.decisions[j].1, all) is Ok);
        match st.decisions[j].1 {
            QuickStartDecision::Continue { focus_session_id } => {
                lemma_find_compatible(all, allf, focus_session_id);
                crate::validation::lemma_find_bounds(all, focus_session_id);
            },
            _ => {},
        }
    }
    assert(snapshot_check(mf.snapshot.state, allf) is Ok);
    assert(header_check(mf) is Ok);
    assert(parts_hold(mf, st2));
}


/// The facts the scan keeps for the active session, if any.
pub open spec fn active_facts(m: DomainModel) -> SessionFacts {
    scan_events(all_sessions(m), m.events)->Ok_0.facts[m.sessions.len() as int]
}

/// Ending the active session by command keeps the unit consistent.
proof fn lemma_end_command(m: DomainModel, outcome: SessionOutcome, at: Timestamp)
    requires
        validation(m) is Ok,
        m.snapshot.state is Active,
        outcome != SessionOutcome::Completed,
        m.end_session(outcome, at) is Ok,
    ensures
        validation(m.end_session(outcome, at)->Ok_0) is Ok,
{
    lemma_validation_parts(m);
    lemma_end(m, outcome, at);
}

/// Closing the run and opening an interruption keeps the unit consistent,
/// when the interruption starts where the run was last confirmed.
proof fn lemma_interrupt(
    m: DomainModel,
    kind: crate::model::InterruptionKind,
    boundary: Timestamp,
    recorded_at: Timestamp,
    uncertainty: Option<crate::model::TimeUncertainty>,
)
    requires
        validation(m) is Ok,
        m.interrupt(kind, boundary, recorded_at, uncertainty) is Ok,
        match m.snapshot.state {
            ProgressState::Active { session, timer: TimerState::Running { run } } => {
                &&& run.last_confirmed_at == boundary
                &&& (kind == crate::model::InterruptionKind::ObservationGap || boundary == recorded_at)
                &&& (kind == crate::model::InterruptionKind::Distraction ==> session.kind.spec_is_work())
                &&& (kind == crate::model::InterruptionKind::ObservationGap && active_facts(m).gap_doubt
                    ==> uncertainty is Some)
            },
            _ => false,
        },
    ensures
        validation(m.interrupt(kind, boundary, recorded_at, uncertainty)->Ok_0) is Ok,
{
    let all = all_sessions(m);
    lemma_validation_parts(m);
    let st = scan_events(all, m.events)->Ok_0;
    let (session, run) = match m.snapshot.state {
        ProgressState::Active { session, timer: TimerState::Running { run } } => (session, run),
        _ => arbitrary(),
    };
    let mf = m.interrupt(kind, boundary, recorded_at, uncertainty)->Ok_0;
    lemma_validation_parts(mf);
    m.snapshot.settings.lemma_validation_ok_iff_valid();
    let last = m.sessions.len() as int;
    lemma_all_unique(m);
    lemma_scan_invariants(all, m.events);
    lemma_scan_facts_len(all, m.events);
    lemma_find_unique(all, last);
    let m1 = m.close_run(recorded_at)->Ok_0;
    let e1 = m1.events.last();
    assert(m1.events == m.events.push(e1));
    let e2 = mf.events.last();
    assert(mf.events == m1.events.push(e2));
    assert(all_sessions(mf) == all);
    assert(all_sessions(m1) == all);
    lemma_scan_push(all, m.events, e1);
    lemma_scan_push(all, m1.events, e2);
    let f = st.facts[last];
    assert(accounting_check(all[last], f, m.snapshot.state) is Ok);
    let f1 = SessionFacts {
        credited_ms: session.elapsed_ms,
        run_closed: true,
        run_end: Some(run.last_confirmed_at),
        last_recorded: Some(recorded_at),
        ..f
    };
    let stp = ScanModel { sequence: (st.sequence + 1) as u64, ..st };
    assert(event_effect(all[last], last, stp, e1) == Ok::<ScanModel, DomainError>(
        ScanModel { facts: st.facts.update(last, f1), ..stp },
    ));
    let st1 = ScanModel { facts: st.facts.update(last, f1), ..stp };
    let id = crate::model::InterruptionId(m.ids.next_interruption_id);
    assert(!st1.interruption_ids.contains(id)) by {
        if st1.interruption_ids.contains(id) {
            let k = choose|k: int| 0 <= k < st1.interruption_ids.len() && st1.interruption_ids[k] == id;
            assert(st.interruption_ids[k].0 <= st.max_interruption_id);
        }
    }
    let f2 = SessionFacts {
        open: Some(
            crate::validation_spec::OpenInterruption {
                id,
                kind,
                started_at: boundary,
                recorded_at,
                clock_doubt: kind == crate::model::InterruptionKind::ObservationGap && f1.gap_doubt,
            },
        ),
        gap_doubt: false,
        last_recorded: Some(recorded_at),
        ..f1
    };
    let stq = ScanModel { sequence: (st1.sequence + 1) as u64, ..st1 };
    let st2 = ScanModel {
        facts: st1.facts.update(last, f2),
        interruption_ids: st1.interruption_ids.push(id),
        max_interruption_id: id.0,
        ..stq
    };
    assert(event_effect(all[last], last, stq, e2) == Ok::<ScanModel, DomainError>(st2));
    assert forall|i: int| 0 <= i < all.len() implies (#[trigger] accounting_check(
        all[i],
        st2.facts[i],
        mf.snapshot.state,
    )) is Ok by {
        if i < last {
            assert(accounting_check(all[i], st.facts[i], m.snapshot.state) is Ok);
        }
    }
    assert forall|i: int| 0 <= i < all.len() implies (#[trigger] decision_check(
        all[i],
        all,
        st2.decisions,
        mf.snapshot.state,
    )) is Ok by {
        assert(decision_check(all[i], all, st.decisions, m.snapshot.state) is Ok);
    }
    assert(parts_hold(mf, st2));
}

/// The active session of a unit.
pub open spec fn active_session(m: DomainModel) -> Session {
    match m.snapshot.state {
        ProgressState::Active { session, .. } => session,
        _ => arbitrary(),
    }
}

/// A step on the active session that leaves every other session, the header
/// and the decisions alone keeps every check but the active session's own,
/// once its own accounting and snapshot hold.
proof fn lemma_active_frame(m: DomainModel, m2: DomainModel, st2: ScanModel)
    requires
        validation(m) is Ok,
        m.snapshot.state is Active,
        m2.snapshot.state is Active,
        m2.sessions == m.sessions,
        m2.snapshot.settings == m.snapshot.settings,
        m2.snapshot.round_progress == m.snapshot.round_progress,
        m2.ids.next_session_id == m.ids.next_session_id,
        m2.ids.next_event_sequence == st2.sequence,
        st2.max_interruption_id < m2.ids.next_interruption_id,
        active_session(m2) == (Session {
            elapsed_ms: active_session(m2).elapsed_ms,
            ..active_session(m)
        }),
        active_session(m2).elapsed_ms <= active_session(m2).planned_duration_ms,
        scan_events(all_sessions(m2), m2.events) == Ok::<ScanModel, DomainError>(st2),
        st2.facts.len() == m.sessions.len() + 1,
        forall|i: int|
            0 <= i < m.sessions.len() ==> st2.facts[i] == #[trigger] scan_events(
                all_sessions(m),
                m.events,
            )->Ok_0.facts[i],
        st2.decisions == scan_events(all_sessions(m), m.events)->Ok_0.decisions,
        accounting_check(
            active_session(m2),
            st2.facts[m.sessions.len() as int],
            m2.snapshot.state,
        ) is Ok,
        snapshot_check(m2.snapshot.state, all_sessions(m2)) is Ok,
    ensures
        parts_but_active(m2, st2),
{
    lemma_validation_parts(m);
    let all = all_sessions(m);
    let all2 = all_sessions(m2);
    let st = scan_events(all, m.events)->Ok_0;
    let s = active_session(m);
    let s2 = active_session(m2);
    let last = m.sessions.len() as int;
    assert(all == m.sessions.push(s));
    assert(all2 == m.sessions.push(s2));
    assert(all_compatible(all, all2)) by {
        assert forall|i: int| 0 <= i < all.len() implies compatible(#[trigger] all[i], all2[i]) by {}
    }
    lemma_all_unique(m);
    lemma_find_unique(all, last);
    assert forall|i: int| 0 <= i < all2.len() implies (#[trigger] session_with_allocator_check(
        all2[i],
        m2.ids.next_session_id,
    )) is Ok by {
        assert(session_with_allocator_check(all[i], m.ids.next_session_id) is Ok);
    }
    assert forall|i: int| 0 <= i < all2.len() implies (#[trigger] accounting_check(
        all2[i],
        st2.facts[i],
        m2.snapshot.state,
    )) is Ok by {
        if i < last {
            assert(accounting_check(all[i], st.facts[i], m.snapshot.state) is Ok);
            lemma_find_unique(all, i);
            assert(all[i].id != s.id);
        }
    }
    assert forall|i: int| 0 <= i < all2.len() implies (#[trigger] decision_check(
        all2[i],
        all2,
        st2.decisions,
        m2.snapshot.state,
    )) is Ok by {
        assert(decision_check(all[i], all, st.decisions, m.snapshot.state) is Ok);
        match all2[i].continued_from_quick_start {
            Some(source) => {
                lemma_find_compatible(all, all2, source);
                crate::validation::lemma_find_bounds(all, source);
            },
            None => {},
        }
    }
    assert forall|j: int| 0 <= j < st2.decisions.len() implies (#[trigger] forward_check(
        st2.decisions[j].0,
        st2.decisions[j].1,
        all2,
    )) is Ok by {
        assert(forward_check(st.decisions[j].0, st.decisions[j].1, all) is Ok);
        match st.decisions[j].1 {
            QuickStartDecision::Continue { focus_session_id } => {
                lemma_find_compatible(all, all2, focus_session_id);
                crate::validation::lemma_find_bounds(all, focus_session_id);
            },
            _ => {},
        }
    }
    assert(header_check(m2) == header_check(m));
}

/// Marking the open interruption's duration unknown keeps a consistent unit
/// consistent.
proof fn lemma_mark(m: DomainModel, at: Timestamp)
    requires
        validation(m) is Ok,
    ensures
        validation(m.mark_clock_uncertainty(at)) is Ok,
{
    let m2 = m.mark_clock_uncertainty(at);
    match m.snapshot.state {
        ProgressState::Active { session, timer: TimerState::Interrupted { interruption } } => {
            lemma_validation_parts(m);
            lemma_validation_parts(m2);
            let all = all_sessions(m);
            let st = scan_events(all, m.events)->Ok_0;
            let last = m.sessions.len() as int;
            lemma_scan_facts_len(all, m.events);
            assert(all_sessions(m2) == all);
            assert(accounting_check(all[last], st.facts[last], m.snapshot.state) is Ok);
            lemma_active_frame(m, m2, st);
            assert(parts_hold(m2, st));
        },
        _ => {},
    }
}

/// The facts after reading a gap event of the active, running session.
proof fn lemma_gap_emit_running(
    m: DomainModel,
    boundary: Timestamp,
    at: Timestamp,
    reason: crate::model::GapReason,
)
    requires
        validation(m) is Ok,
        m.snapshot.state matches ProgressState::Active { timer: TimerState::Running { run }, .. }
            && run.last_confirmed_at == boundary,
        m.emit(
            active_session(m).id,
            boundary,
            at,
            EventKind::ObservationGapDetected { last_confirmed_at: boundary, detected_at: at, reason },
        ) is Ok,
    ensures
        ({
            let m1 = m.emit(
                active_session(m).id,
                boundary,
                at,
                EventKind::ObservationGapDetected {
                    last_confirmed_at: boundary,
                    detected_at: at,
                    reason,
                },
            )->Ok_0;
            &&& validation(m1) is Ok
            &&& active_facts(m1).gap_doubt == (reason == crate::model::GapReason::ClockAnomaly
                || at.0 < boundary.0)
        }),
{
    let m1 = m.emit(
        active_session(m).id,
        boundary,
        at,
        EventKind::ObservationGapDetected { last_confirmed_at: boundary, detected_at: at, reason },
    )->Ok_0;
    lemma_validation_parts(m);
    lemma_validation_parts(m1);
    let all = all_sessions(m);
    let st = scan_events(all, m.events)->Ok_0;
    let last = m.sessions.len() as int;
    lemma_all_unique(m);
    lemma_scan_invariants(all, m.events);
    lemma_scan_facts_len(all, m.events);
    lemma_find_unique(all, last);
    assert(all_sessions(m1) == all);
    let e = m1.events.last();
    assert(m1.events == m.events.push(e));
    lemma_scan_push(all, m.events, e);
    let f = st.facts[last];
    assert(accounting_check(all[last], f, m.snapshot.state) is Ok);
    let f1 = SessionFacts {
        gap_doubt: reason == crate::model::GapReason::ClockAnomaly || at.0 < boundary.0,
        last_recorded: Some(at),
        ..f
    };
    let stp = ScanModel { sequence: (st.sequence + 1) as u64, ..st };
    let st1 = ScanModel { facts: st.facts.update(last, f1), ..stp };
    assert(event_effect(all[last], last, stp, e) == Ok::<ScanModel, DomainError>(st1));
    lemma_active_frame(m, m1, st1);
    assert(parts_hold(m1, st1));
}

/// Recording a gap in a running session keeps the unit consistent, when the
/// gap starts where the run was last confirmed and clock doubt is noted.
proof fn lemma_gap_running(
    m: DomainModel,
    boundary: Timestamp,
    at: Timestamp,
    reason: crate::model::GapReason,
    uncertainty: Option<crate::model::TimeUncertainty>,
)
    requires
        validation(m) is Ok,
        m.snapshot.state matches ProgressState::Active { timer: TimerState::Running { run }, .. }
            && run.last_confirmed_at == boundary,
        (reason == crate::model::GapReason::ClockAnomaly || at.0 < boundary.0) ==> uncertainty is Some,
        m.record_gap(boundary, at, reason, uncertainty) is Ok,
    ensures
        validation(m.record_gap(boundary, at, reason, uncertainty)->Ok_0) is Ok,
{
    lemma_gap_emit_running(m, boundary, at, reason);
    let m1 = m.emit(
        active_session(m).id,
        boundary,
        at,
        EventKind::ObservationGapDetected { last_confirmed_at: boundary, detected_at: at, reason },
    )->Ok_0;
    lemma_interrupt(m1, crate::model::InterruptionKind::ObservationGap, boundary, at, uncertainty);
}

/// Recording a gap in an interrupted session keeps the unit consistent, when
/// whatever the events reveal of a backward clock is already noted or noted now.
proof fn lemma_gap_interrupted(
    m: DomainModel,
    boundary: Timestamp,
    at: Timestamp,
    reason: crate::model::GapReason,
    uncertainty: Option<crate::model::TimeUncertainty>,
)
    requires
        validation(m) is Ok,
        match m.snapshot.state {
            ProgressState::Active { session, timer: TimerState::Interrupted { interruption } } => {
                &&& (reason == crate::model::GapReason::ClockAnomaly || at.0 < boundary.0)
                    ==> (interruption.time_uncertainty is Some || uncertainty is Some)
                &&& (at.0 < interruption.recorded_at.0 || crate::validation_spec::before_last(
                    last_recorded_at(m.events, session.id),
                    at,
                )) ==> interruption.time_uncertainty is Some
            },
            _ => false,
        },
        m.record_gap(boundary, at, reason, uncertainty) is Ok,
    ensures
        validation(m.record_gap(boundary, at, reason, uncertainty)->Ok_0) is Ok,
{
    let mf = m.record_gap(boundary, at, reason, uncertainty)->Ok_0;
    lemma_validation_parts(m);
    lemma_validation_parts(mf);
    let all = all_sessions(m);
    let st = scan_events(all, m.events)->Ok_0;
    let last = m.sessions.len() as int;
    lemma_all_unique(m);
    lemma_scan_invariants(all, m.events);
    lemma_scan_facts_len(all, m.events);
    lemma_find_unique(all, last);
    assert(all_sessions(mf) == all);
    let e = mf.events.last();
    assert(mf.events == m.events.push(e));
    lemma_scan_push(all, m.events, e);
    let f = st.facts[last];
    assert(accounting_check(all[last], f, m.snapshot.state) is Ok);
    let open = f.open->0;
    let doubtful = reason == crate::model::GapReason::ClockAnomaly || at.0 < boundary.0;
    let f1 = SessionFacts {
        open: Some(
            crate::validation_spec::OpenInterruption {
                clock_doubt: open.clock_doubt || doubtful || at.0 < open.recorded_at.0
                    || crate::validation_spec::before_last(f.last_recorded, at),
                ..open
            },
        ),
        last_recorded: Some(at),
        ..f
    };
    let stp = ScanModel { sequence: (st.sequence + 1) as u64, ..st };
    let st1 = ScanModel { facts: st.facts.update(last, f1), ..stp };
    assert(event_effect(all[last], last, stp, e) == Ok::<ScanModel, DomainError>(st1));
    lemma_active_frame(m, mf, st1);
    assert(parts_hold(mf, st1));
}

/// Resuming, or returning from a distraction, keeps the unit consistent.
proof fn lemma_resume(m: DomainModel, id: SessionId, returning: bool, at: Timestamp)
    requires
        validation(m) is Ok,
        m.resume(id, returning, at) is Ok,
    ensures
        validation(m.resume(id, returning, at)->Ok_0) is Ok,
{
    lemma_mark(m, at);
    let m1 = m.mark_clock_uncertainty(at);
    let mf = m.resume(id, returning, at)->Ok_0;
    let (session, marked) = match m1.snapshot.state {
        ProgressState::Active { session, timer: TimerState::Interrupted { interruption } } => (
            session,
            interruption,
        ),
        _ => arbitrary(),
    };
    assert(m1.snapshot.state == ProgressState::Active {
        session,
        timer: TimerState::Interrupted { interruption: marked },
    });
    lemma_validation_parts(m1);
    lemma_validation_parts(mf);
    let all = all_sessions(m1);
    let st = scan_events(all, m1.events)->Ok_0;
    let last = m1.sessions.len() as int;
    lemma_all_unique(m1);
    lemma_scan_invariants(all, m1.events);
    lemma_scan_facts_len(all, m1.events);
    lemma_find_unique(all, last);
    assert(all_sessions(mf) == all);
    let e = mf.events.last();
    assert(mf.events == m1.events.push(e));
    lemma_scan_push(all, m1.events, e);
    let f = st.facts[last];
    assert(accounting_check(all[last], f, m1.snapshot.state) is Ok);
    assert(f.last_recorded == last_recorded_at(m1.events, session.id));
    let f2 = SessionFacts {
        open: None,
        ended_by_interruption: false,
        run_closed: false,
        run_start: at,
        last_recorded: Some(at),
        ..f
    };
    let stp = ScanModel { sequence: (st.sequence + 1) as u64, ..st };
    let st2 = ScanModel { facts: st.facts.update(last, f2), ..stp };
    assert(event_effect(all[last], last, stp, e) == Ok::<ScanModel, DomainError>(st2));
    lemma_active_frame(m1, mf, st2);
    assert(parts_hold(mf, st2));
}

/// A lifecycle event keeps the unit consistent, when an active session is
/// interrupted.
proof fn lemma_lifecycle(m: DomainModel, at: Timestamp, payload: EventKind)
    requires
        validation(m) is Ok,
        payload is AppClosing || payload is AppRestored,
        m.snapshot.state is Active ==> m.snapshot.state->timer is Interrupted,
        m.lifecycle(at, payload) is Ok,
    ensures
        validation(m.lifecycle(at, payload)->Ok_0) is Ok,
{
    lemma_mark(m, at);
    let m1 = m.mark_clock_uncertainty(at);
    let mf = m.lifecycle(at, payload)->Ok_0;
    lemma_validation_parts(m1);
    lemma_validation_parts(mf);
    let all = all_sessions(m1);
    let st = scan_events(all, m1.events)->Ok_0;
    lemma_all_unique(m1);
    lemma_scan_invariants(all, m1.events);
    lemma_scan_facts_len(all, m1.events);
    match m1.snapshot.state {
        ProgressState::Active { session, timer: TimerState::Interrupted { interruption } } => {
            let last = m1.sessions.len() as int;
            lemma_find_unique(all, last);
            assert(all_sessions(mf) == all);
            let e = mf.events.last();
            assert(mf.events == m1.events.push(e));
            lemma_scan_push(all, m1.events, e);
            let f = st.facts[last];
            assert(accounting_check(all[last], f, m1.snapshot.state) is Ok);
            assert(f.last_recorded == last_recorded_at(m1.events, session.id));
            let open = f.open->0;
            let f2 = SessionFacts {
                open: Some(
                    crate::validation_spec::OpenInterruption {
                        clock_doubt: open.clock_doubt || at.0 < open.recorded_at.0
                            || crate::validation_spec::before_last(f.last_recorded, at),
                        ..open
                    },
                ),
                last_recorded: Some(at),
                ..f
            };
            let stp = ScanModel { sequence: (st.sequence + 1) as u64, ..st };
            let st2 = ScanModel { facts: st.facts.update(last, f2), ..stp };
            assert(event_effect(all[last], last, stp, e) == Ok::<ScanModel, DomainError>(st2));
            lemma_active_frame(m1, mf, st2);
            assert(parts_hold(mf, st2));
        },
        ProgressState::AwaitingQuickStartDecision { quick_start_session_id, current_task } => {
            assert(all == m1.sessions);
            let k = find_session(all, quick_start_session_id);
            crate::validation::lemma_find_bounds(all, quick_start_session_id);
            assert(all_sessions(mf) == all);
            let e = mf.events.last();
            assert(mf.events == m1.events.push(e));
            lemma_scan_push(all, m1.events, e);
            let f = st.facts[k];
            assert(accounting_check(all[k], f, m1.snapshot.state) is Ok);
            assert(decision_check(all[k], all, st.decisions, m1.snapshot.state) is Ok);
            let f2 = SessionFacts { last_recorded: Some(at), ..f };
            let stp = ScanModel { sequence: (st.sequence + 1) as u64, ..st };
            let st2 = ScanModel { facts: st.facts.update(k, f2), ..stp };
            assert(event_effect(all[k], k, stp, e) == Ok::<ScanModel, DomainError>(st2));
            assert forall|i: int| 0 <= i < all.len() implies (#[trigger] accounting_check(
                all[i],
                st2.facts[i],
                mf.snapshot.state,
            )) is Ok by {
                assert(accounting_check(all[i], st.facts[i], m1.snapshot.state) is Ok);
            }
            assert forall|i: int| 0 <= i < all.len() implies (#[trigger] decision_check(
                all[i],
                all,
                st2.decisions,
                mf.snapshot.state,
            )) is Ok by {
                assert(decision_check(all[i], all, st.decisions, m1.snapshot.state) is Ok);
            }
            assert(parts_hold(mf, st2));
        },
        _ => {
            assert(mf == m1);
        },
    }
}

/// Closing the application keeps the unit consistent.
proof fn lemma_close_app(m: DomainModel, at: Timestamp)
    requires
        validation(m) is Ok,
        m.close_app(at) is Ok,
    ensures
        validation(m.close_app(at)->Ok_0) is Ok,
{
    let stopped = match m.snapshot.state {
        ProgressState::Active { session, timer } => match timer {
            TimerState::Running { .. } => match m.require_running(session.id, at) {
                Err(e) => Err(e),
                Ok(_) => m.interrupt(crate::model::InterruptionKind::AppExit, at, at, None),
            },
            _ => Ok(m),
        },
        _ => Ok(m),
    };
    match m.snapshot.state {
        ProgressState::Active { session, timer: TimerState::Running { .. } } => {
            lemma_interrupt(m, crate::model::InterruptionKind::AppExit, at, at, None);
        },
        _ => {},
    }
    lemma_lifecycle(stopped->Ok_0, at, EventKind::AppClosing);
}

/// Restoring the application keeps the unit consistent.
proof fn lemma_restore_app(m: DomainModel, at: Timestamp)
    requires
        validation(m) is Ok,
        m.restore_app(at) is Ok,
    ensures
        validation(m.restore_app(at)->Ok_0) is Ok,
{
    let stopped = match m.snapshot.state {
        ProgressState::Active { timer, .. } => match timer {
            TimerState::Running { run } => m.record_gap(
                run.last_confirmed_at,
                at,
                crate::model::GapReason::Restart,
                if at.0 < run.last_confirmed_at.0 {
                    Some(crate::model::TimeUncertainty::ClockMovedBackward)
                } else {
                    None
                },
            ),
            _ => Ok(m),
        },
        _ => Ok(m),
    };
    match m.snapshot.state {
        ProgressState::Active { timer: TimerState::Running { run }, .. } => {
            lemma_gap_running(
                m,
                run.last_confirmed_at,
                at,
                crate::model::GapReason::Restart,
                if at.0 < run.last_confirmed_at.0 {
                    Some(crate::model::TimeUncertainty::ClockMovedBackward)
                } else {
                    None
                },
            );
        },
        _ => {},
    }
    lemma_lifecycle(stopped->Ok_0, at, EventKind::AppRestored);
}

/// The running active session credited with `credit` more and confirmed at `at`.
pub open spec fn with_credit(m: DomainModel, credit: u64, at: Timestamp) -> DomainModel {
    match m.snapshot.state {
        ProgressState::Active { session, timer: TimerState::Running { run } } => m.with_state(
            ProgressState::Active {
                session: Session { elapsed_ms: (session.elapsed_ms + credit) as u64, ..session },
                timer: TimerState::Running {
                    run: crate::model::RunState { last_confirmed_at: at, ..run },
                },
            },
        ),
        _ => m,
    }
}

/// Crediting observed time up to the plan keeps every check but the one that
/// the active session has time left.
proof fn lemma_credit(m: DomainModel, credit: u64, at: Timestamp)
    requires
        validation(m) is Ok,
        m.snapshot.state matches ProgressState::Active {
            session,
            timer: TimerState::Running { run },
        } && at.0 >= run.last_confirmed_at.0 && session.elapsed_ms + credit
            <= session.planned_duration_ms,
    ensures
        scan_events(all_sessions(with_credit(m, credit, at)), m.events) == scan_events(
            all_sessions(m),
            m.events,
        ),
        parts_but_active(with_credit(m, credit, at), scan_events(all_sessions(m), m.events)->Ok_0),
{
    let m2 = with_credit(m, credit, at);
    lemma_validation_parts(m);
    let all = all_sessions(m);
    let all2 = all_sessions(m2);
    let st = scan_events(all, m.events)->Ok_0;
    let last = m.sessions.len() as int;
    assert(all_compatible(all, all2)) by {
        assert forall|i: int| 0 <= i < all.len() implies compatible(#[trigger] all[i], all2[i]) by {}
    }
    lemma_scan_compatible(all, all2, m.events);
    lemma_scan_facts_len(all, m.events);
    assert(accounting_check(all[last], st.facts[last], m.snapshot.state) is Ok);
    lemma_active_frame(m, m2, st);
}

/// Every observation that a consistent unit accepts leaves it consistent:
/// what `DomainState::validate` accepts before the observation, it accepts after.
pub proof fn lemma_observe_preserves_consistency(
    m: DomainModel,
    observation: crate::observation::Observation,
)
    requires
        validation(m) is Ok,
        m.observe(observation) is Ok,
    ensures
        validation(m.observe(observation)->Ok_0) is Ok,
{
    let at = observation.at;
    if m.snapshot.state is Active {
        lemma_mark(m, at);
        let m1 = m.mark_clock_uncertainty(at);
        let (session, timer) = match m1.snapshot.state {
            ProgressState::Active { session, timer } => (session, timer),
            _ => arbitrary(),
        };
        match crate::transition::classify_against(observation, timer) {
            Err((reason, uncertainty)) => match timer {
                TimerState::Running { run } => {
                    lemma_gap_running(m1, run.last_confirmed_at, at, reason, uncertainty);
                },
                TimerState::Interrupted { interruption } => {
                    lemma_gap_interrupted(m1, observation.previous_at, at, reason, uncertainty);
                },
            },
            Ok(elapsed) => match timer {
                TimerState::Running { run } => {
                    let remaining = session.spec_remaining_ms();
                    let credit = if elapsed < remaining {
                        elapsed
                    } else {
                        remaining
                    };
                    lemma_validation_parts(m1);
                    lemma_credit(m1, credit, at);
                    let m2 = with_credit(m1, credit, at);
                    lemma_validation_parts(m2);
                    m1.snapshot.settings.lemma_validation_ok_iff_valid();
                    if credit == remaining {
                        assert(may_end(m2, SessionOutcome::Completed));
                        lemma_end(m2, SessionOutcome::Completed, at);
                    } else {
                        assert(active_check(m2) is Ok);
                    }
                },
                TimerState::Interrupted { .. } => {},
            },
        }
    }
}

/// A new decision answers only for its own Quick Start, and only if none did.
pub proof fn lemma_decision_for_push(
    decisions: Seq<(SessionId, QuickStartDecision)>,
    entry: (SessionId, QuickStartDecision),
    id: SessionId,
)
    ensures
        crate::validation_spec::decision_for(decisions.push(entry), id) == if crate::validation_spec::decision_for(
            decisions,
            id,
        ) is Some {
            crate::validation_spec::decision_for(decisions, id)
        } else if entry.0 == id {
            Some(entry.1)
        } else {
            None
        },
{
    assert(decisions.push(entry).drop_last() =~= decisions);
}

/// Deciding a completed Quick Start keeps the unit consistent.
proof fn lemma_decide(m: DomainModel, id: SessionId, choice: crate::model::QuickStartChoice, at: Timestamp)
    requires
        validation(m) is Ok,
        m.decide(id, choice, at) is Ok,
    ensures
        validation(m.decide(id, choice, at)->Ok_0) is Ok,
{
    let mf = m.decide(id, choice, at)->Ok_0;
    lemma_validation_parts(m);
    lemma_validation_parts(mf);
    m.snapshot.settings.lemma_validation_ok_iff_valid();
    let all = all_sessions(m);
    let st = scan_events(all, m.events)->Ok_0;
    let task = match m.snapshot.state {
        ProgressState::AwaitingQuickStartDecision { current_task, .. } => current_task,
        _ => arbitrary(),
    };
    assert(all == m.sessions);
    lemma_all_unique(m);
    lemma_scan_invariants(all, m.events);
    lemma_scan_facts_len(all, m.events);
    let k = find_session(all, id);
    crate::validation::lemma_find_bounds(all, id);
    lemma_find_unique(all, k);
    let f = st.facts[k];
    assert(accounting_check(all[k], f, m.snapshot.state) is Ok);
    assert(decision_check(all[k], all, st.decisions, m.snapshot.state) is Ok);
    assert(crate::validation_spec::decision_for(st.decisions, id) is None);
    let stp = ScanModel { sequence: (st.sequence + 1) as u64, ..st };
    let f2 = SessionFacts { last_recorded: Some(at), ..f };
    match choice {
        crate::model::QuickStartChoice::Finish => {
            let e = mf.events.last();
            assert(mf.events == m.events.push(e));
            assert(all_sessions(mf) == all);
            lemma_scan_push(all, m.events, e);
            let st2 = ScanModel {
                facts: st.facts.update(k, f2),
                decisions: st.decisions.push((id, QuickStartDecision::Finish)),
                ..stp
            };
            assert(event_effect(all[k], k, stp, e) == Ok::<ScanModel, DomainError>(st2));
            assert forall|i: int| 0 <= i < all.len() implies (#[trigger] accounting_check(
                all[i],
                st2.facts[i],
                mf.snapshot.state,
            )) is Ok by {
                assert(accounting_check(all[i], st.facts[i], m.snapshot.state) is Ok);
            }
            assert forall|i: int| 0 <= i < all.len() implies (#[trigger] decision_check(
                all[i],
                all,
                st2.decisions,
                mf.snapshot.state,
            )) is Ok by {
                assert(decision_check(all[i], all, st.decisions, m.snapshot.state) is Ok);
                lemma_decision_for_push(st.decisions, (id, QuickStartDecision::Finish), all[i].id);
                if i != k {
                    lemma_find_unique(all, i);
                }
                match all[i].continued_from_quick_start {
                    Some(source) => {
                        lemma_decision_for_push(st.decisions, (id, QuickStartDecision::Finish), source);
                    },
                    None => {},
                }
            }
            assert forall|j: int| 0 <= j < st2.decisions.len() implies (#[trigger] forward_check(
                st2.decisions[j].0,
                st2.decisions[j].1,
                all,
            )) is Ok by {
                if j < st.decisions.len() {
                    assert(st2.decisions[j] == st.decisions[j]);
                    assert(forward_check(st.decisions[j].0, st.decisions[j].1, all) is Ok);
                }
            }
            assert(parts_hold(mf, st2));
        },
        crate::model::QuickStartChoice::Continue => {
            lemma_decide_continue(m, id, at);
        },
    }
}

/// Continuing a completed Quick Start as a linked Focus keeps the unit consistent.
proof fn lemma_decide_continue(m: DomainModel, id: SessionId, at: Timestamp)
    requires
        validation(m) is Ok,
        m.decide(id, crate::model::QuickStartChoice::Continue, at) is Ok,
    ensures
        validation(m.decide(id, crate::model::QuickStartChoice::Continue, at)->Ok_0) is Ok,
{
    let mf = m.decide(id, crate::model::QuickStartChoice::Continue, at)->Ok_0;
    lemma_validation_parts(m);
    lemma_validation_parts(mf);
    m.snapshot.settings.lemma_validation_ok_iff_valid();
    let all = all_sessions(m);
    let st = scan_events(all, m.events)->Ok_0;
    let task = match m.snapshot.state {
        ProgressState::AwaitingQuickStartDecision { current_task, .. } => current_task,
        _ => arbitrary(),
    };
    assert(all == m.sessions);
    lemma_all_unique(m);
    lemma_scan_invariants(all, m.events);
    lemma_scan_facts_len(all, m.events);
    let k = find_session(all, id);
    crate::validation::lemma_find_bounds(all, id);
    lemma_find_unique(all, k);
    let f = st.facts[k];
    assert(accounting_check(all[k], f, m.snapshot.state) is Ok);
    assert(decision_check(all[k], all, st.decisions, m.snapshot.state) is Ok);
    assert(crate::validation_spec::decision_for(st.decisions, id) is None);
    let next = m.ids.next_session_id;
    let fid = SessionId(next);
    let m1 = m.start_session(SessionKind::Focus, task, Some(id), at)->Ok_0.0;
    let focus = active_session(m1);
    assert(focus.id == fid);
    let all2 = all_sessions(mf);
    assert(all2 == all.push(focus));
    lemma_new_id_fresh(all, next);
    lemma_all_unique(mf);
    lemma_scan_append(all, focus, m.events);
    let st1 = ScanModel { facts: st.facts.push(initial_facts(focus)), ..st };
    lemma_find_push(all, focus, id);
    let e = mf.events.last();
    assert(mf.events == m.events.push(e));
    lemma_scan_push(all2, m.events, e);
    assert(all2[k] == all[k]);
    assert(st1.facts[k] == f);
    let decision = QuickStartDecision::Continue { focus_session_id: fid };
    let st1p = ScanModel { sequence: (st1.sequence + 1) as u64, ..st1 };
    let f2 = SessionFacts { last_recorded: Some(at), ..f };
    let st2 = ScanModel {
        facts: st1.facts.update(k, f2),
        decisions: st1.decisions.push((id, decision)),
        ..st1p
    };
    assert(event_effect(all2[k], k, st1p, e) == Ok::<ScanModel, DomainError>(st2));
    let last = all.len() as int;
    lemma_find_unique(all2, last);
    let d = m.snapshot.settings.spec_duration_seconds(SessionKind::Focus);
    assert(1 <= d <= 86_400);
    assert((d * 1000) % 1000 == 0 && 1000 <= d * 1000 <= 86_400_000) by (nonlinear_arith)
        requires
            1 <= d <= 86_400,
    ;
    assert(session_with_allocator_check(focus, mf.ids.next_session_id) is Ok);
    assert forall|i: int| 0 <= i < all2.len() implies (#[trigger] session_with_allocator_check(
        all2[i],
        mf.ids.next_session_id,
    )) is Ok by {
        if i < last {
            assert(all2[i] == all[i]);
            assert(session_with_allocator_check(all[i], next) is Ok);
        }
    }
    assert(active_check(mf) is Ok);
    assert forall|i: int| 0 <= i < all2.len() implies (#[trigger] accounting_check(
        all2[i],
        st2.facts[i],
        mf.snapshot.state,
    )) is Ok by {
        if i < last {
            assert(all2[i] == all[i]);
            assert(accounting_check(all[i], st.facts[i], m.snapshot.state) is Ok);
            lemma_find_unique(all2, i);
            assert(all2[i].id != fid);
        }
    }
    assert forall|i: int| 0 <= i < all2.len() implies (#[trigger] decision_check(
        all2[i],
        all2,
        st2.decisions,
        mf.snapshot.state,
    )) is Ok by {
        lemma_decision_for_push(st.decisions, (id, decision), all2[i].id);
        if i < last {
            assert(all2[i] == all[i]);
            assert(decision_check(all[i], all, st.decisions, m.snapshot.state) is Ok);
            if i != k {
                lemma_find_unique(all, i);
            }
            match all[i].continued_from_quick_start {
                Some(source) => {
                    lemma_decision_for_push(st.decisions, (id, decision), source);
                    lemma_find_push(all, focus, source);
                    crate::validation::lemma_find_bounds(all, source);
                },
                None => {},
            }
        } else {
            lemma_decision_for_push(st.decisions, (id, decision), id);
        }
    }
    assert forall|j: int| 0 <= j < st2.decisions.len() implies (#[trigger] forward_check(
        st2.decisions[j].0,
        st2.decisions[j].1,
        all2,
    )) is Ok by {
        if j < st.decisions.len() {
            assert(st2.decisions[j] == st.decisions[j]);
            assert(forward_check(st.decisions[j].0, st.decisions[j].1, all) is Ok);
            match st.decisions[j].1 {
                QuickStartDecision::Continue { focus_session_id } => {
                    lemma_find_push(all, focus, focus_session_id);
                    crate::validation::lemma_find_bounds(all, focus_session_id);
                },
                _ => {},
            }
        }
    }
    assert(parts_hold(mf, st2));
}

/// A fresh unit with valid settings is consistent.
pub proof fn lemma_initial_consistent(settings: crate::config::TimerConfig)
    requires
        settings.is_valid(),
    ensures
        validation(DomainModel::initial(settings)) is Ok,
{
    let m = DomainModel::initial(settings);
    settings.lemma_validation_ok_iff_valid();
    lemma_validation_parts(m);
    let all = all_sessions(m);
    assert(all == Seq::<Session>::empty());
    assert(scan_events(all, m.events) == Ok::<ScanModel, DomainError>(initial_scan(all)));
    let st = initial_scan(all);
    assert(st.facts =~= Seq::<SessionFacts>::empty());
    assert(parts_hold(m, st));
}

/// Every command that a consistent unit accepts leaves it consistent: what
/// `DomainState::validate` accepts before the command, it accepts after.
pub proof fn lemma_apply_preserves_consistency(m: DomainModel, command: Command, at: Timestamp)
    requires
        validation(m) is Ok,
        m.apply(command, at) is Ok,
    ensures
        validation(m.apply(command, at)->Ok_0) is Ok,
{
    match command {
        Command::SetCurrentTask(_) => lemma_ready_commands(m, command, at),
        Command::Configure(_) => lemma_ready_commands(m, command, at),
        Command::ResetReady => lemma_ready_commands(m, command, at),
        Command::SkipReady => lemma_ready_commands(m, command, at),
        Command::Start(kind) => lemma_start(m, kind, at),
        Command::Pause(_) => {
            lemma_interrupt(m, crate::model::InterruptionKind::Pause, at, at, None);
        },
        Command::Distraction(_) => {
            lemma_interrupt(m, crate::model::InterruptionKind::Distraction, at, at, None);
        },
        Command::Resume(id) => lemma_resume(m, id, false, at),
        Command::Return(id) => lemma_resume(m, id, true, at),
        Command::End { outcome, .. } => lemma_end_command(m, outcome, at),
        Command::DecideQuickStart { session_id, choice } => lemma_decide(m, session_id, choice, at),
        Command::CloseApp => lemma_close_app(m, at),
        Command::RestoreApp => lemma_restore_app(m, at),
    }
}

/// Reading events keeps every open interruption's ID nonzero, and every event
/// read names a session, a nonzero interruption, and a recorded decision.
proof fn lemma_scan_ids(all: Seq<Session>, events: Seq<HistoryEvent>)
    requires
        forall|i: int| 0 <= i < all.len() ==> (#[trigger] all[i]).id.0 > 0,
        scan_events(all, events) is Ok,
    ensures
        ({
            let st = scan_events(all, events)->Ok_0;
            &&& forall|i: int|
                0 <= i < st.facts.len() && (#[trigger] st.facts[i]).open is Some ==> st.facts[i].open->0.id.0 > 0
            &&& forall|k: int|
                0 <= k < events.len() ==> {
                    &&& (#[trigger] events[k]).session_id.0 > 0
                    &&& match events[k].payload {
                        EventKind::InterruptionStarted { interruption_id, .. } => interruption_id.0 > 0,
                        EventKind::InterruptionEnded { interruption_id, .. } => interruption_id.0 > 0,
                        EventKind::QuickStartDecisionMade { decision } => exists|j: int|
                            0 <= j < st.decisions.len() && #[trigger] st.decisions[j] == (
                                events[k].session_id,
                                decision,
                            ),
                        _ => true,
                    }
                }
        }),
    decreases events.len(),
{
    lemma_scan_facts_len(all, events);
    if events.len() > 0 {
        let rest = events.drop_last();
        let event = events.last();
        lemma_scan_push(all, rest, event);
        assert(rest.push(event) =~= events);
        lemma_scan_ids(all, rest);
        lemma_scan_facts_len(all, rest);
        let st = scan_events(all, rest)->Ok_0;
        let next = scan_events(all, events)->Ok_0;
        let index = find_session(all, event.session_id);
        crate::validation::lemma_find_bounds(all, event.session_id);
        assert(next.decisions.len() >= st.decisions.len());
        assert(forall|j: int| 0 <= j < st.decisions.len() ==> next.decisions[j] == st.decisions[j]);
        assert forall|i: int|
            0 <= i < next.facts.len() && (#[trigger] next.facts[i]).open is Some implies next.facts[i].open->0.id.0 > 0 by {
            if i != index {
                assert(next.facts[i] == st.facts[i]);
            }
        }
        assert forall|k: int| 0 <= k < events.len() implies {
            &&& (#[trigger] events[k]).session_id.0 > 0
            &&& match events[k].payload {
                EventKind::InterruptionStarted { interruption_id, .. } => interruption_id.0 > 0,
                EventKind::InterruptionEnded { interruption_id, .. } => interruption_id.0 > 0,
                EventKind::QuickStartDecisionMade { decision } => exists|j: int|
                    0 <= j < next.decisions.len() && #[trigger] next.decisions[j] == (
                        events[k].session_id,
                        decision,
                    ),
                _ => true,
            }
        } by {
            if k < rest.len() {
                assert(events[k] == rest[k]);
                match events[k].payload {
                    EventKind::QuickStartDecisionMade { decision } => {
                        let j = choose|j: int|
                            0 <= j < st.decisions.len() && #[trigger] st.decisions[j] == (
                                rest[k].session_id,
                                decision,
                            );
                        assert(next.decisions[j] == st.decisions[j]);
                    },
                    _ => {},
                }
            } else {
                assert(events[k] == event);
                match event.payload {
                    EventKind::QuickStartDecisionMade { decision } => {
                        assert(next.decisions[st.decisions.len() as int] == (event.session_id, decision));
                    },
                    _ => {},
                }
            }
        }
    }
}

/// In a consistent unit every ID is nonzero, so a consistent unit can fail
/// to be written only on a time the document cannot represent.
pub proof fn lemma_consistent_ids_nonzero(m: DomainModel)
    requires
        validation(m) is Ok,
    ensures
        crate::schema::conversions::progress_ids_ok(m.snapshot.state),
        crate::schema::conversions::history_ids_ok(m.sessions, m.events),
{
    lemma_validation_parts(m);
    let all = all_sessions(m);
    let st = scan_events(all, m.events)->Ok_0;
    assert forall|i: int| 0 <= i < all.len() implies (#[trigger] all[i]).id.0 > 0 by {
        assert(session_with_allocator_check(all[i], m.ids.next_session_id) is Ok);
    }
    assert forall|i: int| 0 <= i < all.len() implies crate::schema::conversions::session_ids_ok(
        #[trigger] all[i],
    ) by {
        assert(all[i].id.0 > 0);
        assert(decision_check(all[i], all, st.decisions, m.snapshot.state) is Ok);
        match all[i].continued_from_quick_start {
            Some(source) => {
                crate::validation::lemma_find_bounds(all, source);
                let index = find_session(all, source);
                assert(all[index].id.0 > 0);
            },
            None => {},
        }
    }
    match m.snapshot.state {
        ProgressState::Active { session, .. } => {
            assert(all[m.sessions.len() as int] == session);
        },
        ProgressState::AwaitingQuickStartDecision { quick_start_session_id, .. } => {
            crate::validation::lemma_find_bounds(all, quick_start_session_id);
            let index = find_session(all, quick_start_session_id);
            assert(all[index].id.0 > 0);
        },
        _ => {},
    }
    assert forall|i: int| 0 <= i < m.sessions.len() implies crate::schema::conversions::session_ids_ok(
        #[trigger] m.sessions[i],
    ) by {
        assert(all[i] == m.sessions[i]);
    }
    lemma_scan_ids(all, m.events);
    assert forall|k: int| 0 <= k < m.events.len() implies crate::schema::conversions::event_ids_ok(
        #[trigger] m.events[k],
    ) by {
        match m.events[k].payload {
            EventKind::QuickStartDecisionMade { decision } => {
                let j = choose|j: int|
                    0 <= j < st.decisions.len() && #[trigger] st.decisions[j] == (
                        m.events[k].session_id,
                        decision,
                    );
                assert(forward_check(st.decisions[j].0, st.decisions[j].1, all) is Ok);
                match decision {
                    QuickStartDecision::Continue { focus_session_id } => {
                        crate::validation::lemma_find_bounds(all, focus_session_id);
                        let index = find_session(all, focus_session_id);
                        assert(all[index].id.0 > 0);
                    },
                    _ => {},
                }
            },
            _ => {},
        }
    }
}

/// Reading events numbers them from one, finds each one's session, and never
/// lowers the largest interruption ID, which bounds every interruption named.
proof fn lemma_scan_numbering(all: Seq<Session>, events: Seq<HistoryEvent>)
    requires
        scan_events(all, events) is Ok,
    ensures
        ({
            let st = scan_events(all, events)->Ok_0;
            &&& st.sequence == events.len() + 1
            &&& forall|k: int| 0 <= k < events.len() ==> (#[trigger] events[k]).sequence == k + 1
            &&& forall|k: int| 0 <= k < events.len() ==> find_session(all, (#[trigger] events[k]).session_id) >= 0
            &&& forall|k: int| 0 <= k < events.len() ==> match (#[trigger] events[k]).payload {
                EventKind::InterruptionStarted { interruption_id, .. } => interruption_id.0 <= st.max_interruption_id,
                EventKind::InterruptionEnded { interruption_id, .. } => interruption_id.0 <= st.max_interruption_id,
                _ => true,
            }
            &&& forall|i: int| 0 <= i < st.facts.len() && (#[trigger] st.facts[i]).open is Some ==> st.facts[i].open->0.id.0 <= st.max_interruption_id
        }),
    decreases events.len(),
{
    lemma_scan_facts_len(all, events);
    if events.len() > 0 {
        let rest = events.drop_last();
        let event = events.last();
        lemma_scan_push(all, rest, event);
        assert(rest.push(event) =~= events);
        lemma_scan_numbering(all, rest);
        lemma_scan_facts_len(all, rest);
        let st = scan_events(all, rest)->Ok_0;
        let next = scan_events(all, events)->Ok_0;
        let index = find_session(all, event.session_id);
        crate::validation::lemma_find_bounds(all, event.session_id);
        assert(next.max_interruption_id >= st.max_interruption_id);
        assert forall|i: int|
            0 <= i < next.facts.len() && (#[trigger] next.facts[i]).open is Some implies next.facts[i].open->0.id.0 <= next.max_interruption_id by {
            if i != index {
                assert(next.facts[i] == st.facts[i]);
            }
        }
        assert forall|k: int| 0 <= k < events.len() implies match (#[trigger] events[k]).payload {
            EventKind::InterruptionStarted { interruption_id, .. } => interruption_id.0 <= next.max_interruption_id,
            EventKind::InterruptionEnded { interruption_id, .. } => interruption_id.0 <= next.max_interruption_id,
            _ => true,
        } by {
            if k < rest.len() {
                assert(events[k] == rest[k]);
            }
        }
        assert forall|k: int| 0 <= k < events.len() implies (#[trigger] events[k]).sequence == k + 1
            && find_session(all, events[k].session_id) >= 0 by {
            if k < rest.len() {
                assert(events[k] == rest[k]);
            }
        }
    }
}

/// What a consistent unit guarantees: round progress within the settings;
/// nonzero allocators; events numbered from one with the event allocator next;
/// recorded sessions ended; every session ID distinct and below the session
/// allocator; every event naming one of the sessions; and every interruption
/// ID, in the events and in the snapshot, below the interruption allocator.
pub proof fn lemma_validation_facts(m: DomainModel)
    requires
        validation(m) is Ok,
    ensures
        m.snapshot.round_progress.completed_focuses_in_round
            <= m.snapshot.settings.spec_focuses_before_long_break(),
        m.ids.next_session_id > 0 && m.ids.next_interruption_id > 0 && m.ids.next_event_sequence > 0,
        forall|k: int| 0 <= k < m.events.len() ==> (#[trigger] m.events[k]).sequence == k + 1,
        m.ids.next_event_sequence == m.events.len() + 1,
        forall|i: int| 0 <= i < m.sessions.len() ==> (#[trigger] m.sessions[i]).end is Some,
        ids_unique(all_sessions(m)),
        forall|i: int|
            0 <= i < all_sessions(m).len() ==> (#[trigger] all_sessions(m)[i]).id.0 < m.ids.next_session_id,
        forall|k: int|
            0 <= k < m.events.len() ==> find_session(all_sessions(m), (#[trigger] m.events[k]).session_id) >= 0,
        forall|k: int| 0 <= k < m.events.len() ==> match (#[trigger] m.events[k]).payload {
            EventKind::InterruptionStarted { interruption_id, .. } => interruption_id.0
                < m.ids.next_interruption_id,
            EventKind::InterruptionEnded { interruption_id, .. } => interruption_id.0
                < m.ids.next_interruption_id,
            _ => true,
        },
        m.snapshot.state matches ProgressState::Active {
            timer: TimerState::Interrupted { interruption },
            ..
        } ==> interruption.id.0 < m.ids.next_interruption_id,
{
    lemma_validation_parts(m);
    let all = all_sessions(m);
    let st = scan_events(all, m.events)->Ok_0;
    lemma_recorded_facts(m.sessions);
    lemma_all_unique(m);
    lemma_scan_numbering(all, m.events);
    lemma_scan_facts_len(all, m.events);
    assert forall|i: int| 0 <= i < all.len() implies (#[trigger] all[i]).id.0 < m.ids.next_session_id by {
        assert(session_with_allocator_check(all[i], m.ids.next_session_id) is Ok);
    }
    match m.snapshot.state {
        ProgressState::Active { session, timer: TimerState::Interrupted { interruption } } => {
            let last = m.sessions.len() as int;
            assert(all[last] == session);
            assert(accounting_check(all[last], st.facts[last], m.snapshot.state) is Ok);
        },
        _ => {},
    }
}

} // verus!
