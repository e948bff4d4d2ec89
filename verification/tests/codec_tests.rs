use pomodoro::schema::codec::{
    check_version, starts_with_object, CodecError, PersistedStateV1, GENERATION_ERROR,
};
use pomodoro::schema::dto::{
    Envelope, EventKindV1, ProgressV1, QuickStartDecisionV1, SessionEndV1, SessionV1, TimerV1,
};
use pomodoro::schema::values::{InterruptionIdV1, SessionIdV1, TimestampV1, TIMESTAMP_RANGE_ERROR};
use pomodoro::{
    Command, CurrentTask, DomainError, DomainState, InterruptionId, MeasuredDuration, Observation,
    ProgressState, QuickStartChoice, SessionId, SessionKind, SessionOutcome, TimerConfig, Timestamp,
};

fn candidate(domain: DomainState) -> PersistedStateV1 {
    PersistedStateV1 {
        save_generation: 7,
        saved_at: Timestamp(500_000),
        domain,
    }
}

fn ready(kind: SessionKind) -> DomainState {
    let state = DomainState::new(TimerConfig::new(2, 1, 3, 2).unwrap()).unwrap();
    let mut snapshot = state.snapshot().clone();
    snapshot.state = ProgressState::Ready {
        next_kind: kind,
        current_task_draft: if kind.is_work() {
            CurrentTask::parse("仕様を読む").unwrap()
        } else {
            None
        },
    };
    // Progress is authoritative, not reconstructed from a count of sessions.
    snapshot.round_progress.completed_focuses_in_round = 1;
    DomainState::from_parts(
        snapshot,
        state.history().clone(),
        state.id_allocators().clone(),
    )
    .unwrap()
}

fn apply(state: &mut DomainState, command: Command, at: u64) {
    state.apply(command, Timestamp(at)).unwrap();
    state.validate().unwrap();
}

fn advance(state: &mut DomainState, from: u64, duration: u64) {
    let mut at = from;
    while at < from + duration {
        let next = (at + 1_000).min(from + duration);
        state
            .observe(Observation {
                previous_at: Timestamp(at),
                at: Timestamp(next),
                monotonic_elapsed_ms: Some(next - at),
            })
            .unwrap();
        at = next;
    }
}

/// Valid transition products, covering all snapshot and payload variants.
fn corpus() -> Vec<DomainState> {
    let mut cases = vec![DomainState::new(TimerConfig::default()).unwrap()];
    for kind in [
        SessionKind::Focus,
        SessionKind::QuickStart,
        SessionKind::ShortBreak,
        SessionKind::LongBreak,
    ] {
        let mut state = ready(kind);
        cases.push(state.clone());
        apply(&mut state, Command::Start(kind), 0);
        advance(&mut state, 0, 500);
        cases.push(state.clone()); // includes an unclosed, partially credited run
        for outcome in [
            SessionOutcome::Cancelled,
            SessionOutcome::Reset,
            SessionOutcome::Skipped,
        ] {
            let mut ended = state.clone();
            apply(
                &mut ended,
                Command::End {
                    session_id: SessionId(1),
                    outcome,
                },
                500,
            );
            cases.push(ended);
            let mut interrupted = state.clone();
            apply(&mut interrupted, Command::Pause(SessionId(1)), 500);
            cases.push(interrupted.clone());
            apply(
                &mut interrupted,
                Command::End {
                    session_id: SessionId(1),
                    outcome,
                },
                600,
            );
            cases.push(interrupted);
        }
        let mut lifecycle = state.clone();
        apply(&mut lifecycle, Command::CloseApp, 500);
        cases.push(lifecycle.clone());
        apply(&mut lifecycle, Command::RestoreApp, 1_000);
        cases.push(lifecycle.clone());
        apply(&mut lifecycle, Command::Resume(SessionId(1)), 1_000);
        cases.push(lifecycle);

        let mut restart = state.clone();
        apply(&mut restart, Command::RestoreApp, 5_000);
        cases.push(restart);

        if kind.is_work() {
            let mut distracted = state.clone();
            apply(&mut distracted, Command::Distraction(SessionId(1)), 500);
            cases.push(distracted.clone());
            apply(&mut distracted, Command::CloseApp, 500);
            apply(&mut distracted, Command::RestoreApp, 10_000);
            apply(&mut distracted, Command::Return(SessionId(1)), 11_000);
            cases.push(distracted);
        }
        let ProgressState::Active { session, .. } = &state.snapshot().state else {
            panic!("expected active session");
        };
        let duration = session.planned_duration_ms;
        advance(&mut state, 500, duration - 500);
        cases.push(state.clone());
        if kind == SessionKind::QuickStart {
            apply(&mut state, Command::CloseApp, duration);
            apply(&mut state, Command::RestoreApp, duration + 1_000);
            cases.push(state.clone());
            for choice in [QuickStartChoice::Finish, QuickStartChoice::Continue] {
                let mut decided = state.clone();
                apply(
                    &mut decided,
                    Command::DecideQuickStart {
                        session_id: SessionId(1),
                        choice,
                    },
                    duration + 1_000,
                );
                cases.push(decided);
            }
        }
    }
    cases.extend(gap_cases());
    cases
}

fn gap_cases() -> Vec<DomainState> {
    let mut cases = vec![];
    // Clock rollback, forward discontinuity, missing evidence, and ordinary gap.
    for (at, elapsed) in [
        (400, Some(100)),
        (3_000, Some(100)),
        (600, None),
        (8_000, Some(7_500)),
    ] {
        let mut state = ready(SessionKind::Focus);
        apply(&mut state, Command::Start(SessionKind::Focus), 0);
        advance(&mut state, 0, 500);
        state
            .observe(Observation {
                previous_at: Timestamp(500),
                at: Timestamp(at),
                monotonic_elapsed_ms: elapsed,
            })
            .unwrap();
        cases.push(state.clone());
        apply(&mut state, Command::Resume(SessionId(1)), at + 100);
        cases.push(state);
    }
    cases
}


/// Reads back what was written, without JSON text in between.
fn reread(state: &PersistedStateV1) -> PersistedStateV1 {
    PersistedStateV1::from_envelope(state.to_envelope().unwrap()).unwrap()
}

#[test]
fn round_trips_all_snapshots_sessions_interruptions_and_events_without_replay() {
    for domain in corpus() {
        let original = candidate(domain);
        let loaded = reread(&original);
        assert_eq!(loaded, original);
        assert_eq!(reread(&loaded), original);
    }
}

#[test]
fn written_envelopes_carry_version_generation_and_time() {
    let original = candidate(DomainState::new(TimerConfig::default()).unwrap());
    let envelope = original.to_envelope().unwrap();
    assert_eq!(envelope.schema_version, 1);
    assert_eq!(envelope.save_generation, 7);
    assert_eq!(envelope.saved_at.value(), Timestamp(500_000));
    assert_eq!(envelope.history.sessions.len(), 0);
}

#[test]
fn generation_zero_is_rejected_on_write_and_read() {
    let mut state = candidate(DomainState::new(TimerConfig::default()).unwrap());
    let envelope = state.to_envelope().unwrap();
    state.save_generation = 0;
    assert!(matches!(
        state.to_envelope(),
        Err(CodecError::InvalidValue(message)) if message == GENERATION_ERROR
    ));
    let mut envelope = envelope;
    envelope.save_generation = 0;
    assert!(matches!(
        PersistedStateV1::from_envelope(envelope),
        Err(CodecError::InvalidValue(message)) if message == GENERATION_ERROR
    ));
}

#[test]
fn unrepresentable_times_and_inconsistent_units_are_not_written() {
    let mut state = candidate(DomainState::new(TimerConfig::default()).unwrap());
    state.saved_at = Timestamp(253_402_300_800_000);
    assert!(matches!(
        state.to_envelope(),
        Err(CodecError::InvalidValue(message)) if message == TIMESTAMP_RANGE_ERROR
    ));
    let mut state = candidate(DomainState::new(TimerConfig::default()).unwrap());
    state.domain.ids.next_session_id = 0;
    assert!(matches!(
        state.to_envelope(),
        Err(CodecError::InvalidDomain(DomainError::InvalidState("zero allocator")))
    ));
    let mut running = ready(SessionKind::Focus);
    apply(&mut running, Command::Start(SessionKind::Focus), 253_402_300_800_000);
    let state = candidate(running);
    assert!(matches!(
        state.to_envelope(),
        Err(CodecError::InvalidValue(message)) if message == TIMESTAMP_RANGE_ERROR
    ));
}

#[test]
fn versions_and_document_shapes_are_classified() {
    assert!(matches!(check_version(None), Err(CodecError::MissingVersion)));
    assert!(check_version(Some(1)).is_ok());
    assert!(matches!(check_version(Some(2)), Err(CodecError::UnsupportedVersion(2))));
    assert!(matches!(check_version(Some(0)), Err(CodecError::UnsupportedVersion(0))));
    assert!(starts_with_object(b"{}"));
    assert!(starts_with_object(b" \n\r\t{\"schema_version\":1}"));
    assert!(!starts_with_object(b"[]"));
    assert!(!starts_with_object(b"  1"));
    assert!(!starts_with_object(b""));
    assert!(!starts_with_object(b"   "));
}

fn envelope(state: &DomainState) -> Envelope {
    candidate(state.clone()).to_envelope().unwrap()
}

fn rejects_change(state: &DomainState, change: impl FnOnce(&mut Envelope)) {
    let mut changed = envelope(state);
    change(&mut changed);
    assert!(PersistedStateV1::from_envelope(changed).is_err());
}

fn time_v1(ms: u64) -> TimestampV1 {
    TimestampV1::new(Timestamp(ms)).unwrap()
}

fn active_v1(env: &mut Envelope) -> (&mut SessionV1, &mut TimerV1) {
    match &mut env.snapshot.state {
        ProgressV1::Active { session, timer } => (session, timer),
        _ => panic!("expected an active session"),
    }
}

fn interruption_v1(env: &mut Envelope) -> &mut pomodoro::schema::dto::InterruptionV1 {
    match active_v1(env).1 {
        TimerV1::Interrupted { interruption } => interruption,
        _ => panic!("expected an interruption"),
    }
}

#[test]
fn validates_references_allocation_accounting_and_active_settings_after_decode() {
    let mut state = ready(SessionKind::Focus);
    apply(&mut state, Command::Start(SessionKind::Focus), 0);
    advance(&mut state, 0, 500);
    apply(&mut state, Command::Pause(SessionId(1)), 500);
    let ended = || Some(SessionEndV1 { ended_at: time_v1(500), outcome: SessionOutcome::Cancelled });
    rejects_change(&state, |env| active_v1(env).0.planned_duration_ms = 3_000);
    rejects_change(&state, |env| active_v1(env).0.elapsed_ms = 501);
    rejects_change(&state, |env| active_v1(env).0.end = ended());
    rejects_change(&state, |env| {
        interruption_v1(env).id = InterruptionIdV1::new(InterruptionId(2)).unwrap()
    });
    rejects_change(&state, |env| interruption_v1(env).started_at = time_v1(499));
    rejects_change(&state, |env| env.id_allocators.next_session_id = 1);
    rejects_change(&state, |env| env.id_allocators.next_interruption_id = 1);
    rejects_change(&state, |env| env.id_allocators.next_event_sequence = 10);
    rejects_change(&state, |env| {
        env.history.events[0].session_id = SessionIdV1::new(SessionId(99)).unwrap()
    });
    rejects_change(&state, |env| env.history.events[0].sequence = 2);
    rejects_change(&state, |env| match &mut env.history.events[0].payload {
        EventKindV1::RunIntervalRecorded { credited_ms, .. } => *credited_ms = 501,
        _ => panic!("expected the closed run"),
    });
    rejects_change(&state, |env| env.snapshot.round_progress.completed_focuses_in_round = 3);

    let mut duplicate = envelope(&state);
    let mut source = envelope(&state);
    let ProgressV1::Active { session, .. } = std::mem::replace(
        &mut source.snapshot.state,
        ProgressV1::Ready { next_kind: SessionKind::Focus, current_task_draft: None },
    ) else {
        panic!("expected an active session")
    };
    let mut recorded = session;
    recorded.end = ended();
    duplicate.history.sessions = vec![recorded];
    assert!(matches!(
        PersistedStateV1::from_envelope(duplicate),
        Err(CodecError::InvalidDomain(_))
    ));

    apply(
        &mut state,
        Command::End { session_id: SessionId(1), outcome: SessionOutcome::Cancelled },
        600,
    );
    apply(&mut state, Command::Configure(TimerConfig::new(5, 4, 6, 2).unwrap()), 600);
    // Old settings remain valid for ended sessions.
    assert_eq!(PersistedStateV1::from_envelope(envelope(&state)).unwrap().domain, state);
}

#[test]
fn validates_quick_start_links_task_and_decision_consistency() {
    let mut state = ready(SessionKind::QuickStart);
    apply(&mut state, Command::Start(SessionKind::QuickStart), 0);
    advance(&mut state, 0, 120_000);
    rejects_change(&state, |env| match &mut env.snapshot.state {
        ProgressV1::AwaitingQuickStartDecision { quick_start_session_id, .. } => {
            *quick_start_session_id = SessionIdV1::new(SessionId(2)).unwrap()
        }
        _ => panic!("expected a pending decision"),
    });
    rejects_change(&state, |env| match &mut env.snapshot.state {
        ProgressV1::AwaitingQuickStartDecision { current_task, .. } => {
            *current_task = CurrentTask::parse("different").unwrap()
        }
        _ => panic!("expected a pending decision"),
    });
    apply(
        &mut state,
        Command::DecideQuickStart { session_id: SessionId(1), choice: QuickStartChoice::Continue },
        120_000,
    );
    rejects_change(&state, |env| active_v1(env).0.continued_from_quick_start = None);
    rejects_change(&state, |env| active_v1(env).0.current_task = None);
    rejects_change(&state, |env| match &mut env.history.events[1].payload {
        EventKindV1::QuickStartDecisionMade { decision } => {
            *decision = QuickStartDecisionV1::Continue {
                focus_session_id: SessionIdV1::new(SessionId(3)).unwrap(),
            }
        }
        _ => panic!("expected the decision"),
    });
    rejects_change(&state, |env| env.history.sessions[0].planned_duration_ms = 119_000);
}

#[test]
fn preserves_clock_evidence_and_rejects_forged_known_recovery() {
    let mut state = ready(SessionKind::Focus);
    apply(&mut state, Command::Start(SessionKind::Focus), 1_000);
    apply(&mut state, Command::Distraction(SessionId(1)), 1_000);
    apply(&mut state, Command::CloseApp, 2_000);
    apply(&mut state, Command::RestoreApp, 1_500);
    let mut open = envelope(&state);
    interruption_v1(&mut open).time_uncertainty = None;
    assert!(matches!(
        PersistedStateV1::from_envelope(open),
        Err(CodecError::InvalidDomain(_))
    ));
    apply(&mut state, Command::Return(SessionId(1)), 3_000);
    let mut closed = envelope(&state);
    match &mut closed.history.events.last_mut().unwrap().payload {
        EventKindV1::InterruptionEnded { end, .. } => {
            end.duration = MeasuredDuration::Known { elapsed_ms: 2_000 }
        }
        _ => panic!("expected the interruption end"),
    }
    assert!(matches!(
        PersistedStateV1::from_envelope(closed),
        Err(CodecError::InvalidDomain(_))
    ));
}

#[test]
fn validates_metadata_and_rejects_unrepresentable_domain_times_on_write() {
    let mut value = candidate(ready(SessionKind::Focus));
    value.save_generation = 0;
    assert!(matches!(value.to_envelope(), Err(CodecError::InvalidValue(_))));
    value.save_generation = u64::MAX;
    let reread = PersistedStateV1::from_envelope(value.to_envelope().unwrap()).unwrap();
    assert_eq!(reread.save_generation, value.save_generation);
    assert_eq!(reread.saved_at, value.saved_at);
    assert_eq!(reread.domain, value.domain);
    // saved_at is metadata, not an ordering constraint against session times.
    value.saved_at = Timestamp(0);
    assert!(value.to_envelope().is_ok());
    value.saved_at = Timestamp(u64::MAX);
    assert!(matches!(value.to_envelope(), Err(CodecError::InvalidValue(_))));
    let mut domain = ready(SessionKind::Focus);
    apply(&mut domain, Command::Start(SessionKind::Focus), u64::MAX - 1);
    assert!(candidate(domain.clone()).to_envelope().is_err());
    apply(&mut domain, Command::Pause(SessionId(1)), u64::MAX - 1);
    assert!(candidate(domain.clone()).to_envelope().is_err());
    apply(
        &mut domain,
        Command::End { session_id: SessionId(1), outcome: SessionOutcome::Reset },
        u64::MAX,
    );
    assert!(candidate(domain).to_envelope().is_err());

    let state = ready(SessionKind::Focus);
    rejects_change(&state, |env| env.save_generation = 0);
    rejects_change(&state, |env| env.id_allocators.next_session_id = 0);
}
