use pomodoro::{
    Command, DomainState, Observation, ProgressState, QuickStartChoice, SessionId, SessionKind,
    SessionOutcome, TimerConfig, TimerState, Timestamp,
};

fn state() -> DomainState {
    DomainState::new(TimerConfig::new(10, 5, 20, 2).unwrap()).unwrap()
}

fn credited(state: &DomainState) -> u64 {
    let recorded: u64 = state.history().sessions.iter().map(|s| s.elapsed_ms).sum();
    match &state.snapshot().state {
        ProgressState::Active { session, .. } => recorded + session.elapsed_ms,
        _ => recorded,
    }
}

fn tick(from: u64, to: u64) -> Observation {
    Observation {
        previous_at: Timestamp(from),
        at: Timestamp(to),
        monotonic_elapsed_ms: Some(to - from),
    }
}

fn apply_keeping_credit(state: &mut DomainState, command: Command, at: u64) {
    let before = credited(state);
    state.apply(command, Timestamp(at)).unwrap();
    state.validate().unwrap();
    assert_eq!(credited(state), before);
}

fn active_id(state: &DomainState) -> Option<SessionId> {
    match &state.snapshot().state {
        ProgressState::Active { session, .. } => Some(session.id),
        _ => None,
    }
}

#[test]
fn every_accepted_step_keeps_the_unit_consistent_and_commands_credit_nothing() {
    let mut state = state();
    state.validate().unwrap();
    apply_keeping_credit(&mut state, Command::Start(SessionKind::Focus), 0);
    let id = active_id(&state).unwrap();
    state.observe(tick(0, 1_000)).unwrap();
    state.validate().unwrap();
    assert_eq!(credited(&state), 1_000);
    apply_keeping_credit(&mut state, Command::Pause(id), 1_000);
    apply_keeping_credit(&mut state, Command::Resume(id), 4_000);
    state.observe(tick(4_000, 5_000)).unwrap();
    state.validate().unwrap();
    assert_eq!(credited(&state), 2_000);
    apply_keeping_credit(&mut state, Command::Distraction(id), 5_000);
    apply_keeping_credit(&mut state, Command::CloseApp, 6_000);
    apply_keeping_credit(&mut state, Command::RestoreApp, 60_000);
    apply_keeping_credit(&mut state, Command::Return(id), 61_000);
    state.observe(tick(61_000, 62_000)).unwrap();
    state.validate().unwrap();
    apply_keeping_credit(&mut state, Command::CloseApp, 62_000);
    apply_keeping_credit(&mut state, Command::RestoreApp, 90_000);
    apply_keeping_credit(
        &mut state,
        Command::End { session_id: id, outcome: SessionOutcome::Cancelled },
        91_000,
    );
    assert_eq!(credited(&state), 3_000);
    apply_keeping_credit(&mut state, Command::Start(SessionKind::QuickStart), 100_000);
    let quick = active_id(&state).unwrap();
    let mut at = 100_000;
    while active_id(&state).is_some() {
        state.observe(tick(at, at + 1_000)).unwrap();
        state.validate().unwrap();
        at += 1_000;
    }
    assert_eq!(credited(&state), 3_000 + 120_000);
    apply_keeping_credit(&mut state, Command::CloseApp, at);
    apply_keeping_credit(&mut state, Command::RestoreApp, at + 5_000);
    apply_keeping_credit(
        &mut state,
        Command::DecideQuickStart { session_id: quick, choice: QuickStartChoice::Continue },
        at + 6_000,
    );
    assert_ne!(active_id(&state), Some(quick));
    assert!(active_id(&state).is_some());
}

#[test]
fn a_gap_credits_nothing_and_a_tick_no_more_than_its_monotonic_time() {
    let mut state = state();
    state.apply(Command::Start(SessionKind::Focus), Timestamp(0)).unwrap();
    state
        .observe(Observation {
            previous_at: Timestamp(0),
            at: Timestamp(30_000),
            monotonic_elapsed_ms: Some(30_000),
        })
        .unwrap();
    state.validate().unwrap();
    assert_eq!(credited(&state), 0);
    let ProgressState::Active { timer: TimerState::Interrupted { .. }, .. } = &state.snapshot().state
    else {
        panic!("expected the gap to interrupt the session")
    };
    let mut state = self::state();
    state.apply(Command::Start(SessionKind::Focus), Timestamp(0)).unwrap();
    state
        .observe(Observation {
            previous_at: Timestamp(0),
            at: Timestamp(1_200),
            monotonic_elapsed_ms: Some(900),
        })
        .unwrap();
    state.validate().unwrap();
    assert_eq!(credited(&state), 900);
}

#[test]
fn a_completed_session_waits_for_a_manual_start() {
    let mut state = state();
    state.apply(Command::Start(SessionKind::Focus), Timestamp(0)).unwrap();
    let mut at = 0;
    while active_id(&state).is_some() {
        state.observe(tick(at, at + 1_000)).unwrap();
        at += 1_000;
    }
    assert_eq!(at, 10_000);
    assert!(matches!(
        state.snapshot().state,
        ProgressState::Ready { next_kind: SessionKind::ShortBreak, .. }
    ));
    state.observe(tick(at, at + 1_000)).unwrap();
    assert_eq!(active_id(&state), None);
    state.validate().unwrap();
}

#[test]
fn an_accepted_task_is_trimmed_single_line_and_normalizes_to_itself() {
    let task = pomodoro::CurrentTask::parse("  write the report \t").unwrap().unwrap();
    assert_eq!(task.as_str(), "write the report");
    let again = pomodoro::CurrentTask::parse(task.as_str()).unwrap().unwrap();
    assert_eq!(again.as_str(), task.as_str());
}

#[test]
fn a_consistent_unit_numbers_its_events_from_one() {
    let mut state = state();
    state.apply(Command::Start(SessionKind::Focus), Timestamp(0)).unwrap();
    let id = active_id(&state).unwrap();
    state.apply(Command::Pause(id), Timestamp(0)).unwrap();
    state.apply(Command::Resume(id), Timestamp(10)).unwrap();
    state.apply(Command::CloseApp, Timestamp(10)).unwrap();
    state.validate().unwrap();
    let events = &state.history().events;
    for (k, event) in events.iter().enumerate() {
        assert_eq!(event.sequence, k as u64 + 1);
    }
    assert_eq!(state.id_allocators().next_event_sequence, events.len() as u64 + 1);
}

#[test]
fn a_unit_with_invalid_settings_refuses_every_command_unchanged() {
    let mut state = state();
    state.snapshot.settings = TimerConfig::from_stored_values(0, 5, 20, 2);
    let before = state.clone();
    assert!(matches!(
        state.apply(Command::Start(SessionKind::Focus), Timestamp(0)),
        Err(pomodoro::DomainError::InvalidConfig(_))
    ));
    assert_eq!(state, before);
}
