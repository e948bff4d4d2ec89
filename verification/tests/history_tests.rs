use pomodoro::legacy::{DailySummary, History, HistoryError, SessionKind, TimerEvent};

fn focus_completed(duration_seconds: u64) -> TimerEvent {
    TimerEvent::SessionCompleted {
        session: SessionKind::Focus,
        duration_seconds,
        completed_at_ms: 1_000,
    }
}

#[test]
fn aggregates_completed_focus_sessions_by_day() {
    let mut history = History::new();

    assert_eq!(
        history.record_event("2026-07-21", &focus_completed(1_500)),
        Ok(true)
    );
    assert_eq!(
        history.record_event("2026-07-21", &focus_completed(600)),
        Ok(true)
    );

    assert_eq!(
        history.summary("2026-07-21"),
        Some(&DailySummary {
            completed_focus_sessions: 2,
            focused_seconds: 2_100,
        })
    );
}

#[test]
fn ignores_breaks_and_skipped_sessions() {
    let mut history = History::new();
    let break_event = TimerEvent::SessionCompleted {
        session: SessionKind::ShortBreak,
        duration_seconds: 300,
        completed_at_ms: 1_000,
    };
    let skipped_event = TimerEvent::SessionSkipped {
        session: SessionKind::Focus,
    };

    assert_eq!(history.record_event("2026-07-21", &break_event), Ok(false));
    assert_eq!(
        history.record_event("2026-07-21", &skipped_event),
        Ok(false)
    );
    assert!(history.days().is_empty());
}

#[test]
fn rejects_dates_with_the_wrong_shape() {
    let mut history = History::new();

    assert_eq!(
        history.record_focus("21/07/2026", 1_500),
        Err(HistoryError::InvalidLocalDate("21/07/2026".to_owned()))
    );
}

#[test]
fn overflow_does_not_partially_update_a_summary() {
    let mut history = History::from_parts(
        1,
        vec![(
            "2026-07-21".to_owned(),
            DailySummary {
                completed_focus_sessions: 7,
                focused_seconds: u64::MAX,
            },
        )],
    );

    assert_eq!(
        history.record_focus("2026-07-21", 1),
        Err(HistoryError::CounterOverflow)
    );
    assert_eq!(
        history.summary("2026-07-21"),
        Some(&DailySummary {
            completed_focus_sessions: 7,
            focused_seconds: u64::MAX,
        })
    );
}

#[test]
fn stored_days_are_ordered_with_a_later_entry_winning_and_the_least_bad_date_reported() {
    let day = |sessions: u32| DailySummary {
        completed_focus_sessions: sessions,
        focused_seconds: 60,
    };
    let history = History::from_parts(
        1,
        vec![
            ("2026-07-22".to_owned(), day(1)),
            ("bad-b".to_owned(), day(2)),
            ("2026-07-21".to_owned(), day(3)),
            ("2026-07-22".to_owned(), day(4)),
            ("bad-a".to_owned(), day(5)),
        ],
    );
    let dates: Vec<&str> = history.days().iter().map(|(date, _)| date.as_str()).collect();
    assert_eq!(dates, vec!["2026-07-21", "2026-07-22", "bad-a", "bad-b"]);
    assert_eq!(history.summary("2026-07-22"), Some(&day(4)));
    assert_eq!(
        history.validate(),
        Err(HistoryError::InvalidLocalDate("bad-a".to_owned()))
    );
    assert_eq!(history.clone().days(), history.days());
}
