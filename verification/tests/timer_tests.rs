use pomodoro::legacy::{Action, PomodoroTimer, SessionKind, TimerError, TimerEvent, TimerStatus};
use pomodoro::TimerConfig;

fn short_config() -> TimerConfig {
    TimerConfig::new(10, 5, 20, 4).unwrap()
}

#[test]
fn starts_pauses_resumes_and_completes_without_sleeping() {
    let mut timer = PomodoroTimer::new(short_config()).unwrap();

    assert_eq!(timer.status(), TimerStatus::Idle);
    assert_eq!(timer.remaining_seconds(1_000), 10);

    timer.start(1_000).unwrap();
    assert_eq!(timer.remaining_seconds(4_000), 7);

    timer.pause(4_000).unwrap();
    assert_eq!(timer.status(), TimerStatus::Paused);
    assert_eq!(timer.remaining_seconds(100_000), 7);

    timer.resume(10_000).unwrap();
    assert_eq!(timer.tick(16_999), None);
    assert_eq!(
        timer.tick(17_000),
        Some(TimerEvent::SessionCompleted {
            session: SessionKind::Focus,
            duration_seconds: 10,
            completed_at_ms: 17_000,
        })
    );
    assert_eq!(timer.session(), SessionKind::ShortBreak);
    assert_eq!(timer.status(), TimerStatus::Idle);
    assert_eq!(timer.remaining_seconds(17_000), 5);
    assert_eq!(timer.completed_focuses_in_round(), 1);
}

#[test]
fn reset_restores_the_full_current_session() {
    let mut timer = PomodoroTimer::new(short_config()).unwrap();
    timer.start(0).unwrap();
    timer.pause(3_000).unwrap();

    timer.reset();

    assert_eq!(timer.status(), TimerStatus::Idle);
    assert_eq!(timer.remaining_seconds(100_000), 10);
}

#[test]
fn skipped_focus_is_not_counted() {
    let mut timer = PomodoroTimer::new(short_config()).unwrap();

    assert_eq!(
        timer.skip(),
        TimerEvent::SessionSkipped {
            session: SessionKind::Focus
        }
    );
    assert_eq!(timer.completed_focuses_in_round(), 0);
    assert_eq!(timer.session(), SessionKind::ShortBreak);
}

#[test]
fn fourth_completed_focus_is_followed_by_a_long_break() {
    let config = TimerConfig::new(1, 1, 1, 4).unwrap();
    let mut timer = PomodoroTimer::new(config).unwrap();
    let mut now = 0;

    for completed in 1..=4 {
        timer.start(now).unwrap();
        now += 1_000;
        assert!(matches!(
            timer.tick(now),
            Some(TimerEvent::SessionCompleted {
                session: SessionKind::Focus,
                ..
            })
        ));

        if completed < 4 {
            assert_eq!(timer.session(), SessionKind::ShortBreak);
            timer.skip();
            assert_eq!(timer.session(), SessionKind::Focus);
        }
    }

    assert_eq!(timer.session(), SessionKind::LongBreak);
    assert_eq!(timer.completed_focuses_in_round(), 4);

    timer.skip();
    assert_eq!(timer.session(), SessionKind::Focus);
    assert_eq!(timer.completed_focuses_in_round(), 0);
}

#[test]
fn a_large_time_jump_completes_only_the_running_session() {
    let mut timer = PomodoroTimer::new(short_config()).unwrap();
    timer.start(1_000).unwrap();

    assert!(timer.tick(10_000_000).is_some());
    assert_eq!(timer.tick(10_000_000), None);
    assert_eq!(timer.session(), SessionKind::ShortBreak);
    assert_eq!(timer.status(), TimerStatus::Idle);
}

#[test]
fn rejects_invalid_transitions() {
    let mut timer = PomodoroTimer::new(short_config()).unwrap();

    assert_eq!(
        timer.pause(0),
        Err(TimerError::InvalidTransition {
            action: Action::Pause,
            status: TimerStatus::Idle,
        })
    );
    timer.start(0).unwrap();
    assert_eq!(
        timer.start(0),
        Err(TimerError::InvalidTransition {
            action: Action::Start,
            status: TimerStatus::Running,
        })
    );
}

#[test]
fn reports_timestamp_overflow_without_mutating_state() {
    let mut timer = PomodoroTimer::new(short_config()).unwrap();
    let original = timer.clone();

    assert_eq!(timer.start(u64::MAX), Err(TimerError::TimestampOverflow));
    assert_eq!(timer, original);
}
