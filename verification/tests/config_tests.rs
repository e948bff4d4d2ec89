use pomodoro::{ConfigError, SessionKind, TimerConfig};

#[test]
fn default_matches_the_agreed_pomodoro_durations() {
    let config = TimerConfig::default();

    assert_eq!(config.focus_seconds(), 25 * 60);
    assert_eq!(config.short_break_seconds(), 5 * 60);
    assert_eq!(config.long_break_seconds(), 15 * 60);
    assert_eq!(config.focuses_before_long_break(), 4);
    assert_eq!(config.validate(), Ok(()));
}

#[test]
fn rejects_zero_duration() {
    assert_eq!(
        TimerConfig::new(0, 300, 900, 4),
        Err(ConfigError::ZeroDuration {
            field: "focus_seconds"
        })
    );
}

#[test]
fn rejects_zero_focuses_before_long_break() {
    assert_eq!(
        TimerConfig::new(1_500, 300, 900, 0),
        Err(ConfigError::ZeroFocusesBeforeLongBreak)
    );
}

#[test]
fn rejects_a_duration_longer_than_a_day() {
    assert_eq!(
        TimerConfig::new(1_500, 86_401, 900, 4),
        Err(ConfigError::DurationTooLong {
            field: "short_break_seconds",
            maximum_seconds: 86_400
        })
    );
}

#[test]
fn quick_start_lasts_two_minutes_whatever_the_settings() {
    let config = TimerConfig::new(10, 5, 20, 4).unwrap();
    assert_eq!(config.duration_seconds(SessionKind::QuickStart), 120);
    assert_eq!(config.duration_millis(SessionKind::QuickStart), 120_000);
    assert_eq!(config.duration_millis(SessionKind::Focus), 10_000);
}
