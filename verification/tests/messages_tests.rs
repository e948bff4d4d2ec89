use std::path::PathBuf;

use pomodoro::clock::TimeError;
use pomodoro::legacy::{Action, HistoryError, TimerError, TimerStatus};
use pomodoro::messages::decimal_text;
use pomodoro::notification::NotificationError;
use pomodoro::schema::codec::CodecError;
use pomodoro::storage::{
    codec_problem, LoadError, LoadProblem, SaveError, SaveStage, StorageError, StorageLockError,
};
use pomodoro::{ConfigError, DomainError};

#[test]
fn numbers_are_written_in_decimal() {
    assert_eq!(decimal_text(0), "0");
    assert_eq!(decimal_text(7), "7");
    assert_eq!(decimal_text(86_400), "86400");
    assert_eq!(decimal_text(u64::MAX), u64::MAX.to_string());
}

#[test]
fn settings_and_domain_errors_name_the_field_and_the_limit() {
    assert_eq!(
        ConfigError::ZeroDuration { field: "focus_seconds" }.message(),
        "focus_seconds must be greater than zero"
    );
    assert_eq!(
        ConfigError::DurationTooLong { field: "long_break_seconds", maximum_seconds: 86_400 }
            .message(),
        "long_break_seconds must be at most 86400 seconds"
    );
    assert_eq!(
        ConfigError::ZeroFocusesBeforeLongBreak.message(),
        "focuses_before_long_break must be greater than zero"
    );
    assert_eq!(
        DomainError::InvalidConfig(ConfigError::ZeroFocusesBeforeLongBreak).message(),
        "invalid settings: focuses_before_long_break must be greater than zero"
    );
    assert_eq!(
        DomainError::InvalidState("event sequence").message(),
        "invalid domain state: event sequence"
    );
    assert_eq!(DomainError::Overflow.message(), "domain counter overflow");
    assert_eq!(TimeError::OutOfRange.message(), "timestamp is outside the supported range");
}

#[test]
fn earlier_timer_and_history_errors_read_as_before() {
    assert_eq!(
        TimerError::InvalidTransition { action: Action::Pause, status: TimerStatus::Idle }.message(),
        "cannot Pause timer while it is Idle"
    );
    assert_eq!(
        TimerError::InvalidRemainingTime { found_ms: 0, maximum_ms: 1_500_000 }.message(),
        "remaining time 0 ms is outside 1..=1500000 ms"
    );
    assert_eq!(
        TimerError::InvalidCompletedFocusCount { found: 5, maximum: 4 }.message(),
        "completed focus count 5 exceeds configured maximum 4"
    );
    assert_eq!(
        HistoryError::UnsupportedSchemaVersion { found: 2, supported: 1 }.message(),
        "unsupported history schema version 2; expected 1"
    );
    assert_eq!(
        HistoryError::InvalidLocalDate("2024/01/01".to_owned()).message(),
        "local date must use YYYY-MM-DD format: 2024/01/01"
    );
    assert_eq!(
        StorageError::InvalidHistory(HistoryError::CounterOverflow).message(),
        "stored history is invalid: history counter overflowed"
    );
}

#[test]
fn document_and_storage_errors_carry_paths_and_causes() {
    assert_eq!(CodecError::UnsupportedVersion(2).message(), "unsupported schema version: 2");
    assert_eq!(
        CodecError::InvalidValue("session ID must be greater than zero").message(),
        "invalid V1 value: session ID must be greater than zero"
    );
    let path = PathBuf::from("/state/state.json");
    assert_eq!(
        LoadProblem::Missing { path: path.clone() }.message(),
        "saved state is missing: /state/state.json"
    );
    let error = LoadError::with_backup(
        LoadProblem::Unsupported { path: path.clone(), schema_version: Some(3) },
        LoadProblem::Unsupported { path: PathBuf::from("/state/state.json.bak"), schema_version: None },
    );
    assert_eq!(
        error.message(),
        "unsupported schema version 3: /state/state.json; backup: unversioned saved state is unsupported: /state/state.json.bak"
    );
    let uncertain = SaveError::CommitUncertain(Box::new(SaveError::Io {
        stage: SaveStage::SyncPrimaryDirectory,
        path: PathBuf::from("/state"),
        source: std::io::Error::other("disk"),
    }));
    assert_eq!(
        uncertain.message(),
        "save commit remains uncertain: save failed at SyncPrimaryDirectory (/state): disk"
    );
    assert_eq!(
        StorageLockError::InUse { path: PathBuf::from("/state/state.lock") }.message(),
        "storage is already in use: /state/state.lock"
    );
    let problem = codec_problem(path.clone(), &CodecError::InvalidValue("bad"));
    assert_eq!(problem.message(), "invalid saved state at /state/state.json: invalid V1 value: bad");
    assert!(matches!(
        codec_problem(path, &CodecError::MissingVersion),
        LoadProblem::Unsupported { schema_version: None, .. }
    ));
}

#[test]
fn notification_exit_codes_read_as_debug_output() {
    assert_eq!(
        NotificationError::UnsuccessfulExit(Some(-2_147_483_648)).message(),
        "desktop notification exited unsuccessfully: Some(-2147483648)"
    );
    assert_eq!(
        NotificationError::UnsuccessfulExit(None).message(),
        "desktop notification exited unsuccessfully: None"
    );
    assert_eq!(
        NotificationError::Backend("toast".to_owned()).message(),
        "desktop notification failed: toast"
    );
}

#[test]
fn a_json_error_is_quoted_by_its_own_text() {
    let error = serde_json::from_str::<serde_json::Value>("{").unwrap_err();
    let shown = error.to_string();
    assert!(!shown.is_empty());
    assert_eq!(CodecError::Json(error).message(), format!("invalid V1 JSON: {shown}"));
    let error = serde_json::from_str::<serde_json::Value>("[1,").unwrap_err();
    let shown = error.to_string();
    assert_eq!(StorageError::InvalidJson(error).message(), format!("stored JSON is invalid: {shown}"));
}
