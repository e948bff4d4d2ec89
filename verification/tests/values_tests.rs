use pomodoro::schema::values::{
    gap_reason_from_text, gap_reason_text, interruption_kind_from_text, interruption_kind_text,
    session_kind_from_text, session_kind_text, session_outcome_from_text, session_outcome_text,
    task_from_text, time_uncertainty_from_text, time_uncertainty_text, InterruptionIdV1,
    SessionIdV1, SettingsV1, TimestampV1,
};
use pomodoro::{
    CurrentTask, GapReason, InterruptionId, InterruptionKind, SessionId, SessionKind,
    SessionOutcome, TimeUncertainty, TimerConfig, Timestamp,
};

/// Reads a timestamp as the document does: a JSON string, then its canonical text.
fn timestamp_from_json(json: &str) -> Option<TimestampV1> {
    let text: String = serde_json::from_str(json).ok()?;
    TimestampV1::from_text(&text).ok()
}

fn session_id_from_json(json: &str) -> Option<SessionIdV1> {
    let value: u64 = serde_json::from_str(json).ok()?;
    SessionIdV1::new(SessionId(value)).ok()
}

fn interruption_id_from_json(json: &str) -> Option<InterruptionIdV1> {
    let value: u64 = serde_json::from_str(json).ok()?;
    InterruptionIdV1::new(InterruptionId(value)).ok()
}

fn task_from_json(json: &str) -> Option<CurrentTask> {
    let text: String = serde_json::from_str(json).ok()?;
    task_from_text(&text).ok()
}

#[test]
fn timestamps_round_trip_at_millisecond_and_calendar_boundaries() {
    for (millis, text) in [
        (0, "1970-01-01T00:00:00.000Z"),
        (1, "1970-01-01T00:00:00.001Z"),
        (999, "1970-01-01T00:00:00.999Z"),
        (1_000, "1970-01-01T00:00:01.000Z"),
        (86_400_000, "1970-01-02T00:00:00.000Z"),
        (951_782_400_123, "2000-02-29T00:00:00.123Z"),
        (253_402_300_799_999, "9999-12-31T23:59:59.999Z"),
    ] {
        let wire = TimestampV1::new(Timestamp(millis)).unwrap();
        let json = serde_json::to_string(text).unwrap();
        assert_eq!(serde_json::to_string(&wire.to_text()).unwrap(), json);
        assert_eq!(timestamp_from_json(&json), Some(wire));
        assert_eq!(wire.value(), Timestamp(millis));
    }
}

#[test]
fn timestamps_reject_noncanonical_precision_calendar_and_offsets() {
    for text in [
        "1969-12-31T23:59:59.999Z",
        "10000-01-01T00:00:00.000Z",
        "+10000-01-01T00:00:00.000Z",
        "1970-01-01T00:00:00Z",
        "1970-01-01T00:00:00.0Z",
        "1970-01-01T00:00:00.00Z",
        "1970-01-01T00:00:00.0000Z",
        "1970-01-01T00:00:00.0001Z",
        "1970-01-01T00:00:00.123456789Z",
        "1970-01-01T00:00:00.000+00:00",
        "1970-01-01T00:00:00.000-00:00",
        "1970-01-01T09:00:00.000+09:00",
        "1970-01-01t00:00:00.000Z",
        "1970-01-01T00:00:00.000z",
        "1970-01-01 00:00:00.000Z",
        "1970-01-01T00:00:00,000Z",
        "2016-12-31T23:59:60.000Z",
        "2016-12-31T23:59:60.999Z",
        "2026-02-29T00:00:00.000Z",
        "2100-02-29T00:00:00.000Z",
        "2024-02-30T00:00:00.000Z",
        "2024-13-01T00:00:00.000Z",
        "2024-01-01T24:00:00.000Z",
        "1970-01-01T00:00:00.000Z ",
        " 1970-01-01T00:00:00.000Z",
        "",
    ] {
        assert!(
            timestamp_from_json(&serde_json::to_string(text).unwrap()).is_none(),
            "accepted {text}"
        );
    }
    for json in ["0", "1.0", "null", "true", "[]", "{}"] {
        assert!(timestamp_from_json(json).is_none(), "accepted {json}");
    }
}

#[test]
fn timestamps_reject_unrepresentable_domain_values_on_write() {
    for millis in [253_402_300_800_000, u64::MAX] {
        assert!(TimestampV1::new(Timestamp(millis)).is_err());
    }
}

#[test]
fn ids_preserve_full_u64_precision_and_domain_types() {
    for id in [1, 9_007_199_254_740_993, u64::MAX] {
        let session = SessionIdV1::new(SessionId(id)).unwrap();
        let interruption = InterruptionIdV1::new(InterruptionId(id)).unwrap();
        assert_eq!(session_id_from_json(&id.to_string()), Some(session));
        assert_eq!(interruption_id_from_json(&id.to_string()), Some(interruption));
        assert_eq!(session.value(), SessionId(id));
        assert_eq!(interruption.value(), InterruptionId(id));
    }
    assert!(SessionIdV1::new(SessionId(0)).is_err());
    assert!(InterruptionIdV1::new(InterruptionId(0)).is_err());
}

#[test]
fn ids_reject_zero_overflow_and_noninteger_json() {
    let invalid = [
        "0",
        "-0",
        "-1",
        "1.0",
        "1e0",
        "18446744073709551616",
        "\"1\"",
        "true",
        "null",
        "[]",
        "{}",
    ];
    for json in invalid {
        assert!(session_id_from_json(json).is_none(), "accepted {json}");
        assert!(interruption_id_from_json(json).is_none(), "accepted {json}");
    }
}

const DEFAULT_SETTINGS: &str = r#"{"focus_seconds":1500,"short_break_seconds":300,"long_break_seconds":900,"focuses_before_long_break":4}"#;

/// Reads the four settings fields from an object, then builds the settings.
fn settings_from_json(json: &str) -> Option<SettingsV1> {
    let value: serde_json::Value = serde_json::from_str(json).ok()?;
    let object = value.as_object()?;
    let focus = object.get("focus_seconds")?.as_u64()?;
    let short_break = object.get("short_break_seconds")?.as_u64()?;
    let long_break = object.get("long_break_seconds")?.as_u64()?;
    let focuses = u32::try_from(object.get("focuses_before_long_break")?.as_u64()?).ok()?;
    SettingsV1::from_fields(focus, short_break, long_break, focuses).ok()
}

#[test]
fn settings_round_trip_defaults_and_valid_extremes() {
    let settings = SettingsV1::new(TimerConfig::default()).unwrap();
    assert_eq!(settings_from_json(DEFAULT_SETTINGS), Some(settings));
    for config in [
        TimerConfig::new(1, 1, 1, 1).unwrap(),
        TimerConfig::new(86_400, 86_400, 86_400, u32::MAX).unwrap(),
    ] {
        let wire = SettingsV1::new(config).unwrap();
        assert_eq!(wire.value(), config);
    }
}

#[test]
fn settings_validate_ranges_on_read_and_domain_conversion() {
    for field in ["focus_seconds", "short_break_seconds", "long_break_seconds"] {
        for invalid in [0, 86_401, u64::MAX] {
            let json = DEFAULT_SETTINGS.replacen(
                &format!("\"{field}\":{}", match field {
                    "focus_seconds" => 1500,
                    "short_break_seconds" => 300,
                    _ => 900,
                }),
                &format!("\"{field}\":{invalid}"),
                1,
            );
            assert!(settings_from_json(&json).is_none(), "accepted {json}");
        }
    }
    for invalid in [0, u64::from(u32::MAX) + 1] {
        let json = DEFAULT_SETTINGS.replace(
            "\"focuses_before_long_break\":4",
            &format!("\"focuses_before_long_break\":{invalid}"),
        );
        assert!(settings_from_json(&json).is_none(), "accepted {json}");
    }
    for token in ["-1", "1.0", "1e0", "\"1\"", "true"] {
        assert!(settings_from_json(&DEFAULT_SETTINGS.replace("1500", token)).is_none());
    }
}

#[test]
fn current_tasks_preserve_canonical_text_without_normalization() {
    for text in [
        "今回やること",
        "read chapter 1",
        "read\tchapter",
        "cafe\u{0301} 📖",
        "path \\\"quoted\\\"",
    ] {
        let task = CurrentTask::parse(text).unwrap().unwrap();
        let json = serde_json::to_string(text).unwrap();
        assert_eq!(serde_json::to_string(task.as_str()).unwrap(), json);
        assert_eq!(task_from_json(&json), Some(task));
    }
}

#[test]
fn current_tasks_reject_values_that_would_be_normalized_or_multiline() {
    for text in [
        "",
        " ",
        "\t",
        "\n",
        " task",
        "task ",
        "\u{3000}task",
        "task\u{00a0}",
    ] {
        assert!(task_from_json(&serde_json::to_string(text).unwrap()).is_none());
    }
    for separator in [
        '\r', '\n', '\u{000b}', '\u{000c}', '\u{0085}', '\u{2028}', '\u{2029}',
    ] {
        assert!(
            task_from_json(&serde_json::to_string(&format!("first{separator}second")).unwrap())
                .is_none()
        );
    }
    for json in ["null", "0", "false", "[]", "{}"] {
        assert!(task_from_json(json).is_none());
    }
}

/// Checks one scalar enum: each value writes its name and reads back from
/// it; other shapes, other letter case and unknown names are rejected.
fn check_enum<D: Copy + std::fmt::Debug + PartialEq>(
    cases: &[(D, &str)],
    text: fn(D) -> &'static str,
    from_text: fn(&str) -> Option<D>,
) {
    let read = |json: &str| -> Option<D> {
        let name: String = serde_json::from_str(json).ok()?;
        from_text(&name)
    };
    for &(domain, name) in cases {
        let json = serde_json::to_string(name).unwrap();
        assert_eq!(serde_json::to_string(text(domain)).unwrap(), json);
        assert_eq!(read(&json), Some(domain));
        assert!(read(&format!("{{\"{name}\":null}}")).is_none());
        assert!(read(&serde_json::to_string(&name.to_uppercase()).unwrap()).is_none());
    }
    for json in ["null", "0", "false", "[]", "{}", "\"future_variant\"", "\"\""] {
        assert!(read(json).is_none(), "accepted {json}");
    }
}

#[test]
fn scalar_enums_use_only_the_documented_string_variants() {
    check_enum::<SessionKind>(
        &[
            (SessionKind::Focus, "focus"),
            (SessionKind::QuickStart, "quick_start"),
            (SessionKind::ShortBreak, "short_break"),
            (SessionKind::LongBreak, "long_break"),
        ],
        session_kind_text,
        session_kind_from_text,
    );
    check_enum::<SessionOutcome>(
        &[
            (SessionOutcome::Completed, "completed"),
            (SessionOutcome::Cancelled, "cancelled"),
            (SessionOutcome::Reset, "reset"),
            (SessionOutcome::Skipped, "skipped"),
        ],
        session_outcome_text,
        session_outcome_from_text,
    );
    check_enum::<InterruptionKind>(
        &[
            (InterruptionKind::Pause, "pause"),
            (InterruptionKind::Distraction, "distraction"),
            (InterruptionKind::AppExit, "app_exit"),
            (InterruptionKind::ObservationGap, "observation_gap"),
        ],
        interruption_kind_text,
        interruption_kind_from_text,
    );
    check_enum::<TimeUncertainty>(
        &[
            (TimeUncertainty::ClockMovedBackward, "clock_moved_backward"),
            (TimeUncertainty::ClockDiscontinuity, "clock_discontinuity"),
            (
                TimeUncertainty::InsufficientClockEvidence,
                "insufficient_clock_evidence",
            ),
        ],
        time_uncertainty_text,
        time_uncertainty_from_text,
    );
    check_enum::<GapReason>(
        &[
            (GapReason::Restart, "restart"),
            (
                GapReason::ObservationDiscontinuity,
                "observation_discontinuity",
            ),
            (GapReason::ClockAnomaly, "clock_anomaly"),
        ],
        gap_reason_text,
        gap_reason_from_text,
    );
}
