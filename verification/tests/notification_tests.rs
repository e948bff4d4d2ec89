use pomodoro::notification::{check_status, notification_content, NotificationContent, NotificationError};
use pomodoro::SessionKind;

#[test]
fn english_notification_copy_covers_every_session_kind() {
    for (kind, summary, body) in [
        (SessionKind::Focus, "Focus complete", "Take a break."),
        (
            SessionKind::QuickStart,
            "Quick Start complete",
            "Finish or continue to Focus.",
        ),
        (
            SessionKind::ShortBreak,
            "Break complete",
            "Ready for the next Focus.",
        ),
        (
            SessionKind::LongBreak,
            "Break complete",
            "Ready for the next Focus.",
        ),
    ] {
        assert_eq!(
            notification_content(kind),
            NotificationContent { summary, body },
            "{kind:?}"
        );
    }
}

#[test]
fn a_failed_notifier_reports_its_exit_code() {
    assert!(check_status(true, Some(0)).is_ok());
    assert!(matches!(
        check_status(false, Some(3)),
        Err(NotificationError::UnsuccessfulExit(Some(3)))
    ));
    assert!(matches!(
        check_status(false, None),
        Err(NotificationError::UnsuccessfulExit(None))
    ));
}
