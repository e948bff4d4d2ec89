//! Completion notices: what they say, and how a notifier's exit status is read.
//! Launching the desktop notifier itself is done by the application.

use vstd::prelude::*;

use crate::model::SessionKind;

verus! {

#[verifier::external_type_specification]
#[verifier::external_body]
pub struct ExIoError(std::io::Error);

/// Sends completion notices through the desktop facility of the current OS.
#[derive(Debug, Default, Clone, Copy)]
pub struct DesktopNotifier;

/// The title and body of a completion notice.
#[derive(Clone, Copy, Debug, Eq, PartialEq)]
pub struct NotificationContent {
    pub summary: &'static str,
    pub body: &'static str,
}

pub open spec fn notification_text(completed: SessionKind) -> (Seq<char>, Seq<char>) {
    match completed {
        SessionKind::Focus => ("Focus complete"@, "Take a break."@),
        SessionKind::QuickStart => ("Quick Start complete"@, "Finish or continue to Focus."@),
        SessionKind::ShortBreak => ("Break complete"@, "Ready for the next Focus."@),
        SessionKind::LongBreak => ("Break complete"@, "Ready for the next Focus."@),
    }
}

/// The English notice for a completed session; both breaks share one text.
pub fn notification_content(completed: SessionKind) -> (r: NotificationContent)
    ensures
        (r.summary@, r.body@) == notification_text(completed),
{
    let (summary, body) = match completed {
        SessionKind::Focus => ("Focus complete", "Take a break."),
        SessionKind::QuickStart => ("Quick Start complete", "Finish or continue to Focus."),
        SessionKind::ShortBreak => ("Break complete", "Ready for the next Focus."),
        SessionKind::LongBreak => ("Break complete", "Ready for the next Focus."),
    };
    NotificationContent { summary, body }
}

#[derive(Debug)]
pub enum NotificationError {
    Launch(std::io::Error),
    UnsuccessfulExit(Option<i32>),
    Backend(String),
}

/// Reads a notifier's exit status: success, or its exit code if it failed.
pub fn check_status(success: bool, code: Option<i32>) -> (r: Result<(), NotificationError>)
    ensures
        success ==> r is Ok,
        !success ==> (r matches Err(NotificationError::UnsuccessfulExit(c)) && c == code),
{
    if success {
        Ok(())
    } else {
        Err(NotificationError::UnsuccessfulExit(code))
    }
}

} // verus!
