//! What each error says to a person. These texts are the errors' user-facing
//! descriptions; the parts that come from outside values (paths, operating
//! system and JSON errors) are filled in by their own `Display`.

use vstd::prelude::*;

use crate::clock::TimeError;
use crate::config::ConfigError;
use crate::legacy::timer::{Action, TimerError, TimerStatus};
use crate::legacy::history::HistoryError;
use crate::model::DomainError;
use crate::notification::NotificationError;
use crate::schema::codec::CodecError;
use crate::storage::{LoadError, LoadProblem, SaveError, SaveStage, StorageError, StorageLockError};

use std::path::PathBuf;

verus! {

/// The decimal digit `d`.
pub open spec fn digit_text(d: nat) -> Seq<char> {
    if d == 0 {
        "0"@
    } else if d == 1 {
        "1"@
    } else if d == 2 {
        "2"@
    } else if d == 3 {
        "3"@
    } else if d == 4 {
        "4"@
    } else if d == 5 {
        "5"@
    } else if d == 6 {
        "6"@
    } else if d == 7 {
        "7"@
    } else if d == 8 {
        "8"@
    } else {
        "9"@
    }
}

/// `n` in decimal, without leading zeros.
pub open spec fn decimal(n: nat) -> Seq<char>
    decreases n,
{
    if n < 10 {
        digit_text(n)
    } else {
        decimal(n / 10) + digit_text(n % 10)
    }
}

fn digit(d: u64) -> (r: &'static str)
    requires
        d < 10,
    ensures
        r@ == digit_text(d as nat),
{
    match d {
        0 => "0",
        1 => "1",
        2 => "2",
        3 => "3",
        4 => "4",
        5 => "5",
        6 => "6",
        7 => "7",
        8 => "8",
        _ => "9",
    }
}

/// `n` written in decimal.
pub fn decimal_text(n: u64) -> (r: String)
    ensures
        r@ == decimal(n as nat),
    decreases n,
{
    if n < 10 {
        String::from_str(digit(n))
    } else {
        let mut text = decimal_text(n / 10);
        text.append(digit(n % 10));
        text
    }
}

fn text(s: &str) -> (r: String)
    ensures
        r@ == s@,
{
    String::from_str(s)
}

impl ConfigError {
    pub open spec fn spec_message(self) -> Seq<char> {
        match self {
            ConfigError::ZeroDuration { field } => field@ + " must be greater than zero"@,
            ConfigError::DurationTooLong { field, maximum_seconds } => field@ + " must be at most "@
                + decimal(maximum_seconds as nat) + " seconds"@,
            ConfigError::ZeroFocusesBeforeLongBreak =>
                "focuses_before_long_break must be greater than zero"@,
        }
    }

    /// What the error says.
    pub fn message(&self) -> (r: String)
        ensures
            r@ == self.spec_message(),
    {
        match self {
            ConfigError::ZeroDuration { field } => text(field).concat(" must be greater than zero"),
            ConfigError::DurationTooLong { field, maximum_seconds } => {
                let number = decimal_text(*maximum_seconds);
                text(field).concat(" must be at most ").concat(number.as_str()).concat(" seconds")
            },
            ConfigError::ZeroFocusesBeforeLongBreak => text(
                "focuses_before_long_break must be greater than zero",
            ),
        }
    }
}

impl DomainError {
    pub open spec fn spec_message(self) -> Seq<char> {
        match self {
            DomainError::InvalidConfig(error) => "invalid settings: "@ + error.spec_message(),
            DomainError::InvalidTask => "current task must be a single line"@,
            DomainError::InvalidOperation => "operation not allowed in this state"@,
            DomainError::WrongSession => "operation targets a different or ended session"@,
            DomainError::ObservationRequired =>
                "observe time before operating on a running session"@,
            DomainError::Overflow => "domain counter overflow"@,
            DomainError::InvalidState(reason) => "invalid domain state: "@ + reason@,
        }
    }

    /// What the error says.
    pub fn message(&self) -> (r: String)
        ensures
            r@ == self.spec_message(),
    {
        match self {
            DomainError::InvalidConfig(error) => {
                let detail = error.message();
                text("invalid settings: ").concat(detail.as_str())
            },
            DomainError::InvalidTask => text("current task must be a single line"),
            DomainError::InvalidOperation => text("operation not allowed in this state"),
            DomainError::WrongSession => text("operation targets a different or ended session"),
            DomainError::ObservationRequired => text(
                "observe time before operating on a running session",
            ),
            DomainError::Overflow => text("domain counter overflow"),
            DomainError::InvalidState(reason) => text("invalid domain state: ").concat(reason),
        }
    }
}

impl TimeError {
    pub open spec fn spec_message(self) -> Seq<char> {
        match self {
            TimeError::BeforeUnixEpoch => "system time is before the Unix epoch"@,
            TimeError::OutOfRange => "timestamp is outside the supported range"@,
        }
    }

    /// What the error says.
    pub fn message(&self) -> (r: &'static str)
        ensures
            r@ == self.spec_message(),
    {
        match self {
            TimeError::BeforeUnixEpoch => "system time is before the Unix epoch",
            TimeError::OutOfRange => "timestamp is outside the supported range",
        }
    }
}

/// The name of a timer action, as its variant is written.
pub open spec fn action_name(action: Action) -> Seq<char> {
    match action {
        Action::Start => "Start"@,
        Action::Pause => "Pause"@,
        Action::Resume => "Resume"@,
    }
}

/// The name of a timer status, as its variant is written.
pub open spec fn status_name(status: TimerStatus) -> Seq<char> {
    match status {
        TimerStatus::Idle => "Idle"@,
        TimerStatus::Running => "Running"@,
        TimerStatus::Paused => "Paused"@,
    }
}

fn action_text(action: Action) -> (r: &'static str)
    ensures
        r@ == action_name(action),
{
    match action {
        Action::Start => "Start",
        Action::Pause => "Pause",
        Action::Resume => "Resume",
    }
}

fn status_text(status: TimerStatus) -> (r: &'static str)
    ensures
        r@ == status_name(status),
{
    match status {
        TimerStatus::Idle => "Idle",
        TimerStatus::Running => "Running",
        TimerStatus::Paused => "Paused",
    }
}

impl TimerError {
    pub open spec fn spec_message(self) -> Seq<char> {
        match self {
            TimerError::InvalidConfig(error) => "invalid timer config: "@ + error.spec_message(),
            TimerError::InvalidTransition { action, status } => "cannot "@ + action_name(action)
                + " timer while it is "@ + status_name(status),
            TimerError::SessionAlreadyElapsed =>
                "session has already elapsed; tick the timer first"@,
            TimerError::TimestampOverflow => "timer deadline overflowed"@,
            TimerError::InvalidCompletedFocusCount { found, maximum } => "completed focus count "@
                + decimal(found as nat) + " exceeds configured maximum "@ + decimal(maximum as nat),
            TimerError::InvalidRemainingTime { found_ms, maximum_ms } => "remaining time "@
                + decimal(found_ms as nat) + " ms is outside 1..="@ + decimal(maximum_ms as nat)
                + " ms"@,
        }
    }

    /// What the error says.
    pub fn message(&self) -> (r: String)
        ensures
            r@ == self.spec_message(),
    {
        match self {
            TimerError::InvalidConfig(error) => {
                let detail = error.message();
                text("invalid timer config: ").concat(detail.as_str())
            },
            TimerError::InvalidTransition { action, status } => text("cannot ").concat(
                action_text(*action),
            ).concat(" timer while it is ").concat(status_text(*status)),
            TimerError::SessionAlreadyElapsed => text(
                "session has already elapsed; tick the timer first",
            ),
            TimerError::TimestampOverflow => text("timer deadline overflowed"),
            TimerError::InvalidCompletedFocusCount { found, maximum } => {
                let found = decimal_text(*found as u64);
                let maximum = decimal_text(*maximum as u64);
                text("completed focus count ").concat(found.as_str()).concat(
                    " exceeds configured maximum ",
                ).concat(maximum.as_str())
            },
            TimerError::InvalidRemainingTime { found_ms, maximum_ms } => {
                let found = decimal_text(*found_ms);
                let maximum = decimal_text(*maximum_ms);
                text("remaining time ").concat(found.as_str()).concat(" ms is outside 1..=").concat(
                    maximum.as_str(),
                ).concat(" ms")
            },
        }
    }
}

impl HistoryError {
    pub open spec fn spec_message(self) -> Seq<char> {
        match self {
            HistoryError::InvalidLocalDate(date) => "local date must use YYYY-MM-DD format: "@
                + date@,
            HistoryError::CounterOverflow => "history counter overflowed"@,
            HistoryError::UnsupportedSchemaVersion { found, supported } =>
                "unsupported history schema version "@ + decimal(found as nat) + "; expected "@
                + decimal(supported as nat),
        }
    }

    /// What the error says.
    pub fn message(&self) -> (r: String)
        ensures
            r@ == self.spec_message(),
    {
        match self {
            HistoryError::InvalidLocalDate(date) => text(
                "local date must use YYYY-MM-DD format: ",
            ).concat(date.as_str()),
            HistoryError::CounterOverflow => text("history counter overflowed"),
            HistoryError::UnsupportedSchemaVersion { found, supported } => {
                let found = decimal_text(*found as u64);
                let supported = decimal_text(*supported as u64);
                text("unsupported history schema version ").concat(found.as_str()).concat(
                    "; expected ",
                ).concat(supported.as_str())
            },
        }
    }
}

/// The text that `Path::display` gives for a path; it depends on the path
/// alone.
pub uninterp spec fn path_display(path: PathBuf) -> Seq<char>;

/// The `Display` text of a JSON error (`serde_json::Error`); it depends on
/// the error alone (its kind and its line and column).
pub uninterp spec fn json_error_display(error: serde_json::Error) -> Seq<char>;

/// `Path::display` of a path, as text: `path_display` of the path.
#[verifier::external_body]
fn path_text(path: &PathBuf) -> (r: String)
    ensures
        r@ == path_display(*path),
{
    format!("{}", path.display())
}

/// The `Display` text of an operating-system error; it depends on the
/// operating system, so nothing is claimed of it.
#[verifier::external_body]
fn io_error_text(error: &std::io::Error) -> (r: String) {
    format!("{error}")
}

/// The `Display` text of a JSON error: `json_error_display` of the error.
#[verifier::external_body]
fn json_error_text(error: &serde_json::Error) -> (r: String)
    ensures
        r@ == json_error_display(*error),
{
    format!("{error}")
}

/// The `{:?}` text of a list of paths (`Debug` of a slice of `PathBuf`);
/// nothing is claimed of it.
#[verifier::external_body]
fn paths_debug_text(paths: &[PathBuf]) -> (r: String) {
    format!("{paths:?}")
}

/// `v` in decimal, with a minus sign when negative.
pub open spec fn signed_decimal(v: int) -> Seq<char> {
    if v < 0 {
        "-"@ + decimal((-v) as nat)
    } else {
        decimal(v as nat)
    }
}

fn signed_decimal_text(v: i32) -> (r: String)
    ensures
        r@ == signed_decimal(v as int),
{
    if v < 0 {
        let magnitude: i64 = -(v as i64);
        let digits = decimal_text(magnitude as u64);
        text("-").concat(digits.as_str())
    } else {
        decimal_text(v as u64)
    }
}

/// An optional exit code as `{:?}` writes it.
pub open spec fn exit_code_text(code: Option<i32>) -> Seq<char> {
    match code {
        Some(v) => "Some("@ + signed_decimal(v as int) + ")"@,
        None => "None"@,
    }
}

impl CodecError {
    /// The text; a JSON error's own part is its `Display` text.
    pub open spec fn spec_message(self) -> Seq<char> {
        match self {
            CodecError::MissingVersion => "missing schema_version; unversioned data is unsupported"@,
            CodecError::UnsupportedVersion(version) => "unsupported schema version: "@ + decimal(
                version as nat,
            ),
            CodecError::Json(error) => "invalid V1 JSON: "@ + json_error_display(error),
            CodecError::InvalidDomain(error) => "invalid V1 domain state: "@ + error.spec_message(),
            CodecError::InvalidValue(reason) => "invalid V1 value: "@ + reason@,
        }
    }

    /// What the error says.
    pub fn message(&self) -> (r: String)
        ensures
            r@ == self.spec_message(),
    {
        match self {
            CodecError::MissingVersion => text("missing schema_version; unversioned data is unsupported"),
            CodecError::UnsupportedVersion(version) => {
                let number = decimal_text(*version as u64);
                text("unsupported schema version: ").concat(number.as_str())
            },
            CodecError::Json(error) => {
                let detail = json_error_text(error);
                text("invalid V1 JSON: ").concat(detail.as_str())
            },
            CodecError::InvalidDomain(error) => {
                let detail = error.message();
                text("invalid V1 domain state: ").concat(detail.as_str())
            },
            CodecError::InvalidValue(reason) => text("invalid V1 value: ").concat(reason),
        }
    }
}

impl StorageLockError {
    /// The text, given the text of the I/O error involved.
    pub open spec fn spec_message_with(self, source: Seq<char>) -> Seq<char> {
        match self {
            StorageLockError::NoBaseDirectory => "could not determine a user storage directory"@,
            StorageLockError::InUse { path } => "storage is already in use: "@ + path_display(path),
            StorageLockError::Io { path, .. } => "storage lock I/O failed at "@ + path_display(path)
                + ": "@ + source,
        }
    }

    /// What the error says; an I/O error's own part is the operating system's.
    pub fn message(&self) -> (r: String)
        ensures
            exists|source: Seq<char>| #[trigger] self.spec_message_with(source) == r@,
            !(self is Io) ==> r@ == self.spec_message_with(Seq::empty()),
    {
        match self {
            StorageLockError::NoBaseDirectory => {
                let r = text("could not determine a user storage directory");
                assert(self.spec_message_with(Seq::empty()) == r@);
                r
            },
            StorageLockError::InUse { path } => {
                let p = path_text(path);
                let r = text("storage is already in use: ").concat(p.as_str());
                assert(self.spec_message_with(Seq::empty()) == r@);
                r
            },
            StorageLockError::Io { path, source } => {
                let p = path_text(path);
                let e = io_error_text(source);
                let r = text("storage lock I/O failed at ").concat(p.as_str()).concat(": ").concat(
                    e.as_str(),
                );
                assert(self.spec_message_with(e@) == r@);
                r
            },
        }
    }
}

impl LoadProblem {
    /// The text, given the text of the I/O error involved.
    pub open spec fn spec_message_with(self, source: Seq<char>) -> Seq<char> {
        match self {
            LoadProblem::Missing { path } => "saved state is missing: "@ + path_display(path),
            LoadProblem::Unsupported { path, schema_version } => match schema_version {
                None => "unversioned saved state is unsupported: "@ + path_display(path),
                Some(version) => "unsupported schema version "@ + decimal(version as nat) + ": "@
                    + path_display(path),
            },
            LoadProblem::Invalid { path, detail } => "invalid saved state at "@ + path_display(path)
                + ": "@ + detail@,
            LoadProblem::Io { path, .. } => "saved state I/O failed at "@ + path_display(path)
                + ": "@ + source,
        }
    }

    /// What the problem says; an I/O error's own part is the operating
    /// system's.
    pub fn message(&self) -> (r: String)
        ensures
            exists|source: Seq<char>| #[trigger] self.spec_message_with(source) == r@,
            !(self is Io) ==> r@ == self.spec_message_with(Seq::empty()),
    {
        let (r, e) = self.message_parts();
        r
    }

    fn message_parts(&self) -> (r: (String, Ghost<Seq<char>>))
        ensures
            self.spec_message_with(r.1@) == r.0@,
            !(self is Io) ==> r.1@ == Seq::<char>::empty(),
    {
        match self {
            LoadProblem::Missing { path } => {
                let p = path_text(path);
                (text("saved state is missing: ").concat(p.as_str()), Ghost(Seq::empty()))
            },
            LoadProblem::Unsupported { path, schema_version } => {
                let p = path_text(path);
                match schema_version {
                    None => (
                        text("unversioned saved state is unsupported: ").concat(p.as_str()),
                        Ghost(Seq::empty()),
                    ),
                    Some(version) => {
                        let number = decimal_text(*version as u64);
                        (
                            text("unsupported schema version ").concat(number.as_str()).concat(
                                ": ",
                            ).concat(p.as_str()),
                            Ghost(Seq::empty()),
                        )
                    },
                }
            },
            LoadProblem::Invalid { path, detail } => {
                let p = path_text(path);
                (
                    text("invalid saved state at ").concat(p.as_str()).concat(": ").concat(
                        detail.as_str(),
                    ),
                    Ghost(Seq::empty()),
                )
            },
            LoadProblem::Io { path, source } => {
                let p = path_text(path);
                let e = io_error_text(source);
                (
                    text("saved state I/O failed at ").concat(p.as_str()).concat(": ").concat(
                        e.as_str(),
                    ),
                    Ghost(e@),
                )
            },
        }
    }
}

impl LoadError {
    /// The text, given the texts of the I/O errors involved and of the list
    /// of remaining entries.
    pub open spec fn spec_message_with(
        self,
        primary_source: Seq<char>,
        backup_source: Seq<char>,
        remnants: Seq<char>,
    ) -> Seq<char> {
        self.spec_primary().spec_message_with(primary_source) + match self.spec_backup() {
            Some(backup) => "; backup: "@ + backup.spec_message_with(backup_source),
            None => Seq::empty(),
        } + if self.spec_remnants().len() > 0 {
            "; remaining files prevent initialization: "@ + remnants
        } else {
            Seq::empty()
        }
    }

    /// What the error says: the primary's problem, then the backup's, then
    /// the entries that keep a new store from being initialized.
    pub fn message(&self) -> (r: String)
        ensures
            exists|ps: Seq<char>, bs: Seq<char>, rem: Seq<char>|
                #[trigger] self.spec_message_with(ps, bs, rem) == r@,
    {
        let (mut r, ps) = self.primary_problem().message_parts();
        let ghost mut bs = Seq::<char>::empty();
        let ghost mut rem = Seq::<char>::empty();
        let ghost first = r@;
        match self.backup_problem() {
            Some(backup) => {
                let (b, e) = backup.message_parts();
                r.append("; backup: ");
                r.append(b.as_str());
                proof {
                    bs = e@;
                }
            },
            None => {},
        }
        let remnants = self.remnants();
        if remnants.len() > 0 {
            let listed = paths_debug_text(remnants);
            r.append("; remaining files prevent initialization: ");
            r.append(listed.as_str());
            proof {
                rem = listed@;
            }
        }
        assert(first == self.spec_primary().spec_message_with(ps@));
        assert(self.spec_message_with(ps@, bs, rem) == r@);
        r
    }
}

/// A save stage's name, as its variant is written.
pub open spec fn stage_name(stage: SaveStage) -> Seq<char> {
    match stage {
        SaveStage::SyncStorageAncestry => "SyncStorageAncestry"@,
        SaveStage::VerifyRecoverySources => "VerifyRecoverySources"@,
        SaveStage::CreateQuarantine => "CreateQuarantine"@,
        SaveStage::WriteQuarantine => "WriteQuarantine"@,
        SaveStage::SyncQuarantine => "SyncQuarantine"@,
        SaveStage::SyncQuarantineDirectory => "SyncQuarantineDirectory"@,
        SaveStage::CreateBackupTemp => "CreateBackupTemp"@,
        SaveStage::WriteBackupTemp => "WriteBackupTemp"@,
        SaveStage::SyncBackupTemp => "SyncBackupTemp"@,
        SaveStage::RenameBackup => "RenameBackup"@,
        SaveStage::SyncBackupDirectory => "SyncBackupDirectory"@,
        SaveStage::CreatePrimaryTemp => "CreatePrimaryTemp"@,
        SaveStage::WritePrimaryTemp => "WritePrimaryTemp"@,
        SaveStage::SyncPrimaryTemp => "SyncPrimaryTemp"@,
        SaveStage::RenamePrimary => "RenamePrimary"@,
        SaveStage::SyncPrimaryDirectory => "SyncPrimaryDirectory"@,
    }
}

fn stage_text(stage: SaveStage) -> (r: &'static str)
    ensures
        r@ == stage_name(stage),
{
    match stage {
        SaveStage::SyncStorageAncestry => "SyncStorageAncestry",
        SaveStage::VerifyRecoverySources => "VerifyRecoverySources",
        SaveStage::CreateQuarantine => "CreateQuarantine",
        SaveStage::WriteQuarantine => "WriteQuarantine",
        SaveStage::SyncQuarantine => "SyncQuarantine",
        SaveStage::SyncQuarantineDirectory => "SyncQuarantineDirectory",
        SaveStage::CreateBackupTemp => "CreateBackupTemp",
        SaveStage::WriteBackupTemp => "WriteBackupTemp",
        SaveStage::SyncBackupTemp => "SyncBackupTemp",
        SaveStage::RenameBackup => "RenameBackup",
        SaveStage::SyncBackupDirectory => "SyncBackupDirectory",
        SaveStage::CreatePrimaryTemp => "CreatePrimaryTemp",
        SaveStage::WritePrimaryTemp => "WritePrimaryTemp",
        SaveStage::SyncPrimaryTemp => "SyncPrimaryTemp",
        SaveStage::RenamePrimary => "RenamePrimary",
        SaveStage::SyncPrimaryDirectory => "SyncPrimaryDirectory",
    }
}

impl SaveError {
    /// The text, given the text of the I/O error involved.
    pub open spec fn spec_message_with(self, source: Seq<char>) -> Seq<char>
        decreases self,
    {
        match self {
            SaveError::PendingSave => "a save candidate is already pending; normal saves are blocked"@,
            SaveError::NoPendingSave => "there is no pending save candidate to retry"@,
            SaveError::GenerationExhausted => "save generation exhausted"@,
            SaveError::InvalidCandidate(detail) => "invalid save candidate: "@ + detail@,
            SaveError::Conflict { path } => "saved data changed outside this handle: "@
                + path_display(path),
            SaveError::Read(problem) => "cannot verify save baseline: "@ + problem.spec_message_with(
                source,
            ),
            SaveError::Io { stage, path, .. } => "save failed at "@ + stage_name(stage) + " ("@
                + path_display(path) + "): "@ + source,
            SaveError::CommitUncertain(error) => "save commit remains uncertain: "@
                + error.spec_message_with(source),
        }
    }

    /// Whether the text holds an operating-system error's text.
    pub open spec fn spec_has_io_source(self) -> bool
        decreases self,
    {
        match self {
            SaveError::Read(problem) => problem is Io,
            SaveError::Io { .. } => true,
            SaveError::CommitUncertain(error) => error.spec_has_io_source(),
            _ => false,
        }
    }

    /// What the error says; an I/O error's own part is the operating system's.
    pub fn message(&self) -> (r: String)
        ensures
            exists|source: Seq<char>| #[trigger] self.spec_message_with(source) == r@,
            !self.spec_has_io_source() ==> r@ == self.spec_message_with(Seq::empty()),
    {
        let (r, e) = self.message_parts();
        r
    }

    fn message_parts(&self) -> (r: (String, Ghost<Seq<char>>))
        ensures
            self.spec_message_with(r.1@) == r.0@,
            !self.spec_has_io_source() ==> r.1@ == Seq::<char>::empty(),
        decreases self,
    {
        match self {
            SaveError::PendingSave => (
                text("a save candidate is already pending; normal saves are blocked"),
                Ghost(Seq::empty()),
            ),
            SaveError::NoPendingSave => (
                text("there is no pending save candidate to retry"),
                Ghost(Seq::empty()),
            ),
            SaveError::GenerationExhausted => (
                text("save generation exhausted"),
                Ghost(Seq::empty()),
            ),
            SaveError::InvalidCandidate(detail) => (
                text("invalid save candidate: ").concat(detail.as_str()),
                Ghost(Seq::empty()),
            ),
            SaveError::Conflict { path } => {
                let p = path_text(path);
                (
                    text("saved data changed outside this handle: ").concat(p.as_str()),
                    Ghost(Seq::empty()),
                )
            },
            SaveError::Read(problem) => {
                let (m, e) = problem.message_parts();
                (text("cannot verify save baseline: ").concat(m.as_str()), e)
            },
            SaveError::Io { stage, path, source } => {
                let p = path_text(path);
                let e = io_error_text(source);
                (
                    text("save failed at ").concat(stage_text(*stage)).concat(" (").concat(
                        p.as_str(),
                    ).concat("): ").concat(e.as_str()),
                    Ghost(e@),
                )
            },
            SaveError::CommitUncertain(error) => {
                let (m, e) = error.message_parts();
                (text("save commit remains uncertain: ").concat(m.as_str()), e)
            },
        }
    }
}

impl StorageError {
    /// The text, given the text of the I/O error involved.
    pub open spec fn spec_message_with(self, source: Seq<char>) -> Seq<char> {
        match self {
            StorageError::NoBaseDirectory => "could not determine a user data directory"@,
            StorageError::InvalidStoragePath => "storage path has no parent directory"@,
            StorageError::Io(_) => "storage I/O failed: "@ + source,
            StorageError::InvalidJson(error) => "stored JSON is invalid: "@ + json_error_display(error),
            StorageError::InvalidTimer(error) => "stored timer is invalid: "@ + error.spec_message(),
            StorageError::InvalidHistory(error) => "stored history is invalid: "@
                + error.spec_message(),
        }
    }

    /// What the error says; an I/O error's own part is the operating system's.
    pub fn message(&self) -> (r: String)
        ensures
            exists|source: Seq<char>| #[trigger] self.spec_message_with(source) == r@,
            !(self is Io) ==> r@ == self.spec_message_with(Seq::empty()),
    {
        let (r, source) = match self {
            StorageError::NoBaseDirectory => (text("could not determine a user data directory"), Ghost(Seq::empty())),
            StorageError::InvalidStoragePath => (text("storage path has no parent directory"), Ghost(Seq::empty())),
            StorageError::Io(error) => {
                let e = io_error_text(error);
                (text("storage I/O failed: ").concat(e.as_str()), Ghost(e@))
            },
            StorageError::InvalidJson(error) => {
                let e = json_error_text(error);
                (text("stored JSON is invalid: ").concat(e.as_str()), Ghost(Seq::empty()))
            },
            StorageError::InvalidTimer(error) => {
                let m = error.message();
                (text("stored timer is invalid: ").concat(m.as_str()), Ghost(Seq::empty()))
            },
            StorageError::InvalidHistory(error) => {
                let m = error.message();
                (text("stored history is invalid: ").concat(m.as_str()), Ghost(Seq::empty()))
            },
        };
        assert(self.spec_message_with(source@) == r@);
        r
    }
}

impl NotificationError {
    /// The text, given the text of the launch failure if there is one.
    pub open spec fn spec_message_with(self, source: Seq<char>) -> Seq<char> {
        match self {
            NotificationError::Launch(_) => "could not launch desktop notification: "@ + source,
            NotificationError::UnsuccessfulExit(code) => "desktop notification exited unsuccessfully: "@
                + exit_code_text(code),
            NotificationError::Backend(detail) => "desktop notification failed: "@ + detail@,
        }
    }

    /// What the error says.
    pub fn message(&self) -> (r: String)
        ensures
            exists|source: Seq<char>| #[trigger] self.spec_message_with(source) == r@,
    {
        let (r, source) = match self {
            NotificationError::Launch(error) => {
                let e = io_error_text(error);
                (text("could not launch desktop notification: ").concat(e.as_str()), Ghost(e@))
            },
            NotificationError::UnsuccessfulExit(code) => {
                let code_text = match code {
                    Some(v) => {
                        let digits = signed_decimal_text(*v);
                        text("Some(").concat(digits.as_str()).concat(")")
                    },
                    None => text("None"),
                };
                (
                    text("desktop notification exited unsuccessfully: ").concat(code_text.as_str()),
                    Ghost(Seq::empty()),
                )
            },
            NotificationError::Backend(detail) => (
                text("desktop notification failed: ").concat(detail.as_str()),
                Ghost(Seq::empty()),
            ),
        };
        assert(self.spec_message_with(source@) == r@);
        r
    }
}

} // verus!
