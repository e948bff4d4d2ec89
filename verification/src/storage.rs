//! The decisions of the storage boundary: where files live, how a failed or
//! uncertain save is reported, which generation comes next, what a retry may
//! do, and what a load concludes from the files it read. Opening, reading,
//! writing and locking files is done by the application.

use vstd::prelude::*;

use std::path::PathBuf;

use crate::domain::DomainState;
use crate::legacy::history::{History, HistoryError};
use crate::legacy::timer::{PomodoroTimer, TimerError};
use crate::config::TimerConfig;
use crate::model::Timestamp;
use crate::schema::codec::{CodecError, PersistedStateV1};

verus! {

#[verifier::external_type_specification]
#[verifier::external_body]
pub struct ExPathBuf(std::path::PathBuf);

/// The path `Path::join` makes of a directory and one more component; it
/// depends on its two arguments alone.
pub uninterp spec fn joined_path(directory: PathBuf, name: Seq<char>) -> PathBuf;

/// `Path::join`: the directory with one more component, named `joined_path`.
#[verifier::external_body]
fn join(directory: &PathBuf, name: &str) -> (r: PathBuf)
    ensures
        r == joined_path(*directory, name@),
{
    directory.join(name)
}

/// `PathBuf::clone`: a copy of the same path.
#[verifier::external_body]
fn clone_path(path: &PathBuf) -> (r: PathBuf)
    ensures
        r == *path,
{
    path.clone()
}

pub const APPLICATION_DIRECTORY: &'static str = "pomodoro-app-rs";

/// A directory holding the state file, its backup, and a dedicated lock file.
/// Constructing a location neither reads nor creates files.
#[derive(Debug, PartialEq, Eq)]
pub struct StorageLocation {
    directory: PathBuf,
}

impl Clone for StorageLocation {
    fn clone(&self) -> (r: Self)
        ensures
            r == *self,
    {
        StorageLocation { directory: clone_path(&self.directory) }
    }
}

impl StorageLocation {
    pub closed spec fn spec_directory(&self) -> PathBuf {
        self.directory
    }

    /// Selects a storage directory, not a state file.
    pub fn at(directory: PathBuf) -> (r: Self)
        ensures
            r.spec_directory() == directory,
    {
        StorageLocation { directory }
    }

    pub fn directory(&self) -> (r: &PathBuf)
        ensures
            *r == self.spec_directory(),
    {
        &self.directory
    }

    /// `state.json` in the directory.
    pub fn state_path(&self) -> (r: PathBuf)
        ensures
            r == joined_path(self.spec_directory(), "state.json"@),
    {
        join(&self.directory, "state.json")
    }

    /// `state.json.bak` in the directory.
    pub fn backup_path(&self) -> (r: PathBuf)
        ensures
            r == joined_path(self.spec_directory(), "state.json.bak"@),
    {
        join(&self.directory, "state.json.bak")
    }

    /// `state.lock` in the directory.
    pub fn lock_path(&self) -> (r: PathBuf)
        ensures
            r == joined_path(self.spec_directory(), "state.lock"@),
    {
        join(&self.directory, "state.lock")
    }
}

#[derive(Debug)]
pub enum StorageLockError {
    NoBaseDirectory,
    InUse { path: PathBuf },
    Io { path: PathBuf, source: std::io::Error },
}

/// The failed I/O operation. Commit uncertainty is separate from the operation.
#[derive(Debug, Clone, Copy, PartialEq, Eq, Structural)]
pub enum SaveStage {
    SyncStorageAncestry,
    VerifyRecoverySources,
    CreateQuarantine,
    WriteQuarantine,
    SyncQuarantine,
    SyncQuarantineDirectory,
    CreateBackupTemp,
    WriteBackupTemp,
    SyncBackupTemp,
    RenameBackup,
    SyncBackupDirectory,
    CreatePrimaryTemp,
    WritePrimaryTemp,
    SyncPrimaryTemp,
    RenamePrimary,
    SyncPrimaryDirectory,
}

/// The file that an atomic replacement writes.
#[derive(Debug, Clone, Copy, PartialEq, Eq, Structural)]
pub enum SaveTarget {
    Backup,
    Primary,
}

impl SaveTarget {
    /// The stages of replacing the target, in order: create, write and sync a
    /// temporary file, rename it over the target, sync the directory.
    pub fn stages(self) -> (r: [SaveStage; 5])
        ensures
            r@ == match self {
                SaveTarget::Backup => seq![
                    SaveStage::CreateBackupTemp,
                    SaveStage::WriteBackupTemp,
                    SaveStage::SyncBackupTemp,
                    SaveStage::RenameBackup,
                    SaveStage::SyncBackupDirectory,
                ],
                SaveTarget::Primary => seq![
                    SaveStage::CreatePrimaryTemp,
                    SaveStage::WritePrimaryTemp,
                    SaveStage::SyncPrimaryTemp,
                    SaveStage::RenamePrimary,
                    SaveStage::SyncPrimaryDirectory,
                ],
            },
    {
        match self {
            SaveTarget::Backup => [
                SaveStage::CreateBackupTemp,
                SaveStage::WriteBackupTemp,
                SaveStage::SyncBackupTemp,
                SaveStage::RenameBackup,
                SaveStage::SyncBackupDirectory,
            ],
            SaveTarget::Primary => [
                SaveStage::CreatePrimaryTemp,
                SaveStage::WritePrimaryTemp,
                SaveStage::SyncPrimaryTemp,
                SaveStage::RenamePrimary,
                SaveStage::SyncPrimaryDirectory,
            ],
        }
    }
}

#[derive(Debug)]
pub enum LoadProblem {
    Missing { path: PathBuf },
    Unsupported { path: PathBuf, schema_version: Option<u32> },
    Invalid { path: PathBuf, detail: String },
    Io { path: PathBuf, source: std::io::Error },
}

#[derive(Debug)]
pub enum SaveError {
    PendingSave,
    NoPendingSave,
    GenerationExhausted,
    InvalidCandidate(String),
    Conflict { path: PathBuf },
    Read(LoadProblem),
    Io { stage: SaveStage, path: PathBuf, source: std::io::Error },
    /// Retains both the unconfirmed commit and the original failure.
    CommitUncertain(Box<SaveError>),
}

impl SaveError {
    /// The candidate may already be the primary without a confirmed commit:
    /// a retained uncertainty, or a failed sync of the primary's directory.
    pub open spec fn spec_is_commit_uncertain(&self) -> bool {
        ||| self is CommitUncertain
        ||| (self matches SaveError::Io { stage, .. } && stage == SaveStage::SyncPrimaryDirectory)
    }

    /// The underlying failure, without any commit-uncertainty wrappers.
    pub open spec fn spec_failure(&self) -> &SaveError
        decreases self,
    {
        match self {
            SaveError::CommitUncertain(inner) => (&**inner).spec_failure(),
            _ => self,
        }
    }

    pub fn is_commit_uncertain(&self) -> (r: bool)
        ensures
            r == self.spec_is_commit_uncertain(),
    {
        match self {
            SaveError::CommitUncertain(_) => true,
            SaveError::Io { stage: SaveStage::SyncPrimaryDirectory, .. } => true,
            _ => false,
        }
    }

    pub fn failure(&self) -> (r: &SaveError)
        ensures
            r == self.spec_failure(),
        decreases self,
    {
        match self {
            SaveError::CommitUncertain(inner) => (&**inner).failure(),
            _ => self,
        }
    }

    /// Marks an error as commit-uncertain once, when the candidate may already
    /// be the primary.
    pub fn with_commit_uncertainty(self, uncertain: bool) -> (r: SaveError)
        ensures
            if uncertain && !self.spec_is_commit_uncertain() {
                r == SaveError::CommitUncertain(Box::new(self))
            } else {
                r == self
            },
    {
        if uncertain && !self.is_commit_uncertain() {
            SaveError::CommitUncertain(Box::new(self))
        } else {
            self
        }
    }
}

/// Records a failed attempt: the candidate's uncertainty only ever grows, and
/// the reported error carries it.
pub fn record_failure(commit_uncertain: bool, error: SaveError) -> (r: (bool, SaveError))
    ensures
        r.0 == (commit_uncertain || error.spec_is_commit_uncertain()),
        if r.0 && !error.spec_is_commit_uncertain() {
            r.1 == SaveError::CommitUncertain(Box::new(error))
        } else {
            r.1 == error
        },
{
    let uncertain = commit_uncertain || error.is_commit_uncertain();
    (uncertain, error.with_commit_uncertainty(uncertain))
}

/// The generation of the next save: one past the baseline's, starting at one.
pub fn next_generation(baseline: Option<u64>) -> (r: Result<u64, SaveError>)
    ensures
        match baseline {
            None => r == Ok::<u64, SaveError>(1),
            Some(g) => if g == u64::MAX {
                r matches Err(SaveError::GenerationExhausted)
            } else {
                r == Ok::<u64, SaveError>((g + 1) as u64)
            },
        },
{
    match baseline {
        None => Ok(1),
        Some(g) => if g == u64::MAX {
            Err(SaveError::GenerationExhausted)
        } else {
            Ok(g + 1)
        },
    }
}

fn same_bytes(a: &[u8], b: &[u8]) -> (r: bool)
    ensures
        r == (a@ == b@),
{
    if a.len() != b.len() {
        return false;
    }
    let mut i: usize = 0;
    while i < a.len()
        invariant
            a@.len() == b@.len(),
            i <= a@.len(),
            forall|k: int| 0 <= k < i ==> a@[k] == b@[k],
        decreases a.len() - i,
    {
        if a[i] != b[i] {
            return false;
        }
        i += 1;
    }
    assert(a@ =~= b@);
    true
}

pub open spec fn optional_bytes(bytes: Option<&[u8]>) -> Option<Seq<u8>> {
    match bytes {
        Some(b) => Some(b@),
        None => None,
    }
}

/// Whether the primary on disk is exactly the given bytes (`None`: absent).
pub fn primary_matches(primary: Option<&[u8]>, expected: Option<&[u8]>) -> (r: bool)
    ensures
        r == (optional_bytes(primary) == optional_bytes(expected)),
{
    match (primary, expected) {
        (Some(a), Some(b)) => same_bytes(a, b),
        (None, None) => true,
        _ => false,
    }
}

/// What a retry of the fixed candidate may do, given the current primary.
#[derive(Debug, Clone, Copy, PartialEq, Eq, Structural)]
pub enum RetryAction {
    /// The candidate is already the primary: its commit is uncertain until
    /// the directories are synced.
    SyncCommitted,
    /// The old primary is still current: write the candidate again.
    Rewrite,
    /// A third primary appeared: saving would overwrite someone else's data.
    Conflict,
}

pub fn retry_action(primary: Option<&[u8]>, candidate: &[u8], baseline: Option<&[u8]>) -> (r: RetryAction)
    ensures
        r == if optional_bytes(primary) == Some(candidate@) {
            RetryAction::SyncCommitted
        } else if optional_bytes(primary) == optional_bytes(baseline) {
            RetryAction::Rewrite
        } else {
            RetryAction::Conflict
        },
{
    if primary_matches(primary, Some(candidate)) {
        RetryAction::SyncCommitted
    } else if primary_matches(primary, baseline) {
        RetryAction::Rewrite
    } else {
        RetryAction::Conflict
    }
}

/// What a recovery save does about the original primary before replacing it.
#[derive(Debug, Clone, Copy, PartialEq, Eq, Structural)]
pub enum ArchiveStep {
    /// There was no primary: nothing to archive.
    Skip,
    /// Archive the original primary, then sync the archive.
    Create,
    /// The original primary is already archived: sync the archive again.
    Resync,
    /// The candidate replaced a primary that was never archived: cached bytes
    /// are never archived after the primary changed.
    Conflict,
}

/// The archive step of a recovery save, given whether a primary existed when
/// the backup was offered, whether it is archived, and whether the candidate
/// is already the primary.
pub fn archive_step(original_present: bool, archived: bool, committed: bool) -> (r: ArchiveStep)
    ensures
        r == if !original_present {
            ArchiveStep::Skip
        } else if archived {
            ArchiveStep::Resync
        } else if committed {
            ArchiveStep::Conflict
        } else {
            ArchiveStep::Create
        },
{
    if !original_present {
        ArchiveStep::Skip
    } else if archived {
        ArchiveStep::Resync
    } else if committed {
        ArchiveStep::Conflict
    } else {
        ArchiveStep::Create
    }
}

/// Validated saved data and the exact bytes used as the save baseline.
#[derive(Debug)]
pub struct SavedState {
    state: PersistedStateV1,
    original_bytes: Vec<u8>,
}

impl SavedState {
    pub closed spec fn spec_state(&self) -> PersistedStateV1 {
        self.state
    }

    pub closed spec fn spec_bytes(&self) -> Seq<u8> {
        self.original_bytes@
    }

    pub fn new(state: PersistedStateV1, original_bytes: Vec<u8>) -> (r: Self)
        ensures
            r.spec_state() == state,
            r.spec_bytes() == original_bytes@,
    {
        SavedState { state, original_bytes }
    }

    pub fn state(&self) -> (r: &PersistedStateV1)
        ensures
            *r == self.spec_state(),
    {
        &self.state
    }

    pub fn domain(&self) -> (r: &DomainState)
        ensures
            *r == self.spec_state().domain,
    {
        &self.state.domain
    }

    pub fn save_generation(&self) -> (r: u64)
        ensures
            r == self.spec_state().save_generation,
    {
        self.state.save_generation
    }

    pub fn saved_at(&self) -> (r: Timestamp)
        ensures
            r == self.spec_state().saved_at,
    {
        self.state.saved_at
    }

    pub fn original_bytes(&self) -> (r: &[u8])
        ensures
            r@ == self.spec_bytes(),
    {
        self.original_bytes.as_slice()
    }
}

/// How a decode failure is reported for a file: a missing or unsupported
/// version is `Unsupported`; anything else is `Invalid`, described by the
/// error's message.
pub fn codec_problem(path: PathBuf, error: &CodecError) -> (r: LoadProblem)
    ensures
        match *error {
            CodecError::MissingVersion => r == LoadProblem::Unsupported { path, schema_version: None },
            CodecError::UnsupportedVersion(v) => r == LoadProblem::Unsupported {
                path,
                schema_version: Some(v),
            },
            _ => r matches LoadProblem::Invalid { path: p, detail } && p == path && detail@
                == error.spec_message(),
        },
{
    match error {
        CodecError::MissingVersion => LoadProblem::Unsupported { path, schema_version: None },
        CodecError::UnsupportedVersion(version) => LoadProblem::Unsupported {
            path,
            schema_version: Some(*version),
        },
        _ => LoadProblem::Invalid { path, detail: error.message() },
    }
}

/// What a load does after reading the primary.
#[derive(Debug, Clone, Copy, PartialEq, Eq, Structural)]
pub enum PrimaryStep {
    /// The primary decoded: normal writes are allowed.
    Load,
    /// The primary is unversioned, unsupported or unreadable: stop, without
    /// falling back to a backup.
    Stop,
    /// The primary is missing or corrupt: look at the backup.
    CheckBackup,
}

/// The primary as read: absent, unreadable, decoded, or rejected by the codec.
#[derive(Debug, Clone, Copy, PartialEq, Eq, Structural)]
pub enum PrimaryReading {
    Missing,
    Unreadable,
    Decoded,
    UnsupportedVersion,
    Corrupt,
}

pub fn primary_step(reading: PrimaryReading) -> (r: PrimaryStep)
    ensures
        r == match reading {
            PrimaryReading::Decoded => PrimaryStep::Load,
            PrimaryReading::Unreadable | PrimaryReading::UnsupportedVersion => PrimaryStep::Stop,
            PrimaryReading::Missing | PrimaryReading::Corrupt => PrimaryStep::CheckBackup,
        },
{
    match reading {
        PrimaryReading::Decoded => PrimaryStep::Load,
        PrimaryReading::Unreadable | PrimaryReading::UnsupportedVersion => PrimaryStep::Stop,
        PrimaryReading::Missing | PrimaryReading::Corrupt => PrimaryStep::CheckBackup,
    }
}

/// The backup as read.
#[derive(Debug, Clone, Copy, PartialEq, Eq, Structural)]
pub enum BackupReading {
    Missing,
    Unreadable,
    Decoded,
    Rejected,
}

/// What a load concludes once the primary could not be used.
#[derive(Debug, Clone, Copy, PartialEq, Eq, Structural)]
pub enum BackupStep {
    /// Offer the valid backup for explicit recovery; no normal write permit.
    OfferRecovery,
    /// Fail, reporting both the primary's and the backup's problem.
    FailWithBackup,
    /// Fail on the primary's problem alone: a corrupt primary without backup.
    FailPrimary,
    /// No primary, no backup: list the other entries before initializing.
    CheckRemnants,
}

pub fn backup_step(primary_present: bool, backup: BackupReading) -> (r: BackupStep)
    ensures
        r == match backup {
            BackupReading::Decoded => BackupStep::OfferRecovery,
            BackupReading::Unreadable | BackupReading::Rejected => BackupStep::FailWithBackup,
            BackupReading::Missing => if primary_present {
                BackupStep::FailPrimary
            } else {
                BackupStep::CheckRemnants
            },
        },
{
    match backup {
        BackupReading::Decoded => BackupStep::OfferRecovery,
        BackupReading::Unreadable | BackupReading::Rejected => BackupStep::FailWithBackup,
        BackupReading::Missing => if primary_present {
            BackupStep::FailPrimary
        } else {
            BackupStep::CheckRemnants
        },
    }
}

/// A failed load, retaining both primary and backup diagnostics when applicable.
#[derive(Debug)]
pub struct LoadError {
    primary: LoadProblem,
    backup: Option<Box<LoadProblem>>,
    remnants: Vec<PathBuf>,
}

impl LoadError {
    /// The primary's problem.
    pub closed spec fn spec_primary(&self) -> LoadProblem {
        self.primary
    }

    /// The backup's problem, when the backup was tried and failed.
    pub closed spec fn spec_backup(&self) -> Option<LoadProblem> {
        match self.backup {
            Some(b) => Some(*b),
            None => None,
        }
    }

    /// The entries that keep a missing store from being initialized.
    pub closed spec fn spec_remnants(&self) -> Seq<PathBuf> {
        self.remnants@
    }

    /// A failure of the primary alone.
    pub fn primary(primary: LoadProblem) -> (r: Self)
        ensures
            r.spec_primary() == primary,
            r.spec_backup() is None,
            r.spec_remnants() == Seq::<PathBuf>::empty(),
    {
        LoadError { primary, backup: None, remnants: Vec::new() }
    }

    /// A failure of the primary and of its backup.
    pub fn with_backup(primary: LoadProblem, backup: LoadProblem) -> (r: Self)
        ensures
            r.spec_primary() == primary,
            r.spec_backup() == Some(backup),
            r.spec_remnants() == Seq::<PathBuf>::empty(),
    {
        LoadError { primary, backup: Some(Box::new(backup)), remnants: Vec::new() }
    }

    /// A missing store that cannot be initialized because other entries remain.
    pub fn with_remnants(primary: LoadProblem, remnants: Vec<PathBuf>) -> (r: Self)
        ensures
            r.spec_primary() == primary,
            r.spec_backup() is None,
            r.spec_remnants() == remnants@,
    {
        LoadError { primary, backup: None, remnants }
    }

    pub fn primary_problem(&self) -> (r: &LoadProblem)
        ensures
            *r == self.spec_primary(),
    {
        &self.primary
    }

    pub fn backup_problem(&self) -> (r: Option<&LoadProblem>)
        ensures
            r == match self.spec_backup() {
                Some(b) => Some(&b),
                None => None::<&LoadProblem>,
            },
    {
        match &self.backup {
            Some(b) => Some(&**b),
            None => None,
        }
    }

    pub fn remnants(&self) -> (r: &[PathBuf])
        ensures
            r@ == self.spec_remnants(),
    {
        self.remnants.as_slice()
    }
}

/// Identity of an open file on one volume: the volume serial number and the
/// full 128-bit file ID, never only its low 64 bits.
#[derive(Clone, Copy, Debug, Eq, PartialEq)]
pub struct FileIdentity {
    volume_serial_number: u64,
    file_id: [u8; 16],
}

impl FileIdentity {
    pub fn new(volume_serial_number: u64, file_id: [u8; 16]) -> (r: Self)
        ensures
            r.spec_volume() == volume_serial_number,
            r.spec_file_id() == file_id@,
    {
        FileIdentity { volume_serial_number, file_id }
    }

    pub closed spec fn spec_volume(&self) -> u64 {
        self.volume_serial_number
    }

    pub closed spec fn spec_file_id(&self) -> Seq<u8> {
        self.file_id@
    }

    /// The same file: same volume and all sixteen ID bytes equal.
    pub fn same_file(&self, other: &Self) -> (r: bool)
        ensures
            r == (self.spec_volume() == other.spec_volume() && self.spec_file_id()
                == other.spec_file_id()),
    {
        if self.volume_serial_number != other.volume_serial_number {
            return false;
        }
        let mut i: usize = 0;
        while i < 16
            invariant
                i <= 16,
                self.file_id@.len() == 16,
                other.file_id@.len() == 16,
                forall|k: int| 0 <= k < i ==> self.file_id@[k] == other.file_id@[k],
            decreases 16 - i,
        {
            if self.file_id[i] != other.file_id[i] {
                return false;
            }
            i += 1;
        }
        assert(self.file_id@ =~= other.file_id@);
        true
    }
}

pub const STATE_FILE: &'static str = "state.json";

/// The earlier persistence unit: a deadline timer and its daily history.
#[derive(Debug, Clone, PartialEq, Eq)]
pub struct PersistedState {
    pub timer: PomodoroTimer,
    pub history: History,
}

#[derive(Debug)]
pub enum StorageError {
    NoBaseDirectory,
    InvalidStoragePath,
    Io(std::io::Error),
    InvalidJson(serde_json::Error),
    InvalidTimer(TimerError),
    InvalidHistory(HistoryError),
}

impl PersistedState {
    /// An idle Focus timer with an empty history.
    pub fn new(config: TimerConfig) -> (r: Result<Self, StorageError>)
        ensures
            match r {
                Ok(s) => config.validation() is Ok && s.timer@.config == config
                    && s.history@.days.len() == 0,
                Err(e) => config.validation() is Err && (e matches StorageError::InvalidTimer(
                    TimerError::InvalidConfig(c),
                ) && config.validation() == Err::<(), crate::config::ConfigError>(c)),
            },
    {
        match PomodoroTimer::new(config) {
            Ok(timer) => Ok(PersistedState { timer, history: History::new() }),
            Err(e) => Err(StorageError::InvalidTimer(e)),
        }
    }

    /// Validates the timer, then the history.
    pub fn validate(&self) -> (r: Result<(), StorageError>)
        ensures
            r is Ok <==> (crate::legacy::timer::timer_validation(self.timer@) is Ok
                && self.history.validate_ok()),
    {
        if let Err(e) = self.timer.validate() {
            return Err(StorageError::InvalidTimer(e));
        }
        match self.history.validate() {
            Ok(()) => Ok(()),
            Err(e) => Err(StorageError::InvalidHistory(e)),
        }
    }
}

/// JSON storage of the earlier unit at one file path.
#[derive(Debug, PartialEq, Eq)]
pub struct NativeStorage {
    state_path: PathBuf,
}

impl Clone for NativeStorage {
    fn clone(&self) -> (r: Self)
        ensures
            r == *self,
    {
        NativeStorage { state_path: clone_path(&self.state_path) }
    }
}

impl NativeStorage {
    /// The file this storage reads and writes.
    pub closed spec fn spec_state_path(&self) -> PathBuf {
        self.state_path
    }

    /// Storage at exactly this file path; nothing is read or created.
    pub fn at(state_path: PathBuf) -> (r: Self)
        ensures
            r.spec_state_path() == state_path,
    {
        NativeStorage { state_path }
    }

    /// The file path given to `at`.
    pub fn state_path(&self) -> (r: &PathBuf)
        ensures
            *r == self.spec_state_path(),
    {
        &self.state_path
    }
}


/// Why no save candidate could be formed.
#[derive(Debug)]
pub enum CandidateError {
    GenerationExhausted,
    Rejected(crate::model::DomainError),
}

/// The candidate of a normal save: the next generation after the baseline,
/// carrying a copy of the domain unit and the save time.
pub fn save_candidate(baseline_generation: Option<u64>, domain: &DomainState, saved_at: Timestamp) -> (r: Result<
    PersistedStateV1,
    SaveError,
>)
    ensures
        match r {
            Ok(s) => s.domain@ == domain@ && s.saved_at == saved_at && s.save_generation == match baseline_generation {
                Some(g) => (g + 1) as u64,
                None => 1u64,
            } && baseline_generation != Some(u64::MAX),
            Err(e) => baseline_generation == Some(u64::MAX) && e is GenerationExhausted,
        },
{
    let save_generation = match next_generation(baseline_generation) {
        Ok(g) => g,
        Err(e) => {
            return Err(e);
        },
    };
    Ok(PersistedStateV1 { save_generation, saved_at, domain: domain.copy() })
}

/// The candidate of a confirmed recovery: the backup's unit after one
/// `RestoreApp` at `restored_at`, saved at that time as the next generation.
pub fn restored_candidate(backup: &PersistedStateV1, restored_at: Timestamp) -> (r: Result<
    PersistedStateV1,
    CandidateError,
>)
    ensures
        match r {
            Ok(s) => backup.save_generation < u64::MAX && s.save_generation == backup.save_generation
                + 1 && s.saved_at == restored_at && backup.domain.snapshot.settings.is_valid()
                && backup.domain@.apply(crate::transition::Command::RestoreApp, restored_at) == Ok::<
                crate::transition::DomainModel,
                crate::model::DomainError,
            >(s.domain@),
            Err(CandidateError::GenerationExhausted) => backup.save_generation == u64::MAX,
            Err(CandidateError::Rejected(e)) => backup.save_generation < u64::MAX && (
            !backup.domain.snapshot.settings.is_valid() || backup.domain@.apply(
                crate::transition::Command::RestoreApp,
                restored_at,
            ) == Err::<crate::transition::DomainModel, crate::model::DomainError>(e)),
        },
{
    if backup.save_generation == u64::MAX {
        return Err(CandidateError::GenerationExhausted);
    }
    let save_generation = backup.save_generation + 1;
    let mut domain = backup.domain.copy();
    proof {
        domain.snapshot.settings.lemma_validation_ok_iff_valid();
    }
    if let Err(c) = domain.snapshot.settings.validate() {
        return Err(CandidateError::Rejected(crate::model::DomainError::InvalidConfig(c)));
    }
    match domain.apply(crate::transition::Command::RestoreApp, restored_at) {
        Ok(()) => Ok(PersistedStateV1 { save_generation, saved_at: restored_at, domain }),
        Err(e) => Err(CandidateError::Rejected(e)),
    }
}

} // verus!
