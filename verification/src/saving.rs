//! The protocol of a normal save and of a retry of its fixed candidate: which
//! file to check, write or sync next, given what the last step found. The
//! caller performs each action and reports what happened.

use vstd::prelude::*;

use crate::recovery::optional_vec;
use crate::storage::{optional_bytes, primary_matches, retry_action, RetryAction};

verus! {

fn as_bytes(bytes: &Option<Vec<u8>>) -> (r: Option<&[u8]>)
    ensures
        optional_bytes(r) == optional_vec(*bytes),
{
    match bytes {
        Some(b) => Some(b.as_slice()),
        None => None,
    }
}

/// A new save of a fresh candidate, or a retry of the pending one.
#[derive(Debug, Clone, Copy, PartialEq, Eq, Structural)]
pub enum SaveRequest {
    Save,
    Retry,
}

/// Where a save stands, by the report it waits for.
#[derive(Debug, Clone, Copy, PartialEq, Eq, Structural)]
pub enum SavePhase {
    Start(SaveRequest),
    /// The primary is being compared with what this handle last saw.
    CheckingPrimary(SaveRequest),
    /// A store never saved is checked for entries it does not own.
    CheckingRemnants(SaveRequest),
    /// The fresh candidate is being formed and fixed as pending.
    FormingCandidate,
    /// The storage directories are being synced; `committed` says whether the
    /// candidate is already the primary.
    SyncingAncestry { committed: bool },
    /// Leftover temporary files of this candidate are being removed.
    CleaningTemporaries,
    /// The backup is being replaced with the bytes this handle last saw.
    ReplacingBackup,
    /// The primary is being replaced with the candidate.
    ReplacingPrimary,
    /// The primary's directory is being synced.
    SyncingPrimaryDirectory,
    Done,
}

/// What the caller found after the last action.
pub enum SaveEvent {
    Started,
    PrimaryRead(Option<Vec<u8>>),
    /// Whether every remaining entry is a temporary file of this candidate.
    RemnantsChecked(bool),
    CandidateFormed,
    AncestrySynced,
    TemporariesCleaned,
    BackupReplaced,
    PrimaryReplaced,
    DirectorySynced,
}

/// What the caller does next.
#[derive(Debug, Clone, Copy, PartialEq, Eq, Structural)]
pub enum SaveAction {
    /// A candidate is already pending: normal saves are blocked.
    RejectPending,
    /// There is no pending candidate to retry.
    RejectNoPending,
    ReadPrimary,
    CheckRemnants,
    FormCandidate,
    SyncAncestry,
    CleanTemporaries,
    /// Replace the backup with the bytes this handle last saw as the primary.
    ReplaceBackup,
    /// Replace the primary with the candidate.
    ReplacePrimary,
    SyncPrimaryDirectory,
    /// The candidate is durable: it becomes the baseline.
    Commit,
    /// The primary is neither what this handle last saw nor the candidate.
    PrimaryConflict,
    /// A never-saved store holds an entry this handle does not own.
    RemnantConflict,
}

/// The report each phase waits for.
pub open spec fn save_awaits(phase: SavePhase, event: SaveEvent) -> bool {
    match phase {
        SavePhase::Start(_) => event is Started,
        SavePhase::CheckingPrimary(_) => event is PrimaryRead,
        SavePhase::CheckingRemnants(_) => event is RemnantsChecked,
        SavePhase::FormingCandidate => event is CandidateFormed,
        SavePhase::SyncingAncestry { .. } => event is AncestrySynced,
        SavePhase::CleaningTemporaries => event is TemporariesCleaned,
        SavePhase::ReplacingBackup => event is BackupReplaced,
        SavePhase::ReplacingPrimary => event is PrimaryReplaced,
        SavePhase::SyncingPrimaryDirectory => event is DirectorySynced,
        SavePhase::Done => false,
    }
}

/// After the primary and remnant checks of an uncommitted candidate: sync,
/// clear the uncertainty that a matching old primary disproves.
pub open spec fn begin_write(uncertainty: Option<bool>) -> (SavePhase, SaveAction, Option<bool>) {
    (SavePhase::SyncingAncestry { committed: false }, SaveAction::SyncAncestry, uncertainty)
}

/// One step of a save or retry: the next phase, the next action, and the new
/// commit uncertainty of the pending candidate, if it changes.
///
/// A save is refused while a candidate is pending, and a retry without one.
/// The primary must be what this handle last saw (a retry also accepts the
/// candidate itself, which only needs syncing and makes the commit
/// uncertain); a never-saved store must hold no foreign entry. Only then are
/// files written: the backup, with the old primary's bytes, before the
/// primary. The candidate is committed only after the primary was replaced or
/// its directory synced.
pub fn save_step(
    phase: SavePhase,
    event: SaveEvent,
    pending: Option<&[u8]>,
    baseline: Option<&[u8]>,
) -> (r: (SavePhase, SaveAction, Option<bool>))
    requires
        save_awaits(phase, event),
    ensures
        r.0 is Done <==> (r.1 is Commit || r.1 is RejectPending || r.1 is RejectNoPending
            || r.1 is PrimaryConflict || r.1 is RemnantConflict),
        match (phase, event) {
            (SavePhase::Start(SaveRequest::Save), _) => if pending is Some {
                r.1 is RejectPending && r.2 is None
            } else {
                r.0 == SavePhase::CheckingPrimary(SaveRequest::Save) && r.1 is ReadPrimary && r.2 is None
            },
            (SavePhase::Start(SaveRequest::Retry), _) => if pending is None {
                r.1 is RejectNoPending && r.2 is None
            } else {
                r.0 == SavePhase::CheckingPrimary(SaveRequest::Retry) && r.1 is ReadPrimary && r.2 is None
            },
            (SavePhase::CheckingPrimary(SaveRequest::Save), SaveEvent::PrimaryRead(p)) => r.2 is None && if optional_vec(p)
                != optional_bytes(baseline) {
                r.1 is PrimaryConflict
            } else if baseline is None {
                r.0 == SavePhase::CheckingRemnants(SaveRequest::Save) && r.1 is CheckRemnants
            } else {
                r.0 == SavePhase::FormingCandidate && r.1 is FormCandidate
            },
            (SavePhase::CheckingPrimary(SaveRequest::Retry), SaveEvent::PrimaryRead(p)) => if pending is Some
                && optional_vec(p) == optional_bytes(pending) {
                r == (SavePhase::SyncingAncestry { committed: true }, SaveAction::SyncAncestry, Some(true))
            } else if optional_vec(p) != optional_bytes(baseline) {
                r.1 is PrimaryConflict && r.2 is None
            } else if baseline is None {
                r == (SavePhase::CheckingRemnants(SaveRequest::Retry), SaveAction::CheckRemnants, None::<bool>)
            } else {
                r == begin_write(Some(false))
            },
            (SavePhase::CheckingRemnants(request), SaveEvent::RemnantsChecked(clean)) => if !clean {
                r.1 is RemnantConflict && r.2 is None
            } else if request is Save {
                r == (SavePhase::FormingCandidate, SaveAction::FormCandidate, None::<bool>)
            } else {
                r == begin_write(Some(false))
            },
            (SavePhase::FormingCandidate, _) => r == begin_write(None),
            (SavePhase::SyncingAncestry { committed }, _) => r.2 is None && if committed {
                r.0 == SavePhase::SyncingPrimaryDirectory && r.1 is SyncPrimaryDirectory
            } else {
                r.0 == SavePhase::CleaningTemporaries && r.1 is CleanTemporaries
            },
            (SavePhase::CleaningTemporaries, _) => r.2 is None && if baseline is Some {
                r.0 == SavePhase::ReplacingBackup && r.1 is ReplaceBackup
            } else {
                r.0 == SavePhase::ReplacingPrimary && r.1 is ReplacePrimary
            },
            (SavePhase::ReplacingBackup, _) => r == (SavePhase::ReplacingPrimary, SaveAction::ReplacePrimary, None::<bool>),
            (SavePhase::ReplacingPrimary, _) => r == (SavePhase::Done, SaveAction::Commit, None::<bool>),
            (SavePhase::SyncingPrimaryDirectory, _) => r == (SavePhase::Done, SaveAction::Commit, None::<bool>),
            _ => true,
        },
{
    match (phase, event) {
        (SavePhase::Start(SaveRequest::Save), _) => if pending.is_some() {
            (SavePhase::Done, SaveAction::RejectPending, None)
        } else {
            (SavePhase::CheckingPrimary(SaveRequest::Save), SaveAction::ReadPrimary, None)
        },
        (SavePhase::Start(SaveRequest::Retry), _) => if pending.is_none() {
            (SavePhase::Done, SaveAction::RejectNoPending, None)
        } else {
            (SavePhase::CheckingPrimary(SaveRequest::Retry), SaveAction::ReadPrimary, None)
        },
        (SavePhase::CheckingPrimary(SaveRequest::Save), SaveEvent::PrimaryRead(p)) => {
            if !primary_matches(as_bytes(&p), baseline) {
                (SavePhase::Done, SaveAction::PrimaryConflict, None)
            } else if baseline.is_none() {
                (SavePhase::CheckingRemnants(SaveRequest::Save), SaveAction::CheckRemnants, None)
            } else {
                (SavePhase::FormingCandidate, SaveAction::FormCandidate, None)
            }
        },
        (SavePhase::CheckingPrimary(SaveRequest::Retry), SaveEvent::PrimaryRead(p)) => {
            let committed = match pending {
                Some(candidate) => primary_matches(as_bytes(&p), Some(candidate)),
                None => false,
            };
            if committed {
                (SavePhase::SyncingAncestry { committed: true }, SaveAction::SyncAncestry, Some(true))
            } else if !primary_matches(as_bytes(&p), baseline) {
                (SavePhase::Done, SaveAction::PrimaryConflict, None)
            } else if baseline.is_none() {
                (SavePhase::CheckingRemnants(SaveRequest::Retry), SaveAction::CheckRemnants, None)
            } else {
                (SavePhase::SyncingAncestry { committed: false }, SaveAction::SyncAncestry, Some(false))
            }
        },
        (SavePhase::CheckingRemnants(request), SaveEvent::RemnantsChecked(clean)) => {
            if !clean {
                (SavePhase::Done, SaveAction::RemnantConflict, None)
            } else {
                match request {
                    SaveRequest::Save => (SavePhase::FormingCandidate, SaveAction::FormCandidate, None),
                    SaveRequest::Retry => (
                        SavePhase::SyncingAncestry { committed: false },
                        SaveAction::SyncAncestry,
                        Some(false),
                    ),
                }
            }
        },
        (SavePhase::FormingCandidate, _) => (
            SavePhase::SyncingAncestry { committed: false },
            SaveAction::SyncAncestry,
            None,
        ),
        (SavePhase::SyncingAncestry { committed }, _) => if committed {
            (SavePhase::SyncingPrimaryDirectory, SaveAction::SyncPrimaryDirectory, None)
        } else {
            (SavePhase::CleaningTemporaries, SaveAction::CleanTemporaries, None)
        },
        (SavePhase::CleaningTemporaries, _) => if baseline.is_some() {
            (SavePhase::ReplacingBackup, SaveAction::ReplaceBackup, None)
        } else {
            (SavePhase::ReplacingPrimary, SaveAction::ReplacePrimary, None)
        },
        (SavePhase::ReplacingBackup, _) => (SavePhase::ReplacingPrimary, SaveAction::ReplacePrimary, None),
        (SavePhase::ReplacingPrimary, _) => (SavePhase::Done, SaveAction::Commit, None),
        (SavePhase::SyncingPrimaryDirectory, _) => (SavePhase::Done, SaveAction::Commit, None),
        (_, _) => (SavePhase::Done, SaveAction::PrimaryConflict, None),
    }
}

} // verus!
