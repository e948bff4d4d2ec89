//! The protocol of one attempt to save a restored candidate over the primary:
//! which file to read, check, archive, sync or replace next, given what the
//! last step found. The caller performs each action and reports what happened.

use vstd::prelude::*;

use crate::storage::{archive_step, optional_bytes, primary_matches, retry_action, ArchiveStep, RetryAction};

verus! {

/// The bytes of an optional file as read.
pub open spec fn optional_vec(bytes: Option<Vec<u8>>) -> Option<Seq<u8>> {
    match bytes {
        Some(b) => Some(b@),
        None => None,
    }
}

fn copy_bytes(bytes: &[u8]) -> (r: Vec<u8>)
    ensures
        r@ == bytes@,
{
    let mut out: Vec<u8> = Vec::new();
    let mut i: usize = 0;
    while i < bytes.len()
        invariant
            i <= bytes@.len(),
            out@ == bytes@.subrange(0, i as int),
        decreases bytes.len() - i,
    {
        out.push(bytes[i]);
        i += 1;
    }
    assert(bytes@.subrange(0, bytes@.len() as int) =~= bytes@);
    out
}

fn as_bytes(bytes: &Option<Vec<u8>>) -> (r: Option<&[u8]>)
    ensures
        optional_bytes(r) == optional_vec(*bytes),
{
    match bytes {
        Some(b) => Some(b.as_slice()),
        None => None,
    }
}

/// Where an attempt stands. `primary` is the primary as first read, and
/// `committed` says whether it already held the candidate.
pub enum RecoveryStage {
    /// Nothing done yet.
    Start,
    /// The primary is being read.
    ReadingPrimary,
    /// The backup is being compared with the offered backup.
    CheckingBackup { primary: Option<Vec<u8>>, committed: bool },
    /// Both sources matched; the storage directories are being synced.
    SyncingAncestry { primary: Option<Vec<u8>>, committed: bool },
    /// The original primary is being archived, or its archive synced.
    Archiving { primary: Option<Vec<u8>>, committed: bool },
    /// The backup is being compared again after archiving.
    RecheckingBackup { primary: Option<Vec<u8>>, committed: bool },
    /// The primary is being read again before the final step.
    RecheckingPrimary { primary: Option<Vec<u8>>, committed: bool },
    /// The final sync or replacement is under way.
    Finishing,
    /// The attempt is over.
    Done,
}

/// What the caller found after the last action.
pub enum RecoveryEvent {
    Started,
    PrimaryRead(Option<Vec<u8>>),
    BackupRead(Option<Vec<u8>>),
    AncestrySynced,
    ArchiveSynced,
    Finished,
}

/// What the caller does next. No action writes the backup.
#[derive(Debug, PartialEq, Eq)]
pub enum RecoveryAction {
    ReadPrimary,
    ReadBackup,
    SyncAncestry,
    /// Archive these bytes, the original primary, beside the primary; then sync the archive.
    CreateArchive(Vec<u8>),
    /// Sync the existing archive of the original primary.
    SyncArchive,
    /// The candidate is already the primary: sync the primary's directory.
    SyncPrimaryDirectory,
    /// Atomically replace the primary with the candidate.
    ReplacePrimary,
    Succeed,
    /// The primary holds neither the candidate nor the original, or changed.
    PrimaryConflict,
    /// The backup is not the offered backup.
    BackupConflict,
}

/// The event each stage waits for.
pub open spec fn awaits(stage: RecoveryStage, event: RecoveryEvent) -> bool {
    match stage {
        RecoveryStage::Start => event is Started,
        RecoveryStage::ReadingPrimary => event is PrimaryRead,
        RecoveryStage::CheckingBackup { .. } => event is BackupRead,
        RecoveryStage::SyncingAncestry { .. } => event is AncestrySynced,
        RecoveryStage::Archiving { .. } => event is ArchiveSynced,
        RecoveryStage::RecheckingBackup { .. } => event is BackupRead,
        RecoveryStage::RecheckingPrimary { .. } => event is PrimaryRead,
        RecoveryStage::Finishing => event is Finished,
        RecoveryStage::Done => false,
    }
}

/// What a stage's first reading must be: the candidate exactly when
/// `committed`, otherwise the original primary.
pub open spec fn reading_ok(
    primary: Option<Vec<u8>>,
    committed: bool,
    candidate: Seq<u8>,
    original: Option<Seq<u8>>,
) -> bool {
    &&& committed == (optional_vec(primary) == Some(candidate))
    &&& !committed ==> optional_vec(primary) == original
}

/// What every stage of an attempt keeps about the primary it first read.
pub open spec fn stage_ok(stage: RecoveryStage, candidate: Seq<u8>, original: Option<Seq<u8>>) -> bool {
    match stage {
        RecoveryStage::CheckingBackup { primary, committed } => reading_ok(primary, committed, candidate, original),
        RecoveryStage::SyncingAncestry { primary, committed } => reading_ok(primary, committed, candidate, original),
        RecoveryStage::Archiving { primary, committed } => reading_ok(primary, committed, candidate, original),
        RecoveryStage::RecheckingBackup { primary, committed } => reading_ok(primary, committed, candidate, original),
        RecoveryStage::RecheckingPrimary { primary, committed } => reading_ok(primary, committed, candidate, original),
        _ => true,
    }
}

/// One step of a recovery save attempt: the next stage, the next action, and
/// the new commit uncertainty of the candidate, if it changes.
///
/// A primary that holds the candidate makes the commit uncertain; one that
/// holds the original makes it certain only once the backup matched. The
/// backup is compared before anything is written and again after archiving;
/// the primary is archived only as the original's bytes, never after it
/// changed; it is replaced only while it still holds the original, and a
/// candidate already in place is only synced.
pub fn recovery_step(
    stage: RecoveryStage,
    event: RecoveryEvent,
    candidate: &[u8],
    original: Option<&[u8]>,
    backup: &[u8],
    archived: bool,
) -> (r: (RecoveryStage, RecoveryAction, Option<bool>))
    requires
        awaits(stage, event),
        stage_ok(stage, candidate@, optional_bytes(original)),
    ensures
        stage_ok(r.0, candidate@, optional_bytes(original)),
        r.0 is Done <==> (r.1 is Succeed || r.1 is PrimaryConflict || r.1 is BackupConflict),
        match (stage, event) {
            (RecoveryStage::Start, _) => r.0 is ReadingPrimary && r.1 is ReadPrimary && r.2 is None,
            (RecoveryStage::ReadingPrimary, RecoveryEvent::PrimaryRead(p)) => if optional_vec(p)
                == Some(candidate@) {
                r.0 == (RecoveryStage::CheckingBackup { primary: p, committed: true }) && r.1 is ReadBackup
                    && r.2 == Some(true)
            } else if optional_vec(p) == optional_bytes(original) {
                r.0 == (RecoveryStage::CheckingBackup { primary: p, committed: false }) && r.1 is ReadBackup
                    && r.2 is None
            } else {
                r.1 is PrimaryConflict && r.2 is None
            },
            (RecoveryStage::CheckingBackup { primary, committed }, RecoveryEvent::BackupRead(b)) => if optional_vec(b)
                == Some(backup@) {
                r.0 == (RecoveryStage::SyncingAncestry { primary, committed }) && r.1 is SyncAncestry
                    && r.2 == (if committed { None } else { Some(false) })
            } else {
                r.1 is BackupConflict && r.2 is None
            },
            (RecoveryStage::SyncingAncestry { primary, committed }, _) => r.2 is None && if original is None {
                r.0 == (RecoveryStage::RecheckingBackup { primary, committed }) && r.1 is ReadBackup
            } else if archived {
                r.0 == (RecoveryStage::Archiving { primary, committed }) && r.1 is SyncArchive
            } else if committed {
                r.1 is PrimaryConflict
            } else {
                r.0 == (RecoveryStage::Archiving { primary, committed }) && (r.1 matches RecoveryAction::CreateArchive(bytes) && Some(bytes@) == optional_bytes(original))
            },
            (RecoveryStage::Archiving { primary, committed }, _) => r.0 == (RecoveryStage::RecheckingBackup {
                primary,
                committed,
            }) && r.1 is ReadBackup && r.2 is None,
            (RecoveryStage::RecheckingBackup { primary, committed }, RecoveryEvent::BackupRead(b)) => r.2 is None && if optional_vec(b)
                == Some(backup@) {
                r.0 == (RecoveryStage::RecheckingPrimary { primary, committed }) && r.1 is ReadPrimary
            } else {
                r.1 is BackupConflict
            },
            (RecoveryStage::RecheckingPrimary { primary, committed }, RecoveryEvent::PrimaryRead(q)) => r.2 is None && if optional_vec(q)
                != optional_vec(primary) {
                r.1 is PrimaryConflict
            } else if committed {
                r.0 is Finishing && r.1 is SyncPrimaryDirectory
            } else {
                r.0 is Finishing && r.1 is ReplacePrimary && optional_vec(q) == optional_bytes(original)
            },
            (RecoveryStage::Finishing, _) => r.1 is Succeed && r.2 is None,
            _ => true,
        },
{
    match (stage, event) {
        (RecoveryStage::Start, _) => (RecoveryStage::ReadingPrimary, RecoveryAction::ReadPrimary, None),
        (RecoveryStage::ReadingPrimary, RecoveryEvent::PrimaryRead(p)) => {
            match retry_action(as_bytes(&p), candidate, original) {
                RetryAction::SyncCommitted => (
                    RecoveryStage::CheckingBackup { primary: p, committed: true },
                    RecoveryAction::ReadBackup,
                    Some(true),
                ),
                RetryAction::Rewrite => (
                    RecoveryStage::CheckingBackup { primary: p, committed: false },
                    RecoveryAction::ReadBackup,
                    None,
                ),
                RetryAction::Conflict => (RecoveryStage::Done, RecoveryAction::PrimaryConflict, None),
            }
        },
        (RecoveryStage::CheckingBackup { primary, committed }, RecoveryEvent::BackupRead(b)) => {
            if primary_matches(as_bytes(&b), Some(backup)) {
                (
                    RecoveryStage::SyncingAncestry { primary, committed },
                    RecoveryAction::SyncAncestry,
                    if committed { None } else { Some(false) },
                )
            } else {
                (RecoveryStage::Done, RecoveryAction::BackupConflict, None)
            }
        },
        (RecoveryStage::SyncingAncestry { primary, committed }, _) => {
            match archive_step(original.is_some(), archived, committed) {
                ArchiveStep::Skip => (
                    RecoveryStage::RecheckingBackup { primary, committed },
                    RecoveryAction::ReadBackup,
                    None,
                ),
                ArchiveStep::Resync => (
                    RecoveryStage::Archiving { primary, committed },
                    RecoveryAction::SyncArchive,
                    None,
                ),
                ArchiveStep::Conflict => (RecoveryStage::Done, RecoveryAction::PrimaryConflict, None),
                ArchiveStep::Create => {
                    let bytes = match original {
                        Some(o) => copy_bytes(o),
                        None => Vec::new(),
                    };
                    (
                        RecoveryStage::Archiving { primary, committed },
                        RecoveryAction::CreateArchive(bytes),
                        None,
                    )
                },
            }
        },
        (RecoveryStage::Archiving { primary, committed }, _) => (
            RecoveryStage::RecheckingBackup { primary, committed },
            RecoveryAction::ReadBackup,
            None,
        ),
        (RecoveryStage::RecheckingBackup { primary, committed }, RecoveryEvent::BackupRead(b)) => {
            if primary_matches(as_bytes(&b), Some(backup)) {
                (RecoveryStage::RecheckingPrimary { primary, committed }, RecoveryAction::ReadPrimary, None)
            } else {
                (RecoveryStage::Done, RecoveryAction::BackupConflict, None)
            }
        },
        (RecoveryStage::RecheckingPrimary { primary, committed }, RecoveryEvent::PrimaryRead(q)) => {
            if !primary_matches(as_bytes(&q), as_bytes(&primary)) {
                (RecoveryStage::Done, RecoveryAction::PrimaryConflict, None)
            } else if committed {
                (RecoveryStage::Finishing, RecoveryAction::SyncPrimaryDirectory, None)
            } else {
                (RecoveryStage::Finishing, RecoveryAction::ReplacePrimary, None)
            }
        },
        (RecoveryStage::Finishing, _) => (RecoveryStage::Done, RecoveryAction::Succeed, None),
        (_, _) => (RecoveryStage::Done, RecoveryAction::PrimaryConflict, None),
    }
}

} // verus!
