use pomodoro::recovery::{recovery_step, RecoveryAction, RecoveryEvent, RecoveryStage};
use pomodoro::saving::{save_step, SaveAction, SaveEvent, SavePhase, SaveRequest};

fn run_recovery(
    reads: &mut Vec<RecoveryEvent>,
    candidate: &[u8],
    original: Option<&[u8]>,
    backup: &[u8],
    archived: bool,
) -> (Vec<RecoveryAction>, Option<bool>) {
    let mut stage = RecoveryStage::Start;
    let mut event = RecoveryEvent::Started;
    let mut actions = Vec::new();
    let mut uncertain = None;
    loop {
        let (next, action, change) = recovery_step(stage, event, candidate, original, backup, archived);
        if change.is_some() {
            uncertain = change;
        }
        stage = next;
        let done = matches!(
            action,
            RecoveryAction::Succeed | RecoveryAction::PrimaryConflict | RecoveryAction::BackupConflict
        );
        event = match &action {
            RecoveryAction::ReadPrimary | RecoveryAction::ReadBackup => reads.remove(0),
            RecoveryAction::SyncAncestry => RecoveryEvent::AncestrySynced,
            RecoveryAction::CreateArchive(_) | RecoveryAction::SyncArchive => RecoveryEvent::ArchiveSynced,
            _ => RecoveryEvent::Finished,
        };
        actions.push(action);
        if done {
            return (actions, uncertain);
        }
    }
}

#[test]
fn recovery_archives_the_original_then_rechecks_both_sources_before_replacing() {
    let mut reads = vec![
        RecoveryEvent::PrimaryRead(Some(b"old".to_vec())),
        RecoveryEvent::BackupRead(Some(b"bak".to_vec())),
        RecoveryEvent::BackupRead(Some(b"bak".to_vec())),
        RecoveryEvent::PrimaryRead(Some(b"old".to_vec())),
    ];
    let (actions, uncertain) = run_recovery(&mut reads, b"new", Some(b"old"), b"bak", false);
    assert_eq!(
        actions,
        vec![
            RecoveryAction::ReadPrimary,
            RecoveryAction::ReadBackup,
            RecoveryAction::SyncAncestry,
            RecoveryAction::CreateArchive(b"old".to_vec()),
            RecoveryAction::ReadBackup,
            RecoveryAction::ReadPrimary,
            RecoveryAction::ReplacePrimary,
            RecoveryAction::Succeed,
        ]
    );
    assert_eq!(uncertain, Some(false));
}

#[test]
fn recovery_stops_on_a_changed_backup_or_primary_and_only_syncs_a_written_candidate() {
    let mut reads = vec![
        RecoveryEvent::PrimaryRead(Some(b"old".to_vec())),
        RecoveryEvent::BackupRead(Some(b"other".to_vec())),
    ];
    let (actions, _) = run_recovery(&mut reads, b"new", Some(b"old"), b"bak", false);
    assert_eq!(actions.last(), Some(&RecoveryAction::BackupConflict));

    let mut reads = vec![RecoveryEvent::PrimaryRead(Some(b"third".to_vec()))];
    let (actions, _) = run_recovery(&mut reads, b"new", Some(b"old"), b"bak", false);
    assert_eq!(actions, vec![RecoveryAction::ReadPrimary, RecoveryAction::PrimaryConflict]);

    let mut reads = vec![
        RecoveryEvent::PrimaryRead(Some(b"new".to_vec())),
        RecoveryEvent::BackupRead(Some(b"bak".to_vec())),
        RecoveryEvent::BackupRead(Some(b"bak".to_vec())),
        RecoveryEvent::PrimaryRead(Some(b"new".to_vec())),
    ];
    let (actions, uncertain) = run_recovery(&mut reads, b"new", Some(b"old"), b"bak", true);
    assert!(actions.contains(&RecoveryAction::SyncArchive));
    assert_eq!(actions[actions.len() - 2], RecoveryAction::SyncPrimaryDirectory);
    assert_eq!(uncertain, Some(true));

    let mut reads = vec![
        RecoveryEvent::PrimaryRead(Some(b"new".to_vec())),
        RecoveryEvent::BackupRead(Some(b"bak".to_vec())),
    ];
    let (actions, _) = run_recovery(&mut reads, b"new", Some(b"old"), b"bak", false);
    assert_eq!(actions.last(), Some(&RecoveryAction::PrimaryConflict));
}

fn run_save(
    request: SaveRequest,
    reads: &mut Vec<SaveEvent>,
    pending: Option<&[u8]>,
    baseline: Option<&[u8]>,
) -> (Vec<SaveAction>, Option<bool>) {
    let mut phase = SavePhase::Start(request);
    let mut event = SaveEvent::Started;
    let mut actions = Vec::new();
    let mut uncertain = None;
    loop {
        let (next, action, change) = save_step(phase, event, pending, baseline);
        if change.is_some() {
            uncertain = change;
        }
        phase = next;
        actions.push(action);
        event = match action {
            SaveAction::ReadPrimary | SaveAction::CheckRemnants => reads.remove(0),
            SaveAction::FormCandidate => SaveEvent::CandidateFormed,
            SaveAction::SyncAncestry => SaveEvent::AncestrySynced,
            SaveAction::CleanTemporaries => SaveEvent::TemporariesCleaned,
            SaveAction::ReplaceBackup => SaveEvent::BackupReplaced,
            SaveAction::ReplacePrimary => SaveEvent::PrimaryReplaced,
            SaveAction::SyncPrimaryDirectory => SaveEvent::DirectorySynced,
            _ => return (actions, uncertain),
        };
    }
}

#[test]
fn a_save_checks_the_primary_then_writes_the_backup_before_the_primary() {
    let mut reads = vec![SaveEvent::PrimaryRead(Some(b"old".to_vec()))];
    let (actions, _) = run_save(SaveRequest::Save, &mut reads, None, Some(b"old"));
    assert_eq!(
        actions,
        vec![
            SaveAction::ReadPrimary,
            SaveAction::FormCandidate,
            SaveAction::SyncAncestry,
            SaveAction::CleanTemporaries,
            SaveAction::ReplaceBackup,
            SaveAction::ReplacePrimary,
            SaveAction::Commit,
        ]
    );
    let (actions, _) = run_save(SaveRequest::Save, &mut vec![], Some(b"new"), Some(b"old"));
    assert_eq!(actions, vec![SaveAction::RejectPending]);
    let mut reads = vec![SaveEvent::PrimaryRead(Some(b"other".to_vec()))];
    let (actions, _) = run_save(SaveRequest::Save, &mut reads, None, Some(b"old"));
    assert_eq!(actions, vec![SaveAction::ReadPrimary, SaveAction::PrimaryConflict]);
    let mut reads = vec![SaveEvent::PrimaryRead(None), SaveEvent::RemnantsChecked(false)];
    let (actions, _) = run_save(SaveRequest::Save, &mut reads, None, None);
    assert_eq!(actions.last(), Some(&SaveAction::RemnantConflict));
}

#[test]
fn a_retry_syncs_a_written_candidate_and_rewrites_over_the_old_primary() {
    let mut reads = vec![SaveEvent::PrimaryRead(Some(b"new".to_vec()))];
    let (actions, uncertain) = run_save(SaveRequest::Retry, &mut reads, Some(b"new"), Some(b"old"));
    assert_eq!(
        actions,
        vec![
            SaveAction::ReadPrimary,
            SaveAction::SyncAncestry,
            SaveAction::SyncPrimaryDirectory,
            SaveAction::Commit,
        ]
    );
    assert_eq!(uncertain, Some(true));
    let mut reads = vec![SaveEvent::PrimaryRead(Some(b"old".to_vec()))];
    let (actions, uncertain) = run_save(SaveRequest::Retry, &mut reads, Some(b"new"), Some(b"old"));
    assert!(actions.contains(&SaveAction::ReplaceBackup));
    assert_eq!(uncertain, Some(false));
    let (actions, _) = run_save(SaveRequest::Retry, &mut vec![], None, Some(b"old"));
    assert_eq!(actions, vec![SaveAction::RejectNoPending]);
}

const VALID: &[u8] = b"saved primary bytes";
const CANDIDATE: &[u8] = b"pending candidate bytes";

fn writes(actions: &[SaveAction]) -> Vec<SaveAction> {
    actions
        .iter()
        .copied()
        .filter(|a| {
            matches!(
                a,
                SaveAction::CleanTemporaries | SaveAction::ReplaceBackup | SaveAction::ReplacePrimary
            )
        })
        .collect()
}

#[test]
fn retry_confirms_an_uncertain_candidate_without_rewriting_files() {
    let mut reads = vec![SaveEvent::PrimaryRead(Some(CANDIDATE.to_vec()))];
    let (actions, uncertain) = run_save(SaveRequest::Retry, &mut reads, Some(CANDIDATE), Some(VALID));
    assert!(writes(&actions).is_empty());
    assert!(actions[1..actions.len() - 1]
        .iter()
        .all(|a| *a == SaveAction::SyncAncestry || *a == SaveAction::SyncPrimaryDirectory));
    assert_eq!(actions[actions.len() - 2], SaveAction::SyncPrimaryDirectory);
    assert_eq!(actions.last(), Some(&SaveAction::Commit));
    assert_eq!(uncertain, Some(true));
}

#[test]
fn retry_rewrites_the_fixed_candidate_only_after_confirming_the_old_primary() {
    let mut reads = vec![SaveEvent::PrimaryRead(Some(VALID.to_vec()))];
    let (actions, uncertain) = run_save(SaveRequest::Retry, &mut reads, Some(CANDIDATE), Some(VALID));
    assert_eq!(
        actions,
        vec![
            SaveAction::ReadPrimary,
            SaveAction::SyncAncestry,
            SaveAction::CleanTemporaries,
            SaveAction::ReplaceBackup,
            SaveAction::ReplacePrimary,
            SaveAction::Commit,
        ]
    );
    assert_eq!(uncertain, Some(false));
}

#[test]
fn retry_writes_an_initial_candidate_without_creating_a_backup() {
    let mut reads = vec![SaveEvent::PrimaryRead(None), SaveEvent::RemnantsChecked(true)];
    let (actions, uncertain) = run_save(SaveRequest::Retry, &mut reads, Some(CANDIDATE), None);
    assert_eq!(
        actions,
        vec![
            SaveAction::ReadPrimary,
            SaveAction::CheckRemnants,
            SaveAction::SyncAncestry,
            SaveAction::CleanTemporaries,
            SaveAction::ReplacePrimary,
            SaveAction::Commit,
        ]
    );
    assert!(!actions.contains(&SaveAction::ReplaceBackup));
    assert_eq!(uncertain, Some(false));
}

#[test]
fn retry_rejects_a_third_primary_without_touching_the_backup_or_candidate() {
    let third = b"third primary bytes";
    let mut reads = vec![SaveEvent::PrimaryRead(Some(third.to_vec()))];
    let (actions, uncertain) = run_save(SaveRequest::Retry, &mut reads, Some(CANDIDATE), Some(VALID));
    assert_eq!(actions, vec![SaveAction::ReadPrimary, SaveAction::PrimaryConflict]);
    assert!(writes(&actions).is_empty());
    assert_eq!(uncertain, None);
}

#[test]
fn failed_retries_keep_the_same_candidate_until_a_later_success() {
    // Each retry of a candidate already in place only syncs and commits; a
    // failed sync leaves the same inputs for the next retry, which repeats it.
    let mut first = vec![SaveEvent::PrimaryRead(Some(CANDIDATE.to_vec()))];
    let mut second = vec![SaveEvent::PrimaryRead(Some(CANDIDATE.to_vec()))];
    let one = run_save(SaveRequest::Retry, &mut first, Some(CANDIDATE), Some(VALID));
    let two = run_save(SaveRequest::Retry, &mut second, Some(CANDIDATE), Some(VALID));
    assert_eq!(one, two);
    assert!(writes(&one.0).is_empty());
    assert_eq!(one.0.last(), Some(&SaveAction::Commit));
}

#[test]
fn retry_without_a_pending_candidate_writes_nothing() {
    let (actions, uncertain) = run_save(SaveRequest::Retry, &mut vec![], None, Some(VALID));
    assert_eq!(actions, vec![SaveAction::RejectNoPending]);
    assert_eq!(uncertain, None);
    let (actions, _) = run_save(SaveRequest::Retry, &mut vec![], None, None);
    assert_eq!(actions, vec![SaveAction::RejectNoPending]);
}

#[test]
fn an_initial_retry_stops_on_a_foreign_entry_before_writing() {
    let mut reads = vec![SaveEvent::PrimaryRead(None), SaveEvent::RemnantsChecked(false)];
    let (actions, uncertain) = run_save(SaveRequest::Retry, &mut reads, Some(CANDIDATE), None);
    assert_eq!(
        actions,
        vec![SaveAction::ReadPrimary, SaveAction::CheckRemnants, SaveAction::RemnantConflict]
    );
    assert_eq!(uncertain, None);
}

#[test]
fn a_first_save_writes_the_primary_without_a_backup() {
    let mut reads = vec![SaveEvent::PrimaryRead(None), SaveEvent::RemnantsChecked(true)];
    let (actions, uncertain) = run_save(SaveRequest::Save, &mut reads, None, None);
    assert_eq!(
        actions,
        vec![
            SaveAction::ReadPrimary,
            SaveAction::CheckRemnants,
            SaveAction::FormCandidate,
            SaveAction::SyncAncestry,
            SaveAction::CleanTemporaries,
            SaveAction::ReplacePrimary,
            SaveAction::Commit,
        ]
    );
    assert_eq!(uncertain, None);
}

#[test]
fn a_save_over_a_primary_changed_outside_the_handle_writes_nothing() {
    let mut reads = vec![SaveEvent::PrimaryRead(None)];
    let (actions, _) = run_save(SaveRequest::Save, &mut reads, None, Some(VALID));
    assert_eq!(actions, vec![SaveAction::ReadPrimary, SaveAction::PrimaryConflict]);
    let mut reads = vec![SaveEvent::PrimaryRead(Some(VALID.to_vec()))];
    let (actions, _) = run_save(SaveRequest::Save, &mut reads, None, None);
    assert_eq!(actions, vec![SaveAction::ReadPrimary, SaveAction::PrimaryConflict]);
}
