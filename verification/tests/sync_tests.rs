use autogit::config::Repository;
use autogit::sync::{SyncMachine, SyncPhase, VcsOp, VcsReply};

fn test_repo(path: &str) -> Repository {
    Repository {
        path: path.to_string(),
        auto_commit: true,
        commit_message_template: "Auto-commit: {timestamp}".to_string(),
    }
}

/// Drives a fresh machine through open, status and staging up to the point
/// where the commit operation is requested; returns the machine.
fn machine_at_commit(path: &str) -> (SyncMachine, String) {
    let (mut m, op) = SyncMachine::begin_check_cycle(&test_repo(path));
    assert!(matches!(op, VcsOp::Open));
    let op = m.step(VcsReply::Done);
    assert!(matches!(op, Some(VcsOp::QueryStatus)));
    let op = m.step(VcsReply::Flag(true));
    assert!(matches!(op, Some(VcsOp::StageAll)));
    let op = m.step(VcsReply::Done);
    assert!(matches!(op, Some(VcsOp::QueryIndex)));
    let op = m.step(VcsReply::Flag(true));
    match op {
        Some(VcsOp::Commit { message }) => (m, message),
        _ => panic!("Expected a commit request"),
    }
}

#[test]
fn test_sync_clean_repo_still_pulls() {
    let (mut m, op) = SyncMachine::begin_check_cycle(&test_repo("/r"));
    assert!(matches!(op, VcsOp::Open));

    let op = m.step(VcsReply::Done);
    assert!(matches!(op, Some(VcsOp::QueryStatus)));

    // Clean working copy: no staging or commit, straight to the remote
    let op = m.step(VcsReply::Flag(false));
    assert!(matches!(op, Some(VcsOp::QueryRemote)));

    let op = m.step(VcsReply::Flag(true));
    assert!(matches!(op, Some(VcsOp::QueryUpstream)));

    // Tips are equal: nothing to push, go to the pull
    let op = m.step(VcsReply::Flag(false));
    assert!(matches!(op, Some(VcsOp::PullRebase)));

    let op = m.step(VcsReply::Done);
    assert!(op.is_none());
    assert!(m.is_finished());

    let outcome = m.outcome();
    assert_eq!(outcome.path, "/r");
    assert!(!outcome.committed);
    assert!(outcome.error.is_none());
}

#[test]
fn test_sync_no_remote_skips_push_and_pull() {
    let (mut m, _op) = SyncMachine::begin_check_cycle(&test_repo("/r"));
    m.step(VcsReply::Done);
    m.step(VcsReply::Flag(false));

    // No remote named "origin": push and pull are both skipped
    let op = m.step(VcsReply::Flag(false));
    assert!(op.is_none());
    assert!(m.is_finished());
    assert!(m.outcome().error.is_none());
}

#[test]
fn test_sync_commit_and_push_flow() {
    let (mut m, message) = machine_at_commit("/r");
    assert!(!message.is_empty());

    let op = m.step(VcsReply::Done);
    assert!(matches!(op, Some(VcsOp::QueryRemote)));

    let op = m.step(VcsReply::Flag(true));
    assert!(matches!(op, Some(VcsOp::QueryUpstream)));

    let op = m.step(VcsReply::Flag(true));
    assert!(matches!(op, Some(VcsOp::Push)));

    let op = m.step(VcsReply::Done);
    assert!(matches!(op, Some(VcsOp::PullRebase)));

    let op = m.step(VcsReply::Done);
    assert!(op.is_none());
    assert!(m.is_finished());

    let outcome = m.outcome();
    assert!(outcome.committed);
    assert!(outcome.error.is_none());
}

#[test]
fn test_sync_skip_commit_when_index_unchanged() {
    let (mut m, _op) = SyncMachine::begin_check_cycle(&test_repo("/r"));
    m.step(VcsReply::Done);
    let op = m.step(VcsReply::Flag(true));
    assert!(matches!(op, Some(VcsOp::StageAll)));
    let op = m.step(VcsReply::Done);
    assert!(matches!(op, Some(VcsOp::QueryIndex)));

    // Nothing pending after staging: skip the commit
    let op = m.step(VcsReply::Flag(false));
    assert!(matches!(op, Some(VcsOp::QueryRemote)));
    assert_eq!(m.phase, SyncPhase::CheckingRemote);
    assert!(!m.committed);
}

#[test]
fn test_sync_push_failure_is_nonfatal() {
    // Commit succeeds, then the push fails for want of a network
    let (mut m, _message) = machine_at_commit("/r1");
    m.step(VcsReply::Done);
    m.step(VcsReply::Flag(true));
    let op = m.step(VcsReply::Flag(true));
    assert!(matches!(op, Some(VcsOp::Push)));

    let op = m.step(VcsReply::Failed("could not resolve host".to_string()));
    match op {
        Some(VcsOp::Notify { title, body }) => {
            assert_eq!(title, "Git Push Failed");
            assert!(body.contains("/r1"));
            assert!(body.contains("could not resolve host"));
        }
        _ => panic!("Expected a push-failure notification"),
    }

    // The cycle continues to the pull, which succeeds
    let op = m.step(VcsReply::Done);
    assert!(matches!(op, Some(VcsOp::PullRebase)));
    let op = m.step(VcsReply::Done);
    assert!(op.is_none());
    assert!(m.is_finished());

    // The outcome still reports the commit, and no error
    let outcome = m.outcome();
    assert!(outcome.committed);
    assert!(outcome.error.is_none());
}

#[test]
fn test_sync_rebase_conflict_leaves_clean_state() {
    let (mut m, _message) = machine_at_commit("/r1");
    m.step(VcsReply::Done);
    m.step(VcsReply::Flag(true));
    m.step(VcsReply::Flag(false));
    assert_eq!(m.phase, SyncPhase::Pulling);

    // The rebase hits a conflict: a notification, then the abort
    let op = m.step(VcsReply::Failed("could not apply commit".to_string()));
    match op {
        Some(VcsOp::Notify { title, .. }) => assert_eq!(title, "Git Pull Failed"),
        _ => panic!("Expected a pull-failure notification"),
    }
    let op = m.step(VcsReply::Done);
    assert!(matches!(op, Some(VcsOp::AbortRebase)));

    let op = m.step(VcsReply::Done);
    assert!(op.is_none());
    assert!(m.is_finished());

    // No partial rebase left behind: the failure sets no error, and a
    // fresh cycle's status query on the repository goes through cleanly
    let outcome = m.outcome();
    assert!(outcome.error.is_none());

    let (mut again, _op) = SyncMachine::begin_check_cycle(&test_repo("/r1"));
    again.step(VcsReply::Done);
    let op = again.step(VcsReply::Flag(false));
    assert!(matches!(op, Some(VcsOp::QueryRemote)));
}

#[test]
fn test_sync_open_failure_is_fatal() {
    let (mut m, _op) = SyncMachine::begin_check_cycle(&test_repo("/gone"));
    let op = m.step(VcsReply::Failed("Not a git repository: /gone".to_string()));
    assert!(op.is_none());
    assert!(m.is_finished());

    let outcome = m.outcome();
    assert!(!outcome.committed);
    assert!(outcome.error.unwrap().contains("Not a git repository"));
}

#[test]
fn test_sync_missing_identity_is_fatal() {
    let (mut m, _message) = machine_at_commit("/r");
    let op = m.step(VcsReply::Failed("user.name not set in git config".to_string()));
    assert!(op.is_none());
    assert!(m.is_finished());

    let outcome = m.outcome();
    assert!(!outcome.committed);
    assert!(outcome.error.unwrap().contains("user.name"));
}

#[test]
fn test_begin_initialization_message() {
    let (m, op) = SyncMachine::begin_initialization(&test_repo("/r"));
    assert!(matches!(op, VcsOp::Open));
    assert_eq!(m.message, "Auto-commit on daemon startup");
}

#[test]
fn test_check_cycle_message_is_rendered() {
    let repo = Repository {
        path: "/r".to_string(),
        auto_commit: true,
        commit_message_template: "ts {timestamp} end".to_string(),
    };
    let (m, _op) = SyncMachine::begin_check_cycle(&repo);
    assert!(m.message.starts_with("ts "));
    assert!(m.message.ends_with(" end"));
    // The placeholder was replaced by a 19-character timestamp
    assert_eq!(m.message.len(), "ts  end".len() + 19);
    assert!(!m.message.contains("{timestamp}"));
}
