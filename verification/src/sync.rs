//! The per-repository synchronization state machine. One cycle drives a
//! repository through detect, stage, commit, push and pull-rebase. The
//! machine decides; the caller performs each requested version-control
//! operation and hands the result back to `step`.
//!
//! Failures while opening, querying, staging or committing are fatal to the
//! repository's cycle and surface in the outcome. Push and pull failures
//! are non-fatal: they request a best-effort notification, a failed pull
//! additionally requests a rebase abort so the working copy is left clean,
//! and neither sets the outcome's error.

use vstd::prelude::*;
use crate::config::Repository;
use crate::message::{format_commit_message, spec_rendered};

verus! {

/// One version-control operation requested from the driver.
#[derive(Debug)]
pub enum VcsOp {
    /// Open the repository; failure is fatal to this cycle.
    Open,
    /// Ask whether the working copy has any change (untracked included).
    QueryStatus,
    /// Stage every change (new, modified and deleted files).
    StageAll,
    /// Ask whether the index holds a pending change against the last commit.
    QueryIndex,
    /// Create a commit with this message, with the repository's own identity.
    Commit { message: String },
    /// Ask whether a remote named "origin" is configured.
    QueryRemote,
    /// Ask whether the local tip differs from its upstream tip; an unknown
    /// upstream counts as differing.
    QueryUpstream,
    /// Push the current branch.
    Push,
    /// Show a best-effort desktop notification; never fails the cycle.
    Notify { title: String, body: String },
    /// Fetch and rebase onto upstream.
    PullRebase,
    /// Abort the in-progress rebase to restore a clean working copy.
    AbortRebase,
}

/// The driver's answer to the most recently requested operation.
#[derive(Debug)]
pub enum VcsReply {
    /// The operation succeeded (for operations without a result).
    Done,
    /// The operation succeeded and answered a yes/no question.
    Flag(bool),
    /// The operation failed, with a description.
    Failed(String),
}

/// Where in the cycle the machine stands; each non-final phase names the
/// operation whose reply is awaited.
#[derive(Debug, Clone, Copy, PartialEq, Eq, Structural)]
pub enum SyncPhase {
    Opening,
    CheckingStatus,
    Staging,
    CheckingIndex,
    Committing,
    CheckingRemote,
    CheckingUpstream,
    Pushing,
    NotifyingPushFailure,
    Pulling,
    NotifyingPullFailure,
    Aborting,
    Finished,
}

/// What one cycle reports for one repository.
#[derive(Debug)]
pub struct SyncOutcome {
    pub path: String,
    pub committed: bool,
    pub error: Option<String>,
}

/// The state machine for one repository's cycle.
#[derive(Debug)]
pub struct SyncMachine {
    pub repo_path: String,
    pub message: String,
    pub phase: SyncPhase,
    pub committed: bool,
    pub error: Option<String>,
}

/// Which replies answer the operation awaited in this phase.
pub open spec fn reply_fits(phase: SyncPhase, reply: VcsReply) -> bool {
    match phase {
        SyncPhase::Opening => !(reply is Flag),
        SyncPhase::CheckingStatus => !(reply is Done),
        SyncPhase::Staging => !(reply is Flag),
        SyncPhase::CheckingIndex => !(reply is Done),
        SyncPhase::Committing => !(reply is Flag),
        SyncPhase::CheckingRemote => reply is Flag,
        SyncPhase::CheckingUpstream => reply is Flag,
        SyncPhase::Pushing => !(reply is Flag),
        SyncPhase::NotifyingPushFailure => reply is Done,
        SyncPhase::Pulling => !(reply is Flag),
        SyncPhase::NotifyingPullFailure => reply is Done,
        SyncPhase::Aborting => !(reply is Flag),
        SyncPhase::Finished => false,
    }
}

/// The machine after one reply: the whole transition relation of the cycle.
pub open spec fn spec_step_state(m: SyncMachine, reply: VcsReply) -> SyncMachine {
    match m.phase {
        SyncPhase::Opening => match reply {
            VcsReply::Done => SyncMachine { phase: SyncPhase::CheckingStatus, ..m },
            VcsReply::Failed(e) => SyncMachine { phase: SyncPhase::Finished, error: Some(e), ..m },
            VcsReply::Flag(_) => m,
        },
        SyncPhase::CheckingStatus => match reply {
            VcsReply::Flag(dirty) => if dirty {
                SyncMachine { phase: SyncPhase::Staging, ..m }
            } else {
                SyncMachine { phase: SyncPhase::CheckingRemote, ..m }
            },
            VcsReply::Failed(e) => SyncMachine { phase: SyncPhase::Finished, error: Some(e), ..m },
            VcsReply::Done => m,
        },
        SyncPhase::Staging => match reply {
            VcsReply::Done => SyncMachine { phase: SyncPhase::CheckingIndex, ..m },
            VcsReply::Failed(e) => SyncMachine { phase: SyncPhase::Finished, error: Some(e), ..m },
            VcsReply::Flag(_) => m,
        },
        SyncPhase::CheckingIndex => match reply {
            VcsReply::Flag(pending) => if pending {
                SyncMachine { phase: SyncPhase::Committing, ..m }
            } else {
                SyncMachine { phase: SyncPhase::CheckingRemote, ..m }
            },
            VcsReply::Failed(e) => SyncMachine { phase: SyncPhase::Finished, error: Some(e), ..m },
            VcsReply::Done => m,
        },
        SyncPhase::Committing => match reply {
            VcsReply::Done => SyncMachine { phase: SyncPhase::CheckingRemote, committed: true, ..m },
            VcsReply::Failed(e) => SyncMachine { phase: SyncPhase::Finished, error: Some(e), ..m },
            VcsReply::Flag(_) => m,
        },
        SyncPhase::CheckingRemote => match reply {
            VcsReply::Flag(present) => if present {
                SyncMachine { phase: SyncPhase::CheckingUpstream, ..m }
            } else {
                SyncMachine { phase: SyncPhase::Finished, ..m }
            },
            _ => m,
        },
        SyncPhase::CheckingUpstream => match reply {
            VcsReply::Flag(differs) => if differs {
                SyncMachine { phase: SyncPhase::Pushing, ..m }
            } else {
                SyncMachine { phase: SyncPhase::Pulling, ..m }
            },
            _ => m,
        },
        SyncPhase::Pushing => match reply {
            VcsReply::Done => SyncMachine { phase: SyncPhase::Pulling, ..m },
            VcsReply::Failed(_) => SyncMachine { phase: SyncPhase::NotifyingPushFailure, ..m },
            VcsReply::Flag(_) => m,
        },
        SyncPhase::NotifyingPushFailure => match reply {
            VcsReply::Done => SyncMachine { phase: SyncPhase::Pulling, ..m },
            _ => m,
        },
        SyncPhase::Pulling => match reply {
            VcsReply::Done => SyncMachine { phase: SyncPhase::Finished, ..m },
            VcsReply::Failed(_) => SyncMachine { phase: SyncPhase::NotifyingPullFailure, ..m },
            VcsReply::Flag(_) => m,
        },
        SyncPhase::NotifyingPullFailure => match reply {
            VcsReply::Done => SyncMachine { phase: SyncPhase::Aborting, ..m },
            _ => m,
        },
        SyncPhase::Aborting => match reply {
            VcsReply::Done => SyncMachine { phase: SyncPhase::Finished, ..m },
            VcsReply::Failed(_) => SyncMachine { phase: SyncPhase::Finished, ..m },
            VcsReply::Flag(_) => m,
        },
        SyncPhase::Finished => m,
    }
}

/// The body text of a failure notification.
pub open spec fn spec_notify_body(path: Seq<char>, err: Seq<char>) -> Seq<char> {
    "Repository: "@ + path + "\n\nError:\n"@ + err
}

/// The operation requested after one reply, exact up to the text of a
/// notification, which is pinned at the view level.
pub open spec fn spec_step_op(m: SyncMachine, reply: VcsReply, op: Option<VcsOp>) -> bool {
    match m.phase {
        SyncPhase::Opening => match reply {
            VcsReply::Done => op == Some(VcsOp::QueryStatus),
            _ => op is None,
        },
        SyncPhase::CheckingStatus => match reply {
            VcsReply::Flag(dirty) => if dirty {
                op == Some(VcsOp::StageAll)
            } else {
                op == Some(VcsOp::QueryRemote)
            },
            _ => op is None,
        },
        SyncPhase::Staging => match reply {
            VcsReply::Done => op == Some(VcsOp::QueryIndex),
            _ => op is None,
        },
        SyncPhase::CheckingIndex => match reply {
            VcsReply::Flag(pending) => if pending {
                op matches Some(VcsOp::Commit { message }) && message == m.message
            } else {
                op == Some(VcsOp::QueryRemote)
            },
            _ => op is None,
        },
        SyncPhase::Committing => match reply {
            VcsReply::Done => op == Some(VcsOp::QueryRemote),
            _ => op is None,
        },
        SyncPhase::CheckingRemote => match reply {
            VcsReply::Flag(present) => if present {
                op == Some(VcsOp::QueryUpstream)
            } else {
                op is None
            },
            _ => op is None,
        },
        SyncPhase::CheckingUpstream => match reply {
            VcsReply::Flag(differs) => if differs {
                op == Some(VcsOp::Push)
            } else {
                op == Some(VcsOp::PullRebase)
            },
            _ => op is None,
        },
        SyncPhase::Pushing => match reply {
            VcsReply::Done => op == Some(VcsOp::PullRebase),
            VcsReply::Failed(e) => op matches Some(VcsOp::Notify { title, body })
                && title@ == "Git Push Failed"@
                && body@ == spec_notify_body(m.repo_path@, e@),
            _ => op is None,
        },
        SyncPhase::NotifyingPushFailure => match reply {
            VcsReply::Done => op == Some(VcsOp::PullRebase),
            _ => op is None,
        },
        SyncPhase::Pulling => match reply {
            VcsReply::Done => op is None,
            VcsReply::Failed(e) => op matches Some(VcsOp::Notify { title, body })
                && title@ == "Git Pull Failed"@
                && body@ == spec_notify_body(m.repo_path@, e@),
            _ => op is None,
        },
        SyncPhase::NotifyingPullFailure => match reply {
            VcsReply::Done => op == Some(VcsOp::AbortRebase),
            _ => op is None,
        },
        SyncPhase::Aborting => op is None,
        SyncPhase::Finished => op is None,
    }
}

fn notify_body(path: &String, err: &String) -> (r: String)
    ensures
        r@ == spec_notify_body(path@, err@),
{
    let mut r = String::from_str("Repository: ");
    r.append(path.as_str());
    r.append("\n\nError:\n");
    r.append(err.as_str());
    r
}

impl SyncMachine {
    /// A machine at the start of a cycle, with the commit message it will
    /// use if a commit is needed; the first operation to perform is `Open`.
    pub fn start(repo: &Repository, message: String) -> (r: (SyncMachine, VcsOp))
        ensures
            r.0.repo_path == repo.path,
            r.0.message == message,
            r.0.phase == SyncPhase::Opening,
            !r.0.committed,
            r.0.error is None,
            r.1 == VcsOp::Open,
    {
        let m = SyncMachine {
            repo_path: repo.path.clone(),
            message,
            phase: SyncPhase::Opening,
            committed: false,
            error: None,
        };
        (m, VcsOp::Open)
    }

    /// A machine for a regular check cycle: the commit message is the
    /// repository's template rendered at the current local time.
    pub fn begin_check_cycle(repo: &Repository) -> (r: (SyncMachine, VcsOp))
        ensures
            r.0.repo_path == repo.path,
            r.0.phase == SyncPhase::Opening,
            !r.0.committed,
            r.0.error is None,
            r.1 == VcsOp::Open,
            exists|date: Seq<char>, time: Seq<char>|
                {
                    &&& r.0.message@ == spec_rendered(
                        repo.commit_message_template@,
                        date + " "@ + time,
                        date,
                        time,
                    )
                    &&& time.len() == 8
                    &&& date.len() >= 10
                },
    {
        let message = format_commit_message(repo.commit_message_template.as_str());
        SyncMachine::start(repo, message)
    }

    /// A machine for the startup reconciliation of one repository: pending
    /// changes are committed under a fixed message before the first pull.
    pub fn begin_initialization(repo: &Repository) -> (r: (SyncMachine, VcsOp))
        ensures
            r.0.repo_path == repo.path,
            r.0.message@ == "Auto-commit on daemon startup"@,
            r.0.phase == SyncPhase::Opening,
            !r.0.committed,
            r.0.error is None,
            r.1 == VcsOp::Open,
    {
        SyncMachine::start(repo, String::from_str("Auto-commit on daemon startup"))
    }

    /// Whether the cycle is over.
    pub fn is_finished(&self) -> (r: bool)
        ensures
            r == (self.phase is Finished),
    {
        match self.phase {
            SyncPhase::Finished => true,
            _ => false,
        }
    }

    /// Feeds the reply to the awaited operation into the machine; returns
    /// the next operation to perform, or `None` when none is due (the cycle
    /// may then be over — check `is_finished`).
    pub fn step(&mut self, reply: VcsReply) -> (op: Option<VcsOp>)
        requires
            !(old(self).phase is Finished),
            reply_fits(old(self).phase, reply),
        ensures
            *final(self) == spec_step_state(*old(self), reply),
            spec_step_op(*old(self), reply, op),
    {
        match self.phase {
            SyncPhase::Opening => match reply {
                VcsReply::Done => {
                    self.phase = SyncPhase::CheckingStatus;
                    Some(VcsOp::QueryStatus)
                },
                VcsReply::Failed(e) => {
                    self.phase = SyncPhase::Finished;
                    self.error = Some(e);
                    None
                },
                VcsReply::Flag(_) => None,
            },
            SyncPhase::CheckingStatus => match reply {
                VcsReply::Flag(dirty) => if dirty {
                    self.phase = SyncPhase::Staging;
                    Some(VcsOp::StageAll)
                } else {
                    self.phase = SyncPhase::CheckingRemote;
                    Some(VcsOp::QueryRemote)
                },
                VcsReply::Failed(e) => {
                    self.phase = SyncPhase::Finished;
                    self.error = Some(e);
                    None
                },
                VcsReply::Done => None,
            },
            SyncPhase::Staging => match reply {
                VcsReply::Done => {
                    self.phase = SyncPhase::CheckingIndex;
                    Some(VcsOp::QueryIndex)
                },
                VcsReply::Failed(e) => {
                    self.phase = SyncPhase::Finished;
                    self.error = Some(e);
                    None
                },
                VcsReply::Flag(_) => None,
            },
            SyncPhase::CheckingIndex => match reply {
                VcsReply::Flag(pending) => if pending {
                    self.phase = SyncPhase::Committing;
                    Some(VcsOp::Commit { message: self.message.clone() })
                } else {
                    self.phase = SyncPhase::CheckingRemote;
                    Some(VcsOp::QueryRemote)
                },
                VcsReply::Failed(e) => {
                    self.phase = SyncPhase::Finished;
                    self.error = Some(e);
                    None
                },
                VcsReply::Done => None,
            },
            SyncPhase::Committing => match reply {
                VcsReply::Done => {
                    self.phase = SyncPhase::CheckingRemote;
                    self.committed = true;
                    Some(VcsOp::QueryRemote)
                },
                VcsReply::Failed(e) => {
                    self.phase = SyncPhase::Finished;
                    self.error = Some(e);
                    None
                },
                VcsReply::Flag(_) => None,
            },
            SyncPhase::CheckingRemote => match reply {
                VcsReply::Flag(present) => if present {
                    self.phase = SyncPhase::CheckingUpstream;
                    Some(VcsOp::QueryUpstream)
                } else {
                    self.phase = SyncPhase::Finished;
                    None
                },
                _ => None,
            },
            SyncPhase::CheckingUpstream => match reply {
                VcsReply::Flag(differs) => if differs {
                    self.phase = SyncPhase::Pushing;
                    Some(VcsOp::Push)
                } else {
                    self.phase = SyncPhase::Pulling;
                    Some(VcsOp::PullRebase)
                },
                _ => None,
            },
            SyncPhase::Pushing => match reply {
                VcsReply::Done => {
                    self.phase = SyncPhase::Pulling;
                    Some(VcsOp::PullRebase)
                },
                VcsReply::Failed(e) => {
                    self.phase = SyncPhase::NotifyingPushFailure;
                    let body = notify_body(&self.repo_path, &e);
                    Some(VcsOp::Notify { title: String::from_str("Git Push Failed"), body })
                },
                VcsReply::Flag(_) => None,
            },
            SyncPhase::NotifyingPushFailure => match reply {
                VcsReply::Done => {
                    self.phase = SyncPhase::Pulling;
                    Some(VcsOp::PullRebase)
                },
                _ => None,
            },
            SyncPhase::Pulling => match reply {
                VcsReply::Done => {
                    self.phase = SyncPhase::Finished;
                    None
                },
                VcsReply::Failed(e) => {
                    self.phase = SyncPhase::NotifyingPullFailure;
                    let body = notify_body(&self.repo_path, &e);
                    Some(VcsOp::Notify { title: String::from_str("Git Pull Failed"), body })
                },
                VcsReply::Flag(_) => None,
            },
            SyncPhase::NotifyingPullFailure => match reply {
                VcsReply::Done => {
                    self.phase = SyncPhase::Aborting;
                    Some(VcsOp::AbortRebase)
                },
                _ => None,
            },
            SyncPhase::Aborting => {
                self.phase = SyncPhase::Finished;
                None
            },
            SyncPhase::Finished => None,
        }
    }

    /// The report for a finished cycle.
    pub fn outcome(&self) -> (r: SyncOutcome)
        requires
            self.phase is Finished,
        ensures
            r.path == self.repo_path,
            r.committed == self.committed,
            r.error == self.error,
    {
        let error = match &self.error {
            Some(e) => Some(e.clone()),
            None => None,
        };
        SyncOutcome { path: self.repo_path.clone(), committed: self.committed, error }
    }
}

/// A failed push is not fatal: the machine asks for a "Git Push Failed"
/// notification, then proceeds to the pull, and if the pull succeeds the
/// cycle finishes with the commit flag intact and no error.
pub proof fn lemma_push_failure_is_nonfatal(m: SyncMachine, e: String)
    requires
        m.phase == SyncPhase::Pushing,
        m.error is None,
    ensures
        ({
            let after_fail = spec_step_state(m, VcsReply::Failed(e));
            let after_notify = spec_step_state(after_fail, VcsReply::Done);
            let after_pull = spec_step_state(after_notify, VcsReply::Done);
            &&& after_fail.phase == SyncPhase::NotifyingPushFailure
            &&& forall|op: Option<VcsOp>|
                spec_step_op(m, VcsReply::Failed(e), op) ==> (op matches Some(
                    VcsOp::Notify { title, body },
                ) && title@ == "Git Push Failed"@)
            &&& after_notify.phase == SyncPhase::Pulling
            &&& after_pull.phase == SyncPhase::Finished
            &&& after_pull.committed == m.committed
            &&& after_pull.error is None
        }),
{
}

/// A failed pull-rebase leaves the repository clean: the machine asks for a
/// "Git Pull Failed" notification and then for a rebase abort before it
/// finishes, and the failure sets no error on the outcome.
pub proof fn lemma_rebase_conflict_leaves_clean_state(m: SyncMachine, e: String, abort_reply: VcsReply)
    requires
        m.phase == SyncPhase::Pulling,
        m.error is None,
        !(abort_reply is Flag),
    ensures
        ({
            let after_fail = spec_step_state(m, VcsReply::Failed(e));
            let after_notify = spec_step_state(after_fail, VcsReply::Done);
            let after_abort = spec_step_state(after_notify, abort_reply);
            &&& after_fail.phase == SyncPhase::NotifyingPullFailure
            &&& forall|op: Option<VcsOp>|
                spec_step_op(m, VcsReply::Failed(e), op) ==> (op matches Some(
                    VcsOp::Notify { title, body },
                ) && title@ == "Git Pull Failed"@)
            &&& forall|op: Option<VcsOp>|
                spec_step_op(after_fail, VcsReply::Done, op) ==> op == Some(VcsOp::AbortRebase)
            &&& after_abort.phase == SyncPhase::Finished
            &&& after_abort.committed == m.committed
            &&& after_abort.error is None
        }),
{
}

} // verus!
