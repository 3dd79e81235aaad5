//! When to rebuild: the decisions between the steps of the `fetch-rs` and
//! `rebuild` tools.
use vstd::prelude::*;

use crate::git::{later, lemma_later_by_seconds, Timestamp};
use crate::text::{same_text, trim, trim_str};
use crate::util::{exit_status, ExitCode};

verus! {

/// The conclusion of the CI workflow run on the newest remote commit.
#[derive(Clone, Copy, Debug, PartialEq, Eq, Structural)]
pub enum WorkflowStatus {
    Success,
    Failure,
    Unknown,
}

/// What a run's conclusion, with surrounding whitespace ignored, says.
pub open spec fn status_of(conclusion: Seq<char>) -> WorkflowStatus {
    let c = trim(conclusion);
    if c == "success"@ {
        WorkflowStatus::Success
    } else if c == "failure"@ {
        WorkflowStatus::Failure
    } else {
        WorkflowStatus::Unknown
    }
}

/// Reads the conclusion of a workflow run.
pub fn workflow_status(conclusion: &str) -> (r: WorkflowStatus)
    ensures
        r == status_of(conclusion@),
        (r == WorkflowStatus::Success) <==> trim(conclusion@) == "success"@,
        (r == WorkflowStatus::Failure) <==> trim(conclusion@) == "failure"@,
{
    proof {
        lemma_status_exact(conclusion@);
    }
    let c = trim_str(conclusion);
    if same_text(c.as_str(), "success") {
        WorkflowStatus::Success
    } else if same_text(c.as_str(), "failure") {
        WorkflowStatus::Failure
    } else {
        WorkflowStatus::Unknown
    }
}

/// Only the exact conclusion `success` counts as a success, and only the
/// exact conclusion `failure` as a failure (surrounding whitespace aside);
/// any other conclusion, `timed_out` or `cancelled` say, is unknown.
pub proof fn lemma_status_exact(conclusion: Seq<char>)
    ensures
        (status_of(conclusion) == WorkflowStatus::Success) <==> trim(conclusion) == "success"@,
        (status_of(conclusion) == WorkflowStatus::Failure) <==> trim(conclusion) == "failure"@,
        (status_of(conclusion) == WorkflowStatus::Unknown) <==> (trim(conclusion) != "success"@
            && trim(conclusion) != "failure"@),
{
    reveal_strlit("success");
    reveal_strlit("failure");
    assert("success"@ != "failure"@) by {
        assert("success"@[0] != "failure"@[0]);
    }
}

/// The rebuild rule: on any branch other than the followed one, rebuild when
/// the newest remote commit is at least as new as the local one; on the
/// followed branch, only when it is strictly newer.
pub open spec fn rebuild_wanted(
    local_branch: Seq<char>,
    branch: Seq<char>,
    remote: Timestamp,
    local: Timestamp,
) -> bool {
    ||| local_branch != branch && !later(local, remote)
    ||| local_branch == branch && later(remote, local)
}

/// Whether to rebuild, given the checked-out branch, the followed branch,
/// and the dates of the newest remote commit and of the local commit.
pub fn should_rebuild(local_branch: &str, branch: &str, remote: Timestamp, local: Timestamp) -> (r:
    bool)
    ensures
        r == rebuild_wanted(local_branch@, branch@, remote, local),
        local_branch@ == branch@ ==> (r == (remote.secs > local.secs || (remote.secs == local.secs
            && remote.nanos > local.nanos))),
        local_branch@ != branch@ ==> (r == (remote.secs > local.secs || (remote.secs == local.secs
            && remote.nanos >= local.nanos))),
{
    let same = same_text(local_branch, branch);
    (!same && remote.is_not_before(&local)) || (same && remote.is_later_than(&local))
}

/// Where the run goes next.
#[derive(Clone, Copy, Debug, PartialEq, Eq, Structural)]
pub enum Step {
    /// Look up the local branch and commit date, and compare.
    CompareDates,
    /// Switch to the followed branch and fetch it; on success the tool exits
    /// with 0, which lets the rebuild go ahead.
    Proceed,
    /// Stop with this exit code.
    Stop(ExitCode),
}

/// The step after the workflow run's conclusion is known: compare dates
/// after a successful run, stop with `NoOp` after any other.
pub fn after_workflow(status: WorkflowStatus) -> (r: Step)
    ensures
        r == match status {
            WorkflowStatus::Success => Step::CompareDates,
            _ => Step::Stop(ExitCode::NoOp),
        },
{
    match status {
        WorkflowStatus::Success => Step::CompareDates,
        _ => Step::Stop(ExitCode::NoOp),
    }
}

/// The step after the dates are compared: go ahead where a rebuild is
/// wanted, stop with `NoOp` where it is not.
pub fn after_dates(rebuild: bool) -> (r: Step)
    ensures
        r == (if rebuild {
            Step::Proceed
        } else {
            Step::Stop(ExitCode::NoOp)
        }),
{
    if rebuild {
        Step::Proceed
    } else {
        Step::Stop(ExitCode::NoOp)
    }
}

/// The step that the whole run comes to, from the workflow's conclusion and
/// (where they are compared) the branches and commit dates.
pub open spec fn final_step(
    conclusion: Seq<char>,
    local_branch: Seq<char>,
    branch: Seq<char>,
    remote: Timestamp,
    local: Timestamp,
) -> Step {
    match status_of(conclusion) {
        WorkflowStatus::Success => if rebuild_wanted(local_branch, branch, remote, local) {
            Step::Proceed
        } else {
            Step::Stop(ExitCode::NoOp)
        },
        _ => Step::Stop(ExitCode::NoOp),
    }
}

/// What to do after a step that can fail: whether to send a notification,
/// and the exit code to stop with, if any.
#[derive(Clone, Copy, Debug, PartialEq, Eq, Structural)]
pub struct Outcome {
    pub notify: bool,
    pub exit: Option<ExitCode>,
}

/// After `git switch` or `git fetch`: carry on where it succeeded; where it
/// failed, notify if notifications are on, and stop with `Failure`.
pub fn command_outcome(succeeded: bool, notify_enabled: bool) -> (r: Outcome)
    ensures
        r == (if succeeded {
            Outcome { notify: false, exit: None }
        } else {
            Outcome { notify: notify_enabled, exit: Some(ExitCode::Failure) }
        }),
{
    if succeeded {
        Outcome { notify: false, exit: None }
    } else {
        Outcome { notify: notify_enabled, exit: Some(ExitCode::Failure) }
    }
}

/// After the rebuild command, given its raw wait status (`None` where it
/// could not be started): nothing more where the status is 0; where it is
/// not, notify if notifications are on and stop with `Failure`; where it
/// could not be started, notify if notifications are on and end normally.
pub fn rebuild_outcome(status: Option<i32>, notify_enabled: bool) -> (r: Outcome)
    ensures
        r == match status {
            Some(s) => if s == 0 {
                Outcome { notify: false, exit: None }
            } else {
                Outcome { notify: notify_enabled, exit: Some(ExitCode::Failure) }
            },
            None => Outcome { notify: notify_enabled, exit: None },
        },
{
    match status {
        Some(s) => if s == 0 {
            Outcome { notify: false, exit: None }
        } else {
            Outcome { notify: notify_enabled, exit: Some(ExitCode::Failure) }
        },
        None => Outcome { notify: notify_enabled, exit: None },
    }
}

// ---------------------------------------------------------------------------
// Laws
// ---------------------------------------------------------------------------

/// The run goes ahead exactly when the workflow succeeded and a rebuild is
/// wanted; every other run stops with an exit code above 0.
pub proof fn lemma_proceed_only_when_wanted(
    conclusion: Seq<char>,
    local_branch: Seq<char>,
    branch: Seq<char>,
    remote: Timestamp,
    local: Timestamp,
)
    ensures
        (final_step(conclusion, local_branch, branch, remote, local) == Step::Proceed) <==> (
        status_of(conclusion) == WorkflowStatus::Success && rebuild_wanted(
            local_branch,
            branch,
            remote,
            local,
        )),
        final_step(conclusion, local_branch, branch, remote, local) matches Step::Stop(c) ==> exit_status(c) > 0,
        final_step(conclusion, local_branch, branch, remote, local) != Step::CompareDates,
        (final_step(conclusion, local_branch, branch, remote, local) == Step::Proceed) ==> trim(
            conclusion,
        ) == "success"@,
{
    lemma_status_exact(conclusion);
}

/// A remote commit with more seconds since the epoch than the local one is
/// newer, and asks for a rebuild on any branch; one with fewer never does.
pub proof fn lemma_rebuild_by_seconds(
    local_branch: Seq<char>,
    branch: Seq<char>,
    remote: Timestamp,
    local: Timestamp,
)
    ensures
        remote.secs > local.secs ==> rebuild_wanted(local_branch, branch, remote, local),
        remote.secs < local.secs ==> !rebuild_wanted(local_branch, branch, remote, local),
{
    lemma_later_by_seconds(remote, local);
    lemma_later_by_seconds(local, remote);
}

/// Once the followed branch is checked out at the newest remote commit, no
/// further rebuild is asked for until a newer commit arrives.
pub proof fn lemma_no_rebuild_when_current(branch: Seq<char>, t: Timestamp)
    ensures
        !rebuild_wanted(branch, branch, t, t),
{
}

/// Away from the followed branch, a remote commit as new as the local one
/// brings the machine back to the followed branch.
pub proof fn lemma_rebuild_off_branch(
    local_branch: Seq<char>,
    branch: Seq<char>,
    t: Timestamp,
)
    requires
        local_branch != branch,
    ensures
        rebuild_wanted(local_branch, branch, t, t),
{
}

/// A commit that would bring a rebuild on the followed branch brings one on
/// any other branch too.
pub proof fn lemma_rebuild_wanted_monotone(
    local_branch: Seq<char>,
    branch: Seq<char>,
    remote: Timestamp,
    local: Timestamp,
)
    requires
        rebuild_wanted(branch, branch, remote, local),
    ensures
        rebuild_wanted(local_branch, branch, remote, local),
{
}

/// A newer remote commit never takes back a rebuild that an older one asked
/// for.
pub proof fn lemma_rebuild_wanted_newer_remote(
    local_branch: Seq<char>,
    branch: Seq<char>,
    remote: Timestamp,
    newer: Timestamp,
    local: Timestamp,
)
    requires
        rebuild_wanted(local_branch, branch, remote, local),
        !later(remote, newer),
    ensures
        rebuild_wanted(local_branch, branch, newer, local),
{
}

} // verus!
