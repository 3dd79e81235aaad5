//! Exit codes, and the ntfy notification that a failed rebuild sends.
use vstd::prelude::*;

use crate::text::{contains_str, contains_text};

verus! {

/// Why the tools stop without asking for a rebuild. A run that should
/// go on to rebuild exits with 0; every other run exits with one of these.
#[derive(Clone, Copy, Debug, PartialEq, Eq, Structural)]
pub enum ExitCode {
    /// A step failed (a git command, the rebuild itself).
    Failure,
    /// Nothing to do, or nothing that can be done.
    NoOp,
}

/// The process exit status that `c` stands for.
pub open spec fn exit_status(c: ExitCode) -> i32 {
    match c {
        ExitCode::Failure => 1i32,
        ExitCode::NoOp => 2i32,
    }
}

impl ExitCode {
    /// The process exit status that this code stands for.
    pub fn code(&self) -> (r: i32)
        ensures
            r == exit_status(*self),
    {
        match self {
            ExitCode::Failure => 1,
            ExitCode::NoOp => 2,
        }
    }
}

impl From<ExitCode> for i32 {
    fn from(code: ExitCode) -> (r: i32) {
        code.code()
    }
}

impl vstd::std_specs::convert::FromSpecImpl<ExitCode> for i32 {
    open spec fn obeys_from_spec() -> bool {
        true
    }

    open spec fn from_spec(v: ExitCode) -> i32 {
        exit_status(v)
    }
}

/// Every exit code is above 0, and the two differ, so that a caller can run
/// the rebuild exactly when the tool exits with 0.
pub proof fn lemma_exit_codes()
    ensures
        forall|c: ExitCode| exit_status(c) > 0,
        exit_status(ExitCode::Failure) != exit_status(ExitCode::NoOp),
{
    assert forall|c: ExitCode| exit_status(c) > 0 by {
        match c {
            ExitCode::Failure => {},
            ExitCode::NoOp => {},
        }
    }
}

/// The text of the notification: it names the host where its name is known.
pub fn notify_message(host: Option<&str>) -> (r: String)
    ensures
        r@ == match host {
            Some(h) => "Rebuild failed on "@ + h@,
            None => "Rebuild failed"@,
        },
{
    match host {
        Some(h) => "Rebuild failed on ".to_owned().concat(h),
        None => "Rebuild failed".to_owned(),
    }
}

/// The arguments of the `curl` call that posts `message` to the ntfy `url`:
/// `-d <message>`, then `-L` where the URL holds `https`, then the URL.
pub fn curl_args(url: &str, message: &str) -> (r: Vec<String>)
    ensures
        r.deep_view() == seq!["-d"@, message@] + (if contains_text(url@, "https"@) {
            seq!["-L"@]
        } else {
            Seq::<Seq<char>>::empty()
        }) + seq![url@],
{
    let mut args: Vec<String> = Vec::new();
    args.push("-d".to_owned());
    args.push(message.to_owned());
    if contains_str(url, "https") {
        args.push("-L".to_owned());
    }
    args.push(url.to_owned());
    assert(args.deep_view() =~= seq!["-d"@, message@] + (if contains_text(url@, "https"@) {
        seq!["-L"@]
    } else {
        Seq::<Seq<char>>::empty()
    }) + seq![url@]);
    args
}

} // verus!
