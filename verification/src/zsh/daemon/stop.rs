//! Stopping the daemon: a signal to the process that the pid file names,
//! and the removal of what the daemon left.

use vstd::prelude::*;
use crate::text::{chars_of, parse_i32_in, parse_signed, trim_range, trimmed};
use crate::zsh::daemon::paths::DaemonPaths;

verus! {

/// The signal that asks a process to end.
pub const TERMINATION_SIGNAL: i32 = 15;

/// The process id that the content of a pid file holds: a decimal number
/// that fits an `i32`, with white space allowed round it.
pub open spec fn pid_of(content: Seq<char>) -> Option<i32> {
    match parse_signed(trimmed(content), 10, i32::MIN as int, i32::MAX as int) {
        Ok(pid) => Some(pid as i32),
        Err(_) => None,
    }
}

/// Reads the process id from the content of a pid file.
pub fn parse_pid(content: &str) -> (pid: Option<i32>)
    ensures
        pid == pid_of(content@),
{
    let chars = chars_of(content);
    proof {
        assert(chars@.subrange(0, chars.len() as int) =~= chars@);
    }
    let (from, to) = trim_range(&chars, 0, chars.len());
    match parse_i32_in(&chars, from, to) {
        Ok(pid) => Some(pid),
        Err(_) => None,
    }
}

/// What stopping the daemon comes to.
#[derive(Clone, Debug, PartialEq, Eq)]
pub enum StopPlan {
    /// Send `signal` to the process `pid`; then, whether the signal was
    /// delivered or not, remove the pid file and the socket file.
    Terminate { pid: i32, signal: i32, pid_file: String, socket: String },
    /// No daemon runs: there is nothing to do.
    NoDaemon,
}

/// The mathematical value of a [`StopPlan`].
pub enum StopPlanView {
    Terminate { pid: i32, signal: i32, pid_file: Seq<char>, socket: Seq<char> },
    NoDaemon,
}

impl View for StopPlan {
    type V = StopPlanView;

    open spec fn view(&self) -> StopPlanView {
        match *self {
            StopPlan::Terminate { pid, signal, pid_file, socket } => StopPlanView::Terminate {
                pid,
                signal,
                pid_file: pid_file@,
                socket: socket@,
            },
            StopPlan::NoDaemon => StopPlanView::NoDaemon,
        }
    }
}

/// The plan for the content of the pid file, if the file could be read: a
/// content that holds a process id has that process signalled and both
/// files removed; a missing file, or one that holds no process id, means
/// that no daemon runs.
pub open spec fn stop_plan(socket: Seq<char>, pid_file: Seq<char>, content: Option<Seq<char>>) -> StopPlanView {
    match content {
        Some(text) => match pid_of(text) {
            Some(pid) => StopPlanView::Terminate {
                pid,
                signal: TERMINATION_SIGNAL,
                pid_file,
                socket,
            },
            None => StopPlanView::NoDaemon,
        },
        None => StopPlanView::NoDaemon,
    }
}

/// The text of an optional string slice.
pub open spec fn slice_text(value: Option<&str>) -> Option<Seq<char>> {
    match value {
        Some(s) => Some(s@),
        None => None,
    }
}

/// Plans the stop of the daemon from the content of its pid file, if the
/// file could be read.
pub fn stop(paths: &DaemonPaths, pid_file_content: Option<&str>) -> (plan: StopPlan)
    ensures
        plan@ == stop_plan(paths.socket@, paths.pid@, slice_text(pid_file_content)),
{
    if let Some(pid_str) = pid_file_content {
        if let Some(pid) = parse_pid(pid_str) {
            return StopPlan::Terminate {
                pid,
                signal: TERMINATION_SIGNAL,
                pid_file: paths.pid.clone(),
                socket: paths.socket.clone(),
            };
        }
    }
    StopPlan::NoDaemon
}

/// The files that are removed once the signal was sent: the pid file and
/// the socket file of a plan that signals, whether the signal was
/// delivered or not, for the process may be gone already; none where no
/// daemon runs.
pub open spec fn files_to_remove(plan: StopPlanView, delivered: bool) -> Seq<Seq<char>> {
    match plan {
        StopPlanView::Terminate { pid_file, socket, .. } => seq![pid_file, socket],
        StopPlanView::NoDaemon => Seq::empty(),
    }
}

/// Lists the files to remove once the signal of `plan` was sent.
pub fn cleanup(plan: &StopPlan, delivered: bool) -> (files: Vec<String>)
    ensures
        files@.map_values(|f: String| f@) == files_to_remove(plan@, delivered),
{
    let files = match plan {
        StopPlan::Terminate { pid_file, socket, .. } => vec![pid_file.clone(), socket.clone()],
        StopPlan::NoDaemon => Vec::new(),
    };
    proof {
        assert(files@.map_values(|f: String| f@) =~= files_to_remove(plan@, delivered));
    }
    files
}

/// What is said once the signal was sent.
pub open spec fn signal_report(delivered: bool) -> Seq<char> {
    if delivered {
        "Daemon stopped successfully."@
    } else {
        "Failed to stop daemon. It might have already exited."@
    }
}

/// What is said once the signal was sent: the process may be gone already.
pub fn stop_report(delivered: bool) -> (text: &'static str)
    ensures
        text@ == signal_report(delivered),
{
    if delivered {
        "Daemon stopped successfully."
    } else {
        "Failed to stop daemon. It might have already exited."
    }
}

/// What is said where no daemon runs.
pub fn no_daemon_report() -> (text: &'static str)
    ensures
        text@ == "No running daemon found (PID file missing)."@,
{
    "No running daemon found (PID file missing)."
}

} // verus!
