//! Starting the daemon: detach from the terminal, note the process id, and serve.

use vstd::prelude::*;
use crate::zsh::daemon::paths::DaemonPaths;

verus! {

/// The file-creation mask of the daemon: what it creates is for its owner alone.
pub const DAEMON_UMASK: u32 = 0o077;

/// How the process turns into a daemon.
#[derive(Clone, Debug, PartialEq, Eq)]
pub struct DaemonizeOptions {
    /// The file that receives the process id.
    pub pid_file: String,
    /// Whether the pid file is given to the daemon's user.
    pub chown_pid_file: bool,
    /// The directory that the daemon works in.
    pub working_directory: String,
    /// The file-creation mask.
    pub umask: u32,
}

/// What starting the daemon comes to.
#[derive(Clone, Debug, PartialEq, Eq)]
pub struct StartPlan {
    /// Whether to warn that a pid file exists: a daemon may be running.
    pub warn_pid_exists: bool,
    /// How to become a daemon.
    pub daemonize: DaemonizeOptions,
    /// The socket to serve on once the process is a daemon.
    pub socket: String,
}

/// The mathematical value of a [`StartPlan`].
pub struct StartPlanView {
    pub warn_pid_exists: bool,
    pub pid_file: Seq<char>,
    pub chown_pid_file: bool,
    pub working_directory: Seq<char>,
    pub umask: u32,
    pub socket: Seq<char>,
}

impl View for StartPlan {
    type V = StartPlanView;

    open spec fn view(&self) -> StartPlanView {
        StartPlanView {
            warn_pid_exists: self.warn_pid_exists,
            pid_file: self.daemonize.pid_file@,
            chown_pid_file: self.daemonize.chown_pid_file,
            working_directory: self.daemonize.working_directory@,
            umask: self.daemonize.umask,
            socket: self.socket@,
        }
    }
}

/// The plan of a start: a pid file that exists is worth a warning and
/// nothing more; the daemon keeps the working directory, owns its pid
/// file, and creates files for its owner alone.
pub open spec fn start_plan(
    socket: Seq<char>,
    pid_file: Seq<char>,
    pid_file_exists: bool,
    current_dir: Seq<char>,
) -> StartPlanView {
    StartPlanView {
        warn_pid_exists: pid_file_exists,
        pid_file,
        chown_pid_file: true,
        working_directory: current_dir,
        umask: DAEMON_UMASK,
        socket,
    }
}

/// Plans the start of the daemon.
pub fn start(paths: &DaemonPaths, pid_file_exists: bool, current_dir: &str) -> (plan: StartPlan)
    ensures
        plan@ == start_plan(paths.socket@, paths.pid@, pid_file_exists, current_dir@),
{
    StartPlan {
        warn_pid_exists: pid_file_exists,
        daemonize: DaemonizeOptions {
            pid_file: paths.pid.clone(),
            chown_pid_file: true,
            working_directory: String::from_str(current_dir),
            umask: DAEMON_UMASK,
        },
        socket: paths.socket.clone(),
    }
}

/// What follows the attempt to become a daemon.
#[derive(Clone, Copy, Debug, PartialEq, Eq)]
pub enum AfterDaemonize {
    /// Serve on the socket; this does not return.
    Serve,
    /// Say that the daemon could not be started.
    Report,
}

/// Decides what follows the attempt to become a daemon.
pub fn after_daemonize(daemonized: bool) -> (next: AfterDaemonize)
    ensures
        next == if daemonized {
            AfterDaemonize::Serve
        } else {
            AfterDaemonize::Report
        },
{
    if daemonized {
        AfterDaemonize::Serve
    } else {
        AfterDaemonize::Report
    }
}

/// What is said of a pid file that exists.
pub fn pid_exists_warning() -> (text: &'static str)
    ensures
        text@ == "Warning: PID file exists. Is the daemon already running?"@,
{
    "Warning: PID file exists. Is the daemon already running?"
}

} // verus!
