//! Where the daemon keeps its socket and the file with its process id.

use vstd::prelude::*;
use crate::text::{decimal, format_decimal, join_path, joined_path};

verus! {

/// The paths of the daemon's socket and of the file that holds its process id.
#[derive(Clone, Debug, PartialEq, Eq)]
pub struct DaemonPaths {
    pub socket: String,
    pub pid: String,
}

/// What the process knows of its surroundings when it looks for the
/// daemon's directory.
#[derive(Clone, Debug, PartialEq, Eq)]
pub struct RuntimeEnv {
    /// The value of `XDG_RUNTIME_DIR`, if it is set.
    pub xdg_runtime_dir: Option<String>,
    /// The id of the user.
    pub uid: u32,
    /// Whether the directory `/run/user/{uid}` exists.
    pub run_user_exists: bool,
    /// The value of `USER`, if it is set.
    pub user: Option<String>,
}

/// A directory that has to be made, with those before it on its path, and
/// the mode that it is given.
#[derive(Clone, Debug, PartialEq, Eq)]
pub struct NewDirectory {
    pub path: String,
    pub mode: u32,
}

/// The paths of the daemon, and the directory that has to be made for them
/// first, if there is one.
#[derive(Clone, Debug, PartialEq, Eq)]
pub struct Resolution {
    pub paths: DaemonPaths,
    pub create_dir: Option<NewDirectory>,
}

/// The mode of a directory that only its owner can enter, read and write.
pub const OWNER_ONLY_MODE: u32 = 0o700;

/// The directory of a user in the system's run directory.
pub open spec fn run_user_dir(uid: u32) -> Seq<char> {
    "/run/user/"@ + decimal(uid as nat)
}

/// The directory of a user under the shared directory for temporary files;
/// a user without a name is `unknown`.
pub open spec fn fallback_dir(user: Option<Seq<char>>) -> Seq<char> {
    "/tmp/zsh-infinite-"@ + match user {
        Some(name) => name,
        None => "unknown"@,
    }
}

/// The directory of the daemon: `XDG_RUNTIME_DIR` where it is set; else
/// the user's run directory where that exists; else the user's directory
/// for temporary files.
pub open spec fn base_dir(
    xdg_runtime_dir: Option<Seq<char>>,
    uid: u32,
    run_user_exists: bool,
    user: Option<Seq<char>>,
) -> Seq<char> {
    match xdg_runtime_dir {
        Some(dir) => dir,
        None => if run_user_exists {
            run_user_dir(uid)
        } else {
            fallback_dir(user)
        },
    }
}

/// Whether the directory of the daemon is the one for temporary files,
/// which has to be made.
pub open spec fn falls_back(xdg_runtime_dir: Option<Seq<char>>, run_user_exists: bool) -> bool {
    xdg_runtime_dir is None && !run_user_exists
}

/// The text of an optional string.
pub open spec fn opt_text(value: Option<String>) -> Option<Seq<char>> {
    match value {
        Some(s) => Some(s@),
        None => None,
    }
}

/// The paths of the daemon under the directory `base`.
pub fn paths_in(base: &str) -> (paths: DaemonPaths)
    ensures
        paths.socket@ == joined_path(base@, "zsh-infinite.sock"@),
        paths.pid@ == joined_path(base@, "zsh-infinite.pid"@),
{
    DaemonPaths {
        socket: join_path(base, "zsh-infinite.sock"),
        pid: join_path(base, "zsh-infinite.pid"),
    }
}

/// Finds the paths of the daemon from what the process knows of its
/// surroundings.
pub fn get_daemon_paths(env: &RuntimeEnv) -> (found: Resolution)
    ensures
        found.paths.socket@ == joined_path(
            base_dir(opt_text(env.xdg_runtime_dir), env.uid, env.run_user_exists, opt_text(env.user)),
            "zsh-infinite.sock"@,
        ),
        found.paths.pid@ == joined_path(
            base_dir(opt_text(env.xdg_runtime_dir), env.uid, env.run_user_exists, opt_text(env.user)),
            "zsh-infinite.pid"@,
        ),
        falls_back(opt_text(env.xdg_runtime_dir), env.run_user_exists) ==> found.create_dir is Some
            && found.create_dir->Some_0.path@ == fallback_dir(opt_text(env.user))
            && found.create_dir->Some_0.mode == OWNER_ONLY_MODE,
        !falls_back(opt_text(env.xdg_runtime_dir), env.run_user_exists) ==> found.create_dir
            is None,
{
    match &env.xdg_runtime_dir {
        Some(dir) => Resolution { paths: paths_in(dir.as_str()), create_dir: None },
        None => {
            if env.run_user_exists {
                let run_user = String::from_str("/run/user/").concat(
                    format_decimal(env.uid as u64).as_str(),
                );
                Resolution { paths: paths_in(run_user.as_str()), create_dir: None }
            } else {
                let user: &str = match &env.user {
                    Some(name) => name.as_str(),
                    None => "unknown",
                };
                let tmp_dir = String::from_str("/tmp/zsh-infinite-").concat(user);
                let paths = paths_in(tmp_dir.as_str());
                Resolution {
                    paths,
                    create_dir: Some(NewDirectory { path: tmp_dir, mode: OWNER_ONLY_MODE }),
                }
            }
        },
    }
}

} // verus!
