//! The process that takes the snapshot: the Python beside it, its user, its environment.
use vstd::prelude::*;
use crate::model::RuntimeEnvironment;
use crate::text::{from_chars, remove_all, remove_all_chars, to_chars};

verus! {

/// The Python version as `python3 --version` prints it, without the words `Python `.
pub fn python_version_of(output: &str) -> (r: String)
    ensures
        r@ == remove_all(output@, "Python "@),
{
    let o = to_chars(output);
    let p = to_chars("Python ");
    proof {
        reveal_strlit("Python ");
    }
    let v = remove_all_chars(o.as_slice(), p.as_slice());
    from_chars(v.as_slice())
}

/// What was asked of the system for the environment section: the output of
/// `python3 --version`, the output of `which python3`, the real and effective user ids,
/// the process id, and the variables `PATH`, `DISPLAY`, `XDG_SESSION_TYPE` and
/// `XDG_CURRENT_DESKTOP` when they are set.
pub struct EnvironmentProbe {
    pub python_version_output: String,
    pub python_executable: String,
    pub uid: u32,
    pub euid: u32,
    pub pid: u32,
    pub path: Option<String>,
    pub display: Option<String>,
    pub xdg_session_type: Option<String>,
    pub xdg_current_desktop: Option<String>,
}

/// The environment section: the process runs as root when its effective user id is 0.
pub fn collect(p: EnvironmentProbe) -> (r: RuntimeEnvironment)
    ensures
        r.python_version@ == remove_all(p.python_version_output@, "Python "@),
        r.python_executable@ == p.python_executable@,
        r.uid == p.uid,
        r.running_as_root == (p.euid == 0),
        r.pid == p.pid,
        r.path == p.path,
        r.display == p.display,
        r.xdg_session_type == p.xdg_session_type,
        r.xdg_current_desktop == p.xdg_current_desktop,
{
    RuntimeEnvironment {
        python_version: python_version_of(p.python_version_output.as_str()),
        python_executable: p.python_executable,
        uid: p.uid,
        running_as_root: p.euid == 0,
        pid: p.pid,
        path: p.path,
        display: p.display,
        xdg_session_type: p.xdg_session_type,
        xdg_current_desktop: p.xdg_current_desktop,
    }
}

} // verus!
