//! Filesystem paths as text, and where the configuration and the log live.

use vstd::prelude::*;

verus! {

/// `part` appended to `base` as `PathBuf::join` does it on Unix: an absolute
/// `part` replaces `base`, and a `/` separates the two when `base` does not
/// already end with one.
pub open spec fn path_join(base: Seq<char>, part: Seq<char>) -> Seq<char> {
    if part.len() > 0 && part[0] == '/' {
        part
    } else if base.len() > 0 && base.last() != '/' {
        base + seq!['/'] + part
    } else {
        base + part
    }
}

pub fn join_path(base: &str, part: &str) -> (r: String)
    ensures
        r@ == path_join(base@, part@),
{
    let b = crate::text::chars_of(base);
    let p = crate::text::chars_of(part);
    if p.len() > 0 && p[0] == '/' {
        return String::from_str(part);
    }
    let mut r = String::from_str(base);
    if b.len() > 0 && b[b.len() - 1] != '/' {
        r.push('/');
    }
    r.append(part);
    proof {
        if b@.len() > 0 && b@.last() != '/' {
            assert(r@ =~= base@ + seq!['/'] + part@);
        }
    }
    r
}

/// Where the configuration file lives under the user's configuration directory.
pub open spec fn config_file_under(config_dir: Seq<char>) -> Seq<char> {
    path_join(path_join(config_dir, "clserver"@), "clserver.toml"@)
}

/// Where a program's log file lives under the user's state directory.
pub open spec fn log_file_under(state_dir: Seq<char>, program: Seq<char>) -> Seq<char> {
    path_join(path_join(state_dir, "clserver"@), program + ".log"@)
}

/// Why a per-user directory could not be found.
#[derive(Debug, PartialEq, Eq)]
pub enum PathsError {
    NoConfigDirectory,
    NoStateDirectory,
}

impl PathsError {
    pub fn message(&self) -> (m: String)
        ensures
            m@ == match self {
                PathsError::NoConfigDirectory => "Failed to get config directory"@,
                PathsError::NoStateDirectory => "Failed to get state directory"@,
            },
    {
        match self {
            PathsError::NoConfigDirectory => String::from_str("Failed to get config directory"),
            PathsError::NoStateDirectory => String::from_str("Failed to get state directory"),
        }
    }
}

/// The user's configuration directory from `dirs::config_dir`
/// (`$XDG_CONFIG_HOME`, or `$HOME/.config` on Linux). It depends on the
/// environment, so nothing is stated of it. A directory whose name is not
/// valid UTF-8 is converted with `to_string_lossy`.
#[verifier::external_body]
fn user_config_dir() -> Option<String> {
    match dirs::config_dir() {
        Some(path) => Some(path.to_string_lossy().into_owned()),
        None => None,
    }
}

/// The user's state directory from `dirs::state_dir` (`$XDG_STATE_HOME`, or
/// `$HOME/.local/state` on Linux). It depends on the environment, so nothing
/// is stated of it. A directory whose name is not valid UTF-8 is converted
/// with `to_string_lossy`.
#[verifier::external_body]
fn user_state_dir() -> Option<String> {
    match dirs::state_dir() {
        Some(path) => Some(path.to_string_lossy().into_owned()),
        None => None,
    }
}

/// The configuration file under a given configuration directory.
pub fn config_file_in(config_dir: &str) -> (r: String)
    ensures
        r@ == config_file_under(config_dir@),
{
    let dir = join_path(config_dir, "clserver");
    join_path(dir.as_str(), "clserver.toml")
}

/// The log file of `program` under a given state directory.
pub fn log_file_in(state_dir: &str, program: &str) -> (r: String)
    ensures
        r@ == log_file_under(state_dir@, program@),
{
    let dir = join_path(state_dir, "clserver");
    let mut name = String::from_str(program);
    name.append(".log");
    join_path(dir.as_str(), name.as_str())
}

/// `$XDG_CONFIG_HOME/clserver/clserver.toml`.
pub fn config_file() -> (r: Result<String, PathsError>)
    ensures
        r matches Ok(p) ==> exists|dir: Seq<char>| p@ == config_file_under(dir),
        r matches Err(e) ==> e == PathsError::NoConfigDirectory,
{
    match user_config_dir() {
        Some(dir) => Ok(config_file_in(dir.as_str())),
        None => Err(PathsError::NoConfigDirectory),
    }
}

/// `$XDG_STATE_HOME/clserver/<program>.log`.
pub fn log_file(program_name: &str) -> (r: Result<String, PathsError>)
    ensures
        r matches Ok(p) ==> exists|dir: Seq<char>| p@ == log_file_under(dir, program_name@),
        r matches Err(e) ==> e == PathsError::NoStateDirectory,
{
    match user_state_dir() {
        Some(dir) => Ok(log_file_in(dir.as_str(), program_name)),
        None => Err(PathsError::NoStateDirectory),
    }
}

} // verus!
