//! One server: its paths, how it is started and stopped through `screen`,
//! and how it is backed up and restored.

use crate::config::{
    effective_restore_mode, restore_mode_text, server_type_text, BackupConfig, GlobalConfig,
    RestoreMode, ServerConfig, UnknownJavaVersion,
};
use crate::paths::{join_path, path_join};
use crate::text::{
    chars_eq, chars_of, decimal, index_of, lines, push_signed_decimal, push_text,
    signed_decimal, slice_chars, split_lines, split_words, string_of, trim, views, words,
};
use vstd::prelude::*;

verus! {

/// How long a stop may take before it counts as failed, in seconds.
pub const DEFAULT_STOP_TIMEOUT_SECS: u64 = 900;

/// How often a stopping server is checked, in seconds.
pub const DEFAULT_STOP_POLL_INTERVAL_SECS: u64 = 5;

// ---------------------------------------------------------------------------
// Small texts
// ---------------------------------------------------------------------------

/// An exit code as `{:?}` shows an `Option<i32>`: `Some(<n>)` or `None`.
pub open spec fn exit_code_text(code: Option<i32>) -> Seq<char> {
    match code {
        Some(n) => "Some("@ + signed_decimal(n as int) + ")"@,
        None => "None"@,
    }
}

fn push_exit_code(m: &mut String, code: Option<i32>)
    ensures
        final(m)@ == old(m)@ + exit_code_text(code),
{
    match code {
        Some(n) => {
            m.append("Some(");
            push_signed_decimal(m, n as i64);
            m.append(")");
        },
        None => m.append("None"),
    }
}

/// What `char::to_uppercase` yields for a character.
pub uninterp spec fn upper_case(c: char) -> Seq<char>;

/// The upper-case mapping of `c` (`char::to_uppercase`), one or more characters.
#[verifier::external_body]
fn upper_case_of(c: char) -> (r: String)
    ensures
        r@ == upper_case(c),
{
    c.to_uppercase().collect::<String>()
}

/// A text with its first character in upper case.
pub open spec fn capitalized(s: Seq<char>) -> Seq<char> {
    if s.len() == 0 {
        seq![]
    } else {
        upper_case(s[0]) + s.drop_first()
    }
}

/// `value` with its first character in upper case.
pub fn capitalize(value: &str) -> (r: String)
    ensures
        r@ == capitalized(value@),
{
    let v = chars_of(value);
    if v.len() == 0 {
        return String::new();
    }
    let mut r = upper_case_of(v[0]);
    let ghost head = r@;
    let mut i: usize = 1;
    while i < v.len()
        invariant
            1 <= i <= v.len(),
            v@ == value@,
            r@ == head + v@.subrange(1, i as int),
        decreases v.len() - i,
    {
        r.push(v[i]);
        i = i + 1;
        assert(r@ =~= head + v@.subrange(1, i as int));
    }
    assert(v@.subrange(1, v.len() as int) =~= value@.drop_first());
    r
}

/// A path as text with one `/` at its end.
pub open spec fn with_trailing_slash(p: Seq<char>) -> Seq<char> {
    if p.len() > 0 && p.last() == '/' {
        p
    } else {
        p.push('/')
    }
}

/// The path as `rsync` reads a source directory: ending in `/`.
pub fn format_path_with_trailing_slash(path: &str) -> (r: String)
    ensures
        r@ == with_trailing_slash(path@),
{
    let v = chars_of(path);
    let mut r = String::from_str(path);
    if !(v.len() > 0 && v[v.len() - 1] == '/') {
        r.push('/');
    }
    r
}

/// Adding a trailing `/` twice adds it once.
pub proof fn lemma_trailing_slash_idempotent(p: Seq<char>)
    ensures
        with_trailing_slash(with_trailing_slash(p)) == with_trailing_slash(p),
        with_trailing_slash(p).last() == '/',
{
}

/// A configured number, or `not configured`.
pub open spec fn optional_text(value: Option<u16>) -> Seq<char> {
    match value {
        Some(n) => decimal(n as nat),
        None => "not configured"@,
    }
}

pub fn optional_display(value: Option<u16>) -> (r: String)
    ensures
        r@ == optional_text(value),
{
    match value {
        Some(n) => crate::text::decimal_string(n as u64),
        None => String::from_str("not configured"),
    }
}

pub open spec fn yes_no_text(value: bool) -> Seq<char> {
    if value {
        "yes"@
    } else {
        "no"@
    }
}

pub fn yes_no(value: bool) -> (r: &'static str)
    ensures
        r@ == yes_no_text(value),
{
    if value {
        "yes"
    } else {
        "no"
    }
}

// ---------------------------------------------------------------------------
// `screen -ls`
// ---------------------------------------------------------------------------

/// The session name in a line of `screen -ls`: the part of its first word
/// after the first `.`, when that part is not empty.
pub open spec fn screen_session_name(line: Seq<char>) -> Option<Seq<char>> {
    let ws = words(line);
    if ws.len() == 0 {
        None
    } else {
        let f = ws[0];
        let k = index_of(f, '.');
        if k + 1 < f.len() {
            Some(f.subrange(k + 1, f.len() as int))
        } else {
            None
        }
    }
}

/// Whether some line of `output` names a session called exactly `name`.
pub open spec fn session_listed(output: Seq<char>, name: Seq<char>) -> bool {
    exists|i: int|
        0 <= i < lines(output).len() && #[trigger] screen_session_name(lines(output)[i]) == Some(
            name,
        )
}

pub fn parse_screen_session_name(line: &Vec<char>) -> (r: Option<Vec<char>>)
    ensures
        match (r, screen_session_name(line@)) {
            (Some(n), Some(m)) => n@ == m,
            (None, None) => true,
            _ => false,
        },
{
    let ws = split_words(line);
    if ws.len() == 0 {
        return None;
    }
    let f = &ws[0];
    let k = crate::text::find_char(f, 0, '.');
    proof {
        assert(f@.subrange(0, f@.len() as int) =~= f@);
    }
    if k < f.len() && k + 1 < f.len() {
        Some(slice_chars(f, k + 1, f.len()))
    } else {
        None
    }
}

/// Whether `screen -ls` printed a session named exactly `expected_session_name`;
/// `1234.survival-backup` does not count as `survival`.
pub fn screen_session_exists_in_output(output: &str, expected_session_name: &str) -> (b: bool)
    ensures
        b == session_listed(output@, expected_session_name@),
{
    let ls = split_lines(output);
    let expected = chars_of(expected_session_name);
    let mut i: usize = 0;
    while i < ls.len()
        invariant
            i <= ls.len(),
            expected@ == expected_session_name@,
            ls@.len() == lines(output@).len(),
            forall|j: int| 0 <= j < ls@.len() ==> (#[trigger] ls@[j])@ == lines(output@)[j],
            forall|j: int|
                0 <= j < i ==> #[trigger] screen_session_name(lines(output@)[j]) != Some(
                    expected_session_name@,
                ),
        decreases ls.len() - i,
    {
        assert(ls@[i as int]@ == lines(output@)[i as int]);
        match parse_screen_session_name(&ls[i]) {
            Some(n) => {
                if chars_eq(&n, &expected) {
                    return true;
                }
            },
            None => {},
        }
        i = i + 1;
    }
    false
}


// ---------------------------------------------------------------------------
// Errors
// ---------------------------------------------------------------------------

/// Which `screen` call failed.
#[derive(Debug, Clone, Copy, PartialEq, Eq, Structural)]
pub enum ScreenOp {
    Start,
    Stop,
    Attach,
}

/// Why an operation on one server failed.
#[derive(Debug, PartialEq, Eq)]
pub enum ManagerError {
    /// Neither a start command nor a jar file is configured.
    MissingStartCommandOrJar { server_name: String },
    /// A server that is stopped through its `screen` session has no stop command.
    MissingStopCommand { server_name: String },
    /// `screen` reported a failure.
    ScreenFailed { op: ScreenOp, server_name: String, code: Option<i32> },
    /// The server did not stop in time.
    StopTimedOut { server_name: String },
    /// A local backup or restore needs `backup.localDir`.
    MissingLocalBackupDir { server_name: String },
    /// `restic backup` failed.
    RemoteBackupFailed { server_name: String, code: Option<i32> },
    /// `rsync` failed during a backup or a restore.
    RsyncFailed { operation: String, server_name: String, code: Option<i32> },
    /// `restic snapshots` failed; `stderr` is its trimmed error output.
    SnapshotStatusFailed { server_id: String, code: Option<i32>, stderr: String },
    /// `restic forget` failed.
    CleanupFailed { code: Option<i32> },
    /// A path that an operation reads does not exist.
    PathMissing { label: String, path: String },
    /// A restore cannot be confirmed without a terminal.
    NotATerminal,
    /// The restore confirmation did not match.
    RestoreCancelled,
}

pub open spec fn screen_failure_text(op: ScreenOp, name: Seq<char>) -> Seq<char> {
    match op {
        ScreenOp::Start => "Error starting server '"@ + name + "'"@,
        ScreenOp::Stop => "Error sending stop command to server '"@ + name + "'"@,
        ScreenOp::Attach => "Error attaching screen session '"@ + name + "'"@,
    }
}

pub open spec fn manager_error_text(e: ManagerError) -> Seq<char> {
    match e {
        ManagerError::MissingStartCommandOrJar { server_name } => "Server '"@ + server_name@
            + "' needs either startCommand or jarFile."@,
        ManagerError::MissingStopCommand { server_name } => "Server '"@ + server_name@
            + "' has no stopCommand configured. Minecraft servers should stop through RCON instead."@,
        ManagerError::ScreenFailed { op, server_name, code } => screen_failure_text(op, server_name@)
            + ". Return code: "@ + exit_code_text(code),
        ManagerError::StopTimedOut { server_name } => "Timed out waiting for server '"@
            + server_name@ + "' to stop"@,
        ManagerError::MissingLocalBackupDir { server_name } => "Server '"@ + server_name@
            + "' requires backup.localDir for local backup/restore operations."@,
        ManagerError::RemoteBackupFailed { server_name, code } => "Remote backup failed for server '"@
            + server_name@ + "'. Return code: "@ + exit_code_text(code),
        ManagerError::RsyncFailed { operation, server_name, code } => capitalized(operation@)
            + " failed for server '"@ + server_name@ + "'. Return code: "@ + exit_code_text(code),
        ManagerError::SnapshotStatusFailed { server_id, code, stderr } =>
            "Restic snapshot status failed for server '"@ + server_id@ + "'. Return code: "@
                + exit_code_text(code) + if stderr@.len() == 0 {
                seq![]
            } else {
                ": "@ + stderr@
            },
        ManagerError::CleanupFailed { code } => "Remote backup cleanup failed. Return code: "@
            + exit_code_text(code),
        ManagerError::PathMissing { label, path } => label@ + " '"@ + path@
            + "' does not exist or is unreadable"@,
        ManagerError::NotATerminal => "Cannot confirm restore because stdin is not a terminal"@,
        ManagerError::RestoreCancelled => "Restore cancelled"@,
    }
}

fn quoted(prefix: &str, value: &str, suffix: &str) -> (r: String)
    ensures
        r@ == prefix@ + value@ + suffix@,
{
    let mut r = String::from_str(prefix);
    r.append(value);
    r.append(suffix);
    r
}

impl ManagerError {
    pub fn message(&self) -> (m: String)
        ensures
            m@ == manager_error_text(*self),
    {
        match self {
            ManagerError::MissingStartCommandOrJar { server_name } => quoted(
                "Server '",
                server_name.as_str(),
                "' needs either startCommand or jarFile.",
            ),
            ManagerError::MissingStopCommand { server_name } => quoted(
                "Server '",
                server_name.as_str(),
                "' has no stopCommand configured. Minecraft servers should stop through RCON instead.",
            ),
            ManagerError::ScreenFailed { op, server_name, code } => {
                let mut m = match op {
                    ScreenOp::Start => quoted("Error starting server '", server_name.as_str(), "'"),
                    ScreenOp::Stop => quoted(
                        "Error sending stop command to server '",
                        server_name.as_str(),
                        "'",
                    ),
                    ScreenOp::Attach => quoted(
                        "Error attaching screen session '",
                        server_name.as_str(),
                        "'",
                    ),
                };
                m.append(". Return code: ");
                push_exit_code(&mut m, *code);
                m
            },
            ManagerError::StopTimedOut { server_name } => quoted(
                "Timed out waiting for server '",
                server_name.as_str(),
                "' to stop",
            ),
            ManagerError::MissingLocalBackupDir { server_name } => quoted(
                "Server '",
                server_name.as_str(),
                "' requires backup.localDir for local backup/restore operations.",
            ),
            ManagerError::RemoteBackupFailed { server_name, code } => {
                let mut m = quoted(
                    "Remote backup failed for server '",
                    server_name.as_str(),
                    "'. Return code: ",
                );
                push_exit_code(&mut m, *code);
                m
            },
            ManagerError::RsyncFailed { operation, server_name, code } => {
                let mut m = capitalize(operation.as_str());
                m.append(" failed for server '");
                m.append(server_name.as_str());
                m.append("'. Return code: ");
                push_exit_code(&mut m, *code);
                m
            },
            ManagerError::SnapshotStatusFailed { server_id, code, stderr } => {
                let mut m = quoted(
                    "Restic snapshot status failed for server '",
                    server_id.as_str(),
                    "'. Return code: ",
                );
                push_exit_code(&mut m, *code);
                let ghost before = m@;
                let e = chars_of(stderr.as_str());
                if e.len() > 0 {
                    m.append(": ");
                    m.append(stderr.as_str());
                }
                assert(m@ =~= before + if stderr@.len() == 0 {
                    seq![]
                } else {
                    ": "@ + stderr@
                });
                m
            },
            ManagerError::CleanupFailed { code } => {
                let mut m = String::from_str("Remote backup cleanup failed. Return code: ");
                push_exit_code(&mut m, *code);
                m
            },
            ManagerError::PathMissing { label, path } => {
                let mut m = quoted(label.as_str(), " '", path.as_str());
                m.append("' does not exist or is unreadable");
                m
            },
            ManagerError::NotATerminal => String::from_str(
                "Cannot confirm restore because stdin is not a terminal",
            ),
            ManagerError::RestoreCancelled => String::from_str("Restore cancelled"),
        }
    }
}


/// What waiting for a stopping server does next.
#[derive(Debug, Clone, Copy, PartialEq, Eq, Structural)]
pub enum WaitAction {
    /// Look whether the `screen` session still runs.
    CheckRunning,
    /// Sleep `secs` seconds, then look again.
    Sleep { secs: u64 },
    /// Stop waiting: `stopped` tells whether the session ended in time.
    Finish { stopped: bool },
}

/// One step of waiting up to `timeout_secs` for a session to end, polling
/// every `poll_interval_secs`: `elapsed` is the time since the wait began
/// and `running` what the latest look found (`None` before a look in this
/// round). Before the deadline the session is looked at; once it is gone
/// the wait has succeeded; while it runs the caller sleeps and looks again;
/// at the deadline the wait has timed out.
pub fn wait_step(
    elapsed: crate::duration::Duration,
    timeout_secs: u64,
    poll_interval_secs: u64,
    running: Option<bool>,
) -> (a: WaitAction)
    requires
        elapsed.wf(),
    ensures
        a == match running {
            None => if elapsed.secs < timeout_secs {
                WaitAction::CheckRunning
            } else {
                WaitAction::Finish { stopped: false }
            },
            Some(false) => WaitAction::Finish { stopped: true },
            Some(true) => WaitAction::Sleep { secs: poll_interval_secs },
        },
{
    match running {
        None => if elapsed.secs < timeout_secs {
            WaitAction::CheckRunning
        } else {
            WaitAction::Finish { stopped: false }
        },
        Some(false) => WaitAction::Finish { stopped: true },
        Some(true) => WaitAction::Sleep { secs: poll_interval_secs },
    }
}

// ---------------------------------------------------------------------------
// Modification times
// ---------------------------------------------------------------------------

/// `a` is no later than `b`; a time is seconds and nanoseconds since the
/// Unix epoch.
pub open spec fn time_le(a: (u64, u32), b: (u64, u32)) -> bool {
    a.0 < b.0 || (a.0 == b.0 && a.1 <= b.1)
}

fn is_later(a: (u64, u32), b: (u64, u32)) -> (r: bool)
    ensures
        r == !time_le(a, b),
{
    a.0 > b.0 || (a.0 == b.0 && a.1 > b.1)
}

/// The latest of `times`, `None` when there are none.
pub open spec fn latest_of(times: Seq<(u64, u32)>) -> Option<(u64, u32)>
    decreases times.len(),
{
    if times.len() == 0 {
        None
    } else {
        match latest_of(times.drop_last()) {
            Some(t) if time_le(times.last(), t) => Some(t),
            _ => Some(times.last()),
        }
    }
}

/// The latest of some times is one of them, and no time is later.
pub proof fn lemma_latest_of(times: Seq<(u64, u32)>)
    ensures
        (latest_of(times) is None) == (times.len() == 0),
        latest_of(times) matches Some(t) ==> times.contains(t) && forall|i: int|
            0 <= i < times.len() ==> time_le(#[trigger] times[i], t),
    decreases times.len(),
{
    if times.len() > 0 {
        let rest = times.drop_last();
        lemma_latest_of(rest);
        let t = latest_of(times)->0;
        assert forall|i: int| 0 <= i < times.len() implies time_le(#[trigger] times[i], t) by {
            if i < times.len() - 1 {
                assert(times[i] == rest[i]);
            }
        }
        if t != times.last() {
            let k = choose|k: int| 0 <= k < rest.len() && rest[k] == t;
            assert(times[k] == t);
        } else {
            assert(times[times.len() - 1] == t);
        }
    }
}

/// The latest of `times`: the newest modification time found in a directory
/// tree, given the times of the directory and of every entry beneath it.
pub fn latest_time(times: &Vec<(u64, u32)>) -> (r: Option<(u64, u32)>)
    ensures
        r == latest_of(times@),
        (r is None) == (times@.len() == 0),
        r matches Some(t) ==> times@.contains(t) && forall|i: int|
            0 <= i < times@.len() ==> time_le(#[trigger] times@[i], t),
{
    let mut best: Option<(u64, u32)> = None;
    let mut i: usize = 0;
    while i < times.len()
        invariant
            i <= times.len(),
            best == latest_of(times@.subrange(0, i as int)),
        decreases times.len() - i,
    {
        let t = times[i];
        assert(times@.subrange(0, i + 1).drop_last() =~= times@.subrange(0, i as int));
        best = match best {
            Some(b) => if is_later(t, b) {
                Some(t)
            } else {
                Some(b)
            },
            None => Some(t),
        };
        i = i + 1;
    }
    assert(times@.subrange(0, times.len() as int) =~= times@);
    proof {
        lemma_latest_of(times@);
    }
    best
}

/// The path of the newest regular file among directory `entries` (path,
/// whether it is a regular file, modification time): on equal times the one
/// listed last; `None` when no entry is a file.
pub fn latest_file(entries: &Vec<(String, bool, (u64, u32))>) -> (r: Option<String>)
    ensures
        (r is None) == (forall|i: int| 0 <= i < entries@.len() ==> !(#[trigger] entries@[i]).1),
        r matches Some(p) ==> exists|k: int|
            0 <= k < entries@.len() && (#[trigger] entries@[k]).1 && p@ == entries@[k].0@ && (forall|i: int|
                0 <= i < entries@.len() && (#[trigger] entries@[i]).1 ==> time_le(entries@[i].2, entries@[k].2))
                && (forall|i: int|
                k < i < entries@.len() && (#[trigger] entries@[i]).1 ==> !time_le(entries@[k].2, entries@[i].2)),
{
    let mut best: Option<usize> = None;
    let mut i: usize = 0;
    while i < entries.len()
        invariant
            i <= entries.len(),
            (best is None) == (forall|j: int| 0 <= j < i ==> !(#[trigger] entries@[j]).1),
            best matches Some(k) ==> k < i && entries@[k as int].1 && (forall|j: int|
                0 <= j < i && (#[trigger] entries@[j]).1 ==> time_le(entries@[j].2, entries@[k as int].2)) && (
            forall|j: int| k < j < i && (#[trigger] entries@[j]).1 ==> !time_le(entries@[k as int].2, entries@[j].2)),
        decreases entries.len() - i,
    {
        if entries[i].1 {
            match best {
                Some(k) => {
                    if !is_later(entries[k].2, entries[i].2) {
                        best = Some(i);
                    }
                },
                None => {
                    best = Some(i);
                },
            }
        }
        i = i + 1;
    }
    match best {
        Some(k) => Some(entries[k].0.clone()),
        None => None,
    }
}

// ---------------------------------------------------------------------------
// The server
// ---------------------------------------------------------------------------

/// Where a server's local mirror backup lives, and when it last changed.
pub struct LocalBackupStatus {
    pub path: Option<String>,
    pub exists: bool,
    /// The newest change in the mirror, as seconds and nanoseconds since the
    /// Unix epoch.
    pub latest_modified: Option<(u64, u32)>,
}

/// The newest remote snapshot of a server.
pub struct RemoteSnapshotSummary {
    pub short_id: Option<String>,
    pub time: Option<String>,
}

/// One configured server with its resolved paths and Java executable.
pub struct ServerManager {
    pub server_id: String,
    pub config: ServerConfig,
    pub java_bin: String,
    pub server_dir: String,
    pub log_dir: String,
    pub local_backup_dir: Option<String>,
    pub restic_env_file: Option<String>,
}

/// A `screen` session to open: in `working_dir`, after creating `log_dir`,
/// with `args`.
pub struct ScreenLaunch {
    pub working_dir: String,
    pub log_dir: String,
    pub args: Vec<String>,
}

/// One step of a composed server operation; each must succeed before the next.
#[derive(Debug, Clone, Copy, PartialEq, Eq, Structural)]
pub enum ServerStep {
    /// Send the configured stop command to the `screen` session.
    StopWithStopCommand,
    /// Stop a Minecraft server through RCON.
    StopMinecraft { stop_type: crate::cli::StopType },
    /// Poll until the `screen` session is gone; fail after the timeout.
    WaitUntilStopped { timeout_secs: u64, poll_interval_secs: u64 },
    /// Start the server.
    Start,
}

/// Arguments of `rsync` that mirror `source` into `destination`.
pub open spec fn rsync_arg_list(source: Seq<char>, destination: Seq<char>, dry_run: bool) -> Seq<
    Seq<char>,
> {
    seq!["-av"@, "--delete"@] + (if dry_run {
        seq!["--dry-run"@]
    } else {
        seq![]
    }) + seq![source, destination]
}

pub fn rsync_args(source: &str, destination: &str, dry_run: bool) -> (r: Vec<String>)
    ensures
        views(r@) == rsync_arg_list(source@, destination@, dry_run),
{
    let mut r: Vec<String> = Vec::new();
    push_text(&mut r, String::from_str("-av"));
    push_text(&mut r, String::from_str("--delete"));
    if dry_run {
        push_text(&mut r, String::from_str("--dry-run"));
    }
    push_text(&mut r, String::from_str(source));
    push_text(&mut r, String::from_str(destination));
    assert(views(r@) =~= rsync_arg_list(source@, destination@, dry_run));
    r
}

/// What a finished `rsync` of `operation` (`backup` or `restore`) means.
pub fn rsync_outcome(operation: &str, server_name: &str, success: bool, code: Option<i32>) -> (r:
    Result<(), ManagerError>)
    ensures
        success ==> r is Ok,
        !success ==> (r matches Err(ManagerError::RsyncFailed { operation: o, server_name: n, code: c })
            && o@ == operation@ && n@ == server_name@ && c == code),
{
    if success {
        Ok(())
    } else {
        Err(
            ManagerError::RsyncFailed {
                operation: String::from_str(operation),
                server_name: String::from_str(server_name),
                code,
            },
        )
    }
}

/// The command line generated for a server without `startCommand`.
pub open spec fn java_command(java_bin: Seq<char>, params: Seq<char>, jar: Seq<char>) -> Seq<char> {
    java_bin + " "@ + params + " -jar "@ + jar
}

/// How a server is started: its `startCommand`, or the Java command for its jar.
pub open spec fn start_command_of(m: ServerManager) -> Option<Seq<char>> {
    match m.config.start_command {
        Some(c) => Some(c@),
        None => match m.config.jar_file {
            Some(j) => Some(
                java_command(
                    m.java_bin@,
                    match m.config.java_params {
                        Some(p) => p@,
                        None => seq![],
                    },
                    j@,
                ),
            ),
            None => None,
        },
    }
}

/// A configured `startCommand` is how the server starts, whatever its jar,
/// Java parameters or Java executable; without one, the server starts with
/// `<java> <javaParams> -jar <jarFile>`, and with neither it cannot start.
pub proof fn lemma_start_command_of(m: ServerManager)
    ensures
        m.config.start_command matches Some(c) ==> start_command_of(m) == Some(c@),
        m.config.start_command is None ==> start_command_of(m) == match m.config.jar_file {
            Some(j) => Some(
                m.java_bin@ + " "@ + match m.config.java_params {
                    Some(p) => p@,
                    None => seq![],
                } + " -jar "@ + j@,
            ),
            None => None,
        },
{
}

/// A server that is not running is started by `bash -c` running its
/// `startCommand`, when one is configured.
pub proof fn lemma_start_runs_start_command(
    m: ServerManager,
    timestamp: Seq<char>,
    r: Result<Option<ScreenLaunch>, ManagerError>,
)
    requires
        start_result(m, false, timestamp, r),
        m.config.start_command is Some,
    ensures
        r matches Ok(Some(l)) && l.args@.len() == 8 && l.args@[5]@ == "bash"@ && l.args@[6]@ == "-c"@
            && l.args@[7]@ == m.config.start_command->0@,
{
    lemma_start_command_of(m);
    let l = r->Ok_0->0;
    assert(views(l.args@) == start_args_of(m, timestamp, m.config.start_command->0@));
    assert(views(l.args@).len() == l.args@.len());
    assert(views(l.args@)[7] == l.args@[7]@);
    assert(views(l.args@)[6] == l.args@[6]@);
    assert(views(l.args@)[5] == l.args@[5]@);
}

/// The `screen` arguments that start a server with `command`, logging to a
/// file named after `timestamp`.
pub open spec fn start_args_of(m: ServerManager, timestamp: Seq<char>, command: Seq<char>) -> Seq<Seq<char>> {
    seq![
        "-dmS"@,
        m.config.name@,
        "-L"@,
        "-Logfile"@,
        path_join(screen_log_dir_of(m), timestamp + ".log"@),
        "bash"@,
        "-c"@,
        command,
    ]
}

/// What starting a server comes to: nothing when its session runs, an error
/// when it has no start command, else a session to launch.
pub open spec fn start_result(
    m: ServerManager,
    running: bool,
    timestamp: Seq<char>,
    r: Result<Option<ScreenLaunch>, ManagerError>,
) -> bool {
    if running {
        r matches Ok(None)
    } else {
        match start_command_of(m) {
            None => r matches Err(ManagerError::MissingStartCommandOrJar { server_name: n }) && n@
                == m.config.name@,
            Some(c) => r matches Ok(Some(l)) && l.working_dir@ == m.server_dir@ && l.log_dir@
                == screen_log_dir_of(m) && views(l.args@) == start_args_of(m, timestamp, c),
        }
    }
}

/// `<logDir>/servers/<name>`: where the `screen` logs of a server go.
pub open spec fn screen_log_dir_of(m: ServerManager) -> Seq<char> {
    path_join(path_join(m.log_dir@, "servers"@), m.config.name@)
}

/// Where the local mirror of a server lives, when a local backup directory is set.
pub open spec fn local_backup_path_of(m: ServerManager) -> Option<Seq<char>> {
    match m.local_backup_dir {
        Some(root) => Some(path_join(root@, m.config.name@)),
        None => None,
    }
}

/// Source and destination of a restore.
pub open spec fn restore_paths_of(m: ServerManager, mode: RestoreMode) -> Option<(Seq<char>, Seq<char>)> {
    match m.local_backup_dir {
        Some(root) => {
            let mirror = path_join(root@, m.config.name@);
            match mode {
                RestoreMode::World => Some((path_join(mirror, "world"@), path_join(m.server_dir@, "world"@))),
                RestoreMode::All => Some((mirror, m.server_dir@)),
            }
        },
        None => None,
    }
}

fn text(s: &str) -> (r: String)
    ensures
        r@ == s@,
{
    String::from_str(s)
}

fn tagged(prefix: &str, value: &str) -> (r: String)
    ensures
        r@ == prefix@ + value@,
{
    let mut r = String::from_str(prefix);
    r.append(value);
    r
}

/// The manager of a server: its Java executable resolved, its directory
/// `<serverDir>/<name>`, and the log and backup settings it uses.
pub open spec fn manager_of(
    m: ServerManager,
    server_id: Seq<char>,
    config: ServerConfig,
    global: GlobalConfig,
    backup: BackupConfig,
    envs: Seq<(String, String)>,
) -> bool {
    &&& m.server_id@ == server_id
    &&& m.config == config
    &&& Some(m.java_bin@) == crate::config::resolve_java_bin_spec(config, envs)
    &&& m.server_dir@ == path_join(global.server_dir@, config.name@)
    &&& m.log_dir == global.log_dir
    &&& m.local_backup_dir == backup.local_dir
    &&& m.restic_env_file == backup.restic_env_file
}

/// Setting up a manager fails exactly when the server's Java executable
/// does not resolve.
pub open spec fn manager_result(
    r: Result<ServerManager, UnknownJavaVersion>,
    server_id: Seq<char>,
    config: ServerConfig,
    global: GlobalConfig,
    backup: BackupConfig,
    envs: Seq<(String, String)>,
) -> bool {
    match r {
        Ok(m) => manager_of(m, server_id, config, global, backup, envs),
        Err(e) => crate::config::resolve_java_bin_spec(config, envs) is None && e.java_version@
            == crate::config::java_version_key(config) && e.server_name@ == config.name@,
    }
}

impl ServerManager {
    /// Resolves a server's Java executable and paths:
    /// `<serverDir>/<name>` is its directory.
    pub fn new(
        server_id: String,
        config: ServerConfig,
        global: &GlobalConfig,
        backup: &BackupConfig,
        java_environments: &Vec<(String, String)>,
    ) -> (r: Result<Self, UnknownJavaVersion>)
        ensures
            manager_result(r, server_id@, config, *global, *backup, java_environments@),
    {
        let java_bin = match crate::config::resolve_java_bin(&config, java_environments) {
            Ok(b) => b,
            Err(e) => return Err(e),
        };
        let server_dir = join_path(global.server_dir.as_str(), config.name.as_str());
        Ok(
            ServerManager {
                server_id,
                config,
                java_bin,
                server_dir,
                log_dir: global.log_dir.clone(),
                local_backup_dir: crate::config::clone_opt_string(&backup.local_dir),
                restic_env_file: crate::config::clone_opt_string(&backup.restic_env_file),
            },
        )
    }

    /// The command typed into `bash -c` to start the server.
    pub fn start_command(&self) -> (r: Result<String, ManagerError>)
        ensures
            match start_command_of(*self) {
                Some(c) => r matches Ok(s) && s@ == c,
                None => r matches Err(ManagerError::MissingStartCommandOrJar { server_name: n })
                    && n@ == self.config.name@,
            },
            self.config.start_command matches Some(c) ==> (r matches Ok(s) && s@ == c@),
            self.config.start_command is None ==> match self.config.jar_file {
                Some(j) => (r matches Ok(s) && s@ == self.java_bin@ + " "@ + match self.config.java_params {
                    Some(p) => p@,
                    None => seq![],
                } + " -jar "@ + j@),
                None => r is Err,
            },
    {
        proof {
            lemma_start_command_of(*self);
        }
        match &self.config.start_command {
            Some(c) => Ok(c.clone()),
            None => match &self.config.jar_file {
                Some(j) => {
                    let mut r = self.java_bin.clone();
                    r.append(" ");
                    match &self.config.java_params {
                        Some(p) => r.append(p.as_str()),
                        None => {},
                    }
                    r.append(" -jar ");
                    r.append(j.as_str());
                    Ok(r)
                },
                None => Err(ManagerError::MissingStartCommandOrJar { server_name: self.config.name.clone() }),
            },
        }
    }

    pub fn screen_log_dir(&self) -> (r: String)
        ensures
            r@ == screen_log_dir_of(*self),
    {
        let servers = join_path(self.log_dir.as_str(), "servers");
        join_path(servers.as_str(), self.config.name.as_str())
    }

    /// `<screen log dir>/<timestamp>.log`.
    pub fn screen_log_file(&self, timestamp: &str) -> (r: String)
        ensures
            r@ == path_join(screen_log_dir_of(*self), timestamp@ + ".log"@),
    {
        let dir = self.screen_log_dir();
        let name = tagged(timestamp, ".log");
        join_path(dir.as_str(), name.as_str())
    }

    /// How to start the server, unless its `screen` session already runs
    /// (`None`): a detached, logged session named after the server that runs
    /// the start command through `bash -c`, in the server directory.
    pub fn start_server(&self, running: bool, timestamp: &str) -> (r: Result<Option<ScreenLaunch>, ManagerError>)
        ensures
            start_result(*self, running, timestamp@, r),
            !running && self.config.start_command is Some ==> (r matches Ok(Some(l)) && l.args@.len() == 8
                && l.args@[5]@ == "bash"@ && l.args@[6]@ == "-c"@ && l.args@[7]@ == self.config.start_command->0@),
    {
        let r = self.start_server_plan(running, timestamp);
        proof {
            if !running && self.config.start_command is Some {
                lemma_start_runs_start_command(*self, timestamp@, r);
            }
        }
        r
    }

    fn start_server_plan(&self, running: bool, timestamp: &str) -> (r: Result<Option<ScreenLaunch>, ManagerError>)
        ensures
            start_result(*self, running, timestamp@, r),
    {
        if running {
            return Ok(None);
        }
        let command = match self.start_command() {
            Ok(c) => c,
            Err(e) => return Err(e),
        };
        let log_file = self.screen_log_file(timestamp);
        let args = vec![
            text("-dmS"),
            self.config.name.clone(),
            text("-L"),
            text("-Logfile"),
            log_file,
            text("bash"),
            text("-c"),
            command,
        ];
        let launch = ScreenLaunch { working_dir: self.server_dir.clone(), log_dir: self.screen_log_dir(), args };
        assert(views(launch.args@) =~= start_args_of(*self, timestamp@, start_command_of(*self)->0));
        Ok(Some(launch))
    }

    /// What a finished `screen` call of `op` means for this server.
    pub fn screen_outcome(&self, op: ScreenOp, success: bool, code: Option<i32>) -> (r: Result<(), ManagerError>)
        ensures
            success ==> r is Ok,
            !success ==> (r matches Err(ManagerError::ScreenFailed { op: o, server_name: n, code: c })
                && o == op && n@ == self.config.name@ && c == code),
    {
        if success {
            Ok(())
        } else {
            Err(ManagerError::ScreenFailed { op, server_name: self.config.name.clone(), code })
        }
    }

    /// The `screen` arguments that type the stop command into the server's
    /// session, unless the session is gone (`None`).
    pub fn stop_with_stop_command(&self, running: bool) -> (r: Result<Option<Vec<String>>, ManagerError>)
        ensures
            !running ==> r matches Ok(None),
            running ==> match self.config.stop_command {
                Some(c) => r matches Ok(Some(args)) && views(args@) == seq![
                    "-S"@,
                    self.config.name@,
                    "-X"@,
                    "stuff"@,
                    c@.push('\n'),
                ],
                None => r matches Err(ManagerError::MissingStopCommand { server_name: n }) && n@
                    == self.config.name@,
            },
    {
        if !running {
            return Ok(None);
        }
        match &self.config.stop_command {
            Some(c) => {
                let mut line = c.clone();
                line.push('\n');
                let args = vec![text("-S"), self.config.name.clone(), text("-X"), text("stuff"), line];
                assert(views(args@) =~= seq![
                    "-S"@,
                    self.config.name@,
                    "-X"@,
                    "stuff"@,
                    c@.push('\n'),
                ]);
                Ok(Some(args))
            },
            None => Err(ManagerError::MissingStopCommand { server_name: self.config.name.clone() }),
        }
    }

    /// Stop with the stop command, then wait for the session to end.
    pub fn stop_with_stop_command_and_wait(&self) -> (r: Vec<ServerStep>)
        ensures
            r@ == seq![
                ServerStep::StopWithStopCommand,
                ServerStep::WaitUntilStopped {
                    timeout_secs: DEFAULT_STOP_TIMEOUT_SECS,
                    poll_interval_secs: DEFAULT_STOP_POLL_INTERVAL_SECS,
                },
            ],
    {
        let r = vec![
            ServerStep::StopWithStopCommand,
            ServerStep::WaitUntilStopped {
                timeout_secs: DEFAULT_STOP_TIMEOUT_SECS,
                poll_interval_secs: DEFAULT_STOP_POLL_INTERVAL_SECS,
            },
        ];
        assert(r@ =~= seq![
            ServerStep::StopWithStopCommand,
            ServerStep::WaitUntilStopped {
                timeout_secs: DEFAULT_STOP_TIMEOUT_SECS,
                poll_interval_secs: DEFAULT_STOP_POLL_INTERVAL_SECS,
            },
        ]);
        r
    }

    /// Stop with the stop command, wait, and start again.
    pub fn restart_with_stop_command(&self) -> (r: Vec<ServerStep>)
        ensures
            r@ == seq![
                ServerStep::StopWithStopCommand,
                ServerStep::WaitUntilStopped {
                    timeout_secs: DEFAULT_STOP_TIMEOUT_SECS,
                    poll_interval_secs: DEFAULT_STOP_POLL_INTERVAL_SECS,
                },
                ServerStep::Start,
            ],
    {
        let mut r = self.stop_with_stop_command_and_wait();
        r.push(ServerStep::Start);
        r
    }

    /// What waiting for the session to end means: nothing when it ended,
    /// a timeout error when it still runs.
    pub fn wait_until_stopped_or_timeout(&self, stopped: bool) -> (r: Result<(), ManagerError>)
        ensures
            stopped ==> r is Ok,
            !stopped ==> (r matches Err(ManagerError::StopTimedOut { server_name: n }) && n@
                == self.config.name@),
    {
        if stopped {
            Ok(())
        } else {
            Err(ManagerError::StopTimedOut { server_name: self.config.name.clone() })
        }
    }

    /// The `screen` arguments that attach to the server's session.
    pub fn attach_server(&self) -> (r: Vec<String>)
        ensures
            views(r@) == seq!["-r"@, self.config.name@],
    {
        let r = vec![text("-r"), self.config.name.clone()];
        assert(views(r@) =~= seq!["-r"@, self.config.name@]);
        r
    }
}


/// A local backup: create `backup_root`, then run `rsync` with `rsync_args`.
pub struct LocalBackupPlan {
    pub backup_root: String,
    pub rsync_args: Vec<String>,
}

/// A restore of `source` into `destination` with `rsync_args`. Before a real
/// restore the destination itself is created when `create_destination`
/// holds, its parent directory otherwise.
pub struct RestorePlan {
    pub mode: RestoreMode,
    pub source: String,
    pub destination: String,
    pub create_destination: bool,
    pub rsync_args: Vec<String>,
}

/// What the status of a server lists, one line each.
pub open spec fn status_text(
    m: ServerManager,
    screen_running: bool,
    server_dir_status: Seq<char>,
    latest_log: Option<Seq<char>>,
) -> Seq<Seq<char>> {
    seq![
        "ID: "@ + m.server_id@,
        "Server: "@ + m.config.name@,
        "Type: "@ + server_type_text(m.config.server_type),
        "Screen session: "@ + if screen_running {
            "running"@
        } else {
            "not running"@
        },
        "Server directory: "@ + m.server_dir@,
        "Server directory status: "@ + server_dir_status,
        "Screen log directory: "@ + screen_log_dir_of(m),
        "Latest screen log: "@ + match latest_log {
            Some(l) => l,
            None => "none found"@,
        },
        "Java executable: "@ + m.java_bin@,
        "Start mode: "@ + if m.config.start_command is Some {
            "custom startCommand"@
        } else {
            "generated Java command"@
        },
    ] + match m.config.jar_file {
        Some(j) => seq!["Jar file: "@ + j@],
        None => seq![],
    } + seq![
        "Stop command configured: "@ + yes_no_text(m.config.stop_command is Some),
        "RCON port: "@ + optional_text(m.config.rcon_port),
        "RCON password configured: "@ + yes_no_text(m.config.rcon_password is Some),
        "Backup enabled: "@ + yes_no_text(m.config.backup == Some(true)),
        "Restore mode: "@ + restore_mode_text(effective_restore_mode(m.config.restore)),
    ]
}

/// The status says whether the server's `screen` session runs, on its
/// fourth line, and a running and a stopped server differ on that line only.
pub proof fn lemma_status_screen_line(
    m: ServerManager,
    screen_running: bool,
    server_dir_status: Seq<char>,
    latest_log: Option<Seq<char>>,
)
    ensures
        status_text(m, screen_running, server_dir_status, latest_log).len() > 3,
        screen_running ==> status_text(m, screen_running, server_dir_status, latest_log)[3]
            == "Screen session: running"@,
        !screen_running ==> status_text(m, screen_running, server_dir_status, latest_log)[3]
            == "Screen session: not running"@,
        status_text(m, true, server_dir_status, latest_log).len() == status_text(
            m,
            false,
            server_dir_status,
            latest_log,
        ).len(),
        forall|i: int|
            0 <= i < status_text(m, true, server_dir_status, latest_log).len() && i != 3 ==> #[trigger] status_text(
                m,
                true,
                server_dir_status,
                latest_log,
            )[i] == status_text(m, false, server_dir_status, latest_log)[i],
{
    reveal_strlit("Screen session: ");
    reveal_strlit("running");
    reveal_strlit("not running");
    reveal_strlit("Screen session: running");
    reveal_strlit("Screen session: not running");
    assert("Screen session: "@ + "running"@ =~= "Screen session: running"@);
    assert("Screen session: "@ + "not running"@ =~= "Screen session: not running"@);
}

/// The lines shown before a restore: a dry run says that nothing changes, a
/// real restore asks for confirmation and warns about deleted files.
pub open spec fn restore_text(
    m: ServerManager,
    mode: RestoreMode,
    source: Seq<char>,
    destination: Seq<char>,
    dry_run: bool,
) -> Seq<Seq<char>> {
    let details = seq![
        "Mode: "@ + restore_mode_text(mode),
        "Source: "@ + source,
        "Destination: "@ + destination,
    ];
    if dry_run {
        seq!["Restore dry run for server '"@ + m.server_id@ + "'"@, "Server: "@ + m.config.name@]
            + details + seq!["No files will be copied, overwritten, or deleted."@]
    } else {
        seq!["Restore confirmation required"@, "ID: "@ + m.server_id@, "Server: "@ + m.config.name@]
            + details
            + seq!["This will overwrite destination files and delete destination files that are not present in the backup."@]
    }
}

/// The first eight characters of a snapshot ID.
pub open spec fn short_id_of(id: Seq<char>) -> Seq<char> {
    if id.len() <= 8 {
        id
    } else {
        id.take(8)
    }
}

/// The summary of a snapshot from the fields of `restic snapshots --json`:
/// its short ID, or the first eight characters of its ID, and its time.
pub fn snapshot_summary(short_id: Option<String>, id: Option<String>, time: Option<String>) -> (r:
    RemoteSnapshotSummary)
    ensures
        r.time == time,
        match (short_id, id) {
            (Some(s), _) => r.short_id == Some(s),
            (None, Some(i)) => r.short_id matches Some(s) && s@ == short_id_of(i@),
            (None, None) => r.short_id is None,
        },
{
    let short = match short_id {
        Some(s) => Some(s),
        None => match id {
            Some(i) => {
                let v = chars_of(i.as_str());
                let n: usize = if v.len() <= 8 {
                    v.len()
                } else {
                    8
                };
                let head = slice_chars(&v, 0, n);
                assert(head@ =~= short_id_of(i@));
                Some(string_of(&head))
            },
            None => None,
        },
    };
    RemoteSnapshotSummary { short_id: short, time }
}

/// Arguments of `restic snapshots` for the newest snapshot of a server, as JSON.
pub fn latest_remote_snapshot_args(server_id: &str) -> (r: Vec<String>)
    ensures
        views(r@) == seq![
            "snapshots"@,
            "--latest"@,
            "1"@,
            "--tag"@,
            "clserver"@,
            "--tag"@,
            "server-id:"@ + server_id@,
            "--json"@,
        ],
{
    let mut r = crate::remote_backup::restic::latest_snapshot_args(server_id);
    push_text(&mut r, text("--json"));
    r
}

/// The error of a failed `restic snapshots`, with its error output trimmed.
pub fn snapshot_status_failure(server_id: &str, code: Option<i32>, stderr: &str) -> (e: ManagerError)
    ensures
        e matches ManagerError::SnapshotStatusFailed { server_id: i, code: c, stderr: s } && i@
            == server_id@ && c == code && s@ == trim(stderr@),
{
    ManagerError::SnapshotStatusFailed {
        server_id: String::from_str(server_id),
        code,
        stderr: crate::text::trim_str(stderr),
    }
}

/// Arguments of the remote retention cleanup.
pub fn cleanup_remote_backups(dry_run: bool) -> (r: Vec<String>)
    ensures
        views(r@) == seq![
            "forget"@,
            "--keep-daily"@,
            "56"@,
            if dry_run {
                "--dry-run"@
            } else {
                "--prune"@
            },
        ],
{
    crate::remote_backup::restic::cleanup_args(dry_run)
}

/// What a finished `restic forget` means.
pub fn cleanup_outcome(success: bool, code: Option<i32>) -> (r: Result<(), ManagerError>)
    ensures
        success ==> r is Ok,
        !success ==> r == Err::<(), ManagerError>(ManagerError::CleanupFailed { code }),
{
    if success {
        Ok(())
    } else {
        Err(ManagerError::CleanupFailed { code })
    }
}

/// Checks the restic environment of the backup settings: the entries of its
/// env file, or of the process environment when none is configured.
pub fn restic_environment_status(backup: &BackupConfig, entries: &Vec<(String, String)>) -> (r: Result<
    (),
    crate::remote_backup::restic::ResticEnvError,
>)
    ensures
        r == crate::remote_backup::restic::restic_env_check(entries@, backup.restic_env_file),
{
    crate::remote_backup::restic::validate_restic_environment(entries, &backup.restic_env_file)
}

fn push_line(lines: &mut Vec<String>, label: &str, value: &str)
    ensures
        views(final(lines)@) == views(old(lines)@).push(label@ + value@),
{
    push_text(lines, tagged(label, value));
}

impl ServerManager {
    /// The local backup directory; a local backup or restore needs it.
    pub fn backup_root(&self) -> (r: Result<String, ManagerError>)
        ensures
            match self.local_backup_dir {
                Some(d) => r == Ok::<String, ManagerError>(d),
                None => r matches Err(ManagerError::MissingLocalBackupDir { server_name: n }) && n@
                    == self.config.name@,
            },
    {
        match &self.local_backup_dir {
            Some(d) => Ok(d.clone()),
            None => Err(ManagerError::MissingLocalBackupDir { server_name: self.config.name.clone() }),
        }
    }

    /// A local backup mirrors the server directory into `<localDir>/<name>`.
    pub fn backup_server(&self) -> (r: Result<LocalBackupPlan, ManagerError>)
        ensures
            match self.local_backup_dir {
                Some(d) => r matches Ok(p) && p.backup_root == d && views(p.rsync_args@)
                    == rsync_arg_list(with_trailing_slash(self.server_dir@), path_join(d@, self.config.name@), false),
                None => r matches Err(ManagerError::MissingLocalBackupDir { server_name: n }) && n@
                    == self.config.name@,
            },
    {
        let root = match self.backup_root() {
            Ok(d) => d,
            Err(e) => return Err(e),
        };
        let destination = join_path(root.as_str(), self.config.name.as_str());
        let source = format_path_with_trailing_slash(self.server_dir.as_str());
        let rsync_args = rsync_args(source.as_str(), destination.as_str(), false);
        Ok(LocalBackupPlan { backup_root: root, rsync_args })
    }

    /// Checks the restic environment that remote backups of this server use.
    pub fn validate_remote_backup_environment(&self, entries: &Vec<(String, String)>) -> (r: Result<
        (),
        crate::remote_backup::restic::ResticEnvError,
    >)
        ensures
            r == crate::remote_backup::restic::restic_env_check(entries@, self.restic_env_file),
    {
        crate::remote_backup::restic::validate_restic_environment(entries, &self.restic_env_file)
    }

    /// Arguments of `restic backup` for the server directory, tagged with the
    /// server's ID and name.
    pub fn remote_backup_server(&self) -> (r: Vec<String>)
        ensures
            views(r@) == seq![
                "backup"@,
                self.server_dir@,
                "--tag"@,
                "clserver"@,
                "--tag"@,
                "server-id:"@ + self.server_id@,
                "--tag"@,
                "server-name:"@ + self.config.name@,
            ],
    {
        crate::remote_backup::restic::backup_args(
            self.server_dir.as_str(),
            self.server_id.as_str(),
            self.config.name.as_str(),
        )
    }

    /// What a finished `restic backup` means for this server.
    pub fn remote_backup_outcome(&self, success: bool, code: Option<i32>) -> (r: Result<(), ManagerError>)
        ensures
            success ==> r is Ok,
            !success ==> (r matches Err(ManagerError::RemoteBackupFailed { server_name: n, code: c })
                && n@ == self.config.name@ && c == code),
    {
        if success {
            Ok(())
        } else {
            Err(ManagerError::RemoteBackupFailed { server_name: self.config.name.clone(), code })
        }
    }

    /// Source and destination of a restore in `mode`: the `world` directories,
    /// or the whole mirror and the whole server directory.
    pub fn restore_paths(&self, mode: RestoreMode) -> (r: Result<(String, String), ManagerError>)
        ensures
            match restore_paths_of(*self, mode) {
                Some((s, d)) => r matches Ok((rs, rd)) && rs@ == s && rd@ == d,
                None => r matches Err(ManagerError::MissingLocalBackupDir { server_name: n }) && n@
                    == self.config.name@,
            },
    {
        let root = match self.backup_root() {
            Ok(d) => d,
            Err(e) => return Err(e),
        };
        let mirror = join_path(root.as_str(), self.config.name.as_str());
        match mode {
            RestoreMode::World => Ok(
                (join_path(mirror.as_str(), "world"), join_path(self.server_dir.as_str(), "world")),
            ),
            RestoreMode::All => Ok((mirror, self.server_dir.clone())),
        }
    }

    /// A restore in the configured mode (`world` when none is set).
    pub fn restore_server(&self, dry_run: bool) -> (r: Result<RestorePlan, ManagerError>)
        ensures
            match restore_paths_of(*self, effective_restore_mode(self.config.restore)) {
                Some((s, d)) => r matches Ok(p) && p.mode == effective_restore_mode(self.config.restore)
                    && p.source@ == s && p.destination@ == d && p.create_destination == (p.mode
                    == RestoreMode::World) && views(p.rsync_args@) == rsync_arg_list(
                    with_trailing_slash(s),
                    d,
                    dry_run,
                ),
                None => r matches Err(ManagerError::MissingLocalBackupDir { server_name: n }) && n@
                    == self.config.name@,
            },
            r matches Ok(p) ==> p.mode == match self.config.restore {
                Some(x) => x,
                None => RestoreMode::World,
            },
            self.local_backup_dir matches Some(root) ==> (r matches Ok(p) && match p.mode {
                RestoreMode::All => p.source@ == path_join(root@, self.config.name@) && p.destination@
                    == self.server_dir@ && !p.create_destination,
                RestoreMode::World => p.source@ == path_join(path_join(root@, self.config.name@), "world"@)
                    && p.destination@ == path_join(self.server_dir@, "world"@) && p.create_destination,
            }),
    {
        proof {
            crate::config::lemma_effective_restore_mode(self.config.restore);
        }
        let mode = crate::config::restore_mode_or_default(self.config.restore);
        let (source, destination) = match self.restore_paths(mode) {
            Ok(p) => p,
            Err(e) => return Err(e),
        };
        let slashed = format_path_with_trailing_slash(source.as_str());
        let rsync_args = rsync_args(slashed.as_str(), destination.as_str(), dry_run);
        let create_destination = match mode {
            RestoreMode::World => true,
            RestoreMode::All => false,
        };
        Ok(RestorePlan { mode, source, destination, create_destination, rsync_args })
    }

    /// The lines shown before a restore.
    pub fn restore_lines(&self, plan: &RestorePlan, dry_run: bool) -> (r: Vec<String>)
        ensures
            views(r@) == restore_text(*self, plan.mode, plan.source@, plan.destination@, dry_run),
    {
        let mut r: Vec<String> = Vec::new();
        if dry_run {
            push_text(&mut r, quoted("Restore dry run for server '", self.server_id.as_str(), "'"));
            push_line(&mut r, "Server: ", self.config.name.as_str());
        } else {
            push_text(&mut r, text("Restore confirmation required"));
            push_line(&mut r, "ID: ", self.server_id.as_str());
            push_line(&mut r, "Server: ", self.config.name.as_str());
        }
        push_line(&mut r, "Mode: ", plan.mode.name());
        push_line(&mut r, "Source: ", plan.source.as_str());
        push_line(&mut r, "Destination: ", plan.destination.as_str());
        if dry_run {
            push_text(&mut r, text("No files will be copied, overwritten, or deleted."));
        } else {
            push_text(
                &mut r,
                text(
                    "This will overwrite destination files and delete destination files that are not present in the backup.",
                ),
            );
        }
        assert(views(r@) =~= restore_text(*self, plan.mode, plan.source@, plan.destination@, dry_run));
        r
    }

    /// The question that a real restore asks.
    pub fn restore_prompt(&self) -> (r: String)
        ensures
            r@ == "Type 'restore "@ + self.server_id@ + "' to continue: "@,
    {
        quoted("Type 'restore ", self.server_id.as_str(), "' to continue: ")
    }

    /// A restore goes ahead only when the answer, trimmed, is `restore <id>`.
    pub fn restore_confirmed(&self, response: &str) -> (r: Result<(), ManagerError>)
        ensures
            trim(response@) == "restore "@ + self.server_id@ ==> r is Ok,
            trim(response@) != "restore "@ + self.server_id@ ==> r == Err::<(), ManagerError>(
                ManagerError::RestoreCancelled,
            ),
    {
        let answer = chars_of(crate::text::trim_str(response).as_str());
        let expected = chars_of(tagged("restore ", self.server_id.as_str()).as_str());
        if chars_eq(&answer, &expected) {
            Ok(())
        } else {
            Err(ManagerError::RestoreCancelled)
        }
    }

    /// Where the local mirror of this server lives, when a local backup directory is set.
    pub fn local_backup_path(&self) -> (r: Option<String>)
        ensures
            match (r, local_backup_path_of(*self)) {
                (Some(p), Some(q)) => p@ == q,
                (None, None) => true,
                _ => false,
            },
    {
        match &self.local_backup_dir {
            Some(root) => Some(join_path(root.as_str(), self.config.name.as_str())),
            None => None,
        }
    }

    /// The status of the local mirror, given whether it exists on disk and
    /// the modification times of the mirror and of every entry beneath it.
    pub fn local_backup_status(&self, exists: bool, tree_times: &Vec<(u64, u32)>) -> (r: LocalBackupStatus)
        ensures
            match (r.path, local_backup_path_of(*self)) {
                (Some(p), Some(q)) => p@ == q,
                (None, None) => true,
                _ => false,
            },
            r.exists == (r.path is Some && exists),
            r.latest_modified == if r.exists {
                latest_of(tree_times@)
            } else {
                None
            },
            r.exists ==> match r.latest_modified {
                Some(t) => tree_times@.contains(t) && forall|i: int|
                    0 <= i < tree_times@.len() ==> time_le(#[trigger] tree_times@[i], t),
                None => tree_times@.len() == 0,
            },
    {
        let path = self.local_backup_path();
        let present = path.is_some() && exists;
        LocalBackupStatus {
            path,
            exists: present,
            latest_modified: if present {
                latest_time(tree_times)
            } else {
                None
            },
        }
    }

    /// The lines of the server's status: `server_dir_status` describes the
    /// server directory and `latest_log` is the newest screen log, if any.
    pub fn status_server(&self, screen_running: bool, server_dir_status: &str, latest_log: &Option<String>) -> (r:
        Vec<String>)
        ensures
            views(r@) == status_text(
                *self,
                screen_running,
                server_dir_status@,
                match latest_log {
                    Some(l) => Some(l@),
                    None => None,
                },
            ),
            r@.len() > 3,
            r@[3]@ == if screen_running {
                "Screen session: running"@
            } else {
                "Screen session: not running"@
            },
    {
        let mut r: Vec<String> = Vec::new();
        push_line(&mut r, "ID: ", self.server_id.as_str());
        push_line(&mut r, "Server: ", self.config.name.as_str());
        push_line(&mut r, "Type: ", self.config.server_type.name());
        push_line(
            &mut r,
            "Screen session: ",
            if screen_running {
                "running"
            } else {
                "not running"
            },
        );
        push_line(&mut r, "Server directory: ", self.server_dir.as_str());
        push_line(&mut r, "Server directory status: ", server_dir_status);
        let log_dir = self.screen_log_dir();
        push_line(&mut r, "Screen log directory: ", log_dir.as_str());
        match latest_log {
            Some(l) => push_line(&mut r, "Latest screen log: ", l.as_str()),
            None => push_line(&mut r, "Latest screen log: ", "none found"),
        }
        push_line(&mut r, "Java executable: ", self.java_bin.as_str());
        push_line(
            &mut r,
            "Start mode: ",
            if self.config.start_command.is_some() {
                "custom startCommand"
            } else {
                "generated Java command"
            },
        );
        match &self.config.jar_file {
            Some(j) => push_line(&mut r, "Jar file: ", j.as_str()),
            None => {},
        }
        push_line(&mut r, "Stop command configured: ", yes_no(self.config.stop_command.is_some()));
        let port = optional_display(self.config.rcon_port);
        push_line(&mut r, "RCON port: ", port.as_str());
        push_line(&mut r, "RCON password configured: ", yes_no(self.config.rcon_password.is_some()));
        let backup = match self.config.backup {
            Some(b) => b,
            None => false,
        };
        push_line(&mut r, "Backup enabled: ", yes_no(backup));
        let mode = crate::config::restore_mode_or_default(self.config.restore);
        push_line(&mut r, "Restore mode: ", mode.name());
        let ghost log_view = match latest_log {
            Some(l) => Some(l@),
            None => None,
        };
        assert(views(r@) =~= status_text(*self, screen_running, server_dir_status@, log_view));
        proof {
            lemma_status_screen_line(*self, screen_running, server_dir_status@, log_view);
            assert(views(r@)[3] == r@[3]@);
        }
        r
    }
}

/// How the server directory looks on disk.
#[derive(Debug, Clone, Copy, PartialEq, Eq, Structural)]
pub enum PathKind {
    Directory,
    NotDirectory,
    Missing,
}

pub fn path_status(kind: PathKind) -> (r: &'static str)
    ensures
        r@ == match kind {
            PathKind::Directory => "exists"@,
            PathKind::NotDirectory => "exists, but is not a directory"@,
            PathKind::Missing => "missing"@,
        },
{
    match kind {
        PathKind::Directory => "exists",
        PathKind::NotDirectory => "exists, but is not a directory",
        PathKind::Missing => "missing",
    }
}

} // verus!
