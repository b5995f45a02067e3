//! The configuration model, its validation, and Java resolution.

use crate::envfile::env_lookup;
use crate::text::{
    blank, chars_of, chars_eq, index_of, is_blank, lines, push_text, slice_chars, sort_by_key,
    sorted_by_key, split_lines, string_of, trim, trim_chars, views, SortKey,
};
use vstd::prelude::*;

verus! {

/// Global filesystem settings shared by every server.
pub struct GlobalConfig {
    /// Base directory holding one directory per server name.
    pub server_dir: String,
    /// Base directory for per-server `screen` logs.
    pub log_dir: String,
}

/// Which tool keeps the remote backups.
#[derive(Debug, Clone, Copy, PartialEq, Eq, Structural)]
pub enum RemoteBackupProviderConfig {
    Restic,
    Kopia,
}

/// Backup tool settings.
pub struct BackupConfig {
    /// Base directory for local mirror backups.
    pub local_dir: Option<String>,
    /// Shell-style env file loaded for restic commands.
    pub restic_env_file: Option<String>,
    /// Remote backup tool; restic when missing.
    pub provider: Option<RemoteBackupProviderConfig>,
    /// Shell-style env file loaded for kopia commands.
    pub kopia_env_file: Option<String>,
}

/// Discord notification settings.
pub struct DiscordConfig {
    /// Env file that defines `CLSERVER_DISCORD_WEBHOOK_URL`.
    pub webhook_env_file: Option<String>,
}

/// Notification settings.
pub struct NotificationsConfig {
    /// Whether notifications are sent at all; off when missing.
    pub enabled: Option<bool>,
    /// Whether a summary is sent after maintenance; on when missing.
    pub maintenance_summary: Option<bool>,
    pub discord: DiscordConfig,
}

/// Supported server runtime categories.
#[derive(Debug, Clone, Copy, PartialEq, Eq, Structural)]
pub enum ServerType {
    /// Stopped through RCON.
    Minecraft,
    /// Stopped with a command sent to its `screen` session.
    Velocity,
    /// Stopped with a command sent to its `screen` session.
    Hytale,
}

pub open spec fn server_type_text(t: ServerType) -> Seq<char> {
    match t {
        ServerType::Minecraft => "minecraft"@,
        ServerType::Velocity => "velocity"@,
        ServerType::Hytale => "hytale"@,
    }
}

impl ServerType {
    /// The lowercase name used in the configuration file.
    pub fn name(&self) -> (s: &'static str)
        ensures
            s@ == server_type_text(*self),
    {
        match self {
            ServerType::Minecraft => "minecraft",
            ServerType::Velocity => "velocity",
            ServerType::Hytale => "hytale",
        }
    }
}

/// Scope to restore from a server backup.
#[derive(Debug, Clone, Copy, PartialEq, Eq, Structural)]
pub enum RestoreMode {
    /// Only the `world` directory.
    World,
    /// Every backed-up file of the server.
    All,
}

pub open spec fn restore_mode_text(m: RestoreMode) -> Seq<char> {
    match m {
        RestoreMode::World => "world"@,
        RestoreMode::All => "all"@,
    }
}

impl RestoreMode {
    pub fn name(&self) -> (s: &'static str)
        ensures
            s@ == restore_mode_text(*self),
    {
        match self {
            RestoreMode::World => "world",
            RestoreMode::All => "all",
        }
    }
}

/// The restore mode of a server: `world` when none is configured.
pub open spec fn effective_restore_mode(m: Option<RestoreMode>) -> RestoreMode {
    match m {
        Some(m) => m,
        None => RestoreMode::World,
    }
}

/// A configured restore mode is the one used; only a missing one means
/// `world`.
pub proof fn lemma_effective_restore_mode(m: Option<RestoreMode>)
    ensures
        m matches Some(x) ==> effective_restore_mode(m) == x,
        m is None ==> effective_restore_mode(m) == RestoreMode::World,
{
}

pub fn restore_mode_or_default(m: Option<RestoreMode>) -> (r: RestoreMode)
    ensures
        r == effective_restore_mode(m),
        m matches Some(x) ==> r == x,
        m is None ==> r == RestoreMode::World,
{
    proof {
        lemma_effective_restore_mode(m);
    }
    match m {
        Some(m) => m,
        None => RestoreMode::World,
    }
}

/// Per-server configuration from a `[servers.<id>]` table.
pub struct ServerConfig {
    /// Real server directory and `screen` session name.
    pub name: String,
    pub server_type: ServerType,
    /// Java executable; takes precedence over `java_version`.
    pub java_bin: Option<String>,
    /// Key of `[java_environments]`; `default` when neither this nor `java_bin` is set.
    pub java_version: Option<String>,
    pub java_params: Option<String>,
    pub jar_file: Option<String>,
    /// Full start command; bypasses the generated Java command.
    pub start_command: Option<String>,
    /// Command typed into the `screen` session to stop a Velocity or Hytale server.
    pub stop_command: Option<String>,
    pub rcon_port: Option<u16>,
    pub rcon_password: Option<String>,
    /// Whether whole-fleet maintenance starts this server; off when missing.
    pub enabled: Option<bool>,
    /// Whether backup workflows include this server; off when missing.
    pub backup: Option<bool>,
    /// Restore scope; `world` when missing.
    pub restore: Option<RestoreMode>,
}

pub fn clone_opt_string(o: &Option<String>) -> (r: Option<String>)
    ensures
        r == *o,
{
    match o {
        Some(s) => Some(s.clone()),
        None => None,
    }
}

impl Clone for ServerConfig {
    fn clone(&self) -> (r: Self)
        ensures
            r == *self,
    {
        ServerConfig {
            name: self.name.clone(),
            server_type: self.server_type,
            java_bin: clone_opt_string(&self.java_bin),
            java_version: clone_opt_string(&self.java_version),
            java_params: clone_opt_string(&self.java_params),
            jar_file: clone_opt_string(&self.jar_file),
            start_command: clone_opt_string(&self.start_command),
            stop_command: clone_opt_string(&self.stop_command),
            rcon_port: self.rcon_port,
            rcon_password: clone_opt_string(&self.rcon_password),
            enabled: self.enabled,
            backup: self.backup,
            restore: self.restore,
        }
    }
}

/// The whole configuration file. Java environments and servers are kept as
/// lists of `(key, value)` entries; a TOML table cannot hold one key twice.
pub struct Config {
    pub global: GlobalConfig,
    /// Named Java executables.
    pub java_environments: Vec<(String, String)>,
    /// Servers keyed by their ID.
    pub servers: Vec<(String, ServerConfig)>,
    pub backup: BackupConfig,
    pub notifications: NotificationsConfig,
}

/// No key occurs twice among the entries.
pub open spec fn distinct_keys<T>(entries: Seq<(String, T)>) -> bool {
    forall|i: int, j: int| 0 <= i < j < entries.len() ==> #[trigger] entries[i].0@ != #[trigger] entries[j].0@
}

impl Config {
    /// The configuration came from a TOML file: its table keys are distinct.
    pub open spec fn wf(&self) -> bool {
        &&& distinct_keys(self.java_environments@)
        &&& distinct_keys(self.servers@)
    }
}

impl Default for Config {
    /// An empty configuration, as an empty file reads.
    fn default() -> (c: Self)
        ensures
            c.global.server_dir@.len() == 0,
            c.global.log_dir@.len() == 0,
            c.java_environments@.len() == 0,
            c.servers@.len() == 0,
            c.backup.local_dir is None,
            c.backup.restic_env_file is None,
            c.backup.provider is None,
            c.backup.kopia_env_file is None,
            c.notifications.enabled is None,
            c.notifications.maintenance_summary is None,
            c.notifications.discord.webhook_env_file is None,
            c.wf(),
    {
        Config {
            global: GlobalConfig { server_dir: String::new(), log_dir: String::new() },
            java_environments: Vec::new(),
            servers: Vec::new(),
            backup: BackupConfig {
                local_dir: None,
                restic_env_file: None,
                provider: None,
                kopia_env_file: None,
            },
            notifications: NotificationsConfig {
                enabled: None,
                maintenance_summary: None,
                discord: DiscordConfig { webhook_env_file: None },
            },
        }
    }
}

/// A flag that is off when missing.
pub open spec fn flag(o: Option<bool>) -> bool {
    o == Some(true)
}

/// Whether some server takes part in backups.
pub open spec fn any_backup_enabled(servers: Seq<(String, ServerConfig)>) -> bool {
    exists|i: int| 0 <= i < servers.len() && flag(#[trigger] servers[i].1.backup)
}

pub fn has_backup_enabled_servers(config: &Config) -> (b: bool)
    ensures
        b == any_backup_enabled(config.servers@),
{
    let mut i: usize = 0;
    while i < config.servers.len()
        invariant
            i <= config.servers.len(),
            forall|k: int| 0 <= k < i ==> !flag(#[trigger] config.servers@[k].1.backup),
        decreases config.servers.len() - i,
    {
        if config.servers[i].1.backup == Some(true) {
            assert(flag(config.servers@[i as int].1.backup));
            return true;
        }
        i = i + 1;
    }
    false
}

/// The confirmation printed after a successful configuration check.
pub open spec fn restic_check_success_text(backup: BackupConfig) -> Seq<char> {
    match backup.restic_env_file {
        Some(f) => "Remote backup Restic environment check valid using '"@ + f@ + "'."@,
        None => "Remote backup Restic environment check valid using process environment."@,
    }
}

/// The confirmation that the restic environment was checked; only when some
/// server takes part in backups.
pub fn restic_environment_check_success_message(config: &Config) -> (r: Option<String>)
    ensures
        any_backup_enabled(config.servers@) ==> (r matches Some(m) && m@ == restic_check_success_text(config.backup)),
        !any_backup_enabled(config.servers@) ==> r is None,
{
    if !has_backup_enabled_servers(config) {
        return None;
    }
    match &config.backup.restic_env_file {
        Some(f) => {
            let mut m = String::from_str("Remote backup Restic environment check valid using '");
            m.append(f.as_str());
            m.append("'.");
            Some(m)
        },
        None => Some(
            String::from_str("Remote backup Restic environment check valid using process environment."),
        ),
    }
}


/// An optional text that is present but blank.
pub open spec fn present_but_blank(o: Option<String>) -> bool {
    match o {
        Some(s) => blank(s@),
        None => false,
    }
}

/// An optional text that is missing or blank.
pub open spec fn missing_or_blank(o: Option<String>) -> bool {
    match o {
        Some(s) => blank(s@),
        None => true,
    }
}

pub fn is_present_but_blank(o: &Option<String>) -> (b: bool)
    ensures
        b == present_but_blank(*o),
{
    match o {
        Some(s) => is_blank(s.as_str()),
        None => false,
    }
}

pub fn is_missing_or_blank(o: &Option<String>) -> (b: bool)
    ensures
        b == missing_or_blank(*o),
{
    match o {
        Some(s) => is_blank(s.as_str()),
        None => true,
    }
}

/// A one-element list when `cond` holds, else an empty one.
pub open spec fn when(cond: bool, m: Seq<char>) -> Seq<Seq<char>> {
    if cond {
        seq![m]
    } else {
        seq![]
    }
}

/// Whether an entry with key `k` exists.
pub open spec fn has_key<T>(entries: Seq<(String, T)>, k: Seq<char>) -> bool {
    exists|i: int| 0 <= i < entries.len() && #[trigger] entries[i].0@ == k
}

pub fn contains_key<T>(entries: &Vec<(String, T)>, k: &str) -> (b: bool)
    ensures
        b == has_key(entries@, k@),
{
    let mut i: usize = 0;
    while i < entries.len()
        invariant
            i <= entries.len(),
            forall|j: int| 0 <= j < i ==> #[trigger] entries@[j].0@ != k@,
        decreases entries.len() - i,
    {
        if crate::text::str_eq(entries[i].0.as_str(), k) {
            return true;
        }
        i = i + 1;
    }
    false
}

/// Problems of the Java environments.
pub open spec fn java_env_errors(envs: Seq<(String, String)>) -> Seq<Seq<char>>
    decreases envs.len(),
{
    if envs.len() == 0 {
        seq![]
    } else {
        let (name, bin) = envs.last();
        java_env_errors(envs.drop_last()) + when(blank(name@), "java environment names cannot be empty"@)
            + when(
            blank(bin@),
            "java environment '"@ + name@ + "' has an empty executable path"@,
        )
    }
}

fn validate_java_environments(envs: &Vec<(String, String)>, errors: &mut Vec<String>)
    ensures
        views(final(errors)@) == views(old(errors)@) + java_env_errors(envs@),
{
    let ghost start = views(errors@);
    let mut i: usize = 0;
    while i < envs.len()
        invariant
            i <= envs.len(),
            views(errors@) == start + java_env_errors(envs@.take(i as int)),
        decreases envs.len() - i,
    {
        proof {
            assert(envs@.take(i + 1).drop_last() =~= envs@.take(i as int));
        }
        let ghost before = views(errors@);
        let name = &envs[i].0;
        let bin = &envs[i].1;
        let name_blank = is_blank(name.as_str());
        if name_blank {
            push_text(errors, String::from_str("java environment names cannot be empty"));
        }
        let ghost mid = views(errors@);
        if is_blank(bin.as_str()) {
            let mut m = String::from_str("java environment '");
            m.append(name.as_str());
            m.append("' has an empty executable path");
            push_text(errors, m);
        }
        proof {
            let e = envs@.take(i + 1);
            assert(e.last() == envs@[i as int]);
            assert(views(errors@) =~= before + when(blank(name@), "java environment names cannot be empty"@)
                + when(
                blank(bin@),
                "java environment '"@ + name@ + "' has an empty executable path"@,
            ));
        }
        i = i + 1;
    }
    assert(envs@.take(envs.len() as int) =~= envs@);
}

/// Index of the last server before `i` whose trimmed name is `t`.
pub open spec fn last_named_before(servers: Seq<(String, ServerConfig)>, i: int, t: Seq<char>) -> Option<int>
    decreases i,
{
    if i <= 0 {
        None
    } else if trim(servers[i - 1].1.name@) == t {
        Some(i - 1)
    } else {
        last_named_before(servers, i - 1, t)
    }
}

/// The complaint about server `i` reusing the name of an earlier one.
pub open spec fn duplicate_name_error(servers: Seq<(String, ServerConfig)>, i: int) -> Seq<Seq<char>> {
    let t = trim(servers[i].1.name@);
    if t.len() == 0 {
        seq![]
    } else {
        match last_named_before(servers, i, t) {
            Some(j) => seq![
                "server '"@ + servers[j].0@ + "' and server '"@ + servers[i].0@ + "' both use name '"@
                    + servers[i].1.name@
                    + "'. Server names must be unique because they map to directories and screen sessions."@,
            ],
            None => seq![],
        }
    }
}

/// Complaints about servers `0..n` sharing a name.
pub open spec fn duplicate_name_errors(servers: Seq<(String, ServerConfig)>, n: int) -> Seq<Seq<char>>
    decreases n,
{
    if n <= 0 {
        seq![]
    } else {
        duplicate_name_errors(servers, n - 1) + duplicate_name_error(servers, n - 1)
    }
}

fn validate_unique_server_names(servers: &Vec<(String, ServerConfig)>, errors: &mut Vec<String>)
    ensures
        views(final(errors)@) == views(old(errors)@) + duplicate_name_errors(servers@, servers@.len() as int),
{
    let ghost start = views(errors@);
    let mut i: usize = 0;
    while i < servers.len()
        invariant
            i <= servers.len(),
            views(errors@) == start + duplicate_name_errors(servers@, i as int),
        decreases servers.len() - i,
    {
        let ghost before = views(errors@);
        let name = crate::text::trim_str(servers[i].1.name.as_str());
        let name_chars = crate::text::chars_of(name.as_str());
        if name_chars.len() > 0 {
            let mut j = i;
            let mut found = false;
            while j > 0 && !found
                invariant
                    j <= i < servers.len(),
                    name@ == trim(servers@[i as int].1.name@),
                    name_chars@ == name@,
                    found ==> j < i && trim(servers@[j as int].1.name@) == name@,
                    !found ==> last_named_before(servers@, i as int, name@) == last_named_before(servers@, j as int, name@),
                    found ==> last_named_before(servers@, i as int, name@) == Some(j as int),
                decreases j + (if found { 0int } else { 1int }),
            {
                let other = crate::text::trim_str(servers[j - 1].1.name.as_str());
                let other_chars = crate::text::chars_of(other.as_str());
                if crate::text::chars_eq(&other_chars, &name_chars) {
                    found = true;
                    j = j - 1;
                } else {
                    j = j - 1;
                }
            }
            if found {
                let mut m = String::from_str("server '");
                m.append(servers[j].0.as_str());
                m.append("' and server '");
                m.append(servers[i].0.as_str());
                m.append("' both use name '");
                m.append(servers[i].1.name.as_str());
                m.append("'. Server names must be unique because they map to directories and screen sessions.");
                push_text(errors, m);
            }
        }
        proof {
            assert(views(errors@) =~= before + duplicate_name_error(servers@, i as int));
        }
        i = i + 1;
    }
}


/// `label has an empty <field>` when the field is present but blank.
pub open spec fn empty_field_error(label: Seq<char>, field: Seq<char>, value: Option<String>) -> Seq<Seq<char>> {
    when(present_but_blank(value), label + " has an empty "@ + field)
}

/// Complaints about the Java settings of a server.
pub open spec fn java_setting_errors(
    label: Seq<char>,
    server: ServerConfig,
    envs: Seq<(String, String)>,
) -> Seq<Seq<char>> {
    match server.java_version {
        Some(v) if !blank(v@) => when(
            missing_or_blank(server.java_bin) && !has_key(envs, v@),
            label + " references unknown javaVersion '"@ + v@ + "'"@,
        ),
        _ => when(
            missing_or_blank(server.java_bin) && !has_key(envs, "default"@),
            label
                + " does not set javaBin or javaVersion, but no 'default' Java environment is configured"@,
        ),
    }
}

/// Complaints about what a server of its type needs to be stopped.
pub open spec fn type_setting_errors(label: Seq<char>, server: ServerConfig) -> Seq<Seq<char>> {
    match server.server_type {
        ServerType::Minecraft => when(
            server.rcon_port is None,
            label + " is a Minecraft server but has no rconPort"@,
        ) + when(
            missing_or_blank(server.rcon_password),
            label + " is a Minecraft server but has no rconPassword"@,
        ),
        _ => when(
            missing_or_blank(server.stop_command),
            label + " is a "@ + server_type_text(server.server_type) + " server but has no stopCommand"@,
        ),
    }
}

/// `prev` followed by every complaint about the server with ID `key`.
pub open spec fn with_server_errors(
    prev: Seq<Seq<char>>,
    key: Seq<char>,
    server: ServerConfig,
    envs: Seq<(String, String)>,
) -> Seq<Seq<char>> {
    let label = "server '"@ + key + "'"@;
    prev + when(blank(key), "server table names cannot be empty"@) + when(
        blank(server.name@),
        label + " is missing a non-empty name"@,
    ) + empty_field_error(label, "javaBin"@, server.java_bin) + empty_field_error(
        label,
        "javaVersion"@,
        server.java_version,
    ) + empty_field_error(label, "javaParams"@, server.java_params) + empty_field_error(
        label,
        "jarFile"@,
        server.jar_file,
    ) + empty_field_error(label, "startCommand"@, server.start_command) + empty_field_error(
        label,
        "stopCommand"@,
        server.stop_command,
    ) + empty_field_error(label, "rconPassword"@, server.rcon_password) + when(
        missing_or_blank(server.start_command) && missing_or_blank(server.jar_file),
        label + " needs either startCommand or jarFile to start"@,
    ) + java_setting_errors(label, server, envs) + type_setting_errors(label, server)
}

fn check_empty_field(label: &String, field: &str, value: &Option<String>, errors: &mut Vec<String>)
    ensures
        views(final(errors)@) == views(old(errors)@) + empty_field_error(label@, field@, *value),
{
    if is_present_but_blank(value) {
        let mut m = label.clone();
        m.append(" has an empty ");
        m.append(field);
        push_text(errors, m);
    } else {
        assert(views(errors@) =~= views(errors@) + seq![]);
    }
}

fn check_java_settings(label: &String, server: &ServerConfig, envs: &Vec<(String, String)>, errors: &mut Vec<String>)
    ensures
        views(final(errors)@) == views(old(errors)@) + java_setting_errors(label@, *server, envs@),
{
    let bin_missing = is_missing_or_blank(&server.java_bin);
    let version_given = match &server.java_version {
        Some(v) => !is_blank(v.as_str()),
        None => false,
    };
    if version_given {
        let v = server.java_version.as_ref().unwrap();
        if bin_missing && !contains_key(envs, v.as_str()) {
            let mut m = label.clone();
            m.append(" references unknown javaVersion '");
            m.append(v.as_str());
            m.append("'");
            push_text(errors, m);
        } else {
            assert(views(errors@) =~= views(errors@) + seq![]);
        }
    } else {
        if bin_missing && !contains_key(envs, "default") {
            let mut m = label.clone();
            m.append(" does not set javaBin or javaVersion, but no 'default' Java environment is configured");
            push_text(errors, m);
        } else {
            assert(views(errors@) =~= views(errors@) + seq![]);
        }
    }
}

fn check_type_settings(label: &String, server: &ServerConfig, errors: &mut Vec<String>)
    ensures
        views(final(errors)@) == views(old(errors)@) + type_setting_errors(label@, *server),
{
    let ghost start = views(errors@);
    match server.server_type {
        ServerType::Minecraft => {
            if server.rcon_port.is_none() {
                let mut m = label.clone();
                m.append(" is a Minecraft server but has no rconPort");
                push_text(errors, m);
            }
            let ghost mid = views(errors@);
            if is_missing_or_blank(&server.rcon_password) {
                let mut m = label.clone();
                m.append(" is a Minecraft server but has no rconPassword");
                push_text(errors, m);
            }
            assert(views(errors@) =~= start + type_setting_errors(label@, *server));
        },
        _ => {
            if is_missing_or_blank(&server.stop_command) {
                let mut m = label.clone();
                m.append(" is a ");
                m.append(server.server_type.name());
                m.append(" server but has no stopCommand");
                push_text(errors, m);
            }
            assert(views(errors@) =~= start + type_setting_errors(label@, *server));
        },
    }
}

/// Adds the problems of one `[servers.<key>]` entry to `errors`.
fn validate_server_config(
    server_key: &String,
    server: &ServerConfig,
    envs: &Vec<(String, String)>,
    errors: &mut Vec<String>,
)
    ensures
        views(final(errors)@) == with_server_errors(views(old(errors)@), server_key@, *server, envs@),
{
    let ghost start = views(errors@);
    let mut label = String::from_str("server '");
    label.append(server_key.as_str());
    label.append("'");
    let ghost l = label@;
    if is_blank(server_key.as_str()) {
        push_text(errors, String::from_str("server table names cannot be empty"));
    }
    let ghost e1 = views(errors@);
    if is_blank(server.name.as_str()) {
        let mut m = label.clone();
        m.append(" is missing a non-empty name");
        push_text(errors, m);
    }
    let ghost e2 = views(errors@);
    check_empty_field(&label, "javaBin", &server.java_bin, errors);
    let ghost e3 = views(errors@);
    check_empty_field(&label, "javaVersion", &server.java_version, errors);
    let ghost e4 = views(errors@);
    check_empty_field(&label, "javaParams", &server.java_params, errors);
    let ghost e5 = views(errors@);
    check_empty_field(&label, "jarFile", &server.jar_file, errors);
    let ghost e6 = views(errors@);
    check_empty_field(&label, "startCommand", &server.start_command, errors);
    let ghost e7 = views(errors@);
    check_empty_field(&label, "stopCommand", &server.stop_command, errors);
    let ghost e8 = views(errors@);
    check_empty_field(&label, "rconPassword", &server.rcon_password, errors);
    let ghost e9 = views(errors@);
    if is_missing_or_blank(&server.start_command) && is_missing_or_blank(&server.jar_file) {
        let mut m = label.clone();
        m.append(" needs either startCommand or jarFile to start");
        push_text(errors, m);
    }
    let ghost e10 = views(errors@);
    check_java_settings(&label, server, envs, errors);
    let ghost e11 = views(errors@);
    check_type_settings(&label, server, errors);
    proof {
        assert(e1 =~= start + when(blank(server_key@), "server table names cannot be empty"@));
        assert(e2 =~= e1 + when(blank(server.name@), l + " is missing a non-empty name"@));
        assert(e10 =~= e9 + when(
            missing_or_blank(server.start_command) && missing_or_blank(server.jar_file),
            l + " needs either startCommand or jarFile to start"@,
        ));
    }
}

/// `prev` followed by the problems of servers `0..n`, each server in turn.
pub open spec fn with_servers_errors(
    prev: Seq<Seq<char>>,
    servers: Seq<(String, ServerConfig)>,
    n: int,
    envs: Seq<(String, String)>,
) -> Seq<Seq<char>>
    decreases n,
{
    if n <= 0 {
        prev
    } else {
        with_server_errors(with_servers_errors(prev, servers, n - 1, envs), servers[n - 1].0@, servers[n - 1].1, envs)
    }
}

fn validate_servers(servers: &Vec<(String, ServerConfig)>, envs: &Vec<(String, String)>, errors: &mut Vec<String>)
    ensures
        views(final(errors)@) == with_servers_errors(views(old(errors)@), servers@, servers@.len() as int, envs@),
{
    let ghost start = views(errors@);
    let mut i: usize = 0;
    while i < servers.len()
        invariant
            i <= servers.len(),
            views(errors@) == with_servers_errors(start, servers@, i as int, envs@),
        decreases servers.len() - i,
    {
        let ghost before = views(errors@);
        validate_server_config(&servers[i].0, &servers[i].1, envs, errors);
        i = i + 1;
    }
}


/// The complaint that the restic environment does not define `setting`.
pub open spec fn restic_missing_text(setting: Seq<char>, env_file: Option<String>) -> Seq<char> {
    match env_file {
        Some(f) => "backup.resticEnvFile '"@ + f@ + "' must define "@ + setting,
        None => "backup.resticEnvFile is not configured and environment must define "@ + setting
            + " when any server has backup = true"@,
    }
}

pub fn restic_missing_setting_message(setting: &str, env_file: &Option<String>) -> (m: String)
    ensures
        m@ == restic_missing_text(setting@, *env_file),
{
    match env_file {
        Some(f) => {
            let mut m = String::from_str("backup.resticEnvFile '");
            m.append(f.as_str());
            m.append("' must define ");
            m.append(setting);
            m
        },
        None => {
            let mut m = String::from_str(
                "backup.resticEnvFile is not configured and environment must define ",
            );
            m.append(setting);
            m.append(" when any server has backup = true");
            m
        },
    }
}

/// Whether the entries say how restic gets its repository password.
pub open spec fn restic_password_configured(entries: Seq<(String, String)>) -> bool {
    ||| env_lookup(entries, "RESTIC_PASSWORD"@) is Some
    ||| env_lookup(entries, "RESTIC_PASSWORD_FILE"@) is Some
    ||| env_lookup(entries, "RESTIC_PASSWORD_COMMAND"@) is Some
}

/// Complaints about the restic environment: the entries of the env file (or of
/// the process environment when no env file is configured), or the reason the
/// env file could not be read.
pub open spec fn restic_env_errors(backup: BackupConfig, restic_env: Result<Vec<(String, String)>, String>) -> Seq<
    Seq<char>,
> {
    match restic_env {
        Err(msg) => seq!["backup.resticEnvFile is invalid: "@ + msg@],
        Ok(entries) => when(
            env_lookup(entries@, "RESTIC_REPOSITORY"@) is None,
            restic_missing_text("RESTIC_REPOSITORY"@, backup.restic_env_file),
        ) + when(
            !restic_password_configured(entries@),
            restic_missing_text(
                "RESTIC_PASSWORD, RESTIC_PASSWORD_FILE, or RESTIC_PASSWORD_COMMAND"@,
                backup.restic_env_file,
            ),
        ),
    }
}

fn validate_restic_environment_config(
    backup: &BackupConfig,
    restic_env: &Result<Vec<(String, String)>, String>,
    errors: &mut Vec<String>,
)
    ensures
        views(final(errors)@) == views(old(errors)@) + restic_env_errors(*backup, *restic_env),
{
    let ghost start = views(errors@);
    match restic_env {
        Err(msg) => {
            let mut m = String::from_str("backup.resticEnvFile is invalid: ");
            m.append(msg.as_str());
            push_text(errors, m);
        },
        Ok(entries) => {
            if crate::envfile::env_value(entries, "RESTIC_REPOSITORY").is_none() {
                push_text(
                    errors,
                    restic_missing_setting_message("RESTIC_REPOSITORY", &backup.restic_env_file),
                );
            }
            let ghost mid = views(errors@);
            if crate::envfile::env_value(entries, "RESTIC_PASSWORD").is_none()
                && crate::envfile::env_value(entries, "RESTIC_PASSWORD_FILE").is_none()
                && crate::envfile::env_value(entries, "RESTIC_PASSWORD_COMMAND").is_none() {
                push_text(
                    errors,
                    restic_missing_setting_message(
                        "RESTIC_PASSWORD, RESTIC_PASSWORD_FILE, or RESTIC_PASSWORD_COMMAND",
                        &backup.restic_env_file,
                    ),
                );
            }
            assert(views(errors@) =~= start + restic_env_errors(*backup, *restic_env));
        },
    }
}

/// Every problem of a configuration, in the order they are reported.
pub open spec fn config_errors(c: Config, restic_env: Result<Vec<(String, String)>, String>) -> Seq<Seq<char>> {
    let any = any_backup_enabled(c.servers@);
    let head = when(blank(c.global.server_dir@), "global.serverDir is required and cannot be empty"@)
        + when(blank(c.global.log_dir@), "global.logDir is required and cannot be empty"@) + when(
        present_but_blank(c.backup.local_dir),
        "backup.localDir cannot be empty when configured"@,
    ) + when(
        present_but_blank(c.backup.restic_env_file),
        "backup.resticEnvFile cannot be empty when configured"@,
    ) + when(c.servers@.len() == 0, "at least one server must be configured under [servers]"@)
        + java_env_errors(c.java_environments@) + duplicate_name_errors(
        c.servers@,
        c.servers@.len() as int,
    );
    with_servers_errors(head, c.servers@, c.servers@.len() as int, c.java_environments@) + when(
        any && missing_or_blank(c.backup.local_dir),
        "backup.localDir is required when any server has backup = true"@,
    ) + if any {
        restic_env_errors(c.backup, restic_env)
    } else {
        seq![]
    }
}

/// The settings of server `key` need no complaint: it has a key and a name,
/// no optional text is present but blank, it can be started, its Java
/// executable is known, and it has what its type needs to be stopped.
pub open spec fn server_settings_valid(key: Seq<char>, s: ServerConfig, envs: Seq<(String, String)>) -> bool {
    &&& !blank(key)
    &&& !blank(s.name@)
    &&& !present_but_blank(s.java_bin)
    &&& !present_but_blank(s.java_version)
    &&& !present_but_blank(s.java_params)
    &&& !present_but_blank(s.jar_file)
    &&& !present_but_blank(s.start_command)
    &&& !present_but_blank(s.stop_command)
    &&& !present_but_blank(s.rcon_password)
    &&& !(missing_or_blank(s.start_command) && missing_or_blank(s.jar_file))
    &&& (!missing_or_blank(s.java_bin) || match s.java_version {
        Some(v) if !blank(v@) => has_key(envs, v@),
        _ => has_key(envs, "default"@),
    })
    &&& match s.server_type {
        ServerType::Minecraft => s.rcon_port is Some && !missing_or_blank(s.rcon_password),
        _ => !missing_or_blank(s.stop_command),
    }
}

/// No two servers share a (trimmed, non-empty) name.
pub open spec fn server_names_distinct(servers: Seq<(String, ServerConfig)>) -> bool {
    forall|i: int, j: int|
        0 <= j < i < servers.len() && trim(servers[i].1.name@).len() > 0 ==> trim(
            (#[trigger] servers[j]).1.name@,
        ) != trim((#[trigger] servers[i]).1.name@)
}

/// Every Java environment has a name and an executable path.
pub open spec fn java_environments_valid(envs: Seq<(String, String)>) -> bool {
    forall|i: int| 0 <= i < envs.len() ==> !blank((#[trigger] envs[i]).0@) && !blank(envs[i].1@)
}

/// What a configuration without backups needs to be valid.
pub open spec fn config_valid_without_backups(c: Config) -> bool {
    &&& !blank(c.global.server_dir@)
    &&& !blank(c.global.log_dir@)
    &&& !present_but_blank(c.backup.local_dir)
    &&& !present_but_blank(c.backup.restic_env_file)
    &&& c.servers@.len() > 0
    &&& java_environments_valid(c.java_environments@)
    &&& server_names_distinct(c.servers@)
    &&& forall|i: int|
        0 <= i < c.servers@.len() ==> server_settings_valid(
            (#[trigger] c.servers@[i]).0@,
            c.servers@[i].1,
            c.java_environments@,
        )
}

proof fn lemma_java_env_errors_empty(envs: Seq<(String, String)>)
    ensures
        (java_env_errors(envs).len() == 0) == java_environments_valid(envs),
    decreases envs.len(),
{
    if envs.len() > 0 {
        let rest = envs.drop_last();
        lemma_java_env_errors_empty(rest);
        if java_environments_valid(envs) {
            assert forall|i: int| 0 <= i < rest.len() implies !blank((#[trigger] rest[i]).0@) && !blank(rest[i].1@) by {
                assert(rest[i] == envs[i]);
            }
        }
        if java_env_errors(envs).len() == 0 {
            assert forall|i: int| 0 <= i < envs.len() implies !blank((#[trigger] envs[i]).0@) && !blank(envs[i].1@) by {
                if i < rest.len() {
                    assert(rest[i] == envs[i]);
                }
            }
        }
    }
}

proof fn lemma_last_named_before(servers: Seq<(String, ServerConfig)>, i: int, t: Seq<char>)
    requires
        i <= servers.len(),
    ensures
        (last_named_before(servers, i, t) is None) == (forall|j: int| 0 <= j < i ==> trim((#[trigger] servers[j]).1.name@) != t),
    decreases i,
{
    if i > 0 {
        lemma_last_named_before(servers, i - 1, t);
    }
}

proof fn lemma_duplicate_name_errors_empty(servers: Seq<(String, ServerConfig)>, n: int)
    requires
        0 <= n <= servers.len(),
    ensures
        (duplicate_name_errors(servers, n).len() == 0) == (forall|i: int, j: int|
            0 <= j < i < n && trim(servers[i].1.name@).len() > 0 ==> trim((#[trigger] servers[j]).1.name@) != trim(
                (#[trigger] servers[i]).1.name@,
            )),
    decreases n,
{
    if n > 0 {
        lemma_duplicate_name_errors_empty(servers, n - 1);
        let t = trim(servers[n - 1].1.name@);
        lemma_last_named_before(servers, n - 1, t);
        if duplicate_name_errors(servers, n).len() == 0 {
            assert forall|i: int, j: int|
                0 <= j < i < n && trim(servers[i].1.name@).len() > 0 implies trim(
                (#[trigger] servers[j]).1.name@,
            ) != trim((#[trigger] servers[i]).1.name@) by {
                if i == n - 1 {
                    assert(trim(servers[j].1.name@) != t);
                }
            }
        }
    }
}

proof fn lemma_server_errors_empty(prev: Seq<Seq<char>>, key: Seq<char>, s: ServerConfig, envs: Seq<(String, String)>)
    ensures
        (with_server_errors(prev, key, s, envs).len() == 0) == (prev.len() == 0 && server_settings_valid(key, s, envs)),
{
    let label = "server '"@ + key + "'"@;
    assert(java_setting_errors(label, s, envs).len() == 0 <==> (!missing_or_blank(s.java_bin) || match s.java_version {
        Some(v) if !blank(v@) => has_key(envs, v@),
        _ => has_key(envs, "default"@),
    }));
    assert(type_setting_errors(label, s).len() == 0 <==> match s.server_type {
        ServerType::Minecraft => s.rcon_port is Some && !missing_or_blank(s.rcon_password),
        _ => !missing_or_blank(s.stop_command),
    });
}

proof fn lemma_servers_errors_empty(
    prev: Seq<Seq<char>>,
    servers: Seq<(String, ServerConfig)>,
    n: int,
    envs: Seq<(String, String)>,
)
    requires
        0 <= n <= servers.len(),
    ensures
        (with_servers_errors(prev, servers, n, envs).len() == 0) == (prev.len() == 0 && forall|i: int|
            0 <= i < n ==> server_settings_valid((#[trigger] servers[i]).0@, servers[i].1, envs)),
    decreases n,
{
    if n > 0 {
        lemma_servers_errors_empty(prev, servers, n - 1, envs);
        lemma_server_errors_empty(
            with_servers_errors(prev, servers, n - 1, envs),
            servers[n - 1].0@,
            servers[n - 1].1,
            envs,
        );
    }
}

/// Without servers that take part in backups, a configuration is valid
/// (`validate_config` returns `Ok`, its list of problems being empty)
/// exactly when its global directories are set, its optional backup paths
/// are not blank, it has servers, its Java environments are complete,
/// server names are distinct, and every server's own settings are valid.
pub proof fn lemma_config_valid_without_backups(c: Config, restic_env: Result<Vec<(String, String)>, String>)
    requires
        !any_backup_enabled(c.servers@),
    ensures
        (config_errors(c, restic_env).len() == 0) == config_valid_without_backups(c),
{
    let head = when(blank(c.global.server_dir@), "global.serverDir is required and cannot be empty"@) + when(
        blank(c.global.log_dir@),
        "global.logDir is required and cannot be empty"@,
    ) + when(present_but_blank(c.backup.local_dir), "backup.localDir cannot be empty when configured"@) + when(
        present_but_blank(c.backup.restic_env_file),
        "backup.resticEnvFile cannot be empty when configured"@,
    ) + when(c.servers@.len() == 0, "at least one server must be configured under [servers]"@) + java_env_errors(
        c.java_environments@,
    ) + duplicate_name_errors(c.servers@, c.servers@.len() as int);
    lemma_java_env_errors_empty(c.java_environments@);
    lemma_duplicate_name_errors_empty(c.servers@, c.servers@.len() as int);
    lemma_servers_errors_empty(head, c.servers@, c.servers@.len() as int, c.java_environments@);
    assert(config_errors(c, restic_env) == with_servers_errors(
        head,
        c.servers@,
        c.servers@.len() as int,
        c.java_environments@,
    ) + seq![] + seq![]);
    assert(config_errors(c, restic_env).len() == with_servers_errors(
        head,
        c.servers@,
        c.servers@.len() as int,
        c.java_environments@,
    ).len());
}

/// Every problem of a configuration is named in the message of the error
/// that `validate_config` returns.
pub proof fn lemma_problems_in_message(errors: Seq<Seq<char>>)
    ensures
        forall|k: int| 0 <= k < errors.len() ==> crate::text::occurs_in(#[trigger] errors[k], config_error_text(errors)),
{
    assert forall|k: int| 0 <= k < errors.len() implies crate::text::occurs_in(
        #[trigger] errors[k],
        config_error_text(errors),
    ) by {
        crate::text::lemma_joined_item_occurs(errors, "\n- "@, k);
        crate::text::lemma_occurs_in_context(
            errors[k],
            "Invalid configuration:\n- "@,
            crate::text::join_with(errors, "\n- "@),
            seq![],
        );
        assert(config_error_text(errors) =~= "Invalid configuration:\n- "@ + crate::text::join_with(
            errors,
            "\n- "@,
        ) + seq![]);
    }
}

/// When some server takes part in backups, restic's environment is checked:
/// an env file that could not be read, a missing `RESTIC_REPOSITORY`, or no
/// password source (`RESTIC_PASSWORD`, `RESTIC_PASSWORD_FILE` or
/// `RESTIC_PASSWORD_COMMAND`) each adds its complaint to the problems of the
/// configuration, so `validate_config` fails and names it in its message.
pub proof fn lemma_restic_complaints(c: Config, restic_env: Result<Vec<(String, String)>, String>)
    requires
        any_backup_enabled(c.servers@),
    ensures
        restic_env matches Err(msg) ==> config_errors(c, restic_env).contains(
            "backup.resticEnvFile is invalid: "@ + msg@,
        ),
        restic_env matches Ok(entries) && env_lookup(entries@, "RESTIC_REPOSITORY"@) is None ==> config_errors(
            c,
            restic_env,
        ).contains(restic_missing_text("RESTIC_REPOSITORY"@, c.backup.restic_env_file)),
        restic_env matches Ok(entries) && !restic_password_configured(entries@) ==> config_errors(
            c,
            restic_env,
        ).contains(
            restic_missing_text(
                "RESTIC_PASSWORD, RESTIC_PASSWORD_FILE, or RESTIC_PASSWORD_COMMAND"@,
                c.backup.restic_env_file,
            ),
        ),
        forall|t: Seq<char>|
            config_errors(c, restic_env).contains(t) ==> crate::text::occurs_in(
                t,
                config_error_text(config_errors(c, restic_env)),
            ),
{
    let all = config_errors(c, restic_env);
    let tail = restic_env_errors(c.backup, restic_env);
    let front = all.subrange(0, all.len() - tail.len());
    assert(all =~= front + tail);
    assert forall|k: int| 0 <= k < tail.len() implies all.contains(#[trigger] tail[k]) by {
        assert(all[front.len() + k] == tail[k]);
    }
    match restic_env {
        Err(msg) => {
            assert(tail[0] == "backup.resticEnvFile is invalid: "@ + msg@);
        },
        Ok(entries) => {
            let repo = when(
                env_lookup(entries@, "RESTIC_REPOSITORY"@) is None,
                restic_missing_text("RESTIC_REPOSITORY"@, c.backup.restic_env_file),
            );
            if env_lookup(entries@, "RESTIC_REPOSITORY"@) is None {
                assert(tail[0] == restic_missing_text("RESTIC_REPOSITORY"@, c.backup.restic_env_file));
            }
            if !restic_password_configured(entries@) {
                assert(tail[repo.len() as int] == restic_missing_text(
                    "RESTIC_PASSWORD, RESTIC_PASSWORD_FILE, or RESTIC_PASSWORD_COMMAND"@,
                    c.backup.restic_env_file,
                ));
            }
        },
    }
    lemma_problems_in_message(all);
    assert forall|t: Seq<char>| all.contains(t) implies crate::text::occurs_in(t, config_error_text(all)) by {
        let k = choose|k: int| 0 <= k < all.len() && all[k] == t;
        assert(crate::text::occurs_in(all[k], config_error_text(all)));
    }
}

/// A configuration with problems, all of them listed.
pub struct ConfigError {
    pub errors: Vec<String>,
}

/// `Invalid configuration:` followed by one `- ` line per problem.
pub open spec fn config_error_text(errors: Seq<Seq<char>>) -> Seq<char> {
    "Invalid configuration:\n- "@ + crate::text::join_with(errors, "\n- "@)
}

impl ConfigError {
    /// `Invalid configuration:` followed by one `- ` line per problem.
    pub fn message(&self) -> (m: String)
        ensures
            m@ == config_error_text(views(self.errors@)),
    {
        let mut m = String::from_str("Invalid configuration:\n- ");
        crate::text::push_joined(&mut m, &self.errors, "\n- ");
        m
    }
}

/// Validates a configuration and reports every problem at once. `restic_env`
/// is what restic would see: the entries of `backup.resticEnvFile` (or the
/// reason it could not be read), or the process environment when that file is
/// not configured; it is consulted only when some server takes part in backups.
pub fn validate_config(config: &Config, restic_env: &Result<Vec<(String, String)>, String>) -> (r: Result<
    (),
    ConfigError,
>)
    ensures
        r is Ok <==> config_errors(*config, *restic_env).len() == 0,
        r matches Err(e) ==> views(e.errors@) == config_errors(*config, *restic_env),
{
    let mut errors: Vec<String> = Vec::new();
    assert(views(errors@) =~= seq![]);
    if is_blank(config.global.server_dir.as_str()) {
        push_text(&mut errors, String::from_str("global.serverDir is required and cannot be empty"));
    }
    let ghost e1 = views(errors@);
    assert(e1 =~= when(blank(config.global.server_dir@), "global.serverDir is required and cannot be empty"@));
    if is_blank(config.global.log_dir.as_str()) {
        push_text(&mut errors, String::from_str("global.logDir is required and cannot be empty"));
    }
    let ghost e2 = views(errors@);
    assert(e2 =~= e1 + when(blank(config.global.log_dir@), "global.logDir is required and cannot be empty"@));
    if is_present_but_blank(&config.backup.local_dir) {
        push_text(&mut errors, String::from_str("backup.localDir cannot be empty when configured"));
    }
    let ghost e3 = views(errors@);
    assert(e3 =~= e2 + when(
        present_but_blank(config.backup.local_dir),
        "backup.localDir cannot be empty when configured"@,
    ));
    if is_present_but_blank(&config.backup.restic_env_file) {
        push_text(
            &mut errors,
            String::from_str("backup.resticEnvFile cannot be empty when configured"),
        );
    }
    let ghost e4 = views(errors@);
    assert(e4 =~= e3 + when(
        present_but_blank(config.backup.restic_env_file),
        "backup.resticEnvFile cannot be empty when configured"@,
    ));
    if config.servers.len() == 0 {
        push_text(
            &mut errors,
            String::from_str("at least one server must be configured under [servers]"),
        );
    }
    let ghost e5 = views(errors@);
    assert(e5 =~= e4 + when(config.servers@.len() == 0, "at least one server must be configured under [servers]"@));
    validate_java_environments(&config.java_environments, &mut errors);
    validate_unique_server_names(&config.servers, &mut errors);
    let ghost head = views(errors@);
    validate_servers(&config.servers, &config.java_environments, &mut errors);
    let ghost body = views(errors@);
    let any = has_backup_enabled_servers(config);
    if any && is_missing_or_blank(&config.backup.local_dir) {
        push_text(
            &mut errors,
            String::from_str("backup.localDir is required when any server has backup = true"),
        );
    }
    let ghost before_restic = views(errors@);
    assert(before_restic =~= body + when(
        any && missing_or_blank(config.backup.local_dir),
        "backup.localDir is required when any server has backup = true"@,
    ));
    if any {
        validate_restic_environment_config(&config.backup, restic_env, &mut errors);
    } else {
        assert(views(errors@) =~= before_restic + seq![]);
    }
    if errors.len() == 0 {
        assert(views(errors@).len() == 0);
        Ok(())
    } else {
        Err(ConfigError { errors })
    }
}


/// The value of the first entry with key `k`.
pub open spec fn key_lookup(entries: Seq<(String, String)>, k: Seq<char>) -> Option<Seq<char>>
    decreases entries.len(),
{
    if entries.len() == 0 {
        None
    } else if entries[0].0@ == k {
        Some(entries[0].1@)
    } else {
        key_lookup(entries.drop_first(), k)
    }
}

pub fn lookup_key(entries: &Vec<(String, String)>, k: &str) -> (r: Option<String>)
    ensures
        match (r, key_lookup(entries@, k@)) {
            (Some(v), Some(w)) => v@ == w,
            (None, None) => true,
            _ => false,
        },
{
    let mut i: usize = 0;
    assert(entries@.subrange(0, entries@.len() as int) =~= entries@);
    while i < entries.len()
        invariant
            i <= entries.len(),
            key_lookup(entries@, k@) == key_lookup(
                entries@.subrange(i as int, entries@.len() as int),
                k@,
            ),
        decreases entries.len() - i,
    {
        assert(entries@.subrange(i as int, entries@.len() as int).drop_first() =~= entries@.subrange(
            i + 1,
            entries@.len() as int,
        ));
        if crate::text::str_eq(entries[i].0.as_str(), k) {
            return Some(entries[i].1.clone());
        }
        i = i + 1;
    }
    None
}

/// The Java environment that a server uses: its `javaVersion`, or `default`.
pub open spec fn java_version_key(server: ServerConfig) -> Seq<char> {
    match server.java_version {
        Some(v) => v@,
        None => "default"@,
    }
}

/// The keys of the entries.
pub open spec fn keys_of(entries: Seq<(String, String)>) -> Seq<String> {
    entries.map_values(|e: (String, String)| e.0)
}

/// The Java executable that a server resolves to, when it resolves.
pub open spec fn resolve_java_bin_spec(server: ServerConfig, envs: Seq<(String, String)>) -> Option<Seq<char>> {
    match server.java_bin {
        Some(b) => Some(b@),
        None => key_lookup(envs, java_version_key(server)),
    }
}

/// A server refers to a Java environment that is not configured.
pub struct UnknownJavaVersion {
    pub java_version: String,
    pub server_name: String,
    /// The configured Java environment names, sorted.
    pub valid_options: Vec<String>,
}

pub open spec fn unknown_java_text(e: UnknownJavaVersion) -> Seq<char> {
    "Unknown javaVersion '"@ + e.java_version@ + "' for server '"@ + e.server_name@
        + "'. Valid options: "@ + crate::text::join_with(views(e.valid_options@), ", "@)
}

impl UnknownJavaVersion {
    pub fn message(&self) -> (m: String)
        ensures
            m@ == unknown_java_text(*self),
    {
        let mut m = String::from_str("Unknown javaVersion '");
        m.append(self.java_version.as_str());
        m.append("' for server '");
        m.append(self.server_name.as_str());
        m.append("'. Valid options: ");
        crate::text::push_joined(&mut m, &self.valid_options, ", ");
        m
    }
}

/// Resolves the Java executable of a server: its `javaBin`, else the Java
/// environment named by its `javaVersion`, else the `default` environment.
pub fn resolve_java_bin(config: &ServerConfig, java_environments: &Vec<(String, String)>) -> (r:
    Result<String, UnknownJavaVersion>)
    ensures
        match (r, resolve_java_bin_spec(*config, java_environments@)) {
            (Ok(x), Some(b)) => x@ == b,
            (Err(_), None) => true,
            _ => false,
        },
        config.java_bin matches Some(b) ==> (r matches Ok(x) && x@ == b@),
        config.java_bin is None ==> match key_lookup(java_environments@, java_version_key(*config)) {
            Some(w) => r matches Ok(x) && x@ == w,
            None => r matches Err(e) && e.java_version@ == java_version_key(*config)
                && e.server_name@ == config.name@ && sorted_by_key(e.valid_options@)
                && e.valid_options@.to_multiset() == keys_of(java_environments@).to_multiset(),
        },
{
    if let Some(b) = &config.java_bin {
        return Ok(b.clone());
    }
    let version = match &config.java_version {
        Some(v) => v.clone(),
        None => String::from_str("default"),
    };
    match lookup_key(java_environments, version.as_str()) {
        Some(bin) => Ok(bin),
        None => {
            let mut keys: Vec<String> = Vec::new();
            let mut i: usize = 0;
            while i < java_environments.len()
                invariant
                    i <= java_environments.len(),
                    keys@ =~= keys_of(java_environments@).take(i as int),
                decreases java_environments.len() - i,
            {
                keys.push(java_environments[i].0.clone());
                i = i + 1;
            }
            assert(keys_of(java_environments@).take(java_environments.len() as int) =~= keys_of(
                java_environments@,
            ));
            let valid_options = sort_by_key(keys);
            Err(UnknownJavaVersion { java_version: version, server_name: config.name.clone(), valid_options })
        },
    }
}

/// The `rcon.password` that one line of `server.properties` sets, if any:
/// `key=value` or `key:value`, comments starting with `#` or `!`.
pub open spec fn properties_line_password(line: Seq<char>) -> Option<Seq<char>> {
    let t = trim(line);
    let eq = index_of(t, '=');
    let colon = index_of(t, ':');
    let sep = if eq < colon {
        eq
    } else {
        colon
    };
    if t.len() == 0 || t[0] == '#' || t[0] == '!' || sep >= t.len() {
        None
    } else if trim(t.subrange(0, sep)) == "rcon.password"@ {
        Some(trim(t.subrange(sep + 1, t.len() as int)))
    } else {
        None
    }
}

/// The first `rcon.password` among lines `i..`.
pub open spec fn first_properties_password(ls: Seq<Seq<char>>, i: int) -> Option<Seq<char>>
    decreases ls.len() - i,
{
    if i >= ls.len() || i < 0 {
        None
    } else {
        match properties_line_password(ls[i]) {
            Some(p) => Some(p),
            None => first_properties_password(ls, i + 1),
        }
    }
}

fn properties_line_password_of(line: &Vec<char>) -> (r: Option<String>)
    ensures
        match (r, properties_line_password(line@)) {
            (Some(v), Some(w)) => v@ == w,
            (None, None) => true,
            _ => false,
        },
{
    let t = trim_chars(line);
    if t.len() == 0 || t[0] == '#' || t[0] == '!' {
        return None;
    }
    let eq = crate::text::find_char(&t, 0, '=');
    let colon = crate::text::find_char(&t, 0, ':');
    assert(t@.subrange(0, t@.len() as int) =~= t@);
    let sep = if eq < colon {
        eq
    } else {
        colon
    };
    if sep >= t.len() {
        return None;
    }
    let raw_key = slice_chars(&t, 0, sep);
    let key = trim_chars(&raw_key);
    let wanted = chars_of("rcon.password");
    if chars_eq(&key, &wanted) {
        let raw_value = slice_chars(&t, sep + 1, t.len());
        let value = trim_chars(&raw_value);
        Some(string_of(&value))
    } else {
        None
    }
}

/// Extracts `rcon.password` from the text of a Minecraft `server.properties`.
pub fn parse_server_properties_rcon_password(text: &str) -> (r: Option<String>)
    ensures
        match (r, first_properties_password(lines(text@), 0)) {
            (Some(v), Some(w)) => v@ == w,
            (None, None) => true,
            _ => false,
        },
{
    let ls = split_lines(text);
    let ghost lv = lines(text@);
    let mut i: usize = 0;
    while i < ls.len()
        invariant
            i <= ls.len(),
            lv == lines(text@),
            ls@.len() == lv.len(),
            forall|k: int| 0 <= k < ls@.len() ==> (#[trigger] ls@[k])@ == lv[k],
            first_properties_password(lv, 0) == first_properties_password(lv, i as int),
        decreases ls.len() - i,
    {
        let found = properties_line_password_of(&ls[i]);
        if found.is_some() {
            return found;
        }
        i = i + 1;
    }
    None
}

/// A Minecraft server whose `server.properties` holds another RCON password
/// than the configuration.
pub struct RconPasswordMismatch {
    pub server_key: String,
    pub server_name: String,
    pub properties_file: String,
    pub properties_password: String,
}

impl SortKey for RconPasswordMismatch {
    open spec fn sort_key(&self) -> Seq<char> {
        self.server_name@
    }

    fn key_text(&self) -> (r: &str) {
        self.server_name.as_str()
    }
}

/// `<serverDir>/<name>/server.properties`.
pub open spec fn properties_file_of(server_dir: Seq<char>, name: Seq<char>) -> Seq<char> {
    crate::paths::path_join(crate::paths::path_join(server_dir, name), "server.properties"@)
}

/// The `server.properties` to read for a server: only Minecraft servers have one.
pub fn rcon_properties_file(server_dir: &str, server: &ServerConfig) -> (r: Option<String>)
    ensures
        server.server_type == ServerType::Minecraft ==> (r matches Some(p) && p@ == properties_file_of(
            server_dir@,
            server.name@,
        )),
        server.server_type != ServerType::Minecraft ==> r is None,
{
    if server.server_type != ServerType::Minecraft {
        return None;
    }
    let dir = crate::paths::join_path(server_dir, server.name.as_str());
    Some(crate::paths::join_path(dir.as_str(), "server.properties"))
}

/// The password from `server.properties` when it differs from the configured
/// one; `properties_text` is the file's text, `None` when it does not exist.
pub open spec fn password_mismatch(server: ServerConfig, properties_text: Option<Seq<char>>) -> Option<
    Seq<char>,
> {
    if server.server_type != ServerType::Minecraft {
        None
    } else {
        match properties_text {
            None => None,
            Some(text) => match first_properties_password(lines(text), 0) {
                None => None,
                Some(p) => match server.rcon_password {
                    None => None,
                    Some(c) => if c@ == p {
                        None
                    } else {
                        Some(p)
                    },
                },
            },
        }
    }
}

/// Compares a Minecraft server's configured RCON password with the one in its
/// `server.properties` (`properties_text`, `None` when the file does not exist).
pub fn minecraft_rcon_password_mismatch(
    server_dir: &str,
    server_key: &str,
    server: &ServerConfig,
    properties_text: Option<&str>,
) -> (r: Option<RconPasswordMismatch>)
    ensures
        match (r, password_mismatch(*server, match properties_text { Some(t) => Some(t@), None => None })) {
            (Some(m), Some(p)) => m.properties_password@ == p && m.server_key@ == server_key@
                && m.server_name@ == server.name@ && m.properties_file@ == properties_file_of(
                server_dir@,
                server.name@,
            ),
            (None, None) => true,
            _ => false,
        },
{
    let properties_file = match rcon_properties_file(server_dir, server) {
        Some(f) => f,
        None => return None,
    };
    let text = match properties_text {
        Some(t) => t,
        None => return None,
    };
    let properties_password = match parse_server_properties_rcon_password(text) {
        Some(p) => p,
        None => return None,
    };
    let config_password = match &server.rcon_password {
        Some(c) => c,
        None => return None,
    };
    if crate::text::str_eq(config_password.as_str(), properties_password.as_str()) {
        return None;
    }
    Some(
        RconPasswordMismatch {
            server_key: String::from_str(server_key),
            server_name: server.name.clone(),
            properties_file,
            properties_password,
        },
    )
}

/// A text as characters, when there is one.
pub open spec fn text_view(t: Option<String>) -> Option<Seq<char>> {
    match t {
        Some(s) => Some(s@),
        None => None,
    }
}

/// `m` reports the RCON password mismatch of server `i`, whose
/// `server.properties` reads `texts[i]`.
pub open spec fn mismatch_of(config: Config, texts: Seq<Option<String>>, i: int, m: RconPasswordMismatch) -> bool {
    &&& 0 <= i < config.servers@.len()
    &&& password_mismatch(config.servers@[i].1, text_view(texts[i])) == Some(m.properties_password@)
    &&& m.server_key@ == config.servers@[i].0@
    &&& m.server_name@ == config.servers@[i].1.name@
    &&& m.properties_file@ == properties_file_of(config.global.server_dir@, config.servers@[i].1.name@)
}

/// `m` reports the RCON password mismatch of some server.
pub open spec fn reported_mismatch(config: Config, texts: Seq<Option<String>>, m: RconPasswordMismatch) -> bool {
    exists|i: int| #[trigger] mismatch_of(config, texts, i, m)
}

/// How many of the first `n` servers have an RCON password mismatch.
pub open spec fn mismatch_count(config: Config, texts: Seq<Option<String>>, n: nat) -> nat
    decreases n,
{
    if n == 0 {
        0
    } else {
        let i = (n - 1) as int;
        mismatch_count(config, texts, (n - 1) as nat) + if password_mismatch(
            config.servers@[i].1,
            text_view(texts[i]),
        ) is Some {
            1nat
        } else {
            0nat
        }
    }
}

/// The RCON password mismatches of all servers, ordered by server name;
/// `properties_texts[i]` is the text of the `server.properties` of server
/// `i`, `None` when it does not exist.
pub fn find_minecraft_rcon_password_mismatches(config: &Config, properties_texts: &Vec<Option<String>>) -> (r: Vec<
    RconPasswordMismatch,
>)
    requires
        properties_texts.len() == config.servers.len(),
    ensures
        sorted_by_key(r@),
        r@.len() == mismatch_count(*config, properties_texts@, config.servers@.len()),
        forall|k: int| 0 <= k < r@.len() ==> reported_mismatch(*config, properties_texts@, #[trigger] r@[k]),
        forall|i: int|
            0 <= i < config.servers@.len() && password_mismatch(
                config.servers@[i].1,
                text_view(properties_texts@[i]),
            ) is Some ==> exists|k: int|
                0 <= k < r@.len() && #[trigger] mismatch_of(*config, properties_texts@, i, r@[k]),
{
    let mut found: Vec<RconPasswordMismatch> = Vec::new();
    let ghost mut origin: Seq<int> = seq![];
    let ghost mut pos: Seq<int> = seq![];
    let mut idx: usize = 0;
    while idx < config.servers.len()
        invariant
            idx <= config.servers.len(),
            properties_texts.len() == config.servers.len(),
            origin.len() == found@.len(),
            pos.len() == idx,
            found@.len() == mismatch_count(*config, properties_texts@, idx as nat),
            forall|k: int|
                0 <= k < found@.len() ==> 0 <= #[trigger] origin[k] < idx && mismatch_of(
                    *config,
                    properties_texts@,
                    origin[k],
                    found@[k],
                ),
            forall|i: int|
                0 <= i < idx && password_mismatch(config.servers@[i].1, text_view(properties_texts@[i]))
                    is Some ==> 0 <= #[trigger] pos[i] < found@.len() && mismatch_of(
                    *config,
                    properties_texts@,
                    i,
                    found@[pos[i]],
                ),
        decreases config.servers.len() - idx,
    {
        let text = match &properties_texts[idx] {
            Some(t) => Some(t.as_str()),
            None => None,
        };
        let m = minecraft_rcon_password_mismatch(
            config.global.server_dir.as_str(),
            config.servers[idx].0.as_str(),
            &config.servers[idx].1,
            text,
        );
        assert(text_view(properties_texts@[idx as int]) == match text {
            Some(t) => Some(t@),
            None => None,
        });
        match m {
            Some(m) => {
                proof {
                    origin = origin.push(idx as int);
                    pos = pos.push(found@.len() as int);
                }
                found.push(m);
            },
            None => {
                proof {
                    pos = pos.push(-1);
                }
            },
        }
        idx = idx + 1;
    }
    let r = sort_mismatches(found);
    proof {
        vstd::seq_lib::to_multiset_len(found@);
        vstd::seq_lib::to_multiset_len(r@);
        lemma_same_items(found@, r@);
        assert forall|k: int| 0 <= k < r@.len() implies reported_mismatch(
            *config,
            properties_texts@,
            #[trigger] r@[k],
        ) by {
            assert(found@.contains(r@[k]));
            let j = choose|j: int| 0 <= j < found@.len() && found@[j] == r@[k];
            assert(mismatch_of(*config, properties_texts@, origin[j], r@[k]));
        }
        assert forall|i: int|
            0 <= i < config.servers@.len() && password_mismatch(
                config.servers@[i].1,
                text_view(properties_texts@[i]),
            ) is Some implies exists|k: int|
            0 <= k < r@.len() && #[trigger] mismatch_of(*config, properties_texts@, i, r@[k]) by {
            let j = pos[i];
            assert(r@.contains(found@[j]));
            let k = choose|k: int| 0 <= k < r@.len() && r@[k] == found@[j];
            assert(mismatch_of(*config, properties_texts@, i, r@[k]));
        }
    }
    r
}

/// Two sequences with the same items, counted, hold the same items.
proof fn lemma_same_items<A>(a: Seq<A>, b: Seq<A>)
    requires
        a.to_multiset() == b.to_multiset(),
    ensures
        forall|k: int| 0 <= k < b.len() ==> a.contains(#[trigger] b[k]),
        forall|j: int| 0 <= j < a.len() ==> b.contains(#[trigger] a[j]),
{
    broadcast use vstd::seq_lib::to_multiset_contains;

    assert forall|k: int| 0 <= k < b.len() implies a.contains(#[trigger] b[k]) by {
        assert(b[k] == b[k]);
        assert(b.contains(b[k]));
        assert(b.to_multiset().count(b[k]) > 0);
        assert(a.to_multiset().count(b[k]) > 0);
    }
    assert forall|j: int| 0 <= j < a.len() implies b.contains(#[trigger] a[j]) by {
        assert(a.contains(a[j]));
        assert(a.to_multiset().count(a[j]) > 0);
        assert(b.to_multiset().count(a[j]) > 0);
    }
}

/// Orders mismatches by server name.
pub fn sort_mismatches(mismatches: Vec<RconPasswordMismatch>) -> (r: Vec<RconPasswordMismatch>)
    ensures
        sorted_by_key(r@),
        r@.to_multiset() == mismatches@.to_multiset(),
{
    sort_by_key(mismatches)
}

/// Index of the server with ID `id`.
pub open spec fn server_index(servers: Seq<(String, ServerConfig)>, id: Seq<char>) -> Option<int>
    decreases servers.len(),
{
    if servers.len() == 0 {
        None
    } else if servers.last().0@ == id {
        match server_index(servers.drop_last(), id) {
            Some(i) => Some(i),
            None => Some(servers.len() - 1),
        }
    } else {
        server_index(servers.drop_last(), id)
    }
}

pub proof fn lemma_server_index(servers: Seq<(String, ServerConfig)>, id: Seq<char>)
    ensures
        server_index(servers, id) matches Some(i) ==> 0 <= i < servers.len() && servers[i].0@ == id
            && forall|j: int| 0 <= j < i ==> #[trigger] servers[j].0@ != id,
        server_index(servers, id) is None ==> forall|j: int| 0 <= j < servers.len() ==> #[trigger] servers[j].0@ != id,
    decreases servers.len(),
{
    if servers.len() > 0 {
        lemma_server_index(servers.drop_last(), id);
        assert forall|j: int| 0 <= j < servers.len() - 1 implies #[trigger] servers[j] == servers.drop_last()[j] by {}
    }
}

/// Finds the server with ID `id`.
pub fn find_server(config: &Config, id: &str) -> (r: Option<usize>)
    ensures
        match (r, server_index(config.servers@, id@)) {
            (Some(i), Some(j)) => i == j,
            (None, None) => true,
            _ => false,
        },
{
    proof {
        lemma_server_index(config.servers@, id@);
    }
    let mut i: usize = 0;
    while i < config.servers.len()
        invariant
            i <= config.servers.len(),
            forall|j: int| 0 <= j < i ==> #[trigger] config.servers@[j].0@ != id@,
        decreases config.servers.len() - i,
    {
        if crate::text::str_eq(config.servers[i].0.as_str(), id) {
            proof {
                lemma_server_index(config.servers@, id@);
                if let Some(j) = server_index(config.servers@, id@) {
                    if j > i {
                        assert(config.servers@[i as int].0@ != id@);
                    }
                }
            }
            return Some(i);
        }
        i = i + 1;
    }
    None
}

/// Uses `password` as the RCON password of the server with ID `id` for this run.
pub fn set_rcon_password(config: &mut Config, id: &str, password: String) -> (found: bool)
    ensures
        found == (server_index(old(config).servers@, id@) is Some),
        final(config).global == old(config).global,
        final(config).java_environments == old(config).java_environments,
        final(config).backup == old(config).backup,
        final(config).notifications == old(config).notifications,
        final(config).servers@.len() == old(config).servers@.len(),
        forall|i: int|
            0 <= i < old(config).servers@.len() ==> if Some(i) == server_index(old(config).servers@, id@) {
                (#[trigger] final(config).servers@[i]).0 == old(config).servers@[i].0 && final(config).servers@[i].1
                    == (ServerConfig { rcon_password: Some(password), ..old(config).servers@[i].1 })
            } else {
                final(config).servers@[i] == old(config).servers@[i]
            },
{
    proof {
        lemma_server_index(config.servers@, id@);
    }
    match find_server(config, id) {
        None => false,
        Some(i) => {
            let mut servers: Vec<(String, ServerConfig)> = Vec::new();
            std::mem::swap(&mut servers, &mut config.servers);
            let (key, server) = servers.remove(i);
            let updated = ServerConfig { rcon_password: Some(password), ..server };
            servers.insert(i, (key, updated));
            config.servers = servers;
            proof {
                assert forall|k: int| 0 <= k < old(config).servers@.len() && k != i implies #[trigger] config.servers@[k]
                    == old(config).servers@[k] by {}
            }
            true
        },
    }
}

/// Why a password cannot be written as a TOML literal string.
#[derive(Debug, PartialEq, Eq)]
pub enum LiteralError {
    ContainsSingleQuote,
    /// `toml_edit` refused the literal; `detail` is its error message.
    NotRepresentable { detail: String },
}

/// The message of a literal-string error: for a refused literal, the note
/// followed by the parser's own message.
pub open spec fn literal_error_text(e: LiteralError) -> Seq<char> {
    match e {
        LiteralError::ContainsSingleQuote =>
            "Cannot write rconPassword as a single-quoted TOML literal string because it contains a single quote. Update clserver.toml manually for this server."@,
        LiteralError::NotRepresentable { detail } =>
            "Password cannot be represented as a single-line TOML literal string: "@ + detail@,
    }
}

impl LiteralError {
    pub fn message(&self) -> (m: String)
        ensures
            m@ == literal_error_text(*self),
    {
        match self {
            LiteralError::ContainsSingleQuote => String::from_str(
                "Cannot write rconPassword as a single-quoted TOML literal string because it contains a single quote. Update clserver.toml manually for this server.",
            ),
            LiteralError::NotRepresentable { detail } => {
                let mut m = String::from_str(
                    "Password cannot be represented as a single-line TOML literal string: ",
                );
                m.append(detail.as_str());
                m
            },
        }
    }
}

/// The message of `toml_edit`'s error on reading `text` as a TOML value;
/// `None` when it reads.
pub uninterp spec fn toml_value_error(text: Seq<char>) -> Option<Seq<char>>;

/// `str::parse::<toml_edit::Value>`, reduced to its error's message (its
/// `Display`); the TOML grammar and the wording of the message are not
/// restated here.
#[verifier::external_body]
fn toml_value_parse_error(text: &str) -> (r: Option<String>)
    ensures
        match r {
            Some(m) => toml_value_error(text@) == Some(m@),
            None => toml_value_error(text@) is None,
        },
{
    match text.parse::<toml_edit::Value>() {
        Ok(_) => None,
        Err(e) => Some(e.to_string()),
    }
}

/// `'value'`.
pub open spec fn single_quoted(value: Seq<char>) -> Seq<char> {
    seq!['\''] + value + seq!['\'']
}

/// The TOML text of `value` as a single-quoted literal string.
pub fn literal_string_item(value: &str) -> (r: Result<String, LiteralError>)
    ensures
        value@.contains('\'') ==> r == Err::<String, LiteralError>(LiteralError::ContainsSingleQuote),
        !value@.contains('\'') ==> match toml_value_error(single_quoted(value@)) {
            None => (r matches Ok(t) && t@ == single_quoted(value@)),
            Some(d) => (r matches Err(LiteralError::NotRepresentable { detail }) && detail@ == d),
        },
{
    let v = chars_of(value);
    let q = crate::text::find_char(&v, 0, '\'');
    if q < v.len() {
        assert(value@.contains('\''));
        return Err(LiteralError::ContainsSingleQuote);
    }
    let mut literal = String::new();
    literal.push('\'');
    literal.append(value);
    literal.push('\'');
    assert(literal@ =~= single_quoted(value@));
    match toml_value_parse_error(literal.as_str()) {
        None => Ok(literal),
        Some(detail) => Err(LiteralError::NotRepresentable { detail }),
    }
}


/// Whether the answer to a yes/no prompt says yes: `y` or `yes`, in any
/// ASCII case, with surrounding whitespace ignored.
pub fn prompt_accepted(response: &str) -> (b: bool)
    ensures
        b == (crate::cli::ascii_lower(trim(response@)) == "y"@ || crate::cli::ascii_lower(trim(response@))
            == "yes"@),
{
    let trimmed = crate::text::trim_str(response);
    let lower = crate::cli::lower_chars(trimmed.as_str());
    let y = chars_of("y");
    let yes = chars_of("yes");
    chars_eq(&lower, &y) || chars_eq(&lower, &yes)
}

} // verus!
