//! The Discord summary sent after daily maintenance.

use crate::config::{flag, Config, ServerConfig};
use crate::duration::Duration;
use crate::envfile::env_lookup;
use crate::text::{blank, chars_of, decimal, push_decimal, slice_chars, string_of};
use vstd::prelude::*;

verus! {

/// The env file variable holding the Discord webhook URL.
pub const WEBHOOK_URL_KEY: &'static str = "CLSERVER_DISCORD_WEBHOOK_URL";

/// Discord rejects messages longer than this many characters.
pub const DISCORD_CONTENT_LIMIT: usize = 2000;

/// How many characters of a long message are kept.
pub const DISCORD_TRUNCATED_CONTENT_LIMIT: usize = 1900;

/// Whether a summary is sent after maintenance: notifications must be enabled,
/// and the maintenance summary is on unless switched off.
pub open spec fn summary_wanted(config: Config) -> bool {
    flag(config.notifications.enabled) && config.notifications.maintenance_summary != Some(false)
}

pub fn notifications_enabled(config: &Config) -> (b: bool)
    ensures
        b == summary_wanted(*config),
{
    config.notifications.enabled == Some(true) && config.notifications.maintenance_summary != Some(
        false,
    )
}

/// `1h 2m 3s`, `2m 3s` or `3s`.
pub open spec fn duration_text(secs: nat) -> Seq<char> {
    let hours = secs / 3600;
    let minutes = (secs % 3600) / 60;
    let seconds = secs % 60;
    if hours > 0 {
        decimal(hours) + "h "@ + decimal(minutes) + "m "@ + decimal(seconds) + "s"@
    } else if minutes > 0 {
        decimal(minutes) + "m "@ + decimal(seconds) + "s"@
    } else {
        decimal(seconds) + "s"@
    }
}

/// The length of a maintenance run in hours, minutes and seconds.
pub fn format_duration(duration: Duration) -> (s: String)
    ensures
        s@ == duration_text(duration.secs as nat),
{
    let secs = duration.as_secs();
    let hours = secs / 3600;
    let minutes = (secs % 3600) / 60;
    let seconds = secs % 60;
    let mut s = String::new();
    if hours > 0 {
        push_decimal(&mut s, hours);
        s.append("h ");
        push_decimal(&mut s, minutes);
        s.append("m ");
        push_decimal(&mut s, seconds);
        s.append("s");
    } else if minutes > 0 {
        push_decimal(&mut s, minutes);
        s.append("m ");
        push_decimal(&mut s, seconds);
        s.append("s");
    } else {
        push_decimal(&mut s, seconds);
        s.append("s");
    }
    assert(s@ =~= duration_text(secs as nat));
    s
}

/// How many servers have the flag that `pick` selects switched on.
pub open spec fn count_flagged(servers: Seq<(String, ServerConfig)>, backup: bool) -> nat
    decreases servers.len(),
{
    if servers.len() == 0 {
        0
    } else {
        count_flagged(servers.drop_last(), backup) + if flag(
            if backup {
                servers.last().1.backup
            } else {
                servers.last().1.enabled
            },
        ) {
            1nat
        } else {
            0nat
        }
    }
}

pub proof fn lemma_count_flagged_bound(servers: Seq<(String, ServerConfig)>, backup: bool)
    ensures
        count_flagged(servers, backup) <= servers.len(),
    decreases servers.len(),
{
    if servers.len() > 0 {
        lemma_count_flagged_bound(servers.drop_last(), backup);
    }
}

fn count_servers(config: &Config, backup: bool) -> (n: usize)
    ensures
        n == count_flagged(config.servers@, backup),
{
    let mut n: usize = 0;
    let mut i: usize = 0;
    while i < config.servers.len()
        invariant
            i <= config.servers.len(),
            n == count_flagged(config.servers@.take(i as int), backup),
            n <= i,
        decreases config.servers.len() - i,
    {
        assert(config.servers@.take(i + 1).drop_last() =~= config.servers@.take(i as int));
        let on = if backup {
            config.servers[i].1.backup == Some(true)
        } else {
            config.servers[i].1.enabled == Some(true)
        };
        if on {
            n = n + 1;
        }
        i = i + 1;
    }
    assert(config.servers@.take(config.servers.len() as int) =~= config.servers@);
    n
}

/// The summary of a maintenance run; `result` holds the error text of a failed run.
pub open spec fn maintenance_text(config: Config, result: Result<(), String>, secs: nat) -> Seq<char> {
    let counts = "\n\nServers: "@ + decimal(config.servers@.len()) + " configured\nBackups: "@
        + decimal(count_flagged(config.servers@, true)) + " enabled\nEnabled for restart: "@
        + decimal(count_flagged(config.servers@, false)) + "\nDuration: "@ + duration_text(secs);
    match result {
        Ok(()) => "\u{2705} clserver maintenance completed"@ + counts,
        Err(e) => "\u{274c} clserver maintenance failed"@ + counts + "\n\nError:\n"@ + e@,
    }
}

/// The summary of a maintenance run.
pub fn maintenance_message(config: &Config, result: &Result<(), String>, duration: Duration) -> (s: String)
    ensures
        s@ == maintenance_text(*config, *result, duration.secs as nat),
{
    let total = config.servers.len();
    let backups = count_servers(config, true);
    let enabled = count_servers(config, false);
    let mut s = match result {
        Ok(()) => String::from_str("\u{2705} clserver maintenance completed"),
        Err(_) => String::from_str("\u{274c} clserver maintenance failed"),
    };
    let ghost head = s@;
    s.append("\n\nServers: ");
    push_decimal(&mut s, total as u64);
    s.append(" configured\nBackups: ");
    push_decimal(&mut s, backups as u64);
    s.append(" enabled\nEnabled for restart: ");
    push_decimal(&mut s, enabled as u64);
    s.append("\nDuration: ");
    let d = format_duration(duration);
    s.append(d.as_str());
    if let Err(e) = result {
        s.append("\n\nError:\n");
        s.append(e.as_str());
    }
    assert(s@ =~= maintenance_text(*config, *result, duration.secs as nat));
    s
}

/// Why a maintenance summary cannot be sent.
#[derive(Debug, PartialEq, Eq)]
pub enum NotifyError {
    /// Notifications are enabled but no webhook env file is configured.
    MissingWebhookEnvFile,
    /// The webhook env file does not define a webhook URL.
    MissingWebhookUrl { env_file: String },
}

pub open spec fn notify_error_text(e: NotifyError) -> Seq<char> {
    match e {
        NotifyError::MissingWebhookEnvFile =>
            "notifications.discord.webhookEnvFile is required when notifications are enabled"@,
        NotifyError::MissingWebhookUrl { env_file } => "Discord webhook env file '"@ + env_file@
            + "' must define CLSERVER_DISCORD_WEBHOOK_URL"@,
    }
}

impl NotifyError {
    pub fn message(&self) -> (m: String)
        ensures
            m@ == notify_error_text(*self),
    {
        match self {
            NotifyError::MissingWebhookEnvFile => String::from_str(
                "notifications.discord.webhookEnvFile is required when notifications are enabled",
            ),
            NotifyError::MissingWebhookUrl { env_file } => {
                let mut m = String::from_str("Discord webhook env file '");
                m.append(env_file.as_str());
                m.append("' must define CLSERVER_DISCORD_WEBHOOK_URL");
                m
            },
        }
    }
}

/// The webhook URL that the entries of the webhook env file define: the last
/// assignment of `CLSERVER_DISCORD_WEBHOOK_URL`, which must not be blank.
pub fn discord_webhook_url(entries: &Vec<(String, String)>, env_file: &str) -> (r: Result<String, NotifyError>)
    ensures
        match env_lookup(entries@, "CLSERVER_DISCORD_WEBHOOK_URL"@) {
            Some(url) if !blank(url) => r matches Ok(u) && u@ == url,
            _ => r matches Err(NotifyError::MissingWebhookUrl { env_file: f }) && f@ == env_file@,
        },
{
    match crate::envfile::env_value(entries, WEBHOOK_URL_KEY) {
        Some(url) => {
            if crate::text::is_blank(url.as_str()) {
                Err(NotifyError::MissingWebhookUrl { env_file: String::from_str(env_file) })
            } else {
                Ok(url)
            }
        },
        None => Err(NotifyError::MissingWebhookUrl { env_file: String::from_str(env_file) }),
    }
}

/// The note appended to a truncated message.
pub open spec fn truncation_note() -> Seq<char> {
    "\n\n\u{2026} truncated; check clserver.log for full details"@
}

/// A message as Discord accepts it: unchanged up to the limit, else its first
/// characters followed by a note.
pub open spec fn discord_content(content: Seq<char>) -> Seq<char> {
    if content.len() <= 2000 {
        content
    } else {
        content.take(1900) + truncation_note()
    }
}

pub fn truncate_discord_content(content: &str) -> (r: String)
    ensures
        r@ == discord_content(content@),
{
    let v = chars_of(content);
    if v.len() <= DISCORD_CONTENT_LIMIT {
        return String::from_str(content);
    }
    let kept = slice_chars(&v, 0, DISCORD_TRUNCATED_CONTENT_LIMIT);
    let mut r = string_of(&kept);
    r.append("\n\n\u{2026} truncated; check clserver.log for full details");
    assert(v@.subrange(0, 1900) =~= v@.take(1900));
    r
}

/// A truncated message stays within Discord's limit.
pub proof fn lemma_discord_content_fits(content: Seq<char>)
    ensures
        discord_content(content).len() <= 2000,
        content.len() <= 2000 ==> discord_content(content) == content,
{
    reveal_strlit("\n\n\u{2026} truncated; check clserver.log for full details");
}


/// Unicode control characters (general category `Cc`), as `char::is_control` decides.
pub open spec fn is_control_char(c: char) -> bool {
    c <= '\u{1f}' || ('\u{7f}' <= c && c <= '\u{9f}')
}

pub open spec fn hex_digit_char(d: int) -> char {
    if d < 10 {
        crate::text::digit_char(d)
    } else if d == 10 {
        'a'
    } else if d == 11 {
        'b'
    } else if d == 12 {
        'c'
    } else if d == 13 {
        'd'
    } else if d == 14 {
        'e'
    } else {
        'f'
    }
}

fn hex_digit(d: u32) -> (c: char)
    requires
        d < 16,
    ensures
        c == hex_digit_char(d as int),
{
    if d < 10 {
        crate::text::digit(d as u64)
    } else if d == 10 {
        'a'
    } else if d == 11 {
        'b'
    } else if d == 12 {
        'c'
    } else if d == 13 {
        'd'
    } else if d == 14 {
        'e'
    } else {
        'f'
    }
}

/// How one character is written inside a JSON string.
pub open spec fn json_escape_char(c: char) -> Seq<char> {
    if c == '"' {
        seq!['\\', '"']
    } else if c == '\\' {
        seq!['\\', '\\']
    } else if c == '\n' {
        seq!['\\', 'n']
    } else if c == '\r' {
        seq!['\\', 'r']
    } else if c == '\t' {
        seq!['\\', 't']
    } else if is_control_char(c) {
        let n = c as u32 as int;
        seq![
            '\\',
            'u',
            hex_digit_char(n / 4096 % 16),
            hex_digit_char(n / 256 % 16),
            hex_digit_char(n / 16 % 16),
            hex_digit_char(n % 16),
        ]
    } else {
        seq![c]
    }
}

/// A text written inside a JSON string.
pub open spec fn json_escaped(s: Seq<char>) -> Seq<char>
    decreases s.len(),
{
    if s.len() == 0 {
        seq![]
    } else {
        json_escaped(s.drop_last()) + json_escape_char(s.last())
    }
}

/// Escapes `value` for use inside a JSON string.
pub fn escape_json_string(value: &str) -> (r: String)
    ensures
        r@ == json_escaped(value@),
{
    let v = chars_of(value);
    let mut r = String::new();
    let mut i: usize = 0;
    while i < v.len()
        invariant
            i <= v.len(),
            r@ == json_escaped(v@.take(i as int)),
        decreases v.len() - i,
    {
        let c = v[i];
        let ghost before = r@;
        if c == '"' {
            r.append("\\\"");
        } else if c == '\\' {
            r.append("\\\\");
        } else if c == '\n' {
            r.append("\\n");
        } else if c == '\r' {
            r.append("\\r");
        } else if c == '\t' {
            r.append("\\t");
        } else if c <= '\u{1f}' || ('\u{7f}' <= c && c <= '\u{9f}') {
            let n = c as u32;
            r.push('\\');
            r.push('u');
            r.push(hex_digit(n / 4096 % 16));
            r.push(hex_digit(n / 256 % 16));
            r.push(hex_digit(n / 16 % 16));
            r.push(hex_digit(n % 16));
        } else {
            r.push(c);
        }
        proof {
            reveal_strlit("\\\"");
            reveal_strlit("\\\\");
            reveal_strlit("\\n");
            reveal_strlit("\\r");
            reveal_strlit("\\t");
            assert(v@.take(i + 1).drop_last() =~= v@.take(i as int));
            assert(r@ =~= before + json_escape_char(c));
        }
        i = i + 1;
    }
    assert(v@.take(v.len() as int) =~= v@);
    r
}

/// The JSON body of a webhook request carrying `content`.
pub open spec fn discord_payload_text(content: Seq<char>) -> Seq<char> {
    "{\"content\":\""@ + json_escaped(content) + "\"}"@
}

pub fn discord_payload(content: &str) -> (r: String)
    ensures
        r@ == discord_payload_text(content@),
{
    let mut r = String::from_str("{\"content\":\"");
    let escaped = escape_json_string(content);
    r.append(escaped.as_str());
    r.append("\"}");
    r
}

/// Where and what to send after a maintenance run.
pub struct SummaryDelivery {
    /// The env file that defines the webhook URL.
    pub env_file: String,
    /// The message, within Discord's limit.
    pub content: String,
}

/// Decides whether a maintenance summary is sent, and what it says: nothing
/// when notifications are off, an error when no webhook env file is configured.
pub fn send_maintenance_summary(config: &Config, result: &Result<(), String>, duration: Duration) -> (r:
    Result<Option<SummaryDelivery>, NotifyError>)
    ensures
        !summary_wanted(*config) ==> r matches Ok(None),
        summary_wanted(*config) ==> match config.notifications.discord.webhook_env_file {
            None => r == Err::<Option<SummaryDelivery>, NotifyError>(NotifyError::MissingWebhookEnvFile),
            Some(f) => r matches Ok(Some(d)) && d.env_file@ == f@ && d.content@ == discord_content(
                maintenance_text(*config, *result, duration.secs as nat),
            ),
        },
{
    if !notifications_enabled(config) {
        return Ok(None);
    }
    match &config.notifications.discord.webhook_env_file {
        None => Err(NotifyError::MissingWebhookEnvFile),
        Some(f) => {
            let message = maintenance_message(config, result, duration);
            let content = truncate_discord_content(message.as_str());
            Ok(Some(SummaryDelivery { env_file: f.clone(), content }))
        },
    }
}

} // verus!
