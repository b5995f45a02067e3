//! `validate-config` and its `--fix` run: what is reported when RCON
//! passwords in `clserver.toml` differ from `server.properties`, and how the
//! configuration text is rewritten, one accepted mismatch at a time.

use crate::config::{
    any_backup_enabled, literal_error_text, literal_string_item, restic_check_success_text,
    restic_environment_check_success_message, single_quoted, toml_value_error, Config,
    LiteralError, RconPasswordMismatch,
};
use crate::text::{decimal, push_decimal, push_text, views};
use vstd::prelude::*;

verus! {

// ---------------------------------------------------------------------------
// The TOML document
// ---------------------------------------------------------------------------

/// The message of `toml_edit`'s error on reading `text` as a TOML document;
/// `None` when it reads.
pub uninterp spec fn toml_document_error(text: Seq<char>) -> Option<Seq<char>>;

/// `str::parse::<toml_edit::DocumentMut>`, reduced to its error's message
/// (its `Display`); the TOML grammar and the wording of the message are not
/// restated here.
#[verifier::external_body]
fn toml_document_parse_error(text: &str) -> (r: Option<String>)
    ensures
        match r {
            Some(m) => toml_document_error(text@) == Some(m@),
            None => toml_document_error(text@) is None,
        },
{
    match text.parse::<toml_edit::DocumentMut>() {
        Ok(_) => None,
        Err(e) => Some(e.to_string()),
    }
}

/// The text of the TOML document `text` once the entry `field` of the entry
/// `key` of the top-level entry `table` is set to the TOML value `literal`;
/// `None` when the document or the value does not parse, or the path cannot
/// be indexed.
pub uninterp spec fn toml_with_value(
    text: Seq<char>,
    table: Seq<char>,
    key: Seq<char>,
    field: Seq<char>,
    literal: Seq<char>,
) -> Option<Seq<char>>;

/// Parses `text` as a `toml_edit::DocumentMut` and `literal` as a
/// `toml_edit::Value`, reaches `table`, then `key`, then `field` with
/// `Item::get_mut` (the form of the `IndexMut` of `document[table][key][field]`
/// that returns `None` where indexing would panic, and that inserts a missing
/// entry as indexing does), stores the value there and renders the document
/// with `to_string`. The contract only ties the result to the name above,
/// which stands for all of that.
#[verifier::external_body]
fn set_toml_value(text: &str, table: &str, key: &str, field: &str, literal: &str) -> (r: Option<String>)
    ensures
        match r {
            Some(t) => toml_with_value(text@, table@, key@, field@, literal@) == Some(t@),
            None => toml_with_value(text@, table@, key@, field@, literal@) is None,
        },
{
    let mut document: toml_edit::DocumentMut = text.parse().ok()?;
    let value: toml_edit::Value = literal.parse().ok()?;
    let slot = document.as_item_mut().get_mut(table)?.get_mut(key)?.get_mut(field)?;
    *slot = toml_edit::Item::Value(value);
    Some(document.to_string())
}

// ---------------------------------------------------------------------------
// Errors
// ---------------------------------------------------------------------------

/// Why a `--fix` run stopped or failed.
pub enum FixError {
    /// The configuration file is not a TOML document; `detail` is the
    /// parser's message.
    Unparsable { config_file: String, detail: String },
    /// The password of an accepted mismatch cannot be written as a literal.
    Literal { server_name: String, error: LiteralError },
    /// The document has no place for `servers.<key>.rconPassword`.
    Uneditable { server_key: String },
    /// Some mismatches were declined and remain.
    Remaining { count: usize },
}

pub open spec fn fix_error_text(e: FixError) -> Seq<char> {
    match e {
        FixError::Unparsable { config_file, detail } => "Failed to parse '"@ + config_file@ + "' for editing: "@
            + detail@,
        FixError::Literal { server_name, error } => "Failed to format rconPassword for server '"@
            + server_name@ + "' as a TOML literal string: "@ + literal_error_text(error),
        FixError::Uneditable { server_key } => "Failed to set rconPassword for server '"@ + server_key@
            + "' in the configuration document"@,
        FixError::Remaining { count } => decimal(count as nat)
            + " RCON password mismatch(es) remain. Re-run `clserver validate-config --fix` or update clserver.toml manually."@,
    }
}

impl FixError {
    pub fn message(&self) -> (m: String)
        ensures
            m@ == fix_error_text(*self),
    {
        match self {
            FixError::Unparsable { config_file, detail } => {
                let mut m = String::from_str("Failed to parse '");
                m.append(config_file.as_str());
                m.append("' for editing: ");
                m.append(detail.as_str());
                m
            },
            FixError::Literal { server_name, error } => {
                let mut m = String::from_str("Failed to format rconPassword for server '");
                m.append(server_name.as_str());
                m.append("' as a TOML literal string: ");
                let e = error.message();
                m.append(e.as_str());
                m
            },
            FixError::Uneditable { server_key } => {
                let mut m = String::from_str("Failed to set rconPassword for server '");
                m.append(server_key.as_str());
                m.append("' in the configuration document");
                m
            },
            FixError::Remaining { count } => {
                let mut m = String::new();
                push_decimal(&mut m, *count as u64);
                m.append(
                    " RCON password mismatch(es) remain. Re-run `clserver validate-config --fix` or update clserver.toml manually.",
                );
                m
            },
        }
    }
}

// ---------------------------------------------------------------------------
// What `validate-config` reports
// ---------------------------------------------------------------------------

/// The lines printed when the configuration is valid.
pub open spec fn success_lines(config: Config) -> Seq<Seq<char>> {
    (if any_backup_enabled(config.servers@) {
        seq![restic_check_success_text(config.backup)]
    } else {
        seq![]
    }) + seq!["Configuration is valid."@]
}

/// The report line of one mismatch.
pub open spec fn mismatch_line(m: RconPasswordMismatch) -> Seq<char> {
    "- Minecraft server '"@ + m.server_name@ + "': clserver.toml rconPassword differs from "@
        + m.properties_file@
}

/// The lines printed when mismatches are found and `--fix` was not given.
pub open spec fn mismatch_report_lines(ms: Seq<RconPasswordMismatch>) -> Seq<Seq<char>> {
    seq!["Configuration is structurally valid, but RCON password mismatches were found:"@]
        + ms.map_values(|m: RconPasswordMismatch| mismatch_line(m)) + seq![
        ""@,
        "Run `clserver validate-config --fix` to update clserver.toml from server.properties."@,
    ]
}

/// What `validate-config` does once the mismatches are known.
pub enum ValidateOutcome {
    /// Print the lines; the configuration is valid.
    Valid { lines: Vec<String> },
    /// Print the lines, then fail with the error.
    Mismatched { lines: Vec<String>, error: String },
    /// Run the `--fix` dialogue.
    Fix,
}

fn push_str(lines: &mut Vec<String>, s: &str)
    ensures
        views(final(lines)@) == views(old(lines)@).push(s@),
{
    push_text(lines, String::from_str(s));
}

/// Decides what `validate-config` does: report success when nothing
/// mismatches, report the mismatches and fail without `--fix`, or fix.
pub fn validate_outcome(config: &Config, mismatches: &Vec<RconPasswordMismatch>, fix: bool) -> (r:
    ValidateOutcome)
    ensures
        mismatches@.len() == 0 ==> (r matches ValidateOutcome::Valid { lines } && views(lines@)
            == success_lines(*config)),
        mismatches@.len() > 0 && !fix ==> (r matches ValidateOutcome::Mismatched { lines, error } && views(
            lines@,
        ) == mismatch_report_lines(mismatches@) && error@ == "RCON password mismatches found"@),
        mismatches@.len() > 0 && fix ==> r is Fix,
{
    if mismatches.len() == 0 {
        let mut lines: Vec<String> = Vec::new();
        match restic_environment_check_success_message(config) {
            Some(m) => push_text(&mut lines, m),
            None => {},
        }
        push_str(&mut lines, "Configuration is valid.");
        assert(views(lines@) =~= success_lines(*config));
        return ValidateOutcome::Valid { lines };
    }
    if fix {
        return ValidateOutcome::Fix;
    }
    let mut lines: Vec<String> = Vec::new();
    push_str(&mut lines, "Configuration is structurally valid, but RCON password mismatches were found:");
    let mut i: usize = 0;
    while i < mismatches.len()
        invariant
            i <= mismatches.len(),
            views(lines@) == seq![
                "Configuration is structurally valid, but RCON password mismatches were found:"@,
            ] + mismatches@.subrange(0, i as int).map_values(|m: RconPasswordMismatch| mismatch_line(m)),
        decreases mismatches.len() - i,
    {
        let m = &mismatches[i];
        let mut line = String::from_str("- Minecraft server '");
        line.append(m.server_name.as_str());
        line.append("': clserver.toml rconPassword differs from ");
        line.append(m.properties_file.as_str());
        push_text(&mut lines, line);
        assert(mismatches@.subrange(0, i + 1).map_values(|m: RconPasswordMismatch| mismatch_line(m))
            =~= mismatches@.subrange(0, i as int).map_values(|m: RconPasswordMismatch| mismatch_line(m)).push(
            mismatch_line(mismatches@[i as int]),
        ));
        i = i + 1;
    }
    assert(mismatches@.subrange(0, i as int) =~= mismatches@);
    push_str(&mut lines, "");
    push_str(&mut lines, "Run `clserver validate-config --fix` to update clserver.toml from server.properties.");
    assert(views(lines@) =~= mismatch_report_lines(mismatches@));
    ValidateOutcome::Mismatched { lines, error: String::from_str("RCON password mismatches found") }
}

/// The question asked before a mismatch is fixed.
pub open spec fn fix_prompt_text(m: RconPasswordMismatch) -> Seq<char> {
    "RCON password mismatch for server '"@ + m.server_name@ + "'. Update clserver.toml from '"@
        + m.properties_file@ + "'? [y/N] "@
}

pub fn fix_prompt(m: &RconPasswordMismatch) -> (r: String)
    ensures
        r@ == fix_prompt_text(*m),
{
    let mut r = String::from_str("RCON password mismatch for server '");
    r.append(m.server_name.as_str());
    r.append("'. Update clserver.toml from '");
    r.append(m.properties_file.as_str());
    r.append("'? [y/N] ");
    r
}

/// The error when a mismatch needs an answer but stdin is not a terminal.
pub open spec fn not_interactive_text(server_name: Seq<char>, properties_file: Seq<char>) -> Seq<char> {
    "RCON password mismatch for server '"@ + server_name
        + "', but stdin is not interactive. Update clserver.toml to match '"@ + properties_file + "'."@
}

pub fn not_interactive_message(server_name: &str, properties_file: &str) -> (r: String)
    ensures
        r@ == not_interactive_text(server_name@, properties_file@),
{
    let mut r = String::from_str("RCON password mismatch for server '");
    r.append(server_name);
    r.append("', but stdin is not interactive. Update clserver.toml to match '");
    r.append(properties_file);
    r.append("'.");
    r
}

// ---------------------------------------------------------------------------
// A mismatch found before a command that needs RCON
// ---------------------------------------------------------------------------

/// The question asked when the server's `server.properties` holds another
/// RCON password than `clserver.toml`.
pub open spec fn reconcile_question_text(m: RconPasswordMismatch) -> Seq<char> {
    "RCON password mismatch for server '"@ + m.server_name@ + "'. Use password from '"@
        + m.properties_file@ + "' for this run? [y/N] "@
}

pub fn reconcile_prompt(m: &RconPasswordMismatch) -> (r: String)
    ensures
        r@ == reconcile_question_text(*m),
{
    let mut r = String::from_str("RCON password mismatch for server '");
    r.append(m.server_name.as_str());
    r.append("'. Use password from '");
    r.append(m.properties_file.as_str());
    r.append("' for this run? [y/N] ");
    r
}

/// The error when the user keeps the password of `clserver.toml`.
pub open spec fn reconcile_declined_text(m: RconPasswordMismatch) -> Seq<char> {
    "RCON password mismatch for server '"@ + m.server_name@ + "'. Update clserver.toml to match '"@
        + m.properties_file@ + "' or rerun and accept the server.properties value."@
}

/// The line printed when the password of `server.properties` is used.
pub open spec fn reconcile_accepted_text(m: RconPasswordMismatch) -> Seq<char> {
    "Using RCON password from server.properties for server '"@ + m.server_name@
        + "'. Please update clserver.toml to keep future runs in sync."@
}

/// `new` is `old` with the RCON password of the server with ID `id` set to
/// `password`, and nothing else changed.
pub open spec fn password_set(old_config: Config, new_config: Config, id: Seq<char>, password: String) -> bool {
    &&& new_config.global == old_config.global
    &&& new_config.java_environments == old_config.java_environments
    &&& new_config.backup == old_config.backup
    &&& new_config.notifications == old_config.notifications
    &&& new_config.servers@.len() == old_config.servers@.len()
    &&& forall|i: int|
        0 <= i < old_config.servers@.len() ==> if Some(i) == crate::config::server_index(old_config.servers@, id) {
            (#[trigger] new_config.servers@[i]).0 == old_config.servers@[i].0 && new_config.servers@[i].1
                == (crate::config::ServerConfig { rcon_password: Some(password), ..old_config.servers@[i].1 })
        } else {
            new_config.servers@[i] == old_config.servers@[i]
        }
}

/// What the answer to the mismatch question does: with no terminal to ask
/// (`None`) or when declined, the command fails and the configuration stays
/// as it is; when accepted, the password of `server.properties` replaces
/// that of the server for this run (`clserver.toml` is not written) and a
/// line says so.
pub fn reconcile_answer(config: &mut Config, mismatch: &RconPasswordMismatch, answer: Option<bool>) -> (r: Result<
    String,
    String,
>)
    ensures
        answer is None ==> (r matches Err(e) && e@ == not_interactive_text(
            mismatch.server_name@,
            mismatch.properties_file@,
        )) && *final(config) == *old(config),
        answer == Some(false) ==> (r matches Err(e) && e@ == reconcile_declined_text(*mismatch)) && *final(config)
            == *old(config),
        answer == Some(true) ==> (r matches Ok(l) && l@ == reconcile_accepted_text(*mismatch)) && password_set(
            *old(config),
            *final(config),
            mismatch.server_key@,
            mismatch.properties_password,
        ),
{
    match answer {
        None => Err(not_interactive_message(mismatch.server_name.as_str(), mismatch.properties_file.as_str())),
        Some(false) => {
            let mut e = String::from_str("RCON password mismatch for server '");
            e.append(mismatch.server_name.as_str());
            e.append("'. Update clserver.toml to match '");
            e.append(mismatch.properties_file.as_str());
            e.append("' or rerun and accept the server.properties value.");
            Err(e)
        },
        Some(true) => {
            crate::config::set_rcon_password(
                config,
                mismatch.server_key.as_str(),
                mismatch.properties_password.clone(),
            );
            let mut l = String::from_str("Using RCON password from server.properties for server '");
            l.append(mismatch.server_name.as_str());
            l.append("'. Please update clserver.toml to keep future runs in sync.");
            Ok(l)
        },
    }
}

// ---------------------------------------------------------------------------
// The `--fix` run
// ---------------------------------------------------------------------------

/// The configuration text being fixed, with the answers counted so far.
pub struct FixProgress {
    pub text: String,
    pub fixed: usize,
    pub skipped: usize,
}

/// The line printed when a mismatch is fixed.
pub open spec fn updated_line(server_name: Seq<char>) -> Seq<char> {
    "Updated rconPassword for server '"@ + server_name + "' from server.properties."@
}

/// Why a step failed: the password holds a single quote, the parser refused
/// the literal, or the document has no place for the password.
pub enum FixFault {
    SingleQuote,
    Unrepresentable,
    Uneditable,
}

/// One answer applied to the configuration text: `Ok(None)` when declined,
/// `Ok(Some(t))` with the new text when accepted, where the password goes to
/// `servers.<key>.rconPassword` as a single-quoted literal; or the failure.
pub open spec fn fix_step_of(text: Seq<char>, m: RconPasswordMismatch, accepted: bool) -> Result<
    Option<Seq<char>>,
    FixFault,
> {
    let password = m.properties_password@;
    if !accepted {
        Ok(None)
    } else if password.contains('\'') {
        Err(FixFault::SingleQuote)
    } else {
        match toml_value_error(single_quoted(password)) {
            Some(_) => Err(FixFault::Unrepresentable),
            None => match toml_with_value(text, "servers"@, m.server_key@, "rconPassword"@, single_quoted(password)) {
                Some(t) => Ok(Some(t)),
                None => Err(FixFault::Uneditable),
            },
        }
    }
}

/// `e` is the error of a step on mismatch `m` that failed with `fault`.
pub open spec fn is_step_error(m: RconPasswordMismatch, fault: FixFault, e: FixError) -> bool {
    match fault {
        FixFault::SingleQuote => e matches FixError::Literal {
            server_name,
            error: LiteralError::ContainsSingleQuote,
        } && server_name@ == m.server_name@,
        FixFault::Unrepresentable => e matches FixError::Literal {
            server_name,
            error: LiteralError::NotRepresentable { detail },
        } && server_name@ == m.server_name@ && toml_value_error(single_quoted(m.properties_password@)) == Some(
            detail@,
        ),
        FixFault::Uneditable => e matches FixError::Uneditable { server_key } && server_key@ == m.server_key@,
    }
}

/// The lines printed at the end of a run that did not fail.
pub open spec fn finish_lines(fixed: nat, skipped: nat, config_file: Seq<char>) -> Seq<Seq<char>> {
    (if fixed > 0 {
        seq!["Updated "@ + decimal(fixed) + " server configuration(s) in "@ + config_file + "."@]
    } else {
        seq![]
    }) + (if skipped == 0 {
        seq!["Configuration is valid."@]
    } else {
        seq![]
    })
}

/// Checks that the configuration text is a TOML document before any
/// question is asked.
pub fn begin_rcon_password_fix(config_file: &str, text: String) -> (r: Result<FixProgress, FixError>)
    ensures
        match toml_document_error(text@) {
            None => (r matches Ok(p) && p.text@ == text@ && p.fixed == 0 && p.skipped == 0),
            Some(d) => (r matches Err(FixError::Unparsable { config_file: f, detail }) && f@ == config_file@
                && detail@ == d),
        },
{
    match toml_document_parse_error(text.as_str()) {
        None => Ok(FixProgress { text, fixed: 0, skipped: 0 }),
        Some(detail) => Err(FixError::Unparsable { config_file: String::from_str(config_file), detail }),
    }
}

/// Applies one answer: a declined mismatch is counted as skipped; an
/// accepted one has its password written as a literal string into
/// `servers.<key>.rconPassword`, and yields the line to print.
pub fn rcon_password_fix_step(progress: FixProgress, mismatch: &RconPasswordMismatch, accepted: bool) -> (r:
    Result<(FixProgress, Option<String>), FixError>)
    requires
        progress.fixed + progress.skipped < usize::MAX,
    ensures
        match fix_step_of(progress.text@, *mismatch, accepted) {
            Ok(None) => (r matches Ok((p, line)) && p.text@ == progress.text@ && p.fixed == progress.fixed
                && p.skipped == progress.skipped + 1 && line is None),
            Ok(Some(t)) => (r matches Ok((p, line)) && p.text@ == t && p.fixed == progress.fixed + 1
                && p.skipped == progress.skipped && (line matches Some(l) && l@ == updated_line(
                mismatch.server_name@,
            ))),
            Err(fault) => (r matches Err(e) && is_step_error(*mismatch, fault, e)),
        },
{
    if !accepted {
        return Ok((FixProgress { text: progress.text, fixed: progress.fixed, skipped: progress.skipped + 1 }, None));
    }
    let literal = match literal_string_item(mismatch.properties_password.as_str()) {
        Ok(l) => l,
        Err(e) => {
            return Err(FixError::Literal { server_name: mismatch.server_name.clone(), error: e });
        },
    };
    match set_toml_value(
        progress.text.as_str(),
        "servers",
        mismatch.server_key.as_str(),
        "rconPassword",
        literal.as_str(),
    ) {
        Some(t) => {
            let mut line = String::from_str("Updated rconPassword for server '");
            line.append(mismatch.server_name.as_str());
            line.append("' from server.properties.");
            Ok((FixProgress { text: t, fixed: progress.fixed + 1, skipped: progress.skipped }, Some(line)))
        },
        None => Err(FixError::Uneditable { server_key: mismatch.server_key.clone() }),
    }
}

/// How a `--fix` run ends: the text to write back when something was fixed,
/// the lines to print after writing it, and the result.
pub struct FixEnd {
    pub write: Option<String>,
    pub lines: Vec<String>,
    pub result: Result<(), FixError>,
}

/// Ends a run: write back when something was fixed, report how many
/// configurations changed, and fail while declined mismatches remain.
pub fn finish_rcon_password_fix(progress: &FixProgress, config_file: &str) -> (e: FixEnd)
    ensures
        progress.fixed > 0 ==> (e.write matches Some(t) && t@ == progress.text@),
        progress.fixed == 0 ==> e.write is None,
        views(e.lines@) == finish_lines(progress.fixed as nat, progress.skipped as nat, config_file@),
        progress.skipped > 0 ==> (e.result matches Err(FixError::Remaining { count }) && count
            == progress.skipped),
        progress.skipped == 0 ==> e.result is Ok,
{
    let mut lines: Vec<String> = Vec::new();
    let write = if progress.fixed > 0 {
        let mut line = String::from_str("Updated ");
        push_decimal(&mut line, progress.fixed as u64);
        line.append(" server configuration(s) in ");
        line.append(config_file);
        line.append(".");
        push_text(&mut lines, line);
        Some(progress.text.clone())
    } else {
        None
    };
    let result = if progress.skipped > 0 {
        Err(FixError::Remaining { count: progress.skipped })
    } else {
        push_str(&mut lines, "Configuration is valid.");
        Ok(())
    };
    assert(views(lines@) =~= finish_lines(progress.fixed as nat, progress.skipped as nat, config_file@));
    FixEnd { write, lines, result }
}

/// The first `n` answers applied in order to `text`: the text, the fixed and
/// skipped counts and the printed lines, or the index and fault of the step
/// that failed.
pub open spec fn fix_run(text: Seq<char>, ms: Seq<RconPasswordMismatch>, acc: Seq<bool>, n: nat) -> Result<
    (Seq<char>, nat, nat, Seq<Seq<char>>),
    (int, FixFault),
>
    decreases n,
{
    if n == 0 {
        Ok((text, 0, 0, seq![]))
    } else {
        let k = n - 1;
        match fix_run(text, ms, acc, k as nat) {
            Err(x) => Err(x),
            Ok((t, f, s, ls)) => match fix_step_of(t, ms[k], acc[k]) {
                Ok(None) => Ok((t, f, s + 1, ls)),
                Ok(Some(t2)) => Ok((t2, f + 1, s, ls.push(updated_line(ms[k].server_name@)))),
                Err(fault) => Err((k, fault)),
            },
        }
    }
}

proof fn lemma_fix_run_counts(text: Seq<char>, ms: Seq<RconPasswordMismatch>, acc: Seq<bool>, n: nat)
    ensures
        fix_run(text, ms, acc, n) matches Ok((t, f, s, ls)) ==> f + s == n,
        fix_run(text, ms, acc, n) matches Err((k, fault)) ==> 0 <= k < n,
    decreases n,
{
    if n > 0 {
        lemma_fix_run_counts(text, ms, acc, (n - 1) as nat);
    }
}

/// Once a step fails, the run keeps that failure.
proof fn lemma_fix_run_failed(text: Seq<char>, ms: Seq<RconPasswordMismatch>, acc: Seq<bool>, i: nat, n: nat)
    requires
        i <= n,
        fix_run(text, ms, acc, i) is Err,
    ensures
        fix_run(text, ms, acc, n) == fix_run(text, ms, acc, i),
    decreases n - i,
{
    if n > i {
        lemma_fix_run_failed(text, ms, acc, i, (n - 1) as nat);
    }
}

/// The whole `--fix` run with every answer given in advance, `accepted[i]`
/// answering `mismatches[i]`: the text folded through the accepted
/// mismatches in order, the first failure if any, and how the run ends.
pub fn apply_rcon_password_fixes(
    config_file: &str,
    config_text: &str,
    mismatches: &Vec<RconPasswordMismatch>,
    accepted: &Vec<bool>,
) -> (r: Result<FixEnd, FixError>)
    requires
        accepted.len() == mismatches.len(),
    ensures
        toml_document_error(config_text@) matches Some(d) ==> (r matches Err(
            FixError::Unparsable { config_file: f, detail },
        ) && f@ == config_file@ && detail@ == d),
        toml_document_error(config_text@) is None ==> match fix_run(
            config_text@,
            mismatches@,
            accepted@,
            mismatches@.len(),
        ) {
            Err((k, fault)) => (r matches Err(e) && is_step_error(mismatches@[k], fault, e)),
            Ok((t, f, s, ls)) => (r matches Ok(e) && (f > 0 ==> (e.write matches Some(w) && w@ == t)) && (f
                == 0 ==> e.write is None) && views(e.lines@) == ls + finish_lines(f, s, config_file@) && (s > 0
                ==> (e.result matches Err(FixError::Remaining { count }) && count == s)) && (s == 0
                ==> e.result is Ok)),
        },
{
    let mut progress = match begin_rcon_password_fix(config_file, String::from_str(config_text)) {
        Ok(p) => p,
        Err(e) => return Err(e),
    };
    let mut lines: Vec<String> = Vec::new();
    let mut i: usize = 0;
    while i < mismatches.len()
        invariant
            i <= mismatches.len(),
            accepted.len() == mismatches.len(),
            toml_document_error(config_text@) is None,
            fix_run(config_text@, mismatches@, accepted@, i as nat) matches Ok((t, f, s, ls)) && t
                == progress.text@ && f == progress.fixed && s == progress.skipped && ls == views(lines@),
            progress.fixed + progress.skipped == i,
        decreases mismatches.len() - i,
    {
        proof {
            lemma_fix_run_counts(config_text@, mismatches@, accepted@, (i + 1) as nat);
        }
        match rcon_password_fix_step(progress, &mismatches[i], accepted[i]) {
            Ok((p, line)) => {
                progress = p;
                match line {
                    Some(l) => push_text(&mut lines, l),
                    None => {},
                }
            },
            Err(e) => {
                proof {
                    lemma_fix_run_failed(
                        config_text@,
                        mismatches@,
                        accepted@,
                        (i + 1) as nat,
                        mismatches@.len(),
                    );
                }
                return Err(e);
            },
        }
        i = i + 1;
    }
    let end = finish_rcon_password_fix(&progress, config_file);
    let mut all = lines;
    let mut j: usize = 0;
    let ghost head = views(all@);
    while j < end.lines.len()
        invariant
            j <= end.lines.len(),
            views(all@) == head + views(end.lines@).subrange(0, j as int),
        decreases end.lines.len() - j,
    {
        push_text(&mut all, end.lines[j].clone());
        assert(views(end.lines@).subrange(0, j + 1) =~= views(end.lines@).subrange(0, j as int).push(
            end.lines@[j as int]@,
        ));
        j = j + 1;
    }
    assert(views(end.lines@).subrange(0, j as int) =~= views(end.lines@));
    Ok(FixEnd { write: end.write, lines: all, result: end.result })
}

} // verus!
