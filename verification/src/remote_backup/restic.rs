//! Remote backups with restic.

use crate::envfile::env_lookup;
use crate::remote_backup::RemoteSnapshotSummary;
use crate::text::{
    all_hex, chars_of, decimal, find_text, find_text_from, is_all_hex, lines,
    push_text, slice_chars, split_lines, split_words, string_of, trim, trim_chars, utf8, views,
    words,
};
use vstd::prelude::*;

verus! {

/// Runs restic with the variables of an env file, or with the process environment.
pub struct ResticRemoteBackupProvider {
    pub env_file: Option<String>,
}

impl ResticRemoteBackupProvider {
    pub fn new(env_file: Option<String>) -> (p: Self)
        ensures
            p.env_file == env_file,
    {
        ResticRemoteBackupProvider { env_file }
    }
}


/// A restic snapshot ID: at least eight hexadecimal digits.
pub open spec fn snapshot_id_like(w: Seq<char>) -> bool {
    w.len() >= 8 && all_hex(w)
}

/// A date such as `2026-06-10`: ten bytes with `-` at bytes 4 and 7.
pub open spec fn date_like(w: Seq<char>) -> bool {
    utf8(w).len() == 10 && utf8(w)[4] == 45u8 && utf8(w)[7] == 45u8
}

/// A time such as `03:04:05`: at least eight bytes with `:` at bytes 2 and 5.
pub open spec fn time_like(w: Seq<char>) -> bool {
    utf8(w).len() >= 8 && utf8(w)[2] == 58u8 && utf8(w)[5] == 58u8
}

pub fn is_restic_snapshot_id(value: &str) -> (b: bool)
    ensures
        b == snapshot_id_like(value@),
{
    let v = chars_of(value);
    v.len() >= 8 && is_all_hex(&v)
}

pub fn looks_like_restic_date(value: &str) -> (b: bool)
    ensures
        b == date_like(value@),
{
    let bytes = value.as_bytes();
    bytes.len() == 10 && bytes[4] == 45u8 && bytes[7] == 45u8
}

pub fn looks_like_restic_time(value: &str) -> (b: bool)
    ensures
        b == time_like(value@),
{
    let bytes = value.as_bytes();
    bytes.len() >= 8 && bytes[2] == 58u8 && bytes[5] == 58u8
}

/// The snapshot that one line of `restic snapshots` lists: its ID, and its
/// date and time joined by a space.
pub open spec fn snapshot_line(line: Seq<char>) -> Option<(Seq<char>, Seq<char>)> {
    let ws = words(line);
    if ws.len() >= 3 && snapshot_id_like(ws[0]) && date_like(ws[1]) && time_like(ws[2]) {
        Some((ws[0], ws[1] + " "@ + ws[2]))
    } else {
        None
    }
}

/// Whether a summary holds exactly the given ID and time.
pub open spec fn summary_is(r: RemoteSnapshotSummary, id: Seq<char>, time: Seq<char>) -> bool {
    &&& (r.short_id matches Some(i) && i@ == id)
    &&& (r.time matches Some(t) && t@ == time)
}

pub fn parse_restic_snapshot_summary_line(line: &str) -> (r: Option<RemoteSnapshotSummary>)
    ensures
        match (r, snapshot_line(line@)) {
            (Some(s), Some((id, time))) => summary_is(s, id, time),
            (None, None) => true,
            _ => false,
        },
{
    let v = chars_of(line);
    let ws = split_words(&v);
    if ws.len() < 3 {
        return None;
    }
    let id = string_of(&ws[0]);
    let date = string_of(&ws[1]);
    let time = string_of(&ws[2]);
    if !is_restic_snapshot_id(id.as_str()) || !looks_like_restic_date(date.as_str())
        || !looks_like_restic_time(time.as_str()) {
        return None;
    }
    let mut when = date;
    when.append(" ");
    when.append(time.as_str());
    Some(RemoteSnapshotSummary { short_id: Some(id), time: Some(when) })
}

/// The first snapshot listed among lines `i..`.
pub open spec fn first_snapshot(ls: Seq<Seq<char>>, i: int) -> Option<(Seq<char>, Seq<char>)>
    decreases ls.len() - i,
{
    if i < 0 || i >= ls.len() {
        None
    } else {
        match snapshot_line(ls[i]) {
            Some(s) => Some(s),
            None => first_snapshot(ls, i + 1),
        }
    }
}

/// The first snapshot line is the one found: among lines `i..`, a snapshot
/// is found exactly when some line shows one, and then it is the one shown
/// by a line before which (from `i`) no line shows a snapshot.
pub proof fn lemma_first_snapshot(ls: Seq<Seq<char>>, i: int)
    requires
        0 <= i <= ls.len(),
    ensures
        (first_snapshot(ls, i) is None) == (forall|j: int| i <= j < ls.len() ==> snapshot_line(#[trigger] ls[j]) is None),
        first_snapshot(ls, i) matches Some(x) ==> exists|k: int|
            i <= k < ls.len() && snapshot_line(#[trigger] ls[k]) == Some(x) && forall|j: int|
                i <= j < k ==> snapshot_line(#[trigger] ls[j]) is None,
    decreases ls.len() - i,
{
    if i < ls.len() {
        lemma_first_snapshot(ls, i + 1);
        if snapshot_line(ls[i]) is None {
            if first_snapshot(ls, i) is Some {
                let x = first_snapshot(ls, i)->0;
                let k = choose|k: int|
                    i + 1 <= k < ls.len() && snapshot_line(#[trigger] ls[k]) == Some(x) && forall|j: int|
                        i + 1 <= j < k ==> snapshot_line(#[trigger] ls[j]) is None;
                assert(forall|j: int| i <= j < k ==> snapshot_line(#[trigger] ls[j]) is None);
            }
        } else {
            assert(snapshot_line(ls[i]) == first_snapshot(ls, i));
        }
    }
}

/// The newest snapshot in the table that `restic snapshots --latest 1` prints:
/// the snapshot of the first line that shows one, `None` when no line does.
pub fn parse_latest_restic_snapshot_summary(output: &str) -> (r: Option<RemoteSnapshotSummary>)
    ensures
        match (r, first_snapshot(lines(output@), 0)) {
            (Some(s), Some((id, time))) => summary_is(s, id, time),
            (None, None) => true,
            _ => false,
        },
        (r is None) == (forall|j: int|
            0 <= j < lines(output@).len() ==> snapshot_line(#[trigger] lines(output@)[j]) is None),
        r matches Some(s) ==> exists|k: int|
            0 <= k < lines(output@).len() && (snapshot_line(#[trigger] lines(output@)[k]) matches Some(
                (id, time),
            ) && summary_is(s, id, time)) && forall|j: int|
                0 <= j < k ==> snapshot_line(#[trigger] lines(output@)[j]) is None,
{
    let r = find_first_restic_snapshot(output);
    proof {
        lemma_first_snapshot(lines(output@), 0);
    }
    r
}

fn find_first_restic_snapshot(output: &str) -> (r: Option<RemoteSnapshotSummary>)
    ensures
        match (r, first_snapshot(lines(output@), 0)) {
            (Some(s), Some((id, time))) => summary_is(s, id, time),
            (None, None) => true,
            _ => false,
        },
{
    let ls = split_lines(output);
    let ghost lv = lines(output@);
    let mut i: usize = 0;
    while i < ls.len()
        invariant
            i <= ls.len(),
            lv == lines(output@),
            ls@.len() == lv.len(),
            forall|k: int| 0 <= k < ls@.len() ==> (#[trigger] ls@[k])@ == lv[k],
            first_snapshot(lv, 0) == first_snapshot(lv, i as int),
        decreases ls.len() - i,
    {
        let line = string_of(&ls[i]);
        let found = parse_restic_snapshot_summary_line(line.as_str());
        if found.is_some() {
            return found;
        }
        i = i + 1;
    }
    None
}

/// The byte multiplier of a restic size unit.
pub open spec fn size_unit_multiplier(unit: Seq<char>) -> Option<u64> {
    if unit == "B"@ {
        Some(1)
    } else if unit == "KiB"@ || unit == "KB"@ {
        Some(0x400)
    } else if unit == "MiB"@ || unit == "MB"@ {
        Some(0x10_0000)
    } else if unit == "GiB"@ || unit == "GB"@ {
        Some(0x4000_0000)
    } else if unit == "TiB"@ || unit == "TB"@ {
        Some(0x100_0000_0000)
    } else {
        None
    }
}

/// `s` without `,` characters.
pub open spec fn without_commas(s: Seq<char>) -> Seq<char>
    decreases s.len(),
{
    if s.len() == 0 {
        seq![]
    } else if s.last() == ',' {
        without_commas(s.drop_last())
    } else {
        without_commas(s.drop_last()).push(s.last())
    }
}

/// `s` without trailing `,` characters.
pub open spec fn without_trailing_commas(s: Seq<char>) -> Seq<char>
    decreases s.len(),
{
    if s.len() > 0 && s.last() == ',' {
        without_trailing_commas(s.drop_last())
    } else {
        s
    }
}

/// The amount (without thousands separators) and the unit multiplier of a
/// restic size such as `1,024 KiB`.
pub open spec fn size_parts(value: Seq<char>) -> Option<(Seq<char>, u64)> {
    let ws = words(value);
    if ws.len() < 2 {
        None
    } else {
        match size_unit_multiplier(without_trailing_commas(ws[1])) {
            Some(m) => Some((without_commas(ws[0]), m)),
            None => None,
        }
    }
}

fn remove_commas(v: &Vec<char>) -> (r: Vec<char>)
    ensures
        r@ == without_commas(v@),
{
    let mut r: Vec<char> = Vec::new();
    let mut i: usize = 0;
    while i < v.len()
        invariant
            i <= v.len(),
            r@ == without_commas(v@.take(i as int)),
        decreases v.len() - i,
    {
        assert(v@.take(i + 1).drop_last() =~= v@.take(i as int));
        if v[i] != ',' {
            r.push(v[i]);
        }
        i = i + 1;
    }
    assert(v@.take(v.len() as int) =~= v@);
    r
}

fn unit_multiplier(unit: &Vec<char>) -> (m: Option<u64>)
    ensures
        m == size_unit_multiplier(without_trailing_commas(unit@)),
{
    let mut end = unit.len();
    assert(unit@.take(unit.len() as int) =~= unit@);
    while end > 0 && unit[end - 1] == ','
        invariant
            end <= unit.len(),
            without_trailing_commas(unit@) == without_trailing_commas(unit@.take(end as int)),
        decreases end,
    {
        assert(unit@.take(end as int).drop_last() =~= unit@.take(end - 1));
        end = end - 1;
    }
    assert(unit@.take(unit.len() as int) =~= unit@);
    let u = slice_chars(unit, 0, end);
    assert(u@ =~= unit@.take(end as int));
    assert(without_trailing_commas(u@) == u@);
    let s = string_of(&u);
    let t = s.as_str();
    if crate::text::str_eq(t, "B") {
        Some(1)
    } else if crate::text::str_eq(t, "KiB") || crate::text::str_eq(t, "KB") {
        Some(0x400)
    } else if crate::text::str_eq(t, "MiB") || crate::text::str_eq(t, "MB") {
        Some(0x10_0000)
    } else if crate::text::str_eq(t, "GiB") || crate::text::str_eq(t, "GB") {
        Some(0x4000_0000)
    } else if crate::text::str_eq(t, "TiB") || crate::text::str_eq(t, "TB") {
        Some(0x100_0000_0000)
    } else {
        None
    }
}

/// Splits a restic size into the amount text and the unit multiplier; the
/// amount is a decimal number that the caller reads.
pub fn parse_restic_size_parts(value: &str) -> (r: Option<(String, u64)>)
    ensures
        match (r, size_parts(value@)) {
            (Some((a, m)), Some((b, n))) => a@ == b && m == n,
            (None, None) => true,
            _ => false,
        },
{
    let v = chars_of(value);
    let ws = split_words(&v);
    if ws.len() < 2 {
        return None;
    }
    match unit_multiplier(&ws[1]) {
        Some(m) => {
            let amount = remove_commas(&ws[0]);
            Some((string_of(&amount), m))
        },
        None => None,
    }
}

/// The marker restic prints before the size a backup added.
pub open spec fn added_marker() -> Seq<char> {
    "Added to the repository:"@
}

/// The size parts on one line of restic output that reports what a backup added.
pub open spec fn added_line_parts(line: Seq<char>) -> Option<(Seq<char>, u64)> {
    match find_text_from(line, added_marker(), 0) {
        Some(i) => size_parts(trim(line.subrange(i + added_marker().len(), line.len() as int))),
        None => None,
    }
}

/// The size parts of every line of restic output that reports what a backup
/// added, in order; the first whose amount reads as a number gives the size.
pub open spec fn added_candidates(ls: Seq<Seq<char>>) -> Seq<(Seq<char>, u64)>
    decreases ls.len(),
{
    if ls.len() == 0 {
        seq![]
    } else {
        added_candidates(ls.drop_last()) + match added_line_parts(ls.last()) {
            Some(p) => seq![p],
            None => seq![],
        }
    }
}

pub fn restic_added_to_repository_candidates(output: &str) -> (r: Vec<(String, u64)>)
    ensures
        r@.len() == added_candidates(lines(output@)).len(),
        forall|i: int|
            0 <= i < r@.len() ==> (#[trigger] r@[i]).0@ == added_candidates(lines(output@))[i].0 && r@[i].1
                == added_candidates(lines(output@))[i].1,
{
    let ls = split_lines(output);
    let ghost lv = lines(output@);
    let marker = chars_of("Added to the repository:");
    let mut r: Vec<(String, u64)> = Vec::new();
    let mut i: usize = 0;
    while i < ls.len()
        invariant
            i <= ls.len(),
            lv == lines(output@),
            marker@ == added_marker(),
            ls@.len() == lv.len(),
            forall|k: int| 0 <= k < ls@.len() ==> (#[trigger] ls@[k])@ == lv[k],
            r@.len() == added_candidates(lv.take(i as int)).len(),
            forall|k: int|
                0 <= k < r@.len() ==> (#[trigger] r@[k]).0@ == added_candidates(lv.take(i as int))[k].0
                    && r@[k].1 == added_candidates(lv.take(i as int))[k].1,
        decreases ls.len() - i,
    {
        let ghost before = added_candidates(lv.take(i as int));
        assert(lv.take(i + 1).drop_last() =~= lv.take(i as int));
        assert(lv.take(i + 1).last() == lv[i as int]);
        let line = &ls[i];
        let found = find_text(line, &marker);
        match found {
            Some(at) => {
                let line_len = line.len();
                assert(at + marker@.len() <= line@.len());
                let rest = slice_chars(line, at + marker.len(), line_len);
                let value = trim_chars(&rest);
                let value_string = string_of(&value);
                match parse_restic_size_parts(value_string.as_str()) {
                    Some(p) => {
                        r.push(p);
                    },
                    None => {},
                }
            },
            None => {},
        }
        i = i + 1;
    }
    assert(lv.take(ls.len() as int) =~= lv);
    r
}

/// The restic environment lacks a setting that restic needs.
#[derive(Debug, PartialEq, Eq)]
pub enum ResticEnvError {
    MissingRepository { env_file: Option<String> },
    MissingPassword { env_file: Option<String> },
}

/// ` in '<env file>'`, or ` in the environment`.
pub open spec fn env_source_text(env_file: Option<String>) -> Seq<char> {
    match env_file {
        Some(f) => " in '"@ + f@ + "'"@,
        None => " in the environment"@,
    }
}

pub open spec fn restic_env_error_text(e: ResticEnvError) -> Seq<char> {
    match e {
        ResticEnvError::MissingRepository { env_file } =>
            "Restic repository is not configured. Set RESTIC_REPOSITORY"@ + env_source_text(env_file)
                + "."@,
        ResticEnvError::MissingPassword { env_file } =>
            "Restic password is not configured. Set RESTIC_PASSWORD, RESTIC_PASSWORD_FILE, or RESTIC_PASSWORD_COMMAND"@
                + env_source_text(env_file) + "."@,
    }
}

fn push_env_source(m: &mut String, env_file: &Option<String>)
    ensures
        final(m)@ == old(m)@ + env_source_text(*env_file),
{
    match env_file {
        Some(f) => {
            m.append(" in '");
            m.append(f.as_str());
            m.append("'");
        },
        None => m.append(" in the environment"),
    }
}

impl ResticEnvError {
    pub fn message(&self) -> (m: String)
        ensures
            m@ == restic_env_error_text(*self),
    {
        match self {
            ResticEnvError::MissingRepository { env_file } => {
                let mut m = String::from_str(
                    "Restic repository is not configured. Set RESTIC_REPOSITORY",
                );
                push_env_source(&mut m, env_file);
                m.append(".");
                m
            },
            ResticEnvError::MissingPassword { env_file } => {
                let mut m = String::from_str(
                    "Restic password is not configured. Set RESTIC_PASSWORD, RESTIC_PASSWORD_FILE, or RESTIC_PASSWORD_COMMAND",
                );
                push_env_source(&mut m, env_file);
                m.append(".");
                m
            },
        }
    }
}

/// The verdict on a restic environment: it must name a repository and a way
/// to get the repository password.
pub open spec fn restic_env_check(entries: Seq<(String, String)>, env_file: Option<String>) -> Result<
    (),
    ResticEnvError,
> {
    if env_lookup(entries, "RESTIC_REPOSITORY"@) is None {
        Err(ResticEnvError::MissingRepository { env_file })
    } else if !crate::config::restic_password_configured(entries) {
        Err(ResticEnvError::MissingPassword { env_file })
    } else {
        Ok(())
    }
}

/// Checks that the restic environment (the entries of `env_file`, or of the
/// process environment) names a repository and a way to get its password.
pub fn validate_restic_environment(entries: &Vec<(String, String)>, env_file: &Option<String>) -> (r:
    Result<(), ResticEnvError>)
    ensures
        r == restic_env_check(entries@, *env_file),
        env_lookup(entries@, "RESTIC_REPOSITORY"@) is None ==> r == Err::<(), ResticEnvError>(
            ResticEnvError::MissingRepository { env_file: *env_file },
        ),
        env_lookup(entries@, "RESTIC_REPOSITORY"@) is Some && !crate::config::restic_password_configured(
            entries@,
        ) ==> r == Err::<(), ResticEnvError>(ResticEnvError::MissingPassword { env_file: *env_file }),
        env_lookup(entries@, "RESTIC_REPOSITORY"@) is Some && crate::config::restic_password_configured(
            entries@,
        ) ==> r is Ok,
{
    if crate::envfile::env_value(entries, "RESTIC_REPOSITORY").is_none() {
        return Err(ResticEnvError::MissingRepository { env_file: crate::config::clone_opt_string(env_file) });
    }
    if crate::envfile::env_value(entries, "RESTIC_PASSWORD").is_none() && crate::envfile::env_value(
        entries,
        "RESTIC_PASSWORD_FILE",
    ).is_none() && crate::envfile::env_value(entries, "RESTIC_PASSWORD_COMMAND").is_none() {
        return Err(ResticEnvError::MissingPassword { env_file: crate::config::clone_opt_string(env_file) });
    }
    Ok(())
}

fn text(s: &str) -> (r: String)
    ensures
        r@ == s@,
{
    String::from_str(s)
}

fn tagged(prefix: &str, value: &str) -> (r: String)
    ensures
        r@ == prefix@ + value@,
{
    let mut r = String::from_str(prefix);
    r.append(value);
    r
}

/// Arguments of `restic backup` for a server, tagged with its ID and name.
pub fn backup_args(server_dir: &str, server_id: &str, server_name: &str) -> (r: Vec<String>)
    ensures
        views(r@) == seq![
            "backup"@,
            server_dir@,
            "--tag"@,
            "clserver"@,
            "--tag"@,
            "server-id:"@ + server_id@,
            "--tag"@,
            "server-name:"@ + server_name@,
        ],
{
    let r = vec![
        text("backup"),
        text(server_dir),
        text("--tag"),
        text("clserver"),
        text("--tag"),
        tagged("server-id:", server_id),
        text("--tag"),
        tagged("server-name:", server_name),
    ];
    assert(views(r@) =~= seq![
        "backup"@,
        server_dir@,
        "--tag"@,
        "clserver"@,
        "--tag"@,
        "server-id:"@ + server_id@,
        "--tag"@,
        "server-name:"@ + server_name@,
    ]);
    r
}

/// Arguments of `restic restore` that stage a snapshot into `target`.
pub fn restore_args(snapshot: &str, target: &str, include_path: &str) -> (r: Vec<String>)
    ensures
        views(r@) == seq!["restore"@, snapshot@, "--target"@, target@, "--include"@, include_path@],
{
    let r = vec![
        text("restore"),
        text(snapshot),
        text("--target"),
        text(target),
        text("--include"),
        text(include_path),
    ];
    assert(views(r@) =~= seq!["restore"@, snapshot@, "--target"@, target@, "--include"@, include_path@]);
    r
}

/// Arguments of `restic snapshots` for the newest snapshot of a server.
pub fn latest_snapshot_args(server_id: &str) -> (r: Vec<String>)
    ensures
        views(r@) == seq![
            "snapshots"@,
            "--latest"@,
            "1"@,
            "--tag"@,
            "clserver"@,
            "--tag"@,
            "server-id:"@ + server_id@,
        ],
{
    let r = vec![
        text("snapshots"),
        text("--latest"),
        text("1"),
        text("--tag"),
        text("clserver"),
        text("--tag"),
        tagged("server-id:", server_id),
    ];
    assert(views(r@) =~= seq![
        "snapshots"@,
        "--latest"@,
        "1"@,
        "--tag"@,
        "clserver"@,
        "--tag"@,
        "server-id:"@ + server_id@,
    ]);
    r
}

/// Arguments of `restic snapshots` that list a server's snapshots, the
/// newest `latest` of them when `latest` is not zero.
pub fn print_snapshots_args(server_id: &str, latest: u64) -> (r: Vec<String>)
    ensures
        views(r@) == seq!["snapshots"@, "--tag"@, "clserver"@, "--tag"@, "server-id:"@ + server_id@] + if latest
            > 0 {
            seq!["--latest"@, decimal(latest as nat)]
        } else {
            seq![]
        },
{
    let mut r = vec![
        text("snapshots"),
        text("--tag"),
        text("clserver"),
        text("--tag"),
        tagged("server-id:", server_id),
    ];
    assert(views(r@) =~= seq!["snapshots"@, "--tag"@, "clserver"@, "--tag"@, "server-id:"@ + server_id@]);
    if latest > 0 {
        push_text(&mut r, text("--latest"));
        push_text(&mut r, crate::text::decimal_string(latest));
    }
    assert(views(r@) =~= seq!["snapshots"@, "--tag"@, "clserver"@, "--tag"@, "server-id:"@ + server_id@]
        + if latest > 0 {
        seq!["--latest"@, decimal(latest as nat)]
    } else {
        seq![]
    });
    r
}

/// Arguments of the retention cleanup: keep 56 daily snapshots, and prune
/// unless this is a dry run.
pub fn cleanup_args(dry_run: bool) -> (r: Vec<String>)
    ensures
        views(r@) == seq![
            "forget"@,
            "--keep-daily"@,
            "56"@,
            if dry_run {
                "--dry-run"@
            } else {
                "--prune"@
            },
        ],
{
    let last = if dry_run {
        text("--dry-run")
    } else {
        text("--prune")
    };
    let r = vec![text("forget"), text("--keep-daily"), text("56"), last];
    assert(views(r@) =~= seq![
        "forget"@,
        "--keep-daily"@,
        "56"@,
        if dry_run {
            "--dry-run"@
        } else {
            "--prune"@
        },
    ]);
    r
}

} // verus!
