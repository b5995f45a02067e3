//! Remote backups with kopia.

use crate::envfile::env_lookup;
use crate::remote_backup::RemoteSnapshotSummary;
use crate::remote_backup::restic::snapshot_id_like;
use crate::text::{
    chars_eq, chars_of, decimal, is_all_hex, join_with, lines, push_text, slice_chars, split_char,
    split_lines, split_on, split_words, string_of, trim_end, utf8, views, words,
};
use vstd::prelude::*;

verus! {

/// Runs kopia with the variables of an env file, or with the process environment.
pub struct KopiaRemoteBackupProvider {
    pub env_file: Option<String>,
}

impl KopiaRemoteBackupProvider {
    pub fn new(env_file: Option<String>) -> (p: Self)
        ensures
            p.env_file == env_file,
    {
        KopiaRemoteBackupProvider { env_file }
    }
}

/// The named parts of a path: the pieces between `/` that are not empty and not `.`.
pub open spec fn kept_parts(segs: Seq<Seq<char>>) -> Seq<Seq<char>>
    decreases segs.len(),
{
    if segs.len() == 0 {
        seq![]
    } else {
        kept_parts(segs.drop_last()) + if segs.last().len() > 0 && segs.last() != seq!['.'] {
            seq![segs.last()]
        } else {
            seq![]
        }
    }
}

pub open spec fn path_parts(p: Seq<char>) -> Seq<Seq<char>> {
    kept_parts(split_on(p, '/'))
}

/// The last component of a path when it is a name, as `Path::file_name` gives it.
pub open spec fn file_name(p: Seq<char>) -> Option<Seq<char>> {
    let ps = path_parts(p);
    if ps.len() == 0 || ps.last() == seq!['.', '.'] {
        None
    } else {
        Some(ps.last())
    }
}

/// The parts of a path that are neither the root, `.` nor `..`.
pub open spec fn normal_parts(segs: Seq<Seq<char>>) -> Seq<Seq<char>>
    decreases segs.len(),
{
    if segs.len() == 0 {
        seq![]
    } else {
        normal_parts(segs.drop_last()) + if segs.last().len() > 0 && segs.last() != seq!['.']
            && segs.last() != seq!['.', '.'] {
            seq![segs.last()]
        } else {
            seq![]
        }
    }
}

fn path_part_lists(p: &str) -> (r: (Vec<String>, Vec<String>))
    ensures
        views(r.0@) == kept_parts(split_on(p@, '/')),
        views(r.1@) == normal_parts(split_on(p@, '/')),
{
    let v = chars_of(p);
    let segs = split_char(&v, '/');
    let ghost sv = split_on(p@, '/');
    let mut kept: Vec<String> = Vec::new();
    let mut normal: Vec<String> = Vec::new();
    let dot = chars_of(".");
    let dotdot = chars_of("..");
    proof {
        reveal_strlit(".");
        reveal_strlit("..");
        assert(dot@ =~= seq!['.']);
        assert(dotdot@ =~= seq!['.', '.']);
        assert(views(kept@) =~= seq![]);
        assert(views(normal@) =~= seq![]);
    }
    let mut i: usize = 0;
    while i < segs.len()
        invariant
            i <= segs.len(),
            segs@.len() == sv.len(),
            sv == split_on(p@, '/'),
            dot@ == seq!['.'],
            dotdot@ == seq!['.', '.'],
            forall|k: int| 0 <= k < segs@.len() ==> (#[trigger] segs@[k])@ == sv[k],
            views(kept@) == kept_parts(sv.take(i as int)),
            views(normal@) == normal_parts(sv.take(i as int)),
        decreases segs.len() - i,
    {
        assert(sv.take(i + 1).drop_last() =~= sv.take(i as int));
        assert(sv.take(i + 1).last() == sv[i as int]);
        let seg = &segs[i];
        let is_dot = chars_eq(seg, &dot);
        let is_dotdot = chars_eq(seg, &dotdot);
        if seg.len() > 0 && !is_dot {
            push_text(&mut kept, string_of(seg));
            if !is_dotdot {
                push_text(&mut normal, string_of(seg));
            }
        }
        i = i + 1;
    }
    assert(sv.take(segs.len() as int) =~= sv);
    (kept, normal)
}

/// The snapshot path to restore: the `world` directory of the snapshot when
/// the restored path is a `world` directory, else the whole snapshot.
pub open spec fn snapshot_source_text(snapshot: Seq<char>, include_path: Seq<char>) -> Seq<char> {
    if file_name(include_path) == Some("world"@) {
        snapshot + "/world"@
    } else {
        snapshot
    }
}

pub fn kopia_snapshot_source(snapshot: &str, include_path: &str) -> (r: String)
    ensures
        r@ == snapshot_source_text(snapshot@, include_path@),
{
    let (kept, _normal) = path_part_lists(include_path);
    let is_world = if kept.len() > 0 {
        let last = &kept[kept.len() - 1];
        let last_chars = chars_of(last.as_str());
        let world = chars_of("world");
        let dotdot = chars_of("..");
        proof {
            reveal_strlit("..");
            assert(dotdot@ =~= seq!['.', '.']);
        }
        chars_eq(&last_chars, &world) && !chars_eq(&last_chars, &dotdot)
    } else {
        false
    };
    proof {
        reveal_strlit("world");
        reveal_strlit("..");
    }
    let mut r = String::from_str(snapshot);
    if is_world {
        r.append("/world");
    }
    r
}

/// A path with its root and its `.` and `..` parts dropped, as a relative path.
pub open spec fn without_root_text(p: Seq<char>) -> Seq<char> {
    join_with(normal_parts(split_on(p, '/')), "/"@)
}

pub fn path_without_root(path: &str) -> (r: String)
    ensures
        r@ == without_root_text(path@),
{
    let (_kept, normal) = path_part_lists(path);
    let mut r = String::new();
    crate::text::push_joined(&mut r, &normal, "/");
    assert(r@ =~= without_root_text(path@));
    r
}

/// A date and time such as `2026-06-10T03:04:05Z`: at least ten bytes with
/// `-` at bytes 4 and 7.
pub open spec fn date_time_prefix_like(w: Seq<char>) -> bool {
    utf8(w).len() >= 10 && utf8(w)[4] == 45u8 && utf8(w)[7] == 45u8
}

pub fn looks_like_date_time_prefix(value: &str) -> (b: bool)
    ensures
        b == date_time_prefix_like(value@),
{
    let bytes = value.as_bytes();
    bytes.len() >= 10 && bytes[4] == 45u8 && bytes[7] == 45u8
}

/// The first word from `i` on that looks like a snapshot ID.
pub open spec fn first_id_word(ws: Seq<Seq<char>>, i: int) -> Option<Seq<char>>
    decreases ws.len() - i,
{
    if i < 0 || i >= ws.len() {
        None
    } else if snapshot_id_like(ws[i]) {
        Some(ws[i])
    } else {
        first_id_word(ws, i + 1)
    }
}

/// The first word from `i` on that looks like a date and time.
pub open spec fn first_time_word(ws: Seq<Seq<char>>, i: int) -> Option<Seq<char>>
    decreases ws.len() - i,
{
    if i < 0 || i >= ws.len() {
        None
    } else if date_time_prefix_like(ws[i]) {
        Some(ws[i])
    } else {
        first_time_word(ws, i + 1)
    }
}

/// The snapshot that one line of `kopia snapshot list` shows: the first eight
/// digits of its ID, and its time when one is shown.
pub open spec fn kopia_line(line: Seq<char>) -> Option<(Seq<char>, Option<Seq<char>>)> {
    let ws = words(line);
    match first_id_word(ws, 0) {
        Some(id) => Some((id.take(8), first_time_word(ws, 0))),
        None => None,
    }
}

pub open spec fn kopia_summary_is(r: RemoteSnapshotSummary, s: (Seq<char>, Option<Seq<char>>)) -> bool {
    &&& (r.short_id matches Some(i) && i@ == s.0)
    &&& match (r.time, s.1) {
        (Some(t), Some(u)) => t@ == u,
        (None, None) => true,
        _ => false,
    }
}

pub fn parse_kopia_snapshot_summary_line(line: &str) -> (r: Option<RemoteSnapshotSummary>)
    ensures
        match (r, kopia_line(line@)) {
            (Some(s), Some(k)) => kopia_summary_is(s, k),
            (None, None) => true,
            _ => false,
        },
{
    let v = chars_of(line);
    let ws = split_words(&v);
    let ghost wv = words(line@);
    let mut id: Option<Vec<char>> = None;
    let mut i: usize = 0;
    while i < ws.len() && id.is_none()
        invariant
            i <= ws.len(),
            wv == words(line@),
            v@ == line@,
            ws@.len() == wv.len(),
            forall|k: int| 0 <= k < ws@.len() ==> (#[trigger] ws@[k])@ == wv[k],
            id is None ==> first_id_word(wv, 0) == first_id_word(wv, i as int),
            id matches Some(w) ==> first_id_word(wv, 0) == Some(w@) && w@.len() >= 8,
        decreases ws.len() - i + (if id is None { 1int } else { 0int }),
    {
        if ws[i].len() >= 8 && is_all_hex(&ws[i]) {
            id = Some(slice_chars(&ws[i], 0, ws[i].len()));
            assert(ws@[i as int]@.subrange(0, ws@[i as int]@.len() as int) =~= ws@[i as int]@);
        } else {
            i = i + 1;
        }
    }
    let id = match id {
        Some(w) => w,
        None => return None,
    };
    let short = slice_chars(&id, 0, 8);
    assert(short@ =~= id@.take(8));
    let mut time: Option<String> = None;
    let mut j: usize = 0;
    while j < ws.len() && time.is_none()
        invariant
            j <= ws.len(),
            wv == words(line@),
            ws@.len() == wv.len(),
            forall|k: int| 0 <= k < ws@.len() ==> (#[trigger] ws@[k])@ == wv[k],
            time is None ==> first_time_word(wv, 0) == first_time_word(wv, j as int),
            time matches Some(t) ==> first_time_word(wv, 0) == Some(t@),
        decreases ws.len() - j + (if time is None { 1int } else { 0int }),
    {
        let w = string_of(&ws[j]);
        if looks_like_date_time_prefix(w.as_str()) {
            time = Some(w);
        } else {
            j = j + 1;
        }
    }
    Some(RemoteSnapshotSummary { short_id: Some(string_of(&short)), time })
}

/// The last line among lines `0..n` that shows a snapshot.
pub open spec fn last_kopia_snapshot(ls: Seq<Seq<char>>, n: int) -> Option<(Seq<char>, Option<Seq<char>>)>
    decreases n,
{
    if n <= 0 || n > ls.len() {
        None
    } else {
        match kopia_line(ls[n - 1]) {
            Some(s) => Some(s),
            None => last_kopia_snapshot(ls, n - 1),
        }
    }
}

/// The last snapshot line is the one found: among lines `0..n`, a snapshot
/// is found exactly when some line shows one, and then it is the one shown
/// by a line after which no line shows a snapshot.
pub proof fn lemma_last_kopia_snapshot(ls: Seq<Seq<char>>, n: int)
    requires
        0 <= n <= ls.len(),
    ensures
        (last_kopia_snapshot(ls, n) is None) == (forall|j: int| 0 <= j < n ==> kopia_line(#[trigger] ls[j]) is None),
        last_kopia_snapshot(ls, n) matches Some(x) ==> exists|k: int|
            0 <= k < n && kopia_line(#[trigger] ls[k]) == Some(x) && forall|j: int|
                k < j < n ==> kopia_line(#[trigger] ls[j]) is None,
    decreases n,
{
    if n > 0 {
        lemma_last_kopia_snapshot(ls, n - 1);
        if kopia_line(ls[n - 1]) is None {
            if last_kopia_snapshot(ls, n) is Some {
                let x = last_kopia_snapshot(ls, n)->0;
                let k = choose|k: int|
                    0 <= k < n - 1 && kopia_line(#[trigger] ls[k]) == Some(x) && forall|j: int|
                        k < j < n - 1 ==> kopia_line(#[trigger] ls[j]) is None;
                assert(forall|j: int| k < j < n ==> kopia_line(#[trigger] ls[j]) is None);
            }
        } else {
            let k = n - 1;
            assert(kopia_line(ls[k]) == last_kopia_snapshot(ls, n));
        }
    }
}

/// The newest snapshot of `kopia snapshot list`, which lists the newest last:
/// the snapshot of the last line that shows one, `None` when no line does.
pub fn parse_latest_kopia_snapshot_summary(output: &str) -> (r: Option<RemoteSnapshotSummary>)
    ensures
        match (r, last_kopia_snapshot(lines(output@), lines(output@).len() as int)) {
            (Some(s), Some(k)) => kopia_summary_is(s, k),
            (None, None) => true,
            _ => false,
        },
        (r is None) == (forall|j: int|
            0 <= j < lines(output@).len() ==> kopia_line(#[trigger] lines(output@)[j]) is None),
        r matches Some(s) ==> exists|k: int|
            0 <= k < lines(output@).len() && (kopia_line(#[trigger] lines(output@)[k]) matches Some(x)
                && kopia_summary_is(s, x)) && forall|j: int|
                k < j < lines(output@).len() ==> kopia_line(#[trigger] lines(output@)[j]) is None,
{
    let r = find_last_kopia_snapshot(output);
    proof {
        lemma_last_kopia_snapshot(lines(output@), lines(output@).len() as int);
    }
    r
}

fn find_last_kopia_snapshot(output: &str) -> (r: Option<RemoteSnapshotSummary>)
    ensures
        match (r, last_kopia_snapshot(lines(output@), lines(output@).len() as int)) {
            (Some(s), Some(k)) => kopia_summary_is(s, k),
            (None, None) => true,
            _ => false,
        },
{
    let ls = split_lines(output);
    let ghost lv = lines(output@);
    let mut n = ls.len();
    while n > 0
        invariant
            n <= ls.len(),
            lv == lines(output@),
            ls@.len() == lv.len(),
            forall|k: int| 0 <= k < ls@.len() ==> (#[trigger] ls@[k])@ == lv[k],
            last_kopia_snapshot(lv, lv.len() as int) == last_kopia_snapshot(lv, n as int),
        decreases n,
    {
        let line = string_of(&ls[n - 1]);
        let found = parse_kopia_snapshot_summary_line(line.as_str());
        if found.is_some() {
            return found;
        }
        n = n - 1;
    }
    None
}

/// The password file that kopia's password comes from: `KOPIA_PASSWORD_FILE`,
/// unless `KOPIA_PASSWORD` is set itself.
pub open spec fn password_file_to_read(entries: Seq<(String, String)>) -> Option<Seq<char>> {
    if env_lookup(entries, "KOPIA_PASSWORD"@) is Some {
        None
    } else {
        env_lookup(entries, "KOPIA_PASSWORD_FILE"@)
    }
}

pub fn kopia_password_file(entries: &Vec<(String, String)>) -> (r: Option<String>)
    ensures
        match (r, password_file_to_read(entries@)) {
            (Some(f), Some(g)) => f@ == g,
            (None, None) => true,
            _ => false,
        },
{
    if crate::envfile::env_value(entries, "KOPIA_PASSWORD").is_some() {
        return None;
    }
    crate::envfile::env_value(entries, "KOPIA_PASSWORD_FILE")
}

/// Adds `KOPIA_PASSWORD` with the password file's text, without trailing whitespace.
pub fn add_kopia_password(entries: &mut Vec<(String, String)>, password_file_text: &str)
    ensures
        final(entries)@.len() == old(entries)@.len() + 1,
        final(entries)@.take(old(entries)@.len() as int) == old(entries)@,
        final(entries)@.last().0@ == "KOPIA_PASSWORD"@,
        final(entries)@.last().1@ == trim_end(password_file_text@),
{
    let v = chars_of(password_file_text);
    let end = crate::text::skip_whitespace_back(&v, 0, v.len());
    assert(v@.subrange(0, v.len() as int) =~= v@);
    let kept = slice_chars(&v, 0, end);
    entries.push((String::from_str("KOPIA_PASSWORD"), string_of(&kept)));
    assert(final(entries)@.take(old(entries)@.len() as int) =~= old(entries)@);
}

/// The snapshot to restore: the newest one when `latest` is asked for.
pub fn kopia_restore_snapshot(requested: &str, latest: Option<&RemoteSnapshotSummary>) -> (r: Option<String>)
    ensures
        requested@ != "latest"@ ==> (r matches Some(s) && s@ == requested@),
        requested@ == "latest"@ ==> match latest {
            Some(l) => match l.short_id {
                Some(i) => r matches Some(s) && s@ == i@,
                None => r is None,
            },
            None => r is None,
        },
{
    if crate::text::str_eq(requested, "latest") {
        match latest {
            Some(l) => crate::config::clone_opt_string(&l.short_id),
            None => None,
        }
    } else {
        Some(String::from_str(requested))
    }
}

fn text(s: &str) -> (r: String)
    ensures
        r@ == s@,
{
    String::from_str(s)
}

fn tagged(prefix: &str, value: &str) -> (r: String)
    ensures
        r@ == prefix@ + value@,
{
    let mut r = String::from_str(prefix);
    r.append(value);
    r
}

/// Arguments of `kopia snapshot create` for a server, tagged with its ID and name.
pub fn backup_args(server_dir: &str, server_id: &str, server_name: &str) -> (r: Vec<String>)
    ensures
        views(r@) == seq![
            "snapshot"@,
            "create"@,
            server_dir@,
            "--tags"@,
            "clserver:true"@,
            "--tags"@,
            "server-id:"@ + server_id@,
            "--tags"@,
            "server-name:"@ + server_name@,
        ],
{
    let r = vec![
        text("snapshot"),
        text("create"),
        text(server_dir),
        text("--tags"),
        text("clserver:true"),
        text("--tags"),
        tagged("server-id:", server_id),
        text("--tags"),
        tagged("server-name:", server_name),
    ];
    assert(views(r@) =~= seq![
        "snapshot"@,
        "create"@,
        server_dir@,
        "--tags"@,
        "clserver:true"@,
        "--tags"@,
        "server-id:"@ + server_id@,
        "--tags"@,
        "server-name:"@ + server_name@,
    ]);
    r
}

/// Arguments of `kopia snapshot list` for a server's snapshots, at most
/// `latest` of them when `latest` is not zero.
pub fn list_snapshots_args(server_id: &str, latest: u64) -> (r: Vec<String>)
    ensures
        views(r@) == seq!["snapshot"@, "list"@, "--tags"@, "server-id:"@ + server_id@] + if latest > 0 {
            seq!["--max-results"@, decimal(latest as nat)]
        } else {
            seq![]
        },
{
    let mut r = vec![text("snapshot"), text("list"), text("--tags"), tagged("server-id:", server_id)];
    assert(views(r@) =~= seq!["snapshot"@, "list"@, "--tags"@, "server-id:"@ + server_id@]);
    if latest > 0 {
        push_text(&mut r, text("--max-results"));
        push_text(&mut r, crate::text::decimal_string(latest));
    }
    assert(views(r@) =~= seq!["snapshot"@, "list"@, "--tags"@, "server-id:"@ + server_id@] + if latest
        > 0 {
        seq!["--max-results"@, decimal(latest as nat)]
    } else {
        seq![]
    });
    r
}

/// Arguments of the repository maintenance; a full dry run when asked.
pub fn cleanup_args(dry_run: bool) -> (r: Vec<String>)
    ensures
        views(r@) == seq!["maintenance"@, "run"@] + if dry_run {
            seq!["--full"@, "--dry-run"@]
        } else {
            seq![]
        },
{
    let mut r = vec![text("maintenance"), text("run")];
    assert(views(r@) =~= seq!["maintenance"@, "run"@]);
    if dry_run {
        push_text(&mut r, text("--full"));
        push_text(&mut r, text("--dry-run"));
    }
    assert(views(r@) =~= seq!["maintenance"@, "run"@] + if dry_run {
        seq!["--full"@, "--dry-run"@]
    } else {
        seq![]
    });
    r
}

} // verus!
