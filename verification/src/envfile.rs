//! Shell-style `KEY=value` environment files, as the backup tools and the
//! notification settings read them.

use crate::text::{
    chars_of, decimal, find_char, has_prefix_at, index_of, lines, push_decimal, skip_whitespace,
    slice_chars, split_lines, string_of, trim, trim_chars, trim_start,
};
use vstd::prelude::*;

verus! {

pub open spec fn is_ascii_alpha(c: char) -> bool {
    ('a' <= c && c <= 'z') || ('A' <= c && c <= 'Z')
}

pub open spec fn is_ascii_digit(c: char) -> bool {
    '0' <= c && c <= '9'
}

/// A variable name: a letter or `_`, then letters, digits or `_`.
pub open spec fn valid_env_key(k: Seq<char>) -> bool {
    &&& k.len() > 0
    &&& (k[0] == '_' || is_ascii_alpha(k[0]))
    &&& forall|i: int|
        1 <= i < k.len() ==> (#[trigger] k[i] == '_' || is_ascii_alpha(k[i]) || is_ascii_digit(k[i]))
}

pub fn is_valid_env_key(key: &str) -> (b: bool)
    ensures
        b == valid_env_key(key@),
{
    let v = chars_of(key);
    if v.len() == 0 {
        return false;
    }
    let first = v[0];
    if !(first == '_' || ('a' <= first && first <= 'z') || ('A' <= first && first <= 'Z')) {
        return false;
    }
    let mut i: usize = 1;
    while i < v.len()
        invariant
            1 <= i <= v.len(),
            v@ == key@,
            forall|k: int|
                1 <= k < i ==> (#[trigger] v@[k] == '_' || is_ascii_alpha(v@[k]) || is_ascii_digit(
                    v@[k],
                )),
        decreases v.len() - i,
    {
        let c = v[i];
        if !(c == '_' || ('a' <= c && c <= 'z') || ('A' <= c && c <= 'Z') || ('0' <= c && c
            <= '9')) {
            return false;
        }
        i = i + 1;
    }
    true
}

/// Where an unquoted `#` starts a comment in `s`, scanning from `i` with the
/// given quoting state; the length of `s` when no comment starts.
pub open spec fn comment_start(s: Seq<char>, i: int, in_single: bool, in_double: bool) -> int
    decreases s.len() - i,
{
    if i >= s.len() || i < 0 {
        s.len() as int
    } else if s[i] == '\'' && !in_double {
        comment_start(s, i + 1, !in_single, in_double)
    } else if s[i] == '"' && !in_single {
        comment_start(s, i + 1, in_single, !in_double)
    } else if s[i] == '#' && !in_single && !in_double {
        i
    } else {
        comment_start(s, i + 1, in_single, in_double)
    }
}

/// `s` up to the first `#` outside single and double quotes.
pub open spec fn without_comment(s: Seq<char>) -> Seq<char> {
    s.subrange(0, comment_start(s, 0, false, false))
}

pub proof fn lemma_comment_start_bounds(s: Seq<char>, i: int, sq: bool, dq: bool)
    requires
        0 <= i,
    ensures
        i <= comment_start(s, i, sq, dq) <= s.len() || (i > s.len() && comment_start(s, i, sq, dq)
            == s.len()),
    decreases s.len() - i,
{
    if i < s.len() {
        if s[i] == '\'' && !dq {
            lemma_comment_start_bounds(s, i + 1, !sq, dq);
        } else if s[i] == '"' && !sq {
            lemma_comment_start_bounds(s, i + 1, sq, !dq);
        } else if s[i] == '#' && !sq && !dq {
        } else {
            lemma_comment_start_bounds(s, i + 1, sq, dq);
        }
    }
}

/// The part of `value` before an inline comment.
pub fn strip_inline_comment(value: &Vec<char>) -> (r: Vec<char>)
    ensures
        r@ == without_comment(value@),
{
    let mut in_single = false;
    let mut in_double = false;
    let mut i: usize = 0;
    while i < value.len()
        invariant
            i <= value.len(),
            comment_start(value@, 0, false, false) == comment_start(
                value@,
                i as int,
                in_single,
                in_double,
            ),
        decreases value.len() - i,
    {
        let c = value[i];
        if c == '\'' && !in_double {
            in_single = !in_single;
        } else if c == '"' && !in_single {
            in_double = !in_double;
        } else if c == '#' && !in_single && !in_double {
            return slice_chars(value, 0, i);
        }
        i = i + 1;
    }
    slice_chars(value, 0, value.len())
}

/// `v` without one pair of matching surrounding single or double quotes.
pub open spec fn unquote(v: Seq<char>) -> Seq<char> {
    if v.len() >= 2 && ((v[0] == '\'' && v.last() == '\'') || (v[0] == '"' && v.last() == '"')) {
        v.subrange(1, v.len() - 1)
    } else {
        v
    }
}

/// The value that an env file line assigns, given the text after `=`.
pub open spec fn env_value_of(raw: Seq<char>) -> Seq<char> {
    unquote(trim(without_comment(raw)))
}

/// The value of an assignment: without an inline comment, trimmed, and
/// without one pair of surrounding quotes.
pub fn parse_env_value(value: &str) -> (r: String)
    ensures
        r@ == env_value_of(value@),
{
    let v = chars_of(value);
    let stripped = strip_inline_comment(&v);
    let t = trim_chars(&stripped);
    let n = t.len();
    if n >= 2 && ((t[0] == '\'' && t[n - 1] == '\'') || (t[0] == '"' && t[n - 1] == '"')) {
        let inner = slice_chars(&t, 1, n - 1);
        string_of(&inner)
    } else {
        string_of(&t)
    }
}

/// The characters of `export `.
pub open spec fn export_prefix() -> Seq<char> {
    seq!['e', 'x', 'p', 'o', 'r', 't', ' ']
}

/// `t` without a leading `export `.
pub open spec fn without_export(t: Seq<char>) -> Seq<char> {
    if t.len() >= 7 && t.subrange(0, 7) == export_prefix() {
        t.subrange(7, t.len() as int)
    } else {
        t
    }
}

/// What one line of an env file says.
pub enum LineMeaning {
    /// An empty line or a comment.
    Nothing,
    /// A line without `=`.
    MissingEquals,
    /// An assignment to a name that is not a valid variable name.
    BadKey(Seq<char>),
    /// An assignment of a value to a variable.
    Assignment(Seq<char>, Seq<char>),
}

/// The meaning of one env file line.
pub open spec fn line_meaning(line: Seq<char>) -> LineMeaning {
    let t = trim(line);
    if t.len() == 0 || t[0] == '#' {
        LineMeaning::Nothing
    } else {
        let u = trim_start(without_export(t));
        let k = index_of(u, '=');
        if k >= u.len() {
            LineMeaning::MissingEquals
        } else {
            let key = trim(u.subrange(0, k));
            if !valid_env_key(key) {
                LineMeaning::BadKey(key)
            } else {
                LineMeaning::Assignment(key, env_value_of(trim(u.subrange(k + 1, u.len() as int))))
            }
        }
    }
}

/// Why an env file could not be read.
#[derive(Debug, PartialEq, Eq)]
pub enum EnvError {
    /// A line has no `=`.
    MissingEquals { line_number: usize, path: String },
    /// A line assigns to a name that is not a valid variable name.
    InvalidName { key: String, line_number: usize, path: String },
}

/// The text of an env file error.
pub open spec fn env_error_text(e: EnvError) -> Seq<char> {
    match e {
        EnvError::MissingEquals { line_number, path } => "Invalid env file line "@ + decimal(
            line_number as nat,
        ) + " in '"@ + path@ + "': expected KEY=value"@,
        EnvError::InvalidName { key, line_number, path } => "Invalid env variable name '"@ + key@
            + "' on line "@ + decimal(line_number as nat) + " in '"@ + path@ + "'"@,
    }
}

impl EnvError {
    pub fn message(&self) -> (m: String)
        ensures
            m@ == env_error_text(*self),
    {
        match self {
            EnvError::MissingEquals { line_number, path } => {
                let mut m = String::from_str("Invalid env file line ");
                push_decimal(&mut m, *line_number as u64);
                m.append(" in '");
                m.append(path.as_str());
                m.append("': expected KEY=value");
                m
            },
            EnvError::InvalidName { key, line_number, path } => {
                let mut m = String::from_str("Invalid env variable name '");
                m.append(key.as_str());
                m.append("' on line ");
                push_decimal(&mut m, *line_number as u64);
                m.append(" in '");
                m.append(path.as_str());
                m.append("'");
                m
            },
        }
    }
}

/// Whether an error reports the given meaning of line `line_number` of `path`.
pub open spec fn error_matches(e: EnvError, meaning: LineMeaning, path: Seq<char>, line_number: usize) -> bool {
    match meaning {
        LineMeaning::MissingEquals => e matches EnvError::MissingEquals { line_number: n, path: p }
            && n == line_number && p@ == path,
        LineMeaning::BadKey(key) => e matches EnvError::InvalidName { key: k, line_number: n, path: p }
            && k@ == key && n == line_number && p@ == path,
        _ => false,
    }
}

/// Whether the result of reading one line matches its meaning.
pub open spec fn line_result_matches(
    r: Result<Option<(String, String)>, EnvError>,
    meaning: LineMeaning,
    path: Seq<char>,
    line_number: usize,
) -> bool {
    match meaning {
        LineMeaning::Nothing => r == Ok::<Option<(String, String)>, EnvError>(None),
        LineMeaning::MissingEquals => r matches Err(e) && error_matches(e, meaning, path, line_number),
        LineMeaning::BadKey(_) => r matches Err(e) && error_matches(e, meaning, path, line_number),
        LineMeaning::Assignment(key, value) => r matches Ok(Some((k, v))) && k@ == key && v@ == value,
    }
}

/// Reads line `line_number` of the env file at `path`.
pub fn parse_env_line(path: &str, line_number: usize, line: &str) -> (r: Result<
    Option<(String, String)>,
    EnvError,
>)
    ensures
        line_result_matches(r, line_meaning(line@), path@, line_number),
{
    let v = chars_of(line);
    let t = trim_chars(&v);
    if t.len() == 0 || t[0] == '#' {
        return Ok(None);
    }
    let export = chars_of("export ");
    proof {
        reveal_strlit("export ");
        assert(export@ =~= export_prefix());
    }
    let after_export = if has_prefix_at(&t, 0, &export) {
        slice_chars(&t, 7, t.len())
    } else {
        slice_chars(&t, 0, t.len())
    };
    assert(after_export@ == without_export(t@)) by {
        assert(t@.subrange(0, t@.len() as int) =~= t@);
    }
    let start = skip_whitespace(&after_export, 0);
    let u = slice_chars(&after_export, start, after_export.len());
    assert(u@ == trim_start(after_export@)) by {
        assert(after_export@.subrange(0, after_export@.len() as int) =~= after_export@);
    }
    let k = find_char(&u, 0, '=');
    assert(u@.subrange(0, u@.len() as int) =~= u@);
    if k >= u.len() {
        return Err(EnvError::MissingEquals { line_number, path: String::from_str(path) });
    }
    let raw_key = slice_chars(&u, 0, k);
    let key = trim_chars(&raw_key);
    let key_string = string_of(&key);
    if !is_valid_env_key(key_string.as_str()) {
        return Err(EnvError::InvalidName { key: key_string, line_number, path: String::from_str(path) });
    }
    let raw_value = slice_chars(&u, k + 1, u.len());
    let raw_value_trimmed = trim_chars(&raw_value);
    let raw_value_string = string_of(&raw_value_trimmed);
    let value = parse_env_value(raw_value_string.as_str());
    Ok(Some((key_string, value)))
}


/// The value that the last entry for `key` holds, as a later assignment in an
/// env file overrides an earlier one.
pub open spec fn env_lookup(entries: Seq<(String, String)>, key: Seq<char>) -> Option<Seq<char>>
    decreases entries.len(),
{
    if entries.len() == 0 {
        None
    } else if entries.last().0@ == key {
        Some(entries.last().1@)
    } else {
        env_lookup(entries.drop_last(), key)
    }
}

/// A key's value is that of its last entry: there is one exactly when some
/// entry has the key, and then it is the value of an entry with the key
/// after which no entry has it.
pub proof fn lemma_env_lookup(entries: Seq<(String, String)>, key: Seq<char>)
    ensures
        (env_lookup(entries, key) is None) == (forall|j: int| 0 <= j < entries.len() ==> (#[trigger] entries[j]).0@ != key),
        env_lookup(entries, key) matches Some(v) ==> exists|k: int|
            0 <= k < entries.len() && (#[trigger] entries[k]).0@ == key && entries[k].1@ == v && forall|j: int|
                k < j < entries.len() ==> (#[trigger] entries[j]).0@ != key,
    decreases entries.len(),
{
    if entries.len() > 0 {
        let rest = entries.drop_last();
        lemma_env_lookup(rest, key);
        assert forall|j: int| 0 <= j < rest.len() implies #[trigger] rest[j] == entries[j] by {}
        if entries.last().0@ == key {
            assert(entries[entries.len() - 1] == entries.last());
        } else if env_lookup(entries, key) is Some {
            let v = env_lookup(entries, key)->0;
            let k = choose|k: int|
                0 <= k < rest.len() && (#[trigger] rest[k]).0@ == key && rest[k].1@ == v && forall|j: int|
                    k < j < rest.len() ==> (#[trigger] rest[j]).0@ != key;
            assert(entries[k] == rest[k]);
            assert forall|j: int| k < j < entries.len() implies (#[trigger] entries[j]).0@ != key by {
                if j < rest.len() {
                    assert(rest[j] == entries[j]);
                }
            }
        } else {
            assert forall|j: int| 0 <= j < entries.len() implies (#[trigger] entries[j]).0@ != key by {
                if j < rest.len() {
                    assert(rest[j] == entries[j]);
                }
            }
        }
    }
}

/// The value of the last entry named `key`.
pub fn env_value(entries: &Vec<(String, String)>, key: &str) -> (r: Option<String>)
    ensures
        match (r, env_lookup(entries@, key@)) {
            (Some(v), Some(w)) => v@ == w,
            (None, None) => true,
            _ => false,
        },
        (r is None) == (forall|j: int| 0 <= j < entries@.len() ==> (#[trigger] entries@[j]).0@ != key@),
        r matches Some(v) ==> exists|k: int|
            0 <= k < entries@.len() && (#[trigger] entries@[k]).0@ == key@ && entries@[k].1@ == v@ && forall|j: int|
                k < j < entries@.len() ==> (#[trigger] entries@[j]).0@ != key@,
{
    let r = find_env_value(entries, key);
    proof {
        lemma_env_lookup(entries@, key@);
    }
    r
}

fn find_env_value(entries: &Vec<(String, String)>, key: &str) -> (r: Option<String>)
    ensures
        match (r, env_lookup(entries@, key@)) {
            (Some(v), Some(w)) => v@ == w,
            (None, None) => true,
            _ => false,
        },
{
    let mut i = entries.len();
    assert(entries@.take(entries.len() as int) =~= entries@);
    while i > 0
        invariant
            i <= entries.len(),
            env_lookup(entries@, key@) == env_lookup(entries@.take(i as int), key@),
        decreases i,
    {
        assert(entries@.take(i as int).drop_last() =~= entries@.take(i - 1));
        if crate::text::str_eq(entries[i - 1].0.as_str(), key) {
            return Some(entries[i - 1].1.clone());
        }
        i = i - 1;
    }
    assert(entries@.take(entries.len() as int) =~= entries@);
    None
}

/// The outcome of reading a whole env file.
pub enum EnvText {
    /// The assignments of the file, in order.
    Entries(Seq<(Seq<char>, Seq<char>)>),
    /// Reading stopped at the line with this index, which means this.
    Failed(int, LineMeaning),
}

/// The meaning of lines `i..` of an env file.
pub open spec fn env_lines_from(ls: Seq<Seq<char>>, i: int) -> EnvText
    decreases ls.len() - i,
{
    if i >= ls.len() || i < 0 {
        EnvText::Entries(seq![])
    } else {
        match line_meaning(ls[i]) {
            LineMeaning::Nothing => env_lines_from(ls, i + 1),
            LineMeaning::Assignment(k, v) => match env_lines_from(ls, i + 1) {
                EnvText::Entries(rest) => EnvText::Entries(seq![(k, v)] + rest),
                failed => failed,
            },
            other => EnvText::Failed(i, other),
        }
    }
}

/// The meaning of an env file's text.
pub open spec fn env_text_meaning(text: Seq<char>) -> EnvText {
    env_lines_from(lines(text), 0)
}

/// Whether the result of reading a whole env file matches its meaning.
pub open spec fn env_text_result_matches(
    r: Result<Vec<(String, String)>, EnvError>,
    meaning: EnvText,
    path: Seq<char>,
) -> bool {
    match meaning {
        EnvText::Entries(es) => r matches Ok(v) && v@.len() == es.len() && forall|i: int|
            0 <= i < es.len() ==> (#[trigger] v@[i]).0@ == es[i].0 && v@[i].1@ == es[i].1,
        EnvText::Failed(i, m) => r matches Err(e) && error_matches(e, m, path, (i + 1) as usize),
    }
}

pub open spec fn prepend_entries(done: Seq<(Seq<char>, Seq<char>)>, t: EnvText) -> EnvText {
    match t {
        EnvText::Entries(rest) => EnvText::Entries(done + rest),
        failed => failed,
    }
}

/// Reads the text of the env file at `path`: its assignments in order, or the
/// first line that cannot be read.
pub fn parse_env_text(path: &str, text: &str) -> (r: Result<Vec<(String, String)>, EnvError>)
    ensures
        env_text_result_matches(r, env_text_meaning(text@), path@),
{
    let ls = split_lines(text);
    let ghost lv = lines(text@);
    let mut out: Vec<(String, String)> = Vec::new();
    let ghost done: Seq<(Seq<char>, Seq<char>)> = seq![];
    let mut i: usize = 0;
    while i < ls.len()
        invariant
            i <= ls.len(),
            ls@.len() == lv.len(),
            lv == lines(text@),
            forall|k: int| 0 <= k < ls@.len() ==> (#[trigger] ls@[k])@ == lv[k],
            out@.len() == done.len(),
            forall|k: int|
                0 <= k < done.len() ==> (#[trigger] out@[k]).0@ == done[k].0 && out@[k].1@
                    == done[k].1,
            prepend_entries(done, env_lines_from(lv, i as int)) == env_lines_from(lv, 0),
        decreases ls.len() - i,
    {
        let line = string_of(&ls[i]);
        let parsed = parse_env_line(path, i + 1, line.as_str());
        match parsed {
            Ok(None) => {
                assert(env_lines_from(lv, i as int) == env_lines_from(lv, i + 1));
            },
            Ok(Some(entry)) => {
                proof {
                    let m = line_meaning(lv[i as int]);
                    let k = m->Assignment_0;
                    let v = m->Assignment_1;
                    assert(prepend_entries(done.push((k, v)), env_lines_from(lv, i + 1))
                        == prepend_entries(done, env_lines_from(lv, i as int))) by {
                        match env_lines_from(lv, i + 1) {
                            EnvText::Entries(rest) => {
                                assert(done.push((k, v)) + rest =~= done + (seq![(k, v)] + rest));
                            },
                            _ => {},
                        }
                    }
                    done = done.push((k, v));
                }
                out.push(entry);
            },
            Err(e) => {
                proof {
                    assert(line@ == lv[i as int]);
                    let m = line_meaning(lv[i as int]);
                    assert(error_matches(e, m, path@, (i + 1) as usize));
                    assert(env_lines_from(lv, i as int) == EnvText::Failed(i as int, m));
                    assert(env_lines_from(lv, 0) == EnvText::Failed(i as int, m));
                    assert(env_text_meaning(text@) == EnvText::Failed(i as int, m));
                }
                let r: Result<Vec<(String, String)>, EnvError> = Err(e);
                assert(env_text_result_matches(r, env_text_meaning(text@), path@));
                return r;
            },
        }
        i = i + 1;
    }
    proof {
        assert(done + seq![] =~= done);
    }
    Ok(out)
}


/// The line `KEY='value'`.
pub open spec fn quoted_assignment(key: Seq<char>, value: Seq<char>) -> Seq<char> {
    key + seq!['=', '\''] + value + seq!['\'']
}

/// Inside single quotes no `#` starts a comment, up to the closing quote.
proof fn lemma_no_comment_inside_single_quotes(s: Seq<char>, i: int)
    requires
        s.len() >= 2,
        s.last() == '\'',
        forall|j: int| 1 <= j < s.len() - 1 ==> s[j] != '\'',
        1 <= i <= s.len() - 1,
    ensures
        comment_start(s, i, true, false) == s.len(),
    decreases s.len() - i,
{
    if i < s.len() - 1 {
        lemma_no_comment_inside_single_quotes(s, i + 1);
    } else {
        assert(comment_start(s, s.len() as int, false, false) == s.len());
    }
}

/// A value written in single quotes reads back as written, `#`, `"` and
/// spaces included: the line `KEY='value'` assigns `value` to `KEY`.
pub proof fn lemma_quoted_assignment_reads_back(key: Seq<char>, value: Seq<char>)
    requires
        valid_env_key(key),
        !value.contains('\''),
    ensures
        line_meaning(quoted_assignment(key, value)) == LineMeaning::Assignment(key, value),
{
    let line = quoted_assignment(key, value);
    let n = key.len() as int;
    assert(line[0] == key[0]);
    assert(line.last() == '\'');
    assert(trim_start(line) == line);
    assert(crate::text::trim_end(line) == line);
    let t = trim(line);
    assert(t == line);
    assert(without_export(t) == t) by {
        if t.len() >= 7 && t.subrange(0, 7) == export_prefix() {
            if n <= 6 {
                assert(t[n] == '=');
                assert(t.subrange(0, 7)[n] == export_prefix()[n]);
            } else {
                assert(t[6] == key[6]);
                assert(t.subrange(0, 7)[6] == ' ');
            }
        }
    }
    let u = trim_start(without_export(t));
    assert(u == line);
    assert forall|j: int| 0 <= j < n implies u[j] != '=' by {
        assert(u[j] == key[j]);
    }
    assert(u[n] == '=');
    crate::text::lemma_index_of_unique(u, '=', n);
    assert(u.subrange(0, n) =~= key);
    assert(trim_start(key) == key);
    assert(crate::text::trim_end(key) == key);
    let q = u.subrange(n + 1, u.len() as int);
    assert(q =~= seq!['\''] + value + seq!['\'']);
    assert(q[0] == '\'');
    assert(q.last() == '\'');
    assert(trim_start(q) == q);
    assert(crate::text::trim_end(q) == q);
    assert forall|j: int| 1 <= j < q.len() - 1 implies q[j] != '\'' by {
        assert(q[j] == value[j - 1]);
        if q[j] == '\'' {
            assert(value.contains('\''));
        }
    }
    lemma_no_comment_inside_single_quotes(q, 1);
    assert(comment_start(q, 0, false, false) == q.len());
    assert(without_comment(q) =~= q);
    assert(q.subrange(1, q.len() - 1) =~= value);
}

} // verus!
