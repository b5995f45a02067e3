//! What a command line asks for.

use vstd::prelude::*;

verus! {

/// How a server is stopped.
#[derive(Debug, Clone, Copy, PartialEq, Eq, Structural)]
pub enum StopType {
    /// Stop at once.
    Immediate,
    /// Warn online players first.
    Friendly,
}

/// Which servers a backup command covers.
#[derive(Debug, Clone, Copy, PartialEq, Eq, Structural)]
pub enum BackupTarget {
    /// The named server.
    Server,
    /// Every server with `backup = true`.
    All,
}

/// A command-line action.
#[derive(Debug, Clone, Copy, PartialEq, Eq, Structural)]
pub enum Action {
    Start,
    Stop { stop_type: StopType },
    BackupLocal { target: BackupTarget },
    BackupRemote { target: BackupTarget },
    BackupCleanup { dry_run: bool },
    Restore { dry_run: bool },
    Restart,
    Maintenance,
    Attach,
    Status,
    List,
    ValidateConfig { fix: bool },
}

/// A parsed command line.
pub struct Request {
    pub action: Action,
    pub server: Option<String>,
    pub verbose: bool,
}

/// ASCII letters in lower case, other characters unchanged.
pub open spec fn ascii_lower(s: Seq<char>) -> Seq<char> {
    Seq::new(s.len(), |i: int| if 'A' <= s[i] && s[i] <= 'Z' { ((s[i] as u8) + 32) as char } else { s[i] })
}

/// The stop type that a command-line value names, ignoring ASCII case.
pub open spec fn stop_type_named(s: Seq<char>) -> Option<StopType> {
    if ascii_lower(s) == "immediate"@ {
        Some(StopType::Immediate)
    } else if ascii_lower(s) == "friendly"@ {
        Some(StopType::Friendly)
    } else {
        None
    }
}

/// The characters of `s` with ASCII letters in lower case.
pub fn lower_chars(s: &str) -> (r: Vec<char>)
    ensures
        r@ == ascii_lower(s@),
{
    let v = crate::text::chars_of(s);
    let mut r: Vec<char> = Vec::new();
    let mut i: usize = 0;
    while i < v.len()
        invariant
            i <= v.len(),
            v@ == s@,
            r@ == ascii_lower(s@).take(i as int),
        decreases v.len() - i,
    {
        let c = v[i];
        let l = if 'A' <= c && c <= 'Z' {
            ((c as u8) + 32) as char
        } else {
            c
        };
        r.push(l);
        i = i + 1;
        assert(r@ =~= ascii_lower(s@).take(i as int));
    }
    assert(ascii_lower(s@).take(v.len() as int) =~= ascii_lower(s@));
    r
}

impl StopType {
    /// Reads `immediate` or `friendly` in any ASCII case.
    pub fn from_name(s: &str) -> (r: Option<StopType>)
        ensures
            r == stop_type_named(s@),
    {
        let l = lower_chars(s);
        let immediate = crate::text::chars_of("immediate");
        let friendly = crate::text::chars_of("friendly");
        if crate::text::chars_eq(&l, &immediate) {
            Some(StopType::Immediate)
        } else if crate::text::chars_eq(&l, &friendly) {
            Some(StopType::Friendly)
        } else {
            None
        }
    }
}

/// Stop types are read without regard to ASCII case.
pub proof fn lemma_stop_type_case_insensitive(s: Seq<char>)
    ensures
        stop_type_named(s) == stop_type_named(ascii_lower(s)),
{
    assert(ascii_lower(ascii_lower(s)) =~= ascii_lower(s));
}

} // verus!
