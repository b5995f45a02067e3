//! Character-level text helpers with their mathematical meaning.

use vstd::multiset::Multiset;
use vstd::prelude::*;

verus! {

/// Appending one character to a `String` adds it at the end of its characters.
pub assume_specification[ String::push ](s: &mut String, ch: char)
    ensures
        final(s)@ == old(s)@.push(ch),
;

/// The Unicode `White_Space` property, which `char::is_whitespace` decides.
pub open spec fn is_ws(c: char) -> bool {
    ||| ('\u{9}' <= c && c <= '\u{d}')
    ||| c == ' '
    ||| c == '\u{85}'
    ||| c == '\u{a0}'
    ||| c == '\u{1680}'
    ||| ('\u{2000}' <= c && c <= '\u{200a}')
    ||| c == '\u{2028}'
    ||| c == '\u{2029}'
    ||| c == '\u{202f}'
    ||| c == '\u{205f}'
    ||| c == '\u{3000}'
}

pub fn is_whitespace(c: char) -> (b: bool)
    ensures
        b == is_ws(c),
{
    ('\u{9}' <= c && c <= '\u{d}') || c == ' ' || c == '\u{85}' || c == '\u{a0}' || c == '\u{1680}'
        || ('\u{2000}' <= c && c <= '\u{200a}') || c == '\u{2028}' || c == '\u{2029}' || c
        == '\u{202f}' || c == '\u{205f}' || c == '\u{3000}'
}

/// The characters of `s`.
pub fn chars_of(s: &str) -> (v: Vec<char>)
    ensures
        v@ == s@,
{
    let mut v: Vec<char> = Vec::new();
    for c in it: s.chars()
        invariant
            v@ == it.seq().take(it.index() as int),
            it.seq() == s@,
    {
        v.push(c);
    }
    v
}


/// A `String` holding exactly the given characters.
pub fn string_of(v: &Vec<char>) -> (s: String)
    ensures
        s@ == v@,
{
    let mut s = String::new();
    let mut i: usize = 0;
    while i < v.len()
        invariant
            i <= v.len(),
            s@ == v@.take(i as int),
        decreases v.len() - i,
    {
        s.push(v[i]);
        i = i + 1;
        assert(v@.take(i as int) =~= v@.take(i - 1).push(v@[i - 1]));
    }
    assert(v@.take(v.len() as int) =~= v@);
    s
}

/// The characters `v[from..to]`.
pub fn slice_chars(v: &Vec<char>, from: usize, to: usize) -> (r: Vec<char>)
    requires
        from <= to <= v.len(),
    ensures
        r@ == v@.subrange(from as int, to as int),
{
    let mut r: Vec<char> = Vec::new();
    let mut i: usize = from;
    while i < to
        invariant
            from <= i <= to,
            to <= v.len(),
            r@ == v@.subrange(from as int, i as int),
        decreases to - i,
    {
        r.push(v[i]);
        i = i + 1;
        assert(r@ =~= v@.subrange(from as int, i as int));
    }
    r
}

/// `s` without its leading whitespace, as `str::trim_start` gives it.
pub open spec fn trim_start(s: Seq<char>) -> Seq<char>
    decreases s.len(),
{
    if s.len() > 0 && is_ws(s[0]) {
        trim_start(s.drop_first())
    } else {
        s
    }
}

/// `s` without its trailing whitespace, as `str::trim_end` gives it.
pub open spec fn trim_end(s: Seq<char>) -> Seq<char>
    decreases s.len(),
{
    if s.len() > 0 && is_ws(s.last()) {
        trim_end(s.drop_last())
    } else {
        s
    }
}

/// `s` without leading and trailing whitespace, as `str::trim` gives it.
pub open spec fn trim(s: Seq<char>) -> Seq<char> {
    trim_end(trim_start(s))
}

/// A text is blank when nothing is left of it once trimmed.
pub open spec fn blank(s: Seq<char>) -> bool {
    trim(s).len() == 0
}

/// Index of the first character of `v` that is not whitespace, counted from `from`.
pub fn skip_whitespace(v: &Vec<char>, from: usize) -> (i: usize)
    requires
        from <= v.len(),
    ensures
        from <= i <= v.len(),
        trim_start(v@.subrange(from as int, v.len() as int)) == v@.subrange(i as int, v.len() as int),
        forall|k: int| from <= k < i ==> is_ws(#[trigger] v@[k]),
        i < v.len() ==> !is_ws(v@[i as int]),
{
    let mut i = from;
    while i < v.len() && is_whitespace(v[i])
        invariant
            from <= i <= v.len(),
            trim_start(v@.subrange(from as int, v.len() as int)) == trim_start(
                v@.subrange(i as int, v.len() as int),
            ),
            forall|k: int| from <= k < i ==> is_ws(#[trigger] v@[k]),
        decreases v.len() - i,
    {
        assert(v@.subrange(i as int, v.len() as int).drop_first() =~= v@.subrange(
            i + 1,
            v.len() as int,
        ));
        i = i + 1;
    }
    i
}

/// Index just past the last character of `v[from..to]` that is not whitespace.
pub fn skip_whitespace_back(v: &Vec<char>, from: usize, to: usize) -> (j: usize)
    requires
        from <= to <= v.len(),
    ensures
        from <= j <= to,
        trim_end(v@.subrange(from as int, to as int)) == v@.subrange(from as int, j as int),
        forall|k: int| j <= k < to ==> is_ws(#[trigger] v@[k]),
        j > from ==> !is_ws(v@[j - 1]),
{
    let mut j = to;
    while j > from && is_whitespace(v[j - 1])
        invariant
            from <= j <= to,
            to <= v.len(),
            trim_end(v@.subrange(from as int, to as int)) == trim_end(
                v@.subrange(from as int, j as int),
            ),
            forall|k: int| j <= k < to ==> is_ws(#[trigger] v@[k]),
        decreases j - from,
    {
        assert(v@.subrange(from as int, j as int).drop_last() =~= v@.subrange(
            from as int,
            j - 1,
        ));
        j = j - 1;
    }
    j
}

/// Bounds of the trimmed part of `v`.
pub fn trim_bounds(v: &Vec<char>) -> (r: (usize, usize))
    ensures
        r.0 <= r.1 <= v.len(),
        trim(v@) == v@.subrange(r.0 as int, r.1 as int),
{
    let i = skip_whitespace(v, 0);
    assert(v@.subrange(0, v.len() as int) =~= v@);
    let j = skip_whitespace_back(v, i, v.len());
    (i, j)
}

/// `v` trimmed.
pub fn trim_chars(v: &Vec<char>) -> (r: Vec<char>)
    ensures
        r@ == trim(v@),
{
    let (i, j) = trim_bounds(v);
    slice_chars(v, i, j)
}

/// `s` trimmed, as a `String`.
pub fn trim_str(s: &str) -> (r: String)
    ensures
        r@ == trim(s@),
{
    let v = chars_of(s);
    let t = trim_chars(&v);
    string_of(&t)
}

/// Whether `s` holds nothing but whitespace.
pub fn is_blank(s: &str) -> (b: bool)
    ensures
        b == blank(s@),
{
    let v = chars_of(s);
    let (i, j) = trim_bounds(&v);
    i == j
}


/// The decimal digit character for `d`, which is below ten.
pub open spec fn digit_char(d: int) -> char {
    if d == 0 {
        '0'
    } else if d == 1 {
        '1'
    } else if d == 2 {
        '2'
    } else if d == 3 {
        '3'
    } else if d == 4 {
        '4'
    } else if d == 5 {
        '5'
    } else if d == 6 {
        '6'
    } else if d == 7 {
        '7'
    } else if d == 8 {
        '8'
    } else {
        '9'
    }
}

/// The decimal text of a natural number, as `Display` writes it.
pub open spec fn decimal(n: nat) -> Seq<char>
    decreases n,
{
    if n < 10 {
        seq![digit_char(n as int)]
    } else {
        decimal(n / 10).push(digit_char((n % 10) as int))
    }
}

/// The decimal text of an integer, with a leading `-` when it is negative.
pub open spec fn signed_decimal(x: int) -> Seq<char> {
    if x < 0 {
        seq!['-'] + decimal((-x) as nat)
    } else {
        decimal(x as nat)
    }
}

pub fn digit(d: u64) -> (c: char)
    requires
        d < 10,
    ensures
        c == digit_char(d as int),
{
    if d == 0 {
        '0'
    } else if d == 1 {
        '1'
    } else if d == 2 {
        '2'
    } else if d == 3 {
        '3'
    } else if d == 4 {
        '4'
    } else if d == 5 {
        '5'
    } else if d == 6 {
        '6'
    } else if d == 7 {
        '7'
    } else if d == 8 {
        '8'
    } else {
        '9'
    }
}

/// Appends the decimal text of `n` to `s`.
pub fn push_decimal(s: &mut String, n: u64)
    ensures
        final(s)@ == old(s)@ + decimal(n as nat),
    decreases n,
{
    if n >= 10 {
        push_decimal(s, n / 10);
    }
    s.push(digit(n % 10));
    assert(final(s)@ =~= old(s)@ + decimal(n as nat));
}

/// Appends the decimal text of `x`, with its sign, to `s`.
pub fn push_signed_decimal(s: &mut String, x: i64)
    ensures
        final(s)@ == old(s)@ + signed_decimal(x as int),
{
    if x < 0 {
        s.push('-');
        let magnitude: u64 = if x == i64::MIN {
            9223372036854775808u64
        } else {
            (-x) as u64
        };
        push_decimal(s, magnitude);
        assert(final(s)@ =~= old(s)@ + signed_decimal(x as int));
    } else {
        push_decimal(s, x as u64);
    }
}

/// The decimal text of `n`.
pub fn decimal_string(n: u64) -> (s: String)
    ensures
        s@ == decimal(n as nat),
{
    let mut s = String::new();
    push_decimal(&mut s, n);
    assert(s@ =~= decimal(n as nat));
    s
}


/// Index of the first `c` in `s`, or the length of `s` when `c` does not occur.
pub open spec fn index_of(s: Seq<char>, c: char) -> int
    decreases s.len(),
{
    if s.len() == 0 {
        0
    } else if s[0] == c {
        0
    } else {
        1 + index_of(s.drop_first(), c)
    }
}

pub proof fn lemma_index_of(s: Seq<char>, c: char)
    ensures
        0 <= index_of(s, c) <= s.len(),
        forall|j: int| 0 <= j < index_of(s, c) ==> s[j] != c,
        index_of(s, c) < s.len() ==> s[index_of(s, c)] == c,
    decreases s.len(),
{
    if s.len() > 0 && s[0] != c {
        lemma_index_of(s.drop_first(), c);
        assert forall|j: int| 0 <= j < index_of(s, c) implies s[j] != c by {
            if j > 0 {
                assert(s[j] == s.drop_first()[j - 1]);
            }
        }
    }
}

/// `index_of` is the only index with its two properties.
pub proof fn lemma_index_of_unique(s: Seq<char>, c: char, i: int)
    requires
        0 <= i <= s.len(),
        forall|j: int| 0 <= j < i ==> s[j] != c,
        i < s.len() ==> s[i] == c,
    ensures
        index_of(s, c) == i,
    decreases s.len(),
{
    if s.len() > 0 && s[0] != c {
        assert forall|j: int| 0 <= j < i - 1 implies s.drop_first()[j] != c by {
            assert(s[j + 1] != c);
        }
        lemma_index_of_unique(s.drop_first(), c, i - 1);
    }
}

/// Index of the first `c` in `v[from..]`, or the length of `v`.
pub fn find_char(v: &Vec<char>, from: usize, c: char) -> (i: usize)
    requires
        from <= v.len(),
    ensures
        from <= i <= v.len(),
        i - from == index_of(v@.subrange(from as int, v.len() as int), c),
        forall|k: int| from <= k < i ==> v@[k] != c,
        i < v.len() ==> v@[i as int] == c,
{
    let mut i = from;
    while i < v.len() && v[i] != c
        invariant
            from <= i <= v.len(),
            forall|k: int| from <= k < i ==> v@[k] != c,
        decreases v.len() - i,
    {
        i = i + 1;
    }
    proof {
        let t = v@.subrange(from as int, v.len() as int);
        assert forall|j: int| 0 <= j < i - from implies t[j] != c by {
            assert(t[j] == v@[from + j]);
        }
        lemma_index_of_unique(t, c, i - from);
    }
    i
}

/// A line without its trailing carriage return.
pub open spec fn strip_cr(l: Seq<char>) -> Seq<char> {
    if l.len() > 0 && l.last() == '\r' {
        l.drop_last()
    } else {
        l
    }
}

/// The lines of a text, as `str::lines` yields them: split at `\n`, a `\r`
/// before a `\n` dropped, and no empty line after a final `\n`.
pub open spec fn lines(s: Seq<char>) -> Seq<Seq<char>>
    decreases s.len(),
{
    if s.len() == 0 {
        seq![]
    } else {
        let k = index_of(s, '\n');
        if 0 <= k < s.len() {
            seq![strip_cr(s.subrange(0, k))] + lines(s.subrange(k + 1, s.len() as int))
        } else {
            seq![s]
        }
    }
}

/// The lines of `s`, each as its characters.
pub fn split_lines(s: &str) -> (r: Vec<Vec<char>>)
    ensures
        r@.len() == lines(s@).len(),
        forall|i: int| 0 <= i < r@.len() ==> (#[trigger] r@[i])@ == lines(s@)[i],
{
    let v = chars_of(s);
    let mut r: Vec<Vec<char>> = Vec::new();
    let mut pos: usize = 0;
    let ghost done: Seq<Seq<char>> = seq![];
    assert(v@.subrange(0, v.len() as int) =~= v@);
    while pos < v.len()
        invariant
            pos <= v.len(),
            v@ == s@,
            r@.len() == done.len(),
            forall|i: int| 0 <= i < r@.len() ==> (#[trigger] r@[i])@ == done[i],
            done + lines(v@.subrange(pos as int, v.len() as int)) == lines(v@),
        decreases v.len() - pos,
    {
        let ghost t = v@.subrange(pos as int, v.len() as int);
        let j = find_char(&v, pos, '\n');
        proof {
            lemma_index_of(t, '\n');
        }
        if j < v.len() {
            let mut end = j;
            if end > pos && v[end - 1] == '\r' {
                end = end - 1;
            }
            let line = slice_chars(&v, pos, end);
            proof {
                assert(t.subrange(0, j - pos) =~= v@.subrange(pos as int, j as int));
                assert(strip_cr(t.subrange(0, j - pos)) =~= line@);
                assert(t.subrange(j - pos + 1, t.len() as int) =~= v@.subrange(
                    j + 1,
                    v.len() as int,
                ));
                assert(done.push(line@) + lines(v@.subrange(j + 1, v.len() as int)) =~= done
                    + lines(t));
                done = done.push(line@);
            }
            r.push(line);
            pos = j + 1;
        } else {
            let line = slice_chars(&v, pos, v.len());
            proof {
                assert(lines(v@.subrange(v.len() as int, v.len() as int)) =~= seq![]);
                assert(done.push(line@) + seq![] =~= done + lines(t));
                done = done.push(line@);
            }
            r.push(line);
            pos = v.len();
        }
    }
    proof {
        assert(v@.subrange(pos as int, v.len() as int) =~= seq![]);
        assert(done + seq![] =~= done);
    }
    r
}


/// Index of the first whitespace character of `s`, or its length.
pub open spec fn index_of_ws(s: Seq<char>) -> int
    decreases s.len(),
{
    if s.len() == 0 {
        0
    } else if is_ws(s[0]) {
        0
    } else {
        1 + index_of_ws(s.drop_first())
    }
}

pub proof fn lemma_index_of_ws_unique(s: Seq<char>, i: int)
    requires
        0 <= i <= s.len(),
        forall|j: int| 0 <= j < i ==> !is_ws(s[j]),
        i < s.len() ==> is_ws(s[i]),
    ensures
        index_of_ws(s) == i,
    decreases s.len(),
{
    if s.len() > 0 && !is_ws(s[0]) {
        assert forall|j: int| 0 <= j < i - 1 implies !is_ws(s.drop_first()[j]) by {
            assert(!is_ws(s[j + 1]));
        }
        lemma_index_of_ws_unique(s.drop_first(), i - 1);
    }
}

/// The whitespace-separated words of a text, as `str::split_whitespace` yields them.
pub open spec fn words(s: Seq<char>) -> Seq<Seq<char>>
    decreases s.len(),
{
    let t = trim_start(s);
    let k = index_of_ws(t);
    if t.len() == 0 {
        seq![]
    } else if 0 < k <= t.len() && t.len() <= s.len() {
        seq![t.subrange(0, k)] + words(t.subrange(k, t.len() as int))
    } else {
        seq![]
    }
}

/// The words of `v`, each as its characters.
pub fn split_words(v: &Vec<char>) -> (r: Vec<Vec<char>>)
    ensures
        r@.len() == words(v@).len(),
        forall|i: int| 0 <= i < r@.len() ==> (#[trigger] r@[i])@ == words(v@)[i],
{
    let mut r: Vec<Vec<char>> = Vec::new();
    let mut pos: usize = 0;
    let ghost done: Seq<Seq<char>> = seq![];
    assert(v@.subrange(0, v.len() as int) =~= v@);
    while pos < v.len()
        invariant
            pos <= v.len(),
            r@.len() == done.len(),
            forall|i: int| 0 <= i < r@.len() ==> (#[trigger] r@[i])@ == done[i],
            done + words(v@.subrange(pos as int, v.len() as int)) == words(v@),
        decreases v.len() - pos,
    {
        let ghost s = v@.subrange(pos as int, v.len() as int);
        let i = skip_whitespace(v, pos);
        if i == v.len() {
            proof {
                assert(words(s) =~= seq![]);
                assert(v@.subrange(i as int, v.len() as int) =~= seq![]);
                assert(words(v@.subrange(i as int, v.len() as int)) =~= seq![]);
            }
            pos = i;
        } else {
            let mut j = i;
            while j < v.len() && !is_whitespace(v[j])
                invariant
                    i <= j <= v.len(),
                    forall|k: int| i <= k < j ==> !is_ws(#[trigger] v@[k]),
                decreases v.len() - j,
            {
                j = j + 1;
            }
            let word = slice_chars(v, i, j);
            proof {
                let t = v@.subrange(i as int, v.len() as int);
                assert(trim_start(s) == t);
                assert forall|k: int| 0 <= k < j - i implies !is_ws(t[k]) by {
                    assert(t[k] == v@[i + k]);
                }
                lemma_index_of_ws_unique(t, j - i);
                assert(t.subrange(0, j - i) =~= word@);
                assert(t.subrange(j - i, t.len() as int) =~= v@.subrange(j as int, v.len() as int));
                assert(words(s) =~= seq![word@] + words(v@.subrange(j as int, v.len() as int)));
                assert(done.push(word@) + words(v@.subrange(j as int, v.len() as int)) =~= done
                    + words(s));
                done = done.push(word@);
            }
            r.push(word);
            pos = j;
        }
    }
    proof {
        assert(v@.subrange(pos as int, v.len() as int) =~= seq![]);
        assert(words(seq![]) =~= seq![]);
        assert(done + seq![] =~= done);
    }
    r
}

/// Whether two character sequences are equal.
pub fn chars_eq(a: &Vec<char>, b: &Vec<char>) -> (r: bool)
    ensures
        r == (a@ == b@),
{
    if a.len() != b.len() {
        return false;
    }
    let mut i: usize = 0;
    while i < a.len()
        invariant
            i <= a.len(),
            a.len() == b.len(),
            forall|k: int| 0 <= k < i ==> a@[k] == b@[k],
        decreases a.len() - i,
    {
        if a[i] != b[i] {
            return false;
        }
        i = i + 1;
    }
    assert(a@ =~= b@);
    true
}

/// Whether two texts hold the same characters.
pub fn str_eq(a: &str, b: &str) -> (r: bool)
    ensures
        r == (a@ == b@),
{
    let va = chars_of(a);
    let vb = chars_of(b);
    chars_eq(&va, &vb)
}

/// Whether `v[from..]` starts with `p`.
pub fn has_prefix_at(v: &Vec<char>, from: usize, p: &Vec<char>) -> (r: bool)
    requires
        from <= v.len(),
    ensures
        r == (from + p@.len() <= v@.len() && v@.subrange(from as int, from + p@.len()) == p@),
{
    if v.len() - from < p.len() {
        return false;
    }
    let mut i: usize = 0;
    while i < p.len()
        invariant
            i <= p.len(),
            from + p.len() <= v.len(),
            forall|k: int| 0 <= k < i ==> v@[from + k] == p@[k],
        decreases p.len() - i,
    {
        if v[from + i] != p[i] {
            assert(v@.subrange(from as int, from + p@.len())[i as int] != p@[i as int]);
            return false;
        }
        i = i + 1;
    }
    assert(v@.subrange(from as int, from + p@.len()) =~= p@);
    true
}

/// Lexicographic order of texts by character, which is the order of `String`.
pub open spec fn lex_lt(a: Seq<char>, b: Seq<char>) -> bool
    decreases a.len(),
{
    if b.len() == 0 {
        false
    } else if a.len() == 0 {
        true
    } else if a[0] != b[0] {
        a[0] < b[0]
    } else {
        lex_lt(a.drop_first(), b.drop_first())
    }
}

pub proof fn lemma_lex_irreflexive(a: Seq<char>)
    ensures
        !lex_lt(a, a),
    decreases a.len(),
{
    if a.len() > 0 {
        lemma_lex_irreflexive(a.drop_first());
    }
}

pub proof fn lemma_lex_transitive(a: Seq<char>, b: Seq<char>, c: Seq<char>)
    requires
        lex_lt(a, b),
        lex_lt(b, c),
    ensures
        lex_lt(a, c),
    decreases a.len(),
{
    if a.len() > 0 && b.len() > 0 && c.len() > 0 && a[0] == b[0] && b[0] == c[0] {
        lemma_lex_transitive(a.drop_first(), b.drop_first(), c.drop_first());
    }
}

pub proof fn lemma_lex_total(a: Seq<char>, b: Seq<char>)
    ensures
        a == b || lex_lt(a, b) || lex_lt(b, a),
    decreases a.len(),
{
    if a.len() > 0 && b.len() > 0 && a[0] == b[0] {
        lemma_lex_total(a.drop_first(), b.drop_first());
        if a.drop_first() == b.drop_first() {
            assert(a =~= seq![a[0]] + a.drop_first());
            assert(b =~= seq![b[0]] + b.drop_first());
        }
    } else if a.len() == 0 && b.len() == 0 {
        assert(a =~= b);
    }
}

pub proof fn lemma_lex_asymmetric(a: Seq<char>, b: Seq<char>)
    requires
        lex_lt(a, b),
    ensures
        !lex_lt(b, a),
{
    if lex_lt(b, a) {
        lemma_lex_transitive(a, b, a);
        lemma_lex_irreflexive(a);
    }
}

/// Whether `a` comes before `b` in the order of `String`.
pub fn lex_less(a: &Vec<char>, b: &Vec<char>) -> (r: bool)
    ensures
        r == lex_lt(a@, b@),
{
    let mut i: usize = 0;
    assert(a@.subrange(0, a.len() as int) =~= a@);
    assert(b@.subrange(0, b.len() as int) =~= b@);
    while i < a.len() && i < b.len() && a[i] == b[i]
        invariant
            i <= a.len(),
            i <= b.len(),
            lex_lt(a@, b@) == lex_lt(
                a@.subrange(i as int, a.len() as int),
                b@.subrange(i as int, b.len() as int),
            ),
        decreases a.len() - i,
    {
        assert(a@.subrange(i as int, a.len() as int).drop_first() =~= a@.subrange(
            i + 1,
            a.len() as int,
        ));
        assert(b@.subrange(i as int, b.len() as int).drop_first() =~= b@.subrange(
            i + 1,
            b.len() as int,
        ));
        i = i + 1;
    }
    assert(a@.subrange(0, a.len() as int) =~= a@);
    assert(b@.subrange(0, b.len() as int) =~= b@);
    if i == b.len() {
        false
    } else if i == a.len() {
        true
    } else {
        a[i] < b[i]
    }
}

/// Whether the texts `a` and `b` come in that order or are equal.
pub open spec fn lex_le(a: Seq<char>, b: Seq<char>) -> bool {
    !lex_lt(b, a)
}

/// Items that are ordered by a text key.
pub trait SortKey: Sized {
    spec fn sort_key(&self) -> Seq<char>;

    fn key_text(&self) -> (r: &str)
        ensures
            r@ == self.sort_key(),
    ;
}

impl SortKey for String {
    open spec fn sort_key(&self) -> Seq<char> {
        self@
    }

    fn key_text(&self) -> (r: &str) {
        self.as_str()
    }
}

impl<T> SortKey for (String, T) {
    open spec fn sort_key(&self) -> Seq<char> {
        self.0@
    }

    fn key_text(&self) -> (r: &str) {
        self.0.as_str()
    }
}

/// A sequence of items is sorted by its keys.
pub open spec fn sorted_by_key<T: SortKey>(s: Seq<T>) -> bool {
    forall|i: int, j: int|
        0 <= i < j < s.len() ==> lex_le(#[trigger] s[i].sort_key(), #[trigger] s[j].sort_key())
}

/// Sorts items by key, in the order of `String`; items with equal keys keep
/// their order.
pub fn sort_by_key<T: SortKey>(items: Vec<T>) -> (r: Vec<T>)
    ensures
        sorted_by_key(r@),
        r@.to_multiset() == items@.to_multiset(),
{
    broadcast use vstd::seq_lib::group_to_multiset_ensures;

    let mut input = items;
    let ghost original = input@;
    let mut r: Vec<T> = Vec::new();
    while input.len() > 0
        invariant
            sorted_by_key(r@),
            r@.to_multiset().add(input@.to_multiset()) == original.to_multiset(),
        decreases input.len(),
    {
        let ghost before_input = input@;
        let ghost before_r = r@;
        let item = input.remove(0);
        let key_chars = chars_of(item.key_text());
        let mut p: usize = 0;
        let mut stop = false;
        while p < r.len() && !stop
            invariant
                p <= r.len(),
                r@ == before_r,
                key_chars@ == item.sort_key(),
                forall|k: int| 0 <= k < p ==> lex_le(#[trigger] r@[k].sort_key(), item.sort_key()),
                stop ==> p < r.len() && lex_lt(item.sort_key(), r@[p as int].sort_key()),
            decreases r.len() - p + (if stop { 0int } else { 1int }),
        {
            let other = chars_of(r[p].key_text());
            if lex_less(&key_chars, &other) {
                stop = true;
            } else {
                p = p + 1;
            }
        }
        proof {
            assert forall|k: int| p <= k < r@.len() implies lex_lt(
                item.sort_key(),
                #[trigger] r@[k].sort_key(),
            ) by {
                if stop {
                    if k > p {
                        assert(lex_le(r@[p as int].sort_key(), r@[k].sort_key()));
                        lemma_lex_total(r@[p as int].sort_key(), r@[k].sort_key());
                        if r@[p as int].sort_key() != r@[k].sort_key() {
                            lemma_lex_transitive(
                                item.sort_key(),
                                r@[p as int].sort_key(),
                                r@[k].sort_key(),
                            );
                        }
                    }
                }
            }
        }
        let ghost item_view = item;
        r.insert(p, item);
        proof {
            let s = r@;
            assert forall|i: int, j: int| 0 <= i < j < s.len() implies lex_le(
                #[trigger] s[i].sort_key(),
                #[trigger] s[j].sort_key(),
            ) by {
                if i == p as int {
                    assert(s[j] == before_r[j - 1]);
                    lemma_lex_asymmetric(item_view.sort_key(), s[j].sort_key());
                } else if j == p as int {
                    assert(s[i] == before_r[i]);
                } else {
                    let i0 = if i < p {
                        i
                    } else {
                        i - 1
                    };
                    let j0 = if j < p {
                        j
                    } else {
                        j - 1
                    };
                    assert(s[i] == before_r[i0]);
                    assert(s[j] == before_r[j0]);
                }
            }
            assert(s.remove(p as int) =~= before_r);
            assert(s[p as int] == item_view);
            assert(before_input.remove(0) =~= input@);
            assert(before_input[0] == item_view);
            before_input.to_multiset_ensures();
            s.to_multiset_ensures();
            assert(before_input.remove(0).to_multiset() =~= before_input.to_multiset().remove(
                item_view,
            ));
            assert(before_input.contains(item_view));
            assert(before_input.to_multiset().count(item_view) > 0);
            assert(before_input.to_multiset() =~= input@.to_multiset().insert(item_view));
            assert(s.contains(item_view));
            assert(s.remove(p as int).to_multiset() =~= s.to_multiset().remove(item_view));
            assert(s.to_multiset().count(item_view) > 0);
            assert(s.to_multiset() =~= before_r.to_multiset().insert(item_view));
            assert(s.to_multiset().add(input@.to_multiset()) =~= before_r.to_multiset().add(
                before_input.to_multiset(),
            ));
        }
    }
    proof {
        assert(input@.to_multiset() =~= Multiset::empty());
    }
    r
}

/// The characters of each text in `v`.
pub open spec fn views(v: Seq<String>) -> Seq<Seq<char>> {
    v.map_values(|s: String| s@)
}

/// Appends a text to a list of texts.
pub fn push_text(list: &mut Vec<String>, s: String)
    ensures
        views(final(list)@) == views(old(list)@).push(s@),
{
    let ghost v = s@;
    list.push(s);
    assert(views(final(list)@) =~= views(old(list)@).push(v));
}

/// The texts of `list` separated by `sep`.
pub open spec fn join_with(list: Seq<Seq<char>>, sep: Seq<char>) -> Seq<char>
    decreases list.len(),
{
    if list.len() == 0 {
        seq![]
    } else if list.len() == 1 {
        list[0]
    } else {
        join_with(list.drop_last(), sep) + sep + list.last()
    }
}

/// `t` occurs in `s` as a run of consecutive characters.
pub open spec fn occurs_in(t: Seq<char>, s: Seq<char>) -> bool {
    exists|i: int| 0 <= i && i + t.len() <= s.len() && #[trigger] s.subrange(i, i + t.len()) == t
}

/// A text that occurs in `s` occurs in `p + s + q` too.
pub proof fn lemma_occurs_in_context(t: Seq<char>, p: Seq<char>, s: Seq<char>, q: Seq<char>)
    requires
        occurs_in(t, s),
    ensures
        occurs_in(t, p + s + q),
{
    let i = choose|i: int| 0 <= i && i + t.len() <= s.len() && #[trigger] s.subrange(i, i + t.len()) == t;
    let all = p + s + q;
    let j = p.len() + i;
    assert(all.subrange(j, j + t.len()) =~= s.subrange(i, i + t.len()));
}

proof fn lemma_occurs_in_itself(t: Seq<char>)
    ensures
        occurs_in(t, t),
{
    let z: int = 0;
    assert(t.subrange(z, z + t.len()) =~= t);
}

/// Each text of a list occurs in the list joined with any separator.
pub proof fn lemma_joined_item_occurs(list: Seq<Seq<char>>, sep: Seq<char>, k: int)
    requires
        0 <= k < list.len(),
    ensures
        occurs_in(list[k], join_with(list, sep)),
    decreases list.len(),
{
    let t = list[k];
    lemma_occurs_in_itself(t);
    if list.len() == 1 {
        assert(join_with(list, sep) == t);
    } else {
        let rest = list.drop_last();
        if k == list.len() - 1 {
            lemma_occurs_in_context(t, join_with(rest, sep) + sep, t, seq![]);
            assert(join_with(list, sep) =~= join_with(rest, sep) + sep + t + seq![]);
        } else {
            lemma_joined_item_occurs(rest, sep, k);
            assert(rest[k] == t);
            lemma_occurs_in_context(t, seq![], join_with(rest, sep), sep + list.last());
            assert(join_with(list, sep) =~= seq![] + join_with(rest, sep) + (sep + list.last()));
        }
    }
}

/// Appends the texts of `list`, separated by `sep`, to `out`.
pub fn push_joined(out: &mut String, list: &Vec<String>, sep: &str)
    ensures
        final(out)@ == old(out)@ + join_with(views(list@), sep@),
{
    let ghost start = out@;
    let mut i: usize = 0;
    while i < list.len()
        invariant
            i <= list.len(),
            out@ == start + join_with(views(list@).take(i as int), sep@),
        decreases list.len() - i,
    {
        proof {
            assert(views(list@).take(i + 1).drop_last() =~= views(list@).take(i as int));
            assert(views(list@).take(i + 1).last() == list@[i as int]@);
        }
        if i > 0 {
            out.append(sep);
        } else {
            assert(views(list@).take(0) =~= seq![]);
        }
        out.append(list[i].as_str());
        i = i + 1;
    }
    assert(views(list@).take(list.len() as int) =~= views(list@));
}


/// Index of the first occurrence of `p` in `s` at or after `i`.
pub open spec fn find_text_from(s: Seq<char>, p: Seq<char>, i: int) -> Option<int>
    decreases s.len() + 1 - i,
{
    if i < 0 || i + p.len() > s.len() {
        None
    } else if s.subrange(i, i + p.len()) == p {
        Some(i)
    } else {
        find_text_from(s, p, i + 1)
    }
}

/// Index of the first occurrence of `p` in `v`.
pub fn find_text(v: &Vec<char>, p: &Vec<char>) -> (r: Option<usize>)
    ensures
        match (r, find_text_from(v@, p@, 0)) {
            (Some(i), Some(j)) => i == j && i + p@.len() <= v@.len(),
            (None, None) => true,
            _ => false,
        },
{
    let mut i: usize = 0;
    while i <= v.len() && v.len() - i >= p.len()
        invariant
            find_text_from(v@, p@, 0) == find_text_from(v@, p@, i as int),
        decreases v.len() + 1 - i,
    {
        if has_prefix_at(v, i, p) {
            return Some(i);
        }
        if p.len() == 0 {
            assert(v@.subrange(i as int, i as int) =~= p@);
        }
        i = i + 1;
    }
    None
}

/// Whether every character of `s` is a hexadecimal digit.
pub open spec fn all_hex(s: Seq<char>) -> bool {
    forall|i: int|
        0 <= i < s.len() ==> (('0' <= #[trigger] s[i] && s[i] <= '9') || ('a' <= s[i] && s[i] <= 'f') || (
        'A' <= s[i] && s[i] <= 'F'))
}

pub fn is_all_hex(v: &Vec<char>) -> (b: bool)
    ensures
        b == all_hex(v@),
{
    let mut i: usize = 0;
    while i < v.len()
        invariant
            i <= v.len(),
            forall|k: int|
                0 <= k < i ==> (('0' <= #[trigger] v@[k] && v@[k] <= '9') || ('a' <= v@[k] && v@[k] <= 'f')
                    || ('A' <= v@[k] && v@[k] <= 'F')),
        decreases v.len() - i,
    {
        let c = v[i];
        if !(('0' <= c && c <= '9') || ('a' <= c && c <= 'f') || ('A' <= c && c <= 'F')) {
            return false;
        }
        i = i + 1;
    }
    true
}

/// The UTF-8 encoding of a text.
pub open spec fn utf8(s: Seq<char>) -> Seq<u8> {
    vstd::utf8::encode_utf8(s)
}

/// The pieces of `s` between occurrences of `c`, as `str::split` yields them.
pub open spec fn split_on(s: Seq<char>, c: char) -> Seq<Seq<char>>
    decreases s.len(),
{
    let k = index_of(s, c);
    if 0 <= k < s.len() {
        seq![s.subrange(0, k)] + split_on(s.subrange(k + 1, s.len() as int), c)
    } else {
        seq![s]
    }
}

/// The pieces of `v` between occurrences of `c`.
pub fn split_char(v: &Vec<char>, c: char) -> (r: Vec<Vec<char>>)
    ensures
        r@.len() == split_on(v@, c).len(),
        forall|i: int| 0 <= i < r@.len() ==> (#[trigger] r@[i])@ == split_on(v@, c)[i],
{
    let mut r: Vec<Vec<char>> = Vec::new();
    let mut pos: usize = 0;
    let ghost done: Seq<Seq<char>> = seq![];
    assert(v@.subrange(0, v.len() as int) =~= v@);
    loop
        invariant
            pos <= v.len(),
            r@.len() == done.len(),
            forall|i: int| 0 <= i < r@.len() ==> (#[trigger] r@[i])@ == done[i],
            done + split_on(v@.subrange(pos as int, v.len() as int), c) == split_on(v@, c),
        decreases v.len() - pos,
    {
        let ghost t = v@.subrange(pos as int, v.len() as int);
        let j = find_char(v, pos, c);
        proof {
            lemma_index_of(t, c);
        }
        if j < v.len() {
            let piece = slice_chars(v, pos, j);
            proof {
                assert(t.subrange(0, j - pos) =~= piece@);
                assert(t.subrange(j - pos + 1, t.len() as int) =~= v@.subrange(j + 1, v.len() as int));
                assert(done.push(piece@) + split_on(v@.subrange(j + 1, v.len() as int), c) =~= done
                    + split_on(t, c));
                done = done.push(piece@);
            }
            r.push(piece);
            pos = j + 1;
        } else {
            let piece = slice_chars(v, pos, v.len());
            proof {
                assert(done.push(piece@) =~= done + split_on(t, c));
                done = done.push(piece@);
            }
            r.push(piece);
            return r;
        }
    }
}

} // verus!
