//! `.env` files: `KEY=VALUE` lines, blank lines and `#` comments, values
//! optionally quoted; later lines win when read into a map.

use vstd::prelude::*;
use vstd::string::*;

use crate::manifest::first_some;
use crate::utils::{first_equals_sign, is_white_space};

verus! {

/// The value of `f` at the last index in `lo..hi` where it is `Some`.
pub open spec fn last_some<E>(lo: int, hi: int, f: spec_fn(int) -> Option<E>) -> Option<E>
    decreases hi - lo,
{
    if lo >= hi {
        None
    } else if f(hi - 1) is Some {
        f(hi - 1)
    } else {
        last_some(lo, hi - 1, f)
    }
}

/// `s` without leading and trailing white space, as `str::trim` gives it.
pub open spec fn trimmed(s: Seq<char>) -> Seq<char> {
    let f = |i: int| if !is_white_space(s[i]) { Some(i) } else { None };
    match first_some(0, s.len() as int, f) {
        None => Seq::empty(),
        Some(a) => match last_some(0, s.len() as int, f) {
            Some(b) => s.subrange(a, b + 1),
            None => Seq::empty(),
        },
    }
}

/// A found value comes from an index of the range where `f` gives it.
pub proof fn lemma_last_some_found<E>(lo: int, hi: int, f: spec_fn(int) -> Option<E>)
    ensures
        last_some(lo, hi, f) is Some ==> exists|k: int|
            lo <= k < hi && #[trigger] f(k) == last_some(lo, hi, f),
    decreases hi - lo,
{
    if lo < hi {
        lemma_last_some_found(lo, hi - 1, f);
    }
}

/// `last_some` depends only on the values of `f` in the range.
pub proof fn lemma_last_some_agree<E>(
    lo: int,
    hi: int,
    f: spec_fn(int) -> Option<E>,
    g: spec_fn(int) -> Option<E>,
)
    requires
        forall|i: int| lo <= i < hi ==> #[trigger] f(i) == g(i),
    ensures
        last_some(lo, hi, f) == last_some(lo, hi, g),
    decreases hi - lo,
{
    if lo < hi {
        lemma_last_some_agree(lo, hi - 1, f, g);
    }
}

/// `s` without leading and trailing white space.
#[verifier::loop_isolation(false)]
pub fn trim(s: &str) -> (r: String)
    ensures
        r@ == trimmed(s@),
{
    let n = s.unicode_len();
    let ghost f = |i: int| if !is_white_space(s@[i]) { Some(i) } else { None };
    let mut a: usize = 0;
    while a < n && crate::utils::white_space(s.get_char(a))
        invariant
            n == s@.len(),
            a <= n,
            f == (|i: int| if !is_white_space(s@[i]) { Some(i) } else { None }),
            first_some(0, n as int, f) == first_some(a as int, n as int, f),
        decreases n - a,
    {
        a = a + 1;
    }
    if a == n {
        return String::new();
    }
    assert(first_some(0, n as int, f) == Some(a as int));
    let mut b: usize = n;
    while b > a && crate::utils::white_space(s.get_char(b - 1))
        invariant
            n == s@.len(),
            a < b <= n,
            !is_white_space(s@[a as int]),
            f == (|i: int| if !is_white_space(s@[i]) { Some(i) } else { None }),
            last_some(0, n as int, f) == last_some(0, b as int, f),
        decreases b,
    {
        b = b - 1;
    }
    assert(last_some(0, n as int, f) == Some(b - 1));
    String::from_str(s.substring_char(a, b))
}

/// What one line of a `.env` file holds.
#[derive(Debug, Clone, PartialEq, Eq)]
pub enum EnvLine {
    /// A blank line or a comment.
    Skip,
    /// A variable.
    Entry { key: String, value: String },
    /// `=VALUE` with nothing before the `=`.
    EmptyKey,
    /// A line without `=`.
    Invalid,
}

/// A value without one pair of surrounding double or single quotes.
pub open spec fn unquoted(v: Seq<char>) -> Seq<char> {
    if v.len() >= 2 && ((v[0] == '"' && v.last() == '"') || (v[0] == '\'' && v.last() == '\'')) {
        v.subrange(1, v.len() - 1)
    } else {
        v
    }
}

/// The kind of a line, ignoring the texts of an entry.
pub open spec fn line_kind(line: Seq<char>) -> int {
    let t = trimmed(line);
    if t.len() == 0 || t[0] == '#' {
        0
    } else {
        match first_equals_sign(t) {
            None => 3,
            Some(i) => if trimmed(t.subrange(0, i)).len() == 0 {
                2
            } else {
                1
            },
        }
    }
}

/// The key of an entry line.
pub open spec fn line_key(line: Seq<char>) -> Seq<char> {
    let t = trimmed(line);
    trimmed(t.subrange(0, first_equals_sign(t)->0))
}

/// The value of an entry line.
pub open spec fn line_value(line: Seq<char>) -> Seq<char> {
    let t = trimmed(line);
    unquoted(trimmed(t.subrange(first_equals_sign(t)->0 + 1, t.len() as int)))
}

/// `r` is how `line` parses.
pub open spec fn parses_as(line: Seq<char>, r: EnvLine) -> bool {
    match r {
        EnvLine::Skip => line_kind(line) == 0,
        EnvLine::Entry { key, value } => line_kind(line) == 1 && key@ == line_key(line) && value@
            == line_value(line),
        EnvLine::EmptyKey => line_kind(line) == 2,
        EnvLine::Invalid => line_kind(line) == 3,
    }
}

/// Parses one line: blank or `#` comment lines are skipped; otherwise the
/// line is split at its first `=`, key and value are trimmed, and one pair of
/// matching quotes around the value is removed.
#[verifier::loop_isolation(false)]
pub fn parse_env_line(line: &str) -> (r: EnvLine)
    ensures
        parses_as(line@, r),
{
    let t = trim(line);
    let n = t.unicode_len();
    if n == 0 || t.as_str().get_char(0) == '#' {
        return EnvLine::Skip;
    }
    let ghost f = |i: int| if t@[i] == '=' { Some(i) } else { None };
    let mut i: usize = 0;
    while i < n && t.as_str().get_char(i) != '='
        invariant
            n == t@.len(),
            i <= n,
            f == (|i: int| if t@[i] == '=' { Some(i) } else { None }),
            first_equals_sign(t@) == first_some(i as int, n as int, f),
        decreases n - i,
    {
        i = i + 1;
    }
    if i == n {
        return EnvLine::Invalid;
    }
    let key = trim(t.as_str().substring_char(0, i));
    if key.unicode_len() == 0 {
        return EnvLine::EmptyKey;
    }
    let v = trim(t.as_str().substring_char(i + 1, n));
    let m = v.unicode_len();
    let value = if m >= 2 && ((v.as_str().get_char(0) == '"' && v.as_str().get_char(m - 1) == '"')
        || (v.as_str().get_char(0) == '\'' && v.as_str().get_char(m - 1) == '\'')) {
        String::from_str(v.as_str().substring_char(1, m - 1))
    } else {
        v
    };
    EnvLine::Entry { key, value }
}

/// The lines of `s` from `start` on, split at `\n` as `str::lines` does (a
/// final `\n` does not open another line).
pub open spec fn lines_from(s: Seq<char>, start: int) -> Seq<Seq<char>>
    decreases s.len() - start,
{
    if start < 0 || start >= s.len() {
        Seq::empty()
    } else {
        match first_some(start, s.len() as int, |i: int| if s[i] == '\n' { Some(i) } else { None }) {
            Some(j) => if start <= j < s.len() {
                seq![s.subrange(start, j)] + lines_from(s, j + 1)
            } else {
                Seq::empty()
            },
            None => seq![s.subrange(start, s.len() as int)],
        }
    }
}

/// The pairs that the entry lines among `lines` hold, in order.
pub open spec fn entries_of(lines: Seq<Seq<char>>) -> Seq<(Seq<char>, Seq<char>)>
    decreases lines.len(),
{
    if lines.len() == 0 {
        Seq::empty()
    } else {
        let rest = entries_of(lines.drop_last());
        let l = lines.last();
        if line_kind(l) == 1 {
            rest.push((line_key(l), line_value(l)))
        } else {
            rest
        }
    }
}

/// The line is neither a variable nor skipped.
pub open spec fn is_bad_line(l: Seq<char>) -> bool {
    line_kind(l) == 2 || line_kind(l) == 3
}

/// Why a `.env` file does not parse.
#[derive(Debug, Clone, PartialEq, Eq)]
pub enum EnvFileError {
    /// The line (counted from 1) has `=` with nothing before it.
    EmptyKey { line: usize },
    /// The line (counted from 1) has no `=`; `text` is the line trimmed.
    InvalidLine { line: usize, text: String },
}

/// The views of key-value pairs.
pub open spec fn pair_views(v: Seq<(String, String)>) -> Seq<(Seq<char>, Seq<char>)> {
    v.map_values(|p: (String, String)| (p.0@, p.1@))
}

/// Parses the contents of a `.env` file into its variables, in file order.
#[verifier::loop_isolation(false)]
pub fn parse_env_file(content: &str) -> (r: Result<Vec<(String, String)>, EnvFileError>)
    ensures
        match r {
            Ok(v) => (forall|i: int|
                0 <= i < lines_from(content@, 0).len() ==> !is_bad_line(
                    #[trigger] lines_from(content@, 0)[i],
                )) && pair_views(v@) == entries_of(lines_from(content@, 0)),
            Err(e) => {
                let line = match e {
                    EnvFileError::EmptyKey { line } => line,
                    EnvFileError::InvalidLine { line, .. } => line,
                };
                let ls = lines_from(content@, 0);
                &&& 1 <= line <= ls.len()
                &&& forall|i: int| 0 <= i < line - 1 ==> !is_bad_line(#[trigger] ls[i])
                &&& e is EmptyKey ==> line_kind(ls[line - 1]) == 2
                &&& e is InvalidLine ==> line_kind(ls[line - 1]) == 3 && e->InvalidLine_text@
                    == trimmed(ls[line - 1])
            },
        },
{
    let n = content.unicode_len();
    let ghost s = content@;
    let ghost nl = |i: int| if s[i] == '\n' { Some(i) } else { None };
    let ghost mut done: Seq<Seq<char>> = Seq::empty();
    let mut out: Vec<(String, String)> = Vec::new();
    let mut start: usize = 0;
    let mut count: usize = 0;
    while start < n
        invariant
            n == s.len(),
            s == content@,
            start <= n,
            count == done.len(),
            count <= start,
            nl == (|i: int| if s[i] == '\n' { Some(i) } else { None }),
            lines_from(s, 0) == done + lines_from(s, start as int),
            forall|i: int| 0 <= i < done.len() ==> !is_bad_line(#[trigger] done[i]),
            pair_views(out@) == entries_of(done),
        decreases n - start,
    {
        let mut j: usize = start;
        while j < n && content.get_char(j) != '\n'
            invariant
                n == s.len(),
                s == content@,
                start <= j <= n,
                start < n,
                nl == (|i: int| if s[i] == '\n' { Some(i) } else { None }),
                first_some(start as int, n as int, nl) == first_some(j as int, n as int, nl),
            decreases n - j,
        {
            j = j + 1;
        }
        let line = content.substring_char(start, j);
        let ghost l = s.subrange(start as int, j as int);
        assert(line@ == l);
        let ghost next: int = if j < n { j + 1 } else { n as int };
        assert(lines_from(s, start as int) == seq![l] + lines_from(s, next)) by {
            if j == n {
                assert(lines_from(s, n as int) == Seq::<Seq<char>>::empty());
                assert(seq![l] + Seq::<Seq<char>>::empty() =~= seq![l]);
            }
        }
        let parsed = parse_env_line(line);
        match parsed {
            EnvLine::EmptyKey => {
                assert((done + lines_from(s, start as int))[count as int] == l);
                assert forall|i: int| 0 <= i < count implies !is_bad_line(
                    #[trigger] lines_from(s, 0)[i],
                ) by {
                    assert(lines_from(s, 0)[i] == done[i]);
                }
                return Err(EnvFileError::EmptyKey { line: count + 1 });
            },
            EnvLine::Invalid => {
                assert((done + lines_from(s, start as int))[count as int] == l);
                assert forall|i: int| 0 <= i < count implies !is_bad_line(
                    #[trigger] lines_from(s, 0)[i],
                ) by {
                    assert(lines_from(s, 0)[i] == done[i]);
                }
                return Err(EnvFileError::InvalidLine { line: count + 1, text: trim(line) });
            },
            EnvLine::Skip => {},
            EnvLine::Entry { key, value } => {
                out.push((key, value));
            },
        }
        proof {
            let old_done = done;
            done = done.push(l);
            assert(done.drop_last() =~= old_done);
            assert(pair_views(out@) =~= entries_of(done));
            assert(lines_from(s, 0) =~= done + lines_from(s, next));
        }
        count = count + 1;
        start = if j < n { j + 1 } else { n };
    }
    assert(lines_from(s, n as int) == Seq::<Seq<char>>::empty());
    assert(lines_from(s, 0) =~= done);
    Ok(out)
}

} // verus!
