//! Small helpers of the command line: `KEY=VALUE` parsing, the default bind
//! address and the version banner.

use vstd::prelude::*;
use vstd::string::*;

use crate::manifest::first_some;

verus! {

/// The index of the first `=` in `s`.
pub open spec fn first_equals_sign(s: Seq<char>) -> Option<int> {
    first_some(0, s.len() as int, |i: int| if s[i] == '=' { Some(i) } else { None })
}

/// Splits `KEY=VALUE` at the first `=`; the key must not be empty.
#[verifier::loop_isolation(false)]
pub fn parse_env_var(s: &str) -> (r: Result<(String, String), String>)
    ensures
        match first_equals_sign(s@) {
            None => r is Err && r->Err_0@ == "Environment variable must be in KEY=VALUE format"@,
            Some(i) => if i == 0 {
                r is Err && r->Err_0@ == "Environment variable key cannot be empty"@
            } else {
                r is Ok && r->Ok_0.0@ == s@.subrange(0, i) && r->Ok_0.1@ == s@.subrange(
                    i + 1,
                    s@.len() as int,
                )
            },
        },
{
    let n = s.unicode_len();
    let ghost f = |i: int| if s@[i] == '=' { Some(i) } else { None };
    let mut i: usize = 0;
    while i < n
        invariant
            n == s@.len(),
            i <= n,
            f == (|i: int| if s@[i] == '=' { Some(i) } else { None }),
            first_equals_sign(s@) == first_some(i as int, n as int, f),
        decreases n - i,
    {
        if s.get_char(i) == '=' {
            if i == 0 {
                return Err(String::from_str("Environment variable key cannot be empty"));
            }
            let key = String::from_str(s.substring_char(0, i));
            let value = String::from_str(s.substring_char(i + 1, n));
            return Ok((key, value));
        }
        i = i + 1;
    }
    Err(String::from_str("Environment variable must be in KEY=VALUE format"))
}

/// The address HTTP transports bind to when none is configured.
pub fn default_bind_address() -> (r: String)
    ensures
        r@ == "127.0.0.1:9001"@,
{
    String::from_str("127.0.0.1:9001")
}

/// What the version banner reports about a build.
#[derive(Debug, Clone)]
pub struct BuildInfo {
    /// Package version.
    pub pkg_version: String,
    /// Output of `rustc --version`.
    pub rustc_version: String,
    /// Build profile.
    pub profile: String,
    /// Whether the working tree had local changes, if known.
    pub git_dirty: Option<bool>,
    /// Git tag description, if known.
    pub git_version: Option<String>,
    /// Git commit hash, if known.
    pub git_commit_hash: Option<String>,
}

/// Version of this package.
pub const PKG_VERSION: &'static str = "0.3.0";

/// A character that `char::is_whitespace` accepts (Unicode `White_Space`).
pub open spec fn is_white_space(c: char) -> bool {
    ('\u{9}' <= c && c <= '\u{d}') || c == ' ' || c == '\u{85}' || c == '\u{a0}' || c
        == '\u{1680}' || ('\u{2000}' <= c && c <= '\u{200a}') || c == '\u{2028}' || c
        == '\u{2029}' || c == '\u{202f}' || c == '\u{205f}' || c == '\u{3000}'
}

pub fn white_space(c: char) -> (r: bool)
    ensures
        r == is_white_space(c),
{
    ('\u{9}' <= c && c <= '\u{d}') || c == ' ' || c == '\u{85}' || c == '\u{a0}' || c
        == '\u{1680}' || ('\u{2000}' <= c && c <= '\u{200a}') || c == '\u{2028}' || c
        == '\u{2029}' || c == '\u{202f}' || c == '\u{205f}' || c == '\u{3000}'
}

/// A whitespace-separated word of `s` starts at `i`.
pub open spec fn word_starts_at(s: Seq<char>, i: int) -> bool {
    &&& !is_white_space(s[i])
    &&& i == 0 || is_white_space(s[i - 1])
}

/// Where the first word that starts with an ASCII digit begins.
pub open spec fn first_numeric_word(s: Seq<char>) -> Option<int> {
    first_some(
        0,
        s.len() as int,
        |i: int| if word_starts_at(s, i) && '0' <= s[i] && s[i] <= '9' { Some(i) } else { None },
    )
}

/// Where the word starting at `i` ends.
pub open spec fn word_end(s: Seq<char>, i: int) -> int {
    match first_some(i, s.len() as int, |k: int| if is_white_space(s[k]) { Some(k) } else { None }) {
        Some(k) => k,
        None => s.len() as int,
    }
}

/// The Rust version within `rustc --version` output: its first word that
/// starts with a digit, else `unknown`.
pub open spec fn rust_version_of(s: Seq<char>) -> Seq<char> {
    match first_numeric_word(s) {
        Some(i) => s.subrange(i, word_end(s, i)),
        None => "unknown"@,
    }
}

/// The text of an optional value, else `unknown`.
pub open spec fn or_unknown(v: Option<Seq<char>>) -> Seq<char> {
    match v {
        Some(s) => s,
        None => "unknown"@,
    }
}

/// The view of an optional string.
pub open spec fn opt_view(v: Option<String>) -> Option<Seq<char>> {
    match v {
        Some(s) => Some(s@),
        None => None,
    }
}

/// The version banner for a package version, `rustc --version` output,
/// profile, dirty flag, git tag and commit hash.
pub open spec fn banner_text(
    pkg_version: Seq<char>,
    rustc_version: Seq<char>,
    profile: Seq<char>,
    git_dirty: Option<bool>,
    git_version: Option<Seq<char>>,
    git_commit_hash: Option<Seq<char>>,
) -> Seq<char> {
    let dirty = git_dirty == Some(true);
    let status = if dirty { "Modified"@ } else { "Clean"@ };
    let revision = or_unknown(git_commit_hash);
    let version = if dirty { revision + "-dirty"@ } else { revision };
    pkg_version + " version.BuildInfo{RustVersion:\""@ + rust_version_of(rustc_version)
        + "\", BuildProfile:\""@ + profile + "\", BuildStatus:\""@ + status + "\", GitTag:\""@
        + or_unknown(git_version) + "\", Version:\""@ + version + "\", GitRevision:\""@ + revision
        + "\"}"@
}

/// The version banner of a build.
pub open spec fn build_banner(info: BuildInfo) -> Seq<char> {
    banner_text(
        info.pkg_version@,
        info.rustc_version@,
        info.profile@,
        info.git_dirty,
        opt_view(info.git_version),
        opt_view(info.git_commit_hash),
    )
}

#[verifier::loop_isolation(false)]
fn rust_version(s: &str) -> (r: String)
    ensures
        r@ == rust_version_of(s@),
{
    let n = s.unicode_len();
    let ghost f = |i: int|
        if word_starts_at(s@, i) && '0' <= s@[i] && s@[i] <= '9' { Some(i) } else { None };
    let mut i: usize = 0;
    let mut after_space = true;
    while i < n
        invariant
            n == s@.len(),
            i <= n,
            f == (|i: int|
                if word_starts_at(s@, i) && '0' <= s@[i] && s@[i] <= '9' { Some(i) } else { None }),
            first_numeric_word(s@) == first_some(i as int, n as int, f),
            after_space == (i == 0 || is_white_space(s@[i - 1])),
        decreases n - i,
    {
        let c = s.get_char(i);
        let space = white_space(c);
        if !space && after_space && '0' <= c && c <= '9' {
            let ghost g = |k: int| if is_white_space(s@[k]) { Some(k) } else { None };
            let mut j: usize = i;
            while j < n && !white_space(s.get_char(j))
                invariant
                    n == s@.len(),
                    i <= j <= n,
                    g == (|k: int| if is_white_space(s@[k]) { Some(k) } else { None }),
                    first_some(i as int, n as int, g) == first_some(j as int, n as int, g),
                decreases n - j,
            {
                j = j + 1;
            }
            return String::from_str(s.substring_char(i, j));
        }
        after_space = space;
        i = i + 1;
    }
    String::from_str("unknown")
}

/// The version banner of `info`: package version, then the Rust version,
/// profile, clean or modified status, tag, version and revision.
pub fn format_build_info_from(info: &BuildInfo) -> (r: String)
    ensures
        r@ == build_banner(*info),
{
    let dirty = match info.git_dirty {
        Some(d) => d,
        None => false,
    };
    let revision = match &info.git_commit_hash {
        Some(h) => h.clone(),
        None => String::from_str("unknown"),
    };
    let tag = match &info.git_version {
        Some(t) => t.clone(),
        None => String::from_str("unknown"),
    };
    let mut version = revision.clone();
    if dirty {
        version.append("-dirty");
    }
    let mut out = info.pkg_version.clone();
    out.append(" version.BuildInfo{RustVersion:\"");
    out.append(rust_version(info.rustc_version.as_str()).as_str());
    out.append("\", BuildProfile:\"");
    out.append(info.profile.as_str());
    out.append("\", BuildStatus:\"");
    out.append(if dirty { "Modified" } else { "Clean" });
    out.append("\", GitTag:\"");
    out.append(tag.as_str());
    out.append("\", Version:\"");
    out.append(version.as_str());
    out.append("\", GitRevision:\"");
    out.append(revision.as_str());
    out.append("\"}");
    out
}

/// The version banner of this build. The toolchain, profile and git state
/// are not recorded in the library and read as unknown.
pub fn format_build_info() -> (r: String)
    ensures
        r@ == banner_text(PKG_VERSION@, "unknown"@, "unknown"@, None, None, None),
{
    let info = BuildInfo {
        pkg_version: String::from_str(PKG_VERSION),
        rustc_version: String::from_str("unknown"),
        profile: String::from_str("unknown"),
        git_dirty: None,
        git_version: None,
        git_commit_hash: None,
    };
    format_build_info_from(&info)
}

} // verus!
