//! Component references: `file://`, `https://` and `oci://` URIs, and the
//! component id derived from each.

use vstd::prelude::*;
use vstd::string::*;

use crate::env_file::{last_some, lemma_last_some_found};
use crate::manifest::{first_some, lemma_first_some_found};
use crate::text::{has_prefix, starts_with};

verus! {

/// Where a component comes from.
#[derive(Debug, Clone, PartialEq, Eq)]
pub enum ComponentReference {
    /// A local file.
    File { path: String },
    /// An HTTPS URL.
    Https { url: String },
    /// An OCI artifact: registry host, repository path, and tag or digest.
    Oci { registry: String, repository: String, reference: String },
}

/// Why a reference does not resolve.
#[derive(Debug, Clone, PartialEq, Eq)]
pub enum ReferenceError {
    /// The scheme is none of `file://`, `https://`, `oci://`.
    UnsupportedScheme { reference: String },
    /// The scheme is known but the rest is malformed.
    InvalidReference { reference: String },
}

/// The index `i` itself where `s` holds `c`.
pub open spec fn at_char(s: Seq<char>, c: char) -> spec_fn(int) -> Option<int> {
    |i: int| if s[i] == c { Some(i) } else { None }
}

/// The index of the last `c` in `s[lo..hi)`.
pub open spec fn last_index(s: Seq<char>, c: char, lo: int, hi: int) -> Option<int> {
    last_some(lo, hi, at_char(s, c))
}

/// The index of the first `c` in `s[lo..hi)`.
pub open spec fn first_index(s: Seq<char>, c: char, lo: int, hi: int) -> Option<int> {
    first_some(lo, hi, at_char(s, c))
}

fn find_last(s: &str, c: char, lo: usize, hi: usize) -> (r: Option<usize>)
    requires
        lo <= hi <= s@.len(),
    ensures
        match r {
            Some(k) => last_index(s@, c, lo as int, hi as int) == Some(k as int),
            None => last_index(s@, c, lo as int, hi as int) is None,
        },
        r matches Some(i) ==> lo <= i < hi && s@[i as int] == c,
{
    let ghost f = at_char(s@, c);
    proof {
        lemma_last_some_found(lo as int, hi as int, f);
    }
    let mut i: usize = hi;
    while i > lo
        invariant
            lo <= i <= hi <= s@.len(),
            f == at_char(s@, c),
            last_index(s@, c, lo as int, hi as int) == last_some(lo as int, i as int, f),
        decreases i,
    {
        if s.get_char(i - 1) == c {
            return Some(i - 1);
        }
        i = i - 1;
    }
    None
}

fn find_first(s: &str, c: char, lo: usize, hi: usize) -> (r: Option<usize>)
    requires
        lo <= hi <= s@.len(),
    ensures
        match r {
            Some(k) => first_index(s@, c, lo as int, hi as int) == Some(k as int),
            None => first_index(s@, c, lo as int, hi as int) is None,
        },
        r matches Some(i) ==> lo <= i < hi && s@[i as int] == c,
{
    let ghost f = at_char(s@, c);
    proof {
        lemma_first_some_found(lo as int, hi as int, f);
    }
    let mut i: usize = lo;
    while i < hi
        invariant
            lo <= i <= hi <= s@.len(),
            f == at_char(s@, c),
            first_index(s@, c, lo as int, hi as int) == first_some(i as int, hi as int, f),
        decreases hi - i,
    {
        if s.get_char(i) == c {
            return Some(i);
        }
        i = i + 1;
    }
    None
}

/// Where the last path segment of an OCI repository starts, the
/// repository beginning at `path_start`.
pub open spec fn oci_leaf_start(rest: Seq<char>, path_start: int) -> int {
    match last_index(rest, '/', path_start, rest.len() as int) {
        Some(k) => k + 1,
        None => path_start,
    }
}

/// Repository and tag or digest of an OCI path that begins at `path_start`.
pub open spec fn oci_path_parts(rest: Seq<char>, path_start: int) -> (Seq<char>, Seq<char>) {
    match first_index(rest, '@', path_start, rest.len() as int) {
        Some(at) => (rest.subrange(path_start, at), rest.subrange(at + 1, rest.len() as int)),
        None => match last_index(rest, ':', oci_leaf_start(rest, path_start), rest.len() as int) {
            Some(colon) => (rest.subrange(path_start, colon), rest.subrange(colon + 1, rest.len() as int)),
            None => (rest.subrange(path_start, rest.len() as int), "latest"@),
        },
    }
}

/// How an OCI location `rest` (after `oci://`) splits into registry,
/// repository and tag or digest: `registry/repository@digest`, or
/// `registry/repository:tag` with the tag after the last `:` of the last
/// path segment, else the tag `latest`. Each part must be non-empty.
pub open spec fn oci_parts(rest: Seq<char>) -> Option<(Seq<char>, Seq<char>, Seq<char>)> {
    match first_index(rest, '/', 0, rest.len() as int) {
        None => None,
        Some(slash) => {
            let registry = rest.subrange(0, slash);
            let parts = oci_path_parts(rest, slash + 1);
            if registry.len() == 0 || parts.0.len() == 0 || parts.1.len() == 0 {
                None
            } else {
                Some((registry, parts.0, parts.1))
            }
        },
    }
}

/// The reference `r` reads `s`.
pub open spec fn resolves_to(s: Seq<char>, r: ComponentReference) -> bool {
    match r {
        ComponentReference::File { path } => has_prefix(s, "file://"@) && path@ == s.subrange(
            7,
            s.len() as int,
        ) && path@.len() > 0,
        ComponentReference::Https { url } => has_prefix(s, "https://"@) && url@ == s && s.len()
            > 8,
        ComponentReference::Oci { registry, repository, reference } => has_prefix(s, "oci://"@)
            && oci_parts(s.subrange(6, s.len() as int)) == Some(
            (registry@, repository@, reference@),
        ),
    }
}

/// The reference is well formed once its scheme is known.
pub open spec fn well_formed(s: Seq<char>) -> bool {
    if has_prefix(s, "file://"@) {
        s.len() > 7
    } else if has_prefix(s, "https://"@) {
        s.len() > 8
    } else if has_prefix(s, "oci://"@) {
        oci_parts(s.subrange(6, s.len() as int)) is Some
    } else {
        false
    }
}

/// The scheme is one of `file://`, `https://`, `oci://`.
pub open spec fn known_scheme(s: Seq<char>) -> bool {
    has_prefix(s, "file://"@) || has_prefix(s, "https://"@) || has_prefix(s, "oci://"@)
}

fn substring(s: &str, from: usize, to: usize) -> (r: String)
    requires
        from <= to <= s@.len(),
    ensures
        r@ == s@.subrange(from as int, to as int),
{
    String::from_str(s.substring_char(from, to))
}

/// Parses a component reference.
#[verifier::loop_isolation(false)]
pub fn parse_reference(s: &str) -> (r: Result<ComponentReference, ReferenceError>)
    ensures
        !known_scheme(s@) ==> (r is Err && r->Err_0 is UnsupportedScheme
            && r->Err_0->UnsupportedScheme_reference@ == s@),
        known_scheme(s@) && !well_formed(s@) ==> (r is Err && r->Err_0 is InvalidReference
            && r->Err_0->InvalidReference_reference@ == s@),
        known_scheme(s@) && well_formed(s@) ==> (r is Ok && resolves_to(s@, r->Ok_0)),
{
    proof {
        reveal_strlit("file://");
        reveal_strlit("https://");
        reveal_strlit("oci://");
    }
    let n = s.unicode_len();
    if starts_with(s, "file://") {
        if n > 7 {
            return Ok(ComponentReference::File { path: substring(s, 7, n) });
        }
        return Err(ReferenceError::InvalidReference { reference: String::from_str(s) });
    }
    if starts_with(s, "https://") {
        if n > 8 {
            return Ok(ComponentReference::Https { url: String::from_str(s) });
        }
        return Err(ReferenceError::InvalidReference { reference: String::from_str(s) });
    }
    if !starts_with(s, "oci://") {
        return Err(ReferenceError::UnsupportedScheme { reference: String::from_str(s) });
    }
    let rest_text = substring(s, 6, n);
    let rest = rest_text.as_str();
    let m = rest.unicode_len();
    let slash = match find_first(rest, '/', 0, m) {
        Some(k) => k,
        None => {
            return Err(ReferenceError::InvalidReference { reference: String::from_str(s) });
        },
    };
    let path_start = slash + 1;
    let registry = substring(rest, 0, slash);
    let (repository, reference) = match find_first(rest, '@', path_start, m) {
        Some(at) => (substring(rest, path_start, at), substring(rest, at + 1, m)),
        None => {
            let leaf_start = match find_last(rest, '/', path_start, m) {
                Some(k) => k + 1,
                None => path_start,
            };
            assert(leaf_start == oci_leaf_start(rest@, path_start as int));
            match find_last(rest, ':', leaf_start, m) {
                Some(colon) => (substring(rest, path_start, colon), substring(rest, colon + 1, m)),
                None => (substring(rest, path_start, m), String::from_str("latest")),
            }
        },
    };
    assert((repository@, reference@) == oci_path_parts(rest@, path_start as int));
    if registry.unicode_len() == 0 || repository.unicode_len() == 0 || reference.unicode_len()
        == 0 {
        return Err(ReferenceError::InvalidReference { reference: String::from_str(s) });
    }
    assert(rest@ == s@.subrange(6, n as int));
    assert(oci_parts(rest@) == Some((registry@, repository@, reference@)));
    Ok(ComponentReference::Oci { registry, repository, reference })
}

/// A character of a component id: ASCII letters lowercased, digits, `-`
/// and `_` kept, anything else `_`.
pub open spec fn id_char(c: char) -> char {
    if 'A' <= c && c <= 'Z' {
        ((c as u32 + 32) as u8) as char
    } else if ('a' <= c && c <= 'z') || ('0' <= c && c <= '9') || c == '-' || c == '_' {
        c
    } else {
        '_'
    }
}

/// `s` with every character made file-safe.
pub open spec fn sanitized(s: Seq<char>) -> Seq<char> {
    s.map_values(|c: char| id_char(c))
}

/// Where the last `/`-separated segment of `s` starts.
pub open spec fn leaf_start(s: Seq<char>) -> int {
    match last_index(s, '/', 0, s.len() as int) {
        Some(k) => k + 1,
        None => 0,
    }
}

/// Where the last segment of `s` ends without its extension (from its last
/// `.` on), unless that would leave nothing.
pub open spec fn stem_end(s: Seq<char>) -> int {
    match last_index(s, '.', leaf_start(s), s.len() as int) {
        Some(k) => if k > leaf_start(s) {
            k
        } else {
            s.len() as int
        },
        None => s.len() as int,
    }
}

/// The id of a file path or URL: its last segment without extension.
pub open spec fn path_id(s: Seq<char>) -> Seq<char> {
    sanitized(s.subrange(leaf_start(s), stem_end(s)))
}

/// The id of an OCI repository: `<parent>_<name>` of its last two segments,
/// or its only segment.
pub open spec fn repository_id(r: Seq<char>) -> Seq<char> {
    match last_index(r, '/', 0, r.len() as int) {
        Some(p) => {
            let q = match last_index(r, '/', 0, p) {
                Some(q) => q + 1,
                None => 0,
            };
            sanitized(r.subrange(q, p) + "_"@ + r.subrange(p + 1, r.len() as int))
        },
        None => sanitized(r),
    }
}

/// The component id of a reference: file-safe and lowercase, never the
/// registry or tag.
pub open spec fn component_id_of(r: ComponentReference) -> Seq<char> {
    match r {
        ComponentReference::File { path } => path_id(path@),
        ComponentReference::Https { url } => path_id(url@),
        ComponentReference::Oci { repository, .. } => repository_id(repository@),
    }
}

fn push_sanitized(out: &mut String, s: &str, from: usize, to: usize)
    requires
        from <= to <= s@.len(),
    ensures
        final(out)@ == old(out)@ + sanitized(s@.subrange(from as int, to as int)),
{
    let mut i: usize = from;
    while i < to
        invariant
            from <= i <= to <= s@.len(),
            out@ == old(out)@ + sanitized(s@.subrange(from as int, i as int)),
        decreases to - i,
    {
        let c = s.get_char(i);
        let d = if 'A' <= c && c <= 'Z' {
            ((c as u32 + 32) as u8) as char
        } else if ('a' <= c && c <= 'z') || ('0' <= c && c <= '9') || c == '-' || c == '_' {
            c
        } else {
            '_'
        };
        out.push(d);
        i = i + 1;
        assert(sanitized(s@.subrange(from as int, i as int)) =~= sanitized(
            s@.subrange(from as int, i - 1 as int),
        ).push(id_char(c)));
        assert(out@ =~= old(out)@ + sanitized(s@.subrange(from as int, i as int)));
    }
}

fn path_id_exec(s: &str) -> (r: String)
    ensures
        r@ == path_id(s@),
{
    let n = s.unicode_len();
    let start = match find_last(s, '/', 0, n) {
        Some(k) => k + 1,
        None => 0,
    };
    assert(start == leaf_start(s@));
    let end = match find_last(s, '.', start, n) {
        Some(k) => if k > start {
            k
        } else {
            n
        },
        None => n,
    };
    assert(end == stem_end(s@));
    let mut out = String::new();
    push_sanitized(&mut out, s, start, end);
    assert(out@ =~= path_id(s@));
    out
}

fn repository_id_exec(r: &str) -> (out: String)
    ensures
        out@ == repository_id(r@),
{
    let n = r.unicode_len();
    match find_last(r, '/', 0, n) {
        None => {
            let mut out = String::new();
            push_sanitized(&mut out, r, 0, n);
            assert(r@.subrange(0, n as int) =~= r@);
            assert(out@ =~= repository_id(r@));
            out
        },
        Some(p) => {
            let q = match find_last(r, '/', 0, p) {
                Some(q) => q + 1,
                None => 0,
            };
            let mut out = String::new();
            push_sanitized(&mut out, r, q, p);
            out.push('_');
            push_sanitized(&mut out, r, p + 1, n);
            proof {
                reveal_strlit("_");
                let a = r@.subrange(q as int, p as int);
                let b = r@.subrange(p + 1, n as int);
                assert(sanitized(a + "_"@ + b) =~= sanitized(a) + seq!['_'] + sanitized(b));
                assert(out@ =~= sanitized(a) + seq!['_'] + sanitized(b));
            }
            out
        },
    }
}

/// The component id of a reference.
pub fn component_id(r: &ComponentReference) -> (id: String)
    ensures
        id@ == component_id_of(*r),
{
    match r {
        ComponentReference::File { path } => path_id_exec(path.as_str()),
        ComponentReference::Https { url } => path_id_exec(url.as_str()),
        ComponentReference::Oci { repository, .. } => repository_id_exec(repository.as_str()),
    }
}

} // verus!
