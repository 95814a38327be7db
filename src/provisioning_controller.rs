//! Provisioning from a manifest: the decisions taken for each declared
//! component (which secrets to seed from where, where the synthesized policy
//! is staged, whether the fetched artifact matches its declared digest) and
//! the batch report that keeps one component's failure from stopping the
//! others.

use vstd::prelude::*;
use vstd::string::*;
use vstd::utf8::encode_utf8;
use vstd::wrapping::u64_specs;

use crate::manifest::{ComponentDeclaration, ProvisioningManifest};
use crate::text::{hex_fixed, push_hex, starts_with};

verus! {

/// Name of what the SHA-256 digest of `bytes` is in lowercase hex.
pub uninterp spec fn sha256_hex_of(bytes: Seq<u8>) -> Seq<char>;

/// Relies on `sha2::Sha256` through `Digest::digest`, formatted with the
/// `LowerHex` impl of the digest array: the result depends on the bytes alone.
#[verifier::external_body]
fn sha256_hex(bytes: &[u8]) -> (r: String)
    ensures
        r@ == sha256_hex_of(bytes@),
{
    format!("{:x}", <sha2::Sha256 as sha2::Digest>::digest(bytes))
}

/// The lowercase hex SHA-256 digest of `bytes`.
pub fn content_digest(bytes: &[u8]) -> (r: String)
    ensures
        r@ == sha256_hex_of(bytes@),
{
    sha256_hex(bytes)
}

/// The rolling hash `h = h * 31 + b` (wrapping) over `bytes`.
pub open spec fn rolling_hash(bytes: Seq<u8>) -> u64
    decreases bytes.len(),
{
    if bytes.len() == 0 {
        0
    } else {
        u64_specs::wrapping_add(
            u64_specs::wrapping_mul(rolling_hash(bytes.drop_last()), 31),
            bytes.last() as u64,
        )
    }
}

/// The rolling hash of the UTF-8 bytes of `s`, as 16 lowercase hex digits.
pub fn hash_string(s: &str) -> (r: String)
    ensures
        r@ == hex_fixed(rolling_hash(encode_utf8(s@)) as nat, 16),
{
    let bytes = s.as_bytes();
    let mut hash: u64 = 0;
    let mut i: usize = 0;
    while i < bytes.len()
        invariant
            i <= bytes@.len(),
            bytes@ == s.spec_bytes(),
            hash == rolling_hash(bytes@.subrange(0, i as int)),
        decreases bytes@.len() - i,
    {
        assert(bytes@.subrange(0, i + 1 as int).drop_last() =~= bytes@.subrange(0, i as int));
        hash = hash.wrapping_mul(31).wrapping_add(bytes[i] as u64);
        i = i + 1;
    }
    assert(bytes@.subrange(0, bytes@.len() as int) =~= bytes@);
    let mut out = String::new();
    push_hex(&mut out, hash, 16);
    out
}

/// Why an artifact does not match its declared digest.
#[derive(Debug, Clone, PartialEq, Eq)]
pub enum DigestError {
    /// The declared digest does not start with `sha256:`.
    Malformed { digest: String },
    /// The artifact's digest differs from the declared one.
    Mismatch { expected: String, actual: String },
}

/// The lowercase form of an ASCII character; others are unchanged.
pub open spec fn ascii_lower(c: char) -> char {
    if 'A' <= c && c <= 'Z' {
        ((c as u32 + 32) as u8) as char
    } else {
        c
    }
}

/// A declared `sha256:<hex>` digest names the lowercase hex digest `actual`:
/// the hex part equals it up to ASCII case.
pub open spec fn digest_names(declared: Seq<char>, actual: Seq<char>) -> bool {
    &&& has_sha256_prefix(declared)
    &&& declared.len() - 7 == actual.len()
    &&& forall|i: int| 0 <= i < actual.len() ==> ascii_lower(#[trigger] declared[i + 7]) == actual[i]
}

/// The text starts with `sha256:`.
pub open spec fn has_sha256_prefix(declared: Seq<char>) -> bool {
    crate::text::has_prefix(declared, "sha256:"@)
}

/// Whether the declared digest `expected` (`sha256:<hex>`) names the lowercase
/// hex digest `actual`.
#[verifier::loop_isolation(false)]
pub fn digest_matches(expected: &str, actual: &str) -> (r: bool)
    ensures
        r == digest_names(expected@, actual@),
{
    if !starts_with(expected, "sha256:") {
        return false;
    }
    proof {
        reveal_strlit("sha256:");
    }
    let n = expected.unicode_len();
    let m = actual.unicode_len();
    if n - 7 != m {
        return false;
    }
    let mut i: usize = 0;
    while i < m
        invariant
            n == expected@.len(),
            m == actual@.len(),
            n - 7 == m,
            i <= m,
            forall|j: int| 0 <= j < i ==> ascii_lower(#[trigger] expected@[j + 7]) == actual@[j],
        decreases m - i,
    {
        let c = expected.get_char(i + 7);
        let lower = if 'A' <= c && c <= 'Z' {
            ((c as u32 + 32) as u8) as char
        } else {
            c
        };
        if lower != actual.get_char(i) {
            assert(ascii_lower(expected@[i + 7]) != actual@[i as int]);
            return false;
        }
        i = i + 1;
    }
    true
}

/// Drives provisioning of a manifest: the caller performs each component's
/// outside work and records its outcome here.
pub struct ProvisioningController<'a> {
    manifest: &'a ProvisioningManifest,
    plugin_dir: String,
    next: usize,
    failures: Vec<ProvisionFailure>,
}

/// One component that failed to provision.
#[derive(Debug, Clone, PartialEq, Eq)]
pub struct ProvisionFailure {
    /// The component's name, or its URI when it has none.
    pub component: String,
    /// What went wrong.
    pub reason: String,
}

/// The name under which a component is reported: its declared name, else its URI.
pub open spec fn display_name(c: ComponentDeclaration) -> Seq<char> {
    match c.name {
        Some(n) => n@,
        None => c.uri@,
    }
}

/// Where a secret is read from: the environment variable `value_from` names,
/// else the variable named like the key.
pub open spec fn secret_source(key: String, value_from: Option<String>) -> Seq<char> {
    match value_from {
        Some(v) => v@,
        None => key@,
    }
}

/// The file name under which a component's synthesized policy is staged.
pub open spec fn staged_policy_name(hash: Seq<char>) -> Seq<char> {
    "temp_"@ + hash + ".policy.yaml"@
}

/// One secret to seed: the key the component sees and the host variable it
/// is read from.
#[derive(Debug, Clone, PartialEq, Eq)]
pub struct SecretSource {
    /// Key as the component sees it.
    pub key: String,
    /// Host environment variable holding the value.
    pub variable: String,
}

impl<'a> ProvisioningController<'a> {
    /// The manifest being provisioned.
    pub closed spec fn manifest_spec(&self) -> ProvisioningManifest {
        *self.manifest
    }

    /// Index of the next component to provision.
    pub closed spec fn next_spec(&self) -> int {
        self.next as int
    }

    /// Failures recorded so far, in order.
    pub closed spec fn failures_spec(&self) -> Seq<ProvisionFailure> {
        self.failures@
    }

    /// Directory where policies are staged.
    pub closed spec fn plugin_dir_spec(&self) -> Seq<char> {
        self.plugin_dir@
    }

    /// Well-formed: the next index does not pass the last component.
    pub closed spec fn wf(&self) -> bool {
        self.next <= self.manifest.components@.len()
    }

    /// A controller for `manifest`, staging policies under `plugin_dir`, with
    /// no component provisioned yet.
    pub fn new(manifest: &'a ProvisioningManifest, plugin_dir: &str) -> (r: Self)
        ensures
            r.wf(),
            r.manifest_spec() == *manifest,
            r.plugin_dir_spec() == plugin_dir@,
            r.next_spec() == 0,
            r.failures_spec().len() == 0,
    {
        ProvisioningController {
            manifest,
            plugin_dir: String::from_str(plugin_dir),
            next: 0,
            failures: Vec::new(),
        }
    }

    /// The component to provision next, if any is left.
    pub fn current(&self) -> (r: Option<&'a ComponentDeclaration>)
        requires
            self.wf(),
        ensures
            self.next_spec() < self.manifest_spec().components@.len() ==> r == Some(
                &self.manifest_spec().components@[self.next_spec()],
            ),
            self.next_spec() == self.manifest_spec().components@.len() ==> r is None,
    {
        if self.next < self.manifest.components.len() {
            Some(&self.manifest.components[self.next])
        } else {
            None
        }
    }

    /// Records the outcome of the current component and moves to the next
    /// one; a failure is kept under the component's display name.
    pub fn record(&mut self, outcome: Result<(), String>)
        requires
            old(self).wf(),
            old(self).next_spec() < old(self).manifest_spec().components@.len(),
        ensures
            final(self).wf(),
            final(self).manifest_spec() == old(self).manifest_spec(),
            final(self).plugin_dir_spec() == old(self).plugin_dir_spec(),
            final(self).next_spec() == old(self).next_spec() + 1,
            match outcome {
                Ok(()) => final(self).failures_spec() == old(self).failures_spec(),
                Err(reason) => final(self).failures_spec().len() == old(self).failures_spec().len()
                    + 1 && final(self).failures_spec().drop_last() == old(self).failures_spec()
                    && final(self).failures_spec().last().reason == reason
                    && final(self).failures_spec().last().component@ == display_name(
                    old(self).manifest_spec().components@[old(self).next_spec()],
                ),
            },
    {
        let count = self.manifest.components.len();
        let c = &self.manifest.components[self.next];
        if let Err(reason) = outcome {
            let component = match &c.name {
                Some(n) => n.clone(),
                None => c.uri.clone(),
            };
            self.failures.push(ProvisionFailure { component, reason });
            assert(self.failures@.drop_last() =~= old(self).failures@);
        }
        assert(self.next < count);
        self.next = self.next + 1;
    }

    /// Ends provisioning: `Ok` when no component failed, else every failure
    /// in order.
    pub fn finish(self) -> (r: Result<(), Vec<ProvisionFailure>>)
        ensures
            self.failures_spec().len() == 0 ==> r is Ok,
            self.failures_spec().len() > 0 ==> r is Err && r->Err_0@ == self.failures_spec(),
    {
        if self.failures.len() == 0 {
            Ok(())
        } else {
            Err(self.failures)
        }
    }

    /// The secrets to seed for `component`: one per environment rule, in
    /// order, read from `value_from` when given, else from the key itself.
    pub fn secret_sources(&self, component: &ComponentDeclaration) -> (r: Vec<SecretSource>)
        ensures
            match component.permissions.environment {
                None => r@.len() == 0,
                Some(e) => r@.len() == e.allow@.len() && forall|i: int|
                    0 <= i < r@.len() ==> (#[trigger] r@[i]).key == e.allow@[i].key && r@[i].variable@
                        == secret_source(e.allow@[i].key, e.allow@[i].value_from),
            },
    {
        let mut out: Vec<SecretSource> = Vec::new();
        if let Some(env) = &component.permissions.environment {
            let mut i: usize = 0;
            while i < env.allow.len()
                invariant
                    component.permissions.environment == Some(*env),
                    i <= env.allow@.len(),
                    out@.len() == i,
                    forall|j: int|
                        0 <= j < i ==> (#[trigger] out@[j]).key == env.allow@[j].key && out@[j].variable@
                            == secret_source(env.allow@[j].key, env.allow@[j].value_from),
                decreases env.allow@.len() - i,
            {
                let rule = &env.allow[i];
                let variable = match &rule.value_from {
                    Some(v) => v.clone(),
                    None => rule.key.clone(),
                };
                out.push(SecretSource { key: rule.key.clone(), variable });
                i = i + 1;
            }
        }
        out
    }

    /// The file name under which the synthesized policy of `component` is
    /// staged: `temp_<hash of the URI>.policy.yaml`.
    pub fn policy_file_name(&self, component: &ComponentDeclaration) -> (r: String)
        ensures
            r@ == staged_policy_name(hex_fixed(rolling_hash(encode_utf8(component.uri@)) as nat, 16)),
    {
        let hash = hash_string(component.uri.as_str());
        let mut name = String::from_str("temp_");
        name.append(hash.as_str());
        name.append(".policy.yaml");
        name
    }

    /// Checks a fetched artifact against the digest that `component`
    /// declares as `expected_digest`.
    pub fn verify_digest(
        &self,
        component: &ComponentDeclaration,
        expected_digest: &str,
        artifact: &[u8],
    ) -> (r: Result<(), DigestError>)
        ensures
            !has_sha256_prefix(expected_digest@) ==> r is Err && r->Err_0 is Malformed,
            has_sha256_prefix(expected_digest@) ==> (r is Ok <==> digest_names(
                expected_digest@,
                sha256_hex_of(artifact@),
            )),
            has_sha256_prefix(expected_digest@) && r is Err ==> r->Err_0 is Mismatch,
            r matches Err(DigestError::Mismatch { expected, actual }) ==> expected@
                == expected_digest@ && actual@ == sha256_hex_of(artifact@),
    {
        if !starts_with(expected_digest, "sha256:") {
            return Err(DigestError::Malformed { digest: String::from_str(expected_digest) });
        }
        let actual = content_digest(artifact);
        if digest_matches(expected_digest, actual.as_str()) {
            Ok(())
        } else {
            Err(DigestError::Mismatch { expected: String::from_str(expected_digest), actual })
        }
    }
}

} // verus!
