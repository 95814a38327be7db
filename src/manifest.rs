//! Provisioning manifests: the declarative list of components to load at
//! start-up, with their inline permissions, and the rules that make one
//! valid.

use vstd::prelude::*;
use vstd::string::*;

use crate::text::{has_prefix, is_hex_char, is_hex_digit, starts_with};

verus! {

/// Provisioning manifest for headless deployment.
#[derive(Debug, Clone)]
pub struct ProvisioningManifest {
    /// Manifest schema version.
    pub version: u32,
    /// Components to provision, in order.
    pub components: Vec<ComponentDeclaration>,
}

/// One component declared in a manifest.
#[derive(Debug, Clone)]
pub struct ComponentDeclaration {
    /// Component URI (`file://`, `oci://`, `https://`, `http://`).
    pub uri: String,
    /// Optional name for logging and identification.
    pub name: Option<String>,
    /// Optional SHA-256 digest, written `sha256:<hex>`.
    pub digest: Option<String>,
    /// Inline permissions.
    pub permissions: InlinePermissions,
    /// Optional retry policy.
    pub retry_policy: Option<RetryPolicy>,
}

/// Inline permission declarations of a component.
#[derive(Debug, Clone)]
pub struct InlinePermissions {
    /// Network permissions.
    pub network: Option<NetworkPermissions>,
    /// Storage (filesystem) permissions.
    pub storage: Option<StoragePermissions>,
    /// Environment variable permissions.
    pub environment: Option<EnvironmentPermissions>,
    /// Memory and resource limits.
    pub resources: Option<ResourceLimits>,
}

/// Network access permissions.
#[derive(Debug, Clone)]
pub struct NetworkPermissions {
    /// Allowed hosts.
    pub allow: Vec<NetworkRule>,
}

/// One allowed host.
#[derive(Debug, Clone)]
pub struct NetworkRule {
    /// Host to allow (e.g. `api.example.com`).
    pub host: String,
}

/// Storage access permissions.
#[derive(Debug, Clone)]
pub struct StoragePermissions {
    /// Allowed filesystem locations.
    pub allow: Vec<StorageRule>,
}

/// One allowed filesystem location.
#[derive(Debug, Clone)]
pub struct StorageRule {
    /// URI of the location (e.g. `fs:///tmp/workspace`).
    pub uri: String,
    /// Access types granted.
    pub access: Vec<AccessType>,
}

/// Storage access type.
#[derive(Debug, Clone, Copy, PartialEq, Eq, Structural)]
pub enum AccessType {
    Read,
    Write,
}

/// Environment variable permissions.
#[derive(Debug, Clone)]
pub struct EnvironmentPermissions {
    /// Allowed variables.
    pub allow: Vec<EnvironmentRule>,
}

/// One allowed environment variable.
#[derive(Debug, Clone)]
pub struct EnvironmentRule {
    /// Variable key as the component sees it.
    pub key: String,
    /// Optional name of the host variable the value is read from.
    pub value_from: Option<String>,
}

/// Resource limits.
#[derive(Debug, Clone)]
pub struct ResourceLimits {
    /// Memory limit in bytes.
    pub memory_bytes: Option<u64>,
    /// CPU time limit in milliseconds.
    pub cpu_time_ms: Option<u64>,
}

/// Retry policy.
#[derive(Debug, Clone)]
pub struct RetryPolicy {
    /// Number of retry attempts.
    pub attempts: u32,
    /// Backoff strategy.
    pub backoff: BackoffStrategy,
}

/// Backoff strategy for retries.
#[derive(Debug, Clone)]
pub enum BackoffStrategy {
    Exponential { base_ms: u64 },
    Linear { increment_ms: u64 },
}

/// Why a set of inline permissions is invalid.
#[derive(Debug, Clone, PartialEq, Eq)]
pub enum PermissionError {
    /// No permission class is present.
    NoPermissionClass,
    /// The network `allow` list is empty.
    EmptyNetworkAllow,
    /// A network rule has an empty host.
    EmptyHost,
    /// The storage `allow` list is empty.
    EmptyStorageAllow,
    /// A storage rule has an empty URI.
    EmptyStorageUri,
    /// A storage URI does not start with `fs://`.
    StorageUriNotFs { uri: String },
    /// A storage rule grants no access type.
    EmptyAccess,
    /// The environment `allow` list is empty.
    EmptyEnvironmentAllow,
    /// An environment rule has an empty key.
    EmptyEnvKey,
    /// An environment key appears twice.
    DuplicateEnvKey { key: String },
}

/// Why a component declaration is invalid.
#[derive(Debug, Clone, PartialEq, Eq)]
pub enum DeclarationError {
    /// The URI is empty.
    EmptyUri,
    /// The URI starts with none of the accepted schemes.
    UnsupportedScheme { uri: String },
    /// The digest does not start with `sha256:`.
    DigestPrefix { digest: String },
    /// The hex part of the digest does not have 64 characters.
    DigestLength { len: usize },
    /// The hex part of the digest holds a character that is not a hex digit.
    DigestNotHex,
    /// The inline permissions are invalid.
    Permissions(PermissionError),
}

/// Why a manifest is invalid.
#[derive(Debug, Clone, PartialEq, Eq)]
pub enum ManifestError {
    /// The version is not 1.
    UnsupportedVersion { version: u32 },
    /// The manifest declares no component.
    NoComponents,
    /// Some URIs are declared more than once: each repeated occurrence, in order.
    DuplicateUris { uris: Vec<String> },
    /// The component at `index` is invalid.
    InvalidComponent { index: usize, error: DeclarationError },
}

/// `Ok` when there is no error, else the error.
pub open spec fn as_result<E>(e: Option<E>) -> Result<(), E> {
    match e {
        Some(err) => Err(err),
        None => Ok(()),
    }
}

/// The value of `f` at the first index in `lo..hi` where it is `Some`.
pub open spec fn first_some<E>(lo: int, hi: int, f: spec_fn(int) -> Option<E>) -> Option<E>
    decreases hi - lo,
{
    if lo >= hi {
        None
    } else if f(lo) is Some {
        f(lo)
    } else {
        first_some(lo + 1, hi, f)
    }
}

/// A found value comes from an index of the range where `f` gives it.
pub proof fn lemma_first_some_found<E>(lo: int, hi: int, f: spec_fn(int) -> Option<E>)
    ensures
        first_some(lo, hi, f) is Some ==> exists|k: int|
            lo <= k < hi && #[trigger] f(k) == first_some(lo, hi, f),
    decreases hi - lo,
{
    if lo < hi {
        lemma_first_some_found(lo + 1, hi, f);
    }
}

/// The error of one network rule.
pub open spec fn network_rule_error(r: NetworkRule) -> Option<PermissionError> {
    if r.host@.len() == 0 {
        Some(PermissionError::EmptyHost)
    } else {
        None
    }
}

/// The error of a network permission class.
pub open spec fn network_error(n: NetworkPermissions) -> Option<PermissionError> {
    if n.allow@.len() == 0 {
        Some(PermissionError::EmptyNetworkAllow)
    } else {
        first_some(0, n.allow@.len() as int, |i: int| network_rule_error(n.allow@[i]))
    }
}

/// The error of one storage rule.
pub open spec fn storage_rule_error(r: StorageRule) -> Option<PermissionError> {
    if r.uri@.len() == 0 {
        Some(PermissionError::EmptyStorageUri)
    } else if !has_prefix(r.uri@, "fs://"@) {
        Some(PermissionError::StorageUriNotFs { uri: r.uri })
    } else if r.access@.len() == 0 {
        Some(PermissionError::EmptyAccess)
    } else {
        None
    }
}

/// The error of a storage permission class.
pub open spec fn storage_error(s: StoragePermissions) -> Option<PermissionError> {
    if s.allow@.len() == 0 {
        Some(PermissionError::EmptyStorageAllow)
    } else {
        first_some(0, s.allow@.len() as int, |i: int| storage_rule_error(s.allow@[i]))
    }
}

/// The error of the environment rule at index `i`: an empty key, or a key
/// that an earlier rule already declared.
pub open spec fn env_rule_error(rules: Seq<EnvironmentRule>, i: int) -> Option<PermissionError> {
    if rules[i].key@.len() == 0 {
        Some(PermissionError::EmptyEnvKey)
    } else if exists|j: int| 0 <= j < i && rules[j].key@ == rules[i].key@ {
        Some(PermissionError::DuplicateEnvKey { key: rules[i].key })
    } else {
        None
    }
}

/// The error of an environment permission class.
pub open spec fn environment_error(e: EnvironmentPermissions) -> Option<PermissionError> {
    if e.allow@.len() == 0 {
        Some(PermissionError::EmptyEnvironmentAllow)
    } else {
        first_some(0, e.allow@.len() as int, |i: int| env_rule_error(e.allow@, i))
    }
}

/// The error of a set of inline permissions: none of the four classes is
/// present, or the first invalid class in the order network, storage,
/// environment.
pub open spec fn permissions_error(p: InlinePermissions) -> Option<PermissionError> {
    if p.network is None && p.storage is None && p.environment is None && p.resources is None {
        Some(PermissionError::NoPermissionClass)
    } else {
        let net = match p.network {
            Some(n) => network_error(n),
            None => None,
        };
        let sto = match p.storage {
            Some(s) => storage_error(s),
            None => None,
        };
        let env = match p.environment {
            Some(e) => environment_error(e),
            None => None,
        };
        if net is Some {
            net
        } else if sto is Some {
            sto
        } else {
            env
        }
    }
}

/// The URI starts with one of the accepted schemes.
pub open spec fn has_accepted_scheme(uri: Seq<char>) -> bool {
    has_prefix(uri, "file://"@) || has_prefix(uri, "oci://"@) || has_prefix(uri, "https://"@)
        || has_prefix(uri, "http://"@)
}

/// The error of a declared digest, which must read `sha256:` and 64 hex digits.
pub open spec fn digest_error(digest: String) -> Option<DeclarationError> {
    let d = digest@;
    if !has_prefix(d, "sha256:"@) {
        Some(DeclarationError::DigestPrefix { digest })
    } else if d.len() - 7 != 64 {
        Some(DeclarationError::DigestLength { len: (d.len() - 7) as usize })
    } else if !(forall|i: int| 7 <= i < d.len() ==> is_hex_char(#[trigger] d[i])) {
        Some(DeclarationError::DigestNotHex)
    } else {
        None
    }
}

/// The error of a component declaration: URI first, then digest, then
/// permissions.
pub open spec fn declaration_error(c: ComponentDeclaration) -> Option<DeclarationError> {
    if c.uri@.len() == 0 {
        Some(DeclarationError::EmptyUri)
    } else if !has_accepted_scheme(c.uri@) {
        Some(DeclarationError::UnsupportedScheme { uri: c.uri })
    } else if c.digest is Some && digest_error(c.digest->0) is Some {
        digest_error(c.digest->0)
    } else {
        match permissions_error(c.permissions) {
            Some(e) => Some(DeclarationError::Permissions(e)),
            None => None,
        }
    }
}

/// The URIs among the first `k` components that an earlier component already
/// declared, one entry per repeated occurrence, in order.
pub open spec fn duplicate_uris(cs: Seq<ComponentDeclaration>, k: int) -> Seq<Seq<char>>
    decreases k,
{
    if k <= 0 {
        Seq::empty()
    } else {
        let rest = duplicate_uris(cs, k - 1);
        if exists|j: int| 0 <= j < k - 1 && (#[trigger] cs[j]).uri@ == cs[k - 1].uri@ {
            rest.push(cs[k - 1].uri@)
        } else {
            rest
        }
    }
}

/// The error of the first invalid component, with its index.
pub open spec fn first_invalid_component(cs: Seq<ComponentDeclaration>) -> Option<ManifestError> {
    first_some(
        0,
        cs.len() as int,
        |i: int|
            match declaration_error(cs[i]) {
                Some(e) => Some(ManifestError::InvalidComponent { index: i as usize, error: e }),
                None => None,
            },
    )
}

/// A manifest is valid: version 1, at least one component, no URI twice and
/// every declaration valid.
pub open spec fn manifest_valid(m: ProvisioningManifest) -> bool {
    &&& m.version == 1
    &&& m.components@.len() > 0
    &&& duplicate_uris(m.components@, m.components@.len() as int).len() == 0
    &&& first_invalid_component(m.components@) is None
}

/// Whether `uris` holds, in order, the strings whose views are `expected`.
pub open spec fn views_are(uris: Seq<String>, expected: Seq<Seq<char>>) -> bool {
    uris.len() == expected.len() && forall|i: int| 0 <= i < uris.len() ==> #[trigger] uris[i]@
        == expected[i]
}

impl InlinePermissions {
    /// Checks the inline permissions: at least one class present; a present
    /// network, storage or environment class has a non-empty `allow` list;
    /// hosts, storage URIs and environment keys are non-empty; storage URIs
    /// start with `fs://` and grant some access; environment keys are unique.
    #[verifier::loop_isolation(false)]
    pub fn validate(&self) -> (r: Result<(), PermissionError>)
        ensures
            r == as_result(permissions_error(*self)),
    {
        if self.network.is_none() && self.storage.is_none() && self.environment.is_none()
            && self.resources.is_none() {
            return Err(PermissionError::NoPermissionClass);
        }
        if let Some(network) = self.network.as_ref() {
            let n = network.allow.len();
            if n == 0 {
                return Err(PermissionError::EmptyNetworkAllow);
            }
            let ghost f = |i: int| network_rule_error(network.allow@[i]);
            let mut i: usize = 0;
            while i < n
                invariant
                    n == network.allow@.len(),
                    i <= n,
                    f == (|i: int| network_rule_error(network.allow@[i])),
                    network_error(*network) == first_some(i as int, n as int, f),
                decreases n - i,
            {
                if network.allow[i].host.unicode_len() == 0 {
                    return Err(PermissionError::EmptyHost);
                }
                i = i + 1;
            }
        }
        if let Some(storage) = self.storage.as_ref() {
            let n = storage.allow.len();
            if n == 0 {
                return Err(PermissionError::EmptyStorageAllow);
            }
            let ghost f = |i: int| storage_rule_error(storage.allow@[i]);
            let mut i: usize = 0;
            while i < n
                invariant
                    n == storage.allow@.len(),
                    i <= n,
                    f == (|i: int| storage_rule_error(storage.allow@[i])),
                    storage_error(*storage) == first_some(i as int, n as int, f),
                decreases n - i,
            {
                let rule = &storage.allow[i];
                if rule.uri.unicode_len() == 0 {
                    return Err(PermissionError::EmptyStorageUri);
                }
                if !starts_with(rule.uri.as_str(), "fs://") {
                    return Err(PermissionError::StorageUriNotFs { uri: rule.uri.clone() });
                }
                if rule.access.len() == 0 {
                    return Err(PermissionError::EmptyAccess);
                }
                i = i + 1;
            }
        }
        if let Some(env) = self.environment.as_ref() {
            let n = env.allow.len();
            if n == 0 {
                return Err(PermissionError::EmptyEnvironmentAllow);
            }
            let ghost f = |i: int| env_rule_error(env.allow@, i);
            let mut i: usize = 0;
            while i < n
                invariant
                    n == env.allow@.len(),
                    i <= n,
                    f == (|i: int| env_rule_error(env.allow@, i)),
                    environment_error(*env) == first_some(i as int, n as int, f),
                decreases n - i,
            {
                let key = &env.allow[i].key;
                if key.unicode_len() == 0 {
                    return Err(PermissionError::EmptyEnvKey);
                }
                let mut j: usize = 0;
                while j < i
                    invariant
                        n == env.allow@.len(),
                        i < n,
                        j <= i,
                        key == env.allow@[i as int].key,
                        forall|k: int| 0 <= k < j ==> env.allow@[k].key@ != key@,
                    decreases i - j,
                {
                    if env.allow[j].key == *key {
                        return Err(PermissionError::DuplicateEnvKey { key: key.clone() });
                    }
                    j = j + 1;
                }
                i = i + 1;
            }
        }
        Ok(())
    }
}

impl ComponentDeclaration {
    /// Checks the declaration: a non-empty URI with an accepted scheme, a
    /// digest (when present) of the form `sha256:` and 64 hex digits, and
    /// valid inline permissions.
    #[verifier::loop_isolation(false)]
    pub fn validate(&self) -> (r: Result<(), DeclarationError>)
        ensures
            r == as_result(declaration_error(*self)),
    {
        let uri = self.uri.as_str();
        if uri.unicode_len() == 0 {
            return Err(DeclarationError::EmptyUri);
        }
        if !(starts_with(uri, "file://") || starts_with(uri, "oci://") || starts_with(uri, "https://")
            || starts_with(uri, "http://")) {
            return Err(DeclarationError::UnsupportedScheme { uri: self.uri.clone() });
        }
        if let Some(digest) = self.digest.as_ref() {
            let d = digest.as_str();
            if !starts_with(d, "sha256:") {
                return Err(DeclarationError::DigestPrefix { digest: digest.clone() });
            }
            proof {
                reveal_strlit("sha256:");
            }
            let n = d.unicode_len();
            if n - 7 != 64 {
                return Err(DeclarationError::DigestLength { len: n - 7 });
            }
            let mut i: usize = 7;
            while i < n
                invariant
                    n == d@.len(),
                    7 <= i <= n,
                    forall|j: int| 7 <= j < i ==> is_hex_char(#[trigger] d@[j]),
                decreases n - i,
            {
                if !is_hex_digit(d.get_char(i)) {
                    return Err(DeclarationError::DigestNotHex);
                }
                i = i + 1;
            }
        }
        match self.permissions.validate() {
            Ok(()) => Ok(()),
            Err(e) => Err(DeclarationError::Permissions(e)),
        }
    }
}

impl ProvisioningManifest {
    /// Checks the manifest: version 1, at least one component, no URI
    /// declared twice (every repeated occurrence is reported), then each
    /// declaration in order.
    #[verifier::loop_isolation(false)]
    pub fn validate(&self) -> (r: Result<(), ManifestError>)
        ensures
            (r is Ok) == manifest_valid(*self),
            self.version != 1 ==> r == Err::<(), ManifestError>(
                ManifestError::UnsupportedVersion { version: self.version },
            ),
            self.version == 1 && self.components@.len() == 0 ==> r == Err::<(), ManifestError>(
                ManifestError::NoComponents,
            ),
            self.version == 1 && self.components@.len() > 0 && duplicate_uris(
                self.components@,
                self.components@.len() as int,
            ).len() > 0 ==> match r {
                Err(ManifestError::DuplicateUris { uris }) => views_are(
                    uris@,
                    duplicate_uris(self.components@, self.components@.len() as int),
                ),
                _ => false,
            },
            self.version == 1 && self.components@.len() > 0 && duplicate_uris(
                self.components@,
                self.components@.len() as int,
            ).len() == 0 ==> r == as_result(first_invalid_component(self.components@)),
    {
        if self.version != 1 {
            return Err(ManifestError::UnsupportedVersion { version: self.version });
        }
        let n = self.components.len();
        if n == 0 {
            return Err(ManifestError::NoComponents);
        }
        let ghost cs = self.components@;
        let mut duplicates: Vec<String> = Vec::new();
        let mut i: usize = 0;
        while i < n
            invariant
                n == cs.len(),
                i <= n,
                views_are(duplicates@, duplicate_uris(cs, i as int)),
            decreases n - i,
        {
            let uri = &self.components[i].uri;
            let mut seen = false;
            let mut j: usize = 0;
            while j < i
                invariant
                    i < n,
                    j <= i,
                    uri == cs[i as int].uri,
                    seen == exists|k: int| 0 <= k < j && (#[trigger] cs[k]).uri@ == cs[i as int].uri@,
                decreases i - j,
            {
                if self.components[j].uri == *uri {
                    seen = true;
                }
                j = j + 1;
            }
            if seen {
                duplicates.push(uri.clone());
            }
            i = i + 1;
        }
        if duplicates.len() > 0 {
            return Err(ManifestError::DuplicateUris { uris: duplicates });
        }
        let ghost f = |k: int|
            match declaration_error(cs[k]) {
                Some(e) => Some(ManifestError::InvalidComponent { index: k as usize, error: e }),
                None => None,
            };
        let mut i: usize = 0;
        while i < n
            invariant
                n == cs.len(),
                i <= n,
                f == (|k: int|
                    match declaration_error(cs[k]) {
                        Some(e) => Some(ManifestError::InvalidComponent { index: k as usize, error: e }),
                        None => None,
                    }),
                first_invalid_component(cs) == first_some(i as int, n as int, f),
            decreases n - i,
        {
            match self.components[i].validate() {
                Ok(()) => {},
                Err(e) => {
                    return Err(ManifestError::InvalidComponent { index: i, error: e });
                },
            }
            i = i + 1;
        }
        Ok(())
    }
}

} // verus!
