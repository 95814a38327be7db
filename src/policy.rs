//! Capability policies: the document that grants a component network hosts,
//! filesystem locations, environment variables and a memory ceiling, its
//! validation, its synthesis from a manifest's inline permissions, and the
//! enforcement queries the sandbox asks of it.

use vstd::prelude::*;
use vstd::string::*;

use crate::manifest::{as_result, first_some, AccessType};
use crate::text::{has_prefix, starts_with, str_eq};

verus! {

/// A capability document.
#[derive(Debug, Clone, PartialEq, Eq)]
pub struct PolicyDocument {
    /// Document format version.
    pub version: String,
    /// Human description.
    pub description: Option<String>,
    /// Granted permissions; an absent class grants nothing.
    pub permissions: Permissions,
}

/// Permission classes of a policy.
#[derive(Debug, Clone, PartialEq, Eq)]
pub struct Permissions {
    /// Network hosts.
    pub network: Option<PermissionList<NetworkPermission>>,
    /// Filesystem locations.
    pub storage: Option<PermissionList<StoragePermission>>,
    /// Environment variables.
    pub environment: Option<EnvironmentPermissions>,
    /// Resource ceilings.
    pub resources: Option<ResourceLimit>,
}

/// Allow and deny lists of one permission class; `deny` wins on conflict.
#[derive(Debug, Clone, PartialEq, Eq)]
pub struct PermissionList<T> {
    /// Granted entries.
    pub allow: Option<Vec<T>>,
    /// Refused entries.
    pub deny: Option<Vec<T>>,
}

/// A network permission.
#[derive(Debug, Clone, PartialEq, Eq)]
pub enum NetworkPermission {
    /// A host name, or a pattern `*.suffix` that matches one more leading label.
    Host(NetworkHostPermission),
}

/// A host entry.
#[derive(Debug, Clone, PartialEq, Eq)]
pub struct NetworkHostPermission {
    /// Host name or wildcard pattern.
    pub host: String,
}

/// A filesystem permission.
#[derive(Debug, Clone, PartialEq, Eq)]
pub struct StoragePermission {
    /// Location, written `fs://<path>`.
    pub uri: String,
    /// Access modes granted or refused.
    pub access: Vec<AccessType>,
}

/// Environment variables a component may read.
#[derive(Debug, Clone, PartialEq, Eq)]
pub struct EnvironmentPermissions {
    /// Granted keys.
    pub allow: Option<Vec<EnvironmentPermission>>,
}

/// One environment variable.
#[derive(Debug, Clone, PartialEq, Eq)]
pub struct EnvironmentPermission {
    /// Variable key.
    pub key: String,
}

/// Resource ceilings.
#[derive(Debug, Clone, PartialEq, Eq)]
pub struct ResourceLimit {
    /// Memory ceiling in bytes.
    pub memory_bytes: Option<u64>,
    /// CPU time ceiling in milliseconds.
    pub cpu_time_ms: Option<u64>,
}

/// Why a policy document is invalid.
#[derive(Debug, Clone, PartialEq, Eq)]
pub enum PolicyError {
    /// A network entry has an empty host.
    EmptyHost,
    /// A storage URI does not start with `fs://`.
    StorageUriNotFs { uri: String },
    /// A storage entry names no access mode.
    EmptyAccess,
    /// An environment key is empty.
    EmptyEnvKey,
    /// An environment key appears twice.
    DuplicateEnvKey { key: String },
}

// ----- host patterns and paths -----

/// A host pattern matches a host: `*.a.b` matches `x.a.b` (one non-empty
/// label without a dot before the suffix), any other pattern only itself.
pub open spec fn host_matches(pattern: Seq<char>, host: Seq<char>) -> bool {
    if has_prefix(pattern, "*."@) {
        let suffix = pattern.subrange(1, pattern.len() as int);
        let cut = host.len() - suffix.len();
        &&& cut > 0
        &&& host.subrange(cut, host.len() as int) == suffix
        &&& forall|k: int| 0 <= k < cut ==> host[k] != '.'
    } else {
        pattern == host
    }
}

/// Whether `pattern` matches `host`.
#[verifier::loop_isolation(false)]
pub fn host_pattern_matches(pattern: &str, host: &str) -> (r: bool)
    ensures
        r == host_matches(pattern@, host@),
{
    if !starts_with(pattern, "*.") {
        return str_eq(pattern, host);
    }
    proof {
        reveal_strlit("*.");
    }
    let pn = pattern.unicode_len();
    let hn = host.unicode_len();
    let sn = pn - 1;
    if hn <= sn {
        return false;
    }
    let cut = hn - sn;
    let ghost suffix = pattern@.subrange(1, pn as int);
    let mut k: usize = 0;
    while k < sn
        invariant
            pn == pattern@.len(),
            hn == host@.len(),
            sn == pn - 1,
            cut == hn - sn,
            k <= sn,
            suffix == pattern@.subrange(1, pn as int),
            forall|j: int| 0 <= j < k ==> host@[cut + j] == suffix[j],
        decreases sn - k,
    {
        if host.get_char(cut + k) != pattern.get_char(1 + k) {
            assert(host@.subrange(cut as int, hn as int)[k as int] != suffix[k as int]);
            return false;
        }
        k = k + 1;
    }
    assert(host@.subrange(cut as int, hn as int) =~= suffix);
    let mut k: usize = 0;
    while k < cut
        invariant
            hn == host@.len(),
            cut <= hn,
            k <= cut,
            forall|j: int| 0 <= j < k ==> host@[j] != '.',
        decreases cut - k,
    {
        if host.get_char(k) == '.' {
            assert(host@[k as int] == '.');
            return false;
        }
        k = k + 1;
    }
    true
}

/// The path that a storage URI names: what follows `fs://`.
pub open spec fn storage_path(uri: Seq<char>) -> Seq<char> {
    uri.subrange(5, uri.len() as int)
}

/// A location covers a path: the path is the location itself or lies below it.
pub open spec fn covers(location: Seq<char>, path: Seq<char>) -> bool {
    &&& has_prefix(path, location)
    &&& path.len() == location.len() || (location.len() > 0 && location.last() == '/')
        || path[location.len() as int] == '/'
}

/// A storage entry applies to `path` in `mode`.
pub open spec fn storage_entry_applies(e: StoragePermission, path: Seq<char>, mode: AccessType) -> bool {
    &&& has_prefix(e.uri@, "fs://"@)
    &&& covers(storage_path(e.uri@), path)
    &&& e.access@.contains(mode)
}

/// Whether the storage entry applies to `path` in `mode`.
#[verifier::loop_isolation(false)]
pub fn storage_entry_matches(e: &StoragePermission, path: &str, mode: AccessType) -> (r: bool)
    ensures
        r == storage_entry_applies(*e, path@, mode),
{
    let uri = e.uri.as_str();
    if !starts_with(uri, "fs://") {
        return false;
    }
    proof {
        reveal_strlit("fs://");
    }
    let un = uri.unicode_len();
    let location = uri.substring_char(5, un);
    if !starts_with(path, location) {
        return false;
    }
    let ln = location.unicode_len();
    let pn = path.unicode_len();
    let below = pn == ln || (ln > 0 && location.get_char(ln - 1) == '/') || path.get_char(ln)
        == '/';
    if !below {
        return false;
    }
    let mut i: usize = 0;
    while i < e.access.len()
        invariant
            i <= e.access@.len(),
            forall|j: int| 0 <= j < i ==> e.access@[j] != mode,
        decreases e.access@.len() - i,
    {
        if e.access[i] == mode {
            assert(e.access@[i as int] == mode);
            assert(location@ == storage_path(e.uri@));
            assert(covers(storage_path(e.uri@), path@));
            assert(e.access@.contains(mode));
            return true;
        }
        i = i + 1;
    }
    false
}

// ----- enforcement -----

/// Some network entry of the list matches `host`.
pub open spec fn network_list_matches(l: Option<Vec<NetworkPermission>>, host: Seq<char>) -> bool {
    match l {
        Some(v) => exists|i: int|
            0 <= i < v@.len() && match #[trigger] v@[i] {
                NetworkPermission::Host(h) => host_matches(h.host@, host),
            },
        None => false,
    }
}

/// Some storage entry of the list applies to `path` in `mode`.
pub open spec fn storage_list_applies(
    l: Option<Vec<StoragePermission>>,
    path: Seq<char>,
    mode: AccessType,
) -> bool {
    match l {
        Some(v) => exists|i: int|
            0 <= i < v@.len() && storage_entry_applies(#[trigger] v@[i], path, mode),
        None => false,
    }
}

/// The policy lets a component connect to `host`: an allow entry matches and
/// no deny entry does.
pub open spec fn connect_allowed(p: PolicyDocument, host: Seq<char>) -> bool {
    match p.permissions.network {
        Some(l) => network_list_matches(l.allow, host) && !network_list_matches(l.deny, host),
        None => false,
    }
}

/// The policy lets a component open `path` in `mode`: an allow entry applies
/// and no deny entry does.
pub open spec fn open_allowed(p: PolicyDocument, path: Seq<char>, mode: AccessType) -> bool {
    match p.permissions.storage {
        Some(l) => storage_list_applies(l.allow, path, mode) && !storage_list_applies(
            l.deny,
            path,
            mode,
        ),
        None => false,
    }
}

/// The policy lets a component read the environment variable `key`.
pub open spec fn env_allowed(p: PolicyDocument, key: Seq<char>) -> bool {
    match p.permissions.environment {
        Some(e) => match e.allow {
            Some(v) => exists|i: int| 0 <= i < v@.len() && (#[trigger] v@[i]).key@ == key,
            None => false,
        },
        None => false,
    }
}

/// The memory ceiling the policy sets, if any.
pub open spec fn memory_ceiling(p: PolicyDocument) -> Option<u64> {
    match p.permissions.resources {
        Some(r) => r.memory_bytes,
        None => None,
    }
}

#[verifier::loop_isolation(false)]
fn network_list_contains(l: &Option<Vec<NetworkPermission>>, host: &str) -> (r: bool)
    ensures
        r == network_list_matches(*l, host@),
{
    match l {
        Some(v) => {
            let mut i: usize = 0;
            while i < v.len()
                invariant
                    i <= v@.len(),
                    forall|j: int|
                        0 <= j < i ==> !match #[trigger] v@[j] {
                            NetworkPermission::Host(h) => host_matches(h.host@, host@),
                        },
                decreases v@.len() - i,
            {
                match &v[i] {
                    NetworkPermission::Host(h) => {
                        if host_pattern_matches(h.host.as_str(), host) {
                            assert(match v@[i as int] {
                                NetworkPermission::Host(h) => host_matches(h.host@, host@),
                            });
                            return true;
                        }
                    },
                }
                i = i + 1;
            }
            false
        },
        None => false,
    }
}

#[verifier::loop_isolation(false)]
fn storage_list_contains(l: &Option<Vec<StoragePermission>>, path: &str, mode: AccessType) -> (r:
    bool)
    ensures
        r == storage_list_applies(*l, path@, mode),
{
    match l {
        Some(v) => {
            let mut i: usize = 0;
            while i < v.len()
                invariant
                    i <= v@.len(),
                    forall|j: int|
                        0 <= j < i ==> !storage_entry_applies(#[trigger] v@[j], path@, mode),
                decreases v@.len() - i,
            {
                if storage_entry_matches(&v[i], path, mode) {
                    assert(storage_entry_applies(v@[i as int], path@, mode));
                    return true;
                }
                i = i + 1;
            }
            false
        },
        None => false,
    }
}

impl PolicyDocument {
    /// Whether a component under this policy may connect to `host`.
    pub fn may_connect(&self, host: &str) -> (r: bool)
        ensures
            r == connect_allowed(*self, host@),
    {
        match &self.permissions.network {
            Some(l) => network_list_contains(&l.allow, host) && !network_list_contains(
                &l.deny,
                host,
            ),
            None => false,
        }
    }

    /// Whether a component under this policy may open `path` in `mode`.
    pub fn may_open_path(&self, path: &str, mode: AccessType) -> (r: bool)
        ensures
            r == open_allowed(*self, path@, mode),
    {
        match &self.permissions.storage {
            Some(l) => storage_list_contains(&l.allow, path, mode) && !storage_list_contains(
                &l.deny,
                path,
                mode,
            ),
            None => false,
        }
    }

    /// Whether a component under this policy may read the variable `key`.
    #[verifier::loop_isolation(false)]
    pub fn may_read_env(&self, key: &str) -> (r: bool)
        ensures
            r == env_allowed(*self, key@),
    {
        match &self.permissions.environment {
            Some(e) => match &e.allow {
                Some(v) => {
                    let mut i: usize = 0;
                    while i < v.len()
                        invariant
                            i <= v@.len(),
                            forall|j: int| 0 <= j < i ==> (#[trigger] v@[j]).key@ != key@,
                        decreases v@.len() - i,
                    {
                        if str_eq(v[i].key.as_str(), key) {
                            assert(v@[i as int].key@ == key@);
                            return true;
                        }
                        i = i + 1;
                    }
                    false
                },
                None => false,
            },
            None => false,
        }
    }

    /// The memory ceiling in bytes, if the policy sets one.
    pub fn memory_ceiling_bytes(&self) -> (r: Option<u64>)
        ensures
            r == memory_ceiling(*self),
    {
        match &self.permissions.resources {
            Some(l) => l.memory_bytes,
            None => None,
        }
    }
}

// ----- validation -----

/// The error of one network entry.
pub open spec fn network_entry_error(e: NetworkPermission) -> Option<PolicyError> {
    match e {
        NetworkPermission::Host(h) => if h.host@.len() == 0 {
            Some(PolicyError::EmptyHost)
        } else {
            None
        },
    }
}

/// The error of the first invalid entry of a network list.
pub open spec fn network_list_error(l: Option<Vec<NetworkPermission>>) -> Option<PolicyError> {
    match l {
        Some(v) => first_some(0, v@.len() as int, |i: int| network_entry_error(v@[i])),
        None => None,
    }
}

/// The error of one storage entry.
pub open spec fn storage_entry_error(e: StoragePermission) -> Option<PolicyError> {
    if !has_prefix(e.uri@, "fs://"@) {
        Some(PolicyError::StorageUriNotFs { uri: e.uri })
    } else if e.access@.len() == 0 {
        Some(PolicyError::EmptyAccess)
    } else {
        None
    }
}

/// The error of the first invalid entry of a storage list.
pub open spec fn storage_list_error(l: Option<Vec<StoragePermission>>) -> Option<PolicyError> {
    match l {
        Some(v) => first_some(0, v@.len() as int, |i: int| storage_entry_error(v@[i])),
        None => None,
    }
}

/// The error of the environment entry at `i`: an empty key or one that an
/// earlier entry holds.
pub open spec fn env_entry_error(v: Seq<EnvironmentPermission>, i: int) -> Option<PolicyError> {
    if v[i].key@.len() == 0 {
        Some(PolicyError::EmptyEnvKey)
    } else if exists|j: int| 0 <= j < i && (#[trigger] v[j]).key@ == v[i].key@ {
        Some(PolicyError::DuplicateEnvKey { key: v[i].key })
    } else {
        None
    }
}

/// The error of the first invalid environment entry.
pub open spec fn env_list_error(l: Option<Vec<EnvironmentPermission>>) -> Option<PolicyError> {
    match l {
        Some(v) => first_some(0, v@.len() as int, |i: int| env_entry_error(v@, i)),
        None => None,
    }
}

/// The first of two errors that is present.
pub open spec fn either(a: Option<PolicyError>, b: Option<PolicyError>) -> Option<PolicyError> {
    if a is Some {
        a
    } else {
        b
    }
}

/// The error of a policy document, checking network allow and deny
/// entries, then storage allow and deny entries, then environment keys.
pub open spec fn policy_error(p: PolicyDocument) -> Option<PolicyError> {
    let net = match p.permissions.network {
        Some(l) => either(network_list_error(l.allow), network_list_error(l.deny)),
        None => None,
    };
    let sto = match p.permissions.storage {
        Some(l) => either(storage_list_error(l.allow), storage_list_error(l.deny)),
        None => None,
    };
    let env = match p.permissions.environment {
        Some(e) => env_list_error(e.allow),
        None => None,
    };
    either(net, either(sto, env))
}

#[verifier::loop_isolation(false)]
fn check_network_list(l: &Option<Vec<NetworkPermission>>) -> (r: Option<PolicyError>)
    ensures
        r == network_list_error(*l),
{
    match l {
        Some(v) => {
            let ghost f = |i: int| network_entry_error(v@[i]);
            let mut i: usize = 0;
            while i < v.len()
                invariant
                    i <= v@.len(),
                    f == (|i: int| network_entry_error(v@[i])),
                    network_list_error(*l) == first_some(i as int, v@.len() as int, f),
                decreases v@.len() - i,
            {
                match &v[i] {
                    NetworkPermission::Host(h) => {
                        if h.host.unicode_len() == 0 {
                            return Some(PolicyError::EmptyHost);
                        }
                    },
                }
                i = i + 1;
            }
            None
        },
        None => None,
    }
}

#[verifier::loop_isolation(false)]
fn check_storage_list(l: &Option<Vec<StoragePermission>>) -> (r: Option<PolicyError>)
    ensures
        r == storage_list_error(*l),
{
    match l {
        Some(v) => {
            let ghost f = |i: int| storage_entry_error(v@[i]);
            let mut i: usize = 0;
            while i < v.len()
                invariant
                    i <= v@.len(),
                    f == (|i: int| storage_entry_error(v@[i])),
                    storage_list_error(*l) == first_some(i as int, v@.len() as int, f),
                decreases v@.len() - i,
            {
                let e = &v[i];
                if !starts_with(e.uri.as_str(), "fs://") {
                    return Some(PolicyError::StorageUriNotFs { uri: e.uri.clone() });
                }
                if e.access.len() == 0 {
                    return Some(PolicyError::EmptyAccess);
                }
                i = i + 1;
            }
            None
        },
        None => None,
    }
}

#[verifier::loop_isolation(false)]
fn check_env_list(l: &Option<Vec<EnvironmentPermission>>) -> (r: Option<PolicyError>)
    ensures
        r == env_list_error(*l),
{
    match l {
        Some(v) => {
            let n = v.len();
            let ghost f = |i: int| env_entry_error(v@, i);
            let mut i: usize = 0;
            while i < n
                invariant
                    n == v@.len(),
                    i <= n,
                    f == (|i: int| env_entry_error(v@, i)),
                    env_list_error(*l) == first_some(i as int, n as int, f),
                decreases n - i,
            {
                let key = &v[i].key;
                if key.unicode_len() == 0 {
                    return Some(PolicyError::EmptyEnvKey);
                }
                let mut j: usize = 0;
                while j < i
                    invariant
                        i < n,
                        j <= i,
                        key == v@[i as int].key,
                        forall|k: int| 0 <= k < j ==> (#[trigger] v@[k]).key@ != key@,
                    decreases i - j,
                {
                    if v[j].key == *key {
                        return Some(PolicyError::DuplicateEnvKey { key: key.clone() });
                    }
                    j = j + 1;
                }
                i = i + 1;
            }
            None
        },
        None => None,
    }
}

impl PolicyDocument {
    /// Checks the document: hosts non-empty, storage URIs under `fs://` with
    /// at least one access mode, environment keys non-empty and unique.
    pub fn validate(&self) -> (r: Result<(), PolicyError>)
        ensures
            r == as_result(policy_error(*self)),
    {
        if let Some(l) = &self.permissions.network {
            let e = check_network_list(&l.allow);
            if let Some(err) = e {
                return Err(err);
            }
            let e = check_network_list(&l.deny);
            if let Some(err) = e {
                return Err(err);
            }
        }
        if let Some(l) = &self.permissions.storage {
            let e = check_storage_list(&l.allow);
            if let Some(err) = e {
                return Err(err);
            }
            let e = check_storage_list(&l.deny);
            if let Some(err) = e {
                return Err(err);
            }
        }
        if let Some(l) = &self.permissions.environment {
            let e = check_env_list(&l.allow);
            if let Some(err) = e {
                return Err(err);
            }
        }
        Ok(())
    }
}

/// The sandbox's capabilities: what a component may do under an optional
/// policy. Without a policy nothing is granted.
pub open spec fn capability_granted(
    policy: Option<PolicyDocument>,
    request: CapabilityRequest,
) -> bool {
    match policy {
        None => false,
        Some(p) => match request {
            CapabilityRequest::Connect { host } => connect_allowed(p, host@),
            CapabilityRequest::Open { path, mode } => open_allowed(p, path@, mode),
            CapabilityRequest::ReadEnv { key } => env_allowed(p, key@),
        },
    }
}

/// Something a component asks of the host.
#[derive(Debug, Clone)]
pub enum CapabilityRequest {
    /// Open a connection to `host`.
    Connect { host: String },
    /// Open `path` in `mode`.
    Open { path: String, mode: AccessType },
    /// Read the environment variable `key`.
    ReadEnv { key: String },
}

/// Whether the sandbox grants `request` to a component under `policy`.
pub fn check_capability(policy: Option<&PolicyDocument>, request: &CapabilityRequest) -> (r: bool)
    ensures
        r == capability_granted(
            match policy {
                Some(p) => Some(*p),
                None => None,
            },
            *request,
        ),
{
    match policy {
        None => false,
        Some(p) => match request {
            CapabilityRequest::Connect { host } => p.may_connect(host.as_str()),
            CapabilityRequest::Open { path, mode } => p.may_open_path(path.as_str(), *mode),
            CapabilityRequest::ReadEnv { key } => p.may_read_env(key.as_str()),
        },
    }
}

/// Capability containment: whatever the sandbox grants is named by an allow
/// entry of the policy (a host pattern matching the host, a storage entry
/// covering the path in that mode, the exact environment key), is named by
/// no deny entry, and without a policy nothing is granted.
pub proof fn lemma_capability_containment(policy: Option<PolicyDocument>, request: CapabilityRequest)
    requires
        capability_granted(policy, request),
    ensures
        policy is Some,
        request matches CapabilityRequest::Connect { host } ==> {
            let l = policy->0.permissions.network->0;
            &&& policy->0.permissions.network is Some
            &&& l.allow is Some
            &&& exists|i: int|
                0 <= i < l.allow->0@.len() && match #[trigger] l.allow->0@[i] {
                    NetworkPermission::Host(h) => host_matches(h.host@, host@),
                }
            &&& !network_list_matches(l.deny, host@)
        },
        request matches CapabilityRequest::Open { path, mode } ==> {
            let l = policy->0.permissions.storage->0;
            &&& policy->0.permissions.storage is Some
            &&& l.allow is Some
            &&& exists|i: int|
                0 <= i < l.allow->0@.len() && storage_entry_applies(
                    #[trigger] l.allow->0@[i],
                    path@,
                    mode,
                )
            &&& !storage_list_applies(l.deny, path@, mode)
        },
        request matches CapabilityRequest::ReadEnv { key } ==> {
            let e = policy->0.permissions.environment->0;
            &&& policy->0.permissions.environment is Some
            &&& e.allow is Some
            &&& exists|i: int| 0 <= i < e.allow->0@.len() && (#[trigger] e.allow->0@[i]).key@ == key@
        },
{
}

/// The environment a component sees: the available variables whose keys the
/// policy grants, in order; without a policy, none.
#[verifier::loop_isolation(false)]
pub fn environment_projection(
    policy: Option<&PolicyDocument>,
    available: &Vec<(String, String)>,
) -> (r: Vec<(String, String)>)
    ensures
        forall|k: int|
            0 <= k < r@.len() ==> available@.contains(#[trigger] r@[k]) && capability_granted(
                match policy {
                    Some(p) => Some(*p),
                    None => None,
                },
                CapabilityRequest::ReadEnv { key: r@[k].0 },
            ),
        forall|j: int|
            0 <= j < available@.len() && capability_granted(
                match policy {
                    Some(p) => Some(*p),
                    None => None,
                },
                CapabilityRequest::ReadEnv { key: (#[trigger] available@[j]).0 },
            ) ==> r@.contains(available@[j]),
{
    let ghost pol = match policy {
        Some(p) => Some(*p),
        None => None,
    };
    let mut out: Vec<(String, String)> = Vec::new();
    let mut i: usize = 0;
    while i < available.len()
        invariant
            i <= available@.len(),
            forall|k: int|
                0 <= k < out@.len() ==> available@.contains(#[trigger] out@[k]) && capability_granted(
                    pol,
                    CapabilityRequest::ReadEnv { key: out@[k].0 },
                ),
            forall|j: int|
                0 <= j < i && capability_granted(
                    pol,
                    CapabilityRequest::ReadEnv { key: (#[trigger] available@[j]).0 },
                ) ==> out@.contains(available@[j]),
        decreases available@.len() - i,
    {
        let granted = match policy {
            Some(p) => p.may_read_env(available[i].0.as_str()),
            None => false,
        };
        if granted {
            let ghost before = out@;
            let pair = (available[i].0.clone(), available[i].1.clone());
            out.push(pair);
            proof {
                assert(out@[before.len() as int] == available@[i as int]);
                assert forall|j: int|
                    0 <= j < i + 1 && capability_granted(
                        pol,
                        CapabilityRequest::ReadEnv { key: (#[trigger] available@[j]).0 },
                    ) implies out@.contains(available@[j]) by {
                    if j < i {
                        let m = choose|m: int| 0 <= m < before.len() && before[m] == available@[j];
                        assert(out@[m] == available@[j]);
                    }
                }
                assert forall|k: int| 0 <= k < out@.len() implies available@.contains(#[trigger] out@[k])
                    && capability_granted(pol, CapabilityRequest::ReadEnv { key: out@[k].0 }) by {
                    if k < before.len() {
                        assert(out@[k] == before[k]);
                    }
                }
            }
        }
        i = i + 1;
    }
    out
}

// ----- grants and revocations -----

/// The host a network entry names.
pub open spec fn host_of(e: NetworkPermission) -> Seq<char> {
    match e {
        NetworkPermission::Host(h) => h.host@,
    }
}

/// The host `h` is listed in `v`.
pub open spec fn host_listed(v: Seq<NetworkPermission>, h: Seq<char>) -> bool {
    exists|i: int| 0 <= i < v.len() && host_of(#[trigger] v[i]) == h
}

/// The key `k` is listed in `v`.
pub open spec fn key_listed(v: Seq<EnvironmentPermission>, k: Seq<char>) -> bool {
    exists|i: int| 0 <= i < v.len() && (#[trigger] v[i]).key@ == k
}

/// The entries of an optional list.
pub open spec fn entries<T>(l: Option<Vec<T>>) -> Seq<T> {
    match l {
        Some(v) => v@,
        None => Seq::empty(),
    }
}

/// The allow list of the network class.
pub open spec fn network_allow(p: PolicyDocument) -> Seq<NetworkPermission> {
    match p.permissions.network {
        Some(l) => entries(l.allow),
        None => Seq::empty(),
    }
}

/// The deny list of the network class.
pub open spec fn network_deny(p: PolicyDocument) -> Option<Vec<NetworkPermission>> {
    match p.permissions.network {
        Some(l) => l.deny,
        None => None,
    }
}

/// The allow list of the environment class.
pub open spec fn environment_allow(p: PolicyDocument) -> Seq<EnvironmentPermission> {
    match p.permissions.environment {
        Some(e) => entries(e.allow),
        None => Seq::empty(),
    }
}

fn hosts_without(v: &Vec<NetworkPermission>, host: &str) -> (r: Vec<NetworkPermission>)
    ensures
        forall|x: Seq<char>| host_listed(r@, x) <==> (host_listed(v@, x) && x != host@),
{
    let mut out: Vec<NetworkPermission> = Vec::new();
    let ghost mut src: Seq<int> = Seq::empty();
    let mut i: usize = 0;
    while i < v.len()
        invariant
            i <= v@.len(),
            src.len() == out@.len(),
            forall|k: int|
                0 <= k < out@.len() ==> 0 <= #[trigger] src[k] < i && out@[k] == v@[src[k]]
                    && host_of(v@[src[k]]) != host@,
            forall|j: int| 0 <= j < i && host_of(#[trigger] v@[j]) != host@ ==> out@.contains(v@[j]),
        decreases v@.len() - i,
    {
        let ghost before = out@;
        match &v[i] {
            NetworkPermission::Host(h) => {
                if !str_eq(h.host.as_str(), host) {
                    out.push(NetworkPermission::Host(NetworkHostPermission { host: h.host.clone() }));
                    proof {
                        src = src.push(i as int);
                        assert(out@[before.len() as int] == v@[i as int]);
                        assert forall|j: int|
                            0 <= j < i + 1 && host_of(#[trigger] v@[j]) != host@ implies out@.contains(v@[j]) by {
                            if j < i {
                                let m = choose|m: int| 0 <= m < before.len() && before[m] == v@[j];
                                assert(out@[m] == v@[j]);
                            }
                        }
                    }
                }
            },
        }
        i = i + 1;
    }
    proof {
        assert forall|x: Seq<char>| host_listed(out@, x) <==> (host_listed(v@, x) && x != host@) by {
            if host_listed(out@, x) {
                let k = choose|k: int| 0 <= k < out@.len() && host_of(#[trigger] out@[k]) == x;
                assert(host_of(v@[src[k]]) == x);
            }
            if host_listed(v@, x) && x != host@ {
                let j = choose|j: int| 0 <= j < v@.len() && host_of(#[trigger] v@[j]) == x;
                let m = choose|m: int| 0 <= m < out@.len() && out@[m] == v@[j];
                assert(host_of(out@[m]) == x);
            }
        }
    }
    out
}

fn keys_without(v: &Vec<EnvironmentPermission>, key: &str) -> (r: Vec<EnvironmentPermission>)
    ensures
        forall|x: Seq<char>| key_listed(r@, x) <==> (key_listed(v@, x) && x != key@),
{
    let mut out: Vec<EnvironmentPermission> = Vec::new();
    let ghost mut src: Seq<int> = Seq::empty();
    let mut i: usize = 0;
    while i < v.len()
        invariant
            i <= v@.len(),
            src.len() == out@.len(),
            forall|k: int|
                0 <= k < out@.len() ==> 0 <= #[trigger] src[k] < i && out@[k] == v@[src[k]]
                    && v@[src[k]].key@ != key@,
            forall|j: int| 0 <= j < i && (#[trigger] v@[j]).key@ != key@ ==> out@.contains(v@[j]),
        decreases v@.len() - i,
    {
        let ghost before = out@;
        if !str_eq(v[i].key.as_str(), key) {
            out.push(EnvironmentPermission { key: v[i].key.clone() });
            proof {
                src = src.push(i as int);
                assert(out@[before.len() as int] == v@[i as int]);
                assert forall|j: int|
                    0 <= j < i + 1 && (#[trigger] v@[j]).key@ != key@ implies out@.contains(v@[j]) by {
                    if j < i {
                        let m = choose|m: int| 0 <= m < before.len() && before[m] == v@[j];
                        assert(out@[m] == v@[j]);
                    }
                }
            }
        }
        i = i + 1;
    }
    proof {
        assert forall|x: Seq<char>| key_listed(out@, x) <==> (key_listed(v@, x) && x != key@) by {
            if key_listed(out@, x) {
                let k = choose|k: int| 0 <= k < out@.len() && (#[trigger] out@[k]).key@ == x;
                assert(v@[src[k]].key@ == x);
            }
            if key_listed(v@, x) && x != key@ {
                let j = choose|j: int| 0 <= j < v@.len() && (#[trigger] v@[j]).key@ == x;
                let m = choose|m: int| 0 <= m < out@.len() && out@[m] == v@[j];
                assert(out@[m].key@ == x);
            }
        }
    }
    out
}

fn host_in(v: &Vec<NetworkPermission>, host: &str) -> (r: bool)
    ensures
        r == host_listed(v@, host@),
{
    let mut i: usize = 0;
    while i < v.len()
        invariant
            i <= v@.len(),
            forall|j: int| 0 <= j < i ==> host_of(#[trigger] v@[j]) != host@,
        decreases v@.len() - i,
    {
        match &v[i] {
            NetworkPermission::Host(h) => {
                if str_eq(h.host.as_str(), host) {
                    assert(host_of(v@[i as int]) == host@);
                    return true;
                }
            },
        }
        i = i + 1;
    }
    false
}

fn key_in(v: &Vec<EnvironmentPermission>, key: &str) -> (r: bool)
    ensures
        r == key_listed(v@, key@),
{
    let mut i: usize = 0;
    while i < v.len()
        invariant
            i <= v@.len(),
            forall|j: int| 0 <= j < i ==> (#[trigger] v@[j]).key@ != key@,
        decreases v@.len() - i,
    {
        if str_eq(v[i].key.as_str(), key) {
            return true;
        }
        i = i + 1;
    }
    false
}

/// Everything but the network class is the same.
pub open spec fn same_but_network(a: PolicyDocument, b: PolicyDocument) -> bool {
    &&& a.version == b.version
    &&& a.description == b.description
    &&& a.permissions.storage == b.permissions.storage
    &&& a.permissions.environment == b.permissions.environment
    &&& a.permissions.resources == b.permissions.resources
}

/// Everything but the environment class is the same.
pub open spec fn same_but_environment(a: PolicyDocument, b: PolicyDocument) -> bool {
    &&& a.version == b.version
    &&& a.description == b.description
    &&& a.permissions.network == b.permissions.network
    &&& a.permissions.storage == b.permissions.storage
    &&& a.permissions.resources == b.permissions.resources
}

impl PolicyDocument {
    /// Allows connections to `host`, keeping what was granted or refused.
    pub fn grant_network(&mut self, host: &str)
        ensures
            same_but_network(*final(self), *old(self)),
            network_deny(*final(self)) == network_deny(*old(self)),
            forall|x: Seq<char>|
                host_listed(network_allow(*final(self)), x) <==> (host_listed(
                    network_allow(*old(self)),
                    x,
                ) || x == host@),
    {
        let (mut allow, deny) = match self.permissions.network.take() {
            Some(l) => (
                match l.allow {
                    Some(v) => v,
                    None => Vec::new(),
                },
                l.deny,
            ),
            None => (Vec::new(), None),
        };
        let ghost before = allow@;
        assert(before == network_allow(*old(self)));
        if !host_in(&allow, host) {
            allow.push(NetworkPermission::Host(NetworkHostPermission { host: String::from_str(host) }));
            proof {
                assert forall|x: Seq<char>| host_listed(allow@, x) <==> (host_listed(before, x) || x == host@) by {
                    if host_listed(before, x) {
                        let k = choose|k: int| 0 <= k < before.len() && host_of(#[trigger] before[k]) == x;
                        assert(allow@[k] == before[k]);
                    }
                    if x == host@ {
                        assert(host_of(allow@[before.len() as int]) == x);
                    }
                    if host_listed(allow@, x) {
                        let k = choose|k: int| 0 <= k < allow@.len() && host_of(#[trigger] allow@[k]) == x;
                        if k < before.len() {
                            assert(allow@[k] == before[k]);
                        }
                    }
                }
            }
        }
        self.permissions.network = Some(PermissionList { allow: Some(allow), deny });
    }

    /// Stops allowing connections to `host` by name.
    pub fn revoke_network(&mut self, host: &str)
        ensures
            same_but_network(*final(self), *old(self)),
            network_deny(*final(self)) == network_deny(*old(self)),
            forall|x: Seq<char>|
                host_listed(network_allow(*final(self)), x) <==> (host_listed(
                    network_allow(*old(self)),
                    x,
                ) && x != host@),
    {
        let next = match self.permissions.network.take() {
            Some(l) => match l.allow {
                Some(v) => Some(PermissionList { allow: Some(hosts_without(&v, host)), deny: l.deny }),
                None => Some(PermissionList { allow: None, deny: l.deny }),
            },
            None => None,
        };
        self.permissions.network = next;
    }

    /// Lets the component read the environment variable `key`.
    pub fn grant_environment(&mut self, key: &str)
        ensures
            same_but_environment(*final(self), *old(self)),
            forall|x: Seq<char>|
                key_listed(environment_allow(*final(self)), x) <==> (key_listed(
                    environment_allow(*old(self)),
                    x,
                ) || x == key@),
    {
        let mut allow = match &self.permissions.environment {
            Some(e) => match &e.allow {
                Some(v) => copy_keys(v),
                None => Vec::new(),
            },
            None => Vec::new(),
        };
        let ghost before = allow@;
        if !key_in(&allow, key) {
            allow.push(EnvironmentPermission { key: String::from_str(key) });
            proof {
                assert forall|x: Seq<char>| key_listed(allow@, x) <==> (key_listed(before, x) || x == key@) by {
                    if key_listed(before, x) {
                        let k = choose|k: int| 0 <= k < before.len() && (#[trigger] before[k]).key@ == x;
                        assert(allow@[k] == before[k]);
                    }
                    if x == key@ {
                        assert(allow@[before.len() as int].key@ == x);
                    }
                    if key_listed(allow@, x) {
                        let k = choose|k: int| 0 <= k < allow@.len() && (#[trigger] allow@[k]).key@ == x;
                        if k < before.len() {
                            assert(allow@[k] == before[k]);
                        }
                    }
                }
            }
        }
        self.permissions.environment = Some(EnvironmentPermissions { allow: Some(allow) });
    }

    /// Stops letting the component read the environment variable `key`.
    pub fn revoke_environment(&mut self, key: &str)
        ensures
            same_but_environment(*final(self), *old(self)),
            forall|x: Seq<char>|
                key_listed(environment_allow(*final(self)), x) <==> (key_listed(
                    environment_allow(*old(self)),
                    x,
                ) && x != key@),
    {
        let next = match &self.permissions.environment {
            Some(e) => match &e.allow {
                Some(v) => Some(EnvironmentPermissions { allow: Some(keys_without(v, key)) }),
                None => Some(EnvironmentPermissions { allow: None }),
            },
            None => None,
        };
        self.permissions.environment = next;
    }

    /// Sets the memory ceiling, keeping the CPU time limit.
    pub fn grant_memory(&mut self, memory_bytes: u64)
        ensures
            memory_ceiling(*final(self)) == Some(memory_bytes),
            final(self).permissions.resources->0.cpu_time_ms == match old(self).permissions.resources {
                Some(r) => r.cpu_time_ms,
                None => None,
            },
            final(self).permissions.network == old(self).permissions.network,
            final(self).permissions.storage == old(self).permissions.storage,
            final(self).permissions.environment == old(self).permissions.environment,
            final(self).version == old(self).version,
            final(self).description == old(self).description,
    {
        let cpu_time_ms = match &self.permissions.resources {
            Some(r) => r.cpu_time_ms,
            None => None,
        };
        self.permissions.resources = Some(ResourceLimit { memory_bytes: Some(memory_bytes), cpu_time_ms });
    }

    /// Withdraws every permission.
    pub fn reset(&mut self)
        ensures
            final(self).version == old(self).version,
            final(self).description == old(self).description,
            final(self).permissions.network is None,
            final(self).permissions.storage is None,
            final(self).permissions.environment is None,
            final(self).permissions.resources is None,
            forall|req: CapabilityRequest| !capability_granted(Some(*final(self)), req),
    {
        self.permissions = Permissions { network: None, storage: None, environment: None, resources: None };
    }
}

fn copy_keys(v: &Vec<EnvironmentPermission>) -> (r: Vec<EnvironmentPermission>)
    ensures
        r@ == v@,
{
    let mut out: Vec<EnvironmentPermission> = Vec::new();
    let mut i: usize = 0;
    while i < v.len()
        invariant
            i <= v@.len(),
            out@ == v@.subrange(0, i as int),
        decreases v@.len() - i,
    {
        out.push(EnvironmentPermission { key: v[i].key.clone() });
        i = i + 1;
        assert(out@ =~= v@.subrange(0, i as int));
    }
    assert(v@.subrange(0, v@.len() as int) =~= v@);
    out
}

/// The allow list of the storage class.
pub open spec fn storage_allow(p: PolicyDocument) -> Seq<StoragePermission> {
    match p.permissions.storage {
        Some(l) => entries(l.allow),
        None => Seq::empty(),
    }
}

/// The deny list of the storage class.
pub open spec fn storage_deny(p: PolicyDocument) -> Option<Vec<StoragePermission>> {
    match p.permissions.storage {
        Some(l) => l.deny,
        None => None,
    }
}

/// Everything but the storage class is the same.
pub open spec fn same_but_storage(a: PolicyDocument, b: PolicyDocument) -> bool {
    &&& a.version == b.version
    &&& a.description == b.description
    &&& a.permissions.network == b.permissions.network
    &&& a.permissions.environment == b.permissions.environment
    &&& a.permissions.resources == b.permissions.resources
}

fn locations_without(v: Vec<StoragePermission>, uri: &str) -> (r: Vec<StoragePermission>)
    ensures
        forall|e: StoragePermission| r@.contains(e) <==> (v@.contains(e) && e.uri@ != uri@),
{
    let ghost all = v@;
    let mut v = v;
    let mut i: usize = 0;
    while i < v.len()
        invariant
            i <= v@.len(),
            forall|k: int| 0 <= k < i ==> (#[trigger] v@[k]).uri@ != uri@,
            forall|e: StoragePermission| v@.contains(e) ==> all.contains(e),
            forall|e: StoragePermission| all.contains(e) && e.uri@ != uri@ ==> v@.contains(e),
        decreases v@.len() - i,
    {
        if str_eq(v[i].uri.as_str(), uri) {
            let ghost before = v@;
            let _gone = v.remove(i);
            proof {
                assert(v@ == before.remove(i as int));
                assert forall|e: StoragePermission| v@.contains(e) implies all.contains(e) by {
                    let k = choose|k: int| 0 <= k < v@.len() && v@[k] == e;
                    let k0 = if k < i { k } else { k + 1 };
                    assert(before[k0] == e);
                }
                assert forall|e: StoragePermission| all.contains(e) && e.uri@ != uri@ implies v@.contains(e) by {
                    let k0 = choose|k0: int| 0 <= k0 < before.len() && before[k0] == e;
                    assert(k0 != i);
                    let k = if k0 < i { k0 } else { k0 - 1 };
                    assert(v@[k] == e);
                }
                assert forall|k: int| 0 <= k < i implies (#[trigger] v@[k]).uri@ != uri@ by {
                    assert(v@[k] == before[k]);
                }
            }
        } else {
            i = i + 1;
        }
    }
    proof {
        assert forall|e: StoragePermission| v@.contains(e) implies e.uri@ != uri@ by {
            let k = choose|k: int| 0 <= k < v@.len() && v@[k] == e;
        }
    }
    v
}

fn copy_modes(m: &Vec<AccessType>) -> (r: Vec<AccessType>)
    ensures
        r@ == m@,
{
    let mut out: Vec<AccessType> = Vec::new();
    let mut i: usize = 0;
    while i < m.len()
        invariant
            i <= m@.len(),
            out@ == m@.subrange(0, i as int),
        decreases m@.len() - i,
    {
        out.push(m[i]);
        i = i + 1;
        assert(out@ =~= m@.subrange(0, i as int));
    }
    assert(m@.subrange(0, m@.len() as int) =~= m@);
    out
}

impl PolicyDocument {
    /// Allows `access` on the location `uri` (`fs://<path>`), replacing what
    /// was allowed on that same location.
    pub fn grant_storage(&mut self, uri: &str, access: Vec<AccessType>)
        ensures
            same_but_storage(*final(self), *old(self)),
            storage_deny(*final(self)) == storage_deny(*old(self)),
            exists|i: int|
                0 <= i < storage_allow(*final(self)).len() && (#[trigger] storage_allow(
                    *final(self),
                )[i]).uri@ == uri@ && storage_allow(*final(self))[i].access@ == access@,
            forall|i: int|
                0 <= i < storage_allow(*final(self)).len() && (#[trigger] storage_allow(
                    *final(self),
                )[i]).uri@ == uri@ ==> storage_allow(*final(self))[i].access@ == access@,
            forall|e: StoragePermission|
                e.uri@ != uri@ ==> (storage_allow(*final(self)).contains(e) <==> storage_allow(
                    *old(self),
                ).contains(e)),
    {
        let (allow, deny) = match self.permissions.storage.take() {
            Some(l) => (
                match l.allow {
                    Some(v) => v,
                    None => Vec::new(),
                },
                l.deny,
            ),
            None => (Vec::new(), None),
        };
        let ghost old_allow = allow@;
        let mut kept = locations_without(allow, uri);
        let ghost before = kept@;
        kept.push(StoragePermission { uri: String::from_str(uri), access });
        proof {
            assert forall|i: int|
                0 <= i < kept@.len() && (#[trigger] kept@[i]).uri@ == uri@ implies kept@[i].access@
                == access@ by {
                if i < before.len() {
                    assert(before.contains(before[i]));
                }
            }
            assert forall|e: StoragePermission| e.uri@ != uri@ implies (kept@.contains(e)
                <==> old_allow.contains(e)) by {
                if kept@.contains(e) {
                    let k = choose|k: int| 0 <= k < kept@.len() && kept@[k] == e;
                    assert(k < before.len());
                    assert(before[k] == e);
                }
                if old_allow.contains(e) {
                    let k = choose|k: int| 0 <= k < before.len() && before[k] == e;
                    assert(kept@[k] == e);
                }
            }
            assert(kept@[before.len() as int].uri@ == uri@);
        }
        let ghost kv = kept@;
        self.permissions.storage = Some(PermissionList { allow: Some(kept), deny });
        assert(storage_allow(*self) == kv);
        assert(kv[before.len() as int].uri@ == uri@ && kv[before.len() as int].access@ == access@);
    }

    /// Withdraws what was allowed on the location `uri`.
    pub fn revoke_storage(&mut self, uri: &str)
        ensures
            same_but_storage(*final(self), *old(self)),
            storage_deny(*final(self)) == storage_deny(*old(self)),
            forall|e: StoragePermission|
                storage_allow(*final(self)).contains(e) <==> (storage_allow(*old(self)).contains(e)
                    && e.uri@ != uri@),
    {
        let next = match self.permissions.storage.take() {
            Some(l) => match l.allow {
                Some(v) => Some(PermissionList { allow: Some(locations_without(v, uri)), deny: l.deny }),
                None => Some(PermissionList { allow: None, deny: l.deny }),
            },
            None => None,
        };
        self.permissions.storage = next;
    }
}

} // verus!
