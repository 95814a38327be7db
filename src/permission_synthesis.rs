//! Synthesis of a capability policy from a manifest's inline permissions.

use vstd::prelude::*;
use vstd::string::*;

use crate::manifest::{
    env_rule_error, first_some, network_rule_error, permissions_error, storage_rule_error,
    AccessType, InlinePermissions,
};
use crate::policy::{
    env_entry_error, env_list_error, network_entry_error, network_list_error, policy_error,
    storage_entry_error, storage_list_error, EnvironmentPermission, EnvironmentPermissions,
    NetworkHostPermission, NetworkPermission, PermissionList, Permissions, PolicyDocument,
    PolicyError, ResourceLimit, StoragePermission,
};

verus! {

/// The description given to a synthesized policy.
pub open spec fn synthesized_description(name: Option<Seq<char>>) -> Seq<char> {
    "Auto-generated policy for "@ + match name {
        Some(n) => n,
        None => "component"@,
    }
}

/// The network class of `p` lists, as allowed hosts and in order, the hosts
/// of `rules`, and denies nothing.
pub open spec fn network_synthesized(
    rules: Option<crate::manifest::NetworkPermissions>,
    p: Option<PermissionList<NetworkPermission>>,
) -> bool {
    match rules {
        None => p is None,
        Some(n) => match p {
            Some(l) => l.deny is None && match l.allow {
                Some(v) => v@.len() == n.allow@.len() && forall|i: int|
                    0 <= i < v@.len() ==> #[trigger] v@[i] == NetworkPermission::Host(
                        NetworkHostPermission { host: n.allow@[i].host },
                    ),
                None => false,
            },
            None => false,
        },
    }
}

/// The storage class of `p` lists, as allowed entries and in order, the URIs
/// and access modes of `rules`, and denies nothing.
pub open spec fn storage_synthesized(
    rules: Option<crate::manifest::StoragePermissions>,
    p: Option<PermissionList<StoragePermission>>,
) -> bool {
    match rules {
        None => p is None,
        Some(s) => match p {
            Some(l) => l.deny is None && match l.allow {
                Some(v) => v@.len() == s.allow@.len() && forall|i: int|
                    0 <= i < v@.len() ==> (#[trigger] v@[i]).uri == s.allow@[i].uri
                        && v@[i].access@ == s.allow@[i].access@,
                None => false,
            },
            None => false,
        },
    }
}

/// The environment class of `p` lists, in order, the keys of `rules`.
pub open spec fn environment_synthesized(
    rules: Option<crate::manifest::EnvironmentPermissions>,
    p: Option<EnvironmentPermissions>,
) -> bool {
    match rules {
        None => p is None,
        Some(e) => match p {
            Some(q) => match q.allow {
                Some(v) => v@.len() == e.allow@.len() && forall|i: int|
                    0 <= i < v@.len() ==> (#[trigger] v@[i]).key == e.allow@[i].key,
                None => false,
            },
            None => false,
        },
    }
}

/// `p` is the policy synthesized from `inline` for a component named `name`:
/// version `1.0`, the generated description, and each inline class carried
/// over to the corresponding permission list.
pub open spec fn synthesized(
    inline: InlinePermissions,
    name: Option<Seq<char>>,
    p: PolicyDocument,
) -> bool {
    &&& p.version@ == "1.0"@
    &&& p.description is Some
    &&& p.description->0@ == synthesized_description(name)
    &&& network_synthesized(inline.network, p.permissions.network)
    &&& storage_synthesized(inline.storage, p.permissions.storage)
    &&& environment_synthesized(inline.environment, p.permissions.environment)
    &&& match inline.resources {
        None => p.permissions.resources is None,
        Some(r) => p.permissions.resources == Some(
            ResourceLimit { memory_bytes: r.memory_bytes, cpu_time_ms: r.cpu_time_ms },
        ),
    }
}

/// The view of an optional name.
pub open spec fn name_view(name: Option<&str>) -> Option<Seq<char>> {
    match name {
        Some(n) => Some(n@),
        None => None,
    }
}

fn copy_access(access: &Vec<AccessType>) -> (r: Vec<AccessType>)
    ensures
        r@ == access@,
{
    let mut out: Vec<AccessType> = Vec::new();
    let mut i: usize = 0;
    while i < access.len()
        invariant
            i <= access@.len(),
            out@ == access@.subrange(0, i as int),
        decreases access@.len() - i,
    {
        out.push(access[i]);
        i = i + 1;
        assert(out@ =~= access@.subrange(0, i as int));
    }
    assert(access@.subrange(0, access@.len() as int) =~= access@);
    out
}

fn synthesize_network(n: &crate::manifest::NetworkPermissions) -> (r: PermissionList<
    NetworkPermission,
>)
    ensures
        network_synthesized(Some(*n), Some(r)),
{
    let mut allow: Vec<NetworkPermission> = Vec::new();
    let mut i: usize = 0;
    while i < n.allow.len()
        invariant
            i <= n.allow@.len(),
            allow@.len() == i,
            forall|j: int|
                0 <= j < i ==> #[trigger] allow@[j] == NetworkPermission::Host(
                    NetworkHostPermission { host: n.allow@[j].host },
                ),
        decreases n.allow@.len() - i,
    {
        allow.push(NetworkPermission::Host(NetworkHostPermission { host: n.allow[i].host.clone() }));
        i = i + 1;
    }
    PermissionList { allow: Some(allow), deny: None }
}

fn synthesize_storage(s: &crate::manifest::StoragePermissions) -> (r: PermissionList<
    StoragePermission,
>)
    ensures
        storage_synthesized(Some(*s), Some(r)),
{
    let mut allow: Vec<StoragePermission> = Vec::new();
    let mut i: usize = 0;
    while i < s.allow.len()
        invariant
            i <= s.allow@.len(),
            allow@.len() == i,
            forall|j: int|
                0 <= j < i ==> (#[trigger] allow@[j]).uri == s.allow@[j].uri && allow@[j].access@
                    == s.allow@[j].access@,
        decreases s.allow@.len() - i,
    {
        let rule = &s.allow[i];
        allow.push(StoragePermission { uri: rule.uri.clone(), access: copy_access(&rule.access) });
        i = i + 1;
    }
    PermissionList { allow: Some(allow), deny: None }
}

fn synthesize_environment(e: &crate::manifest::EnvironmentPermissions) -> (r:
    EnvironmentPermissions)
    ensures
        environment_synthesized(Some(*e), Some(r)),
{
    let mut allow: Vec<EnvironmentPermission> = Vec::new();
    let mut i: usize = 0;
    while i < e.allow.len()
        invariant
            i <= e.allow@.len(),
            allow@.len() == i,
            forall|j: int| 0 <= j < i ==> (#[trigger] allow@[j]).key == e.allow@[j].key,
        decreases e.allow@.len() - i,
    {
        allow.push(EnvironmentPermission { key: e.allow[i].key.clone() });
        i = i + 1;
    }
    EnvironmentPermissions { allow: Some(allow) }
}

/// Builds the policy for a component from its inline permissions and
/// validates it. Valid inline permissions always give a policy.
pub fn synthesize_policy_from_inline(
    inline: &InlinePermissions,
    component_name: Option<&str>,
) -> (r: Result<PolicyDocument, PolicyError>)
    ensures
        permissions_error(*inline) is None ==> r is Ok,
        match r {
            Ok(p) => synthesized(*inline, name_view(component_name), p) && policy_error(p) is None,
            Err(e) => exists|p: PolicyDocument|
                synthesized(*inline, name_view(component_name), p) && policy_error(p) == Some(e),
        },
{
    let mut description = String::from_str("Auto-generated policy for ");
    match component_name {
        Some(n) => description.append(n),
        None => description.append("component"),
    }
    let network = match &inline.network {
        Some(n) => Some(synthesize_network(n)),
        None => None,
    };
    let storage = match &inline.storage {
        Some(s) => Some(synthesize_storage(s)),
        None => None,
    };
    let environment = match &inline.environment {
        Some(e) => Some(synthesize_environment(e)),
        None => None,
    };
    let resources = match &inline.resources {
        Some(r) => Some(ResourceLimit { memory_bytes: r.memory_bytes, cpu_time_ms: r.cpu_time_ms }),
        None => None,
    };
    let policy = PolicyDocument {
        version: String::from_str("1.0"),
        description: Some(description),
        permissions: Permissions { network, storage, environment, resources },
    };
    assert(synthesized(*inline, name_view(component_name), policy));
    proof {
        if permissions_error(*inline) is None {
            lemma_valid_inline_synthesizes_valid_policy(
                *inline,
                name_view(component_name),
                policy,
            );
        }
    }
    match policy.validate() {
        Ok(()) => Ok(policy),
        Err(e) => Err(e),
    }
}

/// `first_some` is `None` exactly when `f` is `None` over the whole range.
pub proof fn lemma_first_some_none<E>(lo: int, hi: int, f: spec_fn(int) -> Option<E>)
    ensures
        first_some(lo, hi, f) is None <==> forall|i: int| lo <= i < hi ==> (#[trigger] f(i)) is None,
    decreases hi - lo,
{
    if lo < hi {
        lemma_first_some_none(lo + 1, hi, f);
    }
}

/// Synthesis carries valid inline permissions to a policy that passes
/// validation.
pub proof fn lemma_valid_inline_synthesizes_valid_policy(
    inline: InlinePermissions,
    name: Option<Seq<char>>,
    p: PolicyDocument,
)
    requires
        permissions_error(inline) is None,
        synthesized(inline, name, p),
    ensures
        policy_error(p) is None,
{
    if let Some(n) = inline.network {
        let l = p.permissions.network->0;
        let v = l.allow->0;
        lemma_first_some_none(0, n.allow@.len() as int, |i: int| network_rule_error(n.allow@[i]));
        lemma_first_some_none(0, v@.len() as int, |i: int| network_entry_error(v@[i]));
        assert forall|i: int| 0 <= i < v@.len() implies (#[trigger] network_entry_error(v@[i])) is None by {
            assert((|i: int| network_rule_error(n.allow@[i]))(i) is None);
        }
        assert(network_list_error(l.allow) is None);
    }
    if let Some(s) = inline.storage {
        let l = p.permissions.storage->0;
        let v = l.allow->0;
        lemma_first_some_none(0, s.allow@.len() as int, |i: int| storage_rule_error(s.allow@[i]));
        lemma_first_some_none(0, v@.len() as int, |i: int| storage_entry_error(v@[i]));
        assert forall|i: int| 0 <= i < v@.len() implies (#[trigger] storage_entry_error(v@[i])) is None by {
            assert((|i: int| storage_rule_error(s.allow@[i]))(i) is None);
        }
        assert(storage_list_error(l.allow) is None);
    }
    if let Some(e) = inline.environment {
        let q = p.permissions.environment->0;
        let v = q.allow->0;
        lemma_first_some_none(0, e.allow@.len() as int, |i: int| env_rule_error(e.allow@, i));
        lemma_first_some_none(0, v@.len() as int, |i: int| env_entry_error(v@, i));
        assert forall|i: int| 0 <= i < v@.len() implies (#[trigger] env_entry_error(v@, i)) is None by {
            assert((|i: int| env_rule_error(e.allow@, i))(i) is None);
            if exists|j: int| 0 <= j < i && (#[trigger] v@[j]).key@ == v@[i].key@ {
                let j = choose|j: int| 0 <= j < i && (#[trigger] v@[j]).key@ == v@[i].key@;
                assert(e.allow@[j].key@ == e.allow@[i].key@);
            }
        }
        assert(env_list_error(q.allow) is None);
    }
}

/// Two optional network lists hold the same entries.
pub open spec fn same_network_list(a: Option<Vec<NetworkPermission>>, b: Option<Vec<NetworkPermission>>) -> bool {
    match (a, b) {
        (None, None) => true,
        (Some(x), Some(y)) => x@ == y@,
        _ => false,
    }
}

/// Two optional storage lists hold the same entries.
pub open spec fn same_storage_list(a: Option<Vec<StoragePermission>>, b: Option<Vec<StoragePermission>>) -> bool {
    match (a, b) {
        (None, None) => true,
        (Some(x), Some(y)) => x@.len() == y@.len() && forall|i: int|
            0 <= i < x@.len() ==> (#[trigger] x@[i]).uri@ == y@[i].uri@ && x@[i].access@
                == y@[i].access@,
        _ => false,
    }
}

/// Two policies say the same: same version, description and entries.
pub open spec fn same_policy(a: PolicyDocument, b: PolicyDocument) -> bool {
    &&& a.version@ == b.version@
    &&& match (a.description, b.description) {
        (None, None) => true,
        (Some(x), Some(y)) => x@ == y@,
        _ => false,
    }
    &&& match (a.permissions.network, b.permissions.network) {
        (None, None) => true,
        (Some(x), Some(y)) => same_network_list(x.allow, y.allow) && same_network_list(
            x.deny,
            y.deny,
        ),
        _ => false,
    }
    &&& match (a.permissions.storage, b.permissions.storage) {
        (None, None) => true,
        (Some(x), Some(y)) => same_storage_list(x.allow, y.allow) && same_storage_list(x.deny, y.deny),
        _ => false,
    }
    &&& match (a.permissions.environment, b.permissions.environment) {
        (None, None) => true,
        (Some(x), Some(y)) => match (x.allow, y.allow) {
            (None, None) => true,
            (Some(u), Some(v)) => u@.len() == v@.len() && forall|i: int|
                0 <= i < u@.len() ==> (#[trigger] u@[i]).key@ == v@[i].key@,
            _ => false,
        },
        _ => false,
    }
    &&& a.permissions.resources == b.permissions.resources
}

/// Synthesis is a function of the inline permissions and the name: any two
/// policies synthesized from the same inputs say the same.
pub proof fn lemma_synthesis_deterministic(
    inline: InlinePermissions,
    name: Option<Seq<char>>,
    a: PolicyDocument,
    b: PolicyDocument,
)
    requires
        synthesized(inline, name, a),
        synthesized(inline, name, b),
    ensures
        same_policy(a, b),
{
    if let Some(n) = inline.network {
        let u = a.permissions.network->0.allow->0;
        let v = b.permissions.network->0.allow->0;
        assert(u@ =~= v@);
    }
}

} // verus!
