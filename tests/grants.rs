use wassette::component_registry::{ComponentRegistry, LoadedComponent, RegistryError};
use wassette::manifest::AccessType;
use wassette::policy::{
    check_capability, CapabilityRequest, NetworkHostPermission, NetworkPermission, PermissionList,
    Permissions, PolicyDocument, PolicyError,
};

fn empty_policy() -> PolicyDocument {
    PolicyDocument {
        version: "1.0".to_string(),
        description: None,
        permissions: Permissions { network: None, storage: None, environment: None, resources: None },
    }
}

#[test]
fn test_grant_permission_network_basic() {
    let mut p = empty_policy();
    assert!(!p.may_connect("api.example.com"));
    p.grant_network("api.example.com");
    assert!(p.may_connect("api.example.com"));
    p.grant_network("api.example.com");
    assert_eq!(p.permissions.network.as_ref().unwrap().allow.as_ref().unwrap().len(), 1);
    p.revoke_network("api.example.com");
    assert!(!p.may_connect("api.example.com"));
}

#[test]
fn grant_keeps_deny_list() {
    let mut p = empty_policy();
    p.permissions.network = Some(PermissionList {
        allow: None,
        deny: Some(vec![NetworkPermission::Host(NetworkHostPermission { host: "x.com".to_string() })]),
    });
    p.grant_network("x.com");
    assert!(!p.may_connect("x.com"));
}

#[test]
fn storage_environment_memory_and_reset() {
    let mut p = empty_policy();
    p.grant_storage("fs:///tmp/data", vec![AccessType::Read]);
    assert!(p.may_open_path("/tmp/data/a", AccessType::Read));
    assert!(!p.may_open_path("/tmp/data/a", AccessType::Write));
    p.grant_storage("fs:///tmp/data", vec![AccessType::Read, AccessType::Write]);
    assert!(p.may_open_path("/tmp/data/a", AccessType::Write));
    assert_eq!(p.permissions.storage.as_ref().unwrap().allow.as_ref().unwrap().len(), 1);
    p.revoke_storage("fs:///tmp/data");
    assert!(!p.may_open_path("/tmp/data/a", AccessType::Read));

    p.grant_environment("API_KEY");
    assert!(p.may_read_env("API_KEY"));
    p.revoke_environment("API_KEY");
    assert!(!p.may_read_env("API_KEY"));

    p.grant_memory(1 << 20);
    assert_eq!(p.memory_ceiling_bytes(), Some(1 << 20));

    p.grant_network("h");
    p.reset();
    assert!(!check_capability(Some(&p), &CapabilityRequest::Connect { host: "h".to_string() }));
    assert_eq!(p.memory_ceiling_bytes(), None);
}

#[test]
fn attach_policy_validates_and_replaces() {
    let mut r = ComponentRegistry::new();
    r.load(LoadedComponent {
        component_id: "fetch".to_string(),
        source: "file:///tmp/fetch.wasm".to_string(),
        tools: vec!["fetch".to_string()],
        policy: None,
    })
    .unwrap();
    assert_eq!(r.policy("fetch"), Ok(None));
    let mut good = empty_policy();
    good.grant_network("127.0.0.1");
    assert_eq!(r.attach_policy("fetch", good.clone()), Ok(()));
    assert_eq!(r.policy("fetch"), Ok(Some(&good)));
    let mut bad = empty_policy();
    bad.grant_environment("");
    assert_eq!(
        r.attach_policy("fetch", bad),
        Err(RegistryError::PolicyValidation { error: PolicyError::EmptyEnvKey })
    );
    assert_eq!(r.policy("fetch"), Ok(Some(&good)));
    assert_eq!(
        r.attach_policy("nope", good.clone()),
        Err(RegistryError::NotFound { component_id: "nope".to_string() })
    );
    assert_eq!(r.component_for_tool("fetch"), Ok("fetch".to_string()));
}
