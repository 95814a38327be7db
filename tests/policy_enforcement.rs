use wassette::manifest::AccessType;
use wassette::policy::{
    check_capability, host_pattern_matches, CapabilityRequest, EnvironmentPermission,
    EnvironmentPermissions, NetworkHostPermission, NetworkPermission, PermissionList, Permissions,
    PolicyDocument, PolicyError, ResourceLimit, StoragePermission,
};

fn host(h: &str) -> NetworkPermission {
    NetworkPermission::Host(NetworkHostPermission { host: h.to_string() })
}

fn policy() -> PolicyDocument {
    PolicyDocument {
        version: "1.0".to_string(),
        description: None,
        permissions: Permissions {
            network: Some(PermissionList {
                allow: Some(vec![host("127.0.0.1"), host("*.example.com")]),
                deny: Some(vec![host("bad.example.com")]),
            }),
            storage: Some(PermissionList {
                allow: Some(vec![StoragePermission {
                    uri: "fs:///tmp/data".to_string(),
                    access: vec![AccessType::Read],
                }]),
                deny: None,
            }),
            environment: Some(EnvironmentPermissions {
                allow: Some(vec![EnvironmentPermission { key: "API_KEY".to_string() }]),
            }),
            resources: Some(ResourceLimit { memory_bytes: Some(1024), cpu_time_ms: None }),
        },
    }
}

#[test]
fn wildcard_matches_one_leading_label() {
    assert!(host_pattern_matches("*.a.b", "x.a.b"));
    assert!(!host_pattern_matches("*.a.b", "a.b"));
    assert!(!host_pattern_matches("*.a.b", "y.x.a.b"));
    assert!(!host_pattern_matches("*.a.b", ".a.b"));
    assert!(host_pattern_matches("a.b", "a.b"));
    assert!(!host_pattern_matches("a.b", "x.a.b"));
}

#[test]
fn network_allow_and_deny() {
    let p = policy();
    assert!(p.may_connect("127.0.0.1"));
    assert!(p.may_connect("api.example.com"));
    assert!(!p.may_connect("bad.example.com"));
    assert!(!p.may_connect("example.com"));
    assert!(!p.may_connect("10.0.0.1"));
}

#[test]
fn storage_paths_and_modes() {
    let p = policy();
    assert!(p.may_open_path("/tmp/data", AccessType::Read));
    assert!(p.may_open_path("/tmp/data/x.txt", AccessType::Read));
    assert!(!p.may_open_path("/tmp/database", AccessType::Read));
    assert!(!p.may_open_path("/tmp/data/x.txt", AccessType::Write));
    assert!(!p.may_open_path("/etc/passwd", AccessType::Read));
}

#[test]
fn environment_and_memory() {
    let p = policy();
    assert!(p.may_read_env("API_KEY"));
    assert!(!p.may_read_env("HOME"));
    assert_eq!(p.memory_ceiling_bytes(), Some(1024));
}

#[test]
fn capability_denial_without_policy_or_grant() {
    let p = policy();
    let req = CapabilityRequest::Connect { host: "127.0.0.1".to_string() };
    assert!(check_capability(Some(&p), &req));
    assert!(!check_capability(None, &req));
    let other = CapabilityRequest::Connect { host: "127.0.0.2".to_string() };
    assert!(!check_capability(Some(&p), &other));
    let env = CapabilityRequest::ReadEnv { key: "PATH".to_string() };
    assert!(!check_capability(Some(&p), &env));
    let open = CapabilityRequest::Open { path: "/tmp/data/a".to_string(), mode: AccessType::Read };
    assert!(check_capability(Some(&p), &open));
}

#[test]
fn policy_validation_errors() {
    assert_eq!(policy().validate(), Ok(()));
    let mut p = policy();
    p.permissions.network = Some(PermissionList { allow: Some(vec![host("")]), deny: None });
    assert_eq!(p.validate(), Err(PolicyError::EmptyHost));
    let mut p = policy();
    p.permissions.storage = Some(PermissionList {
        allow: None,
        deny: Some(vec![StoragePermission { uri: "fs:///x".to_string(), access: vec![] }]),
    });
    assert_eq!(p.validate(), Err(PolicyError::EmptyAccess));
    let mut p = policy();
    p.permissions.environment = Some(EnvironmentPermissions {
        allow: Some(vec![
            EnvironmentPermission { key: "K".to_string() },
            EnvironmentPermission { key: "K".to_string() },
        ]),
    });
    assert_eq!(p.validate(), Err(PolicyError::DuplicateEnvKey { key: "K".to_string() }));
}
