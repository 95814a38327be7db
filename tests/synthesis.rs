use wassette::manifest::{
    AccessType, EnvironmentPermissions as ManifestEnvPerms, EnvironmentRule, InlinePermissions,
    NetworkPermissions as ManifestNetPerms, NetworkRule, StoragePermissions as ManifestStoragePerms,
    StorageRule,
};
use wassette::permission_synthesis::synthesize_policy_from_inline;
use wassette::policy::{NetworkPermission, PolicyError};

#[test]
fn test_synthesize_network_only() {
    let inline = InlinePermissions {
        network: Some(ManifestNetPerms {
            allow: vec![
                NetworkRule { host: "api.example.com".to_string() },
                NetworkRule { host: "*.google.com".to_string() },
            ],
        }),
        storage: None,
        environment: None,
        resources: None,
    };
    let policy = synthesize_policy_from_inline(&inline, Some("test-component")).unwrap();
    assert_eq!(policy.version, "1.0");
    assert!(policy.description.is_some());
    assert_eq!(
        policy.description.as_deref(),
        Some("Auto-generated policy for test-component")
    );
    let network = policy.permissions.network.unwrap();
    let allow = network.allow.unwrap();
    assert_eq!(allow.len(), 2);
    match &allow[0] {
        NetworkPermission::Host(h) => assert_eq!(h.host, "api.example.com"),
    }
    assert!(network.deny.is_none());
}

#[test]
fn test_synthesize_storage_only() {
    let inline = InlinePermissions {
        network: None,
        storage: Some(ManifestStoragePerms {
            allow: vec![StorageRule {
                uri: "fs:///tmp/data".to_string(),
                access: vec![AccessType::Read, AccessType::Write],
            }],
        }),
        environment: None,
        resources: None,
    };
    let policy = synthesize_policy_from_inline(&inline, Some("test-component")).unwrap();
    let storage = policy.permissions.storage.unwrap();
    let allow = storage.allow.unwrap();
    assert_eq!(allow.len(), 1);
    assert_eq!(allow[0].uri, "fs:///tmp/data");
    assert_eq!(allow[0].access.len(), 2);
}

#[test]
fn test_synthesize_environment_only() {
    let inline = InlinePermissions {
        network: None,
        storage: None,
        environment: Some(ManifestEnvPerms {
            allow: vec![
                EnvironmentRule { key: "API_KEY".to_string(), value_from: None },
                EnvironmentRule {
                    key: "DATABASE_URL".to_string(),
                    value_from: Some("DB_URL".to_string()),
                },
            ],
        }),
        resources: None,
    };
    let policy = synthesize_policy_from_inline(&inline, Some("test-component")).unwrap();
    let env = policy.permissions.environment.unwrap();
    let allow = env.allow.unwrap();
    assert_eq!(allow.len(), 2);
    assert_eq!(allow[0].key, "API_KEY");
    assert_eq!(allow[1].key, "DATABASE_URL");
}

#[test]
fn test_synthesize_all_permissions() {
    let inline = InlinePermissions {
        network: Some(ManifestNetPerms {
            allow: vec![NetworkRule { host: "api.example.com".to_string() }],
        }),
        storage: Some(ManifestStoragePerms {
            allow: vec![StorageRule {
                uri: "fs:///tmp/data".to_string(),
                access: vec![AccessType::Read],
            }],
        }),
        environment: Some(ManifestEnvPerms {
            allow: vec![EnvironmentRule { key: "API_KEY".to_string(), value_from: None }],
        }),
        resources: None,
    };
    let policy = synthesize_policy_from_inline(&inline, Some("test-component")).unwrap();
    assert!(policy.permissions.network.is_some());
    assert!(policy.permissions.storage.is_some());
    assert!(policy.permissions.environment.is_some());
}

#[test]
fn synthesized_policy_without_name_and_with_resources() {
    let inline = InlinePermissions {
        network: None,
        storage: None,
        environment: None,
        resources: Some(wassette::manifest::ResourceLimits {
            memory_bytes: Some(1 << 20),
            cpu_time_ms: None,
        }),
    };
    let policy = synthesize_policy_from_inline(&inline, None).unwrap();
    assert_eq!(policy.description.as_deref(), Some("Auto-generated policy for component"));
    assert_eq!(policy.memory_ceiling_bytes(), Some(1 << 20));
    assert!(policy.validate().is_ok());
}

#[test]
fn synthesis_fails_on_a_policy_that_does_not_validate() {
    let inline = InlinePermissions {
        network: None,
        storage: Some(ManifestStoragePerms {
            allow: vec![StorageRule { uri: "/tmp".to_string(), access: vec![AccessType::Read] }],
        }),
        environment: None,
        resources: None,
    };
    assert_eq!(
        synthesize_policy_from_inline(&inline, None).unwrap_err(),
        PolicyError::StorageUriNotFs { uri: "/tmp".to_string() }
    );
}

#[test]
fn synthesis_is_deterministic_and_revalidates() {
    let inline = InlinePermissions {
        network: Some(ManifestNetPerms {
            allow: vec![NetworkRule { host: "api.example.com".to_string() }],
        }),
        storage: Some(ManifestStoragePerms {
            allow: vec![StorageRule {
                uri: "fs:///tmp/data".to_string(),
                access: vec![AccessType::Read, AccessType::Write],
            }],
        }),
        environment: Some(ManifestEnvPerms {
            allow: vec![EnvironmentRule { key: "API_KEY".to_string(), value_from: None }],
        }),
        resources: None,
    };
    assert!(inline.validate().is_ok());
    let a = synthesize_policy_from_inline(&inline, Some("svc")).unwrap();
    let b = synthesize_policy_from_inline(&inline, Some("svc")).unwrap();
    assert_eq!(a, b);
    assert_eq!(a.validate(), Ok(()));
}
