use wassette::manifest::{
    AccessType, ComponentDeclaration, DeclarationError, EnvironmentPermissions, EnvironmentRule,
    InlinePermissions, ManifestError, NetworkPermissions, NetworkRule, PermissionError,
    ProvisioningManifest, StoragePermissions, StorageRule,
};

fn no_permissions() -> InlinePermissions {
    InlinePermissions { network: None, storage: None, environment: None, resources: None }
}

fn network(hosts: &[&str]) -> InlinePermissions {
    InlinePermissions {
        network: Some(NetworkPermissions {
            allow: hosts.iter().map(|h| NetworkRule { host: h.to_string() }).collect(),
        }),
        ..no_permissions()
    }
}

fn component(uri: &str, permissions: InlinePermissions) -> ComponentDeclaration {
    ComponentDeclaration {
        uri: uri.to_string(),
        name: None,
        digest: None,
        permissions,
        retry_policy: None,
    }
}

fn manifest(components: Vec<ComponentDeclaration>) -> ProvisioningManifest {
    ProvisioningManifest { version: 1, components }
}

#[test]
fn test_parse_valid_manifest() {
    let mut c = component(
        "oci://ghcr.io/microsoft/get-weather-js:1.2.3",
        InlinePermissions {
            environment: Some(EnvironmentPermissions {
                allow: vec![EnvironmentRule {
                    key: "OPENWEATHER_API_KEY".to_string(),
                    value_from: None,
                }],
            }),
            ..network(&["api.openweathermap.com"])
        },
    );
    c.name = Some("weather-service".to_string());
    c.digest = Some(
        "sha256:1234567890abcdef1234567890abcdef1234567890abcdef1234567890abcdef".to_string(),
    );
    let m = manifest(vec![c]);
    assert_eq!(m.version, 1);
    assert_eq!(m.components.len(), 1);
    assert_eq!(m.components[0].uri, "oci://ghcr.io/microsoft/get-weather-js:1.2.3");
    m.validate().unwrap();
}

#[test]
fn test_parse_multi_component_manifest() {
    let m = manifest(vec![
        component("oci://example.com/component1:latest", network(&["api.example.com"])),
        component(
            "file:///opt/components/component2.wasm",
            InlinePermissions {
                storage: Some(StoragePermissions {
                    allow: vec![StorageRule {
                        uri: "fs:///tmp/data".to_string(),
                        access: vec![AccessType::Read, AccessType::Write],
                    }],
                }),
                ..no_permissions()
            },
        ),
    ]);
    assert_eq!(m.components.len(), 2);
    m.validate().unwrap();
}

#[test]
fn test_invalid_version() {
    let m = ProvisioningManifest { version: 2, components: vec![] };
    assert!(m.validate().is_err());
    assert_eq!(m.validate(), Err(ManifestError::UnsupportedVersion { version: 2 }));
}

#[test]
fn test_empty_components() {
    let m = ProvisioningManifest { version: 1, components: vec![] };
    assert!(m.validate().is_err());
    assert_eq!(m.validate(), Err(ManifestError::NoComponents));
}

#[test]
fn test_duplicate_uris() {
    let m = manifest(vec![
        component("oci://example.com/component:latest", network(&["api.example.com"])),
        component("oci://example.com/component:latest", network(&["api.example.com"])),
    ]);
    assert!(m.validate().is_err());
    assert_eq!(
        m.validate(),
        Err(ManifestError::DuplicateUris {
            uris: vec!["oci://example.com/component:latest".to_string()]
        })
    );
}

#[test]
fn duplicate_uris_reports_each_repeat() {
    let m = manifest(vec![
        component("oci://a/x:1", network(&["h"])),
        component("oci://b/y:1", network(&["h"])),
        component("oci://a/x:1", network(&["h"])),
        component("oci://a/x:1", network(&["h"])),
    ]);
    assert_eq!(
        m.validate(),
        Err(ManifestError::DuplicateUris {
            uris: vec!["oci://a/x:1".to_string(), "oci://a/x:1".to_string()]
        })
    );
}

#[test]
fn test_invalid_uri_scheme() {
    let m = manifest(vec![component("invalid://example.com/component", network(&["api.example.com"]))]);
    assert!(m.validate().is_err());
    assert_eq!(
        m.validate(),
        Err(ManifestError::InvalidComponent {
            index: 0,
            error: DeclarationError::UnsupportedScheme {
                uri: "invalid://example.com/component".to_string()
            },
        })
    );
}

#[test]
fn test_invalid_digest_format() {
    let mut c = component("oci://example.com/component:latest", network(&["api.example.com"]));
    c.digest = Some("invalid-digest".to_string());
    let m = manifest(vec![c]);
    assert!(m.validate().is_err());
}

#[test]
fn digest_errors_by_kind() {
    let mut c = component("oci://example.com/c:1", network(&["h"]));
    c.digest = Some("sha256:abc".to_string());
    assert_eq!(c.validate(), Err(DeclarationError::DigestLength { len: 3 }));
    c.digest = Some(format!("sha256:{}", "g".repeat(64)));
    assert_eq!(c.validate(), Err(DeclarationError::DigestNotHex));
    c.digest = Some(format!("sha256:{}", "aB".repeat(32)));
    assert_eq!(c.validate(), Ok(()));
    c.digest = Some("md5:00".to_string());
    assert_eq!(
        c.validate(),
        Err(DeclarationError::DigestPrefix { digest: "md5:00".to_string() })
    );
}

#[test]
fn empty_uri_is_rejected() {
    let c = component("", network(&["h"]));
    assert_eq!(c.validate(), Err(DeclarationError::EmptyUri));
}

#[test]
fn test_empty_inline_permissions() {
    let m = manifest(vec![component("oci://example.com/component:latest", no_permissions())]);
    assert!(m.validate().is_err());
    assert_eq!(
        m.validate(),
        Err(ManifestError::InvalidComponent {
            index: 0,
            error: DeclarationError::Permissions(PermissionError::NoPermissionClass),
        })
    );
}

#[test]
fn test_invalid_storage_uri() {
    let m = manifest(vec![component(
        "oci://example.com/component:latest",
        InlinePermissions {
            storage: Some(StoragePermissions {
                allow: vec![StorageRule { uri: "/tmp/data".to_string(), access: vec![AccessType::Read] }],
            }),
            ..no_permissions()
        },
    )]);
    assert!(m.validate().is_err());
}

#[test]
fn test_duplicate_env_keys() {
    let m = manifest(vec![component(
        "oci://example.com/component:latest",
        InlinePermissions {
            environment: Some(EnvironmentPermissions {
                allow: vec![
                    EnvironmentRule { key: "API_KEY".to_string(), value_from: None },
                    EnvironmentRule { key: "API_KEY".to_string(), value_from: None },
                ],
            }),
            ..no_permissions()
        },
    )]);
    assert!(m.validate().is_err());
    assert_eq!(
        m.validate(),
        Err(ManifestError::InvalidComponent {
            index: 0,
            error: DeclarationError::Permissions(PermissionError::DuplicateEnvKey {
                key: "API_KEY".to_string()
            }),
        })
    );
}

#[test]
fn permission_errors_by_kind() {
    assert_eq!(
        network(&[]).validate(),
        Err(PermissionError::EmptyNetworkAllow)
    );
    assert_eq!(network(&["a", ""]).validate(), Err(PermissionError::EmptyHost));
    let storage = |uri: &str, access: Vec<AccessType>| InlinePermissions {
        storage: Some(StoragePermissions { allow: vec![StorageRule { uri: uri.to_string(), access }] }),
        ..no_permissions()
    };
    assert_eq!(storage("", vec![AccessType::Read]).validate(), Err(PermissionError::EmptyStorageUri));
    assert_eq!(
        storage("file:///x", vec![AccessType::Read]).validate(),
        Err(PermissionError::StorageUriNotFs { uri: "file:///x".to_string() })
    );
    assert_eq!(storage("fs:///x", vec![]).validate(), Err(PermissionError::EmptyAccess));
    let env = |keys: &[&str]| InlinePermissions {
        environment: Some(EnvironmentPermissions {
            allow: keys
                .iter()
                .map(|k| EnvironmentRule { key: k.to_string(), value_from: None })
                .collect(),
        }),
        ..no_permissions()
    };
    assert_eq!(env(&[]).validate(), Err(PermissionError::EmptyEnvironmentAllow));
    assert_eq!(env(&["A", ""]).validate(), Err(PermissionError::EmptyEnvKey));
    assert_eq!(env(&["A", "B"]).validate(), Ok(()));
    let resources_only = InlinePermissions {
        resources: Some(wassette::manifest::ResourceLimits { memory_bytes: Some(1), cpu_time_ms: None }),
        ..no_permissions()
    };
    assert_eq!(resources_only.validate(), Ok(()));
}

#[test]
fn second_invalid_component_reports_its_index() {
    let m = manifest(vec![
        component("oci://a/x:1", network(&["h"])),
        component("ftp://b/y", network(&["h"])),
    ]);
    assert_eq!(
        m.validate(),
        Err(ManifestError::InvalidComponent {
            index: 1,
            error: DeclarationError::UnsupportedScheme { uri: "ftp://b/y".to_string() },
        })
    );
}
