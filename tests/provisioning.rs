use wassette::manifest::{
    ComponentDeclaration, EnvironmentPermissions, EnvironmentRule, InlinePermissions,
    NetworkPermissions, NetworkRule, ProvisioningManifest,
};
use wassette::provisioning_controller::{
    content_digest, digest_matches, hash_string, DigestError, ProvisionFailure,
    ProvisioningController, SecretSource,
};

fn declaration(uri: &str, name: Option<&str>) -> ComponentDeclaration {
    ComponentDeclaration {
        uri: uri.to_string(),
        name: name.map(|n| n.to_string()),
        digest: None,
        permissions: InlinePermissions {
            network: Some(NetworkPermissions {
                allow: vec![NetworkRule { host: "api.example.com".to_string() }],
            }),
            storage: None,
            environment: None,
            resources: None,
        },
        retry_policy: None,
    }
}

#[test]
fn test_hash_string() {
    let hash1 = hash_string("oci://example.com/component:latest");
    let hash2 = hash_string("oci://example.com/component:v1.0.0");
    assert_eq!(hash1, hash_string("oci://example.com/component:latest"));
    assert_eq!(hash2, hash_string("oci://example.com/component:v1.0.0"));
    assert_ne!(hash1, hash2);
}

#[test]
fn hash_string_exact_values() {
    assert_eq!(hash_string(""), "0000000000000000");
    assert_eq!(hash_string("a"), "0000000000000061");
    // 'a' * 31 + 'b' = 97 * 31 + 98 = 3105 = 0xc21
    assert_eq!(hash_string("ab"), "0000000000000c21");
}

#[test]
fn test_synthesize_policy() {
    let component = declaration("oci://example.com/test:latest", Some("test"));
    let manifest = ProvisioningManifest { version: 1, components: vec![component.clone()] };
    let hash = hash_string(&component.uri);
    assert_eq!(hash, hash_string(&component.uri));
    let controller = ProvisioningController::new(&manifest, "/tmp/plugins");
    assert_eq!(
        controller.policy_file_name(&component),
        format!("temp_{}.policy.yaml", hash)
    );
}

#[test]
fn test_seed_secrets_basic() {
    let mut component = declaration("oci://example.com/test:latest", Some("test"));
    component.permissions.environment = Some(EnvironmentPermissions {
        allow: vec![
            EnvironmentRule { key: "API_KEY".to_string(), value_from: Some("TEST_API_KEY".to_string()) },
            EnvironmentRule { key: "TOKEN".to_string(), value_from: None },
        ],
    });
    let manifest = ProvisioningManifest { version: 1, components: vec![component.clone()] };
    let controller = ProvisioningController::new(&manifest, "/tmp");
    assert_eq!(
        controller.secret_sources(&component),
        vec![
            SecretSource { key: "API_KEY".to_string(), variable: "TEST_API_KEY".to_string() },
            SecretSource { key: "TOKEN".to_string(), variable: "TOKEN".to_string() },
        ]
    );
}

#[test]
fn failures_are_collected_and_later_components_still_run() {
    let manifest = ProvisioningManifest {
        version: 1,
        components: vec![
            declaration("oci://example.com/a:1", Some("first")),
            declaration("oci://example.com/b:1", None),
            declaration("oci://example.com/c:1", Some("third")),
        ],
    };
    let mut controller = ProvisioningController::new(&manifest, "/tmp");
    let mut visited = Vec::new();
    while let Some(c) = controller.current() {
        visited.push(c.uri.clone());
        let outcome = if c.name.as_deref() == Some("third") { Ok(()) } else { Err("boom".to_string()) };
        controller.record(outcome);
    }
    assert_eq!(visited.len(), 3);
    assert_eq!(
        controller.finish(),
        Err(vec![
            ProvisionFailure { component: "first".to_string(), reason: "boom".to_string() },
            ProvisionFailure { component: "oci://example.com/b:1".to_string(), reason: "boom".to_string() },
        ])
    );
}

#[test]
fn all_components_succeeding_finishes_ok() {
    let manifest = ProvisioningManifest {
        version: 1,
        components: vec![declaration("oci://example.com/a:1", None)],
    };
    let mut controller = ProvisioningController::new(&manifest, "/tmp");
    controller.record(Ok(()));
    assert!(controller.current().is_none());
    assert_eq!(controller.finish(), Ok(()));
}

#[test]
fn digest_verification() {
    // SHA-256 of "abc"
    let abc = "ba7816bf8f01cfea414140de5dae2223b00361a396177a9cb410ff61f20015ad";
    assert_eq!(content_digest(b"abc"), abc);
    let component = declaration("oci://example.com/a:1", None);
    let manifest = ProvisioningManifest { version: 1, components: vec![component.clone()] };
    let controller = ProvisioningController::new(&manifest, "/tmp");
    let declared = format!("sha256:{}", abc.to_uppercase());
    assert_eq!(controller.verify_digest(&component, &declared, b"abc"), Ok(()));
    assert_eq!(
        controller.verify_digest(&component, &declared, b"abd"),
        Err(DigestError::Mismatch { expected: declared.clone(), actual: content_digest(b"abd") })
    );
    assert!(matches!(
        controller.verify_digest(&component, "md5:1", b"abc"),
        Err(DigestError::Malformed { .. })
    ));
    assert!(digest_matches(&format!("sha256:{}", abc), abc));
    assert!(!digest_matches(abc, abc));
}
