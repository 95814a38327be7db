use wassette::component_registry::{ComponentRegistry, LoadedComponent, RegistryError};
use wassette::component_storage::{
    install_plan, precompiled_usable, ArtifactKind, ComponentMetadata, ComponentStorage,
    FileObservation, FileOp, ValidationStamp,
};
use wassette::policy::{
    check_capability, environment_projection, CapabilityRequest, NetworkHostPermission,
    NetworkPermission, PermissionList, Permissions, PolicyDocument,
};
use wassette::provisioning_controller::content_digest;
use wassette::reference::{component_id, parse_reference};

fn network_policy(hosts: &[&str]) -> PolicyDocument {
    PolicyDocument {
        version: "1.0".to_string(),
        description: None,
        permissions: Permissions {
            network: Some(PermissionList {
                allow: Some(
                    hosts
                        .iter()
                        .map(|h| NetworkPermission::Host(NetworkHostPermission { host: h.to_string() }))
                        .collect(),
                ),
                deny: None,
            }),
            storage: None,
            environment: None,
            resources: None,
        },
    }
}

#[test]
fn load_file_component_invoke_unload() {
    let reference = parse_reference("file:///tmp/fetch.wasm").unwrap();
    let id = component_id(&reference);
    assert_eq!(id, "fetch");
    let policy = network_policy(&["127.0.0.1"]);
    let mut registry = ComponentRegistry::new();
    registry
        .load(LoadedComponent {
            component_id: id.clone(),
            source: "file:///tmp/fetch.wasm".to_string(),
            tools: vec!["fetch".to_string()],
            policy: Some(policy.clone()),
        })
        .unwrap();
    assert_eq!(registry.component_for_tool("fetch"), Ok(id.clone()));
    let connect = CapabilityRequest::Connect { host: "127.0.0.1".to_string() };
    assert!(check_capability(Some(&policy), &connect));
    registry.unload(&id).unwrap();
    assert!(registry.tools().is_empty());
    assert_eq!(
        registry.component_for_tool("fetch"),
        Err(RegistryError::ToolNotFound { name: "fetch".to_string() })
    );
}

#[test]
fn capability_denied_when_policy_omits_host() {
    let policy = network_policy(&["example.com"]);
    let connect = CapabilityRequest::Connect { host: "127.0.0.1".to_string() };
    assert!(!check_capability(Some(&policy), &connect));
}

#[test]
fn multi_layer_oci_install_writes_component_and_policy() {
    let reference = parse_reference("oci://reg/x/qr:v1").unwrap();
    let id = component_id(&reference);
    let storage = ComponentStorage::new("/root", 4);
    let plan = install_plan(true);
    let written: Vec<String> = plan
        .iter()
        .filter_map(|op| match op {
            FileOp::Write(kind) => Some(storage.artifact_path(&id, *kind)),
            FileOp::Remove(_) => None,
        })
        .collect();
    assert_eq!(
        written,
        vec![format!("/root/{id}.wasm"), format!("/root/{id}.policy.yaml")]
    );
    let mut registry = ComponentRegistry::new();
    registry
        .load(LoadedComponent {
            component_id: id.clone(),
            source: "oci://reg/x/qr:v1".to_string(),
            tools: vec!["generate-qr".to_string()],
            policy: None,
        })
        .unwrap();
    assert_eq!(registry.component_for_tool("generate-qr"), Ok(id));
    assert_eq!(storage.artifact_path("qr", ArtifactKind::Metadata), "/root/qr.meta.json");
}

#[test]
fn environment_is_projected_through_the_policy() {
    let mut policy = network_policy(&[]);
    policy.permissions.environment = Some(wassette::policy::EnvironmentPermissions {
        allow: Some(vec![wassette::policy::EnvironmentPermission { key: "API_KEY".to_string() }]),
    });
    let available = vec![
        ("HOME".to_string(), "/root".to_string()),
        ("API_KEY".to_string(), "secret".to_string()),
    ];
    assert_eq!(
        environment_projection(Some(&policy), &available),
        vec![("API_KEY".to_string(), "secret".to_string())]
    );
    assert!(environment_projection(None, &available).is_empty());
}

#[test]
fn precompiled_cache_follows_engine_and_stamp() {
    let wasm = b"\0asm";
    let obs = FileObservation { size: 4, mtime: 10 };
    let meta = ComponentMetadata {
        component_id: "fetch".to_string(),
        source_reference: "file:///tmp/fetch.wasm".to_string(),
        wasm_stamp: ValidationStamp {
            file_size: 4,
            mtime: 10,
            content_hash: Some(content_digest(wasm)),
        },
        precompiled_stamp: None,
        tool_names: vec!["fetch".to_string()],
        engine: "engine-1".to_string(),
        loaded_at: 0,
    };
    assert!(precompiled_usable(&meta, "engine-1", Some(obs), Some(wasm)));
    assert!(!precompiled_usable(&meta, "engine-2", Some(obs), Some(wasm)));
    assert!(!precompiled_usable(&meta, "engine-1", Some(obs), Some(b"\0asN")));
    assert!(!precompiled_usable(&meta, "engine-1", None, Some(wasm)));
}
