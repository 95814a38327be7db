use wassette::tools::ToolName;

#[test]
fn test_tool_name_from_str() {
    assert_eq!(ToolName::try_from("load-component").unwrap(), ToolName::LoadComponent);
    assert_eq!(ToolName::try_from("unload-component").unwrap(), ToolName::UnloadComponent);
    assert_eq!(ToolName::try_from("list-components").unwrap(), ToolName::ListComponents);
    assert_eq!(ToolName::try_from("get-policy").unwrap(), ToolName::GetPolicy);
    assert_eq!(
        ToolName::try_from("grant-storage-permission").unwrap(),
        ToolName::GrantStoragePermission
    );
    assert_eq!(
        ToolName::try_from("grant-network-permission").unwrap(),
        ToolName::GrantNetworkPermission
    );
    assert_eq!(
        ToolName::try_from("grant-environment-variable-permission").unwrap(),
        ToolName::GrantEnvironmentVariablePermission
    );
    assert_eq!(
        ToolName::try_from("grant-memory-permission").unwrap(),
        ToolName::GrantMemoryPermission
    );
    assert_eq!(
        ToolName::try_from("revoke-storage-permission").unwrap(),
        ToolName::RevokeStoragePermission
    );
    assert_eq!(
        ToolName::try_from("revoke-network-permission").unwrap(),
        ToolName::RevokeNetworkPermission
    );
    assert_eq!(
        ToolName::try_from("revoke-environment-variable-permission").unwrap(),
        ToolName::RevokeEnvironmentVariablePermission
    );
    assert_eq!(ToolName::try_from("reset-permission").unwrap(), ToolName::ResetPermission);

    assert!(ToolName::try_from("invalid-tool").is_err());
}

#[test]
fn test_tool_name_as_str() {
    assert_eq!(ToolName::LoadComponent.as_str(), "load-component");
    assert_eq!(ToolName::UnloadComponent.as_str(), "unload-component");
    assert_eq!(ToolName::ListComponents.as_str(), "list-components");
    assert_eq!(ToolName::GetPolicy.as_str(), "get-policy");
    assert_eq!(ToolName::GrantStoragePermission.as_str(), "grant-storage-permission");
    assert_eq!(ToolName::GrantNetworkPermission.as_str(), "grant-network-permission");
    assert_eq!(
        ToolName::GrantEnvironmentVariablePermission.as_str(),
        "grant-environment-variable-permission"
    );
    assert_eq!(ToolName::GrantMemoryPermission.as_str(), "grant-memory-permission");
    assert_eq!(ToolName::RevokeStoragePermission.as_str(), "revoke-storage-permission");
    assert_eq!(ToolName::RevokeNetworkPermission.as_str(), "revoke-network-permission");
    assert_eq!(
        ToolName::RevokeEnvironmentVariablePermission.as_str(),
        "revoke-environment-variable-permission"
    );
    assert_eq!(ToolName::ResetPermission.as_str(), "reset-permission");
}

#[test]
fn test_tool_name_roundtrip() {
    let test_cases = [
        ToolName::LoadComponent,
        ToolName::UnloadComponent,
        ToolName::ListComponents,
        ToolName::GetPolicy,
        ToolName::GrantStoragePermission,
        ToolName::GrantNetworkPermission,
        ToolName::GrantEnvironmentVariablePermission,
        ToolName::GrantMemoryPermission,
        ToolName::RevokeStoragePermission,
        ToolName::RevokeNetworkPermission,
        ToolName::RevokeEnvironmentVariablePermission,
        ToolName::ResetPermission,
    ];
    for tool in test_cases {
        let str_repr = tool.as_str();
        let parsed = ToolName::try_from(str_repr).unwrap();
        assert_eq!(tool, parsed);
    }
}

#[test]
fn unknown_tool_name_keeps_the_name() {
    let err = ToolName::try_from("nope".to_string()).unwrap_err();
    assert_eq!(err.name, "nope");
}
