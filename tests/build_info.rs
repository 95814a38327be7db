use wassette::utils::{
    default_bind_address, format_build_info, format_build_info_from, parse_env_var, BuildInfo,
    PKG_VERSION,
};

#[test]
fn test_version_format_contains_required_fields() {
    let version_info = format_build_info();
    assert!(version_info.contains("version.BuildInfo"));
    assert!(version_info.contains("RustVersion"));
    assert!(version_info.contains("BuildProfile"));
    assert!(version_info.contains("BuildStatus"));
    assert!(version_info.contains("GitTag"));
    assert!(version_info.contains("Version"));
    assert!(version_info.contains("GitRevision"));
}

#[test]
fn test_version_contains_cargo_version() {
    let version_info = format_build_info();
    assert!(version_info.contains(PKG_VERSION));
}

#[test]
fn banner_with_git_state() {
    let info = BuildInfo {
        pkg_version: "1.2.3".to_string(),
        rustc_version: "rustc 1.88.0 (6b00bc388 2025-06-23)".to_string(),
        profile: "release".to_string(),
        git_dirty: Some(true),
        git_version: Some("v1.2.3".to_string()),
        git_commit_hash: Some("abc123".to_string()),
    };
    assert_eq!(
        format_build_info_from(&info),
        "1.2.3 version.BuildInfo{RustVersion:\"1.88.0\", BuildProfile:\"release\", BuildStatus:\"Modified\", GitTag:\"v1.2.3\", Version:\"abc123-dirty\", GitRevision:\"abc123\"}"
    );
}

#[test]
fn banner_without_git_state() {
    let info = BuildInfo {
        pkg_version: "0.1.0".to_string(),
        rustc_version: "rustc-nightly".to_string(),
        profile: "debug".to_string(),
        git_dirty: None,
        git_version: None,
        git_commit_hash: None,
    };
    assert_eq!(
        format_build_info_from(&info),
        "0.1.0 version.BuildInfo{RustVersion:\"unknown\", BuildProfile:\"debug\", BuildStatus:\"Clean\", GitTag:\"unknown\", Version:\"unknown\", GitRevision:\"unknown\"}"
    );
}

#[test]
fn env_var_parsing() {
    assert_eq!(parse_env_var("KEY=a=b"), Ok(("KEY".to_string(), "a=b".to_string())));
    assert_eq!(parse_env_var("K="), Ok(("K".to_string(), String::new())));
    assert_eq!(
        parse_env_var("=v"),
        Err("Environment variable key cannot be empty".to_string())
    );
    assert_eq!(
        parse_env_var("novalue"),
        Err("Environment variable must be in KEY=VALUE format".to_string())
    );
}

#[test]
fn test_bind_address_default() {
    assert_eq!(default_bind_address(), "127.0.0.1:9001");
}
