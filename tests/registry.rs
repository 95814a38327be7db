use wassette::component_registry::{
    ComponentRegistry, ListedTool, LoadOutcome, LoadedComponent, RegistryError,
};

fn component(id: &str, tools: &[&str]) -> LoadedComponent {
    LoadedComponent {
        component_id: id.to_string(),
        source: format!("file:///tmp/{id}.wasm"),
        tools: tools.iter().map(|t| t.to_string()).collect(),
        policy: None,
    }
}

#[test]
fn load_invoke_unload() {
    let mut r = ComponentRegistry::new();
    assert_eq!(r.load(component("fetch", &["fetch"])), Ok(LoadOutcome::New));
    assert_eq!(r.component_for_tool("fetch"), Ok("fetch".to_string()));
    assert_eq!(r.list(), vec!["fetch".to_string()]);
    assert_eq!(r.unload("fetch"), Ok(()));
    assert_eq!(
        r.component_for_tool("fetch"),
        Err(RegistryError::ToolNotFound { name: "fetch".to_string() })
    );
    assert_eq!(
        r.unload("fetch"),
        Err(RegistryError::NotFound { component_id: "fetch".to_string() })
    );
    assert!(r.list().is_empty());
}

#[test]
fn tool_name_collision_is_ambiguous() {
    let mut r = ComponentRegistry::new();
    r.load(component("id1", &["fetch"])).unwrap();
    r.load(component("id2", &["fetch", "other"])).unwrap();
    match r.component_for_tool("fetch") {
        Err(RegistryError::Ambiguous { name, mut candidates }) => {
            assert_eq!(name, "fetch");
            candidates.sort();
            assert_eq!(candidates, vec!["id1".to_string(), "id2".to_string()]);
        }
        other => panic!("expected ambiguity, got {other:?}"),
    }
    assert_eq!(r.component_for_tool("other"), Ok("id2".to_string()));
}

#[test]
fn reload_replaces_and_reindexes() {
    let mut r = ComponentRegistry::new();
    r.load(component("qr", &["generate-qr"])).unwrap();
    assert_eq!(r.load(component("qr", &["generate-qr-v2"])), Ok(LoadOutcome::Replaced));
    assert_eq!(r.len(), 1);
    assert!(r.component_for_tool("generate-qr").is_err());
    assert_eq!(r.component_for_tool("generate-qr-v2"), Ok("qr".to_string()));
    assert_eq!(r.schema("qr"), Ok(vec!["generate-qr-v2".to_string()]));
    assert_eq!(
        r.schema("nope"),
        Err(RegistryError::NotFound { component_id: "nope".to_string() })
    );
    assert!(r.contains("qr"));
}

#[test]
fn duplicate_tool_in_one_schema_is_not_ambiguous() {
    let mut r = ComponentRegistry::new();
    r.load(component("a", &["t", "t"])).unwrap();
    assert_eq!(r.component_for_tool("t"), Ok("a".to_string()));
}

#[test]
fn same_id_from_another_source_fails() {
    let mut r = ComponentRegistry::new();
    r.load(component("fetch", &["fetch"])).unwrap();
    let mut other = component("fetch", &["fetch2"]);
    other.source = "oci://reg/x/fetch:v1".to_string();
    assert_eq!(
        r.load(other),
        Err(RegistryError::AmbiguousComponentId {
            component_id: "fetch".to_string(),
            existing_source: "file:///tmp/fetch.wasm".to_string(),
        })
    );
    assert_eq!(r.component_for_tool("fetch"), Ok("fetch".to_string()));
    assert!(r.component_for_tool("fetch2").is_err());
}

#[test]
fn tools_list_prefixes_only_colliding_names() {
    let mut r = ComponentRegistry::new();
    r.load(component("id1", &["fetch", "time"])).unwrap();
    r.load(component("id2", &["fetch"])).unwrap();
    let listed = |c: &str, n: &str, l: &str| ListedTool {
        component_id: c.to_string(),
        name: n.to_string(),
        listed_name: l.to_string(),
    };
    assert_eq!(
        r.tools(),
        vec![
            listed("id1", "fetch", "id1/fetch"),
            listed("id1", "time", "time"),
            listed("id2", "fetch", "id2/fetch"),
        ]
    );
}

#[test]
fn every_declared_tool_is_listed_and_unloaded_ones_are_not() {
    let mut r = ComponentRegistry::new();
    r.load(component("id1", &["fetch", "a"])).unwrap();
    r.load(component("id2", &["fetch"])).unwrap();
    let names: Vec<String> = r.tools().into_iter().map(|t| t.name).collect();
    assert_eq!(names, vec!["fetch".to_string(), "a".to_string(), "fetch".to_string()]);
    r.unload("id2").unwrap();
    let listed = r.tools();
    assert_eq!(listed.len(), 2);
    assert!(listed.iter().all(|t| t.component_id == "id1"));
    assert_eq!(listed[0].listed_name, "fetch");
}
