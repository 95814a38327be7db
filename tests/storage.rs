use std::collections::BTreeSet;

use wassette::component_storage::{
    commit_plan, create_validation_stamp, install_plan, removal_plan, stamp_matches,
    validate_stamp, ArtifactKind, ComponentStorage, FileObservation, FileOp, ValidationStamp,
};
use wassette::provisioning_controller::content_digest;

#[test]
fn paths_follow_the_layout() {
    let s = ComponentStorage::new("/data/components", 0);
    assert_eq!(s.root(), "/data/components");
    assert_eq!(s.downloads_dir(), "/data/components/downloads");
    assert_eq!(s.max_concurrent_downloads(), 1);
    assert_eq!(s.component_path("fetch"), "/data/components/fetch.wasm");
    assert_eq!(s.policy_path("fetch"), "/data/components/fetch.policy.yaml");
    assert_eq!(s.metadata_path("fetch"), "/data/components/fetch.meta.json");
    assert_eq!(s.precompiled_path("fetch"), "/data/components/fetch.precompiled");
    assert_eq!(ComponentStorage::new("/r", 4).max_concurrent_downloads(), 4);
}

#[test]
fn removal_goes_metadata_cache_policy_component() {
    assert_eq!(
        removal_plan(),
        vec![
            FileOp::Remove(ArtifactKind::Metadata),
            FileOp::Remove(ArtifactKind::Precompiled),
            FileOp::Remove(ArtifactKind::Policy),
            FileOp::Remove(ArtifactKind::Wasm),
        ]
    );
}

#[test]
fn install_writes_component_before_policy() {
    let plan = install_plan(true);
    assert_eq!(plan.len(), 6);
    assert_eq!(plan[4], FileOp::Write(ArtifactKind::Wasm));
    assert_eq!(plan[5], FileOp::Write(ArtifactKind::Policy));
    assert_eq!(install_plan(false).len(), 5);
    assert_eq!(
        commit_plan(),
        vec![FileOp::Write(ArtifactKind::Precompiled), FileOp::Write(ArtifactKind::Metadata)]
    );
}

#[test]
fn interrupted_install_never_leaves_cache_without_component() {
    let start: BTreeSet<u8> = [0, 1, 2, 3].into_iter().collect();
    let code = |k: ArtifactKind| match k {
        ArtifactKind::Wasm => 0u8,
        ArtifactKind::Precompiled => 1,
        ArtifactKind::Policy => 2,
        ArtifactKind::Metadata => 3,
    };
    let plan = install_plan(true);
    for cut in 0..=plan.len() {
        let mut present = start.clone();
        for op in &plan[..cut] {
            match op {
                FileOp::Remove(k) => {
                    present.remove(&code(*k));
                }
                FileOp::Write(k) => {
                    present.insert(code(*k));
                }
            }
        }
        assert!(present.is_empty() || present.contains(&0));
    }
}

#[test]
fn stamp_of_a_file_validates() {
    let obs = FileObservation { size: 3, mtime: 1000 };
    let stamp = create_validation_stamp(obs, Some(b"abc"));
    assert_eq!(stamp.content_hash.as_deref(), Some(content_digest(b"abc").as_str()));
    assert!(validate_stamp(Some(obs), Some(b"abc"), &stamp));
    // Same size, different contents.
    assert!(!validate_stamp(Some(obs), Some(b"abd"), &stamp));
    // Unreadable contents, missing file, other size.
    assert!(!validate_stamp(Some(obs), None, &stamp));
    assert!(!validate_stamp(None, Some(b"abc"), &stamp));
    assert!(!validate_stamp(Some(FileObservation { size: 4, mtime: 1000 }), Some(b"abcd"), &stamp));
}

#[test]
fn stamp_without_hash_uses_mtime() {
    let obs = FileObservation { size: 10, mtime: 5 };
    let stamp = create_validation_stamp(obs, None);
    assert_eq!(stamp, ValidationStamp { file_size: 10, mtime: 5, content_hash: None });
    assert!(validate_stamp(Some(obs), None, &stamp));
    assert!(!validate_stamp(Some(FileObservation { size: 10, mtime: 6 }), None, &stamp));
    assert!(stamp_matches(Some(obs), None, &stamp));
    let hashed = ValidationStamp { file_size: 10, mtime: 5, content_hash: Some("ab".to_string()) };
    assert!(stamp_matches(Some(FileObservation { size: 10, mtime: 5 }), Some("ab"), &hashed));
    // A changed modification time invalidates a stamp even when it records a hash.
    assert!(!stamp_matches(Some(FileObservation { size: 10, mtime: 99 }), Some("ab"), &hashed));
    assert!(!stamp_matches(Some(obs), Some("ac"), &hashed));
}

#[test]
fn hashed_stamp_fails_on_mtime_change_with_same_bytes() {
    let obs = FileObservation { size: 3, mtime: 1000 };
    let stamp = create_validation_stamp(obs, Some(b"abc"));
    assert!(validate_stamp(Some(obs), Some(b"abc"), &stamp));
    assert!(!validate_stamp(Some(FileObservation { size: 3, mtime: 1001 }), Some(b"abc"), &stamp));
}
