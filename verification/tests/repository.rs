use release_bump::error::ReleaseError;
use release_bump::repository::{
    commit_message, preflight, relative_manifests, release_tag, staged_paths, tag_exists,
    tag_pattern, tag_ref, VersionChangeType, DEFAULT_REMOTE, DEFAULT_TAG_PREFIX,
};
use release_bump::version::{IncrementVersionPart, Version};

fn version(major: u64, minor: u64, patch: u64) -> Version {
    Version { major, minor, patch }
}

fn texts(names: &[&str]) -> Vec<String> {
    names.iter().map(|n| n.to_string()).collect()
}

#[test]
fn defaults_are_origin_and_v() {
    assert_eq!(DEFAULT_REMOTE, "origin");
    assert_eq!(DEFAULT_TAG_PREFIX, "v");
}

#[test]
fn release_tag_is_prefix_and_version() {
    assert_eq!(release_tag("v", &version(1, 0, 1)), "v1.0.1");
    assert_eq!(release_tag("", &version(1, 0, 1)), "1.0.1");
    assert_eq!(release_tag("release-", &version(10, 20, 30)), "release-10.20.30");
}

#[test]
fn tag_pattern_matches_all_tags_with_the_prefix() {
    assert_eq!(tag_pattern("v"), "v*");
    assert_eq!(tag_pattern(""), "*");
}

#[test]
fn tag_ref_is_the_full_reference_name() {
    assert_eq!(tag_ref("v1.0.1"), "refs/tags/v1.0.1");
}

#[test]
fn commit_message_names_the_operation() {
    let fixed = VersionChangeType::Fixed { full_version: "3.2.1".to_string() };
    assert_eq!(
        commit_message(&fixed, &version(3, 2, 1)),
        Ok("Changed version in tomls to fixed version '3.2.1'".to_string())
    );
    let minor = VersionChangeType::Increment { vtype: IncrementVersionPart::Minor };
    assert_eq!(
        commit_message(&minor, &version(1, 3, 0)),
        Ok("Changed version in tomls to '1.3.0' by incrementing minor".to_string())
    );
    let patch = VersionChangeType::Increment { vtype: IncrementVersionPart::Patch };
    assert_eq!(
        commit_message(&patch, &version(1, 2, 4)),
        Ok("Changed version in tomls to '1.2.4' by incrementing patch".to_string())
    );
    let major = VersionChangeType::Increment { vtype: IncrementVersionPart::Major };
    assert_eq!(
        commit_message(&major, &version(2, 0, 0)),
        Ok("Changed version in tomls to '2.0.0' by incrementing major".to_string())
    );
    assert_eq!(commit_message(&VersionChangeType::OnlyShow, &version(1, 0, 0)), Err(ReleaseError::Unimplemented));
}

#[test]
fn tag_exists_compares_whole_names() {
    let tags = texts(&["v1.0.0", "v1.0.10", "v2.0.0"]);
    assert!(tag_exists(&tags, &"v1.0.0".to_string()));
    assert!(tag_exists(&tags, &"v2.0.0".to_string()));
    assert!(!tag_exists(&tags, &"v1.0.1".to_string()));
    assert!(!tag_exists(&tags, &"1.0.0".to_string()));
    assert!(!tag_exists(&Vec::new(), &"v1.0.0".to_string()));
}

#[test]
fn preflight_passes_a_clean_tree_and_a_free_tag() {
    assert_eq!(preflight(0, &texts(&["v1.0.0"]), &"v1.0.1".to_string()), Ok(()));
    assert_eq!(preflight(0, &Vec::new(), &"v1.0.1".to_string()), Ok(()));
}

#[test]
fn preflight_refuses_pending_changes_first() {
    assert_eq!(preflight(1, &Vec::new(), &"v1.0.1".to_string()), Err(ReleaseError::DirtyWorkingTree));
    assert_eq!(preflight(7, &texts(&["v1.0.1"]), &"v1.0.1".to_string()), Err(ReleaseError::DirtyWorkingTree));
}

#[test]
fn preflight_refuses_an_existing_tag() {
    assert_eq!(preflight(0, &texts(&["v1.0.0", "v1.0.1"]), &"v1.0.1".to_string()), Err(ReleaseError::DuplicateTag));
}

#[test]
fn relative_manifests_are_seen_from_the_root() {
    let paths = texts(&["/work/demo/Cargo.toml", "/work/demo/tools/gen/Cargo.toml", "/work/other/Cargo.toml"]);
    assert_eq!(
        relative_manifests(&paths, "/work/demo"),
        vec![
            Some("Cargo.toml".to_string()),
            Some("tools/gen/Cargo.toml".to_string()),
            Some("../other/Cargo.toml".to_string())
        ]
    );
    assert_eq!(relative_manifests(&texts(&["./Cargo.toml"]), "./"), vec![Some("Cargo.toml".to_string())]);
}

#[test]
fn relative_manifests_may_have_no_relative_path() {
    assert_eq!(relative_manifests(&texts(&["demo/Cargo.toml"]), "/work"), vec![None]);
    assert_eq!(relative_manifests(&texts(&["a/Cargo.toml"]), "../b"), vec![None]);
    assert_eq!(relative_manifests(&Vec::new(), "/work"), Vec::new());
}

#[test]
fn staged_paths_are_all_relative_paths() {
    let relatives = vec![Some("Cargo.toml".to_string()), Some("a/Cargo.toml".to_string())];
    assert_eq!(staged_paths(relatives), Ok(texts(&["Cargo.toml", "a/Cargo.toml"])));
    assert_eq!(staged_paths(Vec::new()), Ok(Vec::new()));
}

#[test]
fn staged_paths_fail_on_one_missing_path() {
    let relatives = vec![Some("Cargo.toml".to_string()), None, Some("a/Cargo.toml".to_string())];
    assert_eq!(staged_paths(relatives), Err(ReleaseError::GitOperation));
}
