use release_bump::error::ReleaseError;
use release_bump::manifest::{
    manifest_version, read_version_tomls, rewrite_manifest, version_of_field, ManifestEntry,
};
use release_bump::version::Version;

const DEMO: &str = "# the demo package\n[package]\nname = \"demo\"   # its name\nversion = \"1.0.0\"\nedition = \"2021\"\n\n[dependencies]\nregex = { version = \"1.5.0\" }\n";

fn version(major: u64, minor: u64, patch: u64) -> Version {
    Version { major, minor, patch }
}

#[test]
fn manifest_version_reads_the_package_version() {
    assert_eq!(manifest_version(DEMO), Ok(version(1, 0, 0)));
    assert_eq!(manifest_version("package = { name = \"x\", version = \"0.3.9\" }\n"), Ok(version(0, 3, 9)));
    assert_eq!(manifest_version("[package]\nversion = '12.34.56-beta.7'\n"), Ok(version(12, 34, 56)));
}

#[test]
fn manifest_version_refuses_a_broken_document() {
    assert_eq!(manifest_version("[package\nversion = \"1.0.0\"\n"), Err(ReleaseError::ManifestParse));
    assert_eq!(manifest_version("version = = 1"), Err(ReleaseError::ManifestParse));
}

#[test]
fn manifest_version_refuses_a_manifest_without_version() {
    assert_eq!(manifest_version(""), Err(ReleaseError::VersionParse));
    assert_eq!(manifest_version("[workspace]\nmembers = [\"a\"]\n"), Err(ReleaseError::VersionParse));
    assert_eq!(manifest_version("[package]\nname = \"demo\"\n"), Err(ReleaseError::VersionParse));
    assert_eq!(manifest_version("package = \"1.2.3\"\n"), Err(ReleaseError::VersionParse));
    assert_eq!(manifest_version("[package]\nversion = \"latest\"\n"), Err(ReleaseError::VersionParse));
    assert_eq!(manifest_version("[package]\nversion = { workspace = true }\n"), Err(ReleaseError::VersionParse));
}

#[test]
fn manifest_version_looks_at_the_package_only() {
    assert_eq!(
        manifest_version("[dependencies]\nregex = \"1.5.0\"\n[package]\nversion = \"2.0.1\"\n"),
        Ok(version(2, 0, 1))
    );
    assert_eq!(manifest_version("version = \"9.9.9\"\n"), Err(ReleaseError::VersionParse));
}

#[test]
fn version_of_field_takes_the_first_pattern() {
    assert_eq!(version_of_field(&Some(" \"1.2.3\"".to_string())), Ok(version(1, 2, 3)));
    assert_eq!(version_of_field(&Some("1.2.3".to_string())), Ok(version(1, 2, 3)));
    assert_eq!(version_of_field(&Some("\"x\"".to_string())), Err(ReleaseError::VersionParse));
    assert_eq!(version_of_field(&Some(String::new())), Err(ReleaseError::VersionParse));
    assert_eq!(version_of_field(&None), Err(ReleaseError::VersionParse));
}

#[test]
fn rewrite_manifest_changes_the_version_field_only() {
    let expected = "# the demo package\n[package]\nname = \"demo\"   # its name\nversion = \"1.0.1\"\nedition = \"2021\"\n\n[dependencies]\nregex = { version = \"1.5.0\" }\n";
    assert_eq!(rewrite_manifest(DEMO, &version(1, 0, 1)), Ok(expected.to_string()));
}

#[test]
fn rewrite_manifest_can_be_read_back() {
    let written = rewrite_manifest(DEMO, &version(65535, 0, 7)).unwrap();
    assert_ne!(written, DEMO);
    assert_eq!(manifest_version(&written), Ok(version(65535, 0, 7)));
}

#[test]
fn rewrite_manifest_refuses_what_cannot_be_read() {
    assert_eq!(rewrite_manifest("[package", &version(1, 0, 0)), Err(ReleaseError::ManifestParse));
    assert_eq!(rewrite_manifest("[package]\nname = \"demo\"\n", &version(1, 0, 0)), Err(ReleaseError::VersionParse));
    assert_eq!(rewrite_manifest("package = 3\n", &version(1, 0, 0)), Err(ReleaseError::VersionParse));
    assert_eq!(rewrite_manifest("", &version(1, 0, 0)), Err(ReleaseError::VersionParse));
}

#[test]
fn rewrite_manifest_takes_a_field_that_holds_no_version() {
    let written = rewrite_manifest("[package]\nversion = \"latest\"\n", &version(0, 1, 0));
    assert_eq!(written, Ok("[package]\nversion = \"0.1.0\"\n".to_string()));
}

#[test]
fn read_version_tomls_makes_one_entry_per_manifest() {
    let paths = vec!["a/Cargo.toml".to_string(), "b/Cargo.toml".to_string()];
    let second = "[package]\nversion = \"1.1.0\"\n";
    let contents = vec![Some(DEMO.to_string()), Some(second.to_string())];
    let entries = read_version_tomls(&paths, &contents).unwrap();
    assert_eq!(
        entries,
        vec![
            ManifestEntry { path: "a/Cargo.toml".to_string(), version: version(1, 0, 0), document: DEMO.to_string() },
            ManifestEntry { path: "b/Cargo.toml".to_string(), version: version(1, 1, 0), document: second.to_string() },
        ]
    );
}

#[test]
fn read_version_tomls_of_nothing_is_nothing() {
    assert_eq!(read_version_tomls(&Vec::new(), &Vec::new()), Ok(Vec::new()));
    assert_eq!(read_version_tomls(&Vec::new(), &vec![Some(DEMO.to_string())]), Ok(Vec::new()));
}

#[test]
fn read_version_tomls_stops_at_the_first_failure() {
    let paths = vec!["a".to_string(), "b".to_string(), "c".to_string()];
    let good = Some(DEMO.to_string());
    let broken = Some("[package".to_string());
    let empty = Some(String::new());
    assert_eq!(
        read_version_tomls(&paths, &vec![good.clone(), None, broken.clone()]),
        Err(ReleaseError::ManifestRead)
    );
    assert_eq!(
        read_version_tomls(&paths, &vec![good.clone(), broken.clone(), None]),
        Err(ReleaseError::ManifestParse)
    );
    assert_eq!(
        read_version_tomls(&paths, &vec![empty.clone(), broken.clone(), None]),
        Err(ReleaseError::VersionParse)
    );
}

#[test]
fn read_version_tomls_counts_a_missing_content_as_unread() {
    let paths = vec!["a".to_string(), "b".to_string()];
    assert_eq!(read_version_tomls(&paths, &vec![Some(DEMO.to_string())]), Err(ReleaseError::ManifestRead));
    assert_eq!(read_version_tomls(&paths, &Vec::new()), Err(ReleaseError::ManifestRead));
}

#[test]
fn read_version_tomls_keeps_one_entry_per_path() {
    let paths = vec!["a".to_string(), "b".to_string(), "a".to_string(), "b".to_string(), "a".to_string()];
    let other = "[package]\nversion = \"2.0.0\"\n";
    let contents = vec![
        Some(DEMO.to_string()),
        Some(other.to_string()),
        Some(DEMO.to_string()),
        Some(other.to_string()),
        Some(DEMO.to_string()),
    ];
    assert_eq!(
        read_version_tomls(&paths, &contents),
        Ok(vec![
            ManifestEntry { path: "a".to_string(), version: version(1, 0, 0), document: DEMO.to_string() },
            ManifestEntry { path: "b".to_string(), version: version(2, 0, 0), document: other.to_string() },
        ])
    );
}

#[test]
fn read_version_tomls_passes_over_a_path_given_again() {
    let paths = vec!["a".to_string(), "a".to_string(), "c".to_string()];
    let contents = vec![Some(DEMO.to_string()), None, Some("[package".to_string())];
    assert_eq!(read_version_tomls(&paths, &contents), Err(ReleaseError::ManifestParse));
    let contents = vec![Some(DEMO.to_string()), Some("[package".to_string())];
    assert_eq!(read_version_tomls(&paths, &contents), Err(ReleaseError::ManifestRead));
    let paths = vec!["a".to_string(), "a".to_string()];
    assert_eq!(read_version_tomls(&paths, &contents).map(|entries| entries.len()), Ok(1));
}
