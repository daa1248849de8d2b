use release_bump::error::ReleaseError;
use release_bump::locator::{
    find_cargo_tomls_and_git_base, probes_are_valid, start_directory, DirEntry, LevelProbe,
    MANIFEST_FILE_NAME, REPOSITORY_MARKER_NAME,
};

fn level(dir: &str, has_manifest: bool, has_marker: bool) -> LevelProbe {
    LevelProbe {
        dir: dir.to_string(),
        manifest: format!("{}{}", dir, MANIFEST_FILE_NAME),
        has_manifest,
        has_marker,
    }
}

fn file(path: &str, name: &str) -> DirEntry {
    DirEntry::File { path: path.to_string(), name: name.to_string() }
}

fn dir(entries: Vec<DirEntry>) -> DirEntry {
    DirEntry::Dir { entries }
}

/// The start directory `./test_data` below a repository root `./` that
/// holds a manifest; two subdirectories of the start directory hold one
/// manifest each.
fn test_data_levels() -> Vec<LevelProbe> {
    vec![
        LevelProbe {
            dir: "./test_data".to_string(),
            manifest: "./test_data/Cargo.toml".to_string(),
            has_manifest: false,
            has_marker: false,
        },
        level("./", true, true),
        level("", true, true),
    ]
}

fn test_data_listing() -> Vec<DirEntry> {
    vec![
        dir(vec![
            file("./test_data/with_same_ver/Cargo.toml", "Cargo.toml"),
            dir(vec![file("./test_data/with_same_ver/src/main.rs", "main.rs")]),
        ]),
        file("./test_data/notes.txt", "notes.txt"),
        dir(vec![file("./test_data/with_different_ver/Cargo.toml", "Cargo.toml")]),
    ]
}

#[test]
fn test_find_cargo_tomls_without_subdirs() {
    let (cargo_tomls, git_base_path) =
        find_cargo_tomls_and_git_base(&test_data_levels(), &test_data_listing(), false).unwrap();
    assert_eq!(git_base_path, "./".to_string());
    assert_eq!(cargo_tomls.len(), 1);
    assert_eq!(cargo_tomls[0], "./Cargo.toml".to_string());
}

#[test]
fn test_find_cargo_tomls_with_subdirs() {
    let (cargo_tomls, git_base_path) =
        find_cargo_tomls_and_git_base(&test_data_levels(), &test_data_listing(), true).unwrap();
    let mut cargo_tomls_sorted = cargo_tomls.clone();
    cargo_tomls_sorted.sort_by(|a, b| a.cmp(b));

    assert_eq!(git_base_path, "./".to_string());
    assert_eq!(cargo_tomls_sorted.len(), 3);
    assert_eq!(cargo_tomls_sorted[0], "./Cargo.toml".to_string());
    assert_eq!(cargo_tomls_sorted[1], "./test_data/with_different_ver/Cargo.toml".to_string());
    assert_eq!(cargo_tomls_sorted[2], "./test_data/with_same_ver/Cargo.toml".to_string());
}

#[test]
fn names_of_manifest_and_marker() {
    assert_eq!(MANIFEST_FILE_NAME, "Cargo.toml");
    assert_eq!(REPOSITORY_MARKER_NAME, ".git");
}

#[test]
fn ascent_notes_every_manifest_up_to_the_root() {
    let levels = vec![
        level("/r/a/b/", true, false),
        level("/r/a/", false, false),
        level("/r/", true, true),
        level("/", true, false),
    ];
    let (found, root) = find_cargo_tomls_and_git_base(&levels, &Vec::new(), false).unwrap();
    assert_eq!(found, vec!["/r/a/b/Cargo.toml".to_string(), "/r/Cargo.toml".to_string()]);
    assert_eq!(root, "/r/".to_string());
}

#[test]
fn discovery_fails_without_repository_root() {
    let levels = vec![level("/a/b/", true, false), level("/a/", false, false), level("/", true, false)];
    assert_eq!(find_cargo_tomls_and_git_base(&levels, &Vec::new(), true), Err(ReleaseError::Discovery));
}

#[test]
fn discovery_fails_without_manifest() {
    assert_eq!(find_cargo_tomls_and_git_base(&Vec::new(), &Vec::new(), true), Err(ReleaseError::Discovery));
    let levels = vec![level("/r/a/", false, false), level("/r/", false, true), level("/", true, false)];
    let below = vec![file("/r/a/Cargo.toml", "Cargo.toml"), dir(vec![file("/r/a/s/Cargo.toml", "Cargo.toml")])];
    assert_eq!(find_cargo_tomls_and_git_base(&levels, &Vec::new(), true), Err(ReleaseError::Discovery));
    assert_eq!(find_cargo_tomls_and_git_base(&levels, &below, false), Err(ReleaseError::Discovery));
    assert_eq!(
        find_cargo_tomls_and_git_base(&levels, &below, true),
        Ok((vec!["/r/a/s/Cargo.toml".to_string()], "/r/".to_string()))
    );
}

#[test]
fn descent_is_depth_first_in_listing_order() {
    let levels = vec![level("/r/", false, true)];
    let below = vec![
        dir(vec![
            dir(vec![file("/r/a/x/Cargo.toml", "Cargo.toml")]),
            file("/r/a/Cargo.toml", "Cargo.toml"),
        ]),
        file("/r/readme", "readme"),
        dir(vec![]),
        dir(vec![file("/r/b/Cargo.toml", "Cargo.toml"), file("/r/b/Cargo.lock", "Cargo.lock")]),
    ];
    let (found, _) = find_cargo_tomls_and_git_base(&levels, &below, true).unwrap();
    assert_eq!(
        found,
        vec![
            "/r/a/x/Cargo.toml".to_string(),
            "/r/a/Cargo.toml".to_string(),
            "/r/b/Cargo.toml".to_string()
        ]
    );
}

#[test]
fn descent_leaves_the_start_directory_to_the_ascent() {
    let levels = vec![level("/r/", true, true)];
    let below = vec![file("/r/Cargo.toml", "Cargo.toml"), dir(vec![file("/r/s/Cargo.toml", "Cargo.toml")])];
    let (found, _) = find_cargo_tomls_and_git_base(&levels, &below, true).unwrap();
    assert_eq!(found, vec!["/r/Cargo.toml".to_string(), "/r/s/Cargo.toml".to_string()]);
    let (found, _) = find_cargo_tomls_and_git_base(&levels, &below, false).unwrap();
    assert_eq!(found, vec!["/r/Cargo.toml".to_string()]);
}

#[test]
fn descent_takes_the_exact_file_name_only() {
    let levels = vec![level("/r/", true, true)];
    let below = vec![dir(vec![
        file("/r/s/cargo.toml", "cargo.toml"),
        file("/r/s/Cargo.toml.bak", "Cargo.toml.bak"),
        file("/r/s/xCargo.toml", "xCargo.toml"),
    ])];
    let (found, root) = find_cargo_tomls_and_git_base(&levels, &below, true).unwrap();
    assert_eq!(found, vec!["/r/Cargo.toml".to_string()]);
    assert_eq!(root, "/r/".to_string());
}

#[test]
fn start_path_must_be_an_existing_directory() {
    assert_eq!(start_directory(true, true), Ok(()));
    assert_eq!(start_directory(false, false), Err(ReleaseError::Path));
    assert_eq!(start_directory(true, false), Err(ReleaseError::Path));
    assert_eq!(start_directory(false, true), Err(ReleaseError::Path));
}

#[test]
fn probes_are_valid_where_paths_and_names_agree() {
    assert!(probes_are_valid(&test_data_levels(), &test_data_listing()));
    assert!(probes_are_valid(&Vec::new(), &Vec::new()));
    assert!(probes_are_valid(&vec![level("", false, false)], &vec![dir(vec![dir(vec![])])]));
}

#[test]
fn probes_are_not_valid_where_a_level_names_another_file() {
    let mut levels = test_data_levels();
    levels[1].manifest = "./Cargo.lock".to_string();
    assert!(!probes_are_valid(&levels, &Vec::new()));
    let mut levels = test_data_levels();
    levels[0].manifest = "./other/Cargo.toml".to_string();
    assert!(!probes_are_valid(&levels, &Vec::new()));
    let mut levels = test_data_levels();
    levels[0].dir = "Cargo.toml".to_string();
    levels[0].manifest = "Cargo.toml".to_string();
    assert!(!probes_are_valid(&levels, &Vec::new()));
    let mut levels = test_data_levels();
    levels[2].manifest = String::new();
    assert!(!probes_are_valid(&levels, &Vec::new()));
}

#[test]
fn probes_are_not_valid_where_a_file_has_another_name() {
    let below = vec![dir(vec![file("/r/s/Cargo.toml", "Cargo.toml"), file("/r/s/notes", "Cargo.toml")])];
    assert!(!probes_are_valid(&Vec::new(), &below));
    let below = vec![dir(vec![]), dir(vec![dir(vec![file("toml", "Cargo.toml")])])];
    assert!(!probes_are_valid(&Vec::new(), &below));
    let below = vec![file("/r/Cargo.toml", "Cargo.toml"), file("/r/a", "a"), file("", "")];
    assert!(probes_are_valid(&Vec::new(), &below));
}
