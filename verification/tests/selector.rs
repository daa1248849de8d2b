use release_bump::error::ReleaseError;
use release_bump::selector::{filter_cargo_tomls_by_selector, CargoFile};

fn paths(names: &[&str]) -> Vec<String> {
    names.iter().map(|n| n.to_string()).collect()
}

#[test]
fn test_filter_cargo_tomls_by_selector_all() {
    let tomls_simu = paths(&["base", "middle", "longlonglong"]);

    let r = filter_cargo_tomls_by_selector(tomls_simu.clone(), &Some(CargoFile::All)).unwrap();
    assert_eq!(r.len(), 3);
    assert_eq!(r[0], tomls_simu[0].clone());
    assert_eq!(r[1], tomls_simu[1].clone());
    assert_eq!(r[2], tomls_simu[2].clone());
}

#[test]
fn test_filter_cargo_tomls_by_selector_base() {
    let tomls_simu = paths(&["base", "middle", "longlonglong"]);

    let r = filter_cargo_tomls_by_selector(tomls_simu.clone(), &Some(CargoFile::Base)).unwrap();
    assert_eq!(r.len(), 1);
    assert_eq!(r[0], tomls_simu[0].clone());
}

#[test]
fn test_filter_cargo_tomls_by_selector_leaf() {
    let tomls_simu = paths(&["base", "middle", "longlonglong"]);

    let r = filter_cargo_tomls_by_selector(tomls_simu.clone(), &Some(CargoFile::Leaf)).unwrap();
    assert_eq!(r.len(), 1);
    assert_eq!(r[0], tomls_simu[2].clone());
}

#[test]
fn no_selector_passes_a_single_manifest() {
    let r = filter_cargo_tomls_by_selector(paths(&["only"]), &None);
    assert_eq!(r, Ok(paths(&["only"])));
    assert_eq!(filter_cargo_tomls_by_selector(Vec::new(), &None), Ok(Vec::new()));
}

#[test]
fn no_selector_refuses_several_manifests() {
    let r = filter_cargo_tomls_by_selector(paths(&["a", "b"]), &None);
    assert_eq!(r, Err(ReleaseError::Selection));
}

#[test]
fn leaf_and_base_take_the_first_of_equals() {
    let found = paths(&["bb", "aa", "c", "d", "ee"]);
    assert_eq!(filter_cargo_tomls_by_selector(found.clone(), &Some(CargoFile::Leaf)), Ok(paths(&["bb"])));
    assert_eq!(filter_cargo_tomls_by_selector(found, &Some(CargoFile::Base)), Ok(paths(&["c"])));
}

#[test]
fn leaf_and_base_measure_bytes() {
    let found = paths(&["ab", "\u{e9}", "xyz"]);
    assert_eq!(filter_cargo_tomls_by_selector(found.clone(), &Some(CargoFile::Base)), Ok(paths(&["ab"])));
    let found = paths(&["ab", "\u{20ac}", "xy"]);
    assert_eq!(filter_cargo_tomls_by_selector(found, &Some(CargoFile::Leaf)), Ok(paths(&["\u{20ac}"])));
}

#[test]
fn leaf_and_base_of_nothing_are_the_empty_path() {
    assert_eq!(filter_cargo_tomls_by_selector(Vec::new(), &Some(CargoFile::Leaf)), Ok(paths(&[""])));
    assert_eq!(filter_cargo_tomls_by_selector(Vec::new(), &Some(CargoFile::Base)), Ok(paths(&[""])));
    assert_eq!(filter_cargo_tomls_by_selector(Vec::new(), &Some(CargoFile::All)), Ok(Vec::new()));
}
