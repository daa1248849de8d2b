use release_bump::error::ReleaseError;
use release_bump::version::{IncrementVersionPart, Version};

fn version(major: u64, minor: u64, patch: u64) -> Version {
    Version { major, minor, patch }
}

#[test]
fn increment_patch_raises_patch_only() {
    let mut v = version(1, 2, 3);
    v.increment(&IncrementVersionPart::Patch);
    assert_eq!(v, version(1, 2, 4));
}

#[test]
fn increment_minor_resets_patch() {
    let mut v = version(1, 2, 3);
    v.increment(&IncrementVersionPart::Minor);
    assert_eq!(v, version(1, 3, 0));
}

#[test]
fn increment_major_resets_minor_and_patch() {
    let mut v = version(1, 2, 3);
    v.increment(&IncrementVersionPart::Major);
    assert_eq!(v, version(2, 0, 0));
}

#[test]
fn increment_clone_leaves_the_version_as_it_is() {
    let v = version(1, 2, 3);
    assert_eq!(v.increment_clone(&IncrementVersionPart::Patch), version(1, 2, 4));
    assert_eq!(v.increment_clone(&IncrementVersionPart::Minor), version(1, 3, 0));
    assert_eq!(v.increment_clone(&IncrementVersionPart::Major), version(2, 0, 0));
    assert_eq!(v, version(1, 2, 3));
}

#[test]
fn parse_takes_the_first_pattern_and_ignores_the_rest() {
    assert_eq!(Version::parse("release candidate v1.2.3 build 9"), Ok(version(1, 2, 3)));
    assert_eq!(Version::parse("1.2.3 then 4.5.6"), Ok(version(1, 2, 3)));
    assert_eq!(Version::parse(" \"0.10.200\"\n"), Ok(version(0, 10, 200)));
}

#[test]
fn parse_skips_incomplete_patterns() {
    assert_eq!(Version::parse("1.2 and 3.4.5"), Ok(version(3, 4, 5)));
    assert_eq!(Version::parse("1..2.3.4"), Ok(version(2, 3, 4)));
    assert_eq!(Version::parse("7.8.9.10"), Ok(version(7, 8, 9)));
}

#[test]
fn parse_refuses_a_text_without_pattern() {
    assert_eq!(Version::parse(""), Err(ReleaseError::VersionParse));
    assert_eq!(Version::parse("1.2"), Err(ReleaseError::VersionParse));
    assert_eq!(Version::parse("one.two.three"), Err(ReleaseError::VersionParse));
    assert_eq!(Version::parse("1.2."), Err(ReleaseError::VersionParse));
}

#[test]
fn parse_reads_large_numbers_as_they_are() {
    assert_eq!(Version::parse("70000.1.2"), Ok(version(70000, 1, 2)));
    assert_eq!(Version::parse("65535.65536.4294967296"), Ok(version(65535, 65536, 4294967296)));
    assert_eq!(
        Version::parse("18446744073709551615.0.18446744073709551615"),
        Ok(version(u64::MAX, 0, u64::MAX))
    );
}

#[test]
fn parse_refuses_a_number_that_does_not_fit() {
    assert_eq!(Version::parse("18446744073709551616.2.3"), Err(ReleaseError::VersionParse));
    assert_eq!(Version::parse("1.99999999999999999999999.3"), Err(ReleaseError::VersionParse));
    assert_eq!(Version::parse("1.2.18446744073709551616"), Err(ReleaseError::VersionParse));
    assert_eq!(Version::parse("18446744073709551616.2.3 and 1.2.3"), Err(ReleaseError::VersionParse));
}

#[test]
fn increment_goes_past_sixteen_bits() {
    let mut v = Version::try_from("0.0.65535".to_string()).unwrap();
    v.increment(&IncrementVersionPart::Patch);
    assert_eq!(v, version(0, 0, 65536));
    assert_eq!(v.to_string(), "0.0.65536");
}

#[test]
fn only_the_largest_number_cannot_be_incremented() {
    let v = version(u64::MAX, u64::MAX - 1, 7);
    assert!(!v.is_incrementable(&IncrementVersionPart::Major));
    assert!(v.is_incrementable(&IncrementVersionPart::Minor));
    assert!(v.is_incrementable(&IncrementVersionPart::Patch));
    assert_eq!(v.increment_clone(&IncrementVersionPart::Minor), version(u64::MAX, u64::MAX, 0));
}

#[test]
fn parse_keeps_leading_zeros_harmless() {
    assert_eq!(Version::parse("001.002.003"), Ok(version(1, 2, 3)));
}

#[test]
fn try_from_reads_like_parse() {
    assert_eq!(Version::try_from("v1.2.3".to_string()), Ok(version(1, 2, 3)));
    assert_eq!(Version::try_from("none".to_string()), Err(ReleaseError::VersionParse));
}

#[test]
fn to_string_writes_three_numbers_with_dots() {
    assert_eq!(version(1, 2, 3).to_string(), "1.2.3");
    assert_eq!(version(0, 0, 0).to_string(), "0.0.0");
    assert_eq!(version(65535, 10, 909).to_string(), "65535.10.909");
}

#[test]
fn parse_gives_back_what_to_string_wrote() {
    for v in [version(0, 0, 0), version(1, 2, 3), version(10, 200, 3000), version(u64::MAX, 65536, u64::MAX)] {
        assert_eq!(Version::parse(&v.to_string()), Ok(v));
    }
}

#[test]
fn part_names_are_lower_case() {
    assert_eq!(IncrementVersionPart::Patch.to_string(), "patch");
    assert_eq!(IncrementVersionPart::Minor.to_string(), "minor");
    assert_eq!(IncrementVersionPart::Major.to_string(), "major");
}
