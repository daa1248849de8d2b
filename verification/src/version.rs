//! The semantic version value type: reading, incrementing and writing it.

use crate::decimal::{
    decimal_string,
    decimal_text,
    decimal_u64,
    lemma_decimal_round_trip,
    lemma_decimal_text_digits,
    parse_decimal,
};
use crate::error::ReleaseError;
use crate::pattern::{
    digits_end,
    find_version,
    first_version_at,
    has_version,
    lemma_digits_end_of_run,
    lemma_first_version_unique,
    version_at,
    version_fields,
    version_start,
};
use vstd::prelude::*;

verus! {

/// Which part of a version an increment raises.
#[derive(Clone, Copy, Debug, PartialEq, Eq, Structural)]
pub enum IncrementVersionPart {
    /// Backward compatible bug fixes.
    Patch,
    /// Backward compatible new functionality.
    Minor,
    /// Incompatible changes.
    Major,
}

/// A fully specified `major.minor.patch` version.
#[derive(Clone, Copy, Debug, PartialEq, Eq, Structural)]
pub struct Version {
    pub major: u64,
    pub minor: u64,
    pub patch: u64,
}

/// The name of a part, as it is written in messages.
pub open spec fn part_name(part: IncrementVersionPart) -> Seq<char> {
    match part {
        IncrementVersionPart::Patch => "patch"@,
        IncrementVersionPart::Minor => "minor"@,
        IncrementVersionPart::Major => "major"@,
    }
}

/// The part that `part` raises can still grow by one.
pub open spec fn can_increment(v: Version, part: IncrementVersionPart) -> bool {
    match part {
        IncrementVersionPart::Patch => v.patch < u64::MAX,
        IncrementVersionPart::Minor => v.minor < u64::MAX,
        IncrementVersionPart::Major => v.major < u64::MAX,
    }
}

/// The version that follows `v` when `part` is raised by one: the parts
/// below the raised one start again at zero.
pub open spec fn incremented(v: Version, part: IncrementVersionPart) -> Version {
    match part {
        IncrementVersionPart::Patch => Version {
            major: v.major,
            minor: v.minor,
            patch: (v.patch + 1) as u64,
        },
        IncrementVersionPart::Minor => Version {
            major: v.major,
            minor: (v.minor + 1) as u64,
            patch: 0,
        },
        IncrementVersionPart::Major => Version { major: (v.major + 1) as u64, minor: 0, patch: 0 },
    }
}

/// The text of a version: its three numbers in decimal, a dot between them.
pub open spec fn version_text(v: Version) -> Seq<char> {
    decimal_text(v.major as nat) + seq!['.'] + decimal_text(v.minor as nat) + seq!['.']
        + decimal_text(v.patch as nat)
}

/// The version that three runs of digits spell, where each number fits
/// its part.
pub open spec fn fields_version(fields: (Seq<char>, Seq<char>, Seq<char>)) -> Option<Version> {
    match (decimal_u64(fields.0), decimal_u64(fields.1), decimal_u64(fields.2)) {
        (Some(major), Some(minor), Some(patch)) => Some(Version { major, minor, patch }),
        _ => None,
    }
}

/// The version that a text holds: that of the first version pattern in
/// it, whatever stands around the pattern. `None` where it holds no
/// pattern, and where a number of the pattern is too large for its part:
/// a number is never read as another number.
pub open spec fn parsed_version(s: Seq<char>) -> Option<Version> {
    if has_version(s) {
        fields_version(version_fields(s, version_start(s)))
    } else {
        None
    }
}

/// The text of a version starts with the version pattern, and the runs of
/// digits of that pattern are the numerals of its three parts.
pub proof fn lemma_version_text_pattern(v: Version)
    ensures
        first_version_at(version_text(v), 0),
        version_fields(version_text(v), 0) == (
            decimal_text(v.major as nat),
            decimal_text(v.minor as nat),
            decimal_text(v.patch as nat),
        ),
{
    let major = decimal_text(v.major as nat);
    let minor = decimal_text(v.minor as nat);
    let patch = decimal_text(v.patch as nat);
    let s = version_text(v);
    lemma_decimal_text_digits(v.major as nat);
    lemma_decimal_text_digits(v.minor as nat);
    lemma_decimal_text_digits(v.patch as nat);
    let a = major.len() as int;
    let b = a + 1 + minor.len();
    let c = b + 1 + patch.len();
    assert(s.len() == c);
    assert forall|k: int| 0 <= k < a implies crate::decimal::is_digit(#[trigger] s[k]) by {
        assert(s[k] == major[k]);
    }
    assert(s[a] == '.');
    assert forall|k: int| a + 1 <= k < b implies crate::decimal::is_digit(#[trigger] s[k]) by {
        assert(s[k] == minor[k - a - 1]);
    }
    assert(s[b] == '.');
    assert forall|k: int| b + 1 <= k < c implies crate::decimal::is_digit(#[trigger] s[k]) by {
        assert(s[k] == patch[k - b - 1]);
    }
    lemma_digits_end_of_run(s, 0, a);
    lemma_digits_end_of_run(s, a + 1, b);
    lemma_digits_end_of_run(s, b + 1, c);
    assert(s.subrange(0, a) =~= major);
    assert(s.subrange(a + 1, b) =~= minor);
    assert(s.subrange(b + 1, c) =~= patch);
}

/// Reading the text of a version gives the version back.
pub proof fn lemma_parse_format_round_trip(v: Version)
    ensures
        parsed_version(version_text(v)) == Some(v),
{
    let s = version_text(v);
    lemma_version_text_pattern(v);
    assert(version_at(s, 0));
    lemma_first_version_unique(s, 0, version_start(s));
    lemma_decimal_round_trip(v.major as nat);
    lemma_decimal_round_trip(v.minor as nat);
    lemma_decimal_round_trip(v.patch as nat);
}

impl IncrementVersionPart {
    /// The name of the part, in lower case.
    pub fn to_string(&self) -> (r: String)
        ensures
            r@ == part_name(*self),
    {
        match self {
            IncrementVersionPart::Patch => String::from_str("patch"),
            IncrementVersionPart::Minor => String::from_str("minor"),
            IncrementVersionPart::Major => String::from_str("major"),
        }
    }
}

impl Version {
    /// Whether `part` can be raised: the part is not yet the largest
    /// number it can hold.
    pub fn is_incrementable(&self, part: &IncrementVersionPart) -> (r: bool)
        ensures
            r == can_increment(*self, *part),
    {
        match part {
            IncrementVersionPart::Patch => self.patch < u64::MAX,
            IncrementVersionPart::Minor => self.minor < u64::MAX,
            IncrementVersionPart::Major => self.major < u64::MAX,
        }
    }

    /// Raises `part` by one and sets the parts below it to zero.
    pub fn increment(&mut self, part: &IncrementVersionPart)
        requires
            can_increment(*old(self), *part),
        ensures
            *final(self) == incremented(*old(self), *part),
    {
        match part {
            IncrementVersionPart::Patch => {
                self.patch += 1
            },
            IncrementVersionPart::Minor => {
                self.minor += 1;
                self.patch = 0;
            },
            IncrementVersionPart::Major => {
                self.major += 1;
                self.minor = 0;
                self.patch = 0;
            },
        }
    }

    /// The version that follows this one when `part` is raised; this one
    /// stays as it is.
    pub fn increment_clone(&self, part: &IncrementVersionPart) -> (r: Self)
        requires
            can_increment(*self, *part),
        ensures
            r == incremented(*self, *part),
    {
        let mut n = *self;
        n.increment(part);
        n
    }

    /// Reads the first `major.minor.patch` pattern that `text` holds and
    /// ignores what stands around it. Fails with `VersionParse` where the
    /// text holds no such pattern, and where a number of the pattern is
    /// too large for its part.
    pub fn parse(text: &str) -> (r: Result<Version, ReleaseError>)
        ensures
            match parsed_version(text@) {
                Some(v) => r == Ok::<Version, ReleaseError>(v),
                None => r == Err::<Version, ReleaseError>(ReleaseError::VersionParse),
            },
    {
        match find_version(text) {
            None => Err(ReleaseError::VersionParse),
            Some(groups) => {
                let major = parse_decimal(groups.0.as_str());
                let minor = parse_decimal(groups.1.as_str());
                let patch = parse_decimal(groups.2.as_str());
                match (major, minor, patch) {
                    (Some(major), Some(minor), Some(patch)) => Ok(Version { major, minor, patch }),
                    _ => Err(ReleaseError::VersionParse),
                }
            },
        }
    }

    /// Writes the version as `major.minor.patch`.
    pub fn to_string(&self) -> (r: String)
        ensures
            r@ == version_text(*self),
    {
        let mut r = decimal_string(self.major);
        r.append(".");
        r.append(decimal_string(self.minor).as_str());
        r.append(".");
        r.append(decimal_string(self.patch).as_str());
        proof {
            reveal_strlit(".");
            assert("."@ =~= seq!['.']);
        }
        r
    }
}

impl TryFrom<String> for Version {
    type Error = ReleaseError;

    /// Reads a version as `Version::parse` does.
    fn try_from(value: String) -> (r: Result<Self, Self::Error>) {
        Version::parse(value.as_str())
    }
}

impl vstd::std_specs::convert::TryFromSpecImpl<String> for Version {
    open spec fn obeys_try_from_spec() -> bool {
        true
    }

    open spec fn try_from_spec(value: String) -> Result<Self, Self::Error> {
        match parsed_version(value@) {
            Some(v) => Ok(v),
            None => Err(ReleaseError::VersionParse),
        }
    }
}

} // verus!
