//! What the release asks of the repository: the checks before anything is
//! written, and the names, paths and messages of the commit, the tag and
//! the push.

use crate::error::ReleaseError;
use crate::version::{part_name, version_text, IncrementVersionPart, Version};
use vstd::prelude::*;

verus! {

/// The remote that is pushed to where none is named.
pub const DEFAULT_REMOTE: &'static str = "origin";

/// The prefix of release tags where none is given.
pub const DEFAULT_TAG_PREFIX: &'static str = "v";

/// The change of version that a release makes.
#[derive(Debug, PartialEq, Eq)]
pub enum VersionChangeType {
    /// Set the version that this text holds.
    Fixed { full_version: String },
    /// Raise one part of the current version.
    Increment { vtype: IncrementVersionPart },
    /// Show the current versions and change nothing.
    OnlyShow,
}

/// A change of version as contracts see it.
pub enum VersionChangeView {
    Fixed { full_version: Seq<char> },
    Increment { vtype: IncrementVersionPart },
    OnlyShow,
}

impl View for VersionChangeType {
    type V = VersionChangeView;

    open spec fn view(&self) -> VersionChangeView {
        match self {
            VersionChangeType::Fixed { full_version } => VersionChangeView::Fixed {
                full_version: full_version@,
            },
            VersionChangeType::Increment { vtype } => VersionChangeView::Increment {
                vtype: *vtype,
            },
            VersionChangeType::OnlyShow => VersionChangeView::OnlyShow,
        }
    }
}

/// The path `path` as seen from the directory `base`, as `pathdiff`
/// computes it on the platform the crate is built for; `None` where
/// there is no such relative path.
pub uninterp spec fn relative_path(path: Seq<char>, base: Seq<char>) -> Option<Seq<char>>;

/// The name of the release tag: the prefix, then the version.
pub open spec fn release_tag_name(prefix: Seq<char>, version: Version) -> Seq<char> {
    prefix + version_text(version)
}

/// The pattern that all tags with the prefix match.
pub open spec fn tag_pattern_of(prefix: Seq<char>) -> Seq<char> {
    prefix + "*"@
}

/// The full reference name of a tag.
pub open spec fn tag_ref_of(tag: Seq<char>) -> Seq<char> {
    "refs/tags/"@ + tag
}

/// The message of the commit that records a change to `version`.
pub open spec fn commit_message_of(change: VersionChangeView, version: Version) -> Result<
    Seq<char>,
    ReleaseError,
> {
    match change {
        VersionChangeView::Fixed { .. } => Ok(
            "Changed version in tomls to fixed version '"@ + version_text(version) + "'"@,
        ),
        VersionChangeView::Increment { vtype } => Ok(
            "Changed version in tomls to '"@ + version_text(version) + "' by incrementing "@
                + part_name(vtype),
        ),
        VersionChangeView::OnlyShow => Err(ReleaseError::Unimplemented),
    }
}

/// The verdict of the checks that come before any manifest is written:
/// the working tree must have no pending change, and the release tag must
/// not be among the existing tags.
pub open spec fn preflight_of(pending_changes: nat, tags: Seq<Seq<char>>, tag: Seq<char>) -> Result<
    (),
    ReleaseError,
> {
    if pending_changes > 0 {
        Err(ReleaseError::DirtyWorkingTree)
    } else if tags.contains(tag) {
        Err(ReleaseError::DuplicateTag)
    } else {
        Ok(())
    }
}

/// The paths to stage, where each manifest has a path relative to the
/// repository root.
pub open spec fn staged_of(relatives: Seq<Option<Seq<char>>>) -> Result<
    Seq<Seq<char>>,
    ReleaseError,
> {
    if forall|i: int| 0 <= i < relatives.len() ==> (#[trigger] relatives[i]) is Some {
        Ok(Seq::new(relatives.len(), |i: int| relatives[i]->0))
    } else {
        Err(ReleaseError::GitOperation)
    }
}

/// The path of each manifest as seen from the repository root.
pub open spec fn relatives_of(paths: Seq<Seq<char>>, root: Seq<char>) -> Seq<Option<Seq<char>>> {
    Seq::new(paths.len(), |i: int| relative_path(paths[i], root))
}

/// Computes `path` relative to `base` with `pathdiff::diff_paths`, both
/// taken as paths of the platform, and hands the result out as text.
///
/// Trusted: that the result is a function of the two texts alone, which
/// `relative_path` names. Nothing is claimed of the path itself.
#[verifier::external_body]
fn diff_paths(path: &str, base: &str) -> (r: Option<String>)
    ensures
        r.deep_view() == relative_path(path@, base@),
{
    pathdiff::diff_paths(path, base)?.into_os_string().into_string().ok()
}

/// The name of the release tag for `version`.
pub fn release_tag(prefix: &str, version: &Version) -> (r: String)
    ensures
        r@ == release_tag_name(prefix@, *version),
{
    let mut r = String::from_str(prefix);
    r.append(version.to_string().as_str());
    r
}

/// The pattern by which the existing release tags are asked for.
pub fn tag_pattern(prefix: &str) -> (r: String)
    ensures
        r@ == tag_pattern_of(prefix@),
{
    let mut r = String::from_str(prefix);
    r.append("*");
    r
}

/// The reference name under which the tag `tag` is pushed.
pub fn tag_ref(tag: &str) -> (r: String)
    ensures
        r@ == tag_ref_of(tag@),
{
    let mut r = String::from_str("refs/tags/");
    r.append(tag);
    r
}

/// The message of the commit: it names the version and how it came about.
/// There is no commit, and so no message, for only showing versions.
pub fn commit_message(
    change: &VersionChangeType,
    version: &Version,
) -> (r: Result<String, ReleaseError>)
    ensures
        match r {
            Ok(message) => commit_message_of(change@, *version) == Ok::<Seq<char>, ReleaseError>(
                message@,
            ),
            Err(e) => commit_message_of(change@, *version) == Err::<Seq<char>, ReleaseError>(e),
        },
{
    match change {
        VersionChangeType::Fixed { .. } => {
            let mut r = String::from_str("Changed version in tomls to fixed version '");
            r.append(version.to_string().as_str());
            r.append("'");
            Ok(r)
        },
        VersionChangeType::Increment { vtype } => {
            let mut r = String::from_str("Changed version in tomls to '");
            r.append(version.to_string().as_str());
            r.append("' by incrementing ");
            r.append(vtype.to_string().as_str());
            Ok(r)
        },
        VersionChangeType::OnlyShow => Err(ReleaseError::Unimplemented),
    }
}

/// `tag` is one of `tags`.
pub fn tag_exists(tags: &Vec<String>, tag: &String) -> (r: bool)
    ensures
        r == tags.deep_view().contains(tag@),
{
    let mut i: usize = 0;
    while i < tags.len()
        invariant
            i <= tags.len(),
            forall|j: int| 0 <= j < i ==> tags.deep_view()[j] != tag@,
        decreases tags.len() - i,
    {
        assert(tags.deep_view()[i as int] == tags[i as int]@);
        if tags[i] == *tag {
            return true;
        }
        i += 1;
    }
    false
}

/// The checks before any manifest is written. A working tree with pending
/// changes is refused first, then a release tag that exists already.
pub fn preflight(
    pending_changes: usize,
    tags: &Vec<String>,
    tag: &String,
) -> (r: Result<(), ReleaseError>)
    ensures
        r == preflight_of(pending_changes as nat, tags.deep_view(), tag@),
{
    if pending_changes > 0 {
        Err(ReleaseError::DirtyWorkingTree)
    } else if tag_exists(tags, tag) {
        Err(ReleaseError::DuplicateTag)
    } else {
        Ok(())
    }
}

/// The path of each manifest relative to the repository root, or `None`
/// for one that has no such path.
pub fn relative_manifests(paths: &Vec<String>, root: &str) -> (r: Vec<Option<String>>)
    ensures
        r.deep_view() == relatives_of(paths.deep_view(), root@),
{
    let mut r: Vec<Option<String>> = Vec::new();
    let mut i: usize = 0;
    while i < paths.len()
        invariant
            i <= paths.len(),
            r.len() == i,
            forall|j: int|
                0 <= j < i ==> (#[trigger] r[j]).deep_view() == relative_path(
                    paths[j]@,
                    root@,
                ),
        decreases paths.len() - i,
    {
        r.push(diff_paths(paths[i].as_str(), root));
        i += 1;
    }
    assert(r.deep_view() =~= relatives_of(paths.deep_view(), root@));
    r
}

/// The paths to stage for the commit: the relative path of every
/// manifest. One manifest without a relative path fails the staging.
pub fn staged_paths(relatives: Vec<Option<String>>) -> (r: Result<Vec<String>, ReleaseError>)
    ensures
        match r {
            Ok(paths) => staged_of(relatives.deep_view()) == Ok::<Seq<Seq<char>>, ReleaseError>(
                paths.deep_view(),
            ),
            Err(e) => staged_of(relatives.deep_view()) == Err::<Seq<Seq<char>>, ReleaseError>(e),
        },
{
    let mut paths: Vec<String> = Vec::new();
    let mut i: usize = 0;
    while i < relatives.len()
        invariant
            i <= relatives.len(),
            paths.len() == i,
            forall|j: int| 0 <= j < i ==> (#[trigger] relatives.deep_view()[j]) is Some,
            forall|j: int| 0 <= j < i ==> (#[trigger] paths[j])@ == relatives.deep_view()[j]->0,
        decreases relatives.len() - i,
    {
        assert(relatives.deep_view()[i as int] == relatives[i as int].deep_view());
        match &relatives[i] {
            None => {
                return Err(ReleaseError::GitOperation);
            },
            Some(path) => {
                paths.push(path.clone());
            },
        }
        i += 1;
    }
    assert(paths.deep_view() =~= Seq::new(
        relatives.deep_view().len(),
        |j: int| relatives.deep_view()[j]->0,
    ));
    Ok(paths)
}

} // verus!
