//! Reading the version out of a manifest and writing a new one into it.
//!
//! A manifest is held as its full text. The document parser takes the
//! text apart and puts it together again, so that a rewrite changes the
//! version field and leaves the rest of the text alone.

use crate::error::ReleaseError;
use crate::version::{parsed_version, version_text, Version};
use toml_edit::{value, DocumentMut, TomlError};
use vstd::prelude::*;

verus! {

/// The section of a manifest that holds the version.
pub const PACKAGE_SECTION: &'static str = "package";

/// The key of the version in its section.
pub const VERSION_KEY: &'static str = "version";

/// The error of the document parser.
#[verifier::external_type_specification]
#[verifier::external_body]
pub struct ExTomlError(TomlError);

/// What the document parser finds in the text `content` under `key` of
/// `section`: `None` where the text is no well-formed document,
/// `Some(None)` where the document has no such field, else the field as
/// the document writes it, its quotes and the blanks around it included.
pub uninterp spec fn document_field(
    content: Seq<char>,
    section: Seq<char>,
    key: Seq<char>,
) -> Option<Option<Seq<char>>>;

/// The text of the document `content` after the field `key` of `section`
/// was set to the string `text`.
pub uninterp spec fn document_with_field(
    content: Seq<char>,
    section: Seq<char>,
    key: Seq<char>,
    text: Seq<char>,
) -> Seq<char>;

/// One manifest: where it lies, the version it holds and its full text.
#[derive(Debug, PartialEq, Eq)]
pub struct ManifestEntry {
    pub path: String,
    pub version: Version,
    pub document: String,
}

/// A manifest as contracts see it.
pub struct ManifestEntryView {
    pub path: Seq<char>,
    pub version: Version,
    pub document: Seq<char>,
}

impl View for ManifestEntry {
    type V = ManifestEntryView;

    open spec fn view(&self) -> ManifestEntryView {
        ManifestEntryView { path: self.path@, version: self.version, document: self.document@ }
    }
}

impl DeepView for ManifestEntry {
    type V = ManifestEntryView;

    open spec fn deep_view(&self) -> ManifestEntryView {
        self@
    }
}

/// The version that a version field holds; a manifest without the field
/// holds none.
pub open spec fn field_version(field: Option<Seq<char>>) -> Result<Version, ReleaseError> {
    match field {
        None => Err(ReleaseError::VersionParse),
        Some(text) => match parsed_version(text) {
            Some(v) => Ok(v),
            None => Err(ReleaseError::VersionParse),
        },
    }
}

/// The version that the manifest text `content` holds.
pub open spec fn manifest_version_of(content: Seq<char>) -> Result<Version, ReleaseError> {
    match document_field(content, PACKAGE_SECTION@, VERSION_KEY@) {
        None => Err(ReleaseError::ManifestParse),
        Some(field) => field_version(field),
    }
}

/// The manifest text `content` with its version field set to `version`.
/// Only a manifest that has the field can be rewritten.
pub open spec fn rewritten_manifest(content: Seq<char>, version: Version) -> Result<
    Seq<char>,
    ReleaseError,
> {
    match document_field(content, PACKAGE_SECTION@, VERSION_KEY@) {
        None => Err(ReleaseError::ManifestParse),
        Some(None) => Err(ReleaseError::VersionParse),
        Some(Some(_)) => Ok(
            document_with_field(content, PACKAGE_SECTION@, VERSION_KEY@, version_text(version)),
        ),
    }
}

/// The content that was read for the manifest at `i`: none where the
/// reading failed or nothing was handed in for it.
pub open spec fn content_at(contents: Seq<Option<Seq<char>>>, i: int) -> Option<Seq<char>> {
    if 0 <= i < contents.len() {
        contents[i]
    } else {
        None
    }
}

/// The entry of the manifest at `path` with the content that was read.
pub open spec fn entry_of(path: Seq<char>, content: Option<Seq<char>>) -> Result<
    ManifestEntryView,
    ReleaseError,
> {
    match content {
        None => Err(ReleaseError::ManifestRead),
        Some(text) => match manifest_version_of(text) {
            Err(e) => Err(e),
            Ok(version) => Ok(ManifestEntryView { path, version, document: text }),
        },
    }
}

/// `path` is one of the first `n` of `paths`.
pub open spec fn given_among(paths: Seq<Seq<char>>, n: int, path: Seq<char>) -> bool {
    exists|j: int| 0 <= j < n && #[trigger] paths[j] == path
}

/// The path at `i` stands in `paths` before `i` already.
pub open spec fn seen_before(paths: Seq<Seq<char>>, i: int) -> bool {
    given_among(paths, i, paths[i])
}

/// The entries of the first `n` paths: one for each path where it occurs
/// first, in that order, or the error of the first such path that has no
/// entry. A path that occurred before is passed over.
pub open spec fn entries_upto(
    paths: Seq<Seq<char>>,
    contents: Seq<Option<Seq<char>>>,
    n: int,
) -> Result<Seq<ManifestEntryView>, ReleaseError>
    decreases n,
{
    if n <= 0 {
        Ok(Seq::empty())
    } else {
        match entries_upto(paths, contents, n - 1) {
            Err(e) => Err(e),
            Ok(entries) => if seen_before(paths, n - 1) {
                Ok(entries)
            } else {
                match entry_of(paths[n - 1], content_at(contents, n - 1)) {
                    Err(e) => Err(e),
                    Ok(entry) => Ok(entries.push(entry)),
                }
            },
        }
    }
}

/// The entries of the manifests: one entry for each path, however often
/// the path is given, or the error of the first manifest that has none.
pub open spec fn entries_of(paths: Seq<Seq<char>>, contents: Seq<Option<Seq<char>>>) -> Result<
    Seq<ManifestEntryView>,
    ReleaseError,
> {
    entries_upto(paths, contents, paths.len() as int)
}

/// No two of `entries` have the same path.
pub open spec fn unique_paths(entries: Seq<ManifestEntryView>) -> bool {
    forall|a: int, b: int|
        0 <= a < b < entries.len() ==> (#[trigger] entries[a]).path != (#[trigger] entries[b]).path
}

/// One of `entries` has the path `path`.
pub open spec fn has_path(entries: Seq<ManifestEntryView>, path: Seq<char>) -> bool {
    exists|a: int| 0 <= a < entries.len() && (#[trigger] entries[a]).path == path
}

/// Once a manifest has failed, the error stays however many paths follow.
pub proof fn lemma_entries_error_stays(
    paths: Seq<Seq<char>>,
    contents: Seq<Option<Seq<char>>>,
    k: int,
    n: int,
)
    requires
        0 <= k <= n,
        entries_upto(paths, contents, k) is Err,
    ensures
        entries_upto(paths, contents, n) == entries_upto(paths, contents, k),
    decreases n - k,
{
    if k < n {
        lemma_entries_error_stays(paths, contents, k, n - 1);
    }
}

/// The entries are keyed by their paths: no path has two entries, and the
/// paths that have an entry are the paths that were given.
pub proof fn lemma_entries_keyed_by_path(
    paths: Seq<Seq<char>>,
    contents: Seq<Option<Seq<char>>>,
    n: int,
)
    requires
        0 <= n <= paths.len(),
        entries_upto(paths, contents, n) is Ok,
    ensures
        unique_paths(entries_upto(paths, contents, n)->Ok_0),
        entries_upto(paths, contents, n)->Ok_0.len() <= n,
        forall|i: int|
            0 <= i < n ==> has_path(entries_upto(paths, contents, n)->Ok_0, #[trigger] paths[i]),
        forall|a: int|
            0 <= a < entries_upto(paths, contents, n)->Ok_0.len() ==> given_among(
                paths,
                n,
                (#[trigger] entries_upto(paths, contents, n)->Ok_0[a]).path,
            ),
    decreases n,
{
    if n > 0 {
        let before = entries_upto(paths, contents, n - 1)->Ok_0;
        let now = entries_upto(paths, contents, n)->Ok_0;
        lemma_entries_keyed_by_path(paths, contents, n - 1);
        if seen_before(paths, n - 1) {
            let j = choose|j: int| 0 <= j < n - 1 && #[trigger] paths[j] == paths[n - 1];
            assert(has_path(before, paths[j]));
            assert forall|i: int| 0 <= i < n implies has_path(now, #[trigger] paths[i]) by {
                if i < n - 1 {
                    assert(has_path(before, paths[i]));
                }
            }
            assert forall|a: int| 0 <= a < now.len() implies given_among(
                paths,
                n,
                (#[trigger] now[a]).path,
            ) by {
                let i = choose|i: int| 0 <= i < n - 1 && #[trigger] paths[i] == before[a].path;
                assert(0 <= i < n && paths[i] == now[a].path);
            }
        } else {
            let entry = entry_of(paths[n - 1], content_at(contents, n - 1))->Ok_0;
            assert(now == before.push(entry));
            assert(entry.path == paths[n - 1]);
            assert forall|a: int, b: int| 0 <= a < b < now.len() implies (#[trigger] now[a]).path != (
            #[trigger] now[b]).path by {
                if b == before.len() {
                    assert(now[a] == before[a]);
                    let i = choose|i: int| 0 <= i < n - 1 && #[trigger] paths[i] == before[a].path;
                    assert(paths[i] != paths[n - 1]);
                } else {
                    assert(now[a] == before[a] && now[b] == before[b]);
                }
            }
            assert forall|i: int| 0 <= i < n implies has_path(now, #[trigger] paths[i]) by {
                if i < n - 1 {
                    assert(has_path(before, paths[i]));
                    let a = choose|a: int| 0 <= a < before.len() && (#[trigger] before[a]).path == paths[i];
                    assert(now[a] == before[a]);
                } else {
                    assert(now[before.len() as int] == entry);
                }
            }
            assert forall|a: int| 0 <= a < now.len() implies given_among(
                paths,
                n,
                (#[trigger] now[a]).path,
            ) by {
                if a < before.len() {
                    assert(now[a] == before[a]);
                    let i = choose|i: int| 0 <= i < n - 1 && #[trigger] paths[i] == before[a].path;
                    assert(0 <= i < n && paths[i] == now[a].path);
                } else {
                    assert(paths[n - 1] == now[a].path);
                }
            }
        }
    }
}

/// Reads the field `key` of `section` out of the document text `content`.
/// This is `DocumentMut::from_str` of `toml_edit`, then `Item::get` on the
/// root for the section and on the section for the key (neither fails on
/// a missing entry), then the field's `to_string`.
///
/// Trusted: that the outcome is a function of the three texts alone, which
/// `document_field` names. Nothing is claimed of what the field holds.
#[verifier::external_body]
fn read_field(content: &str, section: &str, key: &str) -> (r: Result<Option<String>, TomlError>)
    ensures
        match r {
            Ok(field) => document_field(content@, section@, key@) == Some(field.deep_view()),
            Err(_) => document_field(content@, section@, key@) is None,
        },
{
    let doc = content.parse::<DocumentMut>()?;
    let field = doc.as_item().get(section).and_then(|table| table.get(key));
    Ok(field.map(|item| item.to_string()))
}

/// Sets the field `key` of `section` in the document text `content` to the
/// string `text` and writes the document out again. This is
/// `DocumentMut::from_str` of `toml_edit`, an assignment of
/// `toml_edit::value(text)` through `IndexMut`, and the document's
/// `to_string`.
///
/// The index panics where the section is neither a table nor absent; the
/// precondition keeps to documents in which the field was found, where the
/// section is a table. Trusted: that such a document parses again, and that
/// the text written is a function of the four texts alone, which
/// `document_with_field` names. That the rest of the document stays as it
/// was is the parser's promise and is not stated here.
#[verifier::external_body]
fn write_field(
    content: &str,
    section: &str,
    key: &str,
    text: &str,
) -> (r: Result<String, TomlError>)
    requires
        document_field(content@, section@, key@) matches Some(Some(_)),
    ensures
        match r {
            Ok(written) => written@ == document_with_field(content@, section@, key@, text@),
            Err(_) => false,
        },
{
    let mut doc = content.parse::<DocumentMut>()?;
    doc[section][key] = value(text);
    Ok(doc.to_string())
}

/// The version of a version field as the document writes it. The field
/// may hold more than the version, such as quotes: the first version
/// pattern in it counts. A missing field holds no version.
pub fn version_of_field(field: &Option<String>) -> (r: Result<Version, ReleaseError>)
    ensures
        r == field_version(field.deep_view()),
{
    match field {
        None => Err(ReleaseError::VersionParse),
        Some(text) => Version::parse(text.as_str()),
    }
}

/// Reads the version of the package out of a manifest's text.
///
/// Fails with `ManifestParse` where the text is no well-formed document
/// and with `VersionParse` where the package has no version field or the
/// field holds no version.
pub fn manifest_version(content: &str) -> (r: Result<Version, ReleaseError>)
    ensures
        r == manifest_version_of(content@),
{
    match read_field(content, PACKAGE_SECTION, VERSION_KEY) {
        Err(_) => Err(ReleaseError::ManifestParse),
        Ok(field) => version_of_field(&field),
    }
}

/// Writes `version` into the version field of a manifest's text and
/// returns the new text.
///
/// Fails with `ManifestParse` where the text is no well-formed document
/// and with `VersionParse` where the package has no version field.
pub fn rewrite_manifest(content: &str, version: &Version) -> (r: Result<String, ReleaseError>)
    ensures
        match r {
            Ok(text) => rewritten_manifest(content@, *version) == Ok::<Seq<char>, ReleaseError>(
                text@,
            ),
            Err(e) => rewritten_manifest(content@, *version) == Err::<Seq<char>, ReleaseError>(e),
        },
{
    match read_field(content, PACKAGE_SECTION, VERSION_KEY) {
        Err(_) => Err(ReleaseError::ManifestParse),
        Ok(None) => Err(ReleaseError::VersionParse),
        Ok(Some(_)) => {
            let text = version.to_string();
            match write_field(content, PACKAGE_SECTION, VERSION_KEY, text.as_str()) {
                Ok(written) => Ok(written),
                Err(_) => Err(ReleaseError::ManifestParse),
            }
        },
    }
}

/// Whether the path at `i` stands in `paths` before `i` already.
fn occurs_before(paths: &Vec<String>, i: usize) -> (r: bool)
    requires
        i < paths.len(),
    ensures
        r == seen_before(paths.deep_view(), i as int),
{
    let mut j: usize = 0;
    while j < i
        invariant
            j <= i < paths.len(),
            forall|k: int| 0 <= k < j ==> paths.deep_view()[k] != paths.deep_view()[i as int],
        decreases i - j,
    {
        assert(paths.deep_view()[j as int] == paths[j as int]@);
        assert(paths.deep_view()[i as int] == paths[i as int]@);
        if paths[j] == paths[i] {
            assert(given_among(paths.deep_view(), i as int, paths.deep_view()[i as int]));
            return true;
        }
        j += 1;
    }
    false
}

/// Makes the entry of the manifest at `path` from the content that was
/// read for it, the one at `i`.
fn read_entry(path: &String, contents: &Vec<Option<String>>, i: usize) -> (r: Result<
    ManifestEntry,
    ReleaseError,
>)
    ensures
        match r {
            Ok(entry) => entry_of(path@, content_at(contents.deep_view(), i as int)) == Ok::<
                ManifestEntryView,
                ReleaseError,
            >(entry@),
            Err(e) => entry_of(path@, content_at(contents.deep_view(), i as int)) == Err::<
                ManifestEntryView,
                ReleaseError,
            >(e),
        },
{
    if i >= contents.len() {
        return Err(ReleaseError::ManifestRead);
    }
    assert(contents.deep_view()[i as int] == contents[i as int].deep_view());
    match &contents[i] {
        None => Err(ReleaseError::ManifestRead),
        Some(text) => match manifest_version(text.as_str()) {
            Err(e) => Err(e),
            Ok(version) => Ok(
                ManifestEntry { path: path.clone(), version, document: text.clone() },
            ),
        },
    }
}

/// Makes the entry of each manifest from its path and the content that
/// was read for it, in order, and stops at the first manifest that fails.
///
/// `contents[i]` is the text read at `cargo_tomls[i]`, or `None` where
/// the file could not be read; a path without a content counts as not
/// read. The entries are keyed by their paths: a path that is given
/// again is passed over, so no two entries have one path. A manifest
/// fails with `ManifestRead`, `ManifestParse` or `VersionParse`.
pub fn read_version_tomls(
    cargo_tomls: &Vec<String>,
    contents: &Vec<Option<String>>,
) -> (r: Result<Vec<ManifestEntry>, ReleaseError>)
    ensures
        match r {
            Ok(entries) => entries_of(cargo_tomls.deep_view(), contents.deep_view()) == Ok::<
                Seq<ManifestEntryView>,
                ReleaseError,
            >(entries.deep_view()),
            Err(e) => entries_of(cargo_tomls.deep_view(), contents.deep_view()) == Err::<
                Seq<ManifestEntryView>,
                ReleaseError,
            >(e),
        },
        r matches Ok(entries) ==> unique_paths(entries.deep_view()),
{
    let ghost paths = cargo_tomls.deep_view();
    let ghost texts = contents.deep_view();
    let mut entries: Vec<ManifestEntry> = Vec::new();
    assert(entries.deep_view() =~= Seq::<ManifestEntryView>::empty());
    let mut i: usize = 0;
    while i < cargo_tomls.len()
        invariant
            i <= cargo_tomls.len(),
            paths == cargo_tomls.deep_view(),
            texts == contents.deep_view(),
            entries_upto(paths, texts, i as int) == Ok::<Seq<ManifestEntryView>, ReleaseError>(
                entries.deep_view(),
            ),
        decreases cargo_tomls.len() - i,
    {
        assert(paths[i as int] == cargo_tomls[i as int]@);
        if !occurs_before(cargo_tomls, i) {
            match read_entry(&cargo_tomls[i], contents, i) {
                Err(e) => {
                    proof {
                        lemma_entries_error_stays(paths, texts, i + 1, paths.len() as int);
                    }
                    return Err(e);
                },
                Ok(entry) => {
                    let ghost before = entries.deep_view();
                    entries.push(entry);
                    assert(entries.deep_view() =~= before.push(entry@));
                },
            }
        }
        i += 1;
    }
    proof {
        lemma_entries_keyed_by_path(paths, texts, paths.len() as int);
    }
    Ok(entries)
}

} // verus!
