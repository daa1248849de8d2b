//! Discovery of the manifests and of the repository root.
//!
//! The file system is looked at elsewhere. This module takes what was seen,
//! as plain values, and decides what it means: which manifests count as
//! found and where the repository begins.

use crate::error::ReleaseError;
use vstd::prelude::*;

verus! {

/// The file name that marks a manifest.
pub const MANIFEST_FILE_NAME: &'static str = "Cargo.toml";

/// The name of the directory that marks a repository's root.
pub const REPOSITORY_MARKER_NAME: &'static str = ".git";

/// What one directory on the way up from the start directory holds.
#[derive(Debug, PartialEq, Eq)]
pub struct LevelProbe {
    /// The directory that was looked at.
    pub dir: String,
    /// The path a manifest has in this directory.
    pub manifest: String,
    /// A manifest file exists at that path.
    pub has_manifest: bool,
    /// The repository's marker directory exists in this directory.
    pub has_marker: bool,
}

/// One entry of a directory listing, in the order the directory gave it.
#[derive(Debug, PartialEq, Eq)]
pub enum DirEntry {
    /// A file, with its full path and its file name.
    File { path: String, name: String },
    /// A subdirectory, with its own listing.
    Dir { entries: Vec<DirEntry> },
}

/// The index of the first level at or after `from` that holds the marker,
/// or the number of levels if none does.
pub open spec fn marker_level(levels: Seq<LevelProbe>, from: int) -> int
    decreases levels.len() - from,
{
    if from < 0 || from >= levels.len() {
        levels.len() as int
    } else if levels[from].has_marker {
        from
    } else {
        marker_level(levels, from + 1)
    }
}

/// How many levels the ascent looks at: all up to and including the first
/// one with the marker.
pub open spec fn visited_levels(levels: Seq<LevelProbe>) -> int {
    let k = marker_level(levels, 0);
    if k < levels.len() {
        k + 1
    } else {
        k
    }
}

/// The manifests of the first `n` levels, nearest first.
pub open spec fn level_manifests(levels: Seq<LevelProbe>, n: int) -> Seq<Seq<char>>
    decreases n,
{
    if n <= 0 || n > levels.len() {
        Seq::empty()
    } else if levels[n - 1].has_manifest {
        level_manifests(levels, n - 1).push(levels[n - 1].manifest@)
    } else {
        level_manifests(levels, n - 1)
    }
}

/// The repository root: the first level that holds the marker.
pub open spec fn repository_root(levels: Seq<LevelProbe>) -> Option<Seq<char>> {
    let k = marker_level(levels, 0);
    if k < levels.len() {
        Some(levels[k].dir@)
    } else {
        None
    }
}

/// The manifests that one entry contributes to a depth-first walk. A file
/// counts only if it lies below the start directory (`below`) and is named
/// as a manifest; a directory contributes what its listing holds.
pub open spec fn entry_manifests(entry: DirEntry, below: bool) -> Seq<Seq<char>>
    decreases entry, 0nat,
{
    match entry {
        DirEntry::File { path, name } => if below && name@ == MANIFEST_FILE_NAME@ {
            seq![path@]
        } else {
            Seq::empty()
        },
        DirEntry::Dir { entries } => listing_manifests(entries, entries.len() as nat, true),
    }
}

/// The manifests of the first `n` entries of a listing, in listing order.
pub open spec fn listing_manifests(entries: Vec<DirEntry>, n: nat, below: bool) -> Seq<Seq<char>>
    decreases entries, n,
{
    if n == 0 || n > entries.len() {
        Seq::empty()
    } else {
        listing_manifests(entries, (n - 1) as nat, below) + entry_manifests(
            entries[n - 1],
            below,
        )
    }
}

/// The manifests strictly below the start directory whose listing is `entries`.
pub open spec fn manifests_below(entries: Vec<DirEntry>) -> Seq<Seq<char>> {
    listing_manifests(entries, entries.len() as nat, false)
}

/// The verdict on the start path: it must exist and be a directory.
pub open spec fn start_directory_of(exists: bool, is_dir: bool) -> Result<(), ReleaseError> {
    if exists && is_dir {
        Ok(())
    } else {
        Err(ReleaseError::Path)
    }
}

/// Accepts the start path where it exists and is a directory, and refuses
/// it with `Path` where it does not.
pub fn start_directory(exists: bool, is_dir: bool) -> (r: Result<(), ReleaseError>)
    ensures
        r == start_directory_of(exists, is_dir),
{
    if exists && is_dir {
        Ok(())
    } else {
        Err(ReleaseError::Path)
    }
}

/// All manifests that discovery yields: those of the ascent, then, with
/// `scan_subdirs`, those below the start directory.
pub open spec fn discovered_manifests(
    levels: Seq<LevelProbe>,
    below: Vec<DirEntry>,
    scan_subdirs: bool,
) -> Seq<Seq<char>> {
    let up = level_manifests(levels, visited_levels(levels));
    if scan_subdirs {
        up + manifests_below(below)
    } else {
        up
    }
}

/// What discovery comes to: the manifests and the repository root. It
/// fails where no manifest is found, and where no root is found.
pub open spec fn discovery_of(
    levels: Seq<LevelProbe>,
    below: Vec<DirEntry>,
    scan_subdirs: bool,
) -> Result<(Seq<Seq<char>>, Seq<char>), ReleaseError> {
    let found = discovered_manifests(levels, below, scan_subdirs);
    if found.len() == 0 {
        Err(ReleaseError::Discovery)
    } else {
        match repository_root(levels) {
            None => Err(ReleaseError::Discovery),
            Some(root) => Ok((found, root)),
        }
    }
}

/// `text` ends with `tail`.
pub open spec fn ends_with(text: Seq<char>, tail: Seq<char>) -> bool {
    text.len() >= tail.len() && text.subrange(text.len() - tail.len(), text.len() as int) == tail
}

/// `text` starts with `head`.
pub open spec fn starts_with(text: Seq<char>, head: Seq<char>) -> bool {
    text.len() >= head.len() && text.subrange(0, head.len() as int) == head
}

/// `path` is the path of a file that is named as a manifest.
pub open spec fn is_manifest_path(path: Seq<char>) -> bool {
    ends_with(path, MANIFEST_FILE_NAME@)
}

/// A level is valid where its manifest path is that of its own directory:
/// the path starts with the directory, ends with the manifest's file name,
/// and is long enough for both.
pub open spec fn level_valid(level: LevelProbe) -> bool {
    &&& level.manifest@.len() >= level.dir@.len() + MANIFEST_FILE_NAME@.len()
    &&& starts_with(level.manifest@, level.dir@)
    &&& is_manifest_path(level.manifest@)
}

/// An entry is valid where the path of each file in it ends with the
/// file's name.
pub open spec fn entry_valid(entry: DirEntry) -> bool
    decreases entry, 0nat,
{
    match entry {
        DirEntry::File { path, name } => ends_with(path@, name@),
        DirEntry::Dir { entries } => listing_valid(entries, entries.len() as nat),
    }
}

/// The first `n` entries of a listing are valid.
pub open spec fn listing_valid(entries: Vec<DirEntry>, n: nat) -> bool
    decreases entries, n,
{
    if n == 0 || n > entries.len() {
        true
    } else {
        listing_valid(entries, (n - 1) as nat) && entry_valid(entries[n - 1])
    }
}

/// The probes are valid: every level is, and the whole listing is.
pub open spec fn probes_valid(levels: Seq<LevelProbe>, below: Vec<DirEntry>) -> bool {
    &&& forall|i: int| 0 <= i < levels.len() ==> level_valid(#[trigger] levels[i])
    &&& listing_valid(below, below.len() as nat)
}

/// A listing with an entry that is not valid is not valid.
pub proof fn lemma_listing_invalid(entries: Vec<DirEntry>, k: int, n: nat)
    requires
        0 <= k < n <= entries.len(),
        !entry_valid(entries[k]),
    ensures
        !listing_valid(entries, n),
    decreases n,
{
    if k < n - 1 {
        lemma_listing_invalid(entries, k, (n - 1) as nat);
    }
}

/// The manifests of valid levels are files named as manifests.
pub proof fn lemma_level_manifests_named(levels: Seq<LevelProbe>, n: int)
    requires
        forall|i: int| 0 <= i < levels.len() ==> level_valid(#[trigger] levels[i]),
    ensures
        forall|i: int|
            0 <= i < level_manifests(levels, n).len() ==> is_manifest_path(
                #[trigger] level_manifests(levels, n)[i],
            ),
    decreases n,
{
    if 0 < n <= levels.len() {
        lemma_level_manifests_named(levels, n - 1);
        assert(level_valid(levels[n - 1]));
        let before = level_manifests(levels, n - 1);
        let now = level_manifests(levels, n);
        assert forall|i: int| 0 <= i < now.len() implies is_manifest_path(#[trigger] now[i]) by {
            if i < before.len() {
                assert(now[i] == before[i]);
            } else {
                assert(now[i] == levels[n - 1].manifest@);
            }
        }
    }
}

/// The manifests of a valid listing are files named as manifests.
pub proof fn lemma_listing_manifests_named(entries: Vec<DirEntry>, n: nat, below: bool)
    requires
        listing_valid(entries, n),
    ensures
        forall|i: int|
            0 <= i < listing_manifests(entries, n, below).len() ==> is_manifest_path(
                #[trigger] listing_manifests(entries, n, below)[i],
            ),
    decreases entries, n,
{
    reveal_with_fuel(entry_valid, 2);
    reveal_with_fuel(entry_manifests, 2);
    if 0 < n <= entries.len() {
        let entry = entries[n - 1];
        let before = listing_manifests(entries, (n - 1) as nat, below);
        let added = entry_manifests(entry, below);
        assert(listing_valid(entries, (n - 1) as nat) && entry_valid(entry));
        assert(listing_manifests(entries, n, below) == before + added);
        lemma_listing_manifests_named(entries, (n - 1) as nat, below);
        match entry {
            DirEntry::File { path, name } => {
                assert(ends_with(path@, name@));
            },
            DirEntry::Dir { entries: sub } => {
                assert(listing_valid(sub, sub.len() as nat));
                lemma_listing_manifests_named(sub, sub.len() as nat, true);
                assert(added == listing_manifests(sub, sub.len() as nat, true));
            },
        }
        assert forall|i: int| 0 <= i < (before + added).len() implies is_manifest_path(
            #[trigger] (before + added)[i],
        ) by {
            if i < before.len() {
                assert((before + added)[i] == before[i]);
            } else {
                assert((before + added)[i] == added[i - before.len()]);
            }
        }
    }
}

/// Every manifest that discovery yields from valid probes is a file named
/// as a manifest.
pub proof fn lemma_discovered_are_manifests(
    levels: Seq<LevelProbe>,
    below: Vec<DirEntry>,
    scan_subdirs: bool,
)
    requires
        probes_valid(levels, below),
    ensures
        forall|i: int|
            0 <= i < discovered_manifests(levels, below, scan_subdirs).len() ==> is_manifest_path(
                #[trigger] discovered_manifests(levels, below, scan_subdirs)[i],
            ),
{
    lemma_level_manifests_named(levels, visited_levels(levels));
    lemma_listing_manifests_named(below, below.len() as nat, false);
}

/// Adds to `found` the manifests of the listing `entries`, depth first and
/// in listing order.
fn collect_listing(entries: &Vec<DirEntry>, below: bool, found: &mut Vec<String>)
    ensures
        final(found).deep_view() == old(found).deep_view() + listing_manifests(
            *entries,
            entries.len() as nat,
            below,
        ),
    decreases entries,
{
    let manifest_name = String::from_str(MANIFEST_FILE_NAME);
    let mut i: usize = 0;
    while i < entries.len()
        invariant
            i <= entries.len(),
            manifest_name@ == MANIFEST_FILE_NAME@,
            found.deep_view() == old(found).deep_view() + listing_manifests(
                *entries,
                i as nat,
                below,
            ),
        decreases entries.len() - i,
    {
        let ghost before = found.deep_view();
        match &entries[i] {
            DirEntry::File { path, name } => {
                if below && *name == manifest_name {
                    found.push(path.clone());
                    assert(found.deep_view() =~= before.push(path@));
                }
            },
            DirEntry::Dir { entries: sub } => {
                collect_listing(sub, true, found);
            },
        }
        assert(found.deep_view() =~= before + entry_manifests(entries[i as int], below));
        i += 1;
    }
}

/// Walks the levels upward from the start directory, noting each manifest,
/// until a level holds the repository marker.
fn ascend(levels: &Vec<LevelProbe>) -> (r: (Vec<String>, Option<String>))
    ensures
        r.0.deep_view() == level_manifests(levels@, visited_levels(levels@)),
        r.1.deep_view() == repository_root(levels@),
{
    let mut found: Vec<String> = Vec::new();
    let mut i: usize = 0;
    while i < levels.len()
        invariant
            i <= levels.len(),
            marker_level(levels@, 0) == marker_level(levels@, i as int),
            found.deep_view() == level_manifests(levels@, i as int),
        decreases levels.len() - i,
    {
        let level = &levels[i];
        if level.has_manifest {
            let ghost before = found.deep_view();
            found.push(level.manifest.clone());
            assert(found.deep_view() =~= before.push(level.manifest@));
        }
        if level.has_marker {
            return (found, Some(level.dir.clone()));
        }
        i += 1;
    }
    (found, None)
}

/// Whether `part` stands in `text` at the position `at`.
fn stands_at(text: &str, part: &str, at: usize) -> (r: bool)
    ensures
        r == (at + part@.len() <= text@.len() && text@.subrange(
            at as int,
            at + part@.len(),
        ) == part@),
{
    let n = text.unicode_len();
    let m = part.unicode_len();
    if at > n || m > n - at {
        return false;
    }
    let mut i: usize = 0;
    while i < m
        invariant
            i <= m,
            m == part@.len(),
            n == text@.len(),
            at + m <= n,
            forall|j: int| 0 <= j < i ==> text@[at + j] == part@[j],
        decreases m - i,
    {
        if text.get_char(at + i) != part.get_char(i) {
            assert(text@.subrange(at as int, at + m)[i as int] != part@[i as int]);
            return false;
        }
        i += 1;
    }
    assert(text@.subrange(at as int, at + m) =~= part@);
    true
}

/// Whether `text` ends with `tail`.
fn has_suffix(text: &str, tail: &str) -> (r: bool)
    ensures
        r == ends_with(text@, tail@),
{
    let n = text.unicode_len();
    let m = tail.unicode_len();
    if m > n {
        false
    } else {
        stands_at(text, tail, n - m)
    }
}

/// Whether the level holds what a look at a directory gives.
fn level_is_valid(level: &LevelProbe) -> (r: bool)
    ensures
        r == level_valid(*level),
{
    let whole = level.manifest.as_str().unicode_len();
    let dir = level.dir.as_str().unicode_len();
    let name = MANIFEST_FILE_NAME.unicode_len();
    dir <= whole && name <= whole - dir && stands_at(
        level.manifest.as_str(),
        level.dir.as_str(),
        0,
    ) && has_suffix(level.manifest.as_str(), MANIFEST_FILE_NAME)
}

/// Whether every file of the listing has a path that ends with its name.
fn listing_is_valid(entries: &Vec<DirEntry>) -> (r: bool)
    ensures
        r == listing_valid(*entries, entries.len() as nat),
    decreases entries,
{
    let mut i: usize = 0;
    while i < entries.len()
        invariant
            i <= entries.len(),
            listing_valid(*entries, i as nat),
        decreases entries.len() - i,
    {
        let valid = match &entries[i] {
            DirEntry::File { path, name } => has_suffix(path.as_str(), name.as_str()),
            DirEntry::Dir { entries: sub } => listing_is_valid(sub),
        };
        proof {
            reveal_with_fuel(entry_valid, 2);
        }
        assert(valid == entry_valid(entries[i as int]));
        if !valid {
            proof {
                lemma_listing_invalid(*entries, i as int, entries.len() as nat);
            }
            return false;
        }
        i += 1;
    }
    true
}

/// Whether the probes hold what a look at the file system gives: each
/// level names the manifest of its own directory, and each file of the
/// listing has a path that ends with its name. Discovery asks for this.
pub fn probes_are_valid(levels: &Vec<LevelProbe>, below: &Vec<DirEntry>) -> (r: bool)
    ensures
        r == probes_valid(levels@, *below),
{
    let mut i: usize = 0;
    while i < levels.len()
        invariant
            i <= levels.len(),
            forall|j: int| 0 <= j < i ==> level_valid(#[trigger] levels[j]),
        decreases levels.len() - i,
    {
        if !level_is_valid(&levels[i]) {
            return false;
        }
        i += 1;
    }
    listing_is_valid(below)
}

/// Finds the manifests and the repository root from what the directories
/// hold.
///
/// `levels` are the start directory and its ancestors, nearest first;
/// `below` is the listing of the start directory. The ascent notes the
/// manifest of every level up to and including the first that holds the
/// repository marker, and that level is the root. With `scan_subdirs`, the
/// manifests strictly below the start directory follow, depth first. The
/// manifest of the start directory itself is found by the ascent only.
///
/// Fails with `Discovery` where no manifest is found, and where no level
/// holds the repository marker. Every manifest that is found is a file
/// named as a manifest.
pub fn find_cargo_tomls_and_git_base(
    levels: &Vec<LevelProbe>,
    below: &Vec<DirEntry>,
    scan_subdirs: bool,
) -> (r: Result<(Vec<String>, String), ReleaseError>)
    requires
        probes_valid(levels@, *below),
    ensures
        match r {
            Ok(found) => discovery_of(levels@, *below, scan_subdirs) == Ok::<
                (Seq<Seq<char>>, Seq<char>),
                ReleaseError,
            >((found.0.deep_view(), found.1@)),
            Err(e) => discovery_of(levels@, *below, scan_subdirs) == Err::<
                (Seq<Seq<char>>, Seq<char>),
                ReleaseError,
            >(e),
        },
        r matches Ok(found) ==> found.0.len() > 0 && forall|i: int|
            0 <= i < found.0.len() ==> is_manifest_path(#[trigger] found.0.deep_view()[i]),
{
    let (mut found, root) = ascend(levels);
    if scan_subdirs {
        collect_listing(below, false, &mut found);
    }
    proof {
        lemma_discovered_are_manifests(levels@, *below, scan_subdirs);
    }
    if found.len() == 0 {
        return Err(ReleaseError::Discovery);
    }
    match root {
        None => Err(ReleaseError::Discovery),
        Some(root) => Ok((found, root)),
    }
}

} // verus!
