//! The release transaction: a strictly ordered run of stages, each of
//! which either succeeds and hands out the next piece of outside work, or
//! fails and ends the run. Nothing that a stage has done is undone when a
//! later stage fails.
//!
//! This module decides; it does not act. `begin` and `advance` take what
//! was seen or done outside, and answer with the next state and the next
//! `Action` to perform.

use crate::error::{all_ok, collected, lemma_collected_first_error, ReleaseError};
use crate::locator::{
    discovery_of,
    find_cargo_tomls_and_git_base,
    is_manifest_path,
    probes_valid,
    DirEntry,
    LevelProbe,
};
use crate::manifest::{
    entries_of,
    lemma_entries_keyed_by_path,
    unique_paths,
    read_version_tomls,
    rewrite_manifest,
    rewritten_manifest,
    ManifestEntry,
    ManifestEntryView,
};
use crate::repository::{
    commit_message,
    commit_message_of,
    preflight,
    preflight_of,
    relative_manifests,
    relatives_of,
    release_tag,
    release_tag_name,
    staged_of,
    staged_paths,
    tag_pattern,
    tag_pattern_of,
    tag_ref,
    tag_ref_of,
    VersionChangeType,
    VersionChangeView,
    DEFAULT_REMOTE,
    DEFAULT_TAG_PREFIX,
};
use crate::selector::{filter_cargo_tomls_by_selector, selected_manifests, CargoFile};
use crate::version::{can_increment, incremented, parsed_version, Version};
use vstd::prelude::*;

verus! {

/// What a release was asked to do.
#[derive(Debug, PartialEq, Eq)]
pub struct ReleaseRequest {
    /// Which manifests to write when several are found.
    pub cargo_file_selector: Option<CargoFile>,
    /// The change of version to make.
    pub change_type: VersionChangeType,
    /// The message of the tag.
    pub tag_message: String,
    /// The remote to push to.
    pub remote: String,
    /// The prefix of the tag's name.
    pub git_prefix_for_tag: String,
}

/// A request as contracts see it.
pub struct ReleaseRequestView {
    pub cargo_file_selector: Option<CargoFile>,
    pub change_type: VersionChangeView,
    pub tag_message: Seq<char>,
    pub remote: Seq<char>,
    pub git_prefix_for_tag: Seq<char>,
}

impl View for ReleaseRequest {
    type V = ReleaseRequestView;

    open spec fn view(&self) -> ReleaseRequestView {
        ReleaseRequestView {
            cargo_file_selector: self.cargo_file_selector,
            change_type: self.change_type@,
            tag_message: self.tag_message@,
            remote: self.remote@,
            git_prefix_for_tag: self.git_prefix_for_tag@,
        }
    }
}

/// How far a release has come. The stages follow each other in this
/// order and none is skipped.
#[derive(Clone, Copy, Debug, PartialEq, Eq, Structural)]
pub enum Stage {
    /// The manifests and the repository root are found.
    Located,
    /// The manifests to write are chosen.
    Selected,
    /// The manifests are read and the new version is known.
    VersionComputed,
    /// The working tree is clean and the release tag is free.
    PreflightChecked,
    /// The manifests are written.
    Written,
    /// The manifests are committed.
    Committed,
    /// The commit is tagged.
    Tagged,
    /// The branch and the tag are pushed.
    Pushed,
    /// Nothing is left to do.
    Done,
}

/// The outside work that a release asks for next.
#[derive(Debug, PartialEq, Eq)]
pub enum Action {
    /// Nothing to do outside: report `Outcome::Completed`.
    Continue,
    /// Open the repository at `root`, look up `remote` in it, then read
    /// the text of each of `manifests`. Report `Outcome::Manifests`, or
    /// `Outcome::Failed` where the repository or the remote is not there.
    Open { root: String, remote: String, manifests: Vec<String> },
    /// Count the pending changes of tracked files in the working tree and
    /// list the tags that match `tag_pattern`. Report
    /// `Outcome::Repository`.
    Inspect { tag_pattern: String },
    /// Overwrite the manifest at the path of `file` with its document.
    /// Report `Outcome::Completed`, or `Outcome::Failed` where it cannot
    /// be written.
    Write { file: ManifestEntry },
    /// Stage exactly `paths`, which are relative to the repository root,
    /// and commit them on top of the current head with `message`. Report
    /// `Outcome::Completed`.
    Commit { paths: Vec<String>, message: String },
    /// Create the annotated tag `name` with `message` at the new commit.
    /// Report `Outcome::Tagged` with the reference name of the current
    /// branch.
    Tag { name: String, message: String },
    /// Push all of `refs` to `remote` in one go. Report
    /// `Outcome::Completed`.
    Push { remote: String, refs: Vec<String> },
    /// The release is complete.
    Finish,
}

/// An action as contracts see it.
pub enum ActionView {
    Continue,
    Open { root: Seq<char>, remote: Seq<char>, manifests: Seq<Seq<char>> },
    Inspect { tag_pattern: Seq<char> },
    Write { file: ManifestEntryView },
    Commit { paths: Seq<Seq<char>>, message: Seq<char> },
    Tag { name: Seq<char>, message: Seq<char> },
    Push { remote: Seq<char>, refs: Seq<Seq<char>> },
    Finish,
}

impl View for Action {
    type V = ActionView;

    open spec fn view(&self) -> ActionView {
        match self {
            Action::Continue => ActionView::Continue,
            Action::Open { root, remote, manifests } => ActionView::Open {
                root: root@,
                remote: remote@,
                manifests: manifests.deep_view(),
            },
            Action::Inspect { tag_pattern } => ActionView::Inspect { tag_pattern: tag_pattern@ },
            Action::Write { file } => ActionView::Write { file: file@ },
            Action::Commit { paths, message } => ActionView::Commit {
                paths: paths.deep_view(),
                message: message@,
            },
            Action::Tag { name, message } => ActionView::Tag { name: name@, message: message@ },
            Action::Push { remote, refs } => ActionView::Push {
                remote: remote@,
                refs: refs.deep_view(),
            },
            Action::Finish => ActionView::Finish,
        }
    }
}

/// What came of the last action.
#[derive(Debug, PartialEq, Eq)]
pub enum Outcome {
    /// The action was performed.
    Completed,
    /// The text of each manifest in the order asked for, `None` for one
    /// that could not be read.
    Manifests { contents: Vec<Option<String>> },
    /// The number of pending changes and the existing release tags.
    Repository { pending_changes: usize, tags: Vec<String> },
    /// The tag was created; `head_ref` names the current branch.
    Tagged { head_ref: String },
    /// The action could not be performed.
    Failed,
}

/// An outcome as contracts see it.
pub enum OutcomeView {
    Completed,
    Manifests { contents: Seq<Option<Seq<char>>> },
    Repository { pending_changes: nat, tags: Seq<Seq<char>> },
    Tagged { head_ref: Seq<char> },
    Failed,
}

impl View for Outcome {
    type V = OutcomeView;

    open spec fn view(&self) -> OutcomeView {
        match self {
            Outcome::Completed => OutcomeView::Completed,
            Outcome::Manifests { contents } => OutcomeView::Manifests {
                contents: contents.deep_view(),
            },
            Outcome::Repository { pending_changes, tags } => OutcomeView::Repository {
                pending_changes: *pending_changes as nat,
                tags: tags.deep_view(),
            },
            Outcome::Tagged { head_ref } => OutcomeView::Tagged { head_ref: head_ref@ },
            Outcome::Failed => OutcomeView::Failed,
        }
    }
}

/// A release under way.
#[derive(Debug, PartialEq, Eq)]
pub struct Release {
    /// What was asked for.
    pub request: ReleaseRequest,
    /// The stage that was reached last.
    pub stage: Stage,
    /// The repository root.
    pub root: String,
    /// The manifests: all that were found, and from `Selected` on those
    /// that were chosen.
    pub manifests: Vec<String>,
    /// The entries of the chosen manifests, from `VersionComputed` on,
    /// one for each path; from `PreflightChecked` on they hold the new
    /// version.
    pub entries: Vec<ManifestEntry>,
    /// The version to release, from `VersionComputed` on.
    pub new_version: Version,
    /// How many of the entries are written to their manifests.
    pub written: usize,
}

/// A release as contracts see it.
pub struct ReleaseView {
    pub request: ReleaseRequestView,
    pub stage: Stage,
    pub root: Seq<char>,
    pub manifests: Seq<Seq<char>>,
    pub entries: Seq<ManifestEntryView>,
    pub new_version: Version,
    pub written: nat,
}

impl View for Release {
    type V = ReleaseView;

    open spec fn view(&self) -> ReleaseView {
        ReleaseView {
            request: self.request@,
            stage: self.stage,
            root: self.root@,
            manifests: self.manifests.deep_view(),
            entries: self.entries.deep_view(),
            new_version: self.new_version,
            written: self.written as nat,
        }
    }
}

/// The request that is made of the given parts: the remote and the tag
/// prefix fall back to `origin` and `v`.
pub open spec fn request_of(
    cargo_file_selector: Option<CargoFile>,
    change_type: VersionChangeView,
    tag_message: Seq<char>,
    remote: Option<Seq<char>>,
    git_prefix_for_tag: Option<Seq<char>>,
) -> ReleaseRequestView {
    ReleaseRequestView {
        cargo_file_selector,
        change_type,
        tag_message,
        remote: match remote {
            Some(name) => name,
            None => DEFAULT_REMOTE@,
        },
        git_prefix_for_tag: match git_prefix_for_tag {
            Some(prefix) => prefix,
            None => DEFAULT_TAG_PREFIX@,
        },
    }
}

/// All of `entries` hold the version of the first.
pub open spec fn same_versions(entries: Seq<ManifestEntryView>) -> bool {
    forall|i: int| 0 <= i < entries.len() ==> (#[trigger] entries[i]).version == entries[0].version
}

/// The version to release. A fixed version is read from its text. An
/// increment raises the version that all manifests share.
pub open spec fn requested_version(
    change: VersionChangeView,
    entries: Seq<ManifestEntryView>,
) -> Result<Version, ReleaseError> {
    match change {
        VersionChangeView::Fixed { full_version } => match parsed_version(full_version) {
            Some(v) => Ok(v),
            None => Err(ReleaseError::VersionParse),
        },
        VersionChangeView::Increment { vtype } => if entries.len() == 0 {
            Err(ReleaseError::Discovery)
        } else if !same_versions(entries) {
            Err(ReleaseError::Consistency)
        } else if !can_increment(entries[0].version, vtype) {
            Err(ReleaseError::VersionOverflow)
        } else {
            Ok(incremented(entries[0].version, vtype))
        },
        VersionChangeView::OnlyShow => Err(ReleaseError::Unimplemented),
    }
}

/// The entry `entry` with `version` written into its document.
pub open spec fn rewritten_entry(entry: ManifestEntryView, version: Version) -> Result<
    ManifestEntryView,
    ReleaseError,
> {
    match rewritten_manifest(entry.document, version) {
        Ok(document) => Ok(ManifestEntryView { path: entry.path, version, document }),
        Err(e) => Err(e),
    }
}

/// What rewriting each entry gives, in the order of the entries.
pub open spec fn rewrite_results(entries: Seq<ManifestEntryView>, version: Version) -> Seq<
    Result<ManifestEntryView, ReleaseError>,
> {
    Seq::new(entries.len(), |i: int| rewritten_entry(entries[i], version))
}

/// All entries with `version` written into their documents.
pub open spec fn rewritten_entries(entries: Seq<ManifestEntryView>, version: Version) -> Result<
    Seq<ManifestEntryView>,
    ReleaseError,
> {
    collected(rewrite_results(entries, version))
}

/// The paths of the entries, in their order.
pub open spec fn entry_paths(entries: Seq<ManifestEntryView>) -> Seq<Seq<char>> {
    Seq::new(entries.len(), |i: int| entries[i].path)
}

/// The start of a release: discovery. It fails where discovery fails.
pub open spec fn begin_spec(
    request: ReleaseRequestView,
    levels: Seq<LevelProbe>,
    below: Vec<DirEntry>,
    scan_subdirs: bool,
) -> Result<(ReleaseView, ActionView), ReleaseError> {
    match discovery_of(levels, below, scan_subdirs) {
        Err(e) => Err(e),
        Ok(found) => Ok(
            (
                ReleaseView {
                    request,
                    stage: Stage::Located,
                    root: found.1,
                    manifests: found.0,
                    entries: Seq::empty(),
                    new_version: Version { major: 0, minor: 0, patch: 0 },
                    written: 0,
                },
                ActionView::Continue,
            ),
        ),
    }
}

/// From `Located`: the selection policy chooses the manifests.
pub open spec fn select_step(r: ReleaseView) -> Result<(ReleaseView, ActionView), ReleaseError> {
    match selected_manifests(r.manifests, r.request.cargo_file_selector) {
        Err(e) => Err(e),
        Ok(chosen) => Ok(
            (
                ReleaseView { stage: Stage::Selected, manifests: chosen, ..r },
                ActionView::Open { root: r.root, remote: r.request.remote, manifests: chosen },
            ),
        ),
    }
}

/// From `Selected`: the manifests are read and the new version computed.
pub open spec fn compute_step(r: ReleaseView, contents: Seq<Option<Seq<char>>>) -> Result<
    (ReleaseView, ActionView),
    ReleaseError,
> {
    match entries_of(r.manifests, contents) {
        Err(e) => Err(e),
        Ok(entries) => match requested_version(r.request.change_type, entries) {
            Err(e) => Err(e),
            Ok(version) => Ok(
                (
                    ReleaseView {
                        stage: Stage::VersionComputed,
                        entries,
                        new_version: version,
                        ..r
                    },
                    ActionView::Inspect {
                        tag_pattern: tag_pattern_of(r.request.git_prefix_for_tag),
                    },
                ),
            ),
        },
    }
}

/// The action that writes the entry at `k`; where there is no such entry
/// nothing is to be written.
pub open spec fn write_action(entries: Seq<ManifestEntryView>, k: int) -> ActionView {
    if 0 <= k < entries.len() {
        ActionView::Write { file: entries[k] }
    } else {
        ActionView::Continue
    }
}

/// From `VersionComputed`: the checks, and only after both have passed
/// the new documents and the first manifest to write.
pub open spec fn preflight_step(r: ReleaseView, pending_changes: nat, tags: Seq<Seq<char>>) -> Result<
    (ReleaseView, ActionView),
    ReleaseError,
> {
    let tag = release_tag_name(r.request.git_prefix_for_tag, r.new_version);
    match preflight_of(pending_changes, tags, tag) {
        Err(e) => Err(e),
        Ok(_) => match rewritten_entries(r.entries, r.new_version) {
            Err(e) => Err(e),
            Ok(files) => Ok(
                (
                    ReleaseView { stage: Stage::PreflightChecked, entries: files, written: 0, ..r },
                    write_action(files, 0),
                ),
            ),
        },
    }
}

/// From `PreflightChecked`, after a manifest was written: the next
/// manifest is to be written, in the order of the entries, and after the
/// last one the commit is prepared. A manifest that is written stays
/// written whatever happens later.
pub open spec fn write_step(r: ReleaseView) -> Result<(ReleaseView, ActionView), ReleaseError> {
    if r.written + 1 < r.entries.len() {
        Ok(
            (
                ReleaseView { written: r.written + 1, ..r },
                write_action(r.entries, (r.written + 1) as int),
            ),
        )
    } else {
        commit_step(r)
    }
}

/// After the last manifest was written: they are to be committed.
pub open spec fn commit_step(r: ReleaseView) -> Result<(ReleaseView, ActionView), ReleaseError> {
    match commit_message_of(r.request.change_type, r.new_version) {
        Err(e) => Err(e),
        Ok(message) => match staged_of(relatives_of(entry_paths(r.entries), r.root)) {
            Err(e) => Err(e),
            Ok(paths) => Ok(
                (
                    ReleaseView { stage: Stage::Written, written: r.entries.len(), ..r },
                    ActionView::Commit { paths, message },
                ),
            ),
        },
    }
}

/// From `Written`: the commit is to be tagged.
pub open spec fn tag_step(r: ReleaseView) -> (ReleaseView, ActionView) {
    (
        ReleaseView { stage: Stage::Committed, ..r },
        ActionView::Tag {
            name: release_tag_name(r.request.git_prefix_for_tag, r.new_version),
            message: r.request.tag_message,
        },
    )
}

/// From `Committed`: the branch and the tag are to be pushed.
pub open spec fn push_step(r: ReleaseView, head_ref: Seq<char>) -> (ReleaseView, ActionView) {
    (
        ReleaseView { stage: Stage::Tagged, ..r },
        ActionView::Push {
            remote: r.request.remote,
            refs: seq![
                head_ref,
                tag_ref_of(release_tag_name(r.request.git_prefix_for_tag, r.new_version)),
            ],
        },
    )
}

/// The next state and action of the release `r` after `outcome`.
pub open spec fn advance_spec(r: ReleaseView, outcome: OutcomeView) -> Result<
    (ReleaseView, ActionView),
    ReleaseError,
> {
    match (r.stage, outcome) {
        (Stage::Located, OutcomeView::Completed) => select_step(r),
        (Stage::Selected, OutcomeView::Manifests { contents }) => compute_step(r, contents),
        (Stage::Selected, OutcomeView::Failed) => Err(ReleaseError::GitOperation),
        (Stage::VersionComputed, OutcomeView::Repository { pending_changes, tags }) => preflight_step(
            r,
            pending_changes,
            tags,
        ),
        (Stage::VersionComputed, OutcomeView::Failed) => Err(ReleaseError::GitOperation),
        (Stage::PreflightChecked, OutcomeView::Completed) => write_step(r),
        (Stage::PreflightChecked, OutcomeView::Failed) => Err(ReleaseError::ManifestWrite),
        (Stage::Written, OutcomeView::Completed) => Ok(tag_step(r)),
        (Stage::Written, OutcomeView::Failed) => Err(ReleaseError::GitOperation),
        (Stage::Committed, OutcomeView::Tagged { head_ref }) => Ok(push_step(r, head_ref)),
        (Stage::Committed, OutcomeView::Failed) => Err(ReleaseError::GitOperation),
        (Stage::Tagged, OutcomeView::Completed) => Ok(
            (ReleaseView { stage: Stage::Pushed, ..r }, ActionView::Continue),
        ),
        (Stage::Tagged, OutcomeView::Failed) => Err(ReleaseError::GitOperation),
        (Stage::Pushed, OutcomeView::Completed) => Ok(
            (ReleaseView { stage: Stage::Done, ..r }, ActionView::Finish),
        ),
        _ => Err(ReleaseError::UnexpectedOutcome),
    }
}

/// The stage that follows `stage`; `Done` is followed by none.
pub open spec fn stage_after(stage: Stage) -> Option<Stage> {
    match stage {
        Stage::Located => Some(Stage::Selected),
        Stage::Selected => Some(Stage::VersionComputed),
        Stage::VersionComputed => Some(Stage::PreflightChecked),
        Stage::PreflightChecked => Some(Stage::Written),
        Stage::Written => Some(Stage::Committed),
        Stage::Committed => Some(Stage::Tagged),
        Stage::Tagged => Some(Stage::Pushed),
        Stage::Pushed => Some(Stage::Done),
        Stage::Done => None,
    }
}

/// A step that succeeds moves the release to the stage that follows its
/// own, or, while the manifests are written, to the next manifest. It
/// changes neither the request nor the repository root.
pub proof fn lemma_stages_in_order(r: ReleaseView, outcome: OutcomeView)
    requires
        advance_spec(r, outcome) is Ok,
    ensures
        ({
            let next = advance_spec(r, outcome)->Ok_0.0;
            ||| stage_after(r.stage) == Some(next.stage)
            ||| r.stage == Stage::PreflightChecked && next.stage == Stage::PreflightChecked
                && next.written == r.written + 1 && next.written < r.entries.len()
        }),
        advance_spec(r, outcome)->Ok_0.0.request == r.request,
        advance_spec(r, outcome)->Ok_0.0.root == r.root,
{
}

/// A manifest is handed out for writing only after the report on the
/// repository has shown no pending change and no tag with the name of the
/// release tag: either by the step that takes this report, or by a step
/// from `PreflightChecked`, the stage that only such a report leads into.
pub proof fn lemma_write_only_after_checks(r: ReleaseView, outcome: OutcomeView)
    requires
        advance_spec(r, outcome) matches Ok(step) && (step.1 is Write || step.0.stage
            == Stage::PreflightChecked),
    ensures
        r.stage == Stage::PreflightChecked || (r.stage == Stage::VersionComputed && (
        outcome matches OutcomeView::Repository { pending_changes, tags } && pending_changes == 0
            && !tags.contains(release_tag_name(r.request.git_prefix_for_tag, r.new_version)))),
{
}

/// The manifests are written one by one in the order of the entries: the
/// file handed out for writing is the entry that follows those written.
pub proof fn lemma_writes_in_order(r: ReleaseView, outcome: OutcomeView)
    requires
        advance_spec(r, outcome) matches Ok(step) && step.1 is Write,
    ensures
        ({
            let step = advance_spec(r, outcome)->Ok_0;
            &&& step.0.written < step.0.entries.len()
            &&& step.1 == (ActionView::Write { file: step.0.entries[step.0.written as int] })
        }),
{
}

/// The entries of a release stay keyed by their paths: where no two
/// entries have one path before a step, none have after it.
pub proof fn lemma_entries_stay_keyed(r: ReleaseView, outcome: OutcomeView)
    requires
        advance_spec(r, outcome) is Ok,
        unique_paths(r.entries),
    ensures
        unique_paths(advance_spec(r, outcome)->Ok_0.0.entries),
{
    let next = advance_spec(r, outcome)->Ok_0.0;
    if r.stage == Stage::Selected {
        let contents = outcome->Manifests_contents;
        lemma_entries_keyed_by_path(r.manifests, contents, r.manifests.len() as int);
    } else if r.stage == Stage::VersionComputed {
        let results = rewrite_results(r.entries, r.new_version);
        assert(all_ok(results));
        assert forall|a: int, b: int| 0 <= a < b < next.entries.len() implies (
        #[trigger] next.entries[a]).path != (#[trigger] next.entries[b]).path by {
            assert(results[a] is Ok && results[b] is Ok);
            assert(next.entries[a].path == r.entries[a].path);
            assert(next.entries[b].path == r.entries[b].path);
        }
    }
}

/// A working tree with pending changes ends the run with
/// `DirtyWorkingTree`, whatever tags exist.
pub proof fn lemma_dirty_tree_stops(r: ReleaseView, pending_changes: nat, tags: Seq<Seq<char>>)
    requires
        r.stage == Stage::VersionComputed,
        pending_changes > 0,
    ensures
        advance_spec(r, OutcomeView::Repository { pending_changes, tags }) == Err::<
            (ReleaseView, ActionView),
            ReleaseError,
        >(ReleaseError::DirtyWorkingTree),
{
}

/// In a clean working tree, an existing tag with the name of the release
/// tag ends the run with `DuplicateTag`.
pub proof fn lemma_duplicate_tag_stops(r: ReleaseView, tags: Seq<Seq<char>>)
    requires
        r.stage == Stage::VersionComputed,
        tags.contains(release_tag_name(r.request.git_prefix_for_tag, r.new_version)),
    ensures
        advance_spec(r, OutcomeView::Repository { pending_changes: 0, tags }) == Err::<
            (ReleaseView, ActionView),
            ReleaseError,
        >(ReleaseError::DuplicateTag),
{
}

/// An increment over manifests that were all read, but do not all hold
/// the same version, ends the run with `Consistency`.
pub proof fn lemma_unequal_versions_stop(
    r: ReleaseView,
    contents: Seq<Option<Seq<char>>>,
    vtype: crate::version::IncrementVersionPart,
)
    requires
        r.stage == Stage::Selected,
        r.request.change_type == (VersionChangeView::Increment { vtype }),
        entries_of(r.manifests, contents) matches Ok(entries) && !same_versions(entries),
    ensures
        advance_spec(r, OutcomeView::Manifests { contents }) == Err::<
            (ReleaseView, ActionView),
            ReleaseError,
        >(ReleaseError::Consistency),
{
    let entries = entries_of(r.manifests, contents)->Ok_0;
    assert(entries.len() > 0) by {
        if entries.len() == 0 {
            assert(same_versions(entries));
        }
    }
}

/// A step as contracts see it.
pub open spec fn step_view(step: Result<(Release, Action), ReleaseError>) -> Result<
    (ReleaseView, ActionView),
    ReleaseError,
> {
    match step {
        Ok((release, action)) => Ok((release@, action@)),
        Err(e) => Err(e),
    }
}

/// A copy of `texts`.
fn copy_texts(texts: &Vec<String>) -> (r: Vec<String>)
    ensures
        r.deep_view() == texts.deep_view(),
{
    let mut r: Vec<String> = Vec::new();
    let mut i: usize = 0;
    while i < texts.len()
        invariant
            i <= texts.len(),
            r.len() == i,
            forall|j: int| 0 <= j < i ==> (#[trigger] r[j])@ == texts[j]@,
        decreases texts.len() - i,
    {
        r.push(texts[i].clone());
        i += 1;
    }
    assert(r.deep_view() =~= texts.deep_view());
    r
}

/// The action that writes the entry at `k`, or that has nothing to write
/// where there is no such entry.
fn write_of(entries: &Vec<ManifestEntry>, k: usize) -> (r: Action)
    ensures
        r@ == write_action(entries.deep_view(), k as int),
{
    if k < entries.len() {
        let entry = &entries[k];
        assert(entries.deep_view()[k as int] == entry@);
        Action::Write {
            file: ManifestEntry {
                path: entry.path.clone(),
                version: entry.version,
                document: entry.document.clone(),
            },
        }
    } else {
        Action::Continue
    }
}

/// The paths of `entries`, in their order.
fn paths_of(entries: &Vec<ManifestEntry>) -> (r: Vec<String>)
    ensures
        r.deep_view() == entry_paths(entries.deep_view()),
{
    let mut r: Vec<String> = Vec::new();
    let mut i: usize = 0;
    while i < entries.len()
        invariant
            i <= entries.len(),
            r.len() == i,
            forall|j: int| 0 <= j < i ==> (#[trigger] r[j])@ == entries[j]@.path,
        decreases entries.len() - i,
    {
        r.push(entries[i].path.clone());
        i += 1;
    }
    assert(r.deep_view() =~= entry_paths(entries.deep_view()));
    r
}

impl ReleaseRequest {
    /// Makes a request. Where no remote is named it is `origin`, and
    /// where no tag prefix is given it is `v`.
    pub fn new(
        cargo_file_selector: Option<CargoFile>,
        change_type: VersionChangeType,
        tag_message: String,
        remote: Option<String>,
        git_prefix_for_tag: Option<String>,
    ) -> (r: Self)
        ensures
            r@ == request_of(
                cargo_file_selector,
                change_type@,
                tag_message@,
                remote.deep_view(),
                git_prefix_for_tag.deep_view(),
            ),
    {
        let remote = match remote {
            Some(name) => name,
            None => String::from_str(DEFAULT_REMOTE),
        };
        let git_prefix_for_tag = match git_prefix_for_tag {
            Some(prefix) => prefix,
            None => String::from_str(DEFAULT_TAG_PREFIX),
        };
        ReleaseRequest { cargo_file_selector, change_type, tag_message, remote, git_prefix_for_tag }
    }
}

/// Computes the version to release.
///
/// A fixed version is read from its text and fails with `VersionParse`
/// where the text holds none. An increment needs all manifests to hold
/// one version and fails with `Consistency` where they differ, with
/// `VersionOverflow` where the part cannot grow, and with `Discovery`
/// where there is no manifest at all. Only showing versions fails with
/// `Unimplemented`.
pub fn compute_version(
    change: &VersionChangeType,
    entries: &Vec<ManifestEntry>,
) -> (r: Result<Version, ReleaseError>)
    ensures
        r == requested_version(change@, entries.deep_view()),
{
    match change {
        VersionChangeType::Fixed { full_version } => Version::parse(full_version.as_str()),
        VersionChangeType::Increment { vtype } => {
            if entries.len() == 0 {
                return Err(ReleaseError::Discovery);
            }
            let current = entries[0].version;
            assert(entries.deep_view()[0] == entries[0]@);
            let mut i: usize = 1;
            while i < entries.len()
                invariant
                    1 <= i <= entries.len(),
                    change@ == (VersionChangeView::Increment { vtype: *vtype }),
                    current == entries.deep_view()[0].version,
                    forall|j: int|
                        0 <= j < i ==> (#[trigger] entries.deep_view()[j]).version == current,
                decreases entries.len() - i,
            {
                assert(entries.deep_view()[i as int] == entries[i as int]@);
                if !(entries[i].version == current) {
                    assert(!same_versions(entries.deep_view()));
                    return Err(ReleaseError::Consistency);
                }
                i += 1;
            }
            if !current.is_incrementable(vtype) {
                return Err(ReleaseError::VersionOverflow);
            }
            Ok(current.increment_clone(vtype))
        },
        VersionChangeType::OnlyShow => Err(ReleaseError::Unimplemented),
    }
}

/// Writes `version` into the document of every entry and stops at the
/// first entry whose document cannot take it. The entries handed in stay
/// as they are.
pub fn rewrite_entries(
    entries: &Vec<ManifestEntry>,
    version: &Version,
) -> (r: Result<Vec<ManifestEntry>, ReleaseError>)
    ensures
        match r {
            Ok(files) => rewritten_entries(entries.deep_view(), *version) == Ok::<
                Seq<ManifestEntryView>,
                ReleaseError,
            >(files.deep_view()),
            Err(e) => rewritten_entries(entries.deep_view(), *version) == Err::<
                Seq<ManifestEntryView>,
                ReleaseError,
            >(e),
        },
{
    let ghost results = rewrite_results(entries.deep_view(), *version);
    let mut files: Vec<ManifestEntry> = Vec::new();
    let mut i: usize = 0;
    while i < entries.len()
        invariant
            i <= entries.len(),
            results == rewrite_results(entries.deep_view(), *version),
            files.len() == i,
            forall|j: int|
                0 <= j < i ==> (#[trigger] results[j]) == Ok::<ManifestEntryView, ReleaseError>(
                    files[j]@,
                ),
        decreases entries.len() - i,
    {
        let entry = &entries[i];
        assert(entries.deep_view()[i as int] == entry@);
        match rewrite_manifest(entry.document.as_str(), version) {
            Err(e) => {
                proof {
                    lemma_collected_first_error(results, i as int);
                }
                return Err(e);
            },
            Ok(document) => {
                files.push(ManifestEntry { path: entry.path.clone(), version: *version, document });
            },
        }
        i += 1;
    }
    assert(all_ok(results));
    assert(files.deep_view() =~= collected(results)->Ok_0);
    Ok(files)
}

/// Starts a release from what discovery saw: `levels` are the start
/// directory and its ancestors, nearest first, and `below` is the listing
/// of the start directory. The probes must be valid, as
/// `probes_are_valid` tests.
///
/// Fails with `Discovery` where no manifest is found or no level holds
/// the repository marker. Else the release is `Located`, and each of its
/// manifests is a file named as a manifest.
pub fn begin(
    request: ReleaseRequest,
    levels: &Vec<LevelProbe>,
    below: &Vec<DirEntry>,
    scan_subdirs: bool,
) -> (r: Result<(Release, Action), ReleaseError>)
    requires
        probes_valid(levels@, *below),
    ensures
        step_view(r) == begin_spec(request@, levels@, *below, scan_subdirs),
        r matches Ok(step) ==> forall|i: int|
            0 <= i < step.0.manifests.len() ==> is_manifest_path(
                #[trigger] step.0.manifests.deep_view()[i],
            ),
{
    match find_cargo_tomls_and_git_base(levels, below, scan_subdirs) {
        Err(e) => Err(e),
        Ok((found, root)) => {
            let entries: Vec<ManifestEntry> = Vec::new();
            assert(entries.deep_view() =~= Seq::<ManifestEntryView>::empty());
            Ok(
                (
                    Release {
                        request,
                        stage: Stage::Located,
                        root,
                        manifests: found,
                        entries,
                        new_version: Version { major: 0, minor: 0, patch: 0 },
                        written: 0,
                    },
                    Action::Continue,
                ),
            )
        },
    }
}

/// Chooses the manifests.
fn select(release: Release) -> (r: Result<(Release, Action), ReleaseError>)
    ensures
        step_view(r) == select_step(release@),
{
    let Release { request, stage: _, root, manifests, entries, new_version, written } = release;
    match filter_cargo_tomls_by_selector(manifests, &request.cargo_file_selector) {
        Err(e) => Err(e),
        Ok(chosen) => {
            let action = Action::Open {
                root: root.clone(),
                remote: request.remote.clone(),
                manifests: copy_texts(&chosen),
            };
            Ok(
                (
                    Release {
                        request,
                        stage: Stage::Selected,
                        root,
                        manifests: chosen,
                        entries,
                        new_version,
                        written,
                    },
                    action,
                ),
            )
        },
    }
}

/// Reads the manifests and computes the new version.
fn compute(
    release: Release,
    contents: &Vec<Option<String>>,
) -> (r: Result<(Release, Action), ReleaseError>)
    ensures
        step_view(r) == compute_step(release@, contents.deep_view()),
{
    let Release { request, stage: _, root, manifests, entries: _, new_version: _, written } = release;
    match read_version_tomls(&manifests, contents) {
        Err(e) => Err(e),
        Ok(entries) => match compute_version(&request.change_type, &entries) {
            Err(e) => Err(e),
            Ok(version) => {
                let action = Action::Inspect {
                    tag_pattern: tag_pattern(request.git_prefix_for_tag.as_str()),
                };
                Ok(
                    (
                        Release {
                            request,
                            stage: Stage::VersionComputed,
                            root,
                            manifests,
                            entries,
                            new_version: version,
                            written,
                        },
                        action,
                    ),
                )
            },
        },
    }
}

/// Checks the repository and, where it is fit, makes the new documents.
fn check(
    release: Release,
    pending_changes: usize,
    tags: &Vec<String>,
) -> (r: Result<(Release, Action), ReleaseError>)
    ensures
        step_view(r) == preflight_step(release@, pending_changes as nat, tags.deep_view()),
{
    let Release { request, stage: _, root, manifests, entries, new_version, written } = release;
    let tag = release_tag(request.git_prefix_for_tag.as_str(), &new_version);
    match preflight(pending_changes, tags, &tag) {
        Err(e) => Err(e),
        Ok(_) => match rewrite_entries(&entries, &new_version) {
            Err(e) => Err(e),
            Ok(files) => {
                let action = write_of(&files, 0);
                Ok(
                    (
                        Release {
                            request,
                            stage: Stage::PreflightChecked,
                            root,
                            manifests,
                            entries: files,
                            new_version,
                            written: 0,
                        },
                        action,
                    ),
                )
            },
        },
    }
}

/// Asks for the next manifest to be written, or after the last one
/// prepares the commit.
fn write_next(release: Release) -> (r: Result<(Release, Action), ReleaseError>)
    ensures
        step_view(r) == write_step(release@),
{
    if release.written < release.entries.len() && release.written + 1 < release.entries.len() {
        let Release { request, stage, root, manifests, entries, new_version, written } = release;
        let action = write_of(&entries, written + 1);
        Ok(
            (
                Release {
                    request,
                    stage,
                    root,
                    manifests,
                    entries,
                    new_version,
                    written: written + 1,
                },
                action,
            ),
        )
    } else {
        commit(release)
    }
}

/// Prepares the commit of the written manifests.
fn commit(release: Release) -> (r: Result<(Release, Action), ReleaseError>)
    ensures
        step_view(r) == commit_step(release@),
{
    let Release { request, stage: _, root, manifests, entries, new_version, written } = release;
    match commit_message(&request.change_type, &new_version) {
        Err(e) => Err(e),
        Ok(message) => {
            let relatives = relative_manifests(&paths_of(&entries), root.as_str());
            match staged_paths(relatives) {
                Err(e) => Err(e),
                Ok(paths) => {
                    let written = entries.len();
                    Ok(
                        (
                            Release {
                                request,
                                stage: Stage::Written,
                                root,
                                manifests,
                                entries,
                                new_version,
                                written,
                            },
                            Action::Commit { paths, message },
                        ),
                    )
                },
            }
        },
    }
}

/// Prepares the tag of the new commit.
fn tag(release: Release) -> (r: (Release, Action))
    ensures
        (r.0@, r.1@) == tag_step(release@),
{
    let Release { request, stage: _, root, manifests, entries, new_version, written } = release;
    let action = Action::Tag {
        name: release_tag(request.git_prefix_for_tag.as_str(), &new_version),
        message: request.tag_message.clone(),
    };
    (
        Release { request, stage: Stage::Committed, root, manifests, entries, new_version, written },
        action,
    )
}

/// Prepares the push of the branch and the tag.
fn push(release: Release, head_ref: String) -> (r: (Release, Action))
    ensures
        (r.0@, r.1@) == push_step(release@, head_ref@),
{
    let Release { request, stage: _, root, manifests, entries, new_version, written } = release;
    let name = release_tag(request.git_prefix_for_tag.as_str(), &new_version);
    let ghost head = head_ref@;
    let mut refs: Vec<String> = Vec::new();
    refs.push(head_ref);
    refs.push(tag_ref(name.as_str()));
    assert(refs.deep_view() =~= seq![head, tag_ref_of(name@)]);
    let action = Action::Push { remote: request.remote.clone(), refs };
    (
        Release { request, stage: Stage::Tagged, root, manifests, entries, new_version, written },
        action,
    )
}

/// Moves `release` to another stage without any other change.
fn at_stage(release: Release, stage: Stage) -> (r: Release)
    ensures
        r@ == (ReleaseView { stage, ..release@ }),
{
    let Release { request, stage: _, root, manifests, entries, new_version, written } = release;
    Release { request, stage, root, manifests, entries, new_version, written }
}

/// Takes the outcome of the last action and decides what comes next: the
/// release at its next stage together with the next action, or the error
/// that ends the run.
///
/// The stages are passed in their order. Selection fails with
/// `Selection`; reading with `ManifestRead`, `ManifestParse` or
/// `VersionParse`; the new version with `VersionParse`, `Consistency`,
/// `VersionOverflow` or `Unimplemented`; the checks with
/// `DirtyWorkingTree` or `DuplicateTag`. No manifest is handed out for
/// writing before both checks have passed; then they are handed out one
/// by one. A failed write ends the run with `ManifestWrite` and leaves
/// the manifests written before it as they are. Any other failed action
/// ends the run with `GitOperation`, and an outcome that the stage does
/// not wait for with `UnexpectedOutcome`. The entries stay keyed by their
/// paths: no step gives two entries one path.
pub fn advance(release: Release, outcome: Outcome) -> (r: Result<(Release, Action), ReleaseError>)
    ensures
        step_view(r) == advance_spec(release@, outcome@),
        r matches Ok(step) ==> (unique_paths(release@.entries) ==> unique_paths(step.0@.entries)),
{
    proof {
        if advance_spec(release@, outcome@) is Ok && unique_paths(release@.entries) {
            lemma_entries_stay_keyed(release@, outcome@);
        }
    }
    match (release.stage, outcome) {
        (Stage::Located, Outcome::Completed) => select(release),
        (Stage::Selected, Outcome::Manifests { contents }) => compute(release, &contents),
        (Stage::Selected, Outcome::Failed) => Err(ReleaseError::GitOperation),
        (Stage::VersionComputed, Outcome::Repository { pending_changes, tags }) => check(
            release,
            pending_changes,
            &tags,
        ),
        (Stage::VersionComputed, Outcome::Failed) => Err(ReleaseError::GitOperation),
        (Stage::PreflightChecked, Outcome::Completed) => write_next(release),
        (Stage::PreflightChecked, Outcome::Failed) => Err(ReleaseError::ManifestWrite),
        (Stage::Written, Outcome::Completed) => Ok(tag(release)),
        (Stage::Written, Outcome::Failed) => Err(ReleaseError::GitOperation),
        (Stage::Committed, Outcome::Tagged { head_ref }) => Ok(push(release, head_ref)),
        (Stage::Committed, Outcome::Failed) => Err(ReleaseError::GitOperation),
        (Stage::Tagged, Outcome::Completed) => Ok((at_stage(release, Stage::Pushed), Action::Continue)),
        (Stage::Tagged, Outcome::Failed) => Err(ReleaseError::GitOperation),
        (Stage::Pushed, Outcome::Completed) => Ok((at_stage(release, Stage::Done), Action::Finish)),
        _ => Err(ReleaseError::UnexpectedOutcome),
    }
}

} // verus!
