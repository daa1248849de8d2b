//! The ways a release can fail.

use vstd::prelude::*;

verus! {

/// Why a release stopped. Every error ends the run: nothing is retried and
/// nothing that was already done is undone.
#[derive(Clone, Copy, Debug, PartialEq, Eq, Structural)]
pub enum ReleaseError {
    /// The start path is missing or is no directory.
    Path,
    /// No manifest was found, or no repository root.
    Discovery,
    /// Several manifests were found and no selection policy was given.
    Selection,
    /// A manifest could not be read.
    ManifestRead,
    /// A manifest is not a well-formed document.
    ManifestParse,
    /// A text holds no `major.minor.patch` pattern, or a number of the
    /// pattern is too large for its part.
    VersionParse,
    /// The manifests of an increment do not share one current version.
    Consistency,
    /// The part to increment already has the largest value it can hold.
    VersionOverflow,
    /// Only showing the versions is not implemented.
    Unimplemented,
    /// The working tree has pending changes.
    DirtyWorkingTree,
    /// The release tag exists already.
    DuplicateTag,
    /// A manifest could not be written.
    ManifestWrite,
    /// The repository refused an operation.
    GitOperation,
    /// An outcome was reported that the current stage does not wait for.
    UnexpectedOutcome,
}

/// Every one of `results` is a success.
pub open spec fn all_ok<T>(results: Seq<Result<T, ReleaseError>>) -> bool {
    forall|i: int| 0 <= i < results.len() ==> (#[trigger] results[i]) is Ok
}

/// `k` is the first of `results` that is an error.
pub open spec fn is_first_error<T>(results: Seq<Result<T, ReleaseError>>, k: int) -> bool {
    &&& 0 <= k < results.len()
    &&& results[k] is Err
    &&& forall|j: int| 0 <= j < k ==> (#[trigger] results[j]) is Ok
}

/// What a run of steps comes to when it stops at the first error: all
/// the successes in their order, or the first error.
pub open spec fn collected<T>(results: Seq<Result<T, ReleaseError>>) -> Result<
    Seq<T>,
    ReleaseError,
> {
    if all_ok(results) {
        Ok(Seq::new(results.len(), |i: int| results[i]->Ok_0))
    } else {
        Err(results[choose|k: int| is_first_error(results, k)]->Err_0)
    }
}

/// Where `k` is the first error of `results`, the run comes to that error.
pub proof fn lemma_collected_first_error<T>(results: Seq<Result<T, ReleaseError>>, k: int)
    requires
        is_first_error(results, k),
    ensures
        collected(results) == Err::<Seq<T>, ReleaseError>(results[k]->Err_0),
{
    let chosen = choose|j: int| is_first_error(results, j);
    assert(is_first_error(results, chosen));
    if chosen < k {
        assert(results[chosen] is Ok);
    } else if k < chosen {
        assert(results[k] is Ok);
    }
}

} // verus!
