//! Choosing among several manifests.

use crate::error::ReleaseError;
use vstd::prelude::*;
use vstd::utf8::encode_utf8;

verus! {

/// Which manifests to write when several were found.
#[derive(Clone, Copy, Debug, PartialEq, Eq, Structural)]
pub enum CargoFile {
    /// The manifest with the longest path.
    Leaf,
    /// The manifest with the shortest path.
    Base,
    /// Every manifest.
    All,
}

/// The length of a path: the number of bytes of its text.
pub open spec fn path_len(path: Seq<char>) -> nat {
    encode_utf8(path).len()
}

/// `k` is the first among the longest of `paths`.
pub open spec fn is_first_longest(paths: Seq<Seq<char>>, k: int) -> bool {
    &&& 0 <= k < paths.len()
    &&& forall|j: int| 0 <= j < paths.len() ==> path_len(#[trigger] paths[j]) <= path_len(paths[k])
    &&& forall|j: int| 0 <= j < k ==> path_len(#[trigger] paths[j]) < path_len(paths[k])
}

/// `k` is the first among the shortest of `paths`.
pub open spec fn is_first_shortest(paths: Seq<Seq<char>>, k: int) -> bool {
    &&& 0 <= k < paths.len()
    &&& forall|j: int| 0 <= j < paths.len() ==> path_len(#[trigger] paths[j]) >= path_len(paths[k])
    &&& forall|j: int| 0 <= j < k ==> path_len(#[trigger] paths[j]) > path_len(paths[k])
}

/// The leaf of `paths`: the first among the longest. Of no paths at all
/// it is the empty path.
pub open spec fn leaf_of(paths: Seq<Seq<char>>) -> Seq<char> {
    if paths.len() == 0 {
        Seq::empty()
    } else {
        paths[choose|k: int| is_first_longest(paths, k)]
    }
}

/// The base of `paths`: the first among the shortest. Of no paths at all
/// it is the empty path.
pub open spec fn base_of(paths: Seq<Seq<char>>) -> Seq<char> {
    if paths.len() == 0 {
        Seq::empty()
    } else {
        paths[choose|k: int| is_first_shortest(paths, k)]
    }
}

/// What selection makes of the found manifests.
pub open spec fn selected_manifests(
    paths: Seq<Seq<char>>,
    selector: Option<CargoFile>,
) -> Result<Seq<Seq<char>>, ReleaseError> {
    match selector {
        None => if paths.len() > 1 {
            Err(ReleaseError::Selection)
        } else {
            Ok(paths)
        },
        Some(CargoFile::All) => Ok(paths),
        Some(CargoFile::Leaf) => Ok(seq![leaf_of(paths)]),
        Some(CargoFile::Base) => Ok(seq![base_of(paths)]),
    }
}

/// Two indices that are both first among the longest are the same index.
pub proof fn lemma_first_longest_unique(paths: Seq<Seq<char>>, a: int, b: int)
    requires
        is_first_longest(paths, a),
        is_first_longest(paths, b),
    ensures
        a == b,
{
    if a < b {
        assert(path_len(paths[a]) < path_len(paths[b]));
        assert(path_len(paths[a]) <= path_len(paths[a]));
    } else if b < a {
        assert(path_len(paths[b]) < path_len(paths[a]));
    }
}

/// Two indices that are both first among the shortest are the same index.
pub proof fn lemma_first_shortest_unique(paths: Seq<Seq<char>>, a: int, b: int)
    requires
        is_first_shortest(paths, a),
        is_first_shortest(paths, b),
    ensures
        a == b,
{
    if a < b {
        assert(path_len(paths[a]) > path_len(paths[b]));
    } else if b < a {
        assert(path_len(paths[b]) > path_len(paths[a]));
    }
}

/// The length of a path in bytes.
fn byte_len(path: &String) -> (n: usize)
    ensures
        n == path_len(path@),
{
    path.as_str().as_bytes().len()
}

/// The index of the first among the longest of the paths. There must be one.
fn first_longest(paths: &Vec<String>) -> (k: usize)
    requires
        paths.len() > 0,
    ensures
        is_first_longest(paths.deep_view(), k as int),
        paths[k as int]@ == leaf_of(paths.deep_view()),
{
    let mut best: usize = 0;
    let mut i: usize = 1;
    while i < paths.len()
        invariant
            0 <= best < i <= paths.len(),
            is_first_longest(paths.deep_view().take(i as int), best as int),
        decreases paths.len() - i,
    {
        let ghost seen = paths.deep_view().take(i as int);
        let ghost next = paths.deep_view().take(i + 1);
        let candidate = byte_len(&paths[i]);
        let current = byte_len(&paths[best]);
        assert forall|j: int| 0 <= j < i implies #[trigger] next[j] == seen[j] by {}
        if current < candidate {
            best = i;
        }
        assert(is_first_longest(next, best as int)) by {
            assert forall|j: int| 0 <= j < next.len() implies path_len(#[trigger] next[j])
                <= path_len(next[best as int]) by {
                if j < i {
                    assert(next[j] == seen[j]);
                }
            }
            assert forall|j: int| 0 <= j < best implies path_len(#[trigger] next[j]) < path_len(
                next[best as int],
            ) by {
                assert(next[j] == seen[j]);
            }
        }
        i += 1;
    }
    proof {
        let all = paths.deep_view();
        assert(all.take(i as int) =~= all);
        let chosen = choose|k: int| is_first_longest(all, k);
        lemma_first_longest_unique(all, best as int, chosen);
    }
    best
}

/// The index of the first among the shortest of the paths. There must be one.
fn first_shortest(paths: &Vec<String>) -> (k: usize)
    requires
        paths.len() > 0,
    ensures
        is_first_shortest(paths.deep_view(), k as int),
        paths[k as int]@ == base_of(paths.deep_view()),
{
    let mut best: usize = 0;
    let mut i: usize = 1;
    while i < paths.len()
        invariant
            0 <= best < i <= paths.len(),
            is_first_shortest(paths.deep_view().take(i as int), best as int),
        decreases paths.len() - i,
    {
        let ghost seen = paths.deep_view().take(i as int);
        let ghost next = paths.deep_view().take(i + 1);
        let candidate = byte_len(&paths[i]);
        let current = byte_len(&paths[best]);
        assert forall|j: int| 0 <= j < i implies #[trigger] next[j] == seen[j] by {}
        if current > candidate {
            best = i;
        }
        assert(is_first_shortest(next, best as int)) by {
            assert forall|j: int| 0 <= j < next.len() implies path_len(#[trigger] next[j])
                >= path_len(next[best as int]) by {
                if j < i {
                    assert(next[j] == seen[j]);
                }
            }
            assert forall|j: int| 0 <= j < best implies path_len(#[trigger] next[j]) > path_len(
                next[best as int],
            ) by {
                assert(next[j] == seen[j]);
            }
        }
        i += 1;
    }
    proof {
        let all = paths.deep_view();
        assert(all.take(i as int) =~= all);
        let chosen = choose|k: int| is_first_shortest(all, k);
        lemma_first_shortest_unique(all, best as int, chosen);
    }
    best
}

/// The one path of a leaf or base selection: the path at `k`, or the empty
/// path where there are no paths.
fn single(paths: &Vec<String>, k: usize) -> (r: Vec<String>)
    requires
        paths.len() == 0 || k < paths.len(),
    ensures
        r.deep_view() == seq![
            if paths.len() == 0 {
                Seq::<char>::empty()
            } else {
                paths[k as int]@
            },
        ],
{
    let mut r: Vec<String> = Vec::new();
    if paths.len() == 0 {
        r.push(String::new());
    } else {
        r.push(paths[k].clone());
    }
    assert(r.deep_view() =~= seq![r[0]@]);
    r
}

/// Reduces the found manifests to those the release works on.
///
/// Without a policy a single manifest (or none) passes through and several
/// are refused as ambiguous. `All` passes every manifest through in the
/// order given. `Leaf` keeps the one with the longest path and `Base` the
/// one with the shortest, the first of them where several are equally long.
pub fn filter_cargo_tomls_by_selector(
    cargo_tomls: Vec<String>,
    cargo_file_selector: &Option<CargoFile>,
) -> (r: Result<Vec<String>, ReleaseError>)
    ensures
        match r {
            Ok(kept) => selected_manifests(cargo_tomls.deep_view(), *cargo_file_selector) == Ok::<
                Seq<Seq<char>>,
                ReleaseError,
            >(kept.deep_view()),
            Err(e) => selected_manifests(cargo_tomls.deep_view(), *cargo_file_selector) == Err::<
                Seq<Seq<char>>,
                ReleaseError,
            >(e),
        },
{
    match cargo_file_selector {
        None => {
            if cargo_tomls.len() > 1 {
                Err(ReleaseError::Selection)
            } else {
                Ok(cargo_tomls)
            }
        },
        Some(CargoFile::All) => Ok(cargo_tomls),
        Some(CargoFile::Leaf) => {
            let k = if cargo_tomls.len() > 0 {
                first_longest(&cargo_tomls)
            } else {
                0
            };
            Ok(single(&cargo_tomls, k))
        },
        Some(CargoFile::Base) => {
            let k = if cargo_tomls.len() > 0 {
                first_shortest(&cargo_tomls)
            } else {
                0
            };
            Ok(single(&cargo_tomls, k))
        },
    }
}

} // verus!
