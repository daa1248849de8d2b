//! The version pattern: three runs of digits with a dot between them,
//! anywhere in a text.

use crate::decimal::{all_digits, is_digit};
use regex::Regex;
use vstd::prelude::*;

verus! {

/// The version pattern as a regular expression: each run of digits is a
/// group of its own.
pub const VERSION_PATTERN: &'static str = "([0-9]+)\\.([0-9]+)\\.([0-9]+)";

/// Where the run of digits that starts at `i` ends: the first position
/// from `i` on that holds no digit.
pub open spec fn digits_end(s: Seq<char>, i: int) -> int
    decreases s.len() - i,
{
    if 0 <= i < s.len() && is_digit(s[i]) {
        digits_end(s, i + 1)
    } else {
        i
    }
}

/// The version pattern stands at `i`: a run of digits, a dot, a run of
/// digits, a dot, a run of digits, each run as long as it can be.
pub open spec fn version_at(s: Seq<char>, i: int) -> bool {
    let a = digits_end(s, i);
    let b = digits_end(s, a + 1);
    let c = digits_end(s, b + 1);
    &&& 0 <= i < a < s.len()
    &&& s[a] == '.'
    &&& a + 1 < b < s.len()
    &&& s[b] == '.'
    &&& b + 1 < c
}

/// The version pattern stands at `i` and nowhere before.
pub open spec fn first_version_at(s: Seq<char>, i: int) -> bool {
    &&& version_at(s, i)
    &&& forall|j: int| 0 <= j < i ==> !version_at(s, j)
}

/// The version pattern stands somewhere in `s`.
pub open spec fn has_version(s: Seq<char>) -> bool {
    exists|i: int| version_at(s, i)
}

/// The first position at which the version pattern stands in `s`.
pub open spec fn version_start(s: Seq<char>) -> int {
    choose|i: int| first_version_at(s, i)
}

/// The three runs of digits of the version pattern that stands at `i`.
pub open spec fn version_fields(s: Seq<char>, i: int) -> (Seq<char>, Seq<char>, Seq<char>) {
    let a = digits_end(s, i);
    let b = digits_end(s, a + 1);
    let c = digits_end(s, b + 1);
    (s.subrange(i, a), s.subrange(a + 1, b), s.subrange(b + 1, c))
}

/// A run of digits lies between its start and its end, and ends at the
/// end of the text or before a character that is no digit.
pub proof fn lemma_digits_end(s: Seq<char>, i: int)
    requires
        0 <= i <= s.len(),
    ensures
        i <= digits_end(s, i) <= s.len(),
        forall|k: int| i <= k < digits_end(s, i) ==> is_digit(#[trigger] s[k]),
        digits_end(s, i) < s.len() ==> !is_digit(s[digits_end(s, i)]),
    decreases s.len() - i,
{
    if i < s.len() && is_digit(s[i]) {
        lemma_digits_end(s, i + 1);
    }
}

/// A stretch of digits that is followed by no digit is the run of digits
/// that starts where it starts.
pub proof fn lemma_digits_end_of_run(s: Seq<char>, i: int, j: int)
    requires
        0 <= i <= j <= s.len(),
        forall|k: int| i <= k < j ==> is_digit(#[trigger] s[k]),
        j < s.len() ==> !is_digit(s[j]),
    ensures
        digits_end(s, i) == j,
    decreases j - i,
{
    if i < j {
        lemma_digits_end_of_run(s, i + 1, j);
    }
}

/// The pattern cannot stand first at two positions.
pub proof fn lemma_first_version_unique(s: Seq<char>, i: int, j: int)
    requires
        first_version_at(s, i),
        first_version_at(s, j),
    ensures
        i == j,
{
}

/// The runs of digits of a pattern are digits, and none is empty.
pub proof fn lemma_version_fields_digits(s: Seq<char>, i: int)
    requires
        version_at(s, i),
    ensures
        all_digits(version_fields(s, i).0) && version_fields(s, i).0.len() > 0,
        all_digits(version_fields(s, i).1) && version_fields(s, i).1.len() > 0,
        all_digits(version_fields(s, i).2) && version_fields(s, i).2.len() > 0,
{
    let a = digits_end(s, i);
    let b = digits_end(s, a + 1);
    let c = digits_end(s, b + 1);
    lemma_digits_end(s, i);
    lemma_digits_end(s, a + 1);
    lemma_digits_end(s, b + 1);
}

/// Searches `text` for the version pattern and hands out the three groups
/// of the match. This is `regex::Regex::captures` on the expression
/// `VERSION_PATTERN`, which `regex::Regex::new` compiles without error.
///
/// Trusted: that the match is the leftmost place at which the pattern
/// stands, that each group is greedy, so a whole run of digits, and that
/// there is no match exactly where the pattern stands nowhere.
#[verifier::external_body]
fn capture_version(pattern: &str, text: &str) -> (r: Option<(String, String, String)>)
    requires
        pattern@ == VERSION_PATTERN@,
    ensures
        r is None ==> !has_version(text@),
        r matches Some(groups) ==> exists|i: int|
            first_version_at(text@, i) && (groups.0@, groups.1@, groups.2@) == version_fields(
                text@,
                i,
            ),
{
    let caps = Regex::new(pattern).unwrap().captures(text)?;
    let major = caps.get(1).unwrap().as_str().to_string();
    let minor = caps.get(2).unwrap().as_str().to_string();
    let patch = caps.get(3).unwrap().as_str().to_string();
    Some((major, minor, patch))
}

/// Finds the first version pattern in `text` and returns its three runs
/// of digits, or `None` where the pattern stands nowhere.
pub fn find_version(text: &str) -> (r: Option<(String, String, String)>)
    ensures
        r is Some <==> has_version(text@),
        r matches Some(groups) ==> {
            &&& first_version_at(text@, version_start(text@))
            &&& (groups.0@, groups.1@, groups.2@) == version_fields(text@, version_start(text@))
            &&& all_digits(groups.0@)
            &&& all_digits(groups.1@)
            &&& all_digits(groups.2@)
        },
{
    let r = capture_version(VERSION_PATTERN, text);
    proof {
        if r is Some {
            let groups = r->0;
            let i = choose|i: int|
                first_version_at(text@, i) && (groups.0@, groups.1@, groups.2@) == version_fields(
                    text@,
                    i,
                );
            lemma_first_version_unique(text@, i, version_start(text@));
            lemma_version_fields_digits(text@, i);
        }
    }
    r
}

} // verus!
