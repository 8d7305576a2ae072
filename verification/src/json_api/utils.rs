//! Status helpers shared by the JSON API handlers.
use vstd::prelude::*;
use crate::http::HttpStatus;
use crate::text::{contains, str_contains};

verus! {

/// HTTP 200, the answer to CORS preflight requests.
pub fn ok_status() -> (s: HttpStatus)
    ensures
        s == HttpStatus::Success,
{
    HttpStatus::Success
}

/// Whether any of the needles occurs in the haystack.
pub open spec fn contains_any_spec(haystack: Seq<char>, needles: Seq<&str>) -> bool {
    exists|i: int| 0 <= i < needles.len() && contains(haystack, #[trigger] needles[i]@)
}

fn contains_any(haystack: &str, needles: &[&str]) -> (r: bool)
    ensures
        r == contains_any_spec(haystack@, needles@),
{
    let mut i: usize = 0;
    while i < needles.len()
        invariant
            i <= needles@.len(),
            forall|j: int| 0 <= j < i ==> !contains(haystack@, #[trigger] needles@[j]@),
        decreases needles@.len() - i,
    {
        if str_contains(haystack, needles[i]) {
            return true;
        }
        i = i + 1;
    }
    false
}

/// The status for a storage error: `NotFound` when the message holds a not-found
/// marker, else `Conflict` when it holds a conflict marker, else `InternalServerError`.
pub open spec fn storage_status_spec(
    error: Seq<char>,
    not_found_markers: Seq<&str>,
    conflict_markers: Seq<&str>,
) -> HttpStatus {
    if contains_any_spec(error, not_found_markers) {
        HttpStatus::NotFound
    } else if contains_any_spec(error, conflict_markers) {
        HttpStatus::Conflict
    } else {
        HttpStatus::InternalServerError
    }
}

/// Maps a storage error message to an HTTP status by the markers it contains. The
/// context names the operation for the caller's log line.
pub fn storage_error_status(
    context: &str,
    error: &str,
    not_found_markers: &[&str],
    conflict_markers: &[&str],
) -> (s: HttpStatus)
    ensures
        s == storage_status_spec(error@, not_found_markers@, conflict_markers@),
{
    if contains_any(error, not_found_markers) {
        HttpStatus::NotFound
    } else if contains_any(error, conflict_markers) {
        HttpStatus::Conflict
    } else {
        HttpStatus::InternalServerError
    }
}

/// The status of a storage error when only "not found" is expected.
pub open spec fn not_found_status(e: Seq<char>) -> HttpStatus {
    storage_status_spec(e, seq!["not found"], seq![])
}

/// The status of a storage error when only "already exists" is expected.
pub open spec fn conflict_status(e: Seq<char>) -> HttpStatus {
    storage_status_spec(e, seq![], seq!["already exists"])
}

/// The status of a storage error when both are expected.
pub open spec fn update_status(e: Seq<char>) -> HttpStatus {
    storage_status_spec(e, seq!["not found"], seq!["already exists"])
}

/// Maps a storage error for an endpoint that expects only "not found".
pub fn status_not_found(context: &str, e: &str) -> (s: HttpStatus)
    ensures
        s == not_found_status(e@),
{
    let nf = ["not found"];
    let none: [&str; 0] = [];
    assert(nf@ =~= seq!["not found"]);
    assert(none@ =~= Seq::<&str>::empty());
    storage_error_status(context, e, &nf, &none)
}

/// Maps a storage error for an endpoint that expects only "already exists".
pub fn status_conflict(context: &str, e: &str) -> (s: HttpStatus)
    ensures
        s == conflict_status(e@),
{
    let cf = ["already exists"];
    let none: [&str; 0] = [];
    assert(cf@ =~= seq!["already exists"]);
    assert(none@ =~= Seq::<&str>::empty());
    storage_error_status(context, e, &none, &cf)
}

/// Maps a storage error for an endpoint that expects both.
pub fn status_update(context: &str, e: &str) -> (s: HttpStatus)
    ensures
        s == update_status(e@),
{
    let nf = ["not found"];
    let cf = ["already exists"];
    assert(nf@ =~= seq!["not found"]);
    assert(cf@ =~= seq!["already exists"]);
    storage_error_status(context, e, &nf, &cf)
}

} // verus!
