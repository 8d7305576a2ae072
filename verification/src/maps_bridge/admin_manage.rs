//! Admin map management through the daemon: reading its answers and update reports.
use vstd::prelude::*;
use crate::maps_bridge::l4d2center_index::{first_where, lemma_first_where, lemma_first_where_none};
use crate::maps_bridge::models::DaemonMapEntry;
use crate::maps_bridge::suggestion_conflicts::copy_map_entry;
use crate::text::{concat, concat3, owned};

verus! {

/// What an update request did to one map.
pub enum MapUpdateOutcome {
    Updated(DaemonMapEntry),
    UpToDate,
    Failed(String),
}

/// A map the daemon failed to update, and why.
pub struct MapOperationFailure {
    pub map_id: u64,
    pub error: String,
}

/// The plain outcome of an update report: the position of the updated entry, the
/// failure message, or "up to date".
pub enum OutcomeSpec {
    Updated(int),
    UpToDate,
    Failed(Seq<char>),
}

/// How a daemon update report reads for one map: its updated entry; else its failure, or
/// the first failure reported; else "not this kind of addon"; else up to date when
/// something was skipped; else a failure for an empty report.
pub open spec fn classify_spec(
    map_id: u64,
    updated: Seq<DaemonMapEntry>,
    skipped: usize,
    failed: Seq<MapOperationFailure>,
    unsupported: usize,
    source_label: Seq<char>,
) -> OutcomeSpec {
    match first_where(|i: int| updated[i].id == map_id, updated.len() as int) {
        Some(i) => OutcomeSpec::Updated(i),
        None => match first_where(|i: int| failed[i].map_id == map_id, failed.len() as int) {
            Some(j) => OutcomeSpec::Failed(failed[j].error@),
            None => if failed.len() > 0 {
                OutcomeSpec::Failed(failed[0].error@)
            } else if unsupported > 0 {
                OutcomeSpec::Failed("Map is not a "@ + source_label + " addon"@)
            } else if skipped > 0 {
                OutcomeSpec::UpToDate
            } else {
                OutcomeSpec::Failed("Daemon returned no update result"@)
            },
        },
    }
}

/// Whether an outcome is the one the specification names.
pub open spec fn outcome_matches(o: MapUpdateOutcome, s: OutcomeSpec, updated: Seq<DaemonMapEntry>) -> bool {
    match s {
        OutcomeSpec::Updated(i) => o matches MapUpdateOutcome::Updated(e) && e == updated[i],
        OutcomeSpec::UpToDate => o matches MapUpdateOutcome::UpToDate,
        OutcomeSpec::Failed(m) => o matches MapUpdateOutcome::Failed(e) && e@ == m,
    }
}

/// What a reading of an update report must satisfy, whatever else it says: the map's own
/// updated entry wins; failing that, a failure reported for the map itself is the answer,
/// the first one reported; "up to date" only when nothing failed, nothing was
/// unsupported and something was skipped.
pub open spec fn update_report_laws(
    map_id: u64,
    updated: Seq<DaemonMapEntry>,
    skipped: usize,
    failed: Seq<MapOperationFailure>,
    unsupported: usize,
    r: MapUpdateOutcome,
) -> bool {
    &&& (exists|i: int| 0 <= i < updated.len() && #[trigger] updated[i].id == map_id) ==> (r matches MapUpdateOutcome::Updated(
        e,
    ) && e.id == map_id && exists|i: int| 0 <= i < updated.len() && #[trigger] updated[i] == e)
    &&& (forall|i: int| 0 <= i < updated.len() ==> #[trigger] updated[i].id != map_id) && (exists|j: int|
        0 <= j < failed.len() && #[trigger] failed[j].map_id == map_id) ==> (r matches MapUpdateOutcome::Failed(e)
        && exists|j: int|
        0 <= j < failed.len() && #[trigger] failed[j].map_id == map_id && failed[j].error@ == e@ && forall|k: int|
            0 <= k < j ==> #[trigger] failed[k].map_id != map_id)
    &&& r is UpToDate ==> failed.len() == 0 && unsupported == 0 && skipped > 0 && forall|i: int|
        0 <= i < updated.len() ==> #[trigger] updated[i].id != map_id
}

/// The laws hold of every reading the specification allows.
pub proof fn lemma_update_report_laws(
    map_id: u64,
    updated: Seq<DaemonMapEntry>,
    skipped: usize,
    failed: Seq<MapOperationFailure>,
    unsupported: usize,
    source_label: Seq<char>,
    r: MapUpdateOutcome,
)
    requires
        outcome_matches(r, classify_spec(map_id, updated, skipped, failed, unsupported, source_label), updated),
    ensures
        update_report_laws(map_id, updated, skipped, failed, unsupported, r),
{
    let pu = |i: int| updated[i].id == map_id;
    let pf = |i: int| failed[i].map_id == map_id;
    if exists|i: int| 0 <= i < updated.len() && #[trigger] updated[i].id == map_id {
        let i = choose|i: int| 0 <= i < updated.len() && #[trigger] updated[i].id == map_id;
        assert(pu(i));
        lemma_first_hit(pu, updated.len() as int, i);
        let f = first_where(pu, updated.len() as int)->0;
        assert(crate::maps_bridge::l4d2center_index::is_first(pu, updated.len() as int, f));
    } else {
        assert forall|j: int| 0 <= j < updated.len() implies !#[trigger] pu(j) by {}
        lemma_first_where_none(pu, updated.len() as int);
        if exists|j: int| 0 <= j < failed.len() && #[trigger] failed[j].map_id == map_id {
            let j = choose|j: int| 0 <= j < failed.len() && #[trigger] failed[j].map_id == map_id;
            assert(pf(j));
            lemma_first_hit(pf, failed.len() as int, j);
            let f = first_where(pf, failed.len() as int)->0;
            assert(crate::maps_bridge::l4d2center_index::is_first(pf, failed.len() as int, f));
            assert(failed[f].map_id == map_id);
            assert forall|k: int| 0 <= k < f implies #[trigger] failed[k].map_id != map_id by {
                assert(!pf(k));
            }
        } else {
            assert forall|j: int| 0 <= j < failed.len() implies !#[trigger] pf(j) by {}
            lemma_first_where_none(pf, failed.len() as int);
        }
    }
}

proof fn lemma_first_hit(p: spec_fn(int) -> bool, n: int, k: int)
    requires
        0 <= k < n,
        p(k),
    ensures
        first_where(p, n) is Some,
        crate::maps_bridge::l4d2center_index::is_first(p, n, first_where(p, n)->0),
    decreases k,
{
    if exists|j: int| 0 <= j < k && #[trigger] p(j) {
        let j = choose|j: int| 0 <= j < k && #[trigger] p(j);
        lemma_first_hit(p, n, j);
    } else {
        assert(crate::maps_bridge::l4d2center_index::is_first(p, n, k));
        lemma_first_where(p, n, k);
    }
}

/// Reads a daemon update report for one map.
pub fn classify_update_report(
    map_id: u64,
    updated: Vec<DaemonMapEntry>,
    skipped: usize,
    failed: Vec<MapOperationFailure>,
    unsupported: usize,
    source_label: &str,
) -> (r: MapUpdateOutcome)
    ensures
        outcome_matches(r, classify_spec(map_id, updated@, skipped, failed@, unsupported, source_label@), updated@),
        update_report_laws(map_id, updated@, skipped, failed@, unsupported, r),
{
    let ghost (u0, f0) = (updated@, failed@);
    let r = read_update_report(map_id, updated, skipped, failed, unsupported, source_label);
    proof {
        lemma_update_report_laws(map_id, u0, skipped, f0, unsupported, source_label@, r);
    }
    r
}

fn read_update_report(
    map_id: u64,
    updated: Vec<DaemonMapEntry>,
    skipped: usize,
    failed: Vec<MapOperationFailure>,
    unsupported: usize,
    source_label: &str,
) -> (r: MapUpdateOutcome)
    ensures
        outcome_matches(r, classify_spec(map_id, updated@, skipped, failed@, unsupported, source_label@), updated@),
{
    let ghost pu = |i: int| updated@[i].id == map_id;
    let mut i: usize = 0;
    while i < updated.len()
        invariant
            i <= updated@.len(),
            pu == (|i: int| updated@[i].id == map_id),
            forall|j: int| 0 <= j < i ==> !#[trigger] pu(j),
        decreases updated@.len() - i,
    {
        if updated[i].id == map_id {
            proof {
                assert(pu(i as int));
                lemma_first_where(pu, updated@.len() as int, i as int);
            }
            return MapUpdateOutcome::Updated(copy_map_entry(&updated[i]));
        }
        i = i + 1;
    }
    proof {
        lemma_first_where_none(pu, updated@.len() as int);
        assert(pu =~= (|i: int| updated@[i].id == map_id));
    }
    let ghost pf = |i: int| failed@[i].map_id == map_id;
    let mut k: usize = 0;
    while k < failed.len()
        invariant
            k <= failed@.len(),
            first_where(|i: int| updated@[i].id == map_id, updated@.len() as int) is None,
            pf == (|i: int| failed@[i].map_id == map_id),
            forall|j: int| 0 <= j < k ==> !#[trigger] pf(j),
        decreases failed@.len() - k,
    {
        if failed[k].map_id == map_id {
            proof {
                assert(pf(k as int));
                lemma_first_where(pf, failed@.len() as int, k as int);
            }
            return MapUpdateOutcome::Failed(failed[k].error.clone());
        }
        k = k + 1;
    }
    proof {
        lemma_first_where_none(pf, failed@.len() as int);
    }
    if failed.len() > 0 {
        return MapUpdateOutcome::Failed(failed[0].error.clone());
    }
    if unsupported > 0 {
        return MapUpdateOutcome::Failed(concat3("Map is not a ", source_label, " addon"));
    }
    if skipped > 0 {
        return MapUpdateOutcome::UpToDate;
    }
    MapUpdateOutcome::Failed(owned("Daemon returned no update result"))
}

/// How the daemon's answer envelope reads: the data when the HTTP status and the
/// envelope both report success, else the daemon's error, or the HTTP status.
pub open spec fn envelope_spec<T>(
    status_ok: bool,
    status_text: Seq<char>,
    success: bool,
    data: Option<T>,
    error: Option<Seq<char>>,
) -> Result<T, Seq<char>> {
    if !status_ok || !success {
        match error {
            Some(e) => Err(e),
            None => Err("Daemon returned HTTP "@ + status_text),
        }
    } else {
        match data {
            Some(d) => Ok(d),
            None => Err("Daemon response missing data"@),
        }
    }
}

/// The plain value of an envelope result.
pub open spec fn result_view<T>(r: Result<T, String>) -> Result<T, Seq<char>> {
    match r {
        Ok(d) => Ok(d),
        Err(e) => Err(e@),
    }
}

/// Reads the daemon's answer envelope.
pub fn daemon_envelope_result<T>(
    status_ok: bool,
    status_text: &str,
    success: bool,
    data: Option<T>,
    error: Option<String>,
) -> (r: Result<T, String>)
    ensures
        result_view(r) == envelope_spec(status_ok, status_text@, success, data, crate::text::opt_string_view(error)),
{
    if !status_ok || !success {
        return match error {
            Some(e) => Err(e),
            None => Err(concat("Daemon returned HTTP ", status_text)),
        };
    }
    match data {
        Some(d) => Ok(d),
        None => Err(owned("Daemon response missing data")),
    }
}

/// Reads the daemon's answer envelope when no data is expected.
pub fn daemon_empty_result(status_ok: bool, status_text: &str, success: bool, error: Option<String>) -> (r:
    Result<(), String>)
    ensures
        result_view(r) == envelope_spec(status_ok, status_text@, success, Some(()), crate::text::opt_string_view(error)),
{
    daemon_envelope_result(status_ok, status_text, success, Some(()), error)
}

} // verus!
