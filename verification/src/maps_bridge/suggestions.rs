//! Map suggestions by users: proposing, listing, denying and accepting them.
use vstd::prelude::*;
use crate::http::HttpStatus;
use crate::maps_bridge::admin_install::{
    error_view, resolution_view, resolve_error_message, resolve_install_target, resolve_spec, ResolveErrorSpec,
    ResolvedInstallTarget, TargetSpec,
};
use crate::maps_bridge::l4d2center_index::{catalog_match, find_l4d2center_entry, L4d2CenterIndexEntry};
use crate::maps_bridge::models::{
    workshop_download_url, workshop_url, DaemonMapEntry, MapSuggestion, MapSuggestionSourceKind,
    MapSuggestionView, Timestamp, WorkshopMeta,
};
use crate::maps_bridge::state::AdminInstallErrorResponse;
use crate::maps_bridge::suggestion_conflicts::{
    check_installed_conflict, check_matches, conflict_spec, conflict_to_view, ConflictCheck,
    ConflictSpec,
};
use crate::maps_bridge::suggestions_store::{
    insert_newest_first, is_duplicate, newest_first, public_items, stored_spec, SuggestionsStore,
};
use crate::keyed::without_key;
use crate::maps_bridge::l4d2center_index::first_where;
use crate::text::{concat, concat3, dec, is_blank, owned, u64_to_string};

verus! {

/// The status and body of a rejected suggestion request.
pub fn suggestion_error(status: HttpStatus, error: String) -> (r: (HttpStatus, AdminInstallErrorResponse))
    ensures
        r.0 == status,
        r.1.error@ == error@,
{
    (status, AdminInstallErrorResponse { error })
}

/// Reads a suggestion request: like an install request, but only workshop items and
/// L4D2Center maps can be suggested. Rejections are `BadRequest`.
pub fn suggestion_target(mode: &str, input: &str) -> (r: Result<ResolvedInstallTarget, (HttpStatus, String)>)
    ensures
        match resolve_spec(mode@, input@) {
            Ok(TargetSpec::Url(_)) => r matches Err((s, m)) && s == HttpStatus::BadRequest
                && m@ == "Only workshop and L4D2Center suggestions are supported"@,
            Ok(t) => r matches Ok(target) && crate::maps_bridge::admin_install::target_view(target) == t,
            Err(e) => r matches Err((s, m)) && s == HttpStatus::BadRequest && m@ == resolve_error_message(e),
        },
{
    match resolve_install_target(mode, input) {
        Err(e) => Err((HttpStatus::BadRequest, e.message())),
        Ok(ResolvedInstallTarget::Url { .. }) => Err(
            (HttpStatus::BadRequest, owned("Only workshop and L4D2Center suggestions are supported")),
        ),
        Ok(t) => Ok(t),
    }
}

/// A suggestion of a workshop item, from what Steam reports about it.
pub fn workshop_suggestion(workshop_id: u64, meta: WorkshopMeta, proposed_by: String, now: Timestamp) -> (r:
    MapSuggestion)
    ensures
        r.id == 0,
        r.source_kind == MapSuggestionSourceKind::Workshop,
        r.workshop_id == Some(workshop_id),
        r.l4d2center_name is None,
        r.title == meta.title,
        r.preview_url == meta.preview_url,
        r.download_link matches Some(l) && l@ == workshop_url(workshop_id),
        r.size_bytes == meta.size_bytes,
        r.proposed_by == proposed_by,
        r.proposed_at == now,
{
    MapSuggestion {
        id: 0,
        source_kind: MapSuggestionSourceKind::Workshop,
        workshop_id: Some(workshop_id),
        l4d2center_name: None,
        title: meta.title,
        preview_url: meta.preview_url,
        download_link: Some(workshop_download_url(workshop_id)),
        size_bytes: meta.size_bytes,
        proposed_by,
        proposed_at: now,
    }
}

/// A suggestion of an L4D2Center map, looked up in the catalog by name; a name the
/// catalog lacks is `NotFound`.
pub fn catalog_suggestion(
    index: &[L4d2CenterIndexEntry],
    name: &str,
    proposed_by: String,
    now: Timestamp,
) -> (r: Result<MapSuggestion, (HttpStatus, String)>)
    ensures
        match catalog_match(index@, name@) {
            None => r matches Err((s, m)) && s == HttpStatus::NotFound && m@ == "L4D2Center map '"@ + name@
                + "' not found in catalog"@,
            Some(i) => r matches Ok(sg) && {
                &&& sg.id == 0
                &&& sg.source_kind == MapSuggestionSourceKind::L4d2Center
                &&& sg.workshop_id is None
                &&& sg.l4d2center_name == Some(index@[i].name)
                &&& sg.title == index@[i].name
                &&& sg.preview_url is None
                &&& sg.download_link == Some(index@[i].download_link)
                &&& sg.size_bytes == Some(index@[i].size)
                &&& sg.proposed_by == proposed_by
                &&& sg.proposed_at == now
            },
        },
{
    match find_l4d2center_entry(index, name) {
        None => Err((HttpStatus::NotFound, concat3("L4D2Center map '", name, "' not found in catalog"))),
        Some(entry) => Ok(
            MapSuggestion {
                id: 0,
                source_kind: MapSuggestionSourceKind::L4d2Center,
                workshop_id: None,
                l4d2center_name: Some(entry.name.clone()),
                title: entry.name.clone(),
                preview_url: None,
                download_link: Some(entry.download_link.clone()),
                size_bytes: Some(entry.size),
                proposed_by,
                proposed_at: now,
            },
        ),
    }
}

/// The message for a suggestion of a map that is already installed.
pub open spec fn installed_message(name: Seq<char>, id: u64) -> Seq<char> {
    "Map already installed as '"@ + name + "' (#"@ + dec(id as nat) + ")"@
}

fn already_installed(installed: &DaemonMapEntry) -> (r: String)
    ensures
        r@ == installed_message(installed.name@, installed.id),
{
    let id = u64_to_string(installed.id);
    let a = concat3("Map already installed as '", installed.name.as_str(), "' (#");
    concat3(a.as_str(), id.as_str(), ")")
}

/// Checks a new suggestion: a duplicate of a listed suggestion, or a map installed from
/// the same source, is a `Conflict`.
pub fn check_new_suggestion(store: &SuggestionsStore, suggestion: &MapSuggestion, maps: &[DaemonMapEntry]) -> (r:
    Result<(), (HttpStatus, String)>)
    requires
        store.wf(),
    ensures
        ({
            let items = store.list_spec();
            let name = crate::text::opt_string_view(suggestion.l4d2center_name);
            if first_where(|i: int| is_duplicate(items[i], suggestion.workshop_id, name), items.len() as int) is Some {
                r matches Err((s, m)) && s == HttpStatus::Conflict && m@ == "This map is already suggested"@
            } else {
                match conflict_spec(*suggestion, maps@) {
                    ConflictSpec::Same(i) => r matches Err((s, m)) && s == HttpStatus::Conflict && m@
                        == installed_message(maps@[i].name@, maps@[i].id),
                    _ => r is Ok,
                }
            }
        }),
{
    let name: Option<&str> = match &suggestion.l4d2center_name {
        Some(n) => Some(n.as_str()),
        None => None,
    };
    proof {
        assert(match name {
            Some(n) => Some(n@),
            None => None::<Seq<char>>,
        } == crate::text::opt_string_view(suggestion.l4d2center_name));
    }
    if store.find_duplicate(suggestion.workshop_id, name).is_some() {
        return Err((HttpStatus::Conflict, owned("This map is already suggested")));
    }
    match check_installed_conflict(suggestion, maps) {
        ConflictCheck::SameSource { installed } => Err((HttpStatus::Conflict, already_installed(&installed))),
        _ => Ok(()),
    }
}

/// A suggestion with the conflict the website shows beside it.
pub fn suggestion_view(suggestion: MapSuggestion, maps: &[DaemonMapEntry]) -> (r: MapSuggestionView)
    ensures
        r.suggestion == suggestion,
        shows_conflict(r, maps@),
{
    let check = check_installed_conflict(&suggestion, maps);
    let conflict = conflict_to_view(&check);
    MapSuggestionView { suggestion, conflict }
}

/// Records a checked suggestion under a fresh ID and returns it with its conflict.
pub fn record_suggestion(store: &mut SuggestionsStore, suggestion: MapSuggestion, maps: &[DaemonMapEntry]) -> (r:
    MapSuggestionView)
    requires
        old(store).wf(),
        old(store).next_id_spec() < u64::MAX,
    ensures
        final(store).wf(),
        r.suggestion.id == (if old(store).next_id_spec() > 1 { old(store).next_id_spec() } else { 1 }),
        r.suggestion == (MapSuggestion { id: r.suggestion.id, ..suggestion }),
        final(store).view() == old(store).view().insert(dec(r.suggestion.id as nat), stored_spec(suggestion)),
        final(store).next_id_spec() == r.suggestion.id + 1,
        final(store).list_spec() == insert_newest_first(
            newest_first(public_items(without_key(old(store).entries(), dec(r.suggestion.id as nat)))),
            r.suggestion,
        ),
        !old(store).view().dom().contains(dec(r.suggestion.id as nat)) ==> final(store).list_spec()
            == insert_newest_first(old(store).list_spec(), r.suggestion),
{
    let created = store.create(suggestion);
    suggestion_view(created, maps)
}

/// Whether a view shows the conflict of its suggestion: a likely duplicate installed
/// from another source, named with its ID, name and source; nothing otherwise.
pub open spec fn shows_conflict(v: MapSuggestionView, maps: Seq<DaemonMapEntry>) -> bool {
    match conflict_spec(v.suggestion, maps) {
        ConflictSpec::Other(i) => v.conflict matches Some(c) && c.installed_map_id == maps[i].id
            && c.installed_name@ == maps[i].name@ && c.kind@ == "other_source"@ && c.installed_source@
            == crate::maps_bridge::models::source_label(maps[i].source_kind),
        _ => v.conflict is None,
    }
}

/// Every suggestion, newest first, each with its conflict.
pub fn list_map_suggestions(store: &SuggestionsStore, maps: &[DaemonMapEntry]) -> (r: Vec<MapSuggestionView>)
    requires
        store.wf(),
    ensures
        r@.len() == store.list_spec().len(),
        forall|i: int| 0 <= i < r@.len() ==> #[trigger] r@[i].suggestion == store.list_spec()[i],
        forall|i: int| 0 <= i < r@.len() ==> shows_conflict(#[trigger] r@[i], maps@),
{
    let mut items = store.list();
    let ghost all = items@;
    assert(all.len() == items.len());
    let mut out: Vec<MapSuggestionView> = Vec::new();
    let mut k: usize = 0;
    assert(all.skip(0) =~= all);
    while items.len() > 0
        invariant
            k + items@.len() == all.len(),
            all.len() <= usize::MAX,
            items@ == all.skip(k as int),
            out@.len() == k,
            forall|i: int| 0 <= i < k ==> #[trigger] out@[i].suggestion == all[i],
            forall|i: int| 0 <= i < k ==> shows_conflict(#[trigger] out@[i], maps@),
        decreases items@.len(),
    {
        let s = items.remove(0);
        let ghost before = out@;
        out.push(suggestion_view(s, maps));
        proof {
            assert(s == all[k as int]);
            assert forall|i: int| 0 <= i < k + 1 implies #[trigger] out@[i].suggestion == all[i] by {
                if i < k {
                    assert(out@[i] == before[i]);
                }
            }
            assert forall|i: int| 0 <= i < k + 1 implies shows_conflict(#[trigger] out@[i], maps@) by {
                if i < k {
                    assert(out@[i] == before[i]);
                }
            }
            assert(items@ =~= all.skip(k + 1));
        }
        k = k + 1;
    }
    out
}

/// Denies a suggestion by deleting it; an unknown one is `NotFound`.
pub fn deny_map_suggestion(store: &mut SuggestionsStore, id: u64) -> (r: Result<(), (HttpStatus, String)>)
    requires
        old(store).wf(),
    ensures
        final(store).wf(),
        final(store).view() == old(store).view().remove(dec(id as nat)),
        final(store).list_spec() == newest_first(public_items(without_key(old(store).entries(), dec(id as nat)))),
        old(store).view().dom().contains(dec(id as nat)) ==> r is Ok,
        !old(store).view().dom().contains(dec(id as nat)) ==> (r matches Err((s, m)) && s
            == HttpStatus::NotFound && m@ == "Suggestion #"@ + dec(id as nat) + " not found"@),
{
    if store.delete(id) {
        Ok(())
    } else {
        let n = u64_to_string(id);
        Err((HttpStatus::NotFound, concat3("Suggestion #", n.as_str(), " not found")))
    }
}

/// What installing an accepted suggestion asks of the daemon.
pub enum AcceptInstall {
    Workshop { workshop_id: u64, title: String },
    L4d2Center { name: String },
}

/// What accepting a listed suggestion gives once the daemon is configured: a map
/// installed from the same source is a `Conflict` naming it; else the install of its
/// workshop item or L4D2Center map, or `InternalServerError` when it lacks that key.
pub open spec fn accept_outcome(
    r: Result<AcceptInstall, (HttpStatus, String)>,
    sg: MapSuggestion,
    maps: Seq<DaemonMapEntry>,
) -> bool {
    match conflict_spec(sg, maps) {
        ConflictSpec::Same(i) => r matches Err((s, m)) && s == HttpStatus::Conflict && m@ == installed_message(
            maps[i].name@,
            maps[i].id,
        ),
        _ => match sg.source_kind {
            MapSuggestionSourceKind::Workshop => match sg.workshop_id {
                Some(w) => r matches Ok(AcceptInstall::Workshop { workshop_id, title }) && workshop_id == w
                    && title == sg.title,
                None => r matches Err((s, m)) && s == HttpStatus::InternalServerError && m@
                    == "Suggestion missing workshop_id"@,
            },
            MapSuggestionSourceKind::L4d2Center => match sg.l4d2center_name {
                Some(n) => r matches Ok(AcceptInstall::L4d2Center { name }) && name == n,
                None => r matches Err((s, m)) && s == HttpStatus::InternalServerError && m@
                    == "Suggestion missing l4d2center_name"@,
            },
        },
    }
}

/// Plans accepting a suggestion: the daemon must be configured (`BadGateway`), the
/// suggestion must exist (`NotFound`) and not be installed from the same source
/// (`Conflict`), and it must carry its source's key (`InternalServerError`).
pub fn accept_plan(daemon_url: &str, store: &SuggestionsStore, id: u64, maps: &[DaemonMapEntry]) -> (r: Result<
    AcceptInstall,
    (HttpStatus, String),
>)
    requires
        store.wf(),
    ensures
        is_blank(daemon_url@) ==> (r matches Err((s, m)) && s == HttpStatus::BadGateway && m@
            == "Daemon URL not configured"@),
        !is_blank(daemon_url@) && !store.view().dom().contains(dec(id as nat)) ==> (r matches Err((s, m)) && s
            == HttpStatus::NotFound && m@ == "Suggestion #"@ + dec(id as nat) + " not found"@),
        ({
            let sg = crate::maps_bridge::suggestions_store::public_spec(id, store.view()[dec(id as nat)]);
            !is_blank(daemon_url@) && store.view().dom().contains(dec(id as nat)) ==> accept_outcome(r, sg, maps@)
        }),
        r matches Ok(AcceptInstall::Workshop { workshop_id, title }) ==> {
            let sg = crate::maps_bridge::suggestions_store::public_spec(id, store.view()[dec(id as nat)]);
            &&& !is_blank(daemon_url@)
            &&& store.view().dom().contains(dec(id as nat))
            &&& sg.source_kind == MapSuggestionSourceKind::Workshop
            &&& sg.workshop_id == Some(workshop_id)
            &&& title == sg.title
            &&& !(conflict_spec(sg, maps@) is Same)
        },
        r matches Ok(AcceptInstall::L4d2Center { name }) ==> {
            let sg = crate::maps_bridge::suggestions_store::public_spec(id, store.view()[dec(id as nat)]);
            &&& !is_blank(daemon_url@)
            &&& store.view().dom().contains(dec(id as nat))
            &&& sg.source_kind == MapSuggestionSourceKind::L4d2Center
            &&& sg.l4d2center_name == Some(name)
            &&& !(conflict_spec(sg, maps@) is Same)
        },
{
    if crate::text::blank(daemon_url) {
        return Err((HttpStatus::BadGateway, owned("Daemon URL not configured")));
    }
    let suggestion = match store.get(id) {
        Some(s) => s,
        None => {
            let n = u64_to_string(id);
            return Err((HttpStatus::NotFound, concat3("Suggestion #", n.as_str(), " not found")));
        },
    };
    if let ConflictCheck::SameSource { installed } = check_installed_conflict(&suggestion, maps) {
        return Err((HttpStatus::Conflict, already_installed(&installed)));
    }
    match suggestion.source_kind {
        MapSuggestionSourceKind::Workshop => match suggestion.workshop_id {
            Some(w) => Ok(AcceptInstall::Workshop { workshop_id: w, title: suggestion.title }),
            None => Err((HttpStatus::InternalServerError, owned("Suggestion missing workshop_id"))),
        },
        MapSuggestionSourceKind::L4d2Center => match suggestion.l4d2center_name {
            Some(n) => Ok(AcceptInstall::L4d2Center { name: n }),
            None => Err((HttpStatus::InternalServerError, owned("Suggestion missing l4d2center_name"))),
        },
    }
}

/// CORS preflight for the suggestions list.
pub fn options_map_suggestions() -> (s: HttpStatus)
    ensures
        s == HttpStatus::Success,
{
    HttpStatus::Success
}

/// CORS preflight for denying a suggestion.
pub fn options_deny_map_suggestion(id: u64) -> (s: HttpStatus)
    ensures
        s == HttpStatus::Success,
{
    HttpStatus::Success
}

/// CORS preflight for accepting a suggestion.
pub fn options_accept_map_suggestion(id: u64) -> (s: HttpStatus)
    ensures
        s == HttpStatus::Success,
{
    HttpStatus::Success
}

} // verus!
