//! How registry entries appear on the website.
use vstd::prelude::*;
use crate::maps_bridge::models::{
    daemon_source_to_website, source_label, workshop_download_url, workshop_url, DaemonMapEntry,
    DaemonSourceKind, WebsiteMapEntry,
};
use crate::maps_bridge::workshop_previews::WorkshopPreviewCache;
use crate::text::{blank, dec, is_blank, owned};

verus! {

/// The download link of an entry: its source URL unless blank, else the workshop page
/// when it has a workshop ID.
pub open spec fn download_url_spec(entry: DaemonMapEntry) -> Option<Seq<char>> {
    if !is_blank(entry.source_url@) {
        Some(entry.source_url@)
    } else {
        match entry.workshop_id {
            Some(id) => Some(workshop_url(id)),
            None => None,
        }
    }
}

/// The preview image of an entry: for workshop maps with an ID, the cached preview URL
/// when there is a non-empty one.
pub open spec fn preview_url_spec(
    entry: DaemonMapEntry,
    cache: Map<Seq<char>, (Seq<char>, Option<crate::maps_bridge::models::Timestamp>, crate::maps_bridge::models::Timestamp)>,
) -> Option<Seq<char>> {
    if entry.source_kind != DaemonSourceKind::Workshop {
        None
    } else {
        match entry.workshop_id {
            Some(id) => if cache.dom().contains(dec(id as nat)) && cache[dec(id as nat)].0.len() > 0 {
                Some(cache[dec(id as nat)].0)
            } else {
                None
            },
            None => None,
        }
    }
}

/// The download link of an entry.
pub fn download_url_for_entry(entry: &DaemonMapEntry) -> (r: Option<String>)
    ensures
        crate::text::opt_string_view(r) == download_url_spec(*entry),
{
    if !blank(entry.source_url.as_str()) {
        return Some(entry.source_url.clone());
    }
    match entry.workshop_id {
        Some(id) => Some(workshop_download_url(id)),
        None => None,
    }
}

/// The preview image of an entry.
pub fn preview_url_for_entry(entry: &DaemonMapEntry, previews: &WorkshopPreviewCache) -> (r: Option<String>)
    requires
        previews.wf(),
    ensures
        crate::text::opt_string_view(r) == preview_url_spec(*entry, previews.view()),
{
    if entry.source_kind != DaemonSourceKind::Workshop {
        return None;
    }
    match entry.workshop_id {
        Some(id) => match previews.preview_url(id) {
            Some(u) => Some(owned(u)),
            None => None,
        },
        None => None,
    }
}

/// A registry entry as the website lists it.
pub fn daemon_entry_to_website(entry: &DaemonMapEntry, previews: &WorkshopPreviewCache) -> (w: WebsiteMapEntry)
    requires
        previews.wf(),
    ensures
        w.id == entry.id,
        w.mapName@ == entry.name@,
        w.source@ == source_label(entry.source_kind),
        crate::text::opt_string_view(w.downloadUrl) == download_url_spec(*entry),
        crate::text::opt_string_view(w.previewUrl) == preview_url_spec(*entry, previews.view()),
{
    let source = owned(daemon_source_to_website(entry.source_kind));
    WebsiteMapEntry {
        id: entry.id,
        mapName: entry.name.clone(),
        source,
        downloadUrl: download_url_for_entry(entry),
        previewUrl: preview_url_for_entry(entry, previews),
    }
}

} // verus!
