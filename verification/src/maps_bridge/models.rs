//! Records exchanged with the server daemon and served to the website.
use vstd::prelude::*;
use crate::text::{concat, dec, owned, u64_to_string};

verus! {

/// A UTC instant: whole seconds since the Unix epoch and the nanoseconds past them.
#[derive(Clone, Copy, Debug, PartialEq, Eq, Structural)]
pub struct Timestamp {
    pub secs: i64,
    pub nanos: u32,
}

/// The instant as nanoseconds since the epoch.
pub open spec fn total_nanos(t: Timestamp) -> int {
    t.secs * 1000000000 + t.nanos
}

/// Whether `a` lies strictly before `b`.
pub open spec fn ts_before(a: Timestamp, b: Timestamp) -> bool {
    a.secs < b.secs || (a.secs == b.secs && a.nanos < b.nanos)
}

/// Whether `a` lies strictly before `b`.
pub fn timestamp_before(a: Timestamp, b: Timestamp) -> (r: bool)
    ensures
        r == ts_before(a, b),
{
    a.secs < b.secs || (a.secs == b.secs && a.nanos < b.nanos)
}

/// The kind of source a daemon map came from.
#[derive(Clone, Copy, Debug, PartialEq, Eq, Structural)]
pub enum DaemonSourceKind {
    Workshop,
    SirPlease,
    L4d2Center,
    Other,
}

/// A map as the daemon's registry records it.
pub struct DaemonMapEntry {
    pub id: u64,
    pub name: String,
    pub source_url: String,
    pub source_kind: DaemonSourceKind,
    pub workshop_id: Option<u64>,
    pub installed_path: String,
    pub installed_at: Timestamp,
    pub workshop_updated_at: Option<Timestamp>,
    pub version: Option<String>,
    pub checksum: Option<String>,
    pub checksum_kind: Option<String>,
}

/// The full registry the daemon pushes.
pub struct SyncRequest {
    pub maps: Vec<DaemonMapEntry>,
}

/// A registry change announced to the daemon.
pub struct MapUpdate {
    pub action: String,
    pub map_id: String,
    pub map_entry: Option<DaemonMapEntry>,
}

/// The registry changes pending for the daemon.
pub struct UpdatesResponse {
    pub updates: Vec<MapUpdate>,
}

/// A map as the website lists it.
#[allow(non_snake_case)]
pub struct WebsiteMapEntry {
    pub id: u64,
    pub mapName: String,
    pub source: String,
    pub downloadUrl: Option<String>,
    pub previewUrl: Option<String>,
}

/// Where a map list came from.
#[derive(Clone, Copy, Debug, PartialEq, Eq, Structural)]
pub enum MapsDataSource {
    Registry,
    RegistryStale,
}

/// The map list served to the website.
pub struct MapsListResponse {
    pub maps: Vec<WebsiteMapEntry>,
    pub stale: bool,
    pub source: MapsDataSource,
}

/// One installed map, in full, for admins.
pub struct AdminMapDetailResponse {
    pub id: u64,
    pub name: String,
    pub installed_path: String,
    pub source_kind: DaemonSourceKind,
    pub workshop_id: Option<u64>,
    pub installed_at: Timestamp,
    pub workshop_updated_at: Option<Timestamp>,
    pub version: Option<String>,
    pub checksum: Option<String>,
    pub checksum_kind: Option<String>,
}

/// The admin detail view of a registry entry: every field but the source URL.
pub open spec fn detail_spec(entry: DaemonMapEntry) -> AdminMapDetailResponse {
    AdminMapDetailResponse {
        id: entry.id,
        name: entry.name,
        installed_path: entry.installed_path,
        source_kind: entry.source_kind,
        workshop_id: entry.workshop_id,
        installed_at: entry.installed_at,
        workshop_updated_at: entry.workshop_updated_at,
        version: entry.version,
        checksum: entry.checksum,
        checksum_kind: entry.checksum_kind,
    }
}

/// The admin detail of a daemon map: every field but the source URL.
pub fn detail_from_entry(entry: DaemonMapEntry) -> (r: AdminMapDetailResponse)
    ensures
        r == detail_spec(entry),
        r.id == entry.id,
        r.name == entry.name,
        r.installed_path == entry.installed_path,
        r.source_kind == entry.source_kind,
        r.workshop_id == entry.workshop_id,
        r.installed_at == entry.installed_at,
        r.workshop_updated_at == entry.workshop_updated_at,
        r.version == entry.version,
        r.checksum == entry.checksum,
        r.checksum_kind == entry.checksum_kind,
{
    AdminMapDetailResponse {
        id: entry.id,
        name: entry.name,
        installed_path: entry.installed_path,
        source_kind: entry.source_kind,
        workshop_id: entry.workshop_id,
        installed_at: entry.installed_at,
        workshop_updated_at: entry.workshop_updated_at,
        version: entry.version,
        checksum: entry.checksum,
        checksum_kind: entry.checksum_kind,
    }
}

/// The result of an update check or run.
#[derive(Clone, Copy, Debug, PartialEq, Eq, Structural)]
pub enum UpdateStatus {
    Updated,
    UpToDate,
    Unsupported,
    Failed,
}

/// The answer to an update check or run for one map.
pub struct AdminUpdateCheckResponse {
    pub status: UpdateStatus,
    pub message: String,
    pub map: Option<AdminMapDetailResponse>,
}

/// A pending or running update, as the daemon reports it.
pub struct AdminMapUpdateItem {
    pub name: String,
    pub map_id: u64,
    pub source_kind: DaemonSourceKind,
    pub phase: Option<String>,
    pub bytes_downloaded: u64,
    pub bytes_total: Option<u64>,
    pub percent: Option<u8>,
    pub detail: Option<String>,
}

/// The daemon's available and running updates.
pub struct AdminMapUpdatesStatus {
    pub available: Vec<AdminMapUpdateItem>,
    pub in_progress: Vec<AdminMapUpdateItem>,
}

/// A request to apply updates: one map, or every available update.
pub struct AdminApplyUpdatesRequest {
    pub map_id: Option<u64>,
}

/// The results of applying updates, one per map.
pub struct AdminApplyUpdatesResponse {
    pub results: Vec<AdminUpdateCheckResponse>,
}

/// The daemon's answer to `GET /api/maps`.
pub struct DaemonApiResponse {
    pub success: bool,
    pub data: Option<Vec<DaemonMapEntry>>,
    pub error: Option<String>,
}

/// Where a map suggestion points.
#[derive(Clone, Copy, Debug, PartialEq, Eq, Structural)]
pub enum MapSuggestionSourceKind {
    Workshop,
    L4d2Center,
}

/// A map proposed by a user for installation.
pub struct MapSuggestion {
    pub id: u64,
    pub source_kind: MapSuggestionSourceKind,
    pub workshop_id: Option<u64>,
    pub l4d2center_name: Option<String>,
    pub title: String,
    pub preview_url: Option<String>,
    pub download_link: Option<String>,
    pub size_bytes: Option<u64>,
    pub proposed_by: String,
    pub proposed_at: Timestamp,
}

/// An installed map from another source that a suggestion seems to duplicate.
pub struct MapSuggestionConflict {
    pub kind: String,
    pub installed_map_id: u64,
    pub installed_name: String,
    pub installed_source: String,
}

/// A suggestion with the conflict the website shows beside it.
pub struct MapSuggestionView {
    pub suggestion: MapSuggestion,
    pub conflict: Option<MapSuggestionConflict>,
}

/// The map the daemon installed for an accepted suggestion.
pub struct AcceptMapSuggestionResponse {
    pub map_id: u64,
}

/// A user's suggestion request: how to read the input, and the input.
pub struct CreateMapSuggestionRequest {
    pub mode: String,
    pub input: String,
}

/// What the Steam Web API tells about a workshop item.
pub struct WorkshopMeta {
    pub title: String,
    pub preview_url: Option<String>,
    pub size_bytes: Option<u64>,
}

/// The website's name for a daemon source kind.
pub open spec fn source_label(kind: DaemonSourceKind) -> Seq<char> {
    match kind {
        DaemonSourceKind::Workshop => "Workshop"@,
        DaemonSourceKind::SirPlease => "SirPlease"@,
        DaemonSourceKind::L4d2Center => "L4D2Center"@,
        DaemonSourceKind::Other => "Other"@,
    }
}

/// The website's name for a daemon source kind.
pub fn daemon_source_to_website(kind: DaemonSourceKind) -> (r: &'static str)
    ensures
        r@ == source_label(kind),
{
    match kind {
        DaemonSourceKind::Workshop => "Workshop",
        DaemonSourceKind::SirPlease => "SirPlease",
        DaemonSourceKind::L4d2Center => "L4D2Center",
        DaemonSourceKind::Other => "Other",
    }
}

/// The Steam Workshop page of an item.
pub open spec fn workshop_url(workshop_id: u64) -> Seq<char> {
    "https://steamcommunity.com/sharedfiles/filedetails/?id="@ + dec(workshop_id as nat)
}

/// The Steam Workshop page of an item.
pub fn workshop_download_url(workshop_id: u64) -> (r: String)
    ensures
        r@ == workshop_url(workshop_id),
{
    let id = u64_to_string(workshop_id);
    concat("https://steamcommunity.com/sharedfiles/filedetails/?id=", id.as_str())
}

} // verus!
