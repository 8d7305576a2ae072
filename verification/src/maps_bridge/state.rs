//! The bridge's settings and the decisions around its requests to the daemon.
use vstd::prelude::*;
use crate::config::Config;
use crate::http::HttpStatus;
use crate::maps_bridge::admin_install::{
    error_view, resolution_view, resolve_install_target, resolve_spec, resolved_mode_label,
    mode_label, target_view, trimmed_name, utf8_len, validate_optional_install_name,
    AdminInstallMapRequest, AdminInstallMapResponse, ResolvedInstallTarget, TargetSpec,
};
use crate::maps_bridge::admin_manage::MapUpdateOutcome;
use crate::maps_bridge::mapping::daemon_entry_to_website;
use crate::maps_bridge::models::{
    detail_spec,
    detail_from_entry, total_nanos, AdminMapUpdateItem, AdminUpdateCheckResponse, DaemonMapEntry,
    DaemonSourceKind, MapsDataSource, MapsListResponse, Timestamp, UpdateStatus, UpdatesResponse,
    WebsiteMapEntry,
};
use crate::maps_bridge::registry_store::{data_path, resolve_data_path, RegistryFile};
use crate::maps_bridge::workshop_previews::{
    preview_cache_path_from_registry, WorkshopPreviewCache, STEAM_PUBLISHED_FILE_DETAILS_URL,
};
use crate::text::{blank, concat, contains, is_blank, opt_string_view, owned, str_contains, trim, trim_str, lowercased};

verus! {

/// `chrono::Utc::now()` as seconds and nanoseconds since the epoch. Nothing is claimed of
/// the value.
#[verifier::external_body]
pub(crate) fn utc_now() -> (r: Timestamp) {
    let now = chrono::Utc::now();
    Timestamp { secs: now.timestamp(), nanos: now.timestamp_subsec_nanos() }
}

/// The bridge's settings.
pub struct MapsBridgeState {
    pub registry_path: String,
    pub daemon_url: String,
    pub sync_api_key: Option<String>,
    pub stale_after_secs: u64,
    pub published_file_details_url: String,
}

/// The answer to a rejected admin request.
pub struct AdminInstallErrorResponse {
    pub error: String,
}

/// A request the daemon authenticated with the sync key.
pub struct DaemonSyncAuth;

/// Whole seconds from `then` to `now`, rounded toward zero (`TimeDelta::num_seconds`).
pub open spec fn age_secs(now: Timestamp, then: Timestamp) -> int {
    let d = total_nanos(now) - total_nanos(then);
    if d >= 0 {
        d / 1000000000
    } else {
        -((-d) / 1000000000)
    }
}

/// Whether a registry synchronised at `last` is stale at `now`: never synchronised, or
/// older than the limit (a limit of 0 never expires).
pub open spec fn registry_stale_spec(last: Option<Timestamp>, stale_after_secs: u64, now: Timestamp) -> bool {
    match last {
        None => true,
        Some(t) => if stale_after_secs == 0 {
            false
        } else {
            age_secs(now, t) > (stale_after_secs as i64) as int
        },
    }
}

/// The sync key sent by the daemon: the configured key, trimmed, unless blank.
pub open spec fn sync_key_spec(configured: Seq<char>) -> Option<Seq<char>> {
    if is_blank(configured) {
        None
    } else {
        Some(trim(configured))
    }
}

/// A website entry shows the registry entry with the cached previews.
pub open spec fn shows_entry(
    w: WebsiteMapEntry,
    e: DaemonMapEntry,
    cache: Map<Seq<char>, (Seq<char>, Option<Timestamp>, Timestamp)>,
) -> bool {
    &&& w.id == e.id
    &&& w.mapName@ == e.name@
    &&& w.source@ == crate::maps_bridge::models::source_label(e.source_kind)
    &&& opt_string_view(w.downloadUrl) == crate::maps_bridge::mapping::download_url_spec(e)
    &&& opt_string_view(w.previewUrl) == crate::maps_bridge::mapping::preview_url_spec(e, cache)
}

impl MapsBridgeState {
    /// The bridge's settings from the configuration; relative paths are under `base_path`.
    pub fn from_config(config: &Config, base_path: &str) -> (s: Self)
        ensures
            s.registry_path@ == data_path(base_path@, config.server_daemon_registry_path@, "maps_registry.json"@),
            s.daemon_url@ == config.server_daemon_url@,
            opt_string_view(s.sync_api_key) == sync_key_spec(config.server_daemon_sync_api_key@),
            s.stale_after_secs == config.server_daemon_stale_after_secs,
            s.published_file_details_url@ == STEAM_PUBLISHED_FILE_DETAILS_URL@,
    {
        let key = if blank(config.server_daemon_sync_api_key.as_str()) {
            None
        } else {
            Some(trim_str(config.server_daemon_sync_api_key.as_str()))
        };
        MapsBridgeState {
            registry_path: resolve_data_path(
                base_path,
                config.server_daemon_registry_path.as_str(),
                "maps_registry.json",
            ),
            daemon_url: config.server_daemon_url.clone(),
            sync_api_key: key,
            stale_after_secs: config.server_daemon_stale_after_secs,
            published_file_details_url: owned(STEAM_PUBLISHED_FILE_DETAILS_URL),
        }
    }

    /// Where the preview cache lives.
    pub fn preview_cache_path(&self) -> (r: String)
        ensures
            r@ == crate::paths::sibling_spec(self.registry_path@, "workshop_previews.json"@),
    {
        preview_cache_path_from_registry(self.registry_path.as_str())
    }

    /// Where the suggestions file lives.
    pub fn suggestions_path(&self) -> (r: String)
        ensures
            r@ == crate::paths::sibling_spec(self.registry_path@, "map_suggestions.json"@),
    {
        crate::maps_bridge::suggestions_store::SuggestionsStore::path_from_registry(self.registry_path.as_str())
    }

    /// Whether an `Authorization` header carries the configured sync key as a bearer
    /// token; with no key configured nothing is accepted.
    pub fn verify_sync_token(&self, config: &Config, auth_header: Option<&str>) -> (r: bool)
        ensures
            r == (!is_blank(config.server_daemon_sync_api_key@) && auth_header is Some && auth_header->0@
                == "Bearer "@ + trim(config.server_daemon_sync_api_key@)),
    {
        let expected = trim_str(config.server_daemon_sync_api_key.as_str());
        if expected.as_str().is_empty() {
            return false;
        }
        match auth_header {
            Some(value) => {
                let want = concat("Bearer ", expected.as_str());
                crate::text::str_eq(value, want.as_str())
            },
            None => false,
        }
    }

    /// Whether a registry synchronised at `last` is stale at `now`.
    pub fn registry_is_stale_at(&self, last_synced_at: Option<Timestamp>, now: Timestamp) -> (r: bool)
        ensures
            r == registry_stale_spec(last_synced_at, self.stale_after_secs, now),
    {
        let synced = match last_synced_at {
            None => {
                return true;
            },
            Some(t) => t,
        };
        if self.stale_after_secs == 0 {
            return false;
        }
        let d: i128 = ((now.secs as i128) - (synced.secs as i128)) * 1000000000 + ((now.nanos as i128)
            - (synced.nanos as i128));
        let age: i128 = if d >= 0 {
            d / 1000000000
        } else {
            -((-d) / 1000000000)
        };
        #[verifier::truncate]
        let limit: i64 = self.stale_after_secs as i64;
        age > (limit as i128)
    }

    /// Whether a registry synchronised at `last` is stale now.
    pub fn registry_is_stale(&self, last_synced_at: Option<Timestamp>) -> (r: bool)
        ensures
            exists|now: Timestamp| r == registry_stale_spec(last_synced_at, self.stale_after_secs, now),
    {
        let now = utc_now();
        self.registry_is_stale_at(last_synced_at, now)
    }

    /// The daemon must be configured for anything that talks to it.
    pub fn require_daemon(&self) -> (r: Result<(), String>)
        ensures
            match r {
                Ok(_) => !is_blank(self.daemon_url@),
                Err(e) => is_blank(self.daemon_url@) && e@ == "Daemon URL not configured"@,
            },
    {
        if blank(self.daemon_url.as_str()) {
            Err(owned("Daemon URL not configured"))
        } else {
            Ok(())
        }
    }

    /// Whether serving the map list must first ask the daemon: the registry is empty or
    /// stale at `now`.
    pub fn needs_registry_refresh(&self, registry: &RegistryFile, now: Timestamp) -> (r: bool)
        ensures
            r == (registry.maps@.len() == 0 || registry_stale_spec(registry.last_synced_at, self.stale_after_secs, now)),
    {
        registry.maps.len() == 0 || self.registry_is_stale_at(registry.last_synced_at, now)
    }

    /// The map list served to the website from a registry and the preview cache:
    /// `stale` unless the registry was just refreshed, or when it is stale or never
    /// synchronised.
    pub fn maps_list_response(
        &self,
        registry: &RegistryFile,
        refreshed: bool,
        previews: &WorkshopPreviewCache,
        now: Timestamp,
    ) -> (r: MapsListResponse)
        requires
            previews.wf(),
        ensures
            registry.maps@.len() == 0 ==> (r.maps@.len() == 0 && r.stale && r.source == MapsDataSource::RegistryStale),
            registry.maps@.len() > 0 ==> r.stale == (!refreshed && (registry_stale_spec(
                registry.last_synced_at,
                self.stale_after_secs,
                now,
            ) || registry.last_synced_at is None)),
            r.source == (if r.stale {
                MapsDataSource::RegistryStale
            } else {
                MapsDataSource::Registry
            }),
            r.maps@.len() == registry.maps@.len(),
            forall|i: int|
                0 <= i < r.maps@.len() ==> shows_entry(#[trigger] r.maps@[i], registry.maps@[i], previews.view()),
    {
        if registry.maps.len() == 0 {
            return MapsBridgeState::empty_stale_response();
        }
        let stale = !refreshed && (self.registry_is_stale_at(registry.last_synced_at, now)
            || registry.last_synced_at.is_none());
        let mut maps: Vec<WebsiteMapEntry> = Vec::new();
        let mut i: usize = 0;
        while i < registry.maps.len()
            invariant
                i <= registry.maps@.len(),
                previews.wf(),
                maps@.len() == i,
                forall|j: int| 0 <= j < i ==> shows_entry(#[trigger] maps@[j], registry.maps@[j], previews.view()),
            decreases registry.maps@.len() - i,
        {
            let w = daemon_entry_to_website(&registry.maps[i], previews);
            let ghost before = maps@;
            maps.push(w);
            proof {
                assert forall|j: int| 0 <= j < i + 1 implies shows_entry(#[trigger] maps@[j], registry.maps@[j], previews.view()) by {
                    if j < i {
                        assert(maps@[j] == before[j]);
                    }
                }
            }
            i = i + 1;
        }
        let r = MapsListResponse {
            maps,
            stale,
            source: if stale {
                MapsDataSource::RegistryStale
            } else {
                MapsDataSource::Registry
            },
        };
        assert(r.maps@ == maps@);
        r
    }

    /// An empty, stale map list.
    pub fn empty_stale_response() -> (r: MapsListResponse)
        ensures
            r.maps@.len() == 0,
            r.stale,
            r.source == MapsDataSource::RegistryStale,
    {
        MapsListResponse { maps: Vec::new(), stale: true, source: MapsDataSource::RegistryStale }
    }

    /// The registry after asking the daemon at `now`: its maps when it answered, with the
    /// sync time `now`; the cached registry when it failed and the cache has maps; `None`
    /// when it failed and there is nothing cached (an empty, stale list is served).
    pub fn registry_after_fetch(
        registry: RegistryFile,
        fetched: Result<Vec<DaemonMapEntry>, String>,
        now: Timestamp,
    ) -> (r: Option<(RegistryFile, bool)>)
        ensures
            match fetched {
                Ok(maps) => r matches Some((reg, refreshed)) && refreshed && reg.maps@ == maps@
                    && reg.last_synced_at == Some(now),
                Err(_) => if registry.maps@.len() > 0 {
                    r matches Some((reg, refreshed)) && !refreshed && reg.maps@ == registry.maps@
                        && reg.last_synced_at == registry.last_synced_at
                } else {
                    r is None
                },
            },
    {
        match fetched {
            Ok(maps) => Some((RegistryFile { last_synced_at: Some(now), maps }, true)),
            Err(_) => if registry.maps.len() > 0 {
                Some((registry, false))
            } else {
                None
            },
        }
    }

    /// Reads an admin's install request: the daemon must be configured, the optional
    /// name valid, and the source resolvable; errors are the messages shown.
    pub fn admin_install_plan(&self, request: &AdminInstallMapRequest) -> (r: Result<
        (ResolvedInstallTarget, Option<String>),
        String,
    >)
        ensures
            is_blank(self.daemon_url@) ==> (r matches Err(e) && e@ == "Daemon URL not configured"@),
            !is_blank(self.daemon_url@) ==> match trimmed_name(opt_string_view(request.name)) {
                Some(t) if utf8_len(t) > 255 => r matches Err(e) && e@ == "Map name too long (max 255 characters)"@,
                name => match resolve_spec(request.mode@, request.input@) {
                    Ok(t) => r matches Ok((target, n)) && target_view(target) == t && opt_string_view(n) == name,
                    Err(_) => r is Err,
                },
            },
    {
        if let Err(e) = self.require_daemon() {
            return Err(e);
        }
        let name = match validate_optional_install_name(&request.name) {
            Ok(n) => n,
            Err(e) => {
                return Err(e);
            },
        };
        match resolve_install_target(request.mode.as_str(), request.input.as_str()) {
            Ok(t) => Ok((t, name)),
            Err(e) => Err(e.message()),
        }
    }
}

/// The answer to an accepted install: the new map and how its source was read.
pub fn admin_install_response(map_id: u64, target: &ResolvedInstallTarget) -> (r: AdminInstallMapResponse)
    ensures
        r.map_id == map_id,
        r.resolved_mode@ == mode_label(target_view(*target)),
{
    AdminInstallMapResponse { map_id, resolved_mode: owned(resolved_mode_label(target)) }
}

/// The status for a failed install: daemon trouble is `BadGateway`, an unreadable
/// request `BadRequest`, anything else `InternalServerError`.
pub open spec fn install_error_status_spec(e: Seq<char>) -> HttpStatus {
    if contains(e, "not configured"@) || contains(e, "Daemon request failed"@) || contains(
        e,
        "Daemon returned HTTP"@,
    ) {
        HttpStatus::BadGateway
    } else if contains(e, "required"@) || contains(e, "Invalid"@) || contains(e, "Expected"@)
        || contains(e, "too long"@) || contains(e, "Could not detect"@) {
        HttpStatus::BadRequest
    } else {
        HttpStatus::InternalServerError
    }
}

/// The status for a failed install.
pub fn admin_install_error_status(error: &str) -> (r: HttpStatus)
    ensures
        r == install_error_status_spec(error@),
{
    if str_contains(error, "not configured") || str_contains(error, "Daemon request failed")
        || str_contains(error, "Daemon returned HTTP") {
        HttpStatus::BadGateway
    } else if str_contains(error, "required") || str_contains(error, "Invalid") || str_contains(
        error,
        "Expected",
    ) || str_contains(error, "too long") || str_contains(error, "Could not detect") {
        HttpStatus::BadRequest
    } else {
        HttpStatus::InternalServerError
    }
}

/// The status for a failed admin request to the daemon: a missing map is `NotFound`,
/// daemon trouble `BadGateway`, anything else `InternalServerError`.
pub open spec fn proxy_error_status_spec(e: Seq<char>) -> HttpStatus {
    if contains(lowercased(e), "not found"@) {
        HttpStatus::NotFound
    } else if contains(e, "not configured"@) || contains(e, "Daemon request failed"@) || contains(
        e,
        "Daemon returned HTTP"@,
    ) {
        HttpStatus::BadGateway
    } else {
        HttpStatus::InternalServerError
    }
}

/// The status and body for a failed admin request to the daemon.
pub fn admin_proxy_error(error: String) -> (r: (HttpStatus, AdminInstallErrorResponse))
    ensures
        r.0 == proxy_error_status_spec(error@),
        r.1.error@ == error@,
{
    let lower = crate::text::to_lowercase(error.as_str());
    let status = if str_contains(lower.as_str(), "not found") {
        HttpStatus::NotFound
    } else if str_contains(error.as_str(), "not configured") || str_contains(
        error.as_str(),
        "Daemon request failed",
    ) || str_contains(error.as_str(), "Daemon returned HTTP") {
        HttpStatus::BadGateway
    } else {
        HttpStatus::InternalServerError
    };
    (status, AdminInstallErrorResponse { error })
}

/// Where an update request goes, by source kind.
#[derive(Clone, Copy, Debug, PartialEq, Eq, Structural)]
pub enum UpdateRoute {
    Workshop,
    L4d2Center,
    Unsupported,
}

/// Where an update request for a map goes: workshop and L4D2Center maps have update
/// endpoints; other sources do not.
pub fn update_route(kind: DaemonSourceKind) -> (r: UpdateRoute)
    ensures
        r == (match kind {
            DaemonSourceKind::Workshop => UpdateRoute::Workshop,
            DaemonSourceKind::L4d2Center => UpdateRoute::L4d2Center,
            _ => UpdateRoute::Unsupported,
        }),
{
    match kind {
        DaemonSourceKind::Workshop => UpdateRoute::Workshop,
        DaemonSourceKind::L4d2Center => UpdateRoute::L4d2Center,
        _ => UpdateRoute::Unsupported,
    }
}

/// The answer for a map whose source has no updates.
pub fn unsupported_update_response(current: DaemonMapEntry) -> (r: AdminUpdateCheckResponse)
    ensures
        r.status == UpdateStatus::Unsupported,
        r.message@ == "Updates are not supported for this addon source"@,
        r.map == Some(detail_spec(current)),
{
    AdminUpdateCheckResponse {
        status: UpdateStatus::Unsupported,
        message: owned("Updates are not supported for this addon source"),
        map: Some(detail_from_entry(current)),
    }
}

/// The answer for an update run: the new entry when updated, else the current one.
pub fn update_check_response(current: DaemonMapEntry, outcome: MapUpdateOutcome) -> (r: AdminUpdateCheckResponse)
    ensures
        match outcome {
            MapUpdateOutcome::Updated(e) => r.status == UpdateStatus::Updated && r.message@
                == "Addon was updated successfully"@ && r.map == Some(detail_spec(e)),
            MapUpdateOutcome::UpToDate => r.status == UpdateStatus::UpToDate && r.message@
                == "Addon is already up to date"@ && r.map == Some(detail_spec(current)),
            MapUpdateOutcome::Failed(msg) => r.status == UpdateStatus::Failed && r.message@ == msg@
                && r.map == Some(detail_spec(current)),
        },
{
    match outcome {
        MapUpdateOutcome::Updated(entry) => AdminUpdateCheckResponse {
            status: UpdateStatus::Updated,
            message: owned("Addon was updated successfully"),
            map: Some(detail_from_entry(entry)),
        },
        MapUpdateOutcome::UpToDate => AdminUpdateCheckResponse {
            status: UpdateStatus::UpToDate,
            message: owned("Addon is already up to date"),
            map: Some(detail_from_entry(current)),
        },
        MapUpdateOutcome::Failed(error) => AdminUpdateCheckResponse {
            status: UpdateStatus::Failed,
            message: error,
            map: Some(detail_from_entry(current)),
        },
    }
}

/// The maps to update: the one asked for, or every available update in order.
pub fn update_ids(map_id: Option<u64>, available: &[AdminMapUpdateItem]) -> (r: Vec<u64>)
    ensures
        match map_id {
            Some(id) => r@ == seq![id],
            None => r@ == available@.map_values(|i: AdminMapUpdateItem| i.map_id),
        },
{
    match map_id {
        Some(id) => {
            let mut v: Vec<u64> = Vec::new();
            v.push(id);
            assert(v@ =~= seq![id]);
            v
        },
        None => {
            let mut v: Vec<u64> = Vec::new();
            let mut i: usize = 0;
            while i < available.len()
                invariant
                    i <= available@.len(),
                    v@ == available@.take(i as int).map_values(|i: AdminMapUpdateItem| i.map_id),
                decreases available@.len() - i,
            {
                v.push(available[i].map_id);
                i = i + 1;
                assert(v@ =~= available@.take(i as int).map_values(|i: AdminMapUpdateItem| i.map_id));
            }
            assert(available@.take(available@.len() as int) =~= available@);
            v
        },
    }
}

/// Whether any result of an update run updated a map (the registry is then refreshed).
pub fn any_updated(results: &[AdminUpdateCheckResponse]) -> (r: bool)
    ensures
        r == exists|i: int| 0 <= i < results@.len() && #[trigger] results@[i].status == UpdateStatus::Updated,
{
    let mut i: usize = 0;
    while i < results.len()
        invariant
            i <= results@.len(),
            forall|j: int| 0 <= j < i ==> #[trigger] results@[j].status != UpdateStatus::Updated,
        decreases results@.len() - i,
    {
        if results[i].status == UpdateStatus::Updated {
            return true;
        }
        i = i + 1;
    }
    false
}

/// The daemon's pending registry changes: always none.
pub fn registry_updates() -> (r: UpdatesResponse)
    ensures
        r.updates@.len() == 0,
{
    UpdatesResponse { updates: Vec::new() }
}

} // verus!
