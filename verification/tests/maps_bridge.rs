use kether_internal_services_server::config::{Config, ConfigFile, ServerDaemonConfig};
use kether_internal_services_server::http::HttpStatus;
use kether_internal_services_server::maps_bridge::admin_install::{
    extract_workshop_id, resolve_install_target, resolved_mode_label, validate_optional_install_name,
    ResolveInstallError, ResolvedInstallTarget,
};
use kether_internal_services_server::maps_bridge::admin_manage::{
    classify_update_report, daemon_envelope_result, MapOperationFailure, MapUpdateOutcome,
};
use kether_internal_services_server::maps_bridge::daemon_client::{daemon_bearer_token, daemon_endpoint};
use kether_internal_services_server::maps_bridge::l4d2center_index::{find_l4d2center_entry, L4d2CenterIndexEntry};
use kether_internal_services_server::maps_bridge::mapping::daemon_entry_to_website;
use kether_internal_services_server::maps_bridge::models::{
    daemon_source_to_website, workshop_download_url, DaemonMapEntry, DaemonSourceKind, MapSuggestion,
    MapSuggestionSourceKind, MapsDataSource, Timestamp,
};
use kether_internal_services_server::maps_bridge::registry_store::RegistryFile;
use kether_internal_services_server::maps_bridge::state::{admin_install_error_status, admin_proxy_error, MapsBridgeState};
use kether_internal_services_server::maps_bridge::suggestion_conflicts::{
    check_installed_conflict, conflict_to_view, normalize_map_stem, ConflictCheck,
};
use kether_internal_services_server::maps_bridge::suggestions::{deny_map_suggestion, record_suggestion};
use kether_internal_services_server::maps_bridge::suggestions_store::SuggestionsStore;
use kether_internal_services_server::maps_bridge::workshop_previews::{
    apply_fetched_previews, build_steam_request_body, needs_refresh, parse_preview_urls_from_response, plan_preview_refresh,
    preview_cache_path_from_registry, steam_request_bodies, PreviewCacheEntry, PublishedFileDetails,
    WorkshopPreviewCache,
};

fn ts(secs: i64) -> Timestamp {
    Timestamp { secs, nanos: 0 }
}

fn entry(id: u64, name: &str, kind: DaemonSourceKind, path: &str, workshop_id: Option<u64>) -> DaemonMapEntry {
    DaemonMapEntry {
        id,
        name: name.to_string(),
        source_url: String::new(),
        source_kind: kind,
        workshop_id,
        installed_path: path.to_string(),
        installed_at: ts(1_700_000_000),
        workshop_updated_at: None,
        version: None,
        checksum: None,
        checksum_kind: None,
    }
}

fn suggestion(kind: MapSuggestionSourceKind, workshop_id: Option<u64>, name: Option<&str>, title: &str) -> MapSuggestion {
    MapSuggestion {
        id: 0,
        source_kind: kind,
        workshop_id,
        l4d2center_name: name.map(|n| n.to_string()),
        title: title.to_string(),
        preview_url: None,
        download_link: None,
        size_bytes: None,
        proposed_by: "1".to_string(),
        proposed_at: ts(1_700_000_000),
    }
}

#[test]
fn resolve_auto_workshop_id() {
    let target = resolve_install_target("auto", "381419931").ok().unwrap();
    assert!(matches!(target, ResolvedInstallTarget::Workshop { workshop_id: 381419931 }));
}

#[test]
fn resolve_auto_steam_url() {
    let target = resolve_install_target("auto", "https://steamcommunity.com/sharedfiles/filedetails/?id=381419931")
        .ok()
        .unwrap();
    assert!(matches!(target, ResolvedInstallTarget::Workshop { workshop_id: 381419931 }));
}

#[test]
fn resolve_auto_download_url() {
    let target = resolve_install_target("auto", "https://sirplease.vercel.app/downloads/maps/map.zip").ok().unwrap();
    assert!(matches!(target, ResolvedInstallTarget::Url { .. }));
}

#[test]
fn resolve_workshop_mode_rejects_plain_url() {
    let err = resolve_install_target("workshop", "https://example.com/map.zip").err().unwrap();
    assert!(matches!(err, ResolveInstallError::InvalidInput(_)));
}

#[test]
fn resolve_l4d2center_mode() {
    let target = resolve_install_target("l4d2center", "Wide Box").ok().unwrap();
    match target {
        ResolvedInstallTarget::L4d2Center { name } => assert_eq!(name, "Wide Box"),
        _ => panic!("expected an L4D2Center target"),
    }
}

#[test]
fn resolve_invalid_mode() {
    let err = resolve_install_target("unknown", "123").err().unwrap();
    assert!(matches!(err, ResolveInstallError::InvalidMode(_)));
}

#[test]
fn resolve_errors_and_labels() {
    let err = resolve_install_target(" AUTO ", "   ").err().unwrap();
    assert_eq!(err.message(), "Install input is required");
    let err = resolve_install_target("Bogus", "1").err().unwrap();
    assert_eq!(err.message(), "Invalid install mode 'bogus'");
    let err = resolve_install_target("auto", "not a url").err().unwrap();
    assert!(err.message().starts_with("Could not detect install source"));
    let long = format!("https://example.com/{}", "a".repeat(2100));
    let err = resolve_install_target("sirplease", &long).err().unwrap();
    assert_eq!(err.message(), "URL too long (max 2048 characters)");
    let target = resolve_install_target("SirPlease", " https://x.example/m.zip ").ok().unwrap();
    assert_eq!(resolved_mode_label(&target), "url");
    match target {
        ResolvedInstallTarget::Url { url } => assert_eq!(url, "https://x.example/m.zip"),
        _ => panic!("expected a URL target"),
    }
}

#[test]
fn workshop_ids_from_inputs() {
    assert_eq!(extract_workshop_id("  123 "), Some(123));
    assert_eq!(extract_workshop_id(""), None);
    assert_eq!(extract_workshop_id("https://steamcommunity.com/sharedfiles/filedetails/?foo=1&ID=77#x"), Some(77));
    assert_eq!(extract_workshop_id("https://example.com/?id=5"), None);
    assert_eq!(extract_workshop_id("https://steamcommunity.com/?id=abc&id=9"), Some(9));
}

#[test]
fn install_names_are_trimmed_and_bounded() {
    assert_eq!(validate_optional_install_name(&None), Ok(None));
    assert_eq!(validate_optional_install_name(&Some("  ".to_string())), Ok(None));
    assert_eq!(validate_optional_install_name(&Some(" Map ".to_string())), Ok(Some("Map".to_string())));
    assert!(validate_optional_install_name(&Some("x".repeat(256))).is_err());
}

#[test]
fn find_by_stem() {
    let entries = vec![L4d2CenterIndexEntry {
        name: "widebox1.vpk".to_string(),
        size: 10,
        md5: "abc".to_string(),
        download_link: "https://example.com/widebox1.7z".to_string(),
    }];
    assert_eq!(find_l4d2center_entry(&entries, "WideBox1").unwrap().name, "widebox1.vpk");
    assert!(find_l4d2center_entry(&entries, "  ").is_none());
    assert!(find_l4d2center_entry(&entries, "other").is_none());
}

#[test]
fn maps_workshop_id_to_download_url_when_source_url_empty() {
    let e = entry(1, "Test", DaemonSourceKind::Workshop, "test.vpk", Some(381419931));
    let cache = WorkshopPreviewCache::new();
    let mapped = daemon_entry_to_website(&e, &cache);
    assert_eq!(
        mapped.downloadUrl.as_deref(),
        Some("https://steamcommunity.com/sharedfiles/filedetails/?id=381419931")
    );
    assert!(mapped.previewUrl.is_none());
}

#[test]
fn workshop_entry_uses_cached_preview_url() {
    let e = entry(1, "Test", DaemonSourceKind::Workshop, "test.vpk", Some(381419931));
    let mut cache = WorkshopPreviewCache::new();
    cache.insert(
        381419931,
        PreviewCacheEntry {
            preview_url: "https://images.steamusercontent.com/ugc/test/".to_string(),
            workshop_updated_at: None,
            fetched_at: ts(1),
        },
    );
    let mapped = daemon_entry_to_website(&e, &cache);
    assert_eq!(mapped.previewUrl.as_deref(), Some("https://images.steamusercontent.com/ugc/test/"));
}

#[test]
fn non_workshop_entry_has_no_preview_url() {
    let mut e = entry(1, "SirPlease", DaemonSourceKind::SirPlease, "map.vpk", None);
    e.source_url = "https://example.com/map.zip".to_string();
    let mut cache = WorkshopPreviewCache::new();
    cache.insert(
        123,
        PreviewCacheEntry {
            preview_url: "https://images.steamusercontent.com/ugc/test/".to_string(),
            workshop_updated_at: None,
            fetched_at: ts(1),
        },
    );
    let mapped = daemon_entry_to_website(&e, &cache);
    assert!(mapped.previewUrl.is_none());
    assert_eq!(mapped.downloadUrl.as_deref(), Some("https://example.com/map.zip"));
    assert_eq!(mapped.source, "SirPlease");
}

#[test]
fn verify_sync_token_accepts_bearer() {
    let mut file = ConfigFile::empty();
    file.frontend_admins = Some(vec![]);
    let mut daemon = ServerDaemonConfig::empty();
    daemon.sync_api_key = Some("test-secret".to_string());
    file.server_daemon = Some(daemon);
    let config = Config::from_config_file(file);
    let bridge = MapsBridgeState::from_config(&config, "/tmp/base");
    assert_eq!(bridge.sync_api_key.as_deref(), Some("test-secret"));
    assert!(bridge.verify_sync_token(&config, Some("Bearer test-secret")));
    assert!(!bridge.verify_sync_token(&config, Some("Bearer wrong")));
    assert!(!bridge.verify_sync_token(&config, None));
}

#[test]
fn workshop_same_source_conflict() {
    let maps = vec![entry(1, "foo", DaemonSourceKind::Workshop, "foo.vpk", Some(99))];
    let s = suggestion(MapSuggestionSourceKind::Workshop, Some(99), None, "Foo");
    assert!(matches!(check_installed_conflict(&s, &maps), ConflictCheck::SameSource { .. }));
}

#[test]
fn workshop_other_source_by_title() {
    let maps = vec![entry(2, "dark carnival", DaemonSourceKind::L4d2Center, "dark_carnival.vpk", None)];
    let s = suggestion(MapSuggestionSourceKind::Workshop, Some(1), None, "Dark Carnival");
    let check = check_installed_conflict(&s, &maps);
    assert!(matches!(check, ConflictCheck::OtherSource { .. }));
    let view = conflict_to_view(&check).unwrap();
    assert_eq!(view.kind, "other_source");
    assert_eq!(view.installed_map_id, 2);
    assert_eq!(view.installed_source, "L4D2Center");
}

#[test]
fn l4d2center_other_source_by_path() {
    let maps = vec![entry(3, "widebox", DaemonSourceKind::Workshop, "widebox1.vpk", Some(5))];
    let s = suggestion(MapSuggestionSourceKind::L4d2Center, None, Some("widebox1.vpk"), "widebox1.vpk");
    assert!(matches!(check_installed_conflict(&s, &maps), ConflictCheck::OtherSource { .. }));
}

#[test]
fn map_stems_normalise_titles() {
    assert_eq!(normalize_map_stem("  Dark Carnival!.vpk "), "dark_carnival");
    assert_eq!(normalize_map_stem("c1m1_hotel.VPK.vpk"), "c1m1_hotel");
}

#[test]
fn create_list_delete_roundtrip() {
    let mut store = SuggestionsStore::new("/tmp/map_suggestions.json".to_string());
    let s = suggestion(MapSuggestionSourceKind::Workshop, Some(123), None, "Test");
    let created = store.create(s);
    assert_eq!(created.id, 1);
    assert_eq!(store.list().len(), 1);
    assert!(store.delete(1));
    assert!(store.list().is_empty());
}

#[test]
fn suggestions_list_newest_first_and_deny() {
    let mut store = SuggestionsStore::new("/tmp/s.json".to_string());
    let mut older = suggestion(MapSuggestionSourceKind::Workshop, Some(1), None, "Older");
    older.proposed_at = ts(100);
    let mut newer = suggestion(MapSuggestionSourceKind::Workshop, Some(2), None, "Newer");
    newer.proposed_at = ts(200);
    let maps: Vec<DaemonMapEntry> = vec![];
    record_suggestion(&mut store, older, &maps);
    record_suggestion(&mut store, newer, &maps);
    let listed = store.list();
    assert_eq!(listed[0].title, "Newer");
    assert_eq!(listed[1].title, "Older");
    assert_eq!(store.get(1).unwrap().title, "Older");
    assert!(store.find_duplicate(Some(2), None).is_some());
    assert!(store.find_duplicate(Some(3), None).is_none());
    assert_eq!(deny_map_suggestion(&mut store, 1), Ok(()));
    assert_eq!(
        deny_map_suggestion(&mut store, 1),
        Err((HttpStatus::NotFound, "Suggestion #1 not found".to_string()))
    );
}

#[test]
fn parse_preview_urls_skips_failed_results() {
    let items = vec![
        PublishedFileDetails {
            publishedfileid: "381419931".to_string(),
            result: 1,
            preview_url: Some(
                "https://images.steamusercontent.com/ugc/539639065356290110/D4A3FD2E6B8D9260D57E320155B43C0F4C1B65BF/"
                    .to_string(),
            ),
        },
        PublishedFileDetails { publishedfileid: "999999999999".to_string(), result: 9, preview_url: None },
    ];
    let previews = parse_preview_urls_from_response(&items);
    assert_eq!(previews.len(), 1);
    assert_eq!(previews[0].0, 381419931);
    assert!(previews[0].1.contains("images.steamusercontent.com"));
}

#[test]
fn build_steam_request_body_includes_key_when_present() {
    let body = build_steam_request_body(&[381419931, 1643520526], Some("test-key"));
    assert!(body.contains("itemcount=2"));
    assert!(body.contains("publishedfileids[0]=381419931"));
    assert!(body.contains("publishedfileids[1]=1643520526"));
    assert!(body.contains("key=test-key"));
}

#[test]
fn build_steam_request_body_omits_empty_key() {
    let body = build_steam_request_body(&[381419931], Some("  "));
    assert!(!body.contains("key="));
}

#[test]
fn steam_requests_are_batched_by_100() {
    let ids: Vec<u64> = (1..=101).collect();
    let bodies = steam_request_bodies(&ids, None);
    assert_eq!(bodies.len(), 2);
    assert!(bodies[0].starts_with("itemcount=100&"));
    assert_eq!(bodies[1], "itemcount=1&publishedfileids[0]=101");
}

#[test]
fn needs_refresh_when_missing_or_timestamp_changed() {
    let cache = WorkshopPreviewCache::new();
    assert!(needs_refresh(&cache, 381419931, None));
    let mut cache_with_entry = WorkshopPreviewCache::new();
    cache_with_entry.insert(
        381419931,
        PreviewCacheEntry { preview_url: "https://example.com/preview.jpg".to_string(), workshop_updated_at: None, fetched_at: ts(1) },
    );
    assert!(!needs_refresh(&cache_with_entry, 381419931, None));
    assert!(needs_refresh(&cache_with_entry, 381419931, Some(ts(1_700_000_000))));
}

#[test]
fn preview_refresh_prunes_orphans() {
    let mut cache = WorkshopPreviewCache::new();
    cache.insert(999_888_777, PreviewCacheEntry { preview_url: "https://example.com/o.jpg".to_string(), workshop_updated_at: None, fetched_at: ts(1) });
    let maps = vec![entry(1, "W", DaemonSourceKind::Workshop, "w.vpk", Some(381419931))];
    let to_fetch = plan_preview_refresh(&mut cache, &maps);
    assert_eq!(to_fetch, vec![381419931]);
    assert_eq!(cache.len(), 0);
}

#[test]
fn preview_cache_path_derived_from_registry_path() {
    assert_eq!(preview_cache_path_from_registry("/data/maps_registry.json"), "/data/workshop_previews.json");
}

#[test]
fn update_reports_are_classified() {
    let e = entry(9, "T", DaemonSourceKind::Workshop, "t.vpk", Some(1));
    assert!(matches!(
        classify_update_report(9, vec![e], 0, vec![], 0, "workshop"),
        MapUpdateOutcome::Updated(x) if x.id == 9
    ));
    assert!(matches!(classify_update_report(11, vec![], 1, vec![], 0, "L4D2Center"), MapUpdateOutcome::UpToDate));
    match classify_update_report(11, vec![], 0, vec![], 1, "L4D2Center") {
        MapUpdateOutcome::Failed(m) => assert_eq!(m, "Map is not a L4D2Center addon"),
        _ => panic!("expected a failure"),
    }
    let failures = vec![MapOperationFailure { map_id: 3, error: "disk full".to_string() }];
    match classify_update_report(11, vec![], 0, failures, 0, "workshop") {
        MapUpdateOutcome::Failed(m) => assert_eq!(m, "disk full"),
        _ => panic!("expected a failure"),
    }
}

#[test]
fn daemon_requests_and_errors() {
    assert_eq!(daemon_endpoint("http://d:8080//", "/api/maps"), "http://d:8080/api/maps");
    assert_eq!(daemon_bearer_token(Some("  k ")), Some("k".to_string()));
    assert_eq!(daemon_bearer_token(Some("  ")), None);
    assert_eq!(daemon_envelope_result(true, "200 OK", true, Some(5u64), None), Ok(5));
    assert_eq!(
        daemon_envelope_result::<u64>(false, "502 Bad Gateway", false, None, None),
        Err("Daemon returned HTTP 502 Bad Gateway".to_string())
    );
    assert_eq!(admin_install_error_status("Daemon URL not configured"), HttpStatus::BadGateway);
    assert_eq!(admin_install_error_status("Install input is required"), HttpStatus::BadRequest);
    assert_eq!(admin_proxy_error("Map Not Found".to_string()).0, HttpStatus::NotFound);
    assert_eq!(daemon_source_to_website(DaemonSourceKind::L4d2Center), "L4D2Center");
    assert_eq!(workshop_download_url(5), "https://steamcommunity.com/sharedfiles/filedetails/?id=5");
}

#[test]
fn maps_list_staleness() {
    let mut file = ConfigFile::empty();
    file.frontend_admins = Some(vec![]);
    let mut daemon = ServerDaemonConfig::empty();
    daemon.stale_after_secs = Some(60);
    file.server_daemon = Some(daemon);
    let config = Config::from_config_file(file);
    let bridge = MapsBridgeState::from_config(&config, "/data");
    let cache = WorkshopPreviewCache::new();
    let empty = RegistryFile::empty();
    let r = bridge.maps_list_response(&empty, false, &cache, ts(0));
    assert!(r.maps.is_empty() && r.stale && r.source == MapsDataSource::RegistryStale);
    let reg = RegistryFile { last_synced_at: Some(ts(1000)), maps: vec![entry(1, "Live Map", DaemonSourceKind::Other, "live.vpk", None)] };
    let fresh = bridge.maps_list_response(&reg, false, &cache, ts(1060));
    assert!(!fresh.stale);
    assert_eq!(fresh.source, MapsDataSource::Registry);
    assert_eq!(fresh.maps[0].mapName, "Live Map");
    let stale = bridge.maps_list_response(&reg, false, &cache, ts(1061));
    assert!(stale.stale);
    assert!(!bridge.maps_list_response(&reg, true, &cache, ts(5000)).stale);
}

#[test]
fn fetched_previews_are_not_fetched_again() {
    let mut cache = WorkshopPreviewCache::new();
    let mut a = entry(1, "A", DaemonSourceKind::Workshop, "a.vpk", Some(111));
    a.workshop_updated_at = Some(ts(1_700_000_500));
    let maps = vec![a, entry(2, "B", DaemonSourceKind::Workshop, "b.vpk", Some(222)), entry(3, "C", DaemonSourceKind::Other, "c.vpk", None)];
    let first = plan_preview_refresh(&mut cache, &maps);
    assert_eq!(first, vec![111, 222]);
    let fetched = vec![(111, "https://example.com/a.jpg".to_string()), (222, "https://example.com/b.jpg".to_string())];
    apply_fetched_previews(&mut cache, &maps, &fetched, ts(1_700_001_000));
    assert_eq!(cache.preview_url(111), Some("https://example.com/a.jpg"));
    let second = plan_preview_refresh(&mut cache, &maps);
    assert!(second.is_empty());
}

fn bridge_with(registry_path: &str, daemon_url: &str, stale_after_secs: Option<u64>) -> MapsBridgeState {
    let mut file = ConfigFile::empty();
    file.frontend_admins = Some(vec![]);
    let mut daemon = ServerDaemonConfig::empty();
    daemon.registry_path = Some(registry_path.to_string());
    daemon.daemon_url = Some(daemon_url.to_string());
    daemon.stale_after_secs = stale_after_secs;
    file.server_daemon = Some(daemon);
    MapsBridgeState::from_config(&Config::from_config_file(file), "/data")
}

#[test]
fn build_maps_response_returns_empty_when_registry_missing() {
    let bridge = bridge_with("/data/maps_registry.json", "", None);
    let registry = RegistryFile::empty();
    assert!(bridge.needs_registry_refresh(&registry, ts(1_700_000_000)));
    let fetched = bridge.require_daemon().map(|_| Vec::new());
    assert_eq!(fetched.as_ref().err().map(|e| e.as_str()), Some("Daemon URL not configured"));
    assert!(MapsBridgeState::registry_after_fetch(registry, fetched, ts(1_700_000_000)).is_none());
    let response = MapsBridgeState::empty_stale_response();
    assert!(response.maps.is_empty());
    assert!(response.stale);
    assert_eq!(response.source, MapsDataSource::RegistryStale);
}

#[test]
fn build_maps_response_serves_synced_registry() {
    let bridge = bridge_with("/data/maps_registry.json", "", Some(0));
    let registry = RegistryFile {
        last_synced_at: Some(ts(1_700_000_000)),
        maps: vec![entry(1, "Live Map", DaemonSourceKind::Other, "live.vpk", None)],
    };
    assert!(!bridge.needs_registry_refresh(&registry, ts(1_800_000_000)));
    let response = bridge.maps_list_response(&registry, false, &WorkshopPreviewCache::new(), ts(1_800_000_000));
    assert_eq!(response.maps.len(), 1);
    assert_eq!(response.maps[0].mapName, "Live Map");
    assert!(!response.stale);
    assert_eq!(response.source, MapsDataSource::Registry);
}

#[test]
fn build_maps_response_serves_workshop_preview_from_cache() {
    let bridge = bridge_with("/data/maps_registry.json", "", Some(0));
    let registry = RegistryFile {
        last_synced_at: Some(ts(1_700_000_000)),
        maps: vec![entry(1, "2 Evil Eyes", DaemonSourceKind::Workshop, "2evileyes.vpk", Some(381419931))],
    };
    let mut cache = WorkshopPreviewCache::new();
    cache.insert(
        381419931,
        PreviewCacheEntry {
            preview_url: "https://images.steamusercontent.com/ugc/test-preview/".to_string(),
            workshop_updated_at: None,
            fetched_at: ts(1_700_000_000),
        },
    );
    let response = bridge.maps_list_response(&registry, false, &cache, ts(1_700_000_100));
    assert_eq!(response.maps.len(), 1);
    assert_eq!(response.maps[0].previewUrl.as_deref(), Some("https://images.steamusercontent.com/ugc/test-preview/"));
}

#[test]
fn created_suggestion_is_listed_and_refused_again() {
    let mut store = SuggestionsStore::new("/tmp/dup.json".to_string());
    let first = store.create(suggestion(MapSuggestionSourceKind::Workshop, Some(123), None, "Test"));
    assert_eq!(first.id, 1);
    assert_eq!(store.list().len(), 1);
    assert_eq!(store.find_duplicate(Some(123), None).map(|s| s.id), Some(1));
    let second = store.create(suggestion(MapSuggestionSourceKind::Workshop, Some(456), None, "Other"));
    assert_eq!(second.id, 2);
    assert!(store.delete(1));
    assert!(store.find_duplicate(Some(123), None).is_none());
    let third = store.create(suggestion(MapSuggestionSourceKind::Workshop, Some(789), None, "Third"));
    assert_eq!(third.id, 3);
    assert_eq!(store.list().len(), 2);
}
