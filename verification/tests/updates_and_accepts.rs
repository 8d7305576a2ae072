use kether_internal_services_server::config::{reload_config, Config, ConfigFile, FileIdentity};
use kether_internal_services_server::http::HttpStatus;
use kether_internal_services_server::json_api::binds::update_bind;
use kether_internal_services_server::json_api::commands::update_command_by_id;
use kether_internal_services_server::json_api::models::{Bind, BindSuggestion, Command};
use kether_internal_services_server::json_api::suggestions::update_bind_suggestion;
use kether_internal_services_server::json_storage::{BindData, BindSuggestionData, CommandData, JsonDatabase};
use kether_internal_services_server::maps_bridge::admin_install::extract_workshop_id;
use kether_internal_services_server::maps_bridge::models::{
    workshop_download_url, DaemonMapEntry, DaemonSourceKind, MapSuggestion, MapSuggestionSourceKind, Timestamp,
};
use kether_internal_services_server::maps_bridge::suggestion_conflicts::normalize_map_stem;
use kether_internal_services_server::maps_bridge::suggestions::{accept_plan, suggestion_target, AcceptInstall};
use kether_internal_services_server::maps_bridge::suggestions_store::SuggestionsStore;
use kether_internal_services_server::repl::{interpret_input, ReplAction};

fn ts(secs: i64) -> Timestamp {
    Timestamp { secs, nanos: 0 }
}

fn workshop_suggestion(workshop_id: Option<u64>, title: &str) -> MapSuggestion {
    MapSuggestion {
        id: 0,
        source_kind: MapSuggestionSourceKind::Workshop,
        workshop_id,
        l4d2center_name: None,
        title: title.to_string(),
        preview_url: None,
        download_link: None,
        size_bytes: None,
        proposed_by: "1".to_string(),
        proposed_at: ts(100),
    }
}

fn installed_workshop(id: u64, name: &str, workshop_id: u64) -> DaemonMapEntry {
    DaemonMapEntry {
        id,
        name: name.to_string(),
        source_url: String::new(),
        source_kind: DaemonSourceKind::Workshop,
        workshop_id: Some(workshop_id),
        installed_path: format!("/maps/{}.vpk", name),
        installed_at: ts(1_700_000_000),
        workshop_updated_at: None,
        version: None,
        checksum: None,
        checksum_kind: None,
    }
}

#[test]
fn console_lists_chat_groups() {
    assert!(interpret_input("chats") == ReplAction::ListChats);
    assert!(interpret_input(" g ") == ReplAction::ListChats);
    assert!(interpret_input("G") == ReplAction::ListChats);
    assert!(interpret_input("groups") == ReplAction::ListChats);
    assert!(interpret_input("chat") == ReplAction::Unknown);
}

#[test]
fn rejected_suggestion_target_carries_the_resolve_message() {
    let r = suggestion_target("workshop", "not-an-id");
    assert_eq!(r.err(), Some((HttpStatus::BadRequest, "Expected a workshop ID or Steam Workshop URL".to_string())));
    let r = suggestion_target("bogus", "123");
    assert_eq!(r.err(), Some((HttpStatus::BadRequest, "Invalid install mode 'bogus'".to_string())));
}

#[test]
fn accepting_a_suggestion_plans_its_install() {
    let mut store = SuggestionsStore::new("/tmp/accept.json".to_string());
    store.create(workshop_suggestion(Some(381419931), "Dark Carnival"));
    store.create(workshop_suggestion(None, "Broken"));
    let maps: Vec<DaemonMapEntry> = vec![];
    match accept_plan("http://daemon", &store, 1, &maps) {
        Ok(AcceptInstall::Workshop { workshop_id, title }) => {
            assert_eq!(workshop_id, 381419931);
            assert_eq!(title, "Dark Carnival");
        }
        _ => panic!("expected a workshop install"),
    }
    let missing_key = accept_plan("http://daemon", &store, 2, &maps).err();
    assert_eq!(missing_key, Some((HttpStatus::InternalServerError, "Suggestion missing workshop_id".to_string())));
    let installed = vec![installed_workshop(5, "carnival", 381419931)];
    let conflict = accept_plan("http://daemon", &store, 1, &installed).err();
    assert_eq!(conflict, Some((HttpStatus::Conflict, "Map already installed as 'carnival' (#5)".to_string())));
    let not_configured = accept_plan("  ", &store, 1, &maps).err();
    assert_eq!(not_configured, Some((HttpStatus::BadGateway, "Daemon URL not configured".to_string())));
}

#[test]
fn updates_replace_fields_or_refuse_taken_text() {
    let mut db = JsonDatabase::new();
    db.load_bind("1".to_string(), BindData { author: "a".to_string(), text: "one".to_string(), upvote: vec![], downvote: vec![] });
    db.load_bind("2".to_string(), BindData { author: "b".to_string(), text: "two".to_string(), upvote: vec![], downvote: vec![] });
    let taken = update_bind(&mut db, Bind { id: 1, author: "a".to_string(), text: "two".to_string(), upvote: vec![], downvote: vec![] });
    assert_eq!(taken.err(), Some(HttpStatus::Conflict));
    let updated = update_bind(&mut db, Bind { id: 1, author: "c".to_string(), text: "uno".to_string(), upvote: vec![7], downvote: vec![] })
        .ok()
        .unwrap();
    assert_eq!(updated.author, "c");
    assert_eq!(db.get_bind(1).ok().unwrap().text, "uno");
    assert_eq!(db.get_bind(1).ok().unwrap().upvote, vec![7]);

    db.load_command("3".to_string(), CommandData { command: "!x".to_string(), description: "d".to_string() });
    let c = update_command_by_id(&mut db, 3, Command { id: 0, command: "!y".to_string(), description: "e".to_string() })
        .ok()
        .unwrap();
    assert_eq!(c.id, 3);
    assert_eq!(c.command, "!y");

    db.load_bind_suggestion("4".to_string(), BindSuggestionData { author: "p".to_string(), text: "s".to_string(), proposed_by: "9".to_string() });
    let s = update_bind_suggestion(&mut db, BindSuggestion { id: 4, author: "q".to_string(), text: "t".to_string(), proposed_by: "9".to_string() })
        .ok()
        .unwrap();
    assert_eq!(s.text, "t");
    let missing = update_bind_suggestion(&mut db, BindSuggestion { id: 5, author: "q".to_string(), text: "u".to_string(), proposed_by: "9".to_string() });
    assert_eq!(missing.err(), Some(HttpStatus::NotFound));
}

#[test]
fn workshop_urls_read_back_as_their_id() {
    for id in [0u64, 7, 381419931, u64::MAX] {
        assert_eq!(extract_workshop_id(&workshop_download_url(id)), Some(id));
    }
}

#[test]
fn normalised_stems_are_stable() {
    for raw in ["Dark Carnival", "  widebox1.vpk ", "C1M1_Hotel.VPK.vpk", "a b-c.d"] {
        let once = normalize_map_stem(raw);
        assert_eq!(normalize_map_stem(&once), once);
    }
    assert_eq!(normalize_map_stem("Dark Carnival"), "dark_carnival");
}

#[test]
fn reload_skips_refuses_or_applies() {
    let base = Config::from_config_file(ConfigFile::empty());
    let id = FileIdentity { modified_secs: 1, modified_nanos: 0, len: 10 };
    let mut current = Config::from_config_file(ConfigFile::empty());
    current.session_secret = "keep".to_string();
    let skipped = reload_config(&mut current, Some(id), id, Err("ignored".to_string())).ok().unwrap();
    assert!(skipped.unchanged);
    let refused = reload_config(&mut current, None, id, Err("bad toml".to_string()));
    assert_eq!(refused.err(), Some("Failed to reload config: bad toml".to_string()));
    assert_eq!(current.session_secret, "keep");
    let mut next = base;
    next.server_ip = "10.1.1.1".to_string();
    let applied = reload_config(&mut current, None, id, Ok(next)).ok().unwrap();
    assert!(!applied.unchanged);
    assert!(applied.live_applied.contains(&"server.ip"));
    assert_eq!(current.server_ip, "10.1.1.1");
    assert_eq!(current.session_secret, "keep");
}
