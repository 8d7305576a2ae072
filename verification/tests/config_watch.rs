use kether_internal_services_server::config::{
    apply_reload, identity_unchanged, BotConfig, ChatConfig, Config, ConfigFile, FileIdentity, ServerConfig,
    SteamConfig,
};
use kether_internal_services_server::config_watch::{
    batch_needs_reload, event_mentions_config, is_substantive_config_event, AccessKind, AccessMode, EventKind,
    MetadataKind, ModifyKind, WatchEvent,
};

fn base_config(ip: &str, password: &str) -> Config {
    let mut chat = ChatConfig::empty();
    chat.group_id = Some(123);
    chat.chat_id = Some(456);
    chat.commands_without_mention = Some(false);
    let mut file = ConfigFile::empty();
    file.frontend_admins = Some(vec![76561198000000001]);
    file.server = Some(ServerConfig { ip: Some(ip.to_string()), port: Some(27015) });
    file.server2 = Some(ServerConfig { ip: Some("127.0.0.2".to_string()), port: Some(27016) });
    file.steam = Some(SteamConfig {
        web_api_key: Some("key1".to_string()),
        bot: Some(BotConfig { username: Some("botuser".to_string()), password: Some(password.to_string()) }),
        chat: Some(chat),
    });
    Config::from_config_file(file)
}

/// A configuration as loading it from disk gives it: parsed, then made ready to run.
fn loaded_config(ip: &str, password: &str) -> Config {
    let mut c = base_config(ip, password);
    c.prepare_for_runtime(None);
    c
}

fn event(kind: EventKind, path: &str) -> WatchEvent {
    WatchEvent { kind, paths: vec![path.to_string()] }
}

#[test]
fn apply_reload_updates_snapshot_and_returns_diff() {
    let mut current = loaded_config("127.0.0.1", "pw1");
    let change = apply_reload(&mut current, base_config("127.0.0.9", "pw1"));
    assert!(!change.unchanged);
    assert!(change.live_applied.contains(&"server.ip"));
    assert!(change.requires_restart.is_empty());
    assert_eq!(current.server_ip, "127.0.0.9");
}

#[test]
fn apply_reload_preserves_old_arc_snapshots() {
    let old_snapshot = loaded_config("127.0.0.1", "pw1");
    let mut current = old_snapshot.duplicate();
    let change = apply_reload(&mut current, base_config("127.0.0.2", "pw2"));
    assert!(change.live_applied.contains(&"server.ip"));
    assert!(change.requires_restart.contains(&"steam.bot.password"));
    assert_eq!(old_snapshot.server_ip, "127.0.0.1");
    assert_eq!(old_snapshot.steam_password, "pw1");
    assert_eq!(current.server_ip, "127.0.0.2");
    assert_eq!(current.steam_password, "pw2");
}

#[test]
fn apply_reload_skips_when_file_identity_unchanged() {
    let seeded = FileIdentity { modified_secs: 1700000000, modified_nanos: 42, len: 300 };
    let current = FileIdentity { modified_secs: 1700000000, modified_nanos: 42, len: 300 };
    assert!(identity_unchanged(Some(seeded), current));
}

#[test]
fn reload_of_identical_file_reports_unchanged() {
    let mut current = loaded_config("127.0.0.1", "pw1");
    let change = apply_reload(&mut current, base_config("127.0.0.1", "pw1"));
    assert!(change.unchanged);
    assert!(change.live_applied.is_empty());
}

#[test]
fn substantive_event_filter_ignores_open_and_close_read() {
    let config_path = "/tmp/config.toml";
    let open = event(EventKind::Access(AccessKind::Open(AccessMode::Read)), config_path);
    let close_read = event(EventKind::Access(AccessKind::Close(AccessMode::Read)), config_path);
    let modify = event(EventKind::Modify(ModifyKind::Data), config_path);
    assert!(!is_substantive_config_event(&open, "/tmp/config.toml"));
    assert!(!is_substantive_config_event(&close_read, "/tmp/config.toml"));
    assert!(is_substantive_config_event(&modify, "/tmp/config.toml"));
}

#[test]
fn substantive_kinds_reload() {
    let p = "/srv/app/config.toml";
    for kind in [
        EventKind::Modify(ModifyKind::Name),
        EventKind::Create,
        EventKind::Remove,
        EventKind::Access(AccessKind::Close(AccessMode::Write)),
        EventKind::Modify(ModifyKind::Metadata(MetadataKind::WriteTime)),
    ] {
        assert!(is_substantive_config_event(&event(kind, p), p));
    }
    for kind in [
        EventKind::Any,
        EventKind::Other,
        EventKind::Modify(ModifyKind::Metadata(MetadataKind::Permissions)),
        EventKind::Access(AccessKind::Read),
    ] {
        assert!(!is_substantive_config_event(&event(kind, p), p));
    }
}

#[test]
fn events_on_other_files_are_ignored() {
    let p = "/srv/app/config.toml";
    let other = event(EventKind::Modify(ModifyKind::Data), "/srv/app/binds.json");
    assert!(!event_mentions_config(&other, p));
    assert!(!is_substantive_config_event(&other, p));
    let renamed_into_place = event(EventKind::Create, "/srv/app/./config.toml");
    assert!(event_mentions_config(&renamed_into_place, p));
    let same_name_elsewhere = event(EventKind::Create, "/elsewhere/config.toml");
    assert!(event_mentions_config(&same_name_elsewhere, p));
}

#[test]
fn batch_reloads_when_any_event_is_substantive() {
    let p = "/srv/app/config.toml";
    let quiet = vec![
        event(EventKind::Access(AccessKind::Open(AccessMode::Read)), p),
        event(EventKind::Modify(ModifyKind::Data), "/srv/app/other.txt"),
    ];
    assert!(!batch_needs_reload(&quiet, p));
    let mut busy = quiet;
    busy.push(event(EventKind::Modify(ModifyKind::Data), p));
    assert!(batch_needs_reload(&busy, p));
    assert!(!batch_needs_reload(&Vec::new(), p));
}
