use kether_internal_services_server::config::{
    apply_reload, identity_unchanged, AdminConfig, BotConfig, ChatConfig, Config, ConfigFile, FileIdentity,
    QuietErr, ServerConfig, SteamConfig,
};

fn full_file() -> ConfigFile {
    let mut chat = ChatConfig::empty();
    chat.group_id = Some(1234);
    chat.chat_id = Some(5678);
    chat.commands_without_mention = Some(true);
    chat.plan_chat_id = Some(4321);
    chat.dedicated_plan_chat = Some(true);
    chat.plan_chat_keep_clean = Some(true);
    chat.plan_mention_user = Some(true);
    chat.poll_chat_id = Some(8765);
    chat.dedicated_poll_chat = Some(true);
    chat.poll_chat_remove_command_message = Some(true);
    chat.poll_mention_user = Some(true);
    chat.admin = Some(AdminConfig {
        admins: Some(vec![76561198000000003]),
        admins_same_as_frontend: Some(false),
        mute_max_minutes: Some(4320),
        ignore_muted_commands: Some(false),
    });
    let mut file = ConfigFile::empty();
    file.frontend_admins = Some(vec![76561198000000001, 76561198000000002]);
    file.server = Some(ServerConfig { ip: Some("127.0.0.1".to_string()), port: Some(27015) });
    file.server2 = Some(ServerConfig { ip: Some("127.0.0.2".to_string()), port: Some(27016) });
    file.steam = Some(SteamConfig {
        web_api_key: Some("key_123".to_string()),
        bot: Some(BotConfig { username: Some("bot_user".to_string()), password: Some("bot_pass".to_string()) }),
        chat: Some(chat),
    });
    file
}

fn full_config() -> Config {
    Config::from_config_file(full_file())
}

fn admins_config(admins: Option<Vec<i64>>, same_as_frontend: bool) -> Config {
    let mut chat = ChatConfig::empty();
    chat.admin = Some(AdminConfig {
        admins,
        admins_same_as_frontend: Some(same_as_frontend),
        mute_max_minutes: None,
        ignore_muted_commands: None,
    });
    let mut file = ConfigFile::empty();
    file.frontend_admins = Some(vec![76561198000000001]);
    file.steam = Some(SteamConfig { web_api_key: None, bot: None, chat: Some(chat) });
    Config::from_config_file(file)
}

#[test]
fn config_file_values_are_read() {
    let parsed = full_config();
    assert_eq!(parsed.frontend_admins.len(), 2);
    assert_eq!(parsed.steam_web_api_key, "key_123");
    assert_eq!(parsed.chat_group_id, 1234);
    assert_eq!(parsed.plan_chat_id, 4321);
    assert_eq!(parsed.steam_account, "bot_user");
    assert_eq!(parsed.steambot_admins, vec![76561198000000003]);
    assert!(!parsed.steambot_admins_same_as_frontend);
    assert_eq!(parsed.steambot_mute_max_minutes, 4320);
    assert_eq!(parsed.server2_port, 27016);
    assert!(parsed.steam_bot_commands_without_mention);
}

#[test]
fn config_defaults_for_missing_sections() {
    let mut file = ConfigFile::empty();
    file.frontend_admins = Some(vec![]);
    let parsed = Config::from_config_file(file);
    assert!(parsed.steam_web_api_key.is_empty());
    assert_eq!(parsed.server_port, 0);
    assert!(parsed.steambot_admins_same_as_frontend);
    assert_eq!(parsed.steambot_mute_max_minutes, 10080);
    assert!(parsed.steambot_ignore_muted_commands);
    assert_eq!(parsed.auth_session_ttl_hours, 168);
    assert_eq!(parsed.auth_frontend_url, "https://kether.pl");
}

#[test]
fn diff_classifies_live_and_restart_fields() {
    let old = full_config();
    let mut new = full_config();
    new.server_ip = "10.0.0.1".to_string();
    new.steam_password = "updated".to_string();
    new.plan_mention_user = false;
    let change = old.diff(&new);
    assert!(!change.unchanged);
    assert!(change.live_applied.contains(&"server.ip"));
    assert!(change.live_applied.contains(&"steam.chat.plan_mention_user"));
    assert!(change.requires_restart.contains(&"steam.bot.password"));
}

#[test]
fn effective_plan_chat_requires_enabled_and_chat_id() {
    let mut config = full_config();
    assert_eq!(config.effective_plan_chat(), Some((1234, 4321)));
    config.dedicated_plan_chat = false;
    assert_eq!(config.effective_plan_chat(), None);
    config.dedicated_plan_chat = true;
    config.plan_chat_id = 0;
    assert_eq!(config.effective_plan_chat(), None);
}

#[test]
fn plan_chat_clean_target_requires_enabled_and_chat_id() {
    let mut config = full_config();
    assert_eq!(config.plan_chat_clean_target(), Some((1234, 4321)));
    config.plan_chat_keep_clean = false;
    assert_eq!(config.plan_chat_clean_target(), None);
    config.plan_chat_keep_clean = true;
    config.plan_chat_id = 0;
    assert_eq!(config.plan_chat_clean_target(), None);
}

#[test]
fn effective_poll_chat_requires_enabled_and_chat_id() {
    let mut config = full_config();
    assert_eq!(config.effective_poll_chat(), Some((1234, 8765)));
    config.dedicated_poll_chat = false;
    assert_eq!(config.effective_poll_chat(), None);
    config.dedicated_poll_chat = true;
    config.poll_chat_id = 0;
    assert_eq!(config.effective_poll_chat(), None);
}

#[test]
fn diff_marks_unchanged_when_equal() {
    let old = full_config();
    let new = full_config();
    let change = old.diff(&new);
    assert!(change.unchanged);
    assert!(change.live_applied.is_empty());
    assert!(change.requires_restart.is_empty());
}

#[test]
fn is_steambot_admin_uses_frontend_when_same_as_frontend() {
    let mut config = admins_config(None, true);
    assert!(config.is_steambot_admin(76561198000000001));
    assert!(!config.is_steambot_admin(76561198000000099));
    config.steambot_admins = vec![76561198000000099];
    assert!(!config.is_steambot_admin(76561198000000099));
}

#[test]
fn is_steambot_admin_uses_steambot_admins_when_disabled() {
    let config = admins_config(Some(vec![76561198000000099]), false);
    assert!(!config.is_steambot_admin(76561198000000001));
    assert!(config.is_steambot_admin(76561198000000099));
}

#[test]
fn servers_by_id() {
    let config = full_config();
    assert_eq!(config.primary_server(), Some(("127.0.0.1", 27015)));
    assert_eq!(config.secondary_server(), Some(("127.0.0.2", 27016)));
    assert_eq!(config.server_by_id(1), Some(("127.0.0.1", 27015)));
    assert_eq!(config.server_by_id(2), Some(("127.0.0.2", 27016)));
    assert_eq!(config.server_by_id(3), None);
}

#[test]
fn session_max_age_and_cookie_domain() {
    let mut config = full_config();
    assert_eq!(config.auth_session_max_age_secs(), 168 * 3600);
    assert_eq!(config.auth_cookie_domain(), None);
    config.auth_cookie_domain = "  .kether.pl ".to_string();
    assert_eq!(config.auth_cookie_domain(), Some(".kether.pl"));
    config.auth_session_ttl_hours = u64::MAX;
    assert_eq!(config.auth_session_max_age_secs(), -3600);
}

#[test]
fn csrf_origins_default_to_frontend() {
    let config = full_config();
    let origins = config.auth_csrf_allowed_origins();
    assert!(origins.iter().any(|o| o == "https://kether.pl"));
}

#[test]
fn reload_inherits_secret_and_reports_changes() {
    let mut current = full_config();
    current.session_secret = "keep-me".to_string();
    let mut next = full_config();
    next.server_ip = "10.0.0.9".to_string();
    let change = apply_reload(&mut current, next);
    assert!(!change.unchanged);
    assert_eq!(current.server_ip, "10.0.0.9");
    assert_eq!(current.session_secret, "keep-me");
    let same = full_config();
    let mut current2 = full_config();
    current2.session_secret = "x".to_string();
    let change2 = apply_reload(&mut current2, same);
    assert!(change2.unchanged);
}

#[test]
fn prepared_config_gets_a_secret() {
    let mut config = full_config();
    config.prepare_for_runtime(None);
    assert_eq!(config.session_secret.len(), 64);
}

#[test]
fn file_identity_skips_reload() {
    let id = FileIdentity { modified_secs: 10, modified_nanos: 5, len: 100 };
    assert!(identity_unchanged(Some(id), id));
    assert!(!identity_unchanged(None, id));
    assert!(!identity_unchanged(Some(FileIdentity { len: 101, ..id }), id));
}

#[test]
fn quiet_error_shows_its_message() {
    assert_eq!(QuietErr(Some("boom".to_string())).message(), "boom");
    assert_eq!(QuietErr(None).message(), "");
}

#[test]
fn from_toml_str_uses_defaults_for_missing_sections() {
    let mut file = ConfigFile::empty();
    file.frontend_admins = Some(vec![]);
    let parsed = Config::from_config_file(file);
    assert_eq!(parsed.frontend_admins, Vec::<i64>::new());
    assert!(parsed.steam_web_api_key.is_empty());
    assert_eq!(parsed.server_port, 0);
    assert_eq!(parsed.server2_port, 0);
    assert_eq!(parsed.chat_group_id, 0);
    assert_eq!(parsed.chat_id, 0);
    assert_eq!(parsed.plan_chat_id, 0);
    assert!(!parsed.dedicated_plan_chat);
    assert!(!parsed.plan_chat_keep_clean);
    assert!(!parsed.plan_mention_user);
    assert_eq!(parsed.poll_chat_id, 0);
    assert!(!parsed.dedicated_poll_chat);
    assert!(!parsed.poll_chat_remove_command_message);
    assert!(!parsed.poll_mention_user);
    assert!(!parsed.steam_bot_commands_without_mention);
    assert!(parsed.steambot_admins.is_empty());
    assert!(parsed.steambot_admins_same_as_frontend);
    assert_eq!(parsed.steambot_mute_max_minutes, 10080);
    assert!(parsed.steambot_ignore_muted_commands);
}

#[test]
fn diff_lists_each_changed_key_once() {
    let old = full_config();
    let new = Config::from_config_file(ConfigFile::empty());
    let change = old.diff(&new);
    let mut all: Vec<&str> = change.live_applied.clone();
    all.extend(change.requires_restart.iter().copied());
    let mut sorted = all.clone();
    sorted.sort();
    sorted.dedup();
    assert_eq!(sorted.len(), all.len());
    assert_eq!(old.diff(&new).live_applied, new.diff(&old).live_applied);
    assert_eq!(old.diff(&new).requires_restart, new.diff(&old).requires_restart);
}
