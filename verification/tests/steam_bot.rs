use kether_internal_services_server::config::{BotConfig, ChatConfig, Config, ConfigFile, SteamConfig};
use kether_internal_services_server::steam_bot::{
    after_reconnect_attempt, bot, calculate_backoff_delay, config, is_connection_error, probe_is_healthy,
    service_mode, set_bot, set_config, set_config_if_absent, should_retry_send, ConnectionState, ProbeOutcome,
    ReconnectStep, ServiceMode, SteamBot, WriteOnce,
};

fn config_with(user: &str, password: &str, group: u64, chat: u64) -> Config {
    let mut c = ChatConfig::empty();
    c.group_id = Some(group);
    c.chat_id = Some(chat);
    let mut file = ConfigFile::empty();
    file.steam = Some(SteamConfig {
        web_api_key: None,
        bot: Some(BotConfig { username: Some(user.to_string()), password: Some(password.to_string()) }),
        chat: Some(c),
    });
    Config::from_config_file(file)
}

#[test]
fn backoff_doubles_up_to_a_minute() {
    assert_eq!(calculate_backoff_delay(0), 1);
    assert_eq!(calculate_backoff_delay(1), 1);
    assert_eq!(calculate_backoff_delay(2), 2);
    assert_eq!(calculate_backoff_delay(3), 4);
    assert_eq!(calculate_backoff_delay(6), 32);
    assert_eq!(calculate_backoff_delay(7), 60);
    assert_eq!(calculate_backoff_delay(64), 60);
}

#[test]
fn connection_errors_are_recognised() {
    assert!(is_connection_error("broken pipe"));
    assert!(is_connection_error("network unreachable"));
    assert!(is_connection_error("io error: reset"));
    assert!(!is_connection_error("invalid chat id"));
    assert!(should_retry_send("Connection Reset By Peer"));
    assert!(!should_retry_send("Access Denied"));
}

#[test]
fn login_needs_credentials() {
    let mut b = SteamBot::new();
    let missing = config_with("", "pw", 1, 2);
    assert_eq!(b.begin_login(&missing), Err("Steam credentials are not configured in config.toml".to_string()));
    assert_eq!(b.connection_state, ConnectionState::Disconnected);
    let good = config_with("bot", "pw", 1, 2);
    assert_eq!(b.begin_login(&good), Ok(()));
    assert_eq!(b.connection_state, ConnectionState::Connecting);
    b.login_succeeded();
    assert_eq!(b.get_connection_state(), ConnectionState::Connected);
    assert!(b.require_session().is_ok());
}

#[test]
fn reconnection_counts_attempts_and_resets_on_success() {
    let mut b = SteamBot::new();
    b.login_succeeded();
    assert_eq!(b.begin_reconnect(), 1);
    assert_eq!(b.get_reconnect_attempts(), 1);
    assert_eq!(b.require_session(), Err("SteamBot not fully initialized. Please login first.".to_string()));
    assert_eq!(b.finish_reconnect(false), Err("Failed to reconnect to Steam".to_string()));
    assert_eq!(b.connection_state, ConnectionState::Failed);
    assert_eq!(b.begin_reconnect(), 2);
    assert_eq!(b.begin_reconnect(), 4);
    assert_eq!(b.finish_reconnect(true), Ok(()));
    assert_eq!(b.get_reconnect_attempts(), 0);
    assert_eq!(b.connection_state, ConnectionState::Connected);
}

#[test]
fn health_checks_run_every_five_minutes() {
    let mut b = SteamBot::new();
    assert!(b.health_check_due(1000));
    assert!(!b.health_check_due(1299));
    assert!(b.health_check_due(1300));
    assert_eq!(b.last_health_check, Some(1300));
}

#[test]
fn probes_tell_live_from_dead_connections() {
    assert!(!probe_is_healthy(false, &ProbeOutcome::Sent));
    assert!(probe_is_healthy(true, &ProbeOutcome::Sent));
    assert!(probe_is_healthy(true, &ProbeOutcome::Failed("InvalidParam".to_string())));
    assert!(!probe_is_healthy(true, &ProbeOutcome::Failed("Connection closed".to_string())));
    assert!(!probe_is_healthy(true, &ProbeOutcome::TimedOut));
}

#[test]
fn reconnection_gives_up_after_three_attempts() {
    assert!(matches!(after_reconnect_attempt(1, Ok(())), ReconnectStep::Done));
    assert!(matches!(after_reconnect_attempt(1, Err("x".to_string())), ReconnectStep::Retry(2)));
    match after_reconnect_attempt(3, Err("boom".to_string())) {
        ReconnectStep::GiveUp(m) => assert_eq!(m, "Failed to reconnect after 3 attempts: boom"),
        _ => panic!("expected to give up"),
    }
}

#[test]
fn service_mode_follows_configuration() {
    assert_eq!(service_mode(&config_with("", "", 1, 2)), ServiceMode::Disabled);
    assert_eq!(service_mode(&config_with("bot", "pw", 0, 2)), ServiceMode::ChatDiscovery);
    assert_eq!(service_mode(&config_with("bot", "pw", 1, 2)), ServiceMode::Active);
}

#[test]
fn configuration_is_written_once() {
    let mut reg: WriteOnce<Config> = WriteOnce::new();
    assert!(reg.get().is_none());
    set_config_if_absent(&mut reg, config_with("first", "pw", 1, 2));
    set_config_if_absent(&mut reg, config_with("second", "pw", 1, 2));
    assert_eq!(config(&reg).steam_account, "first");
    let mut reg2: WriteOnce<Config> = WriteOnce::new();
    set_config(&mut reg2, config_with("only", "pw", 1, 2));
    assert_eq!(config(&reg2).steam_account, "only");
    let mut bots: WriteOnce<SteamBot> = WriteOnce::new();
    assert!(bot(&bots).is_none());
    set_bot(&mut bots, SteamBot::new());
    assert!(bot(&bots).is_some());
}
