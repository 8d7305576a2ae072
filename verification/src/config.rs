//! Service configuration: the values read from `config.toml`, their defaults, the
//! accessors the rest of the service uses, and the classification of changes on reload.
use vstd::prelude::*;
use crate::text::{
    blank, chars_of, insert_sorted_unique, is_blank, owned, strictly_sorted, trim, trim_bounds, views,
};
use vstd::string::StrSliceExecFns;

verus! {

/// Name of the configuration file beside the executable.
pub const CONF_FILE_NAME: &'static str = "config.toml";

// ---------------------------------------------------------------------------
// The file as written: every key may be missing
// ---------------------------------------------------------------------------

/// `[steam.bot]`.
pub struct BotConfig {
    pub username: Option<String>,
    pub password: Option<String>,
}

/// `[steam.chat.admin]`.
pub struct AdminConfig {
    pub admins: Option<Vec<i64>>,
    pub admins_same_as_frontend: Option<bool>,
    pub mute_max_minutes: Option<u64>,
    pub ignore_muted_commands: Option<bool>,
}

/// `[steam.chat]`.
pub struct ChatConfig {
    pub group_id: Option<u64>,
    pub chat_id: Option<u64>,
    pub commands_without_mention: Option<bool>,
    pub plan_chat_id: Option<u64>,
    pub dedicated_plan_chat: Option<bool>,
    pub plan_chat_keep_clean: Option<bool>,
    pub plan_mention_user: Option<bool>,
    pub poll_chat_id: Option<u64>,
    pub dedicated_poll_chat: Option<bool>,
    pub poll_chat_remove_command_message: Option<bool>,
    pub poll_mention_user: Option<bool>,
    pub admin: Option<AdminConfig>,
}

/// `[steam]`.
pub struct SteamConfig {
    pub web_api_key: Option<String>,
    pub bot: Option<BotConfig>,
    pub chat: Option<ChatConfig>,
}

/// `[server]` and `[server2]`.
pub struct ServerConfig {
    pub ip: Option<String>,
    pub port: Option<u16>,
}

/// `[auth]`.
pub struct AuthConfig {
    pub session_secret: Option<String>,
    pub frontend_url: Option<String>,
    pub cookie_domain: Option<String>,
    pub session_ttl_hours: Option<u64>,
    pub csrf_allowed_origins: Option<Vec<String>>,
}

/// `[live_server_info]`.
pub struct LiveServerInfoConfig {
    pub open_endpoint_enabled: Option<bool>,
    pub block_private_ips: Option<bool>,
    pub rate_limit_per_ip_per_minute: Option<u32>,
    pub rate_limit_burst: Option<u32>,
}

/// `[steam_rest]`.
pub struct SteamRestConfig {
    pub requests_per_minute_per_user: Option<u32>,
    pub requests_per_minute_per_ip: Option<u32>,
    pub response_cache_ttl_secs: Option<u64>,
}

/// `[server_daemon]`.
pub struct ServerDaemonConfig {
    pub registry_path: Option<String>,
    pub sync_api_key: Option<String>,
    pub daemon_url: Option<String>,
    pub stale_after_secs: Option<u64>,
}

/// The whole file; a missing section reads as a section whose keys are all missing.
pub struct ConfigFile {
    pub frontend_admins: Option<Vec<i64>>,
    pub steam: Option<SteamConfig>,
    pub server: Option<ServerConfig>,
    pub server2: Option<ServerConfig>,
    pub auth: Option<AuthConfig>,
    pub live_server_info: Option<LiveServerInfoConfig>,
    pub steam_rest: Option<SteamRestConfig>,
    pub server_daemon: Option<ServerDaemonConfig>,
}

impl ConfigFile {
    /// A file with every section missing.
    pub fn empty() -> (f: ConfigFile)
        ensures
            f.frontend_admins is None,
            f.steam is None,
            f.server is None,
            f.server2 is None,
            f.auth is None,
            f.live_server_info is None,
            f.steam_rest is None,
            f.server_daemon is None,
    {
        ConfigFile {
            frontend_admins: None,
            steam: None,
            server: None,
            server2: None,
            auth: None,
            live_server_info: None,
            steam_rest: None,
            server_daemon: None,
        }
    }
}

impl ChatConfig {
    /// A `[steam.chat]` section with every key missing.
    pub fn empty() -> (c: ChatConfig)
        ensures
            c.group_id is None,
            c.chat_id is None,
            c.commands_without_mention is None,
            c.plan_chat_id is None,
            c.dedicated_plan_chat is None,
            c.plan_chat_keep_clean is None,
            c.plan_mention_user is None,
            c.poll_chat_id is None,
            c.dedicated_poll_chat is None,
            c.poll_chat_remove_command_message is None,
            c.poll_mention_user is None,
            c.admin is None,
    {
        ChatConfig {
            group_id: None,
            chat_id: None,
            commands_without_mention: None,
            plan_chat_id: None,
            dedicated_plan_chat: None,
            plan_chat_keep_clean: None,
            plan_mention_user: None,
            poll_chat_id: None,
            dedicated_poll_chat: None,
            poll_chat_remove_command_message: None,
            poll_mention_user: None,
            admin: None,
        }
    }
}

impl AuthConfig {
    /// An `[auth]` section with every key missing.
    pub fn empty() -> (c: AuthConfig)
        ensures
            c.session_secret is None,
            c.frontend_url is None,
            c.cookie_domain is None,
            c.session_ttl_hours is None,
            c.csrf_allowed_origins is None,
    {
        AuthConfig {
            session_secret: None,
            frontend_url: None,
            cookie_domain: None,
            session_ttl_hours: None,
            csrf_allowed_origins: None,
        }
    }
}

impl ServerDaemonConfig {
    /// A `[server_daemon]` section with every key missing.
    pub fn empty() -> (c: ServerDaemonConfig)
        ensures
            c.registry_path is None,
            c.sync_api_key is None,
            c.daemon_url is None,
            c.stale_after_secs is None,
    {
        ServerDaemonConfig { registry_path: None, sync_api_key: None, daemon_url: None, stale_after_secs: None }
    }
}

/// An error that carries at most a message and shows only that.
pub struct QuietErr(pub Option<String>);

impl QuietErr {
    /// The text shown for the error: its message, or nothing.
    pub fn message(&self) -> (r: String)
        ensures
            r@ == (match self.0 {
                Some(m) => m@,
                None => Seq::<char>::empty(),
            }),
    {
        match &self.0 {
            Some(m) => m.clone(),
            None => String::new(),
        }
    }
}

// ---------------------------------------------------------------------------
// The resolved configuration
// ---------------------------------------------------------------------------

/// Configuration values with every default applied.
pub struct Config {
    pub frontend_admins: Vec<i64>,
    pub steam_web_api_key: String,
    pub chat_group_id: u64,
    pub chat_id: u64,
    pub plan_chat_id: u64,
    pub dedicated_plan_chat: bool,
    pub plan_chat_keep_clean: bool,
    pub plan_mention_user: bool,
    pub poll_chat_id: u64,
    pub dedicated_poll_chat: bool,
    pub poll_chat_remove_command_message: bool,
    pub poll_mention_user: bool,
    pub steam_account: String,
    pub steam_password: String,
    pub steambot_admins: Vec<i64>,
    pub steambot_admins_same_as_frontend: bool,
    pub steambot_mute_max_minutes: u64,
    pub steambot_ignore_muted_commands: bool,
    pub server_ip: String,
    pub server_port: u16,
    pub server2_ip: String,
    pub server2_port: u16,
    pub steam_bot_commands_without_mention: bool,
    pub session_secret: String,
    pub auth_frontend_url: String,
    pub auth_cookie_domain: String,
    pub auth_session_ttl_hours: u64,
    pub auth_csrf_allowed_origins: Vec<String>,
    pub live_server_open_enabled: bool,
    pub live_server_block_private_ips: bool,
    pub live_server_rate_limit_per_ip: u32,
    pub live_server_rate_limit_burst: u32,
    pub steam_rest_user_rate_limit: u32,
    pub steam_rest_ip_rate_limit: u32,
    pub steam_rest_cache_ttl_secs: u64,
    pub server_daemon_registry_path: String,
    pub server_daemon_sync_api_key: String,
    pub server_daemon_url: String,
    pub server_daemon_stale_after_secs: u64,
}

/// Outcome of comparing two configurations: the changed keys that apply live and
/// those that need a restart, in a fixed order.
pub struct ConfigChange {
    pub live_applied: Vec<&'static str>,
    pub requires_restart: Vec<&'static str>,
    pub unchanged: bool,
}

// ---------------------------------------------------------------------------
// Defaults
// ---------------------------------------------------------------------------

pub open spec fn or_str(o: Option<String>, d: Seq<char>) -> Seq<char> {
    match o {
        Some(s) => s@,
        None => d,
    }
}

pub open spec fn or_val<T>(o: Option<T>, d: T) -> T {
    match o {
        Some(x) => x,
        None => d,
    }
}

pub open spec fn or_ids(o: Option<Vec<i64>>) -> Seq<i64> {
    match o {
        Some(v) => v@,
        None => seq![],
    }
}

pub open spec fn steam_of(cf: ConfigFile) -> SteamConfig {
    or_val(cf.steam, SteamConfig { web_api_key: None, bot: None, chat: None })
}

pub open spec fn bot_of(cf: ConfigFile) -> BotConfig {
    or_val(steam_of(cf).bot, BotConfig { username: None, password: None })
}

pub open spec fn chat_of(cf: ConfigFile) -> ChatConfig {
    or_val(
        steam_of(cf).chat,
        ChatConfig {
            group_id: None,
            chat_id: None,
            commands_without_mention: None,
            plan_chat_id: None,
            dedicated_plan_chat: None,
            plan_chat_keep_clean: None,
            plan_mention_user: None,
            poll_chat_id: None,
            dedicated_poll_chat: None,
            poll_chat_remove_command_message: None,
            poll_mention_user: None,
            admin: None,
        },
    )
}

pub open spec fn admin_of(cf: ConfigFile) -> AdminConfig {
    or_val(
        chat_of(cf).admin,
        AdminConfig {
            admins: None,
            admins_same_as_frontend: None,
            mute_max_minutes: None,
            ignore_muted_commands: None,
        },
    )
}

pub open spec fn server_of(s: Option<ServerConfig>) -> ServerConfig {
    or_val(s, ServerConfig { ip: None, port: None })
}

pub open spec fn auth_of(cf: ConfigFile) -> AuthConfig {
    or_val(
        cf.auth,
        AuthConfig {
            session_secret: None,
            frontend_url: None,
            cookie_domain: None,
            session_ttl_hours: None,
            csrf_allowed_origins: None,
        },
    )
}

pub open spec fn live_of(cf: ConfigFile) -> LiveServerInfoConfig {
    or_val(
        cf.live_server_info,
        LiveServerInfoConfig {
            open_endpoint_enabled: None,
            block_private_ips: None,
            rate_limit_per_ip_per_minute: None,
            rate_limit_burst: None,
        },
    )
}

pub open spec fn rest_of(cf: ConfigFile) -> SteamRestConfig {
    or_val(
        cf.steam_rest,
        SteamRestConfig {
            requests_per_minute_per_user: None,
            requests_per_minute_per_ip: None,
            response_cache_ttl_secs: None,
        },
    )
}

pub open spec fn daemon_of(cf: ConfigFile) -> ServerDaemonConfig {
    or_val(
        cf.server_daemon,
        ServerDaemonConfig {
            registry_path: None,
            sync_api_key: None,
            daemon_url: None,
            stale_after_secs: None,
        },
    )
}

/// The CSRF origins used when none are configured (the frontend URL first).
pub open spec fn default_csrf_candidates(frontend_url: Seq<char>) -> Seq<Seq<char>> {
    seq![
        frontend_url,
        "https://kether.pl"@,
        "https://21370000.xyz"@,
        "http://localhost:3000"@,
        "http://localhost:80"@,
    ]
}

/// The candidate origins before blanks are dropped and the list is sorted.
pub open spec fn csrf_candidates(frontend_url: Seq<char>, configured: Seq<Seq<char>>) -> Seq<
    Seq<char>,
> {
    if configured.len() == 0 {
        default_csrf_candidates(frontend_url)
    } else {
        configured
    }
}

/// The set of origins the allow-list holds: the non-blank candidates.
pub open spec fn csrf_origin_set(frontend_url: Seq<char>, configured: Seq<Seq<char>>) -> Set<
    Seq<char>,
> {
    csrf_candidates(frontend_url, configured).to_set().filter(|o: Seq<char>| !is_blank(o))
}

// ---------------------------------------------------------------------------
// Building the configuration
// ---------------------------------------------------------------------------

fn string_or(o: Option<String>, d: &str) -> (r: String)
    ensures
        r@ == or_str(o, d@),
{
    match o {
        Some(s) => s,
        None => owned(d),
    }
}

fn ids_or_empty(o: Option<Vec<i64>>) -> (r: Vec<i64>)
    ensures
        r@ == or_ids(o),
{
    match o {
        Some(v) => v,
        None => Vec::new(),
    }
}

/// The CSRF allow-list: the configured origins (or the built-in ones when none are
/// configured), without blank entries, sorted and without repeats.
pub fn effective_csrf_origins(frontend_url: &str, configured: &[String]) -> (r: Vec<String>)
    ensures
        strictly_sorted(views(r@)),
        views(r@).to_set() == csrf_origin_set(frontend_url@, views(configured@)),
{
    let mut candidates: Vec<String> = Vec::new();
    if configured.len() == 0 {
        candidates.push(owned(frontend_url));
        candidates.push(owned("https://kether.pl"));
        candidates.push(owned("https://21370000.xyz"));
        candidates.push(owned("http://localhost:3000"));
        candidates.push(owned("http://localhost:80"));
        assert(views(candidates@) =~= default_csrf_candidates(frontend_url@));
    } else {
        let mut i: usize = 0;
        while i < configured.len()
            invariant
                i <= configured@.len(),
                candidates@.len() == i,
                views(candidates@) == views(configured@).take(i as int),
            decreases configured@.len() - i,
        {
            let c = configured[i].clone();
            assert(c@ == configured@[i as int]@);
            let ghost prev = candidates@;
            candidates.push(c);
            assert(candidates@ == prev.push(c));
            assert(candidates@.len() == i + 1);
            i = i + 1;
            assert(views(candidates@) =~= views(configured@).take(i as int));
        }
        assert(views(configured@).take(configured@.len() as int) =~= views(configured@));
    }
    let ghost cands = views(candidates@);
    assert(cands == csrf_candidates(frontend_url@, views(configured@)));
    let mut out: Vec<String> = Vec::new();
    let mut i: usize = 0;
    while i < candidates.len()
        invariant
            i <= candidates@.len(),
            cands == views(candidates@),
            strictly_sorted(views(out@)),
            views(out@).to_set() == cands.take(i as int).to_set().filter(
                |o: Seq<char>| !is_blank(o),
            ),
        decreases candidates@.len() - i,
    {
        let c = candidates[i].clone();
        let ghost before = views(out@).to_set();
        proof {
            assert(cands.take(i + 1) =~= cands.take(i as int).push(cands[i as int]));
            lemma_push_to_set(cands.take(i as int), cands[i as int]);
        }
        if !blank(c.as_str()) {
            insert_sorted_unique(&mut out, c);
            assert(views(out@).to_set() =~= cands.take(i + 1).to_set().filter(
                |o: Seq<char>| !is_blank(o),
            ));
        } else {
            assert(views(out@).to_set() =~= cands.take(i + 1).to_set().filter(
                |o: Seq<char>| !is_blank(o),
            ));
        }
        i = i + 1;
    }
    assert(cands.take(cands.len() as int) =~= cands);
    out
}

proof fn lemma_push_to_set(s: Seq<Seq<char>>, x: Seq<char>)
    ensures
        s.push(x).to_set() == s.to_set().insert(x),
{
    assert forall|t: Seq<char>| s.push(x).to_set().contains(t) <==> s.to_set().insert(
        x,
    ).contains(t) by {
        if s.push(x).to_set().contains(t) {
            let i = choose|i: int| 0 <= i < s.push(x).len() && s.push(x)[i] == t;
            if i < s.len() {
                assert(s[i] == t);
            }
        }
        if s.to_set().contains(t) {
            let i = choose|i: int| 0 <= i < s.len() && s[i] == t;
            assert(s.push(x)[i] == t);
        }
        if t == x {
            assert(s.push(x)[s.len() as int] == t);
        }
    }
    assert(s.push(x).to_set() =~= s.to_set().insert(x));
}

impl Config {
    /// Resolves a parsed file into a configuration, applying the default of every
    /// missing key and deriving the CSRF allow-list.
    pub fn from_config_file(cf: ConfigFile) -> (r: Config)
        ensures
            r.frontend_admins@ == or_ids(cf.frontend_admins),
            r.steam_web_api_key@ == or_str(steam_of(cf).web_api_key, seq![]),
            r.chat_group_id == or_val(chat_of(cf).group_id, 0u64),
            r.chat_id == or_val(chat_of(cf).chat_id, 0u64),
            r.plan_chat_id == or_val(chat_of(cf).plan_chat_id, 0u64),
            r.dedicated_plan_chat == or_val(chat_of(cf).dedicated_plan_chat, false),
            r.plan_chat_keep_clean == or_val(chat_of(cf).plan_chat_keep_clean, false),
            r.plan_mention_user == or_val(chat_of(cf).plan_mention_user, false),
            r.poll_chat_id == or_val(chat_of(cf).poll_chat_id, 0u64),
            r.dedicated_poll_chat == or_val(chat_of(cf).dedicated_poll_chat, false),
            r.poll_chat_remove_command_message == or_val(
                chat_of(cf).poll_chat_remove_command_message,
                false,
            ),
            r.poll_mention_user == or_val(chat_of(cf).poll_mention_user, false),
            r.steam_account@ == or_str(bot_of(cf).username, seq![]),
            r.steam_password@ == or_str(bot_of(cf).password, seq![]),
            r.steambot_admins@ == or_ids(admin_of(cf).admins),
            r.steambot_admins_same_as_frontend == or_val(
                admin_of(cf).admins_same_as_frontend,
                true,
            ),
            r.steambot_mute_max_minutes == or_val(admin_of(cf).mute_max_minutes, 10080u64),
            r.steambot_ignore_muted_commands == or_val(admin_of(cf).ignore_muted_commands, true),
            r.server_ip@ == or_str(server_of(cf.server).ip, seq![]),
            r.server_port == or_val(server_of(cf.server).port, 0u16),
            r.server2_ip@ == or_str(server_of(cf.server2).ip, seq![]),
            r.server2_port == or_val(server_of(cf.server2).port, 0u16),
            r.steam_bot_commands_without_mention == or_val(
                chat_of(cf).commands_without_mention,
                false,
            ),
            r.session_secret@ == or_str(auth_of(cf).session_secret, seq![]),
            r.auth_frontend_url@ == or_str(auth_of(cf).frontend_url, "https://kether.pl"@),
            r.auth_cookie_domain@ == or_str(auth_of(cf).cookie_domain, seq![]),
            r.auth_session_ttl_hours == or_val(auth_of(cf).session_ttl_hours, 168u64),
            strictly_sorted(views(r.auth_csrf_allowed_origins@)),
            views(r.auth_csrf_allowed_origins@).to_set() == csrf_origin_set(
                r.auth_frontend_url@,
                match auth_of(cf).csrf_allowed_origins {
                    Some(v) => views(v@),
                    None => seq![],
                },
            ),
            r.live_server_open_enabled == or_val(live_of(cf).open_endpoint_enabled, true),
            r.live_server_block_private_ips == or_val(live_of(cf).block_private_ips, true),
            r.live_server_rate_limit_per_ip == or_val(
                live_of(cf).rate_limit_per_ip_per_minute,
                20u32,
            ),
            r.live_server_rate_limit_burst == or_val(live_of(cf).rate_limit_burst, 5u32),
            r.steam_rest_user_rate_limit == or_val(
                rest_of(cf).requests_per_minute_per_user,
                10u32,
            ),
            r.steam_rest_ip_rate_limit == or_val(rest_of(cf).requests_per_minute_per_ip, 30u32),
            r.steam_rest_cache_ttl_secs == or_val(rest_of(cf).response_cache_ttl_secs, 300u64),
            r.server_daemon_registry_path@ == or_str(daemon_of(cf).registry_path, seq![]),
            r.server_daemon_sync_api_key@ == or_str(daemon_of(cf).sync_api_key, seq![]),
            r.server_daemon_url@ == or_str(daemon_of(cf).daemon_url, "http://127.0.0.1:8080"@),
            r.server_daemon_stale_after_secs == or_val(daemon_of(cf).stale_after_secs, 600u64),
    {
        proof {
            reveal_strlit("");
        }
        let steam = match cf.steam {
            Some(s) => s,
            None => SteamConfig { web_api_key: None, bot: None, chat: None },
        };
        let bot = match steam.bot {
            Some(b) => b,
            None => BotConfig { username: None, password: None },
        };
        let chat = match steam.chat {
            Some(c) => c,
            None => ChatConfig {
                group_id: None,
                chat_id: None,
                commands_without_mention: None,
                plan_chat_id: None,
                dedicated_plan_chat: None,
                plan_chat_keep_clean: None,
                plan_mention_user: None,
                poll_chat_id: None,
                dedicated_poll_chat: None,
                poll_chat_remove_command_message: None,
                poll_mention_user: None,
                admin: None,
            },
        };
        let admin = match chat.admin {
            Some(a) => a,
            None => AdminConfig {
                admins: None,
                admins_same_as_frontend: None,
                mute_max_minutes: None,
                ignore_muted_commands: None,
            },
        };
        let server = match cf.server {
            Some(s) => s,
            None => ServerConfig { ip: None, port: None },
        };
        let server2 = match cf.server2 {
            Some(s) => s,
            None => ServerConfig { ip: None, port: None },
        };
        let auth = match cf.auth {
            Some(a) => a,
            None => AuthConfig {
                session_secret: None,
                frontend_url: None,
                cookie_domain: None,
                session_ttl_hours: None,
                csrf_allowed_origins: None,
            },
        };
        let live = match cf.live_server_info {
            Some(l) => l,
            None => LiveServerInfoConfig {
                open_endpoint_enabled: None,
                block_private_ips: None,
                rate_limit_per_ip_per_minute: None,
                rate_limit_burst: None,
            },
        };
        let rest = match cf.steam_rest {
            Some(r) => r,
            None => SteamRestConfig {
                requests_per_minute_per_user: None,
                requests_per_minute_per_ip: None,
                response_cache_ttl_secs: None,
            },
        };
        let daemon = match cf.server_daemon {
            Some(d) => d,
            None => ServerDaemonConfig {
                registry_path: None,
                sync_api_key: None,
                daemon_url: None,
                stale_after_secs: None,
            },
        };
        let frontend_url = string_or(auth.frontend_url, "https://kether.pl");
        let configured: Vec<String> = match auth.csrf_allowed_origins {
            Some(v) => v,
            None => Vec::new(),
        };
        let origins = effective_csrf_origins(frontend_url.as_str(), configured.as_slice());
        Config {
            frontend_admins: ids_or_empty(cf.frontend_admins),
            steam_web_api_key: string_or(steam.web_api_key, ""),
            chat_group_id: match chat.group_id { Some(x) => x, None => 0 },
            chat_id: match chat.chat_id { Some(x) => x, None => 0 },
            plan_chat_id: match chat.plan_chat_id { Some(x) => x, None => 0 },
            dedicated_plan_chat: match chat.dedicated_plan_chat { Some(x) => x, None => false },
            plan_chat_keep_clean: match chat.plan_chat_keep_clean { Some(x) => x, None => false },
            plan_mention_user: match chat.plan_mention_user { Some(x) => x, None => false },
            poll_chat_id: match chat.poll_chat_id { Some(x) => x, None => 0 },
            dedicated_poll_chat: match chat.dedicated_poll_chat { Some(x) => x, None => false },
            poll_chat_remove_command_message: match chat.poll_chat_remove_command_message {
                Some(x) => x,
                None => false,
            },
            poll_mention_user: match chat.poll_mention_user { Some(x) => x, None => false },
            steam_account: string_or(bot.username, ""),
            steam_password: string_or(bot.password, ""),
            steambot_admins: ids_or_empty(admin.admins),
            steambot_admins_same_as_frontend: match admin.admins_same_as_frontend {
                Some(x) => x,
                None => true,
            },
            steambot_mute_max_minutes: match admin.mute_max_minutes { Some(x) => x, None => 10080 },
            steambot_ignore_muted_commands: match admin.ignore_muted_commands {
                Some(x) => x,
                None => true,
            },
            server_ip: string_or(server.ip, ""),
            server_port: match server.port { Some(x) => x, None => 0 },
            server2_ip: string_or(server2.ip, ""),
            server2_port: match server2.port { Some(x) => x, None => 0 },
            steam_bot_commands_without_mention: match chat.commands_without_mention {
                Some(x) => x,
                None => false,
            },
            session_secret: string_or(auth.session_secret, ""),
            auth_frontend_url: frontend_url,
            auth_cookie_domain: string_or(auth.cookie_domain, ""),
            auth_session_ttl_hours: match auth.session_ttl_hours { Some(x) => x, None => 168 },
            auth_csrf_allowed_origins: origins,
            live_server_open_enabled: match live.open_endpoint_enabled { Some(x) => x, None => true },
            live_server_block_private_ips: match live.block_private_ips {
                Some(x) => x,
                None => true,
            },
            live_server_rate_limit_per_ip: match live.rate_limit_per_ip_per_minute {
                Some(x) => x,
                None => 20,
            },
            live_server_rate_limit_burst: match live.rate_limit_burst { Some(x) => x, None => 5 },
            steam_rest_user_rate_limit: match rest.requests_per_minute_per_user {
                Some(x) => x,
                None => 10,
            },
            steam_rest_ip_rate_limit: match rest.requests_per_minute_per_ip {
                Some(x) => x,
                None => 30,
            },
            steam_rest_cache_ttl_secs: match rest.response_cache_ttl_secs {
                Some(x) => x,
                None => 300,
            },
            server_daemon_registry_path: string_or(daemon.registry_path, ""),
            server_daemon_sync_api_key: string_or(daemon.sync_api_key, ""),
            server_daemon_url: string_or(daemon.daemon_url, "http://127.0.0.1:8080"),
            server_daemon_stale_after_secs: match daemon.stale_after_secs {
                Some(x) => x,
                None => 600,
            },
        }
    }
}


// ---------------------------------------------------------------------------
// Comparing configurations
// ---------------------------------------------------------------------------

/// `seq![name]` when `changed`, the empty sequence otherwise.
#[verifier::opaque]
pub open spec fn flag(changed: bool, name: &'static str) -> Seq<&'static str> {
    if changed {
        seq![name]
    } else {
        seq![]
    }
}

/// Part of the live-change report, appended to `s`.
pub open spec fn live_changes_a(s: Seq<&'static str>, a: Config, b: Config) -> Seq<&'static str> {
    s
        + flag(a.frontend_admins@ != b.frontend_admins@, "frontend_admins")
        + flag(a.steam_web_api_key@ != b.steam_web_api_key@, "steam.web_api_key")
        + flag(a.server_ip@ != b.server_ip@, "server.ip")
        + flag(a.server_port != b.server_port, "server.port")
        + flag(a.server2_ip@ != b.server2_ip@, "server2.ip")
        + flag(a.server2_port != b.server2_port, "server2.port")
        + flag(a.steam_bot_commands_without_mention != b.steam_bot_commands_without_mention,
        "steam.chat.commands_without_mention",)
        + flag(a.plan_chat_id != b.plan_chat_id, "steam.chat.plan_chat_id")
        + flag(a.dedicated_plan_chat != b.dedicated_plan_chat,
        "steam.chat.dedicated_plan_chat",)
        + flag(a.plan_chat_keep_clean != b.plan_chat_keep_clean, "steam.chat.plan_chat_keep_clean")
}

/// Part of the live-change report, appended to `s`.
pub open spec fn live_changes_b(s: Seq<&'static str>, a: Config, b: Config) -> Seq<&'static str> {
    s
        + flag(a.plan_mention_user != b.plan_mention_user, "steam.chat.plan_mention_user")
        + flag(a.poll_chat_id != b.poll_chat_id, "steam.chat.poll_chat_id")
        + flag(a.dedicated_poll_chat != b.dedicated_poll_chat,
        "steam.chat.dedicated_poll_chat",)
        + flag(a.poll_chat_remove_command_message != b.poll_chat_remove_command_message,
        "steam.chat.poll_chat_remove_command_message",)
        + flag(a.poll_mention_user != b.poll_mention_user, "steam.chat.poll_mention_user")
        + flag(a.steambot_admins@ != b.steambot_admins@, "steam.chat.admin.admins")
        + flag(a.steambot_admins_same_as_frontend != b.steambot_admins_same_as_frontend,
        "steam.chat.admin.admins_same_as_frontend",)
        + flag(a.steambot_mute_max_minutes != b.steambot_mute_max_minutes,
        "steam.chat.admin.mute_max_minutes",)
        + flag(a.steambot_ignore_muted_commands != b.steambot_ignore_muted_commands,
        "steam.chat.admin.ignore_muted_commands",)
}

/// Part of the live-change report, appended to `s`.
pub open spec fn live_changes_c(s: Seq<&'static str>, a: Config, b: Config) -> Seq<&'static str> {
    s
        + flag(a.auth_frontend_url@ != b.auth_frontend_url@, "auth.frontend_url")
        + flag(a.auth_cookie_domain@ != b.auth_cookie_domain@,
        "auth.cookie_domain",)
        + flag(a.auth_session_ttl_hours != b.auth_session_ttl_hours, "auth.session_ttl_hours")
        + flag(views(a.auth_csrf_allowed_origins@) != views(b.auth_csrf_allowed_origins@),
        "auth.csrf_allowed_origins",)
        + flag(a.live_server_open_enabled != b.live_server_open_enabled,
        "live_server_info.open_endpoint_enabled",)
        + flag(a.live_server_block_private_ips != b.live_server_block_private_ips,
        "live_server_info.block_private_ips",)
        + flag(a.live_server_rate_limit_per_ip != b.live_server_rate_limit_per_ip,
        "live_server_info.rate_limit_per_ip_per_minute",)
        + flag(a.live_server_rate_limit_burst != b.live_server_rate_limit_burst,
        "live_server_info.rate_limit_burst",)
        + flag(a.steam_rest_user_rate_limit != b.steam_rest_user_rate_limit,
        "steam_rest.requests_per_minute_per_user",)
        + flag(a.steam_rest_ip_rate_limit != b.steam_rest_ip_rate_limit,
        "steam_rest.requests_per_minute_per_ip",)
        + flag(a.steam_rest_cache_ttl_secs != b.steam_rest_cache_ttl_secs,
        "steam_rest.response_cache_ttl_secs",)
        + flag(a.server_daemon_stale_after_secs != b.server_daemon_stale_after_secs,
        "server_daemon.stale_after_secs",
    )
}

/// Keys whose change applies without a restart, in report order.
pub open spec fn live_changes(a: Config, b: Config) -> Seq<&'static str> {
    live_changes_c(live_changes_b(live_changes_a(Seq::<&'static str>::empty(), a, b), a, b), a, b)
}

/// Keys whose change needs a restart, in report order.
pub open spec fn restart_changes(a: Config, b: Config) -> Seq<&'static str> {
    restart_from(Seq::<&'static str>::empty(), a, b)
}

/// The restart-change report, appended to `s`.
pub open spec fn restart_from(s: Seq<&'static str>, a: Config, b: Config) -> Seq<&'static str> {
    s + flag(a.steam_account@ != b.steam_account@, "steam.bot.username") + flag(
        a.steam_password@ != b.steam_password@,
        "steam.bot.password",
    ) + flag(a.chat_group_id != b.chat_group_id, "steam.chat.group_id") + flag(
        a.chat_id != b.chat_id,
        "steam.chat.chat_id",
    ) + flag(a.session_secret@ != b.session_secret@, "auth.session_secret") + flag(
        a.server_daemon_registry_path@ != b.server_daemon_registry_path@,
        "server_daemon.registry_path",
    ) + flag(
        a.server_daemon_sync_api_key@ != b.server_daemon_sync_api_key@,
        "server_daemon.sync_api_key",
    ) + flag(a.server_daemon_url@ != b.server_daemon_url@, "server_daemon.daemon_url")
}

/// Two configurations hold the same values in every field.
pub open spec fn same_values(a: Config, b: Config) -> bool {
    &&& a.frontend_admins@ == b.frontend_admins@
    &&& a.steam_web_api_key@ == b.steam_web_api_key@
    &&& a.chat_group_id == b.chat_group_id
    &&& a.chat_id == b.chat_id
    &&& a.plan_chat_id == b.plan_chat_id
    &&& a.dedicated_plan_chat == b.dedicated_plan_chat
    &&& a.plan_chat_keep_clean == b.plan_chat_keep_clean
    &&& a.plan_mention_user == b.plan_mention_user
    &&& a.poll_chat_id == b.poll_chat_id
    &&& a.dedicated_poll_chat == b.dedicated_poll_chat
    &&& a.poll_chat_remove_command_message == b.poll_chat_remove_command_message
    &&& a.poll_mention_user == b.poll_mention_user
    &&& a.steam_account@ == b.steam_account@
    &&& a.steam_password@ == b.steam_password@
    &&& a.steambot_admins@ == b.steambot_admins@
    &&& a.steambot_admins_same_as_frontend == b.steambot_admins_same_as_frontend
    &&& a.steambot_mute_max_minutes == b.steambot_mute_max_minutes
    &&& a.steambot_ignore_muted_commands == b.steambot_ignore_muted_commands
    &&& a.server_ip@ == b.server_ip@
    &&& a.server_port == b.server_port
    &&& a.server2_ip@ == b.server2_ip@
    &&& a.server2_port == b.server2_port
    &&& a.steam_bot_commands_without_mention == b.steam_bot_commands_without_mention
    &&& a.session_secret@ == b.session_secret@
    &&& a.auth_frontend_url@ == b.auth_frontend_url@
    &&& a.auth_cookie_domain@ == b.auth_cookie_domain@
    &&& a.auth_session_ttl_hours == b.auth_session_ttl_hours
    &&& views(a.auth_csrf_allowed_origins@) == views(b.auth_csrf_allowed_origins@)
    &&& a.live_server_open_enabled == b.live_server_open_enabled
    &&& a.live_server_block_private_ips == b.live_server_block_private_ips
    &&& a.live_server_rate_limit_per_ip == b.live_server_rate_limit_per_ip
    &&& a.live_server_rate_limit_burst == b.live_server_rate_limit_burst
    &&& a.steam_rest_user_rate_limit == b.steam_rest_user_rate_limit
    &&& a.steam_rest_ip_rate_limit == b.steam_rest_ip_rate_limit
    &&& a.steam_rest_cache_ttl_secs == b.steam_rest_cache_ttl_secs
    &&& a.server_daemon_registry_path@ == b.server_daemon_registry_path@
    &&& a.server_daemon_sync_api_key@ == b.server_daemon_sync_api_key@
    &&& a.server_daemon_url@ == b.server_daemon_url@
    &&& a.server_daemon_stale_after_secs == b.server_daemon_stale_after_secs
}

fn ids_eq(a: &[i64], b: &[i64]) -> (r: bool)
    ensures
        r == (a@ == b@),
{
    if a.len() != b.len() {
        return false;
    }
    let mut i: usize = 0;
    while i < a.len()
        invariant
            a@.len() == b@.len(),
            i <= a@.len(),
            forall|j: int| 0 <= j < i ==> a@[j] == b@[j],
        decreases a@.len() - i,
    {
        if a[i] != b[i] {
            return false;
        }
        i = i + 1;
    }
    assert(a@ =~= b@);
    true
}

fn strings_eq(a: &[String], b: &[String]) -> (r: bool)
    ensures
        r == (views(a@) == views(b@)),
{
    if a.len() != b.len() {
        assert(views(a@).len() != views(b@).len());
        return false;
    }
    let mut i: usize = 0;
    while i < a.len()
        invariant
            a@.len() == b@.len(),
            i <= a@.len(),
            forall|j: int| 0 <= j < i ==> a@[j]@ == b@[j]@,
        decreases a@.len() - i,
    {
        if a[i] != b[i] {
            assert(views(a@)[i as int] != views(b@)[i as int]);
            return false;
        }
        i = i + 1;
    }
    assert(views(a@) =~= views(b@));
    true
}

fn note(v: &mut Vec<&'static str>, changed: bool, name: &'static str)
    ensures
        final(v)@ == old(v)@ + flag(changed, name),
{
    reveal(flag);
    if changed {
        v.push(name);
        assert(final(v)@ =~= old(v)@ + flag(changed, name)) by {
            assert(v@ =~= old(v)@ + flag(changed, name));
        }
    } else {
        assert(v@ =~= old(v)@ + flag(changed, name));
    }
}

impl ConfigChange {
    /// Whether a comparison found no difference.
    pub open spec fn is_unchanged(&self) -> bool {
        self.unchanged
    }
}

fn append_live_a(v: &mut Vec<&'static str>, a: &Config, b: &Config)
    ensures
        final(v)@ == live_changes_a(old(v)@, *a, *b),
{
    note(v, !ids_eq(a.frontend_admins.as_slice(), b.frontend_admins.as_slice()), "frontend_admins");
    note(v, a.steam_web_api_key != b.steam_web_api_key, "steam.web_api_key");
    note(v, a.server_ip != b.server_ip, "server.ip");
    note(v, a.server_port != b.server_port, "server.port");
    note(v, a.server2_ip != b.server2_ip, "server2.ip");
    note(v, a.server2_port != b.server2_port, "server2.port");
    note(v, a.steam_bot_commands_without_mention != b.steam_bot_commands_without_mention, "steam.chat.commands_without_mention");
    note(v, a.plan_chat_id != b.plan_chat_id, "steam.chat.plan_chat_id");
    note(v, a.dedicated_plan_chat != b.dedicated_plan_chat, "steam.chat.dedicated_plan_chat");
    note(v, a.plan_chat_keep_clean != b.plan_chat_keep_clean, "steam.chat.plan_chat_keep_clean");
}

fn append_live_b(v: &mut Vec<&'static str>, a: &Config, b: &Config)
    ensures
        final(v)@ == live_changes_b(old(v)@, *a, *b),
{
    note(v, a.plan_mention_user != b.plan_mention_user, "steam.chat.plan_mention_user");
    note(v, a.poll_chat_id != b.poll_chat_id, "steam.chat.poll_chat_id");
    note(v, a.dedicated_poll_chat != b.dedicated_poll_chat, "steam.chat.dedicated_poll_chat");
    note(v, a.poll_chat_remove_command_message != b.poll_chat_remove_command_message, "steam.chat.poll_chat_remove_command_message");
    note(v, a.poll_mention_user != b.poll_mention_user, "steam.chat.poll_mention_user");
    note(v, !ids_eq(a.steambot_admins.as_slice(), b.steambot_admins.as_slice()), "steam.chat.admin.admins");
    note(v, a.steambot_admins_same_as_frontend != b.steambot_admins_same_as_frontend, "steam.chat.admin.admins_same_as_frontend");
    note(v, a.steambot_mute_max_minutes != b.steambot_mute_max_minutes, "steam.chat.admin.mute_max_minutes");
    note(v, a.steambot_ignore_muted_commands != b.steambot_ignore_muted_commands, "steam.chat.admin.ignore_muted_commands");
}

fn append_live_c(v: &mut Vec<&'static str>, a: &Config, b: &Config)
    ensures
        final(v)@ == live_changes_c(old(v)@, *a, *b),
{
    note(v, a.auth_frontend_url != b.auth_frontend_url, "auth.frontend_url");
    note(v, a.auth_cookie_domain != b.auth_cookie_domain, "auth.cookie_domain");
    note(v, a.auth_session_ttl_hours != b.auth_session_ttl_hours, "auth.session_ttl_hours");
    note(v, !strings_eq(a.auth_csrf_allowed_origins.as_slice(), b.auth_csrf_allowed_origins.as_slice()), "auth.csrf_allowed_origins");
    note(v, a.live_server_open_enabled != b.live_server_open_enabled, "live_server_info.open_endpoint_enabled");
    note(v, a.live_server_block_private_ips != b.live_server_block_private_ips, "live_server_info.block_private_ips");
    note(v, a.live_server_rate_limit_per_ip != b.live_server_rate_limit_per_ip, "live_server_info.rate_limit_per_ip_per_minute");
    note(v, a.live_server_rate_limit_burst != b.live_server_rate_limit_burst, "live_server_info.rate_limit_burst");
    note(v, a.steam_rest_user_rate_limit != b.steam_rest_user_rate_limit, "steam_rest.requests_per_minute_per_user");
    note(v, a.steam_rest_ip_rate_limit != b.steam_rest_ip_rate_limit, "steam_rest.requests_per_minute_per_ip");
    note(v, a.steam_rest_cache_ttl_secs != b.steam_rest_cache_ttl_secs, "steam_rest.response_cache_ttl_secs");
    note(v, a.server_daemon_stale_after_secs != b.server_daemon_stale_after_secs, "server_daemon.stale_after_secs");
}

fn append_restart(v: &mut Vec<&'static str>, a: &Config, b: &Config)
    ensures
        final(v)@ == restart_from(old(v)@, *a, *b),
{
    note(v, a.steam_account != b.steam_account, "steam.bot.username");
    note(v, a.steam_password != b.steam_password, "steam.bot.password");
    note(v, a.chat_group_id != b.chat_group_id, "steam.chat.group_id");
    note(v, a.chat_id != b.chat_id, "steam.chat.chat_id");
    note(v, a.session_secret != b.session_secret, "auth.session_secret");
    note(v, a.server_daemon_registry_path != b.server_daemon_registry_path, "server_daemon.registry_path");
    note(v, a.server_daemon_sync_api_key != b.server_daemon_sync_api_key, "server_daemon.sync_api_key");
    note(v, a.server_daemon_url != b.server_daemon_url, "server_daemon.daemon_url");
}

impl Config {
    /// Compares this configuration with a newly loaded one: every changed key is listed
    /// once, either as applied live or as requiring a restart, and `unchanged` holds
    /// exactly when neither list has an entry.
    pub fn diff(&self, new: &Config) -> (change: ConfigChange)
        ensures
            change.live_applied@ == live_changes(*self, *new),
            change.requires_restart@ == restart_changes(*self, *new),
            change.unchanged == (change.live_applied@.len() == 0
                && change.requires_restart@.len() == 0),
    {
        let mut live: Vec<&'static str> = Vec::new();
        let mut restart: Vec<&'static str> = Vec::new();
        append_live_a(&mut live, self, new);
        append_live_b(&mut live, self, new);
        append_restart(&mut restart, self, new);
        append_live_c(&mut live, self, new);
        let unchanged = live.len() == 0 && restart.len() == 0;
        ConfigChange { live_applied: live, requires_restart: restart, unchanged }
    }
}

// ---------------------------------------------------------------------------
// Laws of the comparison
// ---------------------------------------------------------------------------

/// Comparing two configurations reports no change exactly when they hold the same
/// values in every field.
pub proof fn lemma_diff_empty_iff_same(a: Config, b: Config)
    ensures
        (live_changes(a, b).len() == 0 && restart_changes(a, b).len() == 0) <==> same_values(
            a,
            b,
        ),
{
    broadcast use lemma_flag_len;

}

/// A flag holds one name exactly when the field changed.
pub broadcast proof fn lemma_flag_len(changed: bool, name: &'static str)
    ensures
        #[trigger] flag(changed, name).len() == (if changed {
            1nat
        } else {
            0nat
        }),
{
    reveal(flag);
}

/// A configuration compared with itself reports no change.
pub proof fn lemma_diff_reflexive(a: Config)
    ensures
        live_changes(a, a).len() == 0,
        restart_changes(a, a).len() == 0,
{
    lemma_diff_empty_iff_same(a, a);
}

/// The report does not depend on the direction of the comparison.
pub proof fn lemma_diff_symmetric(a: Config, b: Config)
    ensures
        live_changes(a, b) == live_changes(b, a),
        restart_changes(a, b) == restart_changes(b, a),
{
    let e = Seq::<&'static str>::empty();
    lemma_part_a_symmetric(e, a, b);
    let sa = live_changes_a(e, a, b);
    lemma_part_b_symmetric(sa, a, b);
    let sb = live_changes_b(sa, a, b);
    lemma_part_c_symmetric(sb, a, b);
    lemma_restart_symmetric(e, a, b);
}

/// The position of a key in the order the comparison reports keys, live ones first;
/// the number of keys for any other text.
#[verifier::opaque]
pub open spec fn key_rank(key: Seq<char>) -> int {
    if key == "frontend_admins"@ {
        0
    } else if key == "steam.web_api_key"@ {
        1
    } else if key == "server.ip"@ {
        2
    } else if key == "server.port"@ {
        3
    } else if key == "server2.ip"@ {
        4
    } else if key == "server2.port"@ {
        5
    } else if key == "steam.chat.commands_without_mention"@ {
        6
    } else if key == "steam.chat.plan_chat_id"@ {
        7
    } else if key == "steam.chat.dedicated_plan_chat"@ {
        8
    } else if key == "steam.chat.plan_chat_keep_clean"@ {
        9
    } else if key == "steam.chat.plan_mention_user"@ {
        10
    } else if key == "steam.chat.poll_chat_id"@ {
        11
    } else if key == "steam.chat.dedicated_poll_chat"@ {
        12
    } else if key == "steam.chat.poll_chat_remove_command_message"@ {
        13
    } else if key == "steam.chat.poll_mention_user"@ {
        14
    } else if key == "steam.chat.admin.admins"@ {
        15
    } else if key == "steam.chat.admin.admins_same_as_frontend"@ {
        16
    } else if key == "steam.chat.admin.mute_max_minutes"@ {
        17
    } else if key == "steam.chat.admin.ignore_muted_commands"@ {
        18
    } else if key == "auth.frontend_url"@ {
        19
    } else if key == "auth.cookie_domain"@ {
        20
    } else if key == "auth.session_ttl_hours"@ {
        21
    } else if key == "auth.csrf_allowed_origins"@ {
        22
    } else if key == "live_server_info.open_endpoint_enabled"@ {
        23
    } else if key == "live_server_info.block_private_ips"@ {
        24
    } else if key == "live_server_info.rate_limit_per_ip_per_minute"@ {
        25
    } else if key == "live_server_info.rate_limit_burst"@ {
        26
    } else if key == "steam_rest.requests_per_minute_per_user"@ {
        27
    } else if key == "steam_rest.requests_per_minute_per_ip"@ {
        28
    } else if key == "steam_rest.response_cache_ttl_secs"@ {
        29
    } else if key == "server_daemon.stale_after_secs"@ {
        30
    } else if key == "steam.bot.username"@ {
        31
    } else if key == "steam.bot.password"@ {
        32
    } else if key == "steam.chat.group_id"@ {
        33
    } else if key == "steam.chat.chat_id"@ {
        34
    } else if key == "auth.session_secret"@ {
        35
    } else if key == "server_daemon.registry_path"@ {
        36
    } else if key == "server_daemon.sync_api_key"@ {
        37
    } else if key == "server_daemon.daemon_url"@ {
        38
    } else {
        39
    }
}

/// The position of a reported key (see `key_rank`).
pub open spec fn report_rank(name: &'static str) -> int {
    key_rank(name@)
}

/// The key at a position of the report order (see `key_rank`).
pub open spec fn key_name(k: int) -> Seq<char> {
    if k == 0 {
        "frontend_admins"@
    } else if k == 1 {
        "steam.web_api_key"@
    } else if k == 2 {
        "server.ip"@
    } else if k == 3 {
        "server.port"@
    } else if k == 4 {
        "server2.ip"@
    } else if k == 5 {
        "server2.port"@
    } else if k == 6 {
        "steam.chat.commands_without_mention"@
    } else if k == 7 {
        "steam.chat.plan_chat_id"@
    } else if k == 8 {
        "steam.chat.dedicated_plan_chat"@
    } else if k == 9 {
        "steam.chat.plan_chat_keep_clean"@
    } else if k == 10 {
        "steam.chat.plan_mention_user"@
    } else if k == 11 {
        "steam.chat.poll_chat_id"@
    } else if k == 12 {
        "steam.chat.dedicated_poll_chat"@
    } else if k == 13 {
        "steam.chat.poll_chat_remove_command_message"@
    } else if k == 14 {
        "steam.chat.poll_mention_user"@
    } else if k == 15 {
        "steam.chat.admin.admins"@
    } else if k == 16 {
        "steam.chat.admin.admins_same_as_frontend"@
    } else if k == 17 {
        "steam.chat.admin.mute_max_minutes"@
    } else if k == 18 {
        "steam.chat.admin.ignore_muted_commands"@
    } else if k == 19 {
        "auth.frontend_url"@
    } else if k == 20 {
        "auth.cookie_domain"@
    } else if k == 21 {
        "auth.session_ttl_hours"@
    } else if k == 22 {
        "auth.csrf_allowed_origins"@
    } else if k == 23 {
        "live_server_info.open_endpoint_enabled"@
    } else if k == 24 {
        "live_server_info.block_private_ips"@
    } else if k == 25 {
        "live_server_info.rate_limit_per_ip_per_minute"@
    } else if k == 26 {
        "live_server_info.rate_limit_burst"@
    } else if k == 27 {
        "steam_rest.requests_per_minute_per_user"@
    } else if k == 28 {
        "steam_rest.requests_per_minute_per_ip"@
    } else if k == 29 {
        "steam_rest.response_cache_ttl_secs"@
    } else if k == 30 {
        "server_daemon.stale_after_secs"@
    } else if k == 31 {
        "steam.bot.username"@
    } else if k == 32 {
        "steam.bot.password"@
    } else if k == 33 {
        "steam.chat.group_id"@
    } else if k == 34 {
        "steam.chat.chat_id"@
    } else if k == 35 {
        "auth.session_secret"@
    } else if k == 36 {
        "server_daemon.registry_path"@
    } else if k == 37 {
        "server_daemon.sync_api_key"@
    } else if k == 38 {
        "server_daemon.daemon_url"@
    } else {
        Seq::empty()
    }
}

/// Whether two configurations differ in the field a key names; `false` for a text that
/// names no key.
pub open spec fn key_differs(a: Config, b: Config, key: Seq<char>) -> bool {
    let k = key_rank(key);
    if k == 0 {
        a.frontend_admins@ != b.frontend_admins@
    } else if k == 1 {
        a.steam_web_api_key@ != b.steam_web_api_key@
    } else if k == 2 {
        a.server_ip@ != b.server_ip@
    } else if k == 3 {
        a.server_port != b.server_port
    } else if k == 4 {
        a.server2_ip@ != b.server2_ip@
    } else if k == 5 {
        a.server2_port != b.server2_port
    } else if k == 6 {
        a.steam_bot_commands_without_mention != b.steam_bot_commands_without_mention
    } else if k == 7 {
        a.plan_chat_id != b.plan_chat_id
    } else if k == 8 {
        a.dedicated_plan_chat != b.dedicated_plan_chat
    } else if k == 9 {
        a.plan_chat_keep_clean != b.plan_chat_keep_clean
    } else if k == 10 {
        a.plan_mention_user != b.plan_mention_user
    } else if k == 11 {
        a.poll_chat_id != b.poll_chat_id
    } else if k == 12 {
        a.dedicated_poll_chat != b.dedicated_poll_chat
    } else if k == 13 {
        a.poll_chat_remove_command_message != b.poll_chat_remove_command_message
    } else if k == 14 {
        a.poll_mention_user != b.poll_mention_user
    } else if k == 15 {
        a.steambot_admins@ != b.steambot_admins@
    } else if k == 16 {
        a.steambot_admins_same_as_frontend != b.steambot_admins_same_as_frontend
    } else if k == 17 {
        a.steambot_mute_max_minutes != b.steambot_mute_max_minutes
    } else if k == 18 {
        a.steambot_ignore_muted_commands != b.steambot_ignore_muted_commands
    } else if k == 19 {
        a.auth_frontend_url@ != b.auth_frontend_url@
    } else if k == 20 {
        a.auth_cookie_domain@ != b.auth_cookie_domain@
    } else if k == 21 {
        a.auth_session_ttl_hours != b.auth_session_ttl_hours
    } else if k == 22 {
        views(a.auth_csrf_allowed_origins@) != views(b.auth_csrf_allowed_origins@)
    } else if k == 23 {
        a.live_server_open_enabled != b.live_server_open_enabled
    } else if k == 24 {
        a.live_server_block_private_ips != b.live_server_block_private_ips
    } else if k == 25 {
        a.live_server_rate_limit_per_ip != b.live_server_rate_limit_per_ip
    } else if k == 26 {
        a.live_server_rate_limit_burst != b.live_server_rate_limit_burst
    } else if k == 27 {
        a.steam_rest_user_rate_limit != b.steam_rest_user_rate_limit
    } else if k == 28 {
        a.steam_rest_ip_rate_limit != b.steam_rest_ip_rate_limit
    } else if k == 29 {
        a.steam_rest_cache_ttl_secs != b.steam_rest_cache_ttl_secs
    } else if k == 30 {
        a.server_daemon_stale_after_secs != b.server_daemon_stale_after_secs
    } else if k == 31 {
        a.steam_account@ != b.steam_account@
    } else if k == 32 {
        a.steam_password@ != b.steam_password@
    } else if k == 33 {
        a.chat_group_id != b.chat_group_id
    } else if k == 34 {
        a.chat_id != b.chat_id
    } else if k == 35 {
        a.session_secret@ != b.session_secret@
    } else if k == 36 {
        a.server_daemon_registry_path@ != b.server_daemon_registry_path@
    } else if k == 37 {
        a.server_daemon_sync_api_key@ != b.server_daemon_sync_api_key@
    } else if k == 38 {
        a.server_daemon_url@ != b.server_daemon_url@
    } else {
        false
    }
}

proof fn lemma_report_ranks()
    ensures
        report_rank("frontend_admins") == 0,
        report_rank("steam.web_api_key") == 1,
        report_rank("server.ip") == 2,
        report_rank("server.port") == 3,
        report_rank("server2.ip") == 4,
        report_rank("server2.port") == 5,
        report_rank("steam.chat.commands_without_mention") == 6,
        report_rank("steam.chat.plan_chat_id") == 7,
        report_rank("steam.chat.dedicated_plan_chat") == 8,
        report_rank("steam.chat.plan_chat_keep_clean") == 9,
        report_rank("steam.chat.plan_mention_user") == 10,
        report_rank("steam.chat.poll_chat_id") == 11,
        report_rank("steam.chat.dedicated_poll_chat") == 12,
        report_rank("steam.chat.poll_chat_remove_command_message") == 13,
        report_rank("steam.chat.poll_mention_user") == 14,
        report_rank("steam.chat.admin.admins") == 15,
        report_rank("steam.chat.admin.admins_same_as_frontend") == 16,
        report_rank("steam.chat.admin.mute_max_minutes") == 17,
        report_rank("steam.chat.admin.ignore_muted_commands") == 18,
        report_rank("auth.frontend_url") == 19,
        report_rank("auth.cookie_domain") == 20,
        report_rank("auth.session_ttl_hours") == 21,
        report_rank("auth.csrf_allowed_origins") == 22,
        report_rank("live_server_info.open_endpoint_enabled") == 23,
        report_rank("live_server_info.block_private_ips") == 24,
        report_rank("live_server_info.rate_limit_per_ip_per_minute") == 25,
        report_rank("live_server_info.rate_limit_burst") == 26,
        report_rank("steam_rest.requests_per_minute_per_user") == 27,
        report_rank("steam_rest.requests_per_minute_per_ip") == 28,
        report_rank("steam_rest.response_cache_ttl_secs") == 29,
        report_rank("server_daemon.stale_after_secs") == 30,
        report_rank("steam.bot.username") == 31,
        report_rank("steam.bot.password") == 32,
        report_rank("steam.chat.group_id") == 33,
        report_rank("steam.chat.chat_id") == 34,
        report_rank("auth.session_secret") == 35,
        report_rank("server_daemon.registry_path") == 36,
        report_rank("server_daemon.sync_api_key") == 37,
        report_rank("server_daemon.daemon_url") == 38,
        forall|key: Seq<char>| key_rank(key) < 39 ==> key == key_name(#[trigger] key_rank(key)),
        forall|key: Seq<char>| 0 <= #[trigger] key_rank(key) <= 39,
{
    reveal(key_rank);
    reveal_strlit("frontend_admins");
    reveal_strlit("steam.web_api_key");
    reveal_strlit("server.ip");
    reveal_strlit("server.port");
    reveal_strlit("server2.ip");
    reveal_strlit("server2.port");
    reveal_strlit("steam.chat.commands_without_mention");
    reveal_strlit("steam.chat.plan_chat_id");
    reveal_strlit("steam.chat.dedicated_plan_chat");
    reveal_strlit("steam.chat.plan_chat_keep_clean");
    reveal_strlit("steam.chat.plan_mention_user");
    reveal_strlit("steam.chat.poll_chat_id");
    reveal_strlit("steam.chat.dedicated_poll_chat");
    reveal_strlit("steam.chat.poll_chat_remove_command_message");
    reveal_strlit("steam.chat.poll_mention_user");
    reveal_strlit("steam.chat.admin.admins");
    reveal_strlit("steam.chat.admin.admins_same_as_frontend");
    reveal_strlit("steam.chat.admin.mute_max_minutes");
    reveal_strlit("steam.chat.admin.ignore_muted_commands");
    reveal_strlit("auth.frontend_url");
    reveal_strlit("auth.cookie_domain");
    reveal_strlit("auth.session_ttl_hours");
    reveal_strlit("auth.csrf_allowed_origins");
    reveal_strlit("live_server_info.open_endpoint_enabled");
    reveal_strlit("live_server_info.block_private_ips");
    reveal_strlit("live_server_info.rate_limit_per_ip_per_minute");
    reveal_strlit("live_server_info.rate_limit_burst");
    reveal_strlit("steam_rest.requests_per_minute_per_user");
    reveal_strlit("steam_rest.requests_per_minute_per_ip");
    reveal_strlit("steam_rest.response_cache_ttl_secs");
    reveal_strlit("server_daemon.stale_after_secs");
    reveal_strlit("steam.bot.username");
    reveal_strlit("steam.bot.password");
    reveal_strlit("steam.chat.group_id");
    reveal_strlit("steam.chat.chat_id");
    reveal_strlit("auth.session_secret");
    reveal_strlit("server_daemon.registry_path");
    reveal_strlit("server_daemon.sync_api_key");
    reveal_strlit("server_daemon.daemon_url");
    assert("frontend_admins"@.len() == 15);
    assert("steam.web_api_key"@.len() == 17);
    assert("server.ip"@.len() == 9);
    assert("server.port"@.len() == 11);
    assert("server2.ip"@.len() == 10);
    assert("server2.port"@.len() == 12);
    assert("steam.chat.commands_without_mention"@.len() == 35);
    assert("steam.chat.plan_chat_id"@.len() == 23);
    assert("steam.chat.dedicated_plan_chat"@.len() == 30);
    assert("steam.chat.plan_chat_keep_clean"@.len() == 31);
    assert("steam.chat.plan_mention_user"@.len() == 28);
    assert("steam.chat.poll_chat_id"@.len() == 23);
    assert("steam.chat.dedicated_poll_chat"@.len() == 30);
    assert("steam.chat.poll_chat_remove_command_message"@.len() == 43);
    assert("steam.chat.poll_mention_user"@.len() == 28);
    assert("steam.chat.admin.admins"@.len() == 23);
    assert("steam.chat.admin.admins_same_as_frontend"@.len() == 40);
    assert("steam.chat.admin.mute_max_minutes"@.len() == 33);
    assert("steam.chat.admin.ignore_muted_commands"@.len() == 38);
    assert("auth.frontend_url"@.len() == 17);
    assert("auth.cookie_domain"@.len() == 18);
    assert("auth.session_ttl_hours"@.len() == 22);
    assert("auth.csrf_allowed_origins"@.len() == 25);
    assert("live_server_info.open_endpoint_enabled"@.len() == 38);
    assert("live_server_info.block_private_ips"@.len() == 34);
    assert("live_server_info.rate_limit_per_ip_per_minute"@.len() == 45);
    assert("live_server_info.rate_limit_burst"@.len() == 33);
    assert("steam_rest.requests_per_minute_per_user"@.len() == 39);
    assert("steam_rest.requests_per_minute_per_ip"@.len() == 37);
    assert("steam_rest.response_cache_ttl_secs"@.len() == 34);
    assert("server_daemon.stale_after_secs"@.len() == 30);
    assert("steam.bot.username"@.len() == 18);
    assert("steam.bot.password"@.len() == 18);
    assert("steam.chat.group_id"@.len() == 19);
    assert("steam.chat.chat_id"@.len() == 18);
    assert("auth.session_secret"@.len() == 19);
    assert("server_daemon.registry_path"@.len() == 27);
    assert("server_daemon.sync_api_key"@.len() == 26);
    assert("server_daemon.daemon_url"@.len() == 24);
    assert("steam.chat.poll_chat_id"@[12] != "steam.chat.plan_chat_id"@[12]);
    assert("steam.chat.dedicated_poll_chat"@[22] != "steam.chat.dedicated_plan_chat"@[22]);
    assert("steam.chat.poll_mention_user"@[12] != "steam.chat.plan_mention_user"@[12]);
    assert("steam.chat.admin.admins"@[11] != "steam.chat.plan_chat_id"@[11]);
    assert("steam.chat.admin.admins"@[11] != "steam.chat.poll_chat_id"@[11]);
    assert("auth.frontend_url"@[0] != "steam.web_api_key"@[0]);
    assert("live_server_info.open_endpoint_enabled"@[0] != "steam.chat.admin.ignore_muted_commands"@[0]);
    assert("live_server_info.rate_limit_burst"@[0] != "steam.chat.admin.mute_max_minutes"@[0]);
    assert("steam_rest.response_cache_ttl_secs"@[0] != "live_server_info.block_private_ips"@[0]);
    assert("server_daemon.stale_after_secs"@[1] != "steam.chat.dedicated_plan_chat"@[1]);
    assert("server_daemon.stale_after_secs"@[1] != "steam.chat.dedicated_poll_chat"@[1]);
    assert("steam.bot.username"@[0] != "auth.cookie_domain"@[0]);
    assert("steam.bot.password"@[0] != "auth.cookie_domain"@[0]);
    assert("steam.bot.password"@[10] != "steam.bot.username"@[10]);
    assert("steam.chat.chat_id"@[0] != "auth.cookie_domain"@[0]);
    assert("steam.chat.chat_id"@[6] != "steam.bot.username"@[6]);
    assert("steam.chat.chat_id"@[6] != "steam.bot.password"@[6]);
    assert("auth.session_secret"@[0] != "steam.chat.group_id"@[0]);
}

/// Whether `key` is one of the keys in `s`.
pub open spec fn lists_key(s: Seq<&'static str>, key: Seq<char>) -> bool {
    exists|i: int| 0 <= i < s.len() && (#[trigger] s[i])@ == key
}

/// A report whose keys are distinct and all come before position `k`.
#[verifier::opaque]
pub open spec fn distinct_before(s: Seq<&'static str>, k: int) -> bool {
    &&& s.no_duplicates()
    &&& forall|i: int| 0 <= i < s.len() ==> report_rank(#[trigger] s[i]) < k
}

/// A report that lists exactly the keys from position `lo` up to `k` whose fields differ.
#[verifier::opaque]
pub open spec fn lists_exactly(s: Seq<&'static str>, a: Config, b: Config, lo: int, k: int) -> bool {
    forall|key: Seq<char>| #[trigger] lists_key(s, key) <==> lo <= key_rank(key) < k && key_differs(a, b, key)
}

proof fn lemma_flag_step(
    s: Seq<&'static str>,
    a: Config,
    b: Config,
    lo: int,
    changed: bool,
    name: &'static str,
    k: int,
)
    requires
        distinct_before(s, k),
        lists_exactly(s, a, b, lo, k),
        lo <= k < 39,
        report_rank(name) == k,
        name@ == key_name(k),
        changed == key_differs(a, b, name@),
        forall|key: Seq<char>| key_rank(key) < 39 ==> key == key_name(#[trigger] key_rank(key)),
    ensures
        distinct_before(s + flag(changed, name), k + 1),
        lists_exactly(s + flag(changed, name), a, b, lo, k + 1),
{
    reveal(flag);
    reveal(distinct_before);
    reveal(lists_exactly);
    let t = s + flag(changed, name);
    if changed {
        assert(t == s.push(name));
        assert forall|i: int, j: int| 0 <= i < t.len() && 0 <= j < t.len() && i != j implies t[i] != t[j] by {
            if i < s.len() && j < s.len() {
                assert(t[i] == s[i] && t[j] == s[j]);
            } else if i < s.len() {
                assert(report_rank(t[i]) < k);
            } else {
                assert(report_rank(t[j]) < k);
            }
        }
        assert forall|i: int| 0 <= i < t.len() implies report_rank(#[trigger] t[i]) < k + 1 by {
            if i < s.len() {
                assert(t[i] == s[i]);
            }
        }
        assert forall|key: Seq<char>| #[trigger] lists_key(t, key) <==> lo <= key_rank(key) < k + 1 && key_differs(
            a,
            b,
            key,
        ) by {
            if lists_key(t, key) {
                let i = choose|i: int| 0 <= i < t.len() && (#[trigger] t[i])@ == key;
                if i < s.len() {
                    assert(t[i] == s[i]);
                    assert(lists_key(s, key));
                }
            }
            if lo <= key_rank(key) < k + 1 && key_differs(a, b, key) {
                if key_rank(key) < k {
                    assert(lists_key(s, key));
                    let i = choose|i: int| 0 <= i < s.len() && (#[trigger] s[i])@ == key;
                    assert(t[i] == s[i]);
                } else {
                    assert(key == key_name(k));
                    assert(t[s.len() as int] == name);
                }
            }
        }
    } else {
        assert(t =~= s);
        assert forall|key: Seq<char>| #[trigger] lists_key(t, key) <==> lo <= key_rank(key) < k + 1 && key_differs(
            a,
            b,
            key,
        ) by {
            if key_rank(key) == k && key_differs(a, b, key) {
                assert(key == key_name(k));
            }
        }
    }
}

proof fn lemma_part_a_once(s: Seq<&'static str>, a: Config, b: Config, lo: int)
    requires
        distinct_before(s, 0),
        lists_exactly(s, a, b, lo, 0),
        lo <= 0,
    ensures
        distinct_before(live_changes_a(s, a, b), 10),
        lists_exactly(live_changes_a(s, a, b), a, b, lo, 10),
{
    lemma_report_ranks();
    lemma_flag_step(s, a, b, lo, a.frontend_admins@ != b.frontend_admins@, "frontend_admins", 0);
    let t1 = s + flag(a.frontend_admins@ != b.frontend_admins@, "frontend_admins");
    lemma_flag_step(t1, a, b, lo, a.steam_web_api_key@ != b.steam_web_api_key@, "steam.web_api_key", 1);
    let t2 = t1 + flag(a.steam_web_api_key@ != b.steam_web_api_key@, "steam.web_api_key");
    lemma_flag_step(t2, a, b, lo, a.server_ip@ != b.server_ip@, "server.ip", 2);
    let t3 = t2 + flag(a.server_ip@ != b.server_ip@, "server.ip");
    lemma_flag_step(t3, a, b, lo, a.server_port != b.server_port, "server.port", 3);
    let t4 = t3 + flag(a.server_port != b.server_port, "server.port");
    lemma_flag_step(t4, a, b, lo, a.server2_ip@ != b.server2_ip@, "server2.ip", 4);
    let t5 = t4 + flag(a.server2_ip@ != b.server2_ip@, "server2.ip");
    lemma_flag_step(t5, a, b, lo, a.server2_port != b.server2_port, "server2.port", 5);
    let t6 = t5 + flag(a.server2_port != b.server2_port, "server2.port");
    lemma_flag_step(t6, a, b, lo, a.steam_bot_commands_without_mention != b.steam_bot_commands_without_mention, "steam.chat.commands_without_mention", 6);
    let t7 = t6 + flag(a.steam_bot_commands_without_mention != b.steam_bot_commands_without_mention, "steam.chat.commands_without_mention");
    lemma_flag_step(t7, a, b, lo, a.plan_chat_id != b.plan_chat_id, "steam.chat.plan_chat_id", 7);
    let t8 = t7 + flag(a.plan_chat_id != b.plan_chat_id, "steam.chat.plan_chat_id");
    lemma_flag_step(t8, a, b, lo, a.dedicated_plan_chat != b.dedicated_plan_chat, "steam.chat.dedicated_plan_chat", 8);
    let t9 = t8 + flag(a.dedicated_plan_chat != b.dedicated_plan_chat, "steam.chat.dedicated_plan_chat");
    lemma_flag_step(t9, a, b, lo, a.plan_chat_keep_clean != b.plan_chat_keep_clean, "steam.chat.plan_chat_keep_clean", 9);
    let t10 = t9 + flag(a.plan_chat_keep_clean != b.plan_chat_keep_clean, "steam.chat.plan_chat_keep_clean");
    assert(t10 == live_changes_a(s, a, b));
}

proof fn lemma_part_b_once(s: Seq<&'static str>, a: Config, b: Config, lo: int)
    requires
        distinct_before(s, 10),
        lists_exactly(s, a, b, lo, 10),
        lo <= 10,
    ensures
        distinct_before(live_changes_b(s, a, b), 19),
        lists_exactly(live_changes_b(s, a, b), a, b, lo, 19),
{
    lemma_report_ranks();
    lemma_flag_step(s, a, b, lo, a.plan_mention_user != b.plan_mention_user, "steam.chat.plan_mention_user", 10);
    let t1 = s + flag(a.plan_mention_user != b.plan_mention_user, "steam.chat.plan_mention_user");
    lemma_flag_step(t1, a, b, lo, a.poll_chat_id != b.poll_chat_id, "steam.chat.poll_chat_id", 11);
    let t2 = t1 + flag(a.poll_chat_id != b.poll_chat_id, "steam.chat.poll_chat_id");
    lemma_flag_step(t2, a, b, lo, a.dedicated_poll_chat != b.dedicated_poll_chat, "steam.chat.dedicated_poll_chat", 12);
    let t3 = t2 + flag(a.dedicated_poll_chat != b.dedicated_poll_chat, "steam.chat.dedicated_poll_chat");
    lemma_flag_step(t3, a, b, lo, a.poll_chat_remove_command_message != b.poll_chat_remove_command_message, "steam.chat.poll_chat_remove_command_message", 13);
    let t4 = t3 + flag(a.poll_chat_remove_command_message != b.poll_chat_remove_command_message, "steam.chat.poll_chat_remove_command_message");
    lemma_flag_step(t4, a, b, lo, a.poll_mention_user != b.poll_mention_user, "steam.chat.poll_mention_user", 14);
    let t5 = t4 + flag(a.poll_mention_user != b.poll_mention_user, "steam.chat.poll_mention_user");
    lemma_flag_step(t5, a, b, lo, a.steambot_admins@ != b.steambot_admins@, "steam.chat.admin.admins", 15);
    let t6 = t5 + flag(a.steambot_admins@ != b.steambot_admins@, "steam.chat.admin.admins");
    lemma_flag_step(t6, a, b, lo, a.steambot_admins_same_as_frontend != b.steambot_admins_same_as_frontend, "steam.chat.admin.admins_same_as_frontend", 16);
    let t7 = t6 + flag(a.steambot_admins_same_as_frontend != b.steambot_admins_same_as_frontend, "steam.chat.admin.admins_same_as_frontend");
    lemma_flag_step(t7, a, b, lo, a.steambot_mute_max_minutes != b.steambot_mute_max_minutes, "steam.chat.admin.mute_max_minutes", 17);
    let t8 = t7 + flag(a.steambot_mute_max_minutes != b.steambot_mute_max_minutes, "steam.chat.admin.mute_max_minutes");
    lemma_flag_step(t8, a, b, lo, a.steambot_ignore_muted_commands != b.steambot_ignore_muted_commands, "steam.chat.admin.ignore_muted_commands", 18);
    let t9 = t8 + flag(a.steambot_ignore_muted_commands != b.steambot_ignore_muted_commands, "steam.chat.admin.ignore_muted_commands");
    assert(t9 == live_changes_b(s, a, b));
}

proof fn lemma_part_c_once(s: Seq<&'static str>, a: Config, b: Config, lo: int)
    requires
        distinct_before(s, 19),
        lists_exactly(s, a, b, lo, 19),
        lo <= 19,
    ensures
        distinct_before(live_changes_c(s, a, b), 31),
        lists_exactly(live_changes_c(s, a, b), a, b, lo, 31),
{
    lemma_report_ranks();
    lemma_flag_step(s, a, b, lo, a.auth_frontend_url@ != b.auth_frontend_url@, "auth.frontend_url", 19);
    let t1 = s + flag(a.auth_frontend_url@ != b.auth_frontend_url@, "auth.frontend_url");
    lemma_flag_step(t1, a, b, lo, a.auth_cookie_domain@ != b.auth_cookie_domain@, "auth.cookie_domain", 20);
    let t2 = t1 + flag(a.auth_cookie_domain@ != b.auth_cookie_domain@, "auth.cookie_domain");
    lemma_flag_step(t2, a, b, lo, a.auth_session_ttl_hours != b.auth_session_ttl_hours, "auth.session_ttl_hours", 21);
    let t3 = t2 + flag(a.auth_session_ttl_hours != b.auth_session_ttl_hours, "auth.session_ttl_hours");
    lemma_flag_step(t3, a, b, lo, views(a.auth_csrf_allowed_origins@) != views(b.auth_csrf_allowed_origins@), "auth.csrf_allowed_origins", 22);
    let t4 = t3 + flag(views(a.auth_csrf_allowed_origins@) != views(b.auth_csrf_allowed_origins@), "auth.csrf_allowed_origins");
    lemma_flag_step(t4, a, b, lo, a.live_server_open_enabled != b.live_server_open_enabled, "live_server_info.open_endpoint_enabled", 23);
    let t5 = t4 + flag(a.live_server_open_enabled != b.live_server_open_enabled, "live_server_info.open_endpoint_enabled");
    lemma_flag_step(t5, a, b, lo, a.live_server_block_private_ips != b.live_server_block_private_ips, "live_server_info.block_private_ips", 24);
    let t6 = t5 + flag(a.live_server_block_private_ips != b.live_server_block_private_ips, "live_server_info.block_private_ips");
    lemma_flag_step(t6, a, b, lo, a.live_server_rate_limit_per_ip != b.live_server_rate_limit_per_ip, "live_server_info.rate_limit_per_ip_per_minute", 25);
    let t7 = t6 + flag(a.live_server_rate_limit_per_ip != b.live_server_rate_limit_per_ip, "live_server_info.rate_limit_per_ip_per_minute");
    lemma_flag_step(t7, a, b, lo, a.live_server_rate_limit_burst != b.live_server_rate_limit_burst, "live_server_info.rate_limit_burst", 26);
    let t8 = t7 + flag(a.live_server_rate_limit_burst != b.live_server_rate_limit_burst, "live_server_info.rate_limit_burst");
    lemma_flag_step(t8, a, b, lo, a.steam_rest_user_rate_limit != b.steam_rest_user_rate_limit, "steam_rest.requests_per_minute_per_user", 27);
    let t9 = t8 + flag(a.steam_rest_user_rate_limit != b.steam_rest_user_rate_limit, "steam_rest.requests_per_minute_per_user");
    lemma_flag_step(t9, a, b, lo, a.steam_rest_ip_rate_limit != b.steam_rest_ip_rate_limit, "steam_rest.requests_per_minute_per_ip", 28);
    let t10 = t9 + flag(a.steam_rest_ip_rate_limit != b.steam_rest_ip_rate_limit, "steam_rest.requests_per_minute_per_ip");
    lemma_flag_step(t10, a, b, lo, a.steam_rest_cache_ttl_secs != b.steam_rest_cache_ttl_secs, "steam_rest.response_cache_ttl_secs", 29);
    let t11 = t10 + flag(a.steam_rest_cache_ttl_secs != b.steam_rest_cache_ttl_secs, "steam_rest.response_cache_ttl_secs");
    lemma_flag_step(t11, a, b, lo, a.server_daemon_stale_after_secs != b.server_daemon_stale_after_secs, "server_daemon.stale_after_secs", 30);
    let t12 = t11 + flag(a.server_daemon_stale_after_secs != b.server_daemon_stale_after_secs, "server_daemon.stale_after_secs");
    assert(t12 == live_changes_c(s, a, b));
}

proof fn lemma_part_r_once(s: Seq<&'static str>, a: Config, b: Config, lo: int)
    requires
        distinct_before(s, 31),
        lists_exactly(s, a, b, lo, 31),
        lo <= 31,
    ensures
        distinct_before(restart_from(s, a, b), 39),
        lists_exactly(restart_from(s, a, b), a, b, lo, 39),
{
    lemma_report_ranks();
    lemma_flag_step(s, a, b, lo, a.steam_account@ != b.steam_account@, "steam.bot.username", 31);
    let t1 = s + flag(a.steam_account@ != b.steam_account@, "steam.bot.username");
    lemma_flag_step(t1, a, b, lo, a.steam_password@ != b.steam_password@, "steam.bot.password", 32);
    let t2 = t1 + flag(a.steam_password@ != b.steam_password@, "steam.bot.password");
    lemma_flag_step(t2, a, b, lo, a.chat_group_id != b.chat_group_id, "steam.chat.group_id", 33);
    let t3 = t2 + flag(a.chat_group_id != b.chat_group_id, "steam.chat.group_id");
    lemma_flag_step(t3, a, b, lo, a.chat_id != b.chat_id, "steam.chat.chat_id", 34);
    let t4 = t3 + flag(a.chat_id != b.chat_id, "steam.chat.chat_id");
    lemma_flag_step(t4, a, b, lo, a.session_secret@ != b.session_secret@, "auth.session_secret", 35);
    let t5 = t4 + flag(a.session_secret@ != b.session_secret@, "auth.session_secret");
    lemma_flag_step(t5, a, b, lo, a.server_daemon_registry_path@ != b.server_daemon_registry_path@, "server_daemon.registry_path", 36);
    let t6 = t5 + flag(a.server_daemon_registry_path@ != b.server_daemon_registry_path@, "server_daemon.registry_path");
    lemma_flag_step(t6, a, b, lo, a.server_daemon_sync_api_key@ != b.server_daemon_sync_api_key@, "server_daemon.sync_api_key", 37);
    let t7 = t6 + flag(a.server_daemon_sync_api_key@ != b.server_daemon_sync_api_key@, "server_daemon.sync_api_key");
    lemma_flag_step(t7, a, b, lo, a.server_daemon_url@ != b.server_daemon_url@, "server_daemon.daemon_url", 38);
    let t8 = t7 + flag(a.server_daemon_url@ != b.server_daemon_url@, "server_daemon.daemon_url");
    assert(t8 == restart_from(s, a, b));
}

proof fn lemma_report_order(a: Config, b: Config)
    ensures
        distinct_before(live_changes(a, b), 31),
        lists_exactly(live_changes(a, b), a, b, 0, 31),
        distinct_before(restart_changes(a, b), 39),
        lists_exactly(restart_changes(a, b), a, b, 31, 39),
        distinct_before(restart_from(live_changes(a, b), a, b), 39),
{
    let e = Seq::<&'static str>::empty();
    reveal(distinct_before);
    reveal(lists_exactly);
    assert(distinct_before(e, 0));
    assert(distinct_before(e, 31));
    assert(lists_exactly(e, a, b, 0, 0));
    assert(lists_exactly(e, a, b, 31, 31));
    lemma_part_a_once(e, a, b, 0);
    let la = live_changes_a(e, a, b);
    lemma_part_b_once(la, a, b, 0);
    let lb = live_changes_b(la, a, b);
    lemma_part_c_once(lb, a, b, 0);
    let lv = live_changes(a, b);
    lemma_part_r_once(e, a, b, 31);
    lemma_part_r_once(lv, a, b, 0);
}

/// Each key is reported at most once: no key appears twice in the live list, in the
/// restart list, or in both.
pub proof fn lemma_diff_names_once(a: Config, b: Config)
    ensures
        (live_changes(a, b) + restart_changes(a, b)).no_duplicates(),
{
    lemma_report_order(a, b);
    reveal(distinct_before);
    let lv = live_changes(a, b);
    assert(restart_from(lv, a, b) =~= lv + restart_changes(a, b));
}

/// A key is reported exactly when the two configurations differ in the field it names:
/// the first 31 keys of the report order in the live list, the other 8 in the restart
/// list, and no other text in either.
pub proof fn lemma_diff_lists_changed_keys(a: Config, b: Config)
    ensures
        forall|key: Seq<char>| #[trigger] lists_key(live_changes(a, b), key) <==> key_rank(key) < 31
            && key_differs(a, b, key),
        forall|key: Seq<char>| #[trigger] lists_key(restart_changes(a, b), key) <==> 31 <= key_rank(key)
            < 39 && key_differs(a, b, key),
{
    lemma_report_order(a, b);
    lemma_report_ranks();
    reveal(lists_exactly);
}

proof fn lemma_part_a_symmetric(s: Seq<&'static str>, a: Config, b: Config)
    ensures
        live_changes_a(s, a, b) == live_changes_a(s, b, a),
{
}

proof fn lemma_part_b_symmetric(s: Seq<&'static str>, a: Config, b: Config)
    ensures
        live_changes_b(s, a, b) == live_changes_b(s, b, a),
{
}

proof fn lemma_part_c_symmetric(s: Seq<&'static str>, a: Config, b: Config)
    ensures
        live_changes_c(s, a, b) == live_changes_c(s, b, a),
{
}

proof fn lemma_restart_symmetric(s: Seq<&'static str>, a: Config, b: Config)
    ensures
        restart_from(s, a, b) == restart_from(s, b, a),
{
}

// ---------------------------------------------------------------------------
// Accessors
// ---------------------------------------------------------------------------

/// `(x as i64).saturating_mul(3600)` for an hour count.
pub open spec fn hours_to_secs_saturating(h: u64) -> i64 {
    let t = h as i64;
    if t as int * 3600 > i64::MAX {
        i64::MAX
    } else if t as int * 3600 < i64::MIN {
        i64::MIN
    } else {
        (t as int * 3600) as i64
    }
}

/// A configured server endpoint: `Some((ip, port))` unless the address is blank or the
/// port is zero.
pub open spec fn endpoint(ip: Seq<char>, port: u16) -> Option<(Seq<char>, u16)> {
    if is_blank(ip) || port == 0 {
        None
    } else {
        Some((ip, port))
    }
}

pub open spec fn endpoint_view(r: Option<(&str, u16)>) -> Option<(Seq<char>, u16)> {
    match r {
        Some((ip, port)) => Some((ip@, port)),
        None => None,
    }
}

impl Config {
    /// The Steam IDs used for SteamBot admin commands.
    pub open spec fn steambot_admin_ids_spec(&self) -> Seq<i64> {
        if self.steambot_admins_same_as_frontend {
            self.frontend_admins@
        } else {
            self.steambot_admins@
        }
    }

    /// Whether a Steam ID has frontend admin permissions.
    pub fn is_admin(&self, steam_id: i64) -> (r: bool)
        ensures
            r == self.frontend_admins@.contains(steam_id),
    {
        contains_id(self.frontend_admins.as_slice(), steam_id)
    }

    /// Session cookie max-age in seconds.
    pub fn auth_session_max_age_secs(&self) -> (r: i64)
        ensures
            r == hours_to_secs_saturating(self.auth_session_ttl_hours),
    {
        #[verifier::truncate]
        let t: i64 = self.auth_session_ttl_hours as i64;
        if t > i64::MAX / 3600 {
            i64::MAX
        } else if t < i64::MIN / 3600 {
            i64::MIN
        } else {
            t * 3600
        }
    }

    /// The cookie `Domain` attribute: the trimmed setting, or `None` when it is blank.
    pub fn auth_cookie_domain(&self) -> (r: Option<&str>)
        ensures
            match r {
                Some(d) => !is_blank(self.auth_cookie_domain@) && d@ == trim(
                    self.auth_cookie_domain@,
                ),
                None => is_blank(self.auth_cookie_domain@),
            },
    {
        let v = chars_of(self.auth_cookie_domain.as_str());
        let (a, b) = trim_bounds(v.as_slice());
        if a == b {
            None
        } else {
            Some(self.auth_cookie_domain.as_str().substring_char(a, b))
        }
    }

    /// The allowed Origin/Referer values for CSRF validation.
    pub fn auth_csrf_allowed_origins(&self) -> (r: &[String])
        ensures
            r@ == self.auth_csrf_allowed_origins@,
    {
        self.auth_csrf_allowed_origins.as_slice()
    }

    /// The Steam IDs allowed to use SteamBot admin commands.
    pub fn steambot_admin_ids(&self) -> (r: &[i64])
        ensures
            r@ == self.steambot_admin_ids_spec(),
    {
        if self.steambot_admins_same_as_frontend {
            self.frontend_admins.as_slice()
        } else {
            self.steambot_admins.as_slice()
        }
    }

    /// Whether a Steam ID may use SteamBot admin commands.
    pub fn is_steambot_admin(&self, steam_id: u64) -> (r: bool)
        ensures
            r == self.steambot_admin_ids_spec().contains(steam_id as i64),
    {
        #[verifier::truncate]
        let id: i64 = steam_id as i64;
        contains_id(self.steambot_admin_ids(), id)
    }

    /// The primary server address.
    pub fn server_ip(&self) -> (r: &str)
        ensures
            r@ == self.server_ip@,
    {
        self.server_ip.as_str()
    }

    /// The primary server port.
    pub fn server_port(&self) -> (r: u16)
        ensures
            r == self.server_port,
    {
        self.server_port
    }

    /// The primary server endpoint when it is configured.
    pub fn primary_server(&self) -> (r: Option<(&str, u16)>)
        ensures
            endpoint_view(r) == endpoint(self.server_ip@, self.server_port),
    {
        if blank(self.server_ip.as_str()) || self.server_port == 0 {
            None
        } else {
            Some((self.server_ip(), self.server_port()))
        }
    }

    /// The secondary server address.
    pub fn server2_ip(&self) -> (r: &str)
        ensures
            r@ == self.server2_ip@,
    {
        self.server2_ip.as_str()
    }

    /// The secondary server port.
    pub fn server2_port(&self) -> (r: u16)
        ensures
            r == self.server2_port,
    {
        self.server2_port
    }

    /// The secondary server endpoint when it is configured.
    pub fn secondary_server(&self) -> (r: Option<(&str, u16)>)
        ensures
            endpoint_view(r) == endpoint(self.server2_ip@, self.server2_port),
    {
        if blank(self.server2_ip.as_str()) || self.server2_port == 0 {
            None
        } else {
            Some((self.server2_ip(), self.server2_port()))
        }
    }

    /// A configured server endpoint by number: 1 is the primary, 2 the secondary.
    pub fn server_by_id(&self, server_id: u8) -> (r: Option<(&str, u16)>)
        ensures
            endpoint_view(r) == (if server_id == 1 {
                endpoint(self.server_ip@, self.server_port)
            } else if server_id == 2 {
                endpoint(self.server2_ip@, self.server2_port)
            } else {
                None
            }),
    {
        match server_id {
            1 => self.primary_server(),
            2 => self.secondary_server(),
            _ => None,
        }
    }

    /// The dedicated planning chat when it is enabled and set.
    pub fn effective_plan_chat(&self) -> (r: Option<(u64, u64)>)
        ensures
            r == (if self.dedicated_plan_chat && self.plan_chat_id != 0 {
                Some((self.chat_group_id, self.plan_chat_id))
            } else {
                None
            }),
    {
        if self.dedicated_plan_chat && self.plan_chat_id != 0 {
            Some((self.chat_group_id, self.plan_chat_id))
        } else {
            None
        }
    }

    /// The dedicated poll chat when it is enabled and set.
    pub fn effective_poll_chat(&self) -> (r: Option<(u64, u64)>)
        ensures
            r == (if self.dedicated_poll_chat && self.poll_chat_id != 0 {
                Some((self.chat_group_id, self.poll_chat_id))
            } else {
                None
            }),
    {
        if self.dedicated_poll_chat && self.poll_chat_id != 0 {
            Some((self.chat_group_id, self.poll_chat_id))
        } else {
            None
        }
    }

    /// The planning chat to keep clean when clean-up is enabled and the chat is set.
    pub fn plan_chat_clean_target(&self) -> (r: Option<(u64, u64)>)
        ensures
            r == (if self.plan_chat_keep_clean && self.plan_chat_id != 0 {
                Some((self.chat_group_id, self.plan_chat_id))
            } else {
                None
            }),
    {
        if self.plan_chat_keep_clean && self.plan_chat_id != 0 {
            Some((self.chat_group_id, self.plan_chat_id))
        } else {
            None
        }
    }
}

/// Whether a list of Steam IDs holds an ID.
pub fn contains_id(ids: &[i64], id: i64) -> (r: bool)
    ensures
        r == ids@.contains(id),
{
    let mut i: usize = 0;
    while i < ids.len()
        invariant
            i <= ids@.len(),
            forall|j: int| 0 <= j < i ==> ids@[j] != id,
        decreases ids@.len() - i,
    {
        if ids[i] == id {
            assert(ids@[i as int] == id);
            return true;
        }
        i = i + 1;
    }
    false
}

/// Whether a list of numbers holds a number.
pub fn contains_u64(ids: &[u64], id: u64) -> (r: bool)
    ensures
        r == ids@.contains(id),
{
    let mut i: usize = 0;
    while i < ids.len()
        invariant
            i <= ids@.len(),
            forall|j: int| 0 <= j < i ==> ids@[j] != id,
        decreases ids@.len() - i,
    {
        if ids[i] == id {
            assert(ids@[i as int] == id);
            return true;
        }
        i = i + 1;
    }
    false
}

// ---------------------------------------------------------------------------
// Runtime preparation and reloading
// ---------------------------------------------------------------------------

/// The configuration with its session secret replaced.
pub open spec fn with_secret(c: Config, secret: String) -> Config {
    Config { session_secret: secret, ..c }
}

/// What a session secret becomes when the configuration is prepared for use: a set
/// secret stays; an empty one inherits the previous non-empty secret; otherwise it is
/// a fresh random token of 64 lower-case hexadecimal characters.
pub open spec fn prepared_secret_ok(old_secret: Seq<char>, previous: Option<Seq<char>>, new_secret: Seq<char>) -> bool {
    if old_secret.len() != 0 {
        new_secret == old_secret
    } else if previous matches Some(p) && p.len() != 0 {
        new_secret == previous->0
    } else {
        new_secret.len() == 64 && crate::rng::is_lower_hex(new_secret)
    }
}

/// On-disk identity of the configuration file: modification time and length.
#[derive(Clone, Copy, Debug, PartialEq, Eq, Structural)]
pub struct FileIdentity {
    pub modified_secs: i64,
    pub modified_nanos: u32,
    pub len: u64,
}

/// Whether the file still has the identity last seen, so that a reload can be skipped.
pub fn identity_unchanged(last: Option<FileIdentity>, current: FileIdentity) -> (r: bool)
    ensures
        r == (last == Some(current)),
{
    match last {
        Some(l) => l == current,
        None => false,
    }
}

impl Config {
    /// Makes sure a session secret exists without touching any other field.
    pub fn prepare_for_runtime(&mut self, previous: Option<&Config>)
        ensures
            *final(self) == with_secret(*old(self), final(self).session_secret),
            prepared_secret_ok(
                old(self).session_secret@,
                match previous {
                    Some(p) => Some(p.session_secret@),
                    None => None,
                },
                final(self).session_secret@,
            ),
    {
        if !self.session_secret.as_str().is_empty() {
            proof {
                assert(old(self).session_secret@.len() != 0);
            }
            return;
        }
        if let Some(p) = previous {
            if !p.session_secret.as_str().is_empty() {
                self.session_secret = p.session_secret.clone();
                return;
            }
        }
        self.session_secret = crate::rng::random_hex_token();
    }

    /// The configuration with every field copied.
    pub fn duplicate(&self) -> (r: Config)
        ensures
            same_values(r, *self),
    {
        Config {
            frontend_admins: self.frontend_admins.clone(),
            steam_web_api_key: self.steam_web_api_key.clone(),
            chat_group_id: self.chat_group_id,
            chat_id: self.chat_id,
            plan_chat_id: self.plan_chat_id,
            dedicated_plan_chat: self.dedicated_plan_chat,
            plan_chat_keep_clean: self.plan_chat_keep_clean,
            plan_mention_user: self.plan_mention_user,
            poll_chat_id: self.poll_chat_id,
            dedicated_poll_chat: self.dedicated_poll_chat,
            poll_chat_remove_command_message: self.poll_chat_remove_command_message,
            poll_mention_user: self.poll_mention_user,
            steam_account: self.steam_account.clone(),
            steam_password: self.steam_password.clone(),
            steambot_admins: self.steambot_admins.clone(),
            steambot_admins_same_as_frontend: self.steambot_admins_same_as_frontend,
            steambot_mute_max_minutes: self.steambot_mute_max_minutes,
            steambot_ignore_muted_commands: self.steambot_ignore_muted_commands,
            server_ip: self.server_ip.clone(),
            server_port: self.server_port,
            server2_ip: self.server2_ip.clone(),
            server2_port: self.server2_port,
            steam_bot_commands_without_mention: self.steam_bot_commands_without_mention,
            session_secret: self.session_secret.clone(),
            auth_frontend_url: self.auth_frontend_url.clone(),
            auth_cookie_domain: self.auth_cookie_domain.clone(),
            auth_session_ttl_hours: self.auth_session_ttl_hours,
            auth_csrf_allowed_origins: clone_strings(self.auth_csrf_allowed_origins.as_slice()),
            live_server_open_enabled: self.live_server_open_enabled,
            live_server_block_private_ips: self.live_server_block_private_ips,
            live_server_rate_limit_per_ip: self.live_server_rate_limit_per_ip,
            live_server_rate_limit_burst: self.live_server_rate_limit_burst,
            steam_rest_user_rate_limit: self.steam_rest_user_rate_limit,
            steam_rest_ip_rate_limit: self.steam_rest_ip_rate_limit,
            steam_rest_cache_ttl_secs: self.steam_rest_cache_ttl_secs,
            server_daemon_registry_path: self.server_daemon_registry_path.clone(),
            server_daemon_sync_api_key: self.server_daemon_sync_api_key.clone(),
            server_daemon_url: self.server_daemon_url.clone(),
            server_daemon_stale_after_secs: self.server_daemon_stale_after_secs,
        }
    }
}

/// Copies a list of strings.
pub fn clone_strings(v: &[String]) -> (r: Vec<String>)
    ensures
        views(r@) == views(v@),
{
    let mut r: Vec<String> = Vec::new();
    let mut i: usize = 0;
    while i < v.len()
        invariant
            i <= v@.len(),
            r@.len() == i,
            views(r@) == views(v@).take(i as int),
        decreases v@.len() - i,
    {
        let c = v[i].clone();
        r.push(c);
        i = i + 1;
        assert(views(r@) =~= views(v@).take(i as int));
    }
    assert(views(v@).take(v@.len() as int) =~= views(v@));
    r
}

/// What applying a freshly parsed configuration `new_config` to `before` gives: the new
/// configuration, its empty session secret inheriting the running one, is compared with
/// `before`; `after` is the new configuration when something changed, else `before`.
pub open spec fn reload_applied(before: Config, new_config: Config, change: ConfigChange, after: Config) -> bool {
    &&& change.unchanged == (change.live_applied@.len() == 0 && change.requires_restart@.len() == 0)
    &&& exists|prepared: Config|
        {
            &&& prepared == with_secret(new_config, prepared.session_secret)
            &&& prepared_secret_ok(
                new_config.session_secret@,
                Some(before.session_secret@),
                prepared.session_secret@,
            )
            &&& change.live_applied@ == live_changes(before, prepared)
            &&& change.requires_restart@ == restart_changes(before, prepared)
            &&& if change.unchanged {
                after == before
            } else {
                after == prepared
            }
        }
}

/// Applies a freshly parsed configuration to the current one: the new configuration
/// inherits the running session secret when its own is empty, the two are compared,
/// and the current configuration is replaced only when something changed.
pub fn apply_reload(current: &mut Config, new_config: Config) -> (change: ConfigChange)
    ensures
        reload_applied(*old(current), new_config, change, *final(current)),
{
    let mut next = new_config;
    next.prepare_for_runtime(Some(&*current));
    let change = current.diff(&next);
    let ghost prepared = next;
    if !change.unchanged {
        *current = next;
    }
    change
}

/// A reload of the configuration file: when the file still has the identity last seen
/// nothing is read and nothing changes; a file that could not be read or parsed (`parsed`
/// holds the reason) leaves the configuration as it was and is reported; otherwise the
/// parsed configuration is applied as `apply_reload` does.
pub fn reload_config(
    current: &mut Config,
    last: Option<FileIdentity>,
    identity: FileIdentity,
    parsed: Result<Config, String>,
) -> (r: Result<ConfigChange, String>)
    ensures
        last == Some(identity) ==> (r matches Ok(c) && c.unchanged && c.live_applied@.len() == 0
            && c.requires_restart@.len() == 0) && *final(current) == *old(current),
        last != Some(identity) ==> match parsed {
            Err(e) => (r matches Err(m) && m@ == "Failed to reload config: "@ + e@) && *final(current)
                == *old(current),
            Ok(n) => r matches Ok(c) && reload_applied(*old(current), n, c, *final(current)),
        },
{
    if identity_unchanged(last, identity) {
        return Ok(ConfigChange { live_applied: Vec::new(), requires_restart: Vec::new(), unchanged: true });
    }
    match parsed {
        Err(e) => Err(crate::text::concat("Failed to reload config: ", e.as_str())),
        Ok(n) => Ok(apply_reload(current, n)),
    }
}

} // verus!
