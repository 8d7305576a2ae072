//! The Steam chat bot: its connection lifecycle, reconnection policy and the write-once
//! configuration it runs with.
use vstd::prelude::*;
use crate::config::Config;
use crate::text::{contains, owned, str_contains, lowercased};

verus! {

/// Words that mark an error message as a connection problem.
pub const CONNECTION_ERROR_TOKENS: [&'static str; 6] = [
    "broken pipe",
    "connection",
    "network",
    "timeout",
    "closed",
    "io error",
];

/// How many reconnections a health check tries before giving up.
pub const RECONNECT_RETRY_LIMIT: u32 = 3;

/// The longest wait before a reconnection, in seconds.
pub const MAX_BACKOFF_SECONDS: u64 = 60;

/// How often, at most, the connection is probed, in seconds.
pub const HEALTH_CHECK_INTERVAL_SECS: u64 = 300;

/// The tokens as text.
pub open spec fn connection_tokens() -> Seq<Seq<char>> {
    seq!["broken pipe"@, "connection"@, "network"@, "timeout"@, "closed"@, "io error"@]
}

/// Whether an error message names a connection problem.
pub open spec fn is_connection_error_spec(message: Seq<char>) -> bool {
    exists|i: int| 0 <= i < 6 && contains(message, #[trigger] connection_tokens()[i])
}

/// Whether an error message names a connection problem (the caller lower-cases it).
pub fn is_connection_error(message: &str) -> (r: bool)
    ensures
        r == is_connection_error_spec(message@),
{
    let tokens = CONNECTION_ERROR_TOKENS;
    assert(tokens@.map_values(|t: &str| t@) =~= connection_tokens());
    let mut i: usize = 0;
    while i < 6
        invariant
            i <= 6,
            tokens@.map_values(|t: &str| t@) == connection_tokens(),
            forall|j: int| 0 <= j < i ==> !contains(message@, #[trigger] connection_tokens()[j]),
        decreases 6 - i,
    {
        assert(tokens@[i as int]@ == connection_tokens()[i as int]);
        if str_contains(message, tokens[i]) {
            return true;
        }
        i = i + 1;
    }
    false
}

/// Two to the power `e`.
pub open spec fn pow2(e: nat) -> nat
    decreases e,
{
    if e == 0 {
        1
    } else {
        2 * pow2((e - 1) as nat)
    }
}

/// The wait before reconnection attempt `attempt`: doubling from one second, at most
/// a minute.
pub open spec fn backoff_spec(attempt: u32) -> u64 {
    let exponent: nat = if attempt == 0 { 0 } else { (attempt - 1) as nat };
    if pow2(exponent) < MAX_BACKOFF_SECONDS {
        pow2(exponent) as u64
    } else {
        MAX_BACKOFF_SECONDS
    }
}

/// The wait, in seconds, before reconnection attempt `attempt`. The shift `1 << (attempt
/// - 1)` must stay within 64 bits.
pub fn calculate_backoff_delay(attempt: u32) -> (secs: u64)
    requires
        attempt <= 64,
    ensures
        secs == backoff_spec(attempt),
{
    let exponent: u32 = if attempt == 0 { 0 } else { attempt - 1 };
    let mut p: u64 = 1;
    let mut k: u32 = 0;
    while k < exponent && p < MAX_BACKOFF_SECONDS
        invariant
            k <= exponent,
            exponent < 64,
            p == pow2(k as nat),
            p < 2 * MAX_BACKOFF_SECONDS,
        decreases exponent - k,
    {
        p = p * 2;
        k = k + 1;
    }
    proof {
        if k < exponent {
            lemma_pow2_monotone(k as nat, exponent as nat);
        }
    }
    if p < MAX_BACKOFF_SECONDS {
        p
    } else {
        MAX_BACKOFF_SECONDS
    }
}

proof fn lemma_pow2_positive(e: nat)
    ensures
        pow2(e) >= 1,
    decreases e,
{
    if e > 0 {
        lemma_pow2_positive((e - 1) as nat);
    }
}

/// The wait before a reconnection is between one second and a minute, and never
/// shrinks as attempts accumulate.
pub proof fn lemma_backoff_bounded_and_growing(a: u32, b: u32)
    requires
        a <= b,
    ensures
        1 <= backoff_spec(a) <= MAX_BACKOFF_SECONDS,
        backoff_spec(a) <= backoff_spec(b),
{
    let ea: nat = if a == 0 { 0 } else { (a - 1) as nat };
    let eb: nat = if b == 0 { 0 } else { (b - 1) as nat };
    lemma_pow2_positive(ea);
    lemma_pow2_monotone(ea, eb);
}

proof fn lemma_pow2_monotone(a: nat, b: nat)
    requires
        a <= b,
    ensures
        pow2(a) <= pow2(b),
    decreases b - a,
{
    if a < b {
        lemma_pow2_monotone(a, (b - 1) as nat);
    }
}

/// The state of the Steam connection.
#[derive(Clone, Copy, Debug, PartialEq, Eq, Structural)]
pub enum ConnectionState {
    Disconnected,
    Connecting,
    Connected,
    Reconnecting,
    Failed,
}

/// The bot's connection bookkeeping: the state, whether a session is held, the
/// reconnection attempts since the last success, and the last health check (seconds
/// on the bot's clock).
pub struct SteamBot {
    pub connection_state: ConnectionState,
    pub session_active: bool,
    pub reconnect_attempts: u32,
    pub last_health_check: Option<u64>,
}

/// Why the bot could not log in.
pub open spec fn missing_credentials(config: Config) -> bool {
    config.steam_account@.len() == 0 || config.steam_password@.len() == 0
}

impl SteamBot {
    /// A bot that is not connected.
    pub fn new() -> (b: Self)
        ensures
            b.connection_state == ConnectionState::Disconnected,
            !b.session_active,
            b.reconnect_attempts == 0,
            b.last_health_check is None,
    {
        SteamBot {
            connection_state: ConnectionState::Disconnected,
            session_active: false,
            reconnect_attempts: 0,
            last_health_check: None,
        }
    }

    /// Begins a login: refused without credentials, else the bot is connecting.
    pub fn begin_login(&mut self, config: &Config) -> (r: Result<(), String>)
        ensures
            missing_credentials(*config) ==> (r matches Err(e) && e@
                == "Steam credentials are not configured in config.toml"@) && *final(self) == *old(self),
            !missing_credentials(*config) ==> r is Ok && final(self).connection_state
                == ConnectionState::Connecting && final(self).session_active == old(self).session_active
                && final(self).reconnect_attempts == old(self).reconnect_attempts
                && final(self).last_health_check == old(self).last_health_check,
    {
        if config.steam_account.as_str().is_empty() || config.steam_password.as_str().is_empty() {
            return Err(owned("Steam credentials are not configured in config.toml"));
        }
        self.connection_state = ConnectionState::Connecting;
        Ok(())
    }

    /// A login went through: the session is held and the bot is connected.
    pub fn login_succeeded(&mut self)
        ensures
            final(self).connection_state == ConnectionState::Connected,
            final(self).session_active,
            final(self).reconnect_attempts == old(self).reconnect_attempts,
            final(self).last_health_check == old(self).last_health_check,
    {
        self.session_active = true;
        self.connection_state = ConnectionState::Connected;
    }

    /// Starts a reconnection: the bot is reconnecting, one more attempt is counted, the
    /// session is dropped, and the wait before logging in again is returned.
    pub fn begin_reconnect(&mut self) -> (wait_secs: u64)
        requires
            old(self).reconnect_attempts < 64,
        ensures
            final(self).connection_state == ConnectionState::Reconnecting,
            final(self).reconnect_attempts == old(self).reconnect_attempts + 1,
            !final(self).session_active,
            final(self).last_health_check == old(self).last_health_check,
            wait_secs == backoff_spec(final(self).reconnect_attempts),
    {
        self.connection_state = ConnectionState::Reconnecting;
        self.reconnect_attempts = self.reconnect_attempts + 1;
        self.session_active = false;
        calculate_backoff_delay(self.reconnect_attempts)
    }

    /// Ends a reconnection: on success the attempts are reset and the bot is connected,
    /// else it has failed.
    pub fn finish_reconnect(&mut self, logged_in: bool) -> (r: Result<(), String>)
        ensures
            logged_in ==> r is Ok && final(self).connection_state == ConnectionState::Connected
                && final(self).reconnect_attempts == 0 && final(self).session_active,
            !logged_in ==> (r matches Err(e) && e@ == "Failed to reconnect to Steam"@)
                && final(self).connection_state == ConnectionState::Failed
                && final(self).reconnect_attempts == old(self).reconnect_attempts
                && final(self).session_active == old(self).session_active,
            final(self).last_health_check == old(self).last_health_check,
    {
        if logged_in {
            self.reconnect_attempts = 0;
            self.session_active = true;
            self.connection_state = ConnectionState::Connected;
            Ok(())
        } else {
            self.connection_state = ConnectionState::Failed;
            Err(owned("Failed to reconnect to Steam"))
        }
    }

    /// Whether a health check is due at `now`, recording `now` when it is: the first
    /// check, or five minutes after the last.
    pub fn health_check_due(&mut self, now: u64) -> (due: bool)
        ensures
            due == (match old(self).last_health_check {
                None => true,
                Some(last) => now >= last && now - last >= HEALTH_CHECK_INTERVAL_SECS,
            }),
            final(self).last_health_check == (if due { Some(now) } else { old(self).last_health_check }),
            final(self).connection_state == old(self).connection_state,
            final(self).reconnect_attempts == old(self).reconnect_attempts,
            final(self).session_active == old(self).session_active,
    {
        let due = match self.last_health_check {
            None => true,
            Some(last) => now >= last && now - last >= HEALTH_CHECK_INTERVAL_SECS,
        };
        if due {
            self.last_health_check = Some(now);
        }
        due
    }

    /// The connection state.
    pub fn get_connection_state(&self) -> (s: ConnectionState)
        ensures
            s == self.connection_state,
    {
        self.connection_state
    }

    /// The reconnection attempts since the last success.
    pub fn get_reconnect_attempts(&self) -> (n: u32)
        ensures
            n == self.reconnect_attempts,
    {
        self.reconnect_attempts
    }

    /// The message refused when sending without a session.
    pub fn require_session(&self) -> (r: Result<(), String>)
        ensures
            self.session_active <==> r is Ok,
            r matches Err(e) ==> e@ == "SteamBot not fully initialized. Please login first."@,
    {
        if self.session_active {
            Ok(())
        } else {
            Err(owned("SteamBot not fully initialized. Please login first."))
        }
    }
}

/// How a health probe (a message to an invalid chat) came back.
pub enum ProbeOutcome {
    Sent,
    Failed(String),
    TimedOut,
}

/// Whether the connection is healthy after a probe: without a session it is not; a
/// probe that went through, or failed for another reason than the connection, shows
/// it alive; a connection error or a timeout shows it dead.
pub fn probe_is_healthy(session_active: bool, outcome: &ProbeOutcome) -> (r: bool)
    ensures
        r == (session_active && match outcome {
            ProbeOutcome::Sent => true,
            ProbeOutcome::Failed(e) => !is_connection_error_spec(lowercased(e@)),
            ProbeOutcome::TimedOut => false,
        }),
{
    if !session_active {
        return false;
    }
    match outcome {
        ProbeOutcome::Sent => true,
        ProbeOutcome::Failed(e) => {
            let lower = crate::text::to_lowercase(e.as_str());
            !is_connection_error(lower.as_str())
        },
        ProbeOutcome::TimedOut => false,
    }
}

/// What to do after a reconnection attempt made while ensuring the connection.
pub enum ReconnectStep {
    Done,
    Retry(u32),
    GiveUp(String),
}

/// The next step after reconnection attempt `attempt` (counted from 1): done on success,
/// another attempt below the limit, else give up with the last error.
pub fn after_reconnect_attempt(attempt: u32, outcome: Result<(), String>) -> (r: ReconnectStep)
    requires
        1 <= attempt <= RECONNECT_RETRY_LIMIT,
    ensures
        match outcome {
            Ok(_) => r matches ReconnectStep::Done,
            Err(e) => if attempt == RECONNECT_RETRY_LIMIT {
                r matches ReconnectStep::GiveUp(m) && m@ == "Failed to reconnect after 3 attempts: "@ + e@
            } else {
                r matches ReconnectStep::Retry(n) && n == attempt + 1
            },
        },
{
    match outcome {
        Ok(_) => ReconnectStep::Done,
        Err(e) => if attempt == RECONNECT_RETRY_LIMIT {
            ReconnectStep::GiveUp(crate::text::concat("Failed to reconnect after 3 attempts: ", e.as_str()))
        } else {
            ReconnectStep::Retry(attempt + 1)
        },
    }
}

/// Whether a failed send is retried after reconnecting: only for connection errors.
pub fn should_retry_send(error: &str) -> (r: bool)
    ensures
        r == is_connection_error_spec(lowercased(error@)),
{
    let lower = crate::text::to_lowercase(error);
    is_connection_error(lower.as_str())
}

/// The error returned when the reconnection after a failed send itself fails.
pub fn reconnect_after_send_failed(error: &str) -> (m: String)
    ensures
        m@ == "Failed to reconnect after message send failure: "@ + error@,
{
    crate::text::concat("Failed to reconnect after message send failure: ", error)
}

/// The error returned when a message is sent before the bot is registered.
pub fn bot_not_initialized() -> (m: String)
    ensures
        m@ == "SteamBot not initialized"@,
{
    owned("SteamBot not initialized")
}

/// How the bot service runs.
#[derive(Clone, Copy, Debug, PartialEq, Eq, Structural)]
pub enum ServiceMode {
    /// No credentials: Call For Sub is unavailable.
    Disabled,
    /// Credentials but no chat configured: list the chat rooms.
    ChatDiscovery,
    /// Credentials and a chat: keep the connection healthy.
    Active,
}

/// How the bot service runs with a configuration.
pub fn service_mode(config: &Config) -> (m: ServiceMode)
    ensures
        m == (if missing_credentials(*config) {
            ServiceMode::Disabled
        } else if config.chat_group_id == 0 || config.chat_id == 0 {
            ServiceMode::ChatDiscovery
        } else {
            ServiceMode::Active
        }),
{
    if config.steam_account.as_str().is_empty() || config.steam_password.as_str().is_empty() {
        ServiceMode::Disabled
    } else if config.chat_group_id == 0 || config.chat_id == 0 {
        ServiceMode::ChatDiscovery
    } else {
        ServiceMode::Active
    }
}

/// A value set at most once and read many times.
pub struct WriteOnce<T> {
    value: Option<T>,
}

/// What a cell holds after a conditional set.
pub open spec fn set_if_absent<T>(held: Option<T>, value: T) -> Option<T> {
    match held {
        Some(v) => Some(v),
        None => Some(value),
    }
}

impl<T> WriteOnce<T> {
    /// What the cell holds.
    pub closed spec fn held(&self) -> Option<T> {
        self.value
    }

    /// An empty cell.
    pub fn new() -> (r: Self)
        ensures
            r.held() is None,
    {
        WriteOnce { value: None }
    }

    /// Stores a value; the cell must be empty.
    pub fn set(&mut self, value: T)
        requires
            old(self).held() is None,
        ensures
            final(self).held() == Some(value),
    {
        self.value = Some(value);
    }

    /// Stores a value unless one is stored already.
    pub fn set_if_absent(&mut self, value: T)
        ensures
            final(self).held() == set_if_absent(old(self).held(), value),
    {
        if self.value.is_none() {
            self.value = Some(value);
        }
    }

    /// The stored value, if any.
    pub fn get(&self) -> (r: Option<&T>)
        ensures
            r is Some <==> self.held() is Some,
            r is Some ==> self.held() == Some(*r->0),
    {
        self.value.as_ref()
    }
}

/// Stores the bot; it must not be stored yet.
pub fn set_bot(registry: &mut WriteOnce<SteamBot>, bot: SteamBot)
    requires
        old(registry).held() is None,
    ensures
        final(registry).held() == Some(bot),
{
    registry.set(bot);
}

/// The stored bot, if any.
pub fn bot(registry: &WriteOnce<SteamBot>) -> (r: Option<&SteamBot>)
    ensures
        r is Some <==> registry.held() is Some,
        r is Some ==> registry.held() == Some(*r->0),
{
    registry.get()
}

/// Stores the configuration; it must not be stored yet.
pub fn set_config(registry: &mut WriteOnce<Config>, config: Config)
    requires
        old(registry).held() is None,
    ensures
        final(registry).held() == Some(config),
{
    registry.set(config);
}

/// Stores the configuration unless one is stored already.
pub fn set_config_if_absent(registry: &mut WriteOnce<Config>, config: Config)
    ensures
        final(registry).held() == set_if_absent(old(registry).held(), config),
{
    registry.set_if_absent(config);
}

/// The stored configuration; it must be stored.
pub fn config(registry: &WriteOnce<Config>) -> (c: &Config)
    requires
        registry.held() is Some,
    ensures
        registry.held() == Some(*c),
{
    registry.get().unwrap()
}

/// A write-once cell keeps its first value: on an empty cell a conditional set stores
/// the value, and once one is stored no later conditional set replaces it.
pub proof fn lemma_write_once<T>(first: T, later: T)
    ensures
        set_if_absent(None, first) == Some(first),
        set_if_absent(set_if_absent(None, first), later) == Some(first),
{
}

} // verus!
