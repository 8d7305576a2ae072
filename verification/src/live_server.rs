//! Querying game servers: when a failed query is tried again, and the cache of the last
//! good answer per server that covers for failures.
use vstd::prelude::*;
use crate::clock::{instant_now, millis_since};
use crate::keyed::KeyedTable;
use crate::steam_bot::pow2;
use crate::text::{concat3, contains, dec, str_contains, u64_to_string};

verus! {

/// How many times a server is queried before giving up.
pub const MAX_RETRIES: u32 = 3;

/// How long a good answer may stand in for a failed query, in milliseconds.
pub const CACHE_TTL_MILLIS: u64 = 60000;

/// Words that mark a query error as a timeout or network problem worth retrying.
pub const RETRYABLE_ERROR_TOKENS: [&'static str; 4] = ["WouldBlock", "TimedOut", "timeout", "PacketReceive"];

/// The tokens as text.
pub open spec fn retryable_tokens() -> Seq<Seq<char>> {
    seq!["WouldBlock"@, "TimedOut"@, "timeout"@, "PacketReceive"@]
}

/// Whether a query error is a timeout or network problem.
pub open spec fn retryable_error(message: Seq<char>) -> bool {
    exists|i: int| 0 <= i < 4 && contains(message, #[trigger] retryable_tokens()[i])
}

/// Whether a query error is worth retrying.
pub fn is_retryable_query_error(message: &str) -> (r: bool)
    ensures
        r == retryable_error(message@),
{
    let tokens = RETRYABLE_ERROR_TOKENS;
    assert(tokens@.map_values(|t: &str| t@) =~= retryable_tokens());
    let mut i: usize = 0;
    while i < 4
        invariant
            i <= 4,
            tokens@.map_values(|t: &str| t@) == retryable_tokens(),
            forall|j: int| 0 <= j < i ==> !contains(message@, #[trigger] retryable_tokens()[j]),
        decreases 4 - i,
    {
        assert(tokens@[i as int]@ == retryable_tokens()[i as int]);
        if str_contains(message, tokens[i]) {
            return true;
        }
        i = i + 1;
    }
    false
}

/// What follows a failed query.
#[derive(Clone, Copy, Debug, PartialEq, Eq, Structural)]
pub enum QueryRetry {
    /// Query again after this many milliseconds.
    RetryAfter(u64),
    /// Stop querying.
    GiveUp,
}

/// The wait before the query after attempt `attempt`: 500 ms, doubling each time.
pub open spec fn retry_delay_ms(attempt: u32) -> int {
    500 * (pow2((attempt - 1) as nat) as int)
}

/// What follows query attempt `attempt` (counted from 1) failing with `error`: a
/// timeout or network problem is retried after a doubling delay while attempts remain;
/// any other error ends the querying at once.
pub fn after_failed_query(attempt: u32, error: &str) -> (r: QueryRetry)
    requires
        1 <= attempt <= MAX_RETRIES,
    ensures
        r == (if retryable_error(error@) && attempt < MAX_RETRIES {
            QueryRetry::RetryAfter(retry_delay_ms(attempt) as u64)
        } else {
            QueryRetry::GiveUp
        }),
{
    if is_retryable_query_error(error) && attempt < MAX_RETRIES {
        let delay: u64 = if attempt == 1 {
            500
        } else {
            1000
        };
        assert(pow2(0) == 1);
        assert(pow2(1) == 2) by {
            reveal_with_fuel(pow2, 2);
        }
        QueryRetry::RetryAfter(delay)
    } else {
        QueryRetry::GiveUp
    }
}

/// The cache key of a server.
pub open spec fn cache_key(ip: Seq<char>, port: u16) -> Seq<char> {
    ip + ":"@ + dec(port as nat)
}

/// The cache key of a server.
pub fn server_cache_key(ip: &str, port: u16) -> (k: String)
    ensures
        k@ == cache_key(ip@, port),
{
    let p = u64_to_string(port as u64);
    concat3(ip, ":", p.as_str())
}

/// Whether an answer stored at `stored_ms` may still stand in at `now_ms`: it is less than
/// a minute old (an answer from the future counts as new).
pub open spec fn still_fresh(stored_ms: u64, now_ms: u64) -> bool {
    now_ms < stored_ms + CACHE_TTL_MILLIS
}

/// The last good answer of each server, with when it came (milliseconds of the cache's
/// clock).
pub struct ServerQueryCache<T> {
    origin: std::time::Instant,
    entries: KeyedTable<(T, u64)>,
}

impl<T> ServerQueryCache<T> {
    /// The answers by server key, with their times.
    pub closed spec fn view(&self) -> Map<Seq<char>, (T, u64)> {
        self.entries.view()
    }

    /// The cache's invariant.
    pub closed spec fn wf(&self) -> bool {
        self.entries.wf()
    }

    /// What stands in for a failed query of `ip:port` at `now_ms`: the stored answer while
    /// it is fresh.
    pub open spec fn fallback(&self, ip: Seq<char>, port: u16, now_ms: u64) -> Option<T> {
        let k = cache_key(ip, port);
        if self.view().dom().contains(k) && still_fresh(self.view()[k].1, now_ms) {
            Some(self.view()[k].0)
        } else {
            None
        }
    }

    /// An empty cache whose clock starts now.
    pub fn new() -> (c: Self)
        ensures
            c.wf(),
            c.view() == Map::<Seq<char>, (T, u64)>::empty(),
    {
        ServerQueryCache { origin: instant_now(), entries: KeyedTable::new() }
    }

    /// Milliseconds since the cache was made.
    pub fn now_ms(&self) -> u64 {
        millis_since(&self.origin)
    }

    /// Stores the answer of `ip:port` received at `now_ms`, replacing an older one.
    pub fn store_at(&mut self, ip: &str, port: u16, info: T, now_ms: u64)
        requires
            old(self).wf(),
        ensures
            final(self).wf(),
            final(self).view() == old(self).view().insert(cache_key(ip@, port), (info, now_ms)),
    {
        let k = server_cache_key(ip, port);
        self.entries.insert(k, (info, now_ms));
    }

    /// The answer of `ip:port` that may stand in for a failed query at `now_ms`.
    pub fn fallback_at(&self, ip: &str, port: u16, now_ms: u64) -> (r: Option<&T>)
        requires
            self.wf(),
        ensures
            match r {
                Some(t) => self.fallback(ip@, port, now_ms) == Some(*t),
                None => self.fallback(ip@, port, now_ms) is None,
            },
    {
        let k = server_cache_key(ip, port);
        match self.entries.get(k.as_str()) {
            Some(entry) => {
                if (now_ms as u128) < (entry.1 as u128) + (CACHE_TTL_MILLIS as u128) {
                    Some(&entry.0)
                } else {
                    None
                }
            },
            None => None,
        }
    }

    /// Stores the answer of `ip:port` received now.
    pub fn store(&mut self, ip: &str, port: u16, info: T)
        requires
            old(self).wf(),
        ensures
            final(self).wf(),
            exists|t: u64| final(self).view() == old(self).view().insert(cache_key(ip@, port), (info, t)),
    {
        let now = self.now_ms();
        self.store_at(ip, port, info, now);
    }

    /// The answer of `ip:port` that may stand in for a failed query now.
    pub fn fallback_now(&self, ip: &str, port: u16) -> (r: Option<&T>)
        requires
            self.wf(),
        ensures
            exists|now: u64|
                match r {
                    Some(t) => self.fallback(ip@, port, now) == Some(*t),
                    None => self.fallback(ip@, port, now) is None,
                },
    {
        let now = self.now_ms();
        self.fallback_at(ip, port, now)
    }
}

/// A stored answer stands in for a failed query of the same server within a minute, and
/// no longer.
pub proof fn lemma_cache_read_after_store<T>(
    cache: ServerQueryCache<T>,
    after: ServerQueryCache<T>,
    ip: Seq<char>,
    port: u16,
    info: T,
    stored_ms: u64,
    now_ms: u64,
)
    requires
        after.view() == cache.view().insert(cache_key(ip, port), (info, stored_ms)),
    ensures
        after.fallback(ip, port, now_ms) == (if still_fresh(stored_ms, now_ms) {
            Some(info)
        } else {
            None
        }),
{
}

} // verus!
