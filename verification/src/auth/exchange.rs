//! Single-use exchange codes that hand a finished Steam login over to the frontend.
use vstd::prelude::*;
use crate::rng::{is_lower_hex, random_hex_token};
use crate::clock::{instant_now, millis_since};
use crate::text::{trim, trim_str};

verus! {

/// How long an exchange code, or the replay of a consumed one, stays valid.
pub const CODE_TTL_MILLIS: u64 = 120000;

/// A code with the Steam ID it stands for and the moment it expires, in milliseconds of
/// the store's clock.
pub struct CodeEntry {
    pub code: String,
    pub steam_id: i64,
    pub expires_at: u64,
}

/// In-memory store of single-use exchange codes with a short lifetime.
pub struct ExchangeCodeStore {
    pending: Vec<CodeEntry>,
    consumed: Vec<CodeEntry>,
    origin: std::time::Instant,
    latest: u64,
}

/// What a code maps to: the Steam ID and the expiry.
pub open spec fn entry_view(e: CodeEntry) -> (i64, u64) {
    (e.steam_id, e.expires_at)
}

/// No code occurs twice.
pub open spec fn codes_distinct(v: Seq<CodeEntry>) -> bool {
    forall|i: int, j: int|
        0 <= i < v.len() && 0 <= j < v.len() && i != j ==> #[trigger] v[i].code@ != #[trigger] v[j].code@
}

/// Whether a code occurs among the entries.
pub open spec fn has_code(v: Seq<CodeEntry>, k: Seq<char>) -> bool {
    exists|i: int| 0 <= i < v.len() && #[trigger] v[i].code@ == k
}

/// The entries as a map from code to Steam ID and expiry.
pub open spec fn code_map(v: Seq<CodeEntry>) -> Map<Seq<char>, (i64, u64)> {
    Map::new(
        |k: Seq<char>| has_code(v, k),
        |k: Seq<char>| entry_view(v[choose|i: int| 0 <= i < v.len() && #[trigger] v[i].code@ == k]),
    )
}

/// The entries of a map that have not expired at `now`.
pub open spec fn live(m: Map<Seq<char>, (i64, u64)>, now: u64) -> Map<Seq<char>, (i64, u64)> {
    Map::new(|k: Seq<char>| m.dom().contains(k) && m[k].1 > now, |k: Seq<char>| m[k])
}

/// The expiry of a code issued or consumed at `now`.
pub open spec fn expiry(now: u64) -> u64 {
    if now + CODE_TTL_MILLIS <= u64::MAX {
        (now + CODE_TTL_MILLIS) as u64
    } else {
        u64::MAX
    }
}

/// Pending codes after issuing `code` for `steam_id` at `now`: expired codes are dropped
/// and the code is (re)registered.
pub open spec fn issue_spec(
    pending: Map<Seq<char>, (i64, u64)>,
    steam_id: i64,
    code: Seq<char>,
    now: u64,
) -> Map<Seq<char>, (i64, u64)> {
    live(pending, now).insert(code, (steam_id, expiry(now)))
}

/// Consuming a code at `now`: the answer, the pending codes and the consumed codes after
/// the call. The code is trimmed first; a blank one is refused. A code consumed before
/// and still within its replay window answers again; otherwise a live pending code is
/// moved to the consumed ones, with a fresh replay window.
pub open spec fn consume_spec(
    pending: Map<Seq<char>, (i64, u64)>,
    consumed: Map<Seq<char>, (i64, u64)>,
    code: Seq<char>,
    now: u64,
) -> (Option<i64>, Map<Seq<char>, (i64, u64)>, Map<Seq<char>, (i64, u64)>) {
    let k = trim(code);
    if k.len() == 0 {
        (None, pending, consumed)
    } else {
        let c1 = live(consumed, now);
        if c1.dom().contains(k) {
            (Some(c1[k].0), pending, c1)
        } else {
            let p1 = live(pending, now);
            if p1.dom().contains(k) {
                (Some(p1[k].0), p1.remove(k), c1.insert(k, (p1[k].0, expiry(now))))
            } else {
                (None, p1, c1)
            }
        }
    }
}

/// A code issued at `t1` and presented before it expires, possibly with surrounding
/// whitespace, answers with the Steam ID it was issued for, unless a still replayable
/// consumed code of the same text answers first.
pub proof fn lemma_issue_then_consume(
    pending: Map<Seq<char>, (i64, u64)>,
    consumed: Map<Seq<char>, (i64, u64)>,
    steam_id: i64,
    code: Seq<char>,
    presented: Seq<char>,
    t1: u64,
    t2: u64,
)
    requires
        trim(presented) == code,
        code.len() > 0,
        t1 <= t2,
        t2 < expiry(t1),
        !live(consumed, t2).dom().contains(code),
    ensures
        consume_spec(issue_spec(pending, steam_id, code, t1), consumed, presented, t2).0 == Some(
            steam_id,
        ),
{
    let p = issue_spec(pending, steam_id, code, t1);
    assert(p.dom().contains(code) && p[code] == (steam_id, expiry(t1)));
    assert(live(p, t2).dom().contains(code));
}

/// A consumed code answers again with the same Steam ID while its replay window lasts;
/// a code taken from the pending table gets a fresh window of the code lifetime.
pub proof fn lemma_consume_replays(
    pending: Map<Seq<char>, (i64, u64)>,
    consumed: Map<Seq<char>, (i64, u64)>,
    code: Seq<char>,
    t1: u64,
    t2: u64,
)
    ensures
        ({
            let (r1, p1, c1) = consume_spec(pending, consumed, code, t1);
            r1 matches Some(id) ==> {
                &&& c1.dom().contains(trim(code))
                &&& c1[trim(code)].0 == id
                &&& !live(consumed, t1).dom().contains(trim(code)) ==> c1[trim(code)].1 == expiry(t1)
                &&& t1 <= t2 < c1[trim(code)].1 ==> consume_spec(p1, c1, code, t2).0 == Some(id)
            }
        }),
{
    let k = trim(code);
    let (r1, p1, c1) = consume_spec(pending, consumed, code, t1);
    if r1 is Some && t1 <= t2 && t2 < c1[k].1 {
        assert(live(c1, t2).dom().contains(k));
    }
}

/// Issuing a code in a fresh store and presenting it twice, each time possibly with
/// surrounding whitespace and within the code lifetime of the previous step, answers
/// with the Steam ID both times: consuming is idempotent while the code lives.
pub proof fn lemma_consume_twice_after_issue(
    steam_id: i64,
    code: Seq<char>,
    first: Seq<char>,
    second: Seq<char>,
    t0: u64,
    t1: u64,
    t2: u64,
)
    requires
        code.len() > 0,
        trim(first) == code,
        trim(second) == code,
        t0 <= t1 < expiry(t0),
        t1 <= t2 < expiry(t1),
    ensures
        ({
            let none = Map::<Seq<char>, (i64, u64)>::empty();
            let pending = issue_spec(none, steam_id, code, t0);
            let (r1, p1, c1) = consume_spec(pending, none, first, t1);
            let (r2, _p2, _c2) = consume_spec(p1, c1, second, t2);
            r1 == Some(steam_id) && r2 == Some(steam_id)
        }),
{
    let none = Map::<Seq<char>, (i64, u64)>::empty();
    assert(!live(none, t1).dom().contains(code));
    lemma_issue_then_consume(none, none, steam_id, code, first, t0, t1);
    let pending = issue_spec(none, steam_id, code, t0);
    lemma_consume_replays(pending, none, first, t1, t2);
    let (r1, p1, c1) = consume_spec(pending, none, first, t1);
    assert(c1[code].1 == expiry(t1));
    assert(live(c1, t2).dom().contains(code));
}

/// A fresh store knows no code: presenting any code answers `None`.
pub proof fn lemma_fresh_store_refuses(code: Seq<char>, now: u64)
    ensures
        consume_spec(Map::empty(), Map::empty(), code, now).0 is None,
{
    let none = Map::<Seq<char>, (i64, u64)>::empty();
    assert(!live(none, now).dom().contains(trim(code)));
}

/// A code that is neither replayable nor pending and unexpired is refused, whatever is
/// stored under other codes: unknown and expired codes answer `None`.
pub proof fn lemma_stale_code_refused(
    pending: Map<Seq<char>, (i64, u64)>,
    consumed: Map<Seq<char>, (i64, u64)>,
    code: Seq<char>,
    now: u64,
)
    requires
        !live(consumed, now).dom().contains(trim(code)),
        pending.dom().contains(trim(code)) ==> pending[trim(code)].1 <= now,
    ensures
        consume_spec(pending, consumed, code, now).0 is None,
{
}

proof fn lemma_code_map_index(v: Seq<CodeEntry>, i: int)
    requires
        codes_distinct(v),
        0 <= i < v.len(),
    ensures
        code_map(v).dom().contains(v[i].code@),
        code_map(v)[v[i].code@] == entry_view(v[i]),
{
    let k = v[i].code@;
    assert(has_code(v, k));
    let j = choose|j: int| 0 <= j < v.len() && #[trigger] v[j].code@ == k;
    assert(v[j].code@ == k);
    if j != i {
        assert(v[i].code@ != v[j].code@);
    }
}

fn copy_entry(e: &CodeEntry) -> (r: CodeEntry)
    ensures
        r.code@ == e.code@,
        entry_view(r) == entry_view(*e),
{
    CodeEntry { code: e.code.clone(), steam_id: e.steam_id, expires_at: e.expires_at }
}

/// The entries that have not expired at `now`.
fn purge(v: &Vec<CodeEntry>, now: u64) -> (w: Vec<CodeEntry>)
    requires
        codes_distinct(v@),
    ensures
        codes_distinct(w@),
        code_map(w@) == live(code_map(v@), now),
{
    let mut w: Vec<CodeEntry> = Vec::new();
    let ghost mut idx: Seq<int> = Seq::empty();
    let mut i: usize = 0;
    while i < v.len()
        invariant
            i <= v@.len(),
            codes_distinct(v@),
            codes_distinct(w@),
            idx.len() == w@.len(),
            forall|j: int|
                0 <= j < w@.len() ==> 0 <= #[trigger] idx[j] < i && v@[idx[j]].code@ == w@[j].code@
                    && entry_view(w@[j]) == entry_view(v@[idx[j]]) && v@[idx[j]].expires_at > now,
            forall|a: int|
                0 <= a < i && #[trigger] v@[a].expires_at > now ==> has_code(w@, v@[a].code@),
        decreases v@.len() - i,
    {
        if v[i].expires_at > now {
            let e = copy_entry(&v[i]);
            proof {
                assert forall|j: int| 0 <= j < w@.len() implies #[trigger] w@[j].code@ != e.code@ by {
                    assert(idx[j] < i);
                    assert(v@[idx[j]].code@ != v@[i as int].code@);
                }
            }
            let ghost w0 = w@;
            w.push(e);
            proof {
                idx = idx.push(i as int);
                assert forall|j: int| 0 <= j < w@.len() implies 0 <= #[trigger] idx[j] < i + 1
                    && v@[idx[j]].code@ == w@[j].code@ && entry_view(w@[j]) == entry_view(
                    v@[idx[j]],
                ) && v@[idx[j]].expires_at > now by {
                    if j < w0.len() {
                        assert(w@[j] == w0[j]);
                    }
                }
                assert forall|a: int|
                    0 <= a < i + 1 && #[trigger] v@[a].expires_at > now implies has_code(
                    w@,
                    v@[a].code@,
                ) by {
                    if a == i {
                        assert(w@[w0.len() as int].code@ == v@[a].code@);
                    } else {
                        assert(has_code(w0, v@[a].code@));
                        let j = choose|j: int| 0 <= j < w0.len() && #[trigger] w0[j].code@ == v@[a].code@;
                        assert(w@[j] == w0[j]);
                    }
                }
            }
        }
        i = i + 1;
    }
    proof {
        let m = live(code_map(v@), now);
        assert forall|k: Seq<char>| #[trigger] code_map(w@).dom().contains(k) <==> m.dom().contains(k) by {
            if code_map(w@).dom().contains(k) {
                let j = choose|j: int| 0 <= j < w@.len() && #[trigger] w@[j].code@ == k;
                lemma_code_map_index(v@, idx[j]);
            }
            if m.dom().contains(k) {
                let a = choose|a: int| 0 <= a < v@.len() && #[trigger] v@[a].code@ == k;
                lemma_code_map_index(v@, a);
                assert(v@[a].expires_at > now);
            }
        }
        assert forall|k: Seq<char>| #[trigger] code_map(w@).dom().contains(k) implies code_map(w@)[k]
            == m[k] by {
            let j = choose|j: int| 0 <= j < w@.len() && #[trigger] w@[j].code@ == k;
            lemma_code_map_index(w@, j);
            lemma_code_map_index(v@, idx[j]);
        }
        assert(code_map(w@) =~= m);
    }
    w
}

/// Position of a code among the entries.
fn find_code(v: &Vec<CodeEntry>, code: &String) -> (r: Option<usize>)
    ensures
        match r {
            Some(i) => i < v@.len() && v@[i as int].code@ == code@,
            None => !has_code(v@, code@),
        },
{
    let mut i: usize = 0;
    while i < v.len()
        invariant
            i <= v@.len(),
            forall|j: int| 0 <= j < i ==> #[trigger] v@[j].code@ != code@,
        decreases v@.len() - i,
    {
        if v[i].code == *code {
            return Some(i);
        }
        i = i + 1;
    }
    None
}

/// Removes the entry at `i`, whose code is `k`.
fn remove_at(v: &mut Vec<CodeEntry>, i: usize) -> (e: CodeEntry)
    requires
        codes_distinct(old(v)@),
        i < old(v)@.len(),
    ensures
        codes_distinct(final(v)@),
        e.code@ == old(v)@[i as int].code@,
        entry_view(e) == entry_view(old(v)@[i as int]),
        code_map(final(v)@) == code_map(old(v)@).remove(old(v)@[i as int].code@),
{
    let ghost v0 = v@;
    let e = v.remove(i);
    proof {
        let k = v0[i as int].code@;
        let v1 = v@;
        assert forall|a: int, b: int|
            0 <= a < v1.len() && 0 <= b < v1.len() && a != b implies #[trigger] v1[a].code@
            != #[trigger] v1[b].code@ by {
            let a0 = if a < i { a } else { a + 1 };
            let b0 = if b < i { b } else { b + 1 };
            assert(v1[a] == v0[a0]);
            assert(v1[b] == v0[b0]);
        }
        let m = code_map(v0).remove(k);
        assert forall|kk: Seq<char>| #[trigger] code_map(v1).dom().contains(kk) <==> m.dom().contains(kk) by {
            if code_map(v1).dom().contains(kk) {
                let j = choose|j: int| 0 <= j < v1.len() && #[trigger] v1[j].code@ == kk;
                let j0 = if j < i { j } else { j + 1 };
                assert(v1[j] == v0[j0]);
                assert(has_code(v0, kk));
                assert(j0 != i);
                assert(v0[j0].code@ != v0[i as int].code@);
            }
            if m.dom().contains(kk) {
                let j0 = choose|j0: int| 0 <= j0 < v0.len() && #[trigger] v0[j0].code@ == kk;
                assert(j0 != i);
                let j = if j0 < i { j0 } else { j0 - 1 };
                assert(v1[j] == v0[j0]);
            }
        }
        assert forall|kk: Seq<char>| #[trigger] code_map(v1).dom().contains(kk) implies code_map(v1)[kk]
            == m[kk] by {
            let j = choose|j: int| 0 <= j < v1.len() && #[trigger] v1[j].code@ == kk;
            lemma_code_map_index(v1, j);
            let j0 = if j < i { j } else { j + 1 };
            assert(v1[j] == v0[j0]);
            lemma_code_map_index(v0, j0);
        }
        assert(code_map(v1) =~= m);
    }
    e
}

/// Registers `code` for `steam_id` with expiry `expires_at`, replacing an entry for the
/// same code.
fn put(v: &mut Vec<CodeEntry>, code: String, steam_id: i64, expires_at: u64)
    requires
        codes_distinct(old(v)@),
    ensures
        codes_distinct(final(v)@),
        code_map(final(v)@) == code_map(old(v)@).insert(code@, (steam_id, expires_at)),
{
    let ghost v0 = v@;
    let ghost k = code@;
    match find_code(v, &code) {
        Some(i) => {
            remove_at(v, i);
            assert(!code_map(v@).dom().contains(k));
        },
        None => {
            assert(code_map(v0).remove(k) =~= code_map(v0));
        },
    }
    let ghost v1 = v@;
    assert(!code_map(v1).dom().contains(k));
    assert(!has_code(v1, k));
    v.push(CodeEntry { code, steam_id, expires_at });
    proof {
        let v2 = v@;
        assert forall|a: int, b: int|
            0 <= a < v2.len() && 0 <= b < v2.len() && a != b implies #[trigger] v2[a].code@
            != #[trigger] v2[b].code@ by {
            if a < v1.len() && b < v1.len() {
                assert(v2[a] == v1[a] && v2[b] == v1[b]);
            } else if a == v1.len() {
                assert(v2[b] == v1[b]);
            } else {
                assert(v2[a] == v1[a]);
            }
        }
        let m = code_map(v0).insert(k, (steam_id, expires_at));
        assert(code_map(v1) == code_map(v0).remove(k));
        assert forall|kk: Seq<char>| #[trigger] code_map(v2).dom().contains(kk) <==> m.dom().contains(kk) by {
            if code_map(v2).dom().contains(kk) && kk != k {
                let j = choose|j: int| 0 <= j < v2.len() && #[trigger] v2[j].code@ == kk;
                assert(j < v1.len());
                assert(v2[j] == v1[j]);
                assert(code_map(v1).dom().contains(kk));
            }
            if m.dom().contains(kk) {
                if kk == k {
                    assert(v2[v1.len() as int].code@ == k);
                } else {
                    assert(code_map(v1).dom().contains(kk));
                    let j = choose|j: int| 0 <= j < v1.len() && #[trigger] v1[j].code@ == kk;
                    assert(v2[j] == v1[j]);
                }
            }
        }
        assert forall|kk: Seq<char>| #[trigger] code_map(v2).dom().contains(kk) implies code_map(v2)[kk]
            == m[kk] by {
            let j = choose|j: int| 0 <= j < v2.len() && #[trigger] v2[j].code@ == kk;
            lemma_code_map_index(v2, j);
            if j < v1.len() {
                assert(v2[j] == v1[j]);
                lemma_code_map_index(v1, j);
            }
        }
        assert(code_map(v2) =~= m);
    }
}

impl ExchangeCodeStore {
    /// The pending codes.
    pub closed spec fn pending_map(&self) -> Map<Seq<char>, (i64, u64)> {
        code_map(self.pending@)
    }

    /// The consumed codes that may still be replayed.
    pub closed spec fn consumed_map(&self) -> Map<Seq<char>, (i64, u64)> {
        code_map(self.consumed@)
    }

    /// The latest time on the store's clock at which a code was issued or consumed; the
    /// clock is monotonic, so later operations never happen before it.
    pub closed spec fn clock_floor(&self) -> u64 {
        self.latest
    }

    /// The store's invariant: no code is stored twice in either table.
    pub closed spec fn wf(&self) -> bool {
        codes_distinct(self.pending@) && codes_distinct(self.consumed@)
    }

    /// An empty store whose clock starts now.
    pub fn new() -> (s: Self)
        ensures
            s.wf(),
            s.pending_map() == Map::<Seq<char>, (i64, u64)>::empty(),
            s.consumed_map() == Map::<Seq<char>, (i64, u64)>::empty(),
            s.clock_floor() == 0,
    {
        let s = ExchangeCodeStore { pending: Vec::new(), consumed: Vec::new(), origin: instant_now(), latest: 0 };
        assert(s.pending_map() =~= Map::<Seq<char>, (i64, u64)>::empty());
        assert(s.consumed_map() =~= Map::<Seq<char>, (i64, u64)>::empty());
        s
    }

    /// Milliseconds on the store's clock.
    pub fn now_millis(&self) -> (r: u64) {
        millis_since(&self.origin)
    }

    /// Registers `code` for `steam_id` at time `now`, dropping expired codes first.
    pub fn issue_code_at(&mut self, steam_id: i64, code: String, now: u64)
        requires
            old(self).wf(),
        ensures
            final(self).wf(),
            final(self).pending_map() == issue_spec(old(self).pending_map(), steam_id, code@, now),
            final(self).consumed_map() == old(self).consumed_map(),
            final(self).clock_floor() == old(self).clock_floor(),
    {
        let purged = purge(&self.pending, now);
        self.pending = purged;
        let exp: u64 = if now <= u64::MAX - CODE_TTL_MILLIS {
            now + CODE_TTL_MILLIS
        } else {
            u64::MAX
        };
        put(&mut self.pending, code, steam_id, exp);
    }

    /// Issues a fresh single-use code for `steam_id`: 32 random bytes in lower-case
    /// hexadecimal, valid for the code lifetime.
    pub fn issue_code(&mut self, steam_id: i64) -> (code: String)
        requires
            old(self).wf(),
        ensures
            final(self).wf(),
            code@.len() == 64,
            is_lower_hex(code@),
            exists|now: u64|
                {
                    &&& now >= old(self).clock_floor()
                    &&& final(self).clock_floor() == now
                    &&& final(self).pending_map() == issue_spec(old(self).pending_map(), steam_id, code@, now)
                },
            final(self).consumed_map() == old(self).consumed_map(),
    {
        let code = random_hex_token();
        let now = self.clock_reading();
        self.issue_code_at(steam_id, code.clone(), now);
        self.latest = now;
        code
    }

    /// The store's clock now, never earlier than a time it already acted on (the clock
    /// is monotonic, so this is the reading itself).
    fn clock_reading(&self) -> (now: u64)
        ensures
            now >= self.clock_floor(),
    {
        let reading = self.now_millis();
        if reading >= self.latest {
            reading
        } else {
            self.latest
        }
    }

    /// Consumes a code at time `now` and returns its Steam ID; a code consumed within the
    /// replay window answers again (duplicate client requests).
    pub fn consume_code_at(&mut self, code: &str, now: u64) -> (r: Option<i64>)
        requires
            old(self).wf(),
        ensures
            final(self).wf(),
            (r, final(self).pending_map(), final(self).consumed_map()) == consume_spec(
                old(self).pending_map(),
                old(self).consumed_map(),
                code@,
                now,
            ),
            final(self).clock_floor() == old(self).clock_floor(),
    {
        let k = trim_str(code);
        if k.as_str().is_empty() {
            return None;
        }
        let c1 = purge(&self.consumed, now);
        self.consumed = c1;
        if let Some(i) = find_code(&self.consumed, &k) {
            proof {
                lemma_code_map_index(self.consumed@, i as int);
            }
            return Some(self.consumed[i].steam_id);
        }
        let p1 = purge(&self.pending, now);
        self.pending = p1;
        match find_code(&self.pending, &k) {
            None => None,
            Some(i) => {
                proof {
                    lemma_code_map_index(self.pending@, i as int);
                }
                let e = remove_at(&mut self.pending, i);
                let exp: u64 = if now <= u64::MAX - CODE_TTL_MILLIS {
                    now + CODE_TTL_MILLIS
                } else {
                    u64::MAX
                };
                let id = e.steam_id;
                put(&mut self.consumed, k, id, exp);
                Some(id)
            },
        }
    }

    /// Consumes a code against the store's clock and returns its Steam ID.
    pub fn consume_code(&mut self, code: &str) -> (r: Option<i64>)
        requires
            old(self).wf(),
        ensures
            final(self).wf(),
            exists|now: u64|
                {
                    &&& now >= old(self).clock_floor()
                    &&& final(self).clock_floor() == now
                    &&& (r, final(self).pending_map(), final(self).consumed_map()) == consume_spec(
                        old(self).pending_map(),
                        old(self).consumed_map(),
                        code@,
                        now,
                    )
                },
    {
        let now = self.clock_reading();
        let r = self.consume_code_at(code, now);
        self.latest = now;
        r
    }
}

} // verus!
