//! The JSON database: commands, binds and bind suggestions, each keyed by its ID in
//! decimal, with the votes on binds.
use vstd::prelude::*;
use crate::json_api::models::{Bind, BindSuggestion, Command};
use crate::keyed::{entries_map, has_key, KeyedTable};
use crate::text::{
    dec_int, i32_to_string, owned, parse_i32_spec, str_parse_i32, lowercased,
};

verus! {

/// File name of the commands collection.
pub const COMMANDS_FILE: &'static str = "cmds.json";

/// File name of the binds collection.
pub const BINDS_FILE: &'static str = "binds.json";

/// File name of the bind suggestions collection.
pub const BIND_SUGGESTIONS_FILE: &'static str = "bind_sgs.json";

/// A command as stored (its ID is the key).
pub struct CommandData {
    pub command: String,
    pub description: String,
}

/// A bind as stored, with the Steam IDs that voted for and against it.
pub struct BindData {
    pub author: String,
    pub text: String,
    pub upvote: Vec<i64>,
    pub downvote: Vec<i64>,
}

/// A bind suggestion as stored.
pub struct BindSuggestionData {
    pub author: String,
    pub text: String,
    pub proposed_by: String,
}

/// Records with a text that no two records of a collection may share.
pub trait UniqueText {
    /// The text that must be unique.
    spec fn unique_text(&self) -> Seq<char>;

    /// The text that must be unique.
    fn unique_str(&self) -> (r: &str)
        ensures
            r@ == self.unique_text(),
    ;
}

impl UniqueText for CommandData {
    open spec fn unique_text(&self) -> Seq<char> {
        self.command@
    }

    fn unique_str(&self) -> (r: &str) {
        self.command.as_str()
    }
}

impl UniqueText for BindData {
    open spec fn unique_text(&self) -> Seq<char> {
        self.text@
    }

    fn unique_str(&self) -> (r: &str) {
        self.text.as_str()
    }
}

impl UniqueText for BindSuggestionData {
    open spec fn unique_text(&self) -> Seq<char> {
        self.text@
    }

    fn unique_str(&self) -> (r: &str) {
        self.text.as_str()
    }
}

/// The ID a stored key stands for: the key as an `i32`, or 0 when it is not one.
pub open spec fn id_of_key(k: Seq<char>) -> i32 {
    match parse_i32_spec(k) {
        Some(i) => i,
        None => 0,
    }
}

/// The largest numeric key among the entries, if any.
pub open spec fn max_id<V>(pairs: Seq<(String, V)>) -> Option<i32>
    decreases pairs.len(),
{
    if pairs.len() == 0 {
        None
    } else {
        let rest = max_id(pairs.drop_last());
        match parse_i32_spec(pairs.last().0@) {
            Some(i) => match rest {
                Some(m) => Some(if i > m { i } else { m }),
                None => Some(i),
            },
            None => rest,
        }
    }
}

/// The next ID of a collection: one past the largest numeric key, or 1.
pub open spec fn next_id_spec<V>(pairs: Seq<(String, V)>) -> int {
    match max_id(pairs) {
        Some(m) => m + 1,
        None => 1,
    }
}

/// Whether some record under a key other than `except` has the text.
pub open spec fn text_taken<V: UniqueText>(m: Map<Seq<char>, V>, text: Seq<char>, except: Option<Seq<char>>) -> bool {
    exists|k: Seq<char>| #[trigger] m.dom().contains(k) && Some(k) != except && m[k].unique_text() == text
}

fn next_id<V>(t: &KeyedTable<V>) -> (r: Option<i32>)
    requires
        t.wf(),
    ensures
        match r {
            Some(id) => id == next_id_spec(t.pairs()),
            None => next_id_spec(t.pairs()) > i32::MAX,
        },
{
    let ghost pairs = t.pairs();
    let n = t.len();
    let mut best: Option<i32> = None;
    let mut i: usize = 0;
    while i < n
        invariant
            i <= n,
            n == pairs.len(),
            pairs == t.pairs(),
            best == max_id(pairs.take(i as int)),
        decreases n - i,
    {
        assert(pairs.take(i + 1).drop_last() =~= pairs.take(i as int));
        assert(pairs.take(i + 1).last() == pairs[i as int]);
        if let Some(v) = str_parse_i32(t.key_at(i).as_str()) {
            best = match best {
                Some(m) => Some(if v > m { v } else { m }),
                None => Some(v),
            };
        }
        i = i + 1;
    }
    assert(pairs.take(n as int) =~= pairs);
    match best {
        Some(m) => if m < i32::MAX {
            Some(m + 1)
        } else {
            None
        },
        None => Some(1),
    }
}

fn text_in_use<V: UniqueText>(t: &KeyedTable<V>, text: &str, except: Option<&str>) -> (r: bool)
    requires
        t.wf(),
    ensures
        r == text_taken(t.view(), text@, match except {
            Some(e) => Some(e@),
            None => None,
        }),
{
    proof {
        t.lemma_pairs();
    }
    let ghost ex: Option<Seq<char>> = match except {
        Some(e) => Some(e@),
        None => None,
    };
    let ghost pairs = t.pairs();
    let n = t.len();
    let mut i: usize = 0;
    while i < n
        invariant
            i <= n,
            n == pairs.len(),
            pairs == t.pairs(),
            t.view() == entries_map(pairs),
            forall|j: int| 0 <= j < n ==> #[trigger] t.view().dom().contains(pairs[j].0@) && t.view()[pairs[j].0@] == pairs[j].1,
            ex == (match except {
                Some(e) => Some(e@),
                None => None::<Seq<char>>,
            }),
            forall|j: int| 0 <= j < i ==> !(Some(#[trigger] pairs[j].0@) != ex && pairs[j].1.unique_text() == text@),
        decreases n - i,
    {
        let key = t.key_at(i);
        let other = match except {
            Some(e) => !crate::text::str_eq(key.as_str(), e),
            None => true,
        };
        if other && crate::text::str_eq(t.value_at(i).unique_str(), text) {
            proof {
                assert(t.view().dom().contains(pairs[i as int].0@));
            }
            return true;
        }
        i = i + 1;
    }
    proof {
        assert forall|k: Seq<char>| #[trigger] t.view().dom().contains(k) implies !(Some(k) != ex
            && t.view()[k].unique_text() == text@) by {
            let j = choose|j: int| 0 <= j < pairs.len() && #[trigger] pairs[j].0@ == k;
            assert(t.view().dom().contains(pairs[j].0@));
        }
    }
    false
}

/// Inserts an (ID, position) pair into a list sorted by ID, after every pair with an
/// ID not greater (so equal IDs keep table order).
pub open spec fn insert_by_id(sorted: Seq<(i32, int)>, x: (i32, int)) -> Seq<(i32, int)>
    decreases sorted.len(),
{
    if sorted.len() == 0 {
        seq![x]
    } else if sorted.last().0 > x.0 {
        insert_by_id(sorted.drop_last(), x).push(sorted.last())
    } else {
        sorted.push(x)
    }
}

/// The entries' IDs and positions, sorted by ID with a stable insertion sort.
pub open spec fn sorted_by_id<V>(pairs: Seq<(String, V)>, n: int) -> Seq<(i32, int)>
    decreases n,
{
    if n <= 0 {
        seq![]
    } else {
        insert_by_id(sorted_by_id(pairs, n - 1), (id_of_key(pairs[n - 1].0@), n - 1))
    }
}

proof fn lemma_insert_by_id(s: Seq<(i32, int)>, x: (i32, int), pos: int)
    requires
        0 <= pos <= s.len(),
        forall|j: int| pos <= j < s.len() ==> (#[trigger] s[j]).0 > x.0,
        pos > 0 ==> s[pos - 1].0 <= x.0,
    ensures
        insert_by_id(s, x) == s.insert(pos, x),
    decreases s.len(),
{
    if s.len() == pos {
        assert(s.insert(pos, x) =~= s.push(x));
        if s.len() == 0 {
            assert(s.push(x) =~= seq![x]);
        }
    } else {
        let d = s.drop_last();
        assert forall|j: int| pos <= j < d.len() implies (#[trigger] d[j]).0 > x.0 by {
            assert(d[j] == s[j]);
        }
        if pos > 0 {
            assert(d[pos - 1] == s[pos - 1]);
        }
        lemma_insert_by_id(d, x, pos);
        assert(d.insert(pos, x).push(s.last()) =~= s.insert(pos, x));
    }
}

proof fn lemma_insert_by_id_positions(s: Seq<(i32, int)>, x: (i32, int), bound: int)
    requires
        forall|j: int| 0 <= j < s.len() ==> 0 <= (#[trigger] s[j]).1 < bound,
        0 <= x.1 < bound,
    ensures
        insert_by_id(s, x).len() == s.len() + 1,
        forall|j: int| 0 <= j < insert_by_id(s, x).len() ==> 0 <= (#[trigger] insert_by_id(s, x)[j]).1 < bound,
    decreases s.len(),
{
    if s.len() > 0 && s.last().0 > x.0 {
        let d = s.drop_last();
        assert forall|j: int| 0 <= j < d.len() implies 0 <= (#[trigger] d[j]).1 < bound by {
            assert(d[j] == s[j]);
        }
        lemma_insert_by_id_positions(d, x, bound);
        let r = insert_by_id(d, x);
        assert forall|j: int| 0 <= j < r.push(s.last()).len() implies 0 <= (#[trigger] r.push(s.last())[j]).1 < bound by {
            if j < r.len() {
                assert(r.push(s.last())[j] == r[j]);
            }
        }
    } else if s.len() > 0 {
        assert forall|j: int| 0 <= j < s.push(x).len() implies 0 <= (#[trigger] s.push(x)[j]).1 < bound by {
            if j < s.len() {
                assert(s.push(x)[j] == s[j]);
            }
        }
    }
}

proof fn lemma_sorted_by_id_positions<V>(pairs: Seq<(String, V)>, n: int)
    requires
        0 <= n,
    ensures
        sorted_by_id(pairs, n).len() == n,
        forall|j: int| 0 <= j < n ==> 0 <= (#[trigger] sorted_by_id(pairs, n)[j]).1 < n,
    decreases n,
{
    if n > 0 {
        lemma_sorted_by_id_positions(pairs, n - 1);
        let s = sorted_by_id(pairs, n - 1);
        assert forall|j: int| 0 <= j < s.len() implies 0 <= (#[trigger] s[j]).1 < n by {}
        lemma_insert_by_id_positions(s, (id_of_key(pairs[n - 1].0@), n - 1), n);
    }
}

fn sorted_positions<V>(t: &KeyedTable<V>) -> (r: Vec<(i32, usize)>)
    requires
        t.wf(),
    ensures
        r@.len() == t.pairs().len(),
        forall|j: int| 0 <= j < r@.len() ==> (#[trigger] r@[j]).0 == sorted_by_id(t.pairs(), t.pairs().len() as int)[j].0
            && r@[j].1 == sorted_by_id(t.pairs(), t.pairs().len() as int)[j].1,
        forall|j: int| 0 <= j < r@.len() ==> (#[trigger] r@[j]).1 < t.pairs().len(),
{
    let ghost pairs = t.pairs();
    let n = t.len();
    let mut out: Vec<(i32, usize)> = Vec::new();
    let mut i: usize = 0;
    while i < n
        invariant
            i <= n,
            n == pairs.len(),
            pairs == t.pairs(),
            out@.len() == i,
            forall|j: int| 0 <= j < i ==> (#[trigger] out@[j]).0 == sorted_by_id(pairs, i as int)[j].0
                && out@[j].1 == sorted_by_id(pairs, i as int)[j].1,
        decreases n - i,
    {
        proof {
            lemma_sorted_by_id_positions(pairs, i as int);
        }
        let id: i32 = match str_parse_i32(t.key_at(i).as_str()) {
            Some(v) => v,
            None => 0,
        };
        let ghost s = sorted_by_id(pairs, i as int);
        let ghost sv = out@.map_values(|p: (i32, usize)| (p.0, p.1 as int));
        assert(sv =~= s);
        let mut pos: usize = out.len();
        while pos > 0 && out[pos - 1].0 > id
            invariant
                pos <= out@.len(),
                forall|j: int| pos <= j < out@.len() ==> (#[trigger] out@[j]).0 > id,
            decreases pos,
        {
            pos = pos - 1;
        }
        proof {
            assert forall|j: int| pos <= j < sv.len() implies (#[trigger] sv[j]).0 > id by {
                assert(sv[j].0 == out@[j].0);
            }
            if pos > 0 {
                assert(sv[pos - 1].0 == out@[pos - 1].0);
            }
            lemma_insert_by_id(sv, (id, i as int), pos as int);
            assert(sorted_by_id(pairs, i + 1) == insert_by_id(s, (id_of_key(pairs[i as int].0@), i as int)));
        }
        let ghost before = out@;
        out.insert(pos, (id, i));
        proof {
            let target = sorted_by_id(pairs, i + 1);
            assert(target == sv.insert(pos as int, (id, i as int)));
            assert forall|j: int| 0 <= j < i + 1 implies (#[trigger] out@[j]).0 == target[j].0 && out@[j].1
                == target[j].1 by {
                if j < pos {
                    assert(out@[j] == before[j]);
                    assert(target[j] == sv[j]);
                } else if j > pos {
                    assert(out@[j] == before[j - 1]);
                    assert(target[j] == sv[j - 1]);
                }
            }
        }
        i = i + 1;
    }
    proof {
        lemma_sorted_by_id_positions(pairs, n as int);
    }
    out
}

/// The records of the JSON database.
pub struct JsonDatabase {
    commands: KeyedTable<CommandData>,
    binds: KeyedTable<BindData>,
    bind_suggestions: KeyedTable<BindSuggestionData>,
}

/// A copy of a list of Steam IDs.
fn copy_ids(v: &Vec<i64>) -> (r: Vec<i64>)
    ensures
        r@ == v@,
{
    v.clone()
}

/// The list without any occurrence of `x`.
pub open spec fn without(s: Seq<i64>, x: i64) -> Seq<i64>
    decreases s.len(),
{
    if s.len() == 0 {
        seq![]
    } else if s.last() == x {
        without(s.drop_last(), x)
    } else {
        without(s.drop_last(), x).push(s.last())
    }
}

fn remove_all(v: &Vec<i64>, x: i64) -> (r: Vec<i64>)
    ensures
        r@ == without(v@, x),
{
    let mut out: Vec<i64> = Vec::new();
    let mut i: usize = 0;
    while i < v.len()
        invariant
            i <= v@.len(),
            out@ == without(v@.take(i as int), x),
        decreases v@.len() - i,
    {
        assert(v@.take(i + 1).drop_last() =~= v@.take(i as int));
        assert(v@.take(i + 1).last() == v@[i as int]);
        if v[i] != x {
            out.push(v[i]);
        }
        i = i + 1;
    }
    assert(v@.take(v@.len() as int) =~= v@);
    out
}

/// A vote with no other voters' entries touched: the voter's earlier votes are removed,
/// then the voter is added where the vote type says.
pub open spec fn voted(d: BindData, voter: i64, up: bool) -> (Seq<i64>, Seq<i64>) {
    voted_lists(d.upvote@, d.downvote@, voter, up)
}

/// The upvote and downvote lists after a vote.
pub open spec fn voted_lists(upvote: Seq<i64>, downvote: Seq<i64>, voter: i64, up: bool) -> (Seq<i64>, Seq<i64>) {
    if up {
        (without(upvote, voter).push(voter), without(downvote, voter))
    } else {
        (without(upvote, voter), without(downvote, voter).push(voter))
    }
}

impl JsonDatabase {
    /// The commands, keyed by ID in decimal.
    pub closed spec fn commands_view(&self) -> Map<Seq<char>, CommandData> {
        self.commands.view()
    }

    /// The binds, keyed by ID in decimal.
    pub closed spec fn binds_view(&self) -> Map<Seq<char>, BindData> {
        self.binds.view()
    }

    /// The bind suggestions, keyed by ID in decimal.
    pub closed spec fn suggestions_view(&self) -> Map<Seq<char>, BindSuggestionData> {
        self.bind_suggestions.view()
    }

    /// The stored commands in table order.
    pub closed spec fn command_pairs(&self) -> Seq<(String, CommandData)> {
        self.commands.pairs()
    }

    /// The stored binds in table order.
    pub closed spec fn bind_pairs(&self) -> Seq<(String, BindData)> {
        self.binds.pairs()
    }

    /// The stored bind suggestions in table order.
    pub closed spec fn suggestion_pairs(&self) -> Seq<(String, BindSuggestionData)> {
        self.bind_suggestions.pairs()
    }

    /// The database's invariant.
    pub closed spec fn wf(&self) -> bool {
        self.commands.wf() && self.binds.wf() && self.bind_suggestions.wf()
    }

    /// An empty database, as when no file exists.
    pub fn new() -> (db: Self)
        ensures
            db.wf(),
            db.commands_view() == Map::<Seq<char>, CommandData>::empty(),
            db.binds_view() == Map::<Seq<char>, BindData>::empty(),
            db.suggestions_view() == Map::<Seq<char>, BindSuggestionData>::empty(),
            db.command_pairs().len() == 0,
            db.bind_pairs().len() == 0,
            db.suggestion_pairs().len() == 0,
    {
        JsonDatabase {
            commands: KeyedTable::new(),
            binds: KeyedTable::new(),
            bind_suggestions: KeyedTable::new(),
        }
    }

    /// Adds a command read from the commands file under its key.
    pub fn load_command(&mut self, key: String, data: CommandData)
        requires
            old(self).wf(),
        ensures
            final(self).wf(),
            final(self).commands_view() == old(self).commands_view().insert(key@, data),
            final(self).binds_view() == old(self).binds_view(),
            final(self).suggestions_view() == old(self).suggestions_view(),
    {
        self.commands.insert(key, data);
    }

    /// Adds a bind read from the binds file under its key.
    pub fn load_bind(&mut self, key: String, data: BindData)
        requires
            old(self).wf(),
        ensures
            final(self).wf(),
            final(self).binds_view() == old(self).binds_view().insert(key@, data),
            final(self).commands_view() == old(self).commands_view(),
            final(self).suggestions_view() == old(self).suggestions_view(),
    {
        self.binds.insert(key, data);
    }

    /// Adds a bind suggestion read from its file under its key.
    pub fn load_bind_suggestion(&mut self, key: String, data: BindSuggestionData)
        requires
            old(self).wf(),
        ensures
            final(self).wf(),
            final(self).suggestions_view() == old(self).suggestions_view().insert(key@, data),
            final(self).commands_view() == old(self).commands_view(),
            final(self).binds_view() == old(self).binds_view(),
    {
        self.bind_suggestions.insert(key, data);
    }

    /// The commands collection, for writing it out.
    pub fn commands_table(&self) -> (t: &KeyedTable<CommandData>)
        ensures
            t.view() == self.commands_view(),
            t.pairs() == self.command_pairs(),
            self.wf() ==> t.wf(),
    {
        &self.commands
    }

    /// The binds collection, for writing it out.
    pub fn binds_table(&self) -> (t: &KeyedTable<BindData>)
        ensures
            t.view() == self.binds_view(),
            t.pairs() == self.bind_pairs(),
            self.wf() ==> t.wf(),
    {
        &self.binds
    }

    /// The bind suggestions collection, for writing it out.
    pub fn bind_suggestions_table(&self) -> (t: &KeyedTable<BindSuggestionData>)
        ensures
            t.view() == self.suggestions_view(),
            t.pairs() == self.suggestion_pairs(),
            self.wf() ==> t.wf(),
    {
        &self.bind_suggestions
    }

    /// Whether a new command can get an ID (one past the largest fits an `i32`).
    pub fn command_id_available(&self) -> (r: bool)
        requires
            self.wf(),
        ensures
            r == (next_id_spec(self.command_pairs()) <= i32::MAX),
    {
        next_id(&self.commands).is_some()
    }

    /// Whether a new bind can get an ID.
    pub fn bind_id_available(&self) -> (r: bool)
        requires
            self.wf(),
        ensures
            r == (next_id_spec(self.bind_pairs()) <= i32::MAX),
    {
        next_id(&self.binds).is_some()
    }

    /// Whether a new bind suggestion can get an ID.
    pub fn bind_suggestion_id_available(&self) -> (r: bool)
        requires
            self.wf(),
        ensures
            r == (next_id_spec(self.suggestion_pairs()) <= i32::MAX),
    {
        next_id(&self.bind_suggestions).is_some()
    }

    // === Commands ===

    /// Every command, sorted by ID (keys that are not numbers read as 0).
    pub fn get_all_commands(&self) -> (r: Vec<Command>)
        requires
            self.wf(),
        ensures
            r@.len() == self.command_pairs().len(),
            forall|j: int| 0 <= j < r@.len() ==> {
                let (id, pos) = #[trigger] sorted_by_id(self.command_pairs(), self.command_pairs().len() as int)[j];
                &&& r@[j].id == id
                &&& r@[j].command == self.command_pairs()[pos].1.command
                &&& r@[j].description == self.command_pairs()[pos].1.description
            },
    {
        let order = sorted_positions(&self.commands);
        let mut out: Vec<Command> = Vec::new();
        let mut j: usize = 0;
        while j < order.len()
            invariant
                j <= order@.len(),
                order@.len() == self.command_pairs().len(),
                forall|k: int| 0 <= k < order@.len() ==> (#[trigger] order@[k]).0 == sorted_by_id(self.command_pairs(), self.command_pairs().len() as int)[k].0
                    && order@[k].1 == sorted_by_id(self.command_pairs(), self.command_pairs().len() as int)[k].1,
                forall|k: int| 0 <= k < order@.len() ==> (#[trigger] order@[k]).1 < self.command_pairs().len(),
                out@.len() == j,
                forall|k: int| 0 <= k < j ==> {
                    let (id, pos) = #[trigger] sorted_by_id(self.command_pairs(), self.command_pairs().len() as int)[k];
                    &&& out@[k].id == id
                    &&& out@[k].command == self.command_pairs()[pos].1.command
                    &&& out@[k].description == self.command_pairs()[pos].1.description
                },
            decreases order@.len() - j,
        {
            let (id, pos) = order[j];
            let d = self.commands.value_at(pos);
            let ghost before = out@;
            out.push(Command { id, command: d.command.clone(), description: d.description.clone() });
            proof {
                assert forall|k: int| 0 <= k < j + 1 implies {
                    let (id2, pos2) = #[trigger] sorted_by_id(self.command_pairs(), self.command_pairs().len() as int)[k];
                    &&& out@[k].id == id2
                    &&& out@[k].command == self.command_pairs()[pos2].1.command
                    &&& out@[k].description == self.command_pairs()[pos2].1.description
                } by {
                    if k < j {
                        assert(out@[k] == before[k]);
                    } else {
                        assert(order@[k].0 == sorted_by_id(self.command_pairs(), self.command_pairs().len() as int)[k].0);
                    }
                }
            }
            j = j + 1;
        }
        out
    }

    /// The command with an ID.
    pub fn get_command(&self, id: i32) -> (r: Result<Command, String>)
        requires
            self.wf(),
        ensures
            match r {
                Ok(c) => self.commands_view().dom().contains(dec_int(id as int)) && c.id == id && c.command
                    == self.commands_view()[dec_int(id as int)].command && c.description
                    == self.commands_view()[dec_int(id as int)].description,
                Err(e) => !self.commands_view().dom().contains(dec_int(id as int)) && e@ == "Command not found"@,
            },
    {
        let key = i32_to_string(id);
        match self.commands.get(key.as_str()) {
            Some(d) => Ok(Command { id, command: d.command.clone(), description: d.description.clone() }),
            None => Err(owned("Command not found")),
        }
    }

    /// Adds a command under the next ID; a command text already in use is refused.
    pub fn create_command(&mut self, command: String, description: String) -> (r: Result<Command, String>)
        requires
            old(self).wf(),
            next_id_spec(old(self).command_pairs()) <= i32::MAX,
        ensures
            final(self).wf(),
            final(self).binds_view() == old(self).binds_view(),
            final(self).suggestions_view() == old(self).suggestions_view(),
            text_taken(old(self).commands_view(), command@, None) ==> {
                &&& r matches Err(e) && e@ == "Command already exists"@
                &&& final(self).commands_view() == old(self).commands_view()
            },
            !text_taken(old(self).commands_view(), command@, None) ==> {
                &&& r matches Ok(c) && c.id == next_id_spec(old(self).command_pairs()) && c.command == command
                    && c.description == description
                &&& final(self).commands_view() == old(self).commands_view().insert(
                    dec_int(next_id_spec(old(self).command_pairs())),
                    CommandData { command, description },
                )
            },
    {
        if text_in_use(&self.commands, command.as_str(), None) {
            return Err(owned("Command already exists"));
        }
        let id = match next_id(&self.commands) {
            Some(id) => id,
            None => {
                return Err(owned("ID overflow"));
            },
        };
        let key = i32_to_string(id);
        self.commands.insert(key, CommandData { command: command.clone(), description: description.clone() });
        Ok(Command { id, command, description })
    }

    /// Replaces the command with an ID; an unknown ID, or a command text used by another
    /// command, is refused.
    pub fn update_command(&mut self, id: i32, command: String, description: String) -> (r: Result<Command, String>)
        requires
            old(self).wf(),
        ensures
            final(self).wf(),
            final(self).binds_view() == old(self).binds_view(),
            final(self).suggestions_view() == old(self).suggestions_view(),
            !old(self).commands_view().dom().contains(dec_int(id as int)) ==> {
                &&& r matches Err(e) && e@ == "Command not found"@
                &&& final(self).commands_view() == old(self).commands_view()
            },
            old(self).commands_view().dom().contains(dec_int(id as int)) && text_taken(
                old(self).commands_view(),
                command@,
                Some(dec_int(id as int)),
            ) ==> {
                &&& r matches Err(e) && e@ == "Command already exists"@
                &&& final(self).commands_view() == old(self).commands_view()
            },
            old(self).commands_view().dom().contains(dec_int(id as int)) && !text_taken(
                old(self).commands_view(),
                command@,
                Some(dec_int(id as int)),
            ) ==> {
                &&& r matches Ok(c) && c.id == id && c.command == command && c.description == description
                &&& final(self).commands_view() == old(self).commands_view().insert(
                    dec_int(id as int),
                    CommandData { command, description },
                )
            },
    {
        let key = i32_to_string(id);
        if !self.commands.contains_key(key.as_str()) {
            return Err(owned("Command not found"));
        }
        if text_in_use(&self.commands, command.as_str(), Some(key.as_str())) {
            return Err(owned("Command already exists"));
        }
        self.commands.insert(key, CommandData { command: command.clone(), description: description.clone() });
        Ok(Command { id, command, description })
    }

    /// Deletes the command with an ID; an unknown ID is refused.
    pub fn delete_command(&mut self, id: i32) -> (r: Result<(), String>)
        requires
            old(self).wf(),
        ensures
            final(self).wf(),
            final(self).commands_view() == old(self).commands_view().remove(dec_int(id as int)),
            final(self).binds_view() == old(self).binds_view(),
            final(self).suggestions_view() == old(self).suggestions_view(),
            old(self).commands_view().dom().contains(dec_int(id as int)) <==> r is Ok,
            r matches Err(e) ==> e@ == "Command not found"@,
    {
        let key = i32_to_string(id);
        match self.commands.remove(key.as_str()) {
            Some(_) => Ok(()),
            None => Err(owned("Command not found")),
        }
    }

    // === Binds ===

    /// Every bind, sorted by ID (keys that are not numbers read as 0).
    pub fn get_all_binds(&self) -> (r: Vec<Bind>)
        requires
            self.wf(),
        ensures
            r@.len() == self.bind_pairs().len(),
            forall|j: int| 0 <= j < r@.len() ==> {
                let (id, pos) = #[trigger] sorted_by_id(self.bind_pairs(), self.bind_pairs().len() as int)[j];
                &&& r@[j].id == id
                &&& r@[j].author == self.bind_pairs()[pos].1.author
                &&& r@[j].text == self.bind_pairs()[pos].1.text
                &&& r@[j].upvote@ == self.bind_pairs()[pos].1.upvote@
                &&& r@[j].downvote@ == self.bind_pairs()[pos].1.downvote@
            },
    {
        let order = sorted_positions(&self.binds);
        let mut out: Vec<Bind> = Vec::new();
        let mut j: usize = 0;
        while j < order.len()
            invariant
                j <= order@.len(),
                order@.len() == self.bind_pairs().len(),
                forall|k: int| 0 <= k < order@.len() ==> (#[trigger] order@[k]).0 == sorted_by_id(self.bind_pairs(), self.bind_pairs().len() as int)[k].0
                    && order@[k].1 == sorted_by_id(self.bind_pairs(), self.bind_pairs().len() as int)[k].1,
                forall|k: int| 0 <= k < order@.len() ==> (#[trigger] order@[k]).1 < self.bind_pairs().len(),
                out@.len() == j,
                forall|k: int| 0 <= k < j ==> {
                    let (id, pos) = #[trigger] sorted_by_id(self.bind_pairs(), self.bind_pairs().len() as int)[k];
                    &&& out@[k].id == id
                    &&& out@[k].author == self.bind_pairs()[pos].1.author
                    &&& out@[k].text == self.bind_pairs()[pos].1.text
                    &&& out@[k].upvote@ == self.bind_pairs()[pos].1.upvote@
                    &&& out@[k].downvote@ == self.bind_pairs()[pos].1.downvote@
                },
            decreases order@.len() - j,
        {
            let (id, pos) = order[j];
            let d = self.binds.value_at(pos);
            let ghost before = out@;
            out.push(
                Bind {
                    id,
                    author: d.author.clone(),
                    text: d.text.clone(),
                    upvote: copy_ids(&d.upvote),
                    downvote: copy_ids(&d.downvote),
                },
            );
            proof {
                assert forall|k: int| 0 <= k < j + 1 implies {
                    let (id2, pos2) = #[trigger] sorted_by_id(self.bind_pairs(), self.bind_pairs().len() as int)[k];
                    &&& out@[k].id == id2
                    &&& out@[k].author == self.bind_pairs()[pos2].1.author
                    &&& out@[k].text == self.bind_pairs()[pos2].1.text
                    &&& out@[k].upvote@ == self.bind_pairs()[pos2].1.upvote@
                    &&& out@[k].downvote@ == self.bind_pairs()[pos2].1.downvote@
                } by {
                    if k < j {
                        assert(out@[k] == before[k]);
                    } else {
                        assert(order@[k].0 == sorted_by_id(self.bind_pairs(), self.bind_pairs().len() as int)[k].0);
                    }
                }
            }
            j = j + 1;
        }
        out
    }

    /// The bind with an ID.
    pub fn get_bind(&self, id: i32) -> (r: Result<Bind, String>)
        requires
            self.wf(),
        ensures
            match r {
                Ok(b) => {
                    let d = self.binds_view()[dec_int(id as int)];
                    &&& self.binds_view().dom().contains(dec_int(id as int))
                    &&& b.id == id
                    &&& b.author == d.author
                    &&& b.text == d.text
                    &&& b.upvote@ == d.upvote@
                    &&& b.downvote@ == d.downvote@
                },
                Err(e) => !self.binds_view().dom().contains(dec_int(id as int)) && e@ == "Bind not found"@,
            },
    {
        let key = i32_to_string(id);
        match self.binds.get(key.as_str()) {
            Some(d) => Ok(
                Bind {
                    id,
                    author: d.author.clone(),
                    text: d.text.clone(),
                    upvote: copy_ids(&d.upvote),
                    downvote: copy_ids(&d.downvote),
                },
            ),
            None => Err(owned("Bind not found")),
        }
    }

    /// Adds a bind with no votes under the next ID; a bind text already in use is refused.
    pub fn create_bind(&mut self, author: String, text: String) -> (r: Result<Bind, String>)
        requires
            old(self).wf(),
            next_id_spec(old(self).bind_pairs()) <= i32::MAX,
        ensures
            final(self).wf(),
            final(self).commands_view() == old(self).commands_view(),
            final(self).suggestions_view() == old(self).suggestions_view(),
            text_taken(old(self).binds_view(), text@, None) ==> {
                &&& r matches Err(e) && e@ == "Bind text already exists"@
                &&& final(self).binds_view() == old(self).binds_view()
            },
            !text_taken(old(self).binds_view(), text@, None) ==> {
                let id = next_id_spec(old(self).bind_pairs());
                &&& r matches Ok(b) && b.id == id && b.author == author && b.text == text && b.upvote@.len() == 0
                    && b.downvote@.len() == 0
                &&& final(self).binds_view().dom() == old(self).binds_view().dom().insert(dec_int(id))
                &&& final(self).binds_view()[dec_int(id)].author == author
                &&& final(self).binds_view()[dec_int(id)].text == text
                &&& final(self).binds_view()[dec_int(id)].upvote@.len() == 0
                &&& final(self).binds_view()[dec_int(id)].downvote@.len() == 0
                &&& forall|k: Seq<char>| k != dec_int(id) ==> #[trigger] final(self).binds_view().dom().contains(k)
                    ==> final(self).binds_view()[k] == old(self).binds_view()[k]
            },
    {
        if text_in_use(&self.binds, text.as_str(), None) {
            return Err(owned("Bind text already exists"));
        }
        let id = match next_id(&self.binds) {
            Some(id) => id,
            None => {
                return Err(owned("ID overflow"));
            },
        };
        let key = i32_to_string(id);
        self.binds.insert(
            key,
            BindData { author: author.clone(), text: text.clone(), upvote: Vec::new(), downvote: Vec::new() },
        );
        Ok(Bind { id, author, text, upvote: Vec::new(), downvote: Vec::new() })
    }

    /// Replaces the bind with an ID, votes included; an unknown ID, or a text used by
    /// another bind, is refused.
    pub fn update_bind(
        &mut self,
        id: i32,
        author: String,
        text: String,
        upvote: Vec<i64>,
        downvote: Vec<i64>,
    ) -> (r: Result<Bind, String>)
        requires
            old(self).wf(),
        ensures
            final(self).wf(),
            final(self).commands_view() == old(self).commands_view(),
            final(self).suggestions_view() == old(self).suggestions_view(),
            !old(self).binds_view().dom().contains(dec_int(id as int)) ==> {
                &&& r matches Err(e) && e@ == "Bind not found"@
                &&& final(self).binds_view() == old(self).binds_view()
            },
            old(self).binds_view().dom().contains(dec_int(id as int)) && text_taken(
                old(self).binds_view(),
                text@,
                Some(dec_int(id as int)),
            ) ==> {
                &&& r matches Err(e) && e@ == "Bind text already exists"@
                &&& final(self).binds_view() == old(self).binds_view()
            },
            old(self).binds_view().dom().contains(dec_int(id as int)) && !text_taken(
                old(self).binds_view(),
                text@,
                Some(dec_int(id as int)),
            ) ==> {
                &&& r matches Ok(b) && b.id == id && b.author == author && b.text == text && b.upvote@
                    == upvote@ && b.downvote@ == downvote@
                &&& final(self).binds_view().dom() == old(self).binds_view().dom()
                &&& final(self).binds_view()[dec_int(id as int)].author == author
                &&& final(self).binds_view()[dec_int(id as int)].text == text
                &&& final(self).binds_view()[dec_int(id as int)].upvote@ == upvote@
                &&& final(self).binds_view()[dec_int(id as int)].downvote@ == downvote@
                &&& forall|k: Seq<char>| k != dec_int(id as int) ==> #[trigger] final(self).binds_view().dom().contains(k)
                    ==> final(self).binds_view()[k] == old(self).binds_view()[k]
            },
    {
        let key = i32_to_string(id);
        if !self.binds.contains_key(key.as_str()) {
            return Err(owned("Bind not found"));
        }
        if text_in_use(&self.binds, text.as_str(), Some(key.as_str())) {
            return Err(owned("Bind text already exists"));
        }
        let up2 = copy_ids(&upvote);
        let down2 = copy_ids(&downvote);
        self.binds.insert(key, BindData { author: author.clone(), text: text.clone(), upvote: up2, downvote: down2 });
        Ok(Bind { id, author, text, upvote, downvote })
    }

    /// Deletes the bind with an ID; an unknown ID is refused.
    pub fn delete_bind(&mut self, id: i32) -> (r: Result<(), String>)
        requires
            old(self).wf(),
        ensures
            final(self).wf(),
            final(self).binds_view() == old(self).binds_view().remove(dec_int(id as int)),
            final(self).commands_view() == old(self).commands_view(),
            final(self).suggestions_view() == old(self).suggestions_view(),
            old(self).binds_view().dom().contains(dec_int(id as int)) <==> r is Ok,
            r matches Err(e) ==> e@ == "Bind not found"@,
    {
        let key = i32_to_string(id);
        match self.binds.remove(key.as_str()) {
            Some(_) => Ok(()),
            None => Err(owned("Bind not found")),
        }
    }

    // === Bind suggestions ===

    /// Every bind suggestion, sorted by ID (keys that are not numbers read as 0).
    pub fn get_all_bind_suggestions(&self) -> (r: Vec<BindSuggestion>)
        requires
            self.wf(),
        ensures
            r@.len() == self.suggestion_pairs().len(),
            forall|j: int| 0 <= j < r@.len() ==> {
                let (id, pos) = #[trigger] sorted_by_id(self.suggestion_pairs(), self.suggestion_pairs().len() as int)[j];
                &&& r@[j].id == id
                &&& r@[j].author == self.suggestion_pairs()[pos].1.author
                &&& r@[j].text == self.suggestion_pairs()[pos].1.text
                &&& r@[j].proposed_by == self.suggestion_pairs()[pos].1.proposed_by
            },
    {
        let order = sorted_positions(&self.bind_suggestions);
        let mut out: Vec<BindSuggestion> = Vec::new();
        let mut j: usize = 0;
        while j < order.len()
            invariant
                j <= order@.len(),
                order@.len() == self.suggestion_pairs().len(),
                forall|k: int| 0 <= k < order@.len() ==> (#[trigger] order@[k]).0 == sorted_by_id(self.suggestion_pairs(), self.suggestion_pairs().len() as int)[k].0
                    && order@[k].1 == sorted_by_id(self.suggestion_pairs(), self.suggestion_pairs().len() as int)[k].1,
                forall|k: int| 0 <= k < order@.len() ==> (#[trigger] order@[k]).1 < self.suggestion_pairs().len(),
                out@.len() == j,
                forall|k: int| 0 <= k < j ==> {
                    let (id, pos) = #[trigger] sorted_by_id(self.suggestion_pairs(), self.suggestion_pairs().len() as int)[k];
                    &&& out@[k].id == id
                    &&& out@[k].author == self.suggestion_pairs()[pos].1.author
                    &&& out@[k].text == self.suggestion_pairs()[pos].1.text
                    &&& out@[k].proposed_by == self.suggestion_pairs()[pos].1.proposed_by
                },
            decreases order@.len() - j,
        {
            let (id, pos) = order[j];
            let d = self.bind_suggestions.value_at(pos);
            let ghost before = out@;
            out.push(
                BindSuggestion {
                    id,
                    author: d.author.clone(),
                    text: d.text.clone(),
                    proposed_by: d.proposed_by.clone(),
                },
            );
            proof {
                assert forall|k: int| 0 <= k < j + 1 implies {
                    let (id2, pos2) = #[trigger] sorted_by_id(self.suggestion_pairs(), self.suggestion_pairs().len() as int)[k];
                    &&& out@[k].id == id2
                    &&& out@[k].author == self.suggestion_pairs()[pos2].1.author
                    &&& out@[k].text == self.suggestion_pairs()[pos2].1.text
                    &&& out@[k].proposed_by == self.suggestion_pairs()[pos2].1.proposed_by
                } by {
                    if k < j {
                        assert(out@[k] == before[k]);
                    } else {
                        assert(order@[k].0 == sorted_by_id(self.suggestion_pairs(), self.suggestion_pairs().len() as int)[k].0);
                    }
                }
            }
            j = j + 1;
        }
        out
    }

    /// The bind suggestion with an ID.
    pub fn get_bind_suggestion(&self, id: i32) -> (r: Result<BindSuggestion, String>)
        requires
            self.wf(),
        ensures
            match r {
                Ok(s) => {
                    let d = self.suggestions_view()[dec_int(id as int)];
                    &&& self.suggestions_view().dom().contains(dec_int(id as int))
                    &&& s.id == id
                    &&& s.author == d.author
                    &&& s.text == d.text
                    &&& s.proposed_by == d.proposed_by
                },
                Err(e) => !self.suggestions_view().dom().contains(dec_int(id as int)) && e@
                    == "Bind suggestion not found"@,
            },
    {
        let key = i32_to_string(id);
        match self.bind_suggestions.get(key.as_str()) {
            Some(d) => Ok(
                BindSuggestion {
                    id,
                    author: d.author.clone(),
                    text: d.text.clone(),
                    proposed_by: d.proposed_by.clone(),
                },
            ),
            None => Err(owned("Bind suggestion not found")),
        }
    }

    /// Adds a bind suggestion under the next ID; a text already suggested is refused.
    pub fn create_bind_suggestion(&mut self, author: String, text: String, proposed_by: String) -> (r: Result<
        BindSuggestion,
        String,
    >)
        requires
            old(self).wf(),
            next_id_spec(old(self).suggestion_pairs()) <= i32::MAX,
        ensures
            final(self).wf(),
            final(self).commands_view() == old(self).commands_view(),
            final(self).binds_view() == old(self).binds_view(),
            text_taken(old(self).suggestions_view(), text@, None) ==> {
                &&& r matches Err(e) && e@ == "Bind suggestion text already exists"@
                &&& final(self).suggestions_view() == old(self).suggestions_view()
            },
            !text_taken(old(self).suggestions_view(), text@, None) ==> {
                &&& r matches Ok(s) && s.id == next_id_spec(old(self).suggestion_pairs()) && s.author == author
                    && s.text == text && s.proposed_by == proposed_by
                &&& final(self).suggestions_view() == old(self).suggestions_view().insert(
                    dec_int(next_id_spec(old(self).suggestion_pairs())),
                    BindSuggestionData { author, text, proposed_by },
                )
            },
    {
        if text_in_use(&self.bind_suggestions, text.as_str(), None) {
            return Err(owned("Bind suggestion text already exists"));
        }
        let id = match next_id(&self.bind_suggestions) {
            Some(id) => id,
            None => {
                return Err(owned("ID overflow"));
            },
        };
        let key = i32_to_string(id);
        self.bind_suggestions.insert(
            key,
            BindSuggestionData { author: author.clone(), text: text.clone(), proposed_by: proposed_by.clone() },
        );
        Ok(BindSuggestion { id, author, text, proposed_by })
    }

    /// Replaces the bind suggestion with an ID; an unknown ID, or a text used by another
    /// suggestion, is refused.
    pub fn update_bind_suggestion(&mut self, id: i32, author: String, text: String, proposed_by: String) -> (r:
        Result<BindSuggestion, String>)
        requires
            old(self).wf(),
        ensures
            final(self).wf(),
            final(self).commands_view() == old(self).commands_view(),
            final(self).binds_view() == old(self).binds_view(),
            !old(self).suggestions_view().dom().contains(dec_int(id as int)) ==> {
                &&& r matches Err(e) && e@ == "Bind suggestion not found"@
                &&& final(self).suggestions_view() == old(self).suggestions_view()
            },
            old(self).suggestions_view().dom().contains(dec_int(id as int)) && text_taken(
                old(self).suggestions_view(),
                text@,
                Some(dec_int(id as int)),
            ) ==> {
                &&& r matches Err(e) && e@ == "Bind suggestion text already exists"@
                &&& final(self).suggestions_view() == old(self).suggestions_view()
            },
            old(self).suggestions_view().dom().contains(dec_int(id as int)) && !text_taken(
                old(self).suggestions_view(),
                text@,
                Some(dec_int(id as int)),
            ) ==> {
                &&& r matches Ok(s) && s.id == id && s.author == author && s.text == text && s.proposed_by
                    == proposed_by
                &&& final(self).suggestions_view() == old(self).suggestions_view().insert(
                    dec_int(id as int),
                    BindSuggestionData { author, text, proposed_by },
                )
            },
    {
        let key = i32_to_string(id);
        if !self.bind_suggestions.contains_key(key.as_str()) {
            return Err(owned("Bind suggestion not found"));
        }
        if text_in_use(&self.bind_suggestions, text.as_str(), Some(key.as_str())) {
            return Err(owned("Bind suggestion text already exists"));
        }
        self.bind_suggestions.insert(
            key,
            BindSuggestionData { author: author.clone(), text: text.clone(), proposed_by: proposed_by.clone() },
        );
        Ok(BindSuggestion { id, author, text, proposed_by })
    }

    /// Deletes the bind suggestion with an ID; an unknown ID is refused.
    pub fn delete_bind_suggestion(&mut self, id: i32) -> (r: Result<(), String>)
        requires
            old(self).wf(),
        ensures
            final(self).wf(),
            final(self).suggestions_view() == old(self).suggestions_view().remove(dec_int(id as int)),
            final(self).commands_view() == old(self).commands_view(),
            final(self).binds_view() == old(self).binds_view(),
            old(self).suggestions_view().dom().contains(dec_int(id as int)) <==> r is Ok,
            r matches Err(e) ==> e@ == "Bind suggestion not found"@,
    {
        let key = i32_to_string(id);
        match self.bind_suggestions.remove(key.as_str()) {
            Some(_) => Ok(()),
            None => Err(owned("Bind suggestion not found")),
        }
    }

    // === Votes ===

    /// Records a vote on a bind. The voter's earlier votes on it are removed first, then
    /// the voter is added to the upvotes or downvotes by the vote type (`upvote` or
    /// `downvote`, in any case); another type is refused, the earlier votes staying
    /// removed. An unknown bind is refused.
    pub fn add_vote(&mut self, bind_id: i32, voter_steam_id: i64, vote_type: &str) -> (r: Result<(), String>)
        requires
            old(self).wf(),
        ensures
            final(self).wf(),
            final(self).commands_view() == old(self).commands_view(),
            final(self).suggestions_view() == old(self).suggestions_view(),
            final(self).binds_view().dom() == old(self).binds_view().dom(),
            forall|k: Seq<char>| k != dec_int(bind_id as int) ==> #[trigger] final(self).binds_view().dom().contains(k)
                ==> final(self).binds_view()[k] == old(self).binds_view()[k],
            !old(self).binds_view().dom().contains(dec_int(bind_id as int)) ==> (r matches Err(e) && e@
                == "Bind not found"@),
            old(self).binds_view().dom().contains(dec_int(bind_id as int)) ==> {
                let d = old(self).binds_view()[dec_int(bind_id as int)];
                let n = final(self).binds_view()[dec_int(bind_id as int)];
                let t = lowercased(vote_type@);
                &&& n.author == d.author
                &&& n.text == d.text
                &&& t == "upvote"@ ==> r is Ok && (n.upvote@, n.downvote@) == voted(d, voter_steam_id, true)
                &&& t == "downvote"@ ==> r is Ok && (n.upvote@, n.downvote@) == voted(d, voter_steam_id, false)
                &&& t != "upvote"@ && t != "downvote"@ ==> (r matches Err(e) && e@ == "Invalid vote type"@)
                    && n.upvote@ == without(d.upvote@, voter_steam_id) && n.downvote@ == without(
                    d.downvote@,
                    voter_steam_id,
                )
            },
    {
        let key = i32_to_string(bind_id);
        let d = match self.binds.remove(key.as_str()) {
            Some(d) => d,
            None => {
                assert(self.binds.view() =~= old(self).binds.view());
                return Err(owned("Bind not found"));
            },
        };
        let mut up = remove_all(&d.upvote, voter_steam_id);
        let mut down = remove_all(&d.downvote, voter_steam_id);
        let kind = crate::text::to_lowercase(vote_type);
        let is_up = crate::text::str_eq(kind.as_str(), "upvote");
        let is_down = crate::text::str_eq(kind.as_str(), "downvote");
        let ghost up0 = up@;
        let ghost down0 = down@;
        let result = if is_up {
            up.push(voter_steam_id);
            Ok(())
        } else if is_down {
            down.push(voter_steam_id);
            Ok(())
        } else {
            Err(owned("Invalid vote type"))
        };
        assert(is_up ==> up@ == up0.push(voter_steam_id) && down@ == down0);
        assert(!is_up && is_down ==> up@ == up0 && down@ == down0.push(voter_steam_id));
        assert(!is_up && !is_down ==> up@ == up0 && down@ == down0);
        let ghost k = key@;
        let ghost upv = up@;
        let ghost downv = down@;
        let ghost dd = old(self).binds.view()[k];
        assert(d == dd);
        self.binds.insert(key, BindData { author: d.author, text: d.text, upvote: up, downvote: down });
        proof {
            assert(self.binds.view().dom() =~= old(self).binds.view().dom());
            let n = self.binds.view()[k];
            assert(n.upvote@ == upv);
            assert(n.downvote@ == downv);
            assert(n.author == dd.author);
            let t = lowercased(vote_type@);
            reveal_strlit("upvote");
            reveal_strlit("downvote");
            assert("upvote"@ != "downvote"@) by {
                assert("upvote"@[0] != "downvote"@[0]);
            }
            assert(t == "upvote"@ ==> (n.upvote@, n.downvote@) == voted(dd, voter_steam_id, true));
            assert(t == "downvote"@ ==> (n.upvote@, n.downvote@) == voted(dd, voter_steam_id, false));
        }
        result
    }

    /// Removes a voter's votes on a bind; an unknown bind is refused.
    pub fn remove_vote(&mut self, bind_id: i32, voter_steam_id: i64) -> (r: Result<(), String>)
        requires
            old(self).wf(),
        ensures
            final(self).wf(),
            final(self).commands_view() == old(self).commands_view(),
            final(self).suggestions_view() == old(self).suggestions_view(),
            final(self).binds_view().dom() == old(self).binds_view().dom(),
            forall|k: Seq<char>| k != dec_int(bind_id as int) ==> #[trigger] final(self).binds_view().dom().contains(k)
                ==> final(self).binds_view()[k] == old(self).binds_view()[k],
            !old(self).binds_view().dom().contains(dec_int(bind_id as int)) ==> (r matches Err(e) && e@
                == "Bind not found"@),
            old(self).binds_view().dom().contains(dec_int(bind_id as int)) ==> {
                let d = old(self).binds_view()[dec_int(bind_id as int)];
                let n = final(self).binds_view()[dec_int(bind_id as int)];
                &&& r is Ok
                &&& n.author == d.author
                &&& n.text == d.text
                &&& n.upvote@ == without(d.upvote@, voter_steam_id)
                &&& n.downvote@ == without(d.downvote@, voter_steam_id)
            },
    {
        let key = i32_to_string(bind_id);
        let d = match self.binds.remove(key.as_str()) {
            Some(d) => d,
            None => {
                assert(self.binds.view() =~= old(self).binds.view());
                return Err(owned("Bind not found"));
            },
        };
        let up = remove_all(&d.upvote, voter_steam_id);
        let down = remove_all(&d.downvote, voter_steam_id);
        self.binds.insert(key, BindData { author: d.author, text: d.text, upvote: up, downvote: down });
        proof {
            assert(self.binds.view().dom() =~= old(self).binds.view().dom());
        }
        Ok(())
    }
}


// === Laws ===

/// Parsing the decimal rendering of an `i32` gives the number back.
proof fn lemma_parse_i32_dec_int(n: i32)
    ensures
        parse_i32_spec(dec_int(n as int)) == Some(n),
{
    if n < 0 {
        let m: nat = (-n) as nat;
        crate::text::lemma_dec_digits(m);
        let s = dec_int(n as int);
        assert(s == seq!['-'] + crate::text::dec(m));
        assert(s.drop_first() =~= crate::text::dec(m));
        assert(s[0] == '-');
    } else {
        crate::text::lemma_dec_digits(n as nat);
        let s = dec_int(n as int);
        assert(s[0] != '-' && s[0] != '+');
        assert(crate::text::unsigned_body(s) == s);
    }
}

/// Every numeric key is at most the largest one.
proof fn lemma_max_id_bounds<V>(pairs: Seq<(String, V)>, i: int)
    requires
        0 <= i < pairs.len(),
        parse_i32_spec(pairs[i].0@) is Some,
    ensures
        max_id(pairs) is Some,
        parse_i32_spec(pairs[i].0@)->0 <= max_id(pairs)->0,
    decreases pairs.len(),
{
    if i < pairs.len() - 1 {
        assert(pairs.drop_last()[i] == pairs[i]);
        lemma_max_id_bounds(pairs.drop_last(), i);
    }
}

/// The next ID is no key yet.
pub proof fn lemma_next_id_unused<V>(pairs: Seq<(String, V)>)
    requires
        next_id_spec(pairs) <= i32::MAX,
    ensures
        !has_key(pairs, dec_int(next_id_spec(pairs))),
{
    let n = next_id_spec(pairs);
    assert(i32::MIN <= n) by {
        if max_id(pairs) is Some {
            assert(max_id(pairs)->0 >= i32::MIN);
        }
    }
    lemma_parse_i32_dec_int(n as i32);
    if has_key(pairs, dec_int(n)) {
        let i = choose|i: int| 0 <= i < pairs.len() && #[trigger] pairs[i].0@ == dec_int(n);
        lemma_max_id_bounds(pairs, i);
    }
}

/// Creating never overwrites: the ID a new command, bind or bind suggestion is stored
/// under holds no record yet.
pub proof fn lemma_created_ids_are_fresh(db: JsonDatabase)
    requires
        db.wf(),
    ensures
        next_id_spec(db.command_pairs()) <= i32::MAX ==> !db.commands_view().dom().contains(
            dec_int(next_id_spec(db.command_pairs())),
        ),
        next_id_spec(db.bind_pairs()) <= i32::MAX ==> !db.binds_view().dom().contains(
            dec_int(next_id_spec(db.bind_pairs())),
        ),
        next_id_spec(db.suggestion_pairs()) <= i32::MAX ==> !db.suggestions_view().dom().contains(
            dec_int(next_id_spec(db.suggestion_pairs())),
        ),
{
    db.commands.lemma_pairs();
    db.binds.lemma_pairs();
    db.bind_suggestions.lemma_pairs();
    if next_id_spec(db.command_pairs()) <= i32::MAX {
        lemma_next_id_unused(db.command_pairs());
    }
    if next_id_spec(db.bind_pairs()) <= i32::MAX {
        lemma_next_id_unused(db.bind_pairs());
    }
    if next_id_spec(db.suggestion_pairs()) <= i32::MAX {
        lemma_next_id_unused(db.suggestion_pairs());
    }
}

/// A record written under a key is what reading that key gives, and a deleted key
/// reads as missing; no other key changes.
pub proof fn lemma_read_after_write<V>(before: Map<Seq<char>, V>, key: Seq<char>, value: V, other: Seq<char>)
    requires
        other != key,
    ensures
        before.insert(key, value).dom().contains(key),
        before.insert(key, value)[key] == value,
        !before.remove(key).dom().contains(key),
        before.insert(key, value).dom().contains(other) == before.dom().contains(other),
        before.remove(key).dom().contains(other) == before.dom().contains(other),
        before.dom().contains(other) ==> before.insert(key, value)[other] == before[other]
            && before.remove(key)[other] == before[other],
{
}

/// `without` drops exactly the removed voter.
proof fn lemma_without(s: Seq<i64>, x: i64)
    ensures
        !without(s, x).contains(x),
        forall|y: i64| y != x ==> (#[trigger] without(s, x).contains(y) <==> s.contains(y)),
        without(without(s, x), x) == without(s, x),
        without(s.push(x), x) == without(s, x),
    decreases s.len(),
{
    if s.len() > 0 {
        lemma_without(s.drop_last(), x);
        let w = without(s.drop_last(), x);
        if s.last() != x {
            assert(without(s, x) == w.push(s.last()));
            assert forall|y: i64| y != x implies (#[trigger] without(s, x).contains(y) <==> s.contains(y)) by {
                if s.contains(y) {
                    let i = choose|i: int| 0 <= i < s.len() && s[i] == y;
                    if i < s.len() - 1 {
                        assert(s.drop_last()[i] == y);
                        assert(s.drop_last().contains(y));
                        assert(w.contains(y));
                        let k = choose|k: int| 0 <= k < w.len() && w[k] == y;
                        assert(w.push(s.last())[k] == y);
                    } else {
                        assert(w.push(s.last())[w.len() as int] == y);
                    }
                }
                if without(s, x).contains(y) {
                    let i = choose|i: int| 0 <= i < w.push(s.last()).len() && w.push(s.last())[i] == y;
                    if i < w.len() {
                        assert(w.contains(y));
                        let k = choose|k: int| 0 <= k < s.drop_last().len() && s.drop_last()[k] == y;
                        assert(s[k] == y);
                    } else {
                        assert(s[s.len() - 1] == y);
                    }
                }
            }
            assert(without(s, x).drop_last() =~= w);
            assert(without(without(s, x), x) == without(w, x).push(s.last()));
        } else {
            assert forall|y: i64| y != x implies (#[trigger] without(s, x).contains(y) <==> s.contains(y)) by {
                if s.contains(y) {
                    let i = choose|i: int| 0 <= i < s.len() && s[i] == y;
                    assert(i < s.len() - 1);
                    assert(s.drop_last()[i] == y);
                }
                if w.contains(y) {
                    let k = choose|k: int| 0 <= k < s.drop_last().len() && s.drop_last()[k] == y;
                    assert(s[k] == y);
                }
            }
        }
    }
    assert(s.push(x).drop_last() =~= s);
}

/// A voter holds at most one vote per bind: after voting, the voter is in exactly the
/// list the vote chose, once and last, and absent from the other; every other voter's
/// votes stay. Voting the same way again changes nothing, and taking the vote back
/// leaves the voter in neither list.
pub proof fn lemma_one_vote_per_voter(d: BindData, voter: i64, up: bool, other: i64)
    requires
        other != voter,
    ensures
        ({
            let (u, w) = voted(d, voter, up);
            &&& u.contains(voter) == up
            &&& w.contains(voter) == !up
            &&& up ==> u.last() == voter && !u.drop_last().contains(voter)
            &&& !up ==> w.last() == voter && !w.drop_last().contains(voter)
            &&& u.contains(other) == d.upvote@.contains(other)
            &&& w.contains(other) == d.downvote@.contains(other)
        }),
        ({
            let (u, w) = voted(d, voter, up);
            voted_lists(u, w, voter, up) == (u, w)
        }),
        !without(d.upvote@, voter).contains(voter),
        !without(d.downvote@, voter).contains(voter),
{
    lemma_without(d.upvote@, voter);
    lemma_without(d.downvote@, voter);
    let (u, w) = voted(d, voter, up);
    let wu = without(d.upvote@, voter);
    let wd = without(d.downvote@, voter);
    lemma_without(wu, voter);
    lemma_without(wd, voter);
    assert(wu.push(voter).drop_last() =~= wu);
    assert(wd.push(voter).drop_last() =~= wd);
    assert(wu.push(voter).contains(voter)) by {
        assert(wu.push(voter)[wu.len() as int] == voter);
    }
    assert(wd.push(voter).contains(voter)) by {
        assert(wd.push(voter)[wd.len() as int] == voter);
    }
    assert(wu.push(voter).contains(other) == wu.contains(other)) by {
        if wu.push(voter).contains(other) {
            let i = choose|i: int| 0 <= i < wu.push(voter).len() && wu.push(voter)[i] == other;
            assert(wu[i] == other);
        }
        if wu.contains(other) {
            let i = choose|i: int| 0 <= i < wu.len() && wu[i] == other;
            assert(wu.push(voter)[i] == other);
        }
    }
    assert(wd.push(voter).contains(other) == wd.contains(other)) by {
        if wd.push(voter).contains(other) {
            let i = choose|i: int| 0 <= i < wd.push(voter).len() && wd.push(voter)[i] == other;
            assert(wd[i] == other);
        }
        if wd.contains(other) {
            let i = choose|i: int| 0 <= i < wd.len() && wd[i] == other;
            assert(wd.push(voter)[i] == other);
        }
    }
    lemma_without(wu.push(voter), voter);
    lemma_without(wd.push(voter), voter);
}


/// Whether a listing is in ascending ID order.
pub open spec fn ids_ascending(s: Seq<(i32, int)>) -> bool {
    forall|i: int, j: int| 0 <= i < j < s.len() ==> (#[trigger] s[i]).0 <= (#[trigger] s[j]).0
}

proof fn lemma_insert_by_id_ascending(s: Seq<(i32, int)>, x: (i32, int))
    requires
        ids_ascending(s),
    ensures
        ids_ascending(insert_by_id(s, x)),
        forall|k: int| 0 <= k < insert_by_id(s, x).len() ==> (#[trigger] insert_by_id(s, x)[k]) == x || s.contains(
            insert_by_id(s, x)[k],
        ),
    decreases s.len(),
{
    lemma_insert_by_id_positions_len(s, x);
    if s.len() == 0 {
        assert(insert_by_id(s, x) =~= seq![x]);
    } else if s.last().0 > x.0 {
        let d = s.drop_last();
        assert(ids_ascending(d)) by {
            assert forall|i: int, j: int| 0 <= i < j < d.len() implies (#[trigger] d[i]).0 <= (#[trigger] d[j]).0 by {
                assert(d[i] == s[i] && d[j] == s[j]);
            }
        }
        lemma_insert_by_id_ascending(d, x);
        let r = insert_by_id(d, x);
        let t = r.push(s.last());
        assert forall|k: int| 0 <= k < r.len() implies (#[trigger] r[k]).0 <= s.last().0 by {
            if r[k] != x {
                assert(d.contains(r[k]));
                let m = choose|m: int| 0 <= m < d.len() && d[m] == r[k];
                assert(s[m] == d[m]);
                assert(s[m].0 <= s[s.len() - 1].0);
            }
        }
        assert forall|i: int, j: int| 0 <= i < j < t.len() implies (#[trigger] t[i]).0 <= (#[trigger] t[j]).0 by {
            assert(t[i] == r[i]);
            if j < r.len() {
                assert(t[j] == r[j]);
            }
        }
        assert forall|k: int| 0 <= k < t.len() implies (#[trigger] t[k]) == x || s.contains(t[k]) by {
            if k < r.len() {
                assert(t[k] == r[k]);
                if r[k] != x {
                    let m = choose|m: int| 0 <= m < d.len() && d[m] == r[k];
                    assert(s[m] == d[m]);
                }
            } else {
                assert(s[s.len() - 1] == t[k]);
            }
        }
    } else {
        let t = s.push(x);
        assert forall|i: int, j: int| 0 <= i < j < t.len() implies (#[trigger] t[i]).0 <= (#[trigger] t[j]).0 by {
            assert(t[i] == s[i]);
            if j < s.len() {
                assert(t[j] == s[j]);
            } else {
                assert(s[i].0 <= s[s.len() - 1].0);
            }
        }
        assert forall|k: int| 0 <= k < t.len() implies (#[trigger] t[k]) == x || s.contains(t[k]) by {
            if k < s.len() {
                assert(t[k] == s[k]);
            }
        }
    }
}

proof fn lemma_insert_by_id_positions_len(s: Seq<(i32, int)>, x: (i32, int))
    ensures
        insert_by_id(s, x).len() == s.len() + 1,
    decreases s.len(),
{
    if s.len() > 0 && s.last().0 > x.0 {
        lemma_insert_by_id_positions_len(s.drop_last(), x);
    }
}

/// Listings come in ascending ID order.
pub proof fn lemma_listing_ascending<V>(pairs: Seq<(String, V)>, n: int)
    ensures
        ids_ascending(sorted_by_id(pairs, n)),
    decreases n,
{
    if n > 0 {
        lemma_listing_ascending(pairs, n - 1);
        lemma_insert_by_id_ascending(sorted_by_id(pairs, n - 1), (id_of_key(pairs[n - 1].0@), n - 1));
    }
}

} // verus!
