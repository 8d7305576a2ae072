//! The map suggestions file: suggestions keyed by ID and the next ID to hand out.
use vstd::prelude::*;
use crate::keyed::{entries_map, has_key, keys_distinct, without_key, KeyedTable};
use crate::maps_bridge::l4d2center_index::{first_where, lemma_first_where, lemma_first_where_none};
use crate::maps_bridge::models::{
    timestamp_before, ts_before, MapSuggestion, MapSuggestionSourceKind, Timestamp,
};
use crate::text::{dec, eq_ignore_ascii_case, opt_string_view, parse_u64_spec, str_parse_u64, u64_to_string};

verus! {

/// A suggestion as the file stores it (its ID is the key).
pub struct StoredSuggestion {
    pub source_kind: MapSuggestionSourceKind,
    pub workshop_id: Option<u64>,
    pub l4d2center_name: Option<String>,
    pub title: String,
    pub preview_url: Option<String>,
    pub download_link: Option<String>,
    pub size_bytes: Option<u64>,
    pub proposed_by: String,
    pub proposed_at: Timestamp,
}

/// The map suggestions, as the suggestions file holds them.
pub struct SuggestionsStore {
    path: String,
    next_id: u64,
    suggestions: KeyedTable<StoredSuggestion>,
}

fn copy_opt(o: &Option<String>) -> (r: Option<String>)
    ensures
        r == *o,
{
    match o {
        Some(s) => Some(s.clone()),
        None => None,
    }
}

/// A suggestion with its ID.
pub open spec fn public_spec(id: u64, d: StoredSuggestion) -> MapSuggestion {
    MapSuggestion {
        id,
        source_kind: d.source_kind,
        workshop_id: d.workshop_id,
        l4d2center_name: d.l4d2center_name,
        title: d.title,
        preview_url: d.preview_url,
        download_link: d.download_link,
        size_bytes: d.size_bytes,
        proposed_by: d.proposed_by,
        proposed_at: d.proposed_at,
    }
}

/// What the file stores of a suggestion.
pub open spec fn stored_spec(s: MapSuggestion) -> StoredSuggestion {
    StoredSuggestion {
        source_kind: s.source_kind,
        workshop_id: s.workshop_id,
        l4d2center_name: s.l4d2center_name,
        title: s.title,
        preview_url: s.preview_url,
        download_link: s.download_link,
        size_bytes: s.size_bytes,
        proposed_by: s.proposed_by,
        proposed_at: s.proposed_at,
    }
}

/// The suggestions of the stored entries whose key is a number, in table order.
pub open spec fn public_items(pairs: Seq<(String, StoredSuggestion)>) -> Seq<MapSuggestion>
    decreases pairs.len(),
{
    if pairs.len() == 0 {
        seq![]
    } else {
        let rest = public_items(pairs.drop_last());
        match parse_u64_spec(pairs.last().0@) {
            Some(id) => rest.push(public_spec(id, pairs.last().1)),
            None => rest,
        }
    }
}

/// Inserts a suggestion into a list sorted newest first, after every suggestion that is
/// not older (so equal times keep their order).
pub open spec fn insert_newest_first(sorted: Seq<MapSuggestion>, x: MapSuggestion) -> Seq<MapSuggestion>
    decreases sorted.len(),
{
    if sorted.len() == 0 {
        seq![x]
    } else if ts_before(sorted.last().proposed_at, x.proposed_at) {
        insert_newest_first(sorted.drop_last(), x).push(sorted.last())
    } else {
        sorted.push(x)
    }
}

/// A list sorted newest first by a stable insertion sort.
pub open spec fn newest_first(items: Seq<MapSuggestion>) -> Seq<MapSuggestion>
    decreases items.len(),
{
    if items.len() == 0 {
        seq![]
    } else {
        insert_newest_first(newest_first(items.drop_last()), items.last())
    }
}

proof fn lemma_insert_newest_first(s: Seq<MapSuggestion>, x: MapSuggestion, pos: int)
    requires
        0 <= pos <= s.len(),
        forall|j: int| pos <= j < s.len() ==> ts_before(#[trigger] s[j].proposed_at, x.proposed_at),
        pos > 0 ==> !ts_before(s[pos - 1].proposed_at, x.proposed_at),
    ensures
        insert_newest_first(s, x) == s.insert(pos, x),
    decreases s.len(),
{
    if s.len() == pos {
        assert(s.insert(pos, x) =~= s.push(x));
        if s.len() == 0 {
            assert(s.push(x) =~= seq![x]);
        }
    } else {
        let d = s.drop_last();
        assert forall|j: int| pos <= j < d.len() implies ts_before(#[trigger] d[j].proposed_at, x.proposed_at) by {
            assert(d[j] == s[j]);
        }
        if pos > 0 {
            assert(d[pos - 1] == s[pos - 1]);
        }
        lemma_insert_newest_first(d, x, pos);
        assert(ts_before(s[s.len() - 1].proposed_at, x.proposed_at));
        assert(d.insert(pos, x).push(s.last()) =~= s.insert(pos, x));
    }
}

/// Whether a listed suggestion duplicates a new one: the same workshop item when both
/// have workshop IDs, else the same catalog name up to ASCII case when both have names.
pub open spec fn is_duplicate(item: MapSuggestion, workshop_id: Option<u64>, name: Option<Seq<char>>) -> bool {
    if workshop_id is Some && item.workshop_id is Some {
        workshop_id->0 == item.workshop_id->0
    } else if name is Some && item.l4d2center_name is Some {
        eq_ignore_ascii_case(name->0, item.l4d2center_name->0@)
    } else {
        false
    }
}

impl SuggestionsStore {
    /// The suggestions, keyed by ID in decimal.
    pub closed spec fn view(&self) -> Map<Seq<char>, StoredSuggestion> {
        self.suggestions.view()
    }

    /// The stored entries in table order.
    pub closed spec fn entries(&self) -> Seq<(String, StoredSuggestion)> {
        self.suggestions.pairs()
    }

    /// The next ID the file hands out.
    pub closed spec fn next_id_spec(&self) -> u64 {
        self.next_id
    }

    /// Where the suggestions file lives.
    pub closed spec fn path_spec(&self) -> Seq<char> {
        self.path@
    }

    /// The store's invariant.
    pub closed spec fn wf(&self) -> bool {
        self.suggestions.wf()
    }

    /// The suggestions as `list` returns them.
    pub open spec fn list_spec(&self) -> Seq<MapSuggestion> {
        newest_first(public_items(self.entries()))
    }

    /// The keyed view is the map of the stored entries, whose keys are distinct: a key is
    /// in the view exactly when an entry has it.
    pub proof fn lemma_view_entries(&self)
        requires
            self.wf(),
        ensures
            keys_distinct(self.entries()),
            self.view() == entries_map(self.entries()),
            forall|k: Seq<char>| #[trigger] self.view().dom().contains(k) <==> has_key(self.entries(), k),
    {
        self.suggestions.lemma_pairs();
    }

    /// An empty suggestions file at `path`, as when the file does not exist yet.
    pub fn new(path: String) -> (s: Self)
        ensures
            s.wf(),
            s.view() == Map::<Seq<char>, StoredSuggestion>::empty(),
            s.entries().len() == 0,
            s.next_id_spec() == 0,
            s.path_spec() == path@,
    {
        SuggestionsStore { path, next_id: 0, suggestions: KeyedTable::new() }
    }

    /// The suggestions file read from disk: its next ID and its entries as stored.
    pub fn from_file(path: String, next_id: u64, entries: Vec<(String, StoredSuggestion)>) -> (s: Self)
        ensures
            s.wf(),
            s.next_id_spec() == next_id,
            s.path_spec() == path@,
    {
        let mut table: KeyedTable<StoredSuggestion> = KeyedTable::new();
        let mut entries = entries;
        while entries.len() > 0
            invariant
                table.wf(),
            decreases entries@.len(),
        {
            let (k, v) = entries.remove(0);
            table.insert(k, v);
        }
        SuggestionsStore { path, next_id, suggestions: table }
    }

    /// Where the suggestions file lives.
    pub fn path(&self) -> (r: &str)
        ensures
            r@ == self.path_spec(),
    {
        self.path.as_str()
    }

    /// The next ID the file hands out.
    pub fn next_id(&self) -> (r: u64)
        ensures
            r == self.next_id_spec(),
    {
        self.next_id
    }

    /// The number of stored entries.
    pub fn entry_count(&self) -> (n: usize)
        requires
            self.wf(),
        ensures
            n == self.entries().len(),
    {
        self.suggestions.len()
    }

    /// The stored entry at a position, for writing the file out.
    pub fn entry_at(&self, i: usize) -> (r: (&String, &StoredSuggestion))
        requires
            i < self.entries().len(),
        ensures
            *r.0 == self.entries()[i as int].0,
            *r.1 == self.entries()[i as int].1,
    {
        (self.suggestions.key_at(i), self.suggestions.value_at(i))
    }

    /// Where the suggestions file lives: beside the registry file.
    pub fn path_from_registry(registry_path: &str) -> (r: String)
        ensures
            r@ == crate::paths::sibling_spec(registry_path@, "map_suggestions.json"@),
    {
        crate::paths::sibling(registry_path, "map_suggestions.json")
    }

    /// A stored suggestion with its ID.
    pub fn to_public(id: u64, data: &StoredSuggestion) -> (r: MapSuggestion)
        ensures
            r == public_spec(id, *data),
    {
        MapSuggestion {
            id,
            source_kind: data.source_kind,
            workshop_id: data.workshop_id,
            l4d2center_name: copy_opt(&data.l4d2center_name),
            title: data.title.clone(),
            preview_url: copy_opt(&data.preview_url),
            download_link: copy_opt(&data.download_link),
            size_bytes: data.size_bytes,
            proposed_by: data.proposed_by.clone(),
            proposed_at: data.proposed_at,
        }
    }

    /// All suggestions with a numeric ID, newest first.
    pub fn list(&self) -> (r: Vec<MapSuggestion>)
        requires
            self.wf(),
        ensures
            r@ == self.list_spec(),
    {
        let ghost pairs = self.entries();
        let n = self.suggestions.len();
        let mut out: Vec<MapSuggestion> = Vec::new();
        let mut i: usize = 0;
        while i < n
            invariant
                i <= n,
                n == pairs.len(),
                pairs == self.entries(),
                out@ == newest_first(public_items(pairs.take(i as int))),
            decreases n - i,
        {
            let ghost pre = pairs.take(i as int);
            assert(pairs.take(i + 1).drop_last() =~= pre);
            assert(pairs.take(i + 1).last() == pairs[i as int]);
            let key = self.suggestions.key_at(i);
            if let Some(id) = str_parse_u64(key.as_str()) {
                let item = SuggestionsStore::to_public(id, self.suggestions.value_at(i));
                let mut pos: usize = out.len();
                while pos > 0 && timestamp_before(out[pos - 1].proposed_at, item.proposed_at)
                    invariant
                        pos <= out@.len(),
                        forall|j: int| pos <= j < out@.len() ==> ts_before(#[trigger] out@[j].proposed_at, item.proposed_at),
                    decreases pos,
                {
                    pos = pos - 1;
                }
                proof {
                    lemma_insert_newest_first(out@, item, pos as int);
                    assert(public_items(pairs.take(i + 1)) == public_items(pre).push(item));
                    assert(public_items(pairs.take(i + 1)).drop_last() =~= public_items(pre));
                }
                out.insert(pos, item);
            } else {
                assert(public_items(pairs.take(i + 1)) == public_items(pre));
            }
            i = i + 1;
        }
        assert(pairs.take(n as int) =~= pairs);
        out
    }

    /// The suggestion with an ID.
    pub fn get(&self, id: u64) -> (r: Option<MapSuggestion>)
        requires
            self.wf(),
        ensures
            match r {
                Some(s) => self.view().dom().contains(dec(id as nat)) && s == public_spec(id, self.view()[dec(id as nat)]),
                None => !self.view().dom().contains(dec(id as nat)),
            },
    {
        let key = u64_to_string(id);
        match self.suggestions.get(key.as_str()) {
            Some(d) => Some(SuggestionsStore::to_public(id, d)),
            None => None,
        }
    }

    /// The first listed suggestion that duplicates a new one, if any. A listed suggestion
    /// of the same workshop item is found; so is one whose catalog name equals the new
    /// name up to ASCII case, unless both carry workshop IDs; and anything found is one of
    /// these.
    pub fn find_duplicate(&self, workshop_id: Option<u64>, l4d2center_name: Option<&str>) -> (r: Option<MapSuggestion>)
        requires
            self.wf(),
        ensures
            duplicate_laws(
                self.list_spec(),
                workshop_id,
                match l4d2center_name {
                    Some(n) => Some(n@),
                    None => None,
                },
                r,
            ),
            ({
                let items = self.list_spec();
                let name = match l4d2center_name {
                    Some(n) => Some(n@),
                    None => None,
                };
                match first_where(|i: int| is_duplicate(items[i], workshop_id, name), items.len() as int) {
                    Some(i) => r == Some(items[i]),
                    None => r is None,
                }
            }),
    {
        let r = self.search_duplicate(workshop_id, l4d2center_name);
        proof {
            let name = match l4d2center_name {
                Some(n) => Some(n@),
                None => None,
            };
            lemma_duplicate_laws(self.list_spec(), workshop_id, name, r);
        }
        r
    }

    fn search_duplicate(&self, workshop_id: Option<u64>, l4d2center_name: Option<&str>) -> (r: Option<MapSuggestion>)
        requires
            self.wf(),
        ensures
            ({
                let items = self.list_spec();
                let name = match l4d2center_name {
                    Some(n) => Some(n@),
                    None => None,
                };
                match first_where(|i: int| is_duplicate(items[i], workshop_id, name), items.len() as int) {
                    Some(i) => r == Some(items[i]),
                    None => r is None,
                }
            }),
    {
        let items = self.list();
        let ghost name = match l4d2center_name {
            Some(n) => Some(n@),
            None => None,
        };
        let ghost p = |i: int| is_duplicate(items@[i], workshop_id, name);
        let mut i: usize = 0;
        while i < items.len()
            invariant
                i <= items@.len(),
                items@ == self.list_spec(),
                name == (match l4d2center_name {
                    Some(n) => Some(n@),
                    None => None::<Seq<char>>,
                }),
                p == (|i: int| is_duplicate(items@[i], workshop_id, name)),
                forall|j: int| 0 <= j < i ==> !#[trigger] p(j),
            decreases items@.len() - i,
        {
            let item = &items[i];
            let hit = if workshop_id.is_some() && item.workshop_id.is_some() {
                workshop_id.unwrap() == item.workshop_id.unwrap()
            } else if l4d2center_name.is_some() && item.l4d2center_name.is_some() {
                match (l4d2center_name, &item.l4d2center_name) {
                    (Some(want), Some(have)) => crate::text::str_eq_ignore_ascii_case(want, have.as_str()),
                    _ => false,
                }
            } else {
                false
            };
            assert(hit == p(i as int));
            if hit {
                proof {
                    lemma_first_where(p, items@.len() as int, i as int);
                    assert(p =~= (|j: int| is_duplicate(self.list_spec()[j], workshop_id, name)));
                }
                let mut items = items;
                let found = items.remove(i);
                return Some(found);
            }
            i = i + 1;
        }
        proof {
            lemma_first_where_none(p, items@.len() as int);
            assert(p =~= (|j: int| is_duplicate(self.list_spec()[j], workshop_id, name)));
        }
        None
    }

    /// Stores a new suggestion under the next ID (at least 1) and returns it with that ID.
    pub fn create(&mut self, suggestion: MapSuggestion) -> (r: MapSuggestion)
        requires
            old(self).wf(),
            old(self).next_id_spec() < u64::MAX,
        ensures
            final(self).wf(),
            r.id == (if old(self).next_id_spec() > 1 { old(self).next_id_spec() } else { 1 }),
            final(self).next_id_spec() == r.id + 1,
            r == (MapSuggestion { id: r.id, ..suggestion }),
            final(self).view() == old(self).view().insert(dec(r.id as nat), stored_spec(suggestion)),
            final(self).path_spec() == old(self).path_spec(),
            final(self).entries().len() > 0,
            final(self).entries().drop_last() == without_key(old(self).entries(), dec(r.id as nat)),
            final(self).entries().last().0@ == dec(r.id as nat),
            final(self).entries().last().1 == stored_spec(suggestion),
            final(self).list_spec() == insert_newest_first(
                newest_first(public_items(without_key(old(self).entries(), dec(r.id as nat)))),
                r,
            ),
            !old(self).view().dom().contains(dec(r.id as nat)) ==> final(self).list_spec()
                == insert_newest_first(old(self).list_spec(), r),
    {
        let id: u64 = if self.next_id > 1 { self.next_id } else { 1 };
        self.next_id = id + 1;
        let stored = StoredSuggestion {
            source_kind: suggestion.source_kind,
            workshop_id: suggestion.workshop_id,
            l4d2center_name: copy_opt(&suggestion.l4d2center_name),
            title: suggestion.title.clone(),
            preview_url: copy_opt(&suggestion.preview_url),
            download_link: copy_opt(&suggestion.download_link),
            size_bytes: suggestion.size_bytes,
            proposed_by: suggestion.proposed_by.clone(),
            proposed_at: suggestion.proposed_at,
        };
        let key = u64_to_string(id);
        let ghost before = self.entries();
        proof {
            self.suggestions.lemma_pairs();
        }
        self.suggestions.insert(key, stored);
        let r = MapSuggestion { id, ..suggestion };
        proof {
            let e = self.entries();
            crate::text::lemma_parse_dec_u64(id);
            assert(e.drop_last() =~= without_key(before, dec(id as nat)));
            assert(public_items(e) == public_items(e.drop_last()).push(public_spec(id, e.last().1)));
            assert(public_spec(id, stored_spec(suggestion)) == r);
            let pi = public_items(e);
            assert(pi.drop_last() =~= public_items(e.drop_last()));
            assert(pi.last() == r);
            assert(newest_first(pi) == insert_newest_first(newest_first(pi.drop_last()), pi.last()));
            if !has_key(before, dec(id as nat)) {
                crate::keyed::lemma_without_absent(before, dec(id as nat));
            }
        }
        r
    }

    /// Removes the suggestion with an ID; whether there was one.
    pub fn delete(&mut self, id: u64) -> (removed: bool)
        requires
            old(self).wf(),
        ensures
            final(self).wf(),
            removed == old(self).view().dom().contains(dec(id as nat)),
            final(self).view() == old(self).view().remove(dec(id as nat)),
            final(self).next_id_spec() == old(self).next_id_spec(),
            final(self).path_spec() == old(self).path_spec(),
            final(self).entries() == without_key(old(self).entries(), dec(id as nat)),
            final(self).list_spec() == newest_first(public_items(without_key(old(self).entries(), dec(id as nat)))),
    {
        let key = u64_to_string(id);
        self.suggestions.remove(key.as_str()).is_some()
    }
}

/// A suggestion read back after it was created is the one created, under its new ID.
pub proof fn lemma_created_suggestion_readable(
    before: Map<Seq<char>, StoredSuggestion>,
    s: MapSuggestion,
    id: u64,
)
    ensures
        before.insert(dec(id as nat), stored_spec(s)).dom().contains(dec(id as nat)),
        public_spec(id, before.insert(dec(id as nat), stored_spec(s))[dec(id as nat)])
            == (MapSuggestion { id, ..s }),
{
}

/// IDs only grow: each created suggestion's ID exceeds every ID handed out before, and a
/// deletion leaves the next ID as it was.
pub proof fn lemma_created_ids_increase(next_id: u64)
    requires
        next_id < u64::MAX,
    ensures
        ({
            let id = if next_id > 1 { next_id } else { 1 };
            &&& id >= next_id
            &&& id + 1 > id
        }),
{
}

/// The ID `create` hands out when the store's next ID is `next_id`.
pub open spec fn created_id(next_id: u64) -> int {
    if next_id > 1 {
        next_id as int
    } else {
        1
    }
}

/// IDs are never reused, even after deletions: once `create` has handed out `first`,
/// the next ID is past it; creating raises the next ID and deleting leaves it, so any
/// later `create` hands out an ID above `first`.
pub proof fn lemma_ids_never_reused(
    before: SuggestionsStore,
    after_create: SuggestionsStore,
    later: SuggestionsStore,
    first: u64,
)
    requires
        before.next_id_spec() < u64::MAX,
        first == created_id(before.next_id_spec()),
        after_create.next_id_spec() == first + 1,
        later.next_id_spec() >= after_create.next_id_spec(),
    ensures
        created_id(later.next_id_spec()) > first,
{
}

/// The number of creations among the first `n` operations (`None` is a creation,
/// `Some(id)` a deletion of `id`).
pub open spec fn creations(ops: Seq<Option<u64>>, n: int) -> nat
    decreases n,
{
    if n <= 0 {
        0
    } else {
        creations(ops, n - 1) + if ops[n - 1] is None {
            1nat
        } else {
            0nat
        }
    }
}

/// Whether `states` is a run of `ops` from a store as `new` makes it, each step as the
/// contracts of `create` (`ids[i]` is the ID it returned) and `delete` state it.
pub open spec fn store_run(states: Seq<SuggestionsStore>, ops: Seq<Option<u64>>, ids: Seq<u64>) -> bool {
    &&& states.len() == ops.len() + 1
    &&& ids.len() == ops.len()
    &&& states[0].next_id_spec() == 0
    &&& forall|i: int| 0 <= i < ops.len() ==> match #[trigger] ops[i] {
        None => {
            &&& states[i].next_id_spec() < u64::MAX
            &&& ids[i] == created_id(states[i].next_id_spec())
            &&& states[i + 1].next_id_spec() == ids[i] + 1
        },
        Some(_) => states[i + 1].next_id_spec() == states[i].next_id_spec(),
    }
}

proof fn lemma_run_counter(states: Seq<SuggestionsStore>, ops: Seq<Option<u64>>, ids: Seq<u64>, n: int)
    requires
        store_run(states, ops, ids),
        0 <= n <= ops.len(),
    ensures
        creations(ops, n) == 0 ==> states[n].next_id_spec() <= 1,
        creations(ops, n) > 0 ==> states[n].next_id_spec() == creations(ops, n) + 1,
    decreases n,
{
    if n > 0 {
        lemma_run_counter(states, ops, ids, n - 1);
        let o = ops[n - 1];
        assert(match o {
            None => {
                &&& states[n - 1].next_id_spec() < u64::MAX
                &&& ids[n - 1] == created_id(states[n - 1].next_id_spec())
                &&& states[n].next_id_spec() == ids[n - 1] + 1
            },
            Some(_) => states[n].next_id_spec() == states[n - 1].next_id_spec(),
        });
    }
}

proof fn lemma_creations_monotone(ops: Seq<Option<u64>>, i: int, j: int)
    requires
        0 <= i <= j,
    ensures
        creations(ops, i) <= creations(ops, j),
    decreases j,
{
    if j > i {
        lemma_creations_monotone(ops, i, j - 1);
    }
}

/// Suggestion IDs over any run of creations and deletions from a new store: the k-th
/// creation hands out ID k, deletions in between notwithstanding, so no ID is ever handed
/// out twice.
pub proof fn lemma_create_delete_ids(states: Seq<SuggestionsStore>, ops: Seq<Option<u64>>, ids: Seq<u64>)
    requires
        store_run(states, ops, ids),
    ensures
        forall|i: int| 0 <= i < ops.len() && #[trigger] ops[i] is None ==> ids[i] == creations(ops, i) + 1,
        forall|i: int, j: int|
            0 <= i < j < ops.len() && #[trigger] ops[i] is None && #[trigger] ops[j] is None ==> ids[i] < ids[j],
{
    assert forall|i: int| 0 <= i < ops.len() && #[trigger] ops[i] is None implies ids[i] == creations(ops, i) + 1 by {
        lemma_run_counter(states, ops, ids, i);
    }
    assert forall|i: int, j: int|
        0 <= i < j < ops.len() && #[trigger] ops[i] is None && #[trigger] ops[j] is None implies ids[i] < ids[j] by {
        lemma_run_counter(states, ops, ids, i);
        lemma_run_counter(states, ops, ids, j);
        lemma_creations_monotone(ops, i + 1, j);
        assert(creations(ops, i + 1) == creations(ops, i) + 1);
    }
}

/// Inserting into the newest-first list adds exactly that suggestion: one more item, the
/// new one among them, and every earlier item still there.
pub proof fn lemma_insert_newest_first_adds(sorted: Seq<MapSuggestion>, x: MapSuggestion)
    ensures
        insert_newest_first(sorted, x).len() == sorted.len() + 1,
        insert_newest_first(sorted, x).contains(x),
        forall|y: MapSuggestion| sorted.contains(y) ==> #[trigger] insert_newest_first(sorted, x).contains(y),
    decreases sorted.len(),
{
    let r = insert_newest_first(sorted, x);
    if sorted.len() == 0 {
        assert(r[0] == x);
    } else if ts_before(sorted.last().proposed_at, x.proposed_at) {
        let d = sorted.drop_last();
        lemma_insert_newest_first_adds(d, x);
        let rd = insert_newest_first(d, x);
        assert(r == rd.push(sorted.last()));
        let j = choose|j: int| 0 <= j < rd.len() && rd[j] == x;
        assert(r[j] == x);
        assert forall|y: MapSuggestion| sorted.contains(y) implies #[trigger] r.contains(y) by {
            let i = choose|i: int| 0 <= i < sorted.len() && sorted[i] == y;
            if i == sorted.len() - 1 {
                assert(r[r.len() - 1] == y);
            } else {
                assert(d[i] == y);
                assert(d.contains(y));
                assert(insert_newest_first(d, x).contains(y));
                let k = choose|k: int| 0 <= k < rd.len() && rd[k] == y;
                assert(r[k] == y);
            }
        }
    } else {
        assert(r == sorted.push(x));
        assert(r[sorted.len() as int] == x);
        assert forall|y: MapSuggestion| sorted.contains(y) implies #[trigger] r.contains(y) by {
            let i = choose|i: int| 0 <= i < sorted.len() && sorted[i] == y;
            assert(r[i] == y);
        }
    }
}

/// The newest-first list holds as many suggestions as it was made from.
pub proof fn lemma_newest_first_len(items: Seq<MapSuggestion>)
    ensures
        newest_first(items).len() == items.len(),
    decreases items.len(),
{
    if items.len() > 0 {
        lemma_newest_first_len(items.drop_last());
        lemma_insert_newest_first_adds(newest_first(items.drop_last()), items.last());
    }
}

/// The newest-first list is ordered: no suggestion is listed before a newer one.
pub proof fn lemma_newest_first_sorted(items: Seq<MapSuggestion>)
    ensures
        forall|i: int, j: int|
            0 <= i < j < newest_first(items).len() ==> !ts_before(
                #[trigger] newest_first(items)[i].proposed_at,
                #[trigger] newest_first(items)[j].proposed_at,
            ),
    decreases items.len(),
{
    if items.len() > 0 {
        lemma_newest_first_sorted(items.drop_last());
        lemma_insert_keeps_sorted(newest_first(items.drop_last()), items.last());
    }
}

proof fn lemma_insert_keeps_sorted(s: Seq<MapSuggestion>, x: MapSuggestion)
    requires
        forall|i: int, j: int| 0 <= i < j < s.len() ==> !ts_before(#[trigger] s[i].proposed_at, #[trigger] s[j].proposed_at),
    ensures
        forall|i: int, j: int|
            0 <= i < j < insert_newest_first(s, x).len() ==> !ts_before(
                #[trigger] insert_newest_first(s, x)[i].proposed_at,
                #[trigger] insert_newest_first(s, x)[j].proposed_at,
            ),
    decreases s.len(),
{
    let r = insert_newest_first(s, x);
    if s.len() == 0 {
    } else if ts_before(s.last().proposed_at, x.proposed_at) {
        let d = s.drop_last();
        assert forall|i: int, j: int| 0 <= i < j < d.len() implies !ts_before(#[trigger] d[i].proposed_at, #[trigger] d[j].proposed_at) by {
            assert(d[i] == s[i] && d[j] == s[j]);
        }
        lemma_insert_keeps_sorted(d, x);
        lemma_insert_newest_first_adds(d, x);
        let rd = insert_newest_first(d, x);
        assert(r == rd.push(s.last()));
        // every item of rd is x or an item of d, and none is older than s.last()
        assert forall|k: int| 0 <= k < rd.len() implies !ts_before(#[trigger] rd[k].proposed_at, s.last().proposed_at) by {
            lemma_insert_members(d, x, k);
            if rd[k] != x {
                let i = choose|i: int| 0 <= i < d.len() && d[i] == rd[k];
                assert(s[i] == d[i]);
                assert(!ts_before(s[i].proposed_at, s[s.len() - 1].proposed_at));
            }
        }
        assert forall|i: int, j: int| 0 <= i < j < r.len() implies !ts_before(#[trigger] r[i].proposed_at, #[trigger] r[j].proposed_at) by {
            if j < rd.len() {
                assert(r[i] == rd[i] && r[j] == rd[j]);
            } else {
                assert(r[i] == rd[i]);
                assert(r[j] == s.last());
            }
        }
    } else {
        assert(r == s.push(x));
        assert forall|i: int, j: int| 0 <= i < j < r.len() implies !ts_before(#[trigger] r[i].proposed_at, #[trigger] r[j].proposed_at) by {
            if j < s.len() {
                assert(r[i] == s[i] && r[j] == s[j]);
            } else {
                assert(r[j] == x);
                assert(r[i] == s[i]);
                assert(!ts_before(s[s.len() - 1].proposed_at, x.proposed_at));
                if i < s.len() - 1 {
                    assert(!ts_before(s[i].proposed_at, s[s.len() - 1].proposed_at));
                }
            }
        }
    }
}

proof fn lemma_insert_members(s: Seq<MapSuggestion>, x: MapSuggestion, k: int)
    requires
        0 <= k < insert_newest_first(s, x).len(),
    ensures
        insert_newest_first(s, x)[k] == x || s.contains(insert_newest_first(s, x)[k]),
    decreases s.len(),
{
    lemma_insert_newest_first_adds(s, x);
    let r = insert_newest_first(s, x);
    if s.len() == 0 {
    } else if ts_before(s.last().proposed_at, x.proposed_at) {
        let d = s.drop_last();
        let rd = insert_newest_first(d, x);
        lemma_insert_newest_first_adds(d, x);
        assert(r == rd.push(s.last()));
        if k < rd.len() {
            lemma_insert_members(d, x, k);
            assert(r[k] == rd[k]);
            if rd[k] != x {
                let i = choose|i: int| 0 <= i < d.len() && d[i] == rd[k];
                assert(s[i] == d[i]);
            }
        } else {
            assert(r[k] == s[s.len() - 1]);
        }
    } else {
        assert(r == s.push(x));
        if k < s.len() {
            assert(r[k] == s[k]);
        }
    }
}

/// A suggestion that duplicates a listed one is found: when the list holds `r` and a new
/// suggestion names the same workshop item, the search stops at some listed suggestion.
pub proof fn lemma_listed_workshop_duplicate_found(
    items: Seq<MapSuggestion>,
    r: MapSuggestion,
    name: Option<Seq<char>>,
)
    requires
        items.contains(r),
        r.workshop_id is Some,
    ensures
        first_where(|i: int| is_duplicate(items[i], r.workshop_id, name), items.len() as int) is Some,
{
    let p = |i: int| is_duplicate(items[i], r.workshop_id, name);
    let k = choose|k: int| 0 <= k < items.len() && items[k] == r;
    assert(p(k));
    lemma_first_hit_exists(p, items.len() as int, k);
}

proof fn lemma_first_hit_exists(p: spec_fn(int) -> bool, n: int, k: int)
    requires
        0 <= k < n,
        p(k),
    ensures
        first_where(p, n) is Some,
    decreases k,
{
    if exists|j: int| 0 <= j < k && #[trigger] p(j) {
        let j = choose|j: int| 0 <= j < k && #[trigger] p(j);
        lemma_first_hit_exists(p, n, j);
    } else {
        assert(crate::maps_bridge::l4d2center_index::is_first(p, n, k));
    }
}

/// Read after write: after `create` returns `r`, the list holds `r`, one item more than
/// the list of the other stored suggestions, and a later suggestion of the same workshop
/// item is found as a duplicate.
pub proof fn lemma_created_suggestion_listed(before: Seq<(String, StoredSuggestion)>, r: MapSuggestion, name: Option<Seq<char>>)
    ensures
        ({
            let rest = newest_first(public_items(without_key(before, dec(r.id as nat))));
            let after = insert_newest_first(rest, r);
            &&& after.contains(r)
            &&& after.len() == rest.len() + 1
            &&& r.workshop_id is Some ==> first_where(
                |i: int| is_duplicate(after[i], r.workshop_id, name),
                after.len() as int,
            ) is Some
        }),
{
    let rest = newest_first(public_items(without_key(before, dec(r.id as nat))));
    lemma_insert_newest_first_adds(rest, r);
    let after = insert_newest_first(rest, r);
    if r.workshop_id is Some {
        lemma_listed_workshop_duplicate_found(after, r, name);
    }
}

/// The round trip on a new store: after the first `create`, the list is exactly the
/// created suggestion; after deleting it, the list is empty.
pub proof fn lemma_create_delete_roundtrip(
    created: Seq<(String, StoredSuggestion)>,
    deleted: Seq<(String, StoredSuggestion)>,
    r: MapSuggestion,
)
    requires
        created.len() > 0,
        created.drop_last() == without_key(Seq::<(String, StoredSuggestion)>::empty(), dec(r.id as nat)),
        created.last().0@ == dec(r.id as nat),
        public_spec(r.id, created.last().1) == r,
        deleted == without_key(created, dec(r.id as nat)),
    ensures
        newest_first(public_items(created)) == seq![r],
        newest_first(public_items(deleted)) == Seq::<MapSuggestion>::empty(),
{
    let k = dec(r.id as nat);
    let none = Seq::<(String, StoredSuggestion)>::empty();
    assert(without_key(none, k) == none);
    assert(created =~= seq![created.last()]);
    crate::text::lemma_parse_dec_u64(r.id);
    assert(created.drop_last() =~= none);
    assert(public_items(none) =~= Seq::<MapSuggestion>::empty());
    assert(public_items(created) == public_items(none).push(r));
    assert(public_items(created) =~= seq![r]);
    assert(seq![r].drop_last() =~= Seq::<MapSuggestion>::empty());
    assert(newest_first(Seq::<MapSuggestion>::empty()) =~= Seq::<MapSuggestion>::empty());
    assert(newest_first(seq![r]) == insert_newest_first(Seq::<MapSuggestion>::empty(), r));
    assert(deleted == without_key(none, k));
}

/// Whether a listed suggestion is the same map as a new one, read from the suggestions'
/// fields: the same workshop item, or (when not both carry workshop IDs) the same catalog
/// name up to ASCII case.
pub open spec fn same_map(item: MapSuggestion, workshop_id: Option<u64>, name: Option<Seq<char>>) -> bool {
    ||| (workshop_id is Some && item.workshop_id == workshop_id)
    ||| (!(workshop_id is Some && item.workshop_id is Some) && name is Some && item.l4d2center_name is Some
        && crate::text::ascii_lower(name->0) == crate::text::ascii_lower(item.l4d2center_name->0@))
}

/// What a duplicate search must satisfy: a listed suggestion of the same map is found,
/// and what is found is a listed suggestion of the same map.
pub open spec fn duplicate_laws(
    items: Seq<MapSuggestion>,
    workshop_id: Option<u64>,
    name: Option<Seq<char>>,
    r: Option<MapSuggestion>,
) -> bool {
    &&& (exists|i: int| 0 <= i < items.len() && same_map(#[trigger] items[i], workshop_id, name)) ==> r is Some
    &&& r matches Some(x) ==> items.contains(x) && same_map(x, workshop_id, name)
}

/// The search the specification describes satisfies the laws.
pub proof fn lemma_duplicate_laws(
    items: Seq<MapSuggestion>,
    workshop_id: Option<u64>,
    name: Option<Seq<char>>,
    r: Option<MapSuggestion>,
)
    requires
        match first_where(|i: int| is_duplicate(items[i], workshop_id, name), items.len() as int) {
            Some(i) => r == Some(items[i]),
            None => r is None,
        },
    ensures
        duplicate_laws(items, workshop_id, name, r),
{
    let p = |i: int| is_duplicate(items[i], workshop_id, name);
    assert forall|i: int| 0 <= i < items.len() implies (#[trigger] p(i) <==> same_map(items[i], workshop_id, name)) by {}
    if exists|i: int| 0 <= i < items.len() && same_map(#[trigger] items[i], workshop_id, name) {
        let i = choose|i: int| 0 <= i < items.len() && same_map(#[trigger] items[i], workshop_id, name);
        assert(p(i));
        lemma_first_hit_exists(p, items.len() as int, i);
    }
    if r is Some {
        let f = first_where(p, items.len() as int)->0;
        assert(crate::maps_bridge::l4d2center_index::is_first(p, items.len() as int, f));
        assert(items[f] == r->0);
        assert(p(f));
    }
}

} // verus!
