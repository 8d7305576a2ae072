//! The cache of Steam Workshop preview images and the Steam Web API requests that fill it.
use vstd::prelude::*;
use crate::keyed::KeyedTable;
use crate::maps_bridge::models::{DaemonMapEntry, DaemonSourceKind, Timestamp};
use crate::text::{
    chars_of, dec, owned, parse_u64_spec, str_parse_u64, string_from, trim, trim_chars,
    u64_to_string,
};

verus! {

/// The Steam Web API method that describes published workshop files.
pub const STEAM_PUBLISHED_FILE_DETAILS_URL: &'static str =
    "https://api.steampowered.com/ISteamRemoteStorage/GetPublishedFileDetails/v1/";

/// The most items one Steam Web API request may ask about.
pub const STEAM_BATCH_LIMIT: usize = 100;

/// A cached preview: the image URL, the workshop update time it belongs to, and when it
/// was fetched.
pub struct PreviewCacheEntry {
    pub preview_url: String,
    pub workshop_updated_at: Option<Timestamp>,
    pub fetched_at: Timestamp,
}

fn copy_entry(e: &PreviewCacheEntry) -> (r: PreviewCacheEntry)
    ensures
        r == *e,
{
    PreviewCacheEntry {
        preview_url: e.preview_url.clone(),
        workshop_updated_at: e.workshop_updated_at,
        fetched_at: e.fetched_at,
    }
}

/// The plain values of a cached preview.
pub open spec fn preview_view(e: PreviewCacheEntry) -> (Seq<char>, Option<Timestamp>, Timestamp) {
    (e.preview_url@, e.workshop_updated_at, e.fetched_at)
}

/// Preview entries keyed by workshop ID in decimal.
pub struct WorkshopPreviewCache {
    entries: KeyedTable<PreviewCacheEntry>,
}

/// Whether a cache key names one of the active workshop IDs.
pub open spec fn key_is_active(k: Seq<char>, active_ids: Seq<u64>) -> bool {
    match parse_u64_spec(k) {
        Some(id) => active_ids.contains(id),
        None => false,
    }
}

impl WorkshopPreviewCache {
    /// The cache as a map from key to entry.
    pub closed spec fn view(&self) -> Map<Seq<char>, (Seq<char>, Option<Timestamp>, Timestamp)> {
        self.entries.view().map_values(|e: PreviewCacheEntry| preview_view(e))
    }

    /// The cache's invariant.
    pub closed spec fn wf(&self) -> bool {
        self.entries.wf()
    }

    /// The number of entries, as the table holds them.
    pub closed spec fn size(&self) -> nat {
        self.entries.pairs().len()
    }

    /// An empty cache.
    pub fn new() -> (c: Self)
        ensures
            c.wf(),
            c.view() == Map::<Seq<char>, (Seq<char>, Option<Timestamp>, Timestamp)>::empty(),
    {
        let c = WorkshopPreviewCache { entries: KeyedTable::new() };
        assert(c.view() =~= Map::<Seq<char>, (Seq<char>, Option<Timestamp>, Timestamp)>::empty());
        c
    }

    /// The entry of a workshop item.
    pub fn get(&self, workshop_id: u64) -> (r: Option<&PreviewCacheEntry>)
        requires
            self.wf(),
        ensures
            match r {
                Some(e) => self.view().dom().contains(dec(workshop_id as nat)) && self.view()[dec(
                    workshop_id as nat,
                )] == preview_view(*e),
                None => !self.view().dom().contains(dec(workshop_id as nat)),
            },
    {
        let key = u64_to_string(workshop_id);
        self.entries.get(key.as_str())
    }

    /// The cached preview URL of a workshop item, unless it is missing or empty.
    pub fn preview_url(&self, workshop_id: u64) -> (r: Option<&str>)
        requires
            self.wf(),
        ensures
            match r {
                Some(u) => self.view().dom().contains(dec(workshop_id as nat)) && self.view()[dec(
                    workshop_id as nat,
                )].0 == u@ && u@.len() > 0,
                None => !self.view().dom().contains(dec(workshop_id as nat)) || self.view()[dec(
                    workshop_id as nat,
                )].0.len() == 0,
            },
    {
        match self.get(workshop_id) {
            Some(e) => {
                if e.preview_url.as_str().is_empty() {
                    None
                } else {
                    Some(e.preview_url.as_str())
                }
            },
            None => None,
        }
    }

    /// The number of cached entries.
    pub fn len(&self) -> (n: usize)
        requires
            self.wf(),
        ensures
            n == self.view().dom().len(),
    {
        assert(self.view().dom() =~= self.entries.view().dom());
        self.entries.len()
    }

    /// Stores the entry of a workshop item.
    pub fn insert(&mut self, workshop_id: u64, entry: PreviewCacheEntry)
        requires
            old(self).wf(),
        ensures
            final(self).wf(),
            final(self).view() == old(self).view().insert(dec(workshop_id as nat), preview_view(entry)),
    {
        let key = u64_to_string(workshop_id);
        let ghost pv = preview_view(entry);
        self.entries.insert(key, entry);
        assert(self.view() =~= old(self).view().insert(dec(workshop_id as nat), pv));
    }

    /// Stores an entry under a key as the cache file has it.
    pub fn insert_key(&mut self, key: String, entry: PreviewCacheEntry)
        requires
            old(self).wf(),
        ensures
            final(self).wf(),
            final(self).view() == old(self).view().insert(key@, preview_view(entry)),
    {
        let ghost k = key@;
        let ghost pv = preview_view(entry);
        self.entries.insert(key, entry);
        assert(self.view() =~= old(self).view().insert(k, pv));
    }

    /// The key and entry at a position, for writing the cache out.
    pub fn entry_at(&self, i: usize) -> (r: (&String, &PreviewCacheEntry))
        requires
            self.wf(),
            i < self.size(),
        ensures
            self.view().dom().contains(r.0@),
            self.view()[r.0@] == preview_view(*r.1),
    {
        proof {
            self.entries.lemma_pairs();
        }
        (self.entries.key_at(i), self.entries.value_at(i))
    }

    /// The number of positions `entry_at` accepts.
    pub fn entry_count(&self) -> (n: usize)
        requires
            self.wf(),
        ensures
            n == self.size(),
    {
        self.entries.len()
    }

    /// Keeps only the entries whose key is one of the active workshop IDs in decimal.
    pub fn retain_workshop_ids(&mut self, active_ids: &[u64])
        requires
            old(self).wf(),
        ensures
            final(self).wf(),
            final(self).view() == Map::new(
                |k: Seq<char>| old(self).view().dom().contains(k) && key_is_active(k, active_ids@),
                |k: Seq<char>| old(self).view()[k],
            ),
    {
        proof {
            self.entries.lemma_pairs();
        }
        let ghost pairs = self.entries.pairs();
        let ghost m = self.entries.view();
        let n = self.entries.len();
        let mut kept: KeyedTable<PreviewCacheEntry> = KeyedTable::new();
        let mut i: usize = 0;
        while i < n
            invariant
                i <= n,
                n == pairs.len(),
                self.entries.pairs() == pairs,
                self.entries.view() == m,
                kept.wf(),
                forall|j: int| 0 <= j < n ==> #[trigger] m.dom().contains(pairs[j].0@) && m[pairs[j].0@] == pairs[j].1,
                forall|k: Seq<char>| m.dom().contains(k) ==> exists|j: int| 0 <= j < n && #[trigger] pairs[j].0@ == k,
                kept.view() == Map::new(
                    |k: Seq<char>|
                        (exists|j: int| 0 <= j < i && #[trigger] pairs[j].0@ == k) && key_is_active(k, active_ids@),
                    |k: Seq<char>| m[k],
                ),
            decreases n - i,
        {
            let key = self.entries.key_at(i);
            let keep = match str_parse_u64(key.as_str()) {
                Some(id) => crate::config::contains_u64(active_ids, id),
                None => false,
            };
            let ghost before = kept.view();
            if keep {
                let e = copy_entry(self.entries.value_at(i));
                kept.insert(key.clone(), e);
            }
            proof {
                let target = Map::new(
                    |k: Seq<char>|
                        (exists|j: int| 0 <= j < i + 1 && #[trigger] pairs[j].0@ == k) && key_is_active(k, active_ids@),
                    |k: Seq<char>| m[k],
                );
                assert forall|k: Seq<char>| #[trigger] kept.view().dom().contains(k) <==> target.dom().contains(k) by {
                    if kept.view().dom().contains(k) && k != pairs[i as int].0@ {
                        let j = choose|j: int| 0 <= j < i && #[trigger] pairs[j].0@ == k;
                        assert(0 <= j < i + 1 && pairs[j].0@ == k);
                    }
                    if target.dom().contains(k) && k != pairs[i as int].0@ {
                        let j = choose|j: int| 0 <= j < i + 1 && #[trigger] pairs[j].0@ == k;
                        assert(j != i);
                        assert(before.dom().contains(k));
                    }
                    if k == pairs[i as int].0@ {
                        assert(0 <= i < i + 1 && pairs[i as int].0@ == k);
                    }
                }
                assert forall|k: Seq<char>| #[trigger] kept.view().dom().contains(k) implies kept.view()[k]
                    == target[k] by {
                    assert(m.dom().contains(pairs[i as int].0@));
                    if k != pairs[i as int].0@ || !keep {
                        assert(before.dom().contains(k));
                    }
                }
                assert(kept.view() =~= target);
            }
            i = i + 1;
        }
        proof {
            let target = Map::new(
                |k: Seq<char>| m.dom().contains(k) && key_is_active(k, active_ids@),
                |k: Seq<char>| m[k],
            );
            assert forall|k: Seq<char>| #[trigger] kept.view().dom().contains(k) <==> target.dom().contains(k) by {
                if kept.view().dom().contains(k) {
                    let j = choose|j: int| 0 <= j < n && #[trigger] pairs[j].0@ == k;
                    assert(m.dom().contains(pairs[j].0@));
                }
            }
            assert(kept.view() =~= target);
            assert(kept.view().map_values(|e: PreviewCacheEntry| preview_view(e)) =~= Map::new(
                |k: Seq<char>| old(self).view().dom().contains(k) && key_is_active(k, active_ids@),
                |k: Seq<char>| old(self).view()[k],
            ));
        }
        self.entries = kept;
    }
}

/// Where the preview cache lives: beside the registry file.
pub fn preview_cache_path_from_registry(registry_path: &str) -> (r: String)
    ensures
        r@ == crate::paths::sibling_spec(registry_path@, "workshop_previews.json"@),
{
    crate::paths::sibling(registry_path, "workshop_previews.json")
}

/// One item of a `GetPublishedFileDetails` answer.
pub struct PublishedFileDetails {
    pub publishedfileid: String,
    pub result: u32,
    pub preview_url: Option<String>,
}

/// The preview an item contributes: found (`result == 1`), with a non-blank URL, and a
/// numeric ID; the URL is trimmed.
pub open spec fn item_preview(item: PublishedFileDetails) -> Option<(u64, Seq<char>)> {
    if item.result != 1 {
        None
    } else {
        match item.preview_url {
            None => None,
            Some(u) => if trim(u@).len() == 0 {
                None
            } else {
                match parse_u64_spec(item.publishedfileid@) {
                    Some(id) => Some((id, trim(u@))),
                    None => None,
                }
            },
        }
    }
}

/// The previews of all items, in answer order.
pub open spec fn preview_pairs(items: Seq<PublishedFileDetails>) -> Seq<(u64, Seq<char>)>
    decreases items.len(),
{
    if items.len() == 0 {
        seq![]
    } else {
        match item_preview(items.last()) {
            Some(p) => preview_pairs(items.drop_last()).push(p),
            None => preview_pairs(items.drop_last()),
        }
    }
}

/// The plain values of preview pairs.
pub open spec fn pairs_view(v: Seq<(u64, String)>) -> Seq<(u64, Seq<char>)> {
    v.map_values(|p: (u64, String)| (p.0, p.1@))
}

/// The preview URLs of a `GetPublishedFileDetails` answer, in answer order; a later item
/// with the same ID overrides an earlier one for a reader.
pub fn parse_preview_urls_from_response(items: &[PublishedFileDetails]) -> (r: Vec<(u64, String)>)
    ensures
        pairs_view(r@) == preview_pairs(items@),
{
    let mut out: Vec<(u64, String)> = Vec::new();
    let mut i: usize = 0;
    while i < items.len()
        invariant
            i <= items@.len(),
            pairs_view(out@) == preview_pairs(items@.take(i as int)),
        decreases items@.len() - i,
    {
        let ghost pre = items@.take(i as int);
        assert(items@.take(i + 1).drop_last() =~= pre);
        assert(items@.take(i + 1).last() == items@[i as int]);
        let item = &items[i];
        if item.result == 1 {
            if let Some(u) = &item.preview_url {
                let t = trim_chars(chars_of(u.as_str()).as_slice());
                if t.len() > 0 {
                    if let Some(id) = str_parse_u64(item.publishedfileid.as_str()) {
                        let url = string_from(t.as_slice());
                        let ghost before = out@;
                        out.push((id, url));
                        proof {
                            assert forall|j: int| 0 <= j < before.len() implies #[trigger] pairs_view(
                                out@,
                            )[j] == pairs_view(before)[j] by {
                                assert(out@[j] == before[j]);
                            }
                            assert(pairs_view(out@) =~= pairs_view(before).push((id, url@)));
                        }
                    }
                }
            }
        }
        i = i + 1;
    }
    assert(items@.take(items@.len() as int) =~= items@);
    out
}

/// The `publishedfileids[i]=id` parameters for the first `n` IDs.
pub open spec fn id_params(ids: Seq<u64>, n: nat) -> Seq<char>
    decreases n,
{
    if n == 0 {
        seq![]
    } else {
        id_params(ids, (n - 1) as nat) + "&publishedfileids["@ + dec((n - 1) as nat) + "]="@ + dec(
            ids[n - 1] as nat,
        )
    }
}

/// The `key` parameter: present only for a key that is not blank, trimmed.
pub open spec fn key_param(api_key: Option<Seq<char>>) -> Seq<char> {
    match api_key {
        Some(k) => if trim(k).len() > 0 {
            "&key="@ + trim(k)
        } else {
            seq![]
        },
        None => seq![],
    }
}

/// The form body of a `GetPublishedFileDetails` request.
pub open spec fn steam_request_body(ids: Seq<u64>, api_key: Option<Seq<char>>) -> Seq<char> {
    "itemcount="@ + dec(ids.len()) + id_params(ids, ids.len()) + key_param(api_key)
}

/// The form body asking Steam about workshop items, with the API key when one is set.
pub fn build_steam_request_body(ids: &[u64], api_key: Option<&str>) -> (r: String)
    ensures
        r@ == steam_request_body(
            ids@,
            match api_key {
                Some(k) => Some(k@),
                None => None,
            },
        ),
{
    let count = u64_to_string(ids.len() as u64);
    let mut body = crate::text::concat("itemcount=", count.as_str());
    let mut i: usize = 0;
    while i < ids.len()
        invariant
            i <= ids@.len(),
            body@ == "itemcount="@ + dec(ids@.len()) + id_params(ids@, i as nat),
        decreases ids@.len() - i,
    {
        let index = u64_to_string(i as u64);
        let id = u64_to_string(ids[i]);
        body.append("&publishedfileids[");
        body.append(index.as_str());
        body.append("]=");
        body.append(id.as_str());
        i = i + 1;
    }
    if let Some(k) = api_key {
        let t = crate::text::trim_str(k);
        if !t.as_str().is_empty() {
            body.append("&key=");
            body.append(t.as_str());
        }
    }
    body
}

/// The request bodies for a list of IDs, one per batch of at most `STEAM_BATCH_LIMIT`.
pub fn steam_request_bodies(ids: &[u64], api_key: Option<&str>) -> (r: Vec<String>)
    ensures
        r@.len() == (ids@.len() + 99) / 100,
        forall|b: int|
            0 <= b < r@.len() ==> #[trigger] r@[b]@ == steam_request_body(
                ids@.subrange(b * 100, if (b + 1) * 100 <= ids@.len() {
                    (b + 1) * 100
                } else {
                    ids@.len() as int
                }),
                match api_key {
                    Some(k) => Some(k@),
                    None => None,
                },
            ),
{
    let mut out: Vec<String> = Vec::new();
    let mut start: usize = 0;
    let n = ids.len();
    while start < n
        invariant
            start <= n,
            n == ids@.len(),
            start < n ==> start == out@.len() * 100,
            start == n ==> out@.len() == (n + 99) / 100,
            forall|b: int|
                0 <= b < out@.len() ==> #[trigger] out@[b]@ == steam_request_body(
                    ids@.subrange(b * 100, if (b + 1) * 100 <= ids@.len() {
                        (b + 1) * 100
                    } else {
                        ids@.len() as int
                    }),
                    match api_key {
                        Some(k) => Some(k@),
                        None => None,
                    },
                ),
        decreases n - start,
    {
        let end: usize = if n - start > STEAM_BATCH_LIMIT { start + STEAM_BATCH_LIMIT } else { n };
        let chunk = &ids[start..end];
        let body = build_steam_request_body(chunk, api_key);
        let ghost b = out@.len() as int;
        proof {
            assert(b * 100 == start);
            assert(chunk@ == ids@.subrange(start as int, end as int));
        }
        out.push(body);
        proof {
            if end == n {
                assert((n + 99) / 100 == b + 1) by (nonlinear_arith)
                    requires
                        b * 100 < n,
                        n <= b * 100 + 100,
                ;
            }
        }
        start = end;
    }
    out
}

/// A workshop map of the registry and the update time Steam last reported for it.
pub struct WorkshopRegistryInfo {
    pub workshop_id: u64,
    pub workshop_updated_at: Option<Timestamp>,
}

/// The workshop items of the registry: workshop maps that carry an ID, in registry order.
pub open spec fn workshop_infos(maps: Seq<DaemonMapEntry>) -> Seq<(u64, Option<Timestamp>)>
    decreases maps.len(),
{
    if maps.len() == 0 {
        seq![]
    } else {
        let rest = workshop_infos(maps.drop_last());
        let m = maps.last();
        if m.source_kind == DaemonSourceKind::Workshop && m.workshop_id is Some {
            rest.push((m.workshop_id->0, m.workshop_updated_at))
        } else {
            rest
        }
    }
}

/// The plain values of registry infos.
pub open spec fn infos_view(v: Seq<WorkshopRegistryInfo>) -> Seq<(u64, Option<Timestamp>)> {
    v.map_values(|i: WorkshopRegistryInfo| (i.workshop_id, i.workshop_updated_at))
}

/// The workshop items of the registry.
pub fn workshop_maps_from_registry(maps: &[DaemonMapEntry]) -> (r: Vec<WorkshopRegistryInfo>)
    ensures
        infos_view(r@) == workshop_infos(maps@),
{
    let mut out: Vec<WorkshopRegistryInfo> = Vec::new();
    let mut i: usize = 0;
    while i < maps.len()
        invariant
            i <= maps@.len(),
            infos_view(out@) == workshop_infos(maps@.take(i as int)),
        decreases maps@.len() - i,
    {
        assert(maps@.take(i + 1).drop_last() =~= maps@.take(i as int));
        assert(maps@.take(i + 1).last() == maps@[i as int]);
        let m = &maps[i];
        if m.source_kind == DaemonSourceKind::Workshop {
            if let Some(id) = m.workshop_id {
                let ghost before = out@;
                out.push(WorkshopRegistryInfo { workshop_id: id, workshop_updated_at: m.workshop_updated_at });
                assert(infos_view(out@) =~= infos_view(before).push((id, m.workshop_updated_at)));
            }
        }
        i = i + 1;
    }
    assert(maps@.take(maps@.len() as int) =~= maps@);
    out
}

/// Whether a workshop item's preview must be fetched: it is not cached, or was cached
/// for another workshop update time.
pub open spec fn needs_refresh_spec(
    cache: Map<Seq<char>, (Seq<char>, Option<Timestamp>, Timestamp)>,
    workshop_id: u64,
    workshop_updated_at: Option<Timestamp>,
) -> bool {
    !cache.dom().contains(dec(workshop_id as nat)) || cache[dec(workshop_id as nat)].1
        != workshop_updated_at
}

/// Whether a workshop item's preview must be fetched.
pub fn needs_refresh(
    cache: &WorkshopPreviewCache,
    workshop_id: u64,
    workshop_updated_at: Option<Timestamp>,
) -> (r: bool)
    requires
        cache.wf(),
    ensures
        r == needs_refresh_spec(cache.view(), workshop_id, workshop_updated_at),
{
    match cache.get(workshop_id) {
        None => true,
        Some(e) => e.workshop_updated_at != workshop_updated_at,
    }
}

/// The IDs, among the registry's workshop items, whose previews must be fetched.
pub open spec fn ids_to_fetch(
    cache: Map<Seq<char>, (Seq<char>, Option<Timestamp>, Timestamp)>,
    infos: Seq<(u64, Option<Timestamp>)>,
) -> Seq<u64>
    decreases infos.len(),
{
    if infos.len() == 0 {
        seq![]
    } else {
        let rest = ids_to_fetch(cache, infos.drop_last());
        if needs_refresh_spec(cache, infos.last().0, infos.last().1) {
            rest.push(infos.last().0)
        } else {
            rest
        }
    }
}

/// Prepares a refresh: drops cached previews of items no longer installed and returns the
/// workshop IDs whose previews must be fetched.
pub fn plan_preview_refresh(cache: &mut WorkshopPreviewCache, maps: &[DaemonMapEntry]) -> (r: Vec<u64>)
    requires
        old(cache).wf(),
    ensures
        final(cache).wf(),
        final(cache).view() == Map::new(
            |k: Seq<char>|
                old(cache).view().dom().contains(k) && key_is_active(
                    k,
                    workshop_infos(maps@).map_values(|p: (u64, Option<Timestamp>)| p.0),
                ),
            |k: Seq<char>| old(cache).view()[k],
        ),
        r@ == ids_to_fetch(final(cache).view(), workshop_infos(maps@)),
{
    let infos = workshop_maps_from_registry(maps);
    let mut active: Vec<u64> = Vec::new();
    let mut i: usize = 0;
    while i < infos.len()
        invariant
            i <= infos@.len(),
            active@ == infos_view(infos@).take(i as int).map_values(|p: (u64, Option<Timestamp>)| p.0),
        decreases infos@.len() - i,
    {
        active.push(infos[i].workshop_id);
        i = i + 1;
        assert(active@ =~= infos_view(infos@).take(i as int).map_values(|p: (u64, Option<Timestamp>)| p.0));
    }
    assert(infos_view(infos@).take(infos@.len() as int) =~= infos_view(infos@));
    cache.retain_workshop_ids(active.as_slice());
    let mut out: Vec<u64> = Vec::new();
    let mut j: usize = 0;
    while j < infos.len()
        invariant
            j <= infos@.len(),
            cache.wf(),
            out@ == ids_to_fetch(cache.view(), infos_view(infos@).take(j as int)),
        decreases infos@.len() - j,
    {
        assert(infos_view(infos@).take(j + 1).drop_last() =~= infos_view(infos@).take(j as int));
        assert(infos_view(infos@).take(j + 1).last() == (infos@[j as int].workshop_id, infos@[j as int].workshop_updated_at));
        if needs_refresh(cache, infos[j].workshop_id, infos[j].workshop_updated_at) {
            out.push(infos[j].workshop_id);
        }
        j = j + 1;
    }
    out
}

/// The last fetched URL for a workshop ID.
pub open spec fn fetched_url(fetched: Seq<(u64, Seq<char>)>, id: u64) -> Option<Seq<char>>
    decreases fetched.len(),
{
    if fetched.len() == 0 {
        None
    } else if fetched.last().0 == id {
        Some(fetched.last().1)
    } else {
        fetched_url(fetched.drop_last(), id)
    }
}

fn find_fetched(fetched: &[(u64, String)], id: u64) -> (r: Option<&String>)
    ensures
        match r {
            Some(u) => fetched_url(pairs_view(fetched@), id) == Some(u@),
            None => fetched_url(pairs_view(fetched@), id) is None,
        },
{
    let n = fetched.len();
    let mut i: usize = n;
    assert(pairs_view(fetched@).take(n as int) =~= pairs_view(fetched@));
    while i > 0
        invariant
            i <= n,
            n == fetched@.len(),
            fetched_url(pairs_view(fetched@), id) == fetched_url(pairs_view(fetched@).take(i as int), id),
        decreases i,
    {
        let ghost pre = pairs_view(fetched@).take(i as int);
        assert(pre.drop_last() =~= pairs_view(fetched@).take(i - 1));
        assert(pre.len() == i);
        assert(pre.last() == (fetched@[i - 1].0, fetched@[i - 1].1@));
        if fetched[i - 1].0 == id {
            let u = &fetched[i - 1].1;
            assert(u@ == pre.last().1);
            return Some(u);
        }
        i = i - 1;
    }
    None
}

/// The cache after storing fetched previews for the registry's workshop items, all
/// stamped with the same fetch time.
pub open spec fn apply_fetched_spec(
    cache: Map<Seq<char>, (Seq<char>, Option<Timestamp>, Timestamp)>,
    infos: Seq<(u64, Option<Timestamp>)>,
    fetched: Seq<(u64, Seq<char>)>,
    now: Timestamp,
) -> Map<Seq<char>, (Seq<char>, Option<Timestamp>, Timestamp)>
    decreases infos.len(),
{
    if infos.len() == 0 {
        cache
    } else {
        let before = apply_fetched_spec(cache, infos.drop_last(), fetched, now);
        let id = infos.last().0;
        match fetched_url(fetched, id) {
            Some(u) => before.insert(dec(id as nat), (u, infos.last().1, now)),
            None => before,
        }
    }
}

/// Stores the fetched previews of the registry's workshop items, stamped `now`.
pub fn apply_fetched_previews(
    cache: &mut WorkshopPreviewCache,
    maps: &[DaemonMapEntry],
    fetched: &[(u64, String)],
    now: Timestamp,
)
    requires
        old(cache).wf(),
    ensures
        final(cache).wf(),
        final(cache).view() == apply_fetched_spec(
            old(cache).view(),
            workshop_infos(maps@),
            pairs_view(fetched@),
            now,
        ),
{
    let infos = workshop_maps_from_registry(maps);
    let ghost c0 = cache.view();
    let mut i: usize = 0;
    while i < infos.len()
        invariant
            i <= infos@.len(),
            cache.wf(),
            cache.view() == apply_fetched_spec(c0, infos_view(infos@).take(i as int), pairs_view(fetched@), now),
        decreases infos@.len() - i,
    {
        assert(infos_view(infos@).take(i + 1).drop_last() =~= infos_view(infos@).take(i as int));
        assert(infos_view(infos@).take(i + 1).last() == (infos@[i as int].workshop_id, infos@[i as int].workshop_updated_at));
        let id = infos[i].workshop_id;
        if let Some(u) = find_fetched(fetched, id) {
            let e = PreviewCacheEntry {
                preview_url: u.clone(),
                workshop_updated_at: infos[i].workshop_updated_at,
                fetched_at: now,
            };
            cache.insert(id, e);
        }
        i = i + 1;
    }
    assert(infos_view(infos@).take(infos@.len() as int) =~= infos_view(infos@));
}


/// The cache maps as Verus sees them.
pub type PreviewMap = Map<Seq<char>, (Seq<char>, Option<Timestamp>, Timestamp)>;

/// No workshop item is listed twice.
pub open spec fn infos_distinct(infos: Seq<(u64, Option<Timestamp>)>) -> bool {
    forall|i: int, j: int| 0 <= i < j < infos.len() ==> (#[trigger] infos[i]).0 != (#[trigger] infos[j]).0
}

proof fn lemma_dec_injective(a: u64, b: u64)
    requires
        dec(a as nat) == dec(b as nat),
    ensures
        a == b,
{
    crate::text::lemma_dec_digits(a as nat);
    crate::text::lemma_dec_digits(b as nat);
}

proof fn lemma_parse_dec_u64(n: u64)
    ensures
        parse_u64_spec(dec(n as nat)) == Some(n),
{
    crate::text::lemma_dec_digits(n as nat);
    let s = dec(n as nat);
    assert(s[0] != '+');
    assert(crate::text::unsigned_body(s) == s);
}

/// After applying fetched previews, an item whose preview was fetched is cached with the
/// registry's update time.
proof fn lemma_applied_entry(
    cache: PreviewMap,
    infos: Seq<(u64, Option<Timestamp>)>,
    fetched: Seq<(u64, Seq<char>)>,
    now: Timestamp,
    i: int,
)
    requires
        infos_distinct(infos),
        0 <= i < infos.len(),
        fetched_url(fetched, infos[i].0) is Some,
    ensures
        apply_fetched_spec(cache, infos, fetched, now).dom().contains(dec(infos[i].0 as nat)),
        apply_fetched_spec(cache, infos, fetched, now)[dec(infos[i].0 as nat)].1 == infos[i].1,
    decreases infos.len(),
{
    let last = infos.len() - 1;
    if i < last {
        let d = infos.drop_last();
        assert(infos_distinct(d)) by {
            assert forall|a: int, b: int| 0 <= a < b < d.len() implies (#[trigger] d[a]).0 != (#[trigger] d[b]).0 by {
                assert(d[a] == infos[a] && d[b] == infos[b]);
            }
        }
        assert(d[i] == infos[i]);
        lemma_applied_entry(cache, d, fetched, now, i);
        assert(infos[i].0 != infos[last].0);
        if dec(infos[last].0 as nat) == dec(infos[i].0 as nat) {
            lemma_dec_injective(infos[last].0, infos[i].0);
        }
    }
}

proof fn lemma_nothing_to_fetch(cache: PreviewMap, infos: Seq<(u64, Option<Timestamp>)>)
    requires
        forall|i: int| 0 <= i < infos.len() ==> !needs_refresh_spec(cache, (#[trigger] infos[i]).0, infos[i].1),
    ensures
        ids_to_fetch(cache, infos) == Seq::<u64>::empty(),
    decreases infos.len(),
{
    if infos.len() > 0 {
        let d = infos.drop_last();
        assert forall|i: int| 0 <= i < d.len() implies !needs_refresh_spec(cache, (#[trigger] d[i]).0, d[i].1) by {
            assert(d[i] == infos[i]);
        }
        lemma_nothing_to_fetch(cache, d);
        assert(!needs_refresh_spec(cache, infos[infos.len() - 1].0, infos[infos.len() - 1].1));
    }
}

/// A refresh that got every preview it asked for leaves nothing to fetch: the next
/// refresh of the same registry (which first drops the entries of items no longer
/// installed) fetches nothing, when no workshop item is listed twice.
pub proof fn lemma_fetched_previews_are_not_refetched(
    cache: PreviewMap,
    maps: Seq<DaemonMapEntry>,
    fetched: Seq<(u64, Seq<char>)>,
    now: Timestamp,
)
    requires
        infos_distinct(workshop_infos(maps)),
        forall|i: int|
            0 <= i < workshop_infos(maps).len() ==> fetched_url(fetched, (#[trigger] workshop_infos(maps)[i]).0) is Some,
    ensures
        ({
            let infos = workshop_infos(maps);
            let after = apply_fetched_spec(cache, infos, fetched, now);
            let kept = Map::new(
                |k: Seq<char>|
                    after.dom().contains(k) && key_is_active(k, infos.map_values(|p: (u64, Option<Timestamp>)| p.0)),
                |k: Seq<char>| after[k],
            );
            ids_to_fetch(kept, infos) == Seq::<u64>::empty()
        }),
{
    let infos = workshop_infos(maps);
    let ids = infos.map_values(|p: (u64, Option<Timestamp>)| p.0);
    let after = apply_fetched_spec(cache, infos, fetched, now);
    let kept = Map::new(
        |k: Seq<char>| after.dom().contains(k) && key_is_active(k, ids),
        |k: Seq<char>| after[k],
    );
    assert forall|i: int| 0 <= i < infos.len() implies !needs_refresh_spec(kept, (#[trigger] infos[i]).0, infos[i].1) by {
        lemma_applied_entry(cache, infos, fetched, now, i);
        let k = dec(infos[i].0 as nat);
        lemma_parse_dec_u64(infos[i].0);
        assert(ids[i] == infos[i].0);
        assert(ids.contains(infos[i].0));
        assert(key_is_active(k, ids));
        assert(kept.dom().contains(k));
    }
    lemma_nothing_to_fetch(kept, infos);
}

} // verus!
