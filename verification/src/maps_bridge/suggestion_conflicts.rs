//! Whether a suggested map is already installed, from the same source or another.
use vstd::prelude::*;
use crate::maps_bridge::l4d2center_index::{first_where, is_first, lemma_first_where, lemma_first_where_none};
use crate::maps_bridge::models::{
    daemon_source_to_website, source_label, DaemonMapEntry, DaemonSourceKind, MapSuggestion,
    MapSuggestionConflict, MapSuggestionSourceKind, Timestamp,
};
use crate::text::{
    chars_eq, chars_of, eq_ignore_ascii_case, eq_ignore_ascii_case_chars, opt_string_view, owned,
    string_from, trim, trim_chars, trim_end_matches, trim_end_matches_chars, alphanumeric,
    lowercased,
};

verus! {

/// Characters kept in a map stem: alphanumerics, `-`, `_`, space and `.`.
pub open spec fn stem_char(c: char) -> bool {
    alphanumeric(c) || c == '-' || c == '_' || c == ' ' || c == '.'
}

/// The characters of a string that may appear in a stem.
pub open spec fn stem_chars(s: Seq<char>) -> Seq<char>
    decreases s.len(),
{
    if s.len() == 0 {
        seq![]
    } else if stem_char(s.last()) {
        stem_chars(s.drop_last()).push(s.last())
    } else {
        stem_chars(s.drop_last())
    }
}

/// Spaces replaced by underscores.
pub open spec fn underscored(s: Seq<char>) -> Seq<char> {
    s.map_values(|c: char| if c == ' ' { '_' } else { c })
}

/// A map title or file name normalised the way the daemon names files: other characters
/// dropped, lower-cased, trimmed, spaces as underscores, `.vpk` dropped.
pub open spec fn map_stem(raw: Seq<char>) -> Seq<char> {
    trim_end_matches(underscored(trim(lowercased(stem_chars(raw)))), ".vpk"@)
}

/// The position just after the last `/`, or 0.
pub open spec fn last_slash_end(s: Seq<char>) -> int
    decreases s.len(),
{
    if s.len() == 0 {
        0
    } else if s.last() == '/' {
        s.len() as int
    } else {
        last_slash_end(s.drop_last())
    }
}

/// The stem of the file name at the end of a path.
pub open spec fn path_stem_spec(path: Seq<char>) -> Seq<char> {
    map_stem(path.skip(last_slash_end(path)))
}

/// Normalises a map title or file name the way the daemon names files.
pub fn normalize_map_stem(raw: &str) -> (r: String)
    ensures
        r@ == map_stem(raw@),
{
    let v = chars_of(raw);
    let mut kept: Vec<char> = Vec::new();
    let mut i: usize = 0;
    while i < v.len()
        invariant
            i <= v@.len(),
            kept@ == stem_chars(v@.take(i as int)),
        decreases v@.len() - i,
    {
        assert(v@.take(i + 1).drop_last() =~= v@.take(i as int));
        assert(v@.take(i + 1).last() == v@[i as int]);
        let c = v[i];
        if crate::text::is_alphanumeric(c) || c == '-' || c == '_' || c == ' ' || c == '.' {
            kept.push(c);
        }
        i = i + 1;
    }
    assert(v@.take(v@.len() as int) =~= v@);
    let s = string_from(kept.as_slice());
    let lower = crate::text::to_lowercase(s.as_str());
    let lv = chars_of(lower.as_str());
    let t = trim_chars(lv.as_slice());
    let mut u: Vec<char> = Vec::new();
    let mut j: usize = 0;
    while j < t.len()
        invariant
            j <= t@.len(),
            u@ == underscored(t@.take(j as int)),
        decreases t@.len() - j,
    {
        let c = t[j];
        u.push(if c == ' ' { '_' } else { c });
        j = j + 1;
        assert(u@ =~= underscored(t@.take(j as int)));
    }
    assert(t@.take(t@.len() as int) =~= t@);
    let suffix = chars_of(".vpk");
    let out = trim_end_matches_chars(u.as_slice(), suffix.as_slice());
    string_from(out.as_slice())
}

/// A character a normalised ASCII stem is made of: a lower-case letter, a digit, `-`,
/// `_` or `.`.
pub open spec fn normal_stem_char(c: char) -> bool {
    ('a' <= c && c <= 'z') || ('0' <= c && c <= '9') || c == '-' || c == '_' || c == '.'
}

proof fn lemma_stem_chars_kept(s: Seq<char>)
    requires
        crate::text::all_ascii(s),
    ensures
        forall|i: int| 0 <= i < stem_chars(s).len() ==> {
            &&& stem_char(#[trigger] stem_chars(s)[i])
            &&& (stem_chars(s)[i] as u32) < 128
        },
    decreases s.len(),
{
    if s.len() > 0 {
        let t = s.drop_last();
        assert forall|i: int| 0 <= i < t.len() implies (#[trigger] t[i] as u32) < 128 by {
            assert(t[i] == s[i]);
        }
        lemma_stem_chars_kept(t);
        assert((s[s.len() - 1] as u32) < 128);
        if stem_char(s.last()) {
            let k = stem_chars(t).push(s.last());
            assert(stem_chars(s) == k);
            assert forall|i: int| 0 <= i < k.len() implies stem_char(#[trigger] k[i]) && (k[i] as u32)
                < 128 by {
                if i < stem_chars(t).len() {
                    assert(k[i] == stem_chars(t)[i]);
                }
            }
        } else {
            assert(stem_chars(s) == stem_chars(t));
        }
    }
}

proof fn lemma_stem_chars_id(s: Seq<char>)
    requires
        forall|i: int| 0 <= i < s.len() ==> stem_char(#[trigger] s[i]),
    ensures
        stem_chars(s) == s,
    decreases s.len(),
{
    if s.len() > 0 {
        let t = s.drop_last();
        assert forall|i: int| 0 <= i < t.len() implies stem_char(#[trigger] t[i]) by {
            assert(t[i] == s[i]);
        }
        lemma_stem_chars_id(t);
        assert(stem_char(s[s.len() - 1]));
        assert(t.push(s.last()) =~= s);
    }
}

/// Normalising an ASCII title gives a stem of lower-case letters, digits, `-`, `_` and
/// `.` that does not end in `.vpk`, and normalising that stem again changes nothing.
pub proof fn lemma_map_stem_idempotent(raw: Seq<char>)
    requires
        crate::text::all_ascii(raw),
    ensures
        forall|i: int| 0 <= i < map_stem(raw).len() ==> normal_stem_char(#[trigger] map_stem(raw)[i]),
        !crate::text::ends_with(map_stem(raw), ".vpk"@),
        map_stem(map_stem(raw)) == map_stem(raw),
{
    reveal_strlit(".vpk");
    let a = stem_chars(raw);
    lemma_stem_chars_kept(raw);
    assert(crate::text::all_ascii(a));
    let b = lowercased(a);
    assert(b == crate::text::ascii_lower(a));
    let p1 = |c: char| normal_stem_char(c) || c == ' ';
    assert forall|i: int| 0 <= i < b.len() implies p1(#[trigger] b[i]) by {
        assert(b[i] == crate::text::ascii_lower_char(a[i]));
        assert(stem_char(a[i]));
    }
    let c = trim(b);
    crate::text::lemma_trim_keeps(b, p1);
    let d = underscored(c);
    let p2 = |ch: char| normal_stem_char(ch);
    assert forall|i: int| 0 <= i < d.len() implies p2(#[trigger] d[i]) by {
        assert(p1(c[i]));
    }
    let r = trim_end_matches(d, ".vpk"@);
    crate::text::lemma_trim_end_matches_keeps(d, ".vpk"@, p2);
    crate::text::lemma_trim_end_matches_done(d, ".vpk"@);
    assert(r == map_stem(raw));
    assert forall|i: int| 0 <= i < r.len() implies normal_stem_char(#[trigger] r[i]) by {
        assert(p2(r[i]));
    }
    // normalising again
    assert forall|i: int| 0 <= i < r.len() implies stem_char(#[trigger] r[i]) by {
        assert(normal_stem_char(r[i]));
    }
    lemma_stem_chars_id(r);
    assert forall|i: int| 0 <= i < r.len() implies (#[trigger] r[i] as u32) < 128 by {
        assert(normal_stem_char(r[i]));
    }
    assert(crate::text::all_ascii(r));
    assert(crate::text::ascii_lower(r) =~= r) by {
        assert forall|i: int| 0 <= i < r.len() implies crate::text::ascii_lower(r)[i] == r[i] by {
            assert(normal_stem_char(r[i]));
        }
    }
    assert(lowercased(r) == r);
    assert forall|i: int| 0 <= i < r.len() implies !crate::text::is_ws(#[trigger] r[i]) by {
        assert(normal_stem_char(r[i]));
    }
    crate::text::lemma_trim_no_ws(r);
    assert(underscored(r) =~= r) by {
        assert forall|i: int| 0 <= i < r.len() implies underscored(r)[i] == r[i] by {
            assert(normal_stem_char(r[i]));
        }
    }
    assert(trim_end_matches(r, ".vpk"@) == r);
}

fn path_stem(path: &str) -> (r: String)
    ensures
        r@ == path_stem_spec(path@),
{
    let v = chars_of(path);
    let n = v.len();
    let mut k: usize = n;
    assert(v@.take(n as int) =~= v@);
    while k > 0 && v[k - 1] != '/'
        invariant
            k <= n,
            n == v@.len(),
            last_slash_end(v@) == last_slash_end(v@.take(k as int)),
        decreases k,
    {
        assert(v@.take(k as int).drop_last() =~= v@.take(k - 1));
        k = k - 1;
    }
    proof {
        if k > 0 {
            assert(v@.take(k as int).last() == v@[k - 1]);
        }
    }
    let mut name: Vec<char> = Vec::new();
    let mut i: usize = k;
    while i < n
        invariant
            k <= i <= n,
            n == v@.len(),
            name@ == v@.subrange(k as int, i as int),
        decreases n - i,
    {
        name.push(v[i]);
        i = i + 1;
        assert(name@ =~= v@.subrange(k as int, i as int));
    }
    assert(name@ =~= path@.skip(last_slash_end(path@)));
    let s = string_from(name.as_slice());
    normalize_map_stem(s.as_str())
}

/// Whether a suggestion is already installed: from the same source, from another
/// source (a likely duplicate), or not at all.
pub enum ConflictCheck {
    SameSource { installed: DaemonMapEntry },
    OtherSource { installed: DaemonMapEntry },
    NoConflict,
}

/// The plain outcome of a conflict check: the position of the installed map.
pub enum ConflictSpec {
    Same(int),
    Other(int),
    Clear,
}

/// A workshop map with the suggested workshop ID.
pub open spec fn ws_same(maps: Seq<DaemonMapEntry>, ws: u64, i: int) -> bool {
    maps[i].workshop_id == Some(ws)
}

/// A non-workshop map whose file or name has the suggested title's stem.
pub open spec fn ws_other(maps: Seq<DaemonMapEntry>, stem: Seq<char>, i: int) -> bool {
    maps[i].source_kind != DaemonSourceKind::Workshop && (path_stem_spec(maps[i].installed_path@)
        == stem || map_stem(maps[i].name@) == stem)
}

/// An L4D2Center map with the catalog file, its stem, or the suggested download link.
pub open spec fn lc_same(
    maps: Seq<DaemonMapEntry>,
    name: Seq<char>,
    stem: Seq<char>,
    link: Option<Seq<char>>,
    i: int,
) -> bool {
    maps[i].source_kind == DaemonSourceKind::L4d2Center && (eq_ignore_ascii_case(
        maps[i].installed_path@,
        name,
    ) || path_stem_spec(maps[i].installed_path@) == stem || (link is Some && maps[i].source_url@
        == link->0))
}

/// A map from another source with the catalog file or its stem.
pub open spec fn lc_other(maps: Seq<DaemonMapEntry>, name: Seq<char>, stem: Seq<char>, i: int) -> bool {
    maps[i].source_kind != DaemonSourceKind::L4d2Center && (eq_ignore_ascii_case(
        maps[i].installed_path@,
        name,
    ) || path_stem_spec(maps[i].installed_path@) == stem)
}

/// The conflict of a suggestion with the installed maps. A workshop suggestion is the
/// same as a map with its workshop ID, and another source's duplicate when a map from
/// elsewhere has its title's stem; an L4D2Center suggestion likewise by catalog file,
/// stem or download link. The first matching map is reported.
pub open spec fn conflict_spec(s: MapSuggestion, maps: Seq<DaemonMapEntry>) -> ConflictSpec {
    let n = maps.len() as int;
    match s.source_kind {
        MapSuggestionSourceKind::Workshop => match s.workshop_id {
            None => ConflictSpec::Clear,
            Some(ws) => match first_where(|i: int| ws_same(maps, ws, i), n) {
                Some(i) => ConflictSpec::Same(i),
                None => {
                    let st = map_stem(s.title@);
                    if st.len() == 0 {
                        ConflictSpec::Clear
                    } else {
                        match first_where(|i: int| ws_other(maps, st, i), n) {
                            Some(i) => ConflictSpec::Other(i),
                            None => ConflictSpec::Clear,
                        }
                    }
                },
            },
        },
        MapSuggestionSourceKind::L4d2Center => match s.l4d2center_name {
            None => ConflictSpec::Clear,
            Some(name) => {
                let st = map_stem(name@);
                match first_where(
                    |i: int| lc_same(maps, name@, st, opt_string_view(s.download_link), i),
                    n,
                ) {
                    Some(i) => ConflictSpec::Same(i),
                    None => match first_where(|i: int| lc_other(maps, name@, st, i), n) {
                        Some(i) => ConflictSpec::Other(i),
                        None => ConflictSpec::Clear,
                    },
                }
            },
        },
    }
}

/// Whether a check reports the map at the position the specification names.
pub open spec fn check_matches(c: ConflictCheck, spec: ConflictSpec, maps: Seq<DaemonMapEntry>) -> bool {
    match spec {
        ConflictSpec::Same(i) => c matches ConflictCheck::SameSource { installed } && installed
            == maps[i],
        ConflictSpec::Other(i) => c matches ConflictCheck::OtherSource { installed } && installed
            == maps[i],
        ConflictSpec::Clear => c matches ConflictCheck::NoConflict,
    }
}

fn copy_opt_string(o: &Option<String>) -> (r: Option<String>)
    ensures
        r == *o,
{
    match o {
        Some(s) => Some(s.clone()),
        None => None,
    }
}

/// A copy of a registry entry.
pub fn copy_map_entry(e: &DaemonMapEntry) -> (r: DaemonMapEntry)
    ensures
        r == *e,
{
    DaemonMapEntry {
        id: e.id,
        name: e.name.clone(),
        source_url: e.source_url.clone(),
        source_kind: e.source_kind,
        workshop_id: e.workshop_id,
        installed_path: e.installed_path.clone(),
        installed_at: e.installed_at,
        workshop_updated_at: e.workshop_updated_at,
        version: copy_opt_string(&e.version),
        checksum: copy_opt_string(&e.checksum),
        checksum_kind: copy_opt_string(&e.checksum_kind),
    }
}

fn check_workshop(ws: u64, title: &str, maps: &[DaemonMapEntry]) -> (r: ConflictCheck)
    ensures
        match first_where(|i: int| ws_same(maps@, ws, i), maps@.len() as int) {
            Some(i) => r matches ConflictCheck::SameSource { installed } && installed == maps@[i],
            None => {
                let st = map_stem(title@);
                if st.len() == 0 {
                    r matches ConflictCheck::NoConflict
                } else {
                    match first_where(|i: int| ws_other(maps@, st, i), maps@.len() as int) {
                        Some(i) => r matches ConflictCheck::OtherSource { installed } && installed
                            == maps@[i],
                        None => r matches ConflictCheck::NoConflict,
                    }
                }
            },
        },
{
    let n = maps.len();
    let ghost p1 = |i: int| ws_same(maps@, ws, i);
    let mut i: usize = 0;
    while i < n
        invariant
            i <= n,
            n == maps@.len(),
            p1 == (|i: int| ws_same(maps@, ws, i)),
            forall|j: int| 0 <= j < i ==> !#[trigger] p1(j),
        decreases n - i,
    {
        if maps[i].workshop_id == Some(ws) {
            proof {
                assert(p1(i as int));
                lemma_first_where(p1, n as int, i as int);
            }
            return ConflictCheck::SameSource { installed: copy_map_entry(&maps[i]) };
        }
        i = i + 1;
    }
    proof {
        lemma_first_where_none(p1, n as int);
    }
    let stem = normalize_map_stem(title);
    if stem.as_str().is_empty() {
        return ConflictCheck::NoConflict;
    }
    let sv = chars_of(stem.as_str());
    let ghost p2 = |i: int| ws_other(maps@, stem@, i);
    let mut k: usize = 0;
    while k < n
        invariant
            k <= n,
            n == maps@.len(),
            sv@ == stem@,
            stem@ == map_stem(title@),
            stem@.len() > 0,
            first_where(|i: int| ws_same(maps@, ws, i), maps@.len() as int) is None,
            p2 == (|i: int| ws_other(maps@, stem@, i)),
            forall|j: int| 0 <= j < k ==> !#[trigger] p2(j),
        decreases n - k,
    {
        let m = &maps[k];
        if m.source_kind != DaemonSourceKind::Workshop {
            let ps = path_stem(m.installed_path.as_str());
            let ns = normalize_map_stem(m.name.as_str());
            let pv = chars_of(ps.as_str());
            let nv = chars_of(ns.as_str());
            if chars_eq(pv.as_slice(), sv.as_slice()) || chars_eq(nv.as_slice(), sv.as_slice()) {
                proof {
                    assert(p2(k as int));
                    lemma_first_where(p2, n as int, k as int);
                    assert(p2 =~= (|i: int| ws_other(maps@, map_stem(title@), i)));
                }
                return ConflictCheck::OtherSource { installed: copy_map_entry(m) };
            }
        }
        assert(!p2(k as int));
        k = k + 1;
    }
    proof {
        lemma_first_where_none(p2, n as int);
        assert(p2 =~= (|i: int| ws_other(maps@, map_stem(title@), i)));
    }
    ConflictCheck::NoConflict
}

fn check_l4d2center(name: &str, link: &Option<String>, maps: &[DaemonMapEntry]) -> (r: ConflictCheck)
    ensures
        ({
            let st = map_stem(name@);
            match first_where(|i: int| lc_same(maps@, name@, st, opt_string_view(*link), i), maps@.len() as int) {
                Some(i) => r matches ConflictCheck::SameSource { installed } && installed == maps@[i],
                None => match first_where(|i: int| lc_other(maps@, name@, st, i), maps@.len() as int) {
                    Some(i) => r matches ConflictCheck::OtherSource { installed } && installed
                        == maps@[i],
                    None => r matches ConflictCheck::NoConflict,
                },
            }
        }),
{
    let n = maps.len();
    let stem = normalize_map_stem(name);
    let sv = chars_of(stem.as_str());
    let namev = chars_of(name);
    let ghost lk = opt_string_view(*link);
    let ghost p1 = |i: int| lc_same(maps@, name@, stem@, lk, i);
    let mut i: usize = 0;
    while i < n
        invariant
            i <= n,
            n == maps@.len(),
            sv@ == stem@,
            stem@ == map_stem(name@),
            namev@ == name@,
            lk == opt_string_view(*link),
            p1 == (|i: int| lc_same(maps@, name@, stem@, lk, i)),
            forall|j: int| 0 <= j < i ==> !#[trigger] p1(j),
        decreases n - i,
    {
        let m = &maps[i];
        if m.source_kind == DaemonSourceKind::L4d2Center {
            let pathv = chars_of(m.installed_path.as_str());
            let ps = path_stem(m.installed_path.as_str());
            let pv = chars_of(ps.as_str());
            let link_hit = match link {
                Some(l) => m.source_url == *l,
                None => false,
            };
            if eq_ignore_ascii_case_chars(pathv.as_slice(), namev.as_slice()) || chars_eq(
                pv.as_slice(),
                sv.as_slice(),
            ) || link_hit {
                proof {
                    assert(p1(i as int));
                    lemma_first_where(p1, n as int, i as int);
                    assert(p1 =~= (|j: int| lc_same(maps@, name@, map_stem(name@), opt_string_view(*link), j)));
                }
                return ConflictCheck::SameSource { installed: copy_map_entry(m) };
            }
        }
        assert(!p1(i as int));
        i = i + 1;
    }
    proof {
        lemma_first_where_none(p1, n as int);
        assert(p1 =~= (|j: int| lc_same(maps@, name@, map_stem(name@), opt_string_view(*link), j)));
    }
    let ghost p2 = |i: int| lc_other(maps@, name@, stem@, i);
    let mut k: usize = 0;
    while k < n
        invariant
            k <= n,
            n == maps@.len(),
            sv@ == stem@,
            stem@ == map_stem(name@),
            namev@ == name@,
            first_where(|j: int| lc_same(maps@, name@, map_stem(name@), opt_string_view(*link), j), maps@.len() as int) is None,
            p2 == (|i: int| lc_other(maps@, name@, stem@, i)),
            forall|j: int| 0 <= j < k ==> !#[trigger] p2(j),
        decreases n - k,
    {
        let m = &maps[k];
        if m.source_kind != DaemonSourceKind::L4d2Center {
            let pathv = chars_of(m.installed_path.as_str());
            let ps = path_stem(m.installed_path.as_str());
            let pv = chars_of(ps.as_str());
            if eq_ignore_ascii_case_chars(pathv.as_slice(), namev.as_slice()) || chars_eq(
                pv.as_slice(),
                sv.as_slice(),
            ) {
                proof {
                    assert(p2(k as int));
                    lemma_first_where(p2, n as int, k as int);
                    assert(p2 =~= (|j: int| lc_other(maps@, name@, map_stem(name@), j)));
                }
                return ConflictCheck::OtherSource { installed: copy_map_entry(m) };
            }
        }
        assert(!p2(k as int));
        k = k + 1;
    }
    proof {
        lemma_first_where_none(p2, n as int);
        assert(p2 =~= (|j: int| lc_other(maps@, name@, map_stem(name@), j)));
    }
    ConflictCheck::NoConflict
}

/// Checks a suggestion against the installed maps.
pub fn check_installed_conflict(suggestion: &MapSuggestion, maps: &[DaemonMapEntry]) -> (r: ConflictCheck)
    ensures
        check_matches(r, conflict_spec(*suggestion, maps@), maps@),
{
    match suggestion.source_kind {
        MapSuggestionSourceKind::Workshop => match suggestion.workshop_id {
            None => ConflictCheck::NoConflict,
            Some(ws) => check_workshop(ws, suggestion.title.as_str(), maps),
        },
        MapSuggestionSourceKind::L4d2Center => match &suggestion.l4d2center_name {
            None => ConflictCheck::NoConflict,
            Some(name) => check_l4d2center(name.as_str(), &suggestion.download_link, maps),
        },
    }
}

/// The conflict the website shows: only a likely duplicate from another source.
pub fn conflict_to_view(check: &ConflictCheck) -> (r: Option<MapSuggestionConflict>)
    ensures
        match check {
            ConflictCheck::OtherSource { installed } => r matches Some(c) && c.kind@
                == "other_source"@ && c.installed_map_id == installed.id && c.installed_name@
                == installed.name@ && c.installed_source@ == source_label(installed.source_kind),
            _ => r is None,
        },
{
    match check {
        ConflictCheck::OtherSource { installed } => Some(
            MapSuggestionConflict {
                kind: owned("other_source"),
                installed_map_id: installed.id,
                installed_name: installed.name.clone(),
                installed_source: owned(daemon_source_to_website(installed.source_kind)),
            },
        ),
        _ => None,
    }
}

} // verus!
