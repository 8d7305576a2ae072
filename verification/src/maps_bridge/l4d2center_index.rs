//! The L4D2Center map catalog and lookups in it.
use vstd::prelude::*;
use crate::text::{
    chars_eq, chars_of, eq_ignore_ascii_case, eq_ignore_ascii_case_chars, trim, trim_end_matches,
    trim_end_matches_chars, trim_str, lowercased,
};

verus! {

/// Where the L4D2Center catalog is published.
pub const L4D2CENTER_INDEX_URL: &'static str = "https://l4d2center.com/maps/servers/index.json";

/// One map of the L4D2Center catalog.
pub struct L4d2CenterIndexEntry {
    pub name: String,
    pub size: u64,
    pub md5: String,
    pub download_link: String,
}

/// A catalog name reduced for loose comparison: trimmed, lower-cased, `.vpk` dropped.
pub open spec fn catalog_key(name: Seq<char>) -> Seq<char> {
    trim_end_matches(lowercased(trim(name)), ".vpk"@)
}

fn normalize_catalog_key(name: &str) -> (r: Vec<char>)
    ensures
        r@ == catalog_key(name@),
{
    let t = trim_str(name);
    let lower = crate::text::to_lowercase(t.as_str());
    let v = chars_of(lower.as_str());
    let suffix = chars_of(".vpk");
    trim_end_matches_chars(v.as_slice(), suffix.as_slice())
}

/// `i` is the first position where `p` holds among the first `n`.
pub open spec fn is_first(p: spec_fn(int) -> bool, n: int, i: int) -> bool {
    0 <= i < n && p(i) && forall|j: int| 0 <= j < i ==> !#[trigger] p(j)
}

/// The first position where `p` holds among the first `n`, if any.
pub open spec fn first_where(p: spec_fn(int) -> bool, n: int) -> Option<int> {
    if exists|i: int| is_first(p, n, i) {
        Some(choose|i: int| is_first(p, n, i))
    } else {
        None
    }
}

/// The first position is unique.
pub proof fn lemma_first_where(p: spec_fn(int) -> bool, n: int, i: int)
    requires
        is_first(p, n, i),
    ensures
        first_where(p, n) == Some(i),
{
    let c = choose|k: int| is_first(p, n, k);
    assert(is_first(p, n, c));
    if c < i {
        assert(!p(c));
    } else if c > i {
        assert(!p(i));
    }
}

/// With no position where `p` holds, there is no first one.
pub proof fn lemma_first_where_none(p: spec_fn(int) -> bool, n: int)
    requires
        forall|j: int| 0 <= j < n ==> !#[trigger] p(j),
    ensures
        first_where(p, n) is None,
{
}

/// The catalog entry an input names: the first whose name equals the trimmed input up to
/// ASCII case, else the first whose catalog key equals the input's.
pub open spec fn catalog_match(entries: Seq<L4d2CenterIndexEntry>, input: Seq<char>) -> Option<int> {
    let t = trim(input);
    if t.len() == 0 {
        None
    } else {
        match first_where(|i: int| eq_ignore_ascii_case(entries[i].name@, t), entries.len() as int) {
            Some(i) => Some(i),
            None => first_where(
                |i: int| catalog_key(entries[i].name@) == catalog_key(t),
                entries.len() as int,
            ),
        }
    }
}

/// Finds the catalog entry an input names.
pub fn find_l4d2center_entry<'a>(entries: &'a [L4d2CenterIndexEntry], input: &str) -> (r: Option<
    &'a L4d2CenterIndexEntry,
>)
    ensures
        match catalog_match(entries@, input@) {
            Some(i) => r matches Some(e) && *e == entries@[i],
            None => r is None,
        },
{
    let t = trim_str(input);
    if t.as_str().is_empty() {
        return None;
    }
    let tv = chars_of(t.as_str());
    let ghost p1 = |i: int| eq_ignore_ascii_case(entries@[i].name@, t@);
    let mut i: usize = 0;
    while i < entries.len()
        invariant
            i <= entries@.len(),
            tv@ == t@,
            t@ == trim(input@),
            t@.len() > 0,
            p1 == (|i: int| eq_ignore_ascii_case(entries@[i].name@, t@)),
            forall|j: int| 0 <= j < i ==> !#[trigger] p1(j),
        decreases entries@.len() - i,
    {
        let nv = chars_of(entries[i].name.as_str());
        assert(p1(i as int) == eq_ignore_ascii_case(nv@, tv@));
        if eq_ignore_ascii_case_chars(nv.as_slice(), tv.as_slice()) {
            proof {
                lemma_first_where(p1, entries@.len() as int, i as int);
                assert(p1 =~= (|j: int| eq_ignore_ascii_case(entries@[j].name@, trim(input@))));
                assert(first_where(|j: int| eq_ignore_ascii_case(entries@[j].name@, trim(input@)), entries@.len() as int) == Some(i as int));
                assert(trim(input@).len() != 0);
                assert(catalog_match(entries@, input@) == Some(i as int));
            }
            return Some(&entries[i]);
        }
        i = i + 1;
    }
    proof {
        lemma_first_where_none(p1, entries@.len() as int);
        assert(p1 =~= (|j: int| eq_ignore_ascii_case(entries@[j].name@, trim(input@))));
    }
    let key = normalize_catalog_key(t.as_str());
    let ghost p2 = |i: int| catalog_key(entries@[i].name@) == catalog_key(t@);
    assert(catalog_key(trim(input@)) == catalog_key(t@));
    let mut k: usize = 0;
    while k < entries.len()
        invariant
            k <= entries@.len(),
            key@ == catalog_key(t@),
            t@ == trim(input@),
            t@.len() > 0,
            first_where(|j: int| eq_ignore_ascii_case(entries@[j].name@, trim(input@)), entries@.len() as int) is None,
            p2 == (|i: int| catalog_key(entries@[i].name@) == catalog_key(t@)),
            forall|j: int| 0 <= j < k ==> !#[trigger] p2(j),
        decreases entries@.len() - k,
    {
        let ek = normalize_catalog_key(entries[k].name.as_str());
        assert(p2(k as int) == (ek@ == key@));
        if chars_eq(ek.as_slice(), key.as_slice()) {
            proof {
                lemma_first_where(p2, entries@.len() as int, k as int);
                assert(p2 =~= (|j: int| catalog_key(entries@[j].name@) == catalog_key(trim(input@))));
                assert(first_where(|j: int| eq_ignore_ascii_case(entries@[j].name@, trim(input@)), entries@.len() as int) is None);
            }
            return Some(&entries[k]);
        }
        k = k + 1;
    }
    proof {
        lemma_first_where_none(p2, entries@.len() as int);
        assert(p2 =~= (|j: int| catalog_key(entries@[j].name@) == catalog_key(trim(input@))));
    }
    None
}

} // verus!
