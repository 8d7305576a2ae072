//! The FastDL file server: which request paths may be served, how a directory is
//! listed, and which cache headers its resources carry.
use vstd::prelude::*;
use crate::http::HttpStatus;
use crate::paths::{is_absolute, parent_of, path_has_prefix, path_is_absolute, path_parent, starts_with_path};
use crate::text::{chars_of, concat, concat3, dec, lex_less_str, lex_lt, owned, starts_with, str_starts_with, u64_to_string};

verus! {

// ---------------------------------------------------------------------------
// Request paths
// ---------------------------------------------------------------------------

/// Whether a `..` component starts at position `i` of a path.
pub open spec fn parent_component_at(p: Seq<char>, i: int) -> bool {
    &&& 0 <= i
    &&& i + 2 <= p.len()
    &&& p[i] == '.'
    &&& p[i + 1] == '.'
    &&& (i == 0 || p[i - 1] == '/')
    &&& (i + 2 == p.len() || p[i + 2] == '/')
}

/// Whether a path has a `..` component.
pub open spec fn has_parent_component(p: Seq<char>) -> bool {
    exists|i: int| #[trigger] parent_component_at(p, i)
}

/// Whether a request-relative path has a `..` component.
pub fn contains_parent_component(rel: &str) -> (r: bool)
    ensures
        r == has_parent_component(rel@),
{
    let v = chars_of(rel);
    let n = v.len();
    let mut i: usize = 0;
    while i < n
        invariant
            i <= n,
            n == v@.len(),
            v@ == rel@,
            forall|j: int| 0 <= j < i ==> !#[trigger] parent_component_at(rel@, j),
        decreases n - i,
    {
        if n - i >= 2 && v[i] == '.' && v[i + 1] == '.' && (i == 0 || v[i - 1] == '/') && (n - i == 2
            || v[i + 2] == '/') {
            assert(parent_component_at(rel@, i as int));
            return true;
        }
        i = i + 1;
    }
    proof {
        assert forall|j: int| !#[trigger] parent_component_at(rel@, j) by {
            if 0 <= j < n {
            }
        }
    }
    false
}

/// A request path is refused when it is absolute or climbs with `..`.
pub open spec fn traversal_refused(rel: Seq<char>) -> bool {
    path_is_absolute(rel) || has_parent_component(rel)
}

/// Refuses a request-relative path that is absolute or has a `..` component.
pub fn reject_traversal(rel: &str) -> (r: Result<(), HttpStatus>)
    ensures
        r == (if traversal_refused(rel@) {
            Err(HttpStatus::Forbidden)
        } else {
            Ok(())
        }),
{
    if is_absolute(rel) {
        return Err(HttpStatus::Forbidden);
    }
    if contains_parent_component(rel) {
        return Err(HttpStatus::Forbidden);
    }
    Ok(())
}

/// Where an existing requested path resolves: its canonical form, which must lie under
/// the root; a canonicalisation that failed is a missing file.
pub open spec fn confine_existing_spec(root: Seq<char>, canonical: Option<Seq<char>>) -> Result<
    Seq<char>,
    HttpStatus,
> {
    match canonical {
        None => Err(HttpStatus::NotFound),
        Some(c) => if path_has_prefix(c, root) {
            Ok(c)
        } else {
            Err(HttpStatus::Forbidden)
        },
    }
}

/// Keeps an existing requested path under the root, given its canonical form (`None`
/// when canonicalisation failed).
pub fn confine_existing(root: &str, canonical: Option<String>) -> (r: Result<String, HttpStatus>)
    ensures
        match (r, confine_existing_spec(root@, crate::text::opt_string_view(canonical))) {
            (Ok(p), Ok(q)) => p@ == q,
            (Err(e), Err(f)) => e == f,
            _ => false,
        },
        r matches Ok(p) ==> path_has_prefix(p@, root@),
{
    match canonical {
        None => Err(HttpStatus::NotFound),
        Some(c) => if starts_with_path(c.as_str(), root) {
            Ok(c)
        } else {
            Err(HttpStatus::Forbidden)
        },
    }
}

/// One step up from a requested path that does not exist: to its parent while that
/// stays under the root, else the path is missing.
pub open spec fn ancestor_step_spec(root: Seq<char>, current: Seq<char>) -> Option<Seq<char>> {
    match path_parent(current) {
        Some(parent) => if path_has_prefix(parent, root) || parent == root {
            Some(parent)
        } else {
            None
        },
        None => None,
    }
}

/// The next ancestor to look at when `current` does not exist; `Err(NotFound)` when the
/// walk would leave the root.
pub fn ancestor_step(root: &str, current: &str) -> (r: Result<String, HttpStatus>)
    ensures
        match ancestor_step_spec(root@, current@) {
            Some(p) => r matches Ok(q) && q@ == p,
            None => r == Err::<String, HttpStatus>(HttpStatus::NotFound),
        },
{
    match parent_of(current) {
        Some(parent) => {
            if starts_with_path(parent.as_str(), root) || crate::text::str_eq(parent.as_str(), root) {
                Ok(parent)
            } else {
                Err(HttpStatus::NotFound)
            }
        },
        None => Err(HttpStatus::NotFound),
    }
}

/// Where a requested path that does not exist resolves: the joined path, once the
/// canonical form of its nearest existing ancestor is known to lie under the root.
pub fn confine_missing(root: &str, canonical_ancestor: Option<String>, joined: String) -> (r: Result<
    String,
    HttpStatus,
>)
    ensures
        match canonical_ancestor {
            None => r == Err::<String, HttpStatus>(HttpStatus::NotFound),
            Some(a) => if path_has_prefix(a@, root@) {
                r == Ok::<String, HttpStatus>(joined)
            } else {
                r == Err::<String, HttpStatus>(HttpStatus::Forbidden)
            },
        },
{
    match canonical_ancestor {
        None => Err(HttpStatus::NotFound),
        Some(a) => if starts_with_path(a.as_str(), root) {
            Ok(joined)
        } else {
            Err(HttpStatus::Forbidden)
        },
    }
}

/// The prefix of the URIs the FastDL catcher answers.
pub const FASTDL_PREFIX: &'static str = "/fastdl/";

/// The path after `/fastdl/` of a request URI, or `None` for other URIs.
pub fn fastdl_request_path(uri_path: &str) -> (r: Option<String>)
    ensures
        crate::text::opt_string_view(r) == crate::text::strip_prefix(uri_path@, FASTDL_PREFIX@),
{
    if str_starts_with(uri_path, FASTDL_PREFIX) {
        let v = chars_of(uri_path);
        let p = chars_of(FASTDL_PREFIX);
        let mut rest: Vec<char> = Vec::new();
        let mut i: usize = p.len();
        while i < v.len()
            invariant
                p@ == FASTDL_PREFIX@,
                v@ == uri_path@,
                p@.len() <= i <= v@.len(),
                rest@ == v@.subrange(p@.len() as int, i as int),
            decreases v@.len() - i,
        {
            rest.push(v[i]);
            i = i + 1;
        }
        assert(rest@ =~= uri_path@.skip(FASTDL_PREFIX@.len() as int));
        Some(crate::text::string_from(rest.as_slice()))
    } else {
        None
    }
}

/// How a refused resolution is answered by the catcher: a forbidden path is answered
/// with 403, anything else is left to the other catchers.
pub fn catch_resolve_error(e: HttpStatus) -> (r: Option<HttpStatus>)
    ensures
        r == (if e == HttpStatus::Forbidden {
            Some(HttpStatus::Forbidden)
        } else {
            None
        }),
{
    if e.code() == 403 {
        Some(HttpStatus::Forbidden)
    } else {
        None
    }
}

// ---------------------------------------------------------------------------
// Directory listings
// ---------------------------------------------------------------------------

/// An entry of a listed directory.
pub struct FileEntry {
    pub name: String,
    pub is_dir: bool,
    /// The size in bytes, for files only.
    pub size: Option<u64>,
}

/// A listed directory: its request path, its parent's, and its entries in order.
pub struct DirectoryListing {
    pub path: String,
    pub parent_path: Option<String>,
    pub entries: Vec<FileEntry>,
}

/// The listing order: directories first, then by name.
pub open spec fn entry_before(a: FileEntry, b: FileEntry) -> bool {
    (a.is_dir && !b.is_dir) || (a.is_dir == b.is_dir && lex_lt(a.name@, b.name@))
}

/// Inserts `x` into a listing-ordered sequence after every entry not after it.
pub open spec fn insert_entry(sorted: Seq<FileEntry>, x: FileEntry) -> Seq<FileEntry>
    decreases sorted.len(),
{
    if sorted.len() == 0 {
        seq![x]
    } else if entry_before(x, sorted.last()) {
        insert_entry(sorted.drop_last(), x).push(sorted.last())
    } else {
        sorted.push(x)
    }
}

/// The first `n` entries in listing order, equal entries kept in their order (a stable
/// sort).
pub open spec fn sorted_entries(entries: Seq<FileEntry>, n: int) -> Seq<FileEntry>
    decreases n,
{
    if n <= 0 {
        seq![]
    } else {
        insert_entry(sorted_entries(entries, n - 1), entries[n - 1])
    }
}

proof fn lemma_insert_entry(s: Seq<FileEntry>, x: FileEntry, pos: int)
    requires
        0 <= pos <= s.len(),
        forall|j: int| pos <= j < s.len() ==> entry_before(x, #[trigger] s[j]),
        pos > 0 ==> !entry_before(x, s[pos - 1]),
    ensures
        insert_entry(s, x) == s.insert(pos, x),
    decreases s.len(),
{
    if s.len() == pos {
        assert(s.insert(pos, x) =~= s.push(x));
        if s.len() == 0 {
            assert(s.push(x) =~= seq![x]);
        }
    } else {
        let d = s.drop_last();
        assert forall|j: int| pos <= j < d.len() implies entry_before(x, #[trigger] d[j]) by {
            assert(d[j] == s[j]);
        }
        if pos > 0 {
            assert(d[pos - 1] == s[pos - 1]);
        }
        assert(entry_before(x, s[s.len() - 1]));
        lemma_insert_entry(d, x, pos);
        assert(d.insert(pos, x).push(s.last()) =~= s.insert(pos, x));
    }
}

/// Sorts entries into listing order (stably).
pub fn sort_entries(entries: Vec<FileEntry>) -> (r: Vec<FileEntry>)
    ensures
        r@ == sorted_entries(entries@, entries@.len() as int),
{
    let ghost orig = entries@;
    let mut input = entries;
    let mut out: Vec<FileEntry> = Vec::new();
    let ghost mut k: int = 0;
    while input.len() > 0
        invariant
            0 <= k <= orig.len(),
            input@ == orig.skip(k),
            out@ == sorted_entries(orig, k),
            out@.len() == k,
        decreases input@.len(),
    {
        proof {
            lemma_sorted_entries_len(orig, k);
        }
        let x = input.remove(0);
        assert(x == orig[k]);
        let mut pos: usize = out.len();
        while pos > 0 && entry_before_exec(&x, &out[pos - 1])
            invariant
                pos <= out@.len(),
                forall|j: int| pos <= j < out@.len() ==> entry_before(x, #[trigger] out@[j]),
            decreases pos,
        {
            pos = pos - 1;
        }
        proof {
            lemma_insert_entry(out@, x, pos as int);
        }
        out.insert(pos, x);
        proof {
            assert(orig.skip(k).drop_first() =~= orig.skip(k + 1));
            k = k + 1;
        }
    }
    proof {
        assert(orig.skip(k).len() == 0);
    }
    out
}

proof fn lemma_sorted_entries_len(entries: Seq<FileEntry>, n: int)
    requires
        0 <= n,
    ensures
        sorted_entries(entries, n).len() == n,
    decreases n,
{
    if n > 0 {
        lemma_sorted_entries_len(entries, n - 1);
        lemma_insert_entry_len(sorted_entries(entries, n - 1), entries[n - 1]);
    }
}

proof fn lemma_insert_entry_len(s: Seq<FileEntry>, x: FileEntry)
    ensures
        insert_entry(s, x).len() == s.len() + 1,
    decreases s.len(),
{
    if s.len() > 0 && entry_before(x, s.last()) {
        lemma_insert_entry_len(s.drop_last(), x);
    }
}

/// Whether entries are in listing order: no entry comes before an earlier one.
pub open spec fn in_listing_order(s: Seq<FileEntry>) -> bool {
    forall|i: int, j: int| 0 <= i < j < s.len() ==> !entry_before(#[trigger] s[j], #[trigger] s[i])
}

/// `entry_before` is a strict weak order: irreflexive, transitive, and whatever comes
/// before `c` comes before `b` or `b` comes before `c`.
proof fn lemma_entry_order(a: FileEntry, b: FileEntry, c: FileEntry)
    ensures
        !entry_before(a, a),
        entry_before(a, b) && entry_before(b, c) ==> entry_before(a, c),
        entry_before(a, c) ==> entry_before(a, b) || entry_before(b, c),
        entry_before(a, b) ==> !entry_before(b, a),
{
    crate::text::lemma_lex_irreflexive(a.name@);
    if lex_lt(a.name@, b.name@) && lex_lt(b.name@, c.name@) {
        crate::text::lemma_lex_transitive(a.name@, b.name@, c.name@);
    }
    if lex_lt(a.name@, b.name@) && lex_lt(b.name@, a.name@) {
        crate::text::lemma_lex_transitive(a.name@, b.name@, a.name@);
    }
    if a.name@ != b.name@ {
        crate::text::lemma_lex_total(a.name@, b.name@);
    }
    if b.name@ != c.name@ {
        crate::text::lemma_lex_total(b.name@, c.name@);
    }
    if lex_lt(a.name@, c.name@) && lex_lt(b.name@, a.name@) {
        crate::text::lemma_lex_transitive(b.name@, a.name@, c.name@);
    }
    if lex_lt(a.name@, c.name@) && lex_lt(c.name@, b.name@) {
        crate::text::lemma_lex_transitive(a.name@, c.name@, b.name@);
    }
}

proof fn lemma_insert_entry_ordered(s: Seq<FileEntry>, x: FileEntry)
    requires
        in_listing_order(s),
    ensures
        in_listing_order(insert_entry(s, x)),
        forall|k: int| 0 <= k < insert_entry(s, x).len() ==> (#[trigger] insert_entry(s, x)[k]) == x || s.contains(
            insert_entry(s, x)[k],
        ),
    decreases s.len(),
{
    lemma_insert_entry_len(s, x);
    if s.len() == 0 {
        assert(insert_entry(s, x) =~= seq![x]);
    } else if entry_before(x, s.last()) {
        let d = s.drop_last();
        let last = s.last();
        assert(in_listing_order(d)) by {
            assert forall|i: int, j: int| 0 <= i < j < d.len() implies !entry_before(#[trigger] d[j], #[trigger] d[i]) by {
                assert(d[i] == s[i] && d[j] == s[j]);
            }
        }
        lemma_insert_entry_ordered(d, x);
        let r = insert_entry(d, x);
        let t = r.push(last);
        assert forall|k: int| 0 <= k < r.len() implies !entry_before(last, #[trigger] r[k]) by {
            if r[k] == x {
                lemma_entry_order(x, last, x);
            } else {
                let m = choose|m: int| 0 <= m < d.len() && d[m] == r[k];
                assert(s[m] == d[m]);
                assert(!entry_before(s[s.len() - 1], s[m]));
            }
        }
        assert forall|i: int, j: int| 0 <= i < j < t.len() implies !entry_before(#[trigger] t[j], #[trigger] t[i]) by {
            assert(t[i] == r[i]);
            if j < r.len() {
                assert(t[j] == r[j]);
            }
        }
        assert forall|k: int| 0 <= k < t.len() implies (#[trigger] t[k]) == x || s.contains(t[k]) by {
            if k < r.len() {
                assert(t[k] == r[k]);
                if r[k] != x {
                    let m = choose|m: int| 0 <= m < d.len() && d[m] == r[k];
                    assert(s[m] == d[m]);
                }
            } else {
                assert(s[s.len() - 1] == t[k]);
            }
        }
    } else {
        let t = s.push(x);
        let last = s.last();
        assert forall|i: int, j: int| 0 <= i < j < t.len() implies !entry_before(#[trigger] t[j], #[trigger] t[i]) by {
            assert(t[i] == s[i]);
            if j < s.len() {
                assert(t[j] == s[j]);
            } else {
                lemma_entry_order(x, last, s[i]);
                if i < s.len() - 1 {
                    assert(!entry_before(s[s.len() - 1], s[i]));
                }
            }
        }
        assert forall|k: int| 0 <= k < t.len() implies (#[trigger] t[k]) == x || s.contains(t[k]) by {
            if k < s.len() {
                assert(t[k] == s[k]);
            }
        }
    }
}

/// Listings are ordered: directories first, then by name.
pub proof fn lemma_listing_ordered(entries: Seq<FileEntry>, n: int)
    ensures
        in_listing_order(sorted_entries(entries, n)),
    decreases n,
{
    if n > 0 {
        lemma_listing_ordered(entries, n - 1);
        lemma_insert_entry_ordered(sorted_entries(entries, n - 1), entries[n - 1]);
    }
}

/// `entry_before` decided.
pub fn entry_before_exec(a: &FileEntry, b: &FileEntry) -> (r: bool)
    ensures
        r == entry_before(*a, *b),
{
    if a.is_dir && !b.is_dir {
        true
    } else if a.is_dir == b.is_dir {
        lex_less_str(&a.name, &b.name)
    } else {
        false
    }
}

/// The parent shown for a listed path: none at the root, else `Path::parent`.
pub open spec fn listing_parent_spec(path: Seq<char>) -> Option<Seq<char>> {
    if path.len() == 0 {
        None
    } else {
        path_parent(path)
    }
}

/// Builds the listing of the directory at request path `path` from its entries.
pub fn directory_listing(path: String, entries: Vec<FileEntry>) -> (l: DirectoryListing)
    ensures
        l.path == path,
        crate::text::opt_string_view(l.parent_path) == listing_parent_spec(path@),
        l.entries@ == sorted_entries(entries@, entries@.len() as int),
{
    let parent_path = if path.as_str().is_empty() {
        None
    } else {
        parent_of(path.as_str())
    };
    let entries = sort_entries(entries);
    DirectoryListing { path, parent_path, entries }
}

/// How a size is shown: whole mebibytes above one, whole kibibytes above one, else bytes;
/// a dash for directories.
pub open spec fn size_text(size: Option<u64>) -> Seq<char> {
    match size {
        None => "-"@,
        Some(s) => if s > 1048576 {
            dec((s / 1048576) as nat) + "M"@
        } else if s > 1024 {
            dec((s / 1024) as nat) + "K"@
        } else {
            dec(s as nat)
        },
    }
}

/// The size column of an entry.
pub fn size_display(size: Option<u64>) -> (r: String)
    ensures
        r@ == size_text(size),
{
    match size {
        None => owned("-"),
        Some(s) => if s > 1048576 {
            let n = u64_to_string(s / 1048576);
            concat(n.as_str(), "M")
        } else if s > 1024 {
            let n = u64_to_string(s / 1024);
            concat(n.as_str(), "K")
        } else {
            u64_to_string(s)
        },
    }
}

/// The link of an entry: its name under the listed path.
pub open spec fn link_path_spec(listing_path: Seq<char>, name: Seq<char>) -> Seq<char> {
    if listing_path.len() == 0 {
        name
    } else {
        listing_path + "/"@ + name
    }
}

/// The link of an entry.
pub fn link_path(listing_path: &str, name: &str) -> (r: String)
    ensures
        r@ == link_path_spec(listing_path@, name@),
{
    if listing_path.is_empty() {
        owned(name)
    } else {
        concat3(listing_path, "/", name)
    }
}

/// The listing page up to the title's path.
pub const HEAD_BEFORE_TITLE: &'static str = r#"<!DOCTYPE html>
<html lang="en">
<head>
    <meta charset="UTF-8">
    <meta name="viewport" content="width=device-width, initial-scale=1.0">
    <title>Index of /fastdl/"#;

/// From the title's end to the heading's path.
pub const HEAD_BEFORE_HEADING: &'static str = r#"</title>
    <style>
        body {
            font-family: 'Consolas', 'Monaco', 'Courier New', monospace;
            margin: 20px;
            background-color: #1a1a1a;
            color: #e0e0e0;
        }
        h1 {
            border-bottom: 2px solid #444;
            padding-bottom: 10px;
            color: #fff;
            text-shadow: 0 0 10px #4a9eff;
        }
        table {
            border-collapse: collapse;
            width: 100%;
            background-color: #2d2d2d;
            border: 1px solid #444;
            border-radius: 8px;
            overflow: hidden;
        }
        th, td {
            text-align: left;
            padding: 12px 16px;
            border-bottom: 1px solid #444;
        }
        th {
            background-color: #3a3a3a;
            font-weight: bold;
            color: #fff;
            text-transform: uppercase;
            font-size: 0.9em;
            letter-spacing: 1px;
        }
        tr:hover {
            background-color: #404040;
            transition: background-color 0.2s ease;
        }
        .dir {
            font-weight: bold;
            color: #4a9eff;
        }
        .dir::before {
            content: "📁 ";
            filter: brightness(1.2);
        }
        .file::before {
            content: "📄 ";
            filter: brightness(1.2);
        }
        .size {
            text-align: right;
            color: #aaa;
            font-family: monospace;
        }
        a {
            text-decoration: none;
            color: #4a9eff;
            transition: color 0.2s ease;
        }
        a:hover {
            color: #66b3ff;
            text-decoration: underline;
            text-shadow: 0 0 5px #4a9eff;
        }
        .parent {
            font-weight: bold;
            color: #ff9500;
        }
        .parent::before {
            content: "⬆️ ";
        }
        .parent:hover {
            color: #ffb84d;
            text-shadow: 0 0 5px #ff9500;
        }
        hr {
            border: none;
            border-top: 1px solid #444;
            margin: 20px 0;
        }
        small {
            color: #888;
            font-style: italic;
        }
    </style>
</head>
<body>
    <h1>Index of /fastdl/"#;

/// From the heading's end to the table body.
pub const HEAD_AFTER_HEADING: &'static str = r#"</h1>
    
    <table>
        <thead>
            <tr>
                <th>Name</th>
                <th>Size</th>
            </tr>
        </thead>
        <tbody>"#;

/// The parent row up to its link's path.
pub const PARENT_ROW_START: &'static str = r#"
            <tr>
                <td><a href="/fastdl/"#;

/// The parent row after its link's path.
pub const PARENT_ROW_END: &'static str = r#"" class="parent">Parent Directory</a></td>
                <td class="size">-</td>
            </tr>"#;

/// An entry row up to its link's path.
pub const ROW_START: &'static str = r#"
            <tr>
                <td>
                    <a href="/fastdl/"#;

/// A directory row between its link and its name.
pub const DIR_ROW_MID: &'static str = r#"/" class="dir">"#;

/// A directory row between its name and its size.
pub const DIR_ROW_SIZE: &'static str = r#"/</a>
                </td>
                <td class="size">"#;

/// An entry row after its size.
pub const ROW_END: &'static str = r#"</td>
            </tr>"#;

/// A file row between its link and its name.
pub const FILE_ROW_MID: &'static str = r#"" class="file">"#;

/// A file row between its name and its size.
pub const FILE_ROW_SIZE: &'static str = r#"</a>
                </td>
                <td class="size">"#;

/// The end of the listing page.
pub const LISTING_FOOTER: &'static str = r#"
        </tbody>
    </table>
    
    <hr>
    <small>Kether FastDL Server</small><br>
    <small>Part of the <a href="https://github.com/KetherPL/Kether.pl-website-server">Kether Internal Services Server</a></small><br>
    <small>Powered by <a href="https://www.rust-lang.org/">Rust</a>, <a href="https://github.com/SergioBenitez/Rocket">Rocket</a> and <a href="https://github.com/smol-rs/smol">Smol</a></small>
</body>
</html>"#;

/// The table row of an entry.
pub open spec fn entry_row(listing_path: Seq<char>, e: FileEntry) -> Seq<char> {
    let link = link_path_spec(listing_path, e.name@);
    if e.is_dir {
        ROW_START@ + link + DIR_ROW_MID@ + e.name@ + DIR_ROW_SIZE@ + size_text(e.size) + ROW_END@
    } else {
        ROW_START@ + link + FILE_ROW_MID@ + e.name@ + FILE_ROW_SIZE@ + size_text(e.size) + ROW_END@
    }
}

/// The rows of the first `n` entries.
pub open spec fn entry_rows(listing_path: Seq<char>, entries: Seq<FileEntry>, n: int) -> Seq<char>
    decreases n,
{
    if n <= 0 {
        seq![]
    } else {
        entry_rows(listing_path, entries, n - 1) + entry_row(listing_path, entries[n - 1])
    }
}

/// The listing page.
pub open spec fn listing_html(l: DirectoryListing) -> Seq<char> {
    HEAD_BEFORE_TITLE@ + l.path@ + HEAD_BEFORE_HEADING@ + l.path@ + HEAD_AFTER_HEADING@ + (match l.parent_path {
        Some(p) => PARENT_ROW_START@ + p@ + PARENT_ROW_END@,
        None => seq![],
    }) + entry_rows(l.path@, l.entries@, l.entries@.len() as int) + LISTING_FOOTER@
}

/// Renders a directory listing as an HTML page.
pub fn render_directory_listing_html(listing: &DirectoryListing) -> (html: String)
    ensures
        html@ == listing_html(*listing),
{
    let mut html = owned(HEAD_BEFORE_TITLE);
    html.append(listing.path.as_str());
    html.append(HEAD_BEFORE_HEADING);
    html.append(listing.path.as_str());
    html.append(HEAD_AFTER_HEADING);
    match &listing.parent_path {
        Some(p) => {
            html.append(PARENT_ROW_START);
            html.append(p.as_str());
            html.append(PARENT_ROW_END);
        },
        None => {},
    }
    let ghost before_rows = html@;
    let n = listing.entries.len();
    let mut i: usize = 0;
    while i < n
        invariant
            i <= n,
            n == listing.entries@.len(),
            html@ == before_rows + entry_rows(listing.path@, listing.entries@, i as int),
        decreases n - i,
    {
        let e = &listing.entries[i];
        let ghost row = entry_row(listing.path@, *e);
        assert(entry_rows(listing.path@, listing.entries@, i + 1) == entry_rows(
            listing.path@,
            listing.entries@,
            i as int,
        ) + row);
        let ghost start = html@;
        let link = link_path(listing.path.as_str(), e.name.as_str());
        let size = size_display(e.size);
        html.append(ROW_START);
        html.append(link.as_str());
        if e.is_dir {
            html.append(DIR_ROW_MID);
            html.append(e.name.as_str());
            html.append(DIR_ROW_SIZE);
        } else {
            html.append(FILE_ROW_MID);
            html.append(e.name.as_str());
            html.append(FILE_ROW_SIZE);
        }
        html.append(size.as_str());
        html.append(ROW_END);
        proof {
            assert(html@ =~= start + row);
        }
        i = i + 1;
    }
    html.append(LISTING_FOOTER);
    html
}

// ---------------------------------------------------------------------------
// Cache headers
// ---------------------------------------------------------------------------

/// The resources that are cached for a year.
pub const CACHED_RESOURCE_PREFIX: &'static str = "/fastdl/l4d2_kether/resource/";

/// The cache policy for FastDL resources.
pub struct FastDLCacheHeaders;

/// The headers added to a response for `uri_path` that has the given `Content-Length`:
/// for cached resources a year-long immutable `Cache-Control` and, when the length is
/// known, an `ETag` quoting it; nothing otherwise.
pub open spec fn cache_headers_spec(uri_path: Seq<char>, content_length: Option<Seq<char>>) -> Seq<
    (Seq<char>, Seq<char>),
> {
    if starts_with(uri_path, CACHED_RESOURCE_PREFIX@) {
        let cache = ("Cache-Control"@, "public, max-age=31536000, immutable"@);
        match content_length {
            Some(len) => seq![cache, ("ETag"@, "\""@ + len + "\""@)],
            None => seq![cache],
        }
    } else {
        seq![]
    }
}

/// The views of a list of headers.
pub open spec fn header_views(h: Seq<(String, String)>) -> Seq<(Seq<char>, Seq<char>)> {
    h.map_values(|p: (String, String)| (p.0@, p.1@))
}

impl FastDLCacheHeaders {
    /// The headers to set on a response for `uri_path` with the given `Content-Length`.
    pub fn headers_for(&self, uri_path: &str, content_length: Option<&str>) -> (h: Vec<(String, String)>)
        ensures
            header_views(h@) == cache_headers_spec(
                uri_path@,
                match content_length {
                    Some(l) => Some(l@),
                    None => None,
                },
            ),
    {
        let mut h: Vec<(String, String)> = Vec::new();
        if str_starts_with(uri_path, CACHED_RESOURCE_PREFIX) {
            h.push((owned("Cache-Control"), owned("public, max-age=31536000, immutable")));
            match content_length {
                Some(len) => {
                    h.push((owned("ETag"), concat3("\"", len, "\"")));
                },
                None => {},
            }
        }
        proof {
            assert(header_views(h@) =~= cache_headers_spec(
                uri_path@,
                match content_length {
                    Some(l) => Some(l@),
                    None => None,
                },
            ));
        }
        h
    }
}

} // verus!
