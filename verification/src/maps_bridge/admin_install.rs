//! Reading an admin's install request: which source a map comes from.
use vstd::prelude::*;
use crate::text::{
    all_digits, chars_of, concat3, contains, first_index, is_digit, owned, parse_u64_spec,
    starts_with, str_contains, str_parse_u64, str_starts_with, string_from, strip_prefix, trim,
    trim_str, lowercased,
};
use crate::text::{dec, trim_end, trim_start};
use crate::maps_bridge::models::workshop_url;

verus! {

/// An admin's request to install a map.
pub struct AdminInstallMapRequest {
    pub mode: String,
    pub input: String,
    pub name: Option<String>,
}

/// The map the daemon installed and how its source was read.
pub struct AdminInstallMapResponse {
    pub map_id: u64,
    pub resolved_mode: String,
}

/// Where a map is to be installed from.
pub enum ResolvedInstallTarget {
    Workshop { workshop_id: u64 },
    Url { url: String },
    L4d2Center { name: String },
}

/// Why an install request could not be read.
pub enum ResolveInstallError {
    EmptyInput,
    InvalidMode(String),
    InvalidInput(String),
}

/// The plain value of an install target.
pub enum TargetSpec {
    Workshop(u64),
    Url(Seq<char>),
    L4d2Center(Seq<char>),
}

/// The plain value of a resolution error.
pub enum ResolveErrorSpec {
    EmptyInput,
    InvalidMode(Seq<char>),
    InvalidInput(Seq<char>),
}

/// The plain value of an install target.
pub open spec fn target_view(t: ResolvedInstallTarget) -> TargetSpec {
    match t {
        ResolvedInstallTarget::Workshop { workshop_id } => TargetSpec::Workshop(workshop_id),
        ResolvedInstallTarget::Url { url } => TargetSpec::Url(url@),
        ResolvedInstallTarget::L4d2Center { name } => TargetSpec::L4d2Center(name@),
    }
}

/// The plain value of a resolution error.
pub open spec fn error_view(e: ResolveInstallError) -> ResolveErrorSpec {
    match e {
        ResolveInstallError::EmptyInput => ResolveErrorSpec::EmptyInput,
        ResolveInstallError::InvalidMode(m) => ResolveErrorSpec::InvalidMode(m@),
        ResolveInstallError::InvalidInput(m) => ResolveErrorSpec::InvalidInput(m@),
    }
}

/// The message shown for a refused install input.
pub open spec fn resolve_error_message(e: ResolveErrorSpec) -> Seq<char> {
    match e {
        ResolveErrorSpec::EmptyInput => "Install input is required"@,
        ResolveErrorSpec::InvalidMode(m) => "Invalid install mode '"@ + m + "'"@,
        ResolveErrorSpec::InvalidInput(m) => m,
    }
}

/// The plain value of a resolution.
pub open spec fn resolution_view(r: Result<ResolvedInstallTarget, ResolveInstallError>) -> Result<
    TargetSpec,
    ResolveErrorSpec,
> {
    match r {
        Ok(t) => Ok(target_view(t)),
        Err(e) => Err(error_view(e)),
    }
}

impl ResolveInstallError {
    /// The message shown for the error.
    pub open spec fn message_spec(&self) -> Seq<char> {
        match self {
            ResolveInstallError::EmptyInput => "Install input is required"@,
            ResolveInstallError::InvalidMode(m) => "Invalid install mode '"@ + m@ + "'"@,
            ResolveInstallError::InvalidInput(m) => m@,
        }
    }

    /// The message shown for the error.
    pub fn message(&self) -> (r: String)
        ensures
            r@ == self.message_spec(),
    {
        match self {
            ResolveInstallError::EmptyInput => owned("Install input is required"),
            ResolveInstallError::InvalidMode(m) => concat3("Invalid install mode '", m.as_str(), "'"),
            ResolveInstallError::InvalidInput(m) => m.clone(),
        }
    }
}

/// The number of bytes a character takes in UTF-8.
pub open spec fn utf8_width(c: char) -> nat {
    if (c as u32) < 0x80 {
        1
    } else if (c as u32) < 0x800 {
        2
    } else if (c as u32) < 0x10000 {
        3
    } else {
        4
    }
}

/// The length in bytes of a string's UTF-8 encoding (`str::len`).
pub open spec fn utf8_len(s: Seq<char>) -> nat
    decreases s.len(),
{
    if s.len() == 0 {
        0
    } else {
        utf8_len(s.drop_last()) + utf8_width(s.last())
    }
}

/// Whether the UTF-8 encoding of a string is longer than `limit` bytes.
pub fn utf8_longer_than(s: &str, limit: usize) -> (r: bool)
    ensures
        r == (utf8_len(s@) > limit),
{
    let v = chars_of(s);
    let mut total: usize = 0;
    let mut i: usize = 0;
    while i < v.len()
        invariant
            i <= v@.len(),
            v@ == s@,
            total == utf8_len(v@.take(i as int)),
            total <= limit,
        decreases v@.len() - i,
    {
        assert(v@.take(i + 1).drop_last() =~= v@.take(i as int));
        let c = v[i] as u32;
        let w: usize = if c < 0x80 {
            1
        } else if c < 0x800 {
            2
        } else if c < 0x10000 {
            3
        } else {
            4
        };
        assert(v@.take(i + 1).last() == v@[i as int]);
        assert(w == utf8_width(v@[i as int]));
        assert(utf8_len(v@.take(i + 1)) == total + w);
        if w > limit - total {
            proof {
                lemma_utf8_len_prefix(v@, i + 1);
                assert(utf8_len(v@.take(i + 1)) > limit);
                assert(utf8_len(v@) > limit);
            }
            return true;
        }
        total = total + w;
        i = i + 1;
    }
    assert(v@.take(v@.len() as int) =~= v@);
    false
}

proof fn lemma_utf8_len_prefix(s: Seq<char>, k: int)
    requires
        0 <= k <= s.len(),
    ensures
        utf8_len(s.take(k)) <= utf8_len(s),
    decreases s.len() - k,
{
    if k < s.len() {
        lemma_utf8_len_prefix(s, k + 1);
        assert(s.take(k + 1).drop_last() =~= s.take(k));
    } else {
        assert(s.take(k) =~= s);
    }
}

/// A trimmed optional name, absent when blank.
pub open spec fn trimmed_name(name: Option<Seq<char>>) -> Option<Seq<char>> {
    match name {
        Some(n) => if trim(n).len() > 0 {
            Some(trim(n))
        } else {
            None
        },
        None => None,
    }
}

/// The trimmed name, absent when blank.
pub fn trim_optional_name(name: &Option<String>) -> (r: Option<String>)
    ensures
        crate::text::opt_string_view(r) == trimmed_name(crate::text::opt_string_view(*name)),
{
    match name {
        Some(n) => {
            let t = trim_str(n.as_str());
            if t.as_str().is_empty() {
                None
            } else {
                Some(t)
            }
        },
        None => None,
    }
}

/// Checks the optional display name of an install: trimmed, absent when blank, and at
/// most 255 bytes.
pub fn validate_optional_install_name(name: &Option<String>) -> (r: Result<Option<String>, String>)
    ensures
        match trimmed_name(crate::text::opt_string_view(*name)) {
            Some(t) => if utf8_len(t) > 255 {
                r matches Err(m) && m@ == "Map name too long (max 255 characters)"@
            } else {
                r matches Ok(Some(v)) && v@ == t
            },
            None => r matches Ok(None),
        },
{
    let trimmed = trim_optional_name(name);
    if let Some(v) = &trimmed {
        if utf8_longer_than(v.as_str(), 255) {
            return Err(owned("Map name too long (max 255 characters)"));
        }
    }
    Ok(trimmed)
}

/// A separator of URL query parts: `?`, `&` or `#`.
pub open spec fn is_query_sep(c: char) -> bool {
    c == '?' || c == '&' || c == '#'
}

/// The workshop ID an `id=` (or `ID=`) query part names, if it parses.
pub open spec fn segment_id(seg: Seq<char>) -> Option<u64> {
    match strip_prefix(seg, "id="@) {
        Some(rest) => parse_u64_spec(rest),
        None => match strip_prefix(seg, "ID="@) {
            Some(rest) => parse_u64_spec(rest),
            None => None,
        },
    }
}

/// The first query part of `s` that names a workshop ID.
pub open spec fn first_segment_id(s: Seq<char>) -> Option<u64>
    decreases s.len(),
{
    let i = first_index(s, |c: char| is_query_sep(c));
    match segment_id(s.take(i as int)) {
        Some(id) => Some(id),
        None => if i < s.len() {
            first_segment_id(s.skip(i as int + 1))
        } else {
            None
        },
    }
}

/// The workshop ID of an install input: a bare number, or the `id` parameter of a Steam
/// Community URL.
pub open spec fn workshop_id_of(input: Seq<char>) -> Option<u64> {
    let t = trim(input);
    if all_digits(t) {
        parse_u64_spec(t)
    } else if !contains(lowercased(t), "steamcommunity.com"@) {
        None
    } else {
        first_segment_id(t)
    }
}

fn segment_id_exec(seg: &str) -> (r: Option<u64>)
    ensures
        r == segment_id(seg@),
{
    proof {
        reveal_strlit("id=");
        reveal_strlit("ID=");
    }
    let v = chars_of(seg);
    if str_starts_with(seg, "id=") || str_starts_with(seg, "ID=") {
        let n = v.len();
        let mut rest: Vec<char> = Vec::new();
        let mut i: usize = 3;
        while i < n
            invariant
                3 <= i <= n,
                n == v@.len(),
                rest@ == v@.subrange(3, i as int),
            decreases n - i,
        {
            rest.push(v[i]);
            i = i + 1;
            assert(rest@ =~= v@.subrange(3, i as int));
        }
        assert(rest@ =~= seg@.skip(3));
        let r = string_from(rest.as_slice());
        str_parse_u64(r.as_str())
    } else {
        None
    }
}

proof fn lemma_first_index_at(s: Seq<char>, f: spec_fn(char) -> bool, i: int)
    requires
        0 <= i <= s.len(),
        i < s.len() ==> f(s[i]),
        forall|j: int| 0 <= j < i ==> !f(#[trigger] s[j]),
    ensures
        first_index(s, f) == i,
    decreases s.len(),
{
    if s.len() > 0 && i > 0 {
        assert forall|j: int| 0 <= j < i - 1 implies !f(#[trigger] s.drop_first()[j]) by {
            assert(s.drop_first()[j] == s[j + 1]);
        }
        if i < s.len() {
            assert(s.drop_first()[i - 1] == s[i]);
        }
        lemma_first_index_at(s.drop_first(), f, i - 1);
    }
}

fn first_segment_id_exec(t: &str) -> (r: Option<u64>)
    ensures
        r == first_segment_id(t@),
{
    let all = chars_of(t);
    let n = all.len();
    let mut start: usize = 0;
    assert(all@.skip(0) =~= all@);
    while start <= n
        invariant
            start <= n,
            n == all@.len(),
            first_segment_id(t@) == first_segment_id(all@.skip(start as int)),
        decreases n - start,
    {
        let ghost rest = all@.skip(start as int);
        let mut e: usize = start;
        while e < n && all[e] != '?' && all[e] != '&' && all[e] != '#'
            invariant
                start <= e <= n,
                n == all@.len(),
                forall|j: int| start <= j < e ==> !is_query_sep(#[trigger] all@[j]),
            decreases n - e,
        {
            e = e + 1;
        }
        proof {
            assert forall|j: int| 0 <= j < e - start implies !is_query_sep(#[trigger] rest[j]) by {
                assert(rest[j] == all@[start + j]);
            }
            if e < n {
                assert(rest[e - start] == all@[e as int]);
            }
            lemma_first_index_at(rest, |c: char| is_query_sep(c), e - start);
        }
        let mut seg: Vec<char> = Vec::new();
        let mut j: usize = start;
        while j < e
            invariant
                start <= j <= e <= n,
                n == all@.len(),
                seg@ == all@.subrange(start as int, j as int),
            decreases e - j,
        {
            seg.push(all[j]);
            j = j + 1;
            assert(seg@ =~= all@.subrange(start as int, j as int));
        }
        assert(seg@ =~= rest.take(e - start));
        let s = string_from(seg.as_slice());
        if let Some(id) = segment_id_exec(s.as_str()) {
            return Some(id);
        }
        if e == n {
            return None;
        }
        assert(rest.skip(e - start + 1) =~= all@.skip(e + 1));
        start = e + 1;
    }
    None
}

/// The workshop ID of an install input: a bare number, or the `id` parameter of a Steam
/// Community URL.
pub fn extract_workshop_id(input: &str) -> (r: Option<u64>)
    ensures
        r == workshop_id_of(input@),
{
    let trimmed = trim_str(input);
    let v = chars_of(trimmed.as_str());
    let mut i: usize = 0;
    let mut digits = true;
    while i < v.len()
        invariant
            i <= v@.len(),
            digits == (forall|j: int| 0 <= j < i ==> is_digit(#[trigger] v@[j])),
        decreases v@.len() - i,
    {
        if !crate::text::is_ascii_digit(v[i]) {
            digits = false;
        }
        i = i + 1;
    }
    if digits {
        return str_parse_u64(trimmed.as_str());
    }
    let lower = crate::text::to_lowercase(trimmed.as_str());
    if !str_contains(lower.as_str(), "steamcommunity.com") {
        return None;
    }
    first_segment_id_exec(trimmed.as_str())
}

/// Whether an input is an HTTP or HTTPS URL, ignoring case and surrounding whitespace.
pub open spec fn is_http_url_spec(input: Seq<char>) -> bool {
    let lower = lowercased(trim(input));
    starts_with(lower, "http://"@) || starts_with(lower, "https://"@)
}

fn is_http_url(input: &str) -> (r: bool)
    ensures
        r == is_http_url_spec(input@),
{
    let t = trim_str(input);
    let lower = crate::text::to_lowercase(t.as_str());
    str_starts_with(lower.as_str(), "http://") || str_starts_with(lower.as_str(), "https://")
}

/// A download URL check: an HTTP(S) URL of at most 2048 bytes, trimmed.
pub open spec fn http_url_check(input: Seq<char>) -> Result<Seq<char>, Seq<char>> {
    let t = trim(input);
    if !is_http_url_spec(t) {
        Err("Expected an HTTP or HTTPS URL"@)
    } else if utf8_len(t) > 2048 {
        Err("URL too long (max 2048 characters)"@)
    } else {
        Ok(t)
    }
}

fn validate_http_url(input: &str) -> (r: Result<String, ResolveInstallError>)
    ensures
        match http_url_check(input@) {
            Ok(u) => r matches Ok(v) && v@ == u,
            Err(m) => r matches Err(e) && error_view(e) == ResolveErrorSpec::InvalidInput(m),
        },
{
    let trimmed = trim_str(input);
    if !is_http_url(trimmed.as_str()) {
        return Err(ResolveInstallError::InvalidInput(owned("Expected an HTTP or HTTPS URL")));
    }
    if utf8_longer_than(trimmed.as_str(), 2048) {
        return Err(ResolveInstallError::InvalidInput(owned("URL too long (max 2048 characters)")));
    }
    Ok(trimmed)
}

/// How an install request resolves: the mode, trimmed and lower-cased, picks the reading
/// of the trimmed input; `auto` tries a workshop ID, then a download URL.
pub open spec fn resolve_spec(mode: Seq<char>, input: Seq<char>) -> Result<TargetSpec, ResolveErrorSpec> {
    let t = trim(input);
    let m = lowercased(trim(mode));
    if t.len() == 0 {
        Err(ResolveErrorSpec::EmptyInput)
    } else if m == "workshop"@ {
        match workshop_id_of(t) {
            Some(id) => Ok(TargetSpec::Workshop(id)),
            None => Err(ResolveErrorSpec::InvalidInput("Expected a workshop ID or Steam Workshop URL"@)),
        }
    } else if m == "sirplease"@ {
        match http_url_check(t) {
            Ok(u) => Ok(TargetSpec::Url(u)),
            Err(e) => Err(ResolveErrorSpec::InvalidInput(e)),
        }
    } else if m == "l4d2center"@ {
        Ok(TargetSpec::L4d2Center(t))
    } else if m == "auto"@ {
        match workshop_id_of(t) {
            Some(id) => Ok(TargetSpec::Workshop(id)),
            None => if is_http_url_spec(t) {
                match http_url_check(t) {
                    Ok(u) => Ok(TargetSpec::Url(u)),
                    Err(e) => Err(ResolveErrorSpec::InvalidInput(e)),
                }
            } else {
                Err(
                    ResolveErrorSpec::InvalidInput(
                        "Could not detect install source. Use a workshop ID, Steam Workshop URL, or download URL."@,
                    ),
                )
            },
        }
    } else {
        Err(ResolveErrorSpec::InvalidMode(m))
    }
}

/// What every reading of an install request satisfies, in terms of its inputs: in
/// `workshop` mode the target is a workshop item exactly when the input names one (as
/// `extract_workshop_id` reads it), and in `workshop` and `auto` mode a bare number names
/// the workshop item with that ID.
pub open spec fn install_target_laws(mode: Seq<char>, input: Seq<char>, r: Result<TargetSpec, ResolveErrorSpec>) -> bool {
    let t = trim(input);
    let m = lowercased(trim(mode));
    &&& (t.len() > 0 && m == "workshop"@) ==> (forall|id: u64|
        #[trigger] workshop_id_of(input) == Some(id) <==> r == Ok::<TargetSpec, ResolveErrorSpec>(
            TargetSpec::Workshop(id),
        ))
    &&& (t.len() > 0 && m == "workshop"@ && workshop_id_of(input) is None) ==> r is Err
    &&& forall|id: u64|
        (m == "workshop"@ || m == "auto"@) && t.len() > 0 && all_digits(t) && #[trigger] parse_u64_spec(t) == Some(
            id,
        ) ==> r == Ok::<TargetSpec, ResolveErrorSpec>(TargetSpec::Workshop(id))
}

/// The laws hold of the reading of every request.
pub proof fn lemma_install_target_laws(mode: Seq<char>, input: Seq<char>)
    ensures
        install_target_laws(mode, input, resolve_spec(mode, input)),
{
    let t = trim(input);
    let m = lowercased(trim(mode));
    let r = resolve_spec(mode, input);
    crate::text::lemma_trim_idempotent(input);
    assert(trim(t) == t);
    assert(workshop_id_of(t) == workshop_id_of(input));
    if t.len() > 0 && all_digits(t) {
        assert(workshop_id_of(input) == parse_u64_spec(t));
    }
    if t.len() > 0 && m == "workshop"@ {
        assert forall|id: u64| #[trigger] workshop_id_of(input) == Some(id) <==> r == Ok::<TargetSpec, ResolveErrorSpec>(
            TargetSpec::Workshop(id),
        ) by {}
    }
    reveal_strlit("workshop");
    reveal_strlit("auto");
    reveal_strlit("sirplease");
    reveal_strlit("l4d2center");
    if m == "auto"@ {
        assert(m != "workshop"@ && m != "sirplease"@ && m != "l4d2center"@) by {
            assert(m[0] == 'a');
        }
    }
    assert forall|id: u64|
        (m == "workshop"@ || m == "auto"@) && t.len() > 0 && all_digits(t) && #[trigger] parse_u64_spec(t) == Some(
            id,
        ) implies r == Ok::<TargetSpec, ResolveErrorSpec>(TargetSpec::Workshop(id)) by {}
}

/// Reads an install request: where the map comes from, by mode and input.
pub fn resolve_install_target(mode: &str, input: &str) -> (r: Result<ResolvedInstallTarget, ResolveInstallError>)
    ensures
        resolution_view(r) == resolve_spec(mode@, input@),
        install_target_laws(mode@, input@, resolution_view(r)),
{
    let r = read_install_target(mode, input);
    proof {
        lemma_install_target_laws(mode@, input@);
    }
    r
}

fn read_install_target(mode: &str, input: &str) -> (r: Result<ResolvedInstallTarget, ResolveInstallError>)
    ensures
        resolution_view(r) == resolve_spec(mode@, input@),
{
    let trimmed = trim_str(input);
    if trimmed.as_str().is_empty() {
        return Err(ResolveInstallError::EmptyInput);
    }
    let m = crate::text::to_lowercase(trim_str(mode).as_str());
    if crate::text::str_eq(m.as_str(), "workshop") {
        match extract_workshop_id(trimmed.as_str()) {
            Some(id) => Ok(ResolvedInstallTarget::Workshop { workshop_id: id }),
            None => Err(ResolveInstallError::InvalidInput(owned("Expected a workshop ID or Steam Workshop URL"))),
        }
    } else if crate::text::str_eq(m.as_str(), "sirplease") {
        match validate_http_url(trimmed.as_str()) {
            Ok(u) => Ok(ResolvedInstallTarget::Url { url: u }),
            Err(e) => Err(e),
        }
    } else if crate::text::str_eq(m.as_str(), "l4d2center") {
        Ok(ResolvedInstallTarget::L4d2Center { name: trimmed })
    } else if crate::text::str_eq(m.as_str(), "auto") {
        if let Some(id) = extract_workshop_id(trimmed.as_str()) {
            return Ok(ResolvedInstallTarget::Workshop { workshop_id: id });
        }
        if is_http_url(trimmed.as_str()) {
            return match validate_http_url(trimmed.as_str()) {
                Ok(u) => Ok(ResolvedInstallTarget::Url { url: u }),
                Err(e) => Err(e),
            };
        }
        Err(
            ResolveInstallError::InvalidInput(
                owned("Could not detect install source. Use a workshop ID, Steam Workshop URL, or download URL."),
            ),
        )
    } else {
        Err(ResolveInstallError::InvalidMode(m))
    }
}

/// The name of the mode a target was resolved to.
pub open spec fn mode_label(t: TargetSpec) -> Seq<char> {
    match t {
        TargetSpec::Workshop(_) => "workshop"@,
        TargetSpec::Url(_) => "url"@,
        TargetSpec::L4d2Center(_) => "l4d2center"@,
    }
}

/// The name of the mode a target was resolved to.
pub fn resolved_mode_label(target: &ResolvedInstallTarget) -> (r: &'static str)
    ensures
        r@ == mode_label(target_view(*target)),
{
    match target {
        ResolvedInstallTarget::Workshop { .. } => "workshop",
        ResolvedInstallTarget::Url { .. } => "url",
        ResolvedInstallTarget::L4d2Center { .. } => "l4d2center",
    }
}

/// The Steam Workshop page of an item names the item: reading its URL as an install input
/// gives the workshop ID back, for every ID.
pub proof fn lemma_workshop_url_round_trip(workshop_id: u64)
    ensures
        workshop_id_of(workshop_url(workshop_id)) == Some(workshop_id),
{
    let p = "https://steamcommunity.com/sharedfiles/filedetails/?id="@;
    reveal_strlit("https://steamcommunity.com/sharedfiles/filedetails/?id=");
    reveal_strlit("steamcommunity.com");
    reveal_strlit("id=");
    reveal_strlit("ID=");
    let d = dec(workshop_id as nat);
    crate::text::lemma_dec_digits(workshop_id as nat);
    crate::text::lemma_parse_dec_u64(workshop_id);
    let u = workshop_url(workshop_id);
    assert(u == p + d);
    assert(p.len() == 55);
    assert(u.len() == 55 + d.len());
    // no surrounding whitespace
    assert(u[0] == 'h');
    assert(!crate::text::is_ws(u[0]));
    assert(trim_start(u) == u);
    assert(u.last() == d.last());
    assert(is_digit(d[d.len() - 1]));
    assert(!crate::text::is_ws(u.last()));
    assert(trim_end(u) == u);
    assert(trim(u) == u);
    // not a bare number
    assert(!is_digit(u[0]));
    assert(!all_digits(u));
    // the lower-cased URL names Steam Community
    assert forall|i: int| 0 <= i < u.len() implies (#[trigger] u[i] as u32) < 128 by {
        if i < 55 {
            assert(u[i] == p[i]);
        } else {
            assert(u[i] == d[i - 55]);
            assert(is_digit(d[i - 55]));
        }
    }
    assert(crate::text::all_ascii(u));
    let l = crate::text::ascii_lower(u);
    assert(lowercased(u) == l);
    let host = "steamcommunity.com"@;
    assert(l.subrange(8, 26) =~= host) by {
        assert forall|i: int| 0 <= i < 18 implies l.subrange(8, 26)[i] == host[i] by {
            assert(u[8 + i] == p[8 + i]);
        }
    }
    assert(crate::text::occurs_at(l, host, 8));
    assert(contains(l, host));
    // the query part after `?` is `id=<digits>`
    let sep = |c: char| is_query_sep(c);
    assert forall|j: int| 0 <= j < 51 implies !sep(#[trigger] u[j]) by {
        assert(u[j] == p[j]);
    }
    assert(u[51] == '?');
    crate::text::lemma_first_index(u, sep, 51);
    let head = u.take(51);
    assert(head[0] == 'h');
    assert(head.subrange(0, 3)[0] == 'h');
    assert("id="@[0] == 'i' && "ID="@[0] == 'I');
    assert(head.subrange(0, 3) != "id="@);
    assert(head.subrange(0, 3) != "ID="@);
    assert(strip_prefix(head, "id="@) is None);
    assert(strip_prefix(head, "ID="@) is None);
    assert(segment_id(head) is None);
    let t = u.skip(52);
    assert(t =~= "id="@ + d);
    assert forall|j: int| 0 <= j < t.len() implies !sep(#[trigger] t[j]) by {
        if j < 3 {
        } else {
            assert(t[j] == d[j - 3]);
            assert(is_digit(d[j - 3]));
        }
    }
    crate::text::lemma_first_index(t, sep, t.len() as int);
    assert(t.take(t.len() as int) =~= t);
    assert(starts_with(t, "id="@)) by {
        assert(t.subrange(0, 3) =~= "id="@);
    }
    assert(t.skip(3) =~= d);
    assert(segment_id(t) == Some(workshop_id));
    assert(first_segment_id(t) == Some(workshop_id));
    assert(first_segment_id(u) == Some(workshop_id));
}

} // verus!
