//! Steam OpenID sign-in: callback parameters, the verification exchange and its outcome.
use vstd::prelude::*;
use crate::auth::session::{
    build_session_cookie, clear_session_cookie, expiry_spec, minted_token, mint_session, session_cookie_shape,
    ttl_hours_in_range, AuthUser, SessionCookie,
};
use crate::config::{hours_to_secs_saturating, Config};
use crate::http::HttpStatus;
use crate::json_api::utils::ok_status;
use crate::text::{
    all_digits, chars_of, opt_string_view, dec_int, digits_value, first_index, i64_to_string, is_digit, owned,
    parse_i64_spec, starts_with, str_parse_i64, str_starts_with, strip_prefix, string_from, trim,
    trim_chars,
};

verus! {

/// Where Steam answers OpenID verification requests.
pub const STEAM_OPENID_ENDPOINT: &'static str = "https://steamcommunity.com/openid/login";

/// The prefix of a Steam OpenID claimed identity; the Steam ID follows it.
pub const STEAM_CLAIMED_ID_PREFIX: &'static str = "https://steamcommunity.com/openid/id/";

/// What `urlencoding::decode` returns for a string: the percent-decoded text, or `None`
/// when the decoded bytes are not UTF-8.
pub uninterp spec fn percent_decoded(s: Seq<char>) -> Option<Seq<char>>;

/// `urlencoding::decode`. The result is a function of the input; a string without `%`
/// comes back unchanged (the crate returns it borrowed as is).
#[verifier::external_body]
fn url_decode(s: &str) -> (r: Option<String>)
    ensures
        opt_string_view(r) == percent_decoded(s@),
        !s@.contains('%') ==> opt_string_view(r) == Some(s@),
{
    urlencoding::decode(s).ok().map(|c| c.into_owned())
}

/// A query component, percent-decoded when that gives UTF-8 text, else as it came.
pub open spec fn decoded_or_raw(s: Seq<char>) -> Seq<char> {
    match percent_decoded(s) {
        Some(d) => d,
        None => s,
    }
}

/// Percent-decodes a query component, keeping it as it came when decoding fails.
pub fn decode_or_keep(s: &str) -> (r: String)
    ensures
        r@ == decoded_or_raw(s@),
{
    match url_decode(s) {
        Some(d) => d,
        None => owned(s),
    }
}

/// The `openid.` parameters of a Steam callback, in query order. A key that occurs twice
/// takes its last value.
pub struct OpenIdParams(pub Vec<(String, String)>);

/// The plain values of key-value pairs.
pub open spec fn pairs_view(v: Seq<(String, String)>) -> Seq<(Seq<char>, Seq<char>)> {
    v.map_values(|p: (String, String)| (p.0@, p.1@))
}

/// The value of a key: that of its last occurrence.
pub open spec fn lookup(s: Seq<(Seq<char>, Seq<char>)>, k: Seq<char>) -> Option<Seq<char>>
    decreases s.len(),
{
    if s.len() == 0 {
        None
    } else if s.last().0 == k {
        Some(s.last().1)
    } else {
        lookup(s.drop_last(), k)
    }
}

/// The `openid.` query segments, keys and values decoded.
pub open spec fn openid_pairs(s: Seq<(Seq<char>, Seq<char>)>) -> Seq<(Seq<char>, Seq<char>)>
    decreases s.len(),
{
    if s.len() == 0 {
        seq![]
    } else {
        let rest = openid_pairs(s.drop_last());
        if starts_with(s.last().0, "openid."@) {
            rest.push((decoded_or_raw(s.last().0), decoded_or_raw(s.last().1)))
        } else {
            rest
        }
    }
}

/// Collects the `openid.` parameters of a callback query; a request without a query or
/// without such parameters is a `BadRequest`.
pub fn openid_params_from_query(segments: Option<&[(String, String)]>) -> (r: Result<
    OpenIdParams,
    HttpStatus,
>)
    ensures
        match segments {
            None => r == Err::<OpenIdParams, HttpStatus>(HttpStatus::BadRequest),
            Some(s) => {
                let pairs = openid_pairs(pairs_view(s@));
                match r {
                    Ok(p) => pairs.len() > 0 && pairs_view(p.0@) == pairs,
                    Err(e) => pairs.len() == 0 && e == HttpStatus::BadRequest,
                }
            },
        },
{
    let s = match segments {
        None => {
            return Err(HttpStatus::BadRequest);
        },
        Some(s) => s,
    };
    let mut out: Vec<(String, String)> = Vec::new();
    let mut i: usize = 0;
    while i < s.len()
        invariant
            i <= s@.len(),
            pairs_view(out@) == openid_pairs(pairs_view(s@).take(i as int)),
        decreases s@.len() - i,
    {
        let ghost pre = pairs_view(s@).take(i as int);
        assert(pairs_view(s@).take(i + 1).drop_last() =~= pre);
        if str_starts_with(s[i].0.as_str(), "openid.") {
            let k = decode_or_keep(s[i].0.as_str());
            let v = decode_or_keep(s[i].1.as_str());
            out.push((k, v));
            assert(pairs_view(out@) =~= openid_pairs(pre).push((k@, v@)));
        }
        i = i + 1;
    }
    assert(pairs_view(s@).take(s@.len() as int) =~= pairs_view(s@));
    if out.len() == 0 {
        return Err(HttpStatus::BadRequest);
    }
    Ok(OpenIdParams(out))
}

/// The value of a parameter.
pub fn param_value<'a>(params: &'a OpenIdParams, key: &str) -> (r: Option<&'a String>)
    ensures
        match r {
            Some(found) => lookup(pairs_view(params.0@), key@) == Some(found@),
            None => lookup(pairs_view(params.0@), key@) is None,
        },
{
    let n = params.0.len();
    let mut i: usize = n;
    assert(pairs_view(params.0@).take(n as int) =~= pairs_view(params.0@));
    while i > 0
        invariant
            i <= n,
            n == params.0@.len(),
            lookup(pairs_view(params.0@), key@) == lookup(pairs_view(params.0@).take(i as int), key@),
        decreases i,
    {
        let ghost pre = pairs_view(params.0@).take(i as int);
        assert(pre.drop_last() =~= pairs_view(params.0@).take(i - 1));
        assert(pre.last() == (params.0@[i - 1].0@, params.0@[i - 1].1@));
        assert(pre.len() == i);
        if crate::text::str_eq(params.0[i - 1].0.as_str(), key) {
            assert(lookup(pre, key@) == Some(pre.last().1));
            let found = &params.0[i - 1].1;
            assert(found@ == pre.last().1);
            return Some(found);
        }
        i = i - 1;
    }
    None
}

/// A Steam callback must report a positive assertion (`openid.mode=id_res`).
pub fn check_openid_mode(params: &OpenIdParams) -> (r: Result<(), HttpStatus>)
    ensures
        r is Ok <==> lookup(pairs_view(params.0@), "openid.mode"@) == Some("id_res"@),
        r is Err ==> r == Err::<(), HttpStatus>(HttpStatus::BadRequest),
{
    match param_value(params, "openid.mode") {
        Some(m) => if crate::text::str_eq(m.as_str(), "id_res") {
            Ok(())
        } else {
            Err(HttpStatus::BadRequest)
        },
        None => Err(HttpStatus::BadRequest),
    }
}

/// The parameters sent back to Steam to verify an assertion: the callback's, with the
/// mode set to `check_authentication`.
pub fn verification_params(params: &OpenIdParams) -> (r: Vec<(String, String)>)
    ensures
        pairs_view(r@) == pairs_view(params.0@).push(("openid.mode"@, "check_authentication"@)),
{
    let mut out: Vec<(String, String)> = Vec::new();
    let mut i: usize = 0;
    while i < params.0.len()
        invariant
            i <= params.0@.len(),
            out@.len() == i,
            pairs_view(out@) == pairs_view(params.0@).take(i as int),
        decreases params.0@.len() - i,
    {
        let k = params.0[i].0.clone();
        let v = params.0[i].1.clone();
        let ghost before = out@;
        out.push((k, v));
        proof {
            assert(out@[i as int].0@ == params.0@[i as int].0@);
            assert(out@[i as int].1@ == params.0@[i as int].1@);
            assert forall|j: int| 0 <= j < i + 1 implies #[trigger] pairs_view(out@)[j] == pairs_view(
                params.0@,
            ).take(i + 1)[j] by {
                if j < i {
                    assert(out@[j] == before[j]);
                    assert(pairs_view(before)[j] == pairs_view(params.0@).take(i as int)[j]);
                }
            }
        }
        i = i + 1;
        assert(pairs_view(out@) =~= pairs_view(params.0@).take(i as int));
    }
    let ghost before = out@;
    assert(pairs_view(before) =~= pairs_view(params.0@).take(params.0@.len() as int));
    assert(pairs_view(params.0@).take(params.0@.len() as int) =~= pairs_view(params.0@));
    out.push((owned("openid.mode"), owned("check_authentication")));
    assert forall|j: int| 0 <= j < before.len() implies #[trigger] pairs_view(out@)[j] == pairs_view(
        before,
    )[j] by {
        assert(out@[j] == before[j]);
    }
    assert(pairs_view(out@) =~= pairs_view(params.0@).push(("openid.mode"@, "check_authentication"@)));
    out
}

/// A line of Steam's verification answer that reads `is_valid:true`, up to whitespace
/// around the key and the value.
pub open spec fn line_is_valid(line: Seq<char>) -> bool {
    let i = first_index(line, |c: char| c == ':');
    i < line.len() && trim(line.take(i as int)) == "is_valid"@ && trim(line.skip(i as int + 1)) == "true"@
}

/// Whether some line of the answer reads `is_valid:true`.
pub open spec fn body_is_valid(body: Seq<char>) -> bool
    decreases body.len(),
{
    let i = first_index(body, |c: char| c == '\n');
    line_is_valid(body.take(i as int)) || (i < body.len() && body_is_valid(body.skip(i as int + 1)))
}

proof fn lemma_first_index_bound(s: Seq<char>, f: spec_fn(char) -> bool)
    ensures
        first_index(s, f) <= s.len(),
        first_index(s, f) < s.len() ==> f(s[first_index(s, f) as int]),
        forall|j: int| 0 <= j < first_index(s, f) ==> !f(#[trigger] s[j]),
    decreases s.len(),
{
    if s.len() > 0 && !f(s[0]) {
        lemma_first_index_bound(s.drop_first(), f);
        assert forall|j: int| 0 <= j < first_index(s, f) implies !f(#[trigger] s[j]) by {
            if j > 0 {
                assert(s[j] == s.drop_first()[j - 1]);
            }
        }
        if first_index(s, f) < s.len() {
            assert(s[first_index(s, f) as int] == s.drop_first()[first_index(s.drop_first(), f) as int]);
        }
    }
}

proof fn lemma_first_index_at(s: Seq<char>, f: spec_fn(char) -> bool, i: int)
    requires
        0 <= i <= s.len(),
        i < s.len() ==> f(s[i]),
        forall|j: int| 0 <= j < i ==> !f(#[trigger] s[j]),
    ensures
        first_index(s, f) == i,
    decreases s.len(),
{
    if s.len() > 0 && i > 0 {
        assert forall|j: int| 0 <= j < i - 1 implies !f(#[trigger] s.drop_first()[j]) by {
            assert(s.drop_first()[j] == s[j + 1]);
        }
        if i < s.len() {
            assert(s.drop_first()[i - 1] == s[i]);
        }
        lemma_first_index_at(s.drop_first(), f, i - 1);
    }
}

fn line_valid_exec(line: &[char]) -> (r: bool)
    ensures
        r == line_is_valid(line@),
{
    let n = line.len();
    let mut i: usize = 0;
    while i < n && line[i] != ':'
        invariant
            i <= n,
            n == line@.len(),
            forall|j: int| 0 <= j < i ==> line@[j] != ':',
        decreases n - i,
    {
        i = i + 1;
    }
    proof {
        lemma_first_index_at(line@, |c: char| c == ':', i as int);
    }
    if i == n {
        return false;
    }
    let mut key: Vec<char> = Vec::new();
    let mut j: usize = 0;
    while j < i
        invariant
            j <= i < n,
            n == line@.len(),
            key@ == line@.take(j as int),
        decreases i - j,
    {
        key.push(line[j]);
        j = j + 1;
        assert(key@ =~= line@.take(j as int));
    }
    let mut value: Vec<char> = Vec::new();
    let mut m: usize = i + 1;
    while m < n
        invariant
            i < m <= n || m == i + 1,
            i < n,
            n == line@.len(),
            value@ == line@.subrange(i + 1, m as int),
        decreases n - m,
    {
        value.push(line[m]);
        m = m + 1;
        assert(value@ =~= line@.subrange(i + 1, m as int));
    }
    assert(value@ =~= line@.skip(i + 1));
    let k = trim_chars(key.as_slice());
    let v = trim_chars(value.as_slice());
    let kk = string_from(k.as_slice());
    let vv = string_from(v.as_slice());
    crate::text::str_eq(kk.as_str(), "is_valid") && crate::text::str_eq(vv.as_str(), "true")
}

/// Whether Steam's verification answer confirms the assertion: some line reads
/// `is_valid:true`.
pub fn openid_body_is_valid(body: &str) -> (r: bool)
    ensures
        r == body_is_valid(body@),
{
    let all = chars_of(body);
    let n = all.len();
    let mut start: usize = 0;
    assert(all@.skip(0) =~= all@);
    while start <= n
        invariant
            start <= n + 1,
            n == all@.len(),
            start <= n ==> body_is_valid(body@) == body_is_valid(all@.skip(start as int)),
            start > n ==> !body_is_valid(body@),
        decreases n + 1 - start,
    {
        let ghost rest = all@.skip(start as int);
        let mut e: usize = start;
        while e < n && all[e] != '\n'
            invariant
                start <= e <= n,
                n == all@.len(),
                forall|j: int| start <= j < e ==> all@[j] != '\n',
            decreases n - e,
        {
            e = e + 1;
        }
        proof {
            assert forall|j: int| 0 <= j < e - start implies #[trigger] rest[j] != '\n' by {
                assert(rest[j] == all@[start + j]);
            }
            if e < n {
                assert(rest[e - start] == all@[e as int]);
            }
            lemma_first_index_at(rest, |c: char| c == '\n', e - start);
        }
        let mut line: Vec<char> = Vec::new();
        let mut j: usize = start;
        while j < e
            invariant
                start <= j <= e <= n,
                n == all@.len(),
                line@ == all@.subrange(start as int, j as int),
            decreases e - j,
        {
            line.push(all[j]);
            j = j + 1;
            assert(line@ =~= all@.subrange(start as int, j as int));
        }
        assert(line@ =~= rest.take(e - start));
        if line_valid_exec(line.as_slice()) {
            return true;
        }
        if e == n {
            return false;
        }
        assert(rest.skip(e - start + 1) =~= all@.skip(e + 1));
        start = e + 1;
    }
    false
}

/// A Steam ID in the claimed identity: the prefix, then exactly 17 ASCII digits.
pub open spec fn claimed_steam_id(claimed_id: Seq<char>) -> Option<i64> {
    match strip_prefix(claimed_id, STEAM_CLAIMED_ID_PREFIX@) {
        Some(rest) => if rest.len() == 17 && all_digits(rest) {
            Some(digits_value(rest) as i64)
        } else {
            None
        },
        None => None,
    }
}

/// Powers of ten.
pub open spec fn pow10(n: nat) -> nat
    decreases n,
{
    if n == 0 {
        1
    } else {
        10 * pow10((n - 1) as nat)
    }
}

proof fn lemma_digits_value_bound(s: Seq<char>)
    requires
        all_digits(s),
    ensures
        digits_value(s) < pow10(s.len()),
    decreases s.len(),
{
    if s.len() > 0 {
        let p = s.drop_last();
        assert(all_digits(p)) by {
            assert forall|i: int| 0 <= i < p.len() implies is_digit(#[trigger] p[i]) by {
                assert(p[i] == s[i]);
            }
        }
        lemma_digits_value_bound(p);
        assert(is_digit(s[s.len() - 1]));
        let d = ((s.last() as u32) - 48) as nat;
        assert(d <= 9);
        assert(digits_value(s) == digits_value(p) * 10 + d);
        assert(digits_value(p) * 10 + d < pow10(p.len()) * 10) by (nonlinear_arith)
            requires
                digits_value(p) < pow10(p.len()),
                d <= 9,
        ;
    }
}

/// Reads the Steam ID of a claimed identity URL.
pub fn parse_steam_id_from_claimed_id(claimed_id: &str) -> (r: Option<i64>)
    ensures
        r == claimed_steam_id(claimed_id@),
{
    let prefix = STEAM_CLAIMED_ID_PREFIX;
    if !str_starts_with(claimed_id, prefix) {
        return None;
    }
    let v = chars_of(claimed_id);
    let p = chars_of(prefix);
    let n = v.len();
    let mut rest: Vec<char> = Vec::new();
    let mut i: usize = p.len();
    while i < n
        invariant
            p@.len() <= i <= n,
            n == v@.len(),
            rest@ == v@.subrange(p@.len() as int, i as int),
        decreases n - i,
    {
        rest.push(v[i]);
        i = i + 1;
        assert(rest@ =~= v@.subrange(p@.len() as int, i as int));
    }
    assert(rest@ =~= claimed_id@.skip(prefix@.len() as int));
    if rest.len() != 17 {
        return None;
    }
    let mut k: usize = 0;
    while k < 17
        invariant
            k <= 17,
            rest@.len() == 17,
            rest@ == claimed_id@.skip(STEAM_CLAIMED_ID_PREFIX@.len() as int),
            starts_with(claimed_id@, STEAM_CLAIMED_ID_PREFIX@),
            forall|j: int| 0 <= j < k ==> is_digit(#[trigger] rest@[j]),
        decreases 17 - k,
    {
        if !crate::text::is_ascii_digit(rest[k]) {
            return None;
        }
        k = k + 1;
    }
    proof {
        lemma_digits_value_bound(rest@);
        reveal_with_fuel(pow10, 18);
        assert(rest@[0] != '-' && rest@[0] != '+') by {
            assert(is_digit(rest@[0]));
        }
        assert(crate::text::unsigned_body(rest@) == rest@);
    }
    let s = string_from(rest.as_slice());
    str_parse_i64(s.as_str())
}

/// What `/auth/me` answers: the user's Steam ID and whether they are a frontend admin.
pub struct MeResponse {
    pub steamid: String,
    pub is_admin: bool,
}

/// The session introspection answer for an authenticated user.
pub fn auth_me(user: &AuthUser, config: &Config) -> (r: MeResponse)
    ensures
        r.steamid@ == dec_int(user.0 as int),
        r.is_admin == config.frontend_admins@.contains(user.0),
{
    MeResponse { steamid: i64_to_string(user.0), is_admin: config.is_admin(user.0) }
}

/// Signing out: the cookie that clears the session, and `200 OK`.
pub fn auth_logout(config: &Config, api_origin: &str) -> (r: (SessionCookie, HttpStatus))
    ensures
        session_cookie_shape(r.0, *config, api_origin@),
        r.0.value@ == Seq::<char>::empty(),
        r.0.max_age_secs == 0,
        r.1 == HttpStatus::Success,
{
    (clear_session_cookie(config, api_origin), ok_status())
}

/// CORS preflight for the Steam callback.
pub fn options_steam_callback() -> (s: HttpStatus)
    ensures
        s == HttpStatus::Success,
{
    ok_status()
}

/// CORS preflight for `/auth/me`.
pub fn options_auth_me() -> (s: HttpStatus)
    ensures
        s == HttpStatus::Success,
{
    ok_status()
}

/// CORS preflight for `/auth/logout`.
pub fn options_auth_logout() -> (s: HttpStatus)
    ensures
        s == HttpStatus::Success,
{
    ok_status()
}

/// A finished Steam sign-in: the session cookie and where to send the browser.
pub struct SignIn {
    pub cookie: SessionCookie,
    pub redirect_to: String,
}

/// Completes a Steam callback whose assertion Steam has confirmed: reads the Steam ID of
/// the claimed identity (`BadRequest` when it is missing or malformed), mints a session
/// for it and sets the session cookie, then redirects to the frontend.
pub fn complete_steam_login(params: &OpenIdParams, config: &Config, api_origin: &str) -> (r: Result<
    SignIn,
    HttpStatus,
>)
    requires
        ttl_hours_in_range(config.auth_session_ttl_hours),
    ensures
        match lookup(pairs_view(params.0@), "openid.claimed_id"@) {
            None => r == Err::<SignIn, HttpStatus>(HttpStatus::BadRequest),
            Some(c) => match claimed_steam_id(c) {
                None => r == Err::<SignIn, HttpStatus>(HttpStatus::BadRequest),
                Some(id) => r matches Ok(s) && {
                    &&& s.redirect_to@ == config.auth_frontend_url@
                    &&& session_cookie_shape(s.cookie, *config, api_origin@)
                    &&& s.cookie.max_age_secs == hours_to_secs_saturating(config.auth_session_ttl_hours)
                    &&& exists|now: i64| s.cookie.value@ == minted_token(
                        id,
                        *config,
                        expiry_spec(config.auth_session_ttl_hours, now),
                    )
                },
            },
        },
{
    let claimed = match param_value(params, "openid.claimed_id") {
        Some(c) => c,
        None => {
            return Err(HttpStatus::BadRequest);
        },
    };
    let steam_id = match parse_steam_id_from_claimed_id(claimed.as_str()) {
        Some(id) => id,
        None => {
            return Err(HttpStatus::BadRequest);
        },
    };
    let token = match mint_session(steam_id, config) {
        Ok(t) => t,
        Err(_) => {
            return Err(HttpStatus::InternalServerError);
        },
    };
    let cookie = build_session_cookie(token.as_str(), config, api_origin);
    Ok(SignIn { cookie, redirect_to: config.auth_frontend_url.clone() })
}

} // verus!
