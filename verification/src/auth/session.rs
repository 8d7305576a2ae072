//! Session tokens (HS256 JWTs), bearer headers and the session cookie.
use vstd::prelude::*;
use crate::config::Config;
use crate::http::HttpStatus;
use crate::text::{
    ascii_lower, ascii_lower_chars, chars_eq, chars_of, concat, dec_int, i64_to_string,
    lemma_parse_dec_int, owned, parse_i64_spec, starts_with, str_parse_i64, str_starts_with,
    string_from, trim, trim_chars, trim_end_char, trim_end_char_chars,
};

verus! {

/// Name of the cookie that carries the session token.
pub const SESSION_COOKIE_NAME: &'static str = "session";

/// Seconds a token is still accepted after its `exp` claim.
pub const EXPIRY_LEEWAY_SECS: u64 = 60;

#[verifier::external_type_specification]
#[verifier::external_body]
pub struct ExJwtError(jsonwebtoken::errors::Error);

/// Why a session token could not be minted.
#[derive(Clone, Copy, Debug, PartialEq, Eq, Structural)]
pub enum SessionError {
    Signing,
}

/// The claims of a session token: the Steam ID as text, the expiry as a Unix timestamp,
/// and whether the user is a frontend admin.
pub struct SessionClaims {
    pub sub: String,
    pub exp: u64,
    pub adm: bool,
}

/// What `jsonwebtoken::encode` returns for the default HS256 header, the claims object
/// `{"sub", "exp", "adm"}` (in that order) and the secret's bytes as key.
pub uninterp spec fn jwt_session_token(sub: Seq<char>, exp: u64, adm: bool, secret: Seq<char>) -> Seq<char>;

/// What decoding a token with `jsonwebtoken::decode` gives, with an HS256 key made from
/// the secret's bytes and expiry left unchecked: the `sub`, `exp` and `adm` claims
/// (`adm` defaults to `false`), or `None` when the token is malformed, its signature does
/// not match, or a claim is missing or of the wrong kind.
pub uninterp spec fn jwt_session_claims(token: Seq<char>, secret: Seq<char>) -> Option<(Seq<char>, u64, bool)>;

/// `jsonwebtoken::encode` with `Header::default()` (HS256), claims `sub`, `exp`, `adm`,
/// and `EncodingKey::from_secret`. The token is a function of the four values. The key
/// family matches the header's algorithm and a JSON object of a string, a number and a
/// boolean always serialises, so the call succeeds.
#[verifier::external_body]
fn jwt_encode_session(sub: &str, exp: u64, adm: bool, secret: &str) -> (r: Result<
    String,
    jsonwebtoken::errors::Error,
>)
    ensures
        r is Ok,
        r matches Ok(t) ==> t@ == jwt_session_token(sub@, exp, adm, secret@),
{
    let mut claims = serde_json::Map::new();
    claims.insert("sub".to_string(), serde_json::Value::from(sub));
    claims.insert("exp".to_string(), serde_json::Value::from(exp));
    claims.insert("adm".to_string(), serde_json::Value::from(adm));
    let key = jsonwebtoken::EncodingKey::from_secret(secret.as_bytes());
    jsonwebtoken::encode(&jsonwebtoken::Header::default(), &claims, &key)
}

/// `jsonwebtoken::decode` with `Validation::default()` but expiry left to the caller,
/// and `DecodingKey::from_secret`. The claims are a function of the token and the secret.
/// A token made by `jsonwebtoken::encode` with the same secret verifies and gives back the
/// claims it was made from.
#[verifier::external_body]
fn jwt_decode_session(token: &str, secret: &str) -> (r: Option<SessionClaims>)
    ensures
        claims_view(r) == jwt_session_claims(token@, secret@),
        forall|sub: Seq<char>, exp: u64, adm: bool|
            token@ == jwt_session_token(sub, exp, adm, secret@) ==> claims_view(r) == Some(
                (sub, exp, adm),
            ),
{
    let mut validation = jsonwebtoken::Validation::default();
    validation.validate_exp = false;
    let key = jsonwebtoken::DecodingKey::from_secret(secret.as_bytes());
    let data = jsonwebtoken::decode::<serde_json::Map<String, serde_json::Value>>(token, &key, &validation).ok()?;
    let sub = data.claims.get("sub")?.as_str()?.to_string();
    let exp = data.claims.get("exp")?.as_u64()?;
    let adm = match data.claims.get("adm") {
        None => false,
        Some(v) => v.as_bool()?,
    };
    Some(SessionClaims { sub, exp, adm })
}

/// `chrono::Utc::now().timestamp()`: the current Unix time in seconds. Nothing is claimed
/// of its value.
#[verifier::external_body]
fn unix_now() -> (r: i64) {
    chrono::Utc::now().timestamp()
}

/// What chrono gives for the Unix timestamp `hours` hours after the instant `now`: `None`
/// when either instant lies outside the dates chrono can represent.
pub uninterp spec fn hours_after(now: i64, hours: i64) -> Option<i64>;

/// `DateTime::<Utc>::from_timestamp(now, 0)`, then `checked_add_signed(TimeDelta::hours(hours))`,
/// then `timestamp()`. The result is a function of the two values; when there is one, it
/// is `now` plus `hours` whole hours, since UTC date arithmetic adds exact seconds.
/// `TimeDelta::hours` panics unless `hours * 3600` lies within ±`i64::MAX / 1000`.
#[verifier::external_body]
fn timestamp_after_hours(now: i64, hours: i64) -> (r: Option<i64>)
    requires
        -2562047788015 <= hours <= 2562047788015,
    ensures
        r == hours_after(now, hours),
        r matches Some(t) ==> t == now + hours * 3600,
{
    match chrono::DateTime::from_timestamp(now, 0) {
        Some(start) => match start.checked_add_signed(chrono::TimeDelta::hours(hours)) {
            Some(end) => Some(end.timestamp()),
            None => None,
        },
        None => None,
    }
}

/// The plain values of decoded claims.
pub open spec fn claims_view(c: Option<SessionClaims>) -> Option<(Seq<char>, u64, bool)> {
    match c {
        Some(c) => Some((c.sub@, c.exp, c.adm)),
        None => None,
    }
}

/// A token whose `exp` lies more than the leeway before `now` has expired.
pub open spec fn session_expired(exp: u64, now: i64) -> bool {
    exp + EXPIRY_LEEWAY_SECS < now
}

/// The Steam ID a session grants at time `now`: the `sub` claim read as an `i64`, unless
/// the token is invalid or has expired.
pub open spec fn session_subject(claims: Option<(Seq<char>, u64, bool)>, now: i64) -> Option<i64> {
    match claims {
        Some((sub, exp, _adm)) => if session_expired(exp, now) {
            None
        } else {
            parse_i64_spec(sub)
        },
        None => None,
    }
}

/// Whether an hour count converts to a `TimeDelta` without panicking.
pub open spec fn ttl_hours_in_range(ttl_hours: u64) -> bool {
    let h = ttl_hours as i64;
    -2562047788015 <= h && h <= 2562047788015
}

/// The session token that `mint_session` signs for a user and expiry.
pub open spec fn minted_token(steam_id: i64, config: Config, exp: u64) -> Seq<char> {
    jwt_session_token(
        dec_int(steam_id as int),
        exp,
        config.frontend_admins@.contains(steam_id),
        config.session_secret@,
    )
}

/// The claims of a token signed with `secret`, or `None` when it does not verify.
pub fn session_claims(token: &str, secret: &str) -> (r: Option<SessionClaims>)
    ensures
        claims_view(r) == jwt_session_claims(token@, secret@),
        forall|sub: Seq<char>, exp: u64, adm: bool|
            token@ == jwt_session_token(sub, exp, adm, secret@) ==> claims_view(r) == Some(
                (sub, exp, adm),
            ),
{
    jwt_decode_session(token, secret)
}

/// The Steam ID that decoded claims grant at time `now`.
pub fn subject_if_current(claims: Option<SessionClaims>, now: i64) -> (r: Option<i64>)
    ensures
        r == session_subject(claims_view(claims), now),
{
    match claims {
        None => None,
        Some(c) => {
            let limit: i128 = (c.exp as i128) + 60;
            if limit < (now as i128) {
                None
            } else {
                str_parse_i64(c.sub.as_str())
            }
        },
    }
}

/// Verifies a session token at time `now` and returns the Steam ID it grants. A token
/// minted for a Steam ID with the same secret grants that ID until it expires.
pub fn verify_session_at(token: &str, secret: &str, now: i64) -> (r: Option<i64>)
    ensures
        r == session_subject(jwt_session_claims(token@, secret@), now),
        forall|steam_id: i64, exp: u64, adm: bool|
            token@ == jwt_session_token(dec_int(steam_id as int), exp, adm, secret@) ==> r == (
            if session_expired(exp, now) {
                None
            } else {
                Some(steam_id)
            }),
{
    let claims = session_claims(token, secret);
    let r = subject_if_current(claims, now);
    proof {
        assert forall|steam_id: i64, exp: u64, adm: bool|
            token@ == jwt_session_token(dec_int(steam_id as int), exp, adm, secret@) implies r == (
            if session_expired(exp, now) {
                None
            } else {
                Some(steam_id)
            }) by {
            lemma_parse_dec_int(steam_id);
        }
    }
    r
}

/// Verifies a session token against the clock and returns the Steam ID it grants.
pub fn verify_session(token: &str, secret: &str) -> (r: Option<i64>)
    ensures
        exists|now: i64| r == session_subject(jwt_session_claims(token@, secret@), now),
{
    let now = unix_now();
    verify_session_at(token, secret, now)
}

/// Signs a session token for a Steam ID that expires at `exp`; the `adm` claim says
/// whether the user is a frontend admin.
pub fn mint_session_at(steam_id: i64, config: &Config, exp: u64) -> (r: Result<String, SessionError>)
    ensures
        r matches Ok(t) && t@ == minted_token(steam_id, *config, exp),
{
    let sub = i64_to_string(steam_id);
    let adm = config.is_admin(steam_id);
    match jwt_encode_session(sub.as_str(), exp, adm, config.session_secret.as_str()) {
        Ok(t) => Ok(t),
        Err(_) => Err(SessionError::Signing),
    }
}

/// The `exp` claim of a session minted at Unix time `now` with a lifetime of `ttl_hours`:
/// the instant that many hours later, or 0 when that date is out of range.
pub open spec fn expiry_spec(ttl_hours: u64, now: i64) -> u64 {
    match hours_after(now, ttl_hours as i64) {
        Some(t) => t as u64,
        None => 0,
    }
}

/// The expiry timestamp of a session minted at Unix time `now`.
pub fn session_expiry_at(ttl_hours: u64, now: i64) -> (exp: u64)
    requires
        ttl_hours_in_range(ttl_hours),
    ensures
        exp == expiry_spec(ttl_hours, now),
        hours_after(now, ttl_hours as i64) matches Some(t) ==> t == now + (ttl_hours as i64) * 3600,
{
    #[verifier::truncate]
    let h: i64 = ttl_hours as i64;
    match timestamp_after_hours(now, h) {
        Some(t) => {
            #[verifier::truncate]
            let e: u64 = t as u64;
            e
        },
        None => 0,
    }
}

/// The expiry timestamp of a session minted now: the clock plus the session lifetime,
/// or 0 when that date is out of range.
pub fn session_expiry(ttl_hours: u64) -> (exp: u64)
    requires
        ttl_hours_in_range(ttl_hours),
    ensures
        exists|now: i64| exp == expiry_spec(ttl_hours, now),
{
    let now = unix_now();
    session_expiry_at(ttl_hours, now)
}

/// Mints a session token for a Steam ID that expires after the configured lifetime.
pub fn mint_session(steam_id: i64, config: &Config) -> (r: Result<String, SessionError>)
    requires
        ttl_hours_in_range(config.auth_session_ttl_hours),
    ensures
        r matches Ok(t) && exists|now: i64| t@ == minted_token(
            steam_id,
            *config,
            expiry_spec(config.auth_session_ttl_hours, now),
        ),
{
    let now = unix_now();
    let exp = session_expiry_at(config.auth_session_ttl_hours, now);
    mint_session_at(steam_id, config, exp)
}

// ---------------------------------------------------------------------------
// Bearer tokens
// ---------------------------------------------------------------------------

/// The token of an `Authorization: Bearer <token>` header: what follows the prefix,
/// trimmed, when that is not empty.
pub open spec fn bearer_token(header: Seq<char>) -> Option<Seq<char>> {
    if starts_with(header, "Bearer "@) && trim(header.skip("Bearer "@.len() as int)).len() > 0 {
        Some(trim(header.skip("Bearer "@.len() as int)))
    } else {
        None
    }
}

/// Parses an `Authorization` header value of the form `Bearer <token>`.
pub fn parse_bearer_header(header: &str) -> (r: Option<String>)
    ensures
        match r {
            Some(t) => bearer_token(header@) == Some(t@),
            None => bearer_token(header@) is None,
        },
{
    let prefix = "Bearer ";
    proof {
        reveal_strlit("Bearer ");
    }
    if !str_starts_with(header, prefix) {
        return None;
    }
    let v = chars_of(header);
    let n = v.len();
    let mut rest: Vec<char> = Vec::new();
    let mut i: usize = 7;
    while i < n
        invariant
            7 <= i <= n,
            n == v@.len(),
            rest@ == v@.subrange(7, i as int),
        decreases n - i,
    {
        rest.push(v[i]);
        i = i + 1;
        assert(rest@ =~= v@.subrange(7, i as int));
    }
    assert(rest@ =~= header@.skip("Bearer "@.len() as int));
    let t = trim_chars(rest.as_slice());
    if t.len() == 0 {
        return None;
    }
    Some(string_from(t.as_slice()))
}

/// The bearer token of a request, from its `Authorization` header if it has one.
pub fn extract_bearer_token(authorization: Option<&str>) -> (r: Option<String>)
    ensures
        match authorization {
            None => r is None,
            Some(h) => match r {
                Some(t) => bearer_token(h@) == Some(t@),
                None => bearer_token(h@) is None,
            },
        },
{
    match authorization {
        None => None,
        Some(h) => parse_bearer_header(h),
    }
}

// ---------------------------------------------------------------------------
// Session cookie
// ---------------------------------------------------------------------------

/// An origin compared case-insensitively and without surrounding whitespace or
/// trailing slashes.
pub open spec fn normalized_origin(url: Seq<char>) -> Seq<char> {
    ascii_lower(trim_end_char(trim(url), '/'))
}

fn normalize_origin(url: &str) -> (r: Vec<char>)
    ensures
        r@ == normalized_origin(url@),
{
    let v = chars_of(url);
    let t = trim_chars(v.as_slice());
    let u = trim_end_char_chars(t.as_slice(), '/');
    ascii_lower_chars(u.as_slice())
}

/// Whether the session cookie travels in a cross-site context: the frontend origin
/// differs from the API origin.
pub fn auth_cookie_is_cross_site(config: &Config, api_origin: &str) -> (r: bool)
    ensures
        r == (normalized_origin(config.auth_frontend_url@) != normalized_origin(api_origin@)),
{
    let a = normalize_origin(config.auth_frontend_url.as_str());
    let b = normalize_origin(api_origin);
    !chars_eq(a.as_slice(), b.as_slice())
}

/// The `SameSite` attribute of the session cookie.
#[derive(Clone, Copy, Debug, PartialEq, Eq, Structural)]
pub enum SameSitePolicy {
    /// `SameSite=Lax`.
    Lax,
    /// `SameSite=None`, for a frontend on another site.
    CrossSite,
}

/// The session cookie as the service sets it.
pub struct SessionCookie {
    pub name: String,
    pub value: String,
    pub path: String,
    pub http_only: bool,
    pub secure: bool,
    pub same_site: SameSitePolicy,
    pub max_age_secs: i64,
    pub domain: Option<String>,
}

/// The attributes shared by the cookie that sets a session and the one that clears it.
pub open spec fn session_cookie_shape(c: SessionCookie, config: Config, api_origin: Seq<char>) -> bool {
    &&& c.name@ == SESSION_COOKIE_NAME@
    &&& c.path@ == "/"@
    &&& c.http_only
    &&& c.secure == (starts_with(api_origin, "https://"@) || starts_with(
        config.auth_frontend_url@,
        "https://"@,
    ))
    &&& c.same_site == (if normalized_origin(config.auth_frontend_url@) != normalized_origin(
        api_origin,
    ) {
        SameSitePolicy::CrossSite
    } else {
        SameSitePolicy::Lax
    })
    &&& match c.domain {
        Some(d) => !crate::text::is_blank(config.auth_cookie_domain@) && d@ == trim(
            config.auth_cookie_domain@,
        ),
        None => crate::text::is_blank(config.auth_cookie_domain@),
    }
}

fn session_cookie_with(value: String, max_age_secs: i64, config: &Config, api_origin: &str) -> (r: SessionCookie)
    ensures
        session_cookie_shape(r, *config, api_origin@),
        r.value@ == value@,
        r.max_age_secs == max_age_secs,
{
    let cross_site = auth_cookie_is_cross_site(config, api_origin);
    let secure = str_starts_with(api_origin, "https://") || str_starts_with(
        config.auth_frontend_url.as_str(),
        "https://",
    );
    let domain = match config.auth_cookie_domain() {
        Some(d) => Some(owned(d)),
        None => None,
    };
    SessionCookie {
        name: owned(SESSION_COOKIE_NAME),
        value,
        path: owned("/"),
        http_only: true,
        secure,
        same_site: if cross_site {
            SameSitePolicy::CrossSite
        } else {
            SameSitePolicy::Lax
        },
        max_age_secs,
        domain,
    }
}

/// The HttpOnly cookie that carries a freshly minted session token.
pub fn build_session_cookie(token: &str, config: &Config, api_origin: &str) -> (r: SessionCookie)
    ensures
        session_cookie_shape(r, *config, api_origin@),
        r.value@ == token@,
        r.max_age_secs == crate::config::hours_to_secs_saturating(config.auth_session_ttl_hours),
{
    let max_age = config.auth_session_max_age_secs();
    session_cookie_with(owned(token), max_age, config, api_origin)
}

/// The cookie that clears the session: empty and expiring at once.
pub fn clear_session_cookie(config: &Config, api_origin: &str) -> (r: SessionCookie)
    ensures
        session_cookie_shape(r, *config, api_origin@),
        r.value@ == Seq::<char>::empty(),
        r.max_age_secs == 0,
{
    session_cookie_with(String::new(), 0, config, api_origin)
}

/// The API origin of a request, from its `Host` header: plain HTTP for local hosts,
/// HTTPS otherwise.
pub fn api_origin_from_host(host: &str) -> (r: String)
    ensures
        r@ == (if starts_with(host@, "localhost"@) || starts_with(host@, "127.0.0.1"@) {
            "http://"@ + host@
        } else {
            "https://"@ + host@
        }),
{
    if str_starts_with(host, "localhost") || str_starts_with(host, "127.0.0.1") {
        concat("http://", host)
    } else {
        concat("https://", host)
    }
}

// ---------------------------------------------------------------------------
// Request guards
// ---------------------------------------------------------------------------

/// An authenticated user: the Steam ID from a valid bearer token.
pub struct AuthUser(pub i64);

/// The bearer token of a request, if any, for public session introspection.
pub struct OptionalBearer(pub Option<String>);

/// An authenticated user listed among the frontend admins.
pub struct AdminUser(pub i64);

/// The outcome of authenticating a request at time `now`: the CSRF verdict first, then
/// a bearer token that verifies.
pub open spec fn auth_outcome(
    csrf: Result<(), HttpStatus>,
    token: Option<Seq<char>>,
    secret: Seq<char>,
    now: i64,
) -> Result<i64, HttpStatus> {
    match csrf {
        Err(e) => Err(e),
        Ok(_) => match token {
            None => Err(HttpStatus::Unauthorized),
            Some(t) => match session_subject(jwt_session_claims(t, secret), now) {
                Some(id) => Ok(id),
                None => Err(HttpStatus::Unauthorized),
            },
        },
    }
}

/// The plain view of an authentication result.
pub open spec fn user_view(r: Result<AuthUser, HttpStatus>) -> Result<i64, HttpStatus> {
    match r {
        Ok(u) => Ok(u.0),
        Err(e) => Err(e),
    }
}

/// The plain view of an optional token.
pub open spec fn token_view(t: Option<String>) -> Option<Seq<char>> {
    match t {
        Some(t) => Some(t@),
        None => None,
    }
}

/// Authenticates a request at time `now` from its CSRF verdict and bearer token.
pub fn authorize_user_at(
    csrf: Result<(), HttpStatus>,
    token: Option<String>,
    secret: &str,
    now: i64,
) -> (r: Result<AuthUser, HttpStatus>)
    ensures
        user_view(r) == auth_outcome(csrf, token_view(token), secret@, now),
{
    if let Err(e) = csrf {
        return Err(e);
    }
    match token {
        None => Err(HttpStatus::Unauthorized),
        Some(t) => match verify_session_at(t.as_str(), secret, now) {
            Some(id) => Ok(AuthUser(id)),
            None => Err(HttpStatus::Unauthorized),
        },
    }
}

/// Authenticates a request against the clock from its CSRF verdict and bearer token.
pub fn authorize_user(csrf: Result<(), HttpStatus>, token: Option<String>, secret: &str) -> (r:
    Result<AuthUser, HttpStatus>)
    ensures
        exists|now: i64| user_view(r) == auth_outcome(csrf, token_view(token), secret@, now),
{
    let now = unix_now();
    authorize_user_at(csrf, token, secret, now)
}

/// Admin check on top of authentication: an authenticated user who is not a frontend
/// admin is `Forbidden`.
pub fn authorize_admin(user: Result<AuthUser, HttpStatus>, config: &Config) -> (r: Result<
    AdminUser,
    HttpStatus,
>)
    ensures
        match user {
            Err(e) => r matches Err(e2) && e2 == e,
            Ok(u) => if config.frontend_admins@.contains(u.0) {
                r matches Ok(a) && a.0 == u.0
            } else {
                r == Err::<AdminUser, HttpStatus>(HttpStatus::Forbidden)
            },
        },
{
    match user {
        Err(e) => Err(e),
        Ok(u) => if config.is_admin(u.0) {
            Ok(AdminUser(u.0))
        } else {
            Err(HttpStatus::Forbidden)
        },
    }
}

} // verus!
