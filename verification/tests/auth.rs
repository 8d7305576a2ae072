use kether_internal_services_server::auth::csrf::{referer_origin, validate_csrf_origin, RequestMethod};
use kether_internal_services_server::auth::exchange::{ExchangeCodeStore, CODE_TTL_MILLIS};
use kether_internal_services_server::auth::openid::{
    check_openid_mode, openid_body_is_valid, openid_params_from_query, parse_steam_id_from_claimed_id,
    verification_params, OpenIdParams,
};
use kether_internal_services_server::auth::session::{
    api_origin_from_host, auth_cookie_is_cross_site, authorize_admin, build_session_cookie,
    clear_session_cookie, extract_bearer_token, mint_session, mint_session_at, parse_bearer_header,
    session_claims, session_expiry_at, verify_session, verify_session_at, AuthUser, SameSitePolicy,
};
use kether_internal_services_server::config::{AuthConfig, Config, ConfigFile};
use kether_internal_services_server::http::HttpStatus;

fn test_config(frontend_url: &str, admins: &[i64]) -> Config {
    let mut file = ConfigFile::empty();
    file.frontend_admins = Some(admins.to_vec());
    let mut auth = AuthConfig::empty();
    auth.frontend_url = Some(frontend_url.to_string());
    file.auth = Some(auth);
    Config::from_config_file(file)
}

#[test]
fn referer_origin_parses_url() {
    assert_eq!(referer_origin("https://kether.pl/binds?page=1"), Some("https://kether.pl".to_string()));
    assert_eq!(referer_origin("http://localhost:3000/app"), Some("http://localhost:3000".to_string()));
}

#[test]
fn referer_origin_ignores_fragment_and_needs_scheme() {
    assert_eq!(referer_origin("https://a.example#x://y"), Some("https://a.example".to_string()));
    assert_eq!(referer_origin("no-scheme/path"), None);
    assert_eq!(referer_origin("https://host"), Some("https://host".to_string()));
}

#[test]
fn csrf_checks_mutating_requests_only() {
    let allowed = vec!["https://kether.pl".to_string()];
    assert_eq!(validate_csrf_origin(RequestMethod::Get, None, None, &allowed), Ok(()));
    assert_eq!(validate_csrf_origin(RequestMethod::Post, Some("https://kether.pl"), None, &allowed), Ok(()));
    assert_eq!(
        validate_csrf_origin(RequestMethod::Post, Some("https://evil.example"), Some("https://kether.pl/x"), &allowed),
        Err(HttpStatus::Forbidden)
    );
    assert_eq!(
        validate_csrf_origin(RequestMethod::Delete, None, Some("https://kether.pl/binds"), &allowed),
        Ok(())
    );
    assert_eq!(validate_csrf_origin(RequestMethod::Put, None, None, &allowed), Err(HttpStatus::Forbidden));
}

#[test]
fn issue_and_consume_code() {
    let mut store = ExchangeCodeStore::new();
    let code = store.issue_code(76561198000000000);
    assert_eq!(store.consume_code(&code), Some(76561198000000000));
}

#[test]
fn consume_is_idempotent_within_ttl() {
    let mut store = ExchangeCodeStore::new();
    let code = store.issue_code(76561198000000001);
    assert_eq!(store.consume_code(&code), Some(76561198000000001));
    assert_eq!(store.consume_code(&code), Some(76561198000000001));
}

#[test]
fn consume_unknown_code_returns_none() {
    let mut store = ExchangeCodeStore::new();
    assert_eq!(store.consume_code("nonexistent"), None);
}

#[test]
fn expired_code_is_rejected() {
    let mut store = ExchangeCodeStore::new();
    store.issue_code_at(76561198000000002, "expired-code".to_string(), 0);
    assert_eq!(store.consume_code_at("expired-code", CODE_TTL_MILLIS + 1000), None);
}

#[test]
fn consume_trims_whitespace() {
    let mut store = ExchangeCodeStore::new();
    let code = store.issue_code(76561198000000003);
    assert_eq!(store.consume_code(&format!("  {code}  ")), Some(76561198000000003));
}

#[test]
fn issued_code_is_64_hex_characters() {
    let mut store = ExchangeCodeStore::new();
    let code = store.issue_code(1);
    assert_eq!(code.len(), 64);
    assert!(code.chars().all(|c| c.is_ascii_hexdigit() && !c.is_ascii_uppercase()));
}

#[test]
fn replay_window_ends() {
    let mut store = ExchangeCodeStore::new();
    store.issue_code_at(7, "abc".to_string(), 1000);
    assert_eq!(store.consume_code_at("abc", 2000), Some(7));
    assert_eq!(store.consume_code_at("abc", 2000 + CODE_TTL_MILLIS - 1), Some(7));
    assert_eq!(store.consume_code_at("abc", 2000 + CODE_TTL_MILLIS), None);
    assert_eq!(store.consume_code_at("   ", 2000), None);
}

#[test]
fn auth_cookie_same_site_when_frontend_matches_api() {
    let config = test_config("https://21370000.xyz", &[]);
    assert!(!auth_cookie_is_cross_site(&config, "https://21370000.xyz"));
}

#[test]
fn auth_cookie_cross_site_when_frontend_differs_from_api() {
    let config = test_config("https://kether.pl", &[]);
    assert!(auth_cookie_is_cross_site(&config, "https://21370000.xyz"));
}

#[test]
fn auth_cookie_origin_comparison_ignores_case_and_trailing_slash() {
    let config = test_config("  HTTPS://Kether.PL//  ", &[]);
    assert!(!auth_cookie_is_cross_site(&config, "https://kether.pl"));
}

#[test]
fn parse_bearer_header_accepts_valid_token() {
    assert_eq!(parse_bearer_header("Bearer jwt-token-123"), Some("jwt-token-123".to_string()));
}

#[test]
fn parse_bearer_header_rejects_invalid() {
    for header in ["", "Basic abc", "Bearer ", "bearer x"] {
        assert_eq!(parse_bearer_header(header), None);
    }
}

#[test]
fn extract_bearer_token_needs_header() {
    assert_eq!(extract_bearer_token(None), None);
    assert_eq!(extract_bearer_token(Some("Bearer  tok  ")), Some("tok".to_string()));
}

#[test]
fn verify_session_round_trip() {
    let config = test_config("https://kether.pl", &[]);
    let token = mint_session(76561198000000000, &config).expect("mint");
    assert_eq!(verify_session(&token, &config.session_secret), Some(76561198000000000));
}

#[test]
fn mint_session_includes_adm_claim() {
    let admin_id = 76561198000000000_i64;
    let user_id = 76561198000000001_i64;
    let config = test_config("https://kether.pl", &[admin_id]);
    let admin_token = mint_session(admin_id, &config).expect("mint admin");
    let user_token = mint_session(user_id, &config).expect("mint user");
    assert!(session_claims(&admin_token, &config.session_secret).expect("decode").adm);
    assert!(!session_claims(&user_token, &config.session_secret).expect("decode").adm);
}

#[test]
fn session_expires_after_leeway() {
    let mut config = test_config("https://kether.pl", &[]);
    config.session_secret = "s3cret".to_string();
    let token = mint_session_at(42, &config, 1_000).expect("mint");
    assert_eq!(verify_session_at(&token, "s3cret", 1_060), Some(42));
    assert_eq!(verify_session_at(&token, "s3cret", 1_061), None);
    assert_eq!(verify_session_at(&token, "other", 1_000), None);
    assert_eq!(verify_session_at("not.a.jwt", "s3cret", 1_000), None);
}

#[test]
fn session_cookie_attributes() {
    let config = test_config("https://kether.pl", &[]);
    let cookie = build_session_cookie("tok", &config, "https://api.kether.pl");
    assert_eq!(cookie.name, "session");
    assert_eq!(cookie.value, "tok");
    assert_eq!(cookie.path, "/");
    assert!(cookie.http_only);
    assert!(cookie.secure);
    assert_eq!(cookie.same_site, SameSitePolicy::CrossSite);
    assert_eq!(cookie.max_age_secs, 168 * 3600);
    assert_eq!(cookie.domain, None);
    let cleared = clear_session_cookie(&config, "https://kether.pl");
    assert_eq!(cleared.value, "");
    assert_eq!(cleared.max_age_secs, 0);
    assert_eq!(cleared.same_site, SameSitePolicy::Lax);
}

#[test]
fn api_origin_uses_http_for_local_hosts() {
    assert_eq!(api_origin_from_host("localhost:8000"), "http://localhost:8000");
    assert_eq!(api_origin_from_host("127.0.0.1"), "http://127.0.0.1");
    assert_eq!(api_origin_from_host("api.kether.pl"), "https://api.kether.pl");
}

#[test]
fn admin_check_forbids_non_admins() {
    let config = test_config("https://kether.pl", &[5]);
    assert_eq!(authorize_admin(Ok(AuthUser(5)), &config).map(|a| a.0), Ok(5));
    assert_eq!(authorize_admin(Ok(AuthUser(6)), &config).map(|a| a.0), Err(HttpStatus::Forbidden));
    assert_eq!(authorize_admin(Err(HttpStatus::Unauthorized), &config).map(|a| a.0), Err(HttpStatus::Unauthorized));
}

#[test]
fn claimed_id_must_be_17_digits() {
    assert_eq!(
        parse_steam_id_from_claimed_id("https://steamcommunity.com/openid/id/76561198000000000"),
        Some(76561198000000000)
    );
    assert_eq!(parse_steam_id_from_claimed_id("https://steamcommunity.com/openid/id/7656119800000000"), None);
    assert_eq!(parse_steam_id_from_claimed_id("https://steamcommunity.com/openid/id/7656119800000000x"), None);
    assert_eq!(parse_steam_id_from_claimed_id("https://example.com/openid/id/76561198000000000"), None);
}

#[test]
fn openid_verification_body() {
    assert!(openid_body_is_valid("ns:http://specs.openid.net/auth/2.0\nis_valid:true\n"));
    assert!(openid_body_is_valid(" is_valid : true \r\n"));
    assert!(!openid_body_is_valid("is_valid:false\n"));
    assert!(!openid_body_is_valid(""));
}

#[test]
fn openid_params_keep_openid_keys_and_check_mode() {
    let segments = vec![
        ("openid.mode".to_string(), "id_res".to_string()),
        ("other".to_string(), "x".to_string()),
        ("openid.claimed_id".to_string(), "https%3A%2F%2Fsteamcommunity.com%2Fopenid%2Fid%2F1".to_string()),
    ];
    let params = openid_params_from_query(Some(&segments)).ok().expect("params");
    assert_eq!(params.0.len(), 2);
    assert_eq!(params.0[1].1, "https://steamcommunity.com/openid/id/1");
    assert_eq!(check_openid_mode(&params), Ok(()));
    let verify = verification_params(&params);
    assert_eq!(verify.last().unwrap(), &("openid.mode".to_string(), "check_authentication".to_string()));
    let none: Vec<(String, String)> = vec![("a".to_string(), "b".to_string())];
    assert_eq!(openid_params_from_query(Some(&none)).err(), Some(HttpStatus::BadRequest));
    assert_eq!(openid_params_from_query(None).err(), Some(HttpStatus::BadRequest));
    let wrong = OpenIdParams(vec![("openid.mode".to_string(), "cancel".to_string())]);
    assert_eq!(check_openid_mode(&wrong), Err(HttpStatus::BadRequest));
}

fn base64url_decode(text: &str) -> Vec<u8> {
    let alphabet = b"ABCDEFGHIJKLMNOPQRSTUVWXYZabcdefghijklmnopqrstuvwxyz0123456789-_";
    let mut bits: u32 = 0;
    let mut count = 0;
    let mut out = Vec::new();
    for c in text.bytes() {
        let v = alphabet.iter().position(|&a| a == c).expect("base64url digit") as u32;
        bits = (bits << 6) | v;
        count += 6;
        if count >= 8 {
            count -= 8;
            out.push((bits >> count) as u8);
            bits &= (1 << count) - 1;
        }
    }
    out
}

#[test]
fn session_expiry_is_the_lifetime_after_now() {
    assert_eq!(session_expiry_at(168, 1_700_000_000), 1_700_000_000 + 168 * 3600);
    assert_eq!(session_expiry_at(0, 5), 5);
    assert_eq!(session_expiry_at(1, i64::MAX), 0);
}

#[test]
fn minted_token_passes_default_validation_and_lists_claims_in_order() {
    let config = test_config("https://kether.pl", &[]);
    let token = mint_session(76561198000000001, &config).expect("mint");
    let key = jsonwebtoken::DecodingKey::from_secret(config.session_secret.as_bytes());
    let data = jsonwebtoken::decode::<serde_json::Value>(&token, &key, &jsonwebtoken::Validation::default())
        .expect("valid and unexpired");
    let now = chrono::Utc::now().timestamp();
    let exp = data.claims["exp"].as_i64().expect("exp");
    let ttl = config.auth_session_ttl_hours as i64 * 3600;
    assert!(exp >= now + ttl - 60 && exp <= now + ttl + 60);
    let payload = String::from_utf8(base64url_decode(token.split('.').nth(1).expect("payload"))).expect("utf8");
    let sub = payload.find("\"sub\"").expect("sub");
    let exp_at = payload.find("\"exp\"").expect("exp");
    let adm = payload.find("\"adm\"").expect("adm");
    assert!(sub < exp_at && exp_at < adm);
}
