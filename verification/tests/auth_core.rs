//! Tests for the authentication core: tokens, the cache format, credentials,
//! URLs, the callback listener, and the manager's decisions.

use workspace_cli::credentials::{parse_client_secret, OAuthCredentials};
use workspace_cli::errors::{AuthError, TokenManagerError};
use workspace_cli::json::{parse_json, render_json, JsonVal};
use workspace_cli::listener::{extract_code_from_request, success_response};
use workspace_cli::manager::{
    accounts_from_filenames, AuthConfig, EnsureAction, EnsureEvent, TokenManager,
};
use workspace_cli::oauth::{TokenStep, WorkspaceAuthenticator};
use workspace_cli::token::{
    load_token_text, refreshed_token, save_payload, token_from_response, OAuthToken,
    TokenResponse,
};

fn creds(client_id: &str, auth_uri: &str) -> OAuthCredentials {
    OAuthCredentials {
        client_id: client_id.to_string(),
        client_secret: "s3cr3t".to_string(),
        auth_uri: auth_uri.to_string(),
        token_uri: "https://oauth2.googleapis.com/token".to_string(),
        redirect_uris: Vec::new(),
        project_id: None,
    }
}

fn token(access: &str, refresh: Option<&str>, expires_at: Option<i64>) -> OAuthToken {
    OAuthToken {
        access_token: access.to_string(),
        refresh_token: refresh.map(|s| s.to_string()),
        expires_at,
    }
}

// --- expiry ---

#[test]
fn token_without_expiry_never_expires() {
    let t = token("a", None, None);
    assert!(!t.is_expired(0));
    assert!(!t.is_expired(i64::MAX - 60));
}

#[test]
fn token_expiry_has_sixty_second_buffer() {
    let t = token("a", None, Some(1000));
    assert!(t.is_expired(940));
    assert!(t.is_expired(999));
    assert!(!t.is_expired(939));
}

// --- refresh keeps or replaces the refresh credential ---

#[test]
fn refresh_keeps_prior_refresh_token_when_response_omits_one() {
    let prior = Some("old-refresh".to_string());
    let resp = TokenResponse {
        access_token: "new-access".to_string(),
        refresh_token: None,
        expires_in: Some(3600),
        token_type: None,
        scope: None,
    };
    let t = refreshed_token(&prior, &resp, 1000);
    assert_eq!(t.access_token, "new-access");
    assert_eq!(t.refresh_token.as_deref(), Some("old-refresh"));
    assert_eq!(t.expires_at, Some(4600));
}

#[test]
fn refresh_replaces_refresh_token_when_response_carries_one() {
    let prior = Some("old-refresh".to_string());
    let resp = TokenResponse {
        access_token: "new-access".to_string(),
        refresh_token: Some("new-refresh".to_string()),
        expires_in: None,
        token_type: None,
        scope: None,
    };
    let t = refreshed_token(&prior, &resp, 1000);
    assert_eq!(t.refresh_token.as_deref(), Some("new-refresh"));
    assert_eq!(t.expires_at, None);
}

// --- save / load round trip ---

#[test]
fn save_then_load_round_trips() {
    let t = token("ya29.token-value", Some("1//refresh"), Some(1736000000));
    let text = save_payload(&t);
    let back = load_token_text(&text, 500).expect("loads");
    assert_eq!(back.access_token, t.access_token);
    assert_eq!(back.refresh_token, t.refresh_token);
    assert_eq!(back.expires_at, t.expires_at);
}

#[test]
fn save_then_load_round_trips_without_optional_fields() {
    let t = token("plain", None, None);
    let text = save_payload(&t);
    let back = load_token_text(&text, 500).expect("loads");
    assert_eq!(back.access_token, "plain");
    assert_eq!(back.refresh_token, None);
    assert_eq!(back.expires_at, None);
}

#[test]
fn save_then_load_round_trips_with_awkward_characters() {
    let t = token("with \"quotes\" and \\slashes\\ and\nnewlines", Some("r\tt"), Some(-7));
    let text = save_payload(&t);
    let back = load_token_text(&text, 500).expect("loads");
    assert_eq!(back.access_token, t.access_token);
    assert_eq!(back.refresh_token, t.refresh_token);
    assert_eq!(back.expires_at, Some(-7));
}

#[test]
fn saved_payload_is_readable_json() {
    let t = token("abc", None, Some(12));
    let text = save_payload(&t);
    assert!(text.starts_with("{\n"));
    let doc = parse_json(&text).expect("valid JSON");
    let rendered = render_json(&doc);
    assert!(rendered.contains("\"access_token\":\"abc\""));
}

// --- legacy cache format ---

#[test]
fn legacy_cache_yields_access_token_and_future_expiry() {
    let now = 1_700_000_000;
    let text = r#"[{"token":{"access_token":"legacy-access","refresh_token":"legacy-refresh","expires_at":[2024,12,3,10,30,0]}}]"#;
    let t = load_token_text(text, now).expect("legacy loads");
    assert_eq!(t.access_token, "legacy-access");
    assert_eq!(t.refresh_token.as_deref(), Some("legacy-refresh"));
    assert_eq!(t.expires_at, Some(now + 3600));
    assert!(t.expires_at.unwrap() > now);
}

#[test]
fn legacy_cache_without_expiry_array_has_no_expiry() {
    let text = r#"[{"token":{"access_token":"a"}}]"#;
    let t = load_token_text(text, 10).expect("loads");
    assert_eq!(t.access_token, "a");
    assert_eq!(t.refresh_token, None);
    assert_eq!(t.expires_at, None);
}

#[test]
fn unreadable_cache_is_a_storage_error() {
    match load_token_text("not json at all", 10) {
        Err(AuthError::StorageError(m)) => assert_eq!(m, "Failed to parse token cache"),
        other => panic!("expected storage error, got {:?}", other.is_ok()),
    }
    match load_token_text("[1,2,3]", 10) {
        Err(AuthError::StorageError(_)) => {}
        _ => panic!("array without token wrapper must fail"),
    }
}

// --- the authorization URL ---

#[test]
fn auth_url_carries_all_fixed_parameters() {
    let c = creds("abc123", "https://accounts.google.com/o/oauth2/auth");
    let auth = WorkspaceAuthenticator::new(c, "cache.json".to_string());
    let url = auth.build_auth_url();
    assert!(url.starts_with("https://accounts.google.com/o/oauth2/auth?response_type=code&client_id=abc123&"));
    let expected_redirect = format!("redirect_uri={}", urlencoding::encode("http://127.0.0.1:8085"));
    assert!(url.contains(&expected_redirect));
    assert!(url.contains("&access_type=offline"));
    assert!(url.contains("&prompt=consent"));
    let scopes = [
        "https://www.googleapis.com/auth/gmail.modify",
        "https://www.googleapis.com/auth/drive",
        "https://www.googleapis.com/auth/calendar",
        "https://www.googleapis.com/auth/documents",
        "https://www.googleapis.com/auth/spreadsheets",
        "https://www.googleapis.com/auth/presentations",
        "https://www.googleapis.com/auth/tasks",
    ];
    let joined = scopes.join(" ");
    let expected_scope = format!("scope={}", urlencoding::encode(&joined));
    assert!(url.contains(&expected_scope));
}

#[test]
fn percent_encoding_matches_the_reference_encoder() {
    for sample in [
        "plain",
        "with space",
        "http://127.0.0.1:8085",
        "a+b&c=d",
        "unreserved-._~",
        "caf\u{e9} \u{2603}",
    ] {
        assert_eq!(
            workspace_cli::encoding::percent_encode(sample),
            urlencoding::encode(sample).into_owned(),
            "mismatch for {:?}",
            sample
        );
    }
}

#[test]
fn percent_decoding_matches_the_reference_decoder() {
    for sample in ["XYZ", "a%20b", "%2Fpath%3Fq", "50%25", "broken%2", "broken%zz", "%e2%98%83"] {
        assert_eq!(
            workspace_cli::encoding::percent_decode(sample),
            urlencoding::decode(sample).ok().map(|c| c.into_owned()),
            "mismatch for {:?}",
            sample
        );
    }
}

// --- token requests and responses ---

#[test]
fn exchange_request_carries_the_five_form_fields() {
    let c = creds("id-1", "https://accounts.google.com/o/oauth2/auth");
    let auth = WorkspaceAuthenticator::new(c, "cache.json".to_string());
    let req = auth.exchange_request("the-code");
    assert_eq!(req.url, "https://oauth2.googleapis.com/token");
    let params: Vec<(String, String)> = req.params;
    assert_eq!(params[0], ("code".to_string(), "the-code".to_string()));
    assert_eq!(params[1], ("client_id".to_string(), "id-1".to_string()));
    assert_eq!(params[2], ("client_secret".to_string(), "s3cr3t".to_string()));
    assert_eq!(params[3], ("redirect_uri".to_string(), "http://127.0.0.1:8085".to_string()));
    assert_eq!(params[4], ("grant_type".to_string(), "authorization_code".to_string()));
}

#[test]
fn refresh_request_carries_the_four_form_fields() {
    let c = creds("id-1", "https://accounts.google.com/o/oauth2/auth");
    let auth = WorkspaceAuthenticator::new(c, "cache.json".to_string());
    let req = auth.refresh_request("rt-1");
    assert_eq!(req.params.len(), 4);
    assert_eq!(req.params[0], ("refresh_token".to_string(), "rt-1".to_string()));
    assert_eq!(req.params[3], ("grant_type".to_string(), "refresh_token".to_string()));
}

#[test]
fn next_step_uses_valid_token_and_refreshes_expired_one() {
    let c = creds("id-1", "https://a.example/auth");
    let mut auth = WorkspaceAuthenticator::new(c, "cache.json".to_string());
    // nothing loaded yet: ask for the cache
    match auth.next_token_step(false, false, 1000) {
        TokenStep::LoadCache => {}
        _ => panic!("expected a cache load first"),
    }
    // a live token is used
    auth.token = Some(token("fresh", Some("rt"), Some(5000)));
    match auth.next_token_step(true, false, 1000) {
        TokenStep::Ready(a) => assert_eq!(a, "fresh"),
        _ => panic!("expected the live token"),
    }
    // an expired token with a refresh credential is refreshed
    auth.token = Some(token("stale", Some("rt"), Some(900)));
    match auth.next_token_step(true, false, 1000) {
        TokenStep::Refresh(req) => {
            assert_eq!(req.params[0].1, "rt");
        }
        _ => panic!("expected a refresh"),
    }
    // a failed refresh falls back to the interactive flow
    match auth.next_token_step(true, true, 1000) {
        TokenStep::RunFlow(url) => assert!(url.starts_with("https://a.example/auth?")),
        _ => panic!("expected the interactive flow"),
    }
    // an expired token without a refresh credential runs the flow
    auth.token = Some(token("stale", None, Some(900)));
    match auth.next_token_step(true, false, 1000) {
        TokenStep::RunFlow(_) => {}
        _ => panic!("expected the interactive flow"),
    }
}

#[test]
fn exchange_response_is_applied_and_persisted() {
    let c = creds("id-1", "https://a.example/auth");
    let mut auth = WorkspaceAuthenticator::new(c, "cache.json".to_string());
    let body = r#"{"access_token":"at-1","refresh_token":"rt-1","expires_in":3600,"token_type":"Bearer","scope":"s"}"#;
    let (t, payload) = auth.apply_exchange_response(true, body, 100).expect("applies");
    assert_eq!(t.access_token, "at-1");
    assert_eq!(t.refresh_token.as_deref(), Some("rt-1"));
    assert_eq!(t.expires_at, Some(3700));
    let reloaded = load_token_text(&payload, 0).expect("payload loads");
    assert_eq!(reloaded.access_token, "at-1");
    assert!(auth.token.is_some());
}

#[test]
fn failed_exchange_carries_the_body_text() {
    let c = creds("id-1", "https://a.example/auth");
    let mut auth = WorkspaceAuthenticator::new(c, "cache.json".to_string());
    match auth.apply_exchange_response(false, "bad grant", 100) {
        Err(AuthError::FlowFailed(m)) => assert_eq!(m, "Token exchange failed: bad grant"),
        _ => panic!("expected a flow failure"),
    }
    match auth.apply_exchange_response(true, "{\"nope\":1}", 100) {
        Err(AuthError::FlowFailed(m)) => assert_eq!(m, "Failed to parse token response"),
        _ => panic!("expected a parse failure"),
    }
}

#[test]
fn refresh_response_keeps_prior_refresh_credential() {
    let c = creds("id-1", "https://a.example/auth");
    let mut auth = WorkspaceAuthenticator::new(c, "cache.json".to_string());
    auth.token = Some(token("old", Some("keep-me"), Some(1)));
    let body = r#"{"access_token":"at-2","expires_in":100}"#;
    let (t, _payload) = auth.apply_refresh_response(true, body, 50).expect("applies");
    assert_eq!(t.access_token, "at-2");
    assert_eq!(t.refresh_token.as_deref(), Some("keep-me"));
    assert_eq!(t.expires_at, Some(150));
    match auth.apply_refresh_response(false, "revoked", 50) {
        Err(AuthError::TokenFailed(m)) => assert_eq!(m, "Token refresh failed: revoked"),
        _ => panic!("expected a token failure"),
    }
}

#[test]
fn cached_text_is_loaded_into_the_session() {
    let c = creds("id-1", "https://a.example/auth");
    let mut auth = WorkspaceAuthenticator::new(c, "cache.json".to_string());
    let text = save_payload(&token("cached", None, Some(99)));
    auth.load_cached_text(&text, 10).expect("loads");
    assert_eq!(auth.token.as_ref().unwrap().access_token, "cached");
    assert!(auth.load_cached_text("garbage", 10).is_err());
    // the held token survives a failed load
    assert_eq!(auth.token.as_ref().unwrap().access_token, "cached");
}

// --- client-secret parsing ---

#[test]
fn client_secret_without_installed_or_web_is_invalid() {
    let doc = r#"{"something_else": {"client_id": "x", "client_secret": "y"}}"#;
    match parse_client_secret(doc) {
        Err(AuthError::InvalidCredentials(m)) => {
            assert_eq!(m, "credentials.json must contain 'installed' or 'web' key")
        }
        _ => panic!("expected invalid credentials"),
    }
}

#[test]
fn client_secret_with_empty_client_id_is_invalid() {
    let doc = r#"{"installed": {"client_id": "", "client_secret": "y"}}"#;
    match parse_client_secret(doc) {
        Err(AuthError::InvalidCredentials(m)) => assert_eq!(m, "client_id cannot be empty"),
        _ => panic!("expected invalid credentials"),
    }
    let doc2 = r#"{"installed": {"client_id": "   ", "client_secret": "y"}}"#;
    assert!(parse_client_secret(doc2).is_err());
}

#[test]
fn client_secret_missing_fields_are_named() {
    let doc = r#"{"web": {"client_secret": "y"}}"#;
    match parse_client_secret(doc) {
        Err(AuthError::InvalidCredentials(m)) => assert_eq!(m, "Missing field: client_id"),
        _ => panic!("expected invalid credentials"),
    }
    match parse_client_secret("not json") {
        Err(AuthError::InvalidCredentials(m)) => assert_eq!(m, "Invalid JSON"),
        _ => panic!("expected invalid credentials"),
    }
}

#[test]
fn client_secret_defaults_and_extras_are_read() {
    let doc = r#"{"installed": {
        "client_id": "cid",
        "client_secret": "cs",
        "redirect_uris": ["http://localhost", 42, "urn:ietf:wg:oauth:2.0:oob"],
        "project_id": "proj"
    }}"#;
    let c = parse_client_secret(doc).expect("parses");
    assert_eq!(c.client_id, "cid");
    assert_eq!(c.client_secret, "cs");
    assert_eq!(c.auth_uri, "https://accounts.google.com/o/oauth2/auth");
    assert_eq!(c.token_uri, "https://oauth2.googleapis.com/token");
    assert_eq!(c.redirect_uris, vec!["http://localhost", "urn:ietf:wg:oauth:2.0:oob"]);
    assert_eq!(c.project_id.as_deref(), Some("proj"));
}

#[test]
fn web_section_is_used_when_installed_is_absent() {
    let doc = r#"{"web": {"client_id": "w", "client_secret": "s", "auth_uri": "https://a", "token_uri": "https://t"}}"#;
    let c = parse_client_secret(doc).expect("parses");
    assert_eq!(c.client_id, "w");
    assert_eq!(c.auth_uri, "https://a");
    assert_eq!(c.token_uri, "https://t");
}

// --- the callback listener ---

#[test]
fn listener_extracts_the_code_and_ignores_other_parameters() {
    let req = "GET /?code=XYZ&scope=foo HTTP/1.1\r\nHost: 127.0.0.1\r\n\r\n";
    assert_eq!(extract_code_from_request(req), Some("XYZ".to_string()));
}

#[test]
fn listener_decodes_the_code() {
    let req = "GET /?scope=foo&code=a%2Fb%20c HTTP/1.1\r\n";
    assert_eq!(extract_code_from_request(req), Some("a/b c".to_string()));
}

#[test]
fn listener_rejects_requests_without_a_code() {
    assert_eq!(extract_code_from_request("GET / HTTP/1.1\r\n"), None);
    assert_eq!(extract_code_from_request("GET /?scope=foo HTTP/1.1\r\n"), None);
    assert_eq!(extract_code_from_request(""), None);
    assert_eq!(extract_code_from_request("GET"), None);
    // a parameter without `=` never matches
    assert_eq!(extract_code_from_request("GET /?code HTTP/1.1\r\n"), None);
}

#[test]
fn success_page_is_a_complete_http_response() {
    let page = success_response();
    assert!(page.starts_with("HTTP/1.1 200 OK\r\n"));
    assert!(page.contains("Authorization successful!"));
}

// --- the manager ---

fn empty_config() -> AuthConfig {
    AuthConfig {
        current_account: None,
        credentials_path: None,
        accounts: Vec::new(),
        config_dir: None,
        home_dir: None,
    }
}

#[test]
fn manager_defaults_to_the_default_account() {
    let m = TokenManager::new(empty_config());
    assert_eq!(m.current_account(), "default");
    assert_eq!(m.token_cache_path(), "token_cache_default.json");
    let mut cfg = empty_config();
    cfg.current_account = Some("work".to_string());
    cfg.config_dir = Some("/home/u/.config/app".to_string());
    let m2 = TokenManager::new(cfg);
    assert_eq!(m2.token_cache_path(), "/home/u/.config/app/token_cache_work.json");
}

#[test]
fn ensure_fails_fast_without_cache_and_without_credentials() {
    let mut m = TokenManager::new(empty_config());
    match m.ensure_step(EnsureEvent::Start) {
        EnsureAction::CheckCache(p) => assert_eq!(p, "token_cache_default.json"),
        _ => panic!("expected a cache check"),
    }
    match m.ensure_step(EnsureEvent::CacheChecked(false)) {
        EnsureAction::Fail(TokenManagerError::NotAuthenticated) => {}
        _ => panic!("expected not-authenticated"),
    }
    // with a cache but nothing configured, the search runs and may fail
    match m.ensure_step(EnsureEvent::CacheChecked(true)) {
        EnsureAction::FindCredentials(cands) => {
            assert_eq!(cands[0], "credentials.json");
            assert_eq!(cands.len(), 4);
        }
        _ => panic!("expected a credentials search"),
    }
    match m.ensure_step(EnsureEvent::CredentialsSearched(None)) {
        EnsureAction::Fail(TokenManagerError::MissingCredentials(msg)) => {
            assert!(msg.contains("No credentials file found"));
        }
        _ => panic!("expected missing credentials"),
    }
}

#[test]
fn ensure_restores_from_the_mapped_credentials_path() {
    let mut cfg = empty_config();
    cfg.accounts = vec![("default".to_string(), "/etc/creds.json".to_string())];
    let mut m = TokenManager::new(cfg);
    match m.ensure_step(EnsureEvent::CacheChecked(true)) {
        EnsureAction::RestoreSession(cp, tp) => {
            assert_eq!(cp, "/etc/creds.json");
            assert_eq!(tp, "token_cache_default.json");
        }
        _ => panic!("expected a session restore"),
    }
    let auth = WorkspaceAuthenticator::new(
        creds("x", "https://a.example/auth"),
        "token_cache_default.json".to_string(),
    );
    match m.ensure_step(EnsureEvent::SessionVerified(auth, "/etc/creds.json".to_string())) {
        EnsureAction::Done => {}
        _ => panic!("expected done"),
    }
    assert!(m.authenticator.is_some());
    assert!(m.require_session().is_ok());
    assert!(m.is_authenticated(false));
}

#[test]
fn login_plan_and_logout() {
    let mut cfg = empty_config();
    cfg.credentials_path = Some("/cfg/creds.json".to_string());
    let mut m = TokenManager::new(cfg);
    assert_eq!(m.login_plan(None).unwrap(), "/cfg/creds.json");
    assert_eq!(m.login_plan(Some("/explicit.json".to_string())).unwrap(), "/explicit.json");
    let m2 = TokenManager::new(empty_config());
    match m2.login_plan(None) {
        Err(TokenManagerError::MissingCredentials(_)) => {}
        _ => panic!("expected missing credentials"),
    }
    let auth = WorkspaceAuthenticator::new(
        creds("x", "https://a.example/auth"),
        "cache".to_string(),
    );
    let stored = m.complete_login(auth, "/cfg/creds.json".to_string(), "tok", 1000);
    assert_eq!(stored.access_token, "tok");
    assert_eq!(stored.refresh_token, None);
    assert_eq!(stored.expires_at, Some(4600));
    assert!(m.authenticator.is_some());
    let cache = m.logout();
    assert_eq!(cache, "token_cache_default.json");
    assert!(m.authenticator.is_none());
    match m.require_session() {
        Err(TokenManagerError::NotAuthenticated) => {}
        _ => panic!("expected not-authenticated"),
    }
}

#[test]
fn status_reports_the_optimistic_signal() {
    let m = TokenManager::new(empty_config());
    let s = m.status(false);
    assert!(!s.authenticated);
    assert_eq!(s.storage_type, "file");
    assert_eq!(s.token_cache_path, "token_cache_default.json");
    assert!(m.status(true).authenticated);
}

#[test]
fn accounts_are_read_from_cache_file_names() {
    let names = vec![
        "token_cache_work.json".to_string(),
        "token_cache_personal.json".to_string(),
        "unrelated.txt".to_string(),
    ];
    let accounts = accounts_from_filenames(&names);
    assert_eq!(accounts, vec!["work".to_string(), "personal".to_string()]);
    let edge = vec![
        "token_cache_.json".to_string(),
        "token_cache_x.json".to_string(),
        "token_cache_json".to_string(),
    ];
    assert_eq!(accounts_from_filenames(&edge), vec!["".to_string(), "x".to_string()]);
}

// --- error descriptions ---

#[test]
fn errors_describe_themselves() {
    assert_eq!(
        AuthError::InvalidCredentials("x".to_string()).describe(),
        "Invalid credentials: x"
    );
    assert_eq!(AuthError::FlowFailed("y".to_string()).describe(), "Authentication flow failed: y");
    assert_eq!(AuthError::TokenFailed("z".to_string()).describe(), "Failed to get token: z");
    assert_eq!(AuthError::StorageError("w".to_string()).describe(), "Token storage error: w");
    assert_eq!(
        TokenManagerError::NotAuthenticated.describe(),
        "Not authenticated. Run 'workspace-cli auth login' first."
    );
    assert_eq!(
        TokenManagerError::Auth(AuthError::FlowFailed("q".to_string())).describe(),
        "Authentication error: Authentication flow failed: q"
    );
}

// --- the JSON workhorse ---

#[test]
fn json_parser_reads_the_usual_shapes() {
    let doc = parse_json(r#" {"a": [1, -2, true, null, "s\n\"tA"], "b": {"c": 2.5}} "#)
        .expect("parses");
    let out = render_json(&doc);
    // the renderer writes control characters as \u escapes
    assert_eq!(out, "{\"a\":[1,-2,true,null,\"s\\u000a\\\"tA\"],\"b\":{\"c\":2.5}}");
}

#[test]
fn json_parser_rejects_malformed_text() {
    for bad in ["", "{", "[1,]", "{\"a\":}", "tru", "\"unclosed", "1 2", "{\"a\" 1}"] {
        assert!(parse_json(bad).is_none(), "accepted {:?}", bad);
    }
}

#[test]
fn json_numbers_keep_their_integer_values() {
    let doc = parse_json("[0, 9223372036854775807, -9223372036854775808, 12e3]").expect("parses");
    match &doc {
        JsonVal::Arr(items) => {
            assert!(matches!(items[0], JsonVal::Int(0)));
            assert!(matches!(items[1], JsonVal::Int(i64::MAX)));
            assert!(matches!(items[2], JsonVal::Int(i64::MIN)));
            assert!(matches!(items[3], JsonVal::NumText(_)));
        }
        _ => panic!("expected an array"),
    }
    let huge = parse_json("[9223372036854775808]").expect("parses");
    match &huge {
        JsonVal::Arr(items) => assert!(matches!(items[0], JsonVal::NumText(_))),
        _ => panic!("expected an array"),
    }
}

#[test]
fn json_render_then_parse_is_identity() {
    let text = r#"{"k":"v","n":[{"x":-1},"two",[]],"t":true}"#;
    let doc = parse_json(text).expect("parses");
    assert_eq!(render_json(&doc), text);
    let doc2 = parse_json(&render_json(&doc)).expect("reparses");
    assert_eq!(render_json(&doc2), text);
}

// --- documents and wrappers end to end ---

#[test]
fn token_document_renders_and_reloads() {
    let t = token("doc-access", Some("doc-refresh"), Some(123456));
    let doc = workspace_cli::token::token_to_json(&t);
    let text = render_json(&doc);
    let back = load_token_text(&text, 0).expect("loads");
    assert_eq!(back.access_token, "doc-access");
    assert_eq!(back.refresh_token.as_deref(), Some("doc-refresh"));
    assert_eq!(back.expires_at, Some(123456));
}

#[test]
fn scope_list_joins_to_the_query_value() {
    let scopes = workspace_cli::oauth::scopes();
    assert_eq!(scopes.len(), 7);
    let joined = workspace_cli::oauth::scopes_joined();
    assert_eq!(scopes.join(" "), joined);
    assert!(joined.starts_with("https://www.googleapis.com/auth/gmail.modify "));
    assert!(joined.ends_with(" https://www.googleapis.com/auth/tasks"));
}

#[test]
fn composed_mail_carries_clock_and_identifier_headers() {
    let params = workspace_cli::gmail::ComposeParams {
        to: "to@example.com".to_string(),
        subject: "Hi".to_string(),
        body: "b".to_string(),
        from: None,
        cc: None,
        in_reply_to: None,
        references: None,
        thread_id: None,
    };
    let raw = workspace_cli::gmail::compose_raw_email(&params);
    assert!(raw.starts_with("Date: "));
    assert!(raw.contains("\r\nMessage-ID: <"));
    assert!(raw.contains("@workspace-cli>\r\n"));
    assert!(raw.contains("\r\nTo: to@example.com\r\n"));
    assert!(raw.ends_with("\r\n\r\nb"));
}

#[test]
fn new_watch_requests_use_fresh_channel_ids() {
    let (id, body) = workspace_cli::drive::new_watch_request("https://cb.example", &None, None);
    assert_eq!(id.len(), 36);
    let rendered = render_json(&body);
    assert!(rendered.contains(&format!("\"id\":\"{}\"", id)));
    let (id2, _) = workspace_cli::drive::new_watch_request("https://cb.example", &None, None);
    assert_ne!(id, id2);
}
