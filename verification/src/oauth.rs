//! The OAuth2 installed-application authenticator: authorization URL,
//! code-exchange and refresh requests, and the decision among a cached
//! token, a refresh, and a fresh interactive flow.

use vstd::prelude::*;
use vstd::utf8::encode_utf8;
use crate::credentials::{OAuthCredentials, CredModel};
use crate::encoding::{pct_encoded, percent_encode};
use crate::errors::AuthError;
use crate::json::{JsonVal, JsonModel, json_get, json_parse, parse_json};
use crate::token::{
    OAuthToken, TokenResponse, opt_text_view, opt_int_view, spec_is_expired, spec_expiry,
    token_from_response, refreshed_token, token_fields, save_payload, load_token_text,
    token_text, clone_opt_string,
};

verus! {

/// The fixed local port the provider redirects back to.
pub const OAUTH_REDIRECT_PORT: u16 = 8085;

pub open spec fn redirect_uri_model() -> Seq<char> {
    "http://127.0.0.1:8085"@
}

/// The fixed loopback redirect URI, exactly as registered with the provider.
pub fn redirect_uri() -> (r: String)
    ensures
        r@ == redirect_uri_model(),
{
    String::from_str("http://127.0.0.1:8085")
}

pub open spec fn scopes_model() -> Seq<Seq<char>> {
    seq![
        "https://www.googleapis.com/auth/gmail.modify"@,
        "https://www.googleapis.com/auth/drive"@,
        "https://www.googleapis.com/auth/calendar"@,
        "https://www.googleapis.com/auth/documents"@,
        "https://www.googleapis.com/auth/spreadsheets"@,
        "https://www.googleapis.com/auth/presentations"@,
        "https://www.googleapis.com/auth/tasks"@,
    ]
}

/// The seven full-access scopes every flow requests.
pub fn scopes() -> (r: Vec<String>)
    ensures
        Seq::new(r@.len(), |i: int| r@[i]@) =~= scopes_model(),
{
    let mut out: Vec<String> = Vec::new();
    out.push(String::from_str("https://www.googleapis.com/auth/gmail.modify"));
    out.push(String::from_str("https://www.googleapis.com/auth/drive"));
    out.push(String::from_str("https://www.googleapis.com/auth/calendar"));
    out.push(String::from_str("https://www.googleapis.com/auth/documents"));
    out.push(String::from_str("https://www.googleapis.com/auth/spreadsheets"));
    out.push(String::from_str("https://www.googleapis.com/auth/presentations"));
    out.push(String::from_str("https://www.googleapis.com/auth/tasks"));
    out
}

pub open spec fn scopes_joined_model() -> Seq<char> {
    "https://www.googleapis.com/auth/gmail.modify"@ + " "@
        + "https://www.googleapis.com/auth/drive"@ + " "@
        + "https://www.googleapis.com/auth/calendar"@ + " "@
        + "https://www.googleapis.com/auth/documents"@ + " "@
        + "https://www.googleapis.com/auth/spreadsheets"@ + " "@
        + "https://www.googleapis.com/auth/presentations"@ + " "@
        + "https://www.googleapis.com/auth/tasks"@
}

/// The scope list as one space-joined value.
pub fn scopes_joined() -> (r: String)
    ensures
        r@ == scopes_joined_model(),
{
    let mut out = String::from_str("https://www.googleapis.com/auth/gmail.modify");
    out.append(" ");
    out.append("https://www.googleapis.com/auth/drive");
    out.append(" ");
    out.append("https://www.googleapis.com/auth/calendar");
    out.append(" ");
    out.append("https://www.googleapis.com/auth/documents");
    out.append(" ");
    out.append("https://www.googleapis.com/auth/spreadsheets");
    out.append(" ");
    out.append("https://www.googleapis.com/auth/presentations");
    out.append(" ");
    out.append("https://www.googleapis.com/auth/tasks");
    out
}

/// The browser-facing authorization URL for given credentials: fixed response
/// type, the percent-encoded client id, redirect URI and joined scopes,
/// offline access, and forced consent.
pub open spec fn auth_url_model(c: CredModel) -> Seq<char> {
    c.auth_uri + "?response_type=code&client_id="@ + pct_encoded(encode_utf8(c.client_id))
        + "&redirect_uri="@ + pct_encoded(encode_utf8(redirect_uri_model())) + "&scope="@
        + pct_encoded(encode_utf8(scopes_joined_model()))
        + "&access_type=offline&prompt=consent"@
}

/// An HTTP POST to the token endpoint, as data: the URL and the form fields.
pub struct TokenRequest {
    pub url: String,
    pub params: Vec<(String, String)>,
}

pub open spec fn params_view(v: Seq<(String, String)>) -> Seq<(Seq<char>, Seq<char>)> {
    Seq::new(v.len(), |i: int| (v[i].0@, v[i].1@))
}

/// The form fields of an authorization-code exchange.
pub open spec fn exchange_params_model(c: CredModel, code: Seq<char>) -> Seq<
    (Seq<char>, Seq<char>),
> {
    seq![
        ("code"@, code),
        ("client_id"@, c.client_id),
        ("client_secret"@, c.client_secret),
        ("redirect_uri"@, redirect_uri_model()),
        ("grant_type"@, "authorization_code"@),
    ]
}

/// The form fields of a refresh.
pub open spec fn refresh_params_model(c: CredModel, refresh_token: Seq<char>) -> Seq<
    (Seq<char>, Seq<char>),
> {
    seq![
        ("refresh_token"@, refresh_token),
        ("client_id"@, c.client_id),
        ("client_secret"@, c.client_secret),
        ("grant_type"@, "refresh_token"@),
    ]
}

/// What the authenticator asks its caller to do next for a token.
pub enum TokenStep {
    /// A valid token is at hand: use this access token.
    Ready(String),
    /// Read the token-cache file and hand its text back.
    LoadCache,
    /// Send this refresh request to the token endpoint.
    Refresh(TokenRequest),
    /// Run the interactive flow, starting from this authorization URL.
    RunFlow(String),
}

/// The authenticator: credentials, the current token, and where the token
/// cache lives.  All network and file work is the caller's; this value
/// decides and interprets.
pub struct WorkspaceAuthenticator {
    pub credentials: OAuthCredentials,
    pub token: Option<OAuthToken>,
    pub token_cache_path: String,
}

impl WorkspaceAuthenticator {
    /// A fresh authenticator with no token loaded.
    pub fn new(credentials: OAuthCredentials, token_cache_path: String) -> (r:
        WorkspaceAuthenticator)
        ensures
            r.credentials == credentials,
            r.token is None,
            r.token_cache_path == token_cache_path,
    {
        WorkspaceAuthenticator { credentials, token: None, token_cache_path }
    }

    /// Build the authorization URL.
    pub fn build_auth_url(&self) -> (r: String)
        ensures
            r@ == auth_url_model(self.credentials@),
    {
        let mut out = self.credentials.auth_uri.clone();
        out.append("?response_type=code&client_id=");
        let enc_id = percent_encode(self.credentials.client_id.as_str());
        out.append(enc_id.as_str());
        out.append("&redirect_uri=");
        let ruri = redirect_uri();
        let enc_ruri = percent_encode(ruri.as_str());
        out.append(enc_ruri.as_str());
        out.append("&scope=");
        let joined = scopes_joined();
        let enc_scope = percent_encode(joined.as_str());
        out.append(enc_scope.as_str());
        out.append("&access_type=offline&prompt=consent");
        out
    }

    /// The code-exchange request for an authorization code.
    pub fn exchange_request(&self, code: &str) -> (r: TokenRequest)
        ensures
            r.url@ == self.credentials.token_uri@,
            params_view(r.params@) =~= exchange_params_model(self.credentials@, code@),
    {
        let mut params: Vec<(String, String)> = Vec::new();
        params.push((String::from_str("code"), String::from_str(code)));
        params.push((String::from_str("client_id"), self.credentials.client_id.clone()));
        params.push((String::from_str("client_secret"), self.credentials.client_secret.clone()));
        params.push((String::from_str("redirect_uri"), redirect_uri()));
        params.push((String::from_str("grant_type"), String::from_str("authorization_code")));
        TokenRequest { url: self.credentials.token_uri.clone(), params }
    }

    /// The refresh request for a refresh token.
    pub fn refresh_request(&self, refresh_token: &str) -> (r: TokenRequest)
        ensures
            r.url@ == self.credentials.token_uri@,
            params_view(r.params@) =~= refresh_params_model(self.credentials@, refresh_token@),
    {
        let mut params: Vec<(String, String)> = Vec::new();
        params.push((String::from_str("refresh_token"), String::from_str(refresh_token)));
        params.push((String::from_str("client_id"), self.credentials.client_id.clone()));
        params.push((String::from_str("client_secret"), self.credentials.client_secret.clone()));
        params.push((String::from_str("grant_type"), String::from_str("refresh_token")));
        TokenRequest { url: self.credentials.token_uri.clone(), params }
    }

    /// Take the token a cache file's text holds, or report why not; the held
    /// token is untouched on failure.
    pub fn load_cached_text(&mut self, content: &str, now: i64) -> (r: Result<(), AuthError>)
        requires
            0 <= now <= i64::MAX - 3600,
        ensures
            final(self).credentials == old(self).credentials,
            final(self).token_cache_path == old(self).token_cache_path,
            match r {
                Ok(()) => {
                    &&& json_parse(content@) matches Some(m)
                    &&& final(self).token matches Some(t) && crate::token::interpret_cache(
                        m,
                        now as int,
                    ) == Some(token_fields(t))
                },
                Err(e) => final(self).token == old(self).token && e matches
                    AuthError::StorageError(_),
            },
    {
        match load_token_text(content, now) {
            Ok(t) => {
                self.token = Some(t);
                Ok(())
            },
            Err(e) => Err(e),
        }
    }

    /// Decide the next step toward a valid access token.  `cache_tried` says
    /// whether the cache file was already offered; `refresh_failed` says
    /// whether a refresh was attempted and refused in this round.
    pub fn next_token_step(&self, cache_tried: bool, refresh_failed: bool, now: i64) -> (r:
        TokenStep)
        requires
            0 <= now <= i64::MAX - 60,
        ensures
            match self.token {
                None => if !cache_tried {
                    r is LoadCache
                } else {
                    r matches TokenStep::RunFlow(u) && u@ == auth_url_model(self.credentials@)
                },
                Some(t) => if !spec_is_expired(opt_int_view(t.expires_at), now as int) {
                    r matches TokenStep::Ready(a) && a@ == t.access_token@
                } else if t.refresh_token is Some && !refresh_failed {
                    r matches TokenStep::Refresh(q) && q.url@ == self.credentials.token_uri@
                        && params_view(q.params@) == refresh_params_model(
                        self.credentials@,
                        t.refresh_token->0@,
                    )
                } else {
                    r matches TokenStep::RunFlow(u) && u@ == auth_url_model(self.credentials@)
                },
            },
    {
        match &self.token {
            None => {
                if !cache_tried {
                    TokenStep::LoadCache
                } else {
                    TokenStep::RunFlow(self.build_auth_url())
                }
            },
            Some(t) => {
                if !t.is_expired(now) {
                    TokenStep::Ready(t.access_token.clone())
                } else {
                    match &t.refresh_token {
                        Some(rt) => {
                            if !refresh_failed {
                                TokenStep::Refresh(self.refresh_request(rt.as_str()))
                            } else {
                                TokenStep::RunFlow(self.build_auth_url())
                            }
                        },
                        None => TokenStep::RunFlow(self.build_auth_url()),
                    }
                }
            },
        }
    }
}

// ---------------------------------------------------------------------------
// Token-endpoint responses.
// ---------------------------------------------------------------------------

/// What a token-endpoint response document yields: `access_token` must be a
/// string; `refresh_token`, `token_type` and `scope` may be absent, null or
/// strings; `expires_in` may be absent, null, or a non-negative integer.
pub open spec fn response_outcome(m: JsonModel) -> Option<
    (Seq<char>, Option<Seq<char>>, Option<int>),
> {
    match json_get(m, "access_token"@) {
        Some(JsonModel::Text(a)) => {
            let refresh = match json_get(m, "refresh_token"@) {
                Some(JsonModel::Text(r)) => Some(Some(r)),
                Some(JsonModel::Null) => Some(None),
                None => Some(None),
                _ => None,
            };
            let exp = match json_get(m, "expires_in"@) {
                Some(JsonModel::Int(e)) => if 0 <= e <= u64::MAX {
                    Some(Some(e))
                } else {
                    None
                },
                Some(JsonModel::Null) => Some(None),
                None => Some(None),
                _ => None,
            };
            match (refresh, exp) {
                (Some(r), Some(e)) => Some((a, r, e)),
                _ => None,
            }
        },
        _ => None,
    }
}

pub open spec fn opt_u64_view(o: Option<u64>) -> Option<int> {
    match o {
        Some(n) => Some(n as int),
        None => None,
    }
}

/// Read a token-endpoint response body.
pub fn parse_token_response(text: &str) -> (r: Option<TokenResponse>)
    ensures
        match r {
            Some(resp) => {
                &&& json_parse(text@) matches Some(m)
                &&& response_outcome(m) == Some(
                    (
                        resp.access_token@,
                        opt_text_view(resp.refresh_token),
                        opt_u64_view(resp.expires_in),
                    ),
                )
            },
            None => match json_parse(text@) {
                Some(m) => response_outcome(m) is None,
                None => true,
            },
        },
{
    match parse_json(text) {
        Some(v) => {
            match crate::json::get_member(&v, "access_token") {
                Some(av) => match crate::json::as_text(av) {
                    Some(a) => {
                        let refresh_ok: Option<Option<String>> = match crate::json::get_member(
                            &v,
                            "refresh_token",
                        ) {
                            Some(rv) => match rv {
                                JsonVal::Text(rt) => Some(Some(rt.clone())),
                                JsonVal::Null => Some(None),
                                _ => None,
                            },
                            None => Some(None),
                        };
                        let exp_ok: Option<Option<u64>> = match crate::json::get_member(
                            &v,
                            "expires_in",
                        ) {
                            Some(ev) => match ev {
                                JsonVal::Int(e) => if *e >= 0 {
                                    Some(Some(*e as u64))
                                } else {
                                    None
                                },
                                JsonVal::Null => Some(None),
                                _ => None,
                            },
                            None => Some(None),
                        };
                        let token_type: Option<String> = match crate::json::get_member(
                            &v,
                            "token_type",
                        ) {
                            Some(tv) => match crate::json::as_text(tv) {
                                Some(t) => Some(t.clone()),
                                None => None,
                            },
                            None => None,
                        };
                        let scope: Option<String> = match crate::json::get_member(&v, "scope") {
                            Some(sv) => match crate::json::as_text(sv) {
                                Some(t) => Some(t.clone()),
                                None => None,
                            },
                            None => None,
                        };
                        match (refresh_ok, exp_ok) {
                            (Some(refresh_token), Some(expires_in)) => Some(
                                TokenResponse {
                                    access_token: a.clone(),
                                    refresh_token,
                                    expires_in,
                                    token_type,
                                    scope,
                                },
                            ),
                            _ => None,
                        }
                    },
                    None => None,
                },
                None => None,
            }
        },
        None => None,
    }
}

impl WorkspaceAuthenticator {
    /// Interpret the outcome of a code exchange.  A non-success status is a
    /// flow failure carrying the body text; an unreadable body is a flow
    /// failure; otherwise the new token is installed and returned together
    /// with the cache-file text to persist.
    pub fn apply_exchange_response(&mut self, status_ok: bool, body: &str, now: i64) -> (r:
        Result<(OAuthToken, String), AuthError>)
        requires
            now >= 0,
        ensures
            final(self).credentials == old(self).credentials,
            final(self).token_cache_path == old(self).token_cache_path,
            match r {
                Ok((t, payload)) => {
                    &&& status_ok
                    &&& json_parse(body@) matches Some(m) && response_outcome(m) matches Some(
                        (a, rf, ei),
                    ) && t.access_token@ == a && opt_text_view(t.refresh_token) == rf
                        && opt_int_view(t.expires_at) == spec_expiry_int(ei, now as int)
                    &&& final(self).token matches Some(held) && token_fields(held)
                        == token_fields(t)
                    &&& payload@ == token_text(
                        t.access_token@,
                        opt_text_view(t.refresh_token),
                        opt_int_view(t.expires_at),
                    )
                },
                Err(e) => {
                    &&& final(self).token == old(self).token
                    &&& !status_ok ==> (e matches AuthError::FlowFailed(msg) && msg@
                        == "Token exchange failed: "@ + body@)
                    &&& status_ok ==> (e matches AuthError::FlowFailed(msg) && msg@
                        == "Failed to parse token response"@ && (match json_parse(body@) {
                        Some(m) => response_outcome(m) is None,
                        None => true,
                    }))
                },
            },
    {
        if !status_ok {
            let mut msg = String::from_str("Token exchange failed: ");
            msg.append(body);
            return Err(AuthError::FlowFailed(msg));
        }
        match parse_token_response(body) {
            Some(resp) => {
                let t = token_from_response(&resp, now);
                let payload = save_payload(&t);
                let held = t.clone_token();
                self.token = Some(held);
                Ok((t, payload))
            },
            None => Err(AuthError::FlowFailed(String::from_str("Failed to parse token response"))),
        }
    }

    /// Interpret the outcome of a refresh.  A non-success status or an
    /// unreadable body is a token failure; otherwise the new token — keeping
    /// the prior refresh credential when the response omits one — is
    /// installed and returned together with the cache-file text to persist.
    pub fn apply_refresh_response(&mut self, status_ok: bool, body: &str, now: i64) -> (r:
        Result<(OAuthToken, String), AuthError>)
        requires
            now >= 0,
        ensures
            final(self).credentials == old(self).credentials,
            final(self).token_cache_path == old(self).token_cache_path,
            match r {
                Ok((t, payload)) => {
                    &&& status_ok
                    &&& json_parse(body@) matches Some(m) && response_outcome(m) matches Some(
                        (a, rf, ei),
                    ) && t.access_token@ == a && (rf is Some ==> opt_text_view(t.refresh_token)
                        == rf) && (rf is None ==> opt_text_view(t.refresh_token) == prior_refresh(
                        old(self).token,
                    )) && opt_int_view(t.expires_at) == spec_expiry_int(ei, now as int)
                    &&& final(self).token matches Some(held) && token_fields(held)
                        == token_fields(t)
                    &&& payload@ == token_text(
                        t.access_token@,
                        opt_text_view(t.refresh_token),
                        opt_int_view(t.expires_at),
                    )
                },
                Err(e) => {
                    &&& final(self).token == old(self).token
                    &&& !status_ok ==> (e matches AuthError::TokenFailed(msg) && msg@
                        == "Token refresh failed: "@ + body@)
                    &&& status_ok ==> (e matches AuthError::TokenFailed(msg) && msg@
                        == "Failed to parse refresh response"@ && (match json_parse(body@) {
                        Some(m) => response_outcome(m) is None,
                        None => true,
                    }))
                },
            },
    {
        if !status_ok {
            let mut msg = String::from_str("Token refresh failed: ");
            msg.append(body);
            return Err(AuthError::TokenFailed(msg));
        }
        match parse_token_response(body) {
            Some(resp) => {
                let prior: Option<String> = match &self.token {
                    Some(t) => clone_opt_string(&t.refresh_token),
                    None => None,
                };
                let t = refreshed_token(&prior, &resp, now);
                let payload = save_payload(&t);
                let held = t.clone_token();
                self.token = Some(held);
                Ok((t, payload))
            },
            None => Err(
                AuthError::TokenFailed(String::from_str("Failed to parse refresh response")),
            ),
        }
    }
}

/// The refresh credential a held token carries, if any.
pub open spec fn prior_refresh(token: Option<OAuthToken>) -> Option<Seq<char>> {
    match token {
        Some(t) => opt_text_view(t.refresh_token),
        None => None,
    }
}

/// `now + expires_in` when a lifetime is given (held at `i64::MAX` where the
/// sum would not fit), absent otherwise.
pub open spec fn spec_expiry_int(expires_in: Option<int>, now: int) -> Option<int> {
    match expires_in {
        Some(s) => if now + s > i64::MAX {
            Some(i64::MAX as int)
        } else {
            Some(now + s)
        },
        None => None,
    }
}

} // verus!
