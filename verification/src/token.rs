//! Tokens: expiry, the shapes returned by the provider's token endpoint,
//! and the on-disk token-cache format with its legacy fallback.

use vstd::prelude::*;
use crate::errors::AuthError;
use crate::json::{
    JsonVal, JsonModel, json_get, json_parse, parse_json, render, view_members, view_seq,
    lemma_view_members, lemma_view_seq,
};

verus! {

/// A stored token: the bearer credential, the long-lived refresh credential,
/// and an absolute expiry instant in epoch seconds.
pub struct OAuthToken {
    pub access_token: String,
    pub refresh_token: Option<String>,
    pub expires_at: Option<i64>,
}

/// What the provider's token endpoint returns on success.
pub struct TokenResponse {
    pub access_token: String,
    pub refresh_token: Option<String>,
    pub expires_in: Option<u64>,
    pub token_type: Option<String>,
    pub scope: Option<String>,
}

pub open spec fn opt_text_view(o: Option<String>) -> Option<Seq<char>> {
    match o {
        Some(s) => Some(s@),
        None => None,
    }
}

pub open spec fn opt_int_view(o: Option<i64>) -> Option<int> {
    match o {
        Some(n) => Some(n as int),
        None => None,
    }
}

/// A token is expired exactly when it carries an expiry instant no later
/// than sixty seconds past `now`; a token without one never expires.
pub open spec fn spec_is_expired(expires_at: Option<int>, now: int) -> bool {
    match expires_at {
        Some(e) => e <= now + 60,
        None => false,
    }
}

impl OAuthToken {
    /// Whether the token is expired at `now` (with a sixty-second buffer).
    pub fn is_expired(&self, now: i64) -> (r: bool)
        requires
            now <= i64::MAX - 60,
        ensures
            r == spec_is_expired(opt_int_view(self.expires_at), now as int),
    {
        match self.expires_at {
            Some(e) => e <= now + 60,
            None => false,
        }
    }

    pub fn clone_token(&self) -> (r: OAuthToken)
        ensures
            r.access_token@ == self.access_token@,
            opt_text_view(r.refresh_token) == opt_text_view(self.refresh_token),
            r.expires_at == self.expires_at,
    {
        OAuthToken {
            access_token: self.access_token.clone(),
            refresh_token: clone_opt_string(&self.refresh_token),
            expires_at: self.expires_at,
        }
    }
}

/// A token never expires for want of an expiry instant, and expires exactly
/// at sixty seconds before the instant otherwise, whatever `now` is.
pub proof fn lemma_expiry_rule(expires_at: Option<int>, now: int)
    ensures
        expires_at is None ==> !spec_is_expired(expires_at, now),
        expires_at matches Some(e) ==> (spec_is_expired(expires_at, now) <==> e <= now + 60),
{
}

pub fn clone_opt_string(o: &Option<String>) -> (r: Option<String>)
    ensures
        opt_text_view(r) == opt_text_view(*o),
{
    match o {
        Some(s) => Some(s.clone()),
        None => None,
    }
}

/// The expiry instant derived from a token response at `now`:
/// `now + expires_in` when the response carries a lifetime (held at
/// `i64::MAX` where the sum would not fit), absent otherwise.
pub open spec fn spec_expiry(expires_in: Option<u64>, now: int) -> Option<int> {
    match expires_in {
        Some(s) => if now + s > i64::MAX {
            Some(i64::MAX as int)
        } else {
            Some(now + s)
        },
        None => None,
    }
}

/// The token a fresh authorization-code exchange yields.
pub fn token_from_response(resp: &TokenResponse, now: i64) -> (t: OAuthToken)
    requires
        now >= 0,
    ensures
        t.access_token@ == resp.access_token@,
        opt_text_view(t.refresh_token) == opt_text_view(resp.refresh_token),
        opt_int_view(t.expires_at) == spec_expiry(resp.expires_in, now as int),
{
    let expires_at: Option<i64> = match resp.expires_in {
        Some(s) => if s > ((i64::MAX - now) as u64) {
            Some(i64::MAX)
        } else {
            Some(now + s as i64)
        },
        None => None,
    };
    OAuthToken {
        access_token: resp.access_token.clone(),
        refresh_token: clone_opt_string(&resp.refresh_token),
        expires_at,
    }
}

/// The token a refresh yields: the prior refresh credential is carried
/// forward when the response omits one, and replaced when one is present.
pub fn refreshed_token(prior_refresh: &Option<String>, resp: &TokenResponse, now: i64) -> (t:
    OAuthToken)
    requires
        now >= 0,
    ensures
        t.access_token@ == resp.access_token@,
        resp.refresh_token is Some ==> opt_text_view(t.refresh_token) == opt_text_view(
            resp.refresh_token,
        ),
        resp.refresh_token is None ==> opt_text_view(t.refresh_token) == opt_text_view(
            *prior_refresh,
        ),
        opt_int_view(t.expires_at) == spec_expiry(resp.expires_in, now as int),
{
    let refresh_token: Option<String> = match &resp.refresh_token {
        Some(s) => Some(s.clone()),
        None => clone_opt_string(prior_refresh),
    };
    let expires_at: Option<i64> = match resp.expires_in {
        Some(s) => if s > ((i64::MAX - now) as u64) {
            Some(i64::MAX)
        } else {
            Some(now + s as i64)
        },
        None => None,
    };
    OAuthToken {
        access_token: resp.access_token.clone(),
        refresh_token,
        expires_at,
    }
}

/// A refresh keeps the prior refresh credential when the response omits one,
/// and takes the response's when it carries one.
pub proof fn lemma_refresh_preserves_refresh_token(
    prior: Option<Seq<char>>,
    response_refresh: Option<Seq<char>>,
    outcome: Option<Seq<char>>,
)
    requires
        outcome == (if response_refresh is Some {
            response_refresh
        } else {
            prior
        }),
    ensures
        response_refresh is None ==> outcome == prior,
        response_refresh is Some ==> outcome == response_refresh,
{
}

// ---------------------------------------------------------------------------
// The token-cache document.
// ---------------------------------------------------------------------------

/// The document this crate writes for a token.
pub open spec fn token_model(
    access: Seq<char>,
    refresh: Option<Seq<char>>,
    exp: Option<int>,
) -> JsonModel {
    JsonModel::Obj(
        seq![
            ("access_token"@, JsonModel::Text(access)),
            (
                "refresh_token"@,
                match refresh {
                    Some(r) => JsonModel::Text(r),
                    None => JsonModel::Null,
                },
            ),
            (
                "expires_at"@,
                match exp {
                    Some(e) => JsonModel::Int(e),
                    None => JsonModel::Null,
                },
            ),
        ],
    )
}

/// The token as a JSON document.
pub fn token_to_json(t: &OAuthToken) -> (v: JsonVal)
    ensures
        v@ == token_model(t.access_token@, opt_text_view(t.refresh_token), opt_int_view(
            t.expires_at,
        )),
{
    let mut members: Vec<(String, JsonVal)> = Vec::new();
    members.push((String::from_str("access_token"), JsonVal::Text(t.access_token.clone())));
    let refresh: JsonVal = match &t.refresh_token {
        Some(r) => JsonVal::Text(r.clone()),
        None => JsonVal::Null,
    };
    members.push((String::from_str("refresh_token"), refresh));
    let exp: JsonVal = match t.expires_at {
        Some(e) => JsonVal::Int(e),
        None => JsonVal::Null,
    };
    members.push((String::from_str("expires_at"), exp));
    let v = JsonVal::Obj(members);
    proof {
        lemma_view_members(v->Obj_0@);
        assert(view_members(v->Obj_0@) =~= token_model(
            t.access_token@,
            opt_text_view(t.refresh_token),
            opt_int_view(t.expires_at),
        )->Obj_0);
    }
    v
}

// ---------------------------------------------------------------------------
// Interpreting a parsed cache document: first the legacy array shape, then
// the native shape.
// ---------------------------------------------------------------------------

/// The refresh credential a legacy wrapper object carries.
pub open spec fn legacy_refresh(tok: JsonModel) -> Option<Seq<char>> {
    match json_get(tok, "refresh_token"@) {
        Some(JsonModel::Text(r)) => Some(r),
        _ => None,
    }
}

/// The expiry a legacy wrapper object stands for: the legacy instant encoding
/// is not decoded; a present encoded instant is approximated as one hour past
/// `now`.
pub open spec fn legacy_expiry(tok: JsonModel, now: int) -> Option<int> {
    match json_get(tok, "expires_at"@) {
        Some(JsonModel::Arr(a)) => Some(now + 3600),
        _ => None,
    }
}

/// What a legacy-format cache document (an array of wrapper objects, the
/// first holding a nested `token` object) yields.
pub open spec fn legacy_token(m: JsonModel, now: int) -> Option<
    (Seq<char>, Option<Seq<char>>, Option<int>),
> {
    match m {
        JsonModel::Arr(items) => if items.len() > 0 {
            match json_get(items[0], "token"@) {
                Some(tok) => match json_get(tok, "access_token"@) {
                    Some(JsonModel::Text(a)) => Some(
                        (a, legacy_refresh(tok), legacy_expiry(tok, now)),
                    ),
                    _ => None,
                },
                None => None,
            }
        } else {
            None
        },
        _ => None,
    }
}

/// What a native-format cache document yields: `access_token` must be a
/// string; `refresh_token` and `expires_at` may be absent or null.
pub open spec fn native_token(m: JsonModel) -> Option<
    (Seq<char>, Option<Seq<char>>, Option<int>),
> {
    match json_get(m, "access_token"@) {
        Some(JsonModel::Text(a)) => {
            let refresh = match json_get(m, "refresh_token"@) {
                Some(JsonModel::Text(r)) => Some(Some(r)),
                Some(JsonModel::Null) => Some(None),
                None => Some(None),
                _ => None,
            };
            let exp = match json_get(m, "expires_at"@) {
                Some(JsonModel::Int(e)) => if i64::MIN <= e <= i64::MAX {
                    Some(Some(e))
                } else {
                    None
                },
                Some(JsonModel::Null) => Some(None),
                None => Some(None),
                _ => None,
            };
            match (refresh, exp) {
                (Some(r), Some(e)) => Some((a, r, e)),
                _ => None,
            }
        },
        _ => None,
    }
}

/// What a cache document yields: the legacy shape takes precedence, as the
/// loader has always probed it first.
pub open spec fn interpret_cache(m: JsonModel, now: int) -> Option<
    (Seq<char>, Option<Seq<char>>, Option<int>),
> {
    match legacy_token(m, now) {
        Some(t) => Some(t),
        None => native_token(m),
    }
}

pub open spec fn token_fields(t: OAuthToken) -> (Seq<char>, Option<Seq<char>>, Option<int>) {
    (t.access_token@, opt_text_view(t.refresh_token), opt_int_view(t.expires_at))
}

/// The token a legacy-format document stands for.
fn legacy_from_doc(v: &JsonVal, now: i64) -> (r: Option<OAuthToken>)
    requires
        0 <= now <= i64::MAX - 3600,
    ensures
        match r {
            Some(t) => legacy_token(v@, now as int) == Some(token_fields(t)),
            None => legacy_token(v@, now as int) is None,
        },
{
    match crate::json::as_array(v) {
        Some(items) => {
            if items.len() > 0 {
                proof {
                    lemma_view_seq(items@);
                }
                match crate::json::get_member(&items[0], "token") {
                    Some(tok) => match crate::json::get_member(tok, "access_token") {
                        Some(av) => match crate::json::as_text(av) {
                            Some(a) => {
                                let refresh_token: Option<String> = match crate::json::get_member(
                                    tok,
                                    "refresh_token",
                                ) {
                                    Some(rv) => match crate::json::as_text(rv) {
                                        Some(rt) => Some(rt.clone()),
                                        None => None,
                                    },
                                    None => None,
                                };
                                let expires_at: Option<i64> = match crate::json::get_member(
                                    tok,
                                    "expires_at",
                                ) {
                                    Some(ev) => match crate::json::as_array(ev) {
                                        Some(_) => Some(now + 3600),
                                        None => None,
                                    },
                                    None => None,
                                };
                                Some(
                                    OAuthToken {
                                        access_token: a.clone(),
                                        refresh_token,
                                        expires_at,
                                    },
                                )
                            },
                            None => None,
                        },
                        None => None,
                    },
                    None => None,
                }
            } else {
                None
            }
        },
        None => None,
    }
}

/// The token a native-format document stands for.
fn native_from_doc(v: &JsonVal) -> (r: Option<OAuthToken>)
    ensures
        match r {
            Some(t) => native_token(v@) == Some(token_fields(t)),
            None => native_token(v@) is None,
        },
{
    match crate::json::get_member(v, "access_token") {
        Some(av) => match crate::json::as_text(av) {
            Some(a) => {
                let refresh_ok: Option<Option<String>> = match crate::json::get_member(
                    v,
                    "refresh_token",
                ) {
                    Some(rv) => match rv {
                        JsonVal::Text(rt) => Some(Some(rt.clone())),
                        JsonVal::Null => Some(None),
                        _ => None,
                    },
                    None => Some(None),
                };
                let exp_ok: Option<Option<i64>> = match crate::json::get_member(
                    v,
                    "expires_at",
                ) {
                    Some(ev) => match ev {
                        JsonVal::Int(e) => Some(Some(*e)),
                        JsonVal::Null => Some(None),
                        _ => None,
                    },
                    None => Some(None),
                };
                match (refresh_ok, exp_ok) {
                    (Some(refresh_token), Some(expires_at)) => Some(
                        OAuthToken { access_token: a.clone(), refresh_token, expires_at },
                    ),
                    _ => None,
                }
            },
            None => None,
        },
        None => None,
    }
}

/// The text this crate writes to a token-cache file.
#[verifier::opaque]
pub open spec fn token_text(a: Seq<char>, r: Option<Seq<char>>, e: Option<int>) -> Seq<char> {
    "{\n  \"access_token\": "@ + render(JsonModel::Text(a)) + ",\n  \"refresh_token\": "@
        + render(
        match r {
            Some(rt) => JsonModel::Text(rt),
            None => JsonModel::Null,
        },
    ) + ",\n  \"expires_at\": "@ + render(
        match e {
            Some(x) => JsonModel::Int(x),
            None => JsonModel::Null,
        },
    ) + "\n}"@
}

/// Serialize a token for its cache file.
pub fn save_payload(t: &OAuthToken) -> (r: String)
    ensures
        r@ == token_text(t.access_token@, opt_text_view(t.refresh_token), opt_int_view(
            t.expires_at,
        )),
{
    proof {
        reveal(token_text);
    }
    let mut out = String::from_str("{\n  \"access_token\": ");
    let access = crate::json::render_json(&JsonVal::Text(t.access_token.clone()));
    out.append(access.as_str());
    out.append(",\n  \"refresh_token\": ");
    let refresh_val: JsonVal = match &t.refresh_token {
        Some(rt) => JsonVal::Text(rt.clone()),
        None => JsonVal::Null,
    };
    let refresh = crate::json::render_json(&refresh_val);
    out.append(refresh.as_str());
    out.append(",\n  \"expires_at\": ");
    let exp_val: JsonVal = match t.expires_at {
        Some(e) => JsonVal::Int(e),
        None => JsonVal::Null,
    };
    let exp = crate::json::render_json(&exp_val);
    out.append(exp.as_str());
    out.append("\n}");
    out
}

/// Read a token back from cache-file text: the legacy array shape is probed
/// first, then the native shape; text in neither shape is a storage error.
pub fn load_token_text(content: &str, now: i64) -> (r: Result<OAuthToken, AuthError>)
    requires
        0 <= now <= i64::MAX - 3600,
    ensures
        match r {
            Ok(t) => json_parse(content@) matches Some(m) && interpret_cache(m, now as int)
                == Some(token_fields(t)),
            Err(e) => {
                &&& match json_parse(content@) {
                    Some(m) => interpret_cache(m, now as int) is None,
                    None => true,
                }
                &&& e matches AuthError::StorageError(msg) && msg@
                    == "Failed to parse token cache"@
            },
        },
{
    match parse_json(content) {
        Some(v) => {
            match legacy_from_doc(&v, now) {
                Some(t) => Ok(t),
                None => match native_from_doc(&v) {
                    Some(t) => Ok(t),
                    None => Err(
                        AuthError::StorageError(String::from_str("Failed to parse token cache")),
                    ),
                },
            }
        },
        None => Err(AuthError::StorageError(String::from_str("Failed to parse token cache"))),
    }
}

} // verus!

verus! {

/// The document written for a token always reads back as the same token:
/// the legacy probe rejects it (it is an object, not an array), and the
/// native reading returns the fields unchanged.
pub proof fn lemma_token_document_round_trip(
    a: Seq<char>,
    r: Option<Seq<char>>,
    e: Option<int>,
    now: int,
)
    requires
        e matches Some(x) ==> i64::MIN <= x <= i64::MAX,
    ensures
        interpret_cache(token_model(a, r, e), now) == Some((a, r, e)),
{
    let m = token_model(a, r, e);
    assert(legacy_token(m, now) is None);
    reveal_strlit("access_token");
    reveal_strlit("refresh_token");
    reveal_strlit("expires_at");
    assert("access_token"@.len() == 12);
    assert("refresh_token"@.len() == 13);
    assert("expires_at"@.len() == 10);
    let members = m->Obj_0;
    assert(members[0].0 == "access_token"@);
    assert(crate::json::obj_lookup(members, "access_token"@) == Some(JsonModel::Text(a)));
    let m1 = members.drop_first();
    let m2 = m1.drop_first();
    assert(m1.len() == 2 && m1[0] == members[1] && m1[1] == members[2]);
    assert(m2.len() == 1 && m2[0] == members[2]);
    assert(crate::json::obj_lookup(m1, "refresh_token"@) == Some(members[1].1));
    assert(crate::json::obj_lookup(members, "refresh_token"@) == Some(members[1].1));
    assert(crate::json::obj_lookup(m2, "expires_at"@) == Some(members[2].1));
    assert(crate::json::obj_lookup(m1, "expires_at"@) == Some(members[2].1));
    assert(crate::json::obj_lookup(members, "expires_at"@) == Some(members[2].1));
    assert(native_token(m) == Some((a, r, e)));
}

/// Loading a legacy-format document whose first wrapper holds a token with
/// an access credential and an encoded expiry yields that credential with
/// an expiry strictly in the future.
pub proof fn lemma_legacy_expiry_future(m: JsonModel, now: int)
    requires
        m matches JsonModel::Arr(items) && items.len() > 0,
        json_get(m->Arr_0[0], "token"@) matches Some(tok) && json_get(tok, "access_token"@)
            matches Some(av) && av is Text,
        json_get(json_get(m->Arr_0[0], "token"@)->0, "expires_at"@) matches Some(ev) && ev is Arr,
    ensures
        interpret_cache(m, now) matches Some(f) && f.0 == json_get(
            json_get(m->Arr_0[0], "token"@)->0,
            "access_token"@,
        )->0->Text_0 && f.2 == Some(now + 3600) && now + 3600 > now,
{
    let tok = json_get(m->Arr_0[0], "token"@)->0;
    assert(legacy_expiry(tok, now) == Some(now + 3600));
}

} // verus!

verus! {

use crate::json::{
    window, lemma_window_split, lemma_window_index, lemma_render_text_plain,
    lemma_parse_rendered_string, lemma_parse_rendered_value, is_plain_char, render_text,
    ws_len, parse_value, parse_members, parse_after_member, parse_string, lit_null,
    is_ws_char, render_nat, is_num_tail_char,
};

// Positions inside the written token text: the values stand after fixed
// literal pieces of lengths 20, 21, 18, and a 2-character closer.
spec fn tt_val_r(a: Seq<char>, r: Option<Seq<char>>) -> JsonModel {
    match r {
        Some(rt) => JsonModel::Text(rt),
        None => JsonModel::Null,
    }
}

spec fn tt_val_e(e: Option<int>) -> JsonModel {
    match e {
        Some(x) => JsonModel::Int(x),
        None => JsonModel::Null,
    }
}

spec fn tt_q1(a: Seq<char>) -> int {
    20 + render(JsonModel::Text(a)).len() as int
}

spec fn tt_p2(a: Seq<char>) -> int {
    tt_q1(a) + 21
}

spec fn tt_q2(a: Seq<char>, r: Option<Seq<char>>) -> int {
    tt_p2(a) + render(tt_val_r(a, r)).len() as int
}

spec fn tt_p3(a: Seq<char>, r: Option<Seq<char>>) -> int {
    tt_q2(a, r) + 18
}

spec fn tt_q3(a: Seq<char>, r: Option<Seq<char>>, e: Option<int>) -> int {
    tt_p3(a, r) + render(tt_val_e(e)).len() as int
}

/// The written text decomposes into its literal pieces and rendered values.
proof fn lemma_tt_pieces(a: Seq<char>, r: Option<Seq<char>>, e: Option<int>)
    ensures
        window(token_text(a, r, e), 0, "{\n  \"access_token\": "@),
        window(token_text(a, r, e), 20, render(JsonModel::Text(a))),
        window(token_text(a, r, e), tt_q1(a), ",\n  \"refresh_token\": "@),
        window(token_text(a, r, e), tt_p2(a), render(tt_val_r(a, r))),
        window(token_text(a, r, e), tt_q2(a, r), ",\n  \"expires_at\": "@),
        window(token_text(a, r, e), tt_p3(a, r), render(tt_val_e(e))),
        window(token_text(a, r, e), tt_q3(a, r, e), "\n}"@),
        token_text(a, r, e).len() == tt_q3(a, r, e) + 2,
{
    reveal(token_text);
    let s = token_text(a, r, e);
    let v1 = render(JsonModel::Text(a));
    let v2 = render(tt_val_r(a, r));
    let v3 = render(tt_val_e(e));
    let lit1 = "{\n  \"access_token\": "@;
    let lit2 = ",\n  \"refresh_token\": "@;
    let lit3 = ",\n  \"expires_at\": "@;
    let lit4 = "\n}"@;
    reveal_strlit("{\n  \"access_token\": ");
    reveal_strlit(",\n  \"refresh_token\": ");
    reveal_strlit(",\n  \"expires_at\": ");
    reveal_strlit("\n}");
    assert(lit1.len() == 20 && lit2.len() == 21 && lit3.len() == 18 && lit4.len() == 2);
    assert(s =~= lit1 + (v1 + (lit2 + (v2 + (lit3 + (v3 + lit4))))));
    assert(s.subrange(0, s.len() as int) =~= s);
    assert(window(s, 0, lit1 + (v1 + (lit2 + (v2 + (lit3 + (v3 + lit4)))))));
    lemma_window_split(s, 0, lit1, v1 + (lit2 + (v2 + (lit3 + (v3 + lit4)))));
    lemma_window_split(s, 20, v1, lit2 + (v2 + (lit3 + (v3 + lit4))));
    lemma_window_split(s, tt_q1(a), lit2, v2 + (lit3 + (v3 + lit4)));
    lemma_window_split(s, tt_p2(a), v2, lit3 + (v3 + lit4));
    lemma_window_split(s, tt_q2(a, r), lit3, v3 + lit4);
    lemma_window_split(s, tt_p3(a, r), v3, lit4);
}

/// The concrete characters around the three members.
#[verifier::rlimit(100)]
#[verifier::spinoff_prover]
proof fn lemma_tt_chars(a: Seq<char>, r: Option<Seq<char>>, e: Option<int>)
    ensures
        ({
            let s = token_text(a, r, e);
            let q1 = tt_q1(a);
            let q2 = tt_q2(a, r);
            let q3 = tt_q3(a, r, e);
            &&& s[0] == '{' && s[1] == '\n' && s[2] == ' ' && s[3] == ' ' && s[4] == '"'
            &&& s[18] == ':' && s[19] == ' '
            &&& s[q1] == ',' && s[q1 + 1] == '\n' && s[q1 + 2] == ' ' && s[q1 + 3] == ' '
                && s[q1 + 4] == '"'
            &&& s[q1 + 19] == ':' && s[q1 + 20] == ' '
            &&& s[q2] == ',' && s[q2 + 1] == '\n' && s[q2 + 2] == ' ' && s[q2 + 3] == ' '
                && s[q2 + 4] == '"'
            &&& s[q2 + 16] == ':' && s[q2 + 17] == ' '
            &&& s[q3] == '\n' && s[q3 + 1] == '}'
            &&& window(s, 5, render_text("access_token"@) + seq!['"'])
            &&& window(s, q1 + 5, render_text("refresh_token"@) + seq!['"'])
            &&& window(s, q2 + 5, render_text("expires_at"@) + seq!['"'])
        }),
{
    let s = token_text(a, r, e);
    let q1 = tt_q1(a);
    let q2 = tt_q2(a, r);
    let q3 = tt_q3(a, r, e);
    let lit1 = "{\n  \"access_token\": "@;
    let lit2 = ",\n  \"refresh_token\": "@;
    let lit3 = ",\n  \"expires_at\": "@;
    let lit4 = "\n}"@;
    let key1 = "access_token"@;
    let key2 = "refresh_token"@;
    let key3 = "expires_at"@;
    reveal_strlit("{\n  \"access_token\": ");
    reveal_strlit(",\n  \"refresh_token\": ");
    reveal_strlit(",\n  \"expires_at\": ");
    reveal_strlit("\n}");
    reveal_strlit("access_token");
    reveal_strlit("refresh_token");
    reveal_strlit("expires_at");
    lemma_tt_pieces(a, r, e);
    assert forall|q: int| 0 <= q < key1.len() implies is_plain_char(key1[q]) by {}
    assert forall|q: int| 0 <= q < key2.len() implies is_plain_char(key2[q]) by {}
    assert forall|q: int| 0 <= q < key3.len() implies is_plain_char(key3[q]) by {}
    lemma_render_text_plain(key1);
    lemma_render_text_plain(key2);
    lemma_render_text_plain(key3);
    assert(lit1 =~= seq!['{', '\n', ' ', ' ', '"'] + ((key1 + seq!['"']) + seq![':', ' ']));
    lemma_window_split(s, 0, seq!['{', '\n', ' ', ' ', '"'], (key1 + seq!['"']) + seq![':', ' ']);
    lemma_window_split(s, 5, key1 + seq!['"'], seq![':', ' ']);
    lemma_window_index(s, 0, seq!['{', '\n', ' ', ' ', '"'], 0);
    lemma_window_index(s, 0, seq!['{', '\n', ' ', ' ', '"'], 1);
    lemma_window_index(s, 0, seq!['{', '\n', ' ', ' ', '"'], 2);
    lemma_window_index(s, 0, seq!['{', '\n', ' ', ' ', '"'], 3);
    lemma_window_index(s, 0, seq!['{', '\n', ' ', ' ', '"'], 4);
    lemma_window_index(s, 18, seq![':', ' '], 0);
    lemma_window_index(s, 18, seq![':', ' '], 1);
    assert(lit2 =~= seq![',', '\n', ' ', ' ', '"'] + ((key2 + seq!['"']) + seq![':', ' ']));
    lemma_window_split(s, q1, seq![',', '\n', ' ', ' ', '"'], (key2 + seq!['"']) + seq![
        ':',
        ' ',
    ]);
    lemma_window_split(s, q1 + 5, key2 + seq!['"'], seq![':', ' ']);
    lemma_window_index(s, q1, seq![',', '\n', ' ', ' ', '"'], 0);
    lemma_window_index(s, q1, seq![',', '\n', ' ', ' ', '"'], 1);
    lemma_window_index(s, q1, seq![',', '\n', ' ', ' ', '"'], 2);
    lemma_window_index(s, q1, seq![',', '\n', ' ', ' ', '"'], 3);
    lemma_window_index(s, q1, seq![',', '\n', ' ', ' ', '"'], 4);
    lemma_window_index(s, q1 + 19, seq![':', ' '], 0);
    lemma_window_index(s, q1 + 19, seq![':', ' '], 1);
    assert(lit3 =~= seq![',', '\n', ' ', ' ', '"'] + ((key3 + seq!['"']) + seq![':', ' ']));
    lemma_window_split(s, q2, seq![',', '\n', ' ', ' ', '"'], (key3 + seq!['"']) + seq![
        ':',
        ' ',
    ]);
    lemma_window_split(s, q2 + 5, key3 + seq!['"'], seq![':', ' ']);
    lemma_window_index(s, q2, seq![',', '\n', ' ', ' ', '"'], 0);
    lemma_window_index(s, q2, seq![',', '\n', ' ', ' ', '"'], 1);
    lemma_window_index(s, q2, seq![',', '\n', ' ', ' ', '"'], 2);
    lemma_window_index(s, q2, seq![',', '\n', ' ', ' ', '"'], 3);
    lemma_window_index(s, q2, seq![',', '\n', ' ', ' ', '"'], 4);
    lemma_window_index(s, q2 + 16, seq![':', ' '], 0);
    lemma_window_index(s, q2 + 16, seq![':', ' '], 1);
    lemma_window_index(s, q3, lit4, 0);
    lemma_window_index(s, q3, lit4, 1);
}

/// First characters of the three rendered values: never whitespace, never
/// a closing brace.
#[verifier::rlimit(100)]
#[verifier::spinoff_prover]
proof fn lemma_tt_value_starts(a: Seq<char>, r: Option<Seq<char>>, e: Option<int>)
    ensures
        ({
            let s = token_text(a, r, e);
            &&& s[20] == '"'
            &&& !is_ws_char(s[tt_p2(a)]) && s[tt_p2(a)] != '}'
            &&& !is_ws_char(s[tt_p3(a, r)]) && s[tt_p3(a, r)] != '}'
        }),
{
    let s = token_text(a, r, e);
    let v1 = render(JsonModel::Text(a));
    let v2 = render(tt_val_r(a, r));
    let v3 = render(tt_val_e(e));
    lemma_tt_pieces(a, r, e);
    assert(v1[0] == '"') by {
        assert(v1 =~= seq!['"'] + (render_text(a) + seq!['"']));
    }
    lemma_window_index(s, 20, v1, 0);
    assert(!is_ws_char(v2[0]) && v2[0] != '}') by {
        match tt_val_r(a, r) {
            JsonModel::Text(rt) => {
                assert(v2 =~= seq!['"'] + (render_text(rt) + seq!['"']));
            },
            _ => {
                assert(v2 == lit_null());
            },
        }
    }
    lemma_window_index(s, tt_p2(a), v2, 0);
    assert(!is_ws_char(v3[0]) && v3[0] != '}') by {
        match tt_val_e(e) {
            JsonModel::Int(x) => {
                if x >= 0 {
                    crate::json::lemma_render_nat_digits(x);
                    assert(v3[0] == render_nat(x)[0]);
                } else {
                    assert(v3 =~= seq!['-'] + render_nat(-x));
                }
            },
            _ => {
                assert(v3 == lit_null());
            },
        }
    }
    lemma_window_index(s, tt_p3(a, r), v3, 0);
}

/// The whitespace runs the parser walks over.
#[verifier::rlimit(100)]
#[verifier::spinoff_prover]
proof fn lemma_tt_ws(a: Seq<char>, r: Option<Seq<char>>, e: Option<int>)
    ensures
        ({
            let s = token_text(a, r, e);
            let q1 = tt_q1(a);
            let q2 = tt_q2(a, r);
            let q3 = tt_q3(a, r, e);
            &&& ws_len(s, 0) == 0 && ws_len(s, 1) == 3 && ws_len(s, 18) == 0 && ws_len(s, 19)
                == 1 && ws_len(s, 20) == 0
            &&& ws_len(s, q1) == 0 && ws_len(s, q1 + 1) == 3 && ws_len(s, q1 + 19) == 0
                && ws_len(s, q1 + 20) == 1 && ws_len(s, tt_p2(a)) == 0
            &&& ws_len(s, q2) == 0 && ws_len(s, q2 + 1) == 3 && ws_len(s, q2 + 16) == 0
                && ws_len(s, q2 + 17) == 1 && ws_len(s, tt_p3(a, r)) == 0
            &&& ws_len(s, q3) == 1 && ws_len(s, q3 + 1) == 0 && ws_len(s, s.len() as int) == 0
        }),
{
    let s = token_text(a, r, e);
    let q1 = tt_q1(a);
    let q2 = tt_q2(a, r);
    let q3 = tt_q3(a, r, e);
    lemma_tt_pieces(a, r, e);
    lemma_tt_chars(a, r, e);
    lemma_tt_value_starts(a, r, e);
    crate::json::lemma_ws_run(s, 0, 0);
    crate::json::lemma_ws_run(s, 1, 3);
    crate::json::lemma_ws_run(s, 18, 0);
    crate::json::lemma_ws_run(s, 19, 1);
    crate::json::lemma_ws_run(s, 20, 0);
    crate::json::lemma_ws_run(s, q1, 0);
    crate::json::lemma_ws_run(s, q1 + 1, 3);
    crate::json::lemma_ws_run(s, q1 + 19, 0);
    crate::json::lemma_ws_run(s, q1 + 20, 1);
    crate::json::lemma_ws_run(s, tt_p2(a), 0);
    crate::json::lemma_ws_run(s, q2, 0);
    crate::json::lemma_ws_run(s, q2 + 1, 3);
    crate::json::lemma_ws_run(s, q2 + 16, 0);
    crate::json::lemma_ws_run(s, q2 + 17, 1);
    crate::json::lemma_ws_run(s, tt_p3(a, r), 0);
    crate::json::lemma_ws_run(s, q3, 1);
    crate::json::lemma_ws_run(s, q3 + 1, 0);
    crate::json::lemma_ws_run(s, s.len() as int, 0);
}

/// The text written for a token parses back to exactly the token document.
#[verifier::rlimit(100)]
#[verifier::spinoff_prover]
pub proof fn lemma_token_text_parses(a: Seq<char>, r: Option<Seq<char>>, e: Option<int>)
    requires
        e matches Some(x) ==> i64::MIN <= x <= i64::MAX,
    ensures
        json_parse(token_text(a, r, e)) == Some(token_model(a, r, e)),
{
    let s = token_text(a, r, e);
    let q1 = tt_q1(a);
    let p2 = tt_p2(a);
    let q2 = tt_q2(a, r);
    let p3 = tt_p3(a, r);
    let q3 = tt_q3(a, r, e);
    let m_r = tt_val_r(a, r);
    let m_e = tt_val_e(e);
    let key1 = "access_token"@;
    let key2 = "refresh_token"@;
    let key3 = "expires_at"@;
    lemma_tt_pieces(a, r, e);
    lemma_tt_chars(a, r, e);
    lemma_tt_ws(a, r, e);
    // keys
    lemma_parse_rendered_string(s, 5, key1);
    reveal_strlit("access_token");
    reveal_strlit("refresh_token");
    reveal_strlit("expires_at");
    assert(render_text(key1).len() == 12) by {
        assert forall|q: int| 0 <= q < key1.len() implies is_plain_char(key1[q]) by {}
        lemma_render_text_plain(key1);
    }
    assert(parse_string(s, 5) == Some((key1, 18int)));
    lemma_parse_rendered_string(s, q1 + 5, key2);
    assert(render_text(key2).len() == 13) by {
        assert forall|q: int| 0 <= q < key2.len() implies is_plain_char(key2[q]) by {}
        lemma_render_text_plain(key2);
    }
    assert(parse_string(s, q1 + 5) == Some((key2, q1 + 19)));
    lemma_parse_rendered_string(s, q2 + 5, key3);
    assert(render_text(key3).len() == 10) by {
        assert forall|q: int| 0 <= q < key3.len() implies is_plain_char(key3[q]) by {}
        lemma_render_text_plain(key3);
    }
    assert(parse_string(s, q2 + 5) == Some((key3, q2 + 16)));
    // values
    lemma_parse_rendered_value(s, 20, JsonModel::Text(a));
    assert(parse_value(s, 20) == Some((JsonModel::Text(a), q1)));
    lemma_parse_rendered_value(s, p2, m_r);
    assert(parse_value(s, p2) == Some((m_r, q2)));
    assert(m_e is Int ==> !is_num_tail_char(s[q3]));
    lemma_parse_rendered_value(s, p3, m_e);
    assert(parse_value(s, p3) == Some((m_e, q3)));
    // members, walked back to front
    assert(parse_after_member(s, q3) == Some((Seq::<(Seq<char>, JsonModel)>::empty(), q3 + 2)));
    assert(parse_members(s, q2 + 1, false) == Some((seq![(key3, m_e)], q3 + 2))) by {
        assert(parse_after_member(s, q3) == Some(
            (Seq::<(Seq<char>, JsonModel)>::empty(), q3 + 2),
        ));
        assert(seq![(key3, m_e)] + Seq::<(Seq<char>, JsonModel)>::empty() =~= seq![
            (key3, m_e),
        ]);
    }
    assert(parse_after_member(s, q2) == Some((seq![(key3, m_e)], q3 + 2)));
    assert(parse_members(s, q1 + 1, false) == Some((seq![(key2, m_r), (key3, m_e)], q3 + 2)))
        by {
        assert(parse_after_member(s, q2) == Some((seq![(key3, m_e)], q3 + 2)));
        assert(seq![(key2, m_r)] + seq![(key3, m_e)] =~= seq![(key2, m_r), (key3, m_e)]);
    }
    assert(parse_after_member(s, q1) == Some((seq![(key2, m_r), (key3, m_e)], q3 + 2)));
    assert(parse_members(s, 1, true) == Some(
        (seq![(key1, JsonModel::Text(a)), (key2, m_r), (key3, m_e)], q3 + 2),
    )) by {
        assert(parse_after_member(s, q1) == Some((seq![(key2, m_r), (key3, m_e)], q3 + 2)));
        assert(seq![(key1, JsonModel::Text(a))] + seq![(key2, m_r), (key3, m_e)] =~= seq![
            (key1, JsonModel::Text(a)),
            (key2, m_r),
            (key3, m_e),
        ]);
    }
    assert(parse_value(s, 0) == Some(
        (JsonModel::Obj(seq![(key1, JsonModel::Text(a)), (key2, m_r), (key3, m_e)]), q3 + 2),
    ));
    assert(token_model(a, r, e) == JsonModel::Obj(
        seq![(key1, JsonModel::Text(a)), (key2, m_r), (key3, m_e)],
    )) by {
        assert(token_model(a, r, e)->Obj_0 =~= seq![
            (key1, JsonModel::Text(a)),
            (key2, m_r),
            (key3, m_e),
        ]);
    }
}

/// Saving a token and loading the text back yields the same fields: the
/// written text parses to the token document, and that document reads back
/// as the token, for any load instant.
pub proof fn lemma_save_load_round_trip(
    a: Seq<char>,
    r: Option<Seq<char>>,
    e: Option<int>,
    now: int,
)
    requires
        e matches Some(x) ==> i64::MIN <= x <= i64::MAX,
    ensures
        json_parse(token_text(a, r, e)) == Some(token_model(a, r, e)),
        interpret_cache(token_model(a, r, e), now) == Some((a, r, e)),
{
    lemma_token_text_parses(a, r, e);
    lemma_token_document_round_trip(a, r, e, now);
}

} // verus!
