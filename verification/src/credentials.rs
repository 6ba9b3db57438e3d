//! The provider client-secret document: parsing and validation.

use vstd::prelude::*;
use crate::errors::AuthError;
use crate::json::{
    JsonVal, JsonModel, json_get, json_parse, parse_json, view_seq, lemma_view_seq,
};

verus! {

/// OAuth2 client credentials, as read from a client-secret document.
pub struct OAuthCredentials {
    pub client_id: String,
    pub client_secret: String,
    pub auth_uri: String,
    pub token_uri: String,
    pub redirect_uris: Vec<String>,
    pub project_id: Option<String>,
}

/// Mathematical model of a credentials value.
pub struct CredModel {
    pub client_id: Seq<char>,
    pub client_secret: Seq<char>,
    pub auth_uri: Seq<char>,
    pub token_uri: Seq<char>,
    pub redirect_uris: Seq<Seq<char>>,
    pub project_id: Option<Seq<char>>,
}

impl View for OAuthCredentials {
    type V = CredModel;

    open spec fn view(&self) -> CredModel {
        CredModel {
            client_id: self.client_id@,
            client_secret: self.client_secret@,
            auth_uri: self.auth_uri@,
            token_uri: self.token_uri@,
            redirect_uris: Seq::new(self.redirect_uris@.len(), |i: int| self.redirect_uris@[i]@),
            project_id: crate::token::opt_text_view(self.project_id),
        }
    }
}

/// The characters Unicode calls white space; `str::trim` strips exactly these.
pub open spec fn is_space_char(c: char) -> bool {
    c as u32 == 0x9 || c as u32 == 0xA || c as u32 == 0xB || c as u32 == 0xC || c as u32 == 0xD
        || c as u32 == 0x20 || c as u32 == 0x85 || c as u32 == 0xA0 || c as u32 == 0x1680 || (
    0x2000 <= c as u32 <= 0x200A) || c as u32 == 0x2028 || c as u32 == 0x2029 || c as u32
        == 0x202F || c as u32 == 0x205F || c as u32 == 0x3000
}

/// A string that trims to nothing: every character is white space.
pub open spec fn all_space(s: Seq<char>) -> bool {
    forall|i: int| 0 <= i < s.len() ==> is_space_char(s[i])
}

/// Whether one character is white space.
pub fn is_space(c: char) -> (r: bool)
    ensures
        r == is_space_char(c),
{
    let n = c as u32;
    n == 0x9 || n == 0xA || n == 0xB || n == 0xC || n == 0xD || n == 0x20 || n == 0x85 || n
        == 0xA0 || n == 0x1680 || (0x2000 <= n && n <= 0x200A) || n == 0x2028 || n == 0x2029 || n
        == 0x202F || n == 0x205F || n == 0x3000
}

/// Whether the string trims to nothing.
pub fn is_blank(s: &str) -> (r: bool)
    ensures
        r == all_space(s@),
{
    let cv = crate::json::chars_vec(s);
    let mut i: usize = 0;
    while i < cv.len()
        invariant
            i <= cv@.len(),
            cv@ == s@,
            forall|q: int| 0 <= q < i ==> is_space_char(s@[q]),
        decreases cv@.len() - i,
    {
        let c = cv[i];
        let n = c as u32;
        if !(n == 0x9 || n == 0xA || n == 0xB || n == 0xC || n == 0xD || n == 0x20 || n == 0x85
            || n == 0xA0 || n == 0x1680 || (0x2000 <= n && n <= 0x200A) || n == 0x2028 || n
            == 0x2029 || n == 0x202F || n == 0x205F || n == 0x3000) {
            return false;
        }
        i = i + 1;
    }
    true
}

/// A string member of an object, when it is there and is a string.
pub open spec fn cred_field(sect: JsonModel, key: Seq<char>) -> Option<Seq<char>> {
    match json_get(sect, key) {
        Some(JsonModel::Text(s)) => Some(s),
        _ => None,
    }
}

/// The `installed` object of a client-secret document, or failing that the
/// `web` object.
pub open spec fn cred_section(m: JsonModel) -> Option<JsonModel> {
    match json_get(m, "installed"@) {
        Some(s) => Some(s),
        None => json_get(m, "web"@),
    }
}

/// The string elements of an array value; unreadable entries are skipped,
/// and a missing or non-array value yields no entries.
pub open spec fn texts_in(items: Seq<JsonModel>) -> Seq<Seq<char>>
    decreases items.len(),
{
    if items.len() == 0 {
        Seq::empty()
    } else {
        let rest = texts_in(items.drop_first());
        match items[0] {
            JsonModel::Text(t) => seq![t] + rest,
            _ => rest,
        }
    }
}

pub open spec fn uri_list(v: Option<JsonModel>) -> Seq<Seq<char>> {
    match v {
        Some(JsonModel::Arr(items)) => texts_in(items),
        _ => Seq::empty(),
    }
}

pub open spec fn default_auth_uri() -> Seq<char> {
    "https://accounts.google.com/o/oauth2/auth"@
}

pub open spec fn default_token_uri() -> Seq<char> {
    "https://oauth2.googleapis.com/token"@
}

/// What a client-secret section yields: its credentials, or the reason it is
/// rejected.  `client_id` and `client_secret` must be present strings that do
/// not trim to nothing; the endpoint fields default when absent.
pub open spec fn section_creds(sect: JsonModel) -> Result<CredModel, Seq<char>> {
    match cred_field(sect, "client_id"@) {
        None => Err("Missing field: client_id"@),
        Some(id) => match cred_field(sect, "client_secret"@) {
            None => Err("Missing field: client_secret"@),
            Some(secret) => if all_space(id) {
                Err("client_id cannot be empty"@)
            } else if all_space(secret) {
                Err("client_secret cannot be empty"@)
            } else {
                Ok(
                    CredModel {
                        client_id: id,
                        client_secret: secret,
                        auth_uri: match cred_field(sect, "auth_uri"@) {
                            Some(u) => u,
                            None => default_auth_uri(),
                        },
                        token_uri: match cred_field(sect, "token_uri"@) {
                            Some(u) => u,
                            None => default_token_uri(),
                        },
                        redirect_uris: uri_list(json_get(sect, "redirect_uris"@)),
                        project_id: cred_field(sect, "project_id"@),
                    },
                )
            },
        },
    }
}

/// What parsing a whole client-secret text yields.
pub open spec fn client_secret_outcome(text: Seq<char>) -> Result<CredModel, Seq<char>> {
    match json_parse(text) {
        None => Err("Invalid JSON"@),
        Some(m) => match cred_section(m) {
            None => Err("credentials.json must contain 'installed' or 'web' key"@),
            Some(sect) => section_creds(sect),
        },
    }
}

proof fn lemma_texts_in_push(a: Seq<JsonModel>, x: JsonModel)
    ensures
        texts_in(a.push(x)) == texts_in(a) + (match x {
            JsonModel::Text(t) => seq![t],
            _ => Seq::empty(),
        }),
    decreases a.len(),
{
    if a.len() == 0 {
        assert(a.push(x).drop_first() =~= a);
        assert(texts_in(a.push(x)) =~= texts_in(a) + (match x {
            JsonModel::Text(t) => seq![t],
            _ => Seq::empty(),
        }));
    } else {
        lemma_texts_in_push(a.drop_first(), x);
        assert(a.push(x).drop_first() =~= a.drop_first().push(x));
        assert(a.push(x)[0] == a[0]);
        assert(texts_in(a.push(x)) =~= texts_in(a) + (match x {
            JsonModel::Text(t) => seq![t],
            _ => Seq::empty(),
        }));
    }
}

/// The string elements of a parsed `redirect_uris` value.
fn collect_uris(v: Option<&JsonVal>) -> (r: Vec<String>)
    ensures
        Seq::new(r@.len(), |i: int| r@[i]@) == uri_list(
            match v {
                Some(u) => Some(u@),
                None => None,
            },
        ),
{
    let mut out: Vec<String> = Vec::new();
    match v {
        Some(u) => match crate::json::as_array(u) {
            Some(items) => {
                proof {
                    lemma_view_seq(items@);
                }
                let ghost vs = view_seq(items@);
                let mut i: usize = 0;
                while i < items.len()
                    invariant
                        i <= items@.len(),
                        vs == view_seq(items@),
                        vs.len() == items@.len(),
                        forall|q: int| 0 <= q < items@.len() ==> vs[q] == items@[q]@,
                        Seq::new(out@.len(), |q: int| out@[q]@) == texts_in(
                            vs.subrange(0, i as int),
                        ),
                    decreases items@.len() - i,
                {
                    let ghost before = Seq::new(out@.len(), |q: int| out@[q]@);
                    match &items[i] {
                        JsonVal::Text(t) => {
                            out.push(t.clone());
                        },
                        _ => {},
                    }
                    i = i + 1;
                    proof {
                        let pre = vs.subrange(0, i as int - 1);
                        assert(vs.subrange(0, i as int) =~= pre.push(vs[i as int - 1]));
                        lemma_texts_in_push(pre, vs[i as int - 1]);
                        assert(Seq::new(out@.len(), |q: int| out@[q]@) =~= before + (
                        match vs[i as int - 1] {
                            JsonModel::Text(t) => seq![t],
                            _ => Seq::empty(),
                        }));
                    }
                }
                proof {
                    assert(vs.subrange(0, vs.len() as int) =~= vs);
                }
                out
            },
            None => out,
        },
        None => out,
    }
}

/// Parse a client-secret document.  The document must be JSON with an
/// `installed` or `web` object holding non-blank `client_id` and
/// `client_secret`; endpoint fields default to the provider's well-known
/// endpoints; unreadable `redirect_uris` entries are skipped.  Every
/// rejection is an invalid-credentials error carrying the reason.
pub fn parse_client_secret(text: &str) -> (r: Result<OAuthCredentials, AuthError>)
    ensures
        match r {
            Ok(c) => client_secret_outcome(text@) == Ok::<CredModel, Seq<char>>(c@),
            Err(e) => e matches AuthError::InvalidCredentials(msg)
                && client_secret_outcome(text@) == Err::<CredModel, Seq<char>>(msg@),
        },
{
    let parsed = parse_json(text);
    match parsed {
        None => Err(AuthError::InvalidCredentials(String::from_str("Invalid JSON"))),
        Some(doc) => {
            let sect_opt = match crate::json::get_member(&doc, "installed") {
                Some(s) => Some(s),
                None => crate::json::get_member(&doc, "web"),
            };
            match sect_opt {
                None => Err(
                    AuthError::InvalidCredentials(
                        String::from_str("credentials.json must contain 'installed' or 'web' key"),
                    ),
                ),
                Some(sect) => parse_credentials_object(sect),
            }
        },
    }
}

/// Read one `installed`/`web` object into credentials.
fn parse_credentials_object(sect: &JsonVal) -> (r: Result<OAuthCredentials, AuthError>)
    ensures
        match r {
            Ok(c) => section_creds(sect@) == Ok::<CredModel, Seq<char>>(c@),
            Err(e) => e matches AuthError::InvalidCredentials(msg) && section_creds(sect@)
                == Err::<CredModel, Seq<char>>(msg@),
        },
{
    let id_opt: Option<&String> = match crate::json::get_member(sect, "client_id") {
        Some(v) => crate::json::as_text(v),
        None => None,
    };
    let id: &String = match id_opt {
        Some(s) => s,
        None => {
            return Err(
                AuthError::InvalidCredentials(String::from_str("Missing field: client_id")),
            );
        },
    };
    let secret_opt: Option<&String> = match crate::json::get_member(sect, "client_secret") {
        Some(v) => crate::json::as_text(v),
        None => None,
    };
    let secret: &String = match secret_opt {
        Some(s) => s,
        None => {
            return Err(
                AuthError::InvalidCredentials(String::from_str("Missing field: client_secret")),
            );
        },
    };
    if is_blank(id.as_str()) {
        return Err(AuthError::InvalidCredentials(String::from_str("client_id cannot be empty")));
    }
    if is_blank(secret.as_str()) {
        return Err(
            AuthError::InvalidCredentials(String::from_str("client_secret cannot be empty")),
        );
    }
    let auth_uri: String = match crate::json::get_member(sect, "auth_uri") {
        Some(v) => match crate::json::as_text(v) {
            Some(u) => u.clone(),
            None => String::from_str("https://accounts.google.com/o/oauth2/auth"),
        },
        None => String::from_str("https://accounts.google.com/o/oauth2/auth"),
    };
    let token_uri: String = match crate::json::get_member(sect, "token_uri") {
        Some(v) => match crate::json::as_text(v) {
            Some(u) => u.clone(),
            None => String::from_str("https://oauth2.googleapis.com/token"),
        },
        None => String::from_str("https://oauth2.googleapis.com/token"),
    };
    let redirect_uris = collect_uris(crate::json::get_member(sect, "redirect_uris"));
    let project_id: Option<String> = match crate::json::get_member(sect, "project_id") {
        Some(v) => match crate::json::as_text(v) {
            Some(p) => Some(p.clone()),
            None => None,
        },
        None => None,
    };
    Ok(
        OAuthCredentials {
            client_id: id.clone(),
            client_secret: secret.clone(),
            auth_uri,
            token_uri,
            redirect_uris,
            project_id,
        },
    )
}

/// A document without `installed` and without `web` is always rejected.
pub proof fn lemma_missing_section_rejected(text: Seq<char>)
    requires
        json_parse(text) matches Some(m) && json_get(m, "installed"@) is None && json_get(
            m,
            "web"@,
        ) is None,
    ensures
        client_secret_outcome(text) == Err::<CredModel, Seq<char>>(
            "credentials.json must contain 'installed' or 'web' key"@,
        ),
{
}

/// A section whose `client_id` is present but trims to nothing is rejected.
pub proof fn lemma_blank_client_id_rejected(sect: JsonModel)
    requires
        cred_field(sect, "client_id"@) matches Some(id) && all_space(id),
    ensures
        section_creds(sect) is Err,
{
}

} // verus!
