//! Watch channels over files and the whole drive: channel shapes and the
//! request bodies and paths of the watch operations.

use vstd::prelude::*;
use vstd::utf8::encode_utf8;
use crate::encoding::{pct_encoded, percent_encode};
use crate::json::{JsonVal, JsonModel, view_members, lemma_view_members};
use crate::token::opt_text_view;

verus! {

/// A push-notification channel.
pub struct Channel {
    /// A UUID naming this channel.
    pub id: String,
    /// An opaque id naming the watched resource.
    pub resource_id: Option<String>,
    /// The delivery mechanism; the service accepts only `web_hook`.
    pub channel_type: String,
    /// The URL notified.
    pub address: String,
    /// A token echoed with notifications for verification.
    pub token: Option<String>,
    /// When the channel expires, in epoch milliseconds.
    pub expiration: Option<i64>,
    pub kind: Option<String>,
}

/// Parameters for watching one file.
pub struct WatchFileParams {
    pub file_id: String,
    pub webhook_url: String,
    pub token: Option<String>,
    pub expiration: Option<i64>,
}

/// Parameters for watching all changes.
pub struct WatchChangesParams {
    pub page_token: String,
    pub webhook_url: String,
    pub token: Option<String>,
    pub expiration: Option<i64>,
}

pub struct StartPageTokenResponse {
    pub start_page_token: String,
    pub kind: Option<String>,
}

pub struct ChangesResponse {
    pub kind: Option<String>,
    pub changes: Vec<Change>,
    pub new_start_page_token: Option<String>,
    pub next_page_token: Option<String>,
}

/// One change to a file.
pub struct Change {
    pub kind: Option<String>,
    pub change_type: Option<String>,
    pub time: Option<String>,
    pub removed: Option<bool>,
    pub file_id: Option<String>,
}

/// The watch request body: a channel id, the fixed `web_hook` type, the
/// webhook address, and the optional verification token and expiry.
pub open spec fn watch_body_model(
    channel_id: Seq<char>,
    webhook_url: Seq<char>,
    token: Option<Seq<char>>,
    expiration: Option<int>,
) -> JsonModel {
    JsonModel::Obj(
        seq![
            ("id"@, JsonModel::Text(channel_id)),
            ("type"@, JsonModel::Text("web_hook"@)),
            ("address"@, JsonModel::Text(webhook_url)),
        ] + (match token {
            Some(t) => seq![("token"@, JsonModel::Text(t))],
            None => Seq::empty(),
        }) + (match expiration {
            Some(e) => seq![("expiration"@, JsonModel::Int(e))],
            None => Seq::empty(),
        }),
    )
}

/// Build the watch request body.
pub fn watch_body(
    channel_id: &str,
    webhook_url: &str,
    token: &Option<String>,
    expiration: Option<i64>,
) -> (r: JsonVal)
    ensures
        r@ == watch_body_model(
            channel_id@,
            webhook_url@,
            opt_text_view(*token),
            crate::token::opt_int_view(expiration),
        ),
{
    let mut members: Vec<(String, JsonVal)> = Vec::new();
    members.push((String::from_str("id"), JsonVal::Text(String::from_str(channel_id))));
    members.push((String::from_str("type"), JsonVal::Text(String::from_str("web_hook"))));
    members.push((String::from_str("address"), JsonVal::Text(String::from_str(webhook_url))));
    match token {
        Some(t) => {
            members.push((String::from_str("token"), JsonVal::Text(t.clone())));
        },
        None => {},
    }
    match expiration {
        Some(e) => {
            members.push((String::from_str("expiration"), JsonVal::Int(e)));
        },
        None => {},
    }
    let v = JsonVal::Obj(members);
    proof {
        lemma_view_members(v->Obj_0@);
        assert(view_members(v->Obj_0@) =~= watch_body_model(
            channel_id@,
            webhook_url@,
            opt_text_view(*token),
            crate::token::opt_int_view(expiration),
        )->Obj_0);
    }
    v
}

/// The body that stops a channel.
pub fn stop_channel_body(channel_id: &str, resource_id: &str) -> (r: JsonVal)
    ensures
        r@ == JsonModel::Obj(
            seq![
                ("id"@, JsonModel::Text(channel_id@)),
                ("resourceId"@, JsonModel::Text(resource_id@)),
            ],
        ),
{
    let mut members: Vec<(String, JsonVal)> = Vec::new();
    members.push((String::from_str("id"), JsonVal::Text(String::from_str(channel_id))));
    members.push(
        (String::from_str("resourceId"), JsonVal::Text(String::from_str(resource_id))),
    );
    let v = JsonVal::Obj(members);
    proof {
        lemma_view_members(v->Obj_0@);
        assert(view_members(v->Obj_0@) =~= seq![
            ("id"@, JsonModel::Text(channel_id@)),
            ("resourceId"@, JsonModel::Text(resource_id@)),
        ]);
    }
    v
}

/// The path that starts watching all changes from a page token.
pub fn watch_changes_path(page_token: &str) -> (r: String)
    ensures
        r@ == "/changes/watch?pageToken="@ + pct_encoded(encode_utf8(page_token@)),
{
    let mut out = String::from_str("/changes/watch?pageToken=");
    let enc = percent_encode(page_token);
    out.append(enc.as_str());
    out
}

/// The path that starts watching one file.
pub fn watch_file_path(file_id: &str) -> (r: String)
    ensures
        r@ == "/files/"@ + pct_encoded(encode_utf8(file_id@)) + "/watch"@,
{
    let mut out = String::from_str("/files/");
    let enc = percent_encode(file_id);
    out.append(enc.as_str());
    out.append("/watch");
    out
}

/// The path that lists changes from a page token.
pub fn list_changes_path(page_token: &str) -> (r: String)
    ensures
        r@ == "/changes?pageToken="@ + pct_encoded(encode_utf8(page_token@)),
{
    let mut out = String::from_str("/changes?pageToken=");
    let enc = percent_encode(page_token);
    out.append(enc.as_str());
    out
}

} // verus!

verus! {

/// Start a watch: a fresh channel id from identifier generation, and the
/// body built for it.
pub fn new_watch_request(
    webhook_url: &str,
    token: &Option<String>,
    expiration: Option<i64>,
) -> (r: (String, JsonVal))
    ensures
        exists|cid: Seq<char>|
            cid.len() == 36 && r.0@ == cid && r.1@ == watch_body_model(
                cid,
                webhook_url@,
                opt_text_view(*token),
                crate::token::opt_int_view(expiration),
            ),
{
    let cid = crate::runtime::new_uuid();
    let body = watch_body(cid.as_str(), webhook_url, token, expiration);
    (cid, body)
}

} // verus!
