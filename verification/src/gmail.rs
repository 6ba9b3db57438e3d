//! Mail messages: body extraction from the part tree, headers, attachments,
//! reply metadata, raw-mail composition, and filters.

use vstd::prelude::*;
use vstd::utf8::{valid_utf8, decode_utf8, encode_utf8};
use base64::Engine;
use crate::encoding::{pct_encoded, percent_encode, utf8_string};
use crate::json::{JsonVal, JsonModel, render_int, int_string, str_eq, has_prefix, starts_with,
    view_members, lemma_view_members, chars_vec, string_of_chars};
use crate::listener::trim_spaces;
use crate::token::{opt_text_view, clone_opt_string};

verus! {

pub struct Message {
    pub id: String,
    pub thread_id: String,
    pub label_ids: Vec<String>,
    pub payload: Option<MessagePayload>,
}

pub struct MessagePayload {
    pub mime_type: Option<String>,
    pub headers: Vec<Header>,
    pub body: Option<MessageBody>,
    pub parts: Vec<MessagePart>,
}

pub struct MessagePart {
    pub mime_type: Option<String>,
    pub filename: Option<String>,
    pub body: Option<MessageBody>,
    pub parts: Vec<MessagePart>,
}

pub struct MessageBody {
    pub attachment_id: Option<String>,
    pub size: Option<i64>,
    pub data: Option<String>,
}

pub struct Header {
    pub name: String,
    pub value: String,
}

// ---------------------------------------------------------------------------
// Base64 bridges.
// ---------------------------------------------------------------------------

pub uninterp spec fn b64url_bytes(s: Seq<char>) -> Option<Seq<u8>>;

/// Relies on base64's URL-safe no-padding engine for decoding: the result
/// depends on the input alone.
#[verifier::external_body]
fn b64url_decode(s: &str) -> (r: Option<Vec<u8>>)
    ensures
        match r {
            Some(b) => b64url_bytes(s@) == Some(b@),
            None => b64url_bytes(s@) is None,
        },
{
    base64::engine::general_purpose::URL_SAFE_NO_PAD.decode(s).ok()
}

pub uninterp spec fn b64url_of(bs: Seq<u8>) -> Seq<char>;

/// Relies on base64's URL-safe no-padding engine for encoding: the result
/// depends on the input alone.
#[verifier::external_body]
pub fn encode_base64url_string(s: &str) -> (r: String)
    ensures
        r@ == b64url_of(encode_utf8(s@)),
{
    base64::engine::general_purpose::URL_SAFE_NO_PAD.encode(s.as_bytes())
}

pub uninterp spec fn b64std_of(bs: Seq<u8>) -> Seq<char>;

/// Relies on base64's standard engine for encoding: the result depends on
/// the input alone.
#[verifier::external_body]
fn b64std_encode(s: &str) -> (r: String)
    ensures
        r@ == b64std_of(encode_utf8(s@)),
{
    base64::engine::general_purpose::STANDARD.encode(s.as_bytes())
}

/// The text a base64url-encoded value stands for, when it decodes to UTF-8.
pub open spec fn b64url_text(s: Seq<char>) -> Option<Seq<char>> {
    match b64url_bytes(s) {
        Some(bs) => if valid_utf8(bs) {
            Some(decode_utf8(bs))
        } else {
            None
        },
        None => None,
    }
}

/// Decode a base64url value into text.
pub fn decode_base64url_string(s: &str) -> (r: Option<String>)
    ensures
        match r {
            Some(t) => b64url_text(s@) == Some(t@),
            None => b64url_text(s@) is None,
        },
{
    match b64url_decode(s) {
        Some(bytes) => utf8_string(bytes),
        None => None,
    }
}

// ---------------------------------------------------------------------------
// Body extraction.
// ---------------------------------------------------------------------------

pub open spec fn mime_of(p: MessagePart) -> Seq<char> {
    match p.mime_type {
        Some(m) => m@,
        None => Seq::empty(),
    }
}

/// The decoded body text this part itself carries, if any.
pub open spec fn part_decoded(p: MessagePart) -> Option<Seq<char>> {
    match p.body {
        Some(b) => match b.data {
            Some(d) => if d@.len() > 0 {
                b64url_text(d@)
            } else {
                None
            },
            None => None,
        },
        None => None,
    }
}

/// First pass: text of the wanted type found inside a
/// `multipart/alternative` container.
pub open spec fn find_alt(parts: Seq<MessagePart>, mime: Seq<char>) -> Option<Seq<char>>
    decreases parts, 2int,
{
    if parts.len() == 0 {
        None
    } else if mime_of(parts[0]) == "multipart/alternative"@ && spec_find_text(
        parts[0].parts@,
        mime,
    ) is Some {
        spec_find_text(parts[0].parts@, mime)
    } else {
        find_alt(parts.drop_first(), mime)
    }
}

/// Second pass: a part of the wanted type at this level, with a decodable
/// body.
pub open spec fn find_direct(parts: Seq<MessagePart>, mime: Seq<char>) -> Option<Seq<char>>
    decreases parts, 2int,
{
    if parts.len() == 0 {
        None
    } else if mime_of(parts[0]) == mime && part_decoded(parts[0]) is Some {
        part_decoded(parts[0])
    } else {
        find_direct(parts.drop_first(), mime)
    }
}

/// Third pass: text found inside any other multipart container.
pub open spec fn find_nested(parts: Seq<MessagePart>, mime: Seq<char>) -> Option<Seq<char>>
    decreases parts, 2int,
{
    if parts.len() == 0 {
        None
    } else if starts_with(mime_of(parts[0]), "multipart/"@) && mime_of(parts[0])
        != "multipart/alternative"@ && spec_find_text(parts[0].parts@, mime) is Some {
        spec_find_text(parts[0].parts@, mime)
    } else {
        find_nested(parts.drop_first(), mime)
    }
}

/// Text of the wanted type in a part tree: alternative containers first,
/// then this level, then other nested containers.
pub open spec fn spec_find_text(parts: Seq<MessagePart>, mime: Seq<char>) -> Option<Seq<char>>
    decreases parts, 3int,
{
    match find_alt(parts, mime) {
        Some(t) => Some(t),
        None => match find_direct(parts, mime) {
            Some(t) => Some(t),
            None => find_nested(parts, mime),
        },
    }
}

/// The body a message yields: the payload's own data when it decodes, else
/// plain text from the parts, else HTML from the parts.
pub open spec fn extract_body_model(msg: Message) -> Option<Seq<char>> {
    match msg.payload {
        Some(pl) => {
            let direct = match pl.body {
                Some(b) => match b.data {
                    Some(d) => if d@.len() > 0 {
                        b64url_text(d@)
                    } else {
                        None
                    },
                    None => None,
                },
                None => None,
            };
            if direct is Some {
                direct
            } else {
                match spec_find_text(pl.parts@, "text/plain"@) {
                    Some(t) => Some(t),
                    None => spec_find_text(pl.parts@, "text/html"@),
                }
            }
        },
        None => None,
    }
}

/// The part's MIME type, written out.
fn mime_str(p: &MessagePart) -> (r: &str)
    ensures
        r@ == mime_of(*p),
{
    match &p.mime_type {
        Some(m) => m.as_str(),
        None => {
            proof {
                reveal_strlit("");
                assert(""@ =~= Seq::<char>::empty());
            }
            ""
        },
    }
}

/// The decoded body data of one part, if it has a non-empty decodable body.
fn part_decoded_x(p: &MessagePart) -> (r: Option<String>)
    ensures
        match r {
            Some(t) => part_decoded(*p) == Some(t@),
            None => part_decoded(*p) is None,
        },
{
    match &p.body {
        Some(b) => match &b.data {
            Some(d) => {
                if d.as_str().unicode_len() > 0 {
                    decode_base64url_string(d.as_str())
                } else {
                    None
                }
            },
            None => None,
        },
        None => None,
    }
}

/// Find text of the wanted type in the part tree.
pub fn find_text_part(parts: &Vec<MessagePart>, preferred_mime: &str) -> (r: Option<String>)
    ensures
        match r {
            Some(t) => spec_find_text(parts@, preferred_mime@) == Some(t@),
            None => spec_find_text(parts@, preferred_mime@) is None,
        },
    decreases parts, 3int,
{
    // Pass one: multipart/alternative containers.
    proof {
        assert(parts@.skip(0) =~= parts@);
    }
    let mut i: usize = 0;
    while i < parts.len()
        invariant
            i <= parts@.len(),
            find_alt(parts@, preferred_mime@) == find_alt(parts@.skip(i as int), preferred_mime@),
        decreases parts@.len() - i, 2int,
    {
        proof {
            assert(parts@.skip(i as int)[0] == parts@[i as int]);
            assert(parts@.skip(i as int).drop_first() =~= parts@.skip(i as int + 1));
        }
        if str_eq(mime_str(&parts[i]), "multipart/alternative") {
            match find_text_part(&parts[i].parts, preferred_mime) {
                Some(t) => {
                    return Some(t);
                },
                None => {},
            }
        }
        i = i + 1;
    }
    proof {
        assert(parts@.skip(parts@.len() as int).len() == 0);
    }
    // Pass two: this level.
    proof {
        assert(parts@.skip(0) =~= parts@);
    }
    let mut i: usize = 0;
    while i < parts.len()
        invariant
            i <= parts@.len(),
            find_alt(parts@, preferred_mime@) is None,
            find_direct(parts@, preferred_mime@) == find_direct(
                parts@.skip(i as int),
                preferred_mime@,
            ),
        decreases parts@.len() - i,
    {
        proof {
            assert(parts@.skip(i as int)[0] == parts@[i as int]);
            assert(parts@.skip(i as int).drop_first() =~= parts@.skip(i as int + 1));
        }
        if str_eq(mime_str(&parts[i]), preferred_mime) {
            match part_decoded_x(&parts[i]) {
                Some(t) => {
                    return Some(t);
                },
                None => {},
            }
        }
        i = i + 1;
    }
    proof {
        assert(parts@.skip(parts@.len() as int).len() == 0);
    }
    // Pass three: other multipart containers.
    proof {
        assert(parts@.skip(0) =~= parts@);
    }
    let mut i: usize = 0;
    while i < parts.len()
        invariant
            i <= parts@.len(),
            find_alt(parts@, preferred_mime@) is None,
            find_direct(parts@, preferred_mime@) is None,
            find_nested(parts@, preferred_mime@) == find_nested(
                parts@.skip(i as int),
                preferred_mime@,
            ),
        decreases parts@.len() - i, 2int,
    {
        proof {
            assert(parts@.skip(i as int)[0] == parts@[i as int]);
            assert(parts@.skip(i as int).drop_first() =~= parts@.skip(i as int + 1));
        }
        let m = mime_str(&parts[i]);
        if has_prefix(m, "multipart/") && !str_eq(m, "multipart/alternative") {
            match find_text_part(&parts[i].parts, preferred_mime) {
                Some(t) => {
                    return Some(t);
                },
                None => {},
            }
        }
        i = i + 1;
    }
    proof {
        assert(parts@.skip(parts@.len() as int).len() == 0);
    }
    None
}

/// Extract and decode the message body.
pub fn extract_body(message: &Message) -> (r: Option<String>)
    ensures
        match r {
            Some(t) => extract_body_model(*message) == Some(t@),
            None => extract_body_model(*message) is None,
        },
{
    match &message.payload {
        Some(pl) => {
            let direct: Option<String> = match &pl.body {
                Some(b) => match &b.data {
                    Some(d) => {
                        if d.as_str().unicode_len() > 0 {
                            decode_base64url_string(d.as_str())
                        } else {
                            None
                        }
                    },
                    None => None,
                },
                None => None,
            };
            match direct {
                Some(t) => Some(t),
                None => {
                    match find_text_part(&pl.parts, "text/plain") {
                        Some(t) => Some(t),
                        None => find_text_part(&pl.parts, "text/html"),
                    }
                },
            }
        },
        None => None,
    }
}

// ---------------------------------------------------------------------------
// Headers.
// ---------------------------------------------------------------------------

/// ASCII-case-insensitive character equality.
pub open spec fn eqi_char(a: char, b: char) -> bool {
    a as u32 == b as u32 || (65 <= a as u32 <= 90 && b as u32 == a as u32 + 32) || (65 <= b as u32
        <= 90 && a as u32 == b as u32 + 32)
}

/// ASCII-case-insensitive string equality.
pub open spec fn eqi(a: Seq<char>, b: Seq<char>) -> bool {
    a.len() == b.len() && forall|i: int| 0 <= i < a.len() ==> eqi_char(a[i], b[i])
}

/// The first header whose name matches, ignoring ASCII case.
pub open spec fn header_value(headers: Seq<Header>, name: Seq<char>) -> Option<Seq<char>>
    decreases headers.len(),
{
    if headers.len() == 0 {
        None
    } else if eqi(headers[0].name@, name) {
        Some(headers[0].value@)
    } else {
        header_value(headers.drop_first(), name)
    }
}

pub open spec fn header_model(msg: Message, name: Seq<char>) -> Option<Seq<char>> {
    match msg.payload {
        Some(pl) => header_value(pl.headers@, name),
        None => None,
    }
}

/// ASCII-case-insensitive equality of two strings.
fn eqi_str(a: &str, b: &str) -> (r: bool)
    ensures
        r == eqi(a@, b@),
{
    let av = chars_vec(a);
    let bv = chars_vec(b);
    if av.len() != bv.len() {
        return false;
    }
    let mut i: usize = 0;
    while i < av.len()
        invariant
            i <= av@.len(),
            av@.len() == bv@.len(),
            av@ == a@,
            bv@ == b@,
            forall|q: int| 0 <= q < i ==> eqi_char(a@[q], b@[q]),
        decreases av@.len() - i,
    {
        let x = av[i] as u32;
        let y = bv[i] as u32;
        let same = x == y || (65 <= x && x <= 90 && y == x + 32) || (65 <= y && y <= 90 && x == y
            + 32);
        if !same {
            return false;
        }
        i = i + 1;
    }
    true
}

/// The value of the named header, matched without regard to ASCII case.
pub fn get_header(message: &Message, name: &str) -> (r: Option<String>)
    ensures
        match r {
            Some(v) => header_model(*message, name@) == Some(v@),
            None => header_model(*message, name@) is None,
        },
{
    match &message.payload {
        Some(pl) => {
            proof {
                assert(pl.headers@.skip(0) =~= pl.headers@);
            }
            let mut i: usize = 0;
            while i < pl.headers.len()
                invariant
                    i <= pl.headers@.len(),
                    message.payload == Some(*pl),
                    header_value(pl.headers@, name@) == header_value(
                        pl.headers@.skip(i as int),
                        name@,
                    ),
                decreases pl.headers@.len() - i,
            {
                proof {
                    assert(pl.headers@.skip(i as int)[0] == pl.headers@[i as int]);
                    assert(pl.headers@.skip(i as int).drop_first() =~= pl.headers@.skip(
                        i as int + 1,
                    ));
                }
                if eqi_str(pl.headers[i].name.as_str(), name) {
                    proof {
                        assert(header_value(pl.headers@.skip(i as int), name@) == Some(
                            pl.headers@[i as int].value@,
                        ));
                    }
                    return Some(pl.headers[i].value.clone());
                }
                i = i + 1;
            }
            proof {
                assert(pl.headers@.skip(pl.headers@.len() as int).len() == 0);
            }
            None
        },
        None => None,
    }
}

// ---------------------------------------------------------------------------
// Attachments.
// ---------------------------------------------------------------------------

/// Information about one attachment.
pub struct AttachmentInfo {
    pub attachment_id: String,
    pub filename: String,
    pub mime_type: String,
    pub size: i64,
}

/// One downloaded attachment: its size and base64url-encoded data.
pub struct AttachmentData {
    pub size: i64,
    pub data: String,
}

pub open spec fn att_view(v: Seq<AttachmentInfo>) -> Seq<(Seq<char>, Seq<char>, Seq<char>, int)> {
    Seq::new(v.len(), |i: int| (v[i].attachment_id@, v[i].filename@, v[i].mime_type@,
        v[i].size as int))
}

/// The attachment entry one part itself carries, if any: absent names and
/// types take fixed fallbacks, an absent size reads as zero.
pub open spec fn att_of(p: MessagePart) -> Seq<(Seq<char>, Seq<char>, Seq<char>, int)> {
    match p.body {
        Some(b) => match b.attachment_id {
            Some(aid) => seq![
                (
                    aid@,
                    match p.filename {
                        Some(f) => f@,
                        None => "unnamed"@,
                    },
                    match p.mime_type {
                        Some(m) => m@,
                        None => "application/octet-stream"@,
                    },
                    match b.size {
                        Some(s) => s as int,
                        None => 0,
                    },
                ),
            ],
            None => Seq::empty(),
        },
        None => Seq::empty(),
    }
}

/// Every attachment in a part tree, depth-first.
pub open spec fn atts_in(parts: Seq<MessagePart>) -> Seq<(Seq<char>, Seq<char>, Seq<char>, int)>
    decreases parts, 1int,
{
    if parts.len() == 0 {
        Seq::empty()
    } else {
        att_of(parts[0]) + atts_in(parts[0].parts@) + atts_in(parts.drop_first())
    }
}

fn collect_attachments(parts: &Vec<MessagePart>, attachments: &mut Vec<AttachmentInfo>)
    ensures
        att_view(final(attachments)@) == att_view(old(attachments)@) + atts_in(parts@),
    decreases parts, 1int,
{
    let mut i: usize = 0;
    proof {
        assert(parts@.skip(0) =~= parts@);
    }
    while i < parts.len()
        invariant
            i <= parts@.len(),
            att_view(attachments@) + atts_in(parts@.skip(i as int)) =~= att_view(
                old(attachments)@,
            ) + atts_in(parts@),
        decreases parts@.len() - i, 0int,
    {
        proof {
            assert(parts@.skip(i as int)[0] == parts@[i as int]);
            assert(parts@.skip(i as int).drop_first() =~= parts@.skip(i as int + 1));
        }
        let ghost before = attachments@;
        match &parts[i].body {
            Some(b) => {
                match &b.attachment_id {
                    Some(aid) => {
                        let filename: String = match &parts[i].filename {
                            Some(f) => f.clone(),
                            None => String::from_str("unnamed"),
                        };
                        let mime_type: String = match &parts[i].mime_type {
                            Some(m) => m.clone(),
                            None => String::from_str("application/octet-stream"),
                        };
                        let size: i64 = match b.size {
                            Some(s) => s,
                            None => 0,
                        };
                        attachments.push(
                            AttachmentInfo {
                                attachment_id: aid.clone(),
                                filename,
                                mime_type,
                                size,
                            },
                        );
                    },
                    None => {},
                }
            },
            None => {},
        }
        proof {
            assert(att_view(attachments@) =~= att_view(before) + att_of(parts@[i as int]));
        }
        let ghost mid = attachments@;
        collect_attachments(&parts[i].parts, attachments);
        i = i + 1;
        proof {
            assert(att_view(attachments@) == att_view(mid) + atts_in(
                parts@[i as int - 1].parts@,
            ));
            assert(att_view(attachments@) + atts_in(parts@.skip(i as int)) =~= att_view(
                old(attachments)@,
            ) + atts_in(parts@));
        }
    }
    proof {
        assert(atts_in(parts@.skip(parts@.len() as int)).len() == 0);
        assert(att_view(attachments@) =~= att_view(attachments@) + atts_in(
            parts@.skip(parts@.len() as int),
        ));
    }
}

/// All attachments in a message, depth-first through the part tree.
pub fn list_attachments(message: &Message) -> (r: Vec<AttachmentInfo>)
    ensures
        att_view(r@) == (match message.payload {
            Some(pl) => atts_in(pl.parts@),
            None => Seq::empty(),
        }),
{
    let mut attachments: Vec<AttachmentInfo> = Vec::new();
    proof {
        assert(att_view(attachments@) =~= Seq::<(Seq<char>, Seq<char>, Seq<char>, int)>::empty());
    }
    match &message.payload {
        Some(pl) => {
            collect_attachments(&pl.parts, &mut attachments);
            proof {
                assert(att_view(attachments@) =~= atts_in(pl.parts@));
            }
        },
        None => {},
    }
    attachments
}

} // verus!

verus! {

// ---------------------------------------------------------------------------
// Replies.
// ---------------------------------------------------------------------------

/// What is needed from an original message to build a reply.
pub struct ReplyMetadata {
    /// Recipient of the reply: the original's Reply-To, else its From.
    pub to: String,
    /// Recipients for reply-all: the original's To and Cc combined.
    pub cc: Option<String>,
    /// The original subject, under a `Re: ` prefix when it lacks one.
    pub subject: String,
    /// The original Message-ID.
    pub in_reply_to: String,
    /// The original References, extended with its Message-ID.
    pub references: String,
    /// The thread the original belongs to.
    pub thread_id: String,
}

/// Whether the subject already opens with `re:`, in any ASCII case.
pub open spec fn re_prefixed(s: Seq<char>) -> bool {
    s.len() >= 3 && eqi_char(s[0], 'r') && eqi_char(s[1], 'e') && s[2] == ':'
}

/// What a reply to the message needs: present exactly when the original has
/// a payload, an addressable sender, and a Message-ID.
pub open spec fn reply_meta_model(msg: Message) -> Option<
    (Seq<char>, Option<Seq<char>>, Seq<char>, Seq<char>, Seq<char>, Seq<char>),
> {
    match msg.payload {
        Some(pl) => {
            let h = pl.headers@;
            let to = match header_value(h, "Reply-To"@) {
                Some(t) => Some(t),
                None => header_value(h, "From"@),
            };
            match to {
                None => None,
                Some(to_v) => {
                    let subject0 = match header_value(h, "Subject"@) {
                        Some(s) => s,
                        None => Seq::empty(),
                    };
                    let subject = if re_prefixed(subject0) {
                        subject0
                    } else {
                        "Re: "@ + subject0
                    };
                    match header_value(h, "Message-ID"@) {
                        None => None,
                        Some(mid) => {
                            let references = match header_value(h, "References"@) {
                                Some(refs) => refs + " "@ + mid,
                                None => mid,
                            };
                            let cc = match (header_value(h, "To"@), header_value(h, "Cc"@)) {
                                (Some(t), Some(c)) => Some(t + ", "@ + c),
                                (Some(t), None) => Some(t),
                                (None, Some(c)) => Some(c),
                                (None, None) => None,
                            };
                            Some((to_v, cc, subject, mid, references, msg.thread_id@))
                        },
                    }
                },
            }
        },
        None => None,
    }
}

pub open spec fn reply_meta_view(m: ReplyMetadata) -> (
    Seq<char>,
    Option<Seq<char>>,
    Seq<char>,
    Seq<char>,
    Seq<char>,
    Seq<char>,
) {
    (m.to@, opt_text_view(m.cc), m.subject@, m.in_reply_to@, m.references@, m.thread_id@)
}

/// Extract from an original message what a reply to it needs.
pub fn extract_reply_metadata(message: &Message) -> (r: Option<ReplyMetadata>)
    ensures
        match r {
            Some(m) => reply_meta_model(*message) == Some(reply_meta_view(m)),
            None => reply_meta_model(*message) is None,
        },
{
    match &message.payload {
        Some(_) => {},
        None => {
            return None;
        },
    }
    let to: String = match get_header(message, "Reply-To") {
        Some(t) => t,
        None => match get_header(message, "From") {
            Some(t) => t,
            None => {
                return None;
            },
        },
    };
    let original_subject: String = match get_header(message, "Subject") {
        Some(s) => s,
        None => {
            proof {
                reveal_strlit("");
                assert(""@ =~= Seq::<char>::empty());
            }
            String::new()
        },
    };
    let sv = chars_vec(original_subject.as_str());
    let prefixed: bool = if sv.len() >= 3 {
        let a = sv[0] as u32;
        let b = sv[1] as u32;
        (a == 'r' as u32 || a == 'R' as u32) && (b == 'e' as u32 || b == 'E' as u32) && sv[2]
            == ':'
    } else {
        false
    };
    let subject: String = if prefixed {
        original_subject
    } else {
        let mut s = String::from_str("Re: ");
        s.append(original_subject.as_str());
        s
    };
    let message_id: String = match get_header(message, "Message-ID") {
        Some(m) => m,
        None => {
            return None;
        },
    };
    let references: String = match get_header(message, "References") {
        Some(refs) => {
            let mut s = refs;
            s.append(" ");
            s.append(message_id.as_str());
            s
        },
        None => message_id.clone(),
    };
    let original_to = get_header(message, "To");
    let original_cc = get_header(message, "Cc");
    let cc: Option<String> = match (original_to, original_cc) {
        (Some(t), Some(c)) => {
            let mut s = t;
            s.append(", ");
            s.append(c.as_str());
            Some(s)
        },
        (Some(t), None) => Some(t),
        (None, Some(c)) => Some(c),
        (None, None) => None,
    };
    Some(
        ReplyMetadata {
            to,
            cc,
            subject,
            in_reply_to: message_id,
            references,
            thread_id: message.thread_id.clone(),
        },
    )
}

// ---------------------------------------------------------------------------
// Composition.
// ---------------------------------------------------------------------------

/// What a composed mail carries.
pub struct ComposeParams {
    pub to: String,
    pub subject: String,
    pub body: String,
    pub from: Option<String>,
    pub cc: Option<String>,
    /// Message-ID of the message replied to.
    pub in_reply_to: Option<String>,
    /// Space-separated Message-IDs of the thread history.
    pub references: Option<String>,
    /// The thread to attach the send to.
    pub thread_id: Option<String>,
}

/// One character of a header value, with line breaks neutralized.
pub open spec fn neutral_char(c: char) -> Seq<char> {
    if c == '\r' {
        Seq::empty()
    } else if c == '\n' {
        seq![' ']
    } else {
        seq![c]
    }
}

/// A header value with carriage returns removed and newlines turned to
/// spaces.
pub open spec fn neutralized(s: Seq<char>) -> Seq<char>
    decreases s.len(),
{
    if s.len() == 0 {
        Seq::empty()
    } else {
        neutral_char(s[0]) + neutralized(s.drop_first())
    }
}

/// A header value made safe against header injection: line breaks
/// neutralized, then trimmed.
pub open spec fn sanitized(s: Seq<char>) -> Seq<char> {
    trim_spaces(neutralized(s))
}

proof fn lemma_neutralized_push(a: Seq<char>, c: char)
    ensures
        neutralized(a.push(c)) == neutralized(a) + neutral_char(c),
    decreases a.len(),
{
    if a.len() == 0 {
        assert(a.push(c).drop_first() =~= a);
        assert(neutralized(a.push(c)) =~= neutralized(a) + neutral_char(c));
    } else {
        lemma_neutralized_push(a.drop_first(), c);
        assert(a.push(c).drop_first() =~= a.drop_first().push(c));
        assert(neutralized(a.push(c)) =~= neutralized(a) + neutral_char(c));
    }
}

/// Sanitize a header value: remove `\r`, turn `\n` into spaces, and trim.
pub fn sanitize_header(value: &str) -> (r: String)
    ensures
        r@ == sanitized(value@),
{
    let v = chars_vec(value);
    let mut out: Vec<char> = Vec::new();
    let mut i: usize = 0;
    while i < v.len()
        invariant
            i <= v@.len(),
            v@ == value@,
            out@ == neutralized(value@.subrange(0, i as int)),
        decreases v@.len() - i,
    {
        let c = v[i];
        if c == '\r' {
        } else if c == '\n' {
            out.push(' ');
        } else {
            out.push(c);
        }
        i = i + 1;
        proof {
            let pre = value@.subrange(0, i as int - 1);
            assert(value@.subrange(0, i as int) =~= pre.push(value@[i as int - 1]));
            lemma_neutralized_push(pre, value@[i as int - 1]);
            assert(out@ =~= neutralized(pre) + neutral_char(value@[i as int - 1]));
        }
    }
    proof {
        assert(value@.subrange(0, value@.len() as int) =~= value@);
    }
    let cleaned = string_of_chars(&out);
    crate::listener::trim_str(cleaned.as_str())
}

/// The Subject header line: written plainly when the sanitized subject is
/// ASCII, else as one RFC 2047 encoded word.
pub open spec fn subject_line(subject: Seq<char>) -> Seq<char> {
    let s = sanitized(subject);
    if vstd::utf8::is_ascii_chars(s) {
        "Subject: "@ + s + "\r\n"@
    } else {
        "Subject: =?UTF-8?B?"@ + b64std_of(encode_utf8(s)) + "?=\r\n"@
    }
}

pub open spec fn opt_header_line(name: Seq<char>, v: Option<Seq<char>>) -> Seq<char> {
    match v {
        Some(x) => name + sanitized(x) + "\r\n"@,
        None => Seq::empty(),
    }
}

/// The raw RFC 2822 mail a composition stands for, given the date line and
/// the message id.
pub open spec fn raw_email_model(p: ComposeParams, date: Seq<char>, mid: Seq<char>) -> Seq<
    char,
> {
    "Date: "@ + date + "\r\n"@ + "Message-ID: "@ + mid + "\r\n"@ + opt_header_line(
        "From: "@,
        opt_text_view(p.from),
    ) + "To: "@ + sanitized(p.to@) + "\r\n"@ + opt_header_line("Cc: "@, opt_text_view(p.cc))
        + opt_header_line("In-Reply-To: "@, opt_text_view(p.in_reply_to)) + opt_header_line(
        "References: "@,
        opt_text_view(p.references),
    ) + subject_line(p.subject@)
        + "MIME-Version: 1.0\r\nContent-Type: text/plain; charset=utf-8\r\n\r\n"@ + p.body@
}

/// Write one optional header line, sanitized.
fn append_opt_header(email: &mut String, name: &str, v: &Option<String>)
    ensures
        final(email)@ == old(email)@ + opt_header_line(name@, opt_text_view(*v)),
{
    match v {
        Some(x) => {
            email.append(name);
            let s = sanitize_header(x.as_str());
            email.append(s.as_str());
            email.append("\r\n");
        },
        None => {},
    }
}

/// Write the Subject line, encoding a non-ASCII subject as one RFC 2047
/// encoded word.
fn append_subject(email: &mut String, subject: &str)
    ensures
        final(email)@ == old(email)@ + subject_line(subject@),
{
    let s = sanitize_header(subject);
    if s.as_str().is_ascii() {
        email.append("Subject: ");
        email.append(s.as_str());
        email.append("\r\n");
    } else {
        email.append("Subject: =?UTF-8?B?");
        let enc = b64std_encode(s.as_str());
        email.append(enc.as_str());
        email.append("?=\r\n");
    }
}

/// Build the raw mail for given date and message-id header values.
pub fn build_raw_email(params: &ComposeParams, date: &str, message_id: &str) -> (r: String)
    ensures
        r@ == raw_email_model(*params, date@, message_id@),
{
    let mut email = String::from_str("Date: ");
    email.append(date);
    email.append("\r\n");
    email.append("Message-ID: ");
    email.append(message_id);
    email.append("\r\n");
    append_opt_header(&mut email, "From: ", &params.from);
    email.append("To: ");
    let to_s = sanitize_header(params.to.as_str());
    email.append(to_s.as_str());
    email.append("\r\n");
    append_opt_header(&mut email, "Cc: ", &params.cc);
    append_opt_header(&mut email, "In-Reply-To: ", &params.in_reply_to);
    append_opt_header(&mut email, "References: ", &params.references);
    append_subject(&mut email, params.subject.as_str());
    email.append("MIME-Version: 1.0\r\nContent-Type: text/plain; charset=utf-8\r\n\r\n");
    email.append(params.body.as_str());
    email
}

/// The Message-ID a composition carries: the timestamp and a fresh
/// identifier under this client's domain tag.
pub open spec fn message_id_model(ts: int, uid: Seq<char>) -> Seq<char> {
    "<"@ + render_int(ts) + "."@ + uid + "@workspace-cli>"@
}

/// Compose the raw mail: the date and message id come from the clock and
/// from identifier generation, everything else is determined by the
/// parameters.
pub fn compose_raw_email(params: &ComposeParams) -> (r: String)
    ensures
        exists|date: Seq<char>, mid: Seq<char>|
            r@ == raw_email_model(*params, date, mid),
{
    let date = crate::runtime::now_rfc2822();
    let ts = crate::runtime::now_epoch_seconds();
    let uid = crate::runtime::new_uuid();
    let mut mid = String::from_str("<");
    let ts_s = int_string(ts);
    mid.append(ts_s.as_str());
    mid.append(".");
    mid.append(uid.as_str());
    mid.append("@workspace-cli>");
    let r = build_raw_email(params, date.as_str(), mid.as_str());
    proof {
        assert(r@ == raw_email_model(*params, date@, mid@));
    }
    r
}

/// The send body: the encoded raw mail, and the thread for replies.
pub open spec fn send_body_model(encoded: Seq<char>, thread_id: Option<Seq<char>>) -> JsonModel {
    JsonModel::Obj(
        seq![("raw"@, JsonModel::Text(encoded))] + (match thread_id {
            Some(t) => seq![("threadId"@, JsonModel::Text(t))],
            None => Seq::empty(),
        }),
    )
}

/// Build the send body.
pub fn send_body(encoded: &str, thread_id: &Option<String>) -> (r: JsonVal)
    ensures
        r@ == send_body_model(encoded@, opt_text_view(*thread_id)),
{
    let mut members: Vec<(String, JsonVal)> = Vec::new();
    members.push((String::from_str("raw"), JsonVal::Text(String::from_str(encoded))));
    match thread_id {
        Some(t) => {
            members.push((String::from_str("threadId"), JsonVal::Text(t.clone())));
        },
        None => {},
    }
    let v = JsonVal::Obj(members);
    proof {
        lemma_view_members(v->Obj_0@);
        assert(view_members(v->Obj_0@) =~= send_body_model(
            encoded@,
            opt_text_view(*thread_id),
        )->Obj_0);
    }
    v
}

/// The draft body: the send body under a `message` member.
pub fn draft_body(encoded: &str, thread_id: &Option<String>) -> (r: JsonVal)
    ensures
        r@ == JsonModel::Obj(
            seq![("message"@, send_body_model(encoded@, opt_text_view(*thread_id)))],
        ),
{
    let inner = send_body(encoded, thread_id);
    let mut members: Vec<(String, JsonVal)> = Vec::new();
    members.push((String::from_str("message"), inner));
    let v = JsonVal::Obj(members);
    proof {
        lemma_view_members(v->Obj_0@);
        assert(view_members(v->Obj_0@) =~= seq![
            ("message"@, send_body_model(encoded@, opt_text_view(*thread_id))),
        ]);
    }
    v
}

} // verus!

verus! {

// ---------------------------------------------------------------------------
// Filters.
// ---------------------------------------------------------------------------

/// One mail filter.
pub struct Filter {
    pub id: Option<String>,
    pub criteria: FilterCriteria,
    pub action: FilterAction,
}

/// What a filter matches.
pub struct FilterCriteria {
    pub from: Option<String>,
    pub to: Option<String>,
    pub subject: Option<String>,
    pub query: Option<String>,
    pub negated_query: Option<String>,
    pub has_attachment: Option<bool>,
    pub exclude_chats: Option<bool>,
    pub size: Option<i64>,
    pub size_comparison: Option<String>,
}

impl Default for FilterCriteria {
    /// A criteria set that matches nothing in particular.
    fn default() -> (r: FilterCriteria)
        ensures
            r.from is None,
            r.to is None,
            r.subject is None,
            r.query is None,
            r.negated_query is None,
            r.has_attachment is None,
            r.exclude_chats is None,
            r.size is None,
            r.size_comparison is None,
    {
        FilterCriteria {
            from: None,
            to: None,
            subject: None,
            query: None,
            negated_query: None,
            has_attachment: None,
            exclude_chats: None,
            size: None,
            size_comparison: None,
        }
    }
}

/// What a filter does.
pub struct FilterAction {
    pub add_label_ids: Vec<String>,
    pub remove_label_ids: Vec<String>,
    pub forward: Option<String>,
}

impl Default for FilterAction {
    /// An action that changes nothing.
    fn default() -> (r: FilterAction)
        ensures
            r.add_label_ids@.len() == 0,
            r.remove_label_ids@.len() == 0,
            r.forward is None,
    {
        FilterAction { add_label_ids: Vec::new(), remove_label_ids: Vec::new(), forward: None }
    }
}

pub struct ListFiltersResponse {
    pub filter: Vec<Filter>,
}

pub open spec fn labels_view(v: Seq<String>) -> Seq<Seq<char>> {
    Seq::new(v.len(), |i: int| v[i]@)
}

/// Build a filter from common parameters.  The convenience flags extend the
/// label lists: skipping the inbox or archiving removes `INBOX`, marking
/// read removes `UNREAD`, starring adds `STARRED`, trashing adds `TRASH`.
pub fn build_filter(
    from: Option<&str>,
    to: Option<&str>,
    subject: Option<&str>,
    query: Option<&str>,
    has_attachment: Option<bool>,
    add_labels: Vec<String>,
    remove_labels: Vec<String>,
    forward_to: Option<&str>,
    skip_inbox: bool,
    mark_read: bool,
    star: bool,
    archive: bool,
    trash: bool,
) -> (r: Filter)
    ensures
        r.id is None,
        opt_text_view(r.criteria.from) == (match from {
            Some(s) => Some(s@),
            None => None::<Seq<char>>,
        }),
        opt_text_view(r.criteria.to) == (match to {
            Some(s) => Some(s@),
            None => None::<Seq<char>>,
        }),
        opt_text_view(r.criteria.subject) == (match subject {
            Some(s) => Some(s@),
            None => None::<Seq<char>>,
        }),
        opt_text_view(r.criteria.query) == (match query {
            Some(s) => Some(s@),
            None => None::<Seq<char>>,
        }),
        r.criteria.has_attachment == has_attachment,
        r.criteria.negated_query is None,
        r.criteria.exclude_chats is None,
        r.criteria.size is None,
        r.criteria.size_comparison is None,
        labels_view(r.action.add_label_ids@) =~= labels_view(add_labels@) + (if star {
            seq!["STARRED"@]
        } else {
            Seq::empty()
        }) + (if trash {
            seq!["TRASH"@]
        } else {
            Seq::empty()
        }),
        labels_view(r.action.remove_label_ids@) =~= labels_view(remove_labels@) + (if skip_inbox
            || archive {
            seq!["INBOX"@]
        } else {
            Seq::empty()
        }) + (if mark_read {
            seq!["UNREAD"@]
        } else {
            Seq::empty()
        }),
        opt_text_view(r.action.forward) == (match forward_to {
            Some(s) => Some(s@),
            None => None::<Seq<char>>,
        }),
{
    let criteria = FilterCriteria {
        from: match from {
            Some(s) => Some(String::from_str(s)),
            None => None,
        },
        to: match to {
            Some(s) => Some(String::from_str(s)),
            None => None,
        },
        subject: match subject {
            Some(s) => Some(String::from_str(s)),
            None => None,
        },
        query: match query {
            Some(s) => Some(String::from_str(s)),
            None => None,
        },
        negated_query: None,
        has_attachment,
        exclude_chats: None,
        size: None,
        size_comparison: None,
    };
    let mut add_label_ids = add_labels;
    let mut remove_label_ids = remove_labels;
    let ghost add0 = labels_view(add_label_ids@);
    let ghost rem0 = labels_view(remove_label_ids@);
    if skip_inbox || archive {
        remove_label_ids.push(String::from_str("INBOX"));
    }
    if mark_read {
        remove_label_ids.push(String::from_str("UNREAD"));
    }
    if star {
        add_label_ids.push(String::from_str("STARRED"));
    }
    if trash {
        add_label_ids.push(String::from_str("TRASH"));
    }
    let action = FilterAction {
        add_label_ids,
        remove_label_ids,
        forward: match forward_to {
            Some(s) => Some(String::from_str(s)),
            None => None,
        },
    };
    Filter { id: None, criteria, action }
}

/// The path of one filter.
pub fn filter_path(filter_id: &str) -> (r: String)
    ensures
        r@ == "/users/me/settings/filters/"@ + crate::encoding::pct_encoded(
            encode_utf8(filter_id@),
        ),
{
    let mut out = String::from_str("/users/me/settings/filters/");
    let enc = percent_encode(filter_id);
    out.append(enc.as_str());
    out
}

/// The path of one message.
pub fn message_path(id: &str) -> (r: String)
    ensures
        r@ == "/users/me/messages/"@ + id@,
{
    let mut out = String::from_str("/users/me/messages/");
    out.append(id);
    out
}

/// The path of one attachment.
pub fn attachment_path(message_id: &str, attachment_id: &str) -> (r: String)
    ensures
        r@ == "/users/me/messages/"@ + message_id@ + "/attachments/"@ + attachment_id@,
{
    let mut out = String::from_str("/users/me/messages/");
    out.append(message_id);
    out.append("/attachments/");
    out.append(attachment_id);
    out
}

} // verus!

verus! {

/// The bytes a downloaded attachment's base64url data stands for; data that
/// is not valid base64url is a decode failure.
pub fn decode_attachment(data: &AttachmentData) -> (r: Option<Vec<u8>>)
    ensures
        match r {
            Some(bytes) => b64url_bytes(data.data@) == Some(bytes@),
            None => b64url_bytes(data.data@) is None,
        },
{
    b64url_decode(data.data.as_str())
}

} // verus!
