//! Tests for the per-service shaping: calendar, mail, sheets, documents,
//! drive watches, tasks and batching.

use base64::Engine;
use workspace_cli::batch::{
    classify_response, overall_status, BatchRequestInput, BatchResponse, HttpMethod,
};
use workspace_cli::calendar::{
    build_event, events_path, event_path, free_busy_body, list_events_query, CreateEventParams,
    EventList, ListEventsParams, MinimalEvent, MinimalEventList,
};
use workspace_cli::docs::{
    append_index, append_text_request, insert_table_request, insert_text_request,
    replace_text_request,
};
use workspace_cli::drive::{stop_channel_body, watch_body, watch_changes_path, watch_file_path};
use workspace_cli::gmail::{
    build_filter, build_raw_email, decode_base64url_string, draft_body,
    encode_base64url_string, extract_body, extract_reply_metadata, filter_path, get_header,
    list_attachments, sanitize_header, send_body, ComposeParams, Header, Message, MessageBody,
    MessagePart, MessagePayload,
};
use workspace_cli::json::{parse_json, render_json, JsonVal};
use workspace_cli::sheets::{
    add_sheet_request, append_values_path, clear_values_path, parse_values_json,
    rename_sheet_request, update_values_path, Sheet, SheetListResponse, SheetProperties,
    Spreadsheet, SpreadsheetProperties, ValueInputOption,
};
use workspace_cli::tasks::{MinimalTask, MinimalTasks, Task, Tasks};

fn b64url(data: &str) -> String {
    base64::engine::general_purpose::URL_SAFE_NO_PAD.encode(data.as_bytes())
}

fn part(mime: Option<&str>, data: Option<String>, children: Vec<MessagePart>) -> MessagePart {
    MessagePart {
        mime_type: mime.map(|m| m.to_string()),
        filename: None,
        body: data.map(|d| MessageBody { attachment_id: None, size: None, data: Some(d) }),
        parts: children,
    }
}

fn message_with(payload: MessagePayload) -> Message {
    Message {
        id: "m1".to_string(),
        thread_id: "t1".to_string(),
        label_ids: vec!["INBOX".to_string()],
        payload: Some(payload),
    }
}

// --- mail bodies ---

#[test]
fn extract_body_prefers_plain_text_in_alternatives() {
    let alt = part(
        Some("multipart/alternative"),
        None,
        vec![
            part(Some("text/html"), Some(b64url("<b>html</b>")), vec![]),
            part(Some("text/plain"), Some(b64url("plain text")), vec![]),
        ],
    );
    let msg = message_with(MessagePayload {
        mime_type: Some("multipart/mixed".to_string()),
        headers: vec![],
        body: None,
        parts: vec![alt],
    });
    assert_eq!(extract_body(&msg), Some("plain text".to_string()));
}

#[test]
fn extract_body_falls_back_to_html() {
    let msg = message_with(MessagePayload {
        mime_type: None,
        headers: vec![],
        body: None,
        parts: vec![part(Some("text/html"), Some(b64url("<i>only html</i>")), vec![])],
    });
    assert_eq!(extract_body(&msg), Some("<i>only html</i>".to_string()));
}

#[test]
fn extract_body_uses_the_payload_data_first() {
    let msg = message_with(MessagePayload {
        mime_type: Some("text/plain".to_string()),
        headers: vec![],
        body: Some(MessageBody {
            attachment_id: None,
            size: None,
            data: Some(b64url("top-level body")),
        }),
        parts: vec![],
    });
    assert_eq!(extract_body(&msg), Some("top-level body".to_string()));
}

#[test]
fn base64url_round_trips_through_the_engine() {
    let text = "caf\u{e9} body \u{2603}";
    let encoded = encode_base64url_string(text);
    assert_eq!(
        encoded,
        base64::engine::general_purpose::URL_SAFE_NO_PAD.encode(text.as_bytes())
    );
    assert_eq!(decode_base64url_string(&encoded), Some(text.to_string()));
    assert_eq!(decode_base64url_string("!!!not base64!!!"), None);
}

#[test]
fn headers_are_found_without_regard_to_case() {
    let msg = message_with(MessagePayload {
        mime_type: None,
        headers: vec![
            Header { name: "From".to_string(), value: "a@example.com".to_string() },
            Header { name: "SUBJECT".to_string(), value: "Hi".to_string() },
        ],
        body: None,
        parts: vec![],
    });
    assert_eq!(get_header(&msg, "from"), Some("a@example.com".to_string()));
    assert_eq!(get_header(&msg, "Subject"), Some("Hi".to_string()));
    assert_eq!(get_header(&msg, "To"), None);
}

#[test]
fn attachments_are_collected_depth_first_with_fallbacks() {
    let leaf = MessagePart {
        mime_type: Some("application/pdf".to_string()),
        filename: Some("doc.pdf".to_string()),
        body: Some(MessageBody {
            attachment_id: Some("att-1".to_string()),
            size: Some(1234),
            data: None,
        }),
        parts: vec![],
    };
    let anonymous = MessagePart {
        mime_type: None,
        filename: None,
        body: Some(MessageBody {
            attachment_id: Some("att-2".to_string()),
            size: None,
            data: None,
        }),
        parts: vec![],
    };
    let container = MessagePart {
        mime_type: Some("multipart/mixed".to_string()),
        filename: None,
        body: None,
        parts: vec![leaf],
    };
    let msg = message_with(MessagePayload {
        mime_type: None,
        headers: vec![],
        body: None,
        parts: vec![container, anonymous],
    });
    let atts = list_attachments(&msg);
    assert_eq!(atts.len(), 2);
    assert_eq!(atts[0].attachment_id, "att-1");
    assert_eq!(atts[0].filename, "doc.pdf");
    assert_eq!(atts[0].size, 1234);
    assert_eq!(atts[1].attachment_id, "att-2");
    assert_eq!(atts[1].filename, "unnamed");
    assert_eq!(atts[1].mime_type, "application/octet-stream");
    assert_eq!(atts[1].size, 0);
}

// --- replies and composition ---

#[test]
fn reply_metadata_is_assembled_from_the_original() {
    let msg = message_with(MessagePayload {
        mime_type: None,
        headers: vec![
            Header { name: "From".to_string(), value: "sender@example.com".to_string() },
            Header { name: "To".to_string(), value: "me@example.com".to_string() },
            Header { name: "Cc".to_string(), value: "cc@example.com".to_string() },
            Header { name: "Subject".to_string(), value: "Plans".to_string() },
            Header { name: "Message-ID".to_string(), value: "<id-1@x>".to_string() },
            Header { name: "References".to_string(), value: "<id-0@x>".to_string() },
        ],
        body: None,
        parts: vec![],
    });
    let meta = extract_reply_metadata(&msg).expect("metadata");
    assert_eq!(meta.to, "sender@example.com");
    assert_eq!(meta.cc.as_deref(), Some("me@example.com, cc@example.com"));
    assert_eq!(meta.subject, "Re: Plans");
    assert_eq!(meta.in_reply_to, "<id-1@x>");
    assert_eq!(meta.references, "<id-0@x> <id-1@x>");
    assert_eq!(meta.thread_id, "t1");
}

#[test]
fn reply_subject_keeps_an_existing_re_prefix() {
    let msg = message_with(MessagePayload {
        mime_type: None,
        headers: vec![
            Header { name: "Reply-To".to_string(), value: "r@example.com".to_string() },
            Header { name: "From".to_string(), value: "f@example.com".to_string() },
            Header { name: "Subject".to_string(), value: "RE: Plans".to_string() },
            Header { name: "Message-ID".to_string(), value: "<id@x>".to_string() },
        ],
        body: None,
        parts: vec![],
    });
    let meta = extract_reply_metadata(&msg).expect("metadata");
    assert_eq!(meta.to, "r@example.com");
    assert_eq!(meta.subject, "RE: Plans");
    assert_eq!(meta.references, "<id@x>");
    assert_eq!(meta.cc, None);
}

#[test]
fn reply_metadata_requires_a_message_id() {
    let msg = message_with(MessagePayload {
        mime_type: None,
        headers: vec![Header { name: "From".to_string(), value: "f@x".to_string() }],
        body: None,
        parts: vec![],
    });
    assert!(extract_reply_metadata(&msg).is_none());
}

#[test]
fn header_values_are_sanitized() {
    assert_eq!(sanitize_header("a\r\nb"), "a b");
    assert_eq!(sanitize_header("  padded  "), "padded");
    assert_eq!(sanitize_header("line\nbreak"), "line break");
    assert_eq!(sanitize_header("\r\n"), "");
}

#[test]
fn raw_email_has_the_expected_layout() {
    let params = ComposeParams {
        to: "to@example.com".to_string(),
        subject: "Hello".to_string(),
        body: "Body text".to_string(),
        from: Some("me@example.com".to_string()),
        cc: None,
        in_reply_to: Some("<p@x>".to_string()),
        references: Some("<p@x>".to_string()),
        thread_id: None,
    };
    let raw = build_raw_email(&params, "Mon, 1 Jan 2024 00:00:00 +0000", "<mid@workspace-cli>");
    let expected = "Date: Mon, 1 Jan 2024 00:00:00 +0000\r\n\
        Message-ID: <mid@workspace-cli>\r\n\
        From: me@example.com\r\n\
        To: to@example.com\r\n\
        In-Reply-To: <p@x>\r\n\
        References: <p@x>\r\n\
        Subject: Hello\r\n\
        MIME-Version: 1.0\r\n\
        Content-Type: text/plain; charset=utf-8\r\n\
        \r\n\
        Body text";
    assert_eq!(raw, expected);
}

#[test]
fn non_ascii_subject_is_written_as_an_encoded_word() {
    let params = ComposeParams {
        to: "to@example.com".to_string(),
        subject: "Gr\u{fc}\u{df}e".to_string(),
        body: "b".to_string(),
        from: None,
        cc: None,
        in_reply_to: None,
        references: None,
        thread_id: None,
    };
    let raw = build_raw_email(&params, "d", "<m>");
    let encoded = base64::engine::general_purpose::STANDARD.encode("Gr\u{fc}\u{df}e".as_bytes());
    assert!(raw.contains(&format!("Subject: =?UTF-8?B?{}?=\r\n", encoded)));
}

#[test]
fn send_and_draft_bodies_carry_the_thread() {
    let body = send_body("RAW64", &Some("th-9".to_string()));
    assert_eq!(render_json(&body), r#"{"raw":"RAW64","threadId":"th-9"}"#);
    let body2 = send_body("RAW64", &None);
    assert_eq!(render_json(&body2), r#"{"raw":"RAW64"}"#);
    let draft = draft_body("RAW64", &None);
    assert_eq!(render_json(&draft), r#"{"message":{"raw":"RAW64"}}"#);
}

// --- filters ---

#[test]
fn build_filter_applies_the_convenience_flags() {
    let f = build_filter(
        Some("boss@example.com"),
        None,
        None,
        Some("has:attachment"),
        Some(true),
        vec!["Label_1".to_string()],
        vec![],
        None,
        true,   // skip_inbox
        true,   // mark_read
        true,   // star
        false,  // archive
        false,  // trash
    );
    assert_eq!(f.criteria.from.as_deref(), Some("boss@example.com"));
    assert_eq!(f.criteria.query.as_deref(), Some("has:attachment"));
    assert_eq!(f.criteria.has_attachment, Some(true));
    assert_eq!(f.action.add_label_ids, vec!["Label_1".to_string(), "STARRED".to_string()]);
    assert_eq!(f.action.remove_label_ids, vec!["INBOX".to_string(), "UNREAD".to_string()]);
    assert!(f.id.is_none());
    assert_eq!(filter_path("a b"), "/users/me/settings/filters/a%20b");
}

// --- calendar ---

#[test]
fn all_day_events_use_bare_dates() {
    let params = CreateEventParams {
        calendar_id: "primary".to_string(),
        summary: "Holiday".to_string(),
        start: "2024-12-24".to_string(),
        end: "2024-12-25".to_string(),
        description: None,
        location: None,
        attendees: None,
        time_zone: Some("Europe/Berlin".to_string()),
        recurrence: None,
        reminders: None,
    };
    let e = build_event(&params);
    let start = e.start.expect("start");
    assert_eq!(start.date.as_deref(), Some("2024-12-24"));
    assert_eq!(start.date_time, None);
    assert_eq!(start.time_zone, None);
    assert_eq!(e.summary.as_deref(), Some("Holiday"));
    assert!(e.attendees.is_empty());
}

#[test]
fn timed_events_keep_the_time_zone_and_attendees() {
    let params = CreateEventParams {
        calendar_id: "primary".to_string(),
        summary: "Meeting".to_string(),
        start: "2024-12-24T10:00:00".to_string(),
        end: "2024-12-24T11:00:00".to_string(),
        description: Some("notes".to_string()),
        location: Some("room 1".to_string()),
        attendees: Some(vec!["a@x".to_string(), "b@x".to_string()]),
        time_zone: Some("Europe/Berlin".to_string()),
        recurrence: Some("RRULE:FREQ=WEEKLY".to_string()),
        reminders: Some("email:30, popup:10, broken, sms:xx".to_string()),
    };
    let e = build_event(&params);
    let start = e.start.expect("start");
    assert_eq!(start.date, None);
    assert_eq!(start.date_time.as_deref(), Some("2024-12-24T10:00:00"));
    assert_eq!(start.time_zone.as_deref(), Some("Europe/Berlin"));
    assert_eq!(e.attendees.len(), 2);
    assert_eq!(e.attendees[0].email, "a@x");
    assert!(!e.attendees[0].optional);
    assert_eq!(e.recurrence.as_ref().unwrap(), &vec!["RRULE:FREQ=WEEKLY".to_string()]);
    let rem = e.reminders.expect("reminders");
    assert!(!rem.use_default);
    assert_eq!(rem.overrides.len(), 2);
    assert_eq!(rem.overrides[0].method, "email");
    assert_eq!(rem.overrides[0].minutes, 30);
    assert_eq!(rem.overrides[1].method, "popup");
    assert_eq!(rem.overrides[1].minutes, 10);
}

#[test]
fn listing_query_respects_the_sync_token_exclusivity() {
    let mut p = ListEventsParams::default();
    p.time_min = Some("2024-01-01T00:00:00Z".to_string());
    p.page_token = Some("pg".to_string());
    let q = list_events_query(&p);
    assert_eq!(q[0], ("maxResults".to_string(), "20".to_string()));
    assert_eq!(q[1], ("singleEvents".to_string(), "true".to_string()));
    assert!(q.iter().any(|kv| kv.0 == "timeMin"));
    assert!(q.iter().any(|kv| kv.0 == "pageToken"));
    assert!(q.iter().any(|kv| kv.0 == "orderBy" && kv.1 == "startTime"));
    p.sync_token = Some("sync-1".to_string());
    let q2 = list_events_query(&p);
    assert_eq!(q2.len(), 3);
    assert_eq!(q2[2], ("syncToken".to_string(), "sync-1".to_string()));
    // ordering applies only to expanded events
    p.sync_token = None;
    p.single_events = false;
    let q3 = list_events_query(&p);
    assert!(!q3.iter().any(|kv| kv.0 == "orderBy"));
    assert_eq!(events_path("id with space"), "/calendars/id%20with%20space/events");
    assert_eq!(event_path("primary", "e/1"), "/calendars/primary/events/e%2F1");
}

#[test]
fn free_busy_body_lists_each_calendar() {
    let body = free_busy_body(&workspace_cli::calendar::FreeBusyParams {
        time_min: "t0".to_string(),
        time_max: "t1".to_string(),
        calendars: vec!["primary".to_string(), "team".to_string()],
        time_zone: Some("UTC".to_string()),
    });
    assert_eq!(
        render_json(&body),
        r#"{"timeMin":"t0","timeMax":"t1","items":[{"id":"primary"},{"id":"team"}],"timeZone":"UTC"}"#
    );
}

#[test]
fn minimal_events_drop_the_bulk() {
    let e = build_event(&CreateEventParams {
        calendar_id: "c".to_string(),
        summary: "S".to_string(),
        start: "2024-01-01".to_string(),
        end: "2024-01-02".to_string(),
        description: Some("long description".to_string()),
        location: None,
        attendees: None,
        time_zone: None,
        recurrence: None,
        reminders: None,
    });
    let m = MinimalEvent::from_event(&e);
    assert_eq!(m.summary.as_deref(), Some("S"));
    let list = EventList {
        items: vec![e],
        next_page_token: Some("np".to_string()),
        next_sync_token: None,
        summary: None,
        time_zone: None,
    };
    let ml = MinimalEventList::from_event_list(&list);
    assert_eq!(ml.items.len(), 1);
    assert_eq!(ml.next_page_token.as_deref(), Some("np"));
}

// --- sheets ---

#[test]
fn sheet_list_is_reduced_from_the_spreadsheet() {
    let s = Spreadsheet {
        spreadsheet_id: "sid".to_string(),
        properties: SpreadsheetProperties {
            title: "Budget".to_string(),
            locale: None,
            time_zone: None,
        },
        sheets: vec![
            Sheet { properties: SheetProperties { sheet_id: 7, title: "A".to_string(), index: 0 } },
            Sheet { properties: SheetProperties { sheet_id: 9, title: "B".to_string(), index: 1 } },
        ],
    };
    let r = SheetListResponse::from_spreadsheet(&s);
    assert_eq!(r.spreadsheet_id, "sid");
    assert_eq!(r.title, "Budget");
    assert_eq!(r.sheets.len(), 2);
    assert_eq!(r.sheets[1].sheet_id, 9);
    assert_eq!(r.sheets[1].title, "B");
}

#[test]
fn value_input_options_spell_themselves() {
    assert_eq!(ValueInputOption::Raw.as_str(), "RAW");
    assert_eq!(ValueInputOption::UserEntered.as_str(), "USER_ENTERED");
    assert!(matches!(ValueInputOption::default(), ValueInputOption::UserEntered));
}

#[test]
fn sheet_paths_encode_the_range() {
    let opt = ValueInputOption::UserEntered;
    assert_eq!(
        update_values_path("sid", "Sheet1!A1:B2", &opt),
        "/spreadsheets/sid/values/Sheet1%21A1%3AB2?valueInputOption=USER_ENTERED"
    );
    assert_eq!(
        append_values_path("sid", "A1", &ValueInputOption::Raw),
        "/spreadsheets/sid/values/A1:append?valueInputOption=RAW&insertDataOption=INSERT_ROWS"
    );
    assert_eq!(clear_values_path("sid", "A1"), "/spreadsheets/sid/values/A1:clear");
}

#[test]
fn sheet_batch_requests_are_shaped() {
    let add = add_sheet_request("New", Some(2));
    assert_eq!(add.requests.len(), 1);
    let a = add.requests[0].add_sheet.as_ref().expect("add");
    assert_eq!(a.properties.title, "New");
    assert_eq!(a.properties.index, Some(2));
    let ren = rename_sheet_request(5, "Renamed");
    let u = ren.requests[0].update_sheet_properties.as_ref().expect("update");
    assert_eq!(u.properties.sheet_id, 5);
    assert_eq!(u.properties.title.as_deref(), Some("Renamed"));
    assert_eq!(u.fields, "title");
}

#[test]
fn cell_values_parse_as_a_matrix() {
    let rows = parse_values_json(r#"[["a", 1], [true, null]]"#).expect("parses");
    assert_eq!(rows.len(), 2);
    assert!(matches!(rows[0][1], JsonVal::Int(1)));
    assert!(matches!(rows[1][1], JsonVal::Null));
    assert!(parse_values_json(r#"{"a": 1}"#).is_err());
    assert!(parse_values_json(r#"[1, 2]"#).is_err());
    assert!(parse_values_json("nonsense").is_err());
}

// --- documents ---

#[test]
fn document_requests_are_shaped() {
    let ins = insert_text_request("hello", 7);
    assert_eq!(ins.text, "hello");
    assert_eq!(ins.location.index, 7);
    let app = append_text_request("tail", 42);
    assert_eq!(app.text, "\ntail");
    assert_eq!(app.location.index, 41);
    assert_eq!(append_index(1), 1);
    assert_eq!(append_index(0), 1);
    let rep = replace_text_request("old", "new", true);
    assert_eq!(rep.contains_text.text, "old");
    assert!(rep.contains_text.match_case);
    assert_eq!(rep.replace_text, "new");
    let tab = insert_table_request(3, 4, 9);
    assert_eq!((tab.rows, tab.columns, tab.location.index), (3, 4, 9));
}

// --- drive watches ---

#[test]
fn watch_bodies_follow_the_wire_shape() {
    let body = watch_body("chan-1", "https://hook.example/cb", &Some("tok".to_string()), Some(99));
    assert_eq!(
        render_json(&body),
        r#"{"id":"chan-1","type":"web_hook","address":"https://hook.example/cb","token":"tok","expiration":99}"#
    );
    let bare = watch_body("chan-2", "https://hook.example/cb", &None, None);
    assert_eq!(
        render_json(&bare),
        r#"{"id":"chan-2","type":"web_hook","address":"https://hook.example/cb"}"#
    );
    assert_eq!(
        render_json(&stop_channel_body("c", "r")),
        r#"{"id":"c","resourceId":"r"}"#
    );
    assert_eq!(watch_changes_path("p t"), "/changes/watch?pageToken=p%20t");
    assert_eq!(watch_file_path("f/1"), "/files/f%2F1/watch");
}

// --- tasks ---

#[test]
fn tasks_build_and_reduce() {
    let t = Task::new("Write report".to_string())
        .with_notes("by Friday".to_string())
        .with_due("2024-06-01T00:00:00Z".to_string());
    assert_eq!(t.title, "Write report");
    assert_eq!(t.status.as_deref(), Some("needsAction"));
    assert_eq!(t.notes.as_deref(), Some("by Friday"));
    assert_eq!(t.due.as_deref(), Some("2024-06-01T00:00:00Z"));
    let m = MinimalTask::from_task(&t);
    assert_eq!(m.title, "Write report");
    assert_eq!(m.due.as_deref(), Some("2024-06-01T00:00:00Z"));
    let all = Tasks { items: vec![t], next_page_token: Some("n".to_string()) };
    let ml = MinimalTasks::from_tasks(&all);
    assert_eq!(ml.items.len(), 1);
    assert_eq!(ml.next_page_token.as_deref(), Some("n"));
}

// --- batching ---

#[test]
fn batch_inputs_convert_and_reject_methods() {
    let input = BatchRequestInput {
        id: "r1".to_string(),
        method: "post".to_string(),
        path: "/users/me/messages/send".to_string(),
        body: Some(parse_json(r#"{"raw":"x"}"#).unwrap()),
    };
    let req = input.to_batch_request().expect("converts");
    assert!(matches!(req.method, HttpMethod::Post));
    assert_eq!(req.id, "r1");
    assert_eq!(req.path, "/users/me/messages/send");
    assert_eq!(render_json(req.body.as_ref().unwrap()), r#"{"raw":"x"}"#);
    let bad = BatchRequestInput {
        id: "r2".to_string(),
        method: "fetch".to_string(),
        path: "/x".to_string(),
        body: None,
    };
    match bad.to_batch_request() {
        Err(m) => assert_eq!(m, "Unsupported method: FETCH"),
        Ok(_) => panic!("must refuse unknown methods"),
    }
}

#[test]
fn batch_responses_classify_by_status() {
    let ok = BatchResponse {
        id: "a".to_string(),
        status: 200,
        body: parse_json(r#"{"done":true}"#).unwrap(),
    };
    assert!(classify_response(ok).is_ok());
    let failed = BatchResponse {
        id: "b".to_string(),
        status: 404,
        body: parse_json(r#"{"error":{"message":"Not Found"}}"#).unwrap(),
    };
    match classify_response(failed) {
        Err(e) => {
            assert_eq!(e.status, 404);
            assert_eq!(e.message, "Not Found");
        }
        Ok(_) => panic!("404 is not success"),
    }
    let opaque = BatchResponse {
        id: "c".to_string(),
        status: 500,
        body: parse_json("{}").unwrap(),
    };
    match classify_response(opaque) {
        Err(e) => assert_eq!(e.message, "Request failed"),
        Ok(_) => panic!("500 is not success"),
    }
    assert_eq!(overall_status(false, true), "success");
    assert_eq!(overall_status(true, false), "error");
    assert_eq!(overall_status(false, false), "partial");
}

// --- slides ---

#[test]
fn slide_requests_and_layouts() {
    let layouts = workspace_cli::slides::slide_layouts();
    assert_eq!(layouts.len(), 11);
    assert_eq!(layouts[0], "BLANK");
    assert_eq!(layouts[10], "BIG_NUMBER");
    let body = workspace_cli::slides::add_slide_request(Some(2), Some("TITLE"));
    assert_eq!(
        render_json(&body),
        r#"{"requests":[{"createSlide":{"insertionIndex":2,"slideLayoutReference":{"predefinedLayout":"TITLE"}}}]}"#
    );
    let bare = workspace_cli::slides::add_slide_request(None, None);
    assert_eq!(render_json(&bare), r#"{"requests":[{"createSlide":{}}]}"#);
    assert_eq!(
        render_json(&workspace_cli::slides::presentation_body("Deck")),
        r#"{"title":"Deck"}"#
    );
    assert_eq!(
        workspace_cli::slides::presentation_update_path("p1"),
        "/presentations/p1:batchUpdate"
    );
}

#[test]
fn attachment_data_decodes() {
    let data = workspace_cli::gmail::AttachmentData {
        size: 5,
        data: base64::engine::general_purpose::URL_SAFE_NO_PAD.encode(b"hello"),
    };
    assert_eq!(workspace_cli::gmail::decode_attachment(&data), Some(b"hello".to_vec()));
    let bad = workspace_cli::gmail::AttachmentData { size: 1, data: "???".to_string() };
    assert_eq!(workspace_cli::gmail::decode_attachment(&bad), None);
}
