//! Calendar events: shapes, the minimal reductions, and the pure parts of
//! event creation, listing and free/busy queries.

use vstd::prelude::*;
use vstd::utf8::encode_utf8;
use std::collections::HashMap;
use crate::encoding::{pct_encoded, percent_encode};
use crate::json::{
    JsonVal, JsonModel, render_nat, spec_parse_i64, parse_i64, chars_vec, string_of_chars,
    subrange_vec, view_members, view_seq, lemma_view_members, lemma_view_seq, u32_string,
};
use crate::listener::{idx_of, trim_spaces, trim_str, lemma_idx_of_found};
use crate::oauth::params_view;
use crate::token::{opt_text_view, clone_opt_string};

verus! {

pub struct Event {
    pub id: Option<String>,
    pub summary: Option<String>,
    pub description: Option<String>,
    pub location: Option<String>,
    pub start: Option<EventDateTime>,
    pub end: Option<EventDateTime>,
    pub status: Option<String>,
    pub attendees: Vec<Attendee>,
    pub organizer: Option<Organizer>,
    pub html_link: Option<String>,
    pub created: Option<String>,
    pub updated: Option<String>,
    pub recurrence: Option<Vec<String>>,
    pub reminders: Option<EventReminders>,
}

/// Either a whole day or an instant, with an optional time zone.
pub struct EventDateTime {
    pub date: Option<String>,
    pub date_time: Option<String>,
    pub time_zone: Option<String>,
}

pub struct Attendee {
    pub email: String,
    pub optional: bool,
    pub response_status: Option<String>,
}

pub struct Organizer {
    pub email: Option<String>,
    pub display_name: Option<String>,
    pub is_self: Option<bool>,
}

pub struct EventList {
    pub items: Vec<Event>,
    pub next_page_token: Option<String>,
    pub next_sync_token: Option<String>,
    pub summary: Option<String>,
    pub time_zone: Option<String>,
}

pub struct CalendarList {
    pub items: Vec<CalendarListEntry>,
    pub next_page_token: Option<String>,
}

pub struct CalendarListEntry {
    pub id: String,
    pub summary: Option<String>,
    pub description: Option<String>,
    pub primary: Option<bool>,
    pub access_role: Option<String>,
}

pub struct EventReminders {
    pub use_default: bool,
    pub overrides: Vec<ReminderOverride>,
}

pub struct ReminderOverride {
    pub method: String,
    pub minutes: i64,
}

pub open spec fn edt_view(d: EventDateTime) -> (
    Option<Seq<char>>,
    Option<Seq<char>>,
    Option<Seq<char>>,
) {
    (opt_text_view(d.date), opt_text_view(d.date_time), opt_text_view(d.time_zone))
}

pub open spec fn opt_edt_view(d: Option<EventDateTime>) -> Option<
    (Option<Seq<char>>, Option<Seq<char>>, Option<Seq<char>>),
> {
    match d {
        Some(x) => Some(edt_view(x)),
        None => None,
    }
}

pub fn clone_edt(d: &Option<EventDateTime>) -> (r: Option<EventDateTime>)
    ensures
        opt_edt_view(r) == opt_edt_view(*d),
{
    match d {
        Some(x) => Some(
            EventDateTime {
                date: clone_opt_string(&x.date),
                date_time: clone_opt_string(&x.date_time),
                time_zone: clone_opt_string(&x.time_zone),
            },
        ),
        None => None,
    }
}

/// The reduced event shape: identity, summary, the two instants, status.
pub struct MinimalEvent {
    pub id: Option<String>,
    pub summary: Option<String>,
    pub start: Option<EventDateTime>,
    pub end: Option<EventDateTime>,
    pub status: Option<String>,
}

pub struct MinimalEventList {
    pub items: Vec<MinimalEvent>,
    pub next_page_token: Option<String>,
    pub next_sync_token: Option<String>,
}

pub open spec fn minimal_of_event(e: Event) -> (
    Option<Seq<char>>,
    Option<Seq<char>>,
    Option<(Option<Seq<char>>, Option<Seq<char>>, Option<Seq<char>>)>,
    Option<(Option<Seq<char>>, Option<Seq<char>>, Option<Seq<char>>)>,
    Option<Seq<char>>,
) {
    (
        opt_text_view(e.id),
        opt_text_view(e.summary),
        opt_edt_view(e.start),
        opt_edt_view(e.end),
        opt_text_view(e.status),
    )
}

pub open spec fn minimal_event_view(m: MinimalEvent) -> (
    Option<Seq<char>>,
    Option<Seq<char>>,
    Option<(Option<Seq<char>>, Option<Seq<char>>, Option<Seq<char>>)>,
    Option<(Option<Seq<char>>, Option<Seq<char>>, Option<Seq<char>>)>,
    Option<Seq<char>>,
) {
    (
        opt_text_view(m.id),
        opt_text_view(m.summary),
        opt_edt_view(m.start),
        opt_edt_view(m.end),
        opt_text_view(m.status),
    )
}

impl MinimalEvent {
    /// Reduce one event, dropping attendees, organizer and bookkeeping.
    pub fn from_event(event: &Event) -> (r: MinimalEvent)
        ensures
            minimal_event_view(r) == minimal_of_event(*event),
    {
        MinimalEvent {
            id: clone_opt_string(&event.id),
            summary: clone_opt_string(&event.summary),
            start: clone_edt(&event.start),
            end: clone_edt(&event.end),
            status: clone_opt_string(&event.status),
        }
    }
}

impl MinimalEventList {
    /// Reduce every event of a listing, keeping order and both tokens.
    pub fn from_event_list(list: &EventList) -> (r: MinimalEventList)
        ensures
            r.items@.len() == list.items@.len(),
            forall|i: int|
                0 <= i < r.items@.len() ==> minimal_event_view(r.items@[i]) == minimal_of_event(
                    list.items@[i],
                ),
            opt_text_view(r.next_page_token) == opt_text_view(list.next_page_token),
            opt_text_view(r.next_sync_token) == opt_text_view(list.next_sync_token),
    {
        let mut items: Vec<MinimalEvent> = Vec::new();
        let mut i: usize = 0;
        while i < list.items.len()
            invariant
                i <= list.items@.len(),
                items@.len() == i,
                forall|q: int|
                    0 <= q < i ==> minimal_event_view(items@[q]) == minimal_of_event(
                        list.items@[q],
                    ),
            decreases list.items@.len() - i,
        {
            items.push(MinimalEvent::from_event(&list.items[i]));
            i = i + 1;
        }
        MinimalEventList {
            items,
            next_page_token: clone_opt_string(&list.next_page_token),
            next_sync_token: clone_opt_string(&list.next_sync_token),
        }
    }
}

// ---------------------------------------------------------------------------
// Event creation.
// ---------------------------------------------------------------------------

pub struct CreateEventParams {
    pub calendar_id: String,
    pub summary: String,
    /// RFC3339 instant, or a bare date for an all-day event.
    pub start: String,
    pub end: String,
    pub description: Option<String>,
    pub location: Option<String>,
    pub attendees: Option<Vec<String>>,
    pub time_zone: Option<String>,
    /// A recurrence rule.
    pub recurrence: Option<String>,
    /// Reminders, written `method:minutes` and comma-separated.
    pub reminders: Option<String>,
}

/// An event is all-day when its start carries no time part.
pub open spec fn all_day(start: Seq<char>) -> bool {
    !(idx_of(start, 0, 'T') < start.len())
}

/// One reminder, read from a `method:minutes` piece; pieces without a
/// colon-separated number are dropped.
pub open spec fn reminder_of(part: Seq<char>) -> Option<(Seq<char>, int)> {
    let c = idx_of(part, 0, ':');
    if 0 <= c < part.len() {
        let e2 = idx_of(part, c + 1, ':');
        match spec_parse_i64(part.subrange(c + 1, e2)) {
            Some(n) => Some((part.subrange(0, c), n)),
            None => None,
        }
    } else {
        None
    }
}

/// The reminders a comma-separated list stands for, each piece trimmed.
pub open spec fn reminders_of(txt: Seq<char>) -> Seq<(Seq<char>, int)>
    decreases txt.len(),
{
    let c = idx_of(txt, 0, ',');
    let head = match reminder_of(trim_spaces(txt.subrange(0, c))) {
        Some(r) => seq![r],
        None => Seq::empty(),
    };
    if 0 <= c < txt.len() {
        head + reminders_of(txt.subrange(c + 1, txt.len() as int))
    } else {
        head
    }
}

pub open spec fn reminders_view(v: Seq<ReminderOverride>) -> Seq<(Seq<char>, int)> {
    Seq::new(v.len(), |i: int| (v[i].method@, v[i].minutes as int))
}

/// The reminders within `v[ts..te)`, mirroring `reminders_of` there.
fn reminders_range(v: &Vec<char>, ts: usize, te: usize) -> (r: Vec<ReminderOverride>)
    requires
        ts <= te <= v@.len(),
    ensures
        reminders_view(r@) =~= reminders_of(v@.subrange(ts as int, te as int)),
    decreases te - ts,
{
    let ghost txt = v@.subrange(ts as int, te as int);
    let comma = crate::listener::find_char(v, ts, te, ',');
    proof {
        lemma_idx_of_found(txt, 0, ',', comma as int - ts as int);
        assert(txt.subrange(0, comma as int - ts as int) =~= v@.subrange(
            ts as int,
            comma as int,
        ));
    }
    let piece_vec = subrange_vec(v, ts, comma);
    let piece = string_of_chars(&piece_vec);
    let trimmed = trim_str(piece.as_str());
    let head: Option<ReminderOverride> = reminder_from_piece(&trimmed);
    if comma < te {
        let mut rest = reminders_range(v, comma + 1, te);
        proof {
            assert(txt.subrange(comma as int - ts as int + 1, txt.len() as int) =~= v@.subrange(
                comma as int + 1,
                te as int,
            ));
        }
        match head {
            Some(h) => {
                let ghost prior = rest@;
                let ghost hm = (h.method@, h.minutes as int);
                rest.insert(0, h);
                proof {
                    assert(rest@ =~= seq![rest@[0]] + prior);
                    assert(reminders_view(rest@) =~= seq![hm] + reminders_view(prior));
                }
                rest
            },
            None => rest,
        }
    } else {
        let mut out: Vec<ReminderOverride> = Vec::new();
        match head {
            Some(h) => {
                let ghost hm = (h.method@, h.minutes as int);
                out.push(h);
                proof {
                    assert(reminders_view(out@) =~= seq![hm]);
                }
                out
            },
            None => {
                proof {
                    assert(reminders_view(out@) =~= Seq::<(Seq<char>, int)>::empty());
                }
                out
            },
        }
    }
}

/// One reminder from one trimmed piece.
fn reminder_from_piece(piece: &String) -> (r: Option<ReminderOverride>)
    ensures
        match r {
            Some(o) => reminder_of(piece@) == Some((o.method@, o.minutes as int)),
            None => reminder_of(piece@) is None,
        },
{
    let pv = chars_vec(piece.as_str());
    let c = crate::listener::find_char(&pv, 0, pv.len(), ':');
    proof {
        lemma_idx_of_found(piece@, 0, ':', c as int);
    }
    if c >= pv.len() {
        return None;
    }
    let e2 = crate::listener::find_char(&pv, c + 1, pv.len(), ':');
    proof {
        lemma_idx_of_found(piece@, c as int + 1, ':', e2 as int);
    }
    let num_vec = subrange_vec(&pv, c + 1, e2);
    let num = string_of_chars(&num_vec);
    match parse_i64(num.as_str()) {
        Some(n) => {
            let method_vec = subrange_vec(&pv, 0, c);
            let method = string_of_chars(&method_vec);
            Some(ReminderOverride { method, minutes: n })
        },
        None => None,
    }
}

/// The event a creation request stands for: all-day detection from the
/// start's shape, attendees from the address list, a single recurrence rule,
/// and parsed reminder overrides.
pub fn build_event(params: &CreateEventParams) -> (r: Event)
    ensures
        r.id is None,
        r.summary matches Some(s) && s@ == params.summary@,
        opt_text_view(r.description) == opt_text_view(params.description),
        opt_text_view(r.location) == opt_text_view(params.location),
        r.status is None,
        r.organizer is None,
        r.html_link is None,
        r.created is None,
        r.updated is None,
        all_day(params.start@) ==> opt_edt_view(r.start) == Some(
            (Some(params.start@), None::<Seq<char>>, None::<Seq<char>>),
        ) && opt_edt_view(r.end) == Some(
            (Some(params.end@), None::<Seq<char>>, None::<Seq<char>>),
        ),
        !all_day(params.start@) ==> opt_edt_view(r.start) == Some(
            (None::<Seq<char>>, Some(params.start@), opt_text_view(params.time_zone)),
        ) && opt_edt_view(r.end) == Some(
            (None::<Seq<char>>, Some(params.end@), opt_text_view(params.time_zone)),
        ),
        r.attendees@.len() == (match params.attendees {
            Some(a) => a@.len(),
            None => 0,
        }),
        forall|i: int|
            0 <= i < r.attendees@.len() ==> r.attendees@[i].email@
                == params.attendees->0@[i]@ && !r.attendees@[i].optional
                && r.attendees@[i].response_status is None,
        match params.recurrence {
            Some(rule) => r.recurrence matches Some(rv) && rv@.len() == 1 && rv@[0]@ == rule@,
            None => r.recurrence is None,
        },
        match params.reminders {
            Some(txt) => r.reminders matches Some(em) && !em.use_default && reminders_view(
                em.overrides@,
            ) == reminders_of(txt@),
            None => r.reminders is None,
        },
{
    let sv = chars_vec(params.start.as_str());
    let tpos = crate::listener::find_char(&sv, 0, sv.len(), 'T');
    proof {
        lemma_idx_of_found(params.start@, 0, 'T', tpos as int);
    }
    let is_all_day = tpos >= sv.len();
    let start: EventDateTime = if is_all_day {
        EventDateTime { date: Some(params.start.clone()), date_time: None, time_zone: None }
    } else {
        EventDateTime {
            date: None,
            date_time: Some(params.start.clone()),
            time_zone: clone_opt_string(&params.time_zone),
        }
    };
    let end: EventDateTime = if is_all_day {
        EventDateTime { date: Some(params.end.clone()), date_time: None, time_zone: None }
    } else {
        EventDateTime {
            date: None,
            date_time: Some(params.end.clone()),
            time_zone: clone_opt_string(&params.time_zone),
        }
    };
    let mut attendees: Vec<Attendee> = Vec::new();
    match &params.attendees {
        Some(addresses) => {
            let mut i: usize = 0;
            while i < addresses.len()
                invariant
                    i <= addresses@.len(),
                    attendees@.len() == i,
                    forall|q: int|
                        0 <= q < i ==> attendees@[q].email@ == addresses@[q]@
                            && !attendees@[q].optional && attendees@[q].response_status is None,
                decreases addresses@.len() - i,
            {
                attendees.push(
                    Attendee {
                        email: addresses[i].clone(),
                        optional: false,
                        response_status: None,
                    },
                );
                i = i + 1;
            }
        },
        None => {},
    }
    let recurrence: Option<Vec<String>> = match &params.recurrence {
        Some(rule) => {
            let mut rv: Vec<String> = Vec::new();
            rv.push(rule.clone());
            Some(rv)
        },
        None => None,
    };
    let reminders: Option<EventReminders> = match &params.reminders {
        Some(txt) => {
            let tv = chars_vec(txt.as_str());
            let overrides = reminders_range(&tv, 0, tv.len());
            proof {
                assert(tv@.subrange(0, tv@.len() as int) =~= txt@);
            }
            Some(EventReminders { use_default: false, overrides })
        },
        None => None,
    };
    Event {
        id: None,
        summary: Some(params.summary.clone()),
        description: clone_opt_string(&params.description),
        location: clone_opt_string(&params.location),
        start: Some(start),
        end: Some(end),
        status: None,
        attendees,
        organizer: None,
        html_link: None,
        created: None,
        updated: None,
        recurrence,
        reminders,
    }
}

// ---------------------------------------------------------------------------
// Listing and free/busy.
// ---------------------------------------------------------------------------

pub struct ListEventsParams {
    pub calendar_id: String,
    pub time_min: Option<String>,
    pub time_max: Option<String>,
    pub max_results: u32,
    /// Expand recurring events into single occurrences.
    pub single_events: bool,
    pub order_by: Option<String>,
    pub page_token: Option<String>,
    pub sync_token: Option<String>,
}

impl Default for ListEventsParams {
    /// The primary calendar, twenty expanded events, ordered by start time.
    fn default() -> (r: ListEventsParams)
        ensures
            r.calendar_id@ == "primary"@,
            r.time_min is None,
            r.time_max is None,
            r.max_results == 20u32,
            r.single_events,
            r.order_by matches Some(o) && o@ == "startTime"@,
            r.page_token is None,
            r.sync_token is None,
    {
        ListEventsParams {
            calendar_id: String::from_str("primary"),
            time_min: None,
            time_max: None,
            max_results: 20,
            single_events: true,
            order_by: Some(String::from_str("startTime")),
            page_token: None,
            sync_token: None,
        }
    }
}

pub open spec fn bool_text(b: bool) -> Seq<char> {
    if b {
        "true"@
    } else {
        "false"@
    }
}

/// The query of an event listing.  A sync token excludes the time bounds and
/// the page token; ordering applies only to expanded events.
pub open spec fn list_query_model(
    max_results: int,
    single_events: bool,
    sync_token: Option<Seq<char>>,
    time_min: Option<Seq<char>>,
    time_max: Option<Seq<char>>,
    page_token: Option<Seq<char>>,
    order_by: Option<Seq<char>>,
) -> Seq<(Seq<char>, Seq<char>)> {
    let base = seq![
        ("maxResults"@, render_nat(max_results)),
        ("singleEvents"@, bool_text(single_events)),
    ];
    match sync_token {
        Some(s) => base + seq![("syncToken"@, s)],
        None => base + (match time_min {
            Some(t) => seq![("timeMin"@, t)],
            None => Seq::empty(),
        }) + (match time_max {
            Some(t) => seq![("timeMax"@, t)],
            None => Seq::empty(),
        }) + (match page_token {
            Some(t) => seq![("pageToken"@, t)],
            None => Seq::empty(),
        }) + (match order_by {
            Some(o) => if single_events {
                seq![("orderBy"@, o)]
            } else {
                Seq::empty()
            },
            None => Seq::empty(),
        }),
    }
}

/// Build the event-listing query.
pub fn list_events_query(p: &ListEventsParams) -> (r: Vec<(String, String)>)
    ensures
        params_view(r@) =~= list_query_model(
            p.max_results as int,
            p.single_events,
            opt_text_view(p.sync_token),
            opt_text_view(p.time_min),
            opt_text_view(p.time_max),
            opt_text_view(p.page_token),
            opt_text_view(p.order_by),
        ),
{
    let mut out: Vec<(String, String)> = Vec::new();
    out.push((String::from_str("maxResults"), u32_string(p.max_results)));
    let sev: String = if p.single_events {
        String::from_str("true")
    } else {
        String::from_str("false")
    };
    out.push((String::from_str("singleEvents"), sev));
    match &p.sync_token {
        Some(s) => {
            out.push((String::from_str("syncToken"), s.clone()));
        },
        None => {
            match &p.time_min {
                Some(t) => {
                    out.push((String::from_str("timeMin"), t.clone()));
                },
                None => {},
            }
            match &p.time_max {
                Some(t) => {
                    out.push((String::from_str("timeMax"), t.clone()));
                },
                None => {},
            }
            match &p.page_token {
                Some(t) => {
                    out.push((String::from_str("pageToken"), t.clone()));
                },
                None => {},
            }
            match &p.order_by {
                Some(o) => {
                    if p.single_events {
                        out.push((String::from_str("orderBy"), o.clone()));
                    }
                },
                None => {},
            }
        },
    }
    out
}

/// The path of a calendar's event collection.
pub fn events_path(calendar_id: &str) -> (r: String)
    ensures
        r@ == "/calendars/"@ + pct_encoded(encode_utf8(calendar_id@)) + "/events"@,
{
    let mut out = String::from_str("/calendars/");
    let enc = percent_encode(calendar_id);
    out.append(enc.as_str());
    out.append("/events");
    out
}

/// The path of one event.
pub fn event_path(calendar_id: &str, event_id: &str) -> (r: String)
    ensures
        r@ == "/calendars/"@ + pct_encoded(encode_utf8(calendar_id@)) + "/events/"@
            + pct_encoded(encode_utf8(event_id@)),
{
    let mut out = String::from_str("/calendars/");
    let enc = percent_encode(calendar_id);
    out.append(enc.as_str());
    out.append("/events/");
    let enc2 = percent_encode(event_id);
    out.append(enc2.as_str());
    out
}

pub struct FreeBusyParams {
    pub time_min: String,
    pub time_max: String,
    pub calendars: Vec<String>,
    pub time_zone: Option<String>,
}

pub struct FreeBusyResponse {
    pub kind: Option<String>,
    pub time_min: Option<String>,
    pub time_max: Option<String>,
    pub calendars: HashMap<String, CalendarFreeBusy>,
}

pub struct CalendarFreeBusy {
    pub busy: Vec<TimePeriod>,
    pub errors: Vec<FreeBusyError>,
}

pub struct TimePeriod {
    pub start: String,
    pub end: String,
}

pub struct FreeBusyError {
    pub domain: Option<String>,
    pub reason: Option<String>,
}

/// The free/busy query body: the window, one `{id}` item per calendar, and
/// the optional time zone.
pub open spec fn free_busy_model(
    time_min: Seq<char>,
    time_max: Seq<char>,
    calendars: Seq<Seq<char>>,
    time_zone: Option<Seq<char>>,
) -> JsonModel {
    JsonModel::Obj(
        seq![
            ("timeMin"@, JsonModel::Text(time_min)),
            ("timeMax"@, JsonModel::Text(time_max)),
            (
                "items"@,
                JsonModel::Arr(
                    Seq::new(
                        calendars.len(),
                        |i: int| JsonModel::Obj(seq![("id"@, JsonModel::Text(calendars[i]))]),
                    ),
                ),
            ),
        ] + (match time_zone {
            Some(tz) => seq![("timeZone"@, JsonModel::Text(tz))],
            None => Seq::empty(),
        }),
    )
}

/// Build the free/busy query body.
pub fn free_busy_body(params: &FreeBusyParams) -> (r: JsonVal)
    ensures
        r@ == free_busy_model(
            params.time_min@,
            params.time_max@,
            Seq::new(params.calendars@.len(), |i: int| params.calendars@[i]@),
            opt_text_view(params.time_zone),
        ),
{
    let ghost cals = Seq::new(params.calendars@.len(), |i: int| params.calendars@[i]@);
    let mut items: Vec<JsonVal> = Vec::new();
    let mut i: usize = 0;
    while i < params.calendars.len()
        invariant
            i <= params.calendars@.len(),
            cals == Seq::new(params.calendars@.len(), |q: int| params.calendars@[q]@),
            items@.len() == i,
            forall|q: int|
                0 <= q < i ==> items@[q]@ == JsonModel::Obj(
                    seq![("id"@, JsonModel::Text(cals[q]))],
                ),
        decreases params.calendars@.len() - i,
    {
        let mut m: Vec<(String, JsonVal)> = Vec::new();
        m.push((String::from_str("id"), JsonVal::Text(params.calendars[i].clone())));
        let item = JsonVal::Obj(m);
        proof {
            lemma_view_members(item->Obj_0@);
            assert(view_members(item->Obj_0@) =~= seq![
                ("id"@, JsonModel::Text(cals[i as int])),
            ]);
        }
        items.push(item);
        i = i + 1;
    }
    let mut members: Vec<(String, JsonVal)> = Vec::new();
    members.push((String::from_str("timeMin"), JsonVal::Text(params.time_min.clone())));
    members.push((String::from_str("timeMax"), JsonVal::Text(params.time_max.clone())));
    let arr = JsonVal::Arr(items);
    proof {
        lemma_view_seq(arr->Arr_0@);
        assert(view_seq(arr->Arr_0@) =~= Seq::new(
            cals.len(),
            |q: int| JsonModel::Obj(seq![("id"@, JsonModel::Text(cals[q]))]),
        ));
    }
    members.push((String::from_str("items"), arr));
    match &params.time_zone {
        Some(tz) => {
            members.push((String::from_str("timeZone"), JsonVal::Text(tz.clone())));
        },
        None => {},
    }
    let v = JsonVal::Obj(members);
    proof {
        lemma_view_members(v->Obj_0@);
        assert(view_members(v->Obj_0@) =~= free_busy_model(
            params.time_min@,
            params.time_max@,
            cals,
            opt_text_view(params.time_zone),
        )->Obj_0);
    }
    v
}

} // verus!
