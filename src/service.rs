//! The rules of the request layer: each request, given as its text fields,
//! is parsed, applied to the store, and answered with a status and a body.
use crate::datetime::{naive_date_of, parse_date, parse_rfc3339, rfc3339_utc_of, UtcDateTime};
use crate::store::{
    has_key, is_first_match, key_from, select, unique_keys, Event, EventStore, Period,
};
use vstd::prelude::*;

verus! {

pub const STATUS_OK: u16 = 200;

pub const STATUS_CREATED: u16 = 201;

pub const STATUS_BAD_REQUEST: u16 = 400;

/// The status that a duplicate or a missing event is answered with.
pub const STATUS_SERVICE_UNAVAILABLE: u16 = 503;

/// The body of a reply.
#[derive(Debug)]
pub enum ReplyBody {
    /// A confirmation, sent under the key `result`.
    Done(String),
    /// What went wrong, sent under the key `error`.
    Failed(String),
    /// The events that a query selected, sent under the key `result`.
    Events(Vec<Event>),
}

/// A reply: its status code and its body.
#[derive(Debug)]
pub struct Reply {
    pub status: u16,
    pub body: ReplyBody,
}

/// `r` confirms with `status` and the text `text`.
pub open spec fn is_done(r: Reply, status: u16, text: Seq<char>) -> bool {
    r.status == status && match r.body {
        ReplyBody::Done(t) => t@ == text,
        _ => false,
    }
}

/// `r` reports a failure with `status` and the text `text`.
pub open spec fn is_failed(r: Reply, status: u16, text: Seq<char>) -> bool {
    r.status == status && match r.body {
        ReplyBody::Failed(t) => t@ == text,
        _ => false,
    }
}

/// `r` carries the events `events` with the status 200.
pub open spec fn is_events(r: Reply, events: Seq<Event>) -> bool {
    r.status == STATUS_OK && match r.body {
        ReplyBody::Events(v) => v@ == events,
        _ => false,
    }
}

pub open spec fn added_text(name: Seq<char>, date: Seq<char>) -> Seq<char> {
    "Added event: '"@ + name + "' for date "@ + date
}

pub open spec fn removed_text(name: Seq<char>, date: Seq<char>) -> Seq<char> {
    "Removed event: '"@ + name + "' for date "@ + date
}

pub open spec fn updated_text(name: Seq<char>, date: Seq<char>, new_name: Seq<char>, new_date: Seq<char>) -> Seq<char> {
    "Update event: '"@ + name + "' for date "@ + date + ", on event: '"@ + new_name + "' for date "@ + new_date
}

pub open spec fn duplicate_text() -> Seq<char> {
    "Data already exist"@
}

pub open spec fn missing_text() -> Seq<char> {
    "The data does not exist"@
}

/// `t` is `s` with one event added at the end, dated `d` and named `name`.
pub open spec fn is_appended(s: Seq<Event>, t: Seq<Event>, d: UtcDateTime, name: Seq<char>) -> bool {
    &&& t.len() == s.len() + 1
    &&& t.drop_last() == s
    &&& t.last().date == d
    &&& t.last().name@ == name
}

/// `t` is `s` with the event at `i` now dated `d` and named `name`.
pub open spec fn is_rewritten(s: Seq<Event>, t: Seq<Event>, i: int, d: UtcDateTime, name: Seq<char>) -> bool {
    &&& 0 <= i < s.len()
    &&& t == s.update(i, t[i])
    &&& t[i].date == d
    &&& t[i].name@ == name
}

fn done(status: u16, text: String) -> (r: Reply)
    ensures
        is_done(r, status, text@),
{
    Reply { status, body: ReplyBody::Done(text) }
}

fn failed(status: u16, text: String) -> (r: Reply)
    ensures
        is_failed(r, status, text@),
{
    Reply { status, body: ReplyBody::Failed(text) }
}

/// `<name>' for date <date>` after `head`.
fn describe(head: &str, name: &str, date: &str) -> (r: String)
    ensures
        r@ == head@ + name@ + "' for date "@ + date@,
{
    let mut r = String::from_str(head);
    r.append(name);
    r.append("' for date ");
    r.append(date);
    r
}

/// The view of a parse result: the date, or the error's text.
pub open spec fn parsed_view(p: Result<UtcDateTime, String>) -> Result<UtcDateTime, Seq<char>> {
    match p {
        Ok(d) => Ok(d),
        Err(e) => Err(e@),
    }
}

/// A request whose date could not be read: answered with 400 and the
/// parser's text, the store left as it was.
pub open spec fn refused_input(s: Seq<Event>, t: Seq<Event>, r: Reply, e: Seq<char>) -> bool {
    is_failed(r, STATUS_BAD_REQUEST, e) && t == s
}

/// What adding the event named `name` at `d` does, from `s` to `t`, with
/// the reply `r`.
pub open spec fn create_outcome(s: Seq<Event>, t: Seq<Event>, r: Reply, d: UtcDateTime, name: Seq<char>) -> bool {
    if has_key(s, key_from(d, name)) {
        is_failed(r, STATUS_SERVICE_UNAVAILABLE, duplicate_text()) && t == s
    } else {
        is_done(r, STATUS_CREATED, added_text(name, d.text@)) && is_appended(s, t, d, name)
    }
}

/// What rewriting the event named `name` at `d` as the event named
/// `new_name` at `new_date` does; `date_text` and `new_date_text` are the
/// dates as the request wrote them.
pub open spec fn update_outcome(
    s: Seq<Event>,
    t: Seq<Event>,
    r: Reply,
    d: UtcDateTime,
    date_text: Seq<char>,
    name: Seq<char>,
    new_date: Result<UtcDateTime, Seq<char>>,
    new_date_text: Seq<char>,
    new_name: Seq<char>,
) -> bool {
    match new_date {
        Err(e) => refused_input(s, t, r, e),
        Ok(nd) => if !has_key(s, key_from(d, name)) {
            is_failed(r, STATUS_SERVICE_UNAVAILABLE, missing_text()) && t == s
        } else {
            is_done(r, STATUS_OK, updated_text(name, date_text, new_name, new_date_text))
                && exists|i: int| is_first_match(s, key_from(d, name), i) && is_rewritten(s, t, i, nd, new_name)
        },
    }
}

/// What removing the event named `name` at `d` does.
pub open spec fn delete_outcome(s: Seq<Event>, t: Seq<Event>, r: Reply, d: UtcDateTime, name: Seq<char>) -> bool {
    if !has_key(s, key_from(d, name)) {
        is_failed(r, STATUS_SERVICE_UNAVAILABLE, missing_text()) && t == s
    } else {
        is_done(r, STATUS_OK, removed_text(name, d.text@))
            && exists|i: int| is_first_match(s, key_from(d, name), i) && t == s.remove(i)
    }
}

/// Adds the event named `event_name` at `date`, unless one with the same
/// date and name is stored.
pub fn create_at(store: &mut EventStore, date: UtcDateTime, event_name: &str) -> (r: Reply)
    ensures
        create_outcome(old(store)@, final(store)@, r, date, event_name@),
        unique_keys(old(store)@) ==> unique_keys(final(store)@),
{
    let text = describe("Added event: '", event_name, date.text.as_str());
    let event = Event { date, name: String::from_str(event_name) };
    match store.create(event) {
        Ok(()) => {
            assert(store@.drop_last() =~= old(store)@);
            done(STATUS_CREATED, text)
        },
        Err(_) => failed(STATUS_SERVICE_UNAVAILABLE, String::from_str("Data already exist")),
    }
}

/// Handles a request to add the event named `event_name` at `date_time`
/// (RFC 3339).
pub fn create_event(store: &mut EventStore, date_time: &str, event_name: &str) -> (r: Reply)
    ensures
        match rfc3339_utc_of(date_time@) {
            Err(e) => refused_input(old(store)@, final(store)@, r, e),
            Ok(d) => create_outcome(old(store)@, final(store)@, r, d, event_name@),
        },
        unique_keys(old(store)@) ==> unique_keys(final(store)@),
{
    match parse_rfc3339(date_time) {
        Ok(d) => create_at(store, d, event_name),
        Err(e) => failed(STATUS_BAD_REQUEST, e),
    }
}

/// Rewrites the event named `event_name` at `date` as the event named
/// `new_event_name` at `new_date`, a parse result: a malformed new date is
/// refused before the store is looked at. `date_time` and `new_date_time` are the dates as
/// the request wrote them, for the confirmation.
pub fn update_at(
    store: &mut EventStore,
    date: &UtcDateTime,
    date_time: &str,
    event_name: &str,
    new_date: Result<UtcDateTime, String>,
    new_date_time: &str,
    new_event_name: &str,
) -> (r: Reply)
    ensures
        update_outcome(
            old(store)@,
            final(store)@,
            r,
            *date,
            date_time@,
            event_name@,
            parsed_view(new_date),
            new_date_time@,
            new_event_name@,
        ),
{
    let new_date = match new_date {
        Ok(d) => d,
        Err(e) => {
            return failed(STATUS_BAD_REQUEST, e);
        },
    };
    let name = String::from_str(event_name);
    if store.find_index(date, &name).is_none() {
        return failed(STATUS_SERVICE_UNAVAILABLE, String::from_str("The data does not exist"));
    }
    let mut text = describe("Update event: '", event_name, date_time);
    text.append(", on event: '");
    text.append(new_event_name);
    text.append("' for date ");
    text.append(new_date_time);
    match store.update(date, &name, new_date, String::from_str(new_event_name)) {
        Ok(()) => done(STATUS_OK, text),
        Err(_) => failed(STATUS_SERVICE_UNAVAILABLE, String::from_str("The data does not exist")),
    }
}

/// Handles a request to rewrite the event named `event_name` at `date_time`
/// as the event named `new_event_name` at `new_date_time` (both RFC 3339).
/// Both dates are read before the store is looked at, so a malformed date
/// is always answered with 400.
pub fn update_event(
    store: &mut EventStore,
    date_time: &str,
    event_name: &str,
    new_date_time: &str,
    new_event_name: &str,
) -> (r: Reply)
    ensures
        match rfc3339_utc_of(date_time@) {
            Err(e) => refused_input(old(store)@, final(store)@, r, e),
            Ok(d) => update_outcome(
                old(store)@,
                final(store)@,
                r,
                d,
                date_time@,
                event_name@,
                rfc3339_utc_of(new_date_time@),
                new_date_time@,
                new_event_name@,
            ),
        },
{
    match parse_rfc3339(date_time) {
        Ok(d) => {
            let new_date = parse_rfc3339(new_date_time);
            update_at(store, &d, date_time, event_name, new_date, new_date_time, new_event_name)
        },
        Err(e) => failed(STATUS_BAD_REQUEST, e),
    }
}

/// Removes the event named `event_name` at `date`.
pub fn delete_at(store: &mut EventStore, date: &UtcDateTime, event_name: &str) -> (r: Reply)
    ensures
        delete_outcome(old(store)@, final(store)@, r, *date, event_name@),
        unique_keys(old(store)@) ==> unique_keys(final(store)@),
{
    let name = String::from_str(event_name);
    match store.delete(date, &name) {
        Ok(_) => done(STATUS_OK, describe("Removed event: '", event_name, date.text.as_str())),
        Err(_) => failed(STATUS_SERVICE_UNAVAILABLE, String::from_str("The data does not exist")),
    }
}

/// Handles a request to remove the event named `event_name` at `date_time`
/// (RFC 3339).
pub fn delete_event(store: &mut EventStore, date_time: &str, event_name: &str) -> (r: Reply)
    ensures
        match rfc3339_utc_of(date_time@) {
            Err(e) => refused_input(old(store)@, final(store)@, r, e),
            Ok(d) => delete_outcome(old(store)@, final(store)@, r, d, event_name@),
        },
        unique_keys(old(store)@) ==> unique_keys(final(store)@),
{
    match parse_rfc3339(date_time) {
        Ok(d) => delete_at(store, &d, event_name),
        Err(e) => failed(STATUS_BAD_REQUEST, e),
    }
}

/// Handles a query for the events in the period `p` around the date `date`
/// (`YYYY-MM-DD`).
pub fn events_for(store: &EventStore, date: &str, p: Period) -> (r: Reply)
    ensures
        match naive_date_of(date@) {
            Err(e) => is_failed(r, STATUS_BAD_REQUEST, e),
            Ok(q) => is_events(r, select(store@, q, p)),
        },
{
    match parse_date(date) {
        Ok(q) => Reply { status: STATUS_OK, body: ReplyBody::Events(store.query(&q, p)) },
        Err(e) => failed(STATUS_BAD_REQUEST, e),
    }
}

/// Handles a query for the events of the calendar day of `date`.
pub fn events_for_day(store: &EventStore, date: &str) -> (r: Reply)
    ensures
        match naive_date_of(date@) {
            Err(e) => is_failed(r, STATUS_BAD_REQUEST, e),
            Ok(q) => is_events(r, select(store@, q, Period::Day)),
        },
{
    events_for(store, date, Period::Day)
}

/// Handles a query for the events of the ISO week of `date`.
pub fn events_for_week(store: &EventStore, date: &str) -> (r: Reply)
    ensures
        match naive_date_of(date@) {
            Err(e) => is_failed(r, STATUS_BAD_REQUEST, e),
            Ok(q) => is_events(r, select(store@, q, Period::Week)),
        },
{
    events_for(store, date, Period::Week)
}

/// Handles a query for the events of the month of `date`.
pub fn events_for_month(store: &EventStore, date: &str) -> (r: Reply)
    ensures
        match naive_date_of(date@) {
            Err(e) => is_failed(r, STATUS_BAD_REQUEST, e),
            Ok(q) => is_events(r, select(store@, q, Period::Month)),
        },
{
    events_for(store, date, Period::Month)
}

} // verus!
