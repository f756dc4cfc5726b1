//! The decisions of the registry on its log store: taking in a reported
//! line, and answering a query for the lines of an application.
//!
//! A query names a time (`since`), a number of entries (`limit`), both or
//! neither. Where it names a time, the time decides and the number is not
//! looked at. Where it names neither, the newest 100 entries are returned.

use crate::log_repo::{
    get_logs, get_logs_since, insert_log, later_than, newest, LogStore,
};
use crate::model::{AppLogView, LogQuery, NewAppLog};
use crate::wire::{Body, BodyView, Reply, ReplyView, BAD_REQUEST, OK};
use vstd::prelude::*;

verus! {

/// How many entries a query gets that names no number.
pub const DEFAULT_LOG_LIMIT: i64 = 100;

/// The time that a text writes, in microseconds since
/// 1970-01-01T00:00:00Z, as `chrono` reads it into a `DateTime<Utc>`; none
/// where `chrono` reads no time from the text.
pub uninterp spec fn parsed_time(text: Seq<char>) -> Option<i64>;

/// `chrono`'s `FromStr` for `DateTime<Utc>` reads a time in a relaxed form
/// of RFC 3339 or reports an error; `DateTime::timestamp_micros` gives the
/// time read as a number of microseconds. The contract names that number.
#[verifier::external_body]
pub(crate) fn read_time(text: &str) -> (time: Option<i64>)
    ensures
        time == parsed_time(text@),
{
    match text.parse::<chrono::DateTime<chrono::Utc>>() {
        Ok(time) => Some(time.timestamp_micros()),
        Err(_) => None,
    }
}

/// Reads the time that a text writes.
pub fn parse_time(text: &str) -> (time: Option<i64>)
    ensures
        time == parsed_time(text@),
{
    read_time(text)
}

/// What a query selects, once the time it names has been read.
#[derive(Clone, Copy, Debug, PartialEq, Eq, Structural)]
pub enum Selection {
    /// The query names a time that cannot be read.
    BadTime,
    /// The entries later than the time.
    Since(i64),
    /// The newest entries, up to the number.
    Newest(i64),
}

/// What a query selects. `since` is what the query names as the time, and
/// `time` what was read from it.
pub open spec fn selection(since: Option<Seq<char>>, time: Option<i64>, limit: Option<i64>) -> Selection {
    match since {
        Some(_) => match time {
            Some(t) => Selection::Since(t),
            None => Selection::BadTime,
        },
        None => Selection::Newest(
            match limit {
                Some(n) => n,
                None => DEFAULT_LOG_LIMIT,
            },
        ),
    }
}

/// The reply to a query with the given selection: the entries selected,
/// from the oldest to the newest; a bad request for a time that cannot be
/// read; a store failure for a negative number of entries.
pub open spec fn logs_reply(logs: Seq<AppLogView>, app_id: u128, selected: Selection) -> ReplyView {
    match selected {
        Selection::BadTime => ReplyView::text(BAD_REQUEST, "Invalid since timestamp"@),
        Selection::Since(t) => ReplyView { code: OK, body: BodyView::Logs(later_than(logs, app_id, t)) },
        Selection::Newest(n) => if n < 0 {
            ReplyView::store_failure()
        } else {
            ReplyView { code: OK, body: BodyView::Logs(newest(logs, app_id, n as int)) }
        },
    }
}

/// Decides what a query selects, given what was read from the time it
/// names.
pub fn select(query: &LogQuery, time: Option<i64>) -> (selected: Selection)
    ensures
        selected == selection(crate::model::text_view(query.since), time, query.limit),
{
    match &query.since {
        Some(_) => match time {
            Some(t) => Selection::Since(t),
            None => Selection::BadTime,
        },
        None => Selection::Newest(
            match query.limit {
                Some(n) => n,
                None => DEFAULT_LOG_LIMIT,
            },
        ),
    }
}

/// Answers a query with the given selection.
pub fn reply_logs(store: &LogStore, app_id: u128, selected: Selection) -> (reply: Reply)
    ensures
        reply@ == logs_reply(store@, app_id, selected),
{
    match selected {
        Selection::BadTime => Reply::text(BAD_REQUEST, "Invalid since timestamp"),
        Selection::Since(t) => Reply { code: OK, body: Body::Logs(get_logs_since(store, app_id, t)) },
        Selection::Newest(n) => match get_logs(store, app_id, n) {
            Ok(logs) => Reply { code: OK, body: Body::Logs(logs) },
            Err(_) => Reply::store_failure(),
        },
    }
}

/// Answers a query for the log entries of an application.
pub fn get_app_logs(store: &LogStore, app_id: u128, query: &LogQuery) -> (reply: Reply)
    ensures
        reply@ == logs_reply(
            store@,
            app_id,
            selection(
                crate::model::text_view(query.since),
                match query.since {
                    Some(text) => parsed_time(text@),
                    None => None,
                },
                query.limit,
            ),
        ),
{
    let time = match &query.since {
        Some(text) => parse_time(text.as_str()),
        None => None,
    };
    let selected = select(query, time);
    reply_logs(store, app_id, selected)
}

/// Takes in a reported line at the time `now` and confirms it.
pub fn post_log(store: &mut LogStore, log: &NewAppLog, now: i64) -> (reply: Reply)
    ensures
        final(store)@ == crate::log_repo::with_entry(
            old(store)@,
            crate::log_repo::entry_of(log@, old(store).next_id(), now),
        ),
        reply@ == ReplyView::empty(OK),
{
    let _ = insert_log(store, log, now);
    Reply::empty(OK)
}

} // verus!
