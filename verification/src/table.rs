//! The calendar table as a mathematical value: a sequence of rows in
//! stored order, and what each operation of the store means on it.
use vstd::prelude::*;
use crate::cali_error::CaliError;
use crate::calendar::CalendarView;
use crate::event::{Event, EventView, Recurring};
use crate::identifier::{hyphenated, parsed_uuid};
use crate::row::RowView;
use crate::text::{folded, occurs_in};

verus! {

/// The rows of a table; a missing table has none.
pub open spec fn rows_of(table: Option<Seq<RowView>>) -> Seq<RowView> {
    match table {
        Some(rows) => rows,
        None => Seq::empty(),
    }
}

/// Some row belongs to the calendar `name`. A calendar is its rows: one
/// without rows does not exist.
pub open spec fn has_calendar(rows: Seq<RowView>, name: Seq<char>) -> bool {
    exists|i: int| 0 <= i < rows.len() && (#[trigger] rows[i]).calendar_name == name
}

/// Some row of the calendar `name` carries the default flag.
pub open spec fn is_default(rows: Seq<RowView>, name: Seq<char>) -> bool {
    exists|i: int|
        0 <= i < rows.len() && (#[trigger] rows[i]).calendar_name == name && rows[i].is_default
}

/// Some row carries the default flag.
pub open spec fn has_flagged(rows: Seq<RowView>) -> bool {
    exists|i: int| 0 <= i < rows.len() && (#[trigger] rows[i]).is_default
}

/// Every row that carries the default flag belongs to the calendar `name`.
pub open spec fn flagged_agree(rows: Seq<RowView>, name: Seq<char>) -> bool {
    forall|i: int|
        0 <= i < rows.len() && (#[trigger] rows[i]).is_default ==> rows[i].calendar_name == name
}

/// The name of the default calendar: none where no row is flagged, the one
/// name where all flagged rows agree on it, and `AmbiguousDefault` where
/// two flagged rows belong to different calendars.
pub open spec fn default_name(rows: Seq<RowView>) -> Result<Option<Seq<char>>, CaliError> {
    if !has_flagged(rows) {
        Ok(None)
    } else {
        let k = choose|k: int| 0 <= k < rows.len() && (#[trigger] rows[k]).is_default;
        if flagged_agree(rows, rows[k].calendar_name) {
            Ok(Some(rows[k].calendar_name))
        } else {
            Err(CaliError::AmbiguousDefault)
        }
    }
}

/// The table after `name` was made the default: a row is flagged exactly
/// if it belongs to `name`.
pub open spec fn with_default(rows: Seq<RowView>, name: Seq<char>) -> Seq<RowView> {
    rows.map_values(|row: RowView| RowView { is_default: row.calendar_name == name, ..row })
}

/// The row that stores `event` under `calendar`.
pub open spec fn row_of(calendar: CalendarView, event: EventView) -> RowView {
    RowView {
        event_id: hyphenated(event.id),
        calendar_name: calendar.name,
        event_name: event.name,
        event_start: event.start,
        event_end: event.end,
        event_recurring: event.recurring.text(),
        is_default: calendar.default,
    }
}

/// The event that a row stores, or `InvalidIdentifier` where the text of
/// its identifier is no well-formed UUID.
pub open spec fn event_of(row: RowView) -> Result<EventView, CaliError> {
    Event::rebuilt(
        parsed_uuid(row.event_id),
        row.event_name,
        row.event_start,
        row.event_end,
        Recurring::decode(row.event_recurring),
    )
}

/// The events that a sequence of rows stores, in the same order; fails
/// where one of the rows has a malformed identifier.
pub open spec fn events_of(rows: Seq<RowView>) -> Result<Seq<EventView>, CaliError> {
    if forall|i: int| 0 <= i < rows.len() ==> event_of(#[trigger] rows[i]) is Ok {
        Ok(rows.map_values(|row: RowView| event_of(row)->Ok_0))
    } else {
        Err(CaliError::InvalidIdentifier)
    }
}

/// A search selects a row of the calendar whose event name is the query
/// (exact) or holds the query as a run of consecutive characters, the case
/// of ASCII letters set aside (not exact).
pub open spec fn selects(calendar_name: Seq<char>, query: Seq<char>, exact: bool, row: RowView)
    -> bool {
    &&& row.calendar_name == calendar_name
    &&& if exact {
        row.event_name == query
    } else {
        occurs_in(folded(query), folded(row.event_name))
    }
}

/// The test that a search applies to each row.
pub open spec fn selector(calendar_name: Seq<char>, query: Seq<char>, exact: bool) -> spec_fn(
    RowView,
) -> bool {
    |row: RowView| selects(calendar_name, query, exact, row)
}

/// The rows that a search selects, in stored order.
pub open spec fn selected(
    rows: Seq<RowView>,
    calendar_name: Seq<char>,
    query: Seq<char>,
    exact: bool,
) -> Seq<RowView> {
    rows.filter(selector(calendar_name, query, exact))
}

/// The table after an update with `row`: every row with the identifier of
/// `row`, whatever calendar it belonged to, is replaced by `row`.
pub open spec fn with_replaced(rows: Seq<RowView>, row: RowView) -> Seq<RowView> {
    rows.map_values(
        |stored: RowView|
            if stored.event_id == row.event_id {
                row
            } else {
                stored
            },
    )
}

/// The test for the rows that stay when an event is removed: all but
/// those of the calendar `calendar_name` with the identifier `event_id`.
pub open spec fn not_event(calendar_name: Seq<char>, event_id: Seq<char>) -> spec_fn(RowView) -> bool {
    |row: RowView| !(row.calendar_name == calendar_name && row.event_id == event_id)
}

/// The table without the rows of the calendar `calendar_name` that carry
/// the identifier `event_id`.
pub open spec fn without_event(rows: Seq<RowView>, calendar_name: Seq<char>, event_id: Seq<char>)
    -> Seq<RowView> {
    rows.filter(not_event(calendar_name, event_id))
}

/// The test for the rows that stay when a calendar is removed: those of
/// the other calendars.
pub open spec fn not_calendar(name: Seq<char>) -> spec_fn(RowView) -> bool {
    |row: RowView| row.calendar_name != name
}

/// The table without the rows of the calendar `name`.
pub open spec fn without_calendar(rows: Seq<RowView>, name: Seq<char>) -> Seq<RowView> {
    rows.filter(not_calendar(name))
}

/// The table after the calendar `from` was renamed to `to`.
pub open spec fn with_renamed(rows: Seq<RowView>, from: Seq<char>, to: Seq<char>) -> Seq<RowView> {
    rows.map_values(
        |row: RowView|
            if row.calendar_name == from {
                RowView { calendar_name: to, ..row }
            } else {
                row
            },
    )
}

/// Where one calendar holds every flagged row and at least one, it is the
/// default.
pub proof fn lemma_default_name_sole(rows: Seq<RowView>, k: int)
    requires
        0 <= k < rows.len(),
        rows[k].is_default,
        flagged_agree(rows, rows[k].calendar_name),
    ensures
        default_name(rows) == Ok::<Option<Seq<char>>, CaliError>(Some(rows[k].calendar_name)),
{
}

/// Where two flagged rows belong to different calendars, the default is
/// ambiguous.
pub proof fn lemma_default_name_ambiguous(rows: Seq<RowView>, a: int, b: int)
    requires
        0 <= a < rows.len(),
        0 <= b < rows.len(),
        rows[a].is_default,
        rows[b].is_default,
        rows[a].calendar_name != rows[b].calendar_name,
    ensures
        default_name(rows) == Err::<Option<Seq<char>>, CaliError>(CaliError::AmbiguousDefault),
{
}

} // verus!
