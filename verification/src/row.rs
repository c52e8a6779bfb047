//! One row of the calendar table: an event, the calendar it belongs to and
//! that calendar's default flag.
use vstd::prelude::*;
use crate::text::copy_text;

verus! {

/// What a row holds, as mathematical values.
pub struct RowView {
    pub event_id: Seq<char>,
    pub calendar_name: Seq<char>,
    pub event_name: Seq<char>,
    pub event_start: Seq<char>,
    pub event_end: Seq<char>,
    pub event_recurring: Seq<char>,
    pub is_default: bool,
}

/// A row as it is stored. Every column but the flag is text; nothing is
/// asked of the texts, so a row may hold an identifier that is no UUID or
/// a recurrence that is no tag.
#[derive(Debug, Clone, PartialEq, Eq)]
pub struct Row {
    pub event_id: String,
    pub calendar_name: String,
    pub event_name: String,
    pub event_start: String,
    pub event_end: String,
    pub event_recurring: String,
    pub is_default: bool,
}

impl View for Row {
    type V = RowView;

    open spec fn view(&self) -> RowView {
        RowView {
            event_id: self.event_id@,
            calendar_name: self.calendar_name@,
            event_name: self.event_name@,
            event_start: self.event_start@,
            event_end: self.event_end@,
            event_recurring: self.event_recurring@,
            is_default: self.is_default,
        }
    }
}

impl Row {
    pub fn new(
        event_id: &str,
        calendar_name: &str,
        event_name: &str,
        event_start: &str,
        event_end: &str,
        event_recurring: &str,
        is_default: bool,
    ) -> (row: Row)
        ensures
            row@ == (RowView {
                event_id: event_id@,
                calendar_name: calendar_name@,
                event_name: event_name@,
                event_start: event_start@,
                event_end: event_end@,
                event_recurring: event_recurring@,
                is_default,
            }),
    {
        Row {
            event_id: copy_text(event_id),
            calendar_name: copy_text(calendar_name),
            event_name: copy_text(event_name),
            event_start: copy_text(event_start),
            event_end: copy_text(event_end),
            event_recurring: copy_text(event_recurring),
            is_default,
        }
    }
}

/// The rows of a table, each as mathematical values, in stored order.
pub open spec fn row_views(rows: Seq<Row>) -> Seq<RowView> {
    rows.map_values(|row: Row| row@)
}

} // verus!
