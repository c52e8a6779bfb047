//! The store: one table of rows at a place, and the operations on it.
use vstd::prelude::*;
use vstd::std_specs::iter::IteratorSpec;
use std::path::PathBuf;
use crate::cali_error::{CalendarExistsError, CaliError};
use crate::calendar::Calendar;
use crate::event::{views_result, Event, EventView, Recurring};
use crate::filters::lemma_filter_take_next;
use crate::identifier::hyphenated;
use crate::row::{row_views, Row, RowView};
use crate::table::{
    default_name, event_of, events_of, has_calendar, is_default, lemma_default_name_ambiguous,
    lemma_default_name_sole, not_calendar, not_event, row_of, rows_of, selected, selector,
    selects, with_default, with_renamed, with_replaced, without_calendar, without_event,
};
use crate::text::{contains_text, copy_text, same_text};

verus! {

/// The store of one place. Its table is missing until it is created; once
/// there, it holds the rows in the order in which they were stored.
#[derive(Debug)]
pub struct Store {
    path: PathBuf,
    table: Option<Vec<Row>>,
}

impl View for Store {
    type V = Option<Seq<RowView>>;

    /// The rows of the table, or `None` where the table is missing.
    closed spec fn view(&self) -> Option<Seq<RowView>> {
        match self.table {
            Some(rows) => Some(row_views(rows@)),
            None => None,
        }
    }
}

impl Store {
    /// The place of the store.
    pub closed spec fn location(&self) -> PathBuf {
        self.path
    }

    /// The store of a place at which nothing has been created yet.
    pub fn new(path: &PathBuf) -> (store: Store)
        ensures
            store@ is None,
            store.location() == *path,
    {
        Store { path: path.clone(), table: None }
    }

    /// The store of a place whose table holds the given rows.
    pub fn from_rows(path: &PathBuf, rows: Vec<Row>) -> (store: Store)
        ensures
            store@ == Some(row_views(rows@)),
            store.location() == *path,
    {
        Store { path: path.clone(), table: Some(rows) }
    }

    pub fn get_path(&self) -> (path: &PathBuf)
        ensures
            *path == self.location(),
    {
        &self.path
    }

    /// The rows of the table in stored order, or `None` where the table is
    /// missing.
    pub fn rows(&self) -> (rows: Option<&Vec<Row>>)
        ensures
            match rows {
                Some(stored) => self@ == Some(row_views(stored@)),
                None => self@ is None,
            },
    {
        self.table.as_ref()
    }

    /// Stores a row as it is given, behind the rows that are there. Fails
    /// with `StorageIoError`, and stores nothing, where the table is
    /// missing.
    pub fn insert_row(&mut self, row: Row) -> (result: Result<(), CaliError>)
        ensures
            final(self).location() == old(self).location(),
            match old(self)@ {
                Some(rows) => result is Ok && final(self)@ == Some(rows.push(row@)),
                None => result == Err::<(), CaliError>(CaliError::StorageIoError) && final(self)@
                    is None,
            },
    {
        match &mut self.table {
            Some(rows) => {
                proof {
                    assert(row_views(rows@.push(row)) =~= row_views(rows@).push(row@));
                }
                rows.push(row);
                Ok(())
            },
            None => Err(CaliError::StorageIoError),
        }
    }

    /// Removes every row. A missing table stays missing.
    pub fn clear(&mut self)
        ensures
            final(self).location() == old(self).location(),
            match old(self)@ {
                Some(_) => final(self)@ == Some(Seq::<RowView>::empty()),
                None => final(self)@ is None,
            },
    {
        match &mut self.table {
            Some(rows) => {
                rows.clear();
                proof {
                    assert(row_views(rows@) =~= Seq::<RowView>::empty());
                }
            },
            None => {},
        }
    }
}

/// Creates the table where it is missing and keeps it, with its rows,
/// where it is there. Never fails.
pub fn init_database(store: &mut Store) -> (result: Result<(), CaliError>)
    ensures
        result is Ok,
        final(store).location() == old(store).location(),
        final(store)@ == Some(rows_of(old(store)@)),
{
    if store.table.is_none() {
        store.table = Some(Vec::new());
        proof {
            assert(row_views(Seq::<Row>::empty()) =~= Seq::<RowView>::empty());
        }
    }
    Ok(())
}

/// Whether a calendar of this name exists, that is, whether a row belongs
/// to it.
pub fn check_calendar(store: &Store, name: &str) -> (result: Result<bool, CaliError>)
    ensures
        match store@ {
            Some(rows) => result == Ok::<bool, CaliError>(has_calendar(rows, name@)),
            None => result == Err::<bool, CaliError>(CaliError::StorageIoError),
        },
{
    match &store.table {
        None => Err(CaliError::StorageIoError),
        Some(rows) => {
            let n: usize = rows.len();
            let mut i: usize = 0;
            while i < n
                invariant
                    n == rows@.len(),
                    i <= n,
                    store@ == Some(row_views(rows@)),
                    forall|j: int| 0 <= j < i ==> (#[trigger] row_views(rows@)[j]).calendar_name != name@,
                decreases n - i,
            {
                if same_text(rows[i].calendar_name.as_str(), name) {
                    assert(row_views(rows@)[i as int].calendar_name == name@);
                    return Ok(true);
                }
                i += 1;
            }
            Ok(false)
        },
    }
}

/// Whether the calendar of this name is flagged as the default, that is,
/// whether one of its rows carries the flag.
pub fn check_default(store: &Store, name: &str) -> (result: Result<bool, CaliError>)
    ensures
        match store@ {
            Some(rows) => result == Ok::<bool, CaliError>(is_default(rows, name@)),
            None => result == Err::<bool, CaliError>(CaliError::StorageIoError),
        },
{
    match &store.table {
        None => Err(CaliError::StorageIoError),
        Some(rows) => {
            let n: usize = rows.len();
            let mut i: usize = 0;
            while i < n
                invariant
                    n == rows@.len(),
                    i <= n,
                    store@ == Some(row_views(rows@)),
                    forall|j: int|
                        0 <= j < i ==> !((#[trigger] row_views(rows@)[j]).calendar_name == name@
                            && row_views(rows@)[j].is_default),
                decreases n - i,
            {
                if rows[i].is_default && same_text(rows[i].calendar_name.as_str(), name) {
                    assert(row_views(rows@)[i as int].calendar_name == name@);
                    return Ok(true);
                }
                i += 1;
            }
            Ok(false)
        },
    }
}

/// The outcome of the question for the default calendar, with the name as
/// a mathematical value.
pub open spec fn views_name(result: Result<Option<String>, CaliError>) -> Result<
    Option<Seq<char>>,
    CaliError,
> {
    match result {
        Ok(Some(name)) => Ok(Some(name@)),
        Ok(None) => Ok(None),
        Err(error) => Err(error),
    }
}

/// What the question for the default calendar answers.
pub open spec fn default_of(table: Option<Seq<RowView>>) -> Result<Option<Seq<char>>, CaliError> {
    match table {
        Some(rows) => default_name(rows),
        None => Err(CaliError::StorageIoError),
    }
}

/// The position of the first row that carries the default flag.
fn first_flagged(rows: &Vec<Row>) -> (first: Option<usize>)
    ensures
        match first {
            Some(k) => k < rows@.len() && rows@[k as int].is_default && forall|j: int|
                0 <= j < k ==> !(#[trigger] rows@[j]).is_default,
            None => forall|j: int| 0 <= j < rows@.len() ==> !(#[trigger] rows@[j]).is_default,
        },
{
    let n: usize = rows.len();
    let mut i: usize = 0;
    while i < n
        invariant
            n == rows@.len(),
            i <= n,
            forall|j: int| 0 <= j < i ==> !(#[trigger] rows@[j]).is_default,
        decreases n - i,
    {
        if rows[i].is_default {
            return Some(i);
        }
        i += 1;
    }
    None
}

/// The name of the default calendar, or none where no row is flagged.
/// Fails with `AmbiguousDefault` where rows of two calendars are flagged.
pub fn get_default(store: &Store) -> (result: Result<Option<String>, CaliError>)
    ensures
        views_name(result) == default_of(store@),
{
    match &store.table {
        None => Err(CaliError::StorageIoError),
        Some(rows) => {
            let ghost all = row_views(rows@);
            match first_flagged(rows) {
                None => {
                    assert forall|j: int| 0 <= j < all.len() implies !(#[trigger] all[j]).is_default by {
                        assert(!rows@[j].is_default);
                    }
                    Ok(None)
                },
                Some(first) => {
                    let n: usize = rows.len();
                    let mut i: usize = first + 1;
                    while i < n
                        invariant
                            n == rows@.len(),
                            first < i <= n,
                            all == row_views(rows@),
                            store@ == Some(all),
                            all[first as int].is_default,
                            forall|j: int|
                                0 <= j < i && (#[trigger] all[j]).is_default ==> all[j].calendar_name
                                    == all[first as int].calendar_name,
                        decreases n - i,
                    {
                        if rows[i].is_default && !same_text(
                            rows[i].calendar_name.as_str(),
                            rows[first].calendar_name.as_str(),
                        ) {
                            proof {
                                assert(all[i as int].is_default);
                                lemma_default_name_ambiguous(all, first as int, i as int);
                            }
                            return Err(CaliError::AmbiguousDefault);
                        }
                        i += 1;
                    }
                    proof {
                        lemma_default_name_sole(all, first as int);
                    }
                    Ok(Some(copy_text(rows[first].calendar_name.as_str())))
                },
            }
        },
    }
}

/// The events of a list, each as mathematical values.
pub open spec fn event_views(events: Seq<Event>) -> Seq<EventView> {
    events.map_values(|event: Event| event@)
}

/// The outcome of a search, with the events as mathematical values.
pub open spec fn views_found(result: Result<Vec<Event>, CaliError>) -> Result<
    Seq<EventView>,
    CaliError,
> {
    match result {
        Ok(events) => Ok(event_views(events@)),
        Err(error) => Err(error),
    }
}

/// What a search returns: the events of the selected rows in stored order;
/// `StorageIoError` where the table is missing, `InvalidIdentifier` where a
/// selected row has a malformed identifier.
pub open spec fn found(
    table: Option<Seq<RowView>>,
    calendar_name: Seq<char>,
    query: Seq<char>,
    exact: bool,
) -> Result<Seq<EventView>, CaliError> {
    match table {
        Some(rows) => events_of(selected(rows, calendar_name, query, exact)),
        None => Err(CaliError::StorageIoError),
    }
}

/// The event that a row stores. An unknown recurrence reads as `No`; a
/// malformed identifier fails.
pub fn decode_row(row: &Row) -> (result: Result<Event, CaliError>)
    ensures
        views_result(result) == event_of(row@),
{
    let recurring = Recurring::from_text(row.event_recurring.as_str());
    Event::from(
        row.event_id.as_str(),
        row.event_name.as_str(),
        row.event_start.as_str(),
        row.event_end.as_str(),
        recurring,
    )
}

/// Whether a search selects a row.
fn row_selected(row: &Row, calendar_name: &str, query: &str, exact: bool) -> (hit: bool)
    ensures
        hit == selects(calendar_name@, query@, exact, row@),
{
    if !same_text(row.calendar_name.as_str(), calendar_name) {
        false
    } else if exact {
        same_text(row.event_name.as_str(), query)
    } else {
        contains_text(row.event_name.as_str(), query)
    }
}

/// Searches the events of a calendar by name: for the very name (`exact`),
/// or for every name that holds `name` as a run of consecutive characters,
/// an ASCII letter taken for the same in upper and in lower case. Every
/// character of `name` stands for itself; none is a wildcard. The events
/// come in stored order. Fails with `StorageIoError` where the table is
/// missing and with `InvalidIdentifier` where a selected row carries an
/// identifier that is no well-formed UUID.
pub fn get_event(store: &Store, calendar: &Calendar, name: &str, exact: bool) -> (result: Result<
    Vec<Event>,
    CaliError,
>)
    ensures
        views_found(result) == found(store@, calendar@.name, name@, exact),
{
    match &store.table {
        None => Err(CaliError::StorageIoError),
        Some(rows) => {
            let ghost all = row_views(rows@);
            let ghost keep = selector(calendar@.name, name@, exact);
            let mut events: Vec<Event> = Vec::new();
            let n: usize = rows.len();
            let mut i: usize = 0;
            proof {
                reveal(Seq::filter);
            }
            while i < n
                invariant
                    n == rows@.len(),
                    i <= n,
                    all == row_views(rows@),
                    store@ == Some(all),
                    keep == selector(calendar@.name, name@, exact),
                    all.take(i as int).filter(keep).len() == events@.len(),
                    forall|j: int|
                        0 <= j < events@.len() ==> event_of(
                            #[trigger] all.take(i as int).filter(keep)[j],
                        ) == Ok::<EventView, CaliError>(events@[j]@),
                decreases n - i,
            {
                let row = &rows[i];
                proof {
                    lemma_filter_take_next(all, i as int, keep);
                }
                if row_selected(row, calendar.get_name(), name, exact) {
                    match decode_row(row) {
                        Ok(event) => {
                            events.push(event);
                        },
                        Err(error) => {
                            proof {
                                let hits = selected(all, calendar@.name, name@, exact);
                                assert(all[i as int] == row@);
                                all.lemma_filter_contains(keep, i as int);
                                let j = choose|j: int| 0 <= j < hits.len() && hits[j] == row@;
                                assert(event_of(hits[j]) is Err);
                                assert(error == CaliError::InvalidIdentifier);
                            }
                            return Err(error);
                        },
                    }
                }
                i += 1;
            }
            proof {
                assert(all.take(n as int) =~= all);
                let hits = all.filter(keep);
                assert(hits.map_values(|row: RowView| event_of(row)->Ok_0) =~= event_views(
                    events@,
                ));
            }
            Ok(events)
        },
    }
}

/// The row that stores an event under a calendar.
pub fn make_row(calendar: &Calendar, event: &Event) -> (row: Row)
    ensures
        row@ == row_of(calendar@, event@),
{
    Row {
        event_id: copy_text(event.get_id_text()),
        calendar_name: copy_text(calendar.get_name()),
        event_name: copy_text(event.get_name()),
        event_start: copy_text(event.get_start()),
        event_end: copy_text(event.get_end()),
        event_recurring: event.get_recurring().to_string(),
        is_default: *calendar.get_default(),
    }
}

/// Stores an event as one more row of a calendar, behind the rows that are
/// there. Whether the identifier is already stored is not asked. Fails
/// with `StorageIoError`, and stores nothing, where the table is missing.
pub fn insert_event(store: &mut Store, calendar: &Calendar, event: &Event) -> (result: Result<
    (),
    CaliError,
>)
    ensures
        final(store).location() == old(store).location(),
        match old(store)@ {
            Some(rows) => result is Ok && final(store)@ == Some(
                rows.push(row_of(calendar@, event@)),
            ),
            None => result == Err::<(), CaliError>(CaliError::StorageIoError) && final(store)@
                is None,
        },
{
    store.insert_row(make_row(calendar, event))
}

/// Rewrites every row that carries the identifier of the event, in
/// whatever calendar it stands, to the row of this event under this
/// calendar. Fails with `StorageIoError` where the table is missing.
pub fn update_event(store: &mut Store, calendar: &Calendar, event: &Event) -> (result: Result<
    (),
    CaliError,
>)
    ensures
        final(store).location() == old(store).location(),
        match old(store)@ {
            Some(rows) => result is Ok && final(store)@ == Some(
                with_replaced(rows, row_of(calendar@, event@)),
            ),
            None => result == Err::<(), CaliError>(CaliError::StorageIoError) && final(store)@
                is None,
        },
{
    match &mut store.table {
        None => Err(CaliError::StorageIoError),
        Some(rows) => {
            let ghost before = row_views(rows@);
            let ghost new_row = row_of(calendar@, event@);
            let id = event.get_id_text();
            let n: usize = rows.len();
            let mut i: usize = 0;
            while i < n
                invariant
                    n == rows@.len(),
                    n == before.len(),
                    i <= n,
                    id@ == new_row.event_id,
                    new_row == row_of(calendar@, event@),
                    forall|j: int|
                        0 <= j < i ==> (#[trigger] rows@[j])@ == with_replaced(before, new_row)[j],
                    forall|j: int| i <= j < n ==> (#[trigger] rows@[j])@ == before[j],
                decreases n - i,
            {
                if same_text(rows[i].event_id.as_str(), id) {
                    rows[i] = make_row(calendar, event);
                }
                i += 1;
            }
            proof {
                assert(row_views(rows@) =~= with_replaced(before, new_row));
            }
            Ok(())
        },
    }
}

/// The rows that stay, in order, when an event of a calendar is removed
/// (`event_id` given) or the whole calendar (`event_id` not given).
fn keep_rows(rows: Vec<Row>, calendar_name: &str, event_id: Option<&str>) -> (kept: Vec<Row>)
    ensures
        row_views(kept@) == row_views(rows@).filter(
            match event_id {
                Some(id) => not_event(calendar_name@, id@),
                None => not_calendar(calendar_name@),
            },
        ),
{
    let ghost all = row_views(rows@);
    let ghost keep = match event_id {
        Some(id) => not_event(calendar_name@, id@),
        None => not_calendar(calendar_name@),
    };
    let mut kept: Vec<Row> = Vec::new();
    proof {
        reveal(Seq::filter);
        assert(row_views(kept@) =~= all.take(0).filter(keep));
    }
    for row in it: rows
        invariant
            it.seq() == rows@,
            all == row_views(rows@),
            keep == match event_id {
                Some(id) => not_event(calendar_name@, id@),
                None => not_calendar(calendar_name@),
            },
            row_views(kept@) == all.take(it.index()).filter(keep),
    {
        proof {
            lemma_filter_take_next(all, it.index(), keep);
            assert(all[it.index()] == row@);
            assert(row_views(kept@.push(row)) =~= row_views(kept@).push(row@));
        }
        let of_calendar = same_text(row.calendar_name.as_str(), calendar_name);
        let leaves = match event_id {
            Some(id) => of_calendar && same_text(row.event_id.as_str(), id),
            None => of_calendar,
        };
        if !leaves {
            kept.push(row);
        }
    }
    proof {
        assert(all.take(all.len() as int) =~= all);
    }
    kept
}

/// Removes the rows of the calendar that carry the identifier of the
/// event; rows of other calendars with that identifier stay. Fails with
/// `StorageIoError` where the table is missing.
pub fn remove_event(store: &mut Store, calendar: &Calendar, event: &Event) -> (result: Result<
    (),
    CaliError,
>)
    ensures
        final(store).location() == old(store).location(),
        match old(store)@ {
            Some(rows) => result is Ok && final(store)@ == Some(
                without_event(rows, calendar@.name, hyphenated(event@.id)),
            ),
            None => result == Err::<(), CaliError>(CaliError::StorageIoError) && final(store)@
                is None,
        },
{
    match store.table.take() {
        None => Err(CaliError::StorageIoError),
        Some(rows) => {
            store.table = Some(keep_rows(rows, calendar.get_name(), Some(event.get_id_text())));
            Ok(())
        },
    }
}

/// Removes every row of the calendar. Where the table is missing there is
/// nothing to remove, and that is no failure.
pub fn remove_calendar(store: &mut Store, calendar: &Calendar) -> (result: Result<(), CaliError>)
    ensures
        result is Ok,
        final(store).location() == old(store).location(),
        match old(store)@ {
            Some(rows) => final(store)@ == Some(without_calendar(rows, calendar@.name)),
            None => final(store)@ is None,
        },
{
    match store.table.take() {
        None => Ok(()),
        Some(rows) => {
            store.table = Some(keep_rows(rows, calendar.get_name(), None));
            Ok(())
        },
    }
}

/// Makes the calendar of this name the default, in one step: afterwards a
/// row is flagged exactly if it belongs to that calendar. Where no row
/// belongs to it, no row is flagged afterwards. Fails with
/// `StorageIoError` where the table is missing.
pub fn update_default(store: &mut Store, new_default: &str) -> (result: Result<(), CaliError>)
    ensures
        final(store).location() == old(store).location(),
        match old(store)@ {
            Some(rows) => result is Ok && final(store)@ == Some(with_default(rows, new_default@)),
            None => result == Err::<(), CaliError>(CaliError::StorageIoError) && final(store)@
                is None,
        },
{
    match &mut store.table {
        None => Err(CaliError::StorageIoError),
        Some(rows) => {
            let ghost before = row_views(rows@);
            let n: usize = rows.len();
            let mut i: usize = 0;
            while i < n
                invariant
                    n == rows@.len(),
                    n == before.len(),
                    i <= n,
                    forall|j: int|
                        0 <= j < i ==> (#[trigger] rows@[j])@ == with_default(
                            before,
                            new_default@,
                        )[j],
                    forall|j: int| i <= j < n ==> (#[trigger] rows@[j])@ == before[j],
                decreases n - i,
            {
                let flag = same_text(rows[i].calendar_name.as_str(), new_default);
                rows[i].is_default = flag;
                i += 1;
            }
            proof {
                assert(row_views(rows@) =~= with_default(before, new_default@));
            }
            Ok(())
        },
    }
}

/// Gives the rows of the calendar `from` the name `to`. Fails with
/// `StorageIoError` where the table is missing, and with `CalendarExists`
/// where `to` is another name than `from` and a calendar of that name
/// exists; the table is then as it was.
pub fn rename_calendar(store: &mut Store, from: &str, to: &str) -> (result: Result<(), CaliError>)
    ensures
        final(store).location() == old(store).location(),
        match old(store)@ {
            Some(rows) => if to@ != from@ && has_calendar(rows, to@) {
                &&& result == Err::<(), CaliError>(CaliError::CalendarExists(CalendarExistsError))
                &&& final(store)@ == old(store)@
            } else {
                &&& result is Ok
                &&& final(store)@ == Some(with_renamed(rows, from@, to@))
            },
            None => result == Err::<(), CaliError>(CaliError::StorageIoError) && final(store)@
                is None,
        },
{
    let same = same_text(from, to);
    if !same {
        match check_calendar(store, to) {
            Err(error) => {
                return Err(error);
            },
            Ok(taken) => {
                if taken {
                    return Err(CaliError::CalendarExists(CalendarExistsError));
                }
            },
        }
    }
    match &mut store.table {
        None => Err(CaliError::StorageIoError),
        Some(rows) => {
            let ghost before = row_views(rows@);
            let n: usize = rows.len();
            let mut i: usize = 0;
            while i < n
                invariant
                    n == rows@.len(),
                    n == before.len(),
                    i <= n,
                    forall|j: int|
                        0 <= j < i ==> (#[trigger] rows@[j])@ == with_renamed(before, from@, to@)[j],
                    forall|j: int| i <= j < n ==> (#[trigger] rows@[j])@ == before[j],
                decreases n - i,
            {
                if same_text(rows[i].calendar_name.as_str(), from) {
                    rows[i].calendar_name = copy_text(to);
                }
                i += 1;
            }
            proof {
                assert(row_views(rows@) =~= with_renamed(before, from@, to@));
            }
            Ok(())
        },
    }
}

} // verus!
