//! Calendars: a name, the default flag and the place of the store.
use vstd::prelude::*;
use std::path::PathBuf;
use crate::cali_error::{CalendarExistsError, CaliError};
// The operations of the store that speak of calendars are at hand here too.
pub use crate::database::{
    check_calendar, check_default, get_default, init_database, remove_calendar, update_default,
};
use crate::database::{insert_event, remove_event, rename_calendar, update_event, Store};
use crate::event::Event;
use crate::identifier::hyphenated;
use crate::row::RowView;
use crate::table::{
    default_name, has_calendar, is_default, row_of, rows_of, with_renamed, with_replaced,
    without_event,
};
use crate::text::copy_text;

verus! {

/// What a calendar holds, as mathematical values.
pub struct CalendarView {
    pub name: Seq<char>,
    pub default: bool,
    pub path: PathBuf,
}

/// A named group of events. The value lives in memory: it is made from
/// what the store holds and is not kept in step with it afterwards.
#[derive(Debug)]
pub struct Calendar {
    name: String,
    default: bool,
    path: PathBuf,
}

impl View for Calendar {
    type V = CalendarView;

    closed spec fn view(&self) -> CalendarView {
        CalendarView { name: self.name@, default: self.default, path: self.path }
    }
}

/// The outcome of an operation that gives a calendar, with the calendar as
/// mathematical values.
pub open spec fn views_calendar(result: Result<Calendar, CaliError>) -> Result<
    CalendarView,
    CaliError,
> {
    match result {
        Ok(calendar) => Ok(calendar@),
        Err(error) => Err(error),
    }
}

/// What creating the calendar `name` gives on a table with these rows:
/// `CalendarExists` where a row belongs to that name; else the failure of
/// the question for the default calendar; else a calendar that is the
/// default exactly if there is none yet.
pub open spec fn created(rows: Seq<RowView>, name: Seq<char>, path: PathBuf) -> Result<
    CalendarView,
    CaliError,
> {
    if has_calendar(rows, name) {
        Err(CaliError::CalendarExists(CalendarExistsError))
    } else {
        match default_name(rows) {
            Ok(existing) => Ok(CalendarView { name, default: existing is None, path }),
            Err(error) => Err(error),
        }
    }
}

/// What loading the calendar `name` gives on a table with these rows: the
/// calendar with the flag that its rows carry where it exists, and what
/// creating it gives where it does not.
pub open spec fn loaded(rows: Seq<RowView>, name: Seq<char>, path: PathBuf) -> Result<
    CalendarView,
    CaliError,
> {
    if has_calendar(rows, name) {
        Ok(CalendarView { name, default: is_default(rows, name), path })
    } else {
        created(rows, name, path)
    }
}

impl Calendar {
    /// A brand-new calendar. The table is created where it was missing;
    /// no row is stored, so the calendar exists in the store only once an
    /// event has been added to it.
    pub fn new(name: &str, store: &mut Store) -> (result: Result<Calendar, CaliError>)
        ensures
            final(store).location() == old(store).location(),
            final(store)@ == Some(rows_of(old(store)@)),
            views_calendar(result) == created(rows_of(old(store)@), name@, old(store).location()),
    {
        let _ = init_database(store);
        match check_calendar(store, name) {
            Err(error) => Err(error),
            Ok(true) => Err(CaliError::CalendarExists(CalendarExistsError)),
            Ok(false) => match get_default(store) {
                Err(error) => Err(error),
                Ok(existing) => Ok(
                    Calendar {
                        name: copy_text(name),
                        default: existing.is_none(),
                        path: store.get_path().clone(),
                    },
                ),
            },
        }
    }

    /// The calendar of this name: loaded where it exists, created where it
    /// does not. The table is created where it was missing.
    pub fn from(name: &str, store: &mut Store) -> (result: Result<Calendar, CaliError>)
        ensures
            final(store).location() == old(store).location(),
            final(store)@ == Some(rows_of(old(store)@)),
            views_calendar(result) == loaded(rows_of(old(store)@), name@, old(store).location()),
    {
        let _ = init_database(store);
        match check_calendar(store, name) {
            Err(error) => Err(error),
            Ok(true) => Calendar::from_existing(name, store),
            Ok(false) => Calendar::new(name, store),
        }
    }

    /// The calendar of this name with the flag that its rows carry.
    fn from_existing(name: &str, store: &Store) -> (result: Result<Calendar, CaliError>)
        requires
            store@ is Some,
        ensures
            views_calendar(result) == Ok::<CalendarView, CaliError>(
                CalendarView {
                    name: name@,
                    default: is_default(store@->Some_0, name@),
                    path: store.location(),
                },
            ),
    {
        match check_default(store, name) {
            Err(error) => Err(error),
            Ok(default) => Ok(
                Calendar { name: copy_text(name), default, path: store.get_path().clone() },
            ),
        }
    }

    pub fn get_name(&self) -> (name: &str)
        ensures
            name@ == self@.name,
    {
        self.name.as_str()
    }

    pub fn get_default(&self) -> (default: &bool)
        ensures
            *default == self@.default,
    {
        &self.default
    }

    pub fn get_path(&self) -> (path: &PathBuf)
        ensures
            *path == self@.path,
    {
        &self.path
    }

    /// Stores an event under this calendar, with the flag that the
    /// calendar holds in memory.
    pub fn add_event(&self, store: &mut Store, event: &Event) -> (result: Result<(), CaliError>)
        ensures
            final(store).location() == old(store).location(),
            match old(store)@ {
                Some(rows) => result is Ok && final(store)@ == Some(
                    rows.push(row_of(self@, event@)),
                ),
                None => result == Err::<(), CaliError>(CaliError::StorageIoError) && final(store)@
                    is None,
            },
    {
        insert_event(store, self, event)
    }

    /// Rewrites the rows that carry the identifier of the event to the row
    /// of this event under this calendar.
    pub fn update_event(&self, store: &mut Store, event: &Event) -> (result: Result<
        (),
        CaliError,
    >)
        ensures
            final(store).location() == old(store).location(),
            match old(store)@ {
                Some(rows) => result is Ok && final(store)@ == Some(
                    with_replaced(rows, row_of(self@, event@)),
                ),
                None => result == Err::<(), CaliError>(CaliError::StorageIoError) && final(store)@
                    is None,
            },
    {
        update_event(store, self, event)
    }

    /// Removes the rows of this calendar that carry the identifier of the
    /// event.
    pub fn remove_event(&self, store: &mut Store, event: &Event) -> (result: Result<
        (),
        CaliError,
    >)
        ensures
            final(store).location() == old(store).location(),
            match old(store)@ {
                Some(rows) => result is Ok && final(store)@ == Some(
                    without_event(rows, self@.name, hyphenated(event@.id)),
                ),
                None => result == Err::<(), CaliError>(CaliError::StorageIoError) && final(store)@
                    is None,
            },
    {
        remove_event(store, self, event)
    }

    /// Renames the calendar, in the store and in memory. Fails, and
    /// changes nothing, where the table is missing (`StorageIoError`) or
    /// where the new name is another name than the old one and a calendar
    /// of that name exists (`CalendarExists`).
    pub fn update_name(&mut self, store: &mut Store, new_name: &str) -> (result: Result<
        (),
        CaliError,
    >)
        ensures
            final(store).location() == old(store).location(),
            match old(store)@ {
                Some(rows) => if new_name@ != old(self)@.name && has_calendar(rows, new_name@) {
                    &&& result == Err::<(), CaliError>(
                        CaliError::CalendarExists(CalendarExistsError),
                    )
                    &&& final(store)@ == old(store)@
                    &&& final(self)@ == old(self)@
                } else {
                    &&& result is Ok
                    &&& final(store)@ == Some(with_renamed(rows, old(self)@.name, new_name@))
                    &&& final(self)@ == (CalendarView { name: new_name@, ..old(self)@ })
                },
                None => {
                    &&& result == Err::<(), CaliError>(CaliError::StorageIoError)
                    &&& final(store)@ is None
                    &&& final(self)@ == old(self)@
                },
            },
    {
        match rename_calendar(store, self.name.as_str(), new_name) {
            Err(error) => Err(error),
            Ok(()) => {
                self.name = copy_text(new_name);
                Ok(())
            },
        }
    }
}

} // verus!
