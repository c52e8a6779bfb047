//! The ways in which an operation on calendars and events can fail.
use vstd::prelude::*;
use crate::text::copy_text;

verus! {

/// A calendar was to be created under a name that already has rows.
#[derive(Debug, Clone, Copy, PartialEq, Eq, Structural)]
pub struct CalendarExistsError;

impl CalendarExistsError {
    /// The message shown to the user.
    pub open spec fn message() -> Seq<char> {
        "Calendar with this name already exists."@
    }

    pub fn to_string(&self) -> (message: String)
        ensures
            message@ == Self::message(),
    {
        copy_text("Calendar with this name already exists.")
    }
}

/// Every failure that the library reports.
#[derive(Debug, Clone, Copy, PartialEq, Eq, Structural)]
pub enum CaliError {
    /// The name of a calendar to be created is taken.
    CalendarExists(CalendarExistsError),
    /// More than one calendar is flagged as the default.
    AmbiguousDefault,
    /// The store could not serve the request: its table is missing.
    StorageIoError,
    /// A stored event identifier is not a well-formed UUID.
    InvalidIdentifier,
}

impl CaliError {
    /// The message shown to the user.
    pub open spec fn message(self) -> Seq<char> {
        match self {
            CaliError::CalendarExists(_) => CalendarExistsError::message(),
            CaliError::AmbiguousDefault => "More than one calendar is set as default."@,
            CaliError::StorageIoError => "The calendar table does not exist."@,
            CaliError::InvalidIdentifier => "A stored event identifier is not a valid UUID."@,
        }
    }

    pub fn to_string(&self) -> (message: String)
        ensures
            message@ == self.message(),
    {
        match self {
            CaliError::CalendarExists(inner) => inner.to_string(),
            CaliError::AmbiguousDefault => copy_text("More than one calendar is set as default."),
            CaliError::StorageIoError => copy_text("The calendar table does not exist."),
            CaliError::InvalidIdentifier => copy_text(
                "A stored event identifier is not a valid UUID.",
            ),
        }
    }
}

} // verus!
