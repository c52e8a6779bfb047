//! What a command asks for, and what carrying it out does to the store.
use vstd::prelude::*;
use vstd::string::StringExecFns;
use std::path::PathBuf;
use crate::cali_error::{CalendarExistsError, CaliError};
use crate::calendar::{loaded, Calendar};
use crate::database::{default_of, get_default, init_database, remove_calendar, update_default, Store};
use crate::row::RowView;
use crate::table::{has_calendar, rows_of, with_default, with_renamed, without_calendar};
use crate::text::{copy_text, trim_text, trimmed};

verus! {

/// What a command holds, as mathematical values.
pub struct InputParserView {
    pub calendar_name: Option<Seq<char>>,
    pub delete: bool,
    pub rename: bool,
    pub set_default: bool,
}

/// A command: the calendar it is about, or none for the default calendar,
/// and whether to delete the calendar, to rename it, and to make it the
/// default.
#[derive(Debug)]
pub struct InputParser {
    calendar_name: Option<String>,
    delete: bool,
    rename: bool,
    set_default: bool,
}

impl View for InputParser {
    type V = InputParserView;

    closed spec fn view(&self) -> InputParserView {
        InputParserView {
            calendar_name: match self.calendar_name {
                Some(name) => Some(name@),
                None => None,
            },
            delete: self.delete,
            rename: self.rename,
            set_default: self.set_default,
        }
    }
}

/// What carrying out a command leaves: the rows of the table and the
/// messages for the user, in the order in which they are to be shown.
pub struct Outcome {
    pub rows: Seq<RowView>,
    pub messages: Seq<Seq<char>>,
}

/// The name used where a command names no calendar and no calendar is the
/// default.
pub open spec fn fallback_name() -> Seq<char> {
    "default calendar"@
}

/// The calendar that a command is about: the one it names; else the
/// default calendar; else the fallback name.
pub open spec fn target_of(given: Option<Seq<char>>, table: Option<Seq<RowView>>) -> Result<
    Seq<char>,
    CaliError,
> {
    match given {
        Some(name) => Ok(name),
        None => match default_of(table) {
            Ok(Some(name)) => Ok(name),
            Ok(None) => Ok(fallback_name()),
            Err(error) => Err(error),
        },
    }
}

/// The question put to the user before a calendar is renamed.
pub open spec fn prompt_for(name: Seq<char>) -> Seq<char> {
    "Enter a new name for calendar: '"@ + name + "'"@
}

/// The message after a calendar was deleted.
pub open spec fn deleted_message(name: Seq<char>) -> Seq<char> {
    "'"@ + name + "' was deleted."@
}

/// The message after a calendar was renamed.
pub open spec fn renamed_message(from: Seq<char>, to: Seq<char>) -> Seq<char> {
    "'"@ + from + "' was renamed to '"@ + to + "'."@
}

/// The message after a calendar was made the default.
pub open spec fn default_message(name: Seq<char>) -> Seq<char> {
    "'"@ + name + "' is now set as default."@
}

/// What the renaming step of a command leaves, given the rows and the
/// name of the calendar before it: the rows, the name of the calendar and
/// the messages after it.
pub open spec fn after_rename(
    command: InputParserView,
    rows: Seq<RowView>,
    name: Seq<char>,
    new_name: Seq<char>,
) -> Result<(Outcome, Seq<char>), CaliError> {
    if !command.rename {
        Ok((Outcome { rows, messages: Seq::empty() }, name))
    } else if new_name != name && has_calendar(rows, new_name) {
        Err(CaliError::CalendarExists(CalendarExistsError))
    } else {
        Ok(
            (
                Outcome {
                    rows: with_renamed(rows, name, new_name),
                    messages: seq![renamed_message(name, new_name)],
                },
                new_name,
            ),
        )
    }
}

/// What carrying out a command leaves on a table with these rows, where
/// `new_name` is the name to rename to. The calendar is loaded or created
/// first, and a failure of that ends the command. Deleting comes first and
/// ends the command; renaming comes before making the calendar the
/// default, which then goes by the new name.
pub open spec fn outcome(
    command: InputParserView,
    rows: Seq<RowView>,
    new_name: Seq<char>,
    path: PathBuf,
) -> Result<Outcome, CaliError> {
    match target_of(command.calendar_name, Some(rows)) {
        Err(error) => Err(error),
        Ok(name) => match loaded(rows, name, path) {
            Err(error) => Err(error),
            Ok(_) => if command.delete {
                Ok(
                    Outcome {
                        rows: without_calendar(rows, name),
                        messages: seq![deleted_message(name)],
                    },
                )
            } else {
                match after_rename(command, rows, name, new_name) {
                    Err(error) => Err(error),
                    Ok((renamed, current)) => if command.set_default {
                        Ok(
                            Outcome {
                                rows: with_default(renamed.rows, current),
                                messages: renamed.messages.push(default_message(current)),
                            },
                        )
                    } else {
                        Ok(renamed)
                    },
                }
            },
        },
    }
}

/// The messages of a list, each as a sequence of characters.
pub open spec fn message_views(messages: Seq<String>) -> Seq<Seq<char>> {
    messages.map_values(|message: String| message@)
}

/// The outcome of an operation that gives a text, with the text as a
/// sequence of characters.
pub open spec fn views_text(result: Result<String, CaliError>) -> Result<Seq<char>, CaliError> {
    match result {
        Ok(text) => Ok(text@),
        Err(error) => Err(error),
    }
}

/// Joins three texts.
fn join3(a: &str, b: &str, c: &str) -> (joined: String)
    ensures
        joined@ == a@ + b@ + c@,
{
    let mut joined = copy_text(a);
    joined.append(b);
    joined.append(c);
    joined
}

impl InputParser {
    pub fn new(calendar_name: Option<String>, delete: bool, rename: bool, set_default: bool) -> (command:
        InputParser)
        ensures
            command@ == (InputParserView {
                calendar_name: match calendar_name {
                    Some(name) => Some(name@),
                    None => None,
                },
                delete,
                rename,
                set_default,
            }),
    {
        InputParser { calendar_name, delete, rename, set_default }
    }

    /// The calendar that the command names, if it names one.
    pub fn get_calendar_name(&self) -> (name: Option<&str>)
        ensures
            match name {
                Some(text) => self@.calendar_name == Some(text@),
                None => self@.calendar_name is None,
            },
    {
        match &self.calendar_name {
            Some(name) => Some(name.as_str()),
            None => None,
        }
    }

    pub fn get_delete(&self) -> (delete: bool)
        ensures
            delete == self@.delete,
    {
        self.delete
    }

    pub fn get_rename(&self) -> (rename: bool)
        ensures
            rename == self@.rename,
    {
        self.rename
    }

    pub fn get_set_default(&self) -> (set_default: bool)
        ensures
            set_default == self@.set_default,
    {
        self.set_default
    }

    /// Whether carrying out the command needs a new name from the user:
    /// it renames, and does not delete first.
    pub fn needs_new_name(&self) -> (needed: bool)
        ensures
            needed == (self@.rename && !self@.delete),
    {
        self.rename && !self.delete
    }

    /// The name of the calendar that the command is about.
    pub fn target_name(&self, store: &Store) -> (result: Result<String, CaliError>)
        ensures
            views_text(result) == target_of(self@.calendar_name, store@),
    {
        match &self.calendar_name {
            Some(name) => Ok(copy_text(name.as_str())),
            None => match get_default(store) {
                Err(error) => Err(error),
                Ok(Some(name)) => Ok(name),
                Ok(None) => Ok(copy_text("default calendar")),
            },
        }
    }

    /// The question to put to the user before the calendar `name` is
    /// renamed.
    pub fn prompt(name: &str) -> (question: String)
        ensures
            question@ == prompt_for(name@),
    {
        join3("Enter a new name for calendar: '", name, "'")
    }

    /// Carries out the command, renaming to `new_name` where it renames.
    /// The table is created where it was missing. Where the command fails,
    /// the rows are as they were.
    pub fn apply(&self, store: &mut Store, new_name: &str) -> (result: Result<
        Vec<String>,
        CaliError,
    >)
        ensures
            final(store).location() == old(store).location(),
            match outcome(self@, rows_of(old(store)@), new_name@, old(store).location()) {
                Ok(done) => {
                    &&& result matches Ok(messages)
                    &&& message_views(messages@) == done.messages
                    &&& final(store)@ == Some(done.rows)
                },
                Err(error) => {
                    &&& result == Err::<Vec<String>, CaliError>(error)
                    &&& final(store)@ == Some(rows_of(old(store)@))
                },
            },
    {
        let _ = init_database(store);
        let name = match self.target_name(store) {
            Err(error) => {
                return Err(error);
            },
            Ok(name) => name,
        };
        let mut calendar = match Calendar::from(name.as_str(), store) {
            Err(error) => {
                return Err(error);
            },
            Ok(calendar) => calendar,
        };
        let mut messages: Vec<String> = Vec::new();
        if self.delete {
            let _ = remove_calendar(store, &calendar);
            messages.push(join3("'", name.as_str(), "' was deleted."));
            proof {
                assert(message_views(messages@) =~= seq![deleted_message(name@)]);
            }
            return Ok(messages);
        }
        if self.rename {
            match calendar.update_name(store, new_name) {
                Err(error) => {
                    return Err(error);
                },
                Ok(()) => {},
            }
            let mut message = join3("'", name.as_str(), "' was renamed to '");
            message.append(new_name);
            message.append("'.");
            messages.push(message);
            proof {
                assert(message_views(messages@) =~= seq![renamed_message(name@, new_name@)]);
            }
        } else {
            proof {
                assert(message_views(messages@) =~= Seq::<Seq<char>>::empty());
            }
        }
        if self.set_default {
            let ghost shown = message_views(messages@);
            let _ = update_default(store, calendar.get_name());
            let message = join3("'", calendar.get_name(), "' is now set as default.");
            proof {
                assert(message_views(messages@.push(message)) =~= shown.push(message@));
            }
            messages.push(message);
        }
        Ok(messages)
    }
}

/// What can be run as a command.
pub trait RunArgs {
    /// Carries out the command on a store. `answer` is the line that the
    /// user gave when asked for a new name; it is read only where the
    /// command renames.
    fn run(&self, store: &mut Store, answer: &str) -> Result<Vec<String>, CaliError>;
}

impl RunArgs for InputParser {
    /// Carries out the command, renaming to the answer without the white
    /// space at its two ends.
    fn run(&self, store: &mut Store, answer: &str) -> (result: Result<Vec<String>, CaliError>)
        ensures
            final(store).location() == old(store).location(),
            match outcome(self@, rows_of(old(store)@), trimmed(answer@), old(store).location()) {
                Ok(done) => {
                    &&& result matches Ok(messages)
                    &&& message_views(messages@) == done.messages
                    &&& final(store)@ == Some(done.rows)
                },
                Err(error) => {
                    &&& result == Err::<Vec<String>, CaliError>(error)
                    &&& final(store)@ == Some(rows_of(old(store)@))
                },
            },
    {
        self.apply(store, trim_text(answer))
    }
}

} // verus!
