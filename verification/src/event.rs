//! Events: an identifier, a name, a start and an end mark, and how the
//! event recurs.
use vstd::prelude::*;
use crate::cali_error::CaliError;
// The operations of the store that speak of events are at hand here too.
pub use crate::database::{get_event, insert_event, remove_event, update_event};
use crate::identifier::{fresh_id, hyphenated, id_text, is_random_uuid, parse_id, parsed_uuid};
use crate::text::{copy_text, same_text};

verus! {

/// How an event recurs. The tag is stored and shown; nothing is scheduled
/// from it.
#[derive(Debug, Clone, Copy, PartialEq, Eq, Structural)]
pub enum Recurring {
    No,
    Daily,
    Weekly,
    Monthly,
    Yearly,
}

impl Recurring {
    /// The text under which a tag is stored and shown.
    pub open spec fn text(self) -> Seq<char> {
        match self {
            Recurring::No => "No"@,
            Recurring::Daily => "Daily"@,
            Recurring::Weekly => "Weekly"@,
            Recurring::Monthly => "Monthly"@,
            Recurring::Yearly => "Yearly"@,
        }
    }

    /// The tag that a stored text stands for. Every text has one: what is
    /// not the text of a recurring tag stands for `No`.
    pub open spec fn decode(text: Seq<char>) -> Recurring {
        if text == "Daily"@ {
            Recurring::Daily
        } else if text == "Weekly"@ {
            Recurring::Weekly
        } else if text == "Monthly"@ {
            Recurring::Monthly
        } else if text == "Yearly"@ {
            Recurring::Yearly
        } else {
            Recurring::No
        }
    }

    /// Decoding the text of a tag gives the tag back.
    pub proof fn lemma_decode_text(self)
        ensures
            Recurring::decode(self.text()) == self,
    {
        reveal_strlit("No");
        reveal_strlit("Daily");
        reveal_strlit("Weekly");
        reveal_strlit("Monthly");
        reveal_strlit("Yearly");
        assert("No"@.len() == 2);
        assert("Daily"@.len() == 5);
        assert("Weekly"@.len() == 6 && "Weekly"@[0] == 'W');
        assert("Monthly"@.len() == 7);
        assert("Yearly"@.len() == 6 && "Yearly"@[0] == 'Y');
    }

    pub fn to_string(&self) -> (text: String)
        ensures
            text@ == self.text(),
    {
        match self {
            Recurring::No => copy_text("No"),
            Recurring::Daily => copy_text("Daily"),
            Recurring::Weekly => copy_text("Weekly"),
            Recurring::Monthly => copy_text("Monthly"),
            Recurring::Yearly => copy_text("Yearly"),
        }
    }

    /// Reads a stored tag; never fails.
    pub fn from_text(text: &str) -> (tag: Recurring)
        ensures
            tag == Recurring::decode(text@),
    {
        if same_text(text, "Daily") {
            Recurring::Daily
        } else if same_text(text, "Weekly") {
            Recurring::Weekly
        } else if same_text(text, "Monthly") {
            Recurring::Monthly
        } else if same_text(text, "Yearly") {
            Recurring::Yearly
        } else {
            Recurring::No
        }
    }
}

/// What an event holds, as mathematical values.
pub struct EventView {
    pub id: u128,
    pub name: Seq<char>,
    pub start: Seq<char>,
    pub end: Seq<char>,
    pub recurring: Recurring,
}

impl EventView {
    /// The identifier can be stored: the text under which it is written is
    /// read back as the same identifier. This holds of every `Event`.
    pub open spec fn storable(self) -> bool {
        parsed_uuid(hyphenated(self.id)) == Some(self.id)
    }
}

/// A single event. The start and end marks are opaque texts: they are
/// neither parsed nor compared. The event keeps the text of its
/// identifier, written once when the event is made.
#[derive(Debug)]
pub struct Event {
    id: u128,
    id_text: String,
    name: String,
    start: String,
    end: String,
    recurring: Recurring,
}

impl View for Event {
    type V = EventView;

    closed spec fn view(&self) -> EventView {
        EventView {
            id: self.id,
            name: self.name@,
            start: self.start@,
            end: self.end@,
            recurring: self.recurring,
        }
    }
}

impl Event {
    /// The text kept with the identifier is its hyphenated form, and is
    /// read back as the identifier.
    #[verifier::type_invariant]
    spec fn text_is_of_id(&self) -> bool {
        &&& self.id_text@ == hyphenated(self.id)
        &&& parsed_uuid(self.id_text@) == Some(self.id)
    }

    /// An event with a fresh random identifier.
    pub fn new(name: &str, start: &str, end: &str, recurring: Recurring) -> (event: Event)
        ensures
            is_random_uuid(event@.id),
            event@.storable(),
            event@ == (EventView {
                id: event@.id,
                name: name@,
                start: start@,
                end: end@,
                recurring,
            }),
    {
        Event::with_id(fresh_id(), name, start, end, recurring)
    }

    /// An event with the given identifier.
    pub fn with_id(id: u128, name: &str, start: &str, end: &str, recurring: Recurring) -> (event:
        Event)
        ensures
            event@ == (EventView { id, name: name@, start: start@, end: end@, recurring }),
            event@.storable(),
    {
        Event {
            id,
            id_text: id_text(id),
            name: copy_text(name),
            start: copy_text(start),
            end: copy_text(end),
            recurring,
        }
    }

    /// What `from` returns for an identifier text that was parsed to
    /// `parsed`.
    pub open spec fn rebuilt(
        parsed: Option<u128>,
        name: Seq<char>,
        start: Seq<char>,
        end: Seq<char>,
        recurring: Recurring,
    ) -> Result<EventView, CaliError> {
        match parsed {
            Some(id) => Ok(EventView { id, name, start, end, recurring }),
            None => Err(CaliError::InvalidIdentifier),
        }
    }

    /// An event as it was stored, from the text of its identifier. Fails
    /// with `InvalidIdentifier` where the text is no well-formed UUID.
    pub fn from(id: &str, name: &str, start: &str, end: &str, recurring: Recurring) -> (result:
        Result<Event, CaliError>)
        ensures
            views_result(result) == Event::rebuilt(parsed_uuid(id@), name@, start@, end@, recurring),
    {
        Event::from_parsed(parse_id(id), name, start, end, recurring)
    }

    /// An event as it was stored, from what parsing the text of its
    /// identifier gave: the identifier, or `None` for a malformed text.
    pub fn from_parsed(
        parsed: Option<u128>,
        name: &str,
        start: &str,
        end: &str,
        recurring: Recurring,
    ) -> (result: Result<Event, CaliError>)
        ensures
            views_result(result) == Event::rebuilt(parsed, name@, start@, end@, recurring),
    {
        match parsed {
            Some(id) => Ok(Event::with_id(id, name, start, end, recurring)),
            None => Err(CaliError::InvalidIdentifier),
        }
    }

    pub fn get_id(&self) -> (id: u128)
        ensures
            id == self@.id,
            self@.storable(),
    {
        proof {
            use_type_invariant(self);
        }
        self.id
    }

    /// The identifier as it is stored: in hyphenated form.
    pub fn get_id_text(&self) -> (text: &str)
        ensures
            text@ == hyphenated(self@.id),
            self@.storable(),
    {
        proof {
            use_type_invariant(self);
        }
        self.id_text.as_str()
    }

    pub fn get_name(&self) -> (name: &str)
        ensures
            name@ == self@.name,
    {
        self.name.as_str()
    }

    pub fn get_start(&self) -> (start: &str)
        ensures
            start@ == self@.start,
    {
        self.start.as_str()
    }

    pub fn get_end(&self) -> (end: &str)
        ensures
            end@ == self@.end,
    {
        self.end.as_str()
    }

    pub fn get_recurring(&self) -> (recurring: &Recurring)
        ensures
            *recurring == self@.recurring,
    {
        &self.recurring
    }

    /// Renames the event in memory; the store is not touched.
    pub fn update_name(&mut self, new_name: &str) -> (result: Result<(), CaliError>)
        ensures
            result is Ok,
            final(self)@ == (EventView { name: new_name@, ..old(self)@ }),
    {
        proof {
            use_type_invariant(&*self);
        }
        self.name = copy_text(new_name);
        Ok(())
    }

    /// Sets the start mark in memory; the store is not touched.
    pub fn update_start(&mut self, new_start: &str) -> (result: Result<(), CaliError>)
        ensures
            result is Ok,
            final(self)@ == (EventView { start: new_start@, ..old(self)@ }),
    {
        proof {
            use_type_invariant(&*self);
        }
        self.start = copy_text(new_start);
        Ok(())
    }

    /// Sets the end mark in memory; the store is not touched.
    pub fn update_end(&mut self, new_end: &str) -> (result: Result<(), CaliError>)
        ensures
            result is Ok,
            final(self)@ == (EventView { end: new_end@, ..old(self)@ }),
    {
        proof {
            use_type_invariant(&*self);
        }
        self.end = copy_text(new_end);
        Ok(())
    }
}

/// The outcome of an operation that gives an event, with the event as a
/// mathematical value.
pub open spec fn views_result(result: Result<Event, CaliError>) -> Result<EventView, CaliError> {
    match result {
        Ok(event) => Ok(event@),
        Err(error) => Err(error),
    }
}

} // verus!
