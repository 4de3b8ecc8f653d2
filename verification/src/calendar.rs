//! Calendar events and how a loan shows in them.

use crate::book::{Book, BookView, RESERVED};
use crate::day::Day;
use crate::text::{join, starts_with, trim, trim_matches};
use vstd::prelude::*;
use vstd::string::*;

verus! {

/// What every event names as its kind.
pub const EVENT_KIND: &'static str = "calendar#event";

/// The character that stands around an entity tag as the calendar sends it.
pub const QUOTE: char = '"';

/// What the addresses of all calendars start with.
pub const CALENDARS_URL: &'static str = "https://www.googleapis.com/calendar/v3/calendars/";

/// Where the events of a calendar are, behind the address of the calendar.
pub const EVENTS_PATH: &'static str = "/events";

/// What parts the address of an event from that of the events.
pub const SEPARATOR: &'static str = "/";

/// A day as an event gives it: events of loans last whole days.
#[derive(Clone, Copy, Debug, PartialEq, Eq, Structural)]
pub struct Date {
    /// The day.
    pub date: Day,
}

/// An event of the calendar.
#[derive(Debug)]
pub struct Event {
    /// What kind of thing this is; the same for every event.
    pub kind: String,
    /// The entity tag that the calendar gave the event. An event that the
    /// calendar holds can only be replaced under its tag.
    pub etag: Option<String>,
    /// The identifier of the loan that the event stands for.
    pub id: String,
    /// The text shown for the event.
    pub summary: Option<String>,
    /// The first day of the event.
    pub start: Date,
    /// The day after the last day of the event.
    pub end: Date,
}

/// An event as contracts see it.
pub struct EventView {
    pub kind: Seq<char>,
    pub etag: Option<Seq<char>>,
    pub id: Seq<char>,
    pub summary: Option<Seq<char>>,
    pub start: Date,
    pub end: Date,
}

/// The text of an optional string.
pub open spec fn text_of(text: Option<String>) -> Option<Seq<char>> {
    match text {
        Some(text) => Some(text@),
        None => None,
    }
}

impl View for Event {
    type V = EventView;

    open spec fn view(&self) -> EventView {
        EventView {
            kind: self.kind@,
            etag: text_of(self.etag),
            id: self.id@,
            summary: text_of(self.summary),
            start: self.start,
            end: self.end,
        }
    }
}

impl DeepView for Event {
    type V = EventView;

    open spec fn deep_view(&self) -> EventView {
        self@
    }
}

/// The address of the events of a calendar.
pub open spec fn events_address(calendar_id: Seq<char>) -> Seq<char> {
    CALENDARS_URL@ + calendar_id + EVENTS_PATH@
}

/// The address of one event of a calendar.
pub open spec fn event_address(calendar_id: Seq<char>, id: Seq<char>) -> Seq<char> {
    events_address(calendar_id) + SEPARATOR@ + id
}

/// The address under which the events of a calendar are listed and new
/// events are created.
pub fn events_url(calendar_id: &str) -> (url: String)
    ensures
        url@ == events_address(calendar_id@),
{
    let mut url = join(CALENDARS_URL, calendar_id);
    url.append(EVENTS_PATH);
    url
}

/// The address under which the event with the identifier `id` is replaced.
pub fn event_url(calendar_id: &str, id: &str) -> (url: String)
    ensures
        url@ == event_address(calendar_id@, id@),
{
    let mut url = events_url(calendar_id);
    url.append(SEPARATOR);
    url.append(id);
    url
}

impl BookView {
    /// The event that stands for the loan, as it is first sent to the calendar.
    pub open spec fn event(&self) -> EventView {
        EventView {
            kind: EVENT_KIND@,
            etag: None,
            id: self.id(),
            summary: Some(self.summary()),
            start: self.start_date(),
            end: self.end_date(),
        }
    }
}

impl EventView {
    /// The summary starts with the marker of a reserved loan. The marker
    /// anywhere else in the summary does not count, and an event without a
    /// summary is not marked.
    pub open spec fn is_marked_as_reserved(&self) -> bool {
        match self.summary {
            Some(summary) => RESERVED@.is_prefix_of(summary),
            None => false,
        }
    }

    /// The event shows the loan as it is now: it ends on the day after the
    /// item is due, and it is marked as reserved exactly if the loan is.
    pub open spec fn is_up_to_date_with(&self, book: BookView) -> bool {
        self.end == book.end_date() && self.is_marked_as_reserved() == book.is_reserved
    }

    /// The event with the entity tag `tag` freed of the quotes around it.
    pub open spec fn with_etag(&self, tag: Seq<char>) -> EventView {
        EventView { etag: Some(trim(tag, QUOTE)), ..*self }
    }
}

impl Event {
    /// The event that stands for a loan. It has no entity tag yet.
    pub fn from_book(book: &Book) -> (event: Event)
        requires
            book@.wf(),
        ensures
            event@ == book@.event(),
            event.start.date.wf(),
            event.end.date.wf(),
    {
        Event {
            kind: String::from_str(EVENT_KIND),
            etag: None,
            id: book.get_id(),
            summary: Some(book.get_summary()),
            start: book.get_start_date(),
            end: book.get_end_date(),
        }
    }

    /// Takes over the entity tag of `event`, without the quotes around it.
    /// Everything else stays as it is.
    pub fn set_etag_from_event(&mut self, event: &Event)
        requires
            event.etag is Some,
        ensures
            final(self)@ == old(self)@.with_etag(event@.etag->0),
            final(self).start == old(self).start,
            final(self).end == old(self).end,
    {
        match &event.etag {
            Some(tag) => {
                self.etag = Some(String::from_str(trim_matches(tag.as_str(), QUOTE)));
            },
            None => {},
        }
    }

    /// Tells whether the event shows the loan as it is now.
    pub fn is_up_to_date_with(&self, book: &Book) -> (current: bool)
        requires
            book.due_date.wf(),
            !book.due_date.is_last(),
        ensures
            current == self@.is_up_to_date_with(book@),
    {
        self.end == book.get_end_date() && self.is_marked_as_reserved() == book.is_reserved
    }

    /// Tells whether the summary starts with the marker of a reserved loan.
    pub fn is_marked_as_reserved(&self) -> (marked: bool)
        ensures
            marked == self@.is_marked_as_reserved(),
    {
        match &self.summary {
            Some(summary) => starts_with(summary.as_str(), RESERVED),
            None => false,
        }
    }
}

} // verus!
