//! What is sent to the calendar for an action.

use crate::book::Book;
use crate::calendar::{event_address, event_url, events_address, events_url, Event, EventView};
use crate::outcome::replacement;
use crate::reconcile::{Action, ActionView};
use vstd::prelude::*;

verus! {

/// How an event is sent.
#[derive(Clone, Copy, Debug, PartialEq, Eq, Structural)]
pub enum Method {
    /// A new event is added to the events of the calendar.
    Post,
    /// The event under the address is replaced.
    Put,
}

/// One event on its way to the calendar.
#[derive(Debug)]
pub struct Submission {
    /// How the event is sent.
    pub method: Method,
    /// Where the event is sent to.
    pub url: String,
    /// The event.
    pub event: Event,
}

/// A submission as contracts see it.
pub struct SubmissionView {
    pub method: Method,
    pub url: Seq<char>,
    pub event: EventView,
}

impl View for Submission {
    type V = SubmissionView;

    open spec fn view(&self) -> SubmissionView {
        SubmissionView { method: self.method, url: self.url@, event: self.event@ }
    }
}

/// What to send so that the calendar gets an event for the loan.
pub open spec fn creation(calendar_id: Seq<char>, book: crate::book::BookView) -> SubmissionView {
    SubmissionView {
        method: Method::Post,
        url: events_address(calendar_id),
        event: book.event(),
    }
}

/// What to send so that the event of the loan is replaced: the event of the
/// loan, with the entity tag of the event that the calendar holds, under the
/// address of the loan's event.
pub open spec fn replacing(
    calendar_id: Seq<char>,
    book: crate::book::BookView,
    event: EventView,
) -> SubmissionView {
    SubmissionView {
        method: Method::Put,
        url: event_address(calendar_id, book.id()),
        event: replacement(book, event),
    }
}

impl ActionView {
    /// The loan that the action is about.
    pub open spec fn book(&self) -> crate::book::BookView {
        match *self {
            ActionView::Create(book) => book,
            ActionView::Update(book, _) => book,
            ActionView::NoOp(book) => book,
        }
    }

    /// The action can be sent: the loan has dates to work with, and an event
    /// to replace has an entity tag.
    pub open spec fn can_be_sent(&self) -> bool {
        match *self {
            ActionView::Create(book) => book.wf(),
            ActionView::Update(book, event) => book.wf() && event.etag is Some,
            ActionView::NoOp(_) => true,
        }
    }

    /// What is sent for the action; nothing where nothing is left to do.
    pub open spec fn submission(&self, calendar_id: Seq<char>) -> Option<SubmissionView> {
        match *self {
            ActionView::Create(book) => Some(creation(calendar_id, book)),
            ActionView::Update(book, event) => Some(replacing(calendar_id, book, event)),
            ActionView::NoOp(_) => None,
        }
    }
}

/// What is sent, if anything, as contracts see it.
pub open spec fn submission_view(sent: Option<Submission>) -> Option<SubmissionView> {
    match sent {
        Some(submission) => Some(submission@),
        None => None,
    }
}

/// Makes what is sent to create the event of a loan.
pub fn create_submission(calendar_id: &str, book: &Book) -> (sent: Submission)
    requires
        book@.wf(),
    ensures
        sent@ == creation(calendar_id@, book@),
        sent.event.start.date.wf(),
        sent.event.end.date.wf(),
{
    Submission { method: Method::Post, url: events_url(calendar_id), event: Event::from_book(book) }
}

/// Makes what is sent to replace the event of a loan.
pub fn update_submission(calendar_id: &str, book: &Book, event: &Event) -> (sent: Submission)
    requires
        book@.wf(),
        event.etag is Some,
    ensures
        sent@ == replacing(calendar_id@, book@, event@),
        sent.event.start.date.wf(),
        sent.event.end.date.wf(),
{
    let mut updated = Event::from_book(book);
    updated.set_etag_from_event(event);
    let id = book.get_id();
    Submission { method: Method::Put, url: event_url(calendar_id, id.as_str()), event: updated }
}

impl<'a> Action<'a> {
    /// The loan that the action is about.
    pub fn book(&self) -> (book: &'a Book)
        ensures
            book@ == self@.book(),
    {
        match self {
            Action::Create(book) => book,
            Action::Update(book, _) => book,
            Action::NoOp(book) => book,
        }
    }

    /// Tells whether the action can be sent.
    pub fn is_sendable(&self) -> (sendable: bool)
        ensures
            sendable == self@.can_be_sent(),
    {
        match self {
            Action::Create(book) => book.is_valid(),
            Action::Update(book, event) => book.is_valid() && event.etag.is_some(),
            Action::NoOp(_) => true,
        }
    }

    /// Makes what is sent to the calendar for the action: a new event, a
    /// replacement, or nothing where nothing is left to do.
    pub fn submission(&self, calendar_id: &str) -> (sent: Option<Submission>)
        requires
            self@.can_be_sent(),
        ensures
            submission_view(sent) == self@.submission(calendar_id@),
            sent matches Some(submission) ==> submission.event.start.date.wf()
                && submission.event.end.date.wf(),
    {
        match self {
            Action::Create(book) => Some(create_submission(calendar_id, book)),
            Action::Update(book, event) => Some(update_submission(calendar_id, book, event)),
            Action::NoOp(_) => None,
        }
    }
}

} // verus!
