//! Decides what has to happen in the calendar for each loan.

use crate::book::{lemma_id_stable, Book, BookView};
use crate::calendar::{Event, EventView};
use crate::day::lemma_succ_injective;
use vstd::prelude::*;

verus! {

/// What has to happen in the calendar for one loan.
#[derive(Debug)]
pub enum Action<'a> {
    /// No event stands for the loan yet: one has to be created.
    Create(&'a Book),
    /// The event that stands for the loan no longer shows it as it is: it has
    /// to be replaced.
    Update(&'a Book, &'a Event),
    /// The event that stands for the loan shows it as it is.
    NoOp(&'a Book),
}

/// An action as contracts see it.
pub enum ActionView {
    Create(BookView),
    Update(BookView, EventView),
    NoOp(BookView),
}

impl<'a> View for Action<'a> {
    type V = ActionView;

    open spec fn view(&self) -> ActionView {
        match self {
            Action::Create(book) => ActionView::Create(book@),
            Action::Update(book, event) => ActionView::Update(book@, event@),
            Action::NoOp(book) => ActionView::NoOp(book@),
        }
    }
}

impl<'a> DeepView for Action<'a> {
    type V = ActionView;

    open spec fn deep_view(&self) -> ActionView {
        self@
    }
}

/// The event at `at` carries the identifier `id`, and no event before it does.
pub open spec fn is_first_match(events: Seq<EventView>, id: Seq<char>, at: int) -> bool {
    &&& 0 <= at < events.len()
    &&& events[at].id == id
    &&& forall|before: int| 0 <= before < at ==> (#[trigger] events[before]).id != id
}

/// Where the first event with the identifier `id` stands, if there is one.
pub open spec fn first_match(events: Seq<EventView>, id: Seq<char>) -> Option<int> {
    if exists|at: int| is_first_match(events, id, at) {
        Some(choose|at: int| is_first_match(events, id, at))
    } else {
        None
    }
}

/// What has to happen for `book` in a calendar that holds `events`.
pub open spec fn decision(book: BookView, events: Seq<EventView>) -> ActionView {
    match first_match(events, book.id()) {
        None => ActionView::Create(book),
        Some(at) => if events[at].is_up_to_date_with(book) {
            ActionView::NoOp(book)
        } else {
            ActionView::Update(book, events[at])
        },
    }
}

/// What has to happen for each of `books`, in their order.
pub open spec fn decisions(books: Seq<BookView>, events: Seq<EventView>) -> Seq<ActionView> {
    Seq::new(books.len(), |i: int| decision(books[i], events))
}

/// At most one place is the first with a given identifier.
pub proof fn lemma_first_match_is(events: Seq<EventView>, id: Seq<char>, at: int)
    requires
        is_first_match(events, id, at),
    ensures
        first_match(events, id) == Some(at),
{
    let chosen = choose|at: int| is_first_match(events, id, at);
    if chosen < at {
        assert(events[chosen].id != id);
    } else if at < chosen {
        assert(events[at].id != id);
    }
}

/// Where no event carries the identifier, there is no first one.
pub proof fn lemma_no_match(events: Seq<EventView>, id: Seq<char>)
    requires
        forall|at: int| 0 <= at < events.len() ==> (#[trigger] events[at]).id != id,
    ensures
        first_match(events, id) is None,
{
}

/// Where there is a first event with the identifier, it is where
/// `first_match` says.
pub proof fn lemma_first_match_some(events: Seq<EventView>, id: Seq<char>)
    requires
        first_match(events, id) is Some,
    ensures
        is_first_match(events, id, first_match(events, id)->0),
{
}

/// Where there is no first event with the identifier, no event carries it.
pub proof fn lemma_first_match_none(events: Seq<EventView>, id: Seq<char>)
    requires
        first_match(events, id) is None,
    ensures
        forall|at: int| 0 <= at < events.len() ==> (#[trigger] events[at]).id != id,
{
    assert forall|at: int| 0 <= at < events.len() implies (#[trigger] events[at]).id != id by {
        if events[at].id == id {
            let first = lemma_least_match(events, id, at);
        }
    }
}

/// Before any event with the identifier stands a first one.
pub proof fn lemma_least_match(events: Seq<EventView>, id: Seq<char>, at: int) -> (first: int)
    requires
        0 <= at < events.len(),
        events[at].id == id,
    ensures
        is_first_match(events, id, first),
        first <= at,
    decreases at,
{
    if exists|before: int| 0 <= before < at && (#[trigger] events[before]).id == id {
        let before = choose|before: int| 0 <= before < at && (#[trigger] events[before]).id == id;
        lemma_least_match(events, id, before)
    } else {
        at
    }
}

/// Of several events with the identifier of a loan only the first counts:
/// the loan is held against it, and nothing that stands behind it in the
/// calendar changes what is decided.
pub proof fn lemma_first_match_wins(
    book: BookView,
    events: Seq<EventView>,
    first: int,
    second: int,
)
    requires
        is_first_match(events, book.id(), first),
        first < second < events.len(),
        events[second].id == book.id(),
    ensures
        decision(book, events) == (if events[first].is_up_to_date_with(book) {
            ActionView::NoOp(book)
        } else {
            ActionView::Update(book, events[first])
        }),
        decision(book, events) == decision(book, events.take(first + 1)),
        forall|behind: Seq<EventView>| #[trigger]
            decision(book, events.take(first + 1) + behind) == decision(book, events),
{
    lemma_first_match_is(events, book.id(), first);
    let head = events.take(first + 1);
    assert forall|behind: Seq<EventView>| #[trigger]
        decision(book, head + behind) == decision(book, events) by {
        let other = head + behind;
        assert(other[first] == events[first]);
        assert forall|before: int| 0 <= before < first implies (#[trigger] other[before]).id
            != book.id() by {
            assert(other[before] == events[before]);
        }
        lemma_first_match_is(other, book.id(), first);
    }
    assert(head + Seq::<EventView>::empty() == head);
}

/// An event that ends on the day after an item was due goes stale when the
/// day the item is due changes, and when the reservation changes that its
/// summary showed; where neither changes, nothing is left to do. The loan
/// keeps its identifier, so it is held against the same event.
pub proof fn lemma_staleness(before: BookView, after: BookView, events: Seq<EventView>, at: int)
    requires
        before.due_date.wf(),
        after.due_date.wf(),
        is_first_match(events, before.id(), at),
        events[at].end == before.end_date(),
        after.lent_date == before.lent_date,
        after.name == before.name,
    ensures
        after.due_date != before.due_date ==> decision(after, events) == ActionView::Update(
            after,
            events[at],
        ),
        events[at].is_marked_as_reserved() == before.is_reserved && after.is_reserved
            != before.is_reserved ==> decision(after, events) == ActionView::Update(
            after,
            events[at],
        ),
        events[at].is_marked_as_reserved() == before.is_reserved && after.due_date
            == before.due_date && after.is_reserved == before.is_reserved ==> decision(
            after,
            events,
        ) == ActionView::NoOp(after),
{
    lemma_id_stable(before, after);
    lemma_first_match_is(events, after.id(), at);
    if after.due_date != before.due_date {
        if after.due_date.succ() == before.due_date.succ() {
            lemma_succ_injective(after.due_date, before.due_date);
        }
    }
}

/// Decides what has to happen for one loan: looks for the first event with
/// the loan's identifier and holds it against the loan.
pub fn decide<'a>(book: &'a Book, events: &'a Vec<Event>) -> (action: Action<'a>)
    requires
        book@.wf(),
    ensures
        action@ == decision(book@, events.deep_view()),
{
    let id = book.get_id();
    let mut at: usize = 0;
    while at < events.len()
        invariant
            at <= events.len(),
            id@ == book@.id(),
            book@.wf(),
            forall|before: int|
                0 <= before < at ==> (#[trigger] events.deep_view()[before]).id != id@,
        decreases events.len() - at,
    {
        let event = &events[at];
        assert(events.deep_view()[at as int] == event@);
        if event.id == id {
            proof {
                lemma_first_match_is(events.deep_view(), id@, at as int);
            }
            if event.is_up_to_date_with(book) {
                return Action::NoOp(book);
            } else {
                return Action::Update(book, event);
            }
        }
        at += 1;
    }
    proof {
        lemma_no_match(events.deep_view(), id@);
    }
    Action::Create(book)
}

/// Decides for every loan, in the order of the loans, what has to happen in
/// a calendar that holds `events`. Nothing is changed by it.
pub fn reconcile<'a>(books: &'a Vec<Book>, events: &'a Vec<Event>) -> (actions: Vec<Action<'a>>)
    requires
        forall|i: int| 0 <= i < books.len() ==> (#[trigger] books[i])@.wf(),
    ensures
        actions.deep_view() == decisions(books.deep_view(), events.deep_view()),
{
    let mut actions: Vec<Action<'a>> = Vec::new();
    let mut next: usize = 0;
    while next < books.len()
        invariant
            next <= books.len(),
            actions.len() == next,
            forall|i: int| 0 <= i < books.len() ==> (#[trigger] books[i])@.wf(),
            forall|i: int|
                0 <= i < next ==> (#[trigger] actions[i])@ == decision(
                    books[i]@,
                    events.deep_view(),
                ),
        decreases books.len() - next,
    {
        let action = decide(&books[next], events);
        actions.push(action);
        next += 1;
    }
    assert(actions.deep_view() =~= decisions(books.deep_view(), events.deep_view())) by {
        assert forall|i: int| 0 <= i < books.len() implies actions.deep_view()[i] == decision(
            books.deep_view()[i],
            events.deep_view(),
        ) by {
            assert(actions.deep_view()[i] == actions[i]@);
            assert(books.deep_view()[i] == books[i]@);
        }
    }
    actions
}

/// Decides for every loan what has to happen, after making sure that the
/// dates of every loan can be worked with. Where one cannot, nothing is
/// decided.
pub fn try_reconcile<'a>(books: &'a Vec<Book>, events: &'a Vec<Event>) -> (actions: Option<
    Vec<Action<'a>>,
>)
    ensures
        actions is Some <==> forall|i: int| 0 <= i < books.len() ==> (#[trigger] books[i])@.wf(),
        actions matches Some(actions) ==> actions.deep_view() == decisions(
            books.deep_view(),
            events.deep_view(),
        ),
{
    let mut next: usize = 0;
    while next < books.len()
        invariant
            next <= books.len(),
            forall|i: int| 0 <= i < next ==> (#[trigger] books[i])@.wf(),
        decreases books.len() - next,
    {
        if !books[next].is_valid() {
            return None;
        }
        next += 1;
    }
    Some(reconcile(books, events))
}

} // verus!
