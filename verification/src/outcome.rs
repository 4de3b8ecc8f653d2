//! What a calendar holds once the actions decided for it were carried out,
//! and when a second look at it finds nothing left to do.

use crate::book::{BookView, RESERVED};
use crate::calendar::EventView;
use crate::reconcile::{
    decision, decisions, first_match, is_first_match, lemma_first_match_is,
    lemma_first_match_none, lemma_first_match_some, ActionView,
};
use vstd::prelude::*;

verus! {

/// The event that is sent for a loan in place of `event`: the event of the
/// loan, with the entity tag of the one it replaces.
pub open spec fn replacement(book: BookView, event: EventView) -> EventView {
    match event.etag {
        Some(tag) => book.event().with_etag(tag),
        None => book.event(),
    }
}

/// The calendar after one action. A new event is added behind the others. A
/// replacement takes the place of the first event with its identifier.
pub open spec fn carried_out(events: Seq<EventView>, action: ActionView) -> Seq<EventView> {
    match action {
        ActionView::Create(book) => events.push(book.event()),
        ActionView::Update(book, event) => match first_match(events, book.id()) {
            Some(at) => events.update(at, replacement(book, event)),
            None => events,
        },
        ActionView::NoOp(_) => events,
    }
}

/// The calendar after the actions, one after the other.
pub open spec fn carried_out_all(events: Seq<EventView>, actions: Seq<ActionView>) -> Seq<
    EventView,
>
    decreases actions.len(),
{
    if actions.len() == 0 {
        events
    } else {
        carried_out(carried_out_all(events, actions.drop_last()), actions.last())
    }
}

/// The calendar after what was decided for the first `count` loans.
pub open spec fn state(books: Seq<BookView>, events: Seq<EventView>, count: int) -> Seq<
    EventView,
> {
    carried_out_all(events, decisions(books, events).take(count))
}

/// Among the first `count` loans, the last with the identifier `id` whose
/// event has to be replaced.
pub open spec fn last_update(
    books: Seq<BookView>,
    events: Seq<EventView>,
    id: Seq<char>,
    count: int,
) -> Option<int>
    decreases count,
{
    if count <= 0 {
        None
    } else if books[count - 1].id() == id && decision(books[count - 1], events) is Update {
        Some(count - 1)
    } else {
        last_update(books, events, id, count - 1)
    }
}

/// Among the first `count` loans, the first with the identifier `id`.
pub open spec fn first_with_id(books: Seq<BookView>, id: Seq<char>, count: int) -> Option<int>
    decreases count,
{
    if count <= 0 {
        None
    } else {
        match first_with_id(books, id, count - 1) {
            Some(found) => Some(found),
            None => if books[count - 1].id() == id {
                Some(count - 1)
            } else {
                None
            },
        }
    }
}

/// The loan whose event stands first for the identifier `id` once all
/// actions were carried out, if an action touches that identifier. Where the
/// calendar held such an event, the last loan that replaces it; where it did
/// not, the first loan that creates one.
pub open spec fn writer(books: Seq<BookView>, events: Seq<EventView>, id: Seq<char>) -> Option<
    int,
> {
    if first_match(events, id) is Some {
        last_update(books, events, id, books.len() as int)
    } else {
        first_with_id(books, id, books.len() as int)
    }
}

/// The event that ends up first for the identifier of the loan `at` shows
/// that loan as it is.
pub open spec fn settles_at(books: Seq<BookView>, events: Seq<EventView>, at: int) -> bool {
    match writer(books, events, books[at].id()) {
        Some(by) => books[by].event().is_up_to_date_with(books[at]),
        None => true,
    }
}

/// Every loan is shown as it is by the event that ends up first for its
/// identifier.
pub open spec fn settles(books: Seq<BookView>, events: Seq<EventView>) -> bool {
    forall|at: int| 0 <= at < books.len() ==> #[trigger] settles_at(books, events, at)
}

/// The summary of the loan reads back as its reservation: the title of a
/// loan that is not reserved does not start with the marker.
pub open spec fn reads_back(book: BookView) -> bool {
    book.is_reserved || !RESERVED@.is_prefix_of(book.name)
}

/// Loans with the same identifier are due on the same day and agree on the
/// reservation.
pub open spec fn agree(books: Seq<BookView>) -> bool {
    forall|i: int, j: int|
        0 <= i < books.len() && 0 <= j < books.len() && (#[trigger] books[i]).id() == (
        #[trigger] books[j]).id() ==> books[i].end_date() == books[j].end_date()
            && books[i].is_reserved == books[j].is_reserved
}

/// One more loan means one more action carried out.
proof fn lemma_state_step(books: Seq<BookView>, events: Seq<EventView>, count: int)
    requires
        0 <= count < books.len(),
    ensures
        state(books, events, count + 1) == carried_out(
            state(books, events, count),
            decision(books[count], events),
        ),
{
    let all = decisions(books, events);
    assert(all.take(count + 1).drop_last() == all.take(count));
    assert(all.take(count + 1).last() == all[count]);
}

/// Events that carry the identifiers of `events` place by place, with more
/// behind them, have the first event of an identifier where `events` has it.
proof fn lemma_match_stays(events: Seq<EventView>, later: Seq<EventView>, id: Seq<char>)
    requires
        later.len() >= events.len(),
        forall|at: int| 0 <= at < events.len() ==> (#[trigger] later[at]).id == events[at].id,
        first_match(events, id) is Some,
    ensures
        first_match(later, id) == first_match(events, id),
{
    lemma_first_match_some(events, id);
    let first = first_match(events, id)->0;
    assert forall|before: int| 0 <= before < first implies (#[trigger] later[before]).id != id by {
        assert(events[before].id != id);
    }
    lemma_first_match_is(later, id, first);
}

/// No action takes an event away or gives a place another identifier.
proof fn lemma_ids_stay(books: Seq<BookView>, events: Seq<EventView>, count: int)
    requires
        0 <= count <= books.len(),
    ensures
        state(books, events, count).len() >= events.len(),
        forall|at: int|
            0 <= at < events.len() ==> (#[trigger] state(books, events, count)[at]).id
                == events[at].id,
    decreases count,
{
    if count > 0 {
        lemma_ids_stay(books, events, count - 1);
        lemma_state_step(books, events, count - 1);
        let before = state(books, events, count - 1);
        let book = books[count - 1];
        if first_match(events, book.id()) is Some {
            lemma_first_match_some(events, book.id());
            lemma_match_stays(events, before, book.id());
        }
    }
}

/// Where the calendar held an event with the identifier, that place holds
/// what the last loan to replace it sent, or still the event that it held.
proof fn lemma_replaced(books: Seq<BookView>, events: Seq<EventView>, id: Seq<char>, count: int)
    requires
        0 <= count <= books.len(),
        first_match(events, id) is Some,
    ensures
        first_match(state(books, events, count), id) == first_match(events, id),
        state(books, events, count)[first_match(events, id)->0] == (match last_update(
            books,
            events,
            id,
            count,
        ) {
            Some(by) => replacement(books[by], events[first_match(events, id)->0]),
            None => events[first_match(events, id)->0],
        }),
    decreases count,
{
    lemma_ids_stay(books, events, count);
    lemma_match_stays(events, state(books, events, count), id);
    lemma_first_match_some(events, id);
    if count > 0 {
        lemma_replaced(books, events, id, count - 1);
        lemma_ids_stay(books, events, count - 1);
        lemma_state_step(books, events, count - 1);
        let before = state(books, events, count - 1);
        let book = books[count - 1];
        if first_match(events, book.id()) is Some {
            lemma_first_match_some(events, book.id());
            lemma_match_stays(events, before, book.id());
        }
    }
}

/// Where the calendar held no event with the identifier, the first event
/// with it is the one that the first loan with it created.
proof fn lemma_created(books: Seq<BookView>, events: Seq<EventView>, id: Seq<char>, count: int)
    requires
        0 <= count <= books.len(),
        first_match(events, id) is None,
    ensures
        match first_with_id(books, id, count) {
            Some(by) => first_match(state(books, events, count), id) is Some && state(
                books,
                events,
                count,
            )[first_match(state(books, events, count), id)->0] == books[by].event(),
            None => first_match(state(books, events, count), id) is None,
        },
    decreases count,
{
    if count > 0 {
        lemma_created(books, events, id, count - 1);
        lemma_ids_stay(books, events, count - 1);
        lemma_state_step(books, events, count - 1);
        let before = state(books, events, count - 1);
        let after = state(books, events, count);
        let book = books[count - 1];
        if first_match(events, book.id()) is Some {
            // The loan has another identifier, and so has the place it may change.
            lemma_first_match_some(events, book.id());
            lemma_match_stays(events, before, book.id());
            let changed = first_match(events, book.id())->0;
            if first_match(before, id) is Some {
                lemma_first_match_some(before, id);
                let first = first_match(before, id)->0;
                assert forall|at: int| 0 <= at < first implies (#[trigger] after[at]).id != id by {
                    assert(before[at].id != id);
                }
                lemma_first_match_is(after, id, first);
            } else {
                lemma_first_match_none(before, id);
                assert forall|at: int| 0 <= at < after.len() implies (#[trigger] after[at]).id
                    != id by {
                    assert(before[at].id != id);
                }
            }
        } else {
            // The loan has no event yet: one is added behind the others.
            assert(after == before.push(book.event()));
            if first_match(before, id) is Some {
                lemma_first_match_some(before, id);
                let first = first_match(before, id)->0;
                assert forall|at: int| 0 <= at < first implies (#[trigger] after[at]).id != id by {
                    assert(before[at].id != id);
                }
                lemma_first_match_is(after, id, first);
            } else {
                lemma_first_match_none(before, id);
                if book.id() == id {
                    assert forall|at: int| 0 <= at < before.len() implies (#[trigger] after[at]).id
                        != id by {
                        assert(before[at].id != id);
                    }
                    lemma_first_match_is(after, id, before.len() as int);
                } else {
                    assert forall|at: int| 0 <= at < after.len() implies (#[trigger] after[at]).id
                        != id by {
                        if at < before.len() {
                            assert(before[at].id != id);
                        }
                    }
                }
            }
        }
    }
}

/// A loan among the first `count` has a first loan with its identifier
/// among them.
proof fn lemma_first_with_id(books: Seq<BookView>, at: int, count: int)
    requires
        0 <= at < count <= books.len(),
    ensures
        first_with_id(books, books[at].id(), count) is Some,
        0 <= first_with_id(books, books[at].id(), count)->0 <= at,
        books[first_with_id(books, books[at].id(), count)->0].id() == books[at].id(),
    decreases count,
{
    if at < count - 1 {
        lemma_first_with_id(books, at, count - 1);
    } else {
        lemma_first_with_id_bounds(books, books[at].id(), count - 1);
    }
}

/// The first loan with an identifier is one of the loans and has the identifier.
proof fn lemma_first_with_id_bounds(books: Seq<BookView>, id: Seq<char>, count: int)
    requires
        0 <= count <= books.len(),
    ensures
        first_with_id(books, id, count) matches Some(found) ==> 0 <= found < count
            && books[found].id() == id,
    decreases count,
{
    if count > 0 {
        lemma_first_with_id_bounds(books, id, count - 1);
    }
}

/// The last loan to replace an event is one of the loans, has the identifier
/// and has to replace; where there is none, no loan with the identifier has to.
proof fn lemma_last_update(
    books: Seq<BookView>,
    events: Seq<EventView>,
    id: Seq<char>,
    count: int,
)
    requires
        0 <= count <= books.len(),
    ensures
        match last_update(books, events, id, count) {
            Some(by) => 0 <= by < count && books[by].id() == id && decision(books[by], events)
                is Update,
            None => forall|at: int|
                0 <= at < count && (#[trigger] books[at]).id() == id ==> !(decision(
                    books[at],
                    events,
                ) is Update),
        },
    decreases count,
{
    if count > 0 {
        lemma_last_update(books, events, id, count - 1);
    }
}

/// What is decided for the loan `at` once all actions were carried out:
/// nothing is left to do exactly if the event that ends up first for its
/// identifier shows it as it is.
pub proof fn lemma_second_look(books: Seq<BookView>, events: Seq<EventView>, at: int)
    requires
        0 <= at < books.len(),
    ensures
        decision(books[at], carried_out_all(events, decisions(books, events))) is NoOp
            <==> settles_at(books, events, at),
{
    let count = books.len() as int;
    let id = books[at].id();
    let all = decisions(books, events);
    assert(all.take(count) == all);
    let after = state(books, events, count);
    if first_match(events, id) is Some {
        lemma_replaced(books, events, id, count);
        lemma_last_update(books, events, id, count);
        lemma_first_match_some(events, id);
        if last_update(books, events, id, count) is None {
            assert(!(decision(books[at], events) is Update));
        }
    } else {
        lemma_created(books, events, id, count);
        lemma_first_with_id(books, at, count);
    }
}

/// Once the actions decided for the loans were carried out, a second look at
/// the calendar finds nothing left to do for any of them.
pub proof fn lemma_converges(books: Seq<BookView>, events: Seq<EventView>)
    requires
        settles(books, events),
    ensures
        forall|at: int|
            0 <= at < books.len() ==> decision(
                #[trigger] books[at],
                carried_out_all(events, decisions(books, events)),
            ) == ActionView::NoOp(books[at]),
{
    assert forall|at: int| 0 <= at < books.len() implies decision(
        #[trigger] books[at],
        carried_out_all(events, decisions(books, events)),
    ) == ActionView::NoOp(books[at]) by {
        assert(settles_at(books, events, at));
        lemma_second_look(books, events, at);
    }
}

/// What is decided reads no more of an event than its identifier, its
/// summary and the day it ends on: in two calendars that agree on these,
/// place by place, the same loans have no event yet and the same loans are
/// shown as they are. The tags that a calendar gives do not count.
pub proof fn lemma_decision_reads(book: BookView, one: Seq<EventView>, other: Seq<EventView>)
    requires
        one.len() == other.len(),
        forall|at: int|
            0 <= at < one.len() ==> (#[trigger] one[at]).id == other[at].id && one[at].summary
                == other[at].summary && one[at].end == other[at].end,
    ensures
        decision(book, one) is Create <==> decision(book, other) is Create,
        decision(book, one) is NoOp <==> decision(book, other) is NoOp,
        decision(book, one) is Update <==> decision(book, other) is Update,
{
    let id = book.id();
    if first_match(one, id) is Some {
        lemma_first_match_some(one, id);
        lemma_match_stays(one, other, id);
    } else {
        lemma_first_match_none(one, id);
        assert forall|at: int| 0 <= at < other.len() implies (#[trigger] other[at]).id != id by {
            assert(one[at].id != id);
        }
    }
}

/// The marker stands at the start of the summary of a reserved loan, so the
/// summary of a loan reads back as its reservation wherever the title of a
/// loan that is not reserved does not start with the marker.
pub proof fn lemma_reads_back(book: BookView)
    requires
        reads_back(book),
    ensures
        book.event().is_marked_as_reserved() == book.is_reserved,
{
    if book.is_reserved {
        let summary = RESERVED@ + book.name;
        assert(summary.subrange(0, RESERVED@.len() as int) == RESERVED@);
    }
}

/// Loans that agree wherever they share an identifier, with summaries that
/// read back as their reservation, are all shown as they are in the end.
pub proof fn lemma_settles(books: Seq<BookView>, events: Seq<EventView>)
    requires
        agree(books),
        forall|at: int| 0 <= at < books.len() ==> reads_back(#[trigger] books[at]),
    ensures
        settles(books, events),
{
    assert forall|at: int| 0 <= at < books.len() implies #[trigger] settles_at(
        books,
        events,
        at,
    ) by {
        let id = books[at].id();
        let count = books.len() as int;
        lemma_last_update(books, events, id, count);
        lemma_first_with_id_bounds(books, id, count);
        if writer(books, events, id) is Some {
            let by = writer(books, events, id)->0;
            lemma_reads_back(books[by]);
        }
    }
}

} // verus!
