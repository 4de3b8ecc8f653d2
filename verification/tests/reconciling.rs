use loan_calendar::book::Book;
use loan_calendar::calendar::{Date, Event, EVENT_KIND};
use loan_calendar::day::Day;
use loan_calendar::reconcile::{decide, reconcile, try_reconcile, Action};

fn at(year: i32, month: u32, day: u32) -> Day {
    Day::new(year, month, day).unwrap()
}

fn item(title: &str, lent: Day, due: Day, is_reserved: bool) -> Book {
    Book {
        is_reserved,
        lender: "Central".to_string(),
        holder: "Reader".to_string(),
        due_date: due,
        lent_date: lent,
        name: title.to_string(),
    }
}

fn sample_loan(is_reserved: bool) -> Book {
    item("Sample Book", at(2024, 1, 10), at(2024, 1, 24), is_reserved)
}

fn held(id: &str, summary: Option<&str>, end: Day, etag: &str) -> Event {
    Event {
        kind: EVENT_KIND.to_string(),
        etag: Some(etag.to_string()),
        id: id.to_string(),
        summary: summary.map(|text| text.to_string()),
        start: Date { date: at(2000, 1, 1) },
        end: Date { date: end },
    }
}

const SAMPLE_ID: &str = "68o34d1d60oiqc9gadgmqs3cckg44rrfdc";

/// Does to a calendar what the actions ask for.
fn carry_out(events: &mut Vec<Event>, pending: Vec<(Option<usize>, Event)>) {
    for (place, event) in pending {
        match place {
            Some(place) => events[place] = event,
            None => events.push(event),
        }
    }
}

/// What the actions ask for: the events to add, and the events to put in the
/// place of the first event with their identifier.
fn pending(actions: &[Action], events: &[Event]) -> Vec<(Option<usize>, Event)> {
    let mut out = Vec::new();
    for action in actions {
        match action {
            Action::Create(book) => out.push((None, Event::from_book(book))),
            Action::Update(book, event) => {
                let mut sent = Event::from_book(book);
                sent.set_etag_from_event(event);
                let place = events.iter().position(|held| held.id == sent.id).unwrap();
                out.push((Some(place), sent));
            }
            Action::NoOp(_) => {}
        }
    }
    out
}

fn settle(books: &Vec<Book>, events: &mut Vec<Event>) {
    let changes = pending(&reconcile(books, events), events);
    carry_out(events, changes);
}

#[test]
fn a_loan_without_an_event_is_created() {
    let books = vec![sample_loan(false)];
    let events = vec![];
    let actions = reconcile(&books, &events);
    assert_eq!(actions.len(), 1);
    assert!(matches!(actions[0], Action::Create(book) if std::ptr::eq(book, &books[0])));
    assert_eq!(books[0].get_id(), SAMPLE_ID);
}

#[test]
fn events_of_other_loans_do_not_count() {
    let books = vec![sample_loan(false)];
    let events = vec![
        held("68o34d1d60oiqc9gadgmqs3cckg44rrfdd", Some("Sample Book"), at(2024, 1, 25), "\"1\""),
        held("", Some("Sample Book"), at(2024, 1, 25), "\"2\""),
        held("68O34D1D60OIQC9GADGMQS3CCKG44RRFDC", Some("Sample Book"), at(2024, 1, 25), "\"3\""),
    ];
    assert!(matches!(reconcile(&books, &events)[0], Action::Create(_)));
}

#[test]
fn a_reservation_that_the_event_does_not_show_is_an_update() {
    let books = vec![sample_loan(true)];
    let events = vec![held(SAMPLE_ID, Some("Sample Book"), at(2024, 1, 25), "\"7\"")];
    let actions = reconcile(&books, &events);
    assert_eq!(actions.len(), 1);
    assert!(matches!(
        actions[0],
        Action::Update(book, event) if std::ptr::eq(book, &books[0]) && std::ptr::eq(event, &events[0])
    ));
}

#[test]
fn an_event_that_shows_the_loan_is_left_alone() {
    let books = vec![sample_loan(true)];
    let events = vec![held(SAMPLE_ID, Some("[予約有] Sample Book"), at(2024, 1, 25), "\"7\"")];
    let actions = reconcile(&books, &events);
    assert_eq!(actions.len(), 1);
    assert!(matches!(actions[0], Action::NoOp(book) if std::ptr::eq(book, &books[0])));
}

#[test]
fn a_changed_due_date_is_an_update() {
    let events = vec![held(SAMPLE_ID, Some("Sample Book"), at(2024, 1, 25), "\"7\"")];
    let unchanged = sample_loan(false);
    assert!(matches!(decide(&unchanged, &events), Action::NoOp(_)));
    let mut later = sample_loan(false);
    later.due_date = at(2024, 2, 7);
    assert!(matches!(decide(&later, &events), Action::Update(_, event) if std::ptr::eq(event, &events[0])));
    let mut earlier = sample_loan(false);
    earlier.due_date = at(2024, 1, 23);
    assert!(matches!(decide(&earlier, &events), Action::Update(_, _)));
}

#[test]
fn a_changed_reservation_is_an_update() {
    let events = vec![held(SAMPLE_ID, Some("Sample Book"), at(2024, 1, 25), "\"7\"")];
    assert!(matches!(decide(&sample_loan(false), &events), Action::NoOp(_)));
    assert!(matches!(decide(&sample_loan(true), &events), Action::Update(_, _)));
    let marked = vec![held(SAMPLE_ID, Some("[予約有] Sample Book"), at(2024, 1, 25), "\"7\"")];
    assert!(matches!(decide(&sample_loan(true), &marked), Action::NoOp(_)));
    assert!(matches!(decide(&sample_loan(false), &marked), Action::Update(_, _)));
}

#[test]
fn lender_and_holder_change_nothing() {
    let events = vec![held(SAMPLE_ID, Some("Sample Book"), at(2024, 1, 25), "\"7\"")];
    let mut moved = sample_loan(false);
    moved.lender = "Branch".to_string();
    moved.holder = "Other".to_string();
    assert!(matches!(decide(&moved, &events), Action::NoOp(_)));
}

#[test]
fn the_first_of_two_events_with_one_id_decides() {
    let book = sample_loan(false);
    let stale_first = vec![
        held("other", Some("x"), at(2024, 1, 25), "\"0\""),
        held(SAMPLE_ID, Some("Sample Book"), at(2024, 1, 20), "\"first\""),
        held(SAMPLE_ID, Some("Sample Book"), at(2024, 1, 25), "\"second\""),
    ];
    assert!(matches!(
        decide(&book, &stale_first),
        Action::Update(_, event) if std::ptr::eq(event, &stale_first[1])
    ));
    let current_first = vec![
        held(SAMPLE_ID, Some("Sample Book"), at(2024, 1, 25), "\"first\""),
        held(SAMPLE_ID, Some("Sample Book"), at(2024, 1, 20), "\"second\""),
        held(SAMPLE_ID, Some("[予約有] Sample Book"), at(2024, 1, 25), "\"third\""),
    ];
    assert!(matches!(decide(&book, &current_first), Action::NoOp(_)));
}

#[test]
fn actions_come_in_the_order_of_the_loans() {
    let books = vec![
        item("One", at(2024, 1, 1), at(2024, 1, 15), false),
        sample_loan(false),
        item("Three", at(2024, 1, 3), at(2024, 1, 17), true),
        sample_loan(true),
    ];
    let events = vec![held(SAMPLE_ID, Some("Sample Book"), at(2024, 1, 25), "\"7\"")];
    let actions = reconcile(&books, &events);
    assert_eq!(actions.len(), 4);
    assert!(matches!(actions[0], Action::Create(book) if std::ptr::eq(book, &books[0])));
    assert!(matches!(actions[1], Action::NoOp(book) if std::ptr::eq(book, &books[1])));
    assert!(matches!(actions[2], Action::Create(book) if std::ptr::eq(book, &books[2])));
    assert!(matches!(actions[3], Action::Update(book, _) if std::ptr::eq(book, &books[3])));
}

#[test]
fn no_loans_give_no_actions() {
    let events = vec![held(SAMPLE_ID, Some("Sample Book"), at(2024, 1, 25), "\"7\"")];
    assert!(reconcile(&vec![], &events).is_empty());
    assert!(reconcile(&vec![], &vec![]).is_empty());
}

#[test]
fn reconcile_gives_the_same_actions_every_time() {
    let books = vec![sample_loan(true), item("Two", at(2024, 1, 2), at(2024, 1, 16), false)];
    let events = vec![held(SAMPLE_ID, Some("Sample Book"), at(2024, 1, 25), "\"7\"")];
    let first = format!("{:?}", reconcile(&books, &events));
    assert_eq!(format!("{:?}", reconcile(&books, &events)), first);
}

#[test]
fn a_second_look_finds_nothing_left_to_do() {
    let books = vec![
        item("One", at(2024, 1, 1), at(2024, 1, 15), false),
        sample_loan(true),
        item("Three", at(2024, 1, 3), at(2024, 1, 17), true),
        item("Four", at(2024, 1, 4), at(2024, 2, 29), false),
    ];
    let three = books[2].get_id();
    let four = books[3].get_id();
    let mut events = vec![
        held("unrelated", Some("Dentist"), at(2024, 3, 1), "\"a\""),
        held(SAMPLE_ID, Some("Sample Book"), at(2024, 1, 20), "\"b\""),
        held(&three, Some("[予約有] Three"), at(2024, 1, 18), "\"c\""),
        held(SAMPLE_ID, Some("duplicate"), at(2024, 1, 1), "\"d\""),
        held(&four, None, at(2024, 3, 1), "\"e\""),
    ];
    let first: Vec<String> =
        reconcile(&books, &events).iter().map(|action| format!("{:?}", action)).collect();
    assert!(first[0].starts_with("Create"));
    assert!(first[1].starts_with("Update"));
    assert!(first[2].starts_with("NoOp"));
    assert!(first[3].starts_with("NoOp"));
    settle(&books, &mut events);
    assert_eq!(events.len(), 6);
    assert_eq!(events[1].etag.as_deref(), Some("b"));
    assert_eq!(events[1].summary.as_deref(), Some("[予約有] Sample Book"));
    assert_eq!(events[3].summary.as_deref(), Some("duplicate"));
    assert_eq!(events[5].summary.as_deref(), Some("One"));
    assert!(reconcile(&books, &events).iter().all(|action| matches!(action, Action::NoOp(_))));
    settle(&books, &mut events);
    assert_eq!(events.len(), 6);
}

#[test]
fn loans_that_share_an_id_and_agree_settle() {
    let long = "B".repeat(50);
    let books = vec![
        item(&format!("{}one", long), at(2024, 1, 10), at(2024, 1, 24), false),
        item(&format!("{}two", long), at(2024, 1, 10), at(2024, 1, 24), false),
    ];
    assert_eq!(books[0].get_id(), books[1].get_id());
    let mut events = vec![];
    settle(&books, &mut events);
    assert_eq!(events.len(), 2);
    assert!(reconcile(&books, &events).iter().all(|action| matches!(action, Action::NoOp(_))));
}

#[test]
fn loans_that_share_an_id_and_differ_never_settle() {
    let long = "B".repeat(50);
    let books = vec![
        item(&format!("{}one", long), at(2024, 1, 10), at(2024, 1, 24), false),
        item(&format!("{}two", long), at(2024, 1, 10), at(2024, 1, 31), false),
    ];
    let mut events = vec![];
    settle(&books, &mut events);
    let again = reconcile(&books, &events);
    assert!(matches!(again[0], Action::NoOp(_)));
    assert!(matches!(again[1], Action::Update(_, _)));
}

#[test]
fn a_title_that_starts_with_the_marker_never_settles_unless_reserved() {
    let books = vec![item("[予約有] as a title", at(2024, 1, 10), at(2024, 1, 24), false)];
    let mut events = vec![];
    settle(&books, &mut events);
    assert!(matches!(reconcile(&books, &events)[0], Action::Update(_, _)));
    let books = vec![item("[予約有] as a title", at(2024, 1, 10), at(2024, 1, 24), true)];
    let mut events = vec![];
    settle(&books, &mut events);
    assert!(matches!(reconcile(&books, &events)[0], Action::NoOp(_)));
}

#[test]
fn a_title_that_holds_the_marker_inside_settles() {
    for is_reserved in [false, true] {
        let books = vec![item("Sample [予約有] Book", at(2024, 1, 10), at(2024, 1, 24), is_reserved)];
        let mut events = vec![];
        settle(&books, &mut events);
        assert_eq!(events.len(), 1);
        assert!(matches!(reconcile(&books, &events)[0], Action::NoOp(_)));
    }
}

#[test]
fn nothing_is_decided_where_a_date_cannot_be_worked_with() {
    let events = vec![held(SAMPLE_ID, Some("Sample Book"), at(2024, 1, 25), "\"7\"")];
    let fine = vec![sample_loan(false), sample_loan(true)];
    let decided = try_reconcile(&fine, &events).unwrap();
    assert_eq!(decided.len(), 2);
    assert!(matches!(decided[0], Action::NoOp(_)));
    assert!(matches!(decided[1], Action::Update(_, _)));
    assert!(try_reconcile(&vec![], &events).unwrap().is_empty());
    let mut off = sample_loan(false);
    off.lent_date.day = 32;
    assert!(try_reconcile(&vec![sample_loan(false), off], &events).is_none());
    let mut last = sample_loan(false);
    last.due_date = at(262142, 12, 31);
    assert!(try_reconcile(&vec![last, sample_loan(false)], &events).is_none());
}
