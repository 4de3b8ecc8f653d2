use loan_calendar::book::Book;
use loan_calendar::calendar::{event_url, events_url, Date, Event, EVENT_KIND};
use loan_calendar::day::Day;

fn on(year: i32, month: u32, day: u32) -> Date {
    Date { date: Day::new(year, month, day).unwrap() }
}

fn borrowed(title: &str, is_reserved: bool) -> Book {
    Book {
        is_reserved,
        lender: "Central".to_string(),
        holder: "Reader".to_string(),
        due_date: on(2024, 1, 24).date,
        lent_date: on(2024, 1, 10).date,
        name: title.to_string(),
    }
}

fn stored(summary: Option<&str>, end: Date, etag: Option<&str>) -> Event {
    Event {
        kind: EVENT_KIND.to_string(),
        etag: etag.map(|tag| tag.to_string()),
        id: "68o34d1d60oiqc9gadgmqs3cckg44rrfdc".to_string(),
        summary: summary.map(|text| text.to_string()),
        start: on(2024, 1, 24),
        end,
    }
}

#[test]
fn from_book_fills_every_field() {
    let event = Event::from_book(&borrowed("Sample Book", false));
    assert_eq!(event.kind, "calendar#event");
    assert_eq!(event.etag, None);
    assert_eq!(event.id, "68o34d1d60oiqc9gadgmqs3cckg44rrfdc");
    assert_eq!(event.summary.as_deref(), Some("Sample Book"));
    assert_eq!(event.start, on(2024, 1, 24));
    assert_eq!(event.end, on(2024, 1, 25));
}

#[test]
fn from_book_marks_a_reserved_loan_in_the_summary() {
    let event = Event::from_book(&borrowed("Sample Book", true));
    assert_eq!(event.summary.as_deref(), Some("[予約有] Sample Book"));
    assert!(event.is_marked_as_reserved());
    assert!(!Event::from_book(&borrowed("Sample Book", false)).is_marked_as_reserved());
}

#[test]
fn from_book_keeps_the_whole_title_in_the_summary() {
    let title = "T".repeat(80);
    let event = Event::from_book(&borrowed(&title, false));
    assert_eq!(event.summary, Some(title));
}

#[test]
fn set_etag_takes_the_tag_without_its_quotes() {
    let mut event = Event::from_book(&borrowed("Sample Book", false));
    event.set_etag_from_event(&stored(Some("old"), on(2024, 1, 20), Some("\"3381924838430000\"")));
    assert_eq!(event.etag.as_deref(), Some("3381924838430000"));
    assert_eq!(event.summary.as_deref(), Some("Sample Book"));
    assert_eq!(event.end, on(2024, 1, 25));
    assert_eq!(event.id, "68o34d1d60oiqc9gadgmqs3cckg44rrfdc");
}

#[test]
fn set_etag_keeps_quotes_inside_the_tag_and_takes_a_bare_tag_as_it_is() {
    let mut event = Event::from_book(&borrowed("Sample Book", false));
    event.set_etag_from_event(&stored(None, on(2024, 1, 20), Some("\"\"a\"b\"")));
    assert_eq!(event.etag.as_deref(), Some("a\"b"));
    event.set_etag_from_event(&stored(None, on(2024, 1, 20), Some("bare")));
    assert_eq!(event.etag.as_deref(), Some("bare"));
    event.set_etag_from_event(&stored(None, on(2024, 1, 20), Some("\"\"")));
    assert_eq!(event.etag.as_deref(), Some(""));
}

#[test]
fn the_marker_counts_at_the_start_of_the_summary_only() {
    assert!(stored(Some("[予約有] Sample Book"), on(2024, 1, 25), None).is_marked_as_reserved());
    assert!(stored(Some("[予約有] "), on(2024, 1, 25), None).is_marked_as_reserved());
    assert!(stored(Some("[予約有] [予約有] twice"), on(2024, 1, 25), None).is_marked_as_reserved());
    assert!(!stored(Some("Sample [予約有] Book"), on(2024, 1, 25), None).is_marked_as_reserved());
    assert!(!stored(Some(" [予約有] Sample Book"), on(2024, 1, 25), None).is_marked_as_reserved());
    assert!(!stored(Some("Sample Book[予約有] "), on(2024, 1, 25), None).is_marked_as_reserved());
    assert!(!stored(Some("[予約有]Sample Book"), on(2024, 1, 25), None).is_marked_as_reserved());
    assert!(!stored(Some("[予約有]"), on(2024, 1, 25), None).is_marked_as_reserved());
    assert!(!stored(Some("[予約"), on(2024, 1, 25), None).is_marked_as_reserved());
    assert!(!stored(Some("Sample Book"), on(2024, 1, 25), None).is_marked_as_reserved());
    assert!(!stored(Some(""), on(2024, 1, 25), None).is_marked_as_reserved());
}

#[test]
fn a_marker_inside_the_summary_leaves_a_plain_loan_up_to_date() {
    let inside = stored(Some("Sample [予約有] Book"), on(2024, 1, 25), None);
    assert!(inside.is_up_to_date_with(&borrowed("Sample [予約有] Book", false)));
    assert!(!inside.is_up_to_date_with(&borrowed("Sample [予約有] Book", true)));
}

#[test]
fn an_event_without_a_summary_is_not_marked() {
    assert!(!stored(None, on(2024, 1, 25), None).is_marked_as_reserved());
}

#[test]
fn up_to_date_needs_the_end_date_and_the_marker_to_fit() {
    let plain = borrowed("Sample Book", false);
    let reserved = borrowed("Sample Book", true);
    let unmarked = stored(Some("Sample Book"), on(2024, 1, 25), None);
    let marked = stored(Some("[予約有] Sample Book"), on(2024, 1, 25), None);
    let early = stored(Some("Sample Book"), on(2024, 1, 24), None);
    assert!(unmarked.is_up_to_date_with(&plain));
    assert!(!unmarked.is_up_to_date_with(&reserved));
    assert!(marked.is_up_to_date_with(&reserved));
    assert!(!marked.is_up_to_date_with(&plain));
    assert!(!early.is_up_to_date_with(&plain));
    assert!(!stored(None, on(2024, 1, 25), None).is_up_to_date_with(&reserved));
    assert!(stored(None, on(2024, 1, 25), None).is_up_to_date_with(&plain));
}

#[test]
fn up_to_date_does_not_look_at_start_kind_or_tag() {
    let mut event = stored(Some("Sample Book"), on(2024, 1, 25), Some("\"1\""));
    event.start = on(1999, 9, 9);
    event.kind = "something".to_string();
    assert!(event.is_up_to_date_with(&borrowed("Sample Book", false)));
}

#[test]
fn addresses_are_built_from_the_calendar_and_the_identifier() {
    assert_eq!(
        events_url("primary"),
        "https://www.googleapis.com/calendar/v3/calendars/primary/events"
    );
    assert_eq!(
        event_url("abc@group.calendar.google.com", "68o34d1d"),
        "https://www.googleapis.com/calendar/v3/calendars/abc@group.calendar.google.com/events/68o34d1d"
    );
    assert_eq!(events_url(""), "https://www.googleapis.com/calendar/v3/calendars//events");
}
