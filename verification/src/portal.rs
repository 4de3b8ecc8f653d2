//! What the lending portal is asked for and how the page with its table of
//! loans is read.

use crate::book::{Book, BookView};
use crate::day::{parse_day, parsed_day};
use crate::text::{join, remove_chars, same_text, without};
use scraper::{ElementRef, Html, Selector};
use vstd::prelude::*;
use vstd::string::*;

verus! {

/// Where the portal takes the login, behind its base address.
pub const LOGIN_PATH: &'static str = "/comidf.do";

/// Where the portal lists the loans, behind its base address.
pub const LOANS_PATH: &'static str = "/lenlst.do";

/// The field that asks the portal for a number of loans on one page.
pub const LIST_COUNT_FIELD: &'static str = "listcnt";

/// How many loans the portal is asked for.
pub const LIST_COUNT: &'static str = "20";

/// What the table of loans shows in the cell of a reserved loan.
pub const RESERVED_CELL: &'static str = "予約有";

/// How the table of loans writes a day.
pub const DATE_FORMAT: &'static str = "%Y/%m/%d";

/// What picks the table of loans out of the page.
pub const TABLE_SELECTOR: &'static str = "table[class=\"opac_data_list_ex\"]";

/// What picks the rows out of the table.
pub const ROW_SELECTOR: &'static str = "tr";

/// How many cells of a row are read.
pub const ROW_CELLS: usize = 8;

/// Why a row of the table gives no loan.
#[derive(Debug, PartialEq, Eq)]
pub enum RowError {
    /// The row has fewer than eight cells.
    MissingCell,
    /// The sixth cell does not hold a day.
    DueDate,
    /// The seventh cell does not hold a day.
    LentDate,
}

/// Why a page gives no loans.
#[derive(Debug, PartialEq, Eq)]
pub enum PageError {
    /// What should pick the table or its rows is not a selector.
    Selector,
    /// The page holds no table of loans.
    NoTable,
    /// A row of the table gives no loan.
    Row(RowError),
}

/// What scraper finds in `page`: for the first element that the selector
/// `table` picks, the elements below it that the selector `row` picks, and
/// for each of them the text inside each of its child elements.
pub uninterp spec fn page_table(page: Seq<char>, table: Seq<char>, row: Seq<char>) -> Result<
    Seq<Seq<Seq<char>>>,
    PageError,
>;

/// The loan that a row of the table stands for. The third cell tells whether
/// the loan is reserved; the fourth and fifth name lender and holder; the
/// sixth and seventh hold the day the item is due and the day it was lent;
/// the eighth holds the title.
pub open spec fn row_book(cells: Seq<Seq<char>>) -> Result<BookView, RowError> {
    if cells.len() < ROW_CELLS {
        Err(RowError::MissingCell)
    } else {
        match parsed_day(cells[5], DATE_FORMAT@) {
            None => Err(RowError::DueDate),
            Some(due_date) => match parsed_day(cells[6], DATE_FORMAT@) {
                None => Err(RowError::LentDate),
                Some(lent_date) => Ok(
                    BookView {
                        is_reserved: cells[2] == RESERVED_CELL@,
                        lender: cells[3],
                        holder: cells[4],
                        due_date,
                        lent_date,
                        name: cells[7],
                    },
                ),
            },
        }
    }
}

/// The text of a cell without its line breaks and tabs.
pub open spec fn cell_text(raw: Seq<char>) -> Seq<char> {
    without(raw, '\n', '\t')
}

/// The texts of the cells of a row.
pub open spec fn row_texts(raw: Seq<Seq<char>>) -> Seq<Seq<char>> {
    Seq::new(raw.len(), |i: int| cell_text(raw[i]))
}

/// The loans that rows stand for, in the order of the rows; the error of the
/// first row that gives no loan, where there is one.
pub open spec fn rows_books(rows: Seq<Seq<Seq<char>>>) -> Result<Seq<BookView>, RowError>
    decreases rows.len(),
{
    if rows.len() == 0 {
        Ok(Seq::empty())
    } else {
        match rows_books(rows.drop_last()) {
            Err(error) => Err(error),
            Ok(books) => match row_book(row_texts(rows.last())) {
                Err(error) => Err(error),
                Ok(book) => Ok(books.push(book)),
            },
        }
    }
}

/// The loans that a table stands for. Its first row holds the headings.
pub open spec fn table_books(rows: Seq<Seq<Seq<char>>>) -> Result<Seq<BookView>, RowError> {
    if rows.len() == 0 {
        Ok(Seq::empty())
    } else {
        rows_books(rows.skip(1))
    }
}

/// The loans in a result, as contracts see them.
pub open spec fn books_result(read: Result<Vec<Book>, RowError>) -> Result<
    Seq<BookView>,
    RowError,
> {
    match read {
        Ok(books) => Ok(books.deep_view()),
        Err(error) => Err(error),
    }
}

/// A row that gives no loan stops the reading of every longer table.
proof fn lemma_error_stays(rows: Seq<Seq<Seq<char>>>, count: int)
    requires
        0 <= count <= rows.len(),
        rows_books(rows.take(count)) is Err,
    ensures
        rows_books(rows) == rows_books(rows.take(count)),
    decreases rows.len(),
{
    if count < rows.len() {
        assert(rows.drop_last().take(count) == rows.take(count));
        lemma_error_stays(rows.drop_last(), count);
    } else {
        assert(rows.take(count) == rows);
    }
}

/// The loans of the table that the selectors pick out of a page.
pub open spec fn selected_books(page: Seq<char>, table: Seq<char>, row: Seq<char>) -> Result<
    Seq<BookView>,
    PageError,
> {
    match page_table(page, table, row) {
        Err(error) => Err(error),
        Ok(rows) => match table_books(rows) {
            Err(error) => Err(PageError::Row(error)),
            Ok(books) => Ok(books),
        },
    }
}

/// The loans that the page of the portal stands for.
pub open spec fn page_books(page: Seq<char>) -> Result<Seq<BookView>, PageError> {
    selected_books(page, TABLE_SELECTOR@, ROW_SELECTOR@)
}

/// The texts in a result, as contracts see them.
pub open spec fn table_result(found: Result<Vec<Vec<String>>, PageError>) -> Result<
    Seq<Seq<Seq<char>>>,
    PageError,
> {
    match found {
        Ok(rows) => Ok(rows.deep_view()),
        Err(error) => Err(error),
    }
}

/// The loans in a result, as contracts see them.
pub open spec fn page_result(read: Result<Vec<Book>, PageError>) -> Result<
    Seq<BookView>,
    PageError,
> {
    match read {
        Ok(books) => Ok(books.deep_view()),
        Err(error) => Err(error),
    }
}

/// The loan in a result, as contracts see it.
pub open spec fn book_result(read: Result<Book, RowError>) -> Result<BookView, RowError> {
    match read {
        Ok(book) => Ok(book@),
        Err(error) => Err(error),
    }
}

/// The address that takes the login.
pub fn login_url(base_url: &str) -> (url: String)
    ensures
        url@ == base_url@ + LOGIN_PATH@,
{
    join(base_url, LOGIN_PATH)
}

/// The address that lists the loans.
pub fn loans_url(base_url: &str) -> (url: String)
    ensures
        url@ == base_url@ + LOANS_PATH@,
{
    join(base_url, LOANS_PATH)
}

/// Reads the loan that a row of the table stands for from the texts of the
/// row's cells. The days of a loan that was read are days of the calendar.
pub fn book_from_row(cells: &Vec<String>) -> (read: Result<Book, RowError>)
    ensures
        book_result(read) == row_book(cells.deep_view()),
        read matches Ok(book) ==> book.due_date.wf() && book.lent_date.wf(),
{
    if cells.len() < ROW_CELLS {
        return Err(RowError::MissingCell);
    }
    let ghost texts = cells.deep_view();
    assert(texts[2] == cells[2]@ && texts[3] == cells[3]@ && texts[4] == cells[4]@);
    assert(texts[5] == cells[5]@ && texts[6] == cells[6]@ && texts[7] == cells[7]@);
    let due_date = match parse_day(cells[5].as_str(), DATE_FORMAT) {
        Some(day) => day,
        None => {
            return Err(RowError::DueDate);
        },
    };
    let lent_date = match parse_day(cells[6].as_str(), DATE_FORMAT) {
        Some(day) => day,
        None => {
            return Err(RowError::LentDate);
        },
    };
    Ok(
        Book {
            is_reserved: same_text(cells[2].as_str(), RESERVED_CELL),
            lender: cells[3].clone(),
            holder: cells[4].clone(),
            due_date,
            lent_date,
            name: cells[7].clone(),
        },
    )
}

/// The texts of the cells of a row, without line breaks and tabs.
pub fn clean_row(raw: &Vec<String>) -> (cells: Vec<String>)
    ensures
        cells.deep_view() == row_texts(raw.deep_view()),
{
    let mut cells: Vec<String> = Vec::new();
    let mut at: usize = 0;
    while at < raw.len()
        invariant
            at <= raw.len(),
            cells.len() == at,
            forall|i: int| 0 <= i < at ==> (#[trigger] cells[i])@ == cell_text(raw[i]@),
        decreases raw.len() - at,
    {
        cells.push(remove_chars(raw[at].as_str(), '\n', '\t'));
        at += 1;
    }
    assert(cells.deep_view() =~= row_texts(raw.deep_view())) by {
        assert forall|i: int| 0 <= i < raw.len() implies cells.deep_view()[i] == row_texts(
            raw.deep_view(),
        )[i] by {
            assert(cells.deep_view()[i] == cells[i]@);
            assert(raw.deep_view()[i] == raw[i]@);
        }
    }
    cells
}

/// Reads the loans of the table of loans from the texts of its cells, row by
/// row. The first row holds the headings and is passed over. The first row
/// that gives no loan ends the reading with its error.
pub fn books_from_table(rows: &Vec<Vec<String>>) -> (read: Result<Vec<Book>, RowError>)
    ensures
        books_result(read) == table_books(rows.deep_view()),
        read matches Ok(books) ==> forall|i: int|
            0 <= i < books.len() ==> (#[trigger] books[i]).due_date.wf() && books[i].lent_date.wf(),
{
    let mut books: Vec<Book> = Vec::new();
    if rows.len() == 0 {
        assert(books.deep_view() =~= Seq::<BookView>::empty());
        return Ok(books);
    }
    let ghost body = rows.deep_view().skip(1);
    let mut at: usize = 1;
    assert(body.take(0) =~= Seq::<Seq<Seq<char>>>::empty());
    assert(books.deep_view() =~= Seq::<BookView>::empty());
    while at < rows.len()
        invariant
            1 <= at <= rows.len(),
            body == rows.deep_view().skip(1),
            rows_books(body.take(at - 1)) == Ok::<Seq<BookView>, RowError>(books.deep_view()),
            forall|i: int|
                0 <= i < books.len() ==> (#[trigger] books[i]).due_date.wf()
                    && books[i].lent_date.wf(),
        decreases rows.len() - at,
    {
        let cells = clean_row(&rows[at]);
        let ghost seen = body.take(at as int);
        assert(seen.drop_last() == body.take(at - 1));
        assert(seen.last() == rows[at as int].deep_view());
        match book_from_row(&cells) {
            Ok(book) => {
                let ghost before = books.deep_view();
                books.push(book);
                assert(books.deep_view() =~= before.push(book@));
            },
            Err(error) => {
                proof {
                    lemma_error_stays(body, at as int);
                }
                return Err(error);
            },
        }
        at += 1;
    }
    assert(body.take(at - 1) == body);
    Ok(books)
}

/// Walks a page with scraper. `Html::parse_document` reads the page and
/// `Selector::parse` the two selectors; `select` picks the first table and
/// its rows, `child_elements` the cells of a row; the text of a cell is what
/// `text` finds in the cell's inner HTML, read again by `Html::parse_fragment`.
#[verifier::external_body]
fn table_texts(page: &str, table: &str, row: &str) -> (found: Result<Vec<Vec<String>>, PageError>)
    ensures
        table_result(found) == page_table(page@, table@, row@),
{
    let document = Html::parse_document(page);
    let (table, row) = match (Selector::parse(table), Selector::parse(row)) {
        (Ok(table), Ok(row)) => (table, row),
        _ => return Err(PageError::Selector),
    };
    let text = |cell: ElementRef| -> String {
        Html::parse_fragment(&cell.inner_html()).root_element().text().collect()
    };
    let cells = |row: ElementRef| -> Vec<String> { row.child_elements().map(text).collect() };
    match document.select(&table).next() {
        Some(found) => Ok(found.select(&row).map(cells).collect()),
        None => Err(PageError::NoTable),
    }
}

/// Reads the loans of the table that the selector `table` picks out of a
/// page; the selector `row` picks the rows out of the table.
pub fn books_from_selected(page: &str, table: &str, row: &str) -> (read: Result<
    Vec<Book>,
    PageError,
>)
    ensures
        page_result(read) == selected_books(page@, table@, row@),
        read matches Ok(books) ==> forall|i: int|
            0 <= i < books.len() ==> (#[trigger] books[i]).due_date.wf() && books[i].lent_date.wf(),
{
    match table_texts(page, table, row) {
        Err(error) => Err(error),
        Ok(rows) => match books_from_table(&rows) {
            Ok(books) => Ok(books),
            Err(error) => Err(PageError::Row(error)),
        },
    }
}

/// Reads the loans from the page of the portal that lists them.
pub fn books_from_page(page: &str) -> (read: Result<Vec<Book>, PageError>)
    ensures
        page_result(read) == page_books(page@),
        read matches Ok(books) ==> forall|i: int|
            0 <= i < books.len() ==> (#[trigger] books[i]).due_date.wf() && books[i].lent_date.wf(),
{
    books_from_selected(page, TABLE_SELECTOR, ROW_SELECTOR)
}

} // verus!
