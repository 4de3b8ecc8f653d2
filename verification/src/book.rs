//! Loans, the summary shown for a loan and the identifier that names it.

use crate::calendar::Date;
use crate::day::{
    following, iso_string, lemma_iso_text_ascii, lemma_iso_text_len, lemma_succ_wf, Day,
};
use crate::text::{
    ascii_lowercase, lemma_trim_end, lowercase, prefix, take_chars, trim_end, trim_end_matches,
};
use vstd::prelude::*;
use vstd::string::*;
use vstd::utf8::*;

verus! {

/// What a summary starts with when the loan is reserved by someone else.
pub const RESERVED: &'static str = "[予約有] ";

/// How many characters of the title go into the identifier.
pub const TITLE_CHARS: usize = 50;

/// One borrowed item.
#[derive(Debug)]
pub struct Book {
    /// Someone else waits for the item.
    pub is_reserved: bool,
    /// Who lent the item. Nothing is decided by it.
    pub lender: String,
    /// Who holds the item. Nothing is decided by it.
    pub holder: String,
    /// The day the item has to be back.
    pub due_date: Day,
    /// The day the loan began.
    pub lent_date: Day,
    /// The title of the item.
    pub name: String,
}

/// A loan as contracts see it.
pub struct BookView {
    pub is_reserved: bool,
    pub lender: Seq<char>,
    pub holder: Seq<char>,
    pub due_date: Day,
    pub lent_date: Day,
    pub name: Seq<char>,
}

impl View for Book {
    type V = BookView;

    open spec fn view(&self) -> BookView {
        BookView {
            is_reserved: self.is_reserved,
            lender: self.lender@,
            holder: self.holder@,
            due_date: self.due_date,
            lent_date: self.lent_date,
            name: self.name@,
        }
    }
}

/// What `BASE32HEX.encode` of data-encoding makes of `bytes`: their padded
/// base32 text in the extended hex alphabet of RFC 4648.
pub uninterp spec fn base32hex(bytes: Seq<u8>) -> Seq<char>;

/// A character of the extended hex alphabet.
pub open spec fn is_symbol(c: char) -> bool {
    ('0' <= c && c <= '9') || ('A' <= c && c <= 'V')
}

/// A character that an identifier is made of.
pub open spec fn is_id_char(c: char) -> bool {
    ('0' <= c && c <= '9') || ('a' <= c && c <= 'v')
}

/// How many symbols the code of `count` bytes holds: one for every five
/// bits, the last of them filled up.
pub open spec fn symbol_count(count: nat) -> nat {
    ((8 * count + 4) / 5) as nat
}

/// How long the code of `count` bytes is with its padding: eight characters
/// for every five bytes, the last five filled up.
pub open spec fn code_len(count: nat) -> nat {
    (8 * ((count + 4) / 5)) as nat
}

/// `code` has the shape of the code of `count` bytes: as many symbols of the
/// extended hex alphabet as the bytes need, then `=` up to its length.
pub open spec fn is_code_of(code: Seq<char>, count: nat) -> bool {
    &&& code.len() == code_len(count)
    &&& forall|i: int| 0 <= i < symbol_count(count) ==> is_symbol(#[trigger] code[i])
    &&& forall|i: int| symbol_count(count) <= i < code.len() ==> (#[trigger] code[i]) == '='
}

/// The identifier that is made of an encoded key: the code without its
/// padding, in small letters.
pub open spec fn id_of_code(code: Seq<char>) -> Seq<char> {
    lowercase(trim_end(code, '='))
}

impl DeepView for Book {
    type V = BookView;

    open spec fn deep_view(&self) -> BookView {
        self@
    }
}

impl BookView {
    /// The dates can be written and the due date has a day after it.
    pub open spec fn wf(&self) -> bool {
        self.lent_date.wf() && self.due_date.wf() && !self.due_date.is_last()
    }

    /// The text shown for the loan.
    pub open spec fn summary(&self) -> Seq<char> {
        if self.is_reserved {
            RESERVED@ + self.name
        } else {
            self.name
        }
    }

    /// What tells the loan from others: the day it began and the start of its title.
    pub open spec fn key(&self) -> Seq<char> {
        self.lent_date.iso_text() + prefix(self.name, TITLE_CHARS as nat)
    }

    /// How many bytes the key takes: those of the day, one for each of its
    /// characters, and those of the start of the title.
    pub open spec fn key_len(&self) -> nat {
        self.lent_date.iso_text().len() + encode_utf8(prefix(self.name, TITLE_CHARS as nat)).len()
    }

    /// The identifier of the loan.
    pub open spec fn id(&self) -> Seq<char> {
        id_of_code(base32hex(encode_utf8(self.key())))
    }

    /// The day the event of the loan starts on: the day the item is due.
    pub open spec fn start_date(&self) -> Date {
        Date { date: self.due_date }
    }

    /// The day the event of the loan ends before: the day after the item is due.
    pub open spec fn end_date(&self) -> Date {
        Date { date: self.due_date.succ() }
    }
}

/// Calls `BASE32HEX.encode` of data-encoding. The text that comes back has
/// eight characters for every five bytes begun. It starts with one of the
/// thirty-two symbols `0` to `9` and `A` to `V` for every five bits begun,
/// and is filled up with `=`. The call fails on an input longer than
/// `usize::MAX / 512`.
#[verifier::external_body]
fn encode_base32hex(bytes: &[u8]) -> (code: String)
    requires
        bytes@.len() <= usize::MAX / 512,
    ensures
        code@ == base32hex(bytes@),
        is_code_of(code@, bytes@.len()),
{
    data_encoding::BASE32HEX.encode(bytes)
}

/// Every character takes at least one byte and at most four.
pub proof fn lemma_encode_utf8_len(chars: Seq<char>)
    ensures
        chars.len() <= encode_utf8(chars).len() <= 4 * chars.len(),
    decreases chars.len(),
{
    if chars.len() > 0 {
        lemma_encode_utf8_len(chars.drop_first());
    }
}

/// The bytes of two texts in a row are the bytes of the first followed by
/// the bytes of the second.
pub proof fn lemma_encode_utf8_add(first: Seq<char>, second: Seq<char>)
    ensures
        encode_utf8(first + second) == encode_utf8(first) + encode_utf8(second),
    decreases first.len(),
{
    if first.len() == 0 {
        assert(first + second == second);
    } else {
        lemma_encode_utf8_add(first.drop_first(), second);
        assert((first + second).drop_first() == first.drop_first() + second);
    }
}

/// The key of a loan takes as many bytes as `key_len` says: at least ten,
/// and no more than 213.
pub proof fn lemma_key_len(book: BookView)
    requires
        book.lent_date.wf(),
    ensures
        encode_utf8(book.key()).len() == book.key_len(),
        10 <= book.key_len() <= 213,
        0 <= book.lent_date.year <= 9999 ==> book.key_len() == 10 + encode_utf8(
            prefix(book.name, TITLE_CHARS as nat),
        ).len(),
{
    let day = book.lent_date.iso_text();
    let title = prefix(book.name, TITLE_CHARS as nat);
    lemma_encode_utf8_add(day, title);
    lemma_iso_text_ascii(book.lent_date);
    is_ascii_chars_encode_utf8(day);
    lemma_iso_text_len(book.lent_date);
    lemma_encode_utf8_len(title);
}

/// The identifier made of the code of `count` bytes is the code's symbols in
/// small letters: it has one character for every five bits begun, and holds
/// digits and the small letters `a` to `v`, and nothing else.
pub proof fn lemma_id_shape(code: Seq<char>, count: nat)
    requires
        is_code_of(code, count),
    ensures
        trim_end(code, '=') == code.take(symbol_count(count) as int),
        id_of_code(code).len() == symbol_count(count),
        forall|i: int|
            0 <= i < id_of_code(code).len() ==> is_id_char(#[trigger] id_of_code(code)[i]),
{
    lemma_trim_end(code, '=');
    let rest = trim_end(code, '=');
    let symbols = symbol_count(count) as int;
    assert(symbols <= code.len());
    if rest.len() > symbols {
        assert(rest.last() == code[rest.len() - 1]);
    } else if rest.len() < symbols {
        assert(is_symbol(code[rest.len() as int]));
    }
    assert forall|i: int| 0 <= i < id_of_code(code).len() implies is_id_char(
        #[trigger] id_of_code(code)[i],
    ) by {
        assert(rest[i] == code[i]);
        assert(is_symbol(code[i]));
    }
}

/// Two loans that began on the same day, with titles that agree in their
/// first fifty characters, have the same identifier, whatever else differs.
pub proof fn lemma_id_stable(a: BookView, b: BookView)
    requires
        a.lent_date == b.lent_date,
        prefix(a.name, TITLE_CHARS as nat) == prefix(b.name, TITLE_CHARS as nat),
    ensures
        a.id() == b.id(),
{
}

/// Turns an encoded key into the identifier: drops the padding and makes the
/// letters small.
pub fn id_from_code(code: &str) -> (id: String)
    ensures
        id@ == id_of_code(code@),
{
    ascii_lowercase(trim_end_matches(code, '='))
}

impl Book {
    /// Tells whether the dates of the loan can be worked with.
    pub fn is_valid(&self) -> (valid: bool)
        ensures
            valid == self@.wf(),
    {
        self.lent_date.is_valid() && self.due_date.is_valid() && !self.due_date.is_end()
    }

    /// The text shown for the loan: the title, behind the marker where the
    /// loan is reserved.
    pub fn get_summary(&self) -> (summary: String)
        ensures
            summary@ == self@.summary(),
    {
        if self.is_reserved {
            let mut summary = String::from_str(RESERVED);
            summary.append(self.name.as_str());
            summary
        } else {
            self.name.clone()
        }
    }

    /// The identifier of the loan, made of the day it began and the first
    /// fifty characters of its title. Nothing else goes into it, so a loan
    /// has the same identifier on every call and in every run. It is never
    /// empty: it has one character for every five bits of the key.
    pub fn get_id(&self) -> (id: String)
        requires
            self.lent_date.wf(),
        ensures
            id@ == self@.id(),
            id@.len() == symbol_count(self@.key_len()),
            16 <= id@.len() <= 341,
            forall|i: int| 0 <= i < id@.len() ==> is_id_char(#[trigger] id@[i]),
    {
        let mut key = iso_string(&self.lent_date);
        key.append(take_chars(self.name.as_str(), TITLE_CHARS));
        proof {
            lemma_key_len(self@);
        }
        let code = encode_base32hex(key.as_str().as_bytes());
        proof {
            lemma_id_shape(code@, self@.key_len());
        }
        id_from_code(code.as_str())
    }

    /// The day the event of the loan starts on.
    pub fn get_start_date(&self) -> (start: Date)
        ensures
            start == self@.start_date(),
    {
        Date { date: self.due_date }
    }

    /// The day the event of the loan ends before. An event that lasts whole
    /// days ends on the day after its last.
    pub fn get_end_date(&self) -> (end: Date)
        requires
            self.due_date.wf(),
            !self.due_date.is_last(),
        ensures
            end == self@.end_date(),
            end.date.wf(),
    {
        proof {
            lemma_succ_wf(self.due_date);
        }
        Date { date: following(&self.due_date).unwrap() }
    }
}

} // verus!
