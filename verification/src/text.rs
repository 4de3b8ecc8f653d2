//! Operations on text that identifiers, summaries and entity tags are made of.

use vstd::prelude::*;
use vstd::string::*;

verus! {

/// The first `limit` characters of `text`, or all of it where it has fewer.
pub open spec fn prefix(text: Seq<char>, limit: nat) -> Seq<char> {
    if text.len() <= limit {
        text
    } else {
        text.take(limit as int)
    }
}

/// `text` without the run of `pad` at its end.
pub open spec fn trim_end(text: Seq<char>, pad: char) -> Seq<char>
    decreases text.len(),
{
    if text.len() > 0 && text.last() == pad {
        trim_end(text.drop_last(), pad)
    } else {
        text
    }
}

/// `text` without the run of `pad` at its start.
pub open spec fn trim_start(text: Seq<char>, pad: char) -> Seq<char>
    decreases text.len(),
{
    if text.len() > 0 && text.first() == pad {
        trim_start(text.drop_first(), pad)
    } else {
        text
    }
}

/// `text` without the runs of `pad` at its two ends.
pub open spec fn trim(text: Seq<char>, pad: char) -> Seq<char> {
    trim_end(trim_start(text, pad), pad)
}

/// The small letter for a capital letter of ASCII; any other character itself.
pub open spec fn lower(c: char) -> char {
    if 'A' <= c && c <= 'Z' {
        ((c as u8) + 32) as char
    } else {
        c
    }
}

/// `text` with each capital letter of ASCII replaced by its small letter.
pub open spec fn lowercase(text: Seq<char>) -> Seq<char> {
    Seq::new(text.len(), |i: int| lower(text[i]))
}

/// `text` without the characters `first` and `second`.
pub open spec fn without(text: Seq<char>, first: char, second: char) -> Seq<char> {
    text.filter(|c: char| c != first && c != second)
}

/// What is left of a text is its start, does not end in `pad`, and lacks
/// nothing but `pad`.
pub proof fn lemma_trim_end(text: Seq<char>, pad: char)
    ensures
        trim_end(text, pad).len() <= text.len(),
        trim_end(text, pad) == text.take(trim_end(text, pad).len() as int),
        trim_end(text, pad).len() > 0 ==> trim_end(text, pad).last() != pad,
        forall|i: int| trim_end(text, pad).len() <= i < text.len() ==> text[i] == pad,
    decreases text.len(),
{
    if text.len() > 0 && text.last() == pad {
        let shorter = text.drop_last();
        lemma_trim_end(shorter, pad);
        let kept = trim_end(shorter, pad).len() as int;
        assert(shorter.take(kept) == text.take(kept));
        assert forall|i: int| kept <= i < text.len() implies text[i] == pad by {
            if i < shorter.len() {
                assert(shorter[i] == text[i]);
            }
        }
    } else {
        assert(text.take(text.len() as int) == text);
    }
}

/// Tells whether two texts are the same.
pub fn same_text(left: &str, right: &str) -> (same: bool)
    ensures
        same == (left@ == right@),
{
    String::from_str(left) == String::from_str(right)
}

/// `left` followed by `right`.
pub fn join(left: &str, right: &str) -> (joined: String)
    ensures
        joined@ == left@ + right@,
{
    let mut joined = String::from_str(left);
    joined.append(right);
    joined
}

/// The first `limit` characters of `text`.
pub fn take_chars(text: &str, limit: usize) -> (head: &str)
    ensures
        head@ == prefix(text@, limit as nat),
{
    let length = text.unicode_len();
    if length <= limit {
        text
    } else {
        text.substring_char(0, limit)
    }
}

/// Tells whether `text` starts with `start`.
pub fn starts_with(text: &str, start: &str) -> (found: bool)
    ensures
        found == start@.is_prefix_of(text@),
{
    let head = take_chars(text, start.unicode_len());
    proof {
        if text@.len() <= start@.len() {
            assert(text@.subrange(0, text@.len() as int) == text@);
        } else {
            assert(head@ == text@.subrange(0, start@.len() as int));
        }
    }
    same_text(head, start)
}

/// Removes every `pad` from the end of `text`.
pub fn trim_end_matches(text: &str, pad: char) -> (rest: &str)
    ensures
        rest@ == trim_end(text@, pad),
{
    let mut end = text.unicode_len();
    assert(text@.take(end as int) == text@);
    while end > 0 && text.get_char(end - 1) == pad
        invariant
            end <= text@.len(),
            trim_end(text@, pad) == trim_end(text@.take(end as int), pad),
        decreases end,
    {
        assert(text@.take(end as int).drop_last() == text@.take(end - 1));
        end -= 1;
    }
    text.substring_char(0, end)
}

/// Removes every `pad` from both ends of `text`.
pub fn trim_matches(text: &str, pad: char) -> (rest: &str)
    ensures
        rest@ == trim(text@, pad),
{
    let length = text.unicode_len();
    let mut start: usize = 0;
    assert(text@.skip(0) == text@);
    while start < length && text.get_char(start) == pad
        invariant
            start <= length == text@.len(),
            trim_start(text@, pad) == trim_start(text@.skip(start as int), pad),
        decreases length - start,
    {
        assert(text@.skip(start as int).drop_first() == text@.skip(start + 1));
        start += 1;
    }
    trim_end_matches(text.substring_char(start, length), pad)
}

/// Calls [`str::to_ascii_lowercase`], which copies the text and replaces the
/// letters `A` to `Z` by `a` to `z`.
#[verifier::external_body]
pub(crate) fn ascii_lowercase(text: &str) -> (lowered: String)
    ensures
        lowered@ == lowercase(text@),
{
    text.to_ascii_lowercase()
}

/// Calls [`str::replace`] with two characters as the pattern and the empty
/// string in their place, which copies the text and leaves out every
/// character that is one of the two.
#[verifier::external_body]
pub(crate) fn remove_chars(text: &str, first: char, second: char) -> (rest: String)
    ensures
        rest@ == without(text@, first, second),
{
    text.replace([first, second], "")
}

} // verus!
