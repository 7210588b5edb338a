//! Splitting the text of a listing into its records of two columns.

use vstd::prelude::*;
use vstd::slice::*;
use crate::error::QuandlError;

verus! {

/// The byte that ends a line.
pub const LINE_FEED: u8 = 10;

/// The byte that may stand before the end of a line.
pub const CARRIAGE_RETURN: u8 = 13;

/// The byte that opens and closes a quoted column.
pub const QUOTE: u8 = 34;

/// The text with a line feed at its end, added where the last line has none.
pub open spec fn closed_text(text: Seq<u8>) -> Seq<u8> {
    if text.len() == 0 || text.last() == LINE_FEED {
        text
    } else {
        text.push(LINE_FEED)
    }
}

/// The number of quotes among the first `n` bytes of the text.
pub open spec fn quotes_before(text: Seq<u8>, n: int) -> nat
    decreases n,
{
    if n <= 0 {
        0
    } else if text[n - 1] == QUOTE {
        quotes_before(text, n - 1) + 1
    } else {
        quotes_before(text, n - 1)
    }
}

/// Whether byte `i` of the text is a quote that closes a quoted column, with
/// a carriage return after it that no line feed follows. A quote closes a
/// column where an odd number of quotes stands before it and no quote follows.
pub open spec fn broken_close_at(text: Seq<u8>, i: int) -> bool {
    &&& 0 <= i
    &&& i + 1 < text.len()
    &&& text[i] == QUOTE
    &&& quotes_before(text, i) % 2 == 1
    &&& text[i + 1] == CARRIAGE_RETURN
    &&& (i + 2 == text.len() || text[i + 2] != LINE_FEED)
}

/// Whether some quoted column of the text is closed before a carriage return
/// that no line feed follows.
pub open spec fn has_broken_close(text: Seq<u8>) -> bool {
    exists|i: int| broken_close_at(text, i)
}

/// Whether the text is one that the CSV reader can take: it ends with a line
/// feed, unless it is empty, and closes no quoted column before a carriage
/// return that no line feed follows.
pub open spec fn is_readable(text: Seq<u8>) -> bool {
    (text.len() == 0 || text.last() == LINE_FEED) && !has_broken_close(text)
}

/// The first two columns of each record that the CSV reader finds in `text`,
/// in their order; `None` where it rejects the text or finds a record with
/// fewer than two columns.
pub uninterp spec fn csv_rows(text: Seq<u8>) -> Option<Seq<(Seq<char>, Seq<char>)>>;

/// The characters of the two columns of each row.
pub open spec fn row_views(rows: Seq<(String, String)>) -> Seq<(Seq<char>, Seq<char>)> {
    Seq::new(rows.len(), |i: int| (rows[i].0@, rows[i].1@))
}

/// Reads the text with `Csv::from_reader` of the quick_csv crate, over the
/// bytes themselves, and decodes each `Row` that its iterator yields with
/// `decode` into two strings, up to the first error. The contract claims only
/// that the outcome depends on the bytes alone. It asks for a text that the
/// reader can take: quick_csv cuts the quotes off a column by its length, and
/// fails on a column that is an opening quote alone or that starts with a quote
/// and ends inside a character. Such a column needs a last line without line
/// feed, or text between a closing quote and the end of its column, which the
/// reader lets pass only after a carriage return.
#[verifier::external_body]
fn read_rows(text: &[u8]) -> (r: Result<Vec<(String, String)>, quick_csv::error::Error>)
    requires
        is_readable(text@),
    ensures
        match r {
            Ok(rows) => csv_rows(text@) == Some(row_views(rows@)),
            Err(_) => csv_rows(text@).is_none(),
        },
{
    let mut rows = Vec::new();
    for row in quick_csv::Csv::from_reader(text) {
        rows.push(row?.decode::<(String, String)>()?);
    }
    Ok(rows)
}

/// Makes the error `UnescapedQuote` of the quick_csv crate, which its reader
/// gives for a closing quote with text after it.
#[verifier::external_body]
fn unescaped_quote() -> quick_csv::error::Error {
    quick_csv::error::Error::UnescapedQuote
}

/// The text with a line feed at its end, added where the last line has none.
pub fn close_text(text: &[u8]) -> (closed: Vec<u8>)
    ensures
        closed@ == closed_text(text@),
{
    let mut closed: Vec<u8> = Vec::new();
    let mut i: usize = 0;
    while i < text.len()
        invariant
            i <= text.len(),
            closed@ == text@.subrange(0, i as int),
        decreases text.len() - i,
    {
        closed.push(text[i]);
        assert(closed@ =~= text@.subrange(0, i + 1));
        i += 1;
    }
    assert(closed@ =~= text@);
    if text.len() > 0 && text[text.len() - 1] != LINE_FEED {
        closed.push(LINE_FEED);
    }
    closed
}

/// Whether some quoted column of the text is closed before a carriage return
/// that no line feed follows.
pub fn find_broken_close(text: &[u8]) -> (found: bool)
    ensures
        found == has_broken_close(text@),
{
    let mut odd: bool = false;
    let mut i: usize = 0;
    while i < text.len()
        invariant
            i <= text.len(),
            odd == (quotes_before(text@, i as int) % 2 == 1),
            forall|k: int| 0 <= k < i ==> !broken_close_at(text@, k),
        decreases text.len() - i,
    {
        if text[i] == QUOTE {
            if odd && i + 1 < text.len() && text[i + 1] == CARRIAGE_RETURN && (i + 2 == text.len()
                || text[i + 2] != LINE_FEED) {
                assert(broken_close_at(text@, i as int));
                return true;
            }
            odd = !odd;
        }
        i += 1;
    }
    assert forall|k: int| !broken_close_at(text@, k) by {
        if 0 <= k < text@.len() {
            assert(!broken_close_at(text@, k));
        }
    }
    false
}

/// What reading a listing's text as CSV comes to: the records that the CSV
/// reader finds in the text, closed by a line feed; `None` where the reader
/// rejects the closed text, and where the closed text is none that the reader
/// can take.
pub open spec fn records(text: Seq<u8>) -> Option<Seq<(Seq<char>, Seq<char>)>> {
    if has_broken_close(closed_text(text)) {
        None
    } else {
        csv_rows(closed_text(text))
    }
}

/// The records of a listing: the first two columns of each line of the text,
/// in the order of the lines. A last line without a line feed counts as a line.
/// A text that the CSV reader rejects is a CSV error, and so is one that closes
/// a quoted column before a carriage return that no line feed follows.
pub fn read_records(text: &[u8]) -> (r: Result<Vec<(String, String)>, QuandlError>)
    ensures
        match records(text@) {
            None => r matches Err(QuandlError::Csv(_)),
            Some(rows) => r matches Ok(found) && row_views(found@) == rows,
        },
{
    let closed = close_text(text);
    if find_broken_close(closed.as_slice()) {
        return Err(QuandlError::Csv(unescaped_quote()));
    }
    match read_rows(closed.as_slice()) {
        Ok(rows) => Ok(rows),
        Err(e) => Err(QuandlError::Csv(e)),
    }
}

} // verus!
