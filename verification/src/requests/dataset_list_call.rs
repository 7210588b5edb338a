//! The query for the codes of all datasets of a database. The service
//! answers with a ZIP archive that holds one CSV file, a line for each
//! dataset: the database's code, `/` and the dataset's code in the first
//! column, a description in the second.

use vstd::prelude::*;
use vstd::string::*;
use crate::archive::{entry_content, entry_count, zip_entry, zip_entry_count};
use crate::csv::{read_records, records, row_views};
use crate::error::QuandlError;
use crate::quandl::Quandl;
use crate::quandl_request::{opt_pair, set_query_pair};
use crate::query::{checked_url, push_query, query_suffix, url_text};
use crate::text::{decimal, push_decimal};

verus! {

/// The character between a database's code and a dataset's code.
pub const SEPARATOR: char = '/';

/// A request for the codes of all datasets of a database.
#[derive(Debug)]
pub struct DatasetListCall<'a> {
    /// The code of the database (such as `WIKI`).
    pub database_code: String,
    /// The session that this request belongs to.
    pub quandl: &'a Quandl,
}

/// One dataset of a listing.
#[derive(Debug, PartialEq)]
pub struct DatasetCode {
    /// The code of the dataset, without the code of its database.
    pub code: String,
    /// What the dataset holds, in words.
    pub desc: String,
}

impl View for DatasetCode {
    type V = (Seq<char>, Seq<char>);

    open spec fn view(&self) -> (Seq<char>, Seq<char>) {
        (self.code@, self.desc@)
    }
}

/// The code and the description of each dataset of a list.
pub open spec fn code_views(codes: Seq<DatasetCode>) -> Seq<(Seq<char>, Seq<char>)> {
    Seq::new(codes.len(), |i: int| codes[i]@)
}

/// The place of the last separator of `s`, and -1 where `s` holds none.
pub open spec fn last_separator(s: Seq<char>) -> int
    decreases s.len(),
{
    if s.len() == 0 {
        -1
    } else if s.last() == SEPARATOR {
        s.len() - 1
    } else {
        last_separator(s.drop_last())
    }
}

/// What follows the last separator of `s`.
pub open spec fn short_code(s: Seq<char>) -> Seq<char> {
    s.subrange(last_separator(s) + 1, s.len() as int)
}

/// The place of the last separator is that of a separator after which none
/// follows, and it is -1 exactly where there is no separator at all.
pub proof fn lemma_last_separator(s: Seq<char>)
    ensures
        -1 <= last_separator(s) < s.len(),
        last_separator(s) >= 0 ==> s[last_separator(s)] == SEPARATOR,
        forall|i: int| last_separator(s) < i < s.len() ==> s[i] != SEPARATOR,
        last_separator(s) >= 0 <==> s.contains(SEPARATOR),
    decreases s.len(),
{
    if s.len() > 0 {
        if s.last() != SEPARATOR {
            let front = s.drop_last();
            lemma_last_separator(front);
            assert forall|i: int| last_separator(s) < i < s.len() implies s[i] != SEPARATOR by {
                if i < front.len() {
                    assert(front[i] == s[i]);
                }
            }
            if last_separator(s) >= 0 {
                assert(front[last_separator(s)] == s[last_separator(s)]);
            }
            if s.contains(SEPARATOR) {
                let i = choose|i: int| 0 <= i < s.len() && s[i] == SEPARATOR;
                assert(front[i] == SEPARATOR);
                assert(front.contains(SEPARATOR));
            }
        } else {
            assert(s[s.len() - 1] == SEPARATOR);
        }
    }
}

/// The short code of a value with a separator holds no separator, and the
/// value is some prefix, a separator and the short code.
pub proof fn lemma_short_code(s: Seq<char>)
    requires
        s.contains(SEPARATOR),
    ensures
        !short_code(s).contains(SEPARATOR),
        s == s.subrange(0, last_separator(s)) + seq![SEPARATOR] + short_code(s),
{
    lemma_last_separator(s);
    let code = short_code(s);
    let at = last_separator(s);
    if code.contains(SEPARATOR) {
        let i = choose|i: int| 0 <= i < code.len() && code[i] == SEPARATOR;
        assert(s[at + 1 + i] == SEPARATOR);
    }
    assert(s =~= s.subrange(0, at) + seq![SEPARATOR] + code);
}

/// A separator after which none follows is the last one.
proof fn lemma_last_separator_is(s: Seq<char>, at: int)
    requires
        -1 <= at < s.len(),
        at >= 0 ==> s[at] == SEPARATOR,
        forall|i: int| at < i < s.len() ==> s[i] != SEPARATOR,
    ensures
        last_separator(s) == at,
{
    lemma_last_separator(s);
}

/// What follows the last separator of `value`; `None` where `value` holds no
/// separator.
pub fn split_code(value: &str) -> (r: Option<String>)
    ensures
        match r {
            Some(code) => value@.contains(SEPARATOR) && code@ == short_code(value@),
            None => !value@.contains(SEPARATOR),
        },
{
    let length: usize = value.unicode_len();
    let mut found: bool = false;
    let mut last: usize = 0;
    let mut i: usize = 0;
    while i < length
        invariant
            i <= length,
            length == value@.len(),
            found ==> last < i && value@[last as int] == SEPARATOR,
            forall|k: int| (if found { last as int } else { -1 }) < k < i ==> value@[k] != SEPARATOR,
        decreases length - i,
    {
        if value.get_char(i) == SEPARATOR {
            found = true;
            last = i;
        }
        i += 1;
    }
    proof {
        lemma_last_separator_is(value@, if found { last as int } else { -1 });
        lemma_last_separator(value@);
    }
    if found {
        Some(String::from_str(value.substring_char(last + 1, length)))
    } else {
        None
    }
}

/// What the report of a value without separator says.
pub open spec fn missing_separator_message(value: Seq<char>) -> Seq<char> {
    "error: `/` not found in `"@ + value + "`"@
}

/// Whether the first column of every record holds a separator.
pub open spec fn all_split(rows: Seq<(Seq<char>, Seq<char>)>) -> bool {
    forall|i: int| 0 <= i < rows.len() ==> (#[trigger] rows[i]).0.contains(SEPARATOR)
}

/// Whether record `k` is the first whose first column holds no separator.
pub open spec fn is_first_unsplit(rows: Seq<(Seq<char>, Seq<char>)>, k: int) -> bool {
    &&& 0 <= k < rows.len()
    &&& !rows[k].0.contains(SEPARATOR)
    &&& forall|j: int| 0 <= j < k ==> (#[trigger] rows[j]).0.contains(SEPARATOR)
}

/// The dataset that a record stands for: what follows the last separator of
/// its first column, and its second column.
pub open spec fn code_of(row: (Seq<char>, Seq<char>)) -> (Seq<char>, Seq<char>) {
    (short_code(row.0), row.1)
}

/// What the records of a listing come to: the datasets that they stand for,
/// in their order, where every first column holds a separator; else an error
/// that names the first value without one.
pub open spec fn codes_outcome(
    rows: Seq<(Seq<char>, Seq<char>)>,
    r: Result<Vec<DatasetCode>, QuandlError>,
) -> bool {
    if all_split(rows) {
        r matches Ok(codes) && code_views(codes@) == Seq::new(
            rows.len(),
            |i: int| code_of(rows[i]),
        )
    } else {
        r matches Err(QuandlError::Quandl(message)) && exists|k: int|
            is_first_unsplit(rows, k) && message@ == missing_separator_message(
                (#[trigger] rows[k]).0,
            )
    }
}

/// The datasets that the records of a listing stand for, in the order of the
/// records. One record whose first column holds no separator fails the whole
/// listing.
pub fn codes_from_rows(rows: &Vec<(String, String)>) -> (r: Result<Vec<DatasetCode>, QuandlError>)
    ensures
        codes_outcome(row_views(rows@), r),
{
    let ghost views = row_views(rows@);
    let mut codes: Vec<DatasetCode> = Vec::new();
    let mut i: usize = 0;
    while i < rows.len()
        invariant
            i <= rows.len(),
            views == row_views(rows@),
            views.len() == rows.len(),
            codes.len() == i,
            forall|j: int| 0 <= j < i ==> (#[trigger] views[j]).0.contains(SEPARATOR),
            forall|j: int| 0 <= j < i ==> (#[trigger] codes@[j])@ == code_of(views[j]),
        decreases rows.len() - i,
    {
        assert(views[i as int] == (rows@[i as int].0@, rows@[i as int].1@));
        match split_code(rows[i].0.as_str()) {
            Some(code) => {
                codes.push(DatasetCode { code, desc: rows[i].1.clone() });
            },
            None => {
                proof {
                    reveal_strlit("`");
                }
                let mut message = String::from_str("error: `/` not found in `");
                message.append(rows[i].0.as_str());
                message.append("`");
                assert(message@ =~= missing_separator_message(views[i as int].0));
                assert(is_first_unsplit(views, i as int));
                return Err(QuandlError::Quandl(message));
            },
        }
        i += 1;
    }
    assert(all_split(views));
    assert(code_views(codes@) =~= Seq::new(views.len(), |i: int| code_of(views[i])));
    Ok(codes)
}

/// What the report of an archive with the wrong number of files says.
pub open spec fn entry_count_message(count: nat) -> Seq<char> {
    "expected one file in archive, found "@ + decimal(count)
}

/// Accepts an archive of one file, and rejects any other number of files with
/// an error that names the number.
pub fn check_entry_count(count: usize) -> (r: Result<(), QuandlError>)
    ensures
        count == 1 ==> r is Ok,
        count != 1 ==> (r matches Err(QuandlError::Quandl(message)) && message@
            == entry_count_message(count as nat)),
{
    if count != 1 {
        let mut message = String::from_str("expected one file in archive, found ");
        push_decimal(&mut message, count as u64);
        return Err(QuandlError::Quandl(message));
    }
    Ok(())
}

/// What the text of a listing's file comes to: a CSV error where it cannot be
/// read as CSV, and else what its records come to.
pub open spec fn csv_outcome(text: Seq<u8>, r: Result<Vec<DatasetCode>, QuandlError>) -> bool {
    match records(text) {
        None => r matches Err(QuandlError::Csv(_)),
        Some(rows) => codes_outcome(rows, r),
    }
}

/// What the body of the answer to a listing query comes to: an archive error
/// where it is no ZIP archive or its file cannot be unpacked, an error that
/// names the number of files where that is not one, and else what the text of
/// its one file comes to.
pub open spec fn listing_outcome(body: Seq<u8>, r: Result<Vec<DatasetCode>, QuandlError>) -> bool {
    match zip_entry_count(body) {
        None => r matches Err(QuandlError::Zip(_)),
        Some(count) => if count != 1 {
            r matches Err(QuandlError::Quandl(message)) && message@ == entry_count_message(count)
        } else {
            match zip_entry(body, 0) {
                None => r matches Err(QuandlError::Zip(_)),
                Some(text) => csv_outcome(text, r),
            }
        },
    }
}

/// The datasets that the CSV text of a listing names, in the order of its
/// lines.
pub fn codes_from_csv(text: &[u8]) -> (r: Result<Vec<DatasetCode>, QuandlError>)
    ensures
        csv_outcome(text@, r),
{
    match read_records(text) {
        Ok(rows) => codes_from_rows(&rows),
        Err(e) => Err(e),
    }
}

/// The datasets that the answer to a listing query names, in the order of the
/// lines of the one file in its archive.
pub fn read_listing(body: &[u8]) -> (r: Result<Vec<DatasetCode>, QuandlError>)
    ensures
        listing_outcome(body@, r),
{
    let count = match entry_count(body) {
        Ok(count) => count,
        Err(e) => {
            return Err(e);
        },
    };
    match check_entry_count(count) {
        Ok(()) => {},
        Err(e) => {
            return Err(e);
        },
    }
    match entry_content(body, 0) {
        Ok(text) => codes_from_csv(text.as_slice()),
        Err(e) => Err(e),
    }
}

impl<'a> DatasetListCall<'a> {
    /// The URL of this request as it is written down, before any check: the
    /// address of the database's listing, then the API key where the session
    /// has one.
    pub open spec fn url_text(&self) -> Seq<char> {
        "https://www.quandl.com/api/v3/databases"@ + seq!['/'] + self.database_code@
            + "/codes.csv"@ + query_suffix(opt_pair("api_key"@, self.quandl.key()))
    }

    /// The URL to fetch for this request. A URL error where the request does
    /// not serialise to a well-formed URL.
    pub fn get_url(&self) -> (r: Result<String, QuandlError>)
        ensures
            match url_text(self.url_text()) {
                Some(parsed) => r matches Ok(url) && url@ == parsed,
                None => r matches Err(QuandlError::Url(_)),
            },
    {
        proof {
            reveal_strlit("/");
        }
        let mut query: Vec<(&'static str, String)> = Vec::new();
        set_query_pair(&mut query, "api_key", &self.quandl.api_key);
        let mut text = String::from_str("https://www.quandl.com/api/v3/databases");
        text.append("/");
        text.append(self.database_code.as_str());
        text.append("/codes.csv");
        push_query(&mut text, &query);
        assert(text@ =~= self.url_text());
        checked_url(text.as_str())
    }
}

} // verus!
