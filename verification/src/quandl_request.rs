//! One query for the observations of a dataset: its filters, the rules that
//! they obey, and the URL that they serialise to.

use vstd::prelude::*;
use vstd::string::*;
use crate::date::Date;
use crate::error::QuandlError;
use crate::quandl::Quandl;
use crate::query::{checked_url, push_query, query_suffix, url_text};
use crate::text::{decimal, decimal_string};

verus! {

/// Sort in ascending or descending order.
#[derive(Clone, Copy, Debug, PartialEq, Eq, Structural)]
pub enum Order {
    /// Oldest observation first.
    Asc,
    /// Newest observation first.
    Desc,
}

/// The frequency to which the service resamples the observations.
#[derive(Clone, Copy, Debug, PartialEq, Eq, Structural)]
pub enum Collapse {
    /// One observation per day.
    Daily,
    /// One observation per week.
    Weekly,
    /// One observation per month.
    Monthly,
    /// One observation per quarter.
    Quarterly,
    /// One observation per year.
    Annual,
}

/// The calculation that the service applies to the observations.
#[derive(Clone, Copy, Debug, PartialEq, Eq, Structural)]
pub enum Transform {
    /// Row-on-row change.
    Diff,
    /// Row-on-row change, divided by the earlier row.
    Rdiff,
    /// Sum of all earlier rows.
    Cumul,
    /// Scaled so that the oldest observation is 100.
    Normalize,
}

impl Order {
    /// The word that stands for this order in a URL.
    pub open spec fn token(self) -> Seq<char> {
        match self {
            Order::Asc => "asc"@,
            Order::Desc => "desc"@,
        }
    }

    /// The word that stands for this order in a URL.
    pub fn to_string(&self) -> (s: String)
        ensures
            s@ == self.token(),
    {
        match self {
            Order::Asc => String::from_str("asc"),
            Order::Desc => String::from_str("desc"),
        }
    }
}

impl Collapse {
    /// The word that stands for this frequency in a URL.
    pub open spec fn token(self) -> Seq<char> {
        match self {
            Collapse::Daily => "daily"@,
            Collapse::Weekly => "weekly"@,
            Collapse::Monthly => "monthly"@,
            Collapse::Quarterly => "quarterly"@,
            Collapse::Annual => "annual"@,
        }
    }

    /// The word that stands for this frequency in a URL.
    pub fn to_string(&self) -> (s: String)
        ensures
            s@ == self.token(),
    {
        match self {
            Collapse::Daily => String::from_str("daily"),
            Collapse::Weekly => String::from_str("weekly"),
            Collapse::Monthly => String::from_str("monthly"),
            Collapse::Quarterly => String::from_str("quarterly"),
            Collapse::Annual => String::from_str("annual"),
        }
    }
}

impl Transform {
    /// The word that stands for this calculation in a URL.
    pub open spec fn token(self) -> Seq<char> {
        match self {
            Transform::Diff => "diff"@,
            Transform::Rdiff => "rdiff"@,
            Transform::Cumul => "cumul"@,
            Transform::Normalize => "normalize"@,
        }
    }

    /// The word that stands for this calculation in a URL.
    pub fn to_string(&self) -> (s: String)
        ensures
            s@ == self.token(),
    {
        match self {
            Transform::Diff => String::from_str("diff"),
            Transform::Rdiff => String::from_str("rdiff"),
            Transform::Cumul => String::from_str("cumul"),
            Transform::Normalize => String::from_str("normalize"),
        }
    }
}

/// One query for the observations of a dataset.
#[derive(Debug)]
pub struct QuandlRequest<'a> {
    /// The session that this request belongs to.
    pub quandl: &'a Quandl,
    /// The code of the database (such as `WIKI`).
    pub database_code: String,
    /// The code of the dataset within the database (such as `AAPL`).
    pub dataset_code: String,
    /// Return only the first `n` rows.
    pub limit: Option<u64>,
    /// Return only the first `n` rows.
    pub rows: Option<u64>,
    /// Return only this column beside the date column, which is column 0.
    pub column_index: Option<u64>,
    /// Return no observation from before this day.
    pub start_date: Option<Date>,
    /// Return no observation from after this day.
    pub end_date: Option<Date>,
    /// The order of the rows.
    pub order: Option<Order>,
    /// The frequency to resample to.
    pub collapse: Option<Collapse>,
    /// The calculation to apply.
    pub transform: Option<Transform>,
}

/// What a request says, apart from where its strings are stored.
pub struct RequestView {
    /// The API key of the session.
    pub api_key: Option<Seq<char>>,
    /// The code of the database.
    pub database_code: Seq<char>,
    /// The code of the dataset.
    pub dataset_code: Seq<char>,
    /// The `limit` filter.
    pub limit: Option<u64>,
    /// The `rows` filter.
    pub rows: Option<u64>,
    /// The `column_index` filter.
    pub column_index: Option<u64>,
    /// The `start_date` filter.
    pub start_date: Option<Date>,
    /// The `end_date` filter.
    pub end_date: Option<Date>,
    /// The `order` parameter.
    pub order: Option<Order>,
    /// The `collapse` parameter.
    pub collapse: Option<Collapse>,
    /// The `transform` parameter.
    pub transform: Option<Transform>,
}

impl<'a> View for QuandlRequest<'a> {
    type V = RequestView;

    open spec fn view(&self) -> RequestView {
        RequestView {
            api_key: self.quandl.key(),
            database_code: self.database_code@,
            dataset_code: self.dataset_code@,
            limit: self.limit,
            rows: self.rows,
            column_index: self.column_index,
            start_date: self.start_date,
            end_date: self.end_date,
            order: self.order,
            collapse: self.collapse,
            transform: self.transform,
        }
    }
}

/// Whether a start date and an end date are both present and the start lies
/// after the end.
pub open spec fn dates_conflict(start: Option<Date>, end: Option<Date>) -> bool {
    start matches Some(s) && end matches Some(e) && s.is_after(e)
}

impl RequestView {
    /// Whether the start date, if there is one, lies no later than the end
    /// date, if there is one.
    pub open spec fn dates_in_order(self) -> bool {
        !dates_conflict(self.start_date, self.end_date)
    }

    /// This request with `date` as its start date; `None` where `date` lies
    /// after the end date.
    pub open spec fn with_start_date(self, date: Date) -> Option<RequestView> {
        if dates_conflict(Some(date), self.end_date) {
            None
        } else {
            Some(RequestView { start_date: Some(date), ..self })
        }
    }

    /// This request with `date` as its end date; `None` where the start date
    /// lies after `date`.
    pub open spec fn with_end_date(self, date: Date) -> Option<RequestView> {
        if dates_conflict(self.start_date, Some(date)) {
            None
        } else {
            Some(RequestView { end_date: Some(date), ..self })
        }
    }
}

/// The names of the query parameters, in the order in which a URL holds them.
pub open spec fn param_keys() -> Seq<Seq<char>> {
    seq![
        "api_key"@,
        "limit"@,
        "rows"@,
        "column_index"@,
        "start_date"@,
        "end_date"@,
        "order"@,
        "collapse"@,
        "transform"@,
    ]
}

impl RequestView {
    /// The text of the parameter at place `i` of the fixed order; `None`
    /// where the request does not set it.
    pub open spec fn param_value(self, i: int) -> Option<Seq<char>> {
        if i == 0 {
            self.api_key
        } else if i == 1 {
            option_text(self.limit)
        } else if i == 2 {
            option_text(self.rows)
        } else if i == 3 {
            option_text(self.column_index)
        } else if i == 4 {
            option_text(self.start_date)
        } else if i == 5 {
            option_text(self.end_date)
        } else if i == 6 {
            option_text(self.order)
        } else if i == 7 {
            option_text(self.collapse)
        } else if i == 8 {
            option_text(self.transform)
        } else {
            None
        }
    }

    /// The pairs of the first `n` parameters of the fixed order that the
    /// request sets.
    pub open spec fn pairs_upto(self, n: int) -> Seq<(Seq<char>, Seq<char>)>
        decreases n,
    {
        if n <= 0 {
            Seq::empty()
        } else {
            self.pairs_upto(n - 1) + opt_pair(param_keys()[n - 1], self.param_value(n - 1))
        }
    }

    /// The pairs of the query string: one for each parameter that the
    /// request sets, in the fixed order.
    pub open spec fn query_pairs(self) -> Seq<(Seq<char>, Seq<char>)> {
        self.pairs_upto(9)
    }

    /// The URL of the request as it is written down, before any check.
    pub open spec fn uri_text(self) -> Seq<char> {
        "https://www.quandl.com/api/v3/datasets"@ + seq!['/'] + self.database_code + seq!['/']
            + self.dataset_code + "/data.json"@ + query_suffix(self.query_pairs())
    }
}

impl<'a> QuandlRequest<'a> {
    /// What a request for the given dataset says while no filter is set.
    pub open spec fn unfiltered(
        api_key: Option<Seq<char>>,
        database_code: Seq<char>,
        dataset_code: Seq<char>,
    ) -> RequestView {
        RequestView {
            api_key,
            database_code,
            dataset_code,
            limit: None,
            rows: None,
            column_index: None,
            start_date: None,
            end_date: None,
            order: None,
            collapse: None,
            transform: None,
        }
    }

    /// A request of session `quandl` with empty codes and no filter set.
    pub fn default(quandl: &'a Quandl) -> (request: QuandlRequest<'a>)
        ensures
            request.quandl == quandl,
            request@ == Self::unfiltered(quandl.key(), Seq::empty(), Seq::empty()),
    {
        QuandlRequest {
            quandl,
            database_code: String::new(),
            dataset_code: String::new(),
            limit: None,
            rows: None,
            column_index: None,
            start_date: None,
            end_date: None,
            order: None,
            collapse: None,
            transform: None,
        }
    }

    /// This request, limited to its first `limit` rows.
    pub fn limit(self, limit: u64) -> (request: QuandlRequest<'a>)
        ensures
            request.quandl == self.quandl,
            request@ == (RequestView { limit: Some(limit), ..self@ }),
    {
        let mut request = self;
        request.limit = Some(limit);
        request
    }

    /// This request, limited to its first `rows` rows.
    pub fn rows(self, rows: u64) -> (request: QuandlRequest<'a>)
        ensures
            request.quandl == self.quandl,
            request@ == (RequestView { rows: Some(rows), ..self@ }),
    {
        let mut request = self;
        request.rows = Some(rows);
        request
    }

    /// This request, for column `indx` alone beside the date column.
    pub fn column_index(self, indx: u64) -> (request: QuandlRequest<'a>)
        ensures
            request.quandl == self.quandl,
            request@ == (RequestView { column_index: Some(indx), ..self@ }),
    {
        let mut request = self;
        request.column_index = Some(indx);
        request
    }

    /// This request, with its rows in the given order.
    pub fn order(self, order: Order) -> (request: QuandlRequest<'a>)
        ensures
            request.quandl == self.quandl,
            request@ == (RequestView { order: Some(order), ..self@ }),
    {
        let mut request = self;
        request.order = Some(order);
        request
    }

    /// This request, resampled to the given frequency.
    pub fn collapse(self, collapse: Collapse) -> (request: QuandlRequest<'a>)
        ensures
            request.quandl == self.quandl,
            request@ == (RequestView { collapse: Some(collapse), ..self@ }),
    {
        let mut request = self;
        request.collapse = Some(collapse);
        request
    }

    /// This request, with the given calculation applied to its observations.
    pub fn transform(self, transform: Transform) -> (request: QuandlRequest<'a>)
        ensures
            request.quandl == self.quandl,
            request@ == (RequestView { transform: Some(transform), ..self@ }),
    {
        let mut request = self;
        request.transform = Some(transform);
        request
    }
}

/// What setting the start date of `before` to the date that an input stands
/// for comes to: `after` is the request as it is left, `r` what is reported.
pub open spec fn start_date_outcome(
    date: Option<Date>,
    before: RequestView,
    after: RequestView,
    r: Result<(), QuandlError>,
) -> bool {
    match date {
        None => r matches Err(QuandlError::Chrono(_)) && after == before,
        Some(start) => match before.with_start_date(start) {
            Some(changed) => r is Ok && after == changed,
            None => r matches Err(QuandlError::Date(message)) && message@ == date_range_message(
                start,
                before.end_date.unwrap(),
            ) && after == before,
        },
    }
}

/// What setting the end date of `before` to the date that an input stands for
/// comes to: `after` is the request as it is left, `r` what is reported.
pub open spec fn end_date_outcome(
    date: Option<Date>,
    before: RequestView,
    after: RequestView,
    r: Result<(), QuandlError>,
) -> bool {
    match date {
        None => r matches Err(QuandlError::Chrono(_)) && after == before,
        Some(end) => match before.with_end_date(end) {
            Some(changed) => r is Ok && after == changed,
            None => r matches Err(QuandlError::Date(message)) && message@ == date_range_message(
                before.start_date.unwrap(),
                end,
            ) && after == before,
        },
    }
}

/// A way to name a day: what the date setters of a request accept.
pub trait DateInput {
    /// The day that this input names; `None` where it names none.
    spec fn date(&self) -> Option<Date>;

    /// Makes the day that this input names the start date of the request,
    /// unless the input names no day or the day lies after the end date.
    fn set_start_date(&self, quandl_request: &mut QuandlRequest) -> (r: Result<(), QuandlError>)
        ensures
            final(quandl_request).quandl == old(quandl_request).quandl,
            start_date_outcome(self.date(), old(quandl_request)@, final(quandl_request)@, r),
    ;

    /// Makes the day that this input names the end date of the request,
    /// unless the input names no day or the start date lies after the day.
    fn set_end_date(&self, quandl_request: &mut QuandlRequest) -> (r: Result<(), QuandlError>)
        ensures
            final(quandl_request).quandl == old(quandl_request).quandl,
            end_date_outcome(self.date(), old(quandl_request)@, final(quandl_request)@, r),
    ;
}

impl DateInput for Date {
    open spec fn date(&self) -> Option<Date> {
        Some(*self)
    }

    fn set_start_date(&self, quandl_request: &mut QuandlRequest) -> (r: Result<(), QuandlError>) {
        match validate_date(Some(*self), quandl_request.end_date) {
            Ok(()) => {
                quandl_request.start_date = Some(*self);
                Ok(())
            },
            Err(e) => Err(e),
        }
    }

    fn set_end_date(&self, quandl_request: &mut QuandlRequest) -> (r: Result<(), QuandlError>) {
        match validate_date(quandl_request.start_date, Some(*self)) {
            Ok(()) => {
                quandl_request.end_date = Some(*self);
                Ok(())
            },
            Err(e) => Err(e),
        }
    }
}

impl DateInput for str {
    open spec fn date(&self) -> Option<Date> {
        Date::parsed(self@)
    }

    fn set_start_date(&self, quandl_request: &mut QuandlRequest) -> (r: Result<(), QuandlError>) {
        match Date::parse(self) {
            Ok(date) => date.set_start_date(quandl_request),
            Err(e) => Err(e),
        }
    }

    fn set_end_date(&self, quandl_request: &mut QuandlRequest) -> (r: Result<(), QuandlError>) {
        match Date::parse(self) {
            Ok(date) => date.set_end_date(quandl_request),
            Err(e) => Err(e),
        }
    }
}

impl<'a> QuandlRequest<'a> {
    /// This request with the day that `date` names as its start date. Fails
    /// where `date` names no day, and where the day lies after the end date.
    pub fn start_date<T: ?Sized + DateInput>(self, date: &T) -> (r: Result<
        QuandlRequest<'a>,
        QuandlError,
    >)
        ensures
            match date.date() {
                None => r matches Err(QuandlError::Chrono(_)),
                Some(start) => match self@.with_start_date(start) {
                    Some(changed) => r matches Ok(request) && request@ == changed
                        && request.quandl == self.quandl,
                    None => r matches Err(QuandlError::Date(message)) && message@
                        == date_range_message(start, self.end_date.unwrap()),
                },
            },
    {
        let mut request = self;
        match date.set_start_date(&mut request) {
            Ok(()) => Ok(request),
            Err(e) => Err(e),
        }
    }

    /// This request with the day that `date` names as its end date. Fails
    /// where `date` names no day, and where the start date lies after the day.
    pub fn end_date<T: ?Sized + DateInput>(self, date: &T) -> (r: Result<
        QuandlRequest<'a>,
        QuandlError,
    >)
        ensures
            match date.date() {
                None => r matches Err(QuandlError::Chrono(_)),
                Some(end) => match self@.with_end_date(end) {
                    Some(changed) => r matches Ok(request) && request@ == changed
                        && request.quandl == self.quandl,
                    None => r matches Err(QuandlError::Date(message)) && message@
                        == date_range_message(self.start_date.unwrap(), end),
                },
            },
    {
        let mut request = self;
        match date.set_end_date(&mut request) {
            Ok(()) => Ok(request),
            Err(e) => Err(e),
        }
    }
}

/// A value that can stand on the right of `=` in a query string.
pub trait QueryValue {
    /// The text that stands for this value in a query string.
    spec fn query_text(&self) -> Seq<char>;

    /// The text that stands for this value in a query string.
    fn to_query_string(&self) -> (s: String)
        ensures
            s@ == self.query_text(),
    ;
}

impl QueryValue for u64 {
    open spec fn query_text(&self) -> Seq<char> {
        decimal(*self as nat)
    }

    fn to_query_string(&self) -> (s: String) {
        decimal_string(*self)
    }
}

impl QueryValue for String {
    open spec fn query_text(&self) -> Seq<char> {
        self@
    }

    fn to_query_string(&self) -> (s: String) {
        self.clone()
    }
}

impl QueryValue for Date {
    open spec fn query_text(&self) -> Seq<char> {
        self.text()
    }

    fn to_query_string(&self) -> (s: String) {
        self.to_string()
    }
}

impl QueryValue for Order {
    open spec fn query_text(&self) -> Seq<char> {
        self.token()
    }

    fn to_query_string(&self) -> (s: String) {
        self.to_string()
    }
}

impl QueryValue for Collapse {
    open spec fn query_text(&self) -> Seq<char> {
        self.token()
    }

    fn to_query_string(&self) -> (s: String) {
        self.to_string()
    }
}

impl QueryValue for Transform {
    open spec fn query_text(&self) -> Seq<char> {
        self.token()
    }

    fn to_query_string(&self) -> (s: String) {
        self.to_string()
    }
}

/// The text of a value that may be absent.
pub open spec fn option_text<T: QueryValue>(option: Option<T>) -> Option<Seq<char>> {
    match option {
        Some(value) => Some(value.query_text()),
        None => None,
    }
}

/// The one pair of a value that is present, and no pair for one that is
/// absent.
pub open spec fn opt_pair(key: Seq<char>, value: Option<Seq<char>>) -> Seq<
    (Seq<char>, Seq<char>),
> {
    match value {
        Some(text) => seq![(key, text)],
        None => Seq::empty(),
    }
}

/// The keys and values of a list of query pairs, as characters.
pub open spec fn pair_views(query: Seq<(&str, String)>) -> Seq<(Seq<char>, Seq<char>)> {
    Seq::new(query.len(), |i: int| (query[i].0@, query[i].1@))
}

/// Appends the pair of `key` and the value to `query` if the value is
/// present, and leaves `query` as it is if not.
pub fn set_query_pair<'a, T: QueryValue>(
    query: &mut Vec<(&'a str, String)>,
    key: &'a str,
    option: &Option<T>,
)
    ensures
        pair_views(final(query)@) == pair_views(old(query)@) + opt_pair(
            key@,
            option_text(*option),
        ),
        option.is_none() ==> final(query)@ == old(query)@,
        option.is_some() ==> final(query)@.len() == old(query)@.len() + 1,
        option.is_some() ==> final(query)@.subrange(0, old(query)@.len() as int) == old(query)@,
{
    if let Some(value) = option {
        let text = value.to_query_string();
        query.push((key, text));
        assert(final(query)@.subrange(0, old(query)@.len() as int) =~= old(query)@);
    }
    assert(pair_views(final(query)@) =~= pair_views(old(query)@) + opt_pair(
        key@,
        option_text(*option),
    ));
}

impl<'a> QuandlRequest<'a> {
    /// The pairs of the query string: one for each parameter that is set, in
    /// the fixed order.
    pub fn query(&self) -> (query: Vec<(&'static str, String)>)
        ensures
            pair_views(query@) == self@.query_pairs(),
    {
        let ghost v = self@;
        let mut query: Vec<(&'static str, String)> = Vec::new();
        assert(pair_views(query@) =~= v.pairs_upto(0));
        set_query_pair(&mut query, "api_key", &self.quandl.api_key);
        assert(pair_views(query@) == v.pairs_upto(1));
        set_query_pair(&mut query, "limit", &self.limit);
        assert(pair_views(query@) == v.pairs_upto(2));
        set_query_pair(&mut query, "rows", &self.rows);
        assert(pair_views(query@) == v.pairs_upto(3));
        set_query_pair(&mut query, "column_index", &self.column_index);
        assert(pair_views(query@) == v.pairs_upto(4));
        set_query_pair(&mut query, "start_date", &self.start_date);
        assert(pair_views(query@) == v.pairs_upto(5));
        set_query_pair(&mut query, "end_date", &self.end_date);
        assert(pair_views(query@) == v.pairs_upto(6));
        set_query_pair(&mut query, "order", &self.order);
        assert(pair_views(query@) == v.pairs_upto(7));
        set_query_pair(&mut query, "collapse", &self.collapse);
        assert(pair_views(query@) == v.pairs_upto(8));
        set_query_pair(&mut query, "transform", &self.transform);
        assert(pair_views(query@) == v.pairs_upto(9));
        query
    }

    /// The URL of this request as it is written down: the address of the
    /// dataset's observations, then `?` and the query pairs where there are
    /// any.
    pub fn uri_text(&self) -> (text: String)
        ensures
            text@ == self@.uri_text(),
    {
        proof {
            reveal_strlit("/");
        }
        let query = self.query();
        let mut text = String::from_str("https://www.quandl.com/api/v3/datasets");
        text.append("/");
        text.append(self.database_code.as_str());
        text.append("/");
        text.append(self.dataset_code.as_str());
        text.append("/data.json");
        push_query(&mut text, &query);
        assert(text@ =~= self@.uri_text());
        text
    }

    /// The URL to fetch for this request. A URL error where the request does
    /// not serialise to a well-formed URL.
    pub fn get_uri(&self) -> (r: Result<String, QuandlError>)
        ensures
            match url_text(self@.uri_text()) {
                Some(parsed) => r matches Ok(uri) && uri@ == parsed,
                None => r matches Err(QuandlError::Url(_)),
            },
    {
        let text = self.uri_text();
        checked_url(text.as_str())
    }
}

/// What a request reports when its start date lies after its end date.
pub open spec fn date_range_message(start: Date, end: Date) -> Seq<char> {
    "start date `"@ + start.text() + "` is after end date `"@ + end.text() + "`"@
}

/// Accepts a pair of dates unless both are present and the start lies after
/// the end.
pub fn validate_date(start_date: Option<Date>, end_date: Option<Date>) -> (r: Result<
    (),
    QuandlError,
>)
    ensures
        match (start_date, end_date) {
            (Some(start), Some(end)) => if start.is_after(end) {
                r matches Err(QuandlError::Date(message)) && message@ == date_range_message(
                    start,
                    end,
                )
            } else {
                r is Ok
            },
            _ => r is Ok,
        },
{
    if let (Some(start), Some(end)) = (start_date, end_date) {
        if start.after(&end) {
            let mut message = String::from_str("start date `");
            message.append(start.to_string().as_str());
            message.append("` is after end date `");
            message.append(end.to_string().as_str());
            message.append("`");
            assert(message@ =~= date_range_message(start, end));
            return Err(QuandlError::Date(message));
        }
    }
    Ok(())
}

} // verus!
