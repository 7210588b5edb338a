//! What holds of every request: the shape of its query string, and the rule
//! that ties its two dates.

use vstd::prelude::*;
use vstd::string::*;
use crate::date::Date;
use crate::quandl_request::{param_keys, Collapse, Order, RequestView, Transform};
use crate::query::{is_plain, is_unreserved_char, lemma_plain_text_unchanged, percent_encoded};
use crate::text::{decimal, digit_char};

verus! {

impl RequestView {
    /// The place in the fixed order of the parameter that pair `j` of the
    /// first `n` parameters stems from.
    pub open spec fn slot_upto(self, n: int, j: int) -> int
        decreases n,
    {
        if n <= 0 {
            0
        } else if j < self.pairs_upto(n - 1).len() {
            self.slot_upto(n - 1, j)
        } else {
            n - 1
        }
    }

    /// The place in the fixed order of the parameter that pair `j` of the
    /// query string stems from.
    pub open spec fn slot(self, j: int) -> int {
        self.slot_upto(9, j)
    }
}

/// No two parameters have the same name.
pub proof fn lemma_param_keys_differ()
    ensures
        param_keys().len() == 9,
        forall|i: int, k: int|
            0 <= i < 9 && 0 <= k < 9 && i != k ==> param_keys()[i] != param_keys()[k],
{
    reveal_strlit("api_key");
    reveal_strlit("limit");
    reveal_strlit("rows");
    reveal_strlit("column_index");
    reveal_strlit("start_date");
    reveal_strlit("end_date");
    reveal_strlit("order");
    reveal_strlit("collapse");
    reveal_strlit("transform");
    let keys = param_keys();
    assert(keys[0].len() == 7 && keys[1].len() == 5 && keys[2].len() == 4 && keys[3].len() == 12
        && keys[4].len() == 10 && keys[5].len() == 8 && keys[6].len() == 5 && keys[7].len() == 8
        && keys[8].len() == 9);
    assert(keys[1][0] == 'l' && keys[6][0] == 'o');
    assert(keys[5][0] == 'e' && keys[7][0] == 'c');
}

/// The pairs of the first `n` parameters: each stems from a parameter that
/// is set, at a place that grows from pair to pair.
proof fn lemma_pairs_upto(v: RequestView, n: int)
    requires
        0 <= n <= 9,
    ensures
        forall|j: int|
            0 <= j < v.pairs_upto(n).len() ==> 0 <= #[trigger] v.slot_upto(n, j) < n
                && v.param_value(v.slot_upto(n, j)) == Some(v.pairs_upto(n)[j].1)
                && v.pairs_upto(n)[j].0 == param_keys()[v.slot_upto(n, j)],
        forall|j: int, k: int|
            0 <= j < k < v.pairs_upto(n).len() ==> v.slot_upto(n, j) < v.slot_upto(n, k),
        forall|i: int|
            0 <= i < n && v.param_value(i) is Some ==> exists|j: int|
                0 <= j < v.pairs_upto(n).len() && #[trigger] v.slot_upto(n, j) == i,
    decreases n,
{
    if n > 0 {
        lemma_pairs_upto(v, n - 1);
        let before = v.pairs_upto(n - 1);
        let now = v.pairs_upto(n);
        assert forall|j: int| 0 <= j < now.len() implies 0 <= #[trigger] v.slot_upto(n, j) < n
            && v.param_value(v.slot_upto(n, j)) == Some(now[j].1) && now[j].0 == param_keys()[v.slot_upto(
            n,
            j,
        )] by {
            if j < before.len() {
                assert(v.slot_upto(n, j) == v.slot_upto(n - 1, j));
                assert(now[j] == before[j]);
            }
        }
        assert forall|j: int, k: int| 0 <= j < k < now.len() implies v.slot_upto(n, j)
            < v.slot_upto(n, k) by {
            if k < before.len() {
                assert(v.slot_upto(n, j) == v.slot_upto(n - 1, j));
                assert(v.slot_upto(n, k) == v.slot_upto(n - 1, k));
            } else {
                assert(v.slot_upto(n, j) == v.slot_upto(n - 1, j));
                assert(0 <= v.slot_upto(n - 1, j) < n - 1);
            }
        }
        assert forall|i: int| 0 <= i < n && v.param_value(i) is Some implies exists|j: int|
            0 <= j < now.len() && #[trigger] v.slot_upto(n, j) == i by {
            if i < n - 1 {
                let j = choose|j: int| 0 <= j < before.len() && #[trigger] v.slot_upto(n - 1, j) == i;
                assert(v.slot_upto(n, j) == i);
            } else {
                let j = before.len() as int;
                assert(v.slot_upto(n, j) == i);
            }
        }
    }
}

/// The query string holds the parameters in the fixed order, and only those
/// that the request sets: each pair is the name and the text of a parameter
/// that is set; from one pair to the next the place in the fixed order grows;
/// and a name occurs among the pairs if and only if its parameter is set.
pub proof fn lemma_query_in_fixed_order(v: RequestView)
    ensures
        forall|j: int|
            0 <= j < v.query_pairs().len() ==> 0 <= #[trigger] v.slot(j) < 9 && v.param_value(
                v.slot(j),
            ) == Some(v.query_pairs()[j].1) && v.query_pairs()[j].0 == param_keys()[v.slot(j)],
        forall|j: int, k: int| 0 <= j < k < v.query_pairs().len() ==> v.slot(j) < v.slot(k),
        forall|i: int|
            0 <= i < 9 ==> (v.param_value(i) is Some <==> exists|j: int|
                0 <= j < v.query_pairs().len() && #[trigger] v.query_pairs()[j].0 == param_keys()[i]),
{
    lemma_pairs_upto(v, 9);
    lemma_param_keys_differ();
    let pairs = v.query_pairs();
    assert forall|i: int| 0 <= i < 9 implies (v.param_value(i) is Some <==> exists|j: int|
        0 <= j < pairs.len() && #[trigger] pairs[j].0 == param_keys()[i]) by {
        if v.param_value(i) is Some {
            let j = choose|j: int| 0 <= j < pairs.len() && #[trigger] v.slot_upto(9, j) == i;
            assert(pairs[j].0 == param_keys()[i]);
        }
        if exists|j: int| 0 <= j < pairs.len() && #[trigger] pairs[j].0 == param_keys()[i] {
            let j = choose|j: int| 0 <= j < pairs.len() && #[trigger] pairs[j].0 == param_keys()[i];
            assert(0 <= v.slot(j) < 9);
            assert(v.slot(j) == i);
        }
    }
}

/// A decimal numeral stands in a query string as it is.
pub proof fn lemma_numeral_unchanged(n: nat)
    ensures
        is_plain(decimal(n)),
        percent_encoded(decimal(n)) == decimal(n),
    decreases n,
{
    if n >= 10 {
        lemma_numeral_unchanged(n / 10);
        assert(is_unreserved_char(digit_char(n % 10)));
    } else {
        assert(is_unreserved_char(digit_char(n)));
    }
    lemma_plain_text_unchanged(decimal(n));
}

/// The word of every sort order, frequency and calculation stands in a query
/// string as it is.
pub proof fn lemma_tokens_unchanged(order: Order, collapse: Collapse, transform: Transform)
    ensures
        percent_encoded(order.token()) == order.token(),
        percent_encoded(collapse.token()) == collapse.token(),
        percent_encoded(transform.token()) == transform.token(),
{
    reveal_strlit("asc");
    reveal_strlit("desc");
    reveal_strlit("daily");
    reveal_strlit("weekly");
    reveal_strlit("monthly");
    reveal_strlit("quarterly");
    reveal_strlit("annual");
    reveal_strlit("diff");
    reveal_strlit("rdiff");
    reveal_strlit("cumul");
    reveal_strlit("normalize");
    assert(is_plain(order.token()));
    assert(is_plain(collapse.token()));
    assert(is_plain(transform.token()));
    lemma_plain_text_unchanged(order.token());
    lemma_plain_text_unchanged(collapse.token());
    lemma_plain_text_unchanged(transform.token());
}

/// A date of the years 0 to 9999 stands in a query string as it is.
pub proof fn lemma_date_unchanged(date: Date)
    requires
        0 <= date.spec_year() <= 9999,
    ensures
        percent_encoded(date.text()) == date.text(),
{
    let text = date.text();
    assert(text.len() == 10);
    assert forall|i: int| 0 <= i < text.len() implies is_unreserved_char(#[trigger] text[i]) by {
        assert(forall|d: nat| is_unreserved_char(#[trigger] digit_char(d)));
    }
    lemma_plain_text_unchanged(text);
}

/// A start date that lies after the end date is refused whichever of the two
/// is set first, whatever the request held before.
pub proof fn lemma_dates_out_of_order_refused(v: RequestView, start: Date, end: Date)
    requires
        start.is_after(end),
    ensures
        match v.with_start_date(start) {
            Some(first) => first.with_end_date(end) is None,
            None => true,
        },
        match v.with_end_date(end) {
            Some(first) => first.with_start_date(start) is None,
            None => true,
        },
{
}

/// On a request without dates, a start date that does not lie after the end
/// date is accepted whichever of the two is set first, and both orders leave
/// the same request.
pub proof fn lemma_dates_in_order_accepted(v: RequestView, start: Date, end: Date)
    requires
        v.start_date is None,
        v.end_date is None,
        !start.is_after(end),
    ensures
        v.with_start_date(start) is Some,
        v.with_start_date(start).unwrap().with_end_date(end) is Some,
        v.with_end_date(end) is Some,
        v.with_end_date(end).unwrap().with_start_date(start) is Some,
        v.with_start_date(start).unwrap().with_end_date(end) == v.with_end_date(
            end,
        ).unwrap().with_start_date(start),
        v.with_start_date(start).unwrap().with_end_date(end).unwrap().dates_in_order(),
{
}

/// Of two different dates exactly one lies after the other, so exactly one
/// way of making them the start and the end of a request is refused.
pub proof fn lemma_one_order_refused(v: RequestView, a: Date, b: Date)
    requires
        a != b,
        v.start_date is None,
        v.end_date is None,
    ensures
        a.is_after(b) != b.is_after(a),
        (v.with_start_date(a).unwrap().with_end_date(b) is None) != (v.with_start_date(
            b,
        ).unwrap().with_end_date(a) is None),
{
    if !a.is_after(b) && !b.is_after(a) {
        a.lemma_same_fields(b);
    }
}

/// Setting a date keeps the dates of a request in order.
pub proof fn lemma_setters_keep_dates_in_order(v: RequestView, date: Date)
    requires
        v.dates_in_order(),
    ensures
        v.with_start_date(date) matches Some(changed) ==> changed.dates_in_order(),
        v.with_end_date(date) matches Some(changed) ==> changed.dates_in_order(),
{
}

} // verus!
