use quandl_v3::date::Date;
use quandl_v3::error::QuandlError;
use quandl_v3::quandl::Quandl;
use quandl_v3::quandl_request::{
    set_query_pair, validate_date, Collapse, Order, QuandlRequest, QueryValue, Transform,
};
use quandl_v3::query::{checked_url, push_encoded};

fn new_quandl_request(quandl: &Quandl) -> QuandlRequest<'_> {
    quandl.new_request("WIKI", "AAPL")
}

fn day(year: i32, month: u32, day: u32) -> Date {
    Date::from_ymd_opt(year, month, day).unwrap()
}

#[test]
fn test_new_quandl_request() {
    let q = Quandl::new();
    let qr = new_quandl_request(&q);
    assert_eq!(qr.database_code, String::from("WIKI"));
    assert_eq!(qr.dataset_code, String::from("AAPL"));
    assert_eq!(qr.limit, None);
}

#[test]
fn test_limit() {
    let q = Quandl::new();
    let qr = new_quandl_request(&q).limit(12);
    assert_eq!(qr.limit, Some(12));
}

#[test]
fn test_rows() {
    let q = Quandl::new();
    let qr = new_quandl_request(&q).rows(2);
    assert_eq!(qr.rows, Some(2));
}

#[test]
fn test_column_index() {
    let q = Quandl::new();
    let qr = new_quandl_request(&q).column_index(0);
    assert_eq!(qr.column_index, Some(0));
}

#[test]
fn test_order() {
    let q = Quandl::new();
    let qr = new_quandl_request(&q).order(Order::Asc);
    assert_eq!(qr.order, Some(Order::Asc));
}

#[test]
fn test_collapse() {
    let q = Quandl::new();
    let qr = new_quandl_request(&q).collapse(Collapse::Daily);
    assert_eq!(qr.collapse, Some(Collapse::Daily));
}

#[test]
fn test_transform() {
    let q = Quandl::new();
    let qr = new_quandl_request(&q).transform(Transform::Rdiff);
    assert_eq!(qr.transform, Some(Transform::Rdiff));
}

#[test]
fn test_url_query() {
    let u_str = "https://www.quandl.com/api/v3/datasets/WIKI/AAPL/data.\
                 json?limit=10&rows=1&column_index=25&start_date=2015-02-10&end_date=2015-03-1\
                 0&order=asc&collapse=daily&transform=normalize";
    let uri = u_str.parse::<hyper::Uri>().unwrap();

    let q = Quandl::new();
    let qr = new_quandl_request(&q)
        .order(Order::Asc)
        .limit(10u64)
        .collapse(Collapse::Daily)
        .rows(1u64)
        .column_index(25u64)
        .transform(Transform::Normalize)
        .start_date("2015-02-10")
        .unwrap()
        .end_date("2015-03-10")
        .unwrap();
    assert_eq!(qr.get_uri().unwrap(), u_str);
    assert_eq!(qr.uri_text(), u_str);
    assert_eq!(qr.get_uri().unwrap().parse::<hyper::Uri>().unwrap(), uri);
}

#[test]
fn test_validate_date_err() {
    // from str
    let q = Quandl::new();
    let qr = new_quandl_request(&q)
        .start_date("2015-02-10")
        .unwrap()
        .end_date("2015-01-10");

    println!("{:?}", qr);
    assert_eq!(&qr.is_err(), &true);

    // from a date
    let q = Quandl::new();
    let qr = new_quandl_request(&q)
        .start_date(&day(2015, 2, 10))
        .unwrap()
        .end_date(&day(2015, 1, 10));

    println!("{:?}", qr);
    assert_eq!(&qr.is_err(), &true);

    // from a date + str
    let q = Quandl::new();
    let qr = new_quandl_request(&q)
        .start_date(&day(2015, 2, 10))
        .unwrap()
        .end_date("2015-01-10");

    println!("{:?}", qr);
    assert_eq!(&qr.is_err(), &true);

    // from a date + str
    let q = Quandl::new();
    let qr = new_quandl_request(&q)
        .end_date(&day(2015, 2, 10))
        .unwrap()
        .start_date("2015-03-10");

    println!("{:?}", qr);
    assert_eq!(&qr.is_err(), &true);

    // correct params should not have an error
    let q = Quandl::new();
    let qr = new_quandl_request(&q)
        .start_date(&day(2015, 2, 10))
        .unwrap()
        .end_date("2015-03-10");

    println!("{:?}", qr);
    assert_eq!(&qr.is_ok(), &true);
}

#[test]
fn default_request_is_empty() {
    let q = Quandl::new();
    let qr = QuandlRequest::default(&q);
    assert_eq!(qr.database_code, "");
    assert_eq!(qr.dataset_code, "");
    assert_eq!(qr.limit, None);
    assert_eq!(qr.rows, None);
    assert_eq!(qr.column_index, None);
    assert_eq!(qr.start_date, None);
    assert_eq!(qr.end_date, None);
    assert_eq!(qr.order, None);
    assert_eq!(qr.collapse, None);
    assert_eq!(qr.transform, None);
    assert!(qr.query().is_empty());
}

#[test]
fn session_key_is_set_and_replaced() {
    let q = Quandl::new();
    assert_eq!(q.api_key, None);
    let q = q.api_key("first");
    assert_eq!(q.api_key, Some(String::from("first")));
    let q = q.api_key("second");
    assert_eq!(q.api_key, Some(String::from("second")));
    let d = Quandl::default();
    assert_eq!(d.api_key, None);
}

#[test]
fn url_without_filters_has_no_query() {
    let q = Quandl::new();
    let qr = new_quandl_request(&q);
    assert_eq!(
        qr.get_uri().unwrap(),
        "https://www.quandl.com/api/v3/datasets/WIKI/AAPL/data.json"
    );
}

#[test]
fn url_holds_only_the_fields_that_are_set() {
    let q = Quandl::new();
    let qr = new_quandl_request(&q).transform(Transform::Cumul).rows(3);
    assert_eq!(
        qr.uri_text(),
        "https://www.quandl.com/api/v3/datasets/WIKI/AAPL/data.json?rows=3&transform=cumul"
    );
    let query = qr.query();
    assert_eq!(query, vec![("rows", String::from("3")), ("transform", String::from("cumul"))]);
}

#[test]
fn url_starts_its_query_with_the_api_key() {
    let q = Quandl::new().api_key("secret");
    let qr = new_quandl_request(&q)
        .collapse(Collapse::Annual)
        .order(Order::Desc)
        .end_date("2001-12-31")
        .unwrap();
    assert_eq!(
        qr.get_uri().unwrap(),
        "https://www.quandl.com/api/v3/datasets/WIKI/AAPL/data.json?api_key=secret&end_date=2001-12-31&order=desc&collapse=annual"
    );
}

#[test]
fn every_subset_of_fields_keeps_the_fixed_order() {
    let keys = [
        "api_key", "limit", "rows", "column_index", "start_date", "end_date", "order",
        "collapse", "transform",
    ];
    let values = ["k", "1", "2", "3", "2000-01-02", "2000-01-03", "asc", "weekly", "diff"];
    for mask in 0u32..512 {
        let mut q = Quandl::new();
        if mask & 1 != 0 {
            q = q.api_key("k");
        }
        let mut qr = new_quandl_request(&q);
        if mask & 2 != 0 {
            qr = qr.limit(1);
        }
        if mask & 4 != 0 {
            qr = qr.rows(2);
        }
        if mask & 8 != 0 {
            qr = qr.column_index(3);
        }
        if mask & 16 != 0 {
            qr = qr.start_date("2000-01-02").unwrap();
        }
        if mask & 32 != 0 {
            qr = qr.end_date("2000-01-03").unwrap();
        }
        if mask & 64 != 0 {
            qr = qr.order(Order::Asc);
        }
        if mask & 128 != 0 {
            qr = qr.collapse(Collapse::Weekly);
        }
        if mask & 256 != 0 {
            qr = qr.transform(Transform::Diff);
        }
        let mut expected: Vec<(&str, String)> = Vec::new();
        for i in 0..9 {
            if mask & (1 << i) != 0 {
                expected.push((keys[i], String::from(values[i])));
            }
        }
        assert_eq!(qr.query(), expected);
        let mut text = String::from("https://www.quandl.com/api/v3/datasets/WIKI/AAPL/data.json");
        for (i, pair) in expected.iter().enumerate() {
            text.push(if i == 0 { '?' } else { '&' });
            text.push_str(pair.0);
            text.push('=');
            text.push_str(&pair.1);
        }
        assert_eq!(qr.uri_text(), text);
        assert_eq!(qr.get_uri().unwrap(), text);
    }
}

#[test]
fn enum_tokens() {
    assert_eq!(Order::Asc.to_string(), "asc");
    assert_eq!(Order::Desc.to_string(), "desc");
    assert_eq!(Collapse::Daily.to_string(), "daily");
    assert_eq!(Collapse::Weekly.to_string(), "weekly");
    assert_eq!(Collapse::Monthly.to_string(), "monthly");
    assert_eq!(Collapse::Quarterly.to_string(), "quarterly");
    assert_eq!(Collapse::Annual.to_string(), "annual");
    assert_eq!(Transform::Diff.to_string(), "diff");
    assert_eq!(Transform::Rdiff.to_string(), "rdiff");
    assert_eq!(Transform::Cumul.to_string(), "cumul");
    assert_eq!(Transform::Normalize.to_string(), "normalize");
}

#[test]
fn query_values() {
    assert_eq!(0u64.to_query_string(), "0");
    assert_eq!(7u64.to_query_string(), "7");
    assert_eq!(10u64.to_query_string(), "10");
    assert_eq!(1234567890u64.to_query_string(), "1234567890");
    assert_eq!(u64::MAX.to_query_string(), "18446744073709551615");
    assert_eq!(String::from("a b").to_query_string(), "a b");
    assert_eq!(day(2015, 2, 10).to_query_string(), "2015-02-10");
    assert_eq!(Order::Desc.to_query_string(), "desc");
    assert_eq!(Collapse::Quarterly.to_query_string(), "quarterly");
    assert_eq!(Transform::Rdiff.to_query_string(), "rdiff");
}

#[test]
fn set_query_pair_skips_absent_values() {
    let mut query: Vec<(&str, String)> = Vec::new();
    set_query_pair(&mut query, "limit", &Some(5u64));
    set_query_pair(&mut query, "rows", &None::<u64>);
    set_query_pair(&mut query, "order", &Some(Order::Desc));
    assert_eq!(query, vec![("limit", String::from("5")), ("order", String::from("desc"))]);
}

#[test]
fn setting_a_field_twice_keeps_the_last_value() {
    let q = Quandl::new();
    let qr = new_quandl_request(&q).limit(1).limit(2).order(Order::Asc).order(Order::Desc);
    assert_eq!(qr.limit, Some(2));
    assert_eq!(qr.order, Some(Order::Desc));
    let qr = qr.start_date("2015-01-01").unwrap().start_date("2015-06-01").unwrap();
    assert_eq!(qr.start_date, Some(day(2015, 6, 1)));
}

#[test]
fn validate_date_accepts_partial_and_ordered_ranges() {
    assert!(validate_date(None, None).is_ok());
    assert!(validate_date(Some(day(2015, 2, 10)), None).is_ok());
    assert!(validate_date(None, Some(day(2015, 2, 10))).is_ok());
    assert!(validate_date(Some(day(2015, 2, 10)), Some(day(2015, 2, 10))).is_ok());
    assert!(validate_date(Some(day(2015, 2, 10)), Some(day(2015, 2, 11))).is_ok());
    assert!(validate_date(Some(day(2014, 12, 31)), Some(day(2015, 1, 1))).is_ok());
}

#[test]
fn validate_date_reports_both_dates() {
    match validate_date(Some(day(2015, 2, 10)), Some(day(2015, 1, 10))) {
        Err(QuandlError::Date(message)) => {
            assert_eq!(message, "start date `2015-02-10` is after end date `2015-01-10`")
        }
        other => panic!("unexpected result: {:?}", other),
    }
    assert!(matches!(
        validate_date(Some(day(2016, 1, 1)), Some(day(2015, 12, 31))),
        Err(QuandlError::Date(_))
    ));
    assert!(matches!(
        validate_date(Some(day(2015, 1, 2)), Some(day(2015, 1, 1))),
        Err(QuandlError::Date(_))
    ));
}

#[test]
fn dates_out_of_order_fail_in_either_order() {
    let q = Quandl::new();
    let first = new_quandl_request(&q).start_date("2015-02-10").unwrap().end_date("2015-02-09");
    assert!(matches!(first, Err(QuandlError::Date(_))));
    let second = new_quandl_request(&q).end_date("2015-02-09").unwrap().start_date("2015-02-10");
    assert!(matches!(second, Err(QuandlError::Date(_))));
}

#[test]
fn dates_in_order_pass_in_either_order() {
    let q = Quandl::new();
    let first =
        new_quandl_request(&q).start_date("2015-02-10").unwrap().end_date("2015-02-10").unwrap();
    let second =
        new_quandl_request(&q).end_date("2015-02-10").unwrap().start_date("2015-02-10").unwrap();
    assert_eq!(first.start_date, second.start_date);
    assert_eq!(first.end_date, second.end_date);
    assert_eq!(first.start_date, Some(day(2015, 2, 10)));
    assert_eq!(first.end_date, Some(day(2015, 2, 10)));
}

#[test]
fn a_string_that_is_no_date_is_a_parse_error() {
    let q = Quandl::new();
    assert!(matches!(
        new_quandl_request(&q).start_date("2015-02-30"),
        Err(QuandlError::Chrono(_))
    ));
    assert!(matches!(new_quandl_request(&q).end_date("yesterday"), Err(QuandlError::Chrono(_))));
    assert!(matches!(new_quandl_request(&q).end_date(""), Err(QuandlError::Chrono(_))));
}

#[test]
fn url_is_written_as_the_parser_writes_it() {
    let q = Quandl::new();
    let qr = q.new_request("WI KI", "AAPL");
    assert_eq!(qr.uri_text(), "https://www.quandl.com/api/v3/datasets/WI KI/AAPL/data.json");
    assert_eq!(
        qr.get_uri().unwrap(),
        "https://www.quandl.com/api/v3/datasets/WI%20KI/AAPL/data.json"
    );
    assert_eq!(checked_url("HTTPS://Example.COM").unwrap(), "https://example.com/");
}

#[test]
fn text_that_is_no_url_is_a_url_error() {
    assert!(matches!(checked_url("not a url"), Err(QuandlError::Url(_))));
    assert!(matches!(checked_url(""), Err(QuandlError::Url(_))));
    assert!(matches!(checked_url("/api/v3/datasets"), Err(QuandlError::Url(_))));
}

#[test]
fn query_values_are_percent_encoded() {
    let q = Quandl::new().api_key("a&b=c");
    let qr = new_quandl_request(&q);
    assert_eq!(qr.query(), vec![("api_key", String::from("a&b=c"))]);
    assert_eq!(
        qr.uri_text(),
        "https://www.quandl.com/api/v3/datasets/WIKI/AAPL/data.json?api_key=a%26b%3Dc"
    );
    let uri = qr.get_uri().unwrap();
    assert_eq!(uri, "https://www.quandl.com/api/v3/datasets/WIKI/AAPL/data.json?api_key=a%26b%3Dc");
    let parsed = url::Url::parse(&uri).unwrap();
    let pairs: Vec<(String, String)> =
        parsed.query_pairs().map(|(k, v)| (k.into_owned(), v.into_owned())).collect();
    assert_eq!(pairs, vec![(String::from("api_key"), String::from("a&b=c"))]);
    assert_eq!(parsed.fragment(), None);
}

#[test]
fn every_reserved_character_is_encoded() {
    let q = Quandl::new().api_key("k#1 +%?/\u{e9}~-._");
    let qr = new_quandl_request(&q).limit(3);
    let expected = "https://www.quandl.com/api/v3/datasets/WIKI/AAPL/data.json?api_key=k%231%20%2B%25%3F%2F%C3%A9~-._&limit=3";
    assert_eq!(qr.uri_text(), expected);
    assert_eq!(qr.get_uri().unwrap(), expected);
    let parsed = url::Url::parse(&qr.get_uri().unwrap()).unwrap();
    let pairs: Vec<(String, String)> =
        parsed.query_pairs().map(|(k, v)| (k.into_owned(), v.into_owned())).collect();
    assert_eq!(
        pairs,
        vec![
            (String::from("api_key"), String::from("k#1 +%?/\u{e9}~-._")),
            (String::from("limit"), String::from("3")),
        ]
    );
}

#[test]
fn encoding_one_value() {
    let mut out = String::from("v=");
    push_encoded(&mut out, "");
    assert_eq!(out, "v=");
    push_encoded(&mut out, "AZaz09-._~");
    assert_eq!(out, "v=AZaz09-._~");
    push_encoded(&mut out, "\u{0}\u{7f} !*'()");
    assert_eq!(out, "v=AZaz09-._~%00%7F%20%21%2A%27%28%29");
    let mut out = String::new();
    push_encoded(&mut out, "\u{20ac}\u{1f600}");
    assert_eq!(out, "%E2%82%AC%F0%9F%98%80");
}

#[test]
fn a_signed_year_is_encoded() {
    let q = Quandl::new();
    let qr = new_quandl_request(&q).start_date(&day(10000, 1, 1)).unwrap();
    assert_eq!(
        qr.get_uri().unwrap(),
        "https://www.quandl.com/api/v3/datasets/WIKI/AAPL/data.json?start_date=%2B10000-01-01"
    );
}
