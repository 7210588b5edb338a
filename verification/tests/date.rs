use chrono::NaiveDate;
use quandl_v3::date::{Date, MAX_YEAR, MIN_YEAR};
use quandl_v3::error::QuandlError;
use quandl_v3::text::{decimal_string, digit_str, push_decimal, push_two_digits};

#[test]
fn calendar_dates_are_accepted() {
    let date = Date::from_ymd_opt(2015, 2, 10).unwrap();
    assert_eq!((date.year(), date.month(), date.day()), (2015, 2, 10));
    assert!(Date::from_ymd_opt(2016, 2, 29).is_some());
    assert!(Date::from_ymd_opt(2000, 2, 29).is_some());
    assert!(Date::from_ymd_opt(2015, 12, 31).is_some());
    assert!(Date::from_ymd_opt(0, 1, 1).is_some());
    assert!(Date::from_ymd_opt(-4, 2, 29).is_some());
    assert!(Date::from_ymd_opt(MIN_YEAR, 1, 1).is_some());
    assert!(Date::from_ymd_opt(MAX_YEAR, 12, 31).is_some());
}

#[test]
fn other_dates_are_refused() {
    assert!(Date::from_ymd_opt(2015, 2, 29).is_none());
    assert!(Date::from_ymd_opt(1900, 2, 29).is_none());
    assert!(Date::from_ymd_opt(2100, 2, 29).is_none());
    assert!(Date::from_ymd_opt(2015, 4, 31).is_none());
    assert!(Date::from_ymd_opt(2015, 0, 1).is_none());
    assert!(Date::from_ymd_opt(2015, 13, 1).is_none());
    assert!(Date::from_ymd_opt(2015, 1, 0).is_none());
    assert!(Date::from_ymd_opt(2015, 1, 32).is_none());
    assert!(Date::from_ymd_opt(2015, 1, 256).is_none());
    assert!(Date::from_ymd_opt(2015, 257, 1).is_none());
    assert!(Date::from_ymd_opt(MIN_YEAR - 1, 12, 31).is_none());
    assert!(Date::from_ymd_opt(MAX_YEAR + 1, 1, 1).is_none());
    assert!(Date::from_ymd_opt(i32::MAX, 1, 1).is_none());
    assert!(Date::from_ymd_opt(i32::MIN, 1, 1).is_none());
}

#[test]
fn the_calendar_agrees_with_chrono() {
    for year in [-262143, -401, -400, -100, -5, -4, -1, 0, 1, 4, 100, 400, 1900, 2000, 2015, 2016, 2100, 9999, 10000, 262142] {
        for month in 0u32..=13 {
            for day in 0u32..=32 {
                let ours = Date::from_ymd_opt(year, month, day);
                let theirs = NaiveDate::from_ymd_opt(year, month, day);
                assert_eq!(ours.is_some(), theirs.is_some(), "{}-{}-{}", year, month, day);
                if let (Some(ours), Some(theirs)) = (ours, theirs) {
                    assert_eq!(ours.to_string(), theirs.to_string());
                }
            }
        }
    }
    assert_eq!(
        Date::from_ymd_opt(262143, 1, 1).is_some(),
        NaiveDate::from_ymd_opt(262143, 1, 1).is_some()
    );
    assert_eq!(
        Date::from_ymd_opt(-262144, 12, 31).is_some(),
        NaiveDate::from_ymd_opt(-262144, 12, 31).is_some()
    );
}

#[test]
fn dates_are_written_as_year_month_day() {
    let text = |y: i32, m: u32, d: u32| Date::from_ymd_opt(y, m, d).unwrap().to_string();
    assert_eq!(text(2015, 2, 10), "2015-02-10");
    assert_eq!(text(2015, 12, 31), "2015-12-31");
    assert_eq!(text(1, 1, 1), "0001-01-01");
    assert_eq!(text(0, 1, 1), "0000-01-01");
    assert_eq!(text(987, 6, 5), "0987-06-05");
    assert_eq!(text(9999, 12, 31), "9999-12-31");
    assert_eq!(text(10000, 1, 1), "+10000-01-01");
    assert_eq!(text(262142, 12, 31), "+262142-12-31");
    assert_eq!(text(-1, 1, 1), "-0001-01-01");
    assert_eq!(text(-9999, 1, 1), "-9999-01-01");
    assert_eq!(text(-10000, 1, 1), "-10000-01-01");
    assert_eq!(text(-262143, 1, 1), "-262143-01-01");
}

#[test]
fn dates_are_read_from_strings() {
    assert_eq!(Date::parse("2015-02-10").unwrap(), Date::from_ymd_opt(2015, 2, 10).unwrap());
    assert_eq!(Date::parse("2016-02-29").unwrap(), Date::from_ymd_opt(2016, 2, 29).unwrap());
    assert_eq!(Date::parse("0001-01-01").unwrap(), Date::from_ymd_opt(1, 1, 1).unwrap());
    assert_eq!(Date::parse("+12345-6-7").unwrap(), Date::from_ymd_opt(12345, 6, 7).unwrap());
    let date = Date::parse("1999-12-31").unwrap();
    assert_eq!((date.year(), date.month(), date.day()), (1999, 12, 31));
    assert_eq!(date.to_string(), "1999-12-31");
}

#[test]
fn strings_that_are_no_date_are_refused() {
    for text in ["", "2015", "2015-02", "2015-02-30", "2015-13-01", "2015-00-10", "10/02/2015", "2015-02-10T00:00:00", "tomorrow"] {
        assert!(matches!(Date::parse(text), Err(QuandlError::Chrono(_))), "{}", text);
        assert!(text.parse::<NaiveDate>().is_err());
    }
}

#[test]
fn dates_are_ordered_as_in_the_calendar() {
    let day = |y: i32, m: u32, d: u32| Date::from_ymd_opt(y, m, d).unwrap();
    assert!(day(2015, 2, 10).after(&day(2015, 1, 10)));
    assert!(day(2015, 2, 10).after(&day(2015, 2, 9)));
    assert!(day(2015, 1, 1).after(&day(2014, 12, 31)));
    assert!(day(1, 1, 1).after(&day(-1, 12, 31)));
    assert!(!day(2015, 2, 10).after(&day(2015, 2, 10)));
    assert!(!day(2015, 1, 31).after(&day(2015, 2, 1)));
    assert!(!day(2014, 12, 31).after(&day(2015, 1, 1)));
    let days = [day(-5, 3, 1), day(1999, 12, 31), day(2000, 1, 1), day(2000, 1, 2), day(2000, 2, 1)];
    for (i, a) in days.iter().enumerate() {
        for (j, b) in days.iter().enumerate() {
            assert_eq!(a.after(b), i > j);
            let x = NaiveDate::from_ymd_opt(a.year(), a.month(), a.day()).unwrap();
            let y = NaiveDate::from_ymd_opt(b.year(), b.month(), b.day()).unwrap();
            assert_eq!(a.after(b), x > y);
        }
    }
}

#[test]
fn numbers_are_written_in_decimal() {
    assert_eq!(decimal_string(0), "0");
    assert_eq!(decimal_string(9), "9");
    assert_eq!(decimal_string(10), "10");
    assert_eq!(decimal_string(404), "404");
    assert_eq!(decimal_string(1000000), "1000000");
    assert_eq!(decimal_string(u64::MAX), u64::MAX.to_string());
    for d in 0u8..10 {
        assert_eq!(digit_str(d), d.to_string());
    }
    let mut out = String::from("n=");
    push_decimal(&mut out, 120);
    assert_eq!(out, "n=120");
    push_two_digits(&mut out, 7);
    assert_eq!(out, "n=12007");
    push_two_digits(&mut out, 99);
    assert_eq!(out, "n=1200799");
    push_two_digits(&mut out, 0);
    assert_eq!(out, "n=120079900");
}
