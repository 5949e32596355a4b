use eopkg::Date;

#[test]
fn a_date_is_read_exactly() {
    let date = Date::parse("2020-01-15").unwrap();
    assert_eq!(date.year(), 2020);
    assert_eq!(date.month(), 1);
    assert_eq!(date.day(), 15);
    assert_eq!(Some(date), Date::from_ymd(2020, 1, 15));
}

#[test]
fn the_last_day_of_a_leap_february() {
    let date = Date::parse("2020-02-29").unwrap();
    assert_eq!((date.year(), date.month(), date.day()), (2020, 2, 29));
    assert_eq!(Date::parse("2021-02-29"), None);
    assert_eq!(Date::parse("1900-02-29"), None);
    assert!(Date::parse("2000-02-29").is_some());
}

#[test]
fn what_is_no_date_is_refused() {
    assert_eq!(Date::parse(""), None);
    assert_eq!(Date::parse("foo"), None);
    assert_eq!(Date::parse("2020-13-01"), None);
    assert_eq!(Date::parse("2020-00-10"), None);
    assert_eq!(Date::parse("2020-04-31"), None);
    assert_eq!(Date::parse("2020-01-15T10:00:00"), None);
    assert_eq!(Date::parse("15.01.2020"), None);
}

#[test]
fn from_ymd_knows_the_calendar() {
    assert!(Date::from_ymd(2020, 1, 31).is_some());
    assert!(Date::from_ymd(2020, 1, 32).is_none());
    assert!(Date::from_ymd(2020, 4, 30).is_some());
    assert!(Date::from_ymd(2020, 4, 31).is_none());
    assert!(Date::from_ymd(2020, 0, 1).is_none());
    assert!(Date::from_ymd(2020, 13, 1).is_none());
    assert!(Date::from_ymd(2020, 6, 0).is_none());
    assert!(Date::from_ymd(2019, 2, 28).is_some());
    assert!(Date::from_ymd(2019, 2, 29).is_none());
    assert!(Date::from_ymd(2400, 2, 29).is_some());
    assert!(Date::from_ymd(2100, 2, 29).is_none());
    assert!(Date::from_ymd(0, 2, 29).is_some());
    assert!(Date::from_ymd(-4, 2, 29).is_some());
    assert!(Date::from_ymd(-100, 2, 29).is_none());
    assert!(Date::from_ymd(-400, 2, 29).is_some());
    assert!(Date::from_ymd(i32::MIN, 12, 31).is_some());
    assert!(Date::from_ymd(i32::MAX, 2, 29).is_none());
}

#[test]
fn leap_years_agree_with_chrono() {
    for year in [-401, -400, -100, -4, -1, 0, 1, 4, 100, 400, 1900, 2000, 2019, 2020, 2100] {
        let ours = Date::from_ymd(year, 2, 29).is_some();
        let theirs = chrono::NaiveDate::from_ymd_opt(year, 2, 29).is_some();
        assert_eq!(ours, theirs, "{}", year);
    }
}
