use stopwatch::date_time::leap_year;
use stopwatch::DateTime;

#[test]
fn new_keeps_the_components() {
    let dt = DateTime::new(1970, 32, 7, 8, 9, 10).unwrap();
    assert_eq!(dt.year(), 1970);
    assert_eq!(dt.ordinal(), 32);
    assert_eq!(dt.hour(), 7);
    assert_eq!(dt.minute(), 8);
    assert_eq!(dt.second(), 9);
    assert_eq!(dt.nanosecond(), 10);
    assert_eq!(dt.as_hms(), (7, 8, 9));
    assert_eq!(dt.to_ordinal_date(), (1970, 32));
}

#[test]
fn new_takes_the_last_day_of_a_common_year() {
    assert!(DateTime::new(1970, 365, 23, 59, 59, 999_999_999).is_some());
    assert!(DateTime::new(1970, 366, 0, 0, 0, 0).is_none());
}

#[test]
fn new_takes_day_366_of_a_leap_year_only() {
    assert!(DateTime::new(1972, 366, 0, 0, 0, 0).is_some());
    assert!(DateTime::new(2000, 366, 0, 0, 0, 0).is_some());
    assert!(DateTime::new(1900, 366, 0, 0, 0, 0).is_none());
    assert!(DateTime::new(-4, 366, 0, 0, 0, 0).is_some());
    assert!(DateTime::new(-1, 366, 0, 0, 0, 0).is_none());
    assert!(DateTime::new(0, 366, 0, 0, 0, 0).is_some());
}

#[test]
fn new_refuses_day_zero() {
    assert!(DateTime::new(1970, 0, 0, 0, 0, 0).is_none());
}

#[test]
fn new_refuses_a_time_of_day_out_of_range() {
    assert!(DateTime::new(1970, 1, 24, 0, 0, 0).is_none());
    assert!(DateTime::new(1970, 1, 0, 60, 0, 0).is_none());
    assert!(DateTime::new(1970, 1, 0, 0, 60, 0).is_none());
    assert!(DateTime::new(1970, 1, 0, 0, 0, 1_000_000_000).is_none());
    assert!(DateTime::new(1970, 1, 23, 59, 59, 999_999_999).is_some());
}

#[test]
fn new_keeps_to_the_calendar_of_the_years_from_minus_9999_to_9999() {
    assert!(DateTime::new(-9999, 1, 0, 0, 0, 0).is_some());
    assert!(DateTime::new(9999, 365, 23, 59, 59, 0).is_some());
    assert!(DateTime::new(-10000, 1, 0, 0, 0, 0).is_none());
    assert!(DateTime::new(10000, 1, 0, 0, 0, 0).is_none());
}

#[test]
fn new_agrees_with_the_time_crate_on_which_dates_exist() {
    for year in [-9999, -400, -100, -4, -1, 0, 1, 4, 100, 400, 1900, 1970, 1972, 2000, 9999] {
        for ordinal in [0u16, 1, 59, 60, 365, 366, 367] {
            let ours = DateTime::new(year, ordinal, 0, 0, 0, 0).is_some();
            let theirs = time::Date::from_ordinal_date(year, ordinal).is_ok();
            assert_eq!(ours, theirs);
        }
    }
}

#[test]
fn leap_years_follow_the_gregorian_rule() {
    assert!(leap_year(2000));
    assert!(leap_year(1972));
    assert!(leap_year(0));
    assert!(leap_year(-4));
    assert!(leap_year(-400));
    assert!(!leap_year(1970));
    assert!(!leap_year(1900));
    assert!(!leap_year(2100));
    assert!(!leap_year(-1));
    assert!(!leap_year(-100));
    assert!(leap_year(-9996));
    assert!(!leap_year(9999));
}

#[test]
fn leap_years_are_told_for_every_year_there_is() {
    assert!(leap_year(i32::MIN));
    assert!(!leap_year(i32::MAX));
    assert!(leap_year(2_147_483_644));
    assert!(leap_year(-2_147_483_600));
    assert!(!leap_year(-2_147_483_500));
    assert_eq!(leap_year(i32::MIN), time::util::is_leap_year(i32::MIN));
    assert_eq!(leap_year(i32::MAX), time::util::is_leap_year(i32::MAX));
}

#[test]
fn leap_years_agree_with_the_time_crate() {
    let mut year = -9999;
    while year <= 9999 {
        assert_eq!(leap_year(year), time::util::is_leap_year(year));
        year += 1;
    }
}
