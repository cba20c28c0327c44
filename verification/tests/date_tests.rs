use tango_bridge::date::unix_secs_to_date;
use tango_bridge::token::candidate_dates_at;

#[test]
fn test_unix_secs_to_date() {
    // 2024-01-15 00:00:00 UTC
    assert_eq!(unix_secs_to_date(1705276800), "2024-01-15");
    // 2000-01-01 00:00:00 UTC
    assert_eq!(unix_secs_to_date(946684800), "2000-01-01");
    // 1970-01-01 00:00:00 UTC
    assert_eq!(unix_secs_to_date(0), "1970-01-01");
}

#[test]
fn date_before_epoch_rounds_down() {
    assert_eq!(unix_secs_to_date(-1), "1969-12-31");
    assert_eq!(unix_secs_to_date(-86400), "1969-12-31");
    assert_eq!(unix_secs_to_date(-86401), "1969-12-30");
}

#[test]
fn date_within_a_day_is_the_same() {
    assert_eq!(unix_secs_to_date(1705276800 + 86399), "2024-01-15");
    assert_eq!(unix_secs_to_date(1705276800 + 86400), "2024-01-16");
}

#[test]
fn date_leap_days() {
    assert_eq!(unix_secs_to_date(951782400), "2000-02-29");
    assert_eq!(unix_secs_to_date(1709164800), "2024-02-29");
    assert_eq!(unix_secs_to_date(4107542400), "2100-03-01");
}

#[test]
fn date_year_padding() {
    assert_eq!(unix_secs_to_date(-62135596800), "0001-01-01");
    assert_eq!(unix_secs_to_date(-62167219200), "0000-01-01");
    assert_eq!(unix_secs_to_date(-62167219201), "-001-12-31");
    assert_eq!(unix_secs_to_date(253402300800), "10000-01-01");
}

#[test]
fn date_extreme_timestamps() {
    assert_eq!(unix_secs_to_date(i64::MAX), "292277026596-12-04");
    assert_eq!(unix_secs_to_date(i64::MIN), "-292277022657-01-27");
}

#[test]
fn candidate_dates_are_consecutive_days() {
    let dates = candidate_dates_at(1705276800 + 3600);
    assert_eq!(dates, ["2024-01-14".to_string(), "2024-01-15".to_string(), "2024-01-16".to_string()]);
}

#[test]
fn candidate_dates_across_a_year() {
    let dates = candidate_dates_at(1704067199);
    assert_eq!(dates, ["2023-12-30".to_string(), "2023-12-31".to_string(), "2024-01-01".to_string()]);
}

#[test]
fn date_texts_sort_as_times() {
    let times = [-62167219200i64, -1, 0, 86399, 86400, 951782400, 1705276800, 253402300799];
    for w in times.windows(2) {
        let a = unix_secs_to_date(w[0]);
        let b = unix_secs_to_date(w[1]);
        assert!(a <= b);
        assert_eq!(a == b, w[0].div_euclid(86400) == w[1].div_euclid(86400));
        assert_eq!(a.len(), 10);
    }
    assert_eq!(unix_secs_to_date(253402300799), "9999-12-31");
}
