use crm_core::date::{
    date_of_day_number, day_number_of_date, days_in_month, format_date, format_date_time,
    is_leap_year, parse_date, timestamp_of_date, try_date_time_of_timestamp, Date,
};

#[test]
fn parse_reads_a_plain_date() {
    assert_eq!(parse_date("2024-03-09"), Some(Date { year: 2024, month: 3, day: 9 }));
}

#[test]
fn format_pads_with_zeros() {
    let d = Date { year: 87, month: 6, day: 5 };
    assert_eq!(format_date(&d), "0087-06-05");
}

#[test]
fn format_then_parse_is_identity() {
    let d = Date { year: 2024, month: 12, day: 31 };
    assert_eq!(parse_date(&format_date(&d)), Some(d));
}

#[test]
fn parse_accepts_a_leap_day_only_in_a_leap_year() {
    assert_eq!(parse_date("2024-02-29"), Some(Date { year: 2024, month: 2, day: 29 }));
    assert_eq!(parse_date("2023-02-29"), None);
    assert_eq!(parse_date("1900-02-29"), None);
    assert_eq!(parse_date("2000-02-29"), Some(Date { year: 2000, month: 2, day: 29 }));
}

#[test]
fn parse_refuses_dates_that_do_not_exist() {
    assert_eq!(parse_date("2024-04-31"), None);
    assert_eq!(parse_date("2024-13-01"), None);
    assert_eq!(parse_date("2024-00-10"), None);
    assert_eq!(parse_date("2024-01-00"), None);
}

#[test]
fn parse_refuses_other_shapes() {
    assert_eq!(parse_date(""), None);
    assert_eq!(parse_date("2024-1-05"), None);
    assert_eq!(parse_date("2024/01/05"), None);
    assert_eq!(parse_date("2024-01-055"), None);
    assert_eq!(parse_date("yyyy-mm-dd"), None);
}

#[test]
fn leap_year_rule_matches_the_calendar() {
    assert!(is_leap_year(2024));
    assert!(!is_leap_year(2023));
    assert!(!is_leap_year(1900));
    assert!(is_leap_year(2000));
}

#[test]
fn month_lengths_match_the_calendar() {
    assert_eq!(days_in_month(2023, 1), 31);
    assert_eq!(days_in_month(2023, 2), 28);
    assert_eq!(days_in_month(2024, 2), 29);
    assert_eq!(days_in_month(2023, 4), 30);
    assert_eq!(days_in_month(2023, 12), 31);
}

#[test]
fn day_number_zero_is_the_first_day_of_year_zero() {
    assert_eq!(date_of_day_number(0), Date { year: 0, month: 1, day: 1 });
    assert_eq!(date_of_day_number(31), Date { year: 0, month: 2, day: 1 });
    assert_eq!(date_of_day_number(366), Date { year: 1, month: 1, day: 1 });
}

#[test]
fn the_epoch_timestamp_is_the_first_moment_of_nineteen_seventy() {
    assert_eq!(
        try_date_time_of_timestamp(0),
        Some((Date { year: 1970, month: 1, day: 1 }, 0, 0, 0))
    );
}

#[test]
fn the_last_second_of_a_day_stays_on_that_day() {
    assert_eq!(
        try_date_time_of_timestamp(86399),
        Some((Date { year: 1970, month: 1, day: 1 }, 23, 59, 59))
    );
    assert_eq!(
        try_date_time_of_timestamp(86400),
        Some((Date { year: 1970, month: 1, day: 2 }, 0, 0, 0))
    );
}

#[test]
fn a_known_timestamp_converts_to_the_known_moment() {
    assert_eq!(
        try_date_time_of_timestamp(951782400),
        Some((Date { year: 2000, month: 2, day: 29 }, 0, 0, 0))
    );
    assert_eq!(
        try_date_time_of_timestamp(1700000000),
        Some((Date { year: 2023, month: 11, day: 14 }, 22, 13, 20))
    );
}

#[test]
fn timestamps_before_the_epoch_are_refused() {
    assert_eq!(try_date_time_of_timestamp(-1), None);
}

#[test]
fn a_date_and_its_timestamp_round_trip() {
    let d = Date { year: 2024, month: 2, day: 29 };
    let ts = timestamp_of_date(&d).expect("after the epoch");
    assert_eq!(try_date_time_of_timestamp(ts), Some((d, 0, 0, 0)));
    assert_eq!(date_of_day_number(day_number_of_date(&d)), d);
}

#[test]
fn a_date_before_the_epoch_has_no_timestamp() {
    let d = Date { year: 1969, month: 12, day: 31 };
    assert_eq!(timestamp_of_date(&d), None);
    let epoch = Date { year: 1970, month: 1, day: 1 };
    assert_eq!(timestamp_of_date(&epoch), Some(0));
}

#[test]
fn date_time_formatting_pads_both_fields() {
    let d = Date { year: 2023, month: 11, day: 14 };
    assert_eq!(format_date_time(&d, 22, 13), "2023-11-14 22:13");
    assert_eq!(format_date_time(&d, 7, 5), "2023-11-14 07:05");
}

#[test]
fn validity_checks_the_day_against_the_month() {
    assert!(Date { year: 2024, month: 2, day: 29 }.is_valid());
    assert!(!Date { year: 2023, month: 2, day: 29 }.is_valid());
    assert!(!Date { year: -1, month: 1, day: 1 }.is_valid());
    assert!(!Date { year: 10000, month: 1, day: 1 }.is_valid());
}
