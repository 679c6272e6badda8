use kiwi::dates::{
    days_in_month, month_name, ordinal_suffix, parse_date, simple_date, weekday_index,
    weekday_name, Date,
};

#[test]
fn month_names() {
    assert_eq!(month_name(1), "January");
    assert_eq!(month_name(6), "June");
    assert_eq!(month_name(9), "September");
    assert_eq!(month_name(12), "December");
}

#[test]
fn ordinal_suffixes() {
    assert_eq!(ordinal_suffix(1), "st");
    assert_eq!(ordinal_suffix(2), "nd");
    assert_eq!(ordinal_suffix(3), "rd");
    assert_eq!(ordinal_suffix(4), "th");
    assert_eq!(ordinal_suffix(11), "th");
    assert_eq!(ordinal_suffix(12), "th");
    assert_eq!(ordinal_suffix(13), "th");
    assert_eq!(ordinal_suffix(21), "st");
    assert_eq!(ordinal_suffix(22), "nd");
    assert_eq!(ordinal_suffix(23), "rd");
    assert_eq!(ordinal_suffix(31), "st");
}

#[test]
fn weekdays_of_known_dates() {
    // 2023-09-01 was a Friday, 2000-01-01 a Saturday, 2024-02-29 a Thursday
    let w = weekday_index(&Date { year: 2023, month: 9, day: 1 });
    assert_eq!(weekday_name(w), "Friday");
    let w = weekday_index(&Date { year: 2000, month: 1, day: 1 });
    assert_eq!(weekday_name(w), "Saturday");
    let w = weekday_index(&Date { year: 2024, month: 2, day: 29 });
    assert_eq!(weekday_name(w), "Thursday");
}

#[test]
fn simple_dates_are_zero_padded() {
    assert_eq!(simple_date(&Date { year: 2023, month: 9, day: 1 }), "2023-09-01");
    assert_eq!(simple_date(&Date { year: 800, month: 12, day: 25 }), "0800-12-25");
}

#[test]
fn parse_date_round_trips() {
    assert_eq!(parse_date("2023-09-01"), Some(Date { year: 2023, month: 9, day: 1 }));
    assert_eq!(parse_date("2024-02-29"), Some(Date { year: 2024, month: 2, day: 29 }));
    assert_eq!(
        simple_date(&parse_date("2019-07-04").unwrap()),
        "2019-07-04"
    );
}

#[test]
fn parse_date_rejects_malformed_input() {
    assert_eq!(parse_date("2023-9-1"), None);
    assert_eq!(parse_date("2023/09/01"), None);
    assert_eq!(parse_date("2023-13-01"), None);
    assert_eq!(parse_date("2023-02-29"), None);
    assert_eq!(parse_date("0000-01-01"), None);
    assert_eq!(parse_date("not-a-date"), None);
    assert_eq!(parse_date(""), None);
}

#[test]
fn leap_years_change_february() {
    assert_eq!(days_in_month(2024, 2), 29);
    assert_eq!(days_in_month(2023, 2), 28);
    assert_eq!(days_in_month(1900, 2), 28);
    assert_eq!(days_in_month(2000, 2), 29);
    assert_eq!(days_in_month(2023, 4), 30);
    assert_eq!(days_in_month(2023, 1), 31);
}
