use sport_analytics::date::{days_in_month, is_leap_year, parse_date, Date};

#[test]
fn parses_wire_format_dates() {
    assert_eq!(
        parse_date("2023-08-11"),
        Some(Date { year: 2023, month: 8, day: 11 })
    );
    assert_eq!(
        parse_date("2024-05-19"),
        Some(Date { year: 2024, month: 5, day: 19 })
    );
    assert_eq!(
        parse_date("0001-01-01"),
        Some(Date { year: 1, month: 1, day: 1 })
    );
    assert_eq!(
        parse_date("9999-12-31"),
        Some(Date { year: 9999, month: 12, day: 31 })
    );
}

#[test]
fn rejects_malformed_text() {
    assert_eq!(parse_date(""), None);
    assert_eq!(parse_date("2023-8-11"), None);
    assert_eq!(parse_date("2023/08/11"), None);
    assert_eq!(parse_date("23-08-110"), None);
    assert_eq!(parse_date("abcd-ef-gh"), None);
    assert_eq!(parse_date("2023-08-11T00:00"), None);
}

#[test]
fn rejects_impossible_calendar_dates() {
    assert_eq!(parse_date("2023-00-10"), None);
    assert_eq!(parse_date("2023-13-10"), None);
    assert_eq!(parse_date("2023-04-31"), None);
    assert_eq!(parse_date("2023-02-29"), None);
    assert_eq!(
        parse_date("2024-02-29"),
        Some(Date { year: 2024, month: 2, day: 29 })
    );
    assert_eq!(parse_date("1900-02-29"), None);
    assert_eq!(
        parse_date("2000-02-29"),
        Some(Date { year: 2000, month: 2, day: 29 })
    );
}

#[test]
fn leap_year_rules() {
    assert!(is_leap_year(2024));
    assert!(!is_leap_year(2023));
    assert!(!is_leap_year(1900));
    assert!(is_leap_year(2000));
    assert_eq!(days_in_month(2024, 2), 29);
    assert_eq!(days_in_month(2023, 2), 28);
    assert_eq!(days_in_month(2023, 9), 30);
    assert_eq!(days_in_month(2023, 12), 31);
}

#[test]
fn checked_construction() {
    assert_eq!(
        Date::new(2023, 8, 11),
        Some(Date { year: 2023, month: 8, day: 11 })
    );
    assert_eq!(Date::new(2023, 2, 29), None);
    assert_eq!(Date::new(10000, 1, 1), None);
    assert_eq!(Date::new(2023, 0, 1), None);
    assert_eq!(Date::new(2023, 1, 0), None);
}
