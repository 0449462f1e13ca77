use jjamcore::clock::{date_lt, iso_date, parse_iso_date, weekday_of, Date, Weekday};

#[test]
fn iso_rendering_pads_every_field() {
    assert_eq!(iso_date(&Date { year: 2024, month: 3, day: 4 }), "2024-03-04");
    assert_eq!(iso_date(&Date { year: 987, month: 12, day: 31 }), "0987-12-31");
}

#[test]
fn parsing_accepts_proper_dates_only() {
    assert_eq!(parse_iso_date("2024-03-04"), Some(Date { year: 2024, month: 3, day: 4 }));
    assert_eq!(parse_iso_date("2024-3-4"), None);
    assert_eq!(parse_iso_date("2024-00-04"), None);
    assert_eq!(parse_iso_date("2024-03-32"), None);
    assert_eq!(parse_iso_date("2024-03-04x"), None);
    assert_eq!(parse_iso_date("2024/03/04"), None);
}

#[test]
fn parsing_knows_month_lengths_and_leap_years() {
    assert_eq!(parse_iso_date("2024-02-29"), Some(Date { year: 2024, month: 2, day: 29 }));
    assert_eq!(parse_iso_date("2023-02-29"), None);
    assert_eq!(parse_iso_date("2000-02-29"), Some(Date { year: 2000, month: 2, day: 29 }));
    assert_eq!(parse_iso_date("1900-02-29"), None);
    assert_eq!(parse_iso_date("2024-04-31"), None);
    assert_eq!(parse_iso_date("2024-04-30"), Some(Date { year: 2024, month: 4, day: 30 }));
}

#[test]
fn parse_then_render_round_trips() {
    for s in ["2024-02-29", "0001-01-01", "9999-12-31", "2024-03-04"] {
        let d = parse_iso_date(s).unwrap();
        assert_eq!(iso_date(&d), s);
    }
}

#[test]
fn weekdays_match_the_civil_calendar() {
    assert_eq!(weekday_of(&Date { year: 1, month: 1, day: 1 }), Weekday::Mon);
    assert_eq!(weekday_of(&Date { year: 1970, month: 1, day: 1 }), Weekday::Thu);
    assert_eq!(weekday_of(&Date { year: 2000, month: 2, day: 29 }), Weekday::Tue);
    assert_eq!(weekday_of(&Date { year: 2024, month: 3, day: 4 }), Weekday::Mon);
    assert_eq!(weekday_of(&Date { year: 2024, month: 3, day: 9 }), Weekday::Sat);
    assert_eq!(weekday_of(&Date { year: 2024, month: 3, day: 10 }), Weekday::Sun);
    assert_eq!(weekday_of(&Date { year: 2026, month: 10, day: 11 }), Weekday::Sun);
}

#[test]
fn dates_order_by_year_month_day() {
    let a = Date { year: 2023, month: 12, day: 31 };
    let b = Date { year: 2024, month: 1, day: 1 };
    let c = Date { year: 2024, month: 1, day: 2 };
    assert!(date_lt(&a, &b));
    assert!(date_lt(&b, &c));
    assert!(!date_lt(&c, &b));
    assert!(!date_lt(&b, &b));
}
