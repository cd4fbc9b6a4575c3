use birthday_display::date::Date;
use birthday_display::loader::parse_row;
use birthday_display::parse::{parse_date, parse_number, split_on};

#[test]
fn date_pattern_accepts_short_forms() {
    assert_eq!(parse_date("1.6.90"), Some(Date { year: 90, month: 6, day: 1 }));
    assert_eq!(parse_date("01.06.1990"), Some(Date { year: 1990, month: 6, day: 1 }));
    assert_eq!(parse_date("31.12.4"), Some(Date { year: 4, month: 12, day: 31 }));
}

#[test]
fn date_pattern_rejects_bad_shapes() {
    assert_eq!(parse_date(""), None);
    assert_eq!(parse_date("01.06"), None);
    assert_eq!(parse_date("01.06.1990.1"), None);
    assert_eq!(parse_date("001.06.1990"), None);
    assert_eq!(parse_date("01.006.1990"), None);
    assert_eq!(parse_date("01.06.19901"), None);
    assert_eq!(parse_date("1a.06.1990"), None);
    assert_eq!(parse_date("-1.06.1990"), None);
    assert_eq!(parse_date("01,06,1990"), None);
}

#[test]
fn date_pattern_knows_the_calendar() {
    assert_eq!(parse_date("29.02.2000"), Some(Date { year: 2000, month: 2, day: 29 }));
    assert_eq!(parse_date("29.02.1900"), None);
    assert_eq!(parse_date("29.02.2001"), None);
    assert_eq!(parse_date("31.04.2020"), None);
    assert_eq!(parse_date("31.12.2020"), Some(Date { year: 2020, month: 12, day: 31 }));
    assert_eq!(parse_date("00.01.2020"), None);
    assert_eq!(parse_date("01.00.2020"), None);
    assert_eq!(parse_date("01.13.2020"), None);
    assert_eq!(parse_date("32.01.2020"), None);
}

#[test]
fn numbers_are_plain_digit_strings() {
    assert_eq!(parse_number("0", 2), Some(0));
    assert_eq!(parse_number("07", 2), Some(7));
    assert_eq!(parse_number("1990", 4), Some(1990));
    assert_eq!(parse_number("", 4), None);
    assert_eq!(parse_number("12345", 4), None);
    assert_eq!(parse_number("+1", 2), None);
    assert_eq!(parse_number("1 ", 2), None);
}

#[test]
fn splitting_keeps_empty_fields() {
    assert_eq!(split_on("a,b,,c", ','), vec!["a", "b", "", "c"]);
    assert_eq!(split_on("", ','), vec![""]);
    assert_eq!(split_on(",", ','), vec!["", ""]);
    assert_eq!(split_on("äöü,ß", ','), vec!["äöü", "ß"]);
}

#[test]
fn row_field_counts() {
    assert!(parse_row("Doe,Jane,01.06.1990,f").is_some());
    assert!(parse_row("Doe,Jane,01.06.1990,f,").is_some());
    assert!(parse_row("Doe,Jane,01.06.1990,f,http://x").is_some());
    assert!(parse_row("Doe,Jane,01.06.1990").is_none());
    assert!(parse_row("Doe,Jane,01.06.1990,f,http://x,extra").is_none());
    assert!(parse_row("").is_none());
}

#[test]
fn row_gender_must_be_one_character() {
    assert!(parse_row("Doe,Jane,01.06.1990,fm,").is_none());
    assert!(parse_row("Doe,Jane,01.06.1990,,").is_none());
    let p = parse_row("Doe,Jane,01.06.1990,ß,").unwrap();
    assert_eq!(p.gender, 'ß');
}

#[test]
fn row_empty_fifth_field_means_no_photo() {
    let p = parse_row("Doe,Jane,01.06.1990,f,").unwrap();
    assert!(p.photo_url.is_none());
    let p = parse_row("Doe,Jane,01.06.1990,f").unwrap();
    assert!(p.photo_url.is_none());
    let p = parse_row("Doe,Jane,01.06.1990,f,u").unwrap();
    assert_eq!(p.photo_url.as_deref(), Some("u"));
}

#[test]
fn row_names_may_be_empty() {
    let p = parse_row(",,01.06.1990,f,").unwrap();
    assert_eq!(p.last_name, "");
    assert_eq!(p.first_name, "");
}

#[test]
fn years_since_counts_whole_years() {
    let base = Date { year: 1990, month: 6, day: 15 };
    assert_eq!(Date { year: 2024, month: 6, day: 15 }.years_since(&base), Some(34));
    assert_eq!(Date { year: 2024, month: 6, day: 14 }.years_since(&base), Some(33));
    assert_eq!(Date { year: 2024, month: 5, day: 20 }.years_since(&base), Some(33));
    assert_eq!(Date { year: 2024, month: 7, day: 1 }.years_since(&base), Some(34));
    assert_eq!(Date { year: 1990, month: 6, day: 15 }.years_since(&base), Some(0));
    assert_eq!(Date { year: 1990, month: 6, day: 14 }.years_since(&base), None);
    assert_eq!(Date { year: 1989, month: 6, day: 15 }.years_since(&base), None);
}

#[test]
fn date_new_checks_validity() {
    assert!(Date::new(2024, 2, 29).is_some());
    assert!(Date::new(2023, 2, 29).is_none());
    assert!(Date::new(2023, 0, 1).is_none());
    assert!(Date::new(2023, 1, 0).is_none());
    assert!(Date::new(2023, 12, 31).is_some());
}
