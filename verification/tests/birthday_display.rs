use birthday_display::date::{current_date, Date};
use birthday_display::display::{
    fetch_outcome, placeholder_text, state_of_result, BirthdayDisplay, Message,
};
use birthday_display::error_wrapper::ErrorDisplayWrapper;
use birthday_display::loader::{load_records, parse_row};
use birthday_display::person::{pronoun, PhotoState};
use birthday_display::text::append_u32;
use chrono::Datelike;

fn lines(rows: &[&str]) -> Vec<String> {
    rows.iter().map(|r| r.to_string()).collect()
}

#[test]
fn row_on_matching_day_is_included() {
    let p = parse_row("Doe,Jane,01.06.1990,f,").unwrap();
    assert_eq!(p.last_name, "Doe");
    assert_eq!(p.first_name, "Jane");
    assert_eq!(p.birthday, Date { year: 1990, month: 6, day: 1 });
    assert_eq!(p.gender, 'f');
    assert!(p.photo_url.is_none());
    assert!(matches!(p.photo_state, PhotoState::Unloaded));

    let today = Date { year: 2024, month: 6, day: 1 };
    let m = BirthdayDisplay::new(vec![p], today);
    assert_eq!(m.today_indices, vec![0]);
    let banners = m.today_banner_texts();
    assert_eq!(banners.len(), 1);
    assert_eq!(banners[0], "Frau Jane Doe wird heute 34 Jahre alt.");
}

#[test]
fn matching_ignores_the_year() {
    let p = parse_row("Doe,Jane,01.06.1990,f,").unwrap();
    let today = Date { year: 1971, month: 6, day: 1 };
    let m = BirthdayDisplay::new(vec![p], today);
    assert_eq!(m.today_indices, vec![0]);
}

#[test]
fn row_on_other_day_is_excluded() {
    let p = parse_row("Doe,Jane,01.06.1990,f,").unwrap();
    let today = Date { year: 2024, month: 6, day: 2 };
    let m = BirthdayDisplay::new(vec![p], today);
    assert!(m.today_indices.is_empty());
    assert!(m.today_banner_texts().is_empty());
}

#[test]
fn update_day_rederives_the_subset() {
    let rows = lines(&["Doe,Jane,01.06.1990,f,", "Roe,Sam,02.06.1985,m,"]);
    let (persons, _) = load_records(&rows, true);
    let mut m = BirthdayDisplay::new(persons, Date { year: 2024, month: 6, day: 1 });
    assert_eq!(m.today_indices, vec![0]);
    m.update_day(Date { year: 2024, month: 6, day: 2 });
    assert_eq!(m.today_indices, vec![1]);
    m.update_day(Date { year: 2024, month: 6, day: 2 });
    assert_eq!(m.today_indices, vec![1]);
    m.update(Message::UpdateDay(Date { year: 2024, month: 12, day: 24 }));
    assert!(m.today_indices.is_empty());
}

#[test]
fn malformed_lines_are_skipped_with_diagnostics() {
    let rows = lines(&[
        "Doe,Jane,01.06.1990,f,",
        "bad line",
        "Roe,Sam,02.06.1985,m,http://x/img.jpg",
        "Poe,Ann,31.02.2001,w,",
    ]);
    let (persons, diags) = load_records(&rows, false);
    assert_eq!(persons.len(), 2);
    assert_eq!(persons[0].last_name, "Doe");
    assert_eq!(persons[1].last_name, "Roe");
    assert_eq!(diags.len(), 2);
    assert_eq!(diags[0], "error reading line: bad line");
    assert_eq!(diags[1], "error reading line: Poe,Ann,31.02.2001,w,");
}

#[test]
fn quiet_mode_suppresses_diagnostics() {
    let rows = lines(&["bad line", "also,bad", "Doe,Jane,01.06.1990,f,"]);
    let (persons, diags) = load_records(&rows, true);
    assert_eq!(persons.len(), 1);
    assert!(diags.is_empty());
}

#[test]
fn fetch_result_updates_every_record_sharing_the_url() {
    let rows = lines(&[
        "A,One,01.01.2000,m,http://x/a.png",
        "B,Two,02.02.2000,f,http://x/b.png",
        "C,Three,03.03.2000,w,http://x/a.png",
        "D,Four,04.04.2000,x,",
    ]);
    let (persons, _) = load_records(&rows, true);
    let mut m = BirthdayDisplay::new(persons, Date { year: 2024, month: 7, day: 7 });
    let st = state_of_result(Ok(vec![1u8, 2, 3]));
    m.apply_fetch_result(&st, &"http://x/a.png".to_string());
    assert!(matches!(&m.persons[0].photo_state, PhotoState::Loaded(b) if b == &vec![1u8, 2, 3]));
    assert!(matches!(m.persons[1].photo_state, PhotoState::Unloaded));
    assert!(matches!(&m.persons[2].photo_state, PhotoState::Loaded(b) if b == &vec![1u8, 2, 3]));
    assert!(matches!(m.persons[3].photo_state, PhotoState::Unloaded));
}

#[test]
fn record_without_url_gets_no_fetch_and_stays_unloaded() {
    let rows = lines(&[
        "A,One,01.01.2000,m,",
        "B,Two,02.02.2000,f,http://x/b.png",
        "C,Three,03.03.2000,w,",
    ]);
    let (persons, _) = load_records(&rows, true);
    let mut m = BirthdayDisplay::new(persons, Date { year: 2024, month: 1, day: 1 });
    let urls = m.urls_to_fetch();
    assert_eq!(urls, vec!["http://x/b.png".to_string()]);
    let st = state_of_result(Err(placeholder_text()));
    m.apply_fetch_result(&st, &"http://x/b.png".to_string());
    assert!(matches!(m.persons[0].photo_state, PhotoState::Unloaded));
    assert!(matches!(m.persons[1].photo_state, PhotoState::Failed(_)));
    assert!(matches!(m.persons[2].photo_state, PhotoState::Unloaded));
}

#[test]
fn failed_fetch_leaves_placeholder_and_silent_hides_it() {
    let p = parse_row("Roe,Sam,02.06.1985,m,http://x/img.jpg").unwrap();
    assert_eq!(p.photo_url.as_deref(), Some("http://x/img.jpg"));
    let mut m = BirthdayDisplay::new(vec![p], Date { year: 2024, month: 6, day: 2 });
    assert_eq!(m.urls_to_fetch(), vec!["http://x/img.jpg".to_string()]);
    let outcome = fetch_outcome(None);
    assert!(matches!(&outcome, Err(e) if e == "[failed to load image]"));
    m.update(Message::DataReceived(outcome, "http://x/img.jpg".to_string()));
    assert!(
        matches!(&m.persons[0].photo_state, PhotoState::Failed(t) if t == "[failed to load image]")
    );
    assert_eq!(
        m.persons[0].visible_error(false).as_deref(),
        Some("[failed to load image]")
    );
    assert_eq!(m.persons[0].visible_error(true), None);
}

#[test]
fn successful_fetch_keeps_the_bytes() {
    let outcome = fetch_outcome(Some(vec![9u8, 8, 7]));
    assert!(matches!(&outcome, Ok(b) if b == &vec![9u8, 8, 7]));
    let st = state_of_result(outcome);
    assert!(matches!(&st, PhotoState::Loaded(b) if b == &vec![9u8, 8, 7]));
}

#[test]
fn duplicate_result_overwrites_the_slot() {
    let p = parse_row("Roe,Sam,02.06.1985,m,http://x/img.jpg").unwrap();
    let mut m = BirthdayDisplay::new(vec![p], Date { year: 2024, month: 6, day: 2 });
    let url = "http://x/img.jpg".to_string();
    m.apply_fetch_result(&state_of_result(Err(placeholder_text())), &url);
    assert!(matches!(m.persons[0].photo_state, PhotoState::Failed(_)));
    m.apply_fetch_result(&state_of_result(Ok(vec![5u8])), &url);
    assert!(matches!(&m.persons[0].photo_state, PhotoState::Loaded(b) if b == &vec![5u8]));
}

#[test]
fn banners_follow_file_order() {
    let rows = lines(&[
        "Zed,Ada,24.12.2000,f,",
        "Mid,Bob,01.01.1999,m,",
        "Ard,Cy,24.12.1990,m,",
    ]);
    let (persons, _) = load_records(&rows, true);
    let m = BirthdayDisplay::new(persons, Date { year: 2024, month: 12, day: 24 });
    assert_eq!(m.today_indices, vec![0, 2]);
    let banners = m.today_banner_texts();
    assert_eq!(
        banners,
        vec![
            "Frau Ada Zed wird heute 24 Jahre alt.".to_string(),
            "Herr Cy Ard wird heute 34 Jahre alt.".to_string(),
        ]
    );
}

#[test]
fn shared_url_means_one_fetch_per_record() {
    let rows = lines(&[
        "A,One,01.01.2000,m,http://x/same.png",
        "B,Two,02.02.2000,f,http://x/same.png",
    ]);
    let (persons, _) = load_records(&rows, true);
    let m = BirthdayDisplay::new(persons, Date { year: 2024, month: 3, day: 3 });
    assert_eq!(
        m.urls_to_fetch(),
        vec!["http://x/same.png".to_string(), "http://x/same.png".to_string()]
    );
}

#[test]
fn title_is_fixed() {
    let m = BirthdayDisplay::new(Vec::new(), Date { year: 2024, month: 1, day: 1 });
    assert_eq!(m.title(), "Birthday Display");
}

#[test]
fn error_wrapper_keeps_the_message() {
    let w = ErrorDisplayWrapper::from("no such file".to_string());
    assert_eq!(w.message(), "no such file");
}

#[test]
fn pronoun_codes() {
    assert_eq!(pronoun('m'), "Herr ");
    assert_eq!(pronoun('M'), "Herr ");
    assert_eq!(pronoun('f'), "Frau ");
    assert_eq!(pronoun('F'), "Frau ");
    assert_eq!(pronoun('w'), "Frau ");
    assert_eq!(pronoun('W'), "Frau ");
    assert_eq!(pronoun('x'), "");
    assert_eq!(pronoun('?'), "");
}

#[test]
fn banner_without_age_when_birthday_lies_ahead() {
    let p = parse_row("Doe,Jane,01.06.2030,f,").unwrap();
    let today = Date { year: 2024, month: 6, day: 1 };
    assert_eq!(p.banner_text(&today), "Frau Jane Doe hat heute Geburtstag.");
}

#[test]
fn decimal_rendering() {
    let mut s = String::new();
    append_u32(&mut s, 0);
    assert_eq!(s, "0");
    let mut s = String::new();
    append_u32(&mut s, 10);
    assert_eq!(s, "10");
    let mut s = String::new();
    append_u32(&mut s, 12345);
    assert_eq!(s, "12345");
    let mut s = String::new();
    append_u32(&mut s, u32::MAX);
    assert_eq!(s, "4294967295");
}

#[test]
fn current_date_agrees_with_the_clock() {
    let a = current_date();
    let now = chrono::Utc::now().date_naive();
    let b = current_date();
    let n = (now.year(), now.month(), now.day());
    assert!((a.year, a.month, a.day) == n || (b.year, b.month, b.day) == n);
    assert!(1 <= a.month && a.month <= 12);
    assert!(1 <= a.day && a.day <= 31);
}
