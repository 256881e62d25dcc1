use std::str::FromStr;

use epd_photoframe_server::locale::{
    default_locale, first_complaint, IsoDate, LocaleFormatters, FIRST_DAY, LAST_DAY,
};

fn names(tag: &str) -> (String, String, String) {
    let l = LocaleFormatters::try_from_tag(tag).unwrap();
    let d = IsoDate::new(2026, 5, 2).unwrap();
    (l.weekday_full(&d), l.weekday_short(&d), l.date_long(&d))
}

fn three(a: &str, b: &str, c: &str) -> (String, String, String) {
    (a.to_string(), b.to_string(), c.to_string())
}

#[test]
fn dates_in_the_words_of_a_locale() {
    assert_eq!(names("en-GB"), three("Saturday", "Sat", "2 May 2026"));
    assert_eq!(names("en-US"), three("Saturday", "Sat", "May 2, 2026"));
    assert_eq!(names("nl-NL"), three("zaterdag", "za", "2 mei 2026"));
    assert_eq!(names("fr-FR"), three("samedi", "sam.", "2 mai 2026"));
}

#[test]
fn default_is_british_english() {
    let d = IsoDate::new(2026, 5, 5).unwrap();
    let l = default_locale().unwrap();
    assert_eq!(l.date_long(&d), "5 May 2026");
    assert_eq!(l.weekday_full(&d), "Tuesday");
    assert_eq!(l.clone().weekday_short(&d), "Tue");
}

#[test]
fn bad_tags_are_rejected() {
    let e = icu_locale_core::Locale::from_str("not a tag").unwrap_err();
    assert_eq!(
        LocaleFormatters::try_from_tag("not a tag").unwrap_err(),
        format!("invalid locale `not a tag`: {e}")
    );
}

#[test]
fn the_first_complaint_counts() {
    let s = |t: &str| Some(t.to_string());
    assert_eq!(
        first_complaint("xx", s("a"), s("b"), s("c"), s("d")).unwrap(),
        "invalid locale `xx`: a"
    );
    assert_eq!(
        first_complaint("xx", None, s("b"), s("c"), s("d")).unwrap(),
        "locale `xx` cannot format weekday names: b"
    );
    assert_eq!(
        first_complaint("xx", None, None, s("c"), s("d")).unwrap(),
        "locale `xx` cannot format short weekday names: c"
    );
    assert_eq!(
        first_complaint("xx", None, None, None, s("d")).unwrap(),
        "locale `xx` cannot format long dates: d"
    );
    assert_eq!(first_complaint("xx", None, None, None, None), None);
}

#[test]
fn dates_that_exist() {
    for year in [-9999, -400, -4, -1, 0, 1, 1900, 2000, 2023, 2024, 9999] {
        for month in 0..14u8 {
            for day in 0..33u8 {
                assert_eq!(
                    IsoDate::new(year, month, day).is_some(),
                    icu_calendar::Date::try_new_iso(year, month, day).is_ok()
                );
            }
        }
    }
    assert!(IsoDate::new(10_000, 1, 1).is_none());
    assert!(IsoDate::new(-10_000, 1, 1).is_none());
    let l = default_locale().unwrap();
    assert!(!l.date_long(&IsoDate::new(-9999, 1, 1).unwrap()).is_empty());
    assert!(!l.date_long(&IsoDate::new(9999, 12, 31).unwrap()).is_empty());
}

#[test]
fn dates_of_seconds() {
    assert_eq!(IsoDate::of_second(0), IsoDate::new(1970, 1, 1));
    assert_eq!(IsoDate::of_second(86_399), IsoDate::new(1970, 1, 1));
    assert_eq!(IsoDate::of_second(86_400), IsoDate::new(1970, 1, 2));
    assert_eq!(IsoDate::of_second(951_782_400), IsoDate::new(2000, 2, 29));
    assert_eq!(IsoDate::of_second(FIRST_DAY * 86_400), IsoDate::new(-9999, 1, 1));
    assert_eq!(IsoDate::of_second(FIRST_DAY * 86_400 - 1), None);
    assert_eq!(IsoDate::of_second(LAST_DAY * 86_400 + 86_399), IsoDate::new(9999, 12, 31));
    assert_eq!(IsoDate::of_second(LAST_DAY * 86_400 + 86_400), None);
    assert_eq!(IsoDate::of_second(i64::MAX), None);
}
