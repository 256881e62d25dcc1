//! Dates in the words of a locale.

use std::str::FromStr;

use chrono::Datelike;
use icu_calendar::Date;
use icu_datetime::fieldsets::{E, YMD};
use icu_datetime::DateTimeFormatter;
use icu_locale_core::Locale;
use vstd::prelude::*;

use crate::text::{option_view, quoting};
use crate::time::{MAX_SECS, MIN_SECS};

verus! {

/// Whether `year` has a leap day.
pub open spec fn leap_year(year: int) -> bool {
    year % 4 == 0 && (year % 100 != 0 || year % 400 == 0)
}

/// The length of a month.
pub open spec fn days_in_month(year: int, month: int) -> int {
    if month == 2 {
        if leap_year(year) {
            29
        } else {
            28
        }
    } else if month == 4 || month == 6 || month == 9 || month == 11 {
        30
    } else {
        31
    }
}

/// Whether there is a day `day` in the month `month` of `year`, for a year of at
/// most four digits.
pub open spec fn is_date(year: int, month: int, day: int) -> bool {
    &&& -9999 <= year <= 9999
    &&& 1 <= month <= 12
    &&& 1 <= day <= days_in_month(year, month)
}

/// Days from 1970-01-01 to a day of the ISO calendar. The years are counted from
/// March, so that a leap day comes last.
pub open spec fn day_number(year: int, month: int, day: int) -> int {
    let y = if month <= 2 {
        year - 1
    } else {
        year
    };
    let months = if month <= 2 {
        month + 9
    } else {
        month - 3
    };
    365 * y + y / 4 - y / 100 + y / 400 + (153 * months + 2) / 5 + day - 719_469
}

/// The number of the first day of a year of at most four digits.
pub const FIRST_DAY: i64 = -4_371_587;

/// The number of the last day of such a year.
pub const LAST_DAY: i64 = 2_932_896;

/// Earlier days have smaller numbers, so a number belongs to one day at most.
pub proof fn days_are_numbered_in_order(
    year: int,
    month: int,
    day: int,
    later_year: int,
    later_month: int,
    later_day: int,
)
    requires
        1 <= month <= 12,
        1 <= day <= days_in_month(year, month),
        1 <= later_month <= 12,
        1 <= later_day <= days_in_month(later_year, later_month),
        year < later_year || (year == later_year && (month < later_month || (month == later_month
            && day < later_day))),
    ensures
        day_number(year, month, day) < day_number(later_year, later_month, later_day),
{
}

/// `chrono::DateTime::from_timestamp`: the year, month and day of the second `secs`,
/// counted from 1970-01-01T00:00:00Z, in UTC. They are those of the day with the
/// number of days that have gone by.
#[verifier::external_body]
fn date_of_second(secs: i64) -> (r: (i32, u8, u8))
    requires
        MIN_SECS <= secs <= MAX_SECS,
    ensures
        1 <= r.1 <= 12,
        1 <= r.2 <= days_in_month(r.0 as int, r.1 as int),
        day_number(r.0 as int, r.1 as int, r.2 as int) == secs as int / 86_400,
{
    let date = chrono::DateTime::from_timestamp(secs, 0).unwrap().date_naive();
    (date.year(), date.month() as u8, date.day() as u8)
}

/// A day of the ISO calendar.
#[derive(Clone, Copy, Debug, PartialEq, Eq)]
pub struct IsoDate {
    year: i32,
    month: u8,
    day: u8,
}

impl View for IsoDate {
    type V = (int, int, int);

    closed spec fn view(&self) -> (int, int, int) {
        (self.year as int, self.month as int, self.day as int)
    }
}

impl IsoDate {
    #[verifier::type_invariant]
    spec fn inv(self) -> bool {
        is_date(self.year as int, self.month as int, self.day as int)
    }

    /// The day with these numbers, where there is one.
    pub fn new(year: i32, month: u8, day: u8) -> (r: Option<IsoDate>)
        ensures
            r is Some <==> is_date(year as int, month as int, day as int),
            r is Some ==> r->0@ == (year as int, month as int, day as int),
    {
        if year < -9999 || year > 9999 || month < 1 || month > 12 || day < 1 {
            return None;
        }
        let y: i32 = year + 10_000;
        assert(y % 4 == year as int % 4 && y % 100 == year as int % 100 && y % 400 == year as int
            % 400);
        let leap = y % 4 == 0 && (y % 100 != 0 || y % 400 == 0);
        let last: u8 = if month == 2 {
            if leap {
                29
            } else {
                28
            }
        } else if month == 4 || month == 6 || month == 9 || month == 11 {
            30
        } else {
            31
        };
        if day > last {
            None
        } else {
            Some(IsoDate { year, month, day })
        }
    }

    /// The day of the second `secs`, counted from 1970-01-01T00:00:00Z, in UTC, for a
    /// year of at most four digits.
    pub fn of_second(secs: i64) -> (r: Option<IsoDate>)
        ensures
            r is Some <==> FIRST_DAY <= secs as int / 86_400 <= LAST_DAY,
            r is Some ==> is_date(r->0@.0, r->0@.1, r->0@.2),
            r is Some ==> day_number(r->0@.0, r->0@.1, r->0@.2) == secs as int / 86_400,
    {
        if secs < MIN_SECS || secs > MAX_SECS {
            return None;
        }
        let (year, month, day) = date_of_second(secs);
        proof {
            if year < -9999 {
                days_are_numbered_in_order(year as int, month as int, day as int, -9999, 1, 1);
            }
            if year > 9999 {
                days_are_numbered_in_order(9999, 12, 31, year as int, month as int, day as int);
            }
            if -9999 <= year <= 9999 {
                if (year as int, month as int, day as int) != (-9999int, 1int, 1int) {
                    days_are_numbered_in_order(-9999, 1, 1, year as int, month as int, day as int);
                }
                if (year as int, month as int, day as int) != (9999int, 12int, 31int) {
                    days_are_numbered_in_order(year as int, month as int, day as int, 9999, 12, 31);
                }
            }
        }
        IsoDate::new(year, month, day)
    }
}

/// What is wrong with `tag` as a locale, if anything, in the words of the locale
/// parser.
pub uninterp spec fn locale_error(tag: Seq<char>) -> Option<Seq<char>>;

/// Why weekday names cannot be written out in the locale `tag`, if they cannot.
pub uninterp spec fn weekday_error(tag: Seq<char>) -> Option<Seq<char>>;

/// Why weekday names cannot be abbreviated in the locale `tag`, if they cannot.
pub uninterp spec fn short_weekday_error(tag: Seq<char>) -> Option<Seq<char>>;

/// Why dates cannot be written out in the locale `tag`, if they cannot.
pub uninterp spec fn date_error(tag: Seq<char>) -> Option<Seq<char>>;

/// The weekday of a date, written out in the locale `tag`.
pub uninterp spec fn weekday_name(tag: Seq<char>, year: i32, month: u8, day: u8) -> Seq<char>;

/// The weekday of a date, abbreviated in the locale `tag`.
pub uninterp spec fn short_weekday_name(tag: Seq<char>, year: i32, month: u8, day: u8) -> Seq<char>;

/// A date, written out in the locale `tag`.
pub uninterp spec fn long_date(tag: Seq<char>, year: i32, month: u8, day: u8) -> Seq<char>;

/// `icu_locale_core::Locale::from_str`: the text of its error, or nothing where it
/// accepts the tag.
#[verifier::external_body]
fn locale_parse_error(tag: &str) -> (r: Option<String>)
    ensures
        option_view(r) == locale_error(tag@),
{
    Locale::from_str(tag).err().map(|e| e.to_string())
}

/// `icu_datetime::DateTimeFormatter::try_new` for long weekdays: the text of its
/// error, or nothing where it succeeds.
#[verifier::external_body]
fn weekday_load_error(tag: &str) -> (r: Option<String>)
    requires
        locale_error(tag@) is None,
    ensures
        option_view(r) == weekday_error(tag@),
{
    let locale = Locale::from_str(tag).unwrap();
    DateTimeFormatter::try_new(locale.into(), E::long()).err().map(|e| e.to_string())
}

/// `icu_datetime::DateTimeFormatter::try_new` for short weekdays: the text of its
/// error, or nothing where it succeeds.
#[verifier::external_body]
fn short_weekday_load_error(tag: &str) -> (r: Option<String>)
    requires
        locale_error(tag@) is None,
    ensures
        option_view(r) == short_weekday_error(tag@),
{
    let locale = Locale::from_str(tag).unwrap();
    DateTimeFormatter::try_new(locale.into(), E::short()).err().map(|e| e.to_string())
}

/// `icu_datetime::DateTimeFormatter::try_new` for long dates: the text of its
/// error, or nothing where it succeeds.
#[verifier::external_body]
fn date_load_error(tag: &str) -> (r: Option<String>)
    requires
        locale_error(tag@) is None,
    ensures
        option_view(r) == date_error(tag@),
{
    let locale = Locale::from_str(tag).unwrap();
    DateTimeFormatter::try_new(locale.into(), YMD::long()).err().map(|e| e.to_string())
}

/// `icu_datetime::DateTimeFormatter::format` for long weekdays. Its text is fixed
/// by the locale data compiled into it.
#[verifier::external_body]
fn format_weekday(tag: &str, year: i32, month: u8, day: u8) -> (r: String)
    requires
        locale_error(tag@) is None,
        weekday_error(tag@) is None,
        is_date(year as int, month as int, day as int),
    ensures
        r@ == weekday_name(tag@, year, month, day),
{
    let locale = Locale::from_str(tag).unwrap();
    let fmt = DateTimeFormatter::try_new(locale.into(), E::long()).unwrap();
    fmt.format(&Date::try_new_iso(year, month, day).unwrap()).to_string()
}

/// `icu_datetime::DateTimeFormatter::format` for short weekdays. Its text is fixed
/// by the locale data compiled into it.
#[verifier::external_body]
fn format_short_weekday(tag: &str, year: i32, month: u8, day: u8) -> (r: String)
    requires
        locale_error(tag@) is None,
        short_weekday_error(tag@) is None,
        is_date(year as int, month as int, day as int),
    ensures
        r@ == short_weekday_name(tag@, year, month, day),
{
    let locale = Locale::from_str(tag).unwrap();
    let fmt = DateTimeFormatter::try_new(locale.into(), E::short()).unwrap();
    fmt.format(&Date::try_new_iso(year, month, day).unwrap()).to_string()
}

/// `icu_datetime::DateTimeFormatter::format` for long dates. Its text is fixed by
/// the locale data compiled into it.
#[verifier::external_body]
fn format_long_date(tag: &str, year: i32, month: u8, day: u8) -> (r: String)
    requires
        locale_error(tag@) is None,
        date_error(tag@) is None,
        is_date(year as int, month as int, day as int),
    ensures
        r@ == long_date(tag@, year, month, day),
{
    let locale = Locale::from_str(tag).unwrap();
    let fmt = DateTimeFormatter::try_new(locale.into(), YMD::long()).unwrap();
    fmt.format(&Date::try_new_iso(year, month, day).unwrap()).to_string()
}

/// What is wrong with a locale, given what its parser and the three formatters say
/// of it: the first complaint counts.
pub open spec fn locale_complaint(
    tag: Seq<char>,
    parse: Option<Seq<char>>,
    weekday: Option<Seq<char>>,
    short_weekday: Option<Seq<char>>,
    date: Option<Seq<char>>,
) -> Option<Seq<char>> {
    if parse is Some {
        Some("invalid locale `"@ + tag + "`: "@ + parse->0)
    } else if weekday is Some {
        Some("locale `"@ + tag + "` cannot format weekday names: "@ + weekday->0)
    } else if short_weekday is Some {
        Some("locale `"@ + tag + "` cannot format short weekday names: "@ + short_weekday->0)
    } else if date is Some {
        Some("locale `"@ + tag + "` cannot format long dates: "@ + date->0)
    } else {
        None
    }
}

/// What is wrong with a locale, given what its parser and the three formatters say
/// of it.
pub fn first_complaint(
    tag: &str,
    parse: Option<String>,
    weekday: Option<String>,
    short_weekday: Option<String>,
    date: Option<String>,
) -> (r: Option<String>)
    ensures
        option_view(r) == locale_complaint(
            tag@,
            option_view(parse),
            option_view(weekday),
            option_view(short_weekday),
            option_view(date),
        ),
{
    if let Some(e) = parse {
        return Some(quoting("invalid locale `", tag, "`: ", e.as_str()));
    }
    if let Some(e) = weekday {
        return Some(quoting("locale `", tag, "` cannot format weekday names: ", e.as_str()));
    }
    if let Some(e) = short_weekday {
        return Some(quoting("locale `", tag, "` cannot format short weekday names: ", e.as_str()));
    }
    if let Some(e) = date {
        return Some(quoting("locale `", tag, "` cannot format long dates: ", e.as_str()));
    }
    None
}

/// A locale in which weekdays and dates can be written. Its view is its tag.
#[derive(Debug)]
pub struct LocaleFormatters {
    tag: String,
}

impl View for LocaleFormatters {
    type V = Seq<char>;

    closed spec fn view(&self) -> Seq<char> {
        self.tag@
    }
}

impl Clone for LocaleFormatters {
    fn clone(&self) -> (r: Self)
        ensures
            r == *self,
    {
        proof {
            use_type_invariant(self);
        }
        LocaleFormatters { tag: self.tag.clone() }
    }
}

impl LocaleFormatters {
    #[verifier::type_invariant]
    spec fn inv(self) -> bool {
        &&& locale_error(self.tag@) is None
        &&& weekday_error(self.tag@) is None
        &&& short_weekday_error(self.tag@) is None
        &&& date_error(self.tag@) is None
    }

    /// The locale with the BCP-47 tag `name`, or why it cannot be used.
    pub fn try_from_tag(name: &str) -> (r: Result<LocaleFormatters, String>)
        ensures
            match locale_complaint(
                name@,
                locale_error(name@),
                weekday_error(name@),
                short_weekday_error(name@),
                date_error(name@),
            ) {
                None => r is Ok && r->Ok_0@ == name@,
                Some(e) => r is Err && r->Err_0@ == e,
            },
    {
        let parse = locale_parse_error(name);
        let (weekday, short_weekday, date) = if parse.is_none() {
            (weekday_load_error(name), short_weekday_load_error(name), date_load_error(name))
        } else {
            (None, None, None)
        };
        match first_complaint(name, parse, weekday, short_weekday, date) {
            Some(e) => Err(e),
            None => Ok(LocaleFormatters { tag: name.to_owned() }),
        }
    }

    /// The full weekday name, such as `Saturday` or `zaterdag`.
    pub fn weekday_full(&self, date: &IsoDate) -> (r: String)
        ensures
            r@ == weekday_name(self@, date@.0 as i32, date@.1 as u8, date@.2 as u8),
    {
        proof {
            use_type_invariant(self);
            use_type_invariant(date);
        }
        format_weekday(self.tag.as_str(), date.year, date.month, date.day)
    }

    /// The short weekday name, as long as the locale wants it: `Sat`, `Sa`, `sam.`.
    pub fn weekday_short(&self, date: &IsoDate) -> (r: String)
        ensures
            r@ == short_weekday_name(self@, date@.0 as i32, date@.1 as u8, date@.2 as u8),
    {
        proof {
            use_type_invariant(self);
            use_type_invariant(date);
        }
        format_short_weekday(self.tag.as_str(), date.year, date.month, date.day)
    }

    /// The long form of the date, such as `2 May 2026` or `May 2, 2026`.
    pub fn date_long(&self, date: &IsoDate) -> (r: String)
        ensures
            r@ == long_date(self@, date@.0 as i32, date@.1 as u8, date@.2 as u8),
    {
        proof {
            use_type_invariant(self);
            use_type_invariant(date);
        }
        format_long_date(self.tag.as_str(), date.year, date.month, date.day)
    }
}

/// The locale of a screen that names none.
pub fn default_locale() -> (r: Result<LocaleFormatters, String>)
    ensures
        match locale_complaint(
            "en-GB"@,
            locale_error("en-GB"@),
            weekday_error("en-GB"@),
            short_weekday_error("en-GB"@),
            date_error("en-GB"@),
        ) {
            None => r is Ok && r->Ok_0@ == "en-GB"@,
            Some(e) => r is Err && r->Err_0@ == e,
        },
{
    LocaleFormatters::try_from_tag("en-GB")
}

/// There is a date for each day of each month of a year of at most four digits, and for
/// no other numbers.
pub proof fn law_dates_are_those_of_the_calendar(year: i32, month: u8, day: u8, r: Option<IsoDate>)
    requires
        call_ensures(IsoDate::new, (year, month, day), r),
    ensures
        r is Some <==> -9999 <= year <= 9999 && 1 <= month <= 12 && 1 <= day && (if month == 2 {
            day <= 28 || (day == 29 && year as int % 4 == 0
                && (year as int % 100 != 0 || year as int
                % 400 == 0))
        } else if month == 4 || month == 6 || month == 9 || month == 11 {
            day <= 30
        } else {
            day <= 31
        }),
        r is Some ==> r->0@ == (year as int, month as int, day as int),
{
}

/// No day is left out of the numbering: the day after has the next number, within a
/// month, from one month to the next, and from one year to the next.
pub proof fn law_days_are_numbered_without_gaps(year: int, month: int, day: int)
    requires
        1 <= month <= 12,
        1 <= day <= days_in_month(year, month),
    ensures
        day_number(1970, 1, 1) == 0,
        day < days_in_month(year, month) ==> day_number(year, month, day + 1) == day_number(
            year,
            month,
            day,
        ) + 1,
        day == days_in_month(year, month) && month < 12 ==> day_number(year, month + 1, 1)
            == day_number(year, month, day) + 1,
        day == days_in_month(year, month) && month == 12 ==> day_number(year + 1, 1, 1)
            == day_number(year, month, day) + 1,
{
    lemma_years_are_long(year);
    if month == 1 || month == 2 {
    } else if month == 3 || month == 4 || month == 5 {
    } else if month == 6 || month == 7 || month == 8 {
    } else if month == 9 || month == 10 {
    } else {
    }
}

/// The years up to `year` have a day more than 365 for each leap year.
proof fn lemma_years_are_long(year: int)
    ensures
        year / 4 - year / 100 + year / 400 == (year - 1) / 4 - (year - 1) / 100 + (year - 1) / 400
            + (if leap_year(year) {
            1int
        } else {
            0
        }),
{
    assert(year / 4 - (year - 1) / 4 == (if year % 4 == 0 {
        1int
    } else {
        0
    })) by {}
    assert(year / 100 - (year - 1) / 100 == (if year % 100 == 0 {
        1int
    } else {
        0
    })) by {}
    assert(year / 400 - (year - 1) / 400 == (if year % 400 == 0 {
        1int
    } else {
        0
    })) by {}
    if year % 400 == 0 {
        vstd::arithmetic::div_mod::lemma_mod_mod(year, 100, 4);
    }
    if year % 100 == 0 {
        vstd::arithmetic::div_mod::lemma_mod_mod(year, 4, 25);
    }
}

/// The date of a second is that of the day with the number of whole days since 1970.
pub proof fn law_date_of_a_second(secs: i64, r: Option<IsoDate>)
    requires
        call_ensures(IsoDate::of_second, (secs,), r),
    ensures
        r is Some ==> ({
            let d = day_number(r->0@.0, r->0@.1, r->0@.2);
            d * 86_400 <= secs < (d + 1) * 86_400
        }),
        -377_705_116_800 <= secs < 253_402_300_800 ==> r is Some,
{
}

/// A locale can be used exactly where its tag is one and all three formats can be had.
pub proof fn law_locale_needs_its_formats(name: &str, r: Result<LocaleFormatters, String>)
    requires
        call_ensures(LocaleFormatters::try_from_tag, (name,), r),
    ensures
        r is Ok <==> locale_error(name@) is None && weekday_error(name@) is None
            && short_weekday_error(name@) is None && date_error(name@) is None,
        r is Ok ==> r->Ok_0@ == name@,
{
}

/// Of several complaints about a locale the first counts, and is handed on.
pub proof fn law_first_complaint_counts(
    tag: &str,
    parse: Option<String>,
    weekday: Option<String>,
    short_weekday: Option<String>,
    date: Option<String>,
    r: Option<String>,
)
    requires
        call_ensures(first_complaint, (tag, parse, weekday, short_weekday, date), r),
    ensures
        r is None <==> parse is None && weekday is None && short_weekday is None && date is None,
        parse matches Some(e) ==> r->0@ == "invalid locale `"@ + tag@ + "`: "@ + e@,
        parse is None ==> (weekday matches Some(e) ==> r->0@ == "locale `"@ + tag@
            + "` cannot format weekday names: "@ + e@),
        parse is None && weekday is None ==> (short_weekday matches Some(e) ==> r->0@ == "locale `"@
            + tag@ + "` cannot format short weekday names: "@ + e@),
        parse is None && weekday is None && short_weekday is None ==> (date matches Some(e)
            ==> r->0@ == "locale `"@ + tag@ + "` cannot format long dates: "@ + e@),
{
}

/// The full name, the short name and the date are written in the locale they are asked
/// of, for the date they are asked for.
pub proof fn law_dates_are_written_in_the_locale(
    locale: &LocaleFormatters,
    date: &IsoDate,
    full: String,
    short: String,
    long: String,
)
    requires
        call_ensures(LocaleFormatters::weekday_full, (locale, date), full),
        call_ensures(LocaleFormatters::weekday_short, (locale, date), short),
        call_ensures(LocaleFormatters::date_long, (locale, date), long),
    ensures
        full@ == weekday_name(locale@, date@.0 as i32, date@.1 as u8, date@.2 as u8),
        short@ == short_weekday_name(locale@, date@.0 as i32, date@.1 as u8, date@.2 as u8),
        long@ == long_date(locale@, date@.0 as i32, date@.1 as u8, date@.2 as u8),
{
}

/// The locale of a screen that names none is British English, if it can be used.
pub proof fn law_default_locale_is_british(
    r: Result<LocaleFormatters, String>,
    s: Result<LocaleFormatters, String>,
)
    requires
        call_ensures(default_locale, (), r),
        call_ensures(LocaleFormatters::try_from_tag, ("en-GB",), s),
    ensures
        r is Ok <==> s is Ok,
        r is Ok ==> r->Ok_0@ == "en-GB"@,
        r is Err ==> r->Err_0@ == s->Err_0@,
{
}

} // verus!
