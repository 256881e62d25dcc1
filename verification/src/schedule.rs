//! Rotation schedules and the time zones they are read in.

use std::str::FromStr;

use chrono::Offset;
use vstd::prelude::*;

use crate::locale::{day_number, is_date, IsoDate, FIRST_DAY, LAST_DAY};
use crate::text::{option_view, quoting};
use crate::time::{DateTime, MAX_SECS, MIN_SECS, NANOS_PER_SEC};

verus! {

/// What is wrong with `expr` as a cron expression, if anything, in the words of
/// the cron parser.
pub uninterp spec fn cron_error(expr: Seq<char>) -> Option<Seq<char>>;

/// What is wrong with `phrase` as a natural-language schedule, if anything, in
/// the words of its parser.
pub uninterp spec fn natural_error(phrase: Seq<char>) -> Option<Seq<char>>;

/// What is wrong with `name` as an IANA time zone name, if anything, in the words
/// of the time zone parser.
pub uninterp spec fn timezone_error(name: Seq<char>) -> Option<Seq<char>>;

/// The `k`-th trigger that the cron expression `expr`, read in the time zone `tz`,
/// lists for the instant `after`.
pub uninterp spec fn cron_trigger(expr: Seq<char>, after: int, tz: Seq<char>, k: nat) -> Option<
    int,
>;

/// Seconds by which local time in the zone `tz` is ahead of UTC at `instant`.
pub uninterp spec fn utc_offset(tz: Seq<char>, instant: int) -> i32;

/// Whether `item`, in seconds and nanoseconds, is the first trigger that the
/// natural-language schedule `phrase` lists, with local time `offset` seconds ahead
/// of UTC, at some reading of the system clock.
pub uninterp spec fn may_be_next(phrase: Seq<char>, offset: i32, item: Option<(i64, u32)>) -> bool;

/// `cron::Schedule::from_str`: the text of its error, or nothing where it accepts
/// the expression.
#[verifier::external_body]
fn cron_parse_error(expr: &str) -> (r: Option<String>)
    ensures
        option_view(r) == cron_error(expr@),
{
    cron::Schedule::from_str(expr).err().map(|e| e.to_string())
}

/// `cron_lingo::Schedule::from_str`: its error in debug form, or nothing where it
/// accepts the phrase.
#[verifier::external_body]
fn natural_parse_error(phrase: &str) -> (r: Option<String>)
    ensures
        option_view(r) == natural_error(phrase@),
{
    cron_lingo::Schedule::from_str(phrase).err().map(|e| format!("{e:?}"))
}

/// `chrono_tz::Tz::from_str`: the text of its error, or nothing where it knows the
/// name.
#[verifier::external_body]
fn timezone_parse_error(name: &str) -> (r: Option<String>)
    ensures
        option_view(r) == timezone_error(name@),
{
    chrono_tz::Tz::from_str(name).err().map(|e| e.to_string())
}

/// `cron::Schedule::after`: the `k`-th item of the iterator it returns for `after`
/// in the zone `tz`, as seconds and nanoseconds. The iterator walks local times, so
/// nothing is claimed of how an item relates to `after`.
#[verifier::external_body]
fn cron_item(expr: &str, after: DateTime, tz: &str, k: usize) -> (r: Option<(i64, u32)>)
    requires
        cron_error(expr@) is None,
        timezone_error(tz@) is None,
        after@ < MAX_SECS * 1_000_000_000,
    ensures
        cron_trigger(expr@, after@, tz@, k as nat) == (match r {
            Some((secs, nanos)) => Some(secs * 1_000_000_000 + nanos),
            None => None,
        }),
        r matches Some((secs, nanos)) ==> nanos < NANOS_PER_SEC && MIN_SECS <= secs <= MAX_SECS,
{
    let schedule = cron::Schedule::from_str(expr).ok()?;
    let zone = chrono_tz::Tz::from_str(tz).ok()?;
    let start = chrono::DateTime::from_timestamp(after.timestamp(), after.timestamp_subsec_nanos())?;
    let item = schedule.after(&start.with_timezone(&zone)).nth(k)?;
    Some((item.timestamp(), item.timestamp_subsec_nanos()))
}

/// The offset of `chrono_tz::Tz` local time from UTC at `instant`.
#[verifier::external_body]
fn offset_at(tz: &str, instant: DateTime) -> (r: i32)
    requires
        timezone_error(tz@) is None,
    ensures
        r == utc_offset(tz@, instant@),
{
    let zone = chrono_tz::Tz::from_str(tz).unwrap();
    chrono::DateTime::from_timestamp(instant.timestamp(), instant.timestamp_subsec_nanos())
        .unwrap()
        .with_timezone(&zone)
        .offset()
        .fix()
        .local_minus_utc()
}

/// The first item of `cron_lingo::Schedule::iter` with local time `offset` seconds
/// ahead of UTC, as seconds and nanoseconds. It is counted from the system clock,
/// so which one it is stays open.
#[verifier::external_body]
fn natural_item(phrase: &str, offset: i32) -> (r: Option<(i64, u32)>)
    requires
        natural_error(phrase@) is None,
    ensures
        may_be_next(phrase@, offset, r),
{
    let offset = time::UtcOffset::from_whole_seconds(offset).ok()?;
    let schedule = cron_lingo::Schedule::from_str(phrase).ok()?;
    let next = schedule.iter().ok()?.assume_offset(offset).next()?.ok()?;
    let utc = next.to_offset(time::UtcOffset::UTC);
    Some((utc.unix_timestamp(), utc.nanosecond()))
}

/// An IANA time zone that the time zone database knows. Its view is its name.
#[derive(Debug)]
pub struct Timezone {
    name: String,
}

/// A cron expression that the cron parser accepts. Its view is its text.
#[derive(Debug)]
pub struct CronExpr {
    text: String,
}

/// A natural-language schedule that its parser accepts. Its view is its text.
#[derive(Debug)]
pub struct NaturalExpr {
    text: String,
}

/// A rotation schedule: a cron expression (`sec min hour dom mon dow [year]`) or a
/// phrase such as `at 2 AM and 2 PM on Mondays`.
#[derive(Debug)]
pub enum Rotate {
    Cron(CronExpr),
    Natural(NaturalExpr),
}

impl View for Timezone {
    type V = Seq<char>;

    closed spec fn view(&self) -> Seq<char> {
        self.name@
    }
}

impl View for CronExpr {
    type V = Seq<char>;

    closed spec fn view(&self) -> Seq<char> {
        self.text@
    }
}

impl View for NaturalExpr {
    type V = Seq<char>;

    closed spec fn view(&self) -> Seq<char> {
        self.text@
    }
}

impl Clone for Timezone {
    fn clone(&self) -> (r: Self)
        ensures
            r == *self,
    {
        proof {
            use_type_invariant(self);
        }
        Timezone { name: self.name.clone() }
    }
}

impl Clone for CronExpr {
    fn clone(&self) -> (r: Self)
        ensures
            r == *self,
    {
        proof {
            use_type_invariant(self);
        }
        CronExpr { text: self.text.clone() }
    }
}

impl Clone for NaturalExpr {
    fn clone(&self) -> (r: Self)
        ensures
            r == *self,
    {
        proof {
            use_type_invariant(self);
        }
        NaturalExpr { text: self.text.clone() }
    }
}

impl Clone for Rotate {
    fn clone(&self) -> (r: Self)
        ensures
            r == *self,
    {
        match self {
            Rotate::Cron(e) => Rotate::Cron(e.clone()),
            Rotate::Natural(e) => Rotate::Natural(e.clone()),
        }
    }
}

impl Timezone {
    #[verifier::type_invariant]
    spec fn inv(self) -> bool {
        timezone_error(self.name@) is None
    }

    /// The zone called `name`, or why there is none.
    pub fn parse(name: &str) -> (r: Result<Timezone, String>)
        ensures
            match timezone_error(name@) {
                None => r is Ok && r->Ok_0@ == name@,
                Some(e) => r is Err && r->Err_0@ == "invalid IANA timezone `"@ + name@ + "`: "@ + e,
            },
    {
        match timezone_parse_error(name) {
            None => Ok(Timezone { name: name.to_owned() }),
            Some(e) => Err(quoting("invalid IANA timezone `", name, "`: ", e.as_str())),
        }
    }

    /// The zone that the system calls `name`, or why it is none.
    pub fn of_system(name: &str) -> (r: Result<Timezone, String>)
        ensures
            match timezone_error(name@) {
                None => r is Ok && r->Ok_0@ == name@,
                Some(e) => r is Err && r->Err_0@ == "system timezone `"@ + name@
                    + "` is not a known IANA name: "@ + e,
            },
    {
        match timezone_parse_error(name) {
            None => Ok(Timezone { name: name.to_owned() }),
            Some(e) => Err(
                quoting("system timezone `", name, "` is not a known IANA name: ", e.as_str()),
            ),
        }
    }

    /// The name of the zone.
    pub fn name(&self) -> (r: &str)
        ensures
            r@ == self@,
    {
        self.name.as_str()
    }

    /// The date of `now` in the zone, for a year of at most four digits.
    pub fn local_date(&self, now: DateTime) -> (r: Option<IsoDate>)
        ensures
            r is Some <==> FIRST_DAY <= local_day(self@, now@) <= LAST_DAY,
            r is Some ==> is_date(r->0@.0, r->0@.1, r->0@.2),
            r is Some ==> day_number(r->0@.0, r->0@.1, r->0@.2) == local_day(self@, now@),
    {
        proof {
            use_type_invariant(self);
        }
        let ahead: i32 = offset_at(self.name.as_str(), now);
        IsoDate::of_second(now.timestamp() + ahead as i64)
    }
}

/// The number of the day that the instant `now` falls on in the zone `tz`.
pub open spec fn local_day(tz: Seq<char>, now: int) -> int {
    (now / 1_000_000_000 + utc_offset(tz, now)) / 86_400
}

/// The earlier of the first two listed triggers that lies strictly after `after`.
pub open spec fn first_trigger_after(after: int, first: Option<int>, second: Option<int>) -> Option<
    int,
> {
    match (first, second) {
        (None, _) => None,
        (Some(t), _) if t > after => Some(t),
        (Some(_), Some(u)) if u > after => Some(u),
        _ => None,
    }
}

/// The trigger of a cron expression that follows the instant `after`. The list for
/// an instant in an hour that the clocks repeat may begin with the earlier pass.
pub open spec fn next_cron(expr: Seq<char>, after: int, tz: Seq<char>) -> Option<int> {
    first_trigger_after(
        after,
        cron_trigger(expr, after, tz, 0),
        cron_trigger(expr, after, tz, 1),
    )
}

/// The instant that an optional date and time stands for.
pub open spec fn instant(t: Option<DateTime>) -> Option<int> {
    match t {
        Some(t) => Some(t@),
        None => None,
    }
}

/// The instant that a trigger listed in seconds and nanoseconds stands for, where
/// there is one.
pub open spec fn listed_instant(item: Option<(i64, u32)>) -> Option<int> {
    match item {
        Some((secs, nanos)) => if nanos < NANOS_PER_SEC && MIN_SECS <= secs <= MAX_SECS {
            Some(secs * 1_000_000_000 + nanos)
        } else {
            None
        },
        None => None,
    }
}

/// Whether a natural-language schedule, asked at some reading of the system clock,
/// answers with the trigger `next`.
pub open spec fn next_natural(phrase: Seq<char>, offset: i32, next: Option<int>) -> bool {
    exists|item: Option<(i64, u32)>|
        #[trigger] may_be_next(phrase, offset, item) && next == listed_instant(item)
}

/// The instant that a listed trigger stands for, where there is one.
pub fn listed_trigger(item: Option<(i64, u32)>) -> (r: Option<DateTime>)
    ensures
        instant(r) == listed_instant(item),
{
    match item {
        Some((secs, nanos)) => DateTime::new(secs, nanos),
        None => None,
    }
}

/// Of two listed triggers, the first that lies strictly after `after`.
pub fn pick_trigger(
    after: DateTime,
    first: Option<DateTime>,
    second: Option<DateTime>,
) -> (r: Option<DateTime>)
    ensures
        instant(r) == first_trigger_after(after@, instant(first), instant(second)),
        r is Some ==> r->0@ > after@,
{
    match first {
        None => None,
        Some(t) => {
            if after.is_before(t) {
                return Some(t);
            }
            match second {
                None => None,
                Some(u) => {
                    if after.is_before(u) {
                        Some(u)
                    } else {
                        None
                    }
                },
            }
        },
    }
}

impl CronExpr {
    #[verifier::type_invariant]
    spec fn inv(self) -> bool {
        cron_error(self.text@) is None
    }

    /// The expression `text`, or why it is none.
    pub fn parse(text: &str) -> (r: Result<CronExpr, String>)
        ensures
            match cron_error(text@) {
                None => r is Ok && r->Ok_0@ == text@,
                Some(e) => r is Err && r->Err_0@ == "invalid cron `"@ + text@ + "`: "@ + e,
            },
    {
        match cron_parse_error(text) {
            None => Ok(CronExpr { text: text.to_owned() }),
            Some(e) => Err(quoting("invalid cron `", text, "`: ", e.as_str())),
        }
    }

    /// The `k`-th trigger listed for `after`.
    fn trigger(&self, after: DateTime, tz: &Timezone, k: usize) -> (r: Option<DateTime>)
        requires
            after@ < MAX_SECS * 1_000_000_000,
        ensures
            instant(r) == cron_trigger(self@, after@, tz@, k as nat),
    {
        proof {
            use_type_invariant(self);
            use_type_invariant(tz);
        }
        listed_trigger(cron_item(self.text.as_str(), after, tz.name.as_str(), k))
    }
}

impl NaturalExpr {
    #[verifier::type_invariant]
    spec fn inv(self) -> bool {
        natural_error(self.text@) is None
    }

    /// The schedule that `text` describes, or why it describes none.
    pub fn parse(text: &str) -> (r: Result<NaturalExpr, String>)
        ensures
            match natural_error(text@) {
                None => r is Ok && r->Ok_0@ == text@,
                Some(e) => r is Err && r->Err_0@ == "invalid natural-language schedule `"@ + text@
                    + "`: "@ + e,
            },
    {
        match natural_parse_error(text) {
            None => Ok(NaturalExpr { text: text.to_owned() }),
            Some(e) => Err(quoting("invalid natural-language schedule `", text, "`: ", e.as_str())),
        }
    }
}

impl Rotate {
    /// The schedule written as one configuration entry: the key names the notation
    /// and the value is written in it.
    pub fn from_entry(key: &str, value: &str) -> (r: Result<Rotate, String>)
        ensures
            key@ == "cron"@ ==> match cron_error(value@) {
                None => r matches Ok(Rotate::Cron(e)) && e@ == value@,
                Some(e) => r matches Err(m) && m@ == "invalid cron `"@ + value@ + "`: "@ + e,
            },
            key@ == "natural"@ ==> match natural_error(value@) {
                None => r matches Ok(Rotate::Natural(e)) && e@ == value@,
                Some(e) => r matches Err(m) && m@ == "invalid natural-language schedule `"@ + value@
                    + "`: "@ + e,
            },
            key@ != "cron"@ && key@ != "natural"@ ==> (r matches Err(m) && m@
                == "unknown variant `"@ + key@ + "`, expected `cron` or `natural`"@),
    {
        proof {
            reveal_strlit("cron");
            reveal_strlit("natural");
            assert("cron"@.len() != "natural"@.len());
        }
        let key_owned = key.to_owned();
        if key_owned == "cron".to_owned() {
            match CronExpr::parse(value) {
                Ok(e) => Ok(Rotate::Cron(e)),
                Err(m) => Err(m),
            }
        } else if key_owned == "natural".to_owned() {
            match NaturalExpr::parse(value) {
                Ok(e) => Ok(Rotate::Natural(e)),
                Err(m) => Err(m),
            }
        } else {
            let mut m = "unknown variant `".to_owned();
            m.append(key);
            m.append("`, expected `cron` or `natural`");
            Err(m)
        }
    }

    /// The next trigger after `after`.
    ///
    /// A cron expression is read in the zone `tz`, and its trigger lies strictly
    /// after `after`. A natural-language schedule can only be asked for its next
    /// trigger as of the system clock, with the offset that `tz` has at `after`.
    pub fn next_after(&self, after: DateTime, tz: &Timezone) -> (r: Option<DateTime>)
        requires
            self is Cron ==> after@ < MAX_SECS * 1_000_000_000,
        ensures
            self matches Rotate::Cron(e) ==> instant(r) == next_cron(e@, after@, tz@),
            self is Cron && r is Some ==> r->0@ > after@,
            self matches Rotate::Natural(e) ==> next_natural(
                e@,
                utc_offset(tz@, after@),
                instant(r),
            ),
    {
        match self {
            Rotate::Cron(e) => {
                let first = e.trigger(after, tz, 0);
                let second = e.trigger(after, tz, 1);
                pick_trigger(after, first, second)
            },
            Rotate::Natural(e) => {
                proof {
                    use_type_invariant(e);
                    use_type_invariant(tz);
                }
                let offset: i32 = offset_at(tz.name.as_str(), after);
                listed_trigger(natural_item(e.text.as_str(), offset))
            },
        }
    }
}

/// A natural-language schedule answers with the instant of an item that its phrase may
/// list first at exactly the offset from UTC that the zone has at that moment, ahead of
/// UTC or behind it.
pub proof fn law_phrase_is_read_at_the_offset_of_the_zone(
    phrase: NaturalExpr,
    after: DateTime,
    tz: &Timezone,
    r: Option<DateTime>,
)
    requires
        call_ensures(Rotate::next_after, (&Rotate::Natural(phrase), after, tz), r),
    ensures
        r is Some ==> exists|secs: i64, nanos: u32| #[trigger]
            may_be_next(phrase@, utc_offset(tz@, after@), Some((secs, nanos))) && r->0@ == secs
                * 1_000_000_000 + nanos,
        r is None ==> may_be_next(phrase@, utc_offset(tz@, after@), None) || exists|
            secs: i64,
            nanos: u32,
        | #[trigger]
            may_be_next(phrase@, utc_offset(tz@, after@), Some((secs, nanos))) && !(nanos
                < 1_000_000_000 && MIN_SECS <= secs <= MAX_SECS),
{
    let offset = utc_offset(tz@, after@);
    let item = choose|item: Option<(i64, u32)>| #[trigger]
        may_be_next(phrase@, offset, item) && instant(r) == listed_instant(item);
    if let Some((secs, nanos)) = item {
        assert(may_be_next(phrase@, offset, Some((secs, nanos))));
    }
}

/// A cron schedule answers with the first of the triggers listed for a moment that lies
/// strictly after it, of which only the very first may not.
pub proof fn law_cron_trigger_comes_later(
    expr: CronExpr,
    after: DateTime,
    tz: &Timezone,
    r: Option<DateTime>,
)
    requires
        call_ensures(Rotate::next_after, (&Rotate::Cron(expr), after, tz), r),
    ensures
        r is Some ==> r->0@ > after@,
        cron_trigger(expr@, after@, tz@, 0) is None ==> r is None,
        cron_trigger(expr@, after@, tz@, 0) matches Some(t) ==> t > after@ ==> r is Some && r->0@
            == t,
        cron_trigger(expr@, after@, tz@, 0) matches Some(t) ==> t <= after@ ==> (cron_trigger(
            expr@,
            after@,
            tz@,
            1,
        ) matches Some(u) ==> u > after@ ==> r is Some && r->0@ == u),
        r is Some ==> Some(r->0@) == cron_trigger(expr@, after@, tz@, 0) || Some(r->0@)
            == cron_trigger(expr@, after@, tz@, 1),
{
}

/// A schedule is read in the notation that its key names, and as it is written; it is
/// refused where that notation's parser refuses it, and under any other key.
pub proof fn law_schedule_is_read_by_its_key(key: &str, value: &str, r: Result<Rotate, String>)
    requires
        call_ensures(Rotate::from_entry, (key, value), r),
    ensures
        r matches Ok(Rotate::Cron(e)) ==> key@ == "cron"@ && e@ == value@ && cron_error(
            value@,
        ) is None,
        r matches Ok(Rotate::Natural(e)) ==> key@ == "natural"@ && e@ == value@ && natural_error(
            value@,
        ) is None,
        key@ == "cron"@ && cron_error(value@) is None ==> r is Ok,
        key@ == "natural"@ && natural_error(value@) is None ==> r is Ok,
        key@ == "cron"@ && r is Err ==> r->Err_0@ == "invalid cron `"@ + value@ + "`: "@
            + cron_error(value@)->0,
        key@ == "natural"@ && r is Err ==> r->Err_0@ == "invalid natural-language schedule `"@
            + value@ + "`: "@ + natural_error(value@)->0,
        key@ != "cron"@ && key@ != "natural"@ ==> r is Err && r->Err_0@ == "unknown variant `"@
            + key@ + "`, expected `cron` or `natural`"@,
{
    reveal_strlit("cron");
    reveal_strlit("natural");
    assert("cron"@.len() != "natural"@.len());
}

/// A time zone is known by its name or refused, whether it is configured or the
/// system's.
pub proof fn law_zone_is_known_by_its_name(
    name: &str,
    r: Result<Timezone, String>,
    s: Result<Timezone, String>,
)
    requires
        call_ensures(Timezone::parse, (name,), r),
        call_ensures(Timezone::of_system, (name,), s),
    ensures
        r is Ok <==> timezone_error(name@) is None,
        s is Ok <==> timezone_error(name@) is None,
        r is Ok ==> r->Ok_0@ == name@,
        s is Ok ==> s->Ok_0@ == name@,
        r is Err ==> r->Err_0@ == "invalid IANA timezone `"@ + name@ + "`: "@ + timezone_error(
            name@,
        )->0,
        s is Err ==> s->Err_0@ == "system timezone `"@ + name@ + "` is not a known IANA name: "@
            + timezone_error(name@)->0,
{
}

/// The date in a zone is that of the day whose number is the number of whole days in
/// the seconds since 1970 and the zone's offset together.
pub proof fn law_local_date_counts_the_offset(tz: &Timezone, now: DateTime, r: Option<IsoDate>)
    requires
        call_ensures(Timezone::local_date, (tz, now), r),
    ensures
        r is Some ==> ({
            let d = day_number(r->0@.0, r->0@.1, r->0@.2);
            d * 86_400_000_000_000 <= now@ + utc_offset(tz@, now@) * 1_000_000_000 < (d + 1)
                * 86_400_000_000_000
        }),
        -377_705_116_800_000_000_000 <= now@ + utc_offset(tz@, now@) * 1_000_000_000
            < 253_402_300_800_000_000_000 ==> r is Some,
{
}

/// Of two listed triggers, none is picked that does not lie strictly after the given
/// moment, and the first is preferred.
pub proof fn law_later_trigger_is_picked(
    after: DateTime,
    first: Option<DateTime>,
    second: Option<DateTime>,
    r: Option<DateTime>,
)
    requires
        call_ensures(pick_trigger, (after, first, second), r),
    ensures
        r is Some ==> r->0@ > after@,
        first is None ==> r is None,
        first is Some && first->0@ > after@ ==> r is Some && r->0@ == first->0@,
        first is Some && first->0@ <= after@ && second is Some && second->0@ > after@ ==> r is Some
            && r->0@ == second->0@,
{
}

/// A listed trigger is the instant of its seconds and nanoseconds, where there is one.
pub proof fn law_listed_trigger_is_its_instant(item: Option<(i64, u32)>, r: Option<DateTime>)
    requires
        call_ensures(listed_trigger, (item,), r),
    ensures
        item is None ==> r is None,
        item matches Some((secs, nanos)) ==> (r is Some <==> nanos < 1_000_000_000 && MIN_SECS
            <= secs <= MAX_SECS),
        item matches Some((secs, nanos)) ==> r is Some ==> r->0@ == secs * 1_000_000_000 + nanos,
{
}

} // verus!
