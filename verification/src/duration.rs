//! Spans of time as they are written in the configuration, such as `1h 30m`.

use vstd::prelude::*;

use crate::text::{ascii_digit, chars_of, code_of, error_view, string_of};
use crate::time::{delta_representable, TimeDelta, NANOS_PER_SEC};

verus! {

/// The span that `text` denotes, in seconds and nanoseconds, or what is wrong with
/// it, in the words of the duration parser.
pub uninterp spec fn span_of(text: Seq<char>) -> Result<(u64, u32), Seq<char>>;

/// The nanoseconds in one second, minute, hour and so on, for each unit of time by
/// its name; zero for any other word.
pub open spec fn unit_nanos(unit: Seq<char>) -> nat {
    if unit == "nanos"@ || unit == "nsec"@ || unit == "ns"@ {
        1
    } else if unit == "usec"@ || unit == "us"@ || unit == "µs"@ {
        1_000
    } else if unit == "millis"@ || unit == "msec"@ || unit == "ms"@ {
        1_000_000
    } else if unit == "seconds"@ || unit == "second"@ || unit == "secs"@ || unit == "sec"@ || unit
        == "s"@ {
        1_000_000_000
    } else if unit == "minutes"@ || unit == "minute"@ || unit == "min"@ || unit == "mins"@ || unit
        == "m"@ {
        60_000_000_000
    } else if unit == "hours"@ || unit == "hour"@ || unit == "hr"@ || unit == "hrs"@ || unit
        == "h"@ {
        3_600_000_000_000
    } else if unit == "days"@ || unit == "day"@ || unit == "d"@ {
        86_400_000_000_000
    } else if unit == "weeks"@ || unit == "week"@ || unit == "wk"@ || unit == "wks"@ || unit
        == "w"@ {
        604_800_000_000_000
    } else if unit == "months"@ || unit == "month"@ || unit == "M"@ {
        2_630_016_000_000_000
    } else if unit == "years"@ || unit == "year"@ || unit == "yr"@ || unit == "yrs"@ || unit
        == "y"@ {
        31_557_600_000_000_000
    } else {
        0
    }
}

/// The first number that does not fit 64 bits. A number from there on is an error
/// to the duration parser, and counts as this one.
pub const NUMBER_LIMIT: u128 = 18_446_744_073_709_551_616;

/// The nanoseconds in as many seconds as the first number that does not fit 64 bits:
/// the shortest span that the duration parser cannot hold.
pub const SPAN_LIMIT: u128 = 18_446_744_073_709_551_616_000_000_000;

/// What any longer span counts as.
pub const PAST_LIMIT: u128 = 18_446_744_073_709_551_616_000_000_001;

/// How far a duration text has been read: the number before the current unit, and
/// whether a fraction follows it; the name of the unit so far; bounds on the span of
/// everything before, in nanoseconds; whether that had a fraction or a unit below
/// the second; and whether the span may have come to [`SPAN_LIMIT`] with such a part
/// in it.
#[verifier::ext_equal]
pub struct Reading {
    pub number: nat,
    pub fraction: bool,
    pub unit: Seq<char>,
    pub low: nat,
    pub high: nat,
    pub fine: bool,
    pub hit: bool,
}

/// `a`, or `limit` if that is less.
pub open spec fn at_most(a: nat, limit: nat) -> nat {
    if a < limit {
        a
    } else {
        limit
    }
}

impl Reading {
    /// Nothing read yet, but for what came before the current number.
    pub open spec fn starting(low: nat, high: nat, fine: bool, hit: bool) -> Reading {
        Reading { number: 0, fraction: false, unit: seq![], low, high, fine, hit }
    }

    /// The current number and unit added to the rest. A fraction is less than a unit.
    /// A number that is too long ends the reading, as if the limit were passed.
    pub open spec fn closed(self) -> Reading {
        let nanos = unit_nanos(self.unit);
        let part = if self.fraction && nanos > 0 {
            (nanos - 1) as nat
        } else {
            0nat
        };
        let over = self.number >= NUMBER_LIMIT;
        let past = PAST_LIMIT as nat;
        let low = if over {
            past
        } else {
            at_most(self.low + self.number * nanos, past)
        };
        let high = if over {
            past
        } else {
            at_most(self.high + self.number * nanos + part, past)
        };
        let fine = self.fine || self.fraction || 0 < nanos < 1_000_000_000;
        Reading::starting(low, high, fine, self.hit || (fine && low <= SPAN_LIMIT <= high))
    }

    /// One more character read. A unit ends with the last of its letters.
    pub open spec fn with_char(self, c: char) -> Reading {
        if is_letter(c) {
            Reading { unit: self.unit.push(c), ..self }
        } else {
            let r = if self.unit.len() > 0 {
                self.closed()
            } else {
                self
            };
            if c == '.' {
                Reading { fraction: true, ..r }
            } else if ascii_digit(c) && !r.fraction {
                Reading {
                    number: at_most(r.number * 10 + (c as nat - 48) as nat, NUMBER_LIMIT as nat),
                    ..r
                }
            } else {
                r
            }
        }
    }
}

/// Whether `c` can stand in the name of a unit.
pub open spec fn is_letter(c: char) -> bool {
    'a' <= c <= 'z' || 'A' <= c <= 'Z' || c == 'µ'
}

/// How far `s` is read once all of it is.
pub open spec fn reading_of(s: Seq<char>) -> Reading
    decreases s.len(),
{
    if s.len() == 0 {
        Reading::starting(0, 0, false, false)
    } else {
        reading_of(s.drop_last()).with_char(s.last())
    }
}

/// Whether the duration parser can read `s` without coming to exactly the shortest
/// span that it cannot hold, with a part below the second in it. Any other span that
/// is too long is an error to it.
pub open spec fn readable(s: Seq<char>) -> bool {
    !reading_of(s).closed().hit
}

/// `humantime::parse_duration`: the span in seconds and nanoseconds, or the text of
/// its error. It panics where the seconds that it can hold are used up and exactly a
/// thousand milliseconds are left over, so a text that could come to that is left
/// out.
#[verifier::external_body]
fn humantime_span(text: &str) -> (r: Result<(u64, u32), String>)
    requires
        readable(text@),
    ensures
        error_view(r) == span_of(text@),
        r matches Ok((secs, nanos)) ==> nanos < NANOS_PER_SEC,
{
    humantime::parse_duration(text)
        .map(|d| (d.as_secs(), d.subsec_nanos()))
        .map_err(|e| e.to_string())
}

/// Whether `s` is the word `name`.
fn is_word(s: &String, name: &str) -> (r: bool)
    ensures
        r == (s@ == name@),
{
    *s == name.to_owned()
}

/// The nanoseconds in the unit of time called `unit`.
fn nanos_of(unit: &Vec<char>) -> (r: u128)
    ensures
        r == unit_nanos(unit@),
{
    let u = string_of(unit);
    if is_word(&u, "nanos") || is_word(&u, "nsec") || is_word(&u, "ns") {
        1
    } else if is_word(&u, "usec") || is_word(&u, "us") || is_word(&u, "µs") {
        1_000
    } else if is_word(&u, "millis") || is_word(&u, "msec") || is_word(&u, "ms") {
        1_000_000
    } else if is_word(&u, "seconds") || is_word(&u, "second") || is_word(&u, "secs") || is_word(
        &u,
        "sec",
    ) || is_word(&u, "s") {
        1_000_000_000
    } else if is_word(&u, "minutes") || is_word(&u, "minute") || is_word(&u, "min") || is_word(
        &u,
        "mins",
    ) || is_word(&u, "m") {
        60_000_000_000
    } else if is_word(&u, "hours") || is_word(&u, "hour") || is_word(&u, "hr") || is_word(
        &u,
        "hrs",
    ) || is_word(&u, "h") {
        3_600_000_000_000
    } else if is_word(&u, "days") || is_word(&u, "day") || is_word(&u, "d") {
        86_400_000_000_000
    } else if is_word(&u, "weeks") || is_word(&u, "week") || is_word(&u, "wk") || is_word(
        &u,
        "wks",
    ) || is_word(&u, "w") {
        604_800_000_000_000
    } else if is_word(&u, "months") || is_word(&u, "month") || is_word(&u, "M") {
        2_630_016_000_000_000
    } else if is_word(&u, "years") || is_word(&u, "year") || is_word(&u, "yr") || is_word(
        &u,
        "yrs",
    ) || is_word(&u, "y") {
        31_557_600_000_000_000
    } else {
        0
    }
}

/// How far a duration text has been read.
struct Progress {
    number: u128,
    fraction: bool,
    unit: Vec<char>,
    low: u128,
    high: u128,
    fine: bool,
    hit: bool,
}

impl Progress {
    spec fn reading(self) -> Reading {
        Reading {
            number: self.number as nat,
            fraction: self.fraction,
            unit: self.unit@,
            low: self.low as nat,
            high: self.high as nat,
            fine: self.fine,
            hit: self.hit,
        }
    }

    spec fn bounded(self) -> bool {
        self.number <= NUMBER_LIMIT && self.low <= PAST_LIMIT && self.high <= PAST_LIMIT
    }

    /// The current number and unit added to the rest.
    fn close(self) -> (r: Progress)
        requires
            self.bounded(),
        ensures
            r.bounded(),
            r.reading() == self.reading().closed(),
    {
        let nanos: u128 = nanos_of(&self.unit);
        let number: u128 = self.number;
        let part: u128 = if self.fraction && nanos > 0 {
            nanos - 1
        } else {
            0
        };
        assert(0 <= number * nanos <= 18_446_744_073_709_551_616 * 31_557_600_000_000_000)
            by (nonlinear_arith)
            requires
                0 <= number <= 18_446_744_073_709_551_616,
                0 <= nanos <= 31_557_600_000_000_000,
        ;
        let over = number >= NUMBER_LIMIT;
        let low: u128 = if over || self.low + number * nanos >= PAST_LIMIT {
            PAST_LIMIT
        } else {
            self.low + number * nanos
        };
        let high: u128 = if over || self.high + number * nanos + part >= PAST_LIMIT {
            PAST_LIMIT
        } else {
            self.high + number * nanos + part
        };
        let fine = self.fine || self.fraction || (0 < nanos && nanos < 1_000_000_000);
        let hit = self.hit || (fine && low <= SPAN_LIMIT && SPAN_LIMIT <= high);
        let r = Progress { number: 0, fraction: false, unit: Vec::new(), low, high, fine, hit };
        assert(r.reading() =~= self.reading().closed());
        r
    }

    /// One more character read.
    fn read(self, c: char) -> (r: Progress)
        requires
            self.bounded(),
        ensures
            r.bounded(),
            r.reading() == self.reading().with_char(c),
    {
        let n: u32 = code_of(c);
        if (97 <= n && n <= 122) || (65 <= n && n <= 90) || c == 'µ' {
            let ghost before = self.reading();
            let Progress { number, fraction, mut unit, low, high, fine, hit } = self;
            unit.push(c);
            let r = Progress { number, fraction, unit, low, high, fine, hit };
            assert(r.reading() =~= before.with_char(c));
            return r;
        }
        let mut r = if self.unit.len() > 0 {
            self.close()
        } else {
            self
        };
        if c == '.' {
            r.fraction = true;
        } else if 48 <= n && n <= 57 && !r.fraction {
            let longer: u128 = r.number * 10 + (n - 48) as u128;
            r.number = if longer < NUMBER_LIMIT {
                longer
            } else {
                NUMBER_LIMIT
            };
        }
        r
    }
}

/// Whether [`parse_duration`] can read `text`.
pub fn is_readable(text: &str) -> (r: bool)
    ensures
        r == readable(text@),
{
    let s = chars_of(text);
    let mut p = Progress {
        number: 0,
        fraction: false,
        unit: Vec::new(),
        low: 0,
        high: 0,
        fine: false,
        hit: false,
    };
    let mut i: usize = 0;
    assert(p.reading() =~= reading_of(s@.take(0)));
    while i < s.len()
        invariant
            i <= s.len(),
            p.bounded(),
            p.reading() == reading_of(s@.take(i as int)),
        decreases s.len() - i,
    {
        assert(s@.take(i + 1).drop_last() =~= s@.take(i as int));
        p = p.read(s[i]);
        i = i + 1;
    }
    assert(s@.take(s@.len() as int) =~= s@);
    !p.close().hit
}

/// The error for a span that is too long.
pub open spec fn out_of_range(text: Seq<char>) -> Seq<char> {
    "duration `"@ + text + "` exceeds chrono representable range (max ~292M years)"@
}

/// The error for a span that is too long.
fn range_error(text: &str) -> (r: String)
    ensures
        r@ == out_of_range(text@),
{
    let mut m = "duration `".to_owned();
    m.append(text);
    m.append("` exceeds chrono representable range (max ~292M years)");
    m
}

/// What a duration text denotes, given what the duration parser makes of it.
pub open spec fn duration_of(text: Seq<char>, span: Result<(u64, u32), Seq<char>>) -> Result<
    int,
    Seq<char>,
> {
    match span {
        Err(e) => Err(e),
        Ok((secs, nanos)) => if delta_representable(secs * 1_000_000_000 + nanos) {
            Ok(secs * 1_000_000_000 + nanos)
        } else {
            Err(out_of_range(text))
        },
    }
}

/// A span of time, or an error, as what they denote.
pub open spec fn delta_result(r: Result<TimeDelta, String>) -> Result<int, Seq<char>> {
    match r {
        Ok(d) => Ok(d@),
        Err(e) => Err(e@),
    }
}

/// The span that `text` denotes, given what the duration parser makes of it. One
/// that is too long for a [`TimeDelta`] is an error.
pub fn checked_span(text: &str, span: Result<(u64, u32), String>) -> (r: Result<TimeDelta, String>)
    requires
        span matches Ok((secs, nanos)) ==> nanos < NANOS_PER_SEC,
    ensures
        delta_result(r) == duration_of(text@, error_view(span)),
{
    match span {
        Err(e) => Err(e),
        Ok((secs, nanos)) => match TimeDelta::from_std(secs, nanos) {
            Some(d) => Ok(d),
            None => Err(range_error(text)),
        },
    }
}

/// Reads a span of time, such as `30s`, `15m` or `1h 30m`.
pub fn parse_duration(text: &str) -> (r: Result<TimeDelta, String>)
    requires
        readable(text@),
    ensures
        delta_result(r) == duration_of(text@, span_of(text@)),
{
    checked_span(text, humantime_span(text))
}

/// Reads a span of time, where the duration parser can.
pub fn read_duration(text: &str) -> (r: Option<Result<TimeDelta, String>>)
    ensures
        r is Some <==> readable(text@),
        r is Some ==> delta_result(r->0) == duration_of(text@, span_of(text@)),
{
    if is_readable(text) {
        Some(parse_duration(text))
    } else {
        None
    }
}

/// What the duration parser makes of a text is the span, to the nanosecond, if that is at
/// most the longest that can be held, and else an error that quotes the text; its own
/// error is handed on.
pub proof fn law_span_is_that_of_the_parser(
    text: &str,
    r: Option<Result<TimeDelta, String>>,
)
    requires
        call_ensures(read_duration, (text,), r),
        r is Some,
    ensures
        span_of(text@) matches Ok((secs, nanos)) ==> (if secs * 1_000_000_000 + nanos
            <= 9_223_372_036_854_775_807_000_000 {
            r->0 is Ok && r->0->Ok_0@ == secs * 1_000_000_000 + nanos
        } else {
            r->0 is Err && r->0->Err_0@ == "duration `"@ + text@
                + "` exceeds chrono representable range (max ~292M years)"@
        }),
        span_of(text@) matches Err(e) ==> r->0 is Err && r->0->Err_0@ == e,
{
}

/// The same, given what the parser made of the text.
pub proof fn law_span_is_held_or_refused(
    text: &str,
    span: Result<(u64, u32), String>,
    r: Result<TimeDelta, String>,
)
    requires
        call_ensures(checked_span, (text, span), r),
    ensures
        span matches Ok((secs, nanos)) ==> (if secs * 1_000_000_000 + nanos
            <= 9_223_372_036_854_775_807_000_000 {
            r is Ok && r->Ok_0@ == secs * 1_000_000_000 + nanos
        } else {
            r is Err && r->Err_0@ == "duration `"@ + text@
                + "` exceeds chrono representable range (max ~292M years)"@
        }),
        span matches Err(e) ==> r is Err && r->Err_0@ == e@,
{
}

/// Twenty to the power of `n`.
spec fn power_of_twenty(n: nat) -> nat
    decreases n,
{
    if n == 0 {
        1
    } else {
        20 * power_of_twenty((n - 1) as nat)
    }
}

/// The longest unit, in nanoseconds.
proof fn lemma_units_are_bounded(unit: Seq<char>)
    ensures
        unit_nanos(unit) <= 31_557_600_000_000_000,
{
}

/// Whether what was read of a text of `n` characters can have come to the limit.
spec fn stays_short(r: Reading, n: nat) -> bool {
    &&& r.high + (r.number + 1) * 31_557_600_000_000_000 <= 31_557_600_000_000_000
        * power_of_twenty(n)
    &&& r.low <= r.high
    &&& !r.hit
}

/// What is added at the end of a unit at most doubles the bound.
proof fn lemma_closing_stays_short(r: Reading, n: nat)
    requires
        stays_short(r, n),
        power_of_twenty(n) <= 512_000_000_000,
    ensures
        r.closed().high + 31_557_600_000_000_000 <= 2 * (31_557_600_000_000_000 * power_of_twenty(
            n,
        )),
        r.closed().high <= 31_557_600_000_000_000 * power_of_twenty(n),
        r.closed().low <= r.closed().high,
        r.closed().number == 0,
        !r.closed().hit,
{
    lemma_units_are_bounded(r.unit);
    let nanos = unit_nanos(r.unit);
    let k: int = 31_557_600_000_000_000;
    let n1 = r.number as int;
    assert(n1 * nanos <= n1 * k) by (nonlinear_arith)
        requires
            0 <= nanos <= k,
            0 <= n1,
    ;
    assert(0 <= n1 * nanos) by (nonlinear_arith)
        requires
            0 <= nanos,
            0 <= n1,
    ;
    assert((n1 + 1) * k == n1 * k + k) by (nonlinear_arith);
}

/// A text of few characters stays far from the limit.
proof fn lemma_short_text(s: Seq<char>)
    requires
        s.len() <= 9,
    ensures
        stays_short(reading_of(s), s.len()),
    decreases s.len(),
{
    reveal_with_fuel(power_of_twenty, 10);
    if s.len() > 0 {
        let v = s.drop_last();
        lemma_short_text(v);
        let before = reading_of(v);
        lemma_closing_stays_short(before, v.len());
    }
}

/// A text of at most nine characters, such as `1h 30m`, is always handed to the duration
/// parser.
pub proof fn law_short_texts_are_read(text: &str, r: Option<Result<TimeDelta, String>>)
    requires
        call_ensures(read_duration, (text,), r),
        text@.len() <= 9,
    ensures
        r is Some,
{
    lemma_short_text(text@);
    reveal_with_fuel(power_of_twenty, 10);
    lemma_closing_stays_short(reading_of(text@), text@.len());
}

/// A text is read exactly where it can be, and then as it is parsed.
pub proof fn law_read_where_readable(
    text: &str,
    ok: bool,
    r: Option<Result<TimeDelta, String>>,
    p: Result<TimeDelta, String>,
)
    requires
        call_ensures(is_readable, (text,), ok),
        call_ensures(read_duration, (text,), r),
        call_ensures(parse_duration, (text,), p),
    ensures
        r is Some <==> ok,
        r is Some ==> (r->0 is Ok <==> p is Ok),
        r is Some && p is Ok ==> r->0->Ok_0@ == p->Ok_0@,
        r is Some && p is Err ==> r->0->Err_0@ == p->Err_0@,
{
}

} // verus!
