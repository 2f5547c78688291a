//! Readings of the clock, the time between two of them, and how both are written.

use chrono::{DateTime, TimeDelta, Utc};
use vstd::prelude::*;

use crate::text;

verus! {

/// Nanoseconds in a second.
pub const NANOS_PER_SEC: i64 = 1_000_000_000;

/// The first second that a calendar date can be given to, the start of the year -262143.
pub const MIN_SECS: i64 = -8_334_601_228_800;

/// The last second that a calendar date can be given to, the end of the year 262142.
pub const MAX_SECS: i64 = 8_210_266_876_799;

/// The largest number of whole seconds that a span of either sign stays below.
pub const SPAN_SECS: i64 = 9_223_372_036_854_775;

/// A moment in UTC: whole seconds since the start of 1970, and the nanoseconds since
/// the last whole second.
#[derive(Clone, Copy, PartialEq, Eq, Structural, Debug)]
pub struct Timestamp {
    pub secs: i64,
    pub nanos: u32,
}

impl Timestamp {
    /// Whether the moment lies in the calendar, outside of leap seconds.
    pub open spec fn valid(self) -> bool {
        MIN_SECS <= self.secs <= MAX_SECS && self.nanos < NANOS_PER_SEC
    }

    /// Nanoseconds since the start of 1970.
    pub open spec fn total(self) -> int {
        self.secs * NANOS_PER_SEC + self.nanos
    }

    /// The moment as the tables show it: hour, minute and second of the day in two
    /// digits each, then the nanoseconds in nine.
    pub open spec fn text(self) -> Seq<char> {
        let second = self.secs as int % 86_400;
        text::padded((second / 3_600) as nat, 2) + seq![':'] + text::padded((second / 60 % 60) as nat, 2)
            + seq![':'] + text::padded((second % 60) as nat, 2) + seq!['.'] + text::padded(self.nanos as nat, 9)
    }

    /// Whether the moment is one that the machine's clock gave when it was read.
    pub closed spec fn read_from_clock(self) -> bool {
        call_ensures(utc_now, (), self)
    }

    /// The present moment.
    pub fn now() -> (now: Timestamp)
        ensures
            now.valid(),
            now.secs >= 0,
            now.read_from_clock(),
    {
        let clock = utc_now;
        clock()
    }

    /// The moment as the tables show it.
    pub fn to_text(&self) -> (text: String)
        requires
            self.valid(),
        ensures
            text@ == self.text(),
    {
        clock_text(*self)
    }
}

/// The time from one moment to another: whole seconds, rounded down, and the
/// nanoseconds that are left. It is negative where the clock was set back.
#[derive(Clone, Copy, PartialEq, Eq, Structural, Debug)]
pub struct Span {
    pub secs: i64,
    pub nanos: u32,
}

impl Span {
    /// Whether the span is one that a text can be made of.
    pub open spec fn valid(self) -> bool {
        -SPAN_SECS <= self.secs < SPAN_SECS && self.nanos < NANOS_PER_SEC
    }

    /// The length in nanoseconds.
    pub open spec fn total(self) -> int {
        self.secs * NANOS_PER_SEC + self.nanos
    }

    /// The span of a number of nanoseconds.
    pub open spec fn of_nanos(total: int) -> Span {
        Span {
            secs: (total / NANOS_PER_SEC as int) as i64,
            nanos: (total % NANOS_PER_SEC as int) as u32,
        }
    }

    /// The time from `start` to `end`.
    pub open spec fn from_to(start: Timestamp, end: Timestamp) -> Span {
        Span::of_nanos(end.total() - start.total())
    }

    /// The span as the tables show it: a sign where it is negative, `P0D` for none at
    /// all, and else the seconds between `PT` and `S`, with a fraction that does not end
    /// in a zero.
    pub open spec fn text(self) -> Seq<char> {
        let sign = if self.total() < 0 {
            seq!['-', 'P']
        } else {
            seq!['P']
        };
        let size: nat = if self.total() < 0 {
            (-self.total()) as nat
        } else {
            self.total() as nat
        };
        if size == 0 {
            sign + seq!['0', 'D']
        } else {
            sign + seq!['T'] + text::decimal(size / NANOS_PER_SEC as nat) + fraction(
                size % NANOS_PER_SEC as nat,
            ) + seq!['S']
        }
    }

    /// The time from `start` to `end`.
    pub fn between(start: Timestamp, end: Timestamp) -> (span: Span)
        requires
            start.valid(),
            end.valid(),
        ensures
            span.valid(),
            span == Span::from_to(start, end),
            span.total() == end.total() - start.total(),
    {
        let (secs, nanos): (i64, i32) = utc_difference(start, end);
        if nanos < 0 {
            Span { secs: secs - 1, nanos: (nanos + 1_000_000_000) as u32 }
        } else {
            Span { secs, nanos: nanos as u32 }
        }
    }

    /// The span as the tables show it.
    pub fn to_text(&self) -> (text: String)
        requires
            self.valid(),
        ensures
            text@ == self.text(),
    {
        span_text(*self)
    }
}

/// A text without the zeros at its end.
pub open spec fn without_last_zeros(s: Seq<char>) -> Seq<char>
    decreases s.len(),
{
    if s.len() > 0 && s.last() == '0' {
        without_last_zeros(s.drop_last())
    } else {
        s
    }
}

/// The fraction of a second behind its point; nothing at all for a whole second.
pub open spec fn fraction(nanos: nat) -> Seq<char> {
    if nanos == 0 {
        seq![]
    } else {
        seq!['.'] + without_last_zeros(text::padded(nanos, 9))
    }
}

/// `chrono::Utc::now`: some moment of the calendar, never before 1970 and never inside
/// a leap second. Which one it is depends on the machine's clock. It panics where that
/// clock stands before 1970 or past the calendar's end.
#[verifier::external_body]
fn utc_now() -> (now: Timestamp)
    ensures
        now.valid(),
        now.secs >= 0,
{
    let now = Utc::now();
    Timestamp { secs: now.timestamp(), nanos: now.timestamp_subsec_nanos() }
}

/// `chrono::DateTime::format` with `%H:%M:%S.%f`: hour, minute and second of the day in
/// two digits each, then the nanoseconds of the second padded with zeros to nine digits.
#[verifier::external_body]
fn clock_text(moment: Timestamp) -> (text: String)
    requires
        moment.valid(),
    ensures
        text@ == moment.text(),
{
    let moment = DateTime::<Utc>::from_timestamp(moment.secs, moment.nanos).unwrap();
    moment.format("%H:%M:%S.%f").to_string()
}

/// The difference of two `chrono::DateTime<Utc>`, read by `num_seconds` and
/// `subsec_nanos`: whole seconds and nanoseconds of one sign, which make up the exact
/// number of nanoseconds from the one moment to the other.
#[verifier::external_body]
fn utc_difference(start: Timestamp, end: Timestamp) -> (span: (i64, i32))
    requires
        start.valid(),
        end.valid(),
    ensures
        span.0 * NANOS_PER_SEC + span.1 == end.total() - start.total(),
        -NANOS_PER_SEC < span.1 < NANOS_PER_SEC,
        span.0 > 0 ==> span.1 >= 0,
        span.0 < 0 ==> span.1 <= 0,
{
    let start = DateTime::<Utc>::from_timestamp(start.secs, start.nanos).unwrap();
    let end = DateTime::<Utc>::from_timestamp(end.secs, end.nanos).unwrap();
    let span = end - start;
    (span.num_seconds(), span.subsec_nanos())
}

/// The `Display` of `chrono::TimeDelta`: the sign, `P0D` for no time at all, and else
/// the seconds between `PT` and `S`, with the fraction cut behind its last digit that is
/// not a zero.
#[verifier::external_body]
fn span_text(span: Span) -> (text: String)
    requires
        span.valid(),
    ensures
        text@ == span.text(),
{
    TimeDelta::new(span.secs, span.nanos).unwrap().to_string()
}

/// Every moment is written in eighteen characters.
pub proof fn moments_have_one_width(moment: Timestamp)
    ensures
        moment.text().len() == 18,
{
    let second = moment.secs as int % 86_400;
    text::padded_has_its_width((second / 3_600) as nat, 2);
    text::padded_has_its_width((second / 60 % 60) as nat, 2);
    text::padded_has_its_width((second % 60) as nat, 2);
    text::padded_has_its_width(moment.nanos as nat, 9);
}

/// The time between two moments is exact to the nanosecond, and the times between three
/// add up.
pub proof fn spans_add_up(a: Timestamp, b: Timestamp, c: Timestamp)
    requires
        a.valid(),
        b.valid(),
        c.valid(),
    ensures
        Span::from_to(a, b).valid(),
        Span::from_to(a, b).total() == b.total() - a.total(),
        Span::from_to(a, b).total() + Span::from_to(b, c).total() == Span::from_to(a, c).total(),
{
}

/// A span is written with a minus sign exactly where the clock was set back.
pub proof fn minus_means_set_back(start: Timestamp, end: Timestamp)
    requires
        start.valid(),
        end.valid(),
    ensures
        Span::from_to(start, end).text()[0] == '-' <==> end.total() < start.total(),
{
    spans_add_up(start, end, end);
}

/// Whether a text shows the time of day of a moment: two digits of hours, of minutes and
/// of seconds, which together make up the seconds of the day, and nine of nanoseconds.
pub open spec fn shows_moment(s: Seq<char>, moment: Timestamp) -> bool {
    let hours = s.subrange(0, 2);
    let minutes = s.subrange(3, 5);
    let seconds = s.subrange(6, 8);
    let nanos = s.subrange(9, 18);
    &&& s.len() == 18
    &&& s[2] == ':' && s[5] == ':' && s[8] == '.'
    &&& text::is_number(hours) && text::is_number(minutes) && text::is_number(seconds)
    &&& text::is_number(nanos)
    &&& text::number(minutes) < 60 && text::number(seconds) < 60
    &&& 3_600 * text::number(hours) + 60 * text::number(minutes) + text::number(seconds)
        == moment.secs as int % 86_400
    &&& text::number(nanos) == moment.nanos
}

/// What the fraction of a second behind a point comes to, in nanoseconds.
pub open spec fn fraction_nanos(s: Seq<char>) -> nat {
    if s.len() == 0 {
        0
    } else {
        text::number(s.skip(1)) * text::power_of_ten((10 - s.len()) as nat)
    }
}

/// Whether a text is a fraction of a second as short as can be: nothing at all, or a point
/// and up to nine digits, the last of which is not a zero.
pub open spec fn is_fraction(s: Seq<char>) -> bool {
    s.len() == 0 || (s.len() <= 10 && s[0] == '.' && text::is_number(s.skip(1)) && s.last() != '0')
}

/// Whether a text shows a number of nanoseconds other than zero, as these whole seconds and
/// this fraction: a minus sign where it is negative, `PT`, the seconds, and `S`.
pub open spec fn shows_seconds(
    s: Seq<char>,
    whole: Seq<char>,
    fraction: Seq<char>,
    nanos: int,
) -> bool {
    &&& s == (if nanos < 0 {
        seq!['-', 'P', 'T']
    } else {
        seq!['P', 'T']
    }) + whole + fraction + seq!['S']
    &&& text::is_number(whole)
    &&& is_fraction(fraction)
    &&& text::number(whole) * 1_000_000_000 + fraction_nanos(fraction) == if nanos < 0 {
        -nanos
    } else {
        nanos
    }
}

/// Whether a text shows a number of nanoseconds.
pub open spec fn shows_nanos(s: Seq<char>, nanos: int) -> bool {
    if nanos == 0 {
        s == seq!['P', '0', 'D']
    } else {
        exists|whole: Seq<char>, fraction: Seq<char>| shows_seconds(s, whole, fraction, nanos)
    }
}

/// The text of a moment shows its time of day, to the nanosecond.
pub proof fn moments_read_back(moment: Timestamp)
    requires
        moment.valid(),
    ensures
        shows_moment(moment.text(), moment),
{
    let second = moment.secs as int % 86_400;
    let hours = text::padded((second / 3_600) as nat, 2);
    let minutes = text::padded((second / 60 % 60) as nat, 2);
    let seconds = text::padded((second % 60) as nat, 2);
    let nanos = text::padded(moment.nanos as nat, 9);
    lemma_powers();
    text::padded_reads_back((second / 3_600) as nat, 2);
    text::padded_reads_back((second / 60 % 60) as nat, 2);
    text::padded_reads_back((second % 60) as nat, 2);
    text::padded_reads_back(moment.nanos as nat, 9);
    let s = moment.text();
    assert(s == hours + seq![':'] + minutes + seq![':'] + seconds + seq!['.'] + nanos);
    assert(s.subrange(0, 2) == hours);
    assert(s.subrange(3, 5) == minutes);
    assert(s.subrange(6, 8) == seconds);
    assert(s.subrange(9, 18) == nanos);
}

proof fn lemma_powers()
    ensures
        text::power_of_ten(2) == 100,
        text::power_of_ten(9) == 1_000_000_000,
{
    reveal_with_fuel(text::power_of_ten, 10);
}

/// The text of a span shows its length, to the nanosecond.
pub proof fn spans_read_back(span: Span)
    requires
        span.valid(),
    ensures
        shows_nanos(span.text(), span.total()),
{
    let total = span.total();
    let size: nat = if total < 0 {
        (-total) as nat
    } else {
        total as nat
    };
    let first = if total < 0 {
        seq!['-', 'P', 'T']
    } else {
        seq!['P', 'T']
    };
    if total != 0 {
        let whole = text::decimal(size / NANOS_PER_SEC as nat);
        let part = fraction(size % NANOS_PER_SEC as nat);
        text::decimal_reads_back(size / NANOS_PER_SEC as nat);
        lemma_fraction_reads_back(size % NANOS_PER_SEC as nat);
        assert(span.text() == first + whole + part + seq!['S']);
        assert(shows_seconds(span.text(), whole, part, total));
    } else {
        assert(span.text() == seq!['P', '0', 'D']);
    }
}

proof fn lemma_fraction_reads_back(nanos: nat)
    requires
        nanos < NANOS_PER_SEC,
    ensures
        is_fraction(fraction(nanos)),
        fraction_nanos(fraction(nanos)) == nanos,
{
    if nanos > 0 {
        let all = text::padded(nanos, 9);
        let kept = without_last_zeros(all);
        lemma_powers();
        text::padded_reads_back(nanos, 9);
        lemma_without_last_zeros(all);
        assert(fraction(nanos).skip(1) == kept);
        if kept.len() == 0 {
            assert(text::number(kept) == 0);
            assert(0 * text::power_of_ten(9) == 0);
        }
        assert(fraction(nanos).last() == kept.last());
    }
}

proof fn lemma_without_last_zeros(s: Seq<char>)
    ensures
        without_last_zeros(s).len() <= s.len(),
        without_last_zeros(s) == s.take(without_last_zeros(s).len() as int),
        without_last_zeros(s).len() > 0 ==> without_last_zeros(s).last() != '0',
        text::number(s) == text::number(without_last_zeros(s)) * text::power_of_ten(
            (s.len() - without_last_zeros(s).len()) as nat,
        ),
    decreases s.len(),
{
    let kept = without_last_zeros(s);
    if s.len() > 0 && s.last() == '0' {
        let before = s.drop_last();
        lemma_without_last_zeros(before);
        let n = text::number(kept);
        let p = text::power_of_ten((before.len() - kept.len()) as nat);
        assert(text::number(s) == 10 * text::number(before));
        assert(text::power_of_ten((s.len() - kept.len()) as nat) == 10 * p);
        assert(10 * (n * p) == n * (10 * p)) by (nonlinear_arith);
    } else {
        assert(s.take(s.len() as int) == s);
        assert(text::power_of_ten(0) == 1);
        assert(text::number(s) * 1 == text::number(s));
    }
}

/// What the clock gives is a moment of the calendar, from 1970 on.
pub proof fn readings_are_valid(moment: Timestamp)
    requires
        moment.read_from_clock(),
    ensures
        moment.valid(),
        moment.secs >= 0,
{
}

/// What is taken for the present moment was read from the clock.
pub proof fn the_present_is_read_from_the_clock(now: Timestamp)
    requires
        call_ensures(Timestamp::now, (), now),
    ensures
        now.read_from_clock(),
{
}

} // verus!
