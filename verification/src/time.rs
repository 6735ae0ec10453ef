//! Moments in UTC and how they are written.
//!
//! The `chrono` crate reads the clock and writes moments down; a [`UtcTime`]
//! holds as plain numbers what it writes.
use crate::text::{all_digits, decimal, digits_value, is_one_line, law_zero_padded_denotes,
    law_zero_padded_is_as_long_as_needed, lemma_less_after_same_start, lemma_less_by_field,
    lemma_one_line_together, lemma_padded_order, lemma_padded_width, lemma_zero_padded_is_one_line,
    lex_less, zero_padded};
use chrono::{Datelike, Timelike};
use vstd::prelude::*;

verus! {

/// How the name of a run directory is written, in the notation of `chrono`.
pub const RUN_NAME_PATTERN: &'static str = "goal-%Y-%m-%d_%H-%M-%SZ";

/// A moment in UTC, by the proleptic Gregorian calendar and the 24 hour clock.
#[derive(Debug, Clone, Copy, PartialEq, Eq)]
pub struct UtcTime {
    year: i32,
    month: u32,
    day: u32,
    hour: u32,
    minute: u32,
    second: u32,
    nanosecond: u32,
}

/// The numbers that make up a moment.
pub struct UtcFields {
    pub year: int,
    pub month: int,
    pub day: int,
    pub hour: int,
    pub minute: int,
    pub second: int,
    pub nanosecond: int,
}

/// Whether a year has a 29th of February.
pub open spec fn is_leap_year(year: int) -> bool {
    year % 4 == 0 && (year % 100 != 0 || year % 400 == 0)
}

/// Whether a year has a 29th of February.
fn leap_year(year: i32) -> (leap: bool)
    requires
        -262143 <= year <= 262142,
    ensures
        leap == is_leap_year(year as int),
{
    // The calendar repeats every 400 years.
    let later: u32 = (year + 262_400) as u32;
    assert(later % 400 == year as int % 400);
    later % 4 == 0 && (later % 100 != 0 || later % 400 == 0)
}

/// How many days a month has.
pub open spec fn days_in_month(year: int, month: int) -> int {
    if month == 2 {
        if is_leap_year(year) {
            29
        } else {
            28
        }
    } else if month == 4 || month == 6 || month == 9 || month == 11 {
        30
    } else {
        31
    }
}

impl UtcFields {
    /// Whether there is such a moment. The years are those that `chrono` can
    /// hold. A leap second is the second before it with a second or more of
    /// nanoseconds; as in `chrono`, it may follow any second.
    pub open spec fn valid(self) -> bool {
        &&& -262143 <= self.year <= 262142
        &&& 1 <= self.month <= 12
        &&& 1 <= self.day <= days_in_month(self.year, self.month)
        &&& 0 <= self.hour <= 23
        &&& 0 <= self.minute <= 59
        &&& 0 <= self.second <= 59
        &&& 0 <= self.nanosecond < 2_000_000_000
    }

    /// The second as it is written: one more than the second for a leap second.
    pub open spec fn written_second(self) -> int {
        if self.nanosecond >= 1_000_000_000 {
            self.second + 1
        } else {
            self.second
        }
    }
}

/// A number from 0 to 99, in two digits.
pub open spec fn two_digits(n: int) -> Seq<char> {
    zero_padded(n as nat, 2)
}

/// A year in at least four digits, with a sign where it takes more than four
/// digits or lies before the year 0.
pub open spec fn year_text(year: int) -> Seq<char> {
    if 0 <= year <= 9999 {
        zero_padded(year as nat, 4)
    } else if year < 0 {
        seq!['-'] + zero_padded((-year) as nat, 4)
    } else {
        seq!['+'] + zero_padded(year as nat, 4)
    }
}

/// The part of a second after the point: nothing when it is 0, else as many
/// thousandths, millionths or billionths as show all of it.
pub open spec fn fraction_text(nanosecond: int) -> Seq<char> {
    let nano = nanosecond % 1_000_000_000;
    if nano == 0 {
        seq![]
    } else if nano % 1_000_000 == 0 {
        seq!['.'] + zero_padded((nano / 1_000_000) as nat, 3)
    } else if nano % 1_000 == 0 {
        seq!['.'] + zero_padded((nano / 1_000) as nat, 6)
    } else {
        seq!['.'] + zero_padded(nano as nat, 9)
    }
}

/// The name of a run directory that is made at a moment.
pub open spec fn run_name_text(t: UtcFields) -> Seq<char> {
    "goal-"@ + year_text(t.year) + "-"@ + two_digits(t.month) + "-"@ + two_digits(t.day) + "_"@
        + two_digits(t.hour) + "-"@ + two_digits(t.minute) + "-"@ + two_digits(t.written_second())
        + "Z"@
}

/// A moment as RFC 3339 has it, with the offset of UTC.
pub open spec fn rfc3339_text(t: UtcFields) -> Seq<char> {
    year_text(t.year) + "-"@ + two_digits(t.month) + "-"@ + two_digits(t.day) + "T"@ + two_digits(
        t.hour,
    ) + ":"@ + two_digits(t.minute) + ":"@ + two_digits(t.written_second()) + fraction_text(
        t.nanosecond,
    ) + "+00:00"@
}

impl View for UtcTime {
    type V = UtcFields;

    closed spec fn view(&self) -> UtcFields {
        UtcFields {
            year: self.year as int,
            month: self.month as int,
            day: self.day as int,
            hour: self.hour as int,
            minute: self.minute as int,
            second: self.second as int,
            nanosecond: self.nanosecond as int,
        }
    }
}

impl UtcTime {
    #[verifier::type_invariant]
    spec fn exists_in_calendar(&self) -> bool {
        self@.valid()
    }

    /// The moment that the numbers make up, if there is one.
    pub fn new(
        year: i32,
        month: u32,
        day: u32,
        hour: u32,
        minute: u32,
        second: u32,
        nanosecond: u32,
    ) -> (time: Option<UtcTime>)
        ensures
            ({
                let fields = UtcFields {
                    year: year as int,
                    month: month as int,
                    day: day as int,
                    hour: hour as int,
                    minute: minute as int,
                    second: second as int,
                    nanosecond: nanosecond as int,
                };
                &&& time is Some <==> fields.valid()
                &&& time matches Some(t) ==> t@ == fields
            }),
    {
        if year < -262143 || year > 262142 || month < 1 || month > 12 || day < 1 {
            return None;
        }
        let last_day: u32 = if month == 2 {
            if leap_year(year) {
                29
            } else {
                28
            }
        } else if month == 4 || month == 6 || month == 9 || month == 11 {
            30
        } else {
            31
        };
        if day > last_day || hour > 23 || minute > 59 || second > 59 {
            return None;
        }
        if nanosecond >= 2_000_000_000 {
            return None;
        }
        Some(UtcTime { year, month, day, hour, minute, second, nanosecond })
    }

    /// The moment in the form of RFC 3339.
    pub fn to_rfc3339(&self) -> (text: String)
        ensures
            text@ == rfc3339_text(self@),
    {
        proof {
            use_type_invariant(self);
        }
        chrono_rfc3339(self)
    }
}

/// The name of the run directory of a goal that was last changed at `timestamp`.
pub fn goal_run_dir_name(timestamp: &UtcTime) -> (name: String)
    ensures
        name@ == run_name_text(timestamp@),
{
    proof {
        use_type_invariant(timestamp);
    }
    chrono_format(timestamp, RUN_NAME_PATTERN)
}

/// `DateTime::<Utc>::format` of `chrono`, and `to_string` on what it returns:
/// the moment written by the pattern of run directory names. `%Y` is the year
/// in four digits, or with a sign outside the years 0 to 9999; `%m`, `%d`,
/// `%H`, `%M` and `%S` are the other numbers in two digits each, the second
/// being one more in a leap second; all else in the pattern stands as it is.
#[verifier::external_body]
fn chrono_format(time: &UtcTime, pattern: &str) -> (text: String)
    requires
        time@.valid(),
        pattern@ == RUN_NAME_PATTERN@,
    ensures
        text@ == run_name_text(time@),
{
    chrono::NaiveDate::from_ymd_opt(time.year, time.month, time.day)
        .unwrap()
        .and_hms_opt(time.hour, time.minute, time.second)
        .unwrap()
        .with_nanosecond(time.nanosecond)
        .unwrap()
        .and_utc()
        .format(pattern)
        .to_string()
}

/// `DateTime::<Utc>::to_rfc3339` of `chrono`: date and time in the form of
/// RFC 3339, with three, six or nine digits after the second where it has a
/// fraction, the second being one more in a leap second, and `+00:00` as the
/// offset.
#[verifier::external_body]
fn chrono_rfc3339(time: &UtcTime) -> (text: String)
    requires
        time@.valid(),
    ensures
        text@ == rfc3339_text(time@),
{
    chrono::NaiveDate::from_ymd_opt(time.year, time.month, time.day)
        .unwrap()
        .and_hms_opt(time.hour, time.minute, time.second)
        .unwrap()
        .with_nanosecond(time.nanosecond)
        .unwrap()
        .and_utc()
        .to_rfc3339()
}

/// `Utc::now` of `chrono`: some moment since the start of 1970, by the clock of
/// the machine. Which one it is, nothing says. `Utc::now` panics where that
/// clock stands before 1970.
#[verifier::external_body]
pub(crate) fn utc_now() -> (now: UtcTime)
    ensures
        now@.valid(),
        now@.year >= 1970,
{
    let now = chrono::Utc::now();
    UtcTime {
        year: now.year(),
        month: now.month(),
        day: now.day(),
        hour: now.hour(),
        minute: now.minute(),
        second: now.second(),
        nanosecond: now.nanosecond(),
    }
}

/// A moment in the form of RFC 3339 is on one line.
pub proof fn lemma_rfc3339_is_one_line(t: UtcFields)
    ensures
        is_one_line(rfc3339_text(t)),
{
    reveal_strlit("-");
    reveal_strlit("T");
    reveal_strlit(":");
    reveal_strlit("+00:00");
    lemma_year_is_one_line(t.year);
    lemma_fraction_is_one_line(t.nanosecond);
    lemma_zero_padded_is_one_line(t.month as nat, 2);
    lemma_zero_padded_is_one_line(t.day as nat, 2);
    lemma_zero_padded_is_one_line(t.hour as nat, 2);
    lemma_zero_padded_is_one_line(t.minute as nat, 2);
    lemma_zero_padded_is_one_line(t.written_second() as nat, 2);
    let date = year_text(t.year) + "-"@ + two_digits(t.month) + "-"@ + two_digits(t.day) + "T"@;
    lemma_one_line_together(year_text(t.year), "-"@);
    lemma_one_line_together(year_text(t.year) + "-"@, two_digits(t.month));
    lemma_one_line_together(year_text(t.year) + "-"@ + two_digits(t.month), "-"@);
    lemma_one_line_together(
        year_text(t.year) + "-"@ + two_digits(t.month) + "-"@,
        two_digits(t.day),
    );
    lemma_one_line_together(
        year_text(t.year) + "-"@ + two_digits(t.month) + "-"@ + two_digits(t.day),
        "T"@,
    );
    let time = date + two_digits(t.hour) + ":"@ + two_digits(t.minute) + ":"@;
    lemma_one_line_together(date, two_digits(t.hour));
    lemma_one_line_together(date + two_digits(t.hour), ":"@);
    lemma_one_line_together(date + two_digits(t.hour) + ":"@, two_digits(t.minute));
    lemma_one_line_together(date + two_digits(t.hour) + ":"@ + two_digits(t.minute), ":"@);
    lemma_one_line_together(time, two_digits(t.written_second()));
    lemma_one_line_together(
        time + two_digits(t.written_second()),
        fraction_text(t.nanosecond),
    );
    lemma_one_line_together(
        time + two_digits(t.written_second()) + fraction_text(t.nanosecond),
        "+00:00"@,
    );
}

/// A year is on one line.
proof fn lemma_year_is_one_line(year: int)
    ensures
        is_one_line(year_text(year)),
{
    lemma_zero_padded_is_one_line(year as nat, 4);
    lemma_zero_padded_is_one_line((-year) as nat, 4);
    if year < 0 {
        lemma_one_line_together(seq!['-'], zero_padded((-year) as nat, 4));
    } else if year > 9999 {
        lemma_one_line_together(seq!['+'], zero_padded(year as nat, 4));
    }
}

/// The part of a second after the point is on one line.
proof fn lemma_fraction_is_one_line(nanosecond: int)
    ensures
        is_one_line(fraction_text(nanosecond)),
{
    let nano = nanosecond % 1_000_000_000;
    lemma_zero_padded_is_one_line((nano / 1_000_000) as nat, 3);
    lemma_zero_padded_is_one_line((nano / 1_000) as nat, 6);
    lemma_zero_padded_is_one_line(nano as nat, 9);
    lemma_one_line_together(seq!['.'], zero_padded((nano / 1_000_000) as nat, 3));
    lemma_one_line_together(seq!['.'], zero_padded((nano / 1_000) as nat, 6));
    lemma_one_line_together(seq!['.'], zero_padded(nano as nat, 9));
}

/// Whether one moment lies before another, to the second.
pub open spec fn is_before(a: UtcFields, b: UtcFields) -> bool {
    ||| a.year < b.year
    ||| a.year == b.year && a.month < b.month
    ||| a.year == b.year && a.month == b.month && a.day < b.day
    ||| a.year == b.year && a.month == b.month && a.day == b.day && a.hour < b.hour
    ||| a.year == b.year && a.month == b.month && a.day == b.day && a.hour == b.hour && a.minute
        < b.minute
    ||| a.year == b.year && a.month == b.month && a.day == b.day && a.hour == b.hour && a.minute
        == b.minute && a.written_second() < b.written_second()
}

/// Two numbers in two digits, followed by what is alike in kind, are ordered by
/// the numbers first.
proof fn lemma_two_digits_order(n: int, m: int, sep: Seq<char>, x: Seq<char>, y: Seq<char>)
    requires
        0 <= n < 100,
        0 <= m < 100,
        n < m || (n == m && lex_less(x, y)),
    ensures
        lex_less(two_digits(n) + sep + x, two_digits(m) + sep + y),
{
    lemma_padded_width(n as nat);
    lemma_padded_width(m as nat);
    if n < m {
        lemma_padded_order(n as nat, m as nat, 2);
        lemma_less_by_field(two_digits(n), two_digits(m), sep + x, sep + y);
    } else {
        lemma_less_after_same_start(two_digits(n) + sep, x, y);
    }
    assert(two_digits(n) + sep + x =~= two_digits(n) + (sep + x));
    assert(two_digits(m) + sep + y =~= two_digits(m) + (sep + y));
}

/// The end of a run name from the second on, and so on up to the year.
spec fn from_second(t: UtcFields, rest: Seq<char>) -> Seq<char> {
    two_digits(t.written_second()) + "Z"@ + rest
}

spec fn from_minute(t: UtcFields, rest: Seq<char>) -> Seq<char> {
    two_digits(t.minute) + "-"@ + from_second(t, rest)
}

spec fn from_hour(t: UtcFields, rest: Seq<char>) -> Seq<char> {
    two_digits(t.hour) + "-"@ + from_minute(t, rest)
}

spec fn from_day(t: UtcFields, rest: Seq<char>) -> Seq<char> {
    two_digits(t.day) + "_"@ + from_hour(t, rest)
}

spec fn from_month(t: UtcFields, rest: Seq<char>) -> Seq<char> {
    two_digits(t.month) + "-"@ + from_day(t, rest)
}

spec fn from_year(t: UtcFields, rest: Seq<char>) -> Seq<char> {
    year_text(t.year) + "-"@ + from_month(t, rest)
}

/// A field and its separator can be counted to what goes before or after them.
proof fn lemma_regroup(before: Seq<char>, field: Seq<char>, sep: Seq<char>, after: Seq<char>)
    ensures
        before + field + sep + after == before + (field + sep + after),
{
    assert(before + field + sep + after =~= before + (field + sep + after));
}

/// A run name, taken apart at its first field.
proof fn lemma_run_name_parts(t: UtcFields, rest: Seq<char>)
    ensures
        run_name_text(t) + rest == "goal-"@ + from_year(t, rest),
{
    let p1 = "goal-"@ + year_text(t.year) + "-"@;
    let p2 = p1 + two_digits(t.month) + "-"@;
    let p3 = p2 + two_digits(t.day) + "_"@;
    let p4 = p3 + two_digits(t.hour) + "-"@;
    let p5 = p4 + two_digits(t.minute) + "-"@;
    lemma_regroup(p5, two_digits(t.written_second()), "Z"@, rest);
    lemma_regroup(p4, two_digits(t.minute), "-"@, from_second(t, rest));
    lemma_regroup(p3, two_digits(t.hour), "-"@, from_minute(t, rest));
    lemma_regroup(p2, two_digits(t.day), "_"@, from_hour(t, rest));
    lemma_regroup(p1, two_digits(t.month), "-"@, from_day(t, rest));
    lemma_regroup("goal-"@, year_text(t.year), "-"@, from_month(t, rest));
}

/// Of two moments of one year, the earlier one comes first from the month on.
proof fn lemma_order_within_year(
    a: UtcFields,
    b: UtcFields,
    after_a: Seq<char>,
    after_b: Seq<char>,
)
    requires
        a.valid(),
        b.valid(),
        a.year == b.year,
        is_before(a, b),
    ensures
        lex_less(from_month(a, after_a), from_month(b, after_b)),
{
    let same_day = a.month == b.month && a.day == b.day;
    if same_day && a.hour == b.hour && a.minute == b.minute {
        lemma_two_digits_order(a.written_second(), b.written_second(), "Z"@, after_a, after_b);
    }
    if same_day && a.hour == b.hour {
        lemma_two_digits_order(
            a.minute,
            b.minute,
            "-"@,
            from_second(a, after_a),
            from_second(b, after_b),
        );
    }
    if same_day {
        lemma_two_digits_order(
            a.hour,
            b.hour,
            "-"@,
            from_minute(a, after_a),
            from_minute(b, after_b),
        );
    }
    if a.month == b.month {
        lemma_two_digits_order(a.day, b.day, "_"@, from_hour(a, after_a), from_hour(b, after_b));
    }
    lemma_two_digits_order(a.month, b.month, "-"@, from_day(a, after_a), from_day(b, after_b));
}

/// The names of runs, whatever follows them, are ordered as the moments they
/// tell, for the years that take four digits.
pub proof fn law_run_names_follow_time(
    a: UtcFields,
    b: UtcFields,
    after_a: Seq<char>,
    after_b: Seq<char>,
)
    requires
        a.valid(),
        b.valid(),
        0 <= a.year <= 9999,
        0 <= b.year <= 9999,
        is_before(a, b),
    ensures
        lex_less(run_name_text(a) + after_a, run_name_text(b) + after_b),
{
    let month_a = from_month(a, after_a);
    let month_b = from_month(b, after_b);
    if a.year == b.year {
        lemma_order_within_year(a, b, after_a, after_b);
        lemma_less_after_same_start(year_text(a.year) + "-"@, month_a, month_b);
    } else {
        lemma_padded_width(a.year as nat);
        lemma_padded_width(b.year as nat);
        lemma_padded_order(a.year as nat, b.year as nat, 4);
        lemma_less_by_field(
            year_text(a.year),
            year_text(b.year),
            "-"@ + month_a,
            "-"@ + month_b,
        );
        assert(from_year(a, after_a) =~= year_text(a.year) + ("-"@ + month_a));
        assert(from_year(b, after_b) =~= year_text(b.year) + ("-"@ + month_b));
    }
    lemma_less_after_same_start("goal-"@, from_year(a, after_a), from_year(b, after_b));
    lemma_run_name_parts(a, after_a);
    lemma_run_name_parts(b, after_b);
}

/// Whether a character is a decimal digit.
pub open spec fn is_digit(c: char) -> bool {
    '0' <= c <= '9'
}

/// The name of a run has the form `goal-YYYY-MM-DD_HH-MM-SSZ`, for the years that
/// take four digits. It has no separator of paths in it.
pub proof fn law_run_name_form(t: UtcFields)
    requires
        t.valid(),
        0 <= t.year <= 9999,
    ensures
        ({
            let name = run_name_text(t);
            &&& name.len() == 25
            &&& name.take(5) == "goal-"@
            &&& name[9] == '-' && name[12] == '-' && name[15] == '_' && name[18] == '-' && name[21]
                == '-' && name[24] == 'Z'
            &&& forall|i: int|
                5 <= i < 24 && i != 9 && i != 12 && i != 15 && i != 18 && i != 21 ==> is_digit(
                    #[trigger] name[i],
                )
            &&& forall|i: int| 0 <= i < name.len() ==> #[trigger] name[i] != '/'
        }),
{
    reveal_strlit("goal-");
    reveal_strlit("-");
    reveal_strlit("_");
    reveal_strlit("Z");
    lemma_padded_width(t.year as nat);
    lemma_padded_width(t.month as nat);
    lemma_padded_width(t.day as nat);
    lemma_padded_width(t.hour as nat);
    lemma_padded_width(t.minute as nat);
    lemma_padded_width(t.written_second() as nat);
    law_zero_padded_denotes(t.year as nat, 4);
    law_zero_padded_denotes(t.month as nat, 2);
    law_zero_padded_denotes(t.day as nat, 2);
    law_zero_padded_denotes(t.hour as nat, 2);
    law_zero_padded_denotes(t.minute as nat, 2);
    law_zero_padded_denotes(t.written_second() as nat, 2);
    let name = run_name_text(t);
    let y = year_text(t.year);
    let mo = two_digits(t.month);
    let d = two_digits(t.day);
    let h = two_digits(t.hour);
    let mi = two_digits(t.minute);
    let s = two_digits(t.written_second());
    assert(name =~= seq![
        'g', 'o', 'a', 'l', '-', y[0], y[1], y[2], y[3], '-', mo[0], mo[1], '-', d[0], d[1], '_',
        h[0], h[1], '-', mi[0], mi[1], '-', s[0], s[1], 'Z',
    ]);
    assert(name.take(5) =~= "goal-"@);
}

/// A moment is one of the calendar: the month is one of twelve, and the day one of
/// its 31, 30, 29 or 28; the 29th of February is there every fourth year, of the
/// full centuries every fourth one only. The hour, minute and second are on the
/// clock, and the nanoseconds are less than two seconds.
pub proof fn law_moments_are_those_of_the_calendar(t: UtcFields)
    ensures
        t.valid() <==> {
            &&& -262143 <= t.year <= 262142
            &&& 1 <= t.month <= 12
            &&& 1 <= t.day <= 31
            &&& t.day == 31 ==> t.month != 2 && t.month != 4 && t.month != 6 && t.month != 9
                && t.month != 11
            &&& t.day == 30 ==> t.month != 2
            &&& t.day == 29 && t.month == 2 ==> t.year % 4 == 0 && (t.year % 100 == 0 ==> t.year
                % 400 == 0)
            &&& 0 <= t.hour < 24
            &&& 0 <= t.minute < 60
            &&& 0 <= t.second < 60
            &&& 0 <= t.nanosecond < 2_000_000_000
        },
{
}

/// The second as it is written is one more in a leap second, and else the second.
pub proof fn law_a_leap_second_is_written_as_one_more(t: UtcFields)
    requires
        t.valid(),
    ensures
        t.written_second() == t.second + t.nanosecond / 1_000_000_000,
{
}

/// A year is written as its number, in at least four digits; one before the year 0
/// with a minus sign in front, and one of more than four digits with a plus sign.
pub proof fn law_year_text_tells_the_year(year: int)
    ensures
        ({
            let text = year_text(year);
            &&& 0 <= year <= 9999 ==> text.len() == 4 && digits_value(text) == year && all_digits(
                text,
            )
            &&& year < 0 ==> text.len() >= 5 && text[0] == '-' && digits_value(text.skip(1))
                == -year && all_digits(text.skip(1)) && (text.len() > 5 ==> text[1] != '0')
            &&& year > 9999 ==> text.len() > 5 && text[0] == '+' && digits_value(text.skip(1))
                == year && all_digits(text.skip(1)) && text[1] != '0'
        }),
{
    if 0 <= year <= 9999 {
        lemma_padded_width(year as nat);
        law_zero_padded_denotes(year as nat, 4);
    } else if year < 0 {
        law_zero_padded_denotes((-year) as nat, 4);
        law_zero_padded_is_as_long_as_needed((-year) as nat, 4);
        assert(year_text(year).skip(1) =~= zero_padded((-year) as nat, 4));
    } else {
        law_zero_padded_denotes(year as nat, 4);
        law_zero_padded_is_as_long_as_needed(year as nat, 4);
        assert(year_text(year).skip(1) =~= zero_padded(year as nat, 4));
        if zero_padded(year as nat, 4).len() == 4 {
            lemma_four_digits(zero_padded(year as nat, 4));
        }
    }
}

/// Four digits denote less than ten thousand.
proof fn lemma_four_digits(s: Seq<char>)
    requires
        s.len() == 4,
        all_digits(s),
    ensures
        digits_value(s) < 10000,
{
    reveal_with_fuel(digits_value, 5);
    assert('0' <= s[0] <= '9' && '0' <= s[1] <= '9' && '0' <= s[2] <= '9' && '0' <= s[3] <= '9');
    assert(s.drop_last().drop_last().drop_last().drop_last().len() == 0);
}

/// The part of a second after the point is all of it: nothing where there is
/// none, else a point and three, six or nine digits, no more than it takes.
pub proof fn law_fraction_text_tells_the_fraction(nanosecond: int)
    requires
        0 <= nanosecond,
    ensures
        ({
            let text = fraction_text(nanosecond);
            let nano = nanosecond % 1_000_000_000;
            let digits = text.skip(1);
            &&& nano == 0 <==> text.len() == 0
            &&& text.len() > 0 ==> text[0] == '.' && all_digits(digits) && (digits.len() == 3
                || digits.len() == 6 || digits.len() == 9)
            &&& text.len() == 4 ==> digits_value(digits) * 1_000_000 == nano
            &&& text.len() == 7 ==> digits_value(digits) * 1_000 == nano && nano % 1_000_000 != 0
            &&& text.len() == 10 ==> digits_value(digits) == nano && nano % 1_000 != 0
        }),
{
    let nano = nanosecond % 1_000_000_000;
    let text = fraction_text(nanosecond);
    if nano == 0 {
    } else if nano % 1_000_000 == 0 {
        let n = (nano / 1_000_000) as nat;
        lemma_fits(n, 3);
        law_zero_padded_denotes(n, 3);
        assert(text.skip(1) =~= zero_padded(n, 3));
    } else if nano % 1_000 == 0 {
        let n = (nano / 1_000) as nat;
        lemma_fits(n, 6);
        law_zero_padded_denotes(n, 6);
        assert(text.skip(1) =~= zero_padded(n, 6));
    } else {
        lemma_fits(nano as nat, 9);
        law_zero_padded_denotes(nano as nat, 9);
        assert(text.skip(1) =~= zero_padded(nano as nat, 9));
    }
}

/// Numbers of at most three, six or nine digits fill exactly that width.
proof fn lemma_fits(n: nat, width: nat)
    ensures
        width == 3 && n < 1_000 ==> zero_padded(n, width).len() == width,
        width == 6 && n < 1_000_000 ==> zero_padded(n, width).len() == width,
        width == 9 && n < 1_000_000_000 ==> zero_padded(n, width).len() == width,
{
    reveal_with_fuel(decimal, 9);
}

/// The name of a run tells its moment, to the second: each number stands in its
/// place, for the years that take four digits.
pub proof fn law_run_name_tells_the_moment(t: UtcFields)
    requires
        t.valid(),
        0 <= t.year <= 9999,
    ensures
        ({
            let name = run_name_text(t);
            &&& name.len() == 25
            &&& digits_value(name.subrange(5, 9)) == t.year
            &&& digits_value(name.subrange(10, 12)) == t.month
            &&& digits_value(name.subrange(13, 15)) == t.day
            &&& digits_value(name.subrange(16, 18)) == t.hour
            &&& digits_value(name.subrange(19, 21)) == t.minute
            &&& digits_value(name.subrange(22, 24)) == t.second + t.nanosecond / 1_000_000_000
        }),
{
    reveal_strlit("goal-");
    reveal_strlit("-");
    reveal_strlit("_");
    reveal_strlit("Z");
    lemma_moment_fields(t);
    let name = run_name_text(t);
    assert(name.subrange(5, 9) =~= year_text(t.year));
    assert(name.subrange(10, 12) =~= two_digits(t.month));
    assert(name.subrange(13, 15) =~= two_digits(t.day));
    assert(name.subrange(16, 18) =~= two_digits(t.hour));
    assert(name.subrange(19, 21) =~= two_digits(t.minute));
    assert(name.subrange(22, 24) =~= two_digits(t.written_second()));
}

/// The numbers of a moment fill their fields and are told by them.
proof fn lemma_moment_fields(t: UtcFields)
    requires
        t.valid(),
        0 <= t.year <= 9999,
    ensures
        year_text(t.year).len() == 4 && digits_value(year_text(t.year)) == t.year,
        two_digits(t.month).len() == 2 && digits_value(two_digits(t.month)) == t.month,
        two_digits(t.day).len() == 2 && digits_value(two_digits(t.day)) == t.day,
        two_digits(t.hour).len() == 2 && digits_value(two_digits(t.hour)) == t.hour,
        two_digits(t.minute).len() == 2 && digits_value(two_digits(t.minute)) == t.minute,
        two_digits(t.written_second()).len() == 2 && digits_value(two_digits(t.written_second()))
            == t.second + t.nanosecond / 1_000_000_000,
{
    lemma_padded_width(t.year as nat);
    lemma_padded_width(t.month as nat);
    lemma_padded_width(t.day as nat);
    lemma_padded_width(t.hour as nat);
    lemma_padded_width(t.minute as nat);
    lemma_padded_width(t.written_second() as nat);
    law_zero_padded_denotes(t.year as nat, 4);
    law_zero_padded_denotes(t.month as nat, 2);
    law_zero_padded_denotes(t.day as nat, 2);
    law_zero_padded_denotes(t.hour as nat, 2);
    law_zero_padded_denotes(t.minute as nat, 2);
    law_zero_padded_denotes(t.written_second() as nat, 2);
}

/// A moment in the form of RFC 3339 tells all of it: each number stands in its
/// place, with the separators of that form between them, then the fraction of the
/// second, then the offset of UTC, for the years that take four digits.
pub proof fn law_rfc3339_tells_the_moment(t: UtcFields)
    requires
        t.valid(),
        0 <= t.year <= 9999,
    ensures
        ({
            let text = rfc3339_text(t);
            let fraction = fraction_text(t.nanosecond);
            &&& text.len() == 25 + fraction.len()
            &&& digits_value(text.subrange(0, 4)) == t.year
            &&& digits_value(text.subrange(5, 7)) == t.month
            &&& digits_value(text.subrange(8, 10)) == t.day
            &&& digits_value(text.subrange(11, 13)) == t.hour
            &&& digits_value(text.subrange(14, 16)) == t.minute
            &&& digits_value(text.subrange(17, 19)) == t.second + t.nanosecond / 1_000_000_000
            &&& text[4] == '-' && text[7] == '-' && text[10] == 'T' && text[13] == ':' && text[16]
                == ':'
            &&& text.subrange(19, 19int + fraction.len()) == fraction
            &&& text.skip(19int + fraction.len()) == seq!['+', '0', '0', ':', '0', '0']
        }),
{
    reveal_strlit("-");
    reveal_strlit("T");
    reveal_strlit(":");
    reveal_strlit("+00:00");
    lemma_moment_fields(t);
    let text = rfc3339_text(t);
    let fraction = fraction_text(t.nanosecond);
    assert(text.subrange(0, 4) =~= year_text(t.year));
    assert(text.subrange(5, 7) =~= two_digits(t.month));
    assert(text.subrange(8, 10) =~= two_digits(t.day));
    assert(text.subrange(11, 13) =~= two_digits(t.hour));
    assert(text.subrange(14, 16) =~= two_digits(t.minute));
    assert(text.subrange(17, 19) =~= two_digits(t.written_second()));
    assert(text.subrange(19, 19int + fraction.len()) =~= fraction);
    assert(text.skip(19int + fraction.len()) =~= seq!['+', '0', '0', ':', '0', '0']);
}

/// What follows the year in the form of RFC 3339.
spec fn after_year(t: UtcFields) -> Seq<char> {
    "-"@ + two_digits(t.month) + "-"@ + two_digits(t.day) + "T"@ + two_digits(t.hour) + ":"@
        + two_digits(t.minute) + ":"@ + two_digits(t.written_second()) + fraction_text(t.nanosecond)
        + "+00:00"@
}

/// A moment in the form of RFC 3339, taken apart behind the year.
proof fn lemma_rfc3339_parts(t: UtcFields)
    ensures
        rfc3339_text(t) == year_text(t.year) + after_year(t),
{
    assert(rfc3339_text(t) =~= year_text(t.year) + after_year(t));
}

/// In another year, a moment is written with that year in place of its own, and
/// nothing else changes.
pub proof fn law_years_change_the_year_only(t: UtcFields, year: int)
    ensures
        ({
            let u = UtcFields { year, ..t };
            let own = year_text(t.year).len();
            let other = year_text(year).len();
            &&& run_name_text(t).take(5int + own) == "goal-"@ + year_text(t.year)
            &&& run_name_text(u).take(5int + other) == "goal-"@ + year_text(year)
            &&& run_name_text(t).skip(5int + own) == run_name_text(u).skip(5int + other)
            &&& rfc3339_text(t).take(own as int) == year_text(t.year)
            &&& rfc3339_text(u).take(other as int) == year_text(year)
            &&& rfc3339_text(t).skip(own as int) == rfc3339_text(u).skip(other as int)
        }),
{
    reveal_strlit("goal-");
    let u = UtcFields { year, ..t };
    lemma_run_name_year(t);
    lemma_run_name_year(u);
    lemma_rfc3339_parts(t);
    lemma_rfc3339_parts(u);
    assert(from_month(t, seq![]) == from_month(u, seq![]));
    assert(after_year(t) == after_year(u));
    assert(rfc3339_text(t).take(year_text(t.year).len() as int) =~= year_text(t.year));
    assert(rfc3339_text(u).take(year_text(year).len() as int) =~= year_text(year));
    assert(rfc3339_text(t).skip(year_text(t.year).len() as int) =~= after_year(t));
    assert(rfc3339_text(u).skip(year_text(year).len() as int) =~= after_year(u));
}

/// The name of a run, taken apart behind the year.
proof fn lemma_run_name_year(t: UtcFields)
    ensures
        run_name_text(t).take(5int + year_text(t.year).len()) == "goal-"@ + year_text(t.year),
        run_name_text(t).skip(5int + year_text(t.year).len()) == "-"@ + from_month(t, seq![]),
{
    reveal_strlit("goal-");
    lemma_run_name_parts(t, seq![]);
    let name = run_name_text(t);
    assert(name + seq![] =~= name);
    assert(name =~= ("goal-"@ + year_text(t.year)) + ("-"@ + from_month(t, seq![])));
    assert(name.take(5int + year_text(t.year).len()) =~= "goal-"@ + year_text(t.year));
    assert(name.skip(5int + year_text(t.year).len()) =~= "-"@ + from_month(t, seq![]));
}

} // verus!
