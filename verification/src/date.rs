//! Calendar dates, and the date tag that a snapshot name ends with.

use vstd::prelude::*;

verus! {

/// The first year that a date can lie in.
pub const MIN_YEAR: i32 = -262_143;

/// The last year that a date can lie in.
pub const MAX_YEAR: i32 = 262_142;

/// Whether `year` has a 29th of February in the proleptic Gregorian calendar.
pub open spec fn is_leap_year(year: int) -> bool {
    year % 4 == 0 && (year % 100 != 0 || year % 400 == 0)
}

/// The number of days of a month, `1 <= month <= 12`.
pub open spec fn days_in_month(year: int, month: int) -> int {
    if month == 2 {
        if is_leap_year(year) {
            29
        } else {
            28
        }
    } else if month == 4 || month == 6 || month == 9 || month == 11 {
        30
    } else {
        31
    }
}

/// Whether there is a day with this year, month and day of the month.
pub open spec fn is_calendar_date(year: int, month: int, day: int) -> bool {
    &&& MIN_YEAR <= year <= MAX_YEAR
    &&& 1 <= month <= 12
    &&& 1 <= day <= days_in_month(year, month)
}

/// The character for the digit `d`, `0 <= d <= 9`.
pub open spec fn digit(d: int) -> char {
    seq!['0', '1', '2', '3', '4', '5', '6', '7', '8', '9'][d]
}

/// The decimal numeral of `n`, with zeros in front of it where it has fewer
/// than `width` digits.
pub open spec fn numeral(n: nat, width: nat) -> Seq<char>
    decreases n, width,
{
    if n < 10 && width <= 1 {
        seq![digit(n as int)]
    } else {
        let rest: nat = if width > 0 {
            (width - 1) as nat
        } else {
            0
        };
        numeral(n / 10, rest).push(digit((n % 10) as int))
    }
}

/// How a year is written: with four digits from 0 to 9999; outside of that
/// with a sign and at least four digits.
pub open spec fn year_text(year: int) -> Seq<char> {
    if 0 <= year <= 9999 {
        numeral(year as nat, 4)
    } else if year > 9999 {
        seq!['+'] + numeral(year as nat, 4)
    } else {
        seq!['-'] + numeral((-year) as nat, 4)
    }
}

/// The date tag `YYYY-MM-DD`: the year, the month with two digits and the
/// day with two digits, with a hyphen between them.
pub open spec fn date_tag(year: int, month: int, day: int) -> Seq<char> {
    year_text(year) + seq!['-'] + numeral(month as nat, 2) + seq!['-'] + numeral(day as nat, 2)
}

/// From the year 0 to the year 9999 a date tag has ten characters: four
/// digits, a hyphen, two digits, a hyphen and two digits.
pub proof fn lemma_date_tag_shape(year: int, month: int, day: int)
    requires
        is_calendar_date(year, month, day),
        0 <= year <= 9999,
    ensures
        date_tag(year, month, day) == seq![
            digit(year / 1000),
            digit(year / 100 % 10),
            digit(year / 10 % 10),
            digit(year % 10),
            '-',
            digit(month / 10),
            digit(month % 10),
            '-',
            digit(day / 10),
            digit(day % 10),
        ],
{
    reveal_with_fuel(numeral, 5);
    let y = numeral(year as nat, 4);
    let m = numeral(month as nat, 2);
    let d = numeral(day as nat, 2);
    assert(y =~= seq![
        digit(year / 1000),
        digit(year / 100 % 10),
        digit(year / 10 % 10),
        digit(year % 10),
    ]);
    assert(m =~= seq![digit(month / 10), digit(month % 10)]);
    assert(d =~= seq![digit(day / 10), digit(day % 10)]);
    assert(date_tag(year, month, day) =~= seq![
        digit(year / 1000),
        digit(year / 100 % 10),
        digit(year / 10 % 10),
        digit(year % 10),
        '-',
        digit(month / 10),
        digit(month % 10),
        '-',
        digit(day / 10),
        digit(day % 10),
    ]);
}

/// Different digits are written with different characters.
pub proof fn lemma_digit_is_injective(a: int, b: int)
    requires
        0 <= a <= 9,
        0 <= b <= 9,
        digit(a) == digit(b),
    ensures
        a == b,
{
}

/// From the year 0 to the year 9999 the date tag tells the days apart: two
/// days with the same tag are the same day.
pub proof fn lemma_date_tag_is_injective(
    year: int,
    month: int,
    day: int,
    other_year: int,
    other_month: int,
    other_day: int,
)
    requires
        is_calendar_date(year, month, day),
        is_calendar_date(other_year, other_month, other_day),
        0 <= year <= 9999,
        0 <= other_year <= 9999,
        date_tag(year, month, day) == date_tag(other_year, other_month, other_day),
    ensures
        year == other_year,
        month == other_month,
        day == other_day,
{
    lemma_date_tag_shape(year, month, day);
    lemma_date_tag_shape(other_year, other_month, other_day);
    let a = date_tag(year, month, day);
    let b = date_tag(other_year, other_month, other_day);
    assert(a[0] == b[0] && a[1] == b[1] && a[2] == b[2] && a[3] == b[3]);
    assert(a[5] == b[5] && a[6] == b[6] && a[8] == b[8] && a[9] == b[9]);
    lemma_digit_is_injective(year / 1000, other_year / 1000);
    lemma_digit_is_injective(year / 100 % 10, other_year / 100 % 10);
    lemma_digit_is_injective(year / 10 % 10, other_year / 10 % 10);
    lemma_digit_is_injective(year % 10, other_year % 10);
    lemma_digit_is_injective(month / 10, other_month / 10);
    lemma_digit_is_injective(month % 10, other_month % 10);
    lemma_digit_is_injective(day / 10, other_day / 10);
    lemma_digit_is_injective(day % 10, other_day % 10);
}

/// `chrono::Local::now`, of which the date is taken (`DateTime::date_naive`)
/// and read through `Datelike`. Trusted: whatever the clock and the time zone
/// say, what comes back is a day of the calendar.
#[verifier::external_body]
fn local_today() -> (ymd: (i32, u32, u32))
    ensures
        is_calendar_date(ymd.0 as int, ymd.1 as int, ymd.2 as int),
{
    let today = chrono::Local::now().date_naive();
    (chrono::Datelike::year(&today), chrono::Datelike::month(&today), chrono::Datelike::day(&today))
}

/// `chrono::NaiveDate::from_ymd_opt`, then `NaiveDate::format` with the
/// pattern `%Y-%m-%d`. Trusted: a date is made exactly of the days of the
/// proleptic Gregorian calendar from `MIN_YEAR` to `MAX_YEAR`, and it is
/// written as [`date_tag`] says.
#[verifier::external_body]
fn format_ymd(year: i32, month: u32, day: u32) -> (tag: Option<String>)
    ensures
        tag is Some <==> is_calendar_date(year as int, month as int, day as int),
        tag matches Some(t) ==> t@ == date_tag(year as int, month as int, day as int),
{
    let date = chrono::NaiveDate::from_ymd_opt(year, month, day)?;
    Some(date.format("%Y-%m-%d").to_string())
}

/// Whether `year` is a leap year.
pub fn leap_year(year: i32) -> (leap: bool)
    ensures
        leap == is_leap_year(year as int),
{
    year % 4 == 0 && (year % 100 != 0 || year % 400 == 0)
}

/// The number of days of a month.
pub fn month_length(year: i32, month: u32) -> (days: u32)
    requires
        1 <= month <= 12,
    ensures
        days == days_in_month(year as int, month as int),
{
    if month == 2 {
        if leap_year(year) {
            29
        } else {
            28
        }
    } else if month == 4 || month == 6 || month == 9 || month == 11 {
        30
    } else {
        31
    }
}

/// What a [`CalendarDate`] stands for.
pub struct Day {
    pub year: int,
    pub month: int,
    pub day: int,
}

/// A day of the proleptic Gregorian calendar. Every value is a day that
/// exists.
#[derive(Debug, Clone, Copy, PartialEq, Eq)]
pub struct CalendarDate {
    year: i32,
    month: u32,
    day: u32,
}

impl View for CalendarDate {
    type V = Day;

    closed spec fn view(&self) -> Day {
        Day { year: self.year as int, month: self.month as int, day: self.day as int }
    }
}

impl CalendarDate {
    /// Whether this is a day that exists. It holds of every value that a
    /// program can have.
    #[verifier::type_invariant]
    pub open spec fn is_valid(&self) -> bool {
        is_calendar_date(self@.year, self@.month, self@.day)
    }

    /// The date with this year, month and day of the month, if there is one.
    pub fn new(year: i32, month: u32, day: u32) -> (date: Option<CalendarDate>)
        ensures
            date is Some <==> is_calendar_date(year as int, month as int, day as int),
            date matches Some(d) ==> d@ == (Day {
                year: year as int,
                month: month as int,
                day: day as int,
            }),
    {
        if MIN_YEAR <= year && year <= MAX_YEAR && 1 <= month && month <= 12 && 1 <= day && day
            <= month_length(year, month) {
            Some(CalendarDate { year, month, day })
        } else {
            None
        }
    }

    /// The day that it is now, by the local time of this machine.
    pub fn today() -> (date: CalendarDate)
        ensures
            date.is_valid(),
    {
        let (year, month, day) = local_today();
        CalendarDate { year, month, day }
    }

    /// The year.
    pub fn year(&self) -> (year: i32)
        ensures
            year == self@.year,
            MIN_YEAR <= year <= MAX_YEAR,
    {
        proof {
            use_type_invariant(self);
        }
        self.year
    }

    /// The month, from 1 to 12.
    pub fn month(&self) -> (month: u32)
        ensures
            month == self@.month,
            1 <= month <= 12,
    {
        proof {
            use_type_invariant(self);
        }
        self.month
    }

    /// The day of the month, from 1.
    pub fn day(&self) -> (day: u32)
        ensures
            day == self@.day,
            1 <= day <= days_in_month(self@.year, self@.month),
    {
        proof {
            use_type_invariant(self);
        }
        self.day
    }

    /// The date tag of this day, `YYYY-MM-DD`.
    pub fn tag(&self) -> (tag: String)
        ensures
            tag@ == date_tag(self@.year, self@.month, self@.day),
    {
        proof {
            use_type_invariant(self);
        }
        format_ymd(self.year, self.month, self.day).unwrap()
    }
}

} // verus!
