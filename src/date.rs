//! Calendar dates and the `DD-MM-YYYY.md` name of the daily note.
use vstd::prelude::*;
use vstd::string::StringExecFns;

verus! {

/// The earliest year that a calendar date may have.
pub const MIN_YEAR: i32 = -262143;

/// The latest year that a calendar date may have.
pub const MAX_YEAR: i32 = 262142;

/// A day of the proleptic Gregorian calendar.
#[derive(Clone, Copy, Debug, PartialEq, Eq, Structural)]
pub struct CalendarDate {
    pub year: i32,
    pub month: u32,
    pub day: u32,
}

pub open spec fn is_leap_year(y: int) -> bool {
    y % 4 == 0 && (y % 100 != 0 || y % 400 == 0)
}

pub open spec fn days_in_month(y: int, m: int) -> int {
    if m == 2 {
        if is_leap_year(y) {
            29
        } else {
            28
        }
    } else if m == 4 || m == 6 || m == 9 || m == 11 {
        30
    } else {
        31
    }
}

impl CalendarDate {
    /// The date exists in the calendar and its year lies in the supported range.
    pub open spec fn wf(&self) -> bool {
        &&& MIN_YEAR <= self.year <= MAX_YEAR
        &&& 1 <= self.month <= 12
        &&& 1 <= self.day <= days_in_month(self.year as int, self.month as int)
    }

    /// Builds a date from its parts, or `None` where no such day exists.
    pub fn new(year: i32, month: u32, day: u32) -> (r: Option<CalendarDate>)
        ensures
            r matches Some(d) ==> d.year == year && d.month == month && d.day == day,
            r is Some <==> (CalendarDate { year, month, day }).wf(),
    {
        if year < MIN_YEAR || year > MAX_YEAR || month < 1 || month > 12 || day < 1 {
            return None;
        }
        let leap = year % 4 == 0 && (year % 100 != 0 || year % 400 == 0);
        let last: u32 = if month == 2 {
            if leap {
                29
            } else {
                28
            }
        } else if month == 4 || month == 6 || month == 9 || month == 11 {
            30
        } else {
            31
        };
        assert(leap == is_leap_year(year as int));
        if day > last {
            None
        } else {
            Some(CalendarDate { year, month, day })
        }
    }
}

/// The decimal digit for `d < 10`.
pub open spec fn digit_char(d: nat) -> char {
    seq!['0', '1', '2', '3', '4', '5', '6', '7', '8', '9'][d as int]
}

/// The decimal numeral of `n`, without leading zeros.
pub open spec fn decimal(n: nat) -> Seq<char>
    decreases n,
{
    if n < 10 {
        seq![digit_char(n)]
    } else {
        decimal(n / 10).push(digit_char(n % 10))
    }
}

/// `s` with zeros put in front of it until it is `width` long.
pub open spec fn zero_padded(s: Seq<char>, width: nat) -> Seq<char> {
    if s.len() < width {
        Seq::new((width - s.len()) as nat, |i: int| '0') + s
    } else {
        s
    }
}

/// A year as four digits at least, with a sign where it is outside 0..=9999.
pub open spec fn year_text(y: int) -> Seq<char> {
    if 0 <= y <= 9999 {
        zero_padded(decimal(y as nat), 4)
    } else if y < 0 {
        seq!['-'] + zero_padded(decimal((-y) as nat), 4)
    } else {
        seq!['+'] + zero_padded(decimal(y as nat), 4)
    }
}

/// `DD-MM-YYYY` for a date.
pub open spec fn day_month_year(d: CalendarDate) -> Seq<char> {
    zero_padded(decimal(d.day as nat), 2) + seq!['-'] + zero_padded(decimal(d.month as nat), 2)
        + seq!['-'] + year_text(d.year as int)
}

/// The file name of the daily note for a date: `DD-MM-YYYY.md`.
pub open spec fn daily_note_name_of(d: CalendarDate) -> Seq<char> {
    day_month_year(d) + seq!['.', 'm', 'd']
}

/// Relies on chrono's `NaiveDate::from_ymd` (which panics only on a date that
/// does not exist or is out of its range) and on the `%d-%m-%Y` format: day
/// and month as two zero-padded digits, the year zero-padded to four digits,
/// with a sign outside 0..=9999.
#[verifier::external_body]
#[allow(deprecated)]
fn format_day_month_year(year: i32, month: u32, day: u32) -> (r: String)
    requires
        (CalendarDate { year, month, day }).wf(),
    ensures
        r@ == day_month_year(CalendarDate { year, month, day }),
{
    chrono::NaiveDate::from_ymd(year, month, day).format("%d-%m-%Y").to_string()
}

/// The file name of the daily note for `date`.
pub fn daily_note_name(date: &CalendarDate) -> (r: String)
    requires
        date.wf(),
    ensures
        r@ == daily_note_name_of(*date),
{
    let stem = format_day_month_year(date.year, date.month, date.day);
    proof {
        reveal_strlit(".md");
    }
    stem.concat(".md")
}

} // verus!
