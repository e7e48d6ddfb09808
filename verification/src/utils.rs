//! The data model: the calendar date carried by a personal number, the fully
//! parsed number itself, and the closed set of reasons an input is rejected.
//! Also the calendar rules: days per month, leap years, and resolution of a
//! two-digit year against the current date.

use chrono::Datelike;
use vstd::prelude::*;

verus! {

/// The calendar date a personal number refers to.
///
/// `year` is the full four-digit year once resolution has run; it carries no
/// validity guarantee of its own (validation is a separate step).
#[derive(Debug, Clone, Copy, PartialEq, Eq, Structural)]
pub struct Date {
    pub day: u32,
    pub month: u32,
    pub year: i32,
}

/// A fully parsed personal number: its ten digits, whether the input used
/// the `+` separator that marks a bearer older than 100 years, and the
/// calendar date derived from the digits.
#[derive(Debug, Clone, Copy, PartialEq, Eq)]
pub struct Pin {
    pub nums: [u8; 10],
    pub plus: bool,
    pub date: Date,
}

/// Why an input was rejected, in the order the checks run: format first, then
/// the calendar date, then the checksum.
#[derive(Debug, Clone, Copy, PartialEq, Eq, Structural)]
pub enum Fault {
    /// Fewer than 10 characters.
    TooShort,
    /// More than 13 characters.
    TooLong,
    /// The character at the separator position is not accepted there: only
    /// `-` or `+` in the short form, and only `-` when the century is given
    /// explicitly (a `+` would ask for a second 100-year offset).
    InvalidSeparator,
    /// A character that should have been a decimal digit is not one.
    MalformedDigits,
    /// The month is 0 (`over` false) or greater than 12 (`over` true).
    InvalidMonth { over: bool },
    /// The day is 0.
    InvalidDay,
    /// The day exceeds the month's maximum by more than the temporary-number
    /// allowance of 60, or falls between the maximum and 61 where a temporary
    /// day cannot be told apart from an ordinary out-of-range one.
    DayOutOfRange,
    /// The Luhn sum over the ten digits is not a multiple of 10.
    ChecksumFailed,
}

/// The first and last year chrono can represent (its `MIN_YEAR` and
/// `MAX_YEAR`), so the year read from the system clock lies between them.
pub const MIN_CLOCK_YEAR: i32 = -262143;
pub const MAX_CLOCK_YEAR: i32 = 262142;

/// What the library assumes of a current-date reading: the fields form a
/// calendar date within chrono's representable range.
pub open spec fn now_ok(now: Date) -> bool {
    &&& 1 <= now.month <= 12
    &&& 1 <= now.day <= 31
    &&& MIN_CLOCK_YEAR <= now.year <= MAX_CLOCK_YEAR
}

/// The Gregorian leap-year rule: every fourth year, except every hundredth,
/// except every four-hundredth.
pub open spec fn is_leap_year(year: int) -> bool {
    if year % 100 == 0 {
        year % 400 == 0
    } else {
        year % 4 == 0
    }
}

/// The number of days in a month: 30 for April, June, September and November,
/// 28 or 29 for February depending on the leap-year rule, 31 otherwise.
pub open spec fn spec_max_day(month: u32, year: i32) -> u32 {
    if month == 4 || month == 6 || month == 9 || month == 11 {
        30
    } else if month != 2 {
        31
    } else if is_leap_year(year as int) {
        29
    } else {
        28
    }
}

/// Calculate the maximum possible day of a month.
///
/// The months April, June, September and November have 30 days; of the rest
/// only February has fewer than 31. February has 29 days in leap years:
/// years divisible by 4, except those divisible by 100 but not by 400.
pub fn max_day(month: u32, year: i32) -> (days: u32)
    ensures
        days == spec_max_day(month, year),
        28 <= days <= 31,
{
    if month == 4 || month == 6 || month == 9 || month == 11 {
        return 30;
    }
    if month != 2 {
        return 31;
    }
    let rem100 = year.checked_rem_euclid(100).unwrap();
    if rem100 == 0 {
        let rem400 = year.checked_rem_euclid(400).unwrap();
        if rem400 == 0 {
            return 29;
        } else {
            return 28;
        }
    }
    let rem4 = year.checked_rem_euclid(4).unwrap();
    if rem4 == 0 {
        return 29;
    }
    28
}

/// A digit sequence extracted from an input: exactly ten values, each a
/// decimal digit.
pub open spec fn digits_ok(digits: Seq<u8>) -> bool {
    &&& digits.len() == 10
    &&& forall|i: int| 0 <= i < 10 ==> digits[i] <= 9
}

/// An explicitly supplied century, where there is one, is two digits.
pub open spec fn century_ok(century: Option<i32>) -> bool {
    match century {
        Some(c) => 0 <= c <= 99,
        None => true,
    }
}

/// The two year digits of a digit sequence, as one number.
pub open spec fn spec_decade(digits: Seq<u8>) -> int {
    digits[0] * 10 + digits[1]
}

/// The two month digits of a digit sequence, as one number.
pub open spec fn spec_month(digits: Seq<u8>) -> int {
    digits[2] * 10 + digits[3]
}

/// The two day digits of a digit sequence, as one number.
pub open spec fn spec_day(digits: Seq<u8>) -> int {
    digits[4] * 10 + digits[5]
}

/// The century guess for a two-digit year, read against the current date:
/// the current century, unless the two-digit year written as a birth date
/// would lie in the future, in which case the previous century.
pub open spec fn spec_resolve_year(syear: int, month: int, day: int, now: Date) -> int {
    let century = now.year as int / 100;
    let decade = now.year as int % 100;
    let resolved = if syear > decade {
        century - 1
    } else if syear == decade && (month > now.month || (month == now.month && day > now.day)) {
        century - 1
    } else {
        century
    };
    syear + resolved * 100
}

/// The full year of a digit sequence: the explicit century where one was
/// given (the offset flag is ignored then), otherwise the resolved century,
/// moved back 100 years when the offset flag is set.
pub open spec fn spec_year_of(digits: Seq<u8>, plus: bool, century: Option<i32>, now: Date) -> int {
    match century {
        Some(c) => c * 100 + spec_decade(digits),
        None => spec_resolve_year(spec_decade(digits), spec_month(digits), spec_day(digits), now)
            - (if plus { 100int } else { 0int }),
    }
}

/// The calendar date a digit sequence denotes, given the resolution inputs.
pub open spec fn spec_date_of(digits: Seq<u8>, plus: bool, century: Option<i32>, now: Date) -> Date {
    Date {
        day: spec_day(digits) as u32,
        month: spec_month(digits) as u32,
        year: spec_year_of(digits, plus, century, now) as i32,
    }
}

/// Use the current date to calculate a reasonable guess for the full year a
/// two-digit year refers to.
///
/// If the two digits exceed the current year's last two digits, or they equal
/// them but the month and day lie after the current month and day, the date
/// would be in the future, so the previous century is assumed; otherwise the
/// current one.
pub fn get_year(syear: i32, month: u32, day: u32, now: Date) -> (year: i32)
    requires
        0 <= syear <= 99,
        month <= 99,
        day <= 99,
        now_ok(now),
    ensures
        year == spec_resolve_year(syear as int, month as int, day as int, now),
{
    let mut century: i32 = now.year.checked_div_euclid(100).unwrap();
    let decade: i32 = now.year.checked_rem_euclid(100).unwrap();

    if syear > decade {
        century -= 1;
    }

    if syear == decade {
        if month > now.month {
            century -= 1;
        }
        if month == now.month {
            if day > now.day {
                century -= 1;
            }
        }
    }

    syear + century * 100
}

/// Calculate all date information for a digit sequence, against the given
/// current date.
///
/// If a century is given the offset flag is ignored: the century already
/// fixes the year, and moving it another 100 years back would be meaningless.
pub fn get_date_at(nums: [u8; 10], plus: bool, centry: Option<i32>, now: Date) -> (date: Date)
    requires
        digits_ok(nums@),
        century_ok(centry),
        now_ok(now),
    ensures
        date == spec_date_of(nums@, plus, centry, now),
{
    let decade: i32 = (nums[0] * 10 + nums[1]) as i32;
    let month: u32 = (nums[2] * 10 + nums[3]) as u32;
    let day: u32 = (nums[4] * 10 + nums[5]) as u32;

    let year: i32 = match centry {
        Some(c) => c * 100 + decade,
        None => {
            let resolved = get_year(decade, month, day, now);
            if plus {
                resolved - 100
            } else {
                resolved
            }
        },
    };

    Date { day, month, year }
}

/// Calculate all date information for a digit sequence, reading the current
/// date from the system clock.
///
/// The month and day fields come from the digits alone. So does the year when
/// a century is supplied; otherwise it depends on the date of the call, and
/// all that is promised is that some current-date reading produced it.
pub fn get_date(nums: [u8; 10], plus: bool, centry: Option<i32>) -> (date: Date)
    requires
        digits_ok(nums@),
        century_ok(centry),
    ensures
        exists|now: Date| now_ok(now) && date == spec_date_of(nums@, plus, centry, now),
        date.month == spec_month(nums@),
        date.day == spec_day(nums@),
        centry matches Some(c) ==> date.year == c * 100 + spec_decade(nums@),
{
    let now = today();
    let date = get_date_at(nums, plus, centry, now);
    proof {
        assert(now_ok(now) && date == spec_date_of(nums@, plus, centry, now));
    }
    date
}

/// Reads the current calendar date.
///
/// Relies on std's `SystemTime::now` for the seconds since the Unix epoch,
/// and on chrono's `DateTime::from_timestamp` with the `Datelike` accessors
/// `year`, `month` and `day` to turn them into a date: chrono documents that
/// `month` ranges over 1..=12, `day` over 1..=31, and that every
/// representable year lies between its `MIN_YEAR` and `MAX_YEAR`. A clock
/// before the epoch or beyond chrono's range falls back to the epoch date
/// itself, so the read returns an in-range date on every clock state and
/// cannot panic.
#[verifier::external_body]
pub(crate) fn today() -> (now: Date)
    ensures
        now_ok(now),
{
    let secs: i64 = match std::time::SystemTime::now().duration_since(std::time::UNIX_EPOCH) {
        Ok(since) => i64::try_from(since.as_secs()).unwrap_or(i64::MAX),
        Err(_) => 0,
    };
    match chrono::DateTime::<chrono::Utc>::from_timestamp(secs, 0) {
        Some(t) => Date { day: t.day(), month: t.month(), year: t.year() },
        None => Date { day: 1, month: 1, year: 1970 },
    }
}

/// An explicitly supplied century and a two-digit year resolved with the
/// offset flag reach the identical calendar date whenever they agree on the
/// full year.
pub proof fn lemma_century_resolution_agreement(
    digits: Seq<u8>,
    plus: bool,
    century: i32,
    now: Date,
)
    requires
        digits_ok(digits),
        0 <= century <= 99,
        now_ok(now),
        spec_year_of(digits, plus, None, now) == century * 100 + spec_decade(digits),
    ensures
        spec_date_of(digits, plus, None, now) == spec_date_of(digits, false, Some(century), now),
{
}

} // verus!
