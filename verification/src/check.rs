//! Validation of a parsed personal number: the month range, the day range
//! with the leap-year rule and the temporary-number allowance, and the Luhn
//! checksum over the ten digits.

use crate::utils::{digits_ok, max_day, spec_date_of, spec_max_day, Date, Fault, Pin};
use vstd::prelude::*;

verus! {

/// Lifts the outcome of one check: no fault means success.
pub open spec fn fault_to_result(fault: Option<Fault>) -> Result<(), Fault> {
    match fault {
        Some(f) => Err(f),
        None => Ok(()),
    }
}

/// The fault a month value carries, if any: a month must be 1 to 12.
pub open spec fn spec_month_fault(month: u32) -> Option<Fault> {
    if month == 0 {
        Some(Fault::InvalidMonth { over: false })
    } else if month > 12 {
        Some(Fault::InvalidMonth { over: true })
    } else {
        None
    }
}

/// The fault a day value carries, if any. Beyond the month's maximum there is
/// a band reserved for temporary numbers, whose day field is offset by 60:
/// days from 61 up to the maximum plus 60 are accepted, while days between
/// the maximum and 61 are not, since they could not be told apart from an
/// ordinary out-of-range day.
pub open spec fn spec_day_fault(date: Date) -> Option<Fault> {
    let max = spec_max_day(date.month, date.year);
    if date.day > max {
        if date.day > max + 60 {
            Some(Fault::DayOutOfRange)
        } else if date.day < 61 {
            Some(Fault::DayOutOfRange)
        } else {
            None
        }
    } else if date.day == 0 {
        Some(Fault::InvalidDay)
    } else {
        None
    }
}

/// The fault a calendar date carries, if any: the month check runs first.
pub open spec fn spec_date_fault(date: Date) -> Option<Fault> {
    if spec_month_fault(date.month) is Some {
        spec_month_fault(date.month)
    } else {
        spec_day_fault(date)
    }
}

/// The table Luhn doubling maps a digit through: twice the digit, with 9
/// subtracted once the doubling carries.
pub open spec fn spec_double_fold(digit: u8) -> int {
    if digit < 5 {
        2 * digit
    } else {
        2 * digit - 9
    }
}

/// The Luhn sum of the first `pairs` digit pairs: each even-indexed digit
/// doubled and folded, each odd-indexed digit taken as it is.
pub open spec fn spec_luhn_sum(digits: Seq<u8>, pairs: int) -> int
    decreases pairs,
{
    if pairs <= 0 {
        0
    } else {
        spec_luhn_sum(digits, pairs - 1) + spec_double_fold(digits[2 * (pairs - 1)]) + digits[2
            * (pairs - 1) + 1]
    }
}

/// A digit sequence passes the checksum when its Luhn sum over all five pairs
/// is a multiple of 10.
pub open spec fn spec_luhn_ok(digits: Seq<u8>) -> bool {
    spec_luhn_sum(digits, 5) % 10 == 0
}

/// The outcome of the full check of a parsed number: the date checks run
/// first, and only a date without fault has its checksum computed.
pub open spec fn spec_full(pin: Pin) -> Result<(), Fault> {
    match spec_date_fault(pin.date) {
        Some(f) => Err(f),
        None => if spec_luhn_ok(pin.nums@) {
            Ok(())
        } else {
            Err(Fault::ChecksumFailed)
        },
    }
}

/// The outcome of validating a digit sequence whose date was derived with
/// the given resolution inputs: the same checks as [`spec_full`], phrased
/// over the digits alone.
pub open spec fn spec_validate(
    digits: Seq<u8>,
    plus: bool,
    century: Option<i32>,
    now: Date,
) -> Result<(), Fault> {
    match spec_date_fault(spec_date_of(digits, plus, century, now)) {
        Some(f) => Err(f),
        None => if spec_luhn_ok(digits) {
            Ok(())
        } else {
            Err(Fault::ChecksumFailed)
        },
    }
}

/// Check that the given month is possible: at least 1 and at most 12.
pub fn check_month(month: u32) -> (r: Result<(), Fault>)
    ensures
        r == fault_to_result(spec_month_fault(month)),
{
    if month == 0 {
        Err(Fault::InvalidMonth { over: false })
    } else if month > 12 {
        Err(Fault::InvalidMonth { over: true })
    } else {
        Ok(())
    }
}

/// Check that the day is possible given the month and year, counting the
/// temporary-number band above the month's maximum as possible.
pub fn check_day(pin: Pin) -> (r: Result<(), Fault>)
    ensures
        r == fault_to_result(spec_day_fault(pin.date)),
{
    let day = pin.date.day;
    let max = max_day(pin.date.month, pin.date.year);

    if day > max {
        return if day > max + 60 {
            Err(Fault::DayOutOfRange)
        } else if day < 61 {
            Err(Fault::DayOutOfRange)
        } else {
            Ok(())
        };
    }

    if day == 0 {
        return Err(Fault::InvalidDay);
    }

    Ok(())
}

/// Check that the given parsed number has a date that is possible to have:
/// the month can be 1 to 12, and the day is held against the month's length,
/// the leap-year rule and the temporary-number allowance.
pub fn date(pin: Pin) -> (r: Result<(), Fault>)
    ensures
        r == fault_to_result(spec_date_fault(pin.date)),
{
    match check_month(pin.date.month) {
        Err(reason) => return Err(reason),
        _ => {},
    }

    match check_day(pin) {
        Err(reason) => return Err(reason),
        _ => {},
    }

    Ok(())
}

/// Check Luhn's algorithm on the given digits: every even-indexed digit is
/// doubled and folded, every odd-indexed digit added as it is, and the sum
/// must be divisible by 10.
pub fn luhns(pin: [u8; 10]) -> (ok: bool)
    requires
        digits_ok(pin@),
    ensures
        ok == spec_luhn_ok(pin@),
{
    let mut sum: u32 = 0;

    for i in 0..5usize
        invariant
            digits_ok(pin@),
            sum == spec_luhn_sum(pin@, i as int),
            sum <= 27 * i,
    {
        let doubled = pin[i * 2];
        let folded: u32 = if doubled < 5 {
            2 * (doubled as u32)
        } else {
            2 * (doubled as u32) - 9
        };
        sum = sum + folded + (pin[i * 2 + 1] as u32);
    }

    sum % 10 == 0
}

/// Does all the existing checks on a parsed number: the date checks first,
/// then the checksum, returning the first fault encountered.
pub fn full(pin: Pin) -> (r: Result<(), Fault>)
    requires
        digits_ok(pin.nums@),
    ensures
        r == spec_full(pin),
{
    match date(pin) {
        Err(reason) => return Err(reason),
        _ => {},
    }

    if !luhns(pin.nums) {
        return Err(Fault::ChecksumFailed);
    }

    Ok(())
}

} // verus!
