//! Parsing of the raw input string: classify it by length, validate the
//! separator where the layout has one, convert the characters to digits, and
//! derive the calendar date from them.
//!
//! Accepted layouts, by character count:
//! 10 `YYMMDDSSSS`, 11 `YYMMDD-SSSS` (or `+` for the 100-year offset),
//! 12 `CCYYMMDDSSSS`, 13 `CCYYMMDD-SSSS`.

use crate::utils::{
    digits_ok, get_date_at, now_ok, spec_date_of, today, Date, Fault, Pin,
};
use vstd::prelude::*;
use vstd::string::StrSliceExecFns;

verus! {

/// A character that stands for a decimal digit.
pub open spec fn is_digit_char(c: char) -> bool {
    48 <= c as u32 <= 57
}

/// The digit a character stands for.
pub open spec fn digit_of_char(c: char) -> u8 {
    ((c as u32) - 48) as u8
}

/// Whether the layout of this input length carries a separator character.
pub open spec fn has_separator(len: int) -> bool {
    len == 11 || len == 13
}

/// How many leading characters of this input length hold the century.
pub open spec fn century_offset(len: int) -> int {
    if len >= 12 {
        2int
    } else {
        0int
    }
}

/// The input position of the `k`th of the ten digits, for a layout with the
/// given century offset, skipping the separator where there is one.
pub open spec fn num_index(off: int, gapped: bool, k: int) -> int {
    off + k + if gapped && k >= 6 {
        1int
    } else {
        0int
    }
}

/// The separator character is valid: `-` or `+` in the short form, and only
/// `-` in the long form, where the century is explicit and a second 100-year
/// offset would be contradictory.
pub open spec fn spec_sep_ok(s: Seq<char>) -> bool {
    if s.len() == 11 {
        s[6] == '-' || s[6] == '+'
    } else if s.len() == 13 {
        s[8] == '-'
    } else {
        true
    }
}

/// The input asked for the 100-year offset: only the short separated form
/// can, with `+` in place of `-`.
pub open spec fn spec_plus(s: Seq<char>) -> bool {
    s.len() == 11 && s[6] == '+'
}

/// Each of the ten digit positions of the input holds a digit character.
pub open spec fn spec_nums_ok(s: Seq<char>) -> bool {
    forall|k: int|
        0 <= k < 10 ==> is_digit_char(
            s[num_index(century_offset(s.len() as int), has_separator(s.len() as int), k)],
        )
}

/// Every character that should be a digit is one: the ten digit positions,
/// and the two century characters where the layout has them.
pub open spec fn spec_payload_ok(s: Seq<char>) -> bool {
    &&& spec_nums_ok(s)
    &&& s.len() >= 12 ==> is_digit_char(s[0]) && is_digit_char(s[1])
}

/// The ten digits of the input, in order: two for the year, two for the
/// month, two for the day, four for the serial.
pub open spec fn spec_nums(s: Seq<char>) -> Seq<u8> {
    Seq::new(
        10,
        |k: int|
            digit_of_char(
                s[num_index(century_offset(s.len() as int), has_separator(s.len() as int), k)],
            ),
    )
}

/// The explicit century of the input, where the layout carries one.
pub open spec fn spec_century(s: Seq<char>) -> Option<i32> {
    if s.len() >= 12 {
        Some((digit_of_char(s[0]) * 10 + digit_of_char(s[1])) as i32)
    } else {
        None
    }
}

/// The fault the format stage finds in an input, if any, in the order the
/// checks run: length, then separator, then digits.
pub open spec fn spec_parse_fault(s: Seq<char>) -> Option<Fault> {
    if s.len() < 10 {
        Some(Fault::TooShort)
    } else if s.len() > 13 {
        Some(Fault::TooLong)
    } else if !spec_sep_ok(s) {
        Some(Fault::InvalidSeparator)
    } else if !spec_payload_ok(s) {
        Some(Fault::MalformedDigits)
    } else {
        None
    }
}

/// The digit a character stands for, or nothing for any other character.
fn digit_of(c: char) -> (r: Option<u8>)
    ensures
        r == if is_digit_char(c) {
            Some(digit_of_char(c))
        } else {
            None::<u8>
        },
{
    let u = c as u32;
    if 48 <= u && u <= 57 {
        Some((u - 48) as u8)
    } else {
        None
    }
}

/// Convert the ten digit characters of the input into the numbers they
/// represent, reading them at the given century offset and skipping the
/// separator position where the layout has one. Fails on the first character
/// that is not a digit.
fn extract_nums(input: &str, off: usize, gapped: bool) -> (r: Result<[u8; 10], Fault>)
    requires
        10 <= input@.len() <= 13,
        off as int == century_offset(input@.len() as int),
        gapped == has_separator(input@.len() as int),
    ensures
        match r {
            Ok(nums) => {
                &&& digits_ok(nums@)
                &&& spec_nums_ok(input@)
                &&& nums@ == spec_nums(input@)
            },
            Err(f) => {
                &&& f == Fault::MalformedDigits
                &&& !spec_nums_ok(input@)
            },
        },
{
    let ghost co = century_offset(input@.len() as int);
    let ghost hs = has_separator(input@.len() as int);
    let mut nums: [u8; 10] = [0; 10];
    let mut k: usize = 0;

    while k < 10
        invariant
            k <= 10,
            10 <= input@.len() <= 13,
            off as int == co,
            gapped == hs,
            co == century_offset(input@.len() as int),
            hs == has_separator(input@.len() as int),
            forall|j: int| 0 <= j < k ==> is_digit_char(input@[num_index(co, hs, j)]),
            forall|j: int| 0 <= j < k ==> nums@[j] == digit_of_char(input@[num_index(co, hs, j)]),
            forall|j: int| 0 <= j < k ==> nums@[j] <= 9,
        decreases 10 - k,
    {
        let pos = if gapped && k >= 6 {
            off + k + 1
        } else {
            off + k
        };
        let c = input.get_char(pos);
        match digit_of(c) {
            Some(d) => {
                nums[k] = d;
            },
            None => {
                assert(!is_digit_char(input@[num_index(co, hs, k as int)]));
                return Err(Fault::MalformedDigits);
            },
        }
        k += 1;
    }

    proof {
        assert(nums@ =~= spec_nums(input@));
    }
    Ok(nums)
}

/// Parse a given input string at the given current date.
///
/// The string is classified by its character count, the separator is
/// validated where the layout has one, the digit characters are converted,
/// and the calendar date is derived, resolving the century against `now`
/// where the input does not supply it.
pub fn parse_at(input: &str, now: Date) -> (r: Result<Pin, Fault>)
    requires
        now_ok(now),
    ensures
        spec_parse_fault(input@) matches Some(f) ==> r == Err::<Pin, Fault>(f),
        spec_parse_fault(input@) is None ==> (r matches Ok(pin) && pin.nums@ == spec_nums(input@)
            && pin.plus == spec_plus(input@) && pin.date == spec_date_of(
            spec_nums(input@),
            spec_plus(input@),
            spec_century(input@),
            now,
        )),
{
    let len = input.unicode_len();

    if len < 10 {
        return Err(Fault::TooShort);
    }
    if len > 13 {
        return Err(Fault::TooLong);
    }

    let mut plus = false;
    if len == 11 {
        let sep = input.get_char(6);
        if sep != '-' && sep != '+' {
            return Err(Fault::InvalidSeparator);
        }
        plus = sep == '+';
    }
    if len == 13 {
        let sep = input.get_char(8);
        if sep != '-' {
            return Err(Fault::InvalidSeparator);
        }
    }

    if len <= 11 {
        let nums = match extract_nums(input, 0, len == 11) {
            Ok(n) => n,
            Err(f) => {
                return Err(f);
            },
        };
        let date = get_date_at(nums, plus, None, now);
        Ok(Pin { nums, plus, date })
    } else {
        let nums = match extract_nums(input, 2, len == 13) {
            Ok(n) => n,
            Err(f) => {
                return Err(f);
            },
        };
        let c0 = match digit_of(input.get_char(0)) {
            Some(d) => d,
            None => {
                return Err(Fault::MalformedDigits);
            },
        };
        let c1 = match digit_of(input.get_char(1)) {
            Some(d) => d,
            None => {
                return Err(Fault::MalformedDigits);
            },
        };
        let centry: i32 = (c0 as i32) * 10 + (c1 as i32);
        let date = get_date_at(nums, false, Some(centry), now);
        Ok(Pin { nums, plus: false, date })
    }
}

/// Parse a given input string, reading the current date from the system
/// clock for century resolution.
///
/// The format outcome and the digits depend on the input alone; the derived
/// date is the one some current-date reading produces.
pub fn parse(input: &String) -> (r: Result<Pin, Fault>)
    ensures
        spec_parse_fault(input@) matches Some(f) ==> r == Err::<Pin, Fault>(f),
        spec_parse_fault(input@) is None ==> (r matches Ok(pin) && pin.nums@ == spec_nums(input@)
            && pin.plus == spec_plus(input@) && exists|now: Date|
            now_ok(now) && pin.date == spec_date_of(
                spec_nums(input@),
                spec_plus(input@),
                spec_century(input@),
                now,
            )),
{
    let now = today();
    let r = parse_at(input.as_str(), now);
    proof {
        match r {
            Ok(pin) => {
                assert(now_ok(now) && pin.date == spec_date_of(
                    spec_nums(input@),
                    spec_plus(input@),
                    spec_century(input@),
                    now,
                ));
            },
            Err(_) => {},
        }
    }
    r
}

} // verus!
