//! Validation of Swedish personal identity numbers.
//!
//! An identity number arrives as a short digit string in one of four textual
//! layouts, with or without an explicit century and with or without a
//! separator. The library parses the string into its date and serial fields,
//! resolves the full year when only two year digits are given, checks that the
//! date is possible on the calendar (with the extended day range used by
//! temporary numbers), and verifies the Luhn checksum over the ten digits.

use vstd::prelude::*;

pub mod check;
pub mod input;
pub mod utils;

use crate::check::{full, spec_validate};
use crate::input::{
    parse_at, spec_century, spec_nums, spec_parse_fault, spec_payload_ok, spec_plus, spec_sep_ok,
};
use crate::utils::{now_ok, today, Date, Fault};

verus! {

/// The outcome of checking an input string against the given current date:
/// the first fault the format stage finds, or else the first fault of date
/// and checksum validation, or success.
pub open spec fn spec_check_pin(s: Seq<char>, now: Date) -> Result<(), Fault> {
    match spec_parse_fault(s) {
        Some(f) => Err(f),
        None => spec_validate(spec_nums(s), spec_plus(s), spec_century(s), now),
    }
}

/// Parse an input string and run all the existing checks on it, at the given
/// current date.
pub fn check_pin_at(pin: &str, now: Date) -> (r: Result<(), Fault>)
    requires
        now_ok(now),
    ensures
        r == spec_check_pin(pin@, now),
{
    let parsed = match parse_at(pin, now) {
        Ok(p) => p,
        Err(reason) => {
            return Err(reason);
        },
    };
    full(parsed)
}

/// Parse an input string and run all the existing checks on it, reading the
/// current date from the system clock for century resolution.
pub fn check_pin(pin: String) -> (r: Result<(), Fault>)
    ensures
        exists|now: Date| now_ok(now) && r == spec_check_pin(pin@, now),
{
    let now = today();
    let r = check_pin_at(pin.as_str(), now);
    proof {
        assert(now_ok(now) && r == spec_check_pin(pin@, now));
    }
    r
}

/// A digit-only payload of an accepted length with a correct separator is
/// never rejected at the format stage: checking it always reaches the date
/// and checksum validation of its digits.
pub proof fn lemma_format_accepted(s: Seq<char>, now: Date)
    requires
        10 <= s.len() <= 13,
        spec_sep_ok(s),
        spec_payload_ok(s),
    ensures
        spec_parse_fault(s) is None,
        spec_check_pin(s, now) == spec_validate(spec_nums(s), spec_plus(s), spec_century(s), now),
{
}

} // verus!
