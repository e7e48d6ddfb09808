//! Tests of the format stage: length dispatch, separators, digit extraction,
//! and century resolution, all against a fixed reference date.

use swepin::input::{parse, parse_at};
use swepin::utils::{get_date_at, Date, Fault};

/// A fixed current date, so century resolution is deterministic.
fn reference_date() -> Date {
    Date { day: 5, month: 10, year: 2023 }
}

#[test]
fn accepted_lengths_reach_validation() {
    // Digit-only payloads with correct separators, one per accepted length:
    // none of them may fail at the format stage.
    let now = reference_date();
    assert!(parse_at("0610092454", now).is_ok());
    assert!(parse_at("061009-2454", now).is_ok());
    assert!(parse_at("200610092454", now).is_ok());
    assert!(parse_at("20061009-2454", now).is_ok());
}

#[test]
fn parse_short_form() {
    let now = reference_date();
    let pin = parse_at("0610092454", now).unwrap();
    assert_eq!(pin.nums, [0, 6, 1, 0, 0, 9, 2, 4, 5, 4]);
    assert!(!pin.plus);
    assert_eq!(pin.date, Date { day: 9, month: 10, year: 2006 });
}

#[test]
fn parse_separated_form() {
    let now = reference_date();
    let pin = parse_at("061009-2454", now).unwrap();
    assert_eq!(pin.nums, [0, 6, 1, 0, 0, 9, 2, 4, 5, 4]);
    assert!(!pin.plus);
    assert_eq!(pin.date.year, 2006);
}

#[test]
fn parse_plus_marks_centenarian() {
    let now = reference_date();
    let pin = parse_at("061009+2454", now).unwrap();
    assert!(pin.plus);
    assert_eq!(pin.date.year, 1906);
}

#[test]
fn parse_explicit_century() {
    let now = reference_date();
    let pin = parse_at("190610092454", now).unwrap();
    assert_eq!(pin.nums, [0, 6, 1, 0, 0, 9, 2, 4, 5, 4]);
    assert!(!pin.plus);
    assert_eq!(pin.date, Date { day: 9, month: 10, year: 1906 });
}

#[test]
fn parse_explicit_century_separated() {
    let now = reference_date();
    let pin = parse_at("19061009-2454", now).unwrap();
    assert_eq!(pin.date.year, 1906);
}

#[test]
fn length_nine_is_too_short() {
    let now = reference_date();
    assert_eq!(parse_at("061009245", now), Err(Fault::TooShort));
    assert_eq!(parse_at("", now), Err(Fault::TooShort));
}

#[test]
fn length_fourteen_is_too_long() {
    let now = reference_date();
    assert_eq!(parse_at("06100924541234", now), Err(Fault::TooLong));
}

#[test]
fn separator_must_be_dash_or_plus() {
    let now = reference_date();
    assert_eq!(parse_at("061009*2454", now), Err(Fault::InvalidSeparator));
    assert_eq!(parse_at("06100902454", now), Err(Fault::InvalidSeparator));
}

#[test]
fn explicit_century_rejects_plus_separator() {
    // An explicit century and a request for another 100-year offset are
    // contradictory, so the long form only accepts `-`.
    let now = reference_date();
    assert_eq!(parse_at("20061009+2454", now), Err(Fault::InvalidSeparator));
}

#[test]
fn non_digit_characters_are_malformed() {
    let now = reference_date();
    assert_eq!(parse_at("06100g2454", now), Err(Fault::MalformedDigits));
    assert_eq!(parse_at("2A0610092454", now), Err(Fault::MalformedDigits));
    assert_eq!(parse_at("061009-245x", now), Err(Fault::MalformedDigits));
}

#[test]
fn century_resolution_prefers_past_dates() {
    let now = reference_date();
    // Two-digit year beyond the current one: previous century.
    let pin = parse_at("2410092454", now).unwrap();
    assert_eq!(pin.date.year, 1924);
    // Same two-digit year, month and day later than today: previous century.
    let pin = parse_at("2310092454", now).unwrap();
    assert_eq!(pin.date.year, 1923);
    // Same two-digit year, date not in the future: current century.
    let pin = parse_at("2310042454", now).unwrap();
    assert_eq!(pin.date.year, 2023);
}

#[test]
fn explicit_century_ignores_offset_flag() {
    let now = reference_date();
    let nums: [u8; 10] = [0, 6, 1, 0, 0, 9, 2, 4, 5, 4];
    let with_century = get_date_at(nums, true, Some(19), now);
    assert_eq!(with_century.year, 1906);
}

#[test]
fn century_resolution_agrees_with_explicit_century() {
    // The offset form resolves 06 to 1906 under the reference date, so it
    // must reach the identical date as the explicit century 19.
    let now = reference_date();
    let nums: [u8; 10] = [0, 6, 1, 0, 0, 9, 2, 4, 5, 4];
    let resolved = get_date_at(nums, true, None, now);
    let explicit = get_date_at(nums, false, Some(19), now);
    assert_eq!(resolved, explicit);
}

#[test]
fn parse_with_system_clock() {
    // The format outcome and the digits do not depend on the clock.
    let pin = parse(&"0610092454".to_string()).unwrap();
    assert_eq!(pin.nums, [0, 6, 1, 0, 0, 9, 2, 4, 5, 4]);
    assert!(!pin.plus);
    assert_eq!(pin.date.month, 10);
    assert_eq!(pin.date.day, 9);
    assert_eq!(parse(&"061009245".to_string()), Err(Fault::TooShort));
}
