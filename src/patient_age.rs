//! DICOM Age Strings (PatientAge) as a number of days.
use vstd::prelude::*;
use crate::numbers::{all_digits, digits_value, parse_digits, Digits};
use crate::text::chars_of;

verus! {

/// Days in `count` units of `unit` (`D`, `W`, `M` of 30.44 days, `Y` of
/// 365.24 days), rounded to the nearest day, halves up.
pub open spec fn days_in_units(count: nat, unit: char) -> nat {
    if unit == 'D' {
        count
    } else if unit == 'W' {
        7 * count
    } else if unit == 'M' {
        (3044 * count + 50) / 100
    } else {
        (36524 * count + 50) / 100
    }
}

pub open spec fn is_age_unit(c: char) -> bool {
    c == 'D' || c == 'W' || c == 'M' || c == 'Y'
}

/// Number of days that an age string gives: digits followed by one unit
/// letter; `None` for any other text.
pub open spec fn age_days(s: Seq<char>) -> Option<nat> {
    if s.len() >= 2 && is_age_unit(s.last()) && all_digits(s.drop_last()) {
        Some(days_in_units(digits_value(s.drop_last()), s.last()))
    } else {
        None
    }
}

/// Parses a DICOM Age String (`"030Y"`, `"020D"`, `"2W"`, `"5M"`) into a
/// number of days. `None` when the text is not digits followed by `D`, `W`,
/// `M` or `Y`, or when the number of days exceeds `u32::MAX`.
pub fn parse_age(age: &str) -> (r: Option<u32>)
    ensures
        match age_days(age@) {
            Some(d) => if d <= u32::MAX {
                r == Some(d as u32)
            } else {
                r is None
            },
            None => r is None,
        },
{
    let cs = chars_of(age);
    let n = cs.len();
    if n < 2 {
        return None;
    }
    let unit = cs[n - 1];
    if !(unit == 'D' || unit == 'W' || unit == 'M' || unit == 'Y') {
        return None;
    }
    assert(cs@.subrange(0, n - 1) == cs@.drop_last());
    let count = match parse_digits(&cs, 0, n - 1) {
        Digits::NotDigits => {
            return None;
        },
        Digits::TooLarge => {
            assert(days_in_units(digits_value(cs@.drop_last()), unit) >= digits_value(
                cs@.drop_last(),
            ));
            return None;
        },
        Digits::Value(v) => v,
    };
    let days: u64 = if unit == 'D' {
        count
    } else if unit == 'W' {
        7 * count
    } else if unit == 'M' {
        (3044 * count + 50) / 100
    } else {
        (36524 * count + 50) / 100
    };
    if days > 4294967295 {
        None
    } else {
        Some(days as u32)
    }
}

} // verus!
