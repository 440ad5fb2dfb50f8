//! Reading spans of time such as `30d`, `7w` or `1y`.

use crate::errors::RmzError;
use crate::text::{self, all_digits, chars_of, decimal_value, is_digit, lowercase, trimmed};
use vstd::prelude::*;

verus! {

/// The longest span that can be read, in seconds.
pub const MAX_SPAN_SECS: i64 = 9_223_372_036_854_775;

/// The number of seconds in a day.
pub const DAY_SECS: i64 = 86_400;

/// The digits of `s`, in order.
pub open spec fn digits_of(s: Seq<char>) -> Seq<char>
    decreases s.len(),
{
    if s.len() == 0 {
        s
    } else if is_digit(s.last()) {
        digits_of(s.drop_last()).push(s.last())
    } else {
        digits_of(s.drop_last())
    }
}

/// The characters of `s` that are no digits, in order.
pub open spec fn letters_of(s: Seq<char>) -> Seq<char>
    decreases s.len(),
{
    if s.len() == 0 {
        s
    } else if is_digit(s.last()) {
        letters_of(s.drop_last())
    } else {
        letters_of(s.drop_last()).push(s.last())
    }
}

/// How many days the unit with the given lowercase name has: a week has
/// seven, a month thirty, a year 365.
pub open spec fn days_of(unit: Seq<char>) -> Option<int> {
    if unit == "d"@ || unit == "day"@ || unit == "days"@ {
        Some(1int)
    } else if unit == "w"@ || unit == "week"@ || unit == "weeks"@ {
        Some(7int)
    } else if unit == "m"@ || unit == "month"@ || unit == "months"@ {
        Some(30int)
    } else if unit == "y"@ || unit == "year"@ || unit == "years"@ {
        Some(365int)
    } else {
        None
    }
}

/// Whether `r` is the span in seconds that a number and a unit give:
/// `InvalidDurationNumber` with the number where it is no run of digits, or where
/// the span would be longer than `MAX_SPAN_SECS`; `InvalidDurationUnit` with the unit as
/// written where its lowercase form is no unit.
pub open spec fn is_span_of(
    r: Result<i64, RmzError>,
    digits: Seq<char>,
    unit_lowered: Seq<char>,
    unit: Seq<char>,
) -> bool {
    if digits.len() == 0 || !all_digits(digits) || decimal_value(digits) > i64::MAX {
        r matches Err(RmzError::InvalidDurationNumber { text }) && text@ == digits
    } else {
        match days_of(unit_lowered) {
            None => r matches Err(RmzError::InvalidDurationUnit { text }) && text@ == unit,
            Some(days) => if decimal_value(digits) * days * DAY_SECS <= MAX_SPAN_SECS {
                r == Ok::<i64, RmzError>((decimal_value(digits) * days * DAY_SECS) as i64)
            } else {
                r matches Err(RmzError::InvalidDurationNumber { text }) && text@ == digits
            },
        }
    }
}

fn split(v: &Vec<char>) -> (r: (String, String))
    ensures
        r.0@ == digits_of(v@),
        r.1@ == letters_of(v@),
        all_digits(r.0@),
{
    let mut number = String::new();
    let mut unit = String::new();
    let mut i: usize = 0;
    assert(v@.take(0) =~= Seq::<char>::empty());
    while i < v.len()
        invariant
            i <= v.len(),
            number@ == digits_of(v@.take(i as int)),
            unit@ == letters_of(v@.take(i as int)),
            all_digits(number@),
        decreases v.len() - i,
    {
        let c = v[i];
        proof {
            let after = v@.take(i + 1);
            assert(after.drop_last() =~= v@.take(i as int));
            assert(after.last() == c);
        }
        if c >= '0' && c <= '9' {
            text::push_char(&mut number, c);
        } else {
            text::push_char(&mut unit, c);
        }
        i += 1;
    }
    assert(v@.take(v.len() as int) =~= v@);
    (number, unit)
}

fn unit_days(unit: &str) -> (r: Option<i64>)
    ensures
        match days_of(unit@) {
            Some(d) => r == Some(d as i64),
            None => r is None,
        },
{
    if text::same_text(unit, "d") || text::same_text(unit, "day") || text::same_text(
        unit,
        "days",
    ) {
        Some(1)
    } else if text::same_text(unit, "w") || text::same_text(unit, "week") || text::same_text(
        unit,
        "weeks",
    ) {
        Some(7)
    } else if text::same_text(unit, "m") || text::same_text(unit, "month") || text::same_text(
        unit,
        "months",
    ) {
        Some(30)
    } else if text::same_text(unit, "y") || text::same_text(unit, "year") || text::same_text(
        unit,
        "years",
    ) {
        Some(365)
    } else {
        None
    }
}

/// The span in seconds that a number and a unit give: `unit_lowered` is
/// the unit in lowercase and without white space around it, `unit` the unit
/// as written.
pub fn span_of_parts(digits: &str, unit_lowered: &str, unit: &str) -> (r: Result<i64, RmzError>)
    ensures
        is_span_of(r, digits@, unit_lowered@, unit@),
{
    if digits.unicode_len() == 0 {
        return Err(RmzError::InvalidDurationNumber { text: digits.to_owned() });
    }
    let value: u128 = match text::digits_value(digits, i64::MAX as u128) {
        Some(n) => n,
        None => {
            return Err(RmzError::InvalidDurationNumber { text: digits.to_owned() });
        },
    };
    match unit_days(unit_lowered) {
        None => Err(RmzError::InvalidDurationUnit { text: unit.to_owned() }),
        Some(days) => {
            assert(value * days * 86_400 <= 0x7fff_ffff_ffff_ffff * 365 * 86_400)
                by (nonlinear_arith)
                requires
                    value <= 0x7fff_ffff_ffff_ffff,
                    1 <= days <= 365,
            ;
            let secs: u128 = value * (days as u128) * (DAY_SECS as u128);
            if secs <= MAX_SPAN_SECS as u128 {
                Ok(secs as i64)
            } else {
                Err(RmzError::InvalidDurationNumber { text: digits.to_owned() })
            }
        },
    }
}

/// Reads a span such as `30d`, `7w`, `2 months` or `1y`, in seconds.
/// White space around the text and around the unit does not count, nor
/// does the case of the unit. The digits of the text make the number,
/// the rest the unit. An empty text is `EmptyDuration`.
pub fn parse_duration(input: &str) -> (r: Result<i64, RmzError>)
    ensures
        trimmed(input@).len() == 0 ==> r == Err::<i64, RmzError>(RmzError::EmptyDuration),
        trimmed(input@).len() > 0 ==> is_span_of(
            r,
            digits_of(trimmed(input@)),
            lowercase(trimmed(letters_of(trimmed(input@)))),
            letters_of(trimmed(input@)),
        ),
{
    let clean = text::trim_of(input);
    let v = chars_of(clean.as_str());
    if v.len() == 0 {
        return Err(RmzError::EmptyDuration);
    }
    let (number, unit) = split(&v);
    let unit_clean = text::trim_of(unit.as_str());
    let unit_lowered = text::lowercase_of(unit_clean.as_str());
    span_of_parts(number.as_str(), unit_lowered.as_str(), unit.as_str())
}

} // verus!
