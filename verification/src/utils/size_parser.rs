//! Reading sizes such as `10MB` or `1.5GB`.
//!
//! A number is a run of decimal digits with at most one point in it, of
//! any length. The arithmetic is exact: `1.5MB` is the whole part of 1.5
//! times 1024², and every digit behind the point counts. Signs, exponents
//! and words such as `inf` are no numbers.

use crate::errors::RmzError;
use crate::text::{self, all_digits, chars_of, decimal_value, is_digit, lowercase, trimmed, uppercase};
use crate::utils::size_format::{GIB, KIB, MIB, TIB};
use vstd::arithmetic::power::pow;
use vstd::prelude::*;

verus! {

/// Whether a character belongs to the number of a size.
pub open spec fn in_number(c: char) -> bool {
    is_digit(c) || c == '.'
}

/// The characters of `s` that belong to the number, in order.
pub open spec fn number_part(s: Seq<char>) -> Seq<char>
    decreases s.len(),
{
    if s.len() == 0 {
        s
    } else if in_number(s.last()) {
        number_part(s.drop_last()).push(s.last())
    } else {
        number_part(s.drop_last())
    }
}

/// The characters of `s` that do not belong to the number, in order.
pub open spec fn unit_part(s: Seq<char>) -> Seq<char>
    decreases s.len(),
{
    if s.len() == 0 {
        s
    } else if in_number(s.last()) {
        unit_part(s.drop_last())
    } else {
        unit_part(s.drop_last()).push(s.last())
    }
}

/// The position of the first point in `s`, or the length of `s`.
pub open spec fn point_index(s: Seq<char>) -> int
    decreases s.len(),
{
    if s.len() == 0 {
        0
    } else if s[0] == '.' {
        0
    } else {
        1 + point_index(s.drop_first())
    }
}

/// The digits before the point of `s`.
pub open spec fn whole_digits(s: Seq<char>) -> Seq<char> {
    s.take(point_index(s))
}

/// The digits behind the point of `s`.
pub open spec fn fraction_digits(s: Seq<char>) -> Seq<char> {
    if point_index(s) < s.len() {
        s.skip(point_index(s) + 1)
    } else {
        Seq::empty()
    }
}

/// Whether `s` is a number: digits before and behind at most one point,
/// one digit at least.
pub open spec fn is_number(s: Seq<char>) -> bool {
    all_digits(whole_digits(s)) && all_digits(fraction_digits(s)) && whole_digits(s).len()
        + fraction_digits(s).len() >= 1
}

/// The whole part of what the digits `f` behind a point are worth, times
/// `multiplier`.
pub open spec fn fraction_part(f: Seq<char>, multiplier: int) -> int {
    (decimal_value(f) * multiplier) / pow(10, f.len())
}

/// The whole part of the number `s` times `multiplier`.
pub open spec fn scaled(s: Seq<char>, multiplier: u64) -> nat {
    let whole = decimal_value(whole_digits(s)) * multiplier;
    (whole + fraction_part(fraction_digits(s), multiplier as int)) as nat
}

/// `n` where it fits into 64 bits, else the largest 64-bit number.
pub open spec fn saturated(n: nat) -> u64 {
    if n <= u64::MAX {
        n as u64
    } else {
        u64::MAX
    }
}

/// The number of bytes in the unit with the given lowercase name.
pub open spec fn multiplier_of(unit: Seq<char>) -> Option<u64> {
    if unit == ""@ || unit == "b"@ {
        Some(1u64)
    } else if unit == "k"@ || unit == "kb"@ {
        Some(KIB)
    } else if unit == "m"@ || unit == "mb"@ {
        Some(MIB)
    } else if unit == "g"@ || unit == "gb"@ {
        Some(GIB)
    } else if unit == "t"@ || unit == "tb"@ {
        Some(TIB)
    } else {
        None
    }
}

/// Whether `r` is the size that a number and a unit give: `InvalidNumber`
/// with the number where it is none, else `InvalidUnit` with the unit as
/// written where its lowercase form is no unit, else the whole part of the
/// product, or the largest 64-bit number where it is more.
pub open spec fn is_size_of(
    r: Result<u64, RmzError>,
    number: Seq<char>,
    unit_lowered: Seq<char>,
    unit: Seq<char>,
) -> bool {
    if !is_number(number) {
        r matches Err(RmzError::InvalidNumber { text }) && text@ == number
    } else {
        match multiplier_of(unit_lowered) {
            None => r matches Err(RmzError::InvalidUnit { text }) && text@ == unit,
            Some(m) => r == Ok::<u64, RmzError>(saturated(scaled(number, m))),
        }
    }
}

fn split(v: &Vec<char>) -> (r: (String, String))
    ensures
        r.0@ == number_part(v@),
        r.1@ == unit_part(v@),
{
    let mut number = String::new();
    let mut unit = String::new();
    let mut i: usize = 0;
    assert(v@.take(0) =~= Seq::<char>::empty());
    while i < v.len()
        invariant
            i <= v.len(),
            number@ == number_part(v@.take(i as int)),
            unit@ == unit_part(v@.take(i as int)),
        decreases v.len() - i,
    {
        let c = v[i];
        proof {
            let after = v@.take(i + 1);
            assert(after.drop_last() =~= v@.take(i as int));
            assert(after.last() == c);
        }
        if (c >= '0' && c <= '9') || c == '.' {
            text::push_char(&mut number, c);
        } else {
            text::push_char(&mut unit, c);
        }
        i += 1;
    }
    assert(v@.take(v.len() as int) =~= v@);
    (number, unit)
}

fn find_point(v: &Vec<char>) -> (r: usize)
    ensures
        r == point_index(v@),
        r <= v.len(),
{
    let mut i: usize = 0;
    assert(v@.skip(0) =~= v@);
    while i < v.len() && v[i] != '.'
        invariant
            i <= v.len(),
            point_index(v@) == i + point_index(v@.skip(i as int)),
        decreases v.len() - i,
    {
        assert(v@.skip(i as int).drop_first() =~= v@.skip(i + 1));
        i += 1;
    }
    proof {
        if i < v.len() {
            assert(v@.skip(i as int)[0] == '.');
        }
    }
    i
}

fn digits_only(v: &Vec<char>, from: usize, to: usize) -> (r: bool)
    requires
        from <= to <= v.len(),
    ensures
        r == all_digits(v@.subrange(from as int, to as int)),
{
    let mut i: usize = from;
    while i < to
        invariant
            from <= i <= to <= v.len(),
            forall|k: int| from <= k < i ==> is_digit(#[trigger] v@[k]),
        decreases to - i,
    {
        if !(v[i] >= '0' && v[i] <= '9') {
            assert(!is_digit(v@.subrange(from as int, to as int)[i - from]));
            return false;
        }
        i += 1;
    }
    assert forall|k: int| 0 <= k < to - from implies is_digit(
        #[trigger] v@.subrange(from as int, to as int)[k],
    ) by {
        assert(is_digit(v@[from + k]));
    }
    true
}

proof fn lemma_pow10(n: nat)
    ensures
        pow(10, n) >= 1,
        pow(10, n + 1) == pow(10, n) * 10,
        pow(10, 0) == 1,
    decreases n,
{
    reveal(pow);
    if n > 0 {
        lemma_pow10((n - 1) as nat);
    }
}

proof fn lemma_value_below_pow(s: Seq<char>)
    requires
        all_digits(s),
    ensures
        decimal_value(s) < pow(10, s.len()),
    decreases s.len(),
{
    reveal(pow);
    if s.len() > 0 {
        assert(all_digits(s.drop_last())) by {
            assert forall|k: int| 0 <= k < s.len() - 1 implies is_digit(
                #[trigger] s.drop_last()[k],
            ) by {
                assert(s.drop_last()[k] == s[k]);
            }
        }
        lemma_value_below_pow(s.drop_last());
        lemma_pow10((s.len() - 1) as nat);
        assert(is_digit(s.last()));
    }
}

/// A digit before a run of digits counts ten times for each digit of the
/// run.
proof fn lemma_digit_in_front(d: char, t: Seq<char>)
    requires
        is_digit(d),
        all_digits(t),
    ensures
        all_digits(seq![d] + t),
        decimal_value(seq![d] + t) == (d as int - '0' as int) * pow(10, t.len())
            + decimal_value(t),
    decreases t.len(),
{
    reveal(pow);
    let s = seq![d] + t;
    assert forall|k: int| 0 <= k < s.len() implies is_digit(#[trigger] s[k]) by {
        if k > 0 {
            assert(s[k] == t[k - 1]);
        }
    }
    let x = d as int - '0' as int;
    if t.len() == 0 {
        assert(s.drop_last() =~= Seq::<char>::empty());
        assert(s.last() == d);
        assert(decimal_value(s.drop_last()) == 0);
        assert(decimal_value(s) == x);
        assert(pow(10, 0) == 1);
        assert(decimal_value(t) == 0);
        assert(x * pow(10, t.len()) == x) by (nonlinear_arith)
            requires
                pow(10, t.len()) == 1,
        ;
    } else {
        let head = t.drop_last();
        assert(all_digits(head)) by {
            assert forall|k: int| 0 <= k < head.len() implies is_digit(#[trigger] head[k]) by {
                assert(head[k] == t[k]);
            }
        }
        lemma_digit_in_front(d, head);
        assert(s.drop_last() =~= seq![d] + head);
        assert(s.last() == t.last());
        assert(is_digit(t.last()));
        lemma_pow10(head.len());
        let p = pow(10, head.len());
        let last = t.last() as int - '0' as int;
        assert(t.len() == head.len() + 1);
        assert(pow(10, t.len()) == p * 10);
        assert(decimal_value(s.drop_last()) == x * p + decimal_value(head));
        assert(decimal_value(t) == decimal_value(head) * 10 + last);
        assert(decimal_value(s) == decimal_value(s.drop_last()) * 10 + last);
        assert((x * p + decimal_value(head)) * 10 == x * (p * 10) + decimal_value(head) * 10)
            by (nonlinear_arith);
    }
}

/// The whole part of a fraction times a multiplier can be had digit by
/// digit, from the last to the first: a tenth of the digit times the
/// multiplier and of what the digits behind it gave.
proof fn lemma_carry(d: char, t: Seq<char>, multiplier: int)
    requires
        is_digit(d),
        all_digits(t),
        multiplier >= 1,
    ensures
        fraction_part(seq![d] + t, multiplier) == ((d as int - '0' as int) * multiplier
            + fraction_part(t, multiplier)) / 10,
        0 <= fraction_part(t, multiplier) < multiplier,
{
    let x = d as int - '0' as int;
    let p = pow(10, t.len());
    let v = decimal_value(t) as int;
    lemma_digit_in_front(d, t);
    lemma_pow10(t.len());
    lemma_value_below_pow(t);
    assert((seq![d] + t).len() == t.len() + 1);
    let all = (x * p + v) * multiplier;
    assert(all == v * multiplier + (x * multiplier) * p) by (nonlinear_arith)
        requires
            all == (x * p + v) * multiplier,
    ;
    assert(0 <= v * multiplier) by (nonlinear_arith)
        requires
            0 <= v,
            multiplier >= 1,
    ;
    assert(0 <= all) by (nonlinear_arith)
        requires
            all == v * multiplier + (x * multiplier) * p,
            0 <= v * multiplier,
            0 <= x,
            multiplier >= 1,
            p >= 1,
    ;
    // Taking the tenth last is the same as dividing by ten times as much.
    vstd::arithmetic::div_mod::lemma_div_denominator(all, p, 10);
    // What the power divides exactly comes out whole.
    vstd::arithmetic::div_mod::lemma_hoist_over_denominator(
        v * multiplier,
        x * multiplier,
        p as nat,
    );
    assert(v * multiplier < p * multiplier) by (nonlinear_arith)
        requires
            v < p,
            multiplier >= 1,
    ;
    vstd::arithmetic::div_mod::lemma_multiply_divide_lt(v * multiplier, p, multiplier);
    vstd::arithmetic::div_mod::lemma_div_pos_is_pos(v * multiplier, p);
}

/// The whole part of the number `v` times `multiplier`, at most the
/// largest 64-bit number.
fn scale(v: &Vec<char>, multiplier: u64) -> (r: u64)
    requires
        is_number(v@),
        1 <= multiplier <= TIB,
    ensures
        r == saturated(scaled(v@, multiplier)),
{
    let point = find_point(v);
    let whole = text::text_of(v, 0, point);
    let frac_from: usize = if point < v.len() {
        point + 1
    } else {
        v.len()
    };
    let ghost digits = v@.subrange(frac_from as int, v.len() as int);
    proof {
        assert(whole@ == whole_digits(v@));
        assert(digits =~= fraction_digits(v@));
        lemma_pow10(0);
        let none = v@.subrange(v.len() as int, v.len() as int);
        assert(none =~= Seq::<char>::empty());
        assert(decimal_value(none) == 0);
        assert(pow(10, none.len()) == 1);
        assert(fraction_part(none, multiplier as int) == 0) by (nonlinear_arith)
            requires
                fraction_part(none, multiplier as int) == (0 * multiplier) / 1,
        ;
    }
    // The digits behind the point, from the last to the first: each gives
    // a tenth of itself times the multiplier and of what came before.
    let mut part: u128 = 0;
    let mut i: usize = v.len();
    while i > frac_from
        invariant
            frac_from <= i <= v.len(),
            1 <= multiplier <= TIB,
            digits == v@.subrange(frac_from as int, v.len() as int),
            all_digits(digits),
            part == fraction_part(v@.subrange(i as int, v.len() as int), multiplier as int),
            part < multiplier,
        decreases i,
    {
        i -= 1;
        let c = v[i];
        proof {
            let behind = v@.subrange(i + 1, v.len() as int);
            assert(is_digit(digits[i - frac_from]));
            assert(all_digits(behind)) by {
                assert forall|k: int| 0 <= k < behind.len() implies is_digit(
                    #[trigger] behind[k],
                ) by {
                    assert(behind[k] == digits[i + 1 - frac_from + k]);
                }
            }
            assert(v@.subrange(i as int, v.len() as int) =~= seq![c] + behind);
            lemma_carry(c, behind, multiplier as int);
        }
        let d: u128 = (c as u32 - '0' as u32) as u128;
        assert(d * multiplier <= 9 * 1_099_511_627_776) by (nonlinear_arith)
            requires
                d <= 9,
                multiplier <= 1_099_511_627_776,
        ;
        part = (d * multiplier as u128 + part) / 10;
        assert(part < multiplier) by {
            let before = v@.subrange(i as int, v.len() as int);
            assert(all_digits(before)) by {
                assert forall|k: int| 0 <= k < before.len() implies is_digit(
                    #[trigger] before[k],
                ) by {
                    assert(before[k] == digits[i - frac_from + k]);
                }
            }
            lemma_carry('0', before, multiplier as int);
        }
    }
    match text::digits_value(whole.as_str(), u64::MAX as u128) {
        Some(w) => {
            assert(w * multiplier <= 0xffff_ffff_ffff_ffff * 1_099_511_627_776)
                by (nonlinear_arith)
                requires
                    w <= 0xffff_ffff_ffff_ffff,
                    multiplier <= 1_099_511_627_776,
            ;
            let total: u128 = w * multiplier as u128 + part;
            if total <= u64::MAX as u128 {
                total as u64
            } else {
                u64::MAX
            }
        },
        None => {
            assert(decimal_value(whole@) * multiplier > u64::MAX) by (nonlinear_arith)
                requires
                    decimal_value(whole@) > u64::MAX,
                    multiplier >= 1,
            ;
            u64::MAX
        },
    }
}

fn is_number_text(v: &Vec<char>) -> (r: bool)
    ensures
        r == is_number(v@),
{
    let point = find_point(v);
    let frac_from: usize = if point < v.len() {
        point + 1
    } else {
        v.len()
    };
    proof {
        assert(v@.subrange(0, point as int) =~= whole_digits(v@));
        assert(v@.subrange(frac_from as int, v.len() as int) =~= fraction_digits(v@));
    }
    digits_only(v, 0, point) && digits_only(v, frac_from, v.len()) && point + (v.len()
        - frac_from) >= 1
}

fn multiplier(unit: &str) -> (r: Option<u64>)
    ensures
        r == multiplier_of(unit@),
{
    if text::same_text(unit, "") || text::same_text(unit, "b") {
        Some(1)
    } else if text::same_text(unit, "k") || text::same_text(unit, "kb") {
        Some(KIB)
    } else if text::same_text(unit, "m") || text::same_text(unit, "mb") {
        Some(MIB)
    } else if text::same_text(unit, "g") || text::same_text(unit, "gb") {
        Some(GIB)
    } else if text::same_text(unit, "t") || text::same_text(unit, "tb") {
        Some(TIB)
    } else {
        None
    }
}

/// The size that a number and a unit give: `unit_lowered` is the unit in
/// lowercase and without white space around it, `unit` the unit as written.
pub fn size_of_parts(number: &str, unit_lowered: &str, unit: &str) -> (r: Result<u64, RmzError>)
    ensures
        is_size_of(r, number@, unit_lowered@, unit@),
{
    let v = chars_of(number);
    if !is_number_text(&v) {
        return Err(RmzError::InvalidNumber { text: number.to_owned() });
    }
    match multiplier(unit_lowered) {
        None => Err(RmzError::InvalidUnit { text: unit.to_owned() }),
        Some(m) => Ok(scale(&v, m)),
    }
}

/// Reads a size such as `10MB` or `1.5 gb`. White space around the text
/// and around the unit does not count, nor does the case of the unit. The
/// digits and points of the text make the number, whatever stands between
/// them; the rest makes the unit. An empty text is `EmptyInput`.
pub fn parse_size(input: &str) -> (r: Result<u64, RmzError>)
    ensures
        trimmed(input@).len() == 0 ==> r == Err::<u64, RmzError>(RmzError::EmptyInput),
        trimmed(input@).len() > 0 ==> is_size_of(
            r,
            number_part(trimmed(input@)),
            lowercase(trimmed(unit_part(trimmed(input@)))),
            unit_part(trimmed(input@)),
        ),
{
    let clean = text::trim_of(input);
    let v = chars_of(clean.as_str());
    if v.len() == 0 {
        return Err(RmzError::EmptyInput);
    }
    let (number, unit) = split(&v);
    let unit_clean = text::trim_of(unit.as_str());
    let unit_lowered = text::lowercase_of(unit_clean.as_str());
    size_of_parts(number.as_str(), unit_lowered.as_str(), unit.as_str())
}

/// `s` without every `suffix` that ends it, one after the other.
pub open spec fn without_suffix(s: Seq<char>, suffix: Seq<char>) -> Seq<char>
    decreases s.len(),
{
    if suffix.len() > 0 && suffix.is_suffix_of(s) {
        without_suffix(s.take(s.len() - suffix.len()), suffix)
    } else {
        s
    }
}

/// The unit that ends an uppercase size text, with its name: the first of
/// `KB`, `MB`, `GB`, `TB` and `B` that ends it; bytes where none does.
pub open spec fn suffix_unit(upper: Seq<char>) -> (Seq<char>, u64) {
    if "KB"@.is_suffix_of(upper) {
        ("KB"@, KIB)
    } else if "MB"@.is_suffix_of(upper) {
        ("MB"@, MIB)
    } else if "GB"@.is_suffix_of(upper) {
        ("GB"@, GIB)
    } else if "TB"@.is_suffix_of(upper) {
        ("TB"@, TIB)
    } else if "B"@.is_suffix_of(upper) {
        ("B"@, 1u64)
    } else {
        (Seq::empty(), 1u64)
    }
}

/// Whether `r` is the size that the uppercase text `upper` denotes: the
/// number before its unit times the unit, or `InvalidNumber` with the text
/// where what stands before the unit is no number.
pub open spec fn is_suffixed_size(r: Result<u64, RmzError>, upper: Seq<char>) -> bool {
    let (suffix, unit) = suffix_unit(upper);
    let number = without_suffix(upper, suffix);
    if is_number(number) {
        r == Ok::<u64, RmzError>(saturated(scaled(number, unit)))
    } else {
        r matches Err(RmzError::InvalidSizeFormat { text }) && text@ == upper
    }
}

fn strip_suffix(v: &Vec<char>, suffix: &str) -> (end: usize)
    requires
        suffix@.len() > 0,
    ensures
        end <= v.len(),
        v@.take(end as int) == without_suffix(v@, suffix@),
{
    let x = chars_of(suffix);
    let mut end: usize = v.len();
    assert(v@.take(end as int) =~= v@);
    loop
        invariant
            end <= v.len(),
            x@ == suffix@,
            x.len() > 0,
            without_suffix(v@, suffix@) == without_suffix(v@.take(end as int), suffix@),
        decreases end,
    {
        if x.len() > end {
            return end;
        }
        let from: usize = end - x.len();
        let mut same = true;
        let mut j: usize = 0;
        while j < x.len()
            invariant
                j <= x.len(),
                from + x.len() == end,
                end <= v.len(),
                same ==> forall|k: int| 0 <= k < j ==> v@[from + k] == x@[k],
                !same ==> !x@.is_suffix_of(v@.take(end as int)),
            decreases x.len() - j,
        {
            if v[from + j] != x[j] {
                assert(v@.take(end as int).subrange(end - x@.len(), end as int)[j as int]
                    != x@[j as int]);
                same = false;
            }
            j += 1;
        }
        if !same {
            return end;
        }
        proof {
            assert(x@ =~= v@.take(end as int).subrange(end - x@.len(), end as int));
            assert(v@.take(end as int).take(end - x@.len()) =~= v@.take(from as int));
        }
        end = from;
    }
}

/// Reads an uppercase size text such as `100MB`: a number followed by one
/// of `KB`, `MB`, `GB`, `TB` and `B`, or by nothing, which means bytes.
/// The number is digits with at most one point: a sign (`+5MB`), an
/// exponent (`1E3KB`), white space or a word such as `INF` before the unit
/// is refused with `InvalidSizeFormat`.
pub fn parse_upper_size(upper: &str) -> (r: Result<u64, RmzError>)
    ensures
        is_suffixed_size(r, upper@),
{
    let v = chars_of(upper);
    let (end, unit): (usize, u64) = if text::ends_with(upper, "KB") {
        proof {
            reveal_strlit("KB");
        }
        (strip_suffix(&v, "KB"), KIB)
    } else if text::ends_with(upper, "MB") {
        proof {
            reveal_strlit("MB");
        }
        (strip_suffix(&v, "MB"), MIB)
    } else if text::ends_with(upper, "GB") {
        proof {
            reveal_strlit("GB");
        }
        (strip_suffix(&v, "GB"), GIB)
    } else if text::ends_with(upper, "TB") {
        proof {
            reveal_strlit("TB");
        }
        (strip_suffix(&v, "TB"), TIB)
    } else if text::ends_with(upper, "B") {
        proof {
            reveal_strlit("B");
        }
        (strip_suffix(&v, "B"), 1)
    } else {
        (v.len(), 1)
    };
    proof {
        let (suffix, u) = suffix_unit(upper@);
        assert(u == unit);
        if suffix.len() == 0 {
            assert(v@.take(v.len() as int) =~= v@);
        }
        assert(v@.take(end as int) == without_suffix(upper@, suffix));
    }
    let number = text::text_of(&v, 0, end);
    let nv = chars_of(number.as_str());
    if is_number_text(&nv) {
        Ok(scale(&nv, unit))
    } else {
        Err(RmzError::InvalidSizeFormat { text: upper.to_owned() })
    }
}

/// Reads a size text such as `100MB` or `1.5gb`, whatever its case.
pub fn parse_size_suffixed(size_str: &str) -> (r: Result<u64, RmzError>)
    ensures
        is_suffixed_size(r, uppercase(size_str@)),
{
    let upper = text::uppercase_of(size_str);
    parse_upper_size(upper.as_str())
}

} // verus!
