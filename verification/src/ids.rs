//! Identifiers of held files: 128-bit numbers, written as 32 hexadecimal
//! digits in five groups.

use vstd::arithmetic::power::pow;
use vstd::prelude::*;

verus! {

/// The lowercase hexadecimal digit for `d`, where `d` is below sixteen.
pub open spec fn hex_char(d: int) -> char {
    if d < 10 {
        ('0' as int + d) as char
    } else {
        ('a' as int + (d - 10)) as char
    }
}

/// The `k`-th of the 32 hexadecimal digits of `id`, counted from the most
/// significant one.
pub open spec fn hex_digit(id: u128, k: int) -> int {
    (id as int / pow(16, (31 - k) as nat)) % 16
}

/// Whether position `i` of an identifier's text holds a hyphen.
pub open spec fn is_hyphen_position(i: int) -> bool {
    i == 8 || i == 13 || i == 18 || i == 23
}

/// How many hyphens stand before position `i` of an identifier's text.
pub open spec fn hyphens_before(i: int) -> int {
    if i > 23 {
        4
    } else if i > 18 {
        3
    } else if i > 13 {
        2
    } else if i > 8 {
        1
    } else {
        0
    }
}

/// The text of an identifier: its 32 lowercase hexadecimal digits in groups
/// of 8, 4, 4, 4 and 12, with hyphens between the groups.
pub open spec fn id_text(id: u128) -> Seq<char> {
    Seq::new(
        36,
        |i: int|
            if is_hyphen_position(i) {
                '-'
            } else {
                hex_char(hex_digit(id, i - hyphens_before(i)))
            },
    )
}

/// Two identifiers with the same digits from the `j`-th on upward are the
/// same from there on upward.
proof fn lemma_same_digits(a: u128, b: u128, j: nat)
    requires
        j <= 32,
        forall|k: int| 0 <= k < 32 ==> hex_digit(a, k) == hex_digit(b, k),
    ensures
        a as int / pow(16, j) == b as int / pow(16, j),
    decreases 32 - j,
{
    if j == 32 {
        assert(pow(16, 32) == 0x1_0000_0000_0000_0000_0000_0000_0000_0000) by {
            reveal_with_fuel(pow, 33);
        }
        vstd::arithmetic::div_mod::lemma_basic_div(a as int, pow(16, 32));
        vstd::arithmetic::div_mod::lemma_basic_div(b as int, pow(16, 32));
    } else {
        lemma_same_digits(a, b, j + 1);
        let p = pow(16, j);
        vstd::arithmetic::power::lemma_pow_positive(16, j);
        assert(pow(16, j + 1) == 16 * p) by {
            reveal(pow);
        }
        assert(p * 16 == 16 * p) by (nonlinear_arith);
        vstd::arithmetic::div_mod::lemma_div_denominator(a as int, p, 16);
        vstd::arithmetic::div_mod::lemma_div_denominator(b as int, p, 16);
        let x = a as int / p;
        let y = b as int / p;
        assert(x / 16 == y / 16);
        assert(x % 16 == y % 16) by {
            assert(hex_digit(a, 31 - j) == hex_digit(b, 31 - j));
            assert((31 - (31 - j)) as nat == j);
        }
        vstd::arithmetic::div_mod::lemma_fundamental_div_mod(x, 16);
        vstd::arithmetic::div_mod::lemma_fundamental_div_mod(y, 16);
    }
}

/// The position in an identifier's text of its `k`-th digit.
pub open spec fn digit_position(k: int) -> int {
    if k < 8 {
        k
    } else if k < 12 {
        k + 1
    } else if k < 16 {
        k + 2
    } else if k < 20 {
        k + 3
    } else {
        k + 4
    }
}

/// Two identifiers with the same text are the same identifier.
pub proof fn lemma_id_text_tells_id(a: u128, b: u128)
    requires
        id_text(a) == id_text(b),
    ensures
        a == b,
{
    assert forall|k: int| 0 <= k < 32 implies hex_digit(a, k) == hex_digit(b, k) by {
        let i = digit_position(k);
        assert(!is_hyphen_position(i) && i - hyphens_before(i) == k);
        assert(id_text(a)[i] == hex_char(hex_digit(a, k)));
        assert(id_text(b)[i] == hex_char(hex_digit(b, k)));
        let x = hex_digit(a, k);
        let y = hex_digit(b, k);
        assert(0 <= x < 16 && 0 <= y < 16);
        assert(hex_char(x) as int == if x < 10 {
            48 + x
        } else {
            87 + x
        });
        assert(hex_char(y) as int == if y < 10 {
            48 + y
        } else {
            87 + y
        });
    }
    lemma_same_digits(a, b, 0);
    assert(pow(16, 0) == 1) by {
        reveal(pow);
    }
}

/// The identifier that a text denotes, in any of the notations that
/// `uuid::Uuid::parse_str` reads; `None` for any other text.
pub uninterp spec fn parsed_id(text: Seq<char>) -> Option<u128>;

/// `uuid::Uuid::from_u128` and the `Display` of `Uuid`: the hyphenated
/// lowercase text of the identifier.
#[verifier::external_body]
pub(crate) fn id_to_text(id: u128) -> (r: String)
    ensures
        r@ == id_text(id),
{
    uuid::Uuid::from_u128(id).to_string()
}

/// `uuid::Uuid::parse_str` and `Uuid::as_u128`: the identifier that the
/// text denotes, if it denotes one.
#[verifier::external_body]
pub(crate) fn parse_id(text: &str) -> (r: Option<u128>)
    ensures
        r == parsed_id(text@),
{
    uuid::Uuid::parse_str(text).ok().map(|id| id.as_u128())
}

/// The bits that mark an identifier as randomly generated.
pub const RANDOM_ID_MASK: u128 = 0x0000_0000_0000_F000_C000_0000_0000_0000;

/// The value of those bits in a randomly generated identifier.
pub const RANDOM_ID_BITS: u128 = 0x0000_0000_0000_4000_8000_0000_0000_0000;

/// `uuid::Uuid::new_v4` and `Uuid::as_u128`: a fresh random identifier.
/// Its version and variant bits are fixed; the rest is left open.
#[verifier::external_body]
pub(crate) fn fresh_id() -> (id: u128)
    ensures
        id & RANDOM_ID_MASK == RANDOM_ID_BITS,
{
    uuid::Uuid::new_v4().as_u128()
}

/// The text of an identifier.
pub fn format_id(id: u128) -> (r: String)
    ensures
        r@ == id_text(id),
        r@.len() == 36,
{
    id_to_text(id)
}

} // verus!
