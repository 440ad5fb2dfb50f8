//! Sizes in words: bytes up to 1023, then tenths of the largest unit that
//! fits, in steps of 1024 up to the terabyte.
//!
//! The tenths are those of the size as a binary floating-point number of
//! 53 significant bits holds it, so that the words are the same as those
//! of a computation in such numbers. Up to 2^53 bytes that is the size
//! itself.

use crate::text::{self, decimal};
use vstd::prelude::*;

verus! {

pub const KIB: u64 = 1024;

pub const MIB: u64 = 1_048_576;

pub const GIB: u64 = 1_073_741_824;

pub const TIB: u64 = 1_099_511_627_776;

/// The unit that a size is written in: 1 for sizes below 1024 bytes, else
/// the largest of 1024, 1024², 1024³ and 1024⁴ that is not above the size.
pub open spec fn unit_of(bytes: u64) -> u64 {
    if bytes < KIB {
        1
    } else if bytes < MIB {
        KIB
    } else if bytes < GIB {
        MIB
    } else if bytes < TIB {
        GIB
    } else {
        TIB
    }
}

/// The name of a unit.
pub open spec fn unit_name(unit: u64) -> Seq<char> {
    if unit == KIB {
        "KB"@
    } else if unit == MIB {
        "MB"@
    } else if unit == GIB {
        "GB"@
    } else if unit == TIB {
        "TB"@
    } else {
        "B"@
    }
}

/// The largest size that 53 bits hold.
pub const EXACT_LIMIT: u64 = 0x20_0000_0000_0000;

/// `n / step`, rounded to the nearest whole number; a value half way
/// between two goes to the even one.
pub open spec fn nearest(n: int, step: int) -> int {
    let q = n / step;
    let r = n % step;
    if 2 * r > step || (2 * r == step && q % 2 == 1) {
        q + 1
    } else {
        q
    }
}

/// The step between the numbers of 53 significant bits around `bytes`:
/// one up to 2^53, and twice as much with each further bit.
pub open spec fn step_of(bytes: int) -> int
    decreases bytes,
{
    if bytes < EXACT_LIMIT {
        1
    } else {
        2 * step_of(bytes / 2)
    }
}

/// The number of 53 significant bits that is nearest to `bytes`; of two
/// that are equally near, the one whose last bit is zero.
pub open spec fn rounded(bytes: u64) -> int {
    nearest(bytes as int, step_of(bytes as int)) * step_of(bytes as int)
}

/// `bytes / unit` in tenths, rounded to the nearest tenth; a value half
/// way between two tenths goes to the even one.
pub open spec fn tenths(bytes: u64, unit: u64) -> int {
    nearest(rounded(bytes) * 10, unit as int)
}

/// A size in words: `512 B`, `1.5 KB`, `1.0 GB`.
pub open spec fn size_text(bytes: u64) -> Seq<char> {
    let unit = unit_of(bytes);
    if unit == 1 {
        decimal(bytes as nat) + " B"@
    } else {
        let t = tenths(bytes, unit);
        decimal((t / 10) as nat) + "."@ + decimal((t % 10) as nat) + " "@ + unit_name(unit)
    }
}

/// The number of 53 significant bits that is nearest to `bytes`.
pub fn round_to_53_bits(bytes: u64) -> (r: u128)
    ensures
        r == rounded(bytes),
        r <= 0x4_0000_0000_0000_0000,
        bytes < EXACT_LIMIT ==> r == bytes,
{
    let mut q: u64 = bytes;
    let mut step: u128 = 1;
    while q >= EXACT_LIMIT
        invariant
            1 <= step <= 4096,
            step_of(bytes as int) == step * step_of(q as int),
            q == bytes as int / (step as int),
            q * step <= bytes,
        decreases q,
    {
        proof {
            assert(q >= 0x20_0000_0000_0000);
            assert(step * 0x20_0000_0000_0000 <= q * step) by (nonlinear_arith)
                requires
                    q >= 0x20_0000_0000_0000,
                    step >= 1,
            ;
            assert(step < 2048) by (nonlinear_arith)
                requires
                    step * 0x20_0000_0000_0000 <= 0xffff_ffff_ffff_ffff,
                    1 <= step <= 4096,
            ;
            assert((bytes as int / (step as int)) / 2 == bytes as int / (2 * step as int))
                by (nonlinear_arith)
                requires
                    step >= 1,
            ;
            assert((q / 2) * (2 * step) <= q * step) by (nonlinear_arith)
                requires
                    step >= 1,
            ;
            assert(step * (2 * step_of(q as int / 2)) == (2 * step) * step_of(q as int / 2))
                by (nonlinear_arith);
        }
        q = q / 2;
        step = step * 2;
    }
    assert(step_of(q as int) == 1);
    let rest: u128 = bytes as u128 % step;
    proof {
        assert(rest == bytes as int - q * step) by (nonlinear_arith)
            requires
                rest == bytes as int % (step as int),
                q == bytes as int / (step as int),
                step >= 1,
        ;
        assert((q + 1) * step <= 0x20_0000_0000_0000 * 4096) by (nonlinear_arith)
            requires
                q < 0x20_0000_0000_0000,
                step <= 4096,
        ;
        assert(q * step <= (q + 1) * step) by (nonlinear_arith)
            requires
                step >= 1,
        ;
    }
    let up = 2 * rest > step || (2 * rest == step && q % 2 == 1);
    if up {
        (q as u128 + 1) * step
    } else {
        q as u128 * step
    }
}

/// Formats a size in bytes for reading.
pub fn format_size(bytes: u64) -> (r: String)
    ensures
        r@ == size_text(bytes),
{
    if bytes < KIB {
        let mut r = text::u64_to_text(bytes);
        r.append(" B");
        return r;
    }
    let (unit, name): (u64, &str) = if bytes < MIB {
        (KIB, "KB")
    } else if bytes < GIB {
        (MIB, "MB")
    } else if bytes < TIB {
        (GIB, "GB")
    } else {
        (TIB, "TB")
    };
    let n: u128 = round_to_53_bits(bytes) * 10;
    let q: u128 = n / unit as u128;
    let rem: u128 = n % unit as u128;
    let t: u128 = if 2 * rem > unit as u128 || (2 * rem == unit as u128 && q % 2 == 1) {
        q + 1
    } else {
        q
    };
    assert(t == tenths(bytes, unit));
    let mut r = text::u128_to_text(t / 10);
    r.append(".");
    r.append(text::u128_to_text(t % 10).as_str());
    r.append(" ");
    r.append(name);
    r
}

} // verus!
