//! Sample values as IEEE-754 binary64 bit patterns (the `f64::to_bits` of
//! the value), and the ordering of `f64::partial_cmp` read off those bits.

use vstd::prelude::*;

verus! {

/// Outcome of comparing two sample values, with unordered pairs
/// (where a NaN is involved) counted as equal.
#[derive(Debug, Clone, Copy, PartialEq, Eq, Structural)]
pub enum Comparison {
    Less,
    Equal,
    Greater,
}

pub open spec fn sign_bit(b: u64) -> bool {
    b >= 0x8000_0000_0000_0000
}

/// The bits below the sign bit: exponent and fraction.
pub open spec fn magnitude(b: u64) -> int {
    if sign_bit(b) {
        b - 0x8000_0000_0000_0000
    } else {
        b as int
    }
}

/// All exponent bits set and a non-zero fraction.
pub open spec fn is_nan(b: u64) -> bool {
    magnitude(b) > 0x7FF0_0000_0000_0000
}

/// Position of a non-NaN value on the number line: binary64 values of one
/// sign are ordered as their magnitudes; both zeros sit at 0.
pub open spec fn ordinal(b: u64) -> int {
    if sign_bit(b) {
        -magnitude(b)
    } else {
        magnitude(b)
    }
}

/// `a.partial_cmp(&b).unwrap_or(Equal)` for the values with bits `a`, `b`.
pub open spec fn value_cmp(a: u64, b: u64) -> Comparison {
    if is_nan(a) || is_nan(b) {
        Comparison::Equal
    } else if ordinal(a) < ordinal(b) {
        Comparison::Less
    } else if ordinal(a) == ordinal(b) {
        Comparison::Equal
    } else {
        Comparison::Greater
    }
}

/// `v > 0.0` for the value with bits `b`.
pub open spec fn is_above_zero(b: u64) -> bool {
    !is_nan(b) && ordinal(b) > 0
}

/// Compares two sample values as `f64::partial_cmp` does, with unordered
/// pairs counted as equal.
pub fn compare_values(a: u64, b: u64) -> (c: Comparison)
    ensures
        c == value_cmp(a, b),
{
    let sign: u64 = 0x8000_0000_0000_0000;
    let inf: u64 = 0x7FF0_0000_0000_0000;
    let ma = if a >= sign {
        a - sign
    } else {
        a
    };
    let mb = if b >= sign {
        b - sign
    } else {
        b
    };
    if ma > inf || mb > inf {
        return Comparison::Equal;
    }
    let na = a >= sign;
    let nb = b >= sign;
    if ma == 0 && mb == 0 {
        Comparison::Equal
    } else if na && !nb {
        Comparison::Less
    } else if !na && nb {
        Comparison::Greater
    } else if !na {
        if ma < mb {
            Comparison::Less
        } else if ma == mb {
            Comparison::Equal
        } else {
            Comparison::Greater
        }
    } else {
        if ma > mb {
            Comparison::Less
        } else if ma == mb {
            Comparison::Equal
        } else {
            Comparison::Greater
        }
    }
}

/// Whether the value with bits `b` is greater than zero.
pub fn above_zero(b: u64) -> (r: bool)
    ensures
        r == is_above_zero(b),
{
    let sign: u64 = 0x8000_0000_0000_0000;
    b < sign && b > 0 && b <= 0x7FF0_0000_0000_0000
}

/// On values that are not NaN, "greater than" is a strict weak order.
pub proof fn lemma_greater_is_strict_weak_order()
    ensures
        forall|a: u64| !is_nan(a) ==> value_cmp(a, a) != Comparison::Greater,
        forall|a: u64, b: u64, c: u64|
            !is_nan(a) && !is_nan(b) && !is_nan(c) && #[trigger] value_cmp(a, b)
                == Comparison::Greater && #[trigger] value_cmp(b, c) == Comparison::Greater
                ==> value_cmp(a, c) == Comparison::Greater,
        forall|a: u64, b: u64, c: u64|
            !is_nan(a) && !is_nan(b) && !is_nan(c) && #[trigger] value_cmp(a, c)
                == Comparison::Greater ==> value_cmp(a, b) == Comparison::Greater || #[trigger] value_cmp(
                b,
                c,
            ) == Comparison::Greater,
{
}

} // verus!
