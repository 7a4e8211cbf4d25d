//! Clamped integer coordinate arithmetic.
//!
//! Outline coordinates are integers in font design units.  Every
//! accumulation step clamps its result into `COORD_MIN..=COORD_MAX`, a
//! range several orders of magnitude wider than any real font's design
//! space, so that no input, however malformed, can cause an arithmetic
//! fault.  For every font whose coordinates stay inside the range — all
//! real ones — the clamp is the identity and the arithmetic is exact.

use vstd::prelude::*;

verus! {

/// Largest representable outline coordinate.
pub const COORD_MAX: i32 = 0x3FFF_FFFF;

/// Smallest representable outline coordinate.
pub const COORD_MIN: i32 = -0x3FFF_FFFF;

/// Whether `v` lies in the representable coordinate range.
pub open spec fn in_coord_range(v: int) -> bool {
    COORD_MIN <= v <= COORD_MAX
}

/// `v` clamped into the representable coordinate range.
pub open spec fn clamp_coord(v: int) -> int {
    if v > COORD_MAX {
        COORD_MAX as int
    } else if v < COORD_MIN {
        COORD_MIN as int
    } else {
        v
    }
}

/// The clamped sum of two coordinates.
pub open spec fn spec_cadd(a: int, b: int) -> int {
    clamp_coord(a + b)
}

/// Adds two coordinates, clamping the result into the coordinate range.
pub fn cadd(a: i32, b: i32) -> (r: i32)
    ensures
        r == spec_cadd(a as int, b as int),
        in_coord_range(r as int),
{
    let wide: i64 = a as i64 + b as i64;
    if wide > COORD_MAX as i64 {
        COORD_MAX
    } else if wide < COORD_MIN as i64 {
        COORD_MIN
    } else {
        wide as i32
    }
}

/// Clamps a widened intermediate value into the coordinate range.
pub fn clamp_wide(v: i64) -> (r: i32)
    ensures
        r == clamp_coord(v as int),
        in_coord_range(r as int),
{
    if v > COORD_MAX as i64 {
        COORD_MAX
    } else if v < COORD_MIN as i64 {
        COORD_MIN
    } else {
        v as i32
    }
}

/// The smaller of two coordinates.
pub fn cmin(a: i32, b: i32) -> (r: i32)
    ensures
        r == if a <= b {
            a
        } else {
            b
        },
{
    if a <= b {
        a
    } else {
        b
    }
}

/// The larger of two coordinates.
pub fn cmax(a: i32, b: i32) -> (r: i32)
    ensures
        r == if a >= b {
            a
        } else {
            b
        },
{
    if a >= b {
        a
    } else {
        b
    }
}

/// Clamping a value already in range is the identity; in particular the
/// clamped sum of two in-range values whose exact sum is in range is the
/// exact sum.
pub proof fn lemma_cadd_exact(a: int, b: int)
    requires
        in_coord_range(a + b),
    ensures
        spec_cadd(a, b) == a + b,
{
}

/// Euclidean (floor) division of a negated nonnegative value by a
/// positive divisor, in terms of the division of the value itself.
pub proof fn lemma_neg_div(m: int, d: int)
    requires
        m >= 0,
        d > 0,
    ensures
        (-m) / d == if m % d == 0 {
            -(m / d)
        } else {
            -(m / d) - 1
        },
{
    vstd::arithmetic::div_mod::lemma_fundamental_div_mod(m, d);
    let q = m / d;
    let r = m % d;
    if r == 0 {
        assert(-m == (-q) * d + 0) by (nonlinear_arith)
            requires
                m == d * q + r,
                r == 0,
        ;
        vstd::arithmetic::div_mod::lemma_fundamental_div_mod_converse(-m, d, -q, 0);
    } else {
        assert(-m == (-q - 1) * d + (d - r)) by (nonlinear_arith)
            requires
                m == d * q + r,
        ;
        vstd::arithmetic::div_mod::lemma_fundamental_div_mod_converse(-m, d, -q - 1, d - r);
    }
}

} // verus!
