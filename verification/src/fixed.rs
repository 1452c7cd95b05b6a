//! Fixed-point arithmetic shared by the geometry code.
//!
//! Lengths are held as whole numbers of thousandths: of a pixel on the
//! drawing surface, of a unit in the bin. The zoom factor is held the same way.
//! Values handed to the engine are `i64` within [`LIMIT`]; values derived from
//! them are `i128`, wide enough that no derivation overflows.

use vstd::prelude::*;

verus! {

/// Thousandths in one whole pixel, in one bin unit, and in a zoom factor of one.
pub const ONE: i64 = 1000;

/// Largest magnitude of a length handed to the engine, in thousandths.
pub const LIMIT: i64 = 4_000_000_000_000;

/// Whether `v` lies within the supported magnitude.
pub open spec fn in_limit(v: int) -> bool {
    -LIMIT <= v <= LIMIT
}

/// `v` moved to the nearest value within the supported magnitude.
pub open spec fn saturate(v: int) -> int {
    if v < -LIMIT {
        -LIMIT as int
    } else if v > LIMIT {
        LIMIT as int
    } else {
        v
    }
}

/// Executable form of [`in_limit`].
pub fn within_limit(v: i64) -> (ok: bool)
    ensures
        ok == in_limit(v as int),
{
    -LIMIT <= v && v <= LIMIT
}

/// Sum of two supported lengths, saturated at the supported magnitude.
pub fn saturating_sum(a: i64, b: i64) -> (s: i64)
    requires
        in_limit(a as int),
        -3 * LIMIT <= b <= 3 * LIMIT,
    ensures
        s == saturate(a + b),
        in_limit(s as int),
{
    let t: i64 = a + b;
    if t < -LIMIT {
        -LIMIT
    } else if t > LIMIT {
        LIMIT
    } else {
        t
    }
}

/// A whole number of pixels or units, in thousandths.
pub open spec fn whole(n: int) -> int {
    n * ONE
}

/// Executable form of [`whole`] for the sizes that a layout holds.
pub fn whole_of(n: i32) -> (v: i64)
    ensures
        v == whole(n as int),
        in_limit(v as int),
{
    (n as i64) * ONE
}

/// Quotient rounded towards negative infinity.
pub fn floor_div(a: i128, b: i128) -> (q: i128)
    requires
        b > 0,
    ensures
        q == a as int / b as int,
{
    if a >= 0 {
        a / b
    } else {
        let n: i128 = -(a + 1);
        let q: i128 = n / b;
        assert(a as int / b as int == -(q as int) - 1) by (nonlinear_arith)
            requires
                b > 0,
                n >= 0,
                a == -(n + 1),
                q == n / b,
        ;
        -q - 1
    }
}

/// `v * num / den`, rounded towards negative infinity.
pub open spec fn scaled(v: int, num: int, den: int) -> int {
    (v * num) / den
}

/// Bound on the factors that [`scale_by`] accepts: a product of two of them
/// fits in `i128` with room for sums.
pub const FACTOR_LIMIT: i128 = 1_000_000_000_000_000_000;

/// The magnitude of a scaled value is at most that of the product.
pub proof fn lemma_scaled_bound(v: int, num: int, den: int, bv: int, bn: int)
    requires
        -bv <= v <= bv,
        0 <= num <= bn,
        den >= 1,
    ensures
        -(bv * bn) <= scaled(v, num, den) <= bv * bn,
        -(bv * bn) <= v * num <= bv * bn,
{
    assert(-(bv * bn) <= v * num <= bv * bn) by (nonlinear_arith)
        requires
            -bv <= v <= bv,
            0 <= num <= bn,
    ;
    let p = v * num;
    assert(-(bv * bn) <= p / den <= bv * bn) by (nonlinear_arith)
        requires
            -(bv * bn) <= p <= bv * bn,
            den >= 1,
    ;
}

/// Executable form of [`scaled`].
pub fn scale_by(v: i128, num: i128, den: i128) -> (r: i128)
    requires
        -FACTOR_LIMIT <= v <= FACTOR_LIMIT,
        0 <= num <= FACTOR_LIMIT,
        1 <= den,
    ensures
        r == scaled(v as int, num as int, den as int),
        -(FACTOR_LIMIT * FACTOR_LIMIT) <= r <= FACTOR_LIMIT * FACTOR_LIMIT,
{
    proof {
        lemma_scaled_bound(v as int, num as int, den as int, FACTOR_LIMIT as int, FACTOR_LIMIT as int);
    }
    floor_div(v * num, den)
}

} // verus!
