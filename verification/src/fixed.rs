//! Fixed-point arithmetic in millionths.

use vstd::prelude::*;

verus! {

/// One whole unit, counted in millionths.
pub const MICRO: i64 = 1_000_000;

/// The largest magnitude of a product that [`scale`] accepts.
pub const MAX_PRODUCT: i128 = 1_000_000_000_000_000_000_000_000_000_000_000_000;

/// `value * factor / 1_000_000`, truncated toward zero.
///
/// With `factor` a time in microseconds this is the change that a rate of
/// `value` per second makes over that time; with `factor` a ratio in
/// millionths it is that share of `value`.
pub open spec fn scaled(value: int, factor: int) -> int {
    let product = value * factor;
    if product >= 0 {
        product / (MICRO as int)
    } else {
        -((-product) / (MICRO as int))
    }
}

/// The magnitude of `value`.
pub open spec fn magnitude(value: int) -> int {
    if value >= 0 {
        value
    } else {
        -value
    }
}

/// Computes [`scaled`].
pub fn scale(value: i128, factor: i128) -> (r: i128)
    requires
        -MAX_PRODUCT <= value * factor <= MAX_PRODUCT,
    ensures
        r == scaled(value as int, factor as int),
{
    let product: i128 = value * factor;
    product / (MICRO as i128)
}

/// A product is no larger than the product of the bounds of its factors.
pub proof fn lemma_product_bound(value: int, factor: int, value_max: int, factor_max: int)
    requires
        magnitude(value) <= value_max,
        0 <= factor <= factor_max,
    ensures
        -(value_max * factor_max) <= value * factor <= value_max * factor_max,
{
    assert(-(value_max * factor_max) <= value * factor <= value_max * factor_max)
        by (nonlinear_arith)
        requires
            -value_max <= value <= value_max,
            0 <= factor <= factor_max,
    ;
}

/// With a factor that is not negative, scaling keeps the sign of the value.
pub proof fn lemma_scaled_sign_of_value(value: int, factor: int)
    requires
        factor >= 0,
    ensures
        value >= 0 ==> scaled(value, factor) >= 0,
        value <= 0 ==> scaled(value, factor) <= 0,
{
    assert(value >= 0 ==> value * factor >= 0) by (nonlinear_arith)
        requires
            factor >= 0,
    ;
    assert(value <= 0 ==> value * factor <= 0) by (nonlinear_arith)
        requires
            factor >= 0,
    ;
}

/// Scaling by zero, or of zero, gives zero.
pub proof fn lemma_scaled_zero(value: int)
    ensures
        scaled(value, 0) == 0,
        scaled(0, value) == 0,
{
    assert(value * 0 == 0 && 0 * value == 0) by (nonlinear_arith);
}

/// A whole number of units is scaled without rounding.
pub proof fn lemma_scaled_whole(units: int, factor: int)
    ensures
        scaled(units * 1_000_000, factor) == units * factor,
{
    let whole = units * factor;
    assert((units * 1_000_000) * factor == whole * 1_000_000) by (nonlinear_arith)
        requires
            whole == units * factor,
    ;
}

/// A value whose scaled change is small is itself small, unless the factor is
/// zero: `|scaled(value, factor)| <= limit` and `factor >= 1` leave
/// `|value| < (limit + 1) * 1_000_000`.
pub proof fn lemma_scaled_inverse(value: int, factor: int, limit: int)
    requires
        factor >= 1,
        magnitude(scaled(value, factor)) <= limit,
    ensures
        magnitude(value) < (limit + 1) * 1_000_000,
{
    let product = value * factor;
    assert(magnitude(value) <= magnitude(product)) by (nonlinear_arith)
        requires
            factor >= 1,
            product == value * factor,
    ;
}

} // verus!
