use vstd::prelude::*;

verus! {

/// Number of fixed-point units per point. All page coordinates, sizes and
/// tolerances in this crate are i64 counts of thousandths of a point.
pub const SCALE: i64 = 1000;

/// Absolute value, saturating at i64::MAX for i64::MIN.
pub fn abs_i64(a: i64) -> (r: i64)
    ensures
        a == i64::MIN ==> r == i64::MAX,
        a != i64::MIN ==> r == if a < 0 { -a as int } else { a as int },
{
    if a == i64::MIN {
        i64::MAX
    } else if a < 0 {
        -a
    } else {
        a
    }
}

/// Euclidean (floor) division of a 128-bit value by a positive divisor.
pub fn div_floor_i128(p: i128, d: i128) -> (q: i128)
    requires
        d > 0,
        p > i128::MIN + d,
    ensures
        q == p as int / d as int,
{
    if p >= 0 {
        let pu: u128 = p as u128;
        let du: u128 = d as u128;
        let qu: u128 = pu / du;
        proof {
            assert(qu == pu as int / du as int);
            assert(pu as int / du as int == p as int / d as int);
            assert(qu <= pu);
        }
        qu as i128
    } else {
        let m: u128 = (-p) as u128;
        let du: u128 = d as u128;
        let qu: u128 = m / du;
        let ru: u128 = m % du;
        proof {
            vstd::arithmetic::div_mod::lemma_fundamental_div_mod(m as int, du as int);
        }
        if ru == 0 {
            proof {
                lemma_neg_div_exact(p as int, d as int, qu as int);
            }
            -(qu as i128)
        } else {
            proof {
                lemma_neg_div_round(p as int, d as int, qu as int, ru as int);
            }
            -(qu as i128) - 1
        }
    }
}

proof fn lemma_neg_div_exact(p: int, d: int, q: int)
    requires
        d > 0,
        p < 0,
        -p == q * d,
    ensures
        p / d == -q,
{
    assert(p == (-q) * d + 0) by (nonlinear_arith)
        requires -p == q * d;
    vstd::arithmetic::div_mod::lemma_fundamental_div_mod_converse(p, d, -q, 0);
}

proof fn lemma_neg_div_round(p: int, d: int, q: int, r: int)
    requires
        d > 0,
        p < 0,
        -p == q * d + r,
        0 < r < d,
    ensures
        p / d == -q - 1,
{
    assert(p == (-q - 1) * d + (d - r)) by (nonlinear_arith)
        requires -p == q * d + r;
    vstd::arithmetic::div_mod::lemma_fundamental_div_mod_converse(p, d, -q - 1, d - r);
}

/// The nearest representable i64 to a mathematical integer.
pub open spec fn sat64(x: int) -> int {
    if x > i64::MAX as int {
        i64::MAX as int
    } else if x < i64::MIN as int {
        i64::MIN as int
    } else {
        x
    }
}

/// Clamp a 128-bit value into the i64 range.
pub fn clamp64(p: i128) -> (r: i64)
    ensures
        r == sat64(p as int),
{
    if p > i64::MAX as i128 {
        i64::MAX
    } else if p < i64::MIN as i128 {
        i64::MIN
    } else {
        p as i64
    }
}

/// The product of two fixed-point values, rescaled: floor(a * b / SCALE),
/// clamped into the i64 range.
pub open spec fn fx_mul_spec(a: int, b: int) -> int {
    sat64((a * b) / (SCALE as int))
}

pub fn fx_mul(a: i64, b: i64) -> (r: i64)
    ensures
        r == fx_mul_spec(a as int, b as int),
{
    proof {
        lemma_i64_product_bounds(a as int, b as int);
    }
    let p: i128 = (a as i128) * (b as i128);
    let q: i128 = div_floor_i128(p, SCALE as i128);
    clamp64(q)
}

/// The product of two i64 values fits comfortably inside i128.
pub proof fn lemma_i64_product_bounds(a: int, b: int)
    requires
        i64::MIN <= a <= i64::MAX,
        i64::MIN <= b <= i64::MAX,
    ensures
        -(0x4000_0000_0000_0000_0000_0000_0000_0000) <= a * b
            <= 0x4000_0000_0000_0000_0000_0000_0000_0000,
{
    assert(-(0x4000_0000_0000_0000_0000_0000_0000_0000) <= a * b
        <= 0x4000_0000_0000_0000_0000_0000_0000_0000) by (nonlinear_arith)
        requires
            -0x8000_0000_0000_0000 <= a <= 0x7FFF_FFFF_FFFF_FFFF,
            -0x8000_0000_0000_0000 <= b <= 0x7FFF_FFFF_FFFF_FFFF;
}

/// Saturating addition of fixed-point values.
pub fn fx_add(a: i64, b: i64) -> (r: i64)
    ensures
        r == sat64(a as int + b as int),
{
    clamp64(a as i128 + b as i128)
}

/// Saturating subtraction of fixed-point values.
pub fn fx_sub(a: i64, b: i64) -> (r: i64)
    ensures
        r == sat64(a as int - b as int),
{
    clamp64(a as i128 - b as i128)
}

/// Saturating negation.
pub fn fx_neg(a: i64) -> (r: i64)
    ensures
        r == sat64(-(a as int)),
{
    if a == i64::MIN {
        i64::MAX
    } else {
        -a
    }
}

/// Floor of the square root of a 128-bit value, by binary search.
pub fn isqrt_u128(n: u128) -> (r: u64)
    ensures
        (r as int) * (r as int) <= n as int,
        n < (r as int + 1) * (r as int + 1),
{
    if n == 0 {
        return 0;
    }
    let mut lo: u128 = 0;
    let mut hi: u128 = 0x1_0000_0000_0000_0000;
    while hi - lo > 1
        invariant
            lo < hi <= 0x1_0000_0000_0000_0000,
            (lo as int) * (lo as int) <= n as int,
            n < (hi as int) * (hi as int),
        decreases hi - lo,
    {
        let mid: u128 = lo + (hi - lo) / 2;
        proof {
            assert((mid as int) * (mid as int) <= (0xFFFF_FFFF_FFFF_FFFF as int)
                * (0xFFFF_FFFF_FFFF_FFFF as int)) by (nonlinear_arith)
                requires 0 <= mid <= 0xFFFF_FFFF_FFFF_FFFF;
        }
        let sq: u128 = mid * mid;
        if sq <= n {
            lo = mid;
        } else {
            hi = mid;
        }
    }
    proof {
        assert(hi == lo + 1);
    }
    lo as u64
}

pub fn min_i64(a: i64, b: i64) -> (r: i64)
    ensures
        r == if a <= b { a } else { b },
{
    if a <= b { a } else { b }
}

pub fn max_i64(a: i64, b: i64) -> (r: i64)
    ensures
        r == if a >= b { a } else { b },
{
    if a >= b { a } else { b }
}

} // verus!
