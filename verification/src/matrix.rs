use vstd::prelude::*;
use crate::fx::{fx_mul, fx_add, fx_mul_spec, sat64, isqrt_u128, lemma_i64_product_bounds, SCALE};

verus! {

/// 2D affine transformation matrix stored as [a, b, c, d, e, f], in
/// fixed-point units (`fx::SCALE` units per 1.0).
///
/// Represents the matrix
/// ```text
/// [a  b  0]
/// [c  d  0]
/// [e  f  1]
/// ```
/// which maps a point (x, y) to (a*x + c*y + e, b*x + d*y + f).
#[derive(Debug, Clone, Copy, PartialEq, Eq, Structural)]
pub struct Matrix {
    pub a: i64,
    pub b: i64,
    pub c: i64,
    pub d: i64,
    pub e: i64,
    pub f: i64,
}

/// Saturating sum of two entries, as the contracts state it.
pub open spec fn sat_sum(x: int, y: int) -> int {
    sat64(x + y)
}

impl Matrix {
    pub open spec fn spec_new(a: int, b: int, c: int, d: int, e: int, f: int) -> Matrix {
        (Matrix {
            a: a as i64,
            b: b as i64,
            c: c as i64,
            d: d as i64,
            e: e as i64,
            f: f as i64,
        })
    }

    /// The identity transform (1.0 on the diagonal, in fixed-point units).
    pub open spec fn spec_identity() -> Matrix {
        (Matrix { a: SCALE, b: 0, c: 0, d: SCALE, e: 0, f: 0 })
    }

    /// A pure translation by (tx, ty).
    pub open spec fn spec_translate(tx: i64, ty: i64) -> Matrix {
        (Matrix { a: SCALE, b: 0, c: 0, d: SCALE, e: tx, f: ty })
    }

    /// A pure scaling by (sx, sy).
    pub open spec fn spec_scale(sx: i64, sy: i64) -> Matrix {
        (Matrix { a: sx, b: 0, c: 0, d: sy, e: 0, f: 0 })
    }

    /// The fixed-point product self * other (native concatenation order:
    /// self applies first, then other).
    pub open spec fn spec_mul(self, o: Matrix) -> Matrix {
        (Matrix {
            a: sat_sum(fx_mul_spec(self.a as int, o.a as int), fx_mul_spec(self.b as int, o.c as int)) as i64,
            b: sat_sum(fx_mul_spec(self.a as int, o.b as int), fx_mul_spec(self.b as int, o.d as int)) as i64,
            c: sat_sum(fx_mul_spec(self.c as int, o.a as int), fx_mul_spec(self.d as int, o.c as int)) as i64,
            d: sat_sum(fx_mul_spec(self.c as int, o.b as int), fx_mul_spec(self.d as int, o.d as int)) as i64,
            e: sat64(sat_sum(fx_mul_spec(self.e as int, o.a as int), fx_mul_spec(self.f as int, o.c as int)) + o.e) as i64,
            f: sat64(sat_sum(fx_mul_spec(self.e as int, o.b as int), fx_mul_spec(self.f as int, o.d as int)) + o.f) as i64,
        })
    }

    pub fn new(a: i64, b: i64, c: i64, d: i64, e: i64, f: i64) -> (m: Matrix)
        ensures
            m == (Matrix { a, b, c, d, e, f }),
    {
        Matrix { a, b, c, d, e, f }
    }

    pub fn identity() -> (m: Matrix)
        ensures
            m == Matrix::spec_identity(),
    {
        Matrix { a: SCALE, b: 0, c: 0, d: SCALE, e: 0, f: 0 }
    }

    pub fn translate(tx: i64, ty: i64) -> (m: Matrix)
        ensures
            m == Matrix::spec_translate(tx, ty),
    {
        Matrix { a: SCALE, b: 0, c: 0, d: SCALE, e: tx, f: ty }
    }

    pub fn scale(sx: i64, sy: i64) -> (m: Matrix)
        ensures
            m == Matrix::spec_scale(sx, sy),
    {
        Matrix { a: sx, b: 0, c: 0, d: sy, e: 0, f: 0 }
    }

    /// Concatenate this matrix with another: self * other.
    pub fn multiply(&self, other: &Matrix) -> (m: Matrix)
        ensures
            m == self.spec_mul(*other),
    {
        Matrix {
            a: fx_add(fx_mul(self.a, other.a), fx_mul(self.b, other.c)),
            b: fx_add(fx_mul(self.a, other.b), fx_mul(self.b, other.d)),
            c: fx_add(fx_mul(self.c, other.a), fx_mul(self.d, other.c)),
            d: fx_add(fx_mul(self.c, other.b), fx_mul(self.d, other.d)),
            e: fx_add(fx_add(fx_mul(self.e, other.a), fx_mul(self.f, other.c)), other.e),
            f: fx_add(fx_add(fx_mul(self.e, other.b), fx_mul(self.f, other.d)), other.f),
        }
    }

    /// Transform a point (x, y) by this matrix.
    pub fn transform_point(&self, x: i64, y: i64) -> (p: (i64, i64))
        ensures
            p.0 == sat64(sat_sum(fx_mul_spec(self.a as int, x as int), fx_mul_spec(self.c as int, y as int)) + self.e),
            p.1 == sat64(sat_sum(fx_mul_spec(self.b as int, x as int), fx_mul_spec(self.d as int, y as int)) + self.f),
    {
        (
            fx_add(fx_add(fx_mul(self.a, x), fx_mul(self.c, y)), self.e),
            fx_add(fx_add(fx_mul(self.b, x), fx_mul(self.d, y)), self.f),
        )
    }

    /// The effective font size of a text rendering matrix: the Euclidean
    /// length of the y-basis vector, floor(sqrt(b^2 + d^2)), saturated.
    pub fn font_size(&self) -> (r: i64)
        ensures
            r >= 0,
            (r as int) * (r as int) <= (self.b as int) * (self.b as int) + (self.d as int) * (self.d as int),
            r < i64::MAX ==> (self.b as int) * (self.b as int) + (self.d as int) * (self.d as int)
                < (r as int + 1) * (r as int + 1),
    {
        proof {
            lemma_i64_product_bounds(self.b as int, self.b as int);
            lemma_i64_product_bounds(self.d as int, self.d as int);
            assert((self.b as int) * (self.b as int) >= 0) by (nonlinear_arith);
            assert((self.d as int) * (self.d as int) >= 0) by (nonlinear_arith);
        }
        let bb: i128 = (self.b as i128) * (self.b as i128);
        let dd: i128 = (self.d as i128) * (self.d as i128);
        let sq: u128 = (bb as u128) + (dd as u128);
        let root: u64 = isqrt_u128(sq);
        let r: i64 = if root > i64::MAX as u64 { i64::MAX } else { root as i64 };
        proof {
            if r < i64::MAX {
                assert(root == r);
            }
            assert((r as int) * (r as int) <= (root as int) * (root as int)) by (nonlinear_arith)
                requires 0 <= r <= root;
        }
        r
    }

    /// Whether this matrix draws text upright (no rotation component at the
    /// resolution of the fixed-point grid).
    pub fn is_upright(&self) -> (r: bool)
        ensures
            r == (self.b == 0 && self.c == 0),
    {
        self.b == 0 && self.c == 0
    }

    /// The entries as an array [a, b, c, d, e, f].
    pub fn as_array(&self) -> (r: [i64; 6])
        ensures
            r[0] == self.a && r[1] == self.b && r[2] == self.c
                && r[3] == self.d && r[4] == self.e && r[5] == self.f,
    {
        [self.a, self.b, self.c, self.d, self.e, self.f]
    }
}

impl Default for Matrix {
    fn default() -> (m: Self)
        ensures
            m == Matrix::spec_identity(),
    {
        Matrix::identity()
    }
}

/// Multiplying by an integer multiple of the unit scale is exact.
proof fn lemma_fx_mul_unit(a: int)
    requires
        i64::MIN <= a <= i64::MAX,
    ensures
        fx_mul_spec(a, SCALE as int) == a,
        fx_mul_spec(SCALE as int, a) == a,
        fx_mul_spec(a, 0) == 0,
        fx_mul_spec(0, a) == 0,
{
    assert(a * (SCALE as int) / (SCALE as int) == a) by (nonlinear_arith)
        requires i64::MIN <= a <= i64::MAX;
    assert((SCALE as int) * a == a * (SCALE as int)) by (nonlinear_arith);
    assert(a * 0 == 0) by (nonlinear_arith);
    assert(0 * a == 0) by (nonlinear_arith);
    assert(0int / (SCALE as int) == 0) by (nonlinear_arith);
}

/// The identity matrix is neutral for concatenation, on both sides.
pub proof fn lemma_identity_neutral(m: Matrix)
    ensures
        Matrix::spec_identity().spec_mul(m) == m,
        m.spec_mul(Matrix::spec_identity()) == m,
{
    lemma_fx_mul_unit(m.a as int);
    lemma_fx_mul_unit(m.b as int);
    lemma_fx_mul_unit(m.c as int);
    lemma_fx_mul_unit(m.d as int);
    lemma_fx_mul_unit(m.e as int);
    lemma_fx_mul_unit(m.f as int);
}

/// Two translations concatenate to the translation by the (saturated)
/// component-wise sum of their offsets.
pub proof fn lemma_translate_compose(tx: i64, ty: i64, ux: i64, uy: i64)
    ensures
        Matrix::spec_translate(tx, ty).spec_mul(Matrix::spec_translate(ux, uy))
            == Matrix::spec_translate(sat64(tx as int + ux as int) as i64, sat64(ty as int + uy as int) as i64),
{
    lemma_fx_mul_unit(tx as int);
    lemma_fx_mul_unit(ty as int);
    lemma_fx_mul_unit(SCALE as int);
}

} // verus!
