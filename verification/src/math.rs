pub mod array;
pub mod fixed;
pub mod matrix;
pub mod trig;

use vstd::prelude::*;

use crate::math::array::Array;
use crate::math::fixed::SCALE;
use crate::math::fixed::TOLERANCE;
use crate::math::fixed::isqrt;
use crate::math::fixed::lemma_sqrt_floor;
use crate::math::fixed::lemma_tdiv_abs_le;
use crate::math::fixed::lemma_tdiv_between;
use crate::math::fixed::lemma_tdiv_exact;
use crate::math::fixed::sqrt_floor;
use crate::math::fixed::tdiv;
use crate::math::matrix::Matrix;
use crate::math::matrix::dot4;
use crate::math::matrix::entries_bounded;
use crate::math::matrix::product_entry;
use crate::math::matrix::vector_bounded;
use crate::math::trig::cos_deg;
use crate::math::trig::cos_half;
use crate::math::trig::cos_half_deg;
use crate::math::trig::cos_of_deg;
use crate::math::trig::lemma_cos_half_range;
use crate::math::trig::lemma_sin_cos_norm;
use crate::math::trig::lemma_sin_half_range;
use crate::math::trig::sin_deg;
use crate::math::trig::sin_half;
use crate::math::trig::sin_half_deg;
use crate::math::trig::sin_of_deg;

verus! {

/// The vector type of the engine: four fixed-point components.
pub type Array4 = Array;

/// The matrix type of the engine: four columns of four fixed-point
/// components.
pub type Matrix4 = Matrix<4>;

/// Magnitude bound (4000 whole units) under which every fixed-point product
/// here is free of overflow.
pub const FIXED_MAX: i64 = 4_000_000_000_000;

/// A scalar product of two values in fixed-point: the raw product carries a
/// square of the scale, so one scale is divided back out.
pub open spec fn fmul(a: int, b: int) -> int {
    tdiv(a * b, SCALE as int)
}

/// Component `i` of the fixed-point matrix-vector product.
pub open spec fn fixed_product_entry(m: Seq<Seq<i64>>, v: Seq<i64>, i: int) -> int {
    tdiv(product_entry(m, v, i), SCALE as int)
}

/// Two scalars within the near-equality tolerance of each other.
pub open spec fn within_tol(x: i64, y: i64) -> bool {
    -(TOLERANCE as int) < x - y < TOLERANCE as int
}

/// Componentwise near-equality of two vectors.
pub open spec fn vec_almost_eq(a: Seq<i64>, b: Seq<i64>) -> bool {
    within_tol(a[0], b[0]) && within_tol(a[1], b[1]) && within_tol(a[2], b[2]) && within_tol(
        a[3],
        b[3],
    )
}

/// Columnwise near-equality of two matrices.
pub open spec fn mat_almost_eq(a: Seq<Seq<i64>>, b: Seq<Seq<i64>>) -> bool {
    vec_almost_eq(a[0], b[0]) && vec_almost_eq(a[1], b[1]) && vec_almost_eq(a[2], b[2])
        && vec_almost_eq(a[3], b[3])
}

/// The squared Euclidean norm of the first three components.
pub open spec fn norm_sq3(v: Seq<i64>) -> int {
    v[0] * v[0] + v[1] * v[1] + v[2] * v[2]
}

/// The fixed-point cross product of the first three components; the last
/// component of the result is zero (a direction).
pub open spec fn cross_of(x: Seq<i64>, y: Seq<i64>) -> Seq<int> {
    seq![
        fmul(x[1] as int, y[2] as int) - fmul(x[2] as int, y[1] as int),
        fmul(x[2] as int, y[0] as int) - fmul(x[0] as int, y[2] as int),
        fmul(x[0] as int, y[1] as int) - fmul(x[1] as int, y[0] as int),
        0,
    ]
}

proof fn lemma_bounded_product(a: int, b: int) by (nonlinear_arith)
    requires
        -(FIXED_MAX as int) <= a <= FIXED_MAX as int,
        -(FIXED_MAX as int) <= b <= FIXED_MAX as int,
    ensures
        -16_000_000_000_000_000_000_000_000 <= a * b <= 16_000_000_000_000_000_000_000_000,
{
}

/// The fixed-point product of two bounded scalars, exact to `fmul`.
pub fn fixed_mul(a: i64, b: i64) -> (r: i64)
    requires
        -FIXED_MAX <= a <= FIXED_MAX,
        -FIXED_MAX <= b <= FIXED_MAX,
    ensures
        r as int == fmul(a as int, b as int),
        -16_000_000_000_000_000 <= r <= 16_000_000_000_000_000,
{
    proof {
        lemma_bounded_product(a as int, b as int);
        assert((-16_000_000_000_000_000int) * (SCALE as int)
            == -16_000_000_000_000_000_000_000_000) by (nonlinear_arith);
        assert((16_000_000_000_000_000int) * (SCALE as int) == 16_000_000_000_000_000_000_000_000)
            by (nonlinear_arith);
        lemma_tdiv_between(
            (a as int) * (b as int),
            SCALE as int,
            -16_000_000_000_000_000,
            16_000_000_000_000_000,
        );
    }
    (((a as i128) * (b as i128)) / (SCALE as i128)) as i64
}

impl Array {
    /// Componentwise near-equality within the documented tolerance.
    pub fn almost_eq(&self, other: &Array) -> (r: bool)
        ensures
            r == vec_almost_eq(self@, other@),
    {
        let d0 = self.0[0] as i128 - other.0[0] as i128;
        let d1 = self.0[1] as i128 - other.0[1] as i128;
        let d2 = self.0[2] as i128 - other.0[2] as i128;
        let d3 = self.0[3] as i128 - other.0[3] as i128;
        let t = TOLERANCE as i128;
        -t < d0 && d0 < t && -t < d1 && d1 < t && -t < d2 && d2 < t && -t < d3 && d3 < t
    }

    /// Every component multiplied by the fixed-point scalar `k` (one scale
    /// divided back out).
    pub fn scale_fixed(&self, k: i64) -> (r: Array)
        requires
            vector_bounded(self@, FIXED_MAX as int),
            -FIXED_MAX <= k <= FIXED_MAX,
        ensures
            forall|i: int| 0 <= i < 4 ==> r@[i] == fmul(self@[i] as int, k as int),
    {
        Array(
            [
                fixed_mul(self.0[0], k),
                fixed_mul(self.0[1], k),
                fixed_mul(self.0[2], k),
                fixed_mul(self.0[3], k),
            ],
        )
    }

    /// Scale the first three components to unit length. A vector whose first
    /// three components are all zero has no direction: it is left unchanged,
    /// by design. The fourth (homogeneous) component is never touched.
    pub fn normalize(&mut self)
        requires
            vector_bounded(old(self)@, FIXED_MAX as int),
        ensures
            norm_sq3(old(self)@) == 0 ==> final(self)@ == old(self)@,
            norm_sq3(old(self)@) > 0 ==> {
                let root = sqrt_floor(norm_sq3(old(self)@) as nat) as int;
                &&& final(self)@[0] == tdiv(old(self)@[0] * SCALE, root)
                &&& final(self)@[1] == tdiv(old(self)@[1] * SCALE, root)
                &&& final(self)@[2] == tdiv(old(self)@[2] * SCALE, root)
                &&& final(self)@[3] == old(self)@[3]
            },
            norm_sq3(old(self)@) > 0 ==> forall|i: int|
                0 <= i < 3 ==> -SCALE <= #[trigger] final(self)@[i] <= SCALE,
    {
        proof {
            lemma_bounded_product(self@[0] as int, self@[0] as int);
            lemma_bounded_product(self@[1] as int, self@[1] as int);
            lemma_bounded_product(self@[2] as int, self@[2] as int);
            assert(self@[0] * self@[0] >= 0) by (nonlinear_arith);
            assert(self@[1] * self@[1] >= 0) by (nonlinear_arith);
            assert(self@[2] * self@[2] >= 0) by (nonlinear_arith);
        }
        let x = self.0[0] as i128;
        let y = self.0[1] as i128;
        let z = self.0[2] as i128;
        let n = x * x + y * y + z * z;
        if n == 0 {
            return ;
        }
        proof {
            assert((n as u128) < 0x8000_0000_0000_0000 * 0x8000_0000_0000_0000)
                by (nonlinear_arith)
                requires
                    0 < n <= 48_000_000_000_000_000_000_000_000,
            ;
        }
        let root = isqrt(n as u128);
        proof {
            lemma_sqrt_floor(n as nat);
            lemma_normalize_component(self@[0] as int, n as int, root as int);
            lemma_normalize_component(self@[1] as int, n as int, root as int);
            lemma_normalize_component(self@[2] as int, n as int, root as int);
        }
        let r = root as i128;
        let s = SCALE as i128;
        self.0[0] = ((x * s) / r) as i64;
        self.0[1] = ((y * s) / r) as i64;
        self.0[2] = ((z * s) / r) as i64;
    }
}

/// A component divided by the root of a norm that dominates its square stays
/// within one scale.
proof fn lemma_normalize_component(x: int, n: int, root: int)
    requires
        x * x <= n,
        n > 0,
        root * root <= n < (root + 1) * (root + 1),
    ensures
        root >= 1,
        -(SCALE as int) <= tdiv(x * SCALE, root) <= SCALE as int,
{
    assert(root >= 1) by (nonlinear_arith)
        requires
            n > 0,
            n < (root + 1) * (root + 1),
            root * root <= n,
    ;
    assert(-root <= x <= root) by (nonlinear_arith)
        requires
            x * x <= n,
            n < (root + 1) * (root + 1),
            root >= 0,
    ;
    assert(-(root * SCALE) <= x * SCALE <= root * SCALE) by (nonlinear_arith)
        requires
            -root <= x <= root,
    ;
    assert((-(SCALE as int)) * root == -(root * SCALE) && (SCALE as int) * root == root * SCALE)
        by (nonlinear_arith);
    lemma_tdiv_between(x * SCALE, root, -(SCALE as int), SCALE as int);
}

/// The fixed-point cross product of the first three components of `x` and
/// `y`; the result is a direction (last component zero).
pub fn cross(x: &Array, y: &Array) -> (r: Array)
    requires
        vector_bounded(x@, FIXED_MAX as int),
        vector_bounded(y@, FIXED_MAX as int),
    ensures
        forall|i: int| 0 <= i < 4 ==> r@[i] == cross_of(x@, y@)[i],
{
    let r = Array(
        [
            fixed_mul(x.0[1], y.0[2]) - fixed_mul(x.0[2], y.0[1]),
            fixed_mul(x.0[2], y.0[0]) - fixed_mul(x.0[0], y.0[2]),
            fixed_mul(x.0[0], y.0[1]) - fixed_mul(x.0[1], y.0[0]),
            0,
        ],
    );
    proof {
        assert(r@[0] == cross_of(x@, y@)[0]);
        assert(r@[1] == cross_of(x@, y@)[1]);
        assert(r@[2] == cross_of(x@, y@)[2]);
        assert(r@[3] == cross_of(x@, y@)[3]);
    }
    r
}

/// The fixed-point reciprocal of `k` as a value: one square unit divided by
/// `k`, with the sign handled apart.
pub open spec fn recip_val(k: int) -> int {
    if k > 0 {
        tdiv((SCALE as int) * (SCALE as int), k)
    } else {
        -tdiv((SCALE as int) * (SCALE as int), -k)
    }
}

/// The fixed-point reciprocal of `k`: one square unit divided by `k`.
pub fn recip_fixed(k: i64) -> (r: i64)
    requires
        k != 0,
    ensures
        r as int == recip_val(k as int),
{
    let s2: i128 = (SCALE as i128) * (SCALE as i128);
    proof {
        assert((SCALE as int) * (SCALE as int) == 1_000_000_000_000_000_000) by (nonlinear_arith);
        if k > 0 {
            lemma_tdiv_abs_le(s2 as int, k as int, 1_000_000_000_000_000_000);
        } else {
            lemma_tdiv_abs_le(s2 as int, -(k as int), 1_000_000_000_000_000_000);
        }
    }
    if k > 0 {
        (s2 / (k as i128)) as i64
    } else {
        let q = s2 / (-(k as i128));
        (-q) as i64
    }
}

impl Matrix<4> {
    /// The transpose: rows and columns swapped, as a new matrix.
    pub fn trans(&self) -> (r: Matrix<4>)
        ensures
            forall|j: int, i: int| 0 <= j < 4 && 0 <= i < 4 ==> r@[j][i] == self@[i][j],
    {
        Matrix(
            [
                Array([self.0[0].0[0], self.0[1].0[0], self.0[2].0[0], self.0[3].0[0]]),
                Array([self.0[0].0[1], self.0[1].0[1], self.0[2].0[1], self.0[3].0[1]]),
                Array([self.0[0].0[2], self.0[1].0[2], self.0[2].0[2], self.0[3].0[2]]),
                Array([self.0[0].0[3], self.0[1].0[3], self.0[2].0[3], self.0[3].0[3]]),
            ],
        )
    }

    /// Columnwise near-equality within the documented tolerance.
    pub fn almost_eq(&self, other: &Matrix<4>) -> (r: bool)
        ensures
            r == mat_almost_eq(self@, other@),
    {
        self.0[0].almost_eq(&other.0[0]) && self.0[1].almost_eq(&other.0[1])
            && self.0[2].almost_eq(&other.0[2]) && self.0[3].almost_eq(&other.0[3])
    }

    /// The fixed-point identity matrix: one whole unit on the diagonal.
    pub fn identity() -> (r: Matrix<4>)
        ensures
            r@ =~~= identity_fixed(),
    {
        Matrix(
            [
                Array([SCALE, 0, 0, 0]),
                Array([0, SCALE, 0, 0]),
                Array([0, 0, SCALE, 0]),
                Array([0, 0, 0, SCALE]),
            ],
        )
    }

    /// Fixed-point matrix-vector product: each entry of the exact product
    /// carries a square of the scale, so one scale is divided back out.
    pub fn mul_vec_fixed(&self, rhs: &Array) -> (r: Array)
        requires
            entries_bounded(self@, FIXED_MAX as int),
            vector_bounded(rhs@, FIXED_MAX as int),
        ensures
            forall|i: int| 0 <= i < 4 ==> r@[i] == fixed_product_entry(self@, rhs@, i),
    {
        proof {
            lemma_mat_vec_bounds(self@, rhs@);
            assert forall|k: int, i: int| 0 <= k < 4 && 0 <= i < 4 implies -(FIXED_MAX as int)
                <= #[trigger] self.0@[k].0@[i] <= FIXED_MAX as int by {
                assert(self@[k][i] == self.0@[k].0@[i]);
            }
            assert forall|i: int| 0 <= i < 4 implies -(FIXED_MAX as int) <= #[trigger] rhs.0@[i]
                <= FIXED_MAX as int by {
                assert(rhs@[i] == rhs.0@[i]);
            }
        }
        let e0 = dot4(
            self.0[0].0[0],
            self.0[1].0[0],
            self.0[2].0[0],
            self.0[3].0[0],
            rhs.0[0],
            rhs.0[1],
            rhs.0[2],
            rhs.0[3],
        );
        let e1 = dot4(
            self.0[0].0[1],
            self.0[1].0[1],
            self.0[2].0[1],
            self.0[3].0[1],
            rhs.0[0],
            rhs.0[1],
            rhs.0[2],
            rhs.0[3],
        );
        let e2 = dot4(
            self.0[0].0[2],
            self.0[1].0[2],
            self.0[2].0[2],
            self.0[3].0[2],
            rhs.0[0],
            rhs.0[1],
            rhs.0[2],
            rhs.0[3],
        );
        let e3 = dot4(
            self.0[0].0[3],
            self.0[1].0[3],
            self.0[2].0[3],
            self.0[3].0[3],
            rhs.0[0],
            rhs.0[1],
            rhs.0[2],
            rhs.0[3],
        );
        proof {
            assert(e0 == product_entry(self@, rhs@, 0));
            assert(e1 == product_entry(self@, rhs@, 1));
            assert(e2 == product_entry(self@, rhs@, 2));
            assert(e3 == product_entry(self@, rhs@, 3));
        }
        let s = SCALE as i128;
        Array([(e0 / s) as i64, (e1 / s) as i64, (e2 / s) as i64, (e3 / s) as i64])
    }

    /// Fixed-point matrix-matrix product: `self` applied to each column of
    /// `rhs`, with one scale divided back out of each entry.
    pub fn mul_fixed(&self, rhs: &Matrix<4>) -> (r: Matrix<4>)
        requires
            entries_bounded(self@, FIXED_MAX as int),
            entries_bounded(rhs@, FIXED_MAX as int),
        ensures
            forall|j: int, i: int|
                0 <= j < 4 && 0 <= i < 4 ==> r@[j][i] == fixed_product_entry(self@, rhs@[j], i),
    {
        proof {
            assert forall|k: int, i: int| 0 <= k < 4 && 0 <= i < 4 implies -(FIXED_MAX as int)
                <= #[trigger] rhs.0@[k].0@[i] <= FIXED_MAX as int by {
                assert(rhs@[k][i] == rhs.0@[k].0@[i]);
            }
        }
        let c0 = self.mul_vec_fixed(&rhs.0[0]);
        let c1 = self.mul_vec_fixed(&rhs.0[1]);
        let c2 = self.mul_vec_fixed(&rhs.0[2]);
        let c3 = self.mul_vec_fixed(&rhs.0[3]);
        let r = Matrix([c0, c1, c2, c3]);
        proof {
            assert forall|j: int, i: int| 0 <= j < 4 && 0 <= i < 4 implies r@[j][i]
                == fixed_product_entry(self@, rhs@[j], i) by {
                assert(rhs@[j] == rhs.0@[j]@);
                if j == 0 {
                    assert(r@[0][i] == fixed_product_entry(self@, rhs.0@[0]@, i));
                } else if j == 1 {
                    assert(r@[1][i] == fixed_product_entry(self@, rhs.0@[1]@, i));
                } else if j == 2 {
                    assert(r@[2][i] == fixed_product_entry(self@, rhs.0@[2]@, i));
                } else {
                    assert(r@[3][i] == fixed_product_entry(self@, rhs.0@[3]@, i));
                }
            }
        }
        r
    }
}

/// The fixed-point identity matrix as a value.
pub open spec fn identity_fixed() -> Seq<Seq<i64>> {
    Seq::new(4, |j: int| Seq::new(4, |i: int| if i == j { SCALE } else { 0i64 }))
}

/// Bounds feeding a fixed-point product: the exact entries fit the dot
/// accumulator and the rescaled entries fit an `i64`.
proof fn lemma_mat_vec_bounds(m: Seq<Seq<i64>>, v: Seq<i64>)
    requires
        m.len() == 4,
        entries_bounded(m, FIXED_MAX as int),
        vector_bounded(v, FIXED_MAX as int),
    ensures
        forall|i: int|
            0 <= i < 4 ==> -64_000_000_000_000_000_000_000_000 <= #[trigger] product_entry(m, v, i)
                <= 64_000_000_000_000_000_000_000_000,
        forall|i: int|
            0 <= i < 4 ==> -64_000_000_000_000_000 <= #[trigger] fixed_product_entry(m, v, i)
                <= 64_000_000_000_000_000,
{
    assert forall|i: int|
        0 <= i < 4 implies -64_000_000_000_000_000_000_000_000 <= #[trigger] product_entry(m, v, i)
        <= 64_000_000_000_000_000_000_000_000 by {
        lemma_bounded_product(m[0][i] as int, v[0] as int);
        lemma_bounded_product(m[1][i] as int, v[1] as int);
        lemma_bounded_product(m[2][i] as int, v[2] as int);
        lemma_bounded_product(m[3][i] as int, v[3] as int);
    }
    assert forall|i: int|
        0 <= i < 4 implies -64_000_000_000_000_000 <= #[trigger] fixed_product_entry(m, v, i)
        <= 64_000_000_000_000_000 by {
        assert((-64_000_000_000_000_000int) * (SCALE as int)
            == -64_000_000_000_000_000_000_000_000) by (nonlinear_arith);
        assert((64_000_000_000_000_000int) * (SCALE as int) == 64_000_000_000_000_000_000_000_000)
            by (nonlinear_arith);
        lemma_tdiv_between(
            product_entry(m, v, i),
            SCALE as int,
            -64_000_000_000_000_000,
            64_000_000_000_000_000,
        );
    }
}

/// The fixed-point identity is a two-sided identity of the fixed-point
/// product, exactly: rescaling undoes the unit scale on the diagonal.
pub proof fn lemma_identity_fixed(m: Seq<Seq<i64>>)
    requires
        m.len() == 4,
        forall|j: int| 0 <= j < 4 ==> #[trigger] m[j].len() == 4,
    ensures
        forall|j: int, i: int|
            0 <= j < 4 && 0 <= i < 4 ==> #[trigger] fixed_product_entry(identity_fixed(), m[j], i)
                == m[j][i],
        forall|j: int, i: int|
            0 <= j < 4 && 0 <= i < 4 ==> #[trigger] fixed_product_entry(m, identity_fixed()[j], i)
                == m[j][i],
{
    assert forall|j: int, i: int|
        0 <= j < 4 && 0 <= i < 4 implies #[trigger] fixed_product_entry(identity_fixed(), m[j], i)
        == m[j][i] by {
        let ident = identity_fixed();
        let v = m[j];
        assert(product_entry(ident, v, i) == (SCALE as int) * v[i]) by (nonlinear_arith)
            requires
                0 <= i < 4,
                forall|a: int, b: int|
                    0 <= a < 4 && 0 <= b < 4 ==> ident[a][b] == (if a == b {
                        SCALE
                    } else {
                        0i64
                    }),
                product_entry(ident, v, i) == ident[0][i] * v[0] + ident[1][i] * v[1] + ident[2][i]
                    * v[2] + ident[3][i] * v[3],
        ;
        assert((SCALE as int) * v[i] == (v[i] as int) * (SCALE as int)) by (nonlinear_arith);
        lemma_tdiv_exact(v[i] as int, SCALE as int);
    }
    assert forall|j: int, i: int|
        0 <= j < 4 && 0 <= i < 4 implies #[trigger] fixed_product_entry(m, identity_fixed()[j], i)
        == m[j][i] by {
        let ident = identity_fixed();
        assert(product_entry(m, ident[j], i) == m[j][i] * (SCALE as int)) by (nonlinear_arith)
            requires
                0 <= j < 4,
                forall|k: int| 0 <= k < 4 ==> ident[j][k] == (if k == j { SCALE } else { 0i64 }),
                product_entry(m, ident[j], i) == m[0][i] * ident[j][0] + m[1][i] * ident[j][1]
                    + m[2][i] * ident[j][2] + m[3][i] * ident[j][3],
        ;
        lemma_tdiv_exact(m[j][i] as int, SCALE as int);
    }
}

/// The transpose of a matrix value.
pub open spec fn transpose_spec(m: Seq<Seq<i64>>) -> Seq<Seq<i64>> {
    Seq::new(4, |j: int| Seq::new(4, |i: int| m[i][j]))
}

/// The rotation about the x axis by `a` degrees, as a matrix value
/// (right-handed; columns are the images of the basis vectors).
pub open spec fn rotate_x_spec(a: int) -> Seq<Seq<i64>> {
    let c = cos_deg(a) as i64;
    let s = sin_deg(a) as i64;
    seq![
        seq![SCALE, 0i64, 0i64, 0i64],
        seq![0i64, c, s, 0i64],
        seq![0i64, (-(sin_deg(a))) as i64, c, 0i64],
        seq![0i64, 0i64, 0i64, SCALE],
    ]
}

/// The rotation about the y axis by `a` degrees, as a matrix value.
pub open spec fn rotate_y_spec(a: int) -> Seq<Seq<i64>> {
    let c = cos_deg(a) as i64;
    let s = sin_deg(a) as i64;
    seq![
        seq![c, 0i64, (-(sin_deg(a))) as i64, 0i64],
        seq![0i64, SCALE, 0i64, 0i64],
        seq![s, 0i64, c, 0i64],
        seq![0i64, 0i64, 0i64, SCALE],
    ]
}

/// The rotation about the z axis by `a` degrees, as a matrix value.
pub open spec fn rotate_z_spec(a: int) -> Seq<Seq<i64>> {
    let c = cos_deg(a) as i64;
    let s = sin_deg(a) as i64;
    seq![
        seq![c, s, 0i64, 0i64],
        seq![(-(sin_deg(a))) as i64, c, 0i64, 0i64],
        seq![0i64, 0i64, SCALE, 0i64],
        seq![0i64, 0i64, 0i64, SCALE],
    ]
}

/// The sine and cosine of `a` degrees as machine scalars, with their range.
fn sin_cos_of(a: i32) -> (r: (i64, i64))
    ensures
        r.0 as int == sin_deg(a as int),
        r.1 as int == cos_deg(a as int),
        -SCALE <= r.0 <= SCALE,
        -SCALE <= r.1 <= SCALE,
{
    proof {
        lemma_sin_half_range(2 * (a as int));
        lemma_cos_half_range(2 * (a as int));
    }
    (sin_of_deg(a), cos_of_deg(a))
}

/// Rotation about the x axis by `angle` degrees.
#[verifier::rlimit(100)]
#[verifier::spinoff_prover]
pub fn rotate_x(angle: i32) -> (r: Matrix4)
    ensures
        r@ =~~= rotate_x_spec(angle as int),
{
    let (s, c) = sin_cos_of(angle);
    let r = Matrix::new([[SCALE, 0, 0, 0], [0, c, s, 0], [0, -s, c, 0], [0, 0, 0, SCALE]]);
    proof {
        assert(r@[0] =~= rotate_x_spec(angle as int)[0]);
        assert(r@[1] =~= rotate_x_spec(angle as int)[1]);
        assert(r@[2] =~= rotate_x_spec(angle as int)[2]);
        assert(r@[3] =~= rotate_x_spec(angle as int)[3]);
    }
    r
}

/// Rotation about the y axis by `angle` degrees.
#[verifier::rlimit(100)]
#[verifier::spinoff_prover]
pub fn rotate_y(angle: i32) -> (r: Matrix4)
    ensures
        r@ =~~= rotate_y_spec(angle as int),
{
    let (s, c) = sin_cos_of(angle);
    let r = Matrix::new([[c, 0, -s, 0], [0, SCALE, 0, 0], [s, 0, c, 0], [0, 0, 0, SCALE]]);
    proof {
        assert(r@[0] =~= rotate_y_spec(angle as int)[0]);
        assert(r@[1] =~= rotate_y_spec(angle as int)[1]);
        assert(r@[2] =~= rotate_y_spec(angle as int)[2]);
        assert(r@[3] =~= rotate_y_spec(angle as int)[3]);
    }
    r
}

/// Rotation about the z axis by `angle` degrees.
#[verifier::rlimit(100)]
#[verifier::spinoff_prover]
pub fn rotate_z(angle: i32) -> (r: Matrix4)
    ensures
        r@ =~~= rotate_z_spec(angle as int),
{
    let (s, c) = sin_cos_of(angle);
    let r = Matrix::new([[c, s, 0, 0], [-s, c, 0, 0], [0, 0, SCALE, 0], [0, 0, 0, SCALE]]);
    proof {
        assert(r@[0] =~= rotate_z_spec(angle as int)[0]);
        assert(r@[1] =~= rotate_z_spec(angle as int)[1]);
        assert(r@[2] =~= rotate_z_spec(angle as int)[2]);
        assert(r@[3] =~= rotate_z_spec(angle as int)[3]);
    }
    r
}

/// A fixed-point product of values within one unit stays within one unit.
proof fn lemma_fmul_unit(a: int, b: int)
    requires
        -(SCALE as int) <= a <= SCALE as int,
        -(SCALE as int) <= b <= SCALE as int,
    ensures
        -(SCALE as int) <= fmul(a, b) <= SCALE as int,
{
    assert(-((SCALE as int) * (SCALE as int)) <= a * b <= (SCALE as int) * (SCALE as int))
        by (nonlinear_arith)
        requires
            -(SCALE as int) <= a <= SCALE as int,
            -(SCALE as int) <= b <= SCALE as int,
    ;
    assert((-(SCALE as int)) * (SCALE as int) == -((SCALE as int) * (SCALE as int)))
        by (nonlinear_arith);
    lemma_tdiv_between(a * b, SCALE as int, -(SCALE as int), SCALE as int);
}

/// The fixed-point product of two bounded unit-scale scalars, as a machine
/// scalar within one unit.
fn unit_mul(a: i64, b: i64) -> (r: i64)
    requires
        -SCALE <= a <= SCALE,
        -SCALE <= b <= SCALE,
    ensures
        r as int == fmul(a as int, b as int),
        -SCALE <= r <= SCALE,
{
    proof {
        lemma_fmul_unit(a as int, b as int);
    }
    fixed_mul(a, b)
}

/// The Rodrigues rotation about `axis` by `a` degrees, as a matrix value.
/// `axis` is expected normalized: components within one unit.
pub open spec fn rotate_around_spec(axis: Seq<i64>, a: int) -> Seq<Seq<i64>> {
    let c = cos_deg(a);
    let s = sin_deg(a);
    let oc = SCALE - c;
    let x = axis[0] as int;
    let y = axis[1] as int;
    let z = axis[2] as int;
    let xy = fmul(x, y);
    let xz = fmul(x, z);
    let yz = fmul(y, z);
    seq![
        seq![
            (c + fmul(oc, fmul(x, x))) as i64,
            (fmul(oc, xy) + fmul(z, s)) as i64,
            (fmul(oc, xz) - fmul(y, s)) as i64,
            0i64,
        ],
        seq![
            (fmul(oc, xy) - fmul(z, s)) as i64,
            (c + fmul(oc, fmul(y, y))) as i64,
            (fmul(oc, yz) + fmul(x, s)) as i64,
            0i64,
        ],
        seq![
            (fmul(oc, xz) + fmul(y, s)) as i64,
            (fmul(oc, yz) - fmul(x, s)) as i64,
            (c + fmul(oc, fmul(z, z))) as i64,
            0i64,
        ],
        seq![0i64, 0i64, 0i64, SCALE],
    ]
}

/// Rotation about an arbitrary normalized `axis` by `angle` degrees, by the
/// Rodrigues formula.
#[verifier::rlimit(100)]
#[verifier::spinoff_prover]
pub fn rotate_around(axis: Array4, angle: i32) -> (r: Matrix4)
    requires
        vector_bounded(axis@, SCALE as int),
    ensures
        r@ =~~= rotate_around_spec(axis@, angle as int),
{
    let (s, c) = sin_cos_of(angle);
    let oc = SCALE - c;
    proof {
        lemma_fmul_unit(axis@[0] as int, axis@[0] as int);
        lemma_fmul_unit(axis@[1] as int, axis@[1] as int);
        lemma_fmul_unit(axis@[2] as int, axis@[2] as int);
    }
    let x = axis.0[0];
    let y = axis.0[1];
    let z = axis.0[2];
    let xy = unit_mul(x, y);
    let xz = unit_mul(x, z);
    let yz = unit_mul(y, z);
    let xx = unit_mul(x, x);
    let yy = unit_mul(y, y);
    let zz = unit_mul(z, z);
    let r = Matrix::new(
        [
            [
                c + fixed_mul(oc, xx),
                fixed_mul(oc, xy) + unit_mul(z, s),
                fixed_mul(oc, xz) - unit_mul(y, s),
                0,
            ],
            [
                fixed_mul(oc, xy) - unit_mul(z, s),
                c + fixed_mul(oc, yy),
                fixed_mul(oc, yz) + unit_mul(x, s),
                0,
            ],
            [
                fixed_mul(oc, xz) + unit_mul(y, s),
                fixed_mul(oc, yz) - unit_mul(x, s),
                c + fixed_mul(oc, zz),
                0,
            ],
            [0, 0, 0, SCALE],
        ],
    );
    proof {
        assert(r@[0] =~= rotate_around_spec(axis@, angle as int)[0]);
        assert(r@[1] =~= rotate_around_spec(axis@, angle as int)[1]);
        assert(r@[2] =~= rotate_around_spec(axis@, angle as int)[2]);
        assert(r@[3] =~= rotate_around_spec(axis@, angle as int)[3]);
    }
    r
}

/// The quaternion-derived rotation about `axis` by `a` degrees, as a matrix
/// value: the quaternion is (cos(a/2), sin(a/2) * axis).
pub open spec fn rotate_quat_spec(axis: Seq<i64>, a: int) -> Seq<Seq<i64>> {
    let w = cos_half(a);
    let x = fmul(sin_half(a), axis[0] as int);
    let y = fmul(sin_half(a), axis[1] as int);
    let z = fmul(sin_half(a), axis[2] as int);
    seq![
        seq![
            (SCALE - 2 * fmul(y, y) - 2 * fmul(z, z)) as i64,
            (2 * fmul(x, y) + 2 * fmul(w, z)) as i64,
            (2 * fmul(x, z) - 2 * fmul(w, y)) as i64,
            0i64,
        ],
        seq![
            (2 * fmul(x, y) - 2 * fmul(w, z)) as i64,
            (SCALE - 2 * fmul(x, x) - 2 * fmul(z, z)) as i64,
            (2 * fmul(y, z) + 2 * fmul(w, x)) as i64,
            0i64,
        ],
        seq![
            (2 * fmul(x, z) + 2 * fmul(w, y)) as i64,
            (2 * fmul(y, z) - 2 * fmul(w, x)) as i64,
            (SCALE - 2 * fmul(x, x) - 2 * fmul(y, y)) as i64,
            0i64,
        ],
        seq![0i64, 0i64, 0i64, SCALE],
    ]
}

/// Rotation about an arbitrary normalized `axis` by `angle` degrees, derived
/// from the half-angle quaternion.
#[verifier::rlimit(100)]
#[verifier::spinoff_prover]
pub fn rotate(axis: Array4, angle: i32) -> (r: Matrix4)
    requires
        vector_bounded(axis@, SCALE as int),
    ensures
        r@ =~~= rotate_quat_spec(axis@, angle as int),
{
    proof {
        lemma_sin_half_range(angle as int);
        lemma_cos_half_range(angle as int);
    }
    let sh = sin_half_deg(angle as i64);
    let w = cos_half_deg(angle as i64);
    let x = unit_mul(sh, axis.0[0]);
    let y = unit_mul(sh, axis.0[1]);
    let z = unit_mul(sh, axis.0[2]);
    let xx = unit_mul(x, x);
    let yy = unit_mul(y, y);
    let zz = unit_mul(z, z);
    let xy = unit_mul(x, y);
    let xz = unit_mul(x, z);
    let yz = unit_mul(y, z);
    let wx = unit_mul(w, x);
    let wy = unit_mul(w, y);
    let wz = unit_mul(w, z);
    let r = Matrix::new(
        [
            [SCALE - 2 * yy - 2 * zz, 2 * xy + 2 * wz, 2 * xz - 2 * wy, 0],
            [2 * xy - 2 * wz, SCALE - 2 * xx - 2 * zz, 2 * yz + 2 * wx, 0],
            [2 * xz + 2 * wy, 2 * yz - 2 * wx, SCALE - 2 * xx - 2 * yy, 0],
            [0, 0, 0, SCALE],
        ],
    );
    proof {
        assert(r@[0] =~= rotate_quat_spec(axis@, angle as int)[0]);
        assert(r@[1] =~= rotate_quat_spec(axis@, angle as int)[1]);
        assert(r@[2] =~= rotate_quat_spec(axis@, angle as int)[2]);
        assert(r@[3] =~= rotate_quat_spec(axis@, angle as int)[3]);
    }
    r
}

/// Orthogonality of the axis-aligned rotation: for every angle, the
/// transpose of `rotate_x` composed with `rotate_x` is the identity, up to
/// the near-equality tolerance.
#[verifier::spinoff_prover]
#[verifier::rlimit(100)]
pub proof fn lemma_rotate_x_orthogonal(angle: int)
    ensures
        forall|j: int, i: int|
            0 <= j < 4 && 0 <= i < 4 ==> -(TOLERANCE as int) < #[trigger] fixed_product_entry(
                transpose_spec(rotate_x_spec(angle)),
                rotate_x_spec(angle)[j],
                i,
            ) - identity_fixed()[j][i] < TOLERANCE as int,
{
    let m = rotate_x_spec(angle);
    let t = transpose_spec(m);
    let c = cos_deg(angle);
    let s = sin_deg(angle);
    let u = SCALE as int;
    lemma_sin_half_range(2 * angle);
    lemma_cos_half_range(2 * angle);
    lemma_sin_cos_norm(2 * angle);
    assert(m[0][0] as int == u && m[0][1] as int == 0 && m[0][2] as int == 0 && m[0][3] as int
        == 0);
    assert(m[1][0] as int == 0 && m[1][1] as int == c && m[1][2] as int == s && m[1][3] as int
        == 0);
    assert(m[2][0] as int == 0 && m[2][1] as int == -s && m[2][2] as int == c && m[2][3] as int
        == 0);
    assert(m[3][0] as int == 0 && m[3][1] as int == 0 && m[3][2] as int == 0 && m[3][3] as int
        == u);
    assert forall|j: int, i: int|
        0 <= j < 4 && 0 <= i < 4 implies -(TOLERANCE as int) < #[trigger] fixed_product_entry(
        t,
        m[j],
        i,
    ) - identity_fixed()[j][i] < TOLERANCE as int by {
        let p = product_entry(t, m[j], i);
        assert(p == m[i][0] * m[j][0] + m[i][1] * m[j][1] + m[i][2] * m[j][2] + m[i][3] * m[j][3]);
        if j == 0 {
            if i == 0 {
                assert(p == u * u) by (nonlinear_arith)
                    requires
                        p == m[0][0] * m[0][0] + m[0][1] * m[0][1] + m[0][2] * m[0][2] + m[0][3] * m[0][3],
                    m[0][0] as int == u,
                    m[0][1] as int == 0,
                    m[0][2] as int == 0,
                    m[0][3] as int == 0,
                ;
                lemma_tdiv_exact(u, u);
                assert(fixed_product_entry(t, m[j], i) == u);
                assert(identity_fixed()[j][i] == SCALE);
            } else if i == 1 {
                assert(p == 0) by (nonlinear_arith)
                    requires
                        p == m[1][0] * m[0][0] + m[1][1] * m[0][1] + m[1][2] * m[0][2] + m[1][3] * m[0][3],
                    m[0][0] as int == u,
                    m[0][1] as int == 0,
                    m[0][2] as int == 0,
                    m[0][3] as int == 0,
                    m[1][0] as int == 0,
                    m[1][1] as int == c,
                    m[1][2] as int == s,
                    m[1][3] as int == 0,
                ;
                assert(0 * u == 0) by (nonlinear_arith);
                lemma_tdiv_between(p, u, 0, 0);
                assert(identity_fixed()[j][i] == 0i64);
            } else if i == 2 {
                assert(p == 0) by (nonlinear_arith)
                    requires
                        p == m[2][0] * m[0][0] + m[2][1] * m[0][1] + m[2][2] * m[0][2] + m[2][3] * m[0][3],
                    m[0][0] as int == u,
                    m[0][1] as int == 0,
                    m[0][2] as int == 0,
                    m[0][3] as int == 0,
                    m[2][0] as int == 0,
                    m[2][1] as int == -s,
                    m[2][2] as int == c,
                    m[2][3] as int == 0,
                ;
                assert(0 * u == 0) by (nonlinear_arith);
                lemma_tdiv_between(p, u, 0, 0);
                assert(identity_fixed()[j][i] == 0i64);
            } else {
                assert(p == 0) by (nonlinear_arith)
                    requires
                        p == m[3][0] * m[0][0] + m[3][1] * m[0][1] + m[3][2] * m[0][2] + m[3][3] * m[0][3],
                    m[0][0] as int == u,
                    m[0][1] as int == 0,
                    m[0][2] as int == 0,
                    m[0][3] as int == 0,
                    m[3][0] as int == 0,
                    m[3][1] as int == 0,
                    m[3][2] as int == 0,
                    m[3][3] as int == u,
                ;
                assert(0 * u == 0) by (nonlinear_arith);
                lemma_tdiv_between(p, u, 0, 0);
                assert(identity_fixed()[j][i] == 0i64);
            }
        } else if j == 1 {
            if i == 0 {
                assert(p == 0) by (nonlinear_arith)
                    requires
                        p == m[0][0] * m[1][0] + m[0][1] * m[1][1] + m[0][2] * m[1][2] + m[0][3] * m[1][3],
                    m[0][0] as int == u,
                    m[0][1] as int == 0,
                    m[0][2] as int == 0,
                    m[0][3] as int == 0,
                    m[1][0] as int == 0,
                    m[1][1] as int == c,
                    m[1][2] as int == s,
                    m[1][3] as int == 0,
                ;
                assert(0 * u == 0) by (nonlinear_arith);
                lemma_tdiv_between(p, u, 0, 0);
                assert(identity_fixed()[j][i] == 0i64);
            } else if i == 1 {
                assert(p == c * c + s * s) by (nonlinear_arith)
                    requires
                        p == m[1][0] * m[1][0] + m[1][1] * m[1][1] + m[1][2] * m[1][2] + m[1][3] * m[1][3],
                    m[1][0] as int == 0,
                    m[1][1] as int == c,
                    m[1][2] as int == s,
                    m[1][3] as int == 0,
                ;
                assert(999999998000000000 <= p <= 1000000002000000000);
                assert((u - 2) * u == 999999998000000000 && (u + 2) * u == 1000000002000000000)
                    by (nonlinear_arith)
                    requires
                        u == 1000000000,
                ;
                lemma_tdiv_between(p, u, u - 2, u + 2);
                assert(identity_fixed()[j][i] == SCALE);
            } else if i == 2 {
                assert(p == 0) by (nonlinear_arith)
                    requires
                        p == m[2][0] * m[1][0] + m[2][1] * m[1][1] + m[2][2] * m[1][2] + m[2][3] * m[1][3],
                    m[1][0] as int == 0,
                    m[1][1] as int == c,
                    m[1][2] as int == s,
                    m[1][3] as int == 0,
                    m[2][0] as int == 0,
                    m[2][1] as int == -s,
                    m[2][2] as int == c,
                    m[2][3] as int == 0,
                ;
                assert(0 * u == 0) by (nonlinear_arith);
                lemma_tdiv_between(p, u, 0, 0);
                assert(identity_fixed()[j][i] == 0i64);
            } else {
                assert(p == 0) by (nonlinear_arith)
                    requires
                        p == m[3][0] * m[1][0] + m[3][1] * m[1][1] + m[3][2] * m[1][2] + m[3][3] * m[1][3],
                    m[1][0] as int == 0,
                    m[1][1] as int == c,
                    m[1][2] as int == s,
                    m[1][3] as int == 0,
                    m[3][0] as int == 0,
                    m[3][1] as int == 0,
                    m[3][2] as int == 0,
                    m[3][3] as int == u,
                ;
                assert(0 * u == 0) by (nonlinear_arith);
                lemma_tdiv_between(p, u, 0, 0);
                assert(identity_fixed()[j][i] == 0i64);
            }
        } else if j == 2 {
            if i == 0 {
                assert(p == 0) by (nonlinear_arith)
                    requires
                        p == m[0][0] * m[2][0] + m[0][1] * m[2][1] + m[0][2] * m[2][2] + m[0][3] * m[2][3],
                    m[0][0] as int == u,
                    m[0][1] as int == 0,
                    m[0][2] as int == 0,
                    m[0][3] as int == 0,
                    m[2][0] as int == 0,
                    m[2][1] as int == -s,
                    m[2][2] as int == c,
                    m[2][3] as int == 0,
                ;
                assert(0 * u == 0) by (nonlinear_arith);
                lemma_tdiv_between(p, u, 0, 0);
                assert(identity_fixed()[j][i] == 0i64);
            } else if i == 1 {
                assert(p == 0) by (nonlinear_arith)
                    requires
                        p == m[1][0] * m[2][0] + m[1][1] * m[2][1] + m[1][2] * m[2][2] + m[1][3] * m[2][3],
                    m[1][0] as int == 0,
                    m[1][1] as int == c,
                    m[1][2] as int == s,
                    m[1][3] as int == 0,
                    m[2][0] as int == 0,
                    m[2][1] as int == -s,
                    m[2][2] as int == c,
                    m[2][3] as int == 0,
                ;
                assert(0 * u == 0) by (nonlinear_arith);
                lemma_tdiv_between(p, u, 0, 0);
                assert(identity_fixed()[j][i] == 0i64);
            } else if i == 2 {
                assert(p == c * c + s * s) by (nonlinear_arith)
                    requires
                        p == m[2][0] * m[2][0] + m[2][1] * m[2][1] + m[2][2] * m[2][2] + m[2][3] * m[2][3],
                    m[2][0] as int == 0,
                    m[2][1] as int == -s,
                    m[2][2] as int == c,
                    m[2][3] as int == 0,
                ;
                assert(999999998000000000 <= p <= 1000000002000000000);
                assert((u - 2) * u == 999999998000000000 && (u + 2) * u == 1000000002000000000)
                    by (nonlinear_arith)
                    requires
                        u == 1000000000,
                ;
                lemma_tdiv_between(p, u, u - 2, u + 2);
                assert(identity_fixed()[j][i] == SCALE);
            } else {
                assert(p == 0) by (nonlinear_arith)
                    requires
                        p == m[3][0] * m[2][0] + m[3][1] * m[2][1] + m[3][2] * m[2][2] + m[3][3] * m[2][3],
                    m[2][0] as int == 0,
                    m[2][1] as int == -s,
                    m[2][2] as int == c,
                    m[2][3] as int == 0,
                    m[3][0] as int == 0,
                    m[3][1] as int == 0,
                    m[3][2] as int == 0,
                    m[3][3] as int == u,
                ;
                assert(0 * u == 0) by (nonlinear_arith);
                lemma_tdiv_between(p, u, 0, 0);
                assert(identity_fixed()[j][i] == 0i64);
            }
        } else {
            if i == 0 {
                assert(p == 0) by (nonlinear_arith)
                    requires
                        p == m[0][0] * m[3][0] + m[0][1] * m[3][1] + m[0][2] * m[3][2] + m[0][3] * m[3][3],
                    m[0][0] as int == u,
                    m[0][1] as int == 0,
                    m[0][2] as int == 0,
                    m[0][3] as int == 0,
                    m[3][0] as int == 0,
                    m[3][1] as int == 0,
                    m[3][2] as int == 0,
                    m[3][3] as int == u,
                ;
                assert(0 * u == 0) by (nonlinear_arith);
                lemma_tdiv_between(p, u, 0, 0);
                assert(identity_fixed()[j][i] == 0i64);
            } else if i == 1 {
                assert(p == 0) by (nonlinear_arith)
                    requires
                        p == m[1][0] * m[3][0] + m[1][1] * m[3][1] + m[1][2] * m[3][2] + m[1][3] * m[3][3],
                    m[1][0] as int == 0,
                    m[1][1] as int == c,
                    m[1][2] as int == s,
                    m[1][3] as int == 0,
                    m[3][0] as int == 0,
                    m[3][1] as int == 0,
                    m[3][2] as int == 0,
                    m[3][3] as int == u,
                ;
                assert(0 * u == 0) by (nonlinear_arith);
                lemma_tdiv_between(p, u, 0, 0);
                assert(identity_fixed()[j][i] == 0i64);
            } else if i == 2 {
                assert(p == 0) by (nonlinear_arith)
                    requires
                        p == m[2][0] * m[3][0] + m[2][1] * m[3][1] + m[2][2] * m[3][2] + m[2][3] * m[3][3],
                    m[2][0] as int == 0,
                    m[2][1] as int == -s,
                    m[2][2] as int == c,
                    m[2][3] as int == 0,
                    m[3][0] as int == 0,
                    m[3][1] as int == 0,
                    m[3][2] as int == 0,
                    m[3][3] as int == u,
                ;
                assert(0 * u == 0) by (nonlinear_arith);
                lemma_tdiv_between(p, u, 0, 0);
                assert(identity_fixed()[j][i] == 0i64);
            } else {
                assert(p == u * u) by (nonlinear_arith)
                    requires
                        p == m[3][0] * m[3][0] + m[3][1] * m[3][1] + m[3][2] * m[3][2] + m[3][3] * m[3][3],
                    m[3][0] as int == 0,
                    m[3][1] as int == 0,
                    m[3][2] as int == 0,
                    m[3][3] as int == u,
                ;
                lemma_tdiv_exact(u, u);
                assert(fixed_product_entry(t, m[j], i) == u);
                assert(identity_fixed()[j][i] == SCALE);
            }
        }
    }
}

/// Truncating division treats a negated dividend symmetrically.
proof fn lemma_tdiv_neg(x: int, b: int)
    requires
        b > 0,
    ensures
        tdiv(-x, b) == -tdiv(x, b),
{
    if x == 0 {
        assert(tdiv(0, b) == 0int / b);
    }
}

/// The scalar core of the reciprocal round trip, for a positive scalar:
/// scaling by `k` and then by the reciprocal of `k` moves a bounded value by
/// less than the tolerance.
#[verifier::spinoff_prover]
proof fn lemma_scale_recip_pos(a: int, k: int)
    requires
        -16_000_000_000 <= a <= 16_000_000_000,
        10_000_000 <= k <= 16_000_000_000,
    ensures
        -358 <= fmul(fmul(a, k), recip_val(k)) - a <= 358,
{
    let s = SCALE as int;
    let r1 = tdiv(a * k, s);
    let rc = tdiv(s * s, k);
    let r2 = tdiv(r1 * rc, s);
    assert(s * s == 1_000_000_000_000_000_000) by (nonlinear_arith)
        requires
            s == 1_000_000_000,
    ;
    crate::math::fixed::lemma_tdiv_remainder(a * k, s);
    crate::math::fixed::lemma_tdiv_remainder(s * s, k);
    crate::math::fixed::lemma_tdiv_remainder(r1 * rc, s);
    let e1 = a * k - r1 * s;
    let e2 = s * s - rc * k;
    let e3 = r1 * rc - r2 * s;
    assert(-s < e1 < s);
    assert(0 <= e2 < k);
    assert(-s < e3 < s);
    assert(-(256 * (s * s)) <= a * k <= 256 * (s * s)) by (nonlinear_arith)
        requires
            -16_000_000_000 <= a <= 16_000_000_000,
            10_000_000 <= k <= 16_000_000_000,
            s == 1_000_000_000,
    ;
    assert((r2 * s) * (s * k) == (r1 * rc) * (s * k) - e3 * (s * k)) by (nonlinear_arith)
        requires
            r2 * s == r1 * rc - e3,
    ;
    assert((r1 * rc) * (s * k) == (r1 * s) * (rc * k)) by (nonlinear_arith);
    assert((r1 * s) * (rc * k) == (a * k - e1) * (s * s - e2)) by (nonlinear_arith)
        requires
            r1 * s == a * k - e1,
            rc * k == s * s - e2,
    ;
    assert((a * k - e1) * (s * s - e2) == (a * k) * (s * s) - (a * k) * e2 - e1 * (s * s) + e1
        * e2) by (nonlinear_arith);
    assert(a * (s * (s * k)) == (a * k) * (s * s)) by (nonlinear_arith);
    assert(r2 * (s * (s * k)) == (r2 * s) * (s * k)) by (nonlinear_arith);
    assert((r2 - a) * (s * (s * k)) == r2 * (s * (s * k)) - a * (s * (s * k)))
        by (nonlinear_arith);
    assert((r2 - a) * (s * (s * k)) == -((a * k) * e2) - e1 * (s * s) + e1 * e2 - e3 * (s * k));
    assert(-(358 * (s * (s * k))) < (r2 - a) * (s * (s * k)) < 358 * (s * (s * k)))
        by (nonlinear_arith)
        requires
            (r2 - a) * (s * (s * k)) == -((a * k) * e2) - e1 * (s * s) + e1 * e2 - e3 * (s * k),
            -(256 * (s * s)) <= a * k <= 256 * (s * s),
            0 <= e2 < k,
            -s < e1 < s,
            -s < e3 < s,
            s == 1_000_000_000,
            10_000_000 <= k <= 16_000_000_000,
    ;
    assert(-358 <= r2 - a <= 358) by (nonlinear_arith)
        requires
            -(358 * (s * (s * k))) < (r2 - a) * (s * (s * k)) < 358 * (s * (s * k)),
            s == 1_000_000_000,
            k >= 10_000_000,
    ;
}

/// Scaling a vector by a scalar and then by the scalar's fixed-point
/// reciprocal restores every component to within the near-equality
/// tolerance, whenever the scalar is nonzero. Scalars below a hundredth of a
/// unit are excluded: there the reciprocal's own rounding is already coarser
/// than the tolerance. Components and scalar are bounded by sixteen units.
pub proof fn lemma_scale_then_unscale(v: Array, k: i64)
    requires
        vector_bounded(v@, 16_000_000_000),
        10_000_000 <= k <= 16_000_000_000 || -16_000_000_000 <= k <= -10_000_000,
    ensures
        forall|i: int|
            0 <= i < 4 ==> -(TOLERANCE as int) < #[trigger] fmul(
                fmul(v@[i] as int, k as int),
                recip_val(k as int),
            ) - v@[i] < TOLERANCE as int,
{
    let s = SCALE as int;
    assert forall|i: int|
        0 <= i < 4 implies -(TOLERANCE as int) < #[trigger] fmul(
        fmul(v@[i] as int, k as int),
        recip_val(k as int),
    ) - v@[i] < TOLERANCE as int by {
        let a = v@[i] as int;
        if k > 0 {
            lemma_scale_recip_pos(a, k as int);
        } else {
            let k2 = -(k as int);
            lemma_scale_recip_pos(a, k2);
            assert(a * k == -(a * k2)) by (nonlinear_arith)
                requires
                    k as int == -k2,
            ;
            lemma_tdiv_neg(a * k2, s);
            assert(fmul(a, k as int) == -fmul(a, k2));
            assert(recip_val(k as int) == -recip_val(k2));
            assert((-fmul(a, k2)) * (-recip_val(k2)) == fmul(a, k2) * recip_val(k2))
                by (nonlinear_arith);
            assert(fmul(fmul(a, k as int), recip_val(k as int)) == fmul(
                fmul(a, k2),
                recip_val(k2),
            ));
        }
    }
}

} // verus!
