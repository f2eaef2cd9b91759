use vstd::prelude::*;

use crate::math::array::Array;
use crate::math::array::add_in_range;
use crate::math::array::diff_of;
use crate::math::array::sub_in_range;
use crate::math::array::sum_of;

verus! {

/// A matrix of `C` columns, each a 4-component vector. The stored `Array`s
/// are the columns: a matrix-vector product is the linear combination of the
/// columns weighted by the vector's components.
#[derive(Debug, Clone, Copy)]
pub struct Matrix<const C: usize>(pub [Array; C]);

impl<const C: usize> View for Matrix<C> {
    type V = Seq<Seq<i64>>;

    open spec fn view(&self) -> Seq<Seq<i64>> {
        Seq::new(C as nat, |j: int| self.0@[j]@)
    }
}

/// Every component of every column of `m` is bounded by `bound` in magnitude.
pub open spec fn entries_bounded(m: Seq<Seq<i64>>, bound: int) -> bool {
    forall|j: int, i: int|
        0 <= j < m.len() && 0 <= i < 4 ==> -bound <= #[trigger] m[j][i] <= bound
}

/// Every component of `v` is bounded by `bound` in magnitude.
pub open spec fn vector_bounded(v: Seq<i64>, bound: int) -> bool {
    forall|i: int| 0 <= i < 4 ==> -bound <= #[trigger] v[i] <= bound
}

/// Magnitude bound on the inputs of a product, chosen so that every
/// intermediate of a 4-term multiply-accumulate fits in `i128`.
pub const MAX_COMPONENT: i64 = 0x4000_0000_0000_0000;

/// Component `i` of the product of matrix `m` (4 columns) and vector `v`:
/// the dot product of row `i` of `m` with `v`, exact over the integers.
pub open spec fn product_entry(m: Seq<Seq<i64>>, v: Seq<i64>, i: int) -> int {
    m[0][i] * v[0] + m[1][i] * v[1] + m[2][i] * v[2] + m[3][i] * v[3]
}

/// Every component of the matrix-vector product fits in `i64`.
pub open spec fn product_in_range(m: Seq<Seq<i64>>, v: Seq<i64>) -> bool {
    forall|i: int| 0 <= i < 4 ==> i64::MIN <= #[trigger] product_entry(m, v, i) <= i64::MAX
}

/// Every entry of the matrix-matrix product fits in `i64`.
pub open spec fn mat_product_in_range(a: Seq<Seq<i64>>, b: Seq<Seq<i64>>) -> bool {
    forall|j: int, i: int|
        0 <= j < 4 && 0 <= i < 4 ==> i64::MIN <= #[trigger] product_entry(a, b[j], i) <= i64::MAX
}

proof fn lemma_abs_mul_le(x: int, y: int, b: int) by (nonlinear_arith)
    requires
        -b <= x <= b,
        -b <= y <= b,
        0 <= b,
    ensures
        -(b * b) <= x * y <= b * b,
{
}

/// Exact four-term dot product, accumulated in `i128`.
#[allow(clippy::too_many_arguments)]
pub(crate) fn dot4(a0: i64, a1: i64, a2: i64, a3: i64, b0: i64, b1: i64, b2: i64, b3: i64) -> (r: i128)
    requires
        -MAX_COMPONENT <= a0 <= MAX_COMPONENT,
        -MAX_COMPONENT <= a1 <= MAX_COMPONENT,
        -MAX_COMPONENT <= a2 <= MAX_COMPONENT,
        -MAX_COMPONENT <= a3 <= MAX_COMPONENT,
        -MAX_COMPONENT <= b0 <= MAX_COMPONENT,
        -MAX_COMPONENT <= b1 <= MAX_COMPONENT,
        -MAX_COMPONENT <= b2 <= MAX_COMPONENT,
        -MAX_COMPONENT <= b3 <= MAX_COMPONENT,
    ensures
        r == a0 * b0 + a1 * b1 + a2 * b2 + a3 * b3,
{
    proof {
        let m = MAX_COMPONENT as int;
        lemma_abs_mul_le(a0 as int, b0 as int, m);
        lemma_abs_mul_le(a1 as int, b1 as int, m);
        lemma_abs_mul_le(a2 as int, b2 as int, m);
        lemma_abs_mul_le(a3 as int, b3 as int, m);
    }
    (a0 as i128) * (b0 as i128) + (a1 as i128) * (b1 as i128) + (a2 as i128) * (b2 as i128) + (
    a3 as i128) * (b3 as i128)
}

impl<const C: usize> Matrix<C> {
    pub fn new(data: [[i64; 4]; C]) -> (r: Matrix<C>)
        ensures
            r@.len() == C as int,
            forall|j: int| 0 <= j < C ==> r@[j] =~= data@[j]@,
    {
        let mut cols = [Array([0, 0, 0, 0]); C];
        let mut j: usize = 0;
        while j < C
            invariant
                j <= C,
                cols@.len() == C as int,
                forall|k: int| 0 <= k < j ==> cols@[k]@ =~= data@[k]@,
            decreases C - j,
        {
            cols[j] = Array(data[j]);
            j += 1;
        }
        Matrix(cols)
    }
}

impl<const C: usize> Default for Matrix<C> {
    /// The zero matrix.
    fn default() -> (r: Matrix<C>)
        ensures
            r@.len() == C as int,
            forall|j: int, i: int| 0 <= j < C && 0 <= i < 4 ==> r@[j][i] == 0,
    {
        Matrix([Array([0, 0, 0, 0]); C])
    }
}

impl<const C: usize> PartialEq for Matrix<C> {
    fn eq(&self, other: &Matrix<C>) -> (r: bool) {
        let mut j: usize = 0;
        let mut same = true;
        while j < C
            invariant
                j <= C,
                same == (forall|k: int| 0 <= k < j ==> self@[k] == other@[k]),
            decreases C - j,
        {
            let c = self.0[j] == other.0[j];
            proof {
                if c {
                    assert(self@[j as int] =~= other@[j as int]);
                } else {
                    if self@[j as int] == other@[j as int] {
                        assert(self.0@[j as int]@ =~= other.0@[j as int]@);
                    }
                }
            }
            same = same && c;
            j += 1;
        }
        proof {
            if same {
                assert(self@ =~~= other@);
            } else {
                let k = choose|k: int| 0 <= k < C && self@[k] != other@[k];
                if self@ =~~= other@ {
                    assert(self@[k] == other@[k]);
                }
            }
        }
        same
    }
}

impl<const C: usize> vstd::std_specs::cmp::PartialEqSpecImpl for Matrix<C> {
    open spec fn obeys_eq_spec() -> bool {
        true
    }

    open spec fn eq_spec(&self, other: &Matrix<C>) -> bool {
        self@ =~~= other@
    }
}

impl<const C: usize> core::ops::Add for Matrix<C> {
    type Output = Matrix<C>;

    fn add(self, rhs: Matrix<C>) -> (r: Matrix<C>)
        ensures
            r@.len() == C as int,
            forall|j: int| 0 <= j < C ==> r.0@[j] == sum_of(self.0@[j], rhs.0@[j]),
    {
        let mut cols = [Array([0, 0, 0, 0]); C];
        let mut j: usize = 0;
        while j < C
            invariant
                j <= C,
                cols@.len() == C as int,
                forall|k: int| 0 <= k < C ==> add_in_range(self@[k], rhs@[k]),
                forall|k: int| 0 <= k < j ==> cols@[k] == sum_of(self.0@[k], rhs.0@[k]),
            decreases C - j,
        {
            proof {
                assert(add_in_range(self@[j as int], rhs@[j as int]));
            }
            cols[j] = self.0[j] + rhs.0[j];
            j += 1;
        }
        Matrix(cols)
    }
}

impl<const C: usize> vstd::std_specs::ops::AddSpecImpl for Matrix<C> {
    open spec fn obeys_add_spec() -> bool {
        false
    }

    open spec fn add_req(self, rhs: Matrix<C>) -> bool {
        forall|k: int| 0 <= k < C ==> add_in_range(self@[k], rhs@[k])
    }

    open spec fn add_spec(self, rhs: Matrix<C>) -> Matrix<C> {
        arbitrary()
    }
}

impl<const C: usize> core::ops::Sub for Matrix<C> {
    type Output = Matrix<C>;

    fn sub(self, rhs: Matrix<C>) -> (r: Matrix<C>)
        ensures
            r@.len() == C as int,
            forall|j: int| 0 <= j < C ==> r.0@[j] == diff_of(self.0@[j], rhs.0@[j]),
    {
        let mut cols = [Array([0, 0, 0, 0]); C];
        let mut j: usize = 0;
        while j < C
            invariant
                j <= C,
                cols@.len() == C as int,
                forall|k: int| 0 <= k < C ==> sub_in_range(self@[k], rhs@[k]),
                forall|k: int| 0 <= k < j ==> cols@[k] == diff_of(self.0@[k], rhs.0@[k]),
            decreases C - j,
        {
            proof {
                assert(sub_in_range(self@[j as int], rhs@[j as int]));
            }
            cols[j] = self.0[j] - rhs.0[j];
            j += 1;
        }
        Matrix(cols)
    }
}

impl<const C: usize> vstd::std_specs::ops::SubSpecImpl for Matrix<C> {
    open spec fn obeys_sub_spec() -> bool {
        false
    }

    open spec fn sub_req(self, rhs: Matrix<C>) -> bool {
        forall|k: int| 0 <= k < C ==> sub_in_range(self@[k], rhs@[k])
    }

    open spec fn sub_spec(self, rhs: Matrix<C>) -> Matrix<C> {
        arbitrary()
    }
}

impl core::ops::Mul<Array> for Matrix<4> {
    type Output = Array;

    /// Matrix-vector product, exact over the integers.
    fn mul(self, rhs: Array) -> (r: Array)
        ensures
            forall|i: int| 0 <= i < 4 ==> r@[i] == product_entry(self@, rhs@, i),
    {
        proof {
            let m = MAX_COMPONENT as int;
            assert forall|k: int, i: int| 0 <= k < 4 && 0 <= i < 4 implies -m
                <= #[trigger] self.0@[k].0@[i] <= m by {
                assert(self@[k][i] == self.0@[k].0@[i]);
            }
            assert forall|i: int| 0 <= i < 4 implies -m <= #[trigger] rhs.0@[i] <= m by {
                assert(rhs@[i] == rhs.0@[i]);
            }
        }
        let e0 = dot4(
            self.0[0].0[0],
            self.0[1].0[0],
            self.0[2].0[0],
            self.0[3].0[0],
            rhs.0[0],
            rhs.0[1],
            rhs.0[2],
            rhs.0[3],
        );
        let e1 = dot4(
            self.0[0].0[1],
            self.0[1].0[1],
            self.0[2].0[1],
            self.0[3].0[1],
            rhs.0[0],
            rhs.0[1],
            rhs.0[2],
            rhs.0[3],
        );
        let e2 = dot4(
            self.0[0].0[2],
            self.0[1].0[2],
            self.0[2].0[2],
            self.0[3].0[2],
            rhs.0[0],
            rhs.0[1],
            rhs.0[2],
            rhs.0[3],
        );
        let e3 = dot4(
            self.0[0].0[3],
            self.0[1].0[3],
            self.0[2].0[3],
            self.0[3].0[3],
            rhs.0[0],
            rhs.0[1],
            rhs.0[2],
            rhs.0[3],
        );
        assert(e0 == product_entry(self@, rhs@, 0));
        assert(e1 == product_entry(self@, rhs@, 1));
        assert(e2 == product_entry(self@, rhs@, 2));
        assert(e3 == product_entry(self@, rhs@, 3));
        assert(i64::MIN <= e0 <= i64::MAX && i64::MIN <= e1 <= i64::MAX && i64::MIN <= e2
            <= i64::MAX && i64::MIN <= e3 <= i64::MAX);
        Array([e0 as i64, e1 as i64, e2 as i64, e3 as i64])
    }
}

impl vstd::std_specs::ops::MulSpecImpl<Array> for Matrix<4> {
    open spec fn obeys_mul_spec() -> bool {
        false
    }

    open spec fn mul_req(self, rhs: Array) -> bool {
        entries_bounded(self@, MAX_COMPONENT as int) && vector_bounded(rhs@, MAX_COMPONENT as int)
            && product_in_range(self@, rhs@)
    }

    open spec fn mul_spec(self, rhs: Array) -> Array {
        arbitrary()
    }
}

impl core::ops::Mul<Matrix<4>> for Matrix<4> {
    type Output = Matrix<4>;

    /// Matrix-matrix product: `self` applied to each column of `rhs`,
    /// exact over the integers.
    fn mul(self, rhs: Matrix<4>) -> (r: Matrix<4>)
        ensures
            forall|j: int, i: int|
                0 <= j < 4 && 0 <= i < 4 ==> r@[j][i] == product_entry(self@, rhs@[j], i),
    {
        proof {
            let m = MAX_COMPONENT as int;
            assert forall|k: int, i: int| 0 <= k < 4 && 0 <= i < 4 implies -m
                <= #[trigger] rhs.0@[k]@[i] <= m by {
                assert(rhs@[k][i] == rhs.0@[k]@[i]);
            }
            assert forall|k: int, i: int| 0 <= k < 4 && 0 <= i < 4 implies i64::MIN
                <= #[trigger] product_entry(self@, rhs.0@[k]@, i) <= i64::MAX by {
                assert(rhs@[k] == rhs.0@[k]@);
                assert(i64::MIN <= product_entry(self@, rhs@[k], i) <= i64::MAX);
            }
        }
        let c0 = self * rhs.0[0];
        let c1 = self * rhs.0[1];
        let c2 = self * rhs.0[2];
        let c3 = self * rhs.0[3];
        Matrix([c0, c1, c2, c3])
    }
}

impl vstd::std_specs::ops::MulSpecImpl<Matrix<4>> for Matrix<4> {
    open spec fn obeys_mul_spec() -> bool {
        false
    }

    open spec fn mul_req(self, rhs: Matrix<4>) -> bool {
        entries_bounded(self@, MAX_COMPONENT as int) && entries_bounded(
            rhs@,
            MAX_COMPONENT as int,
        ) && mat_product_in_range(self@, rhs@)
    }

    open spec fn mul_spec(self, rhs: Matrix<4>) -> Matrix<4> {
        arbitrary()
    }
}

/// The identity matrix in plain units: ones on the diagonal.
pub open spec fn identity_plain() -> Seq<Seq<i64>> {
    Seq::new(4, |j: int| Seq::new(4, |i: int| if i == j { 1i64 } else { 0i64 }))
}

/// The identity matrix is an identity of the exact matrix-vector product.
pub proof fn lemma_identity_vec(v: Seq<i64>)
    requires
        v.len() == 4,
    ensures
        forall|i: int| 0 <= i < 4 ==> #[trigger] product_entry(identity_plain(), v, i) == v[i],
{
    assert forall|i: int| 0 <= i < 4 implies #[trigger] product_entry(identity_plain(), v, i)
        == v[i] by {
        if i == 0 {
            assert(identity_plain()[0][0] == 1i64);
            assert(identity_plain()[1][0] == 0i64);
            assert(identity_plain()[2][0] == 0i64);
            assert(identity_plain()[3][0] == 0i64);
            assert(product_entry(identity_plain(), v, 0) == v[0]);
        } else
        if i == 1 {
            assert(identity_plain()[0][1] == 0i64);
            assert(identity_plain()[1][1] == 1i64);
            assert(identity_plain()[2][1] == 0i64);
            assert(identity_plain()[3][1] == 0i64);
            assert(product_entry(identity_plain(), v, 1) == v[1]);
        } else
        if i == 2 {
            assert(identity_plain()[0][2] == 0i64);
            assert(identity_plain()[1][2] == 0i64);
            assert(identity_plain()[2][2] == 1i64);
            assert(identity_plain()[3][2] == 0i64);
            assert(product_entry(identity_plain(), v, 2) == v[2]);
        } else {
            assert(identity_plain()[0][3] == 0i64);
            assert(identity_plain()[1][3] == 0i64);
            assert(identity_plain()[2][3] == 0i64);
            assert(identity_plain()[3][3] == 1i64);
            assert(product_entry(identity_plain(), v, 3) == v[3]);
        }
    }
}

/// The identity matrix is a two-sided identity of the exact matrix-matrix
/// product: applying it on either side leaves every entry unchanged.
pub proof fn lemma_identity_mat(m: Seq<Seq<i64>>)
    requires
        m.len() == 4,
        forall|j: int| 0 <= j < 4 ==> #[trigger] m[j].len() == 4,
    ensures
        forall|j: int, i: int|
            0 <= j < 4 && 0 <= i < 4 ==> #[trigger] product_entry(identity_plain(), m[j], i)
                == m[j][i],
        forall|j: int, i: int|
            0 <= j < 4 && 0 <= i < 4 ==> #[trigger] product_entry(m, identity_plain()[j], i)
                == m[j][i],
{
    assert forall|j: int, i: int|
        0 <= j < 4 && 0 <= i < 4 implies #[trigger] product_entry(identity_plain(), m[j], i)
        == m[j][i] by {
        lemma_identity_vec(m[j]);
    }
    assert forall|j: int, i: int|
        0 <= j < 4 && 0 <= i < 4 implies #[trigger] product_entry(m, identity_plain()[j], i)
        == m[j][i] by {
        if j == 0 {
            assert(identity_plain()[0][0] == 1i64);
            assert(identity_plain()[0][1] == 0i64);
            assert(identity_plain()[0][2] == 0i64);
            assert(identity_plain()[0][3] == 0i64);
            assert(product_entry(m, identity_plain()[0], i) == m[0][i]);
        } else if j == 1 {
            assert(identity_plain()[1][0] == 0i64);
            assert(identity_plain()[1][1] == 1i64);
            assert(identity_plain()[1][2] == 0i64);
            assert(identity_plain()[1][3] == 0i64);
            assert(product_entry(m, identity_plain()[1], i) == m[1][i]);
        } else if j == 2 {
            assert(identity_plain()[2][0] == 0i64);
            assert(identity_plain()[2][1] == 0i64);
            assert(identity_plain()[2][2] == 1i64);
            assert(identity_plain()[2][3] == 0i64);
            assert(product_entry(m, identity_plain()[2], i) == m[2][i]);
        } else {
            assert(identity_plain()[3][0] == 0i64);
            assert(identity_plain()[3][1] == 0i64);
            assert(identity_plain()[3][2] == 0i64);
            assert(identity_plain()[3][3] == 1i64);
            assert(product_entry(m, identity_plain()[3], i) == m[3][i]);
        }
    }
}

} // verus!
