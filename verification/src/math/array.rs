use vstd::prelude::*;

verus! {

/// A 4-component vector of fixed-point scalars (see `crate::math::SCALE`).
/// Raw component values are plain `i64`; the arithmetic here is exact
/// componentwise integer arithmetic.
#[derive(Debug, Clone, Copy)]
pub struct Array(pub [i64; 4]);

impl View for Array {
    type V = Seq<i64>;

    open spec fn view(&self) -> Seq<i64> {
        self.0@
    }
}

/// Componentwise sums of `a` and `b` stay within `i64`.
pub open spec fn add_in_range(a: Seq<i64>, b: Seq<i64>) -> bool {
    forall|i: int| 0 <= i < 4 ==> i64::MIN <= #[trigger] (a[i] + b[i]) <= i64::MAX
}

/// Componentwise differences of `a` and `b` stay within `i64`.
pub open spec fn sub_in_range(a: Seq<i64>, b: Seq<i64>) -> bool {
    forall|i: int| 0 <= i < 4 ==> i64::MIN <= #[trigger] (a[i] - b[i]) <= i64::MAX
}

/// Components of `a`, each multiplied by `k`, stay within `i64`.
pub open spec fn scale_in_range(a: Seq<i64>, k: i64) -> bool {
    forall|i: int| 0 <= i < 4 ==> i64::MIN <= #[trigger] (a[i] * k) <= i64::MAX
}

/// The componentwise sum of two vectors.
pub open spec fn sum_of(a: Array, b: Array) -> Array {
    Array(
        [
            (a@[0] + b@[0]) as i64,
            (a@[1] + b@[1]) as i64,
            (a@[2] + b@[2]) as i64,
            (a@[3] + b@[3]) as i64,
        ],
    )
}

/// The componentwise difference of two vectors.
pub open spec fn diff_of(a: Array, b: Array) -> Array {
    Array(
        [
            (a@[0] - b@[0]) as i64,
            (a@[1] - b@[1]) as i64,
            (a@[2] - b@[2]) as i64,
            (a@[3] - b@[3]) as i64,
        ],
    )
}

/// Every component multiplied by the raw scalar `k`.
pub open spec fn scaled_by(a: Array, k: i64) -> Array {
    Array(
        [
            (a@[0] * k) as i64,
            (a@[1] * k) as i64,
            (a@[2] * k) as i64,
            (a@[3] * k) as i64,
        ],
    )
}

impl Array {
    pub fn new(data: [i64; 4]) -> (r: Array)
        ensures
            r@ == data@,
    {
        Array(data)
    }
}

impl Default for Array {
    /// The zero vector.
    fn default() -> (r: Array)
        ensures
            forall|i: int| 0 <= i < 4 ==> r@[i] == 0,
    {
        Array([0, 0, 0, 0])
    }
}

impl PartialEq for Array {
    fn eq(&self, other: &Array) -> (r: bool) {
        self.0[0] == other.0[0] && self.0[1] == other.0[1] && self.0[2] == other.0[2]
            && self.0[3] == other.0[3]
    }
}

impl vstd::std_specs::cmp::PartialEqSpecImpl for Array {
    open spec fn obeys_eq_spec() -> bool {
        true
    }

    open spec fn eq_spec(&self, other: &Array) -> bool {
        self@ =~= other@
    }
}

impl core::ops::Add for Array {
    type Output = Array;

    fn add(self, rhs: Array) -> (r: Array) {
        Array(
            [
                self.0[0] + rhs.0[0],
                self.0[1] + rhs.0[1],
                self.0[2] + rhs.0[2],
                self.0[3] + rhs.0[3],
            ],
        )
    }
}

impl vstd::std_specs::ops::AddSpecImpl for Array {
    open spec fn obeys_add_spec() -> bool {
        true
    }

    open spec fn add_req(self, rhs: Array) -> bool {
        add_in_range(self@, rhs@)
    }

    open spec fn add_spec(self, rhs: Array) -> Array {
        sum_of(self, rhs)
    }
}

impl core::ops::Sub for Array {
    type Output = Array;

    fn sub(self, rhs: Array) -> (r: Array) {
        Array(
            [
                self.0[0] - rhs.0[0],
                self.0[1] - rhs.0[1],
                self.0[2] - rhs.0[2],
                self.0[3] - rhs.0[3],
            ],
        )
    }
}

impl vstd::std_specs::ops::SubSpecImpl for Array {
    open spec fn obeys_sub_spec() -> bool {
        true
    }

    open spec fn sub_req(self, rhs: Array) -> bool {
        sub_in_range(self@, rhs@)
    }

    open spec fn sub_spec(self, rhs: Array) -> Array {
        diff_of(self, rhs)
    }
}

impl core::ops::Mul<i64> for Array {
    type Output = Array;

    fn mul(self, rhs: i64) -> (r: Array) {
        Array(
            [
                self.0[0] * rhs,
                self.0[1] * rhs,
                self.0[2] * rhs,
                self.0[3] * rhs,
            ],
        )
    }
}

impl vstd::std_specs::ops::MulSpecImpl<i64> for Array {
    open spec fn obeys_mul_spec() -> bool {
        true
    }

    open spec fn mul_req(self, rhs: i64) -> bool {
        scale_in_range(self@, rhs)
    }

    open spec fn mul_spec(self, rhs: i64) -> Array {
        scaled_by(self, rhs)
    }
}

/// Adding a vector and then subtracting it again gives the original vector
/// back exactly, whenever the intermediate sums stay in range.
pub proof fn lemma_add_sub_cancels(a: Array, b: Array)
    requires
        add_in_range(a@, b@),
    ensures
        diff_of(sum_of(a, b), b) == a,
{
    let s = diff_of(sum_of(a, b), b);
    assert(s.0 =~= a.0);
}

} // verus!
