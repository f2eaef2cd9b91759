use vstd::prelude::*;

use crate::math::Array4;
use crate::math::FIXED_MAX;
use crate::math::Matrix4;
use crate::math::cross;
use crate::math::cross_of;
use crate::math::fixed_mul;
use crate::math::fixed_product_entry;
use crate::math::fmul;
use crate::math::norm_sq3;
use crate::math::array::Array;
use crate::math::fixed::SCALE;
use crate::math::fixed::lemma_tdiv_between;
use crate::math::fixed::sqrt_floor;
use crate::math::fixed::tdiv;
use crate::math::matrix::Matrix;
use crate::math::matrix::entries_bounded;
use crate::math::matrix::product_entry;
use crate::math::matrix::vector_bounded;
use crate::math::trig::cos_deg;
use crate::math::trig::cos_of_deg;
use crate::math::trig::lemma_cos_half_range;
use crate::math::trig::lemma_sin_half_pos;
use crate::math::trig::sin_deg;
use crate::math::trig::sin_of_deg;

use vstd::arithmetic::div_mod::lemma_div_is_ordered_by_denominator;

verus! {

/// Bound on camera position components: 400 whole units. Keeps every entry
/// of the composed view and model-view-projection products in range.
pub const CAMERA_POS_MAX: i64 = 400_000_000_000;

/// Bound on direction components: directions are unit-length by intent, two
/// whole units leaves headroom.
pub const CAMERA_DIR_MAX: i64 = 2_000_000_000;

/// A movement command for the camera, as delivered by the input collaborator.
#[derive(Debug, Clone, Copy, PartialEq, Eq, Structural)]
pub enum MoveDirection {
    Forward,
    Backward,
    Left,
    Right,
}

/// The camera: a position (point, homogeneous one), a look direction and an
/// up direction (both directions, homogeneous zero), and the perspective
/// parameters.
#[derive(Debug, Clone, Copy)]
pub struct CameraInfo {
    pub position: Array4,
    pub lookat: Array4,
    pub updir: Array4,
    /// Half the total field of view, in degrees.
    pub fov2: i32,
    /// Distance to the near plane.
    pub znear: i64,
    /// Distance to the far plane.
    pub zfar: i64,
    /// Width over height.
    pub aspect: i64,
}

impl CameraInfo {
    /// The ranges under which every product in the camera's transforms is
    /// exact and free of overflow.
    pub open spec fn wf(self) -> bool {
        &&& vector_bounded(self.position@, CAMERA_POS_MAX as int)
        &&& vector_bounded(self.lookat@, CAMERA_DIR_MAX as int)
        &&& vector_bounded(self.updir@, CAMERA_DIR_MAX as int)
        &&& 1 <= self.fov2 <= 89
        &&& 0 < self.znear
        &&& 2 * (self.znear as int) <= self.zfar <= FIXED_MAX as int
        &&& 0 < self.aspect <= 4 * (SCALE as int)
    }

    /// The raw right-hand direction: the cross product of the look and up
    /// directions.
    pub open spec fn right_raw(self) -> Seq<int> {
        cross_of(self.lookat@, self.updir@)
    }

    /// The camera basis is degenerate when look and up are parallel: their
    /// cross product vanishes.
    pub open spec fn degenerate(self) -> bool {
        self.right_raw()[0] == 0 && self.right_raw()[1] == 0 && self.right_raw()[2] == 0
    }

    /// The right-hand direction scaled to unit length.
    pub open spec fn right_unit(self) -> Seq<int> {
        let c = self.right_raw();
        let root = sqrt_floor((c[0] * c[0] + c[1] * c[1] + c[2] * c[2]) as nat) as int;
        seq![
            tdiv(c[0] * SCALE, root),
            tdiv(c[1] * SCALE, root),
            tdiv(c[2] * SCALE, root),
            0,
        ]
    }

    /// The basis-change half of the view transform: rows are the camera's
    /// right, up and backward axes.
    pub open spec fn view_rotation_spec(self) -> Seq<Seq<i64>> {
        let r = self.right_unit();
        let u = self.updir@;
        let l = self.lookat@;
        seq![
            seq![r[0] as i64, u[0], (-(l[0] as int)) as i64, 0i64],
            seq![r[1] as i64, u[1], (-(l[1] as int)) as i64, 0i64],
            seq![r[2] as i64, u[2], (-(l[2] as int)) as i64, 0i64],
            seq![0i64, 0i64, 0i64, SCALE],
        ]
    }

    /// The translation half of the view transform: moves the camera position
    /// to the origin.
    pub open spec fn translation_spec(self) -> Seq<Seq<i64>> {
        let p = self.position@;
        seq![
            seq![SCALE, 0i64, 0i64, 0i64],
            seq![0i64, SCALE, 0i64, 0i64],
            seq![0i64, 0i64, SCALE, 0i64],
            seq![
                (-(p[0] as int)) as i64,
                (-(p[1] as int)) as i64,
                (-(p[2] as int)) as i64,
                SCALE,
            ],
        ]
    }

    /// Entry (`j`, `i`) of the composed view transform: rotation applied
    /// after translation.
    pub open spec fn view_entry(self, j: int, i: int) -> int {
        fixed_product_entry(self.view_rotation_spec(), self.translation_spec()[j], i)
    }

    /// The view transform: translate the camera position to the origin, then
    /// rotate the world into the camera basis. Reports a degenerate basis
    /// (parallel look and up directions) instead of producing one.
    pub fn modelview_transform_matrix(&self) -> (r: Option<Matrix4>)
        requires
            self.wf(),
        ensures
            r is None <==> self.degenerate(),
            r matches Some(m) ==> forall|j: int, i: int|
                0 <= j < 4 && 0 <= i < 4 ==> m@[j][i] == #[trigger] self.view_entry(j, i),
            r matches Some(m) ==> entries_bounded(m@, FIXED_MAX as int),
    {
        proof {
            lemma_unit_products(self.lookat@, self.updir@);
        }
        let mut gt_perp = cross(&self.lookat, &self.updir);
        proof {
            assert(gt_perp@[0] == self.right_raw()[0] && gt_perp@[1] == self.right_raw()[1]
                && gt_perp@[2] == self.right_raw()[2]);
        }
        if gt_perp.0[0] == 0 && gt_perp.0[1] == 0 && gt_perp.0[2] == 0 {
            return None;
        }
        proof {
            assert(vector_bounded(gt_perp@, FIXED_MAX as int));
            assert(norm_sq3(gt_perp@) > 0) by (nonlinear_arith)
                requires
                    norm_sq3(gt_perp@) == gt_perp@[0] * gt_perp@[0] + gt_perp@[1] * gt_perp@[1]
                        + gt_perp@[2] * gt_perp@[2],
                    !(gt_perp@[0] == 0 && gt_perp@[1] == 0 && gt_perp@[2] == 0),
            ;
        }
        gt_perp.normalize();
        let move_transformation = Matrix::new(
            [
                [SCALE, 0, 0, 0],
                [0, SCALE, 0, 0],
                [0, 0, SCALE, 0],
                [-self.position.0[0], -self.position.0[1], -self.position.0[2], SCALE],
            ],
        );
        let rotation_transform = Matrix::new(
            [
                [gt_perp.0[0], self.updir.0[0], -self.lookat.0[0], 0],
                [gt_perp.0[1], self.updir.0[1], -self.lookat.0[1], 0],
                [gt_perp.0[2], self.updir.0[2], -self.lookat.0[2], 0],
                [0, 0, 0, SCALE],
            ],
        );
        proof {
            assert(rotation_transform@[0] =~= self.view_rotation_spec()[0]);
            assert(rotation_transform@[1] =~= self.view_rotation_spec()[1]);
            assert(rotation_transform@[2] =~= self.view_rotation_spec()[2]);
            assert(rotation_transform@[3] =~= self.view_rotation_spec()[3]);
            assert(rotation_transform@ =~~= self.view_rotation_spec());
            assert(move_transformation@[0] =~= self.translation_spec()[0]);
            assert(move_transformation@[1] =~= self.translation_spec()[1]);
            assert(move_transformation@[2] =~= self.translation_spec()[2]);
            assert(move_transformation@[3] =~= self.translation_spec()[3]);
            assert(move_transformation@ =~~= self.translation_spec());
            assert forall|j: int, i: int| 0 <= j < 4 && 0 <= i < 4 implies -2 * (SCALE as int)
                <= #[trigger] rotation_transform@[j][i] <= 2 * (SCALE as int) by {
                if j == 0 {
                    assert(rotation_transform@[0][i] == self.view_rotation_spec()[0][i]);
                } else if j == 1 {
                    assert(rotation_transform@[1][i] == self.view_rotation_spec()[1][i]);
                } else if j == 2 {
                    assert(rotation_transform@[2][i] == self.view_rotation_spec()[2][i]);
                } else {
                    assert(rotation_transform@[3][i] == self.view_rotation_spec()[3][i]);
                }
            }
            assert forall|j: int, i: int| 0 <= j < 4 && 0 <= i < 4 implies -(CAMERA_POS_MAX as int)
                <= #[trigger] move_transformation@[j][i] <= CAMERA_POS_MAX as int by {
                if j == 0 {
                    assert(move_transformation@[0][i] == self.translation_spec()[0][i]);
                } else if j == 1 {
                    assert(move_transformation@[1][i] == self.translation_spec()[1][i]);
                } else if j == 2 {
                    assert(move_transformation@[2][i] == self.translation_spec()[2][i]);
                } else {
                    assert(move_transformation@[3][i] == self.translation_spec()[3][i]);
                }
            }
        }
        let m = rotation_transform.mul_fixed(&move_transformation);
        proof {
            lemma_view_entries_bounded(self.view_rotation_spec(), self.translation_spec());
        }
        Some(m)
    }

    /// The perspective projection as a matrix value: `sc` is the cotangent
    /// of the half field of view, `a` and `b` map view-space depth into clip
    /// space.
    pub open spec fn projection_spec(self) -> Seq<Seq<i64>> {
        let sc = tdiv(cos_deg(self.fov2 as int) * SCALE, sin_deg(self.fov2 as int));
        let a = -tdiv(self.zfar * SCALE, self.zfar - self.znear);
        let b = fmul(self.znear as int, a);
        seq![
            seq![fmul(self.aspect as int, sc) as i64, 0i64, 0i64, 0i64],
            seq![0i64, sc as i64, 0i64, 0i64],
            seq![0i64, 0i64, a as i64, (-(SCALE as int)) as i64],
            seq![0i64, 0i64, b as i64, 0i64],
        ]
    }

    /// The perspective projection matrix: depth maps into clip space, the
    /// homogeneous coordinate receives the negated view-space depth.
    pub fn projection_matrix(&self) -> (r: Matrix4)
        requires
            self.wf(),
        ensures
            r@ =~~= self.projection_spec(),
            entries_bounded(r@, FIXED_MAX as int),
    {
        let s = sin_of_deg(self.fov2);
        let c = cos_of_deg(self.fov2);
        proof {
            lemma_sin_half_pos(2 * (self.fov2 as int));
            lemma_cos_half_range(2 * (self.fov2 as int));
            assert(-((SCALE as int) * (SCALE as int)) <= (c as int) * (SCALE as int) <= (
            SCALE as int) * (SCALE as int)) by (nonlinear_arith)
                requires
                    -(SCALE as int) <= c as int <= SCALE as int,
            ;
            crate::math::fixed::lemma_tdiv_abs_le(
                (c as int) * (SCALE as int),
                s as int,
                (SCALE as int) * (SCALE as int),
            );
            lemma_div_is_ordered_by_denominator(
                (SCALE as int) * (SCALE as int),
                8726535,
                s as int,
            );
            assert((SCALE as int) * (SCALE as int) == 1_000_000_000_000_000_000)
                by (nonlinear_arith);
        }
        let sc = (((c as i128) * (SCALE as i128)) / (s as i128)) as i64;
        proof {
            let zf = self.zfar as int;
            let zn = self.znear as int;
            let d = zf - zn;
            assert(0 < zf * (SCALE as int)) by (nonlinear_arith)
                requires
                    0 < zn,
                    2 * zn <= zf,
            ;
            crate::math::fixed::lemma_tdiv_remainder(zf * (SCALE as int), d);
            let q = tdiv(zf * (SCALE as int), d);
            assert(q >= 0) by (nonlinear_arith)
                requires
                    q * d + d > zf * (SCALE as int),
                    zf * (SCALE as int) > 0,
                    d > 0,
            ;
            assert(q <= 2 * (SCALE as int)) by (nonlinear_arith)
                requires
                    q * d <= zf * (SCALE as int),
                    d == zf - zn,
                    2 * zn <= zf,
                    zf > 0,
                    q >= 0,
            ;
        }
        let a = (-(((self.zfar as i128) * (SCALE as i128)) / ((self.zfar - self.znear) as i128)))
            as i64;
        proof {
            let zn = self.znear as int;
            assert(-((FIXED_MAX as int) * (SCALE as int)) <= zn * (a as int) <= (FIXED_MAX as int)
                * (SCALE as int)) by (nonlinear_arith)
                requires
                    0 < zn,
                    2 * zn <= FIXED_MAX as int,
                    -2 * (SCALE as int) <= a as int <= 2 * (SCALE as int),
                    SCALE == 1_000_000_000i64,
            ;
            lemma_tdiv_between(
                zn * (a as int),
                SCALE as int,
                -(FIXED_MAX as int),
                FIXED_MAX as int,
            );
            let asp = self.aspect as int;
            assert(-(4_000_000_000int * 1_000_000_000_000) <= asp * (sc as int) <= 4_000_000_000int
                * 1_000_000_000_000) by (nonlinear_arith)
                requires
                    0 < asp <= 4_000_000_000,
                    -1_000_000_000_000 <= sc as int <= 1_000_000_000_000,
            ;
            assert((-4_000_000_000_000int) * (SCALE as int) == -(4_000_000_000int
                * 1_000_000_000_000) && (4_000_000_000_000int) * (SCALE as int) == 4_000_000_000int
                * 1_000_000_000_000) by (nonlinear_arith);
            lemma_tdiv_between(
                asp * (sc as int),
                SCALE as int,
                -4_000_000_000_000,
                4_000_000_000_000,
            );
        }
        let b = fixed_mul(self.znear, a);
        let aspect_sc = fixed_mul(self.aspect, sc);
        let r = Matrix::new(
            [
                [aspect_sc, 0, 0, 0],
                [0, sc, 0, 0],
                [0, 0, a, -SCALE],
                [0, 0, b, 0],
            ],
        );
        proof {
            assert(r@[0] =~= self.projection_spec()[0]);
            assert(r@[1] =~= self.projection_spec()[1]);
            assert(r@[2] =~= self.projection_spec()[2]);
            assert(r@[3] =~= self.projection_spec()[3]);
            assert forall|j: int, i: int| 0 <= j < 4 && 0 <= i < 4 implies -(FIXED_MAX as int)
                <= #[trigger] r@[j][i] <= FIXED_MAX as int by {
                if j == 0 {
                    assert(r@[0][i] == self.projection_spec()[0][i]);
                } else if j == 1 {
                    assert(r@[1][i] == self.projection_spec()[1][i]);
                } else if j == 2 {
                    assert(r@[2][i] == self.projection_spec()[2][i]);
                } else {
                    assert(r@[3][i] == self.projection_spec()[3][i]);
                }
            }
        }
        r
    }

    /// The combined model-view-projection transform: projection applied
    /// after the view, or a degenerate-basis report.
    pub fn get_mvp(&self) -> (r: Option<Matrix4>)
        requires
            self.wf(),
        ensures
            r is None <==> self.degenerate(),
            r matches Some(m) ==> forall|j: int, i: int|
                0 <= j < 4 && 0 <= i < 4 ==> m@[j][i] == #[trigger] fixed_product_entry(
                    self.projection_spec(),
                    view_matrix_of(*self)[j],
                    i,
                ),
    {
        let view = match self.modelview_transform_matrix() {
            Some(v) => v,
            None => {
                return None;
            },
        };
        let proj = self.projection_matrix();
        let m = proj.mul_fixed(&view);
        proof {
            assert forall|j: int, i: int| 0 <= j < 4 && 0 <= i < 4 implies m@[j][i]
                == #[trigger] fixed_product_entry(self.projection_spec(), view_matrix_of(*self)[j], i) by {
                assert(view@[j] =~= view_matrix_of(*self)[j]);
            }
        }
        Some(m)
    }

    /// Move the camera by one command: translate the position along the look
    /// direction (forward or backward) or along the right-hand direction
    /// (left or right), scaled by the elapsed time `delta` (in units of a
    /// second). With a degenerate basis a sideways command leaves the
    /// position unchanged.
    pub fn camera_move(&mut self, direction: MoveDirection, delta: i64)
        requires
            old(self).wf(),
            vector_bounded(old(self).position@, CAMERA_POS_MAX - 32 * SCALE),
            0 <= delta <= 16 * SCALE,
        ensures
            final(self).lookat == old(self).lookat,
            final(self).updir == old(self).updir,
            final(self).wf(),
            direction == MoveDirection::Forward ==> forall|i: int|
                0 <= i < 4 ==> final(self).position@[i] == old(self).position@[i] + fmul(
                    old(self).lookat@[i] as int,
                    delta as int,
                ),
            direction == MoveDirection::Backward ==> forall|i: int|
                0 <= i < 4 ==> final(self).position@[i] == old(self).position@[i] - fmul(
                    old(self).lookat@[i] as int,
                    delta as int,
                ),
            direction == MoveDirection::Right && !old(self).degenerate() ==> forall|i: int|
                0 <= i < 4 ==> final(self).position@[i] == old(self).position@[i] + fmul(
                    old(self).right_unit()[i],
                    delta as int,
                ),
            direction == MoveDirection::Left && !old(self).degenerate() ==> forall|i: int|
                0 <= i < 4 ==> final(self).position@[i] == old(self).position@[i] - fmul(
                    old(self).right_unit()[i],
                    delta as int,
                ),
            (direction == MoveDirection::Left || direction == MoveDirection::Right) && old(
                self,
            ).degenerate() ==> final(self).position == old(self).position,
    {
        match direction {
            MoveDirection::Forward => {
                let step = self.lookat.scale_fixed(delta);
                proof {
                    lemma_step_small(self.lookat@, delta as int);
                    assert forall|i: int| 0 <= i < 4 implies -32 * (SCALE as int)
                        <= #[trigger] step.0@[i] <= 32 * (SCALE as int) by {
                        assert(step@[i] == fmul(self.lookat@[i] as int, delta as int));
                    }
                }
                self.position = Array(
                    [
                        self.position.0[0] + step.0[0],
                        self.position.0[1] + step.0[1],
                        self.position.0[2] + step.0[2],
                        self.position.0[3] + step.0[3],
                    ],
                );
                proof {
                    assert forall|i: int| 0 <= i < 4 implies self.position@[i] == old(
                        self,
                    ).position@[i] + fmul(old(self).lookat@[i] as int, delta as int) by {
                        if i == 0 {
                            assert(self.position@[0] == old(self).position@[0] + step@[0]);
                        } else if i == 1 {
                            assert(self.position@[1] == old(self).position@[1] + step@[1]);
                        } else if i == 2 {
                            assert(self.position@[2] == old(self).position@[2] + step@[2]);
                        } else {
                            assert(self.position@[3] == old(self).position@[3] + step@[3]);
                        }
                    }
                }
            },
            MoveDirection::Backward => {
                let step = self.lookat.scale_fixed(delta);
                proof {
                    lemma_step_small(self.lookat@, delta as int);
                    assert forall|i: int| 0 <= i < 4 implies -32 * (SCALE as int)
                        <= #[trigger] step.0@[i] <= 32 * (SCALE as int) by {
                        assert(step@[i] == fmul(self.lookat@[i] as int, delta as int));
                    }
                }
                self.position = Array(
                    [
                        self.position.0[0] - step.0[0],
                        self.position.0[1] - step.0[1],
                        self.position.0[2] - step.0[2],
                        self.position.0[3] - step.0[3],
                    ],
                );
                proof {
                    assert forall|i: int| 0 <= i < 4 implies self.position@[i] == old(
                        self,
                    ).position@[i] - fmul(old(self).lookat@[i] as int, delta as int) by {
                        if i == 0 {
                            assert(self.position@[0] == old(self).position@[0] - step@[0]);
                        } else if i == 1 {
                            assert(self.position@[1] == old(self).position@[1] - step@[1]);
                        } else if i == 2 {
                            assert(self.position@[2] == old(self).position@[2] - step@[2]);
                        } else {
                            assert(self.position@[3] == old(self).position@[3] - step@[3]);
                        }
                    }
                }
            },
            MoveDirection::Left | MoveDirection::Right => {
                proof {
                    lemma_unit_products(self.lookat@, self.updir@);
                }
                let mut right = cross(&self.lookat, &self.updir);
                proof {
                    assert(right@[0] == self.right_raw()[0] && right@[1] == self.right_raw()[1]
                        && right@[2] == self.right_raw()[2]);
                }
                if right.0[0] == 0 && right.0[1] == 0 && right.0[2] == 0 {
                    return ;
                }
                proof {
                    assert(vector_bounded(right@, FIXED_MAX as int));
                    assert(norm_sq3(right@) > 0) by (nonlinear_arith)
                        requires
                            norm_sq3(right@) == right@[0] * right@[0] + right@[1] * right@[1]
                                + right@[2] * right@[2],
                            !(right@[0] == 0 && right@[1] == 0 && right@[2] == 0),
                    ;
                }
                right.normalize();
                proof {
                    assert(right@[0] as int == self.right_unit()[0]);
                    assert(right@[1] as int == self.right_unit()[1]);
                    assert(right@[2] as int == self.right_unit()[2]);
                    assert(right@[3] as int == self.right_unit()[3]);
                }
                let step = right.scale_fixed(delta);
                proof {
                    lemma_step_small(right@, delta as int);
                    assert forall|i: int| 0 <= i < 4 implies -32 * (SCALE as int)
                        <= #[trigger] step.0@[i] <= 32 * (SCALE as int) by {
                        assert(step@[i] == fmul(right@[i] as int, delta as int));
                    }
                }
                if matches!(direction, MoveDirection::Right) {
                    self.position = Array(
                        [
                            self.position.0[0] + step.0[0],
                            self.position.0[1] + step.0[1],
                            self.position.0[2] + step.0[2],
                            self.position.0[3] + step.0[3],
                        ],
                    );
                    proof {
                        assert forall|i: int| 0 <= i < 4 implies self.position@[i] == old(
                            self,
                        ).position@[i] + fmul(old(self).right_unit()[i], delta as int) by {
                            if i == 0 {
                                assert(self.position@[0] == old(self).position@[0] + step@[0]);
                            } else if i == 1 {
                                assert(self.position@[1] == old(self).position@[1] + step@[1]);
                            } else if i == 2 {
                                assert(self.position@[2] == old(self).position@[2] + step@[2]);
                            } else {
                                assert(self.position@[3] == old(self).position@[3] + step@[3]);
                            }
                        }
                    }
                } else {
                    self.position = Array(
                        [
                            self.position.0[0] - step.0[0],
                            self.position.0[1] - step.0[1],
                            self.position.0[2] - step.0[2],
                            self.position.0[3] - step.0[3],
                        ],
                    );
                    proof {
                        assert forall|i: int| 0 <= i < 4 implies self.position@[i] == old(
                            self,
                        ).position@[i] - fmul(old(self).right_unit()[i], delta as int) by {
                            if i == 0 {
                                assert(self.position@[0] == old(self).position@[0] - step@[0]);
                            } else if i == 1 {
                                assert(self.position@[1] == old(self).position@[1] - step@[1]);
                            } else if i == 2 {
                                assert(self.position@[2] == old(self).position@[2] - step@[2]);
                            } else {
                                assert(self.position@[3] == old(self).position@[3] - step@[3]);
                            }
                        }
                    }
                }
            },
        }
    }
}

impl Default for CameraInfo {
    /// The starting camera: five units above the origin, looking down the
    /// negative z axis, a half field of view of 45 degrees, and a portrait
    /// 9:16 aspect.
    fn default() -> (r: CameraInfo)
        ensures
            r.wf(),
            r.position@ =~= seq![0i64, (5 * (SCALE as int)) as i64, 0i64, SCALE],
            r.lookat@ =~= seq![0i64, 0i64, (-(SCALE as int)) as i64, 0i64],
            r.updir@ =~= seq![0i64, SCALE, 0i64, 0i64],
            vector_bounded(r.position@, CAMERA_POS_MAX - 32 * SCALE),
    {
        CameraInfo {
            position: Array([0, 5 * SCALE, 0, SCALE]),
            lookat: Array([0, 0, -SCALE, 0]),
            updir: Array([0, SCALE, 0, 0]),
            fov2: 45,
            znear: SCALE / 10,
            zfar: 1000 * SCALE,
            aspect: 9 * SCALE / 16,
        }
    }
}

/// Fixed-point products of two direction components stay within four units.
proof fn lemma_unit_products(x: Seq<i64>, y: Seq<i64>)
    requires
        vector_bounded(x, CAMERA_DIR_MAX as int),
        vector_bounded(y, CAMERA_DIR_MAX as int),
    ensures
        forall|a: int, b: int|
            0 <= a < 4 && 0 <= b < 4 ==> -4 * (SCALE as int) <= #[trigger] fmul(
                x[a] as int,
                y[b] as int,
            ) <= 4 * (SCALE as int),
{
    assert forall|a: int, b: int|
        0 <= a < 4 && 0 <= b < 4 implies -4 * (SCALE as int) <= #[trigger] fmul(
        x[a] as int,
        y[b] as int,
    ) <= 4 * (SCALE as int) by {
        let d = CAMERA_DIR_MAX as int;
        assert(-(d * d) <= x[a] * y[b] <= d * d) by (nonlinear_arith)
            requires
                -d <= x[a] <= d,
                -d <= y[b] <= d,
        ;
        assert((-4 * (SCALE as int)) * SCALE == -(d * d) && (4 * (SCALE as int)) * SCALE == d * d)
            by (nonlinear_arith)
            requires
                d == 2_000_000_000,
        ;
        lemma_tdiv_between(x[a] * y[b], SCALE as int, -4 * (SCALE as int), 4 * (SCALE as int));
    }
}

/// A movement step along a bounded direction, over at most sixteen seconds,
/// is at most thirty-two units per component.
proof fn lemma_step_small(dir: Seq<i64>, delta: int)
    requires
        vector_bounded(dir, CAMERA_DIR_MAX as int),
        0 <= delta <= 16 * (SCALE as int),
    ensures
        forall|i: int|
            0 <= i < 4 ==> -32 * (SCALE as int) <= #[trigger] fmul(dir[i] as int, delta) <= 32 * (
            SCALE as int),
{
    assert forall|i: int|
        0 <= i < 4 implies -32 * (SCALE as int) <= #[trigger] fmul(dir[i] as int, delta) <= 32 * (
    SCALE as int) by {
        let d = CAMERA_DIR_MAX as int;
        let s = SCALE as int;
        assert(-(d * (16 * s)) <= dir[i] * delta <= d * (16 * s)) by (nonlinear_arith)
            requires
                -d <= dir[i] <= d,
                0 <= delta <= 16 * s,
                s > 0,
        ;
        assert((-32 * s) * s == -(d * (16 * s)) && (32 * s) * s == d * (16 * s))
            by (nonlinear_arith)
            requires
                d == 2_000_000_000,
                s == 1_000_000_000,
        ;
        lemma_tdiv_between(dir[i] * delta, s, -32 * s, 32 * s);
    }
}

/// Entries of the composed view transform stay within the product bound.
proof fn lemma_view_entries_bounded(rot: Seq<Seq<i64>>, trans: Seq<Seq<i64>>)
    requires
        rot.len() == 4,
        trans.len() == 4,
        entries_bounded(rot, 2 * (SCALE as int)),
        entries_bounded(trans, CAMERA_POS_MAX as int),
    ensures
        forall|j: int, i: int|
            0 <= j < 4 && 0 <= i < 4 ==> -(FIXED_MAX as int) <= #[trigger] fixed_product_entry(
                rot,
                trans[j],
                i,
            ) <= FIXED_MAX as int,
{
    assert forall|j: int, i: int|
        0 <= j < 4 && 0 <= i < 4 implies -(FIXED_MAX as int) <= #[trigger] fixed_product_entry(
        rot,
        trans[j],
        i,
    ) <= FIXED_MAX as int by {
        let s = SCALE as int;
        let bm = 2 * s;
        let bv = CAMERA_POS_MAX as int;
        let p = product_entry(rot, trans[j], i);
        assert(-(bm * bv) <= rot[0][i] * trans[j][0] <= bm * bv) by (nonlinear_arith)
            requires
                -bm <= rot[0][i] <= bm,
                -bv <= trans[j][0] <= bv,
                bm >= 0,
                bv >= 0,
        ;
        assert(-(bm * bv) <= rot[1][i] * trans[j][1] <= bm * bv) by (nonlinear_arith)
            requires
                -bm <= rot[1][i] <= bm,
                -bv <= trans[j][1] <= bv,
                bm >= 0,
                bv >= 0,
        ;
        assert(-(bm * bv) <= rot[2][i] * trans[j][2] <= bm * bv) by (nonlinear_arith)
            requires
                -bm <= rot[2][i] <= bm,
                -bv <= trans[j][2] <= bv,
                bm >= 0,
                bv >= 0,
        ;
        assert(-(bm * bv) <= rot[3][i] * trans[j][3] <= bm * bv) by (nonlinear_arith)
            requires
                -bm <= rot[3][i] <= bm,
                -bv <= trans[j][3] <= bv,
                bm >= 0,
                bv >= 0,
        ;
        assert((-(FIXED_MAX as int)) * s <= -(4 * (bm * bv)) && 4 * (bm * bv) <= (FIXED_MAX as int)
            * s) by (nonlinear_arith)
            requires
                s == 1_000_000_000,
                bm == 2_000_000_000,
                bv == 400_000_000_000,
        ;
        lemma_tdiv_between(p, s, -(FIXED_MAX as int), FIXED_MAX as int);
    }
}

/// The view transform of a camera in canonical orientation — looking down
/// the negative z axis with the y axis up — maps the camera's own position
/// to the origin, its look direction to the negative z axis, and its up
/// direction to the y axis, exactly, whatever the position.
pub proof fn lemma_view_maps_camera_frame(cam: CameraInfo)
    requires
        cam.wf(),
        cam.lookat@ =~= seq![0i64, 0i64, (-(SCALE as int)) as i64, 0i64],
        cam.updir@ =~= seq![0i64, SCALE, 0i64, 0i64],
        cam.position@[3] == SCALE,
    ensures
        !cam.degenerate(),
        forall|i: int|
            0 <= i < 4 ==> #[trigger] fixed_product_entry(
                view_matrix_of(cam),
                cam.position@,
                i,
            ) == (if i == 3 {
                SCALE as int
            } else {
                0
            }),
        forall|i: int|
            0 <= i < 4 ==> #[trigger] fixed_product_entry(view_matrix_of(cam), cam.lookat@, i)
                == cam.lookat@[i] as int,
        forall|i: int|
            0 <= i < 4 ==> #[trigger] fixed_product_entry(view_matrix_of(cam), cam.updir@, i)
                == cam.updir@[i] as int,
{
    let s = SCALE as int;
    lemma_canonical_right(cam);
    let v = view_matrix_of(cam);
    let p = cam.position@;
    assert forall|j: int, i: int| 0 <= j < 4 && 0 <= i < 4 implies #[trigger] v[j][i] as int
        == cam.translation_spec()[j][i] as int by {
        lemma_canonical_view_is_translation(cam, j, i);
    }
    assert forall|i: int|
        0 <= i < 4 implies #[trigger] fixed_product_entry(v, p, i) == (if i == 3 {
        s
    } else {
        0
    }) by {
        let q = product_entry(v, p, i);
        if i == 3 {
            assert(q == s * p[3]) by (nonlinear_arith)
                requires
                    q == v[0][3] * p[0] + v[1][3] * p[1] + v[2][3] * p[2] + v[3][3] * p[3],
                    v[0][3] as int == 0 && v[1][3] as int == 0 && v[2][3] as int == 0 && v[3][3]
                        as int == s,
            ;
            assert(s * p[3] == (p[3] as int) * s) by (nonlinear_arith);
            crate::math::fixed::lemma_tdiv_exact(p[3] as int, s);
        } else {
            assert(q == 0) by (nonlinear_arith)
                requires
                    0 <= i < 3,
                    q == v[0][i] * p[0] + v[1][i] * p[1] + v[2][i] * p[2] + v[3][i] * p[3],
                    v[0][i] as int == (if i == 0 { s } else { 0 }),
                    v[1][i] as int == (if i == 1 { s } else { 0 }),
                    v[2][i] as int == (if i == 2 { s } else { 0 }),
                    v[3][i] as int == -(p[i] as int),
                    p[3] as int == s,
            ;
            assert(0 * s == 0) by (nonlinear_arith);
            lemma_tdiv_between(q, s, 0, 0);
        }
    }
    lemma_view_fixes_direction(cam, cam.lookat@);
    lemma_view_fixes_direction(cam, cam.updir@);
}

/// The view matrix of a camera, as a value (the rotation half applied to the
/// translation half).
pub open spec fn view_matrix_of(cam: CameraInfo) -> Seq<Seq<i64>> {
    Seq::new(4, |j: int| Seq::new(4, |i: int| (cam.view_entry(j, i)) as i64))
}

/// In canonical orientation the right-hand direction is exactly the x axis.
proof fn lemma_canonical_right(cam: CameraInfo)
    requires
        cam.lookat@ =~= seq![0i64, 0i64, (-(SCALE as int)) as i64, 0i64],
        cam.updir@ =~= seq![0i64, SCALE, 0i64, 0i64],
    ensures
        !cam.degenerate(),
        cam.right_unit() =~= seq![SCALE as int, 0, 0, 0],
{
    let s = SCALE as int;
    let l = cam.lookat@;
    let u = cam.updir@;
    let c = cam.right_raw();
    assert(l[0] as int == 0 && l[1] as int == 0 && l[2] as int == -s && u[0] as int == 0 && u[1]
        as int == s && u[2] as int == 0);
    assert(0 * s == 0 && s * 0 == 0 && (-s) * 0 == 0 && 0 * (-s) == 0 && 0 * 0 == 0)
        by (nonlinear_arith);
    lemma_tdiv_between(0, s, 0, 0);
    assert(fmul(0, 0) == 0 && fmul(-s, 0) == 0 && fmul(0, s) == 0 && fmul(0, -s) == 0 && fmul(
        s,
        0,
    ) == 0);
    assert((-s) * s == -(s * s)) by (nonlinear_arith);
    crate::math::fixed::lemma_tdiv_exact(-s, s);
    assert(fmul(-s, s) == -s);
    assert(c[0] == fmul(l[1] as int, u[2] as int) - fmul(l[2] as int, u[1] as int));
    assert(c[0] == s);
    assert(c[1] == fmul(l[2] as int, u[0] as int) - fmul(l[0] as int, u[2] as int));
    assert(c[1] == 0);
    assert(c[2] == fmul(l[0] as int, u[1] as int) - fmul(l[1] as int, u[0] as int));
    assert(c[2] == 0);
    assert(c[0] * c[0] + c[1] * c[1] + c[2] * c[2] == s * s) by (nonlinear_arith)
        requires
            c[0] == s,
            c[1] == 0,
            c[2] == 0,
    ;
    assert(s * s < (s + 1) * (s + 1)) by (nonlinear_arith)
        requires
            s == 1_000_000_000,
    ;
    crate::math::fixed::lemma_sqrt_floor_unique((s * s) as nat, s as nat);
    crate::math::fixed::lemma_tdiv_exact(s, s);
    assert(cam.right_unit()[0] == tdiv(s * s, s));
    assert(cam.right_unit() =~= seq![SCALE as int, 0, 0, 0]);
}

/// In canonical orientation the rotation half of the view is the identity,
/// so the composed view equals the translation half.
proof fn lemma_canonical_view_is_translation(cam: CameraInfo, j: int, i: int)
    requires
        cam.wf(),
        cam.lookat@ =~= seq![0i64, 0i64, (-(SCALE as int)) as i64, 0i64],
        cam.updir@ =~= seq![0i64, SCALE, 0i64, 0i64],
        0 <= j < 4,
        0 <= i < 4,
    ensures
        cam.view_entry(j, i) == cam.translation_spec()[j][i] as int,
{
    lemma_canonical_right(cam);
    let rot = cam.view_rotation_spec();
    assert(rot[0] =~= seq![SCALE, 0i64, 0i64, 0i64]);
    assert(rot[1] =~= seq![0i64, SCALE, 0i64, 0i64]);
    assert(rot[2] =~= seq![0i64, 0i64, SCALE, 0i64]);
    assert(rot[3] =~= seq![0i64, 0i64, 0i64, SCALE]);
    assert(rot =~~= crate::math::identity_fixed()) by {
        assert forall|a: int| 0 <= a < 4 implies rot[a] =~= crate::math::identity_fixed()[a] by {
            if a == 0 {
                assert(rot[0] =~= crate::math::identity_fixed()[0]);
            } else if a == 1 {
                assert(rot[1] =~= crate::math::identity_fixed()[1]);
            } else if a == 2 {
                assert(rot[2] =~= crate::math::identity_fixed()[2]);
            } else {
                assert(rot[3] =~= crate::math::identity_fixed()[3]);
            }
        }
    }
    crate::math::lemma_identity_fixed(cam.translation_spec());
}

/// The translation half of the view leaves a direction (homogeneous zero)
/// unchanged.
proof fn lemma_view_fixes_direction(cam: CameraInfo, d: Seq<i64>)
    requires
        cam.wf(),
        cam.lookat@ =~= seq![0i64, 0i64, (-(SCALE as int)) as i64, 0i64],
        cam.updir@ =~= seq![0i64, SCALE, 0i64, 0i64],
        d.len() == 4,
        d[3] == 0,
    ensures
        forall|i: int|
            0 <= i < 4 ==> #[trigger] fixed_product_entry(view_matrix_of(cam), d, i) == d[i] as int,
{
    let s = SCALE as int;
    let v = view_matrix_of(cam);
    assert forall|j: int, i: int| 0 <= j < 4 && 0 <= i < 4 implies #[trigger] v[j][i] as int
        == cam.translation_spec()[j][i] as int by {
        lemma_canonical_view_is_translation(cam, j, i);
    }
    assert forall|i: int|
        0 <= i < 4 implies #[trigger] fixed_product_entry(v, d, i) == d[i] as int by {
        let q = product_entry(v, d, i);
        if i == 3 {
            assert(q == 0) by (nonlinear_arith)
                requires
                    q == v[0][3] * d[0] + v[1][3] * d[1] + v[2][3] * d[2] + v[3][3] * d[3],
                    v[0][3] as int == 0 && v[1][3] as int == 0 && v[2][3] as int == 0,
                    d[3] == 0,
            ;
            assert(0 * s == 0) by (nonlinear_arith);
            lemma_tdiv_between(q, s, 0, 0);
        } else {
            assert(q == s * d[i]) by (nonlinear_arith)
                requires
                    0 <= i < 3,
                    q == v[0][i] * d[0] + v[1][i] * d[1] + v[2][i] * d[2] + v[3][i] * d[3],
                    v[0][i] as int == (if i == 0 { s } else { 0 }),
                    v[1][i] as int == (if i == 1 { s } else { 0 }),
                    v[2][i] as int == (if i == 2 { s } else { 0 }),
                    d[3] == 0,
            ;
            assert(s * d[i] == (d[i] as int) * s) by (nonlinear_arith);
            crate::math::fixed::lemma_tdiv_exact(d[i] as int, s);
        }
    }
}

} // verus!
