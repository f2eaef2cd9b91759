use ruccolo::math::Array4;
use ruccolo::math::Matrix4;
use ruccolo::math::array::Array;
use ruccolo::math::cross;
use ruccolo::math::fixed::SCALE;
use ruccolo::math::matrix::Matrix;
use ruccolo::math::recip_fixed;
use ruccolo::math::rotate;
use ruccolo::math::rotate_around;
use ruccolo::math::rotate_x;
use ruccolo::math::rotate_y;
use ruccolo::math::rotate_z;

#[test]
fn array_add() {
    let a = Array::new([1; 4]);
    let b = Array::new([2; 4]);
    assert_eq!(a + b, Array::new([3; 4]));
}

#[test]
fn array_sub() {
    let a = Array::new([1; 4]);
    let b = Array::new([2; 4]);
    assert_eq!(b - a, Array::new([1; 4]));
}

#[test]
fn array_mul() {
    let a = Array::new([1; 4]);
    let b = 3;
    assert_eq!(a * b, Array::new([3; 4]));
}

#[test]
fn matrix_add() {
    let a = Matrix::new([[1; 4]; 4]);
    let b = Matrix::new([[2; 4]; 4]);
    assert_eq!(a + b, Matrix::new([[3; 4]; 4]));
    let a = Matrix::new([[1; 4]; 2]);
    let b = Matrix::new([[2; 4]; 2]);
    assert_eq!(a + b, Matrix::new([[3; 4]; 2]));
}

#[test]
fn matrix_sub() {
    let a = Matrix::new([[1; 4]; 4]);
    let b = Matrix::new([[2; 4]; 4]);
    assert_eq!(b - a, Matrix::new([[1; 4]; 4]));
    let a = Matrix::new([[1; 4]; 3]);
    let b = Matrix::new([[2; 4]; 3]);
    assert_eq!(b - a, Matrix::new([[1; 4]; 3]));
}

#[test]
fn matrix_mul() {
    let a = Matrix::new([[1, 0, 0, 0], [0, 1, 0, 0], [0, 0, 1, 0], [0, 0, 0, 1]]);
    let b = Matrix::new([[2; 4]; 4]);
    assert_eq!(b * a, Matrix::new([[2; 4]; 4]));
}

#[test]
fn matrix_mul_array() {
    let a = Matrix::new([[3; 4]; 4]);
    let b = Array::new([1; 4]);
    assert_eq!(a * b, Array::new([12; 4]));
}

fn fixed_identity() -> Matrix4 {
    Matrix4::identity()
}

#[test]
fn trans_tests() {
    let a = Matrix4::new([
        [SCALE, 0, 0, 0],
        [0, SCALE, 0, 0],
        [0, 0, SCALE, 0],
        [0, 0, 0, SCALE],
    ]);
    let target = fixed_identity();
    assert!(a.trans().almost_eq(&target));

    let a = Matrix4::new([
        [SCALE, SCALE, SCALE, SCALE],
        [0, SCALE, 0, 0],
        [0, 0, SCALE, 0],
        [0, 0, 0, SCALE],
    ]);
    let target = Matrix4::new([
        [SCALE, 0, 0, 0],
        [SCALE, SCALE, 0, 0],
        [SCALE, 0, SCALE, 0],
        [SCALE, 0, 0, SCALE],
    ]);
    assert!(a.trans().almost_eq(&target));

    let a = rotate_x(45);
    let target = fixed_identity();
    let res = a.trans().mul_fixed(&a);
    assert!(res.trans().almost_eq(&target));

    let a = rotate_y(45).mul_fixed(&rotate_y(-45));
    let target = fixed_identity();
    assert!(a.trans().almost_eq(&target));
}

#[test]
fn rotate_tests() {
    // rotate_x
    let x = Array4::new([0, SCALE, 0, 0]);
    let rotate_mat = rotate_x(90);
    let res = rotate_mat.mul_vec_fixed(&x);
    let target = Array4::new([0, 0, SCALE, 0]);
    assert!(res.almost_eq(&target), "Rotate x {:?}, {:?}", res, target);
    // rotate_y
    let x = Array4::new([0, 0, SCALE, 0]);
    let rotate_mat = rotate_y(90);
    let res = rotate_mat.mul_vec_fixed(&x);
    let target = Array4::new([SCALE, 0, 0, 0]);
    assert!(res.almost_eq(&target), "Rotate y {:?}, {:?}", res, target);
    // rotate_z
    let x = Array4::new([SCALE, 0, 0, 0]);
    let rotate_mat = rotate_z(90);
    let res = rotate_mat.mul_vec_fixed(&x);
    let target = Array4::new([0, SCALE, 0, 0]);
    assert!(res.almost_eq(&target), "Rotate z {:?}, {:?}", res, target);
    // rotate_around
    let x = Array4::new([SCALE, 0, 0, 0]);
    let rotate_mat = rotate_around(Array4::new([0, 0, SCALE, 0]), 90);
    let res = rotate_mat.mul_vec_fixed(&x);
    let target = Array4::new([0, SCALE, 0, 0]);
    assert!(
        res.almost_eq(&target),
        "Rotate around {:?}, {:?}",
        res,
        target
    );
    // rotate
    let x = Array4::new([SCALE, 0, 0, 0]);
    let rotate_mat = rotate(Array4::new([0, 0, SCALE, 0]), 90);
    let res = rotate_mat.mul_vec_fixed(&x);
    let target = Array4::new([0, SCALE, 0, 0]);
    assert!(res.almost_eq(&target), "Rotate {:?}, {:?}", res, target);
}

#[test]
fn more_rotate_tests() {
    let x = Array4::new([SCALE, 0, 0, 0]);
    let rotate_mat = rotate(Array4::new([SCALE, 0, 0, 0]), 90);
    let res = rotate_mat.mul_vec_fixed(&x);
    let target = Array4::new([SCALE, 0, 0, 0]);
    assert!(res.almost_eq(&target), "Rotate #1 {:?}, {:?}", res, target);

    let x = Array4::new([SCALE, 0, 0, 0]);
    let rotate_mat = rotate(Array4::new([0, SCALE, 0, 0]), 90);
    let res = rotate_mat.mul_vec_fixed(&x);
    let target = Array4::new([0, 0, -SCALE, 0]);
    assert!(res.almost_eq(&target), "Rotate #2 {:?}, {:?}", res, target);
}

#[test]
fn normalize_tests() {
    let mut x = Array4::new([SCALE, 0, 0, 0]);
    let target = Array4::new([SCALE, 0, 0, 0]);
    x.normalize();
    assert!(
        x.almost_eq(&target),
        "Normalize tests: {:?}, {:?}",
        x,
        target
    );

    let mut x = Array4::new([SCALE, 0, 0, SCALE]);
    let target = Array4::new([SCALE, 0, 0, SCALE]);
    x.normalize();
    assert!(
        x.almost_eq(&target),
        "Normalize tests: {:?}, {:?}",
        x,
        target
    );

    let mut x = Array4::new([10 * SCALE, 0, 0, SCALE]);
    let target = Array4::new([SCALE, 0, 0, SCALE]);
    x.normalize();
    assert!(
        x.almost_eq(&target),
        "Normalize tests: {:?}, {:?}",
        x,
        target
    );
}

#[test]
fn cross_product() {
    let x = Array4::new([SCALE, 0, 0, 0]);
    let y = Array4::new([0, SCALE, 0, 0]);
    let res = cross(&x, &y);
    let target = Array4::new([0, 0, SCALE, 0]);
    assert!(res.almost_eq(&target));
}

#[test]
fn add_then_sub_restores() {
    let a = Array::new([7, -3, 1_000_000_000, 42]);
    let b = Array::new([5, 5, -5, 5]);
    assert_eq!((a + b) - b, a);
}

#[test]
fn scale_then_reciprocal_restores() {
    // 2.5, -1, 3, 1 scaled by 0.25 and back by 1/0.25
    let a = Array::new([2_500_000_000, -SCALE, 3 * SCALE, SCALE]);
    let k = SCALE / 4;
    let scaled = a.scale_fixed(k);
    let back = scaled.scale_fixed(recip_fixed(k));
    assert!(back.almost_eq(&a), "{:?} vs {:?}", back, a);
}

#[test]
fn fixed_identity_is_neutral() {
    let m = rotate_x(30);
    let ident = Matrix4::identity();
    assert!(ident.mul_fixed(&m).almost_eq(&m));
    assert!(m.mul_fixed(&ident).almost_eq(&m));
    let v = Array4::new([SCALE, 2 * SCALE, -3 * SCALE, SCALE]);
    assert!(ident.mul_vec_fixed(&v).almost_eq(&v));
}

#[test]
fn rotation_orthogonal_concrete() {
    let a = rotate_x(33);
    let res = a.trans().mul_fixed(&a);
    assert!(res.almost_eq(&Matrix4::identity()));
}
