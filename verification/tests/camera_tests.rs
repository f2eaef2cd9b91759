use ruccolo::camera::CameraInfo;
use ruccolo::camera::MoveDirection;
use ruccolo::math::Array4;
use ruccolo::math::fixed::SCALE;

#[test]
fn camera_test() {
    let camera = CameraInfo::default();
    let transform = camera.modelview_transform_matrix().unwrap();
    // The view transform takes the camera's own position to the origin and
    // keeps the axis-aligned basis directions.
    let transed_pos = transform.mul_vec_fixed(&camera.position);
    assert!(transed_pos.almost_eq(&Array4::new([0, 0, 0, SCALE])));
    let transed_lookat = transform.mul_vec_fixed(&camera.lookat);
    assert!(transed_lookat.almost_eq(&camera.lookat));
    let transed_updir = transform.mul_vec_fixed(&camera.updir);
    assert!(transed_updir.almost_eq(&camera.updir));

    let mut camera = CameraInfo::default();
    camera.position = Array4::new([10 * SCALE, -20 * SCALE, 3 * SCALE, SCALE]);
    camera.lookat.normalize();
    camera.updir.normalize();
    let transform = camera.modelview_transform_matrix().unwrap();
    let transed_pos = transform.mul_vec_fixed(&camera.position);
    assert!(transed_pos.almost_eq(&Array4::new([0, 0, 0, SCALE])));
    let transed_lookat = transform.mul_vec_fixed(&camera.lookat);
    assert!(transed_lookat.almost_eq(&Array4::new([0, 0, -SCALE, 0])));
    let transed_updir = transform.mul_vec_fixed(&camera.updir);
    assert!(transed_updir.almost_eq(&Array4::new([0, SCALE, 0, 0])));
}

#[test]
fn camera_degenerate_basis_is_reported() {
    let mut camera = CameraInfo::default();
    camera.updir = camera.lookat;
    assert!(camera.modelview_transform_matrix().is_none());
    assert!(camera.get_mvp().is_none());
}

#[test]
fn camera_move_forward() {
    let mut camera = CameraInfo::default();
    camera.camera_move(MoveDirection::Forward, SCALE);
    assert_eq!(camera.position.0, [0, 5 * SCALE, -SCALE, SCALE]);
    camera.camera_move(MoveDirection::Backward, SCALE);
    assert_eq!(camera.position.0, [0, 5 * SCALE, 0, SCALE]);
    camera.camera_move(MoveDirection::Right, SCALE / 2);
    assert_eq!(camera.position.0, [SCALE / 2, 5 * SCALE, 0, SCALE]);
    camera.camera_move(MoveDirection::Left, SCALE / 2);
    assert_eq!(camera.position.0, [0, 5 * SCALE, 0, SCALE]);
}

#[test]
fn projection_cotangent_is_exact_at_45_degrees() {
    let camera = CameraInfo::default();
    let proj = camera.projection_matrix();
    // cot(45 degrees) is one unit; the first entry carries the 9:16 aspect.
    assert_eq!(proj.0[1].0[1], SCALE);
    assert_eq!(proj.0[0].0[0], 9 * SCALE / 16);
    let mvp = camera.get_mvp();
    assert!(mvp.is_some());
}
