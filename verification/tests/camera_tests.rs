use fractal::camera::Camera;
use fractal::fx::{Fx, FX_ONE};
use fractal::mat::Mat4;
use fractal::rot::Rot2;

fn assert_matrices_equal(a: &Mat4, b: &Mat4) {
    for r in 0..4 {
        for c in 0..4 {
            assert_eq!(a.at(r, c), b.at(r, c), "entry ({}, {})", r, c);
        }
    }
}

#[test]
fn view_matrix_at_identity_is_identity() {
    let cam = Camera::identity();
    let v = cam.view_matrix();
    let id = Mat4::identity();
    assert_matrices_equal(&v, &id);
}

#[test]
fn projection_matrix_reciprocal_diagonal() {
    let mut cam = Camera::identity();
    cam.scale_x = Fx::from_raw(2 * FX_ONE);
    cam.scale_y = Fx::from_raw(3 * FX_ONE);
    cam.scale_z = Fx::from_raw(5 * FX_ONE);
    let p = cam.projection_matrix();
    assert_eq!(p.at(0, 0), 524288);
    assert_eq!(p.at(1, 1), 349525);
    assert_eq!(p.at(2, 2), -209715);
    assert_eq!(p.at(3, 3), FX_ONE);
    for r in 0..4 {
        for c in 0..4 {
            if r != c {
                assert_eq!(p.at(r, c), 0);
            }
        }
    }
}

#[test]
fn mvp_equals_projection_when_view_is_identity() {
    // Composition order: with zero position and identity orientation
    // the view contributes the identity, so mvp == projection exactly.
    let mut cam = Camera::identity();
    cam.scale_x = Fx::from_raw(2 * FX_ONE);
    cam.scale_y = Fx::from_raw(3 * FX_ONE);
    cam.scale_z = Fx::from_raw(5 * FX_ONE);
    let m = cam.mvp();
    let p = cam.projection_matrix();
    assert_matrices_equal(&m, &p);
}

#[test]
fn translation_is_scaled_inversely_by_zoom() {
    // Pan of 1.0 at scale 2.0 moves the position by exactly 0.5.
    let mut cam = Camera::identity();
    cam.scale_x = Fx::from_raw(2 * FX_ONE);
    cam.apply_translation(Fx::one(), Fx::zero());
    assert_eq!(cam.pos_x.raw, FX_ONE / 2);
    assert_eq!(cam.pos_y.raw, 0);
    assert_eq!(cam.pos_z.raw, 0);
}

#[test]
fn zoom_by_one_is_a_noop() {
    let mut cam = Camera::identity();
    cam.scale_x = Fx::from_raw(7 * FX_ONE);
    cam.scale_y = Fx::from_raw(FX_ONE / 4);
    cam.apply_zoom(Fx::one());
    assert_eq!(cam.scale_x.raw, 7 * FX_ONE);
    assert_eq!(cam.scale_y.raw, FX_ONE / 4);
    assert_eq!(cam.scale_z.raw, FX_ONE);
}

#[test]
fn zoom_round_trip_restores_scale_within_tolerance() {
    // Zoom by 1.5 and then by its reciprocal: the scale returns to
    // within one raw unit of its starting value and never overshoots.
    let mut cam = Camera::identity();
    let a = Fx::from_raw(3 * FX_ONE / 2);
    cam.apply_zoom(a);
    assert_eq!(cam.scale_x.raw, 3 * FX_ONE / 2);
    cam.apply_zoom(a.recip());
    assert_eq!(cam.scale_x.raw, FX_ONE - 1);
    assert!(cam.scale_x.raw <= FX_ONE);
}

#[test]
fn rotation_updates_orientation_only() {
    let mut cam = Camera::identity();
    cam.pos_x = Fx::from_raw(123);
    let quarter = Rot2 {
        c: Fx::from_raw(0),
        s: Fx::from_raw(FX_ONE),
    };
    cam.apply_rotation(quarter);
    assert_eq!(cam.rot.c.raw, 0);
    assert_eq!(cam.rot.s.raw, FX_ONE);
    assert_eq!(cam.pos_x.raw, 123);
    assert_eq!(cam.scale_x.raw, FX_ONE);
}

#[test]
fn view_matrix_negates_rotated_translation() {
    // Identity orientation, position (1, 0, 0): the translation column
    // of the view matrix is (-1, 0, 0).
    let mut cam = Camera::identity();
    cam.pos_x = Fx::one();
    let v = cam.view_matrix();
    assert_eq!(v.at(0, 3), -FX_ONE);
    assert_eq!(v.at(1, 3), 0);
    assert_eq!(v.at(2, 3), 0);
}

#[test]
fn view_matrix_transposes_rotation_block() {
    // Quarter-turn orientation with position (1, 0, 0): the rotation
    // block is transposed and the translation back-rotated.
    let mut cam = Camera::identity();
    cam.pos_x = Fx::one();
    cam.rot = Rot2 {
        c: Fx::from_raw(0),
        s: Fx::from_raw(FX_ONE),
    };
    let v = cam.view_matrix();
    assert_eq!(v.at(0, 0), 0);
    assert_eq!(v.at(0, 1), FX_ONE);
    assert_eq!(v.at(0, 3), 0);
    assert_eq!(v.at(1, 0), -FX_ONE);
    assert_eq!(v.at(1, 1), 0);
    assert_eq!(v.at(1, 3), FX_ONE);
}

#[test]
fn mat_identity_product() {
    let id = Mat4::identity();
    let p = id.matmul(&id);
    assert_matrices_equal(&p, &id);
}
