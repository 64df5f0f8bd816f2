use fractal::fx::{Fx, FX_ONE};
use fractal::rot::{Rot2, UNIT_TOL};
use fractal::render_loop::{ROT_COS, ROT_SIN};

#[test]
fn fx_constructors() {
    assert_eq!(Fx::zero().raw, 0);
    assert_eq!(Fx::one().raw, FX_ONE);
    assert_eq!(Fx::from_raw(42).raw, 42);
}

#[test]
fn fx_times_exact() {
    let a = Fx::from_raw(3 * FX_ONE);
    let b = Fx::from_raw(FX_ONE / 2);
    assert_eq!(a.times(b).raw, 3 * FX_ONE / 2);
}

#[test]
fn fx_times_truncates_toward_zero() {
    // -1.5 in raw units truncates to -1, not to -2.
    let a = Fx::from_raw(-3);
    let b = Fx::from_raw(FX_ONE / 2);
    assert_eq!(a.times(b).raw, -1);
}

#[test]
fn fx_divided_by_exact() {
    let one = Fx::one();
    let two = Fx::from_raw(2 * FX_ONE);
    assert_eq!(one.divided_by(two).raw, FX_ONE / 2);
}

#[test]
fn fx_recip_truncates() {
    let three = Fx::from_raw(3 * FX_ONE);
    assert_eq!(three.recip().raw, 349525);
}

fn norm2(r: &Rot2) -> i64 {
    r.c.raw * r.c.raw + r.s.raw * r.s.raw
}

#[test]
fn rot_identity_is_exactly_unit() {
    let id = Rot2::identity();
    assert_eq!(id.c.raw, FX_ONE);
    assert_eq!(id.s.raw, 0);
    assert_eq!(norm2(&id), FX_ONE * FX_ONE);
}

#[test]
fn rot_quarter_turns_compose_exactly() {
    let quarter = Rot2 {
        c: Fx::from_raw(0),
        s: Fx::from_raw(FX_ONE),
    };
    let r1 = Rot2::identity().rotate_by(quarter);
    assert_eq!(r1.c.raw, 0);
    assert_eq!(r1.s.raw, FX_ONE);
    let r2 = r1.rotate_by(quarter);
    assert_eq!(r2.c.raw, -FX_ONE);
    assert_eq!(r2.s.raw, 0);
}

#[test]
fn rot_long_chain_stays_unit_norm() {
    // Unit-norm invariant under thousands of small increments: the
    // squared norm never drifts further than the fixed tolerance.
    let delta = Rot2 {
        c: Fx::from_raw(ROT_COS),
        s: Fx::from_raw(ROT_SIN),
    };
    let target = FX_ONE * FX_ONE;
    let mut r = Rot2::identity();
    for _ in 0..3000 {
        r = r.rotate_by(delta);
        let drift = (norm2(&r) - target).abs();
        assert!(drift <= UNIT_TOL, "drift {} exceeds tolerance", drift);
    }
}
