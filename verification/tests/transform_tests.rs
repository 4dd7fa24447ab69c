use mouse::rational::Rat;
use mouse::transform::{RatPoint, Transform, compose, ftransform, itransform};

/// The two scalars denote the same rational number.
fn rat_eq(a: &Rat, b: &Rat) -> bool {
    a.num() * b.den() == b.num() * a.den()
}

fn rat_is(a: &Rat, n: i128, d: i128) -> bool {
    a.num() * d == n * a.den()
}

fn point(x: i64, y: i64) -> RatPoint {
    RatPoint::from_ints(x, y)
}

/// A transform with a 3-4-5 rotation, scale 2 and a translation.
fn sample_transform() -> Transform {
    let mut t = Transform::new(32, 32);
    t.rot_cos = Rat::new(3, 5).unwrap();
    t.rot_sin = Rat::new(4, 5).unwrap();
    t.scale = Rat::from_int(2);
    t.tx = Rat::from_int(7);
    t.ty = Rat::from_int(-3);
    t
}

#[test]
fn new_transform_has_identity_parameters() {
    let t = Transform::new(32, 48);
    assert!(rat_is(&t.midx, 16, 1));
    assert!(rat_is(&t.midy, 24, 1));
    assert!(rat_is(&t.rot_cos, 1, 1));
    assert!(rat_is(&t.rot_sin, 0, 1));
    assert!(rat_is(&t.tx, 0, 1));
    assert!(rat_is(&t.ty, 0, 1));
    assert!(rat_is(&t.scale, 1, 1));
}

#[test]
fn identity_transform_maps_points_to_themselves() {
    let t = Transform::new(64, 64);
    for &(x, y) in &[(0i64, 0i64), (5, 7), (-13, 40), (1000, -1000)] {
        let q = ftransform(&t, point(x, y)).unwrap();
        assert!(rat_is(&q.x, x as i128, 1));
        assert!(rat_is(&q.y, y as i128, 1));
    }
}

#[test]
fn inverse_undoes_forward_exactly() {
    let t = sample_transform();
    for &(x, y) in &[(0i64, 0i64), (10, 20), (-7, 33), (640, 480)] {
        let p = point(x, y);
        let q = ftransform(&t, p).unwrap();
        let back = itransform(&t, q).unwrap();
        assert!(rat_eq(&back.x, &p.x));
        assert!(rat_eq(&back.y, &p.y));
    }
}

#[test]
fn forward_moves_a_rotated_scaled_point_exactly() {
    // Pivot (16, 16), rotation (3/5, 4/5), scale 2, translation (7, -3).
    // The local origin (0, 0) centres to (-16, -16), rotates to
    // (-16*3/5 - 16*4/5, -16*3/5 + 16*4/5) = (-112/5, 16/5), scales to
    // (-224/5, 32/5), recentres to (-144/5, 112/5), translates to
    // (-109/5, 97/5).
    let t = sample_transform();
    let q = ftransform(&t, point(0, 0)).unwrap();
    assert!(rat_is(&q.x, -109, 5));
    assert!(rat_is(&q.y, 97, 5));
}

#[test]
fn composing_with_identity_camera_is_neutral() {
    let camera = Transform::new(0, 0);
    let local = sample_transform();
    let c = compose(&camera, &local).unwrap();
    assert!(rat_eq(&c.midx, &local.midx));
    assert!(rat_eq(&c.midy, &local.midy));
    assert!(rat_eq(&c.rot_cos, &local.rot_cos));
    assert!(rat_eq(&c.rot_sin, &local.rot_sin));
    assert!(rat_eq(&c.scale, &local.scale));
    assert!(rat_eq(&c.tx, &local.tx));
    assert!(rat_eq(&c.ty, &local.ty));
}

#[test]
fn compose_acts_like_sequential_application() {
    let mut camera = Transform::new(0, 0);
    camera.tx = Rat::from_int(100);
    camera.ty = Rat::from_int(50);
    let local = sample_transform();
    let c = compose(&camera, &local).unwrap();
    for &(x, y) in &[(0i64, 0i64), (12, -9), (31, 31)] {
        let p = point(x, y);
        let one_step = ftransform(&c, p).unwrap();
        let two_step = ftransform(&camera, ftransform(&local, p).unwrap()).unwrap();
        assert!(rat_eq(&one_step.x, &two_step.x));
        assert!(rat_eq(&one_step.y, &two_step.y));
    }
}

#[test]
fn bbox_of_identity_transform_is_the_local_rectangle() {
    let t = Transform::new(40, 30);
    let bb = t.to_bbox().unwrap();
    assert_eq!(bb.len(), 4);
    let expect = [(0i128, 0i128), (0, 30), (40, 30), (40, 0)];
    for (corner, &(ex, ey)) in bb.iter().zip(expect.iter()) {
        assert!(rat_is(&corner.x, ex, 1));
        assert!(rat_is(&corner.y, ey, 1));
    }
}

#[test]
fn bbox_follows_the_translation() {
    let mut t = Transform::new(40, 30);
    t.tx = Rat::from_int(10);
    t.ty = Rat::from_int(20);
    let bb = t.to_bbox().unwrap();
    assert!(rat_is(&bb[0].x, 10, 1));
    assert!(rat_is(&bb[0].y, 20, 1));
    assert!(rat_is(&bb[2].x, 50, 1));
    assert!(rat_is(&bb[2].y, 50, 1));
}

#[test]
fn rat_new_normalizes_the_sign() {
    let a = Rat::new(3, -6).unwrap();
    assert_eq!(a.num(), -3);
    assert_eq!(a.den(), 6);
    assert!(Rat::new(1, 0).is_err());
}

#[test]
fn rat_arithmetic_is_exact() {
    let a = Rat::new(1, 3).unwrap();
    let b = Rat::new(1, 6).unwrap();
    let sum = a.add(b).unwrap();
    assert!(rat_is(&sum, 1, 2));
    let diff = a.sub(b).unwrap();
    assert!(rat_is(&diff, 1, 6));
    let prod = a.mul(b).unwrap();
    assert!(rat_is(&prod, 1, 18));
    let quot = a.div(b).unwrap();
    assert!(rat_is(&quot, 2, 1));
}
