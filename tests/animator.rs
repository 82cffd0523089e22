use catalog_browser::lerp::{clamp, lerp, Lerper, Transform, ANIMATION_MS, UNIT};

fn down_one() -> Transform {
    Transform::shift(0, -UNIT, 0)
}

#[test]
fn new_animator_rests_on_identity() {
    let l = Lerper::new();
    assert_eq!(l.begin, Transform::identity());
    assert_eq!(l.end, Transform::identity());
    assert_eq!(l.duration, ANIMATION_MS);
    assert_eq!(l.lerp(0), Transform::identity());
    assert_eq!(l.lerp(10_000), Transform::identity());
}

#[test]
fn sample_at_arming_instant_is_previous_value() {
    let mut l = Lerper::new();
    l.next(down_one(), 1_000);
    assert_eq!(l.lerp(1_000), Transform::identity());
}

#[test]
fn sample_halfway_is_halfway() {
    let mut l = Lerper::new();
    l.next(down_one(), 1_000);
    let half = l.lerp(1_100);
    assert_eq!(half.shift_y, -5_000);
    assert_eq!(half.scale_x, UNIT);
    assert_eq!(half.shift_x, 0);
}

#[test]
fn sample_just_after_arming_is_strictly_between() {
    let mut l = Lerper::new();
    l.next(down_one(), 1_000);
    let v = l.lerp(1_001);
    assert_eq!(v.shift_y, -50);
    assert!(v.shift_y < 0 && v.shift_y > -UNIT);
}

#[test]
fn sample_after_duration_is_target_and_stays() {
    let mut l = Lerper::new();
    l.next(down_one(), 1_000);
    assert_eq!(l.lerp(1_200), down_one());
    assert_eq!(l.lerp(1_201), down_one());
    assert_eq!(l.lerp(1_000_000), down_one());
    assert_eq!(l.lerp(1_200), l.lerp(1_200));
}

#[test]
fn rearming_mid_flight_starts_from_current_value() {
    let mut l = Lerper::new();
    l.next(down_one(), 1_000);
    let now = l.lerp(1_100);
    l.next(Transform::shift(0, -2 * UNIT, 0), 1_100);
    assert_eq!(l.begin, now);
    assert_eq!(l.begin.shift_y, -5_000);
    assert_eq!(l.lerp(1_100), now);
    assert_eq!(l.lerp(1_200).shift_y, -12_500);
    assert_eq!(l.lerp(1_300).shift_y, -2 * UNIT);
}

#[test]
fn activity_window() {
    let mut l = Lerper::new();
    assert!(l.is_active(199));
    assert!(l.is_done(200));
    l.next(down_one(), 1_000);
    assert!(l.is_active(1_000));
    assert!(l.is_active(1_199));
    assert!(!l.is_active(1_200));
    assert!(l.is_done(1_200));
    assert!(l.is_active(999));
}

#[test]
fn set_and_unset() {
    let mut l = Lerper::new();
    l.set(Transform::shift(UNIT, 0, 0), Transform::shift(3 * UNIT, 0, 0), 50);
    assert_eq!(l.start_time, 50);
    assert_eq!(l.lerp(150).shift_x, 2 * UNIT);
    l.unset();
    assert_eq!(l.begin, Transform::identity());
    assert_eq!(l.end, Transform::identity());
    assert_eq!(l.start_time, 50);
}

#[test]
fn clamp_limits_progress() {
    assert_eq!(clamp(5, 3), 3);
    assert_eq!(clamp(2, 3), 2);
    assert_eq!(clamp(3, 3), 3);
}

#[test]
fn lerp_rounds_towards_start() {
    let a = Transform::shift(0, 0, 0);
    let b = Transform::shift(-3, 3, 0);
    let r = lerp(&a, &b, 1, 2);
    assert_eq!(r.shift_x, -1);
    assert_eq!(r.shift_y, 1);
    let past = lerp(&a, &b, 9, 2);
    assert_eq!(past, b);
    let start = lerp(&a, &b, 0, 2);
    assert_eq!(start, a);
}

#[test]
fn compose_scales_inner_shift() {
    let outer = Transform { scale_x: 2 * UNIT, scale_y: UNIT, shift_x: UNIT, shift_y: 0, shift_z: 5 };
    let inner = Transform { scale_x: 15_000, scale_y: UNIT, shift_x: 3 * UNIT, shift_y: -UNIT, shift_z: 7 };
    let c = outer.compose(&inner);
    assert_eq!(c.scale_x, 30_000);
    assert_eq!(c.scale_y, UNIT);
    assert_eq!(c.shift_x, 7 * UNIT);
    assert_eq!(c.shift_y, -UNIT);
    assert_eq!(c.shift_z, 12);
    assert_eq!(Transform::identity().compose(&inner), inner);
}

#[test]
fn compose_rounds_towards_zero() {
    let outer = Transform { scale_x: 3, scale_y: 3, shift_x: 0, shift_y: 0, shift_z: 0 };
    let inner = Transform::shift(-5_000, 5_000, 0);
    let c = outer.compose(&inner);
    assert_eq!(c.shift_x, -1);
    assert_eq!(c.shift_y, 1);
    assert_eq!(c.scale_x, 3);
}

#[test]
fn apply_moves_on_from_current_target() {
    let mut l = Lerper::new();
    l.next(Transform::shift(UNIT, 0, 0), 0);
    l.apply(Transform::shift(UNIT, 0, 0), 1_000);
    assert_eq!(l.begin, Transform::shift(UNIT, 0, 0));
    assert_eq!(l.end, Transform::shift(2 * UNIT, 0, 0));
    assert_eq!(l.start_time, 1_000);
    assert_eq!(l.lerp(1_100).shift_x, 15_000);
}
