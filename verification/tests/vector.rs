use asteroids::vector::Vec2;

#[test]
fn new_and_zero() {
    assert_eq!(Vec2::new(3, -4), Vec2 { x: 3, y: -4 });
    assert_eq!(Vec2::zero(), Vec2 { x: 0, y: 0 });
}

#[test]
fn plus_and_minus_work_by_coordinate() {
    let a = Vec2::new(1000, 2000);
    let b = Vec2::new(-300, 500);
    assert_eq!(a.plus(b), Vec2::new(700, 2500));
    assert_eq!(a.minus(b), Vec2::new(1300, 1500));
}

#[test]
fn plus_and_minus_saturate() {
    let a = Vec2::new(i64::MAX, i64::MIN);
    let b = Vec2::new(1, -1);
    assert_eq!(a.plus(b), Vec2::new(i64::MAX, i64::MIN));
    assert_eq!(a.minus(Vec2::new(-1, 1)), Vec2::new(i64::MAX, i64::MIN));
}

#[test]
fn times_scales_by_a_fixed_point_factor() {
    assert_eq!(Vec2::new(100_000, -50_000).times(16), Vec2::new(1600, -800));
    assert_eq!(Vec2::new(1000, 2000).times(990), Vec2::new(990, 1980));
    assert_eq!(Vec2::new(1000, 2000).times(1000), Vec2::new(1000, 2000));
    assert_eq!(Vec2::new(1000, 2000).times(0), Vec2::new(0, 0));
}

#[test]
fn from_polar_along_the_axes() {
    assert_eq!(Vec2::from_polar(0, 5000), Vec2::new(5000, 0));
    assert_eq!(Vec2::from_polar(1571, 5000), Vec2::new(0, 5000));
    assert_eq!(Vec2::from_polar(3142, 5000), Vec2::new(-5000, 0));
    assert_eq!(Vec2::from_polar(4713, 5000), Vec2::new(0, -5000));
    assert_eq!(Vec2::from_polar(1234, 0), Vec2::new(0, 0));
}

#[test]
fn from_polar_at_thirty_degrees() {
    // the sine of 524 is 500, the cosine is the sine of 2095
    let v = Vec2::from_polar(524, 10_000);
    assert_eq!(v.y, 5000);
    assert!((v.x - 8660).abs() <= 20);
}

#[test]
fn rotated_by_quarter_turns() {
    let v = Vec2::new(1000, 0);
    assert_eq!(v.rotated(0), Vec2::new(1000, 0));
    assert_eq!(v.rotated(1571), Vec2::new(0, 1000));
    assert_eq!(v.rotated(3142), Vec2::new(-1000, 0));
    assert_eq!(v.rotated(4713), Vec2::new(0, -1000));
    assert_eq!(Vec2::new(0, 1000).rotated(1571), Vec2::new(-1000, 0));
    assert_eq!(Vec2::new(-20_000, 20_000).rotated(0), Vec2::new(-20_000, 20_000));
}

#[test]
fn length_of_known_triangles() {
    assert_eq!(Vec2::new(3000, 4000).length(), 5000);
    assert_eq!(Vec2::new(-3000, 4000).length(), 5000);
    assert_eq!(Vec2::new(-3000, -4000).length(), 5000);
    assert_eq!(Vec2::new(0, 0).length(), 0);
    assert_eq!(Vec2::new(0, -7).length(), 7);
    assert_eq!(Vec2::new(1, 1).length(), 1);
    assert_eq!(Vec2::new(1000, 1000).length(), 1414);
}

#[test]
fn length_saturates() {
    assert_eq!(Vec2::new(i64::MAX, i64::MAX).length(), i64::MAX);
    assert_eq!(Vec2::new(i64::MIN, i64::MIN).length(), i64::MAX);
    assert_eq!(Vec2::new(i64::MIN, 0).length(), i64::MAX);
    assert_eq!(Vec2::new(i64::MAX, 0).length(), i64::MAX);
}

#[test]
fn within_is_strict() {
    let a = Vec2::new(0, 0);
    let b = Vec2::new(3000, 4000);
    assert!(!a.within(b, 5000));
    assert!(a.within(b, 5001));
    assert!(!a.within(b, 4999));
    assert!(b.within(a, 5001));
    assert!(a.within(a, 1));
}

#[test]
fn within_needs_a_positive_reach() {
    let a = Vec2::new(10, 10);
    assert!(!a.within(a, 0));
    assert!(!a.within(a, -5));
    assert!(!a.within(a, i64::MIN));
}

#[test]
fn within_is_exact_at_the_ends_of_the_range() {
    let low = Vec2::new(i64::MIN, i64::MIN);
    let high = Vec2::new(i64::MAX, i64::MAX);
    assert!(!low.within(high, i64::MAX));
    assert!(!high.within(low, i64::MAX));
    assert!(high.within(high, i64::MAX));
    assert!(low.within(Vec2::new(i64::MIN + 1, i64::MIN), 2));
    assert!(!low.within(Vec2::new(i64::MIN + 1, i64::MIN), 1));
    assert!(Vec2::new(0, 0).within(Vec2::new(i64::MAX - 1, 0), i64::MAX));
    assert!(!Vec2::new(0, 0).within(Vec2::new(i64::MAX, 0), i64::MAX));
}

#[test]
fn from_polar_has_the_length_asked_for() {
    let lengths: [i64; 6] = [0, 1, 999, 50_000, 400_000, 3_000_000_000];
    for length in lengths {
        let mut angle: i64 = -100;
        while angle < 6400 {
            let v = Vec2::from_polar(angle, length);
            let n: i128 = (v.x as i128) * (v.x as i128) + (v.y as i128) * (v.y as i128);
            let ll: i128 = (length as i128) * (length as i128);
            assert!(1_000_000 * n <= 1_006_000 * ll, "{} at {}", length, angle);
            assert!(1_000_000 * n >= 990_000 * ll - 4_000_000 * (length as i128));
            angle += 13;
        }
    }
}
