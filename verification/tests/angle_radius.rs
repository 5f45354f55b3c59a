use fish_shoal::angle::{angle_difference, portion_exec, scaled_exec, wrap_exec, wrap_upper_exec, Angle, MICRO, PI, TAU};
use fish_shoal::radius::Radius;
use rand::rngs::StdRng;
use rand::SeedableRng;

#[test]
fn angle_ops() {
    let mut angle: Angle = Angle::new(PI);

    assert_eq!(angle.add(Angle::new(PI)), Angle::new(TAU));

    assert_eq!(angle.scale(500_000), Angle::new(PI / 2));

    angle = angle.add(Angle::new(PI));
    assert_eq!(angle, Angle::new(TAU));
}

#[test]
fn angle_normalization() {
    let angle: Angle = Angle::new(3 * PI);
    let normalized: Angle = angle.normalized();

    assert!((normalized.abs().microradians - PI).abs() < 1);
}

#[test]
fn angle_lerp_shortest_path() {
    let start: Angle = Angle::new(100_000);
    let end: Angle = Angle::new(TAU - 100_000);

    let mid: Angle = start.lerp(end, 500_000);

    assert!(mid.microradians.abs() < 1);
}

#[test]
fn angle_random() {
    let mut rng: StdRng = StdRng::seed_from_u64(42);

    let angle: Angle = Angle::new_random(&mut rng, 0, PI);

    assert!(angle.microradians >= 0 && angle.microradians < PI);
}

#[test]
fn radius_ops() {
    let mut radius: Radius = Radius::new(5_000_000);

    assert_eq!(radius.add(Radius::new(3_000_000)), Radius::new(8_000_000));

    assert_eq!(radius.scale(2_000_000), Radius::new(10_000_000));

    radius = radius.add(Radius::new(1_000_000));
    assert_eq!(radius, Radius::new(6_000_000));
}

#[test]
fn radius_math() {
    let radius: Radius = Radius::new(4_000_000);
    let squared_value: i128 = radius.squared();
    assert_eq!(squared_value, 16_000_000);
}

#[test]
fn radius_comparison() {
    let radius_a: Radius = Radius::new(2_000_000);
    let radius_b: Radius = Radius::new(5_000_000);

    assert!(radius_a.value < radius_b.value);

    let max_radius: Radius = radius_a.max(radius_b);
    assert_eq!(max_radius, radius_b);
}

#[test]
fn radius_random() {
    let mut rng: StdRng = StdRng::seed_from_u64(42);

    let random_radius: Radius = Radius::new_random(&mut rng, 10_000_000, 20_000_000);

    let value: i64 = random_radius.value;
    assert!(value >= 10_000_000 && value < 20_000_000);
}

#[test]
fn constants_fit_together() {
    assert_eq!(TAU, 2 * PI);
    assert_eq!(Angle::zero().microradians, 0);
    assert_eq!(Angle::half().microradians, PI);
    assert_eq!(Angle::full().microradians, TAU);
    assert_eq!(Radius::zero().value, 0);
    assert_eq!(Radius::one().value, MICRO);
}

#[test]
fn normalize_stays_in_the_half_open_turn() {
    let samples: [i64; 12] = [
        0,
        1,
        -1,
        PI - 1,
        PI,
        PI + 1,
        -PI,
        -PI - 1,
        TAU,
        -TAU,
        i64::MAX,
        i64::MIN,
    ];
    for x in samples {
        let mut a = Angle::new(x);
        a.normalize();
        assert!(-PI <= a.microradians && a.microradians < PI);
        assert_eq!((x as i128 - a.microradians as i128).rem_euclid(TAU as i128), 0);
        assert_eq!(a, Angle::new(x).normalized());
        assert_eq!(a.normalized(), a);
    }
}

#[test]
fn normalize_exact_values() {
    assert_eq!(Angle::new(0).normalized().microradians, 0);
    assert_eq!(Angle::new(PI).normalized().microradians, -PI);
    assert_eq!(Angle::new(-PI).normalized().microradians, -PI);
    assert_eq!(Angle::new(PI - 1).normalized().microradians, PI - 1);
    assert_eq!(Angle::new(TAU + 5).normalized().microradians, 5);
    assert_eq!(Angle::new(-TAU - 5).normalized().microradians, -5);
    assert_eq!(wrap_exec(7 * TAU as i128 + 12), 12);
    assert_eq!(wrap_exec(-(1i128 << 64)), ((-(1i128 << 64) + PI as i128).rem_euclid(TAU as i128) - PI as i128) as i64);
}

#[test]
fn difference_prefers_the_upper_end() {
    assert_eq!(wrap_upper_exec(PI as i128), PI);
    assert_eq!(wrap_upper_exec(-PI as i128), PI);
    assert_eq!(angle_difference(Angle::new(0), Angle::new(PI)).microradians, PI);
    assert_eq!(angle_difference(Angle::new(PI), Angle::new(0)).microradians, PI);
    assert_eq!(angle_difference(Angle::new(100), Angle::new(300)).microradians, 200);
    assert_eq!(angle_difference(Angle::new(300), Angle::new(100)).microradians, -200);
    assert_eq!(angle_difference(Angle::new(100_000), Angle::new(TAU - 100_000)).microradians, -200_000);
    assert_eq!(angle_difference(Angle::new(i64::MIN), Angle::new(i64::MAX)).microradians, {
        let d = i64::MAX as i128 - i64::MIN as i128;
        let w = (d + PI as i128).rem_euclid(TAU as i128) - PI as i128;
        if w == -(PI as i128) { PI } else { w as i64 }
    });
}

#[test]
fn lerp_clamps_the_fraction() {
    let from = Angle::new(100_000);
    let to = Angle::new(TAU - 100_000);
    assert_eq!(from.lerp(to, -5), from);
    assert_eq!(from.lerp(to, 0), from);
    assert_eq!(from.lerp(to, MICRO), Angle::new(-100_000));
    assert_eq!(from.lerp(to, 3 * MICRO), Angle::new(-100_000));
    assert_eq!(from.lerp(to, 250_000), Angle::new(50_000));
    assert_eq!(Angle::new(0).lerp(Angle::new(1_000_000), 333_333), Angle::new(333_333));
}

#[test]
fn lerp_never_moves_more_than_half_a_turn() {
    let pairs: [(i64, i64); 5] = [(0, PI), (0, PI + 1), (-PI, PI), (3 * TAU, -5 * TAU + 7), (PI - 1, -PI + 1)];
    for (from, to) in pairs {
        for t in [0, 1, 500_000, 999_999, MICRO] {
            let r = Angle::new(from).lerp(Angle::new(to), t);
            assert!((r.microradians - from).abs() <= PI);
        }
    }
    assert_eq!(Angle::new(PI - 1).lerp(Angle::new(-PI + 1), MICRO).microradians, PI + 1);
}

#[test]
fn abs_neg_sub() {
    assert_eq!(Angle::new(-7).abs(), Angle::new(7));
    assert_eq!(Angle::new(7).abs(), Angle::new(7));
    assert_eq!(Angle::new(7).neg(), Angle::new(-7));
    assert_eq!(Angle::new(7).sub(Angle::new(10)), Angle::new(-3));
    assert_eq!(Radius::new(7).sub(Radius::new(10)), Radius::new(-3));
}

#[test]
fn portions_round_toward_zero() {
    assert_eq!(portion_exec(7, 500_000), 3);
    assert_eq!(portion_exec(-7, 500_000), -3);
    assert_eq!(portion_exec(7, 0), 0);
    assert_eq!(portion_exec(-7, MICRO), -7);
    assert_eq!(scaled_exec(7, 500_000), 3);
    assert_eq!(scaled_exec(-7, 500_000), -3);
    assert_eq!(scaled_exec(7, -500_000), -3);
    assert_eq!(scaled_exec(-7, -1_500_000), 10);
    assert_eq!(Angle::new(-PI).scale(2_000_000), Angle::new(-TAU));
}

#[test]
fn radius_bounds() {
    let a = Radius::new(2_000_000);
    let b = Radius::new(5_000_000);
    assert_eq!(a.min(b), a);
    assert_eq!(b.min(a), a);
    assert_eq!(b.max(a), b);
    let mut r = Radius::new(9_000_000);
    r.clamp(a, b);
    assert_eq!(r, b);
    let mut r = Radius::new(1);
    r.clamp(a, b);
    assert_eq!(r, a);
    let mut r = Radius::new(3_000_000);
    r.clamp(a, b);
    assert_eq!(r, Radius::new(3_000_000));
    assert_eq!(Radius::new(-1_500_000).squared(), 2_250_000);
    assert_eq!(Radius::new(i64::MIN).squared(), ((i64::MIN as i128) * (i64::MIN as i128)) / 1_000_000);
}

#[test]
fn random_values_are_spread_over_the_range() {
    let mut rng: StdRng = StdRng::seed_from_u64(1);
    let mut low_half = 0;
    let mut high_half = 0;
    for _ in 0..1000 {
        let a = Angle::new_random(&mut rng, -PI, PI);
        assert!(-PI <= a.microradians && a.microradians < PI);
        if a.microradians < 0 {
            low_half += 1;
        } else {
            high_half += 1;
        }
    }
    assert!(low_half > 300 && high_half > 300);
    for _ in 0..100 {
        assert_eq!(Radius::new_random(&mut rng, 5, 6), Radius::new(5));
    }
}
