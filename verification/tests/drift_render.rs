use fish_shoal::angle::TAU;
use fish_shoal::components::{Area, Config, Idle, Position, Speed, Stress};
use fish_shoal::entities::{Entities, Glyph};
use fish_shoal::gamma::{gamma_accepts, gamma_proposal, gamma_value, resampled_speed, DRAW_LIMIT, VARIATE_LIMIT};
use fish_shoal::random_behavior::RandomBehavior;
use fish_shoal::source::{draw_inclusive, trial};
use rand::rngs::StdRng;
use rand::SeedableRng;

#[test]
fn trials_at_the_ends_are_certain() {
    let mut rng: StdRng = StdRng::seed_from_u64(0);
    for _ in 0..1_000 {
        assert!(!trial(&mut rng, 0));
        assert!(trial(&mut rng, 1_000_000));
    }
}

#[test]
fn one_trial_in_ten_succeeds() {
    let mut rng: StdRng = StdRng::seed_from_u64(17);
    let mut hits: u32 = 0;
    for _ in 0..1_000_000 {
        if trial(&mut rng, 100_000) {
            hits += 1;
        }
    }
    assert!(hits > 98_000 && hits < 102_000);
}

#[test]
fn draws_cover_both_ends() {
    let mut rng: StdRng = StdRng::seed_from_u64(4);
    let mut seen: [bool; 3] = [false; 3];
    for _ in 0..200 {
        let v = draw_inclusive(&mut rng, -1, 1);
        assert!(-1 <= v && v <= 1);
        seen[(v + 1) as usize] = true;
    }
    assert_eq!(seen, [true, true, true]);
    assert_eq!(draw_inclusive(&mut rng, i64::MIN, i64::MIN), i64::MIN);
    let wide = draw_inclusive(&mut rng, i64::MIN, i64::MAX);
    assert!(i64::MIN <= wide);
}

#[test]
fn direction_trigger_rate_is_a_tenth() {
    let mut rng: StdRng = StdRng::seed_from_u64(23);
    let idle = Idle::default();
    let mut speed = Speed::new(50_000_000);
    let mut stress = Stress::default();
    let mut turns: u32 = 0;
    for _ in 0..1_000_000 {
        let before = stress;
        if let Some(t) = RandomBehavior::system(&mut rng, &idle, &mut speed, &mut stress) {
            turns += 1;
            assert!(0 <= t.direction.microradians && t.direction.microradians < TAU);
            assert!(0 <= t.blend && t.blend < 1_000_000);
        }
        assert!(10_000_000 <= speed.0 && speed.0 <= 100_000_000);
        assert!(100_000 <= stress.factor() && stress.factor() < 500_000);
        if before != stress {
            assert!(stress.factor() != before.factor());
        }
    }
    assert!(turns > 98_000 && turns < 102_000);
}

#[test]
fn idle_agents_with_no_chance_stay_as_they_are() {
    let mut rng: StdRng = StdRng::seed_from_u64(23);
    let idle = Idle { chance_to_change_direction: 0, chance_to_change_speed: 0, chance_to_change_stress: 0 };
    let mut speed = Speed::new(3);
    let mut stress = Stress::new(900_000);
    for _ in 0..1_000 {
        assert_eq!(RandomBehavior::system(&mut rng, &idle, &mut speed, &mut stress), None);
        assert_eq!(speed, Speed::new(3));
        assert_eq!(stress, Stress::new(900_000));
    }
}

#[test]
fn certain_drift_moves_toward_the_sampled_value() {
    let mut rng: StdRng = StdRng::seed_from_u64(29);
    let idle = Idle {
        chance_to_change_direction: 1_000_000,
        chance_to_change_speed: 1_000_000,
        chance_to_change_stress: 1_000_000,
    };
    for _ in 0..1_000 {
        let mut speed = Speed::new(0);
        let mut stress = Stress::new(900_000);
        let turn = RandomBehavior::system(&mut rng, &idle, &mut speed, &mut stress);
        assert!(turn.is_some());
        assert!(0 <= speed.0 && speed.0 <= 100_000_000);
        assert!(100_000 <= stress.factor() && stress.factor() <= 900_000);
    }
    let mut moved = false;
    let mut speed = Speed::new(0);
    let mut stress = Stress::new(900_000);
    for _ in 0..10 {
        RandomBehavior::system(&mut rng, &idle, &mut speed, &mut stress);
        moved = moved || (speed.0 > 0 && stress.factor() < 900_000);
    }
    assert!(moved);
}

#[test]
fn stress_lerp_stays_between_old_and_target() {
    let mut s = Stress::new(100_000);
    let now = s.lerp(&Stress::new(500_000), 250_000);
    assert_eq!(now.factor(), 200_000);
    assert_eq!(s, now);
    let now = s.lerp(&Stress::new(100_000), 1_000_000);
    assert_eq!(now.factor(), 100_000);
    let now = s.lerp(&Stress::new(500_000), 0);
    assert_eq!(now.factor(), 100_000);
    let mut s = Stress::new(7);
    assert_eq!(s.lerp(&Stress::new(0), 500_000).factor(), 4);
    let mut s = Stress::new(0);
    assert_eq!(s.lerp(&Stress::new(7), 500_000).factor(), 3);
    let mut s = Stress::new(i64::MIN);
    assert_eq!(s.lerp(&Stress::new(i64::MAX), 1_000_000).factor(), i64::MAX);
    let mut rng: StdRng = StdRng::seed_from_u64(31);
    for _ in 0..10_000 {
        let old = draw_inclusive(&mut rng, -1_000_000, 1_000_000);
        let target = draw_inclusive(&mut rng, 100_000, 499_999);
        let blend = draw_inclusive(&mut rng, 0, 999_999);
        let mut s = Stress::new(old);
        s.lerp(&Stress::new(target), blend);
        assert!(old.min(target) <= s.factor() && s.factor() <= old.max(target));
    }
}

#[test]
fn speed_lerp_exact() {
    let mut s = Speed::new(100_000_000);
    s.lerp(&Speed::new(10_000_000), 500_000);
    assert_eq!(s, Speed::new(55_000_000));
    s.lerp(&Speed::new(55_000_001), 999_999);
    assert_eq!(s, Speed::new(55_000_000));
    assert_eq!(Speed::new_zero(), Speed::new(0));
}

#[test]
fn components_hold_what_they_are_given() {
    let config = Config {
        width: 1920,
        height: 1080,
        chance_to_change_direction: 200_000,
        chance_to_change_speed: 10,
        chance_to_change_stress: 0,
    };
    assert_eq!(Area::from_config(&config), Area::new(1_920_000_000, 1_080_000_000));
    let mut idle = Idle::default();
    assert_eq!(
        idle,
        Idle { chance_to_change_direction: 100_000, chance_to_change_speed: 50_000, chance_to_change_stress: 1_000 }
    );
    idle.update(&config);
    assert_eq!(
        idle,
        Idle { chance_to_change_direction: 200_000, chance_to_change_speed: 10, chance_to_change_stress: 0 }
    );
    assert_eq!(Position::new_zero(), Position::new(0, 0));
    assert_eq!(Position::new(3, -4), Position { x: 3, y: -4 });
    assert_eq!(Stress::default().factor(), 100_000);
}

#[test]
fn random_components_lie_in_their_bounds() {
    let mut rng: StdRng = StdRng::seed_from_u64(37);
    let mut xs_differ = false;
    let first = Position::new_random(&mut rng, -5_000_000, 5_000_000, 10, 20);
    for _ in 0..500 {
        let p = Position::new_random(&mut rng, -5_000_000, 5_000_000, 10, 20);
        assert!(-5_000_000 <= p.x && p.x <= 5_000_000);
        assert!(10 <= p.y && p.y <= 20);
        xs_differ = xs_differ || p.x != first.x;
        let s = Speed::new_random(&mut rng, 10_000_000, 100_000_000);
        assert!(10_000_000 <= s.0 && s.0 <= 100_000_000);
        let t = Stress::new_random(&mut rng);
        assert!(100_000 <= t.factor() && t.factor() < 500_000);
    }
    assert!(xs_differ);
    assert_eq!(Speed::new_random(&mut rng, 7, 7), Speed::new(7));
}

#[test]
fn moving_agents_are_triangles() {
    let origin = Position::new(100_000_000, 200_000_000);
    let at = Position::new(1_000_000, 2_000_000);
    let east = Position::new(1_000_000, 0);
    let glyph = Entities::render_entity(origin, at, east, Speed::new(100_001));
    assert_eq!(
        glyph,
        Glyph::Triangle {
            nose: Position::new(107_000_000, 202_000_000),
            right: Position::new(98_000_000, 199_000_000),
            left: Position::new(98_000_000, 205_000_000),
        }
    );
    let north_west = Position::new(-600_000, 800_000);
    let glyph = Entities::render_entity(origin, at, north_west, Speed::new(5_000_000));
    assert_eq!(
        glyph,
        Glyph::Triangle {
            nose: Position::new(97_400_000, 206_800_000),
            right: Position::new(105_200_000, 201_400_000),
            left: Position::new(100_400_000, 197_800_000),
        }
    );
}

#[test]
fn slow_agents_are_dots() {
    let origin = Position::new(100_000_000, 200_000_000);
    let at = Position::new(1_000_000, 2_000_000);
    let east = Position::new(1_000_000, 0);
    let dot = Glyph::Dot { center: Position::new(101_000_000, 202_000_000) };
    assert_eq!(Entities::render_entity(origin, at, east, Speed::new(100_000)), dot);
    assert_eq!(Entities::render_entity(origin, at, east, Speed::new(0)), dot);
    assert_eq!(Entities::render_entity(origin, at, east, Speed::new(-5)), dot);
}

#[test]
fn all_agents_are_rendered_in_order() {
    let origin = Position::new(0, 0);
    let positions = vec![Position::new(1, 1), Position::new(2, 2), Position::new(3, 3)];
    let directions = vec![Position::new(0, 1_000_000), Position::new(0, 0), Position::new(-1_000_000, 0)];
    let speeds = vec![Speed::new(200_000), Speed::new(0), Speed::new(200_000)];
    let glyphs = Entities::render_all(origin, &positions, &directions, &speeds);
    assert_eq!(glyphs.len(), 3);
    assert_eq!(
        glyphs[0],
        Glyph::Triangle {
            nose: Position::new(1, 6_000_001),
            right: Position::new(3_000_001, -2_999_999),
            left: Position::new(-2_999_999, -2_999_999),
        }
    );
    assert_eq!(glyphs[1], Glyph::Dot { center: Position::new(2, 2) });
    assert_eq!(
        glyphs[2],
        Glyph::Triangle {
            nose: Position::new(-5_999_997, 3),
            right: Position::new(3_000_003, 3_000_003),
            left: Position::new(3_000_003, -2_999_997),
        }
    );
    assert_eq!(Entities::render_all(origin, &Vec::new(), &Vec::new(), &Vec::new()), Vec::<Glyph>::new());
}

#[test]
fn proposals_are_cubes_of_a_positive_base() {
    assert_eq!(gamma_proposal(300_000, 1_000_000), Some(2_197_000));
    assert_eq!(gamma_proposal(300_000, 0), Some(1_000_000));
    assert_eq!(gamma_proposal(0, -100_000_000), Some(1_000_000));
    assert_eq!(gamma_proposal(500_000, -2_000_000), None);
    assert_eq!(gamma_proposal(500_000, -3_000_000), None);
    assert_eq!(gamma_proposal(500_000, -1_999_999), Some(0));
    assert_eq!(gamma_proposal(1_000_000, 100_000_000), Some(1_030_301_000_000));
    assert_eq!(gamma_proposal(1_000_000, -100_000_000), None);
}

#[test]
fn acceptance_has_a_quick_and_a_slow_test() {
    assert!(gamma_accepts(3_666_667, 0, 1_000_000, 999_999, 0, 0));
    assert!(!gamma_accepts(3_666_667, 0, 1_000_000, 1_000_000, 0, 0));
    assert!(gamma_accepts(3_666_667, 0, 1_000_000, 1_000_000, -1, 0));
    assert!(gamma_accepts(3_666_667, 2_000_000, 2_197_000, 470_399, i64::MAX, 787_000));
    assert!(gamma_accepts(3_666_667, -2_000_000, 2_197_000, 470_399, i64::MAX, 787_000));
    assert!(gamma_accepts(3_666_667, 2_000_000, 2_197_000, 470_400, 496_666, 787_000));
    assert!(!gamma_accepts(3_666_667, 2_000_000, 2_197_000, 470_400, 496_667, 787_000));
    assert!(gamma_accepts(3_666_667, 2_000_000, 2_197_000, 470_400, i64::MIN, 787_000));
}

#[test]
fn samples_and_speeds_are_never_negative() {
    assert_eq!(gamma_value(3_666_667, 2_197_000, 303_030), 2_441_108);
    assert_eq!(gamma_value(3_666_667, 0, 303_030), 0);
    assert_eq!(gamma_value(0, 2_197_000, 303_030), 0);
    assert_eq!(gamma_value(1_000_000_000, 1_030_301_000_000, 100_000_000), VARIATE_LIMIT);
    assert_eq!(resampled_speed(2_441_108), Speed::new(24_411_080));
    assert_eq!(resampled_speed(0), Speed::new(0));
    assert_eq!(resampled_speed(VARIATE_LIMIT), Speed::new(1_030_301_000_000_000_000));
    let mut rng: StdRng = StdRng::seed_from_u64(41);
    for _ in 0..10_000 {
        let x = draw_inclusive(&mut rng, -DRAW_LIMIT, DRAW_LIMIT);
        let c = draw_inclusive(&mut rng, 0, 1_000_000);
        if let Some(v) = gamma_proposal(c, x) {
            let d = draw_inclusive(&mut rng, 0, 1_000_000_000);
            let theta = draw_inclusive(&mut rng, 0, 100_000_000);
            let value = gamma_value(d, v, theta);
            assert!(value >= 0);
            assert!(resampled_speed(value).0 >= 0);
        }
    }
}
