use solar_idle::flare::{
    interact, launch_speed, particle_angle, update_flares, Flare, Planet, OUTER_BOUND,
};
use solar_idle::geometry::isqrt;

fn planet(size: u64, x: i64, y: i64, magnetic: bool) -> Planet {
    Planet {
        is_moon: false,
        has_magnetic_field: magnetic,
        size,
        absorbed_power: 0,
        x,
        y,
    }
}

fn flare_at(power: u64, x: i64, y: i64, vx: i64, vy: i64) -> Flare {
    Flare {
        power,
        x,
        y,
        vx,
        vy,
        age: 0,
        lifetime: 90_000_000,
    }
}

#[test]
fn burst_on_a_planet_is_absorbed_in_multiples_of_its_power() {
    let mut planets = vec![planet(50_000, 40_000, 0, false)];
    let speed = launch_speed(1000) as i64;
    let mut flares: Vec<Flare> = (0..5)
        .map(|_| Flare::launch(10_000, speed, 0, 1000))
        .collect();
    update_flares(&mut flares, &mut planets, 16_000, OUTER_BOUND);
    assert!(flares.is_empty());
    assert!(planets[0].absorbed_power > 0);
    assert_eq!(planets[0].absorbed_power % 10_000, 0);
    assert_eq!(planets[0].absorbed_power, 50_000);
}

#[test]
fn magnetic_field_absorbs_a_twentieth_and_bends() {
    let mut p = planet(10_000, 15_000, 0, true);
    let mut f = flare_at(10_000, 0, 0, 0, 2_000_000);
    let hit = interact(&mut f, &mut p, 16_000);
    assert!(!hit);
    assert_eq!(p.absorbed_power, 500);
    assert_ne!((f.vx, f.vy), (0, 2_000_000));
    assert_eq!((f.x, f.y), (0, 0));
}

#[test]
fn field_without_magnetism_only_pulls() {
    let mut p = planet(10_000, 15_000, 0, false);
    let mut f = flare_at(10_000, 0, 0, 0, 2_000_000);
    let hit = interact(&mut f, &mut p, 16_000);
    assert!(!hit);
    assert_eq!(p.absorbed_power, 0);
    assert!(f.vx > 0);
    assert_eq!(f.vy, 2_000_000);
}

#[test]
fn skimming_steers_toward_the_planet() {
    let mut p = planet(10_000, 10_500, 0, true);
    let mut f = flare_at(10_000, 0, 0, 0, 2_000_000);
    let hit = interact(&mut f, &mut p, 16_000);
    assert!(!hit);
    assert_eq!(p.absorbed_power, 0);
    assert_eq!((f.vx, f.vy), (440_000, 1_600_000));
}

#[test]
fn core_hit_absorbs_the_full_power() {
    let mut p = planet(10_000, 5_000, 0, true);
    let mut f = flare_at(7_000, 0, 0, 1, 1);
    assert!(interact(&mut f, &mut p, 16_000));
    assert_eq!(p.absorbed_power, 7_000);
}

#[test]
fn clear_flares_move_and_age() {
    let mut planets = vec![planet(10_000, 500_000_000, 0, true)];
    let mut flares = vec![flare_at(5, 0, 0, 2_000_000, -1_000_000)];
    update_flares(&mut flares, &mut planets, 500_000, OUTER_BOUND);
    assert_eq!(flares.len(), 1);
    assert_eq!((flares[0].x, flares[0].y), (1_000_000, -500_000));
    assert_eq!(flares[0].age, 500_000);
    assert_eq!(planets[0].absorbed_power, 0);
}

#[test]
fn flares_out_of_bounds_or_expired_are_dropped() {
    let mut planets = vec![planet(10_000, 500_000_000, 0, false)];
    let mut old = flare_at(5, 0, 0, 1, 0);
    old.age = old.lifetime;
    let far = flare_at(5, OUTER_BOUND as i64 + 1, 0, 1, 0);
    let mut flares = vec![old, far, flare_at(5, 0, 0, 0, 0)];
    update_flares(&mut flares, &mut planets, 1_000, OUTER_BOUND);
    assert_eq!(flares.len(), 1);
}

#[test]
fn burst_never_gives_more_than_it_carries() {
    let mut planets = vec![
        planet(20_000, 100_000, 0, false),
        planet(30_000, 0, 150_000, false),
    ];
    let n = 40u64;
    let power = 10_000u64;
    let mut flares: Vec<Flare> = (0..n as i64)
        .map(|i| Flare::launch(power, 2_000_000 - i * 50_000, i * 50_000, 1000))
        .collect();
    for _ in 0..200 {
        update_flares(&mut flares, &mut planets, 16_000, OUTER_BOUND);
        let absorbed: u64 = planets.iter().map(|p| p.absorbed_power).sum();
        let in_flight: u64 = flares.iter().map(|f| f.power).sum();
        assert!(absorbed + in_flight <= n * power);
    }
}

#[test]
fn particle_angles_and_speeds() {
    assert_eq!(particle_angle(90, 100, 50), 90_250);
    assert_eq!(particle_angle(0, 33, 1), 1);
    assert_eq!(particle_angle(90, 100, -50), 89_750);
    assert_eq!(particle_angle(0, 100, -100), -500);
    assert_eq!(launch_speed(800), 1_600_000);
    let f = Flare::launch(3, 10, -10, 1200);
    assert_eq!(f.lifetime, 75_000_000);
    assert_eq!((f.x, f.y, f.age), (0, 0, 0));
}

#[test]
fn integer_square_roots() {
    assert_eq!(isqrt(0), 0);
    assert_eq!(isqrt(15), 3);
    assert_eq!(isqrt(16), 4);
    assert_eq!(isqrt(1_000_000_000_000), 1_000_000);
}
