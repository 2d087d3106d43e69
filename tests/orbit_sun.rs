use solar_idle::orbit::Orbit;
use solar_idle::sun::{update_sun, Sun, CYCLE_PEAK, HALF_PEAK, PICO};

#[test]
fn orbit_steps_add_up() {
    let mut split = Orbit::circle(10, 1_000);
    split.increment_orbit(300);
    split.increment_orbit(950);
    let mut whole = Orbit::circle(10, 1_000);
    whole.increment_orbit(1_250);
    assert_eq!(split.angle(), whole.angle());
    assert_eq!(whole.angle(), 90_000);
}

#[test]
fn orbit_angle_is_a_share_of_the_turn() {
    let mut o = Orbit::circle(5, 360);
    assert_eq!(o.angle(), 0);
    o.increment_orbit(45);
    assert_eq!(o.angle(), 45_000);
    o.increment_orbit(360);
    assert_eq!(o.angle(), 45_000);
    assert_eq!(o.radius(), 5);
}

#[test]
fn eccentric_orbits_are_refused() {
    assert!(Orbit::new(10, 1, 100).is_none());
    assert!(Orbit::new(10, 0, 0).is_none());
    assert!(Orbit::new(10, 0, 100).is_some());
}

#[test]
fn sun_starts_at_unit_power_mid_cycle() {
    let sun = Sun::default();
    assert_eq!(sun.relative_power(), PICO);
    assert_eq!(sun.cycle_state(), HALF_PEAK);
    assert!(sun.is_increasing());
    assert_eq!(sun.raw_cycle_state(), PICO / 2);
    assert_eq!(sun.cycle_power(), PICO);
    assert_eq!(sun.power_scale(), PICO);
}

#[test]
fn sun_cycle_returns_after_one_period() {
    let mut sun = Sun::default();
    let start = sun.cycle_state();
    let mut flips = 0;
    let mut increasing = sun.is_increasing();
    for _ in 0..4017 {
        sun.increment(1_000_000);
        assert!(sun.cycle_state() <= CYCLE_PEAK);
        if sun.is_increasing() != increasing {
            flips += 1;
            increasing = sun.is_increasing();
        }
    }
    let diff = start.abs_diff(sun.cycle_state());
    assert!(diff <= 2_000_000, "cycle drifted by {diff} microseconds");
    assert_eq!(flips, 2);
    assert_eq!(sun.cycle_state(), 1_003_687_500);
    assert!(sun.is_increasing());
    assert_eq!(sun.relative_power(), PICO + 4_017_000_000);
}

#[test]
fn sun_turns_at_the_peak() {
    let mut sun = Sun::default();
    sun.increment(HALF_PEAK);
    assert_eq!(sun.cycle_state(), CYCLE_PEAK);
    assert!(!sun.is_increasing());
    let mut sun = Sun::default();
    sun.increment(HALF_PEAK + 1);
    assert_eq!(sun.cycle_state(), CYCLE_PEAK - 1);
    assert!(!sun.is_increasing());
    sun.increment(CYCLE_PEAK + 1);
    assert_eq!(sun.cycle_state(), 2);
    assert!(sun.is_increasing());
}

#[test]
fn sun_flares_when_due() {
    let mut sun = Sun::default();
    sun.increment(1_000_000);
    assert!(!sun.should_flare(0));
    assert_eq!(sun.flare(0, 100, 100), None);
    sun.increment(2_000_000);
    assert_eq!(sun.power_scale(), 1_001_496_377_636);
    assert!(sun.should_flare(0));
    assert!(sun.should_flare(1));
    assert_eq!(sun.flare(0, 100, 100), Some((3_004, 100)));
    assert_eq!(sun.last_flare(), 0);
}

#[test]
fn larger_flares_are_weaker_for_their_size() {
    let mut sun = Sun::default();
    let got = update_sun(&mut sun, 3_000_000, 0, 150, 50);
    assert_eq!(got, Some((9_013, 50)));
}
