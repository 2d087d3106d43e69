use solar_idle::flare::LAST_PLANET_DISTANCE;
use solar_idle::resources::RawResourceType;
use solar_idle::system::{bodies, body_resources, scale, spawn_solar_system, sun_resources};
use solar_idle::sun::{HALF_PEAK, PICO};
use solar_idle::unlocks::{TechUnlocks, Technology};

#[test]
fn scale_is_four_hundred_km_per_unit() {
    assert_eq!(scale(400), 1_000);
    assert_eq!(scale(58_548), 146_370);
    assert_eq!(scale(24_325), 60_812);
}

#[test]
fn neptune_is_the_last_planet() {
    let b = bodies();
    assert_eq!(b.len(), 9);
    assert_eq!(b[8].orbit_radius, LAST_PLANET_DISTANCE);
    assert!(b.iter().all(|x| x.orbit_radius <= LAST_PLANET_DISTANCE));
}

#[test]
fn the_moon_circles_earth() {
    let b = bodies();
    assert!(b[3].is_moon);
    assert_eq!(b[3].parent, Some(2));
    assert!(b[2].has_magnetic_field);
    assert_eq!(b[2].period, 365_250_000);
}

#[test]
fn earth_has_resources_from_the_start() {
    let earth = body_resources(2);
    assert_eq!(earth.slice().len(), 4);
    let techs = TechUnlocks::new();
    let metals = earth.get(RawResourceType::Metals).unwrap();
    assert_eq!(metals.get_available(&techs), 25_000);
    assert_eq!(metals.get_next(&techs), Some(Technology::DeepSeaMining));
}

#[test]
fn mars_needs_mining_technology() {
    let mars = body_resources(4);
    let mut techs = TechUnlocks::new();
    let oxygen = mars.get(RawResourceType::Oxygen).unwrap();
    assert_eq!(oxygen.get_available(&techs), 0);
    techs.unlock(Technology::ExtraTerrestrialMining);
    techs.unlock(Technology::SurfaceMineralDecomposition);
    assert_eq!(oxygen.get_available(&techs), 43_000);
}

#[test]
fn the_sun_offers_hydrogen_to_stellar_lifting() {
    let sun = sun_resources();
    let h = sun.get(RawResourceType::Hydrogen).unwrap();
    assert_eq!(h.get_next(&TechUnlocks::new()), Some(Technology::StellarLifting));
}

#[test]
fn the_system_starts_fresh() {
    let system = spawn_solar_system();
    assert_eq!(system.sun.relative_power(), PICO);
    assert_eq!(system.sun.cycle_state(), HALF_PEAK);
    assert!(system.sun.is_increasing());
    assert_eq!(system.bodies.len(), 9);
    let layout = bodies();
    for (body, spec) in system.bodies.iter().zip(layout.iter()) {
        assert_eq!(body.planet.absorbed_power, 0);
        assert_eq!(body.planet.size, spec.size);
        assert_eq!(body.orbit.radius(), spec.orbit_radius);
        assert_eq!(body.orbit.angle(), 0);
        assert_eq!(body.parent, spec.parent);
    }
    let techs = TechUnlocks::new();
    let with_available: Vec<usize> = system
        .bodies
        .iter()
        .enumerate()
        .filter(|(_, b)| b.resources.slice().iter().any(|r| r.get_available(&techs) > 0))
        .map(|(i, _)| i)
        .collect();
    assert_eq!(with_available, vec![2]);
}
