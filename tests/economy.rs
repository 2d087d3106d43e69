use solar_idle::resources::{HarvestedResources, PlanetResources, RawResource, RawResourceType, StationType};
use solar_idle::structures::{
    consuming_structures, economy_tick, output, producing_structures, ConsumingStructure, PoweredStructure,
    ProducingStructure, Structure, ONE_AU,
};
use solar_idle::sun::PICO;
use solar_idle::unlocks::{TechUnlocks, Technology};

fn bank(metals: u64, power: u64) -> HarvestedResources {
    HarvestedResources {
        metals,
        silicate: 0,
        hydrogen: 0,
        oxygen: 0,
        power,
    }
}

#[test]
fn powered_structure_pays_only_when_it_can() {
    let mut b = bank(0, 10);
    assert!(PoweredStructure(4).consume(&mut b));
    assert_eq!(b.power, 6);
    assert!(!PoweredStructure(7).consume(&mut b));
    assert_eq!(b.power, 6);
    assert!(PoweredStructure(6).check(&b));
}

#[test]
fn consuming_structure_pays_each_requirement() {
    let mut b = bank(10, 5);
    let c = ConsumingStructure(vec![(3, RawResourceType::Metals), (5, RawResourceType::Power)]);
    assert!(c.check(&b));
    assert!(c.consume(&mut b));
    assert_eq!((b.metals, b.power), (7, 0));
    assert!(!c.check(&b));
    assert!(!c.consume(&mut b));
    assert_eq!((b.metals, b.power), (7, 0));
}

#[test]
fn structure_needs_something_to_do() {
    assert!(Structure::new(None, None, None, 0).is_none());
    assert!(Structure::new(Some(PoweredStructure(1)), None, None, 0).is_some());
    let sunny = ProducingStructure {
        planet: None,
        res_type: RawResourceType::Power,
        produced: 1,
        sun_buff: 1000,
    };
    assert!(Structure::new(None, None, Some(sunny), 0).is_none());
}

#[test]
fn sun_buffed_output_falls_with_distance() {
    let p = ProducingStructure {
        planet: None,
        res_type: RawResourceType::Power,
        produced: 1_000,
        sun_buff: 2_000,
    };
    assert_eq!(output(&p, ONE_AU, PICO), 2_000);
    assert_eq!(output(&p, 2 * ONE_AU, PICO), 1_000);
    let plain = ProducingStructure { sun_buff: 0, ..p };
    assert_eq!(output(&plain, 5, PICO), 1_000);
}

fn mine(planet: usize, produced: u64) -> Structure {
    Structure::new(
        Some(PoweredStructure(2)),
        None,
        Some(ProducingStructure {
            planet: Some(planet),
            res_type: RawResourceType::Metals,
            produced,
            sun_buff: 0,
        }),
        ONE_AU,
    )
    .unwrap()
}

#[test]
fn two_phase_tick_enables_pays_and_produces() {
    let techs = TechUnlocks::new();
    let mut planets = vec![PlanetResources::new(vec![RawResource::new(
        RawResourceType::Metals,
        StationType::Surface,
        vec![(10, Technology::NoTech)],
    )])];
    let structures = vec![mine(0, 4), mine(0, 4), mine(0, 20)];
    let mut b = bank(0, 5);
    let flags = consuming_structures(&techs, PICO, &planets, &mut b, &structures);
    let on: Vec<bool> = flags.iter().map(|f| f.0).collect();
    assert_eq!(on, vec![true, true, false]);
    assert_eq!(b.power, 1);
    producing_structures(&techs, PICO, &mut b, &structures, &flags, &mut planets);
    assert_eq!(b.metals, 8);
    assert_eq!(
        planets[0].get(RawResourceType::Metals).unwrap().get_consumed(),
        8
    );
}

#[test]
fn producer_without_requirements_always_runs() {
    let techs = TechUnlocks::new();
    let planets: Vec<PlanetResources> = vec![];
    let s = Structure::new(
        None,
        None,
        Some(ProducingStructure {
            planet: None,
            res_type: RawResourceType::Oxygen,
            produced: 3,
            sun_buff: 0,
        }),
        ONE_AU,
    )
    .unwrap();
    let structures = vec![s];
    let mut b = bank(0, 0);
    let flags = consuming_structures(&techs, PICO, &planets, &mut b, &structures);
    assert!(flags[0].0);
    let mut planets = planets;
    producing_structures(&techs, PICO, &mut b, &structures, &flags, &mut planets);
    assert_eq!(b.oxygen, 3);
}

#[test]
fn a_list_naming_a_resource_twice_must_be_payable_whole() {
    let techs = TechUnlocks::new();
    let planets: Vec<PlanetResources> = vec![];
    let needy = Structure::new(
        None,
        Some(ConsumingStructure(vec![
            (6, RawResourceType::Metals),
            (6, RawResourceType::Metals),
        ])),
        None,
        ONE_AU,
    )
    .unwrap();
    let structures = vec![needy];
    let mut b = bank(10, 0);
    let flags = consuming_structures(&techs, PICO, &planets, &mut b, &structures);
    assert!(!flags[0].0);
    assert_eq!(b.metals, 10);
    let mut b = bank(12, 0);
    let flags = consuming_structures(&techs, PICO, &planets, &mut b, &structures);
    assert!(flags[0].0);
    assert_eq!(b.metals, 0);
}

#[test]
fn power_is_not_taken_when_resources_fall_short() {
    let techs = TechUnlocks::new();
    let planets: Vec<PlanetResources> = vec![];
    let s = Structure::new(
        Some(PoweredStructure(3)),
        Some(ConsumingStructure(vec![(5, RawResourceType::Oxygen)])),
        None,
        ONE_AU,
    )
    .unwrap();
    let mut b = bank(0, 10);
    let flags = consuming_structures(&techs, PICO, &planets, &mut b, &vec![s]);
    assert!(!flags[0].0);
    assert_eq!(b.power, 10);
}

#[test]
fn producer_banks_only_what_its_planet_gives() {
    let techs = TechUnlocks::new();
    let mut planets = vec![PlanetResources::new(vec![RawResource::new(
        RawResourceType::Metals,
        StationType::Surface,
        vec![(10, Technology::NoTech)],
    )])];
    let greedy = Structure::new(
        None,
        None,
        Some(ProducingStructure {
            planet: Some(0),
            res_type: RawResourceType::Metals,
            produced: 20,
            sun_buff: 0,
        }),
        ONE_AU,
    )
    .unwrap();
    let structures = vec![greedy];
    let mut b = bank(0, 0);
    let flags = consuming_structures(&techs, PICO, &planets, &mut b, &structures);
    producing_structures(&techs, PICO, &mut b, &structures, &flags, &mut planets);
    assert_eq!(b.metals, 0);
    assert_eq!(
        planets[0].get(RawResourceType::Metals).unwrap().get_consumed(),
        0
    );
}

#[test]
fn economy_tick_runs_both_phases_in_order() {
    let techs = TechUnlocks::new();
    let mut planets = vec![PlanetResources::new(vec![RawResource::new(
        RawResourceType::Metals,
        StationType::Surface,
        vec![(10, Technology::NoTech)],
    )])];
    let structures = vec![mine(0, 4), mine(0, 4), mine(0, 20)];
    let mut b = bank(0, 5);
    let flags = economy_tick(&techs, PICO, &mut b, &structures, &mut planets);
    let on: Vec<bool> = flags.iter().map(|f| f.0).collect();
    assert_eq!(on, vec![true, true, false]);
    assert_eq!((b.metals, b.power), (8, 1));
}
