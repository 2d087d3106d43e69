use solar_idle::resources::{
    buy_technology,
    cost_calculator, HarvestedResources, PlanetResources, RawResource, RawResourceType,
    StationType,
};
use solar_idle::unlocks::{TechUnlocks, Technology};

fn two_tier() -> RawResource {
    RawResource::new(
        RawResourceType::Metals,
        StationType::Surface,
        vec![(100, Technology::NoTech), (500, Technology::Orbitals)],
    )
}

#[test]
fn available_follows_the_unlocked_tier() {
    let mut res = two_tier();
    res.increment_consumed(30);
    let mut techs = TechUnlocks::new();
    assert_eq!(res.get_available(&techs), 100 - 30);
    assert!(techs.unlock(Technology::Orbitals));
    assert_eq!(res.get_available(&techs), 500 - 30);
    assert_eq!(res.get_consumed(), 30);
}

#[test]
fn locked_first_tier_means_nothing_available() {
    let res = RawResource::new(
        RawResourceType::Silicate,
        StationType::Surface,
        vec![(70, Technology::ExtraTerrestrialMining), (700, Technology::NoTech)],
    );
    let techs = TechUnlocks::new();
    assert_eq!(res.get_available(&techs), 0);
    assert_eq!(res.get_ratios(&techs), (0, 0, 1_000_000));
    assert_eq!(res.get_ratios_text(&techs), "0% Available\n100% Unlockable");
}

#[test]
fn next_technology_is_the_first_locked() {
    let res = two_tier();
    let mut techs = TechUnlocks::new();
    assert_eq!(res.get_next(&techs), Some(Technology::Orbitals));
    techs.unlock(Technology::Orbitals);
    assert_eq!(res.get_next(&techs), None);
}

#[test]
fn consumed_only_grows() {
    let mut res = two_tier();
    res.increment_consumed(10);
    res.increment_consumed(0);
    res.increment_consumed(5);
    assert_eq!(res.get_consumed(), 15);
}

#[test]
fn ratios_add_up_and_read_as_text() {
    let mut res = two_tier();
    res.increment_consumed(50);
    let techs = TechUnlocks::new();
    let (c, a, u) = res.get_ratios(&techs);
    assert_eq!((c, a, u), (100_000, 100_000, 800_000));
    assert_eq!(c + a + u, 1_000_000);
    assert_eq!(
        res.get_ratios_text(&techs),
        "10% Consumed\n10% Available\n80% Unlockable"
    );
}

#[test]
fn ratios_text_without_consumption() {
    let res = two_tier();
    let mut techs = TechUnlocks::new();
    techs.unlock(Technology::Orbitals);
    assert_eq!(res.get_ratios_text(&techs), "100% Available");
}

#[test]
fn harvester_cost_stops_at_first_locked_tier() {
    let res = RawResource::new(
        RawResourceType::Metals,
        StationType::Surface,
        vec![
            (70, Technology::ExtraTerrestrialMining),
            (700, Technology::DeepCrustMining),
        ],
    );
    let mut techs = TechUnlocks::new();
    assert_eq!(res.cost(&techs), Some((100, 150)));
    techs.unlock(Technology::ExtraTerrestrialMining);
    assert_eq!(res.cost(&techs), Some((150, 225)));
    techs.unlock(Technology::DeepCrustMining);
    assert_eq!(res.cost(&techs), Some((750, 1125)));
}

#[test]
fn harvester_cost_that_overflows_is_none() {
    let mut techs = TechUnlocks::new();
    techs.unlock(Technology::Orbitals);
    techs.unlock(Technology::GasGiantMining);
    techs.unlock(Technology::StellarLifting);
    let tiers = |n: usize| {
        RawResource::new(
            RawResourceType::Hydrogen,
            StationType::Surface,
            vec![(1, Technology::StellarLifting); n],
        )
    };
    assert_eq!(
        tiers(5).cost(&techs),
        Some((3_200_000_000_000_000_000, 4_800_000_000_000_000_000))
    );
    assert_eq!(tiers(6).cost(&techs), None);
    assert_eq!(tiers(6).harvester_cost(&techs, 0, 1000), None);
}

#[test]
fn station_costs() {
    assert_eq!(StationType::Surface.cost(), (100, 150));
    assert_eq!(StationType::Ocean.cost(), (200, 200));
    assert_eq!(StationType::Orbit.cost(), (400, 50));
}

#[test]
fn cost_escalates_per_harvester() {
    assert_eq!(cost_calculator(100, 0, 1500), Some(100));
    assert_eq!(cost_calculator(100, 2, 1500), Some(225));
    assert_eq!(cost_calculator(1000, 3, 500), Some(125));
    assert_eq!(cost_calculator(u64::MAX, 1, 2000), None);
}

#[test]
fn scaling_multiplies_each_tier() {
    let mut res = two_tier();
    res.apply_scale(3);
    let techs = TechUnlocks::new();
    assert_eq!(res.get_available(&techs), 300);
}

#[test]
fn planet_resources_find_by_type() {
    let mut planet = PlanetResources::new(vec![
        two_tier(),
        RawResource::new(
            RawResourceType::Oxygen,
            StationType::Ocean,
            vec![(40, Technology::NoTech)],
        ),
    ]);
    assert_eq!(
        planet.get(RawResourceType::Oxygen).map(|r| r.name()),
        Some(RawResourceType::Oxygen)
    );
    assert!(planet.get(RawResourceType::Power).is_none());
    planet
        .get_mut(RawResourceType::Oxygen)
        .unwrap()
        .increment_consumed(4);
    assert_eq!(planet.get(RawResourceType::Oxygen).unwrap().get_consumed(), 4);
    assert_eq!(planet.slice().len(), 2);
}

#[test]
fn bank_get_and_get_mut() {
    let mut bank = HarvestedResources::default();
    *bank.get_mut(RawResourceType::Hydrogen) += 7;
    assert_eq!(bank.get(RawResourceType::Hydrogen), 7);
    assert_eq!(bank.hydrogen, 7);
    assert_eq!(bank.get(RawResourceType::Metals), 0);
}

#[test]
fn harvester_price_escalates_with_count() {
    let res = two_tier();
    let techs = TechUnlocks::new();
    assert_eq!(res.harvester_cost(&techs, 0, 1500), Some((100, 150)));
    assert_eq!(res.harvester_cost(&techs, 2, 1500), Some((225, 337)));
    assert_eq!(res.harvester_cost(&techs, 200, 2000), None);
}

#[test]
fn buying_a_harvester_pays_its_price() {
    let res = two_tier();
    let techs = TechUnlocks::new();
    let mut bank = HarvestedResources {
        metals: 300,
        silicate: 400,
        ..HarvestedResources::default()
    };
    assert!(res.buy_harvester(&techs, &mut bank, 2, 1500));
    assert_eq!((bank.metals, bank.silicate), (75, 63));
    assert!(!res.buy_harvester(&techs, &mut bank, 2, 1500));
    assert_eq!((bank.metals, bank.silicate), (75, 63));
}

#[test]
fn buying_technology_pays_and_unlocks_once() {
    let mut techs = TechUnlocks::new();
    let mut bank = HarvestedResources {
        metals: 6_000,
        silicate: 400,
        ..HarvestedResources::default()
    };
    assert!(buy_technology(&mut techs, &mut bank, Technology::Orbitals));
    assert!(techs.check(Technology::Orbitals));
    assert_eq!((bank.metals, bank.silicate), (1_000, 100));
    assert!(!buy_technology(&mut techs, &mut bank, Technology::Orbitals));
    assert_eq!((bank.metals, bank.silicate), (1_000, 100));
    assert!(!buy_technology(&mut techs, &mut bank, Technology::GasGiantMining));
    assert!(!techs.check(Technology::GasGiantMining));
    assert!(!buy_technology(&mut techs, &mut bank, Technology::HotSurfaceMining));
}
