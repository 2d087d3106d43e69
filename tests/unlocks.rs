use solar_idle::unlocks::{TechUnlocks, Technology};

#[test]
fn no_tech_is_always_unlocked() {
    let techs = TechUnlocks::new();
    assert!(techs.check(Technology::NoTech));
    assert!(!techs.check(Technology::Orbitals));
}

#[test]
fn unlock_without_prerequisites_succeeds() {
    let mut techs = TechUnlocks::new();
    assert!(techs.unlock(Technology::Orbitals));
    assert!(techs.check(Technology::Orbitals));
}

#[test]
fn unlock_twice_is_unlock_once() {
    let mut once = TechUnlocks::new();
    let mut twice = TechUnlocks::new();
    assert!(once.unlock(Technology::DeepSeaMining));
    assert!(twice.unlock(Technology::DeepSeaMining));
    assert!(twice.unlock(Technology::DeepSeaMining));
    for t in [
        Technology::NoTech,
        Technology::Orbitals,
        Technology::DeepSeaMining,
        Technology::GasGiantMining,
    ] {
        assert_eq!(once.check(t), twice.check(t));
    }
}

#[test]
fn unlock_with_locked_prerequisite_fails_and_changes_nothing() {
    let mut techs = TechUnlocks::new();
    assert!(!techs.can_unlock(Technology::StellarLifting));
    assert!(!techs.unlock(Technology::StellarLifting));
    assert!(!techs.check(Technology::StellarLifting));
    assert!(!techs.unlock(Technology::GasGiantMining));
    assert!(!techs.check(Technology::GasGiantMining));
}

#[test]
fn prerequisite_chain_unlocks_in_order() {
    let mut techs = TechUnlocks::new();
    assert!(techs.unlock(Technology::Orbitals));
    assert!(techs.unlock(Technology::GasGiantMining));
    assert!(techs.unlock(Technology::StellarLifting));
    assert!(techs.check(Technology::StellarLifting));
}

#[test]
fn prerequisites_match_the_tree() {
    assert_eq!(
        Technology::HotSurfaceMining.prerequisites(),
        vec![Technology::ExtraTerrestrialMining]
    );
    assert_eq!(
        Technology::StellarLifting.prerequisites(),
        vec![Technology::GasGiantMining]
    );
    assert!(Technology::Orbitals.prerequisites().is_empty());
}

#[test]
fn costs_and_modifiers() {
    assert_eq!(Technology::DeepCrustMining.cost(), (20_000, 20_000));
    assert_eq!(Technology::NoTech.cost(), (0, 0));
    assert_eq!(Technology::StellarLifting.cost_modifier(), 2_000_000);
    assert_eq!(Technology::SeaWaterElectrolysis.cost_modifier(), 1500);
    assert!(Technology::NoTech.is_none());
    assert!(!Technology::Orbitals.is_none());
}

#[test]
fn formatted_name_is_title_case() {
    assert_eq!(
        Technology::DeepSeaMining.to_formatted_string(),
        "Deep Sea Mining"
    );
    assert_eq!(Technology::Orbitals.to_formatted_string(), "Orbitals");
}
