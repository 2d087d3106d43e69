use vstd::prelude::*;

use crate::flare::Planet;
use crate::orbit::Orbit;
use crate::resources::{PlanetResources, RawResource, RawResourceType, StationType};
use crate::sun::{Sun, HALF_PEAK, PICO};
use crate::unlocks::Technology;

verus! {

/// Kilometres to the game's distance, in thousandths of a unit: a unit
/// stands for 400 km.
pub open spec fn spec_scale(km: u64) -> int {
    km * 5 / 2
}

pub fn scale(km: u64) -> (r: u64)
    requires
        km <= 1_000_000_000_000,
    ensures
        r == spec_scale(km),
{
    km * 5 / 2
}

/// How a body of the system is laid out: orbit radius and body size in
/// thousandths of a unit, orbital period in microseconds (a day of the
/// system per second of play), and the body it circles, if not the sun.
#[derive(Clone, Copy, Debug, PartialEq, Eq, Structural)]
pub struct BodySpec {
    pub orbit_radius: u64,
    pub size: u64,
    pub period: u64,
    pub is_moon: bool,
    pub has_magnetic_field: bool,
    pub parent: Option<usize>,
}

/// The bodies that circle the sun, outward, each moon after its planet:
/// Mercury, Venus, Earth, the Moon, Mars, Jupiter, Saturn, Uranus, Neptune.
pub open spec fn spec_bodies() -> Seq<BodySpec> {
    seq![
        BodySpec { orbit_radius: 17_100_000, size: 146_370, period: 88_000_000, is_moon: false, has_magnetic_field: false, parent: None },
        BodySpec { orbit_radius: 27_000_000, size: 363_120, period: 224_700_000, is_moon: false, has_magnetic_field: false, parent: None },
        BodySpec { orbit_radius: 37_250_000, size: 382_680, period: 365_250_000, is_moon: false, has_magnetic_field: true, parent: None },
        BodySpec { orbit_radius: 1_441_500, size: 60_812, period: 27_300_000, is_moon: true, has_magnetic_field: false, parent: Some(2) },
        BodySpec { orbit_radius: 72_000_000, size: 203_700, period: 687_000_000, is_moon: false, has_magnetic_field: false, parent: None },
        BodySpec { orbit_radius: 156_000_000, size: 4_290_000, period: 3_464_480_000, is_moon: false, has_magnetic_field: true, parent: None },
        BodySpec { orbit_radius: 287_400_000, size: 3_616_080, period: 8_604_800_000, is_moon: false, has_magnetic_field: true, parent: None },
        BodySpec { orbit_radius: 502_425_000, size: 1_533_540, period: 21_480_900_000, is_moon: false, has_magnetic_field: true, parent: None },
        BodySpec { orbit_radius: 792_750_000, size: 1_485_840, period: 42_133_000_000, is_moon: false, has_magnetic_field: true, parent: None },
    ]
}

/// The layout of the bodies around the sun. Radii and sizes are the real
/// ones in kilometres, scaled: orbits by a tenth (the inner ones stretched,
/// the outer ones drawn in), planets twelvefold, the Moon sevenfold and its
/// orbit by half again.
pub fn bodies() -> (r: Vec<BodySpec>)
    ensures
        r@ == spec_bodies(),
{
    let r = vec![
        BodySpec { orbit_radius: scale(6_840_000), size: scale(58_548), period: 88_000_000, is_moon: false, has_magnetic_field: false, parent: None },
        BodySpec { orbit_radius: scale(10_800_000), size: scale(145_248), period: 224_700_000, is_moon: false, has_magnetic_field: false, parent: None },
        BodySpec { orbit_radius: scale(14_900_000), size: scale(153_072), period: 365_250_000, is_moon: false, has_magnetic_field: true, parent: None },
        BodySpec { orbit_radius: scale(576_600), size: scale(24_325), period: 27_300_000, is_moon: true, has_magnetic_field: false, parent: Some(2) },
        BodySpec { orbit_radius: scale(28_800_000), size: scale(81_480), period: 687_000_000, is_moon: false, has_magnetic_field: false, parent: None },
        BodySpec { orbit_radius: scale(62_400_000), size: scale(1_716_000), period: 3_464_480_000, is_moon: false, has_magnetic_field: true, parent: None },
        BodySpec { orbit_radius: scale(114_960_000), size: scale(1_446_432), period: 8_604_800_000, is_moon: false, has_magnetic_field: true, parent: None },
        BodySpec { orbit_radius: scale(200_970_000), size: scale(613_416), period: 21_480_900_000, is_moon: false, has_magnetic_field: true, parent: None },
        BodySpec { orbit_radius: scale(317_100_000), size: scale(594_336), period: 42_133_000_000, is_moon: false, has_magnetic_field: true, parent: None },
    ];
    assert(r@ =~= spec_bodies());
    r
}

/// A resource tier list of two tiers.
pub open spec fn two_tiers(a: u64, ta: Technology, b: u64, tb: Technology) -> Seq<(u64, Technology)> {
    seq![(a, ta), (b, tb)]
}

/// The resources of each body, as (type, station, tiers), the tiers' ceilings
/// in millionths of the body.
pub open spec fn spec_body_resources(i: int) -> Seq<(RawResourceType, StationType, Seq<(u64, Technology)>)> {
    if i == 0 {
        seq![
            (RawResourceType::Metals, StationType::Surface, two_tiers(70_000, Technology::ExtraTerrestrialMining, 700_000, Technology::DeepCrustMining)),
            (RawResourceType::Silicate, StationType::Surface, two_tiers(30_000, Technology::ExtraTerrestrialMining, 300_000, Technology::DeepCrustMining)),
        ]
    } else if i == 1 {
        seq![
            (RawResourceType::Metals, StationType::Surface, two_tiers(50_000, Technology::HotSurfaceMining, 500_000, Technology::DeepCrustMining)),
            (RawResourceType::Silicate, StationType::Surface, two_tiers(15_000, Technology::HotSurfaceMining, 150_000, Technology::DeepCrustMining)),
        ]
    } else if i == 2 {
        seq![
            (RawResourceType::Metals, StationType::Surface, seq![(25_000, Technology::NoTech), (50_000, Technology::DeepSeaMining), (500_000, Technology::DeepCrustMining)]),
            (RawResourceType::Silicate, StationType::Surface, seq![(7_250, Technology::NoTech), (15_000, Technology::DeepSeaMining), (150_000, Technology::DeepCrustMining)]),
            (RawResourceType::Oxygen, StationType::Ocean, two_tiers(3_000, Technology::NoTech, 30_000, Technology::SeaWaterElectrolysis)),
            (RawResourceType::Hydrogen, StationType::Ocean, two_tiers(500, Technology::NoTech, 30_000, Technology::SeaWaterElectrolysis)),
        ]
    } else if i == 3 {
        seq![
            (RawResourceType::Metals, StationType::Surface, two_tiers(30_000, Technology::ExtraTerrestrialMining, 300_000, Technology::DeepCrustMining)),
            (RawResourceType::Silicate, StationType::Surface, two_tiers(20_000, Technology::ExtraTerrestrialMining, 200_000, Technology::DeepCrustMining)),
            (RawResourceType::Oxygen, StationType::Surface, two_tiers(43_000, Technology::SurfaceMineralDecomposition, 430_000, Technology::DeepCrustMining)),
        ]
    } else if i == 4 {
        seq![
            (RawResourceType::Metals, StationType::Surface, two_tiers(25_000, Technology::ExtraTerrestrialMining, 250_000, Technology::DeepCrustMining)),
            (RawResourceType::Silicate, StationType::Surface, two_tiers(23_000, Technology::ExtraTerrestrialMining, 230_000, Technology::DeepCrustMining)),
            (RawResourceType::Oxygen, StationType::Surface, two_tiers(43_000, Technology::SurfaceMineralDecomposition, 430_000, Technology::DeepCrustMining)),
        ]
    } else if i == 5 {
        seq![(RawResourceType::Hydrogen, StationType::Orbit, seq![(900_000, Technology::GasGiantMining)])]
    } else if i == 6 {
        seq![(RawResourceType::Hydrogen, StationType::Orbit, seq![(960_000, Technology::GasGiantMining)])]
    } else if i == 7 {
        seq![(RawResourceType::Hydrogen, StationType::Orbit, seq![(830_000, Technology::GasGiantMining)])]
    } else if i == 8 {
        seq![(RawResourceType::Hydrogen, StationType::Orbit, seq![(800_000, Technology::GasGiantMining)])]
    } else {
        seq![]
    }
}

/// `r` holds, fresh, the resources that `table` lists.
pub open spec fn holds(r: PlanetResources, table: Seq<(RawResourceType, StationType, Seq<(u64, Technology)>)>) -> bool {
    &&& r.wf()
    &&& r.spec_resources().len() == table.len()
    &&& forall|j: int|
        0 <= j < table.len() ==> {
            let res = #[trigger] r.spec_resources()[j];
            &&& res.spec_type() == table[j].0
            &&& res.spec_station() == table[j].1
            &&& res.spec_levels() == table[j].2
            &&& res.spec_consumed() == 0
        }
}

fn two(
    t: RawResourceType,
    s: StationType,
    a: u64,
    ta: Technology,
    b: u64,
    tb: Technology,
) -> (r: RawResource)
    ensures
        r.wf(),
        r.spec_type() == t,
        r.spec_station() == s,
        r.spec_levels() == two_tiers(a, ta, b, tb),
        r.spec_consumed() == 0,
{
    let levels = vec![(a, ta), (b, tb)];
    assert(levels@ =~= two_tiers(a, ta, b, tb));
    RawResource::new(t, s, levels)
}

fn one(t: RawResourceType, s: StationType, a: u64, ta: Technology) -> (r: RawResource)
    ensures
        r.wf(),
        r.spec_type() == t,
        r.spec_station() == s,
        r.spec_levels() == seq![(a, ta)],
        r.spec_consumed() == 0,
{
    let levels = vec![(a, ta)];
    assert(levels@ =~= seq![(a, ta)]);
    RawResource::new(t, s, levels)
}

fn three(
    t: RawResourceType,
    s: StationType,
    a: (u64, Technology),
    b: (u64, Technology),
    c: (u64, Technology),
) -> (r: RawResource)
    ensures
        r.wf(),
        r.spec_type() == t,
        r.spec_station() == s,
        r.spec_levels() == seq![a, b, c],
        r.spec_consumed() == 0,
{
    let levels = vec![a, b, c];
    assert(levels@ =~= seq![a, b, c]);
    RawResource::new(t, s, levels)
}

/// The resources of body `i` of `bodies`, none consumed yet.
pub fn body_resources(i: usize) -> (r: PlanetResources)
    requires
        i < 9,
    ensures
        holds(r, spec_body_resources(i as int)),
{
    let v: Vec<RawResource> = if i == 0 {
        vec![
            two(RawResourceType::Metals, StationType::Surface, 70_000, Technology::ExtraTerrestrialMining, 700_000, Technology::DeepCrustMining),
            two(RawResourceType::Silicate, StationType::Surface, 30_000, Technology::ExtraTerrestrialMining, 300_000, Technology::DeepCrustMining),
        ]
    } else if i == 1 {
        vec![
            two(RawResourceType::Metals, StationType::Surface, 50_000, Technology::HotSurfaceMining, 500_000, Technology::DeepCrustMining),
            two(RawResourceType::Silicate, StationType::Surface, 15_000, Technology::HotSurfaceMining, 150_000, Technology::DeepCrustMining),
        ]
    } else if i == 2 {
        vec![
            three(RawResourceType::Metals, StationType::Surface, (25_000, Technology::NoTech), (50_000, Technology::DeepSeaMining), (500_000, Technology::DeepCrustMining)),
            three(RawResourceType::Silicate, StationType::Surface, (7_250, Technology::NoTech), (15_000, Technology::DeepSeaMining), (150_000, Technology::DeepCrustMining)),
            two(RawResourceType::Oxygen, StationType::Ocean, 3_000, Technology::NoTech, 30_000, Technology::SeaWaterElectrolysis),
            two(RawResourceType::Hydrogen, StationType::Ocean, 500, Technology::NoTech, 30_000, Technology::SeaWaterElectrolysis),
        ]
    } else if i == 3 {
        vec![
            two(RawResourceType::Metals, StationType::Surface, 30_000, Technology::ExtraTerrestrialMining, 300_000, Technology::DeepCrustMining),
            two(RawResourceType::Silicate, StationType::Surface, 20_000, Technology::ExtraTerrestrialMining, 200_000, Technology::DeepCrustMining),
            two(RawResourceType::Oxygen, StationType::Surface, 43_000, Technology::SurfaceMineralDecomposition, 430_000, Technology::DeepCrustMining),
        ]
    } else if i == 4 {
        vec![
            two(RawResourceType::Metals, StationType::Surface, 25_000, Technology::ExtraTerrestrialMining, 250_000, Technology::DeepCrustMining),
            two(RawResourceType::Silicate, StationType::Surface, 23_000, Technology::ExtraTerrestrialMining, 230_000, Technology::DeepCrustMining),
            two(RawResourceType::Oxygen, StationType::Surface, 43_000, Technology::SurfaceMineralDecomposition, 430_000, Technology::DeepCrustMining),
        ]
    } else if i == 5 {
        vec![one(RawResourceType::Hydrogen, StationType::Orbit, 900_000, Technology::GasGiantMining)]
    } else if i == 6 {
        vec![one(RawResourceType::Hydrogen, StationType::Orbit, 960_000, Technology::GasGiantMining)]
    } else if i == 7 {
        vec![one(RawResourceType::Hydrogen, StationType::Orbit, 830_000, Technology::GasGiantMining)]
    } else {
        vec![one(RawResourceType::Hydrogen, StationType::Orbit, 800_000, Technology::GasGiantMining)]
    };
    let r = PlanetResources::new(v);
    assert(holds(r, spec_body_resources(i as int)));
    r
}

/// The sun's own resource: hydrogen, for stellar lifting.
pub fn sun_resources() -> (r: PlanetResources)
    ensures
        holds(
            r,
            seq![(RawResourceType::Hydrogen, StationType::Orbit, seq![(2_485_000_000u64, Technology::StellarLifting)])],
        ),
{
    let r = PlanetResources::new(vec![one(RawResourceType::Hydrogen, StationType::Orbit, 2_485_000_000, Technology::StellarLifting)]);
    assert(holds(
        r,
        seq![(RawResourceType::Hydrogen, StationType::Orbit, seq![(2_485_000_000u64, Technology::StellarLifting)])],
    ));
    r
}

/// A body of the system: its orbit, its flare-facing state, its resources,
/// and the body it circles (the sun where there is none).
#[derive(Debug)]
pub struct Body {
    pub orbit: Orbit,
    pub planet: Planet,
    pub resources: PlanetResources,
    pub parent: Option<usize>,
}

/// `b` is body `i` of the system as play starts: on its circular orbit at
/// angle zero, with nothing absorbed and its resources untouched.
pub open spec fn starts_as(b: Body, i: int) -> bool {
    let spec = spec_bodies()[i];
    &&& b.orbit.wf()
    &&& b.orbit.spec_radius() == spec.orbit_radius
    &&& b.orbit.spec_period() == spec.period
    &&& b.orbit.spec_elapsed() == 0
    &&& b.planet == (Planet {
        is_moon: spec.is_moon,
        has_magnetic_field: spec.has_magnetic_field,
        size: spec.size,
        absorbed_power: 0,
        x: 0,
        y: 0,
    })
    &&& holds(b.resources, spec_body_resources(i))
    &&& b.parent == spec.parent
}

/// The sun and the bodies that circle it.
#[derive(Debug)]
pub struct SolarSystem {
    pub sun: Sun,
    pub sun_resources: PlanetResources,
    pub bodies: Vec<Body>,
}

/// The solar system as play starts: a new sun (unit power, mid-cycle and
/// rising, no flare waiting) with its hydrogen, and the nine bodies of
/// `bodies`, each as `starts_as` says.
pub fn spawn_solar_system() -> (r: SolarSystem)
    ensures
        r.sun.wf(),
        r.sun.spec_relative_power() == PICO,
        r.sun.spec_cycle_state() == HALF_PEAK,
        r.sun.spec_increasing(),
        r.sun.spec_last_flare() == 0,
        holds(
            r.sun_resources,
            seq![(RawResourceType::Hydrogen, StationType::Orbit, seq![(2_485_000_000u64, Technology::StellarLifting)])],
        ),
        r.bodies@.len() == 9,
        forall|i: int| 0 <= i < 9 ==> #[trigger] starts_as(r.bodies@[i], i),
{
    let layout = bodies();
    let mut out: Vec<Body> = Vec::new();
    let mut i: usize = 0;
    while i < 9
        invariant
            layout@ == spec_bodies(),
            i <= 9,
            out@.len() == i,
            forall|k: int| 0 <= k < i ==> #[trigger] starts_as(out@[k], k),
        decreases 9 - i,
    {
        let spec = layout[i];
        let b = Body {
            orbit: Orbit::circle(spec.orbit_radius, spec.period),
            planet: Planet {
                is_moon: spec.is_moon,
                has_magnetic_field: spec.has_magnetic_field,
                size: spec.size,
                absorbed_power: 0,
                x: 0,
                y: 0,
            },
            resources: body_resources(i),
            parent: spec.parent,
        };
        assert(starts_as(b, i as int));
        out.push(b);
        i = i + 1;
    }
    SolarSystem { sun: Sun::default(), sun_resources: sun_resources(), bodies: out }
}

} // verus!
