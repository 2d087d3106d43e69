use vstd::prelude::*;

verus! {

/// A technology that gates resource tiers. `NoTech` is the "no gate" sentinel
/// and counts as unlocked from the start.
#[derive(Clone, Copy, Debug, PartialEq, Eq, Structural, Hash)]
pub enum Technology {
    NoTech,
    Orbitals,
    DeepSeaMining,
    DeepCrustMining,
    ExtraTerrestrialMining,
    HotSurfaceMining,
    SeaWaterElectrolysis,
    SurfaceMineralDecomposition,
    GasGiantMining,
    StellarLifting,
}

/// Fixed-point scale of cost modifiers: 1000 stands for a factor of 1.
pub const MODIFIER_ONE: u64 = 1000;

/// The cost factor, in thousandths, that a tier gated by `t` applies to a
/// harvester's price.
pub open spec fn spec_cost_modifier(t: Technology) -> u64 {
    match t {
        Technology::NoTech | Technology::GasGiantMining | Technology::Orbitals => 1000,
        Technology::DeepSeaMining | Technology::SurfaceMineralDecomposition => 2000,
        Technology::DeepCrustMining => 5000,
        Technology::ExtraTerrestrialMining | Technology::SeaWaterElectrolysis => 1500,
        Technology::HotSurfaceMining => 2500,
        Technology::StellarLifting => 2_000_000,
    }
}

/// The technologies that must be unlocked before `t` can be.
pub open spec fn spec_prerequisites(t: Technology) -> Seq<Technology> {
    match t {
        Technology::HotSurfaceMining | Technology::SurfaceMineralDecomposition => seq![
            Technology::ExtraTerrestrialMining,
        ],
        Technology::GasGiantMining => seq![Technology::Orbitals],
        Technology::StellarLifting => seq![Technology::GasGiantMining],
        _ => seq![],
    }
}

/// The (metals, silicate) price of researching `t`.
pub open spec fn spec_tech_cost(t: Technology) -> (u64, u64) {
    match t {
        Technology::NoTech => (0, 0),
        Technology::Orbitals => (5_000, 300),
        Technology::DeepSeaMining => (1_000, 500),
        Technology::DeepCrustMining => (20_000, 20_000),
        Technology::ExtraTerrestrialMining => (5_000, 2_000),
        Technology::HotSurfaceMining => (5_000, 10_000),
        Technology::SeaWaterElectrolysis => (2_000, 300),
        Technology::SurfaceMineralDecomposition => (5_000, 500),
        Technology::GasGiantMining => (30_000, 3_000),
        Technology::StellarLifting => (200_000, 50_000),
    }
}

/// The variant's identifier, as its name is written in code.
pub open spec fn spec_variant_name(t: Technology) -> Seq<char> {
    match t {
        Technology::NoTech => "None"@,
        Technology::Orbitals => "Orbitals"@,
        Technology::DeepSeaMining => "DeepSeaMining"@,
        Technology::DeepCrustMining => "DeepCrustMining"@,
        Technology::ExtraTerrestrialMining => "ExtraTerrestrialMining"@,
        Technology::HotSurfaceMining => "HotSurfaceMining"@,
        Technology::SeaWaterElectrolysis => "SeaWaterElectrolysis"@,
        Technology::SurfaceMineralDecomposition => "SurfaceMineralDecomposition"@,
        Technology::GasGiantMining => "GasGiantMining"@,
        Technology::StellarLifting => "StellarLifting"@,
    }
}

/// What convert_case's title case makes of a string.
pub uninterp spec fn title_case_of(s: Seq<char>) -> Seq<char>;

/// Relies on `convert_case::Casing::to_case` with `Case::Title`: the result is
/// a function of the input text alone.
#[verifier::external_body]
fn title_case(s: &str) -> (r: String)
    ensures
        r@ == title_case_of(s@),
{
    convert_case::Casing::to_case(&s, convert_case::Case::Title)
}

impl Technology {
    pub fn cost_modifier(self) -> (r: u64)
        ensures
            r == spec_cost_modifier(self),
    {
        match self {
            Self::NoTech | Self::GasGiantMining | Self::Orbitals => 1000,
            Self::DeepSeaMining | Self::SurfaceMineralDecomposition => 2000,
            Self::DeepCrustMining => 5000,
            Self::ExtraTerrestrialMining | Self::SeaWaterElectrolysis => 1500,
            Self::HotSurfaceMining => 2500,
            Self::StellarLifting => 2_000_000,
        }
    }

    pub fn is_none(self) -> (r: bool)
        ensures
            r == (self == Technology::NoTech),
    {
        matches!(self, Self::NoTech)
    }

    /// The variant's identifier.
    pub fn variant_name(self) -> (r: &'static str)
        ensures
            r@ == spec_variant_name(self),
    {
        match self {
            Self::NoTech => "None",
            Self::Orbitals => "Orbitals",
            Self::DeepSeaMining => "DeepSeaMining",
            Self::DeepCrustMining => "DeepCrustMining",
            Self::ExtraTerrestrialMining => "ExtraTerrestrialMining",
            Self::HotSurfaceMining => "HotSurfaceMining",
            Self::SeaWaterElectrolysis => "SeaWaterElectrolysis",
            Self::SurfaceMineralDecomposition => "SurfaceMineralDecomposition",
            Self::GasGiantMining => "GasGiantMining",
            Self::StellarLifting => "StellarLifting",
        }
    }

    /// The name shown to the player: the identifier split into title-cased words.
    pub fn to_formatted_string(self) -> (r: String)
        ensures
            r@ == title_case_of(spec_variant_name(self)),
    {
        title_case(self.variant_name())
    }

    pub fn prerequisites(self) -> (r: Vec<Technology>)
        ensures
            r@ == spec_prerequisites(self),
    {
        let r = match self {
            Self::NoTech
            | Self::DeepSeaMining
            | Self::DeepCrustMining
            | Self::ExtraTerrestrialMining
            | Self::SeaWaterElectrolysis
            | Self::Orbitals => vec![],
            Self::HotSurfaceMining | Self::SurfaceMineralDecomposition => {
                vec![Self::ExtraTerrestrialMining]
            },
            Self::GasGiantMining => vec![Self::Orbitals],
            Self::StellarLifting => vec![Self::GasGiantMining],
        };
        proof {
            assert(r@ =~= spec_prerequisites(self));
        }
        r
    }

    pub fn cost(self) -> (r: (u64, u64))
        ensures
            r == spec_tech_cost(self),
    {
        match self {
            Self::NoTech => (0, 0),
            Self::Orbitals => (5_000, 300),
            Self::DeepSeaMining => (1_000, 500),
            Self::DeepCrustMining => (20_000, 20_000),
            Self::ExtraTerrestrialMining => (5_000, 2_000),
            Self::HotSurfaceMining => (5_000, 10_000),
            Self::SeaWaterElectrolysis => (2_000, 300),
            Self::SurfaceMineralDecomposition => (5_000, 500),
            Self::GasGiantMining => (30_000, 3_000),
            Self::StellarLifting => (200_000, 50_000),
        }
    }
}

/// The set of technologies unlocked so far. It only grows.
#[derive(Debug)]
pub struct TechUnlocks {
    techs: Vec<Technology>,
}

/// Whether `t` counts as unlocked in the set `s`.
pub open spec fn spec_check(s: Set<Technology>, t: Technology) -> bool {
    t == Technology::NoTech || s.contains(t)
}

/// Whether every prerequisite of `t` is unlocked in `s`.
pub open spec fn spec_can_unlock(s: Set<Technology>, t: Technology) -> bool {
    forall|i: int|
        0 <= i < spec_prerequisites(t).len() ==> #[trigger] spec_check(
            s,
            spec_prerequisites(t)[i],
        )
}

/// The set after a request to unlock `t`.
pub open spec fn spec_unlock(s: Set<Technology>, t: Technology) -> Set<Technology> {
    if spec_can_unlock(s, t) {
        s.insert(t)
    } else {
        s
    }
}

impl View for TechUnlocks {
    type V = Set<Technology>;

    closed spec fn view(&self) -> Set<Technology> {
        self.techs@.to_set()
    }
}

impl TechUnlocks {
    /// Nothing unlocked yet.
    pub fn new() -> (r: TechUnlocks)
        ensures
            r@ == Set::<Technology>::empty(),
    {
        let r = TechUnlocks { techs: Vec::new() };
        proof {
            assert(r.techs@.to_set() =~= Set::<Technology>::empty());
        }
        r
    }

    fn contains(&self, tech: Technology) -> (r: bool)
        ensures
            r == self@.contains(tech),
    {
        let mut i: usize = 0;
        while i < self.techs.len()
            invariant
                i <= self.techs@.len(),
                forall|j: int| 0 <= j < i ==> self.techs@[j] != tech,
            decreases self.techs@.len() - i,
        {
            if self.techs[i] == tech {
                proof {
                    assert(self.techs@.to_set().contains(self.techs@[i as int]));
                }
                return true;
            }
            i = i + 1;
        }
        proof {
            if self.techs@.to_set().contains(tech) {
                let j = choose|j: int| 0 <= j < self.techs@.len() && self.techs@[j] == tech;
                assert(self.techs@[j] != tech);
            }
        }
        false
    }

    /// Returns true if the specified technology is currently unlocked.
    pub fn check(&self, tech: Technology) -> (r: bool)
        ensures
            r == spec_check(self@, tech),
    {
        tech.is_none() || self.contains(tech)
    }

    /// Returns true if the prerequisite technologies of `tech` are unlocked.
    pub fn can_unlock(&self, tech: Technology) -> (r: bool)
        ensures
            r == spec_can_unlock(self@, tech),
    {
        let pre = tech.prerequisites();
        let mut i: usize = 0;
        while i < pre.len()
            invariant
                pre@ == spec_prerequisites(tech),
                i <= pre@.len(),
                forall|j: int| 0 <= j < i ==> #[trigger] spec_check(self@, pre@[j]),
            decreases pre@.len() - i,
        {
            if !self.check(pre[i]) {
                return false;
            }
            i = i + 1;
        }
        true
    }

    /// Unlocks `tech` if its prerequisites are met, and reports whether it did.
    /// A refused request leaves the set as it was.
    pub fn unlock(&mut self, tech: Technology) -> (r: bool)
        ensures
            r == spec_can_unlock(old(self)@, tech),
            final(self)@ == spec_unlock(old(self)@, tech),
    {
        if self.can_unlock(tech) {
            if !self.contains(tech) {
                proof {
                    self.techs@.lemma_push_to_set_commute(tech);
                }
                self.techs.push(tech);
            }
            proof {
                assert(self.techs@.to_set() =~= old(self)@.insert(tech));
            }
            true
        } else {
            false
        }
    }
}

/// Unlocking a technology twice leaves the same set as unlocking it once, and
/// a request whose prerequisites are not all unlocked changes nothing.
pub proof fn lemma_unlock_idempotent(s: Set<Technology>, t: Technology)
    ensures
        spec_unlock(spec_unlock(s, t), t) == spec_unlock(s, t),
        !spec_can_unlock(s, t) ==> spec_unlock(s, t) == s,
{
    if spec_can_unlock(s, t) {
        assert(s.insert(t).insert(t) =~= s.insert(t));
    }
}

} // verus!
