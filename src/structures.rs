use vstd::prelude::*;

use crate::resources::{
    find_type, spec_available, spec_current, HarvestedResources, PlanetResources, RawResource, RawResourceType,
};
use crate::sun::PICO;
use crate::unlocks::{TechUnlocks, Technology};

verus! {

/// One astronomical unit, in thousandths of a unit of distance.
pub const ONE_AU: u64 = 37_400_000;

/// The most a structure may produce per tick.
pub const MAX_OUTPUT: u64 = 1_000_000_000_000;

/// The largest sun buff, in thousandths.
pub const MAX_SUN_BUFF: u64 = 1_000_000;

/// A structure that draws power from the bank each tick.
#[derive(Clone, Copy, Debug, PartialEq, Eq, Structural)]
pub struct PoweredStructure(pub u64);

impl PoweredStructure {
    /// Whether the bank holds the power this structure needs.
    pub fn check(&self, resources: &HarvestedResources) -> (r: bool)
        ensures
            r == (resources.power >= self.0),
    {
        resources.power >= self.0
    }

    /// Takes the power from the bank if it is there, and reports whether it was.
    pub fn consume(&self, resources: &mut HarvestedResources) -> (r: bool)
        ensures
            r == (old(resources).power >= self.0),
            r ==> *final(resources) == (HarvestedResources {
                power: (old(resources).power - self.0) as u64,
                ..*old(resources)
            }),
            !r ==> *final(resources) == *old(resources),
    {
        if self.check(resources) {
            resources.power = resources.power - self.0;
            true
        } else {
            false
        }
    }
}

/// The bank after paying the requirements from index `i` on, in order, or
/// none where some amount is not there when its turn comes.
pub open spec fn pay_from(reqs: Seq<(u64, RawResourceType)>, i: int, bank: HarvestedResources) -> Option<
    HarvestedResources,
>
    decreases reqs.len() - i,
{
    if i < 0 || i >= reqs.len() {
        Some(bank)
    } else if reqs[i].0 > bank.amount(reqs[i].1) {
        None
    } else {
        pay_from(
            reqs,
            i + 1,
            bank.with_amount(reqs[i].1, (bank.amount(reqs[i].1) - reqs[i].0) as u64),
        )
    }
}

/// Every requirement, taken alone, is covered by the bank (a list that names
/// a resource twice may still not be payable as a whole; see `pay_from`).
pub open spec fn covers(reqs: Seq<(u64, RawResourceType)>, bank: HarvestedResources) -> bool {
    forall|i: int| 0 <= i < reqs.len() ==> (#[trigger] reqs[i]).0 <= bank.amount(reqs[i].1)
}

/// A structure that draws resources from the bank each tick.
#[derive(Clone, Debug)]
pub struct ConsumingStructure(pub Vec<(u64, RawResourceType)>);

impl ConsumingStructure {
    /// Whether the bank covers each requirement.
    pub fn check(&self, resources: &HarvestedResources) -> (r: bool)
        ensures
            r == covers(self.0@, *resources),
    {
        let mut i: usize = 0;
        while i < self.0.len()
            invariant
                i <= self.0@.len(),
                forall|j: int| 0 <= j < i ==> (#[trigger] self.0@[j]).0 <= resources.amount(
                    self.0@[j].1,
                ),
            decreases self.0@.len() - i,
        {
            let (amount, res) = self.0[i];
            if resources.get(res) < amount {
                return false;
            }
            i = i + 1;
        }
        true
    }

    /// Pays every requirement from the bank if it can pay them all in turn,
    /// and reports whether it did; otherwise the bank is left as it was.
    pub fn consume(&self, resources: &mut HarvestedResources) -> (r: bool)
        ensures
            r == pay_from(self.0@, 0, *old(resources)) is Some,
            r ==> *final(resources) == pay_from(self.0@, 0, *old(resources))->0,
            !r ==> *final(resources) == *old(resources),
    {
        let mut bank = HarvestedResources {
            metals: resources.metals,
            silicate: resources.silicate,
            hydrogen: resources.hydrogen,
            oxygen: resources.oxygen,
            power: resources.power,
        };
        assert(bank == *resources);
        let mut i: usize = 0;
        while i < self.0.len()
            invariant
                i <= self.0@.len(),
                pay_from(self.0@, 0, *old(resources)) == pay_from(self.0@, i as int, bank),
                *resources == *old(resources),
            decreases self.0@.len() - i,
        {
            let (amount, res) = self.0[i];
            let have = bank.get(res);
            if have < amount {
                return false;
            }
            let slot = bank.get_mut(res);
            *slot = have - amount;
            i = i + 1;
        }
        *resources = bank;
        true
    }
}

/// A harvester or generator: each enabled tick it takes `produced` of a
/// resource from its planet (if it has one) and banks it.
#[derive(Clone, Copy, Debug, PartialEq, Eq, Structural)]
pub struct ProducingStructure {
    pub planet: Option<usize>,
    pub res_type: RawResourceType,
    pub produced: u64,
    pub sun_buff: u64,
}

/// Whether a structure runs this tick.
#[derive(Clone, Copy, Debug, PartialEq, Eq, Structural)]
pub struct EnabledStructure(pub bool);

/// A structure of the economy, with its distance from the sun.
#[derive(Clone, Debug)]
pub struct Structure {
    pub power: Option<PoweredStructure>,
    pub consuming: Option<ConsumingStructure>,
    pub producing: Option<ProducingStructure>,
    pub distance: u64,
}

impl Structure {
    /// It does something, and its output is within bounds; one whose output
    /// depends on the sun stands away from it.
    pub open spec fn wf(&self) -> bool {
        &&& (self.power is Some || self.consuming is Some || self.producing is Some)
        &&& (self.producing matches Some(p) ==> p.produced <= MAX_OUTPUT && p.sun_buff
            <= MAX_SUN_BUFF && (p.sun_buff > 0 ==> self.distance > 0))
    }

    /// A structure, or none where it would need nothing and make nothing, or
    /// its output is out of bounds.
    pub fn new(
        power: Option<PoweredStructure>,
        consuming: Option<ConsumingStructure>,
        producing: Option<ProducingStructure>,
        distance: u64,
    ) -> (r: Option<Structure>)
        ensures
            r is Some <==> (Structure { power, consuming, producing, distance }).wf(),
            r matches Some(s) ==> s == (Structure { power, consuming, producing, distance }),
    {
        let valid = match producing {
            Some(p) => p.produced <= MAX_OUTPUT && p.sun_buff <= MAX_SUN_BUFF && (p.sun_buff
                == 0 || distance > 0),
            None => true,
        };
        if valid && (power.is_some() || consuming.is_some() || producing.is_some()) {
            Some(Structure { power, consuming, producing, distance })
        } else {
            None
        }
    }
}

/// What a producing structure yields this tick: its base output, or, where
/// it draws on the sun, that output times the buff (in thousandths) and the
/// sun's power (in `PICO` units), divided by its distance in AU.
pub open spec fn spec_output(p: ProducingStructure, distance: u64, power_scale: u64) -> int {
    if p.sun_buff == 0 {
        p.produced as int
    } else {
        (p.produced * p.sun_buff * power_scale / (1000 * PICO as int)) * ONE_AU / distance as int
    }
}

/// A bound on what any structure yields in a tick.
pub const MAX_BUFFED_OUTPUT: u128 = 100_000_000_000_000_000_000_000_000_000;

/// The largest power scale a sun can reach.
pub const MAX_POWER_SCALE: u64 = 1_500_000_000_000_000_000;

pub fn output(p: &ProducingStructure, distance: u64, power_scale: u64) -> (r: u128)
    requires
        p.produced <= MAX_OUTPUT,
        p.sun_buff <= MAX_SUN_BUFF,
        p.sun_buff > 0 ==> distance > 0,
        power_scale <= MAX_POWER_SCALE,
    ensures
        r == spec_output(*p, distance, power_scale),
        r <= MAX_BUFFED_OUTPUT,
{
    if p.sun_buff == 0 {
        p.produced as u128
    } else {
        proof {
            assert(p.produced * p.sun_buff <= MAX_OUTPUT * MAX_SUN_BUFF) by (nonlinear_arith)
                requires
                    p.produced <= MAX_OUTPUT,
                    p.sun_buff <= MAX_SUN_BUFF,
            ;
            assert(p.produced * p.sun_buff * power_scale <= MAX_OUTPUT * MAX_SUN_BUFF
                * MAX_POWER_SCALE) by (nonlinear_arith)
                requires
                    0 <= p.produced * p.sun_buff <= MAX_OUTPUT * MAX_SUN_BUFF,
                    power_scale <= MAX_POWER_SCALE,
            ;
            let t = p.produced * p.sun_buff * power_scale / (1000 * PICO as int);
            vstd::arithmetic::div_mod::lemma_div_is_ordered(
                p.produced * p.sun_buff * power_scale,
                MAX_OUTPUT * MAX_SUN_BUFF * MAX_POWER_SCALE,
                1000 * PICO as int,
            );
            assert(t * ONE_AU <= (MAX_OUTPUT * MAX_SUN_BUFF * MAX_POWER_SCALE / (1000
                * PICO as int)) * ONE_AU) by (nonlinear_arith)
                requires
                    0 <= t <= MAX_OUTPUT * MAX_SUN_BUFF * MAX_POWER_SCALE / (1000 * PICO as int),
            ;
        }
        let t = p.produced as u128 * p.sun_buff as u128 * power_scale as u128 / (1000
            * PICO as u128);
        proof {
            vstd::arithmetic::div_mod::lemma_div_is_ordered_by_denominator(
                t * ONE_AU,
                1,
                distance as int,
            );
        }
        t * ONE_AU as u128 / distance as u128
    }
}

/// Whether the planet a producing structure draws on still has what it would
/// take this tick; a structure that draws on no known planet or resource
/// always has.
pub open spec fn has_resource(
    s: Structure,
    planets: Seq<PlanetResources>,
    techs: Set<Technology>,
    power_scale: u64,
) -> bool {
    match s.producing {
        None => true,
        Some(p) => match p.planet {
            None => true,
            Some(idx) => if idx >= planets.len() {
                true
            } else {
                match find_type(planets[idx as int].spec_resources(), p.res_type, 0) {
                    None => true,
                    Some(j) => {
                        let res = planets[idx as int].spec_resources()[j];
                        spec_available(res.spec_levels(), res.spec_consumed(), techs)
                            >= spec_output(p, s.distance, power_scale)
                    },
                }
            },
        },
    }
}

/// The bank after a structure pays its power and then each resource it
/// needs, in turn; none where some amount is not there when its turn comes.
pub open spec fn pay_all(s: Structure, bank: HarvestedResources) -> Option<HarvestedResources> {
    let b1 = match s.power {
        Some(pw) => if bank.power >= pw.0 {
            Some(HarvestedResources { power: (bank.power - pw.0) as u64, ..bank })
        } else {
            None
        },
        None => Some(bank),
    };
    match b1 {
        None => None,
        Some(b) => match s.consuming {
            Some(c) => pay_from(c.0@, 0, b),
            None => Some(b),
        },
    }
}

/// Whether a structure runs this tick, and the bank after it pays for that:
/// one with requirements runs where its planet has the resource and the bank
/// can pay all it needs, which it then pays; otherwise nothing is taken. One
/// without requirements always runs.
pub open spec fn enable(
    s: Structure,
    bank: HarvestedResources,
    planets: Seq<PlanetResources>,
    techs: Set<Technology>,
    power_scale: u64,
) -> (bool, HarvestedResources) {
    if s.power is None && s.consuming is None {
        (true, bank)
    } else if has_resource(s, planets, techs, power_scale) && pay_all(s, bank) is Some {
        (true, pay_all(s, bank)->0)
    } else {
        (false, bank)
    }
}

/// The bank after the first `n` structures have been enabled in turn.
pub open spec fn bank_after_enable(
    structs: Seq<Structure>,
    n: int,
    bank: HarvestedResources,
    planets: Seq<PlanetResources>,
    techs: Set<Technology>,
    power_scale: u64,
) -> HarvestedResources
    decreases n,
{
    if n <= 0 {
        bank
    } else {
        enable(
            structs[n - 1],
            bank_after_enable(structs, n - 1, bank, planets, techs, power_scale),
            planets,
            techs,
            power_scale,
        ).1
    }
}

fn has_resource_exec(
    s: &Structure,
    planets: &Vec<PlanetResources>,
    tech: &TechUnlocks,
    power_scale: u64,
) -> (r: bool)
    requires
        s.wf(),
        forall|i: int| 0 <= i < planets@.len() ==> (#[trigger] planets@[i]).wf(),
        power_scale <= MAX_POWER_SCALE,
    ensures
        r == has_resource(*s, planets@, tech@, power_scale),
{
    match &s.producing {
        None => true,
        Some(p) => match p.planet {
            None => true,
            Some(idx) => {
                if idx >= planets.len() {
                    true
                } else {
                    let pr = &planets[idx];
                    proof {
                        crate::resources::lemma_find_type_in_range(
                            pr.spec_resources(),
                            p.res_type,
                            0,
                        );
                    }
                    match pr.get(p.res_type) {
                        None => true,
                        Some(res) => {
                            let produced = output(p, s.distance, power_scale);
                            res.get_available(tech) >= produced as i128
                        },
                    }
                }
            },
        },
    }
}

/// The first phase of a tick: decides, in order, which structures run, and
/// takes from the bank what the running ones need. Returns one flag per
/// structure.
pub fn consuming_structures(
    tech: &TechUnlocks,
    power_scale: u64,
    planets: &Vec<PlanetResources>,
    resources: &mut HarvestedResources,
    structures: &Vec<Structure>,
) -> (r: Vec<EnabledStructure>)
    requires
        forall|i: int| 0 <= i < structures@.len() ==> (#[trigger] structures@[i]).wf(),
        forall|i: int| 0 <= i < planets@.len() ==> (#[trigger] planets@[i]).wf(),
        power_scale <= MAX_POWER_SCALE,
    ensures
        r@.len() == structures@.len(),
        forall|i: int|
            0 <= i < structures@.len() ==> (#[trigger] r@[i]).0 == enable(
                structures@[i],
                bank_after_enable(structures@, i, *old(resources), planets@, tech@, power_scale),
                planets@,
                tech@,
                power_scale,
            ).0,
        *final(resources) == bank_after_enable(
            structures@,
            structures@.len() as int,
            *old(resources),
            planets@,
            tech@,
            power_scale,
        ),
{
    let mut flags: Vec<EnabledStructure> = Vec::new();
    let mut i: usize = 0;
    while i < structures.len()
        invariant
            i <= structures@.len(),
            flags@.len() == i,
            forall|k: int| 0 <= k < structures@.len() ==> (#[trigger] structures@[k]).wf(),
            forall|k: int| 0 <= k < planets@.len() ==> (#[trigger] planets@[k]).wf(),
            power_scale <= MAX_POWER_SCALE,
            *resources == bank_after_enable(
                structures@,
                i as int,
                *old(resources),
                planets@,
                tech@,
                power_scale,
            ),
            forall|k: int|
                0 <= k < i ==> (#[trigger] flags@[k]).0 == enable(
                    structures@[k],
                    bank_after_enable(structures@, k, *old(resources), planets@, tech@, power_scale),
                    planets@,
                    tech@,
                    power_scale,
                ).0,
        decreases structures@.len() - i,
    {
        let s = &structures[i];
        let on = if s.power.is_none() && s.consuming.is_none() {
            true
        } else {
            let has = has_resource_exec(s, planets, tech, power_scale);
            if has {
                let mut trial: HarvestedResources = *resources;
                let power_ok = match &s.power {
                    Some(pw) => pw.consume(&mut trial),
                    None => true,
                };
                let res_ok = if power_ok {
                    match &s.consuming {
                        Some(c) => c.consume(&mut trial),
                        None => true,
                    }
                } else {
                    false
                };
                if power_ok && res_ok {
                    *resources = trial;
                    true
                } else {
                    false
                }
            } else {
                false
            }
        };
        flags.push(EnabledStructure(on));
        i = i + 1;
    }
    flags
}

/// `r` is `q` with at most more consumed.
pub open spec fn consumed_grew(r: RawResource, q: RawResource) -> bool {
    &&& r.spec_levels() == q.spec_levels()
    &&& r.spec_type() == q.spec_type()
    &&& r.spec_station() == q.spec_station()
    &&& r.spec_consumed() >= q.spec_consumed()
}

/// Every resource of `b` is that of `a` with at most more consumed.
pub open spec fn planet_grew(b: PlanetResources, a: PlanetResources) -> bool {
    &&& b.spec_resources().len() == a.spec_resources().len()
    &&& forall|j: int|
        0 <= j < a.spec_resources().len() ==> consumed_grew(
            #[trigger] b.spec_resources()[j],
            a.spec_resources()[j],
        )
}

/// `a + b`, or `u64::MAX` where the sum does not fit.
pub open spec fn add_capped(a: u64, b: int) -> u64 {
    if a + b > u64::MAX {
        u64::MAX
    } else {
        (a + b) as u64
    }
}

/// The bank after `amount` of a producer's resource is banked.
pub open spec fn deposit(p: ProducingStructure, bank: HarvestedResources, amount: int) -> HarvestedResources {
    bank.with_amount(p.res_type, add_capped(bank.amount(p.res_type), amount))
}

/// The (planet, resource) ledger slot a structure draws on, where its planet
/// is known and has that resource.
pub open spec fn slot_of(s: Structure, planets: Seq<PlanetResources>) -> Option<(int, int)> {
    match s.producing {
        Some(p) => match p.planet {
            Some(k) => if k < planets.len() {
                match find_type(planets[k as int].spec_resources(), p.res_type, 0) {
                    Some(j) => Some((k as int, j)),
                    None => None,
                }
            } else {
                None
            },
            None => None,
        },
        None => None,
    }
}

/// Whether structure `i`, running after the first `i` have produced, finds
/// its output available in its ledger slot; one without a slot always does.
pub open spec fn draws(
    structs: Seq<Structure>,
    flags: Seq<EnabledStructure>,
    i: int,
    planets: Seq<PlanetResources>,
    techs: Set<Technology>,
    power_scale: u64,
) -> bool {
    match slot_of(structs[i], planets) {
        Some((k, j)) => {
            let prev = slot_consumed(structs, flags, i, planets, techs, power_scale, k, j);
            let out = spec_output(structs[i].producing->0, structs[i].distance, power_scale);
            let avail = match spec_current(planets[k].spec_resources()[j].spec_levels(), techs) {
                Some(c) => c - prev,
                None => 0,
            };
            avail >= out
        },
        None => true,
    }
}

/// The bank after the first `n` structures have produced: a running producer
/// banks its output where it could draw it (or draws on no ledger).
pub open spec fn bank_after_produce(
    structs: Seq<Structure>,
    flags: Seq<EnabledStructure>,
    n: int,
    bank: HarvestedResources,
    planets: Seq<PlanetResources>,
    techs: Set<Technology>,
    power_scale: u64,
) -> HarvestedResources
    decreases n,
{
    if n <= 0 {
        bank
    } else {
        let prev = bank_after_produce(structs, flags, n - 1, bank, planets, techs, power_scale);
        let s = structs[n - 1];
        match s.producing {
            Some(p) => if flags[n - 1].0 && draws(structs, flags, n - 1, planets, techs, power_scale) {
                deposit(p, prev, spec_output(p, s.distance, power_scale))
            } else {
                prev
            },
            None => prev,
        }
    }
}

/// What is consumed of resource `j` of planet `k` after the first `n`
/// structures have produced in turn: a running producer drawing on that
/// resource takes its output where that much is still available.
pub open spec fn slot_consumed(
    structs: Seq<Structure>,
    flags: Seq<EnabledStructure>,
    n: int,
    planets: Seq<PlanetResources>,
    techs: Set<Technology>,
    power_scale: u64,
    k: int,
    j: int,
) -> int
    decreases n,
{
    if n <= 0 {
        planets[k].spec_resources()[j].spec_consumed() as int
    } else {
        let prev = slot_consumed(structs, flags, n - 1, planets, techs, power_scale, k, j);
        let s = structs[n - 1];
        match s.producing {
            Some(p) => {
                if flags[n - 1].0 && p.planet == Some(k as usize) && 0 <= k < planets.len()
                    && find_type(planets[k].spec_resources(), p.res_type, 0) == Some(j) {
                    let out = spec_output(p, s.distance, power_scale);
                    let avail = match spec_current(
                        planets[k].spec_resources()[j].spec_levels(),
                        techs,
                    ) {
                        Some(c) => c - prev,
                        None => 0,
                    };
                    if avail >= out {
                        prev + out
                    } else {
                        prev
                    }
                } else {
                    prev
                }
            },
            None => prev,
        }
    }
}

proof fn lemma_find_type_same(a: Seq<RawResource>, b: Seq<RawResource>, t: RawResourceType, i: int)
    requires
        a.len() == b.len(),
        forall|j: int| 0 <= j < a.len() ==> (#[trigger] a[j]).spec_type() == b[j].spec_type(),
    ensures
        find_type(a, t, i) == find_type(b, t, i),
    decreases a.len() - i,
{
    if 0 <= i < a.len() {
        lemma_find_type_same(a, b, t, i + 1);
    }
}

/// The second phase of a tick: each running producer takes its output from
/// its planet's ledger where that much is still available, and banks what it
/// took; a producer that draws on no ledger banks its output. What was
/// consumed never decreases.
pub fn producing_structures(
    tech: &TechUnlocks,
    power_scale: u64,
    resources: &mut HarvestedResources,
    structures: &Vec<Structure>,
    enabled: &Vec<EnabledStructure>,
    planets: &mut Vec<PlanetResources>,
)
    requires
        enabled@.len() == structures@.len(),
        forall|i: int| 0 <= i < structures@.len() ==> (#[trigger] structures@[i]).wf(),
        forall|i: int| 0 <= i < old(planets)@.len() ==> (#[trigger] old(planets)@[i]).wf(),
        power_scale <= MAX_POWER_SCALE,
    ensures
        *final(resources) == bank_after_produce(
            structures@,
            enabled@,
            structures@.len() as int,
            *old(resources),
            old(planets)@,
            tech@,
            power_scale,
        ),
        final(planets)@.len() == old(planets)@.len(),
        forall|k: int|
            0 <= k < old(planets)@.len() ==> planet_grew(
                #[trigger] final(planets)@[k],
                old(planets)@[k],
            ),
        forall|k: int, j: int|
            0 <= k < old(planets)@.len() && 0 <= j < old(planets)@[k].spec_resources().len()
                ==> #[trigger] final(planets)@[k].spec_resources()[j].spec_consumed()
                == slot_consumed(
                structures@,
                enabled@,
                structures@.len() as int,
                old(planets)@,
                tech@,
                power_scale,
                k,
                j,
            ),
{
    let ghost planets0 = planets@;
    let mut i: usize = 0;
    while i < structures.len()
        invariant
            i <= structures@.len(),
            enabled@.len() == structures@.len(),
            forall|k: int| 0 <= k < structures@.len() ==> (#[trigger] structures@[k]).wf(),
            forall|k: int| 0 <= k < planets0.len() ==> (#[trigger] planets0[k]).wf(),
            power_scale <= MAX_POWER_SCALE,
            planets@.len() == planets0.len(),
            forall|k: int| 0 <= k < planets0.len() ==> planet_grew(#[trigger] planets@[k], planets0[k]),
            forall|k: int, j: int|
                0 <= k < planets0.len() && 0 <= j < planets0[k].spec_resources().len()
                    ==> #[trigger] planets@[k].spec_resources()[j].spec_consumed()
                    == slot_consumed(structures@, enabled@, i as int, planets0, tech@, power_scale, k, j),
            *resources == bank_after_produce(
                structures@,
                enabled@,
                i as int,
                *old(resources),
                planets0,
                tech@,
                power_scale,
            ),
        decreases structures@.len() - i,
    {
        let s = &structures[i];
        let ghost before = planets@;
        // the slot this structure draws on, if any
        let ghost mut target: Option<(int, int)> = None;
        if enabled[i].0 {
            match &s.producing {
                Some(p) => {
                    let produced = output(p, s.distance, power_scale);
                    let mut taken = true;
                    match p.planet {
                        Some(idx) => {
                            if idx < planets.len() {
                                let pr = &mut planets[idx];
                                proof {
                                    crate::resources::lemma_find_type_in_range(
                                        pr.spec_resources(),
                                        p.res_type,
                                        0,
                                    );
                                    lemma_find_type_same(
                                        pr.spec_resources(),
                                        planets0[idx as int].spec_resources(),
                                        p.res_type,
                                        0,
                                    );
                                }
                                match pr.get_mut(p.res_type) {
                                    Some(res) => {
                                        proof {
                                            let j = find_type(before[idx as int].spec_resources(), p.res_type, 0)->0;
                                            target = Some((idx as int, j));
                                            assert(consumed_grew(*res, planets0[idx as int].spec_resources()[j]));
                                            assert(planets0[idx as int].wf());
                                            assert(planets0[idx as int].spec_resources()[j].wf());
                                            assert(res.wf());
                                        }
                                        if res.get_available(tech) >= produced as i128 {
                                            res.increment_consumed(produced as u64);
                                        } else {
                                            taken = false;
                                        }
                                    },
                                    None => {},
                                }
                            }
                        },
                        None => {},
                    }
                    if taken {
                        let have = resources.get(p.res_type);
                        let total: u128 = have as u128 + produced;
                        let banked: u64 = if total > u64::MAX as u128 {
                            u64::MAX
                        } else {
                            total as u64
                        };
                        let slot = resources.get_mut(p.res_type);
                        *slot = banked;
                    }
                },
                None => {},
            }
        }
        proof {
            assert forall|k: int, j: int|
                0 <= k < planets0.len() && 0 <= j < planets0[k].spec_resources().len() implies
                #[trigger] planets@[k].spec_resources()[j].spec_consumed() == slot_consumed(
                    structures@,
                    enabled@,
                    i + 1,
                    planets0,
                    tech@,
                    power_scale,
                    k,
                    j,
                ) by {
                assert(planet_grew(before[k], planets0[k]));
                lemma_find_type_same(
                    before[k].spec_resources(),
                    planets0[k].spec_resources(),
                    structures@[i as int].producing->0.res_type,
                    0,
                );
                if target != Some((k, j)) {
                    assert(planets@[k].spec_resources()[j] == before[k].spec_resources()[j]);
                }
            }
        }
        i = i + 1;
    }
}

/// The economy's part of a tick, its two phases in order: first every
/// structure is enabled (or not) and pays, against the bank as it stands
/// before any output; then the running producers draw and bank. Returns the
/// flags of the first phase.
pub fn economy_tick(
    tech: &TechUnlocks,
    power_scale: u64,
    resources: &mut HarvestedResources,
    structures: &Vec<Structure>,
    planets: &mut Vec<PlanetResources>,
) -> (r: Vec<EnabledStructure>)
    requires
        forall|i: int| 0 <= i < structures@.len() ==> (#[trigger] structures@[i]).wf(),
        forall|i: int| 0 <= i < old(planets)@.len() ==> (#[trigger] old(planets)@[i]).wf(),
        power_scale <= MAX_POWER_SCALE,
    ensures
        r@.len() == structures@.len(),
        forall|i: int|
            0 <= i < structures@.len() ==> (#[trigger] r@[i]).0 == enable(
                structures@[i],
                bank_after_enable(structures@, i, *old(resources), old(planets)@, tech@, power_scale),
                old(planets)@,
                tech@,
                power_scale,
            ).0,
        *final(resources) == bank_after_produce(
            structures@,
            r@,
            structures@.len() as int,
            bank_after_enable(
                structures@,
                structures@.len() as int,
                *old(resources),
                old(planets)@,
                tech@,
                power_scale,
            ),
            old(planets)@,
            tech@,
            power_scale,
        ),
        final(planets)@.len() == old(planets)@.len(),
        forall|k: int|
            0 <= k < old(planets)@.len() ==> planet_grew(
                #[trigger] final(planets)@[k],
                old(planets)@[k],
            ),
        forall|k: int, j: int|
            0 <= k < old(planets)@.len() && 0 <= j < old(planets)@[k].spec_resources().len()
                ==> #[trigger] final(planets)@[k].spec_resources()[j].spec_consumed()
                == slot_consumed(
                structures@,
                r@,
                structures@.len() as int,
                old(planets)@,
                tech@,
                power_scale,
                k,
                j,
            ),
{
    let flags = consuming_structures(tech, power_scale, planets, resources, structures);
    producing_structures(tech, power_scale, resources, structures, &flags, planets);
    flags
}

} // verus!
