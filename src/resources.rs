use vstd::prelude::*;

use crate::utils::{format_number, spec_format};
use crate::unlocks::{
    spec_can_unlock, spec_check, spec_cost_modifier, spec_tech_cost, TechUnlocks, Technology,
    MODIFIER_ONE,
};

verus! {

#[derive(Clone, Copy, Debug, PartialEq, Eq, Structural, Hash)]
pub enum RawResourceType {
    Metals,
    Silicate,
    Hydrogen,
    Oxygen,
    Power,
}

#[derive(Clone, Copy, Debug, PartialEq, Eq, Structural)]
pub enum StationType {
    Surface,
    Ocean,
    Orbit,
}

/// The (metals, silicate) base price of a harvester of each station type.
pub open spec fn spec_station_cost(s: StationType) -> (u64, u64) {
    match s {
        StationType::Surface => (100, 150),
        StationType::Ocean => (200, 200),
        StationType::Orbit => (400, 50),
    }
}

impl StationType {
    pub fn cost(self) -> (r: (u64, u64))
        ensures
            r == spec_station_cost(self),
    {
        match self {
            Self::Surface => (100, 150),
            Self::Ocean => (200, 200),
            Self::Orbit => (400, 50),
        }
    }
}

/// The player's bank of harvested resources.
#[derive(Debug, Default, Clone, Copy, PartialEq, Eq, Structural)]
pub struct HarvestedResources {
    pub metals: u64,
    pub silicate: u64,
    pub hydrogen: u64,
    pub oxygen: u64,
    pub power: u64,
}

impl HarvestedResources {
    /// The amount banked of `t`.
    pub open spec fn amount(&self, t: RawResourceType) -> u64 {
        match t {
            RawResourceType::Metals => self.metals,
            RawResourceType::Silicate => self.silicate,
            RawResourceType::Hydrogen => self.hydrogen,
            RawResourceType::Oxygen => self.oxygen,
            RawResourceType::Power => self.power,
        }
    }

    /// The bank with the amount of `t` replaced by `v`.
    pub open spec fn with_amount(&self, t: RawResourceType, v: u64) -> HarvestedResources {
        match t {
            RawResourceType::Metals => HarvestedResources { metals: v, ..*self },
            RawResourceType::Silicate => HarvestedResources { silicate: v, ..*self },
            RawResourceType::Hydrogen => HarvestedResources { hydrogen: v, ..*self },
            RawResourceType::Oxygen => HarvestedResources { oxygen: v, ..*self },
            RawResourceType::Power => HarvestedResources { power: v, ..*self },
        }
    }

    pub fn get(&self, res_type: RawResourceType) -> (r: u64)
        ensures
            r == self.amount(res_type),
    {
        match res_type {
            RawResourceType::Metals => self.metals,
            RawResourceType::Silicate => self.silicate,
            RawResourceType::Hydrogen => self.hydrogen,
            RawResourceType::Oxygen => self.oxygen,
            RawResourceType::Power => self.power,
        }
    }

    pub fn get_mut(&mut self, res_type: RawResourceType) -> (r: &mut u64)
        ensures
            *r == old(self).amount(res_type),
            *final(self) == old(self).with_amount(res_type, *final(r)),
    {
        match res_type {
            RawResourceType::Metals => &mut self.metals,
            RawResourceType::Silicate => &mut self.silicate,
            RawResourceType::Hydrogen => &mut self.hydrogen,
            RawResourceType::Oxygen => &mut self.oxygen,
            RawResourceType::Power => &mut self.power,
        }
    }
}

/// One harvestable resource of a body: tiers of (ceiling, gating technology)
/// and the amount already taken.
#[derive(Debug, Clone)]
pub struct RawResource {
    resource_type: RawResourceType,
    station_type: StationType,
    levels: Vec<(u64, Technology)>,
    consumed: u64,
}

/// The ceiling of the last tier in `levels` whose technology is unlocked.
pub open spec fn last_unlocked(levels: Seq<(u64, Technology)>, s: Set<Technology>) -> Option<u64>
    decreases levels.len(),
{
    if levels.len() == 0 {
        None
    } else if spec_check(s, levels.last().1) {
        Some(levels.last().0)
    } else {
        last_unlocked(levels.drop_last(), s)
    }
}

/// The current ceiling: none while the first tier's technology is locked,
/// else the last unlocked tier's.
pub open spec fn spec_current(levels: Seq<(u64, Technology)>, s: Set<Technology>) -> Option<u64> {
    if levels.len() == 0 || !spec_check(s, levels[0].1) {
        None
    } else {
        last_unlocked(levels, s)
    }
}

/// The first technology in `levels`, from tier `i` on, that is still locked.
pub open spec fn first_locked(levels: Seq<(u64, Technology)>, s: Set<Technology>, i: int) -> Option<
    Technology,
>
    decreases levels.len() - i,
{
    if i < 0 || i >= levels.len() {
        None
    } else if !spec_check(s, levels[i].1) {
        Some(levels[i].1)
    } else {
        first_locked(levels, s, i + 1)
    }
}

/// What may still be harvested: the current ceiling less what was taken.
pub open spec fn spec_available(levels: Seq<(u64, Technology)>, consumed: u64, s: Set<Technology>) -> int {
    match spec_current(levels, s) {
        Some(c) => c - consumed,
        None => 0,
    }
}

/// A price after the modifiers of tier `i` on: each tier's modifier applies
/// while its technology is unlocked, up to the first locked tier.
pub open spec fn cost_from(c: int, levels: Seq<(u64, Technology)>, s: Set<Technology>, i: int) -> int
    decreases levels.len() - i,
{
    if i < 0 || i >= levels.len() {
        c
    } else if spec_check(s, levels[i].1) {
        cost_from(c * spec_cost_modifier(levels[i].1) / 1000, levels, s, i + 1)
    } else {
        c
    }
}

/// Scale of the ratios: 1_000_000 stands for the whole.
pub const RATIO_ONE: u64 = 1_000_000;

/// `part` as a share of `whole`, in millionths, rounded down.
pub open spec fn share(part: int, whole: int) -> int {
    part * RATIO_ONE / whole
}

/// The (consumed, available, unlockable) shares of the last tier's ceiling.
pub open spec fn spec_ratios(levels: Seq<(u64, Technology)>, consumed: u64, s: Set<Technology>) -> (
    int,
    int,
    int,
) {
    match spec_current(levels, s) {
        None => (0, 0, RATIO_ONE as int),
        Some(c) => {
            let last = levels.last().0 as int;
            (
                share(consumed as int, last),
                share(c as int, last) - share(consumed as int, last),
                RATIO_ONE - share(c as int, last),
            )
        },
    }
}

/// The shown percentage of a share given in millionths: in thousandths of a
/// percent, at least zero and at most `u64::MAX`.
pub open spec fn percent_of_share(share: int) -> nat {
    if share <= 0 {
        0
    } else if share / 10 > u64::MAX {
        u64::MAX as nat
    } else {
        (share / 10) as nat
    }
}

pub open spec fn percent_text(share: int) -> Seq<char> {
    spec_format(percent_of_share(share))
}

/// The text of the (consumed, available, unlockable) shares: the consumed
/// line only once something was consumed, the unlockable line only while
/// something is left to unlock.
pub open spec fn spec_ratios_text(r: (int, int, int)) -> Seq<char> {
    let head = if r.0 > 0 {
        percent_text(r.0) + "% Consumed\n"@ + percent_text(r.1) + "% Available"@
    } else {
        percent_text(r.1) + "% Available"@
    };
    if r.2 > 0 {
        head + "\n"@ + percent_text(r.2) + "% Unlockable"@
    } else {
        head
    }
}

fn percent(share: i128) -> (r: String)
    ensures
        r@ == percent_text(share as int),
{
    let v: u64 = if share <= 0 {
        0
    } else if share / 10 > u64::MAX as i128 {
        u64::MAX
    } else {
        (share / 10) as u64
    };
    format_number(v)
}

/// Every cost modifier is at least one (1000 thousandths).
proof fn lemma_cost_from_grows(c: int, levels: Seq<(u64, Technology)>, s: Set<Technology>, i: int)
    requires
        c >= 0,
    ensures
        cost_from(c, levels, s, i) >= c,
    decreases levels.len() - i,
{
    if 0 <= i < levels.len() && spec_check(s, levels[i].1) {
        let m = spec_cost_modifier(levels[i].1) as int;
        assert(m >= 1000);
        assert(c * m >= c * 1000) by (nonlinear_arith)
            requires
                c >= 0,
                m >= 1000,
        ;
        lemma_cost_from_grows(c * m / 1000, levels, s, i + 1);
    }
}

impl RawResource {
    pub closed spec fn spec_levels(&self) -> Seq<(u64, Technology)> {
        self.levels@
    }

    pub closed spec fn spec_consumed(&self) -> u64 {
        self.consumed
    }

    pub closed spec fn spec_type(&self) -> RawResourceType {
        self.resource_type
    }

    pub closed spec fn spec_station(&self) -> StationType {
        self.station_type
    }

    /// At least one tier.
    pub open spec fn wf(&self) -> bool {
        1 <= self.spec_levels().len()
    }

    /// The (metals, silicate) price of a harvester, as `cost` computes it.
    pub open spec fn spec_cost(&self, s: Set<Technology>) -> (int, int) {
        (
            cost_from(spec_station_cost(self.spec_station()).0 as int, self.spec_levels(), s, 0),
            cost_from(spec_station_cost(self.spec_station()).1 as int, self.spec_levels(), s, 0),
        )
    }

    pub fn new(
        resource_type: RawResourceType,
        station_type: StationType,
        levels: Vec<(u64, Technology)>,
    ) -> (r: RawResource)
        requires
            1 <= levels@.len(),
        ensures
            r.wf(),
            r.spec_type() == resource_type,
            r.spec_station() == station_type,
            r.spec_levels() == levels@,
            r.spec_consumed() == 0,
    {
        RawResource { resource_type, station_type, levels, consumed: 0 }
    }

    /// Return the `RawResourceType`.
    pub fn name(&self) -> (r: RawResourceType)
        ensures
            r == self.spec_type(),
    {
        self.resource_type
    }

    /// Multiply every tier's ceiling by `size`: tiers are written as shares of a
    /// body and scaled to it once.
    pub fn apply_scale(&mut self, size: u64)
        requires
            forall|i: int|
                0 <= i < old(self).spec_levels().len() ==> old(self).spec_levels()[i].0 * size
                    <= u64::MAX,
        ensures
            final(self).spec_levels().len() == old(self).spec_levels().len(),
            forall|i: int|
                0 <= i < old(self).spec_levels().len() ==> final(self).spec_levels()[i] == (
                    (old(self).spec_levels()[i].0 * size) as u64,
                    old(self).spec_levels()[i].1,
                ),
            final(self).spec_consumed() == old(self).spec_consumed(),
            final(self).spec_type() == old(self).spec_type(),
            final(self).spec_station() == old(self).spec_station(),
    {
        let n = self.levels.len();
        let mut i: usize = 0;
        while i < n
            invariant
                n == old(self).levels@.len(),
                self.levels@.len() == n,
                i <= n,
                self.consumed == old(self).consumed,
                self.resource_type == old(self).resource_type,
                self.station_type == old(self).station_type,
                forall|j: int|
                    0 <= j < n ==> old(self).spec_levels()[j].0 * size <= u64::MAX,
                forall|j: int|
                    0 <= j < i ==> self.levels@[j] == (
                        (old(self).levels@[j].0 * size) as u64,
                        old(self).levels@[j].1,
                    ),
                forall|j: int| i <= j < n ==> self.levels@[j] == old(self).levels@[j],
            decreases n - i,
        {
            let (v, t) = self.levels[i];
            assert(old(self).spec_levels()[i as int].0 * size <= u64::MAX);
            self.levels.set(i, (v * size, t));
            i = i + 1;
        }
    }

    fn get_current(&self, techs: &TechUnlocks) -> (r: Option<u64>)
        requires
            self.wf(),
        ensures
            r == spec_current(self.spec_levels(), techs@),
    {
        if !techs.check(self.levels[0].1) {
            return None;
        }
        let mut i: usize = self.levels.len();
        proof {
            assert(self.levels@.subrange(0, i as int) =~= self.levels@);
        }
        while i > 0
            invariant
                i <= self.levels@.len(),
                spec_check(techs@, self.levels@[0].1),
                1 <= self.levels@.len(),
                last_unlocked(self.levels@, techs@) == last_unlocked(
                    self.levels@.subrange(0, i as int),
                    techs@,
                ),
            decreases i,
        {
            let ghost sub = self.levels@.subrange(0, i as int);
            assert(sub.drop_last() =~= self.levels@.subrange(0, i - 1));
            if techs.check(self.levels[i - 1].1) {
                assert(sub.last() == self.levels@[i - 1]);
                return Some(self.levels[i - 1].0);
            }
            i = i - 1;
        }
        proof {
            assert(self.levels@.subrange(0, 0).len() == 0);
            assert(self.levels@.subrange(0, 1).drop_last() =~= self.levels@.subrange(0, 0));
        }
        None
    }

    /// Returns the ceiling of the last tier.
    fn get_last(&self) -> (r: u64)
        requires
            self.wf(),
        ensures
            r == self.spec_levels().last().0,
    {
        self.levels[self.levels.len() - 1].0
    }

    /// Returns the amount of this resource that has already been consumed.
    pub fn get_consumed(&self) -> (r: u64)
        ensures
            r == self.spec_consumed(),
    {
        self.consumed
    }

    /// Returns what may currently be harvested: the current ceiling less what
    /// was consumed, or zero while the first tier is locked.
    pub fn get_available(&self, techs: &TechUnlocks) -> (r: i128)
        requires
            self.wf(),
        ensures
            r == spec_available(self.spec_levels(), self.spec_consumed(), techs@),
    {
        match self.get_current(techs) {
            Some(c) => c as i128 - self.consumed as i128,
            None => 0,
        }
    }

    /// Returns the next technology to unlock for this resource.
    pub fn get_next(&self, techs: &TechUnlocks) -> (r: Option<Technology>)
        ensures
            r == first_locked(self.spec_levels(), techs@, 0),
    {
        let mut i: usize = 0;
        while i < self.levels.len()
            invariant
                i <= self.levels@.len(),
                first_locked(self.levels@, techs@, 0) == first_locked(
                    self.levels@,
                    techs@,
                    i as int,
                ),
            decreases self.levels@.len() - i,
        {
            if !techs.check(self.levels[i].1) {
                return Some(self.levels[i].1);
            }
            i = i + 1;
        }
        None
    }

    /// Increase the amount of this resource that has been consumed.
    pub fn increment_consumed(&mut self, consumed: u64)
        requires
            old(self).spec_consumed() + consumed <= u64::MAX,
        ensures
            final(self).spec_consumed() == old(self).spec_consumed() + consumed,
            final(self).spec_levels() == old(self).spec_levels(),
            final(self).spec_type() == old(self).spec_type(),
            final(self).spec_station() == old(self).spec_station(),
    {
        self.consumed = self.consumed + consumed;
    }

    /// The (consumed, available, unlockable) shares of the last tier's ceiling,
    /// in millionths; they always add up to the whole.
    pub fn get_ratios(&self, techs: &TechUnlocks) -> (r: (i128, i128, i128))
        requires
            self.wf(),
            self.spec_levels().last().0 > 0,
        ensures
            (r.0 as int, r.1 as int, r.2 as int) == spec_ratios(
                self.spec_levels(),
                self.spec_consumed(),
                techs@,
            ),
            r.0 + r.1 + r.2 == RATIO_ONE,
    {
        let current = match self.get_current(techs) {
            Some(c) => c,
            None => {
                return (0, 0, RATIO_ONE as i128);
            },
        };
        let last = self.get_last() as u128;
        let consumed_share = (self.consumed as u128 * RATIO_ONE as u128 / last) as i128;
        let current_share = (current as u128 * RATIO_ONE as u128 / last) as i128;
        proof {
            assert(self.consumed as u128 * RATIO_ONE as u128 <= u64::MAX as u128 * 1_000_000)
                by (nonlinear_arith);
            assert(current as u128 * RATIO_ONE as u128 <= u64::MAX as u128 * 1_000_000)
                by (nonlinear_arith);
        }
        (consumed_share, current_share - consumed_share, RATIO_ONE as i128 - current_share)
    }

    /// The shares of `get_ratios` as text, in percent.
    pub fn get_ratios_text(&self, techs: &TechUnlocks) -> (r: String)
        requires
            self.wf(),
            self.spec_levels().last().0 > 0,
        ensures
            r@ == spec_ratios_text(spec_ratios(self.spec_levels(), self.spec_consumed(), techs@)),
    {
        let (consumed, available, unlockable) = self.get_ratios(techs);
        let mut out = if consumed > 0 {
            let mut t = percent(consumed);
            t.append("% Consumed\n");
            let a = percent(available);
            t.append(a.as_str());
            t.append("% Available");
            t
        } else {
            let mut t = percent(available);
            t.append("% Available");
            t
        };
        if unlockable > 0 {
            out.append("\n");
            let u = percent(unlockable);
            out.append(u.as_str());
            out.append("% Unlockable");
        }
        out
    }

    /// Returns the (metals, silicate) price of building another harvester for
    /// this resource: the station type's base price times the modifier of each
    /// unlocked tier, up to the first locked one; none where it exceeds `u64`.
    pub fn cost(&self, techs: &TechUnlocks) -> (r: Option<(u64, u64)>)
        ensures
            ({
                let c = self.spec_cost(techs@);
                if c.0 <= u64::MAX && c.1 <= u64::MAX {
                    r == Some((c.0 as u64, c.1 as u64))
                } else {
                    r is None
                }
            }),
    {
        let base = self.station_type.cost();
        let mut c0 = base.0;
        let mut c1 = base.1;
        let n = self.levels.len();
        let mut i: usize = 0;
        while i < n
            invariant
                n == self.levels@.len(),
                base == spec_station_cost(self.station_type),
                i <= n,
                cost_from(base.0 as int, self.levels@, techs@, 0) == cost_from(
                    c0 as int,
                    self.levels@,
                    techs@,
                    i as int,
                ),
                cost_from(base.1 as int, self.levels@, techs@, 0) == cost_from(
                    c1 as int,
                    self.levels@,
                    techs@,
                    i as int,
                ),
            decreases n - i,
        {
            let tech = self.levels[i].1;
            if techs.check(tech) {
                let m = tech.cost_modifier();
                proof {
                    assert(c0 as int * m <= u64::MAX as int * 2_000_000) by (nonlinear_arith)
                        requires
                            0 <= c0 <= u64::MAX,
                            0 <= m <= 2_000_000,
                    ;
                    assert(c1 as int * m <= u64::MAX as int * 2_000_000) by (nonlinear_arith)
                        requires
                            0 <= c1 <= u64::MAX,
                            0 <= m <= 2_000_000,
                    ;
                }
                let n0 = c0 as u128 * m as u128 / MODIFIER_ONE as u128;
                let n1 = c1 as u128 * m as u128 / MODIFIER_ONE as u128;
                if n0 > u64::MAX as u128 || n1 > u64::MAX as u128 {
                    proof {
                        lemma_cost_from_grows(n0 as int, self.levels@, techs@, i + 1);
                        lemma_cost_from_grows(n1 as int, self.levels@, techs@, i + 1);
                    }
                    return None;
                }
                c0 = n0 as u64;
                c1 = n1 as u64;
                i = i + 1;
            } else {
                assert(cost_from(c0 as int, self.levels@, techs@, i as int) == c0);
                assert(cost_from(c1 as int, self.levels@, techs@, i as int) == c1);
                return Some((c0, c1));
            }
        }
        Some((c0, c1))
    }
}

/// A harvester price after `n` purchases, each multiplying it by `m`
/// thousandths (rounded down at each step).
pub open spec fn escalate(c: int, n: nat, m: int) -> int
    decreases n,
{
    if n == 0 {
        c
    } else {
        escalate(c * m / 1000, (n - 1) as nat, m)
    }
}

proof fn lemma_escalate_grows(c: int, n: nat, m: int)
    requires
        c >= 0,
        m >= 1000,
    ensures
        escalate(c, n, m) >= c,
    decreases n,
{
    if n > 0 {
        assert(c * m >= c * 1000) by (nonlinear_arith)
            requires
                c >= 0,
                m >= 1000,
        ;
        assert(c * m / 1000 >= c);
        lemma_escalate_grows(c * m / 1000, (n - 1) as nat, m);
    }
}

proof fn lemma_escalate_nonneg(c: int, n: nat, m: int)
    requires
        c >= 0,
        m >= 0,
    ensures
        escalate(c, n, m) >= 0,
    decreases n,
{
    if n > 0 {
        assert(c * m >= 0) by (nonlinear_arith)
            requires
                c >= 0,
                m >= 0,
        ;
        lemma_escalate_nonneg(c * m / 1000, (n - 1) as nat, m);
    }
}

/// The price of one more harvester when `number` are already built, each
/// having scaled the price by `mult` thousandths; `None` where it exceeds `u64`.
pub fn cost_calculator(cost: u64, number: usize, mult: u64) -> (r: Option<u64>)
    ensures
        escalate(cost as int, number as nat, mult as int) <= u64::MAX ==> r == Some(
            escalate(cost as int, number as nat, mult as int) as u64,
        ),
        escalate(cost as int, number as nat, mult as int) > u64::MAX ==> r.is_none(),
        escalate(cost as int, number as nat, mult as int) >= 0,
{
    proof {
        lemma_escalate_nonneg(cost as int, number as nat, mult as int);
    }
    let mut c: u64 = cost;
    let mut k: usize = 0;
    while k < number
        invariant
            k <= number,
            escalate(cost as int, number as nat, mult as int) == escalate(
                c as int,
                (number - k) as nat,
                mult as int,
            ),
        decreases number - k,
    {
        proof {
            assert(c as int * mult as int <= u64::MAX as int * u64::MAX as int) by (nonlinear_arith)
                requires
                    c <= u64::MAX,
                    mult <= u64::MAX,
                    c >= 0,
                    mult >= 0,
            ;
        }
        let product = c as u128 * mult as u128;
        let next = product / MODIFIER_ONE as u128;
        if next > u64::MAX as u128 {
            proof {
                assert(mult >= 1000) by {
                    if mult < 1000 {
                        assert(c as int * mult <= c as int * 1000) by (nonlinear_arith)
                            requires
                                mult < 1000,
                                c >= 0,
                        ;
                    }
                }
                lemma_escalate_grows(next as int, (number - k - 1) as nat, mult as int);
            }
            return None;
        }
        c = next as u64;
        k = k + 1;
    }
    Some(c)
}

/// The (metals, silicate) price of one more harvester after `built`, each
/// having scaled the base price by `growth` thousandths.
pub open spec fn spec_harvester_cost(base: (int, int), built: nat, growth: int) -> (int, int) {
    (escalate(base.0, built, growth), escalate(base.1, built, growth))
}

/// Whether a harvester's base price and its escalated price both fit `u64`.
pub open spec fn price_fits(base: (int, int), c: (int, int)) -> bool {
    base.0 <= u64::MAX && base.1 <= u64::MAX && c.0 <= u64::MAX && c.1 <= u64::MAX
}

impl RawResource {
    /// The price of one more harvester for this resource when `built` stand
    /// already, each having scaled it by `growth` thousandths; none where the
    /// base price or the result exceeds `u64`.
    pub fn harvester_cost(&self, techs: &TechUnlocks, built: usize, growth: u64) -> (r: Option<(u64, u64)>)
        ensures
            ({
                let base = self.spec_cost(techs@);
                let c = spec_harvester_cost(base, built as nat, growth as int);
                &&& (base.0 >= 0 && base.1 >= 0) ==> (c.0 >= 0 && c.1 >= 0)
                &&& if price_fits(base, c) {
                    r == Some((c.0 as u64, c.1 as u64))
                } else {
                    r is None
                }
            }),
    {
        proof {
            let base = self.spec_cost(techs@);
            lemma_cost_from_grows(spec_station_cost(self.spec_station()).0 as int, self.spec_levels(), techs@, 0);
            lemma_cost_from_grows(spec_station_cost(self.spec_station()).1 as int, self.spec_levels(), techs@, 0);
            lemma_escalate_nonneg(base.0, built as nat, growth as int);
            lemma_escalate_nonneg(base.1, built as nat, growth as int);
        }
        match self.cost(techs) {
            Some((m, si)) => match (cost_calculator(m, built, growth), cost_calculator(si, built, growth)) {
                (Some(a), Some(b)) => Some((a, b)),
                _ => None,
            },
            None => None,
        }
    }

    /// Buys one more harvester if its price fits and the bank holds it, and
    /// reports whether it did; the price is taken from the bank's metals and
    /// silicate.
    pub fn buy_harvester(
        &self,
        techs: &TechUnlocks,
        bank: &mut HarvestedResources,
        built: usize,
        growth: u64,
    ) -> (r: bool)
        ensures
            ({
                let base = self.spec_cost(techs@);
                let c = spec_harvester_cost(base, built as nat, growth as int);
                &&& r == (price_fits(base, c) && c.0 <= old(bank).metals && c.1 <= old(bank).silicate)
                &&& r ==> *final(bank) == (HarvestedResources {
                    metals: (old(bank).metals - c.0) as u64,
                    silicate: (old(bank).silicate - c.1) as u64,
                    ..*old(bank)
                })
                &&& !r ==> *final(bank) == *old(bank)
            }),
    {
        let ghost base = self.spec_cost(techs@);
        let ghost c = spec_harvester_cost(base, built as nat, growth as int);
        proof {
            lemma_cost_from_grows(spec_station_cost(self.spec_station()).0 as int, self.spec_levels(), techs@, 0);
            lemma_cost_from_grows(spec_station_cost(self.spec_station()).1 as int, self.spec_levels(), techs@, 0);
        }
        match self.harvester_cost(techs, built, growth) {
            Some((m, si)) => {
                assert(m == c.0 && si == c.1);
                if bank.metals >= m && bank.silicate >= si {
                    bank.metals = bank.metals - m;
                    bank.silicate = bank.silicate - si;
                    true
                } else {
                    false
                }
            },
            None => false,
        }
    }
}

/// Researches `tech` if it is still locked, its prerequisites are unlocked and
/// the bank holds its price, and reports whether it did; the price is taken
/// from the bank's metals and silicate. A refused purchase changes nothing.
pub fn buy_technology(techs: &mut TechUnlocks, bank: &mut HarvestedResources, tech: Technology) -> (r: bool)
    ensures
        r == (!spec_check(old(techs)@, tech) && spec_can_unlock(old(techs)@, tech)
            && spec_tech_cost(tech).0 <= old(bank).metals && spec_tech_cost(tech).1
            <= old(bank).silicate),
        r ==> final(techs)@ == old(techs)@.insert(tech) && *final(bank) == (HarvestedResources {
            metals: (old(bank).metals - spec_tech_cost(tech).0) as u64,
            silicate: (old(bank).silicate - spec_tech_cost(tech).1) as u64,
            ..*old(bank)
        }),
        !r ==> final(techs)@ == old(techs)@ && *final(bank) == *old(bank),
{
    let (m, si) = tech.cost();
    if techs.check(tech) || !techs.can_unlock(tech) || bank.metals < m || bank.silicate < si {
        return false;
    }
    techs.unlock(tech);
    bank.metals = bank.metals - m;
    bank.silicate = bank.silicate - si;
    true
}

/// The resources of one body.
#[derive(Debug, Clone)]
pub struct PlanetResources {
    resources: Vec<RawResource>,
}

/// The index of the first resource of type `t` in `rs`.
pub open spec fn find_type(rs: Seq<RawResource>, t: RawResourceType, i: int) -> Option<int>
    decreases rs.len() - i,
{
    if i < 0 || i >= rs.len() {
        None
    } else if rs[i].spec_type() == t {
        Some(i)
    } else {
        find_type(rs, t, i + 1)
    }
}

pub proof fn lemma_find_type_in_range(rs: Seq<RawResource>, t: RawResourceType, i: int)
    ensures
        match find_type(rs, t, i) {
            Some(j) => i <= j < rs.len() && rs[j].spec_type() == t,
            None => true,
        },
    decreases rs.len() - i,
{
    if 0 <= i < rs.len() && rs[i].spec_type() != t {
        lemma_find_type_in_range(rs, t, i + 1);
    }
}

impl PlanetResources {
    pub closed spec fn spec_resources(&self) -> Seq<RawResource> {
        self.resources@
    }

    /// Every resource is well formed.
    pub open spec fn wf(&self) -> bool {
        forall|i: int|
            0 <= i < self.spec_resources().len() ==> #[trigger] self.spec_resources()[i].wf()
    }

    pub fn new(resources: Vec<RawResource>) -> (r: PlanetResources)
        ensures
            r.spec_resources() == resources@,
    {
        PlanetResources { resources }
    }

    fn position(&self, resource_type: RawResourceType) -> (r: Option<usize>)
        ensures
            r is Some <==> find_type(self.spec_resources(), resource_type, 0) is Some,
            r matches Some(j) ==> j < self.spec_resources().len() && find_type(
                self.spec_resources(),
                resource_type,
                0,
            ) == Some(j as int),
    {
        proof {
            lemma_find_type_in_range(self.resources@, resource_type, 0);
        }
        let mut i: usize = 0;
        while i < self.resources.len()
            invariant
                i <= self.resources@.len(),
                find_type(self.resources@, resource_type, 0) == find_type(
                    self.resources@,
                    resource_type,
                    i as int,
                ),
            decreases self.resources@.len() - i,
        {
            if self.resources[i].name() == resource_type {
                return Some(i);
            }
            i = i + 1;
        }
        None
    }

    /// The first resource of the given type, if the body has one.
    pub fn get(&self, resource_type: RawResourceType) -> (r: Option<&RawResource>)
        ensures
            match find_type(self.spec_resources(), resource_type, 0) {
                Some(j) => r is Some && *r->0 == self.spec_resources()[j],
                None => r.is_none(),
            },
    {
        proof {
            lemma_find_type_in_range(self.resources@, resource_type, 0);
        }
        match self.position(resource_type) {
            Some(i) => Some(&self.resources[i]),
            None => None,
        }
    }

    /// The first resource of the given type, to change in place.
    pub fn get_mut(&mut self, resource_type: RawResourceType) -> (r: Option<&mut RawResource>)
        ensures
            match find_type(old(self).spec_resources(), resource_type, 0) {
                Some(j) => r is Some && *r->0 == old(self).spec_resources()[j]
                    && final(self).spec_resources() == old(self).spec_resources().update(
                    j,
                    *final(r->0),
                ),
                None => r.is_none() && *final(self) == *old(self),
            },
    {
        proof {
            lemma_find_type_in_range(self.resources@, resource_type, 0);
        }
        match self.position(resource_type) {
            Some(i) => Some(&mut self.resources[i]),
            None => None,
        }
    }

    /// Scale every resource's tiers to a body of the given size.
    pub fn apply_scale(&mut self, size: u64)
        requires
            forall|i: int, j: int|
                0 <= i < old(self).spec_resources().len() && 0 <= j < old(self).spec_resources()[i].spec_levels().len() ==> #[trigger] old(self).spec_resources()[i].spec_levels()[j].0 * size <= u64::MAX,
        ensures
            final(self).spec_resources().len() == old(self).spec_resources().len(),
            forall|i: int, j: int|
                0 <= i < old(self).spec_resources().len() && 0 <= j < old(self).spec_resources()[i].spec_levels().len() ==> #[trigger] final(self).spec_resources()[i].spec_levels()[j] == (
                    (old(self).spec_resources()[i].spec_levels()[j].0 * size) as u64,
                    old(self).spec_resources()[i].spec_levels()[j].1,
                ),
            forall|i: int|
                0 <= i < old(self).spec_resources().len() ==> {
                    let a = #[trigger] final(self).spec_resources()[i];
                    let b = old(self).spec_resources()[i];
                    &&& a.spec_levels().len() == b.spec_levels().len()
                    &&& a.spec_consumed() == b.spec_consumed()
                    &&& a.spec_type() == b.spec_type()
                    &&& a.spec_station() == b.spec_station()
                },
    {
        let n = self.resources.len();
        let mut i: usize = 0;
        while i < n
            invariant
                n == old(self).resources@.len(),
                self.resources@.len() == n,
                i <= n,
                forall|k: int, j: int|
                    0 <= k < n && 0 <= j < old(self).resources@[k].spec_levels().len()
                        ==> #[trigger] old(self).resources@[k].spec_levels()[j].0 * size
                        <= u64::MAX,
                forall|k: int| i <= k < n ==> self.resources@[k] == old(self).resources@[k],
                forall|k: int, j: int|
                    0 <= k < i && 0 <= j < old(self).resources@[k].spec_levels().len()
                        ==> #[trigger] self.resources@[k].spec_levels()[j] == (
                        (old(self).resources@[k].spec_levels()[j].0 * size) as u64,
                        old(self).resources@[k].spec_levels()[j].1,
                    ),
                forall|k: int|
                    0 <= k < i ==> {
                        let a = #[trigger] self.resources@[k];
                        let b = old(self).resources@[k];
                        &&& a.spec_levels().len() == b.spec_levels().len()
                        &&& a.spec_consumed() == b.spec_consumed()
                        &&& a.spec_type() == b.spec_type()
                        &&& a.spec_station() == b.spec_station()
                    },
            decreases n - i,
        {
            let r = &mut self.resources[i];
            proof {
                assert forall|j: int| 0 <= j < r.spec_levels().len() implies r.spec_levels()[j].0
                    * size <= u64::MAX by {
                    assert(old(self).resources@[i as int].spec_levels()[j].0 * size <= u64::MAX);
                }
            }
            r.apply_scale(size);
            i = i + 1;
        }
    }

    pub fn slice(&self) -> (r: &[RawResource])
        ensures
            r@ == self.spec_resources(),
    {
        self.resources.as_slice()
    }
}

} // verus!
