use vstd::prelude::*;

verus! {

/// Fixed-point scale of the sun's power figures: 10^12 stands for 1.
pub const PICO: u64 = 1_000_000_000_000;

/// Microseconds in a second; the sun counts time in microseconds.
pub const MICROS: u64 = 1_000_000;

/// The top of the activity cycle, in microseconds (2008.875 s).
pub const CYCLE_PEAK: u64 = 2_008_875_000;

/// Half of `CYCLE_PEAK`, where a new sun starts.
pub const HALF_PEAK: u64 = 1_004_437_500;

/// Flares come about this often, in microseconds, at unit power.
pub const FLARE_FREQUENCY: u64 = 2_000_000;

/// The largest relative power the sun may reach (a million times its start).
pub const MAX_RELATIVE_POWER: u64 = 1_000_000_000_000_000_000;

/// The longest time, in microseconds, that may pass between two flares.
pub const MAX_FLARE_WAIT: u64 = 1_000_000_000_000_000;

/// The sun: a slowly growing power, an activity cycle that rises to
/// `CYCLE_PEAK` and falls back to zero, and a timer since the last flare.
#[derive(Debug)]
pub struct Sun {
    relative_power: u64,
    cycle_state: u64,
    increasing: bool,
    last_flare: u64,
}

/// The cycle's phase within one rise and fall, in `[0, 2 * CYCLE_PEAK)`.
pub open spec fn cycle_phase(state: u64, increasing: bool) -> int {
    if increasing {
        state as int
    } else {
        (2 * CYCLE_PEAK - state) % (2 * CYCLE_PEAK as int)
    }
}

/// The cycle after `dt` more time, a triangle wave between 0 and
/// `CYCLE_PEAK`: it moves toward the bound it is heading for, and time left
/// over when it reaches a bound carries it back the other way.
pub open spec fn next_cycle(state: u64, increasing: bool, dt: u64) -> (u64, bool) {
    let u = (cycle_phase(state, increasing) + dt) % (2 * CYCLE_PEAK as int);
    if u <= CYCLE_PEAK {
        (u as u64, u < CYCLE_PEAK)
    } else {
        ((2 * CYCLE_PEAK - u) as u64, false)
    }
}

/// The cycle's position as a share of its peak, in `PICO` units.
pub open spec fn spec_raw_cycle(state: u64) -> int {
    state * PICO / CYCLE_PEAK as int
}

/// The cycle's multiplier: from one half at the bottom to three halves at the top.
pub open spec fn spec_cycle_power(state: u64) -> int {
    spec_raw_cycle(state) + PICO / 2
}

/// The sun's effective power: its relative power times the cycle's multiplier.
pub open spec fn spec_power_scale(relative_power: u64, state: u64) -> int {
    relative_power * spec_cycle_power(state) / PICO as int
}

/// Whether a flare is due: the wait exceeds the flare interval divided by the
/// effective power, plus `jitter` whole seconds.
pub open spec fn spec_should_flare(last_flare: u64, power_scale: int, jitter: u64) -> bool {
    last_flare > FLARE_FREQUENCY * PICO / power_scale + jitter * MICROS
}

/// A flare's power, in thousandths: the wait in seconds times the effective
/// power times `scale_pct` hundredths, divided by the size of `size_pct`
/// hundredths.
pub open spec fn spec_flare_power(last_flare: u64, power_scale: int, scale_pct: u64, size_pct: u64) -> int {
    last_flare * power_scale * scale_pct / (size_pct * 1_000_000_000_000_000)
}

impl Sun {
    pub closed spec fn spec_relative_power(&self) -> u64 {
        self.relative_power
    }

    pub closed spec fn spec_cycle_state(&self) -> u64 {
        self.cycle_state
    }

    pub closed spec fn spec_increasing(&self) -> bool {
        self.increasing
    }

    pub closed spec fn spec_last_flare(&self) -> u64 {
        self.last_flare
    }

    /// The power starts at one and stays within its limit, the cycle within
    /// `[0, CYCLE_PEAK]`, and the flare timer within its limit.
    pub open spec fn wf(&self) -> bool {
        &&& PICO <= self.spec_relative_power() <= MAX_RELATIVE_POWER
        &&& self.spec_cycle_state() <= CYCLE_PEAK
        &&& self.spec_last_flare() <= MAX_FLARE_WAIT
    }

    pub open spec fn spec_power(&self) -> int {
        spec_power_scale(self.spec_relative_power(), self.spec_cycle_state())
    }

    pub fn relative_power(&self) -> (r: u64)
        ensures
            r == self.spec_relative_power(),
    {
        self.relative_power
    }

    pub fn cycle_state(&self) -> (r: u64)
        ensures
            r == self.spec_cycle_state(),
    {
        self.cycle_state
    }

    pub fn is_increasing(&self) -> (r: bool)
        ensures
            r == self.spec_increasing(),
    {
        self.increasing
    }

    pub fn last_flare(&self) -> (r: u64)
        ensures
            r == self.spec_last_flare(),
    {
        self.last_flare
    }

    /// The effective power, in `PICO` units.
    pub fn power_scale(&self) -> (r: u64)
        requires
            self.wf(),
        ensures
            r == self.spec_power(),
            PICO / 2 <= r <= MAX_RELATIVE_POWER / 2 * 3,
    {
        let c = self.cycle_power();
        proof {
            let rp = self.relative_power as int;
            assert(rp * c <= MAX_RELATIVE_POWER as int * (PICO / 2 * 3)) by (nonlinear_arith)
                requires
                    0 <= rp <= MAX_RELATIVE_POWER,
                    0 <= c <= PICO / 2 * 3,
            ;
            assert(rp * c >= PICO as int * (PICO / 2)) by (nonlinear_arith)
                requires
                    rp >= PICO,
                    c >= PICO / 2,
            ;
            assert(MAX_RELATIVE_POWER as int * (PICO / 2 * 3) / PICO as int == MAX_RELATIVE_POWER
                / 2 * 3);
            assert(PICO as int * (PICO / 2) / PICO as int == PICO / 2);
            vstd::arithmetic::div_mod::lemma_div_is_ordered(
                rp * c,
                MAX_RELATIVE_POWER as int * (PICO / 2 * 3),
                PICO as int,
            );
            vstd::arithmetic::div_mod::lemma_div_is_ordered(
                PICO as int * (PICO / 2),
                rp * c,
                PICO as int,
            );
        }
        (self.relative_power as u128 * c as u128 / PICO as u128) as u64
    }

    /// The cycle's multiplier, in `PICO` units: between one half and three halves.
    pub fn cycle_power(&self) -> (r: u64)
        requires
            self.wf(),
        ensures
            r == spec_cycle_power(self.spec_cycle_state()),
            PICO / 2 <= r <= PICO / 2 * 3,
    {
        self.raw_cycle_state() + PICO / 2
    }

    /// The cycle's position as a share of its peak, in `PICO` units.
    pub fn raw_cycle_state(&self) -> (r: u64)
        requires
            self.wf(),
        ensures
            r == spec_raw_cycle(self.spec_cycle_state()),
            r <= PICO,
    {
        proof {
            let s = self.cycle_state as int;
            assert(s * PICO <= CYCLE_PEAK as int * PICO) by (nonlinear_arith)
                requires
                    0 <= s <= CYCLE_PEAK,
            ;
            vstd::arithmetic::div_mod::lemma_div_is_ordered(
                s * PICO,
                CYCLE_PEAK as int * PICO,
                CYCLE_PEAK as int,
            );
            vstd::arithmetic::div_mod::lemma_div_multiples_vanish(PICO as int, CYCLE_PEAK as int);
            assert(CYCLE_PEAK as int * PICO == CYCLE_PEAK as int * PICO as int);
        }
        (self.cycle_state as u128 * PICO as u128 / CYCLE_PEAK as u128) as u64
    }

    /// Let `delta` microseconds pass: the flare timer and the relative power
    /// grow by it, and the cycle moves as `next_cycle` says.
    pub fn increment(&mut self, delta: u64)
        requires
            old(self).wf(),
            old(self).spec_relative_power() + delta <= MAX_RELATIVE_POWER,
            old(self).spec_last_flare() + delta <= MAX_FLARE_WAIT,
        ensures
            final(self).wf(),
            final(self).spec_last_flare() == old(self).spec_last_flare() + delta,
            final(self).spec_relative_power() == old(self).spec_relative_power() + delta,
            (final(self).spec_cycle_state(), final(self).spec_increasing()) == next_cycle(
                old(self).spec_cycle_state(),
                old(self).spec_increasing(),
                delta,
            ),
    {
        self.last_flare = self.last_flare + delta;
        self.relative_power = self.relative_power + delta;
        let period: u128 = 2 * CYCLE_PEAK as u128;
        let phase: u128 = if self.increasing {
            self.cycle_state as u128
        } else {
            (period - self.cycle_state as u128) % period
        };
        let u = (phase + delta as u128) % period;
        if u <= CYCLE_PEAK as u128 {
            self.cycle_state = u as u64;
            self.increasing = u < CYCLE_PEAK as u128;
        } else {
            self.cycle_state = (period - u) as u64;
            self.increasing = false;
        }
    }

    /// Whether a flare is due, given a jitter of 0 or 1 whole seconds drawn
    /// at random.
    pub fn should_flare(&self, jitter: u64) -> (r: bool)
        requires
            self.wf(),
            jitter < 2,
        ensures
            r == spec_should_flare(self.spec_last_flare(), self.spec_power(), jitter),
    {
        let p = self.power_scale();
        let wait = FLARE_FREQUENCY as u128 * PICO as u128 / p as u128;
        proof {
            assert(FLARE_FREQUENCY as int * PICO as int / p as int <= FLARE_FREQUENCY as int * PICO
                as int) by {
                vstd::arithmetic::div_mod::lemma_div_is_ordered_by_denominator(
                    FLARE_FREQUENCY as int * PICO as int,
                    1,
                    p as int,
                );
            }
        }
        self.last_flare as u128 > wait + jitter as u128 * MICROS as u128
    }

    /// Fires a flare if one is due, given the random draws: `jitter` in
    /// `[0, 2)`, `scale_pct` in `[10, 200)` and `size_pct` in `[33, 150)`.
    /// A flare resets the timer and yields its (power in thousandths, size in
    /// hundredths); larger flares are weaker for their size.
    pub fn flare(&mut self, jitter: u64, scale_pct: u64, size_pct: u64) -> (r: Option<(u64, u64)>)
        requires
            old(self).wf(),
            jitter < 2,
            10 <= scale_pct < 200,
            33 <= size_pct < 150,
        ensures
            final(self).wf(),
            final(self).spec_relative_power() == old(self).spec_relative_power(),
            final(self).spec_cycle_state() == old(self).spec_cycle_state(),
            final(self).spec_increasing() == old(self).spec_increasing(),
            spec_should_flare(old(self).spec_last_flare(), old(self).spec_power(), jitter) ==> (r
                == Some(
                (
                    spec_flare_power(
                        old(self).spec_last_flare(),
                        old(self).spec_power(),
                        scale_pct,
                        size_pct,
                    ) as u64,
                    size_pct,
                ),
            ) && final(self).spec_last_flare() == 0),
            !spec_should_flare(old(self).spec_last_flare(), old(self).spec_power(), jitter) ==> (r
                is None && final(self).spec_last_flare() == old(self).spec_last_flare()),
    {
        if self.should_flare(jitter) {
            let p = self.power_scale();
            let lf = self.last_flare;
            proof {
                assert(lf as int * p as int <= MAX_FLARE_WAIT as int * (MAX_RELATIVE_POWER / 2
                    * 3) as int) by (nonlinear_arith)
                    requires
                        0 <= lf <= MAX_FLARE_WAIT,
                        0 <= p <= MAX_RELATIVE_POWER / 2 * 3,
                ;
                assert(lf as int * p as int * scale_pct as int <= MAX_FLARE_WAIT as int * (
                MAX_RELATIVE_POWER / 2 * 3) as int * 200) by (nonlinear_arith)
                    requires
                        0 <= lf <= MAX_FLARE_WAIT,
                        0 <= p <= MAX_RELATIVE_POWER / 2 * 3,
                        0 <= scale_pct <= 200,
                ;
            }
            let power = lf as u128 * p as u128 * scale_pct as u128 / (size_pct as u128
                * 1_000_000_000_000_000u128);
            self.last_flare = 0;
            Some((power as u64, size_pct))
        } else {
            None
        }
    }
}

impl Default for Sun {
    fn default() -> (r: Sun)
        ensures
            r.wf(),
            r.spec_relative_power() == PICO,
            r.spec_cycle_state() == HALF_PEAK,
            r.spec_increasing(),
            r.spec_last_flare() == 0,
    {
        Sun { relative_power: PICO, cycle_state: HALF_PEAK, increasing: true, last_flare: 0 }
    }
}

/// One tick of the sun: let `delta` pass, then fire a flare if one is due,
/// with the same random draws as `Sun::flare`.
pub fn update_sun(sun: &mut Sun, delta: u64, jitter: u64, scale_pct: u64, size_pct: u64) -> (r:
    Option<(u64, u64)>)
    requires
        old(sun).wf(),
        old(sun).spec_relative_power() + delta <= MAX_RELATIVE_POWER,
        old(sun).spec_last_flare() + delta <= MAX_FLARE_WAIT,
        jitter < 2,
        10 <= scale_pct < 200,
        33 <= size_pct < 150,
    ensures
        final(sun).wf(),
        final(sun).spec_relative_power() == old(sun).spec_relative_power() + delta,
        (final(sun).spec_cycle_state(), final(sun).spec_increasing()) == next_cycle(
            old(sun).spec_cycle_state(),
            old(sun).spec_increasing(),
            delta,
        ),
        ({
            let waited = (old(sun).spec_last_flare() + delta) as u64;
            let power = spec_power_scale(
                final(sun).spec_relative_power(),
                final(sun).spec_cycle_state(),
            );
            if spec_should_flare(waited, power, jitter) {
                r == Some((spec_flare_power(waited, power, scale_pct, size_pct) as u64, size_pct))
                    && final(sun).spec_last_flare() == 0
            } else {
                r is None && final(sun).spec_last_flare() == waited
            }
        }),
{
    sun.increment(delta);
    sun.flare(jitter, scale_pct, size_pct)
}

} // verus!
