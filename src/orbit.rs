use vstd::prelude::*;

use vstd::arithmetic::div_mod::{
    lemma_add_mod_noop, lemma_div_pos_is_pos, lemma_mod_bound, lemma_multiply_divide_lt,
    lemma_small_mod,
};

verus! {

/// Millidegrees in a full turn.
pub const FULL_TURN: u64 = 360_000;

/// A circular orbit. The position along it is kept as the time spent on the
/// current lap, so that advancing by several steps lands exactly where one
/// step of their sum lands.
#[derive(Debug, Clone, Copy, PartialEq, Eq, Structural)]
pub struct Orbit {
    radius: u64,
    eccentricity: u64,
    elapsed: u64,
    period: u64,
}

impl Orbit {
    pub closed spec fn spec_radius(&self) -> u64 {
        self.radius
    }

    pub closed spec fn spec_elapsed(&self) -> u64 {
        self.elapsed
    }

    pub closed spec fn spec_period(&self) -> u64 {
        self.period
    }

    pub closed spec fn spec_eccentricity(&self) -> u64 {
        self.eccentricity
    }

    /// Circular, with a positive period, and within its current lap.
    pub open spec fn wf(&self) -> bool {
        &&& self.spec_eccentricity() == 0
        &&& self.spec_period() > 0
        &&& self.spec_elapsed() < self.spec_period()
    }

    /// The angle along the orbit, in millidegrees, rounded down.
    pub open spec fn spec_angle(&self) -> int {
        self.spec_elapsed() * FULL_TURN / self.spec_period() as int
    }

    /// A circular orbit of the given radius and period, starting at angle zero.
    pub fn circle(radius: u64, period: u64) -> (r: Orbit)
        requires
            period > 0,
        ensures
            r.wf(),
            r.spec_radius() == radius,
            r.spec_period() == period,
            r.spec_elapsed() == 0,
    {
        Orbit { radius, eccentricity: 0, elapsed: 0, period }
    }

    /// An orbit of the given shape. Only circles are supported: a positive
    /// eccentricity, or a zero period, is refused here rather than later.
    pub fn new(radius: u64, eccentricity: u64, period: u64) -> (r: Option<Orbit>)
        ensures
            r is Some <==> (eccentricity == 0 && period > 0),
            r matches Some(o) ==> o.wf() && o.spec_radius() == radius && o.spec_period()
                == period && o.spec_elapsed() == 0,
    {
        if eccentricity > 0 || period == 0 {
            None
        } else {
            Some(Orbit::circle(radius, period))
        }
    }

    /// Move along the orbit by `passed` time units.
    pub fn increment_orbit(&mut self, passed: u64)
        requires
            old(self).wf(),
        ensures
            final(self).wf(),
            final(self).spec_radius() == old(self).spec_radius(),
            final(self).spec_period() == old(self).spec_period(),
            final(self).spec_elapsed() == (old(self).spec_elapsed() + passed) % (old(
                self,
            ).spec_period() as int),
    {
        let next = (self.elapsed as u128 + passed as u128) % (self.period as u128);
        proof {
            lemma_mod_bound(self.elapsed + passed, self.period as int);
        }
        self.elapsed = next as u64;
    }

    /// The angle along the orbit, in millidegrees within one turn.
    pub fn angle(&self) -> (r: u64)
        requires
            self.wf(),
        ensures
            r == self.spec_angle(),
            r < FULL_TURN,
    {
        proof {
            assert(self.elapsed as int * FULL_TURN < self.period as int * FULL_TURN)
                by (nonlinear_arith)
                requires
                    self.elapsed < self.period,
            ;
            assert(self.elapsed as int * FULL_TURN <= u64::MAX as int * FULL_TURN)
                by (nonlinear_arith)
                requires
                    self.elapsed <= u64::MAX,
            ;
            assert(self.period as int * FULL_TURN == FULL_TURN * self.period as int);
            lemma_multiply_divide_lt(
                self.elapsed as int * FULL_TURN,
                self.period as int,
                FULL_TURN as int,
            );
            lemma_div_pos_is_pos(self.elapsed as int * FULL_TURN, self.period as int);
        }
        (self.elapsed as u128 * FULL_TURN as u128 / self.period as u128) as u64
    }

    pub fn radius(&self) -> (r: u64)
        ensures
            r == self.spec_radius(),
    {
        self.radius
    }
}

/// Advancing an orbit by `dt1` and then by `dt2` puts it where advancing it
/// once by `dt1 + dt2` does: same lap time, hence same angle.
pub proof fn lemma_orbit_determinism(o: Orbit, dt1: nat, dt2: nat)
    requires
        o.wf(),
    ensures
        ((o.spec_elapsed() + dt1) % (o.spec_period() as int) + dt2) % (o.spec_period() as int) == (
        o.spec_elapsed() + dt1 + dt2) % (o.spec_period() as int),
{
    let p = o.spec_period() as int;
    let e = o.spec_elapsed() as int;
    lemma_add_mod_noop(e + dt1, dt2 as int, p);
    lemma_mod_bound(e + dt1, p);
    lemma_small_mod(((e + dt1) % p) as nat, p as nat);
    lemma_add_mod_noop((e + dt1) % p, dt2 as int, p);
}

} // verus!
