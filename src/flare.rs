use vstd::prelude::*;

use crate::geometry::{
    clamp, clamp_coord, div_t, div_trunc, in_range, isqrt, root, sat_add, saturating_add,
    COORD_LIMIT,
};

verus! {

/// Planet sizes stay within this bound.
pub const MAX_SIZE: u64 = 4_294_967_296;

/// The longest tick, in microseconds (a little over a day); it keeps the
/// gravity arithmetic within `i128`.
pub const MAX_TICK: u64 = 100_000_000_000;

/// Base flare speed, in thousandths of a unit per second.
pub const FLARE_SPEED: u64 = 2_000_000;

/// The orbit radius of the outermost planet, in thousandths of a unit.
pub const LAST_PLANET_DISTANCE: u64 = 792_750_000;

/// Flares further than this from the sun are gone (the outermost orbit and a quarter).
pub const OUTER_BOUND: u64 = LAST_PLANET_DISTANCE / 4 * 5;

/// A flare particle. Positions are in thousandths of a unit, velocities in
/// thousandths of a unit per second, times in microseconds.
#[derive(Clone, Copy, Debug, PartialEq, Eq, Structural)]
pub struct Flare {
    pub power: u64,
    pub x: i64,
    pub y: i64,
    pub vx: i64,
    pub vy: i64,
    pub age: u64,
    pub lifetime: u64,
}

/// A body that flares can hit; its position is where its orbit puts it this tick.
#[derive(Clone, Copy, Debug, PartialEq, Eq, Structural)]
pub struct Planet {
    pub is_moon: bool,
    pub has_magnetic_field: bool,
    pub size: u64,
    pub absorbed_power: u64,
    pub x: i64,
    pub y: i64,
}

impl Flare {
    pub open spec fn wf(&self) -> bool {
        &&& in_range(self.x as int)
        &&& in_range(self.y as int)
        &&& in_range(self.vx as int)
        &&& in_range(self.vy as int)
    }
}

impl Planet {
    pub open spec fn wf(&self) -> bool {
        &&& 0 < self.size <= MAX_SIZE
        &&& in_range(self.x as int)
        &&& in_range(self.y as int)
    }
}

/// Where a flare stands relative to a planet.
pub enum Zone {
    /// Inside the planet: the flare is absorbed.
    Core,
    /// Within a tenth of the planet's size of its surface: the flare is steered
    /// toward it.
    Skim,
    /// Within twice the planet's size: gravity pulls, a magnetic field bends.
    Field,
    /// Out of the planet's reach.
    Clear,
}

pub open spec fn offset_x(f: Flare, p: Planet) -> int {
    p.x - f.x
}

pub open spec fn offset_y(f: Flare, p: Planet) -> int {
    p.y - f.y
}

pub open spec fn dist2(f: Flare, p: Planet) -> int {
    offset_x(f, p) * offset_x(f, p) + offset_y(f, p) * offset_y(f, p)
}

/// The distance from flare to planet, rounded down.
pub open spec fn dist(f: Flare, p: Planet) -> int {
    root(dist2(f, p) as nat) as int
}

/// The flare's speed, rounded down.
pub open spec fn speed(f: Flare) -> int {
    root((f.vx * f.vx + f.vy * f.vy) as nat) as int
}

pub open spec fn zone(f: Flare, p: Planet) -> Zone {
    let d2 = dist2(f, p);
    let s2 = p.size * p.size;
    if d2 < s2 {
        Zone::Core
    } else if 100 * d2 < 121 * s2 {
        Zone::Skim
    } else if d2 < 4 * s2 {
        Zone::Field
    } else {
        Zone::Clear
    }
}

/// Velocity after skimming the surface: a fifth of the way toward a velocity
/// that points at the planet's centre with 1.1 times the speed.
pub open spec fn skim_velocity(f: Flare, p: Planet) -> (int, int) {
    let d = dist(f, p);
    let sp = speed(f);
    let tx = div_t(offset_x(f, p) * sp * 11, 10 * d);
    let ty = div_t(offset_y(f, p) * sp * 11, 10 * d);
    (clamp(div_t(8 * f.vx + 2 * tx, 10)), clamp(div_t(8 * f.vy + 2 * ty, 10)))
}

/// Velocity after a magnetic field bends it: 15% of the way toward a velocity
/// square to the direction of the planet, turned so as not to send the flare
/// back, with 1.1 times the speed.
pub open spec fn field_velocity(f: Flare, p: Planet) -> (int, int) {
    let d = dist(f, p);
    let sp = speed(f);
    let dx = offset_x(f, p);
    let dy = offset_y(f, p);
    let px = if dx * f.vy - dy * f.vx < 0 {
        dy
    } else {
        -dy
    };
    let py = if dx * f.vy - dy * f.vx < 0 {
        -dx
    } else {
        dx
    };
    let tx = div_t(px * sp * 11, 10 * d);
    let ty = div_t(py * sp * 11, 10 * d);
    (clamp(div_t(85 * f.vx + 15 * tx, 100)), clamp(div_t(85 * f.vy + 15 * ty, 100)))
}

/// Velocity `(vx, vy)` after gravity pulls for `dt` microseconds: toward the
/// centre, with strength `50 * size / ((distance - size) / 30)²`.
pub open spec fn pulled_velocity(vx: int, vy: int, f: Flare, p: Planet, dt: u64) -> (int, int) {
    let d = dist(f, p);
    if d <= p.size {
        (vx, vy)
    } else {
        let g = d - p.size;
        let den = g * g * d;
        (
            clamp(vx + div_t(45_000 * p.size * dt * offset_x(f, p), den)),
            clamp(vy + div_t(45_000 * p.size * dt * offset_y(f, p), den)),
        )
    }
}

/// What one planet absorbs from a flare in the given zone.
pub open spec fn absorbed_from(f: Flare, p: Planet) -> u64 {
    match zone(f, p) {
        Zone::Core => sat_add(p.absorbed_power, f.power),
        Zone::Field => if p.has_magnetic_field {
            sat_add(p.absorbed_power, f.power / 20)
        } else {
            p.absorbed_power
        },
        _ => p.absorbed_power,
    }
}

/// A flare's velocity after meeting one planet.
pub open spec fn velocity_after(f: Flare, p: Planet, dt: u64) -> (int, int) {
    match zone(f, p) {
        Zone::Skim => skim_velocity(f, p),
        Zone::Field => if p.has_magnetic_field {
            pulled_velocity(field_velocity(f, p).0, field_velocity(f, p).1, f, p, dt)
        } else {
            pulled_velocity(f.vx as int, f.vy as int, f, p, dt)
        },
        _ => (f.vx as int, f.vy as int),
    }
}

proof fn lemma_mul_bound(a: int, b: int, ba: int, bb: int)
    requires
        -ba <= a <= ba,
        -bb <= b <= bb,
    ensures
        -(ba * bb) <= a * b <= ba * bb,
{
    assert(-(ba * bb) <= a * b <= ba * bb) by (nonlinear_arith)
        requires
            -ba <= a <= ba,
            -bb <= b <= bb,
    ;
}

proof fn lemma_square_bound(a: int, ba: int)
    requires
        -ba <= a <= ba,
    ensures
        0 <= a * a <= ba * ba,
{
    assert(0 <= a * a <= ba * ba) by (nonlinear_arith)
        requires
            -ba <= a <= ba,
    ;
}

/// `(a * sp * 11) / (10 * d)`, rounded toward zero, for a direction component
/// `a` and a speed `sp`.
fn scaled_toward(a: i128, sp: u64, d: u64) -> (r: i128)
    requires
        -2 * COORD_LIMIT <= a <= 2 * COORD_LIMIT,
        sp <= 4_398_046_511_104,
        d >= 1,
        d <= 4_398_046_511_104,
    ensures
        r == div_t(a * sp * 11, 10 * d),
        -2 * COORD_LIMIT * 4_398_046_511_104 * 11 <= r <= 2 * COORD_LIMIT * 4_398_046_511_104 * 11,
{
    proof {
        lemma_mul_bound(a as int, sp as int, 2 * COORD_LIMIT, 4_398_046_511_104);
        lemma_mul_bound(
            a * sp,
            11,
            2 * COORD_LIMIT * 4_398_046_511_104,
            11,
        );
    }
    let n = a * sp as i128 * 11;
    let r = div_trunc(n, 10 * d as i128);
    proof {
        if n >= 0 {
            vstd::arithmetic::div_mod::lemma_div_is_ordered_by_denominator(n as int, 1, 10 * d);
            vstd::arithmetic::div_mod::lemma_div_pos_is_pos(n as int, 10 * d);
        } else {
            vstd::arithmetic::div_mod::lemma_div_is_ordered_by_denominator(-n as int, 1, 10 * d);
            vstd::arithmetic::div_mod::lemma_div_pos_is_pos(-n as int, 10 * d);
        }
    }
    r
}

/// `a / b` rounded toward zero, where `|a| <= bound`, with the same bound.
proof fn lemma_div_t_bound(a: int, b: int, bound: int)
    requires
        -bound <= a <= bound,
        b >= 1,
    ensures
        -bound <= div_t(a, b) <= bound,
{
    if a >= 0 {
        vstd::arithmetic::div_mod::lemma_div_is_ordered_by_denominator(a, 1, b);
        vstd::arithmetic::div_mod::lemma_div_pos_is_pos(a, b);
    } else {
        vstd::arithmetic::div_mod::lemma_div_is_ordered_by_denominator(-a, 1, b);
        vstd::arithmetic::div_mod::lemma_div_pos_is_pos(-a, b);
    }
}

/// Let a flare meet one planet. It is absorbed in the planet's core, steered
/// when skimming its surface, and pulled by gravity (and, with a magnetic
/// field, bent and partly absorbed) within twice its size. Reports whether the
/// flare was absorbed.
pub fn interact(f: &mut Flare, p: &mut Planet, dt: u64) -> (hit: bool)
    requires
        old(f).wf(),
        old(p).wf(),
        dt <= MAX_TICK,
    ensures
        final(f).wf(),
        hit <==> zone(*old(f), *old(p)) is Core,
        *final(p) == (Planet { absorbed_power: absorbed_from(*old(f), *old(p)), ..*old(p) }),
        *final(f) == (Flare {
            vx: velocity_after(*old(f), *old(p), dt).0 as i64,
            vy: velocity_after(*old(f), *old(p), dt).1 as i64,
            ..*old(f)
        }),
        in_range(velocity_after(*old(f), *old(p), dt).0),
        in_range(velocity_after(*old(f), *old(p), dt).1),
{
    let ghost f0 = *f;
    let ghost p0 = *p;
    let dx: i128 = p.x as i128 - f.x as i128;
    let dy: i128 = p.y as i128 - f.y as i128;
    proof {
        lemma_square_bound(dx as int, 2 * COORD_LIMIT);
        lemma_square_bound(dy as int, 2 * COORD_LIMIT);
        lemma_square_bound(f.vx as int, COORD_LIMIT as int);
        lemma_square_bound(f.vy as int, COORD_LIMIT as int);
        lemma_square_bound(p.size as int, MAX_SIZE as int);
    }
    let d2: u128 = (dx * dx + dy * dy) as u128;
    let s2: u128 = p.size as u128 * p.size as u128;
    if d2 < s2 {
        p.absorbed_power = saturating_add(p.absorbed_power, f.power);
        return true;
    }
    if 100 * d2 >= 121 * s2 && d2 >= 4 * s2 {
        return false;
    }
    let d = isqrt(d2);
    let sp = isqrt((f.vx as i128 * f.vx as i128 + f.vy as i128 * f.vy as i128) as u128);
    proof {
        crate::geometry::lemma_root_bounds(d2 as nat);
        // the distance is at least the size, which is positive
        if d < p.size {
            assert((d + 1) * (d + 1) <= p.size * p.size) by (nonlinear_arith)
                requires
                    d + 1 <= p.size,
            ;
        }
        assert(dist2(f0, p0) == d2);
        assert(dist(f0, p0) == d);
        assert(speed(f0) == sp);
    }
    if 100 * d2 < 121 * s2 {
        let tx = scaled_toward(dx, sp, d);
        let ty = scaled_toward(dy, sp, d);
        let sx = 8 * f.vx as i128 + 2 * tx;
        let sy = 8 * f.vy as i128 + 2 * ty;
        proof {
            lemma_div_t_bound(sx as int, 10, 8 * COORD_LIMIT + 4 * COORD_LIMIT * 4_398_046_511_104 * 11);
            lemma_div_t_bound(sy as int, 10, 8 * COORD_LIMIT + 4 * COORD_LIMIT * 4_398_046_511_104 * 11);
        }
        f.vx = clamp_coord(div_trunc(sx, 10));
        f.vy = clamp_coord(div_trunc(sy, 10));
        return false;
    }
    let mut vx: i64 = f.vx;
    let mut vy: i64 = f.vy;
    if p.has_magnetic_field {
        proof {
            lemma_mul_bound(dx as int, f.vy as int, 2 * COORD_LIMIT, COORD_LIMIT as int);
            lemma_mul_bound(dy as int, f.vx as int, 2 * COORD_LIMIT, COORD_LIMIT as int);
        }
        let cross = dx * f.vy as i128 - dy * f.vx as i128;
        let px: i128 = if cross < 0 {
            dy
        } else {
            -dy
        };
        let py: i128 = if cross < 0 {
            -dx
        } else {
            dx
        };
        let tx = scaled_toward(px, sp, d);
        let ty = scaled_toward(py, sp, d);
        let sx = 85 * f.vx as i128 + 15 * tx;
        let sy = 85 * f.vy as i128 + 15 * ty;
        proof {
            lemma_div_t_bound(sx as int, 100, 85 * COORD_LIMIT + 30 * COORD_LIMIT * 4_398_046_511_104 * 11);
            lemma_div_t_bound(sy as int, 100, 85 * COORD_LIMIT + 30 * COORD_LIMIT * 4_398_046_511_104 * 11);
        }
        vx = clamp_coord(div_trunc(sx, 100));
        vy = clamp_coord(div_trunc(sy, 100));
        p.absorbed_power = saturating_add(p.absorbed_power, f.power / 20);
    }
    if d > p.size {
        let g: i128 = (d - p.size) as i128;
        proof {
            assert(1 <= g * g <= 4_398_046_511_104 * 4_398_046_511_104) by (nonlinear_arith)
                requires
                    1 <= g <= 4_398_046_511_104,
            ;
            assert(g * g * d <= 4_398_046_511_104 * 4_398_046_511_104 * 4_398_046_511_104) by (nonlinear_arith)
                requires
                    1 <= g * g <= 4_398_046_511_104 * 4_398_046_511_104,
                    1 <= d <= 4_398_046_511_104,
            ;
            assert(g * g * d >= 1) by (nonlinear_arith)
                requires
                    1 <= g,
                    1 <= d,
            ;
            assert(45_000 * p.size * dt <= 45_000 * MAX_SIZE * MAX_TICK) by (nonlinear_arith)
                requires
                    0 <= p.size <= MAX_SIZE,
                    0 <= dt <= MAX_TICK,
            ;
            lemma_mul_bound(
                45_000 * p.size * dt,
                dx as int,
                45_000 * MAX_SIZE * MAX_TICK,
                2 * COORD_LIMIT,
            );
            lemma_mul_bound(
                45_000 * p.size * dt,
                dy as int,
                45_000 * MAX_SIZE * MAX_TICK,
                2 * COORD_LIMIT,
            );
        }
        let den: i128 = g * g * d as i128;
        let k: i128 = 45_000 * p.size as i128 * dt as i128;
        let ax = div_trunc(k * dx, den);
        let ay = div_trunc(k * dy, den);
        proof {
            lemma_div_t_bound(k * dx, den as int, 45_000 * MAX_SIZE * MAX_TICK * (2 * COORD_LIMIT));
            lemma_div_t_bound(k * dy, den as int, 45_000 * MAX_SIZE * MAX_TICK * (2 * COORD_LIMIT));
        }
        vx = clamp_coord(vx as i128 + ax);
        vy = clamp_coord(vy as i128 + ay);
    }
    f.vx = vx;
    f.vy = vy;
    false
}

/// What all planets have absorbed.
pub open spec fn total_absorbed(ps: Seq<Planet>) -> int
    decreases ps.len(),
{
    if ps.len() == 0 {
        0
    } else {
        total_absorbed(ps.drop_last()) + ps.last().absorbed_power
    }
}

/// The power still carried by live flares.
pub open spec fn live_power(fs: Seq<Flare>) -> int
    decreases fs.len(),
{
    if fs.len() == 0 {
        0
    } else {
        live_power(fs.drop_last()) + fs.last().power
    }
}

/// No planet has a magnetic field.
pub open spec fn no_fields(ps: Seq<Planet>) -> bool {
    forall|j: int| 0 <= j < ps.len() ==> !(#[trigger] ps[j]).has_magnetic_field
}

/// `q` is `p` with at most its absorbed power changed, and that not lowered.
pub open spec fn same_but_absorbed(q: Planet, p: Planet) -> bool {
    &&& q == (Planet { absorbed_power: q.absorbed_power, ..p })
    &&& q.absorbed_power >= p.absorbed_power
}

/// Whether a flare has lived out its lifetime or left the system.
pub open spec fn gone(f: Flare, bound: u64) -> bool {
    f.age >= f.lifetime || f.x * f.x + f.y * f.y > bound * bound
}

/// A flare after it moves for `dt` microseconds.
pub open spec fn moved(f: Flare, dt: u64) -> Flare {
    Flare {
        x: clamp(f.x + div_t(f.vx * dt, 1_000_000)) as i64,
        y: clamp(f.y + div_t(f.vy * dt, 1_000_000)) as i64,
        age: sat_add(f.age, dt),
        ..f
    }
}

/// A flare meeting the planets from index `j` on, in order, until one absorbs
/// it: the flare as it leaves, the planets after, and whether it was absorbed.
pub open spec fn meet_all(f: Flare, ps: Seq<Planet>, j: int, dt: u64) -> (Flare, Seq<Planet>, bool)
    decreases ps.len() - j,
{
    if j < 0 || j >= ps.len() {
        (f, ps, false)
    } else {
        let p = ps[j];
        let f2 = Flare {
            vx: velocity_after(f, p, dt).0 as i64,
            vy: velocity_after(f, p, dt).1 as i64,
            ..f
        };
        let ps2 = ps.update(j, Planet { absorbed_power: absorbed_from(f, p), ..p });
        if zone(f, p) is Core {
            (f2, ps2, true)
        } else {
            meet_all(f2, ps2, j + 1, dt)
        }
    }
}

/// One flare's tick: dropped when gone, else it meets the planets and, unless
/// absorbed, moves on.
pub open spec fn step_flare(f: Flare, ps: Seq<Planet>, dt: u64, bound: u64) -> (Option<Flare>, Seq<Planet>) {
    if gone(f, bound) {
        (None, ps)
    } else {
        let (f2, ps2, hit) = meet_all(f, ps, 0, dt);
        if hit {
            (None, ps2)
        } else {
            (Some(moved(f2, dt)), ps2)
        }
    }
}

/// The flares kept and the planets after the first `n` flares' ticks.
pub open spec fn step_all(fs: Seq<Flare>, n: int, ps: Seq<Planet>, dt: u64, bound: u64) -> (Seq<Flare>, Seq<Planet>)
    decreases n,
{
    if n <= 0 {
        (seq![], ps)
    } else {
        let (kept, ps1) = step_all(fs, n - 1, ps, dt, bound);
        let (o, ps2) = step_flare(fs[n - 1], ps1, dt, bound);
        match o {
            Some(g) => (kept.push(g), ps2),
            None => (kept, ps2),
        }
    }
}

proof fn lemma_total_update(ps: Seq<Planet>, j: int, q: Planet)
    requires
        0 <= j < ps.len(),
    ensures
        total_absorbed(ps.update(j, q)) == total_absorbed(ps) - ps[j].absorbed_power
            + q.absorbed_power,
    decreases ps.len(),
{
    let us = ps.update(j, q);
    if j == ps.len() - 1 {
        assert(us.drop_last() =~= ps.drop_last());
    } else {
        assert(us.drop_last() =~= ps.drop_last().update(j, q));
        lemma_total_update(ps.drop_last(), j, q);
    }
}

proof fn lemma_live_take(fs: Seq<Flare>, i: int)
    requires
        0 <= i < fs.len(),
    ensures
        live_power(fs.take(i + 1)) == live_power(fs.take(i)) + fs[i].power,
{
    assert(fs.take(i + 1).drop_last() =~= fs.take(i));
}

fn move_flare(f: &mut Flare, dt: u64)
    requires
        old(f).wf(),
        dt <= MAX_TICK,
    ensures
        final(f).wf(),
        *final(f) == moved(*old(f), dt),
{
    proof {
        lemma_mul_bound(f.vx as int, dt as int, COORD_LIMIT as int, MAX_TICK as int);
        lemma_mul_bound(f.vy as int, dt as int, COORD_LIMIT as int, MAX_TICK as int);
        lemma_div_t_bound(f.vx * dt, 1_000_000, COORD_LIMIT * MAX_TICK);
        lemma_div_t_bound(f.vy * dt, 1_000_000, COORD_LIMIT * MAX_TICK);
    }
    let mx = div_trunc(f.vx as i128 * dt as i128, 1_000_000);
    let my = div_trunc(f.vy as i128 * dt as i128, 1_000_000);
    f.x = clamp_coord(f.x as i128 + mx);
    f.y = clamp_coord(f.y as i128 + my);
    f.age = saturating_add(f.age, dt);
}

/// One tick of every flare: a flare that has lived out its lifetime or is
/// beyond `bound` of the sun is dropped; any other meets the planets in turn
/// until one absorbs it, and if none does it moves on and ages by `dt`.
/// Planets only gain absorbed power. Where no planet has a magnetic field, the
/// power absorbed this tick plus the power still in flight never exceeds the
/// power that was in flight: a flare is absorbed at most once.
pub fn update_flares(flares: &mut Vec<Flare>, planets: &mut Vec<Planet>, dt: u64, bound: u64)
    requires
        forall|i: int| 0 <= i < old(flares)@.len() ==> (#[trigger] old(flares)@[i]).wf(),
        forall|j: int| 0 <= j < old(planets)@.len() ==> (#[trigger] old(planets)@[j]).wf(),
        dt <= MAX_TICK,
        bound <= COORD_LIMIT,
    ensures
        forall|i: int| 0 <= i < final(flares)@.len() ==> (#[trigger] final(flares)@[i]).wf(),
        final(flares)@.len() <= old(flares)@.len(),
        final(planets)@.len() == old(planets)@.len(),
        forall|j: int|
            0 <= j < old(planets)@.len() ==> same_but_absorbed(
                #[trigger] final(planets)@[j],
                old(planets)@[j],
            ),
        no_fields(old(planets)@) ==> total_absorbed(final(planets)@) + live_power(final(flares)@)
            <= total_absorbed(old(planets)@) + live_power(old(flares)@),
        (final(flares)@, final(planets)@) == step_all(
            old(flares)@,
            old(flares)@.len() as int,
            old(planets)@,
            dt,
            bound,
        ),
{
    let ghost flares0 = flares@;
    let ghost planets0 = planets@;
    let mut kept: Vec<Flare> = Vec::new();
    let n = planets.len();
    let mut i: usize = 0;
    while i < flares.len()
        invariant
            flares@ == flares0,
            i <= flares0.len(),
            n == planets0.len(),
            planets@.len() == n,
            dt <= MAX_TICK,
            bound <= COORD_LIMIT,
            forall|k: int| 0 <= k < flares0.len() ==> (#[trigger] flares0[k]).wf(),
            forall|j: int| 0 <= j < n ==> (#[trigger] planets0[j]).wf(),
            forall|j: int| 0 <= j < n ==> same_but_absorbed(#[trigger] planets@[j], planets0[j]),
            forall|k: int| 0 <= k < kept@.len() ==> (#[trigger] kept@[k]).wf(),
            kept@.len() <= i,
            no_fields(planets0) ==> total_absorbed(planets@) + live_power(kept@) <= total_absorbed(
                planets0,
            ) + live_power(flares0.take(i as int)),
            step_all(flares0, i as int, planets0, dt, bound) == (kept@, planets@),
        decreases flares0.len() - i,
    {
        let mut f = flares[i];
        proof {
            lemma_live_take(flares0, i as int);
            lemma_square_bound(f.x as int, COORD_LIMIT as int);
            lemma_square_bound(f.y as int, COORD_LIMIT as int);
            lemma_square_bound(bound as int, COORD_LIMIT as int);
        }
        let r2: i128 = f.x as i128 * f.x as i128 + f.y as i128 * f.y as i128;
        if f.age >= f.lifetime || r2 > bound as i128 * bound as i128 {
            i = i + 1;
            continue;
        }
        let ghost start = planets@;
        let ghost f_start = f;
        let mut hit = false;
        let mut j: usize = 0;
        while j < n && !hit
            invariant
                flares@ == flares0,
                i < flares0.len(),
                n == planets0.len(),
                planets@.len() == n,
                j <= n,
                dt <= MAX_TICK,
                f.wf(),
                f.power == flares0[i as int].power,
                f.x == flares0[i as int].x,
                f.y == flares0[i as int].y,
                f.age == flares0[i as int].age,
                f.lifetime == flares0[i as int].lifetime,
                forall|j: int| 0 <= j < n ==> (#[trigger] planets0[j]).wf(),
                forall|j: int| 0 <= j < n ==> same_but_absorbed(#[trigger] planets@[j], start[j]),
                forall|j: int| 0 <= j < n ==> same_but_absorbed(#[trigger] start[j], planets0[j]),
                no_fields(planets0) ==> total_absorbed(planets@) <= total_absorbed(start) + (if hit {
                    f.power as int
                } else {
                    0
                }),
                !hit ==> meet_all(f_start, start, 0, dt) == meet_all(f, planets@, j as int, dt),
                hit ==> meet_all(f_start, start, 0, dt) == (f, planets@, true),
            decreases n - j,
        {
            let mut p = planets[j];
            let ghost f_before = f;
            let ghost before = planets@;
            assert(planets0[j as int].wf());
            let h = interact(&mut f, &mut p, dt);
            proof {
                lemma_total_update(planets@, j as int, p);
                if no_fields(planets0) {
                    assert(!planets0[j as int].has_magnetic_field);
                }
            }
            planets.set(j, p);
            proof {
                assert(planets@ == before.update(
                    j as int,
                    Planet { absorbed_power: absorbed_from(f_before, before[j as int]), ..before[j as int] },
                ));
            }
            hit = h;
            j = j + 1;
        }
        if !hit {
            move_flare(&mut f, dt);
            proof {
                assert(kept@.push(f).drop_last() =~= kept@);
            }
            kept.push(f);
        }
        i = i + 1;
    }
    proof {
        assert(flares0.take(flares0.len() as int) =~= flares0);
    }
    *flares = kept;
}

proof fn lemma_live_uniform(fs: Seq<Flare>, power: u64)
    requires
        forall|i: int| 0 <= i < fs.len() ==> (#[trigger] fs[i]).power == power,
    ensures
        live_power(fs) == fs.len() * power,
    decreases fs.len(),
{
    if fs.len() > 0 {
        lemma_live_uniform(fs.drop_last(), power);
        assert((fs.len() - 1) * power + power == fs.len() * power) by (nonlinear_arith);
    }
}

proof fn lemma_live_nonneg(fs: Seq<Flare>)
    ensures
        live_power(fs) >= 0,
    decreases fs.len(),
{
    if fs.len() > 0 {
        lemma_live_nonneg(fs.drop_last());
    }
}

proof fn lemma_chain(flares: Seq<Seq<Flare>>, planets: Seq<Seq<Planet>>, k: int)
    requires
        flares.len() == planets.len(),
        0 <= k < flares.len(),
        forall|t: int|
            0 <= t < flares.len() - 1 ==> total_absorbed(planets[t + 1]) + live_power(
                #[trigger] flares[t + 1],
            ) <= total_absorbed(planets[t]) + live_power(flares[t]),
    ensures
        total_absorbed(planets[k]) + live_power(flares[k]) <= total_absorbed(planets[0])
            + live_power(flares[0]),
    decreases k,
{
    if k > 0 {
        lemma_chain(flares, planets, k - 1);
        let t = k - 1;
        assert(total_absorbed(planets[t + 1]) + live_power(flares[t + 1]) <= total_absorbed(
            planets[t],
        ) + live_power(flares[t]));
    }
}

/// A burst of flares that all carry `power`, followed through ticks in which
/// absorbed power plus power in flight never grows (as `update_flares` ensures
/// among planets without magnetic fields): at every tick the planets together
/// have absorbed at most the burst's size times `power` more than at launch.
pub proof fn lemma_burst_bound(
    power: u64,
    flares: Seq<Seq<Flare>>,
    planets: Seq<Seq<Planet>>,
    k: int,
)
    requires
        flares.len() == planets.len(),
        0 <= k < flares.len(),
        forall|i: int| 0 <= i < flares[0].len() ==> (#[trigger] flares[0][i]).power == power,
        forall|t: int|
            0 <= t < flares.len() - 1 ==> total_absorbed(planets[t + 1]) + live_power(
                #[trigger] flares[t + 1],
            ) <= total_absorbed(planets[t]) + live_power(flares[t]),
    ensures
        total_absorbed(planets[k]) - total_absorbed(planets[0]) <= flares[0].len() * power,
{
    lemma_chain(flares, planets, k);
    lemma_live_nonneg(flares[k]);
    lemma_live_uniform(flares[0], power);
}

/// The angle of one particle of a burst, in millidegrees: the burst's primary
/// angle in whole degrees, turned by `frac_pct` hundredths (from -100 to 100)
/// of half the flare's size (given in hundredths), so that particles spread
/// to both sides; rounded toward zero.
pub fn particle_angle(primary_deg: u64, size_pct: u64, frac_pct: i64) -> (r: i64)
    requires
        primary_deg < 360,
        size_pct < 1_000_000,
        -100 <= frac_pct <= 100,
    ensures
        r == primary_deg * 1000 + div_t(size_pct * 5 * frac_pct, 100),
{
    proof {
        lemma_mul_bound(size_pct * 5, frac_pct as int, 5_000_000, 100);
        lemma_div_t_bound(size_pct * 5 * frac_pct, 100, 500_000_000);
    }
    let turn = div_trunc(size_pct as i128 * 5 * frac_pct as i128, 100);
    primary_deg as i64 * 1000 + turn as i64
}

/// A particle's speed, in thousandths of a unit per second, for a speed
/// multiplier of `speed_permille` thousandths.
pub fn launch_speed(speed_permille: u64) -> (r: u64)
    requires
        speed_permille <= 2000,
    ensures
        r == speed_permille * (FLARE_SPEED / 1000),
{
    speed_permille * 2000
}

impl Flare {
    /// A new particle at the sun with the given power and velocity. Its
    /// lifetime, 90 seconds divided by the speed multiplier, lets fast and slow
    /// particles reach about as far.
    pub fn launch(power: u64, vx: i64, vy: i64, speed_permille: u64) -> (r: Flare)
        requires
            in_range(vx as int),
            in_range(vy as int),
            speed_permille >= 1,
        ensures
            r.wf(),
            r == (Flare {
                power,
                x: 0,
                y: 0,
                vx,
                vy,
                age: 0,
                lifetime: 90_000_000_000u64 / speed_permille,
            }),
    {
        Flare { power, x: 0, y: 0, vx, vy, age: 0, lifetime: 90_000_000_000 / speed_permille }
    }
}

} // verus!
