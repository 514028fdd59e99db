use vstd::prelude::*;

use crate::frame::TermColour;
use crate::geometry::{
    along, in_circle, is_direction, is_isqrt, isqrt, random_direction, scale_to_length, tile_of,
};
use crate::particle::{
    charges, emission_amount, emission_multiplier, is_emission_multiplier, moved, particle_emission,
    released, remaining_per_mille,
};
use crate::random::random_range;
use crate::smoke::{absorbed, decayed};
use crate::{NUM_COLUMNS, NUM_ROWS};

pub use crate::geometry::{get_tile_pos, random_vec2_in_circle, Vec2};
pub use crate::particle::{ContainedParticle, Particle};
pub use crate::smoke::SmokeTile;

verus! {

/// Fixed-point units per grid cell, for positions and velocities.
pub const POSITION_SCALE: i64 = 1024;

/// Time is counted in microseconds.
pub const MICROS_PER_SECOND: u64 = 1000000;

/// Smoke density is counted in millionths.
pub const DENSITY_SCALE: u64 = 1000000;

/// Below this speed (position units per second) a particle is drawn as a dot.
pub const BLUR_SPEED: i64 = 16384;

/// Downward acceleration, in position units per second per second.
pub const GRAVITY_Y: i64 = 8192;

/// Largest smoke density of one colour in one cell.
pub const SMOKE_MAX_DENSITY: u64 = 8000000;

/// Smoke density lost per second.
pub const SMOKE_DISSIPATION_RATE: u64 = 500000;

/// Total density at and above which a cell never blinks out.
pub const SMOKE_TOTAL_DENSITY_PROBABILITY_START: u64 = 250000;

/// Whether a cell's smoke colour is drawn at random, weighted by density,
/// rather than taken as the densest colour.
pub const ALLOW_COLOUR_FLICKER: bool = true;

/// Whether thin smoke blinks out at random.
pub const ALLOW_DENSITY_FLICKER: bool = true;

/// Positions and velocities are kept within this bound on each axis.
pub const COORD_LIMIT: i64 = 0x100_0000_0000;

/// The colours of the simulation; each has a bright and a dark shade.
#[derive(Clone, Copy, Debug, PartialEq, Eq, Structural)]
pub enum SimulationColour {
    Grey,
    White,
    Red,
    Yellow,
    Green,
    Cyan,
    Blue,
    Magenta,
}

/// The position of a colour in declaration order.
pub open spec fn colour_index(c: SimulationColour) -> int {
    match c {
        SimulationColour::Grey => 0,
        SimulationColour::White => 1,
        SimulationColour::Red => 2,
        SimulationColour::Yellow => 3,
        SimulationColour::Green => 4,
        SimulationColour::Cyan => 5,
        SimulationColour::Blue => 6,
        SimulationColour::Magenta => 7,
    }
}

/// The colour at position `i` in declaration order.
pub open spec fn colour_at(i: int) -> SimulationColour {
    if i == 0 {
        SimulationColour::Grey
    } else if i == 1 {
        SimulationColour::White
    } else if i == 2 {
        SimulationColour::Red
    } else if i == 3 {
        SimulationColour::Yellow
    } else if i == 4 {
        SimulationColour::Green
    } else if i == 5 {
        SimulationColour::Cyan
    } else if i == 6 {
        SimulationColour::Blue
    } else {
        SimulationColour::Magenta
    }
}

impl SimulationColour {
    /// The position of this colour in declaration order.
    pub fn index(self) -> (i: usize)
        ensures
            i == colour_index(self),
            i < 8,
            colour_at(i as int) == self,
    {
        match self {
            SimulationColour::Grey => 0,
            SimulationColour::White => 1,
            SimulationColour::Red => 2,
            SimulationColour::Yellow => 3,
            SimulationColour::Green => 4,
            SimulationColour::Cyan => 5,
            SimulationColour::Blue => 6,
            SimulationColour::Magenta => 7,
        }
    }

    /// The colour at position `i` in declaration order.
    pub fn from_index(i: usize) -> (c: SimulationColour)
        requires
            i < 8,
        ensures
            c == colour_at(i as int),
            colour_index(c) == i,
    {
        if i == 0 {
            SimulationColour::Grey
        } else if i == 1 {
            SimulationColour::White
        } else if i == 2 {
            SimulationColour::Red
        } else if i == 3 {
            SimulationColour::Yellow
        } else if i == 4 {
            SimulationColour::Green
        } else if i == 5 {
            SimulationColour::Cyan
        } else if i == 6 {
            SimulationColour::Blue
        } else {
            SimulationColour::Magenta
        }
    }
}

/// The display colour of a simulation colour: the dark shade when `darken`
/// is set, else the bright one.
pub open spec fn shade(colour: SimulationColour, darken: bool) -> TermColour {
    match colour {
        SimulationColour::Grey => if darken { TermColour::Black } else { TermColour::DarkGrey },
        SimulationColour::White => if darken { TermColour::Grey } else { TermColour::White },
        SimulationColour::Red => if darken { TermColour::DarkRed } else { TermColour::Red },
        SimulationColour::Yellow => if darken { TermColour::DarkYellow } else { TermColour::Yellow },
        SimulationColour::Green => if darken { TermColour::DarkGreen } else { TermColour::Green },
        SimulationColour::Cyan => if darken { TermColour::DarkCyan } else { TermColour::Cyan },
        SimulationColour::Blue => if darken { TermColour::DarkBlue } else { TermColour::Blue },
        SimulationColour::Magenta => if darken { TermColour::DarkMagenta } else { TermColour::Magenta },
    }
}

/// Maps a simulation colour to the display colour of its bright shade, or of
/// its dark shade when `darken` is set.
pub fn simulation_colour_to_crossterm_colour(colour: SimulationColour, darken: bool) -> (c: TermColour)
    ensures
        c == shade(colour, darken),
{
    match colour {
        SimulationColour::Grey => if darken { TermColour::Black } else { TermColour::DarkGrey },
        SimulationColour::White => if darken { TermColour::Grey } else { TermColour::White },
        SimulationColour::Red => if darken { TermColour::DarkRed } else { TermColour::Red },
        SimulationColour::Yellow => if darken { TermColour::DarkYellow } else { TermColour::Yellow },
        SimulationColour::Green => if darken { TermColour::DarkGreen } else { TermColour::Green },
        SimulationColour::Cyan => if darken { TermColour::DarkCyan } else { TermColour::Cyan },
        SimulationColour::Blue => if darken { TermColour::DarkBlue } else { TermColour::Blue },
        SimulationColour::Magenta => if darken { TermColour::DarkMagenta } else { TermColour::Magenta },
    }
}

/// A colour drawn uniformly from the eight.
pub fn random_colour() -> SimulationColour {
    let i = random_range(0, 8);
    SimulationColour::from_index(i as usize)
}

/// The whole simulation: the particles in flight and the smoke they leave.
pub struct State {
    /// Time simulated so far, in microseconds.
    pub time: u64,
    pub particles: Vec<Particle>,
    /// The smoke of each cell, indexed as `smoke_tiles[column][row]`.
    pub smoke_tiles: Vec<Vec<SmokeTile>>,
    /// Time left until the next fireworks go up, in microseconds.
    pub new_firework_timer: i64,
    /// Time between two launches of fireworks, in microseconds.
    pub new_firework_timer_length: u32,
}

/// The densities of every cell of a smoke grid.
pub open spec fn smoke_view(tiles: Seq<Vec<SmokeTile>>) -> Seq<Seq<Seq<u64>>> {
    tiles.map_values(|column: Vec<SmokeTile>| column@.map_values(|t: SmokeTile| t.colour_densities@))
}

/// A smoke grid of `NUM_COLUMNS` columns of `NUM_ROWS` cells, none of them
/// over `SMOKE_MAX_DENSITY`.
pub open spec fn smoke_wf(tiles: Seq<Vec<SmokeTile>>) -> bool {
    &&& tiles.len() == NUM_COLUMNS
    &&& forall|x: int| 0 <= x < NUM_COLUMNS ==> #[trigger] tiles[x]@.len() == NUM_ROWS
    &&& forall|x: int, y: int|
        0 <= x < NUM_COLUMNS && 0 <= y < NUM_ROWS ==> (#[trigger] tiles[x]@[y]).wf()
}

/// Every particle is well formed.
pub open spec fn particles_wf(ps: Seq<Particle>) -> bool {
    forall|i: int| 0 <= i < ps.len() ==> (#[trigger] ps[i]).wf()
}

/// The smoke `g` after `dt` microseconds of decay.
pub open spec fn decayed_grid(g: Seq<Seq<Seq<u64>>>, dt: u64) -> Seq<Seq<Seq<u64>>> {
    g.map_values(|column: Seq<Seq<u64>>| column.map_values(|ds: Seq<u64>| decayed(ds, dt)))
}

/// The smoke a particle gives off over `dt` microseconds.
pub open spec fn particle_smoke(p: Particle, dt: u64) -> u64 {
    let m = choose|m: int| is_emission_multiplier(remaining_per_mille(p.time_remaining as int, p.timer_length as int), m);
    emission_amount(p.base_smoke_emission as int, m, dt as int) as u64
}

/// The smoke `g` after the particles `ps`, one after the other, gave off
/// their smoke over `dt` microseconds into the cells they are over.
pub open spec fn emitted_grid(g: Seq<Seq<Seq<u64>>>, ps: Seq<Particle>, dt: u64) -> Seq<Seq<Seq<u64>>>
    decreases ps.len(),
{
    if ps.len() == 0 {
        g
    } else {
        let before = emitted_grid(g, ps.drop_last(), dt);
        let p = ps.last();
        match tile_of(p.position) {
            Some((x, y)) => before.update(
                x as int,
                before[x as int].update(y as int, absorbed(before[x as int][y as int], p.colour, particle_smoke(p, dt))),
            ),
            None => before,
        }
    }
}

proof fn lemma_emission_multiplier_unique(per_mille: int, m: int)
    requires
        is_emission_multiplier(per_mille, m),
    ensures
        (choose|k: int| is_emission_multiplier(per_mille, k)) == m,
{
    let k = choose|k: int| is_emission_multiplier(per_mille, k);
    assert(is_emission_multiplier(per_mille, k));
    if k < m {
        lemma_pow5_le(k + 1, m);
    } else if m < k {
        lemma_pow5_le(m + 1, k);
    }
}

proof fn lemma_pow5_le(a: int, b: int)
    requires
        0 <= a <= b,
    ensures
        crate::particle::pow5(a) <= crate::particle::pow5(b),
{
    assert(a * a <= b * b) by (nonlinear_arith)
        requires
            0 <= a <= b,
    ;
    assert(a * a * a <= b * b * b) by (nonlinear_arith)
        requires
            0 <= a <= b,
            a * a <= b * b,
    ;
    assert(a * a * a * a <= b * b * b * b) by (nonlinear_arith)
        requires
            0 <= a <= b,
            a * a * a <= b * b * b,
    ;
    assert(a * a * a * a * a <= b * b * b * b * b) by (nonlinear_arith)
        requires
            0 <= a <= b,
            a * a * a * a <= b * b * b * b,
    ;
}

/// `p` with `dt` microseconds less lifetime.
pub open spec fn aged(p: Particle, dt: u64) -> Particle {
    Particle { time_remaining: (p.time_remaining - dt) as i64, ..p }
}

/// The particles of `ps` that outlive the next `dt` microseconds, in order,
/// each with `dt` less lifetime.
pub open spec fn survivors(ps: Seq<Particle>, dt: u64) -> Seq<Particle>
    decreases ps.len(),
{
    if ps.len() == 0 {
        seq![]
    } else {
        let p = ps.last();
        let rest = survivors(ps.drop_last(), dt);
        if p.time_remaining - dt > 0 {
            rest.push(aged(p, dt))
        } else {
            rest
        }
    }
}

/// The particles that outlive a step of `dt` microseconds are exactly those
/// with more than `dt` left, in order, each with exactly `dt` less lifetime
/// and otherwise unchanged.
pub proof fn lemma_survivor_lifetimes(ps: Seq<Particle>, dt: u64)
    ensures
        survivors(ps, dt) == ps.filter(|p: Particle| p.time_remaining - dt > 0).map_values(
            |p: Particle| aged(p, dt),
        ),
    decreases ps.len(),
{
    let alive = |p: Particle| p.time_remaining - dt > 0;
    let age = |p: Particle| aged(p, dt);
    reveal_with_fuel(Seq::<Particle>::filter, 1);
    if ps.len() == 0 {
        assert(ps.filter(alive).map_values(age) =~= seq![]);
    } else {
        let rest = ps.drop_last();
        lemma_survivor_lifetimes(rest, dt);
        if alive(ps.last()) {
            assert(ps.filter(alive) == rest.filter(alive).push(ps.last()));
            assert(ps.filter(alive).map_values(age) =~= rest.filter(alive).map_values(age).push(age(ps.last())));
        } else {
            assert(ps.filter(alive) == rest.filter(alive));
        }
    }
}

/// What the particles of `ps` that expire within the next `dt` microseconds
/// release, in order: each particle they contain, with the position of its
/// release.
pub open spec fn released_charges(ps: Seq<Particle>, dt: u64) -> Seq<(ContainedParticle, Vec2)>
    decreases ps.len(),
{
    if ps.len() == 0 {
        seq![]
    } else {
        let p = ps.last();
        let rest = released_charges(ps.drop_last(), dt);
        if p.time_remaining - dt > 0 {
            rest
        } else {
            rest + charges(p.contained_particles).map_values(|c: ContainedParticle| (c, p.position))
        }
    }
}

/// `p` is what `charge` becomes when released at `position`, flying off in
/// some random direction.
pub open spec fn is_release_of(p: Particle, charge: ContainedParticle, position: Vec2) -> bool {
    exists|d: Vec2| is_direction(d) && d.bounded() && p == released(charge, position, d)
}

/// `after` holds the survivors of `before` over `dt` microseconds, in order,
/// then one particle for each charge that the expired ones release, in order.
pub open spec fn expiry_result(before: Seq<Particle>, dt: u64, after: Seq<Particle>) -> bool {
    let kept = survivors(before, dt);
    let freed = released_charges(before, dt);
    &&& after.len() == kept.len() + freed.len()
    &&& after.take(kept.len() as int) == kept
    &&& forall|k: int|
        0 <= k < freed.len() ==> is_release_of(after[kept.len() + k], #[trigger] freed[k].0, freed[k].1)
}

/// The items of `v` in reverse order.
fn reversed<T>(v: Vec<T>) -> (r: Vec<T>)
    ensures
        r@.len() == v@.len(),
        forall|j: int| 0 <= j < v@.len() ==> #[trigger] r@[j] == v@[v@.len() - 1 - j],
{
    let ghost original = v@;
    let mut source = v;
    let mut r: Vec<T> = Vec::new();
    while source.len() > 0
        invariant
            source@.len() + r@.len() == original.len(),
            source@ == original.take(source@.len() as int),
            forall|j: int| 0 <= j < r@.len() ==> #[trigger] r@[j] == original[original.len() - 1 - j],
        decreases source@.len(),
    {
        let ghost before = source@;
        match source.pop() {
            Some(item) => {
                proof {
                    assert(source@ =~= original.take(source@.len() as int));
                }
                r.push(item);
            },
            None => {},
        }
    }
    r
}

/// Turns each of `contained`, in order, into a particle at `position`
/// flying off in a random direction, and appends them to `out`.
fn release_all(contained: Vec<ContainedParticle>, position: Vec2, out: &mut Vec<Particle>)
    requires
        position.bounded(),
        particles_wf(old(out)@),
    ensures
        particles_wf(final(out)@),
        final(out)@.len() == old(out)@.len() + contained@.len(),
        final(out)@.take(old(out)@.len() as int) == old(out)@,
        forall|k: int|
            0 <= k < contained@.len() ==> is_release_of(final(out)@[old(out)@.len() + k], #[trigger] contained@[k], position),
{
    let ghost cs = contained@;
    let n = contained.len();
    let mut pending = reversed(contained);
    let mut i: usize = 0;
    while i < n
        invariant
            i <= n == cs.len(),
            pending@.len() == n - i,
            forall|j: int| 0 <= j < n - i ==> #[trigger] pending@[j] == cs[n - 1 - j],
            position.bounded(),
            particles_wf(out@),
            out@.len() == old(out)@.len() + i,
            out@.take(old(out)@.len() as int) == old(out)@,
            forall|k: int| 0 <= k < i ==> is_release_of(out@[old(out)@.len() + k], #[trigger] cs[k], position),
        decreases n - i,
    {
        let ghost prev = out@;
        match pending.pop() {
            Some(charge) => {
                assert(charge == cs[i as int]);
                let d = random_direction();
                let p = charge.release(position, d);
                out.push(p);
                proof {
                    assert(out@.take(old(out)@.len() as int) =~= prev.take(old(out)@.len() as int));
                    assert forall|k: int| 0 <= k < i + 1 implies is_release_of(out@[old(out)@.len() + k], #[trigger] cs[k], position) by {
                        if k == i {
                            assert(p == released(cs[k], position, d));
                        } else {
                            assert(out@[old(out)@.len() + k] == prev[old(out)@.len() + k]);
                        }
                    }
                }
            },
            None => {},
        }
        i = i + 1;
    }
}

/// Left edge of the band that rockets are launched from, in position units.
pub const LAUNCH_X_MIN: i64 = 98304;

/// Right edge (exclusive) of the launch band, in position units.
pub const LAUNCH_X_MAX: i64 = 147456;

/// Centre of the area that rockets aim at: the middle of the top edge.
pub const TARGET_X: i64 = 122880;

/// Radius of the area that rockets aim at, in position units.
pub const TARGET_RADIUS: u32 = 49152;

/// Largest speed of a piece of glitter, in position units per second.
pub const GLITTER_MAX_SPEED: u32 = 32768;

/// A piece of glitter that a rocket carries.
pub open spec fn is_glitter(c: ContainedParticle) -> bool {
    &&& c.contained_particles is None
    &&& 4000000 <= c.base_smoke_emission < 8000000
    &&& c.explosion_speed < GLITTER_MAX_SPEED
    &&& 1500000 <= c.timer_length < 3500000
}

/// A freshly launched rocket: white, at the bottom edge within the middle
/// fifth of the width, aimed at a point of the target area at a speed between
/// 32 and 64 cells per second, living 1.25 to 2 seconds, and carrying 64 to
/// 256 pieces of glitter.
pub open spec fn is_rocket(p: Particle) -> bool {
    &&& p.wf()
    &&& p.colour == SimulationColour::White
    &&& p.position.y == NUM_ROWS * POSITION_SCALE
    &&& LAUNCH_X_MIN <= p.position.x < LAUNCH_X_MAX
    &&& 1250000 <= p.timer_length < 2000000
    &&& p.time_remaining == p.timer_length
    &&& 2000000 <= p.base_smoke_emission < 4000000
    &&& p.contained_particles is Some
    &&& 64 <= charges(p.contained_particles).len() <= 256
    &&& forall|k: int| 0 <= k < charges(p.contained_particles).len() ==> is_glitter(#[trigger] charges(p.contained_particles)[k])
    &&& exists|target: Vec2, speed: int|
        in_circle(Vec2 { x: (target.x - TARGET_X) as i64, ..target }, TARGET_RADIUS as int)
        && 32768 <= speed < 65536
        && p.velocity == #[trigger] launch_velocity(p.position, target, speed)
}

/// The velocity of a rocket launched from `position` toward `target` at
/// `speed`.
pub open spec fn launch_velocity(position: Vec2, target: Vec2, speed: int) -> Vec2 {
    along(Vec2 { x: (target.x - position.x) as i64, y: (target.y - position.y) as i64 }, speed)
}

/// A piece of glitter of random colour, smoke, speed and lifetime.
fn random_glitter() -> (c: ContainedParticle)
    ensures
        is_glitter(c),
{
    let draw = random_range(0, (GLITTER_MAX_SPEED as u64) * (GLITTER_MAX_SPEED as u64));
    let speed = isqrt(draw as u128);
    assert(speed < GLITTER_MAX_SPEED) by (nonlinear_arith)
        requires
            is_isqrt(draw as int, speed as int),
            draw < 32768 * 32768,
    ;
    ContainedParticle {
        colour: random_colour(),
        base_smoke_emission: random_range(4000000, 8000000) as u32,
        contained_particles: None,
        explosion_speed: speed as u32,
        timer_length: random_range(1500000, 3500000) as u32,
    }
}

/// The time left on the launch timer after `dt` microseconds: reset to its
/// length when it runs out.
pub open spec fn next_firework_timer(timer: int, length: int, dt: int) -> int {
    if timer - dt <= 0 {
        length
    } else {
        timer - dt
    }
}

impl State {
    /// The smoke grid has its shape and bounds, every particle is well
    /// formed, and the launch timer does not exceed its length.
    pub open spec fn wf(&self) -> bool {
        &&& smoke_wf(self.smoke_tiles@)
        &&& particles_wf(self.particles@)
        &&& self.new_firework_timer <= self.new_firework_timer_length
    }

    /// A simulation at time zero, without particles or smoke, that launches
    /// fireworks at once and then every five seconds.
    pub fn new() -> (s: Self)
        ensures
            s.wf(),
            s.time == 0,
            s.particles@.len() == 0,
            s.new_firework_timer == 0,
            s.new_firework_timer_length == 5 * MICROS_PER_SECOND,
            forall|x: int, y: int, i: int|
                0 <= x < NUM_COLUMNS && 0 <= y < NUM_ROWS && 0 <= i < 8 ==> #[trigger] smoke_view(
                    s.smoke_tiles@,
                )[x][y][i] == 0,
    {
        let particles: Vec<Particle> = Vec::new();
        let mut smoke_tiles: Vec<Vec<SmokeTile>> = Vec::with_capacity(NUM_COLUMNS);
        let mut x: usize = 0;
        while x < NUM_COLUMNS
            invariant
                x <= NUM_COLUMNS,
                smoke_tiles@.len() == x,
                forall|i: int| 0 <= i < x ==> #[trigger] smoke_tiles@[i]@.len() == NUM_ROWS,
                forall|i: int, j: int|
                    0 <= i < x && 0 <= j < NUM_ROWS ==> (#[trigger] smoke_tiles@[i]@[j]).wf(),
                forall|i: int, j: int, k: int|
                    0 <= i < x && 0 <= j < NUM_ROWS && 0 <= k < 8 ==> #[trigger] smoke_tiles@[i]@[j].colour_densities@[k] == 0,
            decreases NUM_COLUMNS - x,
        {
            let mut column: Vec<SmokeTile> = Vec::with_capacity(NUM_ROWS);
            let mut y: usize = 0;
            while y < NUM_ROWS
                invariant
                    y <= NUM_ROWS,
                    column@.len() == y,
                    forall|j: int| 0 <= j < y ==> (#[trigger] column@[j]).wf(),
                    forall|j: int, k: int|
                        0 <= j < y && 0 <= k < 8 ==> #[trigger] column@[j].colour_densities@[k] == 0,
                decreases NUM_ROWS - y,
            {
                column.push(SmokeTile::new());
                y = y + 1;
            }
            smoke_tiles.push(column);
            x = x + 1;
        }
        State {
            time: 0,
            particles,
            smoke_tiles,
            new_firework_timer: 0,
            new_firework_timer_length: 5000000,
        }
    }

    /// Thins the smoke of every colour in every cell by `decay_amount(dt)`,
    /// down to zero at least.
    pub fn decay_smoke(&mut self, dt: u64)
        requires
            old(self).wf(),
        ensures
            final(self).wf(),
            smoke_view(final(self).smoke_tiles@) == decayed_grid(smoke_view(old(self).smoke_tiles@), dt),
            final(self).particles == old(self).particles,
            final(self).time == old(self).time,
            final(self).new_firework_timer == old(self).new_firework_timer,
            final(self).new_firework_timer_length == old(self).new_firework_timer_length,
    {
        let ghost before = smoke_view(self.smoke_tiles@);
        let mut x: usize = 0;
        while x < NUM_COLUMNS
            invariant
                x <= NUM_COLUMNS,
                self.wf(),
                self.particles == old(self).particles,
                self.time == old(self).time,
                self.new_firework_timer == old(self).new_firework_timer,
                self.new_firework_timer_length == old(self).new_firework_timer_length,
                before == smoke_view(old(self).smoke_tiles@),
                before.len() == NUM_COLUMNS,
                forall|i: int| 0 <= i < NUM_COLUMNS ==> #[trigger] before[i].len() == NUM_ROWS,
                forall|i: int, j: int|
                    0 <= i < NUM_COLUMNS && 0 <= j < NUM_ROWS ==> #[trigger] smoke_view(self.smoke_tiles@)[i][j]
                        == if i < x { decayed(before[i][j], dt) } else { before[i][j] },
            decreases NUM_COLUMNS - x,
        {
            let mut y: usize = 0;
            while y < NUM_ROWS
                invariant
                    x < NUM_COLUMNS,
                    y <= NUM_ROWS,
                    self.wf(),
                    self.particles == old(self).particles,
                    self.time == old(self).time,
                    self.new_firework_timer == old(self).new_firework_timer,
                    self.new_firework_timer_length == old(self).new_firework_timer_length,
                    before.len() == NUM_COLUMNS,
                    forall|i: int| 0 <= i < NUM_COLUMNS ==> #[trigger] before[i].len() == NUM_ROWS,
                    forall|i: int, j: int|
                        0 <= i < NUM_COLUMNS && 0 <= j < NUM_ROWS ==> #[trigger] smoke_view(self.smoke_tiles@)[i][j]
                            == if i < x || (i == x && j < y) { decayed(before[i][j], dt) } else { before[i][j] },
                decreases NUM_ROWS - y,
            {
                let ghost prev = self.smoke_tiles@;
                assert(smoke_view(prev)[x as int][y as int] == before[x as int][y as int]);
                let mut tile = self.smoke_tiles[x][y];
                tile.decay(dt);
                self.smoke_tiles[x][y] = tile;
                proof {
                    assert(self.smoke_tiles@ == prev.update(x as int, self.smoke_tiles@[x as int]));
                    assert(self.smoke_tiles@[x as int]@ == prev[x as int]@.update(y as int, tile));
                    assert forall|i: int, j: int|
                        0 <= i < NUM_COLUMNS && 0 <= j < NUM_ROWS implies #[trigger] smoke_view(self.smoke_tiles@)[i][j]
                            == if i < x || (i == x && j < y + 1) { decayed(before[i][j], dt) } else { before[i][j] } by {
                        if i == x && j == y {
                            assert(smoke_view(prev)[i][j] == prev[i]@[j].colour_densities@);
                            assert(smoke_view(self.smoke_tiles@)[i][j] == tile.colour_densities@);
                        } else if i == x {
                            assert(smoke_view(self.smoke_tiles@)[i][j] == smoke_view(prev)[i][j]);
                        } else {
                            assert(smoke_view(self.smoke_tiles@)[i][j] == smoke_view(prev)[i][j]);
                        }
                    }
                }
                y = y + 1;
            }
            x = x + 1;
        }
        assert(smoke_view(self.smoke_tiles@) =~~= decayed_grid(before, dt));
    }

    /// Lets every particle over the grid, in order, give off its smoke over
    /// `dt` microseconds into its cell, in its colour.
    pub fn emit_smoke(&mut self, dt: u64)
        requires
            old(self).wf(),
        ensures
            final(self).wf(),
            smoke_view(final(self).smoke_tiles@) == emitted_grid(smoke_view(old(self).smoke_tiles@), old(self).particles@, dt),
            final(self).particles == old(self).particles,
            final(self).time == old(self).time,
            final(self).new_firework_timer == old(self).new_firework_timer,
            final(self).new_firework_timer_length == old(self).new_firework_timer_length,
    {
        let ghost before = smoke_view(self.smoke_tiles@);
        let mut i: usize = 0;
        while i < self.particles.len()
            invariant
                i <= self.particles@.len(),
                self.wf(),
                self.particles == old(self).particles,
                self.time == old(self).time,
                self.new_firework_timer == old(self).new_firework_timer,
                self.new_firework_timer_length == old(self).new_firework_timer_length,
                before == smoke_view(old(self).smoke_tiles@),
                smoke_view(self.smoke_tiles@) == emitted_grid(before, self.particles@.take(i as int), dt),
            decreases self.particles@.len() - i,
        {
            let ghost prev = self.smoke_tiles@;
            proof {
                assert(self.particles@.take(i as int + 1).drop_last() =~= self.particles@.take(i as int));
                assert(self.particles@.take(i as int + 1).last() == self.particles@[i as int]);
            }
            let p = &self.particles[i];
            match get_tile_pos(p.position) {
                Some((tx, ty)) => {
                    let m = emission_multiplier(p.time_remaining, p.timer_length);
                    let amount = particle_emission(p.base_smoke_emission, m, dt);
                    proof {
                        lemma_emission_multiplier_unique(
                            remaining_per_mille(p.time_remaining as int, p.timer_length as int),
                            m as int,
                        );
                        assert(amount == particle_smoke(*p, dt));
                    }
                    let colour = p.colour;
                    let mut tile = self.smoke_tiles[tx][ty];
                    tile.absorb(colour, amount);
                    self.smoke_tiles[tx][ty] = tile;
                    proof {
                        assert(self.smoke_tiles@ == prev.update(tx as int, self.smoke_tiles@[tx as int]));
                        assert(self.smoke_tiles@[tx as int]@ == prev[tx as int]@.update(ty as int, tile));
                        assert(smoke_view(prev)[tx as int][ty as int] == prev[tx as int]@[ty as int].colour_densities@);
                        assert(smoke_view(self.smoke_tiles@) =~~= smoke_view(prev).update(
                            tx as int,
                            smoke_view(prev)[tx as int].update(ty as int, tile.colour_densities@),
                        ));
                        assert forall|a: int, b: int|
                            0 <= a < NUM_COLUMNS && 0 <= b < NUM_ROWS implies (#[trigger] self.smoke_tiles@[a]@[b]).wf() by {
                            if a == tx && b == ty {
                            } else {
                                assert(self.smoke_tiles@[a]@[b] == prev[a]@[b]);
                            }
                        }
                    }
                },
                None => {},
            }
            i = i + 1;
        }
        assert(self.particles@.take(self.particles@.len() as int) =~= self.particles@);
    }

    /// Flies every particle for `dt` microseconds.
    pub fn fly_particles(&mut self, dt: u64)
        requires
            old(self).wf(),
        ensures
            final(self).wf(),
            final(self).particles@ == old(self).particles@.map_values(|p: Particle| moved(p, dt as int)),
            final(self).smoke_tiles == old(self).smoke_tiles,
            final(self).time == old(self).time,
            final(self).new_firework_timer == old(self).new_firework_timer,
            final(self).new_firework_timer_length == old(self).new_firework_timer_length,
    {
        let mut i: usize = 0;
        while i < self.particles.len()
            invariant
                i <= self.particles@.len(),
                self.wf(),
                self.particles@.len() == old(self).particles@.len(),
                self.smoke_tiles == old(self).smoke_tiles,
                self.time == old(self).time,
                self.new_firework_timer == old(self).new_firework_timer,
                self.new_firework_timer_length == old(self).new_firework_timer_length,
                forall|j: int|
                    0 <= j < self.particles@.len() ==> #[trigger] self.particles@[j] == if j < i {
                        moved(old(self).particles@[j], dt as int)
                    } else {
                        old(self).particles@[j]
                    },
            decreases self.particles@.len() - i,
        {
            self.particles[i].fly(dt);
            i = i + 1;
        }
        assert(self.particles@ =~= old(self).particles@.map_values(|p: Particle| moved(p, dt as int)));
    }

    /// Takes `dt` microseconds off every particle's lifetime. The particles
    /// with time left stay, in order; each of the others is removed, and the
    /// particles it contains are released where it was, in random directions,
    /// and appended.
    pub fn expire_particles(&mut self, dt: u64)
        requires
            old(self).wf(),
        ensures
            final(self).wf(),
            expiry_result(old(self).particles@, dt, final(self).particles@),
            final(self).smoke_tiles == old(self).smoke_tiles,
            final(self).time == old(self).time,
            final(self).new_firework_timer == old(self).new_firework_timer,
            final(self).new_firework_timer_length == old(self).new_firework_timer_length,
    {
        let mut current: Vec<Particle> = Vec::new();
        std::mem::swap(&mut current, &mut self.particles);
        let ghost before = current@;
        let n = current.len();
        let mut pending = reversed(current);
        let mut kept: Vec<Particle> = Vec::new();
        let mut freed: Vec<Particle> = Vec::new();
        let mut i: usize = 0;
        while i < n
            invariant
                i <= n == before.len(),
                particles_wf(before),
                pending@.len() == n - i,
                forall|j: int| 0 <= j < n - i ==> #[trigger] pending@[j] == before[n - 1 - j],
                particles_wf(kept@),
                particles_wf(freed@),
                kept@ == survivors(before.take(i as int), dt),
                freed@.len() == released_charges(before.take(i as int), dt).len(),
                forall|k: int|
                    0 <= k < freed@.len() ==> is_release_of(
                        freed@[k],
                        #[trigger] released_charges(before.take(i as int), dt)[k].0,
                        released_charges(before.take(i as int), dt)[k].1,
                    ),
            decreases n - i,
        {
            proof {
                assert(before.take(i as int + 1).drop_last() =~= before.take(i as int));
                assert(before.take(i as int + 1).last() == before[i as int]);
            }
            let ghost prev_freed = freed@;
            let ghost rc = released_charges(before.take(i as int), dt);
            match pending.pop() {
                Some(particle) => {
                    assert(particle == before[i as int]);
                    assert(particle.wf());
                    let mut p = particle;
                    let left: i128 = p.time_remaining as i128 - dt as i128;
                    if left > 0 {
                        p.time_remaining = left as i64;
                        kept.push(p);
                    } else {
                        let position = p.position;
                        match p.contained_particles {
                            Some(cs) => {
                                let ghost cseq = cs@;
                                release_all(cs, position, &mut freed);
                                proof {
                                    let new_rc = released_charges(before.take(i as int + 1), dt);
                                    assert(new_rc == rc + cseq.map_values(|c: ContainedParticle| (c, position)));
                                    assert forall|k: int| 0 <= k < freed@.len() implies is_release_of(
                                        freed@[k],
                                        #[trigger] new_rc[k].0,
                                        new_rc[k].1,
                                    ) by {
                                        if k < rc.len() {
                                            assert(freed@[k] == freed@.take(rc.len() as int)[k]);
                                        } else {
                                            let kk = k - rc.len();
                                            assert(new_rc[k] == (cseq[kk], position));
                                            assert(is_release_of(freed@[prev_freed.len() + kk], cseq[kk], position));
                                        }
                                    }
                                }
                            },
                            None => {
                                proof {
                                    let new_rc = released_charges(before.take(i as int + 1), dt);
                                    assert(new_rc =~= rc);
                                }
                            },
                        }
                    }
                },
                None => {},
            }
            i = i + 1;
        }
        proof {
            assert(before.take(n as int) =~= before);
        }
        let ghost kept_seq = kept@;
        let ghost freed_seq = freed@;
        kept.append(&mut freed);
        self.particles = kept;
        proof {
            assert(self.particles@.take(kept_seq.len() as int) =~= kept_seq);
            assert forall|k: int| 0 <= k < freed_seq.len() implies self.particles@[kept_seq.len() + k] == freed_seq[k] by {}
        }
    }

    /// Launches a rocket with random aim, speed, lifetime and glitter.
    pub fn spawn_firework(&mut self)
        requires
            old(self).wf(),
        ensures
            final(self).wf(),
            final(self).particles@.len() == old(self).particles@.len() + 1,
            final(self).particles@.drop_last() == old(self).particles@,
            is_rocket(final(self).particles@.last()),
            final(self).smoke_tiles == old(self).smoke_tiles,
            final(self).time == old(self).time,
            final(self).new_firework_timer == old(self).new_firework_timer,
            final(self).new_firework_timer_length == old(self).new_firework_timer_length,
    {
        let num_glitter_particles = random_range(64, 257);
        let speed = random_range(32768, 65536);
        let position = Vec2 {
            x: random_range(LAUNCH_X_MIN as u64, LAUNCH_X_MAX as u64) as i64,
            y: NUM_ROWS as i64 * POSITION_SCALE,
        };
        let offset = random_vec2_in_circle(TARGET_RADIUS);
        let target = Vec2 { x: TARGET_X + offset.x, y: offset.y };
        let timer_length = random_range(1250000, 2000000) as u32;
        let mut glitter: Vec<ContainedParticle> = Vec::with_capacity(num_glitter_particles as usize);
        let mut k: u64 = 0;
        while k < num_glitter_particles
            invariant
                k <= num_glitter_particles <= 256,
                glitter@.len() == k,
                forall|j: int| 0 <= j < k ==> is_glitter(#[trigger] glitter@[j]),
            decreases num_glitter_particles - k,
        {
            glitter.push(random_glitter());
            k = k + 1;
        }
        assert(offset.x * offset.x <= 49152 * 49152) by (nonlinear_arith)
            requires
                offset.x * offset.x + offset.y * offset.y <= 49152 * 49152,
        ;
        assert(-49152 <= offset.x <= 49152) by (nonlinear_arith)
            requires
                offset.x * offset.x <= 49152 * 49152,
        ;
        assert(offset.y * offset.y <= 49152 * 49152) by (nonlinear_arith)
            requires
                offset.x * offset.x + offset.y * offset.y <= 49152 * 49152,
        ;
        assert(-49152 <= offset.y <= 49152) by (nonlinear_arith)
            requires
                offset.y * offset.y <= 49152 * 49152,
        ;
        let direction = Vec2 { x: target.x - position.x, y: target.y - position.y };
        let velocity = scale_to_length(direction, speed);
        let rocket = Particle {
            position,
            velocity,
            base_smoke_emission: random_range(2000000, 4000000) as u32,
            time_remaining: timer_length as i64,
            colour: SimulationColour::White,
            timer_length,
            contained_particles: Some(glitter),
        };
        proof {
            assert(in_circle(Vec2 { x: (target.x - TARGET_X) as i64, ..target }, TARGET_RADIUS as int));
            assert(rocket.velocity == launch_velocity(position, target, speed as int));
            assert(is_rocket(rocket));
        }
        let ghost before = self.particles@;
        self.particles.push(rocket);
        proof {
            assert(self.particles@.drop_last() =~= before);
        }
    }

    /// Launches one rocket, then each of two more with a chance of three in
    /// ten.
    fn launch_fireworks(&mut self)
        requires
            old(self).wf(),
        ensures
            final(self).wf(),
            old(self).particles@.len() + 1 <= final(self).particles@.len() <= old(self).particles@.len() + 3,
            final(self).particles@.take(old(self).particles@.len() as int) == old(self).particles@,
            forall|j: int|
                old(self).particles@.len() <= j < final(self).particles@.len() ==> is_rocket(#[trigger] final(self).particles@[j]),
            final(self).smoke_tiles == old(self).smoke_tiles,
            final(self).time == old(self).time,
            final(self).new_firework_timer == old(self).new_firework_timer,
            final(self).new_firework_timer_length == old(self).new_firework_timer_length,
    {
        let ghost start = self.particles@;
        self.spawn_firework();
        let mut extra: u32 = 0;
        while extra < 2
            invariant
                extra <= 2,
                self.wf(),
                start.len() + 1 <= self.particles@.len() <= start.len() + 1 + extra,
                self.particles@.take(start.len() as int) == start,
                forall|j: int| start.len() <= j < self.particles@.len() ==> is_rocket(#[trigger] self.particles@[j]),
                self.smoke_tiles == old(self).smoke_tiles,
                self.time == old(self).time,
                self.new_firework_timer == old(self).new_firework_timer,
                self.new_firework_timer_length == old(self).new_firework_timer_length,
            decreases 2 - extra,
        {
            if random_range(0, 10) < 3 {
                let ghost prev = self.particles@;
                self.spawn_firework();
                proof {
                    assert(self.particles@.take(start.len() as int) =~= prev.take(start.len() as int));
                    assert forall|j: int| start.len() <= j < self.particles@.len() implies is_rocket(#[trigger] self.particles@[j]) by {
                        if j < prev.len() {
                            assert(self.particles@[j] == self.particles@.drop_last()[j]);
                        }
                    }
                }
            }
            extra = extra + 1;
        }
    }

    /// Advances the simulation by `dt` microseconds: the smoke decays, every
    /// particle gives off smoke and flies, expired particles release what
    /// they contain, and when the launch timer runs out it is reset and one
    /// to three rockets go up. The clock saturates.
    pub fn update(&mut self, dt: u64)
        requires
            old(self).wf(),
        ensures
            final(self).wf(),
            final(self).time == old(self).time.saturating_add(dt),
            smoke_view(final(self).smoke_tiles@) == emitted_grid(
                decayed_grid(smoke_view(old(self).smoke_tiles@), dt),
                old(self).particles@,
                dt,
            ),
            final(self).new_firework_timer_length == old(self).new_firework_timer_length,
            final(self).new_firework_timer == next_firework_timer(
                old(self).new_firework_timer as int,
                old(self).new_firework_timer_length as int,
                dt as int,
            ),
            ({
                let flown = old(self).particles@.map_values(|p: Particle| moved(p, dt as int));
                let m = survivors(flown, dt).len() + released_charges(flown, dt).len();
                &&& m <= final(self).particles@.len()
                &&& expiry_result(flown, dt, final(self).particles@.take(m as int))
                &&& (old(self).new_firework_timer - dt > 0 ==> final(self).particles@.len() == m)
                &&& (old(self).new_firework_timer - dt <= 0 ==> m + 1 <= final(self).particles@.len() <= m + 3)
                &&& forall|j: int| m <= j < final(self).particles@.len() ==> is_rocket(#[trigger] final(self).particles@[j])
            }),
    {
        self.decay_smoke(dt);
        self.emit_smoke(dt);
        self.fly_particles(dt);
        let ghost flown = self.particles@;
        self.expire_particles(dt);
        let ghost expired = self.particles@;
        let left: i128 = self.new_firework_timer as i128 - dt as i128;
        if left <= 0 {
            self.new_firework_timer = self.new_firework_timer_length as i64;
            self.launch_fireworks();
        } else {
            self.new_firework_timer = left as i64;
        }
        proof {
            assert(self.particles@.take(expired.len() as int) == expired);
        }
        self.time = self.time.saturating_add(dt);
    }
}

} // verus!
