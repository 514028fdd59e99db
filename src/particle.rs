use vstd::prelude::*;

use crate::frame::{TermColour, Tile};
use crate::geometry::{
    along, clamp_coord, div_toward_zero, is_direction, scale_to_length, square, Vec2,
};
use crate::state::{
    shade, simulation_colour_to_crossterm_colour, SimulationColour, BLUR_SPEED, COORD_LIMIT,
    GRAVITY_Y, MICROS_PER_SECOND, SMOKE_MAX_DENSITY,
};

verus! {

/// A particle waiting inside another one, released when that one expires.
pub struct ContainedParticle {
    pub colour: SimulationColour,
    /// Smoke given off per second, in millionths of density.
    pub base_smoke_emission: u32,
    pub contained_particles: Option<Vec<ContainedParticle>>,
    /// Speed on release, in position units per second.
    pub explosion_speed: u32,
    /// Lifetime, in microseconds.
    pub timer_length: u32,
}

/// A moving point of light.
pub struct Particle {
    pub position: Vec2,
    pub velocity: Vec2,
    /// Smoke given off per second at birth, in millionths of density.
    pub base_smoke_emission: u32,
    /// Lifetime left, in microseconds.
    pub time_remaining: i64,
    pub colour: SimulationColour,
    /// Whole lifetime, in microseconds.
    pub timer_length: u32,
    pub contained_particles: Option<Vec<ContainedParticle>>,
}

impl Particle {
    /// Position and velocity are bounded, and no more lifetime is left than
    /// the particle started with.
    pub open spec fn wf(&self) -> bool {
        &&& self.position.bounded()
        &&& self.velocity.bounded()
        &&& self.time_remaining <= self.timer_length
    }
}

/// The particles that `contained` releases, or none.
pub open spec fn charges(contained: Option<Vec<ContainedParticle>>) -> Seq<ContainedParticle> {
    match contained {
        Some(v) => v@,
        None => seq![],
    }
}

/// The fifth power of `m`.
pub open spec fn pow5(m: int) -> int {
    m * m * m * m * m
}

/// The share of its lifetime that a particle has left, in thousandths,
/// rounded down; zero for a particle without lifetime.
pub open spec fn remaining_per_mille(time_remaining: int, timer_length: int) -> int {
    if timer_length <= 0 || time_remaining <= 0 {
        0
    } else if time_remaining >= timer_length {
        1000
    } else {
        time_remaining * 1000 / timer_length
    }
}

/// `m` is the emission multiplier, in thousandths, of a particle with the
/// given share of its lifetime left: the share to the power 0.4, that is the
/// fifth root of its square, rounded down.
pub open spec fn is_emission_multiplier(per_mille: int, m: int) -> bool {
    let target = per_mille * per_mille * 1000000000;
    0 <= m && pow5(m) <= target < pow5(m + 1)
}

fn fifth_power(m: u64) -> (r: u64)
    requires
        m <= 1000,
    ensures
        r == pow5(m as int),
{
    assert(m * m <= 1000000) by (nonlinear_arith)
        requires
            m <= 1000,
    ;
    assert(m * m * m <= 1000000000) by (nonlinear_arith)
        requires
            m <= 1000,
            m * m <= 1000000,
    ;
    assert(m * m * m * m <= 1000000000000) by (nonlinear_arith)
        requires
            m <= 1000,
            m * m * m <= 1000000000,
    ;
    assert(m * m * m * m * m <= 1000000000000000) by (nonlinear_arith)
        requires
            m <= 1000,
            m * m * m * m <= 1000000000000,
    ;
    m * m * m * m * m
}

/// How strongly a particle still smokes, in thousandths: the share of its
/// lifetime left, to the power 0.4. Smoke is thick at birth and thins out.
pub fn emission_multiplier(time_remaining: i64, timer_length: u32) -> (m: u64)
    ensures
        is_emission_multiplier(remaining_per_mille(time_remaining as int, timer_length as int), m as int),
        m <= 1000,
{
    let per_mille: u64 = if timer_length == 0 || time_remaining <= 0 {
        0
    } else if time_remaining >= timer_length as i64 {
        1000
    } else {
        ((time_remaining as u64) * 1000) / (timer_length as u64)
    };
    assert(per_mille <= 1000) by (nonlinear_arith)
        requires
            per_mille == 0 || per_mille == 1000 || (per_mille == (time_remaining * 1000) / (
            timer_length as int) && 0 < time_remaining < timer_length),
    ;
    assert(per_mille * per_mille <= 1000000) by (nonlinear_arith)
        requires
            per_mille <= 1000,
    ;
    let target: u64 = per_mille * per_mille * 1000000000;
    let mut lo: u64 = 0;
    let mut hi: u64 = 1001;
    assert(pow5(1001) > 1000000 * 1000000000) by (nonlinear_arith);
    assert(pow5(0) == 0);
    while hi - lo > 1
        invariant
            lo < hi <= 1001,
            pow5(lo as int) <= target,
            target < pow5(hi as int),
            target <= 1000000 * 1000000000,
        decreases hi - lo,
    {
        let mid: u64 = lo + (hi - lo) / 2;
        if fifth_power(mid) <= target {
            lo = mid;
        } else {
            hi = mid;
        }
    }
    lo
}

/// Smoke given off over `dt` microseconds by a particle that smokes
/// `base` millionths per second at birth and now at `multiplier`
/// thousandths of that, capped at `SMOKE_MAX_DENSITY`.
pub open spec fn emission_amount(base: int, multiplier: int, dt: int) -> int {
    let raw = base * multiplier * dt / 1000000000;
    if raw > SMOKE_MAX_DENSITY {
        SMOKE_MAX_DENSITY as int
    } else {
        raw
    }
}

/// The smoke a particle gives off over `dt` microseconds, capped at
/// `SMOKE_MAX_DENSITY`.
pub fn particle_emission(base: u32, multiplier: u64, dt: u64) -> (amount: u64)
    requires
        multiplier <= 1000,
    ensures
        amount == emission_amount(base as int, multiplier as int, dt as int),
{
    assert(base * multiplier <= 0xFFFF_FFFF * 1000) by (nonlinear_arith)
        requires
            base <= 0xFFFF_FFFF,
            multiplier <= 1000,
    ;
    assert(base * multiplier * dt <= 0xFFFF_FFFF * 1000 * 0xFFFF_FFFF_FFFF_FFFF) by (nonlinear_arith)
        requires
            base * multiplier <= 0xFFFF_FFFF * 1000,
            dt <= 0xFFFF_FFFF_FFFF_FFFF,
    ;
    let raw: u128 = (base as u128) * (multiplier as u128) * (dt as u128) / 1000000000;
    if raw > SMOKE_MAX_DENSITY as u128 {
        SMOKE_MAX_DENSITY
    } else {
        raw as u64
    }
}

/// The glyph that shows a particle moving at `v`: a dot below
/// `BLUR_SPEED`, else a line along the direction of motion, taken to the
/// nearest of the eight compass points (`y` grows downward).
pub open spec fn particle_icon(v: Vec2) -> char {
    let (ax, ay) = (if v.x >= 0 { v.x as int } else { -v.x }, if v.y >= 0 { v.y as int } else { -v.y });
    if ax * ax + ay * ay < BLUR_SPEED * BLUR_SPEED {
        '\u{2219}'
    } else if (ax + ay) * (ax + ay) < 2 * (ax * ax) {
        '-'
    } else if (ax + ay) * (ax + ay) < 2 * (ay * ay) {
        '|'
    } else if (v.x > 0) == (v.y > 0) {
        '\\'
    } else {
        '/'
    }
}

/// The cell that shows a particle: its glyph in the bright shade of its
/// colour, on blue.
pub open spec fn particle_tile(p: Particle) -> Tile {
    Tile {
        icon: particle_icon(p.velocity),
        background_colour: TermColour::Blue,
        foreground_colour: shade(p.colour, false),
    }
}

/// The glyph for a particle moving at `v`.
pub fn particle_icon_for(v: Vec2) -> (c: char)
    requires
        v.bounded(),
    ensures
        c == particle_icon(v),
{
    let ax: i128 = if v.x >= 0 { v.x as i128 } else { -(v.x as i128) };
    let ay: i128 = if v.y >= 0 { v.y as i128 } else { -(v.y as i128) };
    let sx = square(ax as i64);
    let sy = square(ay as i64);
    let s = square((ax + ay) as i64);
    assert(BLUR_SPEED * BLUR_SPEED == 268435456);
    if sx + sy < 268435456 {
        '\u{2219}'
    } else if s < 2 * sx {
        '-'
    } else if s < 2 * sy {
        '|'
    } else if (v.x > 0) == (v.y > 0) {
        '\\'
    } else {
        '/'
    }
}

/// The cell that shows `p`.
pub fn particle_tile_for(p: &Particle) -> (t: Tile)
    requires
        p.wf(),
    ensures
        t == particle_tile(*p),
{
    Tile {
        icon: particle_icon_for(p.velocity),
        background_colour: TermColour::Blue,
        foreground_colour: simulation_colour_to_crossterm_colour(p.colour, false),
    }
}

/// `v` moved on at `rate` per second for `dt` microseconds, rounded toward
/// zero, and kept within `COORD_LIMIT`.
pub open spec fn advanced(v: int, rate: int, dt: int) -> int {
    clamp_coord(v + div_toward_zero(rate * dt, MICROS_PER_SECOND as int))
}

/// Moves `v` on at `rate` per second for `dt` microseconds.
pub fn advance_coord(v: i64, rate: i64, dt: u64) -> (r: i64)
    requires
        -COORD_LIMIT <= v <= COORD_LIMIT,
        -COORD_LIMIT <= rate <= COORD_LIMIT,
    ensures
        r == advanced(v as int, rate as int, dt as int),
        -COORD_LIMIT <= r <= COORD_LIMIT,
{
    let magnitude: u128 = if rate >= 0 { rate as u128 } else { (-(rate as i128)) as u128 };
    assert(magnitude * dt <= 0x100_0000_0000 * 0xFFFF_FFFF_FFFF_FFFF) by (nonlinear_arith)
        requires
            magnitude <= 0x100_0000_0000,
            dt <= 0xFFFF_FFFF_FFFF_FFFF,
    ;
    let step: u128 = magnitude * (dt as u128) / (MICROS_PER_SECOND as u128);
    assert(rate * dt == if rate >= 0 { magnitude * dt } else { -(magnitude * dt) }) by (nonlinear_arith)
        requires
            magnitude == if rate >= 0 { rate as int } else { -rate },
    ;
    let moved: i128 = if rate >= 0 {
        v as i128 + step as i128
    } else {
        v as i128 - step as i128
    };
    if moved > COORD_LIMIT as i128 {
        COORD_LIMIT
    } else if moved < -(COORD_LIMIT as i128) {
        -COORD_LIMIT
    } else {
        moved as i64
    }
}

/// `p` after `dt` microseconds of flight: gravity acts on its velocity, then
/// the new velocity on its position.
pub open spec fn moved(p: Particle, dt: int) -> Particle {
    let velocity = Vec2 {
        x: advanced(p.velocity.x as int, 0, dt) as i64,
        y: advanced(p.velocity.y as int, GRAVITY_Y as int, dt) as i64,
    };
    let position = Vec2 {
        x: advanced(p.position.x as int, velocity.x as int, dt) as i64,
        y: advanced(p.position.y as int, velocity.y as int, dt) as i64,
    };
    Particle { position, velocity, ..p }
}

impl Particle {
    /// Flies the particle for `dt` microseconds.
    pub fn fly(&mut self, dt: u64)
        requires
            old(self).wf(),
        ensures
            final(self).wf(),
            *final(self) == moved(*old(self), dt as int),
    {
        self.velocity.x = advance_coord(self.velocity.x, 0, dt);
        self.velocity.y = advance_coord(self.velocity.y, GRAVITY_Y, dt);
        self.position.x = advance_coord(self.position.x, self.velocity.x, dt);
        self.position.y = advance_coord(self.position.y, self.velocity.y, dt);
    }
}

/// The particle that `charge` becomes when released at `position`, flying
/// off along `direction`.
pub open spec fn released(charge: ContainedParticle, position: Vec2, direction: Vec2) -> Particle {
    Particle {
        position,
        velocity: along(direction, charge.explosion_speed as int),
        base_smoke_emission: charge.base_smoke_emission,
        time_remaining: charge.timer_length as i64,
        colour: charge.colour,
        timer_length: charge.timer_length,
        contained_particles: charge.contained_particles,
    }
}

impl ContainedParticle {
    /// Turns this charge into a live particle at `position`, moving at its
    /// explosion speed along `direction`.
    pub fn release(self, position: Vec2, direction: Vec2) -> (p: Particle)
        requires
            position.bounded(),
            is_direction(direction),
            direction.bounded(),
        ensures
            p == released(self, position, direction),
            p.wf(),
    {
        let velocity = scale_to_length(direction, self.explosion_speed as u64);
        Particle {
            position,
            velocity,
            base_smoke_emission: self.base_smoke_emission,
            time_remaining: self.timer_length as i64,
            colour: self.colour,
            timer_length: self.timer_length,
            contained_particles: self.contained_particles,
        }
    }
}

} // verus!
