use vstd::prelude::*;

use crate::random::random_range;
use crate::state::{COORD_LIMIT, POSITION_SCALE};
use crate::{NUM_COLUMNS, NUM_ROWS};

verus! {

/// A point or a velocity, in `POSITION_SCALE` units per cell (per second for
/// a velocity).
#[derive(Clone, Copy, Debug, PartialEq, Eq, Structural)]
pub struct Vec2 {
    pub x: i64,
    pub y: i64,
}

impl Vec2 {
    /// Both coordinates lie within `COORD_LIMIT`.
    pub open spec fn bounded(&self) -> bool {
        -COORD_LIMIT <= self.x <= COORD_LIMIT && -COORD_LIMIT <= self.y <= COORD_LIMIT
    }
}

/// `v` cut down to `COORD_LIMIT` in magnitude.
pub open spec fn clamp_coord(v: int) -> int {
    if v > COORD_LIMIT {
        COORD_LIMIT as int
    } else if v < -COORD_LIMIT {
        -COORD_LIMIT
    } else {
        v
    }
}

/// `a / b`, rounded toward zero.
pub open spec fn div_toward_zero(a: int, b: int) -> int {
    if a >= 0 {
        a / b
    } else {
        -((-a) / b)
    }
}

/// The cell coordinate of a position coordinate, rounded toward zero.
pub open spec fn tile_coord(v: int) -> int {
    div_toward_zero(v, POSITION_SCALE as int)
}

/// The cell that holds `position`, if it lies on the grid.
pub open spec fn tile_of(position: Vec2) -> Option<(usize, usize)> {
    let (tx, ty) = (tile_coord(position.x as int), tile_coord(position.y as int));
    if 0 <= tx < NUM_COLUMNS && 0 <= ty < NUM_ROWS {
        Some((tx as usize, ty as usize))
    } else {
        None
    }
}

/// The cell that holds `position`, or `None` when it is off the grid.
pub fn get_tile_pos(position: Vec2) -> (r: Option<(usize, usize)>)
    ensures
        r == tile_of(position),
{
    let tile_x: i64 = if position.x >= 0 {
        position.x / POSITION_SCALE
    } else {
        -((-(position.x as i128)) / (POSITION_SCALE as i128)) as i64
    };
    let tile_y: i64 = if position.y >= 0 {
        position.y / POSITION_SCALE
    } else {
        -((-(position.y as i128)) / (POSITION_SCALE as i128)) as i64
    };
    if 0 <= tile_x && tile_x < NUM_COLUMNS as i64 && 0 <= tile_y && tile_y < NUM_ROWS as i64 {
        Some((tile_x as usize, tile_y as usize))
    } else {
        None
    }
}

/// `r` is the integer square root of `n`.
pub open spec fn is_isqrt(n: int, r: int) -> bool {
    0 <= r && r * r <= n < (r + 1) * (r + 1)
}

/// The integer square root of `n`, for `n` below `2^100`.
pub fn isqrt(n: u128) -> (r: u128)
    requires
        n < 0x10_0000_0000_0000_0000_0000_0000,
    ensures
        is_isqrt(n as int, r as int),
        r < 0x4_0000_0000_0000,
{
    let mut lo: u128 = 0;
    let mut hi: u128 = 0x4_0000_0000_0000;
    assert(hi * hi == 0x10_0000_0000_0000_0000_0000_0000);
    while hi - lo > 1
        invariant
            lo < hi <= 0x4_0000_0000_0000,
            lo * lo <= n,
            n < hi * hi,
        decreases hi - lo,
    {
        let mid: u128 = lo + (hi - lo) / 2;
        assert(mid * mid <= hi * hi) by (nonlinear_arith)
            requires
                mid < hi,
        ;
        assert(hi * hi <= 0x4_0000_0000_0000 * 0x4_0000_0000_0000) by (nonlinear_arith)
            requires
                hi <= 0x4_0000_0000_0000,
        ;
        if mid * mid <= n {
            lo = mid;
        } else {
            hi = mid;
        }
    }
    lo
}

/// `speed` times the component `c` of a vector of length `len`, rounded
/// toward zero.
pub open spec fn scaled_component(speed: int, c: int, len: int) -> int {
    div_toward_zero(speed * c, len)
}

fn scale_component(speed: u64, c: i64, len: u128) -> (r: i64)
    requires
        speed <= 0xFFFF_FFFF,
        -(len as int) <= c <= len,
        0 < len,
        len <= 2 * COORD_LIMIT,
    ensures
        r == scaled_component(speed as int, c as int, len as int),
        -(speed as int) <= r <= speed,
{
    let magnitude: u128 = if c >= 0 { c as u128 } else { (-(c as i128)) as u128 };
    assert(magnitude * speed <= len * speed) by (nonlinear_arith)
        requires
            magnitude <= len,
    ;
    assert(len * speed <= 0x200_0000_0000 * 0xFFFF_FFFF) by (nonlinear_arith)
        requires
            len <= 0x200_0000_0000,
            speed <= 0xFFFF_FFFF,
    ;
    let q: u128 = (magnitude * (speed as u128)) / len;
    assert(q <= speed) by (nonlinear_arith)
        requires
            q == (magnitude * speed) as int / len as int,
            magnitude <= len,
            0 < len,
    ;
    if c >= 0 {
        assert(speed as int * c as int == magnitude * speed) by (nonlinear_arith)
            requires
                magnitude == c,
        ;
        q as i64
    } else {
        assert(-(speed as int * c as int) == magnitude * speed) by (nonlinear_arith)
            requires
                magnitude == -c,
        ;
        -(q as i64)
    }
}

/// A vector of length `speed`, up to rounding, along `direction`; zero when
/// `direction` is zero.
pub open spec fn along(direction: Vec2, speed: int) -> Vec2 {
    let n = direction.x * direction.x + direction.y * direction.y;
    let len = choose|r: int| is_isqrt(n, r);
    if len == 0 {
        Vec2 { x: 0, y: 0 }
    } else {
        Vec2 {
            x: scaled_component(speed, direction.x as int, len) as i64,
            y: scaled_component(speed, direction.y as int, len) as i64,
        }
    }
}

proof fn lemma_isqrt_unique(n: int, r: int)
    requires
        is_isqrt(n, r),
    ensures
        (choose|s: int| is_isqrt(n, s)) == r,
{
    let s = choose|s: int| is_isqrt(n, s);
    assert(is_isqrt(n, s));
    if s < r {
        assert((s + 1) * (s + 1) <= r * r) by (nonlinear_arith)
            requires
                0 <= s < r,
        ;
    } else if r < s {
        assert((r + 1) * (r + 1) <= s * s) by (nonlinear_arith)
            requires
                0 <= r < s,
        ;
    }
}

/// The vector of length `speed`, up to rounding, that points along
/// `direction`; zero when `direction` is zero.
pub fn scale_to_length(direction: Vec2, speed: u64) -> (v: Vec2)
    requires
        direction.bounded(),
        speed <= 0xFFFF_FFFF,
    ensures
        v == along(direction, speed as int),
        -(speed as int) <= v.x <= speed,
        -(speed as int) <= v.y <= speed,
{
    let ax: u128 = if direction.x >= 0 { direction.x as u128 } else { (-(direction.x as i128)) as u128 };
    let ay: u128 = if direction.y >= 0 { direction.y as u128 } else { (-(direction.y as i128)) as u128 };
    assert(ax * ax <= 0x100_0000_0000 * 0x100_0000_0000) by (nonlinear_arith)
        requires
            ax <= 0x100_0000_0000,
    ;
    assert(ay * ay <= 0x100_0000_0000 * 0x100_0000_0000) by (nonlinear_arith)
        requires
            ay <= 0x100_0000_0000,
    ;
    let n: u128 = ax * ax + ay * ay;
    assert(n == direction.x * direction.x + direction.y * direction.y) by (nonlinear_arith)
        requires
            ax == direction.x || ax == -direction.x,
            ay == direction.y || ay == -direction.y,
            n == ax * ax + ay * ay,
    ;
    let len = isqrt(n);
    proof {
        lemma_isqrt_unique(n as int, len as int);
    }
    if len == 0 {
        return Vec2 { x: 0, y: 0 };
    }
    assert(ax <= len && ay <= len) by (nonlinear_arith)
        requires
            n == ax * ax + ay * ay,
            n < (len + 1) * (len + 1),
            ax >= 0,
            ay >= 0,
            len >= 0,
    ;
    assert(len <= COORD_LIMIT * 2) by (nonlinear_arith)
        requires
            len * len <= n,
            n <= 2 * (0x100_0000_0000 * 0x100_0000_0000),
            len >= 0,
    ;
    Vec2 {
        x: scale_component(speed, direction.x, len),
        y: scale_component(speed, direction.y, len),
    }
}

/// Radius of the square from which random directions are drawn.
pub const DIRECTION_RADIUS: i64 = 4096;

/// How many draws a rejection sampler makes before it settles for a default.
pub const MAX_DRAWS: u32 = 64;

/// `v` lies in the disc of radius `radius` about the origin.
pub open spec fn in_circle(v: Vec2, radius: int) -> bool {
    v.x * v.x + v.y * v.y <= radius * radius
}

/// `d` is a usable random direction: its length lies between half of
/// `DIRECTION_RADIUS` and `DIRECTION_RADIUS`.
pub open spec fn is_direction(d: Vec2) -> bool {
    let n = d.x * d.x + d.y * d.y;
    DIRECTION_RADIUS * DIRECTION_RADIUS <= 4 * n <= 4 * DIRECTION_RADIUS * DIRECTION_RADIUS
}

/// The square of `v`.
pub fn square(v: i64) -> (r: i128)
    requires
        -COORD_LIMIT * 2 <= v <= COORD_LIMIT * 2,
    ensures
        r == v * v,
        0 <= r <= 4 * COORD_LIMIT * COORD_LIMIT,
{
    assert(0 <= v * v <= 4 * COORD_LIMIT * COORD_LIMIT) by (nonlinear_arith)
        requires
            -COORD_LIMIT * 2 <= v <= COORD_LIMIT * 2,
    ;
    (v as i128) * (v as i128)
}

/// A value drawn uniformly from `-radius..=radius`.
fn random_signed(radius: u32) -> (v: i64)
    ensures
        -(radius as int) <= v <= radius,
{
    let r = random_range(0, 2 * (radius as u64) + 1);
    r as i64 - radius as i64
}

/// A point drawn uniformly from the disc of radius `radius` (in position
/// units) about the origin.
pub fn random_vec2_in_circle(radius: u32) -> (v: Vec2)
    ensures
        in_circle(v, radius as int),
        v.bounded(),
{
    let mut tries: u32 = 0;
    while tries < MAX_DRAWS
        decreases MAX_DRAWS - tries,
    {
        let x = random_signed(radius);
        let y = random_signed(radius);
        if square(x) + square(y) <= square(radius as i64) {
            return Vec2 { x, y };
        }
        tries = tries + 1;
    }
    Vec2 { x: 0, y: 0 }
}

/// A direction drawn uniformly over the angle, as a vector whose length lies
/// between half of `DIRECTION_RADIUS` and `DIRECTION_RADIUS`.
pub fn random_direction() -> (d: Vec2)
    ensures
        is_direction(d),
        d.bounded(),
{
    let mut tries: u32 = 0;
    while tries < MAX_DRAWS
        decreases MAX_DRAWS - tries,
    {
        let x = random_signed(DIRECTION_RADIUS as u32);
        let y = random_signed(DIRECTION_RADIUS as u32);
        let n: i128 = square(x) + square(y);
        if 2048 * 2048 <= n && n <= 4096 * 4096 {
            return Vec2 { x, y };
        }
        tries = tries + 1;
    }
    let d = Vec2 { x: DIRECTION_RADIUS, y: 0 };
    assert(d.x * d.x + d.y * d.y == 4096 * 4096) by (nonlinear_arith)
        requires
            d.x == 4096,
            d.y == 0,
    ;
    d
}

} // verus!
