use vstd::prelude::*;

verus! {

/// Fixed-point scale: `UNIT` stands for `1.0`.
pub const UNIT: i64 = 1_000_000;

/// Bound on the motion of a well-formed particle: `3|v| + 10|a|` per axis
/// stays within `3 * MOTION_LIMIT`, which damping never increases.
pub const MOTION_LIMIT: i64 = 1_000_000_000_000_000;

/// Colour channels are in millionths; `CHANNEL_FULL` is full intensity.
pub const CHANNEL_FULL: u32 = 1_000_000;

/// A particle whose alpha falls below this is expired.
pub const EXPIRED_ALPHA: u32 = 20_000;

pub open spec fn magnitude(v: int) -> int {
    if v < 0 { -v } else { v }
}

/// Acceleration damping by a factor of 0.7, truncated toward zero.
pub open spec fn damped(a: int) -> int {
    if a >= 0 { a * 7 / 10 } else { -((-a) * 7 / 10) }
}

/// Alpha fading by a factor of 0.995, rounded down.
pub open spec fn faded(alpha: int) -> int {
    alpha * 995 / 1000
}

/// Addition clamped to the range of `i64`.
pub open spec fn clamped_sum(p: int, v: int) -> int {
    if p + v > i64::MAX as int {
        i64::MAX as int
    } else if p + v < i64::MIN as int {
        i64::MIN as int
    } else {
        p + v
    }
}

pub open spec fn motion_bounded(v: int, a: int) -> bool {
    3 * magnitude(v) + 10 * magnitude(a) <= 3 * (MOTION_LIMIT as int)
}

#[derive(Clone, Copy, Debug, PartialEq, Eq, Structural)]
pub struct Vec2 {
    pub x: i64,
    pub y: i64,
}

impl Vec2 {
    pub open spec fn norm_sq(self) -> int {
        self.x * self.x + self.y * self.y
    }

    pub open spec fn is_zero(self) -> bool {
        self.x == 0 && self.y == 0
    }
}

#[derive(Clone, Copy, Debug, PartialEq, Eq, Structural)]
pub struct Rgba {
    pub r: u32,
    pub g: u32,
    pub b: u32,
    pub a: u32,
}

impl Rgba {
    pub open spec fn in_range(self) -> bool {
        self.r <= CHANNEL_FULL && self.g <= CHANNEL_FULL && self.b <= CHANNEL_FULL
            && self.a <= CHANNEL_FULL
    }
}

#[derive(Clone, Copy, Debug, PartialEq, Eq, Structural)]
pub struct Particle {
    pub height: i64,
    pub width: i64,
    pub position: Vec2,
    pub acceleration: Vec2,
    pub velocity: Vec2,
    pub color: Rgba,
}

impl Particle {
    pub open spec fn wf(self) -> bool {
        &&& motion_bounded(self.velocity.x as int, self.acceleration.x as int)
        &&& motion_bounded(self.velocity.y as int, self.acceleration.y as int)
        &&& self.color.in_range()
    }

    pub open spec fn is_expired(self) -> bool {
        self.color.a < EXPIRED_ALPHA
    }

    /// One tick of physics: velocity gains the acceleration, position gains
    /// the new velocity, acceleration is damped and alpha fades.
    pub open spec fn stepped(self) -> Particle {
        let vx = self.velocity.x + self.acceleration.x;
        let vy = self.velocity.y + self.acceleration.y;
        Particle {
            velocity: Vec2 { x: vx as i64, y: vy as i64 },
            position: Vec2 {
                x: clamped_sum(self.position.x as int, vx) as i64,
                y: clamped_sum(self.position.y as int, vy) as i64,
            },
            acceleration: Vec2 {
                x: damped(self.acceleration.x as int) as i64,
                y: damped(self.acceleration.y as int) as i64,
            },
            color: Rgba { a: faded(self.color.a as int) as u32, ..self.color },
            ..self
        }
    }

    /// Whether this particle is a fresh spawn in a world of the given bounds:
    /// on the bottom edge, at rest horizontally, rising at under two units
    /// per tick, accelerating downward at under 0.15 units per tick, four
    /// units square and white at alpha 0.99.
    pub open spec fn is_spawn(self, world_width: int, world_height: int) -> bool {
        &&& 0 <= self.position.x <= world_width
        &&& self.position.y == world_height
        &&& self.velocity.x == 0
        &&& -2 * UNIT <= self.velocity.y < 0
        &&& self.acceleration.x == 0
        &&& 0 <= self.acceleration.y < UNIT * 15 / 100
        &&& self.width == 4 * UNIT
        &&& self.height == 4 * UNIT
        &&& self.color == (Rgba { r: CHANNEL_FULL, g: CHANNEL_FULL, b: CHANNEL_FULL, a: 990_000 })
    }
}

proof fn lemma_damped_bounds(a: int)
    ensures
        10 * magnitude(damped(a)) <= 7 * magnitude(a),
        magnitude(damped(a)) <= magnitude(a),
        damped(a) * damped(a) <= a * a,
        a == 0 ==> damped(a) == 0,
{
    let m = magnitude(a);
    assert(10 * (m * 7 / 10) <= 7 * m) by (nonlinear_arith)
        requires m >= 0;
    assert(0 <= m * 7 / 10 <= m) by (nonlinear_arith)
        requires m >= 0;
    let d = m * 7 / 10;
    assert(d * d <= m * m) by (nonlinear_arith)
        requires 0 <= d <= m;
    assert(a * a == m * m) by (nonlinear_arith)
        requires m == magnitude(a);
    assert(damped(a) * damped(a) == d * d) by (nonlinear_arith)
        requires magnitude(damped(a)) == d;
}

fn damp(a: i64) -> (r: i64)
    requires
        magnitude(a as int) <= MOTION_LIMIT,
    ensures
        r == damped(a as int),
{
    if a >= 0 {
        a * 7 / 10
    } else {
        -((-a) * 7 / 10)
    }
}

fn advance_coordinate(p: i64, v: i64) -> (r: i64)
    ensures
        r == clamped_sum(p as int, v as int),
{
    if v > 0 && p > i64::MAX - v {
        i64::MAX
    } else if v < 0 && p < i64::MIN - v {
        i64::MIN
    } else {
        p + v
    }
}

impl Particle {
    /// A particle spawned at horizontal offset `x` on the bottom edge of a
    /// world `world_height` high, with the given upward speed and downward
    /// acceleration.
    pub fn spawn(x: i64, world_height: i64, y_velocity: i64, y_acceleration: i64) -> (p: Particle)
        requires
            -2 * UNIT <= y_velocity < 0,
            0 <= y_acceleration < UNIT * 15 / 100,
        ensures
            p.wf(),
            p.position == (Vec2 { x: x, y: world_height }),
            p.velocity == (Vec2 { x: 0, y: y_velocity }),
            p.acceleration == (Vec2 { x: 0, y: y_acceleration }),
            p.width == 4 * UNIT,
            p.height == 4 * UNIT,
            p.color == (Rgba { r: CHANNEL_FULL, g: CHANNEL_FULL, b: CHANNEL_FULL, a: 990_000 }),
    {
        Particle {
            height: 4 * UNIT,
            width: 4 * UNIT,
            position: Vec2 { x, y: world_height },
            velocity: Vec2 { x: 0, y: y_velocity },
            acceleration: Vec2 { x: 0, y: y_acceleration },
            color: Rgba { r: CHANNEL_FULL, g: CHANNEL_FULL, b: CHANNEL_FULL, a: 990_000 },
        }
    }

    /// Advances this particle by one tick.
    pub fn update(&mut self)
        requires
            old(self).wf(),
        ensures
            *final(self) == old(self).stepped(),
            final(self).wf(),
            final(self).color.a as int == faded(old(self).color.a as int),
            final(self).color.a <= old(self).color.a,
            final(self).acceleration.norm_sq() <= old(self).acceleration.norm_sq(),
            old(self).velocity.is_zero() && old(self).acceleration.is_zero() ==> {
                &&& final(self).position == old(self).position
                &&& final(self).acceleration == old(self).acceleration
            },
    {
        proof {
            lemma_damped_bounds(self.acceleration.x as int);
            lemma_damped_bounds(self.acceleration.y as int);
        }
        self.velocity = Vec2 {
            x: self.velocity.x + self.acceleration.x,
            y: self.velocity.y + self.acceleration.y,
        };
        self.position = Vec2 {
            x: advance_coordinate(self.position.x, self.velocity.x),
            y: advance_coordinate(self.position.y, self.velocity.y),
        };
        self.acceleration = Vec2 {
            x: damp(self.acceleration.x),
            y: damp(self.acceleration.y),
        };
        self.color.a = ((self.color.a as u64) * 995 / 1000) as u32;
    }
}

} // verus!
