use crate::entropy::{random_byte, random_flip, random_in_range};
use vstd::prelude::*;

verus! {

/// Upper limit on the viewport dimensions, the radius and the speed of a
/// ball. Keeping these three small makes every arithmetic step of the
/// simulation fit comfortably in `i64`.
pub const GEOM_LIMIT: i64 = 268435456;

/// Positions may drift past the viewport (the boundary check runs before the
/// move, and a bounce off another ball can push a ball outward repeatedly),
/// so they are only required to stay inside this wider band for a tick to be
/// taken.
pub const POS_LIMIT: i64 = 536870912;

/// An RGBA color with one byte per channel. Fixed at creation; the
/// simulation itself never reads it.
#[derive(Clone, Copy, Debug, PartialEq, Eq, Structural)]
pub struct Color {
    pub r: u8,
    pub g: u8,
    pub b: u8,
    pub a: u8,
}

/// One circular entity of the simulation.
///
/// `number` identifies the ball for the ball's lifetime; `x_add` and `y_add`
/// are the per-axis direction signs (`1` or `-1`); `speed` is the distance
/// moved along each axis per tick; `visible` starts `true` and, under the
/// disable policy, flips to `false` forever on a collision.
#[derive(Clone, Copy, Debug, PartialEq, Eq, Structural)]
pub struct Ball {
    pub number: usize,
    pub x: i64,
    pub y: i64,
    pub speed: i64,
    pub radius: i64,
    pub x_add: i64,
    pub y_add: i64,
    pub max_x: i64,
    pub max_y: i64,
    pub color: Color,
    pub visible: bool,
}

/// A unit sign times a nonnegative scalar lies between `-s` and `s`.
proof fn lemma_unit_mul(add: int, s: int)
    requires
        add == 1 || add == -1,
        0 <= s,
    ensures
        -s <= add * s <= s,
{
    assert(-s <= add * s <= s) by (nonlinear_arith)
        requires
            add == 1 || add == -1,
            0 <= s,
    {}
}

/// The square of a value bounded in magnitude by `c` is at most `c * c`,
/// and squares are nonnegative.
proof fn lemma_square_bound(v: int, c: int)
    requires
        -c <= v <= c,
    ensures
        0 <= v * v <= c * c,
{
    assert(0 <= v * v <= c * c) by (nonlinear_arith)
        requires
            -c <= v <= c,
    {}
}

impl Ball {
    /// Well-formedness: the geometry parameters are positive and bounded, and
    /// the direction signs are unit values. Positions are not constrained
    /// here: see `in_bounds`.
    pub open spec fn wf(self) -> bool {
        &&& 1 <= self.radius <= GEOM_LIMIT
        &&& 0 <= self.speed <= GEOM_LIMIT
        &&& 1 <= self.max_x <= GEOM_LIMIT
        &&& 1 <= self.max_y <= GEOM_LIMIT
        &&& self.x_add == 1 || self.x_add == -1
        &&& self.y_add == 1 || self.y_add == -1
    }

    /// The band of positions from which a tick may be taken.
    pub open spec fn in_bounds(self) -> bool {
        &&& -POS_LIMIT <= self.x <= POS_LIMIT
        &&& -POS_LIMIT <= self.y <= POS_LIMIT
    }

    /// The band a position can reach one tick after `in_bounds` held:
    /// wide enough that the collision test cannot overflow.
    pub open spec fn in_reached_bounds(self) -> bool {
        &&& -POS_LIMIT - GEOM_LIMIT <= self.x <= POS_LIMIT + GEOM_LIMIT
        &&& -POS_LIMIT - GEOM_LIMIT <= self.y <= POS_LIMIT + GEOM_LIMIT
    }

    /// A ball at `pos` touches or has crossed a wall of a `[0, max]` axis
    /// when its leading or trailing edge reaches either end.
    pub open spec fn hits_wall(pos: int, radius: int, max: int) -> bool {
        pos + radius >= max || pos - radius <= 0
    }

    /// The direction sign along one axis after the pre-move boundary check:
    /// flipped when the current position touches a wall, kept otherwise.
    pub open spec fn next_add(pos: int, radius: int, add: int, max: int) -> int {
        if Self::hits_wall(pos, radius, max) {
            -add
        } else {
            add
        }
    }

    /// The state one tick of movement produces: each axis first settles its
    /// direction sign against the pre-move position, then moves by
    /// `sign * speed`. Everything else is unchanged.
    pub open spec fn shift_spec(self) -> Ball {
        let nx_add = Self::next_add(self.x as int, self.radius as int, self.x_add as int, self.max_x as int);
        let ny_add = Self::next_add(self.y as int, self.radius as int, self.y_add as int, self.max_y as int);
        Ball {
            x: (self.x + nx_add * self.speed) as i64,
            y: (self.y + ny_add * self.speed) as i64,
            x_add: nx_add as i64,
            y_add: ny_add as i64,
            ..self
        }
    }

    /// Advance this ball by one tick: bounce off the viewport walls, then
    /// move. The boundary check uses the pre-move position, so a ball may
    /// come to rest on or past a wall for one tick before reversing.
    pub fn shift(&mut self)
        requires
            old(self).wf(),
            old(self).in_bounds(),
        ensures
            *final(self) == old(self).shift_spec(),
            final(self).wf(),
            final(self).in_reached_bounds(),
            final(self).visible == old(self).visible,
    {
        if self.x + self.radius >= self.max_x || self.x - self.radius <= 0 {
            self.x_add = -self.x_add;
        }
        if self.y + self.radius >= self.max_y || self.y - self.radius <= 0 {
            self.y_add = -self.y_add;
        }
        proof {
            lemma_unit_mul(self.x_add as int, self.speed as int);
            lemma_unit_mul(self.y_add as int, self.speed as int);
        }
        self.x = self.x + self.x_add * self.speed;
        self.y = self.y + self.y_add * self.speed;
    }

    /// Create a ball with randomized attributes: a position inside the
    /// viewport, a radius in `3..10`, a speed in `1..4` (with integer
    /// coordinates the smallest useful speed is one unit per tick), a random
    /// direction on each axis, and an opaque random color. The ball starts
    /// visible.
    pub fn new(number: usize, rng: &mut rand::rngs::ThreadRng, max_x: i64, max_y: i64) -> (b: Ball)
        requires
            1 <= max_x <= GEOM_LIMIT,
            1 <= max_y <= GEOM_LIMIT,
        ensures
            b.wf(),
            b.in_bounds(),
            b.number == number,
            b.max_x == max_x,
            b.max_y == max_y,
            0 <= b.x < max_x,
            0 <= b.y < max_y,
            3 <= b.radius < 10,
            1 <= b.speed < 4,
            b.visible,
    {
        Ball {
            number,
            x: random_in_range(rng, 0, max_x),
            y: random_in_range(rng, 0, max_y),
            speed: random_in_range(rng, 1, 4),
            radius: random_in_range(rng, 3, 10),
            x_add: if random_flip(rng) { 1 } else { -1 },
            y_add: if random_flip(rng) { 1 } else { -1 },
            max_x,
            max_y,
            color: Color { r: random_byte(rng), g: random_byte(rng), b: random_byte(rng), a: 255 },
            visible: true,
        }
    }

    /// The state `reverse` produces: both direction signs negated.
    pub open spec fn reverse_spec(self) -> Ball {
        Ball { x_add: (-self.x_add) as i64, y_add: (-self.y_add) as i64, ..self }
    }

    /// Invert the motion direction on both axes. Used by the bounce policy
    /// when this ball collides with another.
    pub fn reverse(&mut self)
        requires
            old(self).wf(),
        ensures
            *final(self) == old(self).reverse_spec(),
            final(self).wf(),
    {
        self.x_add = -self.x_add;
        self.y_add = -self.y_add;
    }

    /// The exact circle-overlap predicate: two distinct, visible balls
    /// collide when the Euclidean distance of their centers is at most the
    /// sum of their radii. Over integers this is stated with both sides
    /// squared, which is equivalent since both are nonnegative.
    pub open spec fn collides_spec(self, other: Ball) -> bool {
        &&& self.number != other.number
        &&& self.visible
        &&& other.visible
        &&& (self.x - other.x) * (self.x - other.x) + (self.y - other.y) * (self.y - other.y)
            <= (self.radius + other.radius) * (self.radius + other.radius)
    }

    /// Whether this ball and `other` currently collide.
    pub fn collides(&self, other: &Ball) -> (r: bool)
        requires
            self.wf(),
            other.wf(),
            self.in_reached_bounds(),
            other.in_reached_bounds(),
        ensures
            r == self.collides_spec(*other),
    {
        let x_dist: i64 = self.x - other.x;
        let y_dist: i64 = self.y - other.y;
        proof {
            lemma_square_bound(x_dist as int, 2 * (POS_LIMIT + GEOM_LIMIT) as int);
            lemma_square_bound(y_dist as int, 2 * (POS_LIMIT + GEOM_LIMIT) as int);
            lemma_square_bound((self.radius + other.radius) as int, 2 * GEOM_LIMIT as int);
        }
        let dist_sq: i64 = x_dist * x_dist + y_dist * y_dist;
        let radii: i64 = self.radius + other.radius;

        self.number != other.number && self.visible && other.visible && dist_sq <= radii * radii
    }

    /// The state reached after `n` ticks of movement, with no collision
    /// resolution in between.
    pub open spec fn iterate_shift(b: Ball, n: nat) -> Ball
        decreases n,
    {
        if n == 0 {
            b
        } else {
            Self::iterate_shift(b, (n - 1) as nat).shift_spec()
        }
    }

    /// Where undisturbed straight-line motion puts the horizontal position
    /// after `k` ticks.
    pub open spec fn line_x(b: Ball, k: int) -> int {
        b.x + k * (b.x_add * b.speed)
    }

    /// Where undisturbed straight-line motion puts the vertical position
    /// after `k` ticks.
    pub open spec fn line_y(b: Ball, k: int) -> int {
        b.y + k * (b.y_add * b.speed)
    }
}

/// Movement itself never touches visibility: one tick leaves `visible` as it
/// was, whatever the position. (Only collision resolution may change it.)
pub proof fn lemma_shift_keeps_visible(b: Ball)
    ensures
        b.shift_spec().visible == b.visible,
{
}

/// Free motion is linear: as long as neither axis touches a wall, the
/// position after `n` ticks is the initial position plus
/// `n * direction * speed` on each axis, and the direction signs and
/// visibility are unchanged.
pub proof fn lemma_straight_line_motion(b: Ball, n: nat)
    requires
        b.wf(),
        forall|k: int|
            0 <= k < n ==> !Ball::hits_wall(#[trigger] Ball::line_x(b, k), b.radius as int, b.max_x as int),
        forall|k: int|
            0 <= k < n ==> !Ball::hits_wall(#[trigger] Ball::line_y(b, k), b.radius as int, b.max_y as int),
    ensures
        Ball::iterate_shift(b, n).x == Ball::line_x(b, n as int),
        Ball::iterate_shift(b, n).y == Ball::line_y(b, n as int),
        Ball::iterate_shift(b, n).x_add == b.x_add,
        Ball::iterate_shift(b, n).y_add == b.y_add,
        Ball::iterate_shift(b, n).visible == b.visible,
        Ball::iterate_shift(b, n).radius == b.radius,
        Ball::iterate_shift(b, n).speed == b.speed,
        Ball::iterate_shift(b, n).max_x == b.max_x,
        Ball::iterate_shift(b, n).max_y == b.max_y,
    decreases n,
{
    if n > 0 {
        let m = (n - 1) as nat;
        lemma_straight_line_motion(b, m);
        let prev = Ball::iterate_shift(b, m);
        lemma_unit_mul(b.x_add as int, b.speed as int);
        lemma_unit_mul(b.y_add as int, b.speed as int);
        assert(m * (b.x_add * b.speed) + b.x_add * b.speed == n * (b.x_add * b.speed))
            by (nonlinear_arith)
            requires
                m + 1 == n,
        {}
        assert(m * (b.y_add * b.speed) + b.y_add * b.speed == n * (b.y_add * b.speed))
            by (nonlinear_arith)
            requires
                m + 1 == n,
        {}
        assert(!Ball::hits_wall(Ball::line_x(b, m as int), b.radius as int, b.max_x as int));
        assert(!Ball::hits_wall(Ball::line_y(b, m as int), b.radius as int, b.max_y as int));
    }
}

/// Boundary reflection: a ball whose leading edge has reached the right wall
/// before a tick flips its horizontal direction exactly once that tick, and
/// does not flip it again on the next tick unless the wall condition holds
/// again at the new position.
pub proof fn lemma_boundary_reflection(b: Ball)
    requires
        b.wf(),
        b.x + b.radius >= b.max_x,
    ensures
        b.shift_spec().x_add == -b.x_add,
        !Ball::hits_wall(b.shift_spec().x as int, b.radius as int, b.max_x as int)
            ==> b.shift_spec().shift_spec().x_add == b.shift_spec().x_add,
{
}

/// The collision predicate is symmetric in its two arguments.
pub proof fn lemma_collision_symmetry(a: Ball, b: Ball)
    ensures
        a.collides_spec(b) == b.collides_spec(a),
{
    assert((a.x - b.x) * (a.x - b.x) == (b.x - a.x) * (b.x - a.x)) by (nonlinear_arith);
    assert((a.y - b.y) * (a.y - b.y) == (b.y - a.y) * (b.y - a.y)) by (nonlinear_arith);
}

/// No ball collides with itself: the identity check excludes the pair.
pub proof fn lemma_no_self_collision(a: Ball)
    ensures
        !a.collides_spec(a),
{
}

/// An invisible ball is silent: it takes part in no collision, in either
/// role, and movement never brings it back.
pub proof fn lemma_disabled_is_silent(b: Ball, other: Ball)
    requires
        !b.visible,
    ensures
        !b.collides_spec(other),
        !other.collides_spec(b),
        !b.shift_spec().visible,
{
}

} // verus!
