//! The simulation: a fixed set of balls advanced tick by tick inside one
//! viewport, with an O(N^2) pairwise collision scan and a configurable
//! resolution policy.

use crate::ball::{Ball, GEOM_LIMIT, POS_LIMIT};
use vstd::prelude::*;

verus! {

/// What happens to a ball that collided this tick: it is either hidden
/// forever or bounced straight back. Chosen once, at construction.
#[derive(Clone, Copy, Debug, PartialEq, Eq, Structural)]
pub enum Policy {
    Disable,
    Bounce,
}

/// The state collision resolution produces for one ball: hidden under the
/// disable policy, direction-inverted under the bounce policy.
pub open spec fn resolved_spec(b: Ball, policy: Policy) -> Ball {
    match policy {
        Policy::Disable => Ball { visible: false, ..b },
        Policy::Bounce => b.reverse_spec(),
    }
}

/// Apply the collision policy to one ball.
pub fn resolve_collision(b: &mut Ball, policy: Policy)
    requires
        old(b).wf(),
    ensures
        *final(b) == resolved_spec(*old(b), policy),
        final(b).wf(),
{
    match policy {
        Policy::Disable => {
            b.visible = false;
        },
        Policy::Bounce => {
            b.reverse();
        },
    }
}

/// The ball at index `i` takes part in some collision of the current tick:
/// another visible ball overlaps it. The predicate itself excludes the pair
/// of a ball with itself.
pub open spec fn colliding_at(balls: Seq<Ball>, i: int) -> bool {
    exists|j: int| 0 <= j < balls.len() && balls[i].collides_spec(#[trigger] balls[j])
}

/// The whole simulation: the entity list, the viewport bounds every ball
/// shares, and the collision policy.
pub struct Simulation {
    pub balls: Vec<Ball>,
    pub max_x: i64,
    pub max_y: i64,
    pub policy: Policy,
}

impl Simulation {
    /// Well-formedness: bounded viewport, every ball well-formed, numbered
    /// by its index, and agreeing with the shared viewport.
    pub open spec fn wf(self) -> bool {
        &&& 1 <= self.max_x <= GEOM_LIMIT
        &&& 1 <= self.max_y <= GEOM_LIMIT
        &&& forall|i: int| 0 <= i < self.balls.len() ==> (#[trigger] self.balls[i]).wf()
        &&& forall|i: int| 0 <= i < self.balls.len() ==> (#[trigger] self.balls[i]).number == i
        &&& forall|i: int|
            0 <= i < self.balls.len() ==> (#[trigger] self.balls[i]).max_x == self.max_x
                && self.balls[i].max_y == self.max_y
    }

    /// Every ball sits in the band from which a tick may be taken.
    pub open spec fn in_bounds(self) -> bool {
        forall|i: int| 0 <= i < self.balls.len() ==> (#[trigger] self.balls[i]).in_bounds()
    }

    /// Create a simulation of `count` balls with randomized attributes,
    /// numbered `0..count` by position in the list.
    pub fn new(
        count: usize,
        rng: &mut rand::rngs::ThreadRng,
        max_x: i64,
        max_y: i64,
        policy: Policy,
    ) -> (sim: Simulation)
        requires
            1 <= max_x <= GEOM_LIMIT,
            1 <= max_y <= GEOM_LIMIT,
        ensures
            sim.wf(),
            sim.in_bounds(),
            sim.balls.len() == count,
            sim.max_x == max_x,
            sim.max_y == max_y,
            sim.policy == policy,
            forall|i: int| 0 <= i < count ==> (#[trigger] sim.balls[i]).visible,
    {
        let mut balls: Vec<Ball> = Vec::new();
        let mut i: usize = 0;
        while i < count
            invariant
                i <= count,
                balls.len() == i,
                1 <= max_x <= GEOM_LIMIT,
                1 <= max_y <= GEOM_LIMIT,
                forall|j: int| 0 <= j < i ==> (#[trigger] balls[j]).wf(),
                forall|j: int| 0 <= j < i ==> (#[trigger] balls[j]).in_bounds(),
                forall|j: int| 0 <= j < i ==> (#[trigger] balls[j]).number == j,
                forall|j: int|
                    0 <= j < i ==> (#[trigger] balls[j]).max_x == max_x && balls[j].max_y == max_y,
                forall|j: int| 0 <= j < i ==> (#[trigger] balls[j]).visible,
            decreases count - i,
        {
            let b = Ball::new(i, rng, max_x, max_y);
            balls.push(b);
            i = i + 1;
        }
        Simulation { balls, max_x, max_y, policy }
    }

    /// Whether every ball is still in the band from which a tick may be
    /// taken. An unverified driver checks this before each `step` call.
    pub fn within_bounds(&self) -> (r: bool)
        ensures
            r == self.in_bounds(),
    {
        let mut i: usize = 0;
        while i < self.balls.len()
            invariant
                i <= self.balls.len(),
                forall|j: int| 0 <= j < i ==> (#[trigger] self.balls[j]).in_bounds(),
            decreases self.balls.len() - i,
        {
            let b = &self.balls[i];
            if b.x < -POS_LIMIT || b.x > POS_LIMIT || b.y < -POS_LIMIT || b.y > POS_LIMIT {
                assert(!self.balls[i as int].in_bounds());
                return false;
            }
            i = i + 1;
        }
        true
    }

    /// Scan all pairs and report, without duplicates and in increasing
    /// order, the index of every ball that takes part in some collision.
    pub fn detect_collisions(&self) -> (ids: Vec<usize>)
        requires
            self.wf(),
            forall|i: int| 0 <= i < self.balls.len() ==> (#[trigger] self.balls[i]).in_reached_bounds(),
        ensures
            forall|k: int| 0 <= k < ids.len() ==> (#[trigger] ids[k]) < self.balls.len(),
            forall|p: int, q: int| 0 <= p < q < ids.len() ==> ids[p] < ids[q],
            forall|i: int|
                0 <= i < self.balls.len() ==> (ids@.contains(i as usize) <==> colliding_at(
                    self.balls@,
                    i,
                )),
    {
        let n: usize = self.balls.len();
        let mut ids: Vec<usize> = Vec::new();
        let mut i: usize = 0;
        while i < n
            invariant
                self.wf(),
                forall|k: int|
                    0 <= k < self.balls.len() ==> (#[trigger] self.balls[k]).in_reached_bounds(),
                n == self.balls.len(),
                i <= n,
                forall|k: int| 0 <= k < ids.len() ==> (#[trigger] ids[k]) < i,
                forall|p: int, q: int| 0 <= p < q < ids.len() ==> ids[p] < ids[q],
                forall|t: int|
                    0 <= t < i ==> (ids@.contains(t as usize) <==> colliding_at(self.balls@, t)),
            decreases n - i,
        {
            let mut hit: bool = false;
            let mut j: usize = 0;
            while j < n
                invariant
                    self.wf(),
                    forall|k: int|
                        0 <= k < self.balls.len() ==> (#[trigger] self.balls[k]).in_reached_bounds(),
                    n == self.balls.len(),
                    i < n,
                    j <= n,
                    hit <==> exists|k: int|
                        0 <= k < j && self.balls@[i as int].collides_spec(#[trigger] self.balls@[k]),
                decreases n - j,
            {
                if self.balls[i].collides(&self.balls[j]) {
                    hit = true;
                }
                j = j + 1;
            }
            if hit {
                let ghost before = ids@;
                ids.push(i);
                proof {
                    assert forall|t: int|
                        0 <= t <= i as int implies ((#[trigger] ids@.contains(t as usize))
                        <==> colliding_at(self.balls@, t)) by {
                        vstd::seq_lib::lemma_seq_contains_after_push(before, i, t as usize);
                    }
                }
            } else {
                proof {
                    if ids@.contains(i as usize) {
                        let w = choose|w: int| 0 <= w < ids@.len() && ids@[w] == i as usize;
                        assert(ids@[w] < i);
                    }
                }
            }
            i = i + 1;
        }
        ids
    }

    /// The entity list after the movement phase of one tick: every ball
    /// shifted once.
    pub open spec fn shifted_seq(self) -> Seq<Ball> {
        self.balls@.map_values(|b: Ball| b.shift_spec())
    }

    /// What one tick makes of the ball at index `i`: it moves, and the
    /// collision policy is applied to it exactly once if it takes part in
    /// any collision at the post-move positions.
    pub open spec fn step_result(self, i: int) -> Ball {
        let shifted = self.shifted_seq();
        if colliding_at(shifted, i) {
            resolved_spec(shifted[i], self.policy)
        } else {
            shifted[i]
        }
    }

    /// Advance the whole simulation by one tick: move every ball, scan the
    /// post-move positions for collisions, then apply the policy once to
    /// each ball found colliding (the scan reports each index once, so a
    /// ball in several simultaneous collisions is still resolved once).
    ///
    /// Visibility never returns: a ball invisible before the tick is
    /// invisible after it.
    pub fn step(&mut self)
        requires
            old(self).wf(),
            old(self).in_bounds(),
        ensures
            final(self).wf(),
            final(self).balls.len() == old(self).balls.len(),
            final(self).max_x == old(self).max_x,
            final(self).max_y == old(self).max_y,
            final(self).policy == old(self).policy,
            forall|i: int|
                0 <= i < old(self).balls.len() ==> final(self).balls[i] == old(self).step_result(
                    i,
                ),
            forall|i: int|
                0 <= i < old(self).balls.len() && !(#[trigger] old(self).balls[i]).visible
                    ==> !final(self).balls[i].visible,
    {
        let ghost orig = *self;
        let n: usize = self.balls.len();
        let mut i: usize = 0;
        while i < n
            invariant
                orig.wf(),
                orig.in_bounds(),
                n == self.balls.len(),
                n == orig.balls.len(),
                i <= n,
                self.max_x == orig.max_x,
                self.max_y == orig.max_y,
                self.policy == orig.policy,
                forall|j: int| 0 <= j < i ==> self.balls[j] == orig.balls[j].shift_spec(),
                forall|j: int|
                    0 <= j < i ==> (#[trigger] self.balls[j]).wf()
                        && self.balls[j].in_reached_bounds(),
                forall|j: int| i <= j < n ==> self.balls[j] == orig.balls[j],
            decreases n - i,
        {
            let mut b = self.balls[i];
            proof {
                assert(b == orig.balls[i as int]);
                assert(orig.balls[i as int].wf());
                assert(orig.balls[i as int].in_bounds());
            }
            b.shift();
            self.balls.set(i, b);
            i = i + 1;
        }
        proof {
            assert(self.balls@ =~= orig.shifted_seq());
            assert forall|j: int| 0 <= j < n implies (#[trigger] self.balls[j]).wf()
                && self.balls[j].in_reached_bounds() && self.balls[j].number == j
                && self.balls[j].max_x == self.max_x && self.balls[j].max_y == self.max_y by {
                assert(self.balls[j] == orig.balls[j].shift_spec());
                assert(orig.balls[j].number == j);
                assert(orig.balls[j].max_x == orig.max_x);
            }
        }
        let ids = self.detect_collisions();
        let ghost shifted = self.balls@;
        let mut t: usize = 0;
        while t < ids.len()
            invariant
                shifted == orig.shifted_seq(),
                n == self.balls.len(),
                n == shifted.len(),
                t <= ids.len(),
                self.max_x == orig.max_x,
                self.max_y == orig.max_y,
                self.policy == orig.policy,
                1 <= self.max_x <= GEOM_LIMIT,
                1 <= self.max_y <= GEOM_LIMIT,
                forall|k: int| 0 <= k < ids.len() ==> (#[trigger] ids[k]) < n,
                forall|p: int, q: int| 0 <= p < q < ids.len() ==> ids[p] < ids[q],
                forall|j: int| 0 <= j < n ==> (ids@.contains(j as usize) <==> colliding_at(shifted, j)),
                forall|j: int| 0 <= j < n ==> (#[trigger] shifted[j]).wf(),
                forall|j: int| 0 <= j < n ==> (#[trigger] shifted[j]).number == j,
                forall|j: int|
                    0 <= j < n ==> (#[trigger] shifted[j]).max_x == self.max_x && shifted[j].max_y
                        == self.max_y,
                forall|j: int|
                    0 <= j < n ==> self.balls[j] == (if ids@.take(t as int).contains(j as usize) {
                        resolved_spec(shifted[j], self.policy)
                    } else {
                        shifted[j]
                    }),
            decreases ids.len() - t,
        {
            let id: usize = ids[t];
            proof {
                if ids@.take(t as int).contains(id) {
                    let w = choose|w: int| 0 <= w < t && ids@.take(t as int)[w] == id;
                    assert(ids@[w] == ids@[t as int]);
                }
            }
            let mut b = self.balls[id];
            resolve_collision(&mut b, self.policy);
            self.balls.set(id, b);
            proof {
                assert(ids@.take(t as int + 1) =~= ids@.take(t as int).push(id));
                assert forall|j: int|
                    0 <= j < n implies self.balls[j] == (if ids@.take(t as int + 1).contains(
                    j as usize,
                ) {
                    resolved_spec(shifted[j], self.policy)
                } else {
                    shifted[j]
                }) by {
                    vstd::seq_lib::lemma_seq_contains_after_push(
                        ids@.take(t as int),
                        id,
                        j as usize,
                    );
                }
            }
            t = t + 1;
        }
        proof {
            assert(ids@.take(ids@.len() as int) =~= ids@);
            assert forall|i2: int| 0 <= i2 < n implies self.balls[i2] == orig.step_result(i2) by {
                assert(ids@.contains(i2 as usize) <==> colliding_at(shifted, i2));
            }
        }
    }
}

/// Bounce policy: a ball that takes part in at least one collision this tick
/// ends the tick at its post-move position with both direction signs negated
/// exactly once, the exact inverse of the direction it would have kept
/// absent the collision.
pub proof fn lemma_bounce_inverts(sim: Simulation, i: int)
    requires
        sim.wf(),
        sim.policy == Policy::Bounce,
        0 <= i < sim.balls.len(),
        colliding_at(sim.shifted_seq(), i),
    ensures
        sim.step_result(i).x_add == -sim.shifted_seq()[i].x_add,
        sim.step_result(i).y_add == -sim.shifted_seq()[i].y_add,
        sim.step_result(i).x == sim.shifted_seq()[i].x,
        sim.step_result(i).y == sim.shifted_seq()[i].y,
        sim.step_result(i).visible == sim.shifted_seq()[i].visible,
{
    assert(sim.balls[i].wf());
    assert(sim.shifted_seq()[i] == sim.balls[i].shift_spec());
}

/// Disable policy: a ball that takes part in at least one collision this
/// tick ends the tick invisible, and one that takes part in none keeps its
/// visibility.
pub proof fn lemma_disable_hides(sim: Simulation, i: int)
    requires
        sim.policy == Policy::Disable,
        0 <= i < sim.balls.len(),
    ensures
        colliding_at(sim.shifted_seq(), i) ==> !sim.step_result(i).visible,
        !colliding_at(sim.shifted_seq(), i) ==> sim.step_result(i).visible
            == sim.balls[i].visible,
{
}

} // verus!

