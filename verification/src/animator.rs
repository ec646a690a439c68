//! The animation update: every entity that has both an animation and a
//! velocity shows the next frame of its walking cycle while it moves.

use vstd::prelude::*;
use crate::components::{component_at, MovementAnimation, Sprite, Velocity};

verus! {

/// The frame after one tick: the same at rest, the next in the cycle of
/// `count` frames while moving.
pub open spec fn next_frame(frame: int, count: int, speed: int) -> int {
    if speed == 0 {
        frame
    } else {
        (frame + 1) % count
    }
}

/// The animation one tick later; only the current frame can change.
pub open spec fn animated(anim: MovementAnimation, vel: Velocity) -> MovementAnimation {
    MovementAnimation {
        current_frame: next_frame(anim.current_frame as int, anim.frame_count() as int, vel.speed as int) as usize,
        ..anim
    }
}

/// What the update makes of one slot of the animation table: an entity is
/// animated if it has both components, and left alone otherwise.
pub open spec fn joined(animation: Option<MovementAnimation>, velocity: Option<Velocity>) -> Option<MovementAnimation> {
    match (animation, velocity) {
        (Some(a), Some(v)) => Some(animated(a, v)),
        _ => animation,
    }
}

/// The animation table one tick later.
pub open spec fn animated_all(animations: Seq<Option<MovementAnimation>>, velocities: Seq<Option<Velocity>>) -> Seq<Option<MovementAnimation>> {
    Seq::new(animations.len(), |i: int| joined(animations[i], component_at(velocities, i)))
}

/// Every animation in the table can be animated.
pub open spec fn all_wf(animations: Seq<Option<MovementAnimation>>) -> bool {
    forall|i: int| 0 <= i < animations.len() ==> (#[trigger] animations[i] matches Some(a) ==> a.wf())
}

/// System that advances walking animations; it applies to anything which has
/// both an animation and a velocity.
pub struct Animator;

impl Animator {
    /// Advances one entity's animation and picks the sprite to draw.
    pub fn step(anim: &mut MovementAnimation, vel: Velocity) -> (sprite: Sprite)
        requires
            old(anim).wf(),
        ensures
            *final(anim) == animated(*old(anim), vel),
            final(anim).wf(),
            vel.speed == 0 ==> *final(anim) == *old(anim),
            sprite == final(anim).current_sprite(vel.direction),
    {
        if vel.speed != 0 {
            let count = anim.frames(vel.direction).len();
            anim.current_frame = (anim.current_frame + 1) % count;
        }
        anim.sprite(vel.direction)
    }

    /// Advances every entity that has both an animation and a velocity; the
    /// slot index is the entity.
    pub fn run(&mut self, animations: &mut Vec<Option<MovementAnimation>>, velocities: &Vec<Option<Velocity>>)
        requires
            all_wf(old(animations)@),
        ensures
            final(animations)@ == animated_all(old(animations)@, velocities@),
            all_wf(final(animations)@),
    {
        let mut i: usize = 0;
        while i < animations.len() && i < velocities.len()
            invariant
                animations@.len() == old(animations)@.len(),
                i <= animations@.len(),
                all_wf(old(animations)@),
                forall|j: int| 0 <= j < i ==> animations@[j] == joined(old(animations)@[j], component_at(velocities@, j)),
                forall|j: int| i <= j < animations@.len() ==> animations@[j] == old(animations)@[j],
            decreases animations@.len() - i,
        {
            match (&mut animations[i], velocities[i]) {
                (Some(anim), Some(vel)) => {
                    Self::step(anim, vel);
                },
                _ => {},
            }
            i = i + 1;
        }
    }
}

/// How many of the ticks with the given speeds were spent moving.
pub open spec fn moving_ticks(speeds: Seq<i32>) -> nat
    decreases speeds.len(),
{
    if speeds.len() == 0 {
        0
    } else if speeds.last() != 0 {
        moving_ticks(speeds.drop_last()) + 1
    } else {
        moving_ticks(speeds.drop_last())
    }
}

/// The frame reached from `frame` after one tick at each of `speeds`.
pub open spec fn frame_through(frame: int, count: int, speeds: Seq<i32>) -> int
    decreases speeds.len(),
{
    if speeds.len() == 0 {
        frame
    } else {
        next_frame(frame_through(frame, count, speeds.drop_last()), count, speeds.last() as int)
    }
}

/// The frame counts the moving ticks around the cycle: ticks at rest do not
/// advance it, and motion resumes from the frame it stopped on.
pub proof fn lemma_frame_counts_moving_ticks(frame: int, count: int, speeds: Seq<i32>)
    requires
        0 <= frame < count,
    ensures
        frame_through(frame, count, speeds) == (frame + moving_ticks(speeds)) % count,
        0 <= frame_through(frame, count, speeds) < count,
    decreases speeds.len(),
{
    if speeds.len() == 0 {
        assert(frame % count == frame) by (nonlinear_arith)
            requires
                0 <= frame < count,
        ;
    } else {
        lemma_frame_counts_moving_ticks(frame, count, speeds.drop_last());
        let n = frame + moving_ticks(speeds.drop_last());
        assert((n % count + 1) % count == (n + 1) % count) by (nonlinear_arith)
            requires
                count > 0,
        ;
    }
}

/// The cycle has period exactly `count`: moving for `ticks` ticks leads back
/// to the starting frame if and only if `ticks` is a multiple of `count`.
pub proof fn lemma_cycle_period(frame: int, count: int, ticks: nat)
    requires
        0 <= frame < count,
    ensures
        (frame + ticks) % count == frame <==> ticks % (count as nat) == 0,
{
    let q = ticks as int / count;
    let r = ticks as int % count;
    assert(ticks == q * count + r && 0 <= r < count) by (nonlinear_arith)
        requires
            q == ticks as int / count,
            r == ticks as int % count,
            count > 0,
    ;
    assert((frame + ticks) % count == (frame + r) % count) by (nonlinear_arith)
        requires
            ticks == q * count + r,
            count > 0,
    ;
    if frame + r < count {
        assert((frame + r) % count == frame + r) by (nonlinear_arith)
            requires
                0 <= frame + r < count,
        ;
    } else {
        assert((frame + r) % count == frame + r - count) by (nonlinear_arith)
            requires
                count <= frame + r < 2 * count,
        ;
    }
}

} // verus!
