//! The position update: every entity that has both a position and a velocity
//! is moved by its velocity once per tick.

use vstd::prelude::*;
use crate::components::{component_at, Direction, Position, Velocity};
use crate::geometry::{clamp_position, clamp_to_position, is_position, Point};

verus! {

/// The step that a velocity stands for; the vertical axis grows downward.
pub open spec fn offset(direction: Direction, speed: int) -> (int, int) {
    match direction {
        Direction::Up => (0, -speed),
        Direction::Down => (0, speed),
        Direction::Left => (-speed, 0),
        Direction::Right => (speed, 0),
    }
}

/// A coordinate moved by `delta`: untouched when `delta` is zero, and held
/// within the coordinate range otherwise.
pub open spec fn moved(coordinate: i32, delta: int) -> i32 {
    if delta == 0 {
        coordinate
    } else {
        clamp_position(coordinate + delta) as i32
    }
}

/// The position one tick later.
pub open spec fn advanced(pos: Position, vel: Velocity) -> Position {
    let (dx, dy) = offset(vel.direction, vel.speed as int);
    Position(Point { x: moved(pos.0.x, dx), y: moved(pos.0.y, dy) })
}

/// The position `ticks` ticks later, at a constant velocity.
pub open spec fn advanced_by(pos: Position, vel: Velocity, ticks: nat) -> Position
    decreases ticks,
{
    if ticks == 0 {
        pos
    } else {
        advanced(advanced_by(pos, vel, (ticks - 1) as nat), vel)
    }
}

/// What the update makes of one slot of the position table: an entity is
/// moved if it has both components, and left alone otherwise.
pub open spec fn joined(position: Option<Position>, velocity: Option<Velocity>) -> Option<Position> {
    match (position, velocity) {
        (Some(p), Some(v)) => Some(advanced(p, v)),
        _ => position,
    }
}

/// The position table one tick later.
pub open spec fn advanced_all(positions: Seq<Option<Position>>, velocities: Seq<Option<Velocity>>) -> Seq<Option<Position>> {
    Seq::new(positions.len(), |i: int| joined(positions[i], component_at(velocities, i)))
}

/// Struct system abstraction for our physics; it applies to anything
/// which has both a velocity and a position.
pub struct Physics;

impl Physics {
    /// Moves one coordinate by `delta`.
    fn shift(coordinate: i32, delta: i64) -> (r: i32)
        requires
            -2147483648 <= delta <= 2147483648,
        ensures
            r == moved(coordinate, delta as int),
    {
        if delta == 0 {
            coordinate
        } else {
            clamp_to_position(coordinate as i64 + delta)
        }
    }

    /// Moves one entity by its velocity. At speed zero nothing changes.
    pub fn step(pos: Position, vel: Velocity) -> (next: Position)
        ensures
            next == advanced(pos, vel),
            vel.speed == 0 ==> next == pos,
            pos.0.wf() ==> next.0.wf(),
    {
        let speed: i64 = vel.speed as i64;
        let point = pos.0;
        match vel.direction {
            Direction::Left => Position(Point { x: Self::shift(point.x, -speed), y: point.y }),
            Direction::Right => Position(Point { x: Self::shift(point.x, speed), y: point.y }),
            Direction::Up => Position(Point { x: point.x, y: Self::shift(point.y, -speed) }),
            Direction::Down => Position(Point { x: point.x, y: Self::shift(point.y, speed) }),
        }
    }

    /// Moves every entity that has both a position and a velocity; the slot
    /// index is the entity. Entities are independent of each other.
    pub fn run(&mut self, positions: &mut Vec<Option<Position>>, velocities: &Vec<Option<Velocity>>)
        ensures
            final(positions)@ == advanced_all(old(positions)@, velocities@),
    {
        let mut i: usize = 0;
        while i < positions.len() && i < velocities.len()
            invariant
                positions@.len() == old(positions)@.len(),
                i <= positions@.len(),
                forall|j: int| 0 <= j < i ==> positions@[j] == joined(old(positions)@[j], component_at(velocities@, j)),
                forall|j: int| i <= j < positions@.len() ==> positions@[j] == old(positions)@[j],
            decreases positions@.len() - i,
        {
            match (positions[i], velocities[i]) {
                (Some(pos), Some(vel)) => {
                    positions[i] = Some(Self::step(pos, vel));
                },
                _ => {},
            }
            i = i + 1;
        }
    }
}

/// Motion at a constant velocity is additive: as long as the target lies in
/// the coordinate range, `ticks` ticks shift the position by `ticks` times
/// the velocity's step, and the axis across the heading is left alone.
pub proof fn lemma_steady_motion(pos: Position, vel: Velocity, ticks: nat)
    requires
        pos.0.wf(),
        is_position(pos.0.x + ticks * offset(vel.direction, vel.speed as int).0),
        is_position(pos.0.y + ticks * offset(vel.direction, vel.speed as int).1),
    ensures
        advanced_by(pos, vel, ticks).0.x == pos.0.x + ticks * offset(vel.direction, vel.speed as int).0,
        advanced_by(pos, vel, ticks).0.y == pos.0.y + ticks * offset(vel.direction, vel.speed as int).1,
    decreases ticks,
{
    let dx = offset(vel.direction, vel.speed as int).0;
    let dy = offset(vel.direction, vel.speed as int).1;
    if ticks > 0 {
        let before = (ticks - 1) as nat;
        assert(ticks * dx == before * dx + dx && ticks * dy == before * dy + dy) by (nonlinear_arith)
            requires
                before == ticks - 1,
        ;
        assert(is_position(pos.0.x + before * dx)) by (nonlinear_arith)
            requires
                is_position(pos.0.x as int),
                is_position(pos.0.x + ticks * dx),
                0 <= before < ticks,
        ;
        assert(is_position(pos.0.y + before * dy)) by (nonlinear_arith)
            requires
                is_position(pos.0.y as int),
                is_position(pos.0.y + ticks * dy),
                0 <= before < ticks,
        ;
        lemma_steady_motion(pos, vel, before);
    } else {
        assert(ticks * dx == 0 && ticks * dy == 0) by (nonlinear_arith)
            requires
                ticks == 0,
        ;
    }
}

} // verus!
