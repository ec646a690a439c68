//! The data attached to entities.

use vstd::prelude::*;
use crate::geometry::{Point, Rect};

verus! {

/// The way an entity faces and moves.
#[derive(Debug, Clone, Copy, PartialEq, Eq, Structural)]
pub enum Direction {
    Up,
    Down,
    Left,
    Right,
}

/// The current position of a given entity.
#[derive(Debug, Clone, Copy, PartialEq, Eq, Structural)]
pub struct Position(pub Point);

/// Current speed and heading of a given entity.
#[derive(Debug, Clone, Copy, PartialEq, Eq, Structural)]
pub struct Velocity {
    pub speed: i32,
    pub direction: Direction,
}

/// One image of a sprite sheet.
#[derive(Debug, Clone, Copy, PartialEq, Eq, Structural)]
pub struct Sprite {
    /// The specific spritesheet to render from.
    pub spritesheet: usize,
    /// The region of the spritesheet to be rendered.
    pub region: Rect,
}

/// Why a set of frames cannot be animated.
#[derive(Debug, Clone, Copy, PartialEq, Eq, Structural)]
pub enum AnimationError {
    /// The four directions do not have the same number of frames.
    FrameCountMismatch,
    /// The current frame is not an index into the frames; with no frames at
    /// all, no index is.
    FrameOutOfRange,
}

/// The current frame of the animation in the direction
/// that the entity is moving.
#[derive(Debug, Clone, PartialEq, Eq)]
pub struct MovementAnimation {
    pub current_frame: usize,
    pub up_frames: Vec<Sprite>,
    pub down_frames: Vec<Sprite>,
    pub left_frames: Vec<Sprite>,
    pub right_frames: Vec<Sprite>,
}

/// What is wrong with the given frame index and frame counts, if anything.
/// A mismatch between the counts is reported before a bad index.
pub open spec fn animation_fault(current_frame: int, up: int, down: int, left: int, right: int) -> Option<AnimationError> {
    if up != down || up != left || up != right {
        Some(AnimationError::FrameCountMismatch)
    } else if current_frame >= up {
        Some(AnimationError::FrameOutOfRange)
    } else {
        None
    }
}

impl MovementAnimation {
    /// Frames per direction, read off the upward frames.
    pub open spec fn frame_count(&self) -> nat {
        self.up_frames@.len()
    }

    /// All four directions have the same number of frames and the current
    /// frame indexes into them.
    pub open spec fn wf(&self) -> bool {
        animation_fault(
            self.current_frame as int,
            self.up_frames@.len() as int,
            self.down_frames@.len() as int,
            self.left_frames@.len() as int,
            self.right_frames@.len() as int,
        ) is None
    }

    /// The frames shown while facing `direction`.
    pub open spec fn frames_for(&self, direction: Direction) -> Seq<Sprite> {
        match direction {
            Direction::Up => self.up_frames@,
            Direction::Down => self.down_frames@,
            Direction::Left => self.left_frames@,
            Direction::Right => self.right_frames@,
        }
    }

    /// The sprite to draw while facing `direction`.
    pub open spec fn current_sprite(&self, direction: Direction) -> Sprite {
        self.frames_for(direction)[self.current_frame as int]
    }

    /// Bundles the frames of the four directions, or says why they cannot be
    /// animated.
    pub fn new(
        current_frame: usize,
        up_frames: Vec<Sprite>,
        down_frames: Vec<Sprite>,
        left_frames: Vec<Sprite>,
        right_frames: Vec<Sprite>,
    ) -> (r: Result<MovementAnimation, AnimationError>)
        ensures
            match r {
                Ok(anim) => {
                    &&& anim.wf()
                    &&& anim.current_frame == current_frame
                    &&& anim.up_frames == up_frames
                    &&& anim.down_frames == down_frames
                    &&& anim.left_frames == left_frames
                    &&& anim.right_frames == right_frames
                },
                Err(e) => animation_fault(
                    current_frame as int,
                    up_frames@.len() as int,
                    down_frames@.len() as int,
                    left_frames@.len() as int,
                    right_frames@.len() as int,
                ) == Some(e),
            },
    {
        let count = up_frames.len();
        if down_frames.len() != count || left_frames.len() != count || right_frames.len() != count {
            Err(AnimationError::FrameCountMismatch)
        } else if current_frame >= count {
            Err(AnimationError::FrameOutOfRange)
        } else {
            Ok(MovementAnimation { current_frame, up_frames, down_frames, left_frames, right_frames })
        }
    }

    /// Whether the frames can be animated.
    pub fn is_valid(&self) -> (ok: bool)
        ensures
            ok == self.wf(),
    {
        let count = self.up_frames.len();
        self.down_frames.len() == count && self.left_frames.len() == count
            && self.right_frames.len() == count && self.current_frame < count
    }

    /// The frames shown while facing `direction`.
    pub fn frames(&self, direction: Direction) -> (frames: &Vec<Sprite>)
        ensures
            frames@ == self.frames_for(direction),
    {
        match direction {
            Direction::Up => &self.up_frames,
            Direction::Down => &self.down_frames,
            Direction::Left => &self.left_frames,
            Direction::Right => &self.right_frames,
        }
    }

    /// The sprite to draw while facing `direction`.
    pub fn sprite(&self, direction: Direction) -> (sprite: Sprite)
        requires
            self.wf(),
        ensures
            sprite == self.current_sprite(direction),
    {
        let frames = self.frames(direction);
        frames[self.current_frame]
    }
}

/// The component that `entity` has in `table`, if any. A table is indexed by
/// entity; an entity beyond its end has no such component.
pub open spec fn component_at<T>(table: Seq<Option<T>>, entity: int) -> Option<T> {
    if 0 <= entity < table.len() {
        table[entity]
    } else {
        None
    }
}

} // verus!
