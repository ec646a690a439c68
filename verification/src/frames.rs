//! Cutting a sprite sheet into walking frames.

use vstd::prelude::*;
use crate::components::{Direction, MovementAnimation, Sprite};
use crate::geometry::{clamp_position, clamp_to_position, Rect};

verus! {

/// Frames in one walking cycle.
pub const FRAME_COUNT: usize = 3;

/// The sheet row that holds the frames for `direction`.
pub open spec fn sheet_row(direction: Direction) -> int {
    match direction {
        Direction::Down => 0,
        Direction::Left => 1,
        Direction::Right => 2,
        Direction::Up => 3,
    }
}

/// The `index`-th frame of `direction` on a sheet whose first frame is
/// `top_left_frame`: one frame width further right per index, one frame
/// height further down per row.
pub open spec fn frame_region(top_left_frame: Rect, direction: Direction, index: int) -> Rect {
    Rect::clamped(
        top_left_frame.x + top_left_frame.w * index,
        top_left_frame.y + top_left_frame.h * sheet_row(direction),
        top_left_frame.w as int,
        top_left_frame.h as int,
    )
}

/// The frames of `direction`, in playing order.
pub open spec fn direction_frames(spritesheet: usize, top_left_frame: Rect, direction: Direction) -> Seq<Sprite> {
    Seq::new(
        FRAME_COUNT as nat,
        |i: int| Sprite { spritesheet, region: frame_region(top_left_frame, direction, i) },
    )
}

/// Returns the row in the spritesheet for animation.
pub fn direction_spritesheet(direction: Direction) -> (row: i32)
    ensures
        row == sheet_row(direction),
{
    match direction {
        Direction::Up => 3,
        Direction::Down => 0,
        Direction::Left => 1,
        Direction::Right => 2,
    }
}

/// Create character animations using sprite-sheet information.
pub fn character_animation_frames(spritesheet: usize, top_left_frame: Rect, direct: Direction) -> (frames: Vec<Sprite>)
    ensures
        frames@ == direction_frames(spritesheet, top_left_frame, direct),
        frames@.len() == FRAME_COUNT,
        forall|i: int| 0 <= i < frames@.len() ==> (#[trigger] frames@[i]).spritesheet == spritesheet,
{
    let (frame_width, frame_height) = top_left_frame.size();
    let row: i64 = direction_spritesheet(direct) as i64;
    let y_offset: i32 = clamp_to_position(top_left_frame.y() as i64 + frame_height as i64 * row);

    let mut frames: Vec<Sprite> = Vec::new();
    let mut i: usize = 0;
    while i < FRAME_COUNT
        invariant
            i <= FRAME_COUNT,
            frames@.len() == i,
            (frame_width, frame_height) == (top_left_frame.w, top_left_frame.h),
            y_offset == clamp_position(top_left_frame.y + top_left_frame.h * sheet_row(direct)),
            forall|j: int| 0 <= j < i ==> frames@[j] == direction_frames(spritesheet, top_left_frame, direct)[j],
        decreases FRAME_COUNT - i,
    {
        assert(0 <= frame_width * i <= FRAME_COUNT * u32::MAX) by (nonlinear_arith)
            requires
                0 <= frame_width <= u32::MAX,
                0 <= i < FRAME_COUNT,
        ;
        let x: i32 = clamp_to_position(top_left_frame.x() as i64 + frame_width as i64 * i as i64);
        frames.push(Sprite { spritesheet, region: Rect::new(x, y_offset, frame_width, frame_height) });
        i = i + 1;
    }
    frames
}

impl MovementAnimation {
    /// The walking animation cut from a sheet whose first frame is
    /// `top_left_frame`, standing on its first frame.
    pub fn from_sheet(spritesheet: usize, top_left_frame: Rect) -> (anim: MovementAnimation)
        ensures
            anim.wf(),
            anim.current_frame == 0,
            anim.frame_count() == FRAME_COUNT,
            forall|d: Direction| #[trigger] anim.frames_for(d) == direction_frames(spritesheet, top_left_frame, d),
    {
        MovementAnimation {
            current_frame: 0,
            up_frames: character_animation_frames(spritesheet, top_left_frame, Direction::Up),
            down_frames: character_animation_frames(spritesheet, top_left_frame, Direction::Down),
            left_frames: character_animation_frames(spritesheet, top_left_frame, Direction::Left),
            right_frames: character_animation_frames(spritesheet, top_left_frame, Direction::Right),
        }
    }
}

} // verus!
